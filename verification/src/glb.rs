//! Textures inside binary glTF files.
//!
//! A file starts with a head of twelve bytes; chunks follow, each with its
//! length and its kind before it. One holds a JSON document, another the bytes
//! that the document speaks of.

use vstd::prelude::*;

use crate::bytes::{
    bytes_of_u32, le32, lemma_le32_back, lemma_stands_split, stands, ByteCursor,
};
use crate::folds::lemma_take_next;
use crate::json::{document, parse_json, Json, JsonView};
use crate::paths::{path_stem, path_stem_of};
use crate::text::{concat, contains, decimal, decimal_digits, has_part, part_at};

verus! {

/// The mark of a binary glTF file.
pub const GLB_MAGIC: u32 = 0x4654_6c67;

/// The kind of the chunk that holds the document.
pub const JSON_CHUNK: u32 = 0x4e4f_534a;

/// The kind of the chunk that holds the bytes.
pub const BIN_CHUNK: u32 = 0x004e_4942;

/// Why a file gives nothing.
#[derive(Clone, Debug)]
pub enum GlbError {
    TooShort,
    NotGlb,
    NoJson,
    /// The document cannot be read: the error in words.
    Json(String),
}

impl GlbError {
    /// What the user is told.
    pub fn message(&self) -> (r: String)
        ensures
            r@ == match *self {
                GlbError::TooShort => "soubor příliš krátký"@,
                GlbError::NotGlb => "není GLB soubor"@,
                GlbError::NoJson => "chybí JSON chunk"@,
                GlbError::Json(e) => "JSON: "@ + e@,
            },
    {
        match self {
            GlbError::TooShort => "soubor příliš krátký".to_string(),
            GlbError::NotGlb => "není GLB soubor".to_string(),
            GlbError::NoJson => "chybí JSON chunk".to_string(),
            GlbError::Json(e) => concat("JSON: ", e.as_str()),
        }
    }
}

/// The chunks that matter: where each starts and ends in the file.
pub struct ChunksView {
    pub json: Option<(int, int)>,
    pub bin: Option<(int, int)>,
}

/// The chunks from `pos` on: of each kind the last one. A chunk that is not all
/// there ends the search.
pub open spec fn chunks_from(data: Seq<u8>, pos: int, found: ChunksView) -> ChunksView
    decreases data.len() - pos,
{
    if pos < 0 || pos + 8 > data.len() {
        found
    } else {
        let from = pos + 8;
        let to = from + le32(data, pos);
        if to > data.len() {
            found
        } else {
            let kind = le32(data, pos + 4);
            chunks_from(
                data,
                to,
                if kind == JSON_CHUNK {
                    ChunksView { json: Some((from, to)), ..found }
                } else if kind == BIN_CHUNK {
                    ChunksView { bin: Some((from, to)), ..found }
                } else {
                    found
                },
            )
        }
    }
}

/// The chunks of a file.
pub open spec fn chunks(data: Seq<u8>) -> ChunksView {
    chunks_from(data, 12, ChunksView { json: None, bin: None })
}

/// The chunks that matter lie inside the file.
pub proof fn law_chunks_inside(data: Seq<u8>, pos: int, found: ChunksView)
    requires
        0 <= pos,
        found.json matches Some((a, b)) ==> 0 <= a <= b <= data.len(),
        found.bin matches Some((a, b)) ==> 0 <= a <= b <= data.len(),
    ensures
        chunks_from(data, pos, found).json matches Some((a, b)) ==> 0 <= a <= b <= data.len(),
        chunks_from(data, pos, found).bin matches Some((a, b)) ==> 0 <= a <= b <= data.len(),
    decreases data.len() - pos,
{
    if pos + 8 <= data.len() {
        let from = pos + 8;
        let to = from + le32(data, pos);
        if to <= data.len() {
            let kind = le32(data, pos + 4);
            let next = if kind == JSON_CHUNK {
                ChunksView { json: Some((from, to)), ..found }
            } else if kind == BIN_CHUNK {
                ChunksView { bin: Some((from, to)), ..found }
            } else {
                found
            };
            law_chunks_inside(data, to, next);
        }
    }
}

/// The bytes of the chunk that holds them; none without one.
pub open spec fn bin_of(data: Seq<u8>) -> Seq<u8> {
    match chunks(data).bin {
        Some((a, b)) => data.subrange(a, b),
        None => Seq::empty(),
    }
}

/// A texture of a file.
#[derive(Clone, Debug)]
pub struct GlbTexture {
    pub file_name: String,
    pub data: Vec<u8>,
}

pub struct TextureView {
    pub file_name: Seq<char>,
    pub data: Seq<u8>,
}

pub open spec fn texture_views(v: Seq<GlbTexture>) -> Seq<TextureView> {
    v.map_values(|t: GlbTexture| TextureView { file_name: t.file_name@, data: t.data@ })
}

/// The name of the file of an image: the stem of its own name, or its number,
/// and an extension for its kind.
pub open spec fn image_file(image: JsonView, index: nat) -> Seq<char> {
    let name = match image.text_of("name"@) {
        Some(n) => n,
        None => Seq::empty(),
    };
    let mime = match image.text_of("mimeType"@) {
        Some(m) => m,
        None => "image/png"@,
    };
    let stem = if name.len() == 0 {
        "image_"@ + decimal_digits(index)
    } else {
        path_stem_of(name)
    };
    let ext = if has_part(mime, "jpeg"@) || has_part(mime, "jpg"@) {
        ".jpg"@
    } else {
        ".png"@
    };
    stem + ext
}

/// Where the bytes of an image lie among `size` of them: the view that it names
/// must be there and end among them.
pub open spec fn image_span(image: JsonView, buffer_views: Seq<JsonView>, size: nat) -> Option<
    (int, int),
> {
    match image.number_of("bufferView"@) {
        None => None,
        Some(k) => if k >= buffer_views.len() {
            None
        } else {
            let view = buffer_views[k as int];
            let from = match view.number_of("byteOffset"@) {
                Some(n) => n as int,
                None => 0,
            };
            let len = match view.number_of("byteLength"@) {
                Some(n) => n as int,
                None => 0,
            };
            if from + len > size {
                None
            } else {
                Some((from, from + len))
            }
        },
    }
}

/// The textures of the first images, in order; an image without bytes has none.
pub open spec fn image_textures(
    images: Seq<JsonView>,
    buffer_views: Seq<JsonView>,
    bin: Seq<u8>,
) -> Seq<TextureView>
    decreases images.len(),
{
    if images.len() == 0 {
        Seq::empty()
    } else {
        let front = image_textures(images.drop_last(), buffer_views, bin);
        match image_span(images.last(), buffer_views, bin.len()) {
            None => front,
            Some((from, to)) => front.push(
                TextureView {
                    file_name: image_file(images.last(), (images.len() - 1) as nat),
                    data: bin.subrange(from, to),
                },
            ),
        }
    }
}

/// The textures that a document names; none where it has no list of images.
pub open spec fn document_textures(doc: JsonView, bin: Seq<u8>) -> Option<Seq<TextureView>> {
    match doc.list_of("images"@) {
        None => None,
        Some(images) => {
            let views = match doc.list_of("bufferViews"@) {
                Some(v) => v,
                None => Seq::empty(),
            };
            Some(image_textures(images, views, bin))
        },
    }
}

/// What a file gives.
#[derive(Clone, Debug)]
pub enum GlbExtract {
    Refused(GlbError),
    NoImages,
    Textures(Vec<GlbTexture>),
}

fn image_file_name(image: &Json, index: usize) -> (r: String)
    ensures
        r@ == image_file(image@, index as nat),
{
    let name = match image.text_of("name") {
        Some(n) => n,
        None => "",
    };
    proof {
        reveal_strlit("");
        assert(""@ =~= Seq::<char>::empty());
    }
    let mime = match image.text_of("mimeType") {
        Some(m) => m,
        None => "image/png",
    };
    let ext = if contains(mime, "jpeg") || contains(mime, "jpg") {
        ".jpg"
    } else {
        ".png"
    };
    if name.is_empty() {
        let n = decimal(index as u64);
        let stem = concat("image_", n.as_str());
        concat(stem.as_str(), ext)
    } else {
        let stem = path_stem(name);
        concat(stem.as_str(), ext)
    }
}

fn find_span(image: &Json, buffer_views: &Vec<Json>, size: usize) -> (r: Option<(usize, usize)>)
    ensures
        match (
            r,
            image_span(image@, Seq::new(buffer_views@.len(), |i: int| buffer_views@[i]@), size as nat),
        ) {
            (Some((a, b)), Some((x, y))) => a == x && b == y && a <= b <= size,
            (None, None) => true,
            _ => false,
        },
{
    let k: u64 = match image.number_of("bufferView") {
        Some(k) => k,
        None => {
            return None;
        },
    };
    if k >= buffer_views.len() as u64 {
        return None;
    }
    let view = &buffer_views[k as usize];
    let from: u64 = match view.number_of("byteOffset") {
        Some(n) => n,
        None => 0,
    };
    let len: u64 = match view.number_of("byteLength") {
        Some(n) => n,
        None => 0,
    };
    if from > size as u64 || len > size as u64 - from {
        return None;
    }
    Some((from as usize, (from + len) as usize))
}

fn copy_span(data: &Vec<u8>, from: usize, to: usize) -> (r: Vec<u8>)
    requires
        from <= to <= data@.len(),
    ensures
        r@ == data@.subrange(from as int, to as int),
{
    let mut r: Vec<u8> = Vec::new();
    let mut i: usize = from;
    while i < to
        invariant
            from <= i <= to <= data@.len(),
            r@ == data@.subrange(from as int, i as int),
        decreases to - i,
    {
        r.push(data[i]);
        i = i + 1;
        assert(data@.subrange(from as int, i as int) =~= data@.subrange(from as int, i - 1).push(
            data@[i - 1],
        ));
    }
    r
}

/// The textures that a document names. `bin` holds the bytes that it speaks of.
pub fn textures_of_document(doc: &Json, bin: &Vec<u8>) -> (r: Option<Vec<GlbTexture>>)
    ensures
        match (r, document_textures(doc@, bin@)) {
            (Some(t), Some(v)) => texture_views(t@) == v,
            (None, None) => true,
            _ => false,
        },
{
    let images = match doc.get("images") {
        None => {
            return None;
        },
        Some(v) => match v.as_array() {
            None => {
                return None;
            },
            Some(a) => a,
        },
    };
    let none: Vec<Json> = Vec::new();
    let buffer_views = match doc.get("bufferViews") {
        None => &none,
        Some(v) => match v.as_array() {
            None => &none,
            Some(a) => a,
        },
    };
    let ghost bvs = Seq::new(buffer_views@.len(), |i: int| buffer_views@[i]@);
    let ghost imgs = Seq::new(images@.len(), |i: int| images@[i]@);
    proof {
        assert(imgs =~= doc@.list_of("images"@)->0);
        match doc@.list_of("bufferViews"@) {
            Some(v) => {
                assert(bvs =~= v);
            },
            None => {
                assert(bvs =~= Seq::<JsonView>::empty());
            },
        }
    }
    let mut textures: Vec<GlbTexture> = Vec::new();
    let mut i: usize = 0;
    assert(imgs.take(0) =~= Seq::<JsonView>::empty());
    assert(texture_views(textures@) =~= Seq::<TextureView>::empty());
    while i < images.len()
        invariant
            i <= images@.len(),
            imgs == Seq::new(images@.len(), |i: int| images@[i]@),
            bvs == Seq::new(buffer_views@.len(), |i: int| buffer_views@[i]@),
            texture_views(textures@) == image_textures(imgs.take(i as int), bvs, bin@),
        decreases images@.len() - i,
    {
        let ghost before = textures@;
        proof {
            lemma_take_next(imgs, i as int);
            assert(imgs.take(i + 1).last() == images@[i as int]@);
        }
        match find_span(&images[i], buffer_views, bin.len()) {
            Some((from, to)) => {
                let file_name = image_file_name(&images[i], i);
                let data = copy_span(bin, from, to);
                textures.push(GlbTexture { file_name, data });
                assert(texture_views(textures@) =~= texture_views(before).push(
                    TextureView { file_name: file_name@, data: data@ },
                ));
            },
            None => {},
        }
        i = i + 1;
    }
    assert(imgs.take(i as int) =~= imgs);
    Some(textures)
}

/// Finds the chunks of a file.
fn find_chunks(bytes: &Vec<u8>) -> (r: (Option<(usize, usize)>, Option<(usize, usize)>))
    requires
        bytes@.len() >= 12,
    ensures
        match (r.0, chunks(bytes@).json) {
            (Some((a, b)), Some((x, y))) => a == x && b == y && a <= b <= bytes@.len(),
            (None, None) => true,
            _ => false,
        },
        match (r.1, chunks(bytes@).bin) {
            (Some((a, b)), Some((x, y))) => a == x && b == y && a <= b <= bytes@.len(),
            (None, None) => true,
            _ => false,
        },
{
    let len: u64 = bytes.len() as u64;
    let mut json: Option<(usize, usize)> = None;
    let mut bin: Option<(usize, usize)> = None;
    let mut pos: u64 = 12;
    let ghost mut found = ChunksView { json: None, bin: None };
    while len - pos >= 8
        invariant
            len == bytes@.len(),
            len <= usize::MAX,
            12 <= pos <= len,
            chunks(bytes@) == chunks_from(bytes@, pos as int, found),
            match (json, found.json) {
                (Some((a, b)), Some((x, y))) => a == x && b == y && a <= b <= bytes@.len(),
                (None, None) => true,
                _ => false,
            },
            match (bin, found.bin) {
                (Some((a, b)), Some((x, y))) => a == x && b == y && a <= b <= bytes@.len(),
                (None, None) => true,
                _ => false,
            },
        ensures
            chunks(bytes@) == found,
        decreases len - pos,
    {
        let mut cur = ByteCursor { data: bytes, pos };
        let size: u32 = match cur.read_u32() {
            Some(n) => n,
            None => 0,
        };
        let kind: u32 = match cur.read_u32() {
            Some(n) => n,
            None => 0,
        };
        let from: u64 = pos + 8;
        if size as u64 > len - from {
            break;
        }
        let to: u64 = from + size as u64;
        if kind == JSON_CHUNK {
            json = Some((from as usize, to as usize));
            proof {
                found = ChunksView { json: Some((from as int, to as int)), ..found };
            }
        } else if kind == BIN_CHUNK {
            bin = Some((from as usize, to as usize));
            proof {
                found = ChunksView { bin: Some((from as int, to as int)), ..found };
            }
        }
        pos = to;
    }
    (json, bin)
}

/// Reads the textures of a file: what its document names of its bytes.
pub fn extract_glb(bytes: &Vec<u8>) -> (r: GlbExtract)
    ensures
        if bytes@.len() < 12 {
            r matches GlbExtract::Refused(GlbError::TooShort)
        } else if le32(bytes@, 0) != GLB_MAGIC {
            r matches GlbExtract::Refused(GlbError::NotGlb)
        } else {
            match chunks(bytes@).json {
                None => r matches GlbExtract::Refused(GlbError::NoJson),
                Some((a, b)) => match document(bytes@.subrange(a, b)) {
                    Err(text) => r matches GlbExtract::Refused(GlbError::Json(e)) && e@ == text,
                    Ok(doc) => match (r, document_textures(doc, bin_of(bytes@))) {
                        (GlbExtract::NoImages, None) => true,
                        (GlbExtract::Textures(t), Some(v)) => texture_views(t@) == v,
                        _ => false,
                    },
                },
            }
        },
{
    if bytes.len() < 12 {
        return GlbExtract::Refused(GlbError::TooShort);
    }
    let mut cur = ByteCursor::new(bytes);
    let magic: u32 = match cur.read_u32() {
        Some(m) => m,
        None => 0,
    };
    if magic != GLB_MAGIC {
        return GlbExtract::Refused(GlbError::NotGlb);
    }
    let (json, bin) = find_chunks(bytes);
    let text = match json {
        Some((a, b)) => copy_span(bytes, a, b),
        None => {
            return GlbExtract::Refused(GlbError::NoJson);
        },
    };
    let doc = match parse_json(&text) {
        Ok(d) => d,
        Err(e) => {
            return GlbExtract::Refused(GlbError::Json(e));
        },
    };
    let bin = match bin {
        Some((a, b)) => copy_span(bytes, a, b),
        None => Vec::new(),
    };
    assert(bin@ =~= bin_of(bytes@));
    match textures_of_document(&doc, &bin) {
        Some(t) => GlbExtract::Textures(t),
        None => GlbExtract::NoImages,
    }
}

/// No image gives more than one texture, and the bytes of a texture lie among
/// those of the file.
pub proof fn law_one_texture_per_image(
    images: Seq<JsonView>,
    buffer_views: Seq<JsonView>,
    bin: Seq<u8>,
)
    ensures
        image_textures(images, buffer_views, bin).len() <= images.len(),
        forall|i: int|
            0 <= i < image_textures(images, buffer_views, bin).len() ==> (#[trigger] image_textures(
                images,
                buffer_views,
                bin,
            )[i]).data.len() <= bin.len(),
    decreases images.len(),
{
    if images.len() > 0 {
        law_one_texture_per_image(images.drop_last(), buffer_views, bin);
    }
}

/// A chunk as it is written: its length, its kind and its bytes.
pub open spec fn chunk_written(kind: u32, bytes: Seq<u8>) -> Seq<u8> {
    bytes_of_u32(bytes.len() as u32) + (bytes_of_u32(kind) + bytes)
}

/// A binary glTF file as it is written: the mark `glTF`, a version, a length, the
/// chunk of the document and the chunk of the bytes.
pub open spec fn glb_written(version: u32, total: u32, json: Seq<u8>, bin: Seq<u8>) -> Seq<u8> {
    bytes_of_u32(0x4654_6c67) + (bytes_of_u32(version) + (bytes_of_u32(total) + (chunk_written(
        0x4e4f_534a,
        json,
    ) + chunk_written(0x004e_4942, bin))))
}

proof fn lemma_chunk_back(data: Seq<u8>, pos: int, kind: u32, bytes: Seq<u8>)
    requires
        stands(data, pos, chunk_written(kind, bytes)),
        bytes.len() <= u32::MAX,
    ensures
        pos + 8 + bytes.len() <= data.len(),
        le32(data, pos) == bytes.len(),
        le32(data, pos + 4) == kind,
        data.subrange(pos + 8, pos + 8 + bytes.len()) == bytes,
{
    let size = bytes_of_u32(bytes.len() as u32);
    lemma_stands_split(data, pos, size, bytes_of_u32(kind) + bytes);
    lemma_stands_split(data, pos + 4, bytes_of_u32(kind), bytes);
    lemma_le32_back(data, pos, bytes.len() as u32);
    lemma_le32_back(data, pos + 4, kind);
}

/// The two chunks of a written file stand behind each other.
proof fn lemma_glb_chunks(data: Seq<u8>, version: u32, total: u32, json: Seq<u8>, bin: Seq<u8>)
    requires
        data == glb_written(version, total, json, bin),
    ensures
        data.len() == 28 + json.len() + bin.len(),
        le32(data, 0) == 0x4654_6c67,
        stands(data, 12, chunk_written(0x4e4f_534a, json)),
        stands(data, 20 + json.len() as int, chunk_written(0x004e_4942, bin)),
{
    let c = chunk_written(0x4e4f_534a, json);
    let d = chunk_written(0x004e_4942, bin);
    assert(data.subrange(0, data.len() as int) =~= data);
    lemma_stands_split(
        data,
        0,
        bytes_of_u32(0x4654_6c67),
        bytes_of_u32(version) + (bytes_of_u32(total) + (c + d)),
    );
    lemma_stands_split(data, 4, bytes_of_u32(version), bytes_of_u32(total) + (c + d));
    lemma_stands_split(data, 8, bytes_of_u32(total), c + d);
    lemma_stands_split(data, 12, c, d);
    lemma_le32_back(data, 0, 0x4654_6c67);
}

/// A written file gives the textures that its document names among its bytes, or
/// the reason why its document cannot be read.
pub proof fn law_glb_read_back(
    bytes: &Vec<u8>,
    version: u32,
    total: u32,
    json: Seq<u8>,
    bin: &Vec<u8>,
    r: GlbExtract,
    doc: &Json,
    textures: Option<Vec<GlbTexture>>,
)
    requires
        call_ensures(extract_glb, (bytes,), r),
        bytes@ == glb_written(version, total, json, bin@),
        json.len() <= u32::MAX,
        bin@.len() <= u32::MAX,
        document(json) is Ok ==> document(json)->Ok_0 == doc@ && call_ensures(
            textures_of_document,
            (doc, bin),
            textures,
        ),
    ensures
        document(json) matches Err(text) ==> (r matches GlbExtract::Refused(GlbError::Json(e))
            && e@ == text),
        document(json) is Ok && textures is None ==> r is NoImages,
        document(json) is Ok && textures is Some ==> (r matches GlbExtract::Textures(t)
            && t@.len() == textures->0@.len() && forall|i: int|
            0 <= i < t@.len() ==> (#[trigger] t@[i]).file_name@ == textures->0@[i].file_name@
                && t@[i].data@ == textures->0@[i].data@),
{
    let data = bytes@;
    let n = 20 + json.len() as int;
    let m = n + 8 + bin@.len();
    lemma_glb_chunks(data, version, total, json, bin@);
    lemma_chunk_back(data, 12, 0x4e4f_534a, json);
    lemma_chunk_back(data, n, 0x004e_4942, bin@);
    reveal_with_fuel(chunks_from, 3);
    let none = ChunksView { json: None, bin: None };
    let one = ChunksView { json: Some((20, n)), bin: None };
    let two = ChunksView { json: Some((20, n)), bin: Some((n + 8, m)) };
    assert(chunks_from(data, m, two) == two);
    assert(chunks_from(data, n, one) == two);
    assert(chunks_from(data, 12, none) == two);
    assert(chunks(data) == two);
    assert(bin_of(data) == bin@);
    if document(json) is Ok && textures is Some {
        let t = r->Textures_0;
        assert(texture_views(t@) == texture_views(textures->0@));
        assert(texture_views(t@).len() == texture_views(textures->0@).len());
        assert forall|i: int| 0 <= i < t@.len() implies (#[trigger] t@[i]).file_name@
            == textures->0@[i].file_name@ && t@[i].data@ == textures->0@[i].data@ by {
            assert(texture_views(t@)[i] == texture_views(textures->0@)[i]);
        }
    }
}

/// A file without the mark is no binary glTF file, and one of less than twelve
/// bytes is too short to tell.
pub proof fn law_glb_refused(bytes: &Vec<u8>, rest: Seq<u8>, mark: u32, r: GlbExtract)
    requires
        call_ensures(extract_glb, (bytes,), r),
    ensures
        bytes@.len() < 12 ==> r == GlbExtract::Refused(GlbError::TooShort),
        bytes@.len() >= 12 && bytes@ == bytes_of_u32(mark) + rest && mark != 0x4654_6c67 ==> r
            == GlbExtract::Refused(GlbError::NotGlb),
        bytes@.len() == 12 && bytes@ == bytes_of_u32(0x4654_6c67) + rest ==> r
            == GlbExtract::Refused(GlbError::NoJson),
{
    let data = bytes@;
    assert(data.subrange(0, data.len() as int) =~= data);
    if data == bytes_of_u32(mark) + rest {
        lemma_stands_split(data, 0, bytes_of_u32(mark), rest);
        lemma_le32_back(data, 0, mark);
    }
    if data == bytes_of_u32(0x4654_6c67) + rest {
        lemma_stands_split(data, 0, bytes_of_u32(0x4654_6c67), rest);
        lemma_le32_back(data, 0, 0x4654_6c67);
    }
}

/// The name of an image's file: the stem of its name, or its number, and `.jpg`
/// for a JPEG, `.png` for anything else.
pub open spec fn image_named(image: JsonView, index: nat, got: Seq<char>) -> bool {
    let name = image.text_of("name"@);
    let mime = image.text_of("mimeType"@);
    let jpeg = mime is Some && (has_part(mime->0, "jpeg"@) || has_part(mime->0, "jpg"@));
    let ext = if jpeg {
        ".jpg"@
    } else {
        ".png"@
    };
    &&& name is None || name->0.len() == 0 ==> got == "image_"@ + decimal_digits(index) + ext
    &&& name is Some && name->0.len() > 0 ==> got == path_stem_of(name->0) + ext
}

proof fn lemma_image_named(image: JsonView, index: nat)
    ensures
        image_named(image, index, image_file(image, index)),
{
    reveal_strlit("image/png");
    reveal_strlit("jpeg");
    reveal_strlit("jpg");
    assert(!has_part("image/png"@, "jpeg"@) && !has_part("image/png"@, "jpg"@)) by {
        assert forall|i: int| !#[trigger] part_at("image/png"@, "jpeg"@, i) by {
            if part_at("image/png"@, "jpeg"@, i) {
                assert("image/png"@.subrange(i, i + 4)[0] == 'j');
                assert("image/png"@[i] == 'j');
            }
        }
        assert forall|i: int| !#[trigger] part_at("image/png"@, "jpg"@, i) by {
            if part_at("image/png"@, "jpg"@, i) {
                assert("image/png"@.subrange(i, i + 3)[0] == 'j');
                assert("image/png"@[i] == 'j');
            }
        }
    }
}

/// The textures of a document come from its images in order, each under its name;
/// where every image has its bytes there is one for each, and a document without
/// a list of images gives none.
pub proof fn law_document_textures(
    doc: &Json,
    bin: &Vec<u8>,
    r: Option<Vec<GlbTexture>>,
    images: Seq<JsonView>,
    views: Seq<JsonView>,
    i: int,
    k: int,
)
    requires
        call_ensures(textures_of_document, (doc, bin), r),
        doc@.list_of("images"@) is Some ==> images == doc@.list_of("images"@)->0,
        doc@.list_of("bufferViews"@) is Some ==> views == doc@.list_of("bufferViews"@)->0,
        doc@.list_of("bufferViews"@) is None ==> views.len() == 0,
    ensures
        r is Some <==> doc@.list_of("images"@) is Some,
        r is Some && 0 <= i < images.len() && 0 <= k < views.len() && images[i].number_of(
            "bufferView"@,
        ) == Some(k as u64) && k <= u64::MAX ==> {
            let from = match views[k].number_of("byteOffset"@) {
                Some(n) => n as int,
                None => 0,
            };
            let len = match views[k].number_of("byteLength"@) {
                Some(n) => n as int,
                None => 0,
            };
            from + len <= bin@.len() ==> exists|t: int|
                0 <= t < r->0@.len() && (#[trigger] r->0@[t]).data@ == bin@.subrange(
                    from,
                    from + len,
                ) && image_named(images[i], i as nat, r->0@[t].file_name@)
        },
        r is Some ==> r->0@.len() <= images.len(),
{
    if r is Some {
        let b = bin@;
        let all = image_textures(images, views, b);
        assert(views =~= match doc@.list_of("bufferViews"@) {
            Some(v) => v,
            None => Seq::empty(),
        });
        assert(texture_views(r->0@) == all);
        assert(texture_views(r->0@).len() == r->0@.len());
        law_one_texture_per_image(images, views, b);
        if 0 <= i < images.len() && image_span(images[i], views, b.len()) is Some {
            lemma_image_kept(images, views, b, i);
            let t = choose|t: int| 0 <= t < all.len() && #[trigger] all[t] == texture_of(
                images[i],
                i,
                views,
                b,
            );
            assert(texture_views(r->0@)[t] == all[t]);
            lemma_image_named(images[i], i as nat);
            assert(r->0@[t].data@ == all[t].data);
        }
    }
}

/// The texture of an image that has its bytes.
spec fn texture_of(image: JsonView, i: int, views: Seq<JsonView>, bin: Seq<u8>) -> TextureView {
    let span = image_span(image, views, bin.len())->0;
    TextureView { file_name: image_file(image, i as nat), data: bin.subrange(span.0, span.1) }
}

proof fn lemma_image_kept(images: Seq<JsonView>, views: Seq<JsonView>, bin: Seq<u8>, i: int)
    requires
        0 <= i < images.len(),
        image_span(images[i], views, bin.len()) is Some,
    ensures
        exists|t: int|
            0 <= t < image_textures(images, views, bin).len() && #[trigger] image_textures(
                images,
                views,
                bin,
            )[t] == texture_of(images[i], i, views, bin),
    decreases images.len(),
{
    let front = images.drop_last();
    let before = image_textures(front, views, bin);
    let all = image_textures(images, views, bin);
    if i < front.len() {
        lemma_image_kept(front, views, bin, i);
        let t = choose|t: int|
            0 <= t < before.len() && #[trigger] before[t] == texture_of(front[i], i, views, bin);
        assert(all[t] == before[t]);
    } else {
        assert(all[before.len() as int] == texture_of(images[i], i, views, bin));
    }
}

/// What the user is told of each error.
pub proof fn law_glb_messages(e: &GlbError, r: String)
    requires
        call_ensures(GlbError::message, (e,), r),
    ensures
        e is TooShort ==> r@ == "soubor příliš krátký"@,
        e is NotGlb ==> r@ == "není GLB soubor"@,
        e is NoJson ==> r@ == "chybí JSON chunk"@,
        e matches GlbError::Json(why) ==> r@ == "JSON: "@ + why@,
{
}

} // verus!
