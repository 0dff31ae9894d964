//! Textures inside model files of the native format.
//!
//! A file starts with a mark and four numbers: the version, the number of
//! meshes and of nodes, and whether textures follow. Meshes and nodes are passed
//! over.

use vstd::prelude::*;

use crate::bytes::{
    bytes_of_text, bytes_of_u32, le32, lemma_le32_back, lemma_stands_split, lemma_text_back, stands,
    text_at, there, writable, ByteCursor, TextFault,
};
use crate::paths::{path_stem, path_stem_of};
use crate::text::{concat, decimal, decimal_digits};

verus! {

/// Why a file cannot be read.
#[derive(Clone, Debug)]
pub enum AdmError {
    NoMagic,
    NotAdm,
    Version(u32),
    U8,
    U16,
    U32,
    Text,
    Utf8,
    Seek,
    Texture(String),
}

/// A reason as the contracts see it.
pub enum AdmFault {
    NoMagic,
    NotAdm,
    Version(u32),
    U8,
    U16,
    U32,
    Text,
    Utf8,
    Seek,
    Texture(Seq<char>),
}

impl AdmError {
    pub open spec fn fault(self) -> AdmFault {
        match self {
            AdmError::NoMagic => AdmFault::NoMagic,
            AdmError::NotAdm => AdmFault::NotAdm,
            AdmError::Version(v) => AdmFault::Version(v),
            AdmError::U8 => AdmFault::U8,
            AdmError::U16 => AdmFault::U16,
            AdmError::U32 => AdmFault::U32,
            AdmError::Text => AdmFault::Text,
            AdmError::Utf8 => AdmFault::Utf8,
            AdmError::Seek => AdmFault::Seek,
            AdmError::Texture(name) => AdmFault::Texture(name@),
        }
    }

    /// What the user is told.
    pub fn message(&self) -> (r: String)
        ensures
            r@ == match self.fault() {
                AdmFault::NoMagic => "čtení magic"@,
                AdmFault::NotAdm => "není ADM soubor"@,
                AdmFault::Version(v) => "nepodporovaná verze ADM: "@ + decimal_digits(v as nat),
                AdmFault::U8 => "čtení u8"@,
                AdmFault::U16 => "čtení u16"@,
                AdmFault::U32 => "čtení u32"@,
                AdmFault::Text => "čtení string"@,
                AdmFault::Utf8 => "invalid UTF-8"@,
                AdmFault::Seek => "seek"@,
                AdmFault::Texture(name) => "čtení textury '"@ + name + "'"@,
            },
    {
        match self {
            AdmError::NoMagic => "čtení magic".to_string(),
            AdmError::NotAdm => "není ADM soubor".to_string(),
            AdmError::Version(v) => {
                let n = decimal(*v as u64);
                concat("nepodporovaná verze ADM: ", n.as_str())
            },
            AdmError::U8 => "čtení u8".to_string(),
            AdmError::U16 => "čtení u16".to_string(),
            AdmError::U32 => "čtení u32".to_string(),
            AdmError::Text => "čtení string".to_string(),
            AdmError::Utf8 => "invalid UTF-8".to_string(),
            AdmError::Seek => "seek".to_string(),
            AdmError::Texture(name) => {
                let mut r = concat("čtení textury '", name.as_str());
                r.append("'");
                r
            },
        }
    }
}

/// Why a text cannot be read.
pub open spec fn text_fault(f: TextFault) -> AdmFault {
    match f {
        TextFault::Length => AdmFault::U16,
        TextFault::Short => AdmFault::Text,
        TextFault::Utf8 => AdmFault::Utf8,
    }
}

fn text_error(f: TextFault) -> (r: AdmError)
    ensures
        r.fault() == text_fault(f),
{
    match f {
        TextFault::Length => AdmError::U16,
        TextFault::Short => AdmError::Text,
        TextFault::Utf8 => AdmError::Utf8,
    }
}

/// A texture of a file.
#[derive(Clone, Debug)]
pub struct AdmTexture {
    pub file_name: String,
    pub data: Vec<u8>,
}

pub struct TextureView {
    pub file_name: Seq<char>,
    pub data: Seq<u8>,
}

pub open spec fn texture_views(v: Seq<AdmTexture>) -> Seq<TextureView> {
    v.map_values(|t: AdmTexture| TextureView { file_name: t.file_name@, data: t.data@ })
}

/// The place `n` bytes on; it may lie behind the end of the file.
pub open spec fn moved(pos: int, n: int) -> Result<int, AdmFault> {
    if pos + n <= u64::MAX {
        Ok(pos + n)
    } else {
        Err(AdmFault::Seek)
    }
}

/// The bytes of a vertex: positions, normals, tangents, two texture coordinates
/// and two masks, each where its flag is set.
pub open spec fn vertex_size(flags: u32) -> int {
    (if flags & 1u32 != 0 {
        12int
    } else {
        0
    }) + (if flags & 2u32 != 0 {
        12int
    } else {
        0
    }) + (if flags & 4u32 != 0 {
        16int
    } else {
        0
    }) + (if flags & 8u32 != 0 {
        8int
    } else {
        0
    }) + (if flags & 16u32 != 0 {
        8int
    } else {
        0
    }) + (if flags & 32u32 != 0 {
        4int
    } else {
        0
    }) + (if flags & 64u32 != 0 {
        4int
    } else {
        0
    })
}

/// Where a mesh that starts at `pos` ends: behind its name, its three numbers,
/// its vertices and its indices.
pub open spec fn mesh_end(data: Seq<u8>, pos: int) -> Result<int, AdmFault> {
    match text_at(data, pos) {
        Err(f) => Err(text_fault(f)),
        Ok((_, p)) => if !there(data, p, 4) || !there(data, p + 4, 4) || !there(data, p + 8, 4) {
            Err(AdmFault::U32)
        } else {
            moved(
                p + 12,
                le32(data, p) * vertex_size(le32(data, p + 8)) + le32(data, p + 4) * 4,
            )
        },
    }
}

/// Where a node that starts at `pos` ends: behind its name, its kind, two
/// numbers, the name of its material and its matrix.
pub open spec fn node_end(data: Seq<u8>, pos: int) -> Result<int, AdmFault> {
    match text_at(data, pos) {
        Err(f) => Err(text_fault(f)),
        Ok((_, p)) => if !there(data, p, 1) {
            Err(AdmFault::U8)
        } else if p + 9 > u64::MAX {
            Err(AdmFault::Seek)
        } else {
            match text_at(data, p + 9) {
                Err(f) => Err(text_fault(f)),
                Ok((_, q)) => moved(q, 64),
            }
        },
    }
}

/// Where `n` meshes end.
pub open spec fn meshes_end(data: Seq<u8>, pos: int, n: nat) -> Result<int, AdmFault>
    decreases n,
{
    if n == 0 {
        Ok(pos)
    } else {
        match mesh_end(data, pos) {
            Err(f) => Err(f),
            Ok(p) => meshes_end(data, p, (n - 1) as nat),
        }
    }
}

/// Where `n` nodes end.
pub open spec fn nodes_end(data: Seq<u8>, pos: int, n: nat) -> Result<int, AdmFault>
    decreases n,
{
    if n == 0 {
        Ok(pos)
    } else {
        match node_end(data, pos) {
            Err(f) => Err(f),
            Ok(p) => nodes_end(data, p, (n - 1) as nat),
        }
    }
}

/// The texture at `pos` and where it ends: its name, its format, a mark, its
/// size and its bytes.
pub open spec fn texture_at(data: Seq<u8>, pos: int) -> Result<(TextureView, int), AdmFault> {
    match text_at(data, pos) {
        Err(f) => Err(text_fault(f)),
        Ok((name, p)) => if !there(data, p, 1) || !there(data, p + 1, 1) {
            Err(AdmFault::U8)
        } else if !there(data, p + 2, 4) {
            Err(AdmFault::U32)
        } else {
            let size = le32(data, p + 2) as int;
            if !there(data, p + 6, size) {
                Err(AdmFault::Texture(name))
            } else {
                let ext = if data[p] == 2 {
                    ".dds"@
                } else {
                    ".png"@
                };
                Ok(
                    (
                        TextureView {
                            file_name: path_stem_of(name) + ext,
                            data: data.subrange(p + 6, p + 6 + size),
                        },
                        p + 6 + size,
                    ),
                )
            }
        },
    }
}

/// The textures from `pos` on, as many of `n` as can be read, and why the next
/// one cannot.
pub open spec fn textures_at(data: Seq<u8>, pos: int, n: nat) -> (Seq<TextureView>, Option<AdmFault>)
    decreases n,
{
    if n == 0 {
        (Seq::empty(), None)
    } else {
        match texture_at(data, pos) {
            Err(f) => (Seq::empty(), Some(f)),
            Ok((t, p)) => {
                let rest = textures_at(data, p, (n - 1) as nat);
                (seq![t] + rest.0, rest.1)
            },
        }
    }
}

/// Where the textures of a file start, and how many there are; none where the
/// file says that it has no textures.
pub open spec fn texture_part(data: Seq<u8>) -> Result<Option<(int, nat)>, AdmFault> {
    if !there(data, 0, 4) {
        Err(AdmFault::NoMagic)
    } else if data.subrange(0, 4) != seq![0x41u8, 0x44u8, 0x4du8, 0u8] {
        Err(AdmFault::NotAdm)
    } else if !there(data, 4, 4) {
        Err(AdmFault::U32)
    } else if le32(data, 4) < 1 || le32(data, 4) > 3 {
        Err(AdmFault::Version(le32(data, 4)))
    } else if !there(data, 8, 4) || !there(data, 12, 4) || !there(data, 16, 4) {
        Err(AdmFault::U32)
    } else if le32(data, 16) == 0 {
        Ok(None)
    } else {
        match meshes_end(data, 20, le32(data, 8) as nat) {
            Err(f) => Err(f),
            Ok(p) => match nodes_end(data, p, le32(data, 12) as nat) {
                Err(f) => Err(f),
                Ok(q) => if !there(data, q, 4) {
                    Err(AdmFault::U32)
                } else {
                    Ok(Some((q + 4, le32(data, q) as nat)))
                },
            },
        }
    }
}

/// What a file gives: nothing, or the textures that can be read, in order, and
/// the reason where not all can.
#[derive(Clone, Debug)]
pub enum AdmExtract {
    Refused(AdmError),
    NoTextures,
    Textures { textures: Vec<AdmTexture>, error: Option<AdmError> },
}

/// Moves over the attributes of a mesh's vertices and over its indices.
fn skip_attributes(cur: &mut ByteCursor, verts: u32, indices: u32, flags: u32) -> (r: bool)
    ensures
        final(cur).data == old(cur).data,
        ({
            let n = verts * vertex_size(flags) + indices * 4;
            &&& r == (old(cur).pos + n <= u64::MAX)
            &&& r ==> final(cur).pos == old(cur).pos + n
        }),
{
    let v: u64 = verts as u64;
    let mut size: u64 = 0;
    if flags & 1 != 0 {
        size = size + 12;
    }
    if flags & 2 != 0 {
        size = size + 12;
    }
    if flags & 4 != 0 {
        size = size + 16;
    }
    if flags & 8 != 0 {
        size = size + 8;
    }
    if flags & 16 != 0 {
        size = size + 8;
    }
    if flags & 32 != 0 {
        size = size + 4;
    }
    if flags & 64 != 0 {
        size = size + 4;
    }
    assert(size as int == vertex_size(flags));
    assert(v * size <= 0xffff_ffff * 64) by (nonlinear_arith)
        requires
            v <= 0xffff_ffff,
            size <= 64,
    ;
    let n: u64 = v * size + indices as u64 * 4;
    cur.seek(n)
}

/// Passes over a mesh.
pub fn skip_adm_mesh(cur: &mut ByteCursor) -> (r: Result<(), AdmError>)
    ensures
        final(cur).data == old(cur).data,
        match (r, mesh_end(old(cur).data@, old(cur).pos as int)) {
            (Ok(_), Ok(p)) => final(cur).pos == p,
            (Err(e), Err(f)) => e.fault() == f,
            _ => false,
        },
{
    match cur.read_text() {
        Ok(_) => {},
        Err(f) => {
            return Err(text_error(f));
        },
    }
    let verts: u32 = match cur.read_u32() {
        Some(n) => n,
        None => {
            return Err(AdmError::U32);
        },
    };
    let indices: u32 = match cur.read_u32() {
        Some(n) => n,
        None => {
            return Err(AdmError::U32);
        },
    };
    let flags: u32 = match cur.read_u32() {
        Some(n) => n,
        None => {
            return Err(AdmError::U32);
        },
    };
    if skip_attributes(cur, verts, indices, flags) {
        Ok(())
    } else {
        Err(AdmError::Seek)
    }
}

/// Passes over a node.
pub fn skip_adm_node(cur: &mut ByteCursor) -> (r: Result<(), AdmError>)
    ensures
        final(cur).data == old(cur).data,
        match (r, node_end(old(cur).data@, old(cur).pos as int)) {
            (Ok(_), Ok(p)) => final(cur).pos == p,
            (Err(e), Err(f)) => e.fault() == f,
            _ => false,
        },
{
    match cur.read_text() {
        Ok(_) => {},
        Err(f) => {
            return Err(text_error(f));
        },
    }
    if cur.read_u8().is_none() {
        return Err(AdmError::U8);
    }
    if !cur.seek(8) {
        return Err(AdmError::Seek);
    }
    match cur.read_text() {
        Ok(_) => {},
        Err(f) => {
            return Err(text_error(f));
        },
    }
    if cur.seek(64) {
        Ok(())
    } else {
        Err(AdmError::Seek)
    }
}

fn read_texture(cur: &mut ByteCursor) -> (r: Result<AdmTexture, AdmError>)
    ensures
        final(cur).data == old(cur).data,
        match (r, texture_at(old(cur).data@, old(cur).pos as int)) {
            (Ok(t), Ok(v)) => t.file_name@ == v.0.file_name && t.data@ == v.0.data
                && final(cur).pos == v.1,
            (Err(e), Err(f)) => e.fault() == f,
            _ => false,
        },
{
    let name = match cur.read_text() {
        Ok(name) => name,
        Err(f) => {
            return Err(text_error(f));
        },
    };
    let format: u8 = match cur.read_u8() {
        Some(b) => b,
        None => {
            return Err(AdmError::U8);
        },
    };
    if cur.read_u8().is_none() {
        return Err(AdmError::U8);
    }
    let size: u32 = match cur.read_u32() {
        Some(n) => n,
        None => {
            return Err(AdmError::U32);
        },
    };
    let ghost from = cur.pos as int;
    let ghost all = cur.data@;
    let data = match cur.read_bytes(size as u64) {
        Some(d) => d,
        None => {
            return Err(AdmError::Texture(name));
        },
    };
    assert(data@ =~= all.subrange(from, from + size));
    let ext = if format == 2 {
        ".dds"
    } else {
        ".png"
    };
    let stem = path_stem(name.as_str());
    Ok(AdmTexture { file_name: concat(stem.as_str(), ext), data })
}

/// Finds where the textures start.
fn find_textures(cur: &mut ByteCursor) -> (r: Result<Option<u32>, AdmError>)
    requires
        old(cur).pos == 0,
    ensures
        final(cur).data == old(cur).data,
        match (r, texture_part(old(cur).data@)) {
            (Ok(Some(n)), Ok(Some((p, m)))) => n == m && final(cur).pos == p,
            (Ok(None), Ok(None)) => true,
            (Err(e), Err(f)) => e.fault() == f,
            _ => false,
        },
{
    let ghost data = cur.data@;
    let magic = match cur.read_bytes(4) {
        Some(m) => m,
        None => {
            return Err(AdmError::NoMagic);
        },
    };
    if !(magic[0] == 0x41 && magic[1] == 0x44 && magic[2] == 0x4d && magic[3] == 0) {
        proof {
            let mark = seq![0x41u8, 0x44u8, 0x4du8, 0u8];
            assert(magic@[0] != mark[0] || magic@[1] != mark[1] || magic@[2] != mark[2]
                || magic@[3] != mark[3]);
        }
        return Err(AdmError::NotAdm);
    }
    assert(magic@ =~= seq![0x41u8, 0x44u8, 0x4du8, 0u8]);
    let version: u32 = match cur.read_u32() {
        Some(v) => v,
        None => {
            return Err(AdmError::U32);
        },
    };
    if version != 1 && version != 2 && version != 3 {
        return Err(AdmError::Version(version));
    }
    let mesh_count: u32 = match cur.read_u32() {
        Some(n) => n,
        None => {
            return Err(AdmError::U32);
        },
    };
    let node_count: u32 = match cur.read_u32() {
        Some(n) => n,
        None => {
            return Err(AdmError::U32);
        },
    };
    let has_textures: u32 = match cur.read_u32() {
        Some(n) => n,
        None => {
            return Err(AdmError::U32);
        },
    };
    if has_textures == 0 {
        return Ok(None);
    }
    let ghost meshes = meshes_end(data, 20, mesh_count as nat);
    let mut i: u32 = 0;
    while i < mesh_count
        invariant
            i <= mesh_count,
            cur.data == old(cur).data,
            data == cur.data@,
            meshes == meshes_end(data, cur.pos as int, (mesh_count - i) as nat),
            texture_part(data) == match meshes {
                Err(f) => Err(f),
                Ok(p) => match nodes_end(data, p, node_count as nat) {
                    Err(f) => Err(f),
                    Ok(q) => if !there(data, q, 4) {
                        Err(AdmFault::U32)
                    } else {
                        Ok(Some((q + 4, le32(data, q) as nat)))
                    },
                },
            },
        decreases mesh_count - i,
    {
        match skip_adm_mesh(cur) {
            Ok(_) => {},
            Err(e) => {
                return Err(e);
            },
        }
        i = i + 1;
    }
    let ghost nodes = nodes_end(data, cur.pos as int, node_count as nat);
    let mut j: u32 = 0;
    while j < node_count
        invariant
            j <= node_count,
            cur.data == old(cur).data,
            data == cur.data@,
            nodes == nodes_end(data, cur.pos as int, (node_count - j) as nat),
            texture_part(data) == match nodes {
                Err(f) => Err(f),
                Ok(q) => if !there(data, q, 4) {
                    Err(AdmFault::U32)
                } else {
                    Ok(Some((q + 4, le32(data, q) as nat)))
                },
            },
        decreases node_count - j,
    {
        match skip_adm_node(cur) {
            Ok(_) => {},
            Err(e) => {
                return Err(e);
            },
        }
        j = j + 1;
    }
    match cur.read_u32() {
        Some(n) => Ok(Some(n)),
        None => Err(AdmError::U32),
    }
}

/// Reads the textures of a file. Where one cannot be read, those before it are
/// still given.
pub fn extract_adm(bytes: &Vec<u8>) -> (r: AdmExtract)
    ensures
        match (r, texture_part(bytes@)) {
            (AdmExtract::Refused(e), Err(f)) => e.fault() == f,
            (AdmExtract::NoTextures, Ok(None)) => true,
            (AdmExtract::Textures { textures, error }, Ok(Some((p, n)))) => {
                &&& texture_views(textures@) == textures_at(bytes@, p, n).0
                &&& match (error, textures_at(bytes@, p, n).1) {
                    (Some(e), Some(f)) => e.fault() == f,
                    (None, None) => true,
                    _ => false,
                }
            },
            _ => false,
        },
{
    let mut cur = ByteCursor::new(bytes);
    let count: u32 = match find_textures(&mut cur) {
        Ok(Some(n)) => n,
        Ok(None) => {
            return AdmExtract::NoTextures;
        },
        Err(e) => {
            return AdmExtract::Refused(e);
        },
    };
    let ghost all = textures_at(bytes@, cur.pos as int, count as nat);
    let mut textures: Vec<AdmTexture> = Vec::new();
    let mut i: u32 = 0;
    assert(texture_views(textures@) + all.0 =~= all.0);
    while i < count
        invariant
            i <= count,
            cur.data == bytes,
            texture_part(bytes@) matches Ok(Some((p, n))) && n == count && all == textures_at(
                bytes@,
                p,
                n,
            ),
            ({
                let rest = textures_at(bytes@, cur.pos as int, (count - i) as nat);
                &&& all.0 == texture_views(textures@) + rest.0
                &&& all.1 == rest.1
            }),
        decreases count - i,
    {
        let ghost rest = textures_at(bytes@, cur.pos as int, (count - i) as nat);
        let ghost before = textures@;
        match read_texture(&mut cur) {
            Ok(t) => {
                let ghost v = TextureView { file_name: t.file_name@, data: t.data@ };
                textures.push(t);
                proof {
                    assert(texture_views(textures@) =~= texture_views(before).push(v));
                    let next = textures_at(bytes@, cur.pos as int, (count - i - 1) as nat);
                    assert(rest.0 == seq![v] + next.0);
                    assert(texture_views(textures@) + next.0 =~= texture_views(before) + rest.0);
                }
            },
            Err(e) => {
                assert(texture_views(textures@) + rest.0 =~= texture_views(textures@));
                return AdmExtract::Textures { textures, error: Some(e) };
            },
        }
        i = i + 1;
    }
    assert(texture_views(textures@) + Seq::<TextureView>::empty() =~= texture_views(textures@));
    AdmExtract::Textures { textures, error: None }
}

/// A reason is given exactly where fewer textures come than the file counts.
pub proof fn law_reason_for_missing_textures(data: Seq<u8>, pos: int, n: nat)
    ensures
        textures_at(data, pos, n).0.len() <= n,
        textures_at(data, pos, n).1 is None <==> textures_at(data, pos, n).0.len() == n,
    decreases n,
{
    if n > 0 {
        if let Ok((t, p)) = texture_at(data, pos) {
            law_reason_for_missing_textures(data, p, (n - 1) as nat);
        }
    }
}

/// A mesh as a file holds it: for each vertex attribute its bytes, one after the
/// other, and the bytes of the indices.
#[verifier::ext_equal]
pub struct MeshLayout {
    pub name: Seq<char>,
    pub verts: u32,
    pub index_count: u32,
    /// Which attributes the vertices have.
    pub flags: u32,
    pub positions: Seq<u8>,
    pub normals: Seq<u8>,
    pub tangents: Seq<u8>,
    pub first_uv: Seq<u8>,
    pub second_uv: Seq<u8>,
    pub first_mask: Seq<u8>,
    pub second_mask: Seq<u8>,
    pub indices: Seq<u8>,
}

/// An attribute takes its width for every vertex where its flag is set, and
/// nothing where it is not.
pub open spec fn fills(bytes: Seq<u8>, verts: u32, set: bool, width: int) -> bool {
    bytes.len() == if set {
        verts * width
    } else {
        0
    }
}

impl MeshLayout {
    /// Positions and normals take three numbers a vertex, tangents four, texture
    /// coordinates two and masks four bytes; an index takes four bytes.
    pub open spec fn valid(self) -> bool {
        &&& writable(self.name)
        &&& fills(self.positions, self.verts, self.flags & 1u32 != 0, 12)
        &&& fills(self.normals, self.verts, self.flags & 2u32 != 0, 12)
        &&& fills(self.tangents, self.verts, self.flags & 4u32 != 0, 16)
        &&& fills(self.first_uv, self.verts, self.flags & 8u32 != 0, 8)
        &&& fills(self.second_uv, self.verts, self.flags & 16u32 != 0, 8)
        &&& fills(self.first_mask, self.verts, self.flags & 32u32 != 0, 4)
        &&& fills(self.second_mask, self.verts, self.flags & 64u32 != 0, 4)
        &&& self.indices.len() == 4 * self.index_count
    }

    /// What follows the numbers of a mesh.
    pub open spec fn body(self) -> Seq<u8> {
        self.positions + self.normals + self.tangents + self.first_uv + self.second_uv
            + self.first_mask + self.second_mask + self.indices
    }

    pub open spec fn written(self) -> Seq<u8> {
        bytes_of_text(self.name) + (bytes_of_u32(self.verts) + (bytes_of_u32(self.index_count) + (
        bytes_of_u32(self.flags) + self.body())))
    }
}

/// A node as a file holds it.
#[verifier::ext_equal]
pub struct NodeLayout {
    pub name: Seq<char>,
    pub kind: u8,
    /// Its mesh and its parent, four bytes each.
    pub links: Seq<u8>,
    pub material: Seq<char>,
    /// Sixteen numbers of four bytes.
    pub matrix: Seq<u8>,
}

impl NodeLayout {
    pub open spec fn valid(self) -> bool {
        writable(self.name) && writable(self.material) && self.links.len() == 8
            && self.matrix.len() == 64
    }

    pub open spec fn written(self) -> Seq<u8> {
        bytes_of_text(self.name) + (seq![self.kind] + (self.links + (bytes_of_text(self.material)
            + self.matrix)))
    }
}

/// A texture as a file holds it.
#[verifier::ext_equal]
pub struct TextureLayout {
    pub name: Seq<char>,
    pub format: u8,
    pub mark: u8,
    pub data: Seq<u8>,
}

impl TextureLayout {
    pub open spec fn valid(self) -> bool {
        writable(self.name) && self.data.len() <= u32::MAX
    }

    pub open spec fn written(self) -> Seq<u8> {
        bytes_of_text(self.name) + (seq![self.format] + (seq![self.mark] + (bytes_of_u32(
            self.data.len() as u32,
        ) + self.data)))
    }
}

/// A file of the format.
#[verifier::ext_equal]
pub struct AdmLayout {
    pub version: u32,
    /// Not zero: the file holds textures.
    pub with_textures: u32,
    pub meshes: Seq<MeshLayout>,
    pub nodes: Seq<NodeLayout>,
    pub textures: Seq<TextureLayout>,
}

pub open spec fn written_meshes(meshes: Seq<MeshLayout>) -> Seq<u8>
    decreases meshes.len(),
{
    if meshes.len() == 0 {
        Seq::empty()
    } else {
        meshes[0].written() + written_meshes(meshes.drop_first())
    }
}

pub open spec fn written_nodes(nodes: Seq<NodeLayout>) -> Seq<u8>
    decreases nodes.len(),
{
    if nodes.len() == 0 {
        Seq::empty()
    } else {
        nodes[0].written() + written_nodes(nodes.drop_first())
    }
}

pub open spec fn written_textures(textures: Seq<TextureLayout>) -> Seq<u8>
    decreases textures.len(),
{
    if textures.len() == 0 {
        Seq::empty()
    } else {
        textures[0].written() + written_textures(textures.drop_first())
    }
}

impl AdmLayout {
    pub open spec fn valid(self) -> bool {
        &&& 1 <= self.version <= 3
        &&& self.meshes.len() <= u32::MAX
        &&& self.nodes.len() <= u32::MAX
        &&& self.textures.len() <= u32::MAX
        &&& forall|i: int| 0 <= i < self.meshes.len() ==> (#[trigger] self.meshes[i]).valid()
        &&& forall|i: int| 0 <= i < self.nodes.len() ==> (#[trigger] self.nodes[i]).valid()
        &&& forall|i: int| 0 <= i < self.textures.len() ==> (#[trigger] self.textures[i]).valid()
    }

    /// The file: its mark, its numbers, its meshes, its nodes and its textures.
    pub open spec fn written(self) -> Seq<u8> {
        seq![0x41u8, 0x44u8, 0x4du8, 0u8] + (bytes_of_u32(self.version) + (bytes_of_u32(
            self.meshes.len() as u32,
        ) + (bytes_of_u32(self.nodes.len() as u32) + (bytes_of_u32(self.with_textures) + (
        written_meshes(self.meshes) + (written_nodes(self.nodes) + (bytes_of_u32(
            self.textures.len() as u32,
        ) + written_textures(self.textures))))))))
    }
}

proof fn lemma_mesh_back(data: Seq<u8>, pos: int, m: MeshLayout)
    requires
        m.valid(),
        stands(data, pos, m.written()),
        data.len() <= u64::MAX,
    ensures
        mesh_end(data, pos) == Ok::<int, AdmFault>(pos + m.written().len()),
{
    let name = bytes_of_text(m.name);
    let a = bytes_of_u32(m.verts);
    let b = bytes_of_u32(m.index_count);
    let c = bytes_of_u32(m.flags);
    let p = pos + name.len();
    lemma_stands_split(data, pos, name, a + (b + (c + m.body())));
    lemma_stands_split(data, p, a, b + (c + m.body()));
    lemma_stands_split(data, p + 4, b, c + m.body());
    lemma_stands_split(data, p + 8, c, m.body());
    lemma_text_back(data, pos, m.name);
    lemma_le32_back(data, p, m.verts);
    lemma_le32_back(data, p + 4, m.index_count);
    lemma_le32_back(data, p + 8, m.flags);
    let f = m.flags;
    let verts = m.verts as int;
    let w1: int = if f & 1u32 != 0 {
        12
    } else {
        0
    };
    let w2: int = if f & 2u32 != 0 {
        12
    } else {
        0
    };
    let w3: int = if f & 4u32 != 0 {
        16
    } else {
        0
    };
    let w4: int = if f & 8u32 != 0 {
        8
    } else {
        0
    };
    let w5: int = if f & 16u32 != 0 {
        8
    } else {
        0
    };
    let w6: int = if f & 32u32 != 0 {
        4
    } else {
        0
    };
    let w7: int = if f & 64u32 != 0 {
        4
    } else {
        0
    };
    assert(vertex_size(f) == w1 + w2 + w3 + w4 + w5 + w6 + w7);
    assert(verts * (w1 + w2 + w3 + w4 + w5 + w6 + w7) == verts * w1 + verts * w2 + verts * w3
        + verts * w4 + verts * w5 + verts * w6 + verts * w7) by (nonlinear_arith);
    assert(m.positions.len() == verts * w1);
    assert(m.normals.len() == verts * w2);
    assert(m.tangents.len() == verts * w3);
    assert(m.first_uv.len() == verts * w4);
    assert(m.second_uv.len() == verts * w5);
    assert(m.first_mask.len() == verts * w6);
    assert(m.second_mask.len() == verts * w7);
    assert(m.body().len() == verts * vertex_size(f) + m.index_count * 4);
}

proof fn lemma_node_back(data: Seq<u8>, pos: int, n: NodeLayout)
    requires
        n.valid(),
        stands(data, pos, n.written()),
        data.len() <= u64::MAX,
    ensures
        node_end(data, pos) == Ok::<int, AdmFault>(pos + n.written().len()),
{
    let name = bytes_of_text(n.name);
    let material = bytes_of_text(n.material);
    let p = pos + name.len();
    lemma_stands_split(data, pos, name, seq![n.kind] + (n.links + (material + n.matrix)));
    lemma_stands_split(data, p, seq![n.kind], n.links + (material + n.matrix));
    lemma_stands_split(data, p + 1, n.links, material + n.matrix);
    lemma_stands_split(data, p + 9, material, n.matrix);
    lemma_text_back(data, pos, n.name);
    lemma_text_back(data, p + 9, n.material);
}

proof fn lemma_texture_back(data: Seq<u8>, pos: int, t: TextureLayout)
    requires
        t.valid(),
        stands(data, pos, t.written()),
    ensures
        texture_at(data, pos) matches Ok(got) && got.0.data == t.data && got.0.file_name
            == path_stem_of(t.name) + (if t.format == 2 {
            ".dds"@
        } else {
            ".png"@
        }) && got.1 == pos + t.written().len(),
{
    let name = bytes_of_text(t.name);
    let size = bytes_of_u32(t.data.len() as u32);
    let p = pos + name.len();
    lemma_stands_split(data, pos, name, seq![t.format] + (seq![t.mark] + (size + t.data)));
    lemma_stands_split(data, p, seq![t.format], seq![t.mark] + (size + t.data));
    lemma_stands_split(data, p + 1, seq![t.mark], size + t.data);
    lemma_stands_split(data, p + 2, size, t.data);
    lemma_text_back(data, pos, t.name);
    lemma_le32_back(data, p + 2, t.data.len() as u32);
    assert(data[p] == data.subrange(p, p + 1)[0]);
}

proof fn lemma_meshes_back(data: Seq<u8>, pos: int, meshes: Seq<MeshLayout>)
    requires
        forall|i: int| 0 <= i < meshes.len() ==> (#[trigger] meshes[i]).valid(),
        stands(data, pos, written_meshes(meshes)),
        data.len() <= u64::MAX,
    ensures
        meshes_end(data, pos, meshes.len()) == Ok::<int, AdmFault>(
            pos + written_meshes(meshes).len(),
        ),
    decreases meshes.len(),
{
    if meshes.len() > 0 {
        let rest = meshes.drop_first();
        lemma_stands_split(data, pos, meshes[0].written(), written_meshes(rest));
        lemma_mesh_back(data, pos, meshes[0]);
        lemma_meshes_back(data, pos + meshes[0].written().len(), rest);
    }
}

proof fn lemma_nodes_back(data: Seq<u8>, pos: int, nodes: Seq<NodeLayout>)
    requires
        forall|i: int| 0 <= i < nodes.len() ==> (#[trigger] nodes[i]).valid(),
        stands(data, pos, written_nodes(nodes)),
        data.len() <= u64::MAX,
    ensures
        nodes_end(data, pos, nodes.len()) == Ok::<int, AdmFault>(pos + written_nodes(nodes).len()),
    decreases nodes.len(),
{
    if nodes.len() > 0 {
        let rest = nodes.drop_first();
        lemma_stands_split(data, pos, nodes[0].written(), written_nodes(rest));
        lemma_node_back(data, pos, nodes[0]);
        lemma_nodes_back(data, pos + nodes[0].written().len(), rest);
    }
}

proof fn lemma_textures_back(data: Seq<u8>, pos: int, textures: Seq<TextureLayout>)
    requires
        forall|i: int| 0 <= i < textures.len() ==> (#[trigger] textures[i]).valid(),
        stands(data, pos, written_textures(textures)),
    ensures
        ({
            let got = textures_at(data, pos, textures.len());
            &&& got.1 is None
            &&& got.0.len() == textures.len()
            &&& forall|i: int|
                0 <= i < textures.len() ==> (#[trigger] got.0[i]).data == textures[i].data
                    && got.0[i].file_name == path_stem_of(textures[i].name) + (
                if textures[i].format == 2 {
                    ".dds"@
                } else {
                    ".png"@
                })
        }),
    decreases textures.len(),
{
    if textures.len() > 0 {
        let rest = textures.drop_first();
        let next = pos + textures[0].written().len();
        lemma_stands_split(data, pos, textures[0].written(), written_textures(rest));
        lemma_texture_back(data, pos, textures[0]);
        lemma_textures_back(data, next, rest);
        let got = textures_at(data, pos, textures.len());
        let after = textures_at(data, next, rest.len());
        assert forall|i: int| 0 <= i < textures.len() implies (#[trigger] got.0[i]).data
            == textures[i].data && got.0[i].file_name == path_stem_of(textures[i].name) + (
        if textures[i].format == 2 {
            ".dds"@
        } else {
            ".png"@
        }) by {
            if i > 0 {
                assert(got.0[i] == after.0[i - 1]);
                assert(rest[i - 1] == textures[i]);
            }
        }
    }
}

/// The numbers at the front of a file are read back, and the rest follows them.
proof fn lemma_front_back(
    data: Seq<u8>,
    version: u32,
    meshes: u32,
    nodes: u32,
    with_textures: u32,
    rest: Seq<u8>,
)
    requires
        data == seq![0x41u8, 0x44u8, 0x4du8, 0u8] + (bytes_of_u32(version) + (bytes_of_u32(meshes)
            + (bytes_of_u32(nodes) + (bytes_of_u32(with_textures) + rest)))),
    ensures
        data.len() >= 20,
        data.subrange(0, 4) == seq![0x41u8, 0x44u8, 0x4du8, 0u8],
        le32(data, 4) == version,
        le32(data, 8) == meshes,
        le32(data, 12) == nodes,
        le32(data, 16) == with_textures,
        stands(data, 20, rest),
{
    let r5 = bytes_of_u32(with_textures) + rest;
    let r4 = bytes_of_u32(nodes) + r5;
    let r3 = bytes_of_u32(meshes) + r4;
    let r2 = bytes_of_u32(version) + r3;
    assert(data.subrange(0, data.len() as int) =~= data);
    lemma_stands_split(data, 0, seq![0x41u8, 0x44u8, 0x4du8, 0u8], r2);
    lemma_stands_split(data, 4, bytes_of_u32(version), r3);
    lemma_stands_split(data, 8, bytes_of_u32(meshes), r4);
    lemma_stands_split(data, 12, bytes_of_u32(nodes), r5);
    lemma_stands_split(data, 16, bytes_of_u32(with_textures), rest);
    lemma_le32_back(data, 4, version);
    lemma_le32_back(data, 8, meshes);
    lemma_le32_back(data, 12, nodes);
    lemma_le32_back(data, 16, with_textures);
}

/// Meshes, nodes, the number of textures and the textures stand behind each
/// other.
proof fn lemma_parts_back(
    data: Seq<u8>,
    pos: int,
    meshes: Seq<u8>,
    nodes: Seq<u8>,
    count: u32,
    textures: Seq<u8>,
)
    requires
        stands(data, pos, meshes + (nodes + (bytes_of_u32(count) + textures))),
    ensures
        stands(data, pos, meshes),
        stands(data, pos + meshes.len(), nodes),
        there(data, pos + meshes.len() + nodes.len(), 4),
        le32(data, pos + meshes.len() + nodes.len()) == count,
        stands(data, pos + meshes.len() + nodes.len() + 4, textures),
{
    let p = pos + meshes.len();
    let q = p + nodes.len();
    lemma_stands_split(data, pos, meshes, nodes + (bytes_of_u32(count) + textures));
    lemma_stands_split(data, p, nodes, bytes_of_u32(count) + textures);
    lemma_stands_split(data, q, bytes_of_u32(count), textures);
    lemma_le32_back(data, q, count);
}

/// The textures of a file are found behind its meshes and its nodes.
proof fn lemma_textures_found(data: Seq<u8>, file: AdmLayout)
    requires
        file.valid(),
        data.len() <= u64::MAX,
        data.len() >= 20,
        data.subrange(0, 4) == seq![0x41u8, 0x44u8, 0x4du8, 0u8],
        le32(data, 4) == file.version,
        le32(data, 8) == file.meshes.len(),
        le32(data, 12) == file.nodes.len(),
        le32(data, 16) == file.with_textures,
        file.with_textures != 0,
        stands(
            data,
            20,
            written_meshes(file.meshes) + (written_nodes(file.nodes) + (bytes_of_u32(
                file.textures.len() as u32,
            ) + written_textures(file.textures))),
        ),
    ensures
        ({
            let q = 24 + written_meshes(file.meshes).len() + written_nodes(file.nodes).len();
            &&& texture_part(data) == Ok::<Option<(int, nat)>, AdmFault>(
                Some((q as int, file.textures.len())),
            )
            &&& stands(data, q as int, written_textures(file.textures))
        }),
{
    let n_textures = file.textures.len() as u32;
    let meshes = written_meshes(file.meshes);
    let nodes = written_nodes(file.nodes);
    lemma_parts_back(data, 20, meshes, nodes, n_textures, written_textures(file.textures));
    lemma_meshes_back(data, 20, file.meshes);
    lemma_nodes_back(data, 20 + meshes.len() as int, file.nodes);
}

/// Round trip: a file that is laid out by the format gives back exactly the
/// textures that were put in, in their order, whichever attributes its vertices
/// have; a texture's file carries the stem of its name.
pub proof fn law_adm_round_trip(bytes: &Vec<u8>, file: AdmLayout, r: AdmExtract)
    requires
        call_ensures(extract_adm, (bytes,), r),
        file.valid(),
        bytes@ == file.written(),
    ensures
        file.with_textures == 0 ==> r is NoTextures,
        file.with_textures != 0 ==> {
            &&& r matches AdmExtract::Textures { textures, error }
            &&& error is None
            &&& textures@.len() == file.textures.len()
            &&& forall|i: int|
                0 <= i < file.textures.len() ==> (#[trigger] textures@[i]).data@
                    == file.textures[i].data && textures@[i].file_name@ == path_stem_of(
                    file.textures[i].name,
                ) + (if file.textures[i].format == 2 {
                    ".dds"@
                } else {
                    ".png"@
                })
        },
{
    let data = bytes@;
    assert(bytes.len() == data.len());
    lemma_front_back(
        data,
        file.version,
        file.meshes.len() as u32,
        file.nodes.len() as u32,
        file.with_textures,
        written_meshes(file.meshes) + (written_nodes(file.nodes) + (bytes_of_u32(
            file.textures.len() as u32,
        ) + written_textures(file.textures))),
    );
    if file.with_textures != 0 {
        lemma_textures_found(data, file);
        let q = (24 + written_meshes(file.meshes).len() + written_nodes(file.nodes).len()) as int;
        lemma_textures_back(data, q, file.textures);
        let got = textures_at(data, q, file.textures.len()).0;
        let read = r->textures;
        assert(texture_views(read@) == got);
        assert forall|i: int| 0 <= i < file.textures.len() implies (#[trigger] read@[i]).data@
            == file.textures[i].data && read@[i].file_name@ == path_stem_of(file.textures[i].name)
            + (if file.textures[i].format == 2 {
            ".dds"@
        } else {
            ".png"@
        }) by {
            assert(texture_views(read@)[i] == got[i]);
        }
    }
}

/// A mesh of the format is passed over whole, and so is a node.
pub proof fn law_adm_skips<'a>(
    cur: &mut ByteCursor<'a>,
    at_node: &mut ByteCursor<'a>,
    m: MeshLayout,
    n: NodeLayout,
    r: Result<(), AdmError>,
    s: Result<(), AdmError>,
)
    requires
        call_ensures(skip_adm_mesh, (cur,), r),
        call_ensures(skip_adm_node, (at_node,), s),
        m.valid(),
        n.valid(),
        stands(old(cur).data@, old(cur).pos as int, m.written()),
        stands(old(at_node).data@, old(at_node).pos as int, n.written()),
    ensures
        r is Ok,
        final(cur).pos == old(cur).pos + m.written().len(),
        s is Ok,
        final(at_node).pos == old(at_node).pos + n.written().len(),
{
    assert(old(cur).data.len() == old(cur).data@.len());
    assert(old(at_node).data.len() == old(at_node).data@.len());
    lemma_mesh_back(old(cur).data@, old(cur).pos as int, m);
    lemma_node_back(old(at_node).data@, old(at_node).pos as int, n);
}

/// What a file of another kind is answered: too short for a mark, another mark,
/// or a version outside one to three.
pub proof fn law_adm_refused(bytes: &Vec<u8>, version: u32, r: AdmExtract)
    requires
        call_ensures(extract_adm, (bytes,), r),
    ensures
        bytes@.len() < 4 ==> r == AdmExtract::Refused(AdmError::NoMagic),
        bytes@.len() >= 4 && bytes@.take(4) != seq![0x41u8, 0x44u8, 0x4du8, 0u8] ==> r == AdmExtract::Refused(AdmError::NotAdm),
        bytes@.len() >= 8 && bytes@.take(8) == seq![0x41u8, 0x44u8, 0x4du8, 0u8] + bytes_of_u32(
            version,
        ) && (version < 1 || version > 3) ==> r == AdmExtract::Refused(AdmError::Version(version)),
{
    let data = bytes@;
    let mark = seq![0x41u8, 0x44u8, 0x4du8, 0u8];
    if data.len() >= 4 {
        assert(data.subrange(0, 4) =~= data.take(4));
    }
    if data.len() >= 8 && data.take(8) == mark + bytes_of_u32(version) {
        assert(data.subrange(0, 8) =~= data.take(8));
        lemma_stands_split(data, 0, mark, bytes_of_u32(version));
        lemma_le32_back(data, 4, version);
    }
}

/// What the user is told of each error.
pub proof fn law_adm_messages(e: &AdmError, r: String)
    requires
        call_ensures(AdmError::message, (e,), r),
    ensures
        e is NoMagic ==> r@ == "čtení magic"@,
        e is NotAdm ==> r@ == "není ADM soubor"@,
        e matches AdmError::Version(v) ==> r@ == "nepodporovaná verze ADM: "@ + decimal_digits(
            v as nat,
        ),
        e is U8 ==> r@ == "čtení u8"@,
        e is U16 ==> r@ == "čtení u16"@,
        e is U32 ==> r@ == "čtení u32"@,
        e is Text ==> r@ == "čtení string"@,
        e is Utf8 ==> r@ == "invalid UTF-8"@,
        e is Seek ==> r@ == "seek"@,
        e matches AdmError::Texture(name) ==> r@ == "čtení textury '"@ + name@ + "'"@,
{
}

} // verus!
