//! What the file server of the game server answers.

use vstd::prelude::*;
use vstd::utf8::encode_utf8;

use crate::names::views;
use crate::paths::{
    extension, extension_of, file_name, goes_through, has_extension, idle, leads_through, leads_to,
    lemma_leads_to, lemma_steps_below, lemma_steps_extended, name_of, path_steps, plain_name,
};
use crate::text::{bytes_of, parts, replace_char, replaced, same};

verus! {

pub const DEFAULT_HTTP_PORT: u16 = 8081;

/// An answer of the file server.
#[derive(Clone, Debug)]
pub struct HttpReply {
    pub status: u16,
    pub content_type: String,
    pub body: Vec<u8>,
}

/// The type of a file by the extension of its name.
pub open spec fn content_type_of(ext: Seq<char>) -> Seq<char> {
    if ext == "lua"@ || ext == "wgsl"@ || ext == "txt"@ || ext == "toml"@ {
        "text/plain; charset=utf-8"@
    } else if ext == "json"@ {
        "application/json"@
    } else if ext == "png"@ {
        "image/png"@
    } else if ext == "jpg"@ || ext == "jpeg"@ {
        "image/jpeg"@
    } else if ext == "ogg"@ {
        "audio/ogg"@
    } else if ext == "wav"@ {
        "audio/wav"@
    } else if ext == "gltf"@ {
        "model/gltf+json"@
    } else if ext == "glb"@ {
        "model/gltf-binary"@
    } else {
        "application/octet-stream"@
    }
}

/// The extension of the file that a path leads to; empty where it has none.
pub open spec fn path_extension(path: Seq<char>) -> Seq<char> {
    if has_extension(name_of(path)) {
        extension_of(name_of(path))
    } else {
        Seq::empty()
    }
}

pub fn guess_content_type(path: &str) -> (r: &'static str)
    ensures
        r@ == content_type_of(path_extension(path@)),
{
    let name = file_name(path);
    let ext = extension(name.as_str());
    let e = ext.as_str();
    if same(e, "lua") || same(e, "wgsl") || same(e, "txt") || same(e, "toml") {
        "text/plain; charset=utf-8"
    } else if same(e, "json") {
        "application/json"
    } else if same(e, "png") {
        "image/png"
    } else if same(e, "jpg") || same(e, "jpeg") {
        "image/jpeg"
    } else if same(e, "ogg") {
        "audio/ogg"
    } else if same(e, "wav") {
        "audio/wav"
    } else if same(e, "gltf") {
        "model/gltf+json"
    } else if same(e, "glb") {
        "model/gltf-binary"
    } else {
        "application/octet-stream"
    }
}

/// A resolved path is the directory `root` or stands below it.
pub open spec fn under(path: Seq<char>, root: Seq<char>) -> bool {
    leads_through(path, root)
}

pub fn is_under(path: &str, root: &str) -> (r: bool)
    ensures
        r == under(path@, root@),
{
    goes_through(path, root)
}

/// A requested path with the separator of the platform.
pub fn native_path(path: &str, separator: &str) -> (r: String)
    ensures
        r@ == replaced(path@, '/', separator@),
{
    replace_char(path, '/', separator)
}

/// What the server does with a request before it reads a file.
#[derive(Clone, Copy, PartialEq, Eq, Structural, Debug)]
pub enum FileStep {
    /// There is no such file: status 404, `not found`.
    NotFound,
    /// The path leads out of the served directory: status 403, `outside vfs root`.
    Forbidden,
    /// The file may be read.
    Read,
}

/// Decides on a request by the path that it resolves to, links followed; none
/// where nothing is there.
pub fn check_request(resolved: &Option<String>, root: &str) -> (r: FileStep)
    ensures
        r == match *resolved {
            None => FileStep::NotFound,
            Some(p) => if under(p@, root@) {
                FileStep::Read
            } else {
                FileStep::Forbidden
            },
        },
{
    match resolved {
        None => FileStep::NotFound,
        Some(p) => if is_under(p.as_str(), root) {
            FileStep::Read
        } else {
            FileStep::Forbidden
        },
    }
}

/// A plain text answer.
pub open spec fn says(r: HttpReply, status: u16, text: Seq<char>) -> bool {
    &&& r.status == status
    &&& r.content_type@ == "text/plain; charset=utf-8"@
    &&& r.body@ == encode_utf8(text)
}

/// The answer to a request: what the path resolves to, and what reading it
/// gives. The file is read only where `check_request` says so.
pub fn serve_resource_file(
    resolved: &Option<String>,
    root: &str,
    contents: Option<Vec<u8>>,
) -> (r: HttpReply)
    ensures
        match (*resolved, contents) {
            (None, _) => says(r, 404, "not found"@),
            (Some(p), _) if !under(p@, root@) => says(r, 403, "outside vfs root"@),
            (Some(_), None) => says(r, 404, "not found"@),
            (Some(p), Some(bytes)) => r.status == 200 && r.content_type@ == content_type_of(
                path_extension(p@),
            ) && r.body == bytes,
        },
{
    match resolved {
        None => HttpReply {
            status: 404,
            content_type: "text/plain; charset=utf-8".to_string(),
            body: bytes_of("not found"),
        },
        Some(p) => {
            if !is_under(p.as_str(), root) {
                return HttpReply {
                    status: 403,
                    content_type: "text/plain; charset=utf-8".to_string(),
                    body: bytes_of("outside vfs root"),
                };
            }
            match contents {
                None => HttpReply {
                    status: 404,
                    content_type: "text/plain; charset=utf-8".to_string(),
                    body: bytes_of("not found"),
                },
                Some(bytes) => HttpReply {
                    status: 200,
                    content_type: guess_content_type(p.as_str()).to_string(),
                    body: bytes,
                },
            }
        },
    }
}

/// A directory whose name only begins like that of the served one is outside.
pub proof fn law_sibling_is_outside(root: Seq<char>, rest: Seq<char>)
    requires
        !idle(parts(root, '/').last()),
        rest.len() > 0,
        rest[0] != '/',
    ensures
        !under(root + rest, root),
{
    lemma_steps_extended(root, rest);
}

/// Everything below the served directory is inside it.
pub proof fn law_below_is_inside(root: Seq<char>, rest: Seq<char>)
    ensures
        under(root + "/"@ + rest, root),
{
    lemma_steps_below(root, rest);
}

/// The type of a file by its extension.
pub proof fn law_content_types(path: &str, name: &str, ext: String, r: &'static str)
    requires
        call_ensures(guess_content_type, (path,), r),
        plain_name(name@),
        leads_to(path@, name@),
        call_ensures(extension, (name,), ext),
    ensures
        ext@ == "lua"@ || ext@ == "wgsl"@ || ext@ == "txt"@ || ext@ == "toml"@ ==> r@
            == "text/plain; charset=utf-8"@,
        ext@ == "json"@ ==> r@ == "application/json"@,
        ext@ == "png"@ ==> r@ == "image/png"@,
        ext@ == "jpg"@ || ext@ == "jpeg"@ ==> r@ == "image/jpeg"@,
        ext@ == "ogg"@ ==> r@ == "audio/ogg"@,
        ext@ == "wav"@ ==> r@ == "audio/wav"@,
        ext@ == "gltf"@ ==> r@ == "model/gltf+json"@,
        ext@ == "glb"@ ==> r@ == "model/gltf-binary"@,
        ext@.len() == 0 || ext@.len() > 4 ==> r@ == "application/octet-stream"@,
{
    lemma_leads_to(path@, name@);
    reveal_strlit("lua");
    reveal_strlit("wgsl");
    reveal_strlit("txt");
    reveal_strlit("toml");
    reveal_strlit("json");
    reveal_strlit("png");
    reveal_strlit("jpg");
    reveal_strlit("jpeg");
    reveal_strlit("ogg");
    reveal_strlit("wav");
    reveal_strlit("gltf");
    reveal_strlit("glb");
    assert("lua"@.len() == 3 && "wgsl"@.len() == 4 && "txt"@.len() == 3 && "toml"@.len() == 4
        && "json"@.len() == 4 && "png"@.len() == 3 && "jpg"@.len() == 3 && "jpeg"@.len() == 4
        && "ogg"@.len() == 3 && "wav"@.len() == 3 && "gltf"@.len() == 4 && "glb"@.len() == 3);
    assert("json"@[0] == 'j' && "json"@[1] == 's' && "jpeg"@[0] == 'j' && "jpeg"@[1] == 'p'
        && "gltf"@[0] == 'g' && "wgsl"@[0] == 'w' && "toml"@[0] == 't');
    assert("lua"@[0] == 'l' && "txt"@[0] == 't' && "png"@[0] == 'p' && "jpg"@[0] == 'j' && "ogg"@[0]
        == 'o' && "wav"@[0] == 'w' && "glb"@[0] == 'g');
}

/// A request: what is below the served directory is served with its bytes, what
/// is elsewhere is forbidden, whatever it holds, and what is nowhere is not found.
pub proof fn law_requests_answered(
    resolved: &Option<String>,
    path: &str,
    root: &str,
    contents: Option<Vec<u8>>,
    r: HttpReply,
    step: FileStep,
    inside: bool,
    kind: &'static str,
)
    requires
        call_ensures(serve_resource_file, (resolved, root, contents), r),
        call_ensures(check_request, (resolved, root), step),
        resolved matches Some(p) ==> path@ == p@,
        call_ensures(is_under, (path, root), inside),
        call_ensures(guess_content_type, (path,), kind),
    ensures
        resolved is None ==> step is NotFound && r.status == 404,
        resolved is Some && !inside ==> step is Forbidden && r.status == 403 && r.body@
            == encode_utf8("outside vfs root"@),
        resolved is Some && inside ==> step is Read,
        resolved is Some && inside && contents is None ==> r.status == 404,
        resolved is Some && inside && contents is Some ==> r.status == 200 && r.body
            == contents->0 && r.content_type@ == kind@,
        r.status == 404 ==> r.body@ == encode_utf8("not found"@),
        r.status != 200 ==> r.content_type@ == "text/plain; charset=utf-8"@,
{
}

/// A path is inside a directory where its steps begin with that directory's.
pub proof fn law_inside(
    path: &str,
    root: &str,
    inside: bool,
    of_path: Vec<String>,
    of_root: Vec<String>,
)
    requires
        call_ensures(is_under, (path, root), inside),
        call_ensures(path_steps, (path,), of_path),
        call_ensures(path_steps, (root,), of_root),
    ensures
        inside <==> of_root@.len() <= of_path@.len() && views(of_path@).take(
            of_root@.len() as int,
        ) == views(of_root@),
{
    assert(views(of_root@).len() == of_root@.len());
    assert(views(of_path@).len() == of_path@.len());
    if of_root@.len() <= of_path@.len() {
        assert(views(of_path@).take(of_root@.len() as int) =~= views(of_path@).subrange(
            0,
            of_root@.len() as int,
        ));
    }
}

} // verus!
