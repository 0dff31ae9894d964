//! Web pages over the game: scripts for the browser, and its requests.

use vstd::prelude::*;
use vstd::utf8::encode_utf8;

use crate::folds::lemma_take_next;
use crate::names::views;
use crate::paths::{join_path, joined_path};
use crate::text::{
    ascii_lower_all, ascii_lowercase, bytes_of, concat, drop_front, drop_tails, find_last, has_head,
    last_index, lemma_last_index_of, parts, replace_char, replaced, same, slice_string, split, strip_front, strip_head,
    strip_tails, to_chars, truth, truth_text,
};

verus! {

/// Whether a page has the keys, and whether it has the pointer.
#[derive(Clone, Copy, PartialEq, Eq, Structural, Debug)]
pub struct NuiFocusState {
    pub has_focus: bool,
    pub has_cursor: bool,
}

impl Default for NuiFocusState {
    fn default() -> (r: Self)
        ensures
            r == (NuiFocusState { has_focus: false, has_cursor: false }),
    {
        NuiFocusState { has_focus: false, has_cursor: false }
    }
}

/// A message of a script to the pages.
#[derive(Clone, Debug)]
pub enum NuiOutMsg {
    Dispatch { resource_host: String, json: String },
    SetFocus { has_focus: bool, has_cursor: bool },
    AddFrame { resource_host: String, page: String },
    RemoveFrame { resource_host: String },
}

/// A text as it stands inside a script's literal in single quotes.
pub open spec fn escaped(s: Seq<char>) -> Seq<char> {
    replaced(
        replaced(replaced(replaced(s, '\\', "\\\\"@), '\'', "\\'"@), '\n', "\\n"@),
        '\r',
        "\\r"@,
    )
}

/// Makes a text fit to stand inside a script's literal in single quotes.
pub fn escape_js_string(s: &str) -> (r: String)
    ensures
        r@ == escaped(s@),
{
    let a = replace_char(s, '\\', "\\\\");
    let b = replace_char(a.as_str(), '\'', "\\'");
    let c = replace_char(b.as_str(), '\n', "\\n");
    replace_char(c.as_str(), '\r', "\\r")
}

/// What a reader of the literal takes for a backslash and the character behind it.
pub open spec fn meant(c: char) -> char {
    if c == 'n' {
        '\n'
    } else if c == 'r' {
        '\r'
    } else {
        c
    }
}

/// The text that a reader of the literal sees.
pub open spec fn read_literal(s: Seq<char>) -> Seq<char>
    decreases s.len(),
{
    if s.len() == 0 {
        s
    } else if s[0] == '\\' && s.len() > 1 {
        seq![meant(s[1])] + read_literal(s.skip(2))
    } else {
        seq![s[0]] + read_literal(s.skip(1))
    }
}

/// No quote or line break inside the literal would end it.
pub open spec fn stays_open(s: Seq<char>) -> bool
    decreases s.len(),
{
    if s.len() == 0 {
        true
    } else if s[0] == '\\' {
        s.len() > 1 && stays_open(s.skip(2))
    } else {
        s[0] != '\'' && s[0] != '\n' && s[0] != '\r' && stays_open(s.skip(1))
    }
}

spec fn piece(c: char) -> Seq<char> {
    if c == '\\' {
        "\\\\"@
    } else if c == '\'' {
        "\\'"@
    } else if c == '\n' {
        "\\n"@
    } else if c == '\r' {
        "\\r"@
    } else {
        seq![c]
    }
}

proof fn lemma_replaced_joins(a: Seq<char>, b: Seq<char>, from: char, to: Seq<char>)
    ensures
        replaced(a + b, from, to) == replaced(a, from, to) + replaced(b, from, to),
    decreases b.len(),
{
    if b.len() == 0 {
        assert(a + b =~= a);
        assert(replaced(a, from, to) + replaced(b, from, to) =~= replaced(a, from, to));
    } else {
        lemma_replaced_joins(a, b.drop_last(), from, to);
        assert((a + b).drop_last() =~= a + b.drop_last());
        assert((a + b).last() == b.last());
        let tail = if b.last() == from {
            to
        } else {
            seq![b.last()]
        };
        assert(replaced(a, from, to) + replaced(b.drop_last(), from, to) + tail =~= replaced(
            a,
            from,
            to,
        ) + (replaced(b.drop_last(), from, to) + tail));
    }
}

proof fn lemma_replaced_single(c: char, from: char, to: Seq<char>)
    ensures
        replaced(seq![c], from, to) == (if c == from {
            to
        } else {
            seq![c]
        }),
{
    assert(seq![c].drop_last() =~= Seq::<char>::empty());
    assert(replaced(Seq::<char>::empty(), from, to) =~= Seq::<char>::empty());
    assert(Seq::<char>::empty() + to =~= to);
    assert(Seq::<char>::empty() + seq![c] =~= seq![c]);
}

proof fn lemma_replaced_pair(a: char, b: char, from: char, to: Seq<char>)
    requires
        a != from,
        b != from,
    ensures
        replaced(seq![a, b], from, to) == seq![a, b],
{
    assert(seq![a, b] =~= seq![a] + seq![b]);
    lemma_replaced_joins(seq![a], seq![b], from, to);
    lemma_replaced_single(a, from, to);
    lemma_replaced_single(b, from, to);
}

proof fn lemma_escaped_single(c: char)
    ensures
        escaped(seq![c]) == piece(c),
{
    reveal_strlit("\\\\");
    reveal_strlit("\\'");
    reveal_strlit("\\n");
    reveal_strlit("\\r");
    assert("\\\\"@ =~= seq!['\\', '\\']);
    assert("\\'"@ =~= seq!['\\', '\'']);
    assert("\\n"@ =~= seq!['\\', 'n']);
    assert("\\r"@ =~= seq!['\\', 'r']);
    lemma_replaced_single(c, '\\', "\\\\"@);
    if c == '\\' {
        lemma_replaced_pair('\\', '\\', '\'', "\\'"@);
        lemma_replaced_pair('\\', '\\', '\n', "\\n"@);
        lemma_replaced_pair('\\', '\\', '\r', "\\r"@);
    } else {
        lemma_replaced_single(c, '\'', "\\'"@);
        if c == '\'' {
            lemma_replaced_pair('\\', '\'', '\n', "\\n"@);
            lemma_replaced_pair('\\', '\'', '\r', "\\r"@);
        } else {
            lemma_replaced_single(c, '\n', "\\n"@);
            if c == '\n' {
                lemma_replaced_pair('\\', 'n', '\r', "\\r"@);
            } else {
                lemma_replaced_single(c, '\r', "\\r"@);
            }
        }
    }
}

proof fn lemma_escaped_joins(a: Seq<char>, b: Seq<char>)
    ensures
        escaped(a + b) == escaped(a) + escaped(b),
{
    lemma_replaced_joins(a, b, '\\', "\\\\"@);
    let a1 = replaced(a, '\\', "\\\\"@);
    let b1 = replaced(b, '\\', "\\\\"@);
    lemma_replaced_joins(a1, b1, '\'', "\\'"@);
    let a2 = replaced(a1, '\'', "\\'"@);
    let b2 = replaced(b1, '\'', "\\'"@);
    lemma_replaced_joins(a2, b2, '\n', "\\n"@);
    let a3 = replaced(a2, '\n', "\\n"@);
    let b3 = replaced(b2, '\n', "\\n"@);
    lemma_replaced_joins(a3, b3, '\r', "\\r"@);
}

/// Whatever a text holds, the literal around it is not ended early, and its
/// reader sees the text itself.
pub proof fn law_literal_gives_text_back(s: Seq<char>)
    ensures
        stays_open(escaped(s)),
        read_literal(escaped(s)) == s,
    decreases s.len(),
{
    if s.len() == 0 {
        reveal_with_fuel(replaced, 2);
        assert(escaped(s) =~= Seq::<char>::empty());
    } else {
        let c = s[0];
        let rest = s.drop_first();
        law_literal_gives_text_back(rest);
        assert(s =~= seq![c] + rest);
        lemma_escaped_joins(seq![c], rest);
        lemma_escaped_single(c);
        reveal_strlit("\\\\");
        reveal_strlit("\\'");
        reveal_strlit("\\n");
        reveal_strlit("\\r");
        let whole = escaped(s);
        let p = piece(c);
        assert(whole == p + escaped(rest));
        assert(whole.skip(p.len() as int) =~= escaped(rest));
        assert(whole[0] == p[0]);
        assert(p.len() == 2 ==> whole[1] == p[1]);
        assert(read_literal(whole) == seq![c] + read_literal(escaped(rest)));
    }
}

/// The script that hands a message to the host page.
pub open spec fn script_of(msg: NuiOutMsg) -> Seq<char> {
    match msg {
        NuiOutMsg::Dispatch { resource_host, json } => "window.__nui_dispatch('"@ + resource_host@
            + "', '"@ + escaped(json@) + "')"@,
        NuiOutMsg::SetFocus { has_focus, has_cursor } => "window.__nui_set_focus("@ + truth(
            has_focus,
        ) + ", "@ + truth(has_cursor) + ")"@,
        NuiOutMsg::AddFrame { resource_host, page } => "window.__nui_add_frame('"@ + resource_host@
            + "', '"@ + page@ + "')"@,
        NuiOutMsg::RemoveFrame { resource_host } => "window.__nui_remove_frame('"@ + resource_host@
            + "')"@,
    }
}

fn script(msg: &NuiOutMsg) -> (r: String)
    ensures
        r@ == script_of(*msg),
{
    match msg {
        NuiOutMsg::Dispatch { resource_host, json } => {
            let mut r = concat("window.__nui_dispatch('", resource_host.as_str());
            r.append("', '");
            r.append(escape_js_string(json.as_str()).as_str());
            r.append("')");
            r
        },
        NuiOutMsg::SetFocus { has_focus, has_cursor } => {
            let mut r = concat("window.__nui_set_focus(", truth_text(*has_focus));
            r.append(", ");
            r.append(truth_text(*has_cursor));
            r.append(")");
            r
        },
        NuiOutMsg::AddFrame { resource_host, page } => {
            let mut r = concat("window.__nui_add_frame('", resource_host.as_str());
            r.append("', '");
            r.append(page.as_str());
            r.append("')");
            r
        },
        NuiOutMsg::RemoveFrame { resource_host } => {
            let mut r = concat("window.__nui_remove_frame('", resource_host.as_str());
            r.append("')");
            r
        },
    }
}

/// The focus after some messages: that of the last one that sets it.
pub open spec fn focus_after(focus: NuiFocusState, msgs: Seq<NuiOutMsg>) -> NuiFocusState
    decreases msgs.len(),
{
    if msgs.len() == 0 {
        focus
    } else {
        match msgs.last() {
            NuiOutMsg::SetFocus { has_focus, has_cursor } => NuiFocusState { has_focus, has_cursor },
            _ => focus_after(focus, msgs.drop_last()),
        }
    }
}

/// The scripts to run for the waiting messages, in their order.
pub fn flush_nui_out(msgs: &Vec<NuiOutMsg>, focus: &mut NuiFocusState) -> (r: Vec<String>)
    ensures
        *final(focus) == focus_after(*old(focus), msgs@),
        r@.len() == msgs@.len(),
        forall|i: int| 0 <= i < r@.len() ==> (#[trigger] r@[i])@ == script_of(msgs@[i]),
{
    let mut r: Vec<String> = Vec::new();
    let mut i: usize = 0;
    assert(msgs@.take(0) =~= Seq::<NuiOutMsg>::empty());
    while i < msgs.len()
        invariant
            i <= msgs.len(),
            r@.len() == i,
            forall|j: int| 0 <= j < i ==> (#[trigger] r@[j])@ == script_of(msgs@[j]),
            *focus == focus_after(*old(focus), msgs@.take(i as int)),
        decreases msgs.len() - i,
    {
        proof {
            lemma_take_next(msgs@, i as int);
        }
        match &msgs[i] {
            NuiOutMsg::SetFocus { has_focus, has_cursor } => {
                *focus = NuiFocusState { has_focus: *has_focus, has_cursor: *has_cursor };
            },
            _ => {},
        }
        r.push(script(&msgs[i]));
        i = i + 1;
    }
    assert(msgs@.take(msgs.len() as int) =~= msgs@);
    r
}

/// What follows the last dot of a path, or all of it, in lower case.
pub open spec fn suffix_of(path: Seq<char>) -> Seq<char> {
    ascii_lower_all(path.skip(last_index(path, '.') + 1))
}

pub open spec fn mime_of(suffix: Seq<char>) -> Seq<char> {
    if suffix == "html"@ || suffix == "htm"@ {
        "text/html; charset=utf-8"@
    } else if suffix == "css"@ {
        "text/css; charset=utf-8"@
    } else if suffix == "js"@ || suffix == "mjs"@ {
        "text/javascript; charset=utf-8"@
    } else if suffix == "json"@ {
        "application/json"@
    } else if suffix == "png"@ {
        "image/png"@
    } else if suffix == "jpg"@ || suffix == "jpeg"@ {
        "image/jpeg"@
    } else if suffix == "gif"@ {
        "image/gif"@
    } else if suffix == "svg"@ {
        "image/svg+xml"@
    } else if suffix == "woff"@ {
        "font/woff"@
    } else if suffix == "woff2"@ {
        "font/woff2"@
    } else if suffix == "ttf"@ {
        "font/ttf"@
    } else if suffix == "ico"@ {
        "image/x-icon"@
    } else if suffix == "mp3"@ {
        "audio/mpeg"@
    } else if suffix == "ogg"@ {
        "audio/ogg"@
    } else if suffix == "wav"@ {
        "audio/wav"@
    } else {
        "application/octet-stream"@
    }
}

/// The type of a page's file by the suffix of its path.
pub fn mime_type_for(path: &str) -> (r: &'static str)
    ensures
        r@ == mime_of(suffix_of(path@)),
{
    let x = to_chars(path);
    let from: usize = match find_last(&x, '.') {
        Some(i) => i + 1,
        None => 0,
    };
    let tail = slice_string(&x, from, x.len());
    assert(tail@ =~= path@.skip(from as int));
    let lower = ascii_lowercase(tail.as_str());
    let s = lower.as_str();
    if same(s, "html") || same(s, "htm") {
        "text/html; charset=utf-8"
    } else if same(s, "css") {
        "text/css; charset=utf-8"
    } else if same(s, "js") || same(s, "mjs") {
        "text/javascript; charset=utf-8"
    } else if same(s, "json") {
        "application/json"
    } else if same(s, "png") {
        "image/png"
    } else if same(s, "jpg") || same(s, "jpeg") {
        "image/jpeg"
    } else if same(s, "gif") {
        "image/gif"
    } else if same(s, "svg") {
        "image/svg+xml"
    } else if same(s, "woff") {
        "font/woff"
    } else if same(s, "woff2") {
        "font/woff2"
    } else if same(s, "ttf") {
        "font/ttf"
    } else if same(s, "ico") {
        "image/x-icon"
    } else if same(s, "mp3") {
        "audio/mpeg"
    } else if same(s, "ogg") {
        "audio/ogg"
    } else if same(s, "wav") {
        "audio/wav"
    } else {
        "application/octet-stream"
    }
}

/// An answer to the browser.
#[derive(Clone, Debug)]
pub struct NuiReply {
    pub status: u16,
    pub content_type: Option<String>,
    /// Pages of every origin may read the answer.
    pub any_origin: bool,
    pub body: Vec<u8>,
}

impl NuiReply {
    /// The answer names its type.
    pub open spec fn typed(self, name: Seq<char>) -> bool {
        self.content_type matches Some(t) && t@ == name
    }
}

/// A refusal: a status and a plain sentence.
pub open spec fn refuses(r: NuiReply, status: u16, sentence: Seq<char>) -> bool {
    &&& r.status == status
    &&& r.typed("text/plain"@)
    &&& !r.any_origin
    &&& r.body@ == encode_utf8(sentence)
}

/// The answer where no other one can be made: it names no type.
pub open spec fn fails(r: NuiReply) -> bool {
    &&& r.status == 500
    &&& r.content_type is None
    &&& !r.any_origin
    &&& r.body@ == encode_utf8("internal error"@)
}

/// A refusal with a status and a plain sentence. A status has three digits; any
/// other number gives the answer that always can be made.
pub fn error_response(status: u16, sentence: &str) -> (r: NuiReply)
    ensures
        100 <= status < 1000 ==> refuses(r, status, sentence@),
        !(100 <= status < 1000) ==> fails(r),
{
    if status < 100 || status >= 1000 {
        return NuiReply {
            status: 500,
            content_type: None,
            any_origin: false,
            body: bytes_of("internal error"),
        };
    }
    NuiReply {
        status,
        content_type: Some("text/plain".to_string()),
        any_origin: false,
        body: bytes_of(sentence),
    }
}

/// The answer to a callback that was taken.
pub fn ok_json_response() -> (r: NuiReply)
    ensures
        r.status == 200,
        r.typed("application/json"@),
        r.any_origin,
        r.body@ == encode_utf8("{}"@),
{
    NuiReply {
        status: 200,
        content_type: Some("application/json".to_string()),
        any_origin: true,
        body: bytes_of("{}"),
    }
}

/// A page's message to a script of its resource.
#[derive(Clone, Debug)]
pub struct NuiInMsg {
    pub resource_id: String,
    pub callback_name: String,
    pub data: Vec<u8>,
}

/// The name of the callback that a path calls; empty where it calls none.
pub open spec fn callback_of(path: Seq<char>) -> Seq<char> {
    if has_head(path, "/callback/"@) {
        drop_tails(path.skip("/callback/"@.len() as int), "/"@)
    } else {
        Seq::empty()
    }
}

/// A call of a page to its resource: the message for its script, where it names
/// a callback, and the answer.
pub fn handle_nui_callback(resource_id: &str, path: &str, body: &Vec<u8>) -> (r: (
    Option<NuiInMsg>,
    NuiReply,
))
    ensures
        match r.0 {
            Some(m) => callback_of(path@).len() > 0 && m.resource_id@ == resource_id@
                && m.callback_name@ == callback_of(path@) && m.data@ == body@ && r.1.status == 200
                && r.1.typed("application/json"@) && r.1.any_origin && r.1.body@
                == encode_utf8("{}"@),
            None => callback_of(path@).len() == 0 && refuses(r.1, 400, "missing callback name"@),
        },
{
    proof {
        reveal_strlit("/");
    }
    let name = match strip_head(path, "/callback/") {
        Some(rest) => strip_tails(rest.as_str(), "/"),
        None => String::new(),
    };
    assert(name@ =~= callback_of(path@));
    if name.as_str().is_empty() {
        return (None, error_response(400, "missing callback name"));
    }
    let mut data: Vec<u8> = Vec::new();
    let mut i: usize = 0;
    while i < body.len()
        invariant
            i <= body.len(),
            data@ == body@.take(i as int),
        decreases body.len() - i,
    {
        data.push(body[i]);
        i = i + 1;
        assert(body@.take(i as int) =~= body@.take(i - 1).push(body@[i - 1]));
    }
    assert(body@.take(i as int) =~= body@);
    let message = NuiInMsg { resource_id: resource_id.to_string(), callback_name: name, data };
    (Some(message), ok_json_response())
}

/// A part of a path that would lead up or stay.
pub open spec fn dotted(part: Seq<char>) -> bool {
    part == ".."@ || part == "."@
}

/// Some part of the path would lead up or stay.
pub open spec fn wanders(path: Seq<char>) -> bool {
    exists|i: int| 0 <= i < parts(path, '/').len() && dotted(#[trigger] parts(path, '/')[i])
}

/// The directory, part by part below the first.
pub open spec fn path_below(dir: Seq<char>, segments: Seq<Seq<char>>) -> Seq<char>
    decreases segments.len(),
{
    if segments.len() == 0 {
        dir
    } else {
        joined_path(path_below(dir, segments.drop_last()), segments.last())
    }
}

/// The file of a resource in the cache.
pub open spec fn file_in_cache(root: Seq<char>, resource: Seq<char>, rel: Seq<char>) -> Seq<char> {
    joined_path(path_below(root, parts(resource, '/')), rel)
}

proof fn lemma_parts_hold_no_separator(s: Seq<char>, c: char)
    ensures
        parts(s, c).len() > 0,
        forall|i: int| 0 <= i < parts(s, c).len() ==> !(#[trigger] parts(s, c)[i]).contains(c),
    decreases s.len(),
{
    if s.len() > 0 {
        let before = parts(s.drop_last(), c);
        lemma_parts_hold_no_separator(s.drop_last(), c);
        assert forall|i: int| 0 <= i < parts(s, c).len() implies !(#[trigger] parts(
            s,
            c,
        )[i]).contains(c) by {
            if s.last() != c && i == before.len() - 1 {
                let grown = before.last().push(s.last());
                assert(parts(s, c)[i] == grown);
                assert(!before[i].contains(c));
                if grown.contains(c) {
                    let k = choose|k: int| 0 <= k < grown.len() && grown[k] == c;
                    assert(before[i][k] == c);
                }
            } else if i < before.len() {
                assert(parts(s, c)[i] == before[i]);
            }
        }
    }
}

proof fn lemma_below_extends(dir: Seq<char>, segments: Seq<Seq<char>>)
    requires
        dir.len() > 0,
        forall|i: int| 0 <= i < segments.len() ==> !has_head(#[trigger] segments[i], "/"@),
    ensures
        has_head(path_below(dir, segments), dir),
    decreases segments.len(),
{
    if segments.len() == 0 {
        assert(dir.take(dir.len() as int) =~= dir);
    } else {
        let front = segments.drop_last();
        assert forall|i: int| 0 <= i < front.len() implies !has_head(#[trigger] front[i], "/"@) by {
            assert(front[i] == segments[i]);
        }
        lemma_below_extends(dir, front);
        lemma_join_extends(path_below(dir, front), segments.last(), dir);
    }
}

proof fn lemma_join_extends(base: Seq<char>, rel: Seq<char>, dir: Seq<char>)
    requires
        dir.len() > 0,
        has_head(base, dir),
        !has_head(rel, "/"@),
    ensures
        has_head(joined_path(base, rel), dir),
{
    assert(joined_path(base, rel).take(dir.len() as int) =~= base.take(dir.len() as int));
}

/// Whatever a page asks for, the path that is read starts with that of the cache.
pub proof fn law_path_starts_in_cache(root: Seq<char>, resource: Seq<char>, path: Seq<char>)
    requires
        root.len() > 0,
    ensures
        has_head(file_in_cache(root, resource, drop_front(path, '/')), root),
{
    reveal_strlit("/");
    let segments = parts(resource, '/');
    lemma_parts_hold_no_separator(resource, '/');
    assert forall|i: int| 0 <= i < segments.len() implies !has_head(#[trigger] segments[i], "/"@) by {
        if has_head(segments[i], "/"@) {
            assert(segments[i].take(1)[0] == '/');
            assert(segments[i].contains('/'));
        }
    }
    lemma_below_extends(root, segments);
    lemma_front_gone(path, '/');
    let rel = drop_front(path, '/');
    if has_head(rel, "/"@) {
        assert(rel.take(1)[0] == '/');
    }
    lemma_join_extends(path_below(root, segments), rel, root);
}

proof fn lemma_front_gone(s: Seq<char>, c: char)
    ensures
        drop_front(s, c).len() > 0 ==> drop_front(s, c)[0] != c,
    decreases s.len(),
{
    if s.len() > 0 && s[0] == c {
        lemma_front_gone(s.drop_first(), c);
    }
}

/// What a request for a file leads to.
#[derive(Clone, Debug)]
pub enum NuiFile {
    Refused(NuiReply),
    /// The file at this path.
    Read(String),
}

/// Finds the file that a page asks for. A path that is empty or that wanders
/// is refused before anything is read.
pub fn find_nui_file(cache_root: &str, resource: &str, path: &str) -> (r: NuiFile)
    ensures
        ({
            let rel = drop_front(path@, '/');
            match r {
                NuiFile::Refused(reply) => if rel.len() == 0 {
                    refuses(reply, 404, "file path required"@)
                } else {
                    wanders(rel) && refuses(reply, 403, "path traversal not allowed"@)
                },
                NuiFile::Read(p) => {
                    &&& rel.len() > 0
                    &&& !wanders(rel)
                    &&& p@ == file_in_cache(cache_root@, resource@, rel)
                },
            }
        }),
{
    let rel = strip_front(path, '/');
    if rel.as_str().is_empty() {
        return NuiFile::Refused(error_response(404, "file path required"));
    }
    let pieces = split(rel.as_str(), '/');
    let mut i: usize = 0;
    while i < pieces.len()
        invariant
            i <= pieces.len(),
            rel@ == drop_front(path@, '/'),
            rel@.len() > 0,
            views(pieces@) == parts(rel@, '/'),
            forall|j: int| 0 <= j < i ==> !dotted(#[trigger] parts(rel@, '/')[j]),
        decreases pieces.len() - i,
    {
        assert(views(pieces@)[i as int] == pieces@[i as int]@);
        if same(pieces[i].as_str(), "..") || same(pieces[i].as_str(), ".") {
            assert(dotted(parts(rel@, '/')[i as int]));
            return NuiFile::Refused(error_response(403, "path traversal not allowed"));
        }
        i = i + 1;
    }
    let segments = split(resource, '/');
    let mut dir = cache_root.to_string();
    let mut k: usize = 0;
    assert(views(segments@).take(0) =~= Seq::<Seq<char>>::empty());
    while k < segments.len()
        invariant
            k <= segments.len(),
            views(segments@) == parts(resource@, '/'),
            dir@ == path_below(cache_root@, views(segments@).take(k as int)),
        decreases segments.len() - k,
    {
        proof {
            let next = views(segments@).take(k + 1);
            assert(next.drop_last() =~= views(segments@).take(k as int));
            assert(next.last() == segments@[k as int]@);
        }
        dir = join_path(dir.as_str(), segments[k].as_str());
        k = k + 1;
    }
    assert(views(segments@).take(segments.len() as int) =~= views(segments@));
    let full = join_path(dir.as_str(), rel.as_str());
    NuiFile::Read(full)
}

/// The answer to a request for the file at `path`, by what reading it gave.
pub fn serve_nui_file(path: &str, contents: Option<Vec<u8>>) -> (r: NuiReply)
    ensures
        match contents {
            Some(bytes) => {
                &&& r.status == 200
                &&& r.typed(mime_of(suffix_of(drop_front(path@, '/'))))
                &&& r.any_origin
                &&& r.body == bytes
            },
            None => refuses(r, 404, "not found"@),
        },
{
    match contents {
        Some(body) => {
            let rel = strip_front(path, '/');
            NuiReply {
                status: 200,
                content_type: Some(mime_type_for(rel.as_str()).to_string()),
                any_origin: true,
                body,
            }
        },
        None => error_response(404, "not found"),
    }
}

/// A request that a page makes: a call, or a file.
#[derive(Clone, Copy, PartialEq, Eq, Structural, Debug)]
pub enum NuiRequest {
    Callback,
    File,
}

pub fn handle_nui_request(method: &str) -> (r: NuiRequest)
    ensures
        r == (if method@ == "POST"@ {
            NuiRequest::Callback
        } else {
            NuiRequest::File
        }),
{
    if same(method, "POST") {
        NuiRequest::Callback
    } else {
        NuiRequest::File
    }
}

/// Whatever a text holds, the literal made of it is not ended early, and its
/// reader sees the text.
pub proof fn law_escape(s: &str, r: String)
    requires
        call_ensures(escape_js_string, (s,), r),
    ensures
        stays_open(r@),
        read_literal(r@) == s@,
{
    law_literal_gives_text_back(s@);
}

/// Each message runs one script, in order: the call for its kind, with its own
/// texts, and a dispatched message as a literal.
pub proof fn law_message_scripts(
    msgs: &Vec<NuiOutMsg>,
    focus: &mut NuiFocusState,
    r: Vec<String>,
    i: int,
    json: &str,
    literal: String,
)
    requires
        call_ensures(flush_nui_out, (msgs, focus), r),
        0 <= i < msgs@.len(),
        msgs@[i] matches NuiOutMsg::Dispatch { json: j, .. } ==> json@ == j@,
        call_ensures(escape_js_string, (json,), literal),
    ensures
        r@.len() == msgs@.len(),
        msgs@[i] matches NuiOutMsg::Dispatch { resource_host, .. } ==> r@[i]@
            == "window.__nui_dispatch('"@ + resource_host@ + "', '"@ + literal@ + "')"@,
        msgs@[i] matches NuiOutMsg::AddFrame { resource_host, page } ==> r@[i]@
            == "window.__nui_add_frame('"@ + resource_host@ + "', '"@ + page@ + "')"@,
        msgs@[i] matches NuiOutMsg::RemoveFrame { resource_host } ==> r@[i]@
            == "window.__nui_remove_frame('"@ + resource_host@ + "')"@,
        msgs@[i] matches NuiOutMsg::SetFocus { has_focus, has_cursor } ==> r@[i]@
            == "window.__nui_set_focus("@ + (if has_focus {
            "true"@
        } else {
            "false"@
        }) + ", "@ + (if has_cursor {
            "true"@
        } else {
            "false"@
        }) + ")"@,
{
    let out = r@[i];
    assert(out@ == script_of(msgs@[i]));
}

/// The focus after some messages is that of the last one that sets it, and stays
/// where none does.
pub proof fn law_focus_set(
    msgs: &Vec<NuiOutMsg>,
    focus: &mut NuiFocusState,
    r: Vec<String>,
    i: int,
)
    requires
        call_ensures(flush_nui_out, (msgs, focus), r),
        -1 <= i < msgs@.len(),
        forall|j: int| i < j < msgs@.len() ==> !((#[trigger] msgs@[j]) is SetFocus),
        i >= 0 ==> msgs@[i] is SetFocus,
    ensures
        i == -1 ==> *final(focus) == *old(focus),
        i >= 0 ==> final(focus).has_focus == msgs@[i]->has_focus && final(focus).has_cursor
            == msgs@[i]->has_cursor,
{
    lemma_focus_after(*old(focus), msgs@, i);
}

proof fn lemma_focus_after(focus: NuiFocusState, msgs: Seq<NuiOutMsg>, i: int)
    requires
        -1 <= i < msgs.len(),
        forall|j: int| i < j < msgs.len() ==> !((#[trigger] msgs[j]) is SetFocus),
        i >= 0 ==> msgs[i] is SetFocus,
    ensures
        i == -1 ==> focus_after(focus, msgs) == focus,
        i >= 0 ==> focus_after(focus, msgs) == (NuiFocusState {
            has_focus: msgs[i]->has_focus,
            has_cursor: msgs[i]->has_cursor,
        }),
    decreases msgs.len(),
{
    if msgs.len() > 0 {
        let front = msgs.drop_last();
        if i < front.len() {
            assert(!(msgs[msgs.len() - 1] is SetFocus));
            assert forall|j: int| i < j < front.len() implies !((#[trigger] front[j]) is SetFocus) by {
                assert(front[j] == msgs[j]);
            }
            lemma_focus_after(focus, front, i);
        }
    }
}

/// The type of a file of a page by what follows the last dot of its path, in any
/// case of letters.
pub proof fn law_mime_types(path: &str, base: Seq<char>, suffix: &str, lower: String, r: &'static str)
    requires
        call_ensures(mime_type_for, (path,), r),
        call_ensures(ascii_lowercase, (suffix,), lower),
        path@ == base + seq!['.'] + suffix@,
        forall|i: int| 0 <= i < suffix@.len() ==> suffix@[i] != '.',
    ensures
        lower@ == "html"@ || lower@ == "htm"@ ==> r@ == "text/html; charset=utf-8"@,
        lower@ == "css"@ ==> r@ == "text/css; charset=utf-8"@,
        lower@ == "js"@ || lower@ == "mjs"@ ==> r@ == "text/javascript; charset=utf-8"@,
        lower@ == "json"@ ==> r@ == "application/json"@,
        lower@ == "png"@ ==> r@ == "image/png"@,
        lower@ == "jpg"@ || lower@ == "jpeg"@ ==> r@ == "image/jpeg"@,
        lower@ == "gif"@ ==> r@ == "image/gif"@,
        lower@ == "svg"@ ==> r@ == "image/svg+xml"@,
        lower@ == "woff"@ ==> r@ == "font/woff"@,
        lower@ == "woff2"@ ==> r@ == "font/woff2"@,
        lower@ == "ttf"@ ==> r@ == "font/ttf"@,
        lower@ == "ico"@ ==> r@ == "image/x-icon"@,
        lower@ == "mp3"@ ==> r@ == "audio/mpeg"@,
        lower@ == "ogg"@ ==> r@ == "audio/ogg"@,
        lower@ == "wav"@ ==> r@ == "audio/wav"@,
        lower@.len() == 0 || lower@.len() > 5 ==> r@ == "application/octet-stream"@,
{
    lemma_last_index_of(path@, '.');
    let i = last_index(path@, '.');
    assert(path@[base.len() as int] == '.');
    if i > base.len() {
        assert(path@[i] == suffix@[i - base.len() - 1]);
    }
    assert(path@.skip(base.len() as int + 1) =~= suffix@);
    reveal_strlit("html");
    reveal_strlit("htm");
    reveal_strlit("css");
    reveal_strlit("js");
    reveal_strlit("mjs");
    reveal_strlit("json");
    reveal_strlit("png");
    reveal_strlit("jpg");
    reveal_strlit("jpeg");
    reveal_strlit("gif");
    reveal_strlit("svg");
    reveal_strlit("woff");
    reveal_strlit("woff2");
    reveal_strlit("ttf");
    reveal_strlit("ico");
    reveal_strlit("mp3");
    reveal_strlit("ogg");
    reveal_strlit("wav");
    assert("html"@.len() == 4 && "htm"@.len() == 3 && "css"@.len() == 3 && "js"@.len() == 2
        && "mjs"@.len() == 3 && "json"@.len() == 4 && "png"@.len() == 3 && "jpg"@.len() == 3
        && "jpeg"@.len() == 4 && "gif"@.len() == 3 && "svg"@.len() == 3 && "woff"@.len() == 4
        && "woff2"@.len() == 5 && "ttf"@.len() == 3 && "ico"@.len() == 3 && "mp3"@.len() == 3
        && "ogg"@.len() == 3 && "wav"@.len() == 3);
    lemma_suffixes_differ();
}

/// The suffixes of one length differ.
proof fn lemma_suffixes_differ()
    ensures
        "html"@ != "json"@ && "html"@ != "jpeg"@ && "html"@ != "woff"@ && "json"@ != "jpeg"@
            && "json"@ != "woff"@ && "jpeg"@ != "woff"@,
        "htm"@ != "css"@ && "htm"@ != "mjs"@ && "htm"@ != "png"@ && "htm"@ != "jpg"@ && "htm"@
            != "gif"@ && "htm"@ != "svg"@ && "htm"@ != "ttf"@ && "htm"@ != "ico"@ && "htm"@
            != "mp3"@ && "htm"@ != "ogg"@ && "htm"@ != "wav"@,
        "css"@ != "mjs"@ && "css"@ != "png"@ && "css"@ != "jpg"@ && "css"@ != "gif"@ && "css"@
            != "svg"@ && "css"@ != "ttf"@ && "css"@ != "ico"@ && "css"@ != "mp3"@ && "css"@
            != "ogg"@ && "css"@ != "wav"@,
        "mjs"@ != "png"@ && "mjs"@ != "jpg"@ && "mjs"@ != "gif"@ && "mjs"@ != "svg"@ && "mjs"@
            != "ttf"@ && "mjs"@ != "ico"@ && "mjs"@ != "mp3"@ && "mjs"@ != "ogg"@ && "mjs"@
            != "wav"@,
        "png"@ != "jpg"@ && "png"@ != "gif"@ && "png"@ != "svg"@ && "png"@ != "ttf"@ && "png"@
            != "ico"@ && "png"@ != "mp3"@ && "png"@ != "ogg"@ && "png"@ != "wav"@,
        "jpg"@ != "gif"@ && "jpg"@ != "svg"@ && "jpg"@ != "ttf"@ && "jpg"@ != "ico"@ && "jpg"@
            != "mp3"@ && "jpg"@ != "ogg"@ && "jpg"@ != "wav"@,
        "gif"@ != "svg"@ && "gif"@ != "ttf"@ && "gif"@ != "ico"@ && "gif"@ != "mp3"@ && "gif"@
            != "ogg"@ && "gif"@ != "wav"@,
        "svg"@ != "ttf"@ && "svg"@ != "ico"@ && "svg"@ != "mp3"@ && "svg"@ != "ogg"@ && "svg"@
            != "wav"@,
        "ttf"@ != "ico"@ && "ttf"@ != "mp3"@ && "ttf"@ != "ogg"@ && "ttf"@ != "wav"@,
        "ico"@ != "mp3"@ && "ico"@ != "ogg"@ && "ico"@ != "wav"@,
        "mp3"@ != "ogg"@ && "mp3"@ != "wav"@ && "ogg"@ != "wav"@,
{
    reveal_strlit("html");
    reveal_strlit("htm");
    reveal_strlit("css");
    reveal_strlit("mjs");
    reveal_strlit("json");
    reveal_strlit("png");
    reveal_strlit("jpg");
    reveal_strlit("jpeg");
    reveal_strlit("gif");
    reveal_strlit("svg");
    reveal_strlit("woff");
    reveal_strlit("ttf");
    reveal_strlit("ico");
    reveal_strlit("mp3");
    reveal_strlit("ogg");
    reveal_strlit("wav");
    assert("html"@[0] == 'h' && "json"@[1] == 's' && "jpeg"@[0] == 'j' && "jpeg"@[1] == 'p'
        && "json"@[0] == 'j' && "woff"@[0] == 'w');
    assert("htm"@[0] == 'h' && "css"@[0] == 'c' && "mjs"@[0] == 'm' && "mjs"@[1] == 'j' && "mp3"@[1]
        == 'p' && "mp3"@[0] == 'm');
    assert("png"@[0] == 'p' && "jpg"@[0] == 'j' && "gif"@[0] == 'g' && "svg"@[0] == 's' && "ttf"@[0]
        == 't' && "ico"@[0] == 'i' && "ogg"@[0] == 'o' && "wav"@[0] == 'w');
}

/// A call of a page is taken where its path names a callback: it is told to the
/// page's own resource with the data as they came, and slashes at the end do not
/// count. Any other path is refused.
pub proof fn law_page_call(
    resource: &str,
    path: &str,
    body: &Vec<u8>,
    r: (Option<NuiInMsg>, NuiReply),
    name: Seq<char>,
    rest: &str,
    tail: &str,
    callback: String,
)
    requires
        call_ensures(handle_nui_callback, (resource, path, body), r),
        call_ensures(strip_tails, (rest, tail), callback),
        tail@ == "/"@,
    ensures
        path@ == "/callback/"@ + rest@ && callback@.len() > 0 ==> {
            &&& r.0 matches Some(m)
            &&& m.resource_id@ == resource@
            &&& m.callback_name@ == callback@
            &&& m.data@ == body@
            &&& r.1.status == 200
        },
        path@ == "/callback/"@ + rest@ && callback@.len() == 0 ==> r.0 is None && r.1.status == 400,
        path@.len() < "/callback/"@.len() ==> r.0 is None && r.1.status == 400,
        r.0 is Some ==> exists|s: Seq<char>| path@ == #[trigger] ("/callback/"@ + s),
{
    if path@ == "/callback/"@ + rest@ {
        assert(path@.take("/callback/"@.len() as int) =~= "/callback/"@);
        assert(path@.skip("/callback/"@.len() as int) =~= rest@);
    }
    if r.0 is Some {
        assert(path@ =~= "/callback/"@ + path@.skip("/callback/"@.len() as int));
    }
}

/// A file is read below the cache alone: a path with a part that leads up or
/// stays is refused, and so is an empty one; any other one is read.
pub proof fn law_page_file(
    cache: &str,
    resource: &str,
    path: &str,
    r: NuiFile,
    rel: &str,
    front: String,
    segments: Vec<String>,
)
    requires
        call_ensures(find_nui_file, (cache, resource, path), r),
        call_ensures(strip_front, (path, '/'), front),
        rel@ == front@,
        call_ensures(split, (rel, '/'), segments),
        cache@.len() > 0,
    ensures
        rel@.len() == 0 ==> (r matches NuiFile::Refused(reply) && reply.status == 404),
        rel@.len() > 0 && (exists|i: int|
            0 <= i < segments@.len() && ((#[trigger] segments@[i])@ == ".."@ || segments@[i]@
                == "."@)) ==> (r matches NuiFile::Refused(reply) && reply.status == 403),
        rel@.len() > 0 && (forall|i: int|
            0 <= i < segments@.len() ==> (#[trigger] segments@[i])@ != ".."@ && segments@[i]@
                != "."@) ==> r is Read,
        r matches NuiFile::Read(p) ==> p@.len() >= cache@.len() && p@.take(cache@.len() as int)
            == cache@,
{
    law_path_starts_in_cache(cache@, resource@, path@);
    assert(views(segments@) == parts(rel@, '/'));
    assert(views(segments@).len() == segments@.len());
    if exists|i: int|
        0 <= i < segments@.len() && ((#[trigger] segments@[i])@ == ".."@ || segments@[i]@ == "."@) {
        let i = choose|i: int|
            0 <= i < segments@.len() && ((#[trigger] segments@[i])@ == ".."@ || segments@[i]@
                == "."@);
        assert(dotted(parts(rel@, '/')[i])) by {
            assert(views(segments@)[i] == segments@[i]@);
        }
        assert(wanders(rel@));
    }
    if forall|i: int|
        0 <= i < segments@.len() ==> (#[trigger] segments@[i])@ != ".."@ && segments@[i]@ != "."@ {
        if wanders(rel@) {
            let i = choose|i: int|
                0 <= i < parts(rel@, '/').len() && dotted(#[trigger] parts(rel@, '/')[i]);
            assert(views(segments@)[i] == segments@[i]@);
            assert(segments@[i]@ != ".."@);
        }
    }
}

/// A file that could be read is answered with its bytes and its type, one that
/// could not with a refusal; a request that posts is a call, any other one is for
/// a file.
pub proof fn law_page_answers(
    path: &str,
    rel: &str,
    front: String,
    contents: Option<Vec<u8>>,
    r: NuiReply,
    mime: &'static str,
    method: &str,
    kind: NuiRequest,
)
    requires
        call_ensures(serve_nui_file, (path, contents), r),
        call_ensures(strip_front, (path, '/'), front),
        rel@ == front@,
        call_ensures(mime_type_for, (rel,), mime),
        call_ensures(handle_nui_request, (method,), kind),
    ensures
        contents matches Some(bytes) ==> r.status == 200 && r.body == bytes && r.any_origin
            && r.content_type is Some && r.content_type->0@ == mime@,
        contents is None ==> r.status == 404 && !r.any_origin,
        kind is Callback <==> method@ == "POST"@,
{
}

/// A refusal carries its status and its sentence; a number that is no status
/// gives the internal error. A taken call is answered with an empty object.
pub proof fn law_refusals(status: u16, sentence: &str, r: NuiReply, ok: NuiReply)
    requires
        call_ensures(error_response, (status, sentence), r),
        call_ensures(ok_json_response, (), ok),
    ensures
        100 <= status <= 999 ==> r.status == status && r.body@ == encode_utf8(sentence@)
            && r.content_type is Some && r.content_type->0@ == "text/plain"@ && !r.any_origin,
        status < 100 || status > 999 ==> r.status == 500 && r.body@ == encode_utf8(
            "internal error"@,
        ) && r.content_type is None && !r.any_origin,
        ok.status == 200 && ok.body@ == encode_utf8("{}"@) && ok.any_origin,
        ok.content_type is Some && ok.content_type->0@ == "application/json"@,
{
}

/// At first no page has the focus or the pointer.
pub proof fn law_focus_start(r: NuiFocusState)
    requires
        call_ensures(NuiFocusState::default, (), r),
    ensures
        !r.has_focus && !r.has_cursor,
{
}

} // verus!
