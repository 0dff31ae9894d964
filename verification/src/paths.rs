//! Names of files: stems, extensions and asset paths.

use vstd::prelude::*;

use crate::folds::lemma_take_next;
use crate::names::views;
use crate::text::{
    ends_with, find_last, has_head, has_tail, join, joined, last_index, lemma_last_index_of,
    lemma_parts_char, parts, same, slice_string, split, starts_with, to_chars,
};

verus! {

/// Whether a file name has an extension: a dot that is not its first character.
pub open spec fn has_extension(name: Seq<char>) -> bool {
    name != seq!['.', '.'] && last_index(name, '.') > 0
}

/// What follows the last dot of a file name.
pub open spec fn extension_of(name: Seq<char>) -> Seq<char> {
    name.skip(last_index(name, '.') + 1)
}

/// A file name without its extension.
pub open spec fn stem_of(name: Seq<char>) -> Seq<char> {
    if has_extension(name) {
        name.take(last_index(name, '.'))
    } else {
        name
    }
}

/// A part of a path that leads nowhere: nothing between two slashes, or a dot.
pub open spec fn idle(part: Seq<char>) -> bool {
    part.len() == 0 || part == "."@
}

/// The parts of a path without those at its end that lead nowhere. A dot that
/// is the whole path stays.
pub open spec fn trimmed_parts(segments: Seq<Seq<char>>) -> Seq<Seq<char>>
    decreases segments.len(),
{
    if segments.len() == 0 {
        segments
    } else {
        let s = segments.last();
        if s.len() == 0 || (s == "."@ && segments.len() > 1) {
            trimmed_parts(segments.drop_last())
        } else {
            segments
        }
    }
}

/// The last part of a path that names something; none where the path ends in
/// the root, the directory itself or the one above.
pub open spec fn last_named(segments: Seq<Seq<char>>) -> Option<Seq<char>> {
    let named = trimmed_parts(segments);
    if named.len() == 0 || named.last() == "."@ || named.last() == ".."@ {
        None
    } else {
        Some(named.last())
    }
}

/// The name of the file that a path leads to; empty where it leads to none.
pub open spec fn name_of(path: Seq<char>) -> Seq<char> {
    match last_named(parts(path, '/')) {
        Some(name) => name,
        None => Seq::empty(),
    }
}

proof fn lemma_last_index(s: Seq<char>, c: char)
    ensures
        -1 <= last_index(s, c) < s.len(),
    decreases s.len(),
{
    if s.len() > 0 {
        lemma_last_index(s.drop_last(), c);
    }
}

/// The extension of a file name; empty where it has none.
pub fn extension(name: &str) -> (r: String)
    ensures
        r@ == if has_extension(name@) {
            extension_of(name@)
        } else {
            Seq::<char>::empty()
        },
{
    let x = to_chars(name);
    proof {
        reveal_strlit("..");
        assert(".."@ =~= seq!['.', '.']);
    }
    if same(name, "..") {
        return String::new();
    }
    match find_last(&x, '.') {
        Some(i) => {
            if i > 0 {
                let r = slice_string(&x, i + 1, x.len());
                assert(r@ =~= extension_of(name@));
                r
            } else {
                String::new()
            }
        },
        None => String::new(),
    }
}

/// A file name without its extension.
pub fn file_stem(name: &str) -> (r: String)
    ensures
        r@ == stem_of(name@),
{
    let x = to_chars(name);
    proof {
        reveal_strlit("..");
        assert(".."@ =~= seq!['.', '.']);
        lemma_last_index(name@, '.');
    }
    if same(name, "..") {
        return name.to_string();
    }
    match find_last(&x, '.') {
        Some(i) => {
            if i > 0 {
                let r = slice_string(&x, 0, i);
                assert(r@ =~= stem_of(name@));
                r
            } else {
                name.to_string()
            }
        },
        None => name.to_string(),
    }
}

/// How many parts of a path are left without those at its end that lead nowhere.
fn trimmed_len(segments: &Vec<String>) -> (n: usize)
    ensures
        n <= segments.len(),
        trimmed_parts(views(segments@)) == views(segments@).take(n as int),
{
    let ghost all = views(segments@);
    let mut n: usize = segments.len();
    assert(all.take(n as int) =~= all);
    while n > 0
        invariant
            n <= segments.len(),
            all == views(segments@),
            trimmed_parts(all) == trimmed_parts(all.take(n as int)),
        decreases n,
    {
        let s = segments[n - 1].as_str();
        proof {
            assert(all.take(n as int).last() == s@);
            assert(all.take(n as int).drop_last() =~= all.take(n - 1));
        }
        if s.is_empty() || (same(s, ".") && n > 1) {
            n = n - 1;
        } else {
            return n;
        }
    }
    n
}

/// The last part of a path that names something.
fn find_name(path: &str) -> (r: Option<String>)
    ensures
        match (r, last_named(parts(path@, '/'))) {
            (Some(s), Some(t)) => s@ == t,
            (None, None) => true,
            _ => false,
        },
{
    let segments = split(path, '/');
    let n = trimmed_len(&segments);
    if n == 0 {
        return None;
    }
    let s = segments[n - 1].as_str();
    assert(views(segments@).take(n as int).last() == s@);
    if same(s, ".") || same(s, "..") {
        None
    } else {
        Some(s.to_string())
    }
}

/// The name of the file that a path leads to; empty where it leads to none.
pub fn file_name(path: &str) -> (r: String)
    ensures
        r@ == name_of(path@),
{
    match find_name(path) {
        Some(s) => s,
        None => String::new(),
    }
}

/// A file name is its stem, or its stem, a dot and its extension.
pub proof fn law_stem_and_extension(name: Seq<char>)
    ensures
        has_extension(name) ==> name == stem_of(name).push('.') + extension_of(name),
        !has_extension(name) ==> name == stem_of(name),
{
    lemma_last_index(name, '.');
    if has_extension(name) {
        let i = last_index(name, '.');
        lemma_char_at_last_index(name, '.');
        assert(name =~= name.take(i).push('.') + name.skip(i + 1));
    }
}

proof fn lemma_char_at_last_index(s: Seq<char>, c: char)
    requires
        last_index(s, c) >= 0,
    ensures
        last_index(s, c) < s.len(),
        s[last_index(s, c)] == c,
    decreases s.len(),
{
    if s.len() > 0 && s.last() != c {
        lemma_char_at_last_index(s.drop_last(), c);
    }
}

/// The path `rel` below `dir`; an absolute `rel` stands for itself.
pub open spec fn joined_path(dir: Seq<char>, rel: Seq<char>) -> Seq<char> {
    if has_head(rel, "/"@) || dir.len() == 0 {
        rel
    } else if has_tail(dir, "/"@) {
        dir + rel
    } else {
        dir + "/"@ + rel
    }
}

pub fn join_path(dir: &str, rel: &str) -> (r: String)
    ensures
        r@ == joined_path(dir@, rel@),
{
    if starts_with(rel, "/") || dir.is_empty() {
        rel.to_string()
    } else {
        let mut r = dir.to_string();
        if !ends_with(dir, "/") {
            r.append("/");
        }
        r.append(rel);
        r
    }
}

/// The stem of the last part of a path that names something.
pub open spec fn stem_in(path: Seq<char>) -> Option<Seq<char>> {
    match last_named(parts(path, '/')) {
        Some(name) => Some(stem_of(name)),
        None => None,
    }
}

/// The stem of the last part of a path; all of the path where it has none.
pub open spec fn path_stem_of(path: Seq<char>) -> Seq<char> {
    match stem_in(path) {
        Some(stem) => stem,
        None => path,
    }
}

/// The stem of the last part of a path that names something.
pub fn find_stem(path: &str) -> (r: Option<String>)
    ensures
        match (r, stem_in(path@)) {
            (Some(s), Some(t)) => s@ == t,
            (None, None) => true,
            _ => false,
        },
{
    match find_name(path) {
        Some(s) => Some(file_stem(s.as_str())),
        None => None,
    }
}

/// The stem of the last part of a path; all of the path where it has none.
pub fn path_stem(path: &str) -> (r: String)
    ensures
        r@ == path_stem_of(path@),
{
    match find_stem(path) {
        Some(s) => s,
        None => path.to_string(),
    }
}

/// A path begins at the root.
pub open spec fn rooted(path: Seq<char>) -> bool {
    has_head(path, "/"@)
}

/// The path of some parts without those at its end that lead nowhere; `from_root`
/// tells whether it begins at the root.
pub open spec fn path_text(segments: Seq<Seq<char>>, from_root: bool) -> Seq<char> {
    let left = trimmed_parts(segments);
    if left.len() > 0 {
        joined(left, "/"@)
    } else if from_root {
        "/"@
    } else {
        Seq::empty()
    }
}

/// The directory that holds what a path leads to; none for the root and for the
/// empty path.
pub open spec fn parent_of(path: Seq<char>) -> Option<Seq<char>> {
    let left = trimmed_parts(parts(path, '/'));
    if left.len() == 0 {
        None
    } else {
        Some(path_text(left.drop_last(), rooted(path)))
    }
}

/// The directory that holds what a path leads to; none for the root and for the
/// empty path.
pub fn parent(path: &str) -> (r: Option<String>)
    ensures
        match (r, parent_of(path@)) {
            (Some(s), Some(t)) => s@ == t,
            (None, None) => true,
            _ => false,
        },
{
    let mut segments = split(path, '/');
    let ghost all = views(segments@);
    let n = trimmed_len(&segments);
    if n == 0 {
        return None;
    }
    segments.truncate(n - 1);
    assert(views(segments@) =~= trimmed_parts(all).drop_last());
    Some(text_of_parts(segments, starts_with(path, "/")))
}

fn text_of_parts(segments: Vec<String>, from_root: bool) -> (r: String)
    ensures
        r@ == path_text(views(segments@), from_root),
{
    let mut left = segments;
    let ghost all = views(left@);
    let n = trimmed_len(&left);
    left.truncate(n);
    assert(views(left@) =~= trimmed_parts(all));
    if n > 0 {
        join(&left, "/")
    } else if from_root {
        "/".to_string()
    } else {
        String::new()
    }
}

/// All of a path up to the name of its file.
pub open spec fn folder_of(path: Seq<char>) -> Seq<char> {
    let left = trimmed_parts(parts(path, '/'));
    if left.len() > 1 {
        joined(left.drop_last(), "/"@) + "/"@
    } else {
        Seq::empty()
    }
}

fn folder(path: &str) -> (r: String)
    ensures
        r@ == folder_of(path@),
{
    let mut segments = split(path, '/');
    let ghost all = views(segments@);
    let n = trimmed_len(&segments);
    if n < 2 {
        return String::new();
    }
    segments.truncate(n - 1);
    assert(views(segments@) =~= trimmed_parts(all).drop_last());
    let mut r = join(&segments, "/");
    r.append("/");
    r
}

/// The file beside a file, of the same stem and with another extension; a path
/// without the name of a file stays as it is.
pub open spec fn sibling_of(path: Seq<char>, ext: Seq<char>) -> Seq<char> {
    match stem_in(path) {
        Some(stem) => folder_of(path) + stem + "."@ + ext,
        None => path,
    }
}

/// The file beside a file, of the same stem and with another extension; a path
/// without the name of a file stays as it is.
pub fn sibling(path: &str, ext: &str) -> (r: String)
    ensures
        r@ == sibling_of(path@, ext@),
{
    match find_stem(path) {
        Some(stem) => {
            let mut r = folder(path);
            r.append(stem.as_str());
            r.append(".");
            r.append(ext);
            r
        },
        None => path.to_string(),
    }
}

/// The parts of a path behind what it begins with: the root, or a dot.
pub open spec fn body_of(path: Seq<char>) -> Seq<Seq<char>> {
    let all = parts(path, '/');
    if rooted(path) || all[0] == "."@ {
        all.drop_first()
    } else {
        all
    }
}

/// What a path begins with: the root, a dot, or nothing of these.
pub open spec fn start_of(path: Seq<char>) -> Seq<Seq<char>> {
    if rooted(path) {
        seq!["/"@]
    } else if parts(path, '/')[0] == "."@ {
        seq!["."@]
    } else {
        Seq::empty()
    }
}

/// The parts that lead somewhere, in order.
pub open spec fn leading(segments: Seq<Seq<char>>) -> Seq<Seq<char>>
    decreases segments.len(),
{
    if segments.len() == 0 {
        segments
    } else if idle(segments.last()) {
        leading(segments.drop_last())
    } else {
        leading(segments.drop_last()).push(segments.last())
    }
}

/// The steps of a path: what it begins with, and each part that leads somewhere.
pub open spec fn steps(path: Seq<char>) -> Seq<Seq<char>> {
    start_of(path) + leading(body_of(path))
}

/// The parts that are left once `n` of those that lead somewhere are gone.
pub open spec fn behind(segments: Seq<Seq<char>>, n: int) -> Seq<Seq<char>>
    decreases segments.len(),
{
    if segments.len() == 0 {
        segments
    } else if idle(segments[0]) {
        behind(segments.drop_first(), n)
    } else if n <= 0 {
        segments
    } else {
        behind(segments.drop_first(), n - 1)
    }
}

/// Parts without those at the end that lead nowhere.
pub open spec fn without_idle_end(segments: Seq<Seq<char>>) -> Seq<Seq<char>>
    decreases segments.len(),
{
    if segments.len() > 0 && idle(segments.last()) {
        without_idle_end(segments.drop_last())
    } else {
        segments
    }
}

/// The steps of `root` are the first steps of `path`.
pub open spec fn leads_through(path: Seq<char>, root: Seq<char>) -> bool {
    steps(root).is_prefix_of(steps(path))
}

/// What is left of a path behind the steps of `root`; none where it does not
/// begin with them.
pub open spec fn path_behind(path: Seq<char>, root: Seq<char>) -> Option<Seq<char>> {
    let n = steps(root).len();
    if !leads_through(path, root) {
        None
    } else if n == 0 {
        Some(path_text(parts(path, '/'), rooted(path)))
    } else {
        Some(
            joined(
                without_idle_end(behind(body_of(path), n - start_of(path).len())),
                "/"@,
            ),
        )
    }
}

proof fn lemma_parts_joined(a: Seq<char>, b: Seq<char>)
    ensures
        parts(a, '/').len() > 0,
        parts(b, '/').len() > 0,
        parts(a + b, '/') == parts(a, '/').drop_last().push(
            parts(a, '/').last() + parts(b, '/')[0],
        ) + parts(b, '/').drop_first(),
    decreases b.len(),
{
    lemma_parts_some(a);
    lemma_parts_some(b);
    let x = parts(a, '/');
    if b.len() == 0 {
        assert(a + b =~= a);
        assert(x.last() + b =~= x.last());
        assert(x =~= x.drop_last().push(x.last() + b) + parts(b, '/').drop_first());
    } else {
        let front = b.drop_last();
        lemma_parts_joined(a, front);
        assert((a + b).drop_last() =~= a + front);
        assert((a + b).last() == b.last());
        let y = parts(front, '/');
        let both = parts(a + front, '/');
        if b.last() == '/' {
            assert(both.push(Seq::empty()) =~= x.drop_last().push(x.last() + y[0]) + y.push(
                Seq::empty(),
            ).drop_first());
        } else {
            let longer = y.last().push(b.last());
            assert(parts(b, '/') == y.update(y.len() - 1, longer));
            if y.len() == 1 {
                assert(both.last() == x.last() + y[0]);
                assert((x.last() + y[0]).push(b.last()) =~= x.last() + longer);
            } else {
                assert(both.last() == y.last());
            }
            assert(both.update(both.len() - 1, both.last().push(b.last())) =~= x.drop_last().push(
                x.last() + parts(b, '/')[0],
            ) + parts(b, '/').drop_first());
        }
    }
}

proof fn lemma_parts_some(s: Seq<char>)
    ensures
        parts(s, '/').len() > 0,
        s.len() > 0 ==> (parts(s, '/')[0].len() == 0 <==> s[0] == '/'),
        s.len() > 0 && s[0] == '/' ==> parts(s, '/').len() > 1,
    decreases s.len(),
{
    if s.len() > 0 {
        let front = s.drop_last();
        lemma_parts_some(front);
        if s.len() == 1 {
            assert(front =~= Seq::<char>::empty());
            assert(parts(front, '/') =~= seq![front]);
            assert(s[0] == s.last());
        } else {
            assert(front[0] == s[0]);
        }
    }
}

proof fn lemma_leading_joined(a: Seq<Seq<char>>, b: Seq<Seq<char>>)
    ensures
        leading(a + b) == leading(a) + leading(b),
    decreases b.len(),
{
    if b.len() == 0 {
        assert(a + b =~= a);
        assert(leading(a) + leading(b) =~= leading(a));
    } else {
        lemma_leading_joined(a, b.drop_last());
        assert((a + b).drop_last() =~= a + b.drop_last());
        assert(leading(a) + leading(b.drop_last()).push(b.last()) =~= (leading(a) + leading(
            b.drop_last(),
        )).push(b.last()));
    }
}

/// A path whose last part is followed by more letters does not lead through
/// that part.
pub proof fn lemma_steps_extended(root: Seq<char>, rest: Seq<char>)
    requires
        !idle(parts(root, '/').last()),
        rest.len() > 0,
        rest[0] != '/',
    ensures
        !leads_through(root + rest, root),
{
    reveal_strlit("/");
    reveal_strlit(".");
    let path = root + rest;
    let a = parts(root, '/');
    let b = parts(rest, '/');
    lemma_parts_joined(root, rest);
    lemma_parts_some(rest);
    lemma_parts_some(root);
    assert(root.len() > 0);
    assert(root.take(1)[0] == root[0]);
    assert(path.take(1)[0] == root[0]);
    assert(rooted(path) == rooted(root)) by {
        assert(root[0] == '/' ==> root.take(1) =~= "/"@ && path.take(1) =~= "/"@);
    }
    let grown = a.last() + b[0];
    assert(grown.len() > 1);
    assert(start_of(path) == start_of(root)) by {
        if a.len() == 1 {
            assert(parts(path, '/')[0] == grown);
        } else {
            assert(parts(path, '/')[0] == a[0]);
        }
    }
    let x = body_of(root);
    let y = body_of(path);
    if rooted(root) {
        assert(a.len() > 1);
    }
    assert(x.last() == a.last());
    let more = parts(rest, '/').drop_first();
    assert(y =~= x.drop_last().push(grown) + more);
    lemma_leading_joined(x.drop_last().push(grown), more);
    assert(x.drop_last().push(grown).drop_last() =~= x.drop_last());
    let n = leading(x.drop_last()).len();
    assert(leading(x)[n as int] == a.last());
    assert(leading(y)[n as int] == grown);
    let k = start_of(root).len() + n;
    assert(steps(root)[k as int] == a.last());
    assert(steps(path)[k as int] == grown);
    if leads_through(path, root) {
        assert(steps(path).subrange(0, steps(root).len() as int)[k as int] == grown);
    }
}

/// A path behind another and a slash leads through it.
pub proof fn lemma_steps_below(root: Seq<char>, rest: Seq<char>)
    ensures
        leads_through(root + "/"@ + rest, root),
{
    if root.len() == 0 {
        reveal_strlit(".");
        reveal_strlit("/");
        reveal_with_fuel(leading, 2);
        assert(steps(root) =~= Seq::<Seq<char>>::empty());
        assert(steps(root + "/"@ + rest).subrange(0, 0) =~= steps(root));
    } else {
        lemma_steps_below_some(root, rest);
    }
}

proof fn lemma_steps_below_some(root: Seq<char>, rest: Seq<char>)
    requires
        root.len() > 0,
    ensures
        leads_through(root + "/"@ + rest, root),
{
    reveal_strlit("/");
    let path = root + "/"@ + rest;
    let slash = "/"@ + rest;
    assert(path =~= root + slash);
    let a = parts(root, '/');
    let b = parts(rest, '/');
    lemma_parts_some(root);
    lemma_parts_joined(root, slash);
    lemma_parts_joined("/"@, rest);
    reveal_with_fuel(parts, 2);
    assert("/"@.drop_last() =~= Seq::<char>::empty());
    assert(parts("/"@, '/') =~= seq![Seq::<char>::empty(), Seq::<char>::empty()]);
    assert(Seq::<char>::empty() + b[0] =~= b[0]);
    assert(parts(slash, '/') =~= seq![Seq::<char>::empty()] + b);
    assert(a.last() + Seq::<char>::empty() =~= a.last());
    assert(parts(path, '/') =~= a + b);
    assert(path.take(1) =~= root.take(1));
    assert(rooted(path) == rooted(root));
    assert(start_of(path) == start_of(root));
    assert(body_of(path) =~= body_of(root) + b);
    lemma_leading_joined(body_of(root), b);
    assert(steps(path) =~= steps(root) + leading(b));
    assert(steps(path).subrange(0, steps(root).len() as int) =~= steps(root));
}

proof fn lemma_parts_of_name(name: Seq<char>)
    requires
        forall|i: int| 0 <= i < name.len() ==> name[i] != '/',
    ensures
        parts(name, '/') == seq![name],
    decreases name.len(),
{
    if name.len() > 0 {
        let front = name.drop_last();
        assert(forall|i: int| 0 <= i < front.len() ==> front[i] == name[i]);
        lemma_parts_of_name(front);
        assert(front.push(name.last()) =~= name);
    }
    assert(parts(name, '/') =~= seq![name]);
}

/// A name is a path of one step.
pub proof fn lemma_steps_of_name(name: Seq<char>)
    requires
        forall|i: int| 0 <= i < name.len() ==> name[i] != '/',
        !idle(name),
    ensures
        steps(name) == seq![name],
{
    lemma_parts_of_name(name);
    reveal_strlit("/");
    assert(!rooted(name)) by {
        assert(name.take(1)[0] == name[0]);
    }
    assert(seq![name].drop_last() =~= Seq::<Seq<char>>::empty());
    assert(leading(Seq::<Seq<char>>::empty()) =~= Seq::<Seq<char>>::empty());
    assert(leading(seq![name]) =~= seq![name]);
    assert(steps(name) =~= seq![name]);
}

/// How many parts stand before the body of a path.
fn start_len(segments: &Vec<String>, from_root: bool) -> (n: usize)
    requires
        segments.len() > 0,
    ensures
        n == if from_root || views(segments@)[0] == "."@ {
            1int
        } else {
            0
        },
{
    assert(views(segments@)[0] == segments@[0]@);
    if from_root || same(segments[0].as_str(), ".") {
        1
    } else {
        0
    }
}

/// The steps of a path.
pub fn path_steps(path: &str) -> (r: Vec<String>)
    ensures
        views(r@) == steps(path@),
{
    let segments = split(path, '/');
    let ghost all = views(segments@);
    let from_root = starts_with(path, "/");
    let first = start_len(&segments, from_root);
    let mut r: Vec<String> = Vec::new();
    if from_root {
        r.push("/".to_string());
    } else if first == 1 {
        r.push(".".to_string());
    }
    assert(views(r@) =~= start_of(path@));
    let ghost body = body_of(path@);
    assert(body =~= all.skip(first as int));
    let mut i: usize = first;
    assert(body.take(0) =~= Seq::<Seq<char>>::empty());
    assert(start_of(path@) + Seq::<Seq<char>>::empty() =~= start_of(path@));
    while i < segments.len()
        invariant
            first <= i <= segments.len(),
            all == views(segments@),
            body == all.skip(first as int),
            views(r@) == start_of(path@) + leading(body.take(i - first)),
        decreases segments.len() - i,
    {
        let ghost before = r@;
        let s = segments[i].as_str();
        proof {
            let k = i - first;
            lemma_take_next(body, k);
            assert(body.take(k + 1).last() == s@);
        }
        if !s.is_empty() && !same(s, ".") {
            r.push(s.to_string());
            assert(views(r@) =~= views(before).push(s@));
            assert(views(r@) =~= start_of(path@) + leading(body.take(i + 1 - first)));
        }
        i = i + 1;
    }
    assert(body.take(i - first) =~= body);
    r
}

/// Whether the steps of `root` are the first steps of `path`.
pub fn goes_through(path: &str, root: &str) -> (r: bool)
    ensures
        r == leads_through(path@, root@),
{
    let a = path_steps(path);
    let b = path_steps(root);
    if b.len() > a.len() {
        assert(views(b@).len() > views(a@).len());
        return false;
    }
    let mut i: usize = 0;
    while i < b.len()
        invariant
            i <= b.len() <= a.len(),
            views(a@) == steps(path@),
            views(b@) == steps(root@),
            forall|j: int| 0 <= j < i ==> views(a@)[j] == #[trigger] views(b@)[j],
        decreases b.len() - i,
    {
        assert(views(a@)[i as int] == a@[i as int]@ && views(b@)[i as int] == b@[i as int]@);
        if !same(a[i].as_str(), b[i].as_str()) {
            return false;
        }
        i = i + 1;
    }
    assert(views(b@) =~= views(a@).subrange(0, views(b@).len() as int));
    true
}

/// What is left of a path behind the steps of `root`; none where it does not
/// begin with them.
pub fn strip_root(path: &str, root: &str) -> (r: Option<String>)
    ensures
        match (r, path_behind(path@, root@)) {
            (Some(s), Some(t)) => s@ == t,
            (None, None) => true,
            _ => false,
        },
{
    if !goes_through(path, root) {
        return None;
    }
    let from_root = starts_with(path, "/");
    let segments = split(path, '/');
    let ghost all = views(segments@);
    let gone = path_steps(root).len();
    assert(gone == steps(root@).len());
    if gone == 0 {
        return Some(text_of_parts(segments, from_root));
    }
    let first = start_len(&segments, from_root);
    let ghost body = body_of(path@);
    assert(body =~= all.skip(first as int));
    assert(start_of(path@).len() == first);
    let mut n: usize = gone - first;
    let mut i: usize = first;
    assert(body.skip(0) =~= body);
    let ghost target = behind(body, gone - first);
    while i < segments.len()
        invariant_except_break
            target == behind(body.skip(i - first), n as int),
        invariant
            first <= i <= segments.len(),
            all == views(segments@),
            body == all.skip(first as int),
        ensures
            target == body.skip(i - first),
        decreases segments.len() - i,
    {
        let s = segments[i].as_str();
        proof {
            let rest = body.skip(i - first);
            assert(rest[0] == s@);
            assert(rest.drop_first() =~= body.skip(i + 1 - first));
        }
        if s.is_empty() || same(s, ".") {
            i = i + 1;
        } else if n == 0 {
            break ;
        } else {
            n = n - 1;
            i = i + 1;
        }
    }
    let mut left: Vec<String> = Vec::new();
    let mut k: usize = i;
    while k < segments.len()
        invariant
            first <= i <= k <= segments.len(),
            all == views(segments@),
            views(left@) == all.subrange(i as int, k as int),
        decreases segments.len() - k,
    {
        let ghost before = left@;
        left.push(segments[k].as_str().to_string());
        k = k + 1;
        assert(views(left@) =~= views(before).push(all[k - 1]));
        assert(views(left@) =~= all.subrange(i as int, k as int));
    }
    assert(views(left@) =~= target);
    let mut m: usize = left.len();
    assert(target.take(m as int) =~= target);
    while m > 0
        invariant
            m <= left.len(),
            views(left@) == target,
            without_idle_end(target) == without_idle_end(target.take(m as int)),
        ensures
            without_idle_end(target) == target.take(m as int),
        decreases m,
    {
        let s = left[m - 1].as_str();
        proof {
            assert(target.take(m as int).last() == s@);
            assert(target.take(m as int).drop_last() =~= target.take(m - 1));
        }
        if s.is_empty() || same(s, ".") {
            m = m - 1;
        } else {
            break ;
        }
    }
    left.truncate(m);
    assert(views(left@) =~= without_idle_end(target));
    Some(join(&left, "/"))
}

/// The parts of two paths with a slash between them are the parts of both.
pub proof fn lemma_parts_slash(a: Seq<char>, b: Seq<char>)
    ensures
        parts(a + "/"@ + b, '/') == parts(a, '/') + parts(b, '/'),
        parts(a, '/').len() > 0,
        parts(b, '/').len() > 0,
{
    reveal_strlit("/");
    let slash = "/"@ + b;
    let x = parts(a, '/');
    let y = parts(b, '/');
    assert(a + "/"@ + b =~= a + slash);
    lemma_parts_joined(a, slash);
    lemma_parts_joined("/"@, b);
    reveal_with_fuel(parts, 2);
    assert("/"@.drop_last() =~= Seq::<char>::empty());
    assert(parts("/"@, '/') =~= seq![Seq::<char>::empty(), Seq::<char>::empty()]);
    assert(Seq::<char>::empty() + y[0] =~= y[0]);
    assert(parts(slash, '/') =~= seq![Seq::<char>::empty()] + y);
    assert(x.last() + Seq::<char>::empty() =~= x.last());
    assert(parts(a + slash, '/') =~= x + y);
}

/// A text that names a file: no slash, and neither empty nor a dot or two.
pub open spec fn plain_name(name: Seq<char>) -> bool {
    &&& name.len() > 0
    &&& name != "."@
    &&& name != ".."@
    &&& forall|i: int| 0 <= i < name.len() ==> name[i] != '/'
}

/// `path` leads to the file `name`, alone or below a directory.
pub open spec fn leads_to(path: Seq<char>, name: Seq<char>) -> bool {
    path == name || exists|dir: Seq<char>| path == #[trigger] (dir + "/"@ + name)
}

/// The name that a path leads to is the last part that names something.
pub proof fn lemma_leads_to(path: Seq<char>, name: Seq<char>)
    requires
        plain_name(name),
        leads_to(path, name),
    ensures
        last_named(parts(path, '/')) == Some(name),
        trimmed_parts(parts(path, '/')) == parts(path, '/'),
{
    lemma_parts_of_name(name);
    if path != name {
        let dir = choose|dir: Seq<char>| path == #[trigger] (dir + "/"@ + name);
        lemma_parts_slash(dir, name);
        assert(parts(path, '/').last() == name);
    }
}

/// The last dot of a name parts its stem from its extension.
proof fn lemma_last_dot(stem: Seq<char>, ext: Seq<char>)
    requires
        forall|i: int| 0 <= i < ext.len() ==> ext[i] != '.',
    ensures
        last_index(stem + seq!['.'] + ext, '.') == stem.len(),
{
    let name = stem + seq!['.'] + ext;
    lemma_last_index_of(name, '.');
    let i = last_index(name, '.');
    if i < stem.len() {
        assert(name[stem.len() as int] == '.');
        assert(false);
    }
    if i > stem.len() {
        assert(name[i] == ext[i - stem.len() - 1]);
        assert(false);
    }
}

/// The extension of a name is what follows its last dot, and the stem what comes
/// before it; a name without a dot, or with one in front alone, is its stem.
pub proof fn law_extension(
    name: &str,
    stem: Seq<char>,
    ext: Seq<char>,
    got: String,
    left: String,
)
    requires
        call_ensures(extension, (name,), got),
        call_ensures(file_stem, (name,), left),
        forall|i: int| 0 <= i < ext.len() ==> ext[i] != '.',
    ensures
        name@ == stem + seq!['.'] + ext && stem.len() > 0 && name@ != ".."@ ==> got@ == ext && left@
            == stem,
        name@ == seq!['.'] + ext || name@ == ext ==> got@.len() == 0 && left@ == name@,
{
    reveal_strlit("..");
    if name@ == stem + seq!['.'] + ext && stem.len() > 0 && name@ != ".."@ {
        lemma_last_dot(stem, ext);
        assert(seq!['.', '.'] =~= ".."@);
        assert(name@.skip(stem.len() as int + 1) =~= ext);
        assert(name@.take(stem.len() as int) =~= stem);
    }
    if name@ == seq!['.'] + ext {
        lemma_last_dot(Seq::empty(), ext);
        assert(Seq::<char>::empty() + seq!['.'] + ext =~= name@);
    }
    if name@ == ext {
        lemma_last_index_of(ext, '.');
    }
}

/// The name of the file that a path leads to is the last one of the path, and its
/// stem that of the name.
pub proof fn law_file_name(
    path: &str,
    name: &str,
    got: String,
    stem: String,
    found: Option<String>,
    whole: String,
)
    requires
        call_ensures(file_name, (path,), got),
        call_ensures(file_stem, (name,), stem),
        call_ensures(find_stem, (path,), found),
        call_ensures(path_stem, (path,), whole),
        plain_name(name@),
        leads_to(path@, name@),
    ensures
        got@ == name@,
        found is Some && found->0@ == stem@,
        whole@ == stem@,
{
    lemma_leads_to(path@, name@);
}

/// The empty path, a dot and two dots name no file and have no stem.
pub proof fn law_no_file_name(path: &str, got: String, found: Option<String>, whole: String)
    requires
        call_ensures(file_name, (path,), got),
        call_ensures(find_stem, (path,), found),
        call_ensures(path_stem, (path,), whole),
        path@.len() == 0 || path@ == ".."@ || path@ == "."@,
    ensures
        got@.len() == 0,
        found is None,
        whole@ == path@,
{
    reveal_strlit(".");
    reveal_strlit("..");
    reveal_with_fuel(trimmed_parts, 2);
    lemma_parts_of_name(path@);
    assert(seq![path@].drop_last() =~= Seq::<Seq<char>>::empty());
}

/// The directory of a path below another is that one, and a sibling stands in it;
/// `dir` is a path that does not end in a part that leads nowhere.
pub proof fn law_parent_and_sibling(
    path: &str,
    dir: Seq<char>,
    name: &str,
    ext: &str,
    stem: String,
    up: Option<String>,
    beside: String,
)
    requires
        call_ensures(parent, (path,), up),
        call_ensures(sibling, (path, ext), beside),
        call_ensures(file_stem, (name,), stem),
        plain_name(name@),
        path@ == dir + "/"@ + name@,
        !idle(parts(dir, '/').last()),
    ensures
        up is Some && up->0@ == dir,
        beside@ == dir + "/"@ + stem@ + "."@ + ext@,
{
    reveal_strlit("/");
    assert(leads_to(path@, name@));
    lemma_leads_to(path@, name@);
    lemma_parts_slash(dir, name@);
    lemma_parts_of_name(name@);
    lemma_parts_char(dir, '/');
    assert("/"@ =~= seq!['/']);
    let all = parts(path@, '/');
    assert(all.drop_last() =~= parts(dir, '/'));
    assert(trimmed_parts(parts(dir, '/')) == parts(dir, '/'));
    assert(joined(parts(dir, '/'), "/"@) == dir);
}

/// A path below a directory: the two with one slash between them, and a path from
/// the root as it is.
pub proof fn law_join_path(dir: &str, rel: &str, r: String)
    requires
        call_ensures(join_path, (dir, rel), r),
    ensures
        rel@.len() > 0 && rel@[0] == '/' ==> r@ == rel@,
        dir@.len() == 0 ==> r@ == rel@,
        dir@.len() > 0 && dir@.last() != '/' && (rel@.len() == 0 || rel@[0] != '/') ==> r@ == dir@
            + seq!['/'] + rel@,
        dir@.len() > 0 && dir@.last() == '/' && (rel@.len() == 0 || rel@[0] != '/') ==> r@ == dir@
            + rel@,
{
    reveal_strlit("/");
    assert("/"@ =~= seq!['/']);
    if rel@.len() > 0 {
        assert(rel@.take(1)[0] == rel@[0]);
        if rel@[0] == '/' {
            assert(rel@.take(1) =~= "/"@);
        }
    }
    if dir@.len() > 0 {
        assert(dir@.skip(dir@.len() - 1)[0] == dir@.last());
        if dir@.last() == '/' {
            assert(dir@.skip(dir@.len() - 1) =~= "/"@);
        }
    }
}

proof fn lemma_behind_parts(a: Seq<Seq<char>>, b: Seq<Seq<char>>)
    requires
        b.len() > 0,
        !idle(b[0]),
    ensures
        behind(a + b, leading(a).len() as int) == b,
    decreases a.len(),
{
    if a.len() == 0 {
        assert(a + b =~= b);
    } else {
        let rest = a.drop_first();
        lemma_behind_parts(rest, b);
        lemma_leading_joined(seq![a[0]], rest);
        assert(seq![a[0]] + rest =~= a);
        assert((a + b).drop_first() =~= rest + b);
        assert(seq![a[0]].drop_last() =~= Seq::<Seq<char>>::empty());
        reveal_with_fuel(leading, 2);
        if idle(a[0]) {
            assert(leading(seq![a[0]]) =~= Seq::<Seq<char>>::empty());
            assert(leading(a) =~= leading(rest));
        } else {
            assert(leading(seq![a[0]]) =~= seq![a[0]]);
            assert(leading(a).len() == leading(rest).len() + 1);
        }
    }
}

/// A path below a root leads through it, and behind the root the rest is left;
/// letters behind the root's name lead elsewhere.
pub proof fn law_strip_root(
    path: &str,
    root: &str,
    rest: Seq<char>,
    through: bool,
    r: Option<String>,
)
    requires
        call_ensures(goes_through, (path, root), through),
        call_ensures(strip_root, (path, root), r),
        root@.len() > 0,
        !idle(parts(root@, '/').last()),
    ensures
        r is Some <==> through,
        path@ == root@ + "/"@ + rest ==> through,
        path@ == root@ + "/"@ + rest && rest.len() > 0 && !idle(parts(rest, '/')[0]) && !idle(
            parts(rest, '/').last(),
        ) ==> r is Some && r->0@ == rest,
        path@ == root@ + rest && rest.len() > 0 && rest[0] != '/' ==> !through,
{
    if path@ == root@ + rest && rest.len() > 0 && rest[0] != '/' {
        lemma_steps_extended(root@, rest);
    }
    if path@ == root@ + "/"@ + rest {
        lemma_steps_below(root@, rest);
        if rest.len() > 0 && !idle(parts(rest, '/')[0]) && !idle(parts(rest, '/').last()) {
            lemma_rest_behind(path@, root@, rest);
        }
    }
}

proof fn lemma_rest_behind(path: Seq<char>, root: Seq<char>, rest: Seq<char>)
    requires
        path == root + "/"@ + rest,
        root.len() > 0,
        !idle(parts(root, '/').last()),
        rest.len() > 0,
        !idle(parts(rest, '/')[0]),
        !idle(parts(rest, '/').last()),
    ensures
        path_behind(path, root) == Some(rest),
{
    reveal_strlit("/");
    reveal_strlit(".");
    let a = parts(root, '/');
    let b = parts(rest, '/');
    lemma_parts_slash(root, rest);
    lemma_steps_below(root, rest);
    lemma_parts_char(rest, '/');
    assert("/"@ =~= seq!['/']);
    assert(path.take(1) =~= root.take(1));
    assert(rooted(path) == rooted(root));
    assert(start_of(path) == start_of(root));
    lemma_parts_some(root);
    assert(body_of(path) =~= body_of(root) + b);
    lemma_behind_parts(body_of(root), b);
    assert(without_idle_end(b) == b);
    let n = steps(root).len();
    assert(n == start_of(root).len() + leading(body_of(root)).len());
    if rooted(root) || a[0] == "."@ {
        assert(n > 0);
    } else {
        assert(body_of(root) == a);
        assert(leading(a).last() == a.last());
        assert(n > 0);
    }
    assert(joined(b, "/"@) == rest);
}

/// A name is one step, and a path leads to a file below it in one step more.
pub proof fn law_path_steps(
    dir: &str,
    path: &str,
    name: &str,
    of_dir: Vec<String>,
    of_path: Vec<String>,
    of_name: Vec<String>,
)
    requires
        call_ensures(path_steps, (dir,), of_dir),
        call_ensures(path_steps, (path,), of_path),
        call_ensures(path_steps, (name,), of_name),
        plain_name(name@),
        dir@.len() > 0,
        path@ == dir@ + "/"@ + name@,
    ensures
        views(of_name@) == seq![name@],
        views(of_path@) == views(of_dir@).push(name@),
{
    reveal_strlit("/");
    lemma_steps_of_name(name@);
    lemma_parts_slash(dir@, name@);
    lemma_parts_of_name(name@);
    lemma_parts_some(dir@);
    assert(path@.take(1) =~= dir@.take(1));
    assert(rooted(path@) == rooted(dir@));
    assert(start_of(path@) == start_of(dir@));
    assert(body_of(path@) =~= body_of(dir@) + seq![name@]);
    lemma_leading_joined(body_of(dir@), seq![name@]);
    assert(seq![name@].drop_last() =~= Seq::<Seq<char>>::empty());
    reveal_with_fuel(leading, 2);
    assert(leading(seq![name@]) =~= seq![name@]);
    assert(steps(path@) =~= steps(dir@).push(name@));
}

} // verus!
