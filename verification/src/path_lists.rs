//! Lists of paths in which each path stands once, however it is written.

use vstd::prelude::*;

use crate::names::{lemma_views_take, views};
use crate::paths::{path_steps, steps};
use crate::text::same;

verus! {

/// Two paths take the same steps.
pub open spec fn same_path(a: Seq<char>, b: Seq<char>) -> bool {
    steps(a) == steps(b)
}

/// A path of the list takes the same steps as `path`.
pub open spec fn has_path(paths: Seq<Seq<char>>, path: Seq<char>) -> bool {
    exists|i: int| 0 <= i < paths.len() && same_path(#[trigger] paths[i], path)
}

/// The list with `path` at its end, unless it holds it already.
pub open spec fn with_path(paths: Seq<Seq<char>>, path: Seq<char>) -> Seq<Seq<char>> {
    if has_path(paths, path) {
        paths
    } else {
        paths.push(path)
    }
}

/// The list with each path of `more`.
pub open spec fn with_paths(paths: Seq<Seq<char>>, more: Seq<Seq<char>>) -> Seq<Seq<char>>
    decreases more.len(),
{
    if more.len() == 0 {
        paths
    } else {
        with_path(with_paths(paths, more.drop_last()), more.last())
    }
}

/// The paths of `a` that `b` does not hold, in the order of `a`.
pub open spec fn paths_beyond(a: Seq<Seq<char>>, b: Seq<Seq<char>>) -> Seq<Seq<char>>
    decreases a.len(),
{
    if a.len() == 0 {
        a
    } else if has_path(b, a.last()) {
        paths_beyond(a.drop_last(), b)
    } else {
        paths_beyond(a.drop_last(), b).push(a.last())
    }
}

proof fn lemma_push_has_path(paths: Seq<Seq<char>>, last: Seq<char>, path: Seq<char>)
    ensures
        has_path(paths.push(last), path) <==> has_path(paths, path) || same_path(last, path),
{
    let p = paths.push(last);
    assert(p[paths.len() as int] == last);
    if has_path(paths, path) {
        let i = choose|i: int| 0 <= i < paths.len() && same_path(#[trigger] paths[i], path);
        assert(p[i] == paths[i]);
    }
    if has_path(p, path) {
        let i = choose|i: int| 0 <= i < p.len() && same_path(#[trigger] p[i], path);
        if i < paths.len() {
            assert(paths[i] == p[i]);
        }
    }
}

proof fn lemma_has_same_path(paths: Seq<Seq<char>>, a: Seq<char>, b: Seq<char>)
    requires
        same_path(a, b),
        has_path(paths, a),
    ensures
        has_path(paths, b),
{
    let i = choose|i: int| 0 <= i < paths.len() && same_path(#[trigger] paths[i], a);
    assert(same_path(paths[i], b));
}

/// A merge holds exactly the paths of both lists.
pub proof fn lemma_with_paths(paths: Seq<Seq<char>>, more: Seq<Seq<char>>, path: Seq<char>)
    ensures
        has_path(with_paths(paths, more), path) <==> has_path(paths, path) || has_path(more, path),
    decreases more.len(),
{
    if more.len() > 0 {
        let front = more.drop_last();
        let last = more.last();
        let merged = with_paths(paths, front);
        lemma_with_paths(paths, front, path);
        assert(more =~= front.push(last));
        lemma_push_has_path(front, last, path);
        lemma_push_has_path(merged, last, path);
        if has_path(merged, last) && same_path(last, path) {
            lemma_has_same_path(merged, last, path);
        }
    }
}

/// A difference holds exactly the paths of the first list that the second lacks.
pub proof fn lemma_paths_beyond(a: Seq<Seq<char>>, b: Seq<Seq<char>>, path: Seq<char>)
    ensures
        has_path(paths_beyond(a, b), path) <==> has_path(a, path) && !has_path(b, path),
    decreases a.len(),
{
    if a.len() > 0 {
        let front = a.drop_last();
        let last = a.last();
        lemma_paths_beyond(front, b, path);
        assert(a =~= front.push(last));
        lemma_push_has_path(front, last, path);
        lemma_push_has_path(paths_beyond(front, b), last, path);
        if same_path(last, path) {
            if has_path(b, last) {
                lemma_has_same_path(b, last, path);
            }
            if has_path(b, path) {
                lemma_has_same_path(b, path, last);
            }
        }
    }
}

/// Whether two paths take the same steps.
pub fn is_same_path(a: &str, b: &str) -> (r: bool)
    ensures
        r == same_path(a@, b@),
{
    let x = path_steps(a);
    let y = path_steps(b);
    if x.len() != y.len() {
        assert(views(x@).len() != views(y@).len());
        return false;
    }
    let mut i: usize = 0;
    while i < x.len()
        invariant
            i <= x.len() == y.len(),
            views(x@) == steps(a@),
            views(y@) == steps(b@),
            forall|j: int| 0 <= j < i ==> views(x@)[j] == #[trigger] views(y@)[j],
        decreases x.len() - i,
    {
        assert(views(x@)[i as int] == x@[i as int]@ && views(y@)[i as int] == y@[i as int]@);
        if !same(x[i].as_str(), y[i].as_str()) {
            return false;
        }
        i = i + 1;
    }
    assert(views(x@) =~= views(y@));
    true
}

fn holds_path(paths: &Vec<String>, path: &str) -> (r: bool)
    ensures
        r == has_path(views(paths@), path@),
{
    let ghost all = views(paths@);
    let mut i: usize = 0;
    while i < paths.len()
        invariant
            i <= paths.len(),
            all == views(paths@),
            forall|j: int| 0 <= j < i ==> !same_path(#[trigger] all[j], path@),
        decreases paths.len() - i,
    {
        assert(all[i as int] == paths@[i as int]@);
        if is_same_path(paths[i].as_str(), path) {
            return true;
        }
        i = i + 1;
    }
    false
}

/// Adds a path, unless the list holds it already.
pub fn add_path(paths: &mut Vec<String>, path: String)
    ensures
        views(final(paths)@) == with_path(views(old(paths)@), path@),
{
    if !holds_path(paths, path.as_str()) {
        let ghost before = views(paths@);
        let ghost added = path@;
        paths.push(path);
        assert(views(paths@) =~= before.push(added));
    }
}

/// The paths of `a` that `b` does not hold.
pub fn path_difference(a: &Vec<String>, b: &Vec<String>) -> (r: Vec<String>)
    ensures
        views(r@) == paths_beyond(views(a@), views(b@)),
{
    let mut r: Vec<String> = Vec::new();
    let mut i: usize = 0;
    assert(views(a@.take(0)) =~= Seq::<Seq<char>>::empty());
    assert(views(r@) =~= Seq::<Seq<char>>::empty());
    while i < a.len()
        invariant
            i <= a.len(),
            views(r@) == paths_beyond(views(a@.take(i as int)), views(b@)),
        decreases a.len() - i,
    {
        proof {
            lemma_views_take(a@, i as int);
        }
        if !holds_path(b, a[i].as_str()) {
            let ghost before = r@;
            r.push(a[i].clone());
            assert(views(r@) =~= views(before).push(a@[i as int]@));
        }
        i = i + 1;
    }
    assert(a@.take(a.len() as int) =~= a@);
    r
}

/// Adding a path: the list leads wherever it led, and where the path leads; a
/// path that leads to a place of the list adds nothing.
pub proof fn law_add_path(paths: &mut Vec<String>, path: String, x: Seq<char>)
    requires
        call_ensures(add_path, (paths, path), ()),
    ensures
        has_path(views(final(paths)@), x) <==> has_path(views(old(paths)@), x) || same_path(
            path@,
            x,
        ),
        has_path(views(old(paths)@), path@) ==> views(final(paths)@) == views(old(paths)@),
{
    let before = views(old(paths)@);
    lemma_push_has_path(before, path@, x);
    if has_path(before, path@) && same_path(path@, x) {
        lemma_has_same_path(before, path@, x);
    }
}

/// The difference of two lists leads where the first leads and the second does
/// not; two paths are the same where their steps are.
pub proof fn law_path_difference(
    a: &Vec<String>,
    b: &Vec<String>,
    r: Vec<String>,
    x: Seq<char>,
    p: &str,
    q: &str,
    same: bool,
    of_p: Vec<String>,
    of_q: Vec<String>,
)
    requires
        call_ensures(path_difference, (a, b), r),
        call_ensures(is_same_path, (p, q), same),
        call_ensures(path_steps, (p,), of_p),
        call_ensures(path_steps, (q,), of_q),
    ensures
        has_path(views(r@), x) <==> has_path(views(a@), x) && !has_path(views(b@), x),
        same <==> views(of_p@) == views(of_q@),
{
    lemma_paths_beyond(views(a@), views(b@), x);
}

} // verus!
