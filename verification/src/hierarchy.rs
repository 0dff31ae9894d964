//! Walks over an entity hierarchy.
//!
//! Entities are their 64-bit identifiers. The parent of an entity, its children
//! and its name are looked up in maps, as a scene query answers them.

use std::collections::{HashMap, HashSet};

use vstd::prelude::*;

use crate::text::same;

verus! {

broadcast use vstd::std_specs::hash::group_hash_axioms;

/// Every parent ranks below its child.
pub open spec fn ranked(parents: Map<u64, u64>, rank: spec_fn(u64) -> nat) -> bool {
    forall|c: u64| #[trigger] parents.contains_key(c) ==> rank(parents[c]) < rank(c)
}

/// No entity is its own ancestor.
pub open spec fn forest(parents: Map<u64, u64>) -> bool {
    exists|rank: spec_fn(u64) -> nat| ranked(parents, rank)
}

/// The ancestor of `entity` that stands `steps` parents above it.
pub open spec fn ancestor(parents: Map<u64, u64>, entity: u64, steps: nat) -> Option<u64>
    decreases steps,
{
    if steps == 0 {
        Some(entity)
    } else {
        match ancestor(parents, entity, (steps - 1) as nat) {
            Some(below) => if parents.contains_key(below) {
                Some(parents[below])
            } else {
                None
            },
            None => None,
        }
    }
}

/// `found` is marked and stands `steps` above `entity`, and nothing marked
/// stands between them from `from` steps on.
pub open spec fn first_marked(
    parents: Map<u64, u64>,
    marked: Set<u64>,
    entity: u64,
    from: nat,
    steps: nat,
    found: u64,
) -> bool {
    &&& from <= steps
    &&& ancestor(parents, entity, steps) == Some(found)
    &&& marked.contains(found)
    &&& forall|m: nat|
        from <= m < steps ==> match #[trigger] ancestor(parents, entity, m) {
            Some(a) => !marked.contains(a),
            None => true,
        }
}

/// Nothing marked stands above `entity` from `from` steps on.
pub open spec fn none_marked(
    parents: Map<u64, u64>,
    marked: Set<u64>,
    entity: u64,
    from: nat,
) -> bool {
    forall|m: nat|
        from <= m ==> match #[trigger] ancestor(parents, entity, m) {
            Some(a) => !marked.contains(a),
            None => true,
        }
}

/// Beyond an ancestor without a parent there is none.
pub proof fn lemma_ended(parents: Map<u64, u64>, entity: u64, n: nat, m: nat)
    requires
        n < m,
        ancestor(parents, entity, n) matches Some(a) && !parents.contains_key(a),
    ensures
        ancestor(parents, entity, m) is None,
    decreases m,
{
    if m > n + 1 {
        lemma_ended(parents, entity, n, (m - 1) as nat);
    }
}

/// The nearest marked entity among `entity` and its ancestors.
pub fn nearest_marked(
    parents: &HashMap<u64, u64>,
    marked: &HashSet<u64>,
    entity: u64,
) -> (r: Option<u64>)
    requires
        forest(parents@),
    ensures
        match r {
            Some(found) => exists|n: nat| first_marked(parents@, marked@, entity, 0, n, found),
            None => none_marked(parents@, marked@, entity, 0),
        },
{
    let ghost rank = choose|rank: spec_fn(u64) -> nat| ranked(parents@, rank);
    let mut current: u64 = entity;
    let ghost mut n: nat = 0;
    loop
        invariant
            ranked(parents@, rank),
            ancestor(parents@, entity, n) == Some(current),
            forall|m: nat|
                0 <= m < n ==> match #[trigger] ancestor(parents@, entity, m) {
                    Some(a) => !marked@.contains(a),
                    None => true,
                },
        decreases rank(current),
    {
        if marked.contains(&current) {
            assert(first_marked(parents@, marked@, entity, 0, n, current));
            return Some(current);
        }
        match parents.get(&current) {
            Some(parent) => {
                proof {
                    assert(ancestor(parents@, entity, n + 1) == Some(*parent));
                    n = n + 1;
                }
                current = *parent;
            },
            None => {
                proof {
                    assert forall|m: nat| 0 <= m implies match #[trigger] ancestor(
                        parents@,
                        entity,
                        m,
                    ) {
                        Some(a) => !marked@.contains(a),
                        None => true,
                    } by {
                        if m > n {
                            lemma_ended(parents@, entity, n, m);
                        }
                    }
                }
                return None;
            },
        }
    }
}

/// Whether `entity` or one of its ancestors is marked.
pub fn marked_or_parent(
    parents: &HashMap<u64, u64>,
    marked: &HashSet<u64>,
    entity: u64,
) -> (r: bool)
    requires
        forest(parents@),
    ensures
        r == !none_marked(parents@, marked@, entity, 0),
{
    match nearest_marked(parents, marked, entity) {
        Some(found) => {
            proof {
                let n = choose|n: nat| first_marked(parents@, marked@, entity, 0, n, found);
                assert(ancestor(parents@, entity, n) == Some(found));
            }
            true
        },
        None => false,
    }
}

/// Whether a proper ancestor of `entity` owns a rigid body.
pub fn has_rigidbody_ancestor(
    entity: u64,
    parents: &HashMap<u64, u64>,
    bodies: &HashSet<u64>,
) -> (r: bool)
    requires
        forest(parents@),
    ensures
        r == !none_marked(parents@, bodies@, entity, 1),
{
    match parents.get(&entity) {
        Some(parent) => {
            let above = marked_or_parent(parents, bodies, *parent);
            proof {
                assert(ancestor(parents@, entity, 0) == Some(entity));
                assert forall|m: nat| #[trigger]
                    ancestor(parents@, *parent, m) == ancestor(parents@, entity, m + 1) by {
                    lemma_shift(parents@, entity, *parent, m);
                }
                if none_marked(parents@, bodies@, *parent, 0) {
                    assert forall|m: nat| 1 <= m implies match #[trigger] ancestor(
                        parents@,
                        entity,
                        m,
                    ) {
                        Some(a) => !bodies@.contains(a),
                        None => true,
                    } by {
                        let k = (m - 1) as nat;
                        assert(ancestor(parents@, *parent, k) == ancestor(parents@, entity, k + 1));
                    }
                }
                if none_marked(parents@, bodies@, entity, 1) {
                    assert forall|m: nat| 0 <= m implies match #[trigger] ancestor(
                        parents@,
                        *parent,
                        m,
                    ) {
                        Some(a) => !bodies@.contains(a),
                        None => true,
                    } by {
                        assert(ancestor(parents@, *parent, m) == ancestor(parents@, entity, m + 1));
                    }
                }
            }
            above
        },
        None => {
            proof {
                assert forall|m: nat| 1 <= m implies match #[trigger] ancestor(
                    parents@,
                    entity,
                    m,
                ) {
                    Some(a) => !bodies@.contains(a),
                    None => true,
                } by {
                    lemma_ended(parents@, entity, 0, m);
                }
            }
            false
        },
    }
}

proof fn lemma_shift(parents: Map<u64, u64>, entity: u64, parent: u64, m: nat)
    requires
        parents.contains_key(entity),
        parents[entity] == parent,
    ensures
        ancestor(parents, parent, m) == ancestor(parents, entity, m + 1),
    decreases m,
{
    if m == 0 {
        assert(ancestor(parents, entity, 0) == Some(entity));
        assert(ancestor(parents, entity, 1) == Some(parent));
    } else {
        lemma_shift(parents, entity, parent, (m - 1) as nat);
    }
}

/// The root above `entity`: the ancestor, or `entity` itself, without a parent.
pub fn topmost_ancestor(entity: u64, parents: &HashMap<u64, u64>) -> (r: u64)
    requires
        forest(parents@),
    ensures
        !parents@.contains_key(r),
        exists|n: nat| #[trigger] ancestor(parents@, entity, n) == Some(r),
{
    let ghost rank = choose|rank: spec_fn(u64) -> nat| ranked(parents@, rank);
    let mut current: u64 = entity;
    let ghost mut n: nat = 0;
    loop
        invariant
            ranked(parents@, rank),
            ancestor(parents@, entity, n) == Some(current),
        decreases rank(current),
    {
        match parents.get(&current) {
            Some(parent) => {
                proof {
                    assert(ancestor(parents@, entity, n + 1) == Some(*parent));
                    n = n + 1;
                }
                current = *parent;
            },
            None => {
                return current;
            },
        }
    }
}

/// The root above an entity is the only ancestor without a parent.
pub proof fn law_root_unique(parents: Map<u64, u64>, entity: u64, n: nat, m: nat, a: u64, b: u64)
    requires
        ancestor(parents, entity, n) == Some(a),
        ancestor(parents, entity, m) == Some(b),
        !parents.contains_key(a),
        !parents.contains_key(b),
    ensures
        a == b,
{
    if n < m {
        lemma_ended(parents, entity, n, m);
    } else if m < n {
        lemma_ended(parents, entity, m, n);
    }
}

/// Whether `entity` carries the name `name`.
pub open spec fn named(names: Map<u64, String>, entity: u64, name: Seq<char>) -> bool {
    names.contains_key(entity) && names[entity]@ == name
}

/// The first entity named `bone` below `root`, in depth-first order, at most
/// `depth` generations down.
pub open spec fn bone_below(
    children: Map<u64, Vec<u64>>,
    names: Map<u64, String>,
    root: u64,
    bone: Seq<char>,
    depth: nat,
) -> Option<u64>
    decreases 2 * depth, 0nat,
{
    if depth == 0 || !children.contains_key(root) {
        None
    } else {
        bone_among(children, names, children[root]@, bone, (depth - 1) as nat)
    }
}

/// The first entity named `bone` among `kids` and what stands below them.
pub open spec fn bone_among(
    children: Map<u64, Vec<u64>>,
    names: Map<u64, String>,
    kids: Seq<u64>,
    bone: Seq<char>,
    depth: nat,
) -> Option<u64>
    decreases 2 * depth + 1, kids.len(),
{
    if kids.len() == 0 {
        None
    } else if named(names, kids[0], bone) {
        Some(kids[0])
    } else {
        match bone_below(children, names, kids[0], bone, depth) {
            Some(found) => Some(found),
            None => bone_among(children, names, kids.drop_first(), bone, depth),
        }
    }
}

fn is_named(names: &HashMap<u64, String>, entity: u64, name: &str) -> (r: bool)
    ensures
        r == named(names@, entity, name@),
{
    match names.get(&entity) {
        Some(n) => same(n.as_str(), name),
        None => false,
    }
}

/// Looks for a bone by name below `root`, at most `depth` generations down.
pub fn find_bone_entity(
    root: u64,
    bone: &str,
    children: &HashMap<u64, Vec<u64>>,
    names: &HashMap<u64, String>,
    depth: u8,
) -> (r: Option<u64>)
    ensures
        r == bone_below(children@, names@, root, bone@, depth as nat),
    decreases depth,
{
    if depth == 0 {
        return None;
    }
    match children.get(&root) {
        None => None,
        Some(kids) => {
            let mut i: usize = 0;
            assert(kids@.skip(0) =~= kids@);
            while i < kids.len()
                invariant
                    depth > 0,
                    children@.contains_key(root),
                    children@[root] == *kids,
                    i <= kids.len(),
                    bone_among(children@, names@, kids@, bone@, (depth - 1) as nat) == bone_among(
                        children@,
                        names@,
                        kids@.skip(i as int),
                        bone@,
                        (depth - 1) as nat,
                    ),
                decreases kids.len() - i,
            {
                let kid: u64 = kids[i];
                assert(kids@.skip(i as int)[0] == kid);
                assert(kids@.skip(i as int).drop_first() =~= kids@.skip(i + 1));
                if is_named(names, kid, bone) {
                    return Some(kid);
                }
                let found = find_bone_entity(kid, bone, children, names, depth - 1);
                if found.is_some() {
                    return found;
                }
                i = i + 1;
            }
            None
        },
    }
}

/// A bone that was found carries the name that was looked for.
pub proof fn law_found_bone_named(
    children: Map<u64, Vec<u64>>,
    names: Map<u64, String>,
    root: u64,
    bone: Seq<char>,
    depth: nat,
)
    ensures
        bone_below(children, names, root, bone, depth) matches Some(e) ==> named(names, e, bone),
    decreases 2 * depth, 0nat,
{
    if depth > 0 && children.contains_key(root) {
        lemma_found_among(children, names, children[root]@, bone, (depth - 1) as nat);
    }
}

proof fn lemma_found_among(
    children: Map<u64, Vec<u64>>,
    names: Map<u64, String>,
    kids: Seq<u64>,
    bone: Seq<char>,
    depth: nat,
)
    ensures
        bone_among(children, names, kids, bone, depth) matches Some(e) ==> named(names, e, bone),
    decreases 2 * depth + 1, kids.len(),
{
    if kids.len() > 0 {
        law_found_bone_named(children, names, kids[0], bone, depth);
        lemma_found_among(children, names, kids.drop_first(), bone, depth);
    }
}

/// A search that finds nothing at a depth finds nothing at a smaller depth.
pub proof fn law_shallower_search_finds_no_more(
    children: Map<u64, Vec<u64>>,
    names: Map<u64, String>,
    root: u64,
    bone: Seq<char>,
    depth: nat,
    less: nat,
)
    requires
        less <= depth,
        bone_below(children, names, root, bone, depth) is None,
    ensures
        bone_below(children, names, root, bone, less) is None,
    decreases 2 * depth, 0nat,
{
    if less > 0 && children.contains_key(root) {
        lemma_shallower_among(
            children,
            names,
            children[root]@,
            bone,
            (depth - 1) as nat,
            (less - 1) as nat,
        );
    }
}

proof fn lemma_shallower_among(
    children: Map<u64, Vec<u64>>,
    names: Map<u64, String>,
    kids: Seq<u64>,
    bone: Seq<char>,
    depth: nat,
    less: nat,
)
    requires
        less <= depth,
        bone_among(children, names, kids, bone, depth) is None,
    ensures
        bone_among(children, names, kids, bone, less) is None,
    decreases 2 * depth + 1, kids.len(),
{
    if kids.len() > 0 {
        law_shallower_search_finds_no_more(children, names, kids[0], bone, depth, less);
        lemma_shallower_among(children, names, kids.drop_first(), bone, depth, less);
    }
}

/// `below` stands `steps` generations below `root`.
pub open spec fn descends(
    children: Map<u64, Vec<u64>>,
    root: u64,
    below: u64,
    steps: nat,
) -> bool
    decreases steps,
{
    if steps == 0 {
        root == below
    } else {
        children.contains_key(root) && exists|i: int|
            0 <= i < children[root]@.len() && descends(
                children,
                #[trigger] children[root]@[i],
                below,
                (steps - 1) as nat,
            )
    }
}

/// `below` stands below `root`, at most `depth` generations down.
pub open spec fn within_depth(
    children: Map<u64, Vec<u64>>,
    root: u64,
    below: u64,
    depth: nat,
) -> bool {
    exists|n: nat| 1 <= n <= depth && #[trigger] descends(children, root, below, n)
}

/// A bone that was found stands below the root, within the depth.
pub proof fn law_found_bone_below_root(
    children: Map<u64, Vec<u64>>,
    names: Map<u64, String>,
    root: u64,
    bone: Seq<char>,
    depth: nat,
)
    ensures
        bone_below(children, names, root, bone, depth) matches Some(e) ==> within_depth(
            children,
            root,
            e,
            depth,
        ),
    decreases 2 * depth, 0nat,
{
    if let Some(e) = bone_below(children, names, root, bone, depth) {
        let kids = children[root]@;
        let less = (depth - 1) as nat;
        lemma_found_below_kid(children, names, kids, bone, less);
        let (i, n) = choose|i: int, n: nat|
            0 <= i < kids.len() && n <= less && #[trigger] descends(children, kids[i], e, n);
        assert(descends(children, children[root]@[i], e, n));
        assert(descends(children, root, e, n + 1));
    }
}

proof fn lemma_found_below_kid(
    children: Map<u64, Vec<u64>>,
    names: Map<u64, String>,
    kids: Seq<u64>,
    bone: Seq<char>,
    depth: nat,
)
    ensures
        bone_among(children, names, kids, bone, depth) matches Some(e) ==> exists|i: int, n: nat|
            0 <= i < kids.len() && n <= depth && #[trigger] descends(children, kids[i], e, n),
    decreases 2 * depth + 1, kids.len(),
{
    if let Some(e) = bone_among(children, names, kids, bone, depth) {
        if named(names, kids[0], bone) {
            assert(descends(children, kids[0], e, 0));
        } else if bone_below(children, names, kids[0], bone, depth) is Some {
            law_found_bone_below_root(children, names, kids[0], bone, depth);
            let n = choose|n: nat| 1 <= n <= depth && #[trigger] descends(children, kids[0], e, n);
            assert(descends(children, kids[0], e, n));
        } else {
            let rest = kids.drop_first();
            lemma_found_below_kid(children, names, rest, bone, depth);
            let (i, n) = choose|i: int, n: nat|
                0 <= i < rest.len() && n <= depth && #[trigger] descends(children, rest[i], e, n);
            assert(descends(children, kids[i + 1], e, n));
        }
    }
}

/// A search that finds nothing tells that no bone of that name stands below the
/// root, within the depth.
pub proof fn law_nothing_found_means_none(
    children: Map<u64, Vec<u64>>,
    names: Map<u64, String>,
    root: u64,
    bone: Seq<char>,
    depth: nat,
    e: u64,
)
    requires
        bone_below(children, names, root, bone, depth) is None,
        within_depth(children, root, e, depth),
    ensures
        !named(names, e, bone),
    decreases 2 * depth, 0nat,
{
    let n = choose|n: nat| 1 <= n <= depth && #[trigger] descends(children, root, e, n);
    let kids = children[root]@;
    let i = choose|i: int|
        0 <= i < children[root]@.len() && descends(
            children,
            #[trigger] children[root]@[i],
            e,
            (n - 1) as nat,
        );
    lemma_none_below_kid(children, names, kids, bone, (depth - 1) as nat, i, (n - 1) as nat, e);
}

proof fn lemma_none_below_kid(
    children: Map<u64, Vec<u64>>,
    names: Map<u64, String>,
    kids: Seq<u64>,
    bone: Seq<char>,
    depth: nat,
    i: int,
    n: nat,
    e: u64,
)
    requires
        bone_among(children, names, kids, bone, depth) is None,
        0 <= i < kids.len(),
        n <= depth,
        descends(children, kids[i], e, n),
    ensures
        !named(names, e, bone),
    decreases 2 * depth + 1, kids.len(),
{
    if i > 0 {
        lemma_none_below_kid(children, names, kids.drop_first(), bone, depth, i - 1, n, e);
    } else if n > 0 {
        assert(within_depth(children, kids[0], e, depth));
        law_nothing_found_means_none(children, names, kids[0], bone, depth, e);
    }
}

/// Every child ranks below its parent.
pub open spec fn child_ranked(children: Map<u64, Vec<u64>>, rank: spec_fn(u64) -> nat) -> bool {
    forall|p: u64, i: int|
        children.contains_key(p) && 0 <= i < children[p]@.len() ==> rank(
            #[trigger] children[p]@[i],
        ) < rank(p)
}

/// No entity stands below itself.
pub open spec fn child_forest(children: Map<u64, Vec<u64>>) -> bool {
    exists|rank: spec_fn(u64) -> nat| child_ranked(children, rank)
}

/// `entity` is `root` or stands anywhere below it.
pub open spec fn at_or_below(children: Map<u64, Vec<u64>>, root: u64, entity: u64) -> bool {
    exists|n: nat| descends(children, root, entity, n)
}

/// The entities at or below `root` that carry a collider.
pub fn colliders_under(
    root: u64,
    children: &HashMap<u64, Vec<u64>>,
    has_collider: &HashSet<u64>,
) -> (r: Vec<u64>)
    requires
        child_forest(children@),
    ensures
        forall|e: u64|
            #![trigger r@.contains(e)]
            r@.contains(e) <==> at_or_below(children@, root, e) && has_collider@.contains(e),
{
    let ghost rank = choose|rank: spec_fn(u64) -> nat| child_ranked(children@, rank);
    let mut out: Vec<u64> = Vec::new();
    collect_colliders(root, children, has_collider, &mut out, Ghost(rank));
    out
}

fn collect_colliders(
    root: u64,
    children: &HashMap<u64, Vec<u64>>,
    has_collider: &HashSet<u64>,
    out: &mut Vec<u64>,
    Ghost(rank): Ghost<spec_fn(u64) -> nat>,
)
    requires
        child_ranked(children@, rank),
    ensures
        forall|e: u64|
            #![trigger final(out)@.contains(e)]
            final(out)@.contains(e) <==> old(out)@.contains(e) || (at_or_below(children@, root, e)
                && has_collider@.contains(e)),
    decreases rank(root),
{
    let ghost before = out@;
    if has_collider.contains(&root) {
        out.push(root);
    }
    proof {
        assert(descends(children@, root, root, 0));
        assert forall|e: u64|
            #![trigger out@.contains(e)]
            out@.contains(e) <==> before.contains(e) || (e == root && has_collider@.contains(
                root,
            )) by {
            if has_collider@.contains(root) {
                lemma_push(before, root, e);
            }
        }
    }
    match children.get(&root) {
        None => {
            proof {
                assert forall|e: u64, n: nat| descends(children@, root, e, n) implies e == root by {
                    if n > 0 {
                    }
                }
            }
        },
        Some(kids) => {
            let mut i: usize = 0;
            while i < kids.len()
                invariant
                    child_ranked(children@, rank),
                    children@.contains_key(root),
                    children@[root] == *kids,
                    i <= kids.len(),
                    descends(children@, root, root, 0),
                    forall|e: u64|
                        #![trigger out@.contains(e)]
                        out@.contains(e) <==> before.contains(e) || ((e == root || exists|j: int|
                            0 <= j < i && at_or_below(children@, #[trigger] kids@[j], e))
                            && has_collider@.contains(e)),
                decreases kids.len() - i,
            {
                assert(rank(children@[root]@[i as int]) < rank(root));
                collect_colliders(kids[i], children, has_collider, out, Ghost(rank));
                i = i + 1;
            }
            proof {
                assert forall|e: u64|
                    #![trigger out@.contains(e)]
                    (e == root || exists|j: int|
                        0 <= j < kids@.len() && at_or_below(children@, #[trigger] kids@[j], e))
                        <==> at_or_below(children@, root, e) by {
                    if at_or_below(children@, root, e) && e != root {
                        let n = choose|n: nat| descends(children@, root, e, n);
                        assert(n > 0);
                        let j = choose|j: int|
                            0 <= j < children@[root]@.len() && descends(
                                children@,
                                #[trigger] children@[root]@[j],
                                e,
                                (n - 1) as nat,
                            );
                        assert(at_or_below(children@, kids@[j], e));
                    }
                    if exists|j: int|
                        0 <= j < kids@.len() && at_or_below(children@, #[trigger] kids@[j], e) {
                        let j = choose|j: int|
                            0 <= j < kids@.len() && at_or_below(
                                children@,
                                #[trigger] kids@[j],
                                e,
                            );
                        let n = choose|n: nat| descends(children@, kids@[j], e, n);
                        assert(descends(children@, children@[root]@[j], e, n));
                        assert(descends(children@, root, e, n + 1));
                    }
                }
            }
        },
    }
}

proof fn lemma_push(s: Seq<u64>, x: u64, e: u64)
    ensures
        s.push(x).contains(e) <==> s.contains(e) || e == x,
{
    let p = s.push(x);
    assert(p[s.len() as int] == x);
    if s.contains(e) {
        let i = choose|i: int| 0 <= i < s.len() && s[i] == e;
        assert(p[i] == e);
    }
    if p.contains(e) {
        let i = choose|i: int| 0 <= i < p.len() && p[i] == e;
        if i < s.len() {
            assert(s[i] == e);
        }
    }
}

/// The ancestors of an entity are its parent and the ancestors of that one.
pub proof fn lemma_above_parent(parents: Map<u64, u64>, entity: u64, n: nat)
    requires
        parents.contains_key(entity),
    ensures
        ancestor(parents, entity, n + 1) == ancestor(parents, parents[entity], n),
    decreases n,
{
    if n > 0 {
        lemma_above_parent(parents, entity, (n - 1) as nat);
    } else {
        reveal_with_fuel(ancestor, 2);
    }
}

/// Whether something marked stands above an entity is a matter of the entity
/// and of its parent.
pub proof fn lemma_marked_above(parents: Map<u64, u64>, marked: Set<u64>, entity: u64)
    ensures
        parents.contains_key(entity) ==> none_marked(parents, marked, entity, 1) == none_marked(
            parents,
            marked,
            parents[entity],
            0,
        ),
        !parents.contains_key(entity) ==> none_marked(parents, marked, entity, 1),
        none_marked(parents, marked, entity, 0) <==> !marked.contains(entity) && none_marked(
            parents,
            marked,
            entity,
            1,
        ),
{
    assert(ancestor(parents, entity, 0) == Some(entity));
    if parents.contains_key(entity) {
        assert forall|m: nat| #[trigger]
            ancestor(parents, parents[entity], m) == ancestor(parents, entity, m + 1) by {
            lemma_above_parent(parents, entity, m);
        }
        if none_marked(parents, marked, parents[entity], 0) {
            assert forall|m: nat| 1 <= m implies match #[trigger] ancestor(parents, entity, m) {
                Some(a) => !marked.contains(a),
                None => true,
            } by {
                lemma_above_parent(parents, entity, (m - 1) as nat);
                assert(ancestor(parents, parents[entity], (m - 1) as nat) == ancestor(
                    parents,
                    entity,
                    m,
                ));
            }
        }
    } else {
        assert forall|m: nat| 1 <= m implies #[trigger] ancestor(parents, entity, m) is None by {
            lemma_ended(parents, entity, 0, m);
        }
    }
    if !marked.contains(entity) && none_marked(parents, marked, entity, 1) {
        assert forall|m: nat| 0 <= m implies match #[trigger] ancestor(parents, entity, m) {
            Some(a) => !marked.contains(a),
            None => true,
        } by {
            if m > 0 {
                assert(1 <= m);
            }
        }
    }
}

/// The nearest marked entity: the entity itself where it is marked, else the one
/// nearest to its parent, and none above a root that is not marked.
pub proof fn law_nearest_marked(
    parents: &HashMap<u64, u64>,
    marked: &HashSet<u64>,
    entity: u64,
    r: Option<u64>,
    above: Option<u64>,
)
    requires
        call_ensures(nearest_marked, (parents, marked, entity), r),
        parents@.contains_key(entity) ==> call_ensures(
            nearest_marked,
            (parents, marked, parents@[entity]),
            above,
        ),
    ensures
        marked@.contains(entity) ==> r == Some(entity),
        !marked@.contains(entity) && parents@.contains_key(entity) ==> r == above,
        !marked@.contains(entity) && !parents@.contains_key(entity) ==> r is None,
{
    let p = parents@;
    let m = marked@;
    assert(ancestor(p, entity, 0) == Some(entity));
    lemma_marked_above(p, m, entity);
    if marked@.contains(entity) {
        if r is Some {
            let n = choose|n: nat| first_marked(p, m, entity, 0, n, r->0);
            if n > 0 {
                assert(ancestor(p, entity, 0) == Some(entity));
                assert(false);
            }
        }
    } else if parents@.contains_key(entity) {
        let q = p[entity];
        if r is Some {
            let n = choose|n: nat| first_marked(p, m, entity, 0, n, r->0);
            assert(n > 0);
            lemma_above_parent(p, entity, (n - 1) as nat);
            assert(ancestor(p, q, (n - 1) as nat) == Some(r->0));
            if above is Some {
                let k = choose|k: nat| first_marked(p, m, q, 0, k, above->0);
                lemma_above_parent(p, entity, k);
                if k + 1 < n {
                    assert(ancestor(p, entity, k + 1) == Some(above->0));
                    assert(false);
                }
                if n < k + 1 {
                    assert(ancestor(p, q, (n - 1) as nat) == Some(r->0));
                    assert(false);
                }
            } else {
                assert(false);
            }
        } else {
            if above is Some {
                let k = choose|k: nat| first_marked(p, m, q, 0, k, above->0);
                assert(ancestor(p, q, k) == Some(above->0));
                assert(false);
            }
        }
    } else {
        if r is Some {
            let n = choose|n: nat| first_marked(p, m, entity, 0, n, r->0);
            assert(n > 0);
            lemma_ended(p, entity, 0, n);
            assert(false);
        }
    }
}

/// Something marked stands at or above an entity where a nearest one is found; a
/// body above an entity is one at or above its parent, so an entity's own body
/// does not count.
pub proof fn law_marked_above(
    parents: &HashMap<u64, u64>,
    marked: &HashSet<u64>,
    entity: u64,
    near: Option<u64>,
    at_or_above: bool,
    above: bool,
    of_parent: bool,
)
    requires
        call_ensures(nearest_marked, (parents, marked, entity), near),
        call_ensures(marked_or_parent, (parents, marked, entity), at_or_above),
        call_ensures(has_rigidbody_ancestor, (entity, parents, marked), above),
        parents@.contains_key(entity) ==> call_ensures(
            marked_or_parent,
            (parents, marked, parents@[entity]),
            of_parent,
        ),
    ensures
        at_or_above == near is Some,
        at_or_above <==> marked@.contains(entity) || above,
        above <==> parents@.contains_key(entity) && of_parent,
{
    lemma_marked_above(parents@, marked@, entity);
    if near is Some {
        let n = choose|n: nat| first_marked(parents@, marked@, entity, 0, n, near->0);
        assert(ancestor(parents@, entity, n) == Some(near->0));
    }
}

/// The root above an entity is the root above its parent; a root is its own.
pub proof fn law_topmost(parents: &HashMap<u64, u64>, entity: u64, r: u64, of_parent: u64)
    requires
        call_ensures(topmost_ancestor, (entity, parents), r),
        parents@.contains_key(entity) ==> call_ensures(
            topmost_ancestor,
            (parents@[entity], parents),
            of_parent,
        ),
    ensures
        !parents@.contains_key(entity) ==> r == entity,
        parents@.contains_key(entity) ==> r == of_parent,
{
    let p = parents@;
    assert(ancestor(p, entity, 0) == Some(entity));
    let n = choose|n: nat| #[trigger] ancestor(p, entity, n) == Some(r);
    if p.contains_key(entity) {
        let k = choose|k: nat| #[trigger] ancestor(p, p[entity], k) == Some(of_parent);
        lemma_above_parent(p, entity, k);
        law_root_unique(p, entity, n, k + 1, r, of_parent);
    } else {
        law_root_unique(p, entity, n, 0, r, entity);
    }
}

/// Among the children before the one of number `i`, none is the bone or has it
/// below.
pub proof fn lemma_bone_past(
    children: Map<u64, Vec<u64>>,
    names: Map<u64, String>,
    kids: Seq<u64>,
    bone: Seq<char>,
    depth: nat,
    i: int,
)
    requires
        0 <= i <= kids.len(),
        forall|j: int|
            0 <= j < i ==> !named(names, #[trigger] kids[j], bone) && bone_below(
                children,
                names,
                kids[j],
                bone,
                depth,
            ) is None,
    ensures
        bone_among(children, names, kids, bone, depth) == bone_among(
            children,
            names,
            kids.skip(i),
            bone,
            depth,
        ),
    decreases i,
{
    if i == 0 {
        assert(kids.skip(0) =~= kids);
    } else {
        assert(!named(names, kids[0], bone));
        assert forall|j: int| 0 <= j < i - 1 implies !named(
            names,
            #[trigger] kids.drop_first()[j],
            bone,
        ) && bone_below(children, names, kids.drop_first()[j], bone, depth) is None by {
            assert(kids.drop_first()[j] == kids[j + 1]);
        }
        lemma_bone_past(children, names, kids.drop_first(), bone, depth, i - 1);
        assert(kids.drop_first().skip(i - 1) =~= kids.skip(i));
    }
}

/// The search for a bone goes through the children in their order, into each one
/// before the next: the first child that carries the name, or has the bone below
/// it, one generation less deep, decides. `below` holds what the search finds
/// below each child.
pub proof fn law_bone_search(
    root: u64,
    bone: &str,
    children: &HashMap<u64, Vec<u64>>,
    names: &HashMap<u64, String>,
    depth: u8,
    r: Option<u64>,
    below: Seq<Option<u64>>,
    i: int,
)
    requires
        call_ensures(find_bone_entity, (root, bone, children, names, depth), r),
        depth > 0 && children@.contains_key(root) ==> {
            let kids = children@[root]@;
            &&& below.len() == kids.len()
            &&& forall|j: int|
                0 <= j < kids.len() ==> call_ensures(
                    find_bone_entity,
                    (#[trigger] kids[j], bone, children, names, (depth - 1) as u8),
                    below[j],
                )
            &&& 0 <= i <= kids.len()
            &&& forall|j: int|
                0 <= j < i ==> below[j] is None && !(names@.contains_key(#[trigger] kids[j])
                    && names@[kids[j]]@ == bone@)
        },
    ensures
        depth == 0 || !children@.contains_key(root) ==> r is None,
        depth > 0 && children@.contains_key(root) ==> {
            let kids = children@[root]@;
            &&& i == kids.len() ==> r is None
            &&& i < kids.len() && names@.contains_key(kids[i]) && names@[kids[i]]@ == bone@ ==> r
                == Some(kids[i])
            &&& i < kids.len() && !(names@.contains_key(kids[i]) && names@[kids[i]]@ == bone@)
                && below[i] is Some ==> r == below[i]
        },
{
    if depth > 0 && children@.contains_key(root) {
        let kids = children@[root]@;
        let d = (depth - 1) as nat;
        assert forall|j: int| 0 <= j < kids.len() implies below[j] == bone_below(
            children@,
            names@,
            #[trigger] kids[j],
            bone@,
            d,
        ) by {
        }
        lemma_bone_past(children@, names@, kids, bone@, d, i);
        if i < kids.len() {
            assert(kids.skip(i)[0] == kids[i]);
            assert(below[i] == bone_below(children@, names@, kids[i], bone@, d));
        }
    }
}

/// The colliders below an entity: its own, and those below each of its children.
pub proof fn law_colliders_under(
    root: u64,
    children: &HashMap<u64, Vec<u64>>,
    has_collider: &HashSet<u64>,
    r: Vec<u64>,
    below: Seq<Vec<u64>>,
    e: u64,
)
    requires
        call_ensures(colliders_under, (root, children, has_collider), r),
        children@.contains_key(root) ==> {
            let kids = children@[root]@;
            &&& below.len() == kids.len()
            &&& forall|j: int|
                0 <= j < kids.len() ==> call_ensures(
                    colliders_under,
                    (#[trigger] kids[j], children, has_collider),
                    below[j],
                )
        },
    ensures
        r@.contains(e) ==> has_collider@.contains(e),
        !children@.contains_key(root) ==> (r@.contains(e) <==> e == root && has_collider@.contains(
            e,
        )),
        children@.contains_key(root) ==> (r@.contains(e) <==> (e == root && has_collider@.contains(e))
            || exists|j: int|
            0 <= j < children@[root]@.len() && (#[trigger] below[j])@.contains(e)),
{
    let c = children@;
    if at_or_below(c, root, e) {
        let n = choose|n: nat| descends(c, root, e, n);
        if n > 0 {
            let j = choose|j: int|
                0 <= j < c[root]@.len() && descends(
                    c,
                    #[trigger] c[root]@[j],
                    e,
                    (n - 1) as nat,
                );
            assert(at_or_below(c, c[root]@[j], e));
            assert(has_collider@.contains(e) ==> below[j]@.contains(e));
        }
    }
    if e == root {
        assert(descends(c, root, e, 0));
    }
    if c.contains_key(root) {
        assert forall|j: int|
            0 <= j < c[root]@.len() && (#[trigger] below[j])@.contains(e) implies at_or_below(
            c,
            root,
            e,
        ) && has_collider@.contains(e) by {
            let kid = c[root]@[j];
            assert(at_or_below(c, kid, e));
            let n = choose|n: nat| descends(c, kid, e, n);
            assert(descends(c, root, e, n + 1));
        }
    }
}

} // verus!
