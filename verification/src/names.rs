//! Lists of names that hold each name at most once.

use vstd::prelude::*;

use crate::folds::lemma_take_next;
use crate::text::same;

verus! {

/// No name stands in the list twice.
pub open spec fn distinct(names: Seq<Seq<char>>) -> bool {
    names.no_duplicates()
}

/// `names` with `name` at its end, unless it holds it already.
pub open spec fn with_name(names: Seq<Seq<char>>, name: Seq<char>) -> Seq<Seq<char>> {
    if names.contains(name) {
        names
    } else {
        names.push(name)
    }
}

/// `names` with each name of `more` at its end, in order, unless held already.
pub open spec fn with_names(names: Seq<Seq<char>>, more: Seq<Seq<char>>) -> Seq<Seq<char>>
    decreases more.len(),
{
    if more.len() == 0 {
        names
    } else {
        with_name(with_names(names, more.drop_last()), more.last())
    }
}

/// The names of `a` that `b` does not hold, in the order of `a`.
pub open spec fn not_in(a: Seq<Seq<char>>, b: Seq<Seq<char>>) -> Seq<Seq<char>>
    decreases a.len(),
{
    if a.len() == 0 {
        a
    } else if b.contains(a.last()) {
        not_in(a.drop_last(), b)
    } else {
        not_in(a.drop_last(), b).push(a.last())
    }
}

/// The views of a list of names.
pub open spec fn views(v: Seq<String>) -> Seq<Seq<char>> {
    v.map_values(|s: String| s@)
}

pub proof fn lemma_views_take(v: Seq<String>, i: int)
    requires
        0 <= i < v.len(),
    ensures
        views(v.take(i + 1)).drop_last() == views(v.take(i)),
        views(v.take(i + 1)).last() == v[i]@,
        views(v.take(i + 1)).len() == i + 1,
{
    assert(views(v.take(i + 1)).drop_last() =~= views(v.take(i)));
}

/// Adding a name keeps the names distinct.
pub proof fn lemma_with_name_distinct(names: Seq<Seq<char>>, name: Seq<char>)
    requires
        distinct(names),
    ensures
        distinct(with_name(names, name)),
        with_name(names, name).contains(name),
{
    let r = with_name(names, name);
    if !names.contains(name) {
        assert(r.last() == name);
        assert forall|i: int, j: int| 0 <= i < r.len() && 0 <= j < r.len() && i != j implies r[i]
            != r[j] by {
            if i == r.len() - 1 {
                assert(names[j] != name) by {
                    assert(names.contains(names[j]));
                }
            } else if j == r.len() - 1 {
                assert(names[i] != name) by {
                    assert(names.contains(names[i]));
                }
            }
        }
    }
}

/// Merging names keeps the names distinct.
pub proof fn lemma_with_names_distinct(names: Seq<Seq<char>>, more: Seq<Seq<char>>)
    requires
        distinct(names),
    ensures
        distinct(with_names(names, more)),
    decreases more.len(),
{
    if more.len() > 0 {
        lemma_with_names_distinct(names, more.drop_last());
        lemma_with_name_distinct(with_names(names, more.drop_last()), more.last());
    }
}

/// A difference holds exactly the names of the first list that the second lacks.
pub proof fn lemma_not_in_contains(a: Seq<Seq<char>>, b: Seq<Seq<char>>, name: Seq<char>)
    ensures
        not_in(a, b).contains(name) <==> a.contains(name) && !b.contains(name),
    decreases a.len(),
{
    if a.len() > 0 {
        let front = a.drop_last();
        let last = a.last();
        lemma_not_in_contains(front, b, name);
        assert(a =~= front.push(last));
        lemma_push_contains(front, last, name);
        lemma_push_contains(not_in(front, b), last, name);
    }
}

pub proof fn lemma_push_contains(s: Seq<Seq<char>>, last: Seq<char>, name: Seq<char>)
    ensures
        s.push(last).contains(name) <==> s.contains(name) || name == last,
{
    let p = s.push(last);
    assert(p[s.len() as int] == last);
    if s.contains(name) {
        let i = choose|i: int| 0 <= i < s.len() && s[i] == name;
        assert(p[i] == name);
    }
    if p.contains(name) {
        let i = choose|i: int| 0 <= i < p.len() && p[i] == name;
        if i < s.len() {
            assert(s[i] == name);
        }
    }
}

/// The index of the first occurrence of `name`, where there is one.
pub fn position(names: &Vec<String>, name: &str) -> (r: Option<usize>)
    ensures
        match r {
            Some(i) => i < names.len() && names@[i as int]@ == name@ && (forall|j: int|
                0 <= j < i ==> names@[j]@ != name@),
            None => !views(names@).contains(name@),
        },
        r is Some <==> views(names@).contains(name@),
{
    let mut i: usize = 0;
    while i < names.len()
        invariant
            i <= names.len(),
            forall|j: int| 0 <= j < i ==> names@[j]@ != name@,
        decreases names.len() - i,
    {
        if same(names[i].as_str(), name) {
            assert(views(names@)[i as int] == name@);
            return Some(i);
        }
        i = i + 1;
    }
    assert forall|j: int| 0 <= j < views(names@).len() implies views(names@)[j] != name@ by {
        assert(views(names@)[j] == names@[j]@);
    }
    None
}

/// Whether the list holds `name`.
pub fn holds(names: &Vec<String>, name: &str) -> (r: bool)
    ensures
        r == views(names@).contains(name@),
{
    position(names, name).is_some()
}

/// Adds `name` at the end, unless the list holds it; says whether it was added.
pub fn add_name(names: &mut Vec<String>, name: &str) -> (added: bool)
    ensures
        views(final(names)@) == with_name(views(old(names)@), name@),
        added == !views(old(names)@).contains(name@),
{
    if holds(names, name) {
        false
    } else {
        names.push(name.to_string());
        assert(views(names@) =~= views(old(names)@).push(name@));
        true
    }
}

/// Adds every name of `more`, in order, that the list does not hold.
pub fn add_names(names: &mut Vec<String>, more: &Vec<String>)
    ensures
        views(final(names)@) == with_names(views(old(names)@), views(more@)),
{
    let mut i: usize = 0;
    assert(views(more@.take(0)) =~= Seq::<Seq<char>>::empty());
    while i < more.len()
        invariant
            i <= more.len(),
            views(names@) == with_names(views(old(names)@), views(more@.take(i as int))),
        decreases more.len() - i,
    {
        proof {
            lemma_views_take(more@, i as int);
        }
        add_name(names, more[i].as_str());
        i = i + 1;
    }
    assert(more@.take(more.len() as int) =~= more@);
}

/// The names of `a` that `b` does not hold.
pub fn difference(a: &Vec<String>, b: &Vec<String>) -> (r: Vec<String>)
    ensures
        views(r@) == not_in(views(a@), views(b@)),
{
    let mut r: Vec<String> = Vec::new();
    let mut i: usize = 0;
    assert(views(a@.take(0)) =~= Seq::<Seq<char>>::empty());
    assert(views(r@) =~= Seq::<Seq<char>>::empty());
    while i < a.len()
        invariant
            i <= a.len(),
            views(r@) == not_in(views(a@.take(i as int)), views(b@)),
        decreases a.len() - i,
    {
        proof {
            lemma_views_take(a@, i as int);
        }
        if !holds(b, a[i].as_str()) {
            let ghost before = r@;
            r.push(a[i].clone());
            assert(views(r@) =~= views(before).push(a@[i as int]@));
        }
        i = i + 1;
    }
    assert(a@.take(a.len() as int) =~= a@);
    r
}

/// A copy of the list.
pub fn copy_names(names: &Vec<String>) -> (r: Vec<String>)
    ensures
        views(r@) == views(names@),
{
    let mut r: Vec<String> = Vec::new();
    let mut i: usize = 0;
    while i < names.len()
        invariant
            i <= names.len(),
            r.len() == i,
            forall|j: int| 0 <= j < i ==> r@[j]@ == names@[j]@,
        decreases names.len() - i,
    {
        r.push(names[i].clone());
        i = i + 1;
    }
    assert(views(r@) =~= views(names@));
    r
}

/// Whether two lists hold the same names in the same order.
pub fn same_names(a: &Vec<String>, b: &Vec<String>) -> (r: bool)
    ensures
        r == (views(a@) == views(b@)),
{
    if a.len() != b.len() {
        assert(views(a@).len() != views(b@).len());
        return false;
    }
    let mut i: usize = 0;
    while i < a.len()
        invariant
            a.len() == b.len(),
            i <= a.len(),
            forall|j: int| 0 <= j < i ==> a@[j]@ == b@[j]@,
        decreases a.len() - i,
    {
        if !same(a[i].as_str(), b[i].as_str()) {
            assert(views(a@)[i as int] != views(b@)[i as int]);
            return false;
        }
        i = i + 1;
    }
    assert(views(a@) =~= views(b@));
    true
}

/// `a` does not come after `b` in the order of a dictionary over code points.
pub open spec fn in_order(a: Seq<char>, b: Seq<char>) -> bool
    decreases a.len(),
{
    if a.len() == 0 {
        true
    } else if b.len() == 0 {
        false
    } else if a[0] == b[0] {
        in_order(a.drop_first(), b.drop_first())
    } else {
        a[0] < b[0]
    }
}

pub proof fn lemma_order_total(a: Seq<char>, b: Seq<char>)
    ensures
        in_order(a, b) || in_order(b, a),
    decreases a.len(),
{
    if a.len() > 0 && b.len() > 0 && a[0] == b[0] {
        lemma_order_total(a.drop_first(), b.drop_first());
    }
}

pub proof fn lemma_order_transitive(a: Seq<char>, b: Seq<char>, c: Seq<char>)
    requires
        in_order(a, b),
        in_order(b, c),
    ensures
        in_order(a, c),
    decreases a.len(),
{
    if a.len() > 0 && b.len() > 0 && c.len() > 0 && a[0] == b[0] && b[0] == c[0] {
        lemma_order_transitive(a.drop_first(), b.drop_first(), c.drop_first());
    }
}

/// Two names that come neither after the other are the same.
pub proof fn lemma_order_antisymmetric(a: Seq<char>, b: Seq<char>)
    requires
        in_order(a, b),
        in_order(b, a),
    ensures
        a == b,
    decreases a.len(),
{
    if a.len() > 0 && b.len() > 0 {
        lemma_order_antisymmetric(a.drop_first(), b.drop_first());
        assert(a =~= seq![a[0]] + a.drop_first());
        assert(b =~= seq![b[0]] + b.drop_first());
    } else {
        assert(a =~= b);
    }
}

/// Whether `a` does not come after `b`.
pub fn ordered(a: &str, b: &str) -> (r: bool)
    ensures
        r == in_order(a@, b@),
{
    let x = crate::text::to_chars(a);
    let y = crate::text::to_chars(b);
    let mut i: usize = 0;
    assert(a@.skip(0) =~= a@);
    assert(b@.skip(0) =~= b@);
    loop
        invariant
            x@ == a@,
            y@ == b@,
            i <= x.len(),
            i <= y.len(),
            in_order(a@, b@) == in_order(a@.skip(i as int), b@.skip(i as int)),
        decreases x.len() - i,
    {
        if i == x.len() {
            return true;
        }
        if i == y.len() {
            return false;
        }
        assert(a@.skip(i as int)[0] == x@[i as int]);
        assert(b@.skip(i as int)[0] == y@[i as int]);
        if x[i] != y[i] {
            return x[i] < y[i];
        }
        assert(a@.skip(i as int).drop_first() =~= a@.skip(i + 1));
        assert(b@.skip(i as int).drop_first() =~= b@.skip(i + 1));
        i = i + 1;
    }
}

/// A name with a number that goes with it.
pub struct Tagged {
    pub name: String,
    pub tag: u64,
}

pub open spec fn tag_views(v: Seq<Tagged>) -> Seq<(Seq<char>, u64)> {
    v.map_values(|t: Tagged| (t.name@, t.tag))
}

/// The names stand in order.
pub open spec fn tags_sorted(v: Seq<(Seq<char>, u64)>) -> bool {
    forall|i: int, j: int| 0 <= i < j < v.len() ==> in_order(#[trigger] v[i].0, #[trigger] v[j].0)
}

/// Where a name goes into names in order: behind the last one that it does not
/// come before.
pub open spec fn place_of(v: Seq<(Seq<char>, u64)>, name: Seq<char>) -> int
    decreases v.len(),
{
    if v.len() == 0 || in_order(v.last().0, name) {
        v.len() as int
    } else {
        place_of(v.drop_last(), name)
    }
}

/// The entries ordered by name; those of one name keep their order.
pub open spec fn sorted_tags(v: Seq<(Seq<char>, u64)>) -> Seq<(Seq<char>, u64)>
    decreases v.len(),
{
    if v.len() == 0 {
        v
    } else {
        let front = sorted_tags(v.drop_last());
        front.insert(place_of(front, v.last().0), v.last())
    }
}

proof fn lemma_place(v: Seq<(Seq<char>, u64)>, name: Seq<char>)
    ensures
        0 <= place_of(v, name) <= v.len(),
        place_of(v, name) > 0 ==> in_order(v[place_of(v, name) - 1].0, name),
        forall|i: int|
            place_of(v, name) <= i < v.len() ==> !in_order(#[trigger] v[i].0, name),
    decreases v.len(),
{
    if v.len() > 0 && !in_order(v.last().0, name) {
        let front = v.drop_last();
        lemma_place(front, name);
        assert forall|i: int| place_of(v, name) <= i < v.len() implies !in_order(
            #[trigger] v[i].0,
            name,
        ) by {
            if i < front.len() {
                assert(front[i] == v[i]);
            }
        }
    }
}

/// Sorting puts every entry in its place, and loses and adds none.
pub proof fn law_sorted(v: Seq<(Seq<char>, u64)>)
    ensures
        tags_sorted(sorted_tags(v)),
        sorted_tags(v).to_multiset() == v.to_multiset(),
        sorted_tags(v).len() == v.len(),
    decreases v.len(),
{
    broadcast use vstd::seq_lib::group_to_multiset_ensures;

    if v.len() > 0 {
        let rest = v.drop_last();
        let front = sorted_tags(rest);
        let last = v.last();
        law_sorted(rest);
        lemma_place(front, last.0);
        let p = place_of(front, last.0);
        let all = front.insert(p, last);
        assert forall|i: int, j: int| 0 <= i < j < all.len() implies in_order(
            #[trigger] all[i].0,
            #[trigger] all[j].0,
        ) by {
            let fi = if i < p {
                i
            } else {
                i - 1
            };
            let fj = if j < p {
                j
            } else {
                j - 1
            };
            if i == p {
                assert(all[j] == front[j - 1]);
                assert(!in_order(front[j - 1].0, last.0));
                lemma_order_total(front[j - 1].0, last.0);
            } else if j == p {
                assert(all[i] == front[i]);
                if i < p - 1 {
                    assert(in_order(front[i].0, front[p - 1].0));
                    lemma_order_transitive(front[i].0, front[p - 1].0, last.0);
                }
            } else {
                assert(all[i] == front[fi]);
                assert(all[j] == front[fj]);
                assert(in_order(front[fi].0, front[fj].0));
            }
        }
        assert(v =~= rest.push(last));
        assert(v.to_multiset() =~= rest.to_multiset().insert(last));
    } else {
        assert(sorted_tags(v) == v);
    }
}

/// Sorts entries by name; those of one name keep their order.
pub fn sort_tagged(v: Vec<Tagged>) -> (r: Vec<Tagged>)
    ensures
        tag_views(r@) == sorted_tags(tag_views(v@)),
        r.len() == v.len(),
{
    let ghost all = tag_views(v@);
    let mut r: Vec<Tagged> = Vec::new();
    let mut i: usize = 0;
    assert(all.take(0) =~= Seq::<(Seq<char>, u64)>::empty());
    assert(tag_views(r@) =~= Seq::<(Seq<char>, u64)>::empty());
    while i < v.len()
        invariant
            all == tag_views(v@),
            i <= v.len(),
            tag_views(r@) == sorted_tags(all.take(i as int)),
            r.len() == i,
        decreases v.len() - i,
    {
        let name = v[i].name.clone();
        let tag: u64 = v[i].tag;
        let ghost front = tag_views(r@);
        let mut p: usize = r.len();
        assert(front.take(p as int) =~= front);
        while p > 0 && !ordered(r[p - 1].name.as_str(), name.as_str())
            invariant
                front == tag_views(r@),
                p <= r.len(),
                place_of(front, name@) == place_of(front.take(p as int), name@),
            decreases p,
        {
            assert(front.take(p as int).last() == front[p - 1]);
            assert(front.take(p as int).drop_last() =~= front.take(p - 1));
            p = p - 1;
        }
        proof {
            if p > 0 {
                assert(front.take(p as int).last() == front[p - 1]);
            }
            assert(place_of(front, name@) == p);
            lemma_take_next(all, i as int);
            assert(all[i as int] == (name@, tag));
        }
        let entry = Tagged { name, tag };
        r.insert(p, entry);
        assert(tag_views(r@) =~= front.insert(p as int, (entry.name@, entry.tag)));
        i = i + 1;
    }
    assert(all.take(v.len() as int) =~= all);
    r
}

/// The names of tagged entries, in their order.
pub open spec fn tag_names(v: Seq<(Seq<char>, u64)>) -> Seq<Seq<char>> {
    v.map_values(|t: (Seq<char>, u64)| t.0)
}

/// The names, each with the tag 0.
pub open spec fn untagged(v: Seq<Seq<char>>) -> Seq<(Seq<char>, u64)> {
    v.map_values(|s: Seq<char>| (s, 0u64))
}

/// The names in order.
pub open spec fn sorted_names(v: Seq<Seq<char>>) -> Seq<Seq<char>> {
    tag_names(sorted_tags(untagged(v)))
}

/// Sorts names.
pub fn sort_names(v: &Vec<String>) -> (r: Vec<String>)
    ensures
        views(r@) == sorted_names(views(v@)),
        r.len() == v.len(),
{
    let mut tagged: Vec<Tagged> = Vec::new();
    let mut i: usize = 0;
    while i < v.len()
        invariant
            i <= v.len(),
            tagged.len() == i,
            forall|j: int|
                0 <= j < i ==> (#[trigger] tagged@[j]).name@ == v@[j]@ && tagged@[j].tag == 0,
        decreases v.len() - i,
    {
        tagged.push(Tagged { name: v[i].clone(), tag: 0 });
        i = i + 1;
    }
    assert(tag_views(tagged@) =~= untagged(views(v@)));
    let sorted = sort_tagged(tagged);
    let mut r: Vec<String> = Vec::new();
    let mut k: usize = 0;
    while k < sorted.len()
        invariant
            k <= sorted.len(),
            r.len() == k,
            forall|j: int| 0 <= j < k ==> (#[trigger] r@[j])@ == sorted@[j].name@,
        decreases sorted.len() - k,
    {
        r.push(sorted[k].name.clone());
        k = k + 1;
    }
    assert(views(r@) =~= tag_names(tag_views(sorted@)));
    r
}

/// Where a name first stands in a list; a list holds what it finds.
pub proof fn law_position(names: &Vec<String>, name: &str, r: Option<usize>, held: bool)
    requires
        call_ensures(position, (names, name), r),
        call_ensures(holds, (names, name), held),
    ensures
        held == (r is Some),
        r matches Some(i) ==> i < names@.len() && names@[i as int]@ == name@,
        forall|j: int|
            0 <= j < names@.len() && (#[trigger] names@[j])@ == name@ ==> r is Some && r->0 <= j,
{
    assert forall|j: int|
        0 <= j < names@.len() && (#[trigger] names@[j])@ == name@ implies r is Some && r->0
        <= j by {
        assert(views(names@)[j] == name@);
        assert(views(names@).contains(name@));
        if r->0 > j {
            let args = (names, name);
            assert(args.0@[j]@ != name@);
        }
    }
}

/// Adding a name: the list holds it afterwards and what it held, in its order,
/// and each name once where each stood once before. A second time changes nothing.
pub proof fn law_add_name(
    names: &mut Vec<String>,
    again: &mut Vec<String>,
    name: &str,
    added: bool,
    twice: bool,
    x: Seq<char>,
)
    requires
        call_ensures(add_name, (names, name), added),
        call_ensures(add_name, (again, name), twice),
        old(again)@ == final(names)@,
    ensures
        views(final(names)@).contains(x) <==> views(old(names)@).contains(x) || x == name@,
        added == !views(old(names)@).contains(name@),
        added ==> views(final(names)@) == views(old(names)@).push(name@),
        !added ==> views(final(names)@) == views(old(names)@),
        !twice,
        views(final(again)@) == views(final(names)@),
        distinct(views(old(names)@)) ==> distinct(views(final(names)@)),
{
    lemma_push_contains(views(old(names)@), name@, x);
    lemma_push_contains(views(old(names)@), name@, name@);
    if distinct(views(old(names)@)) {
        lemma_with_name_distinct(views(old(names)@), name@);
    }
}

/// Merged names are those of both lists; the difference of two lists are the
/// names of the first that the second lacks.
pub proof fn law_merge_and_difference(
    names: &mut Vec<String>,
    more: &Vec<String>,
    a: &Vec<String>,
    b: &Vec<String>,
    less: Vec<String>,
    x: Seq<char>,
)
    requires
        call_ensures(add_names, (names, more), ()),
        call_ensures(difference, (a, b), less),
    ensures
        views(final(names)@).contains(x) <==> views(old(names)@).contains(x) || views(
            more@,
        ).contains(x),
        distinct(views(old(names)@)) ==> distinct(views(final(names)@)),
        views(less@).contains(x) <==> views(a@).contains(x) && !views(b@).contains(x),
{
    lemma_with_names_contains(views(old(names)@), views(more@), x);
    if distinct(views(old(names)@)) {
        lemma_with_names_distinct(views(old(names)@), views(more@));
    }
    lemma_not_in_contains(views(a@), views(b@), x);
}

/// A merge holds exactly the names of both lists.
pub proof fn lemma_with_names_contains(
    names: Seq<Seq<char>>,
    more: Seq<Seq<char>>,
    x: Seq<char>,
)
    ensures
        with_names(names, more).contains(x) <==> names.contains(x) || more.contains(x),
    decreases more.len(),
{
    if more.len() > 0 {
        let front = more.drop_last();
        lemma_with_names_contains(names, front, x);
        assert(more =~= front.push(more.last()));
        lemma_push_contains(front, more.last(), x);
        lemma_push_contains(with_names(names, front), more.last(), x);
    }
}

/// A copy holds the same names, and two lists are the same name by name.
pub proof fn law_same_names(a: &Vec<String>, b: &Vec<String>, c: Vec<String>, r: bool)
    requires
        call_ensures(copy_names, (a,), c),
        call_ensures(same_names, (a, b), r),
    ensures
        c@.len() == a@.len(),
        forall|i: int| 0 <= i < a@.len() ==> (#[trigger] c@[i])@ == a@[i]@,
        r <==> a@.len() == b@.len() && forall|i: int|
            0 <= i < a@.len() ==> (#[trigger] a@[i])@ == b@[i]@,
{
    assert(views(c@).len() == views(a@).len());
    assert forall|i: int| 0 <= i < a@.len() implies (#[trigger] c@[i])@ == a@[i]@ by {
        assert(views(c@)[i] == views(a@)[i]);
    }
    if r {
        assert(views(a@).len() == views(b@).len());
        assert forall|i: int| 0 <= i < a@.len() implies (#[trigger] a@[i])@ == b@[i]@ by {
            assert(views(a@)[i] == views(b@)[i]);
        }
    }
    if a@.len() == b@.len() && forall|i: int|
        0 <= i < a@.len() ==> (#[trigger] a@[i])@ == b@[i]@ {
        assert(views(a@) =~= views(b@));
    }
}

/// The order of names: the first place where two names differ decides, by the
/// code points there, and a name stands before any longer one that it begins.
pub proof fn law_name_order(a: &str, b: &str, r: bool, k: int)
    requires
        call_ensures(ordered, (a, b), r),
        0 <= k <= a@.len(),
        k <= b@.len(),
        forall|i: int| 0 <= i < k ==> a@[i] == b@[i],
    ensures
        k == a@.len() ==> r,
        k == b@.len() && k < a@.len() ==> !r,
        k < a@.len() && k < b@.len() && a@[k] != b@[k] ==> r == (a@[k] < b@[k]),
{
    lemma_in_order_at(a@, b@, k);
}

proof fn lemma_in_order_at(a: Seq<char>, b: Seq<char>, k: int)
    requires
        0 <= k <= a.len(),
        k <= b.len(),
        forall|i: int| 0 <= i < k ==> a[i] == b[i],
    ensures
        k == a.len() ==> in_order(a, b),
        k == b.len() && k < a.len() ==> !in_order(a, b),
        k < a.len() && k < b.len() && a[k] != b[k] ==> in_order(a, b) == (a[k] < b[k]),
    decreases k,
{
    if k > 0 {
        let x = a.drop_first();
        let y = b.drop_first();
        assert(a[0] == b[0]);
        assert forall|i: int| 0 <= i < k - 1 implies x[i] == y[i] by {
            assert(a[i + 1] == b[i + 1]);
        }
        lemma_in_order_at(x, y, k - 1);
    }
}

/// Sorted names are the names, in order; entries with tags keep their tags.
pub proof fn law_sort(v: &Vec<String>, r: Vec<String>, t: Vec<Tagged>, s: Vec<Tagged>)
    requires
        call_ensures(sort_names, (v,), r),
        call_ensures(sort_tagged, (t,), s),
    ensures
        r@.len() == v@.len(),
        forall|i: int, j: int| 0 <= i < j < r@.len() ==> in_order(r@[i]@, r@[j]@),
        forall|x: Seq<char>| #[trigger] views(r@).contains(x) <==> views(v@).contains(x),
        tag_views(s@).to_multiset() == tag_views(t@).to_multiset(),
        forall|i: int, j: int| 0 <= i < j < s@.len() ==> in_order(s@[i].name@, s@[j].name@),
{
    law_sorted(tag_views(t@));
    assert forall|i: int, j: int| 0 <= i < j < s@.len() implies in_order(
        s@[i].name@,
        s@[j].name@,
    ) by {
        let sorted = sorted_tags(tag_views(t@));
        assert(tag_views(s@)[i] == sorted[i] && tag_views(s@)[j] == sorted[j]);
        assert(in_order(sorted[i].0, sorted[j].0));
    }
    lemma_sorted_names(views(v@));
    assert forall|i: int, j: int| 0 <= i < j < r@.len() implies in_order(r@[i]@, r@[j]@) by {
        assert(views(r@)[i] == r@[i]@ && views(r@)[j] == r@[j]@);
    }
}

/// Sorted names stand in order and are the same names.
pub proof fn lemma_sorted_names(v: Seq<Seq<char>>)
    ensures
        sorted_names(v).len() == v.len(),
        forall|i: int, j: int|
            0 <= i < j < v.len() ==> in_order(
                #[trigger] sorted_names(v)[i],
                #[trigger] sorted_names(v)[j],
            ),
        forall|x: Seq<char>| #[trigger] sorted_names(v).contains(x) <==> v.contains(x),
{
    broadcast use vstd::seq_lib::group_to_multiset_ensures;

    let u = untagged(v);
    let s = sorted_tags(u);
    law_sorted(u);
    assert forall|i: int, j: int| 0 <= i < j < v.len() implies in_order(
        #[trigger] sorted_names(v)[i],
        #[trigger] sorted_names(v)[j],
    ) by {
        assert(in_order(s[i].0, s[j].0));
    }
    assert forall|x: Seq<char>| #[trigger] sorted_names(v).contains(x) <==> v.contains(x) by {
        if sorted_names(v).contains(x) {
            let i = choose|i: int| 0 <= i < sorted_names(v).len() && sorted_names(v)[i] == x;
            assert(s.contains(s[i]));
            assert(u.to_multiset().count(s[i]) > 0);
            assert(u.contains(s[i]));
            let k = choose|k: int| 0 <= k < u.len() && u[k] == s[i];
            assert(v[k] == x);
        }
        if v.contains(x) {
            let k = choose|k: int| 0 <= k < v.len() && v[k] == x;
            assert(u.contains(u[k]));
            assert(s.to_multiset().count(u[k]) > 0);
            assert(s.contains(u[k]));
            let i = choose|i: int| 0 <= i < s.len() && s[i] == u[k];
            assert(sorted_names(v)[i] == x);
        }
    }
}

} // verus!
