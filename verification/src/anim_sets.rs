//! Animation sets: the clips and the dictionaries that a model gets from them.

use vstd::prelude::*;

use crate::folds::lemma_take_next;
use crate::names::{
    add_name, add_names, copy_names, distinct, lemma_with_name_distinct, lemma_with_names_contains,
    lemma_with_names_distinct, views, with_name, with_names,
};
use crate::scalar::Scalar;
use crate::text::{ends_with, has_tail, same};

verus! {

/// A mark on the time line of a clip.
#[derive(Clone, Debug)]
pub struct Notify {
    pub time: Scalar,
    pub name: String,
}

#[derive(Clone, Debug)]
pub struct AnimClip {
    pub name: String,
    pub notifies: Vec<Notify>,
}

/// A named choice of clips.
#[derive(Clone, Debug)]
pub struct AnimDictionary {
    pub name: String,
    pub clip_names: Vec<String>,
}

#[derive(Clone, Debug)]
pub struct AnimSet {
    pub clips: Vec<AnimClip>,
    pub dictionaries: Vec<AnimDictionary>,
}

/// The contents of an `AnimDictionary`.
pub struct DictView {
    pub name: Seq<char>,
    pub clips: Seq<Seq<char>>,
}

impl View for AnimDictionary {
    type V = DictView;

    open spec fn view(&self) -> DictView {
        DictView { name: self.name@, clips: views(self.clip_names@) }
    }
}

pub open spec fn dict_views(dicts: Seq<AnimDictionary>) -> Seq<DictView> {
    dicts.map_values(|d: AnimDictionary| d@)
}

pub open spec fn clip_views(clips: Seq<AnimClip>) -> Seq<Seq<char>> {
    clips.map_values(|c: AnimClip| c.name@)
}

pub open spec fn dict_names(dicts: Seq<DictView>) -> Seq<Seq<char>> {
    dicts.map_values(|d: DictView| d.name)
}

/// The names of all clips, in the order in which they first occur.
pub open spec fn all_clips(sets: Seq<AnimSet>) -> Seq<Seq<char>>
    decreases sets.len(),
{
    if sets.len() == 0 {
        Seq::empty()
    } else {
        with_names(all_clips(sets.drop_last()), clip_views(sets.last().clips@))
    }
}

/// The index of the first dictionary of a name, or the number of dictionaries.
pub open spec fn dict_index(dicts: Seq<DictView>, name: Seq<char>) -> int
    decreases dicts.len(),
{
    if dicts.len() == 0 || dicts[0].name == name {
        0
    } else {
        1 + dict_index(dicts.drop_first(), name)
    }
}

/// `dicts` with the clips of `d` added to the dictionary of its name, or with
/// `d` at the end; there its clips keep repetitions unless `once`.
pub open spec fn with_dict(dicts: Seq<DictView>, d: DictView, once: bool) -> Seq<DictView> {
    let i = dict_index(dicts, d.name);
    if i < dicts.len() {
        dicts.update(i, DictView { name: d.name, clips: with_names(dicts[i].clips, d.clips) })
    } else if once {
        dicts.push(DictView { name: d.name, clips: with_names(Seq::empty(), d.clips) })
    } else {
        dicts.push(d)
    }
}

pub open spec fn with_dicts(dicts: Seq<DictView>, more: Seq<DictView>, once: bool) -> Seq<DictView>
    decreases more.len(),
{
    if more.len() == 0 {
        dicts
    } else {
        with_dict(with_dicts(dicts, more.drop_last(), once), more.last(), once)
    }
}

/// The dictionaries of all sets, those of one name merged.
pub open spec fn all_dicts(sets: Seq<AnimSet>, once: bool) -> Seq<DictView>
    decreases sets.len(),
{
    if sets.len() == 0 {
        Seq::empty()
    } else {
        with_dicts(all_dicts(sets.drop_last(), once), dict_views(sets.last().dictionaries@), once)
    }
}

proof fn lemma_dict_index(dicts: Seq<DictView>, name: Seq<char>, i: int)
    requires
        0 <= i <= dicts.len(),
        forall|j: int| 0 <= j < i ==> (#[trigger] dicts[j]).name != name,
        i < dicts.len() ==> dicts[i].name == name,
    ensures
        dict_index(dicts, name) == i,
    decreases dicts.len(),
{
    if i > 0 {
        assert(dicts[0].name != name);
        let rest = dicts.drop_first();
        assert forall|j: int| 0 <= j < i - 1 implies (#[trigger] rest[j]).name != name by {
            assert(dicts[j + 1].name != name);
        }
        lemma_dict_index(rest, name, i - 1);
    }
}

proof fn lemma_dict_index_is_first(dicts: Seq<DictView>, name: Seq<char>)
    ensures
        0 <= dict_index(dicts, name) <= dicts.len(),
        dict_index(dicts, name) < dicts.len() ==> dicts[dict_index(dicts, name)].name == name,
        forall|j: int|
            0 <= j < dict_index(dicts, name) ==> (#[trigger] dicts[j]).name != name,
    decreases dicts.len(),
{
    if dicts.len() > 0 && dicts[0].name != name {
        let rest = dicts.drop_first();
        lemma_dict_index_is_first(rest, name);
        assert forall|j: int| 0 <= j < dict_index(dicts, name) implies (#[trigger] dicts[j]).name
            != name by {
            if j > 0 {
                assert(rest[j - 1].name != name);
            }
        }
    }
}

/// Adds the clip names of a set that the list does not hold.
fn add_clips(names: &mut Vec<String>, clips: &Vec<AnimClip>)
    ensures
        views(final(names)@) == with_names(views(old(names)@), clip_views(clips@)),
{
    let mut i: usize = 0;
    assert(clip_views(clips@.take(0)) =~= Seq::<Seq<char>>::empty());
    while i < clips.len()
        invariant
            i <= clips.len(),
            views(names@) == with_names(views(old(names)@), clip_views(clips@.take(i as int))),
        decreases clips.len() - i,
    {
        proof {
            let next = clip_views(clips@.take(i + 1));
            assert(next.drop_last() =~= clip_views(clips@.take(i as int)));
            assert(next.last() == clips@[i as int].name@);
        }
        add_name(names, clips[i].name.as_str());
        i = i + 1;
    }
    assert(clips@.take(clips.len() as int) =~= clips@);
}

/// The names of all clips of the sets, each once.
pub fn collect_clip_names(sets: &Vec<AnimSet>) -> (r: Vec<String>)
    ensures
        views(r@) == all_clips(sets@),
{
    let mut names: Vec<String> = Vec::new();
    let mut i: usize = 0;
    assert(sets@.take(0) =~= Seq::<AnimSet>::empty());
    assert(views(names@) =~= Seq::<Seq<char>>::empty());
    while i < sets.len()
        invariant
            i <= sets.len(),
            views(names@) == all_clips(sets@.take(i as int)),
        decreases sets.len() - i,
    {
        proof {
            lemma_take_next(sets@, i as int);
        }
        add_clips(&mut names, &sets[i].clips);
        i = i + 1;
    }
    assert(sets@.take(sets.len() as int) =~= sets@);
    names
}

/// Adds one dictionary to those that are there.
fn add_dict(dicts: &mut Vec<AnimDictionary>, d: &AnimDictionary, once: bool)
    ensures
        dict_views(final(dicts)@) == with_dict(dict_views(old(dicts)@), d@, once),
{
    let ghost before = dict_views(dicts@);
    let mut i: usize = 0;
    while i < dicts.len()
        invariant
            dict_views(dicts@) == before,
            before == dict_views(old(dicts)@),
            i <= dicts.len(),
            forall|j: int| 0 <= j < i ==> (#[trigger] before[j]).name != d@.name,
        decreases dicts.len() - i,
    {
        assert(before[i as int] == dicts@[i as int]@);
        if same(dicts[i].name.as_str(), d.name.as_str()) {
            let mut clips = copy_names(&dicts[i].clip_names);
            add_names(&mut clips, &d.clip_names);
            let merged = AnimDictionary { name: d.name.clone(), clip_names: clips };
            proof {
                lemma_dict_index(before, d@.name, i as int);
            }
            dicts[i] = merged;
            assert(dict_views(dicts@) =~= before.update(i as int, merged@));
            return;
        }
        i = i + 1;
    }
    proof {
        lemma_dict_index(before, d@.name, i as int);
    }
    let clips = if once {
        let mut clips: Vec<String> = Vec::new();
        assert(views(clips@) =~= Seq::<Seq<char>>::empty());
        add_names(&mut clips, &d.clip_names);
        clips
    } else {
        copy_names(&d.clip_names)
    };
    let added = AnimDictionary { name: d.name.clone(), clip_names: clips };
    dicts.push(added);
    assert(dict_views(dicts@) =~= before.push(added@));
}

fn add_dicts(dicts: &mut Vec<AnimDictionary>, more: &Vec<AnimDictionary>, once: bool)
    ensures
        dict_views(final(dicts)@) == with_dicts(dict_views(old(dicts)@), dict_views(more@), once),
{
    let mut i: usize = 0;
    assert(dict_views(more@.take(0)) =~= Seq::<DictView>::empty());
    while i < more.len()
        invariant
            i <= more.len(),
            dict_views(dicts@) == with_dicts(
                dict_views(old(dicts)@),
                dict_views(more@.take(i as int)),
                once,
            ),
        decreases more.len() - i,
    {
        proof {
            let next = dict_views(more@.take(i + 1));
            assert(next.drop_last() =~= dict_views(more@.take(i as int)));
            assert(next.last() == more@[i as int]@);
        }
        add_dict(dicts, &more[i], once);
        i = i + 1;
    }
    assert(more@.take(more.len() as int) =~= more@);
}

/// The dictionaries of all sets, those of one name merged.
pub fn merge_dictionaries(sets: &Vec<AnimSet>, once: bool) -> (r: Vec<AnimDictionary>)
    ensures
        dict_views(r@) == all_dicts(sets@, once),
{
    let mut dicts: Vec<AnimDictionary> = Vec::new();
    let mut i: usize = 0;
    assert(sets@.take(0) =~= Seq::<AnimSet>::empty());
    assert(dict_views(dicts@) =~= Seq::<DictView>::empty());
    while i < sets.len()
        invariant
            i <= sets.len(),
            dict_views(dicts@) == all_dicts(sets@.take(i as int), once),
        decreases sets.len() - i,
    {
        proof {
            lemma_take_next(sets@, i as int);
        }
        add_dicts(&mut dicts, &sets[i].dictionaries, once);
        i = i + 1;
    }
    assert(sets@.take(sets.len() as int) =~= sets@);
    dicts
}

/// The clips of the dictionary `name`, where there is one.
pub fn clips_of(dicts: &Vec<AnimDictionary>, name: &str) -> (r: Option<Vec<String>>)
    ensures
        ({
            let i = dict_index(dict_views(dicts@), name@);
            match r {
                Some(clips) => i < dicts.len() && views(clips@) == views(dicts@[i].clip_names@),
                None => i == dicts.len(),
            }
        }),
{
    let ghost all = dict_views(dicts@);
    let mut i: usize = 0;
    while i < dicts.len()
        invariant
            all == dict_views(dicts@),
            i <= dicts.len(),
            forall|j: int| 0 <= j < i ==> (#[trigger] all[j]).name != name@,
        decreases dicts.len() - i,
    {
        assert(all[i as int] == dicts@[i as int]@);
        if same(dicts[i].name.as_str(), name) {
            proof {
                lemma_dict_index(all, name@, i as int);
            }
            return Some(copy_names(&dicts[i].clip_names));
        }
        i = i + 1;
    }
    proof {
        lemma_dict_index(all, name@, i as int);
    }
    None
}

/// The marks of the first clip named `name` in the sets; none without such a clip.
pub open spec fn notifies_in(sets: Seq<AnimSet>, name: Seq<char>) -> Option<Seq<Notify>>
    decreases sets.len(),
{
    if sets.len() == 0 {
        None
    } else {
        match clip_notifies(sets[0].clips@, name) {
            Some(n) => Some(n),
            None => notifies_in(sets.drop_first(), name),
        }
    }
}

pub open spec fn clip_notifies(clips: Seq<AnimClip>, name: Seq<char>) -> Option<Seq<Notify>>
    decreases clips.len(),
{
    if clips.len() == 0 {
        None
    } else if clips[0].name@ == name {
        Some(clips[0].notifies@)
    } else {
        clip_notifies(clips.drop_first(), name)
    }
}

/// Two lists of marks say the same.
pub open spec fn same_notifies(a: Seq<Notify>, b: Seq<Notify>) -> bool {
    a.len() == b.len() && forall|i: int|
        0 <= i < a.len() ==> (#[trigger] a[i]).time == b[i].time && a[i].name@ == b[i].name@
}

fn copy_notifies(n: &Vec<Notify>) -> (r: Vec<Notify>)
    ensures
        same_notifies(r@, n@),
{
    let mut r: Vec<Notify> = Vec::new();
    let mut i: usize = 0;
    while i < n.len()
        invariant
            i <= n.len(),
            r.len() == i,
            forall|j: int|
                0 <= j < i ==> (#[trigger] r@[j]).time == n@[j].time && r@[j].name@ == n@[j].name@,
        decreases n.len() - i,
    {
        r.push(Notify { time: n[i].time, name: n[i].name.clone() });
        i = i + 1;
    }
    r
}

/// The marks of the first clip named `name`; an empty list without such a clip.
pub fn clip_marks(sets: &Vec<AnimSet>, name: &str) -> (r: Vec<Notify>)
    ensures
        match notifies_in(sets@, name@) {
            Some(n) => same_notifies(r@, n),
            None => r.len() == 0,
        },
{
    let mut i: usize = 0;
    assert(sets@.skip(0) =~= sets@);
    while i < sets.len()
        invariant
            i <= sets.len(),
            notifies_in(sets@, name@) == notifies_in(sets@.skip(i as int), name@),
        decreases sets.len() - i,
    {
        let clips = &sets[i].clips;
        assert(sets@.skip(i as int)[0] == sets@[i as int]);
        assert(sets@.skip(i as int).drop_first() =~= sets@.skip(i + 1));
        let mut j: usize = 0;
        assert(clips@.skip(0) =~= clips@);
        while j < clips.len()
            invariant
                j <= clips.len(),
                i < sets.len(),
                *clips == sets@[i as int].clips,
                sets@.skip(i as int)[0] == sets@[i as int],
                notifies_in(sets@, name@) == notifies_in(sets@.skip(i as int), name@),
                clip_notifies(clips@, name@) == clip_notifies(clips@.skip(j as int), name@),
            decreases clips.len() - j,
        {
            assert(clips@.skip(j as int)[0] == clips@[j as int]);
            assert(clips@.skip(j as int).drop_first() =~= clips@.skip(j + 1));
            if same(clips[j].name.as_str(), name) {
                return copy_notifies(&clips[j].notifies);
            }
            j = j + 1;
        }
        i = i + 1;
    }
    Vec::new()
}

/// The path of an animation set with the extension that such files carry.
pub open spec fn normalized_path(path: Seq<char>) -> Seq<char> {
    if has_tail(path, ".ads_anim"@) {
        path
    } else {
        path + ".ads_anim"@
    }
}

pub fn normalize_anim_set_path(path: &str) -> (r: String)
    ensures
        r@ == normalized_path(path@),
{
    let mut r = path.to_string();
    if !ends_with(path, ".ads_anim") {
        r.append(".ads_anim");
    }
    r
}

/// Normalising a path twice is normalising it once.
pub proof fn law_normalized_path_settles(path: Seq<char>)
    ensures
        normalized_path(normalized_path(path)) == normalized_path(path),
{
    let tail = ".ads_anim"@;
    if !has_tail(path, tail) {
        let full = path + tail;
        assert(full.skip(full.len() - tail.len()) =~= tail);
    }
}

/// No clip is listed twice.
pub proof fn law_clips_distinct(sets: Seq<AnimSet>)
    ensures
        distinct(all_clips(sets)),
    decreases sets.len(),
{
    if sets.len() > 0 {
        law_clips_distinct(sets.drop_last());
        lemma_with_names_distinct(all_clips(sets.drop_last()), clip_views(sets.last().clips@));
    }
}

/// No dictionary is listed twice.
pub proof fn law_dictionaries_distinct(sets: Seq<AnimSet>, once: bool)
    ensures
        distinct(dict_names(all_dicts(sets, once))),
    decreases sets.len(),
{
    if sets.len() > 0 {
        law_dictionaries_distinct(sets.drop_last(), once);
        lemma_with_dicts_distinct(
            all_dicts(sets.drop_last(), once),
            dict_views(sets.last().dictionaries@),
            once,
        );
    }
}

proof fn lemma_with_dicts_distinct(dicts: Seq<DictView>, more: Seq<DictView>, once: bool)
    requires
        distinct(dict_names(dicts)),
    ensures
        distinct(dict_names(with_dicts(dicts, more, once))),
    decreases more.len(),
{
    if more.len() > 0 {
        let mid = with_dicts(dicts, more.drop_last(), once);
        lemma_with_dicts_distinct(dicts, more.drop_last(), once);
        lemma_dict_index_is_first(mid, more.last().name);
        let end = with_dict(mid, more.last(), once);
        assert(dict_names(end) =~= with_name(dict_names(mid), more.last().name)) by {
            let i = dict_index(mid, more.last().name);
            if i < mid.len() {
                assert(dict_names(mid)[i] == more.last().name);
                assert(dict_names(mid).contains(more.last().name));
            } else {
                assert forall|j: int| 0 <= j < mid.len() implies dict_names(mid)[j]
                    != more.last().name by {
                    assert(mid[j].name != more.last().name);
                }
            }
        }
        lemma_with_name_distinct(dict_names(mid), more.last().name);
    }
}

/// Dictionaries that are merged without repetitions hold no clip twice.
pub proof fn law_dictionary_clips_distinct(sets: Seq<AnimSet>, i: int)
    requires
        0 <= i < all_dicts(sets, true).len(),
    ensures
        distinct(all_dicts(sets, true)[i].clips),
    decreases sets.len(),
{
    if sets.len() > 0 {
        let before = all_dicts(sets.drop_last(), true);
        assert forall|j: int| 0 <= j < before.len() implies distinct(
            (#[trigger] before[j]).clips,
        ) by {
            law_dictionary_clips_distinct(sets.drop_last(), j);
        }
        lemma_with_dicts_clips_distinct(before, dict_views(sets.last().dictionaries@));
        assert(distinct(all_dicts(sets, true)[i].clips));
    }
}

proof fn lemma_with_dicts_clips_distinct(dicts: Seq<DictView>, more: Seq<DictView>)
    requires
        forall|j: int| 0 <= j < dicts.len() ==> distinct((#[trigger] dicts[j]).clips),
    ensures
        forall|j: int|
            0 <= j < with_dicts(dicts, more, true).len() ==> distinct(
                (#[trigger] with_dicts(dicts, more, true)[j]).clips,
            ),
    decreases more.len(),
{
    if more.len() > 0 {
        let mid = with_dicts(dicts, more.drop_last(), true);
        lemma_with_dicts_clips_distinct(dicts, more.drop_last());
        let d = more.last();
        lemma_dict_index_is_first(mid, d.name);
        let i = dict_index(mid, d.name);
        if i < mid.len() {
            assert(distinct(mid[i].clips));
            lemma_with_names_distinct(mid[i].clips, d.clips);
        } else {
            lemma_with_names_distinct(Seq::empty(), d.clips);
        }
    }
}

proof fn lemma_all_clips(sets: Seq<AnimSet>, name: Seq<char>)
    ensures
        all_clips(sets).contains(name) <==> exists|i: int|
            0 <= i < sets.len() && clip_views((#[trigger] sets[i]).clips@).contains(name),
    decreases sets.len(),
{
    if sets.len() > 0 {
        let front = sets.drop_last();
        lemma_all_clips(front, name);
        lemma_with_names_contains(all_clips(front), clip_views(sets.last().clips@), name);
        if exists|i: int|
            0 <= i < front.len() && clip_views((#[trigger] front[i]).clips@).contains(name) {
            let i = choose|i: int|
                0 <= i < front.len() && clip_views((#[trigger] front[i]).clips@).contains(name);
            assert(sets[i] == front[i]);
        }
        if exists|i: int|
            0 <= i < sets.len() && clip_views((#[trigger] sets[i]).clips@).contains(name) {
            let i = choose|i: int|
                0 <= i < sets.len() && clip_views((#[trigger] sets[i]).clips@).contains(name);
            if i < front.len() {
                assert(front[i] == sets[i]);
            }
        }
        if clip_views(sets.last().clips@).contains(name) {
            assert(clip_views(sets[sets.len() - 1].clips@).contains(name));
        }
    }
}

/// The listed clips are exactly those of the sets, each once.
pub proof fn law_clip_names_collected(sets: &Vec<AnimSet>, r: Vec<String>, i: int, k: int, x: Seq<char>)
    requires
        call_ensures(collect_clip_names, (sets,), r),
    ensures
        distinct(views(r@)),
        0 <= i < sets@.len() && 0 <= k < sets@[i].clips@.len() ==> views(r@).contains(
            sets@[i].clips@[k].name@,
        ),
        views(r@).contains(x) ==> exists|j: int, c: int|
            0 <= j < sets@.len() && 0 <= c < sets@[j].clips@.len()
                && #[trigger] sets@[j].clips@[c].name@ == x,
{
    law_clips_distinct(sets@);
    lemma_all_clips(sets@, x);
    if 0 <= i < sets@.len() && 0 <= k < sets@[i].clips@.len() {
        let name = sets@[i].clips@[k].name@;
        lemma_all_clips(sets@, name);
        assert(clip_views(sets@[i].clips@)[k] == name);
        assert(clip_views(sets@[i].clips@).contains(name));
    }
    if views(r@).contains(x) {
        let j = choose|j: int|
            0 <= j < sets@.len() && clip_views((#[trigger] sets@[j]).clips@).contains(x);
        let names = clip_views(sets@[j].clips@);
        let c = choose|c: int| 0 <= c < names.len() && names[c] == x;
        assert(sets@[j].clips@[c].name@ == x);
    }
}

/// Some dictionary of the name holds the clip.
pub open spec fn holds_clip(dicts: Seq<DictView>, name: Seq<char>, clip: Seq<char>) -> bool {
    exists|i: int|
        0 <= i < dicts.len() && (#[trigger] dicts[i]).name == name && dicts[i].clips.contains(clip)
}

proof fn lemma_with_dict(
    dicts: Seq<DictView>,
    d: DictView,
    once: bool,
    name: Seq<char>,
    clip: Seq<char>,
)
    ensures
        holds_clip(with_dict(dicts, d, once), name, clip) <==> holds_clip(dicts, name, clip) || (
        d.name == name && d.clips.contains(clip)),
{
    let i = dict_index(dicts, d.name);
    let all = with_dict(dicts, d, once);
    lemma_dict_index_is_first(dicts, d.name);
    if i < dicts.len() {
        lemma_with_names_contains(dicts[i].clips, d.clips, clip);
        if holds_clip(dicts, name, clip) {
            let k = choose|k: int|
                0 <= k < dicts.len() && (#[trigger] dicts[k]).name == name
                    && dicts[k].clips.contains(clip);
            assert(all[k].name == name && all[k].clips.contains(clip));
        }
        if d.name == name && d.clips.contains(clip) {
            assert(all[i].name == name && all[i].clips.contains(clip));
        }
        if holds_clip(all, name, clip) {
            let k = choose|k: int|
                0 <= k < all.len() && (#[trigger] all[k]).name == name && all[k].clips.contains(
                    clip,
                );
            if k != i || dicts[i].clips.contains(clip) {
                assert(dicts[k].name == name && dicts[k].clips.contains(clip));
            }
        }
    } else {
        lemma_with_names_contains(Seq::empty(), d.clips, clip);
        assert(all.last().name == d.name);
        assert(all.last().clips.contains(clip) <==> d.clips.contains(clip));
        if holds_clip(dicts, name, clip) {
            let k = choose|k: int|
                0 <= k < dicts.len() && (#[trigger] dicts[k]).name == name
                    && dicts[k].clips.contains(clip);
            assert(all[k] == dicts[k]);
        }
        if d.name == name && d.clips.contains(clip) {
            assert(all[dicts.len() as int].name == name);
        }
        if holds_clip(all, name, clip) {
            let k = choose|k: int|
                0 <= k < all.len() && (#[trigger] all[k]).name == name && all[k].clips.contains(
                    clip,
                );
            if k < dicts.len() {
                assert(dicts[k] == all[k]);
            }
        }
    }
}

proof fn lemma_with_dicts(
    dicts: Seq<DictView>,
    more: Seq<DictView>,
    once: bool,
    name: Seq<char>,
    clip: Seq<char>,
)
    ensures
        holds_clip(with_dicts(dicts, more, once), name, clip) <==> holds_clip(dicts, name, clip)
            || holds_clip(more, name, clip),
    decreases more.len(),
{
    if more.len() > 0 {
        let front = more.drop_last();
        lemma_with_dicts(dicts, front, once, name, clip);
        lemma_with_dict(with_dicts(dicts, front, once), more.last(), once, name, clip);
        if holds_clip(front, name, clip) {
            let k = choose|k: int|
                0 <= k < front.len() && (#[trigger] front[k]).name == name
                    && front[k].clips.contains(clip);
            assert(more[k] == front[k]);
        }
        if holds_clip(more, name, clip) {
            let k = choose|k: int|
                0 <= k < more.len() && (#[trigger] more[k]).name == name && more[k].clips.contains(
                    clip,
                );
            if k < front.len() {
                assert(front[k] == more[k]);
            }
        }
        if more.last().name == name && more.last().clips.contains(clip) {
            assert(more[more.len() - 1].name == name);
        }
    }
}

proof fn lemma_all_dicts(sets: Seq<AnimSet>, once: bool, name: Seq<char>, clip: Seq<char>)
    ensures
        holds_clip(all_dicts(sets, once), name, clip) <==> exists|i: int|
            0 <= i < sets.len() && holds_clip(
                dict_views((#[trigger] sets[i]).dictionaries@),
                name,
                clip,
            ),
    decreases sets.len(),
{
    if sets.len() > 0 {
        let front = sets.drop_last();
        lemma_all_dicts(front, once, name, clip);
        lemma_with_dicts(
            all_dicts(front, once),
            dict_views(sets.last().dictionaries@),
            once,
            name,
            clip,
        );
        if exists|i: int|
            0 <= i < front.len() && holds_clip(
                dict_views((#[trigger] front[i]).dictionaries@),
                name,
                clip,
            ) {
            let i = choose|i: int|
                0 <= i < front.len() && holds_clip(
                    dict_views((#[trigger] front[i]).dictionaries@),
                    name,
                    clip,
                );
            assert(sets[i] == front[i]);
        }
        if exists|i: int|
            0 <= i < sets.len() && holds_clip(
                dict_views((#[trigger] sets[i]).dictionaries@),
                name,
                clip,
            ) {
            let i = choose|i: int|
                0 <= i < sets.len() && holds_clip(
                    dict_views((#[trigger] sets[i]).dictionaries@),
                    name,
                    clip,
                );
            if i < front.len() {
                assert(front[i] == sets[i]);
            }
        }
        if holds_clip(dict_views(sets.last().dictionaries@), name, clip) {
            assert(holds_clip(dict_views(sets[sets.len() - 1].dictionaries@), name, clip));
        }
    }
}

/// Merged dictionaries: each name once, and the dictionary of a name holds the
/// clips that those of the name hold in any of the sets.
pub proof fn law_dictionaries_merged(
    sets: &Vec<AnimSet>,
    once: bool,
    r: Vec<AnimDictionary>,
    name: Seq<char>,
    clip: Seq<char>,
)
    requires
        call_ensures(merge_dictionaries, (sets, once), r),
    ensures
        distinct(dict_names(dict_views(r@))),
        holds_clip(dict_views(r@), name, clip) <==> exists|i: int|
            0 <= i < sets@.len() && holds_clip(
                dict_views((#[trigger] sets@[i]).dictionaries@),
                name,
                clip,
            ),
        once ==> forall|k: int|
            0 <= k < r@.len() ==> distinct(views((#[trigger] r@[k]).clip_names@)),
{
    law_dictionaries_distinct(sets@, once);
    lemma_all_dicts(sets@, once, name, clip);
    assert(dict_views(r@).len() == r@.len());
    if once {
        assert forall|k: int| 0 <= k < r@.len() implies distinct(
            views((#[trigger] r@[k]).clip_names@),
        ) by {
            law_dictionary_clips_distinct(sets@, k);
            assert(dict_views(r@)[k] == r@[k]@);
        }
    }
}

/// The clips of a dictionary are those of the first one of the name.
pub proof fn law_clips_of(
    dicts: &Vec<AnimDictionary>,
    name: &str,
    r: Option<Vec<String>>,
    i: int,
)
    requires
        call_ensures(clips_of, (dicts, name), r),
        0 <= i <= dicts@.len(),
        forall|j: int| 0 <= j < i ==> (#[trigger] dicts@[j]).name@ != name@,
        i < dicts@.len() ==> dicts@[i].name@ == name@,
    ensures
        i == dicts@.len() ==> r is None,
        i < dicts@.len() ==> r is Some && views(r->0@) == views(dicts@[i].clip_names@),
{
    let all = dict_views(dicts@);
    assert forall|j: int| 0 <= j < i implies (#[trigger] all[j]).name != name@ by {
        assert(dicts@[j].name@ != name@);
    }
    lemma_dict_index(all, name@, i);
}

proof fn lemma_notifies_in(sets: Seq<AnimSet>, name: Seq<char>, i: int, k: int)
    requires
        0 <= i < sets.len(),
        0 <= k < sets[i].clips@.len(),
        sets[i].clips@[k].name@ == name,
        forall|c: int| 0 <= c < k ==> (#[trigger] sets[i].clips@[c]).name@ != name,
        forall|j: int, c: int|
            0 <= j < i && 0 <= c < sets[j].clips@.len() ==> (
            #[trigger] sets[j].clips@[c]).name@ != name,
    ensures
        notifies_in(sets, name) == Some(sets[i].clips@[k].notifies@),
    decreases i,
{
    if i == 0 {
        lemma_clip_notifies(sets[0].clips@, name, k);
    } else {
        lemma_no_clip_notifies(sets[0].clips@, name);
        let rest = sets.drop_first();
        assert(rest[i - 1] == sets[i]);
        assert forall|j: int, c: int|
            0 <= j < i - 1 && 0 <= c < rest[j].clips@.len() implies (
        #[trigger] rest[j].clips@[c]).name@ != name by {
            assert(rest[j] == sets[j + 1]);
            assert(sets[j + 1].clips@[c].name@ != name);
        }
        lemma_notifies_in(rest, name, i - 1, k);
    }
}

proof fn lemma_clip_notifies(clips: Seq<AnimClip>, name: Seq<char>, k: int)
    requires
        0 <= k < clips.len(),
        clips[k].name@ == name,
        forall|c: int| 0 <= c < k ==> (#[trigger] clips[c]).name@ != name,
    ensures
        clip_notifies(clips, name) == Some(clips[k].notifies@),
    decreases k,
{
    if k > 0 {
        let rest = clips.drop_first();
        assert(clips[0].name@ != name);
        assert forall|c: int| 0 <= c < k - 1 implies (#[trigger] rest[c]).name@ != name by {
            assert(rest[c] == clips[c + 1]);
        }
        lemma_clip_notifies(rest, name, k - 1);
    }
}

proof fn lemma_no_clip_notifies(clips: Seq<AnimClip>, name: Seq<char>)
    requires
        forall|c: int| 0 <= c < clips.len() ==> (#[trigger] clips[c]).name@ != name,
    ensures
        clip_notifies(clips, name) is None,
    decreases clips.len(),
{
    if clips.len() > 0 {
        let rest = clips.drop_first();
        assert(clips[0].name@ != name);
        assert forall|c: int| 0 <= c < rest.len() implies (#[trigger] rest[c]).name@ != name by {
            assert(rest[c] == clips[c + 1]);
        }
        lemma_no_clip_notifies(rest, name);
    }
}

proof fn lemma_no_notifies_in(sets: Seq<AnimSet>, name: Seq<char>)
    requires
        forall|j: int, c: int|
            0 <= j < sets.len() && 0 <= c < sets[j].clips@.len() ==> (
            #[trigger] sets[j].clips@[c]).name@ != name,
    ensures
        notifies_in(sets, name) is None,
    decreases sets.len(),
{
    if sets.len() > 0 {
        let rest = sets.drop_first();
        lemma_no_clip_notifies(sets[0].clips@, name);
        assert forall|j: int, c: int|
            0 <= j < rest.len() && 0 <= c < rest[j].clips@.len() implies (
        #[trigger] rest[j].clips@[c]).name@ != name by {
            assert(rest[j] == sets[j + 1]);
            assert(sets[j + 1].clips@[c].name@ != name);
        }
        lemma_no_notifies_in(rest, name);
    }
}

/// The marks of a clip are those of the first clip of its name, in the first set
/// that has one: each mark with its time and its name, in order.
pub proof fn law_clip_marks(sets: &Vec<AnimSet>, name: &str, r: Vec<Notify>, i: int, k: int)
    requires
        call_ensures(clip_marks, (sets, name), r),
        0 <= i < sets@.len(),
        0 <= k < sets@[i].clips@.len(),
        sets@[i].clips@[k].name@ == name@,
        forall|c: int| 0 <= c < k ==> (#[trigger] sets@[i].clips@[c]).name@ != name@,
        forall|j: int, c: int|
            0 <= j < i && 0 <= c < sets@[j].clips@.len() ==> (
            #[trigger] sets@[j].clips@[c]).name@ != name@,
    ensures
        r@.len() == sets@[i].clips@[k].notifies@.len(),
        forall|n: int|
            0 <= n < r@.len() ==> (#[trigger] r@[n]).time == sets@[i].clips@[k].notifies@[n].time
                && r@[n].name@ == sets@[i].clips@[k].notifies@[n].name@,
{
    lemma_notifies_in(sets@, name@, i, k);
    assert(same_notifies(r@, sets@[i].clips@[k].notifies@));
}

/// A name that no clip has gives no marks.
pub proof fn law_no_clip_marks(sets: &Vec<AnimSet>, name: &str, r: Vec<Notify>)
    requires
        call_ensures(clip_marks, (sets, name), r),
        forall|j: int, c: int|
            0 <= j < sets@.len() && 0 <= c < sets@[j].clips@.len() ==> (
            #[trigger] sets@[j].clips@[c]).name@ != name@,
    ensures
        r@.len() == 0,
{
    lemma_no_notifies_in(sets@, name@);
}

/// A path of an animation set ends in `.ads_anim`: one that does stays, and any
/// other one gets it.
pub proof fn law_anim_set_path(path: &str, base: Seq<char>, r: String)
    requires
        call_ensures(normalize_anim_set_path, (path,), r),
    ensures
        path@ == base + ".ads_anim"@ ==> r@ == path@,
        (forall|b: Seq<char>| path@ != #[trigger] (b + ".ads_anim"@)) ==> r@ == path@
            + ".ads_anim"@,
{
    let tail = ".ads_anim"@;
    if path@ == base + tail {
        assert(path@.skip(path@.len() - tail.len()) =~= tail);
    }
    if has_tail(path@, tail) {
        assert(path@ =~= path@.take(path@.len() - tail.len()) + tail);
    }
}

} // verus!
