//! The animation browser of the model viewer.

use vstd::prelude::*;

use crate::anim_sets::{
    all_clips, all_dicts, clip_marks, collect_clip_names, dict_names, dict_views,
    merge_dictionaries, notifies_in, AnimDictionary, AnimSet, Notify,
};
use crate::gameplay::animation::AnimationState;
use crate::names::{copy_names, same_names, views};
use crate::scalar::{scalar, Scalar, ONE, ZERO};
use crate::text::{all_white, lemma_blank, trim, trimmed};

verus! {

/// The bones that an animation moves.
pub const ADM_ANIM_MASK_ALL: u32 = 1;

pub const ADM_ANIM_MASK_RIGHT_UPPER_LIMB: u32 = 14;

pub const ADM_ANIM_MASK_LEFT_UPPER_LIMB: u32 = 112;

pub const ADM_ANIM_MASK_LOWER_BODY: u32 = 8064;

pub const ADM_ANIM_MASK_UPPER_BODY: u32 = 24576;

/// The lower body and the right arm together.
pub const ADM_ANIM_MASK_RIDE: u32 = 8078;

/// The browser: the model that it animates, its dictionaries and the clips of
/// the chosen one, and how the chosen clip plays.
#[derive(Clone, Debug)]
pub struct AdmAnimationBrowser {
    pub root: Option<u64>,
    pub model_name: Option<String>,
    pub dictionaries: Vec<String>,
    pub selected_dict_idx: usize,
    pub clips: Vec<String>,
    pub selected_idx: usize,
    pub flags: u32,
    pub speed: Scalar,
    pub looping: bool,
    pub paused: bool,
    /// The marks of the chosen clip.
    pub notifies: Vec<Notify>,
}

/// The browser as the contracts see it.
pub struct BrowserView {
    pub root: Option<u64>,
    pub model: Option<Seq<char>>,
    pub dicts: Seq<Seq<char>>,
    pub dict: usize,
    pub clips: Seq<Seq<char>>,
    pub clip: usize,
    pub flags: u32,
    pub speed: Scalar,
    pub looping: bool,
    pub paused: bool,
    pub marks: Seq<(Scalar, Seq<char>)>,
}

pub open spec fn mark_views(v: Seq<Notify>) -> Seq<(Scalar, Seq<char>)> {
    v.map_values(|n: Notify| (n.time, n.name@))
}

impl View for AdmAnimationBrowser {
    type V = BrowserView;

    open spec fn view(&self) -> BrowserView {
        BrowserView {
            root: self.root,
            model: match self.model_name {
                Some(m) => Some(m@),
                None => None,
            },
            dicts: views(self.dictionaries@),
            dict: self.selected_dict_idx,
            clips: views(self.clips@),
            clip: self.selected_idx,
            flags: self.flags,
            speed: self.speed,
            looping: self.looping,
            paused: self.paused,
            marks: mark_views(self.notifies@),
        }
    }
}

impl Default for AdmAnimationBrowser {
    fn default() -> (r: Self)
        ensures
            r@ == (BrowserView {
                root: None,
                model: None,
                dicts: Seq::empty(),
                dict: 0,
                clips: Seq::empty(),
                clip: 0,
                flags: 0,
                speed: scalar(ZERO),
                looping: false,
                paused: false,
                marks: Seq::empty(),
            }),
            r@.wf(),
    {
        let r = AdmAnimationBrowser {
            root: None,
            model_name: None,
            dictionaries: Vec::new(),
            selected_dict_idx: 0,
            clips: Vec::new(),
            selected_idx: 0,
            flags: 0,
            speed: scalar(ZERO),
            looping: false,
            paused: false,
            notifies: Vec::new(),
        };
        proof {
            assert(views(r.dictionaries@) =~= Seq::<Seq<char>>::empty());
            assert(views(r.clips@) =~= Seq::<Seq<char>>::empty());
            assert(mark_views(r.notifies@) =~= Seq::<(Scalar, Seq<char>)>::empty());
        }
        r
    }
}

impl BrowserView {
    /// What is chosen is there, where there is anything to choose from; else the
    /// choice is the first place.
    pub open spec fn wf(self) -> bool {
        &&& self.dict < self.dicts.len() || (self.dicts.len() == 0 && self.dict == 0)
        &&& self.root is Some ==> self.clip < self.clips.len() || (self.clips.len() == 0
            && self.clip == 0)
    }
}

/// The keys that the browser reads, each true where it was just pressed.
#[derive(Clone, Copy, PartialEq, Eq, Structural, Debug)]
pub struct AnimKeys {
    pub prev_dict: bool,
    pub next_dict: bool,
    pub pause: bool,
    pub next_clip: bool,
    pub prev_clip: bool,
    /// The digit from 1 to 6 that was pressed, the lowest one of several.
    pub mask: Option<u8>,
}

/// The place before `i` among `n`, the last one before the first.
pub open spec fn before(i: usize, n: nat) -> usize {
    if i == 0 {
        (n - 1) as usize
    } else {
        (i - 1) as usize
    }
}

/// The place behind `i` among `n`, the first one behind the last.
pub open spec fn behind(i: usize, n: nat) -> usize {
    ((i + 1) % n as int) as usize
}

/// The browser after the keys for its dictionaries. Another dictionary starts
/// with its first clip.
pub open spec fn after_dict_keys(b: BrowserView, k: AnimKeys) -> BrowserView {
    if b.dicts.len() == 0 {
        b
    } else {
        let n = b.dicts.len();
        let up = if k.prev_dict {
            BrowserView { dict: before(b.dict, n), clip: 0, ..b }
        } else {
            b
        };
        if k.next_dict {
            BrowserView { dict: behind(up.dict, n), clip: 0, ..up }
        } else {
            up
        }
    }
}

pub open spec fn mask_of(digit: Option<u8>, flags: u32) -> u32 {
    match digit {
        Some(1) => ADM_ANIM_MASK_ALL,
        Some(2) => ADM_ANIM_MASK_LOWER_BODY,
        Some(3) => ADM_ANIM_MASK_UPPER_BODY,
        Some(4) => ADM_ANIM_MASK_RIGHT_UPPER_LIMB,
        Some(5) => ADM_ANIM_MASK_LEFT_UPPER_LIMB,
        Some(6) => ADM_ANIM_MASK_RIDE,
        _ => flags,
    }
}

/// The browser after the keys for its clips.
pub open spec fn after_clip_keys(b: BrowserView, k: AnimKeys) -> BrowserView {
    if b.clips.len() == 0 {
        b
    } else {
        let n = b.clips.len();
        let on = if k.next_clip {
            behind(b.clip, n)
        } else {
            b.clip
        };
        let back = if k.prev_clip {
            before(on, n)
        } else {
            on
        };
        BrowserView {
            paused: b.paused != k.pause,
            clip: back,
            flags: mask_of(k.mask, b.flags),
            ..b
        }
    }
}

/// The browser after the keys of a frame; without a model it takes none.
pub open spec fn after_keys(b: BrowserView, k: AnimKeys) -> BrowserView {
    if b.root is None {
        b
    } else {
        after_clip_keys(after_dict_keys(b, k), k)
    }
}

/// The keys keep the choice among what there is.
pub proof fn law_keys_keep_choice(b: BrowserView, k: AnimKeys)
    requires
        b.wf(),
        b.dicts.len() <= usize::MAX,
        b.clips.len() <= usize::MAX,
    ensures
        after_keys(b, k).wf(),
        after_keys(b, k).dicts == b.dicts,
        after_keys(b, k).clips == b.clips,
{
}

/// A step forward and a step back choose the same clip again.
pub proof fn law_step_back_undoes(i: usize, n: nat)
    requires
        i < n <= usize::MAX,
    ensures
        before(behind(i, n), n) == i,
        behind(before(i, n), n) == i,
{
    if i + 1 == n {
        vstd::arithmetic::div_mod::lemma_mod_self_0(n as int);
    } else {
        vstd::arithmetic::div_mod::lemma_small_mod((i + 1) as nat, n);
    }
    if i == 0 {
        vstd::arithmetic::div_mod::lemma_mod_self_0(n as int);
    } else {
        vstd::arithmetic::div_mod::lemma_small_mod(i as nat, n);
    }
}

/// A model that can be animated: its entity, its name, and the animation sets
/// that are attached to it and there.
#[derive(Clone, Debug)]
pub struct AnimRoot {
    pub entity: u64,
    pub model: String,
    pub sets: Vec<AnimSet>,
}

/// The index of a model, or the number of models.
pub open spec fn root_index(roots: Seq<AnimRoot>, entity: u64) -> int
    decreases roots.len(),
{
    if roots.len() == 0 || roots[0].entity == entity {
        0
    } else {
        1 + root_index(roots.drop_first(), entity)
    }
}

/// The index of the first model with clips, or the number of models.
pub open spec fn first_with_clips(roots: Seq<AnimRoot>) -> int
    decreases roots.len(),
{
    if roots.len() == 0 || all_clips(roots[0].sets@).len() > 0 {
        0
    } else {
        1 + first_with_clips(roots.drop_first())
    }
}

/// The clips of the chosen dictionary, or all clips without dictionaries.
pub open spec fn chosen_clips(sets: Seq<AnimSet>, dict: usize) -> Seq<Seq<char>> {
    let dicts = all_dicts(sets, true);
    if dict < dicts.len() {
        dicts[dict as int].clips
    } else {
        all_clips(sets)
    }
}

/// The marks of the chosen clip.
pub open spec fn chosen_marks(sets: Seq<AnimSet>, clips: Seq<Seq<char>>, clip: usize) -> Seq<
    (Scalar, Seq<char>),
> {
    if clip < clips.len() {
        match notifies_in(sets, clips[clip as int]) {
            Some(n) => mark_views(n),
            None => Seq::empty(),
        }
    } else {
        Seq::empty()
    }
}

pub open spec fn within(i: usize, n: nat) -> usize {
    if i >= n {
        0
    } else {
        i
    }
}

/// The browser once its model is gone.
pub open spec fn let_go(b: BrowserView, roots: Seq<AnimRoot>) -> BrowserView {
    match b.root {
        Some(e) if root_index(roots, e) >= roots.len() => BrowserView {
            root: None,
            clips: Seq::empty(),
            ..b
        },
        _ => b,
    }
}

/// The browser as it takes up a model.
pub open spec fn taken_up(b: BrowserView, root: AnimRoot) -> BrowserView {
    let sets = root.sets@;
    let dicts = dict_names(all_dicts(sets, true));
    let dict = within(b.dict, dicts.len());
    let clips = chosen_clips(sets, dict);
    BrowserView {
        root: Some(root.entity),
        model: Some(root.model@),
        dicts,
        dict,
        clips,
        clip: 0,
        flags: ADM_ANIM_MASK_ALL,
        speed: scalar(ONE),
        looping: true,
        paused: false,
        marks: chosen_marks(sets, clips, 0),
    }
}

/// The browser with what its model has now.
pub open spec fn refreshed(b: BrowserView, root: AnimRoot) -> BrowserView {
    let sets = root.sets@;
    let dicts = dict_names(all_dicts(sets, true));
    let changed = dicts != b.dicts;
    let dict = if changed {
        within(b.dict, dicts.len())
    } else {
        b.dict
    };
    let start = if changed {
        0
    } else {
        b.clip
    };
    let clips = chosen_clips(sets, dict);
    let clip = if clips != b.clips {
        within(start, clips.len())
    } else {
        start
    };
    BrowserView {
        model: Some(root.model@),
        dicts,
        dict,
        clips,
        clip,
        marks: chosen_marks(sets, clips, clip),
        ..b
    }
}

/// The browser after a look at the models: one that is gone is let go, the first
/// one with clips is taken up where there is none, and the one that there is is
/// looked at again.
pub open spec fn synced(b: BrowserView, roots: Seq<AnimRoot>) -> BrowserView {
    let freed = let_go(b, roots);
    let i = first_with_clips(roots);
    let held = if freed.root is None && i < roots.len() {
        taken_up(freed, roots[i])
    } else {
        freed
    };
    match held.root {
        Some(e) if root_index(roots, e) < roots.len() => refreshed(
            held,
            roots[root_index(roots, e)],
        ),
        _ => held,
    }
}

/// A look at the models leaves the choice among what there is.
pub proof fn law_sync_keeps_choice(b: BrowserView, roots: Seq<AnimRoot>)
    requires
        b.wf(),
    ensures
        synced(b, roots).wf(),
{
}

/// A second look at the same models changes nothing.
pub proof fn law_sync_settles(b: BrowserView, roots: Seq<AnimRoot>)
    requires
        b.wf(),
    ensures
        synced(synced(b, roots), roots) == synced(b, roots),
{
    lemma_root_index(roots);
}

proof fn lemma_root_index(roots: Seq<AnimRoot>)
    ensures
        first_with_clips(roots) < roots.len() ==> root_index(
            roots,
            roots[first_with_clips(roots)].entity,
        ) < roots.len(),
        0 <= first_with_clips(roots) <= roots.len(),
    decreases roots.len(),
{
    if roots.len() > 0 && all_clips(roots[0].sets@).len() == 0 {
        lemma_root_index(roots.drop_first());
        let i = first_with_clips(roots.drop_first());
        if i < roots.len() - 1 {
            assert(roots.drop_first()[i] == roots[i + 1]);
        }
    }
}

fn find_root(roots: &Vec<AnimRoot>, entity: u64) -> (r: Option<usize>)
    ensures
        match r {
            Some(i) => i < roots@.len() && i == root_index(roots@, entity),
            None => root_index(roots@, entity) >= roots@.len(),
        },
{
    let mut i: usize = 0;
    assert(roots@.skip(0) =~= roots@);
    while i < roots.len()
        invariant
            i <= roots.len(),
            root_index(roots@, entity) == i + root_index(roots@.skip(i as int), entity),
        decreases roots.len() - i,
    {
        assert(roots@.skip(i as int)[0] == roots@[i as int]);
        if roots[i].entity == entity {
            return Some(i);
        }
        assert(roots@.skip(i as int).drop_first() =~= roots@.skip(i + 1));
        i = i + 1;
    }
    None
}

fn find_with_clips(roots: &Vec<AnimRoot>) -> (r: Option<usize>)
    ensures
        match r {
            Some(i) => i < roots@.len() && i == first_with_clips(roots@),
            None => first_with_clips(roots@) >= roots@.len(),
        },
{
    let mut i: usize = 0;
    assert(roots@.skip(0) =~= roots@);
    while i < roots.len()
        invariant
            i <= roots.len(),
            first_with_clips(roots@) == i + first_with_clips(roots@.skip(i as int)),
        decreases roots.len() - i,
    {
        assert(roots@.skip(i as int)[0] == roots@[i as int]);
        let clips = collect_clip_names(&roots[i].sets);
        if clips.len() > 0 {
            assert(views(clips@).len() > 0);
            return Some(i);
        }
        assert(views(clips@).len() == 0);
        assert(roots@.skip(i as int).drop_first() =~= roots@.skip(i + 1));
        i = i + 1;
    }
    None
}

fn names_of(dicts: &Vec<AnimDictionary>) -> (r: Vec<String>)
    ensures
        views(r@) == dict_names(dict_views(dicts@)),
{
    let mut r: Vec<String> = Vec::new();
    let mut i: usize = 0;
    while i < dicts.len()
        invariant
            i <= dicts.len(),
            r@.len() == i,
            forall|j: int| 0 <= j < i ==> (#[trigger] r@[j])@ == dicts@[j].name@,
        decreases dicts.len() - i,
    {
        r.push(dicts[i].name.clone());
        i = i + 1;
    }
    assert(views(r@) =~= dict_names(dict_views(dicts@)));
    r
}

fn choose_clips(sets: &Vec<AnimSet>, dicts: &Vec<AnimDictionary>, dict: usize) -> (r: Vec<String>)
    requires
        dict_views(dicts@) == all_dicts(sets@, true),
    ensures
        views(r@) == chosen_clips(sets@, dict),
{
    assert(dict_views(dicts@).len() == dicts@.len());
    if dict < dicts.len() {
        assert(dict_views(dicts@)[dict as int] == dicts@[dict as int]@);
        copy_names(&dicts[dict].clip_names)
    } else {
        collect_clip_names(sets)
    }
}

fn choose_marks(sets: &Vec<AnimSet>, clips: &Vec<String>, clip: usize) -> (r: Vec<Notify>)
    ensures
        mark_views(r@) == chosen_marks(sets@, views(clips@), clip),
{
    if clip < clips.len() {
        let r = clip_marks(sets, clips[clip].as_str());
        proof {
            assert(views(clips@)[clip as int] == clips@[clip as int]@);
            match notifies_in(sets@, clips@[clip as int]@) {
                Some(n) => {
                    assert(mark_views(r@) =~= mark_views(n));
                },
                None => {
                    assert(mark_views(r@) =~= Seq::<(Scalar, Seq<char>)>::empty());
                },
            }
        }
        r
    } else {
        let r: Vec<Notify> = Vec::new();
        assert(mark_views(r@) =~= Seq::<(Scalar, Seq<char>)>::empty());
        r
    }
}

impl AdmAnimationBrowser {
    /// Takes the keys of a frame.
    pub fn handle_animation_keyboard(&mut self, k: AnimKeys)
        requires
            old(self).selected_dict_idx < usize::MAX,
            old(self).selected_idx < usize::MAX,
        ensures
            final(self)@ == after_keys(old(self)@, k),
            old(self)@.wf() ==> final(self)@.wf(),
    {
        proof {
            assert(views(self.dictionaries@).len() == self.dictionaries@.len());
            assert(views(self.clips@).len() == self.clips@.len());
        }
        if self.root.is_none() {
            return;
        }
        let dicts: usize = self.dictionaries.len();
        if dicts > 0 {
            if k.prev_dict {
                self.selected_dict_idx = if self.selected_dict_idx == 0 {
                    dicts - 1
                } else {
                    self.selected_dict_idx - 1
                };
                self.selected_idx = 0;
            }
            if k.next_dict {
                self.selected_dict_idx = (self.selected_dict_idx + 1) % dicts;
                self.selected_idx = 0;
            }
        }
        let clips: usize = self.clips.len();
        if clips == 0 {
            return;
        }
        if k.pause {
            self.paused = !self.paused;
        }
        if k.next_clip {
            self.selected_idx = (self.selected_idx + 1) % clips;
        }
        if k.prev_clip {
            self.selected_idx = if self.selected_idx == 0 {
                clips - 1
            } else {
                self.selected_idx - 1
            };
        }
        self.flags = match k.mask {
            Some(1) => ADM_ANIM_MASK_ALL,
            Some(2) => ADM_ANIM_MASK_LOWER_BODY,
            Some(3) => ADM_ANIM_MASK_UPPER_BODY,
            Some(4) => ADM_ANIM_MASK_RIGHT_UPPER_LIMB,
            Some(5) => ADM_ANIM_MASK_LEFT_UPPER_LIMB,
            Some(6) => ADM_ANIM_MASK_RIDE,
            _ => self.flags,
        };
    }

    fn take_up(&mut self, root: &AnimRoot)
        ensures
            final(self)@ == taken_up(old(self)@, *root),
    {
        let dicts = merge_dictionaries(&root.sets, true);
        self.root = Some(root.entity);
        self.model_name = Some(root.model.clone());
        self.dictionaries = names_of(&dicts);
        assert(views(self.dictionaries@).len() == self.dictionaries@.len());
        if self.selected_dict_idx >= self.dictionaries.len() {
            self.selected_dict_idx = 0;
        }
        self.clips = choose_clips(&root.sets, &dicts, self.selected_dict_idx);
        self.selected_idx = 0;
        self.flags = ADM_ANIM_MASK_ALL;
        self.speed = scalar(ONE);
        self.looping = true;
        self.paused = false;
        self.notifies = choose_marks(&root.sets, &self.clips, 0);
    }

    fn refresh(&mut self, root: &AnimRoot)
        ensures
            final(self)@ == refreshed(old(self)@, *root),
    {
        let dicts = merge_dictionaries(&root.sets, true);
        self.model_name = Some(root.model.clone());
        let names = names_of(&dicts);
        if !same_names(&names, &self.dictionaries) {
            self.dictionaries = names;
            assert(views(self.dictionaries@).len() == self.dictionaries@.len());
            if self.selected_dict_idx >= self.dictionaries.len() {
                self.selected_dict_idx = 0;
            }
            self.selected_idx = 0;
        }
        let clips = choose_clips(&root.sets, &dicts, self.selected_dict_idx);
        if !same_names(&clips, &self.clips) {
            self.clips = clips;
            assert(views(self.clips@).len() == self.clips@.len());
            if self.selected_idx >= self.clips.len() {
                self.selected_idx = 0;
            }
        }
        self.notifies = choose_marks(&root.sets, &self.clips, self.selected_idx);
    }

    /// Looks at the models that can be animated.
    pub fn sync_adm_animation_browser(&mut self, roots: &Vec<AnimRoot>)
        ensures
            final(self)@ == synced(old(self)@, roots@),
    {
        if let Some(entity) = self.root {
            if find_root(roots, entity).is_none() {
                self.root = None;
                self.clips = Vec::new();
                assert(views(self.clips@) =~= Seq::<Seq<char>>::empty());
            }
        }
        if self.root.is_none() {
            if let Some(i) = find_with_clips(roots) {
                self.take_up(&roots[i]);
            }
        }
        if let Some(entity) = self.root {
            if let Some(i) = find_root(roots, entity) {
                self.refresh(&roots[i]);
            }
        }
    }

    /// Has the model play the chosen clip; nothing without a model or a clip.
    pub fn apply_animation_browser_state(&self, state: &mut AnimationState)
        ensures
            if self.root is Some && self.selected_idx < self.clips@.len() {
                &&& final(state).current matches Some(c)
                &&& c@ == self.clips@[self.selected_idx as int]@
                &&& final(state).flags == self.flags
                &&& final(state).speed == self.speed
                &&& final(state).looping == self.looping
                &&& final(state).paused == self.paused
                &&& final(state).blend_time == old(state).blend_time
            } else {
                *final(state) == *old(state)
            },
    {
        if self.root.is_none() {
            return;
        }
        if self.selected_idx >= self.clips.len() {
            return;
        }
        state.current = Some(self.clips[self.selected_idx].clone());
        state.flags = self.flags;
        state.speed = self.speed;
        state.looping = self.looping;
        state.paused = self.paused;
    }
}

/// The panel of a diagnosis: hidden while there is nothing to say.
pub fn update_anim_debug_overlay(text: &str) -> (r: Option<String>)
    ensures
        r is Some <==> trimmed(text@).len() > 0,
        r matches Some(shown) ==> shown@ == text@,
{
    let t = trim(text);
    if t.as_str().is_empty() {
        None
    } else {
        Some(text.to_string())
    }
}

/// The keys of the dictionaries and the clips go round: a step forward from the
/// last one leads to the first, and a step back from the first to the last.
/// Another dictionary starts with its first clip.
pub proof fn law_browser_steps(b: &mut AdmAnimationBrowser, k: AnimKeys)
    requires
        call_ensures(AdmAnimationBrowser::handle_animation_keyboard, (b, k), ()),
        old(b)@.wf(),
        old(b).root is Some,
    ensures
        final(b)@.root == old(b)@.root && final(b)@.model == old(b)@.model,
        final(b)@.dicts == old(b)@.dicts && final(b)@.clips == old(b)@.clips,
        final(b)@.speed == old(b)@.speed && final(b)@.looping == old(b)@.looping,
        final(b)@.marks == old(b)@.marks,
        k.prev_dict == k.next_dict || old(b)@.dicts.len() == 0 ==> final(b).selected_dict_idx
            == old(b).selected_dict_idx,
        k.next_dict && !k.prev_dict && old(b)@.dicts.len() > 0 ==> final(b).selected_dict_idx == (
        if old(b).selected_dict_idx + 1 == old(b)@.dicts.len() {
            0
        } else {
            old(b).selected_dict_idx + 1
        }),
        k.prev_dict && !k.next_dict && old(b)@.dicts.len() > 0 ==> final(b).selected_dict_idx == (
        if old(b).selected_dict_idx == 0 {
            old(b)@.dicts.len() - 1
        } else {
            old(b).selected_dict_idx - 1
        }),
        k.next_clip == k.prev_clip && !k.prev_dict && !k.next_dict ==> final(b).selected_idx
            == old(b).selected_idx,
        k.next_clip && !k.prev_clip && !k.prev_dict && !k.next_dict && old(b)@.clips.len() > 0
            ==> final(b).selected_idx == (if old(b).selected_idx + 1 == old(b)@.clips.len() {
            0
        } else {
            old(b).selected_idx + 1
        }),
        k.prev_clip && !k.next_clip && !k.prev_dict && !k.next_dict && old(b)@.clips.len() > 0
            ==> final(b).selected_idx == (if old(b).selected_idx == 0 {
            old(b)@.clips.len() - 1
        } else {
            old(b).selected_idx - 1
        }),
        (k.prev_dict || k.next_dict) && old(b)@.dicts.len() > 0 && !k.next_clip && !k.prev_clip
            ==> final(b).selected_idx == 0,
{
    let o = old(b)@;
    assert(o.dicts.len() == old(b).dictionaries@.len());
    assert(o.clips.len() == old(b).clips@.len());
    assert(old(b).dictionaries@.len() == old(b).dictionaries.len());
    assert(old(b).clips@.len() == old(b).clips.len());
    if o.dicts.len() > 0 {
        law_step_back_undoes(o.dict, o.dicts.len());
        lemma_around(o.dict, o.dicts.len());
        lemma_around(before(o.dict, o.dicts.len()), o.dicts.len());
    }
    if o.clips.len() > 0 {
        law_step_back_undoes(o.clip, o.clips.len());
        lemma_around(o.clip, o.clips.len());
        law_step_back_undoes(0, o.clips.len());
    }
}

proof fn lemma_around(i: usize, n: nat)
    requires
        i < n <= usize::MAX,
    ensures
        behind(i, n) == (if i + 1 == n {
            0
        } else {
            i + 1
        }),
{
    if i + 1 < n {
        assert((i + 1) % n as int == i + 1) by (nonlinear_arith)
            requires
                0 <= i + 1 < n,
        ;
    } else {
        assert((i + 1) % n as int == 0) by (nonlinear_arith)
            requires
                i + 1 == n,
        ;
    }
}

/// The other keys: one holds and lets go, and each digit has its part of the body
/// move. Without a model no key does anything, and without clips these do not.
pub proof fn law_browser_switches(b: &mut AdmAnimationBrowser, k: AnimKeys)
    requires
        call_ensures(AdmAnimationBrowser::handle_animation_keyboard, (b, k), ()),
    ensures
        old(b).root is None ==> final(b)@ == old(b)@,
        old(b)@.clips.len() == 0 ==> final(b).paused == old(b).paused && final(b).flags == old(b).flags,
        old(b).root is Some && old(b)@.clips.len() > 0 ==> {
            &&& final(b).paused == (old(b).paused != k.pause)
            &&& k.mask == Some(1u8) ==> final(b).flags == 1
            &&& k.mask == Some(2u8) ==> final(b).flags == 8064
            &&& k.mask == Some(3u8) ==> final(b).flags == 24576
            &&& k.mask == Some(4u8) ==> final(b).flags == 14
            &&& k.mask == Some(5u8) ==> final(b).flags == 112
            &&& k.mask == Some(6u8) ==> final(b).flags == 8078
            &&& k.mask is None ==> final(b).flags == old(b).flags
        },
{
    let kept = final(b)@;
    let was = old(b)@;
    assert(kept.paused == final(b).paused && kept.flags == final(b).flags);
    assert(was.paused == old(b).paused && was.flags == old(b).flags);
}

proof fn lemma_root_at(roots: Seq<AnimRoot>, e: u64, i: int)
    requires
        0 <= i <= roots.len(),
        i < roots.len() ==> roots[i].entity == e,
        forall|j: int| 0 <= j < i ==> (#[trigger] roots[j]).entity != e,
    ensures
        root_index(roots, e) == i,
    decreases i,
{
    if i > 0 {
        let rest = roots.drop_first();
        assert(roots[0].entity != e);
        assert forall|j: int| 0 <= j < i - 1 implies (#[trigger] rest[j]).entity != e by {
            assert(rest[j] == roots[j + 1]);
        }
        lemma_root_at(rest, e, i - 1);
    }
}

proof fn lemma_first_with_clips(roots: Seq<AnimRoot>, i: int)
    requires
        0 <= i <= roots.len(),
        i < roots.len() ==> all_clips(roots[i].sets@).len() > 0,
        forall|j: int| 0 <= j < i ==> all_clips((#[trigger] roots[j]).sets@).len() == 0,
    ensures
        first_with_clips(roots) == i,
    decreases i,
{
    if i > 0 {
        let rest = roots.drop_first();
        assert(all_clips(roots[0].sets@).len() == 0);
        assert forall|j: int| 0 <= j < i - 1 implies all_clips((#[trigger] rest[j]).sets@).len()
            == 0 by {
            assert(rest[j] == roots[j + 1]);
        }
        lemma_first_with_clips(rest, i - 1);
    }
}

/// The model of the browser: the one that it has, as long as it is there, which
/// is model `k` of the list; else the first one with clips, model `i`. A model
/// that is taken up plays its first clip with its whole body, at its own speed,
/// over and over. `k` or `i` is the number of models where there is none.
pub proof fn law_browsed_model(
    b: &mut AdmAnimationBrowser,
    roots: &Vec<AnimRoot>,
    k: int,
    i: int,
)
    requires
        call_ensures(AdmAnimationBrowser::sync_adm_animation_browser, (b, roots), ()),
        0 <= i <= roots@.len() && 0 <= k <= roots@.len(),
        i < roots@.len() ==> all_clips(roots@[i].sets@).len() > 0,
        forall|j: int| 0 <= j < i ==> all_clips((#[trigger] roots@[j]).sets@).len() == 0,
        old(b).root is None ==> k == roots@.len(),
        old(b).root matches Some(e) ==> (k < roots@.len() ==> roots@[k].entity == e),
        old(b).root matches Some(e) ==> forall|j: int|
            0 <= j < k ==> (#[trigger] roots@[j]).entity != e,
        forall|j: int|
            0 <= j < roots@.len() && i < roots@.len() && (#[trigger] roots@[j]).entity
                == roots@[i].entity ==> j >= i,
    ensures
        k < roots@.len() ==> final(b).root == old(b).root && final(b)@.model == Some(
            roots@[k].model@,
        ) && final(b).flags == old(b).flags && final(b).speed == old(b).speed && final(b).looping
            == old(b).looping && final(b).paused == old(b).paused,
        k == roots@.len() && i < roots@.len() ==> final(b).root == Some(roots@[i].entity)
            && final(b)@.model == Some(roots@[i].model@) && final(b).selected_idx == 0
            && final(b).flags == 1 && final(b).speed == scalar(0x3f80_0000) && final(b).looping
            && !final(b).paused,
        k == roots@.len() && i == roots@.len() ==> final(b).root is None,
        k == roots@.len() && i == roots@.len() && old(b).root is Some ==> final(b).clips@.len()
            == 0,
{
    if old(b).root is Some {
        lemma_root_at(roots@, old(b).root->0, k);
    }
    lemma_first_with_clips(roots@, i);
    if i < roots@.len() {
        let e = roots@[i].entity;
        assert forall|j: int| 0 <= j < i implies (#[trigger] roots@[j]).entity != e by {}
        lemma_root_at(roots@, e, i);
    }
    let f = final(b)@;
    assert(f.root == final(b).root && f.flags == final(b).flags && f.speed == final(b).speed);
    assert(f.looping == final(b).looping && f.paused == final(b).paused && f.clip == final(b).selected_idx);
    assert(f.clips.len() == final(b).clips@.len());
}

/// What the model of the browser has: its dictionaries, the clips of the chosen
/// one or all of them without dictionaries, and the marks of the chosen clip. A
/// choice beyond the end falls back to the first place, and stays else.
pub proof fn law_browsed_clips(
    b: &mut AdmAnimationBrowser,
    roots: &Vec<AnimRoot>,
    k: int,
    all: Vec<String>,
)
    requires
        call_ensures(AdmAnimationBrowser::sync_adm_animation_browser, (b, roots), ()),
        0 <= k < roots@.len(),
        final(b).root == Some(roots@[k].entity),
        forall|j: int| 0 <= j < k ==> (#[trigger] roots@[j]).entity != roots@[k].entity,
        call_ensures(collect_clip_names, (&roots@[k].sets,), all),
        old(b)@.wf(),
    ensures
        final(b)@.dicts == dict_names(all_dicts(roots@[k].sets@, true)),
        final(b)@.dicts.len() == 0 ==> final(b)@.clips == views(all@),
        final(b)@.dicts.len() > 0 ==> final(b).selected_dict_idx < final(b)@.dicts.len()
            && final(b)@.clips == all_dicts(
            roots@[k].sets@,
            true,
        )[final(b).selected_dict_idx as int].clips,
        final(b).selected_dict_idx == old(b).selected_dict_idx || final(b).selected_dict_idx == 0,
        final(b).selected_idx < final(b)@.clips.len() ==> final(b)@.marks == (match notifies_in(
            roots@[k].sets@,
            final(b)@.clips[final(b).selected_idx as int],
        ) {
            Some(n) => mark_views(n),
            None => Seq::empty(),
        }),
        final(b).selected_idx < final(b)@.clips.len() || final(b).selected_idx == 0,
        old(b).root == final(b).root && final(b)@.dicts == old(b)@.dicts && final(b)@.clips == old(b)@.clips ==> final(b).selected_idx == old(b).selected_idx,
{
    law_sync_keeps_choice(old(b)@, roots@);
    lemma_root_at(roots@, roots@[k].entity, k);
    let f = final(b)@;
    assert(f.root == final(b).root && f.clip == final(b).selected_idx && f.dict == final(b).selected_dict_idx);
    assert(old(b)@.root == old(b).root && old(b)@.clip == old(b).selected_idx);
    assert(f.dicts.len() == all_dicts(roots@[k].sets@, true).len());
}

/// A model that plays what the browser chose, and none that has nothing chosen.
pub proof fn law_browser_plays(b: &AdmAnimationBrowser, state: &mut AnimationState)
    requires
        call_ensures(AdmAnimationBrowser::apply_animation_browser_state, (b, state), ()),
    ensures
        b.root is None || b.selected_idx >= b.clips@.len() ==> *final(state) == *old(state),
        b.root is Some && b.selected_idx < b.clips@.len() ==> (final(state).current matches Some(c)
            && c@ == b.clips@[b.selected_idx as int]@) && final(state).flags == b.flags && final(state).speed == b.speed && final(state).looping == b.looping && final(state).paused == b.paused
            && final(state).blend_time == old(state).blend_time,
{
}

/// The panel of a diagnosis is hidden exactly where there is nothing but blanks to
/// read.
pub proof fn law_diagnosis_panel(text: &str, r: Option<String>)
    requires
        call_ensures(update_anim_debug_overlay, (text,), r),
    ensures
        r is None <==> all_white(text@),
        r matches Some(shown) ==> shown@ == text@,
{
    lemma_blank(text@);
}

/// At first the browser has no model and nothing plays.
pub proof fn law_browser_start(r: AdmAnimationBrowser)
    requires
        call_ensures(AdmAnimationBrowser::default, (), r),
    ensures
        r.root is None && r.model_name is None,
        r.dictionaries@.len() == 0 && r.clips@.len() == 0 && r.notifies@.len() == 0,
        r.selected_dict_idx == 0 && r.selected_idx == 0 && r.flags == 0,
        r.speed == scalar(0) && !r.looping && !r.paused,
{
    let v = r@;
    assert(v.root == r.root && v.dict == r.selected_dict_idx && v.clip == r.selected_idx);
    assert(v.flags == r.flags && v.speed == r.speed && v.looping == r.looping && v.paused
        == r.paused);
    assert(v.dicts.len() == r.dictionaries@.len());
    assert(v.clips.len() == r.clips@.len());
    assert(v.marks.len() == r.notifies@.len());
}

} // verus!
