//! Feet on stairs: when the ground below them is probed, and how a leg bends.

use std::collections::{HashMap, HashSet};

use vstd::prelude::*;

use crate::gameplay::movement::{has_ground_contact_with_state, touches_ground, GroundHit};
use crate::gameplay::movement::{GROUND_CONTACT_DIST_ENTER, GROUND_CONTACT_DIST_EXIT};
use crate::gameplay::players::{find_player, lemma_player_index, player_index};
use crate::hierarchy::{
    bone_below, find_bone_entity, forest, law_found_bone_below_root, law_found_bone_named,
    law_nothing_found_means_none, marked_or_parent, named, none_marked, within_depth,
};
use crate::scalar::{scalar, Scalar, ONE, ZERO};

verus! {

/// Off stairs the feet are probed in every sixth frame.
pub const IK_OFF_STAIRS_DECIMATION_FRAMES: u64 = 6;

/// How many generations below a model its bones are looked for.
pub const BONE_SEARCH_DEPTH: u8 = 10;

/// 0.01: weights and heights below this count as none.
pub const NEGLIGIBLE: u32 = 0x3c23_d70a;

/// 0.001: legs with a shorter bone are left alone.
pub const MIN_BONE: u32 = 0x3a83_126f;

/// 0.000001: directions with a smaller squared length are not turned.
pub const MIN_DIRECTION: u32 = 0x3586_37bd;

/// 0.0001: a knee off the leg's axis by a larger squared distance points its way.
pub const MIN_KNEE: u32 = 0x38d1_b717;

/// 0.99999: directions whose cosine is not below this coincide.
pub const SAME_DIRECTION: u32 = 0x3f7f_ff58;

/// 0.003 m: smaller gaps to the step are left alone.
pub const SNAP_MIN_GAP: u32 = 0x3b44_9ba6;

/// -1.5 m/s: whoever falls at least that fast is not pulled down.
pub const SNAP_VEL_LIMIT: u32 = 0xbfc0_0000;

/// -1: the distance reported where nothing is below the player.
pub const NO_HIT: u32 = 0xbf80_0000;

/// What the probes of the feet found last.
#[derive(Clone, Copy, PartialEq, Eq, Structural, Debug)]
pub struct AdaptiveIkSampleCache {
    pub frame: u64,
    pub on_stairs: bool,
    pub left_foot_y: Scalar,
    pub right_foot_y: Scalar,
    pub sampled_this_frame: bool,
}

impl Default for AdaptiveIkSampleCache {
    fn default() -> (r: Self)
        ensures
            r == (AdaptiveIkSampleCache {
                frame: 0,
                on_stairs: false,
                left_foot_y: scalar(ZERO),
                right_foot_y: scalar(ZERO),
                sampled_this_frame: false,
            }),
    {
        AdaptiveIkSampleCache {
            frame: 0,
            on_stairs: false,
            left_foot_y: scalar(ZERO),
            right_foot_y: scalar(ZERO),
            sampled_this_frame: false,
        }
    }
}

/// The frame counter of the next frame; it starts over after its last value.
pub open spec fn next_frame(frame: u64) -> u64 {
    if frame == u64::MAX {
        0
    } else {
        (frame + 1) as u64
    }
}

/// What stands below the player in one frame.
#[derive(Clone, Copy, PartialEq, Eq, Structural, Debug)]
pub struct Below {
    pub entity: u64,
    pub distance: Scalar,
}

/// What a frame reports of the stairs.
#[derive(Clone, Copy, PartialEq, Eq, Structural, Debug)]
pub struct StairsReport {
    pub on_stairs: bool,
    /// On stairs and on the ground.
    pub reacting: bool,
    pub grounded: bool,
    pub hit_distance: Scalar,
    /// The feet are to be probed in this frame.
    pub sample_now: bool,
    /// Every frame, rather than every sixth.
    pub high_quality: bool,
}

/// Notes what is below the player and decides whether to probe the feet.
pub fn publish_stairs_state_to_lua(
    cache: &mut AdaptiveIkSampleCache,
    below: Option<Below>,
    grounded: bool,
    parents: &HashMap<u64, u64>,
    stairs: &HashSet<u64>,
) -> (r: StairsReport)
    requires
        forest(parents@),
    ensures
        ({
            let on = match below {
                Some(b) => !none_marked(parents@, stairs@, b.entity, 0),
                None => false,
            };
            let frame = next_frame(old(cache).frame);
            let sample = on || frame % IK_OFF_STAIRS_DECIMATION_FRAMES == 0;
            &&& *final(cache) == (AdaptiveIkSampleCache {
                frame,
                on_stairs: on,
                left_foot_y: old(cache).left_foot_y,
                right_foot_y: old(cache).right_foot_y,
                sampled_this_frame: sample,
            })
            &&& r == (StairsReport {
                on_stairs: on,
                reacting: on && grounded,
                grounded,
                hit_distance: match below {
                    Some(b) => b.distance,
                    None => scalar(NO_HIT),
                },
                sample_now: sample,
                high_quality: on,
            })
        }),
{
    let on_stairs = match below {
        Some(b) => marked_or_parent(parents, stairs, b.entity),
        None => false,
    };
    cache.on_stairs = on_stairs;
    cache.frame = cache.frame.wrapping_add(1);
    let sample_now = on_stairs || cache.frame % IK_OFF_STAIRS_DECIMATION_FRAMES == 0;
    cache.sampled_this_frame = sample_now;
    StairsReport {
        on_stairs,
        reacting: on_stairs && grounded,
        grounded,
        hit_distance: match below {
            Some(b) => b.distance,
            None => scalar(NO_HIT),
        },
        sample_now,
        high_quality: on_stairs,
    }
}

/// The heights that one foot's probes found: of a step surface, of anything.
#[derive(Clone, Copy, PartialEq, Eq, Structural, Debug)]
pub struct FootProbe {
    pub on_step: Option<Scalar>,
    pub on_any: Option<Scalar>,
}

/// The height for a foot: of a step, else of whatever is there, else the old one.
pub open spec fn probed(p: FootProbe, before: Scalar) -> Scalar {
    match (p.on_step, p.on_any) {
        (Some(y), _) => y,
        (None, Some(y)) => y,
        (None, None) => before,
    }
}

fn take_probe(p: FootProbe, before: Scalar) -> (r: Scalar)
    ensures
        r == probed(p, before),
{
    match p.on_step {
        Some(y) => y,
        None => match p.on_any {
            Some(y) => y,
            None => before,
        },
    }
}

/// Keeps what the probes of both feet found.
pub fn record_feet(cache: &mut AdaptiveIkSampleCache, left: FootProbe, right: FootProbe)
    ensures
        *final(cache) == (AdaptiveIkSampleCache {
            left_foot_y: probed(left, old(cache).left_foot_y),
            right_foot_y: probed(right, old(cache).right_foot_y),
            ..*old(cache)
        }),
{
    cache.left_foot_y = take_probe(left, cache.left_foot_y);
    cache.right_foot_y = take_probe(right, cache.right_foot_y);
}

/// A bone of a leg that has one of three spellings of its name.
pub open spec fn bone_by_names(
    children: Map<u64, Vec<u64>>,
    names: Map<u64, String>,
    root: u64,
    a: Seq<char>,
    b: Seq<char>,
    c: Seq<char>,
) -> Option<u64> {
    let depth = BONE_SEARCH_DEPTH as nat;
    match bone_below(children, names, root, a, depth) {
        Some(e) => Some(e),
        None => match bone_below(children, names, root, b, depth) {
            Some(e) => Some(e),
            None => bone_below(children, names, root, c, depth),
        },
    }
}

fn resolve_bone(
    root: u64,
    a: &str,
    b: &str,
    c: &str,
    children: &HashMap<u64, Vec<u64>>,
    names: &HashMap<u64, String>,
) -> (r: Option<u64>)
    ensures
        r == bone_by_names(children@, names@, root, a@, b@, c@),
{
    let first = find_bone_entity(root, a, children, names, BONE_SEARCH_DEPTH);
    if first.is_some() {
        return first;
    }
    let second = find_bone_entity(root, b, children, names, BONE_SEARCH_DEPTH);
    if second.is_some() {
        return second;
    }
    find_bone_entity(root, c, children, names, BONE_SEARCH_DEPTH)
}

/// The bones of one leg, as far as the model has them.
#[derive(Clone, Copy, PartialEq, Eq, Structural, Debug)]
pub struct LegBones {
    pub thigh: Option<u64>,
    pub shin: Option<u64>,
    pub foot: Option<u64>,
}

pub open spec fn left_bones(
    children: Map<u64, Vec<u64>>,
    names: Map<u64, String>,
    root: u64,
) -> LegBones {
    LegBones {
        thigh: bone_by_names(
            children,
            names,
            root,
            "DEF_thigh_l"@,
            "DEF-thigh_l"@,
            "DEF_thigh.L"@,
        ),
        shin: bone_by_names(
            children,
            names,
            root,
            "DEF_shin_l"@,
            "DEF-shin_l"@,
            "DEF_shin.L"@,
        ),
        foot: bone_by_names(
            children,
            names,
            root,
            "DEF_foot_l"@,
            "DEF-foot_l"@,
            "DEF_foot.L"@,
        ),
    }
}

/// The bones of the left leg of a model.
pub fn left_leg(
    root: u64,
    children: &HashMap<u64, Vec<u64>>,
    names: &HashMap<u64, String>,
) -> (r: LegBones)
    ensures
        r == left_bones(children@, names@, root),
{
    LegBones {
        thigh: resolve_bone(root, "DEF_thigh_l", "DEF-thigh_l", "DEF_thigh.L", children, names),
        shin: resolve_bone(root, "DEF_shin_l", "DEF-shin_l", "DEF_shin.L", children, names),
        foot: resolve_bone(root, "DEF_foot_l", "DEF-foot_l", "DEF_foot.L", children, names),
    }
}

pub open spec fn right_bones(
    children: Map<u64, Vec<u64>>,
    names: Map<u64, String>,
    root: u64,
) -> LegBones {
    LegBones {
        thigh: bone_by_names(
            children,
            names,
            root,
            "DEF_thigh_r"@,
            "DEF-thigh_r"@,
            "DEF_thigh.R"@,
        ),
        shin: bone_by_names(
            children,
            names,
            root,
            "DEF_shin_r"@,
            "DEF-shin_r"@,
            "DEF_shin.R"@,
        ),
        foot: bone_by_names(
            children,
            names,
            root,
            "DEF_foot_r"@,
            "DEF-foot_r"@,
            "DEF_foot.R"@,
        ),
    }
}

/// The bones of the right leg of a model.
pub fn right_leg(
    root: u64,
    children: &HashMap<u64, Vec<u64>>,
    names: &HashMap<u64, String>,
) -> (r: LegBones)
    ensures
        r == right_bones(children@, names@, root),
{
    LegBones {
        thigh: resolve_bone(root, "DEF_thigh_r", "DEF-thigh_r", "DEF_thigh.R", children, names),
        shin: resolve_bone(root, "DEF_shin_r", "DEF-shin_r", "DEF_shin.R", children, names),
        foot: resolve_bone(root, "DEF_foot_r", "DEF-foot_r", "DEF_foot.R", children, names),
    }
}

/// A model and the entity that it hangs on.
#[derive(Clone, Copy, PartialEq, Eq, Structural, Debug)]
pub struct ModelRoot {
    pub entity: u64,
    pub parent: u64,
}

/// The first model that hangs on `parent`.
pub open spec fn model_on(roots: Seq<ModelRoot>, parent: u64) -> Option<u64>
    decreases roots.len(),
{
    if roots.len() == 0 {
        None
    } else if roots[0].parent == parent {
        Some(roots[0].entity)
    } else {
        model_on(roots.drop_first(), parent)
    }
}

fn find_model(roots: &Vec<ModelRoot>, parent: u64) -> (r: Option<u64>)
    ensures
        r == model_on(roots@, parent),
{
    let mut i: usize = 0;
    assert(roots@.skip(0) =~= roots@);
    while i < roots.len()
        invariant
            i <= roots.len(),
            model_on(roots@, parent) == model_on(roots@.skip(i as int), parent),
        decreases roots.len() - i,
    {
        assert(roots@.skip(i as int).drop_first() =~= roots@.skip(i + 1));
        if roots[i].parent == parent {
            return Some(roots[i].entity);
        }
        i = i + 1;
    }
    None
}

/// The model of the local player, of whom `clients` and `entities` give the
/// client id and the entity of each player.
pub open spec fn local_model(
    local: Option<u64>,
    clients: Seq<u64>,
    entities: Seq<u64>,
    roots: Seq<ModelRoot>,
) -> Option<u64> {
    match local {
        None => None,
        Some(id) => if clients.contains(id) {
            model_on(roots, entities[player_index(clients, id)])
        } else {
            None
        },
    }
}

/// The legs of the local player's model; none where there is no such player or
/// the player has no model.
pub fn local_legs(
    local: Option<u64>,
    clients: &Vec<u64>,
    entities: &Vec<u64>,
    roots: &Vec<ModelRoot>,
    children: &HashMap<u64, Vec<u64>>,
    names: &HashMap<u64, String>,
) -> (r: Option<(LegBones, LegBones)>)
    requires
        clients.len() == entities.len(),
    ensures
        match (r, local_model(local, clients@, entities@, roots@)) {
            (Some(legs), Some(root)) => legs.0 == left_bones(children@, names@, root) && legs.1
                == right_bones(children@, names@, root),
            (None, None) => true,
            _ => false,
        },
{
    let id = match local {
        Some(id) => id,
        None => {
            return None;
        },
    };
    let entity = match find_player(clients, id) {
        Some(i) => entities[i],
        None => {
            return None;
        },
    };
    match find_model(roots, entity) {
        Some(root) => Some((left_leg(root, children, names), right_leg(root, children, names))),
        None => None,
    }
}

/// What a leg remembers between frames.
#[derive(Clone, Copy, PartialEq, Eq, Structural, Debug)]
pub struct FootIkBoneState {
    pub smooth_target_y: Scalar,
    pub blend_weight: Scalar,
}

/// What one frame of a leg is decided from.
#[derive(Clone, Copy, PartialEq, Eq, Structural, Debug)]
pub struct LegFrame {
    /// All three bones are there and have a place in the world.
    pub complete: bool,
    pub on_stairs: bool,
    pub foot_y: Scalar,
    /// Lengths of the thigh and of the shin.
    pub len_a: Scalar,
    pub len_b: Scalar,
    /// One fifth of the way from the foot to its target.
    pub eased_from_foot: Scalar,
    /// One fifth of the way from the smoothed target to the target.
    pub eased_from_smooth: Scalar,
    /// The weight and 0.15.
    pub weight_up: Scalar,
    /// The weight less 0.06.
    pub weight_down: Scalar,
}

/// What becomes of a leg in one frame.
#[derive(Clone, Copy, PartialEq, Eq, Structural, Debug)]
pub enum LegStep {
    /// Nothing.
    Skip,
    /// The leg gets a memory; it bends from the next frame on.
    Attach(FootIkBoneState),
    /// The memory changes; the leg keeps its pose.
    Rest(FootIkBoneState),
    /// The memory changes and the leg bends toward its target.
    Bend(FootIkBoneState),
}

/// The memory of a leg after one frame.
pub open spec fn eased_leg(state: FootIkBoneState, f: LegFrame) -> FootIkBoneState {
    if f.on_stairs {
        FootIkBoneState {
            smooth_target_y: if state.blend_weight.less(scalar(NEGLIGIBLE)) {
                f.eased_from_foot
            } else {
                f.eased_from_smooth
            },
            blend_weight: f.weight_up.smaller(scalar(ONE)),
        }
    } else {
        FootIkBoneState {
            smooth_target_y: state.smooth_target_y,
            blend_weight: f.weight_down.larger(scalar(ZERO)),
        }
    }
}

pub open spec fn leg_step(state: Option<FootIkBoneState>, f: LegFrame) -> LegStep {
    if !f.complete || f.len_a.less(scalar(MIN_BONE)) || f.len_b.less(scalar(MIN_BONE)) {
        LegStep::Skip
    } else {
        match state {
            None => LegStep::Attach(
                FootIkBoneState { smooth_target_y: f.foot_y, blend_weight: scalar(ZERO) },
            ),
            Some(s) => if eased_leg(s, f).blend_weight.less(scalar(NEGLIGIBLE)) {
                LegStep::Rest(eased_leg(s, f))
            } else {
                LegStep::Bend(eased_leg(s, f))
            },
        }
    }
}

/// Decides one frame of one leg.
pub fn apply_leg_ik(state: Option<FootIkBoneState>, f: &LegFrame) -> (r: LegStep)
    ensures
        r == leg_step(state, *f),
{
    if !f.complete || f.len_a.lt(scalar(MIN_BONE)) || f.len_b.lt(scalar(MIN_BONE)) {
        return LegStep::Skip;
    }
    match state {
        None => LegStep::Attach(
            FootIkBoneState { smooth_target_y: f.foot_y, blend_weight: scalar(ZERO) },
        ),
        Some(s) => {
            let mut next = s;
            if f.on_stairs {
                next.smooth_target_y = if s.blend_weight.lt(scalar(NEGLIGIBLE)) {
                    f.eased_from_foot
                } else {
                    f.eased_from_smooth
                };
                next.blend_weight = f.weight_up.min(scalar(ONE));
            } else {
                next.blend_weight = f.weight_down.max(scalar(ZERO));
            }
            if next.blend_weight.lt(scalar(NEGLIGIBLE)) {
                LegStep::Rest(next)
            } else {
                LegStep::Bend(next)
            }
        },
    }
}

/// A leg never bends in the frame in which it gets its memory, and a leg off
/// stairs whose weight has run out keeps its pose.
pub proof fn law_leg_bends_with_weight(state: Option<FootIkBoneState>, f: LegFrame)
    ensures
        leg_step(state, f) matches LegStep::Bend(s) ==> {
            &&& state is Some
            &&& !s.blend_weight.less(scalar(NEGLIGIBLE))
            &&& f.complete
        },
{
}

/// The weight of a leg in one frame. On stairs it takes a step up, to one at
/// most; off them it takes a step down, to zero at least; so it stays between
/// zero and one. A leg whose weight is then negligible keeps its pose, and any
/// other one bends.
pub proof fn law_leg_weight(state: FootIkBoneState, f: LegFrame)
    requires
        scalar(ZERO).at_most(state.blend_weight),
        state.blend_weight.at_most(scalar(ONE)),
        state.blend_weight.at_most(f.weight_up),
        f.weight_down.at_most(state.blend_weight),
    ensures
        ({
            let next = eased_leg(state, f);
            &&& next.blend_weight == if f.on_stairs {
                f.weight_up.smaller(scalar(ONE))
            } else {
                f.weight_down.larger(scalar(ZERO))
            }
            &&& scalar(ZERO).at_most(next.blend_weight)
            &&& next.blend_weight.at_most(scalar(ONE))
            &&& f.on_stairs ==> state.blend_weight.at_most(next.blend_weight)
            &&& next.blend_weight.less(scalar(NEGLIGIBLE)) ==> !(leg_step(Some(state), f) is Bend)
            &&& leg_step(Some(state), f) !is Skip && !next.blend_weight.less(scalar(NEGLIGIBLE))
                ==> leg_step(Some(state), f) == LegStep::Bend(next)
        }),
{
}

/// Off stairs a leg keeps its target, and its weight does not grow.
pub proof fn law_leg_relaxes(state: FootIkBoneState, f: LegFrame)
    requires
        !f.on_stairs,
        f.weight_down.at_most(state.blend_weight),
        scalar(ZERO).at_most(state.blend_weight),
    ensures
        eased_leg(state, f).smooth_target_y == state.smooth_target_y,
        eased_leg(state, f).blend_weight.at_most(state.blend_weight),
{
}

/// Whether the knee's own direction, rather than straight ahead, guides the bend.
pub fn knee_guides(knee_off_axis_sq: Scalar) -> (r: bool)
    ensures
        r == scalar(MIN_KNEE).less(knee_off_axis_sq),
{
    scalar(MIN_KNEE).lt(knee_off_axis_sq)
}

/// Whether a bent leg's thigh can be turned at all, and whether it needs to be:
/// from the squared lengths of its old and new direction and their cosine.
pub fn thigh_turn(old_dir_sq: Scalar, new_dir_sq: Scalar, cosine: Scalar) -> (r: Option<bool>)
    ensures
        r is None <==> old_dir_sq.less(scalar(MIN_DIRECTION)) || new_dir_sq.less(
            scalar(MIN_DIRECTION),
        ),
        r is Some ==> r->0 == cosine.less(scalar(SAME_DIRECTION)),
{
    if old_dir_sq.lt(scalar(MIN_DIRECTION)) || new_dir_sq.lt(scalar(MIN_DIRECTION)) {
        None
    } else {
        Some(cosine.lt(scalar(SAME_DIRECTION)))
    }
}

/// Whether a bent leg's shin is turned.
pub fn shin_turn(foot_local_sq: Scalar, new_foot_sq: Scalar, cosine: Scalar) -> (r: bool)
    ensures
        r == (scalar(MIN_DIRECTION).less(foot_local_sq) && scalar(MIN_DIRECTION).less(new_foot_sq)
            && cosine.less(scalar(SAME_DIRECTION))),
{
    scalar(MIN_DIRECTION).lt(foot_local_sq) && scalar(MIN_DIRECTION).lt(new_foot_sq) && cosine.lt(
        scalar(SAME_DIRECTION),
    )
}

/// Which feet a player is pulled down to.
#[derive(Clone, Copy, PartialEq, Eq, Structural, Debug)]
pub enum SnapFeet {
    Both,
    Left,
    Right,
}

/// The feet stand above the ground.
pub open spec fn raised(height: Scalar) -> bool {
    scalar(NEGLIGIBLE).less(height)
}

/// The feet that a player on stairs is pulled down to, if to any.
pub open spec fn snap_target(
    blend: Scalar,
    grounded: bool,
    left: Scalar,
    right: Scalar,
) -> Option<SnapFeet> {
    if blend.less(scalar(NEGLIGIBLE)) || !grounded {
        None
    } else if raised(left) && raised(right) {
        Some(SnapFeet::Both)
    } else if raised(left) {
        Some(SnapFeet::Left)
    } else if raised(right) {
        Some(SnapFeet::Right)
    } else {
        None
    }
}

pub fn snap_feet(blend: Scalar, hits: &Vec<GroundHit>, left: Scalar, right: Scalar) -> (r: Option<
    SnapFeet,
>)
    ensures
        r == snap_target(
            blend,
            touches_ground(
                hits@,
                true,
                scalar(GROUND_CONTACT_DIST_ENTER),
                scalar(GROUND_CONTACT_DIST_EXIT),
            ),
            left,
            right,
        ),
{
    if blend.lt(scalar(NEGLIGIBLE)) {
        return None;
    }
    if !has_ground_contact_with_state(hits, true) {
        return None;
    }
    if left.lt(scalar(NEGLIGIBLE)) && right.lt(scalar(NEGLIGIBLE)) {
        return None;
    }
    let l = scalar(NEGLIGIBLE).lt(left);
    let r = scalar(NEGLIGIBLE).lt(right);
    if l && r {
        Some(SnapFeet::Both)
    } else if l {
        Some(SnapFeet::Left)
    } else if r {
        Some(SnapFeet::Right)
    } else {
        None
    }
}

/// The vertical velocity of a player on stairs: `pull` where the feet are below
/// by a gap worth closing and the player does not fall fast already. `gap` is
/// the height of the feet less that of the player.
pub fn snap_velocity(gap: Scalar, vel_y: Scalar, pull: Scalar) -> (r: Scalar)
    ensures
        r == if gap.magnitude().less(scalar(SNAP_MIN_GAP)) || scalar(ZERO).at_most(gap)
            || !scalar(SNAP_VEL_LIMIT).less(vel_y) {
            vel_y
        } else {
            pull
        },
{
    if gap.abs().lt(scalar(SNAP_MIN_GAP)) || scalar(ZERO).le(gap) {
        return vel_y;
    }
    if scalar(SNAP_VEL_LIMIT).lt(vel_y) {
        pull
    } else {
        vel_y
    }
}

/// On stairs every frame probes the feet; off them every sixth one does, also
/// where the counter starts over.
pub proof fn law_sampling_rate(frame: u64)
    ensures
        exists|k: nat|
            k < IK_OFF_STAIRS_DECIMATION_FRAMES && #[trigger] frames_on(frame, k + 1)
                % IK_OFF_STAIRS_DECIMATION_FRAMES == 0,
{
    let rest = (IK_OFF_STAIRS_DECIMATION_FRAMES - 1 - frame % IK_OFF_STAIRS_DECIMATION_FRAMES) as nat;
    if frame as int + rest + 1 <= u64::MAX {
        lemma_frames_on(frame, rest + 1);
        assert(frames_on(frame, rest + 1) == frame + rest + 1);
        assert((frame + rest + 1) % 6 == 0);
    } else {
        let k = (u64::MAX - frame) as nat;
        lemma_frames_on(frame, k);
        assert(frames_on(frame, k) == u64::MAX);
        assert(frames_on(frame, k + 1) == 0);
        assert(k < 6);
    }
}

/// The counter after `n` more frames.
pub open spec fn frames_on(frame: u64, n: nat) -> u64
    decreases n,
{
    if n == 0 {
        frame
    } else {
        next_frame(frames_on(frame, (n - 1) as nat))
    }
}

proof fn lemma_frames_on(frame: u64, n: nat)
    requires
        frame + n <= u64::MAX,
    ensures
        frames_on(frame, n) == frame + n,
    decreases n,
{
    if n > 0 {
        lemma_frames_on(frame, (n - 1) as nat);
    }
}

/// What a leg remembers after a frame, where the frame gives it a memory.
pub open spec fn remembered(r: LegStep) -> Option<FootIkBoneState> {
    match r {
        LegStep::Skip => None,
        LegStep::Attach(s) => Some(s),
        LegStep::Rest(s) => Some(s),
        LegStep::Bend(s) => Some(s),
    }
}

/// On stairs a complete leg with a memory ends the frame with a smoothed target
/// one fifth of the way to the step: from its old smoothed target where its
/// weight is 0.01 or more, from the foot where it is less. Off stairs the
/// smoothed target stays.
pub proof fn law_leg_eases(state: FootIkBoneState, f: &LegFrame, r: LegStep)
    requires
        call_ensures(apply_leg_ik, (Some(state), f), r),
        f.complete,
        !f.len_a.less(scalar(0x3a83_126f)),
        !f.len_b.less(scalar(0x3a83_126f)),
    ensures
        r is Rest || r is Bend,
        f.on_stairs && !state.blend_weight.less(scalar(0x3c23_d70a)) ==> remembered(
            r,
        )->0.smooth_target_y == f.eased_from_smooth,
        f.on_stairs && state.blend_weight.less(scalar(0x3c23_d70a)) ==> remembered(
            r,
        )->0.smooth_target_y == f.eased_from_foot,
        !f.on_stairs ==> remembered(r)->0.smooth_target_y == state.smooth_target_y,
{
}

/// Frames on stairs over one step. The legs' memories follow from one another,
/// and every frame is told where one fifth of the way to the step ends.
pub open spec fn climbs(states: Seq<FootIkBoneState>, frames: Seq<LegFrame>, step: Scalar) -> bool {
    &&& states.len() == frames.len() + 1
    &&& forall|k: int|
        #![trigger frames[k]]
        0 <= k < frames.len() ==> {
            &&& frames[k].complete
            &&& frames[k].on_stairs
            &&& !frames[k].len_a.less(scalar(0x3a83_126f))
            &&& !frames[k].len_b.less(scalar(0x3a83_126f))
            &&& !states[k].blend_weight.less(scalar(0x3c23_d70a))
            &&& states[k].smooth_target_y.less(step) ==> {
                &&& states[k].smooth_target_y.less(frames[k].eased_from_smooth)
                &&& frames[k].eased_from_smooth.at_most(step)
            }
            &&& states[k].smooth_target_y.equals(step) ==> frames[k].eased_from_smooth.equals(step)
            &&& exists|r: LegStep| #[trigger]
                call_ensures(apply_leg_ik, (Some(states[k]), &frames[k]), r) && remembered(r)
                    == Some(states[k + 1])
        }
}

/// Repeated frames over one step bring the smoothed target ever nearer to it: a
/// target below the step rises with every frame until it has reached the step,
/// which it never passes.
pub proof fn law_leg_converges(
    states: Seq<FootIkBoneState>,
    frames: Seq<LegFrame>,
    step: Scalar,
    n: int,
)
    requires
        climbs(states, frames, step),
        0 <= n <= frames.len(),
        states[0].smooth_target_y.at_most(step),
    ensures
        states[n].smooth_target_y.at_most(step),
        states[n].smooth_target_y.equals(step) || states[n].smooth_target_y.rank()
            >= states[0].smooth_target_y.rank() + n,
    decreases n,
{
    if n > 0 {
        law_leg_converges(states, frames, step, n - 1);
        let k = n - 1;
        let f = frames[k];
        let r = choose|r: LegStep| #[trigger]
            call_ensures(apply_leg_ik, (Some(states[k]), &frames[k]), r) && remembered(r) == Some(
                states[k + 1],
            );
        law_leg_eases(states[k], &frames[k], r);
    }
}

/// The weight grows on stairs to one at most and shrinks off them to zero at
/// least; a leg bends exactly with a weight of 0.01 or more. A leg without a
/// memory gets one at its foot with no weight, and an incomplete one, or one with
/// a bone shorter than a millimetre, is left alone.
pub proof fn law_leg_weighs(state: Option<FootIkBoneState>, f: &LegFrame, r: LegStep)
    requires
        call_ensures(apply_leg_ik, (state, f), r),
    ensures
        r is Skip <==> !f.complete || f.len_a.less(scalar(0x3a83_126f)) || f.len_b.less(
            scalar(0x3a83_126f),
        ),
        r is Attach <==> !(r is Skip) && state is None,
        r matches LegStep::Attach(s) ==> s.smooth_target_y == f.foot_y && s.blend_weight == scalar(0),
        r matches LegStep::Bend(s) ==> !s.blend_weight.less(scalar(0x3c23_d70a)),
        r matches LegStep::Rest(s) ==> s.blend_weight.less(scalar(0x3c23_d70a)),
        r is Rest || r is Bend ==> {
            let weight = remembered(r)->0.blend_weight;
            &&& f.on_stairs ==> weight.at_most(scalar(0x3f80_0000))
            &&& f.on_stairs && f.weight_up.at_most(scalar(0x3f80_0000)) ==> weight == f.weight_up
            &&& !f.on_stairs ==> scalar(0).at_most(weight)
            &&& !f.on_stairs && scalar(0).at_most(f.weight_down) ==> weight == f.weight_down
        },
{
}

/// The report of a frame. A player stands on stairs where what is below, or
/// anything that it hangs on, is marked as stairs; the feet are probed in every
/// frame there, and in every sixth one elsewhere.
pub proof fn law_stairs_report(
    cache: &mut AdaptiveIkSampleCache,
    below: Option<Below>,
    grounded: bool,
    parents: &HashMap<u64, u64>,
    stairs: &HashSet<u64>,
    r: StairsReport,
    marked: bool,
)
    requires
        call_ensures(publish_stairs_state_to_lua, (cache, below, grounded, parents, stairs), r),
        below matches Some(b) ==> call_ensures(
            marked_or_parent,
            (parents, stairs, b.entity),
            marked,
        ),
    ensures
        below is Some ==> r.on_stairs == marked,
        below is None ==> !r.on_stairs && r.hit_distance == scalar(0xbf80_0000),
        below matches Some(b) ==> r.hit_distance == b.distance,
        r.reacting <==> r.on_stairs && grounded,
        r.grounded == grounded,
        r.high_quality == r.on_stairs,
        r.sample_now <==> r.on_stairs || final(cache).frame % 6 == 0,
        final(cache).sampled_this_frame == r.sample_now,
        final(cache).on_stairs == r.on_stairs,
        final(cache).left_foot_y == old(cache).left_foot_y,
        final(cache).right_foot_y == old(cache).right_foot_y,
        old(cache).frame < u64::MAX ==> final(cache).frame == old(cache).frame + 1,
        old(cache).frame == u64::MAX ==> final(cache).frame == 0,
{
}

/// A foot's height: of the step that its probe found, else of anything it found,
/// else what it was; and nothing else of the cache changes.
pub proof fn law_feet_recorded(
    cache: &mut AdaptiveIkSampleCache,
    left: FootProbe,
    right: FootProbe,
)
    requires
        call_ensures(record_feet, (cache, left, right), ()),
    ensures
        left.on_step matches Some(y) ==> final(cache).left_foot_y == y,
        left.on_step is None && left.on_any is Some ==> final(cache).left_foot_y == left.on_any->0,
        left.on_step is None && left.on_any is None ==> final(cache).left_foot_y == old(cache).left_foot_y,
        right.on_step matches Some(y) ==> final(cache).right_foot_y == y,
        right.on_step is None && right.on_any is Some ==> final(cache).right_foot_y
            == right.on_any->0,
        right.on_step is None && right.on_any is None ==> final(cache).right_foot_y == old(cache).right_foot_y,
        final(cache).frame == old(cache).frame,
        final(cache).on_stairs == old(cache).on_stairs,
        final(cache).sampled_this_frame == old(cache).sampled_this_frame,
{
}

/// Nobody below `root`, at most ten generations down, carries the name.
pub open spec fn nobody_named(
    children: Map<u64, Vec<u64>>,
    names: Map<u64, String>,
    root: u64,
    name: Seq<char>,
) -> bool {
    forall|e: u64| #[trigger] within_depth(children, root, e, 10) ==> !named(names, e, name)
}

/// A bone below `root` that carries the first of three spellings that anybody
/// there carries; none where nobody carries any.
pub open spec fn spelled(
    children: Map<u64, Vec<u64>>,
    names: Map<u64, String>,
    root: u64,
    bone: Option<u64>,
    a: Seq<char>,
    b: Seq<char>,
    c: Seq<char>,
) -> bool {
    let no_a = nobody_named(children, names, root, a);
    let no_b = nobody_named(children, names, root, b);
    match bone {
        Some(e) => within_depth(children, root, e, 10) && {
            ||| named(names, e, a)
            ||| no_a && named(names, e, b)
            ||| no_a && no_b && named(names, e, c)
        },
        None => no_a && no_b && nobody_named(children, names, root, c),
    }
}

proof fn lemma_spelled(
    children: Map<u64, Vec<u64>>,
    names: Map<u64, String>,
    root: u64,
    a: Seq<char>,
    b: Seq<char>,
    c: Seq<char>,
)
    ensures
        spelled(
            children,
            names,
            root,
            bone_by_names(children, names, root, a, b, c),
            a,
            b,
            c,
        ),
{
    lemma_searched(children, names, root, a);
    lemma_searched(children, names, root, b);
    lemma_searched(children, names, root, c);
}

proof fn lemma_searched(
    children: Map<u64, Vec<u64>>,
    names: Map<u64, String>,
    root: u64,
    name: Seq<char>,
)
    ensures
        match bone_below(children, names, root, name, 10) {
            Some(e) => named(names, e, name) && within_depth(children, root, e, 10),
            None => nobody_named(children, names, root, name),
        },
{
    law_found_bone_named(children, names, root, name, 10);
    law_found_bone_below_root(children, names, root, name, 10);
    if bone_below(children, names, root, name, 10) is None {
        assert forall|e: u64| #[trigger] within_depth(children, root, e, 10) implies !named(
            names,
            e,
            name,
        ) by {
            law_nothing_found_means_none(children, names, root, name, 10, e);
        }
    }
}

/// The bones of the left leg carry left names: thigh, shin and foot, each in one
/// of its three spellings.
pub proof fn law_left_leg(
    root: u64,
    children: &HashMap<u64, Vec<u64>>,
    names: &HashMap<u64, String>,
    r: LegBones,
)
    requires
        call_ensures(left_leg, (root, children, names), r),
    ensures
        spelled(
            children@,
            names@,
            root,
            r.thigh,
            "DEF_thigh_l"@,
            "DEF-thigh_l"@,
            "DEF_thigh.L"@,
        ),
        spelled(
            children@,
            names@,
            root,
            r.shin,
            "DEF_shin_l"@,
            "DEF-shin_l"@,
            "DEF_shin.L"@,
        ),
        spelled(
            children@,
            names@,
            root,
            r.foot,
            "DEF_foot_l"@,
            "DEF-foot_l"@,
            "DEF_foot.L"@,
        ),
{
    lemma_spelled(
        children@,
        names@,
        root,
        "DEF_thigh_l"@,
        "DEF-thigh_l"@,
        "DEF_thigh.L"@,
    );
    lemma_spelled(children@, names@, root, "DEF_shin_l"@, "DEF-shin_l"@, "DEF_shin.L"@);
    lemma_spelled(children@, names@, root, "DEF_foot_l"@, "DEF-foot_l"@, "DEF_foot.L"@);
}

/// The bones of the right leg carry right names.
pub proof fn law_right_leg(
    root: u64,
    children: &HashMap<u64, Vec<u64>>,
    names: &HashMap<u64, String>,
    r: LegBones,
)
    requires
        call_ensures(right_leg, (root, children, names), r),
    ensures
        spelled(
            children@,
            names@,
            root,
            r.thigh,
            "DEF_thigh_r"@,
            "DEF-thigh_r"@,
            "DEF_thigh.R"@,
        ),
        spelled(
            children@,
            names@,
            root,
            r.shin,
            "DEF_shin_r"@,
            "DEF-shin_r"@,
            "DEF_shin.R"@,
        ),
        spelled(
            children@,
            names@,
            root,
            r.foot,
            "DEF_foot_r"@,
            "DEF-foot_r"@,
            "DEF_foot.R"@,
        ),
{
    lemma_spelled(
        children@,
        names@,
        root,
        "DEF_thigh_r"@,
        "DEF-thigh_r"@,
        "DEF_thigh.R"@,
    );
    lemma_spelled(children@, names@, root, "DEF_shin_r"@, "DEF-shin_r"@, "DEF_shin.R"@);
    lemma_spelled(children@, names@, root, "DEF_foot_r"@, "DEF-foot_r"@, "DEF_foot.R"@);
}

proof fn lemma_model_on(roots: Seq<ModelRoot>, parent: u64, i: int)
    requires
        0 <= i < roots.len(),
        roots[i].parent == parent,
        forall|j: int| 0 <= j < i ==> (#[trigger] roots[j]).parent != parent,
    ensures
        model_on(roots, parent) == Some(roots[i].entity),
    decreases roots.len(),
{
    if i > 0 {
        assert(roots[0].parent != parent);
        let rest = roots.drop_first();
        assert forall|j: int| 0 <= j < i - 1 implies (#[trigger] rest[j]).parent != parent by {
            assert(rest[j] == roots[j + 1]);
        }
        lemma_model_on(rest, parent, i - 1);
    }
}

proof fn lemma_no_model_on(roots: Seq<ModelRoot>, parent: u64)
    requires
        forall|j: int| 0 <= j < roots.len() ==> (#[trigger] roots[j]).parent != parent,
    ensures
        model_on(roots, parent) is None,
    decreases roots.len(),
{
    if roots.len() > 0 {
        let rest = roots.drop_first();
        assert forall|j: int| 0 <= j < rest.len() implies (#[trigger] rest[j]).parent
            != parent by {
            assert(rest[j] == roots[j + 1]);
        }
        lemma_no_model_on(rest, parent);
    }
}

/// The legs that a frame bends are those of the first model on the local player:
/// its left leg, then its right one. `k` numbers that player and `i` that model.
pub proof fn law_local_legs(
    id: u64,
    clients: &Vec<u64>,
    entities: &Vec<u64>,
    roots: &Vec<ModelRoot>,
    children: &HashMap<u64, Vec<u64>>,
    names: &HashMap<u64, String>,
    r: Option<(LegBones, LegBones)>,
    k: int,
    i: int,
    left: LegBones,
    right: LegBones,
)
    requires
        call_ensures(local_legs, (Some(id), clients, entities, roots, children, names), r),
        0 <= k < clients@.len(),
        clients@.len() == entities@.len(),
        clients@[k] == id,
        forall|j: int| 0 <= j < k ==> #[trigger] clients@[j] != id,
        0 <= i <= roots@.len(),
        forall|j: int| 0 <= j < i ==> (#[trigger] roots@[j]).parent != entities@[k],
        i < roots@.len() ==> {
            &&& roots@[i].parent == entities@[k]
            &&& call_ensures(left_leg, (roots@[i].entity, children, names), left)
            &&& call_ensures(right_leg, (roots@[i].entity, children, names), right)
        },
    ensures
        i < roots@.len() ==> r == Some((left, right)),
        i == roots@.len() ==> r is None,
{
    assert(clients@.contains(id));
    lemma_player_index(clients@, id, k);
    if i < roots@.len() {
        lemma_model_on(roots@, entities@[k], i);
    } else {
        lemma_no_model_on(roots@, entities@[k]);
    }
}

/// Without a local player among the clients no leg bends.
pub proof fn law_no_local_legs(
    local: Option<u64>,
    clients: &Vec<u64>,
    entities: &Vec<u64>,
    roots: &Vec<ModelRoot>,
    children: &HashMap<u64, Vec<u64>>,
    names: &HashMap<u64, String>,
    r: Option<(LegBones, LegBones)>,
)
    requires
        call_ensures(local_legs, (local, clients, entities, roots, children, names), r),
        local matches Some(id) ==> !clients@.contains(id),
    ensures
        r is None,
{
}

/// The feet that a grounded player on stairs is pulled down to are those that
/// stand more than a centimetre above the ground.
pub proof fn law_snap_feet(
    blend: Scalar,
    hits: &Vec<GroundHit>,
    left: Scalar,
    right: Scalar,
    r: Option<SnapFeet>,
    held: bool,
)
    requires
        call_ensures(snap_feet, (blend, hits, left, right), r),
        call_ensures(has_ground_contact_with_state, (hits, true), held),
    ensures
        !held || blend.less(scalar(0x3c23_d70a)) ==> r is None,
        held && !blend.less(scalar(0x3c23_d70a)) ==> {
            let l = scalar(0x3c23_d70a).less(left);
            let r_foot = scalar(0x3c23_d70a).less(right);
            &&& l && r_foot <==> r == Some(SnapFeet::Both)
            &&& l && !r_foot <==> r == Some(SnapFeet::Left)
            &&& !l && r_foot <==> r == Some(SnapFeet::Right)
            &&& !l && !r_foot <==> r is None
        },
{
}

/// A player is pulled down only: where the feet are at least 3 mm below and the
/// player falls no faster than 1.5; otherwise the velocity stays.
pub proof fn law_snap_velocity(gap: Scalar, vel_y: Scalar, pull: Scalar, r: Scalar)
    requires
        call_ensures(snap_velocity, (gap, vel_y, pull), r),
    ensures
        gap.less(scalar(0)) && scalar(0x3b44_9ba6).at_most(gap.magnitude()) && scalar(
            0xbfc0_0000,
        ).less(vel_y) ==> r == pull,
        scalar(0).at_most(gap) ==> r == vel_y,
        gap.magnitude().less(scalar(0x3b44_9ba6)) ==> r == vel_y,
        !scalar(0xbfc0_0000).less(vel_y) ==> r == vel_y,
{
}

/// A turn is made where both directions have a length and differ; the thigh's
/// cannot be told where either has none.
pub proof fn law_leg_turns(
    old_sq: Scalar,
    new_sq: Scalar,
    cosine: Scalar,
    thigh: Option<bool>,
    shin: bool,
    knee_sq: Scalar,
    knee: bool,
)
    requires
        call_ensures(thigh_turn, (old_sq, new_sq, cosine), thigh),
        call_ensures(shin_turn, (old_sq, new_sq, cosine), shin),
        call_ensures(knee_guides, (knee_sq,), knee),
    ensures
        thigh is None <==> old_sq.less(scalar(0x3586_37bd)) || new_sq.less(scalar(0x3586_37bd)),
        thigh matches Some(t) ==> t == cosine.less(scalar(0x3f7f_ff58)),
        shin ==> thigh == Some(true),
        scalar(0x3586_37bd).less(old_sq) && scalar(0x3586_37bd).less(new_sq) ==> shin
            == cosine.less(scalar(0x3f7f_ff58)),
        knee == scalar(0x38d1_b717).less(knee_sq),
{
}

/// At first nothing is sampled.
pub proof fn law_samples_start(r: AdaptiveIkSampleCache)
    requires
        call_ensures(AdaptiveIkSampleCache::default, (), r),
    ensures
        r.frame == 0 && !r.on_stairs && !r.sampled_this_frame,
        r.left_foot_y == scalar(0) && r.right_foot_y == scalar(0),
{
}

} // verus!
