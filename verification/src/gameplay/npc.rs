//! Non-player characters: who moves them, how they keep to the ground, how they
//! get out of each other's way and what they play.

use std::collections::{HashMap, HashSet};

use vstd::prelude::*;

use crate::gameplay::animation::PedAnimations;
use crate::hierarchy::{
    ancestor, first_marked, forest, lemma_above_parent, lemma_marked_above, none_marked, ranked,
};
use crate::scalar::{scalar, Scalar, ZERO};

verus! {

broadcast use vstd::std_specs::hash::group_hash_axioms;

/// 0.001 m and 0.002 m: smaller gaps to the ground are left alone, for
/// characters that others move and for those that this client moves.
pub const SYNC_MIN_GAP: u32 = 0x3a83_126f;

pub const OWNED_MIN_GAP: u32 = 0x3b03_126f;

/// 20 m: larger gaps to the ground are left alone.
pub const MAX_GAP: u32 = 0x41a0_0000;

/// 0.0001: characters that look up or down more steeply are not turned aside.
pub const MIN_FORWARD: u32 = 0x38d1_b717;

/// 0.1 m/s: up to this a character without a profile stands.
pub const USUAL_IDLE: u32 = 0x3dcc_cccd;

/// 3 m/s: from this on a character without a profile runs.
pub const USUAL_RUN: u32 = 0x4040_0000;

/// This client moves the character.
pub open spec fn owned_here(local: Option<u64>, owner: Option<u64>) -> bool {
    local is Some && owner == local
}

pub fn is_owned(local: Option<u64>, owner: Option<u64>) -> (r: bool)
    ensures
        r == owned_here(local, owner),
{
    match (local, owner) {
        (Some(l), Some(o)) => l == o,
        _ => false,
    }
}

/// What happens to the agent through which a client moves a character.
#[derive(Clone, Copy, PartialEq, Eq, Structural, Debug)]
pub enum AgentChange {
    Create,
    Remove,
    Keep,
}

/// A client has an agent for exactly the characters that it moves; before it
/// knows who it is nothing changes.
pub fn agent_change(local: Option<u64>, owner: Option<u64>, has_agent: bool) -> (r: AgentChange)
    ensures
        r == if local is None || owned_here(local, owner) == has_agent {
            AgentChange::Keep
        } else if has_agent {
            AgentChange::Remove
        } else {
            AgentChange::Create
        },
{
    if local.is_none() {
        return AgentChange::Keep;
    }
    let owned = is_owned(local, owner);
    if owned && !has_agent {
        AgentChange::Create
    } else if !owned && has_agent {
        AgentChange::Remove
    } else {
        AgentChange::Keep
    }
}

/// Whether the place of a character is sent to the server: this client moves
/// it, and the place is a place.
pub fn sends_transform(
    local: Option<u64>,
    owner: Option<u64>,
    x: Scalar,
    y: Scalar,
    z: Scalar,
) -> (r: bool)
    ensures
        r == (owned_here(local, owner) && x.finite() && y.finite() && z.finite()),
{
    is_owned(local, owner) && x.is_finite() && y.is_finite() && z.is_finite()
}

/// The height of a character that the server places, once it keeps to the
/// ground: that of the ground, where the gap to it matters and is not too large.
pub open spec fn synced_height(height: Scalar, ground: Option<Scalar>, gap: Scalar) -> Scalar {
    match ground {
        Some(y) => if y.finite() && scalar(SYNC_MIN_GAP).at_most(gap.magnitude())
            && gap.magnitude().at_most(scalar(MAX_GAP)) {
            y
        } else {
            height
        },
        None => height,
    }
}

/// The height of a character that the server places, once it keeps to the
/// ground; none for one that this client moves. `gap` is the height of the
/// ground less that of the character.
pub fn sync_npc_net_transform(
    local: Option<u64>,
    owner: Option<u64>,
    height: Scalar,
    ground: Option<Scalar>,
    gap: Scalar,
) -> (r: Option<Scalar>)
    ensures
        r == if owned_here(local, owner) {
            None
        } else {
            Some(synced_height(height, ground, gap))
        },
{
    if is_owned(local, owner) {
        return None;
    }
    match ground {
        Some(y) => if y.is_finite() && scalar(SYNC_MIN_GAP).le(gap.abs()) && gap.abs().le(
            scalar(MAX_GAP),
        ) {
            Some(y)
        } else {
            Some(height)
        },
        None => Some(height),
    }
}

/// The height of a character that this client moves, once it keeps to the
/// ground: that of the ground, unless the gap to it is small or too large.
pub open spec fn snapped_height(height: Scalar, ground: Option<Scalar>, gap: Scalar) -> Scalar {
    match ground {
        Some(y) => if !y.finite() || gap.magnitude().less(scalar(OWNED_MIN_GAP)) || scalar(
            MAX_GAP,
        ).less(gap.magnitude()) {
            height
        } else {
            y
        },
        None => height,
    }
}

/// The height of a character that this client moves, once it keeps to the
/// ground; none for one that others move.
pub fn terrain_snap_owned_npcs(
    local: Option<u64>,
    owner: Option<u64>,
    height: Scalar,
    ground: Option<Scalar>,
    gap: Scalar,
) -> (r: Option<Scalar>)
    ensures
        r == if owned_here(local, owner) {
            Some(snapped_height(height, ground, gap))
        } else {
            None
        },
{
    if !is_owned(local, owner) {
        return None;
    }
    match ground {
        Some(y) => {
            if !y.is_finite() {
                return Some(height);
            }
            if gap.abs().lt(scalar(OWNED_MIN_GAP)) || scalar(MAX_GAP).lt(gap.abs()) {
                return Some(height);
            }
            Some(y)
        },
        None => Some(height),
    }
}

/// A character that stands on the ground stays there, whoever moves it.
pub proof fn law_grounded_settles(height: Scalar)
    ensures
        synced_height(height, Some(height), scalar(ZERO)) == height,
        snapped_height(height, Some(height), scalar(ZERO)) == height,
{
}

/// What ends the walk from a thing up to the character that it belongs to.
pub open spec fn walk_ends(self_root: u64, players: Set<u64>, npcs: Set<u64>) -> Set<u64> {
    players.union(npcs).insert(self_root)
}

/// Whether a thing blocks a character's way: it does not where it belongs to
/// the character itself or to a player, and does otherwise.
pub fn root_is_blocking_other(
    candidate: u64,
    self_root: u64,
    players: &HashSet<u64>,
    npcs: &HashSet<u64>,
    parents: &HashMap<u64, u64>,
) -> (r: bool)
    requires
        forest(parents@),
    ensures
        ({
            let ends = walk_ends(self_root, players@, npcs@);
            if none_marked(parents@, ends, candidate, 0) {
                r
            } else {
                exists|n: nat, found: u64|
                    #[trigger] first_marked(parents@, ends, candidate, 0, n, found) && r == (found
                        != self_root && !players@.contains(found))
            }
        }),
{
    let ghost ends = walk_ends(self_root, players@, npcs@);
    let ghost rank = choose|rank: spec_fn(u64) -> nat| ranked(parents@, rank);
    let mut current: u64 = candidate;
    let ghost mut n: nat = 0;
    loop
        invariant
            ends == walk_ends(self_root, players@, npcs@),
            ranked(parents@, rank),
            ancestor(parents@, candidate, n) == Some(current),
            forall|m: nat|
                0 <= m < n ==> match #[trigger] ancestor(parents@, candidate, m) {
                    Some(a) => !ends.contains(a),
                    None => true,
                },
        decreases rank(current),
    {
        if current == self_root {
            assert(first_marked(parents@, ends, candidate, 0, n, current));
            return false;
        }
        if players.contains(&current) {
            assert(first_marked(parents@, ends, candidate, 0, n, current));
            return false;
        }
        if npcs.contains(&current) {
            assert(first_marked(parents@, ends, candidate, 0, n, current));
            return true;
        }
        match parents.get(&current) {
            Some(parent) => {
                proof {
                    assert(ancestor(parents@, candidate, n + 1) == Some(*parent));
                    n = n + 1;
                }
                current = *parent;
            },
            None => {
                proof {
                    assert forall|m: nat| 0 <= m implies match #[trigger] ancestor(
                        parents@,
                        candidate,
                        m,
                    ) {
                        Some(a) => !ends.contains(a),
                        None => true,
                    } by {
                        if m > n {
                            crate::hierarchy::lemma_ended(parents@, candidate, n, m);
                        }
                    }
                }
                return true;
            },
        }
    }
}

/// The side to which a character steps aside.
#[derive(Clone, Copy, PartialEq, Eq, Structural, Debug)]
pub enum Side {
    Left,
    Right,
}

/// What a character that moves ahead sees.
#[derive(Clone, Copy, PartialEq, Eq, Structural, Debug)]
pub struct Ahead {
    pub owned: bool,
    /// It has no goal to move to.
    pub idle: bool,
    /// Squared length of its level forward direction.
    pub forward_len_sq: Scalar,
    /// Something blocks the way: straight ahead, and beside it on either side.
    pub blocked: bool,
    pub left_blocked: bool,
    pub right_blocked: bool,
    /// How far to the right it already steps aside.
    pub current_right: Scalar,
}

pub open spec fn step_aside(a: Ahead) -> Option<Side> {
    if !a.owned || a.idle || a.forward_len_sq.at_most(scalar(MIN_FORWARD)) || !a.blocked {
        None
    } else if a.left_blocked != a.right_blocked {
        Some(
            if a.left_blocked {
                Side::Right
            } else {
                Side::Left
            },
        )
    } else if scalar(ZERO).at_most(a.current_right) {
        Some(Side::Right)
    } else {
        Some(Side::Left)
    }
}

/// The side to which a blocked character steps aside: the one that is free,
/// else the one to which it already steps.
pub fn update_owned_npc_avoidance(a: Ahead) -> (r: Option<Side>)
    ensures
        r == step_aside(a),
{
    if !a.owned || a.idle {
        return None;
    }
    if a.forward_len_sq.le(scalar(MIN_FORWARD)) {
        return None;
    }
    if !a.blocked {
        return None;
    }
    if a.left_blocked && !a.right_blocked {
        Some(Side::Right)
    } else if a.right_blocked && !a.left_blocked {
        Some(Side::Left)
    } else if scalar(ZERO).le(a.current_right) {
        Some(Side::Right)
    } else {
        Some(Side::Left)
    }
}

/// A character never steps to a side that is blocked while the other is free.
pub proof fn law_free_side_first(a: Ahead)
    ensures
        step_aside(a) == Some(Side::Left) ==> !(a.left_blocked && !a.right_blocked),
        step_aside(a) == Some(Side::Right) ==> !(a.right_blocked && !a.left_blocked),
{
}

/// What the pace of a character is read from: the speed up to which it stands,
/// six tenths of its running speed, and its clips.
#[derive(Clone, Debug)]
pub struct NpcProfile {
    pub idle_threshold: Scalar,
    pub run_threshold: Scalar,
    pub animations: PedAnimations,
}

/// The speeds at which a character walks and runs; without a profile they are
/// the usual ones.
pub open spec fn pace_thresholds(ped: Option<NpcProfile>) -> (Scalar, Scalar) {
    match ped {
        Some(p) => (p.idle_threshold, p.run_threshold),
        None => (scalar(USUAL_IDLE), scalar(USUAL_RUN)),
    }
}

/// The pace of a character: 0 stands, 1 walks, 2 runs.
pub open spec fn npc_pace(speed: Scalar, idle: Scalar, run: Scalar) -> u8 {
    if speed.at_most(idle) {
        0
    } else if speed.less(run) {
        1
    } else {
        2
    }
}

/// The clip for a pace; without a profile it is the model's first clip.
pub open spec fn npc_clip(ped: Option<NpcProfile>, pace: u8) -> Seq<char> {
    match ped {
        Some(p) => if pace == 1 {
            p.animations.walk@
        } else if pace == 2 {
            p.animations.run@
        } else {
            p.animations.idle@
        },
        None => "clip:0"@,
    }
}

/// The clip that a character changes to as its pace changes; none while it
/// keeps its pace.
pub fn drive_npc_animations(
    current_state: &mut u8,
    speed: Scalar,
    ped: &Option<NpcProfile>,
) -> (r: Option<String>)
    ensures
        *final(current_state) == npc_pace(speed, pace_thresholds(*ped).0, pace_thresholds(*ped).1),
        r is Some <==> *final(current_state) != *old(current_state),
        r is Some ==> r->0@ == npc_clip(*ped, *final(current_state)),
{
    let (idle, run): (Scalar, Scalar) = match ped {
        Some(p) => (p.idle_threshold, p.run_threshold),
        None => (scalar(USUAL_IDLE), scalar(USUAL_RUN)),
    };
    let pace: u8 = if speed.le(idle) {
        0
    } else if speed.lt(run) {
        1
    } else {
        2
    };
    if pace == *current_state {
        return None;
    }
    *current_state = pace;
    match ped {
        Some(p) => if pace == 1 {
            Some(p.animations.walk.clone())
        } else if pace == 2 {
            Some(p.animations.run.clone())
        } else {
            Some(p.animations.idle.clone())
        },
        None => Some("clip:0".to_string()),
    }
}

/// The clip with which a new character starts: its idle clip where it has one.
pub fn initial_clip(ped: &Option<PedAnimations>) -> (r: String)
    ensures
        r@ == match *ped {
            Some(p) => if p.idle@.len() > 0 {
                p.idle@
            } else {
                "clip:0"@
            },
            None => "clip:0"@,
        },
{
    if let Some(p) = ped {
        if !p.idle.as_str().is_empty() {
            return p.idle.clone();
        }
    }
    "clip:0".to_string()
}

/// The animation sets of a new character: those of its model, else those of
/// the profile that overrides it, else those of the model that its profile names.
pub fn attached_sets(
    of_model: Option<Vec<String>>,
    of_override: Option<Vec<String>>,
    of_profile: Option<Vec<String>>,
) -> (r: Vec<String>)
    ensures
        match (of_model, of_override, of_profile) {
            (Some(v), _, _) => r == v,
            (None, Some(v), _) => r == v,
            (None, None, Some(v)) => r == v,
            (None, None, None) => r.len() == 0,
        },
{
    match of_model {
        Some(v) => v,
        None => match of_override {
            Some(v) => v,
            None => match of_profile {
                Some(v) => v,
                None => Vec::new(),
            },
        },
    }
}

/// A character is this client's where the owner is known to be this client; a
/// client has an agent for its own characters and for no others.
pub proof fn law_ownership(
    local: Option<u64>,
    owner: Option<u64>,
    has_agent: bool,
    owned: bool,
    change: AgentChange,
)
    requires
        call_ensures(is_owned, (local, owner), owned),
        call_ensures(agent_change, (local, owner, has_agent), change),
    ensures
        owned <==> local is Some && owner is Some && local->0 == owner->0,
        local is None ==> change is Keep,
        local is Some ==> {
            &&& owned && !has_agent <==> change is Create
            &&& !owned && has_agent <==> change is Remove
            &&& owned == has_agent <==> change is Keep
        },
{
}

/// The place of a character is sent by its owner, where every part of it is a
/// finite number.
pub proof fn law_transform_sent(
    local: Option<u64>,
    owner: Option<u64>,
    x: Scalar,
    y: Scalar,
    z: Scalar,
    owned: bool,
    r: bool,
)
    requires
        call_ensures(sends_transform, (local, owner, x, y, z), r),
        call_ensures(is_owned, (local, owner), owned),
    ensures
        r <==> owned && x.finite() && y.finite() && z.finite(),
{
}

/// A character of others takes the height of the ground where the gap to it is
/// between a millimetre and twenty metres, and one of this client from two
/// millimetres on; elsewhere the height stays. Each is moved by one side only.
pub proof fn law_ground_heights(
    local: Option<u64>,
    owner: Option<u64>,
    height: Scalar,
    ground: Option<Scalar>,
    gap: Scalar,
    owned: bool,
    synced: Option<Scalar>,
    snapped: Option<Scalar>,
)
    requires
        call_ensures(is_owned, (local, owner), owned),
        call_ensures(sync_npc_net_transform, (local, owner, height, ground, gap), synced),
        call_ensures(terrain_snap_owned_npcs, (local, owner, height, ground, gap), snapped),
    ensures
        synced is Some <==> !owned,
        snapped is Some <==> owned,
        ground is None ==> (synced is Some ==> synced->0 == height) && (snapped is Some
            ==> snapped->0 == height),
        ground matches Some(y) ==> {
            let far = scalar(0x41a0_0000).less(gap.magnitude());
            &&& !y.finite() || far ==> (synced is Some ==> synced->0 == height) && (snapped is Some
                ==> snapped->0 == height)
            &&& y.finite() && !far && scalar(0x3a83_126f).at_most(gap.magnitude()) && synced is Some
                ==> synced->0 == y
            &&& gap.magnitude().less(scalar(0x3a83_126f)) && synced is Some ==> synced->0 == height
            &&& y.finite() && !far && scalar(0x3b03_126f).at_most(gap.magnitude())
                && snapped is Some ==> snapped->0 == y
            &&& gap.magnitude().less(scalar(0x3b03_126f)) && snapped is Some ==> snapped->0
                == height
        },
{
}

/// What blocks a character's way: not the character itself and not a player,
/// but another character and anything that belongs to nobody; what hangs on a
/// parent, and is none of these itself, blocks where its parent does.
pub proof fn law_blocking(
    candidate: u64,
    self_root: u64,
    players: &HashSet<u64>,
    npcs: &HashSet<u64>,
    parents: &HashMap<u64, u64>,
    r: bool,
    of_parent: bool,
)
    requires
        call_ensures(root_is_blocking_other, (candidate, self_root, players, npcs, parents), r),
        parents@.contains_key(candidate) ==> call_ensures(
            root_is_blocking_other,
            (parents@[candidate], self_root, players, npcs, parents),
            of_parent,
        ),
    ensures
        candidate == self_root ==> !r,
        players@.contains(candidate) ==> !r,
        npcs@.contains(candidate) && candidate != self_root && !players@.contains(candidate) ==> r,
        candidate != self_root && !players@.contains(candidate) && !npcs@.contains(candidate) ==> {
            &&& parents@.contains_key(candidate) ==> r == of_parent
            &&& !parents@.contains_key(candidate) ==> r
        },
{
    let p = parents@;
    let ends = walk_ends(self_root, players@, npcs@);
    lemma_marked_above(p, ends, candidate);
    assert(ancestor(p, candidate, 0) == Some(candidate));
    if ends.contains(candidate) {
        let (n, found) = choose|n: nat, found: u64|
            #[trigger] first_marked(p, ends, candidate, 0, n, found) && r == (found != self_root
                && !players@.contains(found));
        if n > 0 {
            assert(ancestor(p, candidate, 0) == Some(candidate));
            assert(false);
        }
    } else if p.contains_key(candidate) && !none_marked(p, ends, candidate, 0) {
        let q = p[candidate];
        let (n, found) = choose|n: nat, found: u64|
            #[trigger] first_marked(p, ends, candidate, 0, n, found) && r == (found != self_root
                && !players@.contains(found));
        let (k, above) = choose|k: nat, above: u64|
            #[trigger] first_marked(p, ends, q, 0, k, above) && of_parent == (above != self_root
                && !players@.contains(above));
        assert(n > 0);
        lemma_above_parent(p, candidate, (n - 1) as nat);
        lemma_above_parent(p, candidate, k);
        assert(ancestor(p, q, (n - 1) as nat) == Some(found));
        if k + 1 < n {
            assert(ancestor(p, candidate, k + 1) == Some(above));
            assert(false);
        }
        if n < k + 1 {
            assert(ancestor(p, q, (n - 1) as nat) == Some(found));
            assert(false);
        }
    }
}

/// A character steps aside exactly where it moves, is this client's, looks ahead
/// and is blocked: to the free side of two, else to the side it already takes.
pub proof fn law_steps_aside(a: Ahead, r: Option<Side>)
    requires
        call_ensures(update_owned_npc_avoidance, (a,), r),
    ensures
        r is Some <==> a.owned && !a.idle && !a.forward_len_sq.at_most(scalar(0x38d1_b717))
            && a.blocked,
        r is Some && a.left_blocked && !a.right_blocked ==> r == Some(Side::Right),
        r is Some && a.right_blocked && !a.left_blocked ==> r == Some(Side::Left),
        r is Some && a.left_blocked == a.right_blocked && scalar(0).at_most(a.current_right) ==> r
            == Some(Side::Right),
        r is Some && a.left_blocked == a.right_blocked && !scalar(0).at_most(a.current_right) ==> r
            == Some(Side::Left),
{
}

/// The pace of a character: it stands up to its idle speed, runs from its running
/// speed on and walks between them, and its clip changes with the pace only.
pub proof fn law_npc_pace(
    current: &mut u8,
    speed: Scalar,
    ped: &Option<NpcProfile>,
    r: Option<String>,
)
    requires
        call_ensures(drive_npc_animations, (current, speed, ped), r),
    ensures
        ({
            let idle = if ped is Some {
                ped->0.idle_threshold
            } else {
                scalar(0x3dcc_cccd)
            };
            let run = if ped is Some {
                ped->0.run_threshold
            } else {
                scalar(0x4040_0000)
            };
            &&& speed.at_most(idle) ==> *final(current) == 0
            &&& !speed.at_most(idle) && speed.less(run) ==> *final(current) == 1
            &&& !speed.at_most(idle) && !speed.less(run) ==> *final(current) == 2
        }),
        r is Some <==> *final(current) != *old(current),
        r matches Some(clip) ==> {
            &&& ped is None ==> clip@ == "clip:0"@
            &&& ped matches Some(p) ==> {
                &&& *final(current) == 0 ==> clip@ == p.animations.idle@
                &&& *final(current) == 1 ==> clip@ == p.animations.walk@
                &&& *final(current) == 2 ==> clip@ == p.animations.run@
            }
        },
{
}

/// A new character starts with its idle clip, or with the model's first one, and
/// with the first animation sets that are known: of its model, of the overriding
/// profile, of the profile's model.
pub proof fn law_new_character(
    ped: &Option<PedAnimations>,
    clip: String,
    of_model: Option<Vec<String>>,
    of_override: Option<Vec<String>>,
    of_profile: Option<Vec<String>>,
    sets: Vec<String>,
)
    requires
        call_ensures(initial_clip, (ped,), clip),
        call_ensures(attached_sets, (of_model, of_override, of_profile), sets),
    ensures
        ped matches Some(p) ==> (p.idle@.len() > 0 ==> clip@ == p.idle@),
        ped matches Some(p) ==> (p.idle@.len() == 0 ==> clip@ == "clip:0"@),
        ped is None ==> clip@ == "clip:0"@,
        of_model is Some ==> sets == of_model->0,
        of_model is None && of_override is Some ==> sets == of_override->0,
        of_model is None && of_override is None && of_profile is Some ==> sets == of_profile->0,
        of_model is None && of_override is None && of_profile is None ==> sets@.len() == 0,
{
}

} // verus!
