//! Which animation a player's model plays, and which animations a model has.

use vstd::prelude::*;

use crate::gameplay::movement::{
    has_ground_contact_with_thresholds, touches_ground, GroundHit,
};
use crate::anim_sets::{
    all_clips, all_dicts, collect_clip_names, dict_views, merge_dictionaries, AnimDictionary,
    AnimSet,
};
use crate::folds::{lemma_last_contains, lemma_push_contains};
use crate::names::{holds, lemma_views_take, views};
use crate::paths::{
    extension, extension_of, file_name, has_extension, leads_to, lemma_leads_to, name_of,
    plain_name,
};
use crate::scalar::{scalar, Scalar, ONE, ZERO};
use crate::text::{
    decimal, decimal_digits, digits_value, has_head, numeral_below, parse_u32, replace_char,
    replaced, same, strip_head, unsigned_part,
};

verus! {

/// 0.07 m and 0.14 m: ground contact, as the animation sees it.
pub const ANIM_GROUND_CONTACT_DIST_ENTER: u32 = 0x3d8f_5c29;

pub const ANIM_GROUND_CONTACT_DIST_EXIT: u32 = 0x3e0f_5c29;

/// 0.18 s: how long a player in the air still counts as grounded.
pub const ANIM_GROUNDED_GRACE_SECS: u32 = 0x3e38_51ec;

/// -0.10 m/s: a touchdown faster than this plays the landing.
pub const LAND_VEL: u32 = 0xbdcc_cccd;

/// -0.2 m/s: falling faster than this plays the fall.
pub const FALL_VEL: u32 = 0xbe4c_cccd;

/// 0.08 s, 0.10 s and 0.16 s: blends into a landing, into the air, on the ground.
pub const BLEND_LAND: u32 = 0x3da3_d70a;

pub const BLEND_AIR: u32 = 0x3dcc_cccd;

pub const BLEND_GROUND: u32 = 0x3e23_d70a;

/// The pace of a model on the ground.
#[derive(Clone, Copy, PartialEq, Eq, Structural, Debug)]
pub enum LocomotionState {
    Idle,
    Walk,
    Run,
    Sprint,
}

impl Default for LocomotionState {
    fn default() -> (r: Self)
        ensures
            r == LocomotionState::Idle,
    {
        LocomotionState::Idle
    }
}

impl LocomotionState {
    /// Idle, walk, run and sprint, in rising order.
    pub open spec fn level(self) -> int {
        match self {
            LocomotionState::Idle => 0,
            LocomotionState::Walk => 1,
            LocomotionState::Run => 2,
            LocomotionState::Sprint => 3,
        }
    }
}

/// The animation that a player shows.
#[derive(Clone, Copy, PartialEq, Eq, Structural, Debug)]
pub enum PlayerAnimState {
    Idle,
    Walk,
    Run,
    Sprint,
    Jump,
    Fall,
    Land,
}

impl Default for PlayerAnimState {
    fn default() -> (r: Self)
        ensures
            r == PlayerAnimState::Idle,
    {
        PlayerAnimState::Idle
    }
}

impl PlayerAnimState {
    pub open spec fn label(self) -> Seq<char> {
        match self {
            PlayerAnimState::Idle => "idle"@,
            PlayerAnimState::Walk => "walk"@,
            PlayerAnimState::Run => "run"@,
            PlayerAnimState::Sprint => "sprint"@,
            PlayerAnimState::Jump => "jump"@,
            PlayerAnimState::Fall => "fall"@,
            PlayerAnimState::Land => "land"@,
        }
    }

    pub fn as_str(self) -> (r: &'static str)
        ensures
            r@ == self.label(),
    {
        match self {
            PlayerAnimState::Idle => "idle",
            PlayerAnimState::Walk => "walk",
            PlayerAnimState::Run => "run",
            PlayerAnimState::Sprint => "sprint",
            PlayerAnimState::Jump => "jump",
            PlayerAnimState::Fall => "fall",
            PlayerAnimState::Land => "land",
        }
    }
}

/// What the choice of a player's animation remembers between frames.
#[derive(Clone, Copy, PartialEq, Eq, Structural, Debug)]
pub struct AutoPlayerAnimMemory {
    pub was_grounded: bool,
    pub land_until: Scalar,
    pub airborne: bool,
    /// When the player left the ground; read while `airborne` only.
    pub airborne_since: Scalar,
    pub move_intent_until: Scalar,
    pub filtered_horiz_speed: Scalar,
    pub locomotion: LocomotionState,
    pub anim_state: PlayerAnimState,
}

impl Default for AutoPlayerAnimMemory {
    fn default() -> (r: Self)
        ensures
            !r.was_grounded,
            !r.airborne,
            r.land_until == scalar(ZERO),
            r.airborne_since == scalar(ZERO),
            r.move_intent_until == scalar(ZERO),
            r.filtered_horiz_speed == scalar(ZERO),
            r.locomotion == LocomotionState::Idle,
            r.anim_state == PlayerAnimState::Idle,
    {
        AutoPlayerAnimMemory {
            was_grounded: false,
            land_until: scalar(ZERO),
            airborne: false,
            airborne_since: scalar(ZERO),
            move_intent_until: scalar(ZERO),
            filtered_horiz_speed: scalar(ZERO),
            locomotion: LocomotionState::Idle,
            anim_state: PlayerAnimState::Idle,
        }
    }
}

/// The speeds at which the pace changes.
#[derive(Clone, Copy, PartialEq, Eq, Structural, Debug)]
pub struct PaceLimits {
    pub idle: Scalar,
    pub idle_exit: Scalar,
    pub walk_up: Scalar,
    pub walk_down: Scalar,
    pub sprint_up: Scalar,
    pub sprint_down: Scalar,
}

/// What one frame of the choice is made from.
#[derive(Clone, Copy, PartialEq, Eq, Structural, Debug)]
pub struct AnimFrame {
    pub now: Scalar,
    /// Now, less the time at which the player left the ground.
    pub airborne_for: Scalar,
    pub vel_y: Scalar,
    /// Now, and the time that a landing plays.
    pub land_deadline: Scalar,
    /// The smoothed horizontal speed after this frame.
    pub filtered_next: Scalar,
    /// Now, and the time that a movement key keeps its effect.
    pub intent_deadline: Scalar,
    pub is_local_player: bool,
    pub has_move_input: bool,
    pub limits: PaceLimits,
}

/// The clips of a model, one for each animation state.
#[derive(Clone, Debug)]
pub struct PedAnimations {
    pub idle: String,
    pub walk: String,
    pub run: String,
    pub sprint: String,
    pub jump_loop: String,
    pub fall_loop: String,
    pub land: String,
}

impl PedAnimations {
    pub open spec fn clip(self, state: PlayerAnimState) -> Seq<char> {
        match state {
            PlayerAnimState::Idle => self.idle@,
            PlayerAnimState::Walk => self.walk@,
            PlayerAnimState::Run => self.run@,
            PlayerAnimState::Sprint => self.sprint@,
            PlayerAnimState::Jump => self.jump_loop@,
            PlayerAnimState::Fall => self.fall_loop@,
            PlayerAnimState::Land => self.land@,
        }
    }

    fn clip_name(&self, state: PlayerAnimState) -> (r: &String)
        ensures
            r@ == self.clip(state),
    {
        match state {
            PlayerAnimState::Idle => &self.idle,
            PlayerAnimState::Walk => &self.walk,
            PlayerAnimState::Run => &self.run,
            PlayerAnimState::Sprint => &self.sprint,
            PlayerAnimState::Jump => &self.jump_loop,
            PlayerAnimState::Fall => &self.fall_loop,
            PlayerAnimState::Land => &self.land,
        }
    }
}

/// What a model plays.
#[derive(Clone, Debug)]
pub struct AnimationState {
    pub current: Option<String>,
    pub speed: Scalar,
    pub looping: bool,
    pub paused: bool,
    pub blend_time: Scalar,
    pub flags: u32,
}

/// The contents of an `AnimationState`.
pub struct AnimationView {
    pub current: Option<Seq<char>>,
    pub speed: Scalar,
    pub looping: bool,
    pub paused: bool,
    pub blend_time: Scalar,
    pub flags: u32,
}

impl View for AnimationState {
    type V = AnimationView;

    open spec fn view(&self) -> AnimationView {
        AnimationView {
            current: match self.current {
                Some(c) => Some(c@),
                None => None,
            },
            speed: self.speed,
            looping: self.looping,
            paused: self.paused,
            blend_time: self.blend_time,
            flags: self.flags,
        }
    }
}

/// An animation that starts from its beginning at full speed.
pub open spec fn started(clip: Seq<char>, looping: bool, blend_time: Scalar) -> AnimationView {
    AnimationView {
        current: Some(clip),
        speed: scalar(ONE),
        looping,
        paused: false,
        blend_time,
        flags: 1,
    }
}

impl AutoPlayerAnimMemory {
    /// On the ground, or off it for no longer than the grace period.
    pub open spec fn grounded(self, f: AnimFrame, raw: bool) -> bool {
        ||| raw
        ||| !self.airborne && f.now.finite()
        ||| self.airborne && f.airborne_for.at_most(scalar(ANIM_GROUNDED_GRACE_SECS))
    }

    pub open spec fn lands(self, f: AnimFrame, raw: bool) -> bool {
        self.grounded(f, raw) && !self.was_grounded && f.vel_y.less(scalar(LAND_VEL))
    }

    pub open spec fn landing_until(self, f: AnimFrame, raw: bool) -> Scalar {
        if self.lands(f, raw) {
            f.land_deadline
        } else {
            self.land_until
        }
    }

    pub open spec fn intent_until(self, f: AnimFrame) -> Scalar {
        if !f.is_local_player {
            self.move_intent_until
        } else if f.has_move_input {
            f.intent_deadline
        } else {
            f.now
        }
    }

    /// The local player has lately asked to move.
    pub open spec fn intends(self, f: AnimFrame) -> bool {
        f.is_local_player && f.now.less(self.intent_until(f))
    }

    /// The local player stands on the ground and asks for no movement.
    pub open spec fn stops(self, f: AnimFrame, raw: bool) -> bool {
        f.is_local_player && self.grounded(f, raw) && !f.has_move_input
    }

    /// The pace after the frame.
    pub open spec fn pace(self, f: AnimFrame, raw: bool) -> LocomotionState {
        let speed = f.filtered_next;
        if self.stops(f, raw) {
            LocomotionState::Idle
        } else {
            match self.locomotion {
                LocomotionState::Idle => if f.limits.idle_exit.less(speed) || (self.intends(f)
                    && self.grounded(f, raw)) {
                    LocomotionState::Walk
                } else {
                    LocomotionState::Idle
                },
                LocomotionState::Walk => if speed.at_most(f.limits.idle) && !self.intends(f) {
                    LocomotionState::Idle
                } else if f.limits.walk_up.at_most(speed) {
                    LocomotionState::Run
                } else {
                    LocomotionState::Walk
                },
                LocomotionState::Run => if speed.at_most(f.limits.walk_down) {
                    LocomotionState::Walk
                } else if f.limits.sprint_up.at_most(speed) {
                    LocomotionState::Sprint
                } else {
                    LocomotionState::Run
                },
                LocomotionState::Sprint => if speed.at_most(f.limits.sprint_down) {
                    LocomotionState::Run
                } else {
                    LocomotionState::Sprint
                },
            }
        }
    }

    /// The animation that the frame asks for.
    pub open spec fn shown(self, f: AnimFrame, raw: bool) -> PlayerAnimState {
        if !self.grounded(f, raw) {
            if f.vel_y.less(scalar(FALL_VEL)) {
                PlayerAnimState::Fall
            } else {
                PlayerAnimState::Jump
            }
        } else if f.now.less(self.landing_until(f, raw)) {
            PlayerAnimState::Land
        } else {
            match self.pace(f, raw) {
                LocomotionState::Idle => if self.intends(f) {
                    PlayerAnimState::Walk
                } else {
                    PlayerAnimState::Idle
                },
                LocomotionState::Walk => PlayerAnimState::Walk,
                LocomotionState::Run => PlayerAnimState::Run,
                LocomotionState::Sprint => PlayerAnimState::Sprint,
            }
        }
    }

    /// The memory after a frame in which the model has a clip to show or none.
    pub open spec fn after(self, f: AnimFrame, raw: bool, has_clip: bool) -> AutoPlayerAnimMemory {
        AutoPlayerAnimMemory {
            was_grounded: self.grounded(f, raw),
            land_until: self.landing_until(f, raw),
            airborne: !raw,
            airborne_since: if !raw && !self.airborne {
                f.now
            } else {
                self.airborne_since
            },
            move_intent_until: self.intent_until(f),
            filtered_horiz_speed: if self.stops(f, raw) {
                scalar(ZERO)
            } else {
                f.filtered_next
            },
            locomotion: self.pace(f, raw),
            anim_state: if has_clip {
                self.shown(f, raw)
            } else {
                self.anim_state
            },
        }
    }
}

pub open spec fn blend_of(state: PlayerAnimState) -> Scalar {
    match state {
        PlayerAnimState::Land => scalar(BLEND_LAND),
        PlayerAnimState::Jump | PlayerAnimState::Fall => scalar(BLEND_AIR),
        _ => scalar(BLEND_GROUND),
    }
}

/// The animation of a model that is to show `state`, from what it plays.
pub open spec fn played(
    playing: Option<AnimationView>,
    state: PlayerAnimState,
    clip: Seq<char>,
) -> AnimationView {
    let looping = state != PlayerAnimState::Land;
    match playing {
        Some(p) => if p.current == Some(clip) && p.looping == looping {
            p
        } else {
            started(clip, looping, blend_of(state))
        },
        None => started(clip, looping, blend_of(state)),
    }
}

/// What a frame decides for a model: nothing where the wanted clip is unnamed.
pub struct AnimDecision {
    pub state: PlayerAnimState,
    pub grounded: bool,
    pub move_intent: bool,
    /// The state differs from the one before: listeners are told.
    pub changed: bool,
    pub animation: AnimationState,
}

fn keep_or_start(
    playing: Option<AnimationState>,
    clip: &String,
    state: PlayerAnimState,
) -> (r: AnimationState)
    ensures
        r@ == played(
            match playing {
                Some(p) => Some(p@),
                None => None,
            },
            state,
            clip@,
        ),
{
    let looping = state != PlayerAnimState::Land;
    let blend_time: Scalar = match state {
        PlayerAnimState::Land => scalar(BLEND_LAND),
        PlayerAnimState::Jump | PlayerAnimState::Fall => scalar(BLEND_AIR),
        _ => scalar(BLEND_GROUND),
    };
    if let Some(p) = playing {
        let same_clip = match &p.current {
            Some(c) => same(c.as_str(), clip.as_str()),
            None => false,
        };
        if same_clip && p.looping == looping {
            return p;
        }
    }
    AnimationState {
        current: Some(clip.clone()),
        speed: scalar(ONE),
        looping,
        paused: false,
        blend_time,
        flags: 1,
    }
}

/// Chooses the animation of one player's model for one frame.
pub fn update_player_state_driven_animations(
    memory: &mut AutoPlayerAnimMemory,
    f: &AnimFrame,
    hits: &Vec<GroundHit>,
    clips: &PedAnimations,
    playing: Option<AnimationState>,
) -> (r: Option<AnimDecision>)
    ensures
        ({
            let raw = touches_ground(
                hits@,
                old(memory).was_grounded,
                scalar(ANIM_GROUND_CONTACT_DIST_ENTER),
                scalar(ANIM_GROUND_CONTACT_DIST_EXIT),
            );
            let state = old(memory).shown(*f, raw);
            let clip = clips.clip(state);
            &&& *final(memory) == old(memory).after(*f, raw, clip.len() > 0)
            &&& r is Some <==> clip.len() > 0
            &&& r matches Some(d) ==> {
                &&& d.state == state
                &&& d.grounded == old(memory).grounded(*f, raw)
                &&& d.move_intent == old(memory).intends(*f)
                &&& d.changed == (old(memory).anim_state != state)
                &&& d.animation@ == played(
                    match playing {
                        Some(p) => Some(p@),
                        None => None,
                    },
                    state,
                    clip,
                )
            }
        }),
{
    let raw = has_ground_contact_with_thresholds(
        hits,
        memory.was_grounded,
        scalar(ANIM_GROUND_CONTACT_DIST_ENTER),
        scalar(ANIM_GROUND_CONTACT_DIST_EXIT),
    );
    let grounded = if raw {
        true
    } else if memory.airborne {
        f.airborne_for.le(scalar(ANIM_GROUNDED_GRACE_SECS))
    } else {
        f.now.is_finite()
    };
    if raw {
        memory.airborne = false;
    } else if !memory.airborne {
        memory.airborne = true;
        memory.airborne_since = f.now;
    }
    if grounded && !memory.was_grounded && f.vel_y.lt(scalar(LAND_VEL)) {
        memory.land_until = f.land_deadline;
    }
    memory.was_grounded = grounded;
    if f.is_local_player && f.has_move_input {
        memory.move_intent_until = f.intent_deadline;
    } else if f.is_local_player {
        memory.move_intent_until = f.now;
    }
    let intends = f.is_local_player && f.now.lt(memory.move_intent_until);
    if f.is_local_player && grounded && !f.has_move_input {
        memory.locomotion = LocomotionState::Idle;
        memory.filtered_horiz_speed = scalar(ZERO);
    } else {
        memory.filtered_horiz_speed = f.filtered_next;
        memory.locomotion = next_pace(memory.locomotion, f, intends, grounded);
    }
    let state = if !grounded {
        if f.vel_y.lt(scalar(FALL_VEL)) {
            PlayerAnimState::Fall
        } else {
            PlayerAnimState::Jump
        }
    } else if f.now.lt(memory.land_until) {
        PlayerAnimState::Land
    } else {
        match memory.locomotion {
            LocomotionState::Idle => if intends {
                PlayerAnimState::Walk
            } else {
                PlayerAnimState::Idle
            },
            LocomotionState::Walk => PlayerAnimState::Walk,
            LocomotionState::Run => PlayerAnimState::Run,
            LocomotionState::Sprint => PlayerAnimState::Sprint,
        }
    };
    let clip = clips.clip_name(state);
    if clip.as_str().is_empty() {
        return None;
    }
    let changed = memory.anim_state != state;
    memory.anim_state = state;
    let animation = keep_or_start(playing, clip, state);
    Some(AnimDecision { state, grounded, move_intent: intends, changed, animation })
}

fn next_pace(
    pace: LocomotionState,
    f: &AnimFrame,
    intends: bool,
    grounded: bool,
) -> (r: LocomotionState)
    ensures
        forall|m: AutoPlayerAnimMemory, raw: bool|
            m.locomotion == pace && m.intends(*f) == intends && m.grounded(*f, raw) == grounded
                && !m.stops(*f, raw) ==> r == #[trigger] m.pace(*f, raw),
{
    let speed: Scalar = f.filtered_next;
    match pace {
        LocomotionState::Idle => if f.limits.idle_exit.lt(speed) || (intends && grounded) {
            LocomotionState::Walk
        } else {
            LocomotionState::Idle
        },
        LocomotionState::Walk => if speed.le(f.limits.idle) && !intends {
            LocomotionState::Idle
        } else if f.limits.walk_up.le(speed) {
            LocomotionState::Run
        } else {
            LocomotionState::Walk
        },
        LocomotionState::Run => if speed.le(f.limits.walk_down) {
            LocomotionState::Walk
        } else if f.limits.sprint_up.le(speed) {
            LocomotionState::Sprint
        } else {
            LocomotionState::Run
        },
        LocomotionState::Sprint => if speed.le(f.limits.sprint_down) {
            LocomotionState::Run
        } else {
            LocomotionState::Sprint
        },
    }
}

/// The pace changes by at most one step in a frame, unless the local player
/// stops, which takes it to idle at once.
pub proof fn law_pace_steps(m: AutoPlayerAnimMemory, f: AnimFrame, raw: bool)
    ensures
        m.stops(f, raw) ==> m.pace(f, raw) == LocomotionState::Idle,
        !m.stops(f, raw) ==> -1 <= m.pace(f, raw).level() - m.locomotion.level() <= 1,
{
}

/// A frame never shows a walk, a run or a sprint in the air, nor a jump or a
/// fall on the ground.
pub proof fn law_shown_fits_ground(m: AutoPlayerAnimMemory, f: AnimFrame, raw: bool)
    ensures
        m.grounded(f, raw) <==> !(m.shown(f, raw) is Jump || m.shown(f, raw) is Fall),
{
}

/// A model that plays what the frame asks for keeps playing it untouched.
pub proof fn law_played_settles(playing: Option<AnimationView>, state: PlayerAnimState, clip: Seq<char>)
    ensures
        played(Some(played(playing, state, clip)), state, clip) == played(playing, state, clip),
{
}

/// Within the limits' order the pace does not flip back: what raised it from
/// walk to run does not lower it in the next frame at the same speed.
pub proof fn law_pace_hysteresis(m: AutoPlayerAnimMemory, f: AnimFrame, raw: bool, n: AutoPlayerAnimMemory)
    requires
        f.limits.walk_down.less(f.limits.walk_up),
        f.limits.sprint_down.less(f.limits.sprint_up),
        m.locomotion == LocomotionState::Walk || m.locomotion == LocomotionState::Run,
        m.pace(f, raw).level() == m.locomotion.level() + 1,
        n == m.after(f, raw, true),
        !n.stops(f, raw),
    ensures
        n.pace(f, raw).level() >= n.locomotion.level(),
{
}

/// A selector names a clip by its number, bare or behind `clip:` or `anim:`.
pub open spec fn clip_number(selector: Seq<char>) -> Option<Seq<char>> {
    if numeral_below(selector, 0x1_0000_0000) {
        Some(selector)
    } else if has_head(selector, "clip:"@) {
        Some(selector.skip(5))
    } else if has_head(selector, "anim:"@) {
        Some(selector.skip(5))
    } else {
        None
    }
}

/// The number of the clip that a selector names, where it names one.
pub open spec fn selected_index(selector: Seq<char>) -> Option<u32> {
    match clip_number(selector) {
        Some(n) => if numeral_below(n, 0x1_0000_0000) {
            Some(digits_value(unsigned_part(n)) as u32)
        } else {
            None
        },
        None => None,
    }
}

/// The number of the clip that a selector names.
pub fn parse_animation_index(selector: &str) -> (r: Option<u32>)
    ensures
        r == selected_index(selector@),
{
    proof {
        reveal_strlit("clip:");
        reveal_strlit("anim:");
    }
    if let Some(idx) = parse_u32(selector) {
        return Some(idx);
    }
    if let Some(rest) = strip_head(selector, "clip:") {
        return parse_u32(rest.as_str());
    }
    if let Some(rest) = strip_head(selector, "anim:") {
        return parse_u32(rest.as_str());
    }
    None
}

/// The name under which an animation without a name is listed.
pub open spec fn numbered_clip(index: nat) -> Seq<char> {
    "clip:"@ + decimal_digits(index)
}

/// The name under which an animation is listed.
pub open spec fn listed_name(animation: Option<String>, index: nat) -> Seq<char> {
    match animation {
        Some(name) => name@,
        None => numbered_clip(index),
    }
}

/// The clip names of a model from the names of its animations.
pub fn extract_gltf_clip_names(animations: &Vec<Option<String>>) -> (r: Vec<String>)
    ensures
        r.len() == animations.len(),
        forall|i: int|
            0 <= i < r.len() ==> (#[trigger] r@[i])@ == listed_name(animations@[i], i as nat),
{
    let mut names: Vec<String> = Vec::new();
    let mut i: usize = 0;
    while i < animations.len()
        invariant
            i <= animations.len(),
            names.len() == i,
            forall|j: int|
                0 <= j < i ==> (#[trigger] names@[j])@ == listed_name(animations@[j], j as nat),
        decreases animations.len() - i,
    {
        match &animations[i] {
            Some(name) => {
                names.push(name.clone());
            },
            None => {
                let mut s = "clip:".to_string();
                let n = decimal(i as u64);
                s.append(n.as_str());
                names.push(s);
            },
        }
        i = i + 1;
    }
    names
}

/// An unnamed animation's listed name selects that animation.
pub proof fn law_listed_name_selects(index: u32)
    ensures
        selected_index(numbered_clip(index as nat)) == Some(index),
{
    reveal_strlit("clip:");
    crate::text::law_numeral_round_trip(index as nat);
    let digits = decimal_digits(index as nat);
    let name = numbered_clip(index as nat);
    assert(name.skip(5) =~= digits);
    assert(name.take(5) =~= "clip:"@);
    assert(unsigned_part(name)[0] == 'c');
    assert(!crate::text::is_digit(unsigned_part(name)[0]));
}

/// The format of a model by the extension of its path.
#[derive(Clone, Copy, PartialEq, Eq, Structural, Debug)]
pub enum ModelFormat {
    Adm,
    Gltf,
    Other,
}

/// The extension of a path, empty where it has none.
pub open spec fn path_extension(path: Seq<char>) -> Seq<char> {
    if has_extension(name_of(path)) {
        extension_of(name_of(path))
    } else {
        Seq::empty()
    }
}

pub open spec fn format_of(path: Seq<char>) -> ModelFormat {
    let e = path_extension(path);
    if e == "adm"@ {
        ModelFormat::Adm
    } else if e == "glb"@ || e == "gltf"@ {
        ModelFormat::Gltf
    } else {
        ModelFormat::Other
    }
}

pub fn model_format(path: &str) -> (r: ModelFormat)
    ensures
        r == format_of(path@),
{
    let name = file_name(path);
    let e = extension(name.as_str());
    assert(e@ =~= path_extension(path@));
    if same(e.as_str(), "adm") {
        ModelFormat::Adm
    } else if same(e.as_str(), "glb") || same(e.as_str(), "gltf") {
        ModelFormat::Gltf
    } else {
        ModelFormat::Other
    }
}

/// What is known of the animations of a model.
#[derive(Clone, Debug)]
pub enum LoadedModel {
    /// The model is not there yet.
    Pending,
    /// A native model: the animation sets of its character that are there.
    Adm(Vec<AnimSet>),
    /// A glTF model: the names of its animations.
    Gltf(Vec<Option<String>>),
}

/// What the registry learns of a model. A model in the glTF format has no
/// dictionaries; those it may have had stay.
#[derive(Clone, Debug)]
pub struct ModelAnimations {
    pub clips: Vec<String>,
    pub dictionaries: Option<Vec<AnimDictionary>>,
}

/// What the registry of animations learns of a model, once it is there.
pub fn update_model_animation_registry(path: &str, loaded: &LoadedModel) -> (r: Option<
    ModelAnimations,
>)
    ensures
        match (format_of(path@), *loaded) {
            (ModelFormat::Adm, LoadedModel::Adm(sets)) => {
                &&& r matches Some(m)
                &&& views(m.clips@) == all_clips(sets@)
                &&& m.dictionaries matches Some(d)
                &&& dict_views(d@) == all_dicts(sets@, false)
            },
            (ModelFormat::Gltf, LoadedModel::Gltf(animations)) => {
                &&& r matches Some(m)
                &&& m.dictionaries is None
                &&& m.clips@.len() == animations@.len()
                &&& forall|i: int|
                    0 <= i < m.clips@.len() ==> (#[trigger] m.clips@[i])@ == listed_name(
                        animations@[i],
                        i as nat,
                    )
            },
            _ => r is None,
        },
{
    match (model_format(path), loaded) {
        (ModelFormat::Adm, LoadedModel::Adm(sets)) => Some(
            ModelAnimations {
                clips: collect_clip_names(sets),
                dictionaries: Some(merge_dictionaries(sets, false)),
            },
        ),
        (ModelFormat::Gltf, LoadedModel::Gltf(animations)) => Some(
            ModelAnimations { clips: extract_gltf_clip_names(animations), dictionaries: None },
        ),
        _ => None,
    }
}

/// Where the handle of a model comes from.
#[derive(Clone, Debug)]
pub enum HandleSource {
    /// The assets that ship with the client.
    Native,
    /// A load that an earlier look started.
    Discovered,
    /// A load from this path, to be remembered.
    Load(String),
}

/// Where the handle of a model comes from: the path that is loaded has forward
/// slashes only.
pub fn model_handle_source(path: &str, native: bool, discovered: bool) -> (r: HandleSource)
    ensures
        match r {
            HandleSource::Native => native,
            HandleSource::Discovered => !native && discovered,
            HandleSource::Load(p) => !native && !discovered && p@ == replaced(path@, '\\', "/"@),
        },
{
    if native {
        HandleSource::Native
    } else if discovered {
        HandleSource::Discovered
    } else {
        HandleSource::Load(replace_char(path, '\\', "/"))
    }
}

/// The names that are among those to keep, in their order.
pub open spec fn retained(names: Seq<Seq<char>>, keep: Seq<Seq<char>>) -> Seq<Seq<char>>
    decreases names.len(),
{
    if names.len() == 0 {
        names
    } else if keep.contains(names.last()) {
        retained(names.drop_last(), keep).push(names.last())
    } else {
        retained(names.drop_last(), keep)
    }
}

/// The models that a registry goes on to hold: those that are still registered.
pub fn retain_models(names: &Vec<String>, keep: &Vec<String>) -> (r: Vec<String>)
    ensures
        views(r@) == retained(views(names@), views(keep@)),
{
    let mut r: Vec<String> = Vec::new();
    let mut i: usize = 0;
    assert(views(names@.take(0)) =~= Seq::<Seq<char>>::empty());
    assert(views(r@) =~= Seq::<Seq<char>>::empty());
    while i < names.len()
        invariant
            i <= names.len(),
            views(r@) == retained(views(names@.take(i as int)), views(keep@)),
        decreases names.len() - i,
    {
        let ghost before = r@;
        proof {
            lemma_views_take(names@, i as int);
        }
        if holds(keep, names[i].as_str()) {
            r.push(names[i].clone());
            assert(views(r@) =~= views(before).push(names@[i as int]@));
        }
        i = i + 1;
    }
    assert(names@.take(names.len() as int) =~= names@);
    r
}

/// A graph that was made for a clip of a model.
#[derive(Clone, Debug)]
pub struct GraphKey {
    pub model: String,
    pub clip: u32,
}

/// The graph that plays what a script asks for.
#[derive(Clone, Debug)]
pub enum GraphSource {
    /// There is none.
    Unavailable,
    /// The one of this number among those made before.
    Cached(usize),
    /// One made from this clip of the file at the path.
    Make { path: String, clip: u32 },
}

pub open spec fn is_key(key: GraphKey, model: Seq<char>, clip: u32) -> bool {
    key.model@ == model && key.clip == clip
}

/// Finds the graph for a clip that a script names by its number. Only models in
/// the glTF format have such clips.
pub fn resolve_animation_graph(
    model: &str,
    selector: &str,
    made: &Vec<GraphKey>,
    path: &Option<String>,
) -> (r: GraphSource)
    ensures
        match (selected_index(selector@), r) {
            (None, _) => r is Unavailable,
            (Some(clip), GraphSource::Cached(i)) => i < made@.len() && is_key(
                made@[i as int],
                model@,
                clip,
            ) && forall|j: int| 0 <= j < i ==> !is_key(#[trigger] made@[j], model@, clip),
            (Some(clip), GraphSource::Make { path: p, clip: c }) => c == clip && (forall|j: int|
                0 <= j < made@.len() ==> !is_key(#[trigger] made@[j], model@, clip)) && path is Some
                && format_of(path->0@) == ModelFormat::Gltf && p@ == replaced(path->0@, '\\', "/"@),
            (Some(clip), GraphSource::Unavailable) => (forall|j: int|
                0 <= j < made@.len() ==> !is_key(#[trigger] made@[j], model@, clip)) && (path is None
                || format_of(path->0@) != ModelFormat::Gltf),
        },
{
    let clip: u32 = match parse_animation_index(selector) {
        Some(c) => c,
        None => {
            return GraphSource::Unavailable;
        },
    };
    let mut i: usize = 0;
    while i < made.len()
        invariant
            i <= made.len(),
            selected_index(selector@) == Some(clip),
            forall|j: int| 0 <= j < i ==> !is_key(#[trigger] made@[j], model@, clip),
        decreases made.len() - i,
    {
        if made[i].clip == clip && same(made[i].model.as_str(), model) {
            return GraphSource::Cached(i);
        }
        i = i + 1;
    }
    match path {
        None => GraphSource::Unavailable,
        Some(p) => {
            if model_format(p.as_str()) == ModelFormat::Gltf {
                GraphSource::Make { path: replace_char(p.as_str(), '\\', "/"), clip }
            } else {
                GraphSource::Unavailable
            }
        },
    }
}

/// What happens to a player of animations below a model that a script animates.
#[derive(Clone, Copy, PartialEq, Eq, Structural, Debug)]
pub struct PlayerOrders {
    /// It gets the graph of the model, having another one or none.
    pub take_graph: bool,
    pub repeat: bool,
    pub speed: Scalar,
    pub paused: bool,
}

/// What a player does for the state that a script set; nothing without a clip.
pub fn apply_lua_animation_state(state: &AnimationState, same_graph: Option<bool>) -> (r: Option<
    PlayerOrders,
>)
    ensures
        r is Some <==> state.current is Some,
        r matches Some(o) ==> o == (PlayerOrders {
            take_graph: same_graph != Some(true),
            repeat: state.looping,
            speed: state.speed,
            paused: state.paused,
        }),
{
    if state.current.is_none() {
        return None;
    }
    let take_graph = match same_graph {
        Some(same) => !same,
        None => true,
    };
    Some(
        PlayerOrders {
            take_graph,
            repeat: state.looping,
            speed: state.speed,
            paused: state.paused,
        },
    )
}

/// A model on the ground whose speed is at most the idle limit, and that has no
/// movement intent, drops one level of pace in the frame: from sprint to run,
/// from run to walk, and from walk to idle. A player who stands without asking
/// for movement is idle at once.
pub proof fn law_pace_drops(
    memory: &mut AutoPlayerAnimMemory,
    f: &AnimFrame,
    hits: &Vec<GroundHit>,
    clips: &PedAnimations,
    playing: Option<AnimationState>,
    r: Option<AnimDecision>,
)
    requires
        call_ensures(
            update_player_state_driven_animations,
            (memory, f, hits, clips, playing),
            r,
        ),
        final(memory).was_grounded,
        !(f.is_local_player && f.now.less(final(memory).move_intent_until)),
        f.filtered_next.at_most(f.limits.idle),
        f.limits.idle.at_most(f.limits.idle_exit),
        f.limits.idle.at_most(f.limits.walk_down),
        f.limits.idle.at_most(f.limits.sprint_down),
    ensures
        old(memory).locomotion is Idle ==> final(memory).locomotion is Idle,
        old(memory).locomotion is Walk ==> final(memory).locomotion is Idle,
        old(memory).locomotion is Run ==> final(memory).locomotion is Walk || final(memory).locomotion is Idle,
        old(memory).locomotion is Sprint ==> final(memory).locomotion is Run || final(memory).locomotion is Idle,
        f.is_local_player && !f.has_move_input ==> final(memory).locomotion is Idle,
        final(memory).locomotion is Idle && !f.now.less(final(memory).land_until) && r is Some
            ==> r->0.state is Idle && final(memory).anim_state is Idle,
{
}

/// Three such frames make any model idle, whatever its pace was.
pub proof fn law_pace_settles(
    first: &mut AutoPlayerAnimMemory,
    second: &mut AutoPlayerAnimMemory,
    third: &mut AutoPlayerAnimMemory,
    f: &AnimFrame,
    hits: &Vec<GroundHit>,
    clips: &PedAnimations,
    playing: Option<AnimationState>,
    a: Option<AnimDecision>,
    b: Option<AnimDecision>,
    c: Option<AnimDecision>,
)
    requires
        call_ensures(update_player_state_driven_animations, (first, f, hits, clips, playing), a),
        call_ensures(update_player_state_driven_animations, (second, f, hits, clips, playing), b),
        call_ensures(update_player_state_driven_animations, (third, f, hits, clips, playing), c),
        *old(second) == *final(first),
        *old(third) == *final(second),
        final(first).was_grounded,
        final(second).was_grounded,
        final(third).was_grounded,
        !f.is_local_player,
        f.filtered_next.at_most(f.limits.idle),
        f.limits.idle.at_most(f.limits.idle_exit),
        f.limits.idle.at_most(f.limits.walk_down),
        f.limits.idle.at_most(f.limits.sprint_down),
    ensures
        final(third).locomotion is Idle,
        c is Some && !f.now.less(final(third).land_until) ==> c->0.state is Idle,
{
    law_pace_drops(first, f, hits, clips, playing, a);
    law_pace_drops(second, f, hits, clips, playing, b);
    law_pace_drops(third, f, hits, clips, playing, c);
}

/// The pace of a model that is not told to stand: each level is left upward at
/// its upper limit, downward at its lower one, and kept between them. A player
/// with movement intent on the ground walks at least, and does not stop.
pub proof fn law_pace_levels(
    memory: &mut AutoPlayerAnimMemory,
    f: &AnimFrame,
    hits: &Vec<GroundHit>,
    clips: &PedAnimations,
    playing: Option<AnimationState>,
    r: Option<AnimDecision>,
)
    requires
        call_ensures(
            update_player_state_driven_animations,
            (memory, f, hits, clips, playing),
            r,
        ),
        !(f.is_local_player && final(memory).was_grounded && !f.has_move_input),
    ensures
        ({
            let speed = f.filtered_next;
            let intent = f.is_local_player && f.now.less(final(memory).move_intent_until);
            let next = final(memory).locomotion;
            &&& old(memory).locomotion is Idle ==> next == (if f.limits.idle_exit.less(speed)
                || (intent && final(memory).was_grounded) {
                LocomotionState::Walk
            } else {
                LocomotionState::Idle
            })
            &&& old(memory).locomotion is Walk && intent && !f.limits.walk_up.at_most(speed)
                ==> next is Walk
            &&& old(memory).locomotion is Walk && !speed.at_most(f.limits.idle)
                && !f.limits.walk_up.at_most(speed) ==> next is Walk
            &&& old(memory).locomotion is Walk && !speed.at_most(f.limits.idle)
                && f.limits.walk_up.at_most(speed) ==> next is Run
            &&& old(memory).locomotion is Run && speed.at_most(f.limits.walk_down) ==> next is Walk
            &&& old(memory).locomotion is Run && !speed.at_most(f.limits.walk_down) ==> next == (
            if f.limits.sprint_up.at_most(speed) {
                LocomotionState::Sprint
            } else {
                LocomotionState::Run
            })
            &&& old(memory).locomotion is Sprint ==> next == (if speed.at_most(
                f.limits.sprint_down,
            ) {
                LocomotionState::Run
            } else {
                LocomotionState::Sprint
            })
            &&& final(memory).filtered_horiz_speed == f.filtered_next
        }),
{
}

/// A local player on the ground who asks for no movement is idle at once, with
/// no speed left.
pub proof fn law_player_stops(
    memory: &mut AutoPlayerAnimMemory,
    f: &AnimFrame,
    hits: &Vec<GroundHit>,
    clips: &PedAnimations,
    playing: Option<AnimationState>,
    r: Option<AnimDecision>,
)
    requires
        call_ensures(
            update_player_state_driven_animations,
            (memory, f, hits, clips, playing),
            r,
        ),
        f.is_local_player,
        final(memory).was_grounded,
        !f.has_move_input,
    ensures
        final(memory).locomotion is Idle,
        final(memory).filtered_horiz_speed == scalar(0),
        final(memory).move_intent_until == f.now,
{
}

/// Ground, air and landing. A model is grounded while the probe touches ground
/// (within 0.07 m, or 0.14 m once it does), and for 0.18 s in the air; the time
/// in the air counts from its first frame. It lands where it comes down faster
/// than 0.1, and the landing plays until its deadline.
pub proof fn law_anim_ground(
    memory: &mut AutoPlayerAnimMemory,
    f: &AnimFrame,
    hits: &Vec<GroundHit>,
    clips: &PedAnimations,
    playing: Option<AnimationState>,
    r: Option<AnimDecision>,
    touching: bool,
)
    requires
        call_ensures(
            update_player_state_driven_animations,
            (memory, f, hits, clips, playing),
            r,
        ),
        call_ensures(
            has_ground_contact_with_thresholds,
            (hits, old(memory).was_grounded, scalar(0x3d8f_5c29), scalar(0x3e0f_5c29)),
            touching,
        ),
        f.now.finite(),
    ensures
        final(memory).airborne == !touching,
        final(memory).was_grounded <==> touching || !old(memory).airborne || f.airborne_for.at_most(
            scalar(0x3e38_51ec),
        ),
        !touching && !old(memory).airborne ==> final(memory).airborne_since == f.now,
        !touching && old(memory).airborne ==> final(memory).airborne_since == old(memory).airborne_since,
        final(memory).was_grounded && !old(memory).was_grounded && f.vel_y.less(scalar(0xbdcc_cccd))
            ==> final(memory).land_until == f.land_deadline,
        !final(memory).was_grounded || old(memory).was_grounded || !f.vel_y.less(
            scalar(0xbdcc_cccd),
        ) ==> final(memory).land_until == old(memory).land_until,
        r matches Some(d) ==> d.grounded == final(memory).was_grounded,
{
}

/// The intent of the local player lasts past the press of a movement key; other
/// players have none.
pub proof fn law_move_intent(
    memory: &mut AutoPlayerAnimMemory,
    f: &AnimFrame,
    hits: &Vec<GroundHit>,
    clips: &PedAnimations,
    playing: Option<AnimationState>,
    r: Option<AnimDecision>,
)
    requires
        call_ensures(
            update_player_state_driven_animations,
            (memory, f, hits, clips, playing),
            r,
        ),
    ensures
        f.is_local_player && f.has_move_input ==> final(memory).move_intent_until
            == f.intent_deadline,
        f.is_local_player && !f.has_move_input ==> final(memory).move_intent_until == f.now,
        !f.is_local_player ==> final(memory).move_intent_until == old(memory).move_intent_until,
        r matches Some(d) ==> (d.move_intent <==> f.is_local_player && f.now.less(
            final(memory).move_intent_until,
        )),
{
}

/// The animation that a frame shows: off the ground a fall below -0.2 and a jump
/// above, on it the landing until its deadline and then the pace, with a walk in
/// place of standing for a player who wants to move. It is told as changed where
/// it differs from the one before.
pub proof fn law_shown_state(
    memory: &mut AutoPlayerAnimMemory,
    f: &AnimFrame,
    hits: &Vec<GroundHit>,
    clips: &PedAnimations,
    playing: Option<AnimationState>,
    r: Option<AnimDecision>,
)
    requires
        call_ensures(
            update_player_state_driven_animations,
            (memory, f, hits, clips, playing),
            r,
        ),
    ensures
        r matches Some(d) ==> {
            let ground = final(memory).was_grounded;
            let landing = f.now.less(final(memory).land_until);
            let pace = final(memory).locomotion;
            &&& d.state is Fall <==> !ground && f.vel_y.less(scalar(0xbe4c_cccd))
            &&& d.state is Jump <==> !ground && !f.vel_y.less(scalar(0xbe4c_cccd))
            &&& d.state is Land <==> ground && landing
            &&& d.state is Idle <==> ground && !landing && pace is Idle && !d.move_intent
            &&& d.state is Walk <==> ground && !landing && (pace is Walk || (pace is Idle
                && d.move_intent))
            &&& d.state is Run <==> ground && !landing && pace is Run
            &&& d.state is Sprint <==> ground && !landing && pace is Sprint
            &&& d.changed <==> d.state != old(memory).anim_state
            &&& final(memory).anim_state == d.state
        },
        r is None ==> final(memory).anim_state == old(memory).anim_state,
{
}

/// The clip that a model plays is the one that its profile names for the state;
/// one that plays already goes on, and a new one starts at full speed, over
/// 0.08 s for a landing, 0.1 s in the air and 0.16 s on the ground. Only a landing
/// plays once.
pub proof fn law_shown_clip(
    memory: &mut AutoPlayerAnimMemory,
    f: &AnimFrame,
    hits: &Vec<GroundHit>,
    clips: &PedAnimations,
    playing: Option<AnimationState>,
    r: Option<AnimDecision>,
)
    requires
        call_ensures(
            update_player_state_driven_animations,
            (memory, f, hits, clips, playing),
            r,
        ),
    ensures
        r matches Some(d) ==> {
            let clip = match d.state {
                PlayerAnimState::Idle => clips.idle@,
                PlayerAnimState::Walk => clips.walk@,
                PlayerAnimState::Run => clips.run@,
                PlayerAnimState::Sprint => clips.sprint@,
                PlayerAnimState::Jump => clips.jump_loop@,
                PlayerAnimState::Fall => clips.fall_loop@,
                PlayerAnimState::Land => clips.land@,
            };
            let goes_on = playing is Some && playing->0.current is Some && playing->0.current->0@
                == clip && playing->0.looping == !(d.state is Land);
            &&& clip.len() > 0
            &&& d.animation@.current == Some(clip)
            &&& d.animation@.looping == !(d.state is Land)
            &&& goes_on ==> d.animation@ == playing->0@
            &&& !goes_on ==> {
                &&& d.animation@.speed == scalar(0x3f80_0000)
                &&& !d.animation@.paused
                &&& d.animation@.flags == 1
                &&& d.animation@.blend_time == if d.state is Land {
                    scalar(0x3da3_d70a)
                } else if d.state is Jump || d.state is Fall {
                    scalar(0x3dcc_cccd)
                } else {
                    scalar(0x3e23_d70a)
                }
            }
        },
        clips.idle@.len() > 0 && clips.walk@.len() > 0 && clips.run@.len() > 0
            && clips.sprint@.len() > 0 && clips.jump_loop@.len() > 0 && clips.fall_loop@.len() > 0
            && clips.land@.len() > 0 ==> r is Some,
{
}

/// Every state is told to listeners by its own name.
pub proof fn law_state_names(state: PlayerAnimState, r: &'static str)
    requires
        call_ensures(PlayerAnimState::as_str, (state,), r),
    ensures
        state is Idle ==> r@ == "idle"@,
        state is Walk ==> r@ == "walk"@,
        state is Run ==> r@ == "run"@,
        state is Sprint ==> r@ == "sprint"@,
        state is Jump ==> r@ == "jump"@,
        state is Fall ==> r@ == "fall"@,
        state is Land ==> r@ == "land"@,
{
}

/// A number selects the clip of that number, bare or behind `clip:` or `anim:`.
pub proof fn law_selector(selector: &str, n: u32, r: Option<u32>)
    requires
        call_ensures(parse_animation_index, (selector,), r),
        selector@ == decimal_digits(n as nat) || selector@ == "clip:"@ + decimal_digits(n as nat)
            || selector@ == "anim:"@ + decimal_digits(n as nat),
    ensures
        r == Some(n),
{
    reveal_strlit("clip:");
    reveal_strlit("anim:");
    crate::text::law_numeral_round_trip(n as nat);
    let digits = decimal_digits(n as nat);
    let s = selector@;
    if s != digits {
        assert(s.skip(5) =~= digits);
        assert(!crate::text::is_digit(s[0]));
        assert(s[0] == 'c' || s[0] == 'a');
        assert(unsigned_part(s) == s);
        assert(!numeral_below(s, 0x1_0000_0000));
        if s == "clip:"@ + digits {
            assert(s.take(5) =~= "clip:"@);
        } else {
            assert(s.take(5) =~= "anim:"@);
            assert(s.take(5)[0] == 'a');
            assert(!has_head(s, "clip:"@));
        }
    }
}

/// What selects a clip ends in digits: a text without a digit selects none.
pub proof fn law_no_selector(selector: &str, r: Option<u32>)
    requires
        call_ensures(parse_animation_index, (selector,), r),
        selector@.len() == 0 || !crate::text::is_digit(selector@.last()),
    ensures
        r is None,
{
    reveal_strlit("clip:");
    reveal_strlit("anim:");
    let s = selector@;
    lemma_numeral_ends(s);
    if s.len() >= 5 {
        lemma_numeral_ends(s.skip(5));
    }
}

/// The listed names of a model's animations: the given name, or one by which the
/// unnamed animation is selected again.
pub proof fn law_clip_names(
    animations: &Vec<Option<String>>,
    r: Vec<String>,
    i: u32,
    name: &str,
    selected: Option<u32>,
)
    requires
        call_ensures(extract_gltf_clip_names, (animations,), r),
        i < animations@.len(),
        name@ == r@[i as int]@,
        call_ensures(parse_animation_index, (name,), selected),
    ensures
        r@.len() == animations@.len(),
        animations@[i as int] matches Some(given) ==> name@ == given@,
        animations@[i as int] is None ==> selected == Some(i),
{
    law_listed_name_selects(i);
    assert(r@[i as int]@ == listed_name(animations@[i as int], i as nat));
}

/// Where a model's handle comes from: the client's own assets first, then an
/// earlier load, then a new one, from a path without backslashes.
pub proof fn law_handle_source(path: &str, native: bool, discovered: bool, r: HandleSource)
    requires
        call_ensures(model_handle_source, (path, native, discovered), r),
    ensures
        native ==> r is Native,
        !native && discovered ==> r is Discovered,
        !native && !discovered ==> r is Load,
{
}

/// The models that are kept are exactly those that are still registered.
pub proof fn law_retained_models(names: &Vec<String>, keep: &Vec<String>, r: Vec<String>, x: Seq<char>)
    requires
        call_ensures(retain_models, (names, keep), r),
    ensures
        views(r@).contains(x) <==> views(names@).contains(x) && views(keep@).contains(x),
{
    lemma_retained(views(names@), views(keep@), x);
}

proof fn lemma_retained(names: Seq<Seq<char>>, keep: Seq<Seq<char>>, x: Seq<char>)
    ensures
        retained(names, keep).contains(x) <==> names.contains(x) && keep.contains(x),
    decreases names.len(),
{
    if names.len() > 0 {
        let front = names.drop_last();
        lemma_retained(front, keep, x);
        let before = retained(front, keep);
        lemma_last_contains(names, x);
        lemma_push_contains(before, names.last(), x);
    }
}

/// The graph for a clip: the first one that was made for this model and clip,
/// else one made from the model's file where that is in the glTF format.
pub proof fn law_animation_graph(
    model: &str,
    selector: &str,
    made: &Vec<GraphKey>,
    path: &Option<String>,
    r: GraphSource,
    selected: Option<u32>,
)
    requires
        call_ensures(resolve_animation_graph, (model, selector, made, path), r),
        call_ensures(parse_animation_index, (selector,), selected),
    ensures
        selected is None ==> r is Unavailable,
        r matches GraphSource::Cached(i) ==> i < made@.len() && made@[i as int].model@ == model@
            && Some(made@[i as int].clip) == selected,
        r matches GraphSource::Make { clip, .. } ==> Some(clip) == selected && path is Some,
        selected matches Some(clip) ==> forall|j: int|
            0 <= j < made@.len() && (#[trigger] made@[j]).model@ == model@ && made@[j].clip == clip
                ==> r is Cached && r->Cached_0 <= j,
{
    if selected is Some {
        let clip = selected->0;
        assert forall|j: int|
            0 <= j < made@.len() && (#[trigger] made@[j]).model@ == model@ && made@[j].clip
                == clip implies r is Cached && r->Cached_0 <= j by {
            let args = (model, selector, made, path);
            assert(args.2@.len() == made@.len());
            assert(is_key(args.2@[j], args.0@, clip));
        }
    }
}

/// A player of animations does what the script's state says, and takes the
/// model's graph unless it has it already; without a clip it does nothing.
pub proof fn law_player_orders(
    state: &AnimationState,
    same_graph: Option<bool>,
    r: Option<PlayerOrders>,
)
    requires
        call_ensures(apply_lua_animation_state, (state, same_graph), r),
    ensures
        state.current is None ==> r is None,
        state.current is Some ==> r is Some && r->0.repeat == state.looping && r->0.speed
            == state.speed && r->0.paused == state.paused,
        state.current is Some && same_graph == Some(true) ==> !r->0.take_graph,
        state.current is Some && same_graph != Some(true) ==> r->0.take_graph,
{
}

/// A numeral ends in a digit.
proof fn lemma_numeral_ends(s: Seq<char>)
    requires
        s.len() == 0 || !crate::text::is_digit(s.last()),
    ensures
        !numeral_below(s, 0x1_0000_0000),
{
    let digits = unsigned_part(s);
    if digits.len() > 0 {
        assert(digits.last() == s.last());
        assert(digits[digits.len() - 1] == s.last());
    }
}

/// The format of a model by the ending of its file.
pub proof fn law_model_formats(path: &str, name: &str, end: String, r: ModelFormat)
    requires
        call_ensures(model_format, (path,), r),
        plain_name(name@),
        leads_to(path@, name@),
        call_ensures(extension, (name,), end),
    ensures
        r is Adm <==> end@ == "adm"@,
        r is Gltf <==> end@ == "glb"@ || end@ == "gltf"@,
{
    reveal_strlit("adm");
    reveal_strlit("glb");
    reveal_strlit("gltf");
    assert("adm"@.len() == 3 && "glb"@.len() == 3 && "gltf"@.len() == 4);
    assert("adm"@[0] == 'a' && "glb"@[0] == 'g');
    lemma_leads_to(path@, name@);
}

/// What the registry learns of a model: of a native one all clips of its sets and
/// its dictionaries, of a glTF one its animations in their order; nothing while it
/// is not there, or where the file is of another kind.
pub proof fn law_registry_learns(
    path: &str,
    loaded: &LoadedModel,
    r: Option<ModelAnimations>,
    format: ModelFormat,
    clips: Vec<String>,
    i: int,
)
    requires
        call_ensures(update_model_animation_registry, (path, loaded), r),
        call_ensures(model_format, (path,), format),
        loaded matches LoadedModel::Adm(sets) ==> call_ensures(collect_clip_names, (&sets,), clips),
        loaded matches LoadedModel::Gltf(v) ==> 0 <= i < v@.len(),
    ensures
        r is Some <==> (format is Adm && loaded is Adm) || (format is Gltf && loaded is Gltf),
        r matches Some(m) ==> (m.dictionaries is Some <==> loaded is Adm),
        r matches Some(m) ==> (loaded is Adm ==> views(m.clips@) == views(clips@)),
        r matches Some(m) ==> (loaded matches LoadedModel::Gltf(v) ==> m.clips@.len() == v@.len()),
        r matches Some(m) ==> (loaded matches LoadedModel::Gltf(v) ==> m.clips@[i]@ == listed_name(
            v@[i],
            i as nat,
        )),
{
    if r is Some && loaded is Gltf {
        let args = (path, loaded);
        let v = args.1->Gltf_0;
        let m = r->0;
        assert(m.clips@[i]@ == listed_name(v@[i], i as nat));
    }
}

/// A player stands still at first, in the air as far as is known.
pub proof fn law_animation_start(
    pace: LocomotionState,
    state: PlayerAnimState,
    memory: AutoPlayerAnimMemory,
)
    requires
        call_ensures(LocomotionState::default, (), pace),
        call_ensures(PlayerAnimState::default, (), state),
        call_ensures(AutoPlayerAnimMemory::default, (), memory),
    ensures
        pace is Idle && state is Idle,
        memory.locomotion is Idle && memory.anim_state is Idle,
        !memory.was_grounded && !memory.airborne,
        memory.land_until == scalar(0) && memory.airborne_since == scalar(0)
            && memory.move_intent_until == scalar(0) && memory.filtered_horiz_speed == scalar(0),
{
}

} // verus!
