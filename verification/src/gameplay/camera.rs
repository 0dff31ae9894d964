//! Where the camera stands, which way it leans and who owns the cursor.

use std::collections::{HashMap, HashSet};

use vstd::prelude::*;

use crate::gameplay::players::{find_player, player_index};
use crate::hierarchy::{bone_below, find_bone_entity};
use crate::nui::NuiFocusState;
use crate::scalar::{kept_within, scalar, Scalar, ZERO};

verus! {

broadcast use vstd::std_specs::hash::group_hash_axioms;

/// How many generations below an entity the bone of a rig is looked for.
pub const RIG_BONE_DEPTH: u8 = 8;

/// 1.25 rad and its negative: how far the view tips up and down.
pub const MAX_PITCH_RAD: u32 = 0x3fa0_0000;

pub const MIN_PITCH_RAD: u32 = 0xbfa0_0000;

/// 0.1396 rad and its negative: how far the view leans.
pub const MAX_LEAN_ANGLE: u32 = 0x3e0e_f34d;

pub const MIN_LEAN_ANGLE: u32 = 0xbe0e_f34d;

/// 0.0001: a view direction this flat meets no ground; a lean or a shake this
/// small is left out.
pub const TINY: u32 = 0x38d1_b717;

/// 0.000001: squared shakes up to this are left out.
pub const TINY_SQUARE: u32 = 0x3586_37bd;

/// 0.5 m/s: the speed above which the head bobs.
pub const HEAD_BOB_SPEED: u32 = 0x3f00_0000;

/// 0.045 m: how far it bobs.
pub const HEAD_BOB_AMPLITUDE: u32 = 0x3d38_51ec;

/// 0.001: a smaller bob, or a slower one, is none.
pub const HEAD_BOB_MIN: u32 = 0x3a83_126f;

/// 9 rad/s: how fast it bobs where nothing else is set.
pub const HEAD_BOB_FREQUENCY: u32 = 0x4110_0000;

/// 6 and 3 per second: how fast the bob sets in and dies out.
pub const HEAD_BOB_RISE: u32 = 0x40c0_0000;

pub const HEAD_BOB_FALL: u32 = 0x4040_0000;

/// The point that a rig holds on to.
#[derive(Clone, Debug)]
pub enum CameraAttachment {
    /// A place in the world, looking at a point or straight ahead.
    Position { look_at: bool },
    /// Beside an entity, looking at it or straight ahead.
    Entity { handle: u64, look_at: bool },
    /// A bone of an entity, with its rotation.
    Bone { handle: u64, bone: String },
}

/// Where the camera goes.
#[derive(Clone, Copy, PartialEq, Eq, Structural, Debug)]
pub enum CameraPlace {
    /// It stays where it is.
    Keep,
    /// At the rig's place, looking at the rig's point.
    FixedLookAt,
    /// At the rig's place, looking ahead.
    FixedAhead,
    /// Beside the entity, looking at it.
    BesideLookAt(u64),
    /// Beside the entity, looking ahead.
    BesideAhead(u64),
    /// At the bone, with its rotation.
    OnBone(u64),
    /// In the eyes of the player of this index.
    FirstPerson(usize),
    /// Behind the player of this index.
    ThirdPerson(usize),
}

/// What the choice of the camera's place reads.
pub struct CameraScene<'a> {
    pub rig: Option<CameraAttachment>,
    /// The entities of the handles that scripts know.
    pub handles: &'a HashMap<u64, u64>,
    /// The entities that have a place in the world.
    pub placed: &'a HashSet<u64>,
    pub children: &'a HashMap<u64, Vec<u64>>,
    pub names: &'a HashMap<u64, String>,
    pub local_client: Option<u64>,
    /// The client ids of the predicted players.
    pub players: &'a Vec<u64>,
    pub first_person: bool,
}

/// The entity of a handle, where it has a place in the world.
pub open spec fn placed_entity(
    handles: Map<u64, u64>,
    placed: Set<u64>,
    handle: u64,
) -> Option<u64> {
    if handles.contains_key(handle) && placed.contains(handles[handle]) {
        Some(handles[handle])
    } else {
        None
    }
}

impl<'a> CameraScene<'a> {
    pub open spec fn rigged(self, rig: CameraAttachment) -> CameraPlace {
        match rig {
            CameraAttachment::Position { look_at } => if look_at {
                CameraPlace::FixedLookAt
            } else {
                CameraPlace::FixedAhead
            },
            CameraAttachment::Entity { handle, look_at } => match placed_entity(
                self.handles@,
                self.placed@,
                handle,
            ) {
                Some(e) => if look_at {
                    CameraPlace::BesideLookAt(e)
                } else {
                    CameraPlace::BesideAhead(e)
                },
                None => CameraPlace::Keep,
            },
            CameraAttachment::Bone { handle, bone } => if self.handles@.contains_key(handle) {
                match bone_below(
                    self.children@,
                    self.names@,
                    self.handles@[handle],
                    bone@,
                    RIG_BONE_DEPTH as nat,
                ) {
                    Some(b) => if self.placed@.contains(b) {
                        CameraPlace::OnBone(b)
                    } else {
                        CameraPlace::Keep
                    },
                    None => CameraPlace::Keep,
                }
            } else {
                CameraPlace::Keep
            },
        }
    }

    pub open spec fn following(self) -> CameraPlace {
        match self.local_client {
            Some(id) => {
                let i = player_index(self.players@, id);
                if i == self.players@.len() {
                    CameraPlace::Keep
                } else if self.first_person {
                    CameraPlace::FirstPerson(i as usize)
                } else {
                    CameraPlace::ThirdPerson(i as usize)
                }
            },
            None => CameraPlace::Keep,
        }
    }

    /// The place of the camera: the rig decides alone where there is one.
    pub open spec fn place(self) -> CameraPlace {
        match self.rig {
            Some(rig) => self.rigged(rig),
            None => self.following(),
        }
    }
}

/// Chooses the place of the camera for one frame.
pub fn update_camera_follow(scene: &CameraScene) -> (r: CameraPlace)
    ensures
        r == scene.place(),
{
    match &scene.rig {
        Some(CameraAttachment::Position { look_at }) => if *look_at {
            CameraPlace::FixedLookAt
        } else {
            CameraPlace::FixedAhead
        },
        Some(CameraAttachment::Entity { handle, look_at }) => match scene.handles.get(handle) {
            Some(e) => if scene.placed.contains(e) {
                if *look_at {
                    CameraPlace::BesideLookAt(*e)
                } else {
                    CameraPlace::BesideAhead(*e)
                }
            } else {
                CameraPlace::Keep
            },
            None => CameraPlace::Keep,
        },
        Some(CameraAttachment::Bone { handle, bone }) => match scene.handles.get(handle) {
            Some(e) => match find_bone_entity(
                *e,
                bone.as_str(),
                scene.children,
                scene.names,
                RIG_BONE_DEPTH,
            ) {
                Some(b) => if scene.placed.contains(&b) {
                    CameraPlace::OnBone(b)
                } else {
                    CameraPlace::Keep
                },
                None => CameraPlace::Keep,
            },
            None => CameraPlace::Keep,
        },
        None => match scene.local_client {
            Some(id) => match find_player(scene.players, id) {
                Some(i) => if scene.first_person {
                    CameraPlace::FirstPerson(i)
                } else {
                    CameraPlace::ThirdPerson(i)
                },
                None => CameraPlace::Keep,
            },
            None => CameraPlace::Keep,
        },
    }
}

/// With an active rig the camera never follows a player.
pub proof fn law_rig_overrides_player(scene: CameraScene)
    requires
        scene.rig is Some,
    ensures
        !(scene.place() is FirstPerson),
        !(scene.place() is ThirdPerson),
{
}

/// How the cursor is shown.
#[derive(Clone, Copy, PartialEq, Eq, Structural, Debug)]
pub struct CursorMode {
    pub visible: bool,
    pub locked: bool,
}

/// The cursor is free while the login waits for the user and while a web page
/// has the keys, else as the engine has it; a locked cursor is hidden.
pub fn apply_cursor_mode(
    awaiting_auth: bool,
    focus: NuiFocusState,
    engine_locked: bool,
) -> (r: CursorMode)
    ensures
        r.locked == (!awaiting_auth && !focus.has_focus && engine_locked),
        r.visible == !r.locked,
{
    if awaiting_auth || focus.has_focus {
        return CursorMode { visible: true, locked: false };
    }
    CursorMode { visible: !engine_locked, locked: engine_locked }
}

/// The view after the key for it: first person and third person take turns.
pub fn toggle_camera_mode(first_person: bool, key_pressed: bool) -> (r: bool)
    ensures
        r == (first_person != key_pressed),
{
    if key_pressed {
        !first_person
    } else {
        first_person
    }
}

/// Whether the mouse moves the view: the cursor is locked and has moved.
pub fn look_moves(cursor_locked: bool, delta_x: Scalar, delta_y: Scalar) -> (r: bool)
    ensures
        r == (cursor_locked && !(delta_x.equals(scalar(ZERO)) && delta_y.equals(scalar(ZERO)))),
{
    cursor_locked && !(delta_x.same_number(scalar(ZERO)) && delta_y.same_number(scalar(ZERO)))
}

/// A pitch within what the view allows.
pub fn clamp_pitch(pitch: Scalar) -> (r: Scalar)
    ensures
        r == pitch.bounded(scalar(MIN_PITCH_RAD), scalar(MAX_PITCH_RAD)),
        !pitch.nan() ==> scalar(MIN_PITCH_RAD).at_most(r) && r.at_most(scalar(MAX_PITCH_RAD)),
{
    pitch.clamp(scalar(MIN_PITCH_RAD), scalar(MAX_PITCH_RAD))
}

/// The roll that the lean keys ask for; both together ask for none.
pub fn target_lean(left: bool, right: bool) -> (r: Scalar)
    ensures
        r == if left == right {
            scalar(ZERO)
        } else if left {
            scalar(MIN_LEAN_ANGLE)
        } else {
            scalar(MAX_LEAN_ANGLE)
        },
{
    match (left, right) {
        (true, false) => scalar(MIN_LEAN_ANGLE),
        (false, true) => scalar(MAX_LEAN_ANGLE),
        _ => scalar(ZERO),
    }
}

/// Whether the view ray comes down on the ground: it is not level, and the
/// ground lies ahead of it.
pub fn ray_meets_ground(dir_y: Scalar, travel: Scalar) -> (r: bool)
    ensures
        r == (!dir_y.magnitude().less(scalar(TINY)) && !travel.at_most(scalar(ZERO))),
{
    !dir_y.abs().lt(scalar(TINY)) && !travel.le(scalar(ZERO))
}

/// Whether a shake of this intensity shows.
pub fn shake_shows(intensity: Scalar) -> (r: bool)
    ensures
        r == !intensity.less(scalar(TINY)),
{
    !intensity.lt(scalar(TINY))
}

/// What the head bob aims at, and how fast it gets there.
#[derive(Clone, Copy, PartialEq, Eq, Structural, Debug)]
pub struct BobAim {
    pub amplitude: Scalar,
    pub rate: Scalar,
}

/// The aim of the head bob at a speed: a player at rest does not bob.
pub fn head_bob_aim(speed: Scalar, amplitude: Scalar) -> (r: BobAim)
    ensures
        r.amplitude == if scalar(HEAD_BOB_SPEED).less(speed) {
            scalar(HEAD_BOB_AMPLITUDE)
        } else {
            scalar(ZERO)
        },
        r.rate == if amplitude.less(r.amplitude) {
            scalar(HEAD_BOB_RISE)
        } else {
            scalar(HEAD_BOB_FALL)
        },
{
    let aim: Scalar = if scalar(HEAD_BOB_SPEED).lt(speed) {
        scalar(HEAD_BOB_AMPLITUDE)
    } else {
        scalar(ZERO)
    };
    let rate: Scalar = if amplitude.lt(aim) {
        scalar(HEAD_BOB_RISE)
    } else {
        scalar(HEAD_BOB_FALL)
    };
    BobAim { amplitude: aim, rate }
}

/// The frequency of a bob that shows, or none for one too small to show.
pub fn head_bob_frequency(amplitude: Scalar, frequency: Scalar) -> (r: Option<Scalar>)
    ensures
        r == if amplitude.less(scalar(HEAD_BOB_MIN)) {
            None
        } else if frequency.less(scalar(HEAD_BOB_MIN)) {
            Some(scalar(HEAD_BOB_FREQUENCY))
        } else {
            Some(frequency)
        },
{
    if amplitude.lt(scalar(HEAD_BOB_MIN)) {
        None
    } else if frequency.lt(scalar(HEAD_BOB_MIN)) {
        Some(scalar(HEAD_BOB_FREQUENCY))
    } else {
        Some(frequency)
    }
}

/// How the rotation of the camera is composed.
#[derive(Clone, Copy, PartialEq, Eq, Structural, Debug)]
pub enum ViewCompose {
    /// From the player's view, the shake and the lean.
    FromLook,
    /// From where the camera points already, the shake and the lean.
    OnTop,
    /// It stays as it is.
    Keep,
}

/// A free first-person camera composes its view anew; any other one gets lean
/// and shake on top, where there is any.
pub fn compose_view(
    rig_active: bool,
    first_person: bool,
    lean: Scalar,
    shake_len_sq: Scalar,
) -> (r: ViewCompose)
    ensures
        r == if !rig_active && first_person {
            ViewCompose::FromLook
        } else if scalar(TINY).less(lean.magnitude()) || scalar(TINY_SQUARE).less(shake_len_sq) {
            ViewCompose::OnTop
        } else {
            ViewCompose::Keep
        },
{
    if !rig_active && first_person {
        ViewCompose::FromLook
    } else if scalar(TINY).lt(lean.abs()) || scalar(TINY_SQUARE).lt(shake_len_sq) {
        ViewCompose::OnTop
    } else {
        ViewCompose::Keep
    }
}

/// Which field of view the camera turns to while aiming or not: the narrow one
/// of the sights, or the one that movement asks for.
pub fn fov_target(aiming: bool, sights: Scalar, movement: Scalar) -> (r: Scalar)
    ensures
        r == if aiming {
            sights
        } else {
            movement
        },
{
    if aiming {
        sights
    } else {
        movement
    }
}

/// A rig that holds a place keeps the camera there, looking at its point where it
/// has one and ahead where it has none.
pub proof fn law_fixed_rig(scene: &CameraScene, r: CameraPlace)
    requires
        call_ensures(update_camera_follow, (scene,), r),
        scene.rig is Some,
        scene.rig->0 is Position,
    ensures
        scene.rig->0->Position_look_at ==> r is FixedLookAt,
        !scene.rig->0->Position_look_at ==> r is FixedAhead,
{
}

/// A rig on an entity puts the camera beside that entity where it has a place in
/// the world, looking at it or ahead; otherwise the camera stays.
pub proof fn law_entity_rig(scene: &CameraScene, handle: u64, look_at: bool, r: CameraPlace)
    requires
        call_ensures(update_camera_follow, (scene,), r),
        scene.rig == Some(CameraAttachment::Entity { handle, look_at }),
    ensures
        scene.handles@.contains_key(handle) && scene.placed@.contains(scene.handles@[handle]) ==> r
            == if look_at {
            CameraPlace::BesideLookAt(scene.handles@[handle])
        } else {
            CameraPlace::BesideAhead(scene.handles@[handle])
        },
        !scene.handles@.contains_key(handle) || !scene.placed@.contains(scene.handles@[handle])
            ==> r is Keep,
{
}

/// A rig on a bone puts the camera on the bone of that name below the entity, at
/// most eight generations down, where it has a place in the world.
pub proof fn law_bone_rig(
    scene: &CameraScene,
    handle: u64,
    bone: String,
    name: &str,
    r: CameraPlace,
    found: Option<u64>,
)
    requires
        call_ensures(update_camera_follow, (scene,), r),
        scene.rig == Some(CameraAttachment::Bone { handle, bone }),
        name@ == bone@,
        scene.handles@.contains_key(handle) ==> call_ensures(
            find_bone_entity,
            (scene.handles@[handle], name, scene.children, scene.names, 8),
            found,
        ),
    ensures
        !scene.handles@.contains_key(handle) ==> r is Keep,
        scene.handles@.contains_key(handle) ==> {
            &&& found is None ==> r is Keep
            &&& found matches Some(b) ==> r == if scene.placed@.contains(b) {
                CameraPlace::OnBone(b)
            } else {
                CameraPlace::Keep
            }
        },
{
}

/// Without a rig the camera follows the first player with the local client's id,
/// in its eyes or from behind; without such a player it stays.
pub proof fn law_follows_local_player(scene: &CameraScene, r: CameraPlace, found: Option<usize>)
    requires
        call_ensures(update_camera_follow, (scene,), r),
        scene.rig is None,
        scene.local_client is Some,
        call_ensures(find_player, (scene.players, scene.local_client->0), found),
    ensures
        found matches Some(i) ==> r == if scene.first_person {
            CameraPlace::FirstPerson(i)
        } else {
            CameraPlace::ThirdPerson(i)
        },
        found is None ==> r is Keep,
{
}

/// Without a rig and without a local client the camera stays.
pub proof fn law_nobody_to_follow(scene: &CameraScene, r: CameraPlace)
    requires
        call_ensures(update_camera_follow, (scene,), r),
        scene.rig is None,
        scene.local_client is None,
    ensures
        r is Keep,
{
}

/// The cursor is locked exactly where the engine locks it and neither a login nor
/// a page needs it; a locked cursor is hidden and a free one is shown.
pub proof fn law_cursor(awaiting: bool, focus: NuiFocusState, engine: bool, r: CursorMode)
    requires
        call_ensures(apply_cursor_mode, (awaiting, focus, engine), r),
    ensures
        awaiting ==> r.visible && !r.locked,
        focus.has_focus ==> r.visible && !r.locked,
        !engine ==> r.visible && !r.locked,
        engine && !awaiting && !focus.has_focus ==> r.locked && !r.visible,
{
}

/// The key for the view changes it, and twice changes it back; without the key it
/// stays.
pub proof fn law_view_toggles(first_person: bool, once: bool, twice: bool, still: bool)
    requires
        call_ensures(toggle_camera_mode, (first_person, true), once),
        call_ensures(toggle_camera_mode, (once, true), twice),
        call_ensures(toggle_camera_mode, (first_person, false), still),
    ensures
        once == !first_person,
        twice == first_person,
        still == first_person,
{
}

/// Only a locked mouse moves the view, and only where it moved along an axis.
pub proof fn law_look_moves(locked: bool, x: Scalar, y: Scalar, r: bool)
    requires
        call_ensures(look_moves, (locked, x, y), r),
    ensures
        !locked ==> !r,
        x.equals(scalar(0)) && y.equals(scalar(0)) ==> !r,
        locked && (!x.equals(scalar(0)) || !y.equals(scalar(0))) ==> r,
{
}

/// The pitch keeps within 1.25 rad up and down.
pub proof fn law_pitch(pitch: Scalar, r: Scalar)
    requires
        call_ensures(clamp_pitch, (pitch,), r),
    ensures
        kept_within(pitch, scalar(0xbfa0_0000), scalar(0x3fa0_0000), r),
{
}

/// The left key leans left, the right key as far to the right, and both or none
/// not at all.
pub proof fn law_lean(left: bool, right: bool, r: Scalar)
    requires
        call_ensures(target_lean, (left, right), r),
    ensures
        left && !right ==> r == scalar(0xbe0e_f34d),
        right && !left ==> r == scalar(0x3e0e_f34d),
        left == right ==> r == scalar(0),
{
}

/// The view meets the ground where it is not level and the ground lies ahead; a
/// shake shows from 0.0001 on.
pub proof fn law_ray_and_shake(dir_y: Scalar, travel: Scalar, meets: bool, shake: Scalar, shows: bool)
    requires
        call_ensures(ray_meets_ground, (dir_y, travel), meets),
        call_ensures(shake_shows, (shake,), shows),
    ensures
        dir_y.magnitude().less(scalar(0x38d1_b717)) ==> !meets,
        travel.at_most(scalar(0)) ==> !meets,
        scalar(0x38d1_b717).at_most(dir_y.magnitude()) && scalar(0).less(travel) ==> meets,
        shake.less(scalar(0x38d1_b717)) ==> !shows,
        scalar(0x38d1_b717).at_most(shake) ==> shows,
{
}

/// The head bobs by 0.045 m above 0.5 m/s and not at all below; it sets in twice
/// as fast as it dies out. A bob below a thousandth has no frequency, and one
/// without a frequency of its own has the usual one.
pub proof fn law_head_bob(
    speed: Scalar,
    amplitude: Scalar,
    aim: BobAim,
    frequency: Scalar,
    shown: Option<Scalar>,
)
    requires
        call_ensures(head_bob_aim, (speed, amplitude), aim),
        call_ensures(head_bob_frequency, (amplitude, frequency), shown),
    ensures
        scalar(0x3f00_0000).less(speed) ==> aim.amplitude == scalar(0x3d38_51ec),
        !scalar(0x3f00_0000).less(speed) ==> aim.amplitude == scalar(0),
        amplitude.less(aim.amplitude) ==> aim.rate == scalar(0x40c0_0000),
        !amplitude.less(aim.amplitude) ==> aim.rate == scalar(0x4040_0000),
        shown is None <==> amplitude.less(scalar(0x3a83_126f)),
        shown matches Some(f) ==> {
            &&& frequency.less(scalar(0x3a83_126f)) ==> f == scalar(0x4110_0000)
            &&& !frequency.less(scalar(0x3a83_126f)) ==> f == frequency
        },
{
}

/// A free camera in the player's eyes composes its view anew; any other one is
/// touched only by a lean or a shake that shows.
pub proof fn law_view_composed(rig: bool, first: bool, lean: Scalar, shake: Scalar, r: ViewCompose)
    requires
        call_ensures(compose_view, (rig, first, lean, shake), r),
    ensures
        r is FromLook <==> !rig && first,
        !(r is FromLook) ==> (r is OnTop <==> scalar(0x38d1_b717).less(lean.magnitude()) || scalar(0x3586_37bd).less(shake)),
        !(r is FromLook) && !(r is OnTop) ==> r is Keep,
{
}

/// Aiming narrows the view to that of the sights.
pub proof fn law_aimed_view(aiming: bool, sights: Scalar, movement: Scalar, r: Scalar)
    requires
        call_ensures(fov_target, (aiming, sights, movement), r),
    ensures
        aiming ==> r == sights,
        !aiming ==> r == movement,
{
}

} // verus!
