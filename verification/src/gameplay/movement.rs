//! Player movement: ground contact, jump, dodge, slide, crouch and sprint.
//!
//! One call decides a whole frame. The frame carries every number that the
//! decisions read, computed beforehand from the state and the time step; the
//! outcome names the numbers that are to be computed afterwards.

use vstd::prelude::*;

use crate::folds::lemma_take_next;
use crate::nui::NuiFocusState;
use crate::scalar::{scalar, Scalar, ZERO};

verus! {

/// 0.06 m: how close ground must come to count as contact.
pub const GROUND_CONTACT_DIST_ENTER: u32 = 0x3d75_c28f;

/// 0.11 m: how far ground may fall away before contact is lost.
pub const GROUND_CONTACT_DIST_EXIT: u32 = 0x3de1_47ae;

/// 0.65: surfaces whose upward normal is not above this are not walkable.
pub const GROUND_NORMAL_Y_MIN: u32 = 0x3f26_6666;

/// 0.15 s: grace period after losing ground contact.
pub const COYOTE_TIME_SECS: u32 = 0x3e19_999a;

/// 0.3 s: two presses within this window are a double tap.
pub const DOUBLE_TAP_WINDOW: u32 = 0x3e99_999a;

/// 3 m/s: the largest vertical speed at which an airborne dodge is allowed.
pub const DODGE_MAX_AIR_VEL: u32 = 0x4040_0000;

/// 0.2 s: how long a dodge lasts.
pub const DODGE_DURATION: u32 = 0x3e4c_cccd;

/// 1.5 s: time between two dodges.
pub const DODGE_COOLDOWN: u32 = 0x3fc0_0000;

/// 0.8 s: how long a slide lasts.
pub const SLIDE_DURATION: u32 = 0x3f4c_cccd;

/// 0.0001: the shortest squared length of a direction that is normalised.
pub const DIRECTION_MIN: u32 = 0x38d1_b717;

/// 0.01 m/s: the slowest speed whose direction a slide takes.
pub const SLIDE_DIRECTION_SPEED: u32 = 0x3c23_d70a;

/// 0.001: the squared input length above which the player moves.
pub const MOVING_MIN: u32 = 0x3a83_126f;

/// 0.9999: below this normal the walking velocity follows the slope.
pub const SLOPE_PROJECT: u32 = 0x3f7f_f972;

/// 0.997: below this normal the slope also drives the vertical velocity.
pub const SLOPE_VERTICAL: u32 = 0x3f7f_3b64;

/// -2 m/s and 2 m/s: bounds of the vertical velocity in an airborne dodge.
pub const DODGE_FALL_LIMIT: u32 = 0xc000_0000;

pub const DODGE_RISE_LIMIT: u32 = 0x4000_0000;

/// 0.05 m/s: upward velocities up to this are left alone on flat ground.
pub const DAMP_MIN_VEL: u32 = 0x3d4c_cccd;

/// A horizontal vector.
#[derive(Clone, Copy, PartialEq, Eq, Structural, Debug)]
pub struct Flat {
    pub x: Scalar,
    pub z: Scalar,
}

/// The time of the last ground contact, shared by the movement systems.
#[derive(Clone, Copy, PartialEq, Eq, Structural, Debug)]
pub struct MovementGroundState {
    pub last_grounded_time: Scalar,
}

/// What one player's movement remembers between frames.
#[derive(Clone, Copy, Debug)]
pub struct PlayerMovementState {
    /// Smoothed horizontal velocity.
    pub velocity_xz: Flat,
    pub is_sprinting: bool,
    pub is_crouching: bool,
    pub is_sliding: bool,
    /// Seconds that the slide still lasts.
    pub slide_timer: Scalar,
    pub slide_dir: Flat,
    /// Seconds that the dodge still lasts.
    pub dodge_timer: Scalar,
    pub dodge_dir: Flat,
    /// Seconds until the next dodge is allowed.
    pub dodge_cooldown: Scalar,
    /// When each direction key was last pressed: forward, backward, left, right.
    pub last_dir_press_time: [Scalar; 4],
    pub dir_was_pressed: [bool; 4],
    /// Ground contact in the last frame.
    pub ground_contact: bool,
}

/// One direction key in one frame.
#[derive(Clone, Copy, PartialEq, Eq, Structural, Debug)]
pub struct DirectionKey {
    pub just_pressed: bool,
    pub pressed: bool,
    /// Now, less the time of the key's last press.
    pub since_last: Scalar,
    /// Squared length of the key's direction in the world.
    pub dir_len_sq: Scalar,
    /// That direction with length one.
    pub dir_unit: Flat,
}

/// What one frame of movement is decided from.
#[derive(Clone, Copy, Debug)]
pub struct MovementFrame {
    pub now: Scalar,
    pub raw_grounded: bool,
    /// Now, less the time of the last ground contact before this frame.
    pub since_grounded: Scalar,
    pub vel_y: Scalar,
    /// The vertical velocity that holds a player to the ground.
    pub rest_vel_y: Scalar,
    /// The vertical velocity after one frame of free fall.
    pub fall_vel_y: Scalar,
    pub jump_just: bool,
    pub jump_impulse: Scalar,
    pub double_jump: bool,
    pub grounded_vel_threshold: Scalar,
    /// The dodge cooldown less the time step.
    pub dodge_cooldown_after: Scalar,
    /// The dodge timer less the time step.
    pub dodge_timer_after: Scalar,
    /// Forward, backward, left, right.
    pub keys: [DirectionKey; 4],
    /// Squared length of the movement input.
    pub input_len_sq: Scalar,
    /// The movement input in the world.
    pub world_dir: Flat,
    pub sprint_held: bool,
    pub crouch_held: bool,
    pub crouch_just: bool,
    /// Horizontal speed.
    pub speed_xz: Scalar,
    /// Direction of the horizontal velocity.
    pub travel_dir: Flat,
    /// Half of the running speed.
    pub half_run_speed: Scalar,
    pub ground_normal_y: Scalar,
}

/// Which walking speed applies.
#[derive(Clone, Copy, PartialEq, Eq, Structural, Debug)]
pub enum Gait {
    Crouch,
    Sprint,
    Run,
}

/// How the horizontal velocity is computed.
#[derive(Clone, Copy, PartialEq, Eq, Structural, Debug)]
pub enum Drive {
    /// The dodge impulse along the dodge direction.
    Dodge,
    /// Friction along the slide direction; the slide timer runs.
    Slide,
    /// A blend toward the input direction.
    Walk {
        gait: Gait,
        /// Accelerate toward the input rather than brake.
        moving: bool,
        /// Follow the slope with the horizontal velocity.
        project: bool,
        /// Follow the slope with the vertical velocity too.
        vertical: bool,
    },
}

/// Which field of view the camera turns to.
#[derive(Clone, Copy, PartialEq, Eq, Structural, Debug)]
pub enum FovTarget {
    Slide,
    Sprint,
    Default,
}

/// What a frame of movement decides beside the next state.
#[derive(Clone, Copy, PartialEq, Eq, Structural, Debug)]
pub struct MovementOutcome {
    pub grounded: bool,
    pub vel_y: Scalar,
    pub jumped: bool,
    pub dodged: bool,
    /// The slide began in this frame, with a boost along its direction.
    pub slide_started: bool,
    pub drive: Drive,
    pub fov: FovTarget,
}

impl MovementFrame {
    /// On the ground, or off it for no longer than the grace period.
    pub open spec fn grounded(self) -> bool {
        self.raw_grounded || self.since_grounded.less(scalar(COYOTE_TIME_SECS))
    }

    /// The vertical velocity once gravity has acted.
    pub open spec fn fallen(self) -> Scalar {
        if !self.grounded() {
            self.fall_vel_y
        } else if self.vel_y.less(scalar(ZERO)) {
            self.rest_vel_y
        } else {
            self.vel_y
        }
    }

    pub open spec fn jumps(self) -> bool {
        self.jump_just && (self.grounded() || (self.double_jump && self.fallen().magnitude().less(
            self.grounded_vel_threshold,
        )))
    }

    /// The vertical velocity once a jump has acted too.
    pub open spec fn jumped_vel(self) -> Scalar {
        if self.jumps() {
            self.jump_impulse
        } else {
            self.fallen()
        }
    }

    pub open spec fn may_dodge(self) -> bool {
        self.grounded() || self.jumped_vel().magnitude().less(scalar(DODGE_MAX_AIR_VEL))
    }
}

/// A timer after the frame: one that runs has lost the time step.
pub open spec fn run_down(timer: Scalar, less_step: Scalar) -> Scalar {
    if scalar(ZERO).less(timer) {
        less_step
    } else {
        timer
    }
}

impl PlayerMovementState {
    /// The direction key `i` was pressed for the second time within the window.
    pub open spec fn double_tap(self, f: MovementFrame, i: int) -> bool {
        &&& f.keys[i].just_pressed
        &&& f.keys[i].since_last.less(scalar(DOUBLE_TAP_WINDOW))
        &&& scalar(ZERO).less(self.last_dir_press_time[i])
    }

    /// Neither in a dodge nor in the cooldown after one.
    pub open spec fn dodge_ready(self, f: MovementFrame) -> bool {
        &&& run_down(self.dodge_cooldown, f.dodge_cooldown_after).at_most(scalar(ZERO))
        &&& run_down(self.dodge_timer, f.dodge_timer_after).at_most(scalar(ZERO))
    }

    /// The key `i` sets off a dodge.
    pub open spec fn dodge_by(self, f: MovementFrame, i: int) -> bool {
        &&& self.dodge_ready(f)
        &&& f.may_dodge()
        &&& scalar(ZERO).less(f.input_len_sq)
        &&& self.double_tap(f, i)
    }

    pub open spec fn dodges(self, f: MovementFrame) -> bool {
        exists|i: int| 0 <= i < 4 && #[trigger] self.dodge_by(f, i)
    }

    /// The direction of a dodge by the key `i`.
    pub open spec fn dodge_toward(self, f: MovementFrame, i: int) -> Flat {
        if scalar(DIRECTION_MIN).less(f.keys[i].dir_len_sq) {
            f.keys[i].dir_unit
        } else {
            f.world_dir
        }
    }

    /// The dodge timer once this frame's dodge has begun.
    pub open spec fn dodge_left(self, f: MovementFrame) -> Scalar {
        if self.dodges(f) {
            scalar(DODGE_DURATION)
        } else {
            run_down(self.dodge_timer, f.dodge_timer_after)
        }
    }

    /// The slide of the last frame goes on past this frame's jump and dodge.
    pub open spec fn keeps_sliding(self, f: MovementFrame) -> bool {
        self.is_sliding && !f.jumps() && !self.dodges(f)
    }

    pub open spec fn slide_begins(self, f: MovementFrame) -> bool {
        &&& f.grounded()
        &&& f.sprint_held
        &&& f.crouch_just
        &&& !self.keeps_sliding(f)
        &&& self.dodge_left(f).at_most(scalar(ZERO))
        &&& f.half_run_speed.less(f.speed_xz)
    }

    /// The slide timer before a finished slide is taken off.
    pub open spec fn slide_left(self, f: MovementFrame) -> Scalar {
        if self.slide_begins(f) {
            scalar(SLIDE_DURATION)
        } else if f.jumps() || self.dodges(f) {
            scalar(ZERO)
        } else {
            self.slide_timer
        }
    }

    /// Sliding in this frame.
    pub open spec fn slides(self, f: MovementFrame) -> bool {
        &&& self.keeps_sliding(f) || self.slide_begins(f)
        &&& f.grounded()
        &&& !self.slide_left(f).at_most(scalar(ZERO))
    }

    /// A slide that was under way, or began, is over.
    pub open spec fn slide_ends(self, f: MovementFrame) -> bool {
        (self.keeps_sliding(f) || self.slide_begins(f)) && !self.slides(f)
    }

    pub open spec fn crouches(self, f: MovementFrame) -> bool {
        if self.slides(f) {
            self.is_crouching || self.slide_begins(f)
        } else {
            f.crouch_held
        }
    }

    pub open spec fn sprints(self, f: MovementFrame) -> bool {
        f.sprint_held && !self.crouches(f) && !self.slides(f)
    }

    pub open spec fn drive(self, f: MovementFrame) -> Drive {
        if scalar(ZERO).less(self.dodge_left(f)) {
            Drive::Dodge
        } else if self.slides(f) {
            Drive::Slide
        } else {
            Drive::Walk {
                gait: if self.crouches(f) {
                    Gait::Crouch
                } else if self.sprints(f) {
                    Gait::Sprint
                } else {
                    Gait::Run
                },
                moving: scalar(MOVING_MIN).less(f.input_len_sq),
                project: f.grounded() && f.ground_normal_y.less(scalar(SLOPE_PROJECT)),
                vertical: f.grounded() && f.ground_normal_y.less(scalar(SLOPE_VERTICAL))
                    && !f.jump_just,
            }
        }
    }

    /// The state and the outcome of the frame `f`, from the state before it.
    pub open spec fn moved(
        self,
        f: MovementFrame,
        next: PlayerMovementState,
        out: MovementOutcome,
    ) -> bool {
        &&& next.velocity_xz == self.velocity_xz
        &&& next.is_sprinting == self.sprints(f)
        &&& next.is_crouching == self.crouches(f)
        &&& next.is_sliding == self.slides(f)
        &&& next.slide_timer == if self.slide_ends(f) {
            scalar(ZERO)
        } else {
            self.slide_left(f)
        }
        &&& next.slide_dir == if !self.slide_begins(f) {
            self.slide_dir
        } else if scalar(SLIDE_DIRECTION_SPEED).less(f.speed_xz) {
            f.travel_dir
        } else {
            f.world_dir
        }
        &&& next.dodge_timer == self.dodge_left(f)
        &&& !self.dodges(f) ==> next.dodge_dir == self.dodge_dir
        &&& forall|i: int|
            0 <= i < 4 && #[trigger] self.dodge_by(f, i) && (forall|j: int|
                i < j < 4 ==> !#[trigger] self.dodge_by(f, j)) ==> next.dodge_dir
                == self.dodge_toward(f, i)
        &&& next.dodge_cooldown == if self.dodges(f) {
            scalar(DODGE_COOLDOWN)
        } else {
            run_down(self.dodge_cooldown, f.dodge_cooldown_after)
        }
        &&& forall|i: int|
            0 <= i < 4 ==> #[trigger] next.last_dir_press_time[i] == if f.keys[i].just_pressed {
                f.now
            } else {
                self.last_dir_press_time[i]
            }
        &&& forall|i: int|
            0 <= i < 4 ==> #[trigger] next.dir_was_pressed[i] == f.keys[i].pressed
        &&& next.ground_contact == f.grounded()
        &&& out.grounded == f.grounded()
        &&& out.vel_y == if self.drive(f) is Dodge && !f.grounded() {
            f.jumped_vel().larger(scalar(DODGE_FALL_LIMIT)).smaller(scalar(DODGE_RISE_LIMIT))
        } else {
            f.jumped_vel()
        }
        &&& out.jumped == f.jumps()
        &&& out.dodged == self.dodges(f)
        &&& out.slide_started == self.slide_begins(f)
        &&& out.drive == self.drive(f)
        &&& out.fov == if self.slides(f) {
            FovTarget::Slide
        } else if self.sprints(f) {
            FovTarget::Sprint
        } else {
            FovTarget::Default
        }
    }
}

/// Decides one frame of a player's movement.
pub fn apply_player_movement(
    ground: &mut MovementGroundState,
    mv: &mut PlayerMovementState,
    f: &MovementFrame,
) -> (out: MovementOutcome)
    ensures
        final(ground).last_grounded_time == if f.raw_grounded {
            f.now
        } else {
            old(ground).last_grounded_time
        },
        old(mv).moved(*f, *final(mv), out),
{
    let ghost start = *mv;
    if f.raw_grounded {
        ground.last_grounded_time = f.now;
    }
    let grounded = f.raw_grounded || f.since_grounded.lt(scalar(COYOTE_TIME_SECS));
    mv.ground_contact = grounded;
    let (jumped, jumped_vel) = fall_and_jump(f, grounded);
    if jumped {
        mv.is_sliding = false;
        mv.slide_timer = scalar(ZERO);
    }
    let ghost fallen = *mv;
    let dodged = run_dodge(mv, f, grounded, jumped_vel);
    proof {
        lemma_same_taps(start, fallen, *f);
        assert forall|i: int|
            0 <= i < 4 && #[trigger] start.dodge_by(*f, i) && (forall|j: int|
                i < j < 4 ==> !#[trigger] start.dodge_by(*f, j)) implies mv.dodge_dir
            == start.dodge_toward(*f, i) by {
            assert(fallen.dodge_by(*f, i));
            assert forall|j: int| i < j < 4 implies !#[trigger] fallen.dodge_by(*f, j) by {
                assert(!start.dodge_by(*f, j));
            }
        }
    }
    let slide_started = run_slide(mv, f, grounded);
    let mut vel_y: Scalar = jumped_vel;
    let drive = if scalar(ZERO).lt(mv.dodge_timer) {
        if !grounded {
            vel_y = vel_y.max(scalar(DODGE_FALL_LIMIT)).min(scalar(DODGE_RISE_LIMIT));
        }
        Drive::Dodge
    } else if mv.is_sliding {
        Drive::Slide
    } else {
        Drive::Walk {
            gait: if mv.is_crouching {
                Gait::Crouch
            } else if mv.is_sprinting {
                Gait::Sprint
            } else {
                Gait::Run
            },
            moving: scalar(MOVING_MIN).lt(f.input_len_sq),
            project: grounded && f.ground_normal_y.lt(scalar(SLOPE_PROJECT)),
            vertical: grounded && f.ground_normal_y.lt(scalar(SLOPE_VERTICAL)) && !f.jump_just,
        }
    };
    let fov = if mv.is_sliding {
        FovTarget::Slide
    } else if mv.is_sprinting {
        FovTarget::Sprint
    } else {
        FovTarget::Default
    };
    MovementOutcome { grounded, vel_y, jumped, dodged, slide_started, drive, fov }
}

/// Lets gravity act and a jump begin: whether it does, and the vertical velocity.
fn fall_and_jump(f: &MovementFrame, grounded: bool) -> (r: (bool, Scalar))
    requires
        grounded == f.grounded(),
    ensures
        r.0 == f.jumps(),
        r.1 == f.jumped_vel(),
{
    let vel_y: Scalar = if grounded {
        if f.vel_y.lt(scalar(ZERO)) {
            f.rest_vel_y
        } else {
            f.vel_y
        }
    } else {
        f.fall_vel_y
    };
    let can_jump = if f.double_jump {
        grounded || vel_y.abs().lt(f.grounded_vel_threshold)
    } else {
        grounded
    };
    if f.jump_just && can_jump {
        (true, f.jump_impulse)
    } else {
        (false, vel_y)
    }
}

/// States that remember the same dodge and the same key presses dodge alike.
proof fn lemma_same_taps(a: PlayerMovementState, b: PlayerMovementState, f: MovementFrame)
    requires
        a.dodge_cooldown == b.dodge_cooldown,
        a.dodge_timer == b.dodge_timer,
        a.last_dir_press_time == b.last_dir_press_time,
    ensures
        a.dodges(f) == b.dodges(f),
        forall|i: int| 0 <= i < 4 ==> #[trigger] a.dodge_by(f, i) == b.dodge_by(f, i),
        forall|i: int| 0 <= i < 4 ==> #[trigger] a.dodge_toward(f, i) == b.dodge_toward(f, i),
{
    assert forall|i: int| 0 <= i < 4 implies #[trigger] a.dodge_by(f, i) == b.dodge_by(f, i) by {
        assert(a.double_tap(f, i) == b.double_tap(f, i));
    }
    if a.dodges(f) {
        let i = choose|i: int| 0 <= i < 4 && #[trigger] a.dodge_by(f, i);
        assert(b.dodge_by(f, i));
    }
    if b.dodges(f) {
        let i = choose|i: int| 0 <= i < 4 && #[trigger] b.dodge_by(f, i);
        assert(a.dodge_by(f, i));
    }
}

/// Runs the dodge timers down and begins the dodge that the keys ask for.
fn run_dodge(
    mv: &mut PlayerMovementState,
    f: &MovementFrame,
    grounded: bool,
    vel_y: Scalar,
) -> (dodged: bool)
    requires
        grounded == f.grounded(),
        vel_y == f.jumped_vel(),
    ensures
        dodged == old(mv).dodges(*f),
        final(mv).velocity_xz == old(mv).velocity_xz,
        final(mv).is_sprinting == old(mv).is_sprinting,
        final(mv).is_crouching == old(mv).is_crouching,
        final(mv).slide_dir == old(mv).slide_dir,
        final(mv).ground_contact == old(mv).ground_contact,
        final(mv).is_sliding == (old(mv).is_sliding && !dodged),
        final(mv).slide_timer == if dodged {
            scalar(ZERO)
        } else {
            old(mv).slide_timer
        },
        final(mv).dodge_timer == old(mv).dodge_left(*f),
        final(mv).dodge_cooldown == if dodged {
            scalar(DODGE_COOLDOWN)
        } else {
            run_down(old(mv).dodge_cooldown, f.dodge_cooldown_after)
        },
        !dodged ==> final(mv).dodge_dir == old(mv).dodge_dir,
        forall|i: int|
            0 <= i < 4 && #[trigger] old(mv).dodge_by(*f, i) && (forall|j: int|
                i < j < 4 ==> !#[trigger] old(mv).dodge_by(*f, j)) ==> final(mv).dodge_dir
                == old(mv).dodge_toward(*f, i),
        forall|i: int|
            0 <= i < 4 ==> #[trigger] final(mv).last_dir_press_time[i]
                == if f.keys[i].just_pressed {
                f.now
            } else {
                old(mv).last_dir_press_time[i]
            },
        forall|i: int|
            0 <= i < 4 ==> #[trigger] final(mv).dir_was_pressed[i] == f.keys[i].pressed,
{
    let ghost start = *mv;
    if scalar(ZERO).lt(mv.dodge_cooldown) {
        mv.dodge_cooldown = f.dodge_cooldown_after;
    }
    if scalar(ZERO).lt(mv.dodge_timer) {
        mv.dodge_timer = f.dodge_timer_after;
    }
    let can_dodge = grounded || vel_y.abs().lt(scalar(DODGE_MAX_AIR_VEL));
    let ready = mv.dodge_cooldown.le(scalar(ZERO)) && mv.dodge_timer.le(scalar(ZERO));
    let may_start = ready && can_dodge && scalar(ZERO).lt(f.input_len_sq);
    let ghost mid = *mv;
    let dodged = start_dodge(mv, f, may_start);
    proof {
        assert(ready == start.dodge_ready(*f));
        assert(can_dodge == f.may_dodge());
        assert forall|i: int| 0 <= i < 4 implies #[trigger] start.dodge_by(*f, i) == (may_start
            && mid.double_tap(*f, i)) by {
            assert(mid.last_dir_press_time[i] == start.last_dir_press_time[i]);
        }
        if dodged {
            let i = choose|i: int| 0 <= i < 4 && may_start && #[trigger] mid.double_tap(*f, i);
            assert(start.dodge_by(*f, i));
        }
        if start.dodges(*f) {
            let i = choose|i: int| 0 <= i < 4 && #[trigger] start.dodge_by(*f, i);
            assert(mid.double_tap(*f, i));
        }
        assert forall|i: int|
            0 <= i < 4 && #[trigger] start.dodge_by(*f, i) && (forall|j: int|
                i < j < 4 ==> !#[trigger] start.dodge_by(*f, j)) implies mv.dodge_dir
            == start.dodge_toward(*f, i) by {
            assert(mid.double_tap(*f, i));
            assert forall|j: int| i < j < 4 implies !#[trigger] mid.double_tap(*f, j) by {
                assert(!start.dodge_by(*f, j));
            }
        }
    }
    dodged
}

/// Begins and ends a slide, then settles crouching and sprinting.
fn run_slide(mv: &mut PlayerMovementState, f: &MovementFrame, grounded: bool) -> (started: bool)
    requires
        grounded == f.grounded(),
    ensures
        ({
            let starts = f.grounded() && f.sprint_held && f.crouch_just && !old(mv).is_sliding
                && old(mv).dodge_timer.at_most(scalar(ZERO)) && f.half_run_speed.less(f.speed_xz);
            let timer = if starts {
                scalar(SLIDE_DURATION)
            } else {
                old(mv).slide_timer
            };
            let was = old(mv).is_sliding || starts;
            let slides = was && f.grounded() && !timer.at_most(scalar(ZERO));
            &&& started == starts
            &&& final(mv).is_sliding == slides
            &&& final(mv).slide_timer == if was && !slides {
                scalar(ZERO)
            } else {
                timer
            }
            &&& final(mv).slide_dir == if !starts {
                old(mv).slide_dir
            } else if scalar(SLIDE_DIRECTION_SPEED).less(f.speed_xz) {
                f.travel_dir
            } else {
                f.world_dir
            }
            &&& final(mv).is_crouching == if slides {
                old(mv).is_crouching || starts
            } else {
                f.crouch_held
            }
            &&& final(mv).is_sprinting == (f.sprint_held && !final(mv).is_crouching && !slides)
        }),
        final(mv).velocity_xz == old(mv).velocity_xz,
        final(mv).dodge_timer == old(mv).dodge_timer,
        final(mv).dodge_dir == old(mv).dodge_dir,
        final(mv).dodge_cooldown == old(mv).dodge_cooldown,
        final(mv).last_dir_press_time == old(mv).last_dir_press_time,
        final(mv).dir_was_pressed == old(mv).dir_was_pressed,
        final(mv).ground_contact == old(mv).ground_contact,
{
    let mut started = false;
    if grounded && f.sprint_held && f.crouch_just && !mv.is_sliding && mv.dodge_timer.le(
        scalar(ZERO),
    ) && f.half_run_speed.lt(f.speed_xz) {
        mv.slide_dir = if scalar(SLIDE_DIRECTION_SPEED).lt(f.speed_xz) {
            f.travel_dir
        } else {
            f.world_dir
        };
        mv.slide_timer = scalar(SLIDE_DURATION);
        mv.is_sliding = true;
        mv.is_crouching = true;
        started = true;
    }
    if mv.is_sliding && (!grounded || mv.slide_timer.le(scalar(ZERO))) {
        mv.is_sliding = false;
        mv.slide_timer = scalar(ZERO);
        if grounded {
            mv.is_crouching = true;
        }
    }
    if !mv.is_sliding {
        mv.is_crouching = f.crouch_held;
    }
    mv.is_sprinting = f.sprint_held && !mv.is_crouching && !mv.is_sliding;
    started
}

/// Records the direction keys of the frame and begins the dodge that the last
/// double-tapped one of them asks for, if a dodge may begin.
fn start_dodge(mv: &mut PlayerMovementState, f: &MovementFrame, may_start: bool) -> (dodged: bool)
    ensures
        dodged == (exists|i: int|
            0 <= i < 4 && may_start && #[trigger] old(mv).double_tap(*f, i)),
        final(mv).velocity_xz == old(mv).velocity_xz,
        final(mv).is_sprinting == old(mv).is_sprinting,
        final(mv).is_crouching == old(mv).is_crouching,
        final(mv).slide_dir == old(mv).slide_dir,
        final(mv).ground_contact == old(mv).ground_contact,
        final(mv).is_sliding == (old(mv).is_sliding && !dodged),
        final(mv).slide_timer == if dodged {
            scalar(ZERO)
        } else {
            old(mv).slide_timer
        },
        final(mv).dodge_timer == if dodged {
            scalar(DODGE_DURATION)
        } else {
            old(mv).dodge_timer
        },
        final(mv).dodge_cooldown == if dodged {
            scalar(DODGE_COOLDOWN)
        } else {
            old(mv).dodge_cooldown
        },
        !dodged ==> final(mv).dodge_dir == old(mv).dodge_dir,
        forall|i: int|
            0 <= i < 4 && may_start && #[trigger] old(mv).double_tap(*f, i) && (forall|j: int|
                i < j < 4 ==> !#[trigger] old(mv).double_tap(*f, j)) ==> final(mv).dodge_dir
                == old(mv).dodge_toward(*f, i),
        forall|i: int|
            0 <= i < 4 ==> #[trigger] final(mv).last_dir_press_time[i]
                == if f.keys[i].just_pressed {
                f.now
            } else {
                old(mv).last_dir_press_time[i]
            },
        forall|i: int|
            0 <= i < 4 ==> #[trigger] final(mv).dir_was_pressed[i] == f.keys[i].pressed,
{
    let ghost before = *mv;
    let mut dodged = false;
    let mut i: usize = 0;
    while i < 4
        invariant
            i <= 4,
            before == *old(mv),
            dodged == (exists|k: int|
                0 <= k < i && may_start && #[trigger] before.double_tap(*f, k)),
            mv.velocity_xz == before.velocity_xz,
            mv.is_sprinting == before.is_sprinting,
            mv.is_crouching == before.is_crouching,
            mv.slide_dir == before.slide_dir,
            mv.ground_contact == before.ground_contact,
            mv.is_sliding == (before.is_sliding && !dodged),
            mv.slide_timer == if dodged {
                scalar(ZERO)
            } else {
                before.slide_timer
            },
            mv.dodge_timer == if dodged {
                scalar(DODGE_DURATION)
            } else {
                before.dodge_timer
            },
            mv.dodge_cooldown == if dodged {
                scalar(DODGE_COOLDOWN)
            } else {
                before.dodge_cooldown
            },
            !dodged ==> mv.dodge_dir == before.dodge_dir,
            forall|k: int|
                0 <= k < i && may_start && #[trigger] before.double_tap(*f, k) && (forall|j: int|
                    k < j < i ==> !#[trigger] before.double_tap(*f, j)) ==> mv.dodge_dir
                    == before.dodge_toward(*f, k),
            forall|k: int|
                0 <= k < i ==> #[trigger] mv.last_dir_press_time[k] == if f.keys[k].just_pressed {
                    f.now
                } else {
                    before.last_dir_press_time[k]
                },
            forall|k: int|
                i <= k < 4 ==> #[trigger] mv.last_dir_press_time[k]
                    == before.last_dir_press_time[k],
            forall|k: int| 0 <= k < i ==> #[trigger] mv.dir_was_pressed[k] == f.keys[k].pressed,
        decreases 4 - i,
    {
        let key = f.keys[i];
        let last: Scalar = mv.last_dir_press_time[i];
        if key.just_pressed {
            if key.since_last.lt(scalar(DOUBLE_TAP_WINDOW)) && scalar(ZERO).lt(last) {
                assert(before.double_tap(*f, i as int));
                if may_start {
                    mv.dodge_dir = if scalar(DIRECTION_MIN).lt(key.dir_len_sq) {
                        key.dir_unit
                    } else {
                        f.world_dir
                    };
                    mv.dodge_timer = scalar(DODGE_DURATION);
                    mv.dodge_cooldown = scalar(DODGE_COOLDOWN);
                    mv.is_sliding = false;
                    mv.slide_timer = scalar(ZERO);
                    dodged = true;
                }
            }
            mv.last_dir_press_time[i] = f.now;
        }
        mv.dir_was_pressed[i] = key.pressed;
        i = i + 1;
    }
    dodged
}

/// A surface that the ground probe touches.
#[derive(Clone, Copy, PartialEq, Eq, Structural, Debug)]
pub struct GroundHit {
    /// Upward component of the surface normal.
    pub up: Scalar,
    pub distance: Scalar,
}

/// The surface is walkable and near enough to stand on.
pub open spec fn supports(hit: GroundHit, reach: Scalar) -> bool {
    scalar(GROUND_NORMAL_Y_MIN).less(hit.up) && hit.distance.at_most(reach)
}

/// One of the surfaces holds the player; contact is lost later than it is won.
pub open spec fn touches_ground(
    hits: Seq<GroundHit>,
    was_grounded: bool,
    enter: Scalar,
    exit: Scalar,
) -> bool {
    exists|i: int|
        0 <= i < hits.len() && supports(
            #[trigger] hits[i],
            if was_grounded {
                exit
            } else {
                enter
            },
        )
}

/// Whether the probe finds ground, with the given distances for winning and
/// for losing contact.
pub fn has_ground_contact_with_thresholds(
    hits: &Vec<GroundHit>,
    was_grounded: bool,
    enter_dist: Scalar,
    exit_dist: Scalar,
) -> (r: bool)
    ensures
        r == touches_ground(hits@, was_grounded, enter_dist, exit_dist),
{
    let reach: Scalar = if was_grounded {
        exit_dist
    } else {
        enter_dist
    };
    let mut i: usize = 0;
    while i < hits.len()
        invariant
            i <= hits.len(),
            reach == if was_grounded {
                exit_dist
            } else {
                enter_dist
            },
            forall|j: int| 0 <= j < i ==> !supports(#[trigger] hits@[j], reach),
        decreases hits.len() - i,
    {
        if scalar(GROUND_NORMAL_Y_MIN).lt(hits[i].up) && hits[i].distance.le(reach) {
            assert(supports(hits@[i as int], reach));
            return true;
        }
        i = i + 1;
    }
    false
}

/// Whether the probe finds ground, given whether it did before.
pub fn has_ground_contact_with_state(hits: &Vec<GroundHit>, was_grounded: bool) -> (r: bool)
    ensures
        r == touches_ground(
            hits@,
            was_grounded,
            scalar(GROUND_CONTACT_DIST_ENTER),
            scalar(GROUND_CONTACT_DIST_EXIT),
        ),
{
    has_ground_contact_with_thresholds(
        hits,
        was_grounded,
        scalar(GROUND_CONTACT_DIST_ENTER),
        scalar(GROUND_CONTACT_DIST_EXIT),
    )
}

/// Whether the probe finds ground near enough to win contact.
pub fn has_ground_contact(hits: &Vec<GroundHit>) -> (r: bool)
    ensures
        r == touches_ground(
            hits@,
            false,
            scalar(GROUND_CONTACT_DIST_ENTER),
            scalar(GROUND_CONTACT_DIST_EXIT),
        ),
{
    has_ground_contact_with_state(hits, false)
}

/// The walkable surface that is flattest; the last one of equals.
pub fn get_ground_normal(hits: &Vec<GroundHit>) -> (r: Option<usize>)
    ensures
        match r {
            Some(k) => {
                &&& k < hits.len()
                &&& scalar(GROUND_NORMAL_Y_MIN).less(hits@[k as int].up)
                &&& forall|j: int|
                    0 <= j < hits.len() ==> !hits@[k as int].up.less(#[trigger] hits@[j].up)
                &&& forall|j: int|
                    k < j < hits.len() ==> !hits@[k as int].up.at_most(#[trigger] hits@[j].up)
            },
            None => forall|j: int|
                0 <= j < hits.len() ==> !scalar(GROUND_NORMAL_Y_MIN).less(#[trigger] hits@[j].up),
        },
{
    let mut best: Option<usize> = None;
    let mut i: usize = 0;
    while i < hits.len()
        invariant
            i <= hits.len(),
            match best {
                Some(k) => {
                    &&& k < i
                    &&& scalar(GROUND_NORMAL_Y_MIN).less(hits@[k as int].up)
                    &&& forall|j: int|
                        0 <= j < i ==> !hits@[k as int].up.less(#[trigger] hits@[j].up)
                    &&& forall|j: int|
                        k < j < i ==> !hits@[k as int].up.at_most(#[trigger] hits@[j].up)
                },
                None => forall|j: int|
                    0 <= j < i ==> !scalar(GROUND_NORMAL_Y_MIN).less(#[trigger] hits@[j].up),
            },
        decreases hits.len() - i,
    {
        if scalar(GROUND_NORMAL_Y_MIN).lt(hits[i].up) {
            match best {
                Some(k) => {
                    if hits[k].up.le(hits[i].up) {
                        best = Some(i);
                    }
                },
                None => {
                    best = Some(i);
                },
            }
        }
        i = i + 1;
    }
    best
}

/// The vertical velocity is a spike of the contact solver on flat ground.
pub open spec fn spurious_rise(
    recently_grounded: bool,
    ground_normal_y: Scalar,
    vel_y: Scalar,
    ceiling: Scalar,
) -> bool {
    &&& recently_grounded
    &&& !ground_normal_y.less(scalar(SLOPE_VERTICAL))
    &&& scalar(DAMP_MIN_VEL).less(vel_y)
    &&& vel_y.less(ceiling)
}

/// Takes off upward velocity that contact resolution wrote on flat ground;
/// `ceiling` is nine tenths of the jump impulse.
pub fn post_physics_vel_y_damp(
    ground: &mut MovementGroundState,
    hits: &Vec<GroundHit>,
    now: Scalar,
    since_grounded: Scalar,
    ground_normal_y: Scalar,
    vel_y: Scalar,
    ceiling: Scalar,
) -> (r: Scalar)
    ensures
        ({
            let recent = since_grounded.less(scalar(COYOTE_TIME_SECS));
            let raw = touches_ground(
                hits@,
                recent,
                scalar(GROUND_CONTACT_DIST_ENTER),
                scalar(GROUND_CONTACT_DIST_EXIT),
            );
            &&& final(ground).last_grounded_time == if raw {
                now
            } else {
                old(ground).last_grounded_time
            }
            &&& r == if spurious_rise(raw || recent, ground_normal_y, vel_y, ceiling) {
                scalar(ZERO)
            } else {
                vel_y
            }
        }),
{
    let recent = since_grounded.lt(scalar(COYOTE_TIME_SECS));
    let raw = has_ground_contact_with_state(hits, recent);
    if raw {
        ground.last_grounded_time = now;
    }
    let on_slope = ground_normal_y.lt(scalar(SLOPE_VERTICAL));
    if (raw || recent) && !on_slope && scalar(DAMP_MIN_VEL).lt(vel_y) && vel_y.lt(ceiling) {
        scalar(ZERO)
    } else {
        vel_y
    }
}

/// The movement keys that are held.
#[derive(Clone, Copy, PartialEq, Eq, Structural, Debug)]
pub struct MoveKeys {
    pub forward: bool,
    pub backward: bool,
    pub left: bool,
    pub right: bool,
}

/// A step between two opposite keys, which cancel out.
pub open spec fn step_between(up: bool, down: bool) -> int {
    if up == down {
        0
    } else if up {
        1
    } else {
        -1
    }
}

/// The movement input in steps of one: left counts up along x, forward along y;
/// opposite keys cancel out.
pub fn raw_move_input(keys: MoveKeys) -> (r: (i8, i8))
    ensures
        r.0 == step_between(keys.left, keys.right),
        r.1 == step_between(keys.forward, keys.backward),
{
    let mut x: i8 = 0;
    let mut y: i8 = 0;
    if keys.forward {
        y = y + 1;
    }
    if keys.backward {
        y = y - 1;
    }
    if keys.right {
        x = x - 1;
    }
    if keys.left {
        x = x + 1;
    }
    (x, y)
}

/// The masks of the held actions, joined.
pub open spec fn held_mask(actions: Seq<(bool, u32)>) -> u32
    decreases actions.len(),
{
    if actions.len() == 0 {
        0
    } else if actions.last().0 {
        held_mask(actions.drop_last()) | actions.last().1
    } else {
        held_mask(actions.drop_last())
    }
}

/// The bit set of the actions that are held; each action comes with its mask.
pub fn collect_actions(actions: &Vec<(bool, u32)>) -> (r: u32)
    ensures
        r == held_mask(actions@),
{
    let mut r: u32 = 0;
    let mut i: usize = 0;
    assert(actions@.take(0) =~= Seq::<(bool, u32)>::empty());
    while i < actions.len()
        invariant
            i <= actions.len(),
            r == held_mask(actions@.take(i as int)),
        decreases actions.len() - i,
    {
        proof {
            lemma_take_next(actions@, i as int);
        }
        if actions[i].0 {
            r = r | actions[i].1;
        }
        i = i + 1;
    }
    assert(actions@.take(actions.len() as int) =~= actions@);
    r
}

/// The number of the next input message; it starts over after the last one.
pub fn next_tick(tick: u32) -> (r: u32)
    ensures
        r == if tick == u32::MAX {
            0
        } else {
            tick + 1
        },
{
    tick.wrapping_add(1)
}

/// What a message to the server says of the keys.
#[derive(Clone, Copy, PartialEq, Eq, Structural, Debug)]
pub struct SentInput {
    /// The movement input, before it is turned into the world.
    pub x: i8,
    pub y: i8,
    pub actions: u32,
    pub client_tick: u32,
}

/// The next message to the server. While a web page has the keys, it says that
/// none is held.
pub fn collect_and_send_input(
    keys: MoveKeys,
    actions: &Vec<(bool, u32)>,
    focus: NuiFocusState,
    tick: &mut u32,
) -> (r: SentInput)
    ensures
        *final(tick) == if *old(tick) == u32::MAX {
            0
        } else {
            *old(tick) + 1
        },
        r.client_tick == *final(tick),
        focus.has_focus ==> r.x == 0 && r.y == 0 && r.actions == 0,
        !focus.has_focus ==> {
            &&& r.x == step_between(keys.left, keys.right)
            &&& r.y == step_between(keys.forward, keys.backward)
            &&& r.actions == held_mask(actions@)
        },
{
    *tick = next_tick(*tick);
    if focus.has_focus {
        return SentInput { x: 0, y: 0, actions: 0, client_tick: *tick };
    }
    let (x, y) = raw_move_input(keys);
    SentInput { x, y, actions: collect_actions(actions), client_tick: *tick }
}

/// Every action that is held shows all of its bits in the joined mask.
pub proof fn law_held_action_shown(actions: Seq<(bool, u32)>, i: int)
    requires
        0 <= i < actions.len(),
        actions[i].0,
    ensures
        held_mask(actions) & actions[i].1 == actions[i].1,
    decreases actions.len(),
{
    let rest = held_mask(actions.drop_last());
    let last = actions.last().1;
    let m = actions[i].1;
    if i == actions.len() - 1 {
        assert((rest | last) & last == last) by (bit_vector);
    } else {
        law_held_action_shown(actions.drop_last(), i);
        assert(rest & m == m ==> (rest | last) & m == m) by (bit_vector);
    }
}

/// The joined mask shows no bit that no held action has.
pub proof fn law_shown_bit_is_held(actions: Seq<(bool, u32)>, bits: u32)
    requires
        forall|i: int|
            0 <= i < actions.len() && (#[trigger] actions[i]).0 ==> actions[i].1 & bits == 0,
    ensures
        held_mask(actions) & bits == 0,
    decreases actions.len(),
{
    if actions.len() == 0 {
        assert(0u32 & bits == 0) by (bit_vector);
    } else {
        let front = actions.drop_last();
        assert forall|i: int| 0 <= i < front.len() && (#[trigger] front[i]).0 implies front[i].1
            & bits == 0 by {
            assert(front[i] == actions[i]);
        }
        law_shown_bit_is_held(front, bits);
        let rest = held_mask(front);
        let last = actions[actions.len() - 1].1;
        assert(rest & bits == 0 && last & bits == 0 ==> (rest | last) & bits == 0) by (bit_vector);
    }
}

/// Nobody sprints while crouching or sliding.
pub proof fn law_sprint_excludes(
    before: PlayerMovementState,
    f: MovementFrame,
    next: PlayerMovementState,
    out: MovementOutcome,
)
    requires
        before.moved(f, next, out),
        next.is_sprinting,
    ensures
        !next.is_crouching,
        !next.is_sliding,
{
}

/// A slide goes on only in contact with the ground, and with time left.
pub proof fn law_slide_on_ground(
    before: PlayerMovementState,
    f: MovementFrame,
    next: PlayerMovementState,
    out: MovementOutcome,
)
    requires
        before.moved(f, next, out),
        next.is_sliding,
    ensures
        next.ground_contact,
        !next.slide_timer.at_most(scalar(ZERO)),
{
}

/// Whoever slides crouches: a frame keeps this.
pub proof fn law_sliding_crouches(
    before: PlayerMovementState,
    f: MovementFrame,
    next: PlayerMovementState,
    out: MovementOutcome,
)
    requires
        before.is_sliding ==> before.is_crouching,
        before.moved(f, next, out),
    ensures
        next.is_sliding ==> next.is_crouching,
{
}

/// Nobody slides while a dodge lasts: a frame keeps this.
pub proof fn law_sliding_excludes_dodge(
    before: PlayerMovementState,
    f: MovementFrame,
    next: PlayerMovementState,
    out: MovementOutcome,
)
    requires
        before.is_sliding ==> before.dodge_timer.at_most(scalar(ZERO)),
        before.moved(f, next, out),
    ensures
        next.is_sliding ==> next.dodge_timer.at_most(scalar(ZERO)),
{
}

/// No dodge begins while the cooldown of the last one still runs.
pub proof fn law_cooldown_bars_dodge(
    before: PlayerMovementState,
    f: MovementFrame,
    next: PlayerMovementState,
    out: MovementOutcome,
)
    requires
        before.moved(f, next, out),
        scalar(ZERO).less(before.dodge_cooldown),
        scalar(ZERO).less(f.dodge_cooldown_after),
    ensures
        !out.dodged,
{
    if before.dodges(f) {
        let i = choose|i: int| 0 <= i < 4 && #[trigger] before.dodge_by(f, i);
        assert(before.dodge_ready(f));
    }
}

/// A key that was never pressed before cannot set off a dodge.
pub proof fn law_first_press_never_dodges(
    before: PlayerMovementState,
    f: MovementFrame,
    next: PlayerMovementState,
    out: MovementOutcome,
)
    requires
        before.moved(f, next, out),
        forall|i: int|
            0 <= i < 4 ==> #[trigger] before.last_dir_press_time[i] == scalar(ZERO),
    ensures
        !out.dodged,
{
    if before.dodges(f) {
        let i = choose|i: int| 0 <= i < 4 && #[trigger] before.dodge_by(f, i);
        assert(before.double_tap(f, i));
    }
}

/// A jump or a dodge ends a slide, unless a new one begins in the same frame.
pub proof fn law_jump_and_dodge_end_slide(
    before: PlayerMovementState,
    f: MovementFrame,
    next: PlayerMovementState,
    out: MovementOutcome,
)
    requires
        before.moved(f, next, out),
        out.jumped || out.dodged,
        !out.slide_started,
    ensures
        !next.is_sliding,
        next.slide_timer == scalar(ZERO),
{
}

/// Contact once won is not lost while the same surfaces stay within the
/// distance at which contact is won.
pub proof fn law_contact_hysteresis(hits: Seq<GroundHit>)
    requires
        touches_ground(
            hits,
            false,
            scalar(GROUND_CONTACT_DIST_ENTER),
            scalar(GROUND_CONTACT_DIST_EXIT),
        ),
    ensures
        touches_ground(
            hits,
            true,
            scalar(GROUND_CONTACT_DIST_ENTER),
            scalar(GROUND_CONTACT_DIST_EXIT),
        ),
{
    let i = choose|i: int|
        0 <= i < hits.len() && supports(#[trigger] hits[i], scalar(GROUND_CONTACT_DIST_ENTER));
    assert(supports(hits[i], scalar(GROUND_CONTACT_DIST_EXIT)));
}

/// The gait of a frame that walks: a crouching player crouches, a sprinting one
/// sprints, and any other one runs.
pub proof fn law_gait(
    ground: &mut MovementGroundState,
    mv: &mut PlayerMovementState,
    f: &MovementFrame,
    out: MovementOutcome,
)
    requires
        call_ensures(apply_player_movement, (ground, mv, f), out),
    ensures
        out.drive matches Drive::Walk { gait, .. } ==> {
            &&& gait == Gait::Crouch <==> final(mv).is_crouching
            &&& gait == Gait::Sprint <==> final(mv).is_sprinting
            &&& gait == Gait::Run <==> !final(mv).is_crouching && !final(mv).is_sprinting
        },
        final(mv).is_sprinting <==> {
            &&& f.sprint_held
            &&& !final(mv).is_crouching
            &&& !final(mv).is_sliding
        },
        !final(mv).is_sliding ==> final(mv).is_crouching == f.crouch_held,
        out.slide_started && final(mv).is_sliding ==> final(mv).is_crouching,
        final(mv).is_sliding && !out.slide_started ==> final(mv).is_crouching == old(mv).is_crouching,
{
}

/// A running dodge drives the player, else a slide, else the walk. The walk
/// accelerates for an input longer than a thousandth (squared), follows the
/// slope of ground that is not flat, and follows it upward too unless the
/// player asks for a jump.
pub proof fn law_drive(
    ground: &mut MovementGroundState,
    mv: &mut PlayerMovementState,
    f: &MovementFrame,
    out: MovementOutcome,
)
    requires
        call_ensures(apply_player_movement, (ground, mv, f), out),
    ensures
        out.drive is Dodge <==> scalar(0).less(final(mv).dodge_timer),
        out.drive is Slide <==> final(mv).is_sliding && !scalar(0).less(final(mv).dodge_timer),
        out.drive is Walk <==> !final(mv).is_sliding && !scalar(0).less(final(mv).dodge_timer),
        out.drive matches Drive::Walk { moving, project, vertical, .. } ==> {
            &&& moving == scalar(0x3a83_126f).less(f.input_len_sq)
            &&& project == (out.grounded && f.ground_normal_y.less(scalar(0x3f7f_f972)))
            &&& vertical == (out.grounded && !f.jump_just && f.ground_normal_y.less(
                scalar(0x3f7f_3b64),
            ))
            &&& vertical ==> project
        },
        out.fov is Slide <==> final(mv).is_sliding,
        out.fov is Sprint <==> final(mv).is_sprinting,
{
}

/// A player counts as grounded on the ground and for 0.15 s after it; only
/// touching the ground starts that time anew.
pub proof fn law_grace_period(
    ground: &mut MovementGroundState,
    mv: &mut PlayerMovementState,
    f: &MovementFrame,
    out: MovementOutcome,
)
    requires
        call_ensures(apply_player_movement, (ground, mv, f), out),
    ensures
        out.grounded <==> f.raw_grounded || f.since_grounded.less(scalar(0x3e19_999a)),
        final(mv).ground_contact == out.grounded,
        f.raw_grounded ==> final(ground).last_grounded_time == f.now,
        !f.raw_grounded ==> final(ground).last_grounded_time == old(ground).last_grounded_time,
{
}

/// Gravity and the jump. A jump takes a press of its key, from the ground or,
/// where double jumps are allowed, in the air while the player hardly rises or
/// falls; it sets the vertical velocity to the impulse. Without one a player in
/// the air falls, a sinking player on the ground is held there, and a rising one
/// goes on; a dodge in the air keeps the result between -2 and 2.
pub proof fn law_vertical_velocity(
    ground: &mut MovementGroundState,
    mv: &mut PlayerMovementState,
    f: &MovementFrame,
    out: MovementOutcome,
)
    requires
        call_ensures(apply_player_movement, (ground, mv, f), out),
    ensures
        out.jumped ==> f.jump_just,
        out.grounded ==> out.jumped == f.jump_just,
        !out.grounded ==> (out.jumped <==> f.jump_just && f.double_jump
            && f.fall_vel_y.magnitude().less(f.grounded_vel_threshold)),
        out.grounded && out.jumped ==> out.vel_y == f.jump_impulse,
        out.grounded && !out.jumped && f.vel_y.less(scalar(0)) ==> out.vel_y == f.rest_vel_y,
        out.grounded && !out.jumped && !f.vel_y.less(scalar(0)) ==> out.vel_y == f.vel_y,
        !out.grounded && !(out.drive is Dodge) ==> out.vel_y == if out.jumped {
            f.jump_impulse
        } else {
            f.fall_vel_y
        },
        !out.grounded && out.drive is Dodge ==> {
            &&& scalar(0xc000_0000).at_most(out.vel_y)
            &&& out.vel_y.at_most(scalar(0x4000_0000))
            &&& !out.jumped && scalar(0xc000_0000).less(f.fall_vel_y) && f.fall_vel_y.less(
                scalar(0x4000_0000),
            ) ==> out.vel_y == f.fall_vel_y
        },
{
}

/// A dodge begins only for a player who asks to move and neither dodges nor waits
/// for the cooldown. It lasts 0.2 s, ends a slide, and the next one is allowed
/// after 1.5 s; without one both times run down and the direction stays.
pub proof fn law_dodge_begins(
    ground: &mut MovementGroundState,
    mv: &mut PlayerMovementState,
    f: &MovementFrame,
    out: MovementOutcome,
)
    requires
        call_ensures(apply_player_movement, (ground, mv, f), out),
    ensures
        out.dodged ==> {
            &&& scalar(0).less(f.input_len_sq)
            &&& scalar(0).less(old(mv).dodge_cooldown) ==> f.dodge_cooldown_after.at_most(scalar(0))
            &&& scalar(0).less(old(mv).dodge_timer) ==> f.dodge_timer_after.at_most(scalar(0))
            &&& final(mv).dodge_timer == scalar(0x3e4c_cccd)
            &&& final(mv).dodge_cooldown == scalar(0x3fc0_0000)
            &&& out.drive is Dodge
            &&& !final(mv).is_sliding
            &&& !out.slide_started
            &&& final(mv).slide_timer == scalar(0)
        },
        !out.dodged ==> {
            &&& final(mv).dodge_dir == old(mv).dodge_dir
            &&& final(mv).dodge_timer == if scalar(0).less(old(mv).dodge_timer) {
                f.dodge_timer_after
            } else {
                old(mv).dodge_timer
            }
            &&& final(mv).dodge_cooldown == if scalar(0).less(old(mv).dodge_cooldown) {
                f.dodge_cooldown_after
            } else {
                old(mv).dodge_cooldown
            }
        },
{
    if out.dodged {
        let i = choose|i: int| 0 <= i < 4 && #[trigger] old(mv).dodge_by(*f, i);
        assert(old(mv).dodge_by(*f, i));
    }
}

/// The key that sets a dodge off. Any key that qualifies does, and the dodge
/// goes the way of the last one of them, or of the whole input where that key
/// points nowhere.
pub proof fn law_dodge_key(
    ground: &mut MovementGroundState,
    mv: &mut PlayerMovementState,
    f: &MovementFrame,
    out: MovementOutcome,
    i: int,
)
    requires
        call_ensures(apply_player_movement, (ground, mv, f), out),
        0 <= i < 4,
        f.keys[i].just_pressed,
        f.keys[i].since_last.less(scalar(0x3e99_999a)),
        scalar(0).less(old(mv).last_dir_press_time[i]),
        forall|j: int| i < j < 4 ==> !(#[trigger] f.keys[j]).just_pressed,
        old(mv).dodge_cooldown.at_most(scalar(0)),
        old(mv).dodge_timer.at_most(scalar(0)),
        scalar(0).less(f.input_len_sq),
        out.grounded,
    ensures
        out.dodged,
        final(mv).dodge_dir == if scalar(0x38d1_b717).less(f.keys[i].dir_len_sq) {
            f.keys[i].dir_unit
        } else {
            f.world_dir
        },
{
    assert(old(mv).dodge_by(*f, i));
    assert forall|j: int| i < j < 4 implies !#[trigger] old(mv).dodge_by(*f, j) by {
        assert(!f.keys[j].just_pressed);
    }
}

/// No key that is pressed for the second time in the window, no dodge; nor in
/// the air at a vertical speed of 3 or more.
pub proof fn law_no_dodge(
    ground: &mut MovementGroundState,
    mv: &mut PlayerMovementState,
    f: &MovementFrame,
    out: MovementOutcome,
)
    requires
        call_ensures(apply_player_movement, (ground, mv, f), out),
        (forall|i: int|
            0 <= i < 4 ==> !(#[trigger] f.keys[i]).just_pressed || !f.keys[i].since_last.less(
                scalar(0x3e99_999a),
            ) || !scalar(0).less(old(mv).last_dir_press_time[i])) || (!out.grounded && !out.jumped
            && !f.fall_vel_y.magnitude().less(scalar(0x4040_0000))),
    ensures
        !out.dodged,
{
    assert forall|i: int| 0 <= i < 4 implies !#[trigger] old(mv).dodge_by(*f, i) by {
        assert(f.keys[i].just_pressed || !f.keys[i].just_pressed);
    }
}

/// A slide begins exactly where a grounded player who holds the sprint key
/// presses the crouch key at more than half of the running speed, while no slide
/// and no dodge is under way. It lasts 0.8 s along the player's travel, or along
/// the input of a player who hardly moves.
pub proof fn law_slide_begins(
    ground: &mut MovementGroundState,
    mv: &mut PlayerMovementState,
    f: &MovementFrame,
    out: MovementOutcome,
)
    requires
        call_ensures(apply_player_movement, (ground, mv, f), out),
    ensures
        out.slide_started <==> {
            &&& out.grounded
            &&& f.sprint_held
            &&& f.crouch_just
            &&& !old(mv).is_sliding || out.jumped || out.dodged
            &&& final(mv).dodge_timer.at_most(scalar(0))
            &&& f.half_run_speed.less(f.speed_xz)
        },
        out.slide_started ==> {
            &&& final(mv).is_sliding
            &&& final(mv).slide_timer == scalar(0x3f4c_cccd)
            &&& final(mv).slide_dir == if scalar(0x3c23_d70a).less(f.speed_xz) {
                f.travel_dir
            } else {
                f.world_dir
            }
        },
        !out.slide_started ==> final(mv).slide_dir == old(mv).slide_dir,
{
}

/// A slide under way goes on until a jump, a dodge, the loss of the ground or
/// the end of its time; a slide that is over has no time left.
pub proof fn law_slide_lasts(
    ground: &mut MovementGroundState,
    mv: &mut PlayerMovementState,
    f: &MovementFrame,
    out: MovementOutcome,
)
    requires
        call_ensures(apply_player_movement, (ground, mv, f), out),
        old(mv).is_sliding,
        !out.slide_started,
    ensures
        final(mv).is_sliding <==> !out.jumped && !out.dodged && out.grounded
            && !old(mv).slide_timer.at_most(scalar(0)),
        final(mv).is_sliding ==> final(mv).slide_timer == old(mv).slide_timer,
        !final(mv).is_sliding ==> final(mv).slide_timer == scalar(0),
{
}

/// A frame remembers when each direction key was last pressed and whether it is
/// held, and leaves the smoothed velocity alone.
pub proof fn law_key_memory(
    ground: &mut MovementGroundState,
    mv: &mut PlayerMovementState,
    f: &MovementFrame,
    out: MovementOutcome,
    i: int,
)
    requires
        call_ensures(apply_player_movement, (ground, mv, f), out),
        0 <= i < 4,
    ensures
        f.keys[i].just_pressed ==> final(mv).last_dir_press_time[i] == f.now,
        !f.keys[i].just_pressed ==> final(mv).last_dir_press_time[i] == old(mv).last_dir_press_time[i],
        final(mv).dir_was_pressed[i] == f.keys[i].pressed,
        final(mv).velocity_xz == old(mv).velocity_xz,
{
}

/// A surface holds the player where it is no steeper than 0.65 and within 0.06 m;
/// a player whom the ground already holds is held within 0.11 m.
pub proof fn law_ground_contact(hits: &Vec<GroundHit>, was_grounded: bool, r: bool)
    requires
        call_ensures(has_ground_contact_with_state, (hits, was_grounded), r),
    ensures
        forall|i: int|
            0 <= i < hits@.len() && scalar(0x3f26_6666).less((#[trigger] hits@[i]).up)
                && hits@[i].distance.at_most(scalar(0x3d75_c28f)) ==> r,
        forall|i: int|
            0 <= i < hits@.len() && was_grounded && scalar(0x3f26_6666).less(
                (#[trigger] hits@[i]).up,
            ) && hits@[i].distance.at_most(scalar(0x3de1_47ae)) ==> r,
        r ==> exists|i: int|
            0 <= i < hits@.len() && scalar(0x3f26_6666).less((#[trigger] hits@[i]).up)
                && hits@[i].distance.at_most(
                if was_grounded {
                    scalar(0x3de1_47ae)
                } else {
                    scalar(0x3d75_c28f)
                },
            ),
{
    let reach = if was_grounded {
        scalar(0x3de1_47ae)
    } else {
        scalar(0x3d75_c28f)
    };
    assert forall|i: int|
        0 <= i < hits@.len() && scalar(0x3f26_6666).less((#[trigger] hits@[i]).up)
            && hits@[i].distance.at_most(reach) implies r by {
        assert(supports(hits@[i], reach));
    }
    if r {
        let i = choose|i: int| 0 <= i < hits@.len() && supports(#[trigger] hits@[i], reach);
        assert(scalar(0x3f26_6666).less(hits@[i].up));
    }
}

/// With the same probe a player who was off the ground is judged like one who
/// asks for the first time, and the distances of the two questions are free.
pub proof fn law_ground_contact_thresholds(
    hits: &Vec<GroundHit>,
    was_grounded: bool,
    enter: Scalar,
    exit: Scalar,
    r: bool,
    first: bool,
    later: bool,
)
    requires
        call_ensures(
            has_ground_contact_with_thresholds,
            (hits, was_grounded, enter, exit),
            r,
        ),
        call_ensures(has_ground_contact, (hits,), first),
        call_ensures(has_ground_contact_with_state, (hits, false), later),
    ensures
        first == later,
        r <==> exists|i: int|
            0 <= i < hits@.len() && scalar(0x3f26_6666).less((#[trigger] hits@[i]).up)
                && hits@[i].distance.at_most(
                if was_grounded {
                    exit
                } else {
                    enter
                },
            ),
{
    let reach = if was_grounded {
        exit
    } else {
        enter
    };
    assert forall|i: int| 0 <= i < hits@.len() implies (supports(#[trigger] hits@[i], reach) <==> (
    scalar(0x3f26_6666).less(hits@[i].up) && hits@[i].distance.at_most(reach))) by {
    }
}

/// The flattest walkable surface is walkable, no other surface is flatter, none
/// behind it is as flat, and where any surface is walkable there is one.
pub proof fn law_ground_normal(hits: &Vec<GroundHit>, r: Option<usize>)
    requires
        call_ensures(get_ground_normal, (hits,), r),
    ensures
        r is Some <==> exists|j: int|
            0 <= j < hits@.len() && scalar(0x3f26_6666).less((#[trigger] hits@[j]).up),
        r matches Some(k) ==> k < hits@.len() && scalar(0x3f26_6666).less(hits@[k as int].up)
            && forall|j: int|
            0 <= j < hits@.len() ==> !hits@[k as int].up.less((#[trigger] hits@[j]).up),
        r matches Some(k) ==> forall|j: int|
            k < j < hits@.len() ==> !hits@[k as int].up.at_most((#[trigger] hits@[j]).up),
{
    let args = (hits,);
    if r is Some {
        let k = r->0 as int;
        assert(scalar(0x3f26_6666).less(hits@[k].up));
        assert forall|j: int| k < j < hits@.len() implies !hits@[k].up.at_most(
            (#[trigger] hits@[j]).up,
        ) by {
            assert(!args.0@[k].up.at_most(args.0@[j].up));
        }
    } else {
        assert forall|j: int| 0 <= j < hits@.len() implies !scalar(0x3f26_6666).less(
            (#[trigger] hits@[j]).up,
        ) by {
            assert(!scalar(GROUND_NORMAL_Y_MIN).less(args.0@[j].up));
        }
    }
}

/// The damping after the physics step: upward velocity between 0.05 and the
/// ceiling is taken off a player on flat ground, and any other velocity stays.
pub proof fn law_velocity_damped(
    ground: &mut MovementGroundState,
    hits: &Vec<GroundHit>,
    now: Scalar,
    since_grounded: Scalar,
    ground_normal_y: Scalar,
    vel_y: Scalar,
    ceiling: Scalar,
    r: Scalar,
    touching: bool,
)
    requires
        call_ensures(
            post_physics_vel_y_damp,
            (ground, hits, now, since_grounded, ground_normal_y, vel_y, ceiling),
            r,
        ),
        call_ensures(
            has_ground_contact_with_state,
            (hits, since_grounded.less(scalar(0x3e19_999a))),
            touching,
        ),
    ensures
        (touching || since_grounded.less(scalar(0x3e19_999a))) && !ground_normal_y.less(
            scalar(0x3f7f_3b64),
        ) && scalar(0x3d4c_cccd).less(vel_y) && vel_y.less(ceiling) ==> r == scalar(0),
        !touching && !since_grounded.less(scalar(0x3e19_999a)) ==> r == vel_y,
        ground_normal_y.less(scalar(0x3f7f_3b64)) ==> r == vel_y,
        !scalar(0x3d4c_cccd).less(vel_y) || !vel_y.less(ceiling) ==> r == vel_y,
        final(ground).last_grounded_time == if touching {
            now
        } else {
            old(ground).last_grounded_time
        },
{
}

/// Opposite keys cancel out, a key alone counts one step its way, and the two
/// axes are independent.
pub proof fn law_move_input(keys: MoveKeys, r: (i8, i8))
    requires
        call_ensures(raw_move_input, (keys,), r),
    ensures
        keys.left && !keys.right ==> r.0 == 1,
        keys.right && !keys.left ==> r.0 == -1,
        keys.left == keys.right ==> r.0 == 0,
        keys.forward && !keys.backward ==> r.1 == 1,
        keys.backward && !keys.forward ==> r.1 == -1,
        keys.forward == keys.backward ==> r.1 == 0,
{
}

/// The message to the server says what the keys say, and nothing while a page
/// has the keys; its number is one up on the last one.
pub proof fn law_sent_input(
    keys: MoveKeys,
    actions: &Vec<(bool, u32)>,
    focus: NuiFocusState,
    tick: &mut u32,
    r: SentInput,
    moves: (i8, i8),
    held: u32,
)
    requires
        call_ensures(collect_and_send_input, (keys, actions, focus, tick), r),
        call_ensures(raw_move_input, (keys,), moves),
        call_ensures(collect_actions, (actions,), held),
    ensures
        !focus.has_focus ==> r.x == moves.0 && r.y == moves.1 && r.actions == held,
        focus.has_focus ==> r.x == 0 && r.y == 0 && r.actions == 0,
        r.client_tick == *final(tick),
        *old(tick) < u32::MAX ==> r.client_tick == *old(tick) + 1,
        *old(tick) == u32::MAX ==> r.client_tick == 0,
{
}

/// Messages to the server are numbered one by one, and from zero again behind the
/// last number.
pub proof fn law_tick_numbers(tick: u32, r: u32)
    requires
        call_ensures(next_tick, (tick,), r),
    ensures
        tick < 0xffff_ffff ==> r == tick + 1,
        tick == 0xffff_ffff ==> r == 0,
{
}

} // verus!
