//! How a weapon feels: recoil, spread and muzzle flash.

use vstd::prelude::*;

use crate::scalar::{scalar, Scalar, ONE, ZERO};

verus! {

/// The recovery speed of a new player's weapon (8).
pub const START_RECOVERY: u32 = 0x4100_0000;

/// The least recovery speed of a weapon (0.01).
pub const LEAST_RECOVERY: u32 = 0x3c23_d70a;

/// How far a weapon sways (0.004).
pub const SWAY_AMOUNT: u32 = 0x3b83_126f;

/// The recoil of a player's weapon. It fades to zero.
#[derive(Clone, Copy, PartialEq, Eq, Structural, Debug)]
pub struct WeaponRecoil {
    pub recoil_pitch: Scalar,
    pub recoil_yaw: Scalar,
    pub recovery_speed: Scalar,
    /// The next place in the recoil pattern of the weapon.
    pub pattern_index: usize,
}

/// The sway of a player's weapon.
#[derive(Clone, Copy, PartialEq, Eq, Structural, Debug)]
pub struct WeaponSway {
    pub sway_x: Scalar,
    pub sway_y: Scalar,
    pub sway_speed: Scalar,
    pub sway_amount: Scalar,
    pub is_ads: bool,
}

/// The spread of a player's shots, in degrees.
#[derive(Clone, Copy, PartialEq, Eq, Structural, Debug)]
pub struct SpreadAccumulator {
    pub accumulated: Scalar,
    pub base_spread: Scalar,
    pub max_spread: Scalar,
    pub per_shot: Scalar,
    pub recovery_rps: Scalar,
}

/// The weapon feel of a new player.
pub fn init_weapon_feel_components() -> (r: (WeaponRecoil, WeaponSway, SpreadAccumulator))
    ensures
        r.0 == (WeaponRecoil {
            recoil_pitch: scalar(ZERO),
            recoil_yaw: scalar(ZERO),
            recovery_speed: scalar(START_RECOVERY),
            pattern_index: 0,
        }),
        r.1 == (WeaponSway {
            sway_x: scalar(ZERO),
            sway_y: scalar(ZERO),
            sway_speed: scalar(ONE),
            sway_amount: scalar(SWAY_AMOUNT),
            is_ads: false,
        }),
        r.2 == (SpreadAccumulator {
            accumulated: scalar(ZERO),
            base_spread: scalar(ZERO),
            max_spread: scalar(ZERO),
            per_shot: scalar(ZERO),
            recovery_rps: scalar(ZERO),
        }),
{
    let recoil = WeaponRecoil {
        recoil_pitch: scalar(ZERO),
        recoil_yaw: scalar(ZERO),
        recovery_speed: scalar(START_RECOVERY),
        pattern_index: 0,
    };
    let sway = WeaponSway {
        sway_x: scalar(ZERO),
        sway_y: scalar(ZERO),
        sway_speed: scalar(ONE),
        sway_amount: scalar(SWAY_AMOUNT),
        is_ads: false,
    };
    let spread = SpreadAccumulator {
        accumulated: scalar(ZERO),
        base_spread: scalar(ZERO),
        max_spread: scalar(ZERO),
        per_shot: scalar(ZERO),
        recovery_rps: scalar(ZERO),
    };
    (recoil, sway, spread)
}

/// Progress through the recoil pattern of a weapon.
#[derive(Clone, Copy, PartialEq, Eq, Structural, Debug)]
pub struct RecoilStep {
    /// The next place in the pattern.
    pub pattern_index: usize,
    /// The place of the pattern whose kick this frame applies.
    pub kick: Option<usize>,
}

/// What recoil reads of a weapon: the length of its pattern, the place in it
/// from which a burst starts again, and its recovery speed in radians.
#[derive(Clone, Copy, PartialEq, Eq, Structural, Debug)]
pub struct RecoilPattern {
    pub len: usize,
    pub loop_from: usize,
    pub recovery: Scalar,
}

/// A shot goes off: the trigger is held and the weapon cools down from it.
pub open spec fn shot(trigger_held: bool, cooldown: Scalar) -> bool {
    trigger_held && scalar(ZERO).less(cooldown)
}

pub fn fired(trigger_held: bool, cooldown: Scalar) -> (r: bool)
    ensures
        r == shot(trigger_held, cooldown),
{
    trigger_held && scalar(ZERO).lt(cooldown)
}

/// One frame of recoil: a shot takes the next kick of the pattern in a circle;
/// a released trigger falls back to the start of the loop.
pub open spec fn recoil_step(
    index: usize,
    weapon: Option<RecoilPattern>,
    trigger_held: bool,
    cooldown: Scalar,
) -> RecoilStep {
    if shot(trigger_held, cooldown) {
        match weapon {
            Some(w) => if w.len > 0 {
                RecoilStep {
                    pattern_index: ((index + 1) % w.len as int) as usize,
                    kick: Some((index % w.len) as usize),
                }
            } else {
                RecoilStep { pattern_index: index, kick: None }
            },
            None => RecoilStep { pattern_index: index, kick: None },
        }
    } else if !trigger_held {
        let start = match weapon {
            Some(w) => w.loop_from,
            None => 0,
        };
        RecoilStep {
            pattern_index: if index > start {
                start
            } else {
                index
            },
            kick: None,
        }
    } else {
        RecoilStep { pattern_index: index, kick: None }
    }
}

/// One frame of recoil; the result is the place of the pattern that kicks. The
/// kick is added to the camera and to the recoil, and the recovery speed of the
/// weapon is taken over with it.
pub fn apply_weapon_recoil(
    recoil: &mut WeaponRecoil,
    weapon: Option<RecoilPattern>,
    trigger_held: bool,
    cooldown: Scalar,
) -> (kick: Option<usize>)
    requires
        old(recoil).pattern_index < usize::MAX,
    ensures
        ({
            let step = recoil_step(old(recoil).pattern_index, weapon, trigger_held, cooldown);
            &&& kick == step.kick
            &&& *final(recoil) == (WeaponRecoil {
                pattern_index: step.pattern_index,
                recovery_speed: if step.kick is Some {
                    weapon->0.recovery.larger(scalar(LEAST_RECOVERY))
                } else {
                    old(recoil).recovery_speed
                },
                ..*old(recoil)
            })
        }),
{
    if fired(trigger_held, cooldown) {
        if let Some(w) = weapon {
            if w.len > 0 {
                let kick: usize = recoil.pattern_index % w.len;
                recoil.pattern_index = (recoil.pattern_index + 1) % w.len;
                recoil.recovery_speed = w.recovery.max(scalar(LEAST_RECOVERY));
                return Some(kick);
            }
        }
    } else if !trigger_held {
        let start: usize = match weapon {
            Some(w) => w.loop_from,
            None => 0,
        };
        if recoil.pattern_index > start {
            recoil.pattern_index = start;
        }
    }
    None
}

/// A kick is always a place of the pattern, and so is the next place after it.
pub proof fn law_kick_in_pattern(
    index: usize,
    w: RecoilPattern,
    trigger_held: bool,
    cooldown: Scalar,
)
    requires
        shot(trigger_held, cooldown),
        w.len > 0,
    ensures
        recoil_step(index, Some(w), trigger_held, cooldown).kick matches Some(k) && k < w.len,
        recoil_step(index, Some(w), trigger_held, cooldown).pattern_index < w.len,
{
}

/// Shots in a row walk the pattern in order, from its end to its start.
pub proof fn law_pattern_cycles(
    index: usize,
    w: RecoilPattern,
    trigger_held: bool,
    cooldown: Scalar,
)
    requires
        shot(trigger_held, cooldown),
        w.len > 0,
        index < w.len,
    ensures
        recoil_step(index, Some(w), trigger_held, cooldown).kick == Some(index),
        recoil_step(index, Some(w), trigger_held, cooldown).pattern_index == if index + 1 == w.len {
            0
        } else {
            index + 1
        },
{
    if index + 1 == w.len {
        vstd::arithmetic::div_mod::lemma_mod_self_0(w.len as int);
    } else {
        vstd::arithmetic::div_mod::lemma_small_mod((index + 1) as nat, w.len as nat);
    }
    vstd::arithmetic::div_mod::lemma_small_mod(index as nat, w.len as nat);
}

/// Letting go of the trigger twice is letting go of it once.
pub proof fn law_release_settles(index: usize, weapon: Option<RecoilPattern>, cooldown: Scalar)
    ensures
        ({
            let once = recoil_step(index, weapon, false, cooldown);
            recoil_step(once.pattern_index, weapon, false, cooldown) == once
        }),
{
}

/// The weapon of the active slot: the id that it holds, or none.
pub fn active_weapon(slots: &Vec<Option<String>>, active: usize) -> (r: String)
    ensures
        r@ == if active < slots.len() && slots@[active as int] is Some {
            slots@[active as int]->0@
        } else {
            Seq::<char>::empty()
        },
{
    if active < slots.len() {
        if let Some(id) = &slots[active] {
            return id.clone();
        }
    }
    String::new()
}

/// What spread reads of a weapon.
#[derive(Clone, Copy, PartialEq, Eq, Structural, Debug)]
pub struct SpreadDef {
    pub base: Scalar,
    pub per_shot: Scalar,
    pub recovery_rps: Scalar,
    /// The base and the part of eight shots.
    pub limit: Scalar,
}

/// The sums of a frame of spread. Each of the last three is a spread less the
/// recovery of the frame.
#[derive(Clone, Copy, PartialEq, Eq, Structural, Debug)]
pub struct SpreadSums {
    /// The spread and the part of a shot.
    pub with_shot: Scalar,
    /// Out of `with_shot`.
    pub shot_recovered: Scalar,
    /// Out of the most that the weapon spreads.
    pub limit_recovered: Scalar,
    /// Out of the spread before the frame.
    pub rest_recovered: Scalar,
}

impl SpreadAccumulator {
    /// The spread of the weapon in the hand, where it is known.
    pub open spec fn refreshed(self, weapon: Option<SpreadDef>) -> SpreadAccumulator {
        match weapon {
            Some(w) => SpreadAccumulator {
                accumulated: self.accumulated,
                base_spread: w.base,
                max_spread: w.limit,
                per_shot: w.per_shot,
                recovery_rps: w.recovery_rps,
            },
            None => self,
        }
    }

    /// The spread with the part of a shot, where one went off: never beyond the
    /// most that the weapon spreads.
    pub open spec fn with_shot(self, fired: bool, sums: SpreadSums) -> Scalar {
        if fired {
            sums.with_shot.smaller(self.max_spread)
        } else {
            self.accumulated
        }
    }

    /// That spread less the recovery of the frame.
    pub open spec fn less_recovery(self, fired: bool, sums: SpreadSums) -> Scalar {
        if !fired {
            sums.rest_recovered
        } else if self.with_shot(fired, sums) == sums.with_shot {
            sums.shot_recovered
        } else {
            sums.limit_recovered
        }
    }

    /// A frame of spread: the weapon's own numbers are taken over, a shot adds
    /// its part, and the spread recovers, never below the base.
    pub open spec fn ticked(
        self,
        weapon: Option<SpreadDef>,
        fired: bool,
        sums: SpreadSums,
    ) -> SpreadAccumulator {
        let now = self.refreshed(weapon);
        SpreadAccumulator {
            accumulated: now.less_recovery(fired, sums).larger(now.base_spread),
            ..now
        }
    }

    /// Takes over the spread of the weapon in the hand, where it is known.
    pub fn refresh(&mut self, weapon: Option<SpreadDef>)
        ensures
            *final(self) == old(self).refreshed(weapon),
    {
        if let Some(w) = weapon {
            self.base_spread = w.base;
            self.max_spread = w.limit;
            self.per_shot = w.per_shot;
            self.recovery_rps = w.recovery_rps;
        }
    }

    /// A frame of spread. A shot goes off while the trigger is held and the
    /// weapon cools down from it.
    pub fn tick_spread_accumulation(
        &mut self,
        weapon: Option<SpreadDef>,
        trigger_held: bool,
        cooldown: Scalar,
        sums: SpreadSums,
    )
        ensures
            *final(self) == old(self).ticked(weapon, shot(trigger_held, cooldown), sums),
    {
        self.refresh(weapon);
        let recovered = if fired(trigger_held, cooldown) {
            if sums.with_shot.min(self.max_spread) == sums.with_shot {
                sums.shot_recovered
            } else {
                sums.limit_recovered
            }
        } else {
            sums.rest_recovered
        };
        self.accumulated = recovered.max(self.base_spread);
    }
}

/// After a frame the spread is at least that of the weapon at rest, and at most
/// the most that it spreads: the recovery takes nothing in, and a spread that no
/// shot renews was within the limit before.
pub proof fn law_spread_stays_within(
    before: SpreadAccumulator,
    weapon: Option<SpreadDef>,
    fired: bool,
    sums: SpreadSums,
)
    requires
        ({
            let now = before.refreshed(weapon);
            &&& now.base_spread.at_most(now.max_spread)
            &&& fired || now.accumulated.at_most(now.max_spread)
            &&& now.less_recovery(fired, sums).at_most(now.with_shot(fired, sums))
        }),
    ensures
        ({
            let after = before.ticked(weapon, fired, sums);
            &&& after.base_spread.at_most(after.accumulated)
            &&& after.accumulated.at_most(after.max_spread)
        }),
{
}

/// After a frame the spread is at least that of the weapon at rest, whatever the
/// sums are.
pub proof fn law_spread_at_least_base(
    before: SpreadAccumulator,
    weapon: Option<SpreadDef>,
    fired: bool,
    sums: SpreadSums,
)
    requires
        !before.refreshed(weapon).base_spread.nan(),
    ensures
        before.refreshed(weapon).base_spread.at_most(
            before.ticked(weapon, fired, sums).accumulated,
        ),
{
}

/// The sway of a frame for one amount of it; `low` is the negative of `high`.
#[derive(Clone, Copy, PartialEq, Eq, Structural, Debug)]
pub struct SwayStep {
    pub x: Scalar,
    pub y: Scalar,
    pub low: Scalar,
    pub high: Scalar,
}

/// A player aims: with the key for it, or with the right mouse button.
pub open spec fn aims(aim_key: bool, right_button: bool) -> bool {
    aim_key || right_button
}

impl WeaponSway {
    /// The sway of a frame, within its amplitude on both sides: that of the
    /// reduced amount while the player aims, else that of the whole one.
    pub fn set(&mut self, aim_key: bool, right_button: bool, whole: SwayStep, reduced: SwayStep)
        ensures
            ({
                let is_ads = aims(aim_key, right_button);
                let step = if is_ads {
                    reduced
                } else {
                    whole
                };
                *final(self) == (WeaponSway {
                    is_ads,
                    sway_x: step.x.bounded(step.low, step.high),
                    sway_y: step.y.bounded(step.low, step.high),
                    ..*old(self)
                })
            }),
    {
        self.is_ads = aim_key || right_button;
        let step = if self.is_ads {
            reduced
        } else {
            whole
        };
        self.sway_x = step.x.clamp(step.low, step.high);
        self.sway_y = step.y.clamp(step.low, step.high);
    }
}

/// Whether a muzzle flash appears: with the first frame of a shot only.
pub fn spawn_muzzle_flash(last_fired: &mut bool, fired_now: bool) -> (r: bool)
    ensures
        *final(last_fired) == fired_now,
        r == (fired_now && !*old(last_fired)),
{
    let rising = fired_now && !*last_fired;
    *last_fired = fired_now;
    rising
}

/// A shot kicks with the place of the pattern that is next and moves on to the
/// one after it, from the end to the start; the weapon's recovery speed is taken
/// over with it, 0.01 at least.
pub proof fn law_shot_kicks(
    recoil: &mut WeaponRecoil,
    w: RecoilPattern,
    cooldown: Scalar,
    kick: Option<usize>,
)
    requires
        call_ensures(apply_weapon_recoil, (recoil, Some(w), true, cooldown), kick),
        scalar(0).less(cooldown),
        old(recoil).pattern_index < w.len,
    ensures
        kick == Some(old(recoil).pattern_index),
        old(recoil).pattern_index + 1 < w.len ==> final(recoil).pattern_index == old(recoil).pattern_index + 1,
        old(recoil).pattern_index + 1 == w.len ==> final(recoil).pattern_index == 0,
        scalar(0x3c23_d70a).at_most(w.recovery) ==> final(recoil).recovery_speed == w.recovery,
        !scalar(0x3c23_d70a).at_most(w.recovery) ==> final(recoil).recovery_speed == scalar(0x3c23_d70a),
{
    law_pattern_cycles(old(recoil).pattern_index, w, true, cooldown);
}

/// Without a shot nothing kicks and the recovery speed stays: a held trigger
/// keeps the place in the pattern, and a released one falls back to the start of
/// the loop, never forward. The recoil itself is not touched.
pub proof fn law_no_shot(
    recoil: &mut WeaponRecoil,
    weapon: Option<RecoilPattern>,
    trigger_held: bool,
    cooldown: Scalar,
    kick: Option<usize>,
)
    requires
        call_ensures(apply_weapon_recoil, (recoil, weapon, trigger_held, cooldown), kick),
    ensures
        !trigger_held || !scalar(0).less(cooldown) ==> {
            &&& kick is None
            &&& final(recoil).recovery_speed == old(recoil).recovery_speed
        },
        weapon is None || weapon->0.len == 0 ==> kick is None,
        trigger_held && kick is None ==> final(recoil).pattern_index == old(recoil).pattern_index,
        !trigger_held && weapon is Some && weapon->0.loop_from < old(recoil).pattern_index ==> final(recoil).pattern_index == weapon->0.loop_from,
        !trigger_held && weapon is Some && weapon->0.loop_from >= old(recoil).pattern_index
            ==> final(recoil).pattern_index == old(recoil).pattern_index,
        !trigger_held && weapon is None ==> final(recoil).pattern_index == 0,
        final(recoil).recoil_pitch == old(recoil).recoil_pitch,
        final(recoil).recoil_yaw == old(recoil).recoil_yaw,
{
}

/// A shot goes off while the trigger is held and the weapon cools down.
pub proof fn law_fired(trigger_held: bool, cooldown: Scalar, r: bool)
    requires
        call_ensures(fired, (trigger_held, cooldown), r),
    ensures
        r ==> trigger_held,
        r ==> scalar(0).less(cooldown),
        trigger_held && scalar(0).less(cooldown) ==> r,
{
}

/// A new player's weapon is at rest.
pub proof fn law_new_weapon_feel(r: (WeaponRecoil, WeaponSway, SpreadAccumulator))
    requires
        call_ensures(init_weapon_feel_components, (), r),
    ensures
        r.0.recoil_pitch == scalar(0) && r.0.recoil_yaw == scalar(0) && r.0.pattern_index == 0,
        r.0.recovery_speed == scalar(0x4100_0000),
        r.1.sway_x == scalar(0) && r.1.sway_y == scalar(0) && !r.1.is_ads,
        r.1.sway_speed == scalar(0x3f80_0000) && r.1.sway_amount == scalar(0x3b83_126f),
        r.2.accumulated == scalar(0) && r.2.base_spread == scalar(0) && r.2.max_spread == scalar(0),
        r.2.per_shot == scalar(0) && r.2.recovery_rps == scalar(0),
{
}

/// The weapon in the hand is the one of the active slot; an empty slot, or none,
/// gives no weapon.
pub proof fn law_active_weapon(slots: &Vec<Option<String>>, active: usize, r: String)
    requires
        call_ensures(active_weapon, (slots, active), r),
    ensures
        active < slots@.len() ==> (slots@[active as int] matches Some(id) ==> r@ == id@),
        active < slots@.len() ==> (slots@[active as int] is None ==> r@.len() == 0),
        active >= slots@.len() ==> r@.len() == 0,
{
}

/// The spread of a frame. The numbers of a known weapon are taken over. A shot
/// adds its part, up to the weapon's most; the frame's recovery comes off, and
/// the spread never falls below the base.
pub proof fn law_spread_frame(
    acc: &mut SpreadAccumulator,
    weapon: Option<SpreadDef>,
    trigger_held: bool,
    cooldown: Scalar,
    sums: SpreadSums,
    went_off: bool,
)
    requires
        call_ensures(
            SpreadAccumulator::tick_spread_accumulation,
            (acc, weapon, trigger_held, cooldown, sums),
            (),
        ),
        call_ensures(fired, (trigger_held, cooldown), went_off),
    ensures
        weapon matches Some(w) ==> {
            &&& final(acc).base_spread == w.base
            &&& final(acc).max_spread == w.limit
            &&& final(acc).per_shot == w.per_shot
            &&& final(acc).recovery_rps == w.recovery_rps
        },
        weapon is None ==> {
            &&& final(acc).base_spread == old(acc).base_spread
            &&& final(acc).max_spread == old(acc).max_spread
            &&& final(acc).per_shot == old(acc).per_shot
            &&& final(acc).recovery_rps == old(acc).recovery_rps
        },
        ({
            let base = final(acc).base_spread;
            let most = final(acc).max_spread;
            let left = if !went_off {
                sums.rest_recovered
            } else if sums.with_shot.at_most(most) {
                sums.shot_recovered
            } else {
                sums.limit_recovered
            };
            &&& !base.nan() ==> base.at_most(final(acc).accumulated)
            &&& base.at_most(left) && !sums.with_shot.nan() && !most.nan() ==> final(acc).accumulated == left
            &&& left.less(base) && !sums.with_shot.nan() && !most.nan() ==> final(acc).accumulated
                == base
        }),
{
}

/// Taking over a weapon's numbers leaves the spread itself alone.
pub proof fn law_spread_refreshed(acc: &mut SpreadAccumulator, weapon: Option<SpreadDef>)
    requires
        call_ensures(SpreadAccumulator::refresh, (acc, weapon), ()),
    ensures
        final(acc).accumulated == old(acc).accumulated,
        weapon is None ==> *final(acc) == *old(acc),
        weapon matches Some(w) ==> final(acc).base_spread == w.base && final(acc).max_spread
            == w.limit && final(acc).per_shot == w.per_shot && final(acc).recovery_rps
            == w.recovery_rps,
{
}

/// The sway of a frame: the reduced one while the player aims, by key or by
/// button, the whole one otherwise; within its amplitude it is as computed.
pub proof fn law_sway_frame(
    sway: &mut WeaponSway,
    aim_key: bool,
    right_button: bool,
    whole: SwayStep,
    reduced: SwayStep,
)
    requires
        call_ensures(WeaponSway::set, (sway, aim_key, right_button, whole, reduced), ()),
    ensures
        final(sway).is_ads <==> aim_key || right_button,
        ({
            let step = if aim_key || right_button {
                reduced
            } else {
                whole
            };
            &&& step.low.at_most(step.x) && step.x.at_most(step.high) ==> final(sway).sway_x
                == step.x
            &&& step.low.at_most(step.y) && step.y.at_most(step.high) ==> final(sway).sway_y
                == step.y
            &&& step.x.less(step.low) ==> final(sway).sway_x == step.low
            &&& step.y.less(step.low) ==> final(sway).sway_y == step.low
            &&& step.low.at_most(step.high) && step.high.less(step.x) ==> final(sway).sway_x
                == step.high
            &&& step.low.at_most(step.high) && step.high.less(step.y) ==> final(sway).sway_y
                == step.high
        }),
        final(sway).sway_speed == old(sway).sway_speed,
        final(sway).sway_amount == old(sway).sway_amount,
{
}

/// A muzzle flash appears with the first frame of a shot and not again until the
/// weapon has rested for a frame.
pub proof fn law_muzzle_flash(
    first: &mut bool,
    second: &mut bool,
    fired_first: bool,
    fired_second: bool,
    a: bool,
    b: bool,
)
    requires
        call_ensures(spawn_muzzle_flash, (first, fired_first), a),
        call_ensures(spawn_muzzle_flash, (second, fired_second), b),
        *old(second) == *final(first),
    ensures
        a ==> fired_first,
        fired_first && !*old(first) ==> a,
        fired_first ==> !b,
        !fired_first ==> b == fired_second,
{
}

} // verus!
