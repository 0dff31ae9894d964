//! Light and fog of the world, from the settings that scripts make.

use vstd::prelude::*;

use crate::folds::lemma_take_next;
use crate::scalar::{kept_within, lifted, scalar, unit_color, Rgba, Scalar, ZERO};

verus! {

/// 89 degrees: the sun never stands higher.
pub const MAX_ELEVATION: u32 = 0x42b2_0000;

/// 0.5 s: how often the state of the fog is reported.
pub const REPORT_INTERVAL: u32 = 0x3f00_0000;

/// The settings of light and fog.
#[derive(Clone, Copy, PartialEq, Eq, Structural, Debug)]
pub struct EnvironmentLightConfig {
    pub enabled: bool,
    pub color: Rgba,
    pub illuminance: Scalar,
    pub shadows_enabled: bool,
    pub max_elevation_deg: Scalar,
    pub ambient_enabled: bool,
    pub ambient_color: Rgba,
    pub ambient_brightness: Scalar,
    pub fog_enabled: bool,
    pub fog_color: Rgba,
    pub fog_directional_light_color: Rgba,
    pub fog_directional_light_exponent: Scalar,
    pub fog_start: Scalar,
    pub fog_end: Scalar,
    pub fog_follow_streaming_boundary: bool,
    pub fog_boundary_inner_distance: Scalar,
    pub fog_boundary_outer_distance: Scalar,
    pub volumetric_fog_enabled: bool,
    pub volumetric_fog_ambient_color: Rgba,
    pub volumetric_fog_ambient_intensity: Scalar,
    pub volumetric_fog_jitter: Scalar,
    pub volumetric_fog_step_count: u32,
}

/// The edge of the streamed world, with the distances that follow from it.
#[derive(Clone, Copy, PartialEq, Eq, Structural, Debug)]
pub struct StreamingEdge {
    pub active: bool,
    /// The radius, at least zero, less the inner distance, at least zero.
    pub inner: Scalar,
    /// The radius, at least zero, and the outer distance, at least zero.
    pub outer: Scalar,
}

/// Where fog begins and where it hides everything.
#[derive(Clone, Copy, PartialEq, Eq, Structural, Debug)]
pub struct FogRange {
    pub start: Scalar,
    pub end: Scalar,
}

/// The range that the settings give.
pub open spec fn configured_range(c: EnvironmentLightConfig) -> FogRange {
    let start = c.fog_start.larger(scalar(ZERO));
    FogRange { start, end: c.fog_end.larger(start) }
}

/// The range around the edge of the streamed world.
pub open spec fn edge_range(edge: StreamingEdge) -> FogRange {
    let start = edge.inner.larger(scalar(ZERO));
    FogRange {
        start,
        end: if edge.outer.less(start) {
            start
        } else {
            edge.outer
        },
    }
}

/// Where fog begins and ends.
pub open spec fn fog_range(c: EnvironmentLightConfig, edge: Option<StreamingEdge>) -> FogRange {
    match edge {
        Some(e) => if c.fog_follow_streaming_boundary && e.active {
            edge_range(e)
        } else {
            configured_range(c)
        },
        None => configured_range(c),
    }
}

pub fn fog_bounds(c: &EnvironmentLightConfig, edge: Option<StreamingEdge>) -> (r: FogRange)
    ensures
        r == fog_range(*c, edge),
{
    let start: Scalar = c.fog_start.max(scalar(ZERO));
    let end: Scalar = c.fog_end.max(start);
    if c.fog_follow_streaming_boundary {
        if let Some(e) = edge {
            if e.active {
                let near: Scalar = e.inner.max(scalar(ZERO));
                let far: Scalar = if e.outer.lt(near) {
                    near
                } else {
                    e.outer
                };
                return FogRange { start: near, end: far };
            }
        }
    }
    FogRange { start, end }
}

/// Fog never begins before the camera, and never ends before it begins.
pub proof fn law_fog_range_ordered(c: EnvironmentLightConfig, edge: Option<StreamingEdge>)
    requires
        edge matches Some(e) ==> !e.outer.nan(),
    ensures
        scalar(ZERO).at_most(fog_range(c, edge).start),
        fog_range(c, edge).start.at_most(fog_range(c, edge).end),
{
}

/// Fog that thins out with distance.
#[derive(Clone, Copy, PartialEq, Eq, Structural, Debug)]
pub struct DistanceFog {
    pub color: Rgba,
    pub directional_light_color: Rgba,
    pub directional_light_exponent: Scalar,
    pub range: FogRange,
}

/// Fog that light shines through.
#[derive(Clone, Copy, PartialEq, Eq, Structural, Debug)]
pub struct VolumetricFog {
    pub ambient_color: Rgba,
    pub ambient_intensity: Scalar,
    pub jitter: Scalar,
    pub step_count: u32,
}

/// What happens to the component that lets the sun shine through fog.
#[derive(Clone, Copy, PartialEq, Eq, Structural, Debug)]
pub enum VolumetricChange {
    Add,
    Remove,
    Keep,
}

/// What happens to the sun.
#[derive(Clone, Copy, PartialEq, Eq, Structural, Debug)]
pub enum SunChange {
    /// Every sun goes.
    Despawn,
    /// The one that is there takes the new values.
    Update(VolumetricChange),
    /// A new one appears, with or without shine through fog.
    Spawn { volumetric: bool },
}

/// Light and fog for one frame.
#[derive(Clone, Copy, PartialEq, Eq, Structural, Debug)]
pub struct EnvironmentPlan {
    pub ambient_color: Rgba,
    pub ambient_brightness: Scalar,
    /// None takes the fog off the camera.
    pub fog: Option<DistanceFog>,
    pub volumetric: Option<VolumetricFog>,
    pub sun: SunChange,
    pub sun_color: Rgba,
    pub sun_illuminance: Scalar,
    pub sun_shadows: bool,
    pub max_elevation_deg: Scalar,
}

/// The suns of the scene: how many there are, and whether the only one shines
/// through fog.
#[derive(Clone, Copy, PartialEq, Eq, Structural, Debug)]
pub struct SunState {
    pub count: usize,
    pub volumetric: bool,
}

pub open spec fn shines_through(c: EnvironmentLightConfig) -> bool {
    c.volumetric_fog_enabled && c.shadows_enabled
}

pub open spec fn sun_change(c: EnvironmentLightConfig, sun: SunState) -> SunChange {
    if !c.enabled {
        SunChange::Despawn
    } else if sun.count == 1 {
        SunChange::Update(
            if shines_through(c) == sun.volumetric {
                VolumetricChange::Keep
            } else if shines_through(c) {
                VolumetricChange::Add
            } else {
                VolumetricChange::Remove
            },
        )
    } else {
        SunChange::Spawn { volumetric: shines_through(c) }
    }
}

pub open spec fn environment_plan(
    c: EnvironmentLightConfig,
    edge: Option<StreamingEdge>,
    sun: SunState,
) -> EnvironmentPlan {
    EnvironmentPlan {
        ambient_color: c.ambient_color.in_unit(),
        ambient_brightness: if c.ambient_enabled {
            c.ambient_brightness.larger(scalar(ZERO))
        } else {
            scalar(ZERO)
        },
        fog: if c.fog_enabled {
            Some(
                DistanceFog {
                    color: c.fog_color.in_unit(),
                    directional_light_color: c.fog_directional_light_color.in_unit(),
                    directional_light_exponent: c.fog_directional_light_exponent.larger(
                        scalar(ZERO),
                    ),
                    range: fog_range(c, edge),
                },
            )
        } else {
            None
        },
        volumetric: if c.volumetric_fog_enabled {
            Some(
                VolumetricFog {
                    ambient_color: c.volumetric_fog_ambient_color.in_unit(),
                    ambient_intensity: c.volumetric_fog_ambient_intensity.larger(scalar(ZERO)),
                    jitter: c.volumetric_fog_jitter.larger(scalar(ZERO)),
                    step_count: if c.volumetric_fog_step_count == 0 {
                        1
                    } else {
                        c.volumetric_fog_step_count
                    },
                },
            )
        } else {
            None
        },
        sun: sun_change(c, sun),
        sun_color: c.color.in_unit(),
        sun_illuminance: c.illuminance.larger(scalar(ZERO)),
        sun_shadows: c.shadows_enabled,
        max_elevation_deg: c.max_elevation_deg.bounded(scalar(ZERO), scalar(MAX_ELEVATION)),
    }
}

/// Decides light and fog for one frame.
pub fn apply_environment_light(
    c: &EnvironmentLightConfig,
    edge: Option<StreamingEdge>,
    sun: SunState,
) -> (r: EnvironmentPlan)
    ensures
        r == environment_plan(*c, edge, sun),
{
    let ambient_brightness: Scalar = if c.ambient_enabled {
        c.ambient_brightness.max(scalar(ZERO))
    } else {
        scalar(ZERO)
    };
    let range = fog_bounds(c, edge);
    let fog = if c.fog_enabled {
        Some(
            DistanceFog {
                color: c.fog_color.clamp_unit(),
                directional_light_color: c.fog_directional_light_color.clamp_unit(),
                directional_light_exponent: c.fog_directional_light_exponent.max(scalar(ZERO)),
                range,
            },
        )
    } else {
        None
    };
    let volumetric = if c.volumetric_fog_enabled {
        let step_count: u32 = if c.volumetric_fog_step_count == 0 {
            1
        } else {
            c.volumetric_fog_step_count
        };
        Some(
            VolumetricFog {
                ambient_color: c.volumetric_fog_ambient_color.clamp_unit(),
                ambient_intensity: c.volumetric_fog_ambient_intensity.max(scalar(ZERO)),
                jitter: c.volumetric_fog_jitter.max(scalar(ZERO)),
                step_count,
            },
        )
    } else {
        None
    };
    let shines = c.volumetric_fog_enabled && c.shadows_enabled;
    let change = if !c.enabled {
        SunChange::Despawn
    } else if sun.count == 1 {
        if shines && !sun.volumetric {
            SunChange::Update(VolumetricChange::Add)
        } else if !shines && sun.volumetric {
            SunChange::Update(VolumetricChange::Remove)
        } else {
            SunChange::Update(VolumetricChange::Keep)
        }
    } else {
        SunChange::Spawn { volumetric: shines }
    };
    EnvironmentPlan {
        ambient_color: c.ambient_color.clamp_unit(),
        ambient_brightness,
        fog,
        volumetric,
        sun: change,
        sun_color: c.color.clamp_unit(),
        sun_illuminance: c.illuminance.max(scalar(ZERO)),
        sun_shadows: c.shadows_enabled,
        max_elevation_deg: c.max_elevation_deg.clamp(scalar(ZERO), scalar(MAX_ELEVATION)),
    }
}

/// The suns after a change: none of those that go, one that is updated, one
/// more than there were.
pub open spec fn suns_after(sun: SunState, change: SunChange) -> SunState {
    match change {
        SunChange::Despawn => SunState { count: 0, volumetric: false },
        SunChange::Update(v) => SunState {
            count: sun.count,
            volumetric: match v {
                VolumetricChange::Add => true,
                VolumetricChange::Remove => false,
                VolumetricChange::Keep => sun.volumetric,
            },
        },
        SunChange::Spawn { volumetric } => SunState { count: (sun.count + 1) as usize, volumetric },
    }
}

/// From no sun or one, each frame leaves one exactly while the light is on, and
/// it shines through fog as the settings say; a further frame changes nothing.
pub proof fn law_one_sun(c: EnvironmentLightConfig, sun: SunState)
    requires
        sun.count <= 1,
    ensures
        ({
            let after = suns_after(sun, sun_change(c, sun));
            &&& after.count == if c.enabled {
                1
            } else {
                0int
            }
            &&& c.enabled ==> after.volumetric == shines_through(c)
            &&& c.enabled ==> sun_change(c, after) == SunChange::Update(VolumetricChange::Keep)
        }),
{
}

/// Whether the state of the fog is due for a report; `since` is the time since
/// the last one.
pub fn fog_report_due(since: Scalar) -> (r: bool)
    ensures
        r == !since.less(scalar(REPORT_INTERVAL)),
{
    !since.lt(scalar(REPORT_INTERVAL))
}

/// How many of the suns shine through fog.
pub fn count_volumetric(suns: &Vec<bool>) -> (r: usize)
    ensures
        r == volumetric_count(suns@),
        r <= suns.len(),
{
    let mut n: usize = 0;
    let mut i: usize = 0;
    assert(suns@.take(0) =~= Seq::<bool>::empty());
    while i < suns.len()
        invariant
            i <= suns.len(),
            n <= i,
            n == volumetric_count(suns@.take(i as int)),
        decreases suns.len() - i,
    {
        proof {
            lemma_take_next(suns@, i as int);
        }
        if suns[i] {
            n = n + 1;
        }
        i = i + 1;
    }
    assert(suns@.take(suns.len() as int) =~= suns@);
    n
}

pub open spec fn volumetric_count(suns: Seq<bool>) -> nat
    decreases suns.len(),
{
    if suns.len() == 0 {
        0
    } else {
        volumetric_count(suns.drop_last()) + if suns.last() {
            1nat
        } else {
            0
        }
    }
}

/// Where fog begins and ends: around the edge of the streamed world where the
/// settings follow an active one, else where they say; from zero on, and never
/// ending before it begins.
pub proof fn law_fog_bounds(c: &EnvironmentLightConfig, edge: Option<StreamingEdge>, r: FogRange)
    requires
        call_ensures(fog_bounds, (c, edge), r),
    ensures
        edge is None || !c.fog_follow_streaming_boundary || !edge->0.active ==> {
            &&& lifted(c.fog_start, scalar(0), r.start)
            &&& lifted(c.fog_end, r.start, r.end)
        },
        edge matches Some(e) ==> (c.fog_follow_streaming_boundary && e.active ==> {
            &&& lifted(e.inner, scalar(0), r.start)
            &&& e.outer.less(r.start) ==> r.end == r.start
            &&& !e.outer.less(r.start) ==> r.end == e.outer
        }),
{
}

/// The light and the fog of a frame: each part comes from its own setting, in
/// bounds, and a part that is switched off is off.
pub proof fn law_environment(
    c: &EnvironmentLightConfig,
    edge: Option<StreamingEdge>,
    sun: SunState,
    r: EnvironmentPlan,
    range: FogRange,
)
    requires
        call_ensures(apply_environment_light, (c, edge, sun), r),
        call_ensures(fog_bounds, (c, edge), range),
    ensures
        unit_color(c.ambient_color, r.ambient_color),
        c.ambient_enabled ==> lifted(c.ambient_brightness, scalar(0), r.ambient_brightness),
        !c.ambient_enabled ==> r.ambient_brightness == scalar(0),
        r.fog is Some <==> c.fog_enabled,
        r.fog matches Some(f) ==> {
            &&& unit_color(c.fog_color, f.color)
            &&& unit_color(c.fog_directional_light_color, f.directional_light_color)
            &&& lifted(
                c.fog_directional_light_exponent,
                scalar(0),
                f.directional_light_exponent,
            )
            &&& f.range == range
        },
        r.volumetric is Some <==> c.volumetric_fog_enabled,
        r.volumetric matches Some(v) ==> {
            &&& unit_color(c.volumetric_fog_ambient_color, v.ambient_color)
            &&& lifted(c.volumetric_fog_ambient_intensity, scalar(0), v.ambient_intensity)
            &&& lifted(c.volumetric_fog_jitter, scalar(0), v.jitter)
            &&& c.volumetric_fog_step_count > 0 ==> v.step_count == c.volumetric_fog_step_count
            &&& c.volumetric_fog_step_count == 0 ==> v.step_count == 1
        },
        unit_color(c.color, r.sun_color),
        lifted(c.illuminance, scalar(0), r.sun_illuminance),
        r.sun_shadows == c.shadows_enabled,
        kept_within(c.max_elevation_deg, scalar(0), scalar(0x42b2_0000), r.max_elevation_deg),
{
}

/// The sun goes with the light; a single one is kept and takes or loses its shine
/// through fog as the settings say; otherwise a new one appears. It shines
/// through fog where fog is volumetric and shadows are on.
pub proof fn law_sun_changes(
    c: &EnvironmentLightConfig,
    edge: Option<StreamingEdge>,
    sun: SunState,
    r: EnvironmentPlan,
)
    requires
        call_ensures(apply_environment_light, (c, edge, sun), r),
    ensures
        r.sun is Despawn <==> !c.enabled,
        c.enabled && sun.count == 1 ==> {
            let shines = c.volumetric_fog_enabled && c.shadows_enabled;
            &&& shines && !sun.volumetric ==> r.sun == SunChange::Update(VolumetricChange::Add)
            &&& !shines && sun.volumetric ==> r.sun == SunChange::Update(VolumetricChange::Remove)
            &&& shines == sun.volumetric ==> r.sun == SunChange::Update(VolumetricChange::Keep)
        },
        c.enabled && sun.count != 1 ==> r.sun == (SunChange::Spawn {
            volumetric: c.volumetric_fog_enabled && c.shadows_enabled,
        }),
{
}

/// The fog is reported again after half a second.
pub proof fn law_fog_report(since: Scalar, r: bool)
    requires
        call_ensures(fog_report_due, (since,), r),
    ensures
        since.less(scalar(0x3f00_0000)) ==> !r,
        scalar(0x3f00_0000).at_most(since) ==> r,
{
}

/// One more sun counts one more where it shines through fog, and nothing else.
pub proof fn law_volumetric_count(
    suns: &Vec<bool>,
    more: &Vec<bool>,
    last: bool,
    r: usize,
    s: usize,
)
    requires
        call_ensures(count_volumetric, (suns,), r),
        call_ensures(count_volumetric, (more,), s),
        more@ == suns@.push(last),
    ensures
        suns@.len() == 0 ==> r == 0,
        last ==> s == r + 1,
        !last ==> s == r,
{
    assert(more@.drop_last() =~= suns@);
}

} // verus!
