//! What the model viewer shows, its camera, and its looks at materials and
//! colliders.

use vstd::prelude::*;

use crate::folds::lemma_take_next;
use crate::names::views;
use crate::physics::{CollisionShape, Extent};
use crate::scalar::{kept_within, lifted, scalar, Scalar, ONE, ZERO};
use crate::text::{
    concat, decimal, decimal_digits, has_head, join, joined, push_line, starts_with,
};

verus! {

/// -0.5, 0.4 and 4: the camera at first.
pub const START_YAW: u32 = 0xbf00_0000;

pub const START_PITCH: u32 = 0x3ecc_cccd;

pub const START_DISTANCE: u32 = 0x4080_0000;

/// 0.35 and 2.5: the camera close to the model.
pub const FIT_PITCH: u32 = 0x3eb3_3333;

pub const FIT_DISTANCE: u32 = 0x4020_0000;

/// -1.5 and 1.5: how far the camera tilts.
pub const LOWEST_PITCH: u32 = 0xbfc0_0000;

pub const HIGHEST_PITCH: u32 = 0x3fc0_0000;

/// 0.05: the least distance of the camera.
pub const LEAST_DISTANCE: u32 = 0x3d4c_cccd;

/// 0.2, 0.3, 0.5, 0.6 and 0.8.
pub const PARTS_20: u32 = 0x3e4c_cccd;

pub const PARTS_30: u32 = 0x3e99_999a;

pub const PARTS_50: u32 = 0x3f00_0000;

pub const PARTS_60: u32 = 0x3f19_999a;

pub const PARTS_80: u32 = 0x3f4c_cccd;

/// -1 to -5: the marks of the looks at vertex colors.
pub const LOOK_RGB: u32 = 0xbf80_0000;

pub const LOOK_R: u32 = 0xc000_0000;

pub const LOOK_G: u32 = 0xc040_0000;

pub const LOOK_B: u32 = 0xc080_0000;

pub const LOOK_A: u32 = 0xc0a0_0000;

/// A camera that circles a point.
#[derive(Clone, Copy, PartialEq, Eq, Structural, Debug)]
pub struct OrbitState {
    pub yaw: Scalar,
    pub pitch: Scalar,
    pub distance: Scalar,
    pub focus: Extent,
}

pub open spec fn origin() -> Extent {
    Extent { x: scalar(ZERO), y: scalar(ZERO), z: scalar(ZERO) }
}

pub open spec fn start_orbit() -> OrbitState {
    OrbitState {
        yaw: scalar(START_YAW),
        pitch: scalar(START_PITCH),
        distance: scalar(START_DISTANCE),
        focus: origin(),
    }
}

pub open spec fn fit_orbit() -> OrbitState {
    OrbitState {
        yaw: scalar(START_YAW),
        pitch: scalar(FIT_PITCH),
        distance: scalar(FIT_DISTANCE),
        focus: origin(),
    }
}

impl Default for OrbitState {
    fn default() -> (r: Self)
        ensures
            r == start_orbit(),
    {
        OrbitState {
            yaw: scalar(START_YAW),
            pitch: scalar(START_PITCH),
            distance: scalar(START_DISTANCE),
            focus: Extent { x: scalar(ZERO), y: scalar(ZERO), z: scalar(ZERO) },
        }
    }
}

/// What the mouse asks of the camera: the turned angles while it orbits, the
/// moved point while it pans, and the scroll with the distance that it leads to.
#[derive(Clone, Copy, PartialEq, Eq, Debug)]
pub struct OrbitMouse {
    pub orbit: Option<(Scalar, Scalar)>,
    pub pan: Option<Extent>,
    pub scroll: Scalar,
    pub zoomed: Scalar,
}

impl OrbitState {
    /// Turns, moves and zooms the camera, its tilt and its distance kept in
    /// bounds.
    pub fn orbit_camera(&mut self, mouse: OrbitMouse)
        ensures
            *final(self) == (OrbitState {
                yaw: match mouse.orbit {
                    Some((yaw, _)) => yaw,
                    None => old(self).yaw,
                },
                pitch: match mouse.orbit {
                    Some((_, pitch)) => pitch.bounded(scalar(LOWEST_PITCH), scalar(HIGHEST_PITCH)),
                    None => old(self).pitch,
                },
                focus: match mouse.pan {
                    Some(focus) => focus,
                    None => old(self).focus,
                },
                distance: if scalar(ZERO).less(mouse.scroll.magnitude()) {
                    mouse.zoomed.larger(scalar(LEAST_DISTANCE))
                } else {
                    old(self).distance
                },
            }),
    {
        if let Some((yaw, pitch)) = mouse.orbit {
            self.yaw = yaw;
            self.pitch = pitch.clamp(scalar(LOWEST_PITCH), scalar(HIGHEST_PITCH));
        }
        if let Some(focus) = mouse.pan {
            self.focus = focus;
        }
        if scalar(ZERO).lt(mouse.scroll.abs()) {
            self.distance = mouse.zoomed.max(scalar(LEAST_DISTANCE));
        }
    }
}

/// What the viewer shows.
#[derive(Clone, Copy, PartialEq, Eq, Structural, Debug)]
pub struct ViewerState {
    pub grid_visible: bool,
    pub overlay_visible: bool,
    pub colliders_visible: bool,
    pub skeleton_visible: bool,
}

impl Default for ViewerState {
    fn default() -> (r: Self)
        ensures
            r == (ViewerState {
                grid_visible: true,
                overlay_visible: true,
                colliders_visible: false,
                skeleton_visible: false,
            }),
    {
        ViewerState {
            grid_visible: true,
            overlay_visible: true,
            colliders_visible: false,
            skeleton_visible: false,
        }
    }
}

/// The keys of the viewer, each true where it was just pressed.
#[derive(Clone, Copy, PartialEq, Eq, Structural, Debug)]
pub struct ViewerKeys {
    pub reset_camera: bool,
    pub fit_camera: bool,
    pub grid: bool,
    pub overlay: bool,
    pub colliders: bool,
    pub skeleton: bool,
}

/// Takes the keys of a frame.
pub fn handle_keyboard(state: &mut ViewerState, camera: &mut OrbitState, keys: ViewerKeys)
    ensures
        *final(state) == (ViewerState {
            grid_visible: old(state).grid_visible != keys.grid,
            overlay_visible: old(state).overlay_visible != keys.overlay,
            colliders_visible: old(state).colliders_visible != keys.colliders,
            skeleton_visible: old(state).skeleton_visible != keys.skeleton,
        }),
        *final(camera) == (if keys.fit_camera {
            fit_orbit()
        } else if keys.reset_camera {
            start_orbit()
        } else {
            *old(camera)
        }),
{
    if keys.reset_camera {
        *camera = OrbitState::default();
    }
    if keys.grid {
        state.grid_visible = !state.grid_visible;
    }
    if keys.overlay {
        state.overlay_visible = !state.overlay_visible;
    }
    if keys.fit_camera {
        camera.focus = Extent { x: scalar(ZERO), y: scalar(ZERO), z: scalar(ZERO) };
        camera.distance = scalar(FIT_DISTANCE);
        camera.yaw = scalar(START_YAW);
        camera.pitch = scalar(FIT_PITCH);
    }
    if keys.colliders {
        state.colliders_visible = !state.colliders_visible;
    }
    if keys.skeleton {
        state.skeleton_visible = !state.skeleton_visible;
    }
}

/// Weather on the materials of a model: snow, dirt, wetness and porosity.
#[derive(Clone, Copy, PartialEq, Eq, Structural, Debug)]
pub struct Weather {
    pub snow: Scalar,
    pub dirt: Scalar,
    pub wetness: Scalar,
    pub porosity: Scalar,
}

/// The number of kinds of weather, and of looks at vertex colors.
pub const WEATHER_PRESETS: usize = 5;

pub const VCOL_DEBUG_MODES: usize = 6;

/// The weather of a number.
pub open spec fn weather_at(i: int) -> Weather {
    let zero = scalar(ZERO);
    if i == 1 {
        Weather {
            snow: zero,
            dirt: scalar(ONE),
            wetness: zero,
            porosity: scalar(PARTS_50),
        }
    } else if i == 2 {
        Weather {
            snow: zero,
            dirt: zero,
            wetness: scalar(ONE),
            porosity: scalar(PARTS_80),
        }
    } else if i == 3 {
        Weather { snow: scalar(ONE), dirt: zero, wetness: zero, porosity: zero }
    } else if i == 4 {
        Weather {
            snow: scalar(PARTS_20),
            dirt: scalar(PARTS_60),
            wetness: scalar(PARTS_30),
            porosity: scalar(PARTS_50),
        }
    } else {
        Weather { snow: zero, dirt: zero, wetness: zero, porosity: zero }
    }
}

pub open spec fn weather_name(i: int) -> Seq<char> {
    if i == 1 {
        "dirty"@
    } else if i == 2 {
        "wet"@
    } else if i == 3 {
        "snowy"@
    } else if i == 4 {
        "combined"@
    } else {
        "clean"@
    }
}

/// The mark of a look at vertex colors: zero for the usual drawing, a negative
/// number for each other one.
pub open spec fn look_at(i: int) -> Scalar {
    if i == 1 {
        scalar(LOOK_RGB)
    } else if i == 2 {
        scalar(LOOK_R)
    } else if i == 3 {
        scalar(LOOK_G)
    } else if i == 4 {
        scalar(LOOK_B)
    } else if i == 5 {
        scalar(LOOK_A)
    } else {
        scalar(ZERO)
    }
}

pub open spec fn look_name(i: int) -> Seq<char> {
    if i == 1 {
        "vcol RGB"@
    } else if i == 2 {
        "vcol R (normal suppress)"@
    } else if i == 3 {
        "vcol G (dirt)"@
    } else if i == 4 {
        "vcol B (wet)"@
    } else if i == 5 {
        "vcol A (palette)"@
    } else {
        "normal"@
    }
}

/// The weather and the look that were chosen.
#[derive(Clone, Copy, PartialEq, Eq, Structural, Debug)]
pub struct WeatherState {
    pub preset_idx: usize,
    pub vcol_idx: usize,
}

impl Default for WeatherState {
    fn default() -> (r: Self)
        ensures
            r == (WeatherState { preset_idx: 0, vcol_idx: 0 }),
            r.wf(),
    {
        WeatherState { preset_idx: 0, vcol_idx: 0 }
    }
}

/// What the materials get, and what the user is told.
#[derive(Clone, Debug)]
pub struct MaterialDebug {
    pub weather: Weather,
    pub look: Scalar,
    pub status: String,
}

fn preset(i: usize) -> (r: (Weather, &'static str))
    ensures
        r.0 == weather_at(i as int),
        r.1@ == weather_name(i as int),
{
    let zero = scalar(ZERO);
    if i == 1 {
        (
            Weather { snow: zero, dirt: scalar(ONE), wetness: zero, porosity: scalar(PARTS_50) },
            "dirty",
        )
    } else if i == 2 {
        (
            Weather { snow: zero, dirt: zero, wetness: scalar(ONE), porosity: scalar(PARTS_80) },
            "wet",
        )
    } else if i == 3 {
        (Weather { snow: scalar(ONE), dirt: zero, wetness: zero, porosity: zero }, "snowy")
    } else if i == 4 {
        (
            Weather {
                snow: scalar(PARTS_20),
                dirt: scalar(PARTS_60),
                wetness: scalar(PARTS_30),
                porosity: scalar(PARTS_50),
            },
            "combined",
        )
    } else {
        (Weather { snow: zero, dirt: zero, wetness: zero, porosity: zero }, "clean")
    }
}

fn look(i: usize) -> (r: (Scalar, &'static str))
    ensures
        r.0 == look_at(i as int),
        r.1@ == look_name(i as int),
{
    if i == 1 {
        (scalar(LOOK_RGB), "vcol RGB")
    } else if i == 2 {
        (scalar(LOOK_R), "vcol R (normal suppress)")
    } else if i == 3 {
        (scalar(LOOK_G), "vcol G (dirt)")
    } else if i == 4 {
        (scalar(LOOK_B), "vcol B (wet)")
    } else if i == 5 {
        (scalar(LOOK_A), "vcol A (palette)")
    } else {
        (scalar(ZERO), "normal")
    }
}

impl WeatherState {
    pub open spec fn wf(self) -> bool {
        self.preset_idx < WEATHER_PRESETS && self.vcol_idx < VCOL_DEBUG_MODES
    }

    /// Goes on to the next weather and the next look, each in a circle.
    pub fn handle_material_debug(&mut self, weather_key: bool, look_key: bool) -> (r: Option<
        MaterialDebug,
    >)
        requires
            old(self).wf(),
        ensures
            final(self).wf(),
            final(self).preset_idx == (if weather_key {
                (old(self).preset_idx + 1) % WEATHER_PRESETS as int
            } else {
                old(self).preset_idx as int
            }),
            final(self).vcol_idx == (if look_key {
                (old(self).vcol_idx + 1) % VCOL_DEBUG_MODES as int
            } else {
                old(self).vcol_idx as int
            }),
            r is Some <==> weather_key || look_key,
            r matches Some(d) ==> d.weather == weather_at(final(self).preset_idx as int) && d.look
                == look_at(final(self).vcol_idx as int) && d.status@ == "Weather: "@
                + weather_name(final(self).preset_idx as int) + "  |  VCol: "@ + look_name(
                final(self).vcol_idx as int,
            ),
    {
        if !weather_key && !look_key {
            return None;
        }
        if weather_key {
            self.preset_idx = (self.preset_idx + 1) % WEATHER_PRESETS;
        }
        if look_key {
            self.vcol_idx = (self.vcol_idx + 1) % VCOL_DEBUG_MODES;
        }
        let (weather, name) = preset(self.preset_idx);
        let (mark, look_text) = look(self.vcol_idx);
        let mut status = concat("Weather: ", name);
        status.append("  |  VCol: ");
        status.append(look_text);
        Some(MaterialDebug { weather, look: mark, status })
    }
}

/// What becomes of a mesh as the colliders are shown or hidden.
#[derive(Clone, Copy, PartialEq, Eq, Structural, Debug)]
pub enum MeshVisibility {
    Hidden,
    Inherited,
}

/// While colliders show, meshes do not; afterwards all but the meshes of
/// colliders do again.
pub fn mesh_visibility(colliders_visible: bool, name: Option<&str>) -> (r: Option<MeshVisibility>)
    ensures
        r == (if colliders_visible {
            Some(MeshVisibility::Hidden)
        } else if name matches Some(n) && has_head(n@, "COL_"@) {
            None
        } else {
            Some(MeshVisibility::Inherited)
        }),
{
    if colliders_visible {
        return Some(MeshVisibility::Hidden);
    }
    let is_collider = match name {
        Some(n) => starts_with(n, "COL_"),
        None => false,
    };
    if is_collider {
        None
    } else {
        Some(MeshVisibility::Inherited)
    }
}

/// Whether the meshes have to change: the mode is another one than last time.
pub fn sync_mesh_visibility_for_collider_mode(last: &mut bool, colliders_visible: bool) -> (r: bool)
    ensures
        r == (*old(last) != colliders_visible),
        *final(last) == colliders_visible,
{
    let changed = *last != colliders_visible;
    *last = colliders_visible;
    changed
}

/// The color of a collider.
#[derive(Clone, Copy, PartialEq, Eq, Structural, Debug)]
pub enum ColliderTone {
    Ladder,
    Climbable,
    Dynamic,
    Static,
    Navmesh,
}

pub fn collider_color(ladder: bool, climbable: bool, is_static: bool) -> (r: ColliderTone)
    ensures
        r == (if ladder {
            ColliderTone::Ladder
        } else if climbable {
            ColliderTone::Climbable
        } else if !is_static {
            ColliderTone::Dynamic
        } else {
            ColliderTone::Static
        }),
{
    if ladder {
        ColliderTone::Ladder
    } else if climbable {
        ColliderTone::Climbable
    } else if !is_static {
        ColliderTone::Dynamic
    } else {
        ColliderTone::Static
    }
}

/// The outline of a collider, before it is scaled.
#[derive(Clone, Copy, PartialEq, Eq, Structural, Debug)]
pub enum Outline {
    Box { half: Extent },
    /// The edges of the mesh, or else this box.
    Mesh { half: Extent },
    Sphere { radius: Scalar },
    Capsule { radius: Scalar, height: Option<Scalar> },
    Cylinder { radius: Scalar, height: Option<Scalar> },
}

pub open spec fn half_or_standard(half: Option<Extent>) -> Extent {
    match half {
        Some(h) => h,
        None => Extent { x: scalar(PARTS_50), y: scalar(PARTS_50), z: scalar(PARTS_50) },
    }
}

pub open spec fn or_standard(x: Option<Scalar>, standard: u32) -> Scalar {
    match x {
        Some(v) => v,
        None => scalar(standard),
    }
}

pub(crate) fn half_of(half: Option<Extent>) -> (r: Extent)
    ensures
        r == half_or_standard(half),
{
    match half {
        Some(h) => h,
        None => Extent { x: scalar(PARTS_50), y: scalar(PARTS_50), z: scalar(PARTS_50) },
    }
}

pub(crate) fn number_of(x: Option<Scalar>, standard: u32) -> (r: Scalar)
    ensures
        r == or_standard(x, standard),
{
    match x {
        Some(v) => v,
        None => scalar(standard),
    }
}

/// The outline of a collider, with the measures that it leaves out filled in.
/// A navigation mesh has a color of its own.
pub fn draw_colliders(
    shape: CollisionShape,
    half: Option<Extent>,
    radius: Option<Scalar>,
    height: Option<Scalar>,
    tone: ColliderTone,
) -> (r: (Outline, ColliderTone))
    ensures
        r.1 == (if shape == CollisionShape::Navmesh {
            ColliderTone::Navmesh
        } else {
            tone
        }),
        r.0 == match shape {
            CollisionShape::Box => Outline::Box { half: half_or_standard(half) },
            CollisionShape::Mesh => Outline::Mesh { half: half_or_standard(half) },
            CollisionShape::Convex => Outline::Mesh { half: half_or_standard(half) },
            CollisionShape::Navmesh => Outline::Mesh { half: half_or_standard(half) },
            CollisionShape::Sphere => Outline::Sphere { radius: or_standard(radius, PARTS_50) },
            CollisionShape::Capsule => Outline::Capsule {
                radius: or_standard(radius, PARTS_30),
                height,
            },
            CollisionShape::Cylinder => Outline::Cylinder {
                radius: or_standard(radius, PARTS_50),
                height,
            },
        },
{
    let tone = if shape == CollisionShape::Navmesh {
        ColliderTone::Navmesh
    } else {
        tone
    };
    let outline = match shape {
        CollisionShape::Box => Outline::Box { half: half_of(half) },
        CollisionShape::Mesh => Outline::Mesh { half: half_of(half) },
        CollisionShape::Convex => Outline::Mesh { half: half_of(half) },
        CollisionShape::Navmesh => Outline::Mesh { half: half_of(half) },
        CollisionShape::Sphere => Outline::Sphere { radius: number_of(radius, PARTS_50) },
        CollisionShape::Capsule => Outline::Capsule {
            radius: number_of(radius, PARTS_30),
            height,
        },
        CollisionShape::Cylinder => Outline::Cylinder {
            radius: number_of(radius, PARTS_50),
            height,
        },
    };
    (outline, tone)
}

/// The measures that the panel names of a collider.
#[derive(Clone, Copy, PartialEq, Eq, Structural, Debug)]
pub enum ColliderSize {
    Half(Extent),
    Radius(Scalar),
    RadiusHeight(Scalar, Scalar),
}

pub fn collider_size(
    shape: CollisionShape,
    half: Option<Extent>,
    radius: Option<Scalar>,
    height: Option<Scalar>,
) -> (r: ColliderSize)
    ensures
        r == match shape {
            CollisionShape::Sphere => ColliderSize::Radius(or_standard(radius, PARTS_50)),
            CollisionShape::Capsule => ColliderSize::RadiusHeight(
                or_standard(radius, PARTS_30),
                or_standard(height, ONE),
            ),
            CollisionShape::Cylinder => ColliderSize::RadiusHeight(
                or_standard(radius, PARTS_30),
                or_standard(height, ONE),
            ),
            _ => ColliderSize::Half(half_or_standard(half)),
        },
{
    match shape {
        CollisionShape::Sphere => ColliderSize::Radius(number_of(radius, PARTS_50)),
        CollisionShape::Capsule => ColliderSize::RadiusHeight(
            number_of(radius, PARTS_30),
            number_of(height, ONE),
        ),
        CollisionShape::Cylinder => ColliderSize::RadiusHeight(
            number_of(radius, PARTS_30),
            number_of(height, ONE),
        ),
        _ => ColliderSize::Half(half_of(half)),
    }
}

/// A collider on the panel. The texts hold what is written of it: its material,
/// its size, its place, and its coefficients.
#[derive(Clone, Debug)]
pub struct ColliderInfo {
    pub shape: CollisionShape,
    pub material: String,
    pub is_static: bool,
    pub climbable: bool,
    pub ladder: bool,
    pub size: String,
    pub place: String,
    pub friction: Scalar,
    pub restitution: Scalar,
    pub mass: Scalar,
    pub coefficients: String,
    pub tags: Vec<String>,
}

pub open spec fn shape_name(shape: CollisionShape) -> Seq<char> {
    match shape {
        CollisionShape::Box => "Box"@,
        CollisionShape::Sphere => "Sphere"@,
        CollisionShape::Capsule => "Capsule"@,
        CollisionShape::Cylinder => "Cylinder"@,
        CollisionShape::Convex => "Convex"@,
        CollisionShape::Mesh => "Mesh"@,
        CollisionShape::Navmesh => "Navmesh"@,
    }
}

fn shape_text(shape: CollisionShape) -> (r: &'static str)
    ensures
        r@ == shape_name(shape),
{
    match shape {
        CollisionShape::Box => "Box",
        CollisionShape::Sphere => "Sphere",
        CollisionShape::Capsule => "Capsule",
        CollisionShape::Cylinder => "Cylinder",
        CollisionShape::Convex => "Convex",
        CollisionShape::Mesh => "Mesh",
        CollisionShape::Navmesh => "Navmesh",
    }
}

/// What a collider is, the parts joined by plus signs.
pub open spec fn kind_text(c: ColliderInfo) -> Seq<char> {
    (if c.is_static {
        "static"@
    } else {
        "dynamic"@
    }) + (if c.climbable {
        "+climbable"@
    } else {
        Seq::empty()
    }) + (if c.ladder {
        "+ladder"@
    } else {
        Seq::empty()
    })
}

/// Some lines and those of a collider.
pub open spec fn with_collider(lines: Seq<Seq<char>>, i: nat, c: ColliderInfo) -> Seq<Seq<char>> {
    let two = lines.push(
        "["@ + decimal_digits(i) + "] "@ + shape_name(c.shape) + "  "@ + c.material@ + "  "@
            + kind_text(c),
    ).push("    "@ + c.size@ + "  @ "@ + c.place@);
    let zero = scalar(ZERO);
    let three = if !c.friction.equals(zero) || !c.restitution.equals(zero) || !c.mass.equals(zero) {
        two.push("    "@ + c.coefficients@)
    } else {
        two
    };
    if c.tags@.len() > 0 {
        three.push("    tags: "@ + joined(views(c.tags@), ", "@))
    } else {
        three
    }
}

pub open spec fn with_colliders(lines: Seq<Seq<char>>, all: Seq<ColliderInfo>) -> Seq<Seq<char>>
    decreases all.len(),
{
    if all.len() == 0 {
        lines
    } else {
        with_collider(with_colliders(lines, all.drop_last()), all.len(), all.last())
    }
}

/// The lines of the panel of colliders.
pub open spec fn collider_lines(all: Seq<ColliderInfo>) -> Seq<Seq<char>> {
    let head = Seq::empty().push(
        "── Collidery (cyan=static  orange=dynamic  green=climbable  yellow=ladder) ──"@,
    );
    if all.len() == 0 {
        head.push("(žádné DrawableCollision entity)"@).push(
            "Model vyžaduje .drawable nebo .adm manifest."@,
        )
    } else {
        with_colliders(head, all)
    }
}

fn push_collider(lines: &mut Vec<String>, i: usize, c: &ColliderInfo)
    ensures
        views(final(lines)@) == with_collider(views(old(lines)@), i as nat, *c),
{
    let n = decimal(i as u64);
    let mut a = concat("[", n.as_str());
    a.append("] ");
    a.append(shape_text(c.shape));
    a.append("  ");
    a.append(c.material.as_str());
    a.append("  ");
    let ghost head = a@;
    a.append(if c.is_static {
        "static"
    } else {
        "dynamic"
    });
    if c.climbable {
        a.append("+climbable");
    }
    if c.ladder {
        a.append("+ladder");
    }
    assert(a@ =~= head + kind_text(*c));
    push_line(lines, a);
    let mut b = concat("    ", c.size.as_str());
    b.append("  @ ");
    b.append(c.place.as_str());
    push_line(lines, b);
    let zero = scalar(ZERO);
    if !c.friction.same_number(zero) || !c.restitution.same_number(zero) || !c.mass.same_number(zero) {
        push_line(lines, concat("    ", c.coefficients.as_str()));
    }
    if c.tags.len() > 0 {
        let list = join(&c.tags, ", ");
        push_line(lines, concat("    tags: ", list.as_str()));
    }
}

/// The text of the panel of colliders; hidden while they are.
pub fn update_collider_panel(visible: bool, all: &Vec<ColliderInfo>) -> (r: Option<String>)
    ensures
        r is Some <==> visible,
        r matches Some(text) ==> text@ == joined(collider_lines(all@), "\n"@),
{
    if !visible {
        return None;
    }
    let mut lines: Vec<String> = Vec::new();
    assert(views(lines@) =~= Seq::<Seq<char>>::empty());
    push_line(
        &mut lines,
        "── Collidery (cyan=static  orange=dynamic  green=climbable  yellow=ladder) ──".to_string(),
    );
    if all.len() == 0 {
        push_line(&mut lines, "(žádné DrawableCollision entity)".to_string());
        push_line(&mut lines, "Model vyžaduje .drawable nebo .adm manifest.".to_string());
        return Some(join(&lines, "\n"));
    }
    let ghost head = views(lines@);
    let mut i: usize = 0;
    assert(all@.take(0) =~= Seq::<ColliderInfo>::empty());
    while i < all.len()
        invariant
            i <= all.len(),
            views(lines@) == with_colliders(head, all@.take(i as int)),
        decreases all.len() - i,
    {
        proof {
            lemma_take_next(all@, i as int);
        }
        push_collider(&mut lines, i + 1, &all[i]);
        i = i + 1;
    }
    assert(all@.take(all.len() as int) =~= all@);
    Some(join(&lines, "\n"))
}

/// The camera: a turn sets its angles, the tilt kept between -1.5 and 1.5, a shift
/// sets its point, and a scroll sets its distance, a twentieth at least. What the
/// mouse does not ask for stays.
pub proof fn law_orbit(camera: &mut OrbitState, mouse: OrbitMouse)
    requires
        call_ensures(OrbitState::orbit_camera, (camera, mouse), ()),
    ensures
        mouse.orbit is None ==> final(camera).yaw == old(camera).yaw && final(camera).pitch == old(camera).pitch,
        mouse.orbit matches Some(to) ==> final(camera).yaw == to.0 && kept_within(
            to.1,
            scalar(0xbfc0_0000),
            scalar(0x3fc0_0000),
            final(camera).pitch,
        ),
        mouse.pan is None ==> final(camera).focus == old(camera).focus,
        mouse.pan matches Some(to) ==> final(camera).focus == to,
        mouse.scroll.less(scalar(0)) || scalar(0).less(mouse.scroll) ==> lifted(
            mouse.zoomed,
            scalar(0x3d4c_cccd),
            final(camera).distance,
        ),
        mouse.scroll.equals(scalar(0)) ==> final(camera).distance == old(camera).distance,
{
}

/// The keys of the viewer: each of four switches what it stands for, one puts the
/// camera back to where it starts, and another close to the model.
pub proof fn law_viewer_keys(state: &mut ViewerState, camera: &mut OrbitState, keys: ViewerKeys)
    requires
        call_ensures(handle_keyboard, (state, camera, keys), ()),
    ensures
        keys.grid <==> final(state).grid_visible != old(state).grid_visible,
        keys.overlay <==> final(state).overlay_visible != old(state).overlay_visible,
        keys.colliders <==> final(state).colliders_visible != old(state).colliders_visible,
        keys.skeleton <==> final(state).skeleton_visible != old(state).skeleton_visible,
        !keys.reset_camera && !keys.fit_camera ==> *final(camera) == *old(camera),
        keys.reset_camera || keys.fit_camera ==> final(camera).yaw == scalar(0xbf00_0000) && final(camera).focus.x == scalar(0) && final(camera).focus.y == scalar(0) && final(camera).focus.z
            == scalar(0),
        keys.fit_camera ==> final(camera).pitch == scalar(0x3eb3_3333) && final(camera).distance
            == scalar(0x4020_0000),
        keys.reset_camera && !keys.fit_camera ==> final(camera).pitch == scalar(0x3ecc_cccd)
            && final(camera).distance == scalar(0x4080_0000),
{
}

/// The weather of the materials: five kinds in a circle, each with its snow, dirt,
/// wetness and porosity, and its name.
pub proof fn law_weather(
    state: &mut WeatherState,
    weather_key: bool,
    look_key: bool,
    r: Option<MaterialDebug>,
)
    requires
        call_ensures(WeatherState::handle_material_debug, (state, weather_key, look_key), r),
        old(state).wf(),
    ensures
        r is Some <==> weather_key || look_key,
        !weather_key ==> final(state).preset_idx == old(state).preset_idx,
        weather_key && old(state).preset_idx < 4 ==> final(state).preset_idx == old(state).preset_idx + 1,
        weather_key && old(state).preset_idx == 4 ==> final(state).preset_idx == 0,
        r matches Some(d) ==> {
            let w = d.weather;
            let i = final(state).preset_idx;
            let zero = scalar(0);
            let one = scalar(0x3f80_0000);
            &&& i == 0 ==> w.snow == zero && w.dirt == zero && w.wetness == zero && w.porosity
                == zero
            &&& i == 1 ==> w.snow == zero && w.dirt == one && w.wetness == zero && w.porosity
                == scalar(0x3f00_0000)
            &&& i == 2 ==> w.snow == zero && w.dirt == zero && w.wetness == one && w.porosity
                == scalar(0x3f4c_cccd)
            &&& i == 3 ==> w.snow == one && w.dirt == zero && w.wetness == zero && w.porosity
                == zero
            &&& i == 4 ==> w.snow == scalar(0x3e4c_cccd) && w.dirt == scalar(0x3f19_999a)
                && w.wetness == scalar(0x3e99_999a) && w.porosity == scalar(0x3f00_0000)
        },
{
}

/// The looks at vertex colors: six in a circle, each with its mark; the user is
/// told the weather and the look by their names.
pub proof fn law_looks(
    state: &mut WeatherState,
    weather_key: bool,
    look_key: bool,
    r: Option<MaterialDebug>,
    weather: Seq<char>,
    look: Seq<char>,
)
    requires
        call_ensures(WeatherState::handle_material_debug, (state, weather_key, look_key), r),
        old(state).wf(),
        ({
            let i = final(state).preset_idx;
            &&& i == 0 ==> weather == "clean"@
            &&& i == 1 ==> weather == "dirty"@
            &&& i == 2 ==> weather == "wet"@
            &&& i == 3 ==> weather == "snowy"@
            &&& i == 4 ==> weather == "combined"@
        }),
        ({
            let i = final(state).vcol_idx;
            &&& i == 0 ==> look == "normal"@
            &&& i == 1 ==> look == "vcol RGB"@
            &&& i == 2 ==> look == "vcol R (normal suppress)"@
            &&& i == 3 ==> look == "vcol G (dirt)"@
            &&& i == 4 ==> look == "vcol B (wet)"@
            &&& i == 5 ==> look == "vcol A (palette)"@
        }),
    ensures
        !look_key ==> final(state).vcol_idx == old(state).vcol_idx,
        look_key && old(state).vcol_idx < 5 ==> final(state).vcol_idx == old(state).vcol_idx + 1,
        look_key && old(state).vcol_idx == 5 ==> final(state).vcol_idx == 0,
        r matches Some(d) ==> {
            let i = final(state).vcol_idx;
            &&& i == 0 ==> d.look == scalar(0)
            &&& i == 1 ==> d.look == scalar(0xbf80_0000)
            &&& i == 2 ==> d.look == scalar(0xc000_0000)
            &&& i == 3 ==> d.look == scalar(0xc040_0000)
            &&& i == 4 ==> d.look == scalar(0xc080_0000)
            &&& i == 5 ==> d.look == scalar(0xc0a0_0000)
            &&& d.status@ == "Weather: "@ + weather + "  |  VCol: "@ + look
        },
{
}

/// While colliders show, all meshes are hidden; afterwards all come back but
/// those that are colliders themselves. Meshes change where the mode did.
pub proof fn law_mesh_modes(
    visible: bool,
    name: Option<&str>,
    r: Option<MeshVisibility>,
    last: &mut bool,
    changed: bool,
    rest: Seq<char>,
)
    requires
        call_ensures(mesh_visibility, (visible, name), r),
        call_ensures(sync_mesh_visibility_for_collider_mode, (last, visible), changed),
    ensures
        visible ==> (r matches Some(v) && v is Hidden),
        !visible && name is None ==> (r matches Some(v) && v is Inherited),
        !visible && name is Some && name->0@ == "COL_"@ + rest ==> r is None,
        !visible && name is Some && (name->0@.len() < 4 || name->0@.take(4) != "COL_"@) ==> (
        r matches Some(v) && v is Inherited),
        changed <==> *old(last) != visible,
        *final(last) == visible,
{
    reveal_strlit("COL_");
    if name is Some && name->0@ == "COL_"@ + rest {
        assert(name->0@.take(4) =~= "COL_"@);
    }
}

/// The colors of colliders: that of a ladder before that of what can be climbed,
/// and these before the two of what moves and what stands.
pub proof fn law_collider_tones(ladder: bool, climbable: bool, is_static: bool, r: ColliderTone)
    requires
        call_ensures(collider_color, (ladder, climbable, is_static), r),
    ensures
        r is Ladder <==> ladder,
        r is Climbable <==> climbable && !ladder,
        r is Dynamic <==> !ladder && !climbable && !is_static,
        r is Static <==> !ladder && !climbable && is_static,
{
}

/// The outline of a collider has its shape and its measures; where it does not
/// say, they are half a metre, and three tenths for the radius of a capsule. A
/// navigation mesh has a color of its own, all others the one that is given.
pub proof fn law_outlines(
    shape: CollisionShape,
    half: Option<Extent>,
    radius: Option<Scalar>,
    height: Option<Scalar>,
    tone: ColliderTone,
    r: (Outline, ColliderTone),
)
    requires
        call_ensures(draw_colliders, (shape, half, radius, height, tone), r),
    ensures
        shape is Box <==> r.0 is Box,
        shape is Mesh || shape is Convex || shape is Navmesh <==> r.0 is Mesh,
        shape is Sphere <==> r.0 is Sphere,
        shape is Capsule <==> r.0 is Capsule,
        shape is Cylinder <==> r.0 is Cylinder,
        r.0 matches Outline::Box { half: got } ==> measured(half, got),
        r.0 matches Outline::Mesh { half: got } ==> measured(half, got),
        r.0 matches Outline::Sphere { radius: got } ==> (radius matches Some(x) ==> got == x) && (
        radius is None ==> got == scalar(0x3f00_0000)),
        r.0 matches Outline::Capsule { radius: got, height: tall } ==> tall == height && (
        radius matches Some(x) ==> got == x) && (radius is None ==> got == scalar(0x3e99_999a)),
        r.0 matches Outline::Cylinder { radius: got, height: tall } ==> tall == height && (
        radius matches Some(x) ==> got == x) && (radius is None ==> got == scalar(0x3f00_0000)),
        shape is Navmesh ==> r.1 is Navmesh,
        !(shape is Navmesh) ==> r.1 == tone,
{
}

/// `got` is the given extent, or half a metre each way.
pub open spec fn measured(half: Option<Extent>, got: Extent) -> bool {
    &&& half matches Some(h) ==> got == h
    &&& half is None ==> got.x == scalar(0x3f00_0000) && got.y == scalar(0x3f00_0000) && got.z
        == scalar(0x3f00_0000)
}

/// The measures on the panel: the radius of a ball, the radius and the height of
/// what is round and long, and the extent of all else.
pub proof fn law_panel_sizes(
    shape: CollisionShape,
    half: Option<Extent>,
    radius: Option<Scalar>,
    height: Option<Scalar>,
    r: ColliderSize,
)
    requires
        call_ensures(collider_size, (shape, half, radius, height), r),
    ensures
        r is Radius <==> shape is Sphere,
        r is RadiusHeight <==> shape is Capsule || shape is Cylinder,
        r matches ColliderSize::Half(got) ==> measured(half, got),
        r matches ColliderSize::Radius(got) ==> (radius matches Some(x) ==> got == x) && (
        radius is None ==> got == scalar(0x3f00_0000)),
        r matches ColliderSize::RadiusHeight(got, tall) ==> (radius matches Some(x) ==> got == x)
            && (radius is None ==> got == scalar(0x3e99_999a)),
        r matches ColliderSize::RadiusHeight(got, tall) ==> (height matches Some(x) ==> tall == x)
            && (height is None ==> tall == scalar(0x3f80_0000)),
{
}

/// The lines that tell of a collider: its number, its shape, its material and what
/// it is, then its size and its place, its coefficients where one of them is not
/// zero, and its tags where it has any.
pub open spec fn tells_collider(part: Seq<Seq<char>>, number: nat, c: ColliderInfo) -> bool {
    let forced = !(c.friction.equals(scalar(0)) && c.restitution.equals(scalar(0))
        && c.mass.equals(scalar(0)));
    let tagged = c.tags@.len() > 0;
    &&& part.len() == 2 + (if forced {
        1int
    } else {
        0
    }) + (if tagged {
        1int
    } else {
        0
    })
    &&& part[0] == "["@ + decimal_digits(number) + "] "@ + (match c.shape {
        CollisionShape::Box => "Box"@,
        CollisionShape::Sphere => "Sphere"@,
        CollisionShape::Capsule => "Capsule"@,
        CollisionShape::Cylinder => "Cylinder"@,
        CollisionShape::Convex => "Convex"@,
        CollisionShape::Mesh => "Mesh"@,
        CollisionShape::Navmesh => "Navmesh"@,
    }) + "  "@ + c.material@ + "  "@ + ((if c.is_static {
        "static"@
    } else {
        "dynamic"@
    }) + (if c.climbable {
        "+climbable"@
    } else {
        Seq::empty()
    }) + (if c.ladder {
        "+ladder"@
    } else {
        Seq::empty()
    }))
    &&& part[1] == "    "@ + c.size@ + "  @ "@ + c.place@
    &&& forced ==> part[2] == "    "@ + c.coefficients@
    &&& tagged ==> part.last() == "    tags: "@ + joined(views(c.tags@), ", "@)
}

/// The panel of colliders: one more collider is told behind those before it, with
/// the number of its place, and without any the user is told why.
pub proof fn law_collider_panel(
    visible: bool,
    all: &Vec<ColliderInfo>,
    r: Option<String>,
    parts: Seq<Seq<Seq<char>>>,
)
    requires
        call_ensures(update_collider_panel, (visible, all), r),
        parts.len() == all@.len() + 1,
        parts[0] == seq![
            "── Collidery (cyan=static  orange=dynamic  green=climbable  yellow=ladder) ──"@,
        ],
        forall|i: int|
            0 <= i < all@.len() ==> tells_collider(parts[i + 1], (i + 1) as nat, #[trigger] all@[i]),
    ensures
        r is Some <==> visible,
        r matches Some(text) ==> (all@.len() > 0 ==> text@ == joined(parts.flatten(), "\n"@)),
        r matches Some(text) ==> (all@.len() == 0 ==> text@
            == "── Collidery (cyan=static  orange=dynamic  green=climbable  yellow=ladder) ──\n(žádné DrawableCollision entity)\nModel vyžaduje .drawable nebo .adm manifest."@),
{
    lemma_collider_parts(parts[0], all@, parts);
    if all@.len() == 0 {
        reveal_strlit(
            "── Collidery (cyan=static  orange=dynamic  green=climbable  yellow=ladder) ──\n(žádné DrawableCollision entity)\nModel vyžaduje .drawable nebo .adm manifest.",
        );
        reveal_strlit(
            "── Collidery (cyan=static  orange=dynamic  green=climbable  yellow=ladder) ──",
        );
        reveal_strlit("(žádné DrawableCollision entity)");
        reveal_strlit("Model vyžaduje .drawable nebo .adm manifest.");
        reveal_strlit("\n");
        let lines = collider_lines(all@);
        reveal_with_fuel(joined, 4);
        assert(lines.drop_last().drop_last().len() == 1);
        assert(joined(lines, "\n"@)
            =~= "── Collidery (cyan=static  orange=dynamic  green=climbable  yellow=ladder) ──\n(žádné DrawableCollision entity)\nModel vyžaduje .drawable nebo .adm manifest."@);
    } else {
        assert(Seq::<Seq<char>>::empty().push(
            "── Collidery (cyan=static  orange=dynamic  green=climbable  yellow=ladder) ──"@,
        ) =~= parts[0]);
    }
}

proof fn lemma_collider_parts(
    head: Seq<Seq<char>>,
    all: Seq<ColliderInfo>,
    parts: Seq<Seq<Seq<char>>>,
)
    requires
        parts.len() == all.len() + 1,
        parts[0] == head,
        forall|i: int|
            0 <= i < all.len() ==> tells_collider(parts[i + 1], (i + 1) as nat, #[trigger] all[i]),
    ensures
        with_colliders(head, all) == parts.flatten(),
    decreases all.len(),
{
    if all.len() == 0 {
        assert(parts =~= seq![head]);
        parts.lemma_flatten_one_element();
    } else {
        let front = all.drop_last();
        let some = parts.drop_last();
        assert forall|i: int| 0 <= i < front.len() implies tells_collider(
            some[i + 1],
            (i + 1) as nat,
            #[trigger] front[i],
        ) by {
            assert(front[i] == all[i]);
        }
        lemma_collider_parts(head, front, some);
        let c = all[all.len() - 1];
        let part = parts[all.len() as int];
        assert(tells_collider(part, all.len(), c));
        let before = with_colliders(head, front);
        lemma_collider_part(before, all.len(), c, part);
        assert(parts =~= some.push(part));
        some.lemma_flatten_push(part);
    }
}

proof fn lemma_collider_part(lines: Seq<Seq<char>>, i: nat, c: ColliderInfo, part: Seq<Seq<char>>)
    requires
        tells_collider(part, i, c),
    ensures
        with_collider(lines, i, c) == lines + part,
{
    assert(part[0] == "["@ + decimal_digits(i) + "] "@ + shape_name(c.shape) + "  "@ + c.material@
        + "  "@ + kind_text(c));
    assert(with_collider(lines, i, c) =~= lines + part);
}

/// At first the camera looks at the origin from four metres away, the grid and the
/// overlay show, and the materials are clean.
pub proof fn law_viewer_start(camera: OrbitState, state: ViewerState, weather: WeatherState)
    requires
        call_ensures(OrbitState::default, (), camera),
        call_ensures(ViewerState::default, (), state),
        call_ensures(WeatherState::default, (), weather),
    ensures
        camera.yaw == scalar(0xbf00_0000) && camera.pitch == scalar(0x3ecc_cccd) && camera.distance
            == scalar(0x4080_0000),
        camera.focus.x == scalar(0) && camera.focus.y == scalar(0) && camera.focus.z == scalar(0),
        state.grid_visible && state.overlay_visible && !state.colliders_visible
            && !state.skeleton_visible,
        weather.preset_idx == 0 && weather.vcol_idx == 0,
{
}

} // verus!
