//! What players and objects look like: which of a player's figures is shown,
//! what the crosshair points at and which shape stands for an object.

use std::collections::{HashMap, HashSet};

use vstd::prelude::*;

use crate::gameplay::animation::{AnimationState, AnimationView};
use crate::hierarchy::{ancestor, first_marked, forest, nearest_marked, none_marked};
use crate::scalar::{kept_within, lifted, scalar, unit_color, Rgba, Scalar, ONE, ZERO};
use crate::text::{replace_char, replaced, same};

verus! {

broadcast use vstd::std_specs::hash::group_hash_axioms;

/// 0.001 m.
pub const MM_1: u32 = 0x3a83_126f;

/// 0.35 m and 1.80 m: the capsule of a player without a profile.
pub const STANDARD_RADIUS: u32 = 0x3eb3_3333;

pub const STANDARD_HEIGHT: u32 = 0x3fe6_6666;

/// 0.01 m, 0.05 m and 0.1 m: the least dimensions of drawn objects.
pub const CM_1: u32 = 0x3c23_d70a;

pub const CM_5: u32 = 0x3d4c_cccd;

pub const CM_10: u32 = 0x3dcc_cccd;

/// -0.99 and 0.99: bounds of the scattering asymmetry.
pub const ASYMMETRY_LOW: u32 = 0xbf7d_70a4;

pub const ASYMMETRY_HIGH: u32 = 0x3f7d_70a4;

/// A figure stands for its player: a predicted one always does, any other one
/// only while the player has none that is predicted.
pub open spec fn figure_shown(client: u64, is_predicted: bool, predicted: Set<u64>) -> bool {
    is_predicted || !predicted.contains(client)
}

/// A player is shown by exactly one kind of figure.
pub proof fn law_one_kind_of_figure(client: u64, predicted: Set<u64>)
    ensures
        predicted.contains(client) <==> !figure_shown(client, false, predicted),
        figure_shown(client, true, predicted),
{
}

/// Whether a player's figure gets a model: one of two figures of a player does
/// not where the other one is predicted.
pub fn attaches_model(
    client: u64,
    is_predicted: bool,
    predicted: &HashSet<u64>,
) -> (r: bool)
    ensures
        r == figure_shown(client, is_predicted, predicted@),
{
    is_predicted || !predicted.contains(&client)
}

/// The capsule of a character: its radius and its height.
#[derive(Clone, Copy, PartialEq, Eq, Structural, Debug)]
pub struct Capsule {
    pub radius: Scalar,
    pub height: Scalar,
}

/// The capsule of a player: that of its profile, else 0.35 m and 1.80 m.
pub fn player_capsule(profile: Option<Capsule>) -> (r: Capsule)
    ensures
        r == match profile {
            Some(c) => c,
            None => Capsule {
                radius: scalar(STANDARD_RADIUS),
                height: scalar(STANDARD_HEIGHT),
            },
        },
{
    match profile {
        Some(c) => c,
        None => Capsule { radius: scalar(STANDARD_RADIUS), height: scalar(STANDARD_HEIGHT) },
    }
}

/// The length of a capsule between its two caps: never less than a millimetre.
/// `between` is its height less its width.
pub fn capsule_body(between: Scalar) -> (r: Scalar)
    ensures
        r == between.larger(scalar(MM_1)),
{
    between.max(scalar(MM_1))
}

/// The figure of a player.
#[derive(Clone, Debug)]
pub struct PlayerFigure {
    pub model: String,
    pub path: String,
    /// What it plays at first; nothing where its profile has no idle clip.
    pub idle: Option<AnimationState>,
    pub anim_sets: Vec<String>,
}

/// What a clip plays as from the start.
pub open spec fn plays_from_start(state: AnimationState, clip: Seq<char>) -> bool {
    state@ == (AnimationView {
        current: Some(clip),
        speed: scalar(ONE),
        looping: true,
        paused: false,
        blend_time: scalar(ZERO),
        flags: 1,
    })
}

/// The figure that a new player gets: the model of the standard profile, else
/// that of the name `player`, with the idle clip of the profile for that model
/// and the animation sets of that model.
pub fn attach_player_model_to_new_players(
    profile_model: &Option<String>,
    idle_clip: &Option<String>,
    anim_sets: Option<Vec<String>>,
) -> (r: PlayerFigure)
    ensures
        r.model@ == match *profile_model {
            Some(m) => m@,
            None => "player"@,
        },
        r.path@ == "models/"@ + r.model@ + ".adm"@,
        r.idle is Some <==> (idle_clip matches Some(c) && c@.len() > 0),
        r.idle matches Some(state) ==> plays_from_start(state, idle_clip->0@),
        match anim_sets {
            Some(sets) => r.anim_sets == sets,
            None => r.anim_sets@.len() == 0,
        },
{
    let model = match profile_model {
        Some(m) => m.clone(),
        None => "player".to_string(),
    };
    let mut path = "models/".to_string();
    path.append(model.as_str());
    path.append(".adm");
    let mut idle: Option<AnimationState> = None;
    if let Some(clip) = idle_clip {
        if !clip.as_str().is_empty() {
            idle = Some(
                AnimationState {
                    current: Some(clip.clone()),
                    speed: scalar(ONE),
                    looping: true,
                    paused: false,
                    blend_time: scalar(ZERO),
                    flags: 1,
                },
            );
        }
    }
    let anim_sets = match anim_sets {
        Some(sets) => sets,
        None => Vec::new(),
    };
    PlayerFigure { model, path, idle, anim_sets }
}

/// How a figure follows the network.
#[derive(Clone, Copy, PartialEq, Eq, Structural, Debug)]
pub struct RenderSync {
    /// It moves toward its place; that of the local player only turns.
    pub moves: bool,
    /// It follows what the server confirmed, not what was predicted.
    pub confirmed: bool,
}

pub fn sync_net_transform_to_render(
    client: u64,
    local: Option<u64>,
    has_confirmed: bool,
) -> (r: RenderSync)
    ensures
        r.moves == (local != Some(client)),
        r.confirmed == has_confirmed,
{
    let is_local = match local {
        Some(id) => id == client,
        None => false,
    };
    RenderSync { moves: !is_local, confirmed: has_confirmed }
}

/// Whether a figure that is not predicted is visible: only while no predicted
/// one stands for its player.
pub fn prefer_predicted_player_visuals(client: u64, predicted: &HashSet<u64>) -> (r: bool)
    ensures
        r == figure_shown(client, false, predicted@),
{
    !predicted.contains(&client)
}

/// What the crosshair points at.
#[derive(Clone, Copy, PartialEq, Eq, Structural, Debug)]
pub struct CrosshairHit {
    pub handle: u64,
    pub distance: Scalar,
}

/// The handle under the crosshair: that of the entity hit or of its nearest
/// ancestor that has one.
pub fn update_crosshair_entity(
    hit: Option<(u64, Scalar)>,
    parents: &HashMap<u64, u64>,
    handled: &HashSet<u64>,
    handles: &HashMap<u64, u64>,
) -> (r: Option<CrosshairHit>)
    requires
        forest(parents@),
        handled@ == handles@.dom(),
    ensures
        match (hit, r) {
            (None, _) => r is None,
            (Some(h), None) => none_marked(parents@, handles@.dom(), h.0, 0),
            (Some(h), Some(c)) => c.distance == h.1 && exists|n: nat, e: u64|
                #[trigger] first_marked(parents@, handles@.dom(), h.0, 0, n, e) && c.handle
                    == handles@[e],
        },
{
    match hit {
        None => None,
        Some(h) => match nearest_marked(parents, handled, h.0) {
            None => None,
            Some(e) => {
                proof {
                    let n = choose|n: nat| first_marked(parents@, handled@, h.0, 0, n, e);
                    assert(first_marked(parents@, handles@.dom(), h.0, 0, n, e));
                    assert(handles@.contains_key(e));
                }
                match handles.get(&e) {
                    Some(handle) => Some(CrosshairHit { handle: *handle, distance: h.1 }),
                    None => None,
                }
            },
        },
    }
}

/// How the model of an object is loaded.
#[derive(Clone, Copy, PartialEq, Eq, Structural, Debug)]
pub enum ModelSource {
    /// As a native scene, on the object itself.
    Adm,
    /// As the first scene of a foreign file, below the object.
    Scene,
    /// Not at all: a cube stands for it.
    Fallback,
}

/// How the model of a local object is loaded, by the extension of its file.
pub fn local_object_source(extension: Option<String>) -> (r: ModelSource)
    ensures
        r == match extension {
            Some(e) => if e@ == "adm"@ {
                ModelSource::Adm
            } else {
                ModelSource::Scene
            },
            None => ModelSource::Fallback,
        },
{
    match extension {
        Some(e) => if same(e.as_str(), "adm") {
            ModelSource::Adm
        } else {
            ModelSource::Scene
        },
        None => ModelSource::Fallback,
    }
}

/// The path of an asset with forward slashes.
pub fn asset_path(path: &str) -> (r: String)
    ensures
        r@ == replaced(path@, '\\', "/"@),
{
    replace_char(path, '\\', "/")
}

/// The kinds of plain objects that scripts place.
#[derive(Clone, Copy, PartialEq, Eq, Structural, Debug)]
pub enum DummyPrimitiveKind {
    Cuboid,
    Cube,
    Sphere,
    Stairs,
    Arch,
    PointLight,
    SpotLight,
    DirectionalLight,
    FogVolume,
}

/// The kinds of light.
#[derive(Clone, Copy, PartialEq, Eq, Structural, Debug)]
pub enum RuntimeLightKind {
    Point,
    Spot,
    Directional,
}

/// A volume of fog.
#[derive(Clone, Copy, PartialEq, Eq, Structural, Debug)]
pub struct FogVolume {
    pub color: Rgba,
    pub density_factor: Scalar,
    pub absorption: Scalar,
    pub scattering: Scalar,
    pub scattering_asymmetry: Scalar,
    pub light_tint: Rgba,
    pub light_intensity: Scalar,
}

impl FogVolume {
    /// The volume with every value where it makes sense.
    pub open spec fn sane(self) -> FogVolume {
        FogVolume {
            color: self.color.in_unit(),
            density_factor: self.density_factor.larger(scalar(ZERO)),
            absorption: self.absorption.larger(scalar(ZERO)),
            scattering: self.scattering.larger(scalar(ZERO)),
            scattering_asymmetry: self.scattering_asymmetry.bounded(
                scalar(ASYMMETRY_LOW),
                scalar(ASYMMETRY_HIGH),
            ),
            light_tint: self.light_tint.in_unit(),
            light_intensity: self.light_intensity.larger(scalar(ZERO)),
        }
    }

    fn sanitised(self) -> (r: FogVolume)
        ensures
            r == self.sane(),
    {
        FogVolume {
            color: self.color.clamp_unit(),
            density_factor: self.density_factor.max(scalar(ZERO)),
            absorption: self.absorption.max(scalar(ZERO)),
            scattering: self.scattering.max(scalar(ZERO)),
            scattering_asymmetry: self.scattering_asymmetry.clamp(
                scalar(ASYMMETRY_LOW),
                scalar(ASYMMETRY_HIGH),
            ),
            light_tint: self.light_tint.clamp_unit(),
            light_intensity: self.light_intensity.max(scalar(ZERO)),
        }
    }
}

/// What scripts say of a plain object.
#[derive(Clone, Copy, PartialEq, Eq, Structural, Debug)]
pub struct DummyObject {
    pub kind: DummyPrimitiveKind,
    pub color: Rgba,
    pub size_x: Scalar,
    pub size_y: Scalar,
    pub size_z: Scalar,
    pub radius: Scalar,
    pub height: Scalar,
    pub steps: u32,
    pub segments: u32,
    pub has_light: bool,
    pub fog_volume: Option<FogVolume>,
}

/// The meshes of a plain object.
#[derive(Clone, Copy, PartialEq, Eq, Structural, Debug)]
pub enum DummyMesh {
    Cuboid { x: Scalar, y: Scalar, z: Scalar },
    Sphere { radius: Scalar },
    /// As many steps, each a cuboid, over the whole width, height and depth.
    Stairs { width: Scalar, height: Scalar, depth: Scalar, steps: u32 },
    /// As many segments, each a cuboid, along half a circle.
    Arch { width: Scalar, outer_radius: Scalar, thickness: Scalar, segments: u32 },
    Nothing,
}

/// How a plain object looks.
#[derive(Clone, Copy, PartialEq, Eq, Structural, Debug)]
pub struct DummyLook {
    /// Its own light is put on, rather than taken off.
    pub light: bool,
    pub fog: Option<FogVolume>,
    pub color: Rgba,
    pub mesh: DummyMesh,
    /// A light that nothing describes, and the kind assumed for it.
    pub undescribed_light: Option<RuntimeLightKind>,
}

impl DummyObject {
    pub open spec fn mesh(self) -> DummyMesh {
        match self.kind {
            DummyPrimitiveKind::Cuboid => DummyMesh::Cuboid {
                x: self.size_x.larger(scalar(CM_1)),
                y: self.size_y.larger(scalar(CM_1)),
                z: self.size_z.larger(scalar(CM_1)),
            },
            DummyPrimitiveKind::Cube => DummyMesh::Cuboid {
                x: self.size_x.larger(scalar(CM_1)),
                y: self.size_x.larger(scalar(CM_1)),
                z: self.size_x.larger(scalar(CM_1)),
            },
            DummyPrimitiveKind::Sphere => DummyMesh::Sphere {
                radius: self.radius.larger(scalar(CM_1)),
            },
            DummyPrimitiveKind::Stairs => DummyMesh::Stairs {
                width: self.size_x.larger(scalar(CM_5)),
                height: self.height.larger(scalar(CM_5)),
                depth: self.size_z.larger(scalar(CM_5)),
                steps: if self.steps == 0 {
                    1
                } else {
                    self.steps
                },
            },
            DummyPrimitiveKind::Arch => DummyMesh::Arch {
                width: self.size_x.larger(scalar(CM_5)),
                outer_radius: self.radius.larger(scalar(CM_10)),
                thickness: self.size_z.larger(scalar(CM_5)),
                segments: if self.segments < 3 {
                    3
                } else {
                    self.segments
                },
            },
            _ => DummyMesh::Nothing,
        }
    }

    pub open spec fn undescribed_light(self) -> Option<RuntimeLightKind> {
        if self.has_light {
            None
        } else {
            match self.kind {
                DummyPrimitiveKind::SpotLight => Some(RuntimeLightKind::Spot),
                DummyPrimitiveKind::DirectionalLight => Some(RuntimeLightKind::Directional),
                DummyPrimitiveKind::PointLight => Some(RuntimeLightKind::Point),
                _ => None,
            }
        }
    }

    pub open spec fn look(self) -> DummyLook {
        DummyLook {
            light: self.has_light,
            fog: match self.fog_volume {
                Some(f) => Some(f.sane()),
                None => None,
            },
            color: self.color.in_unit(),
            mesh: self.mesh(),
            undescribed_light: self.undescribed_light(),
        }
    }
}

/// Decides how a new plain object looks.
pub fn attach_mesh_to_dummy_objects(o: &DummyObject) -> (r: DummyLook)
    ensures
        r == o.look(),
{
    let mesh = match o.kind {
        DummyPrimitiveKind::Cuboid => DummyMesh::Cuboid {
            x: o.size_x.max(scalar(CM_1)),
            y: o.size_y.max(scalar(CM_1)),
            z: o.size_z.max(scalar(CM_1)),
        },
        DummyPrimitiveKind::Cube => {
            let s: Scalar = o.size_x.max(scalar(CM_1));
            DummyMesh::Cuboid { x: s, y: s, z: s }
        },
        DummyPrimitiveKind::Sphere => DummyMesh::Sphere { radius: o.radius.max(scalar(CM_1)) },
        DummyPrimitiveKind::Stairs => {
            let steps: u32 = if o.steps == 0 {
                1
            } else {
                o.steps
            };
            DummyMesh::Stairs {
                width: o.size_x.max(scalar(CM_5)),
                height: o.height.max(scalar(CM_5)),
                depth: o.size_z.max(scalar(CM_5)),
                steps,
            }
        },
        DummyPrimitiveKind::Arch => {
            let segments: u32 = if o.segments < 3 {
                3
            } else {
                o.segments
            };
            DummyMesh::Arch {
                width: o.size_x.max(scalar(CM_5)),
                outer_radius: o.radius.max(scalar(CM_10)),
                thickness: o.size_z.max(scalar(CM_5)),
                segments,
            }
        },
        _ => DummyMesh::Nothing,
    };
    let undescribed_light = if o.has_light {
        None
    } else {
        match o.kind {
            DummyPrimitiveKind::SpotLight => Some(RuntimeLightKind::Spot),
            DummyPrimitiveKind::DirectionalLight => Some(RuntimeLightKind::Directional),
            DummyPrimitiveKind::PointLight => Some(RuntimeLightKind::Point),
            _ => None,
        }
    };
    DummyLook {
        light: o.has_light,
        fog: match o.fog_volume {
            Some(f) => Some(f.sanitised()),
            None => None,
        },
        color: o.color.clamp_unit(),
        mesh,
        undescribed_light,
    }
}

/// Every mesh has parts to draw: at least one step, at least three segments,
/// and no dimension that is zero, negative or not a number.
pub proof fn law_mesh_has_extent(o: DummyObject)
    ensures
        match o.mesh() {
            DummyMesh::Cuboid { x, y, z } => scalar(ZERO).less(x) && scalar(ZERO).less(y)
                && scalar(ZERO).less(z),
            DummyMesh::Sphere { radius } => scalar(ZERO).less(radius),
            DummyMesh::Stairs { width, height, depth, steps } => steps >= 1 && scalar(ZERO).less(
                width,
            ) && scalar(ZERO).less(height) && scalar(ZERO).less(depth),
            DummyMesh::Arch { width, outer_radius, thickness, segments } => segments >= 3
                && scalar(ZERO).less(width) && scalar(ZERO).less(outer_radius) && scalar(ZERO).less(
                thickness,
            ),
            DummyMesh::Nothing => true,
        },
{
}

/// Lights and fog volumes have no mesh; everything else has one.
pub proof fn law_lights_have_no_mesh(o: DummyObject)
    ensures
        o.mesh() is Nothing <==> (o.kind is PointLight || o.kind is SpotLight
            || o.kind is DirectionalLight || o.kind is FogVolume),
{
}

/// A player is shown once: by the predicted figure where there is one, and by
/// the other one only where there is none.
pub proof fn law_figure_visible(
    client: u64,
    predicted: &HashSet<u64>,
    own: bool,
    other: bool,
    visible: bool,
)
    requires
        call_ensures(attaches_model, (client, true, predicted), own),
        call_ensures(attaches_model, (client, false, predicted), other),
        call_ensures(prefer_predicted_player_visuals, (client, predicted), visible),
    ensures
        own,
        other <==> !predicted@.contains(client),
        visible <==> !predicted@.contains(client),
{
}

/// A player's capsule is that of its profile, or 0.35 m wide and 1.80 m high, and
/// its body is a millimetre at least.
pub proof fn law_player_capsule(profile: Option<Capsule>, r: Capsule, between: Scalar, body: Scalar)
    requires
        call_ensures(player_capsule, (profile,), r),
        call_ensures(capsule_body, (between,), body),
    ensures
        profile matches Some(c) ==> r == c,
        profile is None ==> r.radius == scalar(0x3eb3_3333) && r.height == scalar(0x3fe6_6666),
        lifted(between, scalar(0x3a83_126f), body),
{
}

/// A new player's figure: the profile's model, else that of the name `player`,
/// from its file among the models, with its idle clip from the start.
pub proof fn law_new_figure(
    model: &Option<String>,
    idle: &Option<String>,
    sets: Option<Vec<String>>,
    r: PlayerFigure,
)
    requires
        call_ensures(attach_player_model_to_new_players, (model, idle, sets), r),
    ensures
        model matches Some(m) ==> r.model@ == m@ && r.path@ == "models/"@ + m@ + ".adm"@,
        model is None ==> r.model@ == "player"@ && r.path@ == "models/"@ + "player"@ + ".adm"@,
        idle is None ==> r.idle is None,
        idle matches Some(c) ==> (c@.len() == 0 ==> r.idle is None),
        idle matches Some(c) ==> (c@.len() > 0 ==> r.idle is Some && r.idle->0@.current == Some(c@)
            && r.idle->0@.looping && !r.idle->0@.paused && r.idle->0@.speed == scalar(0x3f80_0000)
            && r.idle->0@.blend_time == scalar(0) && r.idle->0@.flags == 1),
        sets matches Some(s) ==> r.anim_sets == s,
        sets is None ==> r.anim_sets@.len() == 0,
{
}

/// Every figure but the local player's moves toward its place, which is the
/// confirmed one where there is one.
pub proof fn law_render_sync(client: u64, local: Option<u64>, confirmed: bool, r: RenderSync)
    requires
        call_ensures(sync_net_transform_to_render, (client, local, confirmed), r),
    ensures
        local == Some(client) ==> !r.moves,
        local is None ==> r.moves,
        local matches Some(id) ==> (id != client ==> r.moves),
        r.confirmed == confirmed,
{
}

/// The crosshair names the handle of the nearest thing, at or above what it hits,
/// that has one, and tells how far the hit is.
pub proof fn law_crosshair(
    entity: u64,
    distance: Scalar,
    parents: &HashMap<u64, u64>,
    handled: &HashSet<u64>,
    handles: &HashMap<u64, u64>,
    r: Option<CrosshairHit>,
    near: Option<u64>,
    nothing: Option<CrosshairHit>,
)
    requires
        call_ensures(
            update_crosshair_entity,
            (Some((entity, distance)), parents, handled, handles),
            r,
        ),
        call_ensures(update_crosshair_entity, (None, parents, handled, handles), nothing),
        handled@ == handles@.dom(),
        call_ensures(nearest_marked, (parents, handled, entity), near),
    ensures
        nothing is None,
        r is Some <==> near is Some,
        r is Some ==> r->0.distance == distance && r->0.handle == handles@[near->0],
{
    let p = parents@;
    let m = handles@.dom();
    if near is Some {
        let n = choose|n: nat| first_marked(p, m, entity, 0, n, near->0);
        assert(ancestor(p, entity, n) == Some(near->0));
        if r is Some {
            let (k, e) = choose|k: nat, e: u64|
                #[trigger] first_marked(p, m, entity, 0, k, e) && r->0.handle == handles@[e];
            if k < n {
                assert(ancestor(p, entity, k) == Some(e));
                assert(false);
            }
            if n < k {
                assert(ancestor(p, entity, n) == Some(near->0));
                assert(false);
            }
        }
    } else if r is Some {
        let (k, e) = choose|k: nat, e: u64|
            #[trigger] first_marked(p, m, entity, 0, k, e) && r->0.handle == handles@[e];
        assert(ancestor(p, entity, k) == Some(e));
        assert(false);
    }
}

/// A native file is loaded as it is, any other one as a scene, and an object
/// without a file shows a cube.
pub proof fn law_object_source(extension: Option<String>, r: ModelSource)
    requires
        call_ensures(local_object_source, (extension,), r),
    ensures
        extension is None <==> r is Fallback,
        extension matches Some(e) ==> (r is Adm <==> e@ == "adm"@),
        extension matches Some(e) ==> (r is Scene <==> e@ != "adm"@),
{
}

/// The look of a plain object: its own dimensions, each above its least, its
/// color and its fog in bounds, and no mesh for lights and fog.
pub proof fn law_dummy_look(o: &DummyObject, r: DummyLook)
    requires
        call_ensures(attach_mesh_to_dummy_objects, (o,), r),
    ensures
        r.light == o.has_light,
        unit_color(o.color, r.color),
        r.mesh is Nothing <==> o.kind is PointLight || o.kind is SpotLight
            || o.kind is DirectionalLight || o.kind is FogVolume,
        o.kind is Cuboid ==> (r.mesh matches DummyMesh::Cuboid { x, y, z } && lifted(
            o.size_x,
            scalar(0x3c23_d70a),
            x,
        ) && lifted(o.size_y, scalar(0x3c23_d70a), y) && lifted(o.size_z, scalar(0x3c23_d70a), z)),
        o.kind is Cube ==> (r.mesh matches DummyMesh::Cuboid { x, y, z } && lifted(
            o.size_x,
            scalar(0x3c23_d70a),
            x,
        ) && x == y && y == z),
        o.kind is Sphere ==> (r.mesh matches DummyMesh::Sphere { radius } && lifted(
            o.radius,
            scalar(0x3c23_d70a),
            radius,
        )),
        o.kind is Stairs ==> (r.mesh matches DummyMesh::Stairs { width, height, depth, steps }
            && lifted(o.size_x, scalar(0x3d4c_cccd), width) && lifted(
            o.height,
            scalar(0x3d4c_cccd),
            height,
        ) && lifted(o.size_z, scalar(0x3d4c_cccd), depth) && (o.steps > 0 ==> steps == o.steps) && (
        o.steps == 0 ==> steps == 1)),
        o.kind is Arch ==> (r.mesh matches DummyMesh::Arch {
            width,
            outer_radius,
            thickness,
            segments,
        } && lifted(o.size_x, scalar(0x3d4c_cccd), width) && lifted(
            o.radius,
            scalar(0x3dcc_cccd),
            outer_radius,
        ) && lifted(o.size_z, scalar(0x3d4c_cccd), thickness) && (o.segments >= 3 ==> segments
            == o.segments) && (o.segments < 3 ==> segments == 3)),
        r.undescribed_light is Some <==> !o.has_light && (o.kind is PointLight || o.kind is SpotLight
            || o.kind is DirectionalLight),
        r.undescribed_light == Some(RuntimeLightKind::Point) ==> o.kind is PointLight,
        r.undescribed_light == Some(RuntimeLightKind::Spot) ==> o.kind is SpotLight,
        r.undescribed_light == Some(RuntimeLightKind::Directional) ==> o.kind is DirectionalLight,
{
}

/// The fog of a plain object keeps its values where they make sense.
pub proof fn law_dummy_fog(o: &DummyObject, r: DummyLook)
    requires
        call_ensures(attach_mesh_to_dummy_objects, (o,), r),
    ensures
        r.fog is Some <==> o.fog_volume is Some,
        r.fog is Some ==> {
            let f = r.fog->0;
            let given = o.fog_volume->0;
            &&& unit_color(given.color, f.color)
            &&& lifted(given.density_factor, scalar(0), f.density_factor)
            &&& lifted(given.absorption, scalar(0), f.absorption)
            &&& lifted(given.scattering, scalar(0), f.scattering)
            &&& kept_within(
                given.scattering_asymmetry,
                scalar(0xbf7d_70a4),
                scalar(0x3f7d_70a4),
                f.scattering_asymmetry,
            )
            &&& unit_color(given.light_tint, f.light_tint)
            &&& lifted(given.light_intensity, scalar(0), f.light_intensity)
        },
{
}

} // verus!
