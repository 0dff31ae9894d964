//! Materials of models: what a manifest makes of the nodes of a scene.

use vstd::prelude::*;

use crate::names::{holds, views};
use crate::physics::CollisionShape;
use crate::scalar::{scalar, Rgba, Scalar, ONE, ZERO};
use crate::streaming::text_of;
use crate::text::same;

verus! {

/// The roughness of a solid surface (0.5).
pub const SOLID_ROUGHNESS: u32 = 0x3f00_0000;

/// The roughness of glass (0.05).
pub const GLASS_ROUGHNESS: u32 = 0x3d4c_cccd;

/// The opacity of glass without a tint (0.3).
pub const GLASS_OPACITY: u32 = 0x3e99_999a;

/// The red of glass without a tint (0.9).
pub const GLASS_RED: u32 = 0x3f66_6666;

/// The green of glass without a tint (0.95).
pub const GLASS_GREEN: u32 = 0x3f73_3333;

/// Where a texture comes from.
#[derive(Clone, Copy, PartialEq, Eq, Structural, Debug)]
pub enum TextureSource {
    /// A texture of all models, loaded once.
    Shared,
    /// A texture inside the model's file.
    Embedded,
}

#[derive(Clone, Debug)]
pub struct TextureInfo {
    pub name: String,
    pub source: TextureSource,
}

/// A texture and the slot of the material that it fills.
#[derive(Clone, Debug)]
pub struct TextureSlot {
    pub slot: String,
    pub info: TextureInfo,
}

#[derive(Clone, Debug)]
pub struct MaterialParams {
    pub tint: Option<Rgba>,
    pub tiling: Option<Scalar>,
    pub l0_tiling: Option<Scalar>,
    pub l1_tiling: Option<Scalar>,
    pub porosity: Option<Scalar>,
    pub wetness: Option<Scalar>,
    pub snow_level: Option<Scalar>,
    pub dirt_level: Option<Scalar>,
    /// `OPAQUE`, `CLIP`, `BLEND` or `HASHED`.
    pub opacity_mode: Option<String>,
    /// The bound of `CLIP`; it counts only beside an `mb` texture.
    pub alpha_threshold: Option<Scalar>,
}

impl Default for MaterialParams {
    fn default() -> (r: Self)
        ensures
            r.tint is None,
            r.tiling is None,
            r.l0_tiling is None,
            r.l1_tiling is None,
            r.porosity is None,
            r.wetness is None,
            r.snow_level is None,
            r.dirt_level is None,
            r.opacity_mode is None,
            r.alpha_threshold is None,
    {
        MaterialParams {
            tint: None,
            tiling: None,
            l0_tiling: None,
            l1_tiling: None,
            porosity: None,
            wetness: None,
            snow_level: None,
            dirt_level: None,
            opacity_mode: None,
            alpha_threshold: None,
        }
    }
}

/// A material of a manifest. Each slot stands in the list once.
#[derive(Clone, Debug)]
pub struct MaterialDef {
    pub template: String,
    pub textures: Vec<TextureSlot>,
    pub params: MaterialParams,
}

/// What a node of a scene is.
#[derive(Clone, Debug)]
pub enum EntityDef {
    MESH { cast_shadows: bool },
    COLLISION {
        shape: CollisionShape,
        mass: Scalar,
        is_static: bool,
        friction: Scalar,
        restitution: Scalar,
        tags: Vec<String>,
    },
}

#[derive(Clone, Debug)]
pub struct NamedMaterial {
    pub name: String,
    pub def: MaterialDef,
}

#[derive(Clone, Debug)]
pub struct NamedEntity {
    pub name: String,
    pub def: EntityDef,
}

/// The materials and nodes of a model. Each name stands in its list once.
#[derive(Clone, Debug)]
pub struct DrawableManifest {
    pub asset_name: String,
    pub version: String,
    pub materials: Vec<NamedMaterial>,
    pub entities: Vec<NamedEntity>,
}

/// Four numbers for a shader.
#[derive(Clone, Copy, PartialEq, Eq, Structural, Debug)]
pub struct Quad {
    pub x: Scalar,
    pub y: Scalar,
    pub z: Scalar,
    pub w: Scalar,
}

/// What a shader gets of a material: its tint, the weather on it (snow, dirt,
/// wetness, porosity), and how often its layers repeat.
#[derive(Clone, Copy, PartialEq, Eq, Structural, Debug)]
pub struct DrawableParams {
    pub tint: Rgba,
    pub weather: Quad,
    pub tiling: Quad,
}

pub open spec fn or_else(x: Option<Scalar>, standard: Scalar) -> Scalar {
    match x {
        Some(v) => v,
        None => standard,
    }
}

pub open spec fn white() -> Rgba {
    Rgba { r: scalar(ONE), g: scalar(ONE), b: scalar(ONE), a: scalar(ONE) }
}

/// What a shader gets for the parameters of a material.
pub open spec fn params_of(p: MaterialParams) -> DrawableParams {
    DrawableParams {
        tint: match p.tint {
            Some(t) => t,
            None => white(),
        },
        weather: Quad {
            x: or_else(p.snow_level, scalar(ZERO)),
            y: or_else(p.dirt_level, scalar(ZERO)),
            z: or_else(p.wetness, scalar(ZERO)),
            w: or_else(p.porosity, scalar(ZERO)),
        },
        tiling: Quad {
            x: or_else(p.tiling, scalar(ONE)),
            y: or_else(p.l0_tiling, scalar(ONE)),
            z: or_else(p.l1_tiling, scalar(ONE)),
            w: scalar(ZERO),
        },
    }
}

/// Parameters that change nothing: a white tint, no weather, no repetition.
pub open spec fn neutral_params() -> DrawableParams {
    DrawableParams {
        tint: white(),
        weather: Quad { x: scalar(ZERO), y: scalar(ZERO), z: scalar(ZERO), w: scalar(ZERO) },
        tiling: Quad { x: scalar(ONE), y: scalar(ONE), z: scalar(ONE), w: scalar(ZERO) },
    }
}

impl Default for DrawableParams {
    fn default() -> (r: Self)
        ensures
            r == neutral_params(),
    {
        DrawableParams {
            tint: Rgba { r: scalar(ONE), g: scalar(ONE), b: scalar(ONE), a: scalar(ONE) },
            weather: Quad { x: scalar(ZERO), y: scalar(ZERO), z: scalar(ZERO), w: scalar(ZERO) },
            tiling: Quad { x: scalar(ONE), y: scalar(ONE), z: scalar(ONE), w: scalar(ZERO) },
        }
    }
}

fn value_or(x: Option<Scalar>, standard: Scalar) -> (r: Scalar)
    ensures
        r == or_else(x, standard),
{
    match x {
        Some(v) => v,
        None => standard,
    }
}

pub fn build_params(p: &MaterialParams) -> (r: DrawableParams)
    ensures
        r == params_of(*p),
{
    DrawableParams {
        tint: match p.tint {
            Some(t) => t,
            None => Rgba { r: scalar(ONE), g: scalar(ONE), b: scalar(ONE), a: scalar(ONE) },
        },
        weather: Quad {
            x: value_or(p.snow_level, scalar(ZERO)),
            y: value_or(p.dirt_level, scalar(ZERO)),
            z: value_or(p.wetness, scalar(ZERO)),
            w: value_or(p.porosity, scalar(ZERO)),
        },
        tiling: Quad {
            x: value_or(p.tiling, scalar(ONE)),
            y: value_or(p.l0_tiling, scalar(ONE)),
            z: value_or(p.l1_tiling, scalar(ONE)),
            w: scalar(ZERO),
        },
    }
}

/// Parameters that a manifest leaves out have no effect.
pub proof fn law_absent_params_are_neutral(p: MaterialParams)
    requires
        p.tint is None,
        p.tiling is None,
        p.l0_tiling is None,
        p.l1_tiling is None,
        p.porosity is None,
        p.wetness is None,
        p.snow_level is None,
        p.dirt_level is None,
    ensures
        params_of(p) == neutral_params(),
{
}

/// The texture that a material gets.
#[derive(Clone, Debug)]
pub enum TexturePick {
    /// The shared texture of this name.
    Shared(String),
    /// The image of this number inside the model's file.
    Embedded(usize),
}

/// The number of the last image of a name.
pub open spec fn image_named(images: Seq<Option<String>>, name: Seq<char>) -> Option<int>
    decreases images.len(),
{
    if images.len() == 0 {
        None
    } else {
        match images.last() {
            Some(n) if n@ == name => Some(images.len() - 1),
            _ => image_named(images.drop_last(), name),
        }
    }
}

/// `pick` is what a texture resolves to: an embedded one that the file lacks
/// comes from the shared ones.
pub open spec fn resolves(
    info: TextureInfo,
    images: Seq<Option<String>>,
    pick: TexturePick,
) -> bool {
    match pick {
        TexturePick::Embedded(i) => info.source == TextureSource::Embedded && image_named(
            images,
            info.name@,
        ) == Some(i as int),
        TexturePick::Shared(name) => name@ == info.name@ && (info.source == TextureSource::Shared
            || image_named(images, info.name@) is None),
    }
}

fn find_image(images: &Vec<Option<String>>, name: &str) -> (r: Option<usize>)
    ensures
        match r {
            Some(i) => image_named(images@, name@) == Some(i as int),
            None => image_named(images@, name@) is None,
        },
{
    let mut i: usize = images.len();
    assert(images@.take(i as int) =~= images@);
    while i > 0
        invariant
            i <= images.len(),
            image_named(images@, name@) == image_named(images@.take(i as int), name@),
        decreases i,
    {
        proof {
            assert(images@.take(i as int).last() == images@[i - 1]);
            assert(images@.take(i as int).drop_last() =~= images@.take(i - 1));
        }
        match &images[i - 1] {
            Some(n) => {
                if same(n.as_str(), name) {
                    return Some(i - 1);
                }
            },
            None => {},
        }
        i = i - 1;
    }
    None
}

pub fn resolve_tex(info: &TextureInfo, images: &Vec<Option<String>>) -> (r: TexturePick)
    ensures
        resolves(*info, images@, r),
{
    match info.source {
        TextureSource::Shared => TexturePick::Shared(info.name.clone()),
        TextureSource::Embedded => match find_image(images, info.name.as_str()) {
            Some(i) => TexturePick::Embedded(i),
            None => TexturePick::Shared(info.name.clone()),
        },
    }
}

/// The index of the entry of a slot, or the length.
pub open spec fn slot_index(textures: Seq<TextureSlot>, slot: Seq<char>) -> int
    decreases textures.len(),
{
    if textures.len() == 0 || textures[0].slot@ == slot {
        0
    } else {
        1 + slot_index(textures.drop_first(), slot)
    }
}

/// `pick` is the texture of a slot of the material; there is none exactly where
/// the material does not name the slot.
pub open spec fn picked(
    def: MaterialDef,
    slot: Seq<char>,
    images: Seq<Option<String>>,
    pick: Option<TexturePick>,
) -> bool {
    let i = slot_index(def.textures@, slot);
    match pick {
        Some(p) => i < def.textures@.len() && resolves(def.textures@[i].info, images, p),
        None => i >= def.textures@.len(),
    }
}

/// The material has a texture in the slot.
pub open spec fn has_slot(def: MaterialDef, slot: Seq<char>) -> bool {
    slot_index(def.textures@, slot) < def.textures@.len()
}

fn find_slot(def: &MaterialDef, slot: &str) -> (r: Option<usize>)
    ensures
        match r {
            Some(i) => i < def.textures.len() && i == slot_index(def.textures@, slot@),
            None => !has_slot(*def, slot@),
        },
{
    let t = &def.textures;
    let mut i: usize = 0;
    assert(t@.skip(0) =~= t@);
    while i < t.len()
        invariant
            t@ == def.textures@,
            i <= t.len(),
            slot_index(t@, slot@) == i + slot_index(t@.skip(i as int), slot@),
        decreases t.len() - i,
    {
        assert(t@.skip(i as int)[0] == t@[i as int]);
        if same(t[i].slot.as_str(), slot) {
            return Some(i);
        }
        assert(t@.skip(i as int).drop_first() =~= t@.skip(i + 1));
        i = i + 1;
    }
    None
}

fn pick_texture(def: &MaterialDef, slot: &str, images: &Vec<Option<String>>) -> (r: Option<
    TexturePick,
>)
    ensures
        picked(*def, slot@, images@, r),
{
    match find_slot(def, slot) {
        Some(i) => Some(resolve_tex(&def.textures[i].info, images)),
        None => None,
    }
}

/// The templates of materials.
#[derive(Clone, Copy, PartialEq, Eq, Structural, Debug)]
pub enum Template {
    StandardPbr,
    LayeredEnv,
    VehicleGlass,
}

/// How a material treats what shows through it.
#[derive(Clone, Copy, PartialEq, Eq, Structural, Debug)]
pub enum AlphaMode {
    Opaque,
    /// What is fainter than the bound is left out; without one the engine's own
    /// bound stands.
    Clip(Option<Scalar>),
    Blend,
}

/// What an opacity mode asks for, with the bound of `CLIP`. A material that
/// names none of these three, `HASHED` among them, keeps to its template.
pub open spec fn alpha_asked(mode: Option<Seq<char>>, threshold: Option<Scalar>) -> Option<
    AlphaMode,
> {
    if mode == Some("OPAQUE"@) {
        Some(AlphaMode::Opaque)
    } else if mode == Some("CLIP"@) {
        Some(AlphaMode::Clip(threshold))
    } else if mode == Some("BLEND"@) {
        Some(AlphaMode::Blend)
    } else {
        None
    }
}

/// What an opacity mode asks for, with the bound of `CLIP`.
pub fn alpha_mode(mode: &Option<String>, threshold: Option<Scalar>) -> (r: Option<AlphaMode>)
    ensures
        r == alpha_asked(text_of(*mode), threshold),
{
    match mode {
        Some(m) => {
            if same(m.as_str(), "OPAQUE") {
                Some(AlphaMode::Opaque)
            } else if same(m.as_str(), "CLIP") {
                Some(AlphaMode::Clip(threshold))
            } else if same(m.as_str(), "BLEND") {
                Some(AlphaMode::Blend)
            } else {
                None
            }
        },
        None => None,
    }
}

/// The alpha mode of a material whose template is `usual` by itself. The bound
/// counts only beside an `mb` texture.
pub open spec fn alpha_of(def: MaterialDef, usual: AlphaMode) -> AlphaMode {
    let threshold = if has_slot(def, "mb"@) {
        def.params.alpha_threshold
    } else {
        None
    };
    match alpha_asked(text_of(def.params.opacity_mode), threshold) {
        Some(mode) => mode,
        None => usual,
    }
}

fn choose_alpha(def: &MaterialDef, usual: AlphaMode) -> (r: AlphaMode)
    ensures
        r == alpha_of(*def, usual),
{
    let threshold = if find_slot(def, "mb").is_some() {
        def.params.alpha_threshold
    } else {
        None
    };
    match alpha_mode(&def.params.opacity_mode, threshold) {
        Some(mode) => mode,
        None => usual,
    }
}

/// A material to make. The metallic part is zero in all of them; a missing base
/// color leaves the engine's own.
#[derive(Clone, Debug)]
pub struct MaterialPlan {
    pub template: Template,
    pub albedo: Option<TexturePick>,
    pub normal: Option<TexturePick>,
    /// Fills both the metallic and roughness slot and the occlusion slot.
    pub mrao: Option<TexturePick>,
    pub palette: Option<TexturePick>,
    pub snow: Option<TexturePick>,
    pub layer1_albedo: Option<TexturePick>,
    pub layer1_normal: Option<TexturePick>,
    pub base_color: Option<Rgba>,
    pub roughness: Scalar,
    pub alpha: AlphaMode,
    /// Drawn from both sides.
    pub double_sided: bool,
    pub params: DrawableParams,
}

/// `r` is what a material becomes under the standard template.
pub open spec fn is_standard_pbr(r: MaterialPlan, def: MaterialDef, images: Seq<Option<String>>) -> bool {
    &&& r.template == Template::StandardPbr
    &&& picked(def, "albedo"@, images, r.albedo)
    &&& picked(def, "mrao"@, images, r.mrao)
    &&& picked(def, "normal"@, images, r.normal)
    &&& picked(def, "palette"@, images, r.palette)
    &&& picked(def, "snow"@, images, r.snow)
    &&& r.layer1_albedo is None
    &&& r.layer1_normal is None
    &&& r.base_color == def.params.tint
    &&& r.roughness == scalar(SOLID_ROUGHNESS)
    &&& r.alpha == alpha_of(def, AlphaMode::Opaque)
    &&& !r.double_sided
    &&& r.params == params_of(def.params)
}

/// `r` is what a material becomes under the layered template.
pub open spec fn is_layered_env(r: MaterialPlan, def: MaterialDef, images: Seq<Option<String>>) -> bool {
    &&& r.template == Template::LayeredEnv
    &&& picked(def, "albedo"@, images, r.albedo)
    &&& picked(def, "mrao"@, images, r.mrao)
    &&& picked(def, "normal"@, images, r.normal)
    &&& picked(def, "layer1_albedo"@, images, r.layer1_albedo)
    &&& picked(def, "layer1_normal"@, images, r.layer1_normal)
    &&& r.palette is None
    &&& r.snow is None
    &&& r.base_color == def.params.tint
    &&& r.roughness == scalar(SOLID_ROUGHNESS)
    &&& r.alpha == alpha_of(def, AlphaMode::Opaque)
    &&& !r.double_sided
    &&& r.params == params_of(def.params)
}

/// The color of glass: its tint, or a faint blue.
pub open spec fn glass_color(p: MaterialParams) -> Rgba {
    match p.tint {
        Some(t) => t,
        None => Rgba {
            r: scalar(GLASS_RED),
            g: scalar(GLASS_GREEN),
            b: scalar(ONE),
            a: scalar(GLASS_OPACITY),
        },
    }
}

/// `r` is what a material becomes under the glass template.
pub open spec fn is_vehicle_glass(r: MaterialPlan, def: MaterialDef, images: Seq<Option<String>>) -> bool {
    &&& r.template == Template::VehicleGlass
    &&& picked(def, "albedo"@, images, r.albedo)
    &&& picked(def, "normal"@, images, r.normal)
    &&& r.mrao is None
    &&& r.palette is None
    &&& r.snow is None
    &&& r.layer1_albedo is None
    &&& r.layer1_normal is None
    &&& r.base_color == Some(glass_color(def.params))
    &&& r.roughness == scalar(GLASS_ROUGHNESS)
    &&& r.alpha == alpha_of(def, AlphaMode::Blend)
    &&& r.double_sided
    &&& r.params == params_of(def.params)
}

pub fn build_standard_pbr(def: &MaterialDef, images: &Vec<Option<String>>) -> (r: MaterialPlan)
    ensures
        is_standard_pbr(r, *def, images@),
{
    MaterialPlan {
        template: Template::StandardPbr,
        albedo: pick_texture(def, "albedo", images),
        normal: pick_texture(def, "normal", images),
        mrao: pick_texture(def, "mrao", images),
        palette: pick_texture(def, "palette", images),
        snow: pick_texture(def, "snow", images),
        layer1_albedo: None,
        layer1_normal: None,
        base_color: def.params.tint,
        roughness: scalar(SOLID_ROUGHNESS),
        alpha: choose_alpha(def, AlphaMode::Opaque),
        double_sided: false,
        params: build_params(&def.params),
    }
}

pub fn build_layered_env(def: &MaterialDef, images: &Vec<Option<String>>) -> (r: MaterialPlan)
    ensures
        is_layered_env(r, *def, images@),
{
    MaterialPlan {
        template: Template::LayeredEnv,
        albedo: pick_texture(def, "albedo", images),
        normal: pick_texture(def, "normal", images),
        mrao: pick_texture(def, "mrao", images),
        palette: None,
        snow: None,
        layer1_albedo: pick_texture(def, "layer1_albedo", images),
        layer1_normal: pick_texture(def, "layer1_normal", images),
        base_color: def.params.tint,
        roughness: scalar(SOLID_ROUGHNESS),
        alpha: choose_alpha(def, AlphaMode::Opaque),
        double_sided: false,
        params: build_params(&def.params),
    }
}

pub fn build_vehicle_glass(def: &MaterialDef, images: &Vec<Option<String>>) -> (r: MaterialPlan)
    ensures
        is_vehicle_glass(r, *def, images@),
{
    let color = match def.params.tint {
        Some(t) => t,
        None => Rgba {
            r: scalar(GLASS_RED),
            g: scalar(GLASS_GREEN),
            b: scalar(ONE),
            a: scalar(GLASS_OPACITY),
        },
    };
    MaterialPlan {
        template: Template::VehicleGlass,
        albedo: pick_texture(def, "albedo", images),
        normal: pick_texture(def, "normal", images),
        mrao: None,
        palette: None,
        snow: None,
        layer1_albedo: None,
        layer1_normal: None,
        base_color: Some(color),
        roughness: scalar(GLASS_ROUGHNESS),
        alpha: choose_alpha(def, AlphaMode::Blend),
        double_sided: true,
        params: build_params(&def.params),
    }
}

/// A node of a scene: its name, the name of its material, and whether it has a
/// mesh and that mesh colors for its vertices.
#[derive(Clone, Debug)]
pub struct SceneNode {
    pub name: Option<String>,
    pub material: Option<String>,
    pub has_mesh: bool,
    pub has_colors: bool,
}

/// What happens to a node.
#[derive(Clone, Debug)]
pub enum NodePlan {
    /// The manifest says nothing of it.
    Untouched,
    /// A collider: it is not seen.
    Hidden,
    Mesh(MeshPlan),
}

#[derive(Clone, Debug)]
pub struct MeshPlan {
    /// The mesh gets the neutral color, zero in every part, for each vertex.
    pub neutral_colors: bool,
    /// Takes the place of the material that the file gave.
    pub material: Option<MaterialPlan>,
    pub no_shadow: bool,
}

/// The index of the material of a name, or the length.
pub open spec fn material_index(materials: Seq<NamedMaterial>, name: Seq<char>) -> int
    decreases materials.len(),
{
    if materials.len() == 0 || materials[0].name@ == name {
        0
    } else {
        1 + material_index(materials.drop_first(), name)
    }
}

/// The index of the entity of a name, or the length.
pub open spec fn entity_index(entities: Seq<NamedEntity>, name: Seq<char>) -> int
    decreases entities.len(),
{
    if entities.len() == 0 || entities[0].name@ == name {
        0
    } else {
        1 + entity_index(entities.drop_first(), name)
    }
}

pub open spec fn text_or_empty(s: Option<String>) -> Seq<char> {
    match s {
        Some(t) => t@,
        None => Seq::empty(),
    }
}

/// `plan` is the material of a mesh node: that of its name in the manifest,
/// where its template is known.
pub open spec fn has_material(
    plan: Option<MaterialPlan>,
    node: SceneNode,
    manifest: DrawableManifest,
    images: Seq<Option<String>>,
) -> bool {
    let i = material_index(manifest.materials@, text_or_empty(node.material));
    if i >= manifest.materials@.len() {
        plan is None
    } else {
        let def = manifest.materials@[i].def;
        if def.template@ == "standard_pbr"@ {
            plan matches Some(m) && is_standard_pbr(m, def, images)
        } else if def.template@ == "layered_env"@ {
            plan matches Some(m) && is_layered_env(m, def, images)
        } else if def.template@ == "vehicle_glass"@ {
            plan matches Some(m) && is_vehicle_glass(m, def, images)
        } else {
            plan is None
        }
    }
}

/// `plan` is what happens to a mesh node.
pub open spec fn is_mesh_plan(
    plan: MeshPlan,
    node: SceneNode,
    cast_shadows: bool,
    manifest: DrawableManifest,
    images: Seq<Option<String>>,
) -> bool {
    &&& plan.neutral_colors == (node.has_mesh && !node.has_colors)
    &&& has_material(plan.material, node, manifest, images)
    &&& plan.no_shadow == (plan.material is Some && !cast_shadows)
}

/// `plan` is what happens to a node.
pub open spec fn is_node_plan(
    plan: NodePlan,
    node: SceneNode,
    manifest: DrawableManifest,
    images: Seq<Option<String>>,
) -> bool {
    match node.name {
        None => plan is Untouched,
        Some(name) => {
            let i = entity_index(manifest.entities@, name@);
            if i >= manifest.entities@.len() {
                plan is Untouched
            } else {
                match manifest.entities@[i].def {
                    EntityDef::MESH { cast_shadows } => plan matches NodePlan::Mesh(m)
                        && is_mesh_plan(m, node, cast_shadows, manifest, images),
                    EntityDef::COLLISION { .. } => plan is Hidden,
                }
            }
        },
    }
}

fn find_material(materials: &Vec<NamedMaterial>, name: &str) -> (r: usize)
    ensures
        r == material_index(materials@, name@),
        r <= materials@.len(),
{
    let mut i: usize = 0;
    assert(materials@.skip(0) =~= materials@);
    while i < materials.len()
        invariant
            i <= materials.len(),
            material_index(materials@, name@) == i + material_index(
                materials@.skip(i as int),
                name@,
            ),
        decreases materials.len() - i,
    {
        assert(materials@.skip(i as int)[0] == materials@[i as int]);
        if same(materials[i].name.as_str(), name) {
            return i;
        }
        assert(materials@.skip(i as int).drop_first() =~= materials@.skip(i + 1));
        i = i + 1;
    }
    i
}

fn find_entity(entities: &Vec<NamedEntity>, name: &str) -> (r: usize)
    ensures
        r == entity_index(entities@, name@),
        r <= entities@.len(),
{
    let mut i: usize = 0;
    assert(entities@.skip(0) =~= entities@);
    while i < entities.len()
        invariant
            i <= entities.len(),
            entity_index(entities@, name@) == i + entity_index(entities@.skip(i as int), name@),
        decreases entities.len() - i,
    {
        assert(entities@.skip(i as int)[0] == entities@[i as int]);
        if same(entities[i].name.as_str(), name) {
            return i;
        }
        assert(entities@.skip(i as int).drop_first() =~= entities@.skip(i + 1));
        i = i + 1;
    }
    i
}

/// What happens to a mesh node.
pub fn process_mesh_node(
    node: &SceneNode,
    cast_shadows: bool,
    manifest: &DrawableManifest,
    images: &Vec<Option<String>>,
) -> (r: MeshPlan)
    ensures
        is_mesh_plan(r, *node, cast_shadows, *manifest, images@),
{
    let name = match &node.material {
        Some(m) => m.clone(),
        None => String::new(),
    };
    assert(name@ =~= text_or_empty(node.material));
    let neutral_colors = node.has_mesh && !node.has_colors;
    let i: usize = find_material(&manifest.materials, name.as_str());
    if i >= manifest.materials.len() {
        return MeshPlan { neutral_colors, material: None, no_shadow: false };
    }
    let def = &manifest.materials[i].def;
    let template = def.template.as_str();
    let material = if same(template, "standard_pbr") {
        Some(build_standard_pbr(def, images))
    } else if same(template, "layered_env") {
        Some(build_layered_env(def, images))
    } else if same(template, "vehicle_glass") {
        Some(build_vehicle_glass(def, images))
    } else {
        None
    };
    let no_shadow = material.is_some() && !cast_shadows;
    MeshPlan { neutral_colors, material, no_shadow }
}

/// What happens to the nodes of a scene. Nothing does while its manifest is not
/// loaded or the scene is not there; afterwards it is done for good.
pub fn hook_drawable_scenes(
    manifest: &Option<DrawableManifest>,
    scene_ready: bool,
    images: &Vec<Option<String>>,
    nodes: &Vec<SceneNode>,
) -> (r: Option<Vec<NodePlan>>)
    ensures
        r is Some <==> manifest is Some && scene_ready,
        r matches Some(plans) ==> plans@.len() == nodes@.len() && forall|i: int|
            0 <= i < nodes@.len() ==> is_node_plan(
                #[trigger] plans@[i],
                nodes@[i],
                manifest->0,
                images@,
            ),
{
    let manifest = match manifest {
        Some(m) => m,
        None => {
            return None;
        },
    };
    if !scene_ready {
        return None;
    }
    let mut plans: Vec<NodePlan> = Vec::new();
    let mut i: usize = 0;
    while i < nodes.len()
        invariant
            i <= nodes.len(),
            plans@.len() == i,
            forall|j: int|
                0 <= j < i ==> is_node_plan(#[trigger] plans@[j], nodes@[j], *manifest, images@),
        decreases nodes.len() - i,
    {
        let node = &nodes[i];
        let plan = match &node.name {
            None => NodePlan::Untouched,
            Some(name) => {
                let k: usize = find_entity(&manifest.entities, name.as_str());
                if k >= manifest.entities.len() {
                    NodePlan::Untouched
                } else {
                    match &manifest.entities[k].def {
                        EntityDef::MESH { cast_shadows } => NodePlan::Mesh(
                            process_mesh_node(node, *cast_shadows, manifest, images),
                        ),
                        EntityDef::COLLISION { .. } => NodePlan::Hidden,
                    }
                }
            },
        };
        plans.push(plan);
        i = i + 1;
    }
    Some(plans)
}

/// Whether a new entity of a model waits for a manifest: there is one for the
/// model.
pub fn attach_drawable_intent(model: &str, manifests: &Vec<String>) -> (r: bool)
    ensures
        r == views(manifests@).contains(model@),
{
    holds(manifests, model)
}

/// What a shader gets of a material: each number that the material sets, zero for
/// weather and one for repetition that it leaves out, and white without a tint.
pub proof fn law_shader_params(p: &MaterialParams, r: DrawableParams)
    requires
        call_ensures(build_params, (p,), r),
    ensures
        p.tint is Some ==> r.tint == p.tint->0,
        p.tint is None ==> r.tint.r == scalar(0x3f80_0000) && r.tint.g == scalar(0x3f80_0000)
            && r.tint.b == scalar(0x3f80_0000) && r.tint.a == scalar(0x3f80_0000),
        set_or(p.snow_level, scalar(0), r.weather.x),
        set_or(p.dirt_level, scalar(0), r.weather.y),
        set_or(p.wetness, scalar(0), r.weather.z),
        set_or(p.porosity, scalar(0), r.weather.w),
        set_or(p.tiling, scalar(0x3f80_0000), r.tiling.x),
        set_or(p.l0_tiling, scalar(0x3f80_0000), r.tiling.y),
        set_or(p.l1_tiling, scalar(0x3f80_0000), r.tiling.z),
        r.tiling.w == scalar(0),
{
}

/// `got` is the number that is set, or the standard one.
pub open spec fn set_or(x: Option<Scalar>, standard: Scalar, got: Scalar) -> bool {
    (x is Some ==> got == x->0) && (x is None ==> got == standard)
}

/// An image of the file carries the name.
pub open spec fn carries(image: Option<String>, name: Seq<char>) -> bool {
    image matches Some(n) && n@ == name
}

/// A texture is taken: an embedded one that the file has is the last image of its
/// name, and any other one is the shared texture of its name.
pub open spec fn texture_taken(
    info: TextureInfo,
    images: Seq<Option<String>>,
    pick: TexturePick,
) -> bool {
    let in_file = exists|k: int| 0 <= k < images.len() && carries(#[trigger] images[k], info.name@);
    match pick {
        TexturePick::Shared(name) => name@ == info.name@ && (info.source is Shared || !in_file),
        TexturePick::Embedded(i) => info.source is Embedded && i < images.len() && carries(
            images[i as int],
            info.name@,
        ) && forall|k: int| i < k < images.len() ==> !carries(#[trigger] images[k], info.name@),
    }
}

proof fn lemma_image_named(images: Seq<Option<String>>, name: Seq<char>)
    ensures
        match image_named(images, name) {
            Some(i) => 0 <= i < images.len() && carries(images[i], name) && forall|k: int|
                i < k < images.len() ==> !carries(#[trigger] images[k], name),
            None => forall|k: int| 0 <= k < images.len() ==> !carries(#[trigger] images[k], name),
        },
    decreases images.len(),
{
    if images.len() > 0 {
        let front = images.drop_last();
        lemma_image_named(front, name);
        if !carries(images.last(), name) {
            match image_named(front, name) {
                Some(i) => {
                    assert forall|k: int| i < k < images.len() implies !carries(
                        #[trigger] images[k],
                        name,
                    ) by {
                        if k < front.len() {
                            assert(front[k] == images[k]);
                        }
                    }
                },
                None => {
                    assert forall|k: int| 0 <= k < images.len() implies !carries(
                        #[trigger] images[k],
                        name,
                    ) by {
                        if k < front.len() {
                            assert(front[k] == images[k]);
                        }
                    }
                },
            }
        }
    }
}

proof fn lemma_texture_taken(info: TextureInfo, images: Seq<Option<String>>, pick: TexturePick)
    requires
        resolves(info, images, pick),
    ensures
        texture_taken(info, images, pick),
{
    lemma_image_named(images, info.name@);
}

/// A texture resolves to the image of its name inside the file, the last one of
/// several, where it is meant to be there; else to the shared one of its name.
pub proof fn law_texture_resolved(
    info: &TextureInfo,
    images: &Vec<Option<String>>,
    r: TexturePick,
)
    requires
        call_ensures(resolve_tex, (info, images), r),
    ensures
        texture_taken(*info, images@, r),
{
    lemma_texture_taken(*info, images@, r);
}

/// The entry of number `i` is the first one for the slot.
pub open spec fn first_entry(textures: Seq<TextureSlot>, slot: Seq<char>, i: int) -> bool {
    &&& 0 <= i < textures.len()
    &&& textures[i].slot@ == slot
    &&& forall|j: int| 0 <= j < i ==> (#[trigger] textures[j]).slot@ != slot
}

/// The slot of a material: the texture of its first entry, and none exactly
/// where it has no entry.
pub open spec fn slot_filled(
    def: MaterialDef,
    slot: Seq<char>,
    images: Seq<Option<String>>,
    pick: Option<TexturePick>,
) -> bool {
    match pick {
        None => forall|j: int|
            0 <= j < def.textures@.len() ==> (#[trigger] def.textures@[j]).slot@ != slot,
        Some(p) => exists|i: int|
            #[trigger] first_entry(def.textures@, slot, i) && texture_taken(
                def.textures@[i].info,
                images,
                p,
            ),
    }
}

proof fn lemma_slot_filled(
    def: MaterialDef,
    slot: Seq<char>,
    images: Seq<Option<String>>,
    pick: Option<TexturePick>,
)
    requires
        picked(def, slot, images, pick),
    ensures
        slot_filled(def, slot, images, pick),
{
    let t = def.textures@;
    lemma_slot_first(t, slot);
    if pick is Some {
        let i = slot_index(t, slot);
        assert(first_entry(t, slot, i));
        lemma_texture_taken(t[i].info, images, pick->0);
    }
}

proof fn lemma_slot_first(textures: Seq<TextureSlot>, slot: Seq<char>)
    ensures
        0 <= slot_index(textures, slot) <= textures.len(),
        slot_index(textures, slot) < textures.len() ==> textures[slot_index(
            textures,
            slot,
        )].slot@ == slot,
        forall|j: int|
            0 <= j < slot_index(textures, slot) ==> (#[trigger] textures[j]).slot@ != slot,
    decreases textures.len(),
{
    if textures.len() > 0 && textures[0].slot@ != slot {
        let rest = textures.drop_first();
        lemma_slot_first(rest, slot);
        assert forall|j: int| 0 <= j < slot_index(textures, slot) implies (
        #[trigger] textures[j]).slot@ != slot by {
            if j > 0 {
                assert(rest[j - 1] == textures[j]);
            }
        }
    }
}

/// The alpha mode that a material asks for: opaque, clipped at its bound where it
/// has an `mb` texture and at the engine's where it has none, or blended; one
/// that asks for none of these keeps to `usual`.
pub open spec fn shows_through(def: MaterialDef, usual: AlphaMode, got: AlphaMode) -> bool {
    let mode = def.params.opacity_mode;
    let masked = exists|j: int|
        0 <= j < def.textures@.len() && (#[trigger] def.textures@[j]).slot@ == "mb"@;
    &&& mode is Some && mode->0@ == "OPAQUE"@ ==> got is Opaque
    &&& mode is Some && mode->0@ == "BLEND"@ ==> got is Blend
    &&& mode is Some && mode->0@ == "CLIP"@ && masked ==> got == AlphaMode::Clip(
        def.params.alpha_threshold,
    )
    &&& mode is Some && mode->0@ == "CLIP"@ && !masked ==> got == AlphaMode::Clip(None)
    &&& mode is None || (mode->0@ != "OPAQUE"@ && mode->0@ != "BLEND"@ && mode->0@ != "CLIP"@)
        ==> got == usual
}

proof fn lemma_shows_through(def: MaterialDef, usual: AlphaMode)
    ensures
        shows_through(def, usual, alpha_of(def, usual)),
{
    reveal_strlit("OPAQUE");
    reveal_strlit("BLEND");
    reveal_strlit("CLIP");
    assert("OPAQUE"@.len() == 6 && "BLEND"@.len() == 5 && "CLIP"@.len() == 4);
    let t = def.textures@;
    lemma_slot_first(t, "mb"@);
    if slot_index(t, "mb"@) < t.len() {
        assert(t[slot_index(t, "mb"@)].slot@ == "mb"@);
    }
}

/// A material under the standard template: its own textures in their slots, half
/// rough, opaque by itself, drawn from one side.
pub proof fn law_standard_material(
    def: &MaterialDef,
    images: &Vec<Option<String>>,
    r: MaterialPlan,
    params: DrawableParams,
)
    requires
        call_ensures(build_standard_pbr, (def, images), r),
        call_ensures(build_params, (&def.params,), params),
    ensures
        r.template is StandardPbr,
        slot_filled(*def, "albedo"@, images@, r.albedo),
        slot_filled(*def, "mrao"@, images@, r.mrao),
        slot_filled(*def, "normal"@, images@, r.normal),
        slot_filled(*def, "palette"@, images@, r.palette),
        slot_filled(*def, "snow"@, images@, r.snow),
        r.layer1_albedo is None && r.layer1_normal is None,
        r.base_color == def.params.tint,
        r.roughness == scalar(0x3f00_0000),
        shows_through(*def, AlphaMode::Opaque, r.alpha),
        !r.double_sided,
        r.params == params,
{
    lemma_slot_filled(*def, "albedo"@, images@, r.albedo);
    lemma_slot_filled(*def, "mrao"@, images@, r.mrao);
    lemma_slot_filled(*def, "normal"@, images@, r.normal);
    lemma_slot_filled(*def, "palette"@, images@, r.palette);
    lemma_slot_filled(*def, "snow"@, images@, r.snow);
    lemma_shows_through(*def, AlphaMode::Opaque);
}

/// A material under the layered template: it has a second layer in place of a
/// palette and snow.
pub proof fn law_layered_material(
    def: &MaterialDef,
    images: &Vec<Option<String>>,
    r: MaterialPlan,
    params: DrawableParams,
)
    requires
        call_ensures(build_layered_env, (def, images), r),
        call_ensures(build_params, (&def.params,), params),
    ensures
        r.template is LayeredEnv,
        slot_filled(*def, "albedo"@, images@, r.albedo),
        slot_filled(*def, "mrao"@, images@, r.mrao),
        slot_filled(*def, "normal"@, images@, r.normal),
        slot_filled(*def, "layer1_albedo"@, images@, r.layer1_albedo),
        slot_filled(*def, "layer1_normal"@, images@, r.layer1_normal),
        r.palette is None && r.snow is None,
        r.base_color == def.params.tint,
        r.roughness == scalar(0x3f00_0000),
        shows_through(*def, AlphaMode::Opaque, r.alpha),
        !r.double_sided,
        r.params == params,
{
    lemma_slot_filled(*def, "albedo"@, images@, r.albedo);
    lemma_slot_filled(*def, "mrao"@, images@, r.mrao);
    lemma_slot_filled(*def, "normal"@, images@, r.normal);
    lemma_slot_filled(*def, "layer1_albedo"@, images@, r.layer1_albedo);
    lemma_slot_filled(*def, "layer1_normal"@, images@, r.layer1_normal);
    lemma_shows_through(*def, AlphaMode::Opaque);
}

/// Glass: nearly smooth, blended by itself, drawn from both sides, in its tint or
/// a faint blue.
pub proof fn law_glass_material(
    def: &MaterialDef,
    images: &Vec<Option<String>>,
    r: MaterialPlan,
    params: DrawableParams,
)
    requires
        call_ensures(build_vehicle_glass, (def, images), r),
        call_ensures(build_params, (&def.params,), params),
    ensures
        r.template is VehicleGlass,
        slot_filled(*def, "albedo"@, images@, r.albedo),
        slot_filled(*def, "normal"@, images@, r.normal),
        r.mrao is None && r.palette is None && r.snow is None,
        r.layer1_albedo is None && r.layer1_normal is None,
        def.params.tint is Some ==> r.base_color == def.params.tint,
        def.params.tint is None ==> r.base_color == Some(
            Rgba {
                r: scalar(0x3f66_6666),
                g: scalar(0x3f73_3333),
                b: scalar(0x3f80_0000),
                a: scalar(0x3e99_999a),
            },
        ),
        r.roughness == scalar(0x3d4c_cccd),
        shows_through(*def, AlphaMode::Blend, r.alpha),
        r.double_sided,
        r.params == params,
{
    lemma_slot_filled(*def, "albedo"@, images@, r.albedo);
    lemma_slot_filled(*def, "normal"@, images@, r.normal);
    lemma_shows_through(*def, AlphaMode::Blend);
}

/// An opacity mode in words.
pub proof fn law_alpha_mode(mode: &Option<String>, threshold: Option<Scalar>, r: Option<AlphaMode>)
    requires
        call_ensures(alpha_mode, (mode, threshold), r),
    ensures
        mode is None ==> r is None,
        mode is Some && mode->0@ == "OPAQUE"@ ==> r == Some(AlphaMode::Opaque),
        mode is Some && mode->0@ == "CLIP"@ ==> r == Some(AlphaMode::Clip(threshold)),
        mode is Some && mode->0@ == "BLEND"@ ==> r == Some(AlphaMode::Blend),
        mode is Some && mode->0@ == "HASHED"@ ==> r is None,
{
    reveal_strlit("OPAQUE");
    reveal_strlit("BLEND");
    reveal_strlit("CLIP");
    reveal_strlit("HASHED");
    assert("OPAQUE"@.len() == 6 && "BLEND"@.len() == 5 && "CLIP"@.len() == 4 && "HASHED"@.len()
        == 6);
    assert("OPAQUE"@[0] == 'O' && "HASHED"@[0] == 'H');
}

proof fn lemma_material_index(materials: Seq<NamedMaterial>, name: Seq<char>, i: int)
    requires
        0 <= i <= materials.len(),
        forall|j: int| 0 <= j < i ==> (#[trigger] materials[j]).name@ != name,
        i < materials.len() ==> materials[i].name@ == name,
    ensures
        material_index(materials, name) == i,
    decreases i,
{
    if i > 0 {
        let rest = materials.drop_first();
        assert(materials[0].name@ != name);
        assert forall|j: int| 0 <= j < i - 1 implies (#[trigger] rest[j]).name@ != name by {
            assert(rest[j] == materials[j + 1]);
        }
        lemma_material_index(rest, name, i - 1);
    }
}

/// A mesh node: its mesh gets neutral colors where it has none, its material is
/// the one of its name in the manifest, by its template, and it casts no shadow
/// where it has such a material and the manifest says so. `i` is the material's
/// number, or their count where there is none of the name.
pub proof fn law_mesh_node(
    node: &SceneNode,
    cast_shadows: bool,
    manifest: &DrawableManifest,
    images: &Vec<Option<String>>,
    r: MeshPlan,
    i: int,
)
    requires
        call_ensures(process_mesh_node, (node, cast_shadows, manifest, images), r),
        0 <= i <= manifest.materials@.len(),
        forall|j: int|
            0 <= j < i ==> (#[trigger] manifest.materials@[j]).name@ != text_or_empty(node.material),
        i < manifest.materials@.len() ==> manifest.materials@[i].name@ == text_or_empty(
            node.material,
        ),
    ensures
        r.neutral_colors <==> node.has_mesh && !node.has_colors,
        i == manifest.materials@.len() ==> r.material is None,
        i < manifest.materials@.len() ==> {
            let template = manifest.materials@[i].def.template@;
            &&& template == "standard_pbr"@ ==> r.material is Some
                && r.material->0.template is StandardPbr
            &&& template == "layered_env"@ ==> r.material is Some
                && r.material->0.template is LayeredEnv
            &&& template == "vehicle_glass"@ ==> r.material is Some
                && r.material->0.template is VehicleGlass
            &&& template != "standard_pbr"@ && template != "layered_env"@ && template
                != "vehicle_glass"@ ==> r.material is None
            &&& r.material is Some ==> slot_filled(
                manifest.materials@[i].def,
                "albedo"@,
                images@,
                r.material->0.albedo,
            )
        },
        r.no_shadow <==> r.material is Some && !cast_shadows,
{
    reveal_strlit("standard_pbr");
    reveal_strlit("layered_env");
    reveal_strlit("vehicle_glass");
    assert("standard_pbr"@.len() == 12 && "layered_env"@.len() == 11 && "vehicle_glass"@.len()
        == 13);
    lemma_material_index(manifest.materials@, text_or_empty(node.material), i);
    if r.material is Some {
        lemma_slot_filled(
            manifest.materials@[i].def,
            "albedo"@,
            images@,
            r.material->0.albedo,
        );
    }
}

proof fn lemma_entity_index(entities: Seq<NamedEntity>, name: Seq<char>, i: int)
    requires
        0 <= i <= entities.len(),
        forall|j: int| 0 <= j < i ==> (#[trigger] entities[j]).name@ != name,
        i < entities.len() ==> entities[i].name@ == name,
    ensures
        entity_index(entities, name) == i,
    decreases i,
{
    if i > 0 {
        let rest = entities.drop_first();
        assert(entities[0].name@ != name);
        assert forall|j: int| 0 <= j < i - 1 implies (#[trigger] rest[j]).name@ != name by {
            assert(rest[j] == entities[j + 1]);
        }
        lemma_entity_index(rest, name, i - 1);
    }
}

/// The nodes of a scene, once it and its manifest are there: a collider is
/// hidden, a mesh is drawn, and a node that the manifest does not name stays.
/// `i` is the number of the node's entry, or their count where there is none.
pub proof fn law_scene_nodes(
    manifest: &Option<DrawableManifest>,
    ready: bool,
    images: &Vec<Option<String>>,
    nodes: &Vec<SceneNode>,
    r: Option<Vec<NodePlan>>,
    k: int,
    i: int,
)
    requires
        call_ensures(hook_drawable_scenes, (manifest, ready, images, nodes), r),
        0 <= k < nodes@.len(),
        manifest is Some && nodes@[k].name is Some ==> {
            let entities = manifest->0.entities@;
            &&& 0 <= i <= entities.len()
            &&& forall|j: int|
                0 <= j < i ==> (#[trigger] entities[j]).name@ != nodes@[k].name->0@
            &&& i < entities.len() ==> entities[i].name@ == nodes@[k].name->0@
        },
    ensures
        r is Some <==> manifest is Some && ready,
        r matches Some(plans) ==> {
            &&& plans@.len() == nodes@.len()
            &&& nodes@[k].name is None ==> plans@[k] is Untouched
            &&& nodes@[k].name is Some && i == manifest->0.entities@.len() ==> plans@[k] is Untouched
            &&& nodes@[k].name is Some && i < manifest->0.entities@.len() ==> {
                &&& manifest->0.entities@[i].def is COLLISION <==> plans@[k] is Hidden
                &&& manifest->0.entities@[i].def is MESH <==> plans@[k] is Mesh
            }
        },
{
    if r is Some {
        let plan = r->0@[k];
        if nodes@[k].name is Some {
            lemma_entity_index(manifest->0.entities@, nodes@[k].name->0@, i);
        }
        assert(is_node_plan(plan, nodes@[k], manifest->0, images@));
    }
}

/// A model's entity waits for a manifest where there is one of the model's name.
pub proof fn law_manifest_awaited(model: &str, manifests: &Vec<String>, r: bool, k: int)
    requires
        call_ensures(attach_drawable_intent, (model, manifests), r),
    ensures
        0 <= k < manifests@.len() && manifests@[k]@ == model@ ==> r,
        (forall|j: int| 0 <= j < manifests@.len() ==> (#[trigger] manifests@[j])@ != model@) ==> !r,
{
    if 0 <= k < manifests@.len() && manifests@[k]@ == model@ {
        assert(views(manifests@)[k] == model@);
    }
    if r {
        let j = choose|j: int| 0 <= j < views(manifests@).len() && views(manifests@)[j] == model@;
        assert(manifests@[j]@ == model@);
    }
}

/// A material without parameters: white, dry, clean and tiled once.
pub proof fn law_neutral_params(r: DrawableParams, none: MaterialParams)
    requires
        call_ensures(DrawableParams::default, (), r),
        call_ensures(MaterialParams::default, (), none),
    ensures
        r.tint.r == scalar(0x3f80_0000) && r.tint.g == scalar(0x3f80_0000) && r.tint.b
            == scalar(0x3f80_0000) && r.tint.a == scalar(0x3f80_0000),
        r.weather.x == scalar(0) && r.weather.y == scalar(0) && r.weather.z == scalar(0)
            && r.weather.w == scalar(0),
        r.tiling.x == scalar(0x3f80_0000) && r.tiling.y == scalar(0x3f80_0000) && r.tiling.z
            == scalar(0x3f80_0000) && r.tiling.w == scalar(0),
        none.tint is None && none.tiling is None && none.l0_tiling is None && none.l1_tiling is None
            && none.porosity is None && none.wetness is None && none.snow_level is None
            && none.dirt_level is None && none.opacity_mode is None && none.alpha_threshold is None,
{
}

} // verus!
