//! Which colliders and bodies the objects of a scene get.

use std::collections::{HashMap, HashSet};

use vstd::prelude::*;

use crate::folds::{lemma_last_contains, lemma_push_contains, lemma_take_next};
use crate::gameplay::visuals::DummyPrimitiveKind;
use crate::hierarchy::{
    ancestor, forest, has_rigidbody_ancestor, law_root_unique, none_marked, topmost_ancestor,
};
use crate::scalar::{lifted, scalar, Scalar, ONE, ZERO};

verus! {

broadcast use vstd::std_specs::hash::group_hash_axioms;

/// 0.5.
pub const HALF: u32 = 0x3f00_0000;

/// 0.0001 m, 0.001 m, 0.01 m, 0.05 m and 0.1 m: least dimensions of colliders.
pub const LEAST_TENTH_MM: u32 = 0x38d1_b717;

pub const LEAST_MM: u32 = 0x3a83_126f;

pub const LEAST_CM: u32 = 0x3c23_d70a;

pub const LEAST_5_CM: u32 = 0x3d4c_cccd;

pub const TENTH: u32 = 0x3dcc_cccd;

/// The numbers that differ from 0.5 by less than the machine precision.
pub const HALF_FROM: u32 = 0x3eff_fffd;

pub const HALF_TO: u32 = 0x3f00_0001;

/// The numbers that differ from 1 by less than the machine precision.
pub const ONE_FROM: u32 = 0x3f7f_ffff;

pub const ONE_TO: u32 = 0x3f80_0000;

/// A size along the three axes.
#[derive(Clone, Copy, PartialEq, Eq, Structural, Debug)]
pub struct Extent {
    pub x: Scalar,
    pub y: Scalar,
    pub z: Scalar,
}

/// The shapes that a model asks for.
#[derive(Clone, Copy, PartialEq, Eq, Structural, Debug)]
pub enum CollisionShape {
    Box,
    Sphere,
    Capsule,
    Cylinder,
    Convex,
    Mesh,
    Navmesh,
}

/// What a model says of a collider.
#[derive(Clone, Copy, PartialEq, Eq, Debug)]
pub struct DrawableCollision {
    pub shape: CollisionShape,
    pub is_static: bool,
    pub half_extents: Option<Extent>,
    pub radius: Option<Scalar>,
    pub height: Option<Scalar>,
    pub lock_translation: Option<(bool, bool, bool)>,
    pub lock_rotation: Option<(bool, bool, bool)>,
    pub friction: Scalar,
    pub restitution: Scalar,
}

/// The collider that a model's part gets.
#[derive(Clone, Copy, PartialEq, Eq, Structural, Debug)]
pub enum ColliderSpec {
    /// A box of twice these half extents.
    Cuboid { half: Extent },
    Sphere { radius: Scalar },
    /// A capsule of this radius and full height; without a height it is as
    /// high as a ball.
    Capsule { radius: Scalar, height: Option<Scalar> },
    Cylinder { radius: Scalar, height: Scalar },
    /// The convex hull of the mesh.
    ConvexHull,
    /// The triangles of the mesh.
    Trimesh,
}

pub open spec fn default_half() -> Extent {
    Extent { x: scalar(HALF), y: scalar(HALF), z: scalar(HALF) }
}

impl DrawableCollision {
    pub open spec fn boxed(self) -> ColliderSpec {
        ColliderSpec::Cuboid {
            half: match self.half_extents {
                Some(h) => h,
                None => default_half(),
            },
        }
    }

    /// The radius, half where none is given, and never nothing.
    pub open spec fn solid_radius(self) -> Scalar {
        (match self.radius {
            Some(r) => r,
            None => scalar(HALF),
        }).larger(scalar(LEAST_TENTH_MM))
    }

    /// The collider for a part with or without a mesh; a part that only guides
    /// characters gets none.
    pub open spec fn collider(self, has_mesh: bool) -> Option<ColliderSpec> {
        match self.shape {
            CollisionShape::Box => Some(self.boxed()),
            CollisionShape::Sphere => Some(ColliderSpec::Sphere { radius: self.solid_radius() }),
            CollisionShape::Capsule => Some(
                ColliderSpec::Capsule { radius: self.solid_radius(), height: self.height },
            ),
            CollisionShape::Cylinder => Some(
                ColliderSpec::Cylinder {
                    radius: self.solid_radius(),
                    height: (match self.height {
                        Some(h) => h,
                        None => scalar(ONE),
                    }).larger(scalar(LEAST_TENTH_MM)),
                },
            ),
            CollisionShape::Convex => if has_mesh {
                Some(ColliderSpec::ConvexHull)
            } else {
                Some(self.boxed())
            },
            CollisionShape::Mesh => if !has_mesh {
                Some(self.boxed())
            } else if self.is_static {
                Some(ColliderSpec::Trimesh)
            } else {
                Some(ColliderSpec::ConvexHull)
            },
            CollisionShape::Navmesh => None,
        }
    }
}

fn boxed_collider(dc: &DrawableCollision) -> (r: ColliderSpec)
    ensures
        r == dc.boxed(),
{
    match dc.half_extents {
        Some(half) => ColliderSpec::Cuboid { half },
        None => ColliderSpec::Cuboid {
            half: Extent { x: scalar(HALF), y: scalar(HALF), z: scalar(HALF) },
        },
    }
}

pub fn collider_spec_from_drawable(dc: &DrawableCollision, has_mesh: bool) -> (r: Option<
    ColliderSpec,
>)
    ensures
        r == dc.collider(has_mesh),
{
    let given: Scalar = match dc.radius {
        Some(r) => r,
        None => scalar(HALF),
    };
    let radius: Scalar = given.max(scalar(LEAST_TENTH_MM));
    match dc.shape {
        CollisionShape::Box => Some(boxed_collider(dc)),
        CollisionShape::Sphere => Some(ColliderSpec::Sphere { radius }),
        CollisionShape::Capsule => Some(ColliderSpec::Capsule { radius, height: dc.height }),
        CollisionShape::Cylinder => {
            let high: Scalar = match dc.height {
                Some(h) => h,
                None => scalar(ONE),
            };
            Some(ColliderSpec::Cylinder { radius, height: high.max(scalar(LEAST_TENTH_MM)) })
        },
        CollisionShape::Convex => if has_mesh {
            Some(ColliderSpec::ConvexHull)
        } else {
            Some(boxed_collider(dc))
        },
        CollisionShape::Mesh => if has_mesh {
            if dc.is_static {
                Some(ColliderSpec::Trimesh)
            } else {
                Some(ColliderSpec::ConvexHull)
            }
        } else {
            Some(boxed_collider(dc))
        },
        CollisionShape::Navmesh => None,
    }
}

/// A body that moves never gets the triangles of its mesh.
pub proof fn law_moving_bodies_are_convex(dc: DrawableCollision, has_mesh: bool)
    requires
        !dc.is_static,
    ensures
        dc.collider(has_mesh) != Some(ColliderSpec::Trimesh),
{
}

/// The axes along and about which a body does not move.
#[derive(Clone, Copy, PartialEq, Eq, Debug)]
pub struct LockedAxes {
    pub translation: (bool, bool, bool),
    pub rotation: (bool, bool, bool),
}

pub open spec fn axes_or_none(axes: Option<(bool, bool, bool)>) -> (bool, bool, bool) {
    match axes {
        Some(a) => a,
        None => (false, false, false),
    }
}

/// The locked axes of a body, where there is any.
pub open spec fn locked_axes(dc: DrawableCollision) -> Option<LockedAxes> {
    let t = axes_or_none(dc.lock_translation);
    let r = axes_or_none(dc.lock_rotation);
    if t.0 || t.1 || t.2 || r.0 || r.1 || r.2 {
        Some(LockedAxes { translation: t, rotation: r })
    } else {
        None
    }
}

pub fn locked_axes_from_drawable(dc: &DrawableCollision) -> (r: Option<LockedAxes>)
    ensures
        r == locked_axes(*dc),
{
    let t: (bool, bool, bool) = match dc.lock_translation {
        Some(a) => a,
        None => (false, false, false),
    };
    let q: (bool, bool, bool) = match dc.lock_rotation {
        Some(a) => a,
        None => (false, false, false),
    };
    if t.0 || t.1 || t.2 || q.0 || q.1 || q.2 {
        Some(LockedAxes { translation: t, rotation: q })
    } else {
        None
    }
}

/// Who carries the body of a collider.
#[derive(Clone, Copy, PartialEq, Eq, Structural, Debug)]
pub enum BodyOwner {
    /// The entity itself.
    This,
    /// The root above the entity, whose skin the collider follows.
    Root(u64),
    /// A body that stands above the entity already.
    Above,
}

/// What a model's part gets.
#[derive(Clone, Copy, PartialEq, Eq, Debug)]
pub struct DrawablePlan {
    pub collider: ColliderSpec,
    pub owner: BodyOwner,
    pub is_static: bool,
    pub axes: Option<LockedAxes>,
    pub friction: Option<Scalar>,
    pub restitution: Option<Scalar>,
}

/// A coefficient that has an effect.
pub open spec fn positive(x: Scalar) -> Option<Scalar> {
    if scalar(ZERO).less(x) {
        Some(x)
    } else {
        None
    }
}

fn if_positive(x: Scalar) -> (r: Option<Scalar>)
    ensures
        r == positive(x),
{
    if scalar(ZERO).lt(x) {
        Some(x)
    } else {
        None
    }
}

/// Decides what a model's part gets; none takes everything off it.
pub fn attach_or_update_drawable_colliders(
    entity: u64,
    dc: &DrawableCollision,
    has_mesh: bool,
    skinned: bool,
    parents: &HashMap<u64, u64>,
    bodies: &HashSet<u64>,
) -> (r: Option<DrawablePlan>)
    requires
        forest(parents@),
    ensures
        r is Some <==> dc.collider(has_mesh) is Some,
        r matches Some(p) ==> {
            &&& Some(p.collider) == dc.collider(has_mesh)
            &&& match p.owner {
                BodyOwner::Above => !none_marked(parents@, bodies@, entity, 1),
                BodyOwner::This => none_marked(parents@, bodies@, entity, 1) && !skinned,
                BodyOwner::Root(top) => none_marked(parents@, bodies@, entity, 1) && skinned
                    && !parents@.contains_key(top) && exists|n: nat|
                    #[trigger] ancestor(parents@, entity, n) == Some(top),
            }
            &&& p.is_static == dc.is_static
            &&& p.axes == locked_axes(*dc)
            &&& p.friction == positive(dc.friction)
            &&& p.restitution == positive(dc.restitution)
        },
{
    match collider_spec_from_drawable(dc, has_mesh) {
        None => None,
        Some(collider) => {
            let above = has_rigidbody_ancestor(entity, parents, bodies);
            let owner = if above {
                BodyOwner::Above
            } else if skinned {
                BodyOwner::Root(topmost_ancestor(entity, parents))
            } else {
                BodyOwner::This
            };
            Some(
                DrawablePlan {
                    collider,
                    owner,
                    is_static: dc.is_static,
                    axes: locked_axes_from_drawable(dc),
                    friction: if_positive(dc.friction),
                    restitution: if_positive(dc.restitution),
                },
            )
        },
    }
}

/// The shapes that scripts ask for.
#[derive(Clone, Copy, PartialEq, Eq, Structural, Debug)]
pub enum DummyColliderShape {
    /// No collider.
    Off,
    /// The one that fits the object.
    Auto,
    Box,
    Sphere,
    Capsule,
    Cylinder,
}

/// What scripts say of a collider.
#[derive(Clone, Copy, PartialEq, Eq, Structural, Debug)]
pub struct DummyColliderDef {
    pub enabled: bool,
    pub shape: DummyColliderShape,
    pub size: Extent,
    pub radius: Scalar,
    pub height: Scalar,
    pub is_static: bool,
    pub is_trigger: bool,
    pub friction: Scalar,
    pub restitution: Scalar,
    pub stairs: bool,
    pub stairs_slope_invert: bool,
    pub stairs_clearance_y: Scalar,
}

/// A collider of a plain object.
#[derive(Clone, Copy, PartialEq, Eq, Structural, Debug)]
pub enum DummyCollider {
    Cuboid(Extent),
    Sphere { radius: Scalar },
    /// A capsule of this radius and full height.
    Capsule { radius: Scalar, full_height: Scalar },
    Cylinder { radius: Scalar, height: Scalar },
}

/// The number is 0.5, the radius that stands for "not set".
pub open spec fn half_like(x: Scalar) -> bool {
    scalar(HALF_FROM).at_most(x) && x.at_most(scalar(HALF_TO))
}

/// The number is 1, the height that stands for "not set".
pub open spec fn one_like(x: Scalar) -> bool {
    scalar(ONE_FROM).at_most(x) && x.at_most(scalar(ONE_TO))
}

/// The size is one along every axis, which stands for "not set".
pub open spec fn unit_size(e: Extent) -> bool {
    e.x.equals(scalar(ONE)) && e.y.equals(scalar(ONE)) && e.z.equals(scalar(ONE))
}

impl DummyColliderDef {
    pub open spec fn radius_or(self, default_radius: Scalar) -> Scalar {
        if half_like(self.radius) {
            default_radius
        } else {
            self.radius.larger(scalar(LEAST_MM))
        }
    }

    pub open spec fn height_or(self, default_height: Scalar) -> Scalar {
        if one_like(self.height) {
            default_height
        } else {
            self.height.larger(scalar(LEAST_MM))
        }
    }

    pub open spec fn size_or(self, default_size: Extent) -> Extent {
        if unit_size(self.size) {
            default_size
        } else {
            Extent {
                x: self.size.x.larger(scalar(LEAST_MM)),
                y: self.size.y.larger(scalar(LEAST_MM)),
                z: self.size.z.larger(scalar(LEAST_MM)),
            }
        }
    }

    /// The collider of a shape, with defaults for what is not set.
    pub open spec fn shaped(
        self,
        shape: DummyColliderShape,
        size: Extent,
        radius: Scalar,
        height: Scalar,
    ) -> Option<DummyCollider> {
        match shape {
            DummyColliderShape::Off => None,
            DummyColliderShape::Auto => None,
            DummyColliderShape::Box => Some(DummyCollider::Cuboid(self.size_or(size))),
            DummyColliderShape::Sphere => Some(
                DummyCollider::Sphere { radius: self.radius_or(radius) },
            ),
            DummyColliderShape::Capsule => Some(
                DummyCollider::Capsule {
                    radius: self.radius_or(radius),
                    full_height: self.height_or(height),
                },
            ),
            DummyColliderShape::Cylinder => Some(
                DummyCollider::Cylinder {
                    radius: self.radius_or(radius),
                    height: self.height_or(height),
                },
            ),
        }
    }
}

fn shape_collider(
    def: &DummyColliderDef,
    shape: DummyColliderShape,
    default_size: Extent,
    default_radius: Scalar,
    default_height: Scalar,
) -> (r: Option<DummyCollider>)
    ensures
        r == def.shaped(shape, default_size, default_radius, default_height),
{
    let radius: Scalar = if scalar(HALF_FROM).le(def.radius) && def.radius.le(scalar(HALF_TO)) {
        default_radius
    } else {
        def.radius.max(scalar(LEAST_MM))
    };
    let height: Scalar = if scalar(ONE_FROM).le(def.height) && def.height.le(scalar(ONE_TO)) {
        default_height
    } else {
        def.height.max(scalar(LEAST_MM))
    };
    match shape {
        DummyColliderShape::Off => None,
        DummyColliderShape::Auto => None,
        DummyColliderShape::Box => {
            if def.size.x.same_number(scalar(ONE)) && def.size.y.same_number(scalar(ONE))
                && def.size.z.same_number(scalar(ONE)) {
                Some(DummyCollider::Cuboid(default_size))
            } else {
                Some(
                    DummyCollider::Cuboid(
                        Extent {
                            x: def.size.x.max(scalar(LEAST_MM)),
                            y: def.size.y.max(scalar(LEAST_MM)),
                            z: def.size.z.max(scalar(LEAST_MM)),
                        },
                    ),
                )
            }
        },
        DummyColliderShape::Sphere => Some(DummyCollider::Sphere { radius }),
        DummyColliderShape::Capsule => Some(
            DummyCollider::Capsule { radius, full_height: height },
        ),
        DummyColliderShape::Cylinder => Some(DummyCollider::Cylinder { radius, height }),
    }
}

/// The collider of a definition; the shape that is left open is a box.
pub fn collider_from_dummy_def(
    def: &DummyColliderDef,
    default_size: Extent,
    default_radius: Scalar,
    default_height: Scalar,
) -> (r: Option<DummyCollider>)
    ensures
        r == def.shaped(
            if def.shape is Auto {
                DummyColliderShape::Box
            } else {
                def.shape
            },
            default_size,
            default_radius,
            default_height,
        ),
{
    let shape = match def.shape {
        DummyColliderShape::Auto => DummyColliderShape::Box,
        other => other,
    };
    shape_collider(def, shape, default_size, default_radius, default_height)
}

/// The shape of an object's collider, where scripts leave it open.
pub open spec fn fitting_shape(kind: DummyPrimitiveKind) -> DummyColliderShape {
    match kind {
        DummyPrimitiveKind::Sphere => DummyColliderShape::Sphere,
        DummyPrimitiveKind::Arch => DummyColliderShape::Capsule,
        DummyPrimitiveKind::Cuboid | DummyPrimitiveKind::Cube | DummyPrimitiveKind::Stairs =>
            DummyColliderShape::Box,
        _ => DummyColliderShape::Off,
    }
}

/// What happens to the body of a plain object.
#[derive(Clone, Copy, PartialEq, Eq, Structural, Debug)]
pub enum DummyPlan {
    /// Collider and body go.
    Clear,
    /// The colliders of stairs are generated.
    Stairs,
    /// Nothing changes.
    Keep,
    /// The object gets this collider.
    Attach {
        collider: DummyCollider,
        is_static: bool,
        is_trigger: bool,
        stairs: bool,
        friction: Option<Scalar>,
        restitution: Option<Scalar>,
    },
}

pub open spec fn attached(
    def: DummyColliderDef,
    collider: Option<DummyCollider>,
    stairs: bool,
) -> DummyPlan {
    match collider {
        None => DummyPlan::Keep,
        Some(c) => DummyPlan::Attach {
            collider: c,
            is_static: def.is_static,
            is_trigger: def.is_trigger,
            stairs,
            friction: positive(def.friction),
            restitution: positive(def.restitution),
        },
    }
}

/// Decides the collider of a plain object; the defaults are the dimensions of
/// the object itself.
pub fn attach_or_update_dummy_colliders(
    kind: DummyPrimitiveKind,
    def: &DummyColliderDef,
    default_size: Extent,
    default_radius: Scalar,
    default_height: Scalar,
) -> (r: DummyPlan)
    ensures
        r == if !def.enabled || def.shape is Off {
            DummyPlan::Clear
        } else if kind is Stairs {
            DummyPlan::Stairs
        } else {
            attached(
                *def,
                def.shaped(
                    if def.shape is Auto {
                        fitting_shape(kind)
                    } else {
                        def.shape
                    },
                    default_size,
                    default_radius,
                    default_height,
                ),
                false,
            )
        },
{
    let off = match def.shape {
        DummyColliderShape::Off => true,
        _ => false,
    };
    if !def.enabled || off {
        return DummyPlan::Clear;
    }
    let is_stairs = match kind {
        DummyPrimitiveKind::Stairs => true,
        _ => false,
    };
    if is_stairs {
        return DummyPlan::Stairs;
    }
    let shape = match def.shape {
        DummyColliderShape::Auto => match kind {
            DummyPrimitiveKind::Sphere => DummyColliderShape::Sphere,
            DummyPrimitiveKind::Arch => DummyColliderShape::Capsule,
            DummyPrimitiveKind::Cuboid | DummyPrimitiveKind::Cube | DummyPrimitiveKind::Stairs =>
                DummyColliderShape::Box,
            _ => DummyColliderShape::Off,
        },
        other => other,
    };
    match shape_collider(def, shape, default_size, default_radius, default_height) {
        None => DummyPlan::Keep,
        Some(collider) => DummyPlan::Attach {
            collider,
            is_static: def.is_static,
            is_trigger: def.is_trigger,
            stairs: false,
            friction: if_positive(def.friction),
            restitution: if_positive(def.restitution),
        },
    }
}

/// Decides the collider of an object that is nothing but a collider.
pub fn attach_or_update_collider_objects(def: &DummyColliderDef) -> (r: DummyPlan)
    ensures
        r == if !def.enabled || def.shape is Off {
            DummyPlan::Clear
        } else {
            attached(
                *def,
                def.shaped(
                    if def.shape is Auto {
                        DummyColliderShape::Box
                    } else {
                        def.shape
                    },
                    Extent { x: scalar(ONE), y: scalar(ONE), z: scalar(ONE) },
                    scalar(HALF),
                    scalar(ONE),
                ),
                def.stairs,
            )
        },
{
    let off = match def.shape {
        DummyColliderShape::Off => true,
        _ => false,
    };
    if !def.enabled || off {
        return DummyPlan::Clear;
    }
    let unit = Extent { x: scalar(ONE), y: scalar(ONE), z: scalar(ONE) };
    match collider_from_dummy_def(def, unit, scalar(HALF), scalar(ONE)) {
        None => DummyPlan::Keep,
        Some(collider) => DummyPlan::Attach {
            collider,
            is_static: def.is_static,
            is_trigger: def.is_trigger,
            stairs: def.stairs,
            friction: if_positive(def.friction),
            restitution: if_positive(def.restitution),
        },
    }
}

/// A length that follows from another one.
#[derive(Clone, Copy, PartialEq, Eq, Structural, Debug)]
pub enum Measure {
    Same(Scalar),
    HalfOf(Scalar),
    TwiceOf(Scalar),
}

/// The dimensions of an object that its collider takes over.
#[derive(Clone, Copy, PartialEq, Eq, Debug)]
pub struct DummyDefaults {
    pub size: (Measure, Measure, Measure),
    pub radius: Measure,
    pub height: Measure,
}

/// The dimensions that scripts give an object.
#[derive(Clone, Copy, PartialEq, Eq, Structural, Debug)]
pub struct DummyDims {
    pub size: Extent,
    pub radius: Scalar,
    pub height: Scalar,
}

impl DummyDims {
    pub open spec fn defaults(self, kind: DummyPrimitiveKind) -> DummyDefaults {
        let x = self.size.x.larger(scalar(LEAST_CM));
        let y = self.size.y.larger(scalar(LEAST_CM));
        let z = self.size.z.larger(scalar(LEAST_CM));
        let radius = self.radius.larger(scalar(LEAST_CM));
        let height = self.height.larger(scalar(LEAST_CM));
        match kind {
            DummyPrimitiveKind::Cuboid => DummyDefaults {
                size: (Measure::Same(x), Measure::Same(y), Measure::Same(z)),
                radius: Measure::Same(radius),
                height: Measure::Same(height),
            },
            DummyPrimitiveKind::Cube => DummyDefaults {
                size: (Measure::Same(x), Measure::Same(x), Measure::Same(x)),
                radius: Measure::HalfOf(x),
                height: Measure::Same(x),
            },
            DummyPrimitiveKind::Sphere => DummyDefaults {
                size: (Measure::TwiceOf(radius), Measure::TwiceOf(radius), Measure::TwiceOf(radius)),
                radius: Measure::Same(radius),
                height: Measure::TwiceOf(radius),
            },
            DummyPrimitiveKind::Stairs => DummyDefaults {
                size: (Measure::Same(x), Measure::Same(height), Measure::Same(z)),
                radius: Measure::HalfOf(x),
                height: Measure::Same(height),
            },
            DummyPrimitiveKind::Arch => DummyDefaults {
                size: (Measure::Same(x), Measure::TwiceOf(radius), Measure::Same(z)),
                radius: Measure::HalfOf(z),
                height: Measure::TwiceOf(radius),
            },
            _ => DummyDefaults {
                size: (
                    Measure::Same(scalar(TENTH)),
                    Measure::Same(scalar(TENTH)),
                    Measure::Same(scalar(TENTH)),
                ),
                radius: Measure::Same(scalar(TENTH)),
                height: Measure::Same(scalar(TENTH)),
            },
        }
    }
}

/// The dimensions that a collider takes from its object.
pub fn dummy_collider_defaults(kind: DummyPrimitiveKind, dims: &DummyDims) -> (r: DummyDefaults)
    ensures
        r == dims.defaults(kind),
{
    let x: Scalar = dims.size.x.max(scalar(LEAST_CM));
    let y: Scalar = dims.size.y.max(scalar(LEAST_CM));
    let z: Scalar = dims.size.z.max(scalar(LEAST_CM));
    let radius: Scalar = dims.radius.max(scalar(LEAST_CM));
    let height: Scalar = dims.height.max(scalar(LEAST_CM));
    match kind {
        DummyPrimitiveKind::Cuboid => DummyDefaults {
            size: (Measure::Same(x), Measure::Same(y), Measure::Same(z)),
            radius: Measure::Same(radius),
            height: Measure::Same(height),
        },
        DummyPrimitiveKind::Cube => DummyDefaults {
            size: (Measure::Same(x), Measure::Same(x), Measure::Same(x)),
            radius: Measure::HalfOf(x),
            height: Measure::Same(x),
        },
        DummyPrimitiveKind::Sphere => DummyDefaults {
            size: (Measure::TwiceOf(radius), Measure::TwiceOf(radius), Measure::TwiceOf(radius)),
            radius: Measure::Same(radius),
            height: Measure::TwiceOf(radius),
        },
        DummyPrimitiveKind::Stairs => DummyDefaults {
            size: (Measure::Same(x), Measure::Same(height), Measure::Same(z)),
            radius: Measure::HalfOf(x),
            height: Measure::Same(height),
        },
        DummyPrimitiveKind::Arch => DummyDefaults {
            size: (Measure::Same(x), Measure::TwiceOf(radius), Measure::Same(z)),
            radius: Measure::HalfOf(z),
            height: Measure::TwiceOf(radius),
        },
        _ => DummyDefaults {
            size: (
                Measure::Same(scalar(TENTH)),
                Measure::Same(scalar(TENTH)),
                Measure::Same(scalar(TENTH)),
            ),
            radius: Measure::Same(scalar(TENTH)),
            height: Measure::Same(scalar(TENTH)),
        },
    }
}

/// The colliders that stairs are made of: one ramp, a sensor on each step and,
/// where characters are to notice them, one trigger.
#[derive(Clone, Copy, PartialEq, Eq, Structural, Debug)]
pub struct StairsPlan {
    pub width: Scalar,
    pub height: Scalar,
    pub depth: Scalar,
    pub steps: u32,
    pub invert_slope: bool,
    pub is_static: bool,
    pub friction: Option<Scalar>,
    pub restitution: Option<Scalar>,
    pub trigger: bool,
    /// How far the trigger floats; without it the steps decide.
    pub clearance: Option<Scalar>,
}

pub fn attach_stairs_dummy_colliders(
    dims: &DummyDims,
    steps: u32,
    def: &DummyColliderDef,
) -> (r: StairsPlan)
    ensures
        r == (StairsPlan {
            width: dims.size.x.larger(scalar(LEAST_5_CM)),
            height: dims.height.larger(scalar(LEAST_5_CM)),
            depth: dims.size.z.larger(scalar(LEAST_5_CM)),
            steps: if steps == 0 {
                1
            } else {
                steps
            },
            invert_slope: def.stairs_slope_invert,
            is_static: def.is_static,
            friction: positive(def.friction),
            restitution: positive(def.restitution),
            trigger: def.stairs,
            clearance: positive(def.stairs_clearance_y),
        }),
{
    let count: u32 = if steps == 0 {
        1
    } else {
        steps
    };
    StairsPlan {
        width: dims.size.x.max(scalar(LEAST_5_CM)),
        height: dims.height.max(scalar(LEAST_5_CM)),
        depth: dims.size.z.max(scalar(LEAST_5_CM)),
        steps: count,
        invert_slope: def.stairs_slope_invert,
        is_static: def.is_static,
        friction: if_positive(def.friction),
        restitution: if_positive(def.restitution),
        trigger: def.stairs,
        clearance: if_positive(def.stairs_clearance_y),
    }
}

/// The children of an object that were generated for it, in order.
pub open spec fn generated_among(children: Seq<u64>, generated: Set<u64>) -> Seq<u64>
    decreases children.len(),
{
    if children.len() == 0 {
        children
    } else if generated.contains(children.last()) {
        generated_among(children.drop_last(), generated).push(children.last())
    } else {
        generated_among(children.drop_last(), generated)
    }
}

/// The generated children of an object, which go before new ones come.
pub fn clear_generated_dummy_colliders(
    children: &Vec<u64>,
    generated: &HashSet<u64>,
) -> (r: Vec<u64>)
    ensures
        r@ == generated_among(children@, generated@),
{
    let mut r: Vec<u64> = Vec::new();
    let mut i: usize = 0;
    assert(children@.take(0) =~= Seq::<u64>::empty());
    while i < children.len()
        invariant
            i <= children.len(),
            r@ == generated_among(children@.take(i as int), generated@),
        decreases children.len() - i,
    {
        proof {
            lemma_take_next(children@, i as int);
        }
        if generated.contains(&children[i]) {
            r.push(children[i]);
        }
        i = i + 1;
    }
    assert(children@.take(children.len() as int) =~= children@);
    r
}

/// The height of the ground below a foot; zero where there is none.
pub fn foot_height(below: Option<Scalar>) -> (r: Scalar)
    ensures
        r == match below {
            Some(y) => y,
            None => scalar(ZERO),
        },
{
    match below {
        Some(y) => y,
        None => scalar(ZERO),
    }
}

/// A box has exactly the half extents that the model gives; the half-metre cube
/// stands only where it gives none.
pub proof fn law_box_extents(dc: &DrawableCollision, has_mesh: bool, r: Option<ColliderSpec>)
    requires
        call_ensures(collider_spec_from_drawable, (dc, has_mesh), r),
    ensures
        dc.shape is Box && dc.half_extents is Some ==> r == Some(
            ColliderSpec::Cuboid { half: dc.half_extents->0 },
        ),
        dc.shape is Box && dc.half_extents is None ==> r == Some(
            ColliderSpec::Cuboid {
                half: Extent {
                    x: scalar(0x3f00_0000),
                    y: scalar(0x3f00_0000),
                    z: scalar(0x3f00_0000),
                },
            },
        ),
        r matches Some(ColliderSpec::Cuboid { half }) ==> (dc.half_extents is Some ==> half
            == dc.half_extents->0),
{
}

/// A ball, a capsule and a cylinder have the radius that the model gives, half a
/// metre where it gives none and a tenth of a millimetre at least; a capsule has
/// the given height or none, a cylinder the given one or a metre.
pub proof fn law_round_colliders(dc: &DrawableCollision, has_mesh: bool, r: Option<ColliderSpec>)
    requires
        call_ensures(collider_spec_from_drawable, (dc, has_mesh), r),
    ensures
        dc.shape is Sphere ==> r is Some && r->0 is Sphere,
        dc.shape is Capsule ==> r is Some && r->0 is Capsule && r->0->Capsule_height == dc.height,
        dc.shape is Cylinder ==> r is Some && r->0 is Cylinder,
        dc.shape is Sphere || dc.shape is Capsule || dc.shape is Cylinder ==> {
            let radius = match r->0 {
                ColliderSpec::Sphere { radius } => radius,
                ColliderSpec::Capsule { radius, .. } => radius,
                ColliderSpec::Cylinder { radius, .. } => radius,
                _ => scalar(0),
            };
            &&& scalar(0x38d1_b717).at_most(radius)
            &&& dc.radius is None ==> radius == scalar(0x3f00_0000)
            &&& dc.radius matches Some(given) ==> {
                &&& scalar(0x38d1_b717).at_most(given) ==> radius == given
                &&& !scalar(0x38d1_b717).at_most(given) ==> radius == scalar(0x38d1_b717)
            }
        },
        dc.shape is Cylinder ==> {
            let height = r->0->Cylinder_height;
            &&& dc.height is None ==> height == scalar(0x3f80_0000)
            &&& dc.height matches Some(given) ==> {
                &&& scalar(0x38d1_b717).at_most(given) ==> height == given
                &&& !scalar(0x38d1_b717).at_most(given) ==> height == scalar(0x38d1_b717)
            }
        },
{
}

/// What a mesh gives: its convex hull, or its triangles where a fixed part asks
/// for them. A part without a mesh gets the box, and one that guides characters
/// gets nothing.
pub proof fn law_mesh_colliders(
    dc: &DrawableCollision,
    has_mesh: bool,
    r: Option<ColliderSpec>,
    boxy: &DrawableCollision,
    b: Option<ColliderSpec>,
)
    requires
        call_ensures(collider_spec_from_drawable, (dc, has_mesh), r),
        call_ensures(collider_spec_from_drawable, (boxy, has_mesh), b),
        boxy.shape is Box,
        boxy.half_extents == dc.half_extents,
    ensures
        dc.shape is Navmesh <==> r is None,
        r == Some(ColliderSpec::Trimesh) <==> dc.shape is Mesh && has_mesh && dc.is_static,
        r == Some(ColliderSpec::ConvexHull) <==> has_mesh && (dc.shape is Convex || (dc.shape is Mesh
            && !dc.is_static)),
        !has_mesh && (dc.shape is Convex || dc.shape is Mesh) ==> r == b,
{
}

/// An axis is locked exactly where the model locks it, and a body without a
/// locked axis has none to tell of.
pub proof fn law_locked_axes(dc: &DrawableCollision, r: Option<LockedAxes>)
    requires
        call_ensures(locked_axes_from_drawable, (dc,), r),
    ensures
        dc.lock_translation is None && dc.lock_rotation is None ==> r is None,
        r matches Some(a) ==> {
            &&& dc.lock_translation is Some ==> a.translation == dc.lock_translation->0
            &&& dc.lock_translation is None ==> a.translation == (false, false, false)
            &&& dc.lock_rotation is Some ==> a.rotation == dc.lock_rotation->0
            &&& dc.lock_rotation is None ==> a.rotation == (false, false, false)
        },
        dc.lock_translation matches Some(t) && (t.0 || t.1 || t.2) ==> r is Some,
        dc.lock_rotation matches Some(t) && (t.0 || t.1 || t.2) ==> r is Some,
        r matches Some(a) ==> a.translation.0 || a.translation.1 || a.translation.2 || a.rotation.0
            || a.rotation.1 || a.rotation.2,
{
}

/// The plan for a model's part takes its collider and its axes from the model. A
/// body above the part carries it; else the part carries its own, unless it is
/// skinned: then the root does. Coefficients count where they are positive.
pub proof fn law_drawable_plan(
    entity: u64,
    dc: &DrawableCollision,
    has_mesh: bool,
    skinned: bool,
    parents: &HashMap<u64, u64>,
    bodies: &HashSet<u64>,
    r: Option<DrawablePlan>,
    collider: Option<ColliderSpec>,
    axes: Option<LockedAxes>,
    above: bool,
    top: u64,
)
    requires
        call_ensures(
            attach_or_update_drawable_colliders,
            (entity, dc, has_mesh, skinned, parents, bodies),
            r,
        ),
        call_ensures(collider_spec_from_drawable, (dc, has_mesh), collider),
        call_ensures(locked_axes_from_drawable, (dc,), axes),
        call_ensures(has_rigidbody_ancestor, (entity, parents, bodies), above),
        call_ensures(topmost_ancestor, (entity, parents), top),
    ensures
        r is Some <==> collider is Some,
        r matches Some(p) ==> {
            &&& p.collider == collider->0
            &&& p.axes == axes
            &&& p.is_static == dc.is_static
            &&& p.owner is Above <==> above
            &&& p.owner is This <==> !above && !skinned
            &&& !above && skinned ==> p.owner == BodyOwner::Root(top)
            &&& scalar(0).less(dc.friction) ==> p.friction == Some(dc.friction)
            &&& !scalar(0).less(dc.friction) ==> p.friction is None
            &&& scalar(0).less(dc.restitution) ==> p.restitution == Some(dc.restitution)
            &&& !scalar(0).less(dc.restitution) ==> p.restitution is None
        },
{
    if r is Some && !above && skinned {
        let t = r->0.owner->Root_0;
        let n = choose|n: nat| #[trigger] ancestor(parents@, entity, n) == Some(t);
        let m = choose|m: nat| #[trigger] ancestor(parents@, entity, m) == Some(top);
        law_root_unique(parents@, entity, n, m, t, top);
    }
}

/// The collider that a definition describes: its own dimensions, a millimetre at
/// least, and the object's where it leaves the preset (a size of one metre, a
/// radius of half a metre, a height of one). A shape that is left open is a box.
pub proof fn law_dummy_collider(
    def: &DummyColliderDef,
    size: Extent,
    radius: Scalar,
    height: Scalar,
    r: Option<DummyCollider>,
)
    requires
        call_ensures(collider_from_dummy_def, (def, size, radius, height), r),
    ensures
        r is None <==> def.shape is Off,
        def.shape is Auto || def.shape is Box ==> r is Some && r->0 is Cuboid,
        r matches Some(DummyCollider::Cuboid(s)) ==> {
            let preset = def.size.x.equals(scalar(0x3f80_0000)) && def.size.y.equals(
                scalar(0x3f80_0000),
            ) && def.size.z.equals(scalar(0x3f80_0000));
            &&& preset ==> s == size
            &&& !preset && scalar(0x3a83_126f).at_most(def.size.x) ==> s.x == def.size.x
            &&& !preset && scalar(0x3a83_126f).at_most(def.size.y) ==> s.y == def.size.y
            &&& !preset && scalar(0x3a83_126f).at_most(def.size.z) ==> s.z == def.size.z
            &&& !preset && !scalar(0x3a83_126f).at_most(def.size.x) ==> s.x == scalar(0x3a83_126f)
            &&& !preset && !scalar(0x3a83_126f).at_most(def.size.y) ==> s.y == scalar(0x3a83_126f)
            &&& !preset && !scalar(0x3a83_126f).at_most(def.size.z) ==> s.z == scalar(0x3a83_126f)
        },
        def.shape is Sphere ==> r is Some && r->0 is Sphere,
        def.shape is Capsule ==> r is Some && r->0 is Capsule,
        def.shape is Cylinder ==> r is Some && r->0 is Cylinder,
        def.shape is Sphere || def.shape is Capsule || def.shape is Cylinder ==> {
            let got = match r->0 {
                DummyCollider::Sphere { radius } => radius,
                DummyCollider::Capsule { radius, .. } => radius,
                DummyCollider::Cylinder { radius, .. } => radius,
                _ => scalar(0),
            };
            let preset = scalar(0x3eff_fffd).at_most(def.radius) && def.radius.at_most(
                scalar(0x3f00_0001),
            );
            &&& preset ==> got == radius
            &&& !preset && scalar(0x3a83_126f).at_most(def.radius) ==> got == def.radius
            &&& !preset && !scalar(0x3a83_126f).at_most(def.radius) ==> got == scalar(0x3a83_126f)
        },
        def.shape is Capsule || def.shape is Cylinder ==> {
            let got = match r->0 {
                DummyCollider::Capsule { full_height, .. } => full_height,
                DummyCollider::Cylinder { height, .. } => height,
                _ => scalar(0),
            };
            let preset = scalar(0x3f7f_ffff).at_most(def.height) && def.height.at_most(
                scalar(0x3f80_0000),
            );
            &&& preset ==> got == height
            &&& !preset && scalar(0x3a83_126f).at_most(def.height) ==> got == def.height
            &&& !preset && !scalar(0x3a83_126f).at_most(def.height) ==> got == scalar(0x3a83_126f)
        },
{
}

/// A plain object: one that is switched off loses its collider, stairs get their
/// own, and any other one gets what its definition describes. An open shape fits
/// the object: a ball for a sphere, a capsule for an arch, a box for cuboids and
/// cubes; other objects keep what they have.
pub proof fn law_dummy_plan(
    kind: DummyPrimitiveKind,
    def: &DummyColliderDef,
    size: Extent,
    radius: Scalar,
    height: Scalar,
    r: DummyPlan,
    fitted: &DummyColliderDef,
    collider: Option<DummyCollider>,
)
    requires
        call_ensures(attach_or_update_dummy_colliders, (kind, def, size, radius, height), r),
        call_ensures(collider_from_dummy_def, (fitted, size, radius, height), collider),
        fitted.size == def.size,
        fitted.radius == def.radius,
        fitted.height == def.height,
        def.shape is Auto ==> match kind {
            DummyPrimitiveKind::Sphere => fitted.shape is Sphere,
            DummyPrimitiveKind::Arch => fitted.shape is Capsule,
            DummyPrimitiveKind::Cuboid => fitted.shape is Box,
            DummyPrimitiveKind::Cube => fitted.shape is Box,
            _ => fitted.shape is Off,
        },
        !(def.shape is Auto) ==> fitted.shape == def.shape,
    ensures
        r is Clear <==> !def.enabled || def.shape is Off,
        r is Stairs <==> !(r is Clear) && kind is Stairs,
        !(r is Clear) && !(r is Stairs) && collider is None ==> r is Keep,
        !(r is Clear) && !(r is Stairs) && collider is Some ==> {
            &&& r matches DummyPlan::Attach {
                collider: c,
                is_static,
                is_trigger,
                stairs,
                friction,
                restitution,
            }
            &&& c == collider->0
            &&& is_static == def.is_static
            &&& is_trigger == def.is_trigger
            &&& !stairs
            &&& friction == if scalar(0).less(def.friction) {
                Some(def.friction)
            } else {
                None
            }
            &&& restitution == if scalar(0).less(def.restitution) {
                Some(def.restitution)
            } else {
                None
            }
        },
{
}

/// An object that is nothing but a collider: its definition's collider, with the
/// metre, the half metre and the metre in place of an object's dimensions, and
/// marked as stairs where the definition says so.
pub proof fn law_collider_object(
    def: &DummyColliderDef,
    r: DummyPlan,
    size: Extent,
    collider: Option<DummyCollider>,
)
    requires
        call_ensures(attach_or_update_collider_objects, (def,), r),
        size.x == scalar(0x3f80_0000),
        size.y == scalar(0x3f80_0000),
        size.z == scalar(0x3f80_0000),
        call_ensures(
            collider_from_dummy_def,
            (def, size, scalar(0x3f00_0000), scalar(0x3f80_0000)),
            collider,
        ),
    ensures
        r is Clear <==> !def.enabled || def.shape is Off,
        !(r is Clear) ==> {
            &&& r matches DummyPlan::Attach {
                collider: c,
                is_static,
                is_trigger,
                stairs,
                friction,
                restitution,
            }
            &&& collider == Some(c)
            &&& is_static == def.is_static
            &&& is_trigger == def.is_trigger
            &&& stairs == def.stairs
            &&& friction == if scalar(0).less(def.friction) {
                Some(def.friction)
            } else {
                None
            }
            &&& restitution == if scalar(0).less(def.restitution) {
                Some(def.restitution)
            } else {
                None
            }
        },
{
}

/// The dimensions that a collider takes from its object, each a centimetre at
/// least: a cuboid is itself, a cube has one side, a ball is as wide and high as
/// twice its radius, stairs are as high as they rise, and an arch as twice its
/// radius. Anything else is a tenth of a metre.
pub proof fn law_dummy_defaults(kind: DummyPrimitiveKind, dims: &DummyDims, r: DummyDefaults)
    requires
        call_ensures(dummy_collider_defaults, (kind, dims), r),
    ensures
        kind is Cuboid ==> {
            &&& r.size.0 matches Measure::Same(x) && lifted(dims.size.x, scalar(0x3c23_d70a), x)
            &&& r.size.1 matches Measure::Same(y) && lifted(dims.size.y, scalar(0x3c23_d70a), y)
            &&& r.size.2 matches Measure::Same(z) && lifted(dims.size.z, scalar(0x3c23_d70a), z)
            &&& r.radius matches Measure::Same(q) && lifted(dims.radius, scalar(0x3c23_d70a), q)
            &&& r.height matches Measure::Same(h) && lifted(dims.height, scalar(0x3c23_d70a), h)
        },
        kind is Cube ==> {
            &&& r.size.0 matches Measure::Same(x) && lifted(dims.size.x, scalar(0x3c23_d70a), x)
            &&& r.size.1 == r.size.0
            &&& r.size.2 == r.size.0
            &&& r.height == r.size.0
            &&& r.radius matches Measure::HalfOf(q) && lifted(dims.size.x, scalar(0x3c23_d70a), q)
        },
        kind is Sphere ==> {
            &&& r.radius matches Measure::Same(q) && lifted(dims.radius, scalar(0x3c23_d70a), q)
            &&& r.height matches Measure::TwiceOf(q) && lifted(dims.radius, scalar(0x3c23_d70a), q)
            &&& r.size.0 == r.height
            &&& r.size.1 == r.height
            &&& r.size.2 == r.height
        },
        kind is Stairs ==> {
            &&& r.size.0 matches Measure::Same(x) && lifted(dims.size.x, scalar(0x3c23_d70a), x)
            &&& r.size.1 matches Measure::Same(y) && lifted(dims.height, scalar(0x3c23_d70a), y)
            &&& r.size.2 matches Measure::Same(z) && lifted(dims.size.z, scalar(0x3c23_d70a), z)
            &&& r.radius matches Measure::HalfOf(q) && lifted(dims.size.x, scalar(0x3c23_d70a), q)
            &&& r.height == r.size.1
        },
        kind is Arch ==> {
            &&& r.size.0 matches Measure::Same(x) && lifted(dims.size.x, scalar(0x3c23_d70a), x)
            &&& r.size.1 matches Measure::TwiceOf(y) && lifted(dims.radius, scalar(0x3c23_d70a), y)
            &&& r.size.2 matches Measure::Same(z) && lifted(dims.size.z, scalar(0x3c23_d70a), z)
            &&& r.radius matches Measure::HalfOf(q) && lifted(dims.size.z, scalar(0x3c23_d70a), q)
            &&& r.height == r.size.1
        },
        !(kind is Cuboid || kind is Cube || kind is Sphere || kind is Stairs || kind is Arch) ==> {
            let tenth = Measure::Same(scalar(0x3dcc_cccd));
            r.size == (tenth, tenth, tenth) && r.radius == tenth && r.height == tenth
        },
{
}

/// The colliders of stairs: five centimetres at least in every direction, one
/// step at least, and a trigger where the stairs are to be noticed.
pub proof fn law_stairs_plan(dims: &DummyDims, steps: u32, def: &DummyColliderDef, r: StairsPlan)
    requires
        call_ensures(attach_stairs_dummy_colliders, (dims, steps, def), r),
    ensures
        scalar(0x3d4c_cccd).at_most(dims.size.x) ==> r.width == dims.size.x,
        scalar(0x3d4c_cccd).at_most(dims.height) ==> r.height == dims.height,
        scalar(0x3d4c_cccd).at_most(dims.size.z) ==> r.depth == dims.size.z,
        !scalar(0x3d4c_cccd).at_most(dims.size.x) ==> r.width == scalar(0x3d4c_cccd),
        !scalar(0x3d4c_cccd).at_most(dims.height) ==> r.height == scalar(0x3d4c_cccd),
        !scalar(0x3d4c_cccd).at_most(dims.size.z) ==> r.depth == scalar(0x3d4c_cccd),
        steps > 0 ==> r.steps == steps,
        steps == 0 ==> r.steps == 1,
        r.invert_slope == def.stairs_slope_invert,
        r.is_static == def.is_static,
        r.trigger == def.stairs,
        scalar(0).less(def.friction) ==> r.friction == Some(def.friction),
        !scalar(0).less(def.friction) ==> r.friction is None,
        scalar(0).less(def.restitution) ==> r.restitution == Some(def.restitution),
        !scalar(0).less(def.restitution) ==> r.restitution is None,
        scalar(0).less(def.stairs_clearance_y) ==> r.clearance == Some(def.stairs_clearance_y),
        !scalar(0).less(def.stairs_clearance_y) ==> r.clearance is None,
{
}

/// The children that go are those that were generated, and no others.
pub proof fn law_generated_go(
    children: &Vec<u64>,
    generated: &HashSet<u64>,
    r: Vec<u64>,
    e: u64,
)
    requires
        call_ensures(clear_generated_dummy_colliders, (children, generated), r),
    ensures
        r@.contains(e) <==> children@.contains(e) && generated@.contains(e),
{
    lemma_generated(children@, generated@, e);
}

proof fn lemma_generated(children: Seq<u64>, generated: Set<u64>, e: u64)
    ensures
        generated_among(children, generated).contains(e) <==> children.contains(e)
            && generated.contains(e),
    decreases children.len(),
{
    if children.len() > 0 {
        let front = children.drop_last();
        lemma_generated(front, generated, e);
        lemma_last_contains(children, e);
        lemma_push_contains(generated_among(front, generated), children.last(), e);
    }
}

/// A foot stands at the height of what is below it, or at zero above nothing.
pub proof fn law_foot_height(below: Option<Scalar>, r: Scalar)
    requires
        call_ensures(foot_height, (below,), r),
    ensures
        below matches Some(y) ==> r == y,
        below is None ==> r == scalar(0),
{
}

} // verus!
