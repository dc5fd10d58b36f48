//! Component data attached to entities.

use crate::scalar::{Scalar, SCALE};
use vstd::prelude::*;

verus! {

/// How a rigid body takes part in the simulation.
#[derive(Debug, Clone, Copy, PartialEq, Eq, Hash, Structural)]
pub enum BodyType {
    /// Never moves; acts as if its mass were infinite.
    Static,
    /// Reserved; every system treats it like `Static`.
    Kinematic,
    /// Integrated every step and moved by contacts.
    Dynamic,
}

impl BodyType {
    /// Only dynamic bodies are moved by forces and contacts.
    pub open spec fn spec_is_dynamic(self) -> bool {
        self == BodyType::Dynamic
    }

    /// Whether forces and contacts move a body of this kind.
    #[verifier::when_used_as_spec(spec_is_dynamic)]
    pub fn is_dynamic(self) -> (b: bool)
        ensures
            b == self.spec_is_dynamic(),
    {
        match self {
            BodyType::Dynamic => true,
            _ => false,
        }
    }
}

/// Axis-aligned bounding box, as offsets `[left, right, bottom, top]` from the position.
#[derive(Clone, Copy, Debug, PartialEq, Eq)]
pub struct Collider {
    pub aabb_offset: [Scalar; 4],
}

impl Default for Collider {
    fn default() -> (c: Collider)
        ensures
            c.aabb_offset[0]@ == -1_000_000,
            c.aabb_offset[1]@ == 0,
            c.aabb_offset[2]@ == -250_000,
            c.aabb_offset[3]@ == 250_000,
    {
        Collider {
            aabb_offset: [
                Scalar { raw: -1_000_000 },
                Scalar { raw: 0 },
                Scalar { raw: -250_000 },
                Scalar { raw: 250_000 },
            ],
        }
    }
}

/// A textured quad: texture coordinates `[u_min, u_max, v_min, v_max]` and the atlas name.
#[derive(Clone, Debug)]
pub struct Tile {
    pub uv: [Scalar; 4],
    pub atlas: String,
}

/// Where an entity is and how large it is drawn.
///
/// `position[2]` only orders drawing; physics reads and writes the first two.
#[derive(Clone, Copy, Debug, PartialEq, Eq)]
pub struct Transform {
    pub position: [Scalar; 3],
    pub size: [Scalar; 2],
}

impl Transform {
    /// The transform shifted by `(dx, dy)` in the plane.
    pub open spec fn spec_translated(self, dx: Scalar, dy: Scalar) -> Transform {
        Transform {
            position: [self.position[0].add(dx), self.position[1].add(dy), self.position[2]],
            size: self.size,
        }
    }

    /// Shifts the transform by `(dx, dy)` in the plane; depth and size are kept.
    #[verifier::when_used_as_spec(spec_translated)]
    pub fn translated(self, dx: Scalar, dy: Scalar) -> (t: Transform)
        ensures
            t == self.spec_translated(dx, dy),
    {
        Transform {
            position: [self.position[0].add(dx), self.position[1].add(dy), self.position[2]],
            size: self.size,
        }
    }
}

/// A line of text and a counter that changes whenever the text does.
#[derive(Clone, Debug)]
pub struct Text {
    pub content: String,
    pub version: u64,
}

impl Default for Text {
    fn default() -> (t: Text)
        ensures
            t.content@ == Seq::<char>::empty(),
            t.version == 0,
    {
        Text { content: String::new(), version: 0 }
    }
}

impl Text {
    /// Replaces the text. The version advances by one, wrapping around, exactly
    /// when the new text differs from the old.
    pub fn set_content(&mut self, content: String)
        ensures
            final(self).content@ == content@,
            old(self).content@ == content@ ==> final(self).version == old(self).version,
            old(self).content@ != content@ ==> final(self).version as int == (old(self).version
                + 1) % 0x1_0000_0000_0000_0000,
    {
        if self.content != content {
            self.content = content;
            self.version = if self.version == u64::MAX {
                0
            } else {
                self.version + 1
            };
        }
    }
}

/// How a line of text is drawn.
#[derive(Clone, Copy, Debug, PartialEq, Eq)]
pub struct TextStyle {
    pub size: [Scalar; 2],
    pub color: [Scalar; 3],
    pub z_index: Scalar,
}

impl Default for TextStyle {
    fn default() -> (s: TextStyle)
        ensures
            s.size[0]@ == SCALE,
            s.size[1]@ == SCALE,
            s.color[0]@ == SCALE,
            s.color[1]@ == SCALE,
            s.color[2]@ == SCALE,
            s.z_index@ == SCALE,
    {
        let one = Scalar::one();
        TextStyle { size: [one, one], color: [one, one, one], z_index: one }
    }
}

/// A sprite-sheet animation: which frame is shown and when the next one is due.
#[derive(Clone, Copy, Debug, PartialEq, Eq)]
pub struct Animation {
    pub current_frame: u32,
    pub frame_count: u32,
    pub frame_duration: Scalar,
    pub elapsed_time: Scalar,
    pub loop_animation: bool,
    pub finished: bool,
    pub atlas_columns: u32,
    pub atlas_rows: u32,
}

impl Default for Animation {
    fn default() -> (a: Animation)
        ensures
            a.current_frame == 0,
            a.frame_count == 1,
            a.frame_duration@ == SCALE,
            a.elapsed_time@ == 0,
            a.loop_animation,
            !a.finished,
            a.atlas_columns == 1,
            a.atlas_rows == 1,
    {
        Animation {
            current_frame: 0,
            frame_count: 1,
            frame_duration: Scalar::one(),
            elapsed_time: Scalar::zero(),
            loop_animation: true,
            finished: false,
            atlas_columns: 1,
            atlas_rows: 1,
        }
    }
}

/// Mass, bounciness and kind of a body.
#[derive(Clone, Copy, Debug, PartialEq, Eq)]
pub struct RigidBody {
    pub body_type: BodyType,
    pub mass: Scalar,
    /// From 0 (no bounce) to 1 (perfect bounce).
    pub restitution: Scalar,
}

impl RigidBody {
    /// A body is valid when its restitution lies in `[0, 1]` and, unless it is
    /// static, its mass is positive.
    pub open spec fn spec_is_valid(&self) -> bool {
        &&& 0 <= self.restitution@ <= SCALE
        &&& self.body_type != BodyType::Static ==> self.mass@ > 0
    }

    /// Checks the body before it is attached to an entity.
    #[verifier::when_used_as_spec(spec_is_valid)]
    pub fn is_valid(&self) -> (ok: bool)
        ensures
            ok == self.spec_is_valid(),
    {
        let restitution_ok = 0 <= self.restitution.raw && self.restitution.raw <= SCALE;
        match self.body_type {
            BodyType::Static => restitution_ok,
            _ => restitution_ok && self.mass.raw > 0,
        }
    }
}

impl Default for RigidBody {
    fn default() -> (b: RigidBody)
        ensures
            b.body_type == BodyType::Dynamic,
            b.mass@ == SCALE,
            b.restitution@ == 0,
    {
        RigidBody { body_type: BodyType::Dynamic, mass: Scalar::one(), restitution: Scalar::zero() }
    }
}

/// Linear and angular velocity. The angular part is carried but not used.
#[derive(Clone, Copy, Debug, PartialEq, Eq)]
pub struct Velocity {
    pub linear: [Scalar; 2],
    pub angular: Scalar,
}

impl Default for Velocity {
    fn default() -> (v: Velocity)
        ensures
            v.linear[0]@ == 0,
            v.linear[1]@ == 0,
            v.angular@ == 0,
    {
        Velocity { linear: [Scalar::zero(), Scalar::zero()], angular: Scalar::zero() }
    }
}

/// Force accumulated over one step. The torque is carried but not used.
#[derive(Clone, Copy, Debug, PartialEq, Eq)]
pub struct Force {
    pub linear: [Scalar; 2],
    pub torque: Scalar,
}

impl Default for Force {
    fn default() -> (f: Force)
        ensures
            f.linear[0]@ == 0,
            f.linear[1]@ == 0,
            f.torque@ == 0,
    {
        Force { linear: [Scalar::zero(), Scalar::zero()], torque: Scalar::zero() }
    }
}

/// A circle centred on the entity's position.
#[derive(Clone, Copy, Debug, PartialEq, Eq)]
pub struct CircleCollider {
    pub radius: Scalar,
}

impl Default for CircleCollider {
    fn default() -> (c: CircleCollider)
        ensures
            c.radius@ == 500_000,
    {
        CircleCollider { radius: Scalar { raw: 500_000 } }
    }
}

/// An axis-aligned box centred on the entity's position.
#[derive(Clone, Copy, Debug, PartialEq, Eq)]
pub struct BoxCollider {
    pub width: Scalar,
    pub height: Scalar,
}

impl Default for BoxCollider {
    fn default() -> (c: BoxCollider)
        ensures
            c.width@ == SCALE,
            c.height@ == SCALE,
    {
        BoxCollider { width: Scalar::one(), height: Scalar::one() }
    }
}

/// The physics components of one entity; `None` where the entity lacks one.
#[derive(Clone, Copy, Debug, PartialEq, Eq)]
pub struct Components {
    pub transform: Option<Transform>,
    pub velocity: Option<Velocity>,
    pub force: Option<Force>,
    pub body: Option<RigidBody>,
    pub circle: Option<CircleCollider>,
    pub box_collider: Option<BoxCollider>,
}

/// What animation reads and writes of an entity: the texture coordinates of
/// its tile and its animation.
#[derive(Clone, Copy, Debug, PartialEq, Eq)]
pub struct Sprite {
    pub uv: [Scalar; 4],
    pub animation: Animation,
}

} // verus!
