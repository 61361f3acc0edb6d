//! Records attached to game entities: placement, body kind, collision shape
//! and collision layers. The physics engine consumes these descriptions; the
//! core only builds and reads them.

use vstd::prelude::*;

use crate::units::Vec2;

verus! {

/// Draw layer of map tiles.
pub const TILE_Z: u64 = 100;

/// Draw layer of the player, above every tile.
pub const PLAYER_Z: u64 = 900;

/// Placement of an entity: a world position and a draw layer. The layer `z`
/// orders rendering only and never enters movement or collision logic.
#[derive(Clone, Copy, PartialEq, Eq, Structural, Debug)]
pub struct Transform {
    pub translation: Vec2,
    pub z: u64,
}

/// Snapshot of an entity's `Transform` as of the start of the tick.
#[derive(Clone, Copy, PartialEq, Eq, Structural, Debug)]
pub struct PrevTransform(pub Transform);

/// Refreshes the snapshot: after the call the previous-transform record holds
/// the entity's current placement. Runs first in the tick pipeline, before
/// any stage moves the entity.
pub fn maintain_previous_transform(trans: &Transform, prev: &mut PrevTransform)
    ensures
        final(prev).0 == *trans,
{
    prev.0 = *trans;
}

/// How the physics engine treats a body: obstacles are static, the player is
/// dynamic.
#[derive(Clone, Copy, PartialEq, Eq, Structural, Debug)]
pub enum RigidBody {
    Dynamic,
    Static,
}

/// Collision shape of a body, with extents in subunits.
#[derive(Clone, Copy, PartialEq, Eq, Structural, Debug)]
pub enum CollisionShape {
    Sphere { radius: u64 },
    Cuboid { half_extent: u64 },
}

/// The closed enumeration of collision layers.
#[derive(Clone, Copy, PartialEq, Eq, Structural, Debug)]
pub enum Layer {
    Player,
    Obstacle,
    Unit,
    Bullet,
}

/// A set of collision layers, one flag per `Layer` variant.
#[derive(Clone, Copy, PartialEq, Eq, Structural, Debug)]
pub struct LayerSet {
    pub player: bool,
    pub obstacle: bool,
    pub unit: bool,
    pub bullet: bool,
}

impl LayerSet {
    /// Whether the set holds the given layer.
    pub open spec fn contains(self, l: Layer) -> bool {
        match l {
            Layer::Player => self.player,
            Layer::Obstacle => self.obstacle,
            Layer::Unit => self.unit,
            Layer::Bullet => self.bullet,
        }
    }

    /// The set of every layer.
    pub fn all() -> (s: LayerSet)
        ensures
            forall|l: Layer| s.contains(l),
    {
        LayerSet { player: true, obstacle: true, unit: true, bullet: true }
    }

    /// The empty set.
    pub fn none() -> (s: LayerSet)
        ensures
            forall|l: Layer| !s.contains(l),
    {
        LayerSet { player: false, obstacle: false, unit: false, bullet: false }
    }
}

/// Layer membership of a body: the groups it belongs to, and the mask of
/// groups it interacts with.
#[derive(Clone, Copy, PartialEq, Eq, Structural, Debug)]
pub struct CollisionLayers {
    pub groups: LayerSet,
    pub masks: LayerSet,
}

} // verus!
