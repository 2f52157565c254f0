//! Collision layers: which groups of entities push each other apart.
use vstd::prelude::*;

verus! {

/// The group an entity belongs to and the groups it interacts with.
#[derive(Debug, Clone, Copy, PartialEq, Eq, Structural)]
pub struct CollisionLayer {
    pub group: u32,
    pub mask: u32,
}

/// Whether two layers interact: each one's mask names the other's group.
pub open spec fn spec_collides(a: CollisionLayer, b: CollisionLayer) -> bool {
    (a.mask & b.group) != 0 && (b.mask & a.group) != 0
}

impl CollisionLayer {
    /// Group of players.
    pub const PLAYER: u32 = 1;
    /// Group of pets.
    pub const PET: u32 = 2;
    /// Group of enemies.
    pub const ENEMY: u32 = 4;

    /// A layer with the given group and mask.
    pub fn new(group: u32, mask: u32) -> (r: Self)
        ensures
            r.group == group,
            r.mask == mask,
    {
        CollisionLayer { group, mask }
    }

    /// Players interact with enemies.
    pub fn player() -> (r: Self)
        ensures
            r.group == 1,
            r.mask == 4,
    {
        Self::new(Self::PLAYER, Self::ENEMY)
    }

    /// Pets interact with enemies.
    pub fn pet() -> (r: Self)
        ensures
            r.group == 2,
            r.mask == 4,
    {
        Self::new(Self::PET, Self::ENEMY)
    }

    /// Enemies interact with players, pets and each other.
    pub fn enemy() -> (r: Self)
        ensures
            r.group == 4,
            r.mask == 7,
    {
        assert((1u32 | 2u32 | 4u32) == 7u32) by (bit_vector);
        Self::new(Self::ENEMY, Self::PLAYER | Self::PET | Self::ENEMY)
    }

    /// Whether this layer and `other` interact.
    pub fn collides_with(self, other: Self) -> (r: bool)
        ensures
            r == spec_collides(self, other),
    {
        (self.mask & other.group) != 0 && (other.mask & self.group) != 0
    }
}

/// Interaction is symmetric.
pub proof fn lemma_collides_symmetric(a: CollisionLayer, b: CollisionLayer)
    ensures
        spec_collides(a, b) == spec_collides(b, a),
{
}

} // verus!
