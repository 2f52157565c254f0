//! Delta updates: only what changed since the client's baseline.
use vstd::prelude::*;
use crate::protocol::quantization::Vec2i16;
use crate::protocol::snapshots::{NetId, SpawnNet};

verus! {

/// The changes of the world since the last acknowledged state.
#[derive(Debug, Clone)]
pub struct WorldDelta {
    /// Entities to create.
    pub spawns: Vec<SpawnNet>,
    /// Entities to remove.
    pub despawns: Vec<NetId>,
    /// Field updates of existing entities.
    pub updates: Vec<UpdateNet>,
}

impl WorldDelta {
    /// An empty delta.
    pub fn new() -> (r: Self)
        ensures
            r.spawns@ == Seq::<SpawnNet>::empty(),
            r.despawns@ == Seq::<NetId>::empty(),
            r.updates@ == Seq::<UpdateNet>::empty(),
    {
        WorldDelta { spawns: Vec::new(), despawns: Vec::new(), updates: Vec::new() }
    }

    /// Whether the delta carries no change at all.
    pub fn is_empty(&self) -> (r: bool)
        ensures
            r == (self.spawns@.len() == 0 && self.despawns@.len() == 0 && self.updates@.len() == 0),
    {
        self.spawns.len() == 0 && self.despawns.len() == 0 && self.updates.len() == 0
    }

    /// Number of spawns, despawns and updates together.
    pub fn total_changes(&self) -> (r: usize)
        requires
            self.spawns@.len() + self.despawns@.len() + self.updates@.len() <= usize::MAX,
        ensures
            r == self.spawns@.len() + self.despawns@.len() + self.updates@.len(),
    {
        self.spawns.len() + self.despawns.len() + self.updates.len()
    }

    /// Appends a spawn.
    pub fn add_spawn(&mut self, spawn: SpawnNet)
        ensures
            final(self).spawns@ == old(self).spawns@.push(spawn),
            final(self).despawns@ == old(self).despawns@,
            final(self).updates@ == old(self).updates@,
    {
        self.spawns.push(spawn);
    }

    /// Appends a despawn.
    pub fn add_despawn(&mut self, net_id: NetId)
        ensures
            final(self).spawns@ == old(self).spawns@,
            final(self).despawns@ == old(self).despawns@.push(net_id),
            final(self).updates@ == old(self).updates@,
    {
        self.despawns.push(net_id);
    }

    /// Appends an update.
    pub fn add_update(&mut self, update: UpdateNet)
        ensures
            final(self).spawns@ == old(self).spawns@,
            final(self).despawns@ == old(self).despawns@,
            final(self).updates@ == old(self).updates@.push(update),
    {
        self.updates.push(update);
    }
}

impl Default for WorldDelta {
    fn default() -> (r: Self)
        ensures
            r.spawns@ == Seq::<SpawnNet>::empty(),
            r.despawns@ == Seq::<NetId>::empty(),
            r.updates@ == Seq::<UpdateNet>::empty(),
    {
        WorldDelta::new()
    }
}

/// Bit of `UpdateNet::flags` marking a position change.
pub const FLAG_POS: u16 = 1;
/// Bit of `UpdateNet::flags` marking a velocity change.
pub const FLAG_VEL: u16 = 2;
/// Bit of `UpdateNet::flags` marking a hit point change.
pub const FLAG_HP: u16 = 4;

/// Update of a single entity; `flags` tells which fields are present.
#[derive(Debug, Clone, Copy, PartialEq, Eq)]
pub struct UpdateNet {
    pub id: NetId,
    /// Which fields are present.
    pub flags: u16,
    /// New position (when `FLAG_POS` is set).
    pub pos: Option<Vec2i16>,
    /// New velocity (when `FLAG_VEL` is set).
    pub vel: Option<Vec2i16>,
    /// New hit points (when `FLAG_HP` is set).
    pub hp: Option<u16>,
}

/// Whether `flag` is set in `flags`.
pub open spec fn flag_set(flags: u16, flag: u16) -> bool {
    (flags & flag) != 0
}

impl UpdateNet {
    /// Flag: the position changed.
    pub const FLAG_POS: u16 = 1;
    /// Flag: the velocity changed.
    pub const FLAG_VEL: u16 = 2;
    /// Flag: the hit points changed.
    pub const FLAG_HP: u16 = 4;

    /// The flags say exactly which optional fields are present.
    pub open spec fn flags_match_fields(self) -> bool {
        &&& flag_set(self.flags, FLAG_POS) <==> self.pos is Some
        &&& flag_set(self.flags, FLAG_VEL) <==> self.vel is Some
        &&& flag_set(self.flags, FLAG_HP) <==> self.hp is Some
        &&& (self.flags & !7u16) == 0
    }

    /// An update of `id` that changes nothing yet.
    pub fn new(id: NetId) -> (r: Self)
        ensures
            r.id == id,
            r.flags == 0,
            r.pos is None,
            r.vel is None,
            r.hp is None,
            r.flags_match_fields(),
    {
        assert(((0u16 & 1u16) == 0) && ((0u16 & 2u16) == 0) && ((0u16 & 4u16) == 0) && ((0u16
            & !7u16) == 0)) by (bit_vector);
        UpdateNet { id, flags: 0, pos: None, vel: None, hp: None }
    }

    /// Adds a position change.
    pub fn with_pos(self, pos: Vec2i16) -> (r: Self)
        ensures
            r.id == self.id,
            r.flags == self.flags | FLAG_POS,
            r.pos == Some(pos),
            r.vel == self.vel,
            r.hp == self.hp,
            self.flags_match_fields() ==> r.flags_match_fields(),
    {
        let f = self.flags;
        assert(((f | 1u16) & 1u16) != 0 && ((f | 1u16) & 2u16) == (f & 2u16) && ((f | 1u16) & 4u16)
            == (f & 4u16) && ((f | 1u16) & !7u16) == (f & !7u16)) by (bit_vector);
        UpdateNet { id: self.id, flags: self.flags | Self::FLAG_POS, pos: Some(pos), vel: self.vel, hp: self.hp }
    }

    /// Adds a velocity change.
    pub fn with_vel(self, vel: Vec2i16) -> (r: Self)
        ensures
            r.id == self.id,
            r.flags == self.flags | FLAG_VEL,
            r.pos == self.pos,
            r.vel == Some(vel),
            r.hp == self.hp,
            self.flags_match_fields() ==> r.flags_match_fields(),
    {
        let f = self.flags;
        assert(((f | 2u16) & 2u16) != 0 && ((f | 2u16) & 1u16) == (f & 1u16) && ((f | 2u16) & 4u16)
            == (f & 4u16) && ((f | 2u16) & !7u16) == (f & !7u16)) by (bit_vector);
        UpdateNet { id: self.id, flags: self.flags | Self::FLAG_VEL, pos: self.pos, vel: Some(vel), hp: self.hp }
    }

    /// Adds a hit point change.
    pub fn with_hp(self, hp: u16) -> (r: Self)
        ensures
            r.id == self.id,
            r.flags == self.flags | FLAG_HP,
            r.pos == self.pos,
            r.vel == self.vel,
            r.hp == Some(hp),
            self.flags_match_fields() ==> r.flags_match_fields(),
    {
        let f = self.flags;
        assert(((f | 4u16) & 4u16) != 0 && ((f | 4u16) & 1u16) == (f & 1u16) && ((f | 4u16) & 2u16)
            == (f & 2u16) && ((f | 4u16) & !7u16) == (f & !7u16)) by (bit_vector);
        UpdateNet { id: self.id, flags: self.flags | Self::FLAG_HP, pos: self.pos, vel: self.vel, hp: Some(hp) }
    }

    /// Whether any field is flagged.
    pub fn has_updates(&self) -> (r: bool)
        ensures
            r == (self.flags != 0),
    {
        self.flags != 0
    }

    /// Whether the position is flagged.
    pub fn has_pos(&self) -> (r: bool)
        ensures
            r == flag_set(self.flags, FLAG_POS),
    {
        (self.flags & Self::FLAG_POS) != 0
    }

    /// Whether the velocity is flagged.
    pub fn has_vel(&self) -> (r: bool)
        ensures
            r == flag_set(self.flags, FLAG_VEL),
    {
        (self.flags & Self::FLAG_VEL) != 0
    }

    /// Whether the hit points are flagged.
    pub fn has_hp(&self) -> (r: bool)
        ensures
            r == flag_set(self.flags, FLAG_HP),
    {
        (self.flags & Self::FLAG_HP) != 0
    }
}

/// An update whose flags match its fields carries something exactly when
/// one of its optional fields is present.
pub proof fn lemma_update_has_updates_iff_some_field(u: UpdateNet)
    requires
        u.flags_match_fields(),
    ensures
        (u.flags != 0) <==> (u.pos is Some || u.vel is Some || u.hp is Some),
{
    let f = u.flags;
    assert((f & !7u16) == 0 ==> (f != 0 <==> ((f & 1u16) != 0 || (f & 2u16) != 0 || (f & 4u16)
        != 0))) by (bit_vector);
}

/// Incremental construction of a `WorldDelta` that drops empty updates.
pub struct WorldDeltaBuilder {
    delta: WorldDelta,
}

impl WorldDeltaBuilder {
    /// No update held by the builder is empty.
    #[verifier::type_invariant]
    spec fn no_empty_updates(self) -> bool {
        forall|i: int| 0 <= i < self.delta.updates@.len() ==> #[trigger] self.delta.updates@[i].flags != 0
    }

    /// The delta built so far.
    pub closed spec fn current(self) -> WorldDelta {
        self.delta
    }

    /// A builder holding an empty delta.
    pub fn new() -> (r: Self)
        ensures
            r.current().spawns@ == Seq::<SpawnNet>::empty(),
            r.current().despawns@ == Seq::<NetId>::empty(),
            r.current().updates@ == Seq::<UpdateNet>::empty(),
    {
        WorldDeltaBuilder { delta: WorldDelta::new() }
    }

    /// Adds a spawn.
    pub fn spawn(self, spawn: SpawnNet) -> (r: Self)
        ensures
            r.current().spawns@ == self.current().spawns@.push(spawn),
            r.current().despawns@ == self.current().despawns@,
            r.current().updates@ == self.current().updates@,
    {
        proof { use_type_invariant(&self); }
        let mut delta = self.delta;
        delta.add_spawn(spawn);
        WorldDeltaBuilder { delta }
    }

    /// Adds a despawn.
    pub fn despawn(self, net_id: NetId) -> (r: Self)
        ensures
            r.current().spawns@ == self.current().spawns@,
            r.current().despawns@ == self.current().despawns@.push(net_id),
            r.current().updates@ == self.current().updates@,
    {
        proof { use_type_invariant(&self); }
        let mut delta = self.delta;
        delta.add_despawn(net_id);
        WorldDeltaBuilder { delta }
    }

    /// Adds an update, unless it flags nothing.
    pub fn update(self, update: UpdateNet) -> (r: Self)
        ensures
            r.current().spawns@ == self.current().spawns@,
            r.current().despawns@ == self.current().despawns@,
            r.current().updates@ == (if update.flags != 0 {
                self.current().updates@.push(update)
            } else {
                self.current().updates@
            }),
    {
        proof { use_type_invariant(&self); }
        let mut delta = self.delta;
        if update.has_updates() {
            delta.add_update(update);
        }
        WorldDeltaBuilder { delta }
    }

    /// The finished delta; none of its updates is empty.
    pub fn build(self) -> (r: WorldDelta)
        ensures
            r == self.current(),
            forall|i: int| 0 <= i < r.updates@.len() ==> #[trigger] r.updates@[i].flags != 0,
    {
        proof { use_type_invariant(&self); }
        self.delta
    }
}

impl Default for WorldDeltaBuilder {
    fn default() -> (r: Self)
        ensures
            r.current().spawns@ == Seq::<SpawnNet>::empty(),
            r.current().despawns@ == Seq::<NetId>::empty(),
            r.current().updates@ == Seq::<UpdateNet>::empty(),
    {
        WorldDeltaBuilder::new()
    }
}

} // verus!
