//! Per-client record of the last replicated state of each entity; deltas
//! are computed against it.
use vstd::prelude::*;
use std::collections::HashMap;
use crate::protocol::quantization::Vec2i16;
use crate::protocol::snapshots::NetId;

verus! {

/// Last replicated state of one entity.
#[derive(Debug, Clone, Copy, PartialEq, Eq)]
pub struct EntityBaseline {
    /// Network identifier of the entity.
    pub net_id: NetId,
    /// Last replicated position.
    pub pos: Vec2i16,
    /// Last replicated velocity.
    pub vel: Vec2i16,
    /// Last replicated hit points.
    pub hp: u16,
    /// Tick of the last update.
    pub last_tick: u32,
}

/// Whether `(pos, vel, hp)` differs from what `b` recorded.
pub open spec fn spec_differs(b: EntityBaseline, pos: Vec2i16, vel: Vec2i16, hp: u16) -> bool {
    b.pos != pos || b.vel != vel || b.hp != hp
}

/// A recorded state differs from a new one exactly when one of its
/// components does: each of position x and y, velocity x and y and hit
/// points counts on its own.
pub proof fn lemma_differs_by_component(b: EntityBaseline, pos: Vec2i16, vel: Vec2i16, hp: u16)
    ensures
        spec_differs(b, pos, vel, hp) <==> (b.pos.x != pos.x || b.pos.y != pos.y || b.vel.x != vel.x
            || b.vel.y != vel.y || b.hp != hp),
{
}

impl EntityBaseline {
    /// A baseline recording the given state at `tick`.
    pub fn new(net_id: NetId, pos: Vec2i16, vel: Vec2i16, hp: u16, tick: u32) -> (r: Self)
        ensures
            r == (EntityBaseline { net_id, pos, vel, hp, last_tick: tick }),
    {
        EntityBaseline { net_id, pos, vel, hp, last_tick: tick }
    }

    /// Whether the given state differs from the recorded one.
    pub fn has_changed(&self, pos: Vec2i16, vel: Vec2i16, hp: u16) -> (r: bool)
        ensures
            r == spec_differs(*self, pos, vel, hp),
            !r <==> (self.pos.x == pos.x && self.pos.y == pos.y && self.vel.x == vel.x
                && self.vel.y == vel.y && self.hp == hp),
    {
        self.pos.x != pos.x || self.pos.y != pos.y || self.vel.x != vel.x || self.vel.y != vel.y
            || self.hp != hp
    }

    /// Records a new state at `tick`.
    pub fn update(&mut self, pos: Vec2i16, vel: Vec2i16, hp: u16, tick: u32)
        ensures
            *final(self) == (EntityBaseline { net_id: old(self).net_id, pos, vel, hp, last_tick: tick }),
    {
        self.pos = pos;
        self.vel = vel;
        self.hp = hp;
        self.last_tick = tick;
    }
}

/// Baselines of every entity one client has been sent.
#[derive(Debug, Clone)]
pub struct ClientBaseline {
    /// Player id of the client.
    pub player_id: u8,
    /// Last server tick the client acknowledged.
    pub last_acked_tick: u32,
    /// Baseline of each entity, by network id.
    pub entities: HashMap<NetId, EntityBaseline>,
}

/// The baseline map after recording `(pos, vel, hp)` for `net_id` at `tick`;
/// an existing entry keeps its own `net_id`.
pub open spec fn spec_update_entity(
    m: Map<NetId, EntityBaseline>,
    net_id: NetId,
    pos: Vec2i16,
    vel: Vec2i16,
    hp: u16,
    tick: u32,
) -> Map<NetId, EntityBaseline> {
    let id = if m.contains_key(net_id) { m[net_id].net_id } else { net_id };
    m.insert(net_id, EntityBaseline { net_id: id, pos, vel, hp, last_tick: tick })
}

/// Whether `(pos, vel, hp)` differs from the baseline of `net_id`; an
/// entity without a baseline always counts as changed.
pub open spec fn spec_entity_changed(
    m: Map<NetId, EntityBaseline>,
    net_id: NetId,
    pos: Vec2i16,
    vel: Vec2i16,
    hp: u16,
) -> bool {
    !m.contains_key(net_id) || spec_differs(m[net_id], pos, vel, hp)
}

/// Whether a baseline last updated at `last_tick` is still fresh at
/// `current_tick`.
pub open spec fn spec_fresh(last_tick: u32, current_tick: u32, max_age_ticks: u32) -> bool {
    current_tick - last_tick <= max_age_ticks
}

/// The baselines that are still fresh at `current_tick`.
pub open spec fn spec_retain_fresh(
    m: Map<NetId, EntityBaseline>,
    current_tick: u32,
    max_age_ticks: u32,
) -> Map<NetId, EntityBaseline> {
    m.restrict(m.dom().filter(|k: NetId| spec_fresh(m[k].last_tick, current_tick, max_age_ticks)))
}

/// Recording a state makes it the baseline: the same state then counts as
/// unchanged, other entities keep their status, and an entity whose baseline
/// was removed counts as changed again.
pub proof fn lemma_recorded_state_is_unchanged(
    m: Map<NetId, EntityBaseline>,
    net_id: NetId,
    pos: Vec2i16,
    vel: Vec2i16,
    hp: u16,
    tick: u32,
    other: NetId,
    other_pos: Vec2i16,
    other_vel: Vec2i16,
    other_hp: u16,
)
    ensures
        !spec_entity_changed(spec_update_entity(m, net_id, pos, vel, hp, tick), net_id, pos, vel, hp),
        other != net_id ==> spec_entity_changed(
            spec_update_entity(m, net_id, pos, vel, hp, tick),
            other,
            other_pos,
            other_vel,
            other_hp,
        ) == spec_entity_changed(m, other, other_pos, other_vel, other_hp),
        spec_entity_changed(m.remove(net_id), net_id, pos, vel, hp),
{
}

impl ClientBaseline {
    /// An empty baseline for `player_id`.
    pub fn new(player_id: u8) -> (r: Self)
        ensures
            r.player_id == player_id,
            r.last_acked_tick == 0,
            r.entities@ == Map::<NetId, EntityBaseline>::empty(),
    {
        ClientBaseline { player_id, last_acked_tick: 0, entities: HashMap::new() }
    }

    /// Records the state of `net_id` at `tick`, creating its baseline when
    /// there is none.
    pub fn update_entity(&mut self, net_id: NetId, pos: Vec2i16, vel: Vec2i16, hp: u16, tick: u32)
        ensures
            final(self).entities@ == spec_update_entity(old(self).entities@, net_id, pos, vel, hp, tick),
            final(self).player_id == old(self).player_id,
            final(self).last_acked_tick == old(self).last_acked_tick,
    {
        let existing = match self.entities.get(&net_id) {
            Some(b) => Some(*b),
            None => None,
        };
        match existing {
            Some(mut b) => {
                b.update(pos, vel, hp, tick);
                self.entities.insert(net_id, b);
            },
            None => {
                self.entities.insert(net_id, EntityBaseline::new(net_id, pos, vel, hp, tick));
            },
        }
    }

    /// Whether `net_id` changed since its baseline (always, without one).
    pub fn has_changed(&self, net_id: NetId, pos: Vec2i16, vel: Vec2i16, hp: u16) -> (r: bool)
        ensures
            r == spec_entity_changed(self.entities@, net_id, pos, vel, hp),
    {
        match self.entities.get(&net_id) {
            Some(baseline) => baseline.has_changed(pos, vel, hp),
            None => true,
        }
    }

    /// Forgets the baseline of `net_id`, returning it.
    pub fn remove_entity(&mut self, net_id: NetId) -> (r: Option<EntityBaseline>)
        ensures
            final(self).entities@ == old(self).entities@.remove(net_id),
            final(self).player_id == old(self).player_id,
            final(self).last_acked_tick == old(self).last_acked_tick,
            r == (if old(self).entities@.contains_key(net_id) {
                Some(old(self).entities@[net_id])
            } else {
                None
            }),
    {
        self.entities.remove(&net_id)
    }

    /// The baseline of `net_id`, if any.
    pub fn get_entity(&self, net_id: NetId) -> (r: Option<&EntityBaseline>)
        ensures
            match r {
                Some(b) => self.entities@.contains_key(net_id) && *b == self.entities@[net_id],
                None => !self.entities@.contains_key(net_id),
            },
    {
        self.entities.get(&net_id)
    }

    /// Raises the acknowledged tick to `tick` when it is newer.
    pub fn update_ack(&mut self, tick: u32)
        ensures
            final(self).last_acked_tick == (if tick > old(self).last_acked_tick {
                tick
            } else {
                old(self).last_acked_tick
            }),
            final(self).player_id == old(self).player_id,
            final(self).entities == old(self).entities,
    {
        if tick > self.last_acked_tick {
            self.last_acked_tick = tick;
        }
    }

    /// Drops every baseline not updated within the last `max_age_ticks`
    /// ticks.
    pub fn cleanup_old_entities(&mut self, current_tick: u32, max_age_ticks: u32)
        requires
            forall|k: NetId| #[trigger] old(self).entities@.contains_key(k)
                ==> old(self).entities@[k].last_tick <= current_tick,
        ensures
            final(self).entities@ == spec_retain_fresh(old(self).entities@, current_tick, max_age_ticks),
            final(self).player_id == old(self).player_id,
            final(self).last_acked_tick == old(self).last_acked_tick,
    {
        let ghost m = self.entities@;
        let ghost mut seen: Set<NetId> = Set::empty();
        let mut kept: HashMap<NetId, EntityBaseline> = HashMap::new();
        for pair in it: self.entities.iter()
            invariant
                m == self.entities@,
                forall|k: NetId| #[trigger] m.contains_key(k) ==> m[k].last_tick <= current_tick,
                forall|k: NetId| #[trigger] m.contains_key(k) ==> it.seq().contains((&k, &m[k])),
                forall|i: int| 0 <= i < it.seq().len() ==> m.contains_key(*(#[trigger] it.seq()[i]).0)
                    && m[*it.seq()[i].0] == *it.seq()[i].1,
                forall|i: int| 0 <= i < it.index() ==> seen.contains(*(#[trigger] it.seq()[i]).0),
                forall|k: NetId| #[trigger] kept@.contains_key(k) ==> m.contains_key(k) && kept@[k]
                    == m[k] && spec_fresh(m[k].last_tick, current_tick, max_age_ticks),
                forall|k: NetId| #[trigger] seen.contains(k) ==> m.contains_key(k) && (spec_fresh(
                    m[k].last_tick, current_tick, max_age_ticks) ==> kept@.contains_key(k)),
                it.index() == it.seq().len() ==> forall|k: NetId| #[trigger] m.contains_key(k)
                    ==> seen.contains(k),
        {
            let (k, b) = pair;
            if current_tick - b.last_tick <= max_age_ticks {
                kept.insert(*k, *b);
            }
            proof {
                seen = seen.insert(*k);
            }
        }
        proof {
            assert(kept@ =~= spec_retain_fresh(m, current_tick, max_age_ticks));
        }
        self.entities = kept;
    }

    /// Number of entities with a baseline.
    pub fn entity_count(&self) -> (r: usize)
        ensures
            r == self.entities@.len(),
    {
        self.entities.len()
    }
}

} // verus!
