//! Interest management: which entities are replicated to a client.
use vstd::prelude::*;
use std::collections::HashSet;
use vstd::std_specs::iter::IteratorSpec;
use crate::protocol::snapshots::EntityKind;

verus! {

/// The entities replicated to one client, and those replicated before the
/// last update.
#[derive(Debug)]
pub struct InterestSet {
    /// Network ids to replicate now.
    pub entities: HashSet<u32>,
    /// Network ids replicated before the last update.
    pub previous_entities: HashSet<u32>,
}

/// Copies a set of network ids.
///
/// Calls `HashSet::clone`, which std documents as producing an equal set;
/// the contract claims that the copy holds the same elements.
#[verifier::external_body]
fn clone_id_set(s: &HashSet<u32>) -> (r: HashSet<u32>)
    ensures
        r@ == s@,
{
    s.clone()
}

impl Clone for InterestSet {
    fn clone(&self) -> (r: Self)
        ensures
            r.entities@ == self.entities@,
            r.previous_entities@ == self.previous_entities@,
    {
        InterestSet {
            entities: clone_id_set(&self.entities),
            previous_entities: clone_id_set(&self.previous_entities),
        }
    }
}

/// The elements of `a` that are not in `b`, without repetition, in the order
/// in which they were found.
pub open spec fn lists_difference(r: Seq<u32>, a: Set<u32>, b: Set<u32>) -> bool {
    &&& r.to_set() == a.difference(b)
    &&& r.no_duplicates()
}

/// Collects the elements of `a` that are not in `b`.
fn set_difference(a: &HashSet<u32>, b: &HashSet<u32>) -> (r: Vec<u32>)
    ensures
        lists_difference(r@, a@, b@),
{
    let ghost sa = a@;
    let ghost mut seen: Set<u32> = Set::empty();
    let mut out: Vec<u32> = Vec::new();
    proof {
        let rem = vstd::std_specs::hash::spec_hash_keys_iter(a).remaining();
        assert(rem.unref().to_set() == sa);
        assert forall|i: int| 0 <= i < rem.len() implies sa.contains(*#[trigger] rem[i]) by {
            assert(rem.unref()[i] == *rem[i]);
            assert(rem.unref().contains(*rem[i]));
        }
    }
    for x in it: a.iter()
        invariant
            sa == a@,
            it.seq().no_duplicates(),
            forall|i: int| 0 <= i < it.seq().len() ==> sa.contains(*#[trigger] it.seq()[i]),
            forall|k: u32| #[trigger] sa.contains(k) ==> it.seq().contains(&k),
            forall|i: int| 0 <= i < it.index() ==> seen.contains(*#[trigger] it.seq()[i]),
            forall|k: u32| #[trigger] seen.contains(k) ==> exists|i: int|
                0 <= i < it.index() && *it.seq()[i] == k,
            forall|k: u32| #[trigger] seen.contains(k) ==> (out@.contains(k) <==> !b@.contains(k)),
            forall|j: int| 0 <= j < out@.len() ==> seen.contains(#[trigger] out@[j]) && sa.contains(
                out@[j]),
            out@.no_duplicates(),
            it.index() == it.seq().len() ==> forall|k: u32| #[trigger] sa.contains(k)
                ==> seen.contains(k),
    {
        let ghost idx = it.index();
        proof {
            if seen.contains(*x) {
                let i = choose|i: int| 0 <= i < idx && *it.seq()[i] == *x;
                assert(it.seq()[i] == it.seq()[idx]);
            }
        }
        let ghost old_out = out@;
        if !b.contains(x) {
            out.push(*x);
        }
        proof {
            assert(!old_out.contains(*x));
            if !b@.contains(*x) {
                assert(out@[out@.len() - 1] == *x);
                assert(out@.contains(*x));
            } else {
                assert(out@ == old_out);
            }
            assert forall|k: u32| k != *x implies (#[trigger] out@.contains(k) <==> old_out.contains(k)) by {
                if out@.contains(k) {
                    let j = choose|j: int| 0 <= j < out@.len() && out@[j] == k;
                    assert(j < old_out.len());
                    assert(old_out[j] == k);
                }
                if old_out.contains(k) {
                    let j = choose|j: int| 0 <= j < old_out.len() && old_out[j] == k;
                    assert(out@[j] == k);
                }
            }
            seen = seen.insert(*x);
        }
    }
    proof {
        assert(out@.to_set() =~= sa.difference(b@));
    }
    out
}

impl InterestSet {
    /// An interest set with nothing in it.
    pub fn new() -> (r: Self)
        ensures
            r.entities@ == Set::<u32>::empty(),
            r.previous_entities@ == Set::<u32>::empty(),
    {
        InterestSet { entities: HashSet::new(), previous_entities: HashSet::new() }
    }

    /// Replaces the current entities; the old ones become the previous set.
    pub fn update(&mut self, new_entities: HashSet<u32>)
        ensures
            final(self).entities@ == new_entities@,
            final(self).previous_entities@ == old(self).entities@,
    {
        let mut current = new_entities;
        std::mem::swap(&mut self.entities, &mut current);
        self.previous_entities = current;
    }

    /// Whether `net_id` is replicated now.
    pub fn contains(&self, net_id: u32) -> (r: bool)
        ensures
            r == self.entities@.contains(net_id),
    {
        self.entities.contains(&net_id)
    }

    /// Entities that entered the set with the last update.
    pub fn get_spawns(&self) -> (r: Vec<u32>)
        ensures
            lists_difference(r@, self.entities@, self.previous_entities@),
    {
        set_difference(&self.entities, &self.previous_entities)
    }

    /// Entities that left the set with the last update.
    pub fn get_despawns(&self) -> (r: Vec<u32>)
        ensures
            lists_difference(r@, self.previous_entities@, self.entities@),
    {
        set_difference(&self.previous_entities, &self.entities)
    }
}

impl Default for InterestSet {
    fn default() -> (r: Self)
        ensures
            r.entities@ == Set::<u32>::empty(),
            r.previous_entities@ == Set::<u32>::empty(),
    {
        InterestSet::new()
    }
}

/// What interest selection needs to know about one entity: its id, whether
/// it is a player or a boss, and how its distance to the client's player
/// compares with the boss range and the exit and enter radii of the
/// hysteresis band.
#[derive(Debug, Clone, Copy, PartialEq, Eq)]
pub struct InterestCandidate {
    pub net_id: u32,
    pub is_player: bool,
    pub is_boss: bool,
    /// Closer than the range within which bosses are always replicated.
    pub within_boss_range: bool,
    /// Closer than the radius an already replicated entity must leave.
    pub within_exit_radius: bool,
    /// Closer than the radius a new entity must enter.
    pub within_enter_radius: bool,
}

/// Whether a candidate is replicated, given whether it was replicated before.
pub open spec fn spec_admitted(c: InterestCandidate, was_in_set: bool) -> bool {
    ||| c.is_boss && c.within_boss_range
    ||| c.is_player
    ||| (if was_in_set { c.within_exit_radius } else { c.within_enter_radius })
}

/// Whether `net_id` was in the previous interest set.
pub open spec fn spec_was_in(previous: Option<&InterestSet>, net_id: u32) -> bool {
    match previous {
        Some(p) => p.entities@.contains(net_id),
        None => false,
    }
}

/// The ids of the candidates that are replicated.
pub open spec fn spec_selected(cands: Seq<InterestCandidate>, previous: Option<&InterestSet>) -> Set<u32> {
    Set::new(
        |id: u32|
            exists|i: int|
                0 <= i < cands.len() && #[trigger] cands[i].net_id == id && spec_admitted(
                    cands[i],
                    spec_was_in(previous, cands[i].net_id),
                ),
    )
}

/// Computes a client's interest set from the candidates around its player;
/// the previous set, if any, becomes the new set's previous entities.
pub fn calculate_interest(candidates: &Vec<InterestCandidate>, previous: Option<&InterestSet>) -> (r: InterestSet)
    ensures
        r.entities@ == spec_selected(candidates@, previous),
        r.previous_entities@ == (match previous {
            Some(p) => p.entities@,
            None => Set::<u32>::empty(),
        }),
{
    let mut selected: HashSet<u32> = HashSet::new();
    let mut i: usize = 0;
    while i < candidates.len()
        invariant
            i <= candidates@.len(),
            selected@ == spec_selected(candidates@.subrange(0, i as int), previous),
        decreases candidates@.len() - i,
    {
        let c = candidates[i];
        let was_in_set = match previous {
            Some(p) => p.contains(c.net_id),
            None => false,
        };
        let admitted = if c.is_boss && c.within_boss_range {
            true
        } else if c.is_player {
            true
        } else if was_in_set {
            c.within_exit_radius
        } else {
            c.within_enter_radius
        };
        let ghost before = selected@;
        if admitted {
            selected.insert(c.net_id);
        }
        proof {
            let s0 = candidates@.subrange(0, i as int);
            let s1 = candidates@.subrange(0, i + 1);
            assert forall|id: u32| #[trigger] spec_selected(s1, previous).contains(id) == selected@.contains(id) by {
                if spec_selected(s1, previous).contains(id) {
                    let j = choose|j: int| 0 <= j < s1.len() && #[trigger] s1[j].net_id == id && spec_admitted(
                        s1[j], spec_was_in(previous, s1[j].net_id));
                    if j < i {
                        assert(s0[j] == s1[j]);
                        assert(spec_selected(s0, previous).contains(id));
                    }
                }
                if before.contains(id) {
                    let j = choose|j: int| 0 <= j < s0.len() && #[trigger] s0[j].net_id == id && spec_admitted(
                        s0[j], spec_was_in(previous, s0[j].net_id));
                    assert(s1[j] == s0[j]);
                }
                if admitted && id == c.net_id {
                    assert(s1[i as int] == c);
                }
            }
            assert(selected@ =~= spec_selected(s1, previous));
        }
        i = i + 1;
    }
    assert(candidates@.subrange(0, candidates@.len() as int) == candidates@);
    let previous_entities = match previous {
        Some(p) => clone_id_set(&p.entities),
        None => HashSet::new(),
    };
    InterestSet { entities: selected, previous_entities }
}

/// Players are always replicated, and an entity that stays inside the exit
/// radius keeps being replicated once it is in the set.
pub proof fn lemma_interest_keeps_players_and_nearby(
    candidates: Seq<InterestCandidate>,
    previous: Option<&InterestSet>,
    i: int,
)
    requires
        0 <= i < candidates.len(),
    ensures
        candidates[i].is_player ==> spec_selected(candidates, previous).contains(candidates[i].net_id),
        spec_was_in(previous, candidates[i].net_id) && candidates[i].within_exit_radius
            ==> spec_selected(candidates, previous).contains(candidates[i].net_id),
        candidates[i].within_enter_radius ==> spec_selected(candidates, previous).contains(candidates[i].net_id)
            || (spec_was_in(previous, candidates[i].net_id) && !candidates[i].within_exit_radius),
{
}

/// A boss within the boss range is replicated whatever the previous set
/// holds and whatever its distance to the hysteresis radii.
pub proof fn lemma_interest_keeps_bosses_in_range(
    candidates: Seq<InterestCandidate>,
    previous: Option<&InterestSet>,
    i: int,
)
    requires
        0 <= i < candidates.len(),
        candidates[i].is_boss,
        candidates[i].within_boss_range,
    ensures
        spec_selected(candidates, previous).contains(candidates[i].net_id),
        spec_selected(candidates, None).contains(candidates[i].net_id),
{
}

/// Replication priority for bandwidth-limited sending; earlier variants go
/// first.
#[derive(Debug, Clone, Copy, PartialEq, Eq, PartialOrd, Ord, Hash)]
pub enum ReplicationPriority {
    /// Players and bosses.
    Critical,
    /// Nearby enemies and projectiles.
    High,
    /// Distant enemies.
    Medium,
    /// Pickups.
    Low,
}

/// How far an entity is from the client's player, in the bands that
/// replication priority distinguishes.
#[derive(Debug, Clone, Copy, PartialEq, Eq)]
pub enum DistanceBand {
    /// Closer than 200 units.
    Near,
    /// At least 200 and closer than 300 units.
    Mid,
    /// 300 units or more.
    Far,
}

/// The replication priority of an entity of the given kind at the given
/// distance band.
pub open spec fn spec_entity_priority(kind: EntityKind, band: DistanceBand) -> ReplicationPriority {
    match kind {
        EntityKind::Player { .. } => ReplicationPriority::Critical,
        EntityKind::Enemy { boss_type: Some(_), .. } => ReplicationPriority::Critical,
        EntityKind::Projectile => if band == DistanceBand::Near {
            ReplicationPriority::High
        } else {
            ReplicationPriority::Medium
        },
        EntityKind::Enemy { .. } | EntityKind::Pet { .. } => if band != DistanceBand::Far {
            ReplicationPriority::High
        } else {
            ReplicationPriority::Medium
        },
        EntityKind::XpGem { .. } | EntityKind::Gold { .. } => ReplicationPriority::Low,
    }
}

/// Replication priority of an entity.
pub fn get_entity_priority(kind: &EntityKind, band: DistanceBand) -> (r: ReplicationPriority)
    ensures
        r == spec_entity_priority(*kind, band),
{
    match kind {
        EntityKind::Player { .. } => ReplicationPriority::Critical,
        EntityKind::Enemy { boss_type: Some(_), .. } => ReplicationPriority::Critical,
        EntityKind::Projectile => {
            match band {
                DistanceBand::Near => ReplicationPriority::High,
                _ => ReplicationPriority::Medium,
            }
        },
        EntityKind::Enemy { .. } | EntityKind::Pet { .. } => {
            match band {
                DistanceBand::Far => ReplicationPriority::Medium,
                _ => ReplicationPriority::High,
            }
        },
        EntityKind::XpGem { .. } | EntityKind::Gold { .. } => ReplicationPriority::Low,
    }
}

} // verus!
