//! Server side of the synchronisation protocol: client sessions, input
//! buffering, delta collection and the reactions to client messages.
use vstd::prelude::*;
use std::collections::{HashMap, VecDeque};
use crate::protocol::delta::{flag_set, UpdateNet, WorldDelta, FLAG_HP, FLAG_POS, FLAG_VEL};
use crate::protocol::messages::{C2S, InputCmd};
use crate::protocol::quantization::Vec2i16;
use crate::protocol::snapshots::{EntityKind, NetId, Snapshot, SpawnNet};
use crate::world::baseline::{
    spec_differs, spec_entity_changed, spec_retain_fresh, ClientBaseline, EntityBaseline,
};
use crate::world::interest::{lists_difference, InterestSet};
use vstd::std_specs::iter::IteratorSpec;

verus! {

/// Identifier of a client connection.
pub type ConnId = u64;

/// Server simulation rate, in ticks per second.
pub const SERVER_TICK_HZ: u16 = 30;

/// Capacity of each player's input buffer.
pub const INPUT_BUFFER_SIZE: usize = 64;

/// Number of player slots; player ids are handed out cyclically below it.
pub const MAX_PLAYERS: u8 = 4;

/// World seed announced to joining clients.
pub const WORLD_SEED: u64 = 12345;

/// Baselines untouched for this many ticks are dropped.
pub const BASELINE_MAX_AGE_TICKS: u32 = 300;

/// State the server keeps for one connected client.
#[derive(Debug, Clone)]
pub struct ClientSession {
    pub conn_id: ConnId,
    pub player_id: u8,
    pub baseline: ClientBaseline,
    pub last_input: Option<InputCmd>,
    pub interest_set: InterestSet,
}

/// `s` is the state of a freshly connected client.
pub open spec fn is_new_session(s: ClientSession, conn_id: ConnId, player_id: u8) -> bool {
    &&& s.conn_id == conn_id
    &&& s.player_id == player_id
    &&& s.baseline.player_id == player_id
    &&& s.baseline.last_acked_tick == 0
    &&& s.baseline.entities@ == Map::<NetId, EntityBaseline>::empty()
    &&& s.last_input is None
    &&& s.interest_set.entities@ == Set::<u32>::empty()
    &&& s.interest_set.previous_entities@ == Set::<u32>::empty()
}

impl ClientSession {
    /// A session with nothing replicated yet.
    pub fn new(conn_id: ConnId, player_id: u8) -> (r: Self)
        ensures
            is_new_session(r, conn_id, player_id),
    {
        ClientSession {
            conn_id,
            player_id,
            baseline: ClientBaseline::new(player_id),
            last_input: None,
            interest_set: InterestSet::new(),
        }
    }
}

/// Looks up a session for modification.
///
/// Calls `HashMap::get_mut`; the contract claims what std documents: the
/// reference points at the value stored under `k`, and writes through it
/// replace that value and nothing else.
#[verifier::external_body]
fn session_get_mut(
    m: &mut HashMap<ConnId, ClientSession>,
    k: ConnId,
) -> (r: Option<&mut ClientSession>)
    ensures
        match r {
            Some(s) => {
                &&& old(m)@.contains_key(k)
                &&& *s == old(m)@[k]
                &&& final(m)@ == old(m)@.insert(k, *final(s))
            },
            None => {
                &&& !old(m)@.contains_key(k)
                &&& final(m)@ == old(m)@
            },
        },
{
    m.get_mut(&k)
}

/// Sessions of all connected clients.
#[derive(Debug)]
pub struct ClientSessions {
    pub sessions: HashMap<ConnId, ClientSession>,
    next_player_id: u8,
}

impl ClientSessions {
    /// The player id the next joining client receives.
    pub closed spec fn next_player_id(self) -> u8 {
        self.next_player_id
    }

    /// The sessions, by connection id.
    pub closed spec fn session_map(self) -> Map<ConnId, ClientSession> {
        self.sessions@
    }

    /// The next player id is a valid player slot.
    pub closed spec fn wf(self) -> bool {
        self.next_player_id < MAX_PLAYERS
    }

    /// No session, first player id 0.
    pub fn new() -> (r: Self)
        ensures
            r.wf(),
            r.next_player_id() == 0,
            r.session_map() == Map::<ConnId, ClientSession>::empty(),
    {
        ClientSessions { sessions: HashMap::new(), next_player_id: 0 }
    }

    /// Registers `conn_id` with the next player id, which it returns; ids
    /// cycle through the player slots.
    pub fn add_session(&mut self, conn_id: ConnId) -> (r: u8)
        ensures
            final(self).wf(),
            r == old(self).next_player_id(),
            final(self).next_player_id() == (old(self).next_player_id() + 1) % (MAX_PLAYERS as int),
            final(self).session_map().dom() == old(self).session_map().dom().insert(conn_id),
            is_new_session(final(self).session_map()[conn_id], conn_id, r),
            forall|k: ConnId| k != conn_id && #[trigger] old(self).session_map().contains_key(k)
                ==> final(self).session_map()[k] == old(self).session_map()[k],
    {
        let player_id = self.next_player_id;
        self.next_player_id = ((self.next_player_id as u16 + 1) % (MAX_PLAYERS as u16)) as u8;
        self.sessions.insert(conn_id, ClientSession::new(conn_id, player_id));
        player_id
    }

    /// Removes the session of `conn_id`, returning it.
    pub fn remove_session(&mut self, conn_id: ConnId) -> (r: Option<ClientSession>)
        ensures
            final(self).next_player_id() == old(self).next_player_id(),
            final(self).wf() == old(self).wf(),
            final(self).session_map() == old(self).session_map().remove(conn_id),
            r == (if old(self).session_map().contains_key(conn_id) {
                Some(old(self).session_map()[conn_id])
            } else {
                None
            }),
    {
        self.sessions.remove(&conn_id)
    }

    /// The session of `conn_id`.
    pub fn get_session(&self, conn_id: ConnId) -> (r: Option<&ClientSession>)
        ensures
            match r {
                Some(s) => self.session_map().contains_key(conn_id) && *s == self.session_map()[conn_id],
                None => !self.session_map().contains_key(conn_id),
            },
    {
        self.sessions.get(&conn_id)
    }

    /// The session of `conn_id`, for modification.
    pub fn get_session_mut(&mut self, conn_id: ConnId) -> (r: Option<&mut ClientSession>)
        ensures
            match r {
                Some(s) => {
                    &&& old(self).session_map().contains_key(conn_id)
                    &&& *s == old(self).session_map()[conn_id]
                    &&& final(self).session_map() == old(self).session_map().insert(conn_id, *final(s))
                },
                None => {
                    &&& !old(self).session_map().contains_key(conn_id)
                    &&& final(self).session_map() == old(self).session_map()
                },
            },
            final(self).next_player_id() == old(self).next_player_id(),
    {
        session_get_mut(&mut self.sessions, conn_id)
    }
}

impl Default for ClientSessions {
    fn default() -> (r: Self)
        ensures
            r.wf(),
            r.next_player_id() == 0,
            r.session_map() == Map::<ConnId, ClientSession>::empty(),
    {
        ClientSessions::new()
    }
}

/// Buffered input commands of every player.
#[derive(Debug)]
pub struct InputBuffers {
    pub buffers: HashMap<u8, VecDeque<InputCmd>>,
}

/// The commands buffered for `player_id`.
pub open spec fn queued(m: Map<u8, VecDeque<InputCmd>>, player_id: u8) -> Seq<InputCmd> {
    if m.contains_key(player_id) {
        m[player_id]@
    } else {
        Seq::empty()
    }
}

/// `q` after appending `input`, dropping the oldest command when it is full.
pub open spec fn bounded_push(q: Seq<InputCmd>, input: InputCmd) -> Seq<InputCmd> {
    if q.len() >= INPUT_BUFFER_SIZE {
        q.drop_first().push(input)
    } else {
        q.push(input)
    }
}

impl InputBuffers {
    /// No buffered input.
    pub fn new() -> (r: Self)
        ensures
            r.buffers@ == Map::<u8, VecDeque<InputCmd>>::empty(),
    {
        InputBuffers { buffers: HashMap::new() }
    }

    /// Appends an input command for `player_id`, dropping the oldest one when
    /// the buffer is full.
    pub fn push_input(&mut self, player_id: u8, input: InputCmd)
        ensures
            final(self).buffers@.dom() == old(self).buffers@.dom().insert(player_id),
            queued(final(self).buffers@, player_id) == bounded_push(queued(old(self).buffers@, player_id), input),
            forall|k: u8| k != player_id && #[trigger] old(self).buffers@.contains_key(k)
                ==> final(self).buffers@[k] == old(self).buffers@[k],
    {
        let mut buffer = match self.buffers.remove(&player_id) {
            Some(b) => b,
            None => VecDeque::new(),
        };
        let ghost q = buffer@;
        if buffer.len() >= INPUT_BUFFER_SIZE {
            buffer.pop_front();
            assert(buffer@ == q.drop_first());
        }
        buffer.push_back(input);
        self.buffers.insert(player_id, buffer);
        proof {
            assert(final(self).buffers@.dom() =~= old(self).buffers@.dom().insert(player_id));
        }
    }

    /// Takes the oldest input command of `player_id`.
    pub fn pop_input(&mut self, player_id: u8) -> (r: Option<InputCmd>)
        ensures
            final(self).buffers@.dom() == old(self).buffers@.dom(),
            forall|k: u8| k != player_id && #[trigger] old(self).buffers@.contains_key(k)
                ==> final(self).buffers@[k] == old(self).buffers@[k],
            queued(old(self).buffers@, player_id).len() == 0 ==> r is None && queued(final(self).buffers@, player_id)
                == queued(old(self).buffers@, player_id),
            queued(old(self).buffers@, player_id).len() > 0 ==> r == Some(queued(old(self).buffers@, player_id)[0])
                && queued(final(self).buffers@, player_id) == queued(old(self).buffers@, player_id).drop_first(),
    {
        match self.buffers.remove(&player_id) {
            Some(mut buffer) => {
                let r = buffer.pop_front();
                self.buffers.insert(player_id, buffer);
                proof {
                    assert(final(self).buffers@.dom() =~= old(self).buffers@.dom());
                }
                r
            },
            None => None,
        }
    }
}

impl Default for InputBuffers {
    fn default() -> (r: Self)
        ensures
            r.buffers@ == Map::<u8, VecDeque<InputCmd>>::empty(),
    {
        InputBuffers::new()
    }
}

/// Input is served first in, first out: a command pushed onto an empty
/// buffer is the next one popped, and pushing never lets a buffer exceed
/// its capacity.
pub proof fn lemma_input_buffer_fifo(q: Seq<InputCmd>, input: InputCmd)
    requires
        q.len() <= INPUT_BUFFER_SIZE,
    ensures
        bounded_push(q, input).len() <= INPUT_BUFFER_SIZE,
        bounded_push(q, input).last() == input,
        q.len() == 0 ==> bounded_push(q, input)[0] == input,
        0 < q.len() < INPUT_BUFFER_SIZE ==> bounded_push(q, input)[0] == q[0],
{
}

/// What delta collection reads of one replicated entity: its id and
/// quantised state, and the player id when it is a player.
#[derive(Debug, Clone, Copy, PartialEq, Eq)]
pub struct EntityNetState {
    pub net_id: NetId,
    pub pos: Vec2i16,
    pub vel: Vec2i16,
    pub hp: u16,
    pub hp_max: u16,
    pub player_id: Option<u32>,
}

/// `i` is the first index of an entity with id `id`.
pub open spec fn is_first_match(s: Seq<EntityNetState>, id: NetId, i: int) -> bool {
    &&& 0 <= i < s.len()
    &&& s[i].net_id == id
    &&& forall|j: int| 0 <= j < i ==> s[j].net_id != id
}

/// The first entity with id `id`, if any.
pub open spec fn spec_find(s: Seq<EntityNetState>, id: NetId) -> Option<EntityNetState> {
    if exists|i: int| is_first_match(s, id, i) {
        Some(s[choose|i: int| is_first_match(s, id, i)])
    } else {
        None
    }
}

/// Appending to a sequence adds exactly the new element to its set.
proof fn lemma_push_to_set<A>(s: Seq<A>, a: A)
    ensures
        s.push(a).to_set() == s.to_set().insert(a),
{
    let t = s.push(a);
    assert forall|y: A| #[trigger] t.to_set().contains(y) == s.to_set().insert(a).contains(y) by {
        if t.contains(y) {
            let j = choose|j: int| 0 <= j < t.len() && t[j] == y;
            if j < s.len() {
                assert(s[j] == y);
            }
        }
        if s.contains(y) {
            let j = choose|j: int| 0 <= j < s.len() && s[j] == y;
            assert(t[j] == y);
        }
        if y == a {
            assert(t[s.len() as int] == a);
        }
    }
    assert(t.to_set() =~= s.to_set().insert(a));
}

/// Finds the first entity with id `id`.
fn find_state(entities: &Vec<EntityNetState>, id: NetId) -> (r: Option<EntityNetState>)
    ensures
        r == spec_find(entities@, id),
{
    let mut i: usize = 0;
    while i < entities.len()
        invariant
            i <= entities@.len(),
            forall|j: int| 0 <= j < i ==> entities@[j].net_id != id,
        decreases entities@.len() - i,
    {
        if entities[i].net_id == id {
            proof {
                assert(is_first_match(entities@, id, i as int));
                let c = choose|c: int| is_first_match(entities@, id, c);
                assert(c == i);
            }
            return Some(entities[i]);
        }
        i = i + 1;
    }
    None
}

/// The kind announced in a spawn: players by their id, everything else as a
/// projectile.
pub open spec fn spec_entity_kind(player_id: Option<u32>) -> EntityKind {
    match player_id {
        Some(pid) => EntityKind::Player { player_id: pid as u8 },
        None => EntityKind::Projectile,
    }
}

/// The kind announced in a spawn of an entity with the given player id.
pub fn determine_entity_kind(player_id: Option<u32>) -> (r: EntityKind)
    ensures
        r == spec_entity_kind(player_id),
{
    match player_id {
        Some(pid) => EntityKind::Player { player_id: pid as u8 },
        None => EntityKind::Projectile,
    }
}

/// The spawn sent for an entity a client has no baseline of.
pub open spec fn spawn_of(st: EntityNetState) -> SpawnNet {
    SpawnNet {
        id: st.net_id,
        kind: spec_entity_kind(st.player_id),
        pos: st.pos,
        vel: st.vel,
        hp: Some(st.hp),
        hp_max: Some(st.hp_max),
    }
}

/// The flags of an update changing the marked fields.
pub open spec fn flags_for(pos: bool, vel: bool, hp: bool) -> u16 {
    ((if pos { 1int } else { 0int }) + (if vel { 2int } else { 0int }) + (if hp { 4int } else { 0int })) as u16
}

/// The update sent for an entity whose state differs from its baseline: it
/// carries exactly the fields that differ.
pub open spec fn update_of(b: EntityBaseline, st: EntityNetState) -> UpdateNet {
    UpdateNet {
        id: st.net_id,
        flags: flags_for(b.pos != st.pos, b.vel != st.vel, b.hp != st.hp),
        pos: if b.pos != st.pos { Some(st.pos) } else { None },
        vel: if b.vel != st.vel { Some(st.vel) } else { None },
        hp: if b.hp != st.hp { Some(st.hp) } else { None },
    }
}

/// Builds the update of an entity against its baseline.
fn make_update(b: &EntityBaseline, st: &EntityNetState) -> (r: UpdateNet)
    ensures
        r == update_of(*b, *st),
        r.flags_match_fields(),
{
    let p = b.pos != st.pos;
    let v = b.vel != st.vel;
    let h = b.hp != st.hp;
    let mut u = UpdateNet::new(st.net_id);
    if p {
        u = u.with_pos(st.pos);
    }
    if v {
        u = u.with_vel(st.vel);
    }
    if h {
        u = u.with_hp(st.hp);
    }
    proof {
        let f0: u16 = 0;
        let f1: u16 = if p { f0 | FLAG_POS } else { f0 };
        let f2: u16 = if v { f1 | FLAG_VEL } else { f1 };
        let f3: u16 = if h { f2 | FLAG_HP } else { f2 };
        assert(u.flags == f3);
        assert(f3 == flags_for(p, v, h)) by (bit_vector)
            requires
                f0 == 0u16,
                f1 == (if p { f0 | 1u16 } else { f0 }),
                f2 == (if v { f1 | 2u16 } else { f1 }),
                f3 == (if h { f2 | 4u16 } else { f2 }),
                flags_for(p, v, h) == ((if p { 1int } else { 0int }) + (if v { 2int } else { 0int }) + (if h { 4int } else { 0int })) as u16,
        ;
    }
    u
}

/// The entity `k` is in `seen`, present among `states`, and changed since
/// its baseline in `b1`.
pub open spec fn touched(
    b1: Map<NetId, EntityBaseline>,
    states: Seq<EntityNetState>,
    seen: Set<NetId>,
    k: NetId,
) -> bool {
    &&& seen.contains(k)
    &&& spec_find(states, k) is Some
    &&& (!b1.contains_key(k) || spec_differs(b1[k], spec_find(states, k).unwrap().pos, spec_find(states, k).unwrap().vel, spec_find(states, k).unwrap().hp))
}

/// The baselines after recording, at `tick`, every changed entity of `seen`.
pub open spec fn recorded(
    b1: Map<NetId, EntityBaseline>,
    states: Seq<EntityNetState>,
    seen: Set<NetId>,
    tick: u32,
) -> Map<NetId, EntityBaseline> {
    Map::new(
        |k: NetId| b1.contains_key(k) || touched(b1, states, seen, k),
        |k: NetId|
            if touched(b1, states, seen, k) {
                let st = spec_find(states, k).unwrap();
                EntityBaseline {
                    net_id: if b1.contains_key(k) { b1[k].net_id } else { k },
                    pos: st.pos,
                    vel: st.vel,
                    hp: st.hp,
                    last_tick: tick,
                }
            } else {
                b1[k]
            },
    )
}

/// The spawns for the entities of `seen` that have no baseline in `b1`.
pub open spec fn spawned(b1: Map<NetId, EntityBaseline>, states: Seq<EntityNetState>, seen: Set<NetId>) -> Set<SpawnNet> {
    Set::new(
        |sp: SpawnNet|
            seen.contains(sp.id) && !b1.contains_key(sp.id) && spec_find(states, sp.id) is Some && sp
                == spawn_of(spec_find(states, sp.id).unwrap()),
    )
}

/// The updates for the entities of `seen` whose state differs from their
/// baseline in `b1`.
pub open spec fn updated(b1: Map<NetId, EntityBaseline>, states: Seq<EntityNetState>, seen: Set<NetId>) -> Set<UpdateNet> {
    Set::new(
        |up: UpdateNet|
            {
                &&& seen.contains(up.id)
                &&& b1.contains_key(up.id)
                &&& spec_find(states, up.id) is Some
                &&& spec_differs(b1[up.id], spec_find(states, up.id).unwrap().pos, spec_find(states, up.id).unwrap().vel, spec_find(states, up.id).unwrap().hp)
                &&& up == update_of(b1[up.id], spec_find(states, up.id).unwrap())
            },
    )
}

/// Every update carries, for each field it holds, the entity's current
/// state, and holds a field exactly when that field differs from the
/// baseline; its flags name exactly the fields it holds.
pub proof fn lemma_updates_carry_current_state(
    b1: Map<NetId, EntityBaseline>,
    states: Seq<EntityNetState>,
    seen: Set<NetId>,
    up: UpdateNet,
)
    requires
        updated(b1, states, seen).contains(up),
    ensures
        spec_find(states, up.id) is Some,
        b1.contains_key(up.id),
        up.pos is Some ==> up.pos == Some(spec_find(states, up.id).unwrap().pos),
        up.vel is Some ==> up.vel == Some(spec_find(states, up.id).unwrap().vel),
        up.hp is Some ==> up.hp == Some(spec_find(states, up.id).unwrap().hp),
        up.pos is Some <==> b1[up.id].pos != spec_find(states, up.id).unwrap().pos,
        up.vel is Some <==> b1[up.id].vel != spec_find(states, up.id).unwrap().vel,
        up.hp is Some <==> b1[up.id].hp != spec_find(states, up.id).unwrap().hp,
        up.flags_match_fields(),
{
    let st = spec_find(states, up.id).unwrap();
    let p = b1[up.id].pos != st.pos;
    let v = b1[up.id].vel != st.vel;
    let h = b1[up.id].hp != st.hp;
    lemma_flags_for_bits(p, v, h);
}

/// The flags of an update name exactly the changed fields.
proof fn lemma_flags_for_bits(p: bool, v: bool, h: bool)
    ensures
        flag_set(flags_for(p, v, h), FLAG_POS) == p,
        flag_set(flags_for(p, v, h), FLAG_VEL) == v,
        flag_set(flags_for(p, v, h), FLAG_HP) == h,
        (flags_for(p, v, h) & !7u16) == 0,
{
    let f = flags_for(p, v, h);
    assert(f == ((if p { 1int } else { 0int }) + (if v { 2int } else { 0int }) + (if h { 4int } else { 0int })) as u16);
    assert(((f & 1u16) != 0) == p && ((f & 2u16) != 0) == v && ((f & 4u16) != 0) == h && (f & !7u16) == 0)
        by (bit_vector)
        requires
            f == ((if p { 1int } else { 0int }) + (if v { 2int } else { 0int }) + (if h { 4int } else { 0int })) as u16,
    ;
}

/// After a delta is computed, the baseline of every replicated entity that
/// is present agrees with the state it was sent, and the baselines written
/// by this delta carry the current tick.
pub proof fn lemma_recorded_baseline_matches_state(
    b1: Map<NetId, EntityBaseline>,
    states: Seq<EntityNetState>,
    e: Set<NetId>,
    tick: u32,
    k: NetId,
)
    requires
        e.contains(k),
        spec_find(states, k) is Some,
    ensures
        recorded(b1, states, e, tick).contains_key(k),
        !spec_entity_changed(
            recorded(b1, states, e, tick),
            k,
            spec_find(states, k).unwrap().pos,
            spec_find(states, k).unwrap().vel,
            spec_find(states, k).unwrap().hp,
        ),
        touched(b1, states, e, k) ==> recorded(b1, states, e, tick)[k].last_tick == tick,
{
}

/// Computes the delta for one client from its interest set and baseline,
/// and brings the baseline up to date.
///
/// Entities that left the interest set are despawned and forget their
/// baseline; entities in it without a baseline are spawned; entities whose
/// state differs from their baseline get an update of the differing fields;
/// both record their state at `current_tick`. Finally baselines older than
/// `BASELINE_MAX_AGE_TICKS` are dropped.
pub fn collect_delta_for_client(
    interest_set: &InterestSet,
    baseline: &mut ClientBaseline,
    entities: &Vec<EntityNetState>,
    current_tick: u32,
) -> (r: WorldDelta)
    requires
        forall|k: NetId| #[trigger] old(baseline).entities@.contains_key(k)
            ==> old(baseline).entities@[k].last_tick <= current_tick,
    ensures
        ({
            let b1 = old(baseline).entities@.remove_keys(
                interest_set.previous_entities@.difference(interest_set.entities@),
            );
            let e = interest_set.entities@;
            &&& lists_difference(r.despawns@, interest_set.previous_entities@, e)
            &&& r.spawns@.no_duplicates()
            &&& r.spawns@.to_set() == spawned(b1, entities@, e)
            &&& r.updates@.no_duplicates()
            &&& r.updates@.to_set() == updated(b1, entities@, e)
            &&& final(baseline).entities@ == spec_retain_fresh(
                recorded(b1, entities@, e, current_tick),
                current_tick,
                BASELINE_MAX_AGE_TICKS,
            )
            &&& final(baseline).player_id == old(baseline).player_id
            &&& final(baseline).last_acked_tick == old(baseline).last_acked_tick
        }),
        forall|i: int|
            0 <= i < r.updates@.len() ==> {
                let u = #[trigger] r.updates@[i];
                let st = spec_find(entities@, u.id).unwrap();
                &&& spec_find(entities@, u.id) is Some
                &&& u.pos is Some ==> u.pos == Some(st.pos)
                &&& u.vel is Some ==> u.vel == Some(st.vel)
                &&& u.hp is Some ==> u.hp == Some(st.hp)
                &&& u.flags_match_fields()
            },
{
    let ghost b0 = baseline.entities@;
    let ghost gone = interest_set.previous_entities@.difference(interest_set.entities@);
    let despawns = interest_set.get_despawns();
    let mut i: usize = 0;
    while i < despawns.len()
        invariant
            i <= despawns@.len(),
            despawns@.to_set() == gone,
            baseline.entities@ == b0.remove_keys(despawns@.subrange(0, i as int).to_set()),
            baseline.player_id == old(baseline).player_id,
            baseline.last_acked_tick == old(baseline).last_acked_tick,
        decreases despawns@.len() - i,
    {
        let id = despawns[i];
        baseline.remove_entity(id);
        proof {
            assert(despawns@.subrange(0, i + 1) =~= despawns@.subrange(0, i as int).push(id));
            lemma_push_to_set(despawns@.subrange(0, i as int), id);
            assert(despawns@.subrange(0, i + 1).to_set() =~= despawns@.subrange(0, i as int).to_set().insert(id));
            assert(baseline.entities@ =~= b0.remove_keys(despawns@.subrange(0, i + 1).to_set()));
        }
        i = i + 1;
    }
    proof {
        assert(despawns@.subrange(0, despawns@.len() as int) == despawns@);
    }
    let ghost b1 = baseline.entities@;
    assert(b1 == b0.remove_keys(gone));
    let ghost states = entities@;
    let ghost e = interest_set.entities@;
    let ghost mut seen: Set<NetId> = Set::empty();
    let mut spawns: Vec<SpawnNet> = Vec::new();
    let mut updates: Vec<UpdateNet> = Vec::new();
    proof {
        let rem = vstd::std_specs::hash::spec_hash_keys_iter(&interest_set.entities).remaining();
        assert(rem.unref().to_set() == e);
        assert forall|i: int| 0 <= i < rem.len() implies e.contains(*#[trigger] rem[i]) by {
            assert(rem.unref()[i] == *rem[i]);
            assert(rem.unref().contains(*rem[i]));
        }
        assert(baseline.entities@ =~= recorded(b1, states, seen, current_tick));
        assert(spawns@.to_set() =~= spawned(b1, states, seen));
        assert(updates@.to_set() =~= updated(b1, states, seen));
    }
    for x in it: interest_set.entities.iter()
        invariant
            e == interest_set.entities@,
            states == entities@,
            it.seq().no_duplicates(),
            forall|k: NetId| #[trigger] e.contains(k) ==> it.seq().contains(&k),
            forall|i: int| 0 <= i < it.index() ==> seen.contains(*#[trigger] it.seq()[i]),
            forall|k: NetId| #[trigger] seen.contains(k) ==> exists|i: int|
                0 <= i < it.index() && *it.seq()[i] == k,
            it.index() == it.seq().len() ==> forall|k: NetId| #[trigger] e.contains(k) ==> seen.contains(k),
            forall|i: int| 0 <= i < it.seq().len() ==> e.contains(*#[trigger] it.seq()[i]),
            baseline.entities@ == recorded(b1, states, seen, current_tick),
            baseline.player_id == old(baseline).player_id,
            baseline.last_acked_tick == old(baseline).last_acked_tick,
            forall|k: NetId| #[trigger] b0.contains_key(k) ==> b0[k].last_tick <= current_tick,
            b1 == b0.remove_keys(gone),
            spawns@.no_duplicates(),
            spawns@.to_set() == spawned(b1, states, seen),
            updates@.no_duplicates(),
            updates@.to_set() == updated(b1, states, seen),
    {
        let ghost idx = it.index();
        let ghost x_id: NetId = *x;
        proof {
            if seen.contains(x_id) {
                let i = choose|i: int| 0 <= i < idx && *it.seq()[i] == x_id;
                assert(it.seq()[i] == it.seq()[idx]);
            }
        }
        let ghost seen2 = seen.insert(x_id);
        let ghost old_spawns = spawns@;
        let ghost old_updates = updates@;
        let ghost old_map = baseline.entities@;
        let found = find_state(entities, *x);
        match found {
            None => {
                proof {
                    assert(recorded(b1, states, seen2, current_tick) =~= recorded(b1, states, seen, current_tick));
                    assert(spawned(b1, states, seen2) =~= spawned(b1, states, seen));
                    assert(updated(b1, states, seen2) =~= updated(b1, states, seen));
                }
            },
            Some(st) => {
                assert(!touched(b1, states, seen, x_id));
                assert(old_map.contains_key(x_id) == b1.contains_key(x_id));
                assert(b1.contains_key(x_id) ==> old_map[x_id] == b1[x_id]);
                if baseline.has_changed(*x, st.pos, st.vel, st.hp) {
                    match baseline.get_entity(*x) {
                        None => {
                            let sp = SpawnNet {
                                id: *x,
                                kind: determine_entity_kind(st.player_id),
                                pos: st.pos,
                                vel: st.vel,
                                hp: Some(st.hp),
                                hp_max: Some(st.hp_max),
                            };
                            proof {
                                assert(sp == spawn_of(st));
                                assert forall|j: int| 0 <= j < old_spawns.len() implies old_spawns[j].id != x_id by {
                                    assert(old_spawns.to_set().contains(old_spawns[j]));
                                }
                            }
                            spawns.push(sp);
                            proof {
                                lemma_push_to_set(old_spawns, sp);
                                assert(spawns@.to_set() =~= spawned(b1, states, seen2));
                                assert(updated(b1, states, seen2) =~= updated(b1, states, seen));
                            }
                        },
                        Some(b) => {
                            let up = make_update(b, &st);
                            proof {
                                assert forall|j: int| 0 <= j < old_updates.len() implies old_updates[j].id != x_id by {
                                    assert(old_updates.to_set().contains(old_updates[j]));
                                }
                            }
                            updates.push(up);
                            proof {
                                lemma_push_to_set(old_updates, up);
                                assert(*b == b1[x_id]);
                                assert(updates@.to_set() =~= updated(b1, states, seen2));
                                assert(spawned(b1, states, seen2) =~= spawned(b1, states, seen));
                            }
                        },
                    }
                    baseline.update_entity(*x, st.pos, st.vel, st.hp, current_tick);
                    proof {
                        assert(touched(b1, states, seen2, x_id));
                        assert(baseline.entities@ =~= recorded(b1, states, seen2, current_tick));
                    }
                } else {
                    proof {
                        assert(!touched(b1, states, seen2, x_id));
                        assert(recorded(b1, states, seen2, current_tick) =~= recorded(b1, states, seen, current_tick));
                        assert(spawned(b1, states, seen2) =~= spawned(b1, states, seen));
                        assert(updated(b1, states, seen2) =~= updated(b1, states, seen));
                    }
                }
            },
        }
        proof {
            seen = seen2;
        }
    }
    proof {
        assert(seen =~= e);
        let m = baseline.entities@;
        assert forall|k: NetId| #[trigger] m.contains_key(k) implies m[k].last_tick <= current_tick by {
            if !touched(b1, states, seen, k) {
                assert(b1.contains_key(k));
                assert(b0.contains_key(k));
            }
        }
    }
    baseline.cleanup_old_entities(current_tick, BASELINE_MAX_AGE_TICKS);
    proof {
        assert forall|i: int| 0 <= i < updates@.len() implies updated(b1, states, e).contains(
            #[trigger] updates@[i],
        ) by {
            assert(updates@.to_set().contains(updates@[i]));
        }
        assert forall|i: int| 0 <= i < updates@.len() implies {
            let u = #[trigger] updates@[i];
            let st = spec_find(entities@, u.id).unwrap();
            &&& spec_find(entities@, u.id) is Some
            &&& u.pos is Some ==> u.pos == Some(st.pos)
            &&& u.vel is Some ==> u.vel == Some(st.vel)
            &&& u.hp is Some ==> u.hp == Some(st.hp)
            &&& u.flags_match_fields()
        } by {
            lemma_updates_carry_current_state(b1, states, e, updates@[i]);
        }
    }
    WorldDelta { spawns, despawns, updates }
}

/// What the server sends back for a client message.
#[derive(Debug, Clone)]
pub enum ServerReply {
    /// Accepts a hello, echoing the client's protocol version.
    HelloOk { protocol: u16, tick_hz: u16 },
    /// Accepts a join with the assigned player id and the initial state.
    JoinOk { player_id: u8, world_seed: u64, start_tick: u32, snapshot: Snapshot },
    /// Answers a ping with its timestamp.
    Pong { timestamp_ms: u64 },
}

/// Applies one message from connection `conn_id` to the server state and
/// returns the reply to send, if any.
///
/// A hello is answered with the tick rate; a join opens a session and is
/// answered with its player id, the world seed and the current tick; input
/// and acknowledgements from a connection with a session are recorded (from
/// others they are ignored); a ping is answered with its timestamp.
pub fn server_handle_message(
    sessions: &mut ClientSessions,
    input_buffers: &mut InputBuffers,
    tick: u32,
    tick_hz: u16,
    conn_id: ConnId,
    msg: C2S,
) -> (r: Option<ServerReply>)
    ensures
        msg is Join ==> final(sessions).wf(),
        !(msg is Join) ==> final(sessions).wf() == old(sessions).wf(),
        msg matches C2S::Hello { protocol, .. } ==> {
            &&& r == Some(ServerReply::HelloOk { protocol: protocol, tick_hz: tick_hz })
            &&& final(sessions).session_map() == old(sessions).session_map()
            &&& final(sessions).next_player_id() == old(sessions).next_player_id()
            &&& final(input_buffers).buffers@ == old(input_buffers).buffers@
        },
        msg is Join ==> {
            &&& r matches Some(ServerReply::JoinOk { player_id, world_seed, start_tick, snapshot })
                && player_id == old(sessions).next_player_id() && world_seed == WORLD_SEED
                && start_tick == tick && snapshot.players@.len() == 0 && snapshot.pets@.len() == 0
                && snapshot.enemies@.len() == 0 && snapshot.projectiles@.len() == 0
                && snapshot.xp_gems@.len() == 0 && snapshot.gold@.len() == 0
            &&& final(sessions).next_player_id() == (old(sessions).next_player_id() + 1) % (MAX_PLAYERS as int)
            &&& final(sessions).session_map().dom() == old(sessions).session_map().dom().insert(conn_id)
            &&& is_new_session(final(sessions).session_map()[conn_id], conn_id, old(sessions).next_player_id())
            &&& forall|k: ConnId| k != conn_id && #[trigger] old(sessions).session_map().contains_key(k)
                ==> final(sessions).session_map()[k] == old(sessions).session_map()[k]
            &&& final(input_buffers).buffers@ == old(input_buffers).buffers@
        },
        msg matches C2S::Input(input) ==> {
            &&& r is None
            &&& final(sessions).next_player_id() == old(sessions).next_player_id()
            &&& old(sessions).session_map().contains_key(conn_id) ==> {
                let s = old(sessions).session_map()[conn_id];
                &&& final(sessions).session_map() == old(sessions).session_map().insert(
                    conn_id,
                    with_last_input(s, input),
                )
                &&& final(input_buffers).buffers@.dom() == old(input_buffers).buffers@.dom().insert(s.player_id)
                &&& queued(final(input_buffers).buffers@, s.player_id) == bounded_push(
                    queued(old(input_buffers).buffers@, s.player_id),
                    input,
                )
                &&& forall|k: u8| k != s.player_id && #[trigger] old(input_buffers).buffers@.contains_key(k)
                    ==> final(input_buffers).buffers@[k] == old(input_buffers).buffers@[k]
            }
            &&& !old(sessions).session_map().contains_key(conn_id) ==> {
                &&& final(sessions).session_map() == old(sessions).session_map()
                &&& final(input_buffers).buffers@ == old(input_buffers).buffers@
            }
        },
        msg matches C2S::Ack { last_server_tick } ==> {
            &&& r is None
            &&& final(sessions).next_player_id() == old(sessions).next_player_id()
            &&& final(input_buffers).buffers@ == old(input_buffers).buffers@
            &&& old(sessions).session_map().contains_key(conn_id) ==> {
                &&& final(sessions).session_map().dom() == old(sessions).session_map().dom()
                &&& forall|k: ConnId| k != conn_id && #[trigger] old(sessions).session_map().contains_key(k)
                    ==> final(sessions).session_map()[k] == old(sessions).session_map()[k]
                &&& acked(old(sessions).session_map()[conn_id], final(sessions).session_map()[conn_id], last_server_tick)
            }
            &&& !old(sessions).session_map().contains_key(conn_id) ==> final(sessions).session_map()
                == old(sessions).session_map()
        },
        msg matches C2S::Ping { timestamp_ms } ==> {
            &&& r == Some(ServerReply::Pong { timestamp_ms: timestamp_ms })
            &&& final(sessions).session_map() == old(sessions).session_map()
            &&& final(sessions).next_player_id() == old(sessions).next_player_id()
            &&& final(input_buffers).buffers@ == old(input_buffers).buffers@
        },
{
    match msg {
        C2S::Hello { protocol, .. } => Some(ServerReply::HelloOk { protocol, tick_hz }),
        C2S::Join { .. } => {
            let player_id = sessions.add_session(conn_id);
            Some(ServerReply::JoinOk { player_id, world_seed: WORLD_SEED, start_tick: tick, snapshot: Snapshot::empty() })
        },
        C2S::Input(input) => {
            match sessions.get_session_mut(conn_id) {
                Some(session) => {
                    input_buffers.push_input(session.player_id, input);
                    session.last_input = Some(input);
                },
                None => {},
            }
            None
        },
        C2S::Ack { last_server_tick } => {
            match sessions.get_session_mut(conn_id) {
                Some(session) => {
                    session.baseline.update_ack(last_server_tick);
                },
                None => {},
            }
            None
        },
        C2S::Ping { timestamp_ms } => Some(ServerReply::Pong { timestamp_ms }),
    }
}

/// Session `s` with `input` recorded as its last input.
pub open spec fn with_last_input(s: ClientSession, input: InputCmd) -> ClientSession {
    ClientSession { last_input: Some(input), ..s }
}

/// `t` is session `s` after acknowledging `tick`: only its baseline's
/// acknowledged tick changes, and only upwards.
pub open spec fn acked(s: ClientSession, t: ClientSession, tick: u32) -> bool {
    &&& t.conn_id == s.conn_id
    &&& t.player_id == s.player_id
    &&& t.last_input == s.last_input
    &&& t.interest_set == s.interest_set
    &&& t.baseline.player_id == s.baseline.player_id
    &&& t.baseline.entities == s.baseline.entities
    &&& t.baseline.last_acked_tick == (if tick > s.baseline.last_acked_tick { tick } else { s.baseline.last_acked_tick })
}

} // verus!
