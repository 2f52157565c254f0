//! Client side of the synchronisation protocol: tick bookkeeping, the
//! snapshot buffer used for interpolation, and the reactions to server
//! messages and local input.
use vstd::prelude::*;
use std::collections::VecDeque;
use crate::protocol::messages::{C2S, InputCmd};
use crate::protocol::snapshots::Snapshot;

verus! {

/// Capacity of the snapshot buffer.
pub const SNAPSHOT_BUFFER_SIZE: usize = 10;

/// Interpolation delay, in snapshots.
pub const TARGET_INTERPOLATION_DELAY: usize = 2;

/// Client-side tick counters.
#[derive(Debug, Clone, Copy, PartialEq, Eq)]
pub struct ClientTick {
    /// Sequence number of the next input command.
    pub client_seq: u32,
    /// Local tick, advanced once per frame.
    pub client_tick: u32,
    /// Last server tick received.
    pub last_server_tick: u32,
}

impl Default for ClientTick {
    fn default() -> (r: Self)
        ensures
            r.client_seq == 0,
            r.client_tick == 0,
            r.last_server_tick == 0,
    {
        ClientTick { client_seq: 0, client_tick: 0, last_server_tick: 0 }
    }
}

/// A snapshot with the server tick it belongs to.
#[derive(Debug, Clone)]
pub struct BufferedSnapshot {
    pub server_tick: u32,
    pub snapshot: Snapshot,
}

/// Snapshots kept for interpolation, ordered by server tick.
#[derive(Debug)]
pub struct SnapshotBuffer {
    /// Buffered snapshots, oldest first.
    pub snapshots: VecDeque<BufferedSnapshot>,
    /// Interpolation delay, in snapshots.
    pub target_delay: usize,
}

/// The server ticks are in non-decreasing order.
pub open spec fn ticks_sorted(s: Seq<BufferedSnapshot>) -> bool {
    forall|i: int, j: int| 0 <= i <= j < s.len() ==> s[i].server_tick <= s[j].server_tick
}

/// `p` is where a snapshot of tick `t` goes: after every snapshot whose tick
/// is at most `t`, before the first one with a later tick.
pub open spec fn is_insert_pos(s: Seq<BufferedSnapshot>, t: u32, p: int) -> bool {
    &&& 0 <= p <= s.len()
    &&& forall|j: int| 0 <= j < p ==> s[j].server_tick <= t
    &&& p < s.len() ==> s[p].server_tick > t
}

/// The buffer entry of `snapshot` at tick `t`.
pub open spec fn buffered(t: u32, snapshot: Snapshot) -> BufferedSnapshot {
    BufferedSnapshot { server_tick: t, snapshot }
}

/// The newest `SNAPSHOT_BUFFER_SIZE` entries of `s`.
pub open spec fn keep_newest(s: Seq<BufferedSnapshot>) -> Seq<BufferedSnapshot> {
    if s.len() > SNAPSHOT_BUFFER_SIZE {
        s.subrange(s.len() - SNAPSHOT_BUFFER_SIZE, s.len() as int)
    } else {
        s
    }
}

impl Default for SnapshotBuffer {
    fn default() -> (r: Self)
        ensures
            r.snapshots@ == Seq::<BufferedSnapshot>::empty(),
            r.target_delay == TARGET_INTERPOLATION_DELAY,
    {
        SnapshotBuffer { snapshots: VecDeque::with_capacity(SNAPSHOT_BUFFER_SIZE), target_delay: TARGET_INTERPOLATION_DELAY }
    }
}

impl SnapshotBuffer {
    /// Inserts a snapshot after every buffered snapshot whose tick is not
    /// later, then drops the oldest ones beyond the capacity.
    pub fn push(&mut self, server_tick: u32, snapshot: Snapshot)
        ensures
            final(self).target_delay == old(self).target_delay,
            exists|p: int| #[trigger] is_insert_pos(old(self).snapshots@, server_tick, p)
                && final(self).snapshots@ == keep_newest(
                    old(self).snapshots@.insert(p, buffered(server_tick, snapshot)),
                ),
    {
        let ghost s = self.snapshots@;
        let mut pos: usize = 0;
        while pos < self.snapshots.len() && self.snapshots[pos].server_tick <= server_tick
            invariant
                s == self.snapshots@,
                self.target_delay == old(self).target_delay,
                pos <= s.len(),
                forall|j: int| 0 <= j < pos ==> s[j].server_tick <= server_tick,
            decreases s.len() - pos,
        {
            pos = pos + 1;
        }
        let item = BufferedSnapshot { server_tick, snapshot };
        let ghost inserted = s.insert(pos as int, item);
        assert(is_insert_pos(s, server_tick, pos as int));
        self.snapshots.insert(pos, item);
        while self.snapshots.len() > SNAPSHOT_BUFFER_SIZE
            invariant
                self.target_delay == old(self).target_delay,
                inserted.len() >= self.snapshots@.len(),
                inserted.len() > SNAPSHOT_BUFFER_SIZE ==> self.snapshots@.len() >= SNAPSHOT_BUFFER_SIZE,
                inserted.len() <= SNAPSHOT_BUFFER_SIZE ==> self.snapshots@.len() == inserted.len(),
                self.snapshots@ == inserted.subrange(inserted.len() - self.snapshots@.len(), inserted.len() as int),
            decreases self.snapshots@.len(),
        {
            self.snapshots.pop_front();
        }
        proof {
            if inserted.len() > SNAPSHOT_BUFFER_SIZE {
                assert(self.snapshots@.len() == SNAPSHOT_BUFFER_SIZE);
            } else {
                assert(self.snapshots@ =~= inserted);
            }
        }
    }

    /// The pair of snapshots to interpolate between: the one `target_delay`
    /// snapshots before the newest, and its successor.
    pub fn get_interpolation_pair(&self) -> (r: Option<(&BufferedSnapshot, &BufferedSnapshot)>)
        requires
            self.target_delay < usize::MAX,
        ensures
            ({
                let s = self.snapshots@;
                let idx = if s.len() > self.target_delay + 1 { s.len() - (self.target_delay + 1) } else { 0 };
                if s.len() < 2 || idx + 1 >= s.len() {
                    r is None
                } else {
                    r == Some((&s[idx], &s[idx + 1]))
                }
            }),
    {
        let len = self.snapshots.len();
        if len < 2 {
            return None;
        }
        let idx = len.saturating_sub(self.target_delay + 1);
        if idx + 1 < len {
            Some((&self.snapshots[idx], &self.snapshots[idx + 1]))
        } else {
            None
        }
    }

    /// The newest snapshot.
    pub fn get_latest(&self) -> (r: Option<&BufferedSnapshot>)
        ensures
            self.snapshots@.len() == 0 ==> r is None,
            self.snapshots@.len() > 0 ==> r == Some(&self.snapshots@[self.snapshots@.len() - 1]),
    {
        let len = self.snapshots.len();
        if len == 0 {
            None
        } else {
            Some(&self.snapshots[len - 1])
        }
    }
}

/// A push keeps the buffer ordered by tick and within its capacity, and the
/// newest snapshot stays in it.
pub proof fn lemma_push_keeps_buffer_sorted_and_bounded(
    s: Seq<BufferedSnapshot>,
    t: u32,
    snapshot: Snapshot,
    p: int,
)
    requires
        ticks_sorted(s),
        s.len() <= SNAPSHOT_BUFFER_SIZE,
        is_insert_pos(s, t, p),
    ensures
        ticks_sorted(keep_newest(s.insert(p, buffered(t, snapshot)))),
        keep_newest(s.insert(p, buffered(t, snapshot))).len() == (if s.len()
            < SNAPSHOT_BUFFER_SIZE {
            s.len() + 1int
        } else {
            SNAPSHOT_BUFFER_SIZE as int
        }),
        p == s.len() ==> keep_newest(s.insert(p, buffered(t, snapshot))).last()
            == buffered(t, snapshot),
{
    let item = buffered(t, snapshot);
    let ins = s.insert(p, item);
    assert forall|i: int, j: int| 0 <= i <= j < ins.len() implies ins[i].server_tick <= ins[j].server_tick by {
        if i < p && j < p {
        } else if i < p && j == p {
        } else if i < p && j > p {
            assert(ins[j] == s[j - 1]);
        } else if i == p && j == p {
        } else if i == p && j > p {
            assert(ins[j] == s[j - 1]);
            assert(s[p].server_tick > t);
        } else {
            assert(ins[i] == s[i - 1]);
            assert(ins[j] == s[j - 1]);
        }
    }
    let k = keep_newest(ins);
    assert forall|i: int, j: int| 0 <= i <= j < k.len() implies k[i].server_tick <= k[j].server_tick by {
        if ins.len() > SNAPSHOT_BUFFER_SIZE {
            assert(k[i] == ins[i + ins.len() - SNAPSHOT_BUFFER_SIZE]);
            assert(k[j] == ins[j + ins.len() - SNAPSHOT_BUFFER_SIZE]);
        }
    }
}

/// What the client logic reads of a message from the server.
#[derive(Debug, Clone)]
pub enum ServerEvent {
    /// The server accepted the hello.
    HelloOk { protocol: u16, tick_hz: u16 },
    /// The server accepted the join, with the initial world state.
    JoinOk { player_id: u8, world_seed: u64, start_tick: u32, snapshot: Snapshot },
    /// A delta for `server_tick` against `base_tick`.
    Delta { server_tick: u32, base_tick: u32 },
    /// A reliable event.
    Event { server_tick: u32, event_id: u64 },
    /// The answer to a ping.
    Pong { timestamp_ms: u64 },
    /// The client was removed from the server.
    Kick { reason: String },
}

/// What the client does in answer to a server message.
#[derive(Debug, Clone)]
pub struct ClientReaction {
    /// Message to send back to the server.
    pub reply: Option<C2S>,
    /// Player id assigned to this client.
    pub local_player_id: Option<u8>,
    /// Measured round-trip time, in milliseconds.
    pub rtt_ms: Option<u64>,
}

/// Updates the tick counters and the snapshot buffer for a message from the
/// server; `now_ms` is the current wall-clock time in milliseconds.
pub fn client_handle_message(
    tick: &mut ClientTick,
    buffer: &mut SnapshotBuffer,
    msg: ServerEvent,
    now_ms: u64,
) -> (r: ClientReaction)
    ensures
        final(tick).client_seq == old(tick).client_seq,
        final(tick).client_tick == old(tick).client_tick,
        final(buffer).target_delay == old(buffer).target_delay,
        match msg {
            ServerEvent::JoinOk { player_id, start_tick, snapshot, .. } => {
                &&& final(tick).last_server_tick == start_tick
                &&& exists|p: int| #[trigger] is_insert_pos(old(buffer).snapshots@, start_tick, p)
                    && final(buffer).snapshots@ == keep_newest(
                        old(buffer).snapshots@.insert(p, buffered(start_tick, snapshot)),
                    )
                &&& r.local_player_id == Some(player_id)
                &&& r.reply is None
                &&& r.rtt_ms is None
            },
            ServerEvent::Delta { server_tick, .. } => {
                &&& final(tick).last_server_tick == server_tick
                &&& final(buffer).snapshots@ == old(buffer).snapshots@
                &&& r.reply matches Some(C2S::Ack { last_server_tick }) && last_server_tick == server_tick
                &&& r.local_player_id is None
                &&& r.rtt_ms is None
            },
            ServerEvent::Pong { timestamp_ms } => {
                &&& final(tick).last_server_tick == old(tick).last_server_tick
                &&& final(buffer).snapshots@ == old(buffer).snapshots@
                &&& r.rtt_ms == Some(if now_ms >= timestamp_ms { (now_ms - timestamp_ms) as u64 } else { 0u64 })
                &&& r.reply is None
                &&& r.local_player_id is None
            },
            _ => {
                &&& final(tick).last_server_tick == old(tick).last_server_tick
                &&& final(buffer).snapshots@ == old(buffer).snapshots@
                &&& r.reply is None
                &&& r.local_player_id is None
                &&& r.rtt_ms is None
            },
        },
{
    match msg {
        ServerEvent::JoinOk { player_id, start_tick, snapshot, .. } => {
            tick.last_server_tick = start_tick;
            buffer.push(start_tick, snapshot);
            ClientReaction { reply: None, local_player_id: Some(player_id), rtt_ms: None }
        },
        ServerEvent::Delta { server_tick, .. } => {
            tick.last_server_tick = server_tick;
            ClientReaction {
                reply: Some(C2S::Ack { last_server_tick: server_tick }),
                local_player_id: None,
                rtt_ms: None,
            }
        },
        ServerEvent::Pong { timestamp_ms } => {
            let rtt = now_ms.saturating_sub(timestamp_ms);
            ClientReaction { reply: None, local_player_id: None, rtt_ms: Some(rtt) }
        },
        _ => ClientReaction { reply: None, local_player_id: None, rtt_ms: None },
    }
}

/// Which movement keys are held this frame.
#[derive(Debug, Clone, Copy, PartialEq, Eq)]
pub struct MoveKeys {
    pub up: bool,
    pub down: bool,
    pub left: bool,
    pub right: bool,
}

/// The movement axis value of two opposing keys.
pub open spec fn axis(positive: bool, negative: bool) -> i8 {
    (if positive { 100int } else { 0int } - if negative { 100int } else { 0int }) as i8
}

/// An input command that only moves.
pub open spec fn movement_cmd(seq: u32, tick: u32, mx: i8, my: i8) -> InputCmd {
    InputCmd { client_seq: seq, client_tick: tick, move_x: mx, move_y: my, aim_x: 0, aim_y: 0, buttons: 0 }
}

/// Advances the client tick and builds the input command of this frame.
///
/// A command is produced when the player moves, or when `send_idle` holds
/// (the caller's periodic keep-alive condition); each produced command takes
/// the next sequence number.
pub fn capture_input(tick: &mut ClientTick, keys: MoveKeys, send_idle: bool) -> (r: Option<InputCmd>)
    ensures
        final(tick).client_tick == old(tick).client_tick.wrapping_add(1),
        final(tick).last_server_tick == old(tick).last_server_tick,
        ({
            let mx = axis(keys.right, keys.left);
            let my = axis(keys.up, keys.down);
            if mx != 0 || my != 0 || send_idle {
                &&& r == Some(movement_cmd(old(tick).client_seq, final(tick).client_tick, mx, my))
                &&& final(tick).client_seq == old(tick).client_seq.wrapping_add(1)
            } else {
                &&& r is None
                &&& final(tick).client_seq == old(tick).client_seq
            }
        }),
{
    tick.client_tick = tick.client_tick.wrapping_add(1);
    let mut move_x: i8 = 0;
    let mut move_y: i8 = 0;
    if keys.up {
        move_y = move_y + 100;
    }
    if keys.down {
        move_y = move_y - 100;
    }
    if keys.left {
        move_x = move_x - 100;
    }
    if keys.right {
        move_x = move_x + 100;
    }
    if move_x != 0 || move_y != 0 || send_idle {
        let input = InputCmd {
            client_seq: tick.client_seq,
            client_tick: tick.client_tick,
            move_x,
            move_y,
            aim_x: 0,
            aim_y: 0,
            buttons: 0,
        };
        tick.client_seq = tick.client_seq.wrapping_add(1);
        Some(input)
    } else {
        None
    }
}

} // verus!
