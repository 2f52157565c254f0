use std::collections::HashSet;

use roggy::protocol::messages::{InputCmd, C2S};
use roggy::protocol::quantization::Vec2i16;
use roggy::protocol::snapshots::{EntityKind, Snapshot};
use roggy::sync::client::{
    capture_input, client_handle_message, ClientTick, MoveKeys, ServerEvent, SnapshotBuffer,
    SNAPSHOT_BUFFER_SIZE,
};
use roggy::sync::server::{
    collect_delta_for_client, determine_entity_kind, server_handle_message, ClientSession,
    ClientSessions, EntityNetState, InputBuffers, ServerReply, INPUT_BUFFER_SIZE, WORLD_SEED,
};
use roggy::world::baseline::ClientBaseline;
use roggy::world::interest::InterestSet;

fn empty_snapshot() -> Snapshot {
    Snapshot {
        players: vec![],
        pets: vec![],
        enemies: vec![],
        projectiles: vec![],
        xp_gems: vec![],
        gold: vec![],
    }
}

#[test]
fn test_client_tick_creation() {
    let tick = ClientTick::default();
    assert_eq!(tick.client_seq, 0);
    assert_eq!(tick.client_tick, 0);
    assert_eq!(tick.last_server_tick, 0);
}

#[test]
fn test_snapshot_buffer_push() {
    let mut buffer = SnapshotBuffer::default();
    let snapshot1 = empty_snapshot();

    buffer.push(10, snapshot1.clone());
    assert_eq!(buffer.snapshots.len(), 1);

    buffer.push(20, snapshot1.clone());
    assert_eq!(buffer.snapshots.len(), 2);

    assert_eq!(buffer.snapshots[0].server_tick, 10);
    assert_eq!(buffer.snapshots[1].server_tick, 20);
}

#[test]
fn test_snapshot_buffer_out_of_order() {
    let mut buffer = SnapshotBuffer::default();
    let snapshot = empty_snapshot();

    buffer.push(20, snapshot.clone());
    buffer.push(10, snapshot.clone());
    buffer.push(15, snapshot.clone());

    assert_eq!(buffer.snapshots[0].server_tick, 10);
    assert_eq!(buffer.snapshots[1].server_tick, 15);
    assert_eq!(buffer.snapshots[2].server_tick, 20);
}

#[test]
fn test_snapshot_buffer_overflow() {
    let mut buffer = SnapshotBuffer::default();
    let snapshot = empty_snapshot();

    for i in 0..(SNAPSHOT_BUFFER_SIZE + 5) {
        buffer.push(i as u32, snapshot.clone());
    }

    assert_eq!(buffer.snapshots.len(), SNAPSHOT_BUFFER_SIZE);
    assert_eq!(buffer.snapshots[0].server_tick, 5);
}

#[test]
fn test_snapshot_buffer_interpolation_pair() {
    let mut buffer = SnapshotBuffer::default();
    let snapshot = empty_snapshot();

    assert!(buffer.get_interpolation_pair().is_none());

    buffer.push(10, snapshot.clone());
    assert!(buffer.get_interpolation_pair().is_none());

    buffer.push(20, snapshot.clone());
    buffer.push(30, snapshot.clone());
    buffer.push(40, snapshot.clone());

    let pair = buffer.get_interpolation_pair();
    assert!(pair.is_some());

    let (a, b) = pair.unwrap();
    assert_eq!(a.server_tick, 20);
    assert_eq!(b.server_tick, 30);
}

#[test]
fn interpolation_pair_with_two_snapshots() {
    let mut buffer = SnapshotBuffer::default();
    buffer.push(3, empty_snapshot());
    buffer.push(4, empty_snapshot());
    let (a, b) = buffer.get_interpolation_pair().unwrap();
    assert_eq!(a.server_tick, 3);
    assert_eq!(b.server_tick, 4);
}

#[test]
fn test_snapshot_buffer_get_latest() {
    let mut buffer = SnapshotBuffer::default();

    assert!(buffer.get_latest().is_none());

    let snapshot = empty_snapshot();
    buffer.push(10, snapshot.clone());
    buffer.push(20, snapshot.clone());

    let latest = buffer.get_latest();
    assert!(latest.is_some());
    assert_eq!(latest.unwrap().server_tick, 20);
}

#[test]
fn client_acks_deltas_and_measures_rtt() {
    let mut tick = ClientTick::default();
    let mut buffer = SnapshotBuffer::default();
    let r = client_handle_message(
        &mut tick,
        &mut buffer,
        ServerEvent::Delta { server_tick: 42, base_tick: 40 },
        0,
    );
    assert_eq!(tick.last_server_tick, 42);
    assert!(matches!(r.reply, Some(C2S::Ack { last_server_tick: 42 })));

    let r = client_handle_message(&mut tick, &mut buffer, ServerEvent::Pong { timestamp_ms: 1000 }, 1075);
    assert_eq!(r.rtt_ms, Some(75));
    let r = client_handle_message(&mut tick, &mut buffer, ServerEvent::Pong { timestamp_ms: 1000 }, 900);
    assert_eq!(r.rtt_ms, Some(0));
    assert_eq!(tick.last_server_tick, 42);
}

#[test]
fn client_join_buffers_initial_snapshot() {
    let mut tick = ClientTick::default();
    let mut buffer = SnapshotBuffer::default();
    let r = client_handle_message(
        &mut tick,
        &mut buffer,
        ServerEvent::JoinOk { player_id: 2, world_seed: 9, start_tick: 77, snapshot: empty_snapshot() },
        0,
    );
    assert_eq!(r.local_player_id, Some(2));
    assert!(r.reply.is_none());
    assert_eq!(tick.last_server_tick, 77);
    assert_eq!(buffer.snapshots.len(), 1);
    assert_eq!(buffer.snapshots[0].server_tick, 77);

    let r = client_handle_message(&mut tick, &mut buffer, ServerEvent::Kick { reason: "full".to_string() }, 5);
    assert!(r.reply.is_none() && r.local_player_id.is_none() && r.rtt_ms.is_none());
    assert_eq!(tick.last_server_tick, 77);
}

#[test]
fn capture_input_moves_and_numbers_commands() {
    let mut tick = ClientTick::default();
    let keys = MoveKeys { up: true, down: false, left: true, right: false };
    let cmd = capture_input(&mut tick, keys, false).unwrap();
    assert_eq!(cmd.move_x, -100);
    assert_eq!(cmd.move_y, 100);
    assert_eq!(cmd.client_seq, 0);
    assert_eq!(cmd.client_tick, 1);
    assert_eq!(tick.client_seq, 1);

    let idle = MoveKeys { up: true, down: true, left: false, right: false };
    assert!(capture_input(&mut tick, idle, false).is_none());
    assert_eq!(tick.client_tick, 2);
    assert_eq!(tick.client_seq, 1);
    let keep_alive = capture_input(&mut tick, idle, true).unwrap();
    assert_eq!((keep_alive.move_x, keep_alive.move_y), (0, 0));
    assert_eq!(keep_alive.client_seq, 1);
    assert_eq!(keep_alive.client_tick, 3);
}

#[test]
fn test_client_session_creation() {
    let session = ClientSession::new(123, 1);
    assert_eq!(session.conn_id, 123);
    assert_eq!(session.player_id, 1);
    assert!(session.last_input.is_none());
}

#[test]
fn test_client_sessions_add_remove() {
    let mut sessions = ClientSessions::default();

    let player_id1 = sessions.add_session(100);
    let player_id2 = sessions.add_session(200);

    assert_eq!(sessions.sessions.len(), 2);
    assert_eq!(player_id1, 0);
    assert_eq!(player_id2, 1);

    let removed = sessions.remove_session(100);
    assert!(removed.is_some());
    assert_eq!(sessions.sessions.len(), 1);
}

#[test]
fn player_ids_cycle_through_slots() {
    let mut sessions = ClientSessions::new();
    let ids: Vec<u8> = (0..6).map(|c| sessions.add_session(c)).collect();
    assert_eq!(ids, vec![0, 1, 2, 3, 0, 1]);
    assert!(sessions.get_session(3).is_some());
    assert!(sessions.get_session(99).is_none());
}

fn input(seq: u32) -> InputCmd {
    InputCmd {
        client_seq: seq,
        client_tick: seq,
        move_x: 0,
        move_y: 0,
        aim_x: 0,
        aim_y: 0,
        buttons: 0,
    }
}

#[test]
fn test_input_buffers_push_pop() {
    let mut buffers = InputBuffers::default();

    let input1 = InputCmd {
        client_seq: 1,
        client_tick: 10,
        move_x: 10,
        move_y: 0,
        aim_x: 0,
        aim_y: 0,
        buttons: 0,
    };

    buffers.push_input(0, input1.clone());

    let popped = buffers.pop_input(0);
    assert!(popped.is_some());
    assert_eq!(popped.unwrap().client_seq, 1);
}

#[test]
fn test_input_buffers_overflow() {
    let mut buffers = InputBuffers::default();

    for i in 0..INPUT_BUFFER_SIZE + 10 {
        buffers.push_input(0, input(i as u32));
    }

    assert_eq!(buffers.buffers.get(&0).unwrap().len(), INPUT_BUFFER_SIZE);

    let first = buffers.pop_input(0).unwrap();
    assert_eq!(first.client_seq, 10);
}

#[test]
fn input_buffers_are_fifo_per_player() {
    let mut buffers = InputBuffers::new();
    assert!(buffers.pop_input(3).is_none());
    buffers.push_input(3, input(1));
    buffers.push_input(4, input(50));
    buffers.push_input(3, input(2));
    assert_eq!(buffers.pop_input(3).unwrap().client_seq, 1);
    assert_eq!(buffers.pop_input(3).unwrap().client_seq, 2);
    assert!(buffers.pop_input(3).is_none());
    assert_eq!(buffers.pop_input(4).unwrap().client_seq, 50);
}

#[test]
fn server_answers_hello_join_and_ping() {
    let mut sessions = ClientSessions::new();
    let mut buffers = InputBuffers::new();
    let r = server_handle_message(&mut sessions, &mut buffers, 5, 30, 1, C2S::Hello { build: 3, protocol: 1 });
    assert!(matches!(r, Some(ServerReply::HelloOk { protocol: 1, tick_hz: 30 })));

    let r = server_handle_message(&mut sessions, &mut buffers, 5, 30, 1, C2S::Join { name: "a".to_string() });
    match r {
        Some(ServerReply::JoinOk { player_id, world_seed, start_tick, snapshot }) => {
            assert_eq!(player_id, 0);
            assert_eq!(world_seed, WORLD_SEED);
            assert_eq!(start_tick, 5);
            assert!(snapshot.players.is_empty());
        }
        _ => panic!("expected a join answer"),
    }
    assert_eq!(sessions.sessions.len(), 1);

    let r = server_handle_message(&mut sessions, &mut buffers, 5, 30, 1, C2S::Ping { timestamp_ms: 99 });
    assert!(matches!(r, Some(ServerReply::Pong { timestamp_ms: 99 })));
}

#[test]
fn server_records_input_and_acks_of_known_clients_only() {
    let mut sessions = ClientSessions::new();
    let mut buffers = InputBuffers::new();
    server_handle_message(&mut sessions, &mut buffers, 0, 30, 8, C2S::Join { name: "b".to_string() });

    let r = server_handle_message(&mut sessions, &mut buffers, 0, 30, 8, C2S::Input(input(4)));
    assert!(r.is_none());
    assert_eq!(sessions.get_session(8).unwrap().last_input.unwrap().client_seq, 4);
    assert_eq!(buffers.pop_input(0).unwrap().client_seq, 4);

    server_handle_message(&mut sessions, &mut buffers, 0, 30, 9, C2S::Input(input(5)));
    assert!(buffers.buffers.get(&1).is_none());

    server_handle_message(&mut sessions, &mut buffers, 0, 30, 8, C2S::Ack { last_server_tick: 12 });
    server_handle_message(&mut sessions, &mut buffers, 0, 30, 8, C2S::Ack { last_server_tick: 7 });
    assert_eq!(sessions.get_session(8).unwrap().baseline.last_acked_tick, 12);
}

fn state(net_id: u32, x: i16, hp: u16, player_id: Option<u32>) -> EntityNetState {
    EntityNetState {
        net_id,
        pos: Vec2i16::new(x, 0),
        vel: Vec2i16::zero(),
        hp,
        hp_max: 100,
        player_id,
    }
}

#[test]
fn entity_kind_of_players_and_others() {
    assert_eq!(determine_entity_kind(Some(3)), EntityKind::Player { player_id: 3 });
    assert_eq!(determine_entity_kind(None), EntityKind::Projectile);
}

#[test]
fn delta_spawns_updates_and_despawns() {
    let mut interest = InterestSet::new();
    interest.update([1u32, 2].into_iter().collect::<HashSet<u32>>());
    let mut baseline = ClientBaseline::new(0);
    let entities = vec![state(1, 10, 50, Some(0)), state(2, 20, 60, None)];

    let first = collect_delta_for_client(&interest, &mut baseline, &entities, 1);
    assert_eq!(first.spawns.len(), 2);
    assert!(first.updates.is_empty());
    assert!(first.despawns.is_empty());
    assert_eq!(baseline.entity_count(), 2);
    let player_spawn = first.spawns.iter().find(|s| s.id == 1).unwrap();
    assert_eq!(player_spawn.kind, EntityKind::Player { player_id: 0 });
    assert_eq!(player_spawn.hp, Some(50));

    // Nothing moved: an empty delta.
    interest.update([1u32, 2].into_iter().collect::<HashSet<u32>>());
    let same = collect_delta_for_client(&interest, &mut baseline, &entities, 2);
    assert!(same.is_empty());

    // Entity 2 moved and lost health; entity 1 left the interest set.
    interest.update([2u32].into_iter().collect::<HashSet<u32>>());
    let moved = vec![state(1, 10, 50, Some(0)), state(2, 25, 55, None)];
    let delta = collect_delta_for_client(&interest, &mut baseline, &moved, 3);
    assert_eq!(delta.despawns, vec![1]);
    assert!(delta.spawns.is_empty());
    assert_eq!(delta.updates.len(), 1);
    let u = &delta.updates[0];
    assert_eq!(u.id, 2);
    assert_eq!(u.pos, Some(Vec2i16::new(25, 0)));
    assert_eq!(u.vel, None);
    assert_eq!(u.hp, Some(55));
    assert_eq!(baseline.entity_count(), 1);
    assert_eq!(baseline.get_entity(2).unwrap().last_tick, 3);
}

#[test]
fn delta_drops_stale_baselines() {
    let mut interest = InterestSet::new();
    interest.update([1u32].into_iter().collect::<HashSet<u32>>());
    let mut baseline = ClientBaseline::new(0);
    baseline.update_entity(9, Vec2i16::zero(), Vec2i16::zero(), 1, 0);
    let entities = vec![state(1, 0, 1, None)];
    collect_delta_for_client(&interest, &mut baseline, &entities, 301);
    assert!(baseline.get_entity(9).is_none());
    assert!(baseline.get_entity(1).is_some());
}
