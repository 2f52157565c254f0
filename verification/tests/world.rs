use std::collections::HashSet;

use roggy::protocol::quantization::Vec2i16;
use roggy::protocol::snapshots::EntityKind;
use roggy::world::baseline::{ClientBaseline, EntityBaseline};
use roggy::world::interest::{
    calculate_interest, get_entity_priority, DistanceBand, InterestCandidate, InterestSet,
    ReplicationPriority,
};

// Quantised at 32 steps per world unit: (10.0, 20.0) and (1.0, 2.0).
fn pos_10_20() -> Vec2i16 {
    Vec2i16::new(320, 640)
}

fn vel_1_2() -> Vec2i16 {
    Vec2i16::new(32, 64)
}

#[test]
fn test_entity_baseline_creation() {
    let baseline = EntityBaseline::new(123, pos_10_20(), vel_1_2(), 100, 1);

    assert_eq!(baseline.net_id, 123);
    assert_eq!(baseline.hp, 100);
    assert_eq!(baseline.last_tick, 1);
}

#[test]
fn test_entity_baseline_has_changed() {
    let pos = pos_10_20();
    let vel = vel_1_2();
    let baseline = EntityBaseline::new(123, pos, vel, 100, 1);

    assert!(!baseline.has_changed(pos, vel, 100));

    let new_pos = Vec2i16::new(352, 640);
    assert!(baseline.has_changed(new_pos, vel, 100));

    let new_vel = Vec2i16::new(64, 64);
    assert!(baseline.has_changed(pos, new_vel, 100));

    assert!(baseline.has_changed(pos, vel, 90));
}

#[test]
fn test_entity_baseline_update() {
    let mut baseline = EntityBaseline::new(123, pos_10_20(), vel_1_2(), 100, 1);

    let new_pos = Vec2i16::new(480, 800);
    let new_vel = Vec2i16::new(64, 96);
    baseline.update(new_pos, new_vel, 80, 2);

    assert_eq!(baseline.pos, new_pos);
    assert_eq!(baseline.vel, new_vel);
    assert_eq!(baseline.hp, 80);
    assert_eq!(baseline.last_tick, 2);
}

#[test]
fn test_client_baseline_creation() {
    let baseline = ClientBaseline::new(1);

    assert_eq!(baseline.player_id, 1);
    assert_eq!(baseline.last_acked_tick, 0);
    assert_eq!(baseline.entity_count(), 0);
}

#[test]
fn test_client_baseline_update_entity() {
    let mut baseline = ClientBaseline::new(1);

    baseline.update_entity(123, pos_10_20(), vel_1_2(), 100, 1);

    assert_eq!(baseline.entity_count(), 1);
    assert!(baseline.get_entity(123).is_some());
}

#[test]
fn update_entity_overwrites_existing_baseline() {
    let mut baseline = ClientBaseline::new(1);
    baseline.update_entity(5, pos_10_20(), vel_1_2(), 100, 1);
    baseline.update_entity(5, Vec2i16::new(1, 2), Vec2i16::new(3, 4), 7, 9);
    assert_eq!(baseline.entity_count(), 1);
    let b = baseline.get_entity(5).unwrap();
    assert_eq!(b.pos, Vec2i16::new(1, 2));
    assert_eq!(b.vel, Vec2i16::new(3, 4));
    assert_eq!(b.hp, 7);
    assert_eq!(b.last_tick, 9);
}

#[test]
fn test_client_baseline_has_changed() {
    let mut baseline = ClientBaseline::new(1);
    let pos = pos_10_20();
    let vel = vel_1_2();

    assert!(baseline.has_changed(123, pos, vel, 100));

    baseline.update_entity(123, pos, vel, 100, 1);

    assert!(!baseline.has_changed(123, pos, vel, 100));

    let new_pos = Vec2i16::new(480, 800);
    assert!(baseline.has_changed(123, new_pos, vel, 100));
}

#[test]
fn test_client_baseline_remove_entity() {
    let mut baseline = ClientBaseline::new(1);

    baseline.update_entity(123, pos_10_20(), vel_1_2(), 100, 1);
    assert_eq!(baseline.entity_count(), 1);

    let removed = baseline.remove_entity(123);
    assert!(removed.is_some());
    assert_eq!(baseline.entity_count(), 0);
    assert!(baseline.remove_entity(123).is_none());
}

#[test]
fn test_client_baseline_update_ack() {
    let mut baseline = ClientBaseline::new(1);

    baseline.update_ack(10);
    assert_eq!(baseline.last_acked_tick, 10);

    baseline.update_ack(15);
    assert_eq!(baseline.last_acked_tick, 15);

    baseline.update_ack(12);
    assert_eq!(baseline.last_acked_tick, 15);
}

#[test]
fn test_client_baseline_cleanup() {
    let mut baseline = ClientBaseline::new(1);
    let pos = pos_10_20();
    let vel = vel_1_2();

    baseline.update_entity(1, pos, vel, 100, 1);
    baseline.update_entity(2, pos, vel, 100, 5);
    baseline.update_entity(3, pos, vel, 100, 10);

    assert_eq!(baseline.entity_count(), 3);

    baseline.cleanup_old_entities(15, 5);

    assert_eq!(baseline.entity_count(), 1);
    assert!(baseline.get_entity(3).is_some());
    assert!(baseline.get_entity(1).is_none());
    assert!(baseline.get_entity(2).is_none());
}

#[test]
fn test_interest_set_creation() {
    let set = InterestSet::new();

    assert!(set.entities.is_empty());
    assert!(set.previous_entities.is_empty());
}

#[test]
fn test_interest_set_update() {
    let mut set = InterestSet::new();
    let mut new_entities = HashSet::new();
    new_entities.insert(1);
    new_entities.insert(2);

    set.update(new_entities.clone());

    assert_eq!(set.entities, new_entities);
    assert!(set.previous_entities.is_empty());
}

#[test]
fn test_interest_spawns_and_despawns() {
    let mut set = InterestSet::new();

    let mut initial = HashSet::new();
    initial.insert(1);
    initial.insert(2);
    set.update(initial);

    let mut updated = HashSet::new();
    updated.insert(2);
    updated.insert(3);
    set.update(updated);

    let spawns = set.get_spawns();
    let despawns = set.get_despawns();

    assert_eq!(spawns, vec![3]);
    assert_eq!(despawns, vec![1]);
    assert!(set.contains(2));
    assert!(!set.contains(1));
}

#[test]
fn test_replication_priority() {
    // Distances 0, 500, 100, 500 and 50 units fall in these bands.
    let player_kind = EntityKind::Player { player_id: 0 };
    assert_eq!(
        get_entity_priority(&player_kind, DistanceBand::Near),
        ReplicationPriority::Critical
    );

    let boss_kind = EntityKind::Enemy {
        enemy_type: 1,
        boss_type: Some(1),
    };
    assert_eq!(
        get_entity_priority(&boss_kind, DistanceBand::Far),
        ReplicationPriority::Critical
    );

    let projectile_close = EntityKind::Projectile;
    assert_eq!(
        get_entity_priority(&projectile_close, DistanceBand::Near),
        ReplicationPriority::High
    );

    let projectile_far = EntityKind::Projectile;
    assert_eq!(
        get_entity_priority(&projectile_far, DistanceBand::Far),
        ReplicationPriority::Medium
    );

    let pickup = EntityKind::XpGem { value: 100 };
    assert_eq!(
        get_entity_priority(&pickup, DistanceBand::Near),
        ReplicationPriority::Low
    );
}

#[test]
fn priority_of_enemies_and_pets_by_band() {
    let enemy = EntityKind::Enemy { enemy_type: 2, boss_type: None };
    assert_eq!(get_entity_priority(&enemy, DistanceBand::Mid), ReplicationPriority::High);
    assert_eq!(get_entity_priority(&enemy, DistanceBand::Far), ReplicationPriority::Medium);
    let pet = EntityKind::Pet { owner_id: 0, pet_type: 1 };
    assert_eq!(get_entity_priority(&pet, DistanceBand::Near), ReplicationPriority::High);
    let projectile = EntityKind::Projectile;
    assert_eq!(get_entity_priority(&projectile, DistanceBand::Mid), ReplicationPriority::Medium);
    let gold = EntityKind::Gold { value: 3 };
    assert_eq!(get_entity_priority(&gold, DistanceBand::Far), ReplicationPriority::Low);
}

fn candidate(net_id: u32, exit: bool, enter: bool) -> InterestCandidate {
    InterestCandidate {
        net_id,
        is_player: false,
        is_boss: false,
        within_boss_range: false,
        within_exit_radius: exit,
        within_enter_radius: enter,
    }
}

#[test]
fn test_hysteresis() {
    // An entity between the exit and the enter radius keeps its state:
    // it is not admitted while new, and not dropped once replicated.
    let between = candidate(7, false, true);
    let first = calculate_interest(&vec![between], None);
    assert!(first.contains(7));

    let on_border = candidate(7, true, false);
    let stays = calculate_interest(&vec![on_border], Some(&first));
    assert!(stays.contains(7));
    let fresh = calculate_interest(&vec![on_border], None);
    assert!(!fresh.contains(7));

    let outside = candidate(7, false, false);
    let gone = calculate_interest(&vec![outside], Some(&stays));
    assert!(!gone.contains(7));
    assert_eq!(gone.get_despawns(), vec![7]);
}

#[test]
fn interest_keeps_players_and_near_bosses() {
    let player = InterestCandidate {
        net_id: 1,
        is_player: true,
        is_boss: false,
        within_boss_range: false,
        within_exit_radius: false,
        within_enter_radius: false,
    };
    let boss_near = InterestCandidate {
        net_id: 2,
        is_player: false,
        is_boss: true,
        within_boss_range: true,
        within_exit_radius: false,
        within_enter_radius: false,
    };
    let boss_far = InterestCandidate {
        net_id: 3,
        is_player: false,
        is_boss: true,
        within_boss_range: false,
        within_exit_radius: false,
        within_enter_radius: false,
    };
    let set = calculate_interest(&vec![player, boss_near, boss_far], None);
    let expected: HashSet<u32> = [1, 2].into_iter().collect();
    assert_eq!(set.entities, expected);
    assert!(set.previous_entities.is_empty());
}
