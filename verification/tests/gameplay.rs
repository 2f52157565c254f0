use roggy::components::collision::CollisionLayer;
use roggy::components::economy::{Experience, Gold};
use roggy::components::enemy::{BossType, EnemyType};
use roggy::components::pet::{PetRole, PetType};
use roggy::formation::hex_spiral_cell;
use roggy::resources::meta_progression::{MetaProgression, PermanentUpgrades, SaveData};

#[test]
fn standard_layers_collide_as_designed() {
    let player = CollisionLayer::player();
    let pet = CollisionLayer::pet();
    let enemy = CollisionLayer::enemy();
    assert!(player.collides_with(enemy));
    assert!(enemy.collides_with(player));
    assert!(pet.collides_with(enemy));
    assert!(!player.collides_with(pet));
    assert!(!pet.collides_with(player));
    assert!(enemy.collides_with(enemy));
    let ghost = CollisionLayer::new(8, 0);
    assert!(!ghost.collides_with(enemy));
    assert!(!enemy.collides_with(ghost));
}

#[test]
fn experience_levels_up_once_and_keeps_the_rest() {
    let mut xp = Experience::default();
    assert_eq!((xp.current, xp.to_next_level, xp.level), (0, 100, 1));
    assert!(!xp.add_xp(60, 110));
    assert_eq!((xp.current, xp.to_next_level, xp.level), (60, 100, 1));
    assert!(xp.add_xp(55, 110));
    assert_eq!((xp.current, xp.to_next_level, xp.level), (15, 110, 2));
    assert!(xp.add_xp(95, 121));
    assert_eq!((xp.current, xp.to_next_level, xp.level), (0, 121, 3));
}

#[test]
fn gold_accumulates() {
    let mut gold = Gold::default();
    gold.add(5);
    gold.add(15);
    assert_eq!(gold.amount, 20);
    assert_eq!(Gold::new(50).amount, 50);
}

#[test]
fn pet_roles_names_and_ids() {
    assert_eq!(PetType::GuardDog.get_role(), PetRole::Melee);
    assert_eq!(PetType::SlimeCompanion.get_role(), PetRole::Melee);
    assert_eq!(PetType::FireSprite.get_role(), PetRole::Ranged);
    assert_eq!(PetType::CrowScout.get_role(), PetRole::Ranged);
    assert_eq!(PetType::XpCollector.get_role(), PetRole::Collector);
    assert_eq!(PetType::GuardDog.to_string(), "guard_dog");
    assert_eq!(PetType::SlimeCompanion.to_string(), "slime");
    assert_eq!(PetType::XpCollector.to_string(), "xp_dog");
    assert_eq!(PetType::FireSprite.get_name(), "Огненная фея");
}

#[test]
fn enemy_and_boss_rewards() {
    assert_eq!(EnemyType::Bandit.get_gold_reward(), 5);
    assert_eq!(EnemyType::Thief.get_gold_reward(), 8);
    assert_eq!(EnemyType::Brute.get_gold_reward(), 15);
    assert_eq!(BossType::BanditLeader.get_gold_reward(), 50);
    assert_eq!(BossType::ThiefKing.get_gold_reward(), 100);
    assert_eq!(BossType::BruteChieftain.get_gold_reward(), 200);
    assert_eq!(BossType::ThiefKing.get_name(), "Король Воров");
}

#[test]
fn upgrades_give_starting_values() {
    let mut up = PermanentUpgrades::default();
    assert_eq!(up.get_starting_level(), 1);
    assert_eq!(up.get_starting_gold(), 0);
    assert_eq!(up.get_total_pet_slots(), 1);
    up.starting_xp_level = 2;
    up.starting_gold_level = 3;
    up.pet_slots = 2;
    assert_eq!(up.get_starting_level(), 3);
    assert_eq!(up.get_starting_gold(), 150);
    assert_eq!(up.get_total_pet_slots(), 3);
}

#[test]
fn save_data_defaults_and_gold_bank() {
    let mut save = SaveData::default();
    assert_eq!(save.version, "0.1.0");
    assert_eq!(save.unlocked_pets, vec!["guard_dog".to_string(), "fire_sprite".to_string()]);
    save.add_gold(40);
    assert_eq!(save.total_gold, 40);
    assert_eq!(save.statistics.total_gold_earned, 40);
    assert!(!save.spend_gold(41));
    assert_eq!(save.total_gold, 40);
    assert!(save.spend_gold(40));
    assert_eq!(save.total_gold, 0);
    assert_eq!(save.statistics.total_gold_earned, 40);
}

#[test]
fn unlocks_happen_once() {
    let mut save = SaveData::default();
    assert!(!save.is_pet_unlocked("slime"));
    save.unlock_pet("slime");
    save.unlock_pet("slime");
    save.unlock_pet("guard_dog");
    assert!(save.is_pet_unlocked("slime"));
    assert_eq!(save.unlocked_pets.len(), 3);
    save.unlock_achievement("first_blood");
    save.unlock_achievement("first_blood");
    assert_eq!(save.achievements, vec!["first_blood".to_string()]);
}

#[test]
fn save_flag_clears_only_on_success() {
    let mut meta = MetaProgression::new(SaveData::default());
    assert!(!meta.should_save);
    meta.mark_dirty();
    meta.save_completed(false);
    assert!(meta.should_save);
    meta.save_completed(true);
    assert!(!meta.should_save);
}

#[test]
fn hex_spiral_first_rings() {
    assert_eq!(hex_spiral_cell(0), (0, 0));
    let ring1: Vec<(i32, i32)> = (1..7).map(hex_spiral_cell).collect();
    assert_eq!(ring1, vec![(1, 0), (1, -1), (0, -1), (-1, 0), (-1, 1), (0, 1)]);
    assert_eq!(hex_spiral_cell(7), (2, 0));
    assert_eq!(hex_spiral_cell(8), (2, -1));
    assert_eq!(hex_spiral_cell(9), (2, -2));
    assert_eq!(hex_spiral_cell(18), (1, 1));
}

#[test]
fn hex_spiral_slots_are_distinct_and_on_their_ring() {
    let cells: Vec<(i32, i32)> = (0..200).map(hex_spiral_cell).collect();
    for i in 0..cells.len() {
        for j in (i + 1)..cells.len() {
            assert_ne!(cells[i], cells[j]);
        }
    }
    // Index 37 starts ring 4.
    let (q, r) = hex_spiral_cell(37);
    let s = -q - r;
    assert_eq!(q.abs().max(r.abs()).max(s.abs()), 4);
}

use roggy::components::enemy::BossType as Boss;
use roggy::spawning::{
    check_boss_spawn, choose_enemy_type, enemies_per_spawn, enemy_type_for_roll, spawn_count,
    BossSpawnFlags,
};

#[test]
fn bosses_arrive_once_at_their_minutes() {
    let mut flags = BossSpawnFlags::default();
    assert!(check_boss_spawn(299, &mut flags).is_empty());
    assert_eq!(check_boss_spawn(300, &mut flags), vec![Boss::BanditLeader]);
    assert!(check_boss_spawn(400, &mut flags).is_empty());
    assert_eq!(check_boss_spawn(950, &mut flags), vec![Boss::ThiefKing, Boss::BruteChieftain]);
    assert!(check_boss_spawn(2000, &mut flags).is_empty());
    assert!(flags.boss_5min_spawned && flags.boss_10min_spawned && flags.boss_15min_spawned);
}

#[test]
fn enemy_type_thresholds() {
    assert_eq!(enemy_type_for_roll(59, 0), EnemyType::Bandit);
    assert_eq!(enemy_type_for_roll(60, 29), EnemyType::Thief);
    assert_eq!(enemy_type_for_roll(60, 30), EnemyType::Bandit);
    assert_eq!(enemy_type_for_roll(120, 19), EnemyType::Brute);
    assert_eq!(enemy_type_for_roll(120, 49), EnemyType::Thief);
    assert_eq!(enemy_type_for_roll(239, 50), EnemyType::Bandit);
    assert_eq!(enemy_type_for_roll(240, 29), EnemyType::Brute);
    assert_eq!(enemy_type_for_roll(240, 59), EnemyType::Thief);
    assert_eq!(enemy_type_for_roll(240, 60), EnemyType::Bandit);
    for _ in 0..20 {
        assert_eq!(choose_enemy_type(10), EnemyType::Bandit);
    }
    let late: Vec<EnemyType> = (0..200).map(|_| choose_enemy_type(500)).collect();
    assert!(late.contains(&EnemyType::Brute));
}

#[test]
fn wave_size_and_free_slots() {
    assert_eq!(enemies_per_spawn(0), 1);
    assert_eq!(enemies_per_spawn(59), 1);
    assert_eq!(enemies_per_spawn(125), 3);
    assert_eq!(spawn_count(3, 10, 50), 3);
    assert_eq!(spawn_count(3, 48, 50), 2);
    assert_eq!(spawn_count(3, 50, 50), 0);
    assert_eq!(spawn_count(3, 60, 50), 0);
}
