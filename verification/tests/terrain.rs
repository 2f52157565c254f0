use roggy::terrain::{chunk_of_tile, contains_chunk, div_floor, plan_chunk_updates, tile_hash};

#[test]
fn div_floor_rounds_down() {
    assert_eq!(div_floor(7, 2), 3);
    assert_eq!(div_floor(-7, 2), -4);
    assert_eq!(div_floor(7, -2), -4);
    assert_eq!(div_floor(-7, -2), 3);
    assert_eq!(div_floor(-8, 2), -4);
    assert_eq!(div_floor(0, 5), 0);
    assert_eq!(div_floor(-1, 16), -1);
    assert_eq!(div_floor(i32::MIN, 2), i32::MIN / 2);
    assert_eq!(div_floor(i32::MIN, -2), 1 << 30);
    assert_eq!(div_floor(i32::MAX, -1), -i32::MAX);
}

#[test]
fn chunk_of_tile_uses_floor() {
    assert_eq!(chunk_of_tile(0, 15, 16), (0, 0));
    assert_eq!(chunk_of_tile(16, -1, 16), (1, -1));
    assert_eq!(chunk_of_tile(-16, -17, 16), (-1, -2));
}

fn hash_reference(x: i32, y: i32, seed: u32) -> u32 {
    let mut h = seed;
    h ^= (x as u32).wrapping_mul(0x27d4_eb2d);
    h ^= (y as u32).wrapping_mul(0x1656_67b1);
    h ^= h >> 15;
    h = h.wrapping_mul(0x85eb_ca6b);
    h ^= h >> 13;
    h ^= h >> 16;
    h
}

#[test]
fn tile_hash_values() {
    assert_eq!(tile_hash(0, 0, 0), 0);
    assert_eq!(tile_hash(1, 0, 0), hash_reference(1, 0, 0));
    assert_eq!(tile_hash(-5, 12, 12345), hash_reference(-5, 12, 12345));
    assert_ne!(tile_hash(1, 2, 3), tile_hash(2, 1, 3));
    assert_ne!(tile_hash(1, 2, 3), tile_hash(1, 2, 4));
}

#[test]
fn chunk_plan_builds_the_view_square_once() {
    let plan = plan_chunk_updates((0, 0), 1, &vec![]);
    assert_eq!(plan.spawn.len(), 9);
    assert!(plan.despawn.is_empty());
    for x in -1..=1 {
        for y in -1..=1 {
            assert!(contains_chunk(&plan.spawn, (x, y)));
        }
    }
}

#[test]
fn chunk_plan_after_moving() {
    let loaded = vec![(0, 0), (5, 5), (1, 1), (-1, 0), (9, -9)];
    let plan = plan_chunk_updates((1, 0), 1, &loaded);
    assert_eq!(plan.despawn, vec![(5, 5), (-1, 0), (9, -9)]);
    assert_eq!(plan.spawn.len(), 7);
    assert!(!contains_chunk(&plan.spawn, (0, 0)));
    assert!(!contains_chunk(&plan.spawn, (1, 1)));
    assert!(contains_chunk(&plan.spawn, (2, -1)));
}

#[test]
fn chunk_plan_with_negative_view_distance() {
    let plan = plan_chunk_updates((3, 3), -1, &vec![(3, 3)]);
    assert!(plan.spawn.is_empty());
    assert_eq!(plan.despawn, vec![(3, 3)]);
}

#[test]
fn chunk_plan_leaves_exactly_the_view_loaded() {
    let loaded = vec![(0, 0), (5, 5), (1, 1), (-1, 0), (2, 1)];
    let plan = plan_chunk_updates((1, 0), 1, &loaded);
    let mut after: Vec<(i32, i32)> = loaded
        .iter()
        .copied()
        .filter(|c| !contains_chunk(&plan.despawn, *c))
        .chain(plan.spawn.iter().copied())
        .collect();
    after.sort();
    let mut view: Vec<(i32, i32)> = Vec::new();
    for x in 0..=2 {
        for y in -1..=1 {
            view.push((x, y));
        }
    }
    view.sort();
    assert_eq!(after, view);
}
