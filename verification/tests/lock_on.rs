use terra_lock::entities::{Enemy, EnemyType};
use terra_lock::geometry::Point;
use terra_lock::lock_on::LockOnSystem;

fn enemy_to_lock(x: i32, y: i32) -> Enemy {
    Enemy {
        position: Point::new(x, y),
        velocity: Point::new(0, 0),
        is_locked: false,
        enemy_type: EnemyType::Straight,
        spawn_time: 0,
        base_speed: 120_000,
        sway: 0,
    }
}

fn system_at(x: i32, y: i32) -> LockOnSystem {
    let mut sys = LockOnSystem::new();
    sys.active = true;
    sys.center = Point::new(x, y);
    sys
}

fn flags_agree(sys: &LockOnSystem, enemies: &Vec<Enemy>) -> bool {
    let list = &sys.locked_enemies;
    (0..list.len()).all(|a| (0..a).all(|b| list[a] != list[b]))
        && list.iter().all(|&i| i < enemies.len())
        && (0..enemies.len()).all(|i| enemies[i].is_locked == sys.locked_enemies.contains(&i))
        && sys.locked_enemies.len() <= sys.max_targets as usize
}

#[test]
fn new_system_is_idle() {
    let sys = LockOnSystem::new();
    assert!(!sys.active);
    assert_eq!(sys.center, Point::new(0, 0));
    assert_eq!(sys.radius, 100_000);
    assert!(sys.locked_enemies.is_empty());
    assert_eq!(sys.max_targets, 6);
}

#[test]
fn enemy_at_the_centre_is_captured_and_pruned_once_it_has_moved_out() {
    let mut sys = system_at(400_000, 300_000);
    let mut enemies = vec![enemy_to_lock(400_000, 300_000)];
    sys.detect_enemies_in_wireframe(&mut enemies);
    assert_eq!(sys.locked_enemies, vec![0usize]);
    assert!(enemies[0].is_locked);
    assert!(flags_agree(&sys, &enemies));

    enemies[0].position = Point::new(550_000, 300_000);
    sys.remove_out_of_range_targets(&mut enemies);
    assert!(sys.locked_enemies.is_empty());
    assert!(!enemies[0].is_locked);
    assert!(flags_agree(&sys, &enemies));
    assert!(sys.active);
}

#[test]
fn rescanning_after_the_enemy_moved_out_captures_nothing() {
    let mut sys = system_at(400_000, 300_000);
    let mut enemies = vec![enemy_to_lock(400_000, 300_000)];
    sys.detect_enemies_in_wireframe(&mut enemies);
    enemies[0].position = Point::new(550_000, 300_000);
    sys.detect_enemies_in_wireframe(&mut enemies);
    assert!(sys.locked_enemies.is_empty());
    assert!(!enemies[0].is_locked);
}

#[test]
fn scan_captures_the_rim_and_nothing_beyond() {
    let mut sys = system_at(0, 0);
    let mut enemies = vec![
        enemy_to_lock(100_001, 0),
        enemy_to_lock(100_000, 0),
        enemy_to_lock(60_000, 80_000),
        enemy_to_lock(60_001, 80_000),
    ];
    sys.detect_enemies_in_wireframe(&mut enemies);
    assert_eq!(sys.locked_enemies, vec![1usize, 2]);
    assert!(flags_agree(&sys, &enemies));
}

#[test]
fn scan_stops_at_six_targets_lowest_positions_first() {
    let mut sys = system_at(0, 0);
    let mut enemies = Vec::new();
    for i in 0..9 {
        enemies.push(enemy_to_lock(if i == 2 { 500_000 } else { i * 1_000 }, 0));
    }
    sys.detect_enemies_in_wireframe(&mut enemies);
    assert_eq!(sys.locked_enemies, vec![0usize, 1, 3, 4, 5, 6]);
    assert!(!enemies[7].is_locked);
    assert!(!enemies[8].is_locked);
    assert!(flags_agree(&sys, &enemies));
}

#[test]
fn scan_clears_flags_left_over_from_before() {
    let mut sys = system_at(0, 0);
    sys.locked_enemies = vec![1];
    let mut enemies = vec![enemy_to_lock(0, 0), enemy_to_lock(900_000, 0)];
    enemies[1].is_locked = true;
    sys.detect_enemies_in_wireframe(&mut enemies);
    assert_eq!(sys.locked_enemies, vec![0usize]);
    assert!(enemies[0].is_locked);
    assert!(!enemies[1].is_locked);
}

#[test]
fn scanning_twice_gives_the_same_list() {
    let mut sys = system_at(100_000, 100_000);
    let mut enemies = vec![
        enemy_to_lock(100_000, 150_000),
        enemy_to_lock(700_000, 100_000),
        enemy_to_lock(50_000, 100_000),
        enemy_to_lock(100_000, 199_000),
    ];
    sys.detect_enemies_in_wireframe(&mut enemies);
    let first = sys.locked_enemies.clone();
    let flags: Vec<bool> = enemies.iter().map(|e| e.is_locked).collect();
    sys.detect_enemies_in_wireframe(&mut enemies);
    assert_eq!(sys.locked_enemies, first);
    assert_eq!(first, vec![0usize, 2, 3]);
    assert_eq!(enemies.iter().map(|e| e.is_locked).collect::<Vec<bool>>(), flags);
}

#[test]
fn scan_with_room_for_no_target_captures_nothing() {
    let mut sys = system_at(0, 0);
    sys.max_targets = 0;
    let mut enemies = vec![enemy_to_lock(0, 0)];
    sys.detect_enemies_in_wireframe(&mut enemies);
    assert!(sys.locked_enemies.is_empty());
    assert!(!enemies[0].is_locked);
}

#[test]
fn prune_keeps_what_is_still_inside() {
    let mut sys = system_at(0, 0);
    let mut enemies = vec![enemy_to_lock(10_000, 0), enemy_to_lock(20_000, 0), enemy_to_lock(30_000, 0)];
    sys.detect_enemies_in_wireframe(&mut enemies);
    enemies[1].position = Point::new(0, 100_001);
    sys.remove_out_of_range_targets(&mut enemies);
    assert_eq!(sys.locked_enemies, vec![0usize, 2]);
    assert!(enemies[0].is_locked);
    assert!(!enemies[1].is_locked);
    assert!(enemies[2].is_locked);
    assert!(flags_agree(&sys, &enemies));
}

#[test]
fn prune_drops_a_stale_position() {
    let mut sys = system_at(0, 0);
    sys.locked_enemies = vec![0, 5];
    let mut enemies = vec![enemy_to_lock(500_000, 0)];
    enemies[0].is_locked = true;
    sys.remove_out_of_range_targets(&mut enemies);
    assert!(sys.locked_enemies.is_empty());
    assert!(!enemies[0].is_locked);
}

#[test]
fn prune_drops_stale_positions_and_keeps_what_is_inside() {
    let mut sys = system_at(0, 0);
    sys.locked_enemies = vec![7, 1, 2, 0, 3];
    let mut enemies = vec![enemy_to_lock(10_000, 0), enemy_to_lock(0, 20_000), enemy_to_lock(0, 300_000)];
    for e in enemies.iter_mut() {
        e.is_locked = true;
    }
    sys.remove_out_of_range_targets(&mut enemies);
    assert_eq!(sys.locked_enemies, vec![1usize, 0]);
    assert!(sys.locked_enemies.iter().all(|&i| i < enemies.len()));
    assert!(enemies[0].is_locked && enemies[1].is_locked && !enemies[2].is_locked);
    assert!(flags_agree(&sys, &enemies));
}

#[test]
fn clear_all_locks_releases_everything_and_closes_the_circle() {
    let mut sys = system_at(0, 0);
    let mut enemies = vec![enemy_to_lock(10_000, 0), enemy_to_lock(500_000, 0), enemy_to_lock(30_000, 0)];
    sys.detect_enemies_in_wireframe(&mut enemies);
    assert_eq!(sys.locked_enemies, vec![0usize, 2]);
    sys.clear_all_locks(&mut enemies);
    assert!(sys.locked_enemies.is_empty());
    assert!(!sys.active);
    assert!(enemies.iter().all(|e| !e.is_locked));
    assert!(flags_agree(&sys, &enemies));
    assert_eq!(sys.center, Point::new(0, 0));
    assert_eq!(sys.radius, 100_000);
}

#[test]
fn clear_all_locks_passes_over_a_stale_position() {
    let mut sys = system_at(0, 0);
    sys.locked_enemies = vec![3, 0];
    let mut enemies = vec![enemy_to_lock(0, 0), enemy_to_lock(1, 1)];
    enemies[0].is_locked = true;
    enemies[1].is_locked = true;
    sys.clear_all_locks(&mut enemies);
    assert!(sys.locked_enemies.is_empty());
    assert!(!enemies[0].is_locked);
    assert!(enemies[1].is_locked);
}

#[test]
fn remove_destroyed_enemies_drops_and_shifts() {
    let mut sys = system_at(0, 0);
    sys.locked_enemies = vec![1, 3, 4, 6];
    sys.remove_destroyed_enemies(&vec![0usize, 3]);
    assert_eq!(sys.locked_enemies, vec![0usize, 2, 4]);
    sys.remove_destroyed_enemies(&Vec::new());
    assert_eq!(sys.locked_enemies, vec![0usize, 2, 4]);
    assert!(sys.active);
}
