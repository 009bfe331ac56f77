use terra_lock::entities::{Enemy, EnemyType};
use terra_lock::game::{FrameInput, Game};
use terra_lock::geometry::Point;
use terra_lock::spawn::{
    draw_burst, draw_spawn, enemy_from_draws, enemy_type_from_roll, spawn_count_from_rolls, BurstRolls,
    SpawnDraws,
};

fn resident(x: i32) -> Enemy {
    Enemy {
        position: Point::new(x, 50_000),
        velocity: Point::new(0, 0),
        is_locked: false,
        enemy_type: EnemyType::Straight,
        spawn_time: 0,
        base_speed: 120_000,
        sway: 0,
    }
}

fn rolls(five: u32, four: u32, three: u32, two: u32) -> BurstRolls {
    BurstRolls { five, four, three, two }
}

fn idle_frame(now: u64, delta_time: u32) -> FrameInput {
    FrameInput { pointer: Point::new(400_000, 500_000), button_down: false, delta_time, now }
}

#[test]
fn kinds_by_number() {
    assert_eq!(enemy_type_from_roll(0), EnemyType::Straight);
    assert_eq!(enemy_type_from_roll(1), EnemyType::Zigzag);
    assert_eq!(enemy_type_from_roll(2), EnemyType::Arc);
    assert_eq!(enemy_type_from_roll(3), EnemyType::Homing);
    assert_eq!(enemy_type_from_roll(99), EnemyType::Homing);
}

#[test]
fn burst_of_five_needs_the_highest_difficulty() {
    assert_eq!(spawn_count_from_rolls(5, rolls(4, 99, 99, 99)), 5);
    assert_eq!(spawn_count_from_rolls(5, rolls(5, 99, 99, 99)), 1);
    assert_eq!(spawn_count_from_rolls(4, rolls(4, 99, 99, 99)), 1);
}

#[test]
fn burst_of_four_and_three() {
    assert_eq!(spawn_count_from_rolls(4, rolls(0, 9, 99, 99)), 4);
    assert_eq!(spawn_count_from_rolls(4, rolls(0, 10, 99, 99)), 1);
    assert_eq!(spawn_count_from_rolls(3, rolls(0, 0, 14, 99)), 3);
    assert_eq!(spawn_count_from_rolls(3, rolls(0, 0, 15, 99)), 1);
    assert_eq!(spawn_count_from_rolls(2, rolls(0, 0, 0, 99)), 1);
}

#[test]
fn burst_of_two_or_one() {
    assert_eq!(spawn_count_from_rolls(3, rolls(99, 99, 99, 29)), 2);
    assert_eq!(spawn_count_from_rolls(3, rolls(99, 99, 99, 30)), 1);
    assert_eq!(spawn_count_from_rolls(0, rolls(0, 0, 0, 0)), 2);
}

#[test]
fn enemy_on_its_own_appears_where_the_free_draw_says() {
    let d = SpawnDraws { cluster: 40, donor: 0, offset: 150_000, free_x: 123_456, kind: 1 };
    let e = enemy_from_draws(&vec![resident(700_000)], d, 100, 5_000_000);
    assert_eq!(
        e,
        Enemy {
            position: Point::new(123_456, -10_000),
            velocity: Point::new(0, 120_000),
            is_locked: false,
            enemy_type: EnemyType::Zigzag,
            spawn_time: 5_000_000,
            base_speed: 120_000,
            sway: 0,
        }
    );
}

#[test]
fn enemy_in_a_cluster_appears_near_its_donor() {
    let residents = vec![resident(100_000), resident(700_000)];
    let d = SpawnDraws { cluster: 39, donor: 1, offset: 150_000, free_x: 123_456, kind: 2 };
    let e = enemy_from_draws(&residents, d, 150, 0);
    assert_eq!(e.position, Point::new(750_000, -10_000));
    assert_eq!(e.enemy_type, EnemyType::Arc);
    assert_eq!(e.sway, 1000);
    assert_eq!(e.base_speed, 180_000);
    assert_eq!(e.velocity, Point::new(0, 180_000));
    let d = SpawnDraws { cluster: 0, donor: 0, offset: 0, free_x: 123_456, kind: 3 };
    let e = enemy_from_draws(&residents, d, 100, 0);
    assert_eq!(e.position, Point::new(10_000, -10_000));
    assert_eq!(e.enemy_type, EnemyType::Homing);
}

#[test]
fn enemy_in_a_cluster_stays_inside_the_playfield() {
    let residents = vec![resident(780_000), resident(15_000)];
    let d = SpawnDraws { cluster: 10, donor: 0, offset: 199_999, free_x: 20_000, kind: 0 };
    assert_eq!(enemy_from_draws(&residents, d, 100, 0).position.x, 790_000);
    let d = SpawnDraws { cluster: 10, donor: 1, offset: 0, free_x: 20_000, kind: 0 };
    assert_eq!(enemy_from_draws(&residents, d, 100, 0).position.x, 10_000);
}

#[test]
fn enemy_cannot_cluster_in_an_empty_world() {
    let d = SpawnDraws { cluster: 0, donor: 0, offset: 100_000, free_x: 555_000, kind: 0 };
    assert_eq!(enemy_from_draws(&Vec::new(), d, 100, 0).position.x, 555_000);
}

#[test]
fn draws_stay_in_their_ranges_and_vary() {
    let mut xs = Vec::new();
    let mut kinds = [false; 4];
    for crowd in 0..300usize {
        let d = draw_spawn(crowd);
        assert!(d.cluster < 100);
        assert!(crowd == 0 || (d.donor as usize) < crowd);
        assert!(d.offset < 200_000);
        assert!(d.free_x >= 10_000 && d.free_x < 790_000);
        assert!(d.kind < 4);
        kinds[d.kind as usize] = true;
        if !xs.contains(&d.free_x) {
            xs.push(d.free_x);
        }
    }
    assert!(xs.len() > 100);
    assert_eq!(kinds, [true; 4]);
}

#[test]
fn burst_rolls_are_percentages_and_vary() {
    let mut seen = Vec::new();
    for _ in 0..200 {
        let r = draw_burst();
        assert!(r.five < 100 && r.four < 100 && r.three < 100 && r.two < 100);
        if !seen.contains(&r.two) {
            seen.push(r.two);
        }
    }
    assert!(seen.len() > 20);
}

#[test]
fn spawned_enemy_joins_the_world_unlocked() {
    let mut game = Game::new(0);
    game.start_game(0);
    game.enemies.push(resident(400_000));
    game.enemies[0].is_locked = true;
    game.lock_system.locked_enemies = vec![0];
    for _ in 0..50 {
        game.spawn_enemy_with_difficulty(130, 7_000_000);
    }
    assert_eq!(game.enemies.len(), 51);
    assert_eq!(game.lock_system.locked_enemies, vec![0usize]);
    for e in &game.enemies[1..] {
        assert_eq!(e.position.y, -10_000);
        assert!(e.position.x >= 10_000 && e.position.x <= 790_000);
        assert_eq!(e.velocity, Point::new(0, 156_000));
        assert_eq!(e.base_speed, 156_000);
        assert_eq!(e.spawn_time, 7_000_000);
        assert!(!e.is_locked);
        assert_eq!(e.sway, if e.enemy_type == EnemyType::Arc { 1000 } else { 0 });
    }
}

#[test]
fn spawner_waits_for_its_interval() {
    let mut game = Game::new(0);
    game.start_game(0);
    game.run_spawner(idle_frame(1_000_000, 1_000_000));
    assert!(game.enemies.is_empty());
    assert_eq!(game.enemy_spawn_timer, 1_000_000);
    game.run_spawner(idle_frame(1_499_999, 499_999));
    assert!(game.enemies.is_empty());
    assert_eq!(game.enemy_spawn_timer, 1_499_999);
    game.run_spawner(idle_frame(1_500_000, 1));
    assert!(!game.enemies.is_empty());
    assert!(game.enemies.len() <= 3);
    assert_eq!(game.enemy_spawn_timer, 0);
    for e in &game.enemies {
        assert_eq!(e.base_speed, 120_000);
        assert_eq!(e.spawn_time, 1_500_000);
    }
}

#[test]
fn spawner_speeds_up_with_the_difficulty() {
    let mut game = Game::new(0);
    game.start_game(0);
    game.enemy_spawn_timer = 700_000;
    game.run_spawner(idle_frame(240_000_000, 99_999));
    assert!(game.enemies.is_empty());
    game.run_spawner(idle_frame(240_000_000, 1));
    assert!(!game.enemies.is_empty());
    assert!(game.enemies.len() <= 5);
    for e in &game.enemies {
        assert_eq!(e.base_speed, 180_000);
    }
}
