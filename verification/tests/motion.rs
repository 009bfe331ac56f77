use terra_lock::entities::{Enemy, EnemyType};
use terra_lock::geometry::Point;
use terra_lock::motion::{apply_sways, chase_velocity, initial_sway, step_enemies};

fn enemy_for_motion(kind: EnemyType, x: i32, y: i32, sway: i32) -> Enemy {
    Enemy {
        position: Point::new(x, y),
        velocity: Point::new(0, 0),
        is_locked: false,
        enemy_type: kind,
        spawn_time: 1_000_000,
        base_speed: 120_000,
        sway,
    }
}

#[test]
fn straight_enemy_falls_at_base_speed() {
    let e = enemy_for_motion(EnemyType::Straight, 200_000, 100_000, 777);
    assert_eq!(e.velocity_toward(Point::new(0, 0)), Point::new(0, 120_000));
}

#[test]
fn zigzag_enemy_sways_up_to_eighty_pixels_per_second() {
    let p = Point::new(0, 0);
    assert_eq!(enemy_for_motion(EnemyType::Zigzag, 0, 0, 1000).velocity_toward(p), Point::new(80_000, 120_000));
    assert_eq!(enemy_for_motion(EnemyType::Zigzag, 0, 0, -1000).velocity_toward(p), Point::new(-80_000, 120_000));
    assert_eq!(enemy_for_motion(EnemyType::Zigzag, 0, 0, 500).velocity_toward(p), Point::new(40_000, 120_000));
    assert_eq!(enemy_for_motion(EnemyType::Zigzag, 0, 0, 0).velocity_toward(p), Point::new(0, 120_000));
}

#[test]
fn arc_enemy_sways_up_to_sixty_and_falls_at_eight_tenths() {
    let p = Point::new(0, 0);
    assert_eq!(enemy_for_motion(EnemyType::Arc, 0, 0, 1000).velocity_toward(p), Point::new(60_000, 96_000));
    assert_eq!(enemy_for_motion(EnemyType::Arc, 0, 0, -250).velocity_toward(p), Point::new(-15_000, 96_000));
}

#[test]
fn a_sample_beyond_one_counts_as_one() {
    let p = Point::new(0, 0);
    assert_eq!(enemy_for_motion(EnemyType::Zigzag, 0, 0, 5000).velocity_toward(p), Point::new(80_000, 120_000));
    assert_eq!(enemy_for_motion(EnemyType::Arc, 0, 0, i32::MIN).velocity_toward(p), Point::new(-60_000, 96_000));
}

#[test]
fn homing_enemy_heads_for_the_player_at_seven_tenths() {
    let e = enemy_for_motion(EnemyType::Homing, 100_000, 100_000, 0);
    let v = e.velocity_toward(Point::new(400_000, 500_000));
    assert_eq!(v, Point::new(50_400, 67_200));
    let v = e.velocity_toward(Point::new(100_000, 0));
    assert_eq!(v, Point::new(0, -84_000));
}

#[test]
fn homing_enemy_on_the_player_stands_still() {
    let e = enemy_for_motion(EnemyType::Homing, 100_000, 100_000, 0);
    assert_eq!(e.velocity_toward(Point::new(100_000, 100_000)), Point::new(0, 0));
}

#[test]
fn chase_velocity_rounds_toward_zero() {
    // distance is 223606 (rounded down), so 100000 * 1000 / 223606 = 447.2
    let v = chase_velocity(Point::new(0, 0), Point::new(100_000, -200_000), 1000);
    assert_eq!(v, Point::new(447, -894));
}

#[test]
fn step_sets_velocity_and_moves() {
    let mut e = enemy_for_motion(EnemyType::Zigzag, 200_000, 100_000, 500);
    e.step(Point::new(0, 0), 500_000);
    assert_eq!(e.velocity, Point::new(40_000, 120_000));
    assert_eq!(e.position, Point::new(220_000, 160_000));
    assert_eq!(e.sway, 500);
    assert!(!e.is_locked);
}

#[test]
fn step_enemies_moves_each_by_its_kind() {
    let mut enemies = vec![
        enemy_for_motion(EnemyType::Straight, 0, 0, 0),
        enemy_for_motion(EnemyType::Arc, 0, 0, 1000),
    ];
    step_enemies(&mut enemies, Point::new(0, 0), 1_000_000);
    assert_eq!(enemies[0].position, Point::new(0, 120_000));
    assert_eq!(enemies[1].position, Point::new(60_000, 96_000));
}

#[test]
fn phase_is_twice_the_seconds_for_zigzag() {
    let e = enemy_for_motion(EnemyType::Zigzag, 0, 0, 0);
    assert_eq!(e.phase(1_000_000), 0);
    assert_eq!(e.phase(2_000_000), 2_000);
    assert_eq!(e.phase(1_500_499), 1_000);
    assert_eq!(e.phase(0), 0);
}

#[test]
fn phase_is_one_and_a_half_times_the_seconds_for_arc() {
    let e = enemy_for_motion(EnemyType::Arc, 0, 0, 0);
    assert_eq!(e.phase(2_000_000), 1_500);
    assert_eq!(e.phase(3_000_000), 3_000);
    // (2^64 - 1 - 1000000) * 3 / 2000
    assert_eq!(e.phase(u64::MAX), 27_670_116_110_562_827);
}

#[test]
fn phase_of_the_other_kinds_is_zero() {
    assert_eq!(enemy_for_motion(EnemyType::Straight, 0, 0, 0).phase(9_000_000), 0);
    assert_eq!(enemy_for_motion(EnemyType::Homing, 0, 0, 0).phase(9_000_000), 0);
}

#[test]
fn initial_sway_is_the_oscillation_at_phase_zero() {
    assert_eq!(initial_sway(EnemyType::Zigzag), 0);
    assert_eq!(initial_sway(EnemyType::Arc), 1000);
    assert_eq!(initial_sway(EnemyType::Straight), 0);
    assert_eq!(initial_sway(EnemyType::Homing), 0);
}

#[test]
fn apply_sways_hands_out_the_samples_in_order() {
    let mut enemies = vec![
        enemy_for_motion(EnemyType::Zigzag, 0, 0, 1),
        enemy_for_motion(EnemyType::Arc, 0, 0, 2),
        enemy_for_motion(EnemyType::Arc, 0, 0, 3),
    ];
    apply_sways(&mut enemies, &vec![-700, 300]);
    assert_eq!(enemies[0].sway, -700);
    assert_eq!(enemies[1].sway, 300);
    assert_eq!(enemies[2].sway, 3);
    apply_sways(&mut enemies, &vec![10, 20, 30, 40]);
    assert_eq!(enemies[2].sway, 30);
}
