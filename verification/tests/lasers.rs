use terra_lock::entities::{Enemy, EnemyType, LockOnLaser, NormalLaser};
use terra_lock::geometry::Point;
use terra_lock::lasers::{
    advance_homing_lasers, advance_normal_lasers, calculate_bezier_point, calculate_homing_position,
    count_arrived, drop_arrived, update_homing_laser_targets,
};

fn enemy_at(x: i32, y: i32) -> Enemy {
    Enemy {
        position: Point::new(x, y),
        velocity: Point::new(0, 0),
        is_locked: false,
        enemy_type: EnemyType::Straight,
        spawn_time: 0,
        base_speed: 120_000,
        sway: 0,
    }
}

#[test]
fn fired_laser_flies_up_for_three_seconds() {
    let l = NormalLaser::fire(Point::new(400_000, 500_000));
    assert_eq!(l.position, Point::new(400_000, 500_000));
    assert_eq!(l.velocity, Point::new(0, -350_000));
    assert_eq!(l.lifetime, 3_000_000);
    assert!(l.is_in_flight());
}

#[test]
fn normal_laser_step_moves_and_ages() {
    let mut l = NormalLaser::fire(Point::new(400_000, 500_000));
    l.step(1_000_000);
    assert_eq!(l.position, Point::new(400_000, 150_000));
    assert_eq!(l.lifetime, 2_000_000);
    l.step(2_500_000);
    assert_eq!(l.lifetime, 0);
    assert!(!l.is_in_flight());
}

#[test]
fn normal_laser_leaves_through_the_top() {
    let at_margin = NormalLaser { position: Point::new(0, -50_000), velocity: Point::new(0, 0), lifetime: 5 };
    let inside = NormalLaser { position: Point::new(0, -49_999), velocity: Point::new(0, 0), lifetime: 5 };
    assert!(!at_margin.is_in_flight());
    assert!(inside.is_in_flight());
}

#[test]
fn advance_normal_lasers_drops_the_spent_and_keeps_the_order() {
    let mut lasers = vec![
        NormalLaser { position: Point::new(1, 100_000), velocity: Point::new(0, -350_000), lifetime: 1_000_000 },
        NormalLaser { position: Point::new(2, 100_000), velocity: Point::new(0, -350_000), lifetime: 100_000 },
        NormalLaser { position: Point::new(3, -40_000), velocity: Point::new(0, -350_000), lifetime: 1_000_000 },
        NormalLaser { position: Point::new(4, 300_000), velocity: Point::new(0, -350_000), lifetime: 100_001 },
    ];
    advance_normal_lasers(&mut lasers, 100_000);
    assert_eq!(lasers.len(), 2);
    assert_eq!(lasers[0].position, Point::new(1, 65_000));
    assert_eq!(lasers[0].lifetime, 900_000);
    assert_eq!(lasers[1].position, Point::new(4, 265_000));
    assert_eq!(lasers[1].lifetime, 1);
}

#[test]
fn launched_laser_starts_slow() {
    let l = LockOnLaser::launch(Point::new(1, 2), Point::new(3, 4), 5, 6);
    assert_eq!(l.start_pos, Point::new(1, 2));
    assert_eq!(l.target_pos, Point::new(3, 4));
    assert_eq!(l.target_enemy_id, Some(5));
    assert_eq!(l.progress, 0);
    assert_eq!(l.initial_speed, 140_000);
    assert_eq!(l.current_speed, 140_000);
    assert_eq!(l.acceleration, 560_000);
    assert_eq!(l.launch_time, 6);
    assert!(!l.has_arrived());
}

#[test]
fn homing_laser_accelerates_up_to_its_limit() {
    let enemies = vec![enemy_at(300_000, 400_000)];
    let mut l = LockOnLaser::launch(Point::new(0, 0), Point::new(300_000, 400_000), 0, 1_000_000);
    l.step(&enemies, 1_000_000, 0);
    assert_eq!(l.current_speed, 140_000);
    l.step(&enemies, 1_500_000, 0);
    assert_eq!(l.current_speed, 420_000);
    l.step(&enemies, 1_750_000, 0);
    assert_eq!(l.current_speed, 560_000);
    l.step(&enemies, 9_000_000, 0);
    assert_eq!(l.current_speed, 560_000);
    assert_eq!(l.progress, 0);
}

#[test]
fn homing_laser_progress_is_distance_covered_over_distance() {
    let enemies = vec![enemy_at(300_000, 400_000)];
    let mut l = LockOnLaser::launch(Point::new(0, 0), Point::new(300_000, 400_000), 0, 1_000_000);
    l.step(&enemies, 1_000_000, 100_000);
    // 140 px/s for 0.1 s over 500 px
    assert_eq!(l.progress, 28_000);
    l.step(&enemies, 1_100_000, 100_000);
    // 196 px/s for 0.1 s over 500 px
    assert_eq!(l.current_speed, 196_000);
    assert_eq!(l.progress, 67_200);
}

#[test]
fn homing_laser_progress_stops_at_one() {
    let enemies = vec![enemy_at(300_000, 400_000)];
    let mut l = LockOnLaser::launch(Point::new(0, 0), Point::new(300_000, 400_000), 0, 0);
    l.step(&enemies, 10_000_000, 10_000_000);
    assert_eq!(l.progress, 1_000_000);
    assert!(l.has_arrived());
}

#[test]
fn homing_laser_follows_its_enemy() {
    let enemies = vec![enemy_at(1, 1), enemy_at(30_000, 40_000)];
    let mut l = LockOnLaser::launch(Point::new(0, 0), Point::new(9, 9), 1, 0);
    l.step(&enemies, 0, 0);
    assert_eq!(l.target_pos, Point::new(30_000, 40_000));
    assert_eq!(l.target_enemy_id, Some(1));
}

#[test]
fn homing_laser_with_a_stale_reference_keeps_its_aim_and_forgets_the_enemy() {
    let enemies = vec![enemy_at(1, 1)];
    let mut l = LockOnLaser::launch(Point::new(0, 0), Point::new(30_000, 40_000), 1, 0);
    l.step(&enemies, 0, 100_000);
    assert_eq!(l.target_enemy_id, None);
    assert_eq!(l.target_pos, Point::new(30_000, 40_000));
    assert_eq!(l.progress, 280_000);
}

#[test]
fn homing_laser_whose_target_is_its_start_arrives_at_once() {
    let enemies = vec![enemy_at(5_000, 5_000)];
    let mut l = LockOnLaser::launch(Point::new(5_000, 5_000), Point::new(0, 0), 0, 0);
    l.step(&enemies, 0, 16_667);
    assert_eq!(l.progress, 1_000_000);
    assert!(l.has_arrived());
}

#[test]
fn advance_homing_lasers_steps_every_laser() {
    let enemies = vec![enemy_at(0, 500_000)];
    let mut lasers = vec![
        LockOnLaser::launch(Point::new(0, 0), Point::new(0, 500_000), 0, 0),
        LockOnLaser::launch(Point::new(0, 0), Point::new(0, 250_000), 7, 0),
    ];
    advance_homing_lasers(&mut lasers, &enemies, 0, 100_000);
    assert_eq!(lasers[0].progress, 28_000);
    assert_eq!(lasers[1].progress, 56_000);
    assert_eq!(lasers[1].target_enemy_id, None);
}

#[test]
fn retarget_follows_the_enemy_or_forgets_it() {
    let mut lasers = vec![
        LockOnLaser::launch(Point::new(0, 0), Point::new(1, 1), 0, 0),
        LockOnLaser::launch(Point::new(0, 0), Point::new(1, 1), 1, 0),
        LockOnLaser::launch(Point::new(0, 0), Point::new(1, 1), 2, 0),
        LockOnLaser::launch(Point::new(0, 0), Point::new(1, 1), 5, 0),
    ];
    lasers[3].target_enemy_id = None;
    update_homing_laser_targets(&mut lasers, &vec![1usize]);
    assert_eq!(lasers[0].target_enemy_id, Some(0));
    assert_eq!(lasers[1].target_enemy_id, None);
    assert_eq!(lasers[2].target_enemy_id, Some(1));
    assert_eq!(lasers[3].target_enemy_id, None);
    assert_eq!(lasers[1].target_pos, Point::new(1, 1));
}

#[test]
fn count_and_drop_arrived() {
    let mut lasers = vec![
        LockOnLaser::launch(Point::new(0, 0), Point::new(1, 1), 0, 0),
        LockOnLaser::launch(Point::new(0, 0), Point::new(2, 2), 1, 0),
        LockOnLaser::launch(Point::new(0, 0), Point::new(3, 3), 2, 0),
    ];
    lasers[0].progress = 1_000_000;
    lasers[1].progress = 999_999;
    lasers[2].progress = 2_000_000;
    assert_eq!(count_arrived(&lasers), 2);
    drop_arrived(&mut lasers);
    assert_eq!(lasers.len(), 1);
    assert_eq!(lasers[0].target_pos, Point::new(2, 2));
}

#[test]
fn curve_starts_at_the_start_and_ends_at_the_target() {
    let a = Point::new(400_000, 500_000);
    let b = Point::new(123_456, 78_901);
    assert_eq!(calculate_bezier_point(a, b, 0), a);
    assert_eq!(calculate_bezier_point(a, b, 1_000_000), b);
}

#[test]
fn curve_bends_upward_in_the_middle() {
    let a = Point::new(0, 0);
    let b = Point::new(200_000, 0);
    assert_eq!(calculate_bezier_point(a, b, 500_000), Point::new(100_000, -50_000));
    assert_eq!(calculate_bezier_point(a, b, 250_000), Point::new(50_000, -37_500));
}

#[test]
fn homing_position_is_the_curve_at_the_progress() {
    let mut l = LockOnLaser::launch(Point::new(0, 0), Point::new(200_000, 0), 0, 0);
    l.progress = 500_000;
    assert_eq!(calculate_homing_position(&l), Point::new(100_000, -50_000));
}
