use terra_lock::collision::{enemy_touches_player, find_first_hit};
use terra_lock::entities::{Enemy, EnemyType, LockOnLaser, NormalLaser};
use terra_lock::game::{Game, GameState};
use terra_lock::geometry::Point;

fn target_enemy(x: i32, y: i32, tag: u64) -> Enemy {
    Enemy {
        position: Point::new(x, y),
        velocity: Point::new(0, 0),
        is_locked: false,
        enemy_type: EnemyType::Straight,
        spawn_time: tag,
        base_speed: 120_000,
        sway: 0,
    }
}

fn laser_at(x: i32, y: i32) -> NormalLaser {
    NormalLaser { position: Point::new(x, y), velocity: Point::new(0, -350_000), lifetime: 1_000_000 }
}

fn playing_game() -> Game {
    let mut game = Game::new(0);
    game.start_game(0);
    game
}

#[test]
fn first_hit_is_the_lowest_position_in_range() {
    let enemies = vec![
        target_enemy(100_000, 100_000, 0),
        target_enemy(205_000, 100_000, 1),
        target_enemy(200_000, 100_000, 2),
    ];
    assert_eq!(find_first_hit(&laser_at(200_000, 100_000), &enemies), Some(1));
    assert_eq!(find_first_hit(&laser_at(100_000, 110_000), &enemies), Some(0));
    assert_eq!(find_first_hit(&laser_at(100_000, 110_001), &enemies), None);
    assert_eq!(find_first_hit(&laser_at(0, 0), &Vec::new()), None);
}

#[test]
fn laser_on_an_enemy_destroys_it_and_scores_a_hundred() {
    let mut game = playing_game();
    game.enemies = vec![
        target_enemy(100_000, 100_000, 0),
        target_enemy(300_000, 100_000, 1),
        target_enemy(500_000, 100_000, 2),
    ];
    game.enemies[1].is_locked = true;
    game.enemies[2].is_locked = true;
    game.lock_system.active = true;
    game.lock_system.locked_enemies = vec![1, 2];
    game.normal_lasers = vec![laser_at(700_000, 100_000), laser_at(300_000, 100_000)];
    game.lock_on_lasers = vec![LockOnLaser::launch(Point::new(0, 0), Point::new(0, 0), 2, 0)];

    game.check_laser_enemy_collision();

    assert_eq!(game.score, 100);
    assert_eq!(game.normal_lasers, vec![laser_at(700_000, 100_000)]);
    let tags: Vec<u64> = game.enemies.iter().map(|e| e.spawn_time).collect();
    assert_eq!(tags, vec![0u64, 2]);
    assert_eq!(game.lock_system.locked_enemies, vec![1usize]);
    assert!(game.enemies[1].is_locked);
    assert!(!game.enemies[0].is_locked);
    assert_eq!(game.lock_on_lasers[0].target_enemy_id, Some(1));
}

#[test]
fn two_lasers_on_one_enemy_both_score_and_the_enemy_leaves_once() {
    let mut game = playing_game();
    game.enemies = vec![target_enemy(100_000, 100_000, 0), target_enemy(300_000, 100_000, 1)];
    game.normal_lasers = vec![
        laser_at(100_000, 105_000),
        laser_at(600_000, 105_000),
        laser_at(100_000, 95_000),
    ];
    game.check_laser_enemy_collision();
    assert_eq!(game.score, 200);
    assert_eq!(game.normal_lasers, vec![laser_at(600_000, 105_000)]);
    assert_eq!(game.enemies.len(), 1);
    assert_eq!(game.enemies[0].spawn_time, 1);
}

#[test]
fn a_laser_is_spent_on_one_enemy_only() {
    let mut game = playing_game();
    game.enemies = vec![
        target_enemy(100_000, 100_000, 0),
        target_enemy(100_000, 104_000, 1),
        target_enemy(100_000, 96_000, 2),
    ];
    game.normal_lasers = vec![laser_at(100_000, 100_000)];
    game.check_laser_enemy_collision();
    assert_eq!(game.score, 100);
    assert!(game.normal_lasers.is_empty());
    let tags: Vec<u64> = game.enemies.iter().map(|e| e.spawn_time).collect();
    assert_eq!(tags, vec![1u64, 2]);
}

#[test]
fn lasers_that_miss_change_nothing() {
    let mut game = playing_game();
    game.enemies = vec![target_enemy(100_000, 100_000, 0)];
    game.normal_lasers = vec![laser_at(100_000, 110_001), laser_at(0, 0)];
    game.score = 40;
    game.check_laser_enemy_collision();
    assert_eq!(game.score, 40);
    assert_eq!(game.normal_lasers.len(), 2);
    assert_eq!(game.enemies.len(), 1);
}

#[test]
fn several_hits_in_one_frame_are_resolved_together() {
    let mut game = playing_game();
    for tag in 0..6 {
        game.enemies.push(target_enemy(100_000 * tag as i32, 50_000, tag));
    }
    game.enemies[5].is_locked = true;
    game.lock_system.locked_enemies = vec![5];
    game.normal_lasers = vec![laser_at(400_000, 50_000), laser_at(0, 50_000), laser_at(200_000, 50_000)];
    game.check_laser_enemy_collision();
    assert_eq!(game.score, 300);
    assert!(game.normal_lasers.is_empty());
    let tags: Vec<u64> = game.enemies.iter().map(|e| e.spawn_time).collect();
    assert_eq!(tags, vec![1u64, 3, 5]);
    assert_eq!(game.lock_system.locked_enemies, vec![2usize]);
    assert!(game.enemies[2].is_locked);
}

#[test]
fn enemy_touches_the_player_rectangle() {
    let player = Point::new(400_000, 500_000);
    // inside the rectangle
    assert!(enemy_touches_player(player, &target_enemy(405_000, 503_000, 0)));
    // ten pixels right of the right edge
    assert!(enemy_touches_player(player, &target_enemy(420_000, 500_000, 0)));
    assert!(!enemy_touches_player(player, &target_enemy(420_001, 500_000, 0)));
    // ten pixels above the top edge
    assert!(enemy_touches_player(player, &target_enemy(400_000, 482_500, 0)));
    assert!(!enemy_touches_player(player, &target_enemy(400_000, 482_499, 0)));
    // six and eight pixels off the lower right corner
    assert!(enemy_touches_player(player, &target_enemy(416_000, 515_500, 0)));
    assert!(!enemy_touches_player(player, &target_enemy(416_001, 515_500, 0)));
}

#[test]
fn enemy_on_the_player_ends_the_run() {
    let mut game = playing_game();
    game.player.position = Point::new(400_000, 500_000);
    game.enemies = vec![target_enemy(100_000, 100_000, 0), target_enemy(410_000, 510_000, 1)];
    assert!(game.check_player_enemy_collision());
    assert_eq!(game.state, GameState::GameOver);
    assert_eq!(game.enemies.len(), 2);
}

#[test]
fn enemies_away_from_the_player_leave_the_run_going() {
    let mut game = playing_game();
    game.player.position = Point::new(400_000, 500_000);
    game.enemies = vec![target_enemy(100_000, 100_000, 0), target_enemy(430_000, 500_000, 1)];
    assert!(!game.check_player_enemy_collision());
    assert_eq!(game.state, GameState::Playing);
}
