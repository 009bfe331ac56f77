use terra_lock::entities::{Enemy, EnemyType, LockOnLaser};
use terra_lock::game::Game;
use terra_lock::geometry::Point;

fn numbered_enemy(tag: u64, locked: bool) -> Enemy {
    Enemy {
        position: Point::new(tag as i32 * 1_000, 0),
        velocity: Point::new(0, 0),
        is_locked: locked,
        enemy_type: EnemyType::Straight,
        spawn_time: tag,
        base_speed: 120_000,
        sway: 0,
    }
}

fn game_with_locks(n: u64, locked: &[usize]) -> Game {
    let mut game = Game::new(0);
    for tag in 0..n {
        game.enemies.push(numbered_enemy(tag, locked.contains(&(tag as usize))));
    }
    game.lock_system.active = true;
    game.lock_system.locked_enemies = locked.to_vec();
    game
}

fn world_is_consistent(game: &Game) -> bool {
    let n = game.enemies.len();
    let list = &game.lock_system.locked_enemies;
    (0..list.len()).all(|a| (0..a).all(|b| list[a] != list[b]))
        && list.iter().all(|&i| i < n)
        && (0..n).all(|i| game.enemies[i].is_locked == game.lock_system.locked_enemies.contains(&i))
        && game.lock_on_lasers.iter().all(|l| match l.target_enemy_id {
            Some(id) => id < n,
            None => true,
        })
}

#[test]
fn destroying_a_batch_keeps_every_reference_on_its_enemy() {
    let mut game = game_with_locks(6, &[1, 3, 4]);
    for target in [0usize, 3, 4, 5] {
        game.lock_on_lasers.push(LockOnLaser::launch(Point::new(0, 0), Point::new(0, 0), target, 0));
    }
    assert!(world_is_consistent(&game));

    game.destroy_enemies(&vec![0usize, 3]);

    let tags: Vec<u64> = game.enemies.iter().map(|e| e.spawn_time).collect();
    assert_eq!(tags, vec![1u64, 2, 4, 5]);
    assert_eq!(game.lock_system.locked_enemies, vec![0usize, 2]);
    assert_eq!(game.enemies[0].spawn_time, 1);
    assert_eq!(game.enemies[2].spawn_time, 4);
    let targets: Vec<Option<usize>> = game.lock_on_lasers.iter().map(|l| l.target_enemy_id).collect();
    assert_eq!(targets, vec![None, None, Some(2), Some(3)]);
    assert_eq!(game.enemies[3].spawn_time, 5);
    assert!(world_is_consistent(&game));
}

#[test]
fn destroying_nothing_changes_nothing() {
    let mut game = game_with_locks(3, &[2, 0]);
    game.lock_on_lasers.push(LockOnLaser::launch(Point::new(0, 0), Point::new(0, 0), 1, 0));
    game.destroy_enemies(&Vec::new());
    assert_eq!(game.enemies.len(), 3);
    assert_eq!(game.lock_system.locked_enemies, vec![2usize, 0]);
    assert_eq!(game.lock_on_lasers[0].target_enemy_id, Some(1));
    assert!(world_is_consistent(&game));
}

#[test]
fn destroying_everything_empties_the_world() {
    let mut game = game_with_locks(3, &[0, 1, 2]);
    game.lock_on_lasers.push(LockOnLaser::launch(Point::new(0, 0), Point::new(7, 7), 2, 0));
    game.destroy_enemies(&vec![0usize, 1, 2]);
    assert!(game.enemies.is_empty());
    assert!(game.lock_system.locked_enemies.is_empty());
    assert_eq!(game.lock_on_lasers[0].target_enemy_id, None);
    assert_eq!(game.lock_on_lasers[0].target_pos, Point::new(7, 7));
    assert!(world_is_consistent(&game));
}

#[test]
fn destroying_the_last_enemy_leaves_the_others_where_they_are() {
    let mut game = game_with_locks(5, &[0, 2]);
    game.destroy_enemies(&vec![4usize]);
    assert_eq!(game.lock_system.locked_enemies, vec![0usize, 2]);
    assert_eq!(game.enemies.len(), 4);
    assert!(world_is_consistent(&game));
}

#[test]
fn every_batch_of_a_small_world_keeps_the_invariant() {
    for mask in 0u32..64 {
        let destroyed: Vec<usize> = (0..6).filter(|i| mask & (1 << i) != 0).collect();
        let mut game = game_with_locks(6, &[5, 0, 2, 3]);
        for target in 0..6 {
            game.lock_on_lasers.push(LockOnLaser::launch(Point::new(0, 0), Point::new(0, 0), target, 0));
        }
        let before = game.clone();
        game.destroy_enemies(&destroyed);
        assert!(world_is_consistent(&game));
        assert_eq!(game.enemies.len(), 6 - destroyed.len());
        for (k, laser) in game.lock_on_lasers.iter().enumerate() {
            match laser.target_enemy_id {
                Some(id) => assert_eq!(game.enemies[id], before.enemies[k]),
                None => assert!(destroyed.contains(&k)),
            }
        }
    }
}
