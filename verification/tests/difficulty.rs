use terra_lock::difficulty::{calculate_difficulty_parameters, Difficulty};

#[test]
fn difficulty_at_the_start() {
    let d = calculate_difficulty_parameters(0);
    assert_eq!(d, Difficulty { spawn_interval: 1_500_000, max_spawn_count: 3, speed_percent: 100 });
}

#[test]
fn difficulty_steps_every_thirty_seconds() {
    let just_before = calculate_difficulty_parameters(29_999_999);
    assert_eq!(just_before, calculate_difficulty_parameters(0));
    let d = calculate_difficulty_parameters(30_000_000);
    assert_eq!(d, Difficulty { spawn_interval: 1_400_000, max_spawn_count: 4, speed_percent: 110 });
    let d = calculate_difficulty_parameters(60_000_000);
    assert_eq!(d, Difficulty { spawn_interval: 1_300_000, max_spawn_count: 5, speed_percent: 120 });
    let d = calculate_difficulty_parameters(90_000_000);
    assert_eq!(d, Difficulty { spawn_interval: 1_200_000, max_spawn_count: 5, speed_percent: 130 });
}

#[test]
fn difficulty_levels_off() {
    let d = calculate_difficulty_parameters(150_000_000);
    assert_eq!(d, Difficulty { spawn_interval: 1_000_000, max_spawn_count: 5, speed_percent: 150 });
    let d = calculate_difficulty_parameters(180_000_000);
    assert_eq!(d, Difficulty { spawn_interval: 900_000, max_spawn_count: 5, speed_percent: 150 });
    let d = calculate_difficulty_parameters(210_000_000);
    assert_eq!(d, Difficulty { spawn_interval: 800_000, max_spawn_count: 5, speed_percent: 150 });
    let d = calculate_difficulty_parameters(u64::MAX);
    assert_eq!(d, Difficulty { spawn_interval: 800_000, max_spawn_count: 5, speed_percent: 150 });
}
