use terra_lock::entities::BonusDisplay;
use terra_lock::geometry::Point;
use terra_lock::scoring::{add_score, multi_kill_bonus};

#[test]
fn bonus_schedule() {
    assert_eq!(multi_kill_bonus(0), 0);
    assert_eq!(multi_kill_bonus(1), 0);
    assert_eq!(multi_kill_bonus(2), 300);
    assert_eq!(multi_kill_bonus(3), 600);
    assert_eq!(multi_kill_bonus(4), 1000);
    assert_eq!(multi_kill_bonus(5), 1500);
    assert_eq!(multi_kill_bonus(6), 2100);
    assert_eq!(multi_kill_bonus(7), 0);
    assert_eq!(multi_kill_bonus(usize::MAX), 0);
}

#[test]
fn score_addition() {
    assert_eq!(add_score(0, 100, 1), 100);
    assert_eq!(add_score(250, 200, 3), 850);
    assert_eq!(add_score(250, 200, 0), 250);
}

#[test]
fn score_stops_at_its_largest_value() {
    assert_eq!(add_score(u32::MAX - 50, 100, 1), u32::MAX);
    assert_eq!(add_score(0, u32::MAX, usize::MAX), u32::MAX);
}

#[test]
fn new_popup_is_shown_for_two_seconds() {
    let b = BonusDisplay::new(600, Point::new(400_000, 300_000));
    assert_eq!(b.amount, 600);
    assert_eq!(b.position, Point::new(400_000, 300_000));
    assert_eq!(b.timer, 0);
    assert_eq!(b.max_time, 2_000_000);
    assert!(!b.is_expired());
    assert_eq!(b.get_alpha(), 1_000_000);
}

#[test]
fn popup_rises_and_fades() {
    let mut b = BonusDisplay::new(300, Point::new(400_000, 300_000));
    b.update(500_000);
    assert_eq!(b.timer, 500_000);
    assert_eq!(b.position, Point::new(400_000, 285_000));
    assert_eq!(b.get_alpha(), 750_000);
    assert!(!b.is_expired());
    b.update(1_499_999);
    assert!(!b.is_expired());
    assert_eq!(b.get_alpha(), 1);
    b.update(1);
    assert!(b.is_expired());
    assert_eq!(b.get_alpha(), 0);
}

#[test]
fn popup_shown_for_no_time_is_transparent_and_expired() {
    let b = BonusDisplay { amount: 1, position: Point::new(0, 0), timer: 0, max_time: 0 };
    assert!(b.is_expired());
    assert_eq!(b.get_alpha(), 0);
}

#[test]
fn popup_timer_stops_at_its_largest_value() {
    let mut b = BonusDisplay { amount: 1, position: Point::new(0, i32::MIN + 10), timer: u32::MAX - 1, max_time: 5 };
    b.update(1_000_000);
    assert_eq!(b.timer, u32::MAX);
    assert_eq!(b.position.y, i32::MIN);
}

#[test]
fn popup_text_names_the_bonus() {
    assert_eq!(BonusDisplay::new(600, Point::new(0, 0)).text(), "BONUS +600");
    assert_eq!(BonusDisplay::new(2100, Point::new(0, 0)).text(), "BONUS +2100");
    assert_eq!(BonusDisplay::new(0, Point::new(0, 0)).text(), "BONUS +0");
    assert_eq!(BonusDisplay::new(7, Point::new(0, 0)).text(), "BONUS +7");
    assert_eq!(BonusDisplay::new(1_000, Point::new(0, 0)).text(), "BONUS +1000");
    assert_eq!(BonusDisplay::new(u32::MAX, Point::new(0, 0)).text(), "BONUS +4294967295");
}
