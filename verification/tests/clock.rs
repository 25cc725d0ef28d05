use std::time::{Duration, Instant};
use typingspeed::TypingSpeedTracker;

const MILLI: u128 = 1_000_000;
const SECOND: u128 = 1_000_000_000;

fn wait(pause: Duration) {
    let start = Instant::now();
    while start.elapsed() < pause {
        std::hint::spin_loop();
    }
}

#[test]
fn ten_presses_on_the_clock_are_all_in_a_long_window() {
    let mut tracker = TypingSpeedTracker::new(7_000 * MILLI);
    let mut n: u32 = 0;
    while n < 10 {
        tracker.press_key();
        wait(Duration::from_millis(100));
        n += 1;
    }
    let speed = tracker.typing_speed_within_timespan(15 * SECOND);
    assert_eq!(speed.keys_pressed(), 10);
    assert_eq!(speed.duration(), 15 * SECOND);
    let words_per_minute = (speed.keys_pressed() as f32 / 15.0) * 60.0 * 0.2;
    assert!((words_per_minute - 8.0).abs() < 1e-4);
}

#[test]
fn presses_on_the_clock_go_to_the_front_in_time_order() {
    let mut tracker = TypingSpeedTracker::new(7 * SECOND);
    tracker.press_key();
    wait(Duration::from_millis(2));
    tracker.press_key();
    wait(Duration::from_millis(2));
    tracker.press_key();
    let log = tracker.key_presses();
    assert_eq!(log.len(), 3);
    assert!(log[0].time > log[1].time);
    assert!(log[1].time > log[2].time);
    assert!(log[0].time - log[2].time >= 4 * MILLI);
    assert!(log[0].time < 5 * SECOND);
}

#[test]
fn pause_on_the_clock_longer_than_timeout_resets() {
    let mut tracker = TypingSpeedTracker::new(400 * MILLI);
    tracker.press_key();
    tracker.press_key();
    assert_eq!(tracker.len(), 2);
    wait(Duration::from_millis(800));
    tracker.press_key();
    assert_eq!(tracker.len(), 1);
}

#[test]
fn short_window_on_the_clock_leaves_old_presses_out() {
    let mut tracker = TypingSpeedTracker::new(7 * SECOND);
    tracker.press_key();
    tracker.press_key();
    wait(Duration::from_millis(900));
    tracker.press_key();
    assert_eq!(tracker.typing_speed_within_timespan(600 * MILLI).keys_pressed(), 1);
    assert_eq!(tracker.typing_speed_within_timespan(10 * SECOND).keys_pressed(), 3);
    assert_eq!(tracker.typing_speed_within_timespan(0).keys_pressed(), 0);
}

#[test]
fn more_presses_on_the_clock_than_capacity() {
    let mut tracker = TypingSpeedTracker::new(7 * SECOND);
    let mut n: u32 = 0;
    while n < 750 {
        tracker.press_key();
        n += 1;
    }
    assert_eq!(tracker.len(), 700);
    assert_eq!(tracker.typing_speed_within_timespan(15 * SECOND).keys_pressed(), 700);
}
