use usirun::clock::TimeControl;
use usirun::rules::Color;

fn clock_byoyomi(time: u64, byoyomi: u64) -> TimeControl {
    TimeControl::Byoyomi { black_time: time, white_time: time, byoyomi }
}

fn clock_fischer(black: u64, white: u64, black_inc: u64, white_inc: u64) -> TimeControl {
    TimeControl::FischerClock { black_time: black, white_time: white, black_inc, white_inc }
}

#[test]
fn byoyomi_covers_what_exceeds_the_main_time() {
    let ok_cases = [(5000, 1000, 1000, 4000), (5000, 1000, 5000, 0), (5000, 1000, 6000, 0)];
    for case in ok_cases {
        let mut t = clock_byoyomi(case.0, case.1);
        assert!(t.consume(Color::Black, case.2));
        assert_eq!(case.3, t.black_time());
        assert_eq!(case.0, t.white_time());
        assert!(t.consume(Color::White, case.2));
        assert_eq!(case.3, t.black_time());
        assert_eq!(case.3, t.white_time());
    }
}

#[test]
fn byoyomi_runs_out() {
    let ng_cases = [(5000, 1000, 6001), (5000, 0, 5001)];
    for case in ng_cases {
        let mut t = clock_byoyomi(case.0, case.1);
        assert!(!t.consume(Color::Black, case.2));
        assert!(!t.consume(Color::White, case.2));
        assert_eq!(clock_byoyomi(case.0, case.1), t);
    }
}

#[test]
fn byoyomi_does_not_accumulate() {
    let mut t = clock_byoyomi(1000, 3000);
    assert!(t.consume(Color::Black, 2000));
    assert_eq!(0, t.black_time());
    assert!(t.consume(Color::Black, 3000));
    assert_eq!(0, t.black_time());
    assert!(!t.consume(Color::Black, 3001));
    assert_eq!(TimeControl::Byoyomi { black_time: 0, white_time: 1000, byoyomi: 3000 }, t);
}

#[test]
fn byoyomi_with_no_time_at_all_flags_at_once() {
    let mut t = clock_byoyomi(0, 100);
    assert!(t.consume(Color::Black, 100));
    assert!(!t.consume(Color::Black, 500));
    let mut t = clock_byoyomi(0, 0);
    assert!(t.consume(Color::White, 0));
    assert!(!t.consume(Color::White, 1));
}

#[test]
fn a_fischer_clock_adds_the_increment_after_the_move() {
    let ok_cases = [(50, 50, 5, 5, 10, 45, 50), (50, 50, 5, 5, 50, 5, 50), (50, 50, 0, 0, 50, 0, 50)];
    for case in ok_cases {
        let mut t = clock_fischer(case.0, case.1, case.2, case.3);
        assert!(t.consume(Color::Black, case.4));
        assert_eq!(case.5, t.black_time());
        assert_eq!(case.6, t.white_time());
    }
    let mut t = clock_fischer(10, 20, 3, 7);
    assert!(t.consume(Color::White, 20));
    assert_eq!(clock_fischer(10, 7, 3, 7), t);
    assert!(t.consume(Color::White, 0));
    assert_eq!(clock_fischer(10, 14, 3, 7), t);
}

#[test]
fn a_fischer_clock_runs_out_when_the_main_time_is_spent() {
    let mut t = clock_fischer(50, 50, 5, 5);
    assert!(!t.consume(Color::Black, 51));
    assert!(!t.consume(Color::White, 56));
    assert_eq!(clock_fischer(50, 50, 5, 5), t);
}

#[test]
fn a_clock_tells_whether_it_has_headroom() {
    assert!(clock_byoyomi(u64::MAX, u64::MAX).check_headroom());
    assert!(clock_fischer(u64::MAX - 5, 0, 5, u64::MAX).check_headroom());
    assert!(!clock_fischer(u64::MAX - 4, 0, 5, 0).check_headroom());
    assert!(!clock_fischer(0, 1, 0, u64::MAX).check_headroom());
    let mut t = clock_fischer(u64::MAX - 5, 0, 5, 0);
    assert!(t.consume(Color::Black, 0));
    assert_eq!(u64::MAX, t.black_time());
}
