use vacuum_salesman::scores::{handle_scores, ScoreBoard, ScoreTimer};

#[test]
fn three_small_feeds_fire_once() {
    // interval = 0.03 s, step = 1, three feeds of dt = 0.01 s: the deltas
    // are (0, 0, 1) and the accumulator is back at zero after the third.
    let mut timer = ScoreTimer::new(30_000);
    let mut board = ScoreBoard { score: 0 };
    let fired1 = handle_scores(&mut timer, &mut board, 10_000, 1);
    assert!(!fired1);
    assert_eq!(board.score, 0);
    let fired2 = handle_scores(&mut timer, &mut board, 10_000, 1);
    assert!(!fired2);
    assert_eq!(board.score, 0);
    let fired3 = handle_scores(&mut timer, &mut board, 10_000, 1);
    assert!(fired3);
    assert_eq!(board.score, 1);
    assert_eq!(timer.elapsed_us, 0);
}

#[test]
fn firing_resets_to_zero_not_by_decrement() {
    // A feed well past the interval still leaves the accumulator at zero:
    // the clock is a repeating alarm, not a remainder counter.
    let mut timer = ScoreTimer::new(30_000);
    let mut board = ScoreBoard { score: 0 };
    let fired = handle_scores(&mut timer, &mut board, 50_000, 1);
    assert!(fired);
    assert_eq!(timer.elapsed_us, 0);
    assert_eq!(board.score, 1);
}

#[test]
fn interval_is_kept_across_firings() {
    let mut timer = ScoreTimer::new(10_000);
    let mut board = ScoreBoard { score: 5 };
    for _ in 0..7 {
        handle_scores(&mut timer, &mut board, 10_000, 2);
    }
    assert_eq!(timer.interval_us, 10_000);
    assert_eq!(board.score, 5 + 7 * 2);
}

#[test]
fn short_feeds_accumulate() {
    let mut timer = ScoreTimer::new(100_000);
    let mut board = ScoreBoard { score: 0 };
    assert!(!handle_scores(&mut timer, &mut board, 40_000, 3));
    assert_eq!(timer.elapsed_us, 40_000);
    assert!(!handle_scores(&mut timer, &mut board, 40_000, 3));
    assert_eq!(timer.elapsed_us, 80_000);
    assert!(handle_scores(&mut timer, &mut board, 40_000, 3));
    assert_eq!(timer.elapsed_us, 0);
    assert_eq!(board.score, 3);
}
