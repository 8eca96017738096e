use autosplitter::plan::chunk;
use autosplitter::plan::chunk_length_seconds;
use autosplitter::plan::is_feasible;
use autosplitter::plan::total_planned_seconds;

#[test]
fn sixteenth_note_at_120_bpm_is_an_eighth_of_a_second() {
    let len = chunk_length_seconds(120);
    assert_eq!(len.num, 60);
    assert_eq!(len.den, 480);
    assert_eq!(len.num as f64 / len.den as f64, 0.125);
}

#[test]
fn total_planned_for_256_chunks_at_120_bpm_is_32_seconds() {
    let total = total_planned_seconds(120, 256);
    assert_eq!(total.num, 60 * 256);
    assert_eq!(total.den, 480);
    assert_eq!(total.num as f64 / total.den as f64, 32.0);
}

#[test]
fn thirty_second_source_is_infeasible_for_a_32_second_plan() {
    assert!(!is_feasible(120, 256, 3000));
}

#[test]
fn forty_second_source_is_feasible_for_a_32_second_plan() {
    assert!(is_feasible(120, 256, 4000));
}

#[test]
fn source_exactly_as_long_as_the_plan_is_feasible() {
    assert!(is_feasible(120, 256, 3200));
}

#[test]
fn chunk_start_is_index_times_length() {
    let c = chunk(120, 10, 4);
    assert_eq!(c.index, 4);
    assert_eq!(c.start.num, 240);
    assert_eq!(c.start.den, 480);
    assert_eq!(c.start.num as f64 / c.start.den as f64, 0.5);
    assert_eq!(c.length.num, 60);
    assert_eq!(c.length.den, 480);
}

#[test]
fn consecutive_chunks_are_contiguous() {
    let bpm = 97;
    for i in 0..9 {
        let a = chunk(bpm, 10, i);
        let b = chunk(bpm, 10, i + 1);
        // start(i) + length == start(i + 1), as exact rationals
        assert_eq!(
            (a.start.num as i128 * a.length.den as i128
                + a.length.num as i128 * a.start.den as i128)
                * b.start.den as i128,
            b.start.num as i128 * (a.start.den as i128 * a.length.den as i128)
        );
    }
}

#[test]
fn fade_starts_ten_milliseconds_before_the_chunk_ends() {
    let c = chunk(120, 10, 0);
    assert_eq!(c.fade_start.num, 60000 - 4 * 120 * 10);
    assert_eq!(c.fade_start.den, 480_000);
    assert_eq!(c.fade_start.num as f64 / c.fade_start.den as f64, 0.115);
    assert_eq!(c.fade_duration.num, c.length.num);
    assert_eq!(c.fade_duration.den, c.length.den);
}

#[test]
fn fade_longer_than_the_chunk_gives_a_negative_fade_start() {
    // a 600 ms fade in a 125 ms chunk starts before the window
    let c = chunk(120, 600, 0);
    assert!(c.fade_start.num < 0);
}
