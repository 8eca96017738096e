use autosplitter::progress::ProgressReporter;
use autosplitter::progress::ProgressState;

#[test]
fn three_chunk_run_ends_in_the_done_state() {
    let mut reporter = ProgressReporter::new(3);
    assert_eq!(reporter.state, ProgressState::NotStarted);

    let first = reporter.report(0);
    assert_eq!(first, "[1/3]");
    assert_eq!(reporter.state, ProgressState::InProgress(0));

    let second = reporter.report(1);
    assert_eq!(second, "\u{8}\u{8}\u{8}\u{8}\u{8}[2/3]");
    assert_eq!(reporter.state, ProgressState::InProgress(1));

    let third = reporter.report(2);
    assert_eq!(third, "\u{8}\u{8}\u{8}\u{8}\u{8}done\n");
    assert_eq!(reporter.state, ProgressState::Done);
}

#[test]
fn single_chunk_run_prints_done_at_once() {
    let mut reporter = ProgressReporter::new(1);
    let out = reporter.report(0);
    assert_eq!(out, "done\n");
    assert_eq!(reporter.state, ProgressState::Done);
}

#[test]
fn first_report_erases_nothing() {
    let mut reporter = ProgressReporter::new(10);
    let out = reporter.report(0);
    assert_eq!(out, "[01/10]");
}

#[test]
fn later_reports_erase_the_whole_previous_indicator() {
    let mut reporter = ProgressReporter::new(10);
    reporter.report(0);
    let out = reporter.report(1);
    // "[01/10]" is 7 characters: 2 * digit width + 3
    assert_eq!(out, format!("{}{}", "\u{8}".repeat(7), "[02/10]"));
}
