use pcli2::bulk::{BulkOptions, BulkReport, ItemFailure, ItemOutcome, TaskOutcome};
use pcli2::errors::{CliActionError, CliError, PcliExitCode};

fn failure(message: &str) -> TaskOutcome {
    TaskOutcome::Failed(ItemFailure {
        message: message.to_string(),
        error: CliError::InvalidArgument(message.to_string()),
    })
}

#[test]
fn the_first_failure_cancels_the_rest_without_continue_on_error() {
    let mut report = BulkReport::new(4);
    assert!(!report.record(TaskOutcome::Finished(ItemOutcome::Done), false));
    assert!(report.record(failure("item 1 failed"), false));
    assert!(!report.record(failure("item 2 failed"), false));
    assert!(!report.record(TaskOutcome::Cancelled, false));
    assert_eq!(report.done, 1);
    assert_eq!(report.not_attempted, 1);
    assert_eq!(report.failed(), 2);
    match report.into_result(false, "downloads") {
        Err(CliError::InvalidArgument(m)) => assert_eq!(m, "item 1 failed"),
        other => panic!("unexpected {:?}", other),
    }
}

#[test]
fn continue_on_error_goes_on_and_still_fails_the_run() {
    let mut report = BulkReport::new(3);
    assert!(!report.record(TaskOutcome::Finished(ItemOutcome::Done), true));
    assert!(!report.record(failure("item 2 failed"), true));
    assert!(!report.record(TaskOutcome::Finished(ItemOutcome::Skipped), true));
    let error = report.into_result(true, "tests").unwrap_err();
    match &error {
        CliError::ActionError(CliActionError::PartialFailure { failed, total, what }) => {
            assert_eq!((*failed, *total, what.as_str()), (1, 3, "tests"));
        }
        other => panic!("expected a partial failure, got {:?}", other),
    }
    assert_eq!(error.message(), "1 of 3 tests failed");
    assert_eq!(error.exit_code(), PcliExitCode::TempFail);
}

#[test]
fn a_clean_run_succeeds() {
    let mut report = BulkReport::new(2);
    report.record(TaskOutcome::Finished(ItemOutcome::Done), false);
    report.record(TaskOutcome::Finished(ItemOutcome::Unavailable), false);
    assert_eq!(report.unavailable, 1);
    assert!(report.into_result(false, "items").is_ok());
}

#[test]
fn a_task_that_could_not_run_is_a_failure() {
    let f = ItemFailure::task_failed("panicked", CliError::InvalidArgument("x".into()));
    assert_eq!(f.message, "⚠️  Task failed to execute: panicked");
}

#[test]
fn at_least_one_item_runs_at_a_time() {
    let options = BulkOptions {
        concurrency: 0,
        delay: std::time::Duration::from_millis(0),
        continue_on_error: false,
        show_progress: false,
        verb: "Downloading",
    };
    assert_eq!(options.permits(), 1);
    let four = BulkOptions { concurrency: 4, ..options };
    assert_eq!(four.permits(), 4);
}
