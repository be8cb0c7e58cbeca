use pcli2::errors::{CliError, PcliExitCode};
use pcli2::metadata_batch::{EntryOutcome, MetadataBatchRun, NextStep};

#[test]
fn a_missing_asset_stops_the_run_unless_it_goes_on() {
    let mut run = MetadataBatchRun::new();
    assert_eq!(run.record(EntryOutcome::Updated, false), NextStep::Next);
    assert_eq!(
        run.record(EntryOutcome::LookupFailed { authentication: false }, false),
        NextStep::Stop
    );
    assert_eq!(
        run.stopped_line(true),
        "Batch operation stopped: 1 successful, 1 failed (use --continue-on-error to skip unresolvable asset paths)"
    );
    assert!(run.result().is_ok());

    let mut going_on = MetadataBatchRun::new();
    assert_eq!(
        going_on.record(EntryOutcome::LookupFailed { authentication: false }, true),
        NextStep::SkipEntry
    );
    assert_eq!(going_on.record(EntryOutcome::Updated, true), NextStep::Next);
    assert_eq!((going_on.succeeded(), going_on.failed(), going_on.skipped_missing()), (1, 1, 1));
    assert_eq!(
        going_on.completed_line(false).unwrap(),
        "Batch operation completed: 1 successful, 1 failed"
    );
}

#[test]
fn a_failed_write_always_stops_the_run() {
    let mut run = MetadataBatchRun::new();
    assert_eq!(
        run.record(EntryOutcome::WriteFailed { authentication: false }, true),
        NextStep::Stop
    );
    assert_eq!(run.stopped_line(false), "Batch operation stopped: 0 successful, 1 failed");
}

#[test]
fn a_refused_credential_fails_the_run_as_a_security_error() {
    let mut run = MetadataBatchRun::new();
    assert_eq!(
        run.record(EntryOutcome::LookupFailed { authentication: true }, true),
        NextStep::StopForCredentials
    );
    let e = run.result().unwrap_err();
    assert!(matches!(&e, CliError::SecurityError(m) if m.starts_with("Batch operation stopped due to authentication failure")));
    assert_eq!(e.exit_code(), PcliExitCode::ConfigError);
}

#[test]
fn a_quiet_clean_run_prints_no_summary() {
    let mut run = MetadataBatchRun::new();
    run.record(EntryOutcome::Updated, false);
    assert!(run.completed_line(false).is_none());
    assert_eq!(
        run.completed_line(true).unwrap(),
        "Batch operation completed: 1 successful, 0 failed"
    );
}
