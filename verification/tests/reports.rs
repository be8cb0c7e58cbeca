use pcli2::errors::{CliError, PcliExitCode};
use pcli2::reports::{
    default_report_file, download_readiness, nothing_to_download, plan_report_folders,
    poll_failure_warning, report_ended_message, report_extensions, report_not_found_note,
    safe_file_stem, waited_report_outcome, DownloadReadiness, JobStatus, PollAction, PollEvent,
    ReportPoll,
};

const ID: &str = "f046e5b8-c08b-4bbb-b685-c6fd85e4d1b1";

#[test]
fn the_default_file_name_is_the_report_name_made_safe() {
    assert_eq!(safe_file_stem(Some("Custom 9/21/2026"), ID), "Custom 9_21_2026");
    assert_eq!(safe_file_stem(Some("  a:b*c  "), ID), "a_b_c");
}

#[test]
fn a_nameless_or_blank_named_report_falls_back_to_its_id() {
    assert_eq!(safe_file_stem(None, ID), "f046e5b8-c08b-4bbb-b685-c6fd85e4d1b1");
    assert_eq!(safe_file_stem(Some(" . "), ID), "f046e5b8-c08b-4bbb-b685-c6fd85e4d1b1");
}

#[test]
fn every_unsafe_character_becomes_an_underscore() {
    assert_eq!(safe_file_stem(Some("a\\b?c\"d<e>f|g\u{7}h"), ID), "a_b_c_d_e_f_g_h");
    assert_eq!(safe_file_stem(Some("..report.."), ID), "report");
}

#[test]
fn only_a_completed_report_can_be_downloaded() {
    assert_eq!(download_readiness(JobStatus::Completed), DownloadReadiness::Ready);
    assert_eq!(download_readiness(JobStatus::Pending), DownloadReadiness::NotYet);
    assert_eq!(download_readiness(JobStatus::Running), DownloadReadiness::NotYet);
    assert_eq!(
        download_readiness(JobStatus::Failed),
        DownloadReadiness::NothingToDownload
    );
    assert_eq!(
        download_readiness(JobStatus::Cancelled),
        DownloadReadiness::NothingToDownload
    );
    assert!(JobStatus::Failed.is_terminal());
    assert!(!JobStatus::Running.is_terminal());
}

#[test]
fn waiting_gives_up_after_three_failed_polls_in_a_row() {
    let mut poll = ReportPoll::new();
    assert_eq!(poll.on_poll(PollEvent::OtherFailure), PollAction::Retry { attempt: 1 });
    assert_eq!(poll.on_poll(PollEvent::OtherFailure), PollAction::Retry { attempt: 2 });
    assert_eq!(poll.on_poll(PollEvent::Fetched), PollAction::Carry);
    assert_eq!(poll.on_poll(PollEvent::OtherFailure), PollAction::Retry { attempt: 1 });
    assert_eq!(poll.on_poll(PollEvent::OtherFailure), PollAction::Retry { attempt: 2 });
    assert_eq!(
        poll.on_poll(PollEvent::OtherFailure),
        PollAction::GiveUpAfter { attempt: 3 }
    );
    let mut fresh = ReportPoll::new();
    assert_eq!(fresh.on_poll(PollEvent::CredentialFailure), PollAction::GiveUp);
    assert_eq!(
        poll_failure_warning(2, "timed out"),
        "Polling the report failed (2 of 3 in a row): timed out"
    );
}

#[test]
fn a_root_path_means_the_root_assets() {
    let paths = vec!["/a".to_string(), "/Home".to_string(), "b/c".to_string(), "/".to_string()];
    let plan = plan_report_folders(&paths, false);
    assert!(plan.include_home);
    assert_eq!(plan.to_resolve, vec!["/a".to_string(), "b/c".to_string()]);
    assert!(plan.root_path_read_as_include_home);
    let already = plan_report_folders(&paths, true);
    assert!(!already.root_path_read_as_include_home);
}

#[test]
fn a_report_that_did_not_complete_fails_the_wait() {
    assert!(waited_report_outcome(JobStatus::Completed).is_ok());
    match waited_report_outcome(JobStatus::Failed) {
        Err(CliError::AlreadyReported(code)) => assert_eq!(code, PcliExitCode::TempFail),
        other => panic!("unexpected {:?}", other),
    }
}

#[test]
fn a_downloaded_report_is_named_after_it() {
    assert_eq!(default_report_file(Some("Q3 / dupes"), ID, "csv"), "Q3 _ dupes.csv");
    assert_eq!(default_report_file(None, ID, "xlsx"), format!("{}.xlsx", ID));
}

#[test]
fn a_report_that_failed_has_nothing_to_download() {
    let e = nothing_to_download("Q3", JobStatus::Cancelled, ID);
    assert_eq!(
        e.message(),
        format!(
            "Report 'Q3' is CANCELLED; there is nothing to download. 'report diagnose --id {}' explains a failure.",
            ID
        )
    );
    assert_eq!(e.exit_code(), PcliExitCode::UsageError);
    assert_eq!(
        report_ended_message("Q3", JobStatus::Failed, ID),
        format!("Report 'Q3' ended FAILED. 'report diagnose --id {}' explains a failure.", ID)
    );
}

#[test]
fn diagnosing_a_report_without_a_record_says_why() {
    assert!(report_not_found_note(JobStatus::Failed).contains("aged out of retention"));
    assert_eq!(
        report_not_found_note(JobStatus::Running),
        "No failure record found: the report is RUNNING, not FAILED, so there is nothing to diagnose."
    );
}

#[test]
fn extensions_lose_their_leading_dots() {
    let exts = vec![".stl".to_string(), "step".to_string(), "..x.y".to_string()];
    assert_eq!(report_extensions(&exts), vec!["stl", "step", "x.y"]);
}
