use pcli2::errors::ApiError;
use pcli2::search::{
    finish_search_outcomes, SearchAbort, SearchErrorReport, SearchFailure, SearchOutcomes,
    CONSECUTIVE_AUTH_FAILURES_BEFORE_STOP,
};

fn outcomes(attempted: usize, not_searchable: usize, operational: usize) -> SearchOutcomes {
    outcomes_with_aborted(attempted, not_searchable, operational, 0)
}

fn outcomes_with_aborted(
    attempted: usize,
    not_searchable: usize,
    operational: usize,
    aborted: usize,
) -> SearchOutcomes {
    let mut o = SearchOutcomes::new();
    for i in 0..attempted {
        o.record(if i < operational {
            Some(SearchFailure::Operational)
        } else if i < operational + aborted {
            Some(SearchFailure::Aborted)
        } else if i < operational + aborted + not_searchable {
            Some(SearchFailure::NotSearchable)
        } else {
            None
        });
    }
    o
}

#[test]
fn conflicts_are_data_state_everything_else_is_operational() {
    for message in [
        "HTTP 409 Conflict - Asset not indexed yet",
        "HTTP 409 Conflict - Asset has no 3D data and is unavailable for search",
        "HTTP 409 Conflict - Asset failed to index",
    ] {
        assert_eq!(
            SearchFailure::classify(&ApiError::ConflictError(message.to_string())),
            SearchFailure::NotSearchable
        );
    }
    assert_eq!(
        SearchFailure::classify(&ApiError::AuthError("token expired".to_string())),
        SearchFailure::Operational
    );
    assert_eq!(
        SearchFailure::classify(&ApiError::InvalidToken),
        SearchFailure::Operational
    );
    assert_eq!(
        SearchFailure::classify(&ApiError::HttpStatus {
            status: 503,
            message: "Service Unavailable".to_string()
        }),
        SearchFailure::Operational
    );
    assert_eq!(
        SearchFailure::classify(&ApiError::HttpStatus {
            status: 429,
            message: "Too Many Requests".to_string()
        }),
        SearchFailure::Operational
    );
    assert_eq!(
        SearchFailure::classify(&ApiError::RetryFailed("503".to_string())),
        SearchFailure::Operational
    );
}

#[test]
fn a_single_auth_failure_does_not_stop_the_run() {
    let mut abort = SearchAbort::new();
    assert!(!abort.record_auth_failure());
    assert!(!abort.is_stopped());
}

#[test]
fn a_success_forgets_earlier_failures() {
    let mut abort = SearchAbort::new();
    for _ in 0..20 {
        assert!(!abort.record_auth_failure());
        assert!(!abort.record_auth_failure());
        abort.record_success();
    }
    assert!(!abort.is_stopped(), "40 blips, none consecutive, keep going");
}

#[test]
fn an_unbroken_run_of_auth_failures_stops_the_run() {
    let mut abort = SearchAbort::new();
    for _ in 1..CONSECUTIVE_AUTH_FAILURES_BEFORE_STOP {
        assert!(!abort.record_auth_failure());
    }
    assert!(
        abort.record_auth_failure(),
        "the failure crossing the threshold explains why"
    );
    assert!(abort.is_stopped());
}

#[test]
fn only_one_task_reports_the_stop() {
    let mut abort = SearchAbort::new();
    let mut announced = 0;
    for _ in 0..50 {
        if abort.record_auth_failure() {
            announced += 1;
        }
    }
    assert_eq!(announced, 1, "exactly one caller explains why");
}

#[test]
fn the_classifier_covers_renewal_failure_and_post_renewal_rejection() {
    assert!(ApiError::AuthError("expired".into()).is_authentication_failure());
    assert!(ApiError::InvalidToken.is_authentication_failure());
    assert!(ApiError::MissingCredentials.is_authentication_failure());
    assert!(ApiError::RetryFailed(
        "Original error: 401 Unauthorized, Retry failed with status: 401".into()
    )
    .is_authentication_failure());
    assert!(!ApiError::ConflictError("Asset not indexed yet".into()).is_authentication_failure());
}

#[test]
fn aborted_searches_count_as_incomplete() {
    let o = outcomes_with_aborted(22_378, 51, 1, 21_067);
    assert_eq!(o.incomplete(), 21_068);
    assert!(o.is_materially_incomplete());
    assert!(finish_search_outcomes(&o).is_err());

    let summary = o.summary().expect("failures are always reported");
    assert!(summary.contains("1 failed"), "{}", summary);
    assert!(summary.contains("21,067 not attempted"), "{}", summary);
    assert!(summary.contains("51 not searchable"), "{}", summary);
}

#[test]
fn a_clean_run_says_nothing() {
    let o = outcomes(100, 0, 0);
    assert_eq!(o.succeeded(), 100);
    assert!(o.summary().is_none(), "no failures means no summary to print");
    assert!(!o.is_materially_incomplete());
}

#[test]
fn unsearchable_assets_alone_never_fail_the_run() {
    let o = outcomes(22_378, 806, 0);
    assert!(!o.is_materially_incomplete());
    let summary = o.summary().expect("failures are always reported");
    assert!(summary.contains("806 not searchable"), "{}", summary);
    assert!(!summary.contains("failed"), "{}", summary);
}

#[test]
fn a_systemic_failure_fails_the_run() {
    let o = outcomes(22_378, 51, 21_068);
    assert!(o.is_materially_incomplete());
    assert!(finish_search_outcomes(&o).is_err());
    let summary = o.summary().expect("failures are always reported");
    assert!(summary.contains("21,068 failed"), "{}", summary);
    assert!(summary.contains("51 not searchable"), "{}", summary);
}

#[test]
fn a_few_operational_failures_are_reported_but_do_not_fail_the_run() {
    let o = outcomes(22_378, 806, 2);
    assert!(!o.is_materially_incomplete());
    assert!(finish_search_outcomes(&o).is_ok());
    assert!(o.summary().expect("reported").contains("2 failed"));
}

#[test]
fn the_threshold_boundary_is_exclusive() {
    let at = outcomes(1000, 0, 100);
    assert!(!at.is_materially_incomplete(), "10% exactly must not fail");
    let over = outcomes(1000, 0, 101);
    assert!(over.is_materially_incomplete());
}

#[test]
fn an_empty_run_is_not_incomplete() {
    let o = outcomes(0, 0, 0);
    assert!(!o.is_materially_incomplete());
    assert!(o.summary().is_none());
}

#[test]
fn the_summary_reads_in_full() {
    let o = outcomes_with_aborted(1_500, 3, 2, 1);
    assert_eq!(
        o.summary().unwrap(),
        "Searched 1,494 of 1,500 asset(s): 2 failed, 1 not attempted, 3 not searchable"
    );
    assert_eq!(o.attempted(), 1_500);
    assert_eq!(o.failed(), 6);
    assert_eq!(o.succeeded(), 1_494);
}

#[test]
fn an_incomplete_run_ends_with_the_summary_and_a_temporary_failure() {
    let o = outcomes(10, 0, 5);
    let e = finish_search_outcomes(&o).unwrap_err();
    assert_eq!(
        e.message,
        "Searched 5 of 10 asset(s): 5 failed - the report would be incomplete"
    );
    let error = e.into_error();
    assert_eq!(error.exit_code(), pcli2::errors::PcliExitCode::TempFail);
}

#[test]
fn a_degraded_run_warns_with_the_summary() {
    let o = outcomes(100, 4, 1);
    assert_eq!(
        finish_search_outcomes(&o).unwrap(),
        Some("Searched 95 of 100 asset(s): 1 failed, 4 not searchable".to_string())
    );
    assert_eq!(finish_search_outcomes(&outcomes(3, 0, 0)).unwrap(), None);
}

#[test]
fn a_stopped_run_skips_without_touching_the_network() {
    let mut abort = SearchAbort::new();
    abort.record_auth_failure();
    abort.record_auth_failure();
    abort.record_auth_failure();
    assert!(abort.is_stopped());
    // A success after the stop does not restart the run.
    abort.record_success();
    assert!(abort.is_stopped());
}

#[test]
fn a_search_error_is_reported_once_as_a_stop_or_as_a_warning() {
    let mut abort = SearchAbort::new();
    let conflict = ApiError::ConflictError("Asset not indexed yet".to_string());
    assert!(matches!(abort.on_search_error(&conflict), SearchErrorReport::Warn));
    let auth = ApiError::InvalidToken;
    assert!(matches!(abort.on_search_error(&auth), SearchErrorReport::Warn));
    assert!(matches!(abort.on_search_error(&auth), SearchErrorReport::Warn));
    assert!(matches!(abort.on_search_error(&auth), SearchErrorReport::Stop));
    assert!(matches!(abort.on_search_error(&auth), SearchErrorReport::Silent));
    assert!(matches!(abort.on_search_error(&conflict), SearchErrorReport::Silent));
}

#[test]
fn an_incomplete_run_lists_what_to_try() {
    let o = outcomes(10, 0, 5);
    let e = finish_search_outcomes(&o).unwrap_err();
    assert_eq!(
        e.remediation(),
        vec![
            "Check that you are still logged in ('pcli2 auth login')".to_string(),
            "Check your network connection and retry".to_string(),
            "Re-run with --verbose to see why the individual searches failed".to_string(),
        ]
    );
}

#[test]
fn a_tally_counts_each_recorded_search_under_its_kind() {
    let mut o = SearchOutcomes::new();
    let kinds = [
        None,
        Some(SearchFailure::NotSearchable),
        Some(SearchFailure::Operational),
        None,
        Some(SearchFailure::Aborted),
        Some(SearchFailure::Operational),
    ];
    for k in kinds {
        o.record(k);
    }
    assert_eq!(o.attempted(), 6);
    assert_eq!(o.failed(), 4);
    assert_eq!(o.succeeded(), 2);
    assert_eq!(o.incomplete(), 3);
}

#[test]
fn only_the_third_failure_in_a_row_announces_the_stop() {
    let mut abort = SearchAbort::new();
    let mut announced = Vec::new();
    for step in 0..8 {
        if step == 2 {
            abort.record_success();
        } else {
            announced.push(abort.record_auth_failure());
        }
    }
    // failures at steps 0, 1, then a success, then 3, 4, 5 (the third in a row), 6, 7
    assert_eq!(announced, vec![false, false, false, false, true, false, false]);
    assert!(abort.is_stopped());
}
