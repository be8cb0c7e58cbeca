use pcli2::doctor::{
    check, credentials_check, doctor_result, human_seconds, newer_version, token_check,
    update_check, version_tuple, Status, StoredToken,
};
use pcli2::errors::{CliError, PcliExitCode};

#[test]
fn ages_read_in_the_largest_units_that_fit() {
    assert_eq!(human_seconds(42), "42s");
    assert_eq!(human_seconds(300), "5m");
    assert_eq!(human_seconds(12_000), "3h 20m");
    assert_eq!(human_seconds(187_200), "2d 4h");
}

#[test]
fn versions_compare_by_their_numbers() {
    assert_eq!(version_tuple("v1.2.3"), (1, 2, 3));
    assert_eq!(version_tuple("0.2.10-beta"), (0, 2, 10));
    assert_eq!(version_tuple("7"), (7, 0, 0));
    assert_eq!(version_tuple("x.y"), (0, 0, 0));
    assert_eq!(version_tuple("99999999999999999999.1"), (0, 1, 0));
    assert!(newer_version("0.2.10", "0.2.9"));
    assert!(!newer_version("0.2.9", "0.2.10"));
    assert!(!newer_version("1.0.0", "v1.0.0"));
}

#[test]
fn the_update_check_warns_of_a_newer_release() {
    let c = update_check(Some(("0.3.0", 7200)), "0.2.1");
    assert_eq!(c.status, Status::Warn);
    assert_eq!(c.detail, "v0.3.0 is available (you have v0.2.1; checked 2h 0m ago)");
    let c = update_check(Some(("0.2.1", 30)), "0.2.1");
    assert_eq!(c.status, Status::Pass);
    assert_eq!(c.detail, "up to date (latest known v0.2.1, checked 30s ago)");
    let c = update_check(None, "0.2.1");
    assert_eq!(c.name, "update");
    assert_eq!(c.status, Status::Pass);
}

#[test]
fn the_credentials_check_needs_both_halves() {
    let c = credentials_check("prod", true, true);
    assert_eq!(c.status, Status::Pass);
    assert_eq!(
        c.detail,
        "os-keychain backend, system keychain; environment 'prod': client ID and secret stored"
    );
    let c = credentials_check("prod", true, false);
    assert_eq!(c.status, Status::Warn);
    assert!(c.detail.ends_with("client ID stored, secret missing"));
}

#[test]
fn the_token_check_says_whether_a_command_can_authenticate() {
    let (c, usable) = token_check(&StoredToken::Expires(1_000), 400, false);
    assert_eq!((c.status, usable), (Status::Pass, true));
    assert_eq!(c.detail, "valid for 10m");
    let (c, usable) = token_check(&StoredToken::Expires(1_000), 4_600, true);
    assert_eq!((c.status, usable), (Status::Pass, true));
    assert_eq!(c.detail, "expired 1h 0m ago; renewed automatically on the next command");
    let (c, usable) = token_check(&StoredToken::Expires(1_000), 4_600, false);
    assert_eq!((c.status, usable), (Status::Fail, false));
    let (c, usable) = token_check(&StoredToken::Absent, 0, false);
    assert_eq!((c.status, usable), (Status::Fail, false));
    let (c, usable) = token_check(&StoredToken::Undecodable("bad".into()), 0, true);
    assert_eq!((c.status, usable), (Status::Warn, false));
    assert_eq!(c.detail, "stored but not decodable (bad); a renewal will replace it");
}

#[test]
fn a_failed_check_fails_the_doctor() {
    let ok = vec![check("a", Status::Pass, "x".into()), check("b", Status::Warn, "y".into())];
    assert!(doctor_result(&ok, true).is_ok());
    let bad = vec![check("a", Status::Pass, "x".into()), check("b", Status::Fail, "y".into())];
    match doctor_result(&bad, true) {
        Err(CliError::AlreadyReported(code)) => assert_eq!(code, PcliExitCode::Unavailable),
        other => panic!("unexpected {:?}", other),
    }
    match doctor_result(&bad, false) {
        Err(CliError::AlreadyReported(code)) => assert_eq!(code, PcliExitCode::ConfigError),
        other => panic!("unexpected {:?}", other),
    }
}
