use pcli2::errors::{io_exit_code, ApiError, CliActionError, CliError, IoErrorKind, PcliExitCode};

#[test]
fn each_action_error_has_its_exit_code() {
    assert_eq!(CliActionError::CsvError("x".into()).exit_code(), PcliExitCode::DataError);
    assert_eq!(
        CliActionError::BusinessLogicError("x".into()).exit_code(),
        PcliExitCode::UsageError
    );
    assert_eq!(
        CliActionError::ConfigurationError("x".into()).exit_code(),
        PcliExitCode::ConfigError
    );
    assert_eq!(
        CliActionError::IncompleteReport { attempted: 10, failed: 5 }.exit_code(),
        PcliExitCode::TempFail
    );
    assert_eq!(
        CliActionError::TenantNotFound { identifier: "t".into() }.exit_code(),
        PcliExitCode::NotFound
    );
    assert_eq!(
        CliActionError::IoError { message: "m".into(), kind: IoErrorKind::Other }.exit_code(),
        PcliExitCode::DataError
    );
    assert_eq!(
        CliActionError::AlreadyReported(PcliExitCode::NotFound).exit_code(),
        PcliExitCode::NotFound
    );
}

#[test]
fn action_errors_say_what_went_wrong() {
    assert_eq!(
        CliActionError::IncompleteReport { attempted: 1_000, failed: 21 }.message(),
        "21 of 1000 asset search(es) failed; the report would be incomplete"
    );
    assert_eq!(
        CliActionError::UnsupportedOutputFormat("tsv".into()).message(),
        "ERROR: Unsupported output format: tsv"
    );
    assert_eq!(
        CliActionError::MissingRequiredArgument("path".into()).message(),
        "Missing required argument: path"
    );
    assert_eq!(
        CliActionError::TenantNotFound { identifier: "acme".into() }.message(),
        "Tenant not found: acme"
    );
    assert_eq!(
        CliActionError::IoError { message: "denied".into(), kind: IoErrorKind::Other }.message(),
        "IO error: denied"
    );
    assert_eq!(CliActionError::BusinessLogicError("as is".into()).message(), "as is");
}

#[test]
fn command_errors_say_what_went_wrong() {
    assert_eq!(CliError::InvalidArgument("bad".into()).message(), "bad");
    assert_eq!(
        CliError::FolderNotFound("/x".into(), "\n\nDid you mean: /y".into()).message(),
        "Folder not found: /x\n\nDid you mean: /y"
    );
    assert_eq!(
        CliError::PhysnaExtendedApiError(ApiError::HttpStatus {
            status: 503,
            message: "Service Unavailable".into()
        })
        .message(),
        "API error: HTTP 503: Service Unavailable"
    );
    assert_eq!(
        CliError::ActionError(CliActionError::ZipError("z".into())).exit_code(),
        PcliExitCode::DataError
    );
    assert_eq!(
        CliError::PhysnaExtendedApiError(ApiError::NotFoundError("n".into())).exit_code(),
        PcliExitCode::NotFound
    );
}

#[test]
fn an_action_error_from_the_api_keeps_the_api_errors_exit_code_and_message() {
    let e = CliActionError::ApiError(ApiError::NotFoundError("asset".into()));
    assert_eq!(e.exit_code(), PcliExitCode::NotFound);
    assert_eq!(e.message(), "Not found: asset");
    assert_eq!(
        CliActionError::ApiError(ApiError::InvalidToken).exit_code(),
        PcliExitCode::ConfigError
    );
    assert_eq!(
        CliActionError::ApiError(ApiError::HttpStatus { status: 503, message: "busy".into() }).exit_code(),
        PcliExitCode::Unavailable
    );
    assert_eq!(ApiError::InvalidParameterError("x".into()).exit_code(), PcliExitCode::UsageError);
}

#[test]
fn an_io_errors_exit_code_follows_its_kind() {
    assert_eq!(io_exit_code(IoErrorKind::NotFound), PcliExitCode::NotFound);
    assert_eq!(io_exit_code(IoErrorKind::Other), PcliExitCode::DataError);
    assert_eq!(
        CliActionError::IoError { message: "gone".into(), kind: IoErrorKind::NotFound }.exit_code(),
        PcliExitCode::NotFound
    );
}
