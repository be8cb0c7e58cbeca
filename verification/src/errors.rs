//! The errors the actions report, and the exit code each one gives.

use vstd::prelude::*;
use crate::text::{contains, spec_contains, decimal, u64_text};

verus! {

/// The process exit codes the actions distinguish.
#[derive(Debug, Clone, Copy, PartialEq, Eq, Structural)]
pub enum PcliExitCode {
    /// The input data was malformed.
    DataError,
    /// The command was used wrongly.
    UsageError,
    /// The configuration could not be used.
    ConfigError,
    /// A temporary failure: trying again later may succeed.
    TempFail,
    /// What was asked for does not exist.
    NotFound,
    /// A service could not be reached.
    Unavailable,
}

/// What kind of failure an I/O error was, as far as the exit code tells.
#[derive(Debug, Clone, Copy, PartialEq, Eq, Structural)]
pub enum IoErrorKind {
    /// The file or directory does not exist.
    NotFound,
    /// Any other I/O failure.
    Other,
}

/// The exit code of an I/O failure: `NotFound` for a missing file, a data
/// error otherwise.
pub open spec fn spec_io_exit_code(kind: IoErrorKind) -> PcliExitCode {
    match kind {
        IoErrorKind::NotFound => PcliExitCode::NotFound,
        IoErrorKind::Other => PcliExitCode::DataError,
    }
}

/// The exit code of an I/O failure of this kind.
pub fn io_exit_code(kind: IoErrorKind) -> (r: PcliExitCode)
    ensures
        r == spec_io_exit_code(kind),
{
    match kind {
        IoErrorKind::NotFound => PcliExitCode::NotFound,
        IoErrorKind::Other => PcliExitCode::DataError,
    }
}

/// The errors the Physna API client reports, by what went wrong.
#[derive(Debug, Clone)]
pub enum ApiError {
    /// `409 Conflict`: the asset is not indexed, has no 3D data, or failed to index.
    ConflictError(String),
    /// Renewing the access token failed.
    AuthError(String),
    /// The stored token cannot be used.
    InvalidToken,
    /// No credentials are stored.
    MissingCredentials,
    /// Any other unsuccessful HTTP status.
    HttpStatus { status: u16, message: String },
    /// The request failed again after the token was renewed.
    RetryFailed(String),
    NotFoundError(String),
    FolderHierarchyUnavailable(String),
    InvalidParameterError(String),
}

/// Whether `e` means the credentials no longer work: renewing failed, or the
/// token was still refused (a `401`) after a renewal.
pub open spec fn spec_is_authentication_failure(e: ApiError) -> bool {
    match e {
        ApiError::AuthError(_) | ApiError::InvalidToken | ApiError::MissingCredentials => true,
        ApiError::RetryFailed(m) => spec_contains(m@, "401"@),
        _ => false,
    }
}

impl ApiError {
    /// Whether this error means the credentials no longer work.
    pub fn is_authentication_failure(&self) -> (r: bool)
        ensures
            r == spec_is_authentication_failure(*self),
    {
        match self {
            ApiError::AuthError(_) | ApiError::InvalidToken | ApiError::MissingCredentials => true,
            ApiError::RetryFailed(m) => contains(m.as_str(), "401"),
            _ => false,
        }
    }
}


/// The exit code of an API error: `NotFound` for a missing resource, a usage
/// error for a bad parameter, a configuration error when the credentials no
/// longer work, `Unavailable` for everything else.
pub open spec fn spec_api_exit_code(e: ApiError) -> PcliExitCode {
    match e {
        ApiError::NotFoundError(_) => PcliExitCode::NotFound,
        ApiError::InvalidParameterError(_) => PcliExitCode::UsageError,
        ApiError::AuthError(_) | ApiError::InvalidToken | ApiError::MissingCredentials
        | ApiError::RetryFailed(_) => PcliExitCode::ConfigError,
        _ => PcliExitCode::Unavailable,
    }
}

impl ApiError {
    /// The exit code that describes this error to a script.
    pub fn exit_code(&self) -> (r: PcliExitCode)
        ensures
            r == spec_api_exit_code(*self),
    {
        match self {
            ApiError::NotFoundError(_) => PcliExitCode::NotFound,
            ApiError::InvalidParameterError(_) => PcliExitCode::UsageError,
            ApiError::AuthError(_) | ApiError::InvalidToken | ApiError::MissingCredentials
            | ApiError::RetryFailed(_) => PcliExitCode::ConfigError,
            _ => PcliExitCode::Unavailable,
        }
    }
}

/// What an API error says, as it is shown to the user.
pub open spec fn spec_api_message(e: ApiError) -> Seq<char> {
    match e {
        ApiError::ConflictError(m) => "Conflict: "@ + m@,
        ApiError::AuthError(m) => "Authentication failed: "@ + m@,
        ApiError::InvalidToken => "The stored access token is not valid"@,
        ApiError::MissingCredentials => "No credentials are stored"@,
        ApiError::HttpStatus { status, message } => "HTTP "@ + decimal(status as nat) + ": "@ + message@,
        ApiError::RetryFailed(m) => m@,
        ApiError::NotFoundError(m) => "Not found: "@ + m@,
        ApiError::FolderHierarchyUnavailable(m) => "Folder hierarchy unavailable: "@ + m@,
        ApiError::InvalidParameterError(m) => "Invalid parameter: "@ + m@,
    }
}

/// `prefix` followed by `rest`.
fn prefixed(prefix: &str, rest: &str) -> (r: String)
    ensures
        r@ == prefix@ + rest@,
{
    let mut s = String::from_str(prefix);
    s.append(rest);
    s
}

impl ApiError {
    /// What this error says, as it is shown to the user.
    pub fn message(&self) -> (r: String)
        ensures
            r@ == spec_api_message(*self),
    {
        match self {
            ApiError::ConflictError(m) => prefixed("Conflict: ", m.as_str()),
            ApiError::AuthError(m) => prefixed("Authentication failed: ", m.as_str()),
            ApiError::InvalidToken => String::from_str("The stored access token is not valid"),
            ApiError::MissingCredentials => String::from_str("No credentials are stored"),
            ApiError::HttpStatus { status, message } => {
                let code = u64_text(*status as u64);
                let mut s = prefixed("HTTP ", code.as_str());
                s.append(": ");
                s.append(message.as_str());
                s
            },
            ApiError::RetryFailed(m) => m.clone(),
            ApiError::NotFoundError(m) => prefixed("Not found: ", m.as_str()),
            ApiError::FolderHierarchyUnavailable(m) => prefixed("Folder hierarchy unavailable: ", m.as_str()),
            ApiError::InvalidParameterError(m) => prefixed("Invalid parameter: ", m.as_str()),
        }
    }
}

/// The ways an action can fail. A failure from another component is held as
/// its message; an API error is held whole, and an I/O error with its kind,
/// since each decides the exit code.
#[derive(Debug, Clone)]
pub enum CliActionError {
    JsonError(String),
    ApiError(ApiError),
    CsvError(String),
    CsvIntoError(String),
    UtfError(String),
    UuidPartsinError(String),
    ConfigurationError(String),
    UnsupportedOutputFormat(String),
    /// Too many per-asset searches failed for the report to be worth presenting.
    IncompleteReport { attempted: usize, failed: usize },
    FormattingError(String),
    MissingRequiredArgument(String),
    TenantNotFound { identifier: String },
    IoError { message: String, kind: IoErrorKind },
    ZipError(String),
    BusinessLogicError(String),
    /// Already reported in full where it was detected; only the exit code is left.
    AlreadyReported(PcliExitCode),
    /// A batch finished, but some of its items failed.
    PartialFailure { failed: usize, total: usize, what: String },
}

/// The exit code that describes `e` to a script.
pub open spec fn spec_action_exit_code(e: CliActionError) -> PcliExitCode {
    match e {
        CliActionError::ApiError(a) => spec_api_exit_code(a),
        CliActionError::JsonError(_) | CliActionError::CsvError(_) | CliActionError::CsvIntoError(
            _,
        ) | CliActionError::UtfError(_) | CliActionError::FormattingError(_)
        | CliActionError::ZipError(_) => PcliExitCode::DataError,
        CliActionError::UuidPartsinError(_) | CliActionError::UnsupportedOutputFormat(_)
        | CliActionError::MissingRequiredArgument(_) | CliActionError::BusinessLogicError(_) =>
            PcliExitCode::UsageError,
        CliActionError::ConfigurationError(_) => PcliExitCode::ConfigError,
        CliActionError::IncompleteReport { .. } | CliActionError::PartialFailure { .. } =>
            PcliExitCode::TempFail,
        CliActionError::TenantNotFound { .. } => PcliExitCode::NotFound,
        CliActionError::IoError { kind, .. } => spec_io_exit_code(kind),
        CliActionError::AlreadyReported(code) => code,
    }
}

impl CliActionError {
    /// The exit code that describes this error to a script.
    pub fn exit_code(&self) -> (r: PcliExitCode)
        ensures
            r == spec_action_exit_code(*self),
    {
        match self {
            CliActionError::ApiError(a) => a.exit_code(),
            CliActionError::JsonError(_) | CliActionError::CsvError(_)
            | CliActionError::CsvIntoError(_) | CliActionError::UtfError(_)
            | CliActionError::FormattingError(_) | CliActionError::ZipError(_) =>
                PcliExitCode::DataError,
            CliActionError::UuidPartsinError(_) | CliActionError::UnsupportedOutputFormat(_)
            | CliActionError::MissingRequiredArgument(_) | CliActionError::BusinessLogicError(_) =>
                PcliExitCode::UsageError,
            CliActionError::ConfigurationError(_) => PcliExitCode::ConfigError,
            CliActionError::IncompleteReport { .. } | CliActionError::PartialFailure { .. } =>
                PcliExitCode::TempFail,
            CliActionError::TenantNotFound { .. } => PcliExitCode::NotFound,
            CliActionError::IoError { kind, .. } => io_exit_code(*kind),
            CliActionError::AlreadyReported(code) => *code,
        }
    }
}


/// What an action error says, as it is shown to the user. An error from
/// another component says what that component's own message says.
pub open spec fn spec_action_message(e: CliActionError) -> Seq<char> {
    match e {
        CliActionError::JsonError(m) => m@,
        CliActionError::ApiError(a) => spec_api_message(a),
        CliActionError::CsvError(m) => m@,
        CliActionError::CsvIntoError(m) => m@,
        CliActionError::UtfError(m) => m@,
        CliActionError::UuidPartsinError(m) => m@,
        CliActionError::ConfigurationError(m) => m@,
        CliActionError::UnsupportedOutputFormat(m) => "ERROR: Unsupported output format: "@ + m@,
        CliActionError::IncompleteReport { attempted, failed } => decimal(failed as nat) + " of "@ + decimal(
            attempted as nat,
        ) + " asset search(es) failed; the report would be incomplete"@,
        CliActionError::FormattingError(m) => m@,
        CliActionError::MissingRequiredArgument(m) => "Missing required argument: "@ + m@,
        CliActionError::TenantNotFound { identifier } => "Tenant not found: "@ + identifier@,
        CliActionError::IoError { message, .. } => "IO error: "@ + message@,
        CliActionError::ZipError(m) => "ZIP error: "@ + m@,
        CliActionError::BusinessLogicError(m) => m@,
        CliActionError::AlreadyReported(_) => seq![],
        CliActionError::PartialFailure { failed, total, what } => decimal(failed as nat) + " of "@ + decimal(
            total as nat,
        ) + " "@ + what@ + " failed"@,
    }
}

/// `n` of `total` with `rest` after them: "<n> of <total><rest>".
fn count_of(n: usize, total: usize, rest: &str) -> (r: String)
    ensures
        r@ == decimal(n as nat) + " of "@ + decimal(total as nat) + rest@,
{
    let mut s = u64_text(n as u64);
    s.append(" of ");
    let t = u64_text(total as u64);
    s.append(t.as_str());
    s.append(rest);
    s
}

impl CliActionError {
    /// What this error says, as it is shown to the user.
    pub fn message(&self) -> (r: String)
        ensures
            r@ == spec_action_message(*self),
    {
        match self {
            CliActionError::JsonError(m) | CliActionError::CsvError(m) | CliActionError::CsvIntoError(m)
            | CliActionError::UtfError(m) | CliActionError::UuidPartsinError(m)
            | CliActionError::ConfigurationError(m) | CliActionError::FormattingError(m)
            | CliActionError::BusinessLogicError(m) => m.clone(),
            CliActionError::ApiError(a) => a.message(),
            CliActionError::UnsupportedOutputFormat(m) => prefixed("ERROR: Unsupported output format: ", m.as_str()),
            CliActionError::IncompleteReport { attempted, failed } => count_of(
                *failed,
                *attempted,
                " asset search(es) failed; the report would be incomplete",
            ),
            CliActionError::MissingRequiredArgument(m) => prefixed("Missing required argument: ", m.as_str()),
            CliActionError::TenantNotFound { identifier } => prefixed("Tenant not found: ", identifier.as_str()),
            CliActionError::IoError { message, .. } => prefixed("IO error: ", message.as_str()),
            CliActionError::ZipError(m) => prefixed("ZIP error: ", m.as_str()),
            CliActionError::AlreadyReported(_) => String::new(),
            CliActionError::PartialFailure { failed, total, what } => {
                let mut rest = String::from_str(" ");
                rest.append(what.as_str());
                rest.append(" failed");
                count_of(*failed, *total, rest.as_str())
            },
        }
    }
}

/// The errors of the commands whose decisions this library makes.
#[derive(Debug, Clone)]
pub enum CliError {
    /// An argument's value cannot be used.
    InvalidArgument(String),
    /// A required argument is missing, or two exclusive ones were both given.
    MissingRequiredArgument(String),
    /// A folder path matched no folder: the path, and the suggestion text.
    FolderNotFound(String, String),
    /// The failure was already reported in full; only the exit code is left.
    AlreadyReported(PcliExitCode),
    /// The API refused or failed a request.
    PhysnaExtendedApiError(ApiError),
    /// A subcommand, or a value naming one, that is not supported.
    UnsupportedSubcommand(String),
    /// The credentials stopped working during an operation.
    SecurityError(String),
    /// An action failed.
    ActionError(CliActionError),
}

/// What a command error says, as it is shown to the user.
pub open spec fn spec_cli_message(e: CliError) -> Seq<char> {
    match e {
        CliError::InvalidArgument(m) | CliError::UnsupportedSubcommand(m) | CliError::SecurityError(m) => m@,
        CliError::MissingRequiredArgument(m) => "Missing required argument: "@ + m@,
        CliError::FolderNotFound(path, suggestions) => "Folder not found: "@ + path@ + suggestions@,
        CliError::AlreadyReported(_) => seq![],
        CliError::PhysnaExtendedApiError(a) => "API error: "@ + spec_api_message(a),
        CliError::ActionError(a) => spec_action_message(a),
    }
}

impl CliError {
    /// The exit code that describes this error to a script.
    pub fn exit_code(&self) -> (r: PcliExitCode)
        ensures
            r == match *self {
                CliError::InvalidArgument(_) | CliError::MissingRequiredArgument(_) | CliError::UnsupportedSubcommand(_) =>
                    PcliExitCode::UsageError,
                CliError::FolderNotFound(..) => PcliExitCode::NotFound,
                CliError::SecurityError(_) => PcliExitCode::ConfigError,
                CliError::AlreadyReported(code) => code,
                CliError::PhysnaExtendedApiError(a) => spec_api_exit_code(a),
                CliError::ActionError(e) => spec_action_exit_code(e),
            },
    {
        match self {
            CliError::InvalidArgument(_) | CliError::MissingRequiredArgument(_) | CliError::UnsupportedSubcommand(_) =>
                PcliExitCode::UsageError,
            CliError::FolderNotFound(..) => PcliExitCode::NotFound,
            CliError::SecurityError(_) => PcliExitCode::ConfigError,
            CliError::AlreadyReported(code) => *code,
            CliError::PhysnaExtendedApiError(a) => a.exit_code(),
            CliError::ActionError(e) => e.exit_code(),
        }
    }

    /// What this error says, as it is shown to the user.
    pub fn message(&self) -> (r: String)
        ensures
            r@ == spec_cli_message(*self),
    {
        match self {
            CliError::InvalidArgument(m) | CliError::UnsupportedSubcommand(m) | CliError::SecurityError(m) => m.clone(),
            CliError::MissingRequiredArgument(m) => prefixed("Missing required argument: ", m.as_str()),
            CliError::FolderNotFound(path, suggestions) => {
                let mut s = prefixed("Folder not found: ", path.as_str());
                s.append(suggestions.as_str());
                s
            },
            CliError::AlreadyReported(_) => String::new(),
            CliError::PhysnaExtendedApiError(a) => {
                let m = a.message();
                prefixed("API error: ", m.as_str())
            },
            CliError::ActionError(a) => a.message(),
        }
    }
}

} // verus!
