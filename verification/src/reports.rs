//! Report commands: report states, the file a report is saved under,
//! waiting for a report, and the folders a new report covers.

use vstd::prelude::*;
use crate::errors::{CliError, CliActionError, PcliExitCode};
use crate::paths::{is_root_path, spec_is_root};
use crate::text::{chars_of, string_of, trim, spec_trim, decimal, u64_text, views, drop_leading, drop_trailing};

verus! {

/// Where a report job stands.
#[derive(Debug, Clone, Copy, PartialEq, Eq, Structural)]
pub enum JobStatus {
    Pending,
    Running,
    Completed,
    Failed,
    Cancelled,
}

/// The name a job state is shown by.
pub open spec fn spec_status_name(s: JobStatus) -> Seq<char> {
    match s {
        JobStatus::Pending => "PENDING"@,
        JobStatus::Running => "RUNNING"@,
        JobStatus::Completed => "COMPLETED"@,
        JobStatus::Failed => "FAILED"@,
        JobStatus::Cancelled => "CANCELLED"@,
    }
}

impl JobStatus {
    /// The name the state is shown by.
    pub fn as_str(&self) -> (r: &'static str)
        ensures
            r@ == spec_status_name(*self),
    {
        match self {
            JobStatus::Pending => "PENDING",
            JobStatus::Running => "RUNNING",
            JobStatus::Completed => "COMPLETED",
            JobStatus::Failed => "FAILED",
            JobStatus::Cancelled => "CANCELLED",
        }
    }

    /// Whether the job has ended, well or not.
    pub fn is_terminal(&self) -> (r: bool)
        ensures
            r == (*self == JobStatus::Completed || *self == JobStatus::Failed || *self == JobStatus::Cancelled),
    {
        match self {
            JobStatus::Completed | JobStatus::Failed | JobStatus::Cancelled => true,
            JobStatus::Pending | JobStatus::Running => false,
        }
    }
}

/// A character that cannot stand in a file name: a path separator, one of
/// `:*?"<>|`, or a control character (Unicode's `Cc` category).
pub open spec fn unsafe_in_file_name(c: char) -> bool {
    ||| c == '/' || c == '\\' || c == ':' || c == '*' || c == '?' || c == '"' || c == '<' || c == '>' || c == '|'
    ||| '\u{0}' <= c <= '\u{1F}'
    ||| '\u{7F}' <= c <= '\u{9F}'
}

pub open spec fn file_name_char(c: char) -> char {
    if unsafe_in_file_name(c) {
        '_'
    } else {
        c
    }
}

pub open spec fn is_dot() -> spec_fn(char) -> bool {
    |c: char| c == '.'
}

/// What a report is shown as: its name, or its id when it has none.
pub open spec fn spec_display_name(name: Option<Seq<char>>, id: Seq<char>) -> Seq<char> {
    match name {
        Some(n) => n,
        None => id,
    }
}

/// The file name a report is saved under by default: its shown name with
/// every awkward character replaced by `_`, trimmed of white space and then
/// of dots; its id when nothing is left.
pub open spec fn spec_safe_file_stem(name: Option<Seq<char>>, id: Seq<char>) -> Seq<char> {
    let mapped = spec_display_name(name, id).map_values(|c: char| file_name_char(c));
    let stem = drop_trailing(drop_leading(spec_trim(mapped), is_dot()), is_dot());
    if stem.len() == 0 {
        id
    } else {
        stem
    }
}

pub open spec fn opt_str(o: Option<&str>) -> Option<Seq<char>> {
    match o {
        Some(s) => Some(s@),
        None => None,
    }
}

fn dot_bounds(v: &Vec<char>) -> (r: (usize, usize))
    ensures
        r.0 <= r.1 <= v.len(),
        v@.subrange(r.0 as int, r.1 as int) == drop_trailing(drop_leading(v@, is_dot()), is_dot()),
{
    let n = v.len();
    let mut i: usize = 0;
    assert(v@.subrange(0, n as int) =~= v@);
    while i < n && v[i] == '.'
        invariant
            i <= n == v.len(),
            drop_leading(v@, is_dot()) == drop_leading(v@.subrange(i as int, n as int), is_dot()),
        decreases n - i,
    {
        assert(v@.subrange(i as int, n as int).drop_first() =~= v@.subrange(i + 1, n as int));
        i = i + 1;
    }
    let ghost lead = v@.subrange(i as int, n as int);
    assert(drop_leading(lead, is_dot()) == lead) by {
        if lead.len() > 0 {
            assert(lead[0] == v@[i as int]);
        }
    }
    let mut j: usize = n;
    assert(lead.subrange(0, (n - i) as int) =~= lead);
    while j > i && v[j - 1] == '.'
        invariant
            i <= j <= n == v.len(),
            lead == v@.subrange(i as int, n as int),
            drop_trailing(lead, is_dot()) == drop_trailing(v@.subrange(i as int, j as int), is_dot()),
        decreases j - i,
    {
        assert(v@.subrange(i as int, j as int).drop_last() =~= v@.subrange(i as int, j - 1));
        j = j - 1;
    }
    let ghost t = v@.subrange(i as int, j as int);
    assert(drop_trailing(t, is_dot()) == t) by {
        if t.len() > 0 {
            assert(t.last() == v@[j - 1]);
        }
    }
    (i, j)
}

/// A file name a report can be saved under: its name, or its id, with every
/// path separator and other awkward character replaced.
pub fn safe_file_stem(name: Option<&str>, id: &str) -> (r: String)
    ensures
        r@ == spec_safe_file_stem(opt_str(name), id@),
{
    let shown = match name {
        Some(n) => n,
        None => id,
    };
    let v = chars_of(shown);
    let mut mapped: Vec<char> = Vec::new();
    let n = v.len();
    for i in 0..n
        invariant
            n == v.len(),
            mapped@ == v@.take(i as int).map_values(|c: char| file_name_char(c)),
    {
        let c = v[i];
        let unsafe_char = c == '/' || c == '\\' || c == ':' || c == '*' || c == '?' || c == '"' || c == '<' || c
            == '>' || c == '|' || ('\u{0}' <= c && c <= '\u{1F}') || ('\u{7F}' <= c && c <= '\u{9F}');
        mapped.push(if unsafe_char {
            '_'
        } else {
            c
        });
        assert(mapped@ =~= v@.take(i + 1).map_values(|c: char| file_name_char(c)));
    }
    assert(v@.take(n as int) =~= v@);
    let mapped_text = string_of(mapped.as_slice());
    let trimmed = trim(mapped_text.as_str());
    let t = chars_of(trimmed.as_str());
    let (a, b) = dot_bounds(&t);
    if a == b {
        String::from_str(id)
    } else {
        string_of(&t.as_slice()[a..b])
    }
}

/// What `report download` may do with a report in a given state.
#[derive(Debug, Clone, Copy, PartialEq, Eq, Structural)]
pub enum DownloadReadiness {
    /// Completed: its data can be downloaded.
    Ready,
    /// Still pending or running: try again later (a temporary failure).
    NotYet,
    /// Failed or cancelled: there is nothing to download.
    NothingToDownload,
}

pub fn download_readiness(status: JobStatus) -> (r: DownloadReadiness)
    ensures
        r == match status {
            JobStatus::Completed => DownloadReadiness::Ready,
            JobStatus::Pending | JobStatus::Running => DownloadReadiness::NotYet,
            JobStatus::Failed | JobStatus::Cancelled => DownloadReadiness::NothingToDownload,
        },
{
    match status {
        JobStatus::Completed => DownloadReadiness::Ready,
        JobStatus::Pending | JobStatus::Running => DownloadReadiness::NotYet,
        JobStatus::Failed | JobStatus::Cancelled => DownloadReadiness::NothingToDownload,
    }
}

/// Consecutive failed polls after which waiting for a report gives up.
pub const POLL_FAILURE_THRESHOLD: u32 = 3;

/// What happened to one poll of a report being waited for.
#[derive(Debug, Clone, Copy, PartialEq, Eq, Structural)]
pub enum PollEvent {
    /// The report was fetched.
    Fetched,
    /// The credentials were refused.
    CredentialFailure,
    /// Any other failure.
    OtherFailure,
}

/// What to do after a poll.
#[derive(Debug, Clone, Copy, PartialEq, Eq, Structural)]
pub enum PollAction {
    /// Carry on with the report fetched.
    Carry,
    /// Warn about failed poll `attempt` and poll again.
    Retry { attempt: u32 },
    /// Warn about failed poll `attempt`, the last allowed, and give up with
    /// its error.
    GiveUpAfter { attempt: u32 },
    /// Give up with the poll's error at once.
    GiveUp,
}

/// The consecutive failed polls of a report being waited for.
#[derive(Debug, Clone, Copy)]
pub struct ReportPoll {
    consecutive_failures: u32,
}

impl View for ReportPoll {
    type V = nat;

    closed spec fn view(&self) -> nat {
        self.consecutive_failures as nat
    }
}

impl ReportPoll {
    pub fn new() -> (r: ReportPoll)
        ensures
            r@ == 0,
    {
        ReportPoll { consecutive_failures: 0 }
    }

    #[verifier::type_invariant]
    spec fn below_threshold(self) -> bool {
        self.consecutive_failures < POLL_FAILURE_THRESHOLD
    }

    /// One poll's outcome: a fetched report resets the count; a credential
    /// failure gives up at once; another failure is warned about, and retried
    /// until the third in a row, after which waiting gives up. Giving up
    /// leaves the count as it was, since waiting ends there.
    pub fn on_poll(&mut self, event: PollEvent) -> (r: PollAction)
        ensures
            match event {
                PollEvent::Fetched => r == PollAction::Carry && final(self)@ == 0,
                PollEvent::CredentialFailure => r == PollAction::GiveUp && final(self)@ == old(self)@,
                PollEvent::OtherFailure => if old(self)@ + 1 >= POLL_FAILURE_THRESHOLD {
                    r == PollAction::GiveUpAfter { attempt: (old(self)@ + 1) as u32 } && final(self)@ == old(self)@
                } else {
                    r == PollAction::Retry { attempt: (old(self)@ + 1) as u32 } && final(self)@ == old(self)@ + 1
                },
            },
    {
        proof {
            use_type_invariant(&*self);
        }
        match event {
            PollEvent::Fetched => {
                self.consecutive_failures = 0;
                PollAction::Carry
            },
            PollEvent::CredentialFailure => PollAction::GiveUp,
            PollEvent::OtherFailure => {
                let attempt = self.consecutive_failures + 1;
                if attempt >= POLL_FAILURE_THRESHOLD {
                    PollAction::GiveUpAfter { attempt }
                } else {
                    self.consecutive_failures = attempt;
                    PollAction::Retry { attempt }
                }
            },
        }
    }
}

/// The warning for failed poll `attempt`, before the error's own text.
pub fn poll_failure_warning(attempt: u32, error: &str) -> (r: String)
    ensures
        r@ == "Polling the report failed ("@ + decimal(attempt as nat) + " of 3 in a row): "@ + error@,
{
    let mut m = String::from_str("Polling the report failed (");
    let count = u64_text(attempt as u64);
    m.append(count.as_str());
    m.append(" of 3 in a row): ");
    m.append(error);
    m
}

/// The folders a new duplication report covers, as far as the command line
/// says: a root path (`/`, `/Home`) means the root's own assets, and every
/// other path is a folder to look up.
#[derive(Debug, Clone)]
pub struct ReportFolders {
    /// Whether the root's own assets are included.
    pub include_home: bool,
    /// The folder paths to resolve, in order.
    pub to_resolve: Vec<String>,
    /// Whether a root path turned `include_home` on, which is worth a warning.
    pub root_path_read_as_include_home: bool,
}

/// How a run of folder paths leaves `include_home`, the paths to resolve,
/// and whether a root path turned `include_home` on.
pub open spec fn report_folders(paths: Seq<Seq<char>>, include_home: bool) -> (bool, Seq<Seq<char>>, bool)
    decreases paths.len(),
{
    if paths.len() == 0 {
        (include_home, seq![], false)
    } else {
        let (inc, rest, warned) = report_folders(paths.drop_last(), include_home);
        if spec_is_root(paths.last()) {
            (true, rest, warned || !inc)
        } else {
            (inc, rest.push(paths.last()), warned)
        }
    }
}

/// Sort the `--folder-path` values of a new report into the root and the
/// folders to look up.
pub fn plan_report_folders(folder_paths: &Vec<String>, include_home: bool) -> (r: ReportFolders)
    ensures
        (r.include_home, views(r.to_resolve@), r.root_path_read_as_include_home) == report_folders(
            views(folder_paths@),
            include_home,
        ),
{
    let ghost ps = views(folder_paths@);
    let mut inc = include_home;
    let mut to_resolve: Vec<String> = Vec::new();
    let mut warned = false;
    let n = folder_paths.len();
    for i in 0..n
        invariant
            n == folder_paths.len(),
            ps == views(folder_paths@),
            (inc, views(to_resolve@), warned) == report_folders(ps.take(i as int), include_home),
    {
        assert(ps.take(i + 1).drop_last() =~= ps.take(i as int));
        assert(ps.take(i + 1).last() == folder_paths@[i as int]@);
        if is_root_path(folder_paths[i].as_str()) {
            if !inc {
                warned = true;
            }
            inc = true;
        } else {
            let ghost before = views(to_resolve@);
            to_resolve.push(folder_paths[i].clone());
            assert(views(to_resolve@) =~= before.push(folder_paths@[i as int]@));
        }
    }
    assert(ps.take(n as int) =~= ps);
    ReportFolders { include_home: inc, to_resolve, root_path_read_as_include_home: warned }
}

/// The error a report that was waited for ends with when it did not complete.
pub fn waited_report_outcome(status: JobStatus) -> (r: Result<(), CliError>)
    ensures
        status == JobStatus::Completed ==> r is Ok,
        status != JobStatus::Completed ==> r == Err::<(), CliError>(CliError::AlreadyReported(PcliExitCode::TempFail)),
{
    match status {
        JobStatus::Completed => Ok(()),
        _ => Err(CliError::AlreadyReported(PcliExitCode::TempFail)),
    }
}

/// The file a downloaded report is saved under by default: its safe file
/// stem, a dot, and the file format.
pub fn default_report_file(name: Option<&str>, id: &str, file_format: &str) -> (r: String)
    ensures
        r@ == spec_safe_file_stem(opt_str(name), id@) + "."@ + file_format@,
{
    let mut f = safe_file_stem(name, id);
    f.append(".");
    f.append(file_format);
    f
}

/// The refusal to download a failed or cancelled report.
pub fn nothing_to_download(display_name: &str, status: JobStatus, id: &str) -> (r: CliError)
    ensures
        r matches CliError::ActionError(CliActionError::BusinessLogicError(m)) && m@ == "Report '"@ + display_name@
            + "' is "@ + spec_status_name(status) + "; there is nothing to download. 'report diagnose --id "@ + id@
            + "' explains a failure."@,
{
    let mut m = String::from_str("Report '");
    m.append(display_name);
    m.append("' is ");
    m.append(status.as_str());
    m.append("; there is nothing to download. 'report diagnose --id ");
    m.append(id);
    m.append("' explains a failure.");
    CliError::ActionError(CliActionError::BusinessLogicError(m))
}

/// What `report diagnose` says when it finds no failure record: why, for a
/// failed report; that there is nothing to diagnose, for any other.
pub fn report_not_found_note(status: JobStatus) -> (r: String)
    ensures
        r@ == if status == JobStatus::Failed {
            "No failure record found: the log entry has aged out of retention, or the failure was not logged."@
        } else {
            "No failure record found: the report is "@ + spec_status_name(status)
                + ", not FAILED, so there is nothing to diagnose."@
        },
{
    match status {
        JobStatus::Failed => String::from_str(
            "No failure record found: the log entry has aged out of retention, or the failure was not logged.",
        ),
        other => {
            let mut m = String::from_str("No failure record found: the report is ");
            m.append(other.as_str());
            m.append(", not FAILED, so there is nothing to diagnose.");
            m
        },
    }
}

/// The extensions a report covers, without their leading dots.
pub fn report_extensions(extensions: &Vec<String>) -> (r: Vec<String>)
    ensures
        views(r@) == views(extensions@).map_values(|e: Seq<char>| drop_leading(e, is_dot())),
{
    let mut out: Vec<String> = Vec::new();
    let n = extensions.len();
    for i in 0..n
        invariant
            n == extensions@.len(),
            views(out@) == views(extensions@).take(i as int).map_values(|e: Seq<char>| drop_leading(e, is_dot())),
    {
        let v = chars_of(extensions[i].as_str());
        let m = v.len();
        let mut k: usize = 0;
        assert(v@.skip(0) =~= v@);
        while k < m && v[k] == '.'
            invariant
                k <= m == v@.len(),
                drop_leading(v@, is_dot()) == drop_leading(v@.skip(k as int), is_dot()),
            decreases m - k,
        {
            assert(v@.skip(k as int).drop_first() =~= v@.skip(k + 1));
            k = k + 1;
        }
        let e = string_of(&v.as_slice()[k..m]);
        assert(e@ =~= v@.skip(k as int));
        assert(drop_leading(e@, is_dot()) == e@) by {
            if e@.len() > 0 {
                assert(e@[0] == v@[k as int]);
            }
        }
        assert(views(extensions@)[i as int] == extensions@[i as int]@);
        let ghost before = views(out@);
        out.push(e);
        assert(views(out@) =~= before.push(drop_leading(views(extensions@)[i as int], is_dot())));
        assert(views(extensions@).take(i + 1) =~= views(extensions@).take(i as int).push(views(extensions@)[i as int]));
        assert(views(out@) =~= views(extensions@).take(i + 1).map_values(|e: Seq<char>| drop_leading(e, is_dot())));
    }
    assert(views(extensions@).take(n as int) =~= views(extensions@));
    out
}

/// The error a waited-for report that did not complete is reported with.
pub fn report_ended_message(display_name: &str, status: JobStatus, id: &str) -> (r: String)
    ensures
        r@ == "Report '"@ + display_name@ + "' ended "@ + spec_status_name(status) + ". 'report diagnose --id "@
            + id@ + "' explains a failure."@,
{
    let mut m = String::from_str("Report '");
    m.append(display_name);
    m.append("' ended ");
    m.append(status.as_str());
    m.append(". 'report diagnose --id ");
    m.append(id);
    m.append("' explains a failure.");
    m
}

} // verus!
