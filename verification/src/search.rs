//! Folder match runs: how a failed search is classified, when a run stops
//! for lost credentials, and what a run's outcome means for its report.

use vstd::prelude::*;
use crate::errors::{ApiError, CliError, PcliExitCode, spec_is_authentication_failure};
use crate::text::{human_count, group_thousands, decimal, seq_join, views, join};

verus! {

/// Why a per-asset search contributed no matches to a folder match report.
#[derive(Debug, Clone, Copy, PartialEq, Eq, Structural)]
pub enum SearchFailure {
    /// The asset cannot be searched in its current state: a property of the data.
    NotSearchable,
    /// Anything else: the run did not do what it was asked to do.
    Operational,
    /// Never attempted, because the run had already given up.
    Aborted,
}

impl SearchFailure {
    /// Classify a failed search: a `409 Conflict` is an unsearchable asset,
    /// anything else is operational, so that an unforeseen failure is loud.
    pub fn classify(error: &ApiError) -> (r: SearchFailure)
        ensures
            r == (if error is ConflictError {
                SearchFailure::NotSearchable
            } else {
                SearchFailure::Operational
            }),
    {
        match error {
            ApiError::ConflictError(_) => SearchFailure::NotSearchable,
            _ => SearchFailure::Operational,
        }
    }
}

/// How many authentication failures in a row end a run.
pub const CONSECUTIVE_AUTH_FAILURES_BEFORE_STOP: usize = 3;

/// Shared stop signal of a folder match run: the current run of consecutive
/// authentication failures, and whether the run has stopped.
#[derive(Debug)]
pub struct SearchAbort {
    consecutive_auth_failures: usize,
    stopped: bool,
}

impl View for SearchAbort {
    type V = (nat, bool);

    closed spec fn view(&self) -> (nat, bool) {
        (self.consecutive_auth_failures as nat, self.stopped)
    }
}

/// The count after one more failure, wrapping as an atomic counter does.
pub open spec fn next_count(c: nat) -> nat {
    if c == usize::MAX {
        0
    } else {
        c + 1
    }
}

/// A search outcome as the stop signal sees it.
pub enum AbortEvent {
    Success,
    AuthFailure,
}

/// The stop signal after `e`, and whether `e` is the failure that stopped the run.
pub open spec fn abort_step(s: (nat, bool), e: AbortEvent) -> ((nat, bool), bool) {
    match e {
        AbortEvent::Success => ((0, s.1), false),
        AbortEvent::AuthFailure => {
            let c = next_count(s.0);
            if c < CONSECUTIVE_AUTH_FAILURES_BEFORE_STOP {
                ((c, s.1), false)
            } else {
                ((c, true), !s.1)
            }
        },
    }
}

impl SearchAbort {
    /// A run that has neither failed nor stopped.
    pub fn new() -> (r: SearchAbort)
        ensures
            r@ == (0nat, false),
    {
        SearchAbort { consecutive_auth_failures: 0, stopped: false }
    }

    pub fn is_stopped(&self) -> (r: bool)
        ensures
            r == self@.1,
    {
        self.stopped
    }

    /// Note that a search succeeded, so renewal works and earlier failures were
    /// transient.
    pub fn record_success(&mut self)
        ensures
            final(self)@ == abort_step(old(self)@, AbortEvent::Success).0,
    {
        self.consecutive_auth_failures = 0;
    }

    /// Note an authentication failure. True only for the failure that stops
    /// the run, which is the one that should explain why.
    pub fn record_auth_failure(&mut self) -> (r: bool)
        ensures
            (final(self)@, r) == abort_step(old(self)@, AbortEvent::AuthFailure),
    {
        let consecutive = if self.consecutive_auth_failures == usize::MAX {
            0
        } else {
            self.consecutive_auth_failures + 1
        };
        self.consecutive_auth_failures = consecutive;
        if consecutive < CONSECUTIVE_AUTH_FAILURES_BEFORE_STOP {
            return false;
        }
        let was_stopped = self.stopped;
        self.stopped = true;
        !was_stopped
    }

    /// What a task reports about a failed search: a stop when this failure
    /// stops the run, a warning while the run goes on, nothing once stopped.
    pub fn on_search_error(&mut self, error: &ApiError) -> (r: SearchErrorReport)
        ensures
            spec_is_authentication_failure(*error) ==> {
                let (s, stopping) = abort_step(old(self)@, AbortEvent::AuthFailure);
                &&& final(self)@ == s
                &&& r == if stopping {
                    SearchErrorReport::Stop
                } else if s.1 {
                    SearchErrorReport::Silent
                } else {
                    SearchErrorReport::Warn
                }
            },
            !spec_is_authentication_failure(*error) ==> {
                &&& final(self)@ == old(self)@
                &&& r == if old(self)@.1 {
                    SearchErrorReport::Silent
                } else {
                    SearchErrorReport::Warn
                }
            },
    {
        let stopping = error.is_authentication_failure() && self.record_auth_failure();
        if stopping {
            SearchErrorReport::Stop
        } else if !self.is_stopped() {
            SearchErrorReport::Warn
        } else {
            SearchErrorReport::Silent
        }
    }
}

/// The stop signal after a run of events from `s`, and how many of them
/// announced the stop.
pub open spec fn abort_run(s: (nat, bool), events: Seq<AbortEvent>) -> ((nat, bool), nat)
    decreases events.len(),
{
    if events.len() == 0 {
        (s, 0)
    } else {
        let (mid, n) = abort_run(s, events.drop_last());
        let (next, stops) = abort_step(mid, events.last());
        (next, if stops {
            n + 1
        } else {
            n
        })
    }
}

/// Whatever happens, the stop is announced at most once, and not at all when
/// the run had already stopped; a stopped run stays stopped.
pub proof fn lemma_stop_announced_at_most_once(s: (nat, bool), events: Seq<AbortEvent>)
    ensures
        abort_run(s, events).1 <= 1,
        s.1 ==> abort_run(s, events).1 == 0,
        abort_run(s, events).0.1 == (s.1 || abort_run(s, events).1 == 1),
    decreases events.len(),
{
    if events.len() > 0 {
        lemma_stop_announced_at_most_once(s, events.drop_last());
    }
}

/// The number of authentication failures at the end of `events`.
pub open spec fn trailing_failures(events: Seq<AbortEvent>) -> nat
    decreases events.len(),
{
    if events.len() > 0 && events.last() is AuthFailure {
        trailing_failures(events.drop_last()) + 1
    } else {
        0
    }
}

/// `events` hold three authentication failures in a row.
pub open spec fn has_three_in_a_row(events: Seq<AbortEvent>) -> bool {
    exists|i: int| #[trigger] three_end_at(events, i)
}

/// Events `i - 2`, `i - 1` and `i` are all authentication failures.
pub open spec fn three_end_at(events: Seq<AbortEvent>, i: int) -> bool {
    2 <= i < events.len() && events[i] is AuthFailure && events[i - 1] is AuthFailure
        && events[i - 2] is AuthFailure
}

proof fn lemma_trailing_two(events: Seq<AbortEvent>)
    ensures
        trailing_failures(events) >= 2 <==> (events.len() >= 2 && events[events.len() - 1] is AuthFailure
            && events[events.len() - 2] is AuthFailure),
{
    reveal_with_fuel(trailing_failures, 2);
    if events.len() > 0 && events.last() is AuthFailure {
        let d = events.drop_last();
        if d.len() > 0 {
            assert(d.last() == events[events.len() - 2]);
        }
    }
}

/// Three failures in a row, found by reading the events in order.
spec fn ran_three(events: Seq<AbortEvent>) -> bool
    decreases events.len(),
{
    if events.len() == 0 {
        false
    } else {
        ran_three(events.drop_last()) || (events.last() is AuthFailure && trailing_failures(
            events.drop_last(),
        ) >= 2)
    }
}

proof fn lemma_ran_three(events: Seq<AbortEvent>)
    ensures
        ran_three(events) == has_three_in_a_row(events),
    decreases events.len(),
{
    if events.len() > 0 {
        let d = events.drop_last();
        lemma_ran_three(d);
        lemma_trailing_two(d);
        if has_three_in_a_row(d) {
            let i = choose|i: int| #[trigger] three_end_at(d, i);
            assert(three_end_at(events, i));
        }
        if has_three_in_a_row(events) && !has_three_in_a_row(d) {
            let i = choose|i: int| #[trigger] three_end_at(events, i);
            if i < d.len() {
                assert(three_end_at(d, i));
            }
        }
        if events.last() is AuthFailure && trailing_failures(d) >= 2 {
            assert(three_end_at(events, events.len() - 1));
        }
    }
}

proof fn lemma_fresh_run(events: Seq<AbortEvent>)
    requires
        events.len() < usize::MAX,
    ensures
        abort_run((0, false), events).0.0 == trailing_failures(events),
        abort_run((0, false), events).0.1 == ran_three(events),
    decreases events.len(),
{
    if events.len() > 0 {
        let d = events.drop_last();
        lemma_fresh_run(d);
        lemma_trailing_bounded(d);
    }
}

/// From a fresh signal, the count is the run of failures at the end, and the
/// run has stopped exactly when three authentication failures came in a row:
/// a success in between always resets the count.
pub proof fn lemma_stops_exactly_on_three_in_a_row(events: Seq<AbortEvent>)
    requires
        events.len() < usize::MAX,
    ensures
        abort_run((0, false), events).0.0 == trailing_failures(events),
        abort_run((0, false), events).0.1 == has_three_in_a_row(events),
{
    lemma_fresh_run(events);
    lemma_ran_three(events);
}

/// From a fresh signal, however long the run: it has stopped exactly when it
/// has seen three failures in a row, and until then the count is the run of
/// failures at its end, below three.
proof fn lemma_stopped_run(events: Seq<AbortEvent>)
    ensures
        abort_run((0, false), events).0.1 == ran_three(events),
        !ran_three(events) ==> abort_run((0, false), events).0.0 == trailing_failures(events)
            && trailing_failures(events) < 3,
    decreases events.len(),
{
    if events.len() > 0 {
        lemma_stopped_run(events.drop_last());
    }
}

/// From a fresh signal, whatever the number of events, the run has stopped
/// exactly when three authentication failures came in a row.
pub proof fn lemma_stopped_exactly_after_three_in_a_row(events: Seq<AbortEvent>)
    ensures
        abort_run((0, false), events).0.1 == has_three_in_a_row(events),
{
    lemma_stopped_run(events);
    lemma_ran_three(events);
}

/// Over any run of events from a fresh signal, the failure at position `i`
/// is the one that announces the stop exactly when it completes the first
/// three authentication failures in a row; before it the run has not
/// stopped, and from it on the run stays stopped.
pub proof fn lemma_the_first_third_failure_announces(events: Seq<AbortEvent>, i: int)
    requires
        0 <= i < events.len(),
    ensures
        abort_step(abort_run((0, false), events.take(i)).0, events[i]).1 == (three_end_at(events, i)
            && !has_three_in_a_row(events.take(i))),
        abort_run((0, false), events.take(i + 1)).0 == abort_step(
            abort_run((0, false), events.take(i)).0,
            events[i],
        ).0,
        abort_run((0, false), events.take(i)).0.1 == has_three_in_a_row(events.take(i)),
{
    let pre = events.take(i);
    let one = events.take(i + 1);
    assert(one.drop_last() =~= pre);
    assert(one.last() == events[i]);
    lemma_stopped_exactly_after_three_in_a_row(pre);
    lemma_stopped_run(pre);
    lemma_trailing_two(pre);
    if pre.len() >= 2 {
        assert(pre[pre.len() - 1] == events[i - 1]);
        assert(pre[pre.len() - 2] == events[i - 2]);
    }
}

proof fn lemma_trailing_bounded(events: Seq<AbortEvent>)
    ensures
        trailing_failures(events) <= events.len(),
    decreases events.len(),
{
    if events.len() > 0 {
        lemma_trailing_bounded(events.drop_last());
    }
}

/// What a task prints about its failed search.
#[derive(Debug, Clone, Copy, PartialEq, Eq, Structural)]
pub enum SearchErrorReport {
    /// This failure stops the run: explain why, once.
    Stop,
    /// Warn about this asset.
    Warn,
    /// Say nothing: the run has stopped and said why.
    Silent,
}

/// Running tally of per-asset search outcomes across a folder match run.
#[derive(Debug, Clone, Copy)]
pub struct SearchOutcomes {
    attempted: usize,
    not_searchable: usize,
    operational: usize,
    aborted: usize,
}

/// The tally as the contracts see it: attempted, not searchable,
/// operational, aborted.
pub struct Tally {
    pub attempted: nat,
    pub not_searchable: nat,
    pub operational: nat,
    pub aborted: nat,
}

impl View for SearchOutcomes {
    type V = Tally;

    closed spec fn view(&self) -> Tally {
        Tally {
            attempted: self.attempted as nat,
            not_searchable: self.not_searchable as nat,
            operational: self.operational as nat,
            aborted: self.aborted as nat,
        }
    }
}

/// Every failure is one attempted search.
pub open spec fn tally_wf(t: Tally) -> bool {
    t.not_searchable + t.operational + t.aborted <= t.attempted
}

pub open spec fn tally_failed(t: Tally) -> nat {
    t.not_searchable + t.operational + t.aborted
}

pub open spec fn tally_incomplete(t: Tally) -> nat {
    t.operational + t.aborted
}

/// More than a tenth of the attempted searches could not be completed, or
/// the run gave up on some: the report is not a result.
pub open spec fn tally_materially_incomplete(t: Tally) -> bool {
    t.aborted > 0 || (t.attempted > 0 && 10 * tally_incomplete(t) > t.attempted)
}

/// The tally after one more search.
pub open spec fn tally_record(t: Tally, failure: Option<SearchFailure>) -> Tally {
    let a = t.attempted + 1;
    match failure {
        Some(SearchFailure::NotSearchable) => Tally {
            attempted: a,
            not_searchable: t.not_searchable + 1,
            operational: t.operational,
            aborted: t.aborted,
        },
        Some(SearchFailure::Operational) => Tally {
            attempted: a,
            not_searchable: t.not_searchable,
            operational: t.operational + 1,
            aborted: t.aborted,
        },
        Some(SearchFailure::Aborted) => Tally {
            attempted: a,
            not_searchable: t.not_searchable,
            operational: t.operational,
            aborted: t.aborted + 1,
        },
        None => Tally {
            attempted: a,
            not_searchable: t.not_searchable,
            operational: t.operational,
            aborted: t.aborted,
        },
    }
}

pub open spec fn reason(n: nat, what: Seq<char>) -> Seq<Seq<char>> {
    if n > 0 {
        seq![group_thousands(decimal(n)) + what]
    } else {
        seq![]
    }
}

/// The one-line account of a run that had failures, or `None` for a clean run.
pub open spec fn spec_summary(t: Tally) -> Option<Seq<char>> {
    if tally_failed(t) == 0 {
        None
    } else {
        let reasons = reason(t.operational, " failed"@) + reason(t.aborted, " not attempted"@) + reason(
            t.not_searchable,
            " not searchable"@,
        );
        Some(
            "Searched "@ + group_thousands(decimal((t.attempted - tally_failed(t)) as nat)) + " of "@
                + group_thousands(decimal(t.attempted)) + " asset(s): "@ + seq_join(reasons, ", "@),
        )
    }
}

impl SearchOutcomes {
    #[verifier::type_invariant]
    spec fn well_formed(self) -> bool {
        self.not_searchable + self.operational + self.aborted <= self.attempted
    }

    /// A tally of no searches.
    pub fn new() -> (r: SearchOutcomes)
        ensures
            r@ == (Tally { attempted: 0, not_searchable: 0, operational: 0, aborted: 0 }),
    {
        SearchOutcomes { attempted: 0, not_searchable: 0, operational: 0, aborted: 0 }
    }

    /// Count one more search and how it failed, if it did.
    pub fn record(&mut self, failure: Option<SearchFailure>)
        requires
            old(self)@.attempted < usize::MAX,
        ensures
            final(self)@ == tally_record(old(self)@, failure),
            tally_wf(final(self)@),
    {
        proof {
            use_type_invariant(&*self);
        }
        let attempted = self.attempted + 1;
        match failure {
            Some(SearchFailure::NotSearchable) => {
                *self = SearchOutcomes { attempted, not_searchable: self.not_searchable + 1, ..*self };
            },
            Some(SearchFailure::Operational) => {
                *self = SearchOutcomes { attempted, operational: self.operational + 1, ..*self };
            },
            Some(SearchFailure::Aborted) => {
                *self = SearchOutcomes { attempted, aborted: self.aborted + 1, ..*self };
            },
            None => {
                *self = SearchOutcomes { attempted, ..*self };
            },
        }
    }

    /// Searches attempted; every failure counted is one of them.
    pub fn attempted(&self) -> (r: usize)
        ensures
            r == self@.attempted,
            tally_wf(self@),
    {
        proof {
            use_type_invariant(self);
        }
        self.attempted
    }

    /// Searches that failed, for any reason.
    pub fn failed(&self) -> (r: usize)
        ensures
            r == tally_failed(self@),
    {
        proof {
            use_type_invariant(self);
        }
        self.not_searchable + self.operational + self.aborted
    }

    /// Searches that succeeded.
    pub fn succeeded(&self) -> (r: usize)
        ensures
            r == self@.attempted - tally_failed(self@),
    {
        proof {
            use_type_invariant(self);
        }
        self.attempted - self.failed()
    }

    /// Searches the run should have completed but did not, for reasons about
    /// the run rather than the data; an aborted search counts.
    pub fn incomplete(&self) -> (r: usize)
        ensures
            r == tally_incomplete(self@),
    {
        proof {
            use_type_invariant(self);
        }
        self.operational + self.aborted
    }

    /// Whether the shortfall is too severe for the report to be presented as
    /// a result: any aborted search, or more than a tenth incomplete.
    pub fn is_materially_incomplete(&self) -> (r: bool)
        ensures
            r == tally_materially_incomplete(self@),
    {
        proof {
            use_type_invariant(self);
        }
        let incomplete = self.incomplete() as u128;
        self.aborted > 0 || (self.attempted > 0 && 10 * incomplete > self.attempted as u128)
    }

    /// One line on what the run managed to search, or `None` when everything
    /// succeeded.
    pub fn summary(&self) -> (r: Option<String>)
        ensures
            match r {
                Some(s) => spec_summary(self@) == Some(s@),
                None => spec_summary(self@) is None,
            },
    {
        proof {
            use_type_invariant(self);
        }
        if self.failed() == 0 {
            return None;
        }
        let mut reasons: Vec<String> = Vec::new();
        let ghost t = self@;
        if self.operational > 0 {
            let mut s = human_count(self.operational as u64);
            s.append(" failed");
            reasons.push(s);
        }
        if self.aborted > 0 {
            let mut s = human_count(self.aborted as u64);
            s.append(" not attempted");
            reasons.push(s);
        }
        if self.not_searchable > 0 {
            let mut s = human_count(self.not_searchable as u64);
            s.append(" not searchable");
            reasons.push(s);
        }
        assert(views(reasons@) =~= reason(t.operational, " failed"@) + reason(t.aborted, " not attempted"@)
            + reason(t.not_searchable, " not searchable"@));
        let mut out = String::from_str("Searched ");
        let done = human_count(self.succeeded() as u64);
        out.append(done.as_str());
        out.append(" of ");
        let all = human_count(self.attempted as u64);
        out.append(all.as_str());
        out.append(" asset(s): ");
        let listed = join(&reasons, ", ");
        out.append(listed.as_str());
        Some(out)
    }
}

/// A run too incomplete to present as a result: what to report, already
/// worded, before failing with a temporary-failure exit code.
#[derive(Debug, Clone)]
pub struct IncompleteSearch {
    pub message: String,
}

/// What to try after a run that searched too little.
pub open spec fn incomplete_remediation() -> Seq<Seq<char>> {
    seq![
        "Check that you are still logged in ('pcli2 auth login')"@,
        "Check your network connection and retry"@,
        "Re-run with --verbose to see why the individual searches failed"@,
    ]
}

impl IncompleteSearch {
    /// The steps shown under the error, one per line.
    pub fn remediation(&self) -> (r: Vec<String>)
        ensures
            views(r@) == incomplete_remediation(),
    {
        let mut r: Vec<String> = Vec::new();
        r.push(String::from_str("Check that you are still logged in ('pcli2 auth login')"));
        r.push(String::from_str("Check your network connection and retry"));
        r.push(String::from_str("Re-run with --verbose to see why the individual searches failed"));
        proof {
            reveal_strlit("Check that you are still logged in ('pcli2 auth login')");
            reveal_strlit("Check your network connection and retry");
            reveal_strlit("Re-run with --verbose to see why the individual searches failed");
        }
        assert(views(r@) =~= incomplete_remediation());
        r
    }

    /// The error a run ends with once this has been reported.
    pub fn into_error(self) -> (r: CliError)
        ensures
            r == CliError::AlreadyReported(PcliExitCode::TempFail),
    {
        CliError::AlreadyReported(PcliExitCode::TempFail)
    }
}

/// What to do with a run's outcome: nothing for a clean run; a warning with
/// the summary for a run that is degraded but complete enough; for a
/// materially incomplete run, the summary with " - the report would be
/// incomplete", to be reported as an error.
pub fn finish_search_outcomes(outcomes: &SearchOutcomes) -> (r: Result<Option<String>, IncompleteSearch>)
    ensures
        match spec_summary(outcomes@) {
            None => r == Ok::<Option<String>, IncompleteSearch>(None),
            Some(s) => if tally_materially_incomplete(outcomes@) {
                r matches Err(e) && e.message@ == s + " - the report would be incomplete"@
            } else {
                r matches Ok(Some(w)) && w@ == s
            },
        },
{
    match outcomes.summary() {
        None => Ok(None),
        Some(summary) => {
            if outcomes.is_materially_incomplete() {
                let mut message = summary;
                message.append(" - the report would be incomplete");
                Err(IncompleteSearch { message })
            } else {
                Ok(Some(summary))
            }
        },
    }
}

/// Unsearchable assets alone never fail a run, however many there are: only
/// searches that failed operationally or were never attempted count against it.
pub proof fn lemma_unsearchable_alone_never_fails(t: Tally)
    requires
        t.operational == 0,
        t.aborted == 0,
    ensures
        !tally_materially_incomplete(t),
{
}

/// A run that gave up on any search always fails, however few it skipped.
pub proof fn lemma_an_abort_always_fails(t: Tally)
    requires
        t.aborted > 0,
    ensures
        tally_materially_incomplete(t),
{
}

/// A run with failures always says so, whatever its exit status; a clean run
/// says nothing.
pub proof fn lemma_failures_are_always_reported(t: Tally)
    ensures
        spec_summary(t) is Some <==> tally_failed(t) > 0,
{
}

/// Exactly a tenth of the searches lost is tolerated; one more is not.
pub proof fn lemma_threshold_is_exclusive(attempted: nat, lost: nat)
    requires
        attempted > 0,
        10 * lost == attempted,
    ensures
        !tally_materially_incomplete(Tally { attempted, not_searchable: 0, operational: lost, aborted: 0 }),
        tally_materially_incomplete(Tally { attempted, not_searchable: 0, operational: lost + 1, aborted: 0 }),
{
}

/// The tally after recording each of `failures` in turn.
pub open spec fn tally_run(t: Tally, failures: Seq<Option<SearchFailure>>) -> Tally
    decreases failures.len(),
{
    if failures.len() == 0 {
        t
    } else {
        tally_record(tally_run(t, failures.drop_last()), failures.last())
    }
}

/// How many of `failures` are `f`.
pub open spec fn count_of(failures: Seq<Option<SearchFailure>>, f: Option<SearchFailure>) -> nat
    decreases failures.len(),
{
    if failures.len() == 0 {
        0
    } else {
        count_of(failures.drop_last(), f) + if failures.last() == f {
            1nat
        } else {
            0nat
        }
    }
}

/// From an empty tally, any run of recorded searches counts each search once
/// as attempted and each failure under its kind; so the failures never exceed
/// the searches attempted, the succeeded and failed searches add up to the
/// attempted ones, and the incomplete ones are the operational and aborted.
pub proof fn lemma_tally_counts_every_search(failures: Seq<Option<SearchFailure>>)
    ensures
        ({
            let t = tally_run(Tally { attempted: 0, not_searchable: 0, operational: 0, aborted: 0 }, failures);
            &&& t.attempted == failures.len()
            &&& t.not_searchable == count_of(failures, Some(SearchFailure::NotSearchable))
            &&& t.operational == count_of(failures, Some(SearchFailure::Operational))
            &&& t.aborted == count_of(failures, Some(SearchFailure::Aborted))
            &&& tally_failed(t) <= t.attempted
            &&& (t.attempted - tally_failed(t)) + tally_failed(t) == t.attempted
            &&& tally_incomplete(t) == t.operational + t.aborted
        }),
    decreases failures.len(),
{
    if failures.len() > 0 {
        lemma_tally_counts_every_search(failures.drop_last());
        lemma_counts_bounded(failures);
    }
}

proof fn lemma_counts_bounded(failures: Seq<Option<SearchFailure>>)
    ensures
        count_of(failures, Some(SearchFailure::NotSearchable)) + count_of(failures, Some(SearchFailure::Operational))
            + count_of(failures, Some(SearchFailure::Aborted)) <= failures.len(),
    decreases failures.len(),
{
    if failures.len() > 0 {
        lemma_counts_bounded(failures.drop_last());
    }
}

} // verus!
