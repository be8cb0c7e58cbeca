//! A batch metadata run over the entries of a batch file: what each entry's
//! outcome means for the run, and how the run ends.
//!
//! An entry whose asset cannot be found is skipped with
//! `--continue-on-error` and stops the run otherwise; a failed write always
//! stops it; a refused credential stops it and fails it as a security error.

use vstd::prelude::*;
use crate::errors::CliError;
use crate::text::{decimal, u64_text};

verus! {

/// What became of one entry.
#[derive(Debug, Clone, Copy, PartialEq, Eq, Structural)]
pub enum EntryOutcome {
    /// Its metadata was written.
    Updated,
    /// Its asset could not be looked up; `authentication` when the
    /// credentials were refused.
    LookupFailed { authentication: bool },
    /// Deleting or setting its fields failed; `authentication` when the
    /// credentials were refused.
    WriteFailed { authentication: bool },
}

/// What the run does next.
#[derive(Debug, Clone, Copy, PartialEq, Eq, Structural)]
pub enum NextStep {
    /// Go on with the next entry.
    Next,
    /// Count the entry as skipped and go on.
    SkipEntry,
    /// Stop, failing with the entry's error.
    Stop,
    /// Stop; the run fails as a security error.
    StopForCredentials,
}

/// The counts of a batch metadata run.
#[derive(Debug, Clone, Copy)]
pub struct MetadataBatchRun {
    succeeded: usize,
    failed: usize,
    skipped_missing: usize,
    authentication_failed: bool,
}

/// A run's counts as the contracts see them: succeeded, failed, skipped for
/// a missing asset, and whether the credentials were refused.
pub struct RunCounts {
    pub succeeded: nat,
    pub failed: nat,
    pub skipped_missing: nat,
    pub authentication_failed: bool,
}

impl View for MetadataBatchRun {
    type V = RunCounts;

    closed spec fn view(&self) -> RunCounts {
        RunCounts {
            succeeded: self.succeeded as nat,
            failed: self.failed as nat,
            skipped_missing: self.skipped_missing as nat,
            authentication_failed: self.authentication_failed,
        }
    }
}

/// The run after one more entry, and what it does next.
pub open spec fn run_step(c: RunCounts, outcome: EntryOutcome, continue_on_error: bool) -> (RunCounts, NextStep) {
    match outcome {
        EntryOutcome::Updated => (RunCounts { succeeded: c.succeeded + 1, ..c }, NextStep::Next),
        EntryOutcome::LookupFailed { authentication } => if authentication {
            (RunCounts { failed: c.failed + 1, authentication_failed: true, ..c }, NextStep::StopForCredentials)
        } else if continue_on_error {
            (
                RunCounts { failed: c.failed + 1, skipped_missing: c.skipped_missing + 1, ..c },
                NextStep::SkipEntry,
            )
        } else {
            (RunCounts { failed: c.failed + 1, ..c }, NextStep::Stop)
        },
        EntryOutcome::WriteFailed { authentication } => if authentication {
            (RunCounts { failed: c.failed + 1, authentication_failed: true, ..c }, NextStep::StopForCredentials)
        } else {
            (RunCounts { failed: c.failed + 1, ..c }, NextStep::Stop)
        },
    }
}

impl MetadataBatchRun {
    #[verifier::type_invariant]
    spec fn skips_are_failures(self) -> bool {
        self.skipped_missing <= self.failed
    }

    /// A run before its first entry.
    pub fn new() -> (r: MetadataBatchRun)
        ensures
            r@ == (RunCounts { succeeded: 0, failed: 0, skipped_missing: 0, authentication_failed: false }),
    {
        MetadataBatchRun { succeeded: 0, failed: 0, skipped_missing: 0, authentication_failed: false }
    }

    /// Count one entry's outcome, and say what the run does next.
    pub fn record(&mut self, outcome: EntryOutcome, continue_on_error: bool) -> (r: NextStep)
        requires
            old(self)@.succeeded < usize::MAX,
            old(self)@.failed < usize::MAX,
        ensures
            (final(self)@, r) == run_step(old(self)@, outcome, continue_on_error),
            final(self)@.skipped_missing <= final(self)@.failed,
    {
        proof {
            use_type_invariant(&*self);
        }
        match outcome {
            EntryOutcome::Updated => {
                self.succeeded = self.succeeded + 1;
                NextStep::Next
            },
            EntryOutcome::LookupFailed { authentication } => {
                if authentication {
                    *self = MetadataBatchRun { failed: self.failed + 1, authentication_failed: true, ..*self };
                    NextStep::StopForCredentials
                } else if continue_on_error {
                    *self = MetadataBatchRun {
                        failed: self.failed + 1,
                        skipped_missing: self.skipped_missing + 1,
                        ..*self
                    };
                    NextStep::SkipEntry
                } else {
                    self.failed = self.failed + 1;
                    NextStep::Stop
                }
            },
            EntryOutcome::WriteFailed { authentication } => {
                if authentication {
                    *self = MetadataBatchRun { failed: self.failed + 1, authentication_failed: true, ..*self };
                    NextStep::StopForCredentials
                } else {
                    self.failed = self.failed + 1;
                    NextStep::Stop
                }
            },
        }
    }

    /// Entries whose metadata was written.
    pub fn succeeded(&self) -> (r: usize)
        ensures
            r == self@.succeeded,
    {
        self.succeeded
    }

    /// Entries that failed, skipped ones included.
    pub fn failed(&self) -> (r: usize)
        ensures
            r == self@.failed,
    {
        self.failed
    }

    /// Entries skipped because their asset could not be found.
    pub fn skipped_missing(&self) -> (r: usize)
        ensures
            r == self@.skipped_missing,
            r <= self@.failed,
    {
        proof {
            use_type_invariant(self);
        }
        self.skipped_missing
    }

    /// The line printed when the run stops at an entry: the counts, and for a
    /// missing asset how to skip such entries instead.
    pub fn stopped_line(&self, missing_asset: bool) -> (r: String)
        ensures
            r@ == "Batch operation stopped: "@ + decimal(self@.succeeded) + " successful, "@ + decimal(self@.failed)
                + " failed"@ + if missing_asset {
                " (use --continue-on-error to skip unresolvable asset paths)"@
            } else {
                ""@
            },
    {
        let mut m = String::from_str("Batch operation stopped: ");
        let a = u64_text(self.succeeded as u64);
        m.append(a.as_str());
        m.append(" successful, ");
        let b = u64_text(self.failed as u64);
        m.append(b.as_str());
        m.append(" failed");
        if missing_asset {
            m.append(" (use --continue-on-error to skip unresolvable asset paths)");
        }
        proof {
            reveal_strlit("");
        }
        m
    }

    /// The line printed when the run is over, with progress shown or after
    /// any failure; `None` otherwise.
    pub fn completed_line(&self, show_progress: bool) -> (r: Option<String>)
        ensures
            (show_progress || self@.failed > 0) ==> (r matches Some(m) && m@ == "Batch operation completed: "@
                + decimal(self@.succeeded) + " successful, "@ + decimal(self@.failed) + " failed"@),
            !(show_progress || self@.failed > 0) ==> r is None,
    {
        if show_progress || self.failed > 0 {
            let mut m = String::from_str("Batch operation completed: ");
            let a = u64_text(self.succeeded as u64);
            m.append(a.as_str());
            m.append(" successful, ");
            let b = u64_text(self.failed as u64);
            m.append(b.as_str());
            m.append(" failed");
            Some(m)
        } else {
            None
        }
    }

    /// How a run that went through its entries, or stopped for credentials,
    /// ends: a security error once the credentials were refused.
    pub fn result(&self) -> (r: Result<(), CliError>)
        ensures
            self@.authentication_failed ==> (r matches Err(CliError::SecurityError(m)) && m@
                == "Batch operation stopped due to authentication failure. Please re-authenticate and retry."@),
            !self@.authentication_failed ==> r is Ok,
    {
        if self.authentication_failed {
            Err(
                CliError::SecurityError(
                    String::from_str(
                        "Batch operation stopped due to authentication failure. Please re-authenticate and retry.",
                    ),
                ),
            )
        } else {
            Ok(())
        }
    }
}

/// A run never ends well once the credentials were refused: whatever
/// follows, the refusal is remembered.
pub proof fn lemma_a_refusal_is_remembered(c: RunCounts, outcome: EntryOutcome, continue_on_error: bool)
    requires
        c.authentication_failed,
    ensures
        run_step(c, outcome, continue_on_error).0.authentication_failed,
{
}

/// Every entry counted is either a success or a failure, and skipped
/// entries are failures.
pub proof fn lemma_every_entry_is_counted(c: RunCounts, outcome: EntryOutcome, continue_on_error: bool)
    requires
        c.skipped_missing <= c.failed,
    ensures
        ({
            let n = run_step(c, outcome, continue_on_error).0;
            &&& n.succeeded + n.failed == c.succeeded + c.failed + 1
            &&& n.skipped_missing <= n.failed
        }),
{
}

/// Only a missing asset, with `--continue-on-error`, lets the run go on
/// past a failed entry.
pub proof fn lemma_only_missing_assets_are_skipped(c: RunCounts, outcome: EntryOutcome, continue_on_error: bool)
    ensures
        run_step(c, outcome, continue_on_error).1 == NextStep::SkipEntry <==> (outcome
            == (EntryOutcome::LookupFailed { authentication: false }) && continue_on_error),
{
}

/// What each entry's outcome makes the run do, whatever the counts: it goes
/// on to the next entry exactly after a success; a failed write stops it,
/// with or without `--continue-on-error`; a missing asset stops it unless
/// `--continue-on-error` is given; and refused credentials stop it as a
/// security failure, whether they were refused looking the asset up or
/// writing to it. A success adds to the successes and nothing else; any
/// failure adds one failure and no success.
pub proof fn lemma_what_each_outcome_does(c: RunCounts, outcome: EntryOutcome, continue_on_error: bool)
    ensures
        run_step(c, outcome, continue_on_error).1 == NextStep::Next <==> outcome == EntryOutcome::Updated,
        outcome == (EntryOutcome::WriteFailed { authentication: false }) ==> run_step(c, outcome, continue_on_error).1
            == NextStep::Stop,
        outcome == (EntryOutcome::LookupFailed { authentication: false }) && !continue_on_error ==> run_step(
            c,
            outcome,
            continue_on_error,
        ).1 == NextStep::Stop,
        (outcome == (EntryOutcome::LookupFailed { authentication: true }) || outcome == (EntryOutcome::WriteFailed {
            authentication: true,
        })) ==> run_step(c, outcome, continue_on_error).1 == NextStep::StopForCredentials && run_step(
            c,
            outcome,
            continue_on_error,
        ).0.authentication_failed,
        outcome == EntryOutcome::Updated ==> run_step(c, outcome, continue_on_error).0 == (RunCounts {
            succeeded: c.succeeded + 1,
            ..c
        }),
        outcome != EntryOutcome::Updated ==> run_step(c, outcome, continue_on_error).0.failed == c.failed + 1
            && run_step(c, outcome, continue_on_error).0.succeeded == c.succeeded,
{
}

} // verus!
