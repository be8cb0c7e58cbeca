//! Running one operation over many items: what a bulk run's items came to,
//! and what the run's result is.
//!
//! At most `concurrency` items run at once; without `--continue-on-error` the
//! first failure stops the run, and items that had not started are counted as
//! not attempted; failures are collected and reported after the run.

use vstd::prelude::*;
use crate::errors::{CliActionError, CliError};
use crate::text::views;

verus! {

/// How to run a bulk operation.
#[derive(Debug, Clone, Copy)]
pub struct BulkOptions {
    pub concurrency: usize,
    /// Wait this long before each item that does real work.
    pub delay: std::time::Duration,
    pub continue_on_error: bool,
    pub show_progress: bool,
    /// Shown on a running item's spinner: "Downloading", "Uploading".
    pub verb: &'static str,
}

impl BulkOptions {
    /// How many items may run at once: at least one.
    pub fn permits(&self) -> (r: usize)
        ensures
            r == if self.concurrency == 0 {
                1
            } else {
                self.concurrency
            },
    {
        if self.concurrency == 0 {
            1
        } else {
            self.concurrency
        }
    }
}

/// How one item ended, when it did not fail.
#[derive(Debug, Clone, Copy, PartialEq, Eq, Structural)]
pub enum ItemOutcome {
    /// The work was done.
    Done,
    /// Nothing needed doing.
    Skipped,
    /// There was nothing to fetch for this item.
    Unavailable,
}

/// A failed item: the line for the error list, and the error itself.
#[derive(Debug, Clone)]
pub struct ItemFailure {
    pub message: String,
    pub error: CliError,
}

impl ItemFailure {
    /// The failure of an item whose task could not run to its end.
    pub fn task_failed(cause: &str, error: CliError) -> (r: ItemFailure)
        ensures
            r.message@ == "⚠️  Task failed to execute: "@ + cause@,
            r.error == error,
    {
        let mut message = String::from_str("⚠️  Task failed to execute: ");
        message.append(cause);
        ItemFailure { message, error }
    }
}

/// What a bulk run achieved.
#[derive(Debug)]
pub struct BulkReport {
    pub total: usize,
    pub done: usize,
    pub skipped: usize,
    pub unavailable: usize,
    /// Cancelled after an earlier failure, without `--continue-on-error`.
    pub not_attempted: usize,
    pub failure_messages: Vec<String>,
    /// The first failure, which is the run's error without `--continue-on-error`.
    pub first_error: Option<CliError>,
}

/// What became of one item's task.
#[derive(Debug)]
pub enum TaskOutcome {
    Finished(ItemOutcome),
    Failed(ItemFailure),
    /// Cancelled before it started, after an earlier failure.
    Cancelled,
}

impl BulkReport {
    /// The report of a run over `total` items, before any has ended.
    pub fn new(total: usize) -> (r: BulkReport)
        ensures
            r.total == total,
            r.done == 0 && r.skipped == 0 && r.unavailable == 0 && r.not_attempted == 0,
            r.failure_messages@.len() == 0,
            r.first_error is None,
    {
        BulkReport {
            total,
            done: 0,
            skipped: 0,
            unavailable: 0,
            not_attempted: 0,
            failure_messages: Vec::new(),
            first_error: None,
        }
    }

    /// How many items failed.
    pub fn failed(&self) -> (r: usize)
        ensures
            r == self.failure_messages@.len(),
    {
        self.failure_messages.len()
    }

    /// Count what became of one more item. True when the remaining items are to
    /// be cancelled: on the run's first failure, without `continue_on_error`.
    pub fn record(&mut self, outcome: TaskOutcome, continue_on_error: bool) -> (cancel_rest: bool)
        requires
            old(self).done < usize::MAX,
            old(self).skipped < usize::MAX,
            old(self).unavailable < usize::MAX,
            old(self).not_attempted < usize::MAX,
        ensures
            final(self).total == old(self).total,
            match outcome {
                TaskOutcome::Finished(ItemOutcome::Done) => {
                    &&& final(self).done == old(self).done + 1
                    &&& final(self).skipped == old(self).skipped
                    &&& final(self).unavailable == old(self).unavailable
                    &&& final(self).not_attempted == old(self).not_attempted
                    &&& final(self).failure_messages@ == old(self).failure_messages@
                    &&& final(self).first_error == old(self).first_error
                    &&& !cancel_rest
                },
                TaskOutcome::Finished(ItemOutcome::Skipped) => {
                    &&& final(self).done == old(self).done
                    &&& final(self).skipped == old(self).skipped + 1
                    &&& final(self).unavailable == old(self).unavailable
                    &&& final(self).not_attempted == old(self).not_attempted
                    &&& final(self).failure_messages@ == old(self).failure_messages@
                    &&& final(self).first_error == old(self).first_error
                    &&& !cancel_rest
                },
                TaskOutcome::Finished(ItemOutcome::Unavailable) => {
                    &&& final(self).done == old(self).done
                    &&& final(self).skipped == old(self).skipped
                    &&& final(self).unavailable == old(self).unavailable + 1
                    &&& final(self).not_attempted == old(self).not_attempted
                    &&& final(self).failure_messages@ == old(self).failure_messages@
                    &&& final(self).first_error == old(self).first_error
                    &&& !cancel_rest
                },
                TaskOutcome::Cancelled => {
                    &&& final(self).done == old(self).done
                    &&& final(self).skipped == old(self).skipped
                    &&& final(self).unavailable == old(self).unavailable
                    &&& final(self).not_attempted == old(self).not_attempted + 1
                    &&& final(self).failure_messages@ == old(self).failure_messages@
                    &&& final(self).first_error == old(self).first_error
                    &&& !cancel_rest
                },
                TaskOutcome::Failed(f) => {
                    &&& final(self).done == old(self).done
                    &&& final(self).skipped == old(self).skipped
                    &&& final(self).unavailable == old(self).unavailable
                    &&& final(self).not_attempted == old(self).not_attempted
                    &&& final(self).failure_messages@ == old(self).failure_messages@.push(f.message)
                    &&& final(self).first_error == if old(self).first_error is None {
                        Some(f.error)
                    } else {
                        old(self).first_error
                    }
                    &&& cancel_rest == (old(self).first_error is None && !continue_on_error)
                },
            },
    {
        match outcome {
            TaskOutcome::Finished(ItemOutcome::Done) => {
                self.done = self.done + 1;
                false
            },
            TaskOutcome::Finished(ItemOutcome::Skipped) => {
                self.skipped = self.skipped + 1;
                false
            },
            TaskOutcome::Finished(ItemOutcome::Unavailable) => {
                self.unavailable = self.unavailable + 1;
                false
            },
            TaskOutcome::Cancelled => {
                self.not_attempted = self.not_attempted + 1;
                false
            },
            TaskOutcome::Failed(failure) => {
                let ItemFailure { message, error } = failure;
                self.failure_messages.push(message);
                if self.first_error.is_none() {
                    self.first_error = Some(error);
                    !continue_on_error
                } else {
                    false
                }
            },
        }
    }

    /// The run's result: the first failure without `continue_on_error`; a
    /// partial failure when items failed anyway; otherwise success. Whether the
    /// run went on is `continue_on_error`'s to decide, not whether the exit
    /// code tells the truth: any failure makes the result an error.
    pub fn into_result(self, continue_on_error: bool, what: &str) -> (r: Result<(), CliError>)
        ensures
            match self.first_error {
                Some(e) if !continue_on_error => r == Err::<(), CliError>(e),
                _ => if self.failure_messages@.len() > 0 {
                    r matches Err(CliError::ActionError(CliActionError::PartialFailure { failed, total, what: w }))
                        && failed == self.failure_messages@.len() && total == self.total && w@ == what@
                } else {
                    r is Ok
                },
            },
            self.failure_messages@.len() > 0 ==> r is Err,
    {
        let failed = self.failed();
        match self.first_error {
            Some(error) => {
                if !continue_on_error {
                    return Err(error);
                }
            },
            None => {},
        }
        if failed > 0 {
            return Err(
                CliError::ActionError(
                    CliActionError::PartialFailure {
                        failed,
                        total: self.total,
                        what: String::from_str(what),
                    },
                ),
            );
        }
        Ok(())
    }
}

} // verus!
