//! The bounded scheduler: launches fetches in list order while a slot is free,
//! waits for whichever finishes first otherwise, and applies the error policy
//! to each outcome as it is drained.
use vstd::prelude::*;
use crate::fetch::{DownloadCompleted, DownloadError, DownloadResult};

verus! {

/// The number of fetches that run at once unless told otherwise.
pub const DEFAULT_CONCURRENCY: usize = 20;

/// The settings of one run; they do not change while it lasts.
#[derive(Clone, Copy, Debug)]
pub struct RunConfig {
    pub concurrency_limit: usize,
    pub force_redownload: bool,
    pub ignore_errors: bool,
    pub verbose: bool,
}

/// What the driver of a run does next.
#[derive(Clone, Copy, Debug, PartialEq, Eq)]
pub enum Action {
    /// Start fetching the record at this index of the list.
    Launch(usize),
    /// Wait for any running fetch to finish and hand its outcome to `complete`.
    AwaitCompletion,
    /// The run is over: normally, or after a fatal failure (see `is_aborted`).
    Finish,
}

/// What to tell the user about one drained outcome.
#[derive(Clone, Copy, Debug, PartialEq, Eq)]
pub enum Notice {
    /// Nothing.
    Quiet,
    /// The destination was downloaded.
    Downloaded,
    /// The destination was skipped.
    Skipped,
    /// The fetch failed; `fatal` when the run ends because of it.
    Failed { error: DownloadError, fatal: bool },
}

/// The state of a run, as numbers.
pub ghost struct RunState {
    /// Records in the list.
    pub total: nat,
    /// Fetches allowed to run at once.
    pub limit: nat,
    pub ignore_errors: bool,
    pub verbose: bool,
    /// Fetches started so far; they were the first `launched` records.
    pub launched: nat,
    /// Fetches started and not yet drained.
    pub in_flight: nat,
    /// The progress counter: drained outcomes that did not end the run.
    pub progress: nat,
    /// Whether a failure ended the run.
    pub aborted: bool,
}

/// A run in progress.
pub struct Scheduler {
    total: usize,
    limit: usize,
    ignore_errors: bool,
    verbose: bool,
    launched: usize,
    in_flight: usize,
    progress: usize,
    aborted: bool,
}

impl View for Scheduler {
    type V = RunState;

    closed spec fn view(&self) -> RunState {
        RunState {
            total: self.total as nat,
            limit: self.limit as nat,
            ignore_errors: self.ignore_errors,
            verbose: self.verbose,
            launched: self.launched as nat,
            in_flight: self.in_flight as nat,
            progress: self.progress as nat,
            aborted: self.aborted,
        }
    }
}

/// The states a run can be in: never more fetches running than the limit, each
/// launched fetch either running or counted by progress, except the one that
/// ended the run.
pub open spec fn state_wf(s: RunState) -> bool {
    &&& s.limit >= 1
    &&& s.launched <= s.total
    &&& s.in_flight <= s.limit
    &&& if s.aborted {
        s.progress + s.in_flight + 1 == s.launched
    } else {
        s.progress + s.in_flight == s.launched
    }
}

/// The action that a run takes in state `s`.
pub open spec fn next_action_spec(s: RunState) -> Action {
    if s.aborted {
        Action::Finish
    } else if s.launched < s.total && s.in_flight < s.limit {
        Action::Launch(s.launched as usize)
    } else if s.in_flight > 0 {
        Action::AwaitCompletion
    } else {
        Action::Finish
    }
}

/// The work a run has left: two units for each record not launched, one for each
/// fetch running. Every step of the run takes at least one away.
pub open spec fn remaining_work(s: RunState) -> nat {
    if s.aborted {
        0
    } else {
        (2 * (s.total - s.launched) + s.in_flight) as nat
    }
}

/// What is reported for an outcome.
pub open spec fn notice_spec(result: DownloadResult, verbose: bool, ignore_errors: bool) -> Notice {
    match result {
        Ok(DownloadCompleted::Success) => if verbose {
            Notice::Downloaded
        } else {
            Notice::Quiet
        },
        Ok(DownloadCompleted::Skipped) => if verbose {
            Notice::Skipped
        } else {
            Notice::Quiet
        },
        Err(e) => Notice::Failed { error: e, fatal: !ignore_errors },
    }
}

impl Scheduler {
    pub open spec fn wf(&self) -> bool {
        state_wf(self@)
    }

    /// Starts a run over `total` records; there is none with a limit of zero,
    /// under which nothing could ever be fetched.
    pub fn new(total: usize, config: RunConfig) -> (r: Option<Scheduler>)
        ensures
            config.concurrency_limit == 0 <==> r is None,
            r matches Some(s) ==> s.wf() && s@ == (RunState {
                total: total as nat,
                limit: config.concurrency_limit as nat,
                ignore_errors: config.ignore_errors,
                verbose: config.verbose,
                launched: 0,
                in_flight: 0,
                progress: 0,
                aborted: false,
            }),
    {
        if config.concurrency_limit == 0 {
            return None;
        }
        Some(
            Scheduler {
                total,
                limit: config.concurrency_limit,
                ignore_errors: config.ignore_errors,
                verbose: config.verbose,
                launched: 0,
                in_flight: 0,
                progress: 0,
                aborted: false,
            },
        )
    }

    /// Decides what comes next; a launch is counted as running from here on.
    pub fn next_action(&mut self) -> (r: Action)
        requires
            old(self).wf(),
        ensures
            final(self).wf(),
            r == next_action_spec(old(self)@),
            r is Launch ==> final(self)@ == (RunState {
                launched: old(self)@.launched + 1,
                in_flight: old(self)@.in_flight + 1,
                ..old(self)@
            }),
            !(r is Launch) ==> final(self)@ == old(self)@,
            r is Launch ==> remaining_work(final(self)@) < remaining_work(old(self)@),
    {
        if self.aborted {
            Action::Finish
        } else if self.launched < self.total && self.in_flight < self.limit {
            let index = self.launched;
            self.launched = self.launched + 1;
            self.in_flight = self.in_flight + 1;
            Action::Launch(index)
        } else if self.in_flight > 0 {
            Action::AwaitCompletion
        } else {
            Action::Finish
        }
    }

    /// Drains one finished fetch with outcome `result`: progress advances unless
    /// the outcome ends the run, which a failure does unless errors are ignored.
    pub fn complete(&mut self, result: DownloadResult) -> (r: Notice)
        requires
            old(self).wf(),
            !old(self)@.aborted,
            old(self)@.in_flight > 0,
        ensures
            final(self).wf(),
            r == notice_spec(result, old(self)@.verbose, old(self)@.ignore_errors),
            final(self)@ == (RunState {
                in_flight: (old(self)@.in_flight - 1) as nat,
                progress: if r matches Notice::Failed { fatal: true, .. } {
                    old(self)@.progress
                } else {
                    old(self)@.progress + 1
                },
                aborted: r matches Notice::Failed { fatal: true, .. },
                ..old(self)@
            }),
            remaining_work(final(self)@) < remaining_work(old(self)@),
    {
        self.in_flight = self.in_flight - 1;
        match result {
            Ok(DownloadCompleted::Success) => {
                self.progress = self.progress + 1;
                if self.verbose {
                    Notice::Downloaded
                } else {
                    Notice::Quiet
                }
            },
            Ok(DownloadCompleted::Skipped) => {
                self.progress = self.progress + 1;
                if self.verbose {
                    Notice::Skipped
                } else {
                    Notice::Quiet
                }
            },
            Err(error) => {
                if self.ignore_errors {
                    self.progress = self.progress + 1;
                    Notice::Failed { error, fatal: false }
                } else {
                    self.aborted = true;
                    Notice::Failed { error, fatal: true }
                }
            },
        }
    }

    /// Whether a failure ended the run.
    pub fn is_aborted(&self) -> (r: bool)
        ensures
            r == self@.aborted,
    {
        self.aborted
    }

    /// The progress counter: outcomes drained without ending the run.
    pub fn progress(&self) -> (r: usize)
        ensures
            r == self@.progress,
    {
        self.progress
    }

    /// Fetches started and not yet drained.
    pub fn in_flight(&self) -> (r: usize)
        ensures
            r == self@.in_flight,
    {
        self.in_flight
    }

    /// Records in the run's list.
    pub fn total(&self) -> (r: usize)
        ensures
            r == self@.total,
    {
        self.total
    }
}

/// However a run goes, no more fetches are running than the limit allows.
pub proof fn lemma_in_flight_within_limit(s: RunState)
    requires
        state_wf(s),
    ensures
        s.in_flight <= s.limit,
{
}

/// When a run finishes, progress has advanced once for each record of the list if
/// no failure ended it, and fewer times if one did.
pub proof fn lemma_progress_at_finish(s: RunState)
    requires
        state_wf(s),
        next_action_spec(s) == Action::Finish,
    ensures
        !s.aborted ==> s.progress == s.total,
        s.aborted ==> s.progress < s.total,
{
}

/// Once a failure has ended the run, nothing more is launched or drained.
pub proof fn lemma_no_launch_after_abort(s: RunState)
    requires
        s.aborted,
    ensures
        next_action_spec(s) == Action::Finish,
{
}

/// Records are launched in list order: each launch names the first record not yet
/// launched.
pub proof fn lemma_launch_in_order(s: RunState)
    requires
        state_wf(s),
        next_action_spec(s) is Launch,
    ensures
        next_action_spec(s) == Action::Launch(s.launched as usize),
        s.launched < s.total,
        s.in_flight < s.limit,
{
}

} // verus!
