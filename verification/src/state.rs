//! Bookkeeping of the running job and of its cancellation request.
//!
//! Every job that is started gets a cancellation flag of its own. At most one
//! job is the running one; cancelling raises the running job's flag and no
//! other. A job keeps its flag after it ends.

use vstd::prelude::*;
use crate::error::AppError;

verus! {

/// Handle of a job started by [`TranscriptionState::begin_job`]: it names
/// that job's cancellation flag.
#[derive(Clone, Copy, Debug, PartialEq, Eq)]
pub struct JobId {
    index: usize,
}

impl View for JobId {
    type V = nat;

    closed spec fn view(&self) -> nat {
        self.index as nat
    }
}

/// Which job is running, and the cancellation flag of every job started so far.
#[derive(Debug)]
pub struct TranscriptionState {
    flags: Vec<bool>,
    current: Option<usize>,
}

/// The flags after one more job has been started: its flag is lowered.
pub open spec fn flags_after_begin(flags: Seq<bool>) -> Seq<bool> {
    flags.push(false)
}

/// The flags after a cancellation request: the running job's flag, if a job
/// runs, is raised; nothing else changes.
pub open spec fn flags_after_cancel(flags: Seq<bool>, current: Option<nat>) -> Seq<bool> {
    match current {
        Some(j) => flags.update(j as int, true),
        None => flags,
    }
}

/// What a query of the flag of job `job` reads.
pub open spec fn flag_reads(flags: Seq<bool>, job: nat) -> bool {
    job < flags.len() && flags[job as int]
}

impl TranscriptionState {
    /// The cancellation flag of every job started so far, by job number.
    pub closed spec fn flags(&self) -> Seq<bool> {
        self.flags@
    }

    /// The number of the running job, if one runs.
    pub closed spec fn current(&self) -> Option<nat> {
        match self.current {
            Some(i) => Some(i as nat),
            None => None,
        }
    }

    /// The running job, if any, is one that was started.
    pub open spec fn wf(&self) -> bool {
        match self.current() {
            Some(j) => j < self.flags().len(),
            None => true,
        }
    }

    /// A state in which no job has been started.
    pub fn new() -> (s: Self)
        ensures
            s.wf(),
            s.flags() == Seq::<bool>::empty(),
            s.current() == None::<nat>,
    {
        TranscriptionState { flags: Vec::new(), current: None }
    }

    /// Registers a new job, which becomes the running one, and returns its
    /// handle. The new job's flag starts lowered; earlier flags stay as they were.
    pub fn begin_job(&mut self) -> (job: JobId)
        requires
            old(self).wf(),
        ensures
            final(self).wf(),
            job@ == old(self).flags().len(),
            final(self).flags() == flags_after_begin(old(self).flags()),
            final(self).current() == Some(job@),
    {
        let index = self.flags.len();
        self.flags.push(false);
        self.current = Some(index);
        JobId { index }
    }

    /// Marks that no job is running any more. Flags are kept.
    pub fn end_job(&mut self)
        requires
            old(self).wf(),
        ensures
            final(self).wf(),
            final(self).flags() == old(self).flags(),
            final(self).current() == None::<nat>,
    {
        self.current = None;
    }

    /// Signals cancellation for the running job, if any. Returns `true` if a
    /// job was actually running.
    pub fn request_cancel(&mut self) -> (cancelled: bool)
        requires
            old(self).wf(),
        ensures
            final(self).wf(),
            cancelled == old(self).current().is_some(),
            final(self).flags() == flags_after_cancel(old(self).flags(), old(self).current()),
            final(self).current() == old(self).current(),
    {
        match self.current {
            Some(i) => {
                self.flags.set(i, true);
                true
            },
            None => false,
        }
    }
}

impl Default for TranscriptionState {
    fn default() -> (s: Self)
        ensures
            s.wf(),
            s.flags() == Seq::<bool>::empty(),
            s.current() == None::<nat>,
    {
        TranscriptionState::new()
    }
}

/// Whether cancellation was requested for `job`. A handle that does not name
/// a job of `state` reads as not cancelled.
pub fn is_cancelled(state: &TranscriptionState, job: JobId) -> (cancelled: bool)
    ensures
        cancelled == flag_reads(state.flags(), job@),
        cancelled == (job@ < state.flags().len() && state.flags()[job@ as int]),
{
    if job.index < state.flags.len() {
        state.flags[job.index]
    } else {
        false
    }
}

/// Stops a job that was cancelled: `Err(Cancelled)` if cancellation was
/// requested for `job`, `Ok` otherwise.
pub fn check_not_cancelled(state: &TranscriptionState, job: JobId) -> (r: Result<(), AppError>)
    ensures
        flag_reads(state.flags(), job@) ==> r == Err::<(), AppError>(AppError::Cancelled),
        !flag_reads(state.flags(), job@) ==> r == Ok::<(), AppError>(()),
{
    if is_cancelled(state, job) {
        Err(AppError::Cancelled)
    } else {
        Ok(())
    }
}

/// Cancelling right after a job was started reaches that job, and leaves
/// every earlier job's flag as it was.
pub proof fn law_cancel_reaches_new_job(flags: Seq<bool>)
    ensures
        flag_reads(
            flags_after_cancel(flags_after_begin(flags), Some(flags.len())),
            flags.len(),
        ),
        forall|j: nat|
            j < flags.len() ==> flag_reads(
                flags_after_cancel(flags_after_begin(flags), Some(flags.len())),
                j,
            ) == #[trigger] flag_reads(flags, j),
{
}

/// A job that is started reads as not cancelled, whatever was done to the
/// jobs before it.
pub proof fn law_new_job_starts_uncancelled(flags: Seq<bool>)
    ensures
        !flag_reads(flags_after_begin(flags), flags.len()),
{
}

/// A job's flag reads as that job's own flag and nothing else: starting
/// another job afterwards never changes what an earlier job reads, and a
/// cancellation request raises the running job's flag and changes no other.
pub proof fn law_job_reads_its_own_flag(flags: Seq<bool>, job: nat, current: nat)
    ensures
        flag_reads(flags, job) == (job < flags.len() && flags[job as int]),
        job < flags.len() ==> flag_reads(flags_after_begin(flags), job) == flag_reads(flags, job),
        flags_after_begin(flags).len() == flags.len() + 1,
        !flag_reads(flags_after_begin(flags), flags.len()),
        current < flags.len() ==> flag_reads(flags_after_cancel(flags, Some(current)), current),
        current < flags.len() ==> flags_after_cancel(flags, Some(current)).len() == flags.len(),
        current < flags.len() && job != current ==> flag_reads(flags_after_cancel(flags, Some(current)), job)
            == flag_reads(flags, job),
{
}

/// With no job running, a cancellation request changes no flag.
pub proof fn law_cancel_without_job_is_inert(flags: Seq<bool>)
    ensures
        flags_after_cancel(flags, None) == flags,
{
}

} // verus!
