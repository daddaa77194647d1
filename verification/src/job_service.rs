use vstd::prelude::*;

use crate::acl::{Principal, Role};

verus! {

/// Where a job stands.
#[derive(Debug, Clone, Copy, PartialEq, Eq, Structural)]
pub enum JobStatus {
    Queued,
    Running,
    Succeeded,
    Failed,
    Cancelled,
}

/// Why a job request was refused.
#[derive(Debug, Clone, PartialEq, Eq)]
pub enum JobServiceError {
    Forbidden,
    NotFound,
    NotCancellable,
    Repository(String),
}

/// Something that can stop the process of a running job.
pub trait JobCanceller {
    /// Asks for the job's process to stop; whether a process was found to stop.
    fn request_cancel(&self, id: &str) -> bool;
}

/// A canceller that never finds a process to stop.
pub struct NoopCanceller;

impl JobCanceller for NoopCanceller {
    fn request_cancel(&self, id: &str) -> (r: bool)
        ensures
            !r,
    {
        false
    }
}

/// The job service over a job store and a canceller of running processes.
pub struct JobServiceImpl<J, C> {
    jobs: J,
    canceller: C,
}

impl<J> JobServiceImpl<J, NoopCanceller> {
    /// A job service whose canceller stops nothing.
    pub fn new(jobs: J) -> (r: Self)
        ensures
            r.store() == jobs,
    {
        JobServiceImpl { jobs, canceller: NoopCanceller }
    }
}

impl<J, C> JobServiceImpl<J, C> {
    pub closed spec fn store(&self) -> J {
        self.jobs
    }

    pub closed spec fn canceller_spec(&self) -> C {
        self.canceller
    }

    /// The same service with another canceller.
    pub fn with_canceller<D>(self, canceller: D) -> (r: JobServiceImpl<J, D>)
        ensures
            r.store() == self.store(),
            r.canceller_spec() == canceller,
    {
        JobServiceImpl { jobs: self.jobs, canceller }
    }

    pub fn jobs(&self) -> (r: &J)
        ensures
            *r == self.store(),
    {
        &self.jobs
    }

    pub fn canceller(&self) -> (r: &C)
        ensures
            *r == self.canceller_spec(),
    {
        &self.canceller
    }
}

/// Only an administrator may see or cancel jobs.
pub fn check_job_access(caller: &Principal) -> (r: Result<(), JobServiceError>)
    ensures
        r == if caller.role == Role::Admin {
            Ok::<(), JobServiceError>(())
        } else {
            Err(JobServiceError::Forbidden)
        },
{
    if caller.role == Role::Admin {
        Ok(())
    } else {
        Err(JobServiceError::Forbidden)
    }
}

/// The total a page of jobs reports: the active count on the active tab, else the count
/// of all jobs.
pub fn page_total(active_only: bool, active_total: u64, all_total: u64) -> (r: u64)
    ensures
        r == if active_only { active_total } else { all_total },
{
    if active_only {
        active_total
    } else {
        all_total
    }
}

/// What follows a cancel request that the store could not carry out itself.
#[derive(Debug, Clone, Copy, PartialEq, Eq, Structural)]
pub enum CancelStep {
    /// Nothing more: the job is cancelled.
    Done,
    /// The job's process is to be stopped.
    StopProcess,
}

/// What a cancel request comes to: done when the store cancelled the job or it was
/// cancelled before; a running job whose process can be stopped has it stopped; a
/// missing job is not found; any other job cannot be cancelled.
pub open spec fn cancel_spec(cancelled_by_store: bool, job: Option<(JobStatus, bool)>) -> Result<CancelStep, JobServiceError> {
    if cancelled_by_store {
        Ok(CancelStep::Done)
    } else {
        match job {
            None => Err(JobServiceError::NotFound),
            Some((JobStatus::Cancelled, _)) => Ok(CancelStep::Done),
            Some((JobStatus::Running, true)) => Ok(CancelStep::StopProcess),
            Some(_) => Err(JobServiceError::NotCancellable),
        }
    }
}

/// Decides a cancel request, given whether the store cancelled the job and, where it did
/// not, the job's status and whether its kind runs a process that can be stopped.
pub fn cancel_step(cancelled_by_store: bool, job: Option<(JobStatus, bool)>) -> (r: Result<CancelStep, JobServiceError>)
    ensures
        r == cancel_spec(cancelled_by_store, job),
{
    if cancelled_by_store {
        return Ok(CancelStep::Done);
    }
    match job {
        None => Err(JobServiceError::NotFound),
        Some((JobStatus::Cancelled, _)) => Ok(CancelStep::Done),
        Some((JobStatus::Running, true)) => Ok(CancelStep::StopProcess),
        Some(_) => Err(JobServiceError::NotCancellable),
    }
}

impl<J, C: JobCanceller> JobServiceImpl<J, C> {
    /// Finishes a cancel request of the job `id`: asks the canceller to stop its process
    /// where that is the step, whatever the canceller answers.
    pub fn finish_cancel(&self, id: &str, cancelled_by_store: bool, job: Option<(JobStatus, bool)>) -> (r: Result<(), JobServiceError>)
        ensures
            r == match cancel_spec(cancelled_by_store, job) {
                Ok(_) => Ok::<(), JobServiceError>(()),
                Err(e) => Err(e),
            },
    {
        match cancel_step(cancelled_by_store, job) {
            Ok(CancelStep::StopProcess) => {
                let _ = self.canceller.request_cancel(id);
                Ok(())
            },
            Ok(CancelStep::Done) => Ok(()),
            Err(e) => Err(e),
        }
    }
}

} // verus!
