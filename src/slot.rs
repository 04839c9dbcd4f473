//! The process slot: the one cell, shared between the task that waits on a
//! stage and whoever cancels it, that holds the running process if any.
use vstd::prelude::*;
use crate::job::StageError;

verus! {

/// What asking the held process for its exit status gave.
#[derive(Debug, Clone, Copy, PartialEq, Eq)]
pub enum PollStatus {
    /// Still running.
    Running,
    /// It exited, with this code (`None` where a signal ended it).
    Exited(Option<i32>),
    /// The status could not be read.
    Failed,
}

/// Holds at most one process handle.
pub struct ProcessSlot<H> {
    handle: Option<H>,
}

impl<H> View for ProcessSlot<H> {
    type V = Option<H>;

    closed spec fn view(&self) -> Option<H> {
        self.handle
    }
}

/// The outcome of a process that exited with `code`.
pub open spec fn exit_outcome(code: Option<i32>) -> Result<(), StageError> {
    if code == Some(0i32) {
        Ok(())
    } else {
        Err(StageError::NonZeroExit(code))
    }
}

impl<H> ProcessSlot<H> {
    pub fn new() -> (r: ProcessSlot<H>)
        ensures
            r@ is None,
    {
        ProcessSlot { handle: None }
    }

    pub fn is_empty(&self) -> (r: bool)
        ensures
            r == (self@ is None),
    {
        self.handle.is_none()
    }

    /// Puts a freshly started process in the slot, which must be empty.
    pub fn store(&mut self, h: H)
        requires
            old(self)@ is None,
        ensures
            final(self)@ == Some(h),
    {
        self.handle = Some(h);
    }

    /// Takes the process out, leaving the slot empty: what a cancellation
    /// does before it terminates the process, and what clears the slot
    /// before a stage starts.
    pub fn take(&mut self) -> (r: Option<H>)
        ensures
            r == old(self)@,
            final(self)@ is None,
    {
        self.handle.take()
    }

    /// Starts one tick of waiting. An empty slot means that the stage was
    /// cancelled; otherwise the process is handed out to be polled, and the
    /// slot stays empty until `end_poll`.
    pub fn begin_poll(&mut self) -> (r: Result<H, StageError>)
        ensures
            final(self)@ is None,
            old(self)@ is None ==> r == Err::<H, StageError>(StageError::Cancelled),
            old(self)@ is Some ==> r == Ok::<H, StageError>(old(self)@.unwrap()),
    {
        match self.handle.take() {
            Some(h) => Ok(h),
            None => Err(StageError::Cancelled),
        }
    }

    /// Ends a tick of waiting with what polling `h` gave: a running process
    /// goes back into the slot and the wait goes on (`None`); otherwise the
    /// slot stays empty and the stage's outcome is returned.
    pub fn end_poll(&mut self, h: H, status: PollStatus) -> (r: Option<Result<(), StageError>>)
        requires
            old(self)@ is None,
        ensures
            status is Running ==> r is None && final(self)@ == Some(h),
            status is Exited ==> r == Some(exit_outcome(status->Exited_0)) && final(self)@ is None,
            status is Failed ==> r == Some(Err::<(), StageError>(StageError::ProcessWaitFailed))
                && final(self)@ is None,
    {
        match status {
            PollStatus::Running => {
                self.handle = Some(h);
                None
            },
            PollStatus::Exited(code) => {
                match code {
                    Some(c) => if c == 0 {
                        Some(Ok(()))
                    } else {
                        Some(Err(StageError::NonZeroExit(code)))
                    },
                    None => Some(Err(StageError::NonZeroExit(code))),
                }
            },
            PollStatus::Failed => Some(Err(StageError::ProcessWaitFailed)),
        }
    }
}

} // verus!
