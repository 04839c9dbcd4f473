//! Errors of a job and of its stages, and the check of a produced file.
use vstd::prelude::*;

verus! {

/// Files smaller than this many bytes are taken to be corrupt.
pub const MIN_ARTIFACT_BYTES: u64 = 1000;

/// Why a stage failed.
#[derive(Debug, Clone, PartialEq, Eq)]
pub enum StageError {
    /// The tool was neither at this bundled location nor on the `PATH`.
    BinaryNotFound(String),
    SpawnFailed,
    ProcessWaitFailed,
    /// The exit code, `None` where a signal ended the process.
    NonZeroExit(Option<i32>),
    Cancelled,
}

/// Why a produced file was refused.
#[derive(Debug, Clone, Copy, PartialEq, Eq, Structural)]
pub enum ArtifactError {
    OutputMissing,
    /// The size that was found.
    OutputTooSmall(u64),
}

/// Why a job failed. Stages are counted from 0.
#[derive(Debug, Clone, PartialEq, Eq)]
pub enum JobError {
    InputMissing,
    InvalidOutputPath,
    WorkspaceCreationFailed,
    StageFailed(usize, StageError),
    ArtifactInvalid(usize, ArtifactError),
    OutputInvalid(ArtifactError),
}

/// What is found on disk where a file should have been produced.
#[derive(Debug, Clone, Copy, PartialEq, Eq, Structural)]
pub enum ArtifactStatus {
    Missing,
    /// It exists, with this size in bytes.
    Present(u64),
}

pub open spec fn artifact_verdict(s: ArtifactStatus) -> Result<(), ArtifactError> {
    match s {
        ArtifactStatus::Missing => Err(ArtifactError::OutputMissing),
        ArtifactStatus::Present(n) => if n < MIN_ARTIFACT_BYTES {
            Err(ArtifactError::OutputTooSmall(n))
        } else {
            Ok(())
        },
    }
}

/// A produced file must exist and hold at least `MIN_ARTIFACT_BYTES` bytes.
pub fn validate_artifact(s: ArtifactStatus) -> (r: Result<(), ArtifactError>)
    ensures
        r == artifact_verdict(s),
{
    match s {
        ArtifactStatus::Missing => Err(ArtifactError::OutputMissing),
        ArtifactStatus::Present(n) => if n < MIN_ARTIFACT_BYTES {
            Err(ArtifactError::OutputTooSmall(n))
        } else {
            Ok(())
        },
    }
}

impl StageError {
    pub fn is_cancelled(&self) -> (r: bool)
        ensures
            r == (*self is Cancelled),
    {
        match self {
            StageError::Cancelled => true,
            _ => false,
        }
    }
}

impl JobError {
    /// A job that the user cancelled, which calls for cleanup but no alarm.
    pub fn is_cancelled(&self) -> (r: bool)
        ensures
            r == (*self is StageFailed && self->StageFailed_1 == StageError::Cancelled),
    {
        match self {
            JobError::StageFailed(_, e) => e.is_cancelled(),
            _ => false,
        }
    }
}

/// The checks made before a job touches the disk: the input must exist and
/// the output path must have a parent directory.
pub fn preflight(input_exists: bool, output_has_parent: bool) -> (r: Result<(), JobError>)
    ensures
        !input_exists ==> r == Err::<(), JobError>(JobError::InputMissing),
        input_exists && !output_has_parent ==> r == Err::<(), JobError>(JobError::InvalidOutputPath),
        input_exists && output_has_parent ==> r is Ok,
{
    if !input_exists {
        Err(JobError::InputMissing)
    } else if !output_has_parent {
        Err(JobError::InvalidOutputPath)
    } else {
        Ok(())
    }
}

} // verus!
