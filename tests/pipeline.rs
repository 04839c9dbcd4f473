use ripleyflow::job::{
    preflight, validate_artifact, ArtifactError, ArtifactStatus, JobError, StageError,
};
use ripleyflow::pipeline::{Action, Event, Phase, Pipeline, PipelineRun, StageSpec, Tool};
use ripleyflow::slot::{PollStatus, ProcessSlot};

fn stage(low: u64, high: u64, artifact: Option<&str>) -> StageSpec {
    StageSpec {
        tool: Tool::Encoder,
        args: vec!["-i".to_string()],
        low,
        high,
        artifact: artifact.map(|a| a.to_string()),
        fine_progress: true,
    }
}

fn three_stages() -> Pipeline {
    Pipeline {
        workspace: "/tmp/job".to_string(),
        dirs: vec!["/tmp/job".to_string()],
        stages: vec![
            stage(0, 3300, None),
            stage(3300, 6600, Some("/tmp/job/denoised/a.wav")),
            stage(6600, 10000, None),
        ],
        output: "/out/final.mp4".to_string(),
    }
}

fn ok() -> Event {
    Event::StageExited(Ok(()))
}

#[test]
fn all_stages_succeeding_end_at_one_hundred() {
    let (mut run, first) = PipelineRun::start(three_stages());
    assert_eq!(first.emits, vec![0]);
    assert_eq!(first.action, Action::RunStage(0));
    let s = run.step(ok());
    assert_eq!(s.emits, vec![3300, 3300]);
    assert_eq!(s.action, Action::RunStage(1));
    let s = run.step(ok());
    assert_eq!(s.action, Action::CheckArtifact(1));
    let s = run.step(Event::Checked(ArtifactStatus::Present(48000)));
    assert_eq!(s.emits, vec![6600, 6600]);
    assert_eq!(s.action, Action::RunStage(2));
    let s = run.step(ok());
    assert_eq!(s.action, Action::CheckOutput);
    let s = run.step(Event::Checked(ArtifactStatus::Present(2_000_000)));
    assert_eq!(s.emits.last(), Some(&10000));
    assert_eq!(s.action, Action::Finish(Ok("/out/final.mp4".to_string())));
    assert_eq!(run.phase, Phase::Done);
}

#[test]
fn failing_second_stage_ends_the_job() {
    let (mut run, _) = PipelineRun::start(three_stages());
    run.step(ok());
    let s = run.step(Event::StageExited(Err(StageError::NonZeroExit(Some(1)))));
    assert!(s.emits.is_empty());
    assert_eq!(
        s.action,
        Action::Finish(Err(JobError::StageFailed(1, StageError::NonZeroExit(Some(1)))))
    );
    assert_eq!(run.phase, Phase::Done);
    let s = run.step(ok());
    assert_eq!(s.action, Action::Ignore);
    let s = run.step(Event::Checked(ArtifactStatus::Present(5000)));
    assert_eq!(s.action, Action::Ignore);
}

#[test]
fn small_output_fails_after_a_clean_exit() {
    let (mut run, _) = PipelineRun::start(three_stages());
    run.step(ok());
    run.step(ok());
    run.step(Event::Checked(ArtifactStatus::Present(48000)));
    let s = run.step(ok());
    assert_eq!(s.action, Action::CheckOutput);
    let s = run.step(Event::Checked(ArtifactStatus::Present(500)));
    assert!(s.emits.is_empty());
    assert_eq!(
        s.action,
        Action::Finish(Err(JobError::OutputInvalid(ArtifactError::OutputTooSmall(500))))
    );
}

#[test]
fn missing_intermediate_artifact_fails() {
    let (mut run, _) = PipelineRun::start(three_stages());
    run.step(ok());
    run.step(ok());
    let s = run.step(Event::Checked(ArtifactStatus::Missing));
    assert_eq!(
        s.action,
        Action::Finish(Err(JobError::ArtifactInvalid(1, ArtifactError::OutputMissing)))
    );
}

#[test]
fn events_out_of_place_are_ignored() {
    let (mut run, _) = PipelineRun::start(three_stages());
    let s = run.step(Event::Checked(ArtifactStatus::Present(5000)));
    assert_eq!(s.action, Action::Ignore);
    assert_eq!(run.phase, Phase::Running(0));
}

#[test]
fn cancelling_a_waiting_stage() {
    let mut slot: ProcessSlot<u32> = ProcessSlot::new();
    slot.store(42);
    let h = slot.begin_poll().unwrap();
    assert_eq!(slot.end_poll(h, PollStatus::Running), None);
    assert!(!slot.is_empty());
    assert_eq!(slot.take(), Some(42));
    let outcome = slot.begin_poll();
    assert_eq!(outcome, Err(StageError::Cancelled));
    assert!(slot.is_empty());

    let (mut run, _) = PipelineRun::start(three_stages());
    run.step(ok());
    let s = run.step(Event::StageExited(Err(StageError::Cancelled)));
    match s.action {
        Action::Finish(Err(e)) => {
            assert_eq!(e, JobError::StageFailed(1, StageError::Cancelled));
            assert!(e.is_cancelled());
        }
        other => panic!("unexpected {:?}", other),
    }
}

#[test]
fn poll_outcomes() {
    let mut slot: ProcessSlot<u32> = ProcessSlot::new();
    assert!(slot.is_empty());
    assert_eq!(slot.end_poll(1, PollStatus::Exited(Some(0))), Some(Ok(())));
    assert!(slot.is_empty());
    assert_eq!(
        slot.end_poll(1, PollStatus::Exited(Some(3))),
        Some(Err(StageError::NonZeroExit(Some(3))))
    );
    assert_eq!(
        slot.end_poll(1, PollStatus::Exited(None)),
        Some(Err(StageError::NonZeroExit(None)))
    );
    assert_eq!(
        slot.end_poll(1, PollStatus::Failed),
        Some(Err(StageError::ProcessWaitFailed))
    );
    assert!(slot.is_empty());
}

#[test]
fn artifact_checks() {
    assert_eq!(validate_artifact(ArtifactStatus::Missing), Err(ArtifactError::OutputMissing));
    assert_eq!(
        validate_artifact(ArtifactStatus::Present(999)),
        Err(ArtifactError::OutputTooSmall(999))
    );
    assert_eq!(validate_artifact(ArtifactStatus::Present(1000)), Ok(()));
}

#[test]
fn preflight_checks() {
    assert_eq!(preflight(false, true), Err(JobError::InputMissing));
    assert_eq!(preflight(true, false), Err(JobError::InvalidOutputPath));
    assert_eq!(preflight(true, true), Ok(()));
    assert!(!JobError::WorkspaceCreationFailed.is_cancelled());
    assert!(!JobError::StageFailed(0, StageError::SpawnFailed).is_cancelled());
}
