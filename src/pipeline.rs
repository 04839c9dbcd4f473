//! A job of several stages, run one after the other, as a state machine: the
//! host performs each action (start a stage, look at a file, finish) and hands
//! back what came of it.
//!
//! `Action::Finish` is the one exit of a run: the host removes the workspace
//! and then reports the result. A run finishes exactly once.
use vstd::prelude::*;
use crate::job::{artifact_verdict, validate_artifact, ArtifactError, ArtifactStatus, JobError, StageError};
use crate::timecode::FULL;

verus! {

/// Which external tool a stage runs.
#[derive(Debug, Clone, Copy, PartialEq, Eq, Structural)]
pub enum Tool {
    Encoder,
    Denoiser,
}

/// One stage: a command and the part `[low, high]` of the overall progress
/// (hundredths of a percent) that it covers.
pub struct StageSpec {
    pub tool: Tool,
    pub args: Vec<String>,
    pub low: u64,
    pub high: u64,
    /// A file the stage must leave behind, checked before the next stage runs.
    pub artifact: Option<String>,
    /// Whether the tool reports its own progress as it runs.
    pub fine_progress: bool,
}

/// A job: its scratch workspace, the directories to create before it starts
/// (the workspace first), its stages in order, and its final output.
pub struct Pipeline {
    pub workspace: String,
    pub dirs: Vec<String>,
    pub stages: Vec<StageSpec>,
    pub output: String,
}

#[derive(Debug, Clone, PartialEq, Eq)]
pub enum Phase {
    /// Stage `i` is running.
    Running(usize),
    /// Stage `i` exited well; its artifact is being checked.
    Checking(usize),
    /// Every stage exited well; the final output is being checked.
    CheckingOutput,
    Done,
}

/// What the host reports back.
#[derive(Debug, PartialEq, Eq)]
pub enum Event {
    StageExited(Result<(), StageError>),
    Checked(ArtifactStatus),
}

/// What the host is to do next.
#[derive(Debug, PartialEq, Eq)]
pub enum Action {
    /// Start stage `i` (after emptying the process slot).
    RunStage(usize),
    /// Look at the artifact of stage `i`.
    CheckArtifact(usize),
    /// Look at the final output.
    CheckOutput,
    /// Remove the workspace, then report this result.
    Finish(Result<String, JobError>),
    /// The event does not belong to the current phase; nothing to do.
    Ignore,
}

/// The progress values to report, in order, and the next action.
pub struct Step {
    pub emits: Vec<u64>,
    pub action: Action,
}

pub struct PipelineRun {
    pub plan: Pipeline,
    pub phase: Phase,
}

impl Pipeline {
    /// At least one stage; ranges inside `[0, 100%]`, in order, not overlapping.
    pub open spec fn wf(&self) -> bool {
        &&& 0 < self.stages@.len() <= usize::MAX
        &&& forall|i: int|
            0 <= i < self.stages@.len() ==> #[trigger] self.stages@[i].low <= self.stages@[i].high
                <= FULL
        &&& forall|i: int|
            0 <= i < self.stages@.len() - 1 ==> #[trigger] self.stages@[i].high
                <= self.stages@[i + 1].low
    }
}

/// After stage `i` is accepted: report its end and start the next, or check
/// the output after the last one.
pub open spec fn advance(plan: Pipeline, i: int) -> (Phase, Seq<u64>, Action) {
    if i + 1 < plan.stages@.len() {
        (
            Phase::Running((i + 1) as usize),
            seq![plan.stages@[i].high, plan.stages@[i + 1].low],
            Action::RunStage((i + 1) as usize),
        )
    } else {
        (Phase::CheckingOutput, Seq::empty(), Action::CheckOutput)
    }
}

/// The phase, reports and action that follow an event.
pub open spec fn transition(plan: Pipeline, phase: Phase, ev: Event) -> (Phase, Seq<u64>, Action) {
    match (phase, ev) {
        (Phase::Running(i), Event::StageExited(Err(e))) => (
            Phase::Done,
            Seq::empty(),
            Action::Finish(Err(JobError::StageFailed(i, e))),
        ),
        (Phase::Running(i), Event::StageExited(Ok(()))) => if plan.stages@[i as int].artifact is Some {
            (Phase::Checking(i), Seq::empty(), Action::CheckArtifact(i))
        } else {
            advance(plan, i as int)
        },
        (Phase::Checking(i), Event::Checked(s)) => match artifact_verdict(s) {
            Err(a) => (Phase::Done, Seq::empty(), Action::Finish(Err(JobError::ArtifactInvalid(i, a)))),
            Ok(()) => advance(plan, i as int),
        },
        (Phase::CheckingOutput, Event::Checked(s)) => match artifact_verdict(s) {
            Err(a) => (Phase::Done, Seq::empty(), Action::Finish(Err(JobError::OutputInvalid(a)))),
            Ok(()) => (
                Phase::Done,
                seq![plan.stages@.last().high],
                Action::Finish(Ok(plan.output)),
            ),
        },
        _ => (phase, Seq::empty(), Action::Ignore),
    }
}

/// Where a phase stands within the plan.
pub open spec fn phase_ok(plan: Pipeline, phase: Phase) -> bool {
    match phase {
        Phase::Running(i) => i < plan.stages@.len(),
        Phase::Checking(i) => i < plan.stages@.len(),
        _ => true,
    }
}

/// The actions that a run takes from `phase` through the events `evs`.
pub open spec fn drive(plan: Pipeline, phase: Phase, evs: Seq<Event>) -> Seq<Action>
    decreases evs.len(),
{
    if evs.len() == 0 {
        Seq::empty()
    } else {
        let (next, _, a) = transition(plan, phase, evs[0]);
        seq![a] + drive(plan, next, evs.drop_first())
    }
}

impl PipelineRun {
    pub open spec fn wf(&self) -> bool {
        self.plan.wf() && phase_ok(self.plan, self.phase)
    }

    /// Starts a run at its first stage.
    pub fn start(plan: Pipeline) -> (r: (PipelineRun, Step))
        requires
            plan.wf(),
        ensures
            r.0.wf(),
            r.0.plan == plan,
            r.0.phase == Phase::Running(0),
            r.1.emits@ == seq![plan.stages@[0].low],
            r.1.action == Action::RunStage(0),
    {
        let first = plan.stages[0].low;
        let run = PipelineRun { plan, phase: Phase::Running(0) };
        (run, Step { emits: vec![first], action: Action::RunStage(0) })
    }

    fn advance_from(&mut self, i: usize) -> (r: Step)
        requires
            old(self).wf(),
            i < old(self).plan.stages@.len(),
        ensures
            final(self).wf(),
            final(self).plan == old(self).plan,
            (final(self).phase, r.emits@, r.action) == advance(old(self).plan, i as int),
    {
        let n = self.plan.stages.len();
        if i < n - 1 {
            let end = self.plan.stages[i].high;
            let next = self.plan.stages[i + 1].low;
            self.phase = Phase::Running(i + 1);
            Step { emits: vec![end, next], action: Action::RunStage(i + 1) }
        } else {
            self.phase = Phase::CheckingOutput;
            Step { emits: Vec::new(), action: Action::CheckOutput }
        }
    }

    /// Takes what came of the last action and decides the next one.
    pub fn step(&mut self, ev: Event) -> (r: Step)
        requires
            old(self).wf(),
        ensures
            final(self).wf(),
            final(self).plan == old(self).plan,
            (final(self).phase, r.emits@, r.action) == transition(old(self).plan, old(self).phase, ev),
    {
        match (&self.phase, ev) {
            (Phase::Running(i), Event::StageExited(Err(e))) => {
                let i = *i;
                self.phase = Phase::Done;
                Step { emits: Vec::new(), action: Action::Finish(Err(JobError::StageFailed(i, e))) }
            },
            (Phase::Running(i), Event::StageExited(Ok(()))) => {
                let i = *i;
                if self.plan.stages[i].artifact.is_some() {
                    self.phase = Phase::Checking(i);
                    Step { emits: Vec::new(), action: Action::CheckArtifact(i) }
                } else {
                    self.advance_from(i)
                }
            },
            (Phase::Checking(i), Event::Checked(s)) => {
                let i = *i;
                match validate_artifact(s) {
                    Err(a) => {
                        self.phase = Phase::Done;
                        Step {
                            emits: Vec::new(),
                            action: Action::Finish(Err(JobError::ArtifactInvalid(i, a))),
                        }
                    },
                    Ok(()) => self.advance_from(i),
                }
            },
            (Phase::CheckingOutput, Event::Checked(s)) => {
                match validate_artifact(s) {
                    Err(a) => {
                        self.phase = Phase::Done;
                        Step { emits: Vec::new(), action: Action::Finish(Err(JobError::OutputInvalid(a))) }
                    },
                    Ok(()) => {
                        let n = self.plan.stages.len();
                        let end = self.plan.stages[n - 1].high;
                        let out = self.plan.output.clone();
                        self.phase = Phase::Done;
                        Step { emits: vec![end], action: Action::Finish(Ok(out)) }
                    },
                }
            },
            _ => Step { emits: Vec::new(), action: Action::Ignore },
        }
    }
}

/// A finished run takes no further action, whatever it is told.
pub proof fn finished_run_stays_finished(plan: Pipeline, evs: Seq<Event>)
    ensures
        forall|k: int| 0 <= k < drive(plan, Phase::Done, evs).len() ==> #[trigger] drive(plan, Phase::Done, evs)[k] == Action::Ignore,
        drive(plan, Phase::Done, evs).len() == evs.len(),
    decreases evs.len(),
{
    if evs.len() > 0 {
        finished_run_stays_finished(plan, evs.drop_first());
        let rest = drive(plan, Phase::Done, evs.drop_first());
        assert(drive(plan, Phase::Done, evs) == seq![Action::Ignore] + rest);
    }
}

/// When stage `i` fails, the run finishes at once with an error naming stage
/// `i` (the workspace, with every file the earlier stages wrote, is removed
/// then), and no later stage is ever started.
pub proof fn failed_stage_ends_run(plan: Pipeline, i: usize, e: StageError, later: Seq<Event>)
    requires
        plan.wf(),
        i < plan.stages@.len(),
    ensures
        ({
            let acts = drive(plan, Phase::Running(i), seq![Event::StageExited(Err(e))] + later);
            &&& acts.len() == later.len() + 1
            &&& acts[0] == Action::Finish(Err(JobError::StageFailed(i, e)))
            &&& forall|k: int| 1 <= k < acts.len() ==> #[trigger] acts[k] == Action::Ignore
        }),
{
    let evs = seq![Event::StageExited(Err(e))] + later;
    assert(evs.drop_first() =~= later);
    finished_run_stays_finished(plan, later);
    let acts = drive(plan, Phase::Running(i), evs);
    assert(acts == seq![Action::Finish(Err(JobError::StageFailed(i, e)))] + drive(plan, Phase::Done, later));
    assert forall|k: int| 1 <= k < acts.len() implies #[trigger] acts[k] == Action::Ignore by {
        assert(acts[k] == drive(plan, Phase::Done, later)[k - 1]);
    }
}

/// A file that fails its check ends the run with the matching error, even
/// though the process that wrote it exited well.
pub proof fn bad_artifact_ends_run(plan: Pipeline, phase: Phase, s: ArtifactStatus)
    requires
        plan.wf(),
        phase_ok(plan, phase),
        phase is Checking || phase is CheckingOutput,
        artifact_verdict(s) is Err,
    ensures
        transition(plan, phase, Event::Checked(s)).0 == Phase::Done,
        transition(plan, phase, Event::Checked(s)).2 == (match phase {
            Phase::Checking(i) => Action::Finish(Err(JobError::ArtifactInvalid(i, artifact_verdict(s)->Err_0))),
            _ => Action::Finish(Err(JobError::OutputInvalid(artifact_verdict(s)->Err_0))),
        }),
{
}

/// The phase a run reaches from `phase` through the events `evs`.
pub open spec fn run_to(plan: Pipeline, phase: Phase, evs: Seq<Event>) -> Phase
    decreases evs.len(),
{
    if evs.len() == 0 {
        phase
    } else {
        run_to(plan, transition(plan, phase, evs[0]).0, evs.drop_first())
    }
}

/// The progress values a run reports from `phase` through the events `evs`.
pub open spec fn reports(plan: Pipeline, phase: Phase, evs: Seq<Event>) -> Seq<u64>
    decreases evs.len(),
{
    if evs.len() == 0 {
        Seq::empty()
    } else {
        let (next, emits, _) = transition(plan, phase, evs[0]);
        emits + reports(plan, next, evs.drop_first())
    }
}

proof fn lemma_drive_concat(plan: Pipeline, phase: Phase, a: Seq<Event>, b: Seq<Event>)
    ensures
        drive(plan, phase, a + b) == drive(plan, phase, a) + drive(plan, run_to(plan, phase, a), b),
        reports(plan, phase, a + b) == reports(plan, phase, a) + reports(plan, run_to(plan, phase, a), b),
        run_to(plan, phase, a + b) == run_to(plan, run_to(plan, phase, a), b),
    decreases a.len(),
{
    if a.len() == 0 {
        assert(a + b =~= b);
    } else {
        let next = transition(plan, phase, a[0]).0;
        assert((a + b).drop_first() =~= a.drop_first() + b);
        assert((a + b)[0] == a[0]);
        lemma_drive_concat(plan, next, a.drop_first(), b);
        assert(drive(plan, phase, a + b) =~= drive(plan, phase, a) + drive(plan, run_to(plan, phase, a), b));
        assert(reports(plan, phase, a + b) =~= reports(plan, phase, a) + reports(plan, run_to(plan, phase, a), b));
    }
}

/// What a host reports when stage `i` exits well and its artifact, if it
/// has one, passes its check.
pub open spec fn stage_ok_events(plan: Pipeline, i: int) -> Seq<Event> {
    if plan.stages@[i].artifact is Some {
        seq![Event::StageExited(Ok(())), Event::Checked(ArtifactStatus::Present(crate::job::MIN_ARTIFACT_BYTES))]
    } else {
        seq![Event::StageExited(Ok(()))]
    }
}

/// Every stage from `i` on exits well and every check passes.
pub open spec fn all_ok_events(plan: Pipeline, i: int) -> Seq<Event>
    decreases plan.stages@.len() - i,
{
    if i < 0 || i >= plan.stages@.len() {
        seq![Event::Checked(ArtifactStatus::Present(crate::job::MIN_ARTIFACT_BYTES))]
    } else {
        stage_ok_events(plan, i) + all_ok_events(plan, i + 1)
    }
}

proof fn lemma_stage_ok(plan: Pipeline, i: int)
    requires
        plan.wf(),
        0 <= i < plan.stages@.len(),
    ensures
        run_to(plan, Phase::Running(i as usize), stage_ok_events(plan, i)) == advance(plan, i).0,
        reports(plan, Phase::Running(i as usize), stage_ok_events(plan, i)) == advance(plan, i).1,
        drive(plan, Phase::Running(i as usize), stage_ok_events(plan, i)).last() == advance(plan, i).2,
        drive(plan, Phase::Running(i as usize), stage_ok_events(plan, i)).len() > 0,
{
    let evs = stage_ok_events(plan, i);
    let p = Phase::Running(i as usize);
    reveal_with_fuel(reports, 3);
    reveal_with_fuel(drive, 3);
    reveal_with_fuel(run_to, 3);
    assert(artifact_verdict(ArtifactStatus::Present(crate::job::MIN_ARTIFACT_BYTES)) == Ok::<(), ArtifactError>(()));
    if plan.stages@[i].artifact is Some {
        let rest = evs.drop_first();
        assert(rest.drop_first() =~= Seq::<Event>::empty());
        let q = Phase::Checking(i as usize);
        assert(transition(plan, p, evs[0]).0 == q);
        assert(reports(plan, q, rest) =~= advance(plan, i).1 + Seq::<u64>::empty());
        assert(reports(plan, p, evs) =~= advance(plan, i).1);
        assert(drive(plan, q, rest) =~= seq![advance(plan, i).2]);
    } else {
        assert(evs.drop_first() =~= Seq::<Event>::empty());
        assert(reports(plan, p, evs) =~= advance(plan, i).1);
        assert(drive(plan, p, evs) =~= seq![advance(plan, i).2]);
    }
}

proof fn lemma_all_ok_from(plan: Pipeline, i: int)
    requires
        plan.wf(),
        0 <= i < plan.stages@.len(),
    ensures
        drive(plan, Phase::Running(i as usize), all_ok_events(plan, i)).len() > 0,
        drive(plan, Phase::Running(i as usize), all_ok_events(plan, i)).last() == Action::Finish(
            Ok::<String, JobError>(plan.output),
        ),
        reports(plan, Phase::Running(i as usize), all_ok_events(plan, i)).len() > 0,
        reports(plan, Phase::Running(i as usize), all_ok_events(plan, i)).last() == plan.stages@.last().high,
        run_to(plan, Phase::Running(i as usize), all_ok_events(plan, i)) == Phase::Done,
    decreases plan.stages@.len() - i,
{
    let p = Phase::Running(i as usize);
    let a = stage_ok_events(plan, i);
    let b = all_ok_events(plan, i + 1);
    lemma_stage_ok(plan, i);
    lemma_drive_concat(plan, p, a, b);
    assert(artifact_verdict(ArtifactStatus::Present(crate::job::MIN_ARTIFACT_BYTES)) == Ok::<(), ArtifactError>(()));
    if i + 1 < plan.stages@.len() {
        lemma_all_ok_from(plan, i + 1);
    } else {
        reveal_with_fuel(reports, 2);
        reveal_with_fuel(drive, 2);
        reveal_with_fuel(run_to, 2);
        let q = Phase::CheckingOutput;
        assert(b == seq![Event::Checked(ArtifactStatus::Present(crate::job::MIN_ARTIFACT_BYTES))]);
        assert(run_to(plan, p, a) == q);
        assert(b.drop_first() =~= Seq::<Event>::empty());
        assert(reports(plan, q, b) =~= seq![plan.stages@.last().high]);
        assert(drive(plan, q, b) =~= seq![Action::Finish(Ok::<String, JobError>(plan.output))]);
    }
}

/// A job whose stages all exit well and whose files all pass their checks
/// finishes with its declared output path, and the last progress value it
/// reports is the end of the last stage's range (100% for a job that covers
/// the whole range).
pub proof fn successful_run_reaches_the_end(plan: Pipeline)
    requires
        plan.wf(),
    ensures
        ({
            let evs = all_ok_events(plan, 0);
            &&& drive(plan, Phase::Running(0), evs).last() == Action::Finish(Ok::<String, JobError>(plan.output))
            &&& reports(plan, Phase::Running(0), evs).last() == plan.stages@.last().high
            &&& run_to(plan, Phase::Running(0), evs) == Phase::Done
        }),
{
    lemma_all_ok_from(plan, 0);
}

} // verus!
