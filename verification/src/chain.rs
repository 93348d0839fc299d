//! Building and finishing one running chain.
//!
//! [`ChainRun`] decides, for a pipeline of `n` stages, what has to happen
//! next: which stage to spawn and where its input comes from, when to collect
//! the final stage, and which upstream stages are still to be reaped. The
//! caller performs each step on the operating system and answers with a
//! [`ChainEvent`].

use crate::failure::{Failure, FailureModel};
use crate::stage::PipelineSpec;
use vstd::prelude::*;

verus! {

/// What the final stage of a chain left behind.
///
/// A non-zero exit code is data, not a failure.
#[derive(Debug, Clone, PartialEq, Eq)]
pub struct PipelineResult {
    /// The captured standard output.
    pub stdout: Vec<u8>,
    /// The captured standard error.
    pub stderr: Vec<u8>,
    /// The exit code; `None` where the process ended without one.
    pub exit_code: Option<i32>,
}

/// The mathematical value of a [`PipelineResult`].
pub struct PipelineResultModel {
    pub stdout: Seq<u8>,
    pub stderr: Seq<u8>,
    pub exit_code: Option<i32>,
}

impl View for PipelineResult {
    type V = PipelineResultModel;

    open spec fn view(&self) -> PipelineResultModel {
        PipelineResultModel {
            stdout: self.stdout@,
            stderr: self.stderr@,
            exit_code: self.exit_code,
        }
    }
}

impl PipelineResult {
    /// Tells whether the final stage exited with code zero.
    pub fn success(&self) -> (r: bool)
        ensures
            r == (self.exit_code == Some(0i32)),
    {
        match self.exit_code {
            Some(code) => code == 0,
            None => false,
        }
    }
}

/// Where a stage reads its standard input from.
#[derive(Debug, Clone, Copy, PartialEq, Eq, Structural)]
pub enum StdinSource {
    /// The stage is the head of the chain: its input is not redirected and
    /// stays the caller's own.
    Inherited,
    /// The captured standard output of the stage with this index, which is
    /// moved into the new stage and belongs to nobody else afterwards.
    Upstream(usize),
}

/// The next step that the caller has to perform on a chain.
#[derive(Debug, Clone, Copy, PartialEq, Eq, Structural)]
pub enum ChainDirective {
    /// Start stage `stage` with its input taken from `stdin` and its standard
    /// output captured. The standard error is captured too where
    /// `capture_stderr` is set, which it is for the final stage alone. Answer
    /// with `Spawned` or `SpawnFailed`.
    Spawn { stage: usize, stdin: StdinSource, capture_stderr: bool },
    /// Read the standard output of stage `stage`, the final one, to its end
    /// and wait for the process. Answer with `Collected` or `CollectFailed`.
    Collect { stage: usize },
    /// Wait for stage `stage`, which is not the final one, and discard what
    /// the wait returns. Answer with `Reaped`.
    Reap { stage: usize },
    /// Nothing is left to do; the handles of stages that are still running
    /// are released without waiting.
    Stop,
}

/// What the caller reports after performing a directive.
#[derive(Debug, Clone, PartialEq, Eq)]
pub enum ChainEvent {
    Spawned,
    SpawnFailed { cause: String },
    Collected { result: PipelineResult },
    CollectFailed { cause: String },
    Reaped,
}

/// The mathematical value of a [`ChainEvent`].
pub enum ChainEventModel {
    Spawned,
    SpawnFailed { cause: Seq<char> },
    Collected { result: PipelineResultModel },
    CollectFailed { cause: Seq<char> },
    Reaped,
}

impl View for ChainEvent {
    type V = ChainEventModel;

    open spec fn view(&self) -> ChainEventModel {
        match *self {
            ChainEvent::Spawned => ChainEventModel::Spawned,
            ChainEvent::SpawnFailed { cause } => ChainEventModel::SpawnFailed { cause: cause@ },
            ChainEvent::Collected { result } => ChainEventModel::Collected { result: result@ },
            ChainEvent::CollectFailed { cause } => ChainEventModel::CollectFailed { cause: cause@ },
            ChainEvent::Reaped => ChainEventModel::Reaped,
        }
    }
}

/// How far a chain has come.
pub enum ChainState {
    /// Stages `0..next` are running; stage `next` is to be spawned.
    Spawning { next: nat },
    /// Every stage is running; the final one is to be collected.
    Collecting,
    /// The final stage has exited with `result`; the stages `0..next` have
    /// been reaped and stage `next` is to be reaped.
    Reaping { next: nat, result: PipelineResultModel },
    /// The chain is finished.
    Done { outcome: Result<PipelineResultModel, FailureModel> },
}

/// The mathematical value of a [`ChainRun`]: a chain of `stages` stages in
/// state `state`.
pub struct ChainModel {
    pub stages: nat,
    pub state: ChainState,
}

impl ChainModel {
    /// A chain has at least one stage, and never points past its stages.
    pub open spec fn wf(self) -> bool {
        &&& self.stages >= 1
        &&& self.state matches ChainState::Spawning { next } ==> next < self.stages
        &&& self.state matches ChainState::Reaping { next, .. } ==> next + 1 < self.stages
    }

    /// A fresh chain of `stages` stages, none of them spawned.
    pub open spec fn init(stages: nat) -> ChainModel {
        ChainModel { stages, state: ChainState::Spawning { next: 0 } }
    }

    /// The step that is due in this state.
    pub open spec fn directive(self) -> ChainDirective {
        match self.state {
            ChainState::Spawning { next } => ChainDirective::Spawn {
                stage: next as usize,
                stdin: if next == 0 {
                    StdinSource::Inherited
                } else {
                    StdinSource::Upstream((next - 1) as usize)
                },
                capture_stderr: next + 1 == self.stages,
            },
            ChainState::Collecting => ChainDirective::Collect { stage: (self.stages - 1) as usize },
            ChainState::Reaping { next, .. } => ChainDirective::Reap { stage: next as usize },
            ChainState::Done { .. } => ChainDirective::Stop,
        }
    }

    /// The state after the final stage was collected with `result`: upstream
    /// stages, if there are any, are reaped from the head on.
    pub open spec fn collected(self, result: PipelineResultModel) -> ChainModel {
        if self.stages > 1 {
            ChainModel { state: ChainState::Reaping { next: 0, result }, ..self }
        } else {
            ChainModel { state: ChainState::Done { outcome: Ok(result) }, ..self }
        }
    }

    /// The state after `event`. An event that does not answer the directive
    /// that is due changes nothing.
    pub open spec fn step(self, event: ChainEventModel) -> ChainModel {
        match (self.state, event) {
            (ChainState::Spawning { next }, ChainEventModel::Spawned) => if next + 1 < self.stages {
                ChainModel { state: ChainState::Spawning { next: next + 1 }, ..self }
            } else {
                ChainModel { state: ChainState::Collecting, ..self }
            },
            (ChainState::Spawning { next }, ChainEventModel::SpawnFailed { cause }) => ChainModel {
                state: ChainState::Done {
                    outcome: Err(FailureModel::SpawnFailure { stage_index: next, cause }),
                },
                ..self
            },
            (ChainState::Collecting, ChainEventModel::Collected { result }) => self.collected(
                result,
            ),
            (ChainState::Collecting, ChainEventModel::CollectFailed { cause }) => ChainModel {
                state: ChainState::Done { outcome: Err(FailureModel::CollectionFailure { cause }) },
                ..self
            },
            (ChainState::Reaping { next, result }, ChainEventModel::Reaped) => if next + 2
                < self.stages {
                ChainModel { state: ChainState::Reaping { next: next + 1, result }, ..self }
            } else {
                ChainModel { state: ChainState::Done { outcome: Ok(result) }, ..self }
            },
            _ => self,
        }
    }
}

#[derive(Debug)]
enum Progress {
    Spawning { next: usize },
    Collecting,
    Reaping { next: usize, result: PipelineResult },
    Done { outcome: Result<PipelineResult, Failure> },
}

/// The view of an outcome: the result or the failure by its value.
pub open spec fn outcome_view(outcome: Result<PipelineResult, Failure>) -> Result<
    PipelineResultModel,
    FailureModel,
> {
    match outcome {
        Ok(result) => Ok(result@),
        Err(failure) => Err(failure@),
    }
}

/// One chain on its way from the spawn of its head to the collected output
/// of its final stage.
#[derive(Debug)]
pub struct ChainRun {
    stages: usize,
    progress: Progress,
}

impl View for ChainRun {
    type V = ChainModel;

    closed spec fn view(&self) -> ChainModel {
        ChainModel {
            stages: self.stages as nat,
            state: match self.progress {
                Progress::Spawning { next } => ChainState::Spawning { next: next as nat },
                Progress::Collecting => ChainState::Collecting,
                Progress::Reaping { next, result } => ChainState::Reaping {
                    next: next as nat,
                    result: result@,
                },
                Progress::Done { outcome } => ChainState::Done { outcome: outcome_view(outcome) },
            },
        }
    }
}

impl ChainRun {
    #[verifier::type_invariant]
    closed spec fn inv(&self) -> bool {
        self@.wf()
    }

    /// Starts a chain for `spec`: nothing is spawned yet.
    pub fn new(spec: &PipelineSpec) -> (run: ChainRun)
        ensures
            run@ == ChainModel::init(spec@.len()),
            run@.wf(),
    {
        let stages: usize = spec.len();
        ChainRun { stages, progress: Progress::Spawning { next: 0 } }
    }

    /// The step that the caller has to perform now.
    pub fn directive(&self) -> (d: ChainDirective)
        ensures
            self@.wf(),
            d == self@.directive(),
    {
        proof {
            use_type_invariant(self);
        }
        match &self.progress {
            Progress::Spawning { next } => ChainDirective::Spawn {
                stage: *next,
                stdin: if *next == 0 {
                    StdinSource::Inherited
                } else {
                    StdinSource::Upstream(*next - 1)
                },
                capture_stderr: *next + 1 == self.stages,
            },
            Progress::Collecting => ChainDirective::Collect { stage: self.stages - 1 },
            Progress::Reaping { next, .. } => ChainDirective::Reap { stage: *next },
            Progress::Done { .. } => ChainDirective::Stop,
        }
    }

    /// Takes in what the caller reports and moves on.
    pub fn step(self, event: ChainEvent) -> (next: ChainRun)
        ensures
            self@.wf(),
            next@.wf(),
            next@ == self@.step(event@),
    {
        proof {
            use_type_invariant(&self);
        }
        let ChainRun { stages, progress } = self;
        match progress {
            Progress::Spawning { next } => match event {
                ChainEvent::Spawned => if next + 1 < stages {
                    ChainRun { stages, progress: Progress::Spawning { next: next + 1 } }
                } else {
                    ChainRun { stages, progress: Progress::Collecting }
                },
                ChainEvent::SpawnFailed { cause } => ChainRun {
                    stages,
                    progress: Progress::Done {
                        outcome: Err(Failure::SpawnFailure { stage_index: next, cause }),
                    },
                },
                _ => ChainRun { stages, progress: Progress::Spawning { next } },
            },
            Progress::Collecting => match event {
                ChainEvent::Collected { result } => if stages > 1 {
                    ChainRun { stages, progress: Progress::Reaping { next: 0, result } }
                } else {
                    ChainRun { stages, progress: Progress::Done { outcome: Ok(result) } }
                },
                ChainEvent::CollectFailed { cause } => ChainRun {
                    stages,
                    progress: Progress::Done { outcome: Err(Failure::CollectionFailure { cause }) },
                },
                _ => ChainRun { stages, progress: Progress::Collecting },
            },
            Progress::Reaping { next, result } => match event {
                ChainEvent::Reaped => if next + 2 < stages {
                    ChainRun { stages, progress: Progress::Reaping { next: next + 1, result } }
                } else {
                    ChainRun { stages, progress: Progress::Done { outcome: Ok(result) } }
                },
                _ => ChainRun { stages, progress: Progress::Reaping { next, result } },
            },
            Progress::Done { outcome } => ChainRun { stages, progress: Progress::Done { outcome } },
        }
    }

    /// The outcome of the chain once it is finished, `None` before.
    pub fn outcome(self) -> (r: Option<Result<PipelineResult, Failure>>)
        ensures
            match r {
                Some(outcome) => self@.state == (ChainState::Done {
                    outcome: outcome_view(outcome),
                }),
                None => !(self@.state is Done),
            },
    {
        match self.progress {
            Progress::Done { outcome } => Some(outcome),
            _ => None,
        }
    }
}

impl ChainModel {
    /// The state after the events `events`, taken in one after the other.
    pub open spec fn run(self, events: Seq<ChainEventModel>) -> ChainModel
        decreases events.len(),
    {
        if events.len() == 0 {
            self
        } else {
            self.run(events.drop_last()).step(events.last())
        }
    }
}

/// What the caller reports of a chain of `stages` stages in which every step
/// succeeds and the final stage leaves `result`.
pub open spec fn success_events(stages: nat, result: PipelineResultModel) -> Seq<ChainEventModel> {
    Seq::new(
        2 * stages,
        |p: int|
            if p < stages {
                ChainEventModel::Spawned
            } else if p == stages {
                ChainEventModel::Collected { result }
            } else {
                ChainEventModel::Reaped
            },
    )
}

/// The state of a chain of `stages` stages after `p` successful steps: the
/// stages are spawned from the head on, then the final stage is collected,
/// then the others are reaped from the head on.
pub open spec fn planned(stages: nat, p: nat, result: PipelineResultModel) -> ChainState {
    if p < stages {
        ChainState::Spawning { next: p }
    } else if p == stages {
        ChainState::Collecting
    } else if p < 2 * stages {
        ChainState::Reaping { next: (p - stages - 1) as nat, result }
    } else {
        ChainState::Done { outcome: Ok(result) }
    }
}

/// Every step leaves the chain in a state that a chain can be in.
pub proof fn law_chain_step_keeps_wf(m: ChainModel, event: ChainEventModel)
    requires
        m.wf(),
    ensures
        m.step(event).wf(),
{
}

/// A finished chain stays as it is, whatever is reported.
pub proof fn law_done_is_final(m: ChainModel, event: ChainEventModel)
    requires
        m.state is Done,
    ensures
        m.step(event) == m,
        m.directive() == ChainDirective::Stop,
{
}

/// A chain in which every step succeeds goes through its plan: after `p`
/// steps it is in the planned state. So stage 0 is spawned first, on the
/// caller's own input; each later stage is spawned on the captured output of
/// the stage before it; then the final stage is collected; then every other
/// stage is reaped; and the outcome is the collected result, untouched.
pub proof fn law_chain_success(stages: nat, result: PipelineResultModel, p: nat)
    requires
        1 <= stages <= usize::MAX,
        p <= 2 * stages,
    ensures
        ({
            let m = ChainModel::init(stages).run(success_events(stages, result).take(p as int));
            &&& m == ChainModel { stages, state: planned(stages, p, result) }
            &&& p == 0 ==> m.directive() == ChainDirective::Spawn {
                stage: 0,
                stdin: StdinSource::Inherited,
                capture_stderr: stages == 1,
            }
            &&& 0 < p < stages ==> m.directive() == ChainDirective::Spawn {
                stage: p as usize,
                stdin: StdinSource::Upstream((p - 1) as usize),
                capture_stderr: p + 1 == stages,
            }
            &&& p == stages ==> m.directive() == ChainDirective::Collect {
                stage: (stages - 1) as usize,
            }
            &&& stages < p < 2 * stages ==> m.directive() == ChainDirective::Reap {
                stage: (p - stages - 1) as usize,
            }
            &&& p == 2 * stages ==> m.directive() == ChainDirective::Stop && m.state
                == (ChainState::Done { outcome: Ok(result) })
        }),
    decreases p,
{
    let events = success_events(stages, result);
    if p == 0 {
        assert(events.take(0).len() == 0);
    } else {
        law_chain_success(stages, result, (p - 1) as nat);
        assert(events.take(p as int).drop_last() =~= events.take(p - 1));
        assert(events.take(p as int).last() == events[p - 1]);
    }
}

/// No captured output feeds two stages: each stage but the head reads from the
/// stage right before it, so two different stages read from two different
/// ones, and the output of the final stage feeds none.
pub proof fn law_streams_are_not_shared(stages: nat, result: PipelineResultModel, p: nat, q: nat)
    requires
        stages <= usize::MAX,
        0 < p < q < stages,
    ensures
        ({
            let events = success_events(stages, result);
            let first = ChainModel::init(stages).run(events.take(p as int)).directive();
            let second = ChainModel::init(stages).run(events.take(q as int)).directive();
            &&& first matches ChainDirective::Spawn { stdin: StdinSource::Upstream(a), .. }
            &&& second matches ChainDirective::Spawn { stdin: StdinSource::Upstream(b), .. }
            &&& a == p - 1
            &&& b == q - 1
            &&& a != b
            &&& b + 1 < stages
        }),
{
    law_chain_success(stages, result, p);
    law_chain_success(stages, result, q);
}

/// A stage that cannot be started ends the chain at once, with a spawn
/// failure that names the stage and the cause; the stages before it are
/// neither collected nor reaped.
pub proof fn law_spawn_failure(stages: nat, at: nat, cause: Seq<char>)
    requires
        at < stages <= usize::MAX,
    ensures
        ({
            let events = Seq::new(at, |p: int| ChainEventModel::Spawned).push(
                ChainEventModel::SpawnFailed { cause },
            );
            let m = ChainModel::init(stages).run(events);
            &&& m.state == (ChainState::Done {
                outcome: Err(FailureModel::SpawnFailure { stage_index: at, cause }),
            })
            &&& m.directive() == ChainDirective::Stop
        }),
{
    let result = PipelineResultModel { stdout: Seq::empty(), stderr: Seq::empty(), exit_code: None };
    let spawned = Seq::new(at, |p: int| ChainEventModel::Spawned);
    let events = spawned.push(ChainEventModel::SpawnFailed { cause });
    law_chain_success(stages, result, at);
    assert(spawned =~= success_events(stages, result).take(at as int));
    assert(events.drop_last() =~= spawned);
}

/// A failure to collect the final stage ends the chain at once, with a
/// collection failure that carries the cause.
pub proof fn law_collect_failure(stages: nat, cause: Seq<char>)
    requires
        1 <= stages <= usize::MAX,
    ensures
        ({
            let events = Seq::new(stages, |p: int| ChainEventModel::Spawned).push(
                ChainEventModel::CollectFailed { cause },
            );
            let m = ChainModel::init(stages).run(events);
            &&& m.state == (ChainState::Done {
                outcome: Err(FailureModel::CollectionFailure { cause }),
            })
            &&& m.directive() == ChainDirective::Stop
        }),
{
    let result = PipelineResultModel { stdout: Seq::empty(), stderr: Seq::empty(), exit_code: None };
    let spawned = Seq::new(stages, |p: int| ChainEventModel::Spawned);
    let events = spawned.push(ChainEventModel::CollectFailed { cause });
    law_chain_success(stages, result, stages);
    assert(spawned =~= success_events(stages, result).take(stages as int));
    assert(events.drop_last() =~= spawned);
}

} // verus!
