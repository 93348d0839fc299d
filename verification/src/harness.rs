//! The benchmark harness: warmup rounds, measured iterations, validation of
//! the captured output and collection of timing samples.
//!
//! [`Harness`] decides what has to happen next in a run; the caller reads the
//! clock and runs the chain when asked to, and answers with a
//! [`HarnessEvent`]. A warmup round is a chain that is built and finished and
//! whose result is dropped unseen. A measured iteration is, in this order:
//! the start of the clock where timing is on, one chain, the judgement of its
//! output, and the reading of the clock where timing is on.

use crate::chain::{PipelineResult, PipelineResultModel};
use crate::failure::{Failure, FailureModel};
use crate::text::{decode_lossy, lossy_text};
use vstd::prelude::*;

verus! {

/// The settings of one benchmarked command.
#[derive(Debug, Clone, PartialEq, Eq)]
pub struct RunConfig {
    /// The number of measured iterations.
    pub iterations: u32,
    /// The number of warmup rounds that precede them.
    pub warmup: u32,
    /// Whether each measured iteration is timed.
    pub timing_enabled: bool,
    /// Whether each elapsed time is reported as it is, in place of a summary
    /// at the end.
    pub raw_timing: bool,
    /// The text that the captured output has to equal, if any.
    pub expected_output: Option<String>,
}

impl Default for RunConfig {
    /// Ten measured iterations after three warmup rounds, untimed, with no
    /// expectation.
    fn default() -> (c: RunConfig)
        ensures
            c.iterations == 10,
            c.warmup == 3,
            !c.timing_enabled,
            !c.raw_timing,
            c.expected_output is None,
    {
        RunConfig {
            iterations: 10,
            warmup: 3,
            timing_enabled: false,
            raw_timing: false,
            expected_output: None,
        }
    }
}

/// The mathematical value of a [`RunConfig`].
pub struct RunConfigModel {
    pub iterations: nat,
    pub warmup: nat,
    pub timing_enabled: bool,
    pub raw_timing: bool,
    pub expected_output: Option<Seq<char>>,
}

/// The view of an optional text.
pub open spec fn option_text(text: Option<String>) -> Option<Seq<char>> {
    match text {
        Some(t) => Some(t@),
        None => None,
    }
}

impl View for RunConfig {
    type V = RunConfigModel;

    open spec fn view(&self) -> RunConfigModel {
        RunConfigModel {
            iterations: self.iterations as nat,
            warmup: self.warmup as nat,
            timing_enabled: self.timing_enabled,
            raw_timing: self.raw_timing,
            expected_output: option_text(self.expected_output),
        }
    }
}

impl RunConfigModel {
    /// Whether elapsed times are collected for a summary.
    pub open spec fn aggregates(self) -> bool {
        self.timing_enabled && !self.raw_timing
    }

    /// The phase in which a measured iteration begins.
    pub open spec fn opening(self) -> Phase {
        if self.timing_enabled {
            Phase::Starting
        } else {
            Phase::Running
        }
    }
}

/// One round of a run, counted from zero within its kind.
#[derive(Debug, Clone, Copy, PartialEq, Eq, Structural)]
pub enum Round {
    Warmup(u32),
    Measured(u32),
}

/// The mathematical value of a [`Round`].
pub enum RoundModel {
    Warmup(nat),
    Measured(nat),
}

impl View for Round {
    type V = RoundModel;

    open spec fn view(&self) -> RoundModel {
        match *self {
            Round::Warmup(i) => RoundModel::Warmup(i as nat),
            Round::Measured(i) => RoundModel::Measured(i as nat),
        }
    }
}

/// Why a run was aborted, and in which round.
#[derive(Debug, Clone, PartialEq, Eq)]
pub struct RunFailure {
    pub round: Round,
    pub failure: Failure,
}

/// The mathematical value of a [`RunFailure`].
pub struct RunFailureModel {
    pub round: RoundModel,
    pub failure: FailureModel,
}

impl View for RunFailure {
    type V = RunFailureModel;

    open spec fn view(&self) -> RunFailureModel {
        RunFailureModel { round: self.round@, failure: self.failure@ }
    }
}

/// Something that the caller has to show to the user.
#[derive(Debug, Clone, PartialEq, Eq)]
pub enum Report {
    /// The result of one measured iteration, with its output as text.
    Output { text: String, result: PipelineResult },
    /// The elapsed time of one measured iteration, in nanoseconds.
    RawTime { nanos: u128 },
    /// The elapsed times of all measured iterations, in order, in nanoseconds.
    Summary { samples: Vec<u128> },
}

/// The mathematical value of a [`Report`].
pub enum ReportModel {
    Output { text: Seq<char>, result: PipelineResultModel },
    RawTime { nanos: u128 },
    Summary { samples: Seq<u128> },
}

impl View for Report {
    type V = ReportModel;

    open spec fn view(&self) -> ReportModel {
        match *self {
            Report::Output { text, result } => ReportModel::Output { text: text@, result: result@ },
            Report::RawTime { nanos } => ReportModel::RawTime { nanos },
            Report::Summary { samples } => ReportModel::Summary { samples: samples@ },
        }
    }
}

/// The view of an optional report.
pub open spec fn option_report(report: Option<Report>) -> Option<ReportModel> {
    match report {
        Some(r) => Some(r@),
        None => None,
    }
}

/// The view of a verdict.
pub open spec fn verdict_view(verdict: Result<Option<Report>, Failure>) -> Result<
    Option<ReportModel>,
    FailureModel,
> {
    match verdict {
        Ok(report) => Ok(option_report(report)),
        Err(failure) => Err(failure@),
    }
}

/// What the harness waits for.
#[derive(Debug, Clone, Copy, PartialEq, Eq, Structural)]
pub enum Phase {
    /// The chain of a warmup round is running.
    Warmup,
    /// The clock of a measured iteration is being started.
    Starting,
    /// The chain of a measured iteration is running.
    Running,
    /// The clock of a measured iteration is being read.
    Timing,
    /// The run is over.
    Stopped,
}

/// The next step that the caller has to perform in a run.
#[derive(Debug, Clone, Copy, PartialEq, Eq, Structural)]
pub enum HarnessDirective {
    /// Record a start timestamp. Answer with `ClockStarted`.
    StartClock,
    /// Build and finish a fresh chain. Answer with `ChainFinished`.
    RunChain,
    /// Measure the time since the start timestamp. Answer with `Elapsed`.
    ReadClock,
    /// The run is over.
    Stop,
}

/// What the caller reports after performing a directive.
#[derive(Debug, PartialEq, Eq)]
pub enum HarnessEvent {
    ClockStarted,
    ChainFinished { outcome: Result<PipelineResult, Failure> },
    Elapsed { nanos: u128 },
}

/// The mathematical value of a [`HarnessEvent`].
pub enum HarnessEventModel {
    ClockStarted,
    ChainFinished { outcome: Result<PipelineResultModel, FailureModel> },
    Elapsed { nanos: u128 },
}

impl View for HarnessEvent {
    type V = HarnessEventModel;

    open spec fn view(&self) -> HarnessEventModel {
        match *self {
            HarnessEvent::ClockStarted => HarnessEventModel::ClockStarted,
            HarnessEvent::ChainFinished { outcome } => HarnessEventModel::ChainFinished {
                outcome: crate::chain::outcome_view(outcome),
            },
            HarnessEvent::Elapsed { nanos } => HarnessEventModel::Elapsed { nanos },
        }
    }
}

/// The judgement of one captured output, already decoded to `text`.
///
/// Without an expectation the result is reported. With one, the text has to
/// equal it character for character: an equal text is accepted silently, and
/// any other is an `ExpectationMismatch` that carries both.
pub open spec fn verdict(
    expected: Option<Seq<char>>,
    text: Seq<char>,
    result: PipelineResultModel,
) -> Result<Option<ReportModel>, FailureModel> {
    match expected {
        None => Ok(Some(ReportModel::Output { text, result })),
        Some(x) => if x == text {
            Ok(None)
        } else {
            Err(FailureModel::ExpectationMismatch { expected: x, actual: text })
        },
    }
}

/// Judges one captured output, already decoded to `text`, against the
/// expectation.
pub fn judge(expected: &Option<String>, text: String, result: PipelineResult) -> (r: Result<
    Option<Report>,
    Failure,
>)
    ensures
        verdict_view(r) == verdict(option_text(*expected), text@, result@),
{
    match expected {
        None => Ok(Some(Report::Output { text, result })),
        Some(x) => if *x == text {
            Ok(None)
        } else {
            Err(Failure::ExpectationMismatch { expected: x.clone(), actual: text })
        },
    }
}

/// Tells whether a sample variance exists for `samples`: it divides by one
/// less than their number, so it takes two samples at least. The variance of
/// fewer is reported as undefined.
pub fn variance_is_defined(samples: &Vec<u128>) -> (b: bool)
    ensures
        b == (samples@.len() >= 2),
{
    samples.len() >= 2
}

/// The mathematical value of a [`Harness`].
#[verifier::ext_equal]
pub struct HarnessModel {
    pub config: RunConfigModel,
    pub phase: Phase,
    /// The warmup rounds that are over.
    pub warmups_done: nat,
    /// The measured iterations that are over.
    pub iterations_done: nat,
    /// The elapsed times collected for the summary, in iteration order.
    pub samples: Seq<u128>,
    /// Why the run was aborted, if it was.
    pub failure: Option<RunFailureModel>,
}

impl HarnessModel {
    /// What holds of every state that a run can be in.
    pub open spec fn wf(self) -> bool {
        &&& self.warmups_done <= self.config.warmup
        &&& self.iterations_done <= self.config.iterations
        &&& self.phase == Phase::Warmup ==> self.warmups_done < self.config.warmup
            && self.iterations_done == 0
        &&& self.phase == Phase::Starting || self.phase == Phase::Running || self.phase
            == Phase::Timing ==> self.warmups_done == self.config.warmup && self.iterations_done
            < self.config.iterations
        &&& self.phase == Phase::Starting || self.phase == Phase::Timing
            ==> self.config.timing_enabled
        &&& self.failure is Some ==> self.phase == Phase::Stopped && self.samples.len() == 0
        &&& self.failure is None ==> {
            &&& self.phase == Phase::Stopped ==> self.warmups_done == self.config.warmup
                && self.iterations_done == self.config.iterations
            &&& self.samples.len() == if self.config.aggregates() {
                self.iterations_done
            } else {
                0
            }
        }
    }

    /// The state in which `warmups_done` warmup rounds and `iterations_done`
    /// measured iterations are over and nothing has failed: warmup comes
    /// first, then the measured iterations, then the end.
    pub open spec fn resume(
        config: RunConfigModel,
        warmups_done: nat,
        iterations_done: nat,
        samples: Seq<u128>,
    ) -> HarnessModel {
        HarnessModel {
            config,
            phase: if warmups_done < config.warmup {
                Phase::Warmup
            } else if iterations_done < config.iterations {
                config.opening()
            } else {
                Phase::Stopped
            },
            warmups_done,
            iterations_done,
            samples,
            failure: None,
        }
    }

    /// The state in which a run begins.
    pub open spec fn init(config: RunConfigModel) -> HarnessModel {
        HarnessModel::resume(config, 0, 0, Seq::empty())
    }

    /// The step that is due in this state.
    pub open spec fn directive(self) -> HarnessDirective {
        match self.phase {
            Phase::Warmup => HarnessDirective::RunChain,
            Phase::Starting => HarnessDirective::StartClock,
            Phase::Running => HarnessDirective::RunChain,
            Phase::Timing => HarnessDirective::ReadClock,
            Phase::Stopped => HarnessDirective::Stop,
        }
    }

    /// The round that is under way.
    pub open spec fn round(self) -> RoundModel {
        if self.phase == Phase::Warmup {
            RoundModel::Warmup(self.warmups_done)
        } else {
            RoundModel::Measured(self.iterations_done)
        }
    }

    /// The run aborted by `failure` in the round that is under way. What was
    /// collected for the summary is dropped.
    pub open spec fn fail(self, failure: FailureModel) -> HarnessModel {
        HarnessModel {
            phase: Phase::Stopped,
            samples: Seq::empty(),
            failure: Some(RunFailureModel { round: self.round(), failure }),
            ..self
        }
    }

    /// The state after the measured iteration that is under way.
    pub open spec fn iteration_done(self) -> HarnessModel {
        HarnessModel::resume(
            self.config,
            self.warmups_done,
            self.iterations_done + 1,
            self.samples,
        )
    }

    /// The state and the report after the judgement `v` of a measured
    /// iteration's output.
    pub open spec fn judged(self, v: Result<Option<ReportModel>, FailureModel>) -> (
        HarnessModel,
        Option<ReportModel>,
    ) {
        match v {
            Err(failure) => (self.fail(failure), None),
            Ok(report) => (
                if self.config.timing_enabled {
                    HarnessModel { phase: Phase::Timing, ..self }
                } else {
                    self.iteration_done()
                },
                report,
            ),
        }
    }

    /// The state and the report after the clock of a measured iteration was
    /// read as `nanos`.
    pub open spec fn timed(self, nanos: u128) -> (HarnessModel, Option<ReportModel>) {
        if self.config.raw_timing {
            (self.iteration_done(), Some(ReportModel::RawTime { nanos }))
        } else {
            let next = HarnessModel { samples: self.samples.push(nanos), ..self }.iteration_done();
            (
                next,
                if next.phase == Phase::Stopped {
                    Some(ReportModel::Summary { samples: next.samples })
                } else {
                    None
                },
            )
        }
    }

    /// The state after `event`, and what is to be reported. An event that does
    /// not answer the directive that is due changes nothing and reports
    /// nothing.
    pub open spec fn step(self, event: HarnessEventModel) -> (HarnessModel, Option<ReportModel>) {
        match (self.phase, event) {
            (Phase::Warmup, HarnessEventModel::ChainFinished { outcome: Ok(_) }) => (
                HarnessModel::resume(
                    self.config,
                    self.warmups_done + 1,
                    self.iterations_done,
                    self.samples,
                ),
                None,
            ),
            (Phase::Warmup, HarnessEventModel::ChainFinished { outcome: Err(failure) }) => (
                self.fail(failure),
                None,
            ),
            (Phase::Starting, HarnessEventModel::ClockStarted) => (
                HarnessModel { phase: Phase::Running, ..self },
                None,
            ),
            (Phase::Running, HarnessEventModel::ChainFinished { outcome: Err(failure) }) => (
                self.fail(failure),
                None,
            ),
            (Phase::Running, HarnessEventModel::ChainFinished { outcome: Ok(result) }) => self.judged(
                verdict(self.config.expected_output, lossy_text(result.stdout), result),
            ),
            (Phase::Timing, HarnessEventModel::Elapsed { nanos }) => self.timed(nanos),
            _ => (self, None),
        }
    }
}

/// The view of an optional failure of a run.
pub open spec fn option_failure(failure: Option<RunFailure>) -> Option<RunFailureModel> {
    match failure {
        Some(f) => Some(f@),
        None => None,
    }
}

/// One run of the benchmark on its way from the first warmup round to the
/// last measured iteration.
#[derive(Debug)]
pub struct Harness {
    config: RunConfig,
    phase: Phase,
    warmups_done: u32,
    iterations_done: u32,
    samples: Vec<u128>,
    failure: Option<RunFailure>,
}

impl View for Harness {
    type V = HarnessModel;

    closed spec fn view(&self) -> HarnessModel {
        HarnessModel {
            config: self.config@,
            phase: self.phase,
            warmups_done: self.warmups_done as nat,
            iterations_done: self.iterations_done as nat,
            samples: self.samples@,
            failure: option_failure(self.failure),
        }
    }
}

impl Harness {
    #[verifier::type_invariant]
    closed spec fn inv(&self) -> bool {
        self@.wf()
    }

    fn resume(config: RunConfig, warmups_done: u32, iterations_done: u32, samples: Vec<u128>) -> (h:
        Harness)
        requires
            HarnessModel::resume(
                config@,
                warmups_done as nat,
                iterations_done as nat,
                samples@,
            ).wf(),
        ensures
            h@ == HarnessModel::resume(
                config@,
                warmups_done as nat,
                iterations_done as nat,
                samples@,
            ),
    {
        let phase = if warmups_done < config.warmup {
            Phase::Warmup
        } else if iterations_done < config.iterations {
            if config.timing_enabled {
                Phase::Starting
            } else {
                Phase::Running
            }
        } else {
            Phase::Stopped
        };
        Harness { config, phase, warmups_done, iterations_done, samples, failure: None }
    }

    /// Begins a run with `config`: nothing has been run yet.
    pub fn new(config: RunConfig) -> (h: Harness)
        ensures
            h@ == HarnessModel::init(config@),
            h@.wf(),
    {
        Harness::resume(config, 0, 0, Vec::new())
    }

    /// The step that the caller has to perform now.
    pub fn directive(&self) -> (d: HarnessDirective)
        ensures
            self@.wf(),
            d == self@.directive(),
    {
        proof {
            use_type_invariant(self);
        }
        match self.phase {
            Phase::Warmup => HarnessDirective::RunChain,
            Phase::Starting => HarnessDirective::StartClock,
            Phase::Running => HarnessDirective::RunChain,
            Phase::Timing => HarnessDirective::ReadClock,
            Phase::Stopped => HarnessDirective::Stop,
        }
    }

    fn fail(self, failure: Failure) -> (h: Harness)
        requires
            self@.phase == Phase::Warmup || self@.phase == Phase::Running,
        ensures
            h@ == self@.fail(failure@),
    {
        proof {
            use_type_invariant(&self);
        }
        let round = if self.phase == Phase::Warmup {
            Round::Warmup(self.warmups_done)
        } else {
            Round::Measured(self.iterations_done)
        };
        Harness {
            config: self.config,
            phase: Phase::Stopped,
            warmups_done: self.warmups_done,
            iterations_done: self.iterations_done,
            samples: Vec::new(),
            failure: Some(RunFailure { round, failure }),
        }
    }

    fn iteration_done(self) -> (h: Harness)
        requires
            self@.phase == Phase::Running || self@.phase == Phase::Timing,
            !self@.config.aggregates(),
        ensures
            h@ == self@.iteration_done(),
    {
        proof {
            use_type_invariant(&self);
        }
        Harness::resume(self.config, self.warmups_done, self.iterations_done + 1, self.samples)
    }

    fn judged(self, v: Result<Option<Report>, Failure>) -> (r: (Harness, Option<Report>))
        requires
            self@.phase == Phase::Running,
        ensures
            r.0@ == self@.judged(verdict_view(v)).0,
            option_report(r.1) == self@.judged(verdict_view(v)).1,
    {
        proof {
            use_type_invariant(&self);
        }
        match v {
            Err(failure) => (self.fail(failure), None),
            Ok(report) => if self.config.timing_enabled {
                (
                    Harness {
                        config: self.config,
                        phase: Phase::Timing,
                        warmups_done: self.warmups_done,
                        iterations_done: self.iterations_done,
                        samples: self.samples,
                        failure: self.failure,
                    },
                    report,
                )
            } else {
                (self.iteration_done(), report)
            },
        }
    }

    fn timed(self, nanos: u128) -> (r: (Harness, Option<Report>))
        requires
            self@.phase == Phase::Timing,
        ensures
            r.0@ == self@.timed(nanos).0,
            option_report(r.1) == self@.timed(nanos).1,
    {
        proof {
            use_type_invariant(&self);
        }
        if self.config.raw_timing {
            (self.iteration_done(), Some(Report::RawTime { nanos }))
        } else {
            let mut samples = self.samples;
            samples.push(nanos);
            let next = Harness::resume(
                self.config,
                self.warmups_done,
                self.iterations_done + 1,
                samples,
            );
            if next.phase == Phase::Stopped {
                let all = next.samples.clone();
                (next, Some(Report::Summary { samples: all }))
            } else {
                (next, None)
            }
        }
    }

    /// Takes in what the caller reports and moves on; what is returned beside
    /// the new state is to be shown to the user.
    ///
    /// The output of a measured iteration is decoded as UTF-8, malformed
    /// sequences replaced, before it is judged.
    pub fn step(self, event: HarnessEvent) -> (r: (Harness, Option<Report>))
        ensures
            self@.wf(),
            r.0@.wf(),
            r.0@ == self@.step(event@).0,
            option_report(r.1) == self@.step(event@).1,
    {
        proof {
            use_type_invariant(&self);
        }
        match self.phase {
            Phase::Warmup => match event {
                HarnessEvent::ChainFinished { outcome } => match outcome {
                    Ok(_) => (
                        Harness::resume(
                            self.config,
                            self.warmups_done + 1,
                            self.iterations_done,
                            self.samples,
                        ),
                        None,
                    ),
                    Err(failure) => (self.fail(failure), None),
                },
                _ => (self, None),
            },
            Phase::Starting => match event {
                HarnessEvent::ClockStarted => (
                    Harness {
                        config: self.config,
                        phase: Phase::Running,
                        warmups_done: self.warmups_done,
                        iterations_done: self.iterations_done,
                        samples: self.samples,
                        failure: self.failure,
                    },
                    None,
                ),
                _ => (self, None),
            },
            Phase::Running => match event {
                HarnessEvent::ChainFinished { outcome } => match outcome {
                    Ok(result) => {
                        let text = decode_lossy(&result.stdout);
                        let v = judge(&self.config.expected_output, text, result);
                        self.judged(v)
                    },
                    Err(failure) => (self.fail(failure), None),
                },
                _ => (self, None),
            },
            Phase::Timing => match event {
                HarnessEvent::Elapsed { nanos } => self.timed(nanos),
                _ => (self, None),
            },
            Phase::Stopped => (self, None),
        }
    }

    /// The settings of the run.
    pub fn config(&self) -> (c: &RunConfig)
        ensures
            c@ == self@.config,
    {
        &self.config
    }

    /// What the harness waits for.
    pub fn phase(&self) -> (p: Phase)
        ensures
            p == self@.phase,
    {
        self.phase
    }

    /// Tells whether the run is over.
    pub fn is_finished(&self) -> (b: bool)
        ensures
            b == (self@.phase == Phase::Stopped),
    {
        self.phase == Phase::Stopped
    }

    /// The number of warmup rounds that are over.
    pub fn warmups_done(&self) -> (n: u32)
        ensures
            n == self@.warmups_done,
    {
        self.warmups_done
    }

    /// The number of measured iterations that are over.
    pub fn iterations_done(&self) -> (n: u32)
        ensures
            n == self@.iterations_done,
    {
        self.iterations_done
    }

    /// The elapsed times collected for the summary so far.
    pub fn samples(&self) -> (s: &Vec<u128>)
        ensures
            s@ == self@.samples,
    {
        &self.samples
    }

    /// Why the run was aborted, if it was.
    pub fn failure(&self) -> (f: &Option<RunFailure>)
        ensures
            option_failure(*f) == self@.failure,
    {
        &self.failure
    }
}

} // verus!
