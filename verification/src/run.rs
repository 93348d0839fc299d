//! What a whole run amounts to.
//!
//! The harness takes one event at a time. This module says what comes of it
//! from the first directive to the last, when every directive is answered as
//! a given [`World`] answers it, and proves that the steps of the harness add
//! up to exactly that.

use crate::chain::PipelineResultModel;
use crate::failure::FailureModel;
use crate::harness::{
    verdict, HarnessEventModel, HarnessModel, Phase, ReportModel, RoundModel, RunConfigModel,
    RunFailureModel,
};
use crate::text::lossy_text;
use vstd::prelude::*;

verus! {

/// What happens outside the harness during one run.
///
/// `outcome` gives the end of the chain of each round, the rounds counted
/// from zero over warmup rounds and measured iterations together. `elapsed`
/// gives what the clock reads at the end of each measured iteration, the
/// iterations counted from zero.
pub struct World {
    pub outcome: spec_fn(nat) -> Result<PipelineResultModel, FailureModel>,
    pub elapsed: spec_fn(nat) -> u128,
}

impl World {
    /// Whether the chain of round `round` finishes and its output, decoded,
    /// is `text`.
    pub open spec fn prints(self, round: nat, text: Seq<char>) -> bool {
        (self.outcome)(round) matches Ok(result) && lossy_text(result.stdout) == text
    }
}

/// The reports of a step as a sequence: one report or none.
pub open spec fn report_seq(report: Option<ReportModel>) -> Seq<ReportModel> {
    match report {
        Some(r) => seq![r],
        None => Seq::empty(),
    }
}

/// The clock readings of the first `n` measured iterations, in order.
pub open spec fn samples_upto(world: World, n: nat) -> Seq<u128> {
    Seq::new(n, |j: int| (world.elapsed)(j as nat))
}

impl RunConfigModel {
    /// The number of rounds of a run that nothing aborts.
    pub open spec fn rounds(self) -> nat {
        self.warmup + self.iterations
    }

    /// Why round `round` aborts the run, if it does: its chain failed, or it is
    /// a measured iteration whose output is not the expected one. A warmup
    /// round whose chain finished never aborts, whatever it printed.
    pub open spec fn failure_of(self, world: World, round: nat) -> Option<FailureModel> {
        match (world.outcome)(round) {
            Err(failure) => Some(failure),
            Ok(result) => if round < self.warmup {
                None
            } else {
                match verdict(self.expected_output, lossy_text(result.stdout), result) {
                    Err(failure) => Some(failure),
                    Ok(_) => None,
                }
            },
        }
    }

    /// Whether round `round` lets the run go on.
    pub open spec fn passes(self, world: World, round: nat) -> bool {
        self.failure_of(world, round) is None
    }

    /// The first round from `from` on that does not pass; the number of rounds
    /// where all of them pass.
    pub open spec fn stop_from(self, world: World, from: nat) -> nat
        decreases self.rounds() - from,
    {
        if from >= self.rounds() {
            self.rounds()
        } else if !self.passes(world, from) {
            from
        } else {
            self.stop_from(world, from + 1)
        }
    }

    /// The round at which the run stops: the first one that does not pass, or
    /// the number of rounds where all of them pass.
    pub open spec fn stop_round(self, world: World) -> nat {
        self.stop_from(world, 0)
    }

    /// What measured iteration `j` reports of its output when it passes: the
    /// result with its text where no expectation is configured, else nothing.
    pub open spec fn output_report(self, world: World, j: nat) -> Seq<ReportModel> {
        match (world.outcome)(self.warmup + j) {
            Ok(result) => if self.expected_output is None {
                seq![ReportModel::Output { text: lossy_text(result.stdout), result }]
            } else {
                Seq::empty()
            },
            Err(_) => Seq::empty(),
        }
    }

    /// What measured iteration `j` reports of its time: the reading itself in
    /// raw mode; in aggregated mode nothing, but for the last iteration, which
    /// reports the readings of all iterations; nothing without timing.
    pub open spec fn timing_report(self, world: World, j: nat) -> Seq<ReportModel> {
        if !self.timing_enabled {
            Seq::empty()
        } else if self.raw_timing {
            seq![ReportModel::RawTime { nanos: (world.elapsed)(j) }]
        } else if j + 1 == self.iterations {
            seq![ReportModel::Summary { samples: samples_upto(world, self.iterations) }]
        } else {
            Seq::empty()
        }
    }

    /// The reports of the measured iterations `lo..hi`, in order.
    pub open spec fn reports_between(self, world: World, lo: nat, hi: nat) -> Seq<ReportModel>
        decreases hi - lo,
    {
        if lo >= hi {
            Seq::empty()
        } else {
            self.output_report(world, lo) + self.timing_report(world, lo) + self.reports_between(
                world,
                lo + 1,
                hi,
            )
        }
    }

    /// The number of measured iterations that are over when the run stops at
    /// round `stop`.
    pub open spec fn measured_before(self, stop: nat) -> nat {
        if stop <= self.warmup {
            0
        } else {
            (stop - self.warmup) as nat
        }
    }

    /// The state in which a run ends that stops at round `stop`: at the first
    /// round that does not pass, or after the last round where all pass.
    pub open spec fn end_state(self, world: World, stop: nat) -> HarnessModel {
        if stop >= self.rounds() {
            HarnessModel {
                config: self,
                phase: Phase::Stopped,
                warmups_done: self.warmup,
                iterations_done: self.iterations,
                samples: if self.aggregates() {
                    samples_upto(world, self.iterations)
                } else {
                    Seq::empty()
                },
                failure: None,
            }
        } else {
            HarnessModel {
                config: self,
                phase: Phase::Stopped,
                warmups_done: if stop < self.warmup {
                    stop
                } else {
                    self.warmup
                },
                iterations_done: self.measured_before(stop),
                samples: Seq::empty(),
                failure: Some(
                    RunFailureModel {
                        round: if stop < self.warmup {
                            RoundModel::Warmup(stop)
                        } else {
                            RoundModel::Measured(self.measured_before(stop))
                        },
                        failure: self.failure_of(world, stop)->0,
                    },
                ),
            }
        }
    }
}

impl HarnessModel {
    /// The number of the round that is under way, counted over warmup rounds
    /// and measured iterations together.
    pub open spec fn round_index(self) -> nat {
        self.warmups_done + self.iterations_done
    }

    /// The event by which `world` answers the directive that is due.
    pub open spec fn answer(self, world: World) -> HarnessEventModel {
        match self.phase {
            Phase::Starting => HarnessEventModel::ClockStarted,
            Phase::Timing => HarnessEventModel::Elapsed {
                nanos: (world.elapsed)(self.iterations_done),
            },
            _ => HarnessEventModel::ChainFinished { outcome: (world.outcome)(self.round_index()) },
        }
    }

    /// The state after at most `steps` directives, each answered by `world`,
    /// and the reports made on the way, in order. The run ends before that
    /// where the harness stops.
    pub open spec fn drive(self, world: World, steps: nat) -> (HarnessModel, Seq<ReportModel>)
        decreases steps,
    {
        if steps == 0 || self.phase == Phase::Stopped {
            (self, Seq::empty())
        } else {
            let (next, report) = self.step(self.answer(world));
            let (last, rest) = next.drive(world, (steps - 1) as nat);
            (last, report_seq(report) + rest)
        }
    }

    /// A number of steps that is enough to end the run from this state.
    pub open spec fn effort(self) -> int {
        3 * (self.config.rounds() - self.round_index()) - match self.phase {
            Phase::Running => 1int,
            Phase::Timing => 2int,
            _ => 0int,
        }
    }

    /// What is still to be reported from this state on when the run stops at
    /// round `stop`.
    pub open spec fn pending(self, world: World, stop: nat) -> Seq<ReportModel> {
        let passed = self.config.measured_before(stop);
        if self.phase == Phase::Timing {
            self.config.timing_report(world, self.iterations_done) + self.config.reports_between(
                world,
                self.iterations_done + 1,
                passed,
            )
        } else {
            self.config.reports_between(world, self.iterations_done, passed)
        }
    }
}

/// From any state of a run in which nothing has failed, the steps of the
/// harness lead to the end state of the round at which the world stops the
/// run, and report what is pending, no more and no less.
proof fn lemma_drive(m: HarnessModel, world: World, steps: nat, stop: nat)
    requires
        m.wf(),
        m.failure is None,
        m.config.aggregates() ==> m.samples == samples_upto(world, m.iterations_done),
        m.round_index() <= stop <= m.config.rounds(),
        m.phase == Phase::Timing ==> m.round_index() < stop,
        forall|r: nat| m.round_index() <= r < stop ==> m.config.passes(world, r),
        stop < m.config.rounds() ==> !m.config.passes(world, stop),
        steps >= m.effort(),
    ensures
        m.drive(world, steps).0 == m.config.end_state(world, stop),
        m.drive(world, steps).1 == m.pending(world, stop),
    decreases steps,
{
    let c = m.config;
    let id = m.iterations_done;
    if m.phase == Phase::Stopped {
        assert(m.samples =~= c.end_state(world, stop).samples);
        assert(m.pending(world, stop) =~= Seq::empty());
    } else {
        let (next, report) = m.step(m.answer(world));
        let rest = (steps - 1) as nat;
        if m.phase != Phase::Timing && m.phase != Phase::Starting && m.round_index() == stop {
            // The round under way does not pass: the run is aborted here.
            assert(!c.passes(world, stop));
            assert(next.phase == Phase::Stopped);
            assert(next.drive(world, rest) == (next, Seq::<ReportModel>::empty()));
            assert(next == c.end_state(world, stop));
            assert(report is None);
            assert(m.pending(world, stop) =~= Seq::empty());
            assert(m.drive(world, steps).1 =~= Seq::empty());
        } else {
            if m.phase == Phase::Warmup || m.phase == Phase::Running {
                assert(c.passes(world, m.round_index()));
            }
            if m.phase == Phase::Timing && c.aggregates() {
                assert(next.samples =~= samples_upto(world, id + 1));
            }
            lemma_drive(next, world, rest, stop);
            assert(m.drive(world, steps).0 == next.drive(world, rest).0);
            assert(m.drive(world, steps).1 == report_seq(report) + next.drive(world, rest).1);
            assert(report_seq(report) + next.pending(world, stop) =~= m.pending(world, stop));
        }
    }
}

/// What is picked out of a sequence of reports: of each report what `pick`
/// gives for it, in order.
pub open spec fn gather<T>(reports: Seq<ReportModel>, pick: spec_fn(ReportModel) -> Option<T>) -> Seq<
    T,
>
    decreases reports.len(),
{
    if reports.len() == 0 {
        Seq::empty()
    } else {
        (match pick(reports[0]) {
            Some(t) => seq![t],
            None => Seq::empty(),
        }) + gather(reports.skip(1), pick)
    }
}

/// The texts of the reported outputs, in order.
pub open spec fn output_texts(reports: Seq<ReportModel>) -> Seq<Seq<char>> {
    gather(
        reports,
        |r: ReportModel|
            match r {
                ReportModel::Output { text, .. } => Some(text),
                _ => None,
            },
    )
}

/// The elapsed times reported one by one, in order.
pub open spec fn raw_times(reports: Seq<ReportModel>) -> Seq<u128> {
    gather(
        reports,
        |r: ReportModel|
            match r {
                ReportModel::RawTime { nanos } => Some(nanos),
                _ => None,
            },
    )
}

/// The sample sequences of the reported summaries, in order.
pub open spec fn summaries(reports: Seq<ReportModel>) -> Seq<Seq<u128>> {
    gather(
        reports,
        |r: ReportModel|
            match r {
                ReportModel::Summary { samples } => Some(samples),
                _ => None,
            },
    )
}

/// Picking from two sequences in a row is picking from each.
proof fn lemma_gather_add<T>(
    a: Seq<ReportModel>,
    b: Seq<ReportModel>,
    pick: spec_fn(ReportModel) -> Option<T>,
)
    ensures
        gather(a + b, pick) == gather(a, pick) + gather(b, pick),
    decreases a.len(),
{
    if a.len() == 0 {
        assert(a + b =~= b);
        assert(gather(a, pick) + gather(b, pick) =~= gather(b, pick));
    } else {
        assert((a + b)[0] == a[0]);
        assert((a + b).skip(1) =~= a.skip(1) + b);
        lemma_gather_add(a.skip(1), b, pick);
        assert(gather(a + b, pick) =~= gather(a, pick) + gather(b, pick));
    }
}

/// Picking from one report or none.
proof fn lemma_gather_short<T>(a: Seq<ReportModel>, pick: spec_fn(ReportModel) -> Option<T>)
    requires
        a.len() <= 1,
    ensures
        gather(a, pick) == if a.len() == 0 {
            Seq::<T>::empty()
        } else {
            match pick(a[0]) {
                Some(t) => seq![t],
                None => Seq::empty(),
            }
        },
{
    if a.len() == 1 {
        assert(a.skip(1).len() == 0);
        assert(gather(a.skip(1), pick) =~= Seq::<T>::empty());
        assert(gather(a, pick) =~= match pick(a[0]) {
            Some(t) => seq![t],
            None => Seq::empty(),
        });
    }
}

/// Every report is an output, a raw time or a summary.
pub proof fn lemma_three_kinds(reports: Seq<ReportModel>)
    ensures
        reports.len() == output_texts(reports).len() + raw_times(reports).len() + summaries(
            reports,
        ).len(),
    decreases reports.len(),
{
    if reports.len() > 0 {
        lemma_three_kinds(reports.skip(1));
    }
}

/// What the measured iterations `lo..hi` report when each of them passes: one
/// output each, of its own round, where no expectation is configured; one raw
/// time each, its own, in raw mode; and in aggregated mode one summary, of
/// the readings of all iterations, made by the last iteration.
pub proof fn lemma_reports_between(config: RunConfigModel, world: World, lo: nat, hi: nat)
    requires
        lo <= hi,
        forall|j: nat| lo <= j < hi ==> (#[trigger] (world.outcome)(config.warmup + j)) is Ok,
    ensures
        output_texts(config.reports_between(world, lo, hi)) == if config.expected_output is None {
            Seq::new(
                (hi - lo) as nat,
                |j: int| lossy_text(((world.outcome)((config.warmup + lo + j) as nat))->Ok_0.stdout),
            )
        } else {
            Seq::empty()
        },
        raw_times(config.reports_between(world, lo, hi)) == if config.timing_enabled
            && config.raw_timing {
            Seq::new((hi - lo) as nat, |j: int| (world.elapsed)((lo + j) as nat))
        } else {
            Seq::empty()
        },
        summaries(config.reports_between(world, lo, hi)) == if config.aggregates() && lo
            < config.iterations <= hi {
            seq![samples_upto(world, config.iterations)]
        } else {
            Seq::empty()
        },
    decreases hi - lo,
{
    let all = config.reports_between(world, lo, hi);
    if lo >= hi {
        assert(output_texts(all) =~= Seq::empty());
        assert(raw_times(all) =~= Seq::empty());
        assert(summaries(all) =~= Seq::empty());
    } else {
        let out = config.output_report(world, lo);
        let time = config.timing_report(world, lo);
        let rest = config.reports_between(world, lo + 1, hi);
        lemma_reports_between(config, world, lo + 1, hi);
        assert((world.outcome)(config.warmup + lo) is Ok);
        assert(all == (out + time) + rest);
        {
            let pick = |r: ReportModel|
                match r {
                    ReportModel::Output { text, .. } => Some(text),
                    _ => None,
                };
            lemma_gather_add(out + time, rest, pick);
            lemma_gather_add(out, time, pick);
            lemma_gather_short(out, pick);
            lemma_gather_short(time, pick);
            assert(output_texts(all) == gather(out, pick) + gather(time, pick) + gather(rest, pick));
            assert(gather(rest, pick) == output_texts(rest));
            if config.expected_output is None {
                let whole = Seq::new(
                    (hi - lo) as nat,
                    |j: int|
                        lossy_text(
                            ((world.outcome)((config.warmup + lo + j) as nat))->Ok_0.stdout,
                        ),
                );
                assert(output_texts(all) =~= whole) by {
                    assert forall|j: int| 0 <= j < whole.len() implies output_texts(all)[j]
                        == whole[j] by {
                        if j > 0 {
                            assert((config.warmup + (lo + 1) + (j - 1)) as nat == (config.warmup
                                + lo + j) as nat);
                        }
                    }
                }
            } else {
                assert(output_texts(all) =~= Seq::empty());
            }
        }
        {
            let pick = |r: ReportModel|
                match r {
                    ReportModel::RawTime { nanos } => Some(nanos),
                    _ => None,
                };
            lemma_gather_add(out + time, rest, pick);
            lemma_gather_add(out, time, pick);
            lemma_gather_short(out, pick);
            lemma_gather_short(time, pick);
            assert(raw_times(all) == gather(out, pick) + gather(time, pick) + gather(rest, pick));
            assert(gather(rest, pick) == raw_times(rest));
            if config.timing_enabled && config.raw_timing {
                let whole = Seq::new((hi - lo) as nat, |j: int| (world.elapsed)((lo + j) as nat));
                assert(raw_times(all) =~= whole) by {
                    assert forall|j: int| 0 <= j < whole.len() implies raw_times(all)[j]
                        == whole[j] by {
                        if j > 0 {
                            assert(((lo + 1) + (j - 1)) as nat == (lo + j) as nat);
                        }
                    }
                }
            } else {
                assert(raw_times(all) =~= Seq::empty());
            }
        }
        {
            let pick = |r: ReportModel|
                match r {
                    ReportModel::Summary { samples } => Some(samples),
                    _ => None,
                };
            lemma_gather_add(out + time, rest, pick);
            lemma_gather_add(out, time, pick);
            lemma_gather_short(out, pick);
            lemma_gather_short(time, pick);
            assert(summaries(all) == gather(out, pick) + gather(time, pick) + gather(rest, pick));
            assert(gather(rest, pick) == summaries(rest));
            if config.aggregates() && lo < config.iterations <= hi {
                assert(summaries(all) =~= seq![samples_upto(world, config.iterations)]);
            } else {
                assert(summaries(all) =~= Seq::empty());
            }
        }
    }
}

/// A run in which the rounds before `stop` pass, and round `stop` does not
/// or does not exist, ends in the end state of `stop` and has then reported
/// the measured iterations before `stop`.
pub proof fn lemma_run_stops_at(config: RunConfigModel, world: World, stop: nat, steps: nat)
    requires
        stop <= config.rounds(),
        forall|r: nat| r < stop ==> config.passes(world, r),
        stop < config.rounds() ==> !config.passes(world, stop),
        steps >= 3 * config.rounds(),
    ensures
        HarnessModel::init(config).drive(world, steps).0 == config.end_state(world, stop),
        HarnessModel::init(config).drive(world, steps).1 == config.reports_between(
            world,
            0,
            config.measured_before(stop),
        ),
{
    let start = HarnessModel::init(config);
    assert(start.samples =~= samples_upto(world, 0));
    lemma_drive(start, world, steps, stop);
}

/// The stop round is a round up to which all rounds pass, and which does not
/// pass itself unless it is past the last round.
pub proof fn lemma_stop_from(config: RunConfigModel, world: World, from: nat)
    requires
        from <= config.rounds(),
    ensures
        from <= config.stop_from(world, from) <= config.rounds(),
        forall|r: nat| from <= r < config.stop_from(world, from) ==> config.passes(world, r),
        config.stop_from(world, from) < config.rounds() ==> !config.passes(
            world,
            config.stop_from(world, from),
        ),
    decreases config.rounds() - from,
{
    if from < config.rounds() && config.passes(world, from) {
        lemma_stop_from(config, world, from + 1);
    }
}

/// A whole run, from the first directive on, whatever the world does: it ends
/// at the first round that does not pass, or after the last round where all
/// pass, and has then reported the measured iterations before that round,
/// each once and in order, and nothing else.
pub proof fn law_run(config: RunConfigModel, world: World, steps: nat)
    requires
        steps >= 3 * config.rounds(),
    ensures
        HarnessModel::init(config).drive(world, steps).0 == config.end_state(
            world,
            config.stop_round(world),
        ),
        HarnessModel::init(config).drive(world, steps).1 == config.reports_between(
            world,
            0,
            config.measured_before(config.stop_round(world)),
        ),
{
    lemma_stop_from(config, world, 0);
    lemma_run_stops_at(config, world, config.stop_round(world), steps);
}

/// Running the same chain twice gives the same outputs: where the chains of
/// two runs with the same settings end alike, round for round, the two runs
/// report the same output texts in the same order, complete the same number
/// of iterations and end with the same failure or with none, whatever their
/// clocks read.
pub proof fn law_outputs_are_repeatable(
    config: RunConfigModel,
    first: World,
    second: World,
    steps: nat,
)
    requires
        first.outcome == second.outcome,
        steps >= 3 * config.rounds(),
    ensures
        ({
            let (end1, reports1) = HarnessModel::init(config).drive(first, steps);
            let (end2, reports2) = HarnessModel::init(config).drive(second, steps);
            &&& output_texts(reports1) == output_texts(reports2)
            &&& end1.failure == end2.failure
            &&& end1.warmups_done == end2.warmups_done
            &&& end1.iterations_done == end2.iterations_done
        }),
{
    lemma_stop_from(config, first, 0);
    let stop = config.stop_round(first);
    assert forall|r: nat| r < stop implies config.passes(second, r) by {
        assert(config.passes(first, r));
        assert((first.outcome)(r) == (second.outcome)(r));
    }
    if stop < config.rounds() {
        assert((first.outcome)(stop) == (second.outcome)(stop));
    }
    lemma_run_stops_at(config, first, stop, steps);
    lemma_run_stops_at(config, second, stop, steps);
    let passed = config.measured_before(stop);
    assert forall|j: nat| 0 <= j < passed implies (#[trigger] (first.outcome)(
        config.warmup + j,
    )) is Ok by {
        assert(config.passes(first, config.warmup + j));
    }
    assert forall|j: nat| 0 <= j < passed implies (#[trigger] (second.outcome)(
        config.warmup + j,
    )) is Ok by {
        assert((first.outcome)(config.warmup + j) == (second.outcome)(config.warmup + j));
    }
    lemma_reports_between(config, first, 0, passed);
    lemma_reports_between(config, second, 0, passed);
    let texts1 = output_texts(config.reports_between(first, 0, passed));
    let texts2 = output_texts(config.reports_between(second, 0, passed));
    assert(texts1 =~= texts2) by {
        if config.expected_output is None {
            assert forall|j: int| 0 <= j < passed implies texts1[j] == texts2[j] by {
                assert((first.outcome)((config.warmup + 0 + j) as nat) == (second.outcome)(
                    (config.warmup + 0 + j) as nat,
                ));
            }
        }
    }
}

/// Warmup rounds are never reported. A run of `warmup` warmup rounds and
/// `iterations` measured iterations that nothing aborts ends with all of them
/// done and has reported exactly this: where no expectation is configured,
/// one output for each measured iteration, that of its own round; in raw
/// mode, one elapsed time for each measured iteration; in aggregated mode,
/// one summary, which holds one sample for each measured iteration. Outputs
/// and clock readings of warmup rounds occur nowhere.
pub proof fn law_completed_run(config: RunConfigModel, world: World, steps: nat)
    requires
        forall|r: nat| r < config.rounds() ==> config.passes(world, r),
        steps >= 3 * config.rounds(),
    ensures
        ({
            let (end, reports) = HarnessModel::init(config).drive(world, steps);
            &&& end.phase == Phase::Stopped
            &&& end.failure is None
            &&& end.warmups_done == config.warmup
            &&& end.iterations_done == config.iterations
            &&& output_texts(reports) == if config.expected_output is None {
                Seq::new(
                    config.iterations,
                    |j: int|
                        lossy_text(((world.outcome)((config.warmup + j) as nat))->Ok_0.stdout),
                )
            } else {
                Seq::empty()
            }
            &&& raw_times(reports) == if config.timing_enabled && config.raw_timing {
                samples_upto(world, config.iterations)
            } else {
                Seq::empty()
            }
            &&& summaries(reports) == if config.aggregates() && config.iterations > 0 {
                seq![samples_upto(world, config.iterations)]
            } else {
                Seq::empty()
            }
            &&& samples_upto(world, config.iterations).len() == config.iterations
            &&& reports.len() == output_texts(reports).len() + raw_times(reports).len()
                + summaries(reports).len()
        }),
{
    let reports = HarnessModel::init(config).drive(world, steps).1;
    lemma_run_stops_at(config, world, config.rounds(), steps);
    assert forall|j: nat| 0 <= j < config.iterations implies (#[trigger] (world.outcome)(
        config.warmup + j,
    )) is Ok by {
        assert(config.passes(world, config.warmup + j));
    }
    lemma_reports_between(config, world, 0, config.iterations);
    lemma_three_kinds(reports);
    assert(raw_times(reports) =~= if config.timing_enabled && config.raw_timing {
        samples_upto(world, config.iterations)
    } else {
        Seq::empty()
    });
    assert(output_texts(reports) =~= if config.expected_output is None {
        Seq::new(
            config.iterations,
            |j: int| lossy_text(((world.outcome)((config.warmup + j) as nat))->Ok_0.stdout),
        )
    } else {
        Seq::empty()
    });
}

/// Raw and aggregated timing see the same clock readings: the samples of the
/// summary that a completed run makes in aggregated mode are the elapsed
/// times that the same run reports one by one in raw mode.
pub proof fn law_modes_agree(config: RunConfigModel, world: World, steps: nat)
    requires
        config.timing_enabled,
        config.iterations > 0,
        forall|r: nat| r < config.rounds() ==> config.passes(world, r),
        steps >= 3 * config.rounds(),
    ensures
        ({
            let raw = RunConfigModel { raw_timing: true, ..config };
            let aggregated = RunConfigModel { raw_timing: false, ..config };
            summaries(HarnessModel::init(aggregated).drive(world, steps).1) == seq![
                raw_times(HarnessModel::init(raw).drive(world, steps).1),
            ]
        }),
{
    let raw = RunConfigModel { raw_timing: true, ..config };
    let aggregated = RunConfigModel { raw_timing: false, ..config };
    assert forall|r: nat| r < raw.rounds() implies raw.passes(world, r) by {
        assert(config.passes(world, r));
    }
    assert forall|r: nat| r < aggregated.rounds() implies aggregated.passes(world, r) by {
        assert(config.passes(world, r));
    }
    law_completed_run(raw, world, steps);
    law_completed_run(aggregated, world, steps);
}

/// With an expectation and a chain that prints exactly that, every time, the
/// run goes through all its iterations and ends without a failure.
pub proof fn law_expected_output_completes(
    config: RunConfigModel,
    world: World,
    expected: Seq<char>,
    steps: nat,
)
    requires
        config.expected_output == Some(expected),
        forall|r: nat| #[trigger] world.prints(r, expected),
        steps >= 3 * config.rounds(),
    ensures
        ({
            let (end, reports) = HarnessModel::init(config).drive(world, steps);
            &&& end.phase == Phase::Stopped
            &&& end.failure is None
            &&& end.iterations_done == config.iterations
            &&& output_texts(reports).len() == 0
        }),
{
    assert forall|r: nat| r < config.rounds() implies config.passes(world, r) by {
        assert(world.prints(r, expected));
    }
    law_completed_run(config, world, steps);
}

/// With an expectation and a chain that prints something else, the run is
/// aborted in the first measured iteration, with a mismatch that carries both
/// texts: no iteration is completed, nothing is reported and no sample is
/// kept. The warmup rounds before it, which print the same, do not abort
/// the run: they are not judged.
pub proof fn law_mismatch_aborts_first_iteration(
    config: RunConfigModel,
    world: World,
    expected: Seq<char>,
    actual: Seq<char>,
    steps: nat,
)
    requires
        config.iterations > 0,
        config.expected_output == Some(expected),
        actual != expected,
        forall|r: nat| #[trigger] world.prints(r, actual),
        steps >= 3 * config.rounds(),
    ensures
        ({
            let (end, reports) = HarnessModel::init(config).drive(world, steps);
            &&& end.phase == Phase::Stopped
            &&& end.failure == Some(
                RunFailureModel {
                    round: RoundModel::Measured(0),
                    failure: FailureModel::ExpectationMismatch { expected, actual },
                },
            )
            &&& end.iterations_done == 0
            &&& end.samples.len() == 0
            &&& reports.len() == 0
        }),
{
    assert forall|r: nat| r < config.warmup implies config.passes(world, r) by {
        assert(world.prints(r, actual));
    }
    assert(world.prints(config.warmup, actual));
    lemma_run_stops_at(config, world, config.warmup, steps);
}

/// A chain that fails aborts the run in the round in which it fails, with
/// the failure of the chain; the measured iterations before it are reported,
/// and no timing sample is kept.
pub proof fn law_chain_failure_aborts(
    config: RunConfigModel,
    world: World,
    round: nat,
    failure: FailureModel,
    steps: nat,
)
    requires
        round < config.rounds(),
        forall|r: nat| r < round ==> config.passes(world, r),
        (world.outcome)(round) == Err::<PipelineResultModel, FailureModel>(failure),
        steps >= 3 * config.rounds(),
    ensures
        ({
            let (end, reports) = HarnessModel::init(config).drive(world, steps);
            &&& end.phase == Phase::Stopped
            &&& end.failure == Some(
                RunFailureModel {
                    round: if round < config.warmup {
                        RoundModel::Warmup(round)
                    } else {
                        RoundModel::Measured((round - config.warmup) as nat)
                    },
                    failure,
                },
            )
            &&& end.samples.len() == 0
            &&& reports == config.reports_between(world, 0, config.measured_before(round))
        }),
{
    lemma_run_stops_at(config, world, round, steps);
}

/// Once the run is over, nothing moves it and nothing is reported.
pub proof fn law_stopped_is_final(m: HarnessModel, event: HarnessEventModel)
    requires
        m.phase == Phase::Stopped,
    ensures
        m.step(event) == (m, None::<ReportModel>),
{
}

/// A warmup round reports nothing and leaves no sample, however it ends.
pub proof fn law_warmup_is_silent(m: HarnessModel, event: HarnessEventModel)
    requires
        m.wf(),
        m.phase == Phase::Warmup,
    ensures
        m.step(event).1 is None,
        m.step(event).0.samples.len() == 0,
        m.step(event).0.iterations_done == 0,
{
}

/// Every step leaves the run in a state that a run can be in.
pub proof fn law_step_keeps_wf(m: HarnessModel, event: HarnessEventModel)
    requires
        m.wf(),
    ensures
        m.step(event).0.wf(),
{
}

} // verus!
