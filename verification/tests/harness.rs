use pipebench::chain::{ChainDirective, ChainEvent, ChainRun, PipelineResult};
use pipebench::failure::Failure;
use pipebench::harness::{
    judge, Harness, HarnessDirective, HarnessEvent, Phase, Report, Round, RunConfig, RunFailure,
};
use pipebench::tokenizer::tokenize;

fn printed(stdout: &[u8]) -> PipelineResult {
    PipelineResult { stdout: stdout.to_vec(), stderr: Vec::new(), exit_code: Some(0) }
}

fn config(
    iterations: u32,
    warmup: u32,
    timing_enabled: bool,
    raw_timing: bool,
    expected: Option<&str>,
) -> RunConfig {
    RunConfig {
        iterations,
        warmup,
        timing_enabled,
        raw_timing,
        expected_output: expected.map(|s| s.to_string()),
    }
}

struct Trace {
    directives: Vec<HarnessDirective>,
    reports: Vec<Report>,
    end: Harness,
}

/// Runs the harness to its end. `outcome` gives the end of each chain, the
/// chains counted from zero; `elapsed` the reading of the clock, the readings
/// counted from zero.
fn drive(
    config: RunConfig,
    outcome: &dyn Fn(u32) -> Result<PipelineResult, Failure>,
    elapsed: &dyn Fn(u32) -> u128,
) -> Trace {
    let mut harness = Harness::new(config);
    let mut directives = Vec::new();
    let mut reports = Vec::new();
    let mut chains = 0;
    let mut readings = 0;
    loop {
        let directive = harness.directive();
        directives.push(directive);
        let event = match directive {
            HarnessDirective::StartClock => HarnessEvent::ClockStarted,
            HarnessDirective::RunChain => {
                chains += 1;
                HarnessEvent::ChainFinished { outcome: outcome(chains - 1) }
            }
            HarnessDirective::ReadClock => {
                readings += 1;
                HarnessEvent::Elapsed { nanos: elapsed(readings - 1) }
            }
            HarnessDirective::Stop => return Trace { directives, reports, end: harness },
        };
        let (next, report) = harness.step(event);
        harness = next;
        reports.extend(report);
    }
}

fn numbered(round: u32) -> Result<PipelineResult, Failure> {
    Ok(printed(format!("round {}\n", round).as_bytes()))
}

fn output(text: &str) -> Report {
    Report::Output { text: text.to_string(), result: printed(text.as_bytes()) }
}

#[test]
fn judge_reports_without_expectation() {
    let verdict = judge(&None, "hi\n".to_string(), printed(b"hi\n"));
    assert_eq!(verdict, Ok(Some(output("hi\n"))));
}

#[test]
fn judge_accepts_equal_text_silently() {
    let verdict = judge(&Some("HI\n".to_string()), "HI\n".to_string(), printed(b"HI\n"));
    assert_eq!(verdict, Ok(None));
}

#[test]
fn judge_rejects_any_other_text() {
    for actual in ["HI", "hi\n", "HI\n ", "", "HI\n\n"] {
        let verdict = judge(&Some("HI\n".to_string()), actual.to_string(), printed(b"x"));
        assert_eq!(
            verdict,
            Err(Failure::ExpectationMismatch {
                expected: "HI\n".to_string(),
                actual: actual.to_string(),
            })
        );
    }
}

#[test]
fn scenario_upper_case_pipeline_meets_expectation() {
    let spec = tokenize("echo hi | tr a-z A-Z").unwrap();
    assert_eq!(spec.len(), 2);
    assert_eq!(spec.stage(0).unwrap().tokens(), &vec!["echo".to_string(), "hi".to_string()]);
    assert_eq!(
        spec.stage(1).unwrap().tokens(),
        &vec!["tr".to_string(), "a-z".to_string(), "A-Z".to_string()]
    );
    // The chain, with the processes played by the test.
    let mut chain = ChainRun::new(&spec);
    loop {
        let event = match chain.directive() {
            ChainDirective::Spawn { .. } => ChainEvent::Spawned,
            ChainDirective::Collect { stage } => {
                assert_eq!(stage, 1);
                ChainEvent::Collected { result: printed(b"HI\n") }
            }
            ChainDirective::Reap { stage } => {
                assert_eq!(stage, 0);
                ChainEvent::Reaped
            }
            ChainDirective::Stop => break,
        };
        chain = chain.step(event);
    }
    let outcome = chain.outcome().unwrap();
    assert_eq!(outcome, Ok(printed(b"HI\n")));
    // The run: one iteration, no warmup, the output expected.
    let harness = Harness::new(config(1, 0, false, false, Some("HI\n")));
    assert_eq!(harness.directive(), HarnessDirective::RunChain);
    let (harness, report) = harness.step(HarnessEvent::ChainFinished { outcome });
    assert_eq!(report, None);
    assert_eq!(harness.directive(), HarnessDirective::Stop);
    assert!(harness.is_finished());
    assert_eq!(harness.failure(), &None);
    assert_eq!(harness.iterations_done(), 1);
}

#[test]
fn scenario_missing_executable_records_no_sample() {
    let spec = tokenize("surely-no-such-executable").unwrap();
    let chain = ChainRun::new(&spec);
    let chain = chain.step(ChainEvent::SpawnFailed { cause: "No such file or directory".to_string() });
    let outcome = chain.outcome().unwrap();
    assert_eq!(
        outcome,
        Err(Failure::SpawnFailure {
            stage_index: 0,
            cause: "No such file or directory".to_string(),
        })
    );
    let harness = Harness::new(config(10, 0, true, false, None));
    let (harness, _) = harness.step(HarnessEvent::ClockStarted);
    let (harness, report) = harness.step(HarnessEvent::ChainFinished { outcome });
    assert_eq!(report, None);
    assert!(harness.is_finished());
    assert_eq!(harness.samples().len(), 0);
    assert_eq!(harness.iterations_done(), 0);
    assert_eq!(
        harness.failure(),
        &Some(RunFailure {
            round: Round::Measured(0),
            failure: Failure::SpawnFailure {
                stage_index: 0,
                cause: "No such file or directory".to_string(),
            },
        })
    );
}

#[test]
fn warmup_rounds_are_not_reported() {
    let trace = drive(config(3, 2, false, false, None), &numbered, &|_| 0);
    assert_eq!(trace.directives.len(), 2 + 3 + 1);
    assert_eq!(
        trace.reports,
        vec![output("round 2\n"), output("round 3\n"), output("round 4\n")]
    );
    assert_eq!(trace.end.warmups_done(), 2);
    assert_eq!(trace.end.iterations_done(), 3);
    assert_eq!(trace.end.failure(), &None);
}

#[test]
fn raw_mode_reports_each_elapsed_time() {
    let trace = drive(config(3, 2, true, true, None), &numbered, &|i| 100 + i as u128);
    assert_eq!(
        trace.reports,
        vec![
            output("round 2\n"),
            Report::RawTime { nanos: 100 },
            output("round 3\n"),
            Report::RawTime { nanos: 101 },
            output("round 4\n"),
            Report::RawTime { nanos: 102 },
        ]
    );
    assert_eq!(trace.end.samples().len(), 0);
}

#[test]
fn aggregated_mode_reports_one_summary() {
    let trace = drive(config(3, 2, true, false, Some("same\n")), &|_| Ok(printed(b"same\n")), &|i| {
        (7 * (i as u128 + 1)) << 70
    });
    let samples: Vec<u128> = vec![7 << 70, 14 << 70, 21 << 70];
    assert_eq!(trace.reports, vec![Report::Summary { samples: samples.clone() }]);
    assert_eq!(trace.end.samples(), &samples);
    assert_eq!(trace.end.iterations_done(), 3);
}

#[test]
fn timed_iteration_starts_runs_and_reads() {
    let trace = drive(config(2, 1, true, false, None), &numbered, &|_| 5);
    assert_eq!(
        trace.directives,
        vec![
            HarnessDirective::RunChain,
            HarnessDirective::StartClock,
            HarnessDirective::RunChain,
            HarnessDirective::ReadClock,
            HarnessDirective::StartClock,
            HarnessDirective::RunChain,
            HarnessDirective::ReadClock,
            HarnessDirective::Stop,
        ]
    );
}

#[test]
fn raw_and_aggregated_modes_see_the_same_times() {
    let clock = |i: u32| 1_000_000 + 17 * (i as u128) * (i as u128);
    let raw = drive(config(5, 3, true, true, Some("x")), &|_| Ok(printed(b"x")), &clock);
    let aggregated = drive(config(5, 3, true, false, Some("x")), &|_| Ok(printed(b"x")), &clock);
    let times: Vec<u128> = raw
        .reports
        .iter()
        .map(|r| match r {
            Report::RawTime { nanos } => *nanos,
            other => panic!("unexpected report {:?}", other),
        })
        .collect();
    assert_eq!(times.len(), 5);
    assert_eq!(aggregated.reports, vec![Report::Summary { samples: times.clone() }]);
    // The mean of the summary is the average of the raw times, and the
    // variance divides by one less than their number.
    let seconds: Vec<f64> = times.iter().map(|n| *n as f64 / 1e9).collect();
    let mean = seconds.iter().sum::<f64>() / 5.0;
    assert!((mean - 0.001000102).abs() < 1e-12);
    assert!((statistical::mean(&seconds) - mean).abs() < 1e-15);
    let variance = seconds.iter().map(|s| (s - mean) * (s - mean)).sum::<f64>() / 4.0;
    assert!((variance - 1.25715e-14).abs() < 1e-20);
    assert!((statistical::variance(&seconds, None) - variance).abs() < 1e-24);
}

#[test]
fn expected_output_lets_every_iteration_pass() {
    let trace = drive(config(4, 1, false, false, Some("X")), &|_| Ok(printed(b"X")), &|_| 0);
    assert_eq!(trace.reports, Vec::<Report>::new());
    assert_eq!(trace.end.failure(), &None);
    assert_eq!(trace.end.iterations_done(), 4);
    assert_eq!(trace.end.phase(), Phase::Stopped);
    assert_eq!(trace.directives.len(), 1 + 4 + 1);
}

#[test]
fn mismatch_aborts_in_the_first_iteration() {
    let trace = drive(config(4, 2, true, false, Some("X")), &|_| Ok(printed(b"Y")), &|_| 9);
    assert_eq!(
        trace.directives,
        vec![
            HarnessDirective::RunChain,
            HarnessDirective::RunChain,
            HarnessDirective::StartClock,
            HarnessDirective::RunChain,
            HarnessDirective::Stop,
        ]
    );
    assert_eq!(trace.reports, Vec::<Report>::new());
    assert_eq!(trace.end.iterations_done(), 0);
    assert_eq!(trace.end.samples().len(), 0);
    assert_eq!(
        trace.end.failure(),
        &Some(RunFailure {
            round: Round::Measured(0),
            failure: Failure::ExpectationMismatch {
                expected: "X".to_string(),
                actual: "Y".to_string(),
            },
        })
    );
}

#[test]
fn later_mismatch_drops_the_samples() {
    let outcome = |round: u32| {
        if round == 3 {
            Ok(printed(b"bad"))
        } else {
            Ok(printed(b"good"))
        }
    };
    let trace = drive(config(5, 1, true, false, Some("good")), &outcome, &|i| 10 + i as u128);
    assert_eq!(trace.reports, Vec::<Report>::new());
    assert_eq!(trace.end.iterations_done(), 2);
    assert_eq!(trace.end.samples().len(), 0);
    assert_eq!(
        trace.end.failure(),
        &Some(RunFailure {
            round: Round::Measured(2),
            failure: Failure::ExpectationMismatch {
                expected: "good".to_string(),
                actual: "bad".to_string(),
            },
        })
    );
}

#[test]
fn warmup_output_is_not_judged() {
    let outcome = |round: u32| {
        if round < 2 {
            Ok(printed(b"cold"))
        } else {
            Ok(printed(b"warm"))
        }
    };
    let trace = drive(config(2, 2, false, false, Some("warm")), &outcome, &|_| 0);
    assert_eq!(trace.end.failure(), &None);
    assert_eq!(trace.end.iterations_done(), 2);
}

#[test]
fn failing_warmup_aborts_the_run() {
    let outcome = |round: u32| {
        if round == 1 {
            Err(Failure::CollectionFailure { cause: "interrupted".to_string() })
        } else {
            numbered(round)
        }
    };
    let trace = drive(config(3, 4, true, true, None), &outcome, &|_| 0);
    assert_eq!(trace.directives.len(), 3);
    assert_eq!(trace.reports, Vec::<Report>::new());
    assert_eq!(trace.end.warmups_done(), 1);
    assert_eq!(
        trace.end.failure(),
        &Some(RunFailure {
            round: Round::Warmup(1),
            failure: Failure::CollectionFailure { cause: "interrupted".to_string() },
        })
    );
}

#[test]
fn failing_chain_keeps_earlier_reports() {
    let outcome = |round: u32| {
        if round == 2 {
            Err(Failure::SpawnFailure { stage_index: 1, cause: "gone".to_string() })
        } else {
            numbered(round)
        }
    };
    let trace = drive(config(5, 0, true, true, None), &outcome, &|i| i as u128);
    assert_eq!(
        trace.reports,
        vec![
            output("round 0\n"),
            Report::RawTime { nanos: 0 },
            output("round 1\n"),
            Report::RawTime { nanos: 1 },
        ]
    );
    assert_eq!(
        trace.end.failure(),
        &Some(RunFailure {
            round: Round::Measured(2),
            failure: Failure::SpawnFailure { stage_index: 1, cause: "gone".to_string() },
        })
    );
}

#[test]
fn output_is_decoded_with_replacement() {
    let harness = Harness::new(config(1, 0, false, false, None));
    let bytes = vec![b'H', 0xff, b'I', 0xc3, 0xa9, 0xe2, 0x82];
    let result = PipelineResult { stdout: bytes, stderr: b"err".to_vec(), exit_code: Some(2) };
    let (_, report) = harness.step(HarnessEvent::ChainFinished { outcome: Ok(result.clone()) });
    assert_eq!(report, Some(Report::Output { text: "H\u{fffd}Ié\u{fffd}".to_string(), result }));
}

#[test]
fn decoded_output_is_what_is_compared() {
    let expected = "a\u{fffd}b";
    let harness = Harness::new(config(1, 0, false, false, Some(expected)));
    let (harness, report) =
        harness.step(HarnessEvent::ChainFinished { outcome: Ok(printed(&[b'a', 0x80, b'b'])) });
    assert_eq!(report, None);
    assert_eq!(harness.failure(), &None);
    let harness = Harness::new(config(1, 0, false, false, Some("ab")));
    let (harness, _) =
        harness.step(HarnessEvent::ChainFinished { outcome: Ok(printed(&[b'a', 0x80, b'b'])) });
    assert_eq!(
        harness.failure(),
        &Some(RunFailure {
            round: Round::Measured(0),
            failure: Failure::ExpectationMismatch {
                expected: "ab".to_string(),
                actual: expected.to_string(),
            },
        })
    );
}

#[test]
fn non_zero_exit_does_not_abort() {
    let failing = PipelineResult { stdout: b"out".to_vec(), stderr: b"e".to_vec(), exit_code: Some(1) };
    let harness = Harness::new(config(2, 0, false, false, None));
    let (harness, report) = harness.step(HarnessEvent::ChainFinished { outcome: Ok(failing.clone()) });
    assert_eq!(report, Some(Report::Output { text: "out".to_string(), result: failing }));
    assert_eq!(harness.failure(), &None);
    assert_eq!(harness.directive(), HarnessDirective::RunChain);
}

#[test]
fn single_timed_iteration_gives_a_summary_of_one() {
    let trace = drive(config(1, 0, true, false, Some("x")), &|_| Ok(printed(b"x")), &|_| 42);
    assert_eq!(trace.reports, vec![Report::Summary { samples: vec![42] }]);
}

#[test]
fn no_iterations_means_nothing_to_do() {
    let trace = drive(config(0, 0, true, false, None), &numbered, &|_| 1);
    assert_eq!(trace.directives, vec![HarnessDirective::Stop]);
    assert_eq!(trace.reports, Vec::<Report>::new());
    let trace = drive(config(0, 2, true, false, None), &numbered, &|_| 1);
    assert_eq!(
        trace.directives,
        vec![HarnessDirective::RunChain, HarnessDirective::RunChain, HarnessDirective::Stop]
    );
    assert_eq!(trace.reports, Vec::<Report>::new());
    assert_eq!(trace.end.failure(), &None);
}

#[test]
fn harness_ignores_events_out_of_turn() {
    let harness = Harness::new(config(1, 1, true, true, None));
    assert_eq!(harness.phase(), Phase::Warmup);
    let (harness, report) = harness.step(HarnessEvent::ClockStarted);
    assert_eq!((harness.phase(), report), (Phase::Warmup, None));
    let (harness, report) = harness.step(HarnessEvent::Elapsed { nanos: 3 });
    assert_eq!((harness.phase(), report), (Phase::Warmup, None));
    let (harness, _) = harness.step(HarnessEvent::ChainFinished { outcome: numbered(0) });
    assert_eq!(harness.phase(), Phase::Starting);
    let (harness, report) = harness.step(HarnessEvent::ChainFinished { outcome: numbered(7) });
    assert_eq!((harness.phase(), report), (Phase::Starting, None));
    let (harness, _) = harness.step(HarnessEvent::ClockStarted);
    assert_eq!(harness.phase(), Phase::Running);
    let (harness, report) = harness.step(HarnessEvent::Elapsed { nanos: 3 });
    assert_eq!((harness.phase(), report), (Phase::Running, None));
    let (harness, report) = harness.step(HarnessEvent::ChainFinished { outcome: numbered(1) });
    assert_eq!((harness.phase(), report), (Phase::Timing, Some(output("round 1\n"))));
    let (harness, report) = harness.step(HarnessEvent::ChainFinished { outcome: numbered(2) });
    assert_eq!((harness.phase(), report), (Phase::Timing, None));
    let (harness, report) = harness.step(HarnessEvent::Elapsed { nanos: 3 });
    assert_eq!((harness.phase(), report), (Phase::Stopped, Some(Report::RawTime { nanos: 3 })));
    let (harness, report) = harness.step(HarnessEvent::Elapsed { nanos: 4 });
    assert_eq!((harness.phase(), report), (Phase::Stopped, None));
    assert_eq!(harness.iterations_done(), 1);
}

#[test]
fn harness_keeps_its_configuration() {
    let settings = config(10, 3, true, false, Some("x\n"));
    let harness = Harness::new(settings.clone());
    assert_eq!(harness.config(), &settings);
    assert_eq!(harness.warmups_done(), 0);
    assert_eq!(harness.iterations_done(), 0);
    assert!(!harness.is_finished());
}

#[test]
fn variance_takes_two_samples() {
    assert!(!pipebench::harness::variance_is_defined(&Vec::new()));
    assert!(!pipebench::harness::variance_is_defined(&vec![5]));
    assert!(pipebench::harness::variance_is_defined(&vec![5, 5]));
    assert!(pipebench::harness::variance_is_defined(&vec![1, 2, 3]));
}

#[test]
fn default_configuration() {
    assert_eq!(RunConfig::default(), config(10, 3, false, false, None));
}

#[test]
fn same_chain_gives_same_outputs_twice() {
    let first = drive(config(4, 2, true, true, None), &numbered, &|i| 1_000 + i as u128);
    let second = drive(config(4, 2, true, true, None), &numbered, &|i| 9_999 - 3 * i as u128);
    let outputs = |trace: &Trace| -> Vec<String> {
        trace
            .reports
            .iter()
            .filter_map(|r| match r {
                Report::Output { text, .. } => Some(text.clone()),
                _ => None,
            })
            .collect()
    };
    assert_eq!(outputs(&first), outputs(&second));
    assert_eq!(outputs(&first).len(), 4);
    assert_eq!(first.end.failure(), second.end.failure());
    assert_eq!(first.end.iterations_done(), second.end.iterations_done());
}
