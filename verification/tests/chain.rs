use pipebench::chain::{
    ChainDirective, ChainEvent, ChainRun, PipelineResult, StdinSource,
};
use pipebench::failure::Failure;
use pipebench::tokenizer::tokenize;

fn result_of(stdout: &[u8], code: Option<i32>) -> PipelineResult {
    PipelineResult { stdout: stdout.to_vec(), stderr: Vec::new(), exit_code: code }
}

/// Runs a chain in which every step succeeds and returns the directives seen
/// and the outcome.
fn run_to_end(text: &str, result: PipelineResult) -> (Vec<ChainDirective>, Result<PipelineResult, Failure>) {
    let spec = tokenize(text).unwrap();
    let mut run = ChainRun::new(&spec);
    let mut seen = Vec::new();
    let mut result = Some(result);
    loop {
        let directive = run.directive();
        seen.push(directive);
        let event = match directive {
            ChainDirective::Spawn { .. } => ChainEvent::Spawned,
            ChainDirective::Collect { .. } => ChainEvent::Collected { result: result.take().unwrap() },
            ChainDirective::Reap { .. } => ChainEvent::Reaped,
            ChainDirective::Stop => return (seen, run.outcome().unwrap()),
        };
        run = run.step(event);
    }
}

#[test]
fn single_stage_is_spawned_and_collected() {
    let (seen, outcome) = run_to_end("echo hi", result_of(b"hi\n", Some(0)));
    assert_eq!(
        seen,
        vec![
            ChainDirective::Spawn { stage: 0, stdin: StdinSource::Inherited, capture_stderr: true },
            ChainDirective::Collect { stage: 0 },
            ChainDirective::Stop,
        ]
    );
    assert_eq!(outcome, Ok(result_of(b"hi\n", Some(0))));
}

#[test]
fn two_stages_are_wired_head_to_tail() {
    let (seen, outcome) = run_to_end("echo hi | cat", result_of(b"hi\n", Some(0)));
    assert_eq!(
        seen,
        vec![
            ChainDirective::Spawn { stage: 0, stdin: StdinSource::Inherited, capture_stderr: false },
            ChainDirective::Spawn { stage: 1, stdin: StdinSource::Upstream(0), capture_stderr: true },
            ChainDirective::Collect { stage: 1 },
            ChainDirective::Reap { stage: 0 },
            ChainDirective::Stop,
        ]
    );
    assert_eq!(outcome, Ok(result_of(b"hi\n", Some(0))));
}

#[test]
fn four_stages_follow_the_plan() {
    let (seen, outcome) = run_to_end("a | b | c | d", result_of(b"", Some(0)));
    assert_eq!(
        seen,
        vec![
            ChainDirective::Spawn { stage: 0, stdin: StdinSource::Inherited, capture_stderr: false },
            ChainDirective::Spawn { stage: 1, stdin: StdinSource::Upstream(0), capture_stderr: false },
            ChainDirective::Spawn { stage: 2, stdin: StdinSource::Upstream(1), capture_stderr: false },
            ChainDirective::Spawn { stage: 3, stdin: StdinSource::Upstream(2), capture_stderr: true },
            ChainDirective::Collect { stage: 3 },
            ChainDirective::Reap { stage: 0 },
            ChainDirective::Reap { stage: 1 },
            ChainDirective::Reap { stage: 2 },
            ChainDirective::Stop,
        ]
    );
    assert_eq!(outcome, Ok(result_of(b"", Some(0))));
}

#[test]
fn non_zero_exit_is_data() {
    let failing = PipelineResult {
        stdout: b"partial".to_vec(),
        stderr: b"boom".to_vec(),
        exit_code: Some(3),
    };
    assert!(!failing.success());
    let (_, outcome) = run_to_end("false", failing.clone());
    assert_eq!(outcome, Ok(failing));
    assert!(result_of(b"", Some(0)).success());
    assert!(!result_of(b"", None).success());
}

#[test]
fn outcome_is_absent_before_the_end() {
    let spec = tokenize("a | b").unwrap();
    let run = ChainRun::new(&spec);
    assert_eq!(run.outcome(), None);
    let run = ChainRun::new(&spec).step(ChainEvent::Spawned).step(ChainEvent::Spawned);
    assert_eq!(run.directive(), ChainDirective::Collect { stage: 1 });
    assert_eq!(run.outcome(), None);
}

#[test]
fn spawn_failure_names_the_head() {
    let spec = tokenize("no-such-program-anywhere").unwrap();
    let run = ChainRun::new(&spec);
    let run = run.step(ChainEvent::SpawnFailed { cause: "not found".to_string() });
    assert_eq!(run.directive(), ChainDirective::Stop);
    assert_eq!(
        run.outcome(),
        Some(Err(Failure::SpawnFailure { stage_index: 0, cause: "not found".to_string() }))
    );
}

#[test]
fn spawn_failure_names_the_failing_stage() {
    let spec = tokenize("a | b | c").unwrap();
    let run = ChainRun::new(&spec)
        .step(ChainEvent::Spawned)
        .step(ChainEvent::Spawned)
        .step(ChainEvent::SpawnFailed { cause: "denied".to_string() });
    assert_eq!(run.directive(), ChainDirective::Stop);
    assert_eq!(
        run.outcome(),
        Some(Err(Failure::SpawnFailure { stage_index: 2, cause: "denied".to_string() }))
    );
}

#[test]
fn collect_failure_ends_the_chain() {
    let spec = tokenize("a | b").unwrap();
    let run = ChainRun::new(&spec)
        .step(ChainEvent::Spawned)
        .step(ChainEvent::Spawned)
        .step(ChainEvent::CollectFailed { cause: "broken pipe".to_string() });
    assert_eq!(run.directive(), ChainDirective::Stop);
    assert_eq!(
        run.outcome(),
        Some(Err(Failure::CollectionFailure { cause: "broken pipe".to_string() }))
    );
}

#[test]
fn events_out_of_turn_change_nothing() {
    let spec = tokenize("a | b").unwrap();
    let run = ChainRun::new(&spec)
        .step(ChainEvent::Reaped)
        .step(ChainEvent::Collected { result: result_of(b"x", Some(0)) })
        .step(ChainEvent::CollectFailed { cause: "x".to_string() });
    assert_eq!(
        run.directive(),
        ChainDirective::Spawn { stage: 0, stdin: StdinSource::Inherited, capture_stderr: false }
    );
    let run = run
        .step(ChainEvent::Spawned)
        .step(ChainEvent::Spawned)
        .step(ChainEvent::Spawned)
        .step(ChainEvent::SpawnFailed { cause: "late".to_string() })
        .step(ChainEvent::Reaped);
    assert_eq!(run.directive(), ChainDirective::Collect { stage: 1 });
    let run = run
        .step(ChainEvent::Collected { result: result_of(b"out", Some(0)) })
        .step(ChainEvent::Collected { result: result_of(b"other", Some(1)) })
        .step(ChainEvent::Spawned);
    assert_eq!(run.directive(), ChainDirective::Reap { stage: 0 });
    let run = run.step(ChainEvent::Reaped);
    assert_eq!(run.directive(), ChainDirective::Stop);
    let run = run
        .step(ChainEvent::Reaped)
        .step(ChainEvent::SpawnFailed { cause: "after the end".to_string() });
    assert_eq!(run.outcome(), Some(Ok(result_of(b"out", Some(0)))));
}
