use nixflow::graph::{
    GraphExecutionOptions, JobAction, JobGraph, MaybeTransitioning, StartOutcome,
};
use nixflow::jobs::{
    ExecutionError, ExitOutcome, Job, KillOutcome, LogReadOutcome, PathProbe, PollOutcome,
    SpawnOutcome, WaitOutcome,
};
use nixflow::nix_environment::{NixEnvironment, NixNative};
use nixflow::specification::WorkflowSpecification;

fn options(max_parallel_jobs: u32, keep_going: bool) -> GraphExecutionOptions {
    GraphExecutionOptions { max_parallel_jobs, keep_going, only_warn_job_update_failures: false }
}

fn graph_of(text: &str) -> JobGraph {
    let spec = match WorkflowSpecification::parse(text) {
        Ok(spec) => spec,
        Err(_) => panic!("the test specification must parse"),
    };
    JobGraph::new(&spec, &NixEnvironment::Native(NixNative {}), "wf")
}

fn step_json(name: &str, inputs_json: &str, output_path: &str) -> String {
    let inputs = if inputs_json.is_empty() {
        String::new()
    } else {
        format!(r#""inputs":{},"#, inputs_json)
    };
    format!(
        r#"{{"name":"{}",{}"outputs":{{"main":{{"path":"{}"}}}},"log":"/tmp/{}.log","run":"/bin/true"}}"#,
        name, inputs, output_path, name
    )
}

fn chain_spec() -> String {
    let a = step_json("A", "", "/tmp/a.out");
    let b = step_json(
        "B",
        &format!(r#"{{"dep":{{"path":"/tmp/a.out","parentStep":{}}}}}"#, a),
        "/tmp/b.out",
    );
    let c = step_json(
        "C",
        &format!(r#"{{"dep":{{"path":"/tmp/b.out","parentStep":{}}}}}"#, b),
        "/tmp/c.out",
    );
    format!(r#"{{"all":{{"path":"/tmp/c.out","parentStep":{}}}}}"#, c)
}

fn job_name(graph: &JobGraph, i: usize) -> String {
    match graph.job_ref(i) {
        MaybeTransitioning::Stable(job) => job.step().name.clone(),
        MaybeTransitioning::Transitioning => panic!("slots are stable between rounds"),
    }
}

fn probes(paths: &Vec<String>, existing: &Vec<String>) -> Vec<PathProbe> {
    paths
        .iter()
        .map(|p| {
            if existing.contains(p) {
                PathProbe::Exists
            } else {
                PathProbe::Missing
            }
        })
        .collect()
}

/// Drives a graph to completion with simulated filesystem and processes:
/// `existing` paths exist from the start, outputs of successful jobs come
/// into existence, and each child exits with the code `exit_code_of` gives
/// for its step. Returns the highest running count ever observed.
fn drive(
    graph: &mut JobGraph,
    options: &GraphExecutionOptions,
    existing: Vec<String>,
    exit_code_of: impl Fn(&str) -> i32,
) -> usize {
    let mut next_token: u64 = 1;
    let mut max_running = 0usize;
    let mut rounds = 0usize;
    while !graph.is_finished() {
        rounds += 1;
        assert!(rounds < 1000, "the driver must make progress");
        for i in 0..graph.job_count() {
            match graph.job_action(i, options) {
                JobAction::StartJob => {
                    let mut on_disk = existing.clone();
                    for k in 0..graph.job_count() {
                        if let MaybeTransitioning::Stable(Job::Successful(s)) = graph.job_ref(k) {
                            for out in s.step.outputs.iter() {
                                on_disk.push(out.clone());
                            }
                        }
                    }
                    let (inputs, outputs) = match graph.job_ref(i) {
                        MaybeTransitioning::Stable(Job::Pending(p)) => {
                            (p.step.inputs.clone(), p.step.outputs.clone())
                        }
                        _ => panic!("a startable job is pending"),
                    };
                    let in_probes = probes(&inputs, &on_disk);
                    let out_probes = probes(&outputs, &on_disk);
                    match graph.start_job(i, &in_probes, &out_probes) {
                        StartOutcome::Settled => {}
                        StartOutcome::NeedsSpawn(_request) => {
                            let outcome = SpawnOutcome::Spawned(next_token);
                            next_token += 1;
                            if graph.attach_spawn(i, outcome, options).is_err() {
                                panic!("attaching a plain spawn must succeed");
                            }
                        }
                    }
                }
                JobAction::PropagateFailure => graph.propagate_parent_failure(i),
                JobAction::Hold => {}
                JobAction::Poll => {
                    let done = match graph.running_done(i, PollOutcome::Exited, options) {
                        Ok(done) => done,
                        Err(_) => panic!("polling must succeed"),
                    };
                    if done {
                        let name = job_name(graph, i);
                        let code = exit_code_of(&name);
                        graph.finish_job(i, WaitOutcome::Exited(ExitOutcome::Code(code)));
                    }
                }
                JobAction::Idle => {}
            }
            let running = graph.count_running();
            if running > max_running {
                max_running = running;
            }
        }
    }
    max_running
}

fn phase(graph: &JobGraph, name: &str) -> &'static str {
    for i in 0..graph.job_count() {
        if job_name(graph, i) == name {
            return match graph.job_ref(i) {
                MaybeTransitioning::Stable(Job::Pending(_)) => "pending",
                MaybeTransitioning::Stable(Job::Running(_)) => "running",
                MaybeTransitioning::Stable(Job::Successful(_)) => "successful",
                MaybeTransitioning::Stable(Job::Failed(_)) => "failed",
                MaybeTransitioning::Stable(Job::Terminated(_)) => "terminated",
                MaybeTransitioning::Transitioning => "transitioning",
            };
        }
    }
    panic!("no job of that name");
}

#[test]
fn linear_chain_clean_run() {
    let mut graph = graph_of(&chain_spec());
    assert_eq!(graph.job_count(), 3);
    let max_running = drive(&mut graph, &options(2, false), Vec::new(), |_| 0);
    assert_eq!(phase(&graph, "A"), "successful");
    assert_eq!(phase(&graph, "B"), "successful");
    assert_eq!(phase(&graph, "C"), "successful");
    assert!(max_running <= 2);
    assert!(max_running <= 1, "a chain can only run one job at a time");
}

#[test]
fn chain_runs_parents_before_children() {
    // C depends on B depends on A; B's input appears only once A succeeded,
    // so a successful run shows the dependency order was respected.
    let mut graph = graph_of(&chain_spec());
    drive(&mut graph, &options(3, false), Vec::new(), |_| 0);
    for name in ["A", "B", "C"] {
        assert_eq!(phase(&graph, name), "successful");
    }
}

#[test]
fn child_never_runs_before_parent_succeeds() {
    let mut graph = graph_of(&chain_spec());
    let opts = options(3, false);
    let mut next_token: u64 = 1;
    let mut rounds = 0usize;
    while !graph.is_finished() {
        rounds += 1;
        assert!(rounds < 1000);
        for i in 0..graph.job_count() {
            match graph.job_action(i, &opts) {
                JobAction::StartJob => {
                    let (inputs, outputs) = match graph.job_ref(i) {
                        MaybeTransitioning::Stable(Job::Pending(p)) => {
                            (p.step.inputs.clone(), p.step.outputs.clone())
                        }
                        _ => panic!("a startable job is pending"),
                    };
                    let in_probes: Vec<PathProbe> =
                        inputs.iter().map(|_| PathProbe::Exists).collect();
                    let out_probes: Vec<PathProbe> =
                        outputs.iter().map(|_| PathProbe::Missing).collect();
                    match graph.start_job(i, &in_probes, &out_probes) {
                        StartOutcome::Settled => {}
                        StartOutcome::NeedsSpawn(_) => {
                            let outcome = SpawnOutcome::Spawned(next_token);
                            next_token += 1;
                            if graph.attach_spawn(i, outcome, &opts).is_err() {
                                panic!("attaching a plain spawn must succeed");
                            }
                        }
                    }
                }
                JobAction::PropagateFailure => graph.propagate_parent_failure(i),
                JobAction::Hold => {}
                JobAction::Poll => {
                    if graph.running_done(i, PollOutcome::Exited, &opts).unwrap_or(false) {
                        graph.finish_job(i, WaitOutcome::Exited(ExitOutcome::Code(0)));
                    }
                }
                JobAction::Idle => {}
            }
            // dependency order, observed after every transition: a child that
            // is running or finished well has its parent settled successful
            let observed = |name: &str| phase(&graph, name);
            if observed("B") == "running" || observed("B") == "successful" {
                assert_eq!(observed("A"), "successful");
            }
            if observed("C") == "running" || observed("C") == "successful" {
                assert_eq!(observed("B"), "successful");
            }
        }
    }
    for name in ["A", "B", "C"] {
        assert_eq!(phase(&graph, name), "successful");
    }
}

#[test]
fn preexisting_outputs_skip_the_job() {
    let a = step_json("A", "", "/tmp/a.out");
    let text = format!(r#"{{"all":{{"path":"/tmp/a.out","parentStep":{}}}}}"#, a);
    let mut graph = graph_of(&text);
    let opts = options(2, false);
    assert!(matches!(graph.job_action(0, &opts), JobAction::StartJob));
    let in_probes: Vec<PathProbe> = Vec::new();
    let out_probes = vec![PathProbe::Exists];
    match graph.start_job(0, &in_probes, &out_probes) {
        StartOutcome::Settled => {}
        StartOutcome::NeedsSpawn(_) => panic!("a job with existing outputs must not spawn"),
    }
    assert_eq!(phase(&graph, "A"), "successful");
}

#[test]
fn missing_input_fails_job_and_propagates() {
    let parent = step_json("A", "", "/tmp/a.out");
    let b = step_json(
        "B",
        &format!(r#"{{"dep":{{"path":"/tmp/a.out","parentStep":{}}}}}"#, parent),
        "/tmp/b.out",
    );
    let text = format!(r#"{{"all":{{"path":"/tmp/b.out","parentStep":{}}}}}"#, b);
    let mut graph = graph_of(&text);
    let opts = options(2, true);
    drive_fail_missing(&mut graph, &opts);
    assert_eq!(phase(&graph, "A"), "successful");
    assert_eq!(phase(&graph, "B"), "failed");
    let error_is_missing_input = (0..graph.job_count()).any(|i| {
        matches!(
            graph.job_ref(i),
            MaybeTransitioning::Stable(Job::Failed(f))
                if matches!(&f.error, ExecutionError::InputExistence { input_paths }
                    if input_paths == &vec!["/tmp/a.out".to_string()])
        )
    });
    assert!(error_is_missing_input);
}

/// Runs A to success, then starts B with its declared input probed missing.
fn drive_fail_missing(graph: &mut JobGraph, opts: &GraphExecutionOptions) {
    let mut next_token = 1u64;
    let mut rounds = 0usize;
    while !graph.is_finished() {
        rounds += 1;
        assert!(rounds < 1000);
        for i in 0..graph.job_count() {
            match graph.job_action(i, opts) {
                JobAction::StartJob => {
                    let (inputs, outputs) = match graph.job_ref(i) {
                        MaybeTransitioning::Stable(Job::Pending(p)) => {
                            (p.step.inputs.clone(), p.step.outputs.clone())
                        }
                        _ => panic!("a startable job is pending"),
                    };
                    // every declared input is reported missing, outputs absent
                    let in_probes: Vec<PathProbe> =
                        inputs.iter().map(|_| PathProbe::Missing).collect();
                    let out_probes: Vec<PathProbe> =
                        outputs.iter().map(|_| PathProbe::Missing).collect();
                    match graph.start_job(i, &in_probes, &out_probes) {
                        StartOutcome::Settled => {}
                        StartOutcome::NeedsSpawn(_) => {
                            let outcome = SpawnOutcome::Spawned(next_token);
                            next_token += 1;
                            if graph.attach_spawn(i, outcome, opts).is_err() {
                                panic!("attaching a plain spawn must succeed");
                            }
                        }
                    }
                }
                JobAction::PropagateFailure => graph.propagate_parent_failure(i),
                JobAction::Hold => {}
                JobAction::Poll => {
                    if graph.running_done(i, PollOutcome::Exited, opts).unwrap_or(false) {
                        graph.finish_job(i, WaitOutcome::Exited(ExitOutcome::Code(0)));
                    }
                }
                JobAction::Idle => {}
            }
        }
    }
}

#[test]
fn parent_failure_reaches_children_as_parents_failed() {
    let mut graph = graph_of(&chain_spec());
    // A exits non-zero; B and C must be settled as ParentsFailed skips.
    drive(&mut graph, &options(2, true), Vec::new(), |name| {
        if name == "A" {
            1
        } else {
            0
        }
    });
    assert_eq!(phase(&graph, "A"), "failed");
    assert_eq!(phase(&graph, "B"), "failed");
    assert_eq!(phase(&graph, "C"), "failed");
    let b_index = (0..graph.job_count()).find(|&i| job_name(&graph, i) == "B");
    let b_index = match b_index {
        Some(i) => i,
        None => panic!("B exists"),
    };
    match graph.job_ref(b_index) {
        MaybeTransitioning::Stable(Job::Failed(f)) => match &f.error {
            ExecutionError::ParentsFailed { parents } => {
                assert_eq!(parents.len(), 1);
                assert_eq!(parents[0].name, "A");
            }
            _ => panic!("B must fail because its parent failed"),
        },
        _ => panic!("B must be failed"),
    }
}

#[test]
fn non_zero_exit_code_is_recorded() {
    let a = step_json("A", "", "/tmp/a.out");
    let text = format!(r#"{{"all":{{"path":"/tmp/a.out","parentStep":{}}}}}"#, a);
    let mut graph = graph_of(&text);
    drive(&mut graph, &options(1, true), Vec::new(), |_| 1);
    match graph.job_ref(0) {
        MaybeTransitioning::Stable(Job::Failed(f)) => match &f.error {
            ExecutionError::NonZeroExitCode(_, code) => assert_eq!(*code, 1),
            _ => panic!("the exit code must be recorded"),
        },
        _ => panic!("the job must be failed"),
    }
}

#[test]
fn keep_going_lets_siblings_finish() {
    let a = step_json("A", "", "/tmp/a.out");
    let b = step_json("B", "", "/tmp/b.out");
    let text = format!(
        r#"{{"a":{{"path":"/tmp/a.out","parentStep":{}}},"b":{{"path":"/tmp/b.out","parentStep":{}}}}}"#,
        a, b
    );
    let mut graph = graph_of(&text);
    drive(&mut graph, &options(2, true), Vec::new(), |name| {
        if name == "A" {
            1
        } else {
            0
        }
    });
    assert_eq!(phase(&graph, "A"), "failed");
    assert_eq!(phase(&graph, "B"), "successful");
}

#[test]
fn concurrency_cap_is_respected() {
    let mut groups: Vec<String> = Vec::new();
    for name in ["S1", "S2", "S3", "S4", "S5", "S6"] {
        let step = step_json(name, "", &format!("/tmp/{}.out", name));
        groups.push(format!(
            r#""{}":{{"path":"/tmp/{}.out","parentStep":{}}}"#,
            name, name, step
        ));
    }
    let text = format!("{{{}}}", groups.join(","));
    let mut graph = graph_of(&text);
    assert_eq!(graph.job_count(), 6);
    let max_running = drive(&mut graph, &options(3, false), Vec::new(), |_| 0);
    assert!(max_running <= 3, "the cap bounds concurrency");
    assert_eq!(max_running, 3, "independent jobs fill the cap");
    for name in ["S1", "S2", "S3", "S4", "S5", "S6"] {
        assert_eq!(phase(&graph, name), "successful");
    }
}

#[test]
fn duplicate_steps_are_coalesced_by_name() {
    let a = step_json("A", "", "/tmp/a.out");
    let b = step_json(
        "B",
        &format!(r#"{{"dep":{{"path":"/tmp/a.out","parentStep":{}}}}}"#, a),
        "/tmp/b.out",
    );
    let c = step_json(
        "C",
        &format!(r#"{{"dep":{{"path":"/tmp/a.out","parentStep":{}}}}}"#, a),
        "/tmp/c.out",
    );
    let text = format!(
        r#"{{"b":{{"path":"/tmp/b.out","parentStep":{}}},"c":{{"path":"/tmp/c.out","parentStep":{}}}}}"#,
        b, c
    );
    let graph = graph_of(&text);
    assert_eq!(graph.job_count(), 3, "the shared parent is scheduled once");
}

#[test]
fn progress_tick_updates_indicator_position() {
    let head = r#"{"name":"A","outputs":{"main":{"path":"/tmp/a.out"}},"log":"/tmp/a.log","#;
    let tail = r#""progress":{"indicatorMax":100,"indicatorRegex":"processed (\\d+) items"},"run":"/bin/true"}"#;
    let step = format!("{}{}", head, tail);
    let text = format!(r#"{{"all":{{"path":"/tmp/a.out","parentStep":{}}}}}"#, step);
    let mut graph = graph_of(&text);
    let opts = options(1, false);
    let in_probes: Vec<PathProbe> = Vec::new();
    let out_probes = vec![PathProbe::Missing];
    match graph.start_job(0, &in_probes, &out_probes) {
        StartOutcome::NeedsSpawn(request) => assert_eq!(request.log, "/tmp/a.log"),
        StartOutcome::Settled => panic!("the job must need a spawn"),
    }
    if graph.attach_spawn(0, SpawnOutcome::Spawned(7), &opts).is_err() {
        panic!("attaching must succeed with a good pattern");
    }
    assert!(graph.wants_log(0));
    let log = "processed 10 items\nprocessed 40 items\nprocessed 25 items\n".to_string();
    if graph.tick_progress(0, LogReadOutcome::Read(log), &opts).is_err() {
        panic!("the tick must succeed");
    }
    match graph.job_ref(0) {
        MaybeTransitioning::Stable(Job::Running(rj)) => match &rj.progress {
            Some(handler) => assert_eq!(handler.position, Some(40)),
            None => panic!("the handler must be attached"),
        },
        _ => panic!("the job must be running"),
    }
    graph.finish_job(0, WaitOutcome::Exited(ExitOutcome::Code(0)));
    assert_eq!(phase(&graph, "A"), "successful");
}

#[test]
fn bad_progress_pattern_is_fatal_unless_tolerated() {
    let head = r#"{"name":"A","outputs":{"main":{"path":"/tmp/a.out"}},"log":"/tmp/a.log","#;
    let tail = r#""progress":{"indicatorMax":100,"indicatorRegex":"two (\\d+) groups (\\d+)"},"run":"/bin/true"}"#;
    let step = format!("{}{}", head, tail);
    let text = format!(r#"{{"all":{{"path":"/tmp/a.out","parentStep":{}}}}}"#, step);

    let mut graph = graph_of(&text);
    let strict = options(1, false);
    let in_probes: Vec<PathProbe> = Vec::new();
    let out_probes = vec![PathProbe::Missing];
    graph.start_job(0, &in_probes, &out_probes);
    match graph.attach_spawn(0, SpawnOutcome::Spawned(1), &strict) {
        Err(e) => assert!(matches!(e.error, ExecutionError::ProgressScanSetup(_))),
        Ok(()) => panic!("a bad pattern must be fatal when not tolerated"),
    }

    let mut graph = graph_of(&text);
    let tolerant = GraphExecutionOptions {
        max_parallel_jobs: 1,
        keep_going: false,
        only_warn_job_update_failures: true,
    };
    graph.start_job(0, &in_probes, &out_probes);
    if graph.attach_spawn(0, SpawnOutcome::Spawned(1), &tolerant).is_err() {
        panic!("a bad pattern must only warn when tolerated");
    }
    match graph.job_ref(0) {
        MaybeTransitioning::Stable(Job::Running(rj)) => {
            assert_eq!(rj.warnings.len(), 1);
            assert!(rj.progress.is_none());
        }
        _ => panic!("the job must be running"),
    }
}

#[test]
fn spawn_failure_settles_the_job_failed() {
    let a = step_json("A", "", "/tmp/a.out");
    let text = format!(r#"{{"all":{{"path":"/tmp/a.out","parentStep":{}}}}}"#, a);
    let mut graph = graph_of(&text);
    let opts = options(1, false);
    let in_probes: Vec<PathProbe> = Vec::new();
    let out_probes = vec![PathProbe::Missing];
    graph.start_job(0, &in_probes, &out_probes);
    if graph
        .attach_spawn(0, SpawnOutcome::SpawnFailed("not found".to_string()), &opts)
        .is_err()
    {
        panic!("a spawn failure settles the job, it is not fatal to the run");
    }
    match graph.job_ref(0) {
        MaybeTransitioning::Stable(Job::Failed(f)) => {
            assert!(matches!(&f.error, ExecutionError::Spawn(_, m) if m == "not found"));
        }
        _ => panic!("the job must be failed"),
    }
}

#[test]
fn termination_is_terminal() {
    let a = step_json("A", "", "/tmp/a.out");
    let text = format!(r#"{{"all":{{"path":"/tmp/a.out","parentStep":{}}}}}"#, a);
    let mut graph = graph_of(&text);
    let opts = options(1, false);
    let in_probes: Vec<PathProbe> = Vec::new();
    let out_probes = vec![PathProbe::Missing];
    graph.start_job(0, &in_probes, &out_probes);
    if graph.attach_spawn(0, SpawnOutcome::Spawned(1), &opts).is_err() {
        panic!("attaching must succeed");
    }
    if graph.terminate_job(0, KillOutcome::Killed).is_err() {
        panic!("killing must terminate the job");
    }
    assert_eq!(phase(&graph, "A"), "terminated");
    assert!(matches!(graph.job_action(0, &opts), JobAction::Idle));
    assert!(graph.is_finished());
}

#[test]
fn probe_failure_is_recorded_with_the_path() {
    let a = step_json("A", "", "/tmp/a.out");
    let b = step_json(
        "B",
        &format!(r#"{{"dep":{{"path":"/tmp/a.out","parentStep":{}}}}}"#, a),
        "/tmp/b.out",
    );
    let text = format!(r#"{{"all":{{"path":"/tmp/b.out","parentStep":{}}}}}"#, b);
    let mut graph = graph_of(&text);
    let opts = options(2, false);
    // settle A successful first
    let a_index = (0..graph.job_count()).find(|&i| job_name(&graph, i) == "A");
    let a_index = match a_index {
        Some(i) => i,
        None => panic!("A exists"),
    };
    let none: Vec<PathProbe> = Vec::new();
    graph.start_job(a_index, &none, &vec![PathProbe::Exists]);
    // B: its input probe itself fails
    let b_index = (0..graph.job_count()).find(|&i| job_name(&graph, i) == "B");
    let b_index = match b_index {
        Some(i) => i,
        None => panic!("B exists"),
    };
    assert!(matches!(graph.job_action(b_index, &opts), JobAction::StartJob));
    graph.start_job(
        b_index,
        &vec![PathProbe::ProbeFailed("permission denied".to_string())],
        &vec![PathProbe::Missing],
    );
    match graph.job_ref(b_index) {
        MaybeTransitioning::Stable(Job::Failed(f)) => match &f.error {
            ExecutionError::InputExistenceCheck(path, message) => {
                assert_eq!(path, "/tmp/a.out");
                assert_eq!(message, "permission denied");
            }
            _ => panic!("the probe failure must be recorded"),
        },
        _ => panic!("B must be failed"),
    }
}
