use nixflow::command::CommandSpec;
use nixflow::jobs::{
    ExecuteDecision, ExecutedJob, ExecutionError, ExitOutcome, FinishedJob, KillOutcome,
    LogReadOutcome, PathProbe, PendingJob, PollOutcome, RunningJob, SpawnOutcome, WaitOutcome,
};
use nixflow::progress::ProgressScanningInfo;
use nixflow::specification::StepInfo;

fn strings(parts: &[&str]) -> Vec<String> {
    parts.iter().map(|p| p.to_string()).collect()
}

fn command() -> CommandSpec {
    CommandSpec {
        program: "/bin/true".to_string(),
        args: Vec::new(),
        envs: Vec::new(),
        current_dir: None,
    }
}

fn step(inputs: &[&str], outputs: &[&str]) -> StepInfo {
    StepInfo::new(
        "S".to_string(),
        strings(inputs),
        strings(outputs),
        "/tmp/s.log".to_string(),
        None,
    )
}

fn step_with_progress(pattern: &str) -> StepInfo {
    StepInfo::new(
        "S".to_string(),
        Vec::new(),
        strings(&["/tmp/s.out"]),
        "/tmp/s.log".to_string(),
        Some(ProgressScanningInfo {
            indicator_max: 100,
            indicator_regex_pattern: pattern.to_string(),
        }),
    )
}

#[test]
fn decision_prefers_input_probe_failures() {
    let job = PendingJob::new(command(), step(&["/in1", "/in2"], &["/out"]));
    let in_probes = vec![
        PathProbe::Missing,
        PathProbe::ProbeFailed("io".to_string()),
    ];
    let out_probes = vec![PathProbe::ProbeFailed("io".to_string())];
    match job.execute_decision(&in_probes, &out_probes) {
        ExecuteDecision::Failure(ExecutionError::InputExistenceCheck(path, message)) => {
            assert_eq!(path, "/in2");
            assert_eq!(message, "io");
        }
        _ => panic!("the first failed input probe wins"),
    }
}

#[test]
fn decision_collects_every_missing_input() {
    let job = PendingJob::new(command(), step(&["/in1", "/in2", "/in3"], &["/out"]));
    let in_probes = vec![PathProbe::Missing, PathProbe::Exists, PathProbe::Missing];
    let out_probes = vec![PathProbe::Missing];
    match job.execute_decision(&in_probes, &out_probes) {
        ExecuteDecision::Failure(ExecutionError::InputExistence { input_paths }) => {
            assert_eq!(input_paths, strings(&["/in1", "/in3"]));
        }
        _ => panic!("missing inputs are gathered"),
    }
}

#[test]
fn decision_reports_output_probe_failure() {
    let job = PendingJob::new(command(), step(&[], &["/out"]));
    let in_probes: Vec<PathProbe> = Vec::new();
    let out_probes = vec![PathProbe::ProbeFailed("denied".to_string())];
    match job.execute_decision(&in_probes, &out_probes) {
        ExecuteDecision::Failure(ExecutionError::OutputExistenceCheck(path, message)) => {
            assert_eq!(path, "/out");
            assert_eq!(message, "denied");
        }
        _ => panic!("the failed output probe is reported"),
    }
}

#[test]
fn decision_without_outputs_is_a_skip() {
    let job = PendingJob::new(command(), step(&[], &[]));
    let none: Vec<PathProbe> = Vec::new();
    assert!(matches!(job.execute_decision(&none, &none), ExecuteDecision::Skip));
}

#[test]
fn resolve_maps_log_setup_failures() {
    let job = PendingJob::new(command(), step(&[], &["/out"]));
    let spawn = Some(SpawnOutcome::LogCreateFailed("full".to_string()));
    match job.resolve(ExecuteDecision::MustSpawn, spawn) {
        ExecutedJob::Failed(f) => match f.error {
            ExecutionError::LogFileCreation(path, message) => {
                assert_eq!(path, "/tmp/s.log");
                assert_eq!(message, "full");
            }
            _ => panic!("a failed log creation is recorded as such"),
        },
        _ => panic!("the job must fail"),
    }

    let job = PendingJob::new(command(), step(&[], &["/out"]));
    let spawn = Some(SpawnOutcome::DirCreateFailed("ro".to_string()));
    match job.resolve(ExecuteDecision::MustSpawn, spawn) {
        ExecutedJob::Failed(f) => assert!(matches!(
            f.error,
            ExecutionError::LogFileParentDirectoryCreation(_, _)
        )),
        _ => panic!("the job must fail"),
    }

    let job = PendingJob::new(command(), step(&[], &["/out"]));
    let spawn = Some(SpawnOutcome::LogDupFailed("dup".to_string()));
    match job.resolve(ExecuteDecision::MustSpawn, spawn) {
        ExecutedJob::Failed(f) => assert!(matches!(f.error, ExecutionError::LogFileDuplication(_, _))),
        _ => panic!("the job must fail"),
    }
}

#[test]
fn poll_failure_is_warning_or_fatal_by_flag() {
    let mut job = RunningJob::new(1, command(), step(&[], &["/out"]));
    let r = job.done(PollOutcome::PollFailed("gone".to_string()), true);
    assert!(matches!(r, Ok(false)));
    assert_eq!(job.warning_count(), 1);

    let mut job = RunningJob::new(1, command(), step(&[], &["/out"]));
    match job.done(PollOutcome::PollFailed("gone".to_string()), false) {
        Err(e) => match e.error {
            ExecutionError::Wait(_, message) => assert_eq!(message, "gone"),
            _ => panic!("a failed poll is a wait error"),
        },
        Ok(_) => panic!("a failed poll must be fatal when not tolerated"),
    }
}

#[test]
fn finish_classifies_every_exit() {
    let job = RunningJob::new(1, command(), step(&[], &["/out"]));
    assert!(matches!(
        job.finish(WaitOutcome::Exited(ExitOutcome::Code(0))),
        FinishedJob::Successful(_)
    ));

    let job = RunningJob::new(1, command(), step(&[], &["/out"]));
    match job.finish(WaitOutcome::Exited(ExitOutcome::Signal)) {
        FinishedJob::Failed(f) => assert!(matches!(f.error, ExecutionError::SignalTermination(_))),
        _ => panic!("a signal death must fail the job"),
    }

    let job = RunningJob::new(1, command(), step(&[], &["/out"]));
    match job.finish(WaitOutcome::WaitFailed("lost".to_string())) {
        FinishedJob::Failed(f) => assert!(matches!(f.error, ExecutionError::Wait(_, _))),
        _ => panic!("a failed wait must fail the job"),
    }
}

#[test]
fn terminate_reports_failed_kills() {
    let job = RunningJob::new(1, command(), step(&[], &["/out"]));
    assert!(job.terminate(KillOutcome::Killed).is_ok());

    let job = RunningJob::new(1, command(), step(&[], &["/out"]));
    match job.terminate(KillOutcome::KillFailed("zombie".to_string())) {
        Err(e) => match e.error {
            ExecutionError::Kill(_, message) => assert_eq!(message, "zombie"),
            _ => panic!("a failed kill is a kill error"),
        },
        Ok(_) => panic!("a failed kill must be reported"),
    }
}

#[test]
fn progress_tick_failures_follow_the_tolerance_flag() {
    let attach = || {
        let job = RunningJob::new(1, command(), step_with_progress(r"done (\d+)"));
        match job.with_progress(true) {
            Ok(job) => job,
            Err(_) => panic!("a good pattern must attach"),
        }
    };

    let mut job = attach();
    let r = job.progress(LogReadOutcome::ReadFailed("unreadable".to_string()), true);
    assert!(r.is_ok());
    assert_eq!(job.warning_count(), 1);

    let mut job = attach();
    match job.progress(LogReadOutcome::ReadFailed("unreadable".to_string()), false) {
        Err(e) => assert!(matches!(e.error, ExecutionError::ProgressLogRead(_, _))),
        Ok(_) => panic!("an unreadable log must be fatal when not tolerated"),
    }

    let word_job = RunningJob::new(1, command(), step_with_progress(r"done (\w+)"));
    let mut job = match word_job.with_progress(true) {
        Ok(job) => job,
        Err(_) => panic!("a good pattern must attach"),
    };
    let bad_log = LogReadOutcome::Read("done soon\n".to_string());
    match job.progress(bad_log, false) {
        Err(e) => assert!(matches!(e.error, ExecutionError::ProgressScan(_, _))),
        Ok(_) => panic!("a non-integer capture must be fatal when not tolerated"),
    }

    let mut job = attach();
    let good_log = LogReadOutcome::Read("done 7\ndone 9\n".to_string());
    assert!(job.progress(good_log, false).is_ok());
    match &job.progress {
        Some(handler) => assert_eq!(handler.position, Some(9)),
        None => panic!("the handler must stay attached"),
    }
}

#[test]
fn with_progress_attaches_a_spinner_without_declaration() {
    let job = RunningJob::new(1, command(), step(&[], &["/out"]));
    match job.with_progress(false) {
        Ok(job) => match &job.progress {
            Some(handler) => {
                assert!(handler.scanner.is_none());
                assert!(handler.position.is_none());
            }
            None => panic!("a bare handler must be attached"),
        },
        Err(_) => panic!("attaching without a declaration cannot fail"),
    }
}
