use vstd::prelude::*;

use crate::command::{shell_command, shell_command_text, CommandSpec};
use crate::progress::{
    capture_slot_count, lines_of, max_scan_progress, pattern_compiles, ProgressScanError,
    ProgressScanner,
};
use crate::specification::{step_info_like, StepInfo};

verus! {

/// A driver-side name for a live child process. The library never holds
/// the process itself; the driver keeps the handle and reports outcomes
/// under this token.
pub type ChildToken = u64;

/// The outcome of probing one path for existence.
pub enum PathProbe {
    Exists,
    Missing,
    /// The probe itself failed; carries the I/O error text.
    ProbeFailed(String),
}

/// The outcome of trying to start a job's process, reported by the driver.
pub enum SpawnOutcome {
    Spawned(ChildToken),
    /// Creating the log file's parent directory failed.
    DirCreateFailed(String),
    /// Creating the log file failed.
    LogCreateFailed(String),
    /// Obtaining the second log handle for the error stream failed.
    LogDupFailed(String),
    /// Spawning the process failed.
    SpawnFailed(String),
}

/// The outcome of a non-blocking poll of a child process.
pub enum PollOutcome {
    Exited,
    StillRunning,
    PollFailed(String),
}

/// How a child process ended.
pub enum ExitOutcome {
    /// The process exited with this code.
    Code(i32),
    /// The process was ended by a signal and has no exit code.
    Signal,
}

/// The outcome of a blocking wait on a child process.
pub enum WaitOutcome {
    Exited(ExitOutcome),
    WaitFailed(String),
}

/// The outcome of killing a child process.
pub enum KillOutcome {
    Killed,
    KillFailed(String),
}

/// The outcome of reading a job's log for a progress tick.
pub enum LogReadOutcome {
    /// The job scans no log, so none was read.
    NotNeeded,
    Read(String),
    ReadFailed(String),
}

/// What went wrong while executing one job.
pub enum ExecutionError {
    /// Spawning failed: the rendered command and the I/O error text.
    Spawn(String, String),
    /// Probing an input path failed: the path and the I/O error text.
    InputExistenceCheck(String, String),
    /// Declared inputs that do not exist.
    InputExistence { input_paths: Vec<String> },
    /// Probing an output path failed: the path and the I/O error text.
    OutputExistenceCheck(String, String),
    /// Creating the log file's parent directory failed.
    LogFileParentDirectoryCreation(String, String),
    /// Creating the log file failed.
    LogFileCreation(String, String),
    /// Duplicating the log file handle failed.
    LogFileDuplication(String, String),
    /// Polling or waiting on the child failed.
    Wait(String, String),
    /// Killing the child failed.
    Kill(String, String),
    /// The child was ended by a signal.
    SignalTermination(String),
    /// The child exited with a non-zero code.
    NonZeroExitCode(String, i32),
    /// Setting up the progress scanner failed.
    ProgressScanSetup(ProgressScanError),
    /// Reading the log for a progress tick failed.
    ProgressLogRead(String, String),
    /// Scanning the log for progress failed.
    ProgressScan(String, ProgressScanError),
    /// One or more parent jobs failed, so this job never ran.
    ParentsFailed { parents: Vec<StepInfo> },
}

/// A job failure surfaced to the executor's caller: the step it happened
/// in, and the error.
pub struct JobExecutionError {
    pub step: StepInfo,
    pub error: ExecutionError,
}

/// A job that has not started: the command to spawn and the step it
/// realizes.
pub struct PendingJob {
    pub command: CommandSpec,
    pub step: StepInfo,
}

/// The progress state of a running job: the scanner where the step
/// declares progress, and the last indicator position handed to the
/// display.
pub struct ProgressHandler {
    pub scanner: Option<ProgressScanner>,
    pub position: Option<u32>,
}

/// A job with a live child process.
pub struct RunningJob {
    pub child: ChildToken,
    pub command: CommandSpec,
    pub progress: Option<ProgressHandler>,
    pub step: StepInfo,
    pub warnings: Vec<ExecutionError>,
}

/// A job that ended well: its work ran to completion, or its outputs
/// already existed.
pub struct SuccessfulJob {
    pub step: StepInfo,
}

/// A job that failed, with the cause and any warnings gathered while it
/// ran.
pub struct FailedJob {
    pub step: StepInfo,
    pub error: ExecutionError,
    pub warnings: Vec<ExecutionError>,
}

/// A job cancelled from outside.
pub struct TerminatedJob {
    pub step: StepInfo,
}

/// A job in its lifecycle: pending, running, or in one of the three
/// terminal states.
pub enum Job {
    Pending(PendingJob),
    Running(RunningJob),
    Successful(SuccessfulJob),
    Failed(FailedJob),
    Terminated(TerminatedJob),
}

/// What `execute` on a pending job produced.
pub enum ExecutedJob {
    Running(RunningJob),
    Finished(SuccessfulJob),
    Failed(FailedJob),
}

/// What finishing a running job produced.
pub enum FinishedJob {
    Successful(SuccessfulJob),
    Failed(FailedJob),
}

/// The index of the first probe that itself failed, if any.
pub open spec fn first_probe_failure(probes: Seq<PathProbe>) -> Option<int>
    decreases probes.len(),
{
    if probes.len() == 0 {
        None
    } else if probes[0] is ProbeFailed {
        Some(0)
    } else {
        match first_probe_failure(probes.drop_first()) {
            Some(i) => Some(i + 1),
            None => None,
        }
    }
}

pub proof fn lemma_first_probe_failure(probes: Seq<PathProbe>)
    ensures
        match first_probe_failure(probes) {
            Some(i) => 0 <= i < probes.len() && probes[i] is ProbeFailed && forall|j: int|
                0 <= j < i ==> !(#[trigger] probes[j] is ProbeFailed),
            None => forall|j: int| 0 <= j < probes.len() ==> !(#[trigger] probes[j] is ProbeFailed),
        },
    decreases probes.len(),
{
    if probes.len() > 0 && !(probes[0] is ProbeFailed) {
        lemma_first_probe_failure(probes.drop_first());
        assert forall|j: int| #![trigger probes[j]] 1 <= j < probes.len() implies probes[j]
            == probes.drop_first()[j - 1] by {}
    }
}

/// The paths among the first `i` whose probe says they do not exist.
pub open spec fn missing_prefix(paths: Seq<String>, probes: Seq<PathProbe>, i: int) -> Seq<String>
    decreases i,
{
    if i <= 0 {
        Seq::empty()
    } else {
        missing_prefix(paths, probes, i - 1) + (if probes[i - 1] is Missing {
            seq![paths[i - 1]]
        } else {
            Seq::empty()
        })
    }
}

/// The paths whose probe says they do not exist.
pub open spec fn missing_paths(paths: Seq<String>, probes: Seq<PathProbe>) -> Seq<String> {
    missing_prefix(paths, probes, paths.len() as int)
}

/// The classification of a pending job's probes, checked in this order:
/// a failed input probe is fatal; then any missing input fails the job;
/// then a failed output probe is fatal; then, with every output present,
/// the job is skipped; otherwise it must be spawned.
pub open spec fn decision_fail_input_probe(in_probes: Seq<PathProbe>) -> bool {
    first_probe_failure(in_probes) is Some
}

pub open spec fn decision_fail_missing_inputs(
    inputs: Seq<String>,
    in_probes: Seq<PathProbe>,
) -> bool {
    &&& !decision_fail_input_probe(in_probes)
    &&& missing_paths(inputs, in_probes).len() > 0
}

pub open spec fn decision_fail_output_probe(
    inputs: Seq<String>,
    in_probes: Seq<PathProbe>,
    out_probes: Seq<PathProbe>,
) -> bool {
    &&& !decision_fail_input_probe(in_probes)
    &&& !decision_fail_missing_inputs(inputs, in_probes)
    &&& first_probe_failure(out_probes) is Some
}

pub open spec fn decision_skip(
    inputs: Seq<String>,
    in_probes: Seq<PathProbe>,
    outputs: Seq<String>,
    out_probes: Seq<PathProbe>,
) -> bool {
    &&& !decision_fail_input_probe(in_probes)
    &&& !decision_fail_missing_inputs(inputs, in_probes)
    &&& !decision_fail_output_probe(inputs, in_probes, out_probes)
    &&& missing_paths(outputs, out_probes).len() == 0
}

pub open spec fn decision_launch(
    inputs: Seq<String>,
    in_probes: Seq<PathProbe>,
    outputs: Seq<String>,
    out_probes: Seq<PathProbe>,
) -> bool {
    &&& !decision_fail_input_probe(in_probes)
    &&& !decision_fail_missing_inputs(inputs, in_probes)
    &&& !decision_fail_output_probe(inputs, in_probes, out_probes)
    &&& missing_paths(outputs, out_probes).len() > 0
}

proof fn lemma_no_probe_failure(probes: Seq<PathProbe>)
    requires
        forall|k: int| 0 <= k < probes.len() ==> !(#[trigger] probes[k] is ProbeFailed),
    ensures
        first_probe_failure(probes) is None,
{
    lemma_first_probe_failure(probes);
    match first_probe_failure(probes) {
        Some(i) => {
            assert(!(probes[i] is ProbeFailed));
            assert(false);
        },
        None => {},
    }
}

proof fn lemma_missing_prefix_all_exist(paths: Seq<String>, probes: Seq<PathProbe>, i: int)
    requires
        i <= paths.len() == probes.len(),
        forall|k: int| 0 <= k < probes.len() ==> (#[trigger] probes[k]) is Exists,
    ensures
        missing_prefix(paths, probes, i).len() == 0,
    decreases i,
{
    if i > 0 {
        lemma_missing_prefix_all_exist(paths, probes, i - 1);
    }
}

proof fn lemma_missing_prefix_grows(paths: Seq<String>, probes: Seq<PathProbe>, i: int, k: int)
    requires
        0 <= i < k <= paths.len() == probes.len(),
        probes[i] is Missing,
    ensures
        missing_prefix(paths, probes, k).len() > 0,
    decreases k,
{
    if k - 1 > i {
        lemma_missing_prefix_grows(paths, probes, i, k - 1);
    }
}

/// A step whose declared outputs all already exist is skipped: its probes
/// dictate the skip decision, so it ends successful without a child being
/// spawned.
pub proof fn lemma_outputs_exist_skip(
    inputs: Seq<String>,
    in_probes: Seq<PathProbe>,
    outputs: Seq<String>,
    out_probes: Seq<PathProbe>,
)
    requires
        in_probes.len() == inputs.len(),
        out_probes.len() == outputs.len(),
        forall|k: int| 0 <= k < in_probes.len() ==> (#[trigger] in_probes[k]) is Exists,
        forall|k: int| 0 <= k < out_probes.len() ==> (#[trigger] out_probes[k]) is Exists,
    ensures
        decision_skip(inputs, in_probes, outputs, out_probes),
{
    lemma_no_probe_failure(in_probes);
    lemma_no_probe_failure(out_probes);
    lemma_missing_prefix_all_exist(inputs, in_probes, inputs.len() as int);
    lemma_missing_prefix_all_exist(outputs, out_probes, outputs.len() as int);
}

/// A step with a missing declared input fails: its probes dictate the
/// missing-inputs failure, so it ends failed without a child being
/// spawned.
pub proof fn lemma_missing_input_fails(
    inputs: Seq<String>,
    in_probes: Seq<PathProbe>,
    out_probes: Seq<PathProbe>,
    i: int,
)
    requires
        in_probes.len() == inputs.len(),
        0 <= i < in_probes.len(),
        in_probes[i] is Missing,
        forall|k: int| 0 <= k < in_probes.len() ==> !(#[trigger] in_probes[k] is ProbeFailed),
    ensures
        decision_fail_missing_inputs(inputs, in_probes),
        decision_fails(inputs, in_probes, out_probes),
{
    lemma_no_probe_failure(in_probes);
    lemma_missing_prefix_grows(inputs, in_probes, i, inputs.len() as int);
}

/// The classification of a pending job's probes is exhaustive and
/// exclusive: exactly one of failing, skipping and launching holds.
pub proof fn lemma_decision_exhaustive(
    inputs: Seq<String>,
    in_probes: Seq<PathProbe>,
    outputs: Seq<String>,
    out_probes: Seq<PathProbe>,
)
    ensures
        decision_fails(inputs, in_probes, out_probes) || decision_skip(
            inputs,
            in_probes,
            outputs,
            out_probes,
        ) || decision_launch(inputs, in_probes, outputs, out_probes),
        !(decision_fails(inputs, in_probes, out_probes) && decision_skip(
            inputs,
            in_probes,
            outputs,
            out_probes,
        )),
        !(decision_fails(inputs, in_probes, out_probes) && decision_launch(
            inputs,
            in_probes,
            outputs,
            out_probes,
        )),
        !(decision_skip(inputs, in_probes, outputs, out_probes) && decision_launch(
            inputs,
            in_probes,
            outputs,
            out_probes,
        )),
{
}

/// What a pending job does once its probes are in: fail, be skipped, or
/// need its process spawned.
pub enum ExecuteDecision {
    Failure(ExecutionError),
    Skip,
    MustSpawn,
}

/// Whether any of the three failure conditions holds for the probes.
pub open spec fn decision_fails(
    inputs: Seq<String>,
    in_probes: Seq<PathProbe>,
    out_probes: Seq<PathProbe>,
) -> bool {
    ||| decision_fail_input_probe(in_probes)
    ||| decision_fail_missing_inputs(inputs, in_probes)
    ||| decision_fail_output_probe(inputs, in_probes, out_probes)
}

/// Whether an error is the one the failing probes dictate for a step.
pub open spec fn failure_error_matches(
    step: StepInfo,
    in_probes: Seq<PathProbe>,
    out_probes: Seq<PathProbe>,
    e: ExecutionError,
) -> bool {
    &&& (decision_fail_input_probe(in_probes) ==> (e
        matches ExecutionError::InputExistenceCheck(path, message)
        && (first_probe_failure(in_probes) matches Some(i) && path == step.inputs@[i]
        && (in_probes[i] matches PathProbe::ProbeFailed(m) && message == m))))
    &&& (decision_fail_missing_inputs(step.inputs@, in_probes) ==> (e
        matches ExecutionError::InputExistence {
        input_paths,
    } && input_paths@ == missing_paths(step.inputs@, in_probes)))
    &&& (decision_fail_output_probe(step.inputs@, in_probes, out_probes) ==> (e
        matches ExecutionError::OutputExistenceCheck(
        path,
        message,
    ) && (first_probe_failure(out_probes) matches Some(i) && path == step.outputs@[i]
        && (out_probes[i] matches PathProbe::ProbeFailed(m) && message == m))))
}

/// Whether an execute decision is the one the probes dictate for a step.
pub open spec fn decision_matches(
    step: StepInfo,
    in_probes: Seq<PathProbe>,
    out_probes: Seq<PathProbe>,
    d: ExecuteDecision,
) -> bool {
    &&& (decision_fails(step.inputs@, in_probes, out_probes) ==> (d
        matches ExecuteDecision::Failure(e) && failure_error_matches(
        step,
        in_probes,
        out_probes,
        e,
    )))
    &&& (decision_skip(step.inputs@, in_probes, step.outputs@, out_probes) ==> d
        is Skip)
    &&& (decision_launch(step.inputs@, in_probes, step.outputs@, out_probes) ==> d
        is MustSpawn)
}

impl PendingJob {
    /// Assembles a pending job; every job starts here.
    pub fn new(command: CommandSpec, step: StepInfo) -> (r: PendingJob)
        ensures
            r.command == command,
            r.step == step,
    {
        PendingJob { command, step }
    }

    /// Classifies this job's probes: any failed input probe (first one
    /// wins), else missing inputs, else any failed output probe, else a
    /// skip when every output already exists, else a spawn.
    pub fn execute_decision(&self, input_probes: &Vec<PathProbe>, output_probes: &Vec<PathProbe>)
        -> (d: ExecuteDecision)
        requires
            input_probes@.len() == self.step.inputs@.len(),
            output_probes@.len() == self.step.outputs@.len(),
        ensures
            decision_matches(self.step, input_probes@, output_probes@, d),
    {
        proof {
            lemma_first_probe_failure(input_probes@);
            lemma_first_probe_failure(output_probes@);
        }
        let mut i: usize = 0;
        let n_in = input_probes.len();
        let mut missing: Vec<String> = Vec::new();
        while i < n_in
            invariant
                n_in == input_probes@.len() == self.step.inputs@.len(),
                i <= n_in,
                forall|j: int| 0 <= j < i ==> !(#[trigger] input_probes@[j] is ProbeFailed),
                missing@ == missing_prefix(self.step.inputs@, input_probes@, i as int),
            decreases n_in - i,
        {
            match &input_probes[i] {
                PathProbe::ProbeFailed(message) => {
                    proof {
                        lemma_first_probe_failure(input_probes@);
                    }
                    return ExecuteDecision::Failure(
                        ExecutionError::InputExistenceCheck(
                            self.step.inputs[i].clone(),
                            message.clone(),
                        ),
                    );
                },
                PathProbe::Missing => {
                    missing.push(self.step.inputs[i].clone());
                    proof {
                        assert(missing@ =~= missing_prefix(
                            self.step.inputs@,
                            input_probes@,
                            i + 1,
                        ));
                    }
                },
                PathProbe::Exists => {
                    proof {
                        assert(missing@ =~= missing_prefix(
                            self.step.inputs@,
                            input_probes@,
                            i + 1,
                        ));
                    }
                },
            }
            i = i + 1;
        }
        if missing.len() > 0 {
            return ExecuteDecision::Failure(ExecutionError::InputExistence { input_paths: missing },
            );
        }
        let mut i: usize = 0;
        let n_out = output_probes.len();
        let mut missing_out: Vec<String> = Vec::new();
        while i < n_out
            invariant
                n_out == output_probes@.len() == self.step.outputs@.len(),
                i <= n_out,
                forall|j: int| 0 <= j < i ==> !(#[trigger] output_probes@[j] is ProbeFailed),
                missing_out@ == missing_prefix(self.step.outputs@, output_probes@, i as int),
                !decision_fail_input_probe(input_probes@),
                !decision_fail_missing_inputs(self.step.inputs@, input_probes@),
            decreases n_out - i,
        {
            match &output_probes[i] {
                PathProbe::ProbeFailed(message) => {
                    proof {
                        lemma_first_probe_failure(output_probes@);
                    }
                    return ExecuteDecision::Failure(
                        ExecutionError::OutputExistenceCheck(
                            self.step.outputs[i].clone(),
                            message.clone(),
                        ),
                    );
                },
                PathProbe::Missing => {
                    missing_out.push(self.step.outputs[i].clone());
                    proof {
                        assert(missing_out@ =~= missing_prefix(
                            self.step.outputs@,
                            output_probes@,
                            i + 1,
                        ));
                    }
                },
                PathProbe::Exists => {
                    proof {
                        assert(missing_out@ =~= missing_prefix(
                            self.step.outputs@,
                            output_probes@,
                            i + 1,
                        ));
                    }
                },
            }
            i = i + 1;
        }
        if missing_out.len() == 0 {
            ExecuteDecision::Skip
        } else {
            ExecuteDecision::MustSpawn
        }
    }

    /// Executes the job in one move: classifies the probes and applies the
    /// decision. The driver supplies a spawn outcome exactly when the
    /// probes dictate a launch.
    pub fn execute(
        self,
        input_probes: &Vec<PathProbe>,
        output_probes: &Vec<PathProbe>,
        spawn: Option<SpawnOutcome>,
    ) -> (r: ExecutedJob)
        requires
            input_probes@.len() == self.step.inputs@.len(),
            output_probes@.len() == self.step.outputs@.len(),
            decision_launch(self.step.inputs@, input_probes@, self.step.outputs@, output_probes@)
                <==> spawn is Some,
        ensures
            (decision_fails(self.step.inputs@, input_probes@, output_probes@) ==> (r
                matches ExecutedJob::Failed(f) && f.step == self.step && f.warnings@.len() == 0
                && failure_error_matches(self.step, input_probes@, output_probes@, f.error))),
            (decision_skip(self.step.inputs@, input_probes@, self.step.outputs@, output_probes@)
                ==> (r matches ExecutedJob::Finished(s) && s.step == self.step)),
            (spawn matches Some(o) ==> spawned_job_matches(self, o, r)),
    {
        proof {
            lemma_decision_exhaustive(
                self.step.inputs@,
                input_probes@,
                self.step.outputs@,
                output_probes@,
            );
        }
        let decision = self.execute_decision(input_probes, output_probes);
        self.resolve(decision, spawn)
    }

    /// Applies a decision, consuming the job: failures and skips settle it
    /// directly, and a spawn decision takes the driver's spawn outcome.
    /// Log setup failures and spawn failures settle the job as failed with
    /// the corresponding error.
    pub fn resolve(self, d: ExecuteDecision, spawn: Option<SpawnOutcome>) -> (r: ExecutedJob)
        requires
            (d is MustSpawn) <==> (spawn is Some),
        ensures
            (d matches ExecuteDecision::Failure(e) ==> (r matches ExecutedJob::Failed(f)
                && f.step == self.step && f.error == e && f.warnings@.len() == 0)),
            (d is Skip ==> (r matches ExecutedJob::Finished(s) && s.step == self.step)),
            (spawn matches Some(o) ==> spawned_job_matches(self, o, r)),
    {
        match d {
            ExecuteDecision::Failure(error) => ExecutedJob::Failed(
                FailedJob { step: self.step, error, warnings: Vec::new() },
            ),
            ExecuteDecision::Skip => ExecutedJob::Finished(SuccessfulJob { step: self.step }),
            ExecuteDecision::MustSpawn => {
                let outcome = match spawn {
                    Some(outcome) => outcome,
                    None => vstd::pervasive::unreached(),
                };
                match outcome {
                    SpawnOutcome::Spawned(child) => ExecutedJob::Running(
                        RunningJob {
                            child,
                            command: self.command,
                            progress: None,
                            step: self.step,
                            warnings: Vec::new(),
                        },
                    ),
                    SpawnOutcome::DirCreateFailed(message) => {
                        let log = self.step.log.clone();
                        ExecutedJob::Failed(
                            FailedJob {
                                step: self.step,
                                error: ExecutionError::LogFileParentDirectoryCreation(
                                    log,
                                    message,
                                ),
                                warnings: Vec::new(),
                            },
                        )
                    },
                    SpawnOutcome::LogCreateFailed(message) => {
                        let log = self.step.log.clone();
                        ExecutedJob::Failed(
                            FailedJob {
                                step: self.step,
                                error: ExecutionError::LogFileCreation(log, message),
                                warnings: Vec::new(),
                            },
                        )
                    },
                    SpawnOutcome::LogDupFailed(message) => {
                        let log = self.step.log.clone();
                        ExecutedJob::Failed(
                            FailedJob {
                                step: self.step,
                                error: ExecutionError::LogFileDuplication(log, message),
                                warnings: Vec::new(),
                            },
                        )
                    },
                    SpawnOutcome::SpawnFailed(message) => {
                        let rendered = shell_command(&self.command);
                        ExecutedJob::Failed(
                            FailedJob {
                                step: self.step,
                                error: ExecutionError::Spawn(rendered, message),
                                warnings: Vec::new(),
                            },
                        )
                    },
                }
            },
        }
    }
}

/// Whether an executed job is the right result of applying a spawn
/// outcome to a pending job: a token makes it running with that child and
/// the pending command; each setup failure makes it failed with the
/// matching error.
pub open spec fn spawned_job_matches(pending: PendingJob, spawn: SpawnOutcome, r: ExecutedJob) -> bool {
    match spawn {
        SpawnOutcome::Spawned(child) => r matches ExecutedJob::Running(j) && j.child == child
            && j.command == pending.command && j.progress is None && j.step == pending.step
            && j.warnings@.len() == 0,
        SpawnOutcome::DirCreateFailed(m) => r matches ExecutedJob::Failed(f) && f.step
            == pending.step && f.warnings@.len() == 0 && (f.error
            matches ExecutionError::LogFileParentDirectoryCreation(log, mm) && log
            == pending.step.log && mm == m),
        SpawnOutcome::LogCreateFailed(m) => r matches ExecutedJob::Failed(f) && f.step
            == pending.step && f.warnings@.len() == 0 && (f.error
            matches ExecutionError::LogFileCreation(log, mm) && log == pending.step.log && mm
            == m),
        SpawnOutcome::LogDupFailed(m) => r matches ExecutedJob::Failed(f) && f.step
            == pending.step && f.warnings@.len() == 0 && (f.error
            matches ExecutionError::LogFileDuplication(log, mm) && log == pending.step.log && mm
            == m),
        SpawnOutcome::SpawnFailed(m) => r matches ExecutedJob::Failed(f) && f.step == pending.step
            && f.warnings@.len() == 0 && (f.error matches ExecutionError::Spawn(rendered, mm)
            && rendered@ == shell_command_text(pending.command) && mm == m),
    }
}

impl ExecutionError {
    /// Settles a step as failed with this error and no warnings.
    pub fn as_failed_job(self, step: StepInfo) -> (r: FailedJob)
        ensures
            r.step == step,
            r.error == self,
            r.warnings@.len() == 0,
    {
        FailedJob { step, error: self, warnings: Vec::new() }
    }

    /// Settles a step as failed with this error, keeping the warnings
    /// gathered so far.
    pub fn as_failed_job_warnings(self, step: StepInfo, warnings: Vec<ExecutionError>) -> (r:
        FailedJob)
        ensures
            r.step == step,
            r.error == self,
            r.warnings == warnings,
    {
        FailedJob { step, error: self, warnings }
    }
}

impl SuccessfulJob {
    pub fn new(step: StepInfo) -> (r: SuccessfulJob)
        ensures
            r.step == step,
    {
        SuccessfulJob { step }
    }
}

impl TerminatedJob {
    pub fn new(step: StepInfo) -> (r: TerminatedJob)
        ensures
            r.step == step,
    {
        TerminatedJob { step }
    }
}

/// A scanner attached to a running job was built well: its pattern is the
/// declared one.
pub open spec fn running_wf(j: RunningJob) -> bool {
    j.progress matches Some(h) ==> (h.scanner matches Some(sc) ==> sc.wf()
        && sc.info_spec().indicator_regex_pattern@ == pattern_of(j.step))
}

/// The declared progress pattern of a step, empty where none is declared.
pub open spec fn pattern_of(step: StepInfo) -> Seq<char> {
    match step.progress_scanning {
        Some(info) => info.indicator_regex_pattern@,
        None => Seq::empty(),
    }
}

/// What the progress setup error for a pattern must be: the compilation
/// failure where the engine rejects it, else the capture-count complaint.
pub open spec fn scan_setup_error_matches(pattern: Seq<char>, e: ProgressScanError) -> bool {
    if !pattern_compiles(pattern) {
        e is CompilationFailure
    } else {
        e matches ProgressScanError::InvalidCaptureGroupCount { pattern: ps, count } && ps@
            == pattern && count == capture_slot_count(pattern)
    }
}

/// Whether the fields of two running jobs that name the same work agree:
/// same child, command and step.
pub open spec fn running_core_like(a: RunningJob, b: RunningJob) -> bool {
    &&& b.child == a.child
    &&& b.command == a.command
    &&& b.step == a.step
}

/// What attaching progress to a fresh running job yields. With no
/// progress declared the job gets a bare handler (a spinner on the
/// display). With one declared, a good pattern gets a scanner; a bad one
/// is a warning when tolerated, else a fatal error.
pub open spec fn with_progress_matches(
    j: RunningJob,
    tolerate: bool,
    r: Result<RunningJob, JobExecutionError>,
) -> bool {
    match j.step.progress_scanning {
        None => r matches Ok(n) && running_core_like(j, n) && (n.progress matches Some(h)
            && h.scanner is None && h.position is None) && n.warnings@ == j.warnings@
            && running_wf(n),
        Some(info) => {
            let pattern = info.indicator_regex_pattern@;
            if pattern_compiles(pattern) && capture_slot_count(pattern) == 2 {
                r matches Ok(n) && running_core_like(j, n) && (n.progress matches Some(h) && (
                h.scanner matches Some(sc) && sc.wf() && sc.info_spec().indicator_max
                    == info.indicator_max && sc.info_spec().indicator_regex_pattern@ == pattern)
                    && h.position is None) && n.warnings@ == j.warnings@ && running_wf(n)
            } else if tolerate {
                r matches Ok(n) && running_core_like(j, n) && n.progress is None && n.warnings@.len()
                    == j.warnings@.len() + 1 && n.warnings@.take(j.warnings@.len() as int)
                    == j.warnings@ && (n.warnings@.last()
                    matches ExecutionError::ProgressScanSetup(e) && scan_setup_error_matches(
                    pattern,
                    e,
                )) && running_wf(n)
            } else {
                r matches Err(err) && err.step == j.step && (err.error
                    matches ExecutionError::ProgressScanSetup(e) && scan_setup_error_matches(
                    pattern,
                    e,
                ))
            }
        },
    }
}

impl RunningJob {
    /// A freshly started job: no progress handler, no warnings.
    pub fn new(child: ChildToken, command: CommandSpec, step: StepInfo) -> (r: RunningJob)
        ensures
            r.child == child,
            r.command == command,
            r.step == step,
            r.progress is None,
            r.warnings@.len() == 0,
            running_wf(r),
    {
        RunningJob { child, command, progress: None, step, warnings: Vec::new() }
    }

    /// The declared indicator maximum, where the step declares progress.
    pub fn progress_max(&self) -> (r: Option<u32>)
        ensures
            match self.step.progress_scanning {
                Some(info) => r == Some(info.indicator_max),
                None => r is None,
            },
    {
        match &self.step.progress_scanning {
            Some(info) => Some(info.indicator_max),
            None => None,
        }
    }

    /// The number of warnings gathered on this job so far; the driver
    /// surfaces a notice when the first one arrives.
    pub fn warning_count(&self) -> (r: usize)
        ensures
            r == self.warnings@.len(),
    {
        self.warnings.len()
    }

    /// Attaches the progress state: a scanner where the step declares
    /// progress and its pattern is good; a bare handler where none is
    /// declared. A bad pattern is recorded as a warning when failures are
    /// tolerated, and is fatal otherwise.
    pub fn with_progress(self, tolerate: bool) -> (r: Result<RunningJob, JobExecutionError>)
        requires
            self.progress is None,
        ensures
            with_progress_matches(self, tolerate, r),
    {
        let mut this = self;
        let setup = match &this.step.progress_scanning {
            None => None,
            Some(info) => Some(ProgressScanner::new(info)),
        };
        match setup {
            None => {
                this.progress = Some(ProgressHandler { scanner: None, position: None });
                Ok(this)
            },
            Some(Ok(scanner)) => {
                this.progress = Some(ProgressHandler { scanner: Some(scanner), position: None });
                Ok(this)
            },
            Some(Err(error)) => {
                if tolerate {
                    let ghost before = this.warnings@;
                    this.warnings.push(ExecutionError::ProgressScanSetup(error));
                    proof {
                        assert(this.warnings@.take(before.len() as int) =~= before);
                    }
                    Ok(this)
                } else {
                    Err(
                        JobExecutionError {
                            step: this.step,
                            error: ExecutionError::ProgressScanSetup(error),
                        },
                    )
                }
            },
        }
    }

    /// Whether a progress tick needs the log's contents.
    pub fn wants_log(&self) -> (r: bool)
        ensures
            r == (self.progress matches Some(h) && h.scanner is Some),
    {
        match &self.progress {
            Some(handler) => match &handler.scanner {
                Some(_) => true,
                None => false,
            },
            None => false,
        }
    }

    /// Notes the driver's poll of the child: true when the child has
    /// exited and the job should be finished. A failed poll is a warning
    /// when tolerated, else fatal.
    pub fn done(&mut self, poll: PollOutcome, tolerate: bool) -> (r: Result<
        bool,
        JobExecutionError,
    >)
        ensures
            (poll is Exited ==> (r matches Ok(b) && b && *final(self) == *old(self))),
            (poll is StillRunning ==> (r matches Ok(b) && !b && *final(self) == *old(self))),
            (poll matches PollOutcome::PollFailed(m) ==> if tolerate {
                r matches Ok(b) && !b && running_core_like(*old(self), *final(self))
                    && final(self).progress == old(self).progress && final(self).warnings@.len()
                    == old(self).warnings@.len() + 1 && final(self).warnings@.take(
                    old(self).warnings@.len() as int,
                ) == old(self).warnings@ && (final(self).warnings@.last()
                    matches ExecutionError::Wait(rendered, mm) && rendered@ == shell_command_text(
                    old(self).command,
                ) && mm == m)
            } else {
                r matches Err(err) && *final(self) == *old(self) && step_info_like(
                    err.step,
                    old(self).step,
                ) && (err.error matches ExecutionError::Wait(rendered, mm) && rendered@
                    == shell_command_text(old(self).command) && mm == m)
            }),
    {
        match poll {
            PollOutcome::Exited => Ok(true),
            PollOutcome::StillRunning => Ok(false),
            PollOutcome::PollFailed(message) => {
                let rendered = shell_command(&self.command);
                if tolerate {
                    let ghost before = self.warnings@;
                    self.warnings.push(ExecutionError::Wait(rendered, message));
                    proof {
                        assert(self.warnings@.take(before.len() as int) =~= before);
                    }
                    Ok(false)
                } else {
                    let step = self.step.duplicate();
                    let err = JobExecutionError {
                        step,
                        error: ExecutionError::Wait(rendered, message),
                    };
                    proof {
                        assert(*self == *old(self));
                    }
                    Err(err)
                }
            },
        }
    }

    /// Settles the job from the child's exit: code zero is success, a
    /// non-zero code or a signal is failure; a failed wait is failure too.
    /// Warnings ride along into the failed state.
    pub fn finish(self, wait: WaitOutcome) -> (r: FinishedJob)
        ensures
            (wait matches WaitOutcome::WaitFailed(m) ==> (r matches FinishedJob::Failed(f)
                && f.step == self.step && f.warnings == self.warnings && (f.error
                matches ExecutionError::Wait(rendered, mm) && rendered@ == shell_command_text(
                self.command,
            ) && mm == m))),
            (wait matches WaitOutcome::Exited(e) ==> match e {
                ExitOutcome::Code(code) => if code == 0 {
                    r matches FinishedJob::Successful(s) && s.step == self.step
                } else {
                    r matches FinishedJob::Failed(f) && f.step == self.step && f.warnings
                        == self.warnings && (f.error matches ExecutionError::NonZeroExitCode(
                        rendered,
                        c,
                    ) && rendered@ == shell_command_text(self.command) && c == code)
                },
                ExitOutcome::Signal => r matches FinishedJob::Failed(f) && f.step == self.step
                    && f.warnings == self.warnings && (f.error
                    matches ExecutionError::SignalTermination(rendered) && rendered@
                    == shell_command_text(self.command)),
            }),
    {
        match wait {
            WaitOutcome::WaitFailed(message) => {
                let rendered = shell_command(&self.command);
                FinishedJob::Failed(
                    ExecutionError::Wait(rendered, message).as_failed_job_warnings(
                        self.step,
                        self.warnings,
                    ),
                )
            },
            WaitOutcome::Exited(ExitOutcome::Code(code)) => {
                if code == 0 {
                    FinishedJob::Successful(SuccessfulJob::new(self.step))
                } else {
                    let rendered = shell_command(&self.command);
                    FinishedJob::Failed(
                        ExecutionError::NonZeroExitCode(rendered, code).as_failed_job_warnings(
                            self.step,
                            self.warnings,
                        ),
                    )
                }
            },
            WaitOutcome::Exited(ExitOutcome::Signal) => {
                let rendered = shell_command(&self.command);
                FinishedJob::Failed(
                    ExecutionError::SignalTermination(rendered).as_failed_job_warnings(
                        self.step,
                        self.warnings,
                    ),
                )
            },
        }
    }

    /// Settles the job as terminated after the driver killed the child; a
    /// failed kill is fatal.
    pub fn terminate(self, kill: KillOutcome) -> (r: Result<TerminatedJob, JobExecutionError>)
        ensures
            (kill is Killed ==> (r matches Ok(t) && t.step == self.step)),
            (kill matches KillOutcome::KillFailed(m) ==> (r matches Err(err) && err.step
                == self.step && (err.error matches ExecutionError::Kill(rendered, mm) && rendered@
                == shell_command_text(self.command) && mm == m))),
    {
        match kill {
            KillOutcome::Killed => Ok(TerminatedJob::new(self.step)),
            KillOutcome::KillFailed(message) => {
                let rendered = shell_command(&self.command);
                Err(
                    JobExecutionError {
                        step: self.step,
                        error: ExecutionError::Kill(rendered, message),
                    },
                )
            },
        }
    }
}

/// What a progress tick yields. Without a scanner it is a no-op (the
/// display's spinner is nudged). With one, the log is scanned and the
/// indicator position becomes the reported maximum; a failed read or a
/// failed scan is a warning when tolerated, else fatal.
pub open spec fn progress_tick_matches(
    j: RunningJob,
    log: LogReadOutcome,
    tolerate: bool,
    r: Result<(), JobExecutionError>,
    n_final: RunningJob,
) -> bool {
    if !(j.progress matches Some(h) && h.scanner is Some) {
        r is Ok && n_final == j
    } else {
        match log {
            LogReadOutcome::NotNeeded => true,
            LogReadOutcome::Read(contents) => {
                let pattern = pattern_of(j.step);
                let lines = lines_of(contents@);
                let scan_fails = exists|i: int|
                    0 <= i < lines.len() && crate::progress::line_is_bad(
                        pattern,
                        #[trigger] lines[i],
                    );
                if !scan_fails {
                    r is Ok && running_core_like(j, n_final) && n_final.warnings@ == j.warnings@
                        && (n_final.progress matches Some(h2) && h2.scanner == (
                    j.progress->0).scanner && (h2.position matches Some(p) && p
                        == max_scan_progress(pattern, lines))) && running_wf(n_final)
                } else if tolerate {
                    r is Ok && running_core_like(j, n_final) && n_final.progress == j.progress
                        && n_final.warnings@.len() == j.warnings@.len() + 1
                        && n_final.warnings@.take(
                        j.warnings@.len() as int,
                    ) == j.warnings@ && (n_final.warnings@.last()
                        matches ExecutionError::ProgressScan(lp, _) && lp == j.step.log)
                        && running_wf(n_final)
                } else {
                    r matches Err(err) && n_final == j && step_info_like(err.step, j.step) && (
                    err.error matches ExecutionError::ProgressScan(lp, _) && lp == j.step.log)
                }
            },
            LogReadOutcome::ReadFailed(m) => {
                if tolerate {
                    r is Ok && running_core_like(j, n_final) && n_final.progress == j.progress
                        && n_final.warnings@.len() == j.warnings@.len() + 1
                        && n_final.warnings@.take(
                        j.warnings@.len() as int,
                    ) == j.warnings@ && (n_final.warnings@.last()
                        matches ExecutionError::ProgressLogRead(lp, mm) && lp == j.step.log && mm
                        == m) && running_wf(n_final)
                } else {
                    r matches Err(err) && n_final == j && step_info_like(err.step, j.step) && (
                    err.error matches ExecutionError::ProgressLogRead(lp, mm) && lp == j.step.log
                        && mm == m)
                }
            },
        }
    }
}

impl RunningJob {
    /// A progress tick: scans the log where a scanner is attached and
    /// records the reported value as the indicator position. Failures to
    /// read or scan are warnings when tolerated, else fatal; the job
    /// itself is left as it was on a fatal failure.
    pub fn progress(&mut self, log: LogReadOutcome, tolerate: bool) -> (r: Result<
        (),
        JobExecutionError,
    >)
        requires
            running_wf(*old(self)),
            (old(self).progress matches Some(h) && h.scanner is Some) <==> !(log is NotNeeded),
        ensures
            progress_tick_matches(*old(self), log, tolerate, r, *final(self)),
            running_wf(*final(self)),
    {
        let wants = self.wants_log();
        if !wants {
            return Ok(());
        }
        match log {
            LogReadOutcome::NotNeeded => vstd::pervasive::unreached(),
            LogReadOutcome::Read(contents) => {
                let mut handler = match self.progress.take() {
                    Some(h) => h,
                    None => vstd::pervasive::unreached(),
                };
                let scan = match &handler.scanner {
                    Some(scanner) => scanner.read_progress(contents.as_str()),
                    None => vstd::pervasive::unreached(),
                };
                match scan {
                    Ok(value) => {
                        handler.position = Some(value);
                        self.progress = Some(handler);
                        Ok(())
                    },
                    Err(scan_error) => {
                        self.progress = Some(handler);
                        if tolerate {
                            let ghost before = self.warnings@;
                            let log_path = self.step.log.clone();
                            self.warnings.push(
                                ExecutionError::ProgressScan(log_path, scan_error),
                            );
                            proof {
                                assert(self.warnings@.take(before.len() as int) =~= before);
                            }
                            Ok(())
                        } else {
                            let log_path = self.step.log.clone();
                            let step = self.step.duplicate();
                            Err(
                                JobExecutionError {
                                    step,
                                    error: ExecutionError::ProgressScan(log_path, scan_error),
                                },
                            )
                        }
                    },
                }
            },
            LogReadOutcome::ReadFailed(message) => {
                if tolerate {
                    let ghost before = self.warnings@;
                    let log_path = self.step.log.clone();
                    self.warnings.push(ExecutionError::ProgressLogRead(log_path, message));
                    proof {
                        assert(self.warnings@.take(before.len() as int) =~= before);
                    }
                    Ok(())
                } else {
                    let log_path = self.step.log.clone();
                    let step = self.step.duplicate();
                    Err(
                        JobExecutionError {
                            step,
                            error: ExecutionError::ProgressLogRead(log_path, message),
                        },
                    )
                }
            },
        }
    }
}

/// The lifecycle phase of a job.
pub open spec fn job_phase(j: Job) -> int {
    match j {
        Job::Pending(_) => 0,
        Job::Running(_) => 1,
        Job::Successful(_) => 2,
        Job::Failed(_) => 3,
        Job::Terminated(_) => 4,
    }
}

/// Whether a job is in a terminal state.
pub open spec fn job_is_terminal(j: Job) -> bool {
    job_phase(j) >= 2
}

/// The coarse rank of a phase: pending, running, terminal.
pub open spec fn job_rank(j: Job) -> int {
    if job_phase(j) == 0 {
        0
    } else if job_phase(j) == 1 {
        1
    } else {
        2
    }
}

/// The lifecycle's transition relation: a pending job may stay pending,
/// start running, be skipped to successful or fail; a running job may
/// keep running, finish either way or be terminated; a terminal job only
/// stays exactly where it is.
pub open spec fn job_step_ok(a: Job, b: Job) -> bool {
    match a {
        Job::Pending(_) => job_phase(b) == 0 || job_phase(b) == 1 || job_phase(b) == 2 || job_phase(
            b,
        ) == 3,
        Job::Running(_) => job_phase(b) >= 1,
        _ => job_phase(b) == job_phase(a),
    }
}

proof fn lemma_job_step_facts(a: Job, b: Job)
    requires
        job_step_ok(a, b),
    ensures
        job_rank(a) <= job_rank(b),
        job_is_terminal(a) ==> job_phase(b) == job_phase(a),
        job_rank(a) == job_rank(b) ==> job_phase(a) == job_phase(b),
{
}

proof fn lemma_job_trace_reach(trace: Seq<Job>, k: int, l: int)
    requires
        forall|m: int|
            0 <= m < trace.len() - 1 ==> job_step_ok(#[trigger] trace[m], trace[m + 1]),
        0 <= k <= l < trace.len(),
    ensures
        job_rank(trace[k]) <= job_rank(trace[l]),
        job_rank(trace[k]) == job_rank(trace[l]) ==> job_phase(trace[k]) == job_phase(trace[l]),
        job_is_terminal(trace[k]) ==> job_phase(trace[l]) == job_phase(trace[k]),
    decreases l - k,
{
    if k < l {
        lemma_job_trace_reach(trace, k, l - 1);
        lemma_job_step_facts(trace[l - 1], trace[l]);
    }
}

/// Each job reaches at most one terminal state and never revisits a
/// state: along any lifecycle-respecting trace, once a job is terminal
/// its phase never changes again, and a phase that was left is never
/// taken again.
pub proof fn lemma_lifecycle_single_terminal(trace: Seq<Job>)
    requires
        forall|m: int|
            0 <= m < trace.len() - 1 ==> job_step_ok(#[trigger] trace[m], trace[m + 1]),
    ensures
        forall|k: int, l: int|
            0 <= k <= l < trace.len() && job_is_terminal(#[trigger] trace[k]) ==> job_phase(
                #[trigger] trace[l],
            ) == job_phase(trace[k]),
        forall|k: int, l: int, m: int|
            0 <= k <= l <= m < trace.len() && job_phase(#[trigger] trace[k]) == job_phase(
                #[trigger] trace[m],
            ) ==> job_phase(#[trigger] trace[l]) == job_phase(trace[k]),
{
    assert forall|k: int, l: int|
        0 <= k <= l < trace.len() && job_is_terminal(#[trigger] trace[k]) implies job_phase(
        #[trigger] trace[l],
    ) == job_phase(trace[k]) by {
        lemma_job_trace_reach(trace, k, l);
    }
    assert forall|k: int, l: int, m: int|
        0 <= k <= l <= m < trace.len() && job_phase(#[trigger] trace[k]) == job_phase(
            #[trigger] trace[m],
        ) implies job_phase(#[trigger] trace[l]) == job_phase(trace[k]) by {
        lemma_job_trace_reach(trace, k, l);
        lemma_job_trace_reach(trace, l, m);
        lemma_job_trace_reach(trace, k, m);
    }
}

/// The step a job realizes, whatever its state.
pub open spec fn job_step_info(j: Job) -> StepInfo {
    match j {
        Job::Pending(p) => p.step,
        Job::Running(r) => r.step,
        Job::Successful(s) => s.step,
        Job::Failed(f) => f.step,
        Job::Terminated(t) => t.step,
    }
}

impl Job {
    /// Wraps a command and its step as a pending job.
    pub fn new(command: CommandSpec, step: StepInfo) -> (r: Job)
        ensures
            r matches Job::Pending(p) && p.command == command && p.step == step,
    {
        Job::Pending(PendingJob::new(command, step))
    }

    pub fn is_running(&self) -> (r: bool)
        ensures
            r == (self is Running),
    {
        match self {
            Job::Running(_) => true,
            _ => false,
        }
    }

    /// Whether the job is in a terminal state.
    pub fn finished(&self) -> (r: bool)
        ensures
            r == job_is_terminal(*self),
    {
        match self {
            Job::Successful(_) => true,
            Job::Failed(_) => true,
            Job::Terminated(_) => true,
            _ => false,
        }
    }

    pub fn successful(&self) -> (r: bool)
        ensures
            r == (self is Successful),
    {
        match self {
            Job::Successful(_) => true,
            _ => false,
        }
    }

    pub fn failed(&self) -> (r: bool)
        ensures
            r == (self is Failed),
    {
        match self {
            Job::Failed(_) => true,
            _ => false,
        }
    }

    /// The step this job realizes.
    pub fn step(&self) -> (r: &StepInfo)
        ensures
            *r == job_step_info(*self),
    {
        match self {
            Job::Pending(p) => &p.step,
            Job::Running(running) => &running.step,
            Job::Successful(s) => &s.step,
            Job::Failed(f) => &f.step,
            Job::Terminated(t) => &t.step,
        }
    }
}

impl ExecutedJob {
    /// Folds the execute outcome back into the lifecycle.
    pub fn into_job(self) -> (r: Job)
        ensures
            (self matches ExecutedJob::Running(j) ==> r == Job::Running(j)),
            (self matches ExecutedJob::Finished(j) ==> r == Job::Successful(j)),
            (self matches ExecutedJob::Failed(j) ==> r == Job::Failed(j)),
    {
        match self {
            ExecutedJob::Running(j) => Job::Running(j),
            ExecutedJob::Finished(j) => Job::Successful(j),
            ExecutedJob::Failed(j) => Job::Failed(j),
        }
    }
}

impl FinishedJob {
    /// Folds the finish outcome back into the lifecycle.
    pub fn into_job(self) -> (r: Job)
        ensures
            (self matches FinishedJob::Successful(j) ==> r == Job::Successful(j)),
            (self matches FinishedJob::Failed(j) ==> r == Job::Failed(j)),
    {
        match self {
            FinishedJob::Successful(j) => Job::Successful(j),
            FinishedJob::Failed(j) => Job::Failed(j),
        }
    }
}

} // verus!
