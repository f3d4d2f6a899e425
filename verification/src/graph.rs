use vstd::prelude::*;

use crate::command::CommandSpec;
use crate::executors::{execution_command_ok, Executor};
use crate::jobs::{
    decision_fails, decision_skip, failure_error_matches, job_is_terminal, job_step_info,
    job_step_ok, running_core_like, running_wf, spawned_job_matches, with_progress_matches,
    ChildToken, ExecuteDecision, ExecutedJob, ExecutionError, ExitOutcome, Job, JobExecutionError,
    KillOutcome, LogReadOutcome, PathProbe, PendingJob, PollOutcome, progress_tick_matches,
    RunningJob, SpawnOutcome, WaitOutcome,
};
use crate::nix_environment::{
    run_command_ok, FlakeOutput, FlakeSource, NixEnvironment, NixRunCommand,
    NixRunCommandOptions,
};
use crate::specification::{
    flat_input_parent_names, flat_input_parent_names_prefix, input_parent_names_of,
    step_info_like, step_info_matches, Step, StepInfo, WorkflowSpecification,
};
use crate::text::str_eq;

verus! {

/// A graph slot: the job it holds, or a marker parked there while the job
/// is taken out for a transition. The marker is never visible between
/// driver calls.
pub enum MaybeTransitioning<T> {
    Stable(T),
    Transitioning,
}

impl<T> MaybeTransitioning<T> {
    /// The held value; the caller asserts with `message` that no
    /// transition is in flight.
    pub fn expect(self, message: &str) -> (r: T)
        requires
            self is Stable,
        ensures
            self == MaybeTransitioning::Stable(r),
    {
        match self {
            MaybeTransitioning::Stable(value) => value,
            MaybeTransitioning::Transitioning => vstd::pervasive::unreached(),
        }
    }

    /// The slot with its value borrowed.
    pub fn as_ref(&self) -> (r: MaybeTransitioning<&T>)
        ensures
            (self matches MaybeTransitioning::Stable(v) ==> (r matches MaybeTransitioning::Stable(
                b,
            ) && b == v)),
            (self is Transitioning ==> r is Transitioning),
    {
        match self {
            MaybeTransitioning::Stable(value) => MaybeTransitioning::Stable(value),
            MaybeTransitioning::Transitioning => MaybeTransitioning::Transitioning,
        }
    }

    /// The held value, where the slot is stable.
    pub fn stable(self) -> (r: Option<T>)
        ensures
            (self matches MaybeTransitioning::Stable(v) ==> r == Some(v)),
            (self is Transitioning ==> r is None),
    {
        match self {
            MaybeTransitioning::Stable(value) => Some(value),
            MaybeTransitioning::Transitioning => None,
        }
    }
}

/// The job a stable slot holds.
pub open spec fn stable_job(s: MaybeTransitioning<Job>) -> Job
    recommends
        s is Stable,
{
    match s {
        MaybeTransitioning::Stable(j) => j,
        MaybeTransitioning::Transitioning => vstd::pervasive::arbitrary(),
    }
}

/// How many stable slots hold a running job.
pub open spec fn running_count_of(slots: Seq<MaybeTransitioning<Job>>) -> nat
    decreases slots.len(),
{
    if slots.len() == 0 {
        0
    } else {
        running_count_of(slots.drop_last()) + (if slots.last()
            matches MaybeTransitioning::Stable(j) && j is Running {
            1nat
        } else {
            0nat
        })
    }
}

pub proof fn lemma_running_count_update(slots: Seq<MaybeTransitioning<Job>>, i: int, s: MaybeTransitioning<Job>)
    requires
        0 <= i < slots.len(),
    ensures
        running_count_of(slots.update(i, s)) == running_count_of(slots) - slot_running_weight(
            slots[i],
        ) + slot_running_weight(s),
    decreases slots.len(),
{
    if slots.len() > 0 {
        if i == slots.len() - 1 {
            assert(slots.update(i, s).drop_last() =~= slots.drop_last());
            assert(slots.update(i, s).last() == s);
        } else {
            assert(slots.update(i, s).drop_last() =~= slots.drop_last().update(i, s));
            assert(slots.update(i, s).last() == slots.last());
            lemma_running_count_update(slots.drop_last(), i, s);
        }
    }
}

/// Whether a slot holds a running job, as a count contribution.
pub open spec fn slot_running_weight(s: MaybeTransitioning<Job>) -> nat {
    if s matches MaybeTransitioning::Stable(j) && j is Running {
        1
    } else {
        0
    }
}

pub proof fn lemma_running_count_all_pending(slots: Seq<MaybeTransitioning<Job>>)
    requires
        forall|i: int|
            0 <= i < slots.len() ==> ((#[trigger] slots[i]) matches MaybeTransitioning::Stable(j)
                && j is Pending),
    ensures
        running_count_of(slots) == 0,
    decreases slots.len(),
{
    if slots.len() > 0 {
        lemma_running_count_all_pending(slots.drop_last());
    }
}

/// The options of a graph run: the concurrency cap, whether to keep going
/// past a failure, and whether transient update failures are demoted to
/// warnings.
pub struct GraphExecutionOptions {
    pub max_parallel_jobs: u32,
    pub keep_going: bool,
    pub only_warn_job_update_failures: bool,
}

/// The job graph: jobs by stable index, and for each job the indices of
/// the jobs it depends on. Ingest creates every parent before its
/// children, so each dependency points at a smaller index and the graph
/// is acyclic by construction.
pub struct JobGraph {
    jobs: Vec<MaybeTransitioning<Job>>,
    parents: Vec<Vec<usize>>,
}

impl JobGraph {
    /// The slots of the graph.
    pub closed spec fn jobs_view(&self) -> Seq<MaybeTransitioning<Job>> {
        self.jobs@
    }

    /// The dependency lists of the graph.
    pub closed spec fn parents_view(&self) -> Seq<Seq<usize>> {
        self.parents@.map_values(|v: Vec<usize>| v@)
    }

    /// The slot at an index.
    pub open spec fn slot(&self, i: int) -> MaybeTransitioning<Job> {
        self.jobs_view()[i]
    }

    /// Structure: one dependency list per job, every dependency pointing
    /// at a smaller index (so the graph is acyclic), and every running
    /// job's scanner well-formed.
    pub open spec fn wf(&self) -> bool {
        &&& self.parents_view().len() == self.jobs_view().len()
        &&& (forall|i: int, k: int|
            0 <= i < self.parents_view().len() && 0 <= k < self.parents_view()[i].len()
                ==> #[trigger] self.parents_view()[i][k] < i)
        &&& (forall|i: int|
            0 <= i < self.jobs_view().len() && ((#[trigger] self.slot(i))
                matches MaybeTransitioning::Stable(j) && j is Running) ==> running_wf(
                stable_job(self.slot(i))->Running_0,
            ))
    }

    /// Dependency order: a job that is running, or that ended successful,
    /// has every stable parent successful.
    pub open spec fn parents_ok(&self) -> bool {
        forall|i: int, k: int|
            0 <= i < self.jobs_view().len() && ((#[trigger] self.slot(i))
                matches MaybeTransitioning::Stable(j) && (j is Running || j is Successful)) && 0
                <= k < self.parents_view()[i].len() ==> ((#[trigger] self.slot(
                self.parents_view()[i][k] as int,
            )) matches MaybeTransitioning::Stable(p) ==> p is Successful)
    }

    /// Whether every slot is stable.
    pub open spec fn all_stable(&self) -> bool {
        forall|i: int| 0 <= i < self.jobs_view().len() ==> (#[trigger] self.slot(i)) is Stable
    }

    /// The number of jobs.
    pub fn job_count(&self) -> (r: usize)
        ensures
            r == self.jobs_view().len(),
    {
        self.jobs.len()
    }

    /// The slot at an index, for inspection.
    pub fn job_ref(&self, i: usize) -> (r: &MaybeTransitioning<Job>)
        requires
            i < self.jobs_view().len(),
        ensures
            *r == self.slot(i as int),
    {
        &self.jobs[i]
    }

    /// The dependencies of a job.
    pub fn parents(&self, i: usize) -> (r: &Vec<usize>)
        requires
            self.wf(),
            i < self.jobs_view().len(),
        ensures
            r@ == self.parents_view()[i as int],
    {
        &self.parents[i]
    }

    /// The number of running jobs.
    pub fn count_running(&self) -> (r: usize)
        ensures
            r == running_count_of(self.jobs_view()),
    {
        let mut count: usize = 0;
        let mut i: usize = 0;
        while i < self.jobs.len()
            invariant
                i <= self.jobs@.len(),
                count == running_count_of(self.jobs@.take(i as int)),
                count <= i,
            decreases self.jobs@.len() - i,
        {
            let is_running = match &self.jobs[i] {
                MaybeTransitioning::Stable(j) => j.is_running(),
                MaybeTransitioning::Transitioning => false,
            };
            proof {
                assert(self.jobs@.take(i + 1).drop_last() =~= self.jobs@.take(i as int));
                assert(self.jobs@.take(i + 1).last() == self.jobs@[i as int]);
            }
            if is_running {
                count = count + 1;
            }
            i = i + 1;
        }
        proof {
            assert(self.jobs@.take(self.jobs@.len() as int) =~= self.jobs@);
        }
        count
    }

    /// Whether every job is terminal.
    pub fn is_finished(&self) -> (r: bool)
        requires
            self.all_stable(),
        ensures
            r == (forall|i: int|
                0 <= i < self.jobs_view().len() ==> job_is_terminal(
                    stable_job(#[trigger] self.slot(i)),
                )),
    {
        let mut i: usize = 0;
        while i < self.jobs.len()
            invariant
                self.all_stable(),
                i <= self.jobs@.len(),
                forall|k: int|
                    0 <= k < i ==> job_is_terminal(stable_job(#[trigger] self.jobs@[k])),
            decreases self.jobs@.len() - i,
        {
            proof {
                assert(self.slot(i as int) is Stable);
            }
            let done = match &self.jobs[i] {
                MaybeTransitioning::Stable(j) => j.finished(),
                MaybeTransitioning::Transitioning => {
                    proof {
                        assert(false);
                    }
                    false
                },
            };
            if !done {
                proof {
                    assert(!job_is_terminal(stable_job(self.slot(i as int))));
                }
                return false;
            }
            i = i + 1;
        }
        true
    }
}

impl Executor {
    /// Materializes a step as a pending job: the execution command for its
    /// run command, and its step info.
    pub fn build_job(&self, command: &NixRunCommand, step: crate::specification::StepInfo) -> (r:
        Job)
        ensures
            (r matches Job::Pending(p) && execution_command_ok(*self, *command, p.command)
                && p.step == step),
    {
        Job::Pending(PendingJob::new(self.execution_command(command), step))
    }
}

/// Whether a job realizes some step for an environment and flake: it is
/// pending, its step info is the step's runtime projection, and its
/// command is the step's executor applied to the environment's unbuffered
/// run command for the flake output named after the step.
pub open spec fn job_realizes_step(env: NixEnvironment, flake_path: Seq<char>, j: Job) -> bool {
    j matches Job::Pending(p) && (exists|st: Step, rc: NixRunCommand, o: FlakeOutput|
        {
            &&& step_info_matches(st, p.step)
            &&& (o.source matches FlakeSource::Path(fp) && fp@ == flake_path)
            &&& (o.name matches Some(n) && n@ == st.name@)
            &&& #[trigger] run_command_ok(
                env,
                o,
                NixRunCommandOptions { readonly: true, buffered: false },
                rc,
            )
            &&& #[trigger] execution_command_ok(st.executor, rc, p.command)
        })
}

/// The graph realizes a family of steps: each job carries some step's
/// runtime projection, and its dependency list names, in order, exactly
/// the steps producing that step's flattened inputs.
pub open spec fn graph_realizes_steps(g: JobGraph) -> bool {
    exists|steps: Seq<Step>|
        {
            &&& #[trigger] steps.len() == g.jobs_view().len()
            &&& (forall|i: int|
                0 <= i < steps.len() ==> step_info_matches(
                    #[trigger] steps[i],
                    job_step_info(stable_job(g.slot(i))),
                ))
            &&& (forall|i: int|
                0 <= i < steps.len() ==> #[trigger] g.parents_view()[i].len()
                    == flat_input_parent_names(steps[i].inputs@).len())
            &&& (forall|i: int, k: int|
                0 <= i < steps.len() && 0 <= k < g.parents_view()[i].len() ==> job_step_info(
                    stable_job(g.slot(#[trigger] g.parents_view()[i][k] as int)),
                ).name@ == flat_input_parent_names(steps[i].inputs@)[k])
        }
}

/// Ingest state: jobs, their dependency lists, and the step names under
/// which jobs were created, for coalescing repeated steps.
struct IngestState {
    jobs: Vec<MaybeTransitioning<Job>>,
    parents: Vec<Vec<usize>>,
    names: Vec<String>,
    /// The step each job was created from, for stating that the graph
    /// realizes the specification.
    steps: Ghost<Seq<Step>>,
}

impl IngestState {
    spec fn wf(&self) -> bool {
        &&& self.parents@.len() == self.jobs@.len()
        &&& self.names@.len() == self.jobs@.len()
        &&& self.steps@.len() == self.jobs@.len()
        &&& (forall|i: int, k: int|
            0 <= i < self.parents@.len() && 0 <= k < self.parents@[i]@.len()
                ==> #[trigger] self.parents@[i]@[k] < i)
        &&& (forall|i: int|
            0 <= i < self.jobs@.len() ==> ((#[trigger] self.jobs@[i])
                matches MaybeTransitioning::Stable(j) && j is Pending))
        &&& (forall|i: int|
            0 <= i < self.jobs@.len() ==> #[trigger] self.names@[i]@ == job_step_info(
                stable_job(self.jobs@[i]),
            ).name@)
        &&& (forall|i: int, k: int|
            0 <= i < k < self.names@.len() ==> #[trigger] self.names@[i]@
                != #[trigger] self.names@[k]@)
        &&& (forall|i: int|
            0 <= i < self.jobs@.len() ==> step_info_matches(
                #[trigger] self.steps@[i],
                job_step_info(stable_job(self.jobs@[i])),
            ))
        &&& (forall|i: int|
            0 <= i < self.jobs@.len() ==> #[trigger] self.parents@[i]@.len()
                == flat_input_parent_names(self.steps@[i].inputs@).len())
        &&& (forall|i: int, k: int|
            0 <= i < self.jobs@.len() && 0 <= k < self.parents@[i]@.len()
                ==> self.names@[#[trigger] self.parents@[i]@[k] as int]@
                == flat_input_parent_names(self.steps@[i].inputs@)[k])
    }

    spec fn extends(&self, old_state: IngestState) -> bool {
        &&& self.jobs@.len() >= old_state.jobs@.len()
        &&& (forall|i: int|
            0 <= i < old_state.jobs@.len() ==> #[trigger] self.jobs@[i] == old_state.jobs@[i])
    }

    fn find_by_name(&self, name: &String) -> (r: Option<usize>)
        ensures
            (r matches Some(i) ==> i < self.names@.len() && self.names@[i as int]@ == name@),
            (r is None ==> forall|i: int|
                0 <= i < self.names@.len() ==> #[trigger] self.names@[i]@ != name@),
    {
        let mut i: usize = 0;
        while i < self.names.len()
            invariant
                i <= self.names@.len(),
                forall|k: int| 0 <= k < i ==> #[trigger] self.names@[k]@ != name@,
            decreases self.names@.len() - i,
        {
            if str_eq(self.names[i].as_str(), name.as_str()) {
                return Some(i);
            }
            i = i + 1;
        }
        None
    }
}

fn add_jobs_from_step(
    state: &mut IngestState,
    step: &Step,
    nix_environment: &NixEnvironment,
    flake_path: &str,
) -> (r: usize)
    requires
        old(state).wf(),
        forall|i: int|
            0 <= i < old(state).jobs@.len() ==> job_realizes_step(
                *nix_environment,
                flake_path@,
                stable_job(#[trigger] old(state).jobs@[i]),
            ),
    ensures
        final(state).wf(),
        final(state).extends(*old(state)),
        r < final(state).jobs@.len(),
        job_step_info(stable_job(final(state).jobs@[r as int])).name@ == step.name@,
        forall|i: int|
            0 <= i < final(state).jobs@.len() ==> job_realizes_step(
                *nix_environment,
                flake_path@,
                stable_job(#[trigger] final(state).jobs@[i]),
            ),
    decreases *step,
{
    if let Some(existing) = state.find_by_name(&step.name) {
        return existing;
    }
    let mut parent_ids: Vec<usize> = Vec::new();
    let ghost state_entry = *state;
    let mut i: usize = 0;
    while i < step.inputs.len()
        invariant
            state.wf(),
            state.extends(state_entry),
            i <= step.inputs@.len(),
            forall|k: int| 0 <= k < parent_ids@.len() ==> #[trigger] parent_ids@[k]
                < state.jobs@.len(),
            forall|k: int|
                0 <= k < state.jobs@.len() ==> job_realizes_step(
                    *nix_environment,
                    flake_path@,
                    stable_job(#[trigger] state.jobs@[k]),
                ),
            parent_ids@.len() == flat_input_parent_names_prefix(step.inputs@, i as int).len(),
            forall|k: int|
                0 <= k < parent_ids@.len() ==> state.names@[#[trigger] parent_ids@[k] as int]@
                    == flat_input_parent_names_prefix(step.inputs@, i as int)[k],
        decreases step.inputs@.len() - i,
    {
        let list = &step.inputs[i].1;
        let mut j: usize = 0;
        while j < list.len()
            invariant
                state.wf(),
                state.extends(state_entry),
                list == &step.inputs@[i as int].1,
                i < step.inputs@.len(),
                j <= list@.len(),
                forall|k: int| 0 <= k < parent_ids@.len() ==> #[trigger] parent_ids@[k]
                    < state.jobs@.len(),
                forall|k: int|
                    0 <= k < state.jobs@.len() ==> job_realizes_step(
                        *nix_environment,
                        flake_path@,
                        stable_job(#[trigger] state.jobs@[k]),
                    ),
                parent_ids@.len() == flat_input_parent_names_prefix(step.inputs@, i as int).len()
                    + j,
                forall|k: int|
                    0 <= k < parent_ids@.len() ==> state.names@[#[trigger] parent_ids@[k] as int]@
                        == (flat_input_parent_names_prefix(step.inputs@, i as int)
                        + input_parent_names_of(list@.take(j as int)))[k],
            decreases list@.len() - j,
        {
            let ghost state_before = *state;
            let parent_id = add_jobs_from_step(
                state,
                &list[j].parent_step,
                nix_environment,
                flake_path,
            );
            parent_ids.push(parent_id);
            proof {
                assert(state.extends(state_before));
                assert(state.extends(state_entry));
                assert forall|k: int| 0 <= k < parent_ids@.len() implies #[trigger] parent_ids@[k]
                    < state.jobs@.len() by {}
                assert(input_parent_names_of(list@.take(j + 1)) =~= input_parent_names_of(
                    list@.take(j as int),
                ).push(list@[j as int].parent_step.name@));
                assert(state.names@[parent_id as int]@ == list@[j as int].parent_step.name@);
                assert forall|k: int|
                    0 <= k < parent_ids@.len() implies state.names@[#[trigger] parent_ids@[
                    k] as int]@ == (flat_input_parent_names_prefix(step.inputs@, i as int)
                    + input_parent_names_of(list@.take(j + 1)))[k] by {
                    if k < parent_ids@.len() - 1 {
                        assert(state.names@[parent_ids@[k] as int]@
                            == job_step_info(stable_job(state.jobs@[parent_ids@[k] as int])).name@);
                        assert(state_before.names@[parent_ids@[k] as int]@
                            == state.names@[parent_ids@[k] as int]@);
                    }
                }
            }
            j = j + 1;
        }
        proof {
            assert(list@.take(list@.len() as int) =~= list@);
            assert(flat_input_parent_names_prefix(step.inputs@, i + 1)
                =~= flat_input_parent_names_prefix(step.inputs@, i as int)
                + input_parent_names_of(list@));
        }
        i = i + 1;
    }
    if let Some(existing) = state.find_by_name(&step.name) {
        // another occurrence of this step was ingested through an input
        return existing;
    }
    let flake_output = FlakeOutput::new(
        FlakeSource::Path(flake_path.to_owned()),
        step.name.clone(),
    );
    let ghost output_spec = flake_output;
    let options = NixRunCommandOptions::default().unbuffered();
    proof {
        assert(options == NixRunCommandOptions { readonly: true, buffered: false });
    }
    let run_command = nix_environment.run_command(flake_output, options);
    let ghost rc_spec = run_command;
    let job = step.executor.build_job(&run_command, step.info());
    let ghost job_spec = job;
    let id = state.jobs.len();
    let ghost before = *state;
    state.jobs.push(MaybeTransitioning::Stable(job));
    state.parents.push(parent_ids);
    state.names.push(step.name.clone());
    proof {
        state.steps@ = state.steps@.push(*step);
        assert(flat_input_parent_names_prefix(step.inputs@, step.inputs@.len() as int)
            == flat_input_parent_names(step.inputs@));
        assert(job_realizes_step(*nix_environment, flake_path@, job_spec)) by {
            assert(run_command_ok(
                *nix_environment,
                output_spec,
                NixRunCommandOptions { readonly: true, buffered: false },
                rc_spec,
            ));
            assert(execution_command_ok(
                step.executor,
                rc_spec,
                job_spec->Pending_0.command,
            ));
        }
        assert forall|i2: int, k: int|
            0 <= i2 < state.parents@.len() && 0 <= k < state.parents@[i2]@.len()
            implies #[trigger] state.parents@[i2]@[k] < i2 by {
            if i2 < before.parents@.len() {
                assert(state.parents@[i2] == before.parents@[i2]);
            }
        }
        assert(state.wf());
    }
    id
}

impl JobGraph {
    /// Builds the job graph of a specification: walks every target's
    /// parent step, creating each step's parents before the step itself
    /// and coalescing steps by name, so that a step referenced from
    /// several places is scheduled once. Every job starts pending.
    pub fn new(
        specification: &WorkflowSpecification,
        nix_environment: &NixEnvironment,
        flake_path: &str,
    ) -> (r: JobGraph)
        ensures
            r.wf(),
            r.all_stable(),
            r.parents_ok(),
            forall|i: int|
                0 <= i < r.jobs_view().len() ==> ((#[trigger] r.slot(i))
                    matches MaybeTransitioning::Stable(j) && j is Pending),
            running_count_of(r.jobs_view()) == 0,
            forall|i: int, k: int|
                0 <= i < k < r.jobs_view().len() ==> job_step_info(
                    stable_job(#[trigger] r.slot(i)),
                ).name@ != job_step_info(stable_job(#[trigger] r.slot(k))).name@,
            forall|i: int|
                0 <= i < r.jobs_view().len() ==> job_realizes_step(
                    *nix_environment,
                    flake_path@,
                    stable_job(#[trigger] r.slot(i)),
                ),
            forall|g: int, u: int|
                0 <= g < specification.targets@.len() && 0 <= u
                    < specification.targets@[g].1@.len() ==> exists|i: int|
                    0 <= i < r.jobs_view().len() && job_step_info(
                        stable_job(#[trigger] r.slot(i)),
                    ).name@ == (#[trigger] specification.targets@[g].1@[u]).parent_step.name@,
            graph_realizes_steps(r),
    {
        let mut state = IngestState {
            jobs: Vec::new(),
            parents: Vec::new(),
            names: Vec::new(),
            steps: Ghost(Seq::empty()),
        };
        let mut t: usize = 0;
        while t < specification.targets.len()
            invariant
                state.wf(),
                t <= specification.targets@.len(),
                forall|k: int|
                    0 <= k < state.jobs@.len() ==> job_realizes_step(
                        *nix_environment,
                        flake_path@,
                        stable_job(#[trigger] state.jobs@[k]),
                    ),
                forall|g: int, u: int|
                    0 <= g < t && 0 <= u < specification.targets@[g].1@.len()
                        ==> exists|i: int|
                        0 <= i < state.jobs@.len() && job_step_info(
                            stable_job(#[trigger] state.jobs@[i]),
                        ).name@ == (#[trigger] specification.targets@[g].1@[u]).parent_step.name@,
            decreases specification.targets@.len() - t,
        {
            let group = &specification.targets[t].1;
            let mut u: usize = 0;
            while u < group.len()
                invariant
                    state.wf(),
                    group == &specification.targets@[t as int].1,
                    t < specification.targets@.len(),
                    u <= group@.len(),
                    forall|k: int|
                        0 <= k < state.jobs@.len() ==> job_realizes_step(
                            *nix_environment,
                            flake_path@,
                            stable_job(#[trigger] state.jobs@[k]),
                        ),
                    forall|g: int, w: int|
                        0 <= g < t && 0 <= w < specification.targets@[g].1@.len()
                            ==> exists|i: int|
                            0 <= i < state.jobs@.len() && job_step_info(
                                stable_job(#[trigger] state.jobs@[i]),
                            ).name@ == (#[trigger] specification.targets@[g].1@[w]).parent_step.name@,
                    forall|w: int|
                        0 <= w < u ==> exists|i: int|
                            0 <= i < state.jobs@.len() && job_step_info(
                                stable_job(#[trigger] state.jobs@[i]),
                            ).name@ == (#[trigger] group@[w]).parent_step.name@,
                decreases group@.len() - u,
            {
                let ghost state_before = state;
                let root = add_jobs_from_step(
                    &mut state,
                    &group[u].parent_step,
                    nix_environment,
                    flake_path,
                );
                proof {
                    assert(job_step_info(stable_job(state.jobs@[root as int])).name@
                        == group@[u as int].parent_step.name@);
                    assert forall|g: int, w: int|
                        0 <= g < t && 0 <= w < specification.targets@[g].1@.len()
                        implies exists|i: int|
                        0 <= i < state.jobs@.len() && job_step_info(
                            stable_job(#[trigger] state.jobs@[i]),
                        ).name@ == (
                        #[trigger] specification.targets@[g].1@[w]).parent_step.name@ by {
                        let i0 = choose|i0: int|
                            0 <= i0 < state_before.jobs@.len() && job_step_info(
                                stable_job(#[trigger] state_before.jobs@[i0]),
                            ).name@ == specification.targets@[g].1@[w].parent_step.name@;
                        assert(state.jobs@[i0] == state_before.jobs@[i0]);
                        assert(job_step_info(stable_job(state.jobs@[i0])).name@
                            == specification.targets@[g].1@[w].parent_step.name@);
                    }
                    assert forall|w: int| 0 <= w < u + 1 implies exists|i: int|
                        0 <= i < state.jobs@.len() && job_step_info(
                            stable_job(#[trigger] state.jobs@[i]),
                        ).name@ == (#[trigger] group@[w]).parent_step.name@ by {
                        if w < u {
                            let i0 = choose|i0: int|
                                0 <= i0 < state_before.jobs@.len() && job_step_info(
                                    stable_job(#[trigger] state_before.jobs@[i0]),
                                ).name@ == group@[w].parent_step.name@;
                            assert(state.jobs@[i0] == state_before.jobs@[i0]);
                            assert(job_step_info(stable_job(state.jobs@[i0])).name@
                                == group@[w].parent_step.name@);
                        } else {
                            assert(job_step_info(stable_job(state.jobs@[root as int])).name@
                                == group@[w].parent_step.name@);
                        }
                    }
                }
                u = u + 1;
            }
            proof {
                assert forall|g: int, w: int|
                    0 <= g < t + 1 && 0 <= w < specification.targets@[g].1@.len()
                    implies exists|i: int|
                    0 <= i < state.jobs@.len() && job_step_info(
                        stable_job(#[trigger] state.jobs@[i]),
                    ).name@ == (#[trigger] specification.targets@[g].1@[w]).parent_step.name@ by {
                    if g == t {
                        assert(specification.targets@[g].1@[w] == group@[w]);
                        let i0 = choose|i0: int|
                            0 <= i0 < state.jobs@.len() && job_step_info(
                                stable_job(#[trigger] state.jobs@[i0]),
                            ).name@ == group@[w].parent_step.name@;
                        assert(job_step_info(stable_job(state.jobs@[i0])).name@
                            == specification.targets@[g].1@[w].parent_step.name@);
                    } else {
                        let i0 = choose|i0: int|
                            0 <= i0 < state.jobs@.len() && job_step_info(
                                stable_job(#[trigger] state.jobs@[i0]),
                            ).name@ == specification.targets@[g].1@[w].parent_step.name@;
                        assert(job_step_info(stable_job(state.jobs@[i0])).name@
                            == specification.targets@[g].1@[w].parent_step.name@);
                    }
                }
            }
            t = t + 1;
        }
        let ghost gstate = state;
        let graph = JobGraph { jobs: state.jobs, parents: state.parents };
        proof {
            assert(gstate.wf());
            assert(graph.jobs_view() == gstate.jobs@);
            lemma_running_count_all_pending(graph.jobs@);
            let witness_steps = gstate.steps@;
            assert(graph.parents_view() =~~= gstate.parents@.map_values(|v: Vec<usize>| v@));
            assert forall|i: int|
                0 <= i < witness_steps.len() implies step_info_matches(
                #[trigger] witness_steps[i],
                job_step_info(stable_job(graph.slot(i))),
            ) by {}
            assert forall|i: int|
                0 <= i < witness_steps.len() implies #[trigger] graph.parents_view()[i].len()
                == flat_input_parent_names(witness_steps[i].inputs@).len() by {
                assert(graph.parents_view()[i] == gstate.parents@[i]@);
            }
            assert forall|i: int, k: int|
                0 <= i < witness_steps.len() && 0 <= k < graph.parents_view()[i].len()
                implies job_step_info(
                stable_job(graph.slot(#[trigger] graph.parents_view()[i][k] as int)),
            ).name@ == flat_input_parent_names(witness_steps[i].inputs@)[k] by {
                assert(graph.parents_view()[i] == gstate.parents@[i]@);
                let p = gstate.parents@[i]@[k] as int;
                assert(gstate.names@[p]@ == flat_input_parent_names(
                    witness_steps[i].inputs@,
                )[k]);
                assert(gstate.names@[p]@ == job_step_info(stable_job(gstate.jobs@[p])).name@);
            }
            assert(graph_realizes_steps(graph));
            assert forall|g: int, u: int|
                0 <= g < specification.targets@.len() && 0 <= u
                    < specification.targets@[g].1@.len() implies exists|i: int|
                0 <= i < graph.jobs_view().len() && job_step_info(
                    stable_job(#[trigger] graph.slot(i)),
                ).name@ == (#[trigger] specification.targets@[g].1@[u]).parent_step.name@ by {
                let i0 = choose|i0: int|
                    0 <= i0 < gstate.jobs@.len() && job_step_info(
                        stable_job(#[trigger] gstate.jobs@[i0]),
                    ).name@ == specification.targets@[g].1@[u].parent_step.name@;
                assert(graph.slot(i0) == gstate.jobs@[i0]);
                assert(job_step_info(stable_job(graph.slot(i0))).name@
                    == specification.targets@[g].1@[u].parent_step.name@);
            }
            assert forall|i: int, k: int|
                0 <= i < k < graph.jobs_view().len() implies job_step_info(
                stable_job(#[trigger] graph.slot(i)),
            ).name@ != job_step_info(stable_job(#[trigger] graph.slot(k))).name@ by {
                assert(gstate.names@[i]@ != gstate.names@[k]@);
                assert(gstate.names@[i]@ == job_step_info(stable_job(gstate.jobs@[i])).name@);
                assert(gstate.names@[k]@ == job_step_info(stable_job(gstate.jobs@[k])).name@);
            }
        }
        graph
    }
}

/// Whether every dependency of job `i` is settled successful.
pub open spec fn parents_all_successful(g: JobGraph, i: int) -> bool {
    forall|k: int|
        0 <= k < g.parents_view()[i].len() ==> ((#[trigger] g.slot(g.parents_view()[i][k] as int))
            matches MaybeTransitioning::Stable(p) && p is Successful)
}

/// Whether some dependency of job `i` is settled failed or terminated.
pub open spec fn some_parent_settled_bad(g: JobGraph, i: int) -> bool {
    exists|k: int|
        0 <= k < g.parents_view()[i].len() && ((#[trigger] g.slot(g.parents_view()[i][k] as int))
            matches MaybeTransitioning::Stable(p) && (p is Failed || p is Terminated))
}

/// What the executor does with a job on a visit.
pub enum JobAction {
    /// A pending job whose parents all succeeded, under the cap: probe and
    /// start it.
    StartJob,
    /// A pending job with a failed or terminated parent: settle it failed.
    PropagateFailure,
    /// A pending job that must wait.
    Hold,
    /// A running job: poll its child.
    Poll,
    /// A terminal job: nothing.
    Idle,
}

/// The executor's transition rule: one action per job per visit.
pub open spec fn job_action_of(g: JobGraph, i: int, options: GraphExecutionOptions) -> JobAction {
    match g.slot(i) {
        MaybeTransitioning::Stable(j) => match j {
            Job::Pending(_) => if parents_all_successful(g, i) && running_count_of(g.jobs_view())
                < options.max_parallel_jobs {
                JobAction::StartJob
            } else if some_parent_settled_bad(g, i) {
                JobAction::PropagateFailure
            } else {
                JobAction::Hold
            },
            Job::Running(_) => JobAction::Poll,
            _ => JobAction::Idle,
        },
        MaybeTransitioning::Transitioning => JobAction::Idle,
    }
}

/// A request to start a job's process: the command to spawn, with both
/// output streams pointed at the log path (whose parent directories are
/// created first).
pub struct SpawnRequest {
    pub command: CommandSpec,
    pub log: String,
}

/// What starting a job settled to.
pub enum StartOutcome {
    /// The job was settled without a process: skipped, or failed on its
    /// probes.
    Settled,
    /// The job needs its process spawned; it stays pending until the
    /// spawn outcome is attached.
    NeedsSpawn(SpawnRequest),
}

/// Whether the outcome of starting a pending job is the one its probes
/// dictate.
pub open spec fn start_result_matches(
    p: PendingJob,
    in_probes: Seq<PathProbe>,
    out_probes: Seq<PathProbe>,
    new_job: Job,
    r: StartOutcome,
) -> bool {
    if decision_fails(p.step.inputs@, in_probes, out_probes) {
        &&& r is Settled
        &&& (new_job matches Job::Failed(f) && f.step == p.step && f.warnings@.len() == 0
            && failure_error_matches(p.step, in_probes, out_probes, f.error))
    } else if decision_skip(p.step.inputs@, in_probes, p.step.outputs@, out_probes) {
        &&& r is Settled
        &&& (new_job matches Job::Successful(s) && s.step == p.step)
    } else {
        &&& (r matches StartOutcome::NeedsSpawn(req) && command_like(req.command, p.command)
            && req.log == p.step.log)
        &&& new_job == Job::Pending(p)
    }
}

/// Whether two commands agree in content.
pub open spec fn command_like(a: CommandSpec, b: CommandSpec) -> bool {
    &&& a.program == b.program
    &&& a.args@ == b.args@
    &&& a.envs@ == b.envs@
    &&& a.current_dir == b.current_dir
}

/// A fresh running job for a pending one: its child token, its command
/// and step, no progress and no warnings yet.
pub open spec fn fresh_running(p: PendingJob, child: ChildToken, j: RunningJob) -> bool {
    &&& j.child == child
    &&& j.command == p.command
    &&& j.step == p.step
    &&& j.progress is None
    &&& j.warnings@.len() == 0
}

/// Whether attaching a spawn outcome settled the slot as it must: a
/// spawned child makes the job running with its progress attached (or
/// fails fatally on a bad pattern); each setup failure settles the job
/// failed with the matching error.
pub open spec fn attach_result_matches(
    p: PendingJob,
    spawn: SpawnOutcome,
    tolerate: bool,
    new_job: Job,
    r: Result<(), JobExecutionError>,
) -> bool {
    match spawn {
        SpawnOutcome::Spawned(child) => exists|j0: RunningJob|
            #[trigger] fresh_running(p, child, j0) && ((r is Ok && (new_job
                matches Job::Running(n) && with_progress_matches(j0, tolerate, Ok(n)))) || (r
                matches Err(e) && with_progress_matches(j0, tolerate, Err(e)) && (new_job
                matches Job::Running(n2) && n2.child == child && command_like(n2.command, p.command)
                && step_info_like(n2.step, p.step) && n2.progress is None))),
        _ => r is Ok && (new_job matches Job::Failed(f) && spawned_job_matches(
            p,
            spawn,
            ExecutedJob::Failed(f),
        )),
    }
}

/// Whether finishing a running job settled the slot as the exit dictates:
/// exit code zero is success; a non-zero code or a signal is failure, as
/// is a failed wait. Warnings ride along into the failed state.
pub open spec fn finished_slot_matches(j: RunningJob, wait: WaitOutcome, new_job: Job) -> bool {
    match wait {
        WaitOutcome::WaitFailed(m) => new_job matches Job::Failed(f) && f.step == j.step
            && f.warnings == j.warnings && (f.error matches ExecutionError::Wait(rendered, mm)
            && rendered@ == crate::command::shell_command_text(j.command) && mm == m),
        WaitOutcome::Exited(e) => match e {
            ExitOutcome::Code(code) => if code == 0 {
                new_job matches Job::Successful(s) && s.step == j.step
            } else {
                new_job matches Job::Failed(f) && f.step == j.step && f.warnings == j.warnings && (
                f.error matches ExecutionError::NonZeroExitCode(rendered, c) && rendered@
                    == crate::command::shell_command_text(j.command) && c == code)
            },
            ExitOutcome::Signal => new_job matches Job::Failed(f) && f.step == j.step
                && f.warnings == j.warnings && (f.error
                matches ExecutionError::SignalTermination(rendered) && rendered@
                == crate::command::shell_command_text(j.command)),
        },
    }
}

/// The step infos of the dependencies among the first `k` that are
/// settled failed or terminated.
pub open spec fn bad_parent_infos_prefix(g: JobGraph, i: int, k: int) -> Seq<StepInfo>
    decreases k,
{
    if k <= 0 {
        Seq::empty()
    } else {
        bad_parent_infos_prefix(g, i, k - 1) + (if g.slot(g.parents_view()[i][k - 1] as int)
            matches MaybeTransitioning::Stable(p) && (p is Failed || p is Terminated) {
            seq![job_step_info(stable_job(g.slot(g.parents_view()[i][k - 1] as int)))]
        } else {
            Seq::empty()
        })
    }
}

/// The step infos of the failed or terminated dependencies of job `i`, in
/// dependency order.
pub open spec fn bad_parent_infos(g: JobGraph, i: int) -> Seq<StepInfo> {
    bad_parent_infos_prefix(g, i, g.parents_view()[i].len() as int)
}

/// The combined well-formedness of a graph between driver calls.
pub open spec fn graph_inv(g: JobGraph) -> bool {
    &&& g.wf()
    &&& g.all_stable()
    &&& g.parents_ok()
}

proof fn lemma_parents_ok_update(g_old: JobGraph, g_new: JobGraph, i: int, new_job: Job)
    requires
        g_old.wf(),
        g_old.all_stable(),
        g_old.parents_ok(),
        g_new.parents_view() == g_old.parents_view(),
        g_new.jobs_view() == g_old.jobs_view().update(i, MaybeTransitioning::Stable(new_job)),
        0 <= i < g_old.jobs_view().len(),
        (new_job is Running || new_job is Successful) ==> parents_all_successful(g_old, i),
        (stable_job(g_old.slot(i)) is Successful) ==> new_job is Successful,
    ensures
        g_new.parents_ok(),
{
    assert forall|c: int, k: int|
        0 <= c < g_new.jobs_view().len() && ((#[trigger] g_new.slot(c))
            matches MaybeTransitioning::Stable(j) && (j is Running || j is Successful)) && 0 <= k
            < g_new.parents_view()[c].len() implies ((#[trigger] g_new.slot(
        g_new.parents_view()[c][k] as int,
    )) matches MaybeTransitioning::Stable(p) ==> p is Successful) by {
        let q = g_new.parents_view()[c][k] as int;
        assert(0 <= q < c);
        if c == i {
            assert(parents_all_successful(g_old, i) ==> (g_old.slot(q)
                matches MaybeTransitioning::Stable(p) && p is Successful));
            assert(g_new.slot(q) == g_old.slot(q));
        } else {
            assert(g_new.slot(c) == g_old.slot(c));
            if q == i {
                assert(g_old.slot(i) matches MaybeTransitioning::Stable(p) ==> p is Successful);
                assert(stable_job(g_old.slot(i)) is Successful);
            } else {
                assert(g_new.slot(q) == g_old.slot(q));
            }
        }
    }
}

proof fn lemma_inv_update(g_old: JobGraph, g_new: JobGraph, i: int, new_job: Job)
    requires
        graph_inv(g_old),
        g_new.parents_view() == g_old.parents_view(),
        g_new.jobs_view() == g_old.jobs_view().update(i, MaybeTransitioning::Stable(new_job)),
        0 <= i < g_old.jobs_view().len(),
        new_job is Running ==> running_wf(new_job->Running_0),
        (new_job is Running || new_job is Successful) ==> parents_all_successful(g_old, i),
        (stable_job(g_old.slot(i)) is Successful) ==> new_job is Successful,
    ensures
        graph_inv(g_new),
{
    assert forall|m: int| 0 <= m < g_new.jobs_view().len() implies (#[trigger] g_new.slot(m))
        is Stable by {
        if m != i {
            assert(g_new.slot(m) == g_old.slot(m));
        }
    }
    assert forall|m: int|
        0 <= m < g_new.jobs_view().len() && ((#[trigger] g_new.slot(m))
            matches MaybeTransitioning::Stable(j) && j is Running) implies running_wf(
        stable_job(g_new.slot(m))->Running_0,
    ) by {
        if m != i {
            assert(g_new.slot(m) == g_old.slot(m));
        }
    }
    lemma_parents_ok_update(g_old, g_new, i, new_job);
}

impl JobGraph {
    /// The executor's transition rule for one job: start it, settle it on
    /// failed parents, hold it, poll it, or nothing.
    pub fn job_action(&self, i: usize, options: &GraphExecutionOptions) -> (r: JobAction)
        requires
            graph_inv(*self),
            i < self.jobs_view().len(),
        ensures
            r == job_action_of(*self, i as int, *options),
    {
        let is_pending = match self.job_ref(i) {
            MaybeTransitioning::Stable(Job::Pending(_)) => true,
            MaybeTransitioning::Stable(Job::Running(_)) => {
                return JobAction::Poll;
            },
            _ => {
                return JobAction::Idle;
            },
        };
        let plist = self.parents(i);
        let mut all_ok = true;
        let mut any_bad = false;
        let mut k: usize = 0;
        while k < plist.len()
            invariant
                graph_inv(*self),
                i < self.jobs_view().len(),
                plist@ == self.parents_view()[i as int],
                k <= plist@.len(),
                all_ok == (forall|m: int|
                    0 <= m < k ==> ((#[trigger] self.slot(self.parents_view()[i as int][m] as int))
                        matches MaybeTransitioning::Stable(p) && p is Successful)),
                any_bad == (exists|m: int|
                    0 <= m < k && ((#[trigger] self.slot(self.parents_view()[i as int][m] as int))
                        matches MaybeTransitioning::Stable(p) && (p is Failed
                        || p is Terminated))),
            decreases plist@.len() - k,
        {
            let parent_index = plist[k];
            proof {
                assert(self.parents_view()[i as int][k as int] < i);
            }
            match self.job_ref(parent_index) {
                MaybeTransitioning::Stable(p) => {
                    let ok = p.successful();
                    let bad = p.failed() || match p {
                        Job::Terminated(_) => true,
                        _ => false,
                    };
                    all_ok = all_ok && ok;
                    any_bad = any_bad || bad;
                },
                MaybeTransitioning::Transitioning => {
                    proof {
                        assert(false);
                    }
                },
            }
            k = k + 1;
        }
        if all_ok {
            let count = self.count_running();
            if (count as u64) < (options.max_parallel_jobs as u64) {
                return JobAction::StartJob;
            }
        }
        if any_bad {
            JobAction::PropagateFailure
        } else {
            JobAction::Hold
        }
    }

    /// Starts a pending job from its probes: settles it failed on a probe
    /// failure or missing inputs, skips it to successful when every output
    /// exists, and otherwise keeps it pending and asks the driver to spawn
    /// its process.
    pub fn start_job(
        &mut self,
        i: usize,
        input_probes: &Vec<PathProbe>,
        output_probes: &Vec<PathProbe>,
    ) -> (r: StartOutcome)
        requires
            graph_inv(*old(self)),
            i < old(self).jobs_view().len(),
            old(self).slot(i as int) matches MaybeTransitioning::Stable(j0) && (j0
                matches Job::Pending(p) && input_probes@.len() == p.step.inputs@.len()
                && output_probes@.len() == p.step.outputs@.len()),
            parents_all_successful(*old(self), i as int),
        ensures
            graph_inv(*final(self)),
            final(self).parents_view() == old(self).parents_view(),
            final(self).jobs_view().len() == old(self).jobs_view().len(),
            forall|m: int|
                0 <= m < old(self).jobs_view().len() && m != i ==> #[trigger] final(self).slot(m)
                    == old(self).slot(m),
            running_count_of(final(self).jobs_view()) == running_count_of(old(self).jobs_view()),
            ({
                let p = stable_job(old(self).slot(i as int))->Pending_0;
                &&& start_result_matches(
                    p,
                    input_probes@,
                    output_probes@,
                    stable_job(final(self).slot(i as int)),
                    r,
                )
                &&& job_step_ok(
                    stable_job(old(self).slot(i as int)),
                    stable_job(final(self).slot(i as int)),
                )
            }),
    {
        let ghost g_old = *self;
        let mut slot = MaybeTransitioning::Transitioning;
        self.jobs.set_and_swap(i, &mut slot);
        let pending = match slot {
            MaybeTransitioning::Stable(Job::Pending(p)) => p,
            _ => vstd::pervasive::unreached(),
        };
        let ghost p_spec = pending;
        let decision = pending.execute_decision(input_probes, output_probes);
        let (new_job, outcome): (Job, StartOutcome) = match decision {
            ExecuteDecision::Failure(error) => (
                Job::Failed(error.as_failed_job(pending.step)),
                StartOutcome::Settled,
            ),
            ExecuteDecision::Skip => (
                Job::Successful(crate::jobs::SuccessfulJob::new(pending.step)),
                StartOutcome::Settled,
            ),
            ExecuteDecision::MustSpawn => {
                let request = SpawnRequest {
                    command: crate::command::clone_command(&pending.command),
                    log: pending.step.log.clone(),
                };
                (Job::Pending(pending), StartOutcome::NeedsSpawn(request))
            },
        };
        let ghost new_job_spec = new_job;
        self.jobs.set(i, MaybeTransitioning::Stable(new_job));
        proof {
            assert(self.jobs@ =~= g_old.jobs_view().update(
                i as int,
                MaybeTransitioning::Stable(new_job_spec),
            ));
            lemma_running_count_update(
                g_old.jobs_view(),
                i as int,
                MaybeTransitioning::Stable(new_job_spec),
            );
            lemma_inv_update(g_old, *self, i as int, new_job_spec);
        }
        outcome
    }

    /// Attaches the driver's spawn outcome to a pending job under the cap:
    /// a spawned child makes it running, with its progress scanner
    /// attached; each setup failure settles it failed. A bad progress
    /// pattern is fatal unless failures are tolerated; the job is then
    /// running without a handler.
    pub fn attach_spawn(
        &mut self,
        i: usize,
        spawn: SpawnOutcome,
        options: &GraphExecutionOptions,
    ) -> (r: Result<(), JobExecutionError>)
        requires
            graph_inv(*old(self)),
            i < old(self).jobs_view().len(),
            old(self).slot(i as int) matches MaybeTransitioning::Stable(j0) && j0 is Pending,
            parents_all_successful(*old(self), i as int),
            running_count_of(old(self).jobs_view()) < options.max_parallel_jobs,
        ensures
            graph_inv(*final(self)),
            final(self).parents_view() == old(self).parents_view(),
            final(self).jobs_view().len() == old(self).jobs_view().len(),
            forall|m: int|
                0 <= m < old(self).jobs_view().len() && m != i ==> #[trigger] final(self).slot(m)
                    == old(self).slot(m),
            running_count_of(final(self).jobs_view()) <= running_count_of(
                old(self).jobs_view(),
            ) + 1,
            running_count_of(final(self).jobs_view()) <= options.max_parallel_jobs,
            ({
                let p = stable_job(old(self).slot(i as int))->Pending_0;
                &&& attach_result_matches(
                    p,
                    spawn,
                    options.only_warn_job_update_failures,
                    stable_job(final(self).slot(i as int)),
                    r,
                )
                &&& job_step_ok(
                    stable_job(old(self).slot(i as int)),
                    stable_job(final(self).slot(i as int)),
                )
            }),
    {
        let ghost g_old = *self;
        let mut slot = MaybeTransitioning::Transitioning;
        self.jobs.set_and_swap(i, &mut slot);
        let pending = match slot {
            MaybeTransitioning::Stable(Job::Pending(p)) => p,
            _ => vstd::pervasive::unreached(),
        };
        let ghost p_spec = pending;
        let executed = pending.resolve(ExecuteDecision::MustSpawn, Some(spawn));
        let (new_job, result): (Job, Result<(), JobExecutionError>) = match executed {
            ExecutedJob::Running(started) => {
                let ghost j0 = started;
                let child = started.child;
                let command_copy = crate::command::clone_command(&started.command);
                let step_copy = started.step.duplicate();
                proof {
                    assert(fresh_running(p_spec, child, j0));
                }
                match started.with_progress(options.only_warn_job_update_failures) {
                    Ok(attached) => {
                        let ghost att = attached;
                        proof {
                            assert(with_progress_matches(
                                j0,
                                options.only_warn_job_update_failures,
                                Ok(att),
                            ));
                        }
                        (Job::Running(attached), Ok(()))
                    },
                    Err(error) => {
                        let ghost err = error;
                        let replacement = crate::jobs::RunningJob::new(
                            child,
                            command_copy,
                            step_copy,
                        );
                        proof {
                            assert(with_progress_matches(
                                j0,
                                options.only_warn_job_update_failures,
                                Err(err),
                            ));
                        }
                        (Job::Running(replacement), Err(error))
                    },
                }
            },
            ExecutedJob::Failed(failed) => (Job::Failed(failed), Ok(())),
            ExecutedJob::Finished(_) => vstd::pervasive::unreached(),
        };
        let ghost new_job_spec = new_job;
        self.jobs.set(i, MaybeTransitioning::Stable(new_job));
        proof {
            assert(self.jobs@ =~= g_old.jobs_view().update(
                i as int,
                MaybeTransitioning::Stable(new_job_spec),
            ));
            lemma_running_count_update(
                g_old.jobs_view(),
                i as int,
                MaybeTransitioning::Stable(new_job_spec),
            );
            lemma_inv_update(g_old, *self, i as int, new_job_spec);
        }
        result
    }

    /// Polls a running job: reports whether its child has exited, so that
    /// the driver can wait on it and finish the job. A failed poll is a
    /// warning when the run keeps going, else fatal.
    pub fn running_done(
        &mut self,
        i: usize,
        poll: PollOutcome,
        options: &GraphExecutionOptions,
    ) -> (r: Result<bool, JobExecutionError>)
        requires
            graph_inv(*old(self)),
            i < old(self).jobs_view().len(),
            old(self).slot(i as int) matches MaybeTransitioning::Stable(j0) && j0 is Running,
        ensures
            graph_inv(*final(self)),
            final(self).parents_view() == old(self).parents_view(),
            final(self).jobs_view().len() == old(self).jobs_view().len(),
            forall|m: int|
                0 <= m < old(self).jobs_view().len() && m != i ==> #[trigger] final(self).slot(m)
                    == old(self).slot(m),
            running_count_of(final(self).jobs_view()) == running_count_of(old(self).jobs_view()),
            (r matches Ok(b) ==> (b <==> poll is Exited)),
            (r is Err ==> poll is PollFailed && !options.keep_going),
            ({
                let j = stable_job(old(self).slot(i as int))->Running_0;
                stable_job(final(self).slot(i as int)) matches Job::Running(n)
                    && running_core_like(j, n) && n.progress == j.progress && n.warnings@.len()
                    >= j.warnings@.len()
            }),
    {
        let ghost g_old = *self;
        let mut slot = MaybeTransitioning::Transitioning;
        self.jobs.set_and_swap(i, &mut slot);
        let mut running = match slot {
            MaybeTransitioning::Stable(Job::Running(j)) => j,
            _ => vstd::pervasive::unreached(),
        };
        let result = running.done(poll, options.keep_going);
        let ghost new_job_spec = Job::Running(running);
        self.jobs.set(i, MaybeTransitioning::Stable(running_back(running)));
        proof {
            assert(self.jobs@ =~= g_old.jobs_view().update(
                i as int,
                MaybeTransitioning::Stable(new_job_spec),
            ));
            lemma_running_count_update(
                g_old.jobs_view(),
                i as int,
                MaybeTransitioning::Stable(new_job_spec),
            );
            lemma_inv_update(g_old, *self, i as int, new_job_spec);
        }
        result
    }

    /// Finishes a running job from its child's exit: code zero settles it
    /// successful, anything else settles it failed.
    pub fn finish_job(&mut self, i: usize, wait: WaitOutcome)
        requires
            graph_inv(*old(self)),
            i < old(self).jobs_view().len(),
            old(self).slot(i as int) matches MaybeTransitioning::Stable(j0) && j0 is Running,
        ensures
            graph_inv(*final(self)),
            final(self).parents_view() == old(self).parents_view(),
            final(self).jobs_view().len() == old(self).jobs_view().len(),
            forall|m: int|
                0 <= m < old(self).jobs_view().len() && m != i ==> #[trigger] final(self).slot(m)
                    == old(self).slot(m),
            running_count_of(final(self).jobs_view()) == running_count_of(old(self).jobs_view())
                - 1,
            ({
                let j = stable_job(old(self).slot(i as int))->Running_0;
                &&& finished_slot_matches(j, wait, stable_job(final(self).slot(i as int)))
                &&& job_step_ok(
                    stable_job(old(self).slot(i as int)),
                    stable_job(final(self).slot(i as int)),
                )
            }),
    {
        let ghost g_old = *self;
        let mut slot = MaybeTransitioning::Transitioning;
        self.jobs.set_and_swap(i, &mut slot);
        let running = match slot {
            MaybeTransitioning::Stable(Job::Running(j)) => j,
            _ => vstd::pervasive::unreached(),
        };
        let finished = running.finish(wait);
        let new_job = finished.into_job();
        let ghost new_job_spec = new_job;
        self.jobs.set(i, MaybeTransitioning::Stable(new_job));
        proof {
            assert(self.jobs@ =~= g_old.jobs_view().update(
                i as int,
                MaybeTransitioning::Stable(new_job_spec),
            ));
            lemma_running_count_update(
                g_old.jobs_view(),
                i as int,
                MaybeTransitioning::Stable(new_job_spec),
            );
            assert(parents_all_successful(g_old, i as int));
            lemma_inv_update(g_old, *self, i as int, new_job_spec);
        }
    }

    /// Whether a progress tick on a running job needs the log's contents.
    pub fn wants_log(&self, i: usize) -> (r: bool)
        requires
            graph_inv(*self),
            i < self.jobs_view().len(),
            self.slot(i as int) matches MaybeTransitioning::Stable(j0) && j0 is Running,
        ensures
            ({
                let j = stable_job(self.slot(i as int))->Running_0;
                r == (j.progress matches Some(h) && h.scanner is Some)
            }),
    {
        match self.job_ref(i) {
            MaybeTransitioning::Stable(Job::Running(j)) => j.wants_log(),
            _ => vstd::pervasive::unreached(),
        }
    }

    /// A progress tick on a running job: scans the log where a scanner is
    /// attached and records the reported value as the indicator position.
    /// Failures are warnings when tolerated, else fatal.
    pub fn tick_progress(
        &mut self,
        i: usize,
        log: LogReadOutcome,
        options: &GraphExecutionOptions,
    ) -> (r: Result<(), JobExecutionError>)
        requires
            graph_inv(*old(self)),
            i < old(self).jobs_view().len(),
            old(self).slot(i as int) matches MaybeTransitioning::Stable(j0) && (j0
                matches Job::Running(j) && ((j.progress matches Some(h) && h.scanner is Some)
                <==> !(log is NotNeeded))),
        ensures
            graph_inv(*final(self)),
            final(self).parents_view() == old(self).parents_view(),
            final(self).jobs_view().len() == old(self).jobs_view().len(),
            forall|m: int|
                0 <= m < old(self).jobs_view().len() && m != i ==> #[trigger] final(self).slot(m)
                    == old(self).slot(m),
            running_count_of(final(self).jobs_view()) == running_count_of(old(self).jobs_view()),
            ({
                let j = stable_job(old(self).slot(i as int))->Running_0;
                stable_job(final(self).slot(i as int)) matches Job::Running(n)
                    && progress_tick_matches(
                    j,
                    log,
                    options.only_warn_job_update_failures,
                    r,
                    n,
                )
            }),
    {
        let ghost g_old = *self;
        let mut slot = MaybeTransitioning::Transitioning;
        self.jobs.set_and_swap(i, &mut slot);
        let mut running = match slot {
            MaybeTransitioning::Stable(Job::Running(j)) => j,
            _ => vstd::pervasive::unreached(),
        };
        let result = running.progress(log, options.only_warn_job_update_failures);
        let ghost new_job_spec = Job::Running(running);
        self.jobs.set(i, MaybeTransitioning::Stable(running_back(running)));
        proof {
            assert(self.jobs@ =~= g_old.jobs_view().update(
                i as int,
                MaybeTransitioning::Stable(new_job_spec),
            ));
            lemma_running_count_update(
                g_old.jobs_view(),
                i as int,
                MaybeTransitioning::Stable(new_job_spec),
            );
            lemma_inv_update(g_old, *self, i as int, new_job_spec);
        }
        result
    }

    /// Settles a pending job as failed because dependencies failed or were
    /// terminated, naming them so the skip is traceable.
    pub fn propagate_parent_failure(&mut self, i: usize)
        requires
            graph_inv(*old(self)),
            i < old(self).jobs_view().len(),
            old(self).slot(i as int) matches MaybeTransitioning::Stable(j0) && j0 is Pending,
        ensures
            graph_inv(*final(self)),
            final(self).parents_view() == old(self).parents_view(),
            final(self).jobs_view().len() == old(self).jobs_view().len(),
            forall|m: int|
                0 <= m < old(self).jobs_view().len() && m != i ==> #[trigger] final(self).slot(m)
                    == old(self).slot(m),
            running_count_of(final(self).jobs_view()) == running_count_of(old(self).jobs_view()),
            ({
                let p = stable_job(old(self).slot(i as int))->Pending_0;
                let bad = bad_parent_infos(*old(self), i as int);
                stable_job(final(self).slot(i as int)) matches Job::Failed(f) && f.step == p.step
                    && f.warnings@.len() == 0 && (f.error
                    matches ExecutionError::ParentsFailed { parents } && parents@.len()
                    == bad.len() && (forall|k: int|
                    0 <= k < bad.len() ==> step_info_like(#[trigger] parents@[k], bad[k])))
            }),
    {
        let ghost g_old = *self;
        let mut failed_parents: Vec<StepInfo> = Vec::new();
        let plist_len = self.parents(i).len();
        let mut k: usize = 0;
        while k < plist_len
            invariant
                graph_inv(*self),
                *self == g_old,
                i < self.jobs_view().len(),
                plist_len == self.parents_view()[i as int].len(),
                k <= plist_len,
                failed_parents@.len() == bad_parent_infos_prefix(*self, i as int, k as int).len(),
                forall|m: int|
                    0 <= m < failed_parents@.len() ==> step_info_like(
                        #[trigger] failed_parents@[m],
                        bad_parent_infos_prefix(*self, i as int, k as int)[m],
                    ),
            decreases plist_len - k,
        {
            let parent_index = self.parents(i)[k];
            proof {
                assert(self.parents_view()[i as int][k as int] < i);
            }
            let ghost prefix = bad_parent_infos_prefix(*self, i as int, k as int);
            match self.job_ref(parent_index) {
                MaybeTransitioning::Stable(p) => {
                    let bad = p.failed() || match p {
                        Job::Terminated(_) => true,
                        _ => false,
                    };
                    if bad {
                        failed_parents.push(p.step().duplicate());
                    }
                },
                MaybeTransitioning::Transitioning => {
                    proof {
                        assert(false);
                    }
                },
            }
            proof {
                assert(bad_parent_infos_prefix(*self, i as int, k + 1).len() == prefix.len() + (
                if self.slot(self.parents_view()[i as int][k as int] as int)
                    matches MaybeTransitioning::Stable(p) && (p is Failed || p is Terminated) {
                    1int
                } else {
                    0int
                }));
            }
            k = k + 1;
        }
        let mut slot = MaybeTransitioning::Transitioning;
        self.jobs.set_and_swap(i, &mut slot);
        let pending = match slot {
            MaybeTransitioning::Stable(Job::Pending(p)) => p,
            _ => vstd::pervasive::unreached(),
        };
        let failed = ExecutionError::ParentsFailed { parents: failed_parents }.as_failed_job(
            pending.step,
        );
        let new_job = Job::Failed(failed);
        let ghost new_job_spec = new_job;
        self.jobs.set(i, MaybeTransitioning::Stable(new_job));
        proof {
            assert(self.jobs@ =~= g_old.jobs_view().update(
                i as int,
                MaybeTransitioning::Stable(new_job_spec),
            ));
            lemma_running_count_update(
                g_old.jobs_view(),
                i as int,
                MaybeTransitioning::Stable(new_job_spec),
            );
            lemma_inv_update(g_old, *self, i as int, new_job_spec);
        }
    }

    /// Terminates a running job after the driver killed its child; a
    /// failed kill is fatal and leaves the job running.
    pub fn terminate_job(&mut self, i: usize, kill: KillOutcome) -> (r: Result<
        (),
        JobExecutionError,
    >)
        requires
            graph_inv(*old(self)),
            i < old(self).jobs_view().len(),
            old(self).slot(i as int) matches MaybeTransitioning::Stable(j0) && j0 is Running,
        ensures
            graph_inv(*final(self)),
            final(self).parents_view() == old(self).parents_view(),
            final(self).jobs_view().len() == old(self).jobs_view().len(),
            forall|m: int|
                0 <= m < old(self).jobs_view().len() && m != i ==> #[trigger] final(self).slot(m)
                    == old(self).slot(m),
            running_count_of(final(self).jobs_view()) <= running_count_of(old(self).jobs_view()),
            ({
                let j = stable_job(old(self).slot(i as int))->Running_0;
                &&& (kill is Killed ==> (r is Ok && (stable_job(final(self).slot(i as int))
                    matches Job::Terminated(t) && t.step == j.step)))
                &&& (kill matches KillOutcome::KillFailed(m) ==> (r matches Err(err)
                    && step_info_like(err.step, j.step) && (err.error
                    matches ExecutionError::Kill(rendered, mm) && rendered@
                    == crate::command::shell_command_text(j.command) && mm == m)
                    && (stable_job(final(self).slot(i as int)) matches Job::Running(n) && n.child
                    == j.child && command_like(n.command, j.command) && step_info_like(
                    n.step,
                    j.step,
                ))))
                &&& job_step_ok(
                    stable_job(old(self).slot(i as int)),
                    stable_job(final(self).slot(i as int)),
                )
            }),
    {
        let ghost g_old = *self;
        let mut slot = MaybeTransitioning::Transitioning;
        self.jobs.set_and_swap(i, &mut slot);
        let running = match slot {
            MaybeTransitioning::Stable(Job::Running(j)) => j,
            _ => vstd::pervasive::unreached(),
        };
        let child = running.child;
        let command_copy = crate::command::clone_command(&running.command);
        let step_copy = running.step.duplicate();
        let (new_job, result): (Job, Result<(), JobExecutionError>) = match running.terminate(
            kill,
        ) {
            Ok(terminated) => (Job::Terminated(terminated), Ok(())),
            Err(error) => {
                let replacement = crate::jobs::RunningJob::new(child, command_copy, step_copy);
                (Job::Running(replacement), Err(error))
            },
        };
        let ghost new_job_spec = new_job;
        self.jobs.set(i, MaybeTransitioning::Stable(new_job));
        proof {
            assert(self.jobs@ =~= g_old.jobs_view().update(
                i as int,
                MaybeTransitioning::Stable(new_job_spec),
            ));
            lemma_running_count_update(
                g_old.jobs_view(),
                i as int,
                MaybeTransitioning::Stable(new_job_spec),
            );
            lemma_inv_update(g_old, *self, i as int, new_job_spec);
        }
        result
    }
}

fn running_back(j: crate::jobs::RunningJob) -> (r: Job)
    ensures
        r == Job::Running(j),
{
    Job::Running(j)
}

/// Dependency order: in a well-formed graph, a job that is running or
/// ended successful has every settled dependency successful — a child
/// never runs before its parents succeeded.
pub proof fn lemma_child_runs_after_parents(g: JobGraph, i: int, k: int)
    requires
        g.parents_ok(),
        0 <= i < g.jobs_view().len(),
        g.slot(i) matches MaybeTransitioning::Stable(j) && (j is Running || j is Successful),
        0 <= k < g.parents_view()[i].len(),
        g.slot(g.parents_view()[i][k] as int) is Stable,
    ensures
        stable_job(g.slot(g.parents_view()[i][k] as int)) is Successful,
{
}

/// Concurrency cap: a run that starts with no running job, and whose
/// every step either does not increase the running count or leaves it at
/// or under the cap — as the graph transitions guarantee — never exceeds
/// the cap.
pub proof fn lemma_concurrency_cap(counts: Seq<nat>, cap: nat)
    requires
        counts.len() > 0,
        counts[0] == 0,
        forall|k: int|
            0 <= k < counts.len() - 1 ==> (#[trigger] counts[k + 1] <= counts[k] || counts[k + 1]
                <= cap),
    ensures
        forall|k: int| 0 <= k < counts.len() ==> #[trigger] counts[k] <= cap,
{
    assert forall|k: int| 0 <= k < counts.len() implies #[trigger] counts[k] <= cap by {
        lemma_concurrency_cap_step(counts, cap, k);
    }
}

proof fn lemma_concurrency_cap_step(counts: Seq<nat>, cap: nat, k: int)
    requires
        counts.len() > 0,
        counts[0] == 0,
        forall|m: int|
            0 <= m < counts.len() - 1 ==> (#[trigger] counts[m + 1] <= counts[m] || counts[m + 1]
                <= cap),
        0 <= k < counts.len(),
    ensures
        counts[k] <= cap,
    decreases k,
{
    if k > 0 {
        lemma_concurrency_cap_step(counts, cap, k - 1);
        assert(counts[(k - 1) + 1] <= counts[k - 1] || counts[(k - 1) + 1] <= cap);
    }
}

} // verus!
