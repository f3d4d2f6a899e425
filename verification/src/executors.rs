use vstd::prelude::*;

use crate::command::{clone_command, join_with, strs_view, CommandSpec};
use crate::nix_environment::{nix_run_command_shell_text, NixRunCommand};
use crate::text::{dec_seq, dec_seq_pad2, dec_string, join_sep, push_dec_pad2};

verus! {

/// The runtime of a batch job rendered as `HH:MM:SS`, each part
/// zero-padded to at least two digits; hours may take more.
pub open spec fn slurm_time_text(total_seconds: nat) -> Seq<char> {
    dec_seq_pad2(total_seconds / 3600) + seq![':'] + dec_seq_pad2((total_seconds % 3600) / 60)
        + seq![':'] + dec_seq_pad2(total_seconds % 60)
}

/// Renders a duration in seconds as the time text that the batch launcher
/// accepts.
pub fn format_slurm_time(total_seconds: u64) -> (r: String)
    ensures
        r@ == slurm_time_text(total_seconds as nat),
{
    let hours = total_seconds / 3600;
    let minutes = (total_seconds % 3600) / 60;
    let seconds = total_seconds % 60;
    let mut out = String::new();
    push_dec_pad2(&mut out, hours);
    proof {
        reveal_strlit(":");
    }
    out.append(":");
    push_dec_pad2(&mut out, minutes);
    out.append(":");
    push_dec_pad2(&mut out, seconds);
    proof {
        assert(out@ =~= slurm_time_text(total_seconds as nat));
    }
    out
}

/// Options of a batch-submitted run: accounting, placement and sizing.
pub struct SlurmRunOptions {
    pub quality_of_service: Option<String>,
    pub constraint: Option<String>,
    /// Requested runtime in whole seconds.
    pub runtime_seconds: u64,
    pub partitions: Option<Vec<String>>,
    pub cpu_count: u16,
    pub gpu_count: u16,
}

/// The arguments of the batch-submission launcher: accounting and sizing
/// flags first, then the target program and its arguments.
pub open spec fn slurm_args(
    target: CommandSpec,
    account: Seq<char>,
    options: SlurmRunOptions,
) -> Seq<Seq<char>> {
    seq![seq!['-', '-', 'a', 'c', 'c', 'o', 'u', 'n', 't'], account] + (match options
        .quality_of_service {
        Some(q) => seq![seq!['-', '-', 'q', 'o', 's'], q@],
        None => Seq::empty(),
    }) + (match options.constraint {
        Some(c) => seq![
            seq!['-', '-', 'c', 'o', 'n', 's', 't', 'r', 'a', 'i', 'n', 't'],
            c@,
        ],
        None => Seq::empty(),
    }) + seq![
        seq!['-', '-', 't', 'i', 'm', 'e'],
        slurm_time_text(options.runtime_seconds as nat),
    ] + (match options.partitions {
        Some(p) => seq![
            seq!['-', '-', 'p', 'a', 'r', 't', 'i', 't', 'i', 'o', 'n'],
            join_with(strs_view(p@), ','),
        ],
        None => Seq::empty(),
    }) + seq![
        seq!['-', '-', 'c', 'p', 'u', 's', '-', 'p', 'e', 'r', '-', 't', 'a', 's', 'k'],
        dec_seq(options.cpu_count as nat),
        seq!['-', '-', 'g', 'p', 'u', 's'],
        dec_seq(options.gpu_count as nat),
        target.program@,
    ] + strs_view(target.args@)
}

/// What the batch-submission command must look like: the launcher program,
/// the target's environment forwarded unchanged, and the launcher
/// arguments.
pub open spec fn slurm_command_ok(
    target: CommandSpec,
    account: Seq<char>,
    options: SlurmRunOptions,
    r: CommandSpec,
) -> bool {
    &&& r.program@ == seq!['s', 'r', 'u', 'n']
    &&& r.envs@ == target.envs@
    &&& strs_view(r.args@) == slurm_args(target, account, options)
    &&& r.current_dir is None
}

/// Wraps a target command in the batch-submission launcher, forwarding its
/// environment and prepending the accounting and sizing flags.
pub fn slurm_run_command(target: &CommandSpec, account: &str, options: &SlurmRunOptions) -> (r:
    CommandSpec)
    ensures
        slurm_command_ok(*target, account@, *options, r),
{
    proof {
        reveal_strlit("srun");
        reveal_strlit("--account");
        reveal_strlit("--qos");
        reveal_strlit("--constraint");
        reveal_strlit("--time");
        reveal_strlit("--partition");
        reveal_strlit("--cpus-per-task");
        reveal_strlit("--gpus");
        reveal_strlit(",");
    }
    let copied = clone_command(target);
    let mut args: Vec<String> = Vec::new();
    args.push("--account".to_owned());
    args.push(account.to_owned());
    match &options.quality_of_service {
        Some(q) => {
            args.push("--qos".to_owned());
            args.push(q.clone());
        },
        None => {},
    }
    match &options.constraint {
        Some(c) => {
            args.push("--constraint".to_owned());
            args.push(c.clone());
        },
        None => {},
    }
    args.push("--time".to_owned());
    args.push(format_slurm_time(options.runtime_seconds));
    match &options.partitions {
        Some(p) => {
            args.push("--partition".to_owned());
            args.push(join_sep(p, ","));
        },
        None => {},
    }
    args.push("--cpus-per-task".to_owned());
    args.push(dec_string(options.cpu_count as u64));
    args.push("--gpus".to_owned());
    args.push(dec_string(options.gpu_count as u64));
    args.push(copied.program);
    let mut args = args;
    let mut target_args = copied.args;
    let ghost head = args@;
    let ghost tail = target_args@;
    for i in 0..target_args.len()
        invariant
            target_args@ == tail,
            args@ =~= head + tail.take(i as int),
    {
        let a = target_args[i].clone();
        args.push(a);
        proof {
            assert(args@ =~= head + tail.take(i + 1));
        }
    }
    proof {
        assert(args@ =~= head + tail);
    }
    let r = CommandSpec {
        program: "srun".to_owned(),
        args,
        envs: copied.envs,
        current_dir: None,
    };
    proof {
        assert(r.program@ =~= seq!['s', 'r', 'u', 'n']);
        assert(strs_view(r.args@) =~~= slurm_args(*target, account@, *options));
    }
    r
}

/// The plain executor: the target command is spawned as it stands.
pub struct DefaultExecutor {}

/// What the spawnable form of a run command must look like: the direct
/// command where the run command offers one, otherwise a shell running the
/// rendered shell line.
pub open spec fn spawnable_ok(target: NixRunCommand, c: CommandSpec) -> bool {
    match target {
        NixRunCommand::Native { run } => {
            &&& c.program@ == run.program@
            &&& c.args@ == run.args@
            &&& c.envs@ == run.envs@
            &&& c.current_dir == run.current_dir
        },
        NixRunCommand::PortableDistributed { .. } => {
            &&& c.program@ == seq!['b', 'a', 's', 'h']
            &&& strs_view(c.args@) == seq![seq!['-', 'c'], nix_run_command_shell_text(target)]
            &&& c.envs@.len() == 0
            &&& c.current_dir is None
        },
    }
}

/// The spawnable form of a run command: its direct command cloned, or
/// `bash -c` on its shell line.
pub fn spawnable_command(target: &NixRunCommand) -> (c: CommandSpec)
    ensures
        spawnable_ok(*target, c),
{
    match target.command() {
        Some(run) => clone_command(run),
        None => {
            proof {
                reveal_strlit("bash");
                reveal_strlit("-c");
            }
            let mut args: Vec<String> = Vec::new();
            args.push("-c".to_owned());
            args.push(target.shell_command());
            let c = CommandSpec {
                program: "bash".to_owned(),
                args,
                envs: Vec::new(),
                current_dir: None,
            };
            proof {
                assert(c.program@ =~= seq!['b', 'a', 's', 'h']);
                assert(strs_view(c.args@) =~~= seq![
                    seq!['-', 'c'],
                    nix_run_command_shell_text(*target),
                ]);
            }
            c
        },
    }
}

impl DefaultExecutor {
    /// The command to spawn under the plain executor.
    pub fn execution_command(&self, target: &NixRunCommand) -> (c: CommandSpec)
        ensures
            spawnable_ok(*target, c),
    {
        spawnable_command(target)
    }
}

/// The batch executor: the target is submitted through the cluster
/// launcher.
pub struct SlurmExecutor {
    pub account: String,
    pub options: SlurmRunOptions,
}

impl SlurmExecutor {
    /// The command to spawn under the batch executor: the spawnable form of
    /// the target wrapped in the launcher.
    pub fn execution_command(&self, target: &NixRunCommand) -> (c: CommandSpec)
        ensures
            exists|base: CommandSpec|
                spawnable_ok(*target, base) && #[trigger] slurm_command_ok(
                    base,
                    self.account@,
                    self.options,
                    c,
                ),
    {
        let base = spawnable_command(target);
        let ghost base_spec = base;
        let c = slurm_run_command(&base, self.account.as_str(), &self.options);
        proof {
            assert(spawnable_ok(*target, base_spec) && slurm_command_ok(
                base_spec,
                self.account@,
                self.options,
                c,
            ));
        }
        c
    }
}

/// How a job's process is launched.
pub enum Executor {
    Default(DefaultExecutor),
    Slurm(SlurmExecutor),
}

/// What the execution command of an executor must look like.
pub open spec fn execution_command_ok(e: Executor, target: NixRunCommand, c: CommandSpec) -> bool {
    match e {
        Executor::Default(_) => spawnable_ok(target, c),
        Executor::Slurm(slurm) => exists|base: CommandSpec|
            spawnable_ok(target, base) && #[trigger] slurm_command_ok(
                base,
                slurm.account@,
                slurm.options,
                c,
            ),
    }
}

impl Executor {
    /// The command to spawn for a run command under this executor.
    pub fn execution_command(&self, target: &NixRunCommand) -> (c: CommandSpec)
        ensures
            execution_command_ok(*self, *target, c),
    {
        match self {
            Executor::Default(default) => default.execution_command(target),
            Executor::Slurm(slurm) => slurm.execution_command(target),
        }
    }
}

impl Default for Executor {
    /// Steps without an executor entry run under the plain executor.
    fn default() -> (r: Executor)
        ensures
            r is Default,
    {
        Executor::Default(DefaultExecutor {})
    }
}

} // verus!
