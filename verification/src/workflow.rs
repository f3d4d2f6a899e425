use vstd::prelude::*;

use crate::command::{shell_command, shell_command_text, strs_view, CommandSpec};
use crate::jobs::ExitOutcome;
use crate::nix_environment::{
    nix_run_command_shell_text, run_command_ok, FlakeOutput, FlakeSource, NixEnvironment,
    NixRunCommandOptions,
};

verus! {

/// Why running an external command failed: the spawn itself, a non-zero
/// exit code, or death by signal. The rendered command rides along for
/// diagnostics.
pub enum CommandError {
    Io { command: String, io_error: String },
    NonZeroExitCode { command: String, code: i32 },
    SignalTermination { command: String },
}

impl CommandError {
    /// An I/O failure while running a command.
    pub fn new_io(command: &CommandSpec, io_error: String) -> (r: CommandError)
        ensures
            (r matches CommandError::Io { command: c, io_error: m } && c@ == shell_command_text(
                *command,
            ) && m == io_error),
    {
        CommandError::Io { command: shell_command(command), io_error }
    }

    /// A non-zero exit code from a command.
    pub fn new_non_zero_exit_code(command: &CommandSpec, code: i32) -> (r: CommandError)
        ensures
            (r matches CommandError::NonZeroExitCode { command: c, code: k } && c@
                == shell_command_text(*command) && k == code),
    {
        CommandError::NonZeroExitCode { command: shell_command(command), code }
    }

    /// A command ended by a signal.
    pub fn new_signal_termination(command: &CommandSpec) -> (r: CommandError)
        ensures
            (r matches CommandError::SignalTermination { command: c } && c@
                == shell_command_text(*command)),
    {
        CommandError::SignalTermination { command: shell_command(command) }
    }
}

/// A workflow-level failure: the specification could not be generated.
pub enum WorkflowError {
    SpecificationGeneration(CommandError),
}

/// How the driver's attempt to run the evaluator ended.
pub enum RunOutcome {
    /// The process could not be spawned; carries the I/O error text.
    SpawnFailed(String),
    Exited(ExitOutcome),
}

/// Builds the command that evaluates the workflow flake into its
/// specification: a shell running the environment's read-write run
/// command for the flake's default output.
pub fn generation_command(nix_environment: &NixEnvironment, flake_path: &str) -> (c: CommandSpec)
    ensures
        c.program@ == seq!['b', 'a', 's', 'h'],
        c.envs@.len() == 0,
        c.current_dir is None,
        exists|o: FlakeOutput, rc: crate::nix_environment::NixRunCommand|
            {
                &&& (o.source matches FlakeSource::Path(p) && p@ == flake_path@)
                &&& o.name is None
                &&& #[trigger] run_command_ok(
                    *nix_environment,
                    o,
                    NixRunCommandOptions { readonly: false, buffered: true },
                    rc,
                )
                &&& strs_view(c.args@) == seq![
                    seq!['-', 'c'],
                    nix_run_command_shell_text(rc),
                ]
            },
{
    proof {
        reveal_strlit("bash");
        reveal_strlit("-c");
    }
    let flake_output = FlakeOutput::new_default(FlakeSource::Path(flake_path.to_owned()));
    let ghost o = flake_output;
    let options = NixRunCommandOptions::default().readwrite();
    proof {
        assert(options == NixRunCommandOptions { readonly: false, buffered: true });
    }
    let run_command = nix_environment.run_command(flake_output, options);
    let ghost rc = run_command;
    let mut args: Vec<String> = Vec::new();
    args.push("-c".to_owned());
    args.push(run_command.shell_command());
    let c = CommandSpec {
        program: "bash".to_owned(),
        args,
        envs: Vec::new(),
        current_dir: None,
    };
    proof {
        assert(c.program@ =~= seq!['b', 'a', 's', 'h']);
        assert(strs_view(c.args@) =~~= seq![seq!['-', 'c'], nix_run_command_shell_text(rc)]);
        assert(run_command_ok(
            *nix_environment,
            o,
            NixRunCommandOptions { readonly: false, buffered: true },
            rc,
        ));
    }
    c
}

/// Classifies how the evaluator run ended: exit code zero means the
/// specification text on its standard output is good; everything else is
/// a generation failure naming the command.
pub fn check_generation_exit(command: &CommandSpec, outcome: RunOutcome) -> (r: Result<
    (),
    WorkflowError,
>)
    ensures
        (outcome matches RunOutcome::SpawnFailed(m) ==> (r matches Err(
            WorkflowError::SpecificationGeneration(e),
        ) && (e matches CommandError::Io { command: c, io_error } && c@ == shell_command_text(
            *command,
        ) && io_error == m))),
        (outcome matches RunOutcome::Exited(exit) ==> match exit {
            ExitOutcome::Code(code) => if code == 0 {
                r is Ok
            } else {
                r matches Err(WorkflowError::SpecificationGeneration(e)) && (e
                    matches CommandError::NonZeroExitCode { command: c, code: k } && c@
                    == shell_command_text(*command) && k == code)
            },
            ExitOutcome::Signal => r matches Err(WorkflowError::SpecificationGeneration(e)) && (e
                matches CommandError::SignalTermination { command: c } && c@
                == shell_command_text(*command)),
        }),
{
    match outcome {
        RunOutcome::SpawnFailed(message) => Err(
            WorkflowError::SpecificationGeneration(CommandError::new_io(command, message)),
        ),
        RunOutcome::Exited(ExitOutcome::Code(code)) => {
            if code == 0 {
                Ok(())
            } else {
                Err(
                    WorkflowError::SpecificationGeneration(
                        CommandError::new_non_zero_exit_code(command, code),
                    ),
                )
            }
        },
        RunOutcome::Exited(ExitOutcome::Signal) => Err(
            WorkflowError::SpecificationGeneration(CommandError::new_signal_termination(command)),
        ),
    }
}

} // verus!
