use nixflow::executors::{DefaultExecutor, Executor};
use nixflow::jobs::ExitOutcome;
use nixflow::nix_environment::{
    build_environment, nix_cache_distribution_command, nix_distributed_cache_unpacking_command,
    nix_run_command, nix_version_command, FlakeOutput, FlakeSource, NixEnvironment,
    NixEnvironmentError, NixNative, NixPortableDistributed, NixRunCommand, NixRunCommandOptions,
    PortableOptions,
};
use nixflow::workflow::{check_generation_exit, generation_command, CommandError, RunOutcome};

fn strings(parts: &[&str]) -> Vec<String> {
    parts.iter().map(|p| p.to_string()).collect()
}

#[test]
fn run_command_options_toggle() {
    let options = NixRunCommandOptions::default();
    assert!(options.readonly);
    assert!(options.buffered);
    let options = NixRunCommandOptions::default().readwrite().unbuffered();
    assert!(!options.readonly);
    assert!(!options.buffered);
}

#[test]
fn native_nix_run_command_is_direct() {
    let output = FlakeOutput::new(FlakeSource::Path("wf".to_string()), "A".to_string());
    let cmd = nix_run_command(&output, None);
    assert_eq!(cmd.program, "nix");
    assert_eq!(cmd.args, strings(&["run", "--show-trace", "./wf#A"]));
    assert!(cmd.envs.is_empty());
}

#[test]
fn portable_nix_run_command_wraps_nix() {
    let output = FlakeOutput::new_default(FlakeSource::Name("flake".to_string()));
    let cmd = nix_run_command(&output, Some(PortableOptions::new("/cache".to_string())));
    assert_eq!(cmd.program, "nix-portable");
    assert_eq!(cmd.args, strings(&["nix", "run", "--show-trace", "flake"]));
    assert_eq!(cmd.envs.len(), 2);
    assert_eq!(cmd.envs[0].name, "NP_RUNTIME");
    assert_eq!(cmd.envs[0].value, Some("bwrap".to_string()));
    assert_eq!(cmd.envs[1].name, "NP_LOCATION");
    assert_eq!(cmd.envs[1].value, Some("/cache".to_string()));
}

#[test]
fn version_command_probes_nix() {
    let cmd = nix_version_command(None);
    assert_eq!(cmd.program, "nix");
    assert_eq!(cmd.args, strings(&["--version"]));
    let cmd = nix_version_command(Some(PortableOptions::new("/c".to_string())));
    assert_eq!(cmd.program, "nix-portable");
    assert_eq!(cmd.args, strings(&["nix", "--version"]));
}

#[test]
fn cache_commands_use_zstd_tar() {
    let pack = nix_cache_distribution_command("/c/store", "/c", "/d/cache.tar.zst");
    assert_eq!(pack.program, "tar");
    assert_eq!(
        pack.args,
        strings(&[
            "--directory",
            "/c",
            "--use-compress-program=zstd",
            "--create",
            "--file",
            "/d/cache.tar.zst",
            "/c/store",
        ])
    );
    let unpack = nix_distributed_cache_unpacking_command("/d/cache.tar.zst", "/");
    assert_eq!(unpack.program, "tar");
    assert_eq!(
        unpack.args,
        strings(&[
            "--directory",
            "/",
            "--use-compress-program=zstd",
            "--extract",
            "--file",
            "/d/cache.tar.zst",
        ])
    );
}

#[test]
fn portable_environment_composes_shell_line() {
    let env = NixEnvironment::PortableDistributed(NixPortableDistributed {
        cache_local: "/c/store".to_string(),
        cache_local_parent: "/c".to_string(),
        cache_unpack_directory: "/".to_string(),
        cache_distributed: "/d/cache.tar.zst".to_string(),
    });
    let output = FlakeOutput::new(FlakeSource::Path("wf".to_string()), "A".to_string());
    let rc = env.run_command(output, NixRunCommandOptions::default());
    assert!(rc.command().is_none());
    let line = rc.shell_command();
    assert!(line.contains("--extract"));
    assert!(line.contains("'nix' 'run' '--show-trace' './wf#A'"));
    assert!(!line.contains("--create"));

    let output = FlakeOutput::new(FlakeSource::Path("wf".to_string()), "A".to_string());
    let rc = env.run_command(output, NixRunCommandOptions::default().readwrite());
    assert!(rc.shell_command().contains("--create"));
}

#[test]
fn native_environment_offers_direct_command() {
    let env = NixEnvironment::Native(NixNative {});
    let output = FlakeOutput::new(FlakeSource::Path("wf".to_string()), "A".to_string());
    let rc = env.run_command(output, NixRunCommandOptions::default().unbuffered());
    match rc.command() {
        Some(cmd) => assert_eq!(cmd.program, "nix"),
        None => panic!("the native run command must be direct"),
    }
}

#[test]
fn environment_choice_follows_probes() {
    let build = |force: bool, native_ok: bool, portable_ok: bool| {
        build_environment(
            "/c/store".to_string(),
            "/c".to_string(),
            "/".to_string(),
            "/d/cache".to_string(),
            force,
            native_ok,
            portable_ok,
        )
    };
    assert!(matches!(build(false, true, false), Ok(NixEnvironment::Native(_))));
    assert!(matches!(build(false, false, true), Ok(NixEnvironment::PortableDistributed(_))));
    assert!(matches!(build(true, true, true), Ok(NixEnvironment::PortableDistributed(_))));
    assert!(matches!(
        build(false, false, false),
        Err(NixEnvironmentError::NixUnavailable { .. })
    ));
}

#[test]
fn default_executor_falls_back_to_shell() {
    let env = NixEnvironment::PortableDistributed(NixPortableDistributed {
        cache_local: "/c/store".to_string(),
        cache_local_parent: "/c".to_string(),
        cache_unpack_directory: "/".to_string(),
        cache_distributed: "/d/cache".to_string(),
    });
    let output = FlakeOutput::new(FlakeSource::Path("wf".to_string()), "A".to_string());
    let rc = env.run_command(output, NixRunCommandOptions::default());
    let executor = Executor::Default(DefaultExecutor {});
    let cmd = executor.execution_command(&rc);
    assert_eq!(cmd.program, "bash");
    assert_eq!(cmd.args.len(), 2);
    assert_eq!(cmd.args[0], "-c");
}

#[test]
fn generation_exit_classification() {
    let env = NixEnvironment::Native(NixNative {});
    let cmd = generation_command(&env, "wf");
    assert_eq!(cmd.program, "bash");
    assert!(check_generation_exit(&cmd, RunOutcome::Exited(ExitOutcome::Code(0))).is_ok());
    match check_generation_exit(&cmd, RunOutcome::Exited(ExitOutcome::Code(3))) {
        Err(nixflow::workflow::WorkflowError::SpecificationGeneration(
            CommandError::NonZeroExitCode { code, .. },
        )) => assert_eq!(code, 3),
        _ => panic!("a non-zero exit must be classified"),
    }
    match check_generation_exit(&cmd, RunOutcome::Exited(ExitOutcome::Signal)) {
        Err(nixflow::workflow::WorkflowError::SpecificationGeneration(
            CommandError::SignalTermination { .. },
        )) => {}
        _ => panic!("a signal death must be classified"),
    }
    match check_generation_exit(&cmd, RunOutcome::SpawnFailed("no such file".to_string())) {
        Err(nixflow::workflow::WorkflowError::SpecificationGeneration(CommandError::Io {
            io_error,
            ..
        })) => assert_eq!(io_error, "no such file"),
        _ => panic!("a spawn failure must be classified"),
    }
}
