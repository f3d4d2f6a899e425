use nixflow::command::{clone_command, shell_command, CommandSpec, EnvDirective};
use nixflow::executors::{format_slurm_time, slurm_run_command, SlurmRunOptions};
use nixflow::text::{dec_string, join_sep};

fn strings(parts: &[&str]) -> Vec<String> {
    parts.iter().map(|p| p.to_string()).collect()
}

fn plain(program: &str, args: &[&str]) -> CommandSpec {
    CommandSpec {
        program: program.to_string(),
        args: strings(args),
        envs: Vec::new(),
        current_dir: None,
    }
}

#[test]
fn shell_command_quotes_program_and_arguments() {
    let cmd = plain("echo", &["hello", "wor ld"]);
    assert_eq!(shell_command(&cmd), "env  'echo' 'hello' 'wor ld'");
}

#[test]
fn shell_command_renders_environment_directives() {
    let mut cmd = plain("run", &[]);
    cmd.envs.push(EnvDirective { name: "A".to_string(), value: Some("1".to_string()) });
    cmd.envs.push(EnvDirective { name: "B".to_string(), value: None });
    assert_eq!(shell_command(&cmd), "env 'A=1' -u 'B' 'run'");
}

#[test]
fn clone_command_copies_every_part() {
    let mut cmd = plain("p", &["x"]);
    cmd.envs.push(EnvDirective { name: "K".to_string(), value: Some("v".to_string()) });
    cmd.current_dir = Some("/work".to_string());
    let copy = clone_command(&cmd);
    assert_eq!(copy.program, "p");
    assert_eq!(copy.args, strings(&["x"]));
    assert_eq!(copy.envs.len(), 1);
    assert_eq!(copy.envs[0].name, "K");
    assert_eq!(copy.envs[0].value, Some("v".to_string()));
    assert_eq!(copy.current_dir, Some("/work".to_string()));
}

#[test]
fn slurm_time_is_zero_padded() {
    assert_eq!(format_slurm_time(0), "00:00:00");
    assert_eq!(format_slurm_time(59), "00:00:59");
    assert_eq!(format_slurm_time(3661), "01:01:01");
    assert_eq!(format_slurm_time(360000), "100:00:00");
}

#[test]
fn slurm_command_prepends_accounting_flags() {
    let target = plain("/bin/work", &["--fast"]);
    let options = SlurmRunOptions {
        quality_of_service: Some("high".to_string()),
        constraint: None,
        runtime_seconds: 60,
        partitions: Some(strings(&["p1", "p2"])),
        cpu_count: 4,
        gpu_count: 2,
    };
    let cmd = slurm_run_command(&target, "acct", &options);
    assert_eq!(cmd.program, "srun");
    assert_eq!(
        cmd.args,
        strings(&[
            "--account",
            "acct",
            "--qos",
            "high",
            "--time",
            "00:01:00",
            "--partition",
            "p1,p2",
            "--cpus-per-task",
            "4",
            "--gpus",
            "2",
            "/bin/work",
            "--fast",
        ])
    );
}

#[test]
fn slurm_command_forwards_environment() {
    let mut target = plain("/bin/work", &[]);
    target.envs.push(EnvDirective { name: "PATH".to_string(), value: Some("/usr/bin".to_string()) });
    target.envs.push(EnvDirective { name: "HOME".to_string(), value: None });
    let options = SlurmRunOptions {
        quality_of_service: None,
        constraint: None,
        runtime_seconds: 0,
        partitions: None,
        cpu_count: 1,
        gpu_count: 0,
    };
    let cmd = slurm_run_command(&target, "a", &options);
    assert_eq!(cmd.envs.len(), 2);
    assert_eq!(cmd.envs[0].name, "PATH");
    assert_eq!(cmd.envs[1].name, "HOME");
    assert_eq!(cmd.envs[1].value, None);
}

#[test]
fn decimal_rendering_is_exact() {
    assert_eq!(dec_string(0), "0");
    assert_eq!(dec_string(7), "7");
    assert_eq!(dec_string(12345), "12345");
    assert_eq!(dec_string(u64::MAX), "18446744073709551615");
}

#[test]
fn join_sep_joins_with_separator() {
    assert_eq!(join_sep(&strings(&["a", "b", "c"]), ","), "a,b,c");
    assert_eq!(join_sep(&strings(&["solo"]), ","), "solo");
    assert_eq!(join_sep(&Vec::new(), ","), "");
}
