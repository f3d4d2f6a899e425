use vstd::prelude::*;

use crate::command::{shell_command, shell_command_text, strs_view, CommandSpec, EnvDirective};

verus! {

/// Options for building the run command of a flake output: whether the
/// evaluated store may be written back, and whether output is buffered.
pub struct NixRunCommandOptions {
    pub readonly: bool,
    pub buffered: bool,
}

impl NixRunCommandOptions {
    /// Allow the run command to write back to the store cache.
    pub fn readwrite(self) -> (r: NixRunCommandOptions)
        ensures
            r.readonly == false,
            r.buffered == self.buffered,
    {
        NixRunCommandOptions { readonly: false, ..self }
    }

    /// Request unbuffered output from the run command.
    pub fn unbuffered(self) -> (r: NixRunCommandOptions)
        ensures
            r.buffered == false,
            r.readonly == self.readonly,
    {
        NixRunCommandOptions { buffered: false, ..self }
    }
}

impl Default for NixRunCommandOptions {
    /// By default a run command is read-only and buffered.
    fn default() -> (r: NixRunCommandOptions)
        ensures
            r.readonly == true,
            r.buffered == true,
    {
        NixRunCommandOptions { readonly: true, buffered: true }
    }
}

/// Where a flake comes from: a registry name or a filesystem path.
pub enum FlakeSource {
    Name(String),
    Path(String),
}

/// The textual form of a flake source: the name itself, or the path
/// prefixed with `./`.
pub open spec fn flake_source_text(s: FlakeSource) -> Seq<char> {
    match s {
        FlakeSource::Name(name) => name@,
        FlakeSource::Path(path) => seq!['.', '/'] + path@,
    }
}

/// A flake output reference: a source, and optionally the name of one of
/// its outputs.
pub struct FlakeOutput {
    pub source: FlakeSource,
    pub name: Option<String>,
}

/// The textual form of a flake output reference: `source` or `source#name`.
pub open spec fn flake_output_text(o: FlakeOutput) -> Seq<char> {
    match o.name {
        Some(name) => flake_source_text(o.source) + seq!['#'] + name@,
        None => flake_source_text(o.source),
    }
}

impl FlakeOutput {
    /// The default output of a flake source.
    pub fn new_default(source: FlakeSource) -> (r: FlakeOutput)
        ensures
            r.source == source,
            r.name is None,
    {
        FlakeOutput { source, name: None }
    }

    /// A named output of a flake source.
    pub fn new(source: FlakeSource, name: String) -> (r: FlakeOutput)
        ensures
            r.source == source,
            r.name == Some(name),
    {
        FlakeOutput { source, name: Some(name) }
    }

    /// Renders the reference as the text that `nix run` accepts.
    pub fn render(&self) -> (r: String)
        ensures
            r@ == flake_output_text(*self),
    {
        let mut out = String::new();
        match &self.source {
            FlakeSource::Name(name) => {
                out.append(name.as_str());
            },
            FlakeSource::Path(path) => {
                proof {
                    reveal_strlit("./");
                }
                out.append("./");
                out.append(path.as_str());
            },
        }
        match &self.name {
            Some(name) => {
                proof {
                    reveal_strlit("#");
                }
                out.append("#");
                out.append(name.as_str());
                proof {
                    assert(out@ =~= flake_output_text(*self));
                }
            },
            None => {
                proof {
                    assert(out@ =~= flake_output_text(*self));
                }
            },
        }
        out
    }
}

/// Options for running nix through the portable wrapper: where its local
/// store cache lives.
pub struct PortableOptions {
    pub local_cache_parent: String,
}

impl PortableOptions {
    pub fn new(local_cache_parent: String) -> (r: PortableOptions)
        ensures
            r.local_cache_parent == local_cache_parent,
    {
        PortableOptions { local_cache_parent }
    }
}

/// Whether the program and environment of a command invoke nix as the
/// portable options ask: `nix` directly with no added environment, or
/// `nix-portable` with its runtime and location set and `nix` as the first
/// argument slot of `args_head`.
pub open spec fn nix_invocation_ok(
    c: CommandSpec,
    portable: Option<PortableOptions>,
    args_head: Seq<Seq<char>>,
) -> bool {
    match portable {
        None => {
            &&& c.program@ == seq!['n', 'i', 'x']
            &&& c.envs@.len() == 0
            &&& args_head.len() == 0
        },
        Some(options) => {
            &&& c.program@ == seq!['n', 'i', 'x', '-', 'p', 'o', 'r', 't', 'a', 'b', 'l', 'e']
            &&& c.envs@.len() == 2
            &&& c.envs@[0].name@ == seq!['N', 'P', '_', 'R', 'U', 'N', 'T', 'I', 'M', 'E']
            &&& (c.envs@[0].value matches Some(v) && v@ == seq!['b', 'w', 'r', 'a', 'p'])
            &&& c.envs@[1].name@ == seq!['N', 'P', '_', 'L', 'O', 'C', 'A', 'T', 'I', 'O', 'N']
            &&& (c.envs@[1].value matches Some(v) && v@ == options.local_cache_parent@)
            &&& args_head == seq![seq!['n', 'i', 'x']]
        },
    }
}

fn nix_invocation_base(portable: &Option<PortableOptions>) -> (c: CommandSpec)
    ensures
        nix_invocation_ok(
            c,
            *portable,
            if portable is Some {
                seq![seq!['n', 'i', 'x']]
            } else {
                Seq::empty()
            },
        ),
        strs_view(c.args@) == if portable is Some {
            seq![seq!['n', 'i', 'x']]
        } else {
            Seq::<Seq<char>>::empty()
        },
        c.current_dir is None,
{
    proof {
        reveal_strlit("nix");
        reveal_strlit("nix-portable");
        reveal_strlit("NP_RUNTIME");
        reveal_strlit("bwrap");
        reveal_strlit("NP_LOCATION");
    }
    match portable {
        None => {
            let c = CommandSpec {
                program: "nix".to_owned(),
                args: Vec::new(),
                envs: Vec::new(),
                current_dir: None,
            };
            proof {
                assert(c.program@ =~= seq!['n', 'i', 'x']);
                assert(strs_view(c.args@) =~~= Seq::<Seq<char>>::empty());
            }
            c
        },
        Some(options) => {
            let mut envs: Vec<EnvDirective> = Vec::new();
            envs.push(
                EnvDirective { name: "NP_RUNTIME".to_owned(), value: Some("bwrap".to_owned()) },
            );
            envs.push(
                EnvDirective {
                    name: "NP_LOCATION".to_owned(),
                    value: Some(options.local_cache_parent.clone()),
                },
            );
            let mut args: Vec<String> = Vec::new();
            args.push("nix".to_owned());
            let c = CommandSpec {
                program: "nix-portable".to_owned(),
                args,
                envs,
                current_dir: None,
            };
            proof {
                assert(c.program@ =~= seq!['n', 'i', 'x', '-', 'p', 'o', 'r', 't', 'a', 'b', 'l', 'e']);
                assert(c.envs@[0].name@ =~= seq!['N', 'P', '_', 'R', 'U', 'N', 'T', 'I', 'M', 'E']);
                assert(c.envs@[0].value->0@ =~= seq!['b', 'w', 'r', 'a', 'p']);
                assert(c.envs@[1].name@ =~= seq!['N', 'P', '_', 'L', 'O', 'C', 'A', 'T', 'I', 'O', 'N']);
                assert(strs_view(c.args@) =~~= seq![seq!['n', 'i', 'x']]);
            }
            c
        },
    }
}

/// The trailing arguments of `nix run`: the subcommand, `--show-trace` and
/// the rendered flake output.
pub open spec fn nix_run_tail(flake_output: FlakeOutput) -> Seq<Seq<char>> {
    seq![
        seq!['r', 'u', 'n'],
        seq![
            '-',
            '-',
            's',
            'h',
            'o',
            'w',
            '-',
            't',
            'r',
            'a',
            'c',
            'e',
        ],
        flake_output_text(flake_output),
    ]
}

/// Builds the command that runs a flake output: `nix run --show-trace
/// <output>`, through the portable wrapper when portable options are given.
pub fn nix_run_command(flake_output: &FlakeOutput, portable: Option<PortableOptions>) -> (c:
    CommandSpec)
    ensures
        nix_invocation_ok(
            c,
            portable,
            if portable is Some {
                seq![seq!['n', 'i', 'x']]
            } else {
                Seq::empty()
            },
        ),
        strs_view(c.args@) == (if portable is Some {
            seq![seq!['n', 'i', 'x']]
        } else {
            Seq::<Seq<char>>::empty()
        }) + nix_run_tail(*flake_output),
        c.current_dir is None,
{
    let mut c = nix_invocation_base(&portable);
    let ghost head = strs_view(c.args@);
    proof {
        reveal_strlit("run");
        reveal_strlit("--show-trace");
    }
    c.args.push("run".to_owned());
    c.args.push("--show-trace".to_owned());
    c.args.push(flake_output.render());
    proof {
        assert(strs_view(c.args@) =~~= head + nix_run_tail(*flake_output));
    }
    c
}

/// Builds the command that reports the nix version: `nix --version`,
/// through the portable wrapper when portable options are given.
pub fn nix_version_command(portable: Option<PortableOptions>) -> (c: CommandSpec)
    ensures
        nix_invocation_ok(
            c,
            portable,
            if portable is Some {
                seq![seq!['n', 'i', 'x']]
            } else {
                Seq::empty()
            },
        ),
        strs_view(c.args@) == (if portable is Some {
            seq![seq!['n', 'i', 'x']]
        } else {
            Seq::<Seq<char>>::empty()
        }) + seq![seq!['-', '-', 'v', 'e', 'r', 's', 'i', 'o', 'n']],
        c.current_dir is None,
{
    let mut c = nix_invocation_base(&portable);
    let ghost head = strs_view(c.args@);
    proof {
        reveal_strlit("--version");
    }
    c.args.push("--version".to_owned());
    proof {
        assert(strs_view(c.args@) =~~= head + seq![
            seq!['-', '-', 'v', 'e', 'r', 's', 'i', 'o', 'n'],
        ]);
    }
    c
}

/// The arguments of the tar invocation that packs the local cache into the
/// distributed cache file.
pub open spec fn cache_distribution_args(
    local_cache: Seq<char>,
    local_cache_parent: Seq<char>,
    distributed_cache: Seq<char>,
) -> Seq<Seq<char>> {
    seq![
        seq!['-', '-', 'd', 'i', 'r', 'e', 'c', 't', 'o', 'r', 'y'],
        local_cache_parent,
        zstd_flag_text(),
        seq!['-', '-', 'c', 'r', 'e', 'a', 't', 'e'],
        seq!['-', '-', 'f', 'i', 'l', 'e'],
        distributed_cache,
        local_cache,
    ]
}

/// The `--use-compress-program=zstd` flag of the cache tar invocations.
pub open spec fn zstd_flag_text() -> Seq<char> {
    seq![
        '-',
        '-',
        'u',
        's',
        'e',
        '-',
        'c',
        'o',
        'm',
        'p',
        'r',
        'e',
        's',
        's',
        '-',
        'p',
        'r',
        'o',
        'g',
        'r',
        'a',
        'm',
        '=',
        'z',
        's',
        't',
        'd',
    ]
}

/// Builds the tar command that packs the local cache for distribution.
/// The caller supplies the parent directory of the local cache.
pub fn nix_cache_distribution_command(
    local_cache: &str,
    local_cache_parent: &str,
    distributed_cache: &str,
) -> (c: CommandSpec)
    ensures
        c.program@ == seq!['t', 'a', 'r'],
        strs_view(c.args@) == cache_distribution_args(
            local_cache@,
            local_cache_parent@,
            distributed_cache@,
        ),
        c.envs@.len() == 0,
        c.current_dir is None,
{
    proof {
        reveal_strlit("tar");
        reveal_strlit("--directory");
        reveal_strlit("--use-compress-program=zstd");
        reveal_strlit("--create");
        reveal_strlit("--file");
    }
    let mut args: Vec<String> = Vec::new();
    args.push("--directory".to_owned());
    args.push(local_cache_parent.to_owned());
    args.push("--use-compress-program=zstd".to_owned());
    args.push("--create".to_owned());
    args.push("--file".to_owned());
    args.push(distributed_cache.to_owned());
    args.push(local_cache.to_owned());
    let c = CommandSpec {
        program: "tar".to_owned(),
        args,
        envs: Vec::new(),
        current_dir: None,
    };
    proof {
        assert(strs_view(c.args@) =~~= cache_distribution_args(
            local_cache@,
            local_cache_parent@,
            distributed_cache@,
        ));
    }
    c
}

/// The arguments of the tar invocation that unpacks the distributed cache
/// beside the local cache.
pub open spec fn cache_unpacking_args(
    distributed_cache: Seq<char>,
    unpack_directory: Seq<char>,
) -> Seq<Seq<char>> {
    seq![
        seq!['-', '-', 'd', 'i', 'r', 'e', 'c', 't', 'o', 'r', 'y'],
        unpack_directory,
        zstd_flag_text(),
        seq!['-', '-', 'e', 'x', 't', 'r', 'a', 'c', 't'],
        seq!['-', '-', 'f', 'i', 'l', 'e'],
        distributed_cache,
    ]
}

/// Builds the tar command that unpacks the distributed cache. The caller
/// supplies the directory to unpack into (the grandparent of the local
/// cache, or `/` where there is none).
pub fn nix_distributed_cache_unpacking_command(distributed_cache: &str, unpack_directory: &str) -> (c:
    CommandSpec)
    ensures
        c.program@ == seq!['t', 'a', 'r'],
        strs_view(c.args@) == cache_unpacking_args(distributed_cache@, unpack_directory@),
        c.envs@.len() == 0,
        c.current_dir is None,
{
    proof {
        reveal_strlit("tar");
        reveal_strlit("--directory");
        reveal_strlit("--use-compress-program=zstd");
        reveal_strlit("--extract");
        reveal_strlit("--file");
    }
    let mut args: Vec<String> = Vec::new();
    args.push("--directory".to_owned());
    args.push(unpack_directory.to_owned());
    args.push("--use-compress-program=zstd".to_owned());
    args.push("--extract".to_owned());
    args.push("--file".to_owned());
    args.push(distributed_cache.to_owned());
    let c = CommandSpec {
        program: "tar".to_owned(),
        args,
        envs: Vec::new(),
        current_dir: None,
    };
    proof {
        assert(strs_view(c.args@) =~~= cache_unpacking_args(distributed_cache@, unpack_directory@));
    }
    c
}

/// A run command handed to the executors: either a directly spawnable
/// command, or a composite that only exists as a shell line (unpack the
/// distributed cache, run, optionally repack).
pub enum NixRunCommand {
    Native { run: CommandSpec },
    PortableDistributed {
        run: CommandSpec,
        unpack_cache: CommandSpec,
        distribute_cache: Option<CommandSpec>,
    },
}

/// The shell rendering of a run command: the command itself, or the cache
/// unpacking, the run and optionally the cache distribution joined with
/// `&&`.
pub open spec fn nix_run_command_shell_text(c: NixRunCommand) -> Seq<char> {
    match c {
        NixRunCommand::Native { run } => shell_command_text(run),
        NixRunCommand::PortableDistributed { run, unpack_cache, distribute_cache } => {
            match distribute_cache {
                Some(distribute) => shell_command_text(unpack_cache) + and_text()
                    + shell_command_text(run) + and_text() + shell_command_text(distribute),
                None => shell_command_text(unpack_cache) + and_text() + shell_command_text(run),
            }
        },
    }
}

/// The ` && ` connective of composite shell lines.
pub open spec fn and_text() -> Seq<char> {
    seq![' ', '&', '&', ' ']
}

impl NixRunCommand {
    /// The directly spawnable form of the run command, where it has one.
    pub fn command(&self) -> (r: Option<&CommandSpec>)
        ensures
            (self matches NixRunCommand::Native { run } ==> (r matches Some(c) && *c == run)),
            (self matches NixRunCommand::PortableDistributed { .. } ==> r is None),
    {
        match self {
            NixRunCommand::Native { run } => Some(run),
            NixRunCommand::PortableDistributed { .. } => None,
        }
    }

    /// The run command as a single shell line.
    pub fn shell_command(&self) -> (r: String)
        ensures
            r@ == nix_run_command_shell_text(*self),
    {
        match self {
            NixRunCommand::Native { run } => shell_command(run),
            NixRunCommand::PortableDistributed { run, unpack_cache, distribute_cache } => {
                proof {
                    reveal_strlit(" && ");
                }
                let mut out = shell_command(unpack_cache);
                out.append(" && ");
                let run_text = shell_command(run);
                out.append(run_text.as_str());
                match distribute_cache {
                    Some(distribute) => {
                        out.append(" && ");
                        let distribute_text = shell_command(distribute);
                        out.append(distribute_text.as_str());
                        proof {
                            assert(out@ =~= nix_run_command_shell_text(*self));
                        }
                    },
                    None => {
                        proof {
                            assert(out@ =~= nix_run_command_shell_text(*self));
                        }
                    },
                }
                out
            },
        }
    }
}

/// The native nix environment: nix itself is on the path.
pub struct NixNative {}

/// The portable, distributed-cache nix environment: nix runs through the
/// portable wrapper, and the store cache is unpacked from and repacked to a
/// distributed cache file.
pub struct NixPortableDistributed {
    pub cache_local: String,
    /// Parent directory of `cache_local`; the caller derives it from the
    /// configured path.
    pub cache_local_parent: String,
    /// Directory the distributed cache is unpacked into: the parent of
    /// `cache_local_parent`, or `/` where there is none.
    pub cache_unpack_directory: String,
    pub cache_distributed: String,
}

/// The environment that the workflow runs in.
pub enum NixEnvironment {
    Native(NixNative),
    PortableDistributed(NixPortableDistributed),
}

/// What the run command of a flake output must look like in a given
/// environment.
pub open spec fn run_command_ok(
    env: NixEnvironment,
    flake_output: FlakeOutput,
    options: NixRunCommandOptions,
    r: NixRunCommand,
) -> bool {
    match env {
        NixEnvironment::Native(_) => {
            &&& r matches NixRunCommand::Native { run }
            &&& nix_invocation_ok(run, None, Seq::empty())
            &&& strs_view(run.args@) == nix_run_tail(flake_output)
        },
        NixEnvironment::PortableDistributed(p) => {
            &&& r matches NixRunCommand::PortableDistributed { run, unpack_cache, distribute_cache }
            &&& (exists|portable: PortableOptions|
                nix_invocation_ok(run, Some(portable), seq![seq!['n', 'i', 'x']])
                    && portable.local_cache_parent@ == p.cache_local_parent@)
            &&& strs_view(run.args@) == seq![seq!['n', 'i', 'x']] + nix_run_tail(flake_output)
            &&& unpack_cache.program@ == seq!['t', 'a', 'r']
            &&& strs_view(unpack_cache.args@) == cache_unpacking_args(
                p.cache_distributed@,
                p.cache_unpack_directory@,
            )
            &&& (if options.readonly {
                distribute_cache is None
            } else {
                distribute_cache matches Some(d) && d.program@ == seq!['t', 'a', 'r']
                    && strs_view(d.args@) == cache_distribution_args(
                    p.cache_local@,
                    p.cache_local_parent@,
                    p.cache_distributed@,
                )
            })
        },
    }
}

impl NixEnvironment {
    /// Builds the run command of a flake output for this environment: a
    /// direct `nix run` natively; through the portable wrapper, with cache
    /// unpacking and (when writable) cache distribution, otherwise.
    pub fn run_command(&self, flake_output: FlakeOutput, options: NixRunCommandOptions) -> (r:
        NixRunCommand)
        ensures
            run_command_ok(*self, flake_output, options, r),
    {
        match self {
            NixEnvironment::Native(_) => {
                let run = nix_run_command(&flake_output, None);
                NixRunCommand::Native { run }
            },
            NixEnvironment::PortableDistributed(p) => {
                let portable = PortableOptions::new(p.cache_local_parent.clone());
                let ghost portable_spec = portable;
                let run = nix_run_command(&flake_output, Some(portable));
                let unpack_cache = nix_distributed_cache_unpacking_command(
                    p.cache_distributed.as_str(),
                    p.cache_unpack_directory.as_str(),
                );
                let distribute_cache = if !options.readonly {
                    Some(
                        nix_cache_distribution_command(
                            p.cache_local.as_str(),
                            p.cache_local_parent.as_str(),
                            p.cache_distributed.as_str(),
                        ),
                    )
                } else {
                    None
                };
                let r = NixRunCommand::PortableDistributed { run, unpack_cache, distribute_cache };
                proof {
                    assert(run_command_ok(*self, flake_output, options, r)) by {
                        assert(nix_invocation_ok(
                            r->PortableDistributed_run,
                            Some(portable_spec),
                            seq![seq!['n', 'i', 'x']],
                        ));
                    }
                }
                r
            },
        }
    }
}

/// Why no nix environment could be built: neither a native nix nor the
/// portable wrapper answered the version probe. The two probe commands are
/// carried for diagnostics.
pub enum NixEnvironmentError {
    NixUnavailable { nix_check_command: CommandSpec, nix_portable_check_command: CommandSpec },
}

/// Decides which environment to use. The caller probes nix availability by
/// running the version commands and hands in the outcomes: `native_ok` for
/// the native probe (false when native use is forced off) and
/// `portable_ok` for the portable probe.
pub fn build_environment(
    cache_local: String,
    cache_local_parent: String,
    cache_unpack_directory: String,
    cache_distributed: String,
    force_nix_portable_usage: bool,
    native_ok: bool,
    portable_ok: bool,
) -> (r: Result<NixEnvironment, NixEnvironmentError>)
    ensures
        (!force_nix_portable_usage && native_ok) ==> (r matches Ok(e) && e is Native),
        (force_nix_portable_usage || !native_ok) && portable_ok ==> (r matches Ok(e)
            && e matches NixEnvironment::PortableDistributed(p) && p.cache_local == cache_local
            && p.cache_local_parent == cache_local_parent
            && p.cache_unpack_directory == cache_unpack_directory
            && p.cache_distributed == cache_distributed),
        (force_nix_portable_usage || !native_ok) && !portable_ok ==> r is Err,
{
    if !force_nix_portable_usage && native_ok {
        Ok(NixEnvironment::Native(NixNative {}))
    } else if portable_ok {
        Ok(
            NixEnvironment::PortableDistributed(
                NixPortableDistributed {
                    cache_local,
                    cache_local_parent,
                    cache_unpack_directory,
                    cache_distributed,
                },
            ),
        )
    } else {
        let nix_check_command = nix_version_command(None);
        let nix_portable_check_command = nix_version_command(
            Some(PortableOptions::new(cache_local_parent)),
        );
        Err(NixEnvironmentError::NixUnavailable { nix_check_command, nix_portable_check_command })
    }
}

} // verus!
