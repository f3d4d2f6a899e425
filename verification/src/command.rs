use vstd::prelude::*;

verus! {

/// One environment directive of a command: set `name` to a value, or
/// (with `value` absent) remove `name` from the inherited environment.
pub struct EnvDirective {
    pub name: String,
    pub value: Option<String>,
}

/// A command to be spawned: program, arguments, environment directives and
/// an optional working directory. This is the data that the executors
/// assemble; the process itself is started outside the library.
pub struct CommandSpec {
    pub program: String,
    pub args: Vec<String>,
    pub envs: Vec<EnvDirective>,
    pub current_dir: Option<String>,
}

/// The character sequences of a list of strings.
pub open spec fn strs_view(v: Seq<String>) -> Seq<Seq<char>> {
    v.map_values(|s: String| s@)
}

/// A string wrapped in single quotes.
pub open spec fn quote(s: Seq<char>) -> Seq<char> {
    seq!['\''] + s + seq!['\'']
}

/// The shell text of one environment directive: `'name=value'` for a
/// setting, `-u 'name'` for a removal.
pub open spec fn env_directive_text(e: EnvDirective) -> Seq<char> {
    match e.value {
        Some(v) => quote(e.name@ + seq!['='] + v@),
        None => seq!['-', 'u', ' '] + quote(e.name@),
    }
}

/// The parts joined with a separator between neighbours.
pub open spec fn join_with(parts: Seq<Seq<char>>, sep: char) -> Seq<char>
    decreases parts.len(),
{
    if parts.len() == 0 {
        Seq::empty()
    } else if parts.len() == 1 {
        parts[0]
    } else {
        parts[0] + seq![sep] + join_with(parts.drop_first(), sep)
    }
}

pub proof fn lemma_join_push(parts: Seq<Seq<char>>, x: Seq<char>, sep: char)
    ensures
        join_with(parts.push(x), sep) == if parts.len() == 0 {
            x
        } else {
            join_with(parts, sep) + seq![sep] + x
        },
    decreases parts.len(),
{
    if parts.len() == 0 {
        assert(parts.push(x).len() == 1);
        assert(parts.push(x)[0] == x);
    } else if parts.len() == 1 {
        assert(parts.push(x).drop_first() =~= seq![x]);
        assert(parts.push(x)[0] == parts[0]);
        assert(join_with(seq![x], sep) == x);
        assert(join_with(parts.push(x), sep) =~= parts[0] + seq![sep] + x);
        assert(join_with(parts, sep) + seq![sep] + x =~= parts[0] + seq![sep] + x);
    } else {
        assert(parts.push(x).drop_first() =~= parts.drop_first().push(x));
        lemma_join_push(parts.drop_first(), x, sep);
        assert(join_with(parts.push(x), sep) =~= parts[0] + seq![sep] + join_with(
            parts.drop_first().push(x),
            sep,
        ));
        assert(join_with(parts, sep) + seq![sep] + x =~= parts[0] + seq![sep] + (join_with(
            parts.drop_first(),
            sep,
        ) + seq![sep] + x));
    }
}

/// The quoted program and arguments of a command, space-separated.
pub open spec fn quoted_invocation_text(c: CommandSpec) -> Seq<char> {
    join_with(seq![quote(c.program@)] + strs_view(c.args@).map_values(|a: Seq<char>| quote(a)), ' ')
}

/// The shell rendering of a command: `env`, the environment directives and
/// the quoted invocation, space-separated.
pub open spec fn shell_command_text(c: CommandSpec) -> Seq<char> {
    seq!['e', 'n', 'v', ' '] + join_with(c.envs@.map_values(|e: EnvDirective| env_directive_text(e)), ' ')
        + seq![' '] + quoted_invocation_text(c)
}

fn clone_string_opt(v: &Option<String>) -> (r: Option<String>)
    ensures
        r == *v,
{
    match v {
        Some(s) => Some(s.clone()),
        None => None,
    }
}

fn clone_strings(v: &Vec<String>) -> (r: Vec<String>)
    ensures
        r@ == v@,
{
    let mut r: Vec<String> = Vec::new();
    for i in 0..v.len()
        invariant
            r@ =~= v@.take(i as int),
    {
        r.push(v[i].clone());
        proof {
            assert(r@ =~= v@.take(i + 1));
        }
    }
    proof {
        assert(r@ =~= v@);
    }
    r
}

fn clone_envs(v: &Vec<EnvDirective>) -> (r: Vec<EnvDirective>)
    ensures
        r@ == v@,
{
    let mut r: Vec<EnvDirective> = Vec::new();
    for i in 0..v.len()
        invariant
            r@ =~= v@.take(i as int),
    {
        let e = EnvDirective { name: v[i].name.clone(), value: clone_string_opt(&v[i].value) };
        proof {
            assert(e == v@[i as int]);
        }
        r.push(e);
        proof {
            assert(r@ =~= v@.take(i + 1));
        }
    }
    proof {
        assert(r@ =~= v@);
    }
    r
}

/// A faithful copy of a command: same program, arguments, environment
/// directives and working directory.
pub fn clone_command(cmd: &CommandSpec) -> (r: CommandSpec)
    ensures
        r.program == cmd.program,
        r.args@ == cmd.args@,
        r.envs@ == cmd.envs@,
        r.current_dir == cmd.current_dir,
{
    CommandSpec {
        program: cmd.program.clone(),
        args: clone_strings(&cmd.args),
        envs: clone_envs(&cmd.envs),
        current_dir: clone_string_opt(&cmd.current_dir),
    }
}

fn push_quoted(out: &mut String, part: &str)
    ensures
        final(out)@ == old(out)@ + quote(part@),
{
    proof {
        reveal_strlit("'");
    }
    out.append("'");
    out.append(part);
    out.append("'");
    proof {
        assert(out@ =~= old(out)@ + quote(part@));
    }
}

fn push_env_directive(out: &mut String, e: &EnvDirective)
    ensures
        final(out)@ == old(out)@ + env_directive_text(*e),
{
    match &e.value {
        Some(v) => {
            proof {
                reveal_strlit("'");
                reveal_strlit("=");
            }
            out.append("'");
            out.append(e.name.as_str());
            out.append("=");
            out.append(v.as_str());
            out.append("'");
            proof {
                assert(out@ =~= old(out)@ + env_directive_text(*e));
            }
        },
        None => {
            proof {
                reveal_strlit("-u ");
            }
            out.append("-u ");
            push_quoted(out, e.name.as_str());
            proof {
                assert(out@ =~= old(out)@ + env_directive_text(*e));
            }
        },
    }
}

/// Renders a command as a single shell line: environment directives through
/// `env`, then the program and every argument, each single-quoted.
pub fn shell_command(cmd: &CommandSpec) -> (r: String)
    ensures
        r@ == shell_command_text(*cmd),
{
    let ghost env_texts = cmd.envs@.map_values(|e: EnvDirective| env_directive_text(e));
    let mut out = String::new();
    proof {
        reveal_strlit("env ");
    }
    out.append("env ");
    let ghost base = out@;
    for i in 0..cmd.envs.len()
        invariant
            env_texts == cmd.envs@.map_values(|e: EnvDirective| env_directive_text(e)),
            out@ == base + join_with(env_texts.take(i as int), ' '),
            base == seq!['e', 'n', 'v', ' '],
    {
        if i > 0 {
            proof {
                reveal_strlit(" ");
            }
            out.append(" ");
        }
        push_env_directive(&mut out, &cmd.envs[i]);
        proof {
            assert(env_texts.take(i as int).push(env_texts[i as int]) =~= env_texts.take(i + 1));
            lemma_join_push(env_texts.take(i as int), env_texts[i as int], ' ');
            assert(out@ =~= base + join_with(env_texts.take(i + 1), ' '));
        }
    }
    proof {
        assert(env_texts.take(cmd.envs@.len() as int) =~= env_texts);
        reveal_strlit(" ");
    }
    out.append(" ");
    let ghost mid = out@;
    let ghost invocation = seq![quote(cmd.program@)] + strs_view(cmd.args@).map_values(
        |a: Seq<char>| quote(a),
    );
    push_quoted(&mut out, cmd.program.as_str());
    proof {
        assert(invocation.take(1) =~= seq![quote(cmd.program@)]);
        assert(join_with(invocation.take(1), ' ') == quote(cmd.program@));
    }
    for i in 0..cmd.args.len()
        invariant
            invocation == seq![quote(cmd.program@)] + strs_view(cmd.args@).map_values(
                |a: Seq<char>| quote(a),
            ),
            out@ == mid + join_with(invocation.take(i + 1), ' '),
    {
        proof {
            reveal_strlit(" ");
        }
        out.append(" ");
        push_quoted(&mut out, cmd.args[i].as_str());
        proof {
            assert(invocation[i + 1] == quote(cmd.args@[i as int]@));
            assert(invocation.take(i + 1).push(invocation[i + 1]) =~= invocation.take(i + 2));
            lemma_join_push(invocation.take(i + 1), invocation[i + 1], ' ');
            assert(out@ =~= mid + join_with(invocation.take(i + 2), ' '));
        }
    }
    proof {
        assert(invocation.take(cmd.args@.len() as int + 1) =~= invocation);
        assert(out@ =~= shell_command_text(*cmd));
    }
    out
}

} // verus!
