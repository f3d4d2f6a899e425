use vstd::prelude::*;

use crate::executors::{Executor, SlurmExecutor, SlurmRunOptions};
use crate::json::{json_document, member_lookup, JsonValue};
use crate::progress::ProgressScanningInfo;

verus! {

/// A declared output of a step: a path expected to exist after the step
/// ran.
pub struct Output {
    pub path: String,
}

/// A declared input of a step: a path, and the step that produces it.
pub struct Input {
    pub path: String,
    pub parent_step: Step,
}

/// A declarative unit of work: named, with slotted inputs and outputs, an
/// executor, a log destination, optional progress metadata and a run
/// binary.
pub struct Step {
    pub name: String,
    pub inputs: Vec<(String, Vec<Input>)>,
    pub outputs: Vec<(String, Vec<Output>)>,
    pub executor: Executor,
    pub log: String,
    pub progress_scanning: Option<ProgressScanningInfo>,
    pub run_binary_path: String,
}

/// A requested artifact: a path and the step that produces it.
pub struct TargetItem {
    pub path: String,
    pub parent_step: Step,
}

/// A parsed workflow specification: the target groups, each with its
/// targets.
pub struct WorkflowSpecification {
    pub targets: Vec<(String, Vec<TargetItem>)>,
}

/// The identity and filesystem footprint a job carries through its
/// lifecycle: the step's name, its flattened input and output paths, its
/// log path and its progress declaration.
pub struct StepInfo {
    pub name: String,
    pub inputs: Vec<String>,
    pub outputs: Vec<String>,
    pub log: String,
    pub progress_scanning: Option<ProgressScanningInfo>,
}

/// The paths of a list of inputs, in order.
pub open spec fn input_paths_of(list: Seq<Input>) -> Seq<String> {
    list.map_values(|inp: Input| inp.path)
}

/// The paths of a list of outputs, in order.
pub open spec fn output_paths_of(list: Seq<Output>) -> Seq<String> {
    list.map_values(|out: Output| out.path)
}

/// The input paths of the first `i` slots of a step, flattened in slot
/// order.
pub open spec fn flat_input_paths_prefix(inputs: Seq<(String, Vec<Input>)>, i: int) -> Seq<String>
    decreases i,
{
    if i <= 0 {
        Seq::empty()
    } else {
        flat_input_paths_prefix(inputs, i - 1) + input_paths_of(inputs[i - 1].1@)
    }
}

/// The input paths of a step, flattened in slot order.
pub open spec fn flat_input_paths(inputs: Seq<(String, Vec<Input>)>) -> Seq<String> {
    flat_input_paths_prefix(inputs, inputs.len() as int)
}

/// The names of the steps producing the inputs of a list, in order.
pub open spec fn input_parent_names_of(list: Seq<Input>) -> Seq<Seq<char>> {
    list.map_values(|inp: Input| inp.parent_step.name@)
}

/// The producing step names of the first `i` input slots of a step,
/// flattened in slot order.
pub open spec fn flat_input_parent_names_prefix(
    inputs: Seq<(String, Vec<Input>)>,
    i: int,
) -> Seq<Seq<char>>
    decreases i,
{
    if i <= 0 {
        Seq::empty()
    } else {
        flat_input_parent_names_prefix(inputs, i - 1) + input_parent_names_of(inputs[i - 1].1@)
    }
}

/// The producing step names of a step's inputs, flattened in slot order.
pub open spec fn flat_input_parent_names(inputs: Seq<(String, Vec<Input>)>) -> Seq<Seq<char>> {
    flat_input_parent_names_prefix(inputs, inputs.len() as int)
}

/// The output paths of the first `i` slots of a step, flattened in slot
/// order.
pub open spec fn flat_output_paths_prefix(outputs: Seq<(String, Vec<Output>)>, i: int) -> Seq<
    String,
>
    decreases i,
{
    if i <= 0 {
        Seq::empty()
    } else {
        flat_output_paths_prefix(outputs, i - 1) + output_paths_of(outputs[i - 1].1@)
    }
}

/// The output paths of a step, flattened in slot order.
pub open spec fn flat_output_paths(outputs: Seq<(String, Vec<Output>)>) -> Seq<String> {
    flat_output_paths_prefix(outputs, outputs.len() as int)
}

/// Whether a step info is the runtime projection of a step: same name and
/// log, the flattened paths, and the same progress declaration.
pub open spec fn step_info_matches(step: Step, info: StepInfo) -> bool {
    &&& info.name == step.name
    &&& info.inputs@ == flat_input_paths(step.inputs@)
    &&& info.outputs@ == flat_output_paths(step.outputs@)
    &&& info.log == step.log
    &&& progress_info_matches(step.progress_scanning, info.progress_scanning)
}

/// Whether two progress declarations agree.
pub open spec fn progress_info_matches(
    a: Option<ProgressScanningInfo>,
    b: Option<ProgressScanningInfo>,
) -> bool {
    match (a, b) {
        (Some(x), Some(y)) => x.indicator_max == y.indicator_max && x.indicator_regex_pattern@
            == y.indicator_regex_pattern@,
        (None, None) => true,
        _ => false,
    }
}

fn clone_progress_opt(v: &Option<ProgressScanningInfo>) -> (r: Option<ProgressScanningInfo>)
    ensures
        progress_info_matches(*v, r),
{
    match v {
        Some(info) => Some(info.duplicate()),
        None => None,
    }
}

impl Step {
    /// The runtime projection of this step: name, flattened input and
    /// output paths, log path and progress declaration.
    pub fn info(&self) -> (r: StepInfo)
        ensures
            step_info_matches(*self, r),
    {
        let mut inputs: Vec<String> = Vec::new();
        for i in 0..self.inputs.len()
            invariant
                inputs@ == flat_input_paths_prefix(self.inputs@, i as int),
        {
            let list = &self.inputs[i].1;
            let ghost before = inputs@;
            for j in 0..list.len()
                invariant
                    list == &self.inputs@[i as int].1,
                    inputs@ == before + input_paths_of(list@.take(j as int)),
            {
                inputs.push(list[j].path.clone());
                proof {
                    assert(input_paths_of(list@.take(j + 1)) =~= input_paths_of(
                        list@.take(j as int),
                    ).push(list@[j as int].path));
                    assert(inputs@ =~= before + input_paths_of(list@.take(j + 1)));
                }
            }
            proof {
                assert(list@.take(list@.len() as int) =~= list@);
                assert(inputs@ =~= flat_input_paths_prefix(self.inputs@, i + 1));
            }
        }
        let mut outputs: Vec<String> = Vec::new();
        for i in 0..self.outputs.len()
            invariant
                outputs@ == flat_output_paths_prefix(self.outputs@, i as int),
        {
            let list = &self.outputs[i].1;
            let ghost before = outputs@;
            for j in 0..list.len()
                invariant
                    list == &self.outputs@[i as int].1,
                    outputs@ == before + output_paths_of(list@.take(j as int)),
            {
                outputs.push(list[j].path.clone());
                proof {
                    assert(output_paths_of(list@.take(j + 1)) =~= output_paths_of(
                        list@.take(j as int),
                    ).push(list@[j as int].path));
                    assert(outputs@ =~= before + output_paths_of(list@.take(j + 1)));
                }
            }
            proof {
                assert(list@.take(list@.len() as int) =~= list@);
                assert(outputs@ =~= flat_output_paths_prefix(self.outputs@, i + 1));
            }
        }
        StepInfo {
            name: self.name.clone(),
            inputs,
            outputs,
            log: self.log.clone(),
            progress_scanning: clone_progress_opt(&self.progress_scanning),
        }
    }
}

/// Whether two step infos agree field for field, progress declarations
/// compared by content.
pub open spec fn step_info_like(a: StepInfo, b: StepInfo) -> bool {
    &&& a.name == b.name
    &&& a.inputs@ == b.inputs@
    &&& a.outputs@ == b.outputs@
    &&& a.log == b.log
    &&& progress_info_matches(a.progress_scanning, b.progress_scanning)
}

impl StepInfo {
    /// Assembles a step info from its parts.
    pub fn new(
        name: String,
        inputs: Vec<String>,
        outputs: Vec<String>,
        log: String,
        progress_scanning: Option<ProgressScanningInfo>,
    ) -> (r: StepInfo)
        ensures
            r.name == name,
            r.inputs == inputs,
            r.outputs == outputs,
            r.log == log,
            r.progress_scanning == progress_scanning,
    {
        StepInfo { name, inputs, outputs, log, progress_scanning }
    }

    /// A content-equal copy.
    pub fn duplicate(&self) -> (r: StepInfo)
        ensures
            step_info_like(*self, r),
    {
        let mut inputs: Vec<String> = Vec::new();
        for i in 0..self.inputs.len()
            invariant
                inputs@ =~= self.inputs@.take(i as int),
        {
            inputs.push(self.inputs[i].clone());
            proof {
                assert(inputs@ =~= self.inputs@.take(i + 1));
            }
        }
        let mut outputs: Vec<String> = Vec::new();
        for i in 0..self.outputs.len()
            invariant
                outputs@ =~= self.outputs@.take(i as int),
        {
            outputs.push(self.outputs[i].clone());
            proof {
                assert(outputs@ =~= self.outputs@.take(i + 1));
            }
        }
        proof {
            assert(inputs@ =~= self.inputs@);
            assert(outputs@ =~= self.outputs@);
        }
        StepInfo {
            name: self.name.clone(),
            inputs,
            outputs,
            log: self.log.clone(),
            progress_scanning: clone_progress_opt(&self.progress_scanning),
        }
    }
}


/// Whether an optional member decodes as an optional string: absent or
/// null means none, a string means that string.
pub open spec fn optional_text_matches(m: Option<JsonValue>, r: Option<String>) -> bool {
    match m {
        None => r is None,
        Some(v) => match v {
            JsonValue::Null => r is None,
            JsonValue::Text(s) => r matches Some(t) && t@ == s@,
            _ => false,
        },
    }
}

/// Whether an optional member decodes as an optional list of strings.
pub open spec fn partitions_matches(m: Option<JsonValue>, r: Option<Vec<String>>) -> bool {
    match m {
        None => r is None,
        Some(v) => match v {
            JsonValue::Null => r is None,
            JsonValue::Array(items) => r matches Some(p) && p@.len() == items@.len() && (forall|
                i: int,
            |
                0 <= i < items@.len() ==> ((#[trigger] items@[i]) matches JsonValue::Text(s)
                    && p@[i]@ == s@)),
            _ => false,
        },
    }
}

/// Whether a member holds an unsigned integer no larger than `bound`.
pub open spec fn bounded_number_matches(m: Option<JsonValue>, bound: nat, value: nat) -> bool {
    m matches Some(JsonValue::Number(Some(n))) && n <= bound && value == n
}

/// Whether a duration value decodes to these whole seconds: an object
/// with unsigned `secs` and `nanos` fields, the seconds carried over.
pub open spec fn duration_matches(v: JsonValue, seconds: u64) -> bool {
    &&& v matches JsonValue::Object(ms)
    &&& (member_lookup(v->Object_0@, "secs"@) matches Some(JsonValue::Number(Some(n))) && seconds
        == n)
    &&& bounded_number_matches(
        member_lookup(v->Object_0@, "nanos"@),
        u32::MAX as nat,
        member_nanos_value(v),
    )
}

/// The nanoseconds member of a duration value, where it is an unsigned
/// number.
pub open spec fn member_nanos_value(v: JsonValue) -> nat {
    match member_lookup(v->Object_0@, "nanos"@) {
        Some(JsonValue::Number(Some(n))) => n as nat,
        _ => 0,
    }
}

/// Whether a batch executor value decodes to this executor: the account
/// and the flattened run options.
pub open spec fn slurm_matches(v: JsonValue, e: SlurmExecutor) -> bool {
    &&& v matches JsonValue::Object(ms)
    &&& (member_lookup(v->Object_0@, "account"@) matches Some(JsonValue::Text(s)) && e.account@
        == s@)
    &&& optional_text_matches(
        member_lookup(v->Object_0@, "quality_of_service"@),
        e.options.quality_of_service,
    )
    &&& optional_text_matches(member_lookup(v->Object_0@, "constraint"@), e.options.constraint)
    &&& (member_lookup(v->Object_0@, "runtime"@) matches Some(rt) && duration_matches(
        rt,
        e.options.runtime_seconds,
    ))
    &&& partitions_matches(member_lookup(v->Object_0@, "partitions"@), e.options.partitions)
    &&& bounded_number_matches(
        member_lookup(v->Object_0@, "cpu_count"@),
        u16::MAX as nat,
        e.options.cpu_count as nat,
    )
    &&& bounded_number_matches(
        member_lookup(v->Object_0@, "gpu_count"@),
        u16::MAX as nat,
        e.options.gpu_count as nat,
    )
}

/// Whether an optional executor member decodes to this executor: absent
/// means the plain default; otherwise an object with exactly one member
/// naming the variant.
pub open spec fn executor_matches(m: Option<JsonValue>, e: Executor) -> bool {
    match m {
        None => e is Default,
        Some(v) => {
            &&& v matches JsonValue::Object(ms) && ms@.len() == 1
            &&& (if v->Object_0@[0].0@ == "Default"@ {
                e is Default && v->Object_0@[0].1 is Object
            } else if v->Object_0@[0].0@ == "Slurm"@ {
                e matches Executor::Slurm(s) && slurm_matches(v->Object_0@[0].1, s)
            } else {
                false
            })
        },
    }
}

/// Whether an optional progress member decodes to this declaration:
/// absent or null means none; otherwise the indicator maximum and the
/// pattern.
pub open spec fn progress_matches(m: Option<JsonValue>, r: Option<ProgressScanningInfo>) -> bool {
    match m {
        None => r is None,
        Some(v) => match v {
            JsonValue::Null => r is None,
            JsonValue::Object(ms) => r matches Some(info) && bounded_number_matches(
                member_lookup(ms@, "indicatorMax"@),
                u32::MAX as nat,
                info.indicator_max as nat,
            ) && (member_lookup(ms@, "indicatorRegex"@) matches Some(JsonValue::Text(s))
                && info.indicator_regex_pattern@ == s@),
            _ => false,
        },
    }
}

/// Whether an output value decodes to this output: an object with a
/// string `path`.
pub open spec fn output_matches(v: JsonValue, out: Output) -> bool {
    &&& v matches JsonValue::Object(ms)
    &&& (member_lookup(v->Object_0@, "path"@) matches Some(JsonValue::Text(s)) && out.path@ == s@)
}

/// One-or-many: whether an output slot's value decodes to this list — a
/// list element by element, anything else as the single element of a
/// one-element list.
pub open spec fn output_list_matches(v: JsonValue, list: Vec<Output>) -> bool {
    match v {
        JsonValue::Array(items) => list@.len() == items@.len() && (forall|j: int|
            0 <= j < items@.len() ==> output_matches(#[trigger] items@[j], list@[j])),
        _ => list@.len() == 1 && output_matches(v, list@[0]),
    }
}

/// Whether an input value decodes to this input: an object with a string
/// `path` and a `parentStep`.
pub open spec fn input_matches(v: JsonValue, inp: Input) -> bool
    decreases inp,
{
    &&& v matches JsonValue::Object(ms)
    &&& (member_lookup(v->Object_0@, "path"@) matches Some(JsonValue::Text(s)) && inp.path@ == s@)
    &&& (member_lookup(v->Object_0@, "parentStep"@) matches Some(sv) && step_matches(
        sv,
        inp.parent_step,
    ))
}

/// One-or-many: whether an input slot's value decodes to this list.
pub open spec fn input_list_matches(v: JsonValue, list: Vec<Input>) -> bool
    decreases list,
{
    match v {
        JsonValue::Array(items) => list@.len() == items@.len() && (forall|j: int|
            0 <= j < items@.len() ==> input_matches(#[trigger] items@[j], list@[j])),
        _ => list@.len() == 1 && input_matches(v, list@[0]),
    }
}

/// Whether a step value decodes to this step: required `name`, `outputs`,
/// `log` and `run`; optional `inputs` (defaulting to none), `executor`
/// (defaulting to the plain one) and `progress`; slot mappings in member
/// order, each slot accepting one value or a list.
pub open spec fn step_matches(v: JsonValue, s: Step) -> bool
    decreases s,
{
    &&& v matches JsonValue::Object(ms)
    &&& (member_lookup(v->Object_0@, "name"@) matches Some(JsonValue::Text(t)) && s.name@ == t@)
    &&& (match member_lookup(v->Object_0@, "inputs"@) {
        None => s.inputs@.len() == 0,
        Some(iv) => {
            &&& iv matches JsonValue::Object(slots)
            &&& s.inputs@.len() == iv->Object_0@.len()
            &&& (forall|i: int|
                0 <= i < s.inputs@.len() ==> ((#[trigger] s.inputs@[i]).0@ == iv->Object_0@[i].0@
                    && input_list_matches(iv->Object_0@[i].1, s.inputs@[i].1)))
        },
    })
    &&& (member_lookup(v->Object_0@, "outputs"@) matches Some(ov) && (ov
        matches JsonValue::Object(oslots) && s.outputs@.len() == ov->Object_0@.len() && (forall|
        i: int,
    |
        0 <= i < s.outputs@.len() ==> ((#[trigger] s.outputs@[i]).0@ == ov->Object_0@[i].0@
            && output_list_matches(ov->Object_0@[i].1, s.outputs@[i].1)))))
    &&& executor_matches(member_lookup(v->Object_0@, "executor"@), s.executor)
    &&& (member_lookup(v->Object_0@, "log"@) matches Some(JsonValue::Text(t)) && s.log@ == t@)
    &&& progress_matches(member_lookup(v->Object_0@, "progress"@), s.progress_scanning)
    &&& (member_lookup(v->Object_0@, "run"@) matches Some(JsonValue::Text(t))
        && s.run_binary_path@ == t@)
}

/// Whether a target value decodes to this target: an object with a
/// string `path` and a `parentStep`.
pub open spec fn target_matches(v: JsonValue, t: TargetItem) -> bool
    decreases t,
{
    &&& v matches JsonValue::Object(ms)
    &&& (member_lookup(v->Object_0@, "path"@) matches Some(JsonValue::Text(s)) && t.path@ == s@)
    &&& (member_lookup(v->Object_0@, "parentStep"@) matches Some(sv) && step_matches(
        sv,
        t.parent_step,
    ))
}

/// One-or-many: whether a target group's value decodes to this list.
pub open spec fn target_list_matches(v: JsonValue, list: Vec<TargetItem>) -> bool
    decreases list,
{
    match v {
        JsonValue::Array(items) => list@.len() == items@.len() && (forall|j: int|
            0 <= j < items@.len() ==> target_matches(#[trigger] items@[j], list@[j])),
        _ => list@.len() == 1 && target_matches(v, list@[0]),
    }
}

/// Whether a document decodes to this specification: a mapping of target
/// group names to a target or a list of targets, in member order.
pub open spec fn specification_matches(v: JsonValue, ws: WorkflowSpecification) -> bool
    decreases ws,
{
    &&& v matches JsonValue::Object(groups)
    &&& ws.targets@.len() == v->Object_0@.len()
    &&& (forall|i: int|
        0 <= i < ws.targets@.len() ==> ((#[trigger] ws.targets@[i]).0@ == v->Object_0@[i].0@
            && target_list_matches(v->Object_0@[i].1, ws.targets@[i].1)))
}


/// The looked-up value behind an optional reference.
pub open spec fn opt_val(m: Option<&JsonValue>) -> Option<JsonValue> {
    match m {
        Some(v) => Some(*v),
        None => None,
    }
}

fn decode_output(v: &JsonValue) -> (r: Result<Output, String>)
    ensures
        (r matches Ok(o) ==> output_matches(*v, o)),
        (r is Err ==> forall|o: Output| !output_matches(*v, o)),
{
    proof {
        reveal_strlit("expected an output object with a string `path`");
    }
    match v {
        JsonValue::Object(ms) => {
            let got = crate::json::object_get(ms, "path");
            proof {
                assert(opt_val(got) == member_lookup(ms@, "path"@));
            }
            match got {
                Some(JsonValue::Text(s)) => Ok(Output { path: s.clone() }),
                _ => Err("expected an output object with a string `path`".to_owned()),
            }
        },
        _ => Err("expected an output object with a string `path`".to_owned()),
    }
}

fn decode_output_list(v: &JsonValue) -> (r: Result<Vec<Output>, String>)
    ensures
        (r matches Ok(list) ==> output_list_matches(*v, list)),
        (r is Err ==> forall|list: Vec<Output>| !output_list_matches(*v, list)),
{
    match v {
        JsonValue::Array(items) => {
            let mut acc: Vec<Output> = Vec::new();
            let mut j: usize = 0;
            while j < items.len()
                invariant
                    v matches JsonValue::Array(its) && its == *items,
                    j <= items@.len(),
                    acc@.len() == j,
                    forall|k: int|
                        0 <= k < j ==> output_matches(#[trigger] items@[k], acc@[k]),
                decreases items@.len() - j,
            {
                match decode_output(&items[j]) {
                    Ok(out) => {
                        acc.push(out);
                    },
                    Err(message) => {
                        proof {
                            assert forall|list: Vec<Output>| !output_list_matches(
                                *v,
                                list,
                            ) by {
                                if output_list_matches(*v, list) {
                                    assert(output_matches(items@[j as int], list@[j as int]));
                                }
                            }
                        }
                        return Err(message);
                    },
                }
                j = j + 1;
            }
            Ok(acc)
        },
        _ => {
            match decode_output(v) {
                Ok(out) => {
                    let mut acc: Vec<Output> = Vec::new();
                    acc.push(out);
                    Ok(acc)
                },
                Err(message) => {
                    proof {
                        assert forall|list: Vec<Output>| !output_list_matches(*v, list) by {
                            if output_list_matches(*v, list) {
                                assert(output_matches(*v, list@[0]));
                            }
                        }
                    }
                    Err(message)
                },
            }
        },
    }
}

fn decode_optional_text(m: Option<&JsonValue>) -> (r: Result<Option<String>, String>)
    ensures
        ({
            let spec_m = opt_val(m);
            &&& (r matches Ok(o) ==> optional_text_matches(spec_m, o))
            &&& (r is Err ==> forall|o: Option<String>| !optional_text_matches(spec_m, o))
        }),
{
    proof {
        reveal_strlit("expected a string or null");
    }
    match m {
        None => Ok(None),
        Some(JsonValue::Null) => Ok(None),
        Some(JsonValue::Text(s)) => Ok(Some(s.clone())),
        Some(_) => Err("expected a string or null".to_owned()),
    }
}

fn decode_partitions(m: Option<&JsonValue>) -> (r: Result<Option<Vec<String>>, String>)
    ensures
        ({
            let spec_m = opt_val(m);
            &&& (r matches Ok(o) ==> partitions_matches(spec_m, o))
            &&& (r is Err ==> forall|o: Option<Vec<String>>| !partitions_matches(spec_m, o))
        }),
{
    proof {
        reveal_strlit("expected a list of strings or null");
    }
    match m {
        None => Ok(None),
        Some(JsonValue::Null) => Ok(None),
        Some(JsonValue::Array(items)) => {
            let ghost iv = *m->0;
            let mut acc: Vec<String> = Vec::new();
            let mut j: usize = 0;
            while j < items.len()
                invariant
                    m matches Some(mv) && *mv == iv,
                    iv matches JsonValue::Array(its) && its == *items,
                    j <= items@.len(),
                    acc@.len() == j,
                    forall|k: int|
                        0 <= k < j ==> ((#[trigger] items@[k]) matches JsonValue::Text(s)
                            && acc@[k]@ == s@),
                decreases items@.len() - j,
            {
                match &items[j] {
                    JsonValue::Text(s) => {
                        acc.push(s.clone());
                    },
                    _ => {
                        return Err("expected a list of strings or null".to_owned());
                    },
                }
                j = j + 1;
            }
            Ok(Some(acc))
        },
        Some(_) => Err("expected a list of strings or null".to_owned()),
    }
}

fn decode_bounded_number(m: Option<&JsonValue>, bound: u64) -> (r: Result<u64, String>)
    ensures
        ({
            let spec_m = opt_val(m);
            &&& (r matches Ok(n) ==> n <= bound && bounded_number_matches(
                spec_m,
                bound as nat,
                n as nat,
            ))
            &&& (r is Err ==> forall|n: nat| !bounded_number_matches(spec_m, bound as nat, n))
        }),
{
    proof {
        reveal_strlit("expected an unsigned integer in range");
    }
    match m {
        Some(JsonValue::Number(Some(n))) => {
            if *n <= bound {
                Ok(*n)
            } else {
                Err("expected an unsigned integer in range".to_owned())
            }
        },
        _ => Err("expected an unsigned integer in range".to_owned()),
    }
}

fn decode_duration(v: &JsonValue) -> (r: Result<u64, String>)
    ensures
        (r matches Ok(n) ==> duration_matches(*v, n)),
        (r is Err ==> forall|n: u64| !duration_matches(*v, n)),
{
    proof {
        reveal_strlit("expected a duration object");
    }
    match v {
        JsonValue::Object(ms) => {
            let got_secs = crate::json::object_get(ms, "secs");
            proof {
                assert(opt_val(got_secs) == member_lookup(ms@, "secs"@));
            }
            let seconds = match got_secs {
                Some(JsonValue::Number(Some(n))) => *n,
                _ => {
                    return Err("expected a duration object".to_owned());
                },
            };
            let got_nanos = crate::json::object_get(ms, "nanos");
            proof {
                assert(opt_val(got_nanos) == member_lookup(ms@, "nanos"@));
            }
            match decode_bounded_number(got_nanos, u32::MAX as u64) {
                Ok(_) => Ok(seconds),
                Err(message) => Err(message),
            }
        },
        _ => Err("expected a duration object".to_owned()),
    }
}

fn decode_slurm(v: &JsonValue) -> (r: Result<SlurmExecutor, String>)
    ensures
        (r matches Ok(e) ==> slurm_matches(*v, e)),
        (r is Err ==> forall|e: SlurmExecutor| !slurm_matches(*v, e)),
{
    proof {
        reveal_strlit("expected a batch executor object with a string `account`");
    }
    match v {
        JsonValue::Object(ms) => {
            let got_account = crate::json::object_get(ms, "account");
            proof {
                assert(opt_val(got_account) == member_lookup(ms@, "account"@));
            }
            let account = match got_account {
                Some(JsonValue::Text(s)) => s.clone(),
                _ => {
                    return Err(
                        "expected a batch executor object with a string `account`".to_owned(),
                    );
                },
            };
            let got_qos = crate::json::object_get(ms, "quality_of_service");
            proof {
                assert(opt_val(got_qos) == member_lookup(ms@, "quality_of_service"@));
            }
            let quality_of_service = match decode_optional_text(got_qos) {
                Ok(o) => o,
                Err(message) => {
                    return Err(message);
                },
            };
            let got_constraint = crate::json::object_get(ms, "constraint");
            proof {
                assert(opt_val(got_constraint) == member_lookup(ms@, "constraint"@));
            }
            let constraint = match decode_optional_text(got_constraint) {
                Ok(o) => o,
                Err(message) => {
                    return Err(message);
                },
            };
            let got_runtime = crate::json::object_get(ms, "runtime");
            proof {
                assert(opt_val(got_runtime) == member_lookup(ms@, "runtime"@));
            }
            let runtime_seconds = match got_runtime {
                Some(rt) => match decode_duration(rt) {
                    Ok(n) => n,
                    Err(message) => {
                        return Err(message);
                    },
                },
                None => {
                    proof {
                        reveal_strlit("expected a duration `runtime`");
                    }
                    return Err("expected a duration `runtime`".to_owned());
                },
            };
            let got_partitions = crate::json::object_get(ms, "partitions");
            proof {
                assert(opt_val(got_partitions) == member_lookup(ms@, "partitions"@));
            }
            let partitions = match decode_partitions(got_partitions) {
                Ok(o) => o,
                Err(message) => {
                    return Err(message);
                },
            };
            let got_cpu = crate::json::object_get(ms, "cpu_count");
            proof {
                assert(opt_val(got_cpu) == member_lookup(ms@, "cpu_count"@));
            }
            let cpu_count = match decode_bounded_number(got_cpu, u16::MAX as u64) {
                Ok(n) => n as u16,
                Err(message) => {
                    return Err(message);
                },
            };
            let got_gpu = crate::json::object_get(ms, "gpu_count");
            proof {
                assert(opt_val(got_gpu) == member_lookup(ms@, "gpu_count"@));
            }
            let gpu_count = match decode_bounded_number(got_gpu, u16::MAX as u64) {
                Ok(n) => n as u16,
                Err(message) => {
                    return Err(message);
                },
            };
            Ok(
                SlurmExecutor {
                    account,
                    options: SlurmRunOptions {
                        quality_of_service,
                        constraint,
                        runtime_seconds,
                        partitions,
                        cpu_count,
                        gpu_count,
                    },
                },
            )
        },
        _ => Err("expected a batch executor object with a string `account`".to_owned()),
    }
}

fn decode_executor(m: Option<&JsonValue>) -> (r: Result<Executor, String>)
    ensures
        ({
            let spec_m = opt_val(m);
            &&& (r matches Ok(e) ==> executor_matches(spec_m, e))
            &&& (r is Err ==> forall|e: Executor| !executor_matches(spec_m, e))
        }),
{
    proof {
        reveal_strlit("expected an executor object with exactly one variant member");
    }
    match m {
        None => Ok(Executor::Default(crate::executors::DefaultExecutor {})),
        Some(v) => match v {
            JsonValue::Object(ms) => {
                if ms.len() != 1 {
                    return Err(
                        "expected an executor object with exactly one variant member".to_owned(),
                    );
                }
                if crate::text::str_eq(ms[0].0.as_str(), "Default") {
                    match &ms[0].1 {
                        JsonValue::Object(_) => Ok(
                            Executor::Default(crate::executors::DefaultExecutor {}),
                        ),
                        _ => Err(
                            "expected an executor object with exactly one variant member"
                                .to_owned(),
                        ),
                    }
                } else if crate::text::str_eq(ms[0].0.as_str(), "Slurm") {
                    match decode_slurm(&ms[0].1) {
                        Ok(slurm) => Ok(Executor::Slurm(slurm)),
                        Err(message) => Err(message),
                    }
                } else {
                    Err("expected an executor object with exactly one variant member".to_owned())
                }
            },
            _ => Err("expected an executor object with exactly one variant member".to_owned()),
        },
    }
}

fn decode_progress(m: Option<&JsonValue>) -> (r: Result<Option<ProgressScanningInfo>, String>)
    ensures
        ({
            let spec_m = opt_val(m);
            &&& (r matches Ok(o) ==> progress_matches(spec_m, o))
            &&& (r is Err ==> forall|o: Option<ProgressScanningInfo>| !progress_matches(
                spec_m,
                o,
            ))
        }),
{
    proof {
        reveal_strlit("expected a progress object");
    }
    match m {
        None => Ok(None),
        Some(JsonValue::Null) => Ok(None),
        Some(JsonValue::Object(ms)) => {
            let got_max = crate::json::object_get(ms, "indicatorMax");
            proof {
                assert(opt_val(got_max) == member_lookup(ms@, "indicatorMax"@));
            }
            let indicator_max = match decode_bounded_number(got_max, u32::MAX as u64) {
                Ok(n) => n as u32,
                Err(message) => {
                    return Err(message);
                },
            };
            let got_regex = crate::json::object_get(ms, "indicatorRegex");
            proof {
                assert(opt_val(got_regex) == member_lookup(ms@, "indicatorRegex"@));
            }
            match got_regex {
                Some(JsonValue::Text(s)) => Ok(
                    Some(
                        ProgressScanningInfo {
                            indicator_max,
                            indicator_regex_pattern: s.clone(),
                        },
                    ),
                ),
                _ => {
                    proof {
                        reveal_strlit("expected a string `indicatorRegex`");
                    }
                    Err("expected a string `indicatorRegex`".to_owned())
                },
            }
        },
        Some(_) => Err("expected a progress object".to_owned()),
    }
}


fn decode_input(v: &JsonValue) -> (r: Result<Input, String>)
    ensures
        (r matches Ok(inp) ==> input_matches(*v, inp)),
        (r is Err ==> forall|inp: Input| !input_matches(*v, inp)),
    decreases *v, 0int,
{
    proof {
        reveal_strlit("expected an input object with a string `path` and a `parentStep`");
    }
    let ms = match v {
        JsonValue::Object(ms) => ms,
        _ => {
            return Err(
                "expected an input object with a string `path` and a `parentStep`".to_owned(),
            );
        },
    };
    let got_path = crate::json::object_get(ms, "path");
    proof {
        assert(opt_val(got_path) == member_lookup(ms@, "path"@));
    }
    let path = match got_path {
        Some(JsonValue::Text(s)) => s.clone(),
        _ => {
            return Err(
                "expected an input object with a string `path` and a `parentStep`".to_owned(),
            );
        },
    };
    let got_parent = crate::json::object_get(ms, "parentStep");
    proof {
        assert(opt_val(got_parent) == member_lookup(ms@, "parentStep"@));
    }
    let pv = match got_parent {
        Some(w) => w,
        None => {
            return Err(
                "expected an input object with a string `path` and a `parentStep`".to_owned(),
            );
        },
    };
    proof {
        let t = choose|t: int| 0 <= t < ms@.len() && #[trigger] ms@[t].1 == *pv;
        assert(decreases_to!(*v => *ms));
        assert(decreases_to!(*ms => ms@[t]));
        assert(decreases_to!(ms@[t] => ms@[t].1));
        assert(decreases_to!(*v => *pv));
    }
    match decode_step(pv) {
        Ok(parent_step) => Ok(Input { path, parent_step }),
        Err(message) => {
            proof {
                assert forall|inp: Input| !input_matches(*v, inp) by {
                    if input_matches(*v, inp) {
                        assert(step_matches(*pv, inp.parent_step));
                    }
                }
            }
            Err(message)
        },
    }
}

fn decode_input_list(v: &JsonValue) -> (r: Result<Vec<Input>, String>)
    ensures
        (r matches Ok(list) ==> input_list_matches(*v, list)),
        (r is Err ==> forall|list: Vec<Input>| !input_list_matches(*v, list)),
    decreases *v, 1int,
{
    match v {
        JsonValue::Array(items) => {
            let mut acc: Vec<Input> = Vec::new();
            let mut j: usize = 0;
            while j < items.len()
                invariant
                    v matches JsonValue::Array(its) && its == *items,
                    j <= items@.len(),
                    acc@.len() == j,
                    forall|k: int| 0 <= k < j ==> input_matches(#[trigger] items@[k], acc@[k]),
                decreases items@.len() - j,
            {
                proof {
                    assert(decreases_to!(*v => *items));
                    assert(decreases_to!(*items => items@[j as int]));
                }
                match decode_input(&items[j]) {
                    Ok(inp) => {
                        acc.push(inp);
                    },
                    Err(message) => {
                        proof {
                            assert forall|list: Vec<Input>| !input_list_matches(*v, list) by {
                                if input_list_matches(*v, list) {
                                    assert(input_matches(items@[j as int], list@[j as int]));
                                }
                            }
                        }
                        return Err(message);
                    },
                }
                j = j + 1;
            }
            Ok(acc)
        },
        _ => {
            match decode_input(v) {
                Ok(inp) => {
                    let mut acc: Vec<Input> = Vec::new();
                    acc.push(inp);
                    Ok(acc)
                },
                Err(message) => {
                    proof {
                        assert forall|list: Vec<Input>| !input_list_matches(*v, list) by {
                            if input_list_matches(*v, list) {
                                assert(input_matches(*v, list@[0]));
                            }
                        }
                    }
                    Err(message)
                },
            }
        },
    }
}

fn decode_step(v: &JsonValue) -> (r: Result<Step, String>)
    ensures
        (r matches Ok(s) ==> step_matches(*v, s)),
        (r is Err ==> forall|s: Step| !step_matches(*v, s)),
    decreases *v, 2int,
{
    proof {
        reveal_strlit("expected a step object");
        reveal_strlit("expected a string `name`");
        reveal_strlit("expected `inputs` to map slots to an input or a list of inputs");
        reveal_strlit("expected `outputs` to map slots to an output or a list of outputs");
        reveal_strlit("expected a string `log`");
        reveal_strlit("expected a string `run`");
    }
    let ms = match v {
        JsonValue::Object(ms) => ms,
        _ => {
            return Err("expected a step object".to_owned());
        },
    };
    let got_name = crate::json::object_get(ms, "name");
    proof {
        assert(opt_val(got_name) == member_lookup(ms@, "name"@));
    }
    let name = match got_name {
        Some(JsonValue::Text(s)) => s.clone(),
        _ => {
            return Err("expected a string `name`".to_owned());
        },
    };
    let got_inputs = crate::json::object_get(ms, "inputs");
    proof {
        assert(opt_val(got_inputs) == member_lookup(ms@, "inputs"@));
    }
    let inputs: Vec<(String, Vec<Input>)> = match got_inputs {
        None => Vec::new(),
        Some(iv) => match iv {
            JsonValue::Object(slots) => {
                let ghost iv_spec = *iv;
                let mut acc: Vec<(String, Vec<Input>)> = Vec::new();
                let mut i: usize = 0;
                while i < slots.len()
                    invariant
                        v matches JsonValue::Object(msv) && msv == *ms,
                        iv_spec matches JsonValue::Object(sl) && sl == *slots,
                        member_lookup(ms@, "inputs"@) == Some(iv_spec),
                        exists|t: int| 0 <= t < ms@.len() && #[trigger] ms@[t].1 == iv_spec,
                        i <= slots@.len(),
                        acc@.len() == i,
                        forall|k: int|
                            0 <= k < i ==> ((#[trigger] acc@[k]).0@ == slots@[k].0@
                                && input_list_matches(slots@[k].1, acc@[k].1)),
                    decreases slots@.len() - i,
                {
                    proof {
                        let t = choose|t: int| 0 <= t < ms@.len() && #[trigger] ms@[t].1
                            == iv_spec;
                        assert(decreases_to!(*v => *ms));
                        assert(decreases_to!(*ms => ms@[t]));
                        assert(decreases_to!(ms@[t] => ms@[t].1));
                        assert(decreases_to!(iv_spec => *slots));
                        assert(decreases_to!(*slots => slots@[i as int]));
                        assert(decreases_to!(slots@[i as int] => slots@[i as int].1));
                    }
                    match decode_input_list(&slots[i].1) {
                        Ok(list) => {
                            let slot_name = slots[i].0.clone();
                            acc.push((slot_name, list));
                        },
                        Err(message) => {
                            proof {
                                assert forall|s: Step| !step_matches(*v, s) by {
                                    if step_matches(*v, s) {
                                        assert(input_list_matches(
                                            slots@[i as int].1,
                                            s.inputs@[i as int].1,
                                        ));
                                    }
                                }
                            }
                            return Err(message);
                        },
                    }
                    i = i + 1;
                }
                acc
            },
            _ => {
                return Err(
                    "expected `inputs` to map slots to an input or a list of inputs".to_owned(),
                );
            },
        },
    };
    let got_outputs = crate::json::object_get(ms, "outputs");
    proof {
        assert(opt_val(got_outputs) == member_lookup(ms@, "outputs"@));
    }
    let outputs: Vec<(String, Vec<Output>)> = match got_outputs {
        Some(ov) => match ov {
            JsonValue::Object(oslots) => {
                let ghost ov_spec = *ov;
                let mut acc: Vec<(String, Vec<Output>)> = Vec::new();
                let mut i: usize = 0;
                while i < oslots.len()
                    invariant
                        v matches JsonValue::Object(msv) && msv == *ms,
                        ov_spec matches JsonValue::Object(sl) && sl == *oslots,
                        member_lookup(ms@, "outputs"@) == Some(ov_spec),
                        i <= oslots@.len(),
                        acc@.len() == i,
                        forall|k: int|
                            0 <= k < i ==> ((#[trigger] acc@[k]).0@ == oslots@[k].0@
                                && output_list_matches(oslots@[k].1, acc@[k].1)),
                    decreases oslots@.len() - i,
                {
                    match decode_output_list(&oslots[i].1) {
                        Ok(list) => {
                            let slot_name = oslots[i].0.clone();
                            acc.push((slot_name, list));
                        },
                        Err(message) => {
                            proof {
                                assert forall|s: Step| !step_matches(*v, s) by {
                                    if step_matches(*v, s) {
                                        assert(output_list_matches(
                                            oslots@[i as int].1,
                                            s.outputs@[i as int].1,
                                        ));
                                    }
                                }
                            }
                            return Err(message);
                        },
                    }
                    i = i + 1;
                }
                acc
            },
            _ => {
                return Err(
                    "expected `outputs` to map slots to an output or a list of outputs".to_owned(),
                );
            },
        },
        None => {
            return Err(
                "expected `outputs` to map slots to an output or a list of outputs".to_owned(),
            );
        },
    };
    let got_executor = crate::json::object_get(ms, "executor");
    proof {
        assert(opt_val(got_executor) == member_lookup(ms@, "executor"@));
    }
    let executor = match decode_executor(got_executor) {
        Ok(e) => e,
        Err(message) => {
            return Err(message);
        },
    };
    let got_log = crate::json::object_get(ms, "log");
    proof {
        assert(opt_val(got_log) == member_lookup(ms@, "log"@));
    }
    let log = match got_log {
        Some(JsonValue::Text(s)) => s.clone(),
        _ => {
            return Err("expected a string `log`".to_owned());
        },
    };
    let got_progress = crate::json::object_get(ms, "progress");
    proof {
        assert(opt_val(got_progress) == member_lookup(ms@, "progress"@));
    }
    let progress_scanning = match decode_progress(got_progress) {
        Ok(o) => o,
        Err(message) => {
            return Err(message);
        },
    };
    let got_run = crate::json::object_get(ms, "run");
    proof {
        assert(opt_val(got_run) == member_lookup(ms@, "run"@));
    }
    let run_binary_path = match got_run {
        Some(JsonValue::Text(s)) => s.clone(),
        _ => {
            return Err("expected a string `run`".to_owned());
        },
    };
    Ok(Step { name, inputs, outputs, executor, log, progress_scanning, run_binary_path })
}

fn decode_target(v: &JsonValue) -> (r: Result<TargetItem, String>)
    ensures
        (r matches Ok(t) ==> target_matches(*v, t)),
        (r is Err ==> forall|t: TargetItem| !target_matches(*v, t)),
    decreases *v, 0int,
{
    proof {
        reveal_strlit("expected a target object with a string `path` and a `parentStep`");
    }
    let ms = match v {
        JsonValue::Object(ms) => ms,
        _ => {
            return Err(
                "expected a target object with a string `path` and a `parentStep`".to_owned(),
            );
        },
    };
    let got_path = crate::json::object_get(ms, "path");
    proof {
        assert(opt_val(got_path) == member_lookup(ms@, "path"@));
    }
    let path = match got_path {
        Some(JsonValue::Text(s)) => s.clone(),
        _ => {
            return Err(
                "expected a target object with a string `path` and a `parentStep`".to_owned(),
            );
        },
    };
    let got_parent = crate::json::object_get(ms, "parentStep");
    proof {
        assert(opt_val(got_parent) == member_lookup(ms@, "parentStep"@));
    }
    let pv = match got_parent {
        Some(w) => w,
        None => {
            return Err(
                "expected a target object with a string `path` and a `parentStep`".to_owned(),
            );
        },
    };
    proof {
        let t = choose|t: int| 0 <= t < ms@.len() && #[trigger] ms@[t].1 == *pv;
        assert(decreases_to!(*v => *ms));
        assert(decreases_to!(*ms => ms@[t]));
        assert(decreases_to!(ms@[t] => ms@[t].1));
        assert(decreases_to!(*v => *pv));
    }
    match decode_step(pv) {
        Ok(parent_step) => Ok(TargetItem { path, parent_step }),
        Err(message) => {
            proof {
                assert forall|t: TargetItem| !target_matches(*v, t) by {
                    if target_matches(*v, t) {
                        assert(step_matches(*pv, t.parent_step));
                    }
                }
            }
            Err(message)
        },
    }
}

fn decode_target_list(v: &JsonValue) -> (r: Result<Vec<TargetItem>, String>)
    ensures
        (r matches Ok(list) ==> target_list_matches(*v, list)),
        (r is Err ==> forall|list: Vec<TargetItem>| !target_list_matches(*v, list)),
    decreases *v, 1int,
{
    match v {
        JsonValue::Array(items) => {
            let mut acc: Vec<TargetItem> = Vec::new();
            let mut j: usize = 0;
            while j < items.len()
                invariant
                    v matches JsonValue::Array(its) && its == *items,
                    j <= items@.len(),
                    acc@.len() == j,
                    forall|k: int| 0 <= k < j ==> target_matches(#[trigger] items@[k], acc@[k]),
                decreases items@.len() - j,
            {
                proof {
                    assert(decreases_to!(*v => *items));
                    assert(decreases_to!(*items => items@[j as int]));
                }
                match decode_target(&items[j]) {
                    Ok(t) => {
                        acc.push(t);
                    },
                    Err(message) => {
                        proof {
                            assert forall|list: Vec<TargetItem>| !target_list_matches(
                                *v,
                                list,
                            ) by {
                                if target_list_matches(*v, list) {
                                    assert(target_matches(items@[j as int], list@[j as int]));
                                }
                            }
                        }
                        return Err(message);
                    },
                }
                j = j + 1;
            }
            Ok(acc)
        },
        _ => {
            match decode_target(v) {
                Ok(t) => {
                    let mut acc: Vec<TargetItem> = Vec::new();
                    acc.push(t);
                    Ok(acc)
                },
                Err(message) => {
                    proof {
                        assert forall|list: Vec<TargetItem>| !target_list_matches(*v, list) by {
                            if target_list_matches(*v, list) {
                                assert(target_matches(*v, list@[0]));
                            }
                        }
                    }
                    Err(message)
                },
            }
        },
    }
}

fn decode_specification_value(v: &JsonValue) -> (r: Result<WorkflowSpecification, String>)
    ensures
        (r matches Ok(ws) ==> specification_matches(*v, ws)),
        (r is Err ==> forall|ws: WorkflowSpecification| !specification_matches(*v, ws)),
    decreases *v, 2int,
{
    proof {
        reveal_strlit("expected a mapping of target groups");
    }
    let groups = match v {
        JsonValue::Object(groups) => groups,
        _ => {
            return Err("expected a mapping of target groups".to_owned());
        },
    };
    let mut acc: Vec<(String, Vec<TargetItem>)> = Vec::new();
    let mut i: usize = 0;
    while i < groups.len()
        invariant
            v matches JsonValue::Object(gs) && gs == *groups,
            i <= groups@.len(),
            acc@.len() == i,
            forall|k: int|
                0 <= k < i ==> ((#[trigger] acc@[k]).0@ == groups@[k].0@ && target_list_matches(
                    groups@[k].1,
                    acc@[k].1,
                )),
        decreases groups@.len() - i,
    {
        proof {
            assert(decreases_to!(*v => *groups));
            assert(decreases_to!(*groups => groups@[i as int]));
            assert(decreases_to!(groups@[i as int] => groups@[i as int].1));
        }
        match decode_target_list(&groups[i].1) {
            Ok(list) => {
                let group_name = groups[i].0.clone();
                acc.push((group_name, list));
            },
            Err(message) => {
                proof {
                    assert forall|ws: WorkflowSpecification| !specification_matches(*v, ws) by {
                        if specification_matches(*v, ws) {
                            assert(target_list_matches(groups@[i as int].1, ws.targets@[i as int].1));
                        }
                    }
                }
                return Err(message);
            },
        }
        i = i + 1;
    }
    Ok(WorkflowSpecification { targets: acc })
}

/// Why a specification text was rejected: it is not well-formed JSON (with
/// the position of the failure), or it does not fit the step schema.
pub enum SpecificationParseError {
    Syntax { line: usize, column: usize, message: String },
    Decode { message: String },
}

impl WorkflowSpecification {
    /// Parses a specification text in two phases: a syntax check of the
    /// JSON, then a typed decode against the step schema. Succeeds exactly
    /// on well-formed texts that fit the schema.
    pub fn parse(text: &str) -> (r: Result<WorkflowSpecification, SpecificationParseError>)
        ensures
            (json_document(text@) is None ==> (r matches Err(e) && e is Syntax)),
            (json_document(text@) matches Some(v) ==> ((r matches Ok(ws)
                && specification_matches(v, ws)) || (r matches Err(e) && e is Decode && (forall|
                ws2: WorkflowSpecification,
            | !specification_matches(v, ws2))))),
    {
        match crate::json::parse_json(text) {
            Err(e) => Err(
                SpecificationParseError::Syntax {
                    line: e.line,
                    column: e.column,
                    message: e.message,
                },
            ),
            Ok(document) => match decode_specification_value(&document) {
                Ok(ws) => Ok(ws),
                Err(message) => Err(SpecificationParseError::Decode { message }),
            },
        }
    }
}

/// One-or-many for outputs: a value that is not a list decodes in an
/// output slot exactly as the one-element list holding it does.
pub proof fn lemma_one_or_many_outputs(item: JsonValue, wrapped: Vec<JsonValue>, list: Vec<Output>)
    requires
        !(item is Array),
        wrapped@ == seq![item],
    ensures
        output_list_matches(JsonValue::Array(wrapped), list) <==> output_list_matches(item, list),
{
    assert(wrapped@[0] == item);
    if output_list_matches(JsonValue::Array(wrapped), list) {
        assert(output_matches(wrapped@[0], list@[0]));
    }
    if output_list_matches(item, list) {
        assert forall|j: int| 0 <= j < wrapped@.len() implies output_matches(
            #[trigger] wrapped@[j],
            list@[j],
        ) by {
            assert(j == 0);
        }
    }
}

/// One-or-many for inputs: a value that is not a list decodes in an input
/// slot exactly as the one-element list holding it does.
pub proof fn lemma_one_or_many_inputs(item: JsonValue, wrapped: Vec<JsonValue>, list: Vec<Input>)
    requires
        !(item is Array),
        wrapped@ == seq![item],
    ensures
        input_list_matches(JsonValue::Array(wrapped), list) <==> input_list_matches(item, list),
{
    assert(wrapped@[0] == item);
    if input_list_matches(JsonValue::Array(wrapped), list) {
        assert(input_matches(wrapped@[0], list@[0]));
    }
    if input_list_matches(item, list) {
        assert forall|j: int| 0 <= j < wrapped@.len() implies input_matches(
            #[trigger] wrapped@[j],
            list@[j],
        ) by {
            assert(j == 0);
        }
    }
}

/// One-or-many for targets: a value that is not a list decodes in a
/// target group exactly as the one-element list holding it does.
pub proof fn lemma_one_or_many_targets(
    item: JsonValue,
    wrapped: Vec<JsonValue>,
    list: Vec<TargetItem>,
)
    requires
        !(item is Array),
        wrapped@ == seq![item],
    ensures
        target_list_matches(JsonValue::Array(wrapped), list) <==> target_list_matches(item, list),
{
    assert(wrapped@[0] == item);
    if target_list_matches(JsonValue::Array(wrapped), list) {
        assert(target_matches(wrapped@[0], list@[0]));
    }
    if target_list_matches(item, list) {
        assert forall|j: int| 0 <= j < wrapped@.len() implies target_matches(
            #[trigger] wrapped@[j],
            list@[j],
        ) by {
            assert(j == 0);
        }
    }
}

} // verus!
