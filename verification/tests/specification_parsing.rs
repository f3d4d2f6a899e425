use nixflow::executors::Executor;
use nixflow::specification::{SpecificationParseError, WorkflowSpecification};

fn step_json(name: &str, inputs: &str, output_path: &str) -> String {
    format!(
        r#"{{"name":"{}","{}outputs":{{"main":{{"path":"{}"}}}},"log":"/tmp/{}.log","run":"/bin/{}"}}"#,
        name,
        if inputs.is_empty() { String::new() } else { format!("inputs\":{},\"", inputs) },
        output_path,
        name,
        name
    )
}

#[test]
fn parse_accepts_a_minimal_specification() {
    let step = step_json("A", "", "/tmp/a.out");
    let text = format!(r#"{{"all":{{"path":"/tmp/a.out","parentStep":{}}}}}"#, step);
    let spec = match WorkflowSpecification::parse(&text) {
        Ok(spec) => spec,
        Err(_) => panic!("a well-formed specification must parse"),
    };
    assert_eq!(spec.targets.len(), 1);
    assert_eq!(spec.targets[0].0, "all");
    assert_eq!(spec.targets[0].1.len(), 1);
    let step = &spec.targets[0].1[0].parent_step;
    assert_eq!(step.name, "A");
    assert_eq!(step.log, "/tmp/A.log");
    assert_eq!(step.run_binary_path, "/bin/A");
    assert!(step.inputs.is_empty());
    assert_eq!(step.outputs.len(), 1);
    assert_eq!(step.outputs[0].0, "main");
    assert_eq!(step.outputs[0].1.len(), 1);
    assert_eq!(step.outputs[0].1[0].path, "/tmp/a.out");
    assert!(matches!(step.executor, Executor::Default(_)));
    assert!(step.progress_scanning.is_none());
}

#[test]
fn single_target_equals_one_element_target_list() {
    let step = step_json("A", "", "/tmp/a.out");
    let single = format!(r#"{{"all":{{"path":"/tmp/a.out","parentStep":{}}}}}"#, step);
    let listed = format!(r#"{{"all":[{{"path":"/tmp/a.out","parentStep":{}}}]}}"#, step);
    let a = WorkflowSpecification::parse(&single);
    let b = WorkflowSpecification::parse(&listed);
    match (a, b) {
        (Ok(a), Ok(b)) => {
            assert_eq!(a.targets.len(), b.targets.len());
            assert_eq!(a.targets[0].1.len(), b.targets[0].1.len());
            assert_eq!(a.targets[0].1[0].path, b.targets[0].1[0].path);
            assert_eq!(a.targets[0].1[0].parent_step.name, b.targets[0].1[0].parent_step.name);
        }
        _ => panic!("both forms must parse"),
    }
}

#[test]
fn single_output_equals_one_element_output_list() {
    let single = step_json("A", "", "/tmp/a.out");
    let listed = single.replace(
        r#"{"main":{"path":"/tmp/a.out"}}"#,
        r#"{"main":[{"path":"/tmp/a.out"}]}"#,
    );
    let wrap = |s: &str| format!(r#"{{"all":{{"path":"/tmp/a.out","parentStep":{}}}}}"#, s);
    let a = WorkflowSpecification::parse(&wrap(&single));
    let b = WorkflowSpecification::parse(&wrap(&listed));
    match (a, b) {
        (Ok(a), Ok(b)) => {
            let sa = &a.targets[0].1[0].parent_step;
            let sb = &b.targets[0].1[0].parent_step;
            assert_eq!(sa.outputs.len(), sb.outputs.len());
            assert_eq!(sa.outputs[0].1.len(), sb.outputs[0].1.len());
            assert_eq!(sa.outputs[0].1[0].path, sb.outputs[0].1[0].path);
        }
        _ => panic!("both forms must parse"),
    }
}

#[test]
fn single_input_equals_one_element_input_list() {
    let parent = step_json("A", "", "/tmp/a.out");
    let single_inputs = format!(r#"{{"dep":{{"path":"/tmp/a.out","parentStep":{}}}}}"#, parent);
    let listed_inputs = format!(r#"{{"dep":[{{"path":"/tmp/a.out","parentStep":{}}}]}}"#, parent);
    let b_single = step_json("B", &single_inputs, "/tmp/b.out");
    let b_listed = step_json("B", &listed_inputs, "/tmp/b.out");
    let wrap = |s: &str| format!(r#"{{"all":{{"path":"/tmp/b.out","parentStep":{}}}}}"#, s);
    let a = WorkflowSpecification::parse(&wrap(&b_single));
    let b = WorkflowSpecification::parse(&wrap(&b_listed));
    match (a, b) {
        (Ok(a), Ok(b)) => {
            let sa = &a.targets[0].1[0].parent_step;
            let sb = &b.targets[0].1[0].parent_step;
            assert_eq!(sa.inputs.len(), 1);
            assert_eq!(sb.inputs.len(), 1);
            assert_eq!(sa.inputs[0].1.len(), sb.inputs[0].1.len());
            assert_eq!(sa.inputs[0].1[0].path, sb.inputs[0].1[0].path);
            assert_eq!(sa.inputs[0].1[0].parent_step.name, sb.inputs[0].1[0].parent_step.name);
        }
        _ => panic!("both forms must parse"),
    }
}

#[test]
fn malformed_json_reports_syntax_position() {
    match WorkflowSpecification::parse("{\"all\": ") {
        Err(SpecificationParseError::Syntax { line, .. }) => assert!(line >= 1),
        _ => panic!("truncated JSON must be a syntax error"),
    }
}

#[test]
fn missing_outputs_is_a_decode_error() {
    let text = r#"{"all":{"path":"/x","parentStep":{"name":"A","log":"/l","run":"/r"}}}"#;
    match WorkflowSpecification::parse(text) {
        Err(SpecificationParseError::Decode { .. }) => {}
        _ => panic!("a step without outputs must be rejected"),
    }
}

#[test]
fn progress_declaration_is_decoded() {
    let head = r#"{"name":"A","outputs":{"main":{"path":"/tmp/a.out"}},"log":"/tmp/a.log","#;
    let tail = r#""progress":{"indicatorMax":100,"indicatorRegex":"done (\\d+)"},"run":"/bin/a"}"#;
    let step = format!("{}{}", head, tail);
    let text = format!(r#"{{"all":{{"path":"/tmp/a.out","parentStep":{}}}}}"#, step);
    let spec = match WorkflowSpecification::parse(&text) {
        Ok(spec) => spec,
        Err(_) => panic!("a step with progress must parse"),
    };
    let info = match &spec.targets[0].1[0].parent_step.progress_scanning {
        Some(info) => info,
        None => panic!("the progress declaration must be kept"),
    };
    assert_eq!(info.indicator_max, 100);
    assert_eq!(info.indicator_regex_pattern, "done (\\d+)");
}

#[test]
fn slurm_executor_is_decoded() {
    let head = r#"{"name":"A","outputs":{"main":{"path":"/tmp/a.out"}},"log":"/tmp/a.log","#;
    let mid = r#""executor":{"Slurm":{"account":"acct","runtime":{"secs":3661,"nanos":0},"#;
    let tail = r#""partitions":["p1","p2"],"cpu_count":4,"gpu_count":1}},"run":"/bin/a"}"#;
    let step = format!("{}{}{}", head, mid, tail);
    let text = format!(r#"{{"all":{{"path":"/tmp/a.out","parentStep":{}}}}}"#, step);
    let spec = match WorkflowSpecification::parse(&text) {
        Ok(spec) => spec,
        Err(_) => panic!("a batch step must parse"),
    };
    match &spec.targets[0].1[0].parent_step.executor {
        Executor::Slurm(slurm) => {
            assert_eq!(slurm.account, "acct");
            assert_eq!(slurm.options.runtime_seconds, 3661);
            assert_eq!(slurm.options.cpu_count, 4);
            assert_eq!(slurm.options.gpu_count, 1);
            assert!(slurm.options.quality_of_service.is_none());
            match &slurm.options.partitions {
                Some(p) => assert_eq!(p.len(), 2),
                None => panic!("partitions must be kept"),
            }
        }
        _ => panic!("the batch executor must be decoded"),
    }
}

#[test]
fn step_info_flattens_paths() {
    let parent = step_json("A", "", "/tmp/a.out");
    let inputs = format!(r#"{{"dep":{{"path":"/tmp/a.out","parentStep":{}}}}}"#, parent);
    let b = step_json("B", &inputs, "/tmp/b.out");
    let text = format!(r#"{{"all":{{"path":"/tmp/b.out","parentStep":{}}}}}"#, b);
    let spec = match WorkflowSpecification::parse(&text) {
        Ok(spec) => spec,
        Err(_) => panic!("the specification must parse"),
    };
    let info = spec.targets[0].1[0].parent_step.info();
    assert_eq!(info.name, "B");
    assert_eq!(info.inputs, vec!["/tmp/a.out".to_string()]);
    assert_eq!(info.outputs, vec!["/tmp/b.out".to_string()]);
    assert_eq!(info.log, "/tmp/B.log");
}
