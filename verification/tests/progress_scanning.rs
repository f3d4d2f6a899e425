use nixflow::progress::{parse_u32, split_lines, ProgressScanError, ProgressScanner, ProgressScanningInfo};

fn scanner(max: u32, pattern: &str) -> Result<ProgressScanner, ProgressScanError> {
    ProgressScanner::new(&ProgressScanningInfo {
        indicator_max: max,
        indicator_regex_pattern: pattern.to_string(),
    })
}

#[test]
fn progress_reports_maximum_matched_value() {
    let sc = match scanner(100, r"processed (\d+) items") {
        Ok(sc) => sc,
        Err(_) => panic!("pattern must compile"),
    };
    let log = "processed 10 items\nprocessed 40 items\nprocessed 25 items\n";
    match sc.read_progress(log) {
        Ok(value) => assert_eq!(value, 40),
        Err(_) => panic!("scan must succeed"),
    }
}

#[test]
fn progress_without_matches_reports_zero() {
    let sc = match scanner(100, r"processed (\d+) items") {
        Ok(sc) => sc,
        Err(_) => panic!("pattern must compile"),
    };
    match sc.read_progress("starting up\nno counters here\n") {
        Ok(value) => assert_eq!(value, 0),
        Err(_) => panic!("scan must succeed"),
    }
}

#[test]
fn progress_on_empty_log_reports_zero() {
    let sc = match scanner(10, r"(\d+)") {
        Ok(sc) => sc,
        Err(_) => panic!("pattern must compile"),
    };
    match sc.read_progress("") {
        Ok(value) => assert_eq!(value, 0),
        Err(_) => panic!("scan must succeed"),
    }
}

#[test]
fn wrong_capture_group_count_is_rejected() {
    match scanner(100, r"processed (\d+) of (\d+)") {
        Err(ProgressScanError::InvalidCaptureGroupCount { count, .. }) => assert_eq!(count, 3),
        _ => panic!("two capture groups must be rejected"),
    }
    match scanner(100, r"no groups here") {
        Err(ProgressScanError::InvalidCaptureGroupCount { count, .. }) => assert_eq!(count, 1),
        _ => panic!("zero capture groups must be rejected"),
    }
}

#[test]
fn bad_pattern_is_a_compilation_failure() {
    match scanner(100, r"unclosed (") {
        Err(ProgressScanError::CompilationFailure(_)) => {}
        _ => panic!("an invalid pattern must fail compilation"),
    }
}

#[test]
fn non_integer_capture_names_the_offending_line() {
    let sc = match scanner(100, r"progress: (\w+)") {
        Ok(sc) => sc,
        Err(_) => panic!("pattern must compile"),
    };
    match sc.read_progress("progress: 12\nprogress: lots\n") {
        Err(ProgressScanError::NonIntegerMatch { line, capture_match, .. }) => {
            assert_eq!(line, "progress: lots");
            assert_eq!(capture_match, "lots");
        }
        _ => panic!("a non-integer capture must be reported"),
    }
}

#[test]
fn progress_value_can_overwrite_with_smaller_numbers() {
    let sc = match scanner(1000, r"count=(\d+)") {
        Ok(sc) => sc,
        Err(_) => panic!("pattern must compile"),
    };
    match sc.read_progress("count=900\ncount=5\n") {
        Ok(value) => assert_eq!(value, 900),
        Err(_) => panic!("scan must succeed"),
    }
}

#[test]
fn parse_u32_accepts_plain_and_signed_numerals() {
    assert_eq!(parse_u32("0"), Some(0));
    assert_eq!(parse_u32("42"), Some(42));
    assert_eq!(parse_u32("+42"), Some(42));
    assert_eq!(parse_u32("4294967295"), Some(4294967295));
    assert_eq!(parse_u32("4294967296"), None);
    assert_eq!(parse_u32(""), None);
    assert_eq!(parse_u32("+"), None);
    assert_eq!(parse_u32("12a"), None);
    assert_eq!(parse_u32("-1"), None);
}

#[test]
fn split_lines_matches_line_iterator_semantics() {
    let strings = |parts: &[&str]| parts.iter().map(|p| p.to_string()).collect::<Vec<String>>();
    assert_eq!(split_lines("a\nb\nc"), strings(&["a", "b", "c"]));
    assert_eq!(split_lines("a\nb\n"), strings(&["a", "b"]));
    assert_eq!(split_lines("a\r\nb"), strings(&["a", "b"]));
    assert_eq!(split_lines(""), Vec::<String>::new());
    assert_eq!(split_lines("\n"), strings(&[""]));
    assert_eq!(split_lines("a\rb"), strings(&["a\rb"]));
}
