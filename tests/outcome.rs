use cairo_foundry::context::RunContext;
use cairo_foundry::error::RunError;
use cairo_foundry::text::decimal;
use cairo_foundry::outcome::{
    classify, report_entrypoint, summarize_file, TestOutcome, TestResult, TestStatus,
};

fn ctx(revert: bool, output: &str) -> RunContext {
    let mut c = RunContext::new(100);
    c.revert_expected = revert;
    c.write_output(output);
    c
}

#[test]
fn skip_first_is_skipped_with_no_output() {
    let o = classify(&Err(RunError::Skip), ctx(false, ""));
    assert_eq!(TestStatus::SKIPPED, o.status);
    assert_eq!("", o.captured_output);
    let o = classify(&Err(RunError::Skip), ctx(true, ""));
    assert_eq!(TestStatus::SKIPPED, o.status);
}

#[test]
fn expected_revert_turns_failure_into_success() {
    let o = classify(&Err(RunError::Engine("assert 2 = 3".to_string())), ctx(true, ""));
    assert_eq!(TestStatus::SUCCESS, o.status);
    assert_eq!("reverted as expected: assert 2 = 3", o.message);
    let o = classify(&Ok(()), ctx(true, ""));
    assert_eq!(TestStatus::FAILURE, o.status);
    assert!(o.message.contains("did not revert"));
}

#[test]
fn plain_runs() {
    let o = classify(&Ok(()), ctx(false, "true\n"));
    assert_eq!(TestStatus::SUCCESS, o.status);
    assert_eq!("true\n", o.captured_output);
    let o = classify(&Err(RunError::UnknownHint("x(1)".to_string())), ctx(false, "kept"));
    assert_eq!(TestStatus::FAILURE, o.status);
    assert_eq!("unknown hint: x(1)", o.message);
    assert_eq!("kept", o.captured_output);
}

#[test]
fn error_messages() {
    assert_eq!("inconsistent memory at address 12", RunError::MemoryConflict(12).message());
    assert_eq!("unknown value at address 0", RunError::UnsetMemory(0).message());
    assert_eq!("address out of range", RunError::AddressOverflow.message());
    assert_eq!("invalid arguments for hint mock_call", RunError::InvalidHintArguments("mock_call".to_string()).message());
    assert_eq!("18446744073709551615", decimal(u64::MAX));
    assert_eq!("0", decimal(0));
    assert_eq!("1000", decimal(1000));
}

#[test]
fn entrypoint_reports() {
    let ok = TestOutcome { status: TestStatus::SUCCESS, message: "ok".to_string(), captured_output: String::new() };
    assert_eq!("[OK] test_a (1ms)\n", report_entrypoint("test_a", &ok, "1ms").output);
    let failed = TestOutcome {
        status: TestStatus::FAILURE,
        message: "boom".to_string(),
        captured_output: "true\n".to_string(),
    };
    let r = report_entrypoint("test_b", &failed, "1ms");
    assert_eq!("[FAILED] test_b\nError: boom\n\n[captured stdout]:\ntrue\n", r.output);
    assert_eq!(TestStatus::FAILURE, r.success);
    let skipped = TestOutcome { status: TestStatus::SKIPPED, message: "skipped".to_string(), captured_output: String::new() };
    assert_eq!("[SKIPPED] test_c\n", report_entrypoint("test_c", &skipped, "0ms").output);
}

#[test]
fn file_summary() {
    let results = vec![
        TestResult::from((String::from("a\n"), TestStatus::SUCCESS)),
        TestResult::from((String::from("b\n"), TestStatus::SKIPPED)),
    ];
    let r = summarize_file("t/test_x.cairo", &results);
    assert_eq!("Running tests in file t/test_x.cairo\na\nb\n", r.output);
    assert_eq!(TestStatus::SUCCESS, r.success);
    let results = vec![
        TestResult::from((String::from("a\n"), TestStatus::FAILURE)),
        TestResult::from((String::from("b\n"), TestStatus::SUCCESS)),
    ];
    assert_eq!(TestStatus::FAILURE, summarize_file("f", &results).success);
    assert_eq!(TestStatus::SUCCESS, summarize_file("f", &vec![]).success);
}
