use cairo_foundry::context::RunContext;
use cairo_foundry::dispatch::{
    execute_hint, parse_decimal, prepare_hint, resolve_arg, resolve_hint, Binding, HintAction,
    HintKind,
};
use cairo_foundry::error::RunError;
use cairo_foundry::hint::{compile_hint, Code};
use cairo_foundry::mock::{MockEntry, MockPayload};
use cairo_foundry::text::{split_commas, trim_str};

fn binding(name: &str, value: u128) -> Binding {
    Binding { name: name.to_string(), value }
}

#[test]
fn unbalanced_text_stays_raw() {
    let text = "expect_revert)'This should revert'(";
    match compile_hint(text) {
        Code::RawCode(raw) => assert_eq!(text, raw),
        Code::Function(..) => panic!("parsed as a call"),
    }
}

#[test]
fn bare_name_stays_raw() {
    match compile_hint("expect_revert") {
        Code::RawCode(raw) => assert_eq!("expect_revert", raw),
        Code::Function(..) => panic!("parsed as a call"),
    }
}

#[test]
fn call_gives_name_and_trimmed_args() {
    match compile_hint("expect_revert(arg0, arg1, arg2)") {
        Code::Function(name, args) => {
            assert_eq!("expect_revert", name);
            assert_eq!(vec!["arg0", "arg1", "arg2"], args);
        },
        Code::RawCode(_) => panic!("not parsed as a call"),
    }
    match compile_hint("  \t mock_call( f ,42 )\n") {
        Code::Function(name, args) => {
            assert_eq!("mock_call", name);
            assert_eq!(vec!["f", "42"], args);
        },
        Code::RawCode(_) => panic!("not parsed as a call"),
    }
    match compile_hint("skip()") {
        Code::Function(name, args) => {
            assert_eq!("skip", name);
            assert!(args.is_empty());
        },
        Code::RawCode(_) => panic!("not parsed as a call"),
    }
}

#[test]
fn non_identifier_names_stay_raw() {
    let text = " memory[ap] = ids.a ";
    assert!(matches!(compile_hint("ids.x = f(1)"), Code::RawCode(_)));
    assert!(matches!(compile_hint("1f(a)"), Code::RawCode(_)));
    assert!(matches!(compile_hint("(a)"), Code::RawCode(_)));
    match compile_hint(text) {
        Code::RawCode(raw) => assert_eq!(text, raw),
        Code::Function(..) => panic!("parsed as a call"),
    }
}

#[test]
fn text_helpers() {
    assert_eq!("a b", trim_str("\u{3000}\t a b \n\u{a0}"));
    assert_eq!("", trim_str("   "));
    assert_eq!(vec!["a", " b", "", "c "], split_commas("a, b,,c "));
    assert_eq!(vec![""], split_commas(""));
}

#[test]
fn handler_names_resolve() {
    assert_eq!(Some(HintKind::Skip), resolve_hint("skip"));
    assert_eq!(Some(HintKind::ExpectRevert), resolve_hint("expect_revert"));
    assert_eq!(Some(HintKind::MockCall), resolve_hint("mock_call"));
    assert_eq!(Some(HintKind::MockCallFelt), resolve_hint("mock_call_felt"));
    assert_eq!(None, resolve_hint("mock"));
}

#[test]
fn arguments_resolve_by_binding_then_literal() {
    let bindings = vec![binding("x", 5), binding("y", 6), binding("x", 7)];
    assert_eq!(Some(7), resolve_arg("x", &bindings));
    assert_eq!(Some(6), resolve_arg("y", &bindings));
    assert_eq!(Some(42), resolve_arg("42", &bindings));
    assert_eq!(None, resolve_arg("z", &bindings));
    assert_eq!(Some(u128::MAX), parse_decimal("340282366920938463463374607431768211455"));
    assert_eq!(None, parse_decimal("340282366920938463463374607431768211456"));
    assert_eq!(None, parse_decimal("4a"));
    assert_eq!(None, parse_decimal(""));
}

#[test]
fn raw_code_is_delegated() {
    let mut ctx = RunContext::new(10);
    let inv = prepare_hint("memory[ap] = 1");
    assert_eq!(Ok(HintAction::Delegate), execute_hint(&inv, &vec![], &mut ctx));
    let inv = prepare_hint("print(ids.a > ids.b)");
    assert_eq!(
        Err(RunError::UnknownHint(String::from("print(ids.a > ids.b)"))),
        execute_hint(&inv, &vec![], &mut ctx)
    );
}

#[test]
fn unknown_hint_reports_its_text() {
    let mut ctx = RunContext::new(10);
    let inv = prepare_hint("not_a_hint(1)");
    match execute_hint(&inv, &vec![], &mut ctx) {
        Err(RunError::UnknownHint(text)) => assert_eq!("not_a_hint(1)", text),
        _ => panic!("expected an unknown hint"),
    }
    assert!(!ctx.revert_expected);
    assert!(ctx.mocks.is_empty());
}

#[test]
fn skip_signals_and_changes_nothing() {
    let mut ctx = RunContext::new(10);
    let inv = prepare_hint("skip()");
    assert!(matches!(execute_hint(&inv, &vec![], &mut ctx), Err(RunError::Skip)));
    assert!(ctx.output.is_empty());
    assert!(!ctx.revert_expected);
}

#[test]
fn expect_revert_sets_the_flag() {
    let mut ctx = RunContext::new(10);
    let inv = prepare_hint("expect_revert()");
    assert_eq!(Ok(HintAction::Done), execute_hint(&inv, &vec![], &mut ctx));
    assert!(ctx.revert_expected);
}

#[test]
fn mock_call_registers_scalar_and_later_wins() {
    let mut ctx = RunContext::new(10);
    let bindings = vec![binding("func_to_mock", 7), binding("mock_ret_value", 42)];
    let inv = prepare_hint("mock_call(func_to_mock, mock_ret_value)");
    assert_eq!(Ok(HintAction::Done), execute_hint(&inv, &bindings, &mut ctx));
    assert_eq!(Some(MockPayload::Scalar(42)), ctx.mocks.get(7));
    let inv = prepare_hint("mock_call_felt(func_to_mock, 3, 200)");
    assert_eq!(Ok(HintAction::Done), execute_hint(&inv, &bindings, &mut ctx));
    assert_eq!(Some(MockPayload::Vector { length: 3, source: 200 }), ctx.mocks.get(7));
    assert_eq!(1, ctx.mocks.len());
}

#[test]
fn mock_call_with_bad_arguments_fails() {
    let mut ctx = RunContext::new(10);
    let inv = prepare_hint("mock_call(f)");
    match execute_hint(&inv, &vec![], &mut ctx) {
        Err(RunError::InvalidHintArguments(name)) => assert_eq!("mock_call", name),
        _ => panic!("expected invalid arguments"),
    }
    let inv = prepare_hint("mock_call(unknown, 1)");
    assert!(matches!(
        execute_hint(&inv, &vec![], &mut ctx),
        Err(RunError::InvalidHintArguments(_))
    ));
    let inv = prepare_hint("mock_call(18446744073709551616, 1)");
    assert!(matches!(
        execute_hint(&inv, &vec![], &mut ctx),
        Err(RunError::InvalidHintArguments(_))
    ));
    assert!(ctx.mocks.is_empty());
    let _ = MockEntry { target_offset: 1, payload: MockPayload::Scalar(1) };
}
