use cairo_foundry::context::{RunContext, RunRegistry};
use cairo_foundry::dispatch::{execute_hint, prepare_hint, Binding};
use cairo_foundry::error::RunError;
use cairo_foundry::hook::{
    ensure_max_steps_not_reached, post_step_instruction, pre_step_instruction, CallSite,
    StepAction,
};
use cairo_foundry::machine::MachineState;
use cairo_foundry::mock::{MockEntry, MockPayload, MockTable};
use cairo_foundry::outcome::{classify, TestStatus};

#[test]
fn no_mocks_leaves_every_step_alone() {
    let mut ctx = RunContext::new(100);
    let mut m = MachineState::new(10, 50);
    m.insert_value(3, 9).unwrap();
    for call in [None, Some(CallSite { target_offset: 4, width: 2 })] {
        assert_eq!(Ok(StepAction::Proceed), pre_step_instruction(&mut ctx, &mut m, call));
        assert_eq!((10, 50), (m.pc, m.ap));
        assert_eq!(1, m.memory.len());
    }
    assert_eq!(2, ctx.step_count);
    assert_eq!(Ok(()), post_step_instruction(&ctx, &m));
}

#[test]
fn mocked_call_returns_value_without_running() {
    // mocked() { return (1); } at offset 7; the test mocks it with 42, calls it
    // and asserts that it got 42
    let mut ctx = RunContext::new(1000000);
    let bindings = vec![Binding { name: "mocked".to_string(), value: 7 }];
    let inv = prepare_hint("mock_call(mocked, 42)");
    execute_hint(&inv, &bindings, &mut ctx).unwrap();
    let mut m = MachineState::new(20, 100);
    let call = Some(CallSite { target_offset: 7, width: 2 });
    assert_eq!(Ok(StepAction::SkipInstruction), pre_step_instruction(&mut ctx, &mut m, call));
    assert_eq!(22, m.pc);
    assert_eq!(101, m.ap);
    assert_eq!(Some(42), m.get_value(100));
    assert_eq!(1, m.memory.len());
    let x = m.get_value(m.ap - 1).unwrap();
    let result = if x == 42 { Ok(()) } else { Err(RunError::Engine("assert failed".to_string())) };
    let outcome = classify(&result, ctx);
    assert_eq!(TestStatus::SUCCESS, outcome.status);
}

#[test]
fn other_calls_still_run() {
    let mut ctx = RunContext::new(10);
    ctx.mocks.insert(MockEntry { target_offset: 7, payload: MockPayload::Scalar(1) });
    let mut m = MachineState::new(0, 0);
    let call = Some(CallSite { target_offset: 8, width: 2 });
    assert_eq!(Ok(StepAction::Proceed), pre_step_instruction(&mut ctx, &mut m, call));
    assert_eq!((0, 0), (m.pc, m.ap));
}

#[test]
fn vector_mock_copies_values() {
    let mut ctx = RunContext::new(10);
    ctx.mocks.insert(MockEntry { target_offset: 7, payload: MockPayload::Vector { length: 3, source: 200 } });
    let mut m = MachineState::new(30, 100);
    for (i, v) in [11u128, 12, 13].iter().enumerate() {
        m.insert_value(200 + i as u64, *v).unwrap();
    }
    let call = Some(CallSite { target_offset: 7, width: 1 });
    assert_eq!(Ok(StepAction::SkipInstruction), pre_step_instruction(&mut ctx, &mut m, call));
    assert_eq!((31, 103), (m.pc, m.ap));
    assert_eq!(
        vec![Some(11), Some(12), Some(13)],
        vec![m.get_value(100), m.get_value(101), m.get_value(102)]
    );
}

#[test]
fn synthetic_return_errors() {
    let mut m = MachineState::new(0, 5);
    m.insert_value(5, 1).unwrap();
    assert_eq!(Err(RunError::MemoryConflict(5)), m.synthetic_return(MockPayload::Scalar(2), 2));
    assert_eq!((0, 5), (m.pc, m.ap));
    assert_eq!(Ok(()), m.synthetic_return(MockPayload::Scalar(1), 2));
    let mut m = MachineState::new(0, 5);
    assert_eq!(
        Err(RunError::UnsetMemory(40)),
        m.synthetic_return(MockPayload::Vector { length: 2, source: 40 }, 2)
    );
    let mut m = MachineState::new(u64::MAX - 1, 5);
    assert_eq!(Err(RunError::AddressOverflow), m.synthetic_return(MockPayload::Scalar(1), 2));
    let mut m = MachineState::new(0, 5);
    assert_eq!(Err(RunError::MemoryConflict(5)), m.insert_value(5, 3).and(m.insert_value(5, 4)));
}

#[test]
fn infinite_loop_stops_after_exactly_the_budget() {
    let mut ctx = RunContext::new(1000);
    let mut m = MachineState::new(0, 0);
    let mut executed: u64 = 0;
    let result = loop {
        match pre_step_instruction(&mut ctx, &mut m, None) {
            Ok(_) => executed += 1,
            Err(e) => break Err(e),
        }
        if executed > 5000 {
            break Ok(());
        }
    };
    assert_eq!(1000, executed);
    assert_eq!(Err(RunError::StepBudgetExceeded(1000)), result);
    assert_eq!(Err(RunError::StepBudgetExceeded(1000)), ensure_max_steps_not_reached(&ctx));
    let outcome = classify(&result, ctx);
    assert_eq!(TestStatus::FAILURE, outcome.status);
    assert_eq!("max_steps reached: 1000", outcome.message);
}

#[test]
fn budget_beats_expected_revert() {
    let mut ctx = RunContext::new(0);
    ctx.revert_expected = true;
    let mut m = MachineState::new(0, 0);
    let result = pre_step_instruction(&mut ctx, &mut m, None).map(|_| ());
    assert_eq!(TestStatus::FAILURE, classify(&result, ctx).status);
}

#[test]
fn buffers_do_not_mix() {
    let mut reg = RunRegistry::new();
    reg.init_buffer(1);
    reg.begin(2, 50);
    reg.write_to_output_buffer(1, "a1 ");
    reg.write_to_output_buffer(2, "b1 ");
    reg.write_to_output_buffer(1, "a2");
    reg.write_to_output_buffer(3, "lost");
    assert_eq!(Some(String::from("a1 a2")), reg.get_buffer(1));
    assert_eq!(Some(String::from("b1 ")), reg.get_buffer(2));
    assert_eq!(None, reg.get_buffer(3));
    let ctx = reg.end(2).unwrap();
    assert_eq!("b1 ", ctx.output);
    assert_eq!(50, ctx.step_budget);
    reg.clear_buffer(1);
    assert_eq!(None, reg.get_buffer(1));
    assert!(reg.end(1).is_none());
}

#[test]
fn mock_table_replaces_per_offset() {
    let mut t = MockTable::new();
    assert!(t.is_empty());
    t.insert(MockEntry { target_offset: 1, payload: MockPayload::Scalar(1) });
    t.insert(MockEntry { target_offset: 2, payload: MockPayload::Scalar(2) });
    t.insert(MockEntry { target_offset: 1, payload: MockPayload::Scalar(3) });
    assert_eq!(2, t.len());
    assert_eq!(Some(MockPayload::Scalar(3)), t.get(1));
    assert_eq!(None, t.get(9));
}
