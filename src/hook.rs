//! The callback run before each instruction: it enforces the step budget and
//! answers mocked calls with a synthetic return.
use vstd::prelude::*;

use crate::context::RunContext;
use crate::error::RunError;
use crate::machine::{returned_state, MachineState};
use crate::mock::MockPayload;

verus! {

/// A call instruction about to execute, as the engine's operand resolution
/// sees it: the callee's entry offset and the instruction's width in cells.
#[derive(Clone, Copy, Debug, PartialEq, Eq, Structural)]
pub struct CallSite {
    pub target_offset: u64,
    pub width: u64,
}

/// What the engine does with the instruction after the hook ran.
#[derive(Clone, Copy, Debug, PartialEq, Eq, Structural)]
pub enum StepAction {
    /// Execute it as usual.
    Proceed,
    /// Do not execute it: the hook already produced its whole effect.
    SkipInstruction,
}

/// The step count after one more step, or `None` when the budget is spent.
pub open spec fn tick(step_count: u64, step_budget: u64) -> Option<u64> {
    if step_count >= step_budget {
        None
    } else {
        Some((step_count + 1) as u64)
    }
}

/// The mock that answers `call`, if it is a call to a mocked offset.
pub open spec fn intercepted(mocks: Map<u64, MockPayload>, call: Option<CallSite>) -> Option<
    MockPayload,
> {
    match call {
        Some(c) => if mocks.contains_key(c.target_offset) {
            Some(mocks[c.target_offset])
        } else {
            None
        },
        None => None,
    }
}

/// One hook invocation on plain values: the action and the registers and
/// memory the instruction then starts from.
pub open spec fn pre_step_effect(
    step_count: u64,
    step_budget: u64,
    mocks: Map<u64, MockPayload>,
    call: Option<CallSite>,
    pc: u64,
    ap: u64,
    mem: Map<u64, u128>,
) -> Result<(StepAction, u64, u64, Map<u64, u128>), RunError> {
    if tick(step_count, step_budget) is None {
        Err(RunError::StepBudgetExceeded(step_count))
    } else {
        match intercepted(mocks, call) {
            None => Ok((StepAction::Proceed, pc, ap, mem)),
            Some(p) => match returned_state(pc, ap, mem, p, call.unwrap().width) {
                Ok((pc2, ap2, mem2)) => Ok((StepAction::SkipInstruction, pc2, ap2, mem2)),
                Err(e) => Err(e),
            },
        }
    }
}

/// Fails once the run has executed its whole budget of steps.
pub fn ensure_max_steps_not_reached(ctx: &RunContext) -> (r: Result<(), RunError>)
    ensures
        r == (if tick(ctx.step_count, ctx.step_budget) is None {
            Err(RunError::StepBudgetExceeded(ctx.step_count))
        } else {
            Ok(())
        }),
{
    if ctx.step_count >= ctx.step_budget {
        Err(RunError::StepBudgetExceeded(ctx.step_count))
    } else {
        Ok(())
    }
}

/// Runs before each instruction. Stops the run when the step budget is spent;
/// otherwise counts the step and, when the instruction calls a mocked offset,
/// applies the mock's synthetic return and tells the engine to skip the call.
pub fn pre_step_instruction(
    ctx: &mut RunContext,
    machine: &mut MachineState,
    call: Option<CallSite>,
) -> (r: Result<StepAction, RunError>)
    ensures
        final(ctx).output@ == old(ctx).output@,
        final(ctx).revert_expected == old(ctx).revert_expected,
        final(ctx).mocks@ == old(ctx).mocks@,
        final(ctx).step_budget == old(ctx).step_budget,
        final(ctx).step_count == match tick(old(ctx).step_count, old(ctx).step_budget) {
            Some(c) => c,
            None => old(ctx).step_count,
        },
        match pre_step_effect(
            old(ctx).step_count,
            old(ctx).step_budget,
            old(ctx).mocks@,
            call,
            old(machine).pc,
            old(machine).ap,
            old(machine).memory@,
        ) {
            Ok((action, pc, ap, mem)) => {
                &&& r == Ok::<StepAction, RunError>(action)
                &&& final(machine).pc == pc
                &&& final(machine).ap == ap
                &&& final(machine).memory@ == mem
            },
            Err(e) => {
                &&& r == Err::<StepAction, RunError>(e)
                &&& final(machine).pc == old(machine).pc
                &&& final(machine).ap == old(machine).ap
            },
        },
{
    match ensure_max_steps_not_reached(ctx) {
        Ok(()) => {},
        Err(e) => {
            return Err(e);
        },
    }
    ctx.step_count = ctx.step_count + 1;
    let site = match call {
        Some(c) => c,
        None => {
            return Ok(StepAction::Proceed);
        },
    };
    let payload = match ctx.mocks.get(site.target_offset) {
        Some(p) => p,
        None => {
            return Ok(StepAction::Proceed);
        },
    };
    match machine.synthetic_return(payload, site.width) {
        Ok(()) => Ok(StepAction::SkipInstruction),
        Err(e) => Err(e),
    }
}

/// Runs after each instruction; it has nothing to do.
pub fn post_step_instruction(ctx: &RunContext, machine: &MachineState) -> (r: Result<(), RunError>)
    ensures
        r is Ok,
{
    Ok(())
}

/// Without mocks the hook is transparent: within the budget it lets every
/// instruction, calls included, execute from unchanged registers and memory.
pub proof fn lemma_hook_transparent_without_mocks(
    step_count: u64,
    step_budget: u64,
    call: Option<CallSite>,
    pc: u64,
    ap: u64,
    mem: Map<u64, u128>,
)
    requires
        step_count < step_budget,
    ensures
        pre_step_effect(step_count, step_budget, Map::empty(), call, pc, ap, mem) == Ok::<
            (StepAction, u64, u64, Map<u64, u128>),
            RunError,
        >((StepAction::Proceed, pc, ap, mem)),
{
}

/// A call to an offset mocked with the scalar `v` is never executed: the
/// engine skips the instruction, the caller finds exactly `v` in the cell its
/// result is read from, `ap` and `pc` move past the result and the call, and
/// no other cell changes.
pub proof fn lemma_mocked_call_returns_value(
    step_count: u64,
    step_budget: u64,
    mocks: Map<u64, MockPayload>,
    call: CallSite,
    v: u128,
    pc: u64,
    ap: u64,
    mem: Map<u64, u128>,
)
    requires
        step_count < step_budget,
        mocks.contains_key(call.target_offset),
        mocks[call.target_offset] == MockPayload::Scalar(v),
        !mem.contains_key(ap) || mem[ap] == v,
        pc + call.width <= u64::MAX,
        ap + 1 <= u64::MAX,
    ensures
        pre_step_effect(step_count, step_budget, mocks, Some(call), pc, ap, mem) == Ok::<
            (StepAction, u64, u64, Map<u64, u128>),
            RunError,
        >((StepAction::SkipInstruction, (pc + call.width) as u64, (ap + 1) as u64, mem.insert(ap, v))),
        mem.insert(ap, v)[ap] == v,
        forall|a: u64| a != ap ==> mem.insert(ap, v).contains_key(a) == mem.contains_key(a),
{
}

/// The step count after `n` hook invocations from `step_count`, or `None`
/// if one of them found the budget spent.
pub open spec fn ticks(step_count: u64, step_budget: u64, n: nat) -> Option<u64>
    decreases n,
{
    if n == 0 {
        Some(step_count)
    } else {
        match ticks(step_count, step_budget, (n - 1) as nat) {
            Some(c) => tick(c, step_budget),
            None => None,
        }
    }
}

/// A run that never ends by itself, started with a budget of `budget` steps,
/// executes exactly `budget` steps: the first `budget` invocations of the hook
/// let their instruction run, and the next one stops the run, reporting
/// `budget` executed steps, whatever instruction and mocks it meets.
pub proof fn lemma_budget_is_exact(
    budget: u64,
    n: nat,
    mocks: Map<u64, MockPayload>,
    call: Option<CallSite>,
    pc: u64,
    ap: u64,
    mem: Map<u64, u128>,
)
    ensures
        n <= budget ==> ticks(0, budget, n) == Some(n as u64),
        n > budget ==> ticks(0, budget, n) is None,
        pre_step_effect(budget, budget, mocks, call, pc, ap, mem) == Err::<
            (StepAction, u64, u64, Map<u64, u128>),
            RunError,
        >(RunError::StepBudgetExceeded(budget)),
    decreases n,
{
    if n > 0 {
        lemma_budget_is_exact(budget, (n - 1) as nat, mocks, call, pc, ap, mem);
    }
}

} // verus!
