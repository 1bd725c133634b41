//! Running a parsed annotation: the native handlers and their arguments.
use vstd::prelude::*;

use crate::context::RunContext;
use crate::error::RunError;
use crate::hint::{compile_hint, compiled_as, strings_view, Code};
use crate::mock::{MockEntry, MockPayload};
use crate::text::str_eq;

verus! {

/// An annotation as the engine keeps it: its parsed form and its text.
pub struct HintInvocation {
    pub code: Code,
    pub source: String,
}

/// Parses an annotation once, for every later execution of it.
pub fn prepare_hint(hint_code: &str) -> (r: HintInvocation)
    ensures
        compiled_as(hint_code@, r.code),
        r.source@ == hint_code@,
{
    HintInvocation { code: compile_hint(hint_code), source: hint_code.to_string() }
}

/// A variable visible at the annotation, with the value the engine read for it.
pub struct Binding {
    pub name: String,
    pub value: u128,
}

/// The native handlers.
#[derive(Clone, Copy, Debug, PartialEq, Eq, Structural)]
pub enum HintKind {
    Skip,
    ExpectRevert,
    MockCall,
    MockCallFelt,
}

pub open spec fn kind_of(name: Seq<char>) -> Option<HintKind> {
    if name == "skip"@ {
        Some(HintKind::Skip)
    } else if name == "expect_revert"@ {
        Some(HintKind::ExpectRevert)
    } else if name == "mock_call"@ {
        Some(HintKind::MockCall)
    } else if name == "mock_call_felt"@ {
        Some(HintKind::MockCallFelt)
    } else {
        None
    }
}

/// The handler registered under `name`.
pub fn resolve_hint(name: &str) -> (r: Option<HintKind>)
    ensures
        r == kind_of(name@),
{
    if str_eq(name, "skip") {
        Some(HintKind::Skip)
    } else if str_eq(name, "expect_revert") {
        Some(HintKind::ExpectRevert)
    } else if str_eq(name, "mock_call") {
        Some(HintKind::MockCall)
    } else if str_eq(name, "mock_call_felt") {
        Some(HintKind::MockCallFelt)
    } else {
        None
    }
}

pub open spec fn is_digit(c: char) -> bool {
    '0' <= c && c <= '9'
}

/// `s` is a non-empty run of decimal digits.
pub open spec fn is_decimal(s: Seq<char>) -> bool {
    s.len() > 0 && forall|k: int| 0 <= k < s.len() ==> is_digit(s[k])
}

/// The number that the digits of `s` spell.
pub open spec fn decimal_value(s: Seq<char>) -> nat
    decreases s.len(),
{
    if s.len() == 0 {
        0
    } else {
        decimal_value(s.drop_last()) * 10 + (s.last() as nat - '0' as nat) as nat
    }
}

proof fn lemma_decimal_value_grows(s: Seq<char>, i: int)
    requires
        0 <= i <= s.len(),
        forall|k: int| 0 <= k < s.len() ==> is_digit(s[k]),
    ensures
        decimal_value(s.subrange(0, i)) <= decimal_value(s),
    decreases s.len() - i,
{
    if i < s.len() {
        lemma_decimal_value_grows(s, i + 1);
        assert(s.subrange(0, i + 1).drop_last() =~= s.subrange(0, i));
    } else {
        assert(s.subrange(0, i) =~= s);
    }
}

/// The value of a decimal literal, if it is one and fits in 128 bits.
pub fn parse_decimal(s: &str) -> (r: Option<u128>)
    ensures
        r == (if is_decimal(s@) && decimal_value(s@) <= u128::MAX {
            Some(decimal_value(s@) as u128)
        } else {
            None
        }),
{
    let n = s.unicode_len();
    if n == 0 {
        return None;
    }
    let mut i: usize = 0;
    let mut v: u128 = 0;
    while i < n
        invariant
            n == s@.len(),
            i <= n,
            forall|k: int| 0 <= k < i ==> is_digit(s@[k]),
            v == decimal_value(s@.subrange(0, i as int)),
        decreases n - i,
    {
        let c = s.get_char(i);
        if !('0' <= c && c <= '9') {
            return None;
        }
        let d = (c as u32 - '0' as u32) as u128;
        proof {
            assert(s@.subrange(0, i + 1).drop_last() =~= s@.subrange(0, i as int));
        }
        if v > (u128::MAX - d) / 10 {
            proof {
                let lim = (u128::MAX - d) / 10;
                assert(v * 10 + d > u128::MAX) by (nonlinear_arith)
                    requires
                        v > lim,
                        lim == (u128::MAX - d) / 10,
                        d <= 9,
                ;
                if is_decimal(s@) {
                    lemma_decimal_value_grows(s@, i + 1);
                }
            }
            return None;
        }
        v = v * 10 + d;
        i = i + 1;
    }
    assert(s@.subrange(0, n as int) =~= s@);
    Some(v)
}

/// The value `bindings` give `name`; a later binding hides an earlier one.
pub open spec fn lookup(bindings: Seq<Binding>, name: Seq<char>) -> Option<u128>
    decreases bindings.len(),
{
    if bindings.len() == 0 {
        None
    } else if bindings.last().name@ == name {
        Some(bindings.last().value)
    } else {
        lookup(bindings.drop_last(), name)
    }
}

/// The value of an argument: the binding it names, else the decimal literal
/// it spells.
pub open spec fn arg_value(bindings: Seq<Binding>, token: Seq<char>) -> Option<u128> {
    match lookup(bindings, token) {
        Some(v) => Some(v),
        None => if is_decimal(token) && decimal_value(token) <= u128::MAX {
            Some(decimal_value(token) as u128)
        } else {
            None
        },
    }
}

/// Resolves one argument against the bindings.
pub fn resolve_arg(token: &str, bindings: &Vec<Binding>) -> (r: Option<u128>)
    ensures
        r == arg_value(bindings@, token@),
{
    let mut i: usize = bindings.len();
    assert(bindings@.subrange(0, i as int) =~= bindings@);
    while i > 0
        invariant
            i <= bindings@.len(),
            lookup(bindings@, token@) == lookup(bindings@.subrange(0, i as int), token@),
        decreases i,
    {
        proof {
            assert(bindings@.subrange(0, i as int).drop_last() =~= bindings@.subrange(0, i - 1));
        }
        if str_eq(bindings[i - 1].name.as_str(), token) {
            return Some(bindings[i - 1].value);
        }
        i = i - 1;
    }
    parse_decimal(token)
}

/// The mock that a `mock_call` (scalar) or `mock_call_felt` (vector)
/// annotation with arguments `args` registers, if its arguments resolve and
/// the offsets and length fit in 64 bits.
pub open spec fn requested_mock(felt: bool, args: Seq<Seq<char>>, bindings: Seq<Binding>) -> Option<
    MockEntry,
> {
    if !felt {
        if args.len() == 2 && arg_value(bindings, args[0]) is Some && arg_value(bindings, args[1]) is Some
            && arg_value(bindings, args[0]).unwrap() <= u64::MAX {
            Some(
                MockEntry {
                    target_offset: arg_value(bindings, args[0]).unwrap() as u64,
                    payload: MockPayload::Scalar(arg_value(bindings, args[1]).unwrap()),
                },
            )
        } else {
            None
        }
    } else {
        if args.len() == 3 && arg_value(bindings, args[0]) is Some && arg_value(bindings, args[1]) is Some
            && arg_value(bindings, args[2]) is Some && arg_value(bindings, args[0]).unwrap()
            <= u64::MAX && arg_value(bindings, args[1]).unwrap() <= u64::MAX && arg_value(
            bindings,
            args[2],
        ).unwrap() <= u64::MAX {
            Some(
                MockEntry {
                    target_offset: arg_value(bindings, args[0]).unwrap() as u64,
                    payload: MockPayload::Vector {
                        length: arg_value(bindings, args[1]).unwrap() as u64,
                        source: arg_value(bindings, args[2]).unwrap() as u64,
                    },
                },
            )
        } else {
            None
        }
    }
}

fn resolve_offset(token: &String, bindings: &Vec<Binding>) -> (r: Option<u64>)
    ensures
        r == (match arg_value(bindings@, token@) {
            Some(v) => if v <= u64::MAX {
                Some(v as u64)
            } else {
                None
            },
            None => None,
        }),
{
    match resolve_arg(token.as_str(), bindings) {
        Some(v) => if v <= u64::MAX as u128 {
            Some(v as u64)
        } else {
            None
        },
        None => None,
    }
}

/// Reads the mock that a `mock_call` or `mock_call_felt` annotation asks for.
pub fn mock_request(felt: bool, args: &Vec<String>, bindings: &Vec<Binding>) -> (r: Option<
    MockEntry,
>)
    ensures
        r == requested_mock(felt, strings_view(args@), bindings@),
{
    proof {
        assert(strings_view(args@).len() == args@.len());
    }
    if !felt {
        if args.len() != 2 {
            return None;
        }
        proof {
            assert(strings_view(args@)[0] == args@[0]@);
            assert(strings_view(args@)[1] == args@[1]@);
        }
        let target = match resolve_offset(&args[0], bindings) {
            Some(t) => t,
            None => {
                return None;
            },
        };
        let value = match resolve_arg(args[1].as_str(), bindings) {
            Some(v) => v,
            None => {
                return None;
            },
        };
        Some(MockEntry { target_offset: target, payload: MockPayload::Scalar(value) })
    } else {
        if args.len() != 3 {
            return None;
        }
        proof {
            assert(strings_view(args@)[0] == args@[0]@);
            assert(strings_view(args@)[1] == args@[1]@);
            assert(strings_view(args@)[2] == args@[2]@);
        }
        let target = match resolve_offset(&args[0], bindings) {
            Some(t) => t,
            None => {
                return None;
            },
        };
        let length = match resolve_offset(&args[1], bindings) {
            Some(t) => t,
            None => {
                return None;
            },
        };
        let source = match resolve_offset(&args[2], bindings) {
            Some(t) => t,
            None => {
                return None;
            },
        };
        Some(
            MockEntry {
                target_offset: target,
                payload: MockPayload::Vector { length, source },
            },
        )
    }
}

/// What the engine does after an annotation ran.
#[derive(Clone, Copy, Debug, PartialEq, Eq, Structural)]
pub enum HintAction {
    /// A native handler ran; nothing is left to do.
    Done,
    /// Not a call: the engine evaluates the text with its own evaluator.
    Delegate,
}

/// Runs one annotation against the run's context.
///
/// Text that is not a call is handed back to the engine. A call names one of
/// the handlers: `skip()` stops the run with the skip signal,
/// `expect_revert()` marks the run as meant to fail, `mock_call(f, v)` and
/// `mock_call_felt(f, length, values)` register a mock for the callee at
/// offset `f`. Any other name fails with `UnknownHint` and the annotation's
/// text; unusable arguments fail with `InvalidHintArguments` and the
/// handler's name. A failed annotation leaves the context as it was.
pub fn execute_hint(inv: &HintInvocation, bindings: &Vec<Binding>, ctx: &mut RunContext) -> (r:
    Result<HintAction, RunError>)
    ensures
        final(ctx).output@ == old(ctx).output@,
        final(ctx).step_count == old(ctx).step_count,
        final(ctx).step_budget == old(ctx).step_budget,
        match inv.code {
            Code::RawCode(_) => {
                &&& r == Ok::<HintAction, RunError>(HintAction::Delegate)
                &&& final(ctx).revert_expected == old(ctx).revert_expected
                &&& final(ctx).mocks@ == old(ctx).mocks@
            },
            Code::Function(name, args) => match kind_of(name@) {
                None => {
                    &&& r matches Err(RunError::UnknownHint(t)) && t@ == inv.source@
                    &&& final(ctx).revert_expected == old(ctx).revert_expected
                    &&& final(ctx).mocks@ == old(ctx).mocks@
                },
                Some(HintKind::Skip) => {
                    &&& r == Err::<HintAction, RunError>(RunError::Skip)
                    &&& final(ctx).revert_expected == old(ctx).revert_expected
                    &&& final(ctx).mocks@ == old(ctx).mocks@
                },
                Some(HintKind::ExpectRevert) => {
                    &&& r == Ok::<HintAction, RunError>(HintAction::Done)
                    &&& final(ctx).revert_expected
                    &&& final(ctx).mocks@ == old(ctx).mocks@
                },
                Some(kind) => {
                    &&& final(ctx).revert_expected == old(ctx).revert_expected
                    &&& match requested_mock(
                        kind == HintKind::MockCallFelt,
                        strings_view(args@),
                        bindings@,
                    ) {
                        Some(entry) => {
                            &&& r == Ok::<HintAction, RunError>(HintAction::Done)
                            &&& final(ctx).mocks@ == old(ctx).mocks@.insert(
                                entry.target_offset,
                                entry.payload,
                            )
                        },
                        None => {
                            &&& r matches Err(RunError::InvalidHintArguments(t)) && t@ == name@
                            &&& final(ctx).mocks@ == old(ctx).mocks@
                        },
                    }
                },
            },
        },
{
    match &inv.code {
        Code::RawCode(_) => Ok(HintAction::Delegate),
        Code::Function(name, args) => match resolve_hint(name.as_str()) {
            None => Err(RunError::UnknownHint(inv.source.clone())),
            Some(HintKind::Skip) => Err(RunError::Skip),
            Some(HintKind::ExpectRevert) => {
                ctx.revert_expected = true;
                Ok(HintAction::Done)
            },
            Some(kind) => {
                let felt = match kind {
                    HintKind::MockCallFelt => true,
                    _ => false,
                };
                match mock_request(felt, args, bindings) {
                    Some(entry) => {
                        ctx.mocks.insert(entry);
                        Ok(HintAction::Done)
                    },
                    None => Err(RunError::InvalidHintArguments(name.clone())),
                }
            },
        },
    }
}

/// The annotation `print(ids.a > ids.b)`: writes `true` or `false`, whether
/// `a > b`, and a newline to the run's output.
pub fn greater_than(ctx: &mut RunContext, a: u128, b: u128)
    ensures
        final(ctx).output@ == old(ctx).output@ + (if a > b {
            "true\n"@
        } else {
            "false\n"@
        }),
        final(ctx).revert_expected == old(ctx).revert_expected,
        final(ctx).mocks@ == old(ctx).mocks@,
        final(ctx).step_count == old(ctx).step_count,
        final(ctx).step_budget == old(ctx).step_budget,
{
    if a > b {
        ctx.write_output("true\n");
    } else {
        ctx.write_output("false\n");
    }
}

} // verus!
