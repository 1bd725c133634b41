//! Turning how a run ended into a test outcome, and the report of a file.
use vstd::prelude::*;

use crate::context::RunContext;
use crate::error::RunError;
use crate::text::{decimal, decimal_text};

verus! {

/// Outcome of one test entrypoint.
#[derive(Clone, Copy, Debug, PartialEq, Eq, Structural)]
pub enum TestStatus {
    SUCCESS,
    FAILURE,
    SKIPPED,
}

/// The classified end of one entrypoint's run.
pub struct TestOutcome {
    pub status: TestStatus,
    /// Why the run got this status.
    pub message: String,
    /// What annotations wrote during the run.
    pub captured_output: String,
}

/// The report of one or more tests, and whether they passed.
pub struct TestResult {
    pub output: String,
    pub success: TestStatus,
}

impl TestResult {
    pub fn from(from: (String, TestStatus)) -> (r: TestResult)
        ensures
            r.output@ == from.0@,
            r.success == from.1,
    {
        TestResult { output: from.0, success: from.1 }
    }
}

/// The status a run gets from how it ended and whether it was meant to fail.
/// The skip signal always means skipped, and an exhausted step budget always
/// means failure; otherwise a run passes when it ends as it was meant to.
pub open spec fn status_of(result: Result<(), RunError>, revert_expected: bool) -> TestStatus {
    match result {
        Err(RunError::Skip) => TestStatus::SKIPPED,
        Err(RunError::StepBudgetExceeded(_)) => TestStatus::FAILURE,
        Ok(()) => if revert_expected {
            TestStatus::FAILURE
        } else {
            TestStatus::SUCCESS
        },
        Err(_) => if revert_expected {
            TestStatus::SUCCESS
        } else {
            TestStatus::FAILURE
        },
    }
}

/// The text that describes `e` in reports.
pub open spec fn error_message(e: RunError) -> Seq<char> {
    match e {
        RunError::Skip => "skip"@,
        RunError::StepBudgetExceeded(n) => "max_steps reached: "@ + decimal_text(n as nat),
        RunError::UnknownHint(t) => "unknown hint: "@ + t@,
        RunError::InvalidHintArguments(t) => "invalid arguments for hint "@ + t@,
        RunError::MemoryConflict(a) => "inconsistent memory at address "@ + decimal_text(a as nat),
        RunError::UnsetMemory(a) => "unknown value at address "@ + decimal_text(a as nat),
        RunError::AddressOverflow => "address out of range"@,
        RunError::Engine(m) => m@,
    }
}

impl RunError {
    /// A description of the error, for reports.
    pub fn message(&self) -> (r: String)
        ensures
            r@ == error_message(*self),
    {
        match self {
            RunError::Skip => String::from_str("skip"),
            RunError::StepBudgetExceeded(n) => {
                let mut s = String::from_str("max_steps reached: ");
                s.append(decimal(*n).as_str());
                s
            },
            RunError::UnknownHint(t) => {
                let mut s = String::from_str("unknown hint: ");
                s.append(t.as_str());
                s
            },
            RunError::InvalidHintArguments(t) => {
                let mut s = String::from_str("invalid arguments for hint ");
                s.append(t.as_str());
                s
            },
            RunError::MemoryConflict(a) => {
                let mut s = String::from_str("inconsistent memory at address ");
                s.append(decimal(*a).as_str());
                s
            },
            RunError::UnsetMemory(a) => {
                let mut s = String::from_str("unknown value at address ");
                s.append(decimal(*a).as_str());
                s
            },
            RunError::AddressOverflow => String::from_str("address out of range"),
            RunError::Engine(m) => m.clone(),
        }
    }
}

/// The message a run gets with its status.
pub open spec fn message_of(result: Result<(), RunError>, revert_expected: bool) -> Seq<char> {
    match result {
        Err(RunError::Skip) => "skipped"@,
        Err(RunError::StepBudgetExceeded(n)) => error_message(RunError::StepBudgetExceeded(n)),
        Ok(()) => if revert_expected {
            "execution did not revert while revert was expected"@
        } else {
            "ok"@
        },
        Err(e) => if revert_expected {
            "reverted as expected: "@ + error_message(e)
        } else {
            error_message(e)
        },
    }
}

/// Classifies how a run ended, given its final context, whose output becomes
/// the outcome's captured output whatever the status.
pub fn classify(result: &Result<(), RunError>, ctx: RunContext) -> (r: TestOutcome)
    ensures
        r.status == status_of(*result, ctx.revert_expected),
        r.message@ == message_of(*result, ctx.revert_expected),
        r.captured_output@ == ctx.output@,
{
    let revert = ctx.revert_expected;
    let (status, message) = match result {
        Err(RunError::Skip) => (TestStatus::SKIPPED, String::from_str("skipped")),
        Err(RunError::StepBudgetExceeded(n)) => (TestStatus::FAILURE, RunError::StepBudgetExceeded(*n).message()),
        Ok(()) => if revert {
            (
                TestStatus::FAILURE,
                String::from_str("execution did not revert while revert was expected"),
            )
        } else {
            (TestStatus::SUCCESS, String::from_str("ok"))
        },
        Err(e) => if revert {
            let mut s = String::from_str("reverted as expected: ");
            s.append(e.message().as_str());
            (TestStatus::SUCCESS, s)
        } else {
            (TestStatus::FAILURE, e.message())
        },
    };
    TestOutcome { status, message, captured_output: ctx.output }
}

/// A run that ended with the skip signal is skipped, with the message
/// `skipped`, whether or not a revert was expected.
pub proof fn lemma_skip_wins(revert_expected: bool)
    ensures
        status_of(Err(RunError::Skip), revert_expected) == TestStatus::SKIPPED,
        message_of(Err(RunError::Skip), revert_expected) == "skipped"@,
{
}

/// With `expect_revert()`, a run that fails passes, unless it was stopped by
/// the skip signal or the step budget; a run that does not fail fails with a
/// message saying that it did not revert.
pub proof fn lemma_expected_revert(e: RunError)
    ensures
        !e.is_harness_signal() ==> status_of(Err(e), true) == TestStatus::SUCCESS,
        status_of(Ok(()), true) == TestStatus::FAILURE,
        contains(message_of(Ok(()), true), "did not revert"@),
{
    reveal_strlit("execution did not revert while revert was expected");
    reveal_strlit("did not revert");
    let msg = message_of(Ok(()), true);
    let needle = "did not revert"@;
    assert(msg.subrange(10, 10 + needle.len() as int) =~= needle);
}

/// A run stopped by its step budget fails, whether or not a revert was
/// expected: the budget is the harness's limit, not a revert of the program.
pub proof fn lemma_budget_exhaustion_fails(steps: u64, revert_expected: bool)
    ensures
        status_of(Err(RunError::StepBudgetExceeded(steps)), revert_expected) == TestStatus::FAILURE,
        message_of(Err(RunError::StepBudgetExceeded(steps)), revert_expected) == "max_steps reached: "@
            + decimal_text(steps as nat),
{
}

/// `needle` occurs in `s`.
pub open spec fn contains(s: Seq<char>, needle: Seq<char>) -> bool {
    exists|i: int| 0 <= i && i + needle.len() <= s.len() && #[trigger] s.subrange(i, i + needle.len()) == needle
}

/// The report line(s) of one entrypoint, followed by what it wrote.
pub open spec fn report_text(
    name: Seq<char>,
    status: TestStatus,
    message: Seq<char>,
    captured: Seq<char>,
    elapsed: Seq<char>,
) -> Seq<char> {
    let head = match status {
        TestStatus::SUCCESS => "[OK] "@ + name + " ("@ + elapsed + ")\n"@,
        TestStatus::SKIPPED => "[SKIPPED] "@ + name + "\n"@,
        TestStatus::FAILURE => "[FAILED] "@ + name + "\nError: "@ + message + "\n\n"@,
    };
    if captured.len() == 0 {
        head
    } else {
        head + "[captured stdout]:\n"@ + captured
    }
}

/// Reports the outcome of the entrypoint `name`, which ran for `elapsed`.
pub fn report_entrypoint(name: &str, outcome: &TestOutcome, elapsed: &str) -> (r: TestResult)
    ensures
        r.success == outcome.status,
        r.output@ == report_text(
            name@,
            outcome.status,
            outcome.message@,
            outcome.captured_output@,
            elapsed@,
        ),
{
    let mut out = String::new();
    match outcome.status {
        TestStatus::SUCCESS => {
            out.append("[OK] ");
            out.append(name);
            out.append(" (");
            out.append(elapsed);
            out.append(")\n");
        },
        TestStatus::SKIPPED => {
            out.append("[SKIPPED] ");
            out.append(name);
            out.append("\n");
        },
        TestStatus::FAILURE => {
            out.append("[FAILED] ");
            out.append(name);
            out.append("\nError: ");
            out.append(outcome.message.as_str());
            out.append("\n\n");
        },
    }
    if outcome.captured_output.as_str().unicode_len() > 0 {
        out.append("[captured stdout]:\n");
        out.append(outcome.captured_output.as_str());
    }
    proof {
        let e = Seq::<char>::empty();
        assert(e + "[OK] "@ =~= "[OK] "@);
        assert(e + "[SKIPPED] "@ =~= "[SKIPPED] "@);
        assert(e + "[FAILED] "@ =~= "[FAILED] "@);
    }
    TestResult { output: out, success: outcome.status }
}

/// The reports of `results`, joined in order.
pub open spec fn joined_output(results: Seq<TestResult>) -> Seq<char>
    decreases results.len(),
{
    if results.len() == 0 {
        Seq::empty()
    } else {
        joined_output(results.drop_last()) + results.last().output@
    }
}

/// A file fails when one of its entrypoints failed; skipped ones do not fail it.
pub open spec fn file_status(results: Seq<TestResult>) -> TestStatus {
    if exists|i: int| 0 <= i < results.len() && #[trigger] results[i].success == TestStatus::FAILURE {
        TestStatus::FAILURE
    } else {
        TestStatus::SUCCESS
    }
}

/// The report of the test file at `path`, from the reports of its entrypoints.
pub fn summarize_file(path: &str, results: &Vec<TestResult>) -> (r: TestResult)
    ensures
        r.output@ == "Running tests in file "@ + path@ + "\n"@ + joined_output(results@),
        r.success == file_status(results@),
{
    let mut out = String::from_str("Running tests in file ");
    out.append(path);
    out.append("\n");
    let ghost head = out@;
    let mut status = TestStatus::SUCCESS;
    let mut i: usize = 0;
    while i < results.len()
        invariant
            i <= results@.len(),
            out@ == head + joined_output(results@.subrange(0, i as int)),
            status == file_status(results@.subrange(0, i as int)),
        decreases results@.len() - i,
    {
        proof {
            let p = results@.subrange(0, i + 1);
            assert(p.drop_last() =~= results@.subrange(0, i as int));
            if file_status(results@.subrange(0, i as int)) == TestStatus::FAILURE {
                let k = choose|k: int|
                    0 <= k < i && #[trigger] results@.subrange(0, i as int)[k].success
                        == TestStatus::FAILURE;
                assert(p[k].success == TestStatus::FAILURE);
            }
            if results@[i as int].success == TestStatus::FAILURE {
                assert(p[i as int].success == TestStatus::FAILURE);
            }
            if file_status(p) == TestStatus::FAILURE {
                let k = choose|k: int| 0 <= k < i + 1 && #[trigger] p[k].success == TestStatus::FAILURE;
                if k < i {
                    assert(results@.subrange(0, i as int)[k].success == TestStatus::FAILURE);
                }
            }
        }
        out.append(results[i].output.as_str());
        if results[i].success == TestStatus::FAILURE {
            status = TestStatus::FAILURE;
        }
        i = i + 1;
    }
    proof {
        assert(results@.subrange(0, results@.len() as int) =~= results@);
        assert(head + joined_output(results@) =~= "Running tests in file "@ + path@ + "\n"@
            + joined_output(results@));
    }
    TestResult { output: out, success: status }
}

} // verus!
