//! Per-run state, and the table of runs in progress keyed by run token.
use vstd::prelude::*;
use std::collections::HashMap;

use crate::mock::MockTable;

verus! {

broadcast use vstd::std_specs::hash::group_hash_axioms;

/// The mutable state of one entrypoint's run.
pub struct RunContext {
    /// Text written by annotations during the run.
    pub output: String,
    /// Set by `expect_revert()`: the run is meant to fail.
    pub revert_expected: bool,
    /// Calls to intercept.
    pub mocks: MockTable,
    /// Steps executed so far.
    pub step_count: u64,
    /// Steps the run may execute before it is stopped.
    pub step_budget: u64,
}

impl RunContext {
    /// A fresh context: empty output, no expectation, no mocks, no steps.
    pub fn new(step_budget: u64) -> (r: RunContext)
        ensures
            r.output@ == Seq::<char>::empty(),
            !r.revert_expected,
            r.mocks@ == Map::<u64, crate::mock::MockPayload>::empty(),
            r.step_count == 0,
            r.step_budget == step_budget,
    {
        RunContext {
            output: String::new(),
            revert_expected: false,
            mocks: MockTable::new(),
            step_count: 0,
            step_budget,
        }
    }

    /// Appends `data` to the run's output.
    pub fn write_output(&mut self, data: &str)
        ensures
            final(self).output@ == old(self).output@ + data@,
            final(self).revert_expected == old(self).revert_expected,
            final(self).mocks@ == old(self).mocks@,
            final(self).step_count == old(self).step_count,
            final(self).step_budget == old(self).step_budget,
    {
        self.output.append(data);
    }
}

/// The output buffers of the runs in progress, by token.
pub open spec fn buffers_of(runs: Map<u128, RunContext>) -> Map<u128, Seq<char>> {
    Map::new(|t: u128| runs.contains_key(t), |t: u128| runs[t].output@)
}

/// Buffers after appending `data` under `token`; no change if it is unknown.
pub open spec fn append_to(bufs: Map<u128, Seq<char>>, token: u128, data: Seq<char>) -> Map<
    u128,
    Seq<char>,
> {
    if bufs.contains_key(token) {
        bufs.insert(token, bufs[token] + data)
    } else {
        bufs
    }
}

/// Buffers after each write of `writes`, in order.
pub open spec fn append_all(bufs: Map<u128, Seq<char>>, writes: Seq<(u128, Seq<char>)>) -> Map<
    u128,
    Seq<char>,
>
    decreases writes.len(),
{
    if writes.len() == 0 {
        bufs
    } else {
        let last = writes.last();
        append_to(append_all(bufs, writes.drop_last()), last.0, last.1)
    }
}

/// The texts of `writes` made under `token`, joined in order.
pub open spec fn written_under(writes: Seq<(u128, Seq<char>)>, token: u128) -> Seq<char>
    decreases writes.len(),
{
    if writes.len() == 0 {
        Seq::empty()
    } else {
        let last = writes.last();
        let head = written_under(writes.drop_last(), token);
        if last.0 == token {
            head + last.1
        } else {
            head
        }
    }
}

/// Runs never share output: after any interleaving of writes under several
/// tokens, the buffer of a run that was open throughout holds what it held
/// before followed by exactly the texts written under its own token, in the
/// order they were written.
pub proof fn lemma_buffers_isolated(
    bufs: Map<u128, Seq<char>>,
    writes: Seq<(u128, Seq<char>)>,
    token: u128,
)
    requires
        bufs.contains_key(token),
    ensures
        append_all(bufs, writes).contains_key(token),
        append_all(bufs, writes)[token] == bufs[token] + written_under(writes, token),
    decreases writes.len(),
{
    if writes.len() == 0 {
        assert(bufs[token] + Seq::<char>::empty() =~= bufs[token]);
    } else {
        lemma_buffers_isolated(bufs, writes.drop_last(), token);
        let head = append_all(bufs, writes.drop_last());
        let last = writes.last();
        if last.0 == token {
            assert(bufs[token] + (written_under(writes.drop_last(), token) + last.1) =~= (bufs[token]
                + written_under(writes.drop_last(), token)) + last.1);
        }
    }
}

/// The contexts of the runs in progress. Each run token has its own context,
/// created by `init_buffer` and removed by `clear_buffer` or `end`.
pub struct RunRegistry {
    runs: HashMap<u128, RunContext>,
}

impl View for RunRegistry {
    type V = Map<u128, RunContext>;

    closed spec fn view(&self) -> Map<u128, RunContext> {
        self.runs@
    }
}

impl RunRegistry {
    pub fn new() -> (r: RunRegistry)
        ensures
            r@ == Map::<u128, RunContext>::empty(),
    {
        RunRegistry { runs: HashMap::new() }
    }

    /// Opens a run under `token` with a fresh context and the given budget.
    pub fn begin(&mut self, token: u128, step_budget: u64)
        ensures
            final(self)@.dom() == old(self)@.dom().insert(token),
            forall|t: u128| t != token && old(self)@.contains_key(t) ==> final(self)@[t] == old(self)@[t],
            final(self)@[token].output@ == Seq::<char>::empty(),
            !final(self)@[token].revert_expected,
            final(self)@[token].mocks@ == Map::<u64, crate::mock::MockPayload>::empty(),
            final(self)@[token].step_count == 0,
            final(self)@[token].step_budget == step_budget,
    {
        self.runs.insert(token, RunContext::new(step_budget));
    }

    /// Opens a run under `token` with an empty output buffer and no step limit.
    pub fn init_buffer(&mut self, token: u128)
        ensures
            final(self)@.dom() == old(self)@.dom().insert(token),
            forall|t: u128| t != token && old(self)@.contains_key(t) ==> final(self)@[t] == old(self)@[t],
            final(self)@[token].output@ == Seq::<char>::empty(),
            final(self)@[token].step_budget == u64::MAX,
    {
        self.begin(token, u64::MAX);
    }

    /// Closes the run under `token` and hands back its final context.
    pub fn end(&mut self, token: u128) -> (r: Option<RunContext>)
        ensures
            final(self)@ == old(self)@.remove(token),
            r == (if old(self)@.contains_key(token) {
                Some(old(self)@[token])
            } else {
                None
            }),
    {
        self.runs.remove(&token)
    }

    /// Closes the run under `token`, dropping its context.
    pub fn clear_buffer(&mut self, token: u128)
        ensures
            final(self)@ == old(self)@.remove(token),
    {
        let _ = self.runs.remove(&token);
    }

    /// A copy of the output written so far under `token`.
    pub fn get_buffer(&self, token: u128) -> (r: Option<String>)
        ensures
            match r {
                Some(s) => self@.contains_key(token) && s@ == self@[token].output@,
                None => !self@.contains_key(token),
            },
    {
        match self.runs.get(&token) {
            Some(ctx) => Some(ctx.output.clone()),
            None => None,
        }
    }

    /// Appends `data` to the output of the run under `token`; nothing happens
    /// when no such run is open.
    pub fn write_to_output_buffer(&mut self, token: u128, data: &str)
        ensures
            final(self)@.dom() == old(self)@.dom(),
            buffers_of(final(self)@) == append_to(buffers_of(old(self)@), token, data@),
            forall|t: u128| t != token && old(self)@.contains_key(t) ==> final(self)@[t] == old(self)@[t],
            old(self)@.contains_key(token) ==> {
                &&& final(self)@[token].revert_expected == old(self)@[token].revert_expected
                &&& final(self)@[token].mocks@ == old(self)@[token].mocks@
                &&& final(self)@[token].step_count == old(self)@[token].step_count
                &&& final(self)@[token].step_budget == old(self)@[token].step_budget
            },
    {
        match self.runs.remove(&token) {
            Some(mut ctx) => {
                ctx.write_output(data);
                self.runs.insert(token, ctx);
                assert(buffers_of(self@) =~= append_to(buffers_of(old(self)@), token, data@));
            },
            None => {
                assert(buffers_of(self@) =~= append_to(buffers_of(old(self)@), token, data@));
            },
        }
    }
}

} // verus!
