//! The part of the interpreter's state that a synthetic return touches: the
//! instruction pointer, the allocation pointer, and write-once memory.
use vstd::prelude::*;
use std::collections::HashMap;

use crate::error::RunError;
use crate::mock::MockPayload;

verus! {

broadcast use vstd::std_specs::hash::group_hash_axioms;

/// Registers and memory of a running program. Memory cells are written once:
/// a second write must repeat the value already there.
pub struct MachineState {
    /// Instruction pointer: offset of the next instruction.
    pub pc: u64,
    /// Allocation pointer: the next free cell.
    pub ap: u64,
    /// Cell contents by address.
    pub memory: HashMap<u64, u128>,
}

/// Memory after writing `v` at `addr`, unless the cell holds another value.
pub open spec fn write_cell(mem: Map<u64, u128>, addr: u64, v: u128) -> Result<
    Map<u64, u128>,
    RunError,
> {
    if mem.contains_key(addr) && mem[addr] != v {
        Err(RunError::MemoryConflict(addr))
    } else {
        Ok(mem.insert(addr, v))
    }
}

/// Memory after copying `count` cells, one by one in increasing order, from
/// `src` to `dst`; the first unset source cell or conflicting write stops it.
pub open spec fn copy_cells(mem: Map<u64, u128>, src: u64, dst: u64, count: nat) -> Result<
    Map<u64, u128>,
    RunError,
>
    decreases count,
{
    if count == 0 {
        Ok(mem)
    } else {
        match copy_cells(mem, src, dst, (count - 1) as nat) {
            Ok(m) => {
                let from = (src + count - 1) as u64;
                if !m.contains_key(from) {
                    Err(RunError::UnsetMemory(from))
                } else {
                    write_cell(m, (dst + count - 1) as u64, m[from])
                }
            },
            Err(e) => Err(e),
        }
    }
}

/// The registers and memory that a call of `width` cells at `pc`, whose
/// callee did nothing but return `payload`, leaves to its caller: the
/// returned values fill the cells from `ap` on, `ap` moves past them and `pc`
/// past the call.
pub open spec fn returned_state(
    pc: u64,
    ap: u64,
    mem: Map<u64, u128>,
    payload: MockPayload,
    width: u64,
) -> Result<(u64, u64, Map<u64, u128>), RunError> {
    let count: nat = match payload {
        MockPayload::Scalar(_) => 1,
        MockPayload::Vector { length, source } => length as nat,
    };
    let in_range = match payload {
        MockPayload::Scalar(_) => true,
        MockPayload::Vector { length, source } => source + length <= u64::MAX,
    };
    if pc + width > u64::MAX || ap + count > u64::MAX || !in_range {
        Err(RunError::AddressOverflow)
    } else {
        let written = match payload {
            MockPayload::Scalar(v) => write_cell(mem, ap, v),
            MockPayload::Vector { length, source } => copy_cells(mem, source, ap, length as nat),
        };
        match written {
            Ok(m) => Ok(((pc + width) as u64, (ap + count) as u64, m)),
            Err(e) => Err(e),
        }
    }
}

proof fn lemma_copy_error_persists(
    mem: Map<u64, u128>,
    src: u64,
    dst: u64,
    k: nat,
    n: nat,
    e: RunError,
)
    requires
        k <= n,
        copy_cells(mem, src, dst, k) == Err::<Map<u64, u128>, RunError>(e),
    ensures
        copy_cells(mem, src, dst, n) == Err::<Map<u64, u128>, RunError>(e),
    decreases n - k,
{
    if k < n {
        lemma_copy_error_persists(mem, src, dst, k, (n - 1) as nat, e);
    }
}

impl MachineState {
    /// A machine at `pc` and `ap` with empty memory.
    pub fn new(pc: u64, ap: u64) -> (r: MachineState)
        ensures
            r.pc == pc,
            r.ap == ap,
            r.memory@ == Map::<u64, u128>::empty(),
    {
        MachineState { pc, ap, memory: HashMap::new() }
    }

    /// The value at `addr`, if the cell is set.
    pub fn get_value(&self, addr: u64) -> (r: Option<u128>)
        ensures
            r == (if self.memory@.contains_key(addr) {
                Some(self.memory@[addr])
            } else {
                None
            }),
    {
        match self.memory.get(&addr) {
            Some(v) => Some(*v),
            None => None,
        }
    }

    /// Writes `v` at `addr`, which must be unset or already hold `v`.
    pub fn insert_value(&mut self, addr: u64, v: u128) -> (r: Result<(), RunError>)
        ensures
            final(self).pc == old(self).pc,
            final(self).ap == old(self).ap,
            match write_cell(old(self).memory@, addr, v) {
                Ok(m) => r is Ok && final(self).memory@ == m,
                Err(e) => r == Err::<(), RunError>(e) && final(self).memory@ == old(self).memory@,
            },
    {
        match self.memory.get(&addr) {
            Some(cur) => {
                if *cur != v {
                    return Err(RunError::MemoryConflict(addr));
                }
            },
            None => {},
        }
        self.memory.insert(addr, v);
        Ok(())
    }

    /// Copies `count` cells from `src` to `dst`, in increasing order.
    fn copy_cells(&mut self, src: u64, dst: u64, count: u64) -> (r: Result<(), RunError>)
        requires
            src + count <= u64::MAX,
            dst + count <= u64::MAX,
        ensures
            final(self).pc == old(self).pc,
            final(self).ap == old(self).ap,
            match copy_cells(old(self).memory@, src, dst, count as nat) {
                Ok(m) => r is Ok && final(self).memory@ == m,
                Err(e) => r == Err::<(), RunError>(e),
            },
    {
        let mut i: u64 = 0;
        while i < count
            invariant
                i <= count,
                src + count <= u64::MAX,
                dst + count <= u64::MAX,
                self.pc == old(self).pc,
                self.ap == old(self).ap,
                copy_cells(old(self).memory@, src, dst, i as nat) == Ok::<Map<u64, u128>, RunError>(
                    self.memory@,
                ),
            decreases count - i,
        {
            let v = match self.get_value(src + i) {
                Some(v) => v,
                None => {
                    proof {
                        lemma_copy_error_persists(
                            old(self).memory@,
                            src,
                            dst,
                            (i + 1) as nat,
                            count as nat,
                            RunError::UnsetMemory((src + i) as u64),
                        );
                    }
                    return Err(RunError::UnsetMemory(src + i));
                },
            };
            match self.insert_value(dst + i, v) {
                Ok(()) => {},
                Err(e) => {
                    proof {
                        lemma_copy_error_persists(
                            old(self).memory@,
                            src,
                            dst,
                            (i + 1) as nat,
                            count as nat,
                            e,
                        );
                    }
                    return Err(e);
                },
            }
            i = i + 1;
        }
        Ok(())
    }

    /// Gives the caller the effect of a call of `width` cells whose callee only
    /// returned `payload`: the callee's body is never entered.
    pub fn synthetic_return(&mut self, payload: MockPayload, width: u64) -> (r: Result<
        (),
        RunError,
    >)
        ensures
            match returned_state(old(self).pc, old(self).ap, old(self).memory@, payload, width) {
                Ok((pc, ap, m)) => {
                    &&& r is Ok
                    &&& final(self).pc == pc
                    &&& final(self).ap == ap
                    &&& final(self).memory@ == m
                },
                Err(e) => {
                    &&& r == Err::<(), RunError>(e)
                    &&& final(self).pc == old(self).pc
                    &&& final(self).ap == old(self).ap
                },
            },
    {
        let count: u64 = match payload {
            MockPayload::Scalar(_) => 1,
            MockPayload::Vector { length, source } => length,
        };
        let in_range = match payload {
            MockPayload::Scalar(_) => true,
            MockPayload::Vector { length, source } => source <= u64::MAX - length,
        };
        if self.pc > u64::MAX - width || self.ap > u64::MAX - count || !in_range {
            return Err(RunError::AddressOverflow);
        }
        let written = match payload {
            MockPayload::Scalar(v) => self.insert_value(self.ap, v),
            MockPayload::Vector { length, source } => self.copy_cells(source, self.ap, length),
        };
        match written {
            Ok(()) => {
                self.pc = self.pc + width;
                self.ap = self.ap + count;
                Ok(())
            },
            Err(e) => Err(e),
        }
    }
}

} // verus!
