//! State of one program evaluation: the register file and the step counter.

use crate::register_value::{clone_values, term_values, RegisterIndex, RegisterValue};
use vstd::prelude::*;

verus! {

/// Why the evaluation of an instruction or of a program stopped.
#[derive(Clone, Copy, Debug, PartialEq, Eq, Structural)]
pub enum EvalError {
    /// The divisor was zero.
    DivisionByZero,
    /// An operand of a division had a magnitude at or above the ceiling.
    DivideOutOfRange,
    /// An operand of an addition had a magnitude at or above the ceiling.
    AddOutOfRange,
    /// An operand of a subtraction had a magnitude at or above the ceiling.
    SubtractOutOfRange,
    /// An operand of a multiplication had a magnitude at or above the ceiling.
    MultiplyOutOfRange,
    /// The evaluation used up its step budget.
    StepLimitExceeded,
}

/// What a [`ProgramState`] stands for: the integer in every register and the
/// number of steps taken so far.
pub ghost struct ProgramStateView {
    pub registers: Map<RegisterIndex, int>,
    pub step_count: nat,
}

/// The register file of one evaluation and its step counter.
///
/// Every register holds zero until it is written.
pub struct ProgramState {
    register_vec: Vec<RegisterValue>,
    step_count: u64,
}

impl View for ProgramState {
    type V = ProgramStateView;

    closed spec fn view(&self) -> ProgramStateView {
        ProgramStateView {
            registers: Map::total(|index: RegisterIndex| self.register(index)),
            step_count: self.step_count as nat,
        }
    }
}

impl Clone for ProgramState {
    fn clone(&self) -> (r: Self)
        ensures
            r@ == self@,
    {
        let r = ProgramState {
            register_vec: clone_values(&self.register_vec),
            step_count: self.step_count,
        };
        proof {
            assert forall|index: RegisterIndex| r.register(index) == self.register(index) by {
                assert(term_values(r.register_vec@).len() == term_values(self.register_vec@).len());
                if (index.0 as int) < self.register_vec@.len() {
                    assert(term_values(r.register_vec@)[index.0 as int] == term_values(
                        self.register_vec@,
                    )[index.0 as int]);
                }
            }
            assert(r@.registers =~= self@.registers);
        }
        r
    }
}

impl ProgramState {
    spec fn register(&self, index: RegisterIndex) -> int {
        if (index.0 as int) < self.register_vec.len() {
            self.register_vec[index.0 as int]@
        } else {
            0
        }
    }

    /// A state in which every register holds zero and no step was taken.
    pub fn new() -> (r: Self)
        ensures
            r@.registers == Map::total(|index: RegisterIndex| 0int),
            r@.step_count == 0,
    {
        let r = ProgramState { register_vec: Vec::new(), step_count: 0 };
        assert(r@.registers =~= Map::total(|index: RegisterIndex| 0int));
        r
    }

    /// The value of a register.
    pub fn get_register_value(&self, index: &RegisterIndex) -> (r: RegisterValue)
        ensures
            r@ == self@.registers[*index],
    {
        let i: usize = index.0 as usize;
        if i < self.register_vec.len() {
            self.register_vec[i].clone()
        } else {
            RegisterValue::zero()
        }
    }

    /// Writes a register and leaves the others and the step counter alone.
    pub fn set_register_value(&mut self, index: RegisterIndex, value: RegisterValue)
        ensures
            final(self)@.registers == old(self)@.registers.insert(index, value@),
            final(self)@.step_count == old(self)@.step_count,
    {
        let i: usize = index.0 as usize;
        while self.register_vec.len() <= i
            invariant
                i == index.0,
                self.step_count == old(self).step_count,
                forall|k: RegisterIndex| self.register(k) == old(self).register(k),
            decreases i + 1 - self.register_vec.len(),
        {
            let ghost before = *self;
            self.register_vec.push(RegisterValue::zero());
            assert forall|k: RegisterIndex| self.register(k) == before.register(k) by {
                if (k.0 as int) < before.register_vec.len() {
                    assert(self.register_vec[k.0 as int] == before.register_vec[k.0 as int]);
                }
            }
        }
        let ghost grown = *self;
        self.register_vec.set(i, value);
        assert forall|k: RegisterIndex|
            self.register(k) == if k == index {
                value@
            } else {
                old(self).register(k)
            } by {
            assert(grown.register(k) == old(self).register(k));
            if k != index {
                assert(k.0 != index.0);
            }
        }
        assert(self@.registers =~= old(self)@.registers.insert(index, value@));
    }

    /// Puts the registers of `saved` back and keeps the step counter.
    pub fn restore_registers(&mut self, saved: ProgramState)
        ensures
            final(self)@.registers == saved@.registers,
            final(self)@.step_count == old(self)@.step_count,
    {
        self.register_vec = saved.register_vec;
        proof {
            assert forall|index: RegisterIndex| self.register(index) == saved.register(index) by {}
            assert(self@.registers =~= saved@.registers);
        }
    }

    /// A state in which every register holds zero and whose step counter goes
    /// on from that of `caller`.
    pub fn new_for_call(caller: &ProgramState) -> (r: Self)
        ensures
            r@.registers == Map::total(|index: RegisterIndex| 0int),
            r@.step_count == caller@.step_count,
    {
        let r = ProgramState { register_vec: Vec::new(), step_count: caller.step_count };
        assert(r@.registers =~= Map::total(|index: RegisterIndex| 0int));
        r
    }

    /// Takes over the step counter of a call that has returned.
    pub fn resume_after_call(&mut self, callee: &ProgramState)
        ensures
            final(self)@.registers == old(self)@.registers,
            final(self)@.step_count == callee@.step_count,
    {
        self.step_count = callee.step_count;
        assert(self@.registers =~= old(self)@.registers);
    }

    /// Number of steps taken so far.
    pub fn step_count(&self) -> (r: u64)
        ensures
            r == self@.step_count,
    {
        self.step_count
    }

    /// Counts one step against the budget `limit`.
    ///
    /// Fails, changing nothing, when `limit` steps were already taken.
    pub fn take_step(&mut self, limit: u64) -> (r: Result<(), EvalError>)
        ensures
            final(self)@.registers == old(self)@.registers,
            old(self)@.step_count < limit ==> r is Ok && final(self)@.step_count == old(
                self,
            )@.step_count + 1,
            old(self)@.step_count >= limit ==> r == Err::<(), EvalError>(
                EvalError::StepLimitExceeded,
            ) && final(self)@.step_count == old(self)@.step_count,
    {
        if self.step_count >= limit {
            return Err(EvalError::StepLimitExceeded);
        }
        self.step_count = self.step_count + 1;
        assert(self@.registers =~= old(self)@.registers);
        Ok(())
    }
}

} // verus!
