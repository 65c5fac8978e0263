//! The divide instruction, with a register or a constant as divisor.

use crate::program_cache::ProgramCache;
use crate::program_state::{EvalError, ProgramState};
use crate::register_value::{
    index_text, lemma_magnitude_in_range, magnitude, magnitude_in_range, truncated_quotient,
    RegisterIndex, RegisterValue,
};
use crate::text::decimal_text;
use std::collections::HashSet;
use vstd::prelude::*;
use vstd::string::StringExecFns;

verus! {

/// Why a division was refused.
#[derive(Clone, Copy, Debug, PartialEq, Eq, Structural)]
pub enum DivideError {
    /// An operand had a magnitude at or above the ceiling.
    InputOutOfRange,
    /// The divisor was zero.
    DivisionByZero,
}

/// The evaluation fault that stands for a refused division.
pub open spec fn divide_fault(err: DivideError) -> EvalError {
    match err {
        DivideError::InputOutOfRange => EvalError::DivideOutOfRange,
        DivideError::DivisionByZero => EvalError::DivisionByZero,
    }
}

impl From<DivideError> for EvalError {
    fn from(err: DivideError) -> (r: EvalError) {
        match err {
            DivideError::InputOutOfRange => EvalError::DivideOutOfRange,
            DivideError::DivisionByZero => EvalError::DivisionByZero,
        }
    }
}

impl vstd::std_specs::convert::FromSpecImpl<DivideError> for EvalError {
    open spec fn obeys_from_spec() -> bool {
        true
    }

    open spec fn from_spec(err: DivideError) -> EvalError {
        divide_fault(err)
    }
}

/// What dividing `x` by `y` gives: an operand outside the range is refused
/// whatever the other operand is, then a zero divisor is refused, and
/// otherwise the quotient is rounded toward zero.
pub open spec fn divide_outcome(x: int, y: int) -> Result<int, DivideError> {
    if !magnitude_in_range(x) || !magnitude_in_range(y) {
        Err(DivideError::InputOutOfRange)
    } else if y == 0 {
        Err(DivideError::DivisionByZero)
    } else {
        Ok(truncated_quotient(x, y))
    }
}

/// The quotient rounded toward zero leaves a remainder that is smaller in
/// magnitude than the divisor and never has the sign opposite to the
/// dividend's. No other integer does.
pub proof fn lemma_truncated_quotient_rounds_toward_zero(a: int, b: int, q: int)
    requires
        b != 0,
    ensures
        q == truncated_quotient(a, b) <==> {
            &&& magnitude(a - q * b) < magnitude(b)
            &&& (a >= 0 ==> a - q * b >= 0)
            &&& (a <= 0 ==> a - q * b <= 0)
        },
{
    let ma = magnitude(a) as int;
    let mb = magnitude(b) as int;
    let t = truncated_quotient(a, b);
    vstd::arithmetic::div_mod::lemma_fundamental_div_mod(ma, mb);
    vstd::arithmetic::div_mod::lemma_mod_bound(ma, mb);
    let mq = ma / mb;
    assert(ma == mb * mq + ma % mb);
    assert(0 <= ma % mb < mb);
    assert(magnitude(a - t * b) == ma % mb && (a >= 0 ==> a - t * b >= 0) && (a <= 0 ==> a - t * b
        <= 0)) by (nonlinear_arith)
        requires
            ma == mb * mq + ma % mb,
            0 <= ma % mb < mb,
            ma == magnitude(a),
            mb == magnitude(b),
            b != 0,
            t == (if (a < 0) == (b < 0) {
                mq
            } else {
                -mq
            }),
    ;
    if q != t && magnitude(a - q * b) < magnitude(b) && (a >= 0 ==> a - q * b >= 0) && (a <= 0
        ==> a - q * b <= 0) {
        let r1 = a - t * b;
        let r2 = a - q * b;
        assert(false) by (nonlinear_arith)
            requires
                q != t,
                r1 == a - t * b,
                r2 == a - q * b,
                b != 0,
                magnitude(r1) < magnitude(b),
                magnitude(r2) < magnitude(b),
                a >= 0 ==> r1 >= 0 && r2 >= 0,
                a <= 0 ==> r1 <= 0 && r2 <= 0,
        {
            assert(r1 - r2 == (q - t) * b);
            assert(magnitude(r1 - r2) < magnitude(b));
            if q - t >= 1 {
                assert(magnitude((q - t) * b) >= magnitude(b));
            } else {
                assert(q - t <= -1);
                assert(magnitude((q - t) * b) >= magnitude(b));
            }
        }
    }
}

/// Division of two in-range values with a non-zero divisor succeeds with the
/// quotient rounded toward zero; a zero divisor under an in-range dividend is
/// refused as such; an operand at or above the ceiling is refused whatever
/// the other operand is.
pub proof fn lemma_divide_outcome(x: int, y: int)
    ensures
        -0x8000_0000 < x < 0x8000_0000 && -0x8000_0000 < y < 0x8000_0000 && y != 0
            ==> divide_outcome(x, y) == Ok::<int, DivideError>(truncated_quotient(x, y)),
        -0x8000_0000 < x < 0x8000_0000 && y == 0 ==> divide_outcome(x, y) == Err::<
            int,
            DivideError,
        >(DivideError::DivisionByZero),
        x <= -0x8000_0000 || x >= 0x8000_0000 || y <= -0x8000_0000 || y >= 0x8000_0000
            ==> divide_outcome(x, y) == Err::<int, DivideError>(DivideError::InputOutOfRange),
{
    lemma_magnitude_in_range(x);
    lemma_magnitude_in_range(y);
}

/// Divides `x` by `y`.
pub fn perform_operation(x: &RegisterValue, y: &RegisterValue) -> (r: Result<
    RegisterValue,
    DivideError,
>)
    ensures
        match r {
            Ok(q) => divide_outcome(x@, y@) == Ok::<int, DivideError>(q@),
            Err(e) => divide_outcome(x@, y@) == Err::<int, DivideError>(e),
        },
{
    if !y.is_in_range() {
        return Err(DivideError::InputOutOfRange);
    }
    if !x.is_in_range() {
        return Err(DivideError::InputOutOfRange);
    }
    if y.is_zero() {
        return Err(DivideError::DivisionByZero);
    }
    Ok(x.divide(y))
}

/// The text of a divide instruction whose divisor is written as `source`.
pub open spec fn divide_text(target: RegisterIndex, source: Seq<char>) -> Seq<char> {
    "div "@ + index_text(target) + ","@ + source
}

/// What a divide instruction does to the registers: the target receives the
/// quotient of its own value by `divisor`; a refused division changes nothing.
pub open spec fn divide_effect(
    registers: Map<RegisterIndex, int>,
    target: RegisterIndex,
    divisor: int,
) -> (Map<RegisterIndex, int>, Result<(), EvalError>) {
    match divide_outcome(registers[target], divisor) {
        Ok(q) => (registers.insert(target, q), Ok(())),
        Err(e) => (registers, Err(divide_fault(e))),
    }
}

/// Divides the target register by the source register.
pub struct NodeDivideRegister {
    pub target: RegisterIndex,
    pub source: RegisterIndex,
}

impl NodeDivideRegister {
    pub fn new(target: RegisterIndex, source: RegisterIndex) -> (r: Self)
        ensures
            r.target == target,
            r.source == source,
    {
        Self { target: target, source: source }
    }

    /// The instruction as program text.
    pub fn formatted_instruction(&self) -> (r: String)
        ensures
            r@ == divide_text(self.target, index_text(self.source)),
    {
        let mut text = String::from_str("div ");
        text.append(self.target.to_string().as_str());
        text.append(",");
        text.append(self.source.to_string().as_str());
        text
    }

    /// Runs the instruction on `state`.
    pub fn eval(&self, state: &mut ProgramState, _cache: &mut ProgramCache) -> (r: Result<
        (),
        EvalError,
    >)
        ensures
            final(state)@.step_count == old(state)@.step_count,
            (final(state)@.registers, r) == divide_effect(
                old(state)@.registers,
                self.target,
                old(state)@.registers[self.source],
            ),
            *final(_cache) == *old(_cache),
    {
        let lhs: RegisterValue = state.get_register_value(&self.target);
        let rhs: RegisterValue = state.get_register_value(&self.source);
        match perform_operation(&lhs, &rhs) {
            Ok(value) => {
                state.set_register_value(self.target, value);
                Ok(())
            },
            Err(err) => Err(EvalError::from(err)),
        }
    }

    /// Appends the registers that the instruction names: target, then source.
    pub fn accumulate_register_indexes(&self, register_vec: &mut Vec<RegisterIndex>)
        ensures
            final(register_vec)@ == old(register_vec)@.push(self.target).push(self.source),
    {
        register_vec.push(self.target);
        register_vec.push(self.source);
    }

    /// Carries liveness forward: the target becomes live when the source is.
    pub fn live_register_indexes(&self, register_set: &mut HashSet<u8>)
        ensures
            final(register_set)@ == if old(register_set)@.contains(self.source.0) {
                old(register_set)@.insert(self.target.0)
            } else {
                old(register_set)@
            },
    {
        broadcast use vstd::std_specs::hash::group_hash_axioms;

        if register_set.contains(&self.source.0) {
            register_set.insert(self.target.0);
        }
    }
}

/// Divides the target register by a constant.
pub struct NodeDivideConstant {
    pub target: RegisterIndex,
    pub source: RegisterValue,
}

impl NodeDivideConstant {
    pub fn new(target: RegisterIndex, source: RegisterValue) -> (r: Self)
        ensures
            r.target == target,
            r.source == source,
    {
        Self { target: target, source: source }
    }

    /// The instruction as program text.
    pub fn formatted_instruction(&self) -> (r: String)
        ensures
            r@ == divide_text(self.target, decimal_text(self.source@)),
    {
        let mut text = String::from_str("div ");
        text.append(self.target.to_string().as_str());
        text.append(",");
        text.append(self.source.to_string().as_str());
        text
    }

    /// Runs the instruction on `state`.
    pub fn eval(&self, state: &mut ProgramState, _cache: &mut ProgramCache) -> (r: Result<
        (),
        EvalError,
    >)
        ensures
            final(state)@.step_count == old(state)@.step_count,
            (final(state)@.registers, r) == divide_effect(
                old(state)@.registers,
                self.target,
                self.source@,
            ),
            *final(_cache) == *old(_cache),
    {
        let lhs: RegisterValue = state.get_register_value(&self.target);
        match perform_operation(&lhs, &self.source) {
            Ok(value) => {
                state.set_register_value(self.target, value);
                Ok(())
            },
            Err(err) => Err(EvalError::from(err)),
        }
    }

    /// Appends the register that the instruction names: the target.
    pub fn accumulate_register_indexes(&self, register_vec: &mut Vec<RegisterIndex>)
        ensures
            final(register_vec)@ == old(register_vec)@.push(self.target),
    {
        register_vec.push(self.target);
    }

    /// Carries liveness forward: a constant divisor changes no register's
    /// liveness.
    pub fn live_register_indexes(&self, register_set: &mut HashSet<u8>)
        ensures
            final(register_set)@ == old(register_set)@,
    {
    }
}

} // verus!
