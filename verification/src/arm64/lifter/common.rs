//! Pieces shared by the lifting of the individual instructions.

use crate::arm64::decode::{Instruction, Operand};
use crate::arm64::helper::inst_type;
use crate::arm64::ir::{IrOp, Ty, Val};
use crate::arm64::lifter::operands::{operand_ok, value_spec};
use crate::arm64::lifter::regs::reg_index_spec;
use crate::arm64::lifter::{LState, LifterState};
use vstd::prelude::*;

verus! {

/// Reading operand `k` of `inst`: what is appended and its value.
pub open spec fn gv(s: LState, inst: Instruction, k: int) -> (LState, Val) {
    value_spec(s, inst.operands@[k])
}

/// Appending a one-operand instruction and its value.
pub open spec fn op1(s: LState, op: IrOp, ty: Ty, a: Val) -> (LState, Val) {
    (s.emit(op, ty, seq![a]), s.val())
}

/// Appending a two-operand instruction and its value.
pub open spec fn op2(s: LState, op: IrOp, ty: Ty, a: Val, b: Val) -> (LState, Val) {
    (s.emit(op, ty, seq![a, b]), s.val())
}

/// Operand `k` of `inst` can be read.
pub open spec fn reads_ok(inst: Instruction, k: int) -> bool {
    operand_ok(inst.operands@[k])
}

/// Operand `k` of `inst` is a general purpose register that may be written: not register 31.
pub open spec fn writable(inst: Instruction, k: int) -> bool {
    &&& operand_ok(inst.operands@[k])
    &&& reg_index_spec(inst.operands@[k]) matches Some(d) && d != 31
}

/// The register operand `k` of `inst` names.
pub open spec fn reg_at(inst: Instruction, k: int) -> usize {
    reg_index_spec(inst.operands@[k])->Some_0
}

/// The destination register of `inst`: the one its first operand names.
pub open spec fn dst(inst: Instruction) -> usize {
    reg_at(inst, 0)
}

/// The destination of `inst` may be written.
pub open spec fn dst_ok(inst: Instruction) -> bool {
    writable(inst, 0)
}

/// Width of a register of type `ty` in bits, as a constant: 64 for `I64`, else 32.
pub open spec fn width_const(ty: Ty) -> Val {
    Val::Const(
        if ty == Ty::I64 {
            64
        } else {
            32
        },
    )
}

/// Mask for the shift amount of a register of type `ty`: 63 for `I64`, else 31.
pub open spec fn shift_mask_const(ty: Ty) -> Val {
    Val::Const(
        if ty == Ty::I64 {
            63
        } else {
            31
        },
    )
}

/// Size in bytes of an element of a register pair of type `ty`: 8 for `I64`, else 4.
pub open spec fn pair_offset_const(ty: Ty) -> Val {
    Val::Const(
        if ty == Ty::I64 {
            8
        } else {
            4
        },
    )
}

/// Width of a register of type `ty` in bits, as a constant.
pub fn width_val(ty: Ty) -> (v: Val)
    ensures
        v == width_const(ty),
{
    match ty {
        Ty::I64 => Val::Const(64),
        _ => Val::Const(32),
    }
}

/// Mask for the shift amount of a register of type `ty`.
pub fn shift_mask_val(ty: Ty) -> (v: Val)
    ensures
        v == shift_mask_const(ty),
{
    match ty {
        Ty::I64 => Val::Const(63),
        _ => Val::Const(31),
    }
}

/// Size in bytes of an element of a register pair of type `ty`.
pub fn pair_offset_val(ty: Ty) -> (v: Val)
    ensures
        v == pair_offset_const(ty),
{
    match ty {
        Ty::I64 => Val::Const(8),
        _ => Val::Const(4),
    }
}

impl LifterState {
    /// The register operand `k` of `inst` names, which may be written.
    pub fn writable_reg(&self, inst: Instruction, k: usize) -> (d: usize)
        requires
            k < 4,
            writable(inst, k as int),
        ensures
            d == reg_at(inst, k as int),
            d < 31,
    {
        match self.get_reg_by_index(inst, k) {
            Some(d) => d,
            None => 0,
        }
    }

    /// The destination register of `inst`.
    pub fn dst_reg(&self, inst: Instruction) -> (d: usize)
        requires
            dst_ok(inst),
        ensures
            d == dst(inst),
            d < 31,
    {
        self.writable_reg(inst, 0)
    }
}

} // verus!
