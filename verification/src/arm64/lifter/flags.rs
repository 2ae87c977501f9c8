//! Setting the condition flags.

use crate::arm64::ir::{CmpTy, IrOp, Ty, Val};
use crate::arm64::lifter::regs::{flag_index, write_spec};
use crate::arm64::lifter::{Flag, LState, LifterState};
use crate::arm64::semantics::{flags_from_bits_hold, law_flags_from_value};
use vstd::prelude::*;

verus! {

/// Name of the register that holds a flag.
pub open spec fn flag_name(flag: Flag) -> Seq<char> {
    match flag {
        Flag::N => "n"@,
        Flag::Z => "z"@,
        Flag::C => "c"@,
        Flag::V => "v"@,
    }
}

/// Name of the register that holds a flag.
pub fn get_flag_name(flag: Flag) -> (r: &'static str)
    ensures
        r@ == flag_name(flag),
{
    match flag {
        Flag::N => "n",
        Flag::Z => "z",
        Flag::C => "c",
        Flag::V => "v",
    }
}

/// Setting one flag from the bit `mask` of `flag_val`: the flag is set when the bit is.
pub open spec fn flag_from_bit_spec(s: LState, flag_val: Val, op_type: Ty, mask: u64, flag: Flag) -> LState {
    let s1 = s.emit(IrOp::And, op_type, seq![Val::Const(mask), flag_val]);
    let s2 = s1.emit(IrOp::Icmp(CmpTy::Ne), op_type, seq![Val::Const(0), s.val()]);
    write_spec(s2, s1.val(), flag_index(flag), Ty::I1)
}

/// Setting `n`, `z`, `c` and `v` from bits 3, 2, 1 and 0 of `flag_val`.
pub open spec fn flags_to_value_spec(s: LState, flag_val: Val, op_type: Ty) -> LState {
    let s1 = flag_from_bit_spec(s, flag_val, op_type, 8, Flag::N);
    let s2 = flag_from_bit_spec(s1, flag_val, op_type, 4, Flag::Z);
    let s3 = flag_from_bit_spec(s2, flag_val, op_type, 2, Flag::C);
    flag_from_bit_spec(s3, flag_val, op_type, 1, Flag::V)
}

/// Setting the flags as an addition of `val1`, `val2` and `carry` does: `z` when the sum is
/// zero, `n` when it is negative, `c` when either operand is above the sum (unsigned) and `v`
/// when both operands have the same sign and the sum has the other.
pub open spec fn adc_flags_spec(s: LState, val1: Val, val2: Val, op_type: Ty, carry: Val) -> LState {
    let zero = Val::Const(0);
    let s1 = s.emit(IrOp::Add, op_type, seq![val1, val2]);
    let sum = s1.val();
    let s2 = s1.emit(IrOp::Add, op_type, seq![s.val(), carry]);
    let z = s2.val();
    let s3 = s2.emit(IrOp::Icmp(CmpTy::Eq), op_type, seq![sum, zero]);
    let s4 = write_spec(s3, z, flag_index(Flag::Z), Ty::I1);
    let n = s4.val();
    let s5 = s4.emit(IrOp::Icmp(CmpTy::Slt), op_type, seq![sum, zero]);
    let s6 = write_spec(s5, n, flag_index(Flag::N), Ty::I1);
    let a = s6.val();
    let s7 = s6.emit(IrOp::Icmp(CmpTy::Ugt), op_type, seq![val1, sum]);
    let b = s7.val();
    let s8 = s7.emit(IrOp::Icmp(CmpTy::Ugt), op_type, seq![val2, sum]);
    let c = s8.val();
    let s9 = s8.emit(IrOp::Or, Ty::I1, seq![a, b]);
    let s10 = write_spec(s9, c, flag_index(Flag::C), Ty::I1);
    let n1 = s10.val();
    let s11 = s10.emit(IrOp::Icmp(CmpTy::Slt), op_type, seq![val1, zero]);
    let n2 = s11.val();
    let s12 = s11.emit(IrOp::Icmp(CmpTy::Slt), op_type, seq![val2, zero]);
    let same = s12.val();
    let s13 = s12.emit(IrOp::Icmp(CmpTy::Eq), Ty::I1, seq![n1, n2]);
    let diff = s13.val();
    let s14 = s13.emit(IrOp::Icmp(CmpTy::Ne), Ty::I1, seq![n1, n]);
    let v = s14.val();
    let s15 = s14.emit(IrOp::And, Ty::I1, seq![same, diff]);
    write_spec(s15, v, flag_index(Flag::V), Ty::I1)
}

impl LifterState {
    /// Sets one flag from the bit `mask` of `flag_val`.
    fn flag_from_bit(&mut self, flag_val: Val, op_type: Ty, mask: u64, flag: Flag)
        requires
            old(self).wf(),
            old(self).st().ok(flag_val),
        ensures
            final(self).wf(),
            final(self).st() == flag_from_bit_spec(old(self).st(), flag_val, op_type, mask, flag),
            old(self).st().le(final(self).st()),
            final(self).label_resolver == old(self).label_resolver,
    {
        let bit = self.emit2(IrOp::And, op_type, Val::Const(mask), flag_val);
        let is_set = self.emit2(IrOp::Icmp(CmpTy::Ne), op_type, Val::Const(0), bit);
        self.write_flag(is_set, flag);
    }

    /// Sets `n`, `z`, `c` and `v` from bits 3, 2, 1 and 0 of `flag_val`.
    pub fn set_flags_to_value(&mut self, flag_val: Val, op_type: Ty)
        requires
            old(self).wf(),
            old(self).st().ok(flag_val),
        ensures
            final(self).wf(),
            final(self).st() == flags_to_value_spec(old(self).st(), flag_val, op_type),
            old(self).st().le(final(self).st()),
            final(self).label_resolver == old(self).label_resolver,
            op_type == Ty::I32 || op_type == Ty::I64 ==> forall|regs: spec_fn(usize) -> int|
                #[trigger] flags_from_bits_hold(old(self).st(), flag_val, op_type, regs),
    {
        self.flag_from_bit(flag_val, op_type, 8, Flag::N);
        self.flag_from_bit(flag_val, op_type, 4, Flag::Z);
        self.flag_from_bit(flag_val, op_type, 2, Flag::C);
        self.flag_from_bit(flag_val, op_type, 1, Flag::V);
        let n = self.builder.region.insts.len();
        proof {
            assert(n == self.st().r.insts.len());
            assert(self.st().r.insts.len() == old(self).st().r.insts.len() + 12);
            if op_type == Ty::I32 || op_type == Ty::I64 {
                assert forall|regs: spec_fn(usize) -> int| #[trigger] flags_from_bits_hold(old(self).st(), flag_val, op_type, regs) by {
                    law_flags_from_value(old(self).st(), flag_val, op_type, regs);
                }
            }
        }
    }

    /// Sets the flags as the addition of `val1`, `val2` and `carry` does.
    pub fn set_flags_using_adc(&mut self, val1: Val, val2: Val, op_type: Ty, carry: Val)
        requires
            old(self).wf(),
            old(self).st().ok(val1),
            old(self).st().ok(val2),
            old(self).st().ok(carry),
        ensures
            final(self).wf(),
            final(self).st() == adc_flags_spec(old(self).st(), val1, val2, op_type, carry),
            old(self).st().le(final(self).st()),
            final(self).label_resolver == old(self).label_resolver,
    {
        let zero = Val::Const(0);
        let sum = self.emit2(IrOp::Add, op_type, val1, val2);
        let sum = self.emit2(IrOp::Add, op_type, sum, carry);
        let z = self.emit2(IrOp::Icmp(CmpTy::Eq), op_type, sum, zero);
        self.write_flag(z, Flag::Z);
        let n = self.emit2(IrOp::Icmp(CmpTy::Slt), op_type, sum, zero);
        self.write_flag(n, Flag::N);
        let val1_is_ugt_sum = self.emit2(IrOp::Icmp(CmpTy::Ugt), op_type, val1, sum);
        let val2_is_ugt_sum = self.emit2(IrOp::Icmp(CmpTy::Ugt), op_type, val2, sum);
        let c = self.emit2(IrOp::Or, Ty::I1, val1_is_ugt_sum, val2_is_ugt_sum);
        self.write_flag(c, Flag::C);
        let val1_is_negative = self.emit2(IrOp::Icmp(CmpTy::Slt), op_type, val1, zero);
        let val2_is_negative = self.emit2(IrOp::Icmp(CmpTy::Slt), op_type, val2, zero);
        let values_have_same_sign = self.emit2(
            IrOp::Icmp(CmpTy::Eq),
            Ty::I1,
            val1_is_negative,
            val2_is_negative,
        );
        let result_has_different_sign = self.emit2(
            IrOp::Icmp(CmpTy::Ne),
            Ty::I1,
            val1_is_negative,
            n,
        );
        let v = self.emit2(IrOp::And, Ty::I1, values_have_same_sign, result_has_different_sign);
        self.write_flag(v, Flag::V);
    }
}

} // verus!
