//! Lifting of data processing instructions: arithmetic, logic, shifts, multiplication,
//! division, bit counting and byte reversal.

use crate::arm64::decode::{Instruction, Opcode};
use crate::arm64::helper::{get_type_by_inst, inst_type, is_general_purpose, is_operand_general_purpose};
use crate::arm64::ir::{CmpTy, IrOp, Ty, Val};
use crate::arm64::lifter::common::{
    dst, dst_ok, gv, op1, op2, reads_ok, shift_mask_const, shift_mask_val, width_const, width_val,
};
use crate::arm64::lifter::flags::adc_flags_spec;
use crate::arm64::lifter::regs::{flag_index, flag_spec, reg_val_spec, write_spec};
use crate::arm64::lifter::{Flag, LState, LifterState, SpOrZrReg};
use crate::arm64::ir::REG_PC;
use crate::arm64::decode::SizeCode;
use vstd::prelude::*;

verus! {

/// Operations that combine two register operands into the destination, possibly setting the
/// flags.
pub open spec fn is_arith(o: Opcode) -> bool {
    o is ADD || o is ADDS || o is SUB || o is SUBS || o is AND || o is ANDS || o is ORR
}

/// The IR operation of an arithmetic or logic instruction.
pub open spec fn arith_op(o: Opcode) -> IrOp {
    match o {
        Opcode::ADD | Opcode::ADDS => IrOp::Add,
        Opcode::SUB | Opcode::SUBS => IrOp::Sub,
        Opcode::AND | Opcode::ANDS => IrOp::And,
        _ => IrOp::Or,
    }
}

/// Flags set by a logical operation with result `val`: carry and overflow cleared, zero and
/// negative from the result.
pub open spec fn logic_flags_spec(s: LState, val: Val, ty: Ty) -> LState {
    let zero = Val::Const(0);
    let s1 = write_spec(s, zero, flag_index(Flag::C), Ty::I1);
    let s2 = write_spec(s1, zero, flag_index(Flag::V), Ty::I1);
    let (s3, is_zero) = op2(s2, IrOp::Icmp(CmpTy::Eq), ty, val, zero);
    let s4 = write_spec(s3, is_zero, flag_index(Flag::Z), Ty::I1);
    let (s5, is_negative) = op2(s4, IrOp::Icmp(CmpTy::Slt), ty, val, zero);
    write_spec(s5, is_negative, flag_index(Flag::N), Ty::I1)
}

/// Lifting `ADD`, `ADDS`, `SUB`, `SUBS`, `AND`, `ANDS` and `ORR`: the operation on operands 1
/// and 2 is written to the destination; the flag-setting forms then set the flags (a
/// subtraction as the addition of the complement plus one).
pub open spec fn arith_spec(s: LState, inst: Instruction) -> LState {
    let ty = inst_type(inst);
    let (s1, v1) = gv(s, inst, 1);
    let (s2, v2) = gv(s1, inst, 2);
    let (s3, val) = op2(s2, arith_op(inst.opcode), ty, v1, v2);
    let s4 = write_spec(s3, val, dst(inst), ty);
    match inst.opcode {
        Opcode::ADDS => adc_flags_spec(s4, v1, v2, ty, Val::Const(0)),
        Opcode::SUBS => {
            let (s5, not_v2) = op1(s4, IrOp::Not, ty, v2);
            adc_flags_spec(s5, v1, not_v2, ty, Val::Const(1))
        },
        Opcode::ANDS => logic_flags_spec(s4, val, ty),
        _ => s4,
    }
}

/// Lifting `ADC` and `ADCS`: operand 1 plus the carry flag plus operand 2; `ADCS` sets the
/// flags as that addition does.
pub open spec fn adc_spec(s: LState, inst: Instruction) -> LState {
    let ty = inst_type(inst);
    let (s1, v1) = gv(s, inst, 1);
    let (s2, v2) = gv(s1, inst, 2);
    let (s3, carry) = flag_spec(s2, Flag::C);
    let (s4, val) = op2(s3, IrOp::Add, ty, v1, carry);
    let (s5, val2) = op2(s4, IrOp::Add, ty, val, v2);
    let s6 = write_spec(s5, val2, dst(inst), ty);
    if inst.opcode is ADCS {
        adc_flags_spec(s6, v1, v2, ty, carry)
    } else {
        s6
    }
}

/// Lifting `SBC` and `SBCS`: operand 1 minus operand 2 minus the complement of the carry flag;
/// `SBCS` sets the flags as the addition of both operands and the carry flag does.
pub open spec fn sbc_spec(s: LState, inst: Instruction) -> LState {
    let ty = inst_type(inst);
    let (s1, v1) = gv(s, inst, 1);
    let (s2, v2) = gv(s1, inst, 2);
    let (s3, carry) = flag_spec(s2, Flag::C);
    let (s4, not_carry) = op1(s3, IrOp::Not, Ty::I1, carry);
    let (s5, val) = op2(s4, IrOp::Sub, ty, v1, v2);
    let (s6, val2) = op2(s5, IrOp::Sub, ty, val, not_carry);
    let s7 = write_spec(s6, val2, dst(inst), ty);
    if inst.opcode is SBCS {
        let (s8, carry2) = flag_spec(s7, Flag::C);
        adc_flags_spec(s8, v1, v2, ty, carry2)
    } else {
        s7
    }
}

/// Operations that complement operand 2 before combining it with operand 1.
pub open spec fn is_not_then(o: Opcode) -> bool {
    o is BIC || o is ORN || o is EON
}

/// Lifting `BIC`, `ORN` and `EON`: operand 1 and, or or xor the complement of operand 2.
pub open spec fn not_then_spec(s: LState, inst: Instruction) -> LState {
    let ty = inst_type(inst);
    let (s1, v1) = gv(s, inst, 1);
    let (s2, v2) = gv(s1, inst, 2);
    let (s3, n) = op1(
        s2,
        if inst.opcode is BIC {
            IrOp::BitwiseNot
        } else {
            IrOp::Not
        },
        ty,
        v2,
    );
    let op = match inst.opcode {
        Opcode::BIC => IrOp::And,
        Opcode::ORN => IrOp::Or,
        _ => IrOp::Xor,
    };
    let (s4, val) = op2(s3, op, ty, v1, n);
    write_spec(s4, val, dst(inst), ty)
}

/// Lifting `EOR`: the exclusive or of operands 1 and 2 is computed, and operand 1 is written to
/// the destination.
pub open spec fn eor_spec(s: LState, inst: Instruction) -> LState {
    let ty = inst_type(inst);
    let (s1, v1) = gv(s, inst, 1);
    let (s2, v2) = gv(s1, inst, 2);
    let (s3, _x) = op2(s2, IrOp::Xor, ty, v1, v2);
    write_spec(s3, v1, dst(inst), ty)
}

/// Shifts by a register amount.
pub open spec fn is_var_shift(o: Opcode) -> bool {
    o is ASRV || o is LSLV || o is LSRV || o is RORV
}

/// Lifting `ASRV`, `LSLV`, `LSRV` and `RORV`: operand 1 shifted by operand 2 taken modulo the
/// register width.
pub open spec fn var_shift_spec(s: LState, inst: Instruction) -> LState {
    let ty = inst_type(inst);
    let (s1, v1) = gv(s, inst, 1);
    let (s2, v2) = gv(s1, inst, 2);
    let (s3, amount) = op2(s2, IrOp::And, ty, v2, shift_mask_const(ty));
    let op = match inst.opcode {
        Opcode::ASRV => IrOp::Ashr,
        Opcode::LSLV => IrOp::Lshl,
        Opcode::LSRV => IrOp::Lshr,
        _ => IrOp::Ror,
    };
    let (s4, val) = op2(s3, op, ty, v1, amount);
    write_spec(s4, val, dst(inst), ty)
}

/// Multiply-add and multiply-subtract.
pub open spec fn is_mul_add(o: Opcode) -> bool {
    o is MADD || o is MSUB || o is SMADDL || o is SMSUBL || o is UMADDL || o is UMSUBL
}

/// Lifting multiply-add and multiply-subtract: the product of operands 1 and 2 added to, or
/// subtracted from, operand 3.  The long forms multiply as 32 bits and add as 64 bits.
pub open spec fn mul_add_spec(s: LState, inst: Instruction) -> LState {
    let o = inst.opcode;
    let long = !(o is MADD || o is MSUB);
    let mul_ty = if long {
        Ty::I32
    } else {
        inst_type(inst)
    };
    let add_ty = if long {
        Ty::I64
    } else {
        inst_type(inst)
    };
    let mul = if o is UMADDL || o is UMSUBL {
        IrOp::Umul
    } else {
        IrOp::Imul
    };
    let (s1, v1) = gv(s, inst, 1);
    let (s2, v2) = gv(s1, inst, 2);
    let (s3, v3) = gv(s2, inst, 3);
    let (s4, prod) = op2(s3, mul, mul_ty, v1, v2);
    let (s5, val) = if o is MADD || o is SMADDL || o is UMADDL {
        op2(s4, IrOp::Add, add_ty, prod, v3)
    } else {
        op2(s4, IrOp::Sub, add_ty, v3, prod)
    };
    write_spec(s5, val, dst(inst), add_ty)
}

/// Lifting `SMULH` and `UMULH`: the 64-bit product of operands 1 and 2, shifted right by 64 as
/// a 128-bit value.
pub open spec fn mul_high_spec(s: LState, inst: Instruction) -> LState {
    let mul = if inst.opcode is UMULH {
        IrOp::Umul
    } else {
        IrOp::Imul
    };
    let (s1, v1) = gv(s, inst, 1);
    let (s2, v2) = gv(s1, inst, 2);
    let (s3, prod) = op2(s2, mul, Ty::I64, v1, v2);
    let (s4, val) = op2(s3, IrOp::Ashr, Ty::I128, prod, Val::Const(64));
    write_spec(s4, val, dst(inst), Ty::I64)
}

/// Lifting `SDIV` and `UDIV`: a trap when operand 2 is zero, then the quotient of operands 1
/// and 2.
pub open spec fn div_spec(s: LState, inst: Instruction) -> LState {
    let ty = inst_type(inst);
    let (s1, v1) = gv(s, inst, 1);
    let (s2, v2) = gv(s1, inst, 2);
    let (s3, is_zero) = op2(s2, IrOp::Icmp(CmpTy::Eq), ty, v2, Val::Const(0));
    let s4 = s3.emit(IrOp::TrapIf, Ty::I1, seq![is_zero]);
    let div = if inst.opcode is SDIV {
        IrOp::Idiv
    } else {
        IrOp::Udiv
    };
    let (s5, val) = op2(s4, div, ty, v1, v2);
    write_spec(s5, val, dst(inst), ty)
}

/// Operations on one register operand.
pub open spec fn is_unary(o: Opcode) -> bool {
    o is RBIT || o is REV || o is REV64
}

/// Lifting `RBIT`, `REV` and `REV64`: operand 1 with its bits or bytes reversed.
pub open spec fn unary_spec(s: LState, inst: Instruction) -> LState {
    let ty = inst_type(inst);
    let (s1, v1) = gv(s, inst, 1);
    let op = if inst.opcode is RBIT {
        IrOp::ReverseBits
    } else {
        IrOp::ReverseBytes
    };
    let (s2, val) = op1(s1, op, ty, v1);
    write_spec(s2, val, dst(inst), ty)
}

/// Number of 16-bit halves `REV16` swaps the bytes of, for a register of type `ty`.
pub open spec fn rev16_rounds(ty: Ty) -> nat {
    if ty == Ty::I128 {
        8
    } else if ty == Ty::I64 {
        4
    } else {
        2
    }
}

/// One round of `REV16`: the bytes of the low half of `src` reversed into `res`, then both
/// rotated by 16 bits.
pub open spec fn rev16_round(s: LState, ty: Ty, src: Val, res: Val) -> (LState, Val, Val) {
    let sixteen = Val::Const(16);
    let (s1, half) = op1(s, IrOp::ReverseBytes, Ty::I16, src);
    let (s2, res1) = op2(s1, IrOp::Or, Ty::I16, res, half);
    let (s3, res2) = op2(s2, IrOp::Ror, ty, res1, sixteen);
    let (s4, src2) = op2(s3, IrOp::Ror, ty, src, sixteen);
    (s4, src2, res2)
}

/// `n` rounds of `REV16`.
pub open spec fn rev16_rounds_spec(s: LState, ty: Ty, src: Val, res: Val, n: nat) -> (
    LState,
    Val,
    Val,
)
    decreases n,
{
    if n == 0 {
        (s, src, res)
    } else {
        let (s1, src1, res1) = rev16_rounds_spec(s, ty, src, res, (n - 1) as nat);
        rev16_round(s1, ty, src1, res1)
    }
}

/// Lifting `REV16`: the bytes of every 16-bit half of operand 1 reversed, one half per round.
pub open spec fn rev16_spec(s: LState, inst: Instruction) -> LState {
    let ty = inst_type(inst);
    let (s1, v1) = gv(s, inst, 1);
    let (s2, _src, res) = rev16_rounds_spec(s1, ty, v1, Val::Const(0), rev16_rounds(ty));
    write_spec(s2, res, dst(inst), ty)
}

/// Lifting `REV32`: the bytes of both 32-bit halves of operand 1 reversed.
pub open spec fn rev32_spec(s: LState, inst: Instruction) -> LState {
    let c32 = Val::Const(32);
    let (s1, src) = gv(s, inst, 1);
    let (s2, half) = op1(s1, IrOp::ReverseBytes, Ty::I32, src);
    let (s3, res) = op2(s2, IrOp::Or, Ty::I32, Val::Const(0), half);
    let (s4, res2) = op2(s3, IrOp::Ror, Ty::I64, res, c32);
    let (s5, src2) = op2(s4, IrOp::Ror, Ty::I64, src, c32);
    let (s6, half2) = op1(s5, IrOp::ReverseBytes, Ty::I32, src2);
    let (s7, res3) = op2(s6, IrOp::Or, Ty::I32, res2, half2);
    let (s8, res4) = op2(s7, IrOp::Ror, Ty::I64, res3, c32);
    write_spec(s8, res4, dst(inst), Ty::I64)
}

/// Lifting `CLZ`: the register width minus one minus the position of the highest set bit.
pub open spec fn clz_spec(s: LState, inst: Instruction) -> LState {
    let ty = inst_type(inst);
    let (s1, src) = gv(s, inst, 1);
    let (s2, h) = op1(s1, IrOp::HighestSetBit, ty, src);
    let (s3, val) = op2(s2, IrOp::Sub, ty, width_const(ty), h);
    let (s4, val2) = op2(s3, IrOp::Sub, ty, val, Val::Const(1));
    write_spec(s4, val2, dst(inst), ty)
}

/// Lifting `CLS`: the leading-zero count of operand 1 with its top bit cleared, xored with
/// operand 1 shifted left by one.
pub open spec fn cls_spec(s: LState, inst: Instruction) -> LState {
    let ty = inst_type(inst);
    let one = Val::Const(1);
    let (s1, src) = gv(s, inst, 1);
    let (s2, mask) = op1(s1, IrOp::Not, ty, one);
    let (s3, masked) = op2(s2, IrOp::And, ty, src, mask);
    let (s4, shifted) = op2(s3, IrOp::Lshl, ty, src, one);
    let (s5, x) = op2(s4, IrOp::Xor, ty, masked, shifted);
    let (s6, h) = op1(s5, IrOp::HighestSetBit, ty, x);
    let (s7, val) = op2(s6, IrOp::Sub, ty, width_const(ty), h);
    let (s8, val2) = op2(s7, IrOp::Sub, ty, val, one);
    write_spec(s8, val2, dst(inst), ty)
}

/// Moves of a 16-bit immediate.
pub open spec fn is_mov(o: Opcode) -> bool {
    o is MOVK || o is MOVN || o is MOVZ
}

/// Lifting `MOVK`, `MOVN` and `MOVZ`: `MOVN` and `MOVZ` first clear the destination; the
/// immediate, complemented for `MOVN`, is then written as 16 bits.
pub open spec fn mov_spec(s: LState, inst: Instruction) -> LState {
    let ty = inst_type(inst);
    let d = dst(inst);
    if inst.opcode is MOVK {
        let (s1, src) = gv(s, inst, 1);
        write_spec(s1, src, d, Ty::I16)
    } else {
        let s1 = write_spec(s, Val::Const(0), d, ty);
        let (s2, src) = gv(s1, inst, 1);
        if inst.opcode is MOVN {
            let (s3, n) = op1(s2, IrOp::Not, Ty::I16, src);
            write_spec(s3, n, d, Ty::I16)
        } else {
            write_spec(s2, src, d, Ty::I16)
        }
    }
}

/// Lifting `NEG`: zero minus operand 1.
pub open spec fn neg_spec(s: LState, inst: Instruction) -> LState {
    let ty = inst_type(inst);
    let (s1, src) = gv(s, inst, 1);
    let (s2, val) = op2(s1, IrOp::Sub, ty, Val::Const(0), src);
    write_spec(s2, val, dst(inst), ty)
}

/// Lifting `EXTR`: operand 2 shifted right by operand 3, or operand 1 shifted left by the
/// register width minus operand 3.
pub open spec fn extr_spec(s: LState, inst: Instruction) -> LState {
    let ty = inst_type(inst);
    let (s1, v1) = gv(s, inst, 1);
    let (s2, v2) = gv(s1, inst, 2);
    let (s3, sh) = gv(s2, inst, 3);
    let (s4, low) = op2(s3, IrOp::Lshr, ty, v2, sh);
    let (s5, sh2) = op2(s4, IrOp::Sub, ty, width_const(ty), sh);
    let (s6, high) = op2(s5, IrOp::Lshl, ty, v1, sh2);
    let (s7, val) = op2(s6, IrOp::Or, ty, high, low);
    write_spec(s7, val, dst(inst), ty)
}

/// Reading the program counter.
pub open spec fn pc_spec(s: LState) -> (LState, Val) {
    reg_val_spec(s, SizeCode::X, REG_PC as u16, SpOrZrReg::Sp)
}

/// Lifting `ADR`: the program counter plus operand 1.
pub open spec fn adr_spec(s: LState, inst: Instruction) -> LState {
    let (s1, pc) = pc_spec(s);
    let (s2, off) = gv(s1, inst, 1);
    let (s3, val) = op2(s2, IrOp::Add, Ty::I64, pc, off);
    write_spec(s3, val, dst(inst), Ty::I64)
}

/// Lifting `ADRP`: operand 1, the page offset, added to the program counter with its low 12
/// bits cleared (the address of its 4 KiB page).
pub open spec fn adrp_spec(s: LState, inst: Instruction) -> LState {
    let (s1, off) = gv(s, inst, 1);
    let (s2, mask) = op1(s1, IrOp::Not, Ty::I64, Val::Const(0xfff));
    let (s3, pc) = pc_spec(s2);
    let (s4, page) = op2(s3, IrOp::And, Ty::I64, pc, mask);
    let (s5, val) = op2(s4, IrOp::Add, Ty::I64, page, off);
    write_spec(s5, val, dst(inst), Ty::I64)
}

/// Lifting an instruction the lifter does not model: a general purpose destination receives
/// an opaque value; anything else is left as it is.
pub open spec fn default_spec(s: LState, inst: Instruction) -> LState {
    if is_general_purpose(inst.operands@[0]) {
        let ty = inst_type(inst);
        let (s1, val) = (s.emit(IrOp::Opaque, ty, seq![]), s.val());
        write_spec(s1, val, dst(inst), ty)
    } else {
        s
    }
}

/// What every lifting step promises about the state it leaves.
pub open spec fn step_ok(before: LifterState, after: LifterState) -> bool {
    &&& after.wf()
    &&& after.label_resolver == before.label_resolver
    &&& before.st().le(after.st())
}

impl LifterState {
    /// Lifts `ADD`, `ADDS`, `SUB`, `SUBS`, `AND`, `ANDS` and `ORR`.
    pub fn lift_arith(&mut self, inst: Instruction)
        requires
            old(self).wf(),
            is_arith(inst.opcode),
            dst_ok(inst),
            reads_ok(inst, 1),
            reads_ok(inst, 2),
        ensures
            step_ok(*old(self), *final(self)),
            final(self).st() == arith_spec(old(self).st(), inst),
    {
        let src1 = self.get_value(inst.operands[1]);
        let src2 = self.get_value(inst.operands[2]);
        let dst_reg = self.dst_reg(inst);
        let op_type = get_type_by_inst(inst);
        let op = match inst.opcode {
            Opcode::ADD | Opcode::ADDS => IrOp::Add,
            Opcode::SUB | Opcode::SUBS => IrOp::Sub,
            Opcode::AND | Opcode::ANDS => IrOp::And,
            _ => IrOp::Or,
        };
        let val = self.emit2(op, op_type, src1, src2);
        self.write_reg(val, dst_reg, op_type);
        match inst.opcode {
            Opcode::ADDS => {
                self.set_flags_using_adc(src1, src2, op_type, Val::Const(0));
            },
            Opcode::SUBS => {
                let not_src2 = self.emit1(IrOp::Not, op_type, src2);
                self.set_flags_using_adc(src1, not_src2, op_type, Val::Const(1));
            },
            Opcode::ANDS => {
                let zero = Val::Const(0);
                self.write_flag(zero, Flag::C);
                self.write_flag(zero, Flag::V);
                let is_zero = self.emit2(IrOp::Icmp(CmpTy::Eq), op_type, val, zero);
                self.write_flag(is_zero, Flag::Z);
                let is_negative = self.emit2(IrOp::Icmp(CmpTy::Slt), op_type, val, zero);
                self.write_flag(is_negative, Flag::N);
            },
            _ => {},
        }
    }

    /// Lifts `ADC` and `ADCS`.
    pub fn lift_adc(&mut self, inst: Instruction)
        requires
            old(self).wf(),
            inst.opcode is ADC || inst.opcode is ADCS,
            dst_ok(inst),
            reads_ok(inst, 1),
            reads_ok(inst, 2),
        ensures
            step_ok(*old(self), *final(self)),
            final(self).st() == adc_spec(old(self).st(), inst),
    {
        let src1 = self.get_value(inst.operands[1]);
        let src2 = self.get_value(inst.operands[2]);
        let carry = self.flag_value(Flag::C);
        let dst_reg = self.dst_reg(inst);
        let op_type = get_type_by_inst(inst);
        let val = self.emit2(IrOp::Add, op_type, src1, carry);
        let val = self.emit2(IrOp::Add, op_type, val, src2);
        self.write_reg(val, dst_reg, op_type);
        if inst.opcode == Opcode::ADCS {
            self.set_flags_using_adc(src1, src2, op_type, carry);
        }
    }

    /// Lifts `SBC` and `SBCS`.
    pub fn lift_sbc(&mut self, inst: Instruction)
        requires
            old(self).wf(),
            inst.opcode is SBC || inst.opcode is SBCS,
            dst_ok(inst),
            reads_ok(inst, 1),
            reads_ok(inst, 2),
        ensures
            step_ok(*old(self), *final(self)),
            final(self).st() == sbc_spec(old(self).st(), inst),
    {
        let src1 = self.get_value(inst.operands[1]);
        let src2 = self.get_value(inst.operands[2]);
        let carry = self.flag_value(Flag::C);
        let carry = self.emit1(IrOp::Not, Ty::I1, carry);
        let dst_reg = self.dst_reg(inst);
        let op_type = get_type_by_inst(inst);
        let val = self.emit2(IrOp::Sub, op_type, src1, src2);
        let val = self.emit2(IrOp::Sub, op_type, val, carry);
        self.write_reg(val, dst_reg, op_type);
        if inst.opcode == Opcode::SBCS {
            let carry = self.flag_value(Flag::C);
            self.set_flags_using_adc(src1, src2, op_type, carry);
        }
    }

    /// Lifts `BIC`, `ORN` and `EON`.
    pub fn lift_not_then(&mut self, inst: Instruction)
        requires
            old(self).wf(),
            is_not_then(inst.opcode),
            dst_ok(inst),
            reads_ok(inst, 1),
            reads_ok(inst, 2),
        ensures
            step_ok(*old(self), *final(self)),
            final(self).st() == not_then_spec(old(self).st(), inst),
    {
        let src1 = self.get_value(inst.operands[1]);
        let src2 = self.get_value(inst.operands[2]);
        let dst_reg = self.dst_reg(inst);
        let op_type = get_type_by_inst(inst);
        let not_op = if inst.opcode == Opcode::BIC {
            IrOp::BitwiseNot
        } else {
            IrOp::Not
        };
        let neg_src2 = self.emit1(not_op, op_type, src2);
        let op = match inst.opcode {
            Opcode::BIC => IrOp::And,
            Opcode::ORN => IrOp::Or,
            _ => IrOp::Xor,
        };
        let val = self.emit2(op, op_type, src1, neg_src2);
        self.write_reg(val, dst_reg, op_type);
    }

    /// Lifts `EOR`.
    pub fn lift_eor(&mut self, inst: Instruction)
        requires
            old(self).wf(),
            dst_ok(inst),
            reads_ok(inst, 1),
            reads_ok(inst, 2),
        ensures
            step_ok(*old(self), *final(self)),
            final(self).st() == eor_spec(old(self).st(), inst),
    {
        let dst_reg = self.dst_reg(inst);
        let op_type = get_type_by_inst(inst);
        let src1 = self.get_value(inst.operands[1]);
        let src2 = self.get_value(inst.operands[2]);
        self.emit2(IrOp::Xor, op_type, src1, src2);
        self.write_reg(src1, dst_reg, op_type);
    }

    /// Lifts `ASRV`, `LSLV`, `LSRV` and `RORV`.
    pub fn lift_var_shift(&mut self, inst: Instruction)
        requires
            old(self).wf(),
            is_var_shift(inst.opcode),
            dst_ok(inst),
            reads_ok(inst, 1),
            reads_ok(inst, 2),
        ensures
            step_ok(*old(self), *final(self)),
            final(self).st() == var_shift_spec(old(self).st(), inst),
    {
        let src1 = self.get_value(inst.operands[1]);
        let src2 = self.get_value(inst.operands[2]);
        let dst_reg = self.dst_reg(inst);
        let op_type = get_type_by_inst(inst);
        let shift_mask = shift_mask_val(op_type);
        let shift_val = self.emit2(IrOp::And, op_type, src2, shift_mask);
        let op = match inst.opcode {
            Opcode::ASRV => IrOp::Ashr,
            Opcode::LSLV => IrOp::Lshl,
            Opcode::LSRV => IrOp::Lshr,
            _ => IrOp::Ror,
        };
        let val = self.emit2(op, op_type, src1, shift_val);
        self.write_reg(val, dst_reg, op_type);
    }

    /// Lifts multiply-add and multiply-subtract.
    pub fn lift_mul_add(&mut self, inst: Instruction)
        requires
            old(self).wf(),
            is_mul_add(inst.opcode),
            dst_ok(inst),
            reads_ok(inst, 1),
            reads_ok(inst, 2),
            reads_ok(inst, 3),
        ensures
            step_ok(*old(self), *final(self)),
            final(self).st() == mul_add_spec(old(self).st(), inst),
    {
        let dst_reg = self.dst_reg(inst);
        let op_type = get_type_by_inst(inst);
        let long = !(inst.opcode == Opcode::MADD || inst.opcode == Opcode::MSUB);
        let mul_ty = if long {
            Ty::I32
        } else {
            op_type
        };
        let add_ty = if long {
            Ty::I64
        } else {
            op_type
        };
        let mul = if inst.opcode == Opcode::UMADDL || inst.opcode == Opcode::UMSUBL {
            IrOp::Umul
        } else {
            IrOp::Imul
        };
        let src1 = self.get_value(inst.operands[1]);
        let src2 = self.get_value(inst.operands[2]);
        let src3 = self.get_value(inst.operands[3]);
        let prod = self.emit2(mul, mul_ty, src1, src2);
        let val = if inst.opcode == Opcode::MADD || inst.opcode == Opcode::SMADDL || inst.opcode
            == Opcode::UMADDL {
            self.emit2(IrOp::Add, add_ty, prod, src3)
        } else {
            self.emit2(IrOp::Sub, add_ty, src3, prod)
        };
        self.write_reg(val, dst_reg, add_ty);
    }

    /// Lifts `SMULH` and `UMULH`.
    pub fn lift_mul_high(&mut self, inst: Instruction)
        requires
            old(self).wf(),
            inst.opcode is SMULH || inst.opcode is UMULH,
            dst_ok(inst),
            reads_ok(inst, 1),
            reads_ok(inst, 2),
        ensures
            step_ok(*old(self), *final(self)),
            final(self).st() == mul_high_spec(old(self).st(), inst),
    {
        let dst_reg = self.dst_reg(inst);
        let mul = if inst.opcode == Opcode::UMULH {
            IrOp::Umul
        } else {
            IrOp::Imul
        };
        let src1 = self.get_value(inst.operands[1]);
        let src2 = self.get_value(inst.operands[2]);
        let val = self.emit2(mul, Ty::I64, src1, src2);
        let val = self.emit2(IrOp::Ashr, Ty::I128, val, Val::Const(64));
        self.write_reg(val, dst_reg, Ty::I64);
    }

    /// Lifts `SDIV` and `UDIV`.
    pub fn lift_div(&mut self, inst: Instruction)
        requires
            old(self).wf(),
            inst.opcode is SDIV || inst.opcode is UDIV,
            dst_ok(inst),
            reads_ok(inst, 1),
            reads_ok(inst, 2),
        ensures
            step_ok(*old(self), *final(self)),
            final(self).st() == div_spec(old(self).st(), inst),
    {
        let src1 = self.get_value(inst.operands[1]);
        let src2 = self.get_value(inst.operands[2]);
        let dst_reg = self.dst_reg(inst);
        let op_type = get_type_by_inst(inst);
        let trap = self.emit2(IrOp::Icmp(CmpTy::Eq), op_type, src2, Val::Const(0));
        self.emit1(IrOp::TrapIf, Ty::I1, trap);
        let div = if inst.opcode == Opcode::SDIV {
            IrOp::Idiv
        } else {
            IrOp::Udiv
        };
        let val = self.emit2(div, op_type, src1, src2);
        self.write_reg(val, dst_reg, op_type);
    }

    /// Lifts `RBIT`, `REV` and `REV64`.
    pub fn lift_unary(&mut self, inst: Instruction)
        requires
            old(self).wf(),
            is_unary(inst.opcode),
            dst_ok(inst),
            reads_ok(inst, 1),
        ensures
            step_ok(*old(self), *final(self)),
            final(self).st() == unary_spec(old(self).st(), inst),
    {
        let dst_reg = self.dst_reg(inst);
        let op_type = get_type_by_inst(inst);
        let src = self.get_value(inst.operands[1]);
        let op = if inst.opcode == Opcode::RBIT {
            IrOp::ReverseBits
        } else {
            IrOp::ReverseBytes
        };
        let val = self.emit1(op, op_type, src);
        self.write_reg(val, dst_reg, op_type);
    }

    /// Lifts `REV16`.
    pub fn lift_rev16(&mut self, inst: Instruction)
        requires
            old(self).wf(),
            dst_ok(inst),
            reads_ok(inst, 1),
        ensures
            step_ok(*old(self), *final(self)),
            final(self).st() == rev16_spec(old(self).st(), inst),
    {
        let dst_reg = self.dst_reg(inst);
        let op_type = get_type_by_inst(inst);
        let mut src = self.get_value(inst.operands[1]);
        let mut res = Val::Const(0);
        let sixteen = Val::Const(16);
        let loop_iterations: u64 = match op_type {
            Ty::I128 => 8,
            Ty::I64 => 4,
            _ => 2,
        };
        let ghost s1 = self.st();
        let ghost v1 = src;
        let ghost start = *self;
        let mut i: u64 = 0;
        while i < loop_iterations
            invariant
                self.wf(),
                self.label_resolver == start.label_resolver,
                start.st().le(self.st()),
                i <= loop_iterations,
                loop_iterations == rev16_rounds(op_type),
                (self.st(), src, res) == rev16_rounds_spec(s1, op_type, v1, Val::Const(0), i as nat),
                self.st().ok(src),
                self.st().ok(res),
                sixteen == Val::Const(16),
            decreases loop_iterations - i,
        {
            let val = self.emit1(IrOp::ReverseBytes, Ty::I16, src);
            res = self.emit2(IrOp::Or, Ty::I16, res, val);
            res = self.emit2(IrOp::Ror, op_type, res, sixteen);
            src = self.emit2(IrOp::Ror, op_type, src, sixteen);
            i = i + 1;
        }
        self.write_reg(res, dst_reg, op_type);
    }

    /// Lifts `REV32`.
    pub fn lift_rev32(&mut self, inst: Instruction)
        requires
            old(self).wf(),
            dst_ok(inst),
            reads_ok(inst, 1),
        ensures
            step_ok(*old(self), *final(self)),
            final(self).st() == rev32_spec(old(self).st(), inst),
    {
        let dst_reg = self.dst_reg(inst);
        let src = self.get_value(inst.operands[1]);
        let thirtytwo = Val::Const(32);
        let val = self.emit1(IrOp::ReverseBytes, Ty::I32, src);
        let res = self.emit2(IrOp::Or, Ty::I32, Val::Const(0), val);
        let res = self.emit2(IrOp::Ror, Ty::I64, res, thirtytwo);
        let src = self.emit2(IrOp::Ror, Ty::I64, src, thirtytwo);
        let val = self.emit1(IrOp::ReverseBytes, Ty::I32, src);
        let res = self.emit2(IrOp::Or, Ty::I32, res, val);
        let res = self.emit2(IrOp::Ror, Ty::I64, res, thirtytwo);
        self.write_reg(res, dst_reg, Ty::I64);
    }

    /// Lifts `CLZ`.
    pub fn lift_clz(&mut self, inst: Instruction)
        requires
            old(self).wf(),
            dst_ok(inst),
            reads_ok(inst, 1),
        ensures
            step_ok(*old(self), *final(self)),
            final(self).st() == clz_spec(old(self).st(), inst),
    {
        let src = self.get_value(inst.operands[1]);
        let dst_reg = self.dst_reg(inst);
        let op_type = get_type_by_inst(inst);
        let n = width_val(op_type);
        let highest_set_bit = self.emit1(IrOp::HighestSetBit, op_type, src);
        let val = self.emit2(IrOp::Sub, op_type, n, highest_set_bit);
        let val = self.emit2(IrOp::Sub, op_type, val, Val::Const(1));
        self.write_reg(val, dst_reg, op_type);
    }

    /// Lifts `CLS`.
    pub fn lift_cls(&mut self, inst: Instruction)
        requires
            old(self).wf(),
            dst_ok(inst),
            reads_ok(inst, 1),
        ensures
            step_ok(*old(self), *final(self)),
            final(self).st() == cls_spec(old(self).st(), inst),
    {
        let src = self.get_value(inst.operands[1]);
        let dst_reg = self.dst_reg(inst);
        let op_type = get_type_by_inst(inst);
        let one = Val::Const(1);
        let mask = self.emit1(IrOp::Not, op_type, one);
        let masked = self.emit2(IrOp::And, op_type, src, mask);
        let shifted = self.emit2(IrOp::Lshl, op_type, src, one);
        let val = self.emit2(IrOp::Xor, op_type, masked, shifted);
        let n = width_val(op_type);
        let highest_set_bit = self.emit1(IrOp::HighestSetBit, op_type, val);
        let val = self.emit2(IrOp::Sub, op_type, n, highest_set_bit);
        let val = self.emit2(IrOp::Sub, op_type, val, one);
        self.write_reg(val, dst_reg, op_type);
    }

    /// Lifts `MOVK`, `MOVN` and `MOVZ`.
    pub fn lift_mov(&mut self, inst: Instruction)
        requires
            old(self).wf(),
            is_mov(inst.opcode),
            dst_ok(inst),
            reads_ok(inst, 1),
        ensures
            step_ok(*old(self), *final(self)),
            final(self).st() == mov_spec(old(self).st(), inst),
    {
        let dst_reg = self.dst_reg(inst);
        if inst.opcode == Opcode::MOVK {
            let src = self.get_value(inst.operands[1]);
            self.write_reg(src, dst_reg, Ty::I16);
        } else {
            let op_type = get_type_by_inst(inst);
            self.write_reg(Val::Const(0), dst_reg, op_type);
            let src = self.get_value(inst.operands[1]);
            if inst.opcode == Opcode::MOVN {
                let src = self.emit1(IrOp::Not, Ty::I16, src);
                self.write_reg(src, dst_reg, Ty::I16);
            } else {
                self.write_reg(src, dst_reg, Ty::I16);
            }
        }
    }

    /// Lifts `NEG`.
    pub fn lift_neg(&mut self, inst: Instruction)
        requires
            old(self).wf(),
            dst_ok(inst),
            reads_ok(inst, 1),
        ensures
            step_ok(*old(self), *final(self)),
            final(self).st() == neg_spec(old(self).st(), inst),
    {
        let src = self.get_value(inst.operands[1]);
        let dst_reg = self.dst_reg(inst);
        let op_type = get_type_by_inst(inst);
        let val = self.emit2(IrOp::Sub, op_type, Val::Const(0), src);
        self.write_reg(val, dst_reg, op_type);
    }

    /// Lifts `EXTR`.
    pub fn lift_extr(&mut self, inst: Instruction)
        requires
            old(self).wf(),
            dst_ok(inst),
            reads_ok(inst, 1),
            reads_ok(inst, 2),
            reads_ok(inst, 3),
        ensures
            step_ok(*old(self), *final(self)),
            final(self).st() == extr_spec(old(self).st(), inst),
    {
        let dst_reg = self.dst_reg(inst);
        let op_type = get_type_by_inst(inst);
        let src1 = self.get_value(inst.operands[1]);
        let src2 = self.get_value(inst.operands[2]);
        let shift_val = self.get_value(inst.operands[3]);
        let datasize = width_val(op_type);
        let src2 = self.emit2(IrOp::Lshr, op_type, src2, shift_val);
        let shift_val = self.emit2(IrOp::Sub, op_type, datasize, shift_val);
        let src1 = self.emit2(IrOp::Lshl, op_type, src1, shift_val);
        let val = self.emit2(IrOp::Or, op_type, src1, src2);
        self.write_reg(val, dst_reg, op_type);
    }

    /// Lifts `ADR`.
    pub fn lift_adr(&mut self, inst: Instruction)
        requires
            old(self).wf(),
            dst_ok(inst),
            reads_ok(inst, 1),
        ensures
            step_ok(*old(self), *final(self)),
            final(self).st() == adr_spec(old(self).st(), inst),
    {
        let dst_reg = self.dst_reg(inst);
        let pc = self.read_pc_reg();
        let offset = self.get_value(inst.operands[1]);
        let val = self.emit2(IrOp::Add, Ty::I64, pc, offset);
        self.write_reg(val, dst_reg, Ty::I64);
    }

    /// Lifts `ADRP`.
    pub fn lift_adrp(&mut self, inst: Instruction)
        requires
            old(self).wf(),
            dst_ok(inst),
            reads_ok(inst, 1),
        ensures
            step_ok(*old(self), *final(self)),
            final(self).st() == adrp_spec(old(self).st(), inst),
    {
        let dst_reg = self.dst_reg(inst);
        let offset = self.get_value(inst.operands[1]);
        let mask = self.emit1(IrOp::Not, Ty::I64, Val::Const(0xfff));
        let pc = self.read_pc_reg();
        let masked_pc = self.emit2(IrOp::And, Ty::I64, pc, mask);
        let addr = self.emit2(IrOp::Add, Ty::I64, masked_pc, offset);
        self.write_reg(addr, dst_reg, Ty::I64);
    }

    /// Lifts an instruction the lifter does not model.
    pub fn lift_default(&mut self, inst: Instruction)
        requires
            old(self).wf(),
            is_general_purpose(inst.operands@[0]) ==> dst_ok(inst),
        ensures
            step_ok(*old(self), *final(self)),
            final(self).st() == default_spec(old(self).st(), inst),
    {
        if is_operand_general_purpose(inst.operands[0]) {
            let dst_reg = self.dst_reg(inst);
            let op_type = get_type_by_inst(inst);
            let val = self.emit0(IrOp::Opaque, op_type);
            self.write_reg(val, dst_reg, op_type);
        }
    }
}

} // verus!
