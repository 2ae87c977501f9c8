//! The value of an instruction operand.

use crate::arm64::decode::{Operand, ShiftStyle, SizeCode};
use crate::arm64::helper::{
    get_type_by_simd_sizecode, get_type_by_sizecode, is_typed_register, operand_type,
    sizecode_type,
};
use crate::arm64::ir::{IrOp, Ty, Val};
use crate::arm64::lifter::regs::reg_val_spec;
use crate::arm64::lifter::{LState, LifterState, SpOrZrReg};
use vstd::prelude::*;

verus! {

/// The operand can be read: its registers are general purpose registers, its shift amounts
/// are below 64, and it is not of a form the lifter does not read.
pub open spec fn operand_ok(o: Operand) -> bool {
    match o {
        Operand::Register(_, r) => r < 32,
        Operand::RegisterOrSP(_, r) => r < 32,
        Operand::ImmShift(_, s) => s < 64,
        Operand::ImmShiftMSL(_, s) => s < 64,
        Operand::RegShift(_, _, _, r) => r < 32,
        Operand::RegRegOffset(rn, rd, _, style, _) => rn < 32 && rd < 32 && (style is LSL
            || style is UXTW || style is SXTW || style is SXTX),
        Operand::RegPreIndex(rn, _, _) => rn < 32,
        Operand::RegPostIndex(rn, _) => rn < 32,
        Operand::RegPostIndexReg(_, _) => false,
        _ => true,
    }
}

/// Type of the opaque value that stands for an operand the lifter does not model.
pub open spec fn opaque_type(o: Operand) -> Ty {
    if is_typed_register(o) {
        operand_type(o)
    } else {
        Ty::I64
    }
}

/// A shifted or extended register: what is appended and the value.
pub open spec fn reg_shift_spec(
    s: LState,
    style: ShiftStyle,
    amount: u8,
    sz: SizeCode,
    reg: u16,
) -> (LState, Val) {
    let (s1, v) = reg_val_spec(s, sz, reg, SpOrZrReg::Zr);
    let ty = sizecode_type(sz);
    let sh = Val::Const(amount as u64);
    match style {
        ShiftStyle::LSL => if amount == 0 {
            (s1, v)
        } else {
            (s1.emit(IrOp::Lshl, ty, seq![v, sh]), s1.val())
        },
        ShiftStyle::LSR => if amount == 0 {
            (s1, v)
        } else {
            (s1.emit(IrOp::Lshr, ty, seq![v, sh]), s1.val())
        },
        ShiftStyle::ASR => (s1.emit(IrOp::Ashr, ty, seq![v, sh]), s1.val()),
        ShiftStyle::ROR => (s1.emit(IrOp::Ror, ty, seq![v, sh]), s1.val()),
        ShiftStyle::UXTB | ShiftStyle::UXTH | ShiftStyle::UXTW | ShiftStyle::UXTX => (s1, v),
        ShiftStyle::SXTB => {
            let s2 = s1.emit(IrOp::Trunc(Ty::I64), Ty::I8, seq![v]);
            (s2.emit(IrOp::Sext(Ty::I8), ty, seq![s1.val()]), s2.val())
        },
        ShiftStyle::SXTH => {
            let s2 = s1.emit(IrOp::Trunc(Ty::I64), Ty::I16, seq![v]);
            (s2.emit(IrOp::Sext(Ty::I16), ty, seq![s1.val()]), s2.val())
        },
        ShiftStyle::SXTW => {
            let s2 = s1.emit(IrOp::Trunc(Ty::I64), Ty::I32, seq![v]);
            if ty.bits() > 32 {
                (s2.emit(IrOp::Sext(Ty::I32), ty, seq![s1.val()]), s2.val())
            } else {
                (s2, s1.val())
            }
        },
        ShiftStyle::SXTX => (s1, v),
    }
}

/// A base register plus a shifted or extended index register: what is appended and the
/// address.
pub open spec fn reg_reg_offset_spec(
    s: LState,
    rn: u16,
    rd: u16,
    sz: SizeCode,
    style: ShiftStyle,
    amount: u8,
) -> (LState, Val) {
    let (s1, base) = reg_val_spec(s, SizeCode::X, rn, SpOrZrReg::Sp);
    let (s2, index) = reg_val_spec(s1, SizeCode::X, rd, SpOrZrReg::Zr);
    let sc = Val::Const(if amount == 1 {
        2
    } else {
        0
    });
    let ty = sizecode_type(sz);
    let (s3, off) = match style {
        ShiftStyle::LSL => (s2.emit(IrOp::Lshl, ty, seq![index, sc]), s2.val()),
        ShiftStyle::SXTW => {
            let t = s2.emit(IrOp::Trunc(Ty::I64), Ty::I32, seq![index]);
            (t.emit(IrOp::Sext(Ty::I32), Ty::I64, seq![s2.val()]), t.val())
        },
        _ => (s2, index),
    };
    (s3.emit(IrOp::Add, Ty::I64, seq![base, off]), s3.val())
}

/// The value of an immediate operand.
pub open spec fn imm_spec(o: Operand) -> Val {
    match o {
        Operand::Immediate(n) => Val::Const(n as u64),
        Operand::Imm64(n) => Val::Const(n),
        Operand::Imm16(n) => Val::Const(n as u64),
        Operand::ImmShift(n, sh) => Val::Const(((n as u64) << (sh as u64)) as u64),
        Operand::ImmShiftMSL(n, sh) => Val::Const(
            (((n as u64) << (sh as u64)) as u64 | (((1u64 << (sh as u64)) as u64) - 1) as u64) as u64,
        ),
        Operand::PCOffset(n) => Val::Const(n as u64),
        _ => Val::Const(0),
    }
}

/// The operand is an immediate value.
pub open spec fn is_imm(o: Operand) -> bool {
    o is Immediate || o is Imm64 || o is Imm16 || o is ImmShift || o is ImmShiftMSL || o is PCOffset
}

/// What reading an operand appends, and its value.
pub open spec fn value_spec(s: LState, o: Operand) -> (LState, Val) {
    match o {
        Operand::Register(sz, r) => reg_val_spec(s, sz, r, SpOrZrReg::Zr),
        Operand::RegisterOrSP(sz, r) => reg_val_spec(s, sz, r, SpOrZrReg::Sp),
        Operand::Immediate(_) | Operand::Imm64(_) | Operand::Imm16(_) | Operand::ImmShift(_, _)
        | Operand::ImmShiftMSL(_, _) | Operand::PCOffset(_) => (s, imm_spec(o)),
        Operand::RegShift(style, amount, sz, r) => reg_shift_spec(s, style, amount, sz, r),
        Operand::RegRegOffset(rn, rd, sz, style, amount) => reg_reg_offset_spec(
            s,
            rn,
            rd,
            sz,
            style,
            amount,
        ),
        Operand::RegPreIndex(rn, off, _) => {
            let (s1, base) = reg_val_spec(s, SizeCode::X, rn, SpOrZrReg::Sp);
            (s1.emit(IrOp::Add, Ty::I64, seq![base, Val::Const(off as u64)]), s1.val())
        },
        Operand::RegPostIndex(rn, off) => {
            let (s1, base) = reg_val_spec(s, SizeCode::X, rn, SpOrZrReg::Sp);
            (s1.emit(IrOp::Add, Ty::I64, seq![base, Val::Const(off as u64)]), s1.val())
        },
        _ => (s.emit(IrOp::Opaque, opaque_type(o), seq![]), s.val()),
    }
}

/// Type of the opaque value that stands for an operand the lifter does not model.
fn get_type_by_operand(o: Operand) -> (r: Ty)
    ensures
        r == opaque_type(o),
{
    match o {
        Operand::Register(sz, _) => get_type_by_sizecode(sz),
        Operand::RegisterOrSP(sz, _) => get_type_by_sizecode(sz),
        Operand::RegisterPair(sz, _) => get_type_by_sizecode(sz),
        Operand::SIMDRegister(sz, _) => get_type_by_simd_sizecode(sz),
        Operand::SIMDRegisterElements(sz, _, _) => get_type_by_simd_sizecode(sz),
        _ => Ty::I64,
    }
}

/// The value of an immediate operand.
fn imm_value(operand: Operand) -> (v: Val)
    requires
        is_imm(operand),
        operand_ok(operand),
    ensures
        v == imm_spec(operand),
{
    match operand {
        Operand::Immediate(n) => Val::Const(n as u64),
        Operand::Imm64(n) => Val::Const(n),
        Operand::Imm16(n) => Val::Const(n as u64),
        Operand::ImmShift(n, s) => Val::Const((n as u64) << (s as u64)),
        Operand::ImmShiftMSL(n, s) => {
            let (n, s) = (n as u64, s as u64);
            let val = n << s;
            assert(1u64 << s >= 1) by (bit_vector)
                requires
                    s < 64,
            ;
            let mask = (1u64 << s) - 1;
            Val::Const(val | mask)
        },
        Operand::PCOffset(n) => Val::Const(n as u64),
        _ => Val::Const(0),
    }
}

impl LifterState {
    /// Reads a shifted or extended register.
    fn reg_shift_value(&mut self, style: ShiftStyle, amount: u8, sz: SizeCode, reg: u16) -> (v:
        Val)
        requires
            old(self).wf(),
            reg < 32,
        ensures
            final(self).wf(),
            (final(self).st(), v) == reg_shift_spec(old(self).st(), style, amount, sz, reg),
            final(self).st().ok(v),
            old(self).st().le(final(self).st()),
            final(self).label_resolver == old(self).label_resolver,
    {
        let reg_val = self.reg_val(sz, reg, SpOrZrReg::Zr);
        let op_type = get_type_by_sizecode(sz);
        let shift_val = Val::Const(amount as u64);
        match style {
            ShiftStyle::LSL => if amount == 0 {
                reg_val
            } else {
                self.emit2(IrOp::Lshl, op_type, reg_val, shift_val)
            },
            ShiftStyle::LSR => if amount == 0 {
                reg_val
            } else {
                self.emit2(IrOp::Lshr, op_type, reg_val, shift_val)
            },
            ShiftStyle::ASR => self.emit2(IrOp::Ashr, op_type, reg_val, shift_val),
            ShiftStyle::ROR => self.emit2(IrOp::Ror, op_type, reg_val, shift_val),
            ShiftStyle::UXTB | ShiftStyle::UXTH | ShiftStyle::UXTW | ShiftStyle::UXTX => reg_val,
            ShiftStyle::SXTB => {
                let trunc = self.emit1(IrOp::Trunc(Ty::I64), Ty::I8, reg_val);
                self.emit1(IrOp::Sext(Ty::I8), op_type, trunc)
            },
            ShiftStyle::SXTH => {
                let trunc = self.emit1(IrOp::Trunc(Ty::I64), Ty::I16, reg_val);
                self.emit1(IrOp::Sext(Ty::I16), op_type, trunc)
            },
            ShiftStyle::SXTW => {
                let trunc = self.emit1(IrOp::Trunc(Ty::I64), Ty::I32, reg_val);
                if op_type == Ty::I64 {
                    self.emit1(IrOp::Sext(Ty::I32), op_type, trunc)
                } else {
                    trunc
                }
            },
            ShiftStyle::SXTX => reg_val,
        }
    }

    /// Reads a base register plus a shifted or extended index register.
    fn reg_reg_offset_value(
        &mut self,
        rn: u16,
        rd: u16,
        sz: SizeCode,
        style: ShiftStyle,
        amount: u8,
    ) -> (v: Val)
        requires
            old(self).wf(),
            rn < 32,
            rd < 32,
        ensures
            final(self).wf(),
            (final(self).st(), v) == reg_reg_offset_spec(old(self).st(), rn, rd, sz, style, amount),
            final(self).st().ok(v),
            old(self).st().le(final(self).st()),
            final(self).label_resolver == old(self).label_resolver,
    {
        let base = self.reg_val(SizeCode::X, rn, SpOrZrReg::Sp);
        let index = self.reg_val(SizeCode::X, rd, SpOrZrReg::Zr);
        let s = Val::Const(if amount == 1 { 2 } else { 0 });
        let op_type = get_type_by_sizecode(sz);
        let offset_val = match style {
            ShiftStyle::LSL => self.emit2(IrOp::Lshl, op_type, index, s),
            ShiftStyle::SXTW => {
                let trunc = self.emit1(IrOp::Trunc(Ty::I64), Ty::I32, index);
                self.emit1(IrOp::Sext(Ty::I32), Ty::I64, trunc)
            },
            _ => index,
        };
        self.emit2(IrOp::Add, Ty::I64, base, offset_val)
    }

    /// Reads an operand.
    pub fn get_value(&mut self, operand: Operand) -> (v: Val)
        requires
            old(self).wf(),
            operand_ok(operand),
        ensures
            final(self).wf(),
            (final(self).st(), v) == value_spec(old(self).st(), operand),
            final(self).st().ok(v),
            old(self).st().le(final(self).st()),
            final(self).label_resolver == old(self).label_resolver,
    {
        match operand {
            Operand::Register(sz, reg) => self.reg_val(sz, reg, SpOrZrReg::Zr),
            Operand::RegisterOrSP(sz, reg) => self.reg_val(sz, reg, SpOrZrReg::Sp),
            Operand::Immediate(_) | Operand::Imm64(_) | Operand::Imm16(_) | Operand::ImmShift(_, _)
            | Operand::ImmShiftMSL(_, _) | Operand::PCOffset(_) => imm_value(operand),
            Operand::RegShift(style, s, sz, reg) => self.reg_shift_value(style, s, sz, reg),
            Operand::RegRegOffset(rn, rd, sz, style, s) => self.reg_reg_offset_value(
                rn,
                rd,
                sz,
                style,
                s,
            ),
            Operand::RegPreIndex(rn, offset, _write_back) => self.base_offset_value(rn, offset),
            Operand::RegPostIndex(rn, offset) => self.base_offset_value(rn, offset),
            _ => {
                let ty = get_type_by_operand(operand);
                self.emit0(IrOp::Opaque, ty)
            },
        }
    }

    /// Reads a base register plus a constant offset.
    fn base_offset_value(&mut self, rn: u16, offset: i32) -> (v: Val)
        requires
            old(self).wf(),
            rn < 32,
        ensures
            final(self).wf(),
            (final(self).st(), v) == ({
                let (s1, base) = reg_val_spec(old(self).st(), SizeCode::X, rn, SpOrZrReg::Sp);
                (s1.emit(IrOp::Add, Ty::I64, seq![base, Val::Const(offset as u64)]), s1.val())
            }),
            final(self).st().ok(v),
            old(self).st().le(final(self).st()),
            final(self).label_resolver == old(self).label_resolver,
    {
        let base = self.reg_val(SizeCode::X, rn, SpOrZrReg::Sp);
        self.emit2(IrOp::Add, Ty::I64, base, Val::Const(offset as u64))
    }

    /// Whether an operand is a SIMD register.
    pub fn is_simd_register(operand: Operand) -> (r: bool)
        ensures
            r == (operand is SIMDRegister || operand is SIMDRegisterElements
                || operand is SIMDRegisterElementsLane || operand is SIMDRegisterElementsMultipleLane
                || operand is SIMDRegisterGroup || operand is SIMDRegisterGroupLane),
    {
        match operand {
            Operand::SIMDRegister(..) | Operand::SIMDRegisterElements(..)
            | Operand::SIMDRegisterElementsLane(..) | Operand::SIMDRegisterElementsMultipleLane(..)
            | Operand::SIMDRegisterGroup(..) | Operand::SIMDRegisterGroupLane(..) => true,
            _ => false,
        }
    }
}

} // verus!
