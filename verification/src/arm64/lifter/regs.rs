//! Reading and writing registers.

use crate::arm64::decode::{Instruction, Operand, SizeCode};
use crate::arm64::helper::{get_type_by_sizecode, sizecode_type};
use crate::arm64::ir::{IrOp, Ty, Val, REG_C, REG_N, REG_PC, REG_SP, REG_V, REG_Z};
use crate::arm64::lifter::{Flag, LState, LifterState, SpOrZrReg};
use vstd::prelude::*;

verus! {

/// Register index of the link register `x30`.
pub const REG_LR: usize = 30;

/// What reading register `reg` of size `sz` appends, and the value read.  Register 31 is the
/// stack pointer, read as 64 bits, or the zero register, whose value is left opaque.
pub open spec fn reg_val_spec(s: LState, sz: SizeCode, reg: u16, sp_or_zr: SpOrZrReg) -> (
    LState,
    Val,
) {
    if reg == 31 {
        match sp_or_zr {
            SpOrZrReg::Sp => (s.emit(IrOp::ReadReg, Ty::I64, seq![Val::Reg(REG_SP)]), s.val()),
            SpOrZrReg::Zr => (s.emit(IrOp::Opaque, sizecode_type(sz), seq![]), s.val()),
        }
    } else {
        (s.emit(IrOp::ReadReg, sizecode_type(sz), seq![Val::Reg(reg as usize)]), s.val())
    }
}

/// Register index of a flag.
pub open spec fn flag_index(flag: Flag) -> usize {
    match flag {
        Flag::N => REG_N,
        Flag::Z => REG_Z,
        Flag::C => REG_C,
        Flag::V => REG_V,
    }
}

/// What reading a flag appends, and the value read.
pub open spec fn flag_spec(s: LState, flag: Flag) -> (LState, Val) {
    (s.emit(IrOp::ReadReg, Ty::I1, seq![Val::Reg(flag_index(flag))]), s.val())
}

/// The state after writing `v` of type `ty` to register `reg`.
pub open spec fn write_spec(s: LState, v: Val, reg: usize, ty: Ty) -> LState {
    s.emit(IrOp::WriteReg, ty, seq![v, Val::Reg(reg)])
}

/// The register an operand names: register 31 of a register-or-stack-pointer operand is the
/// stack pointer, which only exists as 64 bits.
pub open spec fn reg_index_spec(o: Operand) -> Option<usize> {
    match o {
        Operand::Register(_, r) => Some(r as usize),
        Operand::RegisterOrSP(sz, r) => if r == 31 {
            if sz == SizeCode::X {
                Some(REG_SP)
            } else {
                None
            }
        } else {
            Some(r as usize)
        },
        _ => None,
    }
}

impl LifterState {
    /// Reads register `reg` of size `sz`.
    pub fn reg_val(&mut self, sz: SizeCode, reg: u16, sp_or_zr: SpOrZrReg) -> (v: Val)
        requires
            old(self).wf(),
            reg < 37,
        ensures
            final(self).wf(),
            (final(self).st(), v) == reg_val_spec(old(self).st(), sz, reg, sp_or_zr),
            final(self).st().ok(v),
            old(self).st().le(final(self).st()),
            final(self).label_resolver == old(self).label_resolver,
    {
        let op_type = get_type_by_sizecode(sz);
        if reg == 31 {
            match sp_or_zr {
                SpOrZrReg::Sp => self.emit1(IrOp::ReadReg, Ty::I64, Val::Reg(REG_SP)),
                SpOrZrReg::Zr => self.emit0(IrOp::Opaque, op_type),
            }
        } else {
            self.emit1(IrOp::ReadReg, op_type, Val::Reg(reg as usize))
        }
    }

    /// The register operand `index` of `inst` names, if it names one.
    pub fn get_reg_by_index(&self, inst: Instruction, index: usize) -> (r: Option<usize>)
        requires
            index < 4,
        ensures
            r == reg_index_spec(inst.operands@[index as int]),
    {
        match inst.operands[index] {
            Operand::Register(_, reg) => Some(reg as usize),
            Operand::RegisterOrSP(sz, reg) => {
                if reg == 31 {
                    match sz {
                        SizeCode::X => Some(REG_SP),
                        SizeCode::W => None,
                    }
                } else {
                    Some(reg as usize)
                }
            },
            _ => None,
        }
    }

    /// The register the first operand of `inst` names, if it names one.
    pub fn get_dst_reg(&self, inst: Instruction) -> (r: Option<usize>)
        ensures
            r == reg_index_spec(inst.operands@[0]),
    {
        self.get_reg_by_index(inst, 0)
    }

    /// Reads the program counter.
    pub fn read_pc_reg(&mut self) -> (v: Val)
        requires
            old(self).wf(),
        ensures
            final(self).wf(),
            (final(self).st(), v) == reg_val_spec(
                old(self).st(),
                SizeCode::X,
                REG_PC as u16,
                SpOrZrReg::Sp,
            ),
            final(self).label_resolver == old(self).label_resolver,
    {
        self.reg_val(SizeCode::X, REG_PC as u16, SpOrZrReg::Sp)
    }

    /// Writes `val` of type `op_type` to register `dst_reg`, which is not register 31.
    pub fn write_reg(&mut self, val: Val, dst_reg: usize, op_type: Ty)
        requires
            old(self).wf(),
            old(self).st().ok(val),
            dst_reg < 37,
            dst_reg != 31,
        ensures
            final(self).wf(),
            final(self).st() == write_spec(old(self).st(), val, dst_reg, op_type),
            final(self).label_resolver == old(self).label_resolver,
    {
        self.emit2(IrOp::WriteReg, op_type, val, Val::Reg(dst_reg));
    }

    /// Reads a condition flag.
    pub fn flag_value(&mut self, flag: Flag) -> (v: Val)
        requires
            old(self).wf(),
        ensures
            final(self).wf(),
            (final(self).st(), v) == flag_spec(old(self).st(), flag),
            final(self).label_resolver == old(self).label_resolver,
    {
        let reg = get_flag_reg(flag);
        self.emit1(IrOp::ReadReg, Ty::I1, Val::Reg(reg))
    }

    /// Writes a condition flag.
    pub fn write_flag(&mut self, value: Val, flag: Flag)
        requires
            old(self).wf(),
            old(self).st().ok(value),
        ensures
            final(self).wf(),
            final(self).st() == write_spec(old(self).st(), value, flag_index(flag), Ty::I1),
            final(self).label_resolver == old(self).label_resolver,
    {
        let reg = get_flag_reg(flag);
        self.write_reg(value, reg, Ty::I1);
    }
}

/// Register index of a flag.
pub fn get_flag_reg(flag: Flag) -> (r: usize)
    ensures
        r == flag_index(flag),
{
    match flag {
        Flag::N => REG_N,
        Flag::Z => REG_Z,
        Flag::C => REG_C,
        Flag::V => REG_V,
    }
}

} // verus!
