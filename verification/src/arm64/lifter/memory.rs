//! Lifting of loads, stores and compare-and-swap.

use crate::arm64::decode::{Instruction, Opcode};
use crate::arm64::helper::{get_type_by_inst, inst_type, is_typed_register};
use crate::arm64::ir::{CmpTy, IrOp, Ty, Val};
use crate::arm64::lifter::arith::step_ok;
use crate::arm64::lifter::common::{
    dst, dst_ok, gv, op1, op2, pair_offset_const, pair_offset_val, reads_ok, reg_at, writable,
};
use crate::arm64::lifter::operands::operand_ok;
use crate::arm64::lifter::regs::{reg_index_spec, write_spec};
use crate::arm64::lifter::{LState, LifterState};
use vstd::prelude::*;

verus! {

/// Loads of a whole register.
pub open spec fn is_load_full(o: Opcode) -> bool {
    o is LDR || o is LDUR || o is LDAR || o is LDXR || o is LDAXR || o is LDTR
}

/// Loads of a byte, zero extended.
pub open spec fn is_load_byte(o: Opcode) -> bool {
    o is LDRB || o is LDURB || o is LDARB || o is LDXRB || o is LDAXRB || o is LDTRB
}

/// Loads of a halfword, zero extended.
pub open spec fn is_load_half(o: Opcode) -> bool {
    o is LDRH || o is LDURH || o is LDARH || o is LDXRH || o is LDAXRH || o is LDTRH
}

/// Loads of a byte, sign extended.
pub open spec fn is_load_sbyte(o: Opcode) -> bool {
    o is LDRSB || o is LDTRSB || o is LDURSB
}

/// Loads of a halfword, sign extended.
pub open spec fn is_load_shalf(o: Opcode) -> bool {
    o is LDRSH || o is LDTRSH || o is LDURSH
}

/// Loads of a word, sign extended to 64 bits.
pub open spec fn is_load_sword(o: Opcode) -> bool {
    o is LDRSW || o is LDTRSW || o is LDURSW
}

/// Loads of a single register.
pub open spec fn is_load(o: Opcode) -> bool {
    is_load_full(o) || is_load_byte(o) || is_load_half(o) || is_load_sbyte(o) || is_load_shalf(o)
        || is_load_sword(o)
}

/// Lifting a single-register load from the address operand 1: the loaded value, extended as
/// the instruction says, is written to the destination.
pub open spec fn load_spec(s: LState, inst: Instruction) -> LState {
    let o = inst.opcode;
    let ty = inst_type(inst);
    let d = dst(inst);
    let (s1, addr) = gv(s, inst, 1);
    if is_load_full(o) {
        let (s2, v) = op1(s1, IrOp::Load, ty, addr);
        write_spec(s2, v, d, ty)
    } else if is_load_byte(o) || is_load_half(o) {
        let small = if is_load_byte(o) {
            Ty::I8
        } else {
            Ty::I16
        };
        let (s2, v) = op1(s1, IrOp::Load, small, addr);
        let (s3, w) = op1(s2, IrOp::Zext(small), Ty::I32, v);
        write_spec(s3, w, d, Ty::I32)
    } else {
        let small = if is_load_sbyte(o) {
            Ty::I8
        } else if is_load_shalf(o) {
            Ty::I16
        } else {
            Ty::I32
        };
        let wide = if is_load_sword(o) {
            Ty::I64
        } else {
            ty
        };
        let (s2, v) = op1(s1, IrOp::Load, small, addr);
        let (s3, w) = op1(s2, IrOp::Sext(small), wide, v);
        write_spec(s3, w, d, wide)
    }
}

/// Lifting `LDP` and `LDXP`: two values of the register type loaded from the address operand
/// 2 and the address one element further, into the registers of operands 0 and 1.
pub open spec fn load_pair_spec(s: LState, inst: Instruction) -> LState {
    let ty = inst_type(inst);
    let (s1, addr) = gv(s, inst, 2);
    let (s2, v1) = op1(s1, IrOp::Load, ty, addr);
    let s3 = write_spec(s2, v1, reg_at(inst, 0), ty);
    let (s4, addr2) = op2(s3, IrOp::Add, Ty::I64, addr, pair_offset_const(ty));
    let (s5, v2) = op1(s4, IrOp::Load, ty, addr2);
    write_spec(s5, v2, reg_at(inst, 1), ty)
}

/// Lifting `LDPSW`: two words loaded from the address operand 2 and four bytes further, each
/// sign extended to 64 bits, into the registers of operands 0 and 1.
pub open spec fn ldpsw_spec(s: LState, inst: Instruction) -> LState {
    let (s1, addr) = gv(s, inst, 2);
    let (s2, v1) = op1(s1, IrOp::Load, Ty::I32, addr);
    let (s3, w1) = op1(s2, IrOp::Sext(Ty::I32), Ty::I64, v1);
    let s4 = write_spec(s3, w1, reg_at(inst, 0), Ty::I64);
    let (s5, addr2) = op2(s4, IrOp::Add, Ty::I64, addr, Val::Const(4));
    let (s6, v2) = op1(s5, IrOp::Load, Ty::I32, addr2);
    let (s7, w2) = op1(s6, IrOp::Sext(Ty::I32), Ty::I64, v2);
    write_spec(s7, w2, reg_at(inst, 1), Ty::I64)
}

/// Stores of a whole register.
pub open spec fn is_store_full(o: Opcode) -> bool {
    o is STR || o is STLR || o is STUR || o is STLUR || o is STTR
}

/// Stores of a byte.
pub open spec fn is_store_byte(o: Opcode) -> bool {
    o is STRB || o is STLRB || o is STURB || o is STLURB || o is STTRB
}

/// Stores of a halfword.
pub open spec fn is_store_half(o: Opcode) -> bool {
    o is STRH || o is STLRH || o is STURH || o is STLURH || o is STTRH
}

/// Stores of a single register.
pub open spec fn is_store(o: Opcode) -> bool {
    is_store_full(o) || is_store_byte(o) || is_store_half(o)
}

/// Type a store writes to memory: the register type for whole registers, 8 bits for bytes
/// and 32 bits for halfwords.
pub open spec fn store_type(inst: Instruction) -> Ty {
    if is_store_full(inst.opcode) {
        inst_type(inst)
    } else if is_store_byte(inst.opcode) {
        Ty::I8
    } else {
        Ty::I32
    }
}

/// Lifting a single-register store: operand 0 stored at the address operand 1.
pub open spec fn store_spec(s: LState, inst: Instruction) -> LState {
    let (s1, v) = gv(s, inst, 0);
    let (s2, addr) = gv(s1, inst, 1);
    s2.emit(IrOp::Store, store_type(inst), seq![v, addr])
}

/// Exclusive stores of a single register, which report their status in operand 0.
pub open spec fn is_store_ex(o: Opcode) -> bool {
    o is STLXR || o is STXR || o is STLXRB || o is STXRB || o is STLXRH || o is STXRH
}

/// Type an exclusive store writes to memory and its status register.
pub open spec fn store_ex_type(inst: Instruction) -> Ty {
    let o = inst.opcode;
    if o is STLXR || o is STXR {
        inst_type(inst)
    } else if o is STLXRB || o is STXRB {
        Ty::I8
    } else {
        Ty::I32
    }
}

/// Lifting an exclusive store: operand 1 stored at the address operand 2; the status register
/// receives an opaque value.
pub open spec fn store_ex_spec(s: LState, inst: Instruction) -> LState {
    let ty = store_ex_type(inst);
    let (s1, v) = gv(s, inst, 1);
    let (s2, addr) = gv(s1, inst, 2);
    let s3 = s2.emit(IrOp::Store, ty, seq![v, addr]);
    let (s4, status) = (s3.emit(IrOp::Opaque, ty, seq![]), s3.val());
    write_spec(s4, status, dst(inst), ty)
}

/// Lifting `STP` and `STNP`: operands 0 and 1 stored at the address operand 2 and one element
/// further.
pub open spec fn store_pair_spec(s: LState, inst: Instruction) -> LState {
    let ty = inst_type(inst);
    let (s1, v1) = gv(s, inst, 0);
    let (s2, v2) = gv(s1, inst, 1);
    let (s3, addr) = gv(s2, inst, 2);
    let s4 = s3.emit(IrOp::Store, ty, seq![v1, addr]);
    let (s5, addr2) = op2(s4, IrOp::Add, Ty::I64, addr, pair_offset_const(ty));
    s5.emit(IrOp::Store, ty, seq![v2, addr2])
}

/// Lifting `STXP` and `STLXP`: operands 1 and 2 stored at the address operand 3 and one element
/// further, as the type of the status register of operand 0, which receives an opaque value.
pub open spec fn store_pair_ex_spec(s: LState, inst: Instruction) -> LState {
    let ty = inst_type(inst);
    let (s1, v1) = gv(s, inst, 1);
    let (s2, v2) = gv(s1, inst, 2);
    let (s3, addr) = gv(s2, inst, 3);
    let s4 = s3.emit(IrOp::Store, ty, seq![v1, addr]);
    let (s5, addr2) = op2(s4, IrOp::Add, Ty::I64, addr, pair_offset_const(ty));
    let s6 = s5.emit(IrOp::Store, ty, seq![v2, addr2]);
    let (s7, status) = (s6.emit(IrOp::Opaque, ty, seq![]), s6.val());
    write_spec(s7, status, reg_at(inst, 0), ty)
}

/// Operand 0 of `inst` names a general purpose register, register 31 included.
pub open spec fn names_reg(inst: Instruction) -> bool {
    operand_ok(inst.operands@[0]) && reg_index_spec(inst.operands@[0]) is Some
}

impl LifterState {
    /// Lifts a single-register load.
    pub fn lift_load(&mut self, inst: Instruction)
        requires
            old(self).wf(),
            is_load(inst.opcode),
            dst_ok(inst),
            reads_ok(inst, 1),
        ensures
            step_ok(*old(self), *final(self)),
            final(self).st() == load_spec(old(self).st(), inst),
    {
        let dst_reg = self.dst_reg(inst);
        let op_type = get_type_by_inst(inst);
        let address = self.get_value(inst.operands[1]);
        match inst.opcode {
            Opcode::LDR | Opcode::LDUR | Opcode::LDAR | Opcode::LDXR | Opcode::LDAXR
            | Opcode::LDTR => {
                let val = self.emit1(IrOp::Load, op_type, address);
                self.write_reg(val, dst_reg, op_type);
            },
            Opcode::LDRB | Opcode::LDURB | Opcode::LDARB | Opcode::LDXRB | Opcode::LDAXRB
            | Opcode::LDTRB => {
                let val = self.emit1(IrOp::Load, Ty::I8, address);
                let val = self.emit1(IrOp::Zext(Ty::I8), Ty::I32, val);
                self.write_reg(val, dst_reg, Ty::I32);
            },
            Opcode::LDRH | Opcode::LDURH | Opcode::LDARH | Opcode::LDXRH | Opcode::LDAXRH
            | Opcode::LDTRH => {
                let val = self.emit1(IrOp::Load, Ty::I16, address);
                let val = self.emit1(IrOp::Zext(Ty::I16), Ty::I32, val);
                self.write_reg(val, dst_reg, Ty::I32);
            },
            Opcode::LDRSB | Opcode::LDTRSB | Opcode::LDURSB => {
                let val = self.emit1(IrOp::Load, Ty::I8, address);
                let val = self.emit1(IrOp::Sext(Ty::I8), op_type, val);
                self.write_reg(val, dst_reg, op_type);
            },
            Opcode::LDRSH | Opcode::LDTRSH | Opcode::LDURSH => {
                let val = self.emit1(IrOp::Load, Ty::I16, address);
                let val = self.emit1(IrOp::Sext(Ty::I16), op_type, val);
                self.write_reg(val, dst_reg, op_type);
            },
            _ => {
                let val = self.emit1(IrOp::Load, Ty::I32, address);
                let val = self.emit1(IrOp::Sext(Ty::I32), Ty::I64, val);
                self.write_reg(val, dst_reg, Ty::I64);
            },
        }
    }

    /// Lifts `LDP` and `LDXP`.
    pub fn lift_load_pair(&mut self, inst: Instruction)
        requires
            old(self).wf(),
            writable(inst, 0),
            writable(inst, 1),
            reads_ok(inst, 2),
        ensures
            step_ok(*old(self), *final(self)),
            final(self).st() == load_pair_spec(old(self).st(), inst),
    {
        let dst_reg1 = self.writable_reg(inst, 0);
        let dst_reg2 = self.writable_reg(inst, 1);
        let address = self.get_value(inst.operands[2]);
        let op_type = get_type_by_inst(inst);
        let val1 = self.emit1(IrOp::Load, op_type, address);
        self.write_reg(val1, dst_reg1, op_type);
        let address_offset = pair_offset_val(op_type);
        let address = self.emit2(IrOp::Add, Ty::I64, address, address_offset);
        let val2 = self.emit1(IrOp::Load, op_type, address);
        self.write_reg(val2, dst_reg2, op_type);
    }

    /// Lifts `LDPSW`.
    pub fn lift_ldpsw(&mut self, inst: Instruction)
        requires
            old(self).wf(),
            writable(inst, 0),
            writable(inst, 1),
            reads_ok(inst, 2),
        ensures
            step_ok(*old(self), *final(self)),
            final(self).st() == ldpsw_spec(old(self).st(), inst),
    {
        let dst_reg1 = self.writable_reg(inst, 0);
        let dst_reg2 = self.writable_reg(inst, 1);
        let address = self.get_value(inst.operands[2]);
        let val1 = self.emit1(IrOp::Load, Ty::I32, address);
        let val1 = self.emit1(IrOp::Sext(Ty::I32), Ty::I64, val1);
        self.write_reg(val1, dst_reg1, Ty::I64);
        let address = self.emit2(IrOp::Add, Ty::I64, address, Val::Const(4));
        let val2 = self.emit1(IrOp::Load, Ty::I32, address);
        let val2 = self.emit1(IrOp::Sext(Ty::I32), Ty::I64, val2);
        self.write_reg(val2, dst_reg2, Ty::I64);
    }

    /// Lifts a single-register store.
    pub fn lift_store(&mut self, inst: Instruction)
        requires
            old(self).wf(),
            is_store(inst.opcode),
            is_typed_register(inst.operands@[0]),
            reads_ok(inst, 0),
            reads_ok(inst, 1),
        ensures
            step_ok(*old(self), *final(self)),
            final(self).st() == store_spec(old(self).st(), inst),
    {
        let ty = match inst.opcode {
            Opcode::STR | Opcode::STLR | Opcode::STUR | Opcode::STLUR | Opcode::STTR => get_type_by_inst(
                inst,
            ),
            Opcode::STRB | Opcode::STLRB | Opcode::STURB | Opcode::STLURB | Opcode::STTRB => Ty::I8,
            _ => Ty::I32,
        };
        let value = self.get_value(inst.operands[0]);
        let address = self.get_value(inst.operands[1]);
        self.emit2(IrOp::Store, ty, value, address);
    }

    /// Lifts an exclusive single-register store.
    pub fn lift_store_ex(&mut self, inst: Instruction)
        requires
            old(self).wf(),
            is_store_ex(inst.opcode),
            dst_ok(inst),
            reads_ok(inst, 1),
            reads_ok(inst, 2),
        ensures
            step_ok(*old(self), *final(self)),
            final(self).st() == store_ex_spec(old(self).st(), inst),
    {
        let ty = match inst.opcode {
            Opcode::STLXR | Opcode::STXR => get_type_by_inst(inst),
            Opcode::STLXRB | Opcode::STXRB => Ty::I8,
            _ => Ty::I32,
        };
        let value = self.get_value(inst.operands[1]);
        let address = self.get_value(inst.operands[2]);
        self.emit2(IrOp::Store, ty, value, address);
        let opaque = self.emit0(IrOp::Opaque, ty);
        let dst_reg = self.dst_reg(inst);
        self.write_reg(opaque, dst_reg, ty);
    }

    /// Lifts `STP` and `STNP`.
    pub fn lift_store_pair(&mut self, inst: Instruction)
        requires
            old(self).wf(),
            is_typed_register(inst.operands@[0]),
            reads_ok(inst, 0),
            reads_ok(inst, 1),
            reads_ok(inst, 2),
        ensures
            step_ok(*old(self), *final(self)),
            final(self).st() == store_pair_spec(old(self).st(), inst),
    {
        let src1 = self.get_value(inst.operands[0]);
        let src2 = self.get_value(inst.operands[1]);
        let address = self.get_value(inst.operands[2]);
        let op_type = get_type_by_inst(inst);
        self.emit2(IrOp::Store, op_type, src1, address);
        let address_offset = pair_offset_val(op_type);
        let address = self.emit2(IrOp::Add, Ty::I64, address, address_offset);
        self.emit2(IrOp::Store, op_type, src2, address);
    }

    /// Lifts `STXP` and `STLXP`.
    pub fn lift_store_pair_ex(&mut self, inst: Instruction)
        requires
            old(self).wf(),
            names_reg(inst),
            reads_ok(inst, 1),
            reads_ok(inst, 2),
            reads_ok(inst, 3),
        ensures
            step_ok(*old(self), *final(self)),
            final(self).st() == store_pair_ex_spec(old(self).st(), inst),
    {
        let src1 = self.get_value(inst.operands[1]);
        let src2 = self.get_value(inst.operands[2]);
        let address = self.get_value(inst.operands[3]);
        let op_type = get_type_by_inst(inst);
        self.emit2(IrOp::Store, op_type, src1, address);
        let address_offset = pair_offset_val(op_type);
        let address = self.emit2(IrOp::Add, Ty::I64, address, address_offset);
        self.emit2(IrOp::Store, op_type, src2, address);
        let dst_reg = match self.get_dst_reg(inst) {
            Some(d) => d,
            None => 0,
        };
        let opaque = self.emit0(IrOp::Opaque, op_type);
        self.emit2(IrOp::WriteReg, op_type, opaque, Val::Reg(dst_reg));
    }
}

} // verus!
