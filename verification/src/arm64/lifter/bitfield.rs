//! Lifting of the bitfield moves `BFM`, `SBFM` and `UBFM`, which branch on the order of their
//! immediates into two new blocks.

use crate::arm64::decode::{Instruction, Opcode};
use crate::arm64::helper::{get_type_by_inst, inst_type};
use crate::arm64::ir::{CmpTy, IrOp, Ty, Val};
use crate::arm64::lifter::arith::step_ok;
use crate::arm64::lifter::branch::{jump_spec, jumpif_spec, next_ok, next_pc};
use crate::arm64::lifter::common::{dst, dst_ok, gv, op1, op2, reads_ok, width_const, width_val};
use crate::arm64::lifter::regs::write_spec;
use crate::arm64::lifter::{LState, LifterState, INSTRUCTION_SIZE};
use vstd::prelude::*;

verus! {

/// The first outcome of `BFM` (`imms` at least `immr`): the `imms - immr + 1` bits of `src`
/// from bit `immr` moved to the low bits, merged with `src` outside them.
pub open spec fn bfm_low_spec(s: LState, ty: Ty, src: Val, immr: Val, imms: Val, d: usize) -> LState {
    let one = Val::Const(1);
    let (s1, a) = op2(s, IrOp::Add, ty, one, imms);
    let (s2, size) = op2(s1, IrOp::Sub, ty, a, immr);
    let (s3, m) = op2(s2, IrOp::Lshl, ty, one, size);
    let (s4, m2) = op2(s3, IrOp::Sub, ty, m, one);
    let (s5, m3) = op2(s4, IrOp::Lshl, ty, m2, immr);
    let (s6, field) = op2(s5, IrOp::And, ty, src, m3);
    let (s7, field2) = op2(s6, IrOp::Lshr, ty, field, immr);
    let (s8, dm) = op2(s7, IrOp::Lshl, ty, one, size);
    let (s9, dm2) = op2(s8, IrOp::Sub, ty, dm, one);
    let (s10, dm3) = op1(s9, IrOp::Not, ty, dm2);
    let (s11, kept) = op2(s10, IrOp::And, ty, src, dm3);
    let (s12, val) = op2(s11, IrOp::Or, ty, field2, kept);
    write_spec(s12, val, d, ty)
}

/// The second outcome of `BFM` (`imms` below `immr`): the `imms + 1` low bits of `src` moved to
/// bit position `width - immr`, merged with `src` outside them.
pub open spec fn bfm_high_spec(s: LState, ty: Ty, src: Val, immr: Val, imms: Val, d: usize) -> LState {
    let one = Val::Const(1);
    let (s1, size) = op2(s, IrOp::Add, ty, one, imms);
    let (s2, m) = op2(s1, IrOp::Lshl, ty, one, size);
    let (s3, m2) = op2(s2, IrOp::Sub, ty, m, one);
    let (s4, field) = op2(s3, IrOp::And, ty, src, m2);
    let (s5, start) = op2(s4, IrOp::Sub, ty, width_const(ty), immr);
    let (s6, field2) = op2(s5, IrOp::Lshl, ty, field, start);
    let (s7, dm) = op2(s6, IrOp::Lshl, ty, one, size);
    let (s8, dm2) = op2(s7, IrOp::Sub, ty, dm, one);
    let (s9, dm3) = op2(s8, IrOp::Lshl, ty, dm2, start);
    let (s10, dm4) = op1(s9, IrOp::Not, ty, dm3);
    let (s11, kept) = op2(s10, IrOp::And, ty, src, dm4);
    let (s12, val) = op2(s11, IrOp::Or, ty, field2, kept);
    write_spec(s12, val, d, ty)
}

/// Lifting `BFM` at `pc`: `imms >= immr` (compared as 64 bits) branches to a new block for
/// the first outcome, otherwise to one for the second; both continue at the block that
/// follows.
pub open spec fn bfm_spec(s: LState, inst: Instruction, pc: u64, blocks: Map<u64, usize>) -> LState {
    let pos = s.next_block();
    let s1 = s.block("bfm_positive_condition"@);
    let neg = s1.next_block();
    let s2 = s1.block("bfm_negative_condition"@);
    let next = blocks[next_pc(pc)];
    let ty = inst_type(inst);
    let d = dst(inst);
    let (s3, src) = gv(s2, inst, 1);
    let (s4, immr) = gv(s3, inst, 2);
    let (s5, imms) = gv(s4, inst, 3);
    let (s6, cmp) = op2(s5, IrOp::Icmp(CmpTy::Uge), Ty::I64, imms, immr);
    let s7 = jumpif_spec(s6, cmp, pos, neg);
    let s8 = bfm_low_spec(s7.switch(pos), ty, src, immr, imms, d);
    let s9 = jump_spec(s8, next);
    let s10 = bfm_high_spec(s9.switch(neg), ty, src, immr, imms, d);
    jump_spec(s10, next)
}

/// The right shift of `SBFM` (arithmetic) or `UBFM` (logical).
pub open spec fn extract_shift(o: Opcode) -> IrOp {
    if o is SBFM {
        IrOp::Ashr
    } else {
        IrOp::Lshr
    }
}

/// The first outcome of `SBFM` and `UBFM`: `src` shifted left so that bit `imms` is the top
/// bit, then right by the width minus the field size `imms - immr + 1`.
pub open spec fn xbfm_low_spec(s: LState, o: Opcode, ty: Ty, src: Val, immr: Val, imms: Val, d: usize) -> LState {
    let one = Val::Const(1);
    let w = width_const(ty);
    let (s1, a) = op2(s, IrOp::Add, ty, one, imms);
    let (s2, size) = op2(s1, IrOp::Sub, ty, a, immr);
    let (s3, b) = op2(s2, IrOp::Add, ty, imms, one);
    let (s4, left) = op2(s3, IrOp::Sub, ty, w, b);
    let (s5, val) = op2(s4, IrOp::Lshl, ty, src, left);
    let (s6, right) = op2(s5, IrOp::Sub, ty, w, size);
    let (s7, val2) = op2(s6, extract_shift(o), ty, val, right);
    write_spec(s7, val2, d, ty)
}

/// The second outcome of `SBFM` and `UBFM`: `src` shifted left so that bit `imms` is the top
/// bit, then right by the width minus `immr`.
pub open spec fn xbfm_high_spec(s: LState, o: Opcode, ty: Ty, src: Val, immr: Val, imms: Val, d: usize) -> LState {
    let one = Val::Const(1);
    let w = width_const(ty);
    let (s1, b) = op2(s, IrOp::Add, ty, imms, one);
    let (s2, left) = op2(s1, IrOp::Sub, ty, w, b);
    let (s3, val) = op2(s2, IrOp::Lshl, ty, src, left);
    let (s4, right) = op2(s3, IrOp::Sub, ty, w, immr);
    let (s5, val2) = op2(s4, extract_shift(o), ty, val, right);
    write_spec(s5, val2, d, ty)
}

/// Lifting `SBFM` and `UBFM` at `pc`: the order of `immr` and `imms` (compared as 64 bits)
/// branches to a new block for each outcome; both continue at the block that follows.
pub open spec fn xbfm_spec(s: LState, inst: Instruction, pc: u64, blocks: Map<u64, usize>) -> LState {
    let o = inst.opcode;
    let pos = s.next_block();
    let s1 = s.block(
        if o is SBFM {
            "sbfm_positive_condition"@
        } else {
            "ubfm_positive_condition"@
        },
    );
    let neg = s1.next_block();
    let s2 = s1.block(
        if o is SBFM {
            "sbfm_negative_condition"@
        } else {
            "ubfm_negative_condition"@
        },
    );
    let next = blocks[next_pc(pc)];
    let ty = inst_type(inst);
    let d = dst(inst);
    let (s3, src) = gv(s2, inst, 1);
    let (s4, immr) = gv(s3, inst, 2);
    let (s5, imms) = gv(s4, inst, 3);
    let (s6, cmp) = if o is SBFM {
        op2(s5, IrOp::Icmp(CmpTy::Uge), Ty::I64, imms, immr)
    } else {
        op2(s5, IrOp::Icmp(CmpTy::Ult), Ty::I64, immr, imms)
    };
    let s7 = jumpif_spec(s6, cmp, pos, neg);
    let s8 = xbfm_low_spec(s7.switch(pos), o, ty, src, immr, imms, d);
    let s9 = jump_spec(s8, next);
    let s10 = xbfm_high_spec(s9.switch(neg), o, ty, src, immr, imms, d);
    jump_spec(s10, next)
}

impl LifterState {
    /// Appends the first outcome of `BFM`.
    fn bfm_low(&mut self, ty: Ty, src: Val, immr: Val, imms: Val, d: usize)
        requires
            old(self).wf(),
            old(self).st().ok(src),
            old(self).st().ok(immr),
            old(self).st().ok(imms),
            d < 31,
        ensures
            step_ok(*old(self), *final(self)),
            final(self).st() == bfm_low_spec(old(self).st(), ty, src, immr, imms, d),
    {
        let one = Val::Const(1);
        let a = self.emit2(IrOp::Add, ty, one, imms);
        let size = self.emit2(IrOp::Sub, ty, a, immr);
        let m = self.emit2(IrOp::Lshl, ty, one, size);
        let m = self.emit2(IrOp::Sub, ty, m, one);
        let m = self.emit2(IrOp::Lshl, ty, m, immr);
        let field = self.emit2(IrOp::And, ty, src, m);
        let field = self.emit2(IrOp::Lshr, ty, field, immr);
        let dm = self.emit2(IrOp::Lshl, ty, one, size);
        let dm = self.emit2(IrOp::Sub, ty, dm, one);
        let dm = self.emit1(IrOp::Not, ty, dm);
        let kept = self.emit2(IrOp::And, ty, src, dm);
        let val = self.emit2(IrOp::Or, ty, field, kept);
        self.write_reg(val, d, ty);
    }

    /// Appends the second outcome of `BFM`.
    fn bfm_high(&mut self, ty: Ty, src: Val, immr: Val, imms: Val, d: usize)
        requires
            old(self).wf(),
            old(self).st().ok(src),
            old(self).st().ok(immr),
            old(self).st().ok(imms),
            d < 31,
        ensures
            step_ok(*old(self), *final(self)),
            final(self).st() == bfm_high_spec(old(self).st(), ty, src, immr, imms, d),
    {
        let one = Val::Const(1);
        let size = self.emit2(IrOp::Add, ty, one, imms);
        let m = self.emit2(IrOp::Lshl, ty, one, size);
        let m = self.emit2(IrOp::Sub, ty, m, one);
        let field = self.emit2(IrOp::And, ty, src, m);
        let reg_size = width_val(ty);
        let start = self.emit2(IrOp::Sub, ty, reg_size, immr);
        let field = self.emit2(IrOp::Lshl, ty, field, start);
        let dm = self.emit2(IrOp::Lshl, ty, one, size);
        let dm = self.emit2(IrOp::Sub, ty, dm, one);
        let dm = self.emit2(IrOp::Lshl, ty, dm, start);
        let dm = self.emit1(IrOp::Not, ty, dm);
        let kept = self.emit2(IrOp::And, ty, src, dm);
        let val = self.emit2(IrOp::Or, ty, field, kept);
        self.write_reg(val, d, ty);
    }

    /// Lifts `BFM`.
    pub fn lift_bfm(&mut self, pc: u64, inst: Instruction)
        requires
            old(self).wf(),
            dst_ok(inst),
            reads_ok(inst, 1),
            reads_ok(inst, 2),
            reads_ok(inst, 3),
            next_ok(pc, old(self).blocks()),
        ensures
            step_ok(*old(self), *final(self)),
            final(self).st() == bfm_spec(old(self).st(), inst, pc, old(self).blocks()),
    {
        let positive_condition_block = self.create_block("bfm_positive_condition");
        let negative_condition_block = self.create_block("bfm_negative_condition");
        let next_block = match self.get_block(pc + INSTRUCTION_SIZE) {
            Some(b) => b,
            None => 0,
        };
        let dst_reg = self.dst_reg(inst);
        let op_type = get_type_by_inst(inst);
        let src = self.get_value(inst.operands[1]);
        let immr = self.get_value(inst.operands[2]);
        let imms = self.get_value(inst.operands[3]);
        let cmp = self.emit2(IrOp::Icmp(CmpTy::Uge), Ty::I64, imms, immr);
        self.jumpif(cmp, positive_condition_block, negative_condition_block);

        self.set_insert_block(positive_condition_block);
        self.bfm_low(op_type, src, immr, imms, dst_reg);
        self.jump(next_block);

        self.set_insert_block(negative_condition_block);
        self.bfm_high(op_type, src, immr, imms, dst_reg);
        self.jump(next_block);
    }

    /// Appends the first outcome of `SBFM` or `UBFM`.
    fn xbfm_low(&mut self, o: Opcode, ty: Ty, src: Val, immr: Val, imms: Val, d: usize)
        requires
            old(self).wf(),
            old(self).st().ok(src),
            old(self).st().ok(immr),
            old(self).st().ok(imms),
            d < 31,
        ensures
            step_ok(*old(self), *final(self)),
            final(self).st() == xbfm_low_spec(old(self).st(), o, ty, src, immr, imms, d),
    {
        let one = Val::Const(1);
        let reg_size = width_val(ty);
        let shift = if o == Opcode::SBFM {
            IrOp::Ashr
        } else {
            IrOp::Lshr
        };
        let a = self.emit2(IrOp::Add, ty, one, imms);
        let size = self.emit2(IrOp::Sub, ty, a, immr);
        let b = self.emit2(IrOp::Add, ty, imms, one);
        let left = self.emit2(IrOp::Sub, ty, reg_size, b);
        let val = self.emit2(IrOp::Lshl, ty, src, left);
        let right = self.emit2(IrOp::Sub, ty, reg_size, size);
        let val = self.emit2(shift, ty, val, right);
        self.write_reg(val, d, ty);
    }

    /// Appends the second outcome of `SBFM` or `UBFM`.
    fn xbfm_high(&mut self, o: Opcode, ty: Ty, src: Val, immr: Val, imms: Val, d: usize)
        requires
            old(self).wf(),
            old(self).st().ok(src),
            old(self).st().ok(immr),
            old(self).st().ok(imms),
            d < 31,
        ensures
            step_ok(*old(self), *final(self)),
            final(self).st() == xbfm_high_spec(old(self).st(), o, ty, src, immr, imms, d),
    {
        let one = Val::Const(1);
        let reg_size = width_val(ty);
        let shift = if o == Opcode::SBFM {
            IrOp::Ashr
        } else {
            IrOp::Lshr
        };
        let b = self.emit2(IrOp::Add, ty, imms, one);
        let left = self.emit2(IrOp::Sub, ty, reg_size, b);
        let val = self.emit2(IrOp::Lshl, ty, src, left);
        let right = self.emit2(IrOp::Sub, ty, reg_size, immr);
        let val = self.emit2(shift, ty, val, right);
        self.write_reg(val, d, ty);
    }

    /// Lifts `SBFM` and `UBFM`.
    pub fn lift_xbfm(&mut self, pc: u64, inst: Instruction)
        requires
            old(self).wf(),
            inst.opcode is SBFM || inst.opcode is UBFM,
            dst_ok(inst),
            reads_ok(inst, 1),
            reads_ok(inst, 2),
            reads_ok(inst, 3),
            next_ok(pc, old(self).blocks()),
        ensures
            step_ok(*old(self), *final(self)),
            final(self).st() == xbfm_spec(old(self).st(), inst, pc, old(self).blocks()),
    {
        let sbfm = inst.opcode == Opcode::SBFM;
        let positive_condition_block = self.create_block(
            if sbfm {
                "sbfm_positive_condition"
            } else {
                "ubfm_positive_condition"
            },
        );
        let negative_condition_block = self.create_block(
            if sbfm {
                "sbfm_negative_condition"
            } else {
                "ubfm_negative_condition"
            },
        );
        let next_block = match self.get_block(pc + INSTRUCTION_SIZE) {
            Some(b) => b,
            None => 0,
        };
        let dst_reg = self.dst_reg(inst);
        let op_type = get_type_by_inst(inst);
        let src = self.get_value(inst.operands[1]);
        let immr = self.get_value(inst.operands[2]);
        let imms = self.get_value(inst.operands[3]);
        let cmp = if sbfm {
            self.emit2(IrOp::Icmp(CmpTy::Uge), Ty::I64, imms, immr)
        } else {
            self.emit2(IrOp::Icmp(CmpTy::Ult), Ty::I64, immr, imms)
        };
        self.jumpif(cmp, positive_condition_block, negative_condition_block);

        self.set_insert_block(positive_condition_block);
        self.xbfm_low(inst.opcode, op_type, src, immr, imms, dst_reg);
        self.jump(next_block);

        self.set_insert_block(negative_condition_block);
        self.xbfm_high(inst.opcode, op_type, src, immr, imms, dst_reg);
        self.jump(next_block);
    }
}

} // verus!
