//! Lifting of conditional selects and conditional compares, which branch on a condition into
//! two new blocks.

use crate::arm64::decode::{Instruction, Opcode, Operand};
use crate::arm64::helper::{get_type_by_inst, inst_type, is_typed_register};
use crate::arm64::ir::{IrOp, Ty, Val};
use crate::arm64::lifter::arith::step_ok;
use crate::arm64::lifter::branch::{jump_spec, jumpif_spec, next_ok, next_pc};
use crate::arm64::lifter::common::{dst, dst_ok, gv, op1, op2, reads_ok};
use crate::arm64::lifter::conditions::condition_spec;
use crate::arm64::lifter::flags::{adc_flags_spec, flags_to_value_spec};
use crate::arm64::lifter::regs::write_spec;
use crate::arm64::lifter::{LState, LifterState, INSTRUCTION_SIZE};
use vstd::prelude::*;

verus! {

/// Operand `k` of `inst` is a condition code.
pub open spec fn cond_ok(inst: Instruction, k: int) -> bool {
    inst.operands@[k] matches Operand::ConditionCode(cc) && cc < 16
}

/// The condition code of operand `k`.
pub open spec fn cond_at(inst: Instruction, k: int) -> u8 {
    inst.operands@[k]->ConditionCode_0
}

/// Conditional selects.
pub open spec fn is_csel(o: Opcode) -> bool {
    o is CSEL || o is CSINC || o is CSINV || o is CSNEG
}

/// Names of the blocks a conditional select creates for its two outcomes.
pub open spec fn csel_names(o: Opcode) -> (Seq<char>, Seq<char>) {
    match o {
        Opcode::CSEL => ("csel_positive_condition"@, "csel_negative_condition"@),
        Opcode::CSINC => ("csinc_positive_condition"@, "csinc_negative_condition"@),
        Opcode::CSINV => ("csinv_positive_condition"@, "csinv_negative_condition"@),
        _ => ("csneg_positive_condition"@, "csneg_negative_condition"@),
    }
}

/// Lifting a conditional select at `pc`: the condition of operand 3 branches to a new block
/// that writes operand 1 to the destination, or to one that writes operand 2, incremented,
/// complemented or negated as the instruction says; both continue at the block that follows.
pub open spec fn csel_spec(s: LState, inst: Instruction, pc: u64, blocks: Map<u64, usize>) -> LState {
    let (pos_name, neg_name) = csel_names(inst.opcode);
    let pos = s.next_block();
    let s1 = s.block(pos_name);
    let neg = s1.next_block();
    let s2 = s1.block(neg_name);
    let next = blocks[next_pc(pc)];
    let ty = inst_type(inst);
    let d = dst(inst);
    let (s3, cond) = condition_spec(s2, cond_at(inst, 3));
    let s4 = jumpif_spec(s3, cond, pos, neg);
    let s5 = s4.switch(pos);
    let (s6, v1) = gv(s5, inst, 1);
    let s7 = write_spec(s6, v1, d, ty);
    let s8 = jump_spec(s7, next);
    let s9 = s8.switch(neg);
    let (s10, v2) = gv(s9, inst, 2);
    let (s11, val) = match inst.opcode {
        Opcode::CSEL => (s10, v2),
        Opcode::CSINC => op2(s10, IrOp::Add, ty, v2, Val::Const(1)),
        Opcode::CSINV => op1(s10, IrOp::Not, ty, v2),
        _ => op2(s10, IrOp::Sub, ty, Val::Const(0), v2),
    };
    let s12 = write_spec(s11, val, d, ty);
    jump_spec(s12, next)
}

/// Lifting `CCMP` and `CCMN` at `pc`: the condition of operand 3 branches to a new block that
/// sets the flags by comparing operands 0 and 1 (subtracting for `CCMP`, adding for `CCMN`,
/// each as an addition of a complement), or to one that sets them from the immediate operand
/// 2; both continue at the block that follows.
pub open spec fn ccmp_spec(s: LState, inst: Instruction, pc: u64, blocks: Map<u64, usize>) -> LState {
    let pos = s.next_block();
    let s1 = s.block("ccmp_positive_condition"@);
    let neg = s1.next_block();
    let s2 = s1.block("ccmp_negative_condition"@);
    let next = blocks[next_pc(pc)];
    let ty = inst_type(inst);
    let (s3, cond) = condition_spec(s2, cond_at(inst, 3));
    let s4 = jumpif_spec(s3, cond, pos, neg);
    let s5 = s4.switch(pos);
    let (s6, v1) = gv(s5, inst, 0);
    let (s7, v2) = gv(s6, inst, 1);
    let s9 = if inst.opcode is CCMN {
        let (s8, negated) = op2(s7, IrOp::Sub, ty, Val::Const(0), v2);
        let (s8b, n) = op1(s8, IrOp::Not, ty, negated);
        adc_flags_spec(s8b, v1, n, ty, Val::Const(1))
    } else {
        let (s8, n) = op1(s7, IrOp::Not, ty, v2);
        adc_flags_spec(s8, v1, n, ty, Val::Const(0))
    };
    let s10 = jump_spec(s9, next);
    let s11 = s10.switch(neg);
    let (s12, flag_val) = gv(s11, inst, 2);
    let s13 = flags_to_value_spec(s12, flag_val, ty);
    jump_spec(s13, next)
}

impl LifterState {
    /// Evaluates the condition operand `k` of `inst` on the flags.
    fn condition_operand(&mut self, inst: Instruction, k: usize) -> (v: Val)
        requires
            old(self).wf(),
            k < 4,
            cond_ok(inst, k as int),
        ensures
            final(self).wf(),
            (final(self).st(), v) == condition_spec(old(self).st(), cond_at(inst, k as int)),
            final(self).st().ok(v),
            old(self).st().le(final(self).st()),
            final(self).label_resolver == old(self).label_resolver,
    {
        match self.get_condition(inst.operands[k]) {
            Ok(v) => v,
            Err(_) => {
                proof {
                    assert(false);
                }
                Val::Const(0)
            },
        }
    }

    /// Lifts `CSEL`, `CSINC`, `CSINV` and `CSNEG`.
    pub fn lift_csel(&mut self, pc: u64, inst: Instruction)
        requires
            old(self).wf(),
            is_csel(inst.opcode),
            dst_ok(inst),
            reads_ok(inst, 1),
            reads_ok(inst, 2),
            cond_ok(inst, 3),
            next_ok(pc, old(self).blocks()),
        ensures
            step_ok(*old(self), *final(self)),
            final(self).st() == csel_spec(old(self).st(), inst, pc, old(self).blocks()),
    {
        let (pos_name, neg_name) = match inst.opcode {
            Opcode::CSEL => ("csel_positive_condition", "csel_negative_condition"),
            Opcode::CSINC => ("csinc_positive_condition", "csinc_negative_condition"),
            Opcode::CSINV => ("csinv_positive_condition", "csinv_negative_condition"),
            _ => ("csneg_positive_condition", "csneg_negative_condition"),
        };
        let positive_condition_block = self.create_block(pos_name);
        let negative_condition_block = self.create_block(neg_name);
        let next_block = match self.get_block(pc + INSTRUCTION_SIZE) {
            Some(b) => b,
            None => 0,
        };
        let dst_reg = self.dst_reg(inst);
        let op_type = get_type_by_inst(inst);
        let condition = self.condition_operand(inst, 3);
        self.jumpif(condition, positive_condition_block, negative_condition_block);

        // Condition is true
        self.set_insert_block(positive_condition_block);
        let src1 = self.get_value(inst.operands[1]);
        self.write_reg(src1, dst_reg, op_type);
        self.jump(next_block);

        // Condition is false
        self.set_insert_block(negative_condition_block);
        let src2 = self.get_value(inst.operands[2]);
        let val = match inst.opcode {
            Opcode::CSEL => src2,
            Opcode::CSINC => self.emit2(IrOp::Add, op_type, src2, Val::Const(1)),
            Opcode::CSINV => self.emit1(IrOp::Not, op_type, src2),
            _ => self.emit2(IrOp::Sub, op_type, Val::Const(0), src2),
        };
        self.write_reg(val, dst_reg, op_type);
        self.jump(next_block);
    }

    /// Lifts `CCMP` and `CCMN`.
    pub fn lift_ccmp(&mut self, pc: u64, inst: Instruction)
        requires
            old(self).wf(),
            inst.opcode is CCMP || inst.opcode is CCMN,
            is_typed_register(inst.operands@[0]),
            reads_ok(inst, 0),
            reads_ok(inst, 1),
            reads_ok(inst, 2),
            cond_ok(inst, 3),
            next_ok(pc, old(self).blocks()),
        ensures
            step_ok(*old(self), *final(self)),
            final(self).st() == ccmp_spec(old(self).st(), inst, pc, old(self).blocks()),
    {
        let positive_condition_block = self.create_block("ccmp_positive_condition");
        let negative_condition_block = self.create_block("ccmp_negative_condition");
        let next_block = match self.get_block(pc + INSTRUCTION_SIZE) {
            Some(b) => b,
            None => 0,
        };
        let condition = self.condition_operand(inst, 3);
        let op_type = get_type_by_inst(inst);
        self.jumpif(condition, positive_condition_block, negative_condition_block);

        self.set_insert_block(positive_condition_block);
        let src1 = self.get_value(inst.operands[0]);
        let src2 = self.get_value(inst.operands[1]);
        if inst.opcode == Opcode::CCMN {
            let negated = self.emit2(IrOp::Sub, op_type, Val::Const(0), src2);
            let not_negated = self.emit1(IrOp::Not, op_type, negated);
            self.set_flags_using_adc(src1, not_negated, op_type, Val::Const(1));
        } else {
            let not_src2 = self.emit1(IrOp::Not, op_type, src2);
            self.set_flags_using_adc(src1, not_src2, op_type, Val::Const(0));
        }
        self.jump(next_block);

        self.set_insert_block(negative_condition_block);
        let flag_val = self.get_value(inst.operands[2]);
        self.set_flags_to_value(flag_val, op_type);
        self.jump(next_block);
    }
}

} // verus!
