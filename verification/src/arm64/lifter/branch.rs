//! Lifting of branches, traps, system calls and compare-and-swap.

use crate::arm64::decode::{Instruction, Opcode, Operand};
use crate::arm64::helper::{get_pc_offset_as_int, get_type_by_inst, inst_type, is_typed_register};
use crate::arm64::ir::{CmpTy, IrOp, Ty, Val};
use crate::arm64::label_resolver::jump_target;
use crate::arm64::lifter::arith::{pc_spec, step_ok};
use crate::arm64::lifter::common::{gv, op1, op2, reads_ok};
use crate::arm64::lifter::conditions::condition_spec;
use crate::arm64::lifter::regs::{write_spec, REG_LR};
use crate::arm64::lifter::{mark_next_spec, LState, LifterState, INSTRUCTION_SIZE};
use vstd::prelude::*;

verus! {

/// Address of the instruction after the one at `pc`.
pub open spec fn next_pc(pc: u64) -> u64 {
    (pc + 4) as u64
}

/// Destination of the direct branch at `pc` whose offset is operand `k`.
pub open spec fn target_of(inst: Instruction, k: int, pc: u64) -> u64 {
    jump_target(pc, inst.operands@[k]->PCOffset_0)
}

/// Operand `k` of `inst` is a pc-relative offset, and a block starts at its destination.
pub open spec fn target_ok(inst: Instruction, k: int, pc: u64, blocks: Map<u64, usize>) -> bool {
    inst.operands@[k] is PCOffset && blocks.contains_key(target_of(inst, k, pc))
}

/// A block starts after the instruction at `pc`.
pub open spec fn next_ok(pc: u64, blocks: Map<u64, usize>) -> bool {
    pc + 4 <= u64::MAX && blocks.contains_key(next_pc(pc))
}

/// A jump to block `b`.
pub open spec fn jump_spec(s: LState, b: usize) -> LState {
    s.emit(IrOp::Jump, Ty::I64, seq![Val::Label(b)])
}

/// A jump to `then_b` when `cond` holds and to `else_b` otherwise.
pub open spec fn jumpif_spec(s: LState, cond: Val, then_b: usize, else_b: usize) -> LState {
    s.emit(IrOp::JumpIf, Ty::I64, seq![cond, Val::Label(then_b), Val::Label(else_b)])
}

/// Saving the return address: the program counter plus four, written to `x30`.
pub open spec fn link_spec(s: LState) -> LState {
    let (s1, pc) = pc_spec(s);
    let (s2, ret) = op2(s1, IrOp::Add, Ty::I64, pc, Val::Const(4));
    write_spec(s2, ret, REG_LR, Ty::I64)
}

/// Lifting `B` and `BL` at `pc`: `BL` saves the return address; both jump to the block of
/// their destination.
pub open spec fn b_spec(s: LState, inst: Instruction, pc: u64, blocks: Map<u64, usize>) -> LState {
    let s1 = if inst.opcode is BL {
        link_spec(s)
    } else {
        s
    };
    jump_spec(s1, blocks[target_of(inst, 0, pc)])
}

/// Lifting `B.cond` at `pc`: the condition decides between the block of the destination and
/// the block that follows.
pub open spec fn bcc_spec(s: LState, cc: u8, inst: Instruction, pc: u64, blocks: Map<u64, usize>) -> LState {
    let (s1, cond) = condition_spec(s, cc);
    jumpif_spec(s1, cond, blocks[target_of(inst, 0, pc)], blocks[next_pc(pc)])
}

/// Lifting `CBZ` and `CBNZ` at `pc`: operand 0 compared with zero decides between the block
/// of the destination and the block that follows.
pub open spec fn cbz_spec(s: LState, inst: Instruction, pc: u64, blocks: Map<u64, usize>) -> LState {
    let ty = inst_type(inst);
    let (s1, src) = gv(s, inst, 0);
    let cmp = if inst.opcode is CBZ {
        CmpTy::Eq
    } else {
        CmpTy::Ne
    };
    let (s2, cond) = op2(s1, IrOp::Icmp(cmp), ty, src, Val::Const(0));
    jumpif_spec(s2, cond, blocks[target_of(inst, 1, pc)], blocks[next_pc(pc)])
}

/// Lifting `TBZ` and `TBNZ` at `pc`: operand 1 shifted right by one and masked with operand 0,
/// compared with zero, decides between the block of the destination and the block that
/// follows.
pub open spec fn tbz_spec(s: LState, inst: Instruction, pc: u64, blocks: Map<u64, usize>) -> LState {
    let ty = inst_type(inst);
    let (s1, src) = gv(s, inst, 0);
    let (s2, bit) = gv(s1, inst, 1);
    let (s3, shifted) = op2(s2, IrOp::Lshr, ty, bit, Val::Const(1));
    let (s4, val) = op2(s3, IrOp::And, ty, shifted, src);
    let cmp = if inst.opcode is TBZ {
        CmpTy::Eq
    } else {
        CmpTy::Ne
    };
    let (s5, cond) = op2(s4, IrOp::Icmp(cmp), ty, val, Val::Const(0));
    jumpif_spec(s5, cond, blocks[target_of(inst, 2, pc)], blocks[next_pc(pc)])
}

/// Lifting `BLR` and `BR` at `pc`: `BLR` saves the return address; both jump to the address in
/// operand 0; after `BLR` the block that follows is a further entry.
pub open spec fn blr_spec(s: LState, inst: Instruction, pc: u64, blocks: Map<u64, usize>) -> LState {
    let s1 = if inst.opcode is BLR {
        link_spec(s)
    } else {
        s
    };
    let (s2, addr) = gv(s1, inst, 0);
    let s3 = s2.emit(IrOp::DynamicJump, Ty::I64, seq![addr]);
    if inst.opcode is BLR {
        mark_next_spec(s3, blocks, pc)
    } else {
        s3
    }
}

/// Lifting `RET`, `RETAA` and `RETAB`: a jump to the address in operand 0.
pub open spec fn ret_spec(s: LState, inst: Instruction) -> LState {
    let (s1, target) = gv(s, inst, 0);
    s1.emit(IrOp::DynamicJump, Ty::I64, seq![target])
}

/// Lifting `CAS` at `pc`: the value at the address operand 2 is compared with operand 0; when
/// they are equal, a new block stores operand 1 there; both ways continue at the block that
/// follows.
pub open spec fn cas_spec(s: LState, inst: Instruction, pc: u64, blocks: Map<u64, usize>) -> LState {
    let swap = s.next_block();
    let s1 = s.block("cas_swap"@);
    let next = blocks[next_pc(pc)];
    let ty = inst_type(inst);
    let (s2, expected) = gv(s1, inst, 0);
    let (s3, new) = gv(s2, inst, 1);
    let (s4, addr) = gv(s3, inst, 2);
    let (s5, val) = op1(s4, IrOp::Load, ty, addr);
    let (s6, cmp) = op2(s5, IrOp::Icmp(CmpTy::Eq), ty, val, expected);
    let s7 = jumpif_spec(s6, cmp, swap, next);
    let s8 = s7.switch(swap);
    let s9 = s8.emit(IrOp::Store, ty, seq![new, addr]);
    jump_spec(s9, next)
}

impl LifterState {
    /// The destination of the direct branch at `pc` whose offset is operand `k`.
    fn branch_target(&self, inst: Instruction, k: usize, pc: u64) -> (t: u64)
        requires
            k < 4,
            inst.operands@[k as int] is PCOffset,
        ensures
            t == target_of(inst, k as int, pc),
    {
        let offset = get_pc_offset_as_int(inst.operands[k]);
        pc.wrapping_add_signed(offset)
    }

    /// The block recorded for `addr`, which exists.
    fn block_at(&self, addr: u64) -> (b: usize)
        requires
            self.wf(),
            self.blocks().contains_key(addr),
        ensures
            b == self.blocks()[addr],
            b < self.st().r.names.len(),
    {
        match self.get_block(addr) {
            Some(b) => b,
            None => 0,
        }
    }

    /// Saves the return address in `x30`.
    fn link(&mut self)
        requires
            old(self).wf(),
        ensures
            step_ok(*old(self), *final(self)),
            final(self).st() == link_spec(old(self).st()),
    {
        let pc_reg = self.read_pc_reg();
        let return_address = self.emit2(IrOp::Add, Ty::I64, pc_reg, Val::Const(4));
        self.write_reg(return_address, REG_LR, Ty::I64);
    }

    /// Lifts `B` and `BL`.
    pub fn lift_b(&mut self, pc: u64, inst: Instruction)
        requires
            old(self).wf(),
            inst.opcode is B || inst.opcode is BL,
            target_ok(inst, 0, pc, old(self).blocks()),
        ensures
            step_ok(*old(self), *final(self)),
            final(self).st() == b_spec(old(self).st(), inst, pc, old(self).blocks()),
    {
        if inst.opcode == Opcode::BL {
            self.link();
        }
        let next_address = self.branch_target(inst, 0, pc);
        let block = self.block_at(next_address);
        self.jump(block);
    }

    /// Lifts `B.cond`.
    pub fn lift_bcc(&mut self, pc: u64, cc: u8, inst: Instruction)
        requires
            old(self).wf(),
            cc < 16,
            target_ok(inst, 0, pc, old(self).blocks()),
            next_ok(pc, old(self).blocks()),
        ensures
            step_ok(*old(self), *final(self)),
            final(self).st() == bcc_spec(old(self).st(), cc, inst, pc, old(self).blocks()),
    {
        let jump_address = self.branch_target(inst, 0, pc);
        let jump_block = self.block_at(jump_address);
        let next_block = self.block_at(pc + INSTRUCTION_SIZE);
        let condition = match self.get_condition(Operand::ConditionCode(cc)) {
            Ok(v) => v,
            Err(_) => {
                proof {
                    assert(false);
                }
                Val::Const(0)
            },
        };
        self.jumpif(condition, jump_block, next_block);
    }

    /// Lifts `CBZ` and `CBNZ`.
    pub fn lift_cbz(&mut self, pc: u64, inst: Instruction)
        requires
            old(self).wf(),
            inst.opcode is CBZ || inst.opcode is CBNZ,
            is_typed_register(inst.operands@[0]),
            reads_ok(inst, 0),
            target_ok(inst, 1, pc, old(self).blocks()),
            next_ok(pc, old(self).blocks()),
        ensures
            step_ok(*old(self), *final(self)),
            final(self).st() == cbz_spec(old(self).st(), inst, pc, old(self).blocks()),
    {
        let next_block = self.block_at(pc + INSTRUCTION_SIZE);
        let src = self.get_value(inst.operands[0]);
        let op_type = get_type_by_inst(inst);
        let cmp = if inst.opcode == Opcode::CBZ {
            CmpTy::Eq
        } else {
            CmpTy::Ne
        };
        let condition = self.emit2(IrOp::Icmp(cmp), op_type, src, Val::Const(0));
        let jump_address = self.branch_target(inst, 1, pc);
        let block = self.block_at(jump_address);
        self.jumpif(condition, block, next_block);
    }

    /// Lifts `TBZ` and `TBNZ`.
    pub fn lift_tbz(&mut self, pc: u64, inst: Instruction)
        requires
            old(self).wf(),
            inst.opcode is TBZ || inst.opcode is TBNZ,
            is_typed_register(inst.operands@[0]),
            reads_ok(inst, 0),
            reads_ok(inst, 1),
            target_ok(inst, 2, pc, old(self).blocks()),
            next_ok(pc, old(self).blocks()),
        ensures
            step_ok(*old(self), *final(self)),
            final(self).st() == tbz_spec(old(self).st(), inst, pc, old(self).blocks()),
    {
        let next_block = self.block_at(pc + INSTRUCTION_SIZE);
        let one = Val::Const(1);
        let zero = Val::Const(0);
        let src = self.get_value(inst.operands[0]);
        let op_type = get_type_by_inst(inst);
        let test_bit = self.get_value(inst.operands[1]);
        let test_bit = self.emit2(IrOp::Lshr, op_type, test_bit, one);
        let val = self.emit2(IrOp::And, op_type, test_bit, src);
        let jump_address = self.branch_target(inst, 2, pc);
        let jump_block = self.block_at(jump_address);
        let cmp = if inst.opcode == Opcode::TBZ {
            CmpTy::Eq
        } else {
            CmpTy::Ne
        };
        let cond = self.emit2(IrOp::Icmp(cmp), op_type, val, zero);
        self.jumpif(cond, jump_block, next_block);
    }

    /// Lifts `BLR` and `BR`.
    pub fn lift_blr(&mut self, pc: u64, inst: Instruction)
        requires
            old(self).wf(),
            inst.opcode is BLR || inst.opcode is BR,
            reads_ok(inst, 0),
            pc + 4 <= u64::MAX,
        ensures
            step_ok(*old(self), *final(self)),
            final(self).st() == blr_spec(old(self).st(), inst, pc, old(self).blocks()),
    {
        if inst.opcode == Opcode::BLR {
            self.link();
        }
        let address = self.get_value(inst.operands[0]);
        self.emit1(IrOp::DynamicJump, Ty::I64, address);
        if inst.opcode == Opcode::BLR {
            self.mark_next_block_as_entry(pc);
        }
    }

    /// Lifts `RET`, `RETAA` and `RETAB`.
    pub fn lift_ret(&mut self, inst: Instruction)
        requires
            old(self).wf(),
            reads_ok(inst, 0),
        ensures
            step_ok(*old(self), *final(self)),
            final(self).st() == ret_spec(old(self).st(), inst),
    {
        let target = self.get_value(inst.operands[0]);
        self.emit1(IrOp::DynamicJump, Ty::I64, target);
    }

    /// Lifts `CAS`.
    pub fn lift_cas(&mut self, pc: u64, inst: Instruction)
        requires
            old(self).wf(),
            is_typed_register(inst.operands@[0]),
            reads_ok(inst, 0),
            reads_ok(inst, 1),
            reads_ok(inst, 2),
            next_ok(pc, old(self).blocks()),
        ensures
            step_ok(*old(self), *final(self)),
            final(self).st() == cas_spec(old(self).st(), inst, pc, old(self).blocks()),
    {
        let swap_block = self.create_block("cas_swap");
        let next_block = self.block_at(pc + INSTRUCTION_SIZE);
        let old_val = self.get_value(inst.operands[0]);
        let new_val = self.get_value(inst.operands[1]);
        let addr = self.get_value(inst.operands[2]);
        let op_type = get_type_by_inst(inst);
        let val = self.emit1(IrOp::Load, op_type, addr);
        let cmp = self.emit2(IrOp::Icmp(CmpTy::Eq), op_type, val, old_val);
        self.jumpif(cmp, swap_block, next_block);
        self.set_insert_block(swap_block);
        self.emit2(IrOp::Store, op_type, new_val, addr);
        self.jump(next_block);
    }

    /// Lifts `UDF`: a trap.
    pub fn lift_udf(&mut self)
        requires
            old(self).wf(),
        ensures
            step_ok(*old(self), *final(self)),
            final(self).st() == old(self).st().emit(IrOp::Trap, Ty::I64, seq![]),
    {
        self.emit0(IrOp::Trap, Ty::I64);
    }
}

} // verus!
