//! Lifting of one decoded instruction: when it can be lifted, and what it is lifted to.

use crate::arm64::decode::{Instruction, Opcode, Operand};
use crate::arm64::helper::{is_general_purpose, is_typed_register};
use crate::arm64::lifter::arith::{
    adc_spec, adr_spec, adrp_spec, arith_spec, cls_spec, clz_spec, default_spec, div_spec,
    eor_spec, extr_spec, mov_spec, mul_add_spec, mul_high_spec, neg_spec, not_then_spec,
    rev16_spec, rev32_spec, sbc_spec, step_ok, unary_spec, var_shift_spec,
};
use crate::arm64::lifter::bitfield::{bfm_spec, xbfm_spec};
use crate::arm64::lifter::branch::{
    b_spec, bcc_spec, blr_spec, cas_spec, cbz_spec, next_ok, ret_spec, target_ok, tbz_spec,
};
use crate::arm64::lifter::common::{dst_ok, reads_ok, writable};
use crate::arm64::lifter::memory::{
    is_load_byte, is_load_full, is_load_half, is_load_sbyte, is_load_shalf, is_load_sword,
    is_store_byte, is_store_full, is_store_half, ldpsw_spec, load_pair_spec, load_spec, names_reg,
    store_ex_spec, store_pair_ex_spec, store_pair_spec, store_spec,
};
use crate::arm64::lifter::operands::operand_ok;
use crate::arm64::lifter::regs::reg_index_spec;
use crate::arm64::lifter::select::{ccmp_spec, cond_ok, csel_spec};
use crate::arm64::lifter::{
    mark_next_spec, AArch64LifterError, LState, LifterState, INSTRUCTION_SIZE,
};
use crate::arm64::ir::{IrOp, Ty};
use vstd::prelude::*;

verus! {

/// Operands 1 and 2 can be read and the destination written.
pub open spec fn dst12_ok(inst: Instruction) -> bool {
    dst_ok(inst) && reads_ok(inst, 1) && reads_ok(inst, 2)
}

/// `inst` at `pc` can be lifted, given the blocks recorded for block starts: its operands
/// have the forms the lifter reads, its destination is not register 31, and the blocks it
/// branches to exist.
pub open spec fn inst_ok(inst: Instruction, pc: u64, blocks: Map<u64, usize>) -> bool {
    let o = inst.opcode;
    match o {
        Opcode::ADD | Opcode::ADDS | Opcode::SUB | Opcode::SUBS | Opcode::AND | Opcode::ANDS
        | Opcode::ORR | Opcode::ADC | Opcode::ADCS | Opcode::SBC | Opcode::SBCS | Opcode::BIC
        | Opcode::ORN | Opcode::EON | Opcode::EOR | Opcode::ASRV | Opcode::LSLV | Opcode::LSRV
        | Opcode::RORV | Opcode::SMULH | Opcode::UMULH | Opcode::SDIV | Opcode::UDIV => dst12_ok(
            inst,
        ),
        Opcode::MADD | Opcode::MSUB | Opcode::SMADDL | Opcode::SMSUBL | Opcode::UMADDL
        | Opcode::UMSUBL | Opcode::EXTR => dst12_ok(inst) && reads_ok(inst, 3),
        Opcode::RBIT | Opcode::REV | Opcode::REV64 | Opcode::REV16 | Opcode::REV32 | Opcode::CLZ
        | Opcode::CLS | Opcode::MOVK | Opcode::MOVN | Opcode::MOVZ | Opcode::NEG | Opcode::ADR
        | Opcode::ADRP => dst_ok(inst) && reads_ok(inst, 1),
        Opcode::B | Opcode::BL => target_ok(inst, 0, pc, blocks),
        Opcode::Bcc(cc) => cc < 16 && target_ok(inst, 0, pc, blocks) && next_ok(pc, blocks),
        Opcode::CBZ | Opcode::CBNZ => is_typed_register(inst.operands@[0]) && reads_ok(inst, 0)
            && target_ok(inst, 1, pc, blocks) && next_ok(pc, blocks),
        Opcode::TBZ | Opcode::TBNZ => is_typed_register(inst.operands@[0]) && reads_ok(inst, 0)
            && reads_ok(inst, 1) && target_ok(inst, 2, pc, blocks) && next_ok(pc, blocks),
        Opcode::BLR | Opcode::BR => reads_ok(inst, 0) && pc + 4 <= u64::MAX,
        Opcode::RET | Opcode::RETAA | Opcode::RETAB => reads_ok(inst, 0),
        Opcode::CAS(_) => is_typed_register(inst.operands@[0]) && reads_ok(inst, 0) && reads_ok(
            inst,
            1,
        ) && reads_ok(inst, 2) && next_ok(pc, blocks),
        Opcode::HVC | Opcode::SVC | Opcode::SYS | Opcode::SYSL => pc + 4 <= u64::MAX,
        Opcode::UDF | Opcode::HINT | Opcode::PRFM | Opcode::PRFUM | Opcode::SMC => true,
        Opcode::LDP | Opcode::LDXP | Opcode::LDPSW => writable(inst, 0) && writable(inst, 1)
            && reads_ok(inst, 2),
        Opcode::STP | Opcode::STNP => is_typed_register(inst.operands@[0]) && reads_ok(inst, 0)
            && reads_ok(inst, 1) && reads_ok(inst, 2),
        Opcode::STXP | Opcode::STLXP => names_reg(inst) && reads_ok(inst, 1) && reads_ok(inst, 2)
            && reads_ok(inst, 3),
        Opcode::STLXR | Opcode::STXR | Opcode::STLXRB | Opcode::STXRB | Opcode::STLXRH
        | Opcode::STXRH => dst12_ok(inst),
        Opcode::CSEL | Opcode::CSINC | Opcode::CSINV | Opcode::CSNEG => dst12_ok(inst) && cond_ok(
            inst,
            3,
        ) && next_ok(pc, blocks),
        Opcode::CCMP | Opcode::CCMN => is_typed_register(inst.operands@[0]) && reads_ok(inst, 0)
            && reads_ok(inst, 1) && reads_ok(inst, 2) && cond_ok(inst, 3) && next_ok(pc, blocks),
        Opcode::BFM | Opcode::SBFM | Opcode::UBFM => dst12_ok(inst) && reads_ok(inst, 3)
            && next_ok(pc, blocks),
        Opcode::Other => is_general_purpose(inst.operands@[0]) ==> dst_ok(inst),
        _ => {
            if is_load_full(o) || is_load_byte(o) || is_load_half(o) || is_load_sbyte(o)
                || is_load_shalf(o) || is_load_sword(o) {
                dst_ok(inst) && reads_ok(inst, 1)
            } else {
                // the single-register stores
                is_typed_register(inst.operands@[0]) && reads_ok(inst, 0) && reads_ok(inst, 1)
            }
        },
    }
}

/// What lifting `inst` at `pc` appends, given the blocks recorded for block starts.
pub open spec fn lift_spec(s: LState, inst: Instruction, pc: u64, blocks: Map<u64, usize>) -> LState {
    let o = inst.opcode;
    match o {
        Opcode::ADD | Opcode::ADDS | Opcode::SUB | Opcode::SUBS | Opcode::AND | Opcode::ANDS
        | Opcode::ORR => arith_spec(s, inst),
        Opcode::ADC | Opcode::ADCS => adc_spec(s, inst),
        Opcode::SBC | Opcode::SBCS => sbc_spec(s, inst),
        Opcode::BIC | Opcode::ORN | Opcode::EON => not_then_spec(s, inst),
        Opcode::EOR => eor_spec(s, inst),
        Opcode::ASRV | Opcode::LSLV | Opcode::LSRV | Opcode::RORV => var_shift_spec(s, inst),
        Opcode::MADD | Opcode::MSUB | Opcode::SMADDL | Opcode::SMSUBL | Opcode::UMADDL
        | Opcode::UMSUBL => mul_add_spec(s, inst),
        Opcode::SMULH | Opcode::UMULH => mul_high_spec(s, inst),
        Opcode::SDIV | Opcode::UDIV => div_spec(s, inst),
        Opcode::RBIT | Opcode::REV | Opcode::REV64 => unary_spec(s, inst),
        Opcode::REV16 => rev16_spec(s, inst),
        Opcode::REV32 => rev32_spec(s, inst),
        Opcode::CLZ => clz_spec(s, inst),
        Opcode::CLS => cls_spec(s, inst),
        Opcode::MOVK | Opcode::MOVN | Opcode::MOVZ => mov_spec(s, inst),
        Opcode::NEG => neg_spec(s, inst),
        Opcode::EXTR => extr_spec(s, inst),
        Opcode::ADR => adr_spec(s, inst),
        Opcode::ADRP => adrp_spec(s, inst),
        Opcode::B | Opcode::BL => b_spec(s, inst, pc, blocks),
        Opcode::Bcc(cc) => bcc_spec(s, cc, inst, pc, blocks),
        Opcode::CBZ | Opcode::CBNZ => cbz_spec(s, inst, pc, blocks),
        Opcode::TBZ | Opcode::TBNZ => tbz_spec(s, inst, pc, blocks),
        Opcode::BLR | Opcode::BR => blr_spec(s, inst, pc, blocks),
        Opcode::RET | Opcode::RETAA | Opcode::RETAB => ret_spec(s, inst),
        Opcode::CAS(_) => cas_spec(s, inst, pc, blocks),
        Opcode::UDF => s.emit(IrOp::Trap, Ty::I64, seq![]),
        Opcode::HVC | Opcode::SVC | Opcode::SYS | Opcode::SYSL => mark_next_spec(s, blocks, pc),
        Opcode::HINT | Opcode::PRFM | Opcode::PRFUM | Opcode::SMC => s,
        Opcode::LDP | Opcode::LDXP => load_pair_spec(s, inst),
        Opcode::LDPSW => ldpsw_spec(s, inst),
        Opcode::STP | Opcode::STNP => store_pair_spec(s, inst),
        Opcode::STXP | Opcode::STLXP => store_pair_ex_spec(s, inst),
        Opcode::STLXR | Opcode::STXR | Opcode::STLXRB | Opcode::STXRB | Opcode::STLXRH
        | Opcode::STXRH => store_ex_spec(s, inst),
        Opcode::CSEL | Opcode::CSINC | Opcode::CSINV | Opcode::CSNEG => csel_spec(s, inst, pc, blocks),
        Opcode::CCMP | Opcode::CCMN => ccmp_spec(s, inst, pc, blocks),
        Opcode::BFM => bfm_spec(s, inst, pc, blocks),
        Opcode::SBFM | Opcode::UBFM => xbfm_spec(s, inst, pc, blocks),
        Opcode::Other => default_spec(s, inst),
        _ => {
            if is_load_full(o) || is_load_byte(o) || is_load_half(o) || is_load_sbyte(o)
                || is_load_shalf(o) || is_load_sword(o) {
                load_spec(s, inst)
            } else {
                store_spec(s, inst)
            }
        },
    }
}

/// Whether an operand can be read.
fn operand_ok_exec(o: Operand) -> (r: bool)
    ensures
        r == operand_ok(o),
{
    match o {
        Operand::Register(_, r) => r < 32,
        Operand::RegisterOrSP(_, r) => r < 32,
        Operand::ImmShift(_, s) => s < 64,
        Operand::ImmShiftMSL(_, s) => s < 64,
        Operand::RegShift(_, _, _, r) => r < 32,
        Operand::RegRegOffset(rn, rd, _, style, _) => rn < 32 && rd < 32 && matches!(
            style,
            crate::arm64::decode::ShiftStyle::LSL | crate::arm64::decode::ShiftStyle::UXTW
                | crate::arm64::decode::ShiftStyle::SXTW | crate::arm64::decode::ShiftStyle::SXTX
        ),
        Operand::RegPreIndex(rn, _, _) => rn < 32,
        Operand::RegPostIndex(rn, _) => rn < 32,
        Operand::RegPostIndexReg(_, _) => false,
        _ => true,
    }
}

/// Whether an operand names a register that determines the instruction type.
fn is_typed_register_exec(o: Operand) -> (r: bool)
    ensures
        r == is_typed_register(o),
{
    match o {
        Operand::Register(..) | Operand::RegisterOrSP(..) | Operand::RegisterPair(..)
        | Operand::SIMDRegister(..) | Operand::SIMDRegisterElements(..) => true,
        _ => false,
    }
}

impl LifterState {
    /// Whether operand `k` of `inst` can be read.
    fn reads_ok_exec(&self, inst: Instruction, k: usize) -> (r: bool)
        requires
            k < 4,
        ensures
            r == reads_ok(inst, k as int),
    {
        operand_ok_exec(inst.operands[k])
    }

    /// Whether operand `k` of `inst` is a register that may be written.
    fn writable_exec(&self, inst: Instruction, k: usize) -> (r: bool)
        requires
            k < 4,
        ensures
            r == writable(inst, k as int),
    {
        operand_ok_exec(inst.operands[k]) && match self.get_reg_by_index(inst, k) {
            Some(d) => d != 31,
            None => false,
        }
    }

    /// Whether the destination of `inst` may be written and operands 1 and 2 read.
    fn dst12_ok_exec(&self, inst: Instruction) -> (r: bool)
        ensures
            r == dst12_ok(inst),
    {
        self.writable_exec(inst, 0) && self.reads_ok_exec(inst, 1) && self.reads_ok_exec(inst, 2)
    }

    /// Whether operand `k` is a pc-relative offset whose destination has a block.
    fn target_ok_exec(&self, inst: Instruction, k: usize, pc: u64) -> (r: bool)
        requires
            self.wf(),
            k < 4,
        ensures
            r == target_ok(inst, k as int, pc, self.blocks()),
    {
        match inst.operands[k] {
            Operand::PCOffset(off) => self.get_block(pc.wrapping_add_signed(off)).is_some(),
            _ => false,
        }
    }

    /// Whether a block starts after the instruction at `pc`.
    fn next_ok_exec(&self, pc: u64) -> (r: bool)
        requires
            self.wf(),
        ensures
            r == next_ok(pc, self.blocks()),
    {
        pc <= u64::MAX - INSTRUCTION_SIZE && self.get_block(pc + INSTRUCTION_SIZE).is_some()
    }

    /// Whether operand `k` is a condition code.
    fn cond_ok_exec(&self, inst: Instruction, k: usize) -> (r: bool)
        requires
            k < 4,
        ensures
            r == cond_ok(inst, k as int),
    {
        match inst.operands[k] {
            Operand::ConditionCode(cc) => cc < 16,
            _ => false,
        }
    }

    /// Whether `inst` at `pc` can be lifted.
    pub fn check_inst(&self, pc: u64, inst: Instruction) -> (r: bool)
        requires
            self.wf(),
        ensures
            r == inst_ok(inst, pc, self.blocks()),
    {
        let typed0 = is_typed_register_exec(inst.operands[0]);
        match inst.opcode {
            Opcode::ADD | Opcode::ADDS | Opcode::SUB | Opcode::SUBS | Opcode::AND | Opcode::ANDS
            | Opcode::ORR | Opcode::ADC | Opcode::ADCS | Opcode::SBC | Opcode::SBCS | Opcode::BIC
            | Opcode::ORN | Opcode::EON | Opcode::EOR | Opcode::ASRV | Opcode::LSLV | Opcode::LSRV
            | Opcode::RORV | Opcode::SMULH | Opcode::UMULH | Opcode::SDIV | Opcode::UDIV => self.dst12_ok_exec(
                inst,
            ),
            Opcode::MADD | Opcode::MSUB | Opcode::SMADDL | Opcode::SMSUBL | Opcode::UMADDL
            | Opcode::UMSUBL | Opcode::EXTR => self.dst12_ok_exec(inst) && self.reads_ok_exec(
                inst,
                3,
            ),
            Opcode::RBIT | Opcode::REV | Opcode::REV64 | Opcode::REV16 | Opcode::REV32
            | Opcode::CLZ | Opcode::CLS | Opcode::MOVK | Opcode::MOVN | Opcode::MOVZ | Opcode::NEG
            | Opcode::ADR | Opcode::ADRP => self.writable_exec(inst, 0) && self.reads_ok_exec(
                inst,
                1,
            ),
            Opcode::B | Opcode::BL => self.target_ok_exec(inst, 0, pc),
            Opcode::Bcc(cc) => cc < 16 && self.target_ok_exec(inst, 0, pc) && self.next_ok_exec(
                pc,
            ),
            Opcode::CBZ | Opcode::CBNZ => typed0 && self.reads_ok_exec(inst, 0)
                && self.target_ok_exec(inst, 1, pc) && self.next_ok_exec(pc),
            Opcode::TBZ | Opcode::TBNZ => typed0 && self.reads_ok_exec(inst, 0)
                && self.reads_ok_exec(inst, 1) && self.target_ok_exec(inst, 2, pc)
                && self.next_ok_exec(pc),
            Opcode::BLR | Opcode::BR => self.reads_ok_exec(inst, 0) && pc <= u64::MAX
                - INSTRUCTION_SIZE,
            Opcode::RET | Opcode::RETAA | Opcode::RETAB => self.reads_ok_exec(inst, 0),
            Opcode::CAS(_) => typed0 && self.reads_ok_exec(inst, 0) && self.reads_ok_exec(inst, 1)
                && self.reads_ok_exec(inst, 2) && self.next_ok_exec(pc),
            Opcode::HVC | Opcode::SVC | Opcode::SYS | Opcode::SYSL => pc <= u64::MAX
                - INSTRUCTION_SIZE,
            Opcode::UDF | Opcode::HINT | Opcode::PRFM | Opcode::PRFUM | Opcode::SMC => true,
            Opcode::LDP | Opcode::LDXP | Opcode::LDPSW => self.writable_exec(inst, 0)
                && self.writable_exec(inst, 1) && self.reads_ok_exec(inst, 2),
            Opcode::STP | Opcode::STNP => typed0 && self.reads_ok_exec(inst, 0)
                && self.reads_ok_exec(inst, 1) && self.reads_ok_exec(inst, 2),
            Opcode::STXP | Opcode::STLXP => self.reads_ok_exec(inst, 0) && self.get_dst_reg(
                inst,
            ).is_some() && self.reads_ok_exec(inst, 1) && self.reads_ok_exec(inst, 2)
                && self.reads_ok_exec(inst, 3),
            Opcode::STLXR | Opcode::STXR | Opcode::STLXRB | Opcode::STXRB | Opcode::STLXRH
            | Opcode::STXRH => self.dst12_ok_exec(inst),
            Opcode::CSEL | Opcode::CSINC | Opcode::CSINV | Opcode::CSNEG => self.dst12_ok_exec(
                inst,
            ) && self.cond_ok_exec(inst, 3) && self.next_ok_exec(pc),
            Opcode::CCMP | Opcode::CCMN => typed0 && self.reads_ok_exec(inst, 0)
                && self.reads_ok_exec(inst, 1) && self.reads_ok_exec(inst, 2)
                && self.cond_ok_exec(inst, 3) && self.next_ok_exec(pc),
            Opcode::BFM | Opcode::SBFM | Opcode::UBFM => self.dst12_ok_exec(inst)
                && self.reads_ok_exec(inst, 3) && self.next_ok_exec(pc),
            Opcode::Other => !crate::arm64::helper::is_operand_general_purpose(inst.operands[0])
                || self.writable_exec(inst, 0),
            Opcode::LDR | Opcode::LDUR | Opcode::LDAR | Opcode::LDXR | Opcode::LDAXR
            | Opcode::LDTR | Opcode::LDRB | Opcode::LDURB | Opcode::LDARB | Opcode::LDXRB
            | Opcode::LDAXRB | Opcode::LDTRB | Opcode::LDRH | Opcode::LDURH | Opcode::LDARH
            | Opcode::LDXRH | Opcode::LDAXRH | Opcode::LDTRH | Opcode::LDRSB | Opcode::LDTRSB
            | Opcode::LDURSB | Opcode::LDRSH | Opcode::LDTRSH | Opcode::LDURSH | Opcode::LDRSW
            | Opcode::LDTRSW | Opcode::LDURSW => self.writable_exec(inst, 0)
                && self.reads_ok_exec(inst, 1),
            _ => typed0 && self.reads_ok_exec(inst, 0) && self.reads_ok_exec(inst, 1),
        }
    }

    /// Lifts `inst` at `pc`.  Fails, changing nothing, where the instruction has operands the
    /// lifter cannot read, writes register 31, or branches where no block starts.
    pub fn lift_inst(&mut self, pc: u64, inst: Instruction) -> (r: Result<(), AArch64LifterError>)
        requires
            old(self).wf(),
        ensures
            r is Ok <==> inst_ok(inst, pc, old(self).blocks()),
            r is Ok ==> step_ok(*old(self), *final(self)) && final(self).st() == lift_spec(
                old(self).st(),
                inst,
                pc,
                old(self).blocks(),
            ),
            r is Err ==> *final(self) == *old(self),
            r matches Err(e) ==> e is CustomError,
    {
        if !self.check_inst(pc, inst) {
            return Err(AArch64LifterError::CustomError("instruction cannot be lifted".to_string()));
        }
        match inst.opcode {
            Opcode::ADD | Opcode::ADDS | Opcode::SUB | Opcode::SUBS | Opcode::AND | Opcode::ANDS
            | Opcode::ORR => self.lift_arith(inst),
            Opcode::ADC | Opcode::ADCS => self.lift_adc(inst),
            Opcode::SBC | Opcode::SBCS => self.lift_sbc(inst),
            Opcode::BIC | Opcode::ORN | Opcode::EON => self.lift_not_then(inst),
            Opcode::EOR => self.lift_eor(inst),
            Opcode::ASRV | Opcode::LSLV | Opcode::LSRV | Opcode::RORV => self.lift_var_shift(inst),
            Opcode::MADD | Opcode::MSUB | Opcode::SMADDL | Opcode::SMSUBL | Opcode::UMADDL
            | Opcode::UMSUBL => self.lift_mul_add(inst),
            Opcode::SMULH | Opcode::UMULH => self.lift_mul_high(inst),
            Opcode::SDIV | Opcode::UDIV => self.lift_div(inst),
            Opcode::RBIT | Opcode::REV | Opcode::REV64 => self.lift_unary(inst),
            Opcode::REV16 => self.lift_rev16(inst),
            Opcode::REV32 => self.lift_rev32(inst),
            Opcode::CLZ => self.lift_clz(inst),
            Opcode::CLS => self.lift_cls(inst),
            Opcode::MOVK | Opcode::MOVN | Opcode::MOVZ => self.lift_mov(inst),
            Opcode::NEG => self.lift_neg(inst),
            Opcode::EXTR => self.lift_extr(inst),
            Opcode::ADR => self.lift_adr(inst),
            Opcode::ADRP => self.lift_adrp(inst),
            Opcode::B | Opcode::BL => self.lift_b(pc, inst),
            Opcode::Bcc(cc) => self.lift_bcc(pc, cc, inst),
            Opcode::CBZ | Opcode::CBNZ => self.lift_cbz(pc, inst),
            Opcode::TBZ | Opcode::TBNZ => self.lift_tbz(pc, inst),
            Opcode::BLR | Opcode::BR => self.lift_blr(pc, inst),
            Opcode::RET | Opcode::RETAA | Opcode::RETAB => self.lift_ret(inst),
            Opcode::CAS(_) => self.lift_cas(pc, inst),
            Opcode::UDF => self.lift_udf(),
            Opcode::HVC | Opcode::SVC | Opcode::SYS | Opcode::SYSL => {
                // Hypervisor, supervisor and system calls are not followed; execution may
                // come back at the next instruction.
                self.mark_next_block_as_entry(pc);
            },
            Opcode::HINT | Opcode::PRFM | Opcode::PRFUM | Opcode::SMC => {
                // Hints, prefetches and secure monitor calls have no effect here.
            },
            Opcode::LDP | Opcode::LDXP => self.lift_load_pair(inst),
            Opcode::LDPSW => self.lift_ldpsw(inst),
            Opcode::STP | Opcode::STNP => self.lift_store_pair(inst),
            Opcode::STXP | Opcode::STLXP => self.lift_store_pair_ex(inst),
            Opcode::STLXR | Opcode::STXR | Opcode::STLXRB | Opcode::STXRB | Opcode::STLXRH
            | Opcode::STXRH => self.lift_store_ex(inst),
            Opcode::CSEL | Opcode::CSINC | Opcode::CSINV | Opcode::CSNEG => self.lift_csel(
                pc,
                inst,
            ),
            Opcode::CCMP | Opcode::CCMN => self.lift_ccmp(pc, inst),
            Opcode::BFM => self.lift_bfm(pc, inst),
            Opcode::SBFM | Opcode::UBFM => self.lift_xbfm(pc, inst),
            Opcode::Other => self.lift_default(inst),
            Opcode::LDR | Opcode::LDUR | Opcode::LDAR | Opcode::LDXR | Opcode::LDAXR
            | Opcode::LDTR | Opcode::LDRB | Opcode::LDURB | Opcode::LDARB | Opcode::LDXRB
            | Opcode::LDAXRB | Opcode::LDTRB | Opcode::LDRH | Opcode::LDURH | Opcode::LDARH
            | Opcode::LDXRH | Opcode::LDAXRH | Opcode::LDTRH | Opcode::LDRSB | Opcode::LDTRSB
            | Opcode::LDURSB | Opcode::LDRSH | Opcode::LDTRSH | Opcode::LDURSH | Opcode::LDRSW
            | Opcode::LDTRSW | Opcode::LDURSW => self.lift_load(inst),
            _ => self.lift_store(inst),
        }
        Ok(())
    }
}

} // verus!
