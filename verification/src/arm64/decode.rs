//! Decoding of A64 machine code into plain instruction values.
//!
//! The decoding itself is done by `yaxpeax_arm`.  What the rest of the library reads of a
//! decoded instruction is held in the types of this module: an [`Instruction`] is an
//! [`Opcode`] and four [`Operand`]s, mirroring the decoder's own instruction type.  The
//! decoder's result reaches the library as its `Debug` rendering, which [`parse_instruction`]
//! reads back.

use crate::arm64::ir::{decimal, digit_char};
use crate::arm64::rendering::{
    is_token, item_at, item_ok, lemma_decimal_token, lemma_opcode_item_ok, lemma_opcode_not_sys,
    lemma_operand_item_ok, lemma_operand_names, lemma_split_at, opcode_args, lemma_render_args_head,
    lemma_render_item_parts, lemma_signed_decimal_token, operand_args, operand_name,
};
use crate::arm64::unique::{
    law_rendering_unique, lemma_form_unique, lemma_opcode_unique, lemma_operand_text_unique,
};
use vstd::prelude::*;
use yaxpeax_arch::{Decoder, U8Reader};
use yaxpeax_arm::armv8::a64::{DecodeError as A64DecodeError, InstDecoder};

verus! {

/// Size of a general purpose register operand.
#[derive(Clone, Copy, PartialEq, Eq, Debug, Structural)]
pub enum SizeCode {
    X,
    W,
}

/// Size of a SIMD register operand or of its elements.
#[derive(Clone, Copy, PartialEq, Eq, Debug, Structural)]
pub enum SIMDSizeCode {
    B,
    H,
    S,
    D,
    Q,
}

/// How a register operand is shifted or extended.
#[derive(Clone, Copy, PartialEq, Eq, Debug, Structural)]
pub enum ShiftStyle {
    LSL,
    LSR,
    ASR,
    ROR,
    UXTB,
    UXTH,
    UXTW,
    UXTX,
    SXTB,
    SXTH,
    SXTW,
    SXTX,
}

/// An operand of a decoded instruction.
#[derive(Clone, Copy, PartialEq, Eq, Debug, Structural)]
pub enum Operand {
    Nothing,
    /// A general purpose register; register 31 is the zero register.
    Register(SizeCode, u16),
    RegisterPair(SizeCode, u16),
    SIMDRegister(SIMDSizeCode, u16),
    SIMDRegisterElements(SIMDSizeCode, u16, SIMDSizeCode),
    SIMDRegisterElementsLane(SIMDSizeCode, u16, SIMDSizeCode, u8),
    SIMDRegisterElementsMultipleLane(SIMDSizeCode, u16, SIMDSizeCode, u8, u8),
    SIMDRegisterGroup(SIMDSizeCode, u16, SIMDSizeCode, u8),
    SIMDRegisterGroupLane(u16, SIMDSizeCode, u8, u8),
    /// A general purpose register; register 31 is the stack pointer.
    RegisterOrSP(SizeCode, u16),
    ConditionCode(u8),
    PCOffset(i64),
    Immediate(u32),
    Imm64(u64),
    Imm16(u16),
    /// A floating point immediate; its value is not kept.
    ImmediateDouble,
    ImmShift(u16, u8),
    ImmShiftMSL(u16, u8),
    RegShift(ShiftStyle, u8, SizeCode, u16),
    RegRegOffset(u16, u16, SizeCode, ShiftStyle, u8),
    RegPreIndex(u16, i32, bool),
    RegPostIndex(u16, i32),
    RegPostIndexReg(u16, u16),
    PrefetchOp(u16),
    SystemReg(u16),
    ControlReg(u16),
    PstateField(u8),
    /// An operand the decoder rendered in a form this library does not know.
    Unknown,
}

/// Operation of a decoded instruction.  The operations the lifter distinguishes have a variant
/// of their own; every other operation is `Other`.
#[derive(Clone, Copy, PartialEq, Eq, Debug, Structural)]
pub enum Opcode {
    ADC,
    ADCS,
    ADD,
    ADDS,
    ADR,
    ADRP,
    AND,
    ANDS,
    ASRV,
    B,
    BL,
    BFM,
    BIC,
    BLR,
    BR,
    CBNZ,
    CBZ,
    CCMN,
    CCMP,
    CLS,
    CLZ,
    CSEL,
    CSINC,
    CSINV,
    CSNEG,
    EON,
    EOR,
    EXTR,
    HINT,
    HVC,
    LDP,
    LDXP,
    LDPSW,
    LDR,
    LDUR,
    LDAR,
    LDXR,
    LDAXR,
    LDTR,
    LDRB,
    LDURB,
    LDARB,
    LDXRB,
    LDAXRB,
    LDTRB,
    LDRH,
    LDURH,
    LDARH,
    LDXRH,
    LDAXRH,
    LDTRH,
    LDRSB,
    LDTRSB,
    LDURSB,
    LDRSH,
    LDTRSH,
    LDURSH,
    LDRSW,
    LDTRSW,
    LDURSW,
    LSLV,
    LSRV,
    MADD,
    MOVK,
    MOVN,
    MOVZ,
    MSUB,
    NEG,
    ORN,
    ORR,
    PRFM,
    PRFUM,
    RBIT,
    RET,
    RETAB,
    RETAA,
    REV,
    REV64,
    REV16,
    REV32,
    RORV,
    SBC,
    SBCS,
    SBFM,
    SDIV,
    SMADDL,
    SMC,
    SMSUBL,
    SMULH,
    STP,
    STNP,
    STXP,
    STLXP,
    STR,
    STLR,
    STUR,
    STLUR,
    STTR,
    STLXR,
    STXR,
    STRB,
    STLRB,
    STURB,
    STLURB,
    STTRB,
    STLXRB,
    STXRB,
    STRH,
    STLRH,
    STURH,
    STLURH,
    STTRH,
    STLXRH,
    STXRH,
    SUB,
    SUBS,
    SVC,
    SYS,
    SYSL,
    TBNZ,
    TBZ,
    UBFM,
    UDF,
    UDIV,
    UMADDL,
    UMSUBL,
    UMULH,
    /// Conditional branch with its condition code.
    Bcc(u8),
    /// Compare and swap with its ordering bits.
    CAS(u8),
    Other,
}

/// A decoded instruction.
#[derive(Clone, Copy, Debug)]
pub struct Instruction {
    pub opcode: Opcode,
    pub operands: [Operand; 4],
}

/// Why a word could not be decoded.
#[derive(Clone, Copy, PartialEq, Eq, Debug, Structural)]
pub enum DecodeError {
    /// Fewer than four bytes were left.
    ExhaustedInput,
    InvalidOpcode,
    InvalidOperand,
    /// The decoder does not know this encoding.
    IncompleteDecoder,
}

/// Name under which the decoder reports an operation without payload.
#[verifier::opaque]
pub open spec fn opcode_name(o: Opcode) -> Seq<char> {
    match o {
        Opcode::ADC => "ADC"@,
        Opcode::ADCS => "ADCS"@,
        Opcode::ADD => "ADD"@,
        Opcode::ADDS => "ADDS"@,
        Opcode::ADR => "ADR"@,
        Opcode::ADRP => "ADRP"@,
        Opcode::AND => "AND"@,
        Opcode::ANDS => "ANDS"@,
        Opcode::ASRV => "ASRV"@,
        Opcode::B => "B"@,
        Opcode::BL => "BL"@,
        Opcode::BFM => "BFM"@,
        Opcode::BIC => "BIC"@,
        Opcode::BLR => "BLR"@,
        Opcode::BR => "BR"@,
        Opcode::CBNZ => "CBNZ"@,
        Opcode::CBZ => "CBZ"@,
        Opcode::CCMN => "CCMN"@,
        Opcode::CCMP => "CCMP"@,
        Opcode::CLS => "CLS"@,
        Opcode::CLZ => "CLZ"@,
        Opcode::CSEL => "CSEL"@,
        Opcode::CSINC => "CSINC"@,
        Opcode::CSINV => "CSINV"@,
        Opcode::CSNEG => "CSNEG"@,
        Opcode::EON => "EON"@,
        Opcode::EOR => "EOR"@,
        Opcode::EXTR => "EXTR"@,
        Opcode::HINT => "HINT"@,
        Opcode::HVC => "HVC"@,
        Opcode::LDP => "LDP"@,
        Opcode::LDXP => "LDXP"@,
        Opcode::LDPSW => "LDPSW"@,
        Opcode::LDR => "LDR"@,
        Opcode::LDUR => "LDUR"@,
        Opcode::LDAR => "LDAR"@,
        Opcode::LDXR => "LDXR"@,
        Opcode::LDAXR => "LDAXR"@,
        Opcode::LDTR => "LDTR"@,
        Opcode::LDRB => "LDRB"@,
        Opcode::LDURB => "LDURB"@,
        Opcode::LDARB => "LDARB"@,
        Opcode::LDXRB => "LDXRB"@,
        Opcode::LDAXRB => "LDAXRB"@,
        Opcode::LDTRB => "LDTRB"@,
        Opcode::LDRH => "LDRH"@,
        Opcode::LDURH => "LDURH"@,
        Opcode::LDARH => "LDARH"@,
        Opcode::LDXRH => "LDXRH"@,
        Opcode::LDAXRH => "LDAXRH"@,
        Opcode::LDTRH => "LDTRH"@,
        Opcode::LDRSB => "LDRSB"@,
        Opcode::LDTRSB => "LDTRSB"@,
        Opcode::LDURSB => "LDURSB"@,
        Opcode::LDRSH => "LDRSH"@,
        Opcode::LDTRSH => "LDTRSH"@,
        Opcode::LDURSH => "LDURSH"@,
        Opcode::LDRSW => "LDRSW"@,
        Opcode::LDTRSW => "LDTRSW"@,
        Opcode::LDURSW => "LDURSW"@,
        Opcode::LSLV => "LSLV"@,
        Opcode::LSRV => "LSRV"@,
        Opcode::MADD => "MADD"@,
        Opcode::MOVK => "MOVK"@,
        Opcode::MOVN => "MOVN"@,
        Opcode::MOVZ => "MOVZ"@,
        Opcode::MSUB => "MSUB"@,
        Opcode::NEG => "NEG"@,
        Opcode::ORN => "ORN"@,
        Opcode::ORR => "ORR"@,
        Opcode::PRFM => "PRFM"@,
        Opcode::PRFUM => "PRFUM"@,
        Opcode::RBIT => "RBIT"@,
        Opcode::RET => "RET"@,
        Opcode::RETAB => "RETAB"@,
        Opcode::RETAA => "RETAA"@,
        Opcode::REV => "REV"@,
        Opcode::REV64 => "REV64"@,
        Opcode::REV16 => "REV16"@,
        Opcode::REV32 => "REV32"@,
        Opcode::RORV => "RORV"@,
        Opcode::SBC => "SBC"@,
        Opcode::SBCS => "SBCS"@,
        Opcode::SBFM => "SBFM"@,
        Opcode::SDIV => "SDIV"@,
        Opcode::SMADDL => "SMADDL"@,
        Opcode::SMC => "SMC"@,
        Opcode::SMSUBL => "SMSUBL"@,
        Opcode::SMULH => "SMULH"@,
        Opcode::STP => "STP"@,
        Opcode::STNP => "STNP"@,
        Opcode::STXP => "STXP"@,
        Opcode::STLXP => "STLXP"@,
        Opcode::STR => "STR"@,
        Opcode::STLR => "STLR"@,
        Opcode::STUR => "STUR"@,
        Opcode::STLUR => "STLUR"@,
        Opcode::STTR => "STTR"@,
        Opcode::STLXR => "STLXR"@,
        Opcode::STXR => "STXR"@,
        Opcode::STRB => "STRB"@,
        Opcode::STLRB => "STLRB"@,
        Opcode::STURB => "STURB"@,
        Opcode::STLURB => "STLURB"@,
        Opcode::STTRB => "STTRB"@,
        Opcode::STLXRB => "STLXRB"@,
        Opcode::STXRB => "STXRB"@,
        Opcode::STRH => "STRH"@,
        Opcode::STLRH => "STLRH"@,
        Opcode::STURH => "STURH"@,
        Opcode::STLURH => "STLURH"@,
        Opcode::STTRH => "STTRH"@,
        Opcode::STLXRH => "STLXRH"@,
        Opcode::STXRH => "STXRH"@,
        Opcode::SUB => "SUB"@,
        Opcode::SUBS => "SUBS"@,
        Opcode::SVC => "SVC"@,
        Opcode::SYS => "SYS"@,
        Opcode::SYSL => "SYSL"@,
        Opcode::TBNZ => "TBNZ"@,
        Opcode::TBZ => "TBZ"@,
        Opcode::UBFM => "UBFM"@,
        Opcode::UDF => "UDF"@,
        Opcode::UDIV => "UDIV"@,
        Opcode::UMADDL => "UMADDL"@,
        Opcode::UMSUBL => "UMSUBL"@,
        Opcode::UMULH => "UMULH"@,
        Opcode::Bcc(_) => "Bcc"@,
        Opcode::CAS(_) => "CAS"@,
        Opcode::Other => Seq::empty(),
    }
}

/// An operation that carries no payload and has a variant of its own.
pub open spec fn is_plain_opcode(o: Opcode) -> bool {
    !(o is Bcc) && !(o is CAS) && !(o is Other)
}

/// Whether `a` holds the characters of `s`.
pub fn chars_eq_str(a: &[char], s: &str) -> (r: bool)
    ensures
        r == (a@ == s@),
{
    let n = s.unicode_len();
    if a.len() != n {
        return false;
    }
    let mut i: usize = 0;
    while i < n
        invariant
            n == s@.len(),
            a@.len() == n,
            i <= n,
            forall|j: int| 0 <= j < i ==> a@[j] == s@[j],
        decreases n - i,
    {
        if a[i] != s.get_char(i) {
            return false;
        }
        i = i + 1;
    }
    assert(a@ =~= s@);
    true
}

/// The payload-free operation reported under `name`, or `Other`.
#[verifier::rlimit(100)]
pub fn opcode_from_name(name: &[char]) -> (r: Opcode)
    ensures
        r != Opcode::Other ==> is_plain_opcode(r) && opcode_name(r) == name@,
        r == Opcode::Other ==> forall|o: Opcode| is_plain_opcode(o) ==> opcode_name(o) != name@,
{
    reveal(opcode_name);
    if chars_eq_str(name, "ADC") {
        Opcode::ADC
    }     else if chars_eq_str(name, "ADCS") {
        Opcode::ADCS
    }     else if chars_eq_str(name, "ADD") {
        Opcode::ADD
    }     else if chars_eq_str(name, "ADDS") {
        Opcode::ADDS
    }     else if chars_eq_str(name, "ADR") {
        Opcode::ADR
    }     else if chars_eq_str(name, "ADRP") {
        Opcode::ADRP
    }     else if chars_eq_str(name, "AND") {
        Opcode::AND
    }     else if chars_eq_str(name, "ANDS") {
        Opcode::ANDS
    }     else if chars_eq_str(name, "ASRV") {
        Opcode::ASRV
    }     else if chars_eq_str(name, "B") {
        Opcode::B
    }     else if chars_eq_str(name, "BL") {
        Opcode::BL
    }     else if chars_eq_str(name, "BFM") {
        Opcode::BFM
    }     else if chars_eq_str(name, "BIC") {
        Opcode::BIC
    }     else if chars_eq_str(name, "BLR") {
        Opcode::BLR
    }     else if chars_eq_str(name, "BR") {
        Opcode::BR
    }     else if chars_eq_str(name, "CBNZ") {
        Opcode::CBNZ
    }     else if chars_eq_str(name, "CBZ") {
        Opcode::CBZ
    }     else if chars_eq_str(name, "CCMN") {
        Opcode::CCMN
    }     else if chars_eq_str(name, "CCMP") {
        Opcode::CCMP
    }     else if chars_eq_str(name, "CLS") {
        Opcode::CLS
    }     else if chars_eq_str(name, "CLZ") {
        Opcode::CLZ
    }     else if chars_eq_str(name, "CSEL") {
        Opcode::CSEL
    }     else if chars_eq_str(name, "CSINC") {
        Opcode::CSINC
    }     else if chars_eq_str(name, "CSINV") {
        Opcode::CSINV
    }     else if chars_eq_str(name, "CSNEG") {
        Opcode::CSNEG
    }     else if chars_eq_str(name, "EON") {
        Opcode::EON
    }     else if chars_eq_str(name, "EOR") {
        Opcode::EOR
    }     else if chars_eq_str(name, "EXTR") {
        Opcode::EXTR
    }     else if chars_eq_str(name, "HINT") {
        Opcode::HINT
    }     else if chars_eq_str(name, "HVC") {
        Opcode::HVC
    }     else if chars_eq_str(name, "LDP") {
        Opcode::LDP
    }     else if chars_eq_str(name, "LDXP") {
        Opcode::LDXP
    }     else if chars_eq_str(name, "LDPSW") {
        Opcode::LDPSW
    }     else if chars_eq_str(name, "LDR") {
        Opcode::LDR
    }     else if chars_eq_str(name, "LDUR") {
        Opcode::LDUR
    }     else if chars_eq_str(name, "LDAR") {
        Opcode::LDAR
    }     else if chars_eq_str(name, "LDXR") {
        Opcode::LDXR
    }     else if chars_eq_str(name, "LDAXR") {
        Opcode::LDAXR
    }     else if chars_eq_str(name, "LDTR") {
        Opcode::LDTR
    }     else if chars_eq_str(name, "LDRB") {
        Opcode::LDRB
    }     else if chars_eq_str(name, "LDURB") {
        Opcode::LDURB
    }     else if chars_eq_str(name, "LDARB") {
        Opcode::LDARB
    }     else if chars_eq_str(name, "LDXRB") {
        Opcode::LDXRB
    }     else if chars_eq_str(name, "LDAXRB") {
        Opcode::LDAXRB
    }     else if chars_eq_str(name, "LDTRB") {
        Opcode::LDTRB
    }     else if chars_eq_str(name, "LDRH") {
        Opcode::LDRH
    }     else if chars_eq_str(name, "LDURH") {
        Opcode::LDURH
    }     else if chars_eq_str(name, "LDARH") {
        Opcode::LDARH
    }     else if chars_eq_str(name, "LDXRH") {
        Opcode::LDXRH
    }     else if chars_eq_str(name, "LDAXRH") {
        Opcode::LDAXRH
    }     else if chars_eq_str(name, "LDTRH") {
        Opcode::LDTRH
    }     else if chars_eq_str(name, "LDRSB") {
        Opcode::LDRSB
    }     else if chars_eq_str(name, "LDTRSB") {
        Opcode::LDTRSB
    }     else if chars_eq_str(name, "LDURSB") {
        Opcode::LDURSB
    }     else if chars_eq_str(name, "LDRSH") {
        Opcode::LDRSH
    }     else if chars_eq_str(name, "LDTRSH") {
        Opcode::LDTRSH
    }     else if chars_eq_str(name, "LDURSH") {
        Opcode::LDURSH
    }     else if chars_eq_str(name, "LDRSW") {
        Opcode::LDRSW
    }     else if chars_eq_str(name, "LDTRSW") {
        Opcode::LDTRSW
    }     else if chars_eq_str(name, "LDURSW") {
        Opcode::LDURSW
    }     else if chars_eq_str(name, "LSLV") {
        Opcode::LSLV
    }     else if chars_eq_str(name, "LSRV") {
        Opcode::LSRV
    }     else if chars_eq_str(name, "MADD") {
        Opcode::MADD
    }     else if chars_eq_str(name, "MOVK") {
        Opcode::MOVK
    }     else if chars_eq_str(name, "MOVN") {
        Opcode::MOVN
    }     else if chars_eq_str(name, "MOVZ") {
        Opcode::MOVZ
    }     else if chars_eq_str(name, "MSUB") {
        Opcode::MSUB
    }     else if chars_eq_str(name, "NEG") {
        Opcode::NEG
    }     else if chars_eq_str(name, "ORN") {
        Opcode::ORN
    }     else if chars_eq_str(name, "ORR") {
        Opcode::ORR
    }     else if chars_eq_str(name, "PRFM") {
        Opcode::PRFM
    }     else if chars_eq_str(name, "PRFUM") {
        Opcode::PRFUM
    }     else if chars_eq_str(name, "RBIT") {
        Opcode::RBIT
    }     else if chars_eq_str(name, "RET") {
        Opcode::RET
    }     else if chars_eq_str(name, "RETAB") {
        Opcode::RETAB
    }     else if chars_eq_str(name, "RETAA") {
        Opcode::RETAA
    }     else if chars_eq_str(name, "REV") {
        Opcode::REV
    }     else if chars_eq_str(name, "REV64") {
        Opcode::REV64
    }     else if chars_eq_str(name, "REV16") {
        Opcode::REV16
    }     else if chars_eq_str(name, "REV32") {
        Opcode::REV32
    }     else if chars_eq_str(name, "RORV") {
        Opcode::RORV
    }     else if chars_eq_str(name, "SBC") {
        Opcode::SBC
    }     else if chars_eq_str(name, "SBCS") {
        Opcode::SBCS
    }     else if chars_eq_str(name, "SBFM") {
        Opcode::SBFM
    }     else if chars_eq_str(name, "SDIV") {
        Opcode::SDIV
    }     else if chars_eq_str(name, "SMADDL") {
        Opcode::SMADDL
    }     else if chars_eq_str(name, "SMC") {
        Opcode::SMC
    }     else if chars_eq_str(name, "SMSUBL") {
        Opcode::SMSUBL
    }     else if chars_eq_str(name, "SMULH") {
        Opcode::SMULH
    }     else if chars_eq_str(name, "STP") {
        Opcode::STP
    }     else if chars_eq_str(name, "STNP") {
        Opcode::STNP
    }     else if chars_eq_str(name, "STXP") {
        Opcode::STXP
    }     else if chars_eq_str(name, "STLXP") {
        Opcode::STLXP
    }     else if chars_eq_str(name, "STR") {
        Opcode::STR
    }     else if chars_eq_str(name, "STLR") {
        Opcode::STLR
    }     else if chars_eq_str(name, "STUR") {
        Opcode::STUR
    }     else if chars_eq_str(name, "STLUR") {
        Opcode::STLUR
    }     else if chars_eq_str(name, "STTR") {
        Opcode::STTR
    }     else if chars_eq_str(name, "STLXR") {
        Opcode::STLXR
    }     else if chars_eq_str(name, "STXR") {
        Opcode::STXR
    }     else if chars_eq_str(name, "STRB") {
        Opcode::STRB
    }     else if chars_eq_str(name, "STLRB") {
        Opcode::STLRB
    }     else if chars_eq_str(name, "STURB") {
        Opcode::STURB
    }     else if chars_eq_str(name, "STLURB") {
        Opcode::STLURB
    }     else if chars_eq_str(name, "STTRB") {
        Opcode::STTRB
    }     else if chars_eq_str(name, "STLXRB") {
        Opcode::STLXRB
    }     else if chars_eq_str(name, "STXRB") {
        Opcode::STXRB
    }     else if chars_eq_str(name, "STRH") {
        Opcode::STRH
    }     else if chars_eq_str(name, "STLRH") {
        Opcode::STLRH
    }     else if chars_eq_str(name, "STURH") {
        Opcode::STURH
    }     else if chars_eq_str(name, "STLURH") {
        Opcode::STLURH
    }     else if chars_eq_str(name, "STTRH") {
        Opcode::STTRH
    }     else if chars_eq_str(name, "STLXRH") {
        Opcode::STLXRH
    }     else if chars_eq_str(name, "STXRH") {
        Opcode::STXRH
    }     else if chars_eq_str(name, "SUB") {
        Opcode::SUB
    }     else if chars_eq_str(name, "SUBS") {
        Opcode::SUBS
    }     else if chars_eq_str(name, "SVC") {
        Opcode::SVC
    }     else if chars_eq_str(name, "SYS") {
        Opcode::SYS
    }     else if chars_eq_str(name, "SYSL") {
        Opcode::SYSL
    }     else if chars_eq_str(name, "TBNZ") {
        Opcode::TBNZ
    }     else if chars_eq_str(name, "TBZ") {
        Opcode::TBZ
    }     else if chars_eq_str(name, "UBFM") {
        Opcode::UBFM
    }     else if chars_eq_str(name, "UDF") {
        Opcode::UDF
    }     else if chars_eq_str(name, "UDIV") {
        Opcode::UDIV
    }     else if chars_eq_str(name, "UMADDL") {
        Opcode::UMADDL
    }     else if chars_eq_str(name, "UMSUBL") {
        Opcode::UMSUBL
    }     else if chars_eq_str(name, "UMULH") {
        Opcode::UMULH
    } else {
        Opcode::Other
    }
}

/// A decimal digit.
pub open spec fn is_digit(c: char) -> bool {
    '0' <= c <= '9'
}

/// Value of a string of decimal digits.
pub open spec fn digits_value(ds: Seq<char>) -> nat
    decreases ds.len(),
{
    if ds.len() == 0 {
        0
    } else {
        digits_value(ds.drop_last()) * 10 + (ds.last() as nat - '0' as nat) as nat
    }
}

/// A decimal numeral as Rust prints one: digits only, no leading zero.
pub open spec fn is_numeral(ds: Seq<char>) -> bool {
    &&& ds.len() > 0
    &&& forall|k: int| 0 <= k < ds.len() ==> is_digit(#[trigger] ds[k])
    &&& (ds[0] != '0' || ds.len() == 1)
}

/// A possibly negative decimal numeral as Rust prints one.
pub open spec fn is_signed_numeral(ds: Seq<char>) -> bool {
    ||| is_numeral(ds)
    ||| (ds.len() > 1 && ds[0] == '-' && is_numeral(ds.drop_first()) && digits_value(
        ds.drop_first(),
    ) > 0)
}

/// Value of a possibly negative numeral.
pub open spec fn signed_value(ds: Seq<char>) -> int {
    if ds.len() > 0 && ds[0] == '-' {
        -(digits_value(ds.drop_first()) as int)
    } else {
        digits_value(ds) as int
    }
}

proof fn lemma_saturated_step(a: nat, d: nat, cap: nat)
    requires
        d < 10,
        cap > 0,
    ensures
        min_nat(min_nat(a, cap) * 10 + d, cap) == min_nat(a * 10 + d, cap),
{
    if a >= cap {
        assert(a * 10 + d >= cap) by (nonlinear_arith)
            requires
                a >= cap,
        ;
        assert(cap * 10 + d >= cap) by (nonlinear_arith)
            requires
                cap > 0,
        ;
    }
}

spec fn min_nat(a: nat, b: nat) -> nat {
    if a <= b {
        a
    } else {
        b
    }
}

/// Reads the unsigned decimal numeral that makes up `tok` from index `start` on, if its value
/// is at most `max`.
pub fn parse_unsigned_from(tok: &[char], start: usize, max: u64) -> (r: Option<u64>)
    requires
        start <= tok@.len(),
    ensures
        r == (if is_numeral(tok@.skip(start as int)) && digits_value(tok@.skip(start as int))
            <= max {
            Some(digits_value(tok@.skip(start as int)) as u64)
        } else {
            None::<u64>
        }),
{
    let ghost t = tok@.skip(start as int);
    let n = tok.len();
    if n == start {
        return None;
    }
    if tok[start] == '0' && n != start + 1 {
        assert(t[0] == '0' && t.len() != 1);
        return None;
    }
    let cap: u128 = 0x1_0000_0000_0000_0000;
    let mut v: u128 = 0;
    let mut i: usize = start;
    while i < n
        invariant
            n == tok@.len(),
            start <= i <= n,
            t == tok@.skip(start as int),
            cap == 0x1_0000_0000_0000_0000,
            v <= cap,
            forall|k: int| 0 <= k < i - start ==> is_digit(#[trigger] t[k]),
            v == min_nat(digits_value(t.take(i - start)), cap as nat),
        decreases n - i,
    {
        let c = tok[i];
        if !('0' <= c && c <= '9') {
            assert(!is_digit(t[i - start]));
            return None;
        }
        let d: u128 = ((c as u32) - ('0' as u32)) as u128;
        proof {
            assert(t.take(i - start + 1).drop_last() =~= t.take(i - start));
            assert(t.take(i - start + 1).last() == c);
            lemma_saturated_step(digits_value(t.take(i - start)), d as nat, cap as nat);
        }
        let next = v * 10 + d;
        v = if next < cap {
            next
        } else {
            cap
        };
        i = i + 1;
    }
    assert(t.take(n - start) =~= t);
    if v <= max as u128 {
        Some(v as u64)
    } else {
        None
    }
}

/// Reads an unsigned decimal numeral whose value is at most `max`.
pub fn parse_unsigned(tok: &[char], max: u64) -> (r: Option<u64>)
    ensures
        r == (if is_numeral(tok@) && digits_value(tok@) <= max {
            Some(digits_value(tok@) as u64)
        } else {
            None::<u64>
        }),
{
    assert(tok@.skip(0) =~= tok@);
    parse_unsigned_from(tok, 0, max)
}

/// Reads a possibly negative decimal numeral with a value between `-max_neg` and `max_pos`.
pub fn parse_signed(tok: &[char], max_neg: u64, max_pos: u64) -> (r: Option<i128>)
    ensures
        r == (if is_signed_numeral(tok@) && -(max_neg as int) <= signed_value(tok@) <= max_pos {
            Some(signed_value(tok@) as i128)
        } else {
            None::<i128>
        }),
{
    if tok.len() > 1 && tok[0] == '-' {
        let mag = parse_unsigned_from(tok, 1, max_neg);
        proof {
            assert(tok@.skip(1) =~= tok@.drop_first());
            assert(!is_digit(tok@[0]));
        }
        match mag {
            Some(m) => {
                if m == 0 {
                    None
                } else {
                    Some(0i128 - m as i128)
                }
            },
            None => None,
        }
    } else {
        proof {
            if tok@.len() > 1 {
                assert(tok@[0] != '-');
            }
        }
        match parse_unsigned(tok, max_pos) {
            Some(m) => Some(m as i128),
            None => None,
        }
    }
}

/// Name under which the decoder reports a register size.
pub open spec fn size_code_name(s: SizeCode) -> Seq<char> {
    match s {
        SizeCode::X => "X"@,
        SizeCode::W => "W"@,
    }
}

/// Name under which the decoder reports a SIMD size.
pub open spec fn simd_size_name(s: SIMDSizeCode) -> Seq<char> {
    match s {
        SIMDSizeCode::B => "B"@,
        SIMDSizeCode::H => "H"@,
        SIMDSizeCode::S => "S"@,
        SIMDSizeCode::D => "D"@,
        SIMDSizeCode::Q => "Q"@,
    }
}

/// Name under which the decoder reports a shift style.
pub open spec fn shift_style_name(s: ShiftStyle) -> Seq<char> {
    match s {
        ShiftStyle::LSL => "LSL"@,
        ShiftStyle::LSR => "LSR"@,
        ShiftStyle::ASR => "ASR"@,
        ShiftStyle::ROR => "ROR"@,
        ShiftStyle::UXTB => "UXTB"@,
        ShiftStyle::UXTH => "UXTH"@,
        ShiftStyle::UXTW => "UXTW"@,
        ShiftStyle::UXTX => "UXTX"@,
        ShiftStyle::SXTB => "SXTB"@,
        ShiftStyle::SXTH => "SXTH"@,
        ShiftStyle::SXTW => "SXTW"@,
        ShiftStyle::SXTX => "SXTX"@,
    }
}

/// Rust's rendering of a boolean.
pub open spec fn bool_text(b: bool) -> Seq<char> {
    if b {
        "true"@
    } else {
        "false"@
    }
}

/// Rust's rendering of an integer.
pub open spec fn signed_decimal(v: int) -> Seq<char> {
    if v < 0 {
        seq!['-'] + decimal((-v) as nat)
    } else {
        decimal(v as nat)
    }
}

/// Argument tokens joined by commas.
pub open spec fn render_args(args: Seq<Seq<char>>) -> Seq<char>
    decreases args.len(),
{
    if args.len() == 0 {
        Seq::empty()
    } else if args.len() == 1 {
        args[0]
    } else {
        render_args(args.drop_last()) + ", "@ + args.last()
    }
}

/// A unit variant (no arguments) or a tuple variant as `Debug` renders it.
pub open spec fn render_item(name: Seq<char>, args: Seq<Seq<char>>) -> Seq<char> {
    if args.len() == 0 {
        name
    } else {
        name + seq!['('] + render_args(args) + seq![')']
    }
}

/// The character sequences held by a vector of character vectors.
pub open spec fn args_view(args: Seq<Vec<char>>) -> Seq<Seq<char>> {
    args.map_values(|a: Vec<char>| a@)
}

proof fn lemma_digit_char(c: char)
    requires
        is_digit(c),
    ensures
        digit_char((c as nat - '0' as nat) as nat) == c,
{
}

proof fn lemma_numeral_value_positive(ds: Seq<char>)
    requires
        ds.len() > 0,
        forall|k: int| 0 <= k < ds.len() ==> is_digit(#[trigger] ds[k]),
        ds[0] != '0',
    ensures
        digits_value(ds) >= 1,
    decreases ds.len(),
{
    if ds.len() > 1 {
        let p = ds.drop_last();
        assert forall|k: int| 0 <= k < p.len() implies is_digit(#[trigger] p[k]) by {
            assert(p[k] == ds[k]);
        }
        lemma_numeral_value_positive(p);
    }
}

proof fn lemma_div_mod_ten(a: nat, d: nat)
    requires
        d < 10,
    ensures
        (a * 10 + d) / 10 == a,
        (a * 10 + d) % 10 == d,
{
    assert((a * 10 + d) / 10 == a) by (nonlinear_arith)
        requires
            d < 10,
    ;
    assert((a * 10 + d) % 10 == d) by (nonlinear_arith)
        requires
            d < 10,
    ;
}

/// A numeral is the decimal notation of its value.
pub proof fn lemma_numeral_decimal(ds: Seq<char>)
    requires
        is_numeral(ds),
    ensures
        decimal(digits_value(ds)) == ds,
    decreases ds.len(),
{
    let c = ds.last();
    assert(is_digit(ds[ds.len() - 1]));
    lemma_digit_char(c);
    let d = (c as nat - '0' as nat) as nat;
    if ds.len() == 1 {
        assert(ds.drop_last() =~= Seq::<char>::empty());
        assert(digits_value(ds.drop_last()) == 0);
        assert(digits_value(ds) == d);
        assert(d < 10);
        assert(decimal(d) == seq![digit_char(d)]);
        assert(decimal(digits_value(ds)) =~= ds);
    } else {
        let p = ds.drop_last();
        assert forall|k: int| 0 <= k < p.len() implies is_digit(#[trigger] p[k]) by {
            assert(p[k] == ds[k]);
        }
        assert(p[0] == ds[0]);
        lemma_numeral_value_positive(p);
        lemma_numeral_decimal(p);
        let v = digits_value(ds);
        assert(v == digits_value(p) * 10 + d);
        lemma_div_mod_ten(digits_value(p), d);
        assert(v >= 10);
        assert(decimal(v) == decimal(v / 10).push(digit_char(v % 10)));
        assert(decimal(v) =~= ds);
    }
}

/// A possibly negative numeral is Rust's rendering of its value.
pub proof fn lemma_signed_numeral_decimal(ds: Seq<char>)
    requires
        is_signed_numeral(ds),
    ensures
        signed_decimal(signed_value(ds)) == ds,
{
    if is_numeral(ds) {
        assert(is_digit(ds[0]));
        lemma_numeral_decimal(ds);
    } else {
        lemma_numeral_decimal(ds.drop_first());
        assert(seq!['-'] + ds.drop_first() =~= ds);
    }
}

/// The register size named `tok`.
fn size_code_from(tok: &[char]) -> (r: Option<SizeCode>)
    ensures
        match r {
            Some(s) => size_code_name(s) == tok@,
            None => forall|s: SizeCode| size_code_name(s) != tok@,
        },
{
    if chars_eq_str(tok, "X") {
        Some(SizeCode::X)
    } else if chars_eq_str(tok, "W") {
        Some(SizeCode::W)
    } else {
        None
    }
}

/// The SIMD size named `tok`.
fn simd_size_from(tok: &[char]) -> (r: Option<SIMDSizeCode>)
    ensures
        match r {
            Some(s) => simd_size_name(s) == tok@,
            None => forall|s: SIMDSizeCode| simd_size_name(s) != tok@,
        },
{
    if chars_eq_str(tok, "B") {
        Some(SIMDSizeCode::B)
    } else if chars_eq_str(tok, "H") {
        Some(SIMDSizeCode::H)
    } else if chars_eq_str(tok, "S") {
        Some(SIMDSizeCode::S)
    } else if chars_eq_str(tok, "D") {
        Some(SIMDSizeCode::D)
    } else if chars_eq_str(tok, "Q") {
        Some(SIMDSizeCode::Q)
    } else {
        None
    }
}

/// The shift style named `tok`.
fn shift_style_from(tok: &[char]) -> (r: Option<ShiftStyle>)
    ensures
        match r {
            Some(s) => shift_style_name(s) == tok@,
            None => forall|s: ShiftStyle| shift_style_name(s) != tok@,
        },
{
    if chars_eq_str(tok, "LSL") {
        Some(ShiftStyle::LSL)
    } else if chars_eq_str(tok, "LSR") {
        Some(ShiftStyle::LSR)
    } else if chars_eq_str(tok, "ASR") {
        Some(ShiftStyle::ASR)
    } else if chars_eq_str(tok, "ROR") {
        Some(ShiftStyle::ROR)
    } else if chars_eq_str(tok, "UXTB") {
        Some(ShiftStyle::UXTB)
    } else if chars_eq_str(tok, "UXTH") {
        Some(ShiftStyle::UXTH)
    } else if chars_eq_str(tok, "UXTW") {
        Some(ShiftStyle::UXTW)
    } else if chars_eq_str(tok, "UXTX") {
        Some(ShiftStyle::UXTX)
    } else if chars_eq_str(tok, "SXTB") {
        Some(ShiftStyle::SXTB)
    } else if chars_eq_str(tok, "SXTH") {
        Some(ShiftStyle::SXTH)
    } else if chars_eq_str(tok, "SXTW") {
        Some(ShiftStyle::SXTW)
    } else if chars_eq_str(tok, "SXTX") {
        Some(ShiftStyle::SXTX)
    } else {
        None
    }
}

/// The boolean rendered as `tok`.
fn bool_from(tok: &[char]) -> (r: Option<bool>)
    ensures
        match r {
            Some(b) => bool_text(b) == tok@,
            None => forall|b: bool| bool_text(b) != tok@,
        },
{
    if chars_eq_str(tok, "true") {
        Some(true)
    } else if chars_eq_str(tok, "false") {
        Some(false)
    } else {
        None
    }
}

/// The `Debug` rendering of an operand.
pub open spec fn operand_text(o: Operand) -> Seq<char> {
    match o {
        Operand::Nothing => "Nothing"@,
        Operand::Register(a0, a1) => render_item("Register"@, seq![size_code_name(a0), decimal(a1 as nat)]),
        Operand::RegisterPair(a0, a1) => render_item("RegisterPair"@, seq![size_code_name(a0), decimal(a1 as nat)]),
        Operand::SIMDRegister(a0, a1) => render_item("SIMDRegister"@, seq![simd_size_name(a0), decimal(a1 as nat)]),
        Operand::SIMDRegisterElements(a0, a1, a2) => render_item("SIMDRegisterElements"@, seq![simd_size_name(a0), decimal(a1 as nat), simd_size_name(a2)]),
        Operand::SIMDRegisterElementsLane(a0, a1, a2, a3) => render_item("SIMDRegisterElementsLane"@, seq![simd_size_name(a0), decimal(a1 as nat), simd_size_name(a2), decimal(a3 as nat)]),
        Operand::SIMDRegisterElementsMultipleLane(a0, a1, a2, a3, a4) => render_item("SIMDRegisterElementsMultipleLane"@, seq![simd_size_name(a0), decimal(a1 as nat), simd_size_name(a2), decimal(a3 as nat), decimal(a4 as nat)]),
        Operand::SIMDRegisterGroup(a0, a1, a2, a3) => render_item("SIMDRegisterGroup"@, seq![simd_size_name(a0), decimal(a1 as nat), simd_size_name(a2), decimal(a3 as nat)]),
        Operand::SIMDRegisterGroupLane(a0, a1, a2, a3) => render_item("SIMDRegisterGroupLane"@, seq![decimal(a0 as nat), simd_size_name(a1), decimal(a2 as nat), decimal(a3 as nat)]),
        Operand::RegisterOrSP(a0, a1) => render_item("RegisterOrSP"@, seq![size_code_name(a0), decimal(a1 as nat)]),
        Operand::ConditionCode(a0) => render_item("ConditionCode"@, seq![decimal(a0 as nat)]),
        Operand::PCOffset(a0) => render_item("PCOffset"@, seq![signed_decimal(a0 as int)]),
        Operand::Immediate(a0) => render_item("Immediate"@, seq![decimal(a0 as nat)]),
        Operand::Imm64(a0) => render_item("Imm64"@, seq![decimal(a0 as nat)]),
        Operand::Imm16(a0) => render_item("Imm16"@, seq![decimal(a0 as nat)]),
        Operand::ImmShift(a0, a1) => render_item("ImmShift"@, seq![decimal(a0 as nat), decimal(a1 as nat)]),
        Operand::ImmShiftMSL(a0, a1) => render_item("ImmShiftMSL"@, seq![decimal(a0 as nat), decimal(a1 as nat)]),
        Operand::RegShift(a0, a1, a2, a3) => render_item("RegShift"@, seq![shift_style_name(a0), decimal(a1 as nat), size_code_name(a2), decimal(a3 as nat)]),
        Operand::RegRegOffset(a0, a1, a2, a3, a4) => render_item("RegRegOffset"@, seq![decimal(a0 as nat), decimal(a1 as nat), size_code_name(a2), shift_style_name(a3), decimal(a4 as nat)]),
        Operand::RegPreIndex(a0, a1, a2) => render_item("RegPreIndex"@, seq![decimal(a0 as nat), signed_decimal(a1 as int), bool_text(a2)]),
        Operand::RegPostIndex(a0, a1) => render_item("RegPostIndex"@, seq![decimal(a0 as nat), signed_decimal(a1 as int)]),
        Operand::RegPostIndexReg(a0, a1) => render_item("RegPostIndexReg"@, seq![decimal(a0 as nat), decimal(a1 as nat)]),
        Operand::PrefetchOp(a0) => render_item("PrefetchOp"@, seq![decimal(a0 as nat)]),
        Operand::SystemReg(a0) => render_item("SystemReg"@, seq![decimal(a0 as nat)]),
        Operand::ControlReg(a0) => render_item("ControlReg"@, seq![decimal(a0 as nat)]),
        Operand::PstateField(a0) => render_item("PstateField"@, seq![decimal(a0 as nat)]),
        Operand::ImmediateDouble => "ImmediateDouble"@,
        Operand::Unknown => Seq::empty(),
    }
}

/// The operand rendered as `name` with the argument tokens `args`, or `Unknown` when no operand
/// renders that way.
fn operand_from(name: &[char], args: &Vec<Vec<char>>, Ghost(t): Ghost<Operand>) -> (r: Operand)
    ensures
        !(r is Unknown) && !(r is ImmediateDouble) ==> operand_text(r) == render_item(
            name@,
            args_view(args@),
        ),
        known_operand(t) && name@ == operand_name(t) && args_view(args@) == operand_args(t)
            ==> known_operand(r),
{
    proof {
        if known_operand(t) {
            lemma_operand_names(t);
        }
    }
    let n = args.len();
    if n == 0 {
        if chars_eq_str(name, "Nothing") {
            return Operand::Nothing;
        }
        return Operand::Unknown;
    }
    if chars_eq_str(name, "ImmediateDouble") {
        return Operand::ImmediateDouble;
    }
    let found = if n == 2 && chars_eq_str(name, "Register") {
        operand_register(args, Ghost(t))
    } else if n == 2 && chars_eq_str(name, "RegisterPair") {
        operand_registerpair(args, Ghost(t))
    } else if n == 2 && chars_eq_str(name, "SIMDRegister") {
        operand_simdregister(args, Ghost(t))
    } else if n == 3 && chars_eq_str(name, "SIMDRegisterElements") {
        operand_simdregisterelements(args, Ghost(t))
    } else if n == 4 && chars_eq_str(name, "SIMDRegisterElementsLane") {
        operand_simdregisterelementslane(args, Ghost(t))
    } else if n == 5 && chars_eq_str(name, "SIMDRegisterElementsMultipleLane") {
        operand_simdregisterelementsmultiplelane(args, Ghost(t))
    } else if n == 4 && chars_eq_str(name, "SIMDRegisterGroup") {
        operand_simdregistergroup(args, Ghost(t))
    } else if n == 4 && chars_eq_str(name, "SIMDRegisterGroupLane") {
        operand_simdregistergrouplane(args, Ghost(t))
    } else if n == 2 && chars_eq_str(name, "RegisterOrSP") {
        operand_registerorsp(args, Ghost(t))
    } else if n == 1 && chars_eq_str(name, "ConditionCode") {
        operand_conditioncode(args, Ghost(t))
    } else if n == 1 && chars_eq_str(name, "PCOffset") {
        operand_pcoffset(args, Ghost(t))
    } else if n == 1 && chars_eq_str(name, "Immediate") {
        operand_immediate(args, Ghost(t))
    } else if n == 1 && chars_eq_str(name, "Imm64") {
        operand_imm64(args, Ghost(t))
    } else if n == 1 && chars_eq_str(name, "Imm16") {
        operand_imm16(args, Ghost(t))
    } else if n == 2 && chars_eq_str(name, "ImmShift") {
        operand_immshift(args, Ghost(t))
    } else if n == 2 && chars_eq_str(name, "ImmShiftMSL") {
        operand_immshiftmsl(args, Ghost(t))
    } else if n == 4 && chars_eq_str(name, "RegShift") {
        operand_regshift(args, Ghost(t))
    } else if n == 5 && chars_eq_str(name, "RegRegOffset") {
        operand_regregoffset(args, Ghost(t))
    } else if n == 3 && chars_eq_str(name, "RegPreIndex") {
        operand_regpreindex(args, Ghost(t))
    } else if n == 2 && chars_eq_str(name, "RegPostIndex") {
        operand_regpostindex(args, Ghost(t))
    } else if n == 2 && chars_eq_str(name, "RegPostIndexReg") {
        operand_regpostindexreg(args, Ghost(t))
    } else if n == 1 && chars_eq_str(name, "PrefetchOp") {
        operand_prefetchop(args, Ghost(t))
    } else if n == 1 && chars_eq_str(name, "SystemReg") {
        operand_systemreg(args, Ghost(t))
    } else if n == 1 && chars_eq_str(name, "ControlReg") {
        operand_controlreg(args, Ghost(t))
    } else if n == 1 && chars_eq_str(name, "PstateField") {
        operand_pstatefield(args, Ghost(t))
    } else {
        None
    };
    match found {
        Some(o) => o,
        None => Operand::Unknown,
    }
}

fn operand_register(args: &Vec<Vec<char>>, Ghost(t): Ghost<Operand>) -> (r: Option<Operand>)
    requires
        args@.len() == 2,
    ensures
        r matches Some(o) ==> !(o is Unknown) && !(o is ImmediateDouble) && operand_text(o)
            == render_item("Register"@, args_view(args@)),
        t is Register && args_view(args@) == operand_args(t) ==> r is Some,
{
    let p0 = size_code_from(args[0].as_slice());
    let p1 = parse_unsigned(args[1].as_slice(), 0xffff);
    if p0.is_some() && p1.is_some() {
        let a0 = p0.unwrap();
        let a1 = p1.unwrap() as u16;
        proof {
            lemma_numeral_decimal(args@[1]@);
            assert(args_view(args@) =~= seq![size_code_name(a0), decimal(a1 as nat)]);
        }
        Some(Operand::Register(a0, a1))
    } else {
        proof {
            if t is Register && args_view(args@) == operand_args(t) {
                match t {
                    Operand::Register(b0, b1) => {
                        assert(args@[0]@ == operand_args(t)[0]);
                        lemma_decimal_token(b1 as nat);
                        assert(args@[1]@ == operand_args(t)[1]);
                    },
                    _ => {},
                }
            }
        }
        None
    }
}

fn operand_registerpair(args: &Vec<Vec<char>>, Ghost(t): Ghost<Operand>) -> (r: Option<Operand>)
    requires
        args@.len() == 2,
    ensures
        r matches Some(o) ==> !(o is Unknown) && !(o is ImmediateDouble) && operand_text(o)
            == render_item("RegisterPair"@, args_view(args@)),
        t is RegisterPair && args_view(args@) == operand_args(t) ==> r is Some,
{
    let p0 = size_code_from(args[0].as_slice());
    let p1 = parse_unsigned(args[1].as_slice(), 0xffff);
    if p0.is_some() && p1.is_some() {
        let a0 = p0.unwrap();
        let a1 = p1.unwrap() as u16;
        proof {
            lemma_numeral_decimal(args@[1]@);
            assert(args_view(args@) =~= seq![size_code_name(a0), decimal(a1 as nat)]);
        }
        Some(Operand::RegisterPair(a0, a1))
    } else {
        proof {
            if t is RegisterPair && args_view(args@) == operand_args(t) {
                match t {
                    Operand::RegisterPair(b0, b1) => {
                        assert(args@[0]@ == operand_args(t)[0]);
                        lemma_decimal_token(b1 as nat);
                        assert(args@[1]@ == operand_args(t)[1]);
                    },
                    _ => {},
                }
            }
        }
        None
    }
}

fn operand_simdregister(args: &Vec<Vec<char>>, Ghost(t): Ghost<Operand>) -> (r: Option<Operand>)
    requires
        args@.len() == 2,
    ensures
        r matches Some(o) ==> !(o is Unknown) && !(o is ImmediateDouble) && operand_text(o)
            == render_item("SIMDRegister"@, args_view(args@)),
        t is SIMDRegister && args_view(args@) == operand_args(t) ==> r is Some,
{
    let p0 = simd_size_from(args[0].as_slice());
    let p1 = parse_unsigned(args[1].as_slice(), 0xffff);
    if p0.is_some() && p1.is_some() {
        let a0 = p0.unwrap();
        let a1 = p1.unwrap() as u16;
        proof {
            lemma_numeral_decimal(args@[1]@);
            assert(args_view(args@) =~= seq![simd_size_name(a0), decimal(a1 as nat)]);
        }
        Some(Operand::SIMDRegister(a0, a1))
    } else {
        proof {
            if t is SIMDRegister && args_view(args@) == operand_args(t) {
                match t {
                    Operand::SIMDRegister(b0, b1) => {
                        assert(args@[0]@ == operand_args(t)[0]);
                        lemma_decimal_token(b1 as nat);
                        assert(args@[1]@ == operand_args(t)[1]);
                    },
                    _ => {},
                }
            }
        }
        None
    }
}

fn operand_simdregisterelements(args: &Vec<Vec<char>>, Ghost(t): Ghost<Operand>) -> (r: Option<Operand>)
    requires
        args@.len() == 3,
    ensures
        r matches Some(o) ==> !(o is Unknown) && !(o is ImmediateDouble) && operand_text(o)
            == render_item("SIMDRegisterElements"@, args_view(args@)),
        t is SIMDRegisterElements && args_view(args@) == operand_args(t) ==> r is Some,
{
    let p0 = simd_size_from(args[0].as_slice());
    let p1 = parse_unsigned(args[1].as_slice(), 0xffff);
    let p2 = simd_size_from(args[2].as_slice());
    if p0.is_some() && p1.is_some() && p2.is_some() {
        let a0 = p0.unwrap();
        let a1 = p1.unwrap() as u16;
        let a2 = p2.unwrap();
        proof {
            lemma_numeral_decimal(args@[1]@);
            assert(args_view(args@) =~= seq![simd_size_name(a0), decimal(a1 as nat), simd_size_name(a2)]);
        }
        Some(Operand::SIMDRegisterElements(a0, a1, a2))
    } else {
        proof {
            if t is SIMDRegisterElements && args_view(args@) == operand_args(t) {
                match t {
                    Operand::SIMDRegisterElements(b0, b1, b2) => {
                        assert(args@[0]@ == operand_args(t)[0]);
                        lemma_decimal_token(b1 as nat);
                        assert(args@[1]@ == operand_args(t)[1]);
                        assert(args@[2]@ == operand_args(t)[2]);
                    },
                    _ => {},
                }
            }
        }
        None
    }
}

fn operand_simdregisterelementslane(args: &Vec<Vec<char>>, Ghost(t): Ghost<Operand>) -> (r: Option<Operand>)
    requires
        args@.len() == 4,
    ensures
        r matches Some(o) ==> !(o is Unknown) && !(o is ImmediateDouble) && operand_text(o)
            == render_item("SIMDRegisterElementsLane"@, args_view(args@)),
        t is SIMDRegisterElementsLane && args_view(args@) == operand_args(t) ==> r is Some,
{
    let p0 = simd_size_from(args[0].as_slice());
    let p1 = parse_unsigned(args[1].as_slice(), 0xffff);
    let p2 = simd_size_from(args[2].as_slice());
    let p3 = parse_unsigned(args[3].as_slice(), 0xff);
    if p0.is_some() && p1.is_some() && p2.is_some() && p3.is_some() {
        let a0 = p0.unwrap();
        let a1 = p1.unwrap() as u16;
        let a2 = p2.unwrap();
        let a3 = p3.unwrap() as u8;
        proof {
            lemma_numeral_decimal(args@[1]@);
            lemma_numeral_decimal(args@[3]@);
            assert(args_view(args@) =~= seq![simd_size_name(a0), decimal(a1 as nat), simd_size_name(a2), decimal(a3 as nat)]);
        }
        Some(Operand::SIMDRegisterElementsLane(a0, a1, a2, a3))
    } else {
        proof {
            if t is SIMDRegisterElementsLane && args_view(args@) == operand_args(t) {
                match t {
                    Operand::SIMDRegisterElementsLane(b0, b1, b2, b3) => {
                        assert(args@[0]@ == operand_args(t)[0]);
                        lemma_decimal_token(b1 as nat);
                        assert(args@[1]@ == operand_args(t)[1]);
                        assert(args@[2]@ == operand_args(t)[2]);
                        lemma_decimal_token(b3 as nat);
                        assert(args@[3]@ == operand_args(t)[3]);
                    },
                    _ => {},
                }
            }
        }
        None
    }
}

fn operand_simdregisterelementsmultiplelane(args: &Vec<Vec<char>>, Ghost(t): Ghost<Operand>) -> (r: Option<Operand>)
    requires
        args@.len() == 5,
    ensures
        r matches Some(o) ==> !(o is Unknown) && !(o is ImmediateDouble) && operand_text(o)
            == render_item("SIMDRegisterElementsMultipleLane"@, args_view(args@)),
        t is SIMDRegisterElementsMultipleLane && args_view(args@) == operand_args(t) ==> r is Some,
{
    let p0 = simd_size_from(args[0].as_slice());
    let p1 = parse_unsigned(args[1].as_slice(), 0xffff);
    let p2 = simd_size_from(args[2].as_slice());
    let p3 = parse_unsigned(args[3].as_slice(), 0xff);
    let p4 = parse_unsigned(args[4].as_slice(), 0xff);
    if p0.is_some() && p1.is_some() && p2.is_some() && p3.is_some() && p4.is_some() {
        let a0 = p0.unwrap();
        let a1 = p1.unwrap() as u16;
        let a2 = p2.unwrap();
        let a3 = p3.unwrap() as u8;
        let a4 = p4.unwrap() as u8;
        proof {
            lemma_numeral_decimal(args@[1]@);
            lemma_numeral_decimal(args@[3]@);
            lemma_numeral_decimal(args@[4]@);
            assert(args_view(args@) =~= seq![simd_size_name(a0), decimal(a1 as nat), simd_size_name(a2), decimal(a3 as nat), decimal(a4 as nat)]);
        }
        Some(Operand::SIMDRegisterElementsMultipleLane(a0, a1, a2, a3, a4))
    } else {
        proof {
            if t is SIMDRegisterElementsMultipleLane && args_view(args@) == operand_args(t) {
                match t {
                    Operand::SIMDRegisterElementsMultipleLane(b0, b1, b2, b3, b4) => {
                        assert(args@[0]@ == operand_args(t)[0]);
                        lemma_decimal_token(b1 as nat);
                        assert(args@[1]@ == operand_args(t)[1]);
                        assert(args@[2]@ == operand_args(t)[2]);
                        lemma_decimal_token(b3 as nat);
                        assert(args@[3]@ == operand_args(t)[3]);
                        lemma_decimal_token(b4 as nat);
                        assert(args@[4]@ == operand_args(t)[4]);
                    },
                    _ => {},
                }
            }
        }
        None
    }
}

fn operand_simdregistergroup(args: &Vec<Vec<char>>, Ghost(t): Ghost<Operand>) -> (r: Option<Operand>)
    requires
        args@.len() == 4,
    ensures
        r matches Some(o) ==> !(o is Unknown) && !(o is ImmediateDouble) && operand_text(o)
            == render_item("SIMDRegisterGroup"@, args_view(args@)),
        t is SIMDRegisterGroup && args_view(args@) == operand_args(t) ==> r is Some,
{
    let p0 = simd_size_from(args[0].as_slice());
    let p1 = parse_unsigned(args[1].as_slice(), 0xffff);
    let p2 = simd_size_from(args[2].as_slice());
    let p3 = parse_unsigned(args[3].as_slice(), 0xff);
    if p0.is_some() && p1.is_some() && p2.is_some() && p3.is_some() {
        let a0 = p0.unwrap();
        let a1 = p1.unwrap() as u16;
        let a2 = p2.unwrap();
        let a3 = p3.unwrap() as u8;
        proof {
            lemma_numeral_decimal(args@[1]@);
            lemma_numeral_decimal(args@[3]@);
            assert(args_view(args@) =~= seq![simd_size_name(a0), decimal(a1 as nat), simd_size_name(a2), decimal(a3 as nat)]);
        }
        Some(Operand::SIMDRegisterGroup(a0, a1, a2, a3))
    } else {
        proof {
            if t is SIMDRegisterGroup && args_view(args@) == operand_args(t) {
                match t {
                    Operand::SIMDRegisterGroup(b0, b1, b2, b3) => {
                        assert(args@[0]@ == operand_args(t)[0]);
                        lemma_decimal_token(b1 as nat);
                        assert(args@[1]@ == operand_args(t)[1]);
                        assert(args@[2]@ == operand_args(t)[2]);
                        lemma_decimal_token(b3 as nat);
                        assert(args@[3]@ == operand_args(t)[3]);
                    },
                    _ => {},
                }
            }
        }
        None
    }
}

fn operand_simdregistergrouplane(args: &Vec<Vec<char>>, Ghost(t): Ghost<Operand>) -> (r: Option<Operand>)
    requires
        args@.len() == 4,
    ensures
        r matches Some(o) ==> !(o is Unknown) && !(o is ImmediateDouble) && operand_text(o)
            == render_item("SIMDRegisterGroupLane"@, args_view(args@)),
        t is SIMDRegisterGroupLane && args_view(args@) == operand_args(t) ==> r is Some,
{
    let p0 = parse_unsigned(args[0].as_slice(), 0xffff);
    let p1 = simd_size_from(args[1].as_slice());
    let p2 = parse_unsigned(args[2].as_slice(), 0xff);
    let p3 = parse_unsigned(args[3].as_slice(), 0xff);
    if p0.is_some() && p1.is_some() && p2.is_some() && p3.is_some() {
        let a0 = p0.unwrap() as u16;
        let a1 = p1.unwrap();
        let a2 = p2.unwrap() as u8;
        let a3 = p3.unwrap() as u8;
        proof {
            lemma_numeral_decimal(args@[0]@);
            lemma_numeral_decimal(args@[2]@);
            lemma_numeral_decimal(args@[3]@);
            assert(args_view(args@) =~= seq![decimal(a0 as nat), simd_size_name(a1), decimal(a2 as nat), decimal(a3 as nat)]);
        }
        Some(Operand::SIMDRegisterGroupLane(a0, a1, a2, a3))
    } else {
        proof {
            if t is SIMDRegisterGroupLane && args_view(args@) == operand_args(t) {
                match t {
                    Operand::SIMDRegisterGroupLane(b0, b1, b2, b3) => {
                        lemma_decimal_token(b0 as nat);
                        assert(args@[0]@ == operand_args(t)[0]);
                        assert(args@[1]@ == operand_args(t)[1]);
                        lemma_decimal_token(b2 as nat);
                        assert(args@[2]@ == operand_args(t)[2]);
                        lemma_decimal_token(b3 as nat);
                        assert(args@[3]@ == operand_args(t)[3]);
                    },
                    _ => {},
                }
            }
        }
        None
    }
}

fn operand_registerorsp(args: &Vec<Vec<char>>, Ghost(t): Ghost<Operand>) -> (r: Option<Operand>)
    requires
        args@.len() == 2,
    ensures
        r matches Some(o) ==> !(o is Unknown) && !(o is ImmediateDouble) && operand_text(o)
            == render_item("RegisterOrSP"@, args_view(args@)),
        t is RegisterOrSP && args_view(args@) == operand_args(t) ==> r is Some,
{
    let p0 = size_code_from(args[0].as_slice());
    let p1 = parse_unsigned(args[1].as_slice(), 0xffff);
    if p0.is_some() && p1.is_some() {
        let a0 = p0.unwrap();
        let a1 = p1.unwrap() as u16;
        proof {
            lemma_numeral_decimal(args@[1]@);
            assert(args_view(args@) =~= seq![size_code_name(a0), decimal(a1 as nat)]);
        }
        Some(Operand::RegisterOrSP(a0, a1))
    } else {
        proof {
            if t is RegisterOrSP && args_view(args@) == operand_args(t) {
                match t {
                    Operand::RegisterOrSP(b0, b1) => {
                        assert(args@[0]@ == operand_args(t)[0]);
                        lemma_decimal_token(b1 as nat);
                        assert(args@[1]@ == operand_args(t)[1]);
                    },
                    _ => {},
                }
            }
        }
        None
    }
}

fn operand_conditioncode(args: &Vec<Vec<char>>, Ghost(t): Ghost<Operand>) -> (r: Option<Operand>)
    requires
        args@.len() == 1,
    ensures
        r matches Some(o) ==> !(o is Unknown) && !(o is ImmediateDouble) && operand_text(o)
            == render_item("ConditionCode"@, args_view(args@)),
        t is ConditionCode && args_view(args@) == operand_args(t) ==> r is Some,
{
    let p0 = parse_unsigned(args[0].as_slice(), 0xff);
    if p0.is_some() {
        let a0 = p0.unwrap() as u8;
        proof {
            lemma_numeral_decimal(args@[0]@);
            assert(args_view(args@) =~= seq![decimal(a0 as nat)]);
        }
        Some(Operand::ConditionCode(a0))
    } else {
        proof {
            if t is ConditionCode && args_view(args@) == operand_args(t) {
                match t {
                    Operand::ConditionCode(b0) => {
                        lemma_decimal_token(b0 as nat);
                        assert(args@[0]@ == operand_args(t)[0]);
                    },
                    _ => {},
                }
            }
        }
        None
    }
}

fn operand_pcoffset(args: &Vec<Vec<char>>, Ghost(t): Ghost<Operand>) -> (r: Option<Operand>)
    requires
        args@.len() == 1,
    ensures
        r matches Some(o) ==> !(o is Unknown) && !(o is ImmediateDouble) && operand_text(o)
            == render_item("PCOffset"@, args_view(args@)),
        t is PCOffset && args_view(args@) == operand_args(t) ==> r is Some,
{
    let p0 = parse_signed(args[0].as_slice(), 0x8000_0000_0000_0000, 0x7fff_ffff_ffff_ffff);
    if p0.is_some() {
        let a0 = p0.unwrap() as i64;
        proof {
            lemma_signed_numeral_decimal(args@[0]@);
            assert(args_view(args@) =~= seq![signed_decimal(a0 as int)]);
        }
        Some(Operand::PCOffset(a0))
    } else {
        proof {
            if t is PCOffset && args_view(args@) == operand_args(t) {
                match t {
                    Operand::PCOffset(b0) => {
                        lemma_signed_decimal_token(b0 as int);
                        assert(args@[0]@ == operand_args(t)[0]);
                    },
                    _ => {},
                }
            }
        }
        None
    }
}

fn operand_immediate(args: &Vec<Vec<char>>, Ghost(t): Ghost<Operand>) -> (r: Option<Operand>)
    requires
        args@.len() == 1,
    ensures
        r matches Some(o) ==> !(o is Unknown) && !(o is ImmediateDouble) && operand_text(o)
            == render_item("Immediate"@, args_view(args@)),
        t is Immediate && args_view(args@) == operand_args(t) ==> r is Some,
{
    let p0 = parse_unsigned(args[0].as_slice(), 0xffff_ffff);
    if p0.is_some() {
        let a0 = p0.unwrap() as u32;
        proof {
            lemma_numeral_decimal(args@[0]@);
            assert(args_view(args@) =~= seq![decimal(a0 as nat)]);
        }
        Some(Operand::Immediate(a0))
    } else {
        proof {
            if t is Immediate && args_view(args@) == operand_args(t) {
                match t {
                    Operand::Immediate(b0) => {
                        lemma_decimal_token(b0 as nat);
                        assert(args@[0]@ == operand_args(t)[0]);
                    },
                    _ => {},
                }
            }
        }
        None
    }
}

fn operand_imm64(args: &Vec<Vec<char>>, Ghost(t): Ghost<Operand>) -> (r: Option<Operand>)
    requires
        args@.len() == 1,
    ensures
        r matches Some(o) ==> !(o is Unknown) && !(o is ImmediateDouble) && operand_text(o)
            == render_item("Imm64"@, args_view(args@)),
        t is Imm64 && args_view(args@) == operand_args(t) ==> r is Some,
{
    let p0 = parse_unsigned(args[0].as_slice(), 0xffff_ffff_ffff_ffff);
    if p0.is_some() {
        let a0 = p0.unwrap();
        proof {
            lemma_numeral_decimal(args@[0]@);
            assert(args_view(args@) =~= seq![decimal(a0 as nat)]);
        }
        Some(Operand::Imm64(a0))
    } else {
        proof {
            if t is Imm64 && args_view(args@) == operand_args(t) {
                match t {
                    Operand::Imm64(b0) => {
                        lemma_decimal_token(b0 as nat);
                        assert(args@[0]@ == operand_args(t)[0]);
                    },
                    _ => {},
                }
            }
        }
        None
    }
}

fn operand_imm16(args: &Vec<Vec<char>>, Ghost(t): Ghost<Operand>) -> (r: Option<Operand>)
    requires
        args@.len() == 1,
    ensures
        r matches Some(o) ==> !(o is Unknown) && !(o is ImmediateDouble) && operand_text(o)
            == render_item("Imm16"@, args_view(args@)),
        t is Imm16 && args_view(args@) == operand_args(t) ==> r is Some,
{
    let p0 = parse_unsigned(args[0].as_slice(), 0xffff);
    if p0.is_some() {
        let a0 = p0.unwrap() as u16;
        proof {
            lemma_numeral_decimal(args@[0]@);
            assert(args_view(args@) =~= seq![decimal(a0 as nat)]);
        }
        Some(Operand::Imm16(a0))
    } else {
        proof {
            if t is Imm16 && args_view(args@) == operand_args(t) {
                match t {
                    Operand::Imm16(b0) => {
                        lemma_decimal_token(b0 as nat);
                        assert(args@[0]@ == operand_args(t)[0]);
                    },
                    _ => {},
                }
            }
        }
        None
    }
}

fn operand_immshift(args: &Vec<Vec<char>>, Ghost(t): Ghost<Operand>) -> (r: Option<Operand>)
    requires
        args@.len() == 2,
    ensures
        r matches Some(o) ==> !(o is Unknown) && !(o is ImmediateDouble) && operand_text(o)
            == render_item("ImmShift"@, args_view(args@)),
        t is ImmShift && args_view(args@) == operand_args(t) ==> r is Some,
{
    let p0 = parse_unsigned(args[0].as_slice(), 0xffff);
    let p1 = parse_unsigned(args[1].as_slice(), 0xff);
    if p0.is_some() && p1.is_some() {
        let a0 = p0.unwrap() as u16;
        let a1 = p1.unwrap() as u8;
        proof {
            lemma_numeral_decimal(args@[0]@);
            lemma_numeral_decimal(args@[1]@);
            assert(args_view(args@) =~= seq![decimal(a0 as nat), decimal(a1 as nat)]);
        }
        Some(Operand::ImmShift(a0, a1))
    } else {
        proof {
            if t is ImmShift && args_view(args@) == operand_args(t) {
                match t {
                    Operand::ImmShift(b0, b1) => {
                        lemma_decimal_token(b0 as nat);
                        assert(args@[0]@ == operand_args(t)[0]);
                        lemma_decimal_token(b1 as nat);
                        assert(args@[1]@ == operand_args(t)[1]);
                    },
                    _ => {},
                }
            }
        }
        None
    }
}

fn operand_immshiftmsl(args: &Vec<Vec<char>>, Ghost(t): Ghost<Operand>) -> (r: Option<Operand>)
    requires
        args@.len() == 2,
    ensures
        r matches Some(o) ==> !(o is Unknown) && !(o is ImmediateDouble) && operand_text(o)
            == render_item("ImmShiftMSL"@, args_view(args@)),
        t is ImmShiftMSL && args_view(args@) == operand_args(t) ==> r is Some,
{
    let p0 = parse_unsigned(args[0].as_slice(), 0xffff);
    let p1 = parse_unsigned(args[1].as_slice(), 0xff);
    if p0.is_some() && p1.is_some() {
        let a0 = p0.unwrap() as u16;
        let a1 = p1.unwrap() as u8;
        proof {
            lemma_numeral_decimal(args@[0]@);
            lemma_numeral_decimal(args@[1]@);
            assert(args_view(args@) =~= seq![decimal(a0 as nat), decimal(a1 as nat)]);
        }
        Some(Operand::ImmShiftMSL(a0, a1))
    } else {
        proof {
            if t is ImmShiftMSL && args_view(args@) == operand_args(t) {
                match t {
                    Operand::ImmShiftMSL(b0, b1) => {
                        lemma_decimal_token(b0 as nat);
                        assert(args@[0]@ == operand_args(t)[0]);
                        lemma_decimal_token(b1 as nat);
                        assert(args@[1]@ == operand_args(t)[1]);
                    },
                    _ => {},
                }
            }
        }
        None
    }
}

fn operand_regshift(args: &Vec<Vec<char>>, Ghost(t): Ghost<Operand>) -> (r: Option<Operand>)
    requires
        args@.len() == 4,
    ensures
        r matches Some(o) ==> !(o is Unknown) && !(o is ImmediateDouble) && operand_text(o)
            == render_item("RegShift"@, args_view(args@)),
        t is RegShift && args_view(args@) == operand_args(t) ==> r is Some,
{
    let p0 = shift_style_from(args[0].as_slice());
    let p1 = parse_unsigned(args[1].as_slice(), 0xff);
    let p2 = size_code_from(args[2].as_slice());
    let p3 = parse_unsigned(args[3].as_slice(), 0xffff);
    if p0.is_some() && p1.is_some() && p2.is_some() && p3.is_some() {
        let a0 = p0.unwrap();
        let a1 = p1.unwrap() as u8;
        let a2 = p2.unwrap();
        let a3 = p3.unwrap() as u16;
        proof {
            lemma_numeral_decimal(args@[1]@);
            lemma_numeral_decimal(args@[3]@);
            assert(args_view(args@) =~= seq![shift_style_name(a0), decimal(a1 as nat), size_code_name(a2), decimal(a3 as nat)]);
        }
        Some(Operand::RegShift(a0, a1, a2, a3))
    } else {
        proof {
            if t is RegShift && args_view(args@) == operand_args(t) {
                match t {
                    Operand::RegShift(b0, b1, b2, b3) => {
                        assert(args@[0]@ == operand_args(t)[0]);
                        lemma_decimal_token(b1 as nat);
                        assert(args@[1]@ == operand_args(t)[1]);
                        assert(args@[2]@ == operand_args(t)[2]);
                        lemma_decimal_token(b3 as nat);
                        assert(args@[3]@ == operand_args(t)[3]);
                    },
                    _ => {},
                }
            }
        }
        None
    }
}

fn operand_regregoffset(args: &Vec<Vec<char>>, Ghost(t): Ghost<Operand>) -> (r: Option<Operand>)
    requires
        args@.len() == 5,
    ensures
        r matches Some(o) ==> !(o is Unknown) && !(o is ImmediateDouble) && operand_text(o)
            == render_item("RegRegOffset"@, args_view(args@)),
        t is RegRegOffset && args_view(args@) == operand_args(t) ==> r is Some,
{
    let p0 = parse_unsigned(args[0].as_slice(), 0xffff);
    let p1 = parse_unsigned(args[1].as_slice(), 0xffff);
    let p2 = size_code_from(args[2].as_slice());
    let p3 = shift_style_from(args[3].as_slice());
    let p4 = parse_unsigned(args[4].as_slice(), 0xff);
    if p0.is_some() && p1.is_some() && p2.is_some() && p3.is_some() && p4.is_some() {
        let a0 = p0.unwrap() as u16;
        let a1 = p1.unwrap() as u16;
        let a2 = p2.unwrap();
        let a3 = p3.unwrap();
        let a4 = p4.unwrap() as u8;
        proof {
            lemma_numeral_decimal(args@[0]@);
            lemma_numeral_decimal(args@[1]@);
            lemma_numeral_decimal(args@[4]@);
            assert(args_view(args@) =~= seq![decimal(a0 as nat), decimal(a1 as nat), size_code_name(a2), shift_style_name(a3), decimal(a4 as nat)]);
        }
        Some(Operand::RegRegOffset(a0, a1, a2, a3, a4))
    } else {
        proof {
            if t is RegRegOffset && args_view(args@) == operand_args(t) {
                match t {
                    Operand::RegRegOffset(b0, b1, b2, b3, b4) => {
                        lemma_decimal_token(b0 as nat);
                        assert(args@[0]@ == operand_args(t)[0]);
                        lemma_decimal_token(b1 as nat);
                        assert(args@[1]@ == operand_args(t)[1]);
                        assert(args@[2]@ == operand_args(t)[2]);
                        assert(args@[3]@ == operand_args(t)[3]);
                        lemma_decimal_token(b4 as nat);
                        assert(args@[4]@ == operand_args(t)[4]);
                    },
                    _ => {},
                }
            }
        }
        None
    }
}

fn operand_regpreindex(args: &Vec<Vec<char>>, Ghost(t): Ghost<Operand>) -> (r: Option<Operand>)
    requires
        args@.len() == 3,
    ensures
        r matches Some(o) ==> !(o is Unknown) && !(o is ImmediateDouble) && operand_text(o)
            == render_item("RegPreIndex"@, args_view(args@)),
        t is RegPreIndex && args_view(args@) == operand_args(t) ==> r is Some,
{
    let p0 = parse_unsigned(args[0].as_slice(), 0xffff);
    let p1 = parse_signed(args[1].as_slice(), 0x8000_0000, 0x7fff_ffff);
    let p2 = bool_from(args[2].as_slice());
    if p0.is_some() && p1.is_some() && p2.is_some() {
        let a0 = p0.unwrap() as u16;
        let a1 = p1.unwrap() as i32;
        let a2 = p2.unwrap();
        proof {
            lemma_numeral_decimal(args@[0]@);
            lemma_signed_numeral_decimal(args@[1]@);
            assert(args_view(args@) =~= seq![decimal(a0 as nat), signed_decimal(a1 as int), bool_text(a2)]);
        }
        Some(Operand::RegPreIndex(a0, a1, a2))
    } else {
        proof {
            if t is RegPreIndex && args_view(args@) == operand_args(t) {
                match t {
                    Operand::RegPreIndex(b0, b1, b2) => {
                        lemma_decimal_token(b0 as nat);
                        assert(args@[0]@ == operand_args(t)[0]);
                        lemma_signed_decimal_token(b1 as int);
                        assert(args@[1]@ == operand_args(t)[1]);
                        assert(args@[2]@ == operand_args(t)[2]);
                    },
                    _ => {},
                }
            }
        }
        None
    }
}

fn operand_regpostindex(args: &Vec<Vec<char>>, Ghost(t): Ghost<Operand>) -> (r: Option<Operand>)
    requires
        args@.len() == 2,
    ensures
        r matches Some(o) ==> !(o is Unknown) && !(o is ImmediateDouble) && operand_text(o)
            == render_item("RegPostIndex"@, args_view(args@)),
        t is RegPostIndex && args_view(args@) == operand_args(t) ==> r is Some,
{
    let p0 = parse_unsigned(args[0].as_slice(), 0xffff);
    let p1 = parse_signed(args[1].as_slice(), 0x8000_0000, 0x7fff_ffff);
    if p0.is_some() && p1.is_some() {
        let a0 = p0.unwrap() as u16;
        let a1 = p1.unwrap() as i32;
        proof {
            lemma_numeral_decimal(args@[0]@);
            lemma_signed_numeral_decimal(args@[1]@);
            assert(args_view(args@) =~= seq![decimal(a0 as nat), signed_decimal(a1 as int)]);
        }
        Some(Operand::RegPostIndex(a0, a1))
    } else {
        proof {
            if t is RegPostIndex && args_view(args@) == operand_args(t) {
                match t {
                    Operand::RegPostIndex(b0, b1) => {
                        lemma_decimal_token(b0 as nat);
                        assert(args@[0]@ == operand_args(t)[0]);
                        lemma_signed_decimal_token(b1 as int);
                        assert(args@[1]@ == operand_args(t)[1]);
                    },
                    _ => {},
                }
            }
        }
        None
    }
}

fn operand_regpostindexreg(args: &Vec<Vec<char>>, Ghost(t): Ghost<Operand>) -> (r: Option<Operand>)
    requires
        args@.len() == 2,
    ensures
        r matches Some(o) ==> !(o is Unknown) && !(o is ImmediateDouble) && operand_text(o)
            == render_item("RegPostIndexReg"@, args_view(args@)),
        t is RegPostIndexReg && args_view(args@) == operand_args(t) ==> r is Some,
{
    let p0 = parse_unsigned(args[0].as_slice(), 0xffff);
    let p1 = parse_unsigned(args[1].as_slice(), 0xffff);
    if p0.is_some() && p1.is_some() {
        let a0 = p0.unwrap() as u16;
        let a1 = p1.unwrap() as u16;
        proof {
            lemma_numeral_decimal(args@[0]@);
            lemma_numeral_decimal(args@[1]@);
            assert(args_view(args@) =~= seq![decimal(a0 as nat), decimal(a1 as nat)]);
        }
        Some(Operand::RegPostIndexReg(a0, a1))
    } else {
        proof {
            if t is RegPostIndexReg && args_view(args@) == operand_args(t) {
                match t {
                    Operand::RegPostIndexReg(b0, b1) => {
                        lemma_decimal_token(b0 as nat);
                        assert(args@[0]@ == operand_args(t)[0]);
                        lemma_decimal_token(b1 as nat);
                        assert(args@[1]@ == operand_args(t)[1]);
                    },
                    _ => {},
                }
            }
        }
        None
    }
}

fn operand_prefetchop(args: &Vec<Vec<char>>, Ghost(t): Ghost<Operand>) -> (r: Option<Operand>)
    requires
        args@.len() == 1,
    ensures
        r matches Some(o) ==> !(o is Unknown) && !(o is ImmediateDouble) && operand_text(o)
            == render_item("PrefetchOp"@, args_view(args@)),
        t is PrefetchOp && args_view(args@) == operand_args(t) ==> r is Some,
{
    let p0 = parse_unsigned(args[0].as_slice(), 0xffff);
    if p0.is_some() {
        let a0 = p0.unwrap() as u16;
        proof {
            lemma_numeral_decimal(args@[0]@);
            assert(args_view(args@) =~= seq![decimal(a0 as nat)]);
        }
        Some(Operand::PrefetchOp(a0))
    } else {
        proof {
            if t is PrefetchOp && args_view(args@) == operand_args(t) {
                match t {
                    Operand::PrefetchOp(b0) => {
                        lemma_decimal_token(b0 as nat);
                        assert(args@[0]@ == operand_args(t)[0]);
                    },
                    _ => {},
                }
            }
        }
        None
    }
}

fn operand_systemreg(args: &Vec<Vec<char>>, Ghost(t): Ghost<Operand>) -> (r: Option<Operand>)
    requires
        args@.len() == 1,
    ensures
        r matches Some(o) ==> !(o is Unknown) && !(o is ImmediateDouble) && operand_text(o)
            == render_item("SystemReg"@, args_view(args@)),
        t is SystemReg && args_view(args@) == operand_args(t) ==> r is Some,
{
    let p0 = parse_unsigned(args[0].as_slice(), 0xffff);
    if p0.is_some() {
        let a0 = p0.unwrap() as u16;
        proof {
            lemma_numeral_decimal(args@[0]@);
            assert(args_view(args@) =~= seq![decimal(a0 as nat)]);
        }
        Some(Operand::SystemReg(a0))
    } else {
        proof {
            if t is SystemReg && args_view(args@) == operand_args(t) {
                match t {
                    Operand::SystemReg(b0) => {
                        lemma_decimal_token(b0 as nat);
                        assert(args@[0]@ == operand_args(t)[0]);
                    },
                    _ => {},
                }
            }
        }
        None
    }
}

fn operand_controlreg(args: &Vec<Vec<char>>, Ghost(t): Ghost<Operand>) -> (r: Option<Operand>)
    requires
        args@.len() == 1,
    ensures
        r matches Some(o) ==> !(o is Unknown) && !(o is ImmediateDouble) && operand_text(o)
            == render_item("ControlReg"@, args_view(args@)),
        t is ControlReg && args_view(args@) == operand_args(t) ==> r is Some,
{
    let p0 = parse_unsigned(args[0].as_slice(), 0xffff);
    if p0.is_some() {
        let a0 = p0.unwrap() as u16;
        proof {
            lemma_numeral_decimal(args@[0]@);
            assert(args_view(args@) =~= seq![decimal(a0 as nat)]);
        }
        Some(Operand::ControlReg(a0))
    } else {
        proof {
            if t is ControlReg && args_view(args@) == operand_args(t) {
                match t {
                    Operand::ControlReg(b0) => {
                        lemma_decimal_token(b0 as nat);
                        assert(args@[0]@ == operand_args(t)[0]);
                    },
                    _ => {},
                }
            }
        }
        None
    }
}

fn operand_pstatefield(args: &Vec<Vec<char>>, Ghost(t): Ghost<Operand>) -> (r: Option<Operand>)
    requires
        args@.len() == 1,
    ensures
        r matches Some(o) ==> !(o is Unknown) && !(o is ImmediateDouble) && operand_text(o)
            == render_item("PstateField"@, args_view(args@)),
        t is PstateField && args_view(args@) == operand_args(t) ==> r is Some,
{
    let p0 = parse_unsigned(args[0].as_slice(), 0xff);
    if p0.is_some() {
        let a0 = p0.unwrap() as u8;
        proof {
            lemma_numeral_decimal(args@[0]@);
            assert(args_view(args@) =~= seq![decimal(a0 as nat)]);
        }
        Some(Operand::PstateField(a0))
    } else {
        proof {
            if t is PstateField && args_view(args@) == operand_args(t) {
                match t {
                    Operand::PstateField(b0) => {
                        lemma_decimal_token(b0 as nat);
                        assert(args@[0]@ == operand_args(t)[0]);
                    },
                    _ => {},
                }
            }
        }
        None
    }
}


/// A character that can be part of a name or number in the decoder's rendering.
pub open spec fn is_word_char(c: char) -> bool {
    ('a' <= c <= 'z') || ('A' <= c <= 'Z') || ('0' <= c <= '9') || c == '_'
}

/// End of the run of name characters starting at `pos`.
fn word_end(s: &[char], pos: usize) -> (e: usize)
    requires
        pos <= s@.len(),
    ensures
        pos <= e <= s@.len(),
        forall|k: int| pos <= k < e ==> is_word_char(#[trigger] s@[k]),
        e < s@.len() ==> !is_word_char(s@[e as int]),
{
    let mut e = pos;
    while e < s.len()
        invariant
            pos <= e <= s@.len(),
            forall|k: int| pos <= k < e ==> is_word_char(#[trigger] s@[k]),
        decreases s@.len() - e,
    {
        let c = s[e];
        if !(('a' <= c && c <= 'z') || ('A' <= c && c <= 'Z') || ('0' <= c && c <= '9') || c
            == '_') {
            return e;
        }
        e = e + 1;
    }
    e
}

/// End of the argument token starting at `pos`: it runs up to the next `,` or `)`.
fn token_end(s: &[char], pos: usize) -> (e: usize)
    requires
        pos <= s@.len(),
    ensures
        pos <= e <= s@.len(),
        forall|k: int| pos <= k < e ==> s@[k] != ',' && s@[k] != ')',
        e < s@.len() ==> (s@[e as int] == ',' || s@[e as int] == ')'),
{
    let mut e = pos;
    while e < s.len()
        invariant
            pos <= e <= s@.len(),
            forall|k: int| pos <= k < e ==> s@[k] != ',' && s@[k] != ')',
        decreases s@.len() - e,
    {
        let c = s[e];
        if c == ',' || c == ')' {
            return e;
        }
        e = e + 1;
    }
    e
}

/// If `lit` stands at `pos`, the position after it.
fn match_lit(s: &[char], pos: usize, lit: &str) -> (r: Option<usize>)
    requires
        pos <= s@.len(),
    ensures
        r matches Some(e) ==> e == pos + lit@.len() && e <= s@.len() && s@.subrange(
            pos as int,
            e as int,
        ) == lit@,
        pos + lit@.len() <= s@.len() && s@.subrange(pos as int, pos + lit@.len()) == lit@ ==> r
            == Some((pos + lit@.len()) as usize),
{
    let n = lit.unicode_len();
    if n > s.len() - pos {
        return None;
    }
    let mut i: usize = 0;
    while i < n
        invariant
            n == lit@.len(),
            pos + n <= s@.len(),
            s@.len() == s.len(),
            i <= n,
            forall|j: int| 0 <= j < i ==> s@[pos + j] == lit@[j],
        decreases n - i,
    {
        if s[pos + i] != lit.get_char(i) {
            proof {
                if s@.subrange(pos as int, pos + n) == lit@ {
                    assert(s@.subrange(pos as int, pos + n)[i as int] == s@[pos + i]);
                }
            }
            return None;
        }
        i = i + 1;
    }
    assert(s@.subrange(pos as int, (pos + n) as int) =~= lit@);
    Some(pos + n)
}

/// The characters of `s` from `a` to `b`.
fn copy_range(s: &[char], a: usize, b: usize) -> (r: Vec<char>)
    requires
        a <= b <= s@.len(),
    ensures
        r@ == s@.subrange(a as int, b as int),
{
    let mut r: Vec<char> = Vec::new();
    let mut i = a;
    while i < b
        invariant
            a <= i <= b <= s@.len(),
            r@ == s@.subrange(a as int, i as int),
        decreases b - i,
    {
        r.push(s[i]);
        i = i + 1;
        assert(r@ =~= s@.subrange(a as int, i as int));
    }
    r
}

/// Reads a unit or tuple variant starting at `pos`: its name, its argument tokens and the
/// position after it.  Where the rendering of the item `tn` with arguments `ta` stands there,
/// that item is read.
#[verifier::rlimit(50)]
#[verifier::spinoff_prover]
fn parse_item(s: &[char], pos: usize, Ghost(tn): Ghost<Seq<char>>, Ghost(ta): Ghost<Seq<Seq<char>>>) -> (r: Option<(Vec<char>, Vec<Vec<char>>, usize)>)
    requires
        pos <= s@.len(),
    ensures
        r matches Some((name, args, e)) ==> pos <= e <= s@.len() && s@.subrange(pos as int, e as int)
            == render_item(name@, args_view(args@)),
        item_ok(tn, ta) && item_at(s@, pos as int, tn, ta) ==> (r matches Some((name, args, e))
            && name@ == tn && args_view(args@) == ta && e == pos + render_item(tn, ta).len()),
{
    let ghost hit = item_ok(tn, ta) && item_at(s@, pos as int, tn, ta);
    let ghost nl = tn.len() as int;
    let ghost ra = render_args(ta).len() as int;
    let ne = word_end(s, pos);
    proof {
        if hit {
            lemma_render_item_parts(tn, ta);
            let l = render_item(tn, ta).len() as int;
            assert forall|k: int| pos <= k < pos + nl implies is_word_char(#[trigger] s@[k]) by {
                assert(s@.subrange(pos as int, pos + l)[k - pos] == s@[k]);
                assert(render_item(tn, ta).subrange(0, nl)[k - pos] == tn[k - pos]);
            }
            if pos + nl < s@.len() {
                if ta.len() > 0 {
                    assert(s@.subrange(pos as int, pos + l)[nl] == s@[pos + nl]);
                    assert(s@[pos + nl] == '(');
                }
                assert(!is_word_char(s@[pos + nl]));
            }
            if ne < pos + nl {
                assert(is_word_char(s@[ne as int]));
            }
            if ne > pos + nl {
                assert(is_word_char(s@[pos + nl]));
            }
            assert(ne == pos + nl);
        }
    }
    if ne == pos {
        return None;
    }
    let name = copy_range(s, pos, ne);
    if ne < s.len() && s[ne] == '(' {
        let ghost end_args = ne + 1 + ra;
        proof {
            if hit {
                lemma_render_item_parts(tn, ta);
                let l = render_item(tn, ta).len() as int;
                if ta.len() == 0 {
                    assert(l == nl);
                    assert(false);
                }
                assert(s@.subrange(pos as int, pos + l)[nl + 1 + ra] == s@[end_args]);
                assert(s@.subrange(ne + 1, end_args) =~= s@.subrange(pos as int, pos + l).subrange(nl + 1, nl + 1 + ra));
                assert(ta.skip(0) =~= ta);
                assert(ta.take(0) =~= Seq::<Seq<char>>::empty());
            }
        }
        let mut args: Vec<Vec<char>> = Vec::new();
        assert(args_view(args@) =~= Seq::<Seq<char>>::empty());
        let mut i = ne + 1;
        loop
            invariant
                pos < ne < s@.len(),
                ne + 1 <= i <= s@.len(),
                s@[ne as int] == '(',
                name@ == s@.subrange(pos as int, ne as int),
                args@.len() == 0 ==> i == ne + 1,
                args@.len() > 0 ==> s@.subrange(ne + 1, i as int) == render_args(
                    args_view(args@),
                ) + ", "@,
                hit == (item_ok(tn, ta) && item_at(s@, pos as int, tn, ta)),
                hit ==> {
                    &&& item_ok(tn, ta)
                    &&& name@ == tn
                    &&& ne == pos + nl
                    &&& end_args == ne + 1 + ra
                    &&& pos + render_item(tn, ta).len() == end_args + 1
                    &&& end_args < s@.len()
                    &&& s@[end_args] == ')'
                    &&& args@.len() < ta.len()
                    &&& args_view(args@) == ta.take(args@.len() as int)
                    &&& i <= end_args
                    &&& s@.subrange(i as int, end_args) == render_args(ta.skip(args@.len() as int))
                },
            decreases s@.len() - i,
        {
            let ghost k = args@.len() as int;
            let ghost rest = ta.skip(k);
            proof {
                if hit {
                    lemma_render_args_head(rest);
                    assert(rest[0] == ta[k]);
                    assert(is_token(ta[k]));
                    let tl = ta[k].len() as int;
                    assert forall|j: int| i <= j < i + tl implies #[trigger] s@[j] != ',' && s@[j] != ')' by {
                        assert(s@.subrange(i as int, end_args)[j - i] == s@[j]);
                        assert(render_args(rest)[j - i] == ta[k][j - i]);
                    }
                    if rest.len() == 1 {
                        assert(i + tl == end_args);
                    } else {
                        reveal_strlit(", ");
                        assert(s@.subrange(i as int, end_args)[tl] == s@[i + tl]);
                        assert(render_args(rest)[tl] == ',');
                    }
                }
            }
            let te = token_end(s, i);
            proof {
                if hit {
                    let tl = ta[k].len() as int;
                    if te < i + tl {
                        assert(s@[te as int] != ',' && s@[te as int] != ')');
                    }
                    if te > i + tl {
                        assert(s@[i + tl] != ',' && s@[i + tl] != ')');
                    }
                    assert(te == i + tl);
                }
            }
            if te == i {
                return None;
            }
            let tok = copy_range(s, i, te);
            let ghost old_av = args_view(args@);
            args.push(tok);
            let ghost av = args_view(args@);
            assert(av =~= old_av.push(s@.subrange(i as int, te as int)));
            proof {
                if old_av.len() == 0 {
                    assert(render_args(av) == av[0]);
                    assert(s@.subrange(ne + 1, te as int) =~= render_args(av));
                } else {
                    assert(av.drop_last() =~= old_av);
                    assert(render_args(av) == render_args(old_av) + ", "@ + av.last());
                    assert(s@.subrange(ne + 1, te as int) =~= s@.subrange(ne + 1, i as int)
                        + s@.subrange(i as int, te as int));
                    assert(s@.subrange(ne + 1, te as int) =~= render_args(av));
                }
                if hit {
                    let tl = ta[k].len() as int;
                    assert(s@.subrange(i as int, te as int) =~= s@.subrange(i as int, end_args).subrange(0, tl));
                    assert(render_args(rest).subrange(0, tl) =~= ta[k]);
                    assert(av =~= ta.take(k + 1));
                }
            }
            if te < s.len() && s[te] == ')' {
                proof {
                    assert(s@.subrange(pos as int, (te + 1) as int) =~= name@ + seq!['(']
                        + s@.subrange(ne + 1, te as int) + seq![')']);
                    if hit {
                        if rest.len() > 1 {
                            reveal_strlit(", ");
                            let tl = ta[k].len() as int;
                            assert(s@.subrange(i as int, end_args)[tl] == s@[i + tl]);
                            assert(render_args(rest)[tl] == ',');
                        }
                        assert(k + 1 == ta.len());
                        assert(ta.take(k + 1) =~= ta);
                    }
                }
                return Some((name, args, te + 1));
            }
            proof {
                if hit {
                    let tl = ta[k].len() as int;
                    reveal_strlit(", ");
                    if rest.len() == 1 {
                        assert(te == end_args);
                        assert(false);
                    }
                    assert(s@.subrange(te as int, te + 2) =~= s@.subrange(i as int, end_args).subrange(tl, tl + 2));
                    assert(render_args(rest).subrange(tl, tl + 2) =~= ", "@);
                }
            }
            match match_lit(s, te, ", ") {
                Some(ni) => {
                    proof {
                        assert(s@.subrange(ne + 1, ni as int) =~= s@.subrange(ne + 1, te as int)
                            + s@.subrange(te as int, ni as int));
                        if hit {
                            let tl = ta[k].len() as int;
                            assert(rest.drop_first() =~= ta.skip(k + 1));
                            assert(s@.subrange(ni as int, end_args) =~= s@.subrange(i as int, end_args).subrange(tl + 2, end_args - i));
                            assert(render_args(rest).subrange(tl + 2, end_args - i) =~= render_args(rest.drop_first()));
                        }
                    }
                    i = ni;
                },
                None => {
                    return None;
                },
            }
        }
    } else {
        let args: Vec<Vec<char>> = Vec::new();
        assert(args_view(args@) =~= Seq::<Seq<char>>::empty());
        proof {
            if hit {
                lemma_render_item_parts(tn, ta);
                if ta.len() > 0 {
                    let l = render_item(tn, ta).len() as int;
                    assert(s@.subrange(pos as int, pos + l)[nl] == s@[pos + nl]);
                    assert(false);
                }
                assert(ta =~= Seq::<Seq<char>>::empty());
            }
        }
        Some((name, args, ne))
    }
}

/// An operation whose `Debug` rendering is kept in full by [`opcode_text`].
pub open spec fn known_opcode(o: Opcode) -> bool {
    !(o is Other) && !(o is SYS) && !(o is SYSL)
}

/// An operand whose `Debug` rendering is kept in full by [`operand_text`].
pub open spec fn known_operand(o: Operand) -> bool {
    !(o is Unknown) && !(o is ImmediateDouble)
}

/// The `Debug` rendering of an operation.
pub open spec fn opcode_text(o: Opcode) -> Seq<char> {
    match o {
        Opcode::Bcc(c) => render_item("Bcc"@, seq![decimal(c as nat)]),
        Opcode::CAS(c) => render_item("CAS"@, seq![decimal(c as nat)]),
        _ => opcode_name(o),
    }
}

/// An instruction all of whose parts are kept in full.
pub open spec fn known_instruction(i: Instruction) -> bool {
    &&& known_opcode(i.opcode)
    &&& forall|k: int| 0 <= k < 4 ==> known_operand(#[trigger] i.operands@[k])
}

/// The `Debug` rendering of an instruction.
#[verifier::opaque]
pub open spec fn instruction_text(i: Instruction) -> Seq<char> {
    "Instruction { opcode: "@ + opcode_text(i.opcode) + ", operands: ["@ + operand_text(
        i.operands@[0],
    ) + ", "@ + operand_text(i.operands@[1]) + ", "@ + operand_text(i.operands@[2]) + ", "@
        + operand_text(i.operands@[3]) + "] }"@
}

/// Some operation this library keeps in full renders as `name` with the payload tokens `args`.
pub open spec fn names_known_opcode(name: Seq<char>, args: Seq<Seq<char>>) -> bool {
    exists|o: Opcode| known_opcode(o) && opcode_name(o) == name && opcode_args(o) == args
}

/// The operation a rendered name with payload tokens stands for: the operation this library
/// keeps in full that renders so, `SYS` or `SYSL` by name, and `Other` for every name the
/// library does not know.
pub open spec fn opcode_of_item(name: Seq<char>, args: Seq<Seq<char>>) -> Opcode {
    if names_known_opcode(name, args) {
        choose|o: Opcode| known_opcode(o) && opcode_name(o) == name && opcode_args(o) == args
    } else if name == "SYS"@ {
        Opcode::SYS
    } else if name == "SYSL"@ {
        Opcode::SYSL
    } else {
        Opcode::Other
    }
}

/// A known operation is the one its rendering stands for.
pub proof fn lemma_opcode_of_item_known(o: Opcode)
    requires
        known_opcode(o),
    ensures
        opcode_of_item(opcode_name(o), opcode_args(o)) == o,
{
    assert(names_known_opcode(opcode_name(o), opcode_args(o)));
    let o2 = choose|o2: Opcode| known_opcode(o2) && opcode_name(o2) == opcode_name(o) && opcode_args(o2) == opcode_args(o);
    lemma_opcode_unique(o2, o);
}

/// No known operation renders with the name of `SYS` or `SYSL`, nor with `Bcc` or `CAS` and
/// a number above 255.
proof fn lemma_not_named_sys(name: Seq<char>, args: Seq<Seq<char>>)
    requires
        name == "SYS"@ || name == "SYSL"@,
    ensures
        !names_known_opcode(name, args),
{
    if names_known_opcode(name, args) {
        let o = choose|o: Opcode| known_opcode(o) && opcode_name(o) == name && opcode_args(o) == args;
        lemma_opcode_not_sys(o);
    }
}

/// The operation rendered as `name` with the payload tokens `args`.
fn opcode_from(name: &[char], args: &Vec<Vec<char>>) -> (r: Opcode)
    ensures
        r == opcode_of_item(name@, args_view(args@)),
        known_opcode(r) ==> opcode_text(r) == render_item(name@, args_view(args@)),
{
    let ghost n = name@;
    let ghost a = args_view(args@);
    proof {
        assert(a.len() == args@.len());
        reveal(opcode_name);
        reveal_strlit("SYS");
        reveal_strlit("SYSL");
        reveal_strlit("Bcc");
        reveal_strlit("CAS");
    }
    if args.len() == 0 {
        let o = opcode_from_name(name);
        assert(args_view(args@) =~= Seq::<Seq<char>>::empty());
        proof {
            if o == Opcode::SYS || o == Opcode::SYSL {
                assert(n == opcode_name(o));
                lemma_not_named_sys(n, a);
                assert(!names_known_opcode(n, a));
                if o == Opcode::SYS {
                    assert(n == "SYS"@);
                } else {
                    assert(n == "SYSL"@);
                    assert(n != "SYS"@) by {
                        assert(n.len() != "SYS"@.len());
                    }
                }
            } else if o == Opcode::Other {
                if names_known_opcode(n, a) {
                    let o2 = choose|o2: Opcode| known_opcode(o2) && opcode_name(o2) == n && opcode_args(o2) == a;
                    assert(is_plain_opcode(o2));
                }
                assert(opcode_name(Opcode::SYS) == "SYS"@);
                assert(opcode_name(Opcode::SYSL) == "SYSL"@);
                assert(is_plain_opcode(Opcode::SYS));
                assert(is_plain_opcode(Opcode::SYSL));
                assert(!names_known_opcode(n, a));
                assert(n != "SYS"@);
                assert(n != "SYSL"@);
            } else {
                assert(opcode_args(o) =~= a);
                lemma_opcode_of_item_known(o);
            }
        }
        return o;
    }
    if args.len() == 1 && (chars_eq_str(name, "Bcc") || chars_eq_str(name, "CAS")) {
        match parse_unsigned(args[0].as_slice(), 0xff) {
            Some(v) => {
                proof {
                    lemma_numeral_decimal(args@[0]@);
                    assert(args_view(args@) =~= seq![decimal(v as u8 as nat)]);
                }
                if chars_eq_str(name, "Bcc") {
                    proof {
                        lemma_opcode_of_item_known(Opcode::Bcc(v as u8));
                    }
                    return Opcode::Bcc(v as u8);
                } else {
                    proof {
                        lemma_opcode_of_item_known(Opcode::CAS(v as u8));
                    }
                    return Opcode::CAS(v as u8);
                }
            },
            None => {
                proof {
                    if names_known_opcode(n, a) {
                        let o2 = choose|o2: Opcode| known_opcode(o2) && opcode_name(o2) == n && opcode_args(o2) == a;
                        match o2 {
                            Opcode::Bcc(c) => {
                                lemma_decimal_token(c as nat);
                                assert(a[0] == args@[0]@);
                            },
                            Opcode::CAS(c) => {
                                lemma_decimal_token(c as nat);
                                assert(a[0] == args@[0]@);
                            },
                            _ => {},
                        }
                    }
                    assert("Bcc"@[0] != "SYS"@[0]);
                    assert("CAS"@[0] != "SYS"@[0]);
                }
                return Opcode::Other;
            },
        }
    }
    proof {
        if names_known_opcode(n, a) {
            let o2 = choose|o2: Opcode| known_opcode(o2) && opcode_name(o2) == n && opcode_args(o2) == a;
            match o2 {
                Opcode::Bcc(c) => {},
                Opcode::CAS(c) => {},
                _ => {},
            }
        }
    }
    if chars_eq_str(name, "SYS") {
        proof {
            lemma_not_named_sys(n, a);
        }
        Opcode::SYS
    } else if chars_eq_str(name, "SYSL") {
        proof {
            lemma_not_named_sys(n, a);
        }
        Opcode::SYSL
    } else {
        Opcode::Other
    }
}

/// Reads an operand at `pos`, returning it and the position after it.
fn parse_operand(s: &[char], pos: usize, Ghost(t): Ghost<Operand>) -> (r: Option<(Operand, usize)>)
    requires
        pos <= s@.len(),
    ensures
        r matches Some((o, e)) ==> pos <= e <= s@.len() && (known_operand(o) ==> s@.subrange(
            pos as int,
            e as int,
        ) == operand_text(o)),
        known_operand(t) && item_at(s@, pos as int, operand_name(t), operand_args(t)) ==> (r matches Some((o, e))
            && o == t && e == pos + operand_text(t).len()),
{
    proof {
        if known_operand(t) {
            lemma_operand_item_ok(t);
        }
    }
    match parse_item(s, pos, Ghost(operand_name(t)), Ghost(operand_args(t))) {
        Some((name, args, e)) => {
            let o = operand_from(name.as_slice(), &args, Ghost(t));
            proof {
                if known_operand(t) && name@ == operand_name(t) && args_view(args@) == operand_args(t) {
                    lemma_operand_text_unique(o, t);
                }
            }
            Some((o, e))
        },
        None => None,
    }
}

/// A sequence cut at four ascending positions is the join of its five pieces.
proof fn lemma_five_parts(s: Seq<char>, p0: int, p1: int, p2: int, p3: int)
    requires
        0 <= p0 <= p1 <= p2 <= p3 <= s.len(),
    ensures
        s == s.subrange(0, p0) + s.subrange(p0, p1) + s.subrange(p1, p2) + s.subrange(p2, p3)
            + s.subrange(p3, s.len() as int),
{
    assert(s =~= s.subrange(0, p0) + s.subrange(p0, p1) + s.subrange(p1, p2) + s.subrange(p2, p3)
        + s.subrange(p3, s.len() as int));
}

/// Eleven pieces joined left to right are the same pieces joined right to left.
proof fn lemma_join_eleven(
    a0: Seq<char>,
    a1: Seq<char>,
    a2: Seq<char>,
    a3: Seq<char>,
    a4: Seq<char>,
    a5: Seq<char>,
    a6: Seq<char>,
    a7: Seq<char>,
    a8: Seq<char>,
    a9: Seq<char>,
    a10: Seq<char>,
)
    ensures
        a0 + a1 + a2 + a3 + a4 + a5 + a6 + a7 + a8 + a9 + a10 == a0 + (a1 + (a2 + (a3 + (a4 + (a5 + (
            a6 + (a7 + (a8 + (a9 + a10))))))))),
{
    assert(a0 + a1 + a2 + a3 + a4 + a5 + a6 + a7 + a8 + a9 + a10 =~= a0 + (a1 + (a2 + (a3 + (a4 + (a5
        + (a6 + (a7 + (a8 + (a9 + a10))))))))));
}

/// The separators of an instruction's rendering start with `,` or `]`.
pub proof fn lemma_separators()
    ensures
        ", operands: ["@.len() > 0 && ", operands: ["@[0] == ',',
        ", "@.len() > 0 && ", "@[0] == ',',
        "] }"@.len() > 0 && "] }"@[0] == ']',
{
    reveal_strlit(", operands: [");
    reveal_strlit(", ");
    reveal_strlit("] }");
}

/// Reads an operand at `pos` and the separator `lit` after it, returning the operand and the
/// position after the separator.
fn parse_operand_then(s: &[char], pos: usize, lit: &str, Ghost(t): Ghost<Operand>, Ghost(rest): Ghost<Seq<char>>) -> (r: Option<(Operand, usize)>)
    requires
        pos <= s@.len(),
    ensures
        r matches Some((o, e)) ==> pos <= e <= s@.len() && (known_operand(o) ==> s@.subrange(
            pos as int,
            e as int,
        ) == operand_text(o) + lit@),
        known_operand(t) && s@.skip(pos as int) == operand_text(t) + (lit@ + rest) && lit@.len() > 0
            && (lit@[0] == ',' || lit@[0] == ']') ==> (r matches Some((o, e)) && o == t && e
            == pos + operand_text(t).len() + lit@.len()),
{
    proof {
        if known_operand(t) && s@.skip(pos as int) == operand_text(t) + (lit@ + rest) && lit@.len() > 0
            && (lit@[0] == ',' || lit@[0] == ']') {
            lemma_operand_item_ok(t);
            lemma_split_at(s@, pos as int, operand_text(t), lit@ + rest);
            lemma_split_at(s@, pos + operand_text(t).len(), lit@, rest);
        }
    }
    let (o, p) = match parse_operand(s, pos, Ghost(t)) {
        Some(x) => x,
        None => return None,
    };
    let e = match match_lit(s, p, lit) {
        Some(e) => e,
        None => return None,
    };
    proof {
        if known_operand(o) {
            assert(s@.subrange(pos as int, e as int) =~= s@.subrange(pos as int, p as int) + s@.subrange(p as int, e as int));
        }
    }
    Some((o, e))
}

/// Reads the operation at the start of an instruction's rendering, returning it and the
/// position where the operands start.  Where the operation is rendered as the item `n` with
/// payload tokens `a`, the operation they stand for is returned.
fn parse_opcode_part(s: &[char], Ghost(n): Ghost<Seq<char>>, Ghost(a): Ghost<Seq<Seq<char>>>, Ghost(rest): Ghost<Seq<char>>) -> (r: Option<(Opcode, usize)>)
    ensures
        r matches Some((op, e)) ==> e <= s@.len() && (known_opcode(op) ==> s@.subrange(0, e as int)
            == "Instruction { opcode: "@ + opcode_text(op) + ", operands: ["@),
        item_ok(n, a) && s@ == "Instruction { opcode: "@ + (render_item(n, a) + (", operands: ["@ + rest))
            ==> (r matches Some((op, e)) && op == opcode_of_item(n, a) && e == "Instruction { opcode: "@.len()
            + render_item(n, a).len() + ", operands: ["@.len()),
{
    let ghost lit0 = "Instruction { opcode: "@;
    let ghost lit1 = ", operands: ["@;
    let ghost hit = item_ok(n, a) && s@ == lit0 + (render_item(n, a) + (lit1 + rest));
    proof {
        if hit {
            lemma_separators();
            assert(s@.skip(0) =~= s@);
            lemma_split_at(s@, 0, lit0, render_item(n, a) + (lit1 + rest));
        }
    }
    let p0 = match match_lit(s, 0, "Instruction { opcode: ") {
        Some(p) => p,
        None => return None,
    };
    proof {
        if hit {
            lemma_split_at(s@, p0 as int, render_item(n, a), lit1 + rest);
        }
    }
    let (oname, oargs, p1) = match parse_item(s, p0, Ghost(n), Ghost(a)) {
        Some(x) => x,
        None => return None,
    };
    let opcode = opcode_from(oname.as_slice(), &oargs);
    proof {
        if hit {
            lemma_split_at(s@, p1 as int, lit1, rest);
        }
    }
    let p2 = match match_lit(s, p1, ", operands: [") {
        Some(p) => p,
        None => return None,
    };
    proof {
        if known_opcode(opcode) {
            assert(s@.subrange(0, p2 as int) =~= s@.subrange(0, p0 as int) + s@.subrange(p0 as int, p1 as int)
                + s@.subrange(p1 as int, p2 as int));
        }
    }
    Some((opcode, p2))
}

/// `text` is an instruction's rendering whose operation is rendered as the item `n` with
/// payload tokens `a`, and whose operands, all kept in full by this library, are those of `t`
/// (the operation of `t` plays no part).
pub open spec fn has_form(text: Seq<char>, n: Seq<char>, a: Seq<Seq<char>>, t: Instruction) -> bool {
    &&& item_ok(n, a)
    &&& forall|k: int| 0 <= k < 4 ==> known_operand(#[trigger] t.operands@[k])
    &&& text == "Instruction { opcode: "@ + (render_item(n, a) + (", operands: ["@ + operands_from(t, 0)))
}

/// `text` is the rendering of an instruction whose operands this library keeps in full,
/// whatever its operation.
pub open spec fn has_some_form(text: Seq<char>) -> bool {
    exists|n: Seq<char>, a: Seq<Seq<char>>, t: Instruction| has_form(text, n, a, t)
}

/// The parts of such a rendering; by `lemma_form_unique` there is one way to read them.
pub open spec fn form_of(text: Seq<char>) -> (Seq<char>, Seq<Seq<char>>, Instruction) {
    choose|n: Seq<char>, a: Seq<Seq<char>>, t: Instruction| has_form(text, n, a, t)
}

/// The instruction such a rendering stands for: the operation its name and payload stand for
/// (`Other` for a name the library does not know), with the operands rendered.
pub open spec fn form_instruction(text: Seq<char>) -> Instruction {
    Instruction {
        opcode: opcode_of_item(form_of(text).0, form_of(text).1),
        operands: form_of(text).2.operands,
    }
}

/// Some instruction whose parts are all kept renders as `text`.
pub open spec fn representable(text: Seq<char>) -> bool {
    exists|i: Instruction| known_instruction(i) && instruction_text(i) == text
}

/// The instruction, all of whose parts are kept, that renders as `text`, where there is one;
/// by `law_rendering_unique` there is at most one.
pub open spec fn instruction_of(text: Seq<char>) -> Instruction {
    choose|i: Instruction| known_instruction(i) && instruction_text(i) == text
}

/// The rendering of the operands of `t` from the `k`-th on, with the separators and the end
/// of the instruction.
#[verifier::opaque]
pub open spec fn operands_from(t: Instruction, k: int) -> Seq<char>
    decreases 4 - k,
{
    if k >= 3 {
        operand_text(t.operands@[3]) + "] }"@
    } else if k < 0 {
        Seq::empty()
    } else {
        operand_text(t.operands@[k]) + (", "@ + operands_from(t, k + 1))
    }
}

/// One step through the operands' rendering.
pub proof fn lemma_operands_from(t: Instruction, k: int)
    requires
        0 <= k <= 3,
    ensures
        k < 3 ==> operands_from(t, k) == operand_text(t.operands@[k]) + (", "@ + operands_from(t, k + 1)),
        k == 3 ==> operands_from(t, k) == operand_text(t.operands@[3]) + ("] }"@ + Seq::<char>::empty()),
{
    reveal(operands_from);
    if k == 3 {
        assert("] }"@ + Seq::<char>::empty() =~= "] }"@);
    }
}

/// The rendering of an instruction whose parts are all kept: the operation, then the operands.
pub proof fn lemma_instruction_layout(s: Seq<char>, t: Instruction)
    requires
        known_instruction(t),
        instruction_text(t) == s,
    ensures
        s == "Instruction { opcode: "@ + (opcode_text(t.opcode) + (", operands: ["@ + operands_from(t, 0))),
        known_opcode(t.opcode),
        forall|k: int| 0 <= k < 4 ==> known_operand(#[trigger] t.operands@[k]),
{
    reveal(instruction_text);
    let x0 = operand_text(t.operands@[0]);
    let x1 = operand_text(t.operands@[1]);
    let x2 = operand_text(t.operands@[2]);
    let x3 = operand_text(t.operands@[3]);
    lemma_join_eleven("Instruction { opcode: "@, opcode_text(t.opcode), ", operands: ["@, x0, ", "@, x1, ", "@, x2, ", "@, x3, "] }"@);
    reveal_with_fuel(operands_from, 5);
}

/// An instruction whose parts stand one after the other in `s`, with the separators between
/// them, renders as `s`.
proof fn lemma_instruction_from_parts(s: Seq<char>, inst: Instruction, p0: int, p1: int, p2: int, p3: int)
    requires
        0 <= p0 <= p1 <= p2 <= p3 <= s.len(),
        s.subrange(0, p0) == "Instruction { opcode: "@ + opcode_text(inst.opcode) + ", operands: ["@,
        s.subrange(p0, p1) == operand_text(inst.operands@[0]) + ", "@,
        s.subrange(p1, p2) == operand_text(inst.operands@[1]) + ", "@,
        s.subrange(p2, p3) == operand_text(inst.operands@[2]) + ", "@,
        s.subrange(p3, s.len() as int) == operand_text(inst.operands@[3]) + "] }"@,
    ensures
        instruction_text(inst) == s,
{
    reveal(instruction_text);
    lemma_five_parts(s, p0, p1, p2, p3);
    assert(instruction_text(inst) =~= s);
}

/// After `a` and `b`, what follows them at `p` of `s`.
proof fn lemma_skip_two(s: Seq<char>, p: int, a: Seq<char>, b: Seq<char>, c: Seq<char>)
    requires
        0 <= p <= s.len(),
        s.skip(p) == a + (b + c),
    ensures
        p + a.len() + b.len() <= s.len(),
        s.skip(p + a.len() + b.len()) == c,
{
    lemma_split_at(s, p, a, b + c);
    lemma_split_at(s, p + a.len(), b, c);
}

/// Reads back the `Debug` rendering of a decoded instruction.  What it returns renders as
/// `s`, as far as [`instruction_text`] keeps the parts.  Where the operands of `s` are all kept,
/// it returns them with the operation that the rendered name stands for (`Other` for a name
/// the library does not know); where every part is kept, that is the instruction rendered.
pub fn parse_instruction(s: &[char]) -> (r: Option<Instruction>)
    ensures
        r matches Some(i) ==> (known_instruction(i) ==> instruction_text(i) == s@),
        has_some_form(s@) ==> r == Some(form_instruction(s@)),
        representable(s@) ==> r == Some(instruction_of(s@)) && known_instruction(instruction_of(s@)),
{
    let ghost hit = has_some_form(s@);
    let ghost n = form_of(s@).0;
    let ghost a = form_of(s@).1;
    let ghost t = form_of(s@).2;
    proof {
        if representable(s@) {
            let i = instruction_of(s@);
            lemma_instruction_layout(s@, i);
            lemma_opcode_item_ok(i.opcode);
            assert(has_form(s@, opcode_name(i.opcode), opcode_args(i.opcode), i));
            lemma_form_unique(s@, n, a, t, opcode_name(i.opcode), opcode_args(i.opcode), i);
            lemma_opcode_of_item_known(i.opcode);
            assert(t.operands =~= i.operands);
        }
        if hit {
            lemma_separators();
            lemma_operands_from(t, 0);
            lemma_operands_from(t, 1);
            lemma_operands_from(t, 2);
            lemma_operands_from(t, 3);
            assert(known_operand(t.operands@[0]));
            assert(known_operand(t.operands@[1]));
            assert(known_operand(t.operands@[2]));
            assert(known_operand(t.operands@[3]));
        }
    }
    let (opcode, p0) = match parse_opcode_part(s, Ghost(n), Ghost(a), Ghost(operands_from(t, 0))) {
        Some(x) => x,
        None => return None,
    };
    proof {
        if hit {
            assert(s@.skip(0) =~= s@);
            lemma_skip_two(s@, 0, "Instruction { opcode: "@, render_item(n, a), ", operands: ["@ + operands_from(t, 0));
            lemma_split_at(s@, "Instruction { opcode: "@.len() + render_item(n, a).len() as int, ", operands: ["@, operands_from(t, 0));
        }
    }
    let (o0, p1) = match parse_operand_then(s, p0, ", ", Ghost(t.operands@[0]), Ghost(operands_from(t, 1))) {
        Some(x) => x,
        None => return None,
    };
    proof {
        if hit {
            lemma_skip_two(s@, p0 as int, operand_text(t.operands@[0]), ", "@, operands_from(t, 1));
        }
    }
    let (o1, p2) = match parse_operand_then(s, p1, ", ", Ghost(t.operands@[1]), Ghost(operands_from(t, 2))) {
        Some(x) => x,
        None => return None,
    };
    proof {
        if hit {
            lemma_skip_two(s@, p1 as int, operand_text(t.operands@[1]), ", "@, operands_from(t, 2));
        }
    }
    let (o2, p3) = match parse_operand_then(s, p2, ", ", Ghost(t.operands@[2]), Ghost(operands_from(t, 3))) {
        Some(x) => x,
        None => return None,
    };
    proof {
        if hit {
            lemma_skip_two(s@, p2 as int, operand_text(t.operands@[2]), ", "@, operands_from(t, 3));
        }
    }
    let (o3, p4) = match parse_operand_then(s, p3, "] }", Ghost(t.operands@[3]), Ghost(Seq::<char>::empty())) {
        Some(x) => x,
        None => return None,
    };
    proof {
        if hit {
            lemma_skip_two(s@, p3 as int, operand_text(t.operands@[3]), "] }"@, Seq::<char>::empty());
        }
    }
    if p4 != s.len() {
        return None;
    }
    let inst = Instruction { opcode, operands: [o0, o1, o2, o3] };
    proof {
        if known_instruction(inst) {
            assert(known_operand(inst.operands@[0]));
            assert(known_operand(inst.operands@[1]));
            assert(known_operand(inst.operands@[2]));
            assert(known_operand(inst.operands@[3]));
            lemma_instruction_from_parts(s@, inst, p0 as int, p1 as int, p2 as int, p3 as int);
        }
        if hit {
            assert(inst.operands =~= t.operands);
        }
    }
    Some(inst)
}

/// What `yaxpeax_arm` makes of four bytes: its error, or the `Debug` and the `Display`
/// rendering of the instruction it decodes.
pub uninterp spec fn decoded_text(word: Seq<u8>) -> Result<(Seq<char>, Seq<char>), DecodeError>;

/// Decodes the four little-endian bytes of `word` with `yaxpeax_arm`'s `InstDecoder`
/// (`yaxpeax_arch::Decoder::decode` on a `U8Reader`).  The decoded instruction is returned as
/// its derived `Debug` rendering and its `Display` rendering (assembly syntax); a decoder error
/// is returned variant for variant.  The contract claims only that the outcome is a function
/// of the four bytes, named `decoded_text`.
#[verifier::external_body]
fn decode_text(word: &[u8]) -> (r: Result<(Vec<char>, String), DecodeError>)
    requires
        word@.len() == 4,
    ensures
        match r {
            Ok((d, a)) => decoded_text(word@) == Ok::<(Seq<char>, Seq<char>), DecodeError>(
                (d@, a@),
            ),
            Err(e) => decoded_text(word@) == Err::<(Seq<char>, Seq<char>), DecodeError>(e),
        },
{
    let mut reader = U8Reader::new(word);
    match InstDecoder::default().decode(&mut reader) {
        Ok(inst) => Ok((format!("{:?}", inst).chars().collect(), format!("{}", inst))),
        Err(A64DecodeError::ExhaustedInput) => Err(DecodeError::ExhaustedInput),
        Err(A64DecodeError::InvalidOpcode) => Err(DecodeError::InvalidOpcode),
        Err(A64DecodeError::InvalidOperand) => Err(DecodeError::InvalidOperand),
        Err(A64DecodeError::IncompleteDecoder) => Err(DecodeError::IncompleteDecoder),
    }
}

/// Decodes one instruction from four bytes: the decoder's error, or the instruction together
/// with its assembly text.  Where the decoder's `Debug` text is the rendering of an instruction
/// all of whose parts this library keeps, that instruction is returned.  Where only its
/// operands are kept, they are returned with the operation its name stands for (`Other` for an
/// operation the library does not name).  Otherwise an instruction with an unknown part is.
pub fn decode_word(word: &[u8]) -> (r: Result<(Instruction, String), DecodeError>)
    requires
        word@.len() == 4,
    ensures
        r is Ok <==> decoded_text(word@) is Ok,
        r matches Err(e) ==> decoded_text(word@) == Err::<(Seq<char>, Seq<char>), DecodeError>(e),
        r matches Ok((i, text)) ==> {
            &&& text@ == decoded_text(word@)->Ok_0.1
            &&& known_instruction(i) ==> instruction_text(i) == decoded_text(word@)->Ok_0.0
            &&& known_instruction(i) <==> representable(decoded_text(word@)->Ok_0.0)
            &&& representable(decoded_text(word@)->Ok_0.0) ==> i == instruction_of(decoded_text(word@)->Ok_0.0)
            &&& has_some_form(decoded_text(word@)->Ok_0.0) ==> i == form_instruction(decoded_text(word@)->Ok_0.0)
        },
{
    match decode_text(word) {
        Ok((debug, text)) => {
            let inst = match parse_instruction(debug.as_slice()) {
                Some(i) => i,
                None => Instruction {
                    opcode: Opcode::Other,
                    operands: [Operand::Unknown, Operand::Unknown, Operand::Unknown, Operand::Unknown],
                },
            };
            proof {
                if known_instruction(inst) {
                    assert(known_instruction(inst) && instruction_text(inst) == debug@);
                    law_rendering_unique(inst, instruction_of(debug@));
                }
            }
            Ok((inst, text))
        },
        Err(e) => Err(e),
    }
}

/// Number of whole four-byte words in `code`.
pub open spec fn n_words(code: Seq<u8>) -> nat {
    code.len() / 4
}

/// The `k`-th four-byte word of `code`.
pub open spec fn word_at(code: Seq<u8>, k: int) -> Seq<u8> {
    code.subrange(4 * k, 4 * k + 4)
}

/// The decoder accepts `word`, and `inst` is what it decodes: the instruction whose rendering is
/// the decoder's `Debug` text where this library keeps all its parts, its operands with the
/// operation its name stands for where the library keeps the operands, and one with an unknown
/// part otherwise.
pub open spec fn decodes_as(word: Seq<u8>, inst: Instruction) -> bool {
    &&& decoded_text(word) is Ok
    &&& known_instruction(inst) ==> instruction_text(inst) == decoded_text(word)->Ok_0.0
    &&& known_instruction(inst) <==> representable(decoded_text(word)->Ok_0.0)
    &&& representable(decoded_text(word)->Ok_0.0) ==> inst == instruction_of(decoded_text(word)->Ok_0.0)
    &&& has_some_form(decoded_text(word)->Ok_0.0) ==> inst == form_instruction(decoded_text(word)->Ok_0.0)
}

/// The first `k` words of `code` decode without error.
pub open spec fn words_ok(code: Seq<u8>, k: int) -> bool {
    forall|i: int| 0 <= i < k ==> (#[trigger] decoded_text(word_at(code, i))) is Ok
}

/// The `k`-th word of `code` as a vector.
pub fn word_vec(code: &[u8], k: usize) -> (w: Vec<u8>)
    requires
        4 * k + 4 <= code@.len(),
    ensures
        w@ == word_at(code@, k as int),
{
    let len = code.len();
    assert(4 * k + 4 <= len);
    let p = 4 * k;
    let mut w: Vec<u8> = Vec::new();
    w.push(code[p]);
    w.push(code[p + 1]);
    w.push(code[p + 2]);
    w.push(code[p + 3]);
    assert(w@ =~= word_at(code@, k as int));
    w
}

/// Decodes `code` word by word, as the decoder reads it: decoding stops at the end of the
/// whole words or where the decoder reports that the input is exhausted, and fails at the
/// first word the decoder rejects otherwise.
pub fn decode_all(code: &[u8]) -> (r: Result<Vec<Instruction>, DecodeError>)
    ensures
        match r {
            Ok(v) => {
                &&& v@.len() <= n_words(code@)
                &&& forall|i: int| 0 <= i < v@.len() ==> decodes_as(word_at(code@, i), #[trigger] v@[i])
                &&& v@.len() < n_words(code@) ==> decoded_text(word_at(code@, v@.len() as int))
                    == Err::<(Seq<char>, Seq<char>), DecodeError>(DecodeError::ExhaustedInput)
            },
            Err(e) => {
                &&& e != DecodeError::ExhaustedInput
                &&& exists|k: int|
                    0 <= k < n_words(code@) && words_ok(code@, k) && decoded_text(word_at(code@, k))
                        == Err::<(Seq<char>, Seq<char>), DecodeError>(e)
            },
        },
{
    let n = code.len() / 4;
    let mut out: Vec<Instruction> = Vec::new();
    let mut k: usize = 0;
    while k < n
        invariant
            n == n_words(code@),
            k <= n,
            out@.len() == k,
            forall|i: int| 0 <= i < k ==> decodes_as(word_at(code@, i), #[trigger] out@[i]),
        decreases n - k,
    {
        let w = word_vec(code, k);
        match decode_word(w.as_slice()) {
            Ok((inst, _)) => {
                out.push(inst);
            },
            Err(DecodeError::ExhaustedInput) => {
                return Ok(out);
            },
            Err(e) => {
                proof {
                    assert(words_ok(code@, k as int)) by {
                        assert forall|i: int| 0 <= i < k implies (#[trigger] decoded_text(
                            word_at(code@, i),
                        )) is Ok by {
                            assert(decodes_as(word_at(code@, i), out@[i]));
                        }
                    }
                }
                return Err(e);
            },
        }
        k = k + 1;
    }
    Ok(out)
}

} // verus!
