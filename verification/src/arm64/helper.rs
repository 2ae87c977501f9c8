//! Small conversions shared by the label resolver and the lifter.

use crate::arm64::decode::{Instruction, Operand, SIMDSizeCode, SizeCode};
use crate::arm64::ir::{chars_of, decimal, push_decimal, string_from_chars, Ty};
use vstd::prelude::*;

verus! {

/// Name of the block that starts at `addr`.
pub open spec fn block_name(addr: u64) -> Seq<char> {
    "block_"@ + decimal(addr as nat)
}

/// The offset of a pc-relative operand.
pub fn get_pc_offset_as_int(operand: Operand) -> (r: i64)
    requires
        operand is PCOffset,
    ensures
        r == operand->PCOffset_0,
{
    match operand {
        Operand::PCOffset(imm) => imm,
        _ => 0,
    }
}

/// The characters of the name of the block that starts at `jump_address`.
pub fn block_name_chars(jump_address: u64) -> (r: Vec<char>)
    ensures
        r@ == block_name(jump_address),
{
    let mut name = chars_of("block_");
    push_decimal(&mut name, jump_address);
    name
}

/// Name of the block that starts at `jump_address`, such as `block_16`.
pub fn get_block_name(jump_address: u64) -> (r: String)
    ensures
        r@ == block_name(jump_address),
{
    let name = block_name_chars(jump_address);
    string_from_chars(name.as_slice())
}

/// Type of a general purpose register of the given size.
pub open spec fn sizecode_type(sz: SizeCode) -> Ty {
    match sz {
        SizeCode::W => Ty::I32,
        SizeCode::X => Ty::I64,
    }
}

/// Type of a SIMD register or element of the given size.
pub open spec fn simd_sizecode_type(sz: SIMDSizeCode) -> Ty {
    match sz {
        SIMDSizeCode::B => Ty::I8,
        SIMDSizeCode::H => Ty::I16,
        SIMDSizeCode::S => Ty::I32,
        SIMDSizeCode::D => Ty::I64,
        SIMDSizeCode::Q => Ty::I128,
    }
}

/// Type of a general purpose register of the given size.
pub fn get_type_by_sizecode(sz: SizeCode) -> (r: Ty)
    ensures
        r == sizecode_type(sz),
{
    match sz {
        SizeCode::W => Ty::I32,
        SizeCode::X => Ty::I64,
    }
}

/// Type of a SIMD register or element of the given size.
pub fn get_type_by_simd_sizecode(sz: SIMDSizeCode) -> (r: Ty)
    ensures
        r == simd_sizecode_type(sz),
{
    match sz {
        SIMDSizeCode::B => Ty::I8,
        SIMDSizeCode::H => Ty::I16,
        SIMDSizeCode::S => Ty::I32,
        SIMDSizeCode::D => Ty::I64,
        SIMDSizeCode::Q => Ty::I128,
    }
}

/// Whether an operand names a register whose size determines the type an instruction
/// operates on.
pub open spec fn is_typed_register(o: Operand) -> bool {
    o is Register || o is RegisterOrSP || o is RegisterPair || o is SIMDRegister
        || o is SIMDRegisterElements
}

/// Type of the register named by a typed register operand.
pub open spec fn operand_type(o: Operand) -> Ty {
    match o {
        Operand::Register(sz, _) => sizecode_type(sz),
        Operand::RegisterOrSP(sz, _) => sizecode_type(sz),
        Operand::RegisterPair(sz, _) => sizecode_type(sz),
        Operand::SIMDRegister(sz, _) => simd_sizecode_type(sz),
        Operand::SIMDRegisterElements(sz, _, _) => simd_sizecode_type(sz),
        _ => Ty::I64,
    }
}

/// Type an instruction operates on: that of its first operand.
pub open spec fn inst_type(inst: Instruction) -> Ty {
    operand_type(inst.operands@[0])
}

/// Type an instruction operates on, read from the register of its first operand.
pub fn get_type_by_inst(inst: Instruction) -> (r: Ty)
    requires
        is_typed_register(inst.operands@[0]),
    ensures
        r == inst_type(inst),
{
    match inst.operands[0] {
        Operand::Register(sz, _) => get_type_by_sizecode(sz),
        Operand::RegisterOrSP(sz, _) => get_type_by_sizecode(sz),
        Operand::RegisterPair(sz, _) => get_type_by_sizecode(sz),
        Operand::SIMDRegister(sz, _) => get_type_by_simd_sizecode(sz),
        Operand::SIMDRegisterElements(sz, _, _) => get_type_by_simd_sizecode(sz),
        _ => Ty::I64,
    }
}

/// Whether an operand is a general purpose register.
pub open spec fn is_general_purpose(o: Operand) -> bool {
    o is Register || o is RegisterOrSP
}

/// Whether an operand is a general purpose register.
pub fn is_operand_general_purpose(o: Operand) -> (r: bool)
    ensures
        r == is_general_purpose(o),
{
    match o {
        Operand::Register(..) | Operand::RegisterOrSP(..) => true,
        _ => false,
    }
}

} // verus!
