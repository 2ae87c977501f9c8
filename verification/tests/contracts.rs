//! Concrete cases of the library's contracts and laws: block names, jump targets, condition
//! codes, flag settings, errors, the heap of block starts and disassembly.

use aarch64_air_lifter::arm64::decode::{
    decode_all, decode_word, parse_instruction, Opcode, Operand, SIMDSizeCode, ShiftStyle,
    SizeCode,
};
use aarch64_air_lifter::arm64::lifter::flags::get_flag_name;
use aarch64_air_lifter::arm64::lifter::{Flag, LifterState};
use aarch64_air_lifter::arm64::helper::{
    get_block_name, get_pc_offset_as_int, get_type_by_sizecode, is_operand_general_purpose,
};
use aarch64_air_lifter::arm64::ir::{Builder, Ty};
use aarch64_air_lifter::arm64::{
    AArch64DisassemblerError, AArch64Lifter, AArch64LifterError, LabelResolver, UniqueHeap,
};
use aarch64_air_lifter::Lifter;
use target_lexicon::{Aarch64Architecture, Architecture};

/// `b` two words ahead, then two additions.
const BRANCH_AHEAD: [u8; 12] = [
    0x02, 0x00, 0x00, 0x14, // b 8
    0x41, 0x00, 0x03, 0x8B, // add x1, x2, x3
    0x41, 0x00, 0x03, 0x8B, // add x1, x2, x3
];

fn block_names(code: &[u8]) -> Vec<String> {
    let mut builder = Builder::new();
    let insts = decode_all(code).unwrap();
    let mut resolver = LabelResolver::new(code).unwrap();
    resolver.resolve(&insts, &mut builder).unwrap();
    builder
        .region
        .blocks
        .iter()
        .map(|b| b.name.iter().collect::<String>())
        .collect()
}

fn lifted_text(code: &[u8]) -> String {
    AArch64Lifter::new().lift(code, &[]).unwrap().display()
}

#[test]
fn block_names_are_entry_then_ascending_block_starts() {
    assert_eq!(block_names(&BRANCH_AHEAD), vec!["entry", "block_4", "block_8"]);
}

#[test]
fn block_names_without_branches() {
    let code = [0x41, 0x00, 0x03, 0x8B];
    assert_eq!(block_names(&code), vec!["entry"]);
}

#[test]
fn block_names_of_backward_branch() {
    let code = [
        0x41, 0x00, 0x03, 0x8B, // add x1, x2, x3
        0xFF, 0xFF, 0xFF, 0x17, // b -4
    ];
    assert_eq!(block_names(&code), vec!["entry", "block_0", "block_8"]);
}

#[test]
fn jump_target_has_a_block() {
    let text = lifted_text(&BRANCH_AHEAD);
    assert!(text.contains("  jump block_8\n  jump block_4\n\nblock_4: // preds: entry\n"));
    assert!(text.contains("block_8: // preds: block_4\n"));
}

#[test]
fn condition_hi_is_carry_and_not_zero() {
    let code = [0x08, 0x00, 0x00, 0x54]; // b.hi pc
    let text = lifted_text(&code);
    assert!(text.contains("v37 = i1.read_reg \"z\""));
    assert!(text.contains("v38 = i1.read_reg \"c\""));
    assert!(text.contains("v39 = i1.icmp.eq v38, 0x1"));
    assert!(text.contains("v40 = i1.icmp.ne v37, 0x1"));
    assert!(text.contains("v41 = i1.and v39, v40"));
    assert!(text.contains("jumpif v41, block_0, block_4"));
}

#[test]
fn condition_ge_compares_negative_and_overflow() {
    let code = [0x0A, 0x00, 0x00, 0x54]; // b.ge pc
    let text = lifted_text(&code);
    assert!(text.contains("v37 = i1.read_reg \"n\""));
    assert!(text.contains("v38 = i1.read_reg \"v\""));
    assert!(text.contains("v39 = i1.icmp.eq v37, v38"));
}

#[test]
fn adds_writes_flags_z_n_c_v_in_order() {
    let code = [0x20, 0x00, 0x02, 0xAB]; // adds x0, x1, x2
    let text = lifted_text(&code);
    let z = text.find("write_reg").and_then(|_| text.find(", \"z\"")).unwrap();
    let n = text.find(", \"n\"").unwrap();
    let c = text.find(", \"c\"").unwrap();
    let v = text.find(", \"v\"").unwrap();
    assert!(z < n && n < c && c < v);
    assert!(text.contains("i64.icmp.ugt"));
}

#[test]
fn undefined_encoding_is_a_decode_error() {
    let code = [0x00, 0x00, 0x00, 0x02];
    let r = AArch64Lifter::new().lift(&code, &[]);
    assert!(matches!(r, Err(AArch64LifterError::DecodeError(_))));
}

#[test]
fn write_to_register_31_is_a_custom_error() {
    let code = [0x1F, 0x00, 0x01, 0xEB]; // cmp x0, x1
    let r = AArch64Lifter::new().lift(&code, &[]);
    assert!(matches!(r, Err(AArch64LifterError::CustomError(_))));
}

#[test]
fn truncated_proofs_are_a_pcc_error() {
    let code = [0x41, 0x00, 0x03, 0x8B];
    let r = AArch64Lifter::new().lift(&code, &[0x80]);
    assert!(matches!(r, Err(AArch64LifterError::Pcc(_))));
}

#[test]
fn empty_code_lifts_to_the_entry_block_alone() {
    let region = AArch64Lifter::new().lift(&[], &[]).unwrap();
    assert_eq!(region.blocks.len(), 1);
    assert!(region.display().contains("entry("));
}

#[test]
fn trailing_partial_word_is_ignored() {
    let code = [0x41, 0x00, 0x03, 0x8B, 0x00, 0x00];
    assert!(AArch64Lifter::new().lift(&code, &[]).is_ok());
}

#[test]
fn architecture_is_aarch64() {
    assert_eq!(
        AArch64Lifter::arch(),
        Architecture::Aarch64(Aarch64Architecture::Aarch64)
    );
}

#[test]
fn disassembly_prints_address_and_text() {
    let code = [
        0x41, 0x00, 0x03, 0x8B, // add x1, x2, x3
        0x02, 0x00, 0x00, 0x14, // b 8
    ];
    let (text, r) = AArch64Lifter::new().disassemble(&code);
    assert!(r.is_ok());
    let lines: Vec<&str> = text.lines().collect();
    assert_eq!(lines.len(), 2);
    assert_eq!(lines[0], "0x0000:\tadd x1, x2, x3");
    assert!(lines[1].starts_with("0x0004:\tb "));
}

#[test]
fn disassembly_rejects_undefined_encoding() {
    let code = [0x00, 0x00, 0x00, 0x02];
    let (text, r) = AArch64Lifter::new().disassemble(&code);
    assert!(matches!(r, Err(AArch64DisassemblerError::DecodeError(_))));
    assert_eq!(text, "");
}

#[test]
fn disassembly_keeps_lines_before_rejected_word() {
    let code = [
        0x41, 0x00, 0x03, 0x8B, // add x1, x2, x3
        0x00, 0x00, 0x00, 0x02, // undefined
        0x41, 0x00, 0x03, 0x8B, // add x1, x2, x3
    ];
    let (text, r) = AArch64Lifter::new().disassemble(&code);
    assert!(matches!(r, Err(AArch64DisassemblerError::DecodeError(_))));
    assert_eq!(text, "0x0000:\tadd x1, x2, x3\n");
}

#[test]
fn heap_pops_in_descending_order_once_each() {
    let mut h = UniqueHeap::new();
    assert!(h.is_empty());
    h.push(3);
    h.push(1);
    h.push(3);
    h.push(2);
    assert!(!h.is_empty());
    assert_eq!(h.pop(), Some(3));
    assert_eq!(h.pop(), Some(2));
    assert_eq!(h.pop(), Some(1));
    assert_eq!(h.pop(), None);
    assert!(h.is_empty());
}

#[test]
fn block_name_is_decimal_address() {
    assert_eq!(get_block_name(0), "block_0");
    assert_eq!(get_block_name(1234), "block_1234");
}

#[test]
fn helpers_on_operands() {
    assert_eq!(get_pc_offset_as_int(Operand::PCOffset(-8)), -8);
    assert_eq!(get_type_by_sizecode(SizeCode::W), Ty::I32);
    assert_eq!(get_type_by_sizecode(SizeCode::X), Ty::I64);
    assert!(is_operand_general_purpose(Operand::Register(SizeCode::X, 3)));
    assert!(!is_operand_general_purpose(Operand::PCOffset(4)));
}

#[test]
fn label_resolver_get_block_after_resolve() {
    let mut builder = Builder::new();
    let insts = decode_all(&BRANCH_AHEAD).unwrap();
    let mut resolver = LabelResolver::new(&BRANCH_AHEAD).unwrap();
    resolver.resolve(&insts, &mut builder).unwrap();
    assert_eq!(resolver.get_block(4), Some(1));
    assert_eq!(resolver.get_block(8), Some(2));
    assert_eq!(resolver.get_block(0), None);
}

#[test]
fn flag_names() {
    assert_eq!(get_flag_name(Flag::N), "n");
    assert_eq!(get_flag_name(Flag::Z), "z");
    assert_eq!(get_flag_name(Flag::C), "c");
    assert_eq!(get_flag_name(Flag::V), "v");
}

#[test]
fn simd_registers_are_recognised() {
    assert!(LifterState::is_simd_register(Operand::SIMDRegister(SIMDSizeCode::Q, 0)));
    assert!(!LifterState::is_simd_register(Operand::Register(SizeCode::X, 0)));
}

#[test]
fn debug_rendering_reads_back() {
    let text: Vec<char> =
        "Instruction { opcode: ADD, operands: [Register(X, 1), Register(X, 2), RegShift(LSL, 0, X, 3), Nothing] }"
            .chars()
            .collect();
    let inst = parse_instruction(&text).unwrap();
    assert_eq!(inst.opcode, Opcode::ADD);
    assert_eq!(inst.operands[0], Operand::Register(SizeCode::X, 1));
    assert_eq!(inst.operands[2], Operand::RegShift(ShiftStyle::LSL, 0, SizeCode::X, 3));
    assert_eq!(inst.operands[3], Operand::Nothing);
}

#[test]
fn debug_rendering_with_payload_reads_back() {
    let text: Vec<char> =
        "Instruction { opcode: Bcc(8), operands: [PCOffset(-4), Nothing, Nothing, Nothing] }"
            .chars()
            .collect();
    let inst = parse_instruction(&text).unwrap();
    assert_eq!(inst.opcode, Opcode::Bcc(8));
    assert_eq!(inst.operands[0], Operand::PCOffset(-4));
}

#[test]
fn malformed_rendering_is_refused() {
    let text: Vec<char> = "Instruction { opcode: ADD, operands: [".chars().collect();
    assert!(parse_instruction(&text).is_none());
}

#[test]
fn word_decodes_to_instruction_and_text() {
    let (inst, text) = decode_word(&[0x41, 0x00, 0x03, 0x8B]).unwrap();
    assert_eq!(text, "add x1, x2, x3");
    assert_eq!(inst.opcode, Opcode::ADD);
    assert_eq!(inst.operands[0], Operand::Register(SizeCode::X, 1));
}

#[test]
fn equal_renderings_give_equal_instructions() {
    let text: Vec<char> =
        "Instruction { opcode: SUBS, operands: [Register(W, 31), Register(W, 0), Immediate(1), Nothing] }"
            .chars()
            .collect();
    let a = parse_instruction(&text).unwrap();
    let b = parse_instruction(&text.clone()).unwrap();
    assert_eq!(a.opcode, b.opcode);
    assert_eq!(a.operands, b.operands);
    assert_eq!(a.operands[2], Operand::Immediate(1));
}

#[test]
fn add_writes_sum_of_register_operands() {
    let text = lifted_text(&[0x41, 0x00, 0x03, 0x8B]); // add x1, x2, x3
    assert!(text.contains(
        "  v37 = i64.read_reg \"x2\"\n  v38 = i64.read_reg \"x3\"\n  v39 = i64.add v37, v38\n  i64.write_reg v39, \"x1\"\n"
    ));
}

#[test]
fn sub_writes_difference_with_immediate() {
    let text = lifted_text(&[0x20, 0x04, 0x00, 0x51]); // sub w0, w1, #1
    assert!(text.contains(
        "  v37 = i32.read_reg \"x1\"\n  v38 = i32.sub v37, 0x1\n  i32.write_reg v38, \"x0\"\n"
    ), "{}", text);
}

#[test]
fn and_writes_bitwise_and_of_operands() {
    let text = lifted_text(&[0x20, 0x00, 0x02, 0x8A]); // and x0, x1, x2
    assert!(text.contains(
        "  v37 = i64.read_reg \"x1\"\n  v38 = i64.read_reg \"x2\"\n  v39 = i64.and v37, v38\n  i64.write_reg v39, \"x0\"\n"
    ), "{}", text);
}

#[test]
fn condition_of_a_non_condition_operand_is_refused() {
    let mut state = LifterState::new(&Vec::new()).unwrap();
    match state.get_condition(Operand::Register(SizeCode::X, 0)) {
        Err(AArch64LifterError::CustomError(m)) => {
            assert_eq!(m, "Invalid operand for condition code")
        }
        _ => panic!("expected an error"),
    }
    match state.get_condition(Operand::ConditionCode(16)) {
        Err(AArch64LifterError::CustomError(m)) => {
            assert_eq!(m, "Invalid operand for condition code")
        }
        _ => panic!("expected an error"),
    }
    assert!(state.get_condition(Operand::ConditionCode(0)).is_ok());
}

#[test]
fn ccmp_sets_flags_from_immediate_bits() {
    let text = lifted_text(&[0x05, 0x00, 0x41, 0xFA]); // ccmp x0, x1, #0x5, eq
    assert!(text.contains(
        "  v54 = i64.and 0x8, 0x5\n  v55 = i64.icmp.ne 0x0, v54\n  i1.write_reg v55, \"n\"\n  v56 = i64.and 0x4, 0x5\n  v57 = i64.icmp.ne 0x0, v56\n  i1.write_reg v57, \"z\"\n  v58 = i64.and 0x2, 0x5\n  v59 = i64.icmp.ne 0x0, v58\n  i1.write_reg v59, \"c\"\n  v60 = i64.and 0x1, 0x5\n  v61 = i64.icmp.ne 0x0, v60\n  i1.write_reg v61, \"v\"\n"
    ), "{}", text);
}

#[test]
fn adrp_clears_low_twelve_bits_of_pc() {
    let text = lifted_text(&[0x00, 0x00, 0x00, 0xB0]); // adrp x0, pc+4096
    assert!(text.contains(
        "  v37 = i64.not 0xfff\n  v38 = i64.read_reg \"pc\"\n  v39 = i64.and v38, v37\n  v40 = i64.add v39, 0x1000\n  i64.write_reg v40, \"x0\"\n"
    ), "{}", text);
}

#[test]
fn unnamed_operation_keeps_its_operands() {
    let (inst, text) = decode_word(&[0x20, 0x40, 0xC2, 0x1A]).unwrap(); // crc32b w0, w1, w2
    assert_eq!(text, "crc32b w0, w1, w2");
    assert_eq!(inst.opcode, Opcode::Other);
    assert_eq!(inst.operands[0], Operand::Register(SizeCode::W, 0));
    assert_eq!(inst.operands[1], Operand::Register(SizeCode::W, 1));
    assert_eq!(inst.operands[2], Operand::Register(SizeCode::W, 2));
    assert_eq!(inst.operands[3], Operand::Nothing);
}

#[test]
fn unnamed_operation_writes_opaque_value_to_destination() {
    let text = lifted_text(&[0x20, 0x40, 0xC2, 0x1A]); // crc32b w0, w1, w2
    assert!(text.contains("i32.write_reg v37, \"x0\""), "{}", text);
}
