//! The decoder's `Debug` rendering tells instructions apart: two instructions whose parts are
//! all kept and that render alike are the same instruction.

use crate::arm64::decode::{
    bool_text, has_form, instruction_text, is_word_char, known_instruction, known_opcode, known_operand,
    lemma_instruction_layout, lemma_operands_from, lemma_separators, opcode_name, opcode_text,
    operand_text, operands_from, Instruction, Opcode, render_args, render_item, shift_style_name,
    signed_decimal, simd_size_name, size_code_name, Operand, ShiftStyle, SIMDSizeCode, SizeCode,
};
use crate::arm64::ir::decimal;
use crate::arm64::rendering::{
    is_token, item_ok, lemma_decimal_token, lemma_opcode_item_ok, lemma_operand_item_ok,
    lemma_operand_names, lemma_render_args_head,
    lemma_signed_decimal_token, opcode_args, operand_args, operand_name,
};
use vstd::prelude::*;

verus! {

/// `x` is empty or starts with a character that can neither continue a name nor open an
/// argument list.
pub open spec fn delimited(x: Seq<char>) -> bool {
    x.len() == 0 || (!is_word_char(x[0]) && x[0] != '(')
}

/// Where the first token of one list and the first token of another stand at the start of the
/// same text, each followed by `,` or `)`, they are the same token.
proof fn lemma_token_unique(t1: Seq<char>, u: Seq<char>, t2: Seq<char>, v: Seq<char>)
    requires
        is_token(t1),
        is_token(t2),
        t1 + u == t2 + v,
        u.len() > 0 && (u[0] == ',' || u[0] == ')'),
        v.len() > 0 && (v[0] == ',' || v[0] == ')'),
    ensures
        t1 == t2,
        u == v,
{
    let s = t1 + u;
    if t1.len() < t2.len() {
        assert(s[t1.len() as int] == u[0]);
        assert(s[t1.len() as int] == t2[t1.len() as int]);
    }
    if t2.len() < t1.len() {
        assert(s[t2.len() as int] == v[0]);
        assert(s[t2.len() as int] == t1[t2.len() as int]);
    }
    assert(t1 =~= s.subrange(0, t1.len() as int));
    assert(t2 =~= s.subrange(0, t2.len() as int));
    assert(u =~= s.skip(t1.len() as int));
    assert(v =~= s.skip(t2.len() as int));
}

/// Two lists of tokens that render alike before a closing parenthesis are the same list.
proof fn lemma_args_unique(a1: Seq<Seq<char>>, u: Seq<char>, a2: Seq<Seq<char>>, v: Seq<char>)
    requires
        a1.len() > 0,
        a2.len() > 0,
        forall|j: int| 0 <= j < a1.len() ==> is_token(#[trigger] a1[j]),
        forall|j: int| 0 <= j < a2.len() ==> is_token(#[trigger] a2[j]),
        render_args(a1) + u == render_args(a2) + v,
        u.len() > 0 && u[0] == ')',
        v.len() > 0 && v[0] == ')',
    ensures
        a1 == a2,
        u == v,
    decreases a1.len(),
{
    reveal_strlit(", ");
    lemma_render_args_head(a1);
    lemma_render_args_head(a2);
    assert(is_token(a1[0]));
    assert(is_token(a2[0]));
    let r1 = if a1.len() == 1 {
        u
    } else {
        ", "@ + render_args(a1.drop_first()) + u
    };
    let r2 = if a2.len() == 1 {
        v
    } else {
        ", "@ + render_args(a2.drop_first()) + v
    };
    assert(render_args(a1) + u =~= a1[0] + r1);
    assert(render_args(a2) + v =~= a2[0] + r2);
    lemma_token_unique(a1[0], r1, a2[0], r2);
    if a1.len() == 1 && a2.len() > 1 {
        assert(r1[0] == ')');
        assert(r2[0] == ',');
    } else if a1.len() > 1 && a2.len() == 1 {
        assert(r1[0] == ',');
        assert(r2[0] == ')');
    } else if a1.len() > 1 {
        let d1 = a1.drop_first();
        let d2 = a2.drop_first();
        assert(r1.skip(2) =~= render_args(d1) + u);
        assert(r2.skip(2) =~= render_args(d2) + v);
        lemma_args_unique(d1, u, d2, v);
        assert(a1 =~= seq![a1[0]] + d1);
        assert(a2 =~= seq![a2[0]] + d2);
    } else {
        assert(a1 =~= seq![a1[0]]);
        assert(a2 =~= seq![a2[0]]);
    }
}

/// Two items that render alike, each followed by a delimiter or nothing, have the same name and
/// the same arguments.
pub proof fn lemma_item_unique(
    n1: Seq<char>,
    a1: Seq<Seq<char>>,
    x: Seq<char>,
    n2: Seq<char>,
    a2: Seq<Seq<char>>,
    y: Seq<char>,
)
    requires
        item_ok(n1, a1),
        item_ok(n2, a2),
        render_item(n1, a1) + x == render_item(n2, a2) + y,
        delimited(x),
        delimited(y),
    ensures
        n1 == n2,
        a1 == a2,
        x == y,
{
    let s = render_item(n1, a1) + x;
    let l1 = n1.len() as int;
    let l2 = n2.len() as int;
    let r1 = if a1.len() == 0 {
        x
    } else {
        seq!['('] + render_args(a1) + seq![')'] + x
    };
    let r2 = if a2.len() == 0 {
        y
    } else {
        seq!['('] + render_args(a2) + seq![')'] + y
    };
    assert(s =~= n1 + r1);
    assert(s =~= n2 + r2);
    if a1.len() > 0 {
        assert(r1[0] == '(');
    }
    if a2.len() > 0 {
        assert(r2[0] == '(');
    }
    assert(r1.len() == 0 || !is_word_char(r1[0]));
    assert(r2.len() == 0 || !is_word_char(r2[0]));
    if l1 < l2 {
        assert(s[l1] == n2[l1]);
        if r1.len() > 0 {
            assert(s[l1] == r1[0]);
        }
    }
    if l2 < l1 {
        assert(s[l2] == n1[l2]);
        if r2.len() > 0 {
            assert(s[l2] == r2[0]);
        }
    }
    assert(n1 =~= s.subrange(0, l1));
    assert(n2 =~= s.subrange(0, l2));
    assert(r1 =~= s.skip(l1));
    assert(r2 =~= s.skip(l2));
    if a1.len() == 0 && a2.len() > 0 {
        assert(r2[0] == '(');
    } else if a1.len() > 0 && a2.len() == 0 {
        assert(r1[0] == '(');
    } else if a1.len() > 0 {
        assert(r1.skip(1) =~= render_args(a1) + (seq![')'] + x));
        assert(r2.skip(1) =~= render_args(a2) + (seq![')'] + y));
        lemma_args_unique(a1, seq![')'] + x, a2, seq![')'] + y);
        assert(x =~= (seq![')'] + x).skip(1));
        assert(y =~= (seq![')'] + y).skip(1));
    } else {
        assert(a1 =~= a2);
    }
}

/// Different values render differently.
proof fn lemma_size_code_unique(a: SizeCode, b: SizeCode)
    requires
        size_code_name(a) == size_code_name(b),
    ensures
        a == b,
{
    reveal_strlit("X");
    reveal_strlit("W");
    assert("X"@.len() == 1);
    assert("W"@.len() == 1);
    assert("X"@[0] != "W"@[0]);
}

/// Different values render differently.
proof fn lemma_simd_size_unique(a: SIMDSizeCode, b: SIMDSizeCode)
    requires
        simd_size_name(a) == simd_size_name(b),
    ensures
        a == b,
{
    reveal_strlit("B");
    reveal_strlit("H");
    reveal_strlit("S");
    reveal_strlit("D");
    reveal_strlit("Q");
    assert("B"@.len() == 1);
    assert("H"@.len() == 1);
    assert("S"@.len() == 1);
    assert("D"@.len() == 1);
    assert("Q"@.len() == 1);
    assert("B"@[0] != "H"@[0]);
    assert("B"@[0] != "S"@[0]);
    assert("B"@[0] != "D"@[0]);
    assert("B"@[0] != "Q"@[0]);
    assert("H"@[0] != "S"@[0]);
    assert("H"@[0] != "D"@[0]);
    assert("H"@[0] != "Q"@[0]);
    assert("S"@[0] != "D"@[0]);
    assert("S"@[0] != "Q"@[0]);
    assert("D"@[0] != "Q"@[0]);
}

/// Different values render differently.
proof fn lemma_shift_style_unique(a: ShiftStyle, b: ShiftStyle)
    requires
        shift_style_name(a) == shift_style_name(b),
    ensures
        a == b,
{
    reveal_strlit("LSL");
    reveal_strlit("LSR");
    reveal_strlit("ASR");
    reveal_strlit("ROR");
    reveal_strlit("UXTB");
    reveal_strlit("UXTH");
    reveal_strlit("UXTW");
    reveal_strlit("UXTX");
    reveal_strlit("SXTB");
    reveal_strlit("SXTH");
    reveal_strlit("SXTW");
    reveal_strlit("SXTX");
    assert("LSL"@.len() == 3);
    assert("LSR"@.len() == 3);
    assert("ASR"@.len() == 3);
    assert("ROR"@.len() == 3);
    assert("UXTB"@.len() == 4);
    assert("UXTH"@.len() == 4);
    assert("UXTW"@.len() == 4);
    assert("UXTX"@.len() == 4);
    assert("SXTB"@.len() == 4);
    assert("SXTH"@.len() == 4);
    assert("SXTW"@.len() == 4);
    assert("SXTX"@.len() == 4);
    assert("LSL"@[2] != "LSR"@[2]);
    assert("LSL"@[0] != "ASR"@[0]);
    assert("LSL"@[0] != "ROR"@[0]);
    assert("LSR"@[0] != "ASR"@[0]);
    assert("LSR"@[0] != "ROR"@[0]);
    assert("ASR"@[0] != "ROR"@[0]);
    assert("UXTB"@[3] != "UXTH"@[3]);
    assert("UXTB"@[3] != "UXTW"@[3]);
    assert("UXTB"@[3] != "UXTX"@[3]);
    assert("UXTB"@[0] != "SXTB"@[0]);
    assert("UXTB"@[0] != "SXTH"@[0]);
    assert("UXTB"@[0] != "SXTW"@[0]);
    assert("UXTB"@[0] != "SXTX"@[0]);
    assert("UXTH"@[3] != "UXTW"@[3]);
    assert("UXTH"@[3] != "UXTX"@[3]);
    assert("UXTH"@[0] != "SXTB"@[0]);
    assert("UXTH"@[0] != "SXTH"@[0]);
    assert("UXTH"@[0] != "SXTW"@[0]);
    assert("UXTH"@[0] != "SXTX"@[0]);
    assert("UXTW"@[3] != "UXTX"@[3]);
    assert("UXTW"@[0] != "SXTB"@[0]);
    assert("UXTW"@[0] != "SXTH"@[0]);
    assert("UXTW"@[0] != "SXTW"@[0]);
    assert("UXTW"@[0] != "SXTX"@[0]);
    assert("UXTX"@[0] != "SXTB"@[0]);
    assert("UXTX"@[0] != "SXTH"@[0]);
    assert("UXTX"@[0] != "SXTW"@[0]);
    assert("UXTX"@[0] != "SXTX"@[0]);
    assert("SXTB"@[3] != "SXTH"@[3]);
    assert("SXTB"@[3] != "SXTW"@[3]);
    assert("SXTB"@[3] != "SXTX"@[3]);
    assert("SXTH"@[3] != "SXTW"@[3]);
    assert("SXTH"@[3] != "SXTX"@[3]);
    assert("SXTW"@[3] != "SXTX"@[3]);
}

/// Different values render differently.
proof fn lemma_bool_unique(a: bool, b: bool)
    requires
        bool_text(a) == bool_text(b),
    ensures
        a == b,
{
    reveal_strlit("true");
    reveal_strlit("false");
    assert("true"@.len() == 4);
    assert("false"@.len() == 5);
}

/// Different numbers have different decimal numerals.
proof fn lemma_decimal_unique(a: nat, b: nat)
    requires
        decimal(a) == decimal(b),
    ensures
        a == b,
{
    lemma_decimal_token(a);
    lemma_decimal_token(b);
}

/// Different numbers have different signed decimal numerals.
proof fn lemma_signed_decimal_unique(a: int, b: int)
    requires
        signed_decimal(a) == signed_decimal(b),
    ensures
        a == b,
{
    lemma_signed_decimal_token(a);
    lemma_signed_decimal_token(b);
}

/// Two known operands with the same name and the same argument tokens are the same operand.
pub proof fn lemma_operand_unique(o1: Operand, o2: Operand)
    requires
        known_operand(o1),
        known_operand(o2),
        operand_name(o1) == operand_name(o2),
        operand_args(o1) == operand_args(o2),
    ensures
        o1 == o2,
{
    lemma_operand_names(o1);
    lemma_operand_names(o2);
    match o1 {
        Operand::Nothing => {},
        Operand::Register(a0, a1) => match o2 {
            Operand::Register(b0, b1) => {
                assert(operand_args(o1)[0] == operand_args(o2)[0]);
                lemma_size_code_unique(a0, b0);
                assert(operand_args(o1)[1] == operand_args(o2)[1]);
                lemma_decimal_unique(a1 as nat, b1 as nat);
            },
            _ => {},
        },
        Operand::RegisterPair(a0, a1) => match o2 {
            Operand::RegisterPair(b0, b1) => {
                assert(operand_args(o1)[0] == operand_args(o2)[0]);
                lemma_size_code_unique(a0, b0);
                assert(operand_args(o1)[1] == operand_args(o2)[1]);
                lemma_decimal_unique(a1 as nat, b1 as nat);
            },
            _ => {},
        },
        Operand::SIMDRegister(a0, a1) => match o2 {
            Operand::SIMDRegister(b0, b1) => {
                assert(operand_args(o1)[0] == operand_args(o2)[0]);
                lemma_simd_size_unique(a0, b0);
                assert(operand_args(o1)[1] == operand_args(o2)[1]);
                lemma_decimal_unique(a1 as nat, b1 as nat);
            },
            _ => {},
        },
        Operand::SIMDRegisterElements(a0, a1, a2) => match o2 {
            Operand::SIMDRegisterElements(b0, b1, b2) => {
                assert(operand_args(o1)[0] == operand_args(o2)[0]);
                lemma_simd_size_unique(a0, b0);
                assert(operand_args(o1)[1] == operand_args(o2)[1]);
                lemma_decimal_unique(a1 as nat, b1 as nat);
                assert(operand_args(o1)[2] == operand_args(o2)[2]);
                lemma_simd_size_unique(a2, b2);
            },
            _ => {},
        },
        Operand::SIMDRegisterElementsLane(a0, a1, a2, a3) => match o2 {
            Operand::SIMDRegisterElementsLane(b0, b1, b2, b3) => {
                assert(operand_args(o1)[0] == operand_args(o2)[0]);
                lemma_simd_size_unique(a0, b0);
                assert(operand_args(o1)[1] == operand_args(o2)[1]);
                lemma_decimal_unique(a1 as nat, b1 as nat);
                assert(operand_args(o1)[2] == operand_args(o2)[2]);
                lemma_simd_size_unique(a2, b2);
                assert(operand_args(o1)[3] == operand_args(o2)[3]);
                lemma_decimal_unique(a3 as nat, b3 as nat);
            },
            _ => {},
        },
        Operand::SIMDRegisterElementsMultipleLane(a0, a1, a2, a3, a4) => match o2 {
            Operand::SIMDRegisterElementsMultipleLane(b0, b1, b2, b3, b4) => {
                assert(operand_args(o1)[0] == operand_args(o2)[0]);
                lemma_simd_size_unique(a0, b0);
                assert(operand_args(o1)[1] == operand_args(o2)[1]);
                lemma_decimal_unique(a1 as nat, b1 as nat);
                assert(operand_args(o1)[2] == operand_args(o2)[2]);
                lemma_simd_size_unique(a2, b2);
                assert(operand_args(o1)[3] == operand_args(o2)[3]);
                lemma_decimal_unique(a3 as nat, b3 as nat);
                assert(operand_args(o1)[4] == operand_args(o2)[4]);
                lemma_decimal_unique(a4 as nat, b4 as nat);
            },
            _ => {},
        },
        Operand::SIMDRegisterGroup(a0, a1, a2, a3) => match o2 {
            Operand::SIMDRegisterGroup(b0, b1, b2, b3) => {
                assert(operand_args(o1)[0] == operand_args(o2)[0]);
                lemma_simd_size_unique(a0, b0);
                assert(operand_args(o1)[1] == operand_args(o2)[1]);
                lemma_decimal_unique(a1 as nat, b1 as nat);
                assert(operand_args(o1)[2] == operand_args(o2)[2]);
                lemma_simd_size_unique(a2, b2);
                assert(operand_args(o1)[3] == operand_args(o2)[3]);
                lemma_decimal_unique(a3 as nat, b3 as nat);
            },
            _ => {},
        },
        Operand::SIMDRegisterGroupLane(a0, a1, a2, a3) => match o2 {
            Operand::SIMDRegisterGroupLane(b0, b1, b2, b3) => {
                assert(operand_args(o1)[0] == operand_args(o2)[0]);
                lemma_decimal_unique(a0 as nat, b0 as nat);
                assert(operand_args(o1)[1] == operand_args(o2)[1]);
                lemma_simd_size_unique(a1, b1);
                assert(operand_args(o1)[2] == operand_args(o2)[2]);
                lemma_decimal_unique(a2 as nat, b2 as nat);
                assert(operand_args(o1)[3] == operand_args(o2)[3]);
                lemma_decimal_unique(a3 as nat, b3 as nat);
            },
            _ => {},
        },
        Operand::RegisterOrSP(a0, a1) => match o2 {
            Operand::RegisterOrSP(b0, b1) => {
                assert(operand_args(o1)[0] == operand_args(o2)[0]);
                lemma_size_code_unique(a0, b0);
                assert(operand_args(o1)[1] == operand_args(o2)[1]);
                lemma_decimal_unique(a1 as nat, b1 as nat);
            },
            _ => {},
        },
        Operand::ConditionCode(a0) => match o2 {
            Operand::ConditionCode(b0) => {
                assert(operand_args(o1)[0] == operand_args(o2)[0]);
                lemma_decimal_unique(a0 as nat, b0 as nat);
            },
            _ => {},
        },
        Operand::PCOffset(a0) => match o2 {
            Operand::PCOffset(b0) => {
                assert(operand_args(o1)[0] == operand_args(o2)[0]);
                lemma_signed_decimal_unique(a0 as int, b0 as int);
            },
            _ => {},
        },
        Operand::Immediate(a0) => match o2 {
            Operand::Immediate(b0) => {
                assert(operand_args(o1)[0] == operand_args(o2)[0]);
                lemma_decimal_unique(a0 as nat, b0 as nat);
            },
            _ => {},
        },
        Operand::Imm64(a0) => match o2 {
            Operand::Imm64(b0) => {
                assert(operand_args(o1)[0] == operand_args(o2)[0]);
                lemma_decimal_unique(a0 as nat, b0 as nat);
            },
            _ => {},
        },
        Operand::Imm16(a0) => match o2 {
            Operand::Imm16(b0) => {
                assert(operand_args(o1)[0] == operand_args(o2)[0]);
                lemma_decimal_unique(a0 as nat, b0 as nat);
            },
            _ => {},
        },
        Operand::ImmShift(a0, a1) => match o2 {
            Operand::ImmShift(b0, b1) => {
                assert(operand_args(o1)[0] == operand_args(o2)[0]);
                lemma_decimal_unique(a0 as nat, b0 as nat);
                assert(operand_args(o1)[1] == operand_args(o2)[1]);
                lemma_decimal_unique(a1 as nat, b1 as nat);
            },
            _ => {},
        },
        Operand::ImmShiftMSL(a0, a1) => match o2 {
            Operand::ImmShiftMSL(b0, b1) => {
                assert(operand_args(o1)[0] == operand_args(o2)[0]);
                lemma_decimal_unique(a0 as nat, b0 as nat);
                assert(operand_args(o1)[1] == operand_args(o2)[1]);
                lemma_decimal_unique(a1 as nat, b1 as nat);
            },
            _ => {},
        },
        Operand::RegShift(a0, a1, a2, a3) => match o2 {
            Operand::RegShift(b0, b1, b2, b3) => {
                assert(operand_args(o1)[0] == operand_args(o2)[0]);
                lemma_shift_style_unique(a0, b0);
                assert(operand_args(o1)[1] == operand_args(o2)[1]);
                lemma_decimal_unique(a1 as nat, b1 as nat);
                assert(operand_args(o1)[2] == operand_args(o2)[2]);
                lemma_size_code_unique(a2, b2);
                assert(operand_args(o1)[3] == operand_args(o2)[3]);
                lemma_decimal_unique(a3 as nat, b3 as nat);
            },
            _ => {},
        },
        Operand::RegRegOffset(a0, a1, a2, a3, a4) => match o2 {
            Operand::RegRegOffset(b0, b1, b2, b3, b4) => {
                assert(operand_args(o1)[0] == operand_args(o2)[0]);
                lemma_decimal_unique(a0 as nat, b0 as nat);
                assert(operand_args(o1)[1] == operand_args(o2)[1]);
                lemma_decimal_unique(a1 as nat, b1 as nat);
                assert(operand_args(o1)[2] == operand_args(o2)[2]);
                lemma_size_code_unique(a2, b2);
                assert(operand_args(o1)[3] == operand_args(o2)[3]);
                lemma_shift_style_unique(a3, b3);
                assert(operand_args(o1)[4] == operand_args(o2)[4]);
                lemma_decimal_unique(a4 as nat, b4 as nat);
            },
            _ => {},
        },
        Operand::RegPreIndex(a0, a1, a2) => match o2 {
            Operand::RegPreIndex(b0, b1, b2) => {
                assert(operand_args(o1)[0] == operand_args(o2)[0]);
                lemma_decimal_unique(a0 as nat, b0 as nat);
                assert(operand_args(o1)[1] == operand_args(o2)[1]);
                lemma_signed_decimal_unique(a1 as int, b1 as int);
                assert(operand_args(o1)[2] == operand_args(o2)[2]);
                lemma_bool_unique(a2, b2);
            },
            _ => {},
        },
        Operand::RegPostIndex(a0, a1) => match o2 {
            Operand::RegPostIndex(b0, b1) => {
                assert(operand_args(o1)[0] == operand_args(o2)[0]);
                lemma_decimal_unique(a0 as nat, b0 as nat);
                assert(operand_args(o1)[1] == operand_args(o2)[1]);
                lemma_signed_decimal_unique(a1 as int, b1 as int);
            },
            _ => {},
        },
        Operand::RegPostIndexReg(a0, a1) => match o2 {
            Operand::RegPostIndexReg(b0, b1) => {
                assert(operand_args(o1)[0] == operand_args(o2)[0]);
                lemma_decimal_unique(a0 as nat, b0 as nat);
                assert(operand_args(o1)[1] == operand_args(o2)[1]);
                lemma_decimal_unique(a1 as nat, b1 as nat);
            },
            _ => {},
        },
        Operand::PrefetchOp(a0) => match o2 {
            Operand::PrefetchOp(b0) => {
                assert(operand_args(o1)[0] == operand_args(o2)[0]);
                lemma_decimal_unique(a0 as nat, b0 as nat);
            },
            _ => {},
        },
        Operand::SystemReg(a0) => match o2 {
            Operand::SystemReg(b0) => {
                assert(operand_args(o1)[0] == operand_args(o2)[0]);
                lemma_decimal_unique(a0 as nat, b0 as nat);
            },
            _ => {},
        },
        Operand::ControlReg(a0) => match o2 {
            Operand::ControlReg(b0) => {
                assert(operand_args(o1)[0] == operand_args(o2)[0]);
                lemma_decimal_unique(a0 as nat, b0 as nat);
            },
            _ => {},
        },
        Operand::PstateField(a0) => match o2 {
            Operand::PstateField(b0) => {
                assert(operand_args(o1)[0] == operand_args(o2)[0]);
                lemma_decimal_unique(a0 as nat, b0 as nat);
            },
            _ => {},
        },
        _ => {},
    }
}

/// The characters of `n` before position `k` read as a number in base 128.
spec fn name_code_upto(n: Seq<char>, k: int) -> int
    decreases k,
{
    if k <= 0 {
        0
    } else {
        name_code_upto(n, k - 1) * 128 + (n[k - 1] as int)
    }
}

/// A name read as a number in base 128.
spec fn name_code(n: Seq<char>) -> int {
    name_code_upto(n, n.len() as int)
}

/// An operation with its payload, if any, set to zero.
spec fn canonical(o: Opcode) -> Opcode {
    match o {
        Opcode::Bcc(_) => Opcode::Bcc(0),
        Opcode::CAS(_) => Opcode::CAS(0),
        _ => o,
    }
}

/// The operation whose name reads as `c` in base 128, its payload set to zero.
spec fn opcode_of_code(c: int) -> Opcode {
    if c == 1073731 {
        Opcode::ADC
    } else if c == 137437651 {
        Opcode::ADCS
    } else if c == 1073732 {
        Opcode::ADD
    } else if c == 137437779 {
        Opcode::ADDS
    } else if c == 1073746 {
        Opcode::ADR
    } else if c == 137439568 {
        Opcode::ADRP
    } else if c == 1075012 {
        Opcode::AND
    } else if c == 137601619 {
        Opcode::ANDS
    } else if c == 137685334 {
        Opcode::ASRV
    } else if c == 66 {
        Opcode::B
    } else if c == 8524 {
        Opcode::BL
    } else if c == 1090381 {
        Opcode::BFM
    } else if c == 1090755 {
        Opcode::BIC
    } else if c == 1091154 {
        Opcode::BLR
    } else if c == 8530 {
        Opcode::BR
    } else if c == 141600602 {
        Opcode::CBNZ
    } else if c == 1106266 {
        Opcode::CBZ
    } else if c == 141616846 {
        Opcode::CCMN
    } else if c == 141616848 {
        Opcode::CCMP
    } else if c == 1107539 {
        Opcode::CLS
    } else if c == 1107546 {
        Opcode::CLZ
    } else if c == 141877964 {
        Opcode::CSEL
    } else if c == 18160445251 {
        Opcode::CSINC
    } else if c == 18160445270 {
        Opcode::CSINV
    } else if c == 18160526023 {
        Opcode::CSNEG
    } else if c == 1140686 {
        Opcode::EON
    } else if c == 1140690 {
        Opcode::EOR
    } else if c == 146156114 {
        Opcode::EXTR
    } else if c == 152201044 {
        Opcode::HINT
    } else if c == 1190723 {
        Opcode::HVC
    } else if c == 1253968 {
        Opcode::LDP
    } else if c == 160509008 {
        Opcode::LDXP
    } else if c == 20545022423 {
        Opcode::LDPSW
    } else if c == 1253970 {
        Opcode::LDR
    } else if c == 160508626 {
        Opcode::LDUR
    } else if c == 160506066 {
        Opcode::LDAR
    } else if c == 160509010 {
        Opcode::LDXR
    } else if c == 20544777298 {
        Opcode::LDAXR
    } else if c == 160508498 {
        Opcode::LDTR
    } else if c == 160508226 {
        Opcode::LDRB
    } else if c == 20545104194 {
        Opcode::LDURB
    } else if c == 20544776514 {
        Opcode::LDARB
    } else if c == 20545153346 {
        Opcode::LDXRB
    } else if c == 2629731494210 {
        Opcode::LDAXRB
    } else if c == 20545087810 {
        Opcode::LDTRB
    } else if c == 160508232 {
        Opcode::LDRH
    } else if c == 20545104200 {
        Opcode::LDURH
    } else if c == 20544776520 {
        Opcode::LDARH
    } else if c == 20545153352 {
        Opcode::LDXRH
    } else if c == 2629731494216 {
        Opcode::LDAXRH
    } else if c == 20545087816 {
        Opcode::LDTRH
    } else if c == 20545055170 {
        Opcode::LDRSB
    } else if c == 2629771241922 {
        Opcode::LDTRSB
    } else if c == 2629773339074 {
        Opcode::LDURSB
    } else if c == 20545055176 {
        Opcode::LDRSH
    } else if c == 2629771241928 {
        Opcode::LDTRSH
    } else if c == 2629773339080 {
        Opcode::LDURSH
    } else if c == 20545055191 {
        Opcode::LDRSW
    } else if c == 2629771241943 {
        Opcode::LDTRSW
    } else if c == 2629773339095 {
        Opcode::LDURSW
    } else if c == 160753238 {
        Opcode::LSLV
    } else if c == 160754006 {
        Opcode::LSRV
    } else if c == 162554436 {
        Opcode::MADD
    } else if c == 162786123 {
        Opcode::MOVK
    } else if c == 162786126 {
        Opcode::MOVN
    } else if c == 162786138 {
        Opcode::MOVZ
    } else if c == 162851522 {
        Opcode::MSUB
    } else if c == 1286855 {
        Opcode::NEG
    } else if c == 1304910 {
        Opcode::ORN
    } else if c == 1304914 {
        Opcode::ORR
    } else if c == 169124685 {
        Opcode::PRFM
    } else if c == 21647960781 {
        Opcode::PRFUM
    } else if c == 173057236 {
        Opcode::RBIT
    } else if c == 1352404 {
        Opcode::RET
    } else if c == 22157795522 {
        Opcode::RETAB
    } else if c == 22157795521 {
        Opcode::RETAA
    } else if c == 1352406 {
        Opcode::REV
    } else if c == 22157826868 {
        Opcode::REV64
    } else if c == 22157826230 {
        Opcode::REV16
    } else if c == 22157826482 {
        Opcode::REV32
    } else if c == 173271382 {
        Opcode::RORV
    } else if c == 1368387 {
        Opcode::SBC
    } else if c == 175153619 {
        Opcode::SBCS
    } else if c == 175153997 {
        Opcode::SBFM
    } else if c == 175187158 {
        Opcode::SDIV
    } else if c == 2872665252428 {
        Opcode::SMADDL
    } else if c == 1369795 {
        Opcode::SMC
    } else if c == 2872703279436 {
        Opcode::SMSUBL
    } else if c == 22443025992 {
        Opcode::SMULH
    } else if c == 1370704 {
        Opcode::STP
    } else if c == 175449936 {
        Opcode::STNP
    } else if c == 175451216 {
        Opcode::STXP
    } else if c == 22457560144 {
        Opcode::STLXP
    } else if c == 1370706 {
        Opcode::STR
    } else if c == 175449682 {
        Opcode::STLR
    } else if c == 175450834 {
        Opcode::STUR
    } else if c == 22457559762 {
        Opcode::STLUR
    } else if c == 175450706 {
        Opcode::STTR
    } else if c == 22457560146 {
        Opcode::STLXR
    } else if c == 175451218 {
        Opcode::STXR
    } else if c == 175450434 {
        Opcode::STRB
    } else if c == 22457559362 {
        Opcode::STLRB
    } else if c == 22457706818 {
        Opcode::STURB
    } else if c == 2874567649602 {
        Opcode::STLURB
    } else if c == 22457690434 {
        Opcode::STTRB
    } else if c == 2874567698754 {
        Opcode::STLXRB
    } else if c == 22457755970 {
        Opcode::STXRB
    } else if c == 175450440 {
        Opcode::STRH
    } else if c == 22457559368 {
        Opcode::STLRH
    } else if c == 22457706824 {
        Opcode::STURH
    } else if c == 2874567649608 {
        Opcode::STLURH
    } else if c == 22457690440 {
        Opcode::STTRH
    } else if c == 2874567698760 {
        Opcode::STLXRH
    } else if c == 22457755976 {
        Opcode::STXRH
    } else if c == 1370818 {
        Opcode::SUB
    } else if c == 175464787 {
        Opcode::SUBS
    } else if c == 1370947 {
        Opcode::SVC
    } else if c == 177252186 {
        Opcode::TBNZ
    } else if c == 1384794 {
        Opcode::TBZ
    } else if c == 179348301 {
        Opcode::UBFM
    } else if c == 1401414 {
        Opcode::UDF
    } else if c == 179381462 {
        Opcode::UDIV
    } else if c == 2941384729164 {
        Opcode::UMADDL
    } else if c == 2941422756172 {
        Opcode::UMSUBL
    } else if c == 22979896904 {
        Opcode::UMULH
    } else if c == 1094115 {
        Opcode::Bcc(0)
    } else if c == 1106131 {
        Opcode::CAS(0)
    } else {
        Opcode::Other
    }
}

/// An operation is recovered from its name.
proof fn lemma_opcode_code(o: Opcode)
    requires
        known_opcode(o),
    ensures
        opcode_of_code(name_code(opcode_name(o))) == canonical(o),
{
    reveal(opcode_name);
    reveal_with_fuel(name_code_upto, 9);
    match o {
        Opcode::ADC => {
            reveal_strlit("ADC");
            assert(name_code("ADC"@) == 1073731);
        },
        Opcode::ADCS => {
            reveal_strlit("ADCS");
            assert(name_code("ADCS"@) == 137437651);
        },
        Opcode::ADD => {
            reveal_strlit("ADD");
            assert(name_code("ADD"@) == 1073732);
        },
        Opcode::ADDS => {
            reveal_strlit("ADDS");
            assert(name_code("ADDS"@) == 137437779);
        },
        Opcode::ADR => {
            reveal_strlit("ADR");
            assert(name_code("ADR"@) == 1073746);
        },
        Opcode::ADRP => {
            reveal_strlit("ADRP");
            assert(name_code("ADRP"@) == 137439568);
        },
        Opcode::AND => {
            reveal_strlit("AND");
            assert(name_code("AND"@) == 1075012);
        },
        Opcode::ANDS => {
            reveal_strlit("ANDS");
            assert(name_code("ANDS"@) == 137601619);
        },
        Opcode::ASRV => {
            reveal_strlit("ASRV");
            assert(name_code("ASRV"@) == 137685334);
        },
        Opcode::B => {
            reveal_strlit("B");
            assert(name_code("B"@) == 66);
        },
        Opcode::BL => {
            reveal_strlit("BL");
            assert(name_code("BL"@) == 8524);
        },
        Opcode::BFM => {
            reveal_strlit("BFM");
            assert(name_code("BFM"@) == 1090381);
        },
        Opcode::BIC => {
            reveal_strlit("BIC");
            assert(name_code("BIC"@) == 1090755);
        },
        Opcode::BLR => {
            reveal_strlit("BLR");
            assert(name_code("BLR"@) == 1091154);
        },
        Opcode::BR => {
            reveal_strlit("BR");
            assert(name_code("BR"@) == 8530);
        },
        Opcode::CBNZ => {
            reveal_strlit("CBNZ");
            assert(name_code("CBNZ"@) == 141600602);
        },
        Opcode::CBZ => {
            reveal_strlit("CBZ");
            assert(name_code("CBZ"@) == 1106266);
        },
        Opcode::CCMN => {
            reveal_strlit("CCMN");
            assert(name_code("CCMN"@) == 141616846);
        },
        Opcode::CCMP => {
            reveal_strlit("CCMP");
            assert(name_code("CCMP"@) == 141616848);
        },
        Opcode::CLS => {
            reveal_strlit("CLS");
            assert(name_code("CLS"@) == 1107539);
        },
        Opcode::CLZ => {
            reveal_strlit("CLZ");
            assert(name_code("CLZ"@) == 1107546);
        },
        Opcode::CSEL => {
            reveal_strlit("CSEL");
            assert(name_code("CSEL"@) == 141877964);
        },
        Opcode::CSINC => {
            reveal_strlit("CSINC");
            assert(name_code("CSINC"@) == 18160445251);
        },
        Opcode::CSINV => {
            reveal_strlit("CSINV");
            assert(name_code("CSINV"@) == 18160445270);
        },
        Opcode::CSNEG => {
            reveal_strlit("CSNEG");
            assert(name_code("CSNEG"@) == 18160526023);
        },
        Opcode::EON => {
            reveal_strlit("EON");
            assert(name_code("EON"@) == 1140686);
        },
        Opcode::EOR => {
            reveal_strlit("EOR");
            assert(name_code("EOR"@) == 1140690);
        },
        Opcode::EXTR => {
            reveal_strlit("EXTR");
            assert(name_code("EXTR"@) == 146156114);
        },
        Opcode::HINT => {
            reveal_strlit("HINT");
            assert(name_code("HINT"@) == 152201044);
        },
        Opcode::HVC => {
            reveal_strlit("HVC");
            assert(name_code("HVC"@) == 1190723);
        },
        Opcode::LDP => {
            reveal_strlit("LDP");
            assert(name_code("LDP"@) == 1253968);
        },
        Opcode::LDXP => {
            reveal_strlit("LDXP");
            assert(name_code("LDXP"@) == 160509008);
        },
        Opcode::LDPSW => {
            reveal_strlit("LDPSW");
            assert(name_code("LDPSW"@) == 20545022423);
        },
        Opcode::LDR => {
            reveal_strlit("LDR");
            assert(name_code("LDR"@) == 1253970);
        },
        Opcode::LDUR => {
            reveal_strlit("LDUR");
            assert(name_code("LDUR"@) == 160508626);
        },
        Opcode::LDAR => {
            reveal_strlit("LDAR");
            assert(name_code("LDAR"@) == 160506066);
        },
        Opcode::LDXR => {
            reveal_strlit("LDXR");
            assert(name_code("LDXR"@) == 160509010);
        },
        Opcode::LDAXR => {
            reveal_strlit("LDAXR");
            assert(name_code("LDAXR"@) == 20544777298);
        },
        Opcode::LDTR => {
            reveal_strlit("LDTR");
            assert(name_code("LDTR"@) == 160508498);
        },
        Opcode::LDRB => {
            reveal_strlit("LDRB");
            assert(name_code("LDRB"@) == 160508226);
        },
        Opcode::LDURB => {
            reveal_strlit("LDURB");
            assert(name_code("LDURB"@) == 20545104194);
        },
        Opcode::LDARB => {
            reveal_strlit("LDARB");
            assert(name_code("LDARB"@) == 20544776514);
        },
        Opcode::LDXRB => {
            reveal_strlit("LDXRB");
            assert(name_code("LDXRB"@) == 20545153346);
        },
        Opcode::LDAXRB => {
            reveal_strlit("LDAXRB");
            assert(name_code("LDAXRB"@) == 2629731494210);
        },
        Opcode::LDTRB => {
            reveal_strlit("LDTRB");
            assert(name_code("LDTRB"@) == 20545087810);
        },
        Opcode::LDRH => {
            reveal_strlit("LDRH");
            assert(name_code("LDRH"@) == 160508232);
        },
        Opcode::LDURH => {
            reveal_strlit("LDURH");
            assert(name_code("LDURH"@) == 20545104200);
        },
        Opcode::LDARH => {
            reveal_strlit("LDARH");
            assert(name_code("LDARH"@) == 20544776520);
        },
        Opcode::LDXRH => {
            reveal_strlit("LDXRH");
            assert(name_code("LDXRH"@) == 20545153352);
        },
        Opcode::LDAXRH => {
            reveal_strlit("LDAXRH");
            assert(name_code("LDAXRH"@) == 2629731494216);
        },
        Opcode::LDTRH => {
            reveal_strlit("LDTRH");
            assert(name_code("LDTRH"@) == 20545087816);
        },
        Opcode::LDRSB => {
            reveal_strlit("LDRSB");
            assert(name_code("LDRSB"@) == 20545055170);
        },
        Opcode::LDTRSB => {
            reveal_strlit("LDTRSB");
            assert(name_code("LDTRSB"@) == 2629771241922);
        },
        Opcode::LDURSB => {
            reveal_strlit("LDURSB");
            assert(name_code("LDURSB"@) == 2629773339074);
        },
        Opcode::LDRSH => {
            reveal_strlit("LDRSH");
            assert(name_code("LDRSH"@) == 20545055176);
        },
        Opcode::LDTRSH => {
            reveal_strlit("LDTRSH");
            assert(name_code("LDTRSH"@) == 2629771241928);
        },
        Opcode::LDURSH => {
            reveal_strlit("LDURSH");
            assert(name_code("LDURSH"@) == 2629773339080);
        },
        Opcode::LDRSW => {
            reveal_strlit("LDRSW");
            assert(name_code("LDRSW"@) == 20545055191);
        },
        Opcode::LDTRSW => {
            reveal_strlit("LDTRSW");
            assert(name_code("LDTRSW"@) == 2629771241943);
        },
        Opcode::LDURSW => {
            reveal_strlit("LDURSW");
            assert(name_code("LDURSW"@) == 2629773339095);
        },
        Opcode::LSLV => {
            reveal_strlit("LSLV");
            assert(name_code("LSLV"@) == 160753238);
        },
        Opcode::LSRV => {
            reveal_strlit("LSRV");
            assert(name_code("LSRV"@) == 160754006);
        },
        Opcode::MADD => {
            reveal_strlit("MADD");
            assert(name_code("MADD"@) == 162554436);
        },
        Opcode::MOVK => {
            reveal_strlit("MOVK");
            assert(name_code("MOVK"@) == 162786123);
        },
        Opcode::MOVN => {
            reveal_strlit("MOVN");
            assert(name_code("MOVN"@) == 162786126);
        },
        Opcode::MOVZ => {
            reveal_strlit("MOVZ");
            assert(name_code("MOVZ"@) == 162786138);
        },
        Opcode::MSUB => {
            reveal_strlit("MSUB");
            assert(name_code("MSUB"@) == 162851522);
        },
        Opcode::NEG => {
            reveal_strlit("NEG");
            assert(name_code("NEG"@) == 1286855);
        },
        Opcode::ORN => {
            reveal_strlit("ORN");
            assert(name_code("ORN"@) == 1304910);
        },
        Opcode::ORR => {
            reveal_strlit("ORR");
            assert(name_code("ORR"@) == 1304914);
        },
        Opcode::PRFM => {
            reveal_strlit("PRFM");
            assert(name_code("PRFM"@) == 169124685);
        },
        Opcode::PRFUM => {
            reveal_strlit("PRFUM");
            assert(name_code("PRFUM"@) == 21647960781);
        },
        Opcode::RBIT => {
            reveal_strlit("RBIT");
            assert(name_code("RBIT"@) == 173057236);
        },
        Opcode::RET => {
            reveal_strlit("RET");
            assert(name_code("RET"@) == 1352404);
        },
        Opcode::RETAB => {
            reveal_strlit("RETAB");
            assert(name_code("RETAB"@) == 22157795522);
        },
        Opcode::RETAA => {
            reveal_strlit("RETAA");
            assert(name_code("RETAA"@) == 22157795521);
        },
        Opcode::REV => {
            reveal_strlit("REV");
            assert(name_code("REV"@) == 1352406);
        },
        Opcode::REV64 => {
            reveal_strlit("REV64");
            assert(name_code("REV64"@) == 22157826868);
        },
        Opcode::REV16 => {
            reveal_strlit("REV16");
            assert(name_code("REV16"@) == 22157826230);
        },
        Opcode::REV32 => {
            reveal_strlit("REV32");
            assert(name_code("REV32"@) == 22157826482);
        },
        Opcode::RORV => {
            reveal_strlit("RORV");
            assert(name_code("RORV"@) == 173271382);
        },
        Opcode::SBC => {
            reveal_strlit("SBC");
            assert(name_code("SBC"@) == 1368387);
        },
        Opcode::SBCS => {
            reveal_strlit("SBCS");
            assert(name_code("SBCS"@) == 175153619);
        },
        Opcode::SBFM => {
            reveal_strlit("SBFM");
            assert(name_code("SBFM"@) == 175153997);
        },
        Opcode::SDIV => {
            reveal_strlit("SDIV");
            assert(name_code("SDIV"@) == 175187158);
        },
        Opcode::SMADDL => {
            reveal_strlit("SMADDL");
            assert(name_code("SMADDL"@) == 2872665252428);
        },
        Opcode::SMC => {
            reveal_strlit("SMC");
            assert(name_code("SMC"@) == 1369795);
        },
        Opcode::SMSUBL => {
            reveal_strlit("SMSUBL");
            assert(name_code("SMSUBL"@) == 2872703279436);
        },
        Opcode::SMULH => {
            reveal_strlit("SMULH");
            assert(name_code("SMULH"@) == 22443025992);
        },
        Opcode::STP => {
            reveal_strlit("STP");
            assert(name_code("STP"@) == 1370704);
        },
        Opcode::STNP => {
            reveal_strlit("STNP");
            assert(name_code("STNP"@) == 175449936);
        },
        Opcode::STXP => {
            reveal_strlit("STXP");
            assert(name_code("STXP"@) == 175451216);
        },
        Opcode::STLXP => {
            reveal_strlit("STLXP");
            assert(name_code("STLXP"@) == 22457560144);
        },
        Opcode::STR => {
            reveal_strlit("STR");
            assert(name_code("STR"@) == 1370706);
        },
        Opcode::STLR => {
            reveal_strlit("STLR");
            assert(name_code("STLR"@) == 175449682);
        },
        Opcode::STUR => {
            reveal_strlit("STUR");
            assert(name_code("STUR"@) == 175450834);
        },
        Opcode::STLUR => {
            reveal_strlit("STLUR");
            assert(name_code("STLUR"@) == 22457559762);
        },
        Opcode::STTR => {
            reveal_strlit("STTR");
            assert(name_code("STTR"@) == 175450706);
        },
        Opcode::STLXR => {
            reveal_strlit("STLXR");
            assert(name_code("STLXR"@) == 22457560146);
        },
        Opcode::STXR => {
            reveal_strlit("STXR");
            assert(name_code("STXR"@) == 175451218);
        },
        Opcode::STRB => {
            reveal_strlit("STRB");
            assert(name_code("STRB"@) == 175450434);
        },
        Opcode::STLRB => {
            reveal_strlit("STLRB");
            assert(name_code("STLRB"@) == 22457559362);
        },
        Opcode::STURB => {
            reveal_strlit("STURB");
            assert(name_code("STURB"@) == 22457706818);
        },
        Opcode::STLURB => {
            reveal_strlit("STLURB");
            assert(name_code("STLURB"@) == 2874567649602);
        },
        Opcode::STTRB => {
            reveal_strlit("STTRB");
            assert(name_code("STTRB"@) == 22457690434);
        },
        Opcode::STLXRB => {
            reveal_strlit("STLXRB");
            assert(name_code("STLXRB"@) == 2874567698754);
        },
        Opcode::STXRB => {
            reveal_strlit("STXRB");
            assert(name_code("STXRB"@) == 22457755970);
        },
        Opcode::STRH => {
            reveal_strlit("STRH");
            assert(name_code("STRH"@) == 175450440);
        },
        Opcode::STLRH => {
            reveal_strlit("STLRH");
            assert(name_code("STLRH"@) == 22457559368);
        },
        Opcode::STURH => {
            reveal_strlit("STURH");
            assert(name_code("STURH"@) == 22457706824);
        },
        Opcode::STLURH => {
            reveal_strlit("STLURH");
            assert(name_code("STLURH"@) == 2874567649608);
        },
        Opcode::STTRH => {
            reveal_strlit("STTRH");
            assert(name_code("STTRH"@) == 22457690440);
        },
        Opcode::STLXRH => {
            reveal_strlit("STLXRH");
            assert(name_code("STLXRH"@) == 2874567698760);
        },
        Opcode::STXRH => {
            reveal_strlit("STXRH");
            assert(name_code("STXRH"@) == 22457755976);
        },
        Opcode::SUB => {
            reveal_strlit("SUB");
            assert(name_code("SUB"@) == 1370818);
        },
        Opcode::SUBS => {
            reveal_strlit("SUBS");
            assert(name_code("SUBS"@) == 175464787);
        },
        Opcode::SVC => {
            reveal_strlit("SVC");
            assert(name_code("SVC"@) == 1370947);
        },
        Opcode::TBNZ => {
            reveal_strlit("TBNZ");
            assert(name_code("TBNZ"@) == 177252186);
        },
        Opcode::TBZ => {
            reveal_strlit("TBZ");
            assert(name_code("TBZ"@) == 1384794);
        },
        Opcode::UBFM => {
            reveal_strlit("UBFM");
            assert(name_code("UBFM"@) == 179348301);
        },
        Opcode::UDF => {
            reveal_strlit("UDF");
            assert(name_code("UDF"@) == 1401414);
        },
        Opcode::UDIV => {
            reveal_strlit("UDIV");
            assert(name_code("UDIV"@) == 179381462);
        },
        Opcode::UMADDL => {
            reveal_strlit("UMADDL");
            assert(name_code("UMADDL"@) == 2941384729164);
        },
        Opcode::UMSUBL => {
            reveal_strlit("UMSUBL");
            assert(name_code("UMSUBL"@) == 2941422756172);
        },
        Opcode::UMULH => {
            reveal_strlit("UMULH");
            assert(name_code("UMULH"@) == 22979896904);
        },
        Opcode::Bcc(_) => {
            reveal_strlit("Bcc");
            assert(name_code("Bcc"@) == 1094115);
        },
        Opcode::CAS(_) => {
            reveal_strlit("CAS");
            assert(name_code("CAS"@) == 1106131);
        },
        _ => {},
    }
}

/// Two known operations with the same name and the same payload tokens are the same
/// operation.
pub proof fn lemma_opcode_unique(o1: Opcode, o2: Opcode)
    requires
        known_opcode(o1),
        known_opcode(o2),
        opcode_name(o1) == opcode_name(o2),
        opcode_args(o1) == opcode_args(o2),
    ensures
        o1 == o2,
{
    lemma_opcode_code(o1);
    lemma_opcode_code(o2);
    match o1 {
        Opcode::Bcc(c1) => match o2 {
            Opcode::Bcc(c2) => {
                assert(opcode_args(o1)[0] == opcode_args(o2)[0]);
                lemma_decimal_unique(c1 as nat, c2 as nat);
            },
            _ => {},
        },
        Opcode::CAS(c1) => match o2 {
            Opcode::CAS(c2) => {
                assert(opcode_args(o1)[0] == opcode_args(o2)[0]);
                lemma_decimal_unique(c1 as nat, c2 as nat);
            },
            _ => {},
        },
        _ => {},
    }
}

/// Two known operands that render alike are the same operand.
pub proof fn lemma_operand_text_unique(o1: Operand, o2: Operand)
    requires
        known_operand(o1),
        known_operand(o2),
        operand_text(o1) == operand_text(o2),
    ensures
        o1 == o2,
{
    lemma_operand_item_ok(o1);
    lemma_operand_item_ok(o2);
    let e = Seq::<char>::empty();
    assert(operand_text(o1) + e =~= operand_text(o2) + e);
    lemma_item_unique(operand_name(o1), operand_args(o1), e, operand_name(o2), operand_args(o2), e);
    lemma_operand_unique(o1, o2);
}

/// Strips a common first part.
proof fn lemma_drop_common(a: Seq<char>, b: Seq<char>, c: Seq<char>)
    requires
        a + b == a + c,
    ensures
        b == c,
{
    assert(b =~= (a + b).skip(a.len() as int));
    assert(c =~= (a + c).skip(a.len() as int));
}

/// One operand of two renderings, each followed by the same kind of separator.
proof fn lemma_operand_step(o1: Operand, x: Seq<char>, o2: Operand, y: Seq<char>)
    requires
        known_operand(o1),
        known_operand(o2),
        operand_text(o1) + x == operand_text(o2) + y,
        x.len() > 0 && (x[0] == ',' || x[0] == ']'),
        y.len() > 0 && (y[0] == ',' || y[0] == ']'),
    ensures
        o1 == o2,
        x == y,
{
    lemma_operand_item_ok(o1);
    lemma_operand_item_ok(o2);
    lemma_item_unique(operand_name(o1), operand_args(o1), x, operand_name(o2), operand_args(o2), y);
    lemma_operand_unique(o1, o2);
}

/// Two readings of one rendering as an operation item followed by kept operands agree: the
/// same name, the same payload tokens and the same operands.
pub proof fn lemma_form_unique(
    s: Seq<char>,
    n1: Seq<char>,
    a1: Seq<Seq<char>>,
    t1: Instruction,
    n2: Seq<char>,
    a2: Seq<Seq<char>>,
    t2: Instruction,
)
    requires
        has_form(s, n1, a1, t1),
        has_form(s, n2, a2, t2),
    ensures
        n1 == n2,
        a1 == a2,
        t1.operands == t2.operands,
{
    lemma_separators();
    let lit0 = "Instruction { opcode: "@;
    let lit1 = ", operands: ["@;
    lemma_drop_common(lit0, render_item(n1, a1) + (lit1 + operands_from(t1, 0)), render_item(n2, a2) + (lit1 + operands_from(t2, 0)));
    lemma_item_unique(n1, a1, lit1 + operands_from(t1, 0), n2, a2, lit1 + operands_from(t2, 0));
    lemma_drop_common(lit1, operands_from(t1, 0), operands_from(t2, 0));
    lemma_operands_from(t1, 0);
    lemma_operands_from(t2, 0);
    lemma_operands_from(t1, 1);
    lemma_operands_from(t2, 1);
    lemma_operands_from(t1, 2);
    lemma_operands_from(t2, 2);
    lemma_operands_from(t1, 3);
    lemma_operands_from(t2, 3);
    assert(known_operand(t1.operands@[0]) && known_operand(t2.operands@[0]));
    assert(known_operand(t1.operands@[1]) && known_operand(t2.operands@[1]));
    assert(known_operand(t1.operands@[2]) && known_operand(t2.operands@[2]));
    assert(known_operand(t1.operands@[3]) && known_operand(t2.operands@[3]));
    lemma_operand_step(t1.operands@[0], ", "@ + operands_from(t1, 1), t2.operands@[0], ", "@ + operands_from(t2, 1));
    lemma_drop_common(", "@, operands_from(t1, 1), operands_from(t2, 1));
    lemma_operand_step(t1.operands@[1], ", "@ + operands_from(t1, 2), t2.operands@[1], ", "@ + operands_from(t2, 2));
    lemma_drop_common(", "@, operands_from(t1, 2), operands_from(t2, 2));
    lemma_operand_step(t1.operands@[2], ", "@ + operands_from(t1, 3), t2.operands@[2], ", "@ + operands_from(t2, 3));
    lemma_drop_common(", "@, operands_from(t1, 3), operands_from(t2, 3));
    lemma_operand_step(t1.operands@[3], "] }"@ + Seq::<char>::empty(), t2.operands@[3], "] }"@ + Seq::<char>::empty());
    assert(t1.operands =~= t2.operands);
}

/// Two instructions whose parts are all kept and that the decoder's `Debug` rendering shows
/// alike are the same instruction: the rendering determines the instruction.
pub proof fn law_rendering_unique(i: Instruction, j: Instruction)
    requires
        known_instruction(i),
        known_instruction(j),
        instruction_text(i) == instruction_text(j),
    ensures
        i == j,
{
    let s = instruction_text(i);
    lemma_instruction_layout(s, i);
    lemma_instruction_layout(s, j);
    lemma_separators();
    let lit0 = "Instruction { opcode: "@;
    let lit1 = ", operands: ["@;
    lemma_drop_common(lit0, opcode_text(i.opcode) + (lit1 + operands_from(i, 0)), opcode_text(j.opcode) + (lit1 + operands_from(j, 0)));
    lemma_opcode_item_ok(i.opcode);
    lemma_opcode_item_ok(j.opcode);
    lemma_item_unique(
        opcode_name(i.opcode),
        opcode_args(i.opcode),
        lit1 + operands_from(i, 0),
        opcode_name(j.opcode),
        opcode_args(j.opcode),
        lit1 + operands_from(j, 0),
    );
    lemma_opcode_unique(i.opcode, j.opcode);
    lemma_drop_common(lit1, operands_from(i, 0), operands_from(j, 0));
    lemma_operands_from(i, 0);
    lemma_operands_from(j, 0);
    lemma_operands_from(i, 1);
    lemma_operands_from(j, 1);
    lemma_operands_from(i, 2);
    lemma_operands_from(j, 2);
    lemma_operands_from(i, 3);
    lemma_operands_from(j, 3);
    lemma_operand_step(i.operands@[0], ", "@ + operands_from(i, 1), j.operands@[0], ", "@ + operands_from(j, 1));
    lemma_drop_common(", "@, operands_from(i, 1), operands_from(j, 1));
    lemma_operand_step(i.operands@[1], ", "@ + operands_from(i, 2), j.operands@[1], ", "@ + operands_from(j, 2));
    lemma_drop_common(", "@, operands_from(i, 2), operands_from(j, 2));
    lemma_operand_step(i.operands@[2], ", "@ + operands_from(i, 3), j.operands@[2], ", "@ + operands_from(j, 3));
    lemma_drop_common(", "@, operands_from(i, 3), operands_from(j, 3));
    lemma_operand_step(i.operands@[3], "] }"@ + Seq::<char>::empty(), j.operands@[3], "] }"@ + Seq::<char>::empty());
    assert(i.operands =~= j.operands);
}

} // verus!
