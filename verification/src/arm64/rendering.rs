//! How the decoder's `Debug` rendering of an instruction is put together, and the facts about
//! it that make reading the rendering back succeed: names are made of word characters, and
//! argument tokens hold no separator.

use crate::arm64::decode::{
    bool_text, digits_value, render_args, is_digit, is_numeral, is_signed_numeral, is_word_char,
    known_opcode, known_operand, opcode_name, opcode_text, operand_text, render_item, shift_style_name, signed_decimal, signed_value,
    simd_size_name, size_code_name, Opcode, Operand, ShiftStyle, SIMDSizeCode, SizeCode,
};
use crate::arm64::ir::{decimal, digit_char};
use vstd::prelude::*;

verus! {

/// A name as `Debug` renders one: non-empty, of word characters only.
pub open spec fn is_name(n: Seq<char>) -> bool {
    &&& n.len() > 0
    &&& forall|k: int| 0 <= k < n.len() ==> is_word_char(#[trigger] n[k])
}

/// An argument token: non-empty, without a comma or a closing parenthesis.
pub open spec fn is_token(t: Seq<char>) -> bool {
    &&& t.len() > 0
    &&& forall|k: int| 0 <= k < t.len() ==> #[trigger] t[k] != ',' && t[k] != ')'
}

/// A name and its argument tokens that read back unambiguously.
pub open spec fn item_ok(name: Seq<char>, args: Seq<Seq<char>>) -> bool {
    &&& is_name(name)
    &&& forall|j: int| 0 <= j < args.len() ==> is_token(#[trigger] args[j])
}

/// Packs the facts of `item_ok`.
proof fn lemma_item_ok_intro(name: Seq<char>, args: Seq<Seq<char>>)
    requires
        is_name(name),
        forall|j: int| 0 <= j < args.len() ==> is_token(#[trigger] args[j]),
    ensures
        item_ok(name, args),
{
}

/// The decimal numeral of a number is a token and a numeral that reads back as the number.
pub proof fn lemma_decimal_token(n: nat)
    ensures
        is_token(decimal(n)),
        is_numeral(decimal(n)),
        digits_value(decimal(n)) == n,
        n > 0 ==> decimal(n)[0] != '0',
        forall|k: int| 0 <= k < decimal(n).len() ==> is_digit(#[trigger] decimal(n)[k]),
    decreases n,
{
    if n < 10 {
        let d = decimal(n);
        assert(d =~= seq![digit_char(n)]);
        assert(is_digit(digit_char(n)));
        assert(d.drop_last() =~= Seq::<char>::empty());
        assert(digit_char(n) as nat - '0' as nat == n);
        assert(digits_value(d) == digits_value(d.drop_last()) * 10 + (d.last() as nat - '0' as nat) as nat);
    } else {
        lemma_decimal_token(n / 10);
        let p = decimal(n / 10);
        let d = decimal(n);
        let c = digit_char(n % 10);
        assert(d == p.push(c));
        assert(is_digit(c));
        assert(c as nat - '0' as nat == n % 10);
        assert(d.drop_last() =~= p);
        assert forall|k: int| 0 <= k < d.len() implies is_digit(#[trigger] d[k]) by {
            if k < p.len() {
                assert(d[k] == p[k]);
            }
        }
        assert(d[0] == p[0]);
        assert(digits_value(d) == digits_value(p) * 10 + n % 10);
        assert((n / 10) * 10 + n % 10 == n);
    }
}

/// The possibly negative decimal numeral of a number is a token that reads back as the number.
pub proof fn lemma_signed_decimal_token(v: int)
    ensures
        is_token(signed_decimal(v)),
        is_signed_numeral(signed_decimal(v)),
        signed_value(signed_decimal(v)) == v,
{
    if v < 0 {
        let m = (-v) as nat;
        lemma_decimal_token(m);
        let t = signed_decimal(v);
        assert(t == seq!['-'] + decimal(m));
        assert(t.drop_first() =~= decimal(m));
        assert forall|k: int| 0 <= k < t.len() implies #[trigger] t[k] != ',' && t[k] != ')' by {
            if k > 0 {
                assert(t[k] == decimal(m)[k - 1]);
                assert(is_digit(decimal(m)[k - 1]));
            }
        }
    } else {
        lemma_decimal_token(v as nat);
        assert(is_digit(decimal(v as nat)[0]));
        assert forall|k: int| 0 <= k < decimal(v as nat).len() implies #[trigger] decimal(
            v as nat,
        )[k] != ',' && decimal(v as nat)[k] != ')' by {
            assert(is_digit(decimal(v as nat)[k]));
        }
    }
}

/// A register size renders as a token.
pub proof fn lemma_size_code_token(s: SizeCode)
    ensures
        is_token(size_code_name(s)),
{
    reveal_strlit("X");
    reveal_strlit("W");
}

/// A vector element size renders as a token.
pub proof fn lemma_simd_size_token(s: SIMDSizeCode)
    ensures
        is_token(simd_size_name(s)),
{
    reveal_strlit("B");
    reveal_strlit("H");
    reveal_strlit("S");
    reveal_strlit("D");
    reveal_strlit("Q");
}

/// A shift or extension renders as a token.
pub proof fn lemma_shift_style_token(s: ShiftStyle)
    ensures
        is_token(shift_style_name(s)),
{
    reveal_strlit("LSL");
    reveal_strlit("LSR");
    reveal_strlit("ASR");
    reveal_strlit("ROR");
    reveal_strlit("UXTB");
    reveal_strlit("UXTH");
    reveal_strlit("UXTW");
    reveal_strlit("UXTX");
    reveal_strlit("SXTB");
    reveal_strlit("SXTH");
    reveal_strlit("SXTW");
    reveal_strlit("SXTX");
}

/// A truth value renders as a token.
pub proof fn lemma_bool_token(b: bool)
    ensures
        is_token(bool_text(b)),
{
    reveal_strlit("true");
    reveal_strlit("false");
}

/// The variant name an operand renders with.
pub open spec fn operand_name(o: Operand) -> Seq<char> {
    match o {
        Operand::Nothing => "Nothing"@,
        Operand::Register(..) => "Register"@,
        Operand::RegisterPair(..) => "RegisterPair"@,
        Operand::SIMDRegister(..) => "SIMDRegister"@,
        Operand::SIMDRegisterElements(..) => "SIMDRegisterElements"@,
        Operand::SIMDRegisterElementsLane(..) => "SIMDRegisterElementsLane"@,
        Operand::SIMDRegisterElementsMultipleLane(..) => "SIMDRegisterElementsMultipleLane"@,
        Operand::SIMDRegisterGroup(..) => "SIMDRegisterGroup"@,
        Operand::SIMDRegisterGroupLane(..) => "SIMDRegisterGroupLane"@,
        Operand::RegisterOrSP(..) => "RegisterOrSP"@,
        Operand::ConditionCode(..) => "ConditionCode"@,
        Operand::PCOffset(..) => "PCOffset"@,
        Operand::Immediate(..) => "Immediate"@,
        Operand::Imm64(..) => "Imm64"@,
        Operand::Imm16(..) => "Imm16"@,
        Operand::ImmShift(..) => "ImmShift"@,
        Operand::ImmShiftMSL(..) => "ImmShiftMSL"@,
        Operand::RegShift(..) => "RegShift"@,
        Operand::RegRegOffset(..) => "RegRegOffset"@,
        Operand::RegPreIndex(..) => "RegPreIndex"@,
        Operand::RegPostIndex(..) => "RegPostIndex"@,
        Operand::RegPostIndexReg(..) => "RegPostIndexReg"@,
        Operand::PrefetchOp(..) => "PrefetchOp"@,
        Operand::SystemReg(..) => "SystemReg"@,
        Operand::ControlReg(..) => "ControlReg"@,
        Operand::PstateField(..) => "PstateField"@,
        Operand::ImmediateDouble => "ImmediateDouble"@,
        Operand::Unknown => Seq::empty(),
    }
}

/// The argument tokens an operand renders with.
pub open spec fn operand_args(o: Operand) -> Seq<Seq<char>> {
    match o {
        Operand::Register(a0, a1) => seq![size_code_name(a0), decimal(a1 as nat)],
        Operand::RegisterPair(a0, a1) => seq![size_code_name(a0), decimal(a1 as nat)],
        Operand::SIMDRegister(a0, a1) => seq![simd_size_name(a0), decimal(a1 as nat)],
        Operand::SIMDRegisterElements(a0, a1, a2) => seq![simd_size_name(a0), decimal(a1 as nat), simd_size_name(a2)],
        Operand::SIMDRegisterElementsLane(a0, a1, a2, a3) => seq![simd_size_name(a0), decimal(a1 as nat), simd_size_name(a2), decimal(a3 as nat)],
        Operand::SIMDRegisterElementsMultipleLane(a0, a1, a2, a3, a4) => seq![simd_size_name(a0), decimal(a1 as nat), simd_size_name(a2), decimal(a3 as nat), decimal(a4 as nat)],
        Operand::SIMDRegisterGroup(a0, a1, a2, a3) => seq![simd_size_name(a0), decimal(a1 as nat), simd_size_name(a2), decimal(a3 as nat)],
        Operand::SIMDRegisterGroupLane(a0, a1, a2, a3) => seq![decimal(a0 as nat), simd_size_name(a1), decimal(a2 as nat), decimal(a3 as nat)],
        Operand::RegisterOrSP(a0, a1) => seq![size_code_name(a0), decimal(a1 as nat)],
        Operand::ConditionCode(a0) => seq![decimal(a0 as nat)],
        Operand::PCOffset(a0) => seq![signed_decimal(a0 as int)],
        Operand::Immediate(a0) => seq![decimal(a0 as nat)],
        Operand::Imm64(a0) => seq![decimal(a0 as nat)],
        Operand::Imm16(a0) => seq![decimal(a0 as nat)],
        Operand::ImmShift(a0, a1) => seq![decimal(a0 as nat), decimal(a1 as nat)],
        Operand::ImmShiftMSL(a0, a1) => seq![decimal(a0 as nat), decimal(a1 as nat)],
        Operand::RegShift(a0, a1, a2, a3) => seq![shift_style_name(a0), decimal(a1 as nat), size_code_name(a2), decimal(a3 as nat)],
        Operand::RegRegOffset(a0, a1, a2, a3, a4) => seq![decimal(a0 as nat), decimal(a1 as nat), size_code_name(a2), shift_style_name(a3), decimal(a4 as nat)],
        Operand::RegPreIndex(a0, a1, a2) => seq![decimal(a0 as nat), signed_decimal(a1 as int), bool_text(a2)],
        Operand::RegPostIndex(a0, a1) => seq![decimal(a0 as nat), signed_decimal(a1 as int)],
        Operand::RegPostIndexReg(a0, a1) => seq![decimal(a0 as nat), decimal(a1 as nat)],
        Operand::PrefetchOp(a0) => seq![decimal(a0 as nat)],
        Operand::SystemReg(a0) => seq![decimal(a0 as nat)],
        Operand::ControlReg(a0) => seq![decimal(a0 as nat)],
        Operand::PstateField(a0) => seq![decimal(a0 as nat)],
        _ => Seq::empty(),
    }
}

/// Each known operand is told apart by its variant name.
pub proof fn lemma_operand_names(o: Operand)
    requires
        known_operand(o),
    ensures
        (operand_name(o) == "Nothing"@) == (o is Nothing),
        (operand_name(o) == "Register"@) == (o is Register),
        (operand_name(o) == "RegisterPair"@) == (o is RegisterPair),
        (operand_name(o) == "SIMDRegister"@) == (o is SIMDRegister),
        (operand_name(o) == "SIMDRegisterElements"@) == (o is SIMDRegisterElements),
        (operand_name(o) == "SIMDRegisterElementsLane"@) == (o is SIMDRegisterElementsLane),
        (operand_name(o) == "SIMDRegisterElementsMultipleLane"@) == (o is SIMDRegisterElementsMultipleLane),
        (operand_name(o) == "SIMDRegisterGroup"@) == (o is SIMDRegisterGroup),
        (operand_name(o) == "SIMDRegisterGroupLane"@) == (o is SIMDRegisterGroupLane),
        (operand_name(o) == "RegisterOrSP"@) == (o is RegisterOrSP),
        (operand_name(o) == "ConditionCode"@) == (o is ConditionCode),
        (operand_name(o) == "PCOffset"@) == (o is PCOffset),
        (operand_name(o) == "Immediate"@) == (o is Immediate),
        (operand_name(o) == "Imm64"@) == (o is Imm64),
        (operand_name(o) == "Imm16"@) == (o is Imm16),
        (operand_name(o) == "ImmShift"@) == (o is ImmShift),
        (operand_name(o) == "ImmShiftMSL"@) == (o is ImmShiftMSL),
        (operand_name(o) == "RegShift"@) == (o is RegShift),
        (operand_name(o) == "RegRegOffset"@) == (o is RegRegOffset),
        (operand_name(o) == "RegPreIndex"@) == (o is RegPreIndex),
        (operand_name(o) == "RegPostIndex"@) == (o is RegPostIndex),
        (operand_name(o) == "RegPostIndexReg"@) == (o is RegPostIndexReg),
        (operand_name(o) == "PrefetchOp"@) == (o is PrefetchOp),
        (operand_name(o) == "SystemReg"@) == (o is SystemReg),
        (operand_name(o) == "ControlReg"@) == (o is ControlReg),
        (operand_name(o) == "PstateField"@) == (o is PstateField),
        operand_name(o) != "ImmediateDouble"@,
        (operand_args(o).len() == 0) == (o is Nothing),
{
    reveal_strlit("Nothing");
    reveal_strlit("Register");
    reveal_strlit("RegisterPair");
    reveal_strlit("SIMDRegister");
    reveal_strlit("SIMDRegisterElements");
    reveal_strlit("SIMDRegisterElementsLane");
    reveal_strlit("SIMDRegisterElementsMultipleLane");
    reveal_strlit("SIMDRegisterGroup");
    reveal_strlit("SIMDRegisterGroupLane");
    reveal_strlit("RegisterOrSP");
    reveal_strlit("ConditionCode");
    reveal_strlit("PCOffset");
    reveal_strlit("Immediate");
    reveal_strlit("Imm64");
    reveal_strlit("Imm16");
    reveal_strlit("ImmShift");
    reveal_strlit("ImmShiftMSL");
    reveal_strlit("RegShift");
    reveal_strlit("RegRegOffset");
    reveal_strlit("RegPreIndex");
    reveal_strlit("RegPostIndex");
    reveal_strlit("RegPostIndexReg");
    reveal_strlit("PrefetchOp");
    reveal_strlit("SystemReg");
    reveal_strlit("ControlReg");
    reveal_strlit("PstateField");
    reveal_strlit("ImmediateDouble");
    assert("Nothing"@.len() == 7);
    assert("Register"@.len() == 8);
    assert("RegisterPair"@.len() == 12);
    assert("SIMDRegister"@.len() == 12);
    assert("SIMDRegisterElements"@.len() == 20);
    assert("SIMDRegisterElementsLane"@.len() == 24);
    assert("SIMDRegisterElementsMultipleLane"@.len() == 32);
    assert("SIMDRegisterGroup"@.len() == 17);
    assert("SIMDRegisterGroupLane"@.len() == 21);
    assert("RegisterOrSP"@.len() == 12);
    assert("ConditionCode"@.len() == 13);
    assert("PCOffset"@.len() == 8);
    assert("Immediate"@.len() == 9);
    assert("Imm64"@.len() == 5);
    assert("Imm16"@.len() == 5);
    assert("ImmShift"@.len() == 8);
    assert("ImmShiftMSL"@.len() == 11);
    assert("RegShift"@.len() == 8);
    assert("RegRegOffset"@.len() == 12);
    assert("RegPreIndex"@.len() == 11);
    assert("RegPostIndex"@.len() == 12);
    assert("RegPostIndexReg"@.len() == 15);
    assert("PrefetchOp"@.len() == 10);
    assert("SystemReg"@.len() == 9);
    assert("ControlReg"@.len() == 10);
    assert("PstateField"@.len() == 11);
    assert("ImmediateDouble"@.len() == 15);
    assert("Register"@[0] != "PCOffset"@[0]);
    assert("Register"@[0] != "ImmShift"@[0]);
    assert("Register"@[3] != "RegShift"@[3]);
    assert("RegisterPair"@[0] != "SIMDRegister"@[0]);
    assert("RegisterPair"@[8] != "RegisterOrSP"@[8]);
    assert("RegisterPair"@[3] != "RegRegOffset"@[3]);
    assert("RegisterPair"@[3] != "RegPostIndex"@[3]);
    assert("SIMDRegister"@[0] != "RegisterOrSP"@[0]);
    assert("SIMDRegister"@[0] != "RegRegOffset"@[0]);
    assert("SIMDRegister"@[0] != "RegPostIndex"@[0]);
    assert("RegisterOrSP"@[3] != "RegRegOffset"@[3]);
    assert("RegisterOrSP"@[3] != "RegPostIndex"@[3]);
    assert("PCOffset"@[0] != "ImmShift"@[0]);
    assert("PCOffset"@[0] != "RegShift"@[0]);
    assert("Immediate"@[0] != "SystemReg"@[0]);
    assert("Imm64"@[3] != "Imm16"@[3]);
    assert("ImmShift"@[0] != "RegShift"@[0]);
    assert("ImmShiftMSL"@[0] != "RegPreIndex"@[0]);
    assert("ImmShiftMSL"@[0] != "PstateField"@[0]);
    assert("RegRegOffset"@[3] != "RegPostIndex"@[3]);
    assert("RegPreIndex"@[0] != "PstateField"@[0]);
    assert("RegPostIndexReg"@[0] != "ImmediateDouble"@[0]);
    assert("PrefetchOp"@[0] != "ControlReg"@[0]);
}

/// Known operands render as a name of word characters and tokens free of separators.
pub proof fn lemma_operand_item_ok(o: Operand)
    requires
        known_operand(o),
    ensures
        item_ok(operand_name(o), operand_args(o)),
        operand_text(o) == render_item(operand_name(o), operand_args(o)),
{
    match o {
        Operand::Nothing => {
            reveal_strlit("Nothing");
            lemma_item_ok_intro(operand_name(o), operand_args(o));
        },
        Operand::Register(a0, a1) => {
            reveal_strlit("Register");
            lemma_size_code_token(a0);
            lemma_decimal_token(a1 as nat);
            lemma_item_ok_intro(operand_name(o), operand_args(o));
        },
        Operand::RegisterPair(a0, a1) => {
            reveal_strlit("RegisterPair");
            lemma_size_code_token(a0);
            lemma_decimal_token(a1 as nat);
            lemma_item_ok_intro(operand_name(o), operand_args(o));
        },
        Operand::SIMDRegister(a0, a1) => {
            reveal_strlit("SIMDRegister");
            lemma_simd_size_token(a0);
            lemma_decimal_token(a1 as nat);
            lemma_item_ok_intro(operand_name(o), operand_args(o));
        },
        Operand::SIMDRegisterElements(a0, a1, a2) => {
            reveal_strlit("SIMDRegisterElements");
            lemma_simd_size_token(a0);
            lemma_decimal_token(a1 as nat);
            lemma_simd_size_token(a2);
            lemma_item_ok_intro(operand_name(o), operand_args(o));
        },
        Operand::SIMDRegisterElementsLane(a0, a1, a2, a3) => {
            reveal_strlit("SIMDRegisterElementsLane");
            lemma_simd_size_token(a0);
            lemma_decimal_token(a1 as nat);
            lemma_simd_size_token(a2);
            lemma_decimal_token(a3 as nat);
            lemma_item_ok_intro(operand_name(o), operand_args(o));
        },
        Operand::SIMDRegisterElementsMultipleLane(a0, a1, a2, a3, a4) => {
            reveal_strlit("SIMDRegisterElementsMultipleLane");
            lemma_simd_size_token(a0);
            lemma_decimal_token(a1 as nat);
            lemma_simd_size_token(a2);
            lemma_decimal_token(a3 as nat);
            lemma_decimal_token(a4 as nat);
            lemma_item_ok_intro(operand_name(o), operand_args(o));
        },
        Operand::SIMDRegisterGroup(a0, a1, a2, a3) => {
            reveal_strlit("SIMDRegisterGroup");
            lemma_simd_size_token(a0);
            lemma_decimal_token(a1 as nat);
            lemma_simd_size_token(a2);
            lemma_decimal_token(a3 as nat);
            lemma_item_ok_intro(operand_name(o), operand_args(o));
        },
        Operand::SIMDRegisterGroupLane(a0, a1, a2, a3) => {
            reveal_strlit("SIMDRegisterGroupLane");
            lemma_decimal_token(a0 as nat);
            lemma_simd_size_token(a1);
            lemma_decimal_token(a2 as nat);
            lemma_decimal_token(a3 as nat);
            lemma_item_ok_intro(operand_name(o), operand_args(o));
        },
        Operand::RegisterOrSP(a0, a1) => {
            reveal_strlit("RegisterOrSP");
            lemma_size_code_token(a0);
            lemma_decimal_token(a1 as nat);
            lemma_item_ok_intro(operand_name(o), operand_args(o));
        },
        Operand::ConditionCode(a0) => {
            reveal_strlit("ConditionCode");
            lemma_decimal_token(a0 as nat);
            lemma_item_ok_intro(operand_name(o), operand_args(o));
        },
        Operand::PCOffset(a0) => {
            reveal_strlit("PCOffset");
            lemma_signed_decimal_token(a0 as int);
            lemma_item_ok_intro(operand_name(o), operand_args(o));
        },
        Operand::Immediate(a0) => {
            reveal_strlit("Immediate");
            lemma_decimal_token(a0 as nat);
            lemma_item_ok_intro(operand_name(o), operand_args(o));
        },
        Operand::Imm64(a0) => {
            reveal_strlit("Imm64");
            lemma_decimal_token(a0 as nat);
            lemma_item_ok_intro(operand_name(o), operand_args(o));
        },
        Operand::Imm16(a0) => {
            reveal_strlit("Imm16");
            lemma_decimal_token(a0 as nat);
            lemma_item_ok_intro(operand_name(o), operand_args(o));
        },
        Operand::ImmShift(a0, a1) => {
            reveal_strlit("ImmShift");
            lemma_decimal_token(a0 as nat);
            lemma_decimal_token(a1 as nat);
            lemma_item_ok_intro(operand_name(o), operand_args(o));
        },
        Operand::ImmShiftMSL(a0, a1) => {
            reveal_strlit("ImmShiftMSL");
            lemma_decimal_token(a0 as nat);
            lemma_decimal_token(a1 as nat);
            lemma_item_ok_intro(operand_name(o), operand_args(o));
        },
        Operand::RegShift(a0, a1, a2, a3) => {
            reveal_strlit("RegShift");
            lemma_shift_style_token(a0);
            lemma_decimal_token(a1 as nat);
            lemma_size_code_token(a2);
            lemma_decimal_token(a3 as nat);
            lemma_item_ok_intro(operand_name(o), operand_args(o));
        },
        Operand::RegRegOffset(a0, a1, a2, a3, a4) => {
            reveal_strlit("RegRegOffset");
            lemma_decimal_token(a0 as nat);
            lemma_decimal_token(a1 as nat);
            lemma_size_code_token(a2);
            lemma_shift_style_token(a3);
            lemma_decimal_token(a4 as nat);
            lemma_item_ok_intro(operand_name(o), operand_args(o));
        },
        Operand::RegPreIndex(a0, a1, a2) => {
            reveal_strlit("RegPreIndex");
            lemma_decimal_token(a0 as nat);
            lemma_signed_decimal_token(a1 as int);
            lemma_bool_token(a2);
            lemma_item_ok_intro(operand_name(o), operand_args(o));
        },
        Operand::RegPostIndex(a0, a1) => {
            reveal_strlit("RegPostIndex");
            lemma_decimal_token(a0 as nat);
            lemma_signed_decimal_token(a1 as int);
            lemma_item_ok_intro(operand_name(o), operand_args(o));
        },
        Operand::RegPostIndexReg(a0, a1) => {
            reveal_strlit("RegPostIndexReg");
            lemma_decimal_token(a0 as nat);
            lemma_decimal_token(a1 as nat);
            lemma_item_ok_intro(operand_name(o), operand_args(o));
        },
        Operand::PrefetchOp(a0) => {
            reveal_strlit("PrefetchOp");
            lemma_decimal_token(a0 as nat);
            lemma_item_ok_intro(operand_name(o), operand_args(o));
        },
        Operand::SystemReg(a0) => {
            reveal_strlit("SystemReg");
            lemma_decimal_token(a0 as nat);
            lemma_item_ok_intro(operand_name(o), operand_args(o));
        },
        Operand::ControlReg(a0) => {
            reveal_strlit("ControlReg");
            lemma_decimal_token(a0 as nat);
            lemma_item_ok_intro(operand_name(o), operand_args(o));
        },
        Operand::PstateField(a0) => {
            reveal_strlit("PstateField");
            lemma_decimal_token(a0 as nat);
            lemma_item_ok_intro(operand_name(o), operand_args(o));
        },
        _ => {},
    }
}

/// The payload tokens an operation renders with: the condition of `Bcc` and the variant of
/// `CAS`.
pub open spec fn opcode_args(o: Opcode) -> Seq<Seq<char>> {
    match o {
        Opcode::Bcc(c) => seq![decimal(c as nat)],
        Opcode::CAS(c) => seq![decimal(c as nat)],
        _ => Seq::empty(),
    }
}

/// Known operations render as a name of word characters and tokens free of separators.
pub proof fn lemma_opcode_item_ok(o: Opcode)
    requires
        known_opcode(o),
    ensures
        item_ok(opcode_name(o), opcode_args(o)),
        opcode_text(o) == render_item(opcode_name(o), opcode_args(o)),
{
    reveal(opcode_name);
    match o {
        Opcode::ADC => {
            reveal_strlit("ADC");
            lemma_item_ok_intro(opcode_name(o), opcode_args(o));
        },
        Opcode::ADCS => {
            reveal_strlit("ADCS");
            lemma_item_ok_intro(opcode_name(o), opcode_args(o));
        },
        Opcode::ADD => {
            reveal_strlit("ADD");
            lemma_item_ok_intro(opcode_name(o), opcode_args(o));
        },
        Opcode::ADDS => {
            reveal_strlit("ADDS");
            lemma_item_ok_intro(opcode_name(o), opcode_args(o));
        },
        Opcode::ADR => {
            reveal_strlit("ADR");
            lemma_item_ok_intro(opcode_name(o), opcode_args(o));
        },
        Opcode::ADRP => {
            reveal_strlit("ADRP");
            lemma_item_ok_intro(opcode_name(o), opcode_args(o));
        },
        Opcode::AND => {
            reveal_strlit("AND");
            lemma_item_ok_intro(opcode_name(o), opcode_args(o));
        },
        Opcode::ANDS => {
            reveal_strlit("ANDS");
            lemma_item_ok_intro(opcode_name(o), opcode_args(o));
        },
        Opcode::ASRV => {
            reveal_strlit("ASRV");
            lemma_item_ok_intro(opcode_name(o), opcode_args(o));
        },
        Opcode::B => {
            reveal_strlit("B");
            lemma_item_ok_intro(opcode_name(o), opcode_args(o));
        },
        Opcode::BL => {
            reveal_strlit("BL");
            lemma_item_ok_intro(opcode_name(o), opcode_args(o));
        },
        Opcode::BFM => {
            reveal_strlit("BFM");
            lemma_item_ok_intro(opcode_name(o), opcode_args(o));
        },
        Opcode::BIC => {
            reveal_strlit("BIC");
            lemma_item_ok_intro(opcode_name(o), opcode_args(o));
        },
        Opcode::BLR => {
            reveal_strlit("BLR");
            lemma_item_ok_intro(opcode_name(o), opcode_args(o));
        },
        Opcode::BR => {
            reveal_strlit("BR");
            lemma_item_ok_intro(opcode_name(o), opcode_args(o));
        },
        Opcode::CBNZ => {
            reveal_strlit("CBNZ");
            lemma_item_ok_intro(opcode_name(o), opcode_args(o));
        },
        Opcode::CBZ => {
            reveal_strlit("CBZ");
            lemma_item_ok_intro(opcode_name(o), opcode_args(o));
        },
        Opcode::CCMN => {
            reveal_strlit("CCMN");
            lemma_item_ok_intro(opcode_name(o), opcode_args(o));
        },
        Opcode::CCMP => {
            reveal_strlit("CCMP");
            lemma_item_ok_intro(opcode_name(o), opcode_args(o));
        },
        Opcode::CLS => {
            reveal_strlit("CLS");
            lemma_item_ok_intro(opcode_name(o), opcode_args(o));
        },
        Opcode::CLZ => {
            reveal_strlit("CLZ");
            lemma_item_ok_intro(opcode_name(o), opcode_args(o));
        },
        Opcode::CSEL => {
            reveal_strlit("CSEL");
            lemma_item_ok_intro(opcode_name(o), opcode_args(o));
        },
        Opcode::CSINC => {
            reveal_strlit("CSINC");
            lemma_item_ok_intro(opcode_name(o), opcode_args(o));
        },
        Opcode::CSINV => {
            reveal_strlit("CSINV");
            lemma_item_ok_intro(opcode_name(o), opcode_args(o));
        },
        Opcode::CSNEG => {
            reveal_strlit("CSNEG");
            lemma_item_ok_intro(opcode_name(o), opcode_args(o));
        },
        Opcode::EON => {
            reveal_strlit("EON");
            lemma_item_ok_intro(opcode_name(o), opcode_args(o));
        },
        Opcode::EOR => {
            reveal_strlit("EOR");
            lemma_item_ok_intro(opcode_name(o), opcode_args(o));
        },
        Opcode::EXTR => {
            reveal_strlit("EXTR");
            lemma_item_ok_intro(opcode_name(o), opcode_args(o));
        },
        Opcode::HINT => {
            reveal_strlit("HINT");
            lemma_item_ok_intro(opcode_name(o), opcode_args(o));
        },
        Opcode::HVC => {
            reveal_strlit("HVC");
            lemma_item_ok_intro(opcode_name(o), opcode_args(o));
        },
        Opcode::LDP => {
            reveal_strlit("LDP");
            lemma_item_ok_intro(opcode_name(o), opcode_args(o));
        },
        Opcode::LDXP => {
            reveal_strlit("LDXP");
            lemma_item_ok_intro(opcode_name(o), opcode_args(o));
        },
        Opcode::LDPSW => {
            reveal_strlit("LDPSW");
            lemma_item_ok_intro(opcode_name(o), opcode_args(o));
        },
        Opcode::LDR => {
            reveal_strlit("LDR");
            lemma_item_ok_intro(opcode_name(o), opcode_args(o));
        },
        Opcode::LDUR => {
            reveal_strlit("LDUR");
            lemma_item_ok_intro(opcode_name(o), opcode_args(o));
        },
        Opcode::LDAR => {
            reveal_strlit("LDAR");
            lemma_item_ok_intro(opcode_name(o), opcode_args(o));
        },
        Opcode::LDXR => {
            reveal_strlit("LDXR");
            lemma_item_ok_intro(opcode_name(o), opcode_args(o));
        },
        Opcode::LDAXR => {
            reveal_strlit("LDAXR");
            lemma_item_ok_intro(opcode_name(o), opcode_args(o));
        },
        Opcode::LDTR => {
            reveal_strlit("LDTR");
            lemma_item_ok_intro(opcode_name(o), opcode_args(o));
        },
        Opcode::LDRB => {
            reveal_strlit("LDRB");
            lemma_item_ok_intro(opcode_name(o), opcode_args(o));
        },
        Opcode::LDURB => {
            reveal_strlit("LDURB");
            lemma_item_ok_intro(opcode_name(o), opcode_args(o));
        },
        Opcode::LDARB => {
            reveal_strlit("LDARB");
            lemma_item_ok_intro(opcode_name(o), opcode_args(o));
        },
        Opcode::LDXRB => {
            reveal_strlit("LDXRB");
            lemma_item_ok_intro(opcode_name(o), opcode_args(o));
        },
        Opcode::LDAXRB => {
            reveal_strlit("LDAXRB");
            lemma_item_ok_intro(opcode_name(o), opcode_args(o));
        },
        Opcode::LDTRB => {
            reveal_strlit("LDTRB");
            lemma_item_ok_intro(opcode_name(o), opcode_args(o));
        },
        Opcode::LDRH => {
            reveal_strlit("LDRH");
            lemma_item_ok_intro(opcode_name(o), opcode_args(o));
        },
        Opcode::LDURH => {
            reveal_strlit("LDURH");
            lemma_item_ok_intro(opcode_name(o), opcode_args(o));
        },
        Opcode::LDARH => {
            reveal_strlit("LDARH");
            lemma_item_ok_intro(opcode_name(o), opcode_args(o));
        },
        Opcode::LDXRH => {
            reveal_strlit("LDXRH");
            lemma_item_ok_intro(opcode_name(o), opcode_args(o));
        },
        Opcode::LDAXRH => {
            reveal_strlit("LDAXRH");
            lemma_item_ok_intro(opcode_name(o), opcode_args(o));
        },
        Opcode::LDTRH => {
            reveal_strlit("LDTRH");
            lemma_item_ok_intro(opcode_name(o), opcode_args(o));
        },
        Opcode::LDRSB => {
            reveal_strlit("LDRSB");
            lemma_item_ok_intro(opcode_name(o), opcode_args(o));
        },
        Opcode::LDTRSB => {
            reveal_strlit("LDTRSB");
            lemma_item_ok_intro(opcode_name(o), opcode_args(o));
        },
        Opcode::LDURSB => {
            reveal_strlit("LDURSB");
            lemma_item_ok_intro(opcode_name(o), opcode_args(o));
        },
        Opcode::LDRSH => {
            reveal_strlit("LDRSH");
            lemma_item_ok_intro(opcode_name(o), opcode_args(o));
        },
        Opcode::LDTRSH => {
            reveal_strlit("LDTRSH");
            lemma_item_ok_intro(opcode_name(o), opcode_args(o));
        },
        Opcode::LDURSH => {
            reveal_strlit("LDURSH");
            lemma_item_ok_intro(opcode_name(o), opcode_args(o));
        },
        Opcode::LDRSW => {
            reveal_strlit("LDRSW");
            lemma_item_ok_intro(opcode_name(o), opcode_args(o));
        },
        Opcode::LDTRSW => {
            reveal_strlit("LDTRSW");
            lemma_item_ok_intro(opcode_name(o), opcode_args(o));
        },
        Opcode::LDURSW => {
            reveal_strlit("LDURSW");
            lemma_item_ok_intro(opcode_name(o), opcode_args(o));
        },
        Opcode::LSLV => {
            reveal_strlit("LSLV");
            lemma_item_ok_intro(opcode_name(o), opcode_args(o));
        },
        Opcode::LSRV => {
            reveal_strlit("LSRV");
            lemma_item_ok_intro(opcode_name(o), opcode_args(o));
        },
        Opcode::MADD => {
            reveal_strlit("MADD");
            lemma_item_ok_intro(opcode_name(o), opcode_args(o));
        },
        Opcode::MOVK => {
            reveal_strlit("MOVK");
            lemma_item_ok_intro(opcode_name(o), opcode_args(o));
        },
        Opcode::MOVN => {
            reveal_strlit("MOVN");
            lemma_item_ok_intro(opcode_name(o), opcode_args(o));
        },
        Opcode::MOVZ => {
            reveal_strlit("MOVZ");
            lemma_item_ok_intro(opcode_name(o), opcode_args(o));
        },
        Opcode::MSUB => {
            reveal_strlit("MSUB");
            lemma_item_ok_intro(opcode_name(o), opcode_args(o));
        },
        Opcode::NEG => {
            reveal_strlit("NEG");
            lemma_item_ok_intro(opcode_name(o), opcode_args(o));
        },
        Opcode::ORN => {
            reveal_strlit("ORN");
            lemma_item_ok_intro(opcode_name(o), opcode_args(o));
        },
        Opcode::ORR => {
            reveal_strlit("ORR");
            lemma_item_ok_intro(opcode_name(o), opcode_args(o));
        },
        Opcode::PRFM => {
            reveal_strlit("PRFM");
            lemma_item_ok_intro(opcode_name(o), opcode_args(o));
        },
        Opcode::PRFUM => {
            reveal_strlit("PRFUM");
            lemma_item_ok_intro(opcode_name(o), opcode_args(o));
        },
        Opcode::RBIT => {
            reveal_strlit("RBIT");
            lemma_item_ok_intro(opcode_name(o), opcode_args(o));
        },
        Opcode::RET => {
            reveal_strlit("RET");
            lemma_item_ok_intro(opcode_name(o), opcode_args(o));
        },
        Opcode::RETAB => {
            reveal_strlit("RETAB");
            lemma_item_ok_intro(opcode_name(o), opcode_args(o));
        },
        Opcode::RETAA => {
            reveal_strlit("RETAA");
            lemma_item_ok_intro(opcode_name(o), opcode_args(o));
        },
        Opcode::REV => {
            reveal_strlit("REV");
            lemma_item_ok_intro(opcode_name(o), opcode_args(o));
        },
        Opcode::REV64 => {
            reveal_strlit("REV64");
            lemma_item_ok_intro(opcode_name(o), opcode_args(o));
        },
        Opcode::REV16 => {
            reveal_strlit("REV16");
            lemma_item_ok_intro(opcode_name(o), opcode_args(o));
        },
        Opcode::REV32 => {
            reveal_strlit("REV32");
            lemma_item_ok_intro(opcode_name(o), opcode_args(o));
        },
        Opcode::RORV => {
            reveal_strlit("RORV");
            lemma_item_ok_intro(opcode_name(o), opcode_args(o));
        },
        Opcode::SBC => {
            reveal_strlit("SBC");
            lemma_item_ok_intro(opcode_name(o), opcode_args(o));
        },
        Opcode::SBCS => {
            reveal_strlit("SBCS");
            lemma_item_ok_intro(opcode_name(o), opcode_args(o));
        },
        Opcode::SBFM => {
            reveal_strlit("SBFM");
            lemma_item_ok_intro(opcode_name(o), opcode_args(o));
        },
        Opcode::SDIV => {
            reveal_strlit("SDIV");
            lemma_item_ok_intro(opcode_name(o), opcode_args(o));
        },
        Opcode::SMADDL => {
            reveal_strlit("SMADDL");
            lemma_item_ok_intro(opcode_name(o), opcode_args(o));
        },
        Opcode::SMC => {
            reveal_strlit("SMC");
            lemma_item_ok_intro(opcode_name(o), opcode_args(o));
        },
        Opcode::SMSUBL => {
            reveal_strlit("SMSUBL");
            lemma_item_ok_intro(opcode_name(o), opcode_args(o));
        },
        Opcode::SMULH => {
            reveal_strlit("SMULH");
            lemma_item_ok_intro(opcode_name(o), opcode_args(o));
        },
        Opcode::STP => {
            reveal_strlit("STP");
            lemma_item_ok_intro(opcode_name(o), opcode_args(o));
        },
        Opcode::STNP => {
            reveal_strlit("STNP");
            lemma_item_ok_intro(opcode_name(o), opcode_args(o));
        },
        Opcode::STXP => {
            reveal_strlit("STXP");
            lemma_item_ok_intro(opcode_name(o), opcode_args(o));
        },
        Opcode::STLXP => {
            reveal_strlit("STLXP");
            lemma_item_ok_intro(opcode_name(o), opcode_args(o));
        },
        Opcode::STR => {
            reveal_strlit("STR");
            lemma_item_ok_intro(opcode_name(o), opcode_args(o));
        },
        Opcode::STLR => {
            reveal_strlit("STLR");
            lemma_item_ok_intro(opcode_name(o), opcode_args(o));
        },
        Opcode::STUR => {
            reveal_strlit("STUR");
            lemma_item_ok_intro(opcode_name(o), opcode_args(o));
        },
        Opcode::STLUR => {
            reveal_strlit("STLUR");
            lemma_item_ok_intro(opcode_name(o), opcode_args(o));
        },
        Opcode::STTR => {
            reveal_strlit("STTR");
            lemma_item_ok_intro(opcode_name(o), opcode_args(o));
        },
        Opcode::STLXR => {
            reveal_strlit("STLXR");
            lemma_item_ok_intro(opcode_name(o), opcode_args(o));
        },
        Opcode::STXR => {
            reveal_strlit("STXR");
            lemma_item_ok_intro(opcode_name(o), opcode_args(o));
        },
        Opcode::STRB => {
            reveal_strlit("STRB");
            lemma_item_ok_intro(opcode_name(o), opcode_args(o));
        },
        Opcode::STLRB => {
            reveal_strlit("STLRB");
            lemma_item_ok_intro(opcode_name(o), opcode_args(o));
        },
        Opcode::STURB => {
            reveal_strlit("STURB");
            lemma_item_ok_intro(opcode_name(o), opcode_args(o));
        },
        Opcode::STLURB => {
            reveal_strlit("STLURB");
            lemma_item_ok_intro(opcode_name(o), opcode_args(o));
        },
        Opcode::STTRB => {
            reveal_strlit("STTRB");
            lemma_item_ok_intro(opcode_name(o), opcode_args(o));
        },
        Opcode::STLXRB => {
            reveal_strlit("STLXRB");
            lemma_item_ok_intro(opcode_name(o), opcode_args(o));
        },
        Opcode::STXRB => {
            reveal_strlit("STXRB");
            lemma_item_ok_intro(opcode_name(o), opcode_args(o));
        },
        Opcode::STRH => {
            reveal_strlit("STRH");
            lemma_item_ok_intro(opcode_name(o), opcode_args(o));
        },
        Opcode::STLRH => {
            reveal_strlit("STLRH");
            lemma_item_ok_intro(opcode_name(o), opcode_args(o));
        },
        Opcode::STURH => {
            reveal_strlit("STURH");
            lemma_item_ok_intro(opcode_name(o), opcode_args(o));
        },
        Opcode::STLURH => {
            reveal_strlit("STLURH");
            lemma_item_ok_intro(opcode_name(o), opcode_args(o));
        },
        Opcode::STTRH => {
            reveal_strlit("STTRH");
            lemma_item_ok_intro(opcode_name(o), opcode_args(o));
        },
        Opcode::STLXRH => {
            reveal_strlit("STLXRH");
            lemma_item_ok_intro(opcode_name(o), opcode_args(o));
        },
        Opcode::STXRH => {
            reveal_strlit("STXRH");
            lemma_item_ok_intro(opcode_name(o), opcode_args(o));
        },
        Opcode::SUB => {
            reveal_strlit("SUB");
            lemma_item_ok_intro(opcode_name(o), opcode_args(o));
        },
        Opcode::SUBS => {
            reveal_strlit("SUBS");
            lemma_item_ok_intro(opcode_name(o), opcode_args(o));
        },
        Opcode::SVC => {
            reveal_strlit("SVC");
            lemma_item_ok_intro(opcode_name(o), opcode_args(o));
        },
        Opcode::TBNZ => {
            reveal_strlit("TBNZ");
            lemma_item_ok_intro(opcode_name(o), opcode_args(o));
        },
        Opcode::TBZ => {
            reveal_strlit("TBZ");
            lemma_item_ok_intro(opcode_name(o), opcode_args(o));
        },
        Opcode::UBFM => {
            reveal_strlit("UBFM");
            lemma_item_ok_intro(opcode_name(o), opcode_args(o));
        },
        Opcode::UDF => {
            reveal_strlit("UDF");
            lemma_item_ok_intro(opcode_name(o), opcode_args(o));
        },
        Opcode::UDIV => {
            reveal_strlit("UDIV");
            lemma_item_ok_intro(opcode_name(o), opcode_args(o));
        },
        Opcode::UMADDL => {
            reveal_strlit("UMADDL");
            lemma_item_ok_intro(opcode_name(o), opcode_args(o));
        },
        Opcode::UMSUBL => {
            reveal_strlit("UMSUBL");
            lemma_item_ok_intro(opcode_name(o), opcode_args(o));
        },
        Opcode::UMULH => {
            reveal_strlit("UMULH");
            lemma_item_ok_intro(opcode_name(o), opcode_args(o));
        },
        Opcode::Bcc(c) => {
            reveal_strlit("Bcc");
            lemma_decimal_token(c as nat);
            lemma_item_ok_intro(opcode_name(o), opcode_args(o));
        },
        Opcode::CAS(c) => {
            reveal_strlit("CAS");
            lemma_decimal_token(c as nat);
            lemma_item_ok_intro(opcode_name(o), opcode_args(o));
        },
        _ => {},
    }
}

/// The rendering of an item stands at `pos` of `s`, and what follows cannot continue its name.
pub open spec fn item_at(s: Seq<char>, pos: int, name: Seq<char>, args: Seq<Seq<char>>) -> bool {
    let l = render_item(name, args).len();
    &&& 0 <= pos
    &&& pos + l <= s.len()
    &&& s.subrange(pos, pos + l) == render_item(name, args)
    &&& pos + l < s.len() ==> !is_word_char(s[pos + l]) && s[pos + l] != '('
}

/// A list of tokens renders as its first token, then a comma and the rendering of the rest.
pub proof fn lemma_render_args_head(ta: Seq<Seq<char>>)
    requires
        ta.len() >= 1,
    ensures
        render_args(ta) == if ta.len() == 1 {
            ta[0]
        } else {
            ta[0] + ", "@ + render_args(ta.drop_first())
        },
    decreases ta.len(),
{
    if ta.len() == 1 {
    } else if ta.len() == 2 {
        assert(ta.drop_last() =~= seq![ta[0]]);
        assert(ta.drop_first() =~= seq![ta[1]]);
        assert(render_args(ta.drop_last()) == ta[0]);
        assert(render_args(ta.drop_first()) == ta[1]);
    } else {
        let d = ta.drop_last();
        lemma_render_args_head(d);
        assert(d.drop_first() =~= ta.drop_first().drop_last());
        assert(ta.drop_first().last() == ta.last());
        assert(render_args(ta.drop_first()) == render_args(ta.drop_first().drop_last()) + ", "@
            + ta.drop_first().last());
        assert(render_args(ta) =~= ta[0] + ", "@ + render_args(ta.drop_first()));
    }
}

/// The rendering of an item that has arguments: its name, an opening parenthesis, the tokens
/// and a closing parenthesis.
pub proof fn lemma_render_item_parts(name: Seq<char>, args: Seq<Seq<char>>)
    ensures
        render_item(name, args).len() >= name.len(),
        render_item(name, args).subrange(0, name.len() as int) == name,
        args.len() > 0 ==> render_item(name, args).len() == name.len() + render_args(args).len() + 2,
        args.len() > 0 ==> render_item(name, args)[name.len() as int] == '(',
        args.len() > 0 ==> render_item(name, args).subrange(
            name.len() + 1int,
            name.len() + 1int + render_args(args).len(),
        ) == render_args(args),
        args.len() > 0 ==> render_item(name, args)[name.len() + 1int + render_args(args).len()]
            == ')',
{
    let r = render_item(name, args);
    if args.len() > 0 {
        assert(r == name + seq!['('] + render_args(args) + seq![')']);
        assert(r.subrange(0, name.len() as int) =~= name);
        assert(r.subrange(name.len() + 1int, name.len() + 1int + render_args(args).len()) =~= render_args(
            args,
        ));
    } else {
        assert(r.subrange(0, name.len() as int) =~= name);
    }
}

/// No known operation renders with the name of `SYS` or `SYSL`.
pub proof fn lemma_opcode_not_sys(o: Opcode)
    requires
        known_opcode(o),
    ensures
        opcode_name(o) != "SYS"@,
        opcode_name(o) != "SYSL"@,
{
    reveal(opcode_name);
    reveal_strlit("SYS");
    reveal_strlit("SYSL");
    assert("SYS"@.len() == 3);
    assert("SYSL"@.len() == 4);
    match o {
        Opcode::ADC => {
            reveal_strlit("ADC");
            assert("ADC"@.len() == 3);
            assert("ADC"@[0] != "SYS"@[0]);
        },
        Opcode::ADCS => {
            reveal_strlit("ADCS");
            assert("ADCS"@.len() == 4);
            assert("ADCS"@[0] != "SYSL"@[0]);
        },
        Opcode::ADD => {
            reveal_strlit("ADD");
            assert("ADD"@.len() == 3);
            assert("ADD"@[0] != "SYS"@[0]);
        },
        Opcode::ADDS => {
            reveal_strlit("ADDS");
            assert("ADDS"@.len() == 4);
            assert("ADDS"@[0] != "SYSL"@[0]);
        },
        Opcode::ADR => {
            reveal_strlit("ADR");
            assert("ADR"@.len() == 3);
            assert("ADR"@[0] != "SYS"@[0]);
        },
        Opcode::ADRP => {
            reveal_strlit("ADRP");
            assert("ADRP"@.len() == 4);
            assert("ADRP"@[0] != "SYSL"@[0]);
        },
        Opcode::AND => {
            reveal_strlit("AND");
            assert("AND"@.len() == 3);
            assert("AND"@[0] != "SYS"@[0]);
        },
        Opcode::ANDS => {
            reveal_strlit("ANDS");
            assert("ANDS"@.len() == 4);
            assert("ANDS"@[0] != "SYSL"@[0]);
        },
        Opcode::ASRV => {
            reveal_strlit("ASRV");
            assert("ASRV"@.len() == 4);
            assert("ASRV"@[0] != "SYSL"@[0]);
        },
        Opcode::B => {
            reveal_strlit("B");
            assert("B"@.len() == 1);
        },
        Opcode::BL => {
            reveal_strlit("BL");
            assert("BL"@.len() == 2);
        },
        Opcode::BFM => {
            reveal_strlit("BFM");
            assert("BFM"@.len() == 3);
            assert("BFM"@[0] != "SYS"@[0]);
        },
        Opcode::BIC => {
            reveal_strlit("BIC");
            assert("BIC"@.len() == 3);
            assert("BIC"@[0] != "SYS"@[0]);
        },
        Opcode::BLR => {
            reveal_strlit("BLR");
            assert("BLR"@.len() == 3);
            assert("BLR"@[0] != "SYS"@[0]);
        },
        Opcode::BR => {
            reveal_strlit("BR");
            assert("BR"@.len() == 2);
        },
        Opcode::CBNZ => {
            reveal_strlit("CBNZ");
            assert("CBNZ"@.len() == 4);
            assert("CBNZ"@[0] != "SYSL"@[0]);
        },
        Opcode::CBZ => {
            reveal_strlit("CBZ");
            assert("CBZ"@.len() == 3);
            assert("CBZ"@[0] != "SYS"@[0]);
        },
        Opcode::CCMN => {
            reveal_strlit("CCMN");
            assert("CCMN"@.len() == 4);
            assert("CCMN"@[0] != "SYSL"@[0]);
        },
        Opcode::CCMP => {
            reveal_strlit("CCMP");
            assert("CCMP"@.len() == 4);
            assert("CCMP"@[0] != "SYSL"@[0]);
        },
        Opcode::CLS => {
            reveal_strlit("CLS");
            assert("CLS"@.len() == 3);
            assert("CLS"@[0] != "SYS"@[0]);
        },
        Opcode::CLZ => {
            reveal_strlit("CLZ");
            assert("CLZ"@.len() == 3);
            assert("CLZ"@[0] != "SYS"@[0]);
        },
        Opcode::CSEL => {
            reveal_strlit("CSEL");
            assert("CSEL"@.len() == 4);
            assert("CSEL"@[0] != "SYSL"@[0]);
        },
        Opcode::CSINC => {
            reveal_strlit("CSINC");
            assert("CSINC"@.len() == 5);
        },
        Opcode::CSINV => {
            reveal_strlit("CSINV");
            assert("CSINV"@.len() == 5);
        },
        Opcode::CSNEG => {
            reveal_strlit("CSNEG");
            assert("CSNEG"@.len() == 5);
        },
        Opcode::EON => {
            reveal_strlit("EON");
            assert("EON"@.len() == 3);
            assert("EON"@[0] != "SYS"@[0]);
        },
        Opcode::EOR => {
            reveal_strlit("EOR");
            assert("EOR"@.len() == 3);
            assert("EOR"@[0] != "SYS"@[0]);
        },
        Opcode::EXTR => {
            reveal_strlit("EXTR");
            assert("EXTR"@.len() == 4);
            assert("EXTR"@[0] != "SYSL"@[0]);
        },
        Opcode::HINT => {
            reveal_strlit("HINT");
            assert("HINT"@.len() == 4);
            assert("HINT"@[0] != "SYSL"@[0]);
        },
        Opcode::HVC => {
            reveal_strlit("HVC");
            assert("HVC"@.len() == 3);
            assert("HVC"@[0] != "SYS"@[0]);
        },
        Opcode::LDP => {
            reveal_strlit("LDP");
            assert("LDP"@.len() == 3);
            assert("LDP"@[0] != "SYS"@[0]);
        },
        Opcode::LDXP => {
            reveal_strlit("LDXP");
            assert("LDXP"@.len() == 4);
            assert("LDXP"@[0] != "SYSL"@[0]);
        },
        Opcode::LDPSW => {
            reveal_strlit("LDPSW");
            assert("LDPSW"@.len() == 5);
        },
        Opcode::LDR => {
            reveal_strlit("LDR");
            assert("LDR"@.len() == 3);
            assert("LDR"@[0] != "SYS"@[0]);
        },
        Opcode::LDUR => {
            reveal_strlit("LDUR");
            assert("LDUR"@.len() == 4);
            assert("LDUR"@[0] != "SYSL"@[0]);
        },
        Opcode::LDAR => {
            reveal_strlit("LDAR");
            assert("LDAR"@.len() == 4);
            assert("LDAR"@[0] != "SYSL"@[0]);
        },
        Opcode::LDXR => {
            reveal_strlit("LDXR");
            assert("LDXR"@.len() == 4);
            assert("LDXR"@[0] != "SYSL"@[0]);
        },
        Opcode::LDAXR => {
            reveal_strlit("LDAXR");
            assert("LDAXR"@.len() == 5);
        },
        Opcode::LDTR => {
            reveal_strlit("LDTR");
            assert("LDTR"@.len() == 4);
            assert("LDTR"@[0] != "SYSL"@[0]);
        },
        Opcode::LDRB => {
            reveal_strlit("LDRB");
            assert("LDRB"@.len() == 4);
            assert("LDRB"@[0] != "SYSL"@[0]);
        },
        Opcode::LDURB => {
            reveal_strlit("LDURB");
            assert("LDURB"@.len() == 5);
        },
        Opcode::LDARB => {
            reveal_strlit("LDARB");
            assert("LDARB"@.len() == 5);
        },
        Opcode::LDXRB => {
            reveal_strlit("LDXRB");
            assert("LDXRB"@.len() == 5);
        },
        Opcode::LDAXRB => {
            reveal_strlit("LDAXRB");
            assert("LDAXRB"@.len() == 6);
        },
        Opcode::LDTRB => {
            reveal_strlit("LDTRB");
            assert("LDTRB"@.len() == 5);
        },
        Opcode::LDRH => {
            reveal_strlit("LDRH");
            assert("LDRH"@.len() == 4);
            assert("LDRH"@[0] != "SYSL"@[0]);
        },
        Opcode::LDURH => {
            reveal_strlit("LDURH");
            assert("LDURH"@.len() == 5);
        },
        Opcode::LDARH => {
            reveal_strlit("LDARH");
            assert("LDARH"@.len() == 5);
        },
        Opcode::LDXRH => {
            reveal_strlit("LDXRH");
            assert("LDXRH"@.len() == 5);
        },
        Opcode::LDAXRH => {
            reveal_strlit("LDAXRH");
            assert("LDAXRH"@.len() == 6);
        },
        Opcode::LDTRH => {
            reveal_strlit("LDTRH");
            assert("LDTRH"@.len() == 5);
        },
        Opcode::LDRSB => {
            reveal_strlit("LDRSB");
            assert("LDRSB"@.len() == 5);
        },
        Opcode::LDTRSB => {
            reveal_strlit("LDTRSB");
            assert("LDTRSB"@.len() == 6);
        },
        Opcode::LDURSB => {
            reveal_strlit("LDURSB");
            assert("LDURSB"@.len() == 6);
        },
        Opcode::LDRSH => {
            reveal_strlit("LDRSH");
            assert("LDRSH"@.len() == 5);
        },
        Opcode::LDTRSH => {
            reveal_strlit("LDTRSH");
            assert("LDTRSH"@.len() == 6);
        },
        Opcode::LDURSH => {
            reveal_strlit("LDURSH");
            assert("LDURSH"@.len() == 6);
        },
        Opcode::LDRSW => {
            reveal_strlit("LDRSW");
            assert("LDRSW"@.len() == 5);
        },
        Opcode::LDTRSW => {
            reveal_strlit("LDTRSW");
            assert("LDTRSW"@.len() == 6);
        },
        Opcode::LDURSW => {
            reveal_strlit("LDURSW");
            assert("LDURSW"@.len() == 6);
        },
        Opcode::LSLV => {
            reveal_strlit("LSLV");
            assert("LSLV"@.len() == 4);
            assert("LSLV"@[0] != "SYSL"@[0]);
        },
        Opcode::LSRV => {
            reveal_strlit("LSRV");
            assert("LSRV"@.len() == 4);
            assert("LSRV"@[0] != "SYSL"@[0]);
        },
        Opcode::MADD => {
            reveal_strlit("MADD");
            assert("MADD"@.len() == 4);
            assert("MADD"@[0] != "SYSL"@[0]);
        },
        Opcode::MOVK => {
            reveal_strlit("MOVK");
            assert("MOVK"@.len() == 4);
            assert("MOVK"@[0] != "SYSL"@[0]);
        },
        Opcode::MOVN => {
            reveal_strlit("MOVN");
            assert("MOVN"@.len() == 4);
            assert("MOVN"@[0] != "SYSL"@[0]);
        },
        Opcode::MOVZ => {
            reveal_strlit("MOVZ");
            assert("MOVZ"@.len() == 4);
            assert("MOVZ"@[0] != "SYSL"@[0]);
        },
        Opcode::MSUB => {
            reveal_strlit("MSUB");
            assert("MSUB"@.len() == 4);
            assert("MSUB"@[0] != "SYSL"@[0]);
        },
        Opcode::NEG => {
            reveal_strlit("NEG");
            assert("NEG"@.len() == 3);
            assert("NEG"@[0] != "SYS"@[0]);
        },
        Opcode::ORN => {
            reveal_strlit("ORN");
            assert("ORN"@.len() == 3);
            assert("ORN"@[0] != "SYS"@[0]);
        },
        Opcode::ORR => {
            reveal_strlit("ORR");
            assert("ORR"@.len() == 3);
            assert("ORR"@[0] != "SYS"@[0]);
        },
        Opcode::PRFM => {
            reveal_strlit("PRFM");
            assert("PRFM"@.len() == 4);
            assert("PRFM"@[0] != "SYSL"@[0]);
        },
        Opcode::PRFUM => {
            reveal_strlit("PRFUM");
            assert("PRFUM"@.len() == 5);
        },
        Opcode::RBIT => {
            reveal_strlit("RBIT");
            assert("RBIT"@.len() == 4);
            assert("RBIT"@[0] != "SYSL"@[0]);
        },
        Opcode::RET => {
            reveal_strlit("RET");
            assert("RET"@.len() == 3);
            assert("RET"@[0] != "SYS"@[0]);
        },
        Opcode::RETAB => {
            reveal_strlit("RETAB");
            assert("RETAB"@.len() == 5);
        },
        Opcode::RETAA => {
            reveal_strlit("RETAA");
            assert("RETAA"@.len() == 5);
        },
        Opcode::REV => {
            reveal_strlit("REV");
            assert("REV"@.len() == 3);
            assert("REV"@[0] != "SYS"@[0]);
        },
        Opcode::REV64 => {
            reveal_strlit("REV64");
            assert("REV64"@.len() == 5);
        },
        Opcode::REV16 => {
            reveal_strlit("REV16");
            assert("REV16"@.len() == 5);
        },
        Opcode::REV32 => {
            reveal_strlit("REV32");
            assert("REV32"@.len() == 5);
        },
        Opcode::RORV => {
            reveal_strlit("RORV");
            assert("RORV"@.len() == 4);
            assert("RORV"@[0] != "SYSL"@[0]);
        },
        Opcode::SBC => {
            reveal_strlit("SBC");
            assert("SBC"@.len() == 3);
            assert("SBC"@[1] != "SYS"@[1]);
        },
        Opcode::SBCS => {
            reveal_strlit("SBCS");
            assert("SBCS"@.len() == 4);
            assert("SBCS"@[1] != "SYSL"@[1]);
        },
        Opcode::SBFM => {
            reveal_strlit("SBFM");
            assert("SBFM"@.len() == 4);
            assert("SBFM"@[1] != "SYSL"@[1]);
        },
        Opcode::SDIV => {
            reveal_strlit("SDIV");
            assert("SDIV"@.len() == 4);
            assert("SDIV"@[1] != "SYSL"@[1]);
        },
        Opcode::SMADDL => {
            reveal_strlit("SMADDL");
            assert("SMADDL"@.len() == 6);
        },
        Opcode::SMC => {
            reveal_strlit("SMC");
            assert("SMC"@.len() == 3);
            assert("SMC"@[1] != "SYS"@[1]);
        },
        Opcode::SMSUBL => {
            reveal_strlit("SMSUBL");
            assert("SMSUBL"@.len() == 6);
        },
        Opcode::SMULH => {
            reveal_strlit("SMULH");
            assert("SMULH"@.len() == 5);
        },
        Opcode::STP => {
            reveal_strlit("STP");
            assert("STP"@.len() == 3);
            assert("STP"@[1] != "SYS"@[1]);
        },
        Opcode::STNP => {
            reveal_strlit("STNP");
            assert("STNP"@.len() == 4);
            assert("STNP"@[1] != "SYSL"@[1]);
        },
        Opcode::STXP => {
            reveal_strlit("STXP");
            assert("STXP"@.len() == 4);
            assert("STXP"@[1] != "SYSL"@[1]);
        },
        Opcode::STLXP => {
            reveal_strlit("STLXP");
            assert("STLXP"@.len() == 5);
        },
        Opcode::STR => {
            reveal_strlit("STR");
            assert("STR"@.len() == 3);
            assert("STR"@[1] != "SYS"@[1]);
        },
        Opcode::STLR => {
            reveal_strlit("STLR");
            assert("STLR"@.len() == 4);
            assert("STLR"@[1] != "SYSL"@[1]);
        },
        Opcode::STUR => {
            reveal_strlit("STUR");
            assert("STUR"@.len() == 4);
            assert("STUR"@[1] != "SYSL"@[1]);
        },
        Opcode::STLUR => {
            reveal_strlit("STLUR");
            assert("STLUR"@.len() == 5);
        },
        Opcode::STTR => {
            reveal_strlit("STTR");
            assert("STTR"@.len() == 4);
            assert("STTR"@[1] != "SYSL"@[1]);
        },
        Opcode::STLXR => {
            reveal_strlit("STLXR");
            assert("STLXR"@.len() == 5);
        },
        Opcode::STXR => {
            reveal_strlit("STXR");
            assert("STXR"@.len() == 4);
            assert("STXR"@[1] != "SYSL"@[1]);
        },
        Opcode::STRB => {
            reveal_strlit("STRB");
            assert("STRB"@.len() == 4);
            assert("STRB"@[1] != "SYSL"@[1]);
        },
        Opcode::STLRB => {
            reveal_strlit("STLRB");
            assert("STLRB"@.len() == 5);
        },
        Opcode::STURB => {
            reveal_strlit("STURB");
            assert("STURB"@.len() == 5);
        },
        Opcode::STLURB => {
            reveal_strlit("STLURB");
            assert("STLURB"@.len() == 6);
        },
        Opcode::STTRB => {
            reveal_strlit("STTRB");
            assert("STTRB"@.len() == 5);
        },
        Opcode::STLXRB => {
            reveal_strlit("STLXRB");
            assert("STLXRB"@.len() == 6);
        },
        Opcode::STXRB => {
            reveal_strlit("STXRB");
            assert("STXRB"@.len() == 5);
        },
        Opcode::STRH => {
            reveal_strlit("STRH");
            assert("STRH"@.len() == 4);
            assert("STRH"@[1] != "SYSL"@[1]);
        },
        Opcode::STLRH => {
            reveal_strlit("STLRH");
            assert("STLRH"@.len() == 5);
        },
        Opcode::STURH => {
            reveal_strlit("STURH");
            assert("STURH"@.len() == 5);
        },
        Opcode::STLURH => {
            reveal_strlit("STLURH");
            assert("STLURH"@.len() == 6);
        },
        Opcode::STTRH => {
            reveal_strlit("STTRH");
            assert("STTRH"@.len() == 5);
        },
        Opcode::STLXRH => {
            reveal_strlit("STLXRH");
            assert("STLXRH"@.len() == 6);
        },
        Opcode::STXRH => {
            reveal_strlit("STXRH");
            assert("STXRH"@.len() == 5);
        },
        Opcode::SUB => {
            reveal_strlit("SUB");
            assert("SUB"@.len() == 3);
            assert("SUB"@[1] != "SYS"@[1]);
        },
        Opcode::SUBS => {
            reveal_strlit("SUBS");
            assert("SUBS"@.len() == 4);
            assert("SUBS"@[1] != "SYSL"@[1]);
        },
        Opcode::SVC => {
            reveal_strlit("SVC");
            assert("SVC"@.len() == 3);
            assert("SVC"@[1] != "SYS"@[1]);
        },
        Opcode::TBNZ => {
            reveal_strlit("TBNZ");
            assert("TBNZ"@.len() == 4);
            assert("TBNZ"@[0] != "SYSL"@[0]);
        },
        Opcode::TBZ => {
            reveal_strlit("TBZ");
            assert("TBZ"@.len() == 3);
            assert("TBZ"@[0] != "SYS"@[0]);
        },
        Opcode::UBFM => {
            reveal_strlit("UBFM");
            assert("UBFM"@.len() == 4);
            assert("UBFM"@[0] != "SYSL"@[0]);
        },
        Opcode::UDF => {
            reveal_strlit("UDF");
            assert("UDF"@.len() == 3);
            assert("UDF"@[0] != "SYS"@[0]);
        },
        Opcode::UDIV => {
            reveal_strlit("UDIV");
            assert("UDIV"@.len() == 4);
            assert("UDIV"@[0] != "SYSL"@[0]);
        },
        Opcode::UMADDL => {
            reveal_strlit("UMADDL");
            assert("UMADDL"@.len() == 6);
        },
        Opcode::UMSUBL => {
            reveal_strlit("UMSUBL");
            assert("UMSUBL"@.len() == 6);
        },
        Opcode::UMULH => {
            reveal_strlit("UMULH");
            assert("UMULH"@.len() == 5);
        },
        Opcode::Bcc(_) => {
            reveal_strlit("Bcc");
            assert("Bcc"@.len() == 3);
            assert("Bcc"@[0] != "SYS"@[0]);
        },
        Opcode::CAS(_) => {
            reveal_strlit("CAS");
            assert("CAS"@.len() == 3);
            assert("CAS"@[0] != "SYS"@[0]);
        },
        _ => {},
    }
}

/// Where `a` followed by `b` stands at `p` of `s`, `a` occupies the positions from `p` on and
/// `b` follows it.
pub proof fn lemma_split_at(s: Seq<char>, p: int, a: Seq<char>, b: Seq<char>)
    requires
        0 <= p <= s.len(),
        s.skip(p) == a + b,
    ensures
        p + a.len() <= s.len(),
        s.subrange(p, p + a.len()) == a,
        s.skip(p + a.len()) == b,
        b.len() > 0 ==> s[p + a.len()] == b[0],
{
    assert(s.subrange(p, p + a.len()) =~= s.skip(p).subrange(0, a.len() as int));
    assert((a + b).subrange(0, a.len() as int) =~= a);
    assert(s.skip(p + a.len()) =~= s.skip(p).skip(a.len() as int));
    assert((a + b).skip(a.len() as int) =~= b);
    if b.len() > 0 {
        assert(s.skip(p)[a.len() as int] == s[p + a.len()]);
    }
}

} // verus!
