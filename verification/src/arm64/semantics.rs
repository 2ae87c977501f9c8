//! What the integer operations of the intermediate representation compute, and what the
//! lifted code for condition codes, flag settings and the arithmetic and logical instructions
//! therefore computes.
//!
//! A value of type `t` is an integer in `0..modulus(t)`.  The register reads, loads, the
//! arithmetic, logic, shift, extension and comparison operations are given a meaning here;
//! every other operation is given the value 0, and nothing is claimed of it.

use crate::arm64::decode::{Instruction, Opcode, Operand, ShiftStyle, SizeCode};
use crate::arm64::helper::{inst_type, sizecode_type};
use crate::arm64::ir::{CmpTy, InstV, IrOp, Ty, Val, NUM_REGS, REG_C, REG_N, REG_SP, REG_V, REG_Z};
use vstd::arithmetic::power2::pow2;
use crate::arm64::lifter::arith::{arith_op, arith_spec, logic_flags_spec};
use crate::arm64::lifter::bitfield::{xbfm_high_spec, xbfm_low_spec, xbfm_spec};
use crate::arm64::lifter::memory::{is_load, is_load_byte, is_load_full, is_load_half, is_load_sbyte, is_load_shalf, is_load_sword, load_spec};
use crate::arm64::lifter::common::{dst, dst_ok, gv, op1, op2};
use crate::arm64::lifter::operands::value_spec;
use crate::arm64::lifter::branch::{cbz_spec, jump_spec, jumpif_spec, next_pc, target_of};
use crate::arm64::lifter::select::{ccmp_spec, cond_at, cond_ok, csel_names, csel_spec};
use crate::arm64::lifter::regs::write_spec;
use crate::arm64::lifter::conditions::condition_spec;
use crate::arm64::lifter::flags::{adc_flags_spec, flags_to_value_spec};
use crate::arm64::lifter::LState;
use vstd::prelude::*;

verus! {

/// Number of values of a type: two to the power of its width.
pub open spec fn modulus(t: Ty) -> int {
    match t {
        Ty::I1 => 2,
        Ty::I8 => 0x100,
        Ty::I16 => 0x1_0000,
        Ty::I32 => 0x1_0000_0000,
        Ty::I64 => 0x1_0000_0000_0000_0000int,
        Ty::I128 => 0x1_0000_0000_0000_0000_0000_0000_0000_0000int,
    }
}

/// A value of type `t` read as a two's complement signed number.
pub open spec fn signed(x: int, t: Ty) -> int {
    if 2 * x >= modulus(t) {
        x - modulus(t)
    } else {
        x
    }
}

/// Whether comparison `c` holds between values `a` and `b` of type `t`.
pub open spec fn cmp_holds(c: CmpTy, a: int, b: int, t: Ty) -> bool {
    match c {
        CmpTy::Eq => a == b,
        CmpTy::Ne => a != b,
        CmpTy::Slt => signed(a, t) < signed(b, t),
        CmpTy::Sle => signed(a, t) <= signed(b, t),
        CmpTy::Sgt => signed(a, t) > signed(b, t),
        CmpTy::Sge => signed(a, t) >= signed(b, t),
        CmpTy::Ult => a < b,
        CmpTy::Ule => a <= b,
        CmpTy::Ugt => a > b,
        CmpTy::Uge => a >= b,
    }
}

/// Bitwise and of two values.
pub open spec fn bits_and(a: int, b: int) -> int {
    ((a as u128) & (b as u128)) as int
}

/// Bitwise or of two values.
pub open spec fn bits_or(a: int, b: int) -> int {
    ((a as u128) | (b as u128)) as int
}

/// Bitwise exclusive or of two values.
pub open spec fn bits_xor(a: int, b: int) -> int {
    ((a as u128) ^ (b as u128)) as int
}

/// One for true, zero for false.
pub open spec fn bit(b: bool) -> int {
    if b {
        1
    } else {
        0
    }
}

/// The value of operand `v` of instruction `k`, where the registers hold `regs`: a
/// constant, a register's content, or the value of an earlier instruction.
pub open spec fn ir_arg(insts: Seq<InstV>, regs: spec_fn(usize) -> int, v: Val, k: int) -> int
    decreases k, 0int,
{
    match v {
        Val::Const(c) => c as int,
        Val::Inst(j) => if 0 <= j < k {
            ir_value(insts, regs, j as int)
        } else {
            0
        },
        Val::Reg(i) => regs(i),
        Val::Label(_) => 0,
    }
}

/// `a` shifted left by `b` bits, as a value with modulus `m`.
pub open spec fn shl_value(a: int, b: int, m: int) -> int {
    (a * pow2(b as nat)) % m
}

/// `a` shifted right by `b` bits, filling with zeros.
pub open spec fn lshr_value(a: int, b: int) -> int {
    a / (pow2(b as nat) as int)
}

/// `a`, a value of type `t`, shifted right by `b` bits, filling with copies of its sign bit.
pub open spec fn ashr_value(a: int, b: int, t: Ty) -> int {
    (signed(a, t) / (pow2(b as nat) as int)) % modulus(t)
}

/// What the load at instruction `k` reads, as a value of type `t`: the evaluation takes it
/// from `regs` at index `NUM_REGS + k`, past the registers.
pub open spec fn load_value(regs: spec_fn(usize) -> int, k: int, t: Ty) -> int {
    regs((NUM_REGS + k) as usize) % modulus(t)
}

/// The value instruction `k` computes, where the registers hold `regs` (and, past them, what
/// each load reads: see `load_value`).  Operands are taken modulo the modulus of the
/// instruction's type.
pub open spec fn ir_value(insts: Seq<InstV>, regs: spec_fn(usize) -> int, k: int) -> int
    decreases k, 1int,
{
    if k < 0 || k >= insts.len() {
        0
    } else {
        let i = insts[k];
        let m = modulus(i.ty);
        let a = if i.args.len() > 0 {
            ir_arg(insts, regs, i.args[0], k) % m
        } else {
            0
        };
        let b = if i.args.len() > 1 {
            ir_arg(insts, regs, i.args[1], k) % m
        } else {
            0
        };
        match i.op {
            IrOp::ReadReg => a,
            IrOp::Add => (a + b) % m,
            IrOp::Sub => (a - b) % m,
            IrOp::Not | IrOp::BitwiseNot => m - 1 - a,
            IrOp::And => bits_and(a, b),
            IrOp::Or => bits_or(a, b),
            IrOp::Xor => bits_xor(a, b),
            IrOp::Icmp(c) => bit(cmp_holds(c, a, b, i.ty)),
            IrOp::Lshl => shl_value(a, b, m),
            IrOp::Lshr => lshr_value(a, b),
            IrOp::Ashr => ashr_value(a, b, i.ty),
            IrOp::Zext(small) => a % modulus(small),
            IrOp::Sext(small) => signed(a % modulus(small), small) % m,
            IrOp::Load => load_value(regs, k, i.ty),
            _ => 0,
        }
    }
}

/// Whether condition code `cc` holds on the flags, as the A64 architecture defines it.
pub open spec fn condition_holds(cc: u8, n: bool, z: bool, c: bool, v: bool) -> bool {
    let base = if cc / 2 == 0 {
        z
    } else if cc / 2 == 1 {
        c
    } else if cc / 2 == 2 {
        n
    } else if cc / 2 == 3 {
        v
    } else if cc / 2 == 4 {
        c && !z
    } else if cc / 2 == 5 {
        n == v
    } else if cc / 2 == 6 {
        n == v && !z
    } else {
        true
    };
    if cc % 2 == 1 && cc != 15 {
        !base
    } else {
        base
    }
}

/// The flags hold zero or one.
pub open spec fn flags_are_bits(regs: spec_fn(usize) -> int) -> bool {
    &&& (regs(REG_N) == 0 || regs(REG_N) == 1)
    &&& (regs(REG_Z) == 0 || regs(REG_Z) == 1)
    &&& (regs(REG_C) == 0 || regs(REG_C) == 1)
    &&& (regs(REG_V) == 0 || regs(REG_V) == 1)
}

/// And, or and equality of one-bit values.
proof fn lemma_bit_ops(a: int, b: int)
    requires
        a == 0 || a == 1,
        b == 0 || b == 1,
    ensures
        bits_and(a, b) == bit(a == 1 && b == 1),
        bits_or(a, b) == bit(a == 1 || b == 1),
{
    let x = a as u128;
    let y = b as u128;
    assert(x <= 1 && y <= 1);
    assert(((x & y) == 1) == (x == 1 && y == 1) && (x & y) <= 1) by (bit_vector)
        requires
            x <= 1,
            y <= 1,
    ;
    assert(((x | y) == 1) == (x == 1 || y == 1) && (x | y) <= 1) by (bit_vector)
        requires
            x <= 1,
            y <= 1,
    ;
}

/// The code lifted for a condition code computes whether the condition holds on the flags,
/// for every condition code but `NV` (15): the A64 architecture lets `NV` hold always, and the
/// lifter lets it hold never.
pub proof fn law_condition_semantics(s: LState, cc: u8, regs: spec_fn(usize) -> int)
    requires
        cc < 15,
        flags_are_bits(regs),
        s.r.insts.len() + 8 <= usize::MAX,
    ensures
        ({
            let (s2, v) = condition_spec(s, cc);
            ir_arg(s2.r.insts, regs, v, s2.r.insts.len() as int) == bit(
                condition_holds(cc, regs(REG_N) == 1, regs(REG_Z) == 1, regs(REG_C) == 1,
                regs(REG_V) == 1),
            )
        }),
{
    let n = regs(REG_N);
    let z = regs(REG_Z);
    let c = regs(REG_C);
    let v = regs(REG_V);
    let (s2, val) = condition_spec(s, cc);
    let insts = s2.r.insts;
    let l = s.r.insts.len() as int;
    reveal_with_fuel(ir_value, 3);
    reveal_with_fuel(ir_arg, 3);
    if cc == 8 || cc == 9 {
        assert(ir_value(insts, regs, l) == z);
        assert(ir_value(insts, regs, l + 1) == c);
        assert(ir_value(insts, regs, l + 2) == bit(if cc == 8 { c == 1 } else { c != 1 }));
        assert(ir_value(insts, regs, l + 3) == bit(if cc == 8 { z != 1 } else { z == 1 }));
        lemma_bit_ops(ir_value(insts, regs, l + 2), ir_value(insts, regs, l + 3));
    } else if cc == 12 || cc == 13 {
        assert(ir_value(insts, regs, l) == z);
        assert(ir_value(insts, regs, l + 1) == n);
        assert(ir_value(insts, regs, l + 2) == v);
        assert(ir_value(insts, regs, l + 3) == bit(if cc == 12 { z != 1 } else { z == 1 }));
        assert(ir_value(insts, regs, l + 4) == bit(if cc == 12 { n == v } else { n != v }));
        lemma_bit_ops(ir_value(insts, regs, l + 3), ir_value(insts, regs, l + 4));
    } else if cc == 14 {
        lemma_bit_ops(1, 1);
    } else if cc == 10 || cc == 11 {
        assert(ir_value(insts, regs, l) == n);
        assert(ir_value(insts, regs, l + 1) == v);
    } else {
        assert(ir_value(insts, regs, l) == if cc / 2 == 0 {
            z
        } else if cc / 2 == 1 {
            c
        } else if cc / 2 == 2 {
            n
        } else {
            v
        });
    }
}


/// The result of adding `x`, `y` and `carry` as values of type `t`.
pub open spec fn add_result(x: int, y: int, carry: int, t: Ty) -> int {
    (x + y + carry) % modulus(t)
}

/// The flags the A64 architecture's `AddWithCarry` sets for `x + y + carry` of type `t`:
/// negative and zero from the result, carry when the unsigned sum does not fit, overflow when
/// the signed sum does not fit.
pub open spec fn add_with_carry_flags(x: int, y: int, carry: int, t: Ty) -> (bool, bool, bool, bool) {
    let r = add_result(x, y, carry, t);
    (
        signed(r, t) < 0,
        r == 0,
        r != x + y + carry,
        signed(r, t) != signed(x, t) + signed(y, t) + carry,
    )
}

/// The four flags computed by the lifted flag setting agree with `AddWithCarry`, the carry
/// flag except when both operands are all ones and a carry comes in.
proof fn lemma_add_with_carry_arith(x: int, y: int, cin: int, m: int, h: int)
    requires
        m == 2 * h,
        h > 0,
        0 <= x < m,
        0 <= y < m,
        cin == 0 || cin == 1,
    ensures
        ({
            let s = x + y + cin;
            let r = if s < m {
                s
            } else {
                s - m
            };
            let sr = if 2 * r >= m {
                r - m
            } else {
                r
            };
            let sx = if 2 * x >= m {
                x - m
            } else {
                x
            };
            let sy = if 2 * y >= m {
                y - m
            } else {
                y
            };
            &&& 0 <= r < m
            &&& r == s % m
            &&& !(x == m - 1 && y == m - 1 && cin == 1) ==> ((x > r || y > r) == (r != s))
            &&& ((sx < 0) == (sy < 0) && (sx < 0) != (sr < 0)) == (sr != sx + sy + cin)
        }),
{
    lemma_mod_once(x + y + cin, m);
}

/// Reducing a value below twice the modulus subtracts the modulus at most once.
proof fn lemma_mod_once(s: int, m: int)
    requires
        m > 0,
        0 <= s < 2 * m,
    ensures
        s % m == if s < m {
            s
        } else {
            s - m
        },
{
    if s < m {
        vstd::arithmetic::div_mod::lemma_fundamental_div_mod_converse(s, m, 0, s);
    } else {
        vstd::arithmetic::div_mod::lemma_fundamental_div_mod_converse(s, m, 1, s - m);
    }
}

/// Operands and carry of the flag setting are values of the region before it.
pub open spec fn flag_inputs_ok(s: LState, val1: Val, val2: Val, carry: Val) -> bool {
    s.ok(val1) && s.ok(val2) && s.ok(carry)
}

/// Instruction `k` has operation `op`, type `t` and operands `args`.
pub open spec fn inst_is(insts: Seq<InstV>, k: int, op: IrOp, t: Ty, args: Seq<Val>) -> bool {
    &&& 0 <= k < insts.len()
    &&& insts[k].op == op
    &&& insts[k].ty == t
    &&& insts[k].args == args
}

/// An operand that refers to instruction `k`.
pub open spec fn inst_ref(k: int) -> Val {
    Val::Inst(k as usize)
}

/// The sixteen instructions from `l` on are those of the lifted addition with carry.
pub open spec fn adc_layout(insts: Seq<InstV>, l: int, val1: Val, val2: Val, t: Ty, carry: Val) -> bool {
    let zero = Val::Const(0);
    let i = |k: int| inst_ref(l + k);
    &&& inst_is(insts, l, IrOp::Add, t, seq![val1, val2])
    &&& inst_is(insts, l + 1, IrOp::Add, t, seq![i(0), carry])
    &&& inst_is(insts, l + 2, IrOp::Icmp(CmpTy::Eq), t, seq![i(1), zero])
    &&& inst_is(insts, l + 3, IrOp::WriteReg, Ty::I1, seq![i(2), Val::Reg(REG_Z)])
    &&& inst_is(insts, l + 4, IrOp::Icmp(CmpTy::Slt), t, seq![i(1), zero])
    &&& inst_is(insts, l + 5, IrOp::WriteReg, Ty::I1, seq![i(4), Val::Reg(REG_N)])
    &&& inst_is(insts, l + 6, IrOp::Icmp(CmpTy::Ugt), t, seq![val1, i(1)])
    &&& inst_is(insts, l + 7, IrOp::Icmp(CmpTy::Ugt), t, seq![val2, i(1)])
    &&& inst_is(insts, l + 8, IrOp::Or, Ty::I1, seq![i(6), i(7)])
    &&& inst_is(insts, l + 9, IrOp::WriteReg, Ty::I1, seq![i(8), Val::Reg(REG_C)])
    &&& inst_is(insts, l + 10, IrOp::Icmp(CmpTy::Slt), t, seq![val1, zero])
    &&& inst_is(insts, l + 11, IrOp::Icmp(CmpTy::Slt), t, seq![val2, zero])
    &&& inst_is(insts, l + 12, IrOp::Icmp(CmpTy::Eq), Ty::I1, seq![i(10), i(11)])
    &&& inst_is(insts, l + 13, IrOp::Icmp(CmpTy::Ne), Ty::I1, seq![i(10), i(4)])
    &&& inst_is(insts, l + 14, IrOp::And, Ty::I1, seq![i(12), i(13)])
    &&& inst_is(insts, l + 15, IrOp::WriteReg, Ty::I1, seq![i(14), Val::Reg(REG_V)])
}

/// The lifted addition with carry appends the sixteen instructions of `adc_layout`.
proof fn lemma_adc_layout(s: LState, val1: Val, val2: Val, t: Ty, carry: Val)
    requires
        s.r.insts.len() + 20 <= usize::MAX,
    ensures
        adc_layout(adc_flags_spec(s, val1, val2, t, carry).r.insts, s.r.insts.len() as int, val1, val2, t, carry),
        adc_flags_spec(s, val1, val2, t, carry).r.insts.subrange(0, s.r.insts.len() as int) == s.r.insts,
{
    let insts = adc_flags_spec(s, val1, val2, t, carry).r.insts;
    assert(insts.len() == s.r.insts.len() + 16);
    assert(insts.subrange(0, s.r.insts.len() as int) =~= s.r.insts);
}

/// The sum the lifted addition with carry computes is the sum of its operands and the carry,
/// reduced once by the modulus.
proof fn lemma_adc_sum(insts: Seq<InstV>, regs: spec_fn(usize) -> int, l: int, val1: Val, val2: Val, t: Ty, carry: Val)
    requires
        adc_layout(insts, l, val1, val2, t, carry),
        l >= 0,
        l + 20 <= usize::MAX,
        ir_arg(insts, regs, carry, l) % modulus(t) == 0 || ir_arg(insts, regs, carry, l) % modulus(t) == 1,
        ir_arg(insts, regs, carry, l + 1) == ir_arg(insts, regs, carry, l),
    ensures
        ({
            let m = modulus(t);
            let s = ir_arg(insts, regs, val1, l) % m + ir_arg(insts, regs, val2, l) % m
                + ir_arg(insts, regs, carry, l) % m;
            ir_value(insts, regs, l + 1) == if s < m {
                s
            } else {
                s - m
            }
        }),
{
    let m = modulus(t);
    let x = ir_arg(insts, regs, val1, l) % m;
    let y = ir_arg(insts, regs, val2, l) % m;
    let cin = ir_arg(insts, regs, carry, l) % m;
    assert(m > 0);
    reveal_with_fuel(ir_value, 2);
    reveal_with_fuel(ir_arg, 2);
    let sum0 = ir_value(insts, regs, l);
    assert(sum0 == (x + y) % m);
    lemma_mod_once(x + y, m);
    assert(ir_arg(insts, regs, Val::Inst(l as usize), l + 1) == sum0);
    lemma_mod_once(sum0, m);
    lemma_mod_once(sum0 + cin, m);
}

/// The flags written by the lifted addition with carry are those of `AddWithCarry` on its
/// operands as values of the instruction type: negative, zero and overflow always, and carry
/// unless both operands are all ones and the carry in is one.  Position 3, 5, 9 and 15 of the
/// appended code write `z`, `n`, `c` and `v`, each the value of the instruction before it.
#[verifier::rlimit(50)]
pub proof fn law_adc_flags(
    s: LState,
    val1: Val,
    val2: Val,
    t: Ty,
    carry: Val,
    regs: spec_fn(usize) -> int,
)
    requires
        t == Ty::I32 || t == Ty::I64,
        flag_inputs_ok(s, val1, val2, carry),
        s.r.insts.len() + 20 <= usize::MAX,
    ensures
        ({
            let s2 = adc_flags_spec(s, val1, val2, t, carry);
            let insts = s2.r.insts;
            let l = s.r.insts.len() as int;
            let x = ir_arg(insts, regs, val1, l) % modulus(t);
            let y = ir_arg(insts, regs, val2, l) % modulus(t);
            let cin = ir_arg(insts, regs, carry, l) % modulus(t);
            let (n, z, c, v) = add_with_carry_flags(x, y, cin, t);
            (cin == 0 || cin == 1) ==> {
                &&& insts[l + 3].op == IrOp::WriteReg && insts[l + 3].args == seq![
                    Val::Inst((l + 2) as usize),
                    Val::Reg(REG_Z),
                ]
                &&& insts[l + 5].op == IrOp::WriteReg && insts[l + 5].args == seq![
                    Val::Inst((l + 4) as usize),
                    Val::Reg(REG_N),
                ]
                &&& insts[l + 9].op == IrOp::WriteReg && insts[l + 9].args == seq![
                    Val::Inst((l + 8) as usize),
                    Val::Reg(REG_C),
                ]
                &&& insts[l + 15].op == IrOp::WriteReg && insts[l + 15].args == seq![
                    Val::Inst((l + 14) as usize),
                    Val::Reg(REG_V),
                ]
                &&& ir_value(insts, regs, l + 2) == bit(z)
                &&& ir_value(insts, regs, l + 4) == bit(n)
                &&& !(x == modulus(t) - 1 && y == modulus(t) - 1 && cin == 1) ==> ir_value(
                    insts,
                    regs,
                    l + 8,
                ) == bit(c)
                &&& ir_value(insts, regs, l + 14) == bit(v)
            }
        }),
{
    let s2 = adc_flags_spec(s, val1, val2, t, carry);
    let insts = s2.r.insts;
    let l = s.r.insts.len() as int;
    lemma_adc_layout(s, val1, val2, t, carry);
    let m = modulus(t);
    let x = ir_arg(insts, regs, val1, l) % m;
    let y = ir_arg(insts, regs, val2, l) % m;
    let cin = ir_arg(insts, regs, carry, l) % m;
    if cin == 0 || cin == 1 {
        let h = m / 2;
        assert(m == 2 * h && h > 0);
        lemma_arg_bound(insts, regs, val1, l, l + 16);
        lemma_arg_bound(insts, regs, val2, l, l + 16);
        lemma_arg_bound(insts, regs, carry, l, l + 16);
        lemma_adc_sum(insts, regs, l, val1, val2, t, carry);
        let s = x + y + cin;
        let r = if s < m {
            s
        } else {
            s - m
        };
        lemma_add_with_carry_arith(x, y, cin, m, h);
        lemma_adc_flag_values(insts, regs, l, val1, val2, t, carry, x, y, r);
        assert(add_result(x, y, cin, t) == r);
    }
}

/// The comparisons and bit operations of the lifted addition with carry, given its sum `r`.
#[verifier::rlimit(50)]
proof fn lemma_adc_flag_values(
    insts: Seq<InstV>,
    regs: spec_fn(usize) -> int,
    l: int,
    val1: Val,
    val2: Val,
    t: Ty,
    carry: Val,
    x: int,
    y: int,
    r: int,
)
    requires
        adc_layout(insts, l, val1, val2, t, carry),
        l >= 0,
        l + 20 <= usize::MAX,
        x == ir_arg(insts, regs, val1, l) % modulus(t),
        y == ir_arg(insts, regs, val2, l) % modulus(t),
        forall|k3: int| l <= k3 <= l + 16 ==> #[trigger] ir_arg(insts, regs, val1, k3) == ir_arg(insts, regs, val1, l),
        forall|k3: int| l <= k3 <= l + 16 ==> #[trigger] ir_arg(insts, regs, val2, k3) == ir_arg(insts, regs, val2, l),
        ir_value(insts, regs, l + 1) == r,
        0 <= r < modulus(t),
    ensures
        ir_value(insts, regs, l + 2) == bit(r == 0),
        ir_value(insts, regs, l + 4) == bit(signed(r, t) < 0),
        ir_value(insts, regs, l + 8) == bit(x > r || y > r),
        ir_value(insts, regs, l + 14) == bit((signed(x, t) < 0) == (signed(y, t) < 0) && (signed(x, t) < 0) != (signed(r, t) < 0)),
{
    let m = modulus(t);
    assert(m > 1);
    reveal_with_fuel(ir_value, 2);
    reveal_with_fuel(ir_arg, 2);
    assert(r % m == r) by {
        lemma_mod_once(r, m);
    }
    assert(0int % m == 0) by {
        lemma_mod_once(0, m);
    }
    assert(ir_arg(insts, regs, Val::Inst((l + 1) as usize), l + 2) == r);
    assert(ir_value(insts, regs, l + 2) == bit(r == 0));
    assert(ir_arg(insts, regs, Val::Inst((l + 1) as usize), l + 4) == r);
    assert(ir_value(insts, regs, l + 4) == bit(signed(r, t) < 0));
    assert(ir_arg(insts, regs, Val::Inst((l + 1) as usize), l + 6) == r);
    assert(ir_arg(insts, regs, val1, l + 6) == ir_arg(insts, regs, val1, l));
    assert(ir_arg(insts, regs, val2, l + 7) == ir_arg(insts, regs, val2, l));
    assert(ir_arg(insts, regs, val1, l + 10) == ir_arg(insts, regs, val1, l));
    assert(ir_arg(insts, regs, val2, l + 11) == ir_arg(insts, regs, val2, l));
    assert(ir_value(insts, regs, l + 6) == bit(x > r));
    assert(ir_arg(insts, regs, Val::Inst((l + 1) as usize), l + 7) == r);
    assert(ir_value(insts, regs, l + 7) == bit(y > r));
    lemma_bits_mod2(bit(x > r), bit(y > r));
    lemma_bit_ops(bit(x > r), bit(y > r));
    assert(ir_value(insts, regs, l + 8) == bit(x > r || y > r));
    assert(ir_value(insts, regs, l + 10) == bit(signed(x, t) < 0));
    assert(ir_value(insts, regs, l + 11) == bit(signed(y, t) < 0));
    lemma_bits_mod2(bit(signed(x, t) < 0), bit(signed(y, t) < 0));
    assert(ir_value(insts, regs, l + 12) == bit((signed(x, t) < 0) == (signed(y, t) < 0)));
    lemma_bits_mod2(bit(signed(x, t) < 0), bit(signed(r, t) < 0));
    assert(ir_value(insts, regs, l + 13) == bit((signed(x, t) < 0) != (signed(r, t) < 0)));
    lemma_bits_mod2(
        bit((signed(x, t) < 0) == (signed(y, t) < 0)),
        bit((signed(x, t) < 0) != (signed(r, t) < 0)),
    );
    lemma_bit_ops(
        bit((signed(x, t) < 0) == (signed(y, t) < 0)),
        bit((signed(x, t) < 0) != (signed(r, t) < 0)),
    );
}

/// One-bit values are their own remainder modulo two.
proof fn lemma_bits_mod2(a: int, b: int)
    requires
        a == 0 || a == 1,
        b == 0 || b == 1,
    ensures
        a % 2 == a,
        b % 2 == b,
{
    lemma_mod_once(a, 2);
    lemma_mod_once(b, 2);
}

/// The value of an operand that refers to an instruction before `k` is the same wherever it
/// is read after it.
proof fn lemma_arg_bound(insts: Seq<InstV>, regs: spec_fn(usize) -> int, v: Val, k: int, k2: int)
    requires
        k <= k2,
        v matches Val::Inst(j) ==> j < k,
    ensures
        forall|k3: int| k <= k3 <= k2 ==> #[trigger] ir_arg(insts, regs, v, k3) == ir_arg(insts, regs, v, k),
{
}

/// An operand read without a shift: a register other than the zero register, the stack
/// pointer as a 64-bit register, a register shifted left by nothing, or an immediate.
pub open spec fn plain_operand(o: Operand) -> bool {
    match o {
        Operand::Register(_, r) => r < 31,
        Operand::RegisterOrSP(sz, r) => r < 31 || (r == 31 && sz == SizeCode::X),
        Operand::RegShift(style, amount, _, r) => style == ShiftStyle::LSL && amount == 0 && r < 31,
        Operand::Immediate(_) | Operand::Imm64(_) | Operand::Imm16(_) => true,
        _ => false,
    }
}

/// Number of instructions that reading a plain operand appends: one register read, or none
/// for an immediate.
pub open spec fn read_count(o: Operand) -> int {
    if o is Immediate || o is Imm64 || o is Imm16 {
        0
    } else {
        1
    }
}

/// The value of a plain operand where the registers hold `regs`: the register's content as a
/// value of the register's type, or the immediate.
pub open spec fn operand_value(o: Operand, regs: spec_fn(usize) -> int) -> int {
    match o {
        Operand::Register(sz, r) => regs(r as usize) % modulus(sizecode_type(sz)),
        Operand::RegisterOrSP(sz, r) => if r == 31 {
            regs(REG_SP) % modulus(Ty::I64)
        } else {
            regs(r as usize) % modulus(sizecode_type(sz))
        },
        Operand::RegShift(_, _, sz, r) => regs(r as usize) % modulus(sizecode_type(sz)),
        Operand::Immediate(n) => n as int,
        Operand::Imm64(n) => n as int,
        Operand::Imm16(n) => n as int,
        _ => 0,
    }
}

/// What `ADD`, `SUB`, `AND` and `ORR` compute from `x` and `y` as values of type `t`: their
/// sum or difference modulo the type's modulus, or their bitwise and or or.
pub open spec fn arith_result(o: Opcode, x: int, y: int, t: Ty) -> int {
    let m = modulus(t);
    if o is ADD || o is ADDS {
        (x % m + y % m) % m
    } else if o is SUB || o is SUBS {
        (x % m - y % m) % m
    } else if o is AND || o is ANDS {
        bits_and(x % m, y % m)
    } else {
        bits_or(x % m, y % m)
    }
}

/// The lifted `ADD`, `ADDS`, `SUB`, `SUBS`, `AND`, `ANDS` and `ORR` with plain operands compute
/// the sum, difference, bitwise and or bitwise or of the operands as values of the
/// instruction's type and write it to the destination: after the reads of the operands comes
/// the operation, then the write of its value.
#[verifier::rlimit(30)]
pub proof fn law_arith_result(s: LState, inst: Instruction, regs: spec_fn(usize) -> int)
    requires
        inst.opcode is ADD || inst.opcode is ADDS || inst.opcode is SUB || inst.opcode is SUBS
            || inst.opcode is AND || inst.opcode is ANDS || inst.opcode is ORR,
        dst_ok(inst),
        plain_operand(inst.operands@[1]),
        plain_operand(inst.operands@[2]),
        s.r.insts.len() + 40 <= usize::MAX,
    ensures
        ({
            let insts = arith_spec(s, inst).r.insts;
            let k = s.r.insts.len() + read_count(inst.operands@[1]) + read_count(inst.operands@[2]);
            &&& insts[k].op == arith_op(inst.opcode)
            &&& insts[k + 1].op == IrOp::WriteReg
            &&& insts[k + 1].ty == inst_type(inst)
            &&& insts[k + 1].args == seq![Val::Inst(k as usize), Val::Reg(dst(inst))]
            &&& ir_value(insts, regs, k) == arith_result(
                inst.opcode,
                operand_value(inst.operands@[1], regs),
                operand_value(inst.operands@[2], regs),
                inst_type(inst),
            )
        }),
{
    let o1 = inst.operands@[1];
    let o2 = inst.operands@[2];
    let l = s.r.insts.len() as int;
    let ty = inst_type(inst);
    let (s1, v1) = gv(s, inst, 1);
    let (s2, v2) = gv(s1, inst, 2);
    let (s3, val) = op2(s2, arith_op(inst.opcode), ty, v1, v2);
    let s4 = write_spec(s3, val, dst(inst), ty);
    let insts = arith_spec(s, inst).r.insts;
    let k = l + read_count(o1) + read_count(o2);
    assert(s1.r.insts.len() == l + read_count(o1));
    assert(s2.r.insts.len() == k);
    assert(s4.r.insts.len() == k + 2);
    if inst.opcode is ADDS {
        lemma_adc_layout(s4, v1, v2, ty, Val::Const(0));
    } else if inst.opcode is ANDS {
        lemma_logic_prefix(s4, val, ty);
    } else if inst.opcode is SUBS {
        let (s5, not_v2) = op1(s4, IrOp::Not, ty, v2);
        lemma_adc_layout(s5, v1, not_v2, ty, Val::Const(1));
        assert(s5.r.insts.subrange(0, k + 2) =~= s4.r.insts);
        assert(insts.subrange(0, k + 2) =~= insts.subrange(0, k + 3).subrange(0, k + 2));
    }
    assert(insts.subrange(0, k + 2) == s4.r.insts);
    assert(insts[k] == s4.r.insts[k]);
    assert(insts[k + 1] == s4.r.insts[k + 1]);
    assert(insts.subrange(0, l + read_count(o1)) =~= s1.r.insts) by {
        assert(s4.r.insts.subrange(0, l + read_count(o1)) =~= s1.r.insts);
        assert(insts.subrange(0, l + read_count(o1)) =~= s4.r.insts.subrange(0, l + read_count(o1)));
    }
    assert(insts.subrange(0, k) =~= s2.r.insts) by {
        assert(s4.r.insts.subrange(0, k) =~= s2.r.insts);
        assert(insts.subrange(0, k) =~= s4.r.insts.subrange(0, k));
    }
    lemma_read_value(s, o1, insts, regs, k);
    lemma_read_value(s1, o2, insts, regs, k);
    reveal_with_fuel(ir_value, 2);
    reveal_with_fuel(ir_arg, 2);
}

/// The flag setting of a logical operation keeps what comes before it.
proof fn lemma_logic_prefix(s: LState, val: Val, t: Ty)
    ensures
        logic_flags_spec(s, val, t).r.insts.subrange(0, s.r.insts.len() as int) == s.r.insts,
{
    assert(logic_flags_spec(s, val, t).r.insts.subrange(0, s.r.insts.len() as int) =~= s.r.insts);
}

/// Reading a plain operand appends at most one register read, and the value it yields, read
/// at a later instruction `k`, is the operand's value.
proof fn lemma_read_value(s: LState, o: Operand, insts: Seq<InstV>, regs: spec_fn(usize) -> int, k: int)
    requires
        plain_operand(o),
        s.r.insts.len() + read_count(o) <= k < insts.len(),
        s.r.insts.len() + 10 <= usize::MAX,
        insts.subrange(0, s.r.insts.len() + read_count(o)) == value_spec(s, o).0.r.insts,
    ensures
        value_spec(s, o).0.r.insts.len() == s.r.insts.len() + read_count(o),
        value_spec(s, o).0.r.insts.subrange(0, s.r.insts.len() as int) == s.r.insts,
        ir_arg(insts, regs, value_spec(s, o).1, k) == operand_value(o, regs),
{
    let l = s.r.insts.len() as int;
    let s1 = value_spec(s, o).0;
    assert(s1.r.insts.subrange(0, l) =~= s.r.insts);
    reveal_with_fuel(ir_value, 2);
    reveal_with_fuel(ir_arg, 2);
    if read_count(o) == 1 {
        assert(insts.subrange(0, l + 1)[l] == insts[l]);
        assert(insts[l] == s1.r.insts[l]);
        assert(ir_arg(insts, regs, value_spec(s, o).1, k) == ir_value(insts, regs, l));
    }
}

/// The flags written by the lifted flag setting of a logical operation with result `val`:
/// carry and overflow cleared, zero set when the result is zero, negative set when it is
/// negative as a value of type `t`.  Positions 0, 1, 3 and 5 of the appended code write `c`,
/// `v`, `z` and `n`.
pub proof fn law_logic_flags(s: LState, val: Val, t: Ty, regs: spec_fn(usize) -> int)
    requires
        s.ok(val),
        s.r.insts.len() + 10 <= usize::MAX,
    ensures
        ({
            let insts = logic_flags_spec(s, val, t).r.insts;
            let l = s.r.insts.len() as int;
            let r = ir_arg(insts, regs, val, l) % modulus(t);
            &&& insts[l].op == IrOp::WriteReg && insts[l].args == seq![Val::Const(0), Val::Reg(REG_C)]
            &&& insts[l + 1].op == IrOp::WriteReg && insts[l + 1].args == seq![Val::Const(0), Val::Reg(REG_V)]
            &&& insts[l + 3].op == IrOp::WriteReg && insts[l + 3].args == seq![inst_ref(l + 2), Val::Reg(REG_Z)]
            &&& insts[l + 5].op == IrOp::WriteReg && insts[l + 5].args == seq![inst_ref(l + 4), Val::Reg(REG_N)]
            &&& ir_value(insts, regs, l + 2) == bit(r == 0)
            &&& ir_value(insts, regs, l + 4) == bit(signed(r, t) < 0)
        }),
{
    let insts = logic_flags_spec(s, val, t).r.insts;
    let l = s.r.insts.len() as int;
    let m = modulus(t);
    assert(m > 0);
    assert(0int % m == 0) by {
        lemma_mod_once(0, m);
    }
    lemma_arg_bound(insts, regs, val, l, l + 6);
    assert(ir_arg(insts, regs, val, l + 2) == ir_arg(insts, regs, val, l));
    assert(ir_arg(insts, regs, val, l + 4) == ir_arg(insts, regs, val, l));
    reveal_with_fuel(ir_value, 2);
    reveal_with_fuel(ir_arg, 2);
}

/// The three instructions from `p` on set `flag` from bit `mask` of `val`: the and with the
/// mask, the test against zero, and the write of the test.
pub open spec fn flag_bit_layout(insts: Seq<InstV>, p: int, val: Val, t: Ty, mask: u64, flag: usize) -> bool {
    &&& inst_is(insts, p, IrOp::And, t, seq![Val::Const(mask), val])
    &&& inst_is(insts, p + 1, IrOp::Icmp(CmpTy::Ne), t, seq![Val::Const(0), inst_ref(p)])
    &&& inst_is(insts, p + 2, IrOp::WriteReg, Ty::I1, seq![inst_ref(p + 1), Val::Reg(flag)])
}

/// The twelve instructions from `l` on are those of setting the flags from a value: `n`, `z`,
/// `c` and `v` in that order, from bits 3, 2, 1 and 0.
pub open spec fn flags_value_layout(insts: Seq<InstV>, l: int, val: Val, t: Ty) -> bool {
    &&& insts.len() == l + 12
    &&& flag_bit_layout(insts, l, val, t, 8, REG_N)
    &&& flag_bit_layout(insts, l + 3, val, t, 4, REG_Z)
    &&& flag_bit_layout(insts, l + 6, val, t, 2, REG_C)
    &&& flag_bit_layout(insts, l + 9, val, t, 1, REG_V)
}

/// Setting the flags from a value appends the twelve instructions of `flags_value_layout`.
proof fn lemma_flags_value_layout(s: LState, val: Val, t: Ty)
    requires
        s.r.insts.len() + 11 <= usize::MAX,
    ensures
        flags_value_layout(flags_to_value_spec(s, val, t).r.insts, s.r.insts.len() as int, val, t),
{
    let insts = flags_to_value_spec(s, val, t).r.insts;
    assert(insts.len() == s.r.insts.len() + 12);
}

/// The test written for one flag is whether bit `mask` of the value is set.
proof fn lemma_flag_bit_value(insts: Seq<InstV>, regs: spec_fn(usize) -> int, p: int, val: Val, t: Ty, mask: u64, flag: usize, x: int)
    requires
        flag_bit_layout(insts, p, val, t, mask, flag),
        p >= 0,
        p + 2 <= usize::MAX,
        t == Ty::I32 || t == Ty::I64,
        mask == 1 || mask == 2 || mask == 4 || mask == 8,
        x == ir_arg(insts, regs, val, p) % modulus(t),
    ensures
        ir_value(insts, regs, p + 1) == bit(bits_and(mask as int, x) != 0),
{
    let m = modulus(t);
    assert(m > 16);
    reveal_with_fuel(ir_value, 2);
    reveal_with_fuel(ir_arg, 2);
    assert(mask as int % m == mask) by {
        lemma_mod_once(mask as int, m);
    }
    assert(0int % m == 0) by {
        lemma_mod_once(0, m);
    }
    let y = x as u128;
    let k = mask as u128;
    assert((k & y) <= k) by (bit_vector);
    let a = bits_and(mask as int, x);
    assert(a <= 8);
    assert(ir_value(insts, regs, p) == a);
    assert(a % m == a) by {
        lemma_mod_once(a, m);
    }
    assert(ir_arg(insts, regs, inst_ref(p), p + 1) == a);
}

/// What setting the flags from `val` does, where the registers hold `regs`: the twelve
/// instructions appended write `n`, `z`, `c` and `v`, in that order and to no other register,
/// whether bits 3, 2, 1 and 0 of the value (taken as a value of type `t`) are set; read as a
/// number, the four flags are the value's low four bits.
pub open spec fn flags_from_bits_hold(s: LState, val: Val, t: Ty, regs: spec_fn(usize) -> int) -> bool {
    let insts = flags_to_value_spec(s, val, t).r.insts;
    let l = s.r.insts.len() as int;
    let x = ir_arg(insts, regs, val, l) % modulus(t);
    let n = ir_value(insts, regs, l + 1);
    let z = ir_value(insts, regs, l + 4);
    let c = ir_value(insts, regs, l + 7);
    let v = ir_value(insts, regs, l + 10);
    &&& flags_value_layout(insts, l, val, t)
    &&& n == bit(bits_and(8, x) != 0)
    &&& z == bit(bits_and(4, x) != 0)
    &&& c == bit(bits_and(2, x) != 0)
    &&& v == bit(bits_and(1, x) != 0)
    &&& 8 * n + 4 * z + 2 * c + v == bits_and(x, 15)
}

/// Setting the flags from a value writes to `n`, `z`, `c` and `v`, in that order and to no
/// other register, whether bits 3, 2, 1 and 0 of the value (taken as a value of type `t`) are
/// set; read as a number the four flags are the value's low four bits.  The one bound is that
/// the indices of the twelve instructions appended fit in a `usize`, as they do in every
/// region the lifter builds (`set_flags_to_value` states the law for each call).
pub proof fn law_flags_from_value(s: LState, val: Val, t: Ty, regs: spec_fn(usize) -> int)
    requires
        s.ok(val),
        t == Ty::I32 || t == Ty::I64,
        s.r.insts.len() + 11 <= usize::MAX,
    ensures
        flags_from_bits_hold(s, val, t, regs),
{
    let insts = flags_to_value_spec(s, val, t).r.insts;
    let l = s.r.insts.len() as int;
    let x = ir_arg(insts, regs, val, l) % modulus(t);
    lemma_flags_value_layout(s, val, t);
    lemma_arg_bound(insts, regs, val, l, l + 12);
    assert(ir_arg(insts, regs, val, l + 3) == ir_arg(insts, regs, val, l));
    assert(ir_arg(insts, regs, val, l + 6) == ir_arg(insts, regs, val, l));
    assert(ir_arg(insts, regs, val, l + 9) == ir_arg(insts, regs, val, l));
    lemma_flag_bit_value(insts, regs, l, val, t, 8, REG_N, x);
    lemma_flag_bit_value(insts, regs, l + 3, val, t, 4, REG_Z, x);
    lemma_flag_bit_value(insts, regs, l + 6, val, t, 2, REG_C, x);
    lemma_flag_bit_value(insts, regs, l + 9, val, t, 1, REG_V, x);
    let y = x as u128;
    assert(8 * (if (8u128 & y) != 0 { 1u128 } else { 0u128 }) + 4 * (if (4u128 & y) != 0 { 1u128 } else { 0u128 })
        + 2 * (if (2u128 & y) != 0 { 1u128 } else { 0u128 }) + (if (1u128 & y) != 0 { 1u128 } else { 0u128 })
        == (y & 15u128)) by (bit_vector);
    assert(bits_and(x, 15) == (y & 15u128) as int);
}

/// `CBZ` branches to its destination exactly when its register, as a value of the
/// instruction's type, is zero, and `CBNZ` exactly when it is not: the jump that ends the lifted
/// code goes to the block of the destination when its condition evaluates to 1 and to the block
/// that follows otherwise.
pub proof fn law_cbz_condition(
    s: LState,
    inst: Instruction,
    pc: u64,
    blocks: Map<u64, usize>,
    regs: spec_fn(usize) -> int,
)
    requires
        inst.opcode is CBZ || inst.opcode is CBNZ,
        plain_operand(inst.operands@[0]),
        s.r.insts.len() + 10 <= usize::MAX,
    ensures
        ({
            let insts = cbz_spec(s, inst, pc, blocks).r.insts;
            let j = s.r.insts.len() + read_count(inst.operands@[0]) + 1;
            let x = operand_value(inst.operands@[0], regs) % modulus(inst_type(inst));
            &&& j == insts.len() - 1
            &&& insts[j].op == IrOp::JumpIf
            &&& insts[j].args.len() == 3
            &&& insts[j].args[1] == Val::Label(blocks[target_of(inst, 1, pc)])
            &&& insts[j].args[2] == Val::Label(blocks[next_pc(pc)])
            &&& ir_arg(insts, regs, insts[j].args[0], j) == bit(
                if inst.opcode is CBZ {
                    x == 0
                } else {
                    x != 0
                },
            )
        }),
{
    let o = inst.operands@[0];
    let l = s.r.insts.len() as int;
    let ty = inst_type(inst);
    let (s1, src) = gv(s, inst, 0);
    let insts = cbz_spec(s, inst, pc, blocks).r.insts;
    let k = l + read_count(o);
    assert(s1.r.insts.len() == k) by {
        lemma_read_count(s, o);
    }
    assert(insts.len() == k + 2);
    assert(insts.subrange(0, k) =~= s1.r.insts);
    lemma_read_value(s, o, insts, regs, k);
    let m = modulus(ty);
    assert(m > 0);
    assert(0int % m == 0) by {
        lemma_mod_once(0, m);
    }
    reveal_with_fuel(ir_value, 2);
    reveal_with_fuel(ir_arg, 2);
    assert(ir_arg(insts, regs, Val::Inst(k as usize), k + 1) == ir_value(insts, regs, k));
}

/// Reading a plain operand appends `read_count` instructions.
proof fn lemma_read_count(s: LState, o: Operand)
    requires
        plain_operand(o),
    ensures
        value_spec(s, o).0.r.insts.len() == s.r.insts.len() + read_count(o),
{
}

/// The conditional selects write operand 1 to the destination in the block taken when the
/// condition holds, and in the block taken when it fails they write operand 2 (`CSEL`), operand
/// 2 plus one (`CSINC`), its complement (`CSINV`) or its negation (`CSNEG`), as values of the
/// instruction's type.  The block taken on success is the first one created, the other the
/// second; the lifted code ends with the write of the second block and its jump onwards.
#[verifier::rlimit(100)]
pub proof fn law_csel_values(
    s: LState,
    inst: Instruction,
    pc: u64,
    blocks: Map<u64, usize>,
    regs: spec_fn(usize) -> int,
)
    requires
        inst.opcode is CSEL || inst.opcode is CSINC || inst.opcode is CSINV || inst.opcode is CSNEG,
        cond_ok(inst, 3),
        plain_operand(inst.operands@[1]),
        plain_operand(inst.operands@[2]),
        s.r.insts.len() + 40 <= usize::MAX,
        s.r.names.len() + 2 <= usize::MAX,
    ensures
        ({
            let insts = csel_spec(s, inst, pc, blocks).r.insts;
            let e = insts.len() - 2;
            let pos = s.r.names.len() as usize;
            let neg = (s.r.names.len() + 1) as usize;
            let m = modulus(inst_type(inst));
            let y = operand_value(inst.operands@[2], regs);
            &&& exists|j: int|
                0 <= j < e && #[trigger] insts[j].op == IrOp::JumpIf && insts[j].args.len() == 3
                    && insts[j].args[1] == Val::Label(pos) && insts[j].args[2] == Val::Label(neg)
            &&& exists|w: int|
                0 <= w < e && #[trigger] insts[w].op == IrOp::WriteReg && insts[w].block == pos
                    && insts[w].args == seq![insts[w].args[0], Val::Reg(dst(inst))] && ir_arg(
                    insts,
                    regs,
                    insts[w].args[0],
                    w,
                ) == operand_value(inst.operands@[1], regs)
            &&& insts[e].op == IrOp::WriteReg
            &&& insts[e].block == neg
            &&& insts[e].args.len() == 2
            &&& insts[e].args[1] == Val::Reg(dst(inst))
            &&& ir_arg(insts, regs, insts[e].args[0], e) == (if inst.opcode is CSEL {
                y
            } else if inst.opcode is CSINC {
                (y % m + 1) % m
            } else if inst.opcode is CSINV {
                m - 1 - y % m
            } else {
                (0 - y % m) % m
            })
        }),
{
    let o1 = inst.operands@[1];
    let o2 = inst.operands@[2];
    let (pos_name, neg_name) = csel_names(inst.opcode);
    let pos = s.next_block();
    let s1 = s.block(pos_name);
    let neg = s1.next_block();
    let s2 = s1.block(neg_name);
    let next = blocks[next_pc(pc)];
    let ty = inst_type(inst);
    let d = dst(inst);
    let (s3, cond) = condition_spec(s2, cond_at(inst, 3));
    let s4 = jumpif_spec(s3, cond, pos, neg);
    let s5 = s4.switch(pos);
    let (s6, v1) = gv(s5, inst, 1);
    let s7 = write_spec(s6, v1, d, ty);
    let s8 = jump_spec(s7, next);
    let s9 = s8.switch(neg);
    let (s10, v2) = gv(s9, inst, 2);
    let (s11, val) = match inst.opcode {
        Opcode::CSEL => (s10, v2),
        Opcode::CSINC => op2(s10, IrOp::Add, ty, v2, Val::Const(1)),
        Opcode::CSINV => op1(s10, IrOp::Not, ty, v2),
        _ => op2(s10, IrOp::Sub, ty, Val::Const(0), v2),
    };
    let s12 = write_spec(s11, val, d, ty);
    let insts = csel_spec(s, inst, pc, blocks).r.insts;
    assert(insts == jump_spec(s12, next).r.insts);
    lemma_condition_len(s2, cond_at(inst, 3));
    let c = s3.r.insts.len() as int;
    lemma_read_count(s5, o1);
    lemma_read_count(s9, o2);
    let k6 = c + 1 + read_count(o1);
    let k10 = k6 + 2 + read_count(o2);
    assert(s4.r.insts.len() == c + 1);
    assert(s6.r.insts.len() == k6);
    assert(s8.r.insts.len() == k6 + 2);
    assert(s10.r.insts.len() == k10);
    assert(s11.r.insts.len() == if inst.opcode is CSEL { k10 } else { k10 + 1 });
    assert(insts.len() == s11.r.insts.len() + 2);
    let e = insts.len() - 2;
    assert(insts.subrange(0, k6) =~= s6.r.insts);
    assert(insts.subrange(0, k10) =~= s10.r.insts);
    lemma_read_value(s5, o1, insts, regs, k6);
    lemma_read_value(s9, o2, insts, regs, e);
    assert(insts[c].op == IrOp::JumpIf);
    assert(insts[k6].op == IrOp::WriteReg);
    let m = modulus(ty);
    assert(m > 1);
    assert(1int % m == 1) by {
        lemma_mod_once(1, m);
    }
    assert(0int % m == 0) by {
        lemma_mod_once(0, m);
    }
    reveal_with_fuel(ir_value, 2);
    reveal_with_fuel(ir_arg, 2);
    if !(inst.opcode is CSEL) {
        assert(e == k10 + 1);
        assert(insts[e].args[0] == Val::Inst(k10 as usize));
        assert(ir_arg(insts, regs, insts[e].args[0], e) == ir_value(insts, regs, k10));
        lemma_arg_bound(insts, regs, v2, k10, e);
    }
}

/// The code lifted for a condition keeps what comes before it and appends at most eight
/// instructions.
proof fn lemma_condition_len(s: LState, cc: u8)
    ensures
        condition_spec(s, cc).0.r.insts.len() <= s.r.insts.len() + 8,
        condition_spec(s, cc).0.r.insts.len() >= s.r.insts.len(),
        condition_spec(s, cc).0.r.insts.subrange(0, s.r.insts.len() as int) == s.r.insts,
        condition_spec(s, cc).0.r.names == s.r.names,
        condition_spec(s, cc).0.cur == s.cur,
{
    assert(condition_spec(s, cc).0.r.insts.subrange(0, s.r.insts.len() as int) =~= s.r.insts);
}


/// Evaluation depends only on the instructions before: extending the code after instruction
/// `k` leaves the values up to it unchanged.
proof fn lemma_prefix_value(a: Seq<InstV>, b: Seq<InstV>, regs: spec_fn(usize) -> int, k: int)
    requires
        0 <= k < a.len() <= b.len(),
        b.subrange(0, a.len() as int) == a,
    ensures
        ir_value(a, regs, k) == ir_value(b, regs, k),
    decreases k,
{
    assert(a[k] == b[k]);
    let i = a[k];
    assert forall|v: Val| #[trigger] ir_arg(a, regs, v, k) == ir_arg(b, regs, v, k) by {
        match v {
            Val::Inst(j) => {
                if 0 <= j < k {
                    lemma_prefix_value(a, b, regs, j as int);
                }
            },
            _ => {},
        }
    }
    if i.args.len() > 0 {
        assert(ir_arg(a, regs, i.args[0], k) == ir_arg(b, regs, i.args[0], k));
    }
    if i.args.len() > 1 {
        assert(ir_arg(a, regs, i.args[1], k) == ir_arg(b, regs, i.args[1], k));
    }
}

/// An operand's value read at `k` is the same in any extension of the code.
proof fn lemma_prefix_arg(a: Seq<InstV>, b: Seq<InstV>, regs: spec_fn(usize) -> int, v: Val, k: int)
    requires
        0 <= k <= a.len() <= b.len(),
        b.subrange(0, a.len() as int) == a,
    ensures
        ir_arg(a, regs, v, k) == ir_arg(b, regs, v, k),
{
    match v {
        Val::Inst(j) => {
            if 0 <= j < k {
                lemma_prefix_value(a, b, regs, j as int);
            }
        },
        _ => {},
    }
}

/// The state in which `CCMP` starts its block for a condition that holds: the two blocks
/// created, the condition evaluated and the jump emitted.
spec fn compare_entry(s: LState, inst: Instruction) -> LState {
    let pos = s.next_block();
    let s1 = s.block("ccmp_positive_condition"@);
    let neg = s1.next_block();
    let s2 = s1.block("ccmp_negative_condition"@);
    let (s3, cond) = condition_spec(s2, cond_at(inst, 3));
    jumpif_spec(s3, cond, pos, neg).switch(pos)
}

/// The state after `CCMP` reads its operands and complements the second, with the values of
/// the first operand and of the complement.
spec fn compare_operands(s5: LState, inst: Instruction) -> (LState, Val, Val) {
    let (s6, v1) = gv(s5, inst, 0);
    let (s7, v2) = gv(s6, inst, 1);
    let (s8, nv) = op1(s7, IrOp::Not, inst_type(inst), v2);
    (s8, v1, nv)
}

/// Code appended after a state keeps the code before it.
pub open spec fn extends(a: LState, b: LState) -> bool {
    &&& a.r.insts.len() <= b.r.insts.len()
    &&& b.r.insts.subrange(0, a.r.insts.len() as int) == a.r.insts
}

/// Extension is transitive.
proof fn lemma_extends_trans(a: LState, b: LState, c: LState)
    requires
        extends(a, b),
        extends(b, c),
    ensures
        extends(a, c),
{
    assert(c.r.insts.subrange(0, a.r.insts.len() as int) =~= c.r.insts.subrange(0, b.r.insts.len() as int).subrange(0, a.r.insts.len() as int));
}

/// Reading an operand, setting the flags from a value and jumping extend the code.
proof fn lemma_tail_extends(s: LState, o: Operand, val: Val, t: Ty, b: usize)
    ensures
        extends(s, value_spec(s, o).0),
        extends(s, flags_to_value_spec(s, val, t)),
        extends(s, jump_spec(s, b)),
{
    assert(value_spec(s, o).0.r.insts.subrange(0, s.r.insts.len() as int) =~= s.r.insts);
    assert(flags_to_value_spec(s, val, t).r.insts.subrange(0, s.r.insts.len() as int) =~= s.r.insts);
    assert(jump_spec(s, b).r.insts.subrange(0, s.r.insts.len() as int) =~= s.r.insts);
}

/// What `CCMP` appends after the flag setting of its first block: the jump onwards, then the
/// second block.
spec fn compare_tail(a9: LState, inst: Instruction, neg: usize, next: usize) -> LState {
    let s11 = jump_spec(a9, next).switch(neg);
    let (s12, flag_val) = gv(s11, inst, 2);
    jump_spec(flags_to_value_spec(s12, flag_val, inst_type(inst)), next)
}

/// The second block of `CCMP` extends the code.
proof fn lemma_compare_tail(a9: LState, inst: Instruction, neg: usize, next: usize)
    ensures
        extends(a9, compare_tail(a9, inst, neg, next)),
{
    let s10 = jump_spec(a9, next);
    let s11 = s10.switch(neg);
    let (s12, flag_val) = gv(s11, inst, 2);
    let s13 = flags_to_value_spec(s12, flag_val, inst_type(inst));
    lemma_tail_extends(a9, inst.operands@[2], flag_val, inst_type(inst), next);
    lemma_tail_extends(s11, inst.operands@[2], flag_val, inst_type(inst), next);
    lemma_tail_extends(s12, inst.operands@[2], flag_val, inst_type(inst), next);
    lemma_tail_extends(s13, inst.operands@[2], flag_val, inst_type(inst), next);
    assert(s11.r.insts.subrange(0, s10.r.insts.len() as int) =~= s10.r.insts);
    lemma_extends_trans(a9, s10, s11);
    lemma_extends_trans(a9, s11, s12);
    lemma_extends_trans(a9, s12, s13);
    lemma_extends_trans(a9, s13, compare_tail(a9, inst, neg, next));
}

/// The code lifted for `CCMP` begins with the flag setting of its first block.
#[verifier::rlimit(50)]
proof fn lemma_compare_unfold(s: LState, inst: Instruction, pc: u64, blocks: Map<u64, usize>)
    requires
        inst.opcode is CCMP,
        s.r.insts.len() + 60 <= usize::MAX,
        s.r.names.len() + 2 <= usize::MAX,
    ensures
        ({
            let s5 = compare_entry(s, inst);
            let (s8, v1, nv) = compare_operands(s5, inst);
            let a9 = adc_flags_spec(s8, v1, nv, inst_type(inst), Val::Const(0));
            let insts = ccmp_spec(s, inst, pc, blocks).r.insts;
            &&& s.r.insts.len() < s5.r.insts.len() <= s.r.insts.len() + 9
            &&& s5.cur == s.next_block()
            &&& a9.r.insts.len() <= insts.len()
            &&& insts.subrange(0, a9.r.insts.len() + 0int) == a9.r.insts
        }),
{
    let s1 = s.block("ccmp_positive_condition"@);
    let neg = s1.next_block();
    let s2 = s1.block("ccmp_negative_condition"@);
    lemma_condition_len(s2, cond_at(inst, 3));
    let s5 = compare_entry(s, inst);
    let (s8, v1, nv) = compare_operands(s5, inst);
    let a9 = adc_flags_spec(s8, v1, nv, inst_type(inst), Val::Const(0));
    let next = blocks[next_pc(pc)];
    assert(compare_tail(a9, inst, neg, next) == ccmp_spec(s, inst, pc, blocks));
    lemma_compare_tail(a9, inst, neg, next);
}

/// In the first block of `CCMP`, the flag setting writes the flags of `AddWithCarry` of the
/// first operand, the complement of the second and a carry in of zero.
#[verifier::rlimit(50)]
proof fn lemma_compare_flags(s5: LState, inst: Instruction, regs: spec_fn(usize) -> int)
    requires
        inst_type(inst) == Ty::I32 || inst_type(inst) == Ty::I64,
        plain_operand(inst.operands@[0]),
        plain_operand(inst.operands@[1]),
        s5.r.insts.len() + 40 <= usize::MAX,
    ensures
        ({
            let (s8, v1, nv) = compare_operands(s5, inst);
            let ai = adc_flags_spec(s8, v1, nv, inst_type(inst), Val::Const(0)).r.insts;
            let l = s8.r.insts.len() + 0int;
            let m = modulus(inst_type(inst));
            let x = operand_value(inst.operands@[0], regs) % m;
            let y = operand_value(inst.operands@[1], regs) % m;
            let (n, z, c, v) = add_with_carry_flags(x, m - 1 - y, 0, inst_type(inst));
            &&& l + 16 == ai.len()
            &&& ai[l + 3].op == IrOp::WriteReg && ai[l + 3].block == s5.cur
            &&& ai[l + 3].args == seq![Val::Inst((l + 2) as usize), Val::Reg(REG_Z)]
            &&& ai[l + 5].op == IrOp::WriteReg && ai[l + 5].block == s5.cur
            &&& ai[l + 5].args == seq![Val::Inst((l + 4) as usize), Val::Reg(REG_N)]
            &&& ai[l + 9].op == IrOp::WriteReg && ai[l + 9].block == s5.cur
            &&& ai[l + 9].args == seq![Val::Inst((l + 8) as usize), Val::Reg(REG_C)]
            &&& ai[l + 15].op == IrOp::WriteReg && ai[l + 15].block == s5.cur
            &&& ai[l + 15].args == seq![Val::Inst((l + 14) as usize), Val::Reg(REG_V)]
            &&& ir_value(ai, regs, l + 2) == bit(z)
            &&& ir_value(ai, regs, l + 4) == bit(n)
            &&& ir_value(ai, regs, l + 8) == bit(c)
            &&& ir_value(ai, regs, l + 14) == bit(v)
        }),
{
    let o1 = inst.operands@[0];
    let o2 = inst.operands@[1];
    let ty = inst_type(inst);
    let (s6, v1) = gv(s5, inst, 0);
    let (s7, v2) = gv(s6, inst, 1);
    let (s8, nv) = op1(s7, IrOp::Not, ty, v2);
    let a9 = adc_flags_spec(s8, v1, nv, ty, Val::Const(0));
    lemma_read_count(s5, o1);
    lemma_read_count(s6, o2);
    let k6 = s6.r.insts.len() + 0int;
    let k7 = s7.r.insts.len() + 0int;
    let l8 = k7 + 1;
    assert(s8.r.insts.len() == l8);
    lemma_adc_layout(s8, v1, nv, ty, Val::Const(0));
    let ai = a9.r.insts;
    assert(ai.len() == l8 + 16);
    assert(ai.subrange(0, k6) =~= s6.r.insts);
    assert(ai.subrange(0, k7) =~= s7.r.insts);
    lemma_read_value(s5, o1, ai, regs, l8);
    lemma_read_value(s6, o2, ai, regs, k7);
    let m = modulus(ty);
    assert(m > 1);
    assert(0int % m == 0) by {
        lemma_mod_once(0, m);
    }
    assert(ir_arg(ai, regs, nv, l8) % m == m - 1 - operand_value(o2, regs) % m) by {
        reveal_with_fuel(ir_value, 2);
        reveal_with_fuel(ir_arg, 2);
        assert(ir_arg(ai, regs, nv, l8) == ir_value(ai, regs, k7));
        lemma_mod_once(m - 1 - operand_value(o2, regs) % m, m);
    }
    law_adc_flags(s8, v1, nv, ty, Val::Const(0), regs);
    assert(ir_arg(ai, regs, Val::Const(0), l8) % m == 0);
    let x = operand_value(o1, regs) % m;
    assert(ir_arg(ai, regs, v1, l8) % m == x) by {
        lemma_mod_once(x, m);
    }
}

/// `CCMP` compares by subtraction: where its condition holds, the block taken first writes to
/// `z`, `n`, `c` and `v` the flags that `AddWithCarry` gives for operand 0 plus the complement of
/// operand 1 plus a carry in of zero, both operands as values of the instruction's type.
#[verifier::rlimit(100)]
pub proof fn law_ccmp_flags(
    s: LState,
    inst: Instruction,
    pc: u64,
    blocks: Map<u64, usize>,
    regs: spec_fn(usize) -> int,
)
    requires
        inst.opcode is CCMP,
        inst_type(inst) == Ty::I32 || inst_type(inst) == Ty::I64,
        plain_operand(inst.operands@[0]),
        plain_operand(inst.operands@[1]),
        s.r.insts.len() + 60 <= usize::MAX,
        s.r.names.len() + 2 <= usize::MAX,
    ensures
        ({
            let insts = ccmp_spec(s, inst, pc, blocks).r.insts;
            let pos = s.next_block();
            let m = modulus(inst_type(inst));
            let x = operand_value(inst.operands@[0], regs) % m;
            let y = operand_value(inst.operands@[1], regs) % m;
            let (n, z, c, v) = add_with_carry_flags(x, m - 1 - y, 0, inst_type(inst));
            &&& flag_written(insts, regs, pos, REG_N, n)
            &&& flag_written(insts, regs, pos, REG_Z, z)
            &&& flag_written(insts, regs, pos, REG_C, c)
            &&& flag_written(insts, regs, pos, REG_V, v)
        }),
{
    lemma_compare_unfold(s, inst, pc, blocks);
    let s5 = compare_entry(s, inst);
    lemma_compare_flags(s5, inst, regs);
    let (s8, v1, nv) = compare_operands(s5, inst);
    let ai = adc_flags_spec(s8, v1, nv, inst_type(inst), Val::Const(0)).r.insts;
    let insts = ccmp_spec(s, inst, pc, blocks).r.insts;
    let pos = s.next_block();
    let l = s8.r.insts.len() + 0int;
    assert(ai[l + 3] == insts[l + 3]);
    assert(ai[l + 5] == insts[l + 5]);
    assert(ai[l + 9] == insts[l + 9]);
    assert(ai[l + 15] == insts[l + 15]);
    lemma_prefix_value(ai, insts, regs, l + 2);
    lemma_prefix_value(ai, insts, regs, l + 4);
    lemma_prefix_value(ai, insts, regs, l + 8);
    lemma_prefix_value(ai, insts, regs, l + 14);
    reveal_with_fuel(ir_arg, 1);
    lemma_flag_written_at(insts, regs, pos, REG_Z, l + 3);
    lemma_flag_written_at(insts, regs, pos, REG_N, l + 5);
    lemma_flag_written_at(insts, regs, pos, REG_C, l + 9);
    lemma_flag_written_at(insts, regs, pos, REG_V, l + 15);
}

/// Block `b` holds a write of the flag register `f` whose value is the bit of `holds`.
pub open spec fn flag_written(insts: Seq<InstV>, regs: spec_fn(usize) -> int, b: usize, f: usize, holds: bool) -> bool {
    exists|w: int|
        0 <= w < insts.len() && #[trigger] insts[w].op == IrOp::WriteReg && insts[w].block == b
            && insts[w].args.len() == 2 && insts[w].args[1] == Val::Reg(f) && ir_arg(
            insts,
            regs,
            insts[w].args[0],
            w,
        ) == bit(holds)
}

/// Witness for `flag_written`.
proof fn lemma_flag_written_at(insts: Seq<InstV>, regs: spec_fn(usize) -> int, b: usize, f: usize, w: int)
    requires
        0 <= w < insts.len(),
        insts[w].op == IrOp::WriteReg,
        insts[w].block == b,
        insts[w].args.len() == 2,
        insts[w].args[1] == Val::Reg(f),
    ensures
        flag_written(insts, regs, b, f, ir_arg(insts, regs, insts[w].args[0], w) == 1) || ir_arg(insts, regs, insts[w].args[0], w) != 0 && ir_arg(insts, regs, insts[w].args[0], w) != 1,
        ir_arg(insts, regs, insts[w].args[0], w) == 0 ==> flag_written(insts, regs, b, f, false),
        ir_arg(insts, regs, insts[w].args[0], w) == 1 ==> flag_written(insts, regs, b, f, true),
{
}


/// The modulus of a 32- or 64-bit type is two to the power of its width.
proof fn lemma_modulus_pow2(t: Ty)
    requires
        t == Ty::I32 || t == Ty::I64,
    ensures
        modulus(t) == pow2(t.bits()),
{
    vstd::arithmetic::power2::lemma2_to64();
    vstd::arithmetic::power2::lemma2_to64_rest();
}

/// Shifting `x`, a value of `w` bits, left by `sh` bits within `w` bits keeps its low `w - sh`
/// bits, moved up by `sh`.
proof fn lemma_shift_left_within(x: int, w: nat, sh: nat)
    requires
        0 <= x,
        sh <= w,
    ensures
        (x * pow2(sh)) % (pow2(w) as int) == pow2(sh) * (x % (pow2((w - sh) as nat) as int)),
        0 <= x % (pow2((w - sh) as nat) as int) < pow2((w - sh) as nat),
{
    let n = (w - sh) as nat;
    vstd::arithmetic::power2::lemma_pow2_adds(sh, n);
    vstd::arithmetic::power2::lemma_pow2_pos(sh);
    vstd::arithmetic::power2::lemma_pow2_pos(n);
    vstd::arithmetic::mul::lemma_mul_is_commutative(x, pow2(sh) as int);
    vstd::arithmetic::div_mod::lemma_truncate_middle(x, pow2(sh) as int, pow2(n) as int);
    vstd::arithmetic::div_mod::lemma_mod_bound(x, pow2(n) as int);
}

/// Moving bits `r` to `sv` of a `w`-bit value to the top and then back down, filling with zeros,
/// extracts them: the result is `x` shifted right by `r`, keeping `sv - r + 1` bits.
proof fn lemma_field_extract(x: int, w: nat, r: nat, sv: nat)
    requires
        0 <= x,
        r <= sv < w,
    ensures
        ((x * pow2((w - 1 - sv) as nat)) % (pow2(w) as int)) / (pow2((w - 1 - sv + r) as nat) as int)
            == (x / (pow2(r) as int)) % (pow2((sv - r + 1) as nat) as int),
{
    let sh = (w - 1 - sv) as nat;
    let n = (sv + 1) as nat;
    let size = (sv - r + 1) as nat;
    lemma_shift_left_within(x, w, sh);
    assert((w - sh) as nat == n);
    let y = x % (pow2(n) as int);
    let pl = pow2(sh) as int;
    let pr = pow2(r) as int;
    let ps = pow2(size) as int;
    vstd::arithmetic::power2::lemma_pow2_pos(sh);
    vstd::arithmetic::power2::lemma_pow2_pos(r);
    vstd::arithmetic::power2::lemma_pow2_pos(size);
    vstd::arithmetic::power2::lemma_pow2_adds(sh, r);
    vstd::arithmetic::power2::lemma_pow2_adds(r, size);
    assert(pl * y >= 0) by (nonlinear_arith)
        requires
            pl > 0,
            y >= 0,
    ;
    vstd::arithmetic::div_mod::lemma_div_denominator(pl * y, pl, pr);
    vstd::arithmetic::div_mod::lemma_div_multiples_vanish(y, pl);
    assert(pow2((sh + r) as nat) == pow2(sh) * pow2(r));
    vstd::arithmetic::div_mod::lemma_mod_breakdown(x, pr, ps);
    assert(pow2(n) == pow2(r) * pow2(size));
    let q = (x / pr) % ps;
    assert(y == pr * q + x % pr);
    vstd::arithmetic::div_mod::lemma_mod_bound(x, pr);
    vstd::arithmetic::mul::lemma_mul_is_commutative(pr, q);
    vstd::arithmetic::div_mod::lemma_fundamental_div_mod_converse(y, pr, q, x % pr);
}

/// Moving the low `sv + 1` bits of a `w`-bit value to the top and then down by `w - r`
/// bits, filling with zeros, where `sv < r`, moves them up by `r - sv - 1` bits.
proof fn lemma_field_insert(x: int, w: nat, r: nat, sv: nat)
    requires
        0 <= x,
        sv < r <= w,
    ensures
        ((x * pow2((w - 1 - sv) as nat)) % (pow2(w) as int)) / (pow2((w - r) as nat) as int)
            == (x % (pow2((sv + 1) as nat) as int)) * pow2((r - sv - 1) as nat),
        (x % (pow2((sv + 1) as nat) as int)) * pow2((r - sv - 1) as nat) < pow2(r),
{
    let sh = (w - 1 - sv) as nat;
    let n = (sv + 1) as nat;
    let up = (r - sv - 1) as nat;
    let down = (w - r) as nat;
    lemma_shift_left_within(x, w, sh);
    assert((w - sh) as nat == n);
    let y = x % (pow2(n) as int);
    vstd::arithmetic::power2::lemma_pow2_pos(up);
    vstd::arithmetic::power2::lemma_pow2_pos(down);
    vstd::arithmetic::power2::lemma_pow2_adds(down, up);
    vstd::arithmetic::power2::lemma_pow2_adds(n, up);
    assert((down + up) as nat == sh);
    assert((n + up) as nat == r);
    let pd = pow2(down) as int;
    let pu = pow2(up) as int;
    assert(pow2(sh) * y == pd * (pu * y)) by (nonlinear_arith)
        requires
            pow2(sh) == pd * pu,
    ;
    vstd::arithmetic::div_mod::lemma_div_multiples_vanish(pu * y, pd);
    assert(y * pu < pow2(n) * pu) by (nonlinear_arith)
        requires
            0 <= y < pow2(n),
            pu > 0,
    ;
    vstd::arithmetic::mul::lemma_mul_is_commutative(pu, y);
}

/// The first outcome of `UBFM` (`immr` at most `imms`, both below the width) extracts a field:
/// the value written to the destination, the last instruction appended, is the source shifted
/// right by `immr`, filling with zeros, of which the `imms - immr + 1` low bits are kept; so it
/// is below `2^(imms - immr + 1)`.  Source, `immr` and `imms` are taken as values of the
/// instruction's type.
#[verifier::rlimit(50)]
pub proof fn law_ubfm_extract(
    s: LState,
    o: Opcode,
    ty: Ty,
    src: Val,
    immr: Val,
    imms: Val,
    d: usize,
    regs: spec_fn(usize) -> int,
)
    requires
        o is UBFM,
        ty == Ty::I32 || ty == Ty::I64,
        s.ok(src),
        s.ok(immr),
        s.ok(imms),
        s.r.insts.len() + 10 <= usize::MAX,
        ir_arg(s.r.insts, regs, immr, s.r.insts.len() as int) % modulus(ty) <= ir_arg(s.r.insts, regs, imms, s.r.insts.len() as int) % modulus(ty) < ty.bits(),
    ensures
        ({
            let insts = xbfm_low_spec(s, o, ty, src, immr, imms, d).r.insts;
            let l = s.r.insts.len() as int;
            let m = modulus(ty);
            let x = ir_arg(insts, regs, src, l) % m;
            let r = ir_arg(insts, regs, immr, l) % m;
            let sv = ir_arg(insts, regs, imms, l) % m;
            let v = ir_value(insts, regs, l + 6);
            &&& insts.len() == l + 8
            &&& insts[l + 7].op == IrOp::WriteReg
            &&& insts[l + 7].block == s.cur
            &&& insts[l + 7].ty == ty
            &&& insts[l + 7].args == seq![Val::Inst((l + 6) as usize), Val::Reg(d)]
            &&& v == (x / (pow2(r as nat) as int)) % (pow2((sv - r + 1) as nat) as int)
            &&& 0 <= v < pow2((sv - r + 1) as nat)
        }),
{
    let insts = xbfm_low_spec(s, o, ty, src, immr, imms, d).r.insts;
    let l = s.r.insts.len() as int;
    let m = modulus(ty);
    let w = ty.bits();
    assert(insts.subrange(0, l) =~= s.r.insts);
    lemma_arg_bound(insts, regs, src, l, l + 8);
    lemma_arg_bound(insts, regs, immr, l, l + 8);
    lemma_arg_bound(insts, regs, imms, l, l + 8);
    lemma_prefix_arg(s.r.insts, insts, regs, immr, l);
    lemma_prefix_arg(s.r.insts, insts, regs, imms, l);
    let x = ir_arg(insts, regs, src, l) % m;
    let r = ir_arg(insts, regs, immr, l) % m;
    let sv = ir_arg(insts, regs, imms, l) % m;
    lemma_modulus_pow2(ty);
    assert(m > 64);
    assert(0 <= x < m && 0 <= r);
    lemma_mod_once(1, m);
    lemma_mod_once(w as int, m);
    reveal_with_fuel(ir_value, 2);
    reveal_with_fuel(ir_arg, 2);
    lemma_mod_once(1 + sv, m);
    assert(ir_value(insts, regs, l) == 1 + sv);
    lemma_mod_once(1 + sv, m);
    lemma_mod_once(1 + sv - r, m);
    assert(ir_value(insts, regs, l + 1) == sv - r + 1);
    assert(ir_value(insts, regs, l + 2) == sv + 1);
    lemma_mod_once(w - sv - 1, m);
    assert(ir_value(insts, regs, l + 3) == w - 1 - sv);
    let left = w - 1 - sv;
    let val = (x * pow2(left as nat)) % m;
    assert(ir_value(insts, regs, l + 4) == val);
    lemma_mod_once(w - 1 - sv + r, m);
    assert(ir_value(insts, regs, l + 5) == w - 1 - sv + r);
    vstd::arithmetic::div_mod::lemma_mod_bound(x * pow2(left as nat), m);
    lemma_mod_once(val, m);
    assert(ir_value(insts, regs, l + 6) == val / (pow2((w - 1 - sv + r) as nat) as int));
    lemma_field_extract(x, w, r as nat, sv as nat);
    vstd::arithmetic::power2::lemma_pow2_pos((sv - r + 1) as nat);
    vstd::arithmetic::div_mod::lemma_mod_bound(x / (pow2(r as nat) as int), pow2((sv - r + 1) as nat) as int);
}


/// The second outcome of `UBFM` (`imms` below `immr`, which is below the width) fills with
/// zeros: the value written to the destination, the last instruction appended, is the
/// `imms + 1` low bits of the source moved up by `immr - imms - 1` bits, with every other bit
/// clear; so it is below `2^immr`.  Source, `immr` and `imms` are taken as values of the
/// instruction's type.
#[verifier::rlimit(50)]
pub proof fn law_ubfm_insert(
    s: LState,
    o: Opcode,
    ty: Ty,
    src: Val,
    immr: Val,
    imms: Val,
    d: usize,
    regs: spec_fn(usize) -> int,
)
    requires
        o is UBFM,
        ty == Ty::I32 || ty == Ty::I64,
        s.ok(src),
        s.ok(immr),
        s.ok(imms),
        s.r.insts.len() + 10 <= usize::MAX,
        ir_arg(s.r.insts, regs, imms, s.r.insts.len() as int) % modulus(ty) < ir_arg(s.r.insts, regs, immr, s.r.insts.len() as int) % modulus(ty) < ty.bits(),
    ensures
        ({
            let insts = xbfm_high_spec(s, o, ty, src, immr, imms, d).r.insts;
            let l = s.r.insts.len() as int;
            let m = modulus(ty);
            let x = ir_arg(insts, regs, src, l) % m;
            let r = ir_arg(insts, regs, immr, l) % m;
            let sv = ir_arg(insts, regs, imms, l) % m;
            let v = ir_value(insts, regs, l + 4);
            &&& insts.len() == l + 6
            &&& insts[l + 5].op == IrOp::WriteReg
            &&& insts[l + 5].ty == ty
            &&& insts[l + 5].args == seq![Val::Inst((l + 4) as usize), Val::Reg(d)]
            &&& v == (x % (pow2((sv + 1) as nat) as int)) * pow2((r - sv - 1) as nat)
            &&& 0 <= v < pow2(r as nat)
        }),
{
    let insts = xbfm_high_spec(s, o, ty, src, immr, imms, d).r.insts;
    let l = s.r.insts.len() as int;
    let m = modulus(ty);
    let w = ty.bits();
    assert(insts.subrange(0, l) =~= s.r.insts);
    lemma_arg_bound(insts, regs, src, l, l + 6);
    lemma_arg_bound(insts, regs, immr, l, l + 6);
    lemma_arg_bound(insts, regs, imms, l, l + 6);
    lemma_prefix_arg(s.r.insts, insts, regs, immr, l);
    lemma_prefix_arg(s.r.insts, insts, regs, imms, l);
    let x = ir_arg(insts, regs, src, l) % m;
    let r = ir_arg(insts, regs, immr, l) % m;
    let sv = ir_arg(insts, regs, imms, l) % m;
    lemma_modulus_pow2(ty);
    assert(m > 64);
    assert(0 <= x < m && 0 <= sv);
    lemma_mod_once(1, m);
    lemma_mod_once(w as int, m);
    reveal_with_fuel(ir_value, 2);
    reveal_with_fuel(ir_arg, 2);
    lemma_mod_once(sv + 1, m);
    assert(ir_value(insts, regs, l) == sv + 1);
    lemma_mod_once(w - sv - 1, m);
    assert(ir_value(insts, regs, l + 1) == w - 1 - sv);
    let left = w - 1 - sv;
    let val = (x * pow2(left as nat)) % m;
    assert(ir_value(insts, regs, l + 2) == val);
    lemma_mod_once(w - r, m);
    assert(ir_value(insts, regs, l + 3) == w - r);
    vstd::arithmetic::div_mod::lemma_mod_bound(x * pow2(left as nat), m);
    lemma_mod_once(val, m);
    assert(ir_value(insts, regs, l + 4) == val / (pow2((w - r) as nat) as int));
    lemma_field_insert(x, w, r as nat, sv as nat);
    vstd::arithmetic::power2::lemma_pow2_pos((r - sv - 1) as nat);
    vstd::arithmetic::power2::lemma_pow2_pos((sv + 1) as nat);
    vstd::arithmetic::div_mod::lemma_mod_bound(x, pow2((sv + 1) as nat) as int);
    assert((x % (pow2((sv + 1) as nat) as int)) * pow2((r - sv - 1) as nat) >= 0) by (nonlinear_arith)
        requires
            x % (pow2((sv + 1) as nat) as int) >= 0,
            pow2((r - sv - 1) as nat) > 0,
    ;
}


/// The width a single-register load reads from memory.
pub open spec fn loaded_type(inst: Instruction) -> Ty {
    let o = inst.opcode;
    if is_load_byte(o) || is_load_sbyte(o) {
        Ty::I8
    } else if is_load_half(o) || is_load_shalf(o) {
        Ty::I16
    } else if is_load_sword(o) {
        Ty::I32
    } else {
        inst_type(inst)
    }
}

/// A single-register load extends what it reads as the instruction says: the byte and halfword
/// loads (`LDRB`, `LDRH` and their unscaled, acquire, exclusive and unprivileged forms) with
/// zeros, so that the register receives the loaded value itself, below `2^8` or `2^16`; the
/// signed loads (`LDRSB`, `LDRSH`, `LDRSW` and their forms) with copies of the sign bit, to the
/// instruction's type (64 bits for `LDRSW`); the others load the register's type whole.  The
/// lifted code ends with the load of the width `loaded_type` gives, at `insts.len() - 3`, and
/// then, but for whole-register loads, the extension, followed by the write of the
/// destination.
#[verifier::rlimit(50)]
pub proof fn law_load_extension(s: LState, inst: Instruction, regs: spec_fn(usize) -> int)
    requires
        is_load(inst.opcode),
        inst_type(inst) == Ty::I32 || inst_type(inst) == Ty::I64,
        s.r.insts.len() + 20 <= usize::MAX,
    ensures
        ({
            let insts = load_spec(s, inst).r.insts;
            let o = inst.opcode;
            let e = insts.len() - 1;
            let ld = if is_load_full(o) {
                e - 1
            } else {
                e - 2
            };
            let loaded = load_value(regs, ld, loaded_type(inst));
            &&& 0 <= ld
            &&& insts[ld].op == IrOp::Load
            &&& insts[ld].ty == loaded_type(inst)
            &&& insts[e].op == IrOp::WriteReg
            &&& insts[e].args == seq![Val::Inst((e - 1) as usize), Val::Reg(dst(inst))]
            &&& (is_load_byte(o) || is_load_half(o)) ==> {
                &&& insts[e].ty == Ty::I32
                &&& ir_value(insts, regs, e - 1) == loaded
                &&& 0 <= loaded < modulus(loaded_type(inst))
            }
            &&& (is_load_sbyte(o) || is_load_shalf(o) || is_load_sword(o)) ==> {
                let wide = if is_load_sword(o) {
                    Ty::I64
                } else {
                    inst_type(inst)
                };
                &&& insts[e].ty == wide
                &&& ir_value(insts, regs, e - 1) == signed(loaded, loaded_type(inst)) % modulus(wide)
            }
            &&& is_load_full(o) ==> ir_value(insts, regs, e - 1) == loaded
        }),
{
    let o = inst.opcode;
    let (s1, addr) = gv(s, inst, 1);
    let insts = load_spec(s, inst).r.insts;
    let k = s1.r.insts.len() as int;
    let small = loaded_type(inst);
    let m = modulus(small);
    assert(m > 0);
    let loaded = load_value(regs, k, small);
    vstd::arithmetic::div_mod::lemma_mod_bound(regs((NUM_REGS + k) as usize), m);
    reveal_with_fuel(ir_value, 2);
    reveal_with_fuel(ir_arg, 2);
    assert(insts[k].op == IrOp::Load);
    assert(ir_value(insts, regs, k) == loaded);
    if !is_load_full(o) {
        let wide = if is_load_byte(o) || is_load_half(o) {
            Ty::I32
        } else if is_load_sword(o) {
            Ty::I64
        } else {
            inst_type(inst)
        };
        let mw = modulus(wide);
        assert(m <= mw);
        lemma_mod_once(loaded, mw);
        lemma_mod_once(loaded, m);
        assert(ir_arg(insts, regs, Val::Inst(k as usize), k + 1) == loaded);
    }
}


/// The state in which `UBFM` starts its first block, with the values of its source, `immr`
/// and `imms`: the two blocks created, the operands read, the order of the immediates
/// compared and the jump emitted.
spec fn extract_entry(s: LState, inst: Instruction) -> (LState, Val, Val, Val) {
    let pos = s.next_block();
    let s1 = s.block("ubfm_positive_condition"@);
    let neg = s1.next_block();
    let s2 = s1.block("ubfm_negative_condition"@);
    let (s3, src) = gv(s2, inst, 1);
    let (s4, immr) = gv(s3, inst, 2);
    let (s5, imms) = gv(s4, inst, 3);
    let (s6, c) = op2(s5, IrOp::Icmp(CmpTy::Ult), Ty::I64, immr, imms);
    (jumpif_spec(s6, c, pos, neg).switch(pos), src, immr, imms)
}

/// The second outcome of a bitfield move and the jumps around it extend the code.
proof fn lemma_extract_tail(s8: LState, o: Opcode, ty: Ty, src: Val, immr: Val, imms: Val, d: usize, neg: usize, next: usize)
    ensures
        extends(s8, jump_spec(xbfm_high_spec(jump_spec(s8, next).switch(neg), o, ty, src, immr, imms, d), next)),
{
    let full = jump_spec(xbfm_high_spec(jump_spec(s8, next).switch(neg), o, ty, src, immr, imms, d), next);
    assert(full.r.insts.subrange(0, s8.r.insts.len() as int) =~= s8.r.insts);
}

/// `UBFM` with a register source and immediate `immr` at most `imms`, below the width, moves the
/// field from bit `immr` to bit `imms` of the source to the low bits of the destination,
/// filling with zeros: the first block created writes to the destination the source, as a value
/// of the instruction's type, shifted right by `immr` with the `imms - immr + 1` low bits kept.
/// That block is taken exactly when `immr` is below `imms` (for equal immediates the lifter
/// takes the second).
#[verifier::rlimit(100)]
pub proof fn law_ubfm_lift(
    s: LState,
    inst: Instruction,
    pc: u64,
    blocks: Map<u64, usize>,
    regs: spec_fn(usize) -> int,
)
    requires
        inst.opcode is UBFM,
        inst_type(inst) == Ty::I32 || inst_type(inst) == Ty::I64,
        plain_operand(inst.operands@[1]),
        inst.operands@[2] is Immediate,
        inst.operands@[3] is Immediate,
        operand_value(inst.operands@[2], regs) <= operand_value(inst.operands@[3], regs) < inst_type(inst).bits(),
        s.r.insts.len() + 40 <= usize::MAX,
        s.r.names.len() + 2 <= usize::MAX,
    ensures
        ({
            let insts = xbfm_spec(s, inst, pc, blocks).r.insts;
            let pos = s.next_block();
            let neg = s.next_block() + 1;
            let x = operand_value(inst.operands@[1], regs) % modulus(inst_type(inst));
            let r = operand_value(inst.operands@[2], regs);
            let sv = operand_value(inst.operands@[3], regs);
            &&& exists|j: int|
                0 <= j < insts.len() && #[trigger] insts[j].op == IrOp::JumpIf && insts[j].args.len() == 3
                    && insts[j].args[1] == Val::Label(pos) && insts[j].args[2] == Val::Label(neg as usize)
                    && ir_arg(insts, regs, insts[j].args[0], j) == bit(r < sv)
            &&& exists|w: int|
                0 <= w < insts.len() && #[trigger] insts[w].op == IrOp::WriteReg && insts[w].block == pos
                    && insts[w].args == seq![insts[w].args[0], Val::Reg(dst(inst))] && ir_arg(
                    insts,
                    regs,
                    insts[w].args[0],
                    w,
                ) == (x / (pow2(r as nat) as int)) % (pow2((sv - r + 1) as nat) as int)
        }),
{
    let o1 = inst.operands@[1];
    let o2 = inst.operands@[2];
    let o3 = inst.operands@[3];
    let ty = inst_type(inst);
    let d = dst(inst);
    let pos = s.next_block();
    let s1 = s.block("ubfm_positive_condition"@);
    let neg = s1.next_block();
    let s2 = s1.block("ubfm_negative_condition"@);
    let (s3, src) = gv(s2, inst, 1);
    let (s4, immr) = gv(s3, inst, 2);
    let (s5, imms) = gv(s4, inst, 3);
    let s7 = extract_entry(s, inst).0;
    let s8 = xbfm_low_spec(s7, inst.opcode, ty, src, immr, imms, d);
    let next = blocks[next_pc(pc)];
    let full = xbfm_spec(s, inst, pc, blocks);
    assert(full == jump_spec(xbfm_high_spec(jump_spec(s8, next).switch(neg), inst.opcode, ty, src, immr, imms, d), next));
    lemma_extract_tail(s8, inst.opcode, ty, src, immr, imms, d, neg, next);
    let insts = full.r.insts;
    let l2 = s2.r.insts.len() as int;
    lemma_read_count(s2, o1);
    let l5 = l2 + read_count(o1);
    assert(s5.r.insts.len() == l5);
    let l7 = l5 + 2;
    assert(s7.r.insts.len() == l7);
    let i7 = s7.r.insts;
    assert(i7.subrange(0, l5) =~= s3.r.insts);
    lemma_read_value(s2, o1, i7, regs, l7 - 1);
    let m = modulus(ty);
    lemma_modulus_pow2(ty);
    assert(m > 64);
    let r = operand_value(o2, regs);
    let sv = operand_value(o3, regs);
    lemma_mod_once(r, m);
    lemma_mod_once(sv, m);
    assert(ir_arg(i7, regs, src, l7) == operand_value(o1, regs));
    assert(ir_arg(i7, regs, immr, l7) % m == r);
    assert(ir_arg(i7, regs, imms, l7) % m == sv);
    law_ubfm_extract(s7, inst.opcode, ty, src, immr, imms, d, regs);
    let i8 = s8.r.insts;
    assert(i8.subrange(0, l7) =~= i7);
    lemma_prefix_arg(i7, i8, regs, src, l7);
    lemma_prefix_arg(i7, i8, regs, immr, l7);
    lemma_prefix_arg(i7, i8, regs, imms, l7);
    lemma_prefix_value(i8, insts, regs, l7 + 6);
    assert(i8[l7 + 7] == insts[l7 + 7]);
    reveal_with_fuel(ir_arg, 1);
    assert(ir_arg(insts, regs, insts[l7 + 7].args[0], l7 + 7) == ir_value(insts, regs, l7 + 6));
    // the jump on the order of the immediates
    assert(i8[l5 + 1] == insts[l5 + 1]);
    assert(insts[l5 + 1].op == IrOp::JumpIf);
    lemma_prefix_value(i8, insts, regs, l5);
    lemma_prefix_value(i7, i8, regs, l5);
    lemma_mod_once(r, modulus(Ty::I64));
    lemma_mod_once(sv, modulus(Ty::I64));
    reveal_with_fuel(ir_value, 2);
    assert(ir_value(i7, regs, l5) == bit(r < sv));
}

} // verus!
