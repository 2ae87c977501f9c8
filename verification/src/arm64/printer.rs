//! The text form of a region.
//!
//! A region prints as the architecture's register list, then each block in creation order:
//! a header naming the block and its predecessors (the entry block lists the 37 register
//! values it starts from), one line per instruction, and an empty line.  Values are numbered
//! in the order a depth-first walk from the entry block meets them; a value in a block the
//! walk never reaches prints as `<unknown:op>`.

use crate::arm64::ir::{
    decimal, digit_char, push_decimal, push_str, string_from_chars, CmpTy, InstV, IrOp, Region,
    RegionV, Ty, Val, NUM_REGS,
};
use vstd::prelude::*;

verus! {

/// Name of a type.
pub open spec fn ty_name(t: Ty) -> Seq<char> {
    match t {
        Ty::I1 => "i1"@,
        Ty::I8 => "i8"@,
        Ty::I16 => "i16"@,
        Ty::I32 => "i32"@,
        Ty::I64 => "i64"@,
        Ty::I128 => "i128"@,
    }
}

/// Name of a comparison.
pub open spec fn cmp_name(c: CmpTy) -> Seq<char> {
    match c {
        CmpTy::Eq => "eq"@,
        CmpTy::Ne => "ne"@,
        CmpTy::Slt => "slt"@,
        CmpTy::Sle => "sle"@,
        CmpTy::Sgt => "sgt"@,
        CmpTy::Sge => "sge"@,
        CmpTy::Ult => "ult"@,
        CmpTy::Ule => "ule"@,
        CmpTy::Ugt => "ugt"@,
        CmpTy::Uge => "uge"@,
    }
}

/// Name of an operation.
pub open spec fn op_name(op: IrOp) -> Seq<char> {
    match op {
        IrOp::Add => "add"@,
        IrOp::Sub => "sub"@,
        IrOp::And => "and"@,
        IrOp::Or => "or"@,
        IrOp::Xor => "xor"@,
        IrOp::Not => "not"@,
        IrOp::BitwiseNot => "bitwise_not"@,
        IrOp::Lshl => "lshl"@,
        IrOp::Lshr => "lshr"@,
        IrOp::Ashr => "ashr"@,
        IrOp::Ror => "ror"@,
        IrOp::Imul => "imul"@,
        IrOp::Umul => "umul"@,
        IrOp::Idiv => "idiv"@,
        IrOp::Udiv => "udiv"@,
        IrOp::Icmp(c) => "icmp."@ + cmp_name(c),
        IrOp::ReadReg => "read_reg"@,
        IrOp::WriteReg => "write_reg"@,
        IrOp::Load => "load"@,
        IrOp::Store => "store"@,
        IrOp::Opaque => "opaque"@,
        IrOp::Trunc(t) => "trunc_"@ + ty_name(t),
        IrOp::Sext(t) => "sext_"@ + ty_name(t),
        IrOp::Zext(t) => "zext_"@ + ty_name(t),
        IrOp::HighestSetBit => "highest_set_bit"@,
        IrOp::ReverseBits => "reverse_bits"@,
        IrOp::ReverseBytes => "reverse_bytes"@,
        IrOp::Jump => "jump"@,
        IrOp::JumpIf => "jumpif"@,
        IrOp::DynamicJump => "dynamic_jump"@,
        IrOp::Trap => "trap"@,
        IrOp::TrapIf => "trapif"@,
    }
}

/// Name of a register: `x0` to `x30`, `sp`, `pc` and the flags `n`, `z`, `c`, `v`.
pub open spec fn reg_name(i: nat) -> Seq<char> {
    if i < 31 {
        "x"@ + decimal(i)
    } else if i == 31 {
        "sp"@
    } else if i == 32 {
        "pc"@
    } else if i == 33 {
        "n"@
    } else if i == 34 {
        "z"@
    } else if i == 35 {
        "c"@
    } else {
        "v"@
    }
}

/// Type of a register: the flags are one bit, the others 64 bits.
pub open spec fn reg_ty(i: nat) -> Ty {
    if i < 33 {
        Ty::I64
    } else {
        Ty::I1
    }
}

/// Appends the name of a type.
pub fn push_ty_name(out: &mut Vec<char>, t: Ty)
    ensures
        final(out)@ == old(out)@ + ty_name(t),
{
    match t {
        Ty::I1 => push_str(out, "i1"),
        Ty::I8 => push_str(out, "i8"),
        Ty::I16 => push_str(out, "i16"),
        Ty::I32 => push_str(out, "i32"),
        Ty::I64 => push_str(out, "i64"),
        Ty::I128 => push_str(out, "i128"),
    }
}

/// Appends the name of a comparison.
fn push_cmp_name(out: &mut Vec<char>, c: CmpTy)
    ensures
        final(out)@ == old(out)@ + cmp_name(c),
{
    match c {
        CmpTy::Eq => push_str(out, "eq"),
        CmpTy::Ne => push_str(out, "ne"),
        CmpTy::Slt => push_str(out, "slt"),
        CmpTy::Sle => push_str(out, "sle"),
        CmpTy::Sgt => push_str(out, "sgt"),
        CmpTy::Sge => push_str(out, "sge"),
        CmpTy::Ult => push_str(out, "ult"),
        CmpTy::Ule => push_str(out, "ule"),
        CmpTy::Ugt => push_str(out, "ugt"),
        CmpTy::Uge => push_str(out, "uge"),
    }
}

/// Appends the name of an operation.
pub fn push_op_name(out: &mut Vec<char>, op: IrOp)
    ensures
        final(out)@ == old(out)@ + op_name(op),
{
    match op {
        IrOp::Add => push_str(out, "add"),
        IrOp::Sub => push_str(out, "sub"),
        IrOp::And => push_str(out, "and"),
        IrOp::Or => push_str(out, "or"),
        IrOp::Xor => push_str(out, "xor"),
        IrOp::Not => push_str(out, "not"),
        IrOp::BitwiseNot => push_str(out, "bitwise_not"),
        IrOp::Lshl => push_str(out, "lshl"),
        IrOp::Lshr => push_str(out, "lshr"),
        IrOp::Ashr => push_str(out, "ashr"),
        IrOp::Ror => push_str(out, "ror"),
        IrOp::Imul => push_str(out, "imul"),
        IrOp::Umul => push_str(out, "umul"),
        IrOp::Idiv => push_str(out, "idiv"),
        IrOp::Udiv => push_str(out, "udiv"),
        IrOp::Icmp(c) => {
            push_str(out, "icmp.");
            push_cmp_name(out, c);
            assert(final(out)@ =~= old(out)@ + op_name(op));
        },
        IrOp::ReadReg => push_str(out, "read_reg"),
        IrOp::WriteReg => push_str(out, "write_reg"),
        IrOp::Load => push_str(out, "load"),
        IrOp::Store => push_str(out, "store"),
        IrOp::Opaque => push_str(out, "opaque"),
        IrOp::Trunc(t) => {
            push_str(out, "trunc_");
            push_ty_name(out, t);
            assert(final(out)@ =~= old(out)@ + op_name(op));
        },
        IrOp::Sext(t) => {
            push_str(out, "sext_");
            push_ty_name(out, t);
            assert(final(out)@ =~= old(out)@ + op_name(op));
        },
        IrOp::Zext(t) => {
            push_str(out, "zext_");
            push_ty_name(out, t);
            assert(final(out)@ =~= old(out)@ + op_name(op));
        },
        IrOp::HighestSetBit => push_str(out, "highest_set_bit"),
        IrOp::ReverseBits => push_str(out, "reverse_bits"),
        IrOp::ReverseBytes => push_str(out, "reverse_bytes"),
        IrOp::Jump => push_str(out, "jump"),
        IrOp::JumpIf => push_str(out, "jumpif"),
        IrOp::DynamicJump => push_str(out, "dynamic_jump"),
        IrOp::Trap => push_str(out, "trap"),
        IrOp::TrapIf => push_str(out, "trapif"),
    }
}

/// Appends the name of register `i`.
pub fn push_reg_name(out: &mut Vec<char>, i: usize)
    ensures
        final(out)@ == old(out)@ + reg_name(i as nat),
{
    if i < 31 {
        push_str(out, "x");
        push_decimal(out, i as u64);
        assert(final(out)@ =~= old(out)@ + reg_name(i as nat));
    } else if i == 31 {
        push_str(out, "sp");
    } else if i == 32 {
        push_str(out, "pc");
    } else if i == 33 {
        push_str(out, "n");
    } else if i == 34 {
        push_str(out, "z");
    } else if i == 35 {
        push_str(out, "c");
    } else {
        push_str(out, "v");
    }
}

/// A hexadecimal digit.
pub open spec fn hex_digit(d: nat) -> char {
    if d < 10 {
        digit_char(d)
    } else if d == 10 {
        'a'
    } else if d == 11 {
        'b'
    } else if d == 12 {
        'c'
    } else if d == 13 {
        'd'
    } else if d == 14 {
        'e'
    } else {
        'f'
    }
}

/// Lower-case hexadecimal notation of a natural number, without leading zeros.
pub open spec fn hex(n: nat) -> Seq<char>
    decreases n,
{
    if n < 16 {
        seq![hex_digit(n)]
    } else {
        hex(n / 16).push(hex_digit(n % 16))
    }
}

/// A constant as `0x` and its hexadecimal digits.
pub open spec fn hex_text(c: u64) -> Seq<char> {
    "0x"@ + hex(c as nat)
}

fn hex_digit_exec(d: u64) -> (c: char)
    requires
        d < 16,
    ensures
        c == hex_digit(d as nat),
{
    if d < 10 {
        crate::arm64::ir::digit_exec(d)
    } else if d == 10 {
        'a'
    } else if d == 11 {
        'b'
    } else if d == 12 {
        'c'
    } else if d == 13 {
        'd'
    } else if d == 14 {
        'e'
    } else {
        'f'
    }
}

/// Appends the hexadecimal notation of `n`.
pub fn push_hex(out: &mut Vec<char>, n: u64)
    ensures
        final(out)@ == old(out)@ + hex(n as nat),
    decreases n,
{
    if n >= 16 {
        push_hex(out, n / 16);
    }
    out.push(hex_digit_exec(n % 16));
    assert(final(out)@ =~= old(out)@ + hex(n as nat));
}


/// Pool indices of the instructions of block `b` among the first `n` of `insts`, in order.
pub open spec fn insts_of(insts: Seq<InstV>, b: usize, n: nat) -> Seq<usize>
    decreases n,
{
    if n == 0 {
        Seq::<usize>::empty()
    } else {
        let prev = insts_of(insts, b, (n - 1) as nat);
        if insts[n - 1].block == b {
            prev.push((n - 1) as usize)
        } else {
            prev
        }
    }
}

/// Pool indices of the instructions of block `b`, in order.
pub open spec fn block_insts(r: RegionV, b: usize) -> Seq<usize> {
    insts_of(r.insts, b, r.insts.len())
}

/// The blocks named among `args`, in order.
pub open spec fn labels(args: Seq<Val>) -> Seq<usize>
    decreases args.len(),
{
    if args.len() == 0 {
        Seq::<usize>::empty()
    } else {
        let prev = labels(args.drop_last());
        match args.last() {
            Val::Label(b) => prev.push(b),
            _ => prev,
        }
    }
}

/// The successors of block `b`: the blocks its last instruction jumps to, if it jumps.
pub open spec fn succs(r: RegionV, b: usize) -> Seq<usize> {
    let is = block_insts(r, b);
    if is.len() == 0 {
        Seq::<usize>::empty()
    } else {
        let last = r.insts[is.last() as int];
        if last.op.spec_is_jump() {
            labels(last.args)
        } else {
            Seq::<usize>::empty()
        }
    }
}

/// A sequence in reverse order.
pub open spec fn rev(s: Seq<usize>) -> Seq<usize> {
    Seq::new(s.len(), |i: int| s[s.len() - 1 - i])
}

/// Number of blocks not visited yet.
pub open spec fn count_unvisited(v: Seq<bool>) -> nat
    decreases v.len(),
{
    if v.len() == 0 {
        0
    } else {
        count_unvisited(v.drop_last()) + if v.last() {
            0nat
        } else {
            1nat
        }
    }
}

/// Visiting a block leaves one block fewer to visit.
pub proof fn lemma_visit(v: Seq<bool>, i: int)
    requires
        0 <= i < v.len(),
        !v[i],
    ensures
        count_unvisited(v.update(i, true)) + 1 == count_unvisited(v),
    decreases v.len(),
{
    let u = v.update(i, true);
    if i == v.len() - 1 {
        assert(u.drop_last() =~= v.drop_last());
    } else {
        assert(u.drop_last() =~= v.drop_last().update(i, true));
        lemma_visit(v.drop_last(), i);
    }
}

/// The blocks a depth-first walk visits, in order: it takes the block on top of `stack`,
/// skips it when visited, and otherwise visits it and stacks its successors so that the first
/// is taken next.
pub open spec fn dfs(r: RegionV, visited: Seq<bool>, stack: Seq<usize>) -> Seq<usize>
    decreases count_unvisited(visited), stack.len(),
{
    if stack.len() == 0 {
        Seq::<usize>::empty()
    } else {
        let b = stack.last();
        let rest = stack.drop_last();
        if b >= visited.len() || visited[b as int] {
            dfs(r, visited, rest)
        } else {
            proof {
                lemma_visit(visited, b as int);
            }
            seq![b] + dfs(r, visited.update(b as int, true), rest + rev(succs(r, b)))
        }
    }
}

/// No block visited yet.
pub open spec fn none_visited(n: nat) -> Seq<bool> {
    Seq::new(n, |i: int| false)
}

/// The order in which a depth-first walk from the entry block visits the blocks.
pub open spec fn dfs_order(r: RegionV) -> Seq<usize> {
    dfs(r, none_visited(r.names.len()), seq![0usize])
}

impl Region {
    /// Pool indices of the instructions of block `b`, in order.
    pub fn block_insts(&self, b: usize) -> (r: Vec<usize>)
        ensures
            r@ == block_insts(self@, b),
    {
        let m = self.insts.len();
        let mut out: Vec<usize> = Vec::new();
        let mut k: usize = 0;
        while k < m
            invariant
                m == self@.insts.len(),
                k <= m,
                out@ == insts_of(self@.insts, b, k as nat),
            decreases m - k,
        {
            if self.insts[k].block == b {
                out.push(k);
            }
            k = k + 1;
        }
        out
    }

    /// The successors of block `b`.
    pub fn successors(&self, b: usize) -> (r: Vec<usize>)
        ensures
            r@ == succs(self@, b),
    {
        let is = self.block_insts(b);
        let mut out: Vec<usize> = Vec::new();
        if is.len() == 0 {
            return out;
        }
        proof {
            assert(self@.insts.len() == self.insts.len());
            lemma_insts_of_bounds(self@.insts, b, self@.insts.len());
            assert(is@[is@.len() - 1] < self@.insts.len());
        }
        let last = &self.insts[is[is.len() - 1]];
        if !last.op.is_jump() {
            return out;
        }
        let n = last.args.len();
        let mut j: usize = 0;
        while j < n
            invariant
                n == last.args@.len(),
                j <= n,
                out@ == labels(last.args@.take(j as int)),
            decreases n - j,
        {
            assert(last.args@.take(j + 1).drop_last() =~= last.args@.take(j as int));
            match last.args[j] {
                Val::Label(t) => out.push(t),
                _ => {},
            }
            j = j + 1;
        }
        assert(last.args@.take(n as int) =~= last.args@);
        out
    }

    /// The successors of every block.
    pub fn all_successors(&self) -> (r: Vec<Vec<usize>>)
        ensures
            r@.len() == self@.names.len(),
            forall|b: int| 0 <= b < r@.len() ==> (#[trigger] r@[b])@ == succs(self@, b as usize),
    {
        let n = self.blocks.len();
        let mut out: Vec<Vec<usize>> = Vec::new();
        let mut b: usize = 0;
        while b < n
            invariant
                n == self@.names.len(),
                b <= n,
                out@.len() == b,
                forall|c: int| 0 <= c < b ==> (#[trigger] out@[c])@ == succs(self@, c as usize),
            decreases n - b,
        {
            out.push(self.successors(b));
            b = b + 1;
        }
        out
    }

    /// The order in which a depth-first walk from the entry block visits the blocks.
    pub fn dfs_order(&self) -> (r: Vec<usize>)
        ensures
            r@ == dfs_order(self@),
    {
        let n = self.blocks.len();
        let all = self.all_successors();
        let mut visited: Vec<bool> = Vec::new();
        let mut i: usize = 0;
        while i < n
            invariant
                i <= n,
                visited@ =~= none_visited(i as nat),
            decreases n - i,
        {
            visited.push(false);
            i = i + 1;
        }
        let mut stack: Vec<usize> = Vec::new();
        stack.push(0);
        let mut order: Vec<usize> = Vec::new();
        let ghost whole = dfs_order(self@);
        assert(stack@ =~= seq![0usize]);
        loop
            invariant
                n == self@.names.len(),
                all@.len() == n,
                forall|b: int| 0 <= b < n ==> (#[trigger] all@[b])@ == succs(self@, b as usize),
                visited@.len() == n,
                whole == dfs_order(self@),
                whole == order@ + dfs(self@, visited@, stack@),
            ensures
                whole == order@,
            decreases count_unvisited(visited@), stack@.len(),
        {
            let ghost vis0 = visited@;
            let ghost st0 = stack@;
            let b = match stack.pop() {
                Some(b) => b,
                None => {
                    assert(dfs(self@, visited@, stack@) =~= Seq::<usize>::empty());
                    assert(order@ + Seq::<usize>::empty() =~= order@);
                    break;
                },
            };
            assert(st0.last() == b && st0.drop_last() =~= stack@);
            if b >= n || visited[b] {
                continue;
            }
            proof {
                lemma_visit(vis0, b as int);
            }
            visited.set(b, true);
            let ghost before = order@;
            order.push(b);
            let ss = &all[b];
            let ghost base = stack@;
            let mut i = ss.len();
            while i > 0
                invariant
                    i <= ss@.len(),
                    stack@ == base + rev(ss@.subrange(i as int, ss@.len() as int)),
                decreases i,
            {
                i = i - 1;
                stack.push(ss[i]);
                assert(rev(ss@.subrange(i as int, ss@.len() as int)) =~= rev(
                    ss@.subrange(i + 1, ss@.len() as int),
                ).push(ss@[i as int]));
            }
            assert(ss@.subrange(0, ss@.len() as int) =~= ss@);
            assert(order@ + dfs(self@, visited@, stack@) =~= before + (seq![b] + dfs(
                self@,
                visited@,
                stack@,
            )));
        }
        order
    }
}

/// Pool indices listed for a block are below the pool length, strictly increasing, and
/// belong to the block.
pub proof fn lemma_insts_of_bounds(insts: Seq<InstV>, b: usize, n: nat)
    requires
        n <= insts.len(),
        insts.len() <= usize::MAX,
    ensures
        forall|k: int| 0 <= k < insts_of(insts, b, n).len() ==> #[trigger] insts_of(insts, b, n)[k] < n,
        forall|k: int|
            0 <= k < insts_of(insts, b, n).len() ==> insts[#[trigger] insts_of(insts, b, n)[k] as int].block == b,
        forall|j: int, k: int|
            0 <= j < k < insts_of(insts, b, n).len() ==> #[trigger] insts_of(insts, b, n)[j] < #[trigger] insts_of(insts, b, n)[k],
    decreases n,
{
    if n > 0 {
        lemma_insts_of_bounds(insts, b, (n - 1) as nat);
        let prev = insts_of(insts, b, (n - 1) as nat);
        let cur = insts_of(insts, b, n);
        if insts[n - 1].block == b {
            assert(cur == prev.push((n - 1) as usize));
            assert forall|k: int| 0 <= k < cur.len() implies insts[#[trigger] cur[k] as int].block
                == b by {
                if k < prev.len() {
                    assert(cur[k] == prev[k]);
                }
            }
            assert forall|j: int, k: int| 0 <= j < k < cur.len() implies #[trigger] cur[j]
                < #[trigger] cur[k] by {
                assert(cur[j] == prev[j]);
                if k < prev.len() {
                    assert(cur[k] == prev[k]);
                }
            }
        }
    }
}


/// The instructions among `ks` that define a value.
pub open spec fn results_in(insts: Seq<InstV>, ks: Seq<usize>) -> Seq<usize>
    decreases ks.len(),
{
    if ks.len() == 0 {
        Seq::<usize>::empty()
    } else {
        let prev = results_in(insts, ks.drop_last());
        if insts[ks.last() as int].op.spec_has_result() {
            prev.push(ks.last())
        } else {
            prev
        }
    }
}

/// Numbering the values `ks` in order, from `next` on.
pub open spec fn assign(ids: Seq<Option<usize>>, next: nat, ks: Seq<usize>) -> (
    Seq<Option<usize>>,
    nat,
)
    decreases ks.len(),
{
    if ks.len() == 0 {
        (ids, next)
    } else {
        let (i2, n2) = assign(ids, next, ks.drop_last());
        (i2.update(ks.last() as int, Some(n2 as usize)), n2 + 1)
    }
}

/// Numbering the values of the blocks `order`, block after block, from `next` on.
pub open spec fn number_blocks(r: RegionV, ids: Seq<Option<usize>>, next: nat, order: Seq<usize>) -> (
    Seq<Option<usize>>,
    nat,
)
    decreases order.len(),
{
    if order.len() == 0 {
        (ids, next)
    } else {
        let (i2, n2) = number_blocks(r, ids, next, order.drop_last());
        assign(i2, n2, results_in(r.insts, block_insts(r, order.last())))
    }
}

/// No value numbered yet.
pub open spec fn no_ids(m: nat) -> Seq<Option<usize>> {
    Seq::new(m, |k: int| None::<usize>)
}

/// The number of every value: the entry block's 37 register values come first, then the
/// values of the blocks in the order of the depth-first walk; values of blocks the walk does
/// not reach have no number.
pub open spec fn value_ids(r: RegionV) -> Seq<Option<usize>> {
    number_blocks(r, no_ids(r.insts.len()), NUM_REGS as nat, dfs_order(r)).0
}

/// Number of values that have a number.
pub open spec fn count_some(s: Seq<Option<usize>>) -> nat
    decreases s.len(),
{
    if s.len() == 0 {
        0
    } else {
        count_some(s.drop_last()) + if s.last() is Some {
            1nat
        } else {
            0nat
        }
    }
}

/// Numbering a value without a number adds one numbered value.
proof fn lemma_count_some_update(s: Seq<Option<usize>>, k: int, x: usize)
    requires
        0 <= k < s.len(),
        s[k] is None,
    ensures
        count_some(s.update(k, Some(x))) == count_some(s) + 1,
    decreases s.len(),
{
    let u = s.update(k, Some(x));
    if k == s.len() - 1 {
        assert(u.drop_last() =~= s.drop_last());
    } else {
        assert(u.drop_last() =~= s.drop_last().update(k, Some(x)));
        lemma_count_some_update(s.drop_last(), k, x);
    }
}

/// At most every value has a number.
proof fn lemma_count_some_bound(s: Seq<Option<usize>>)
    ensures
        count_some(s) <= s.len(),
    decreases s.len(),
{
    if s.len() > 0 {
        lemma_count_some_bound(s.drop_last());
    }
}

/// No value has a number yet.
proof fn lemma_count_some_none(m: nat)
    ensures
        count_some(no_ids(m)) == 0,
    decreases m,
{
    if m > 0 {
        assert(no_ids(m).drop_last() =~= no_ids((m - 1) as nat));
        lemma_count_some_none((m - 1) as nat);
    }
}

/// A depth-first walk visits each block at most once, and only blocks not visited before.
pub proof fn lemma_dfs_distinct(r: RegionV, visited: Seq<bool>, stack: Seq<usize>)
    ensures
        forall|i: int, j: int|
            0 <= i < j < dfs(r, visited, stack).len() ==> #[trigger] dfs(r, visited, stack)[i]
                != #[trigger] dfs(r, visited, stack)[j],
        forall|i: int|
            0 <= i < dfs(r, visited, stack).len() ==> #[trigger] dfs(r, visited, stack)[i]
                < visited.len() && !visited[dfs(r, visited, stack)[i] as int],
    decreases count_unvisited(visited), stack.len(),
{
    if stack.len() > 0 {
        let b = stack.last();
        let rest = stack.drop_last();
        if b >= visited.len() || visited[b as int] {
            lemma_dfs_distinct(r, visited, rest);
            assert(dfs(r, visited, stack) == dfs(r, visited, rest));
        } else {
            lemma_visit(visited, b as int);
            let v2 = visited.update(b as int, true);
            let s2 = rest + rev(succs(r, b));
            lemma_dfs_distinct(r, v2, s2);
            let tail = dfs(r, v2, s2);
            let all = dfs(r, visited, stack);
            assert(all == seq![b] + tail);
            assert forall|i: int| 0 <= i < all.len() implies #[trigger] all[i] < visited.len()
                && !visited[all[i] as int] by {
                if i > 0 {
                    assert(all[i] == tail[i - 1]);
                }
            }
            assert forall|i: int, j: int| 0 <= i < j < all.len() implies #[trigger] all[i]
                != #[trigger] all[j] by {
                assert(all[j] == tail[j - 1]);
                if i > 0 {
                    assert(all[i] == tail[i - 1]);
                } else {
                    assert(v2[tail[j - 1] as int] == false);
                }
            }
        }
    }
}

impl Region {
    /// The number of every value, given the order of the depth-first walk.
    pub fn value_ids(&self, order: &Vec<usize>) -> (r: Vec<Option<usize>>)
        requires
            order@ == dfs_order(self@),
            self@.insts.len() + NUM_REGS <= usize::MAX,
        ensures
            r@ == value_ids(self@),
            r@.len() == self@.insts.len(),
    {
        let m = self.insts.len();
        let mut ids: Vec<Option<usize>> = Vec::new();
        let mut k: usize = 0;
        while k < m
            invariant
                k <= m,
                ids@ =~= no_ids(k as nat),
            decreases m - k,
        {
            ids.push(None);
            k = k + 1;
        }
        proof {
            lemma_count_some_none(m as nat);
            lemma_dfs_distinct(self@, none_visited(self@.names.len()), seq![0usize]);
            assert(m == self@.insts.len());
        }
        let mut next: usize = NUM_REGS;
        let ghost ids0 = ids@;
        let n = order.len();
        let mut i: usize = 0;
        while i < n
            invariant
                n == order@.len(),
                m == self@.insts.len(),
                m + NUM_REGS <= usize::MAX,
                order@ == dfs_order(self@),
                forall|a: int, c: int| 0 <= a < c < order@.len() ==> #[trigger] order@[a]
                    != #[trigger] order@[c],
                ids0 == no_ids(m as nat),
                i <= n,
                ids@.len() == m,
                (ids@, next as nat) == number_blocks(self@, ids0, NUM_REGS as nat, order@.take(i as int)),
                next == NUM_REGS + count_some(ids@),
                forall|q: int|
                    0 <= q < m && (#[trigger] ids@[q]) is Some ==> order@.take(i as int).contains(
                        self@.insts[q].block,
                    ),
            decreases n - i,
        {
            let b = order[i];
            let ks = self.block_insts(b);
            proof {
                lemma_insts_of_bounds(self@.insts, b, self@.insts.len());
                assert(order@.take(i + 1).drop_last() =~= order@.take(i as int));
                assert(!order@.take(i as int).contains(b)) by {
                    if order@.take(i as int).contains(b) {
                        let a = choose|a: int| 0 <= a < i && order@.take(i as int)[a] == b;
                        assert(order@[a] == order@[i as int]);
                    }
                }
            }
            let ghost ids_i = ids@;
            let ghost next_i = next as nat;
            let nk = ks.len();
            let mut j: usize = 0;
            while j < nk
                invariant
                    nk == ks@.len(),
                    ks@ == block_insts(self@, b),
                    m == self@.insts.len(),
                    m + NUM_REGS <= usize::MAX,
                    forall|t: int| 0 <= t < nk ==> #[trigger] ks@[t] < m,
                    forall|t: int| 0 <= t < nk ==> self@.insts[#[trigger] ks@[t] as int].block == b,
                    forall|t: int, u: int| 0 <= t < u < nk ==> #[trigger] ks@[t] < #[trigger] ks@[u],
                    !order@.take(i as int).contains(b),
                    j <= nk,
                    ids@.len() == m,
                    (ids@, next as nat) == assign(ids_i, next_i, results_in(
                        self@.insts,
                        ks@.take(j as int),
                    )),
                    next == NUM_REGS + count_some(ids@),
                    forall|q: int|
                        0 <= q < m && (#[trigger] ids@[q]) is Some ==> (order@.take(
                            i as int,
                        ).contains(self@.insts[q].block) || ks@.take(j as int).contains(
                            q as usize,
                        )),
                decreases nk - j,
            {
                let q = ks[j];
                let ghost prev = results_in(self@.insts, ks@.take(j as int));
                proof {
                    assert(ks@.take(j + 1).drop_last() =~= ks@.take(j as int));
                    assert(ks@.take(j + 1).last() == q);
                    if self@.insts[q as int].op.spec_has_result() {
                        assert(results_in(self@.insts, ks@.take(j + 1)) == prev.push(q));
                        assert(prev.push(q).drop_last() =~= prev);
                    } else {
                        assert(results_in(self@.insts, ks@.take(j + 1)) == prev);
                    }
                }
                if self.insts[q].op.has_result() {
                    proof {
                        assert(ids@[q as int] is None) by {
                            if ids@[q as int] is Some {
                                if ks@.take(j as int).contains(q) {
                                    let t = choose|t: int| 0 <= t < j && ks@.take(j as int)[t] == q;
                                    assert(ks@[t] < ks@[j as int]);
                                }
                            }
                        }
                        lemma_count_some_update(ids@, q as int, next);
                        lemma_count_some_bound(ids@.update(q as int, Some(next)));
                    }
                    ids.set(q, Some(next));
                    next = next + 1;
                }
                proof {
                    assert forall|p: int|
                        0 <= p < m && (#[trigger] ids@[p]) is Some implies (order@.take(
                            i as int,
                        ).contains(self@.insts[p].block) || ks@.take(j + 1).contains(
                            p as usize,
                        )) by {
                        if p == q {
                            assert(ks@.take(j + 1)[j as int] == q);
                        } else if ks@.take(j as int).contains(p as usize) {
                            let t = choose|t: int| 0 <= t < j && ks@.take(j as int)[t] == p as usize;
                            assert(ks@.take(j + 1)[t] == p as usize);
                        }
                    }
                }
                j = j + 1;
            }
            proof {
                assert(ks@.take(nk as int) =~= ks@);
                assert forall|q: int|
                    0 <= q < m && (#[trigger] ids@[q]) is Some implies order@.take(i + 1).contains(
                        self@.insts[q].block,
                    ) by {
                    if order@.take(i as int).contains(self@.insts[q].block) {
                        let a = choose|a: int|
                            0 <= a < i && order@.take(i as int)[a] == self@.insts[q].block;
                        assert(order@.take(i + 1)[a] == self@.insts[q].block);
                    } else {
                        let t = choose|t: int| 0 <= t < nk && ks@[t] == q as usize;
                        assert(order@.take(i + 1)[i as int] == b);
                    }
                }
            }
            i = i + 1;
        }
        assert(order@.take(n as int) =~= order@);
        ids
    }
}


/// The text of a value: `v` and its number for an instruction's value (`<unknown:op>` when it
/// has none), the hexadecimal constant, the block's name, or the register's name in quotes.
pub open spec fn val_text(r: RegionV, ids: Seq<Option<usize>>, v: Val) -> Seq<char> {
    match v {
        Val::Inst(k) => match ids[k as int] {
            Some(i) => "v"@ + decimal(i as nat),
            None => "<unknown:"@ + op_name(r.insts[k as int].op) + ">"@,
        },
        Val::Const(c) => hex_text(c),
        Val::Label(b) => r.names[b as int],
        Val::Reg(i) => "\""@ + reg_name(i as nat) + "\""@,
    }
}

/// The operands of an instruction: a space, then their texts separated by commas.
pub open spec fn args_text(r: RegionV, ids: Seq<Option<usize>>, args: Seq<Val>) -> Seq<char>
    decreases args.len(),
{
    if args.len() == 0 {
        Seq::<char>::empty()
    } else if args.len() == 1 {
        " "@ + val_text(r, ids, args[0])
    } else {
        args_text(r, ids, args.drop_last()) + ", "@ + val_text(r, ids, args.last())
    }
}

/// The line of instruction `k`: indented, its value and `=` if it defines one, its type and a
/// dot if it is typed, its operation and its operands.
pub open spec fn inst_text(r: RegionV, ids: Seq<Option<usize>>, k: usize) -> Seq<char> {
    let i = r.insts[k as int];
    "  "@ + (if i.op.spec_has_result() {
        val_text(r, ids, Val::Inst(k)) + " = "@
    } else {
        Seq::<char>::empty()
    }) + (if i.op.spec_is_typed() {
        ty_name(i.ty) + "."@
    } else {
        Seq::<char>::empty()
    }) + op_name(i.op) + args_text(r, ids, i.args) + "\n"@
}

/// The lines of the instructions `ks`.
pub open spec fn lines_text(r: RegionV, ids: Seq<Option<usize>>, ks: Seq<usize>) -> Seq<char>
    decreases ks.len(),
{
    if ks.len() == 0 {
        Seq::<char>::empty()
    } else {
        lines_text(r, ids, ks.drop_last()) + inst_text(r, ids, ks.last())
    }
}

/// One register value of the entry block: its number and type.
pub open spec fn param_text(i: nat) -> Seq<char> {
    "v"@ + decimal(i) + ": "@ + ty_name(reg_ty(i))
}

/// The first `n` register values of the entry block, separated by commas.
pub open spec fn params_text(n: nat) -> Seq<char>
    decreases n,
{
    if n == 0 {
        Seq::<char>::empty()
    } else if n == 1 {
        param_text(0)
    } else {
        params_text((n - 1) as nat) + ", "@ + param_text((n - 1) as nat)
    }
}

/// The blocks among the first `n` that jump to block `b`, the latest created first.
pub open spec fn preds(r: RegionV, b: usize, n: nat) -> Seq<usize>
    decreases n,
{
    if n == 0 {
        Seq::<usize>::empty()
    } else {
        let rest = preds(r, b, (n - 1) as nat);
        if succs(r, (n - 1) as usize).contains(b) {
            seq![(n - 1) as usize] + rest
        } else {
            rest
        }
    }
}

/// The names of the blocks `ps`, separated by commas.
pub open spec fn names_text(r: RegionV, ps: Seq<usize>) -> Seq<char>
    decreases ps.len(),
{
    if ps.len() == 0 {
        Seq::<char>::empty()
    } else if ps.len() == 1 {
        r.names[ps[0] as int]
    } else {
        names_text(r, ps.drop_last()) + ", "@ + r.names[ps.last() as int]
    }
}

/// The header line of block `b`: the entry block with its register values, a further entry,
/// or a block with its predecessors.
pub open spec fn header_text(r: RegionV, b: usize) -> Seq<char> {
    if b == 0 {
        r.names[0] + "("@ + params_text(NUM_REGS as nat) + "): // entry block\n"@
    } else if r.entries.contains(b) {
        r.names[b as int] + ": // entry block\n"@
    } else {
        let ps = preds(r, b, r.names.len());
        if ps.len() == 0 {
            r.names[b as int] + ": // no preds!\n"@
        } else {
            r.names[b as int] + ": // preds: "@ + names_text(r, ps) + "\n"@
        }
    }
}

/// The text of block `b`: its header, its instructions and an empty line.
pub open spec fn block_text(r: RegionV, ids: Seq<Option<usize>>, b: usize) -> Seq<char> {
    header_text(r, b) + lines_text(r, ids, block_insts(r, b)) + "\n"@
}

/// The text of the first `n` blocks.
pub open spec fn blocks_text(r: RegionV, ids: Seq<Option<usize>>, n: nat) -> Seq<char>
    decreases n,
{
    if n == 0 {
        Seq::<char>::empty()
    } else {
        blocks_text(r, ids, (n - 1) as nat) + block_text(r, ids, (n - 1) as nat as usize)
    }
}

/// The first `n` registers with their types, one per line.
pub open spec fn regs_text(n: nat) -> Seq<char>
    decreases n,
{
    if n == 0 {
        Seq::<char>::empty()
    } else {
        regs_text((n - 1) as nat) + "    "@ + reg_name((n - 1) as nat) + ": "@ + ty_name(
            reg_ty((n - 1) as nat),
        ) + "\n"@
    }
}

/// The description of the architecture: its pointer type and its registers.
pub open spec fn arch_text() -> Seq<char> {
    "aarch64:\n  ptr: i64\n  regs:\n"@ + regs_text(NUM_REGS as nat) + "\n"@
}

/// The text of a region.
pub open spec fn display_text(r: RegionV) -> Seq<char> {
    arch_text() + blocks_text(r, value_ids(r), r.names.len())
}

/// Appends the register list of the architecture.
fn push_arch(out: &mut Vec<char>)
    ensures
        final(out)@ == old(out)@ + arch_text(),
{
    push_str(out, "aarch64:\n  ptr: i64\n  regs:\n");
    let ghost start = out@;
    let mut i: usize = 0;
    while i < NUM_REGS
        invariant
            i <= NUM_REGS,
            out@ == start + regs_text(i as nat),
        decreases NUM_REGS - i,
    {
        push_str(out, "    ");
        push_reg_name(out, i);
        push_str(out, ": ");
        push_ty_name(out, if i < 33 { Ty::I64 } else { Ty::I1 });
        push_str(out, "\n");
        i = i + 1;
        assert(out@ =~= start + regs_text(i as nat));
    }
    push_str(out, "\n");
    assert(final(out)@ =~= old(out)@ + arch_text());
}

/// Appends the register values of the entry block.
fn push_params(out: &mut Vec<char>)
    ensures
        final(out)@ == old(out)@ + params_text(NUM_REGS as nat),
{
    let ghost start = out@;
    let mut i: usize = 0;
    while i < NUM_REGS
        invariant
            i <= NUM_REGS,
            out@ == start + params_text(i as nat),
        decreases NUM_REGS - i,
    {
        if i > 0 {
            push_str(out, ", ");
        }
        push_str(out, "v");
        push_decimal(out, i as u64);
        push_str(out, ": ");
        push_ty_name(out, if i < 33 { Ty::I64 } else { Ty::I1 });
        i = i + 1;
        assert(out@ =~= start + params_text(i as nat));
    }
}

/// Whether `s` holds `x`.
fn contains_usize(s: &Vec<usize>, x: usize) -> (r: bool)
    ensures
        r == s@.contains(x),
{
    let mut i: usize = 0;
    while i < s.len()
        invariant
            i <= s@.len(),
            forall|j: int| 0 <= j < i ==> s@[j] != x,
        decreases s@.len() - i,
    {
        if s[i] == x {
            return true;
        }
        i = i + 1;
    }
    false
}

/// The blocks listed as predecessors exist.
proof fn lemma_preds_bound(r: RegionV, b: usize, n: nat)
    requires
        n <= usize::MAX + 1,
    ensures
        forall|t: int| 0 <= t < preds(r, b, n).len() ==> #[trigger] preds(r, b, n)[t] < n,
    decreases n,
{
    if n > 0 {
        lemma_preds_bound(r, b, (n - 1) as nat);
        let rest = preds(r, b, (n - 1) as nat);
        if succs(r, (n - 1) as usize).contains(b) {
            assert forall|t: int| 0 <= t < preds(r, b, n).len() implies #[trigger] preds(r, b, n)[t]
                < n by {
                if t > 0 {
                    assert(preds(r, b, n)[t] == rest[t - 1]);
                }
            }
        }
    }
}

impl Region {
    /// Appends the name of block `b`.
    fn push_block_name(&self, out: &mut Vec<char>, b: usize)
        requires
            b < self@.names.len(),
        ensures
            final(out)@ == old(out)@ + self@.names[b as int],
    {
        let name = &self.blocks[b].name;
        let mut i: usize = 0;
        let ghost start = out@;
        while i < name.len()
            invariant
                i <= name@.len(),
                out@ == start + name@.take(i as int),
            decreases name@.len() - i,
        {
            out.push(name[i]);
            i = i + 1;
            assert(out@ =~= start + name@.take(i as int));
        }
        assert(name@.take(name@.len() as int) =~= name@);
    }

    /// Appends the text of a value.
    fn push_val(&self, out: &mut Vec<char>, ids: &Vec<Option<usize>>, v: Val)
        requires
            ids@.len() == self@.insts.len(),
            crate::arm64::ir::val_wf(v, self@.names.len(), self@.insts.len()),
        ensures
            final(out)@ == old(out)@ + val_text(self@, ids@, v),
    {
        match v {
            Val::Inst(k) => match ids[k] {
                Some(i) => {
                    push_str(out, "v");
                    push_decimal(out, i as u64);
                },
                None => {
                    push_str(out, "<unknown:");
                    push_op_name(out, self.insts[k].op);
                    push_str(out, ">");
                },
            },
            Val::Const(c) => {
                push_str(out, "0x");
                push_hex(out, c);
            },
            Val::Label(b) => {
                self.push_block_name(out, b);
            },
            Val::Reg(i) => {
                push_str(out, "\"");
                push_reg_name(out, i);
                push_str(out, "\"");
            },
        }
        assert(final(out)@ =~= old(out)@ + val_text(self@, ids@, v));
    }

    /// Appends the line of instruction `k`.
    fn push_inst(&self, out: &mut Vec<char>, ids: &Vec<Option<usize>>, k: usize)
        requires
            self@.wf(),
            ids@.len() == self@.insts.len(),
            k < self@.insts.len(),
        ensures
            final(out)@ == old(out)@ + inst_text(self@, ids@, k),
    {
        let inst = &self.insts[k];
        let ghost start = out@;
        push_str(out, "  ");
        if inst.op.has_result() {
            self.push_val(out, ids, Val::Inst(k));
            push_str(out, " = ");
        }
        if inst.op.is_typed() {
            push_ty_name(out, inst.ty);
            push_str(out, ".");
        }
        push_op_name(out, inst.op);
        let ghost mid = out@;
        let n = inst.args.len();
        let mut j: usize = 0;
        while j < n
            invariant
                self@.wf(),
                ids@.len() == self@.insts.len(),
                k < self@.insts.len(),
                inst@ == self@.insts[k as int],
                n == inst.args@.len(),
                j <= n,
                out@ == mid + args_text(self@, ids@, inst.args@.take(j as int)),
            decreases n - j,
        {
            proof {
                assert(inst.args@.take(j + 1).drop_last() =~= inst.args@.take(j as int));
                assert(self@.insts[k as int].block < self@.names.len());
                assert(self@.insts[k as int].args == inst.args@);
                assert(crate::arm64::ir::val_wf(
                    self@.insts[k as int].args[j as int],
                    self@.names.len(),
                    k as nat,
                ));
            }
            if j == 0 {
                push_str(out, " ");
            } else {
                push_str(out, ", ");
            }
            self.push_val(out, ids, inst.args[j]);
            j = j + 1;
            assert(out@ =~= mid + args_text(self@, ids@, inst.args@.take(j as int)));
        }
        assert(inst.args@.take(n as int) =~= inst.args@);
        push_str(out, "\n");
        assert(final(out)@ =~= old(out)@ + inst_text(self@, ids@, k));
    }

    /// The blocks that jump to block `b`, the latest created first.
    fn preds(&self, all: &Vec<Vec<usize>>, b: usize) -> (r: Vec<usize>)
        requires
            all@.len() == self@.names.len(),
            forall|p: int| 0 <= p < all@.len() ==> (#[trigger] all@[p])@ == succs(self@, p as usize),
        ensures
            r@ == preds(self@, b, self@.names.len()),
    {
        let n = all.len();
        let mut out: Vec<usize> = Vec::new();
        let mut p: usize = 0;
        while p < n
            invariant
                n == all@.len(),
                n == self@.names.len(),
                forall|q: int| 0 <= q < all@.len() ==> (#[trigger] all@[q])@ == succs(self@, q as usize),
                p <= n,
                out@ == preds(self@, b, p as nat),
            decreases n - p,
        {
            if contains_usize(&all[p], b) {
                out.insert(0, p);
                assert(out@ =~= seq![p] + preds(self@, b, p as nat));
            }
            p = p + 1;
        }
        out
    }

    /// Appends the header line of block `b`.
    fn push_header(&self, out: &mut Vec<char>, all: &Vec<Vec<usize>>, b: usize)
        requires
            self@.wf(),
            b < self@.names.len(),
            all@.len() == self@.names.len(),
            forall|p: int| 0 <= p < all@.len() ==> (#[trigger] all@[p])@ == succs(self@, p as usize),
        ensures
            final(out)@ == old(out)@ + header_text(self@, b),
    {
        let ghost start = out@;
        self.push_block_name(out, b);
        if b == 0 {
            push_str(out, "(");
            push_params(out);
            push_str(out, "): // entry block\n");
        } else if contains_usize(&self.entries, b) {
            push_str(out, ": // entry block\n");
        } else {
            let ps = self.preds(all, b);
            let nb = self.blocks.len();
            proof {
                assert(self@.names.len() == nb);
                lemma_preds_bound(self@, b, self@.names.len());
            }
            if ps.len() == 0 {
                push_str(out, ": // no preds!\n");
            } else {
                push_str(out, ": // preds: ");
                let ghost mid = out@;
                let mut i: usize = 0;
                while i < ps.len()
                    invariant
                        self@.wf(),
                        i <= ps@.len(),
                        ps@ == preds(self@, b, self@.names.len()),
                        forall|t: int| 0 <= t < ps@.len() ==> #[trigger] ps@[t] < self@.names.len(),
                        out@ == mid + names_text(self@, ps@.take(i as int)),
                    decreases ps@.len() - i,
                {
                    assert(ps@.take(i + 1).drop_last() =~= ps@.take(i as int));
                    if i > 0 {
                        push_str(out, ", ");
                    }
                    self.push_block_name(out, ps[i]);
                    i = i + 1;
                    assert(out@ =~= mid + names_text(self@, ps@.take(i as int)));
                }
                assert(ps@.take(ps@.len() as int) =~= ps@);
                push_str(out, "\n");
            }
        }
        assert(final(out)@ =~= old(out)@ + header_text(self@, b));
    }
}


impl Region {
    /// The text of the region: the register list, then every block in creation order.
    pub fn display(&self) -> (r: String)
        requires
            self@.wf(),
            self@.insts.len() + NUM_REGS <= usize::MAX,
        ensures
            r@ == display_text(self@),
    {
        let order = self.dfs_order();
        let ids = self.value_ids(&order);
        let all = self.all_successors();
        let mut out: Vec<char> = Vec::new();
        push_arch(&mut out);
        let ghost start = out@;
        let n = self.blocks.len();
        let mut b: usize = 0;
        while b < n
            invariant
                self@.wf(),
                n == self@.names.len(),
                ids@ == value_ids(self@),
                ids@.len() == self@.insts.len(),
                all@.len() == self@.names.len(),
                forall|p: int| 0 <= p < all@.len() ==> (#[trigger] all@[p])@ == succs(self@, p as usize),
                b <= n,
                self@.insts.len() + NUM_REGS <= usize::MAX,
                out@ == start + blocks_text(self@, ids@, b as nat),
            decreases n - b,
        {
            let ghost before = out@;
            self.push_header(&mut out, &all, b);
            let ks = self.block_insts(b);
            proof {
                lemma_insts_of_bounds(self@.insts, b, self@.insts.len());
            }
            let ghost mid = out@;
            let nk = ks.len();
            let mut j: usize = 0;
            while j < nk
                invariant
                    self@.wf(),
                    ids@.len() == self@.insts.len(),
                    nk == ks@.len(),
                    forall|t: int| 0 <= t < nk ==> #[trigger] ks@[t] < self@.insts.len(),
                    j <= nk,
                    out@ == mid + lines_text(self@, ids@, ks@.take(j as int)),
                decreases nk - j,
            {
                assert(ks@.take(j + 1).drop_last() =~= ks@.take(j as int));
                self.push_inst(&mut out, &ids, ks[j]);
                j = j + 1;
                assert(out@ =~= mid + lines_text(self@, ids@, ks@.take(j as int)));
            }
            assert(ks@.take(nk as int) =~= ks@);
            push_str(&mut out, "\n");
            b = b + 1;
            assert(out@ =~= start + blocks_text(self@, ids@, b as nat));
        }
        assert(out@ =~= display_text(self@));
        string_from_chars(out.as_slice())
    }
}

} // verus!
