//! The intermediate representation that lifted code is written in.
//!
//! A [`Region`] holds basic blocks and instructions.  Instructions live in one pool in the
//! order in which they were created; each records the block it belongs to, so the instructions
//! of a block are the pool entries with that block, in pool order.

use vstd::prelude::*;

verus! {

/// Number of architectural registers known to the region: `x0`..`x30`, `sp`, `pc` and the
/// four condition flags `n`, `z`, `c`, `v`.
pub const NUM_REGS: usize = 37;

/// Register index of the stack pointer.
pub const REG_SP: usize = 31;

/// Register index of the program counter.
pub const REG_PC: usize = 32;

/// Register index of the negative flag.
pub const REG_N: usize = 33;

/// Register index of the zero flag.
pub const REG_Z: usize = 34;

/// Register index of the carry flag.
pub const REG_C: usize = 35;

/// Register index of the overflow flag.
pub const REG_V: usize = 36;

/// Integer type of an IR value.
#[derive(Clone, Copy, PartialEq, Eq, Debug, Structural)]
pub enum Ty {
    I1,
    I8,
    I16,
    I32,
    I64,
    I128,
}

impl Ty {
    /// Width in bits.
    pub open spec fn bits(self) -> nat {
        match self {
            Ty::I1 => 1,
            Ty::I8 => 8,
            Ty::I16 => 16,
            Ty::I32 => 32,
            Ty::I64 => 64,
            Ty::I128 => 128,
        }
    }
}

/// Kind of an integer comparison.
#[derive(Clone, Copy, PartialEq, Eq, Debug, Structural)]
pub enum CmpTy {
    Eq,
    Ne,
    Slt,
    Sle,
    Sgt,
    Sge,
    Ult,
    Ule,
    Ugt,
    Uge,
}

/// Operation of an IR instruction.
#[derive(Clone, Copy, PartialEq, Eq, Debug, Structural)]
pub enum IrOp {
    Add,
    Sub,
    And,
    Or,
    Xor,
    Not,
    /// Bitwise complement, as the bit-clear instruction spells it.
    BitwiseNot,
    Lshl,
    Lshr,
    Ashr,
    Ror,
    Imul,
    Umul,
    Idiv,
    Udiv,
    Icmp(CmpTy),
    ReadReg,
    WriteReg,
    Load,
    Store,
    Opaque,
    /// Truncation from the given type to the instruction's type.
    Trunc(Ty),
    /// Sign extension from the given type to the instruction's type.
    Sext(Ty),
    /// Zero extension from the given type to the instruction's type.
    Zext(Ty),
    HighestSetBit,
    ReverseBits,
    ReverseBytes,
    Jump,
    JumpIf,
    DynamicJump,
    Trap,
    TrapIf,
}

impl IrOp {
    /// Whether the instruction defines a value.
    pub open spec fn spec_has_result(self) -> bool {
        !(self is WriteReg || self is Store || self is Jump || self is JumpIf || self is DynamicJump
            || self is Trap || self is TrapIf)
    }

    /// Whether the instruction is printed with its type as a prefix.
    pub open spec fn spec_is_typed(self) -> bool {
        !(self is Jump || self is JumpIf || self is DynamicJump || self is Trap || self is TrapIf)
    }

    /// Whether the instruction ends a block by transferring control.
    pub open spec fn spec_is_jump(self) -> bool {
        self is Jump || self is JumpIf || self is DynamicJump
    }

    pub fn has_result(&self) -> (r: bool)
        ensures
            r == self.spec_has_result(),
    {
        match self {
            IrOp::WriteReg | IrOp::Store | IrOp::Jump | IrOp::JumpIf | IrOp::DynamicJump
            | IrOp::Trap | IrOp::TrapIf => false,
            _ => true,
        }
    }

    pub fn is_typed(&self) -> (r: bool)
        ensures
            r == self.spec_is_typed(),
    {
        match self {
            IrOp::Jump | IrOp::JumpIf | IrOp::DynamicJump | IrOp::Trap | IrOp::TrapIf => false,
            _ => true,
        }
    }

    pub fn is_jump(&self) -> (r: bool)
        ensures
            r == self.spec_is_jump(),
    {
        match self {
            IrOp::Jump | IrOp::JumpIf | IrOp::DynamicJump => true,
            _ => false,
        }
    }
}

/// An operand of an IR instruction.
#[derive(Clone, Copy, PartialEq, Eq, Debug, Structural)]
pub enum Val {
    /// The value defined by the instruction with this pool index.
    Inst(usize),
    /// A 64-bit constant; narrower constants are stored sign extended.
    Const(u64),
    /// The block with this index.
    Label(usize),
    /// The register with this index.
    Reg(usize),
}

/// An instruction as stored in a region.
pub struct InstData {
    pub op: IrOp,
    pub ty: Ty,
    pub args: Vec<Val>,
    /// Index of the block the instruction belongs to.
    pub block: usize,
}

/// Mathematical view of an instruction.
pub struct InstV {
    pub op: IrOp,
    pub ty: Ty,
    pub args: Seq<Val>,
    pub block: usize,
}

impl View for InstData {
    type V = InstV;

    open spec fn view(&self) -> InstV {
        InstV { op: self.op, ty: self.ty, args: self.args@, block: self.block }
    }
}

/// A basic block: only its name is stored, its instructions are found through the pool.
pub struct BlockData {
    pub name: Vec<char>,
}

/// A code region: blocks and the instruction pool.  Block 0 is the entry block; other
/// blocks at which execution may enter the region are listed in `entries`.
pub struct Region {
    pub blocks: Vec<BlockData>,
    pub insts: Vec<InstData>,
    pub entries: Vec<usize>,
}

/// Mathematical view of a region.
pub struct RegionV {
    pub names: Seq<Seq<char>>,
    pub insts: Seq<InstV>,
    pub entries: Seq<usize>,
}

impl View for Region {
    type V = RegionV;

    open spec fn view(&self) -> RegionV {
        RegionV {
            names: self.blocks@.map_values(|b: BlockData| b.name@),
            insts: self.insts@.map_values(|i: InstData| i@),
            entries: self.entries@,
        }
    }
}

/// An operand is meaningful in a region with `n_blocks` blocks whose pool has `n_insts`
/// entries.
pub open spec fn val_wf(v: Val, n_blocks: nat, n_insts: nat) -> bool {
    match v {
        Val::Inst(i) => i < n_insts,
        Val::Const(_) => true,
        Val::Label(b) => b < n_blocks,
        Val::Reg(r) => r < NUM_REGS,
    }
}

impl RegionV {
    /// Every instruction belongs to an existing block and only refers to earlier instructions,
    /// existing blocks and known registers.
    pub open spec fn wf(self) -> bool {
        &&& self.names.len() >= 1
        &&& forall|k: int| 0 <= k < self.entries.len() ==> #[trigger] self.entries[k] < self.names.len()
        &&& forall|k: int|
            0 <= k < self.insts.len() ==> {
                &&& #[trigger] self.insts[k].block < self.names.len()
                &&& forall|j: int|
                    0 <= j < self.insts[k].args.len() ==> val_wf(
                        #[trigger] self.insts[k].args[j],
                        self.names.len(),
                        k as nat,
                    )
            }
    }

    /// The region after appending an instruction to block `cur`.
    pub open spec fn emit(self, cur: usize, op: IrOp, ty: Ty, args: Seq<Val>) -> RegionV {
        RegionV {
            names: self.names,
            insts: self.insts.push(InstV { op, ty, args, block: cur }),
            entries: self.entries,
        }
    }

    /// The region after adding a block with the given name.
    pub open spec fn add_block(self, name: Seq<char>) -> RegionV {
        RegionV { names: self.names.push(name), insts: self.insts, entries: self.entries }
    }

    /// The region after marking block `b` as a further entry.
    pub open spec fn mark_entry(self, b: usize) -> RegionV {
        RegionV { names: self.names, insts: self.insts, entries: self.entries.push(b) }
    }
}

/// Number of blocks in `names` called `name`.
pub open spec fn name_count(names: Seq<Seq<char>>, name: Seq<char>) -> nat
    decreases names.len(),
{
    if names.len() == 0 {
        0
    } else {
        name_count(names.drop_last(), name) + if names.last() == name {
            1nat
        } else {
            0nat
        }
    }
}

/// The name a new block called `name` receives: the name itself if it is not taken yet,
/// otherwise the name followed by the number of blocks that already carry it.
pub open spec fn fresh_name(names: Seq<Seq<char>>, name: Seq<char>) -> Seq<char> {
    let c = name_count(names, name);
    if c == 0 {
        name
    } else {
        name + decimal(c)
    }
}

/// Appends instructions and blocks to a region, inserting at the end of the current block.
pub struct Builder {
    pub region: Region,
    /// The block new instructions are appended to.
    pub cur: usize,
}

impl Builder {
    pub open spec fn wf(&self) -> bool {
        self.region@.wf() && self.cur < self.region@.names.len()
    }

    /// A region holding only the empty entry block, which is the current block.
    pub fn new() -> (b: Builder)
        ensures
            b.wf(),
            b.cur == 0,
            b.region@.names == seq!["entry"@],
            b.region@.insts == Seq::<InstV>::empty(),
            b.region@.entries == Seq::<usize>::empty(),
    {
        let mut blocks: Vec<BlockData> = Vec::new();
        blocks.push(BlockData { name: chars_of("entry") });
        let b = Builder {
            region: Region { blocks, insts: Vec::new(), entries: Vec::new() },
            cur: 0,
        };
        assert(b.region@.names =~= seq!["entry"@]);
        assert(b.region@.insts =~= Seq::<InstV>::empty());
        assert(b.region@.entries =~= Seq::<usize>::empty());
        b
    }

    /// Appends an instruction to the current block and returns the value it defines.
    pub fn emit(&mut self, op: IrOp, ty: Ty, args: Vec<Val>) -> (v: Val)
        requires
            old(self).wf(),
            forall|j: int|
                0 <= j < args@.len() ==> val_wf(
                    #[trigger] args@[j],
                    old(self).region@.names.len(),
                    old(self).region@.insts.len(),
                ),
        ensures
            final(self).wf(),
            final(self).cur == old(self).cur,
            final(self).region@ == old(self).region@.emit(old(self).cur, op, ty, args@),
            v == Val::Inst(old(self).region@.insts.len() as usize),
    {
        let ghost old_r = self.region@;
        let idx = self.region.insts.len();
        let cur = self.cur;
        let ghost a = args@;
        self.region.insts.push(InstData { op, ty, args, block: cur });
        assert(self.region@.insts =~= old_r.insts.push(InstV { op, ty, args: a, block: cur }));
        assert(self.region@.names =~= old_r.names);
        assert(self.region@.entries =~= old_r.entries);
        assert(self.region@ == old_r.emit(cur, op, ty, a));
        Val::Inst(idx)
    }

    /// Adds a block without switching to it and returns its index.  A name that is taken
    /// already gets the number of its earlier uses appended.
    pub fn create_block(&mut self, name: Vec<char>) -> (b: usize)
        requires
            old(self).wf(),
        ensures
            final(self).wf(),
            final(self).cur == old(self).cur,
            final(self).region@ == old(self).region@.add_block(
                fresh_name(old(self).region@.names, name@),
            ),
            b == old(self).region@.names.len(),
    {
        let ghost names = self.region@.names;
        let mut count: u64 = 0;
        let mut i: usize = 0;
        let n = self.region.blocks.len();
        while i < n
            invariant
                n == self.region.blocks@.len(),
                names == self.region@.names,
                i <= n,
                count == name_count(names.take(i as int), name@),
                count <= i,
            decreases n - i,
        {
            assert(names.take(i + 1).drop_last() =~= names.take(i as int));
            if chars_eq(self.region.blocks[i].name.as_slice(), name.as_slice()) {
                count = count + 1;
            }
            i = i + 1;
        }
        assert(names.take(n as int) =~= names);
        let mut full = name;
        if count > 0 {
            push_decimal(&mut full, count);
        }
        let ghost fname = full@;
        assert(fname == fresh_name(names, name@));
        let ghost old_r = self.region@;
        self.region.blocks.push(BlockData { name: full });
        assert(self.region@.names =~= old_r.names.push(fname));
        assert(self.region@.insts =~= old_r.insts);
        assert(self.region@.entries =~= old_r.entries);
        assert forall|k: int| 0 <= k < self.region@.insts.len() implies {
            &&& #[trigger] self.region@.insts[k].block < self.region@.names.len()
            &&& forall|j: int|
                0 <= j < self.region@.insts[k].args.len() ==> val_wf(
                    #[trigger] self.region@.insts[k].args[j],
                    self.region@.names.len(),
                    k as nat,
                )
        } by {
            assert forall|j: int| 0 <= j < self.region@.insts[k].args.len() implies val_wf(
                #[trigger] self.region@.insts[k].args[j],
                self.region@.names.len(),
                k as nat,
            ) by {
                assert(old_r.insts[k].block < old_r.names.len());
                assert(val_wf(old_r.insts[k].args[j], old_r.names.len(), k as nat));
            }
        }
        n
    }

    /// Marks block `b` as a further entry of the region.
    pub fn mark_entry_block(&mut self, b: usize)
        requires
            old(self).wf(),
            b < old(self).region@.names.len(),
        ensures
            final(self).wf(),
            final(self).cur == old(self).cur,
            final(self).region@ == old(self).region@.mark_entry(b),
    {
        let ghost old_r = self.region@;
        self.region.entries.push(b);
        assert(self.region@.entries =~= old_r.entries.push(b));
        assert(self.region@.names =~= old_r.names);
        assert(self.region@.insts =~= old_r.insts);
    }

    /// Makes `b` the block new instructions are appended to.
    pub fn set_insert_block(&mut self, b: usize)
        requires
            old(self).wf(),
            b < old(self).region@.names.len(),
        ensures
            final(self).wf(),
            final(self).cur == b,
            final(self).region@ == old(self).region@,
    {
        self.cur = b;
    }
}

/// Decimal digit character.
pub open spec fn digit_char(d: nat) -> char {
    if d == 0 {
        '0'
    } else if d == 1 {
        '1'
    } else if d == 2 {
        '2'
    } else if d == 3 {
        '3'
    } else if d == 4 {
        '4'
    } else if d == 5 {
        '5'
    } else if d == 6 {
        '6'
    } else if d == 7 {
        '7'
    } else if d == 8 {
        '8'
    } else {
        '9'
    }
}

/// Decimal notation of a natural number, without leading zeros.
pub open spec fn decimal(n: nat) -> Seq<char>
    decreases n,
{
    if n < 10 {
        seq![digit_char(n)]
    } else {
        decimal(n / 10).push(digit_char(n % 10))
    }
}

pub fn digit_exec(d: u64) -> (c: char)
    requires
        d < 10,
    ensures
        c == digit_char(d as nat),
{
    if d == 0 {
        '0'
    } else if d == 1 {
        '1'
    } else if d == 2 {
        '2'
    } else if d == 3 {
        '3'
    } else if d == 4 {
        '4'
    } else if d == 5 {
        '5'
    } else if d == 6 {
        '6'
    } else if d == 7 {
        '7'
    } else if d == 8 {
        '8'
    } else {
        '9'
    }
}

/// Appends the decimal notation of `n`.
pub fn push_decimal(out: &mut Vec<char>, n: u64)
    ensures
        final(out)@ == old(out)@ + decimal(n as nat),
    decreases n,
{
    if n >= 10 {
        push_decimal(out, n / 10);
    }
    out.push(digit_exec(n % 10));
    assert(final(out)@ =~= old(out)@ + decimal(n as nat));
}

/// Appends the characters of a string slice.
pub fn push_str(out: &mut Vec<char>, s: &str)
    ensures
        final(out)@ == old(out)@ + s@,
{
    let n = s.unicode_len();
    let mut i: usize = 0;
    while i < n
        invariant
            n == s@.len(),
            i <= n,
            out@ == old(out)@ + s@.subrange(0, i as int),
        decreases n - i,
    {
        let c = s.get_char(i);
        out.push(c);
        i = i + 1;
        assert(out@ =~= old(out)@ + s@.subrange(0, i as int));
    }
    assert(s@.subrange(0, n as int) =~= s@);
}

/// The characters of a string slice.
pub fn chars_of(s: &str) -> (r: Vec<char>)
    ensures
        r@ == s@,
{
    let mut r: Vec<char> = Vec::new();
    push_str(&mut r, s);
    assert(r@ =~= s@);
    r
}

/// Whether two character sequences are equal.
pub fn chars_eq(a: &[char], b: &[char]) -> (r: bool)
    ensures
        r == (a@ == b@),
{
    if a.len() != b.len() {
        return false;
    }
    let mut i: usize = 0;
    while i < a.len()
        invariant
            a@.len() == b@.len(),
            i <= a@.len(),
            forall|j: int| 0 <= j < i ==> a@[j] == b@[j],
        decreases a.len() - i,
    {
        if a[i] != b[i] {
            return false;
        }
        i = i + 1;
    }
    assert(a@ =~= b@);
    true
}

/// The string made of the given characters.
#[verifier::external_body]
pub(crate) fn string_from_chars(chars: &[char]) -> (s: String)
    ensures
        s@ == chars@,
{
    chars.iter().collect()
}

} // verus!
