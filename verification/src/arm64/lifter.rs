//! Lifting of decoded AArch64 instructions into the intermediate representation.
//!
//! The state of a lifting run is a [`Builder`] and the [`LabelResolver`] that knows the block
//! of every block start.  What each step appends is stated over [`LState`], the builder's
//! region and current block: `s.emit(op, ty, args)` is the state after appending one
//! instruction, whose value is `s.val()`.

use crate::arm64::decode::{
    decode_all, decode_word, decoded_text, n_words, word_at, word_vec, words_ok, DecodeError,
    Instruction,
};
use crate::arm64::ir::{push_str, string_from_chars};
use crate::arm64::printer::{hex, push_hex};
use crate::Lifter;
use target_lexicon::{Aarch64Architecture, Architecture};
use crate::arm64::ir::{fresh_name, val_wf, Builder, InstV, IrOp, Region, RegionV, Ty, Val};
use crate::arm64::label_resolver::{
    all_offsets_ok, ascending, checkpoint_set, decoded_list, lemma_ascending_members,
    names_after, rejected_with, LabelResolver,
};
use crate::arm64::lifter::insts::{inst_ok, lift_spec};
use vstd::prelude::*;

pub mod arith;
pub mod bitfield;
pub mod branch;
pub mod common;
pub mod conditions;
pub mod flags;
pub mod insts;
pub mod memory;
pub mod operands;
pub mod regs;
pub mod select;

verus! {

/// Size of an instruction word in bytes.
pub const INSTRUCTION_SIZE: u64 = 4;

#[verifier::external_type_specification]
#[verifier::external_body]
pub struct ExProofReadError(tnj_pcc::read::Error);

/// Why lifting failed.
#[derive(Debug)]
pub enum AArch64LifterError {
    /// The decoder rejected an instruction word.
    DecodeError(DecodeError),
    /// An instruction the lifter cannot translate, with a description.
    CustomError(String),
    /// The proof annotations could not be decoded.
    Pcc(tnj_pcc::read::Error),
}

/// Whether `tnj_pcc` decodes `bytes` as proof annotations.
pub uninterp spec fn proof_accepted(bytes: Seq<u8>) -> bool;

/// Decodes proof annotations with `tnj_pcc::read::read`, reading from a cursor over `proofs`;
/// the decoded proof is dropped.  The contract claims only that success is a function of the
/// bytes, named `proof_accepted`; the error is passed on and not described.
#[verifier::external_body]
fn read_proofs(proofs: &[u8]) -> (r: Result<(), tnj_pcc::read::Error>)
    ensures
        r is Ok <==> proof_accepted(proofs@),
{
    match tnj_pcc::read::read(&mut std::io::Cursor::new(proofs)) {
        Ok(_) => Ok(()),
        Err(e) => Err(e),
    }
}

/// Checks the proof annotations that accompany the code: none at all, or an encoding that
/// decodes.
pub fn parse_proofs(proofs: &[u8]) -> (r: Result<(), tnj_pcc::read::Error>)
    ensures
        r is Ok <==> (proofs@.len() == 0 || proof_accepted(proofs@)),
{
    if proofs.len() == 0 {
        Ok(())
    } else {
        read_proofs(proofs)
    }
}

/// Why disassembling failed.
#[derive(Debug)]
pub enum AArch64DisassemblerError {
    /// The decoder rejected an instruction word.
    DecodeError(DecodeError),
}

/// A condition flag.
#[derive(Clone, Copy, PartialEq, Eq, Debug, Structural)]
pub enum Flag {
    N,
    Z,
    C,
    V,
}

/// Whether register 31 of an operand is the stack pointer or the zero register.
#[derive(Clone, Copy, PartialEq, Eq, Debug, Structural)]
pub enum SpOrZrReg {
    Sp,
    Zr,
}

/// The region under construction and the block instructions are appended to.
pub struct LState {
    pub r: RegionV,
    pub cur: usize,
}

impl LState {
    pub open spec fn wf(self) -> bool {
        self.r.wf() && self.cur < self.r.names.len()
    }

    /// The value of the next instruction appended.
    pub open spec fn val(self) -> Val {
        Val::Inst(self.r.insts.len() as usize)
    }

    /// The state after appending an instruction to the current block.
    pub open spec fn emit(self, op: IrOp, ty: Ty, args: Seq<Val>) -> LState {
        LState { r: self.r.emit(self.cur, op, ty, args), cur: self.cur }
    }

    /// The index the next block created receives.
    pub open spec fn next_block(self) -> usize {
        self.r.names.len() as usize
    }

    /// The state after creating a block called `name`.
    pub open spec fn block(self, name: Seq<char>) -> LState {
        LState { r: self.r.add_block(fresh_name(self.r.names, name)), cur: self.cur }
    }

    /// The state after switching to block `b`.
    pub open spec fn switch(self, b: usize) -> LState {
        LState { r: self.r, cur: b }
    }

    /// The state after marking block `b` as a further entry.
    pub open spec fn mark(self, b: usize) -> LState {
        LState { r: self.r.mark_entry(b), cur: self.cur }
    }

    /// `v` can be used as an operand in this state.
    pub open spec fn ok(self, v: Val) -> bool {
        val_wf(v, self.r.names.len(), self.r.insts.len())
    }

    /// `t` extends this state: nothing was removed.
    pub open spec fn le(self, t: LState) -> bool {
        self.r.names.len() <= t.r.names.len() && self.r.insts.len() <= t.r.insts.len()
    }
}

/// The state of a lifting run.
pub struct LifterState {
    pub builder: Builder,
    pub label_resolver: LabelResolver,
}

impl LifterState {
    /// The region and current block.
    pub open spec fn st(&self) -> LState {
        LState { r: self.builder.region@, cur: self.builder.cur }
    }

    /// The blocks recorded for block starts.
    pub open spec fn blocks(&self) -> Map<u64, usize> {
        self.label_resolver.blocks()
    }

    /// The builder is well formed and every recorded block exists.
    pub open spec fn wf(&self) -> bool {
        &&& self.builder.wf()
        &&& forall|a: u64| #[trigger]
            self.blocks().contains_key(a) ==> self.blocks()[a] < self.builder.region@.names.len()
    }

    /// Appends an instruction to the current block; returns its value.
    pub fn emit(&mut self, op: IrOp, ty: Ty, args: Vec<Val>) -> (v: Val)
        requires
            old(self).wf(),
            forall|j: int| 0 <= j < args@.len() ==> old(self).st().ok(#[trigger] args@[j]),
        ensures
            final(self).wf(),
            final(self).st() == old(self).st().emit(op, ty, args@),
            v == old(self).st().val(),
            final(self).label_resolver == old(self).label_resolver,
    {
        let ghost before = *self;
        let v = self.builder.emit(op, ty, args);
        proof {
            lemma_wf_grows(&before, &*self);
        }
        v
    }

    /// Appends an instruction with no operands.
    pub fn emit0(&mut self, op: IrOp, ty: Ty) -> (v: Val)
        requires
            old(self).wf(),
        ensures
            final(self).wf(),
            final(self).st() == old(self).st().emit(op, ty, seq![]),
            v == old(self).st().val(),
            final(self).label_resolver == old(self).label_resolver,
    {
        let args: Vec<Val> = Vec::new();
        assert(args@ =~= seq![]);
        self.emit(op, ty, args)
    }

    /// Appends an instruction with one operand.
    pub fn emit1(&mut self, op: IrOp, ty: Ty, a: Val) -> (v: Val)
        requires
            old(self).wf(),
            old(self).st().ok(a),
        ensures
            final(self).wf(),
            final(self).st() == old(self).st().emit(op, ty, seq![a]),
            v == old(self).st().val(),
            final(self).label_resolver == old(self).label_resolver,
    {
        let mut args: Vec<Val> = Vec::new();
        args.push(a);
        assert(args@ =~= seq![a]);
        self.emit(op, ty, args)
    }

    /// Appends an instruction with two operands.
    pub fn emit2(&mut self, op: IrOp, ty: Ty, a: Val, b: Val) -> (v: Val)
        requires
            old(self).wf(),
            old(self).st().ok(a),
            old(self).st().ok(b),
        ensures
            final(self).wf(),
            final(self).st() == old(self).st().emit(op, ty, seq![a, b]),
            v == old(self).st().val(),
            final(self).label_resolver == old(self).label_resolver,
    {
        let mut args: Vec<Val> = Vec::new();
        args.push(a);
        args.push(b);
        assert(args@ =~= seq![a, b]);
        self.emit(op, ty, args)
    }

    /// Appends an instruction with three operands.
    pub fn emit3(&mut self, op: IrOp, ty: Ty, a: Val, b: Val, c: Val) -> (v: Val)
        requires
            old(self).wf(),
            old(self).st().ok(a),
            old(self).st().ok(b),
            old(self).st().ok(c),
        ensures
            final(self).wf(),
            final(self).st() == old(self).st().emit(op, ty, seq![a, b, c]),
            v == old(self).st().val(),
            final(self).label_resolver == old(self).label_resolver,
    {
        let mut args: Vec<Val> = Vec::new();
        args.push(a);
        args.push(b);
        args.push(c);
        assert(args@ =~= seq![a, b, c]);
        self.emit(op, ty, args)
    }

    /// Creates a block called `name` without switching to it; returns its index.
    pub fn create_block(&mut self, name: &str) -> (b: usize)
        requires
            old(self).wf(),
        ensures
            final(self).wf(),
            final(self).st() == old(self).st().block(name@),
            b == old(self).st().next_block(),
            final(self).label_resolver == old(self).label_resolver,
    {
        let chars = crate::arm64::ir::chars_of(name);
        let ghost before = *self;
        let b = self.builder.create_block(chars);
        proof {
            lemma_wf_grows(&before, &*self);
        }
        b
    }

    /// Makes `b` the block instructions are appended to.
    pub fn set_insert_block(&mut self, b: usize)
        requires
            old(self).wf(),
            b < old(self).st().r.names.len(),
        ensures
            final(self).wf(),
            final(self).st() == old(self).st().switch(b),
            final(self).label_resolver == old(self).label_resolver,
    {
        let ghost before = *self;
        self.builder.set_insert_block(b);
        proof {
            lemma_wf_grows(&before, &*self);
        }
    }

    /// Appends a jump to block `b`.
    pub fn jump(&mut self, b: usize)
        requires
            old(self).wf(),
            b < old(self).st().r.names.len(),
        ensures
            final(self).wf(),
            final(self).st() == old(self).st().emit(IrOp::Jump, Ty::I64, seq![Val::Label(b)]),
            final(self).label_resolver == old(self).label_resolver,
    {
        self.emit1(IrOp::Jump, Ty::I64, Val::Label(b));
    }

    /// Appends a conditional jump to `then_b` when `cond` holds and to `else_b` otherwise.
    pub fn jumpif(&mut self, cond: Val, then_b: usize, else_b: usize)
        requires
            old(self).wf(),
            old(self).st().ok(cond),
            then_b < old(self).st().r.names.len(),
            else_b < old(self).st().r.names.len(),
        ensures
            final(self).wf(),
            final(self).st() == old(self).st().emit(
                IrOp::JumpIf,
                Ty::I64,
                seq![cond, Val::Label(then_b), Val::Label(else_b)],
            ),
            final(self).label_resolver == old(self).label_resolver,
    {
        self.emit3(IrOp::JumpIf, Ty::I64, cond, Val::Label(then_b), Val::Label(else_b));
    }

    /// The block recorded for `addr`, if any.
    pub fn get_block(&self, addr: u64) -> (r: Option<usize>)
        requires
            self.wf(),
        ensures
            r == (if self.blocks().contains_key(addr) {
                Some(self.blocks()[addr])
            } else {
                None
            }),
            r matches Some(b) ==> b < self.st().r.names.len(),
    {
        let r = self.label_resolver.get_block(addr);
        if r.is_some() {
            assert(self.blocks().contains_key(addr));
        }
        r
    }

    /// Marks the block that starts after the instruction at `pc` as a further entry, if
    /// there is one.
    pub fn mark_next_block_as_entry(&mut self, pc: u64)
        requires
            old(self).wf(),
            pc + INSTRUCTION_SIZE <= u64::MAX,
        ensures
            final(self).wf(),
            final(self).st() == mark_next_spec(old(self).st(), old(self).blocks(), pc),
            final(self).label_resolver == old(self).label_resolver,
    {
        let next_pc = pc + INSTRUCTION_SIZE;
        if let Some(block) = self.get_block(next_pc) {
            let ghost before = *self;
            self.builder.mark_entry_block(block);
            proof {
                lemma_wf_grows(&before, &*self);
            }
        }
    }
}

/// A lifting state stays well formed when its builder stays well formed, no block goes away
/// and the recorded blocks stay the same.
proof fn lemma_wf_grows(before: &LifterState, after: &LifterState)
    requires
        before.wf(),
        after.builder.wf(),
        after.label_resolver == before.label_resolver,
        before.builder.region@.names.len() <= after.builder.region@.names.len(),
    ensures
        after.wf(),
{
    assert forall|a: u64| #[trigger] after.blocks().contains_key(a) implies after.blocks()[a]
        < after.builder.region@.names.len() by {
        assert(before.blocks().contains_key(a));
    }
}

/// The state after marking the block that starts after `pc` as an entry, if there is one.
pub open spec fn mark_next_spec(s: LState, blocks: Map<u64, usize>, pc: u64) -> LState {
    let next = (pc + 4) as u64;
    if blocks.contains_key(next) {
        s.mark(blocks[next])
    } else {
        s
    }
}


/// The blocks created for the block starts of `insts`: the `i`-th smallest start gets block
/// `i + 1`, after the entry block.
pub open spec fn block_map(insts: Seq<Instruction>) -> Map<u64, usize> {
    let addrs = ascending(checkpoint_set(insts));
    Map::new(
        |a: u64| checkpoint_set(insts).contains(a),
        |a: u64| (1 + choose|i: int| 0 <= i < addrs.len() && addrs[i] == a) as usize,
    )
}

/// The region before any instruction is lifted: the entry block, then one block per block
/// start of `insts` in ascending order of address, named after it.
pub open spec fn initial_state(insts: Seq<Instruction>) -> LState {
    LState {
        r: RegionV {
            names: names_after(seq!["entry"@], ascending(checkpoint_set(insts))),
            insts: Seq::<InstV>::empty(),
            entries: Seq::<usize>::empty(),
        },
        cur: 0,
    }
}

/// Lifting the instruction at `pc` when the instructions before it left `s`: where a block
/// starts at `pc`, a jump to it ends the current block and lifting continues in it.
pub open spec fn lift_step(s: LState, inst: Instruction, pc: u64, blocks: Map<u64, usize>) -> Option<
    LState,
> {
    let s1 = if blocks.contains_key(pc) {
        s.emit(IrOp::Jump, Ty::I64, seq![Val::Label(blocks[pc])]).switch(blocks[pc])
    } else {
        s
    };
    if inst_ok(inst, pc, blocks) {
        Some(lift_spec(s1, inst, pc, blocks))
    } else {
        None
    }
}

/// Lifting `insts`, the first at address 0, from state `s`: `None` when an instruction cannot
/// be lifted.
pub open spec fn lift_all_spec(s: LState, insts: Seq<Instruction>, blocks: Map<u64, usize>) -> Option<
    LState,
>
    decreases insts.len(),
{
    if insts.len() == 0 {
        Some(s)
    } else {
        match lift_all_spec(s, insts.drop_last(), blocks) {
            Some(s1) => lift_step(s1, insts.last(), (4 * (insts.len() - 1)) as u64, blocks),
            None => None,
        }
    }
}

/// The region `insts` are lifted to, the first at address 0: `None` when a direct branch has
/// no pc-relative destination or an instruction cannot be lifted.
pub open spec fn lifted(insts: Seq<Instruction>) -> Option<RegionV> {
    if !all_offsets_ok(insts) {
        None
    } else {
        match lift_all_spec(initial_state(insts), insts, block_map(insts)) {
            Some(s) => Some(s.r),
            None => None,
        }
    }
}

impl LifterState {
    /// A state for lifting `insts`: an empty region and the block starts of `insts`, whose
    /// blocks are not created yet.  Fails where a direct branch has no pc-relative
    /// destination.
    pub fn new(insts: &Vec<Instruction>) -> (r: Result<LifterState, AArch64LifterError>)
        requires
            4 * insts@.len() <= u64::MAX,
        ensures
            r is Ok <==> all_offsets_ok(insts@),
            r matches Ok(st) ==> {
                &&& st.builder.wf()
                &&& st.st() == (LState {
                    r: RegionV {
                        names: seq!["entry"@],
                        insts: Seq::<InstV>::empty(),
                        entries: Seq::<usize>::empty(),
                    },
                    cur: 0,
                })
                &&& st.label_resolver.pending() == checkpoint_set(insts@)
                &&& st.blocks() == Map::<u64, usize>::empty()
            },
            r matches Err(e) ==> e is CustomError,
    {
        let builder = Builder::new();
        let label_resolver = LabelResolver::from_instructions(insts)?;
        Ok(LifterState { builder, label_resolver })
    }

    /// Creates the blocks for the block starts, then lifts `insts` in order, the first at
    /// address 0, and returns the region.
    pub fn lift(self, insts: &Vec<Instruction>) -> (r: Result<Region, AArch64LifterError>)
        requires
            4 * insts@.len() <= u64::MAX,
            all_offsets_ok(insts@),
            self.builder.wf(),
            self.st() == initial_state(Seq::<Instruction>::empty()),
            self.label_resolver.pending() == checkpoint_set(insts@),
            self.blocks() == Map::<u64, usize>::empty(),
        ensures
            r is Ok <==> lifted(insts@) is Some,
            r matches Ok(region) ==> lifted(insts@) == Some(region@) && region@.wf(),
            r matches Err(e) ==> e is CustomError,
    {
        let mut state = self;
        let ghost cps = checkpoint_set(insts@);
        let ghost addrs = ascending(cps);
        proof {
            state.label_resolver.checkpoints_finite();
            lemma_ascending_members(cps);
            assert(state.builder.region@.names == seq!["entry"@]);
        }
        state.label_resolver.create_blocks(&mut state.builder);
        let ghost blocks = block_map(insts@);
        proof {
            assert(state.blocks() =~= blocks) by {
                assert forall|a: u64| #[trigger] state.blocks().contains_key(a) == blocks.contains_key(a) by {
                    assert(state.blocks().dom().contains(a) == cps.contains(a));
                }
                assert forall|a: u64| #[trigger] blocks.contains_key(a) implies state.blocks()[a] == blocks[a] by {
                    let i = choose|i: int| 0 <= i < addrs.len() && addrs[i] == a;
                    assert(addrs.to_set().contains(a));
                    assert(exists|j: int| 0 <= j < addrs.len() && addrs[j] == a);
                    assert(state.blocks()[addrs[i]] == 1 + i);
                }
            }
            assert(state.st() == initial_state(insts@));
            assert forall|a: u64| #[trigger] state.blocks().contains_key(a) implies state.blocks()[a]
                < state.builder.region@.names.len() by {
                let i = choose|i: int| 0 <= i < addrs.len() && addrs[i] == a;
                assert(addrs.to_set().contains(a));
                assert(exists|j: int| 0 <= j < addrs.len() && addrs[j] == a);
                assert(state.blocks()[addrs[i]] == 1 + i);
                crate::arm64::label_resolver::lemma_names_after_len(seq!["entry"@], addrs);
            }
            assert(state.wf());
        }
        let n = insts.len();
        let mut k: usize = 0;
        let mut pc: u64 = 0;
        while k < n
            invariant
                n == insts@.len(),
                4 * n <= u64::MAX,
                k <= n,
                pc == 4 * k,
                state.wf(),
                state.blocks() == blocks,
                blocks == block_map(insts@),
                all_offsets_ok(insts@),
                lift_all_spec(initial_state(insts@), insts@.take(k as int), blocks) == Some(
                    state.st(),
                ),
            decreases n - k,
        {
            let ghost before = state.st();
            proof {
                assert(insts@.take(k + 1).drop_last() =~= insts@.take(k as int));
                assert(insts@.take(k + 1).last() == insts@[k as int]);
            }
            if let Some(block) = state.get_block(pc) {
                state.jump(block);
                state.set_insert_block(block);
            }
            match state.lift_inst(pc, insts[k]) {
                Ok(()) => {},
                Err(e) => {
                    proof {
                        assert(lift_step(before, insts@[k as int], pc, blocks) is None);
                        assert(lift_all_spec(initial_state(insts@), insts@.take(k + 1), blocks)
                            is None);
                        lemma_lift_all_none_extends(
                            initial_state(insts@),
                            insts@,
                            blocks,
                            (k + 1) as nat,
                        );
                        assert(lifted(insts@) is None);
                    }
                    return Err(e);
                },
            }
            k = k + 1;
            pc = pc + 4;
        }
        assert(insts@.take(n as int) =~= insts@);
        Ok(state.builder.region)
    }
}

/// Once lifting a prefix of `insts` fails, lifting all of them fails.
proof fn lemma_lift_all_none_extends(s: LState, insts: Seq<Instruction>, blocks: Map<u64, usize>, k: nat)
    requires
        k <= insts.len(),
        lift_all_spec(s, insts.take(k as int), blocks) is None,
    ensures
        lift_all_spec(s, insts, blocks) is None,
    decreases insts.len() - k,
{
    if k < insts.len() {
        assert(insts.take(k as int + 1).drop_last() =~= insts.take(k as int));
        lemma_lift_all_none_extends(s, insts, blocks, k + 1);
    } else {
        assert(insts.take(k as int) =~= insts);
    }
}

/// Decodes `code` and lifts the instructions, the first at address 0.
pub fn lift_code(code: &[u8]) -> (r: Result<Region, AArch64LifterError>)
    ensures
        r matches Ok(region) ==> region@.wf() && exists|v: Seq<Instruction>|
            #![trigger decoded_list(code@, v)]
            decoded_list(code@, v) && lifted(v) == Some(region@),
        r matches Err(AArch64LifterError::DecodeError(e)) ==> rejected_with(code@, e),
        r matches Err(AArch64LifterError::CustomError(_)) ==> exists|v: Seq<Instruction>|
            #![trigger decoded_list(code@, v)]
            decoded_list(code@, v) && lifted(v) is None,
        (forall|e: DecodeError| !rejected_with(code@, e)) && (forall|v: Seq<Instruction>|
            #[trigger] decoded_list(code@, v) ==> lifted(v) is Some) ==> r is Ok,
        r matches Err(e) ==> !(e is Pcc),
{
    let len = code.len();
    let insts = match decode_all(code) {
        Ok(v) => v,
        Err(e) => {
            assert(rejected_with(code@, e));
            return Err(AArch64LifterError::DecodeError(e));
        },
    };
    proof {
        assert(decoded_list(code@, insts@));
        assert(4 * insts@.len() <= u64::MAX) by {
            assert(insts@.len() <= len / 4);
        }
    }
    let state = match LifterState::new(&insts) {
        Ok(st) => st,
        Err(e) => {
            assert(lifted(insts@) is None);
            return Err(e);
        },
    };
    proof {
        assert(state.st() == initial_state(Seq::<Instruction>::empty())) by {
            assert(checkpoint_set(Seq::<Instruction>::empty()) =~= Set::<u64>::empty());
            assert(ascending(Set::<u64>::empty()) =~= Seq::<u64>::empty());
        }
    }
    state.lift(&insts)
}


/// A lifter for AArch64 machine code.
pub struct AArch64Lifter;

/// `s` padded with zeros in front to at least four characters.
pub open spec fn pad4(s: Seq<char>) -> Seq<char> {
    if s.len() < 4 {
        Seq::new((4 - s.len()) as nat, |i: int| '0') + s
    } else {
        s
    }
}

/// The line for the instruction at `pc` with assembly text `text`: the address as `0x` and at
/// least four hexadecimal digits, a tab, the text and a line break.
pub open spec fn disasm_line(pc: nat, text: Seq<char>) -> Seq<char> {
    "0x"@ + pad4(hex(pc)) + ":\t"@ + text + "\n"@
}

/// The lines for the first `m` instruction words of `code`.
pub open spec fn disasm_text(code: Seq<u8>, m: nat) -> Seq<char>
    decreases m,
{
    if m == 0 {
        Seq::<char>::empty()
    } else {
        disasm_text(code, (m - 1) as nat) + disasm_line(
            (4 * (m - 1)) as nat,
            decoded_text(word_at(code, m - 1))->Ok_0.1,
        )
    }
}

/// The architecture `target_lexicon` calls 64-bit Arm:
/// `Architecture::Aarch64(Aarch64Architecture::Aarch64)`.  Nothing is claimed of the value.
#[verifier::external_body]
fn aarch64_architecture() -> Architecture {
    Architecture::Aarch64(Aarch64Architecture::Aarch64)
}

/// Appends the address of the instruction at `pc` as `0x` and at least four hexadecimal
/// digits.
fn push_address(out: &mut Vec<char>, pc: u64)
    ensures
        final(out)@ == old(out)@ + "0x"@ + pad4(hex(pc as nat)),
{
    push_str(out, "0x");
    let mut digits: Vec<char> = Vec::new();
    push_hex(&mut digits, pc);
    assert(digits@ =~= hex(pc as nat));
    let ghost mid = out@;
    let mut i = digits.len();
    while i < 4
        invariant
            digits@.len() <= i,
            i <= 4 || i == digits@.len(),
            out@ == mid + Seq::new((i - digits@.len()) as nat, |j: int| '0'),
        decreases 4 - i,
    {
        out.push('0');
        i = i + 1;
        assert(out@ =~= mid + Seq::new((i - digits@.len()) as nat, |j: int| '0'));
    }
    let ghost zeros = out@;
    let mut j: usize = 0;
    while j < digits.len()
        invariant
            j <= digits@.len(),
            out@ == zeros + digits@.take(j as int),
        decreases digits@.len() - j,
    {
        out.push(digits[j]);
        j = j + 1;
        assert(out@ =~= zeros + digits@.take(j as int));
    }
    assert(digits@.take(digits@.len() as int) =~= digits@);
    proof {
        if digits@.len() >= 4 {
            assert(Seq::new(0nat, |j: int| '0') =~= Seq::<char>::empty());
        }
    }
    assert(final(out)@ =~= old(out)@ + "0x"@ + pad4(hex(pc as nat)));
}

impl AArch64Lifter {
    /// Disassembles `code`: one line per instruction word with its address and its assembly
    /// text, up to where the decoder reports that the input is exhausted.  At the first word
    /// the decoder rejects otherwise, it stops with that error; the text then holds the lines
    /// of the words before it.
    pub fn disassemble(&self, code: &[u8]) -> (r: (String, Result<(), AArch64DisassemblerError>))
        ensures
            exists|m: nat|
                #![trigger disasm_text(code@, m)]
                m <= n_words(code@) && words_ok(code@, m as int) && r.0@ == disasm_text(code@, m)
                    && match r.1 {
                    Ok(()) => m == n_words(code@) || decoded_text(word_at(code@, m as int)) == Err::<
                        (Seq<char>, Seq<char>),
                        DecodeError,
                    >(DecodeError::ExhaustedInput),
                    Err(AArch64DisassemblerError::DecodeError(e)) => m < n_words(code@) && e
                        != DecodeError::ExhaustedInput && decoded_text(word_at(code@, m as int))
                        == Err::<(Seq<char>, Seq<char>), DecodeError>(e),
                },
            r.1 matches Err(AArch64DisassemblerError::DecodeError(e)) ==> rejected_with(code@, e),
            (forall|e: DecodeError| !rejected_with(code@, e)) ==> r.1 is Ok,
    {
        let n = code.len() / 4;
        let mut out: Vec<char> = Vec::new();
        let mut k: usize = 0;
        let mut pc: u64 = 0;
        let len = code.len();
        while k < n
            invariant
                n == n_words(code@),
                len == code@.len(),
                k <= n,
                pc == 4 * k,
                words_ok(code@, k as int),
                out@ == disasm_text(code@, k as nat),
            decreases n - k,
        {
            let w = word_vec(code, k);
            match decode_word(w.as_slice()) {
                Ok((_, text)) => {
                    push_address(&mut out, pc);
                    push_str(&mut out, ":\t");
                    push_str(&mut out, text.as_str());
                    push_str(&mut out, "\n");
                    proof {
                        assert(words_ok(code@, k + 1)) by {
                            assert forall|i: int| 0 <= i < k + 1 implies (#[trigger] decoded_text(
                                word_at(code@, i),
                            )) is Ok by {
                                if i < k {
                                    assert(decoded_text(word_at(code@, i)) is Ok);
                                }
                            }
                        }
                        assert(out@ =~= disasm_text(code@, (k + 1) as nat));
                    }
                },
                Err(DecodeError::ExhaustedInput) => {
                    let s = string_from_chars(out.as_slice());
                    assert(s@ == disasm_text(code@, k as nat));
                    return (s, Ok(()));
                },
                Err(e) => {
                    assert(rejected_with(code@, e));
                    let s = string_from_chars(out.as_slice());
                    assert(s@ == disasm_text(code@, k as nat));
                    return (s, Err(AArch64DisassemblerError::DecodeError(e)));
                },
            }
            k = k + 1;
            assert(4 * k <= len);
            pc = pc + 4;
        }
        let s = string_from_chars(out.as_slice());
        assert(s@ == disasm_text(code@, n as nat));
        (s, Ok(()))
    }
}

impl Lifter for AArch64Lifter {
    type E = AArch64LifterError;

    fn arch() -> Architecture {
        aarch64_architecture()
    }

    fn new() -> (r: AArch64Lifter) {
        AArch64Lifter
    }

    /// Lifts `code`, the first instruction at address 0, after checking that the proof
    /// annotations decode.  The decoded annotations are not kept: the region holds no
    /// expressions they could be attached to.
    fn lift(&self, code: &[u8], proofs: &[u8]) -> (r: Result<Region, AArch64LifterError>)
        ensures
            (r matches Err(AArch64LifterError::Pcc(_))) <==> (proofs@.len() > 0 && !proof_accepted(
                proofs@,
            )),
            r matches Ok(region) ==> region@.wf() && exists|v: Seq<Instruction>|
                #![trigger decoded_list(code@, v)]
                decoded_list(code@, v) && lifted(v) == Some(region@),
            r matches Err(AArch64LifterError::DecodeError(e)) ==> rejected_with(code@, e),
            r matches Err(AArch64LifterError::CustomError(_)) ==> exists|v: Seq<Instruction>|
                #![trigger decoded_list(code@, v)]
                decoded_list(code@, v) && lifted(v) is None,
            (proofs@.len() == 0 || proof_accepted(proofs@)) && (forall|e: DecodeError|
                !rejected_with(code@, e)) && (forall|v: Seq<Instruction>|
                #[trigger] decoded_list(code@, v) ==> lifted(v) is Some) ==> r is Ok,
    {
        match parse_proofs(proofs) {
            Ok(()) => {},
            Err(e) => {
                return Err(AArch64LifterError::Pcc(e));
            },
        }
        lift_code(code)
    }
}

} // verus!
