//! Finding the addresses at which basic blocks start, and creating those blocks.
//!
//! A block starts at every branch destination and after every instruction that ends a block
//! (branches, conditional instructions that the lifter splits into blocks, indirect jumps).

use crate::arm64::decode::{
    decode_all, decodes_as, decoded_text, n_words, word_at, words_ok, DecodeError, Instruction,
    Opcode, Operand,
};
use crate::arm64::helper::{block_name, block_name_chars, get_pc_offset_as_int};
use crate::arm64::ir::{fresh_name, Builder, InstV};
use crate::arm64::lifter::AArch64LifterError;
use std::collections::HashMap;
use vstd::prelude::*;

verus! {

broadcast use vstd::std_specs::hash::group_hash_axioms;

/// Items of a sequence are strictly increasing.
pub open spec fn strictly_increasing_items(s: Seq<u64>) -> bool {
    forall|i: int, j: int| 0 <= i < j < s.len() ==> s[i] < s[j]
}

/// A priority queue of distinct addresses that hands out the largest first.  Pushing an
/// address that is already queued has no effect.
pub struct UniqueHeap {
    /// Queued addresses, smallest first.
    items: Vec<u64>,
}

impl UniqueHeap {
    #[verifier::type_invariant]
    spec fn inv(self) -> bool {
        strictly_increasing_items(self.items@)
    }

    /// The queued addresses.
    pub closed spec fn view(&self) -> Set<u64> {
        self.items@.to_set()
    }

    /// The queue holds finitely many addresses.
    pub proof fn lemma_finite(&self)
        ensures
            self@.finite(),
    {
        vstd::seq_lib::seq_to_set_is_finite(self.items@);
    }

    /// An empty queue.
    pub fn new() -> (h: UniqueHeap)
        ensures
            h@ == Set::<u64>::empty(),
    {
        let h = UniqueHeap { items: Vec::new() };
        assert(h.items@.to_set() =~= Set::<u64>::empty());
        h
    }

    /// Whether no address is queued.
    pub fn is_empty(&self) -> (r: bool)
        ensures
            r == (self@ == Set::<u64>::empty()),
    {
        let r = self.items.len() == 0;
        proof {
            if r {
                assert(self.items@.to_set() =~= Set::<u64>::empty());
            } else {
                assert(self.items@.to_set().contains(self.items@[0]));
            }
        }
        r
    }

    /// Queues `item` unless it is queued already.
    pub fn push(&mut self, item: u64)
        ensures
            final(self)@ == old(self)@.insert(item),
    {
        proof {
            use_type_invariant(&*self);
        }
        let ghost old_items = self.items@;
        let n = self.items.len();
        let mut i: usize = 0;
        while i < n && self.items[i] < item
            invariant
                n == self.items@.len(),
                self.items@ == old_items,
                strictly_increasing_items(old_items),
                i <= n,
                forall|k: int| 0 <= k < i ==> old_items[k] < item,
            decreases n - i,
        {
            i = i + 1;
        }
        if i < n && self.items[i] == item {
            assert(old_items.to_set().contains(item));
            assert(old_items.to_set().insert(item) =~= old_items.to_set());
            return;
        }
        let mut items: Vec<u64> = Vec::new();
        std::mem::swap(&mut items, &mut self.items);
        items.insert(i, item);
        let ghost new_items = items@;
        assert(new_items =~= old_items.take(i as int).push(item) + old_items.skip(i as int));
        assert forall|a: int, b: int| 0 <= a < b < new_items.len() implies new_items[a]
            < new_items[b] by {
            if b < i {
            } else if a < i && b == i {
            } else if a < i {
                assert(new_items[b] == old_items[b - 1]);
            } else if a == i {
                assert(new_items[b] == old_items[b - 1]);
                assert(old_items[b - 1] >= old_items[i as int]);
            } else {
                assert(new_items[a] == old_items[a - 1]);
                assert(new_items[b] == old_items[b - 1]);
            }
        }
        assert(new_items.to_set() =~= old_items.to_set().insert(item)) by {
            assert forall|x: u64| new_items.to_set().contains(x) implies old_items.to_set().insert(
                item,
            ).contains(x) by {
                let k = choose|k: int| 0 <= k < new_items.len() && new_items[k] == x;
                if k < i {
                    assert(old_items[k] == x);
                } else if k > i {
                    assert(old_items[k - 1] == x);
                }
            }
            assert forall|x: u64| old_items.to_set().insert(item).contains(x) implies new_items.to_set().contains(x) by {
                if x == item {
                    assert(new_items[i as int] == x);
                } else {
                    let k = choose|k: int| 0 <= k < old_items.len() && old_items[k] == x;
                    if k < i {
                        assert(new_items[k] == x);
                    } else {
                        assert(new_items[k + 1] == x);
                    }
                }
            }
        }
        self.items = items;
    }

    /// Removes and returns the largest queued address, or `None` when the queue is empty.
    pub fn pop(&mut self) -> (r: Option<u64>)
        ensures
            old(self)@ == Set::<u64>::empty() ==> r is None && final(self)@ == old(self)@,
            old(self)@ != Set::<u64>::empty() ==> (r matches Some(m) && old(self)@.contains(m) && (
            forall|x: u64| #[trigger] old(self)@.contains(x) ==> x <= m) && final(self)@ == old(
                self,
            )@.remove(m)),
    {
        proof {
            use_type_invariant(&*self);
        }
        let ghost old_items = self.items@;
        let mut items: Vec<u64> = Vec::new();
        std::mem::swap(&mut items, &mut self.items);
        let r = items.pop();
        proof {
            match r {
                Some(m) => {
                    let rest = items@;
                    assert(old_items =~= rest.push(m));
                    assert(old_items.to_set().contains(m)) by {
                        assert(old_items[old_items.len() - 1] == m);
                    }
                    assert forall|x: u64| #[trigger] old_items.to_set().contains(x) implies x
                        <= m by {
                        let k = choose|k: int| 0 <= k < old_items.len() && old_items[k] == x;
                        if k < old_items.len() - 1 {
                            assert(old_items[k] < old_items[old_items.len() - 1]);
                        }
                    }
                    assert(rest.to_set() =~= old_items.to_set().remove(m)) by {
                        assert forall|x: u64| rest.to_set().contains(x) implies old_items.to_set().remove(m).contains(x) by {
                            let k = choose|k: int| 0 <= k < rest.len() && rest[k] == x;
                            assert(old_items[k] == x);
                            assert(old_items[k] < old_items[old_items.len() - 1]);
                        }
                        assert forall|x: u64| old_items.to_set().remove(m).contains(x) implies rest.to_set().contains(x) by {
                            let k = choose|k: int| 0 <= k < old_items.len() && old_items[k] == x;
                            assert(k != old_items.len() - 1);
                            assert(rest[k] == x);
                        }
                    }
                },
                None => {
                    assert(old_items.len() == 0);
                    assert(old_items.to_set() =~= Set::<u64>::empty());
                },
            }
        }
        self.items = items;
        r
    }

    /// Removes and returns the smallest queued address, or `None` when the queue is empty: the
    /// order in which the label resolver creates its blocks.
    pub(crate) fn pop_smallest(&mut self) -> (r: Option<u64>)
        ensures
            old(self)@ == Set::<u64>::empty() ==> r is None && final(self)@ == old(self)@,
            old(self)@ != Set::<u64>::empty() ==> (r matches Some(m) && old(self)@.contains(m) && (
            forall|x: u64| #[trigger] old(self)@.contains(x) ==> m <= x) && final(self)@ == old(
                self,
            )@.remove(m)),
    {
        proof {
            use_type_invariant(&*self);
        }
        let ghost old_items = self.items@;
        if self.items.len() == 0 {
            assert(old_items.to_set() =~= Set::<u64>::empty());
            return None;
        }
        let mut items: Vec<u64> = Vec::new();
        std::mem::swap(&mut items, &mut self.items);
        let m = items.remove(0);
        proof {
            let rest = items@;
            assert(old_items =~= seq![m] + rest);
            assert(old_items.to_set().contains(m)) by {
                assert(old_items[0] == m);
            }
            assert forall|x: u64| #[trigger] old_items.to_set().contains(x) implies m <= x by {
                let k = choose|k: int| 0 <= k < old_items.len() && old_items[k] == x;
                if k > 0 {
                    assert(old_items[0] < old_items[k]);
                }
            }
            assert forall|a: int, b: int| 0 <= a < b < rest.len() implies rest[a] < rest[b] by {
                assert(rest[a] == old_items[a + 1]);
                assert(rest[b] == old_items[b + 1]);
            }
            assert(rest.to_set() =~= old_items.to_set().remove(m)) by {
                assert forall|x: u64| rest.to_set().contains(x) implies old_items.to_set().remove(m).contains(x) by {
                    let k = choose|k: int| 0 <= k < rest.len() && rest[k] == x;
                    assert(old_items[k + 1] == x);
                    assert(old_items[0] < old_items[k + 1]);
                }
                assert forall|x: u64| old_items.to_set().remove(m).contains(x) implies rest.to_set().contains(x) by {
                    let k = choose|k: int| 0 <= k < old_items.len() && old_items[k] == x;
                    assert(k != 0);
                    assert(rest[k - 1] == x);
                }
            }
        }
        self.items = items;
        Some(m)
    }
}


/// `xs` is what successive calls of `UniqueHeap::pop` hand out from a heap holding `s`, with
/// no push in between, until one returns `None`: each the largest address still queued, which
/// it removes.
pub open spec fn pop_run(s: Set<u64>, xs: Seq<u64>) -> bool
    decreases xs.len(),
{
    if xs.len() == 0 {
        s == Set::<u64>::empty()
    } else {
        &&& s.contains(xs[0])
        &&& forall|x: u64| #[trigger] s.contains(x) ==> x <= xs[0]
        &&& pop_run(s.remove(xs[0]), xs.drop_first())
    }
}

/// Popping a heap until it is empty hands out every queued address once, in strictly
/// decreasing order.
pub proof fn law_pops_drain(s: Set<u64>, xs: Seq<u64>)
    requires
        s.finite(),
        pop_run(s, xs),
    ensures
        forall|i: int, j: int| 0 <= i < j < xs.len() ==> xs[i] > xs[j],
        xs.to_set() == s,
        xs.len() == s.len(),
    decreases xs.len(),
{
    if xs.len() == 0 {
        assert(xs.to_set() =~= Set::<u64>::empty());
    } else {
        let m = xs[0];
        let rest = xs.drop_first();
        law_pops_drain(s.remove(m), rest);
        assert forall|i: int, j: int| 0 <= i < j < xs.len() implies xs[i] > xs[j] by {
            if i == 0 {
                assert(rest[j - 1] == xs[j]);
                assert(rest.to_set().contains(xs[j]));
                assert(s.remove(m).contains(xs[j]));
            } else {
                assert(rest[i - 1] == xs[i]);
                assert(rest[j - 1] == xs[j]);
            }
        }
        assert(xs =~= seq![m] + rest);
        assert(xs.to_set() =~= s) by {
            assert forall|x: u64| xs.to_set().contains(x) implies s.contains(x) by {
                let k = choose|k: int| 0 <= k < xs.len() && xs[k] == x;
                if k > 0 {
                    assert(rest[k - 1] == x);
                    assert(rest.to_set().contains(x));
                }
            }
            assert forall|x: u64| s.contains(x) implies xs.to_set().contains(x) by {
                if x == m {
                    assert(xs[0] == x);
                } else {
                    assert(s.remove(m).contains(x));
                    let k = choose|k: int| 0 <= k < rest.len() && rest[k] == x;
                    assert(xs[k + 1] == x);
                }
            }
        }
    }
}

/// `m` is the smallest member of `s`.
pub open spec fn is_least(s: Set<u64>, m: u64) -> bool {
    s.contains(m) && forall|x: u64| #[trigger] s.contains(x) ==> m <= x
}

/// The smallest member of a finite non-empty set.
pub open spec fn least(s: Set<u64>) -> u64 {
    choose|m: u64| is_least(s, m)
}

/// A finite non-empty set has a smallest member.
pub proof fn lemma_least_exists(s: Set<u64>)
    requires
        s.finite(),
        s.len() > 0,
    ensures
        is_least(s, least(s)),
    decreases s.len(),
{
    let x = s.choose();
    assert(s.contains(x));
    let rest = s.remove(x);
    if rest.len() == 0 {
        assert forall|y: u64| #[trigger] s.contains(y) implies x <= y by {
            if y != x {
                assert(rest.contains(y));
            }
        }
        assert(is_least(s, x));
    } else {
        lemma_least_exists(rest);
        let m = least(rest);
        if m <= x {
            assert forall|y: u64| #[trigger] s.contains(y) implies m <= y by {
                if y != x {
                    assert(rest.contains(y));
                }
            }
            assert(is_least(s, m));
        } else {
            assert forall|y: u64| #[trigger] s.contains(y) implies x <= y by {
                if y != x {
                    assert(rest.contains(y));
                }
            }
            assert(is_least(s, x));
        }
    }
}

/// A set has at most one smallest member.
pub proof fn lemma_least_unique(s: Set<u64>, m: u64)
    requires
        is_least(s, m),
    ensures
        least(s) == m,
{
    assert(is_least(s, least(s)));
}

/// The members of a finite set in ascending order.
pub open spec fn ascending(s: Set<u64>) -> Seq<u64>
    decreases s.len(),
    when s.finite()
{
    if s.len() == 0 {
        Seq::<u64>::empty()
    } else {
        proof {
            lemma_least_exists(s);
        }
        seq![least(s)] + ascending(s.remove(least(s)))
    }
}

/// Operand that holds the pc-relative destination of a direct branch.
pub open spec fn branch_offset_index(o: Opcode) -> Option<int> {
    match o {
        Opcode::B | Opcode::BL | Opcode::Bcc(_) => Some(0),
        Opcode::CBNZ | Opcode::CBZ => Some(1),
        Opcode::TBNZ | Opcode::TBZ => Some(2),
        _ => None,
    }
}

/// Instructions without a destination after which a new block starts: the conditional
/// instructions the lifter splits into blocks, and indirect branches.
pub open spec fn ends_block(o: Opcode) -> bool {
    o is CCMP || o is CCMN || o is CSINC || o is CSINV || o is CSEL || o is CSNEG || o is SBFM
        || o is UBFM || o is BFM || o is BLR || o is BR
}

/// A direct branch carries its destination as a pc-relative offset.
pub open spec fn offsets_ok(inst: Instruction) -> bool {
    match branch_offset_index(inst.opcode) {
        Some(k) => inst.operands@[k] is PCOffset,
        None => true,
    }
}

/// All direct branches among `insts` carry pc-relative offsets.
pub open spec fn all_offsets_ok(insts: Seq<Instruction>) -> bool {
    forall|k: int| 0 <= k < insts.len() ==> offsets_ok(#[trigger] insts[k])
}

/// The address `off` bytes away from `addr`, wrapping around modulo 2^64.
pub open spec fn jump_target(addr: u64, off: i64) -> u64 {
    let t = addr + off;
    if t < 0 {
        (t + 0x1_0000_0000_0000_0000) as u64
    } else if t > u64::MAX {
        (t - 0x1_0000_0000_0000_0000) as u64
    } else {
        t as u64
    }
}

/// Addresses at which blocks start because of the instruction at `addr`: the next address
/// after a branch or a block-ending instruction, and the destination of a direct branch.
pub open spec fn inst_checkpoints(inst: Instruction, addr: u64) -> Set<u64> {
    match branch_offset_index(inst.opcode) {
        Some(k) => set![(addr + 4) as u64, jump_target(addr, inst.operands@[k]->PCOffset_0)],
        None => if ends_block(inst.opcode) {
            set![(addr + 4) as u64]
        } else {
            Set::<u64>::empty()
        },
    }
}

/// Addresses at which blocks start in code made of `insts`, the first at address 0.
pub open spec fn checkpoint_set(insts: Seq<Instruction>) -> Set<u64>
    decreases insts.len(),
{
    if insts.len() == 0 {
        Set::<u64>::empty()
    } else {
        checkpoint_set(insts.drop_last()).union(
            inst_checkpoints(insts.last(), (4 * (insts.len() - 1)) as u64),
        )
    }
}

/// `v` is what decoding `code` word by word yields when no word is rejected.
pub open spec fn decoded_list(code: Seq<u8>, v: Seq<Instruction>) -> bool {
    &&& v.len() <= n_words(code)
    &&& forall|i: int| 0 <= i < v.len() ==> decodes_as(word_at(code, i), #[trigger] v[i])
    &&& v.len() < n_words(code) ==> decoded_text(word_at(code, v.len() as int)) == Err::<
        (Seq<char>, Seq<char>),
        DecodeError,
    >(DecodeError::ExhaustedInput)
}

/// The decoder rejects a word of `code` with `e` before decoding stops.
pub open spec fn rejected_with(code: Seq<u8>, e: DecodeError) -> bool {
    &&& e != DecodeError::ExhaustedInput
    &&& exists|k: int|
        0 <= k < n_words(code) && words_ok(code, k) && decoded_text(word_at(code, k)) == Err::<
            (Seq<char>, Seq<char>),
            DecodeError,
        >(e)
}

/// Names of the blocks after creating one block per address of `addrs`, in order.
pub open spec fn names_after(names: Seq<Seq<char>>, addrs: Seq<u64>) -> Seq<Seq<char>>
    decreases addrs.len(),
{
    if addrs.len() == 0 {
        names
    } else {
        let prev = names_after(names, addrs.drop_last());
        prev.push(fresh_name(prev, block_name(addrs.last())))
    }
}

/// Block starts found in the code, and the blocks created for them.
pub struct LabelResolver {
    checkpoints: UniqueHeap,
    blocks: HashMap<u64, usize>,
}

impl LabelResolver {
    /// Addresses at which a block still has to be created.
    pub closed spec fn pending(&self) -> Set<u64> {
        self.checkpoints@
    }

    /// The block created for each address.
    pub closed spec fn blocks(&self) -> Map<u64, usize> {
        self.blocks@
    }

    /// Finitely many addresses are pending.
    pub proof fn checkpoints_finite(&self)
        ensures
            self.pending().finite(),
    {
        self.checkpoints.lemma_finite();
    }

    /// A resolver for code made of `insts`, with its block starts found and no block
    /// created yet.  Fails where a direct branch carries no pc-relative offset.
    pub fn from_instructions(insts: &Vec<Instruction>) -> (r: Result<
        LabelResolver,
        AArch64LifterError,
    >)
        requires
            4 * insts@.len() <= u64::MAX,
        ensures
            r is Ok <==> all_offsets_ok(insts@),
            r matches Ok(res) ==> res.pending() == checkpoint_set(insts@) && res.blocks()
                == Map::<u64, usize>::empty(),
            r matches Err(e) ==> e is CustomError,
    {
        let mut resolver = LabelResolver { checkpoints: UniqueHeap::new(), blocks: HashMap::new() };
        match resolver.get_checkpoints(insts) {
            Ok(()) => {
                assert(Set::<u64>::empty().union(checkpoint_set(insts@)) =~= checkpoint_set(
                    insts@,
                ));
                Ok(resolver)
            },
            Err(e) => Err(e),
        }
    }

    /// A resolver for `code`, with its block starts found and no block created yet.  Fails
    /// where the decoder rejects a word or a direct branch carries no pc-relative offset.
    pub fn new(code: &[u8]) -> (r: Result<LabelResolver, AArch64LifterError>)
        ensures
            r matches Ok(res) ==> exists|v: Seq<Instruction>|
                #![trigger decoded_list(code@, v)]
                decoded_list(code@, v) && all_offsets_ok(v) && res.pending() == checkpoint_set(v)
                    && res.blocks() == Map::<u64, usize>::empty(),
            r matches Err(AArch64LifterError::DecodeError(e)) ==> rejected_with(code@, e),
            r matches Err(AArch64LifterError::CustomError(_)) ==> exists|v: Seq<Instruction>|
                #![trigger decoded_list(code@, v)]
                decoded_list(code@, v) && !all_offsets_ok(v),
            (forall|e: DecodeError| !rejected_with(code@, e)) && (forall|v: Seq<Instruction>|
                #[trigger] decoded_list(code@, v) ==> all_offsets_ok(v)) ==> r is Ok,
    {
        let len = code.len();
        let insts = match decode_all(code) {
            Ok(v) => v,
            Err(e) => {
                return Err(AArch64LifterError::DecodeError(e));
            },
        };
        proof {
            assert(decoded_list(code@, insts@));
            assert(4 * insts@.len() <= u64::MAX) by {
                assert(insts@.len() <= len / 4);
            }
        }
        LabelResolver::from_instructions(&insts)
    }

    /// Adds the block starts of `insts` to the pending ones.  Fails, changing nothing, where a
    /// direct branch carries no pc-relative offset.
    pub fn get_checkpoints(&mut self, insts: &Vec<Instruction>) -> (r: Result<
        (),
        AArch64LifterError,
    >)
        requires
            4 * insts@.len() <= u64::MAX,
        ensures
            r is Ok <==> all_offsets_ok(insts@),
            r is Ok ==> final(self).pending() == old(self).pending().union(checkpoint_set(insts@)),
            r is Err ==> final(self).pending() == old(self).pending(),
            r matches Err(e) ==> e is CustomError,
            final(self).blocks() == old(self).blocks(),
    {
        let n = insts.len();
        let mut k: usize = 0;
        while k < n
            invariant
                n == insts@.len(),
                k <= n,
                forall|i: int| 0 <= i < k ==> offsets_ok(#[trigger] insts@[i]),
            decreases n - k,
        {
            if !Self::has_offset(&insts[k]) {
                return Err(AArch64LifterError::CustomError(
                    "direct branch without a pc-relative destination".to_string(),
                ));
            }
            k = k + 1;
        }
        let mut k: usize = 0;
        let mut address: u64 = 0;
        while k < n
            invariant
                n == insts@.len(),
                4 * n <= u64::MAX,
                k <= n,
                address == 4 * k,
                all_offsets_ok(insts@),
                self.pending() == old(self).pending().union(checkpoint_set(insts@.take(k as int))),
                self.blocks() == old(self).blocks(),
            decreases n - k,
        {
            let inst = insts[k];
            proof {
                assert(insts@.take(k + 1).drop_last() =~= insts@.take(k as int));
                assert(offsets_ok(insts@[k as int]));
            }
            let ghost before = self.pending();
            self.push_inst_checkpoints(inst, address);
            proof {
                assert(self.pending() =~= old(self).pending().union(
                    checkpoint_set(insts@.take(k + 1)),
                ));
            }
            k = k + 1;
            address = address + 4;
        }
        assert(insts@.take(n as int) =~= insts@);
        Ok(())
    }

    /// Whether a direct branch carries a pc-relative offset.
    fn has_offset(inst: &Instruction) -> (r: bool)
        ensures
            r == offsets_ok(*inst),
    {
        match inst.opcode {
            Opcode::B | Opcode::BL | Opcode::Bcc(_) => matches!(inst.operands[0], Operand::PCOffset(_)),
            Opcode::CBNZ | Opcode::CBZ => matches!(inst.operands[1], Operand::PCOffset(_)),
            Opcode::TBNZ | Opcode::TBZ => matches!(inst.operands[2], Operand::PCOffset(_)),
            _ => true,
        }
    }

    /// Queues the block starts caused by the instruction at `addr`.
    fn push_inst_checkpoints(&mut self, inst: Instruction, addr: u64)
        requires
            addr + 4 <= u64::MAX,
            offsets_ok(inst),
        ensures
            final(self).pending() == old(self).pending().union(inst_checkpoints(inst, addr)),
            final(self).blocks() == old(self).blocks(),
    {
        let next = addr + 4;
        let offset = match inst.opcode {
            Opcode::B | Opcode::BL | Opcode::Bcc(_) => Some(get_pc_offset_as_int(inst.operands[0])),
            Opcode::CBNZ | Opcode::CBZ => Some(get_pc_offset_as_int(inst.operands[1])),
            Opcode::TBNZ | Opcode::TBZ => Some(get_pc_offset_as_int(inst.operands[2])),
            Opcode::CCMP | Opcode::CCMN | Opcode::CSINC | Opcode::CSINV | Opcode::CSEL
            | Opcode::CSNEG | Opcode::SBFM | Opcode::UBFM | Opcode::BFM | Opcode::BLR
            | Opcode::BR => None,
            _ => {
                assert(inst_checkpoints(inst, addr) =~= Set::<u64>::empty());
                assert(self.pending().union(Set::<u64>::empty()) =~= self.pending());
                return ;
            },
        };
        self.checkpoints.push(next);
        match offset {
            Some(off) => {
                let target = addr.wrapping_add_signed(off);
                assert(target == jump_target(addr, off));
                self.checkpoints.push(target);
            },
            None => {},
        }
        assert(self.pending() =~= old(self).pending().union(inst_checkpoints(inst, addr)));
    }

    /// Creates a block named after each pending address, in ascending order of address, and
    /// records it as that address's block.  No address is pending afterwards.
    pub fn create_blocks(&mut self, builder: &mut Builder)
        requires
            old(builder).wf(),
        ensures
            final(builder).wf(),
            final(builder).cur == old(builder).cur,
            final(builder).region@.insts == old(builder).region@.insts,
            final(builder).region@.entries == old(builder).region@.entries,
            final(builder).region@.names == names_after(
                old(builder).region@.names,
                ascending(old(self).pending()),
            ),
            final(self).pending() == Set::<u64>::empty(),
            forall|i: int|
                0 <= i < ascending(old(self).pending()).len() ==> #[trigger] final(self).blocks()[ascending(
                    old(self).pending(),
                )[i]] == old(builder).region@.names.len() + i,
            final(self).blocks().dom() == old(self).blocks().dom().union(
                old(self).pending(),
            ),
            forall|a: u64|
                #![trigger final(self).blocks()[a]]
                old(self).blocks().contains_key(a) && !old(self).pending().contains(a)
                    ==> final(self).blocks()[a] == old(self).blocks()[a],
    {
        let ghost all = ascending(self.pending());
        let ghost names0 = builder.region@.names;
        let ghost blocks0 = self.blocks();
        proof {
            self.checkpoints.lemma_finite();
            lemma_ascending_members(self.pending());
        }
        let ghost mut i: int = 0;
        loop
            invariant
                builder.wf(),
                builder.cur == old(builder).cur,
                builder.region@.insts == old(builder).region@.insts,
                builder.region@.entries == old(builder).region@.entries,
                0 <= i <= all.len(),
                self.pending().finite(),
                ascending(self.pending()) == all.skip(i),
                builder.region@.names == names_after(names0, all.take(i)),
                forall|j: int| 0 <= j < i ==> #[trigger] self.blocks()[all[j]] == names0.len() + j,
                forall|j: int| 0 <= j < i ==> self.blocks().contains_key(#[trigger] all[j]),
                self.blocks().dom() == blocks0.dom().union(all.take(i).to_set()),
                forall|a: u64|
                    #![trigger self.blocks()[a]]
                    blocks0.contains_key(a) && !all.contains(a) ==> self.blocks()[a] == blocks0[a],
                all == ascending(old(self).pending()),
                blocks0 == old(self).blocks(),
                names0 == old(builder).region@.names,
                strictly_increasing(all),
                all.to_set() == old(self).pending(),
            ensures
                self.pending() == Set::<u64>::empty(),
            decreases self.pending().len(),
        {
            let ghost cur = self.pending();
            let checkpoint = match self.checkpoints.pop_smallest() {
                Some(c) => c,
                None => {
                    break;
                },
            };
            proof {
                lemma_least_unique(cur, checkpoint);
                assert(cur.len() > 0);
                assert(ascending(cur) == seq![checkpoint] + ascending(cur.remove(checkpoint)));
                assert(all[i] == checkpoint) by {
                    assert(all.skip(i)[0] == ascending(cur)[0]);
                }
                assert(ascending(self.pending()) =~= all.skip(i + 1)) by {
                    assert(all.skip(i + 1) =~= all.skip(i).skip(1));
                    assert(ascending(cur).skip(1) =~= ascending(cur.remove(checkpoint)));
                }
            }
            let name = block_name_chars(checkpoint);
            let ghost names_before = builder.region@.names;
            let b = builder.create_block(name);
            self.blocks.insert(checkpoint, b);
            proof {
                assert(all.take(i + 1).drop_last() =~= all.take(i));
                assert(all.take(i + 1).last() == checkpoint);
                assert(builder.region@.names == names_after(names0, all.take(i + 1)));
                assert(names_after(names0, all.take(i)).len() == names0.len() + i) by {
                    lemma_names_after_len(names0, all.take(i));
                }
                assert forall|j: int| 0 <= j < i + 1 implies #[trigger] self.blocks()[all[j]]
                    == names0.len() + j by {
                    if j < i {
                        assert(all[j] < all[i]);
                    }
                }
                assert forall|j: int| 0 <= j < i + 1 implies self.blocks().contains_key(
                    #[trigger] all[j],
                ) by {
                }
                assert(self.blocks().dom() =~= blocks0.dom().union(all.take(i + 1).to_set())) by {
                    let t1 = all.take(i + 1);
                    let t0 = all.take(i);
                    assert(t1 =~= t0.push(checkpoint));
                    assert forall|a: u64| t1.to_set().contains(a) <==> (t0.to_set().contains(a)
                        || a == checkpoint) by {
                        if a == checkpoint {
                            assert(t1[i] == a);
                        }
                        if t1.to_set().contains(a) && a != checkpoint {
                            let k = choose|k: int| 0 <= k < t1.len() && #[trigger] t1[k] == a;
                            assert(t0[k] == a);
                        }
                        if t0.to_set().contains(a) {
                            let k = choose|k: int| 0 <= k < t0.len() && #[trigger] t0[k] == a;
                            assert(t1[k] == a);
                        }
                    }
                }
                assert forall|a: u64|
                    #![trigger self.blocks()[a]]
                    blocks0.contains_key(a) && !all.contains(a) implies self.blocks()[a]
                        == blocks0[a] by {
                    assert(a != checkpoint) by {
                        assert(all[i] == checkpoint);
                    }
                }
                i = i + 1;
            }
        }
        proof {
            assert(ascending(self.pending()) =~= Seq::<u64>::empty());
            assert(i == all.len()) by {
                assert(all.skip(i).len() == 0);
            }
            assert(all.take(i) =~= all);
            assert forall|a: u64|
                #![trigger self.blocks()[a]]
                old(self).blocks().contains_key(a) && !old(self).pending().contains(a) implies self.blocks()[a]
                    == old(self).blocks()[a] by {
                assert(!all.contains(a)) by {
                    if all.contains(a) {
                        let k = choose|k: int| 0 <= k < all.len() && all[k] == a;
                        assert(all.to_set().contains(a));
                    }
                }
            }
        }
    }

    /// The block created for `addr`, if any.
    pub fn get_block(&self, addr: u64) -> (r: Option<usize>)
        ensures
            r == (if self.blocks().contains_key(addr) {
                Some(self.blocks()[addr])
            } else {
                None
            }),
    {
        match self.blocks.get(&addr) {
            Some(b) => Some(*b),
            None => None,
        }
    }

    /// Finds the block starts of `insts` and creates their blocks.
    pub fn resolve(&mut self, insts: &Vec<Instruction>, builder: &mut Builder) -> (r: Result<
        (),
        AArch64LifterError,
    >)
        requires
            4 * insts@.len() <= u64::MAX,
            old(builder).wf(),
        ensures
            r is Ok <==> all_offsets_ok(insts@),
            final(builder).wf(),
            r is Err ==> final(self).pending() == old(self).pending() && final(self).blocks()
                == old(self).blocks() && *final(builder) == *old(builder),
            r is Ok ==> final(self).pending() == Set::<u64>::empty() && final(builder).region@.names
                == names_after(
                old(builder).region@.names,
                ascending(old(self).pending().union(checkpoint_set(insts@))),
            ) && final(builder).region@.insts == old(builder).region@.insts,
    {
        self.get_checkpoints(insts)?;
        self.create_blocks(builder);
        Ok(())
    }
}

/// Items of a sequence are strictly increasing.
pub open spec fn strictly_increasing(s: Seq<u64>) -> bool {
    forall|i: int, j: int| 0 <= i < j < s.len() ==> s[i] < s[j]
}

/// The ascending enumeration of a finite set is strictly increasing and holds exactly the
/// members of the set.
pub proof fn lemma_ascending_members(s: Set<u64>)
    requires
        s.finite(),
    ensures
        strictly_increasing(ascending(s)),
        ascending(s).to_set() == s,
        ascending(s).len() == s.len(),
    decreases s.len(),
{
    if s.len() == 0 {
        assert(s =~= Set::<u64>::empty());
        assert(ascending(s).to_set() =~= s);
    } else {
        lemma_least_exists(s);
        let m = least(s);
        let rest = s.remove(m);
        lemma_ascending_members(rest);
        let a = ascending(s);
        let ar = ascending(rest);
        assert(a == seq![m] + ar);
        assert forall|i: int, j: int| 0 <= i < j < a.len() implies a[i] < a[j] by {
            if i == 0 {
                assert(a[j] == ar[j - 1]);
                assert(rest.contains(ar[j - 1])) by {
                    assert(ar.to_set().contains(ar[j - 1]));
                }
            } else {
                assert(a[i] == ar[i - 1]);
                assert(a[j] == ar[j - 1]);
            }
        }
        assert(a.to_set() =~= s) by {
            assert forall|x: u64| a.to_set().contains(x) implies s.contains(x) by {
                let k = choose|k: int| 0 <= k < a.len() && a[k] == x;
                if k > 0 {
                    assert(ar[k - 1] == x);
                    assert(ar.to_set().contains(x));
                }
            }
            assert forall|x: u64| s.contains(x) implies a.to_set().contains(x) by {
                if x == m {
                    assert(a[0] == x);
                } else {
                    assert(rest.contains(x));
                    assert(ar.to_set().contains(x));
                    let k = choose|k: int| 0 <= k < ar.len() && ar[k] == x;
                    assert(a[k + 1] == x);
                }
            }
        }
    }
}

/// Creating blocks for `addrs` adds one name per address.
pub proof fn lemma_names_after_len(names: Seq<Seq<char>>, addrs: Seq<u64>)
    ensures
        names_after(names, addrs).len() == names.len() + addrs.len(),
        names_after(names, addrs).take(names.len() as int) == names,
    decreases addrs.len(),
{
    if addrs.len() > 0 {
        lemma_names_after_len(names, addrs.drop_last());
        let prev = names_after(names, addrs.drop_last());
        assert(prev.push(fresh_name(prev, block_name(addrs.last()))).take(names.len() as int)
            =~= prev.take(names.len() as int));
    }
}

} // verus!
