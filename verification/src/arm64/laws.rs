//! Properties that relate the label resolver, the lifter and the decoder.

use crate::arm64::decode::{digits_value, Instruction};
use crate::arm64::helper::block_name;
use crate::arm64::ir::{decimal, digit_char, fresh_name, name_count};
use crate::arm64::label_resolver::{
    all_offsets_ok, ascending, branch_offset_index, checkpoint_set, ends_block, inst_checkpoints,
    lemma_ascending_members, names_after, strictly_increasing,
};
use crate::arm64::lifter::branch::{next_ok, next_pc, target_ok, target_of};
use crate::arm64::lifter::{block_map, initial_state};
use vstd::prelude::*;

verus! {

/// The block starts caused by one instruction are among the block starts of the code.
proof fn lemma_inst_checkpoints_included(insts: Seq<Instruction>, k: int)
    requires
        0 <= k < insts.len(),
    ensures
        inst_checkpoints(insts[k], (4 * k) as u64).subset_of(checkpoint_set(insts)),
    decreases insts.len(),
{
    if k < insts.len() - 1 {
        lemma_inst_checkpoints_included(insts.drop_last(), k);
        assert(insts.drop_last()[k] == insts[k]);
    }
}

/// Every address a branch or a block-ending instruction continues at has a block: the
/// destination of a direct branch, and the address after a branch or an instruction that the
/// lifter splits into blocks.
pub proof fn law_jump_targets_have_blocks(insts: Seq<Instruction>, k: int)
    requires
        all_offsets_ok(insts),
        0 <= k < insts.len(),
        4 * insts.len() <= u64::MAX,
    ensures
        branch_offset_index(insts[k].opcode) matches Some(j) ==> target_ok(
            insts[k],
            j,
            (4 * k) as u64,
            block_map(insts),
        ) && next_ok((4 * k) as u64, block_map(insts)),
        ends_block(insts[k].opcode) ==> next_ok((4 * k) as u64, block_map(insts)),
{
    lemma_inst_checkpoints_included(insts, k);
    let pc = (4 * k) as u64;
    let inst = insts[k];
    assert(offsets_ok_at(insts, k));
    match branch_offset_index(inst.opcode) {
        Some(j) => {
            assert(inst_checkpoints(inst, pc).contains(next_pc(pc)));
            assert(inst_checkpoints(inst, pc).contains(target_of(inst, j, pc)));
        },
        None => {
            if ends_block(inst.opcode) {
                assert(inst_checkpoints(inst, pc).contains(next_pc(pc)));
            }
        },
    }
}

/// The direct branch at `k` carries its offset.
spec fn offsets_ok_at(insts: Seq<Instruction>, k: int) -> bool {
    crate::arm64::label_resolver::offsets_ok(insts[k])
}

/// A digit character stands for its digit.
proof fn lemma_digit_value(d: nat)
    requires
        d < 10,
    ensures
        digit_char(d) as nat - '0' as nat == d,
{
}

/// The digits of a number read back as the number.
pub proof fn lemma_decimal_value(n: nat)
    ensures
        digits_value(decimal(n)) == n,
    decreases n,
{
    if n < 10 {
        lemma_digit_value(n);
        assert(decimal(n).drop_last() =~= Seq::<char>::empty());
        assert(decimal(n).last() == digit_char(n));
        assert(digits_value(decimal(n)) == digits_value(Seq::<char>::empty()) * 10 + (digit_char(n) as nat - '0' as nat) as nat);
    } else {
        lemma_decimal_value(n / 10);
        lemma_digit_value(n % 10);
        assert(decimal(n).drop_last() =~= decimal(n / 10));
        assert(decimal(n).last() == digit_char(n % 10));
        assert(digits_value(decimal(n)) == digits_value(decimal(n / 10)) * 10 + (digit_char(n % 10) as nat - '0' as nat) as nat);
        assert((n / 10) * 10 + n % 10 == n);
    }
}

/// Different addresses have differently named blocks, and none is called `entry`.
pub proof fn lemma_block_names_distinct(a: u64, b: u64)
    ensures
        a != b ==> block_name(a) != block_name(b),
        block_name(a) != "entry"@,
{
    reveal_strlit("block_");
    reveal_strlit("entry");
    if a != b && block_name(a) == block_name(b) {
        assert(block_name(a).skip(6) =~= decimal(a as nat));
        assert(block_name(b).skip(6) =~= decimal(b as nat));
        lemma_decimal_value(a as nat);
        lemma_decimal_value(b as nat);
    }
    assert(block_name(a)[0] == 'b');
}

/// Each block is named after the address it starts at: the blocks after the entry block are
/// called `block_` and the address in decimal, in ascending order of address.
pub proof fn law_block_names(insts: Seq<Instruction>)
    ensures
        initial_state(insts).r.names == seq!["entry"@] + ascending(checkpoint_set(insts)).map_values(
            |a: u64| block_name(a),
        ),
{
    let cps = checkpoint_set(insts);
    lemma_checkpoint_set_finite(insts);
    lemma_ascending_members(cps);
    lemma_names_after_plain(ascending(cps), ascending(cps).len());
    assert(ascending(cps).take(ascending(cps).len() as int) =~= ascending(cps));
}

/// The block starts of code are finitely many.
proof fn lemma_checkpoint_set_finite(insts: Seq<Instruction>)
    ensures
        checkpoint_set(insts).finite(),
    decreases insts.len(),
{
    if insts.len() > 0 {
        lemma_checkpoint_set_finite(insts.drop_last());
    }
}

/// Creating blocks for strictly increasing addresses after the entry block gives each its
/// plain name.
proof fn lemma_names_after_plain(addrs: Seq<u64>, i: nat)
    requires
        strictly_increasing(addrs),
        i <= addrs.len(),
    ensures
        names_after(seq!["entry"@], addrs.take(i as int)) == seq!["entry"@] + addrs.take(
            i as int,
        ).map_values(|a: u64| block_name(a)),
    decreases i,
{
    if i > 0 {
        lemma_names_after_plain(addrs, (i - 1) as nat);
        let prev_addrs = addrs.take(i - 1);
        let prev = names_after(seq!["entry"@], prev_addrs);
        let a = addrs[i - 1];
        assert(addrs.take(i as int).drop_last() =~= prev_addrs);
        assert(addrs.take(i as int).last() == a);
        assert forall|j: int| 0 <= j < prev_addrs.len() implies #[trigger] prev_addrs[j] != a by {
            assert(prev_addrs[j] == addrs[j]);
        }
        lemma_name_count_zero(prev_addrs, a);
        assert(fresh_name(prev, block_name(a)) == block_name(a));
        assert(seq!["entry"@] + addrs.take(i as int).map_values(|x: u64| block_name(x)) =~= (
        seq!["entry"@] + prev_addrs.map_values(|x: u64| block_name(x))).push(block_name(a)));
    } else {
        assert(addrs.take(0) =~= Seq::<u64>::empty());
        assert(seq!["entry"@] + Seq::<u64>::empty().map_values(|x: u64| block_name(x)) =~= seq![
            "entry"@,
        ]);
    }
}

/// No block named after an address below `a` is called like the block for `a`, and neither is
/// the entry block.
proof fn lemma_name_count_zero(prev: Seq<u64>, a: u64)
    requires
        forall|j: int| 0 <= j < prev.len() ==> #[trigger] prev[j] != a,
    ensures
        name_count(seq!["entry"@] + prev.map_values(|x: u64| block_name(x)), block_name(a)) == 0,
    decreases prev.len(),
{
    let names = seq!["entry"@] + prev.map_values(|x: u64| block_name(x));
    if prev.len() == 0 {
        lemma_block_names_distinct(a, a);
        assert(names =~= seq!["entry"@]);
        assert(names.drop_last() =~= Seq::<Seq<char>>::empty());
        assert(name_count(names.drop_last(), block_name(a)) == 0);
        assert(names.last() != block_name(a));
        assert(name_count(names, block_name(a)) == name_count(names.drop_last(), block_name(a))
            + if names.last() == block_name(a) {
            1nat
        } else {
            0nat
        });
    } else {
        let p = prev.drop_last();
        assert forall|j: int| 0 <= j < p.len() implies #[trigger] p[j] != a by {
            assert(p[j] == prev[j]);
        }
        lemma_name_count_zero(p, a);
        assert(prev[prev.len() - 1] != a);
        assert(names.drop_last() =~= seq!["entry"@] + p.map_values(|x: u64| block_name(x)));
        lemma_block_names_distinct(prev.last(), a);
        assert(names.last() == block_name(prev.last()));
        assert(names.len() > 0);
        assert(name_count(names, block_name(a)) == name_count(names.drop_last(), block_name(a))
            + if names.last() == block_name(a) {
            1nat
        } else {
            0nat
        });
    }
}

} // verus!
