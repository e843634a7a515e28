//! Laws of the circular ledger over whole sequences of appends: the
//! lifetime totals are exact sums, and once the history has wrapped it
//! holds exactly the newest tips, in order.

use vstd::prelude::*;

use crate::jar::JarValue;
use crate::tip::TipValue;

verus! {

/// The record after a whole sequence of successful appends, first tip
/// first.
pub open spec fn apply_tips(jar: JarValue, tips: Seq<TipValue>) -> JarValue
    decreases tips.len(),
{
    if tips.len() == 0 {
        jar
    } else {
        apply_tips(jar, tips.drop_last()).with_tip(tips.last())
    }
}

/// The sum of the amounts of a sequence of tips.
pub open spec fn sum_amounts(tips: Seq<TipValue>) -> int
    decreases tips.len(),
{
    if tips.len() == 0 {
        0
    } else {
        sum_amounts(tips.drop_last()) + tips.last().amount
    }
}

/// Every tip of the sequence is one the ledger may hold.
pub open spec fn all_valid(tips: Seq<TipValue>, max_memo_len: int) -> bool {
    forall|i: int| 0 <= i < tips.len() ==> (#[trigger] tips[i]).valid(max_memo_len)
}

/// The amounts of valid tips only add up.
proof fn lemma_sum_amounts_bounds(tips: Seq<TipValue>, max_memo_len: int)
    requires
        all_valid(tips, max_memo_len),
    ensures
        sum_amounts(tips) >= tips.len(),
        tips.len() > 0 ==> sum_amounts(tips.drop_last()) + tips.last().amount == sum_amounts(tips),
    decreases tips.len(),
{
    if tips.len() == 0 {
    } else {
        assert(tips[tips.len() - 1].valid(max_memo_len));
        assert(all_valid(tips.drop_last(), max_memo_len)) by {
            assert(forall|i: int|
                0 <= i < tips.drop_last().len() ==> tips.drop_last()[i] == #[trigger] tips[i]);
        }
        lemma_sum_amounts_bounds(tips.drop_last(), max_memo_len);
    }
}

/// One successful append preserves the record's invariant and moves
/// both running totals up by exactly the tip.
pub proof fn lemma_with_tip_wf(jar: JarValue, tip: TipValue)
    requires
        jar.wf(),
        tip.valid(jar.limits.max_memo_len as int),
        jar.can_record(tip.amount, tip.memo),
    ensures
        jar.with_tip(tip).wf(),
        jar.with_tip(tip).total_received == jar.total_received + tip.amount,
        jar.with_tip(tip).total_tips_count == jar.total_tips_count + 1,
        jar.with_tip(tip).limits == jar.limits,
{
    let updated = jar.with_tip(tip);
    let capacity = jar.limits.max_history_len as int;
    assert((jar.total_tips_count + 1) % capacity == (jar.last_tip_index + 1) % capacity) by {
        crate::jar::lemma_mod_succ(jar.total_tips_count as int, capacity);
    }
    vstd::arithmetic::div_mod::lemma_mod_bound(jar.total_tips_count + 1, capacity);
    assert forall|i: int| 0 <= i < updated.tips.len() implies (#[trigger] updated.tips[i]).valid(
        updated.limits.max_memo_len as int,
    ) by {
        if updated.tips[i] != tip {
            assert(updated.tips[i] == jar.tips[i]);
        }
    }
}

/// Monotonic totals: after any sequence of successful appends the
/// lifetime total equals the record's old total plus the exact sum of
/// the appended amounts, and the lifetime count grows by exactly their
/// number — independent of how many tips the history evicted.
pub proof fn lemma_totals_are_exact_sums(jar: JarValue, tips: Seq<TipValue>)
    requires
        jar.wf(),
        all_valid(tips, jar.limits.max_memo_len as int),
        jar.total_received + sum_amounts(tips) <= u64::MAX,
        jar.total_tips_count + tips.len() <= u32::MAX,
    ensures
        apply_tips(jar, tips).wf(),
        apply_tips(jar, tips).total_received == jar.total_received + sum_amounts(tips),
        apply_tips(jar, tips).total_tips_count == jar.total_tips_count + tips.len(),
        apply_tips(jar, tips).limits == jar.limits,
    decreases tips.len(),
{
    if tips.len() == 0 {
    } else {
        let head = tips.drop_last();
        let tip = tips.last();
        assert(all_valid(head, jar.limits.max_memo_len as int)) by {
            assert(forall|i: int| 0 <= i < head.len() ==> head[i] == #[trigger] tips[i]);
        }
        lemma_sum_amounts_bounds(tips, jar.limits.max_memo_len as int);
        lemma_sum_amounts_bounds(head, jar.limits.max_memo_len as int);
        lemma_totals_are_exact_sums(jar, head);
        assert(tips[tips.len() - 1].valid(jar.limits.max_memo_len as int));
        lemma_with_tip_wf(apply_tips(jar, head), tip);
    }
}

/// One successful append, seen in chronological order: the new tip
/// goes to the end, and the oldest tip falls out exactly when the
/// history was already full.
pub proof fn lemma_with_tip_chronological(jar: JarValue, tip: TipValue)
    requires
        jar.wf(),
        tip.valid(jar.limits.max_memo_len as int),
        jar.can_record(tip.amount, tip.memo),
    ensures
        jar.full() ==> jar.with_tip(tip).chronological() == jar.chronological().skip(1).push(tip),
        !jar.full() ==> jar.with_tip(tip).chronological() == jar.chronological().push(tip),
{
    let updated = jar.with_tip(tip);
    let capacity = jar.limits.max_history_len as int;
    let cursor = jar.last_tip_index as int;
    crate::jar::lemma_mod_succ(jar.total_tips_count as int, capacity);
    vstd::arithmetic::div_mod::lemma_mod_bound(jar.total_tips_count + 1, capacity);
    if jar.full() {
        // The history stays full: the slot at the cursor is
        // overwritten and the cursor moves one slot on.
        let new_cursor = updated.last_tip_index as int;
        if cursor == capacity - 1 {
            assert(new_cursor == 0) by {
                vstd::arithmetic::div_mod::lemma_mod_self_0(capacity);
            }
            assert(updated.chronological() =~= jar.chronological().skip(1).push(tip));
        } else {
            assert(new_cursor == cursor + 1) by {
                vstd::arithmetic::div_mod::lemma_small_mod(
                    (cursor + 1) as nat,
                    capacity as nat,
                );
            }
            assert(updated.chronological() =~= jar.chronological().skip(1).push(tip));
        }
    } else {
        // The history still grows: the tip takes the first free slot.
        // When it fills the last one, the cursor wraps to the front.
        if jar.total_tips_count + 1 == capacity {
            assert(updated.last_tip_index == 0) by {
                vstd::arithmetic::div_mod::lemma_mod_self_0(capacity);
            }
        } else {
            assert(updated.last_tip_index == jar.total_tips_count + 1) by {
                vstd::arithmetic::div_mod::lemma_small_mod(
                    (jar.total_tips_count + 1) as nat,
                    capacity as nat,
                );
            }
        }
        assert(updated.chronological() =~= jar.chronological().push(tip));
    }
}

/// Circular overwrite: appending at least as many tips as the history
/// holds to a fresh record leaves exactly the newest
/// `max_history_len` of them, in chronological order, while the
/// lifetime count keeps counting every append. Fewer appends than the
/// capacity keep all of them, in order.
pub proof fn lemma_chronological_keeps_newest(jar: JarValue, tips: Seq<TipValue>)
    requires
        jar.wf(),
        jar.total_tips_count == 0,
        jar.tips.len() == 0,
        all_valid(tips, jar.limits.max_memo_len as int),
        jar.total_received + sum_amounts(tips) <= u64::MAX,
        tips.len() <= u32::MAX,
    ensures
        apply_tips(jar, tips).total_tips_count == tips.len(),
        tips.len() >= jar.limits.max_history_len ==> apply_tips(jar, tips).chronological()
            == tips.subrange(tips.len() - jar.limits.max_history_len, tips.len() as int),
        tips.len() < jar.limits.max_history_len ==> apply_tips(jar, tips).chronological() == tips,
    decreases tips.len(),
{
    let capacity = jar.limits.max_history_len as int;
    lemma_totals_are_exact_sums(jar, tips);
    if tips.len() == 0 {
        assert(apply_tips(jar, tips).chronological() =~= tips);
    } else {
        let head = tips.drop_last();
        let tip = tips.last();
        assert(all_valid(head, jar.limits.max_memo_len as int)) by {
            assert(forall|i: int| 0 <= i < head.len() ==> head[i] == #[trigger] tips[i]);
        }
        lemma_sum_amounts_bounds(tips, jar.limits.max_memo_len as int);
        lemma_sum_amounts_bounds(head, jar.limits.max_memo_len as int);
        lemma_chronological_keeps_newest(jar, head);
        lemma_totals_are_exact_sums(jar, head);
        let before = apply_tips(jar, head);
        assert(tips[tips.len() - 1].valid(jar.limits.max_memo_len as int));
        lemma_with_tip_chronological(before, tip);
        if head.len() >= capacity {
            // Already wrapped: the oldest kept tip falls out.
            assert(before.chronological() == head.subrange(head.len() - capacity, head.len() as int));
            assert(apply_tips(jar, tips).chronological() =~= tips.subrange(
                tips.len() - capacity,
                tips.len() as int,
            ));
        } else if head.len() == capacity - 1 {
            // This append fills the last free slot.
            assert(before.chronological() == head);
            assert(apply_tips(jar, tips).chronological() =~= tips.subrange(
                tips.len() - capacity,
                tips.len() as int,
            ));
        } else {
            // Still room: everything appended so far is kept.
            assert(before.chronological() == head);
            assert(apply_tips(jar, tips).chronological() =~= tips);
        }
    }
}

} // verus!
