//! Serialization of a record into its pre-allocated byte region, and
//! the proof that the region's budget is never exceeded: the
//! worst-case record fills it exactly, every other record fits below
//! it.

use vstd::prelude::*;

use crate::jar::{JarValue, TipJar};
use crate::layout::{
    spec_layout_size, spec_tip_size, DISCRIMINATOR_SIZE, TIP_FIXED_SIZE,
};
use crate::tip::{Tip, TipValue, Visibility};

verus! {

/// The byte a flag serializes to.
pub open spec fn bool_byte(b: bool) -> u8 {
    if b {
        1
    } else {
        0
    }
}

/// The tag byte of a visibility choice.
pub open spec fn visibility_tag(v: Visibility) -> u8 {
    match v {
        Visibility::Public => 0,
        Visibility::Anonymous => 1,
    }
}

/// The two little-endian bytes of a value below 2^16.
pub open spec fn le_bytes2(v: int) -> Seq<u8> {
    seq![(v % 256) as u8, ((v / 256) % 256) as u8]
}

/// The four little-endian bytes of a value below 2^32.
pub open spec fn le_bytes4(v: int) -> Seq<u8> {
    seq![
        (v % 256) as u8,
        ((v / 256) % 256) as u8,
        ((v / 0x1_0000) % 256) as u8,
        ((v / 0x100_0000) % 256) as u8,
    ]
}

/// The eight little-endian bytes of a value below 2^64.
pub open spec fn le_bytes8(v: int) -> Seq<u8> {
    seq![
        (v % 256) as u8,
        ((v / 256) % 256) as u8,
        ((v / 0x1_0000) % 256) as u8,
        ((v / 0x100_0000) % 256) as u8,
        ((v / 0x1_0000_0000) % 256) as u8,
        ((v / 0x100_0000_0000) % 256) as u8,
        ((v / 0x1_0000_0000_0000) % 256) as u8,
        ((v / 0x100_0000_0000_0000) % 256) as u8,
    ]
}

/// One tip's serialized bytes: sender, amount, visibility tag, memo
/// length prefix, memo, timestamp.
pub open spec fn spec_serialize_tip(tip: TipValue) -> Seq<u8> {
    tip.sender + le_bytes8(tip.amount as int) + seq![visibility_tag(tip.visibility)] + le_bytes4(
        tip.memo.len() as int,
    ) + tip.memo + le_bytes8(tip.timestamp as int)
}

/// The concatenated serialized bytes of a sequence of tips.
pub open spec fn spec_serialize_tips(tips: Seq<TipValue>) -> Seq<u8>
    decreases tips.len(),
{
    if tips.len() == 0 {
        Seq::empty()
    } else {
        spec_serialize_tips(tips.drop_last()) + spec_serialize_tip(tips.last())
    }
}

/// A record's serialized bytes, in field order: the two flags, the
/// owner, each text with its length prefix, goal, lifetime total, the
/// history with its count prefix, the cursor, the lifetime count and
/// the bump byte.
pub open spec fn spec_serialize_jar(jar: JarValue) -> Seq<u8> {
    seq![bool_byte(jar.is_active), bool_byte(jar.is_private)] + jar.owner + le_bytes4(
        jar.description.len() as int,
    ) + jar.description + le_bytes4(jar.category.len() as int) + jar.category + le_bytes8(
        jar.goal as int,
    ) + le_bytes8(jar.total_received as int) + le_bytes4(jar.tips.len() as int)
        + spec_serialize_tips(jar.tips) + le_bytes2(jar.last_tip_index as int) + le_bytes4(
        jar.total_tips_count as int,
    ) + seq![jar.bump]
}

/// Serializing one more tip appends its bytes after the others'.
pub proof fn lemma_serialize_tips_push(tips: Seq<TipValue>, tip: TipValue)
    ensures
        spec_serialize_tips(tips.push(tip)) == spec_serialize_tips(tips) + spec_serialize_tip(tip),
{
    assert(tips.push(tip).drop_last() =~= tips);
    assert(tips.push(tip).last() == tip);
}

/// One tip's serialized size: its fixed fields plus its memo.
pub proof fn lemma_serialize_tip_len(tip: TipValue)
    requires
        tip.sender.len() == 32,
    ensures
        spec_serialize_tip(tip).len() == TIP_FIXED_SIZE + tip.memo.len(),
{
}

/// The serialized history of valid tips never exceeds its count of
/// worst-case tips, and fills it exactly when every memo is at the
/// maximum.
pub proof fn lemma_serialize_tips_len(tips: Seq<TipValue>, max_memo_len: int)
    requires
        forall|i: int|
            0 <= i < tips.len() ==> (#[trigger] tips[i]).valid(max_memo_len),
    ensures
        spec_serialize_tips(tips).len() <= tips.len() * spec_tip_size(max_memo_len),
        (forall|i: int| 0 <= i < tips.len() ==> (#[trigger] tips[i]).memo.len() == max_memo_len)
            ==> spec_serialize_tips(tips).len() == tips.len() * spec_tip_size(max_memo_len),
    decreases tips.len(),
{
    if tips.len() == 0 {
    } else {
        assert(tips[tips.len() - 1].valid(max_memo_len));
        lemma_serialize_tip_len(tips.last());
        assert(forall|i: int|
            0 <= i < tips.drop_last().len() ==> (#[trigger] tips.drop_last()[i]).valid(
                max_memo_len,
            ));
        lemma_serialize_tips_len(tips.drop_last(), max_memo_len);
        assert((tips.len() as int) * spec_tip_size(max_memo_len) == (tips.len() - 1)
            * spec_tip_size(max_memo_len) + spec_tip_size(max_memo_len)) by (nonlinear_arith);
        if forall|i: int|
            0 <= i < tips.len() ==> (#[trigger] tips[i]).memo.len() == max_memo_len {
            assert(forall|i: int|
                0 <= i < tips.drop_last().len() ==> (#[trigger] tips.drop_last()[i]).memo.len()
                    == max_memo_len);
        }
    }
}

/// Capacity ceiling, one half: a well-formed record's serialized
/// bytes, together with the record-format tag, never exceed the
/// layout calculator's budget.
pub proof fn lemma_serialized_size_within_layout(jar: JarValue)
    requires
        jar.wf(),
    ensures
        DISCRIMINATOR_SIZE + spec_serialize_jar(jar).len() <= spec_layout_size(jar.limits),
{
    lemma_serialize_tips_len(jar.tips, jar.limits.max_memo_len as int);
    vstd::arithmetic::mul::lemma_mul_inequality(
        jar.tips.len() as int,
        jar.limits.max_history_len as int,
        spec_tip_size(jar.limits.max_memo_len as int),
    );
}

/// Capacity ceiling, other half: a record with every text field at its
/// maximum length and the history full of maximal tips fills the
/// layout calculator's budget exactly.
#[verifier::rlimit(100)]
pub proof fn lemma_serialized_size_exact_at_max(jar: JarValue)
    requires
        jar.wf(),
        jar.description.len() == jar.limits.max_description_len,
        jar.category.len() == jar.limits.max_category_len,
        jar.tips.len() == jar.limits.max_history_len,
        forall|i: int|
            0 <= i < jar.tips.len() ==> (#[trigger] jar.tips[i]).memo.len()
                == jar.limits.max_memo_len,
    ensures
        DISCRIMINATOR_SIZE + spec_serialize_jar(jar).len() == spec_layout_size(jar.limits),
{
    lemma_serialize_tips_len(jar.tips, jar.limits.max_memo_len as int);
}

/// Appends two little-endian bytes.
fn push_le2(out: &mut Vec<u8>, v: u16)
    ensures
        final(out)@ == old(out)@ + le_bytes2(v as int),
{
    out.push((v % 256) as u8);
    out.push(((v / 256) % 256) as u8);
    proof {
        assert(out@ =~= old(out)@ + le_bytes2(v as int));
    }
}

/// Appends four little-endian bytes.
fn push_le4(out: &mut Vec<u8>, v: u32)
    ensures
        final(out)@ == old(out)@ + le_bytes4(v as int),
{
    out.push((v % 256) as u8);
    out.push(((v / 256) % 256) as u8);
    out.push(((v / 0x1_0000) % 256) as u8);
    out.push(((v / 0x100_0000) % 256) as u8);
    proof {
        assert(out@ =~= old(out)@ + le_bytes4(v as int));
    }
}

/// Appends eight little-endian bytes.
fn push_le8(out: &mut Vec<u8>, v: u64)
    ensures
        final(out)@ == old(out)@ + le_bytes8(v as int),
{
    out.push((v % 256) as u8);
    out.push(((v / 256) % 256) as u8);
    out.push(((v / 0x1_0000) % 256) as u8);
    out.push(((v / 0x100_0000) % 256) as u8);
    out.push(((v / 0x1_0000_0000) % 256) as u8);
    out.push(((v / 0x100_0000_0000) % 256) as u8);
    out.push(((v / 0x1_0000_0000_0000) % 256) as u8);
    out.push(((v / 0x100_0000_0000_0000) % 256) as u8);
    proof {
        assert(out@ =~= old(out)@ + le_bytes8(v as int));
    }
}

/// Appends a run of bytes unchanged.
fn push_bytes(out: &mut Vec<u8>, data: &[u8])
    ensures
        final(out)@ == old(out)@ + data@,
{
    let mut i: usize = 0;
    while i < data.len()
        invariant
            i <= data.len(),
            out@ == old(out)@ + data@.take(i as int),
        decreases data.len() - i,
    {
        out.push(data[i]);
        proof {
            assert(out@ =~= old(out)@ + data@.take(i + 1));
        }
        i += 1;
    }
    proof {
        assert(old(out)@ + data@.take(data@.len() as int) =~= old(out)@ + data@);
    }
}

/// Appends one tip's serialized bytes.
fn push_tip(out: &mut Vec<u8>, tip: &Tip)
    requires
        tip@.memo.len() <= u32::MAX,
    ensures
        final(out)@ == old(out)@ + spec_serialize_tip(tip@),
{
    push_bytes(out, tip.sender.as_slice());
    push_le8(out, tip.amount);
    out.push(
        match tip.visibility {
            Visibility::Public => 0,
            Visibility::Anonymous => 1,
        },
    );
    push_le4(out, tip.memo.len() as u32);
    push_bytes(out, tip.memo.as_slice());
    push_le8(out, tip.timestamp);
    proof {
        assert(out@ =~= old(out)@ + spec_serialize_tip(tip@));
    }
}

impl TipJar {
    /// The record's bytes for its storage region, laid out after the
    /// record-format tag. Together with the tag they never exceed the
    /// budget the layout calculator gave for this record's maxima.
    pub fn serialize(&self) -> (bytes: Vec<u8>)
        requires
            self.wf(),
        ensures
            bytes@ == spec_serialize_jar(self@),
            DISCRIMINATOR_SIZE + bytes@.len() <= spec_layout_size(self@.limits),
    {
        let mut out: Vec<u8> = Vec::new();
        out.push(if self.is_active { 1 } else { 0 });
        out.push(if self.is_private { 1 } else { 0 });
        push_bytes(&mut out, self.owner.as_slice());
        push_le4(&mut out, self.description.len() as u32);
        push_bytes(&mut out, self.description.as_slice());
        push_le4(&mut out, self.category.len() as u32);
        push_bytes(&mut out, self.category.as_slice());
        push_le8(&mut out, self.goal);
        push_le8(&mut out, self.total_received);
        push_le4(&mut out, self.tips_history.len() as u32);
        let ghost head = out@;
        let mut i: usize = 0;
        while i < self.tips_history.len()
            invariant
                self.wf(),
                i <= self.tips_history.len(),
                out@ == head + spec_serialize_tips(self@.tips.take(i as int)),
            decreases self.tips_history.len() - i,
        {
            proof {
                assert(self@.tips[i as int].valid(self@.limits.max_memo_len as int));
            }
            push_tip(&mut out, &self.tips_history[i]);
            proof {
                assert(self@.tips.take(i + 1) =~= self@.tips.take(i as int).push(
                    self@.tips[i as int],
                ));
                lemma_serialize_tips_push(self@.tips.take(i as int), self@.tips[i as int]);
                assert(out@ =~= head + spec_serialize_tips(self@.tips.take(i + 1)));
            }
            i += 1;
        }
        proof {
            assert(self@.tips.take(self.tips_history@.len() as int) =~= self@.tips);
        }
        push_le2(&mut out, self.last_tip_index);
        push_le4(&mut out, self.total_tips_count);
        out.push(self.bump);
        proof {
            assert(out@ =~= spec_serialize_jar(self@));
            lemma_serialized_size_within_layout(self@);
        }
        out
    }
}

} // verus!
