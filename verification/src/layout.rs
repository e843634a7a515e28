//! The layout calculator: maps the declared maxima of a record's
//! variable-length fields to the exact worst-case byte budget of its
//! storage region.

use vstd::prelude::*;

verus! {

/// Bytes of the record-format tag that precedes the record in its
/// storage region, used by the host for type discrimination.
pub const DISCRIMINATOR_SIZE: usize = 8;

/// Bytes of the fixed-width record fields: the two flag bytes, the
/// 32-byte owner identity, goal and lifetime total (8 each), the bump
/// byte, the 2-byte cursor and the 4-byte lifetime counter.
pub const STATIC_SIZE: usize = 1 + 1 + 32 + 8 + 8 + 1 + 2 + 4;

/// Bytes of one stored tip besides its memo text: the 32-byte sender,
/// the amount (8), the visibility tag (1), the memo length prefix (4)
/// and the timestamp (8).
pub const TIP_FIXED_SIZE: usize = 32 + 8 + 1 + 4 + 8;

/// The declared maxima of one record: byte bounds for its text fields
/// and the capacity of its tip history. Chosen once, before the
/// record's storage region is allocated, and never changed afterwards.
#[derive(Clone, Copy, PartialEq, Eq, Structural, Debug)]
pub struct Limits {
    /// Greatest byte length the description may have.
    pub max_description_len: usize,
    /// Greatest byte length the category may have.
    pub max_category_len: usize,
    /// Number of slots in the tip history.
    pub max_history_len: usize,
    /// Greatest byte length a tip's memo may have.
    pub max_memo_len: usize,
}

/// Worst-case serialized size of one tip whose memo may hold up to
/// `max_memo_len` bytes.
pub open spec fn spec_tip_size(max_memo_len: int) -> int {
    TIP_FIXED_SIZE + max_memo_len
}

/// The byte budget of a record's storage region: the record-format
/// tag, the fixed-width fields, each text field's length prefix plus
/// its maximum content, and the history's length prefix plus
/// `max_history_len` worst-case tips.
pub open spec fn spec_layout_size(limits: Limits) -> int {
    DISCRIMINATOR_SIZE + STATIC_SIZE + (4 + limits.max_description_len) + (4
        + limits.max_category_len) + (4 + limits.max_history_len * spec_tip_size(
        limits.max_memo_len as int,
    ))
}

impl Limits {
    /// Valid constant choices: the history holds at least one slot and
    /// its cursor fits the 2-byte field, each text bound fits its
    /// 4-byte length prefix, and the whole budget fits the machine.
    pub open spec fn wf(self) -> bool {
        &&& 1 <= self.max_history_len <= u16::MAX
        &&& self.max_description_len <= u32::MAX
        &&& self.max_category_len <= u32::MAX
        &&& self.max_memo_len <= u32::MAX
        &&& spec_layout_size(self) <= usize::MAX
    }

    /// Decides `wf` at run time, so a host can validate its chosen
    /// constants before allocating anything.
    pub fn check(&self) -> (ok: bool)
        ensures
            ok == self.wf(),
    {
        if self.max_history_len < 1 || self.max_history_len > u16::MAX as usize {
            return false;
        }
        if self.max_description_len as u64 > u32::MAX as u64 || self.max_category_len as u64
            > u32::MAX as u64 || self.max_memo_len as u64 > u32::MAX as u64 {
            return false;
        }
        let tip_size: u64 = TIP_FIXED_SIZE as u64 + self.max_memo_len as u64;
        proof {
            vstd::arithmetic::mul::lemma_mul_upper_bound(
                self.max_history_len as int,
                0xffff,
                tip_size as int,
                53 + 0xffff_ffffint,
            );
        }
        let history_size: u64 = self.max_history_len as u64 * tip_size;
        let total: u64 = DISCRIMINATOR_SIZE as u64 + STATIC_SIZE as u64 + 4 + self
            .max_description_len as u64 + 4 + self.max_category_len as u64 + 4 + history_size;
        total <= usize::MAX as u64
    }
}

/// The total byte budget for one record under the given maxima: the
/// immutable ceiling the host must allocate, exactly once, before the
/// record exists.
pub fn layout_size(limits: &Limits) -> (size: usize)
    requires
        limits.wf(),
    ensures
        size == spec_layout_size(*limits),
{
    let tip_size: u64 = TIP_FIXED_SIZE as u64 + limits.max_memo_len as u64;
    proof {
        vstd::arithmetic::mul::lemma_mul_upper_bound(
            limits.max_history_len as int,
            0xffff,
            tip_size as int,
            53 + 0xffff_ffffint,
        );
    }
    let history_size: u64 = limits.max_history_len as u64 * tip_size;
    let total: u64 = DISCRIMINATOR_SIZE as u64 + STATIC_SIZE as u64 + 4 + limits
        .max_description_len as u64 + 4 + limits.max_category_len as u64 + 4 + history_size;
    total as usize
}

} // verus!
