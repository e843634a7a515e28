//! One tip: a bounded sub-record of the jar's history.

use vstd::prelude::*;

verus! {

/// Whether a stored tip may be shown with its sender, or must be
/// presented without it.
#[derive(Clone, Copy, PartialEq, Eq, Structural, Debug)]
pub enum Visibility {
    /// The tip is publicly visible with its sender.
    Public,
    /// The sender of the tip is hidden.
    Anonymous,
}

/// One tip as held in a record's history: an immutable sender
/// identity, a positive amount in lamports, a visibility choice, a
/// bounded memo text (UTF-8 bytes) and a caller-supplied timestamp.
#[derive(Clone, Debug, PartialEq, Eq)]
pub struct Tip {
    /// The 32-byte identity of the sender.
    pub sender: [u8; 32],
    /// Amount sent, in lamports; positive by construction.
    pub amount: u64,
    /// Whether the tip is shown with its sender.
    pub visibility: Visibility,
    /// Memo text, bounded by the record's declared maximum.
    pub memo: Vec<u8>,
    /// Unix timestamp supplied by the caller; not validated here.
    pub timestamp: u64,
}

/// The mathematical value of one tip.
#[verifier::ext_equal]
pub struct TipValue {
    pub sender: Seq<u8>,
    pub amount: u64,
    pub visibility: Visibility,
    pub memo: Seq<u8>,
    pub timestamp: u64,
}

impl View for Tip {
    type V = TipValue;

    open spec fn view(&self) -> TipValue {
        TipValue {
            sender: self.sender@,
            amount: self.amount,
            visibility: self.visibility,
            memo: self.memo@,
            timestamp: self.timestamp,
        }
    }
}

/// The mathematical values of a sequence of tips, in the same order.
pub open spec fn tip_views(tips: Seq<Tip>) -> Seq<TipValue> {
    tips.map_values(|t: Tip| t@)
}

impl TipValue {
    /// A tip the ledger may hold: a positive amount and a memo within
    /// the declared maximum.
    pub open spec fn valid(self, max_memo_len: int) -> bool {
        &&& self.sender.len() == 32
        &&& self.amount >= 1
        &&& self.memo.len() <= max_memo_len
    }
}

impl Tip {
    /// Worst-case serialized size in bytes of one tip under the
    /// recommended default memo bound.
    pub const SIZE: usize = 32 + 8 + 1 + (4 + 100) + 8;

    /// An owned copy of this tip, equal to it value for value.
    pub fn duplicate(&self) -> (copy: Tip)
        ensures
            copy@ == self@,
    {
        let mut memo: Vec<u8> = Vec::new();
        let mut i: usize = 0;
        while i < self.memo.len()
            invariant
                i <= self.memo.len(),
                memo@ == self.memo@.take(i as int),
            decreases self.memo.len() - i,
        {
            memo.push(self.memo[i]);
            proof {
                assert(memo@ =~= self.memo@.take(i + 1));
            }
            i += 1;
        }
        proof {
            assert(memo@ =~= self.memo@);
        }
        let copy = Tip {
            sender: self.sender,
            amount: self.amount,
            visibility: self.visibility,
            memo,
            timestamp: self.timestamp,
        };
        proof {
            assert(copy@ =~= self@);
        }
        copy
    }
}

} // verus!
