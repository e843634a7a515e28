//! The jar record: scalar metadata plus a fixed-capacity circular
//! history of tips and an unbounded lifetime counter.

use vstd::prelude::*;

use crate::errors::JarError;
use crate::layout::{
    layout_size, spec_layout_size, spec_tip_size, Limits, DISCRIMINATOR_SIZE, STATIC_SIZE,
};
use crate::tip::{tip_views, Tip, TipValue, Visibility};

verus! {

/// The jar record. The host allocates `layout_size(limits)` bytes for
/// it once, and every mutation below keeps the record within that
/// budget.
#[derive(Debug)]
pub struct TipJar {
    /// Whether tips can currently be sent to this jar.
    pub is_active: bool,
    /// Whether this jar is private (only its owner may send tips;
    /// enforced by the host, not here).
    pub is_private: bool,
    /// The 32-byte identity that owns this jar; set at creation and
    /// immutable thereafter.
    pub owner: [u8; 32],
    /// What this jar is for (UTF-8 bytes, bounded).
    pub description: Vec<u8>,
    /// Category tag (UTF-8 bytes, bounded).
    pub category: Vec<u8>,
    /// Fundraising goal in lamports.
    pub goal: u64,
    /// Lifetime total of lamports received; only ever increases.
    pub total_received: u64,
    /// The circular history: at most `limits.max_history_len` tips.
    pub tips_history: Vec<Tip>,
    /// Next slot of the history to overwrite.
    pub last_tip_index: u16,
    /// Tips ever appended, not bounded by the history's capacity.
    pub total_tips_count: u32,
    /// Bump byte the host uses to derive the record's address.
    pub bump: u8,
    /// The declared maxima this record was allocated under.
    pub limits: Limits,
}

/// The mathematical value of a jar record.
#[verifier::ext_equal]
pub struct JarValue {
    pub is_active: bool,
    pub is_private: bool,
    pub owner: Seq<u8>,
    pub description: Seq<u8>,
    pub category: Seq<u8>,
    pub goal: u64,
    pub total_received: u64,
    pub tips: Seq<TipValue>,
    pub last_tip_index: u16,
    pub total_tips_count: u32,
    pub bump: u8,
    pub limits: Limits,
}

impl View for TipJar {
    type V = JarValue;

    open spec fn view(&self) -> JarValue {
        JarValue {
            is_active: self.is_active,
            is_private: self.is_private,
            owner: self.owner@,
            description: self.description@,
            category: self.category@,
            goal: self.goal,
            total_received: self.total_received,
            tips: tip_views(self.tips_history@),
            last_tip_index: self.last_tip_index,
            total_tips_count: self.total_tips_count,
            bump: self.bump,
            limits: self.limits,
        }
    }
}

impl JarValue {
    /// The record's invariant: the maxima are valid, every text field
    /// is within its bound, the history holds exactly
    /// `min(total_tips_count, max_history_len)` tips, each of them
    /// valid, and the cursor is where `total_tips_count` appends leave
    /// it.
    pub open spec fn wf(self) -> bool {
        &&& self.limits.wf()
        &&& self.owner.len() == 32
        &&& self.description.len() <= self.limits.max_description_len
        &&& self.category.len() <= self.limits.max_category_len
        &&& self.tips.len() == if self.total_tips_count < self.limits.max_history_len {
            self.total_tips_count as int
        } else {
            self.limits.max_history_len as int
        }
        &&& self.last_tip_index == self.total_tips_count as int % self.limits.max_history_len as int
        &&& forall|i: int|
            0 <= i < self.tips.len() ==> (#[trigger] self.tips[i]).valid(
                self.limits.max_memo_len as int,
            )
    }

    /// Whether the history has been filled at least once.
    pub open spec fn full(self) -> bool {
        self.total_tips_count >= self.limits.max_history_len
    }

    /// The currently held tips in chronological order, oldest kept
    /// first: once the history has wrapped, the slots from the cursor
    /// on are older than the slots before it.
    pub open spec fn chronological(self) -> Seq<TipValue> {
        if self.full() {
            self.tips.subrange(self.last_tip_index as int, self.tips.len() as int)
                + self.tips.subrange(0, self.last_tip_index as int)
        } else {
            self.tips
        }
    }

    /// Whether one more tip of this amount and memo can be recorded:
    /// the amount is positive, the memo is within its bound, and
    /// neither running total would leave its representable range.
    pub open spec fn can_record(self, amount: u64, memo: Seq<u8>) -> bool {
        &&& amount >= 1
        &&& memo.len() <= self.limits.max_memo_len
        &&& self.total_received + amount <= u64::MAX
        &&& self.total_tips_count + 1 <= u32::MAX
    }

    /// The record after one successful append: the tip goes into the
    /// cursor's slot (a fresh slot while the history still grows), the
    /// cursor advances by one modulo the capacity, and both running
    /// totals increase.
    pub open spec fn with_tip(self, tip: TipValue) -> JarValue {
        JarValue {
            total_received: (self.total_received + tip.amount) as u64,
            total_tips_count: (self.total_tips_count + 1) as u32,
            last_tip_index: (((self.total_tips_count + 1) % (
            self.limits.max_history_len as int)) as u16),
            tips: if self.tips.len() < self.limits.max_history_len {
                self.tips.push(tip)
            } else {
                self.tips.update(self.last_tip_index as int, tip)
            },
            ..self
        }
    }
}

/// Advancing a cursor that sits at `count % capacity` by one slot
/// lands on `(count + 1) % capacity`.
pub proof fn lemma_mod_succ(count: int, capacity: int)
    requires
        capacity >= 1,
        count >= 0,
    ensures
        (count % capacity + 1) % capacity == (count + 1) % capacity,
{
    vstd::arithmetic::div_mod::lemma_add_mod_noop(count, 1, capacity);
    if capacity > 1 {
        vstd::arithmetic::div_mod::lemma_small_mod(1nat, capacity as nat);
    } else {
        assert(count % 1 == 0 && (count + 1) % 1 == 0 && (count % 1 + 1) % 1 == 0) by {
            vstd::arithmetic::div_mod::lemma_mod_self_0(1);
            vstd::arithmetic::div_mod::lemma_small_mod(0nat, 1nat);
            vstd::arithmetic::div_mod::lemma_add_mod_noop(count, 0, 1);
            vstd::arithmetic::div_mod::lemma_add_mod_noop(count, 1, 1);
            vstd::arithmetic::div_mod::lemma_add_mod_noop(0, 1, 1);
        }
    }
}

impl TipJar {
    /// Greatest byte length of the description under the recommended
    /// default maxima.
    pub const MAX_DESCRIPTION_LEN: usize = 200;

    /// Greatest byte length of the category under the recommended
    /// default maxima.
    pub const MAX_CATEGORY_LEN: usize = 100;

    /// Capacity of the tip history under the recommended default
    /// maxima.
    pub const MAX_TIP_HISTORY_LEN: usize = 100;

    /// Greatest byte length of a tip's memo under the recommended
    /// default maxima.
    pub const MAX_MEMO_LEN: usize = 100;

    /// Total byte budget of a record under the recommended default
    /// maxima; equals `space()`.
    pub const LEN: usize = 15677;

    /// The record's invariant, stated of its mathematical value.
    pub open spec fn wf(self) -> bool {
        self@.wf()
    }

    /// The recommended default maxima as a `Limits` value.
    pub open spec fn spec_default_limits() -> Limits {
        Limits {
            max_description_len: 200,
            max_category_len: 100,
            max_history_len: 100,
            max_memo_len: 100,
        }
    }

    /// The recommended default maxima: description up to 200 bytes,
    /// category and memo up to 100 bytes, history of 100 tips.
    pub fn default_limits() -> (limits: Limits)
        ensures
            limits == Self::spec_default_limits(),
            limits.wf(),
    {
        let limits = Limits {
            max_description_len: Self::MAX_DESCRIPTION_LEN,
            max_category_len: Self::MAX_CATEGORY_LEN,
            max_history_len: Self::MAX_TIP_HISTORY_LEN,
            max_memo_len: Self::MAX_MEMO_LEN,
        };
        proof {
            assert(limits == Self::spec_default_limits());
            assert(spec_tip_size(Self::spec_default_limits().max_memo_len as int) == 153);
            assert(spec_layout_size(Self::spec_default_limits()) == 8 + 57 + 204 + 104 + 4 + 100
                * 153);
            assert(usize::MAX >= 15677);
        }
        limits
    }

    /// Total space one record needs under the recommended default
    /// maxima: the worst-case budget the host must allocate.
    pub fn space() -> (size: usize)
        ensures
            size == spec_layout_size(Self::spec_default_limits()),
            size == Self::LEN,
    {
        DISCRIMINATOR_SIZE + STATIC_SIZE + 4 + Self::MAX_DESCRIPTION_LEN + 4
            + Self::MAX_CATEGORY_LEN + 4 + Self::MAX_TIP_HISTORY_LEN * Tip::SIZE
    }

    /// Creates a record: owner, flags and goal set, both text fields
    /// checked against their maxima, history empty, cursor and both
    /// totals zero. Rejects a text field over its maximum with a
    /// capacity error and creates nothing.
    pub fn new(
        owner: [u8; 32],
        goal: u64,
        description: Vec<u8>,
        category: Vec<u8>,
        is_active: bool,
        is_private: bool,
        bump: u8,
        limits: Limits,
    ) -> (result: Result<TipJar, JarError>)
        requires
            limits.wf(),
        ensures
            result is Ok <==> (description@.len() <= limits.max_description_len && category@.len()
                <= limits.max_category_len),
            result is Ok ==> result->Ok_0@ == (JarValue {
                is_active,
                is_private,
                owner: owner@,
                description: description@,
                category: category@,
                goal,
                total_received: 0,
                tips: Seq::<TipValue>::empty(),
                last_tip_index: 0,
                total_tips_count: 0,
                bump,
                limits,
            }),
            result is Ok ==> result->Ok_0.wf(),
            result is Err ==> result == Err::<TipJar, JarError>(JarError::Capacity),
    {
        if description.len() > limits.max_description_len {
            return Err(JarError::Capacity);
        }
        if category.len() > limits.max_category_len {
            return Err(JarError::Capacity);
        }
        let jar = TipJar {
            is_active,
            is_private,
            owner,
            description,
            category,
            goal,
            total_received: 0,
            tips_history: Vec::new(),
            last_tip_index: 0,
            total_tips_count: 0,
            bump,
            limits,
        };
        proof {
            assert(jar@.tips =~= Seq::<TipValue>::empty());
            assert(jar@ =~= (JarValue {
                is_active,
                is_private,
                owner: owner@,
                description: jar@.description,
                category: jar@.category,
                goal,
                total_received: 0,
                tips: Seq::<TipValue>::empty(),
                last_tip_index: 0,
                total_tips_count: 0,
                bump,
                limits,
            }));
            assert(0int % limits.max_history_len as int == 0) by {
                vstd::arithmetic::div_mod::lemma_small_mod(0nat, limits.max_history_len as nat);
            }
        }
        Ok(jar)
    }

    /// Reassembles a record from stored parts, as a host does after
    /// reading its region back: returns the record exactly when the
    /// parts respect the given maxima and the ledger's bookkeeping
    /// (history holding `min(total_tips_count, max_history_len)` valid
    /// tips, cursor where that many appends leave it), and nothing
    /// otherwise.
    pub fn from_parts(
        is_active: bool,
        is_private: bool,
        owner: [u8; 32],
        description: Vec<u8>,
        category: Vec<u8>,
        goal: u64,
        total_received: u64,
        tips_history: Vec<Tip>,
        last_tip_index: u16,
        total_tips_count: u32,
        bump: u8,
        limits: Limits,
    ) -> (result: Option<TipJar>)
        ensures
            result is Some <==> (JarValue {
                is_active,
                is_private,
                owner: owner@,
                description: description@,
                category: category@,
                goal,
                total_received,
                tips: tip_views(tips_history@),
                last_tip_index,
                total_tips_count,
                bump,
                limits,
            }).wf(),
            result is Some ==> result->0@ == (JarValue {
                is_active,
                is_private,
                owner: owner@,
                description: description@,
                category: category@,
                goal,
                total_received,
                tips: tip_views(tips_history@),
                last_tip_index,
                total_tips_count,
                bump,
                limits,
            }),
            result is Some ==> result->0.wf(),
    {
        let ghost target = JarValue {
            is_active,
            is_private,
            owner: owner@,
            description: description@,
            category: category@,
            goal,
            total_received,
            tips: tip_views(tips_history@),
            last_tip_index,
            total_tips_count,
            bump,
            limits,
        };
        if !limits.check() {
            return None;
        }
        if description.len() > limits.max_description_len {
            return None;
        }
        if category.len() > limits.max_category_len {
            return None;
        }
        let held = if (total_tips_count as usize) < limits.max_history_len {
            total_tips_count as usize
        } else {
            limits.max_history_len
        };
        if tips_history.len() != held {
            return None;
        }
        if (last_tip_index as usize) != (total_tips_count as usize) % limits.max_history_len {
            return None;
        }
        let mut i: usize = 0;
        while i < tips_history.len()
            invariant
                i <= tips_history.len(),
                target.tips == tip_views(tips_history@),
                target.limits == limits,
                forall|k: int|
                    0 <= k < i ==> (#[trigger] target.tips[k]).valid(limits.max_memo_len as int),
            decreases tips_history.len() - i,
        {
            if tips_history[i].amount == 0 || tips_history[i].memo.len() > limits.max_memo_len {
                proof {
                    assert(!target.tips[i as int].valid(limits.max_memo_len as int));
                }
                return None;
            }
            proof {
                assert(target.tips[i as int].valid(limits.max_memo_len as int));
            }
            i += 1;
        }
        let jar = TipJar {
            is_active,
            is_private,
            owner,
            description,
            category,
            goal,
            total_received,
            tips_history,
            last_tip_index,
            total_tips_count,
            bump,
            limits,
        };
        proof {
            assert(jar@ =~= target);
        }
        Some(jar)
    }

    /// Replaces the description, or rejects text over the declared
    /// maximum with a capacity error, leaving the record untouched.
    pub fn set_description(&mut self, text: Vec<u8>) -> (result: Result<(), JarError>)
        requires
            old(self).wf(),
        ensures
            final(self).wf(),
            result is Ok <==> text@.len() <= old(self)@.limits.max_description_len,
            result is Ok ==> final(self)@ == (JarValue { description: text@, ..old(self)@ }),
            result is Err ==> final(self)@ == old(self)@ && result == Err::<(), JarError>(
                JarError::Capacity,
            ),
    {
        if text.len() > self.limits.max_description_len {
            return Err(JarError::Capacity);
        }
        let ghost pre = self@;
        let ghost new_text = text@;
        self.description = text;
        proof {
            assert(self@ =~= (JarValue { description: new_text, ..pre }));
        }
        Ok(())
    }

    /// Replaces the category, or rejects text over the declared
    /// maximum with a capacity error, leaving the record untouched.
    pub fn set_category(&mut self, text: Vec<u8>) -> (result: Result<(), JarError>)
        requires
            old(self).wf(),
        ensures
            final(self).wf(),
            result is Ok <==> text@.len() <= old(self)@.limits.max_category_len,
            result is Ok ==> final(self)@ == (JarValue { category: text@, ..old(self)@ }),
            result is Err ==> final(self)@ == old(self)@ && result == Err::<(), JarError>(
                JarError::Capacity,
            ),
    {
        if text.len() > self.limits.max_category_len {
            return Err(JarError::Capacity);
        }
        let ghost pre = self@;
        let ghost new_text = text@;
        self.category = text;
        proof {
            assert(self@ =~= (JarValue { category: new_text, ..pre }));
        }
        Ok(())
    }

    /// Sets the fundraising goal; no side effect on history or totals.
    pub fn set_goal(&mut self, goal: u64)
        requires
            old(self).wf(),
        ensures
            final(self).wf(),
            final(self)@ == (JarValue { goal, ..old(self)@ }),
    {
        let ghost pre = self@;
        self.goal = goal;
        proof {
            assert(self@ =~= (JarValue { goal, ..pre }));
        }
    }

    /// Flips the active flag; no side effect on history or totals.
    pub fn set_active(&mut self, is_active: bool)
        requires
            old(self).wf(),
        ensures
            final(self).wf(),
            final(self)@ == (JarValue { is_active, ..old(self)@ }),
    {
        let ghost pre = self@;
        self.is_active = is_active;
        proof {
            assert(self@ =~= (JarValue { is_active, ..pre }));
        }
    }

    /// Flips the private flag; no side effect on history or totals.
    pub fn set_private(&mut self, is_private: bool)
        requires
            old(self).wf(),
        ensures
            final(self).wf(),
            final(self)@ == (JarValue { is_private, ..old(self)@ }),
    {
        let ghost pre = self@;
        self.is_private = is_private;
        proof {
            assert(self@ =~= (JarValue { is_private, ..pre }));
        }
    }

    /// Whether the history has been filled at least once: from then on
    /// every append evicts the oldest held tip.
    pub fn is_full(&self) -> (full: bool)
        requires
            self.wf(),
        ensures
            full == self@.full(),
    {
        self.total_tips_count as usize >= self.limits.max_history_len
    }

    /// Records one tip: validates it, writes it into the cursor's
    /// slot, advances the cursor by one modulo the capacity, and adds
    /// to both running totals with checked arithmetic. Returns the
    /// evicted tip once the history is full, `None` while a fresh slot
    /// was filled. A rejected tip leaves the record untouched: a
    /// zero amount is a validation error, an overlong memo a capacity
    /// error, and a running total at its ceiling an overflow error.
    pub fn record_tip(
        &mut self,
        sender: [u8; 32],
        amount: u64,
        visibility: Visibility,
        memo: Vec<u8>,
        timestamp: u64,
    ) -> (result: Result<Option<Tip>, JarError>)
        requires
            old(self).wf(),
        ensures
            final(self).wf(),
            result is Ok <==> old(self)@.can_record(amount, memo@),
            result is Ok ==> final(self)@ == old(self)@.with_tip(
                TipValue { sender: sender@, amount, visibility, memo: memo@, timestamp },
            ),
            result is Ok ==> (result->Ok_0 is Some <==> old(self)@.full()),
            result is Ok && old(self)@.full() ==> result->Ok_0->0@ == old(
                self,
            )@.chronological()[0],
            result is Err ==> final(self)@ == old(self)@,
            amount == 0 ==> result == Err::<Option<Tip>, JarError>(JarError::Validation),
            amount >= 1 && memo@.len() > old(self)@.limits.max_memo_len ==> result == Err::<
                Option<Tip>,
                JarError,
            >(JarError::Capacity),
            amount >= 1 && memo@.len() <= old(self)@.limits.max_memo_len && !(old(
                self,
            )@.can_record(amount, memo@)) ==> result == Err::<Option<Tip>, JarError>(
                JarError::ArithmeticOverflow,
            ),
    {
        if amount == 0 {
            return Err(JarError::Validation);
        }
        if memo.len() > self.limits.max_memo_len {
            return Err(JarError::Capacity);
        }
        let new_total = match self.total_received.checked_add(amount) {
            Some(t) => t,
            None => {
                return Err(JarError::ArithmeticOverflow);
            },
        };
        let new_count = match self.total_tips_count.checked_add(1) {
            Some(c) => c,
            None => {
                return Err(JarError::ArithmeticOverflow);
            },
        };
        let ghost pre = self@;
        let ghost tip_value = TipValue {
            sender: sender@,
            amount,
            visibility,
            memo: memo@,
            timestamp,
        };
        let tip = Tip { sender, amount, visibility, memo, timestamp };
        let capacity = self.limits.max_history_len;
        let evicted: Option<Tip>;
        if self.tips_history.len() < capacity {
            self.tips_history.push(tip);
            evicted = None;
            proof {
                assert(self@.tips =~= pre.tips.push(tip_value));
            }
        } else {
            let slot = self.last_tip_index as usize;
            let old_tip = self.tips_history[slot].duplicate();
            self.tips_history.set(slot, tip);
            evicted = Some(old_tip);
            proof {
                assert(self@.tips =~= pre.tips.update(pre.last_tip_index as int, tip_value));
                assert(old_tip@ == pre.chronological()[0]) by {
                    assert(pre.chronological()[0] == pre.tips.subrange(
                        pre.last_tip_index as int,
                        pre.tips.len() as int,
                    )[0]);
                }
            }
        }
        self.total_received = new_total;
        self.total_tips_count = new_count;
        let next_index: usize = (self.last_tip_index as usize + 1) % capacity;
        self.last_tip_index = next_index as u16;
        proof {
            lemma_mod_succ(pre.total_tips_count as int, capacity as int);
            assert(self@ =~= pre.with_tip(tip_value));
            assert forall|i: int| 0 <= i < self@.tips.len() implies (#[trigger] self@.tips[i]).valid(
                self@.limits.max_memo_len as int,
            ) by {
                if self@.tips[i] != tip_value {
                    assert(self@.tips[i] == pre.tips[i]);
                }
            }
        }
        Ok(evicted)
    }

    /// The currently held tips in chronological order, oldest kept
    /// first; their number is the smaller of the lifetime count and
    /// the history's capacity.
    pub fn read_all(&self) -> (tips: Vec<Tip>)
        requires
            self.wf(),
        ensures
            tip_views(tips@) == self@.chronological(),
    {
        let mut out: Vec<Tip> = Vec::new();
        let len = self.tips_history.len();
        if (self.total_tips_count as usize) < self.limits.max_history_len {
            let mut i: usize = 0;
            while i < len
                invariant
                    self.wf(),
                    !self@.full(),
                    len == self.tips_history.len(),
                    i <= len,
                    tip_views(out@) =~= self@.tips.take(i as int),
                decreases len - i,
            {
                let ghost prev = out@;
                let copy = self.tips_history[i].duplicate();
                let ghost copy_value = copy@;
                out.push(copy);
                proof {
                    assert(out@ == prev.push(copy));
                    assert(copy_value == self@.tips[i as int]);
                    assert(tip_views(prev).len() == prev.len());
                    assert(prev.len() == i as int);
                    assert(tip_views(out@).len() == i + 1);
                    assert forall|k: int| 0 <= k < prev.len() + 1 implies tip_views(out@)[k]
                        == self@.tips.take(i + 1)[k] by {
                        assert(tip_views(out@)[k] == out@[k]@);
                        if k < prev.len() {
                            assert(out@[k] == prev[k]);
                            assert(tip_views(prev)[k] == self@.tips.take(i as int)[k]);
                        } else {
                            assert(out@[k] == copy);
                        }
                    }
                    assert(tip_views(out@) =~= self@.tips.take(i + 1));
                }
                i += 1;
            }
            proof {
                assert(self@.tips.take(len as int) =~= self@.chronological());
            }
        } else {
            let start = self.last_tip_index as usize;
            let mut i: usize = start;
            while i < len
                invariant
                    self.wf(),
                    self@.full(),
                    len == self.tips_history.len(),
                    start == self@.last_tip_index,
                    start <= i <= len,
                    tip_views(out@) =~= self@.tips.subrange(start as int, i as int),
                decreases len - i,
            {
                let ghost prev = out@;
                let copy = self.tips_history[i].duplicate();
                let ghost copy_value = copy@;
                out.push(copy);
                proof {
                    assert(out@ == prev.push(copy));
                    assert(copy_value == self@.tips[i as int]);
                    assert(tip_views(prev).len() == prev.len());
                    assert(prev.len() == i - start);
                    assert forall|k: int| 0 <= k < prev.len() + 1 implies tip_views(out@)[k]
                        == self@.tips.subrange(start as int, i + 1)[k] by {
                        assert(tip_views(out@)[k] == out@[k]@);
                        if k < prev.len() {
                            assert(out@[k] == prev[k]);
                            assert(tip_views(prev)[k] == self@.tips.subrange(
                                start as int,
                                i as int,
                            )[k]);
                        } else {
                            assert(out@[k] == copy);
                        }
                    }
                    assert(tip_views(out@) =~= self@.tips.subrange(start as int, i + 1));
                }
                i += 1;
            }
            let mut j: usize = 0;
            while j < start
                invariant
                    self.wf(),
                    self@.full(),
                    len == self.tips_history.len(),
                    start == self@.last_tip_index,
                    start <= len,
                    j <= start,
                    tip_views(out@) =~= self@.tips.subrange(start as int, len as int)
                        + self@.tips.subrange(0, j as int),
                decreases start - j,
            {
                let ghost prev = out@;
                let copy = self.tips_history[j].duplicate();
                let ghost copy_value = copy@;
                out.push(copy);
                proof {
                    let ghost target = self@.tips.subrange(start as int, len as int)
                        + self@.tips.subrange(0, j + 1);
                    assert(out@ == prev.push(copy));
                    assert(copy_value == self@.tips[j as int]);
                    assert(tip_views(prev).len() == prev.len());
                    assert(prev.len() == (len - start) + j);
                    assert forall|k: int| 0 <= k < prev.len() + 1 implies tip_views(out@)[k]
                        == target[k] by {
                        assert(tip_views(out@)[k] == out@[k]@);
                        if k < prev.len() {
                            assert(out@[k] == prev[k]);
                            assert(tip_views(prev)[k] == (self@.tips.subrange(
                                start as int,
                                len as int,
                            ) + self@.tips.subrange(0, j as int))[k]);
                        } else {
                            assert(out@[k] == copy);
                            assert(target[k] == self@.tips[j as int]);
                        }
                    }
                    assert(tip_views(out@) =~= target);
                }
                j += 1;
            }
        }
        out
    }

    /// The storage budget this record was allocated under.
    pub fn space_needed(&self) -> (size: usize)
        requires
            self.wf(),
        ensures
            size == spec_layout_size(self@.limits),
    {
        layout_size(&self.limits)
    }
}

} // verus!
