use tipjar::errors::JarError;
use tipjar::jar::TipJar;
use tipjar::layout::Limits;
use tipjar::tip::Visibility;

fn limits(d: usize, c: usize, h: usize, m: usize) -> Limits {
    Limits {
        max_description_len: d,
        max_category_len: c,
        max_history_len: h,
        max_memo_len: m,
    }
}

fn fresh_jar(limits: Limits) -> TipJar {
    TipJar::new(
        [7u8; 32],
        1_000_000,
        b"a jar".to_vec(),
        b"misc".to_vec(),
        true,
        false,
        255,
        limits,
    )
    .unwrap()
}

fn sender(tag: u8) -> [u8; 32] {
    [tag; 32]
}

#[test]
fn wrap_around_keeps_newest_three() {
    // Capacity three; four appends must evict the first tip.
    let mut jar = fresh_jar(limits(200, 100, 3, 100));
    let a = jar
        .record_tip(sender(1), 1, Visibility::Public, b"a".to_vec(), 10)
        .unwrap();
    assert!(a.is_none());
    let b = jar
        .record_tip(sender(2), 2, Visibility::Public, b"b".to_vec(), 11)
        .unwrap();
    assert!(b.is_none());
    let c = jar
        .record_tip(sender(3), 3, Visibility::Anonymous, b"c".to_vec(), 12)
        .unwrap();
    assert!(c.is_none());
    let d = jar
        .record_tip(sender(4), 4, Visibility::Public, b"d".to_vec(), 13)
        .unwrap();
    let evicted = d.unwrap();
    assert_eq!(evicted.amount, 1);
    assert_eq!(evicted.sender, sender(1));

    let held = jar.read_all();
    assert_eq!(held.len(), 3);
    assert_eq!(held[0].amount, 2);
    assert_eq!(held[1].amount, 3);
    assert_eq!(held[2].amount, 4);
    assert_eq!(held[0].sender, sender(2));
    assert_eq!(held[1].sender, sender(3));
    assert_eq!(held[2].sender, sender(4));
    assert_eq!(jar.total_tips_count, 4);
    assert_eq!(jar.total_received, 10);
    assert_eq!(jar.last_tip_index, 1);
    assert!(jar.is_full());
}

#[test]
fn read_all_before_wrap_keeps_insertion_order() {
    let mut jar = fresh_jar(limits(200, 100, 3, 100));
    jar.record_tip(sender(1), 5, Visibility::Public, b"".to_vec(), 1)
        .unwrap();
    jar.record_tip(sender(2), 6, Visibility::Public, b"".to_vec(), 2)
        .unwrap();
    let held = jar.read_all();
    assert_eq!(held.len(), 2);
    assert_eq!(held[0].amount, 5);
    assert_eq!(held[1].amount, 6);
    assert!(!jar.is_full());
    assert_eq!(jar.last_tip_index, 2);
}

#[test]
fn totals_are_exact_sums_across_eviction() {
    // Capacity one: every append after the first evicts, but the
    // lifetime totals keep every amount.
    let mut jar = fresh_jar(limits(200, 100, 1, 100));
    let amounts: [u64; 5] = [3, 11, 29, 1, 7];
    for (i, amount) in amounts.iter().enumerate() {
        jar.record_tip(sender(i as u8), *amount, Visibility::Public, b"".to_vec(), i as u64)
            .unwrap();
    }
    assert_eq!(jar.total_received, 51);
    assert_eq!(jar.total_tips_count, 5);
    assert_eq!(jar.read_all().len(), 1);
    assert_eq!(jar.read_all()[0].amount, 7);
}

#[test]
fn description_five_byte_scenario() {
    let mut jar = fresh_jar(limits(5, 100, 3, 100));
    assert!(jar.set_description(b"hello".to_vec()).is_ok());
    let rejected = jar.set_description(b"hello!".to_vec());
    assert_eq!(rejected, Err(JarError::Capacity));
    assert_eq!(jar.description, b"hello".to_vec());
}

#[test]
fn rejected_description_changes_nothing() {
    let mut jar = fresh_jar(limits(8, 100, 3, 100));
    jar.set_description(b"baseline".to_vec()).unwrap();
    jar.record_tip(sender(9), 42, Visibility::Public, b"memo".to_vec(), 77)
        .unwrap();
    let held_before = jar.read_all();
    let rejected = jar.set_description(b"far too long text".to_vec());
    assert_eq!(rejected, Err(JarError::Capacity));
    assert_eq!(jar.description, b"baseline".to_vec());
    assert_eq!(jar.category, b"misc".to_vec());
    assert_eq!(jar.goal, 1_000_000);
    assert_eq!(jar.total_received, 42);
    assert_eq!(jar.total_tips_count, 1);
    assert_eq!(jar.last_tip_index, 1);
    let held_after = jar.read_all();
    assert_eq!(held_after.len(), held_before.len());
    assert_eq!(held_after[0].amount, held_before[0].amount);
}

#[test]
fn description_boundary_lengths() {
    let mut jar = TipJar::new(
        [7u8; 32],
        0,
        b"init".to_vec(),
        b"cat".to_vec(),
        true,
        false,
        0,
        limits(4, 4, 3, 100),
    )
    .unwrap();
    assert!(jar.set_description(b"abcd".to_vec()).is_ok());
    assert_eq!(
        jar.set_description(b"abcde".to_vec()),
        Err(JarError::Capacity)
    );
    assert!(jar.set_category(b"wxyz".to_vec()).is_ok());
    assert_eq!(jar.set_category(b"vwxyz".to_vec()), Err(JarError::Capacity));
    assert_eq!(jar.description, b"abcd".to_vec());
    assert_eq!(jar.category, b"wxyz".to_vec());
}

#[test]
fn zero_amount_is_a_validation_error() {
    let mut jar = fresh_jar(limits(200, 100, 3, 100));
    let rejected = jar.record_tip(sender(1), 0, Visibility::Public, b"".to_vec(), 1);
    assert_eq!(rejected, Err(JarError::Validation));
    assert_eq!(jar.total_tips_count, 0);
    assert_eq!(jar.total_received, 0);
    assert_eq!(jar.read_all().len(), 0);
}

#[test]
fn overlong_memo_is_a_capacity_error() {
    let mut jar = fresh_jar(limits(200, 100, 3, 4));
    let rejected = jar.record_tip(sender(1), 5, Visibility::Public, b"abcde".to_vec(), 1);
    assert_eq!(rejected, Err(JarError::Capacity));
    assert_eq!(jar.total_tips_count, 0);
    assert!(jar
        .record_tip(sender(1), 5, Visibility::Public, b"abcd".to_vec(), 1)
        .is_ok());
}

#[test]
fn received_total_at_ceiling_is_an_overflow_error() {
    let mut jar = fresh_jar(limits(200, 100, 3, 100));
    jar.record_tip(sender(1), u64::MAX - 1, Visibility::Public, b"".to_vec(), 1)
        .unwrap();
    let rejected = jar.record_tip(sender(2), 2, Visibility::Public, b"".to_vec(), 2);
    assert_eq!(rejected, Err(JarError::ArithmeticOverflow));
    assert_eq!(jar.total_received, u64::MAX - 1);
    assert_eq!(jar.total_tips_count, 1);
    // One more lamport still fits exactly.
    assert!(jar
        .record_tip(sender(3), 1, Visibility::Public, b"".to_vec(), 3)
        .is_ok());
    assert_eq!(jar.total_received, u64::MAX);
}

#[test]
fn lifetime_count_at_ceiling_is_an_overflow_error() {
    let mut jar = fresh_jar(limits(200, 100, 1, 100));
    jar.record_tip(sender(1), 1, Visibility::Public, b"".to_vec(), 1)
        .unwrap();
    // Wind the lifetime counter to its ceiling; capacity one keeps the
    // rest of the record consistent with it.
    jar.total_tips_count = u32::MAX;
    let rejected = jar.record_tip(sender(2), 2, Visibility::Public, b"".to_vec(), 2);
    assert_eq!(rejected, Err(JarError::ArithmeticOverflow));
    assert_eq!(jar.total_tips_count, u32::MAX);
    assert_eq!(jar.total_received, 1);
}

#[test]
fn creation_rejects_overlong_fields() {
    let too_long = TipJar::new(
        [0u8; 32],
        0,
        b"toolong".to_vec(),
        b"c".to_vec(),
        true,
        false,
        0,
        limits(3, 100, 3, 100),
    );
    assert!(matches!(too_long, Err(JarError::Capacity)));
    let bad_category = TipJar::new(
        [0u8; 32],
        0,
        b"ok".to_vec(),
        b"category".to_vec(),
        true,
        false,
        0,
        limits(3, 2, 3, 100),
    );
    assert!(matches!(bad_category, Err(JarError::Capacity)));
}

#[test]
fn creation_starts_empty() {
    let jar = fresh_jar(limits(200, 100, 3, 100));
    assert_eq!(jar.total_received, 0);
    assert_eq!(jar.total_tips_count, 0);
    assert_eq!(jar.last_tip_index, 0);
    assert!(jar.is_active);
    assert!(!jar.is_private);
    assert_eq!(jar.owner, [7u8; 32]);
    assert_eq!(jar.bump, 255);
    assert_eq!(jar.read_all().len(), 0);
    assert!(!jar.is_full());
}

#[test]
fn flag_and_goal_setters_touch_nothing_else() {
    let mut jar = fresh_jar(limits(200, 100, 3, 100));
    jar.record_tip(sender(1), 9, Visibility::Anonymous, b"m".to_vec(), 4)
        .unwrap();
    jar.set_active(false);
    jar.set_private(true);
    jar.set_goal(123);
    assert!(!jar.is_active);
    assert!(jar.is_private);
    assert_eq!(jar.goal, 123);
    assert_eq!(jar.total_received, 9);
    assert_eq!(jar.total_tips_count, 1);
    let held = jar.read_all();
    assert_eq!(held.len(), 1);
    assert_eq!(held[0].amount, 9);
    assert_eq!(held[0].memo, b"m".to_vec());
    assert_eq!(held[0].timestamp, 4);
    assert!(matches!(held[0].visibility, Visibility::Anonymous));
}

#[test]
fn error_descriptions() {
    assert_eq!(JarError::Capacity.describe(), "capacity exceeded");
    assert_eq!(JarError::Validation.describe(), "invalid input");
    assert_eq!(JarError::ArithmeticOverflow.describe(), "arithmetic overflow");
}

#[test]
fn from_parts_accepts_a_stored_record() {
    let mut jar = fresh_jar(limits(200, 100, 2, 100));
    jar.record_tip(sender(1), 4, Visibility::Public, b"hi".to_vec(), 3)
        .unwrap();
    jar.record_tip(sender(2), 5, Visibility::Anonymous, b"yo".to_vec(), 4)
        .unwrap();
    jar.record_tip(sender(3), 6, Visibility::Public, b"ok".to_vec(), 5)
        .unwrap();
    let rebuilt = TipJar::from_parts(
        jar.is_active,
        jar.is_private,
        jar.owner,
        jar.description.clone(),
        jar.category.clone(),
        jar.goal,
        jar.total_received,
        jar.tips_history.clone(),
        jar.last_tip_index,
        jar.total_tips_count,
        jar.bump,
        jar.limits,
    )
    .unwrap();
    assert_eq!(rebuilt.total_received, 15);
    assert_eq!(rebuilt.total_tips_count, 3);
    assert_eq!(rebuilt.last_tip_index, 1);
    let held = rebuilt.read_all();
    assert_eq!(held.len(), 2);
    assert_eq!(held[0].amount, 5);
    assert_eq!(held[1].amount, 6);
}

#[test]
fn from_parts_rejects_inconsistent_bookkeeping() {
    // A cursor that does not match the lifetime count.
    let wrong_cursor = TipJar::from_parts(
        true,
        false,
        [0u8; 32],
        b"".to_vec(),
        b"".to_vec(),
        0,
        0,
        Vec::new(),
        1,
        0,
        0,
        limits(200, 100, 3, 100),
    );
    assert!(wrong_cursor.is_none());
    // A history shorter than the lifetime count says it must be.
    let missing_tips = TipJar::from_parts(
        true,
        false,
        [0u8; 32],
        b"".to_vec(),
        b"".to_vec(),
        0,
        9,
        Vec::new(),
        1,
        1,
        0,
        limits(200, 100, 3, 100),
    );
    assert!(missing_tips.is_none());
    // A history without a slot has no valid maxima at all.
    let no_slots = TipJar::from_parts(
        true,
        false,
        [0u8; 32],
        b"".to_vec(),
        b"".to_vec(),
        0,
        0,
        Vec::new(),
        0,
        0,
        0,
        limits(200, 100, 0, 100),
    );
    assert!(no_slots.is_none());
}

#[test]
fn from_parts_rejects_an_invalid_held_tip() {
    let mut jar = fresh_jar(limits(200, 100, 2, 100));
    jar.record_tip(sender(1), 4, Visibility::Public, b"hi".to_vec(), 3)
        .unwrap();
    let mut tips = jar.tips_history.clone();
    tips[0].amount = 0;
    let rebuilt = TipJar::from_parts(
        jar.is_active,
        jar.is_private,
        jar.owner,
        jar.description.clone(),
        jar.category.clone(),
        jar.goal,
        jar.total_received,
        tips,
        jar.last_tip_index,
        jar.total_tips_count,
        jar.bump,
        jar.limits,
    );
    assert!(rebuilt.is_none());
}
