use tipjar::jar::TipJar;
use tipjar::layout::{layout_size, Limits, DISCRIMINATOR_SIZE};

fn limits(d: usize, c: usize, h: usize, m: usize) -> Limits {
    Limits {
        max_description_len: d,
        max_category_len: c,
        max_history_len: h,
        max_memo_len: m,
    }
}

#[test]
fn space_matches_default_layout() {
    let defaults = TipJar::default_limits();
    assert_eq!(TipJar::space(), layout_size(&defaults));
    assert_eq!(TipJar::space(), TipJar::LEN);
    assert_eq!(TipJar::space(), 15677);
}

#[test]
fn layout_size_follows_the_sum_formula() {
    // 8 tag + 57 fixed + (4 + 3) + (4 + 2) + (4 + 2 * (53 + 1)) = 190.
    let small = limits(3, 2, 2, 1);
    assert_eq!(layout_size(&small), 190);
    // Capacity one, empty texts allowed, prefixes still counted:
    // 8 + 57 + 4 + 4 + (4 + 53) = 130.
    let tiny = limits(0, 0, 1, 0);
    assert_eq!(layout_size(&tiny), 130);
}

#[test]
fn limits_check_accepts_and_rejects() {
    assert!(limits(200, 100, 100, 100).check());
    assert!(limits(0, 0, 1, 0).check());
    // A history without a slot has no cursor position.
    assert!(!limits(200, 100, 0, 100).check());
    // A cursor must fit its two bytes.
    assert!(!limits(200, 100, 1 << 16, 100).check());
    // A text bound must fit its four-byte length prefix.
    assert!(!limits(1 << 33, 100, 1, 100).check());
}

#[test]
fn discriminator_size_is_eight() {
    assert_eq!(DISCRIMINATOR_SIZE, 8);
}
