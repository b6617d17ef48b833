use syscalls::word::{negate_word, normalize_return};

#[test]
fn negate_zero_is_zero() {
    assert_eq!(negate_word(0), 0);
}

#[test]
fn negate_one_is_all_ones() {
    assert_eq!(negate_word(1), usize::MAX);
}

#[test]
fn negate_matches_twos_complement() {
    assert_eq!(negate_word(9), 9usize.wrapping_neg());
    assert_eq!(negate_word(4095), 4095usize.wrapping_neg());
    assert_eq!(negate_word(usize::MAX), 1);
}

#[test]
fn negate_twice_is_identity() {
    assert_eq!(negate_word(negate_word(1234)), 1234);
    assert_eq!(negate_word(negate_word(0)), 0);
    assert_eq!(negate_word(negate_word(usize::MAX)), usize::MAX);
}

#[test]
fn success_passes_raw_word_through() {
    assert_eq!(normalize_return(7, false), 7);
    assert_eq!(normalize_return(0, false), 0);
    assert_eq!(normalize_return(usize::MAX, false), usize::MAX);
}

#[test]
fn failure_negates_raw_word() {
    // The kernel reports "bad file descriptor" as raw error word 9; the
    // normalized word is its two's-complement negation.
    let r = normalize_return(9, true);
    assert_eq!(r, 9usize.wrapping_neg());
    assert!((r as isize) < 0);
    assert_eq!(r.wrapping_neg(), 9);
}
