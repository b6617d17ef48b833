//! Normalization of the kernel's raw return word.
//!
//! The trap signals failure through a hardware flag, not through the returned
//! word. This module turns that flag into a sign convention: on failure the
//! raw word is replaced by its two's-complement negation, on success it passes
//! through unchanged, so a caller distinguishes the two cases by sign alone.

use vstd::prelude::*;

verus! {

/// One more than the largest machine word: the modulus of two's-complement
/// arithmetic on machine words.
pub open spec fn word_modulus() -> int {
    usize::MAX as int + 1
}

/// The two's-complement negation of a machine word.
pub open spec fn word_complement(w: usize) -> usize {
    if w == 0 {
        0usize
    } else {
        (usize::MAX - w + 1) as usize
    }
}

/// The normalized return convention: a failed invocation returns the
/// two's-complement negation of the raw kernel word, a successful one returns
/// the raw word unchanged.
pub open spec fn normalized_word(raw: usize, failed: bool) -> usize {
    if failed {
        word_complement(raw)
    } else {
        raw
    }
}

/// A machine word read as a signed two's-complement value.
pub open spec fn as_signed(w: usize) -> int {
    if 2 * (w as int) <= usize::MAX as int {
        w as int
    } else {
        w as int - word_modulus()
    }
}

/// Two's-complement negation, computed without overflow.
pub fn negate_word(w: usize) -> (r: usize)
    ensures
        r == word_complement(w),
{
    if w == 0 {
        0
    } else {
        usize::MAX - w + 1
    }
}

/// Normalizes the kernel's raw return word: negated when the trap signaled
/// failure, unchanged when it signaled success.
pub fn normalize_return(raw: usize, failed: bool) -> (r: usize)
    ensures
        r == normalized_word(raw, failed),
{
    if failed {
        negate_word(raw)
    } else {
        raw
    }
}

/// The complement really is negation: a word and its complement sum to zero
/// modulo the word modulus.
pub proof fn lemma_complement_negates(w: usize)
    ensures
        (w as int + word_complement(w) as int) % word_modulus() == 0,
{
    if w == 0 {
        assert(0int % word_modulus() == 0);
    } else {
        assert(w as int + word_complement(w) as int == word_modulus());
        assert(word_modulus() % word_modulus() == 0) by (nonlinear_arith)
            requires
                word_modulus() > 0,
        ;
    }
}

/// Taking the complement twice gives the word back.
pub proof fn lemma_complement_involutive(w: usize)
    ensures
        word_complement(word_complement(w)) == w,
{
}

/// A failed invocation's normalized word, read as a signed value, is negative
/// and its magnitude is the kernel's raw error word — for every raw error word
/// in the positive signed range.
pub proof fn lemma_failure_reads_negative(e: usize)
    requires
        0 < e,
        2 * (e as int) <= usize::MAX as int,
    ensures
        as_signed(normalized_word(e, true)) == -(e as int),
        as_signed(normalized_word(e, true)) < 0,
{
}

/// A successful invocation's normalized word is the raw kernel word itself,
/// and reads back as a non-negative signed value for every raw word in the
/// non-negative signed range.
pub proof fn lemma_success_reads_nonnegative(raw: usize)
    requires
        2 * (raw as int) <= usize::MAX as int,
    ensures
        normalized_word(raw, false) == raw,
        as_signed(normalized_word(raw, false)) == raw as int,
        as_signed(normalized_word(raw, false)) >= 0,
{
}

} // verus!
