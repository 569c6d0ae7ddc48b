//! The bit-packed strong word.
//!
//! The strong counter of a block encodes two things in one word: the number
//! of live strong handles, in units of four, and two flag bits in the low two
//! bits — whether any weak-side interest exists, and whether the payload has
//! been destroyed for good.

use vstd::arithmetic::div_mod::{lemma_fundamental_div_mod, lemma_fundamental_div_mod_converse};
use vstd::prelude::*;

verus! {

/// Flag bit of the strong word: at least one weak-side reference exists.
pub const WEAK_EXIST: usize = 1;

/// Flag bit of the strong word: the payload has been destroyed and will
/// never be recreated.
pub const CLOSED: usize = 2;

/// One strong handle's contribution to the strong word.
pub const SINGLE_STRONG: usize = 4;

/// One weak unit's contribution to the weak counter.
pub const SINGLE_WEAK: usize = 1;

/// Hard safety limit on either counter. Beyond it the process would be
/// aborted rather than risk wrap-around, so every operation that could pass
/// it rules the case out by precondition.
pub const MAX_REFCOUNT: usize = usize::MAX / 2;

/// The number of strong count units encoded in a strong word.
pub open spec fn count_of(word: nat) -> nat {
    word / 4
}

/// The two flag bits of a strong word.
pub open spec fn flags_of(word: nat) -> nat {
    word % 4
}

/// Whether the weak-exist flag is set in a strong word.
pub open spec fn weak_exist(word: nat) -> bool {
    flags_of(word) == 1 || flags_of(word) == 3
}

/// Whether the closed flag is set in a strong word.
pub open spec fn closed(word: nat) -> bool {
    flags_of(word) >= 2
}

/// A strong word is its count times four plus its flags.
pub proof fn lemma_word_parts(word: nat)
    ensures
        word == 4 * count_of(word) + flags_of(word),
        flags_of(word) < 4,
{
    lemma_fundamental_div_mod(word as int, 4);
}

/// A word packed from a count and in-range flags decodes to exactly them.
pub proof fn lemma_pack(c: nat, f: nat)
    requires
        f < 4,
    ensures
        count_of(4 * c + f) == c,
        flags_of(4 * c + f) == f,
{
    lemma_fundamental_div_mod_converse(4 * c + f as int, 4, c as int, f as int);
}

/// Adding one strong unit raises the count by one and keeps the flags.
pub proof fn lemma_strong_add(word: nat)
    ensures
        count_of(word + 4) == count_of(word) + 1,
        flags_of(word + 4) == flags_of(word),
{
    lemma_word_parts(word);
    lemma_fundamental_div_mod_converse(
        word + 4 as int,
        4,
        count_of(word) + 1 as int,
        flags_of(word) as int,
    );
}

/// Removing one strong unit lowers the count by one and keeps the flags.
pub proof fn lemma_strong_sub(word: nat)
    requires
        count_of(word) >= 1,
    ensures
        word >= 4,
        count_of((word - 4) as nat) == count_of(word) - 1,
        flags_of((word - 4) as nat) == flags_of(word),
{
    lemma_word_parts(word);
    lemma_fundamental_div_mod_converse(
        word - 4,
        4,
        count_of(word) - 1,
        flags_of(word) as int,
    );
}

/// Raising the flags alone, within the two flag bits, keeps the count.
pub proof fn lemma_flags_add(word: nat, f: nat)
    requires
        flags_of(word) + f < 4,
    ensures
        count_of(word + f) == count_of(word),
        flags_of(word + f) == flags_of(word) + f,
{
    lemma_word_parts(word);
    lemma_fundamental_div_mod_converse(
        word + f as int,
        4,
        count_of(word) as int,
        flags_of(word) + f as int,
    );
}

} // verus!
