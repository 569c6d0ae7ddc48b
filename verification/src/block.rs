//! The heap block and the counter operations performed against it.
//!
//! A [`Block`] holds the bit-packed strong word, the weak counter and the
//! payload; it stands for the single heap allocation all handles of one
//! value share. The methods here are the protocol's read-modify-write steps:
//! each contract states the exact counter transition. The requires on the
//! counters' magnitude stand for the policy of aborting the process rather
//! than letting a counter pass the hard safety limit.

use crate::counter::{
    closed, count_of, lemma_flags_add, lemma_strong_add, lemma_word_parts, weak_exist,
    MAX_REFCOUNT, SINGLE_STRONG, SINGLE_WEAK, WEAK_EXIST,
};
use vstd::prelude::*;

verus! {

/// One heap block: the strong word, the weak counter, and the payload.
/// The payload is `None` once it has been destroyed, which happens at most
/// once in the block's life.
pub struct Block<T> {
    /// The bit-packed strong word: count units of four plus two flag bits.
    pub strong: usize,
    /// The weak counter, in units of one.
    pub weak: usize,
    /// The payload, destroyed in place exactly once.
    pub value: Option<T>,
}

impl<T> Block<T> {
    /// The strong count units currently encoded in the strong word.
    pub open spec fn strong_count(self) -> nat {
        count_of(self.strong as nat)
    }

    /// The closed flag: the payload has been destroyed for good.
    pub open spec fn is_closed(self) -> bool {
        closed(self.strong as nat)
    }

    /// The weak-exist flag: some weak-side interest has existed.
    pub open spec fn has_weak(self) -> bool {
        weak_exist(self.strong as nat)
    }

    /// The payload has not been destroyed yet.
    pub open spec fn payload_alive(self) -> bool {
        self.value is Some
    }

    /// Well-formedness of a quiescent allocated block: closed exactly when
    /// the payload is gone; while alive, at least one strong unit, and the
    /// weak-exist flag exactly when any weak unit exists; once closed, the
    /// flag has been swapped out and only weak units keep the block around.
    pub open spec fn wf(self) -> bool {
        &&& self.is_closed() <==> !self.payload_alive()
        &&& !self.is_closed() ==> {
            &&& self.strong_count() >= 1
            &&& (self.has_weak() <==> self.weak >= 1)
        }
        &&& self.is_closed() ==> {
            &&& !self.has_weak()
            &&& self.weak >= 1
        }
    }

    /// A fresh block uniquely owned by one strong handle.
    pub fn new(value: T) -> (b: Block<T>)
        ensures
            b == (Block { strong: SINGLE_STRONG, weak: 0, value: Some(value) }),
            b.wf(),
            b.strong_count() == 1,
            !b.is_closed(),
            !b.has_weak(),
    {
        proof {
            lemma_word_parts(SINGLE_STRONG as nat);
        }
        Block { strong: SINGLE_STRONG, weak: 0, value: Some(value) }
    }

    /// One more strong handle cloned from a live strong handle: add one
    /// strong count unit.
    pub fn acquire_strong_from_strong(&mut self)
        requires
            old(self).strong <= MAX_REFCOUNT,
        ensures
            final(self).strong == old(self).strong + SINGLE_STRONG,
            final(self).weak == old(self).weak,
            final(self).value == old(self).value,
            final(self).strong_count() == old(self).strong_count() + 1,
            final(self).is_closed() == old(self).is_closed(),
            final(self).has_weak() == old(self).has_weak(),
    {
        proof {
            lemma_strong_add(self.strong as nat);
        }
        self.strong = self.strong + SINGLE_STRONG;
    }

    /// The optimistic increment of `upgrade`: add one strong count unit,
    /// then inspect the old word. If the block was already closed the
    /// upgrade has failed; the residual unit is left in place and is never
    /// read for correctness again. If the old word showed zero strong units
    /// — only the weak-exist flag, the block being revived from the
    /// weak-only state — one more weak unit is taken for the new handle.
    pub fn acquire_strong_from_weak(&mut self) -> (alive: bool)
        requires
            old(self).strong <= MAX_REFCOUNT,
            old(self).weak <= MAX_REFCOUNT,
            !old(self).is_closed() ==> old(self).has_weak(),
        ensures
            alive == !old(self).is_closed(),
            final(self).strong == old(self).strong + SINGLE_STRONG,
            final(self).strong_count() == old(self).strong_count() + 1,
            final(self).is_closed() == old(self).is_closed(),
            final(self).has_weak() == old(self).has_weak(),
            final(self).value == old(self).value,
            (!old(self).is_closed() && old(self).strong_count() == 0) ==> final(self).weak
                == old(self).weak + SINGLE_WEAK,
            (old(self).is_closed() || old(self).strong_count() >= 1) ==> final(self).weak
                == old(self).weak,
    {
        proof {
            lemma_word_parts(self.strong as nat);
            lemma_strong_add(self.strong as nat);
        }
        let old_word = self.strong;
        self.strong = self.strong + SINGLE_STRONG;
        if old_word % 4 >= 2 {
            // the closed flag was already set
            return false;
        }
        if old_word < SINGLE_STRONG {
            // zero strong units: only the weak-exist flag was set
            self.weak = self.weak + SINGLE_WEAK;
        }
        true
    }

    /// `downgrade`: on the first downgrade ever (weak counter still zero)
    /// create the implicit group unit and the caller's unit in one step and
    /// set the weak-exist flag; otherwise just add one weak unit.
    pub fn acquire_weak_from_strong(&mut self)
        requires
            old(self).strong <= MAX_REFCOUNT,
            old(self).weak <= MAX_REFCOUNT,
            old(self).has_weak() <==> old(self).weak >= 1,
        ensures
            final(self).value == old(self).value,
            final(self).strong_count() == old(self).strong_count(),
            final(self).is_closed() == old(self).is_closed(),
            final(self).has_weak(),
            old(self).weak == 0 ==> {
                &&& final(self).weak == 2 * SINGLE_WEAK
                &&& final(self).strong == old(self).strong + WEAK_EXIST
            },
            old(self).weak >= 1 ==> {
                &&& final(self).weak == old(self).weak + SINGLE_WEAK
                &&& final(self).strong == old(self).strong
            },
    {
        if self.weak == 0 {
            // the one compare-and-swap from zero to two weak units
            proof {
                lemma_word_parts(self.strong as nat);
                lemma_flags_add(self.strong as nat, 1);
            }
            self.weak = 2 * SINGLE_WEAK;
            self.strong = self.strong + WEAK_EXIST;
        } else {
            proof {
                lemma_word_parts(self.strong as nat);
            }
            self.acquire_weak_from_weak();
        }
    }

    /// One more weak handle cloned from a bound weak handle: add one weak
    /// unit.
    pub fn acquire_weak_from_weak(&mut self)
        requires
            old(self).weak <= MAX_REFCOUNT,
        ensures
            final(self).weak == old(self).weak + SINGLE_WEAK,
            final(self).strong == old(self).strong,
            final(self).value == old(self).value,
    {
        self.weak = self.weak + SINGLE_WEAK;
    }

    /// Destroys the payload in place: the one point where the value dies.
    pub fn drop_inner(&mut self)
        requires
            old(self).payload_alive(),
        ensures
            final(self).value is None,
            final(self).strong == old(self).strong,
            final(self).weak == old(self).weak,
    {
        self.value = None;
    }
}

} // verus!
