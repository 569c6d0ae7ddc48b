//! The release race, at the grain of single atomic instructions.
//!
//! Dropping the last strong handle of a block with weak interest is not one
//! atomic step: it is a decrement, and then — in a separate instruction — a
//! compare-and-swap that closes the block, destroys the payload and lets
//! the group's weak unit go. Between the two, an `upgrade` may land, revive
//! the block from the weak-only state, and make the compare-and-swap fail.
//! This module models every operation at that grain: a release is a
//! [`MicroOp::ReleaseStrongSub`] followed, when the decrement hit zero with
//! weak interest, by a [`MicroOp::ReleaseStrongFinish`], and any number of
//! threads interleave such steps freely. The invariant [`micro_inv`] is
//! preserved by every step, the revival path included, and the laws below
//! say what the race can and cannot do: the payload dies only in a finish
//! step that no upgrade beat, exactly once, and an upgrade either fails or
//! joins the live handles of an alive payload.

use crate::counter::{
    closed, count_of, lemma_flags_add, lemma_pack, lemma_strong_add, lemma_strong_sub,
    lemma_word_parts, weak_exist, CLOSED, MAX_REFCOUNT,
};
use crate::protocol::{block_step, freed_state, fresh_state, inv, BlockState, ProtoOp, ProtoState};
use vstd::prelude::*;

verus! {

/// One atomic instruction of the protocol, as issued by some thread.
pub enum MicroOp {
    /// `clone` of a strong handle: one increment.
    CloneStrong,
    /// `downgrade`: the weak-side compare-and-swap or increment.
    Downgrade,
    /// `clone` of a bound weak handle: one increment.
    CloneWeak,
    /// `drop` of a bound weak handle: one decrement, freeing on zero.
    ReleaseWeak,
    /// `upgrade`: the optimistic strong increment, with its weak-side
    /// follow-up when it revives the block.
    Upgrade,
    /// `drop` of a strong handle: the release decrement. If more strong
    /// units remain, or no weak interest exists, the drop ends here.
    ReleaseStrongSub,
    /// The deferred phase of a drop whose decrement hit zero with weak
    /// interest: the compare-and-swap against the word "zero strong,
    /// weak-exist", and the release of the group's weak unit.
    ReleaseStrongFinish,
}

/// The whole system at instruction grain: the block, the live handles, and
/// the threads standing between the two phases of their release.
pub struct MicroState {
    /// The block's shared state.
    pub b: BlockState,
    /// Live strong handles.
    pub strongs: nat,
    /// Live bound weak handles.
    pub weaks: nat,
    /// Threads that performed the release decrement to zero and still owe
    /// the deferred phase.
    pub pending: nat,
}

/// The system the moment `new` returns.
pub open spec fn micro_init() -> MicroState {
    MicroState { b: fresh_state(), strongs: 1, weaks: 0, pending: 0 }
}

/// The block transition of one instruction.
pub open spec fn micro_block_step(s: BlockState, op: MicroOp) -> BlockState {
    match op {
        MicroOp::CloneStrong => block_step(s, ProtoOp::CloneStrong),
        MicroOp::Downgrade => block_step(s, ProtoOp::Downgrade),
        MicroOp::CloneWeak => block_step(s, ProtoOp::CloneWeak),
        MicroOp::ReleaseWeak => block_step(s, ProtoOp::ReleaseWeak),
        MicroOp::Upgrade => block_step(s, ProtoOp::Upgrade),
        MicroOp::ReleaseStrongSub => if count_of(s.word) > 1 {
            // not the last strong unit: the drop is already over
            BlockState { word: (s.word - 4) as nat, ..s }
        } else if !weak_exist(s.word) {
            // no weak interest: destroy and free at once — nothing else
            // holds any reference that could interleave here
            freed_state()
        } else {
            // the decrement alone; the deferred phase is still owed
            BlockState { word: (s.word - 4) as nat, ..s }
        },
        MicroOp::ReleaseStrongFinish => if s.word == 1 {
            // the compare-and-swap lands: close, destroy the payload,
            // release the group's weak unit
            if s.weak <= 1 {
                freed_state()
            } else {
                BlockState { word: CLOSED as nat, weak: (s.weak - 1) as nat, alive: false, ..s }
            }
        } else {
            // an upgrade revived the block first (or another finish already
            // closed it): no destruction; the weak unit still goes
            if s.weak <= 1 {
                freed_state()
            } else {
                BlockState { weak: (s.weak - 1) as nat, ..s }
            }
        },
    }
}

/// An instruction can be issued: its thread holds what it acts through.
pub open spec fn micro_enabled(s: MicroState, op: MicroOp) -> bool {
    &&& s.b.allocated
    &&& match op {
        MicroOp::CloneStrong | MicroOp::Downgrade | MicroOp::ReleaseStrongSub => s.strongs >= 1,
        MicroOp::CloneWeak | MicroOp::ReleaseWeak | MicroOp::Upgrade => s.weaks >= 1,
        MicroOp::ReleaseStrongFinish => s.pending >= 1,
    }
    &&& s.b.word <= MAX_REFCOUNT
    &&& s.b.weak <= MAX_REFCOUNT
}

/// One step of the whole system.
pub open spec fn micro_step(s: MicroState, op: MicroOp) -> MicroState {
    MicroState {
        b: micro_block_step(s.b, op),
        strongs: match op {
            MicroOp::CloneStrong => s.strongs + 1,
            MicroOp::ReleaseStrongSub => (s.strongs - 1) as nat,
            MicroOp::Upgrade => if closed(s.b.word) {
                s.strongs
            } else {
                s.strongs + 1
            },
            _ => s.strongs,
        },
        weaks: match op {
            MicroOp::Downgrade => s.weaks + 1,
            MicroOp::CloneWeak => s.weaks + 1,
            MicroOp::ReleaseWeak => (s.weaks - 1) as nat,
            _ => s.weaks,
        },
        pending: match op {
            MicroOp::ReleaseStrongSub => if count_of(s.b.word) == 1 && weak_exist(s.b.word) {
                s.pending + 1
            } else {
                s.pending
            },
            MicroOp::ReleaseStrongFinish => (s.pending - 1) as nat,
            _ => s.pending,
        },
    }
}

/// The invariant at instruction grain.
///
/// While the payload is alive, the count field equals the live strong
/// handles, and the weak counter holds one unit per bound weak handle, one
/// per owed deferred phase, and — whenever any strong handle exists — the
/// group's unit. A reviving upgrade puts in the unit that the beaten
/// release will take back out. With no strong handle left, the word is
/// exactly the weak-exist flag: the very value the compare-and-swap tests.
pub open spec fn micro_inv(s: MicroState) -> bool {
    &&& !s.b.allocated ==> {
        &&& s.strongs == 0
        &&& s.weaks == 0
        &&& s.pending == 0
        &&& s.b == freed_state()
    }
    &&& s.b.allocated ==> {
        &&& s.b.alive == !closed(s.b.word)
        &&& !closed(s.b.word) ==> {
            &&& count_of(s.b.word) == s.strongs
            &&& s.strongs + s.pending >= 1
            &&& !weak_exist(s.b.word) ==> {
                &&& s.b.weak == 0
                &&& s.weaks == 0
                &&& s.pending == 0
            }
            &&& weak_exist(s.b.word) ==> s.b.weak == s.weaks + s.pending + (
            if s.strongs >= 1 {
                1nat
            } else {
                0nat
            })
            &&& s.strongs == 0 ==> s.b.word == 1
        }
        &&& closed(s.b.word) ==> {
            &&& s.strongs == 0
            &&& !weak_exist(s.b.word)
            &&& s.b.weak == s.weaks + s.pending
            &&& s.b.weak >= 1
        }
    }
}

/// The fresh system satisfies the invariant.
pub proof fn law_micro_init()
    ensures
        micro_inv(micro_init()),
{
    lemma_word_parts(4);
}

/// Every enabled instruction preserves the invariant — under any
/// interleaving of any number of threads, the revival race included.
pub proof fn law_micro_step_preserves_inv(s: MicroState, op: MicroOp)
    requires
        micro_inv(s),
        micro_enabled(s, op),
    ensures
        micro_inv(micro_step(s, op)),
{
    lemma_word_parts(s.b.word);
    match op {
        MicroOp::CloneStrong => {
            lemma_strong_add(s.b.word);
        },
        MicroOp::Downgrade => {
            if s.b.weak == 0 {
                lemma_flags_add(s.b.word, 1);
            }
        },
        MicroOp::CloneWeak => {
        },
        MicroOp::ReleaseWeak => {
        },
        MicroOp::Upgrade => {
            lemma_strong_add(s.b.word);
        },
        MicroOp::ReleaseStrongSub => {
            lemma_strong_sub(s.b.word);
        },
        MicroOp::ReleaseStrongFinish => {
            lemma_word_parts(CLOSED as nat);
            lemma_pack(0, 1);
        },
    }
}

/// The instruction destroys the payload.
pub open spec fn micro_destroys(s: MicroState, op: MicroOp) -> bool {
    s.b.alive && !micro_block_step(s.b, op).alive
}

/// The payload dies only under a release: either the one-step death of a
/// last strong handle without weak interest, or a deferred phase whose
/// compare-and-swap found the word untouched — and in both cases no strong
/// handle exists any more at that instruction.
pub proof fn law_micro_destroys_only_without_strongs(s: MicroState, op: MicroOp)
    requires
        micro_inv(s),
        micro_enabled(s, op),
        micro_destroys(s, op),
    ensures
        (op matches MicroOp::ReleaseStrongSub && s.strongs == 1 && !weak_exist(s.b.word)) || (op
            matches MicroOp::ReleaseStrongFinish && s.strongs == 0 && s.b.word == 1),
{
    lemma_word_parts(s.b.word);
    match op {
        MicroOp::CloneStrong => {
            lemma_strong_add(s.b.word);
        },
        MicroOp::Downgrade => {
            if s.b.weak == 0 {
                lemma_flags_add(s.b.word, 1);
            }
        },
        MicroOp::CloneWeak => {
        },
        MicroOp::ReleaseWeak => {
        },
        MicroOp::Upgrade => {
            lemma_strong_add(s.b.word);
        },
        MicroOp::ReleaseStrongSub => {
            lemma_strong_sub(s.b.word);
        },
        MicroOp::ReleaseStrongFinish => {
        },
    }
}

/// The instruction frees the block's memory.
pub open spec fn micro_frees(s: MicroState, op: MicroOp) -> bool {
    s.b.allocated && !micro_block_step(s.b, op).allocated
}

/// The block's memory goes only when nothing refers to it any more: after
/// the freeing instruction no handle, no owed deferred phase, no weak unit
/// and no live payload remain.
pub proof fn law_micro_free_implies_unreferenced(s: MicroState, op: MicroOp)
    requires
        micro_inv(s),
        micro_enabled(s, op),
        micro_frees(s, op),
    ensures
        micro_step(s, op).strongs == 0,
        micro_step(s, op).weaks == 0,
        micro_step(s, op).pending == 0,
        micro_step(s, op).b == freed_state(),
{
    lemma_word_parts(s.b.word);
    match op {
        MicroOp::CloneStrong => {
            lemma_strong_add(s.b.word);
        },
        MicroOp::Downgrade => {
            if s.b.weak == 0 {
                lemma_flags_add(s.b.word, 1);
            }
        },
        MicroOp::CloneWeak => {
        },
        MicroOp::ReleaseWeak => {
        },
        MicroOp::Upgrade => {
            lemma_strong_add(s.b.word);
        },
        MicroOp::ReleaseStrongSub => {
            lemma_strong_sub(s.b.word);
        },
        MicroOp::ReleaseStrongFinish => {
        },
    }
}

/// No instruction is enabled against a freed block: its memory is gone and
/// it is never touched again, so it is freed at most once.
pub proof fn law_micro_freed_block_is_done(s: MicroState, op: MicroOp)
    requires
        !s.b.allocated,
    ensures
        !micro_enabled(s, op),
{
}

/// The race of `upgrade` against the drop of the last strong handle, at
/// instruction grain. Whoever lands second decides: an upgrade against a
/// block whose deferred phase has not yet run finds the payload alive,
/// revives the block and joins the live handles — and the loser's
/// compare-and-swap will find the word changed and destroy nothing. An
/// upgrade after the close finds the payload gone, changes no handle
/// population, and leaves only the harmless residual increment.
pub proof fn law_micro_upgrade_race(s: MicroState)
    requires
        micro_inv(s),
        micro_enabled(s, MicroOp::Upgrade),
    ensures
        s.b.alive ==> {
            &&& micro_step(s, MicroOp::Upgrade).b.alive
            &&& micro_step(s, MicroOp::Upgrade).strongs == s.strongs + 1
            &&& count_of(micro_step(s, MicroOp::Upgrade).b.word) >= 1
            &&& !micro_destroys(micro_step(s, MicroOp::Upgrade), MicroOp::ReleaseStrongFinish)
        },
        !s.b.alive ==> {
            &&& !micro_step(s, MicroOp::Upgrade).b.alive
            &&& micro_step(s, MicroOp::Upgrade).strongs == s.strongs
            &&& micro_step(s, MicroOp::Upgrade).weaks == s.weaks
        },
{
    lemma_word_parts(s.b.word);
    lemma_strong_add(s.b.word);
}

/// A destroyed payload stays destroyed: no instruction revives it.
pub proof fn law_micro_destruction_is_final(s: MicroState, op: MicroOp)
    requires
        !s.b.alive,
    ensures
        !micro_block_step(s.b, op).alive,
{
}

/// The state after a sequence of instructions.
pub open spec fn micro_run(s: MicroState, t: Seq<MicroOp>) -> MicroState
    decreases t.len(),
{
    if t.len() == 0 {
        s
    } else {
        micro_run(micro_step(s, t[0]), t.drop_first())
    }
}

/// Every instruction of the sequence is enabled when its turn comes.
pub open spec fn micro_all_enabled(s: MicroState, t: Seq<MicroOp>) -> bool
    decreases t.len(),
{
    t.len() == 0 || (micro_enabled(s, t[0]) && micro_all_enabled(
        micro_step(s, t[0]),
        t.drop_first(),
    ))
}

/// How many instructions of the sequence destroy the payload.
pub open spec fn micro_destroy_count(s: MicroState, t: Seq<MicroOp>) -> nat
    decreases t.len(),
{
    if t.len() == 0 {
        0
    } else {
        (if micro_destroys(s, t[0]) {
            1nat
        } else {
            0nat
        }) + micro_destroy_count(micro_step(s, t[0]), t.drop_first())
    }
}

/// A destroyed payload stays destroyed along any instruction sequence.
pub proof fn law_micro_dead_stays_dead(s: MicroState, t: Seq<MicroOp>)
    requires
        !s.b.alive,
    ensures
        !micro_run(s, t).b.alive,
    decreases t.len(),
{
    if t.len() > 0 {
        law_micro_destruction_is_final(s, t[0]);
        law_micro_dead_stays_dead(micro_step(s, t[0]), t.drop_first());
    }
}

/// Along any admissible interleaving of instructions, the payload is
/// destroyed exactly once if it dies at all — however many upgrades,
/// releases and deferred phases cross each other on the way.
pub proof fn law_micro_destroyed_exactly_once(s: MicroState, t: Seq<MicroOp>)
    requires
        micro_inv(s),
        micro_all_enabled(s, t),
    ensures
        micro_destroy_count(s, t) == if s.b.alive && !micro_run(s, t).b.alive {
            1nat
        } else {
            0nat
        },
    decreases t.len(),
{
    if t.len() > 0 {
        law_micro_step_preserves_inv(s, t[0]);
        law_micro_destroyed_exactly_once(micro_step(s, t[0]), t.drop_first());
        if !s.b.alive {
            law_micro_destruction_is_final(s, t[0]);
        }
        if !micro_step(s, t[0]).b.alive {
            law_micro_dead_stays_dead(micro_step(s, t[0]), t.drop_first());
        }
    }
}

/// Between instructions, the coarse system of [`crate::protocol`] is this
/// one: with no deferred phase owed anywhere, the two invariants coincide.
pub proof fn law_quiescent_micro_is_coarse(s: MicroState)
    requires
        s.pending == 0,
    ensures
        micro_inv(s) <==> inv(ProtoState { b: s.b, strongs: s.strongs, weaks: s.weaks }),
{
    lemma_word_parts(s.b.word);
}

/// An uninterrupted drop of a strong handle — its decrement followed at
/// once by its deferred phase where one is owed — is exactly the one-step
/// release of the coarse system: the executable release performs the whole
/// of it inside one exclusive borrow of the store.
pub proof fn law_release_uninterrupted(s: MicroState)
    requires
        micro_inv(s),
        micro_enabled(s, MicroOp::ReleaseStrongSub),
        s.pending == 0,
    ensures
        (count_of(s.b.word) > 1 || !weak_exist(s.b.word)) ==> micro_step(
            s,
            MicroOp::ReleaseStrongSub,
        ).b == block_step(s.b, ProtoOp::ReleaseStrong),
        (count_of(s.b.word) == 1 && weak_exist(s.b.word)) ==> micro_step(
            micro_step(s, MicroOp::ReleaseStrongSub),
            MicroOp::ReleaseStrongFinish,
        ).b == block_step(s.b, ProtoOp::ReleaseStrong),
{
    lemma_word_parts(s.b.word);
    lemma_strong_sub(s.b.word);
}

} // verus!
