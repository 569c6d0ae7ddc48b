//! The refcount protocol as a transition system, and its lifecycle laws.
//!
//! A block's shared state is a [`BlockState`]; each handle operation is a
//! [`ProtoOp`], and [`block_step`] gives the counter transition the protocol
//! prescribes for it. The executable operations in [`crate::store`] promise
//! in their contracts to perform exactly these transitions. A whole system —
//! the block together with however many live strong and weak handles exist
//! across any number of threads — is a [`ProtoState`]; interleaved handle
//! operations are arbitrary sequences of enabled steps, and the laws below
//! are proved over all of them: the payload is destroyed exactly once, at
//! the release of the last strong handle; the memory is freed exactly once,
//! only once the payload is gone and every weak unit has been dropped; and
//! an upgrade either joins the live handles or fails harmlessly.

use crate::counter::{
    closed, count_of, lemma_flags_add, lemma_pack, lemma_strong_add, lemma_strong_sub,
    lemma_word_parts, weak_exist, CLOSED, MAX_REFCOUNT,
};
use vstd::prelude::*;

verus! {

/// The shared state of one block: its bit-packed strong word, its weak
/// counter, whether the payload is still alive, and whether the block's
/// memory is still allocated.
pub struct BlockState {
    /// The bit-packed strong word.
    pub word: nat,
    /// The weak counter, in weak units.
    pub weak: nat,
    /// The payload has not been destroyed yet.
    pub alive: bool,
    /// The block's memory has not been freed yet.
    pub allocated: bool,
}

/// One handle operation against a block.
pub enum ProtoOp {
    /// `clone` of a strong handle.
    CloneStrong,
    /// `drop` of a strong handle.
    ReleaseStrong,
    /// `downgrade` of a strong handle.
    Downgrade,
    /// `clone` of a bound weak handle.
    CloneWeak,
    /// `drop` of a bound weak handle.
    ReleaseWeak,
    /// `upgrade` of a bound weak handle.
    Upgrade,
}

/// The state of a block the moment a strong handle allocates it: one strong
/// unit, no flags, no weak units, payload alive.
pub open spec fn fresh_state() -> BlockState {
    BlockState { word: 4, weak: 0, alive: true, allocated: true }
}

/// The state standing for a freed block: its counters are gone with it.
pub open spec fn freed_state() -> BlockState {
    BlockState { word: 0, weak: 0, alive: false, allocated: false }
}

/// The counter transition of one operation, exactly as the executable
/// protocol performs it.
pub open spec fn block_step(s: BlockState, op: ProtoOp) -> BlockState {
    match op {
        ProtoOp::CloneStrong => BlockState { word: s.word + 4, ..s },
        ProtoOp::Downgrade => if s.weak == 0 {
            // first downgrade ever: create the implicit group unit and the
            // caller's unit in one step, and set the weak-exist flag
            BlockState { word: s.word + 1, weak: 2, ..s }
        } else {
            BlockState { weak: s.weak + 1, ..s }
        },
        ProtoOp::CloneWeak => BlockState { weak: s.weak + 1, ..s },
        ProtoOp::ReleaseWeak => if s.weak <= 1 {
            // the last weak unit anywhere frees the block
            freed_state()
        } else {
            BlockState { weak: (s.weak - 1) as nat, ..s }
        },
        ProtoOp::Upgrade => if closed(s.word) {
            // too late: the speculative increment stays as a residue
            BlockState { word: s.word + 4, ..s }
        } else if count_of(s.word) == 0 {
            // reviving from the weak-only state takes one more weak unit
            BlockState { word: s.word + 4, weak: s.weak + 1, ..s }
        } else {
            BlockState { word: s.word + 4, ..s }
        },
        ProtoOp::ReleaseStrong => if count_of(s.word) > 1 {
            // not the last strong handle
            BlockState { word: (s.word - 4) as nat, ..s }
        } else if !weak_exist(s.word) {
            // no weak ever existed: destroy the payload and free at once
            freed_state()
        } else if s.weak <= 1 {
            // close, destroy the payload, release the group weak unit —
            // which was the last weak unit, so the block is freed too
            freed_state()
        } else {
            // close, destroy the payload, release the group weak unit
            BlockState { word: CLOSED as nat, weak: (s.weak - 1) as nat, alive: false, ..s }
        },
    }
}

/// A whole system: the block and the numbers of live strong and bound weak
/// handles that exist across all threads.
pub struct ProtoState {
    /// The block's shared state.
    pub b: BlockState,
    /// Live strong handles.
    pub strongs: nat,
    /// Live bound weak handles.
    pub weaks: nat,
}

/// The system the moment `new` returns: one strong handle, nothing else.
pub open spec fn init_state() -> ProtoState {
    ProtoState { b: fresh_state(), strongs: 1, weaks: 0 }
}

/// Whether an operation is performed through a strong handle.
pub open spec fn op_needs_strong(op: ProtoOp) -> bool {
    op matches ProtoOp::CloneStrong || op matches ProtoOp::ReleaseStrong || op
        matches ProtoOp::Downgrade
}

/// Whether an operation is performed through a bound weak handle.
pub open spec fn op_needs_weak(op: ProtoOp) -> bool {
    op matches ProtoOp::CloneWeak || op matches ProtoOp::ReleaseWeak || op
        matches ProtoOp::Upgrade
}

/// An operation can be issued: a handle of the right kind exists, and the
/// counters are below the hard safety limit, which the executable protocol
/// enforces by aborting rather than wrapping.
pub open spec fn enabled(s: ProtoState, op: ProtoOp) -> bool {
    &&& s.b.allocated
    &&& op_needs_strong(op) ==> s.strongs >= 1
    &&& op_needs_weak(op) ==> s.weaks >= 1
    &&& s.b.word <= MAX_REFCOUNT
    &&& s.b.weak <= MAX_REFCOUNT
}

/// One step of the whole system: the block moves by [`block_step`], and the
/// handle populations change with the operation's outcome.
pub open spec fn step(s: ProtoState, op: ProtoOp) -> ProtoState {
    ProtoState {
        b: block_step(s.b, op),
        strongs: match op {
            ProtoOp::CloneStrong => s.strongs + 1,
            ProtoOp::ReleaseStrong => (s.strongs - 1) as nat,
            ProtoOp::Upgrade => if closed(s.b.word) {
                s.strongs
            } else {
                s.strongs + 1
            },
            _ => s.strongs,
        },
        weaks: match op {
            ProtoOp::Downgrade => s.weaks + 1,
            ProtoOp::CloneWeak => s.weaks + 1,
            ProtoOp::ReleaseWeak => (s.weaks - 1) as nat,
            _ => s.weaks,
        },
    }
}

/// The system invariant, tying the counters to the handle populations.
///
/// While the payload is alive the strong count field equals the number of
/// live strong handles, and the weak counter holds one unit per bound weak
/// handle plus the implicit group unit, present exactly when the weak-exist
/// flag is set. Once closed, no strong handle exists, the flag is cleared,
/// and the weak counter counts the weak handles alone. A freed block has no
/// handles at all.
pub open spec fn inv(s: ProtoState) -> bool {
    &&& !s.b.allocated ==> {
        &&& s.strongs == 0
        &&& s.weaks == 0
        &&& s.b == freed_state()
    }
    &&& s.b.allocated ==> {
        &&& s.b.alive == !closed(s.b.word)
        &&& !closed(s.b.word) ==> {
            &&& count_of(s.b.word) == s.strongs
            &&& s.strongs >= 1
            &&& (weak_exist(s.b.word) <==> s.b.weak >= 1)
            &&& weak_exist(s.b.word) ==> s.b.weak == 1 + s.weaks
            &&& !weak_exist(s.b.word) ==> s.weaks == 0
        }
        &&& closed(s.b.word) ==> {
            &&& s.strongs == 0
            &&& !weak_exist(s.b.word)
            &&& s.b.weak == s.weaks
            &&& s.weaks >= 1
        }
    }
}

/// The operation destroys the payload.
pub open spec fn destroys(s: ProtoState, op: ProtoOp) -> bool {
    s.b.alive && !block_step(s.b, op).alive
}

/// The operation frees the block's memory.
pub open spec fn frees(s: ProtoState, op: ProtoOp) -> bool {
    s.b.allocated && !block_step(s.b, op).allocated
}

/// A freshly allocated block satisfies the invariant.
pub proof fn law_init()
    ensures
        inv(init_state()),
{
    lemma_word_parts(4);
}

/// Every enabled operation preserves the invariant: the protocol never
/// loses track of a handle, whatever the interleaving.
pub proof fn law_step_preserves_inv(s: ProtoState, op: ProtoOp)
    requires
        inv(s),
        enabled(s, op),
    ensures
        inv(step(s, op)),
{
    lemma_word_parts(s.b.word);
    match op {
        ProtoOp::CloneStrong => {
            lemma_strong_add(s.b.word);
        },
        ProtoOp::Downgrade => {
            if s.b.weak == 0 {
                lemma_flags_add(s.b.word, 1);
            }
        },
        ProtoOp::CloneWeak => {
        },
        ProtoOp::ReleaseWeak => {
        },
        ProtoOp::Upgrade => {
            lemma_strong_add(s.b.word);
        },
        ProtoOp::ReleaseStrong => {
            lemma_strong_sub(s.b.word);
            lemma_word_parts(CLOSED as nat);
        },
    }
}

/// The payload is destroyed exactly at the release of the last strong
/// handle: no operation destroys it earlier, none later, and nothing but a
/// strong handle's release destroys it at all — under any interleaving of
/// handle operations by any number of threads.
pub proof fn law_destroys_iff_last_strong_release(s: ProtoState, op: ProtoOp)
    requires
        inv(s),
        enabled(s, op),
    ensures
        destroys(s, op) <==> (op matches ProtoOp::ReleaseStrong && s.strongs == 1),
{
    lemma_word_parts(s.b.word);
    match op {
        ProtoOp::CloneStrong => {
            lemma_strong_add(s.b.word);
        },
        ProtoOp::Downgrade => {
        },
        ProtoOp::CloneWeak => {
        },
        ProtoOp::ReleaseWeak => {
        },
        ProtoOp::Upgrade => {
            lemma_strong_add(s.b.word);
        },
        ProtoOp::ReleaseStrong => {
            lemma_strong_sub(s.b.word);
        },
    }
}

/// Destruction is final: a destroyed payload never comes back to life.
pub proof fn law_destruction_is_final(s: ProtoState, op: ProtoOp)
    requires
        !s.b.alive,
    ensures
        !block_step(s.b, op).alive,
{
}

/// The block's memory is freed only once the payload is destroyed (or is
/// being destroyed by that same release) and every weak unit — the bound
/// handles' and the implicit group unit — is gone with it: after the
/// freeing step nothing is alive, counted, or still holding a handle.
pub proof fn law_free_implies_dead_and_unreferenced(s: ProtoState, op: ProtoOp)
    requires
        inv(s),
        enabled(s, op),
        frees(s, op),
    ensures
        !step(s, op).b.alive,
        step(s, op).b.weak == 0,
        step(s, op).strongs == 0,
        step(s, op).weaks == 0,
{
    lemma_word_parts(s.b.word);
    match op {
        ProtoOp::CloneStrong => {
            lemma_strong_add(s.b.word);
        },
        ProtoOp::Downgrade => {
            if s.b.weak == 0 {
                lemma_flags_add(s.b.word, 1);
            }
        },
        ProtoOp::CloneWeak => {
        },
        ProtoOp::ReleaseWeak => {
        },
        ProtoOp::Upgrade => {
            lemma_strong_add(s.b.word);
        },
        ProtoOp::ReleaseStrong => {
            lemma_strong_sub(s.b.word);
        },
    }
}

/// Freeing is final: no operation is enabled against a freed block, so its
/// slot sees no further transition of any kind.
pub proof fn law_freed_block_is_done(s: ProtoState, op: ProtoOp)
    requires
        !s.b.allocated,
    ensures
        !enabled(s, op),
{
}

/// The three phases of a block's life.
pub enum Phase {
    /// Strong handles exist and the payload is alive.
    Alive,
    /// The payload is destroyed, weak interest keeps the memory around.
    Closing,
    /// The memory is released.
    Freed,
}

/// The phase a block state is in.
pub open spec fn phase_of(b: BlockState) -> Phase {
    if !b.allocated {
        Phase::Freed
    } else if b.alive {
        Phase::Alive
    } else {
        Phase::Closing
    }
}

/// The position of a phase in the block's one-way life.
pub open spec fn phase_index(p: Phase) -> int {
    match p {
        Phase::Alive => 0,
        Phase::Closing => 1,
        Phase::Freed => 2,
    }
}

/// A block moves through its phases monotonically — alive, closing, freed
/// — and re-enters none of them.
pub proof fn law_phases_are_monotone(s: ProtoState, op: ProtoOp)
    requires
        inv(s),
        enabled(s, op),
    ensures
        phase_index(phase_of(s.b)) <= phase_index(phase_of(block_step(s.b, op))),
{
    if !s.b.alive {
        law_destruction_is_final(s, op);
    }
}

/// An upgrade racing with the drop of the last strong handle is safe under
/// either outcome: if it lands while the payload is alive it joins the live
/// strong handles — and by the destruction law the payload then stays alive
/// until that handle too is released — and if the payload is already gone
/// the attempt changes no handle population and revives nothing.
pub proof fn law_upgrade_is_race_free(s: ProtoState)
    requires
        inv(s),
        enabled(s, ProtoOp::Upgrade),
    ensures
        s.b.alive ==> {
            &&& step(s, ProtoOp::Upgrade).b.alive
            &&& step(s, ProtoOp::Upgrade).strongs == s.strongs + 1
            &&& inv(step(s, ProtoOp::Upgrade))
        },
        !s.b.alive ==> {
            &&& !step(s, ProtoOp::Upgrade).b.alive
            &&& step(s, ProtoOp::Upgrade).strongs == s.strongs
            &&& step(s, ProtoOp::Upgrade).weaks == s.weaks
            &&& inv(step(s, ProtoOp::Upgrade))
        },
{
    lemma_word_parts(s.b.word);
    lemma_strong_add(s.b.word);
    law_step_preserves_inv(s, ProtoOp::Upgrade);
}

/// The state after a sequence of operations.
pub open spec fn run(s: ProtoState, t: Seq<ProtoOp>) -> ProtoState
    decreases t.len(),
{
    if t.len() == 0 {
        s
    } else {
        run(step(s, t[0]), t.drop_first())
    }
}

/// Every operation of the sequence is enabled when its turn comes: the
/// sequence is one admissible interleaving of the handles' operations.
pub open spec fn all_enabled(s: ProtoState, t: Seq<ProtoOp>) -> bool
    decreases t.len(),
{
    t.len() == 0 || (enabled(s, t[0]) && all_enabled(step(s, t[0]), t.drop_first()))
}

/// How many steps of the sequence destroy the payload.
pub open spec fn destroy_count(s: ProtoState, t: Seq<ProtoOp>) -> nat
    decreases t.len(),
{
    if t.len() == 0 {
        0
    } else {
        (if destroys(s, t[0]) {
            1nat
        } else {
            0nat
        }) + destroy_count(step(s, t[0]), t.drop_first())
    }
}

/// How many steps of the sequence free the block's memory.
pub open spec fn free_count(s: ProtoState, t: Seq<ProtoOp>) -> nat
    decreases t.len(),
{
    if t.len() == 0 {
        0
    } else {
        (if frees(s, t[0]) {
            1nat
        } else {
            0nat
        }) + free_count(step(s, t[0]), t.drop_first())
    }
}

/// A system of `k` strong handles alone: no weak interest ever existed.
pub open spec fn strong_only(k: nat) -> ProtoState {
    ProtoState {
        b: BlockState { word: 4 * k, weak: 0, alive: true, allocated: true },
        strongs: k,
        weaks: 0,
    }
}

/// Running `n` clones of strong handles, one after another in any thread,
/// adds `n` strong handles and `n` count units and nothing else.
proof fn lemma_clone_run(k: nat, n: nat)
    requires
        k >= 1,
        4 * k + 4 * n <= MAX_REFCOUNT,
    ensures
        all_enabled(strong_only(k), Seq::new(n, |i: int| ProtoOp::CloneStrong)),
        run(strong_only(k), Seq::new(n, |i: int| ProtoOp::CloneStrong)) == strong_only(k + n),
    decreases n,
{
    lemma_pack(k, 0);
    if n > 0 {
        let t = Seq::new(n, |i: int| ProtoOp::CloneStrong);
        assert(step(strong_only(k), t[0]) == strong_only(k + 1));
        assert(t.drop_first() =~= Seq::new((n - 1) as nat, |i: int| ProtoOp::CloneStrong));
        lemma_clone_run(k + 1, (n - 1) as nat);
    }
}

/// Releasing `j` of `k` strong handles, one after another in any thread,
/// keeps the payload alive as long as one handle remains; releasing the
/// last one destroys the payload and, with no weak interest, frees the
/// block in the same stroke.
proof fn lemma_release_run(k: nat, j: nat)
    requires
        1 <= k,
        j <= k,
        4 * k <= MAX_REFCOUNT,
    ensures
        all_enabled(strong_only(k), Seq::new(j, |i: int| ProtoOp::ReleaseStrong)),
        j < k ==> run(strong_only(k), Seq::new(j, |i: int| ProtoOp::ReleaseStrong))
            == strong_only((k - j) as nat),
        j == k ==> run(strong_only(k), Seq::new(j, |i: int| ProtoOp::ReleaseStrong)) == (ProtoState {
            b: freed_state(),
            strongs: 0,
            weaks: 0,
        }),
    decreases j,
{
    lemma_pack(k, 0);
    if j > 0 {
        let t = Seq::new(j, |i: int| ProtoOp::ReleaseStrong);
        assert(t.drop_first() =~= Seq::new((j - 1) as nat, |i: int| ProtoOp::ReleaseStrong));
        if k > 1 {
            assert(step(strong_only(k), t[0]) == strong_only((k - 1) as nat));
            lemma_release_run((k - 1) as nat, (j - 1) as nat);
        } else {
            assert(step(strong_only(k), t[0]) == (ProtoState {
                b: freed_state(),
                strongs: 0,
                weaks: 0,
            }));
            assert(t.drop_first().len() == 0);
            assert(all_enabled(step(strong_only(k), t[0]), t.drop_first()));
            assert(run(step(strong_only(k), t[0]), t.drop_first()) == step(
                strong_only(k),
                t[0],
            ));
        }
    }
}

/// A group of cloners: from the single fresh handle, `n` clones are taken
/// — by any number of threads, one interleaved protocol step each — and
/// then the `n + 1` handles are released. The payload stays alive under
/// every proper subset of the releases, and the very last release destroys
/// it and frees the block in one stroke, no weak interest ever existing.
pub proof fn law_cloners_hold_the_payload(n: nat, j: nat)
    requires
        4 * n + 8 <= MAX_REFCOUNT,
        j <= n,
    ensures
        all_enabled(init_state(), Seq::new(n, |i: int| ProtoOp::CloneStrong)),
        run(init_state(), Seq::new(n, |i: int| ProtoOp::CloneStrong)) == strong_only(n + 1),
        all_enabled(strong_only(n + 1), Seq::new(j, |i: int| ProtoOp::ReleaseStrong)),
        run(strong_only(n + 1), Seq::new(j, |i: int| ProtoOp::ReleaseStrong)).b.alive,
        run(strong_only(n + 1), Seq::new(n + 1, |i: int| ProtoOp::ReleaseStrong)).b
            == freed_state(),
{
    assert(init_state() == strong_only(1));
    lemma_clone_run(1, n);
    lemma_release_run(n + 1, j);
    lemma_pack((n + 1 - j) as nat, 0);
    lemma_release_run(n + 1, n + 1);
}

/// The invariant holds along any admissible interleaving.
pub proof fn law_run_preserves_inv(s: ProtoState, t: Seq<ProtoOp>)
    requires
        inv(s),
        all_enabled(s, t),
    ensures
        inv(run(s, t)),
    decreases t.len(),
{
    if t.len() > 0 {
        law_step_preserves_inv(s, t[0]);
        law_run_preserves_inv(step(s, t[0]), t.drop_first());
    }
}

/// A destroyed payload stays destroyed along any sequence of operations.
pub proof fn law_dead_stays_dead(s: ProtoState, t: Seq<ProtoOp>)
    requires
        !s.b.alive,
    ensures
        !run(s, t).b.alive,
    decreases t.len(),
{
    if t.len() > 0 {
        law_destruction_is_final(s, t[0]);
        law_dead_stays_dead(step(s, t[0]), t.drop_first());
    }
}

/// A freed block sees no admissible operation at all, so it stays freed.
pub proof fn law_freed_stays_freed(s: ProtoState, t: Seq<ProtoOp>)
    requires
        !s.b.allocated,
        all_enabled(s, t),
    ensures
        !run(s, t).b.allocated,
        t.len() == 0,
{
}

/// Along any admissible interleaving the payload is destroyed exactly once
/// if it dies at all: once if the run ends with the payload gone, and not
/// at all if it ends with the payload alive.
pub proof fn law_destroyed_exactly_once(s: ProtoState, t: Seq<ProtoOp>)
    requires
        inv(s),
        all_enabled(s, t),
    ensures
        destroy_count(s, t) == if s.b.alive && !run(s, t).b.alive {
            1nat
        } else {
            0nat
        },
    decreases t.len(),
{
    if t.len() > 0 {
        law_step_preserves_inv(s, t[0]);
        law_destroyed_exactly_once(step(s, t[0]), t.drop_first());
        if !s.b.alive {
            law_destruction_is_final(s, t[0]);
        }
        if !step(s, t[0]).b.alive {
            law_dead_stays_dead(step(s, t[0]), t.drop_first());
        }
    }
}

/// Along any admissible interleaving the block's memory is freed exactly
/// once if it is freed at all: once if the run ends with the block freed,
/// and not at all if it ends with the block still allocated.
pub proof fn law_freed_exactly_once(s: ProtoState, t: Seq<ProtoOp>)
    requires
        inv(s),
        all_enabled(s, t),
    ensures
        free_count(s, t) == if s.b.allocated && !run(s, t).b.allocated {
            1nat
        } else {
            0nat
        },
    decreases t.len(),
{
    if t.len() > 0 {
        law_step_preserves_inv(s, t[0]);
        law_freed_exactly_once(step(s, t[0]), t.drop_first());
        if !step(s, t[0]).b.allocated {
            law_freed_stays_freed(step(s, t[0]), t.drop_first());
        }
    }
}

} // verus!
