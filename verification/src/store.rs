//! The arena standing for the heap, and the two handle types.
//!
//! A [`Store`] owns every block ever allocated, one slot per block; freeing
//! a block empties its slot, and slots are never reused. [`Arc`] is the
//! owning handle and [`Weak`] the observer handle; both address their block
//! by slot. Each operation's contract states the exact counter transition —
//! also as a [`crate::protocol::block_step`], tying the executable code to
//! the protocol whose lifecycle laws are proved in [`crate::protocol`].

use crate::block::Block;
use crate::counter::{
    lemma_strong_sub, lemma_word_parts, CLOSED, MAX_REFCOUNT, SINGLE_STRONG, SINGLE_WEAK,
    WEAK_EXIST,
};
use crate::protocol::{block_step, fresh_state, freed_state, BlockState, ProtoOp};
use vstd::prelude::*;

verus! {

/// The arena: one slot per block ever allocated; `None` is a freed block.
pub struct Store<T> {
    /// The blocks, by allocation order.
    pub slots: Vec<Option<Block<T>>>,
}

impl<T> Store<T> {
    /// The slot holds a block whose memory has not been freed.
    pub open spec fn allocated(self, i: int) -> bool {
        0 <= i < self.slots@.len() && self.slots@[i] is Some
    }

    /// The block in an allocated slot.
    pub open spec fn block(self, i: int) -> Block<T> {
        self.slots@[i]->0
    }

    /// The slot's shared state, as the protocol sees it.
    pub open spec fn slot_state(self, i: int) -> BlockState {
        if self.allocated(i) {
            BlockState {
                word: self.block(i).strong as nat,
                weak: self.block(i).weak as nat,
                alive: self.block(i).payload_alive(),
                allocated: true,
            }
        } else {
            freed_state()
        }
    }

    /// Every allocated block is well-formed.
    pub open spec fn wf(self) -> bool {
        forall|i: int| self.allocated(i) ==> (#[trigger] self.block(i)).wf()
    }

    /// The other store differs from this one at most in slot `i`.
    pub open spec fn updated_at(self, other: Store<T>, i: int) -> bool {
        &&& other.slots@.len() == self.slots@.len()
        &&& forall|j: int|
            0 <= j < self.slots@.len() && j != i ==> other.slots@[j] == self.slots@[j]
    }

    /// A store stays well-formed when one slot changes to a well-formed
    /// block, or to a freed slot.
    proof fn lemma_wf_after_update(pre: Store<T>, post: Store<T>, i: int)
        requires
            pre.wf(),
            post.slots@.len() == pre.slots@.len(),
            forall|j: int|
                0 <= j < pre.slots@.len() && j != i ==> post.slots@[j] == pre.slots@[j],
            post.allocated(i) ==> post.block(i).wf(),
        ensures
            post.wf(),
    {
        assert forall|j: int| post.allocated(j) implies (#[trigger] post.block(j)).wf() by {
            if j != i {
                assert(post.slots@[j] == pre.slots@[j]);
                assert(pre.allocated(j));
                assert(pre.block(j).wf());
            }
        }
    }

    /// A store stays well-formed when a well-formed block is appended.
    proof fn lemma_wf_after_push(pre: Store<T>, post: Store<T>)
        requires
            pre.wf(),
            post.slots@.len() == pre.slots@.len() + 1,
            forall|j: int| 0 <= j < pre.slots@.len() ==> post.slots@[j] == pre.slots@[j],
            post.allocated(pre.slots@.len() as int) ==> post.block(
                pre.slots@.len() as int,
            ).wf(),
        ensures
            post.wf(),
    {
        assert forall|j: int| post.allocated(j) implies (#[trigger] post.block(j)).wf() by {
            if j < pre.slots@.len() {
                assert(post.slots@[j] == pre.slots@[j]);
                assert(pre.allocated(j));
                assert(pre.block(j).wf());
            }
        }
    }

    /// An empty heap.
    pub fn new() -> (s: Store<T>)
        ensures
            s.slots@.len() == 0,
            s.wf(),
    {
        Store { slots: Vec::new() }
    }

    /// How many blocks have ever been allocated, freed ones included.
    pub fn slot_count(&self) -> (n: usize)
        ensures
            n == self.slots@.len(),
    {
        self.slots.len()
    }

    /// Drop of one strong handle: subtract one strong count unit, and on
    /// the last one run the destruction protocol. With no weak interest the
    /// payload is destroyed and the block freed at once; otherwise the word
    /// is swapped from "zero strong, weak-exist" to "closed", the payload
    /// destroyed, and the group's weak unit released, which frees the block
    /// if it was the last weak unit anywhere.
    pub fn release_strong(&mut self, idx: usize)
        requires
            old(self).wf(),
            old(self).allocated(idx as int),
            !old(self).block(idx as int).is_closed(),
        ensures
            final(self).wf(),
            old(self).updated_at(*final(self), idx as int),
            final(self).slot_state(idx as int) == block_step(
                old(self).slot_state(idx as int),
                ProtoOp::ReleaseStrong,
            ),
            old(self).block(idx as int).strong_count() > 1 ==> {
                &&& final(self).allocated(idx as int)
                &&& final(self).block(idx as int).payload_alive()
                &&& final(self).block(idx as int).strong == old(self).block(idx as int).strong
                    - SINGLE_STRONG
                &&& final(self).block(idx as int).weak == old(self).block(idx as int).weak
                &&& final(self).block(idx as int).value == old(self).block(idx as int).value
            },
            old(self).block(idx as int).strong_count() == 1 && !old(self).block(
                idx as int,
            ).has_weak() ==> !final(self).allocated(idx as int),
            old(self).block(idx as int).strong_count() == 1 && old(self).block(
                idx as int,
            ).has_weak() && old(self).block(idx as int).weak == 1 ==> !final(self).allocated(
                idx as int,
            ),
            old(self).block(idx as int).strong_count() == 1 && old(self).block(
                idx as int,
            ).has_weak() && old(self).block(idx as int).weak > 1 ==> {
                &&& final(self).allocated(idx as int)
                &&& final(self).block(idx as int).is_closed()
                &&& !final(self).block(idx as int).payload_alive()
                &&& final(self).block(idx as int).strong == CLOSED
                &&& final(self).block(idx as int).weak == old(self).block(idx as int).weak
                    - SINGLE_WEAK
            },
    {
        proof {
            lemma_word_parts(old(self).block(idx as int).strong as nat);
            lemma_strong_sub(old(self).block(idx as int).strong as nat);
        }
        let slot = &mut self.slots[idx];
        let mut b = slot.take().unwrap();
        let old_word = b.strong;
        b.strong = b.strong - SINGLE_STRONG;
        if old_word > SINGLE_STRONG + WEAK_EXIST {
            // more than one strong unit remained: nothing further
            self.slots[idx] = Some(b);
            proof {
                Store::lemma_wf_after_update(*old(self), *self, idx as int);
            }
            return ;
        }
        let flags = old_word % 4;
        if flags != 1 && flags != 3 {
            // no weak ever existed: destroy the payload, free the block
            b.drop_inner();
            proof {
                Store::lemma_wf_after_update(*old(self), *self, idx as int);
            }
            return ;
        }
        // the compare-and-swap from "zero strong, weak-exist" to "closed":
        // with the last strong unit gone the word is exactly the flag
        if b.strong == WEAK_EXIST {
            proof {
                lemma_word_parts(CLOSED as nat);
            }
            b.strong = CLOSED;
            b.drop_inner();
        }
        self.slots[idx] = Some(b);
        proof {
            Store::lemma_wf_after_update(*old(self), *self, idx as int);
        }
        self.release_weak(idx);
    }

    /// Drop of one weak unit: subtract it, and free the block's memory if
    /// it was the last weak unit anywhere.
    pub fn release_weak(&mut self, idx: usize)
        requires
            old(self).wf(),
            old(self).allocated(idx as int),
            old(self).block(idx as int).weak >= 1,
        ensures
            final(self).wf(),
            old(self).updated_at(*final(self), idx as int),
            final(self).slot_state(idx as int) == block_step(
                old(self).slot_state(idx as int),
                ProtoOp::ReleaseWeak,
            ),
            old(self).block(idx as int).weak == 1 ==> !final(self).allocated(idx as int),
            old(self).block(idx as int).weak > 1 ==> {
                &&& final(self).allocated(idx as int)
                &&& final(self).block(idx as int).strong == old(self).block(idx as int).strong
                &&& final(self).block(idx as int).weak == old(self).block(idx as int).weak
                    - SINGLE_WEAK
                &&& final(self).block(idx as int).value == old(self).block(idx as int).value
            },
    {
        let slot = &mut self.slots[idx];
        let mut b = slot.take().unwrap();
        let old_weak = b.weak;
        b.weak = b.weak - SINGLE_WEAK;
        if old_weak == SINGLE_WEAK {
            // the last weak unit anywhere: the block's memory goes
            proof {
                Store::lemma_wf_after_update(*old(self), *self, idx as int);
            }
            return ;
        }
        self.slots[idx] = Some(b);
        proof {
            Store::lemma_wf_after_update(*old(self), *self, idx as int);
        }
    }
}

/// The owning handle: keeps the payload alive, gives read access to it.
#[derive(Debug)]
pub struct Arc {
    /// The slot of the block this handle owns a strong unit of.
    pub idx: usize,
}

impl Arc {
    /// The handle is sound against a store: its block is allocated, not
    /// closed, and holds the strong unit this handle contributes.
    pub open spec fn valid<T>(self, s: Store<T>) -> bool {
        &&& s.allocated(self.idx as int)
        &&& !s.block(self.idx as int).is_closed()
        &&& s.block(self.idx as int).strong_count() >= 1
    }

    /// Allocates a fresh block holding `value` and returns the one strong
    /// handle owning it.
    pub fn new<T>(store: &mut Store<T>, value: T) -> (this: Arc)
        ensures
            this.idx == old(store).slots@.len(),
            final(store).slots@.len() == old(store).slots@.len() + 1,
            forall|j: int|
                0 <= j < old(store).slots@.len() ==> final(store).slots@[j] == old(
                    store,
                ).slots@[j],
            final(store).slot_state(this.idx as int) == fresh_state(),
            final(store).block(this.idx as int).value == Some(value),
            this.valid(*final(store)),
            old(store).wf() ==> final(store).wf(),
    {
        proof {
            lemma_word_parts(SINGLE_STRONG as nat);
        }
        let idx = store.slots.len();
        store.slots.push(Some(Block::new(value)));
        proof {
            if old(store).wf() {
                Store::lemma_wf_after_push(*old(store), *store);
            }
        }
        Arc { idx }
    }

    /// `clone`: one more owning handle on the same block.
    pub fn clone<T>(this: &Arc, store: &mut Store<T>) -> (other: Arc)
        requires
            old(store).wf(),
            this.valid(*old(store)),
            old(store).block(this.idx as int).strong <= MAX_REFCOUNT,
        ensures
            final(store).wf(),
            other.idx == this.idx,
            old(store).updated_at(*final(store), this.idx as int),
            final(store).slot_state(this.idx as int) == block_step(
                old(store).slot_state(this.idx as int),
                ProtoOp::CloneStrong,
            ),
            final(store).block(this.idx as int).strong_count() == old(store).block(
                this.idx as int,
            ).strong_count() + 1,
            final(store).block(this.idx as int).weak == old(store).block(this.idx as int).weak,
            final(store).block(this.idx as int).value == old(store).block(this.idx as int).value,
            this.valid(*final(store)),
            other.valid(*final(store)),
    {
        let slot = &mut store.slots[this.idx];
        let mut b = slot.take().unwrap();
        b.acquire_strong_from_strong();
        store.slots[this.idx] = Some(b);
        proof {
            Store::lemma_wf_after_update(*old(store), *store, this.idx as int);
        }
        Arc { idx: this.idx }
    }

    /// `downgrade`: derive a bound observer handle from an owning handle.
    pub fn downgrade<T>(this: &Arc, store: &mut Store<T>) -> (w: Weak)
        requires
            old(store).wf(),
            this.valid(*old(store)),
            old(store).block(this.idx as int).strong <= MAX_REFCOUNT,
            old(store).block(this.idx as int).weak <= MAX_REFCOUNT,
        ensures
            final(store).wf(),
            w.bound == Some(this.idx),
            old(store).updated_at(*final(store), this.idx as int),
            final(store).slot_state(this.idx as int) == block_step(
                old(store).slot_state(this.idx as int),
                ProtoOp::Downgrade,
            ),
            final(store).block(this.idx as int).strong_count() == old(store).block(
                this.idx as int,
            ).strong_count(),
            final(store).block(this.idx as int).value == old(store).block(this.idx as int).value,
            old(store).block(this.idx as int).weak == 0 ==> final(store).block(
                this.idx as int,
            ).weak == 2 * SINGLE_WEAK,
            old(store).block(this.idx as int).weak >= 1 ==> final(store).block(
                this.idx as int,
            ).weak == old(store).block(this.idx as int).weak + SINGLE_WEAK,
            this.valid(*final(store)),
            w.valid(*final(store)),
    {
        let slot = &mut store.slots[this.idx];
        let mut b = slot.take().unwrap();
        b.acquire_weak_from_strong();
        store.slots[this.idx] = Some(b);
        proof {
            Store::lemma_wf_after_update(*old(store), *store, this.idx as int);
        }
        Weak { bound: Some(this.idx) }
    }

    /// Read-only access to the payload: the handle's existence guarantees
    /// the payload is alive.
    pub fn deref<'a, T>(this: &Arc, store: &'a Store<T>) -> (v: &'a T)
        requires
            store.wf(),
            this.valid(*store),
        ensures
            *v == store.block(this.idx as int).value->0,
    {
        match &store.slots[this.idx] {
            Some(b) => match &b.value {
                Some(v) => v,
                None => unreached(),
            },
            None => unreached(),
        }
    }

    /// The debug view: the raw strong word and weak counter, as a diagnostic
    /// probe, not part of the correctness contract.
    pub fn counters<T>(this: &Arc, store: &Store<T>) -> (c: (usize, usize))
        requires
            this.valid(*store),
        ensures
            c.0 == store.block(this.idx as int).strong,
            c.1 == store.block(this.idx as int).weak,
    {
        match &store.slots[this.idx] {
            Some(b) => (b.strong, b.weak),
            None => unreached(),
        }
    }

    /// Drop of an owning handle.
    pub fn release<T>(this: Arc, store: &mut Store<T>)
        requires
            old(store).wf(),
            this.valid(*old(store)),
        ensures
            final(store).wf(),
            old(store).updated_at(*final(store), this.idx as int),
            final(store).slot_state(this.idx as int) == block_step(
                old(store).slot_state(this.idx as int),
                ProtoOp::ReleaseStrong,
            ),
            old(store).block(this.idx as int).strong_count() > 1 ==> {
                &&& final(store).allocated(this.idx as int)
                &&& final(store).block(this.idx as int).payload_alive()
                &&& final(store).block(this.idx as int).strong_count() == old(store).block(
                    this.idx as int,
                ).strong_count() - 1
            },
            old(store).block(this.idx as int).strong_count() == 1 ==> !final(store).block(
                this.idx as int,
            ).payload_alive() || !final(store).allocated(this.idx as int),
            old(store).block(this.idx as int).strong_count() == 1 && !old(store).block(
                this.idx as int,
            ).has_weak() ==> !final(store).allocated(this.idx as int),
    {
        store.release_strong(this.idx);
    }
}

/// The observer handle: either dangling — bound to no block at all — or
/// bound, owning one weak unit of its block.
#[derive(Debug)]
pub struct Weak {
    /// The slot of the block this handle observes, or nothing at all.
    pub bound: Option<usize>,
}

impl Weak {
    /// The handle was never bound to any block.
    pub open spec fn dangling(self) -> bool {
        self.bound is None
    }

    /// The slot a bound handle observes.
    pub open spec fn target(self) -> int {
        self.bound->0 as int
    }

    /// The handle is sound against a store: dangling, or holding one weak
    /// unit of an allocated block — with the group unit beside it while the
    /// payload is still alive.
    pub open spec fn valid<T>(self, s: Store<T>) -> bool {
        self.dangling() || {
            &&& s.allocated(self.target())
            &&& !s.block(self.target()).is_closed() ==> s.block(self.target()).weak >= 2
            &&& s.block(self.target()).is_closed() ==> s.block(self.target()).weak >= 1
        }
    }

    /// The dangling observer: bound to nothing, it allocates nothing and
    /// never touches any shared state.
    pub fn new() -> (w: Weak)
        ensures
            w.dangling(),
    {
        Weak { bound: None }
    }

    /// Whether this is the dangling sentinel.
    pub fn is_dangling(&self) -> (r: bool)
        ensures
            r == self.dangling(),
    {
        self.bound.is_none()
    }

    /// `clone`: a dangling handle is copied as it is, with no shared-state
    /// access; a bound handle takes one more weak unit.
    pub fn clone<T>(this: &Weak, store: &mut Store<T>) -> (other: Weak)
        requires
            old(store).wf(),
            this.valid(*old(store)),
            !this.dangling() ==> old(store).block(this.target()).weak <= MAX_REFCOUNT,
        ensures
            final(store).wf(),
            other.bound == this.bound,
            this.dangling() ==> *final(store) == *old(store),
            !this.dangling() ==> {
                &&& old(store).updated_at(*final(store), this.target())
                &&& final(store).slot_state(this.target()) == block_step(
                    old(store).slot_state(this.target()),
                    ProtoOp::CloneWeak,
                )
                &&& final(store).block(this.target()).weak == old(store).block(this.target()).weak
                    + SINGLE_WEAK
                &&& final(store).block(this.target()).strong == old(store).block(
                    this.target(),
                ).strong
                &&& final(store).block(this.target()).value == old(store).block(
                    this.target(),
                ).value
                &&& this.valid(*final(store))
                &&& other.valid(*final(store))
            },
    {
        match &this.bound {
            None => Weak { bound: None },
            Some(i) => {
                let idx = *i;
                let slot = &mut store.slots[idx];
                let mut b = slot.take().unwrap();
                b.acquire_weak_from_weak();
                store.slots[idx] = Some(b);
                proof {
                    Store::lemma_wf_after_update(*old(store), *store, idx as int);
                }
                Weak { bound: Some(idx) }
            },
        }
    }

    /// `upgrade`: attempt to regain an owning handle. A dangling handle
    /// fails outright, allocating nothing and touching nothing. A bound
    /// handle speculatively takes a strong unit: if the block was already
    /// closed the attempt fails — the residual unit is never read for
    /// correctness again — and otherwise a fully valid owning handle joins.
    pub fn upgrade<T>(this: &Weak, store: &mut Store<T>) -> (r: Option<Arc>)
        requires
            old(store).wf(),
            this.valid(*old(store)),
            !this.dangling() ==> old(store).block(this.target()).strong <= MAX_REFCOUNT,
            !this.dangling() ==> old(store).block(this.target()).weak <= MAX_REFCOUNT,
        ensures
            final(store).wf(),
            this.dangling() ==> r is None && *final(store) == *old(store),
            !this.dangling() ==> {
                &&& old(store).updated_at(*final(store), this.target())
                &&& final(store).slot_state(this.target()) == block_step(
                    old(store).slot_state(this.target()),
                    ProtoOp::Upgrade,
                )
                &&& (r is Some <==> !old(store).block(this.target()).is_closed())
                &&& r is Some ==> {
                    &&& r->0.idx == this.target()
                    &&& r->0.valid(*final(store))
                    &&& final(store).block(this.target()).payload_alive()
                    &&& final(store).block(this.target()).value == old(store).block(
                        this.target(),
                    ).value
                }
                &&& r is None ==> {
                    &&& final(store).block(this.target()).is_closed()
                    &&& final(store).block(this.target()).strong == old(store).block(
                        this.target(),
                    ).strong + SINGLE_STRONG
                    &&& final(store).block(this.target()).weak == old(store).block(
                        this.target(),
                    ).weak
                }
                &&& this.valid(*final(store))
            },
    {
        match &this.bound {
            None => None,
            Some(i) => {
                let idx = *i;
                let slot = &mut store.slots[idx];
                let mut b = slot.take().unwrap();
                let ok = b.acquire_strong_from_weak();
                store.slots[idx] = Some(b);
                proof {
                    Store::lemma_wf_after_update(*old(store), *store, idx as int);
                }
                if ok {
                    Some(Arc { idx })
                } else {
                    None
                }
            },
        }
    }

    /// Drop of an observer handle: a no-op for the dangling sentinel;
    /// otherwise one weak unit is released, freeing the block if it was the
    /// last. While the payload is alive the group unit is still there, so
    /// dropping an observer never frees a live block.
    pub fn release<T>(this: Weak, store: &mut Store<T>)
        requires
            old(store).wf(),
            this.valid(*old(store)),
        ensures
            final(store).wf(),
            this.dangling() ==> *final(store) == *old(store),
            !this.dangling() ==> {
                &&& old(store).updated_at(*final(store), this.target())
                &&& final(store).slot_state(this.target()) == block_step(
                    old(store).slot_state(this.target()),
                    ProtoOp::ReleaseWeak,
                )
                &&& !old(store).block(this.target()).is_closed() ==> {
                    &&& final(store).allocated(this.target())
                    &&& final(store).block(this.target()).payload_alive()
                    &&& final(store).block(this.target()).strong == old(store).block(
                        this.target(),
                    ).strong
                }
                &&& old(store).block(this.target()).is_closed() && old(store).block(
                    this.target(),
                ).weak == 1 ==> !final(store).allocated(this.target())
            },
    {
        match this.bound {
            None => {},
            Some(i) => {
                store.release_weak(i);
            },
        }
    }
}

} // verus!
