//! A lock-free-style reference-counted smart-pointer pair, modelled and
//! verified: an owning handle (`Arc`) and a non-owning observer handle
//! (`Weak`) over a heap block holding a value plus two counters.
//!
//! The heap is modelled by an explicit arena, [`store::Store`], whose slots
//! stand for the blocks ever allocated; a freed block is an empty slot. Every
//! counter transition of the refcount protocol — the bit-packed strong word,
//! the weak counter, the close-on-last-strong handshake — is executable code
//! with a full contract, and the protocol's lifecycle laws (the payload is
//! destroyed exactly once, the memory is freed exactly once, and only in
//! order) are proved in [`protocol`] over every admissible sequence of
//! operations, however many handles take part. The race between an
//! `upgrade` and the drop of the last owning handle is proved safe at the
//! grain of single atomic instructions in [`interleave`].

pub mod block;
pub mod counter;
pub mod interleave;
pub mod protocol;
pub mod store;
