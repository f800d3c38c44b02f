//! Concurrency primitives described as verified protocols: a spin lock, a
//! single-use channel and a shared pointer with weak references.
//!
//! Each module states its primitive's state machine over plain values, gives
//! an owned container that runs it on real values, and proves the laws the
//! primitive is there for. The thread-shared forms keep their cells, pointers
//! and waiting loops outside the verified code; the channel and the shared
//! pointer among them take every decision on their state from the step
//! functions given here.
pub mod arc;
pub mod channel;
pub mod spin_lock;
