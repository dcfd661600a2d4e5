//! A typed-report dispatch pipeline.
//!
//! Producers submit typed report items; a registry routes each item to the
//! FIFO channel of its kind; one consumer per kind drains that channel and
//! turns each item into a CSV record for its sink. The decisions of every
//! party are verified state machines over plain data; threads, locks and
//! files live in the application around this library.
//!
//! Policies:
//! - Registering a kind whose channel is still open is refused with
//!   `AlreadyRegistered`; after a shutdown the kind may be registered again,
//!   on a fresh channel.
//! - Producers never register kinds on their own: submitting an unregistered
//!   kind fails with `UnregisteredKind`.
//! - A consumer waits for its channel until an item arrives or the channel
//!   is closed; it never gives up on an open channel.
//! - A handle cached by a producer whose channel was closed yields
//!   `ChannelClosed` once and is then dropped from the cache.
use vstd::prelude::*;

pub mod consumer;
pub mod context;
pub mod global_state;
pub mod laws;
pub mod record;
pub mod report;

verus! {

} // verus!
