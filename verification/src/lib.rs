//! Core state engine for recruitment panels: a per-user wizard collects the
//! settings of a recruitment post (server, mode, rank, party size), and a
//! capacity-aware roster engine serves concurrent join / leave / delete
//! requests for the published panel until it fills, is deleted, or expires.
//!
//! Rendering, the chat platform, and the durable key-value store are outside
//! collaborators: this crate holds the data model, the state machines, and
//! the record codec, all verified.

pub mod record;
pub mod roster;
pub mod text;
pub mod types;
pub mod wizard;

use vstd::prelude::*;

verus! {

/// `true` exactly when a roster with `joined_users` members out of
/// `max_member` capacity is full.
pub fn is_fill(joined_users: usize, max_member: u8) -> (r: bool)
    ensures
        r == (joined_users == max_member as usize),
{
    joined_users == max_member as usize
}

/// Whether the standing "create a recruitment" panel should be re-posted:
/// always when none is remembered, otherwise once at least four messages
/// have arrived after it.
pub fn is_updatable(has_latest_entry: bool, newer_messages: usize) -> (r: bool)
    ensures
        r == (!has_latest_entry || newer_messages >= 4),
{
    !has_latest_entry || newer_messages >= 4
}

} // verus!
