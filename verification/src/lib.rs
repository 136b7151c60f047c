//! Core of a real-time, multi-session buzzer game server.
//!
//! A host creates a session identified by a short numeric code, players join
//! with a display name, and the first-to-buzz ordering plus live scores are
//! kept consistent for every participant.  This crate holds the verified
//! session state, the registry of active sessions, and the message router
//! that maps each inbound client event to state mutations and outbound
//! messages.  The transport (sockets, channels, serialization) lives outside.

use vstd::prelude::*;

pub mod actor;
pub mod game;
pub mod laws;
pub mod message;
pub mod registry;
pub mod router;

verus! {

/// Clamp an updated score to the non-negative range of `i32`.
///
/// Scores are mutated by host-issued deltas; the result is floored at zero
/// and saturates at `i32::MAX`.
pub open spec fn clamp_score(total: int) -> int {
    if total < 0 {
        0
    } else if total > i32::MAX as int {
        i32::MAX as int
    } else {
        total
    }
}

/// Apply a host-issued delta to a current score, clamped to `0..=i32::MAX`.
pub fn apply_delta(current: i32, delta: i32) -> (r: i32)
    ensures
        r == clamp_score(current + delta),
{
    let total: i64 = current as i64 + delta as i64;
    if total < 0 {
        0
    } else if total > i32::MAX as i64 {
        i32::MAX
    } else {
        total as i32
    }
}

} // verus!
