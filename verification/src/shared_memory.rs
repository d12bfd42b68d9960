//! The shared-memory playback loop: the current beat, published over and
//! over into a named region of eight bytes until the loop is interrupted.
//!
//! The beat is a 64-bit float that the beat clock computes.  The region
//! holds its bit pattern, least significant byte first.

use vstd::prelude::*;
use crate::frame::{append_le, le_bytes};

verus! {

/// Size of the shared region: one 64-bit float.
pub const REGION_SIZE: usize = 8;

/// Longest sleep between two publications, in microseconds.  It bounds how
/// long an interrupt waits.
pub const PUBLISH_SLEEP_MICROS: u64 = 100;

/// Progress of a block that never ends.
pub const INFINITE_PROGRESS: (usize, usize) = (0, 0);

/// The content of the region for the beat with bit pattern `bits`.
pub fn beat_bytes(bits: u64) -> (region: Vec<u8>)
    ensures
        region@ == le_bytes(bits),
        region@.len() == REGION_SIZE,
{
    let mut region: Vec<u8> = Vec::with_capacity(REGION_SIZE);
    append_le(&mut region, bits);
    region
}

/// What one turn of the loop does: on an interrupt it leaves, otherwise
/// it writes the beat and sleeps.
#[derive(Debug, Clone, PartialEq, Eq)]
pub enum Publish {
    /// Leave the loop: stop the group, clear the playing state.
    Leave,
    /// Write these bytes into the region, then sleep at most this many
    /// microseconds or until interrupted.
    Write { region: Vec<u8>, sleep_micros: u64 },
}

/// One turn of the loop, for the interrupt flag and the bit pattern of the
/// current beat.
pub fn publish(interrupted: bool, beat_bits: u64) -> (turn: Publish)
    ensures
        interrupted ==> turn == Publish::Leave,
        !interrupted ==> (turn matches Publish::Write { region, sleep_micros } && region@
            == le_bytes(beat_bits) && sleep_micros == PUBLISH_SLEEP_MICROS),
{
    if interrupted {
        Publish::Leave
    } else {
        Publish::Write { region: beat_bytes(beat_bits), sleep_micros: PUBLISH_SLEEP_MICROS }
    }
}

} // verus!
