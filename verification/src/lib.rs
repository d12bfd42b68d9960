//! Time-aligned playback and group synchronisation core of a synchronised
//! player for laptop orchestras.
//!
//! Every decision the player takes is a function from plain values to plain
//! values with a proved contract: the wire format of group frames, the
//! negotiation of the current group, the bookkeeping of the multicast
//! transport, the audio engine's request protocol and the note tracking of
//! the MIDI playback loop.  Sockets, clocks, threads and MIDI ports stay with
//! the caller, which performs what these functions decide.

pub mod audio_engine;
pub mod block;
pub mod frame;
pub mod groups;
pub mod handlers;
pub mod ident;
pub mod midi;
pub mod net;
pub mod playback;
pub mod shared_memory;
pub mod state;
pub mod version;
