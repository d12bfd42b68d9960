//! Blocks: the basic units of something playable.
//!
//! A block stores what is common to everything playable (group, keybind,
//! order) and the description of what is played.

use vstd::prelude::*;

verus! {

/// Representation of anything that can be played.
#[derive(Debug, Clone, PartialEq, Eq)]
pub struct Block {
    /// Custom order from the user.
    pub order: Option<usize>,
    /// Group in which the content is played synchronously; empty for none.
    pub group: String,
    /// Associated user keybind, if any.
    pub keybind: String,
    /// Description of what is played, and how.
    pub content: Content,
}

/// Different kinds of content that can be played.
#[derive(Debug, Clone, PartialEq, Eq)]
pub enum Content {
    /// A MIDI file with its metadata.
    Midi(MidiSource),
    /// Path of a shared memory region into which the beat is published.
    SharedMemory { path: String },
}

/// Description of a MIDI source.
#[derive(Debug, Clone, PartialEq, Eq)]
pub struct MidiSource {
    /// The bytes of the standard MIDI file.
    pub bytes: Vec<u8>,
    /// Name of the file that the source was read from.
    pub file_name: String,
    /// Index into the list of MIDI output ports.
    pub associated_port: usize,
}

impl Content {
    /// The name shown for the content: file name or path.
    pub open spec fn spec_name(self) -> String {
        match self {
            Content::Midi(source) => source.file_name,
            Content::SharedMemory { path } => path,
        }
    }

    /// Human readable name of the content.
    pub fn name(&self) -> (name: String)
        ensures
            name == self.spec_name(),
    {
        match self {
            Content::Midi(midi_source) => midi_source.file_name.clone(),
            Content::SharedMemory { path } => path.clone(),
        }
    }
}

} // verus!
