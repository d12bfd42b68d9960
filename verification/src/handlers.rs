//! What the requests of the user interface do to blocks.
//!
//! The structs are the schemas of the forms that the interface posts; the
//! functions are the changes they make.  Rendering, routing and storing
//! belong to the interface.

use vstd::prelude::*;
use vstd::utf8::{encode_utf8, is_char_boundary};
use vstd::string::StringSliceAdditionalSpecFns;
use crate::block::{Block, Content, MidiSource};
use crate::ident::{hex_of, sha1_of, shared_memory_block_id};

verus! {

broadcast use {
    vstd::utf8::encode_utf8_valid_utf8,
    vstd::utf8::is_char_boundary_start_end_of_seq,
};

/// Schema of the request that sets the group of a block.
#[derive(Debug, Clone, PartialEq, Eq)]
pub struct SetGroup {
    /// Group label to set.
    pub group: String,
}

/// Schema of the request that sets the keybind of a block.
#[derive(Debug, Clone, PartialEq, Eq)]
pub struct SetKeybind {
    /// Keybind to set.
    pub keybind: String,
}

/// Schema of the request that selects the port of a MIDI block.
#[derive(Debug, Clone, Copy, PartialEq, Eq)]
pub struct SetPort {
    /// MIDI port to set.
    pub port: usize,
}

/// Schema of the request that creates a shared memory block.
#[derive(Debug, Clone, PartialEq, Eq)]
pub struct AddSharedMemoryBlock {
    /// Path of the shared memory region.
    pub path: String,
}

/// Schema of the request that sets the nick.
#[derive(Debug, Clone, PartialEq, Eq)]
pub struct SetNick {
    /// Name that the user prefers.
    pub nick: String,
}

/// What the interface shows of the playback in progress.
#[derive(Debug, Clone, Copy, PartialEq, Eq)]
pub enum Progress {
    /// The block never ends.
    Infinite,
    /// So many per cent of the block's events are done.
    Percent(usize),
}

/// The progress shown for `done` events of `total`.  A block without
/// events, such as a shared memory block, is infinite.
pub fn playing_progress(done: usize, total: usize) -> (progress: Progress)
    requires
        total > 0 || done == 0,
        done * 100 <= usize::MAX,
    ensures
        done == 0 && total == 0 ==> progress == Progress::Infinite,
        total > 0 ==> (progress matches Progress::Percent(percent) && percent == done * 100 / (
        total as int)),
{
    if done == 0 && total == 0 {
        return Progress::Infinite;
    }
    Progress::Percent(done * 100 / total)
}

/// `cut` is where a label of these bytes is cut to fit a frame: the last
/// character boundary within the first 15 bytes.
pub open spec fn cut_point(bytes: Seq<u8>, cut: int) -> bool {
    &&& 0 <= cut <= 15
    &&& is_char_boundary(bytes, cut)
    &&& forall|c: int| cut < c <= 15 ==> !is_char_boundary(bytes, c)
}

/// `label` cut to at most 15 bytes without splitting a character.  A label
/// that fits stays as it is.
pub fn truncate_group(label: &str) -> (r: String)
    ensures
        encode_utf8(r@).len() <= 15,
        encode_utf8(label@).len() <= 15 ==> r@ == label@,
        encode_utf8(label@).len() > 15 ==> exists|cut: int|
            cut_point(encode_utf8(label@), cut) && encode_utf8(r@) == encode_utf8(
                label@,
            ).subrange(0, cut),
{
    let len = label.as_bytes().len();
    if len <= 15 {
        return label.to_owned();
    }
    let ghost bytes = label.spec_bytes();
    assert(is_char_boundary(bytes, 0));
    let mut cut: usize = 15;
    while !label.is_char_boundary(cut)
        invariant
            cut <= 15,
            bytes == label.spec_bytes(),
            is_char_boundary(bytes, 0),
            forall|c: int| cut < c <= 15 ==> !is_char_boundary(bytes, c),
        decreases cut,
    {
        cut -= 1;
    }
    let (head, _) = label.split_at(cut);
    let r = head.to_owned();
    assert(cut_point(bytes, cut as int));
    assert(encode_utf8(r@) == bytes.subrange(0, cut as int));
    r
}

impl SetGroup {
    /// Set the group of `block`, cut to what fits a frame.
    pub fn apply(self, block: &mut Block)
        ensures
            final(block).order == old(block).order,
            final(block).keybind == old(block).keybind,
            final(block).content == old(block).content,
            encode_utf8(final(block).group@).len() <= 15,
            encode_utf8(self.group@).len() <= 15 ==> final(block).group@ == self.group@,
            encode_utf8(self.group@).len() > 15 ==> exists|cut: int|
                cut_point(encode_utf8(self.group@), cut) && encode_utf8(final(block).group@)
                    == encode_utf8(self.group@).subrange(0, cut),
    {
        block.group = truncate_group(self.group.as_str());
    }
}

impl SetKeybind {
    /// Set the keybind of `block`.
    pub fn apply(self, block: &mut Block)
        ensures
            *final(block) == (Block { keybind: self.keybind, ..*old(block) }),
    {
        block.keybind = self.keybind;
    }
}

impl SetPort {
    /// Select the port of a MIDI source among the ports `min..=max`.  A
    /// port outside of them changes nothing.  Returns whether the port was
    /// set.
    pub fn apply(&self, source: &mut MidiSource, min: usize, max: usize) -> (set: bool)
        ensures
            set == (min <= self.port <= max),
            final(source).bytes == old(source).bytes,
            final(source).file_name == old(source).file_name,
            final(source).associated_port == (if set {
                self.port
            } else {
                old(source).associated_port
            }),
    {
        if self.port < min || self.port > max {
            return false;
        }
        source.associated_port = self.port;
        true
    }
}

impl AddSharedMemoryBlock {
    /// The block for the shared memory region and its identifier.  The
    /// block is in no group and has neither keybind nor order.
    pub fn block(self) -> (r: (String, Block))
        ensures
            r.0@ == "shm"@ + seq!['-'] + hex_of(sha1_of(encode_utf8(self.path@))),
            r.1.order is None,
            r.1.group@ == Seq::<char>::empty(),
            r.1.keybind@ == Seq::<char>::empty(),
            r.1.content == (Content::SharedMemory { path: self.path }),
    {
        let id = shared_memory_block_id(self.path.as_str());
        let block = Block {
            order: None,
            group: String::new(),
            keybind: String::new(),
            content: Content::SharedMemory { path: self.path },
        };
        (id, block)
    }
}

} // verus!
