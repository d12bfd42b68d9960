//! The state that the user interface, the audio engine and the playback
//! share: the blocks by identifier, and what is playing.
//!
//! The caller puts it behind whatever lock it likes; every operation here
//! is short and touches nothing else.

use vstd::prelude::*;
use crate::block::Block;

verus! {

/// A block under its identifier.
#[derive(Debug, Clone, PartialEq, Eq)]
pub struct Entry {
    /// Identifier: the kind of block and the hash of its content.
    pub uuid: String,
    /// The block.
    pub block: Block,
}

/// Shared state of the player.
#[derive(Debug, PartialEq, Eq)]
pub struct AppState {
    /// All blocks; no identifier occurs twice.
    pub blocks: Vec<Entry>,
    /// Identifier of the block that is playing, if any.
    pub currently_playing_uuid: Option<String>,
    /// Progress on the playing block as `(done, total)`; `(0, 0)` for
    /// blocks that never end.
    pub current_playing_progress: (usize, usize),
    /// Port on which the user interface is served.
    pub port: u16,
    /// Nick by which users tell each other apart.
    pub nick: String,
}

/// No identifier occurs twice.
pub open spec fn unique(blocks: Seq<Entry>) -> bool {
    forall|i: int, j: int|
        0 <= i < j < blocks.len() ==> (#[trigger] blocks[i]).uuid@ != (#[trigger] blocks[j]).uuid@
}

/// `blocks` holds an entry for `uuid`.
pub open spec fn holds_id(blocks: Seq<Entry>, uuid: Seq<char>) -> bool {
    exists|i: int| 0 <= i < blocks.len() && (#[trigger] blocks[i]).uuid@ == uuid
}

/// The block that `blocks` holds under `uuid`.
pub open spec fn lookup(blocks: Seq<Entry>, uuid: Seq<char>) -> Option<Block> {
    if holds_id(blocks, uuid) {
        let i = choose|i: int| 0 <= i < blocks.len() && (#[trigger] blocks[i]).uuid@ == uuid;
        Some(blocks[i].block)
    } else {
        None
    }
}

/// Where identifiers are unique, an entry is what is found under its
/// identifier.
pub proof fn lemma_lookup_entry(blocks: Seq<Entry>, i: int)
    requires
        unique(blocks),
        0 <= i < blocks.len(),
    ensures
        lookup(blocks, blocks[i].uuid@) == Some(blocks[i].block),
{
    let uuid = blocks[i].uuid@;
    assert(holds_id(blocks, uuid));
    let j = choose|j: int| 0 <= j < blocks.len() && (#[trigger] blocks[j]).uuid@ == uuid;
    assert(i == j);
}

impl AppState {
    /// Identifiers are unique.
    pub open spec fn wf(self) -> bool {
        unique(self.blocks@)
    }

    /// The block under `uuid`.
    pub open spec fn get(self, uuid: Seq<char>) -> Option<Block> {
        lookup(self.blocks@, uuid)
    }

    /// State without blocks, with nothing playing.
    pub fn new(port: u16, nick: String) -> (state: Self)
        ensures
            state.wf(),
            state.blocks@.len() == 0,
            state.currently_playing_uuid is None,
            state.current_playing_progress == (0usize, 0usize),
            state.port == port,
            state.nick == nick,
            forall|uuid: Seq<char>| state.get(uuid) is None,
    {
        AppState {
            blocks: Vec::new(),
            currently_playing_uuid: None,
            current_playing_progress: (0, 0),
            port,
            nick,
        }
    }

    /// Where the entry for `uuid` stands.
    pub fn position(&self, uuid: &String) -> (at: Option<usize>)
        ensures
            match at {
                Some(i) => i < self.blocks@.len() && self.blocks@[i as int].uuid@ == uuid@,
                None => !holds_id(self.blocks@, uuid@),
            },
    {
        let mut i: usize = 0;
        while i < self.blocks.len()
            invariant
                i <= self.blocks@.len(),
                forall|k: int| 0 <= k < i ==> (#[trigger] self.blocks@[k]).uuid@ != uuid@,
            decreases self.blocks@.len() - i,
        {
            if self.blocks[i].uuid == *uuid {
                return Some(i);
            }
            i += 1;
        }
        None
    }

    /// The block with identifier `uuid`.
    pub fn block(&self, uuid: &String) -> (found: Option<&Block>)
        requires
            self.wf(),
        ensures
            match found {
                Some(block) => self.get(uuid@) == Some(*block),
                None => self.get(uuid@) is None,
            },
    {
        match self.position(uuid) {
            Some(i) => {
                proof {
                    lemma_lookup_entry(self.blocks@, i as int);
                }
                Some(&self.blocks[i].block)
            },
            None => None,
        }
    }

    /// Put `block` under `uuid`, in place of what was there.
    pub fn insert(&mut self, uuid: String, block: Block)
        requires
            old(self).wf(),
        ensures
            final(self).wf(),
            final(self).currently_playing_uuid == old(self).currently_playing_uuid,
            final(self).current_playing_progress == old(self).current_playing_progress,
            final(self).port == old(self).port,
            final(self).nick == old(self).nick,
            forall|other: Seq<char>|
                final(self).get(other) == (if other == uuid@ {
                    Some(block)
                } else {
                    old(self).get(other)
                }),
    {
        let ghost before = self.blocks@;
        let at = self.position(&uuid);
        let ghost slot: int;
        match at {
            Some(i) => {
                self.blocks.set(i, Entry { uuid, block });
                proof {
                    slot = i as int;
                }
            },
            None => {
                self.blocks.push(Entry { uuid, block });
                proof {
                    slot = before.len() as int;
                }
            },
        }
        proof {
            let after = self.blocks@;
            assert(after[slot].uuid@ == uuid@ && after[slot].block == block);
            assert forall|k: int| 0 <= k < after.len() && k != slot implies after[k] == before[k] by {}
            assert(unique(after)) by {
                assert forall|i: int, j: int| 0 <= i < j < after.len() implies (#[trigger] after[i]).uuid@
                    != (#[trigger] after[j]).uuid@ by {
                    if i != slot && j != slot {
                        assert(before[i].uuid@ != before[j].uuid@);
                    } else if i == slot {
                        if slot < before.len() {
                            assert(before[i].uuid@ != before[j].uuid@);
                        }
                    } else {
                        if slot < before.len() {
                            assert(before[i].uuid@ != before[j].uuid@);
                        } else {
                            assert(before[i].uuid@ != uuid@);
                        }
                    }
                }
            }
            assert forall|other: Seq<char>|
                lookup(after, other) == (if other == uuid@ {
                    Some(block)
                } else {
                    lookup(before, other)
                }) by {
                if other == uuid@ {
                    lemma_lookup_entry(after, slot);
                } else if holds_id(before, other) {
                    let k = choose|k: int| 0 <= k < before.len() && (#[trigger] before[k]).uuid@ == other;
                    lemma_lookup_entry(before, k);
                    assert(k != slot);
                    assert(after[k] == before[k]);
                    lemma_lookup_entry(after, k);
                } else if holds_id(after, other) {
                    let k = choose|k: int| 0 <= k < after.len() && (#[trigger] after[k]).uuid@ == other;
                    assert(k != slot);
                    assert(before[k].uuid@ == other);
                    assert(false);
                }
            }
        }
    }

    /// Take the block under `uuid` out, if there is one.
    pub fn remove(&mut self, uuid: &String) -> (gone: Option<Block>)
        requires
            old(self).wf(),
        ensures
            final(self).wf(),
            final(self).currently_playing_uuid == old(self).currently_playing_uuid,
            final(self).current_playing_progress == old(self).current_playing_progress,
            final(self).port == old(self).port,
            final(self).nick == old(self).nick,
            gone == old(self).get(uuid@),
            forall|other: Seq<char>|
                final(self).get(other) == (if other == uuid@ {
                    None
                } else {
                    old(self).get(other)
                }),
    {
        let ghost before = self.blocks@;
        match self.position(uuid) {
            None => None,
            Some(i) => {
                let entry = self.blocks.remove(i);
                proof {
                    let after = self.blocks@;
                    lemma_lookup_entry(before, i as int);
                    assert forall|k: int| 0 <= k < after.len() implies after[k] == (if k < i {
                        before[k]
                    } else {
                        before[k + 1]
                    }) by {}
                    assert(unique(after)) by {
                        assert forall|a: int, b: int| 0 <= a < b < after.len() implies (
                        #[trigger] after[a]).uuid@ != (#[trigger] after[b]).uuid@ by {
                            let a0 = if a < i { a } else { a + 1 };
                            let b0 = if b < i { b } else { b + 1 };
                            assert(before[a0].uuid@ != before[b0].uuid@);
                        }
                    }
                    assert forall|other: Seq<char>|
                        lookup(after, other) == (if other == uuid@ {
                            None
                        } else {
                            lookup(before, other)
                        }) by {
                        if holds_id(after, other) {
                            let k = choose|k: int|
                                0 <= k < after.len() && (#[trigger] after[k]).uuid@ == other;
                            let k0 = if k < i { k } else { k + 1 };
                            assert(before[k0].uuid@ == other);
                            assert(before[k0].uuid@ != before[i as int].uuid@);
                            lemma_lookup_entry(after, k);
                            lemma_lookup_entry(before, k0);
                        } else if other != uuid@ && holds_id(before, other) {
                            let k0 = choose|k: int|
                                0 <= k < before.len() && (#[trigger] before[k]).uuid@ == other;
                            assert(k0 != i);
                            let k = if k0 < i { k0 } else { k0 - 1 };
                            assert(after[k].uuid@ == other);
                            assert(false);
                        }
                    }
                }
                Some(entry.block)
            },
        }
    }

    /// A playback of the block `uuid` with `total` events begins.
    pub fn begin_playing(&mut self, uuid: String, total: usize)
        ensures
            *final(self) == (AppState {
                currently_playing_uuid: Some(uuid),
                current_playing_progress: (0usize, total),
                ..*old(self)
            }),
    {
        self.currently_playing_uuid = Some(uuid);
        self.current_playing_progress = (0, total);
    }

    /// The playback is at event `done` of `total`.
    pub fn set_progress(&mut self, done: usize, total: usize)
        ensures
            *final(self) == (AppState { current_playing_progress: (done, total), ..*old(self) }),
    {
        self.current_playing_progress = (done, total);
    }

    /// The playback has ended.
    pub fn end_playing(&mut self)
        ensures
            *final(self) == (AppState { currently_playing_uuid: None, ..*old(self) }),
    {
        self.currently_playing_uuid = None;
    }
}

} // verus!
