//! The MIDI playback loop: which event is next, when it is due, what is
//! sent for it, and which notes are still sounding when the loop ends.
//!
//! The loop itself sleeps on the beat clock and writes to a MIDI port, so it
//! belongs to the caller.  Between those steps it asks a [`Playback`] what to
//! do.  However the loop ends, [`Playback::cleanup`] names a note-off for
//! every note that was started and not stopped.

use vstd::prelude::*;

verus! {

/// MIDI channels.
pub const CHANNELS: usize = 16;

/// Keys of one channel.
pub const KEYS: usize = 128;

/// Entries of a note table: one per channel and key.
pub const SLOTS: usize = 2048;

/// How a file measures time.
#[derive(Debug, Clone, Copy, PartialEq, Eq)]
pub enum Timing {
    /// Ticks per quarter note.
    Metrical(u16),
    /// Frames per second and ticks per frame.
    Timecode(u8, u8),
}

/// What an event of a track is, as far as playback cares.
#[derive(Debug, Clone, Copy, PartialEq, Eq)]
pub enum EventKind {
    /// Start playing a note; with velocity 0, stop it.
    NoteOn { channel: u8, key: u8, vel: u8 },
    /// Stop playing a note.
    NoteOff { channel: u8, key: u8, vel: u8 },
    /// Any other channel message.
    Midi,
    /// Tempo change, in microseconds per quarter note.
    Tempo(u32),
    /// Time signature.
    TimeSignature(u8, u8, u8, u8),
    /// End of the track.
    EndOfTrack,
    /// Any other meta message.
    Meta,
    /// System exclusive message.
    SysEx,
    /// Escape sequence.
    Escape,
}

/// One event of a track.
#[derive(Debug, Clone, PartialEq, Eq)]
pub struct TrackEvent {
    /// Ticks since the previous event.
    pub delta: u32,
    /// What the event is.
    pub kind: EventKind,
    /// The bytes of the event as they stand in the file.
    pub bytes: Vec<u8>,
}

/// What an event holds, as plain values.
pub struct EventModel {
    /// Ticks since the previous event.
    pub delta: u32,
    /// What the event is.
    pub kind: EventKind,
    /// The bytes of the event.
    pub bytes: Seq<u8>,
}

impl View for TrackEvent {
    type V = EventModel;

    open spec fn view(&self) -> EventModel {
        EventModel { delta: self.delta, kind: self.kind, bytes: self.bytes@ }
    }
}

/// The events of a track as plain values.
pub open spec fn views(events: Seq<TrackEvent>) -> Seq<EventModel> {
    Seq::new(events.len(), |i: int| events[i]@)
}

/// Why a play request failed.
#[derive(Debug, Clone, Copy, PartialEq, Eq)]
pub enum PlayError {
    /// No block has the requested identifier.
    BlockNotFound,
    /// The bytes are not a standard MIDI file.
    InvalidMidi,
    /// The file has no track to play.
    NoTracks,
    /// The file is timed by timecode, which is not supported.
    TimecodeUnsupported,
    /// The file says that a quarter note has no ticks, so no event has a
    /// time in beats.
    ZeroTicksPerQuarter,
    /// A note names a channel above 15 or a key above 127.
    MalformedEvent,
    /// The group name of the block does not fit into a frame.
    GroupIdTooLong,
}

/// What to do about one event once it is due.
#[derive(Debug, Clone, Copy, PartialEq, Eq)]
pub enum Dispatch {
    /// Send the event's bytes to the output.
    Forward,
    /// Nothing is sent: the beat clock rules over tempo, and system
    /// messages are dropped.
    Skip,
}

/// The moment an event is due: `ticks / ticks_per_quarter` beats after the
/// start.
#[derive(Debug, Clone, Copy, PartialEq, Eq)]
pub struct Deadline {
    /// Ticks from the start of the track up to and including the event's delta.
    pub ticks: u128,
    /// Ticks per quarter note of the file.
    pub ticks_per_quarter: u16,
}

/// The place of a note in a note table.
pub open spec fn slot(channel: u8, key: u8) -> int {
    channel as int * 128 + key as int
}

/// Channel and key of a note event are in range.
pub open spec fn kind_valid(kind: EventKind) -> bool {
    match kind {
        EventKind::NoteOn { channel, key, .. } => channel < 16 && key < 128,
        EventKind::NoteOff { channel, key, .. } => channel < 16 && key < 128,
        _ => true,
    }
}

/// Only note-on and note-off are sent on.
pub open spec fn forwards(kind: EventKind) -> bool {
    kind is NoteOn || kind is NoteOff
}

/// The event stops the note `key` on `channel`.
pub open spec fn silences(kind: EventKind, channel: u8, key: u8) -> bool {
    match kind {
        EventKind::NoteOn { channel: c, key: k, vel } => c == channel && k == key && vel == 0,
        EventKind::NoteOff { channel: c, key: k, .. } => c == channel && k == key,
        _ => false,
    }
}

/// The event starts the note `key` on `channel`.
pub open spec fn strikes(kind: EventKind, channel: u8, key: u8) -> bool {
    kind matches EventKind::NoteOn { channel: c, key: k, vel } && c == channel && k == key && vel
        != 0
}

/// The table in which no note sounds.
pub open spec fn silent_table() -> Seq<bool> {
    Seq::new(2048, |i: int| false)
}

/// The note table once `kind` was dispatched.
pub open spec fn table_after(table: Seq<bool>, kind: EventKind) -> Seq<bool> {
    match kind {
        EventKind::NoteOn { channel, key, vel } => table.update(slot(channel, key), vel != 0),
        EventKind::NoteOff { channel, key, .. } => table.update(slot(channel, key), false),
        _ => table,
    }
}

/// The note table once the first `n` of `events` were dispatched, starting
/// from silence.
pub open spec fn table_at(events: Seq<TrackEvent>, n: int) -> Seq<bool>
    decreases n,
{
    if n <= 0 {
        silent_table()
    } else {
        table_after(table_at(events, n - 1), events[n - 1].kind)
    }
}

/// Ticks from the start of the track to the `n`-th event's due time.
pub open spec fn ticks_at(events: Seq<TrackEvent>, n: int) -> int
    decreases n,
{
    if n <= 0 {
        0
    } else {
        ticks_at(events, n - 1) + events[n - 1].delta
    }
}

/// The notes that sound in the first `n` slots of `table`, by channel, then
/// by key.
pub open spec fn hanging(table: Seq<bool>, n: int) -> Seq<(u8, u8)>
    decreases n,
{
    if n <= 0 {
        Seq::empty()
    } else if table[n - 1] {
        hanging(table, n - 1).push((((n - 1) / 128) as u8, ((n - 1) % 128) as u8))
    } else {
        hanging(table, n - 1)
    }
}

/// The bytes of a note-off for `key` on `channel` with velocity `vel`:
/// the status byte, then key and velocity in seven bits each.
pub open spec fn note_off_with(channel: u8, key: u8, vel: u8) -> Seq<u8> {
    seq![0x80u8 | (channel & 0x0f), key & 0x7f, vel & 0x7f]
}

/// The bytes of a note-off for `key` on `channel` with velocity 0.
pub open spec fn note_off_bytes(channel: u8, key: u8) -> Seq<u8> {
    seq![0x80u8 | (channel & 0x0f), key & 0x7f, 0u8]
}

/// Build a note-off message.
///
/// Trusted: `midly::live::LiveEvent::write` on a channel message writes the
/// status byte, which is the message's nibble (8 for note-off) above the
/// channel, and then the data bytes, here key and velocity.  The
/// conversions into `u4` and `u7` keep the low four and seven bits.  Writing
/// into a `Vec` appends and cannot fail.
#[verifier::external_body]
fn note_off_message(channel: u8, key: u8, vel: u8) -> (bytes: Vec<u8>)
    ensures
        bytes@ == note_off_with(channel, key, vel),
{
    let event = midly::live::LiveEvent::Midi {
        channel: channel.into(),
        message: midly::MidiMessage::NoteOff { key: key.into(), vel: vel.into() },
    };
    let mut bytes = Vec::new();
    let _ = event.write(&mut bytes);
    bytes
}

/// A run of the playback loop over one track.
pub struct Playback {
    /// The events of the track.
    pub events: Vec<TrackEvent>,
    /// Ticks per quarter note of the file.
    pub ticks_per_quarter: u16,
    /// How many events were dispatched.
    pub position: usize,
    /// Ticks from the start up to the last dispatched event.
    pub ticks_passed: u128,
    /// Which notes sound, by [`slot`].
    pub played: Vec<bool>,
    /// Progress shown to the user: the event the loop is at, of how many.
    pub progress: (usize, usize),
}

impl Playback {
    /// The state is that of a loop which dispatched the first `position`
    /// events of a track whose notes are in range.
    pub open spec fn wf(self) -> bool {
        &&& self.position <= self.events@.len()
        &&& self.ticks_per_quarter > 0
        &&& forall|i: int| 0 <= i < self.events@.len() ==> kind_valid(#[trigger] self.events@[i].kind)
        &&& self.played@ == table_at(self.events@, self.position as int)
        &&& self.played@.len() == 2048
        &&& self.ticks_passed == ticks_at(self.events@, self.position as int)
        &&& self.progress.1 == self.events@.len()
    }

    /// Progress on the track as `(done, total)`.
    pub fn progress(&self) -> (p: (usize, usize))
        ensures
            p == self.progress,
    {
        self.progress
    }

    /// Set up the loop for the events of a track.  Timecode timing is
    /// refused, and so are a quarter note of zero ticks and a note outside
    /// the 16 channels and 128 keys.
    pub fn begin(timing: Timing, events: Vec<TrackEvent>) -> (r: Result<Playback, PlayError>)
        ensures
            r is Ok <==> (timing matches Timing::Metrical(tpq) && tpq > 0) && forall|i: int|
                0 <= i < events@.len() ==> kind_valid(#[trigger] events@[i].kind),
            r is Ok ==> ({
                let playback = r->Ok_0;
                &&& timing == Timing::Metrical(playback.ticks_per_quarter)
                &&& playback.wf()
                &&& playback.events == events
                &&& playback.position == 0
                &&& playback.progress == (0usize, events@.len() as usize)
            }),
            r is Err ==> r->Err_0 == (match timing {
                Timing::Timecode(_, _) => PlayError::TimecodeUnsupported,
                Timing::Metrical(tpq) => if tpq == 0 {
                    PlayError::ZeroTicksPerQuarter
                } else {
                    PlayError::MalformedEvent
                },
            }),
    {
        let ticks_per_quarter = match timing {
            Timing::Metrical(tpq) => tpq,
            Timing::Timecode(_, _) => {
                return Err(PlayError::TimecodeUnsupported);
            },
        };
        if ticks_per_quarter == 0 {
            return Err(PlayError::ZeroTicksPerQuarter);
        }
        let mut i: usize = 0;
        while i < events.len()
            invariant
                timing == Timing::Metrical(ticks_per_quarter),
                ticks_per_quarter > 0,
                i <= events@.len(),
                forall|k: int| 0 <= k < i ==> kind_valid(#[trigger] events@[k].kind),
            decreases events@.len() - i,
        {
            let kind = events[i].kind;
            let ok = match kind {
                EventKind::NoteOn { channel, key, .. } => channel < 16 && key < 128,
                EventKind::NoteOff { channel, key, .. } => channel < 16 && key < 128,
                _ => true,
            };
            if !ok {
                assert(!kind_valid(events@[i as int].kind));
                return Err(PlayError::MalformedEvent);
            }
            i += 1;
        }
        let mut played: Vec<bool> = Vec::with_capacity(SLOTS);
        let mut n: usize = 0;
        while n < SLOTS
            invariant
                n <= SLOTS,
                played@.len() == n,
                forall|k: int| 0 <= k < n ==> !played@[k],
            decreases SLOTS - n,
        {
            played.push(false);
            n += 1;
        }
        assert(played@ =~= silent_table());
        let total = events.len();
        Ok(Playback { events, ticks_per_quarter, position: 0, ticks_passed: 0, played, progress: (0, total) })
    }

    /// Turn to the next event: publish the progress, look at the interrupt
    /// flag, and say when the event is due.  `None` at the end of the track
    /// and on an interrupt: the loop ends, and the cleanup follows.
    pub fn next_event(&mut self, interrupted: bool) -> (due: Option<Deadline>)
        requires
            old(self).wf(),
        ensures
            final(self).wf(),
            final(self).events == old(self).events,
            final(self).position == old(self).position,
            final(self).ticks_per_quarter == old(self).ticks_per_quarter,
            old(self).position == old(self).events@.len() ==> due is None && *final(self) == *old(
                self,
            ),
            old(self).position < old(self).events@.len() ==> final(self).progress == (
                old(self).position,
                old(self).events@.len() as usize,
            ) && due == (if interrupted {
                None
            } else {
                Some(
                    Deadline {
                        ticks: ticks_at(old(self).events@, old(self).position + 1) as u128,
                        ticks_per_quarter: old(self).ticks_per_quarter,
                    },
                )
            }),
    {
        if self.position >= self.events.len() {
            return None;
        }
        proof {
            lemma_ticks_bound(self.events@, self.position as int);
        }
        self.progress = (self.position, self.events.len());
        if interrupted {
            return None;
        }
        let ticks: u128 = self.ticks_passed + self.events[self.position].delta as u128;
        Some(Deadline { ticks, ticks_per_quarter: self.ticks_per_quarter })
    }

    /// Handle the event that is due: note-on and note-off are recorded in
    /// the note table and forwarded, everything else is skipped.
    pub fn dispatch(&mut self) -> (action: Dispatch)
        requires
            old(self).wf(),
            old(self).position < old(self).events@.len(),
        ensures
            final(self).wf(),
            final(self).events == old(self).events,
            final(self).ticks_per_quarter == old(self).ticks_per_quarter,
            final(self).progress == old(self).progress,
            final(self).position == old(self).position + 1,
            final(self).played@ == table_after(
                old(self).played@,
                old(self).events@[old(self).position as int].kind,
            ),
            action == (if forwards(old(self).events@[old(self).position as int].kind) {
                Dispatch::Forward
            } else {
                Dispatch::Skip
            }),
    {
        proof {
            lemma_ticks_bound(self.events@, self.position as int);
        }
        let delta = self.events[self.position].delta;
        let kind = self.events[self.position].kind;
        assert(kind_valid(kind));
        let action = match kind {
            EventKind::NoteOn { channel, key, vel } => {
                self.played.set(channel as usize * KEYS + key as usize, vel != 0);
                Dispatch::Forward
            },
            EventKind::NoteOff { channel, key, .. } => {
                self.played.set(channel as usize * KEYS + key as usize, false);
                Dispatch::Forward
            },
            _ => Dispatch::Skip,
        };
        self.ticks_passed = self.ticks_passed + delta as u128;
        self.position = self.position + 1;
        action
    }

    /// The bytes of the event that [`Playback::dispatch`] handles next.
    pub fn current_bytes(&self) -> (bytes: &Vec<u8>)
        requires
            self.position < self.events@.len(),
        ensures
            *bytes == self.events@[self.position as int].bytes,
    {
        &self.events[self.position].bytes
    }

    /// The note-off messages that end the run, one for every note that
    /// still sounds, by channel and key.  To be sent on every way out of the
    /// loop, before the output is closed.
    pub fn cleanup(&self) -> (messages: Vec<Vec<u8>>)
        requires
            self.wf(),
        ensures
            messages@.len() == hanging(self.played@, 2048).len(),
            forall|i: int|
                0 <= i < messages@.len() ==> (#[trigger] messages@[i])@ == note_off_bytes(
                    hanging(self.played@, 2048)[i].0,
                    hanging(self.played@, 2048)[i].1,
                ),
    {
        let mut messages: Vec<Vec<u8>> = Vec::new();
        let mut n: usize = 0;
        while n < SLOTS
            invariant
                n <= SLOTS,
                self.played@.len() == 2048,
                messages@.len() == hanging(self.played@, n as int).len(),
                forall|i: int|
                    0 <= i < messages@.len() ==> (#[trigger] messages@[i])@ == note_off_bytes(
                        hanging(self.played@, n as int)[i].0,
                        hanging(self.played@, n as int)[i].1,
                    ),
            decreases SLOTS - n,
        {
            if self.played[n] {
                let message = note_off_message((n / KEYS) as u8, (n % KEYS) as u8, 0);
                assert(0u8 & 0x7f == 0u8) by (bit_vector);
                assert(message@ =~= note_off_bytes((n / KEYS) as u8, (n % KEYS) as u8));
                messages.push(message);
            }
            n += 1;
        }
        messages
    }
}

/// The ticks of `n` events fit 96 bits, whatever the events are.
pub proof fn lemma_ticks_bound(events: Seq<TrackEvent>, n: int)
    requires
        0 <= n,
    ensures
        0 <= ticks_at(events, n) <= n * 0xffff_ffff,
    decreases n,
{
    if n > 0 {
        lemma_ticks_bound(events, n - 1);
    }
}

/// A note sounds after `n` events exactly if it was struck by one of them
/// and nothing stopped it afterwards.
pub proof fn lemma_table_tracks_notes(events: Seq<TrackEvent>, n: int, channel: u8, key: u8)
    requires
        0 <= n <= events.len(),
        channel < 16,
        key < 128,
        forall|i: int| 0 <= i < events.len() ==> kind_valid(#[trigger] events[i].kind),
    ensures
        table_at(events, n).len() == 2048,
        table_at(events, n)[slot(channel, key)] <==> exists|i: int|
            0 <= i < n && strikes(#[trigger] events[i].kind, channel, key) && forall|j: int|
                i < j < n ==> !silences(#[trigger] events[j].kind, channel, key),
    decreases n,
{
    if n > 0 {
        lemma_table_tracks_notes(events, n - 1, channel, key);
        let kind = events[n - 1].kind;
        assert(kind_valid(kind));
        let before = table_at(events, n - 1);
        let sounds = |m: int|
            exists|i: int|
                0 <= i < m && strikes(#[trigger] events[i].kind, channel, key) && forall|j: int|
                    i < j < m ==> !silences(#[trigger] events[j].kind, channel, key);
        if strikes(kind, channel, key) {
            assert(0 <= n - 1 < n && strikes(events[n - 1].kind, channel, key));
            assert(sounds(n));
        } else if silences(kind, channel, key) {
            assert(!table_at(events, n)[slot(channel, key)]);
            if sounds(n) {
                let i = choose|i: int|
                    0 <= i < n && strikes(#[trigger] events[i].kind, channel, key) && forall|j: int|
                        i < j < n ==> !silences(#[trigger] events[j].kind, channel, key);
                assert(i < n - 1);
                assert(silences(events[n - 1].kind, channel, key));
                assert(false);
            }
        } else {
            lemma_other_slot(before, kind, channel, key);
            if sounds(n - 1) {
                let i = choose|i: int|
                    0 <= i < n - 1 && strikes(#[trigger] events[i].kind, channel, key)
                        && forall|j: int|
                        i < j < n - 1 ==> !silences(#[trigger] events[j].kind, channel, key);
                assert(0 <= i < n && strikes(events[i].kind, channel, key));
                assert(forall|j: int|
                    i < j < n ==> !silences(#[trigger] events[j].kind, channel, key));
                assert(sounds(n));
            }
            if sounds(n) {
                let i = choose|i: int|
                    0 <= i < n && strikes(#[trigger] events[i].kind, channel, key) && forall|j: int|
                        i < j < n ==> !silences(#[trigger] events[j].kind, channel, key);
                assert(i < n - 1);
                assert(sounds(n - 1));
            }
        }
    } else {
        assert(!table_at(events, n)[slot(channel, key)]);
    }
}

/// An event that neither strikes nor stops a note leaves its slot alone.
proof fn lemma_other_slot(table: Seq<bool>, kind: EventKind, channel: u8, key: u8)
    requires
        table.len() == 2048,
        channel < 16,
        key < 128,
        kind_valid(kind),
        !strikes(kind, channel, key),
        !silences(kind, channel, key),
    ensures
        table_after(table, kind)[slot(channel, key)] == table[slot(channel, key)],
        table_after(table, kind).len() == 2048,
{
}

/// Every sounding slot below `n` is among the hanging notes, and nothing
/// else is.
pub proof fn lemma_hanging_complete(table: Seq<bool>, n: int, channel: u8, key: u8)
    requires
        0 <= n <= 2048,
        table.len() == 2048,
        channel < 16,
        key < 128,
    ensures
        hanging(table, n).contains((channel, key)) <==> (slot(channel, key) < n
            && table[slot(channel, key)]),
    decreases n,
{
    if n > 0 {
        lemma_hanging_complete(table, n - 1, channel, key);
        let rest = hanging(table, n - 1);
        let note = (((n - 1) / 128) as u8, ((n - 1) % 128) as u8);
        assert(note == (channel, key) <==> slot(channel, key) == n - 1);
        if table[n - 1] {
            let all = rest.push(note);
            assert(all.last() == note);
            assert(all.drop_last() =~= rest);
            if all.contains((channel, key)) {
                let i = choose|i: int| 0 <= i < all.len() && all[i] == (channel, key);
                if i < rest.len() {
                    assert(rest[i] == (channel, key));
                }
            }
            if rest.contains((channel, key)) {
                let i = choose|i: int| 0 <= i < rest.len() && rest[i] == (channel, key);
                assert(all[i] == (channel, key));
            }
            if note == (channel, key) {
                assert(all[all.len() - 1] == (channel, key));
            }
        }
    } else {
        assert(hanging(table, n) =~= Seq::<(u8, u8)>::empty());
    }
}

/// No hanging notes: wherever the loop stops, a note that one of the
/// dispatched events struck is either stopped by a later dispatched event
/// or stopped by the cleanup.
pub proof fn lemma_no_hanging_notes(playback: Playback, i: int, channel: u8, key: u8)
    requires
        playback.wf(),
        0 <= i < playback.position,
        strikes(playback.events@[i].kind, channel, key),
    ensures
        (exists|j: int|
            i < j < playback.position && silences(
                #[trigger] playback.events@[j].kind,
                channel,
                key,
            )) || hanging(playback.played@, 2048).contains((channel, key)),
{
    let events = playback.events@;
    let n = playback.position as int;
    assert(kind_valid(events[i].kind));
    lemma_table_tracks_notes(events, n, channel, key);
    lemma_hanging_complete(playback.played@, 2048, channel, key);
    if !(exists|j: int| i < j < n && silences(#[trigger] events[j].kind, channel, key)) {
        assert(forall|j: int| i < j < n ==> !silences(#[trigger] events[j].kind, channel, key));
        assert(table_at(events, n)[slot(channel, key)]);
    }
}

} // verus!
