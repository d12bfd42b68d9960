//! Reading standard MIDI files.
//!
//! The file format is parsed by `midly`.  What playback needs of a parsed
//! file (its timing and the events of its tracks, each with the bytes it
//! was read from) is copied out of it into the types of
//! [`crate::playback`], event by event.

use vstd::prelude::*;
use midly::{MetaMessage, MidiMessage, SmfBytemap, Timing as FileTiming, TrackEventKind};
use crate::block::MidiSource;
use crate::playback::{kind_valid, views, EventKind, EventModel, PlayError, Playback, Timing, TrackEvent};

verus! {

/// A parsed standard MIDI file that keeps, for every event, the bytes that
/// make it up.
#[verifier::external_type_specification]
#[verifier::external_body]
pub struct ExSmfBytemap<'a>(SmfBytemap<'a>);

/// What a parsed file holds: its timing and its tracks.
pub uninterp spec fn smf_content(smf: &SmfBytemap) -> (Timing, Seq<Seq<EventModel>>);

/// What `midly` reads from `bytes`: the content of the file, or nothing if
/// the bytes are not a standard MIDI file.
pub uninterp spec fn smf_of(bytes: Seq<u8>) -> Option<(Timing, Seq<Seq<EventModel>>)>;

/// Parse a standard MIDI file.
///
/// Trusted: `midly::SmfBytemap::parse` reads nothing but its argument, so
/// equal bytes give equal results.  Why it failed is dropped.
#[verifier::external_body]
fn parse_smf<'a>(bytes: &'a [u8]) -> (r: Option<SmfBytemap<'a>>)
    ensures
        match r {
            Some(smf) => smf_of(bytes@) == Some(smf_content(&smf)),
            None => smf_of(bytes@) is None,
        },
{
    SmfBytemap::parse(bytes).ok()
}

/// The timing in the header of a parsed file.
///
/// Trusted: reads the field `header.timing` of `midly::SmfBytemap` and gives
/// the ticks per quarter note, or frames per second and ticks per frame, as
/// plain integers.
#[verifier::external_body]
fn smf_timing(smf: &SmfBytemap) -> (timing: Timing)
    ensures
        timing == smf_content(smf).0,
{
    match smf.header.timing {
        FileTiming::Metrical(ticks) => Timing::Metrical(ticks.as_int()),
        FileTiming::Timecode(fps, subframe) => Timing::Timecode(fps.as_int(), subframe),
    }
}

/// The number of tracks of a parsed file.
///
/// Trusted: the length of the field `tracks` of `midly::SmfBytemap`.
#[verifier::external_body]
fn smf_track_count(smf: &SmfBytemap) -> (count: usize)
    ensures
        count == smf_content(smf).1.len(),
{
    smf.tracks.len()
}

/// The number of events of a track.
///
/// Trusted: the length of one element of the field `tracks` of
/// `midly::SmfBytemap`.
#[verifier::external_body]
fn smf_track_len(smf: &SmfBytemap, track: usize) -> (count: usize)
    requires
        track < smf_content(smf).1.len(),
    ensures
        count == smf_content(smf).1[track as int].len(),
{
    smf.tracks[track].len()
}

/// Delta time and bytes of one event of a track.
///
/// Trusted: reads one element of a track of `midly::SmfBytemap`, a pair of
/// the event's bytes and the event, and copies the bytes and the event's
/// `delta`.
#[verifier::external_body]
fn smf_event_raw(smf: &SmfBytemap, track: usize, index: usize) -> (event: (u32, Vec<u8>))
    requires
        track < smf_content(smf).1.len(),
        index < smf_content(smf).1[track as int].len(),
    ensures
        event.0 == smf_content(smf).1[track as int][index as int].delta,
        event.1@ == smf_content(smf).1[track as int][index as int].bytes,
{
    let (raw, event) = &smf.tracks[track][index];
    (event.delta.as_int(), raw.to_vec())
}

/// The kind of one event of a track, with every channel message given as
/// [`EventKind::Midi`].
///
/// Trusted: reads the field `kind` of one event of `midly::SmfBytemap` and
/// tells its variants apart, keeping the numbers of tempo and time
/// signature.
#[verifier::external_body]
fn smf_event_class(smf: &SmfBytemap, track: usize, index: usize) -> (class: EventKind)
    requires
        track < smf_content(smf).1.len(),
        index < smf_content(smf).1[track as int].len(),
    ensures
        class == coarse(smf_content(smf).1[track as int][index as int].kind),
{
    match smf.tracks[track][index].1.kind {
        TrackEventKind::Midi { .. } => EventKind::Midi,
        TrackEventKind::Meta(MetaMessage::Tempo(tempo)) => EventKind::Tempo(tempo.as_int()),
        TrackEventKind::Meta(MetaMessage::TimeSignature(a, b, c, d)) => {
            EventKind::TimeSignature(a, b, c, d)
        },
        TrackEventKind::Meta(MetaMessage::EndOfTrack) => EventKind::EndOfTrack,
        TrackEventKind::Meta(_) => EventKind::Meta,
        TrackEventKind::SysEx(_) => EventKind::SysEx,
        TrackEventKind::Escape(_) => EventKind::Escape,
    }
}

/// The kind of one channel message of a track.
///
/// Trusted: reads the field `kind` of one event of `midly::SmfBytemap`, a
/// channel message, and keeps channel, key and velocity of note-on and
/// note-off.  A channel is a `u4` and a key a `u7` of `midly`, which hold
/// four and seven bits.
#[verifier::external_body]
fn smf_event_note(smf: &SmfBytemap, track: usize, index: usize) -> (kind: EventKind)
    requires
        track < smf_content(smf).1.len(),
        index < smf_content(smf).1[track as int].len(),
        coarse(smf_content(smf).1[track as int][index as int].kind) is Midi,
    ensures
        kind == smf_content(smf).1[track as int][index as int].kind,
        kind_valid(kind),
{
    match smf.tracks[track][index].1.kind {
        TrackEventKind::Midi { channel, message: MidiMessage::NoteOn { key, vel } } => {
            EventKind::NoteOn { channel: channel.as_int(), key: key.as_int(), vel: vel.as_int() }
        },
        TrackEventKind::Midi { channel, message: MidiMessage::NoteOff { key, vel } } => {
            EventKind::NoteOff { channel: channel.as_int(), key: key.as_int(), vel: vel.as_int() }
        },
        _ => EventKind::Midi,
    }
}

/// An event kind with note-on and note-off taken for any channel message.
pub open spec fn coarse(kind: EventKind) -> EventKind {
    match kind {
        EventKind::NoteOn { .. } => EventKind::Midi,
        EventKind::NoteOff { .. } => EventKind::Midi,
        other => other,
    }
}

/// What is played of a MIDI file: its timing and the events of one track.
#[derive(Debug, Clone, PartialEq, Eq)]
pub struct Midi {
    /// How the file measures time.
    pub timing: Timing,
    /// The events of the track that is played, the last one of the file.
    pub events: Vec<TrackEvent>,
}

/// What is played of a file with this content: the last track.
pub open spec fn played_of(
    content: Option<(Timing, Seq<Seq<EventModel>>)>,
    r: Result<Midi, PlayError>,
) -> bool {
    match content {
        None => r == Err::<Midi, PlayError>(PlayError::InvalidMidi),
        Some((timing, tracks)) => if tracks.len() == 0 {
            r == Err::<Midi, PlayError>(PlayError::NoTracks)
        } else {
            r matches Ok(midi) && midi.timing == timing && views(midi.events@) == tracks.last()
        },
    }
}

/// The playback loop for a file with this content: refused without a
/// track, with timecode timing and with a quarter note of zero ticks,
/// otherwise set at the start of the last track.
pub open spec fn playback_of(
    content: Option<(Timing, Seq<Seq<EventModel>>)>,
    r: Result<Playback, PlayError>,
) -> bool {
    match content {
        None => r is Err && r->Err_0 == PlayError::InvalidMidi,
        Some((timing, tracks)) => if tracks.len() == 0 {
            r is Err && r->Err_0 == PlayError::NoTracks
        } else {
            match timing {
                Timing::Timecode(_, _) => r is Err && r->Err_0 == PlayError::TimecodeUnsupported,
                Timing::Metrical(tpq) => if tpq == 0 {
                    r is Err && r->Err_0 == PlayError::ZeroTicksPerQuarter
                } else {
                    r matches Ok(playback) && playback.wf() && views(playback.events@)
                        == tracks.last() && playback.position == 0 && playback.progress == (
                        0usize,
                        tracks.last().len() as usize,
                    ) && playback.ticks_per_quarter == tpq
                },
            }
        },
    }
}

impl MidiSource {
    /// Parse the source and pick what is played of it.  The notes of a
    /// parsed file are within the 16 channels and 128 keys.
    pub fn midi(&self) -> (r: Result<Midi, PlayError>)
        ensures
            played_of(smf_of(self.bytes@), r),
            r is Ok ==> forall|i: int|
                0 <= i < r->Ok_0.events@.len() ==> kind_valid(#[trigger] r->Ok_0.events@[i].kind),
    {
        let smf = match parse_smf(self.bytes.as_slice()) {
            Some(smf) => smf,
            None => {
                return Err(PlayError::InvalidMidi);
            },
        };
        let tracks = smf_track_count(&smf);
        if tracks == 0 {
            return Err(PlayError::NoTracks);
        }
        let timing = smf_timing(&smf);
        let last = tracks - 1;
        let total = smf_track_len(&smf, last);
        let ghost track = smf_content(&smf).1[last as int];
        let mut events: Vec<TrackEvent> = Vec::new();
        let mut i: usize = 0;
        while i < total
            invariant
                i <= total,
                last < smf_content(&smf).1.len(),
                track == smf_content(&smf).1[last as int],
                total == track.len(),
                events@.len() == i,
                forall|k: int| 0 <= k < i ==> (#[trigger] events@[k])@ == track[k],
                forall|k: int| 0 <= k < i ==> kind_valid(#[trigger] events@[k].kind),
            decreases total - i,
        {
            let (delta, bytes) = smf_event_raw(&smf, last, i);
            let class = smf_event_class(&smf, last, i);
            let kind = match class {
                EventKind::Midi => smf_event_note(&smf, last, i),
                other => other,
            };
            events.push(TrackEvent { delta, kind, bytes });
            i += 1;
        }
        assert(views(events@) =~= track);
        Ok(Midi { timing, events })
    }

    /// Set up the playback loop for this source.
    pub fn playback(&self) -> (r: Result<Playback, PlayError>)
        ensures
            playback_of(smf_of(self.bytes@), r),
    {
        match self.midi() {
            Ok(midi) => Playback::begin(midi.timing, midi.events),
            Err(e) => Err(e),
        }
    }
}

} // verus!
