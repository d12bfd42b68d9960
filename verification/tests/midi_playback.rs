use harmonia::block::MidiSource;
use harmonia::midi::Midi;
use harmonia::playback::{Deadline, Dispatch, EventKind, PlayError, Playback, Timing, TrackEvent};

fn smf(division: [u8; 2], track: &[u8]) -> Vec<u8> {
    let mut bytes = b"MThd".to_vec();
    bytes.extend_from_slice(&[0, 0, 0, 6, 0, 0, 0, 1]);
    bytes.extend_from_slice(&division);
    bytes.extend_from_slice(b"MTrk");
    bytes.extend_from_slice(&(track.len() as u32).to_be_bytes());
    bytes.extend_from_slice(track);
    bytes
}

fn source(bytes: Vec<u8>) -> MidiSource {
    MidiSource { bytes, file_name: "test.mid".to_string(), associated_port: 0 }
}

const TWO_EVENTS: [u8; 9] = [0x00, 0x90, 60, 100, 0x83, 0x60, 0x80, 60, 0];

const HANGING: [u8; 13] = [0x00, 0x90, 60, 100, 0x00, 0x91, 64, 80, 0x83, 0x60, 0x80, 60, 0];

fn note_on(channel: u8, key: u8, vel: u8, delta: u32) -> TrackEvent {
    TrackEvent { delta, kind: EventKind::NoteOn { channel, key, vel }, bytes: vec![0x90 | channel, key, vel] }
}

fn note_off(channel: u8, key: u8, delta: u32) -> TrackEvent {
    TrackEvent { delta, kind: EventKind::NoteOff { channel, key, vel: 0 }, bytes: vec![0x80 | channel, key, 0] }
}

#[test]
fn parse_reads_timing_and_events() {
    let midi = source(smf([0x01, 0xE0], &TWO_EVENTS)).midi().unwrap();
    assert_eq!(
        midi,
        Midi {
            timing: Timing::Metrical(480),
            events: vec![
                TrackEvent {
                    delta: 0,
                    kind: EventKind::NoteOn { channel: 0, key: 60, vel: 100 },
                    bytes: vec![0x90, 60, 100],
                },
                TrackEvent {
                    delta: 480,
                    kind: EventKind::NoteOff { channel: 0, key: 60, vel: 0 },
                    bytes: vec![0x80, 60, 0],
                },
            ],
        }
    );
}

#[test]
fn parse_tells_meta_and_system_events_apart() {
    let track = [
        0x00, 0xFF, 0x51, 0x03, 0x07, 0xA1, 0x20, // tempo 500000
        0x00, 0xFF, 0x58, 0x04, 4, 2, 24, 8, // time signature
        0x00, 0xFF, 0x03, 0x01, b'x', // track name
        0x00, 0xC0, 5, // program change
        0x00, 0xF0, 0x01, 0xF7, // sysex
        0x00, 0xF7, 0x01, 0x00, // escape
        0x00, 0xFF, 0x2F, 0x00, // end of track
    ];
    let midi = source(smf([0x00, 0x60], &track)).midi().unwrap();
    let kinds: Vec<EventKind> = midi.events.iter().map(|e| e.kind).collect();
    assert_eq!(
        kinds,
        vec![
            EventKind::Tempo(500_000),
            EventKind::TimeSignature(4, 2, 24, 8),
            EventKind::Meta,
            EventKind::Midi,
            EventKind::SysEx,
            EventKind::Escape,
            EventKind::EndOfTrack,
        ]
    );
    assert_eq!(midi.timing, Timing::Metrical(96));
}

#[test]
fn parse_plays_the_last_track() {
    let mut bytes = b"MThd".to_vec();
    bytes.extend_from_slice(&[0, 0, 0, 6, 0, 1, 0, 2, 0x01, 0xE0]);
    for key in [60u8, 72u8] {
        bytes.extend_from_slice(b"MTrk");
        bytes.extend_from_slice(&[0, 0, 0, 4, 0x00, 0x90, key, 100]);
    }
    let midi = source(bytes).midi().unwrap();
    assert_eq!(midi.events.len(), 1);
    assert_eq!(midi.events[0].kind, EventKind::NoteOn { channel: 0, key: 72, vel: 100 });
}

#[test]
fn parse_refuses_what_is_no_midi_file() {
    assert_eq!(source(b"not a midi file".to_vec()).midi(), Err(PlayError::InvalidMidi));
    assert_eq!(source(Vec::new()).midi(), Err(PlayError::InvalidMidi));
    assert!(matches!(source(Vec::new()).playback(), Err(PlayError::InvalidMidi)));
}

#[test]
fn parse_refuses_a_file_without_tracks() {
    let mut bytes = b"MThd".to_vec();
    bytes.extend_from_slice(&[0, 0, 0, 6, 0, 1, 0, 0, 0x01, 0xE0]);
    assert_eq!(source(bytes).midi(), Err(PlayError::NoTracks));
}

#[test]
fn timecode_is_rejected_at_play_time() {
    // 25 frames per second, 40 ticks per frame
    let src = source(smf([0xE7, 0x28], &TWO_EVENTS));
    assert_eq!(src.midi().unwrap().timing, Timing::Timecode(25, 40));
    assert!(matches!(src.playback(), Err(PlayError::TimecodeUnsupported)));
    assert!(matches!(
        Playback::begin(Timing::Timecode(25, 40), Vec::new()),
        Err(PlayError::TimecodeUnsupported)
    ));
}

#[test]
fn notes_out_of_range_are_refused() {
    assert!(matches!(
        Playback::begin(Timing::Metrical(96), vec![note_on(16, 0, 1, 0)]),
        Err(PlayError::MalformedEvent)
    ));
    assert!(matches!(
        Playback::begin(Timing::Metrical(96), vec![note_off(0, 128, 0)]),
        Err(PlayError::MalformedEvent)
    ));
    assert!(Playback::begin(Timing::Metrical(96), vec![note_on(15, 127, 1, 0)]).is_ok());
}

#[test]
fn solo_midi_play() {
    let mut playback = source(smf([0x01, 0xE0], &TWO_EVENTS)).playback().unwrap();
    assert_eq!(playback.progress(), (0, 2));
    let mut sent: Vec<Vec<u8>> = Vec::new();
    let mut progress = Vec::new();
    let mut due = Vec::new();
    while let Some(deadline) = playback.next_event(false) {
        progress.push(playback.progress());
        due.push(deadline);
        let bytes = playback.current_bytes().clone();
        if playback.dispatch() == Dispatch::Forward {
            sent.push(bytes);
        }
    }
    assert_eq!(sent, vec![vec![0x90, 60, 100], vec![0x80, 60, 0]]);
    assert_eq!(progress, vec![(0, 2), (1, 2)]);
    assert_eq!(
        due,
        vec![
            Deadline { ticks: 0, ticks_per_quarter: 480 },
            Deadline { ticks: 480, ticks_per_quarter: 480 },
        ]
    );
    assert_eq!(playback.cleanup(), Vec::<Vec<u8>>::new());
    assert_eq!(playback.next_event(false), None);
}

#[test]
fn interrupt_with_hanging_note() {
    let mut playback = source(smf([0x01, 0xE0], &HANGING)).playback().unwrap();
    assert_eq!(playback.progress(), (0, 3));
    // both notes at delta 0 are sent, then the interrupt arrives while
    // waiting for the note-off
    assert!(playback.next_event(false).is_some());
    assert_eq!(playback.dispatch(), Dispatch::Forward);
    assert!(playback.next_event(false).is_some());
    assert_eq!(playback.dispatch(), Dispatch::Forward);
    assert_eq!(playback.next_event(false), Some(Deadline { ticks: 480, ticks_per_quarter: 480 }));
    assert_eq!(playback.cleanup(), vec![vec![0x80, 60, 0], vec![0x81, 64, 0]]);
}

#[test]
fn interrupt_after_the_note_off_leaves_the_other_note() {
    let mut playback = source(smf([0x01, 0xE0], &HANGING)).playback().unwrap();
    while playback.next_event(false).is_some() {
        playback.dispatch();
    }
    assert_eq!(playback.cleanup(), vec![vec![0x81, 64, 0]]);
}

#[test]
fn interrupt_before_the_first_event_cleans_nothing() {
    let playback = source(smf([0x01, 0xE0], &HANGING)).playback().unwrap();
    assert_eq!(playback.cleanup(), Vec::<Vec<u8>>::new());
}

#[test]
fn note_on_with_velocity_zero_stops_the_note() {
    let events = vec![note_on(2, 10, 90, 0), note_on(2, 10, 0, 5), note_on(3, 11, 1, 5)];
    let mut playback = Playback::begin(Timing::Metrical(96), events).unwrap();
    while playback.next_event(false).is_some() {
        assert_eq!(playback.dispatch(), Dispatch::Forward);
    }
    assert_eq!(playback.cleanup(), vec![vec![0x83, 11, 0]]);
    assert_eq!(playback.ticks_passed, 10);
}

#[test]
fn cleanup_is_ordered_by_channel_then_key() {
    let events = vec![note_on(15, 127, 1, 0), note_on(0, 5, 1, 0), note_on(0, 0, 1, 0), note_on(1, 0, 1, 0)];
    let mut playback = Playback::begin(Timing::Metrical(96), events).unwrap();
    while playback.next_event(false).is_some() {
        playback.dispatch();
    }
    assert_eq!(
        playback.cleanup(),
        vec![vec![0x80, 0, 0], vec![0x80, 5, 0], vec![0x81, 0, 0], vec![0x8f, 127, 0]]
    );
}

#[test]
fn only_notes_are_forwarded() {
    let kinds = [
        EventKind::Midi,
        EventKind::Tempo(500_000),
        EventKind::TimeSignature(4, 2, 24, 8),
        EventKind::EndOfTrack,
        EventKind::Meta,
        EventKind::SysEx,
        EventKind::Escape,
    ];
    let events: Vec<TrackEvent> =
        kinds.iter().map(|kind| TrackEvent { delta: 1, kind: *kind, bytes: vec![0xFF] }).collect();
    let mut playback = Playback::begin(Timing::Metrical(96), events).unwrap();
    let mut n = 0;
    while let Some(deadline) = playback.next_event(false) {
        n += 1;
        assert_eq!(deadline.ticks, n);
        assert_eq!(playback.dispatch(), Dispatch::Skip);
    }
    assert_eq!(n, 7);
    assert_eq!(playback.cleanup(), Vec::<Vec<u8>>::new());
}

#[test]
fn deadlines_do_not_overflow() {
    let events = vec![note_on(0, 0, 1, u32::MAX), note_off(0, 0, u32::MAX), note_on(0, 0, 1, u32::MAX)];
    let mut playback = Playback::begin(Timing::Metrical(1), events).unwrap();
    let mut last = 0;
    while let Some(deadline) = playback.next_event(false) {
        last = deadline.ticks;
        playback.dispatch();
    }
    assert_eq!(last, 3 * (u32::MAX as u128));
}

#[test]
fn interrupt_ends_the_loop_after_the_progress_is_published() {
    let mut playback = source(smf([0x01, 0xE0], &HANGING)).playback().unwrap();
    assert!(playback.next_event(false).is_some());
    assert_eq!(playback.dispatch(), Dispatch::Forward);
    assert_eq!(playback.next_event(true), None);
    assert_eq!(playback.progress(), (1, 3));
    assert_eq!(playback.position, 1);
    assert_eq!(playback.cleanup(), vec![vec![0x80, 60, 0]]);
}

#[test]
fn quarter_note_without_ticks_is_refused() {
    let src = source(smf([0x00, 0x00], &TWO_EVENTS));
    assert_eq!(src.midi().unwrap().timing, Timing::Metrical(0));
    assert!(matches!(src.playback(), Err(PlayError::ZeroTicksPerQuarter)));
    assert!(matches!(
        Playback::begin(Timing::Metrical(0), vec![note_on(16, 0, 1, 0)]),
        Err(PlayError::ZeroTicksPerQuarter)
    ));
    assert!(Playback::begin(Timing::Metrical(1), Vec::new()).is_ok());
}
