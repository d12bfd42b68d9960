use harmonia::audio_engine::{
    audio_engine_main, interrupt, play, quit, start_mode, AudioEngine, Job, Request, SendError, StartMode, Turn,
};
use harmonia::block::{Block, Content, MidiSource};
use harmonia::playback::PlayError;

fn shm(group: &str) -> Block {
    Block {
        order: None,
        group: group.to_string(),
        keybind: String::new(),
        content: Content::SharedMemory { path: "/beat".to_string() },
    }
}

#[test]
fn play_then_turn_spawns() {
    let mut engine = AudioEngine::default();
    assert_eq!(play(&mut engine, "midi-1"), Ok(()));
    assert_eq!(engine.pending, Some(Request::Play("midi-1".to_string())));
    let turn = engine.next_turn();
    assert_eq!(turn, Some(Turn { join_previous: false, spawn: Some("midi-1".to_string()), quit: false }));
    assert!(engine.in_flight);
    assert_eq!(engine.pending, None);
    assert_eq!(engine.next_turn(), None);
}

#[test]
fn second_play_joins_the_first_before_it_spawns() {
    let mut engine = AudioEngine::default();
    play(&mut engine, "a").unwrap();
    engine.next_turn();
    play(&mut engine, "b").unwrap();
    assert_eq!(
        engine.next_turn(),
        Some(Turn { join_previous: true, spawn: Some("b".to_string()), quit: false })
    );
    assert!(engine.in_flight);
}

#[test]
fn interrupt_joins_and_spawns_nothing() {
    let mut engine = AudioEngine::default();
    play(&mut engine, "a").unwrap();
    engine.next_turn();
    assert_eq!(interrupt(&mut engine), Ok(()));
    assert_eq!(engine.next_turn(), Some(Turn { join_previous: true, spawn: None, quit: false }));
    assert!(!engine.in_flight);
    // nothing in flight any more
    interrupt(&mut engine).unwrap();
    assert_eq!(engine.next_turn(), Some(Turn { join_previous: false, spawn: None, quit: false }));
}

#[test]
fn quit_joins_and_stops_the_worker() {
    let mut engine = AudioEngine::default();
    play(&mut engine, "a").unwrap();
    engine.next_turn();
    assert_eq!(quit(&mut engine), Ok(()));
    assert_eq!(engine.next_turn(), Some(Turn { join_previous: true, spawn: None, quit: true }));
    assert!(engine.stopped);
    assert!(!engine.in_flight);
    assert_eq!(play(&mut engine, "b"), Err(SendError::Closed));
    assert_eq!(interrupt(&mut engine), Err(SendError::Closed));
    assert_eq!(quit(&mut engine), Err(SendError::Closed));
    assert_eq!(engine.next_turn(), None);
}

#[test]
fn full_queue_fails_the_sender() {
    let mut engine = AudioEngine::default();
    play(&mut engine, "a").unwrap();
    let before = engine.clone();
    assert_eq!(play(&mut engine, "b"), Err(SendError::Full));
    assert_eq!(interrupt(&mut engine), Err(SendError::Full));
    assert_eq!(quit(&mut engine), Err(SendError::Full));
    assert_eq!(engine, before);
}

#[test]
fn missing_block_fails_the_request() {
    assert_eq!(audio_engine_main(None), Err(PlayError::BlockNotFound));
}

#[test]
fn empty_group_starts_solo() {
    assert_eq!(start_mode(""), Ok(StartMode::Solo));
    assert_eq!(
        audio_engine_main(Some(shm(""))),
        Ok(Job::SharedMemory { path: "/beat".to_string(), start: StartMode::Solo })
    );
}

#[test]
fn named_group_starts_in_the_group() {
    let mut id = [0u8; 15];
    id[0] = b'g';
    assert_eq!(start_mode("g"), Ok(StartMode::Group(id)));
    let source = MidiSource { bytes: vec![1, 2, 3], file_name: "a.mid".to_string(), associated_port: 2 };
    let block =
        Block { order: Some(1), group: "g".to_string(), keybind: "k".to_string(), content: Content::Midi(source.clone()) };
    assert_eq!(audio_engine_main(Some(block)), Ok(Job::Midi { source, start: StartMode::Group(id) }));
}

#[test]
fn group_label_that_is_too_long_fails_the_request() {
    assert_eq!(start_mode("1234567890123456"), Err(PlayError::GroupIdTooLong));
    assert_eq!(audio_engine_main(Some(shm("1234567890123456"))), Err(PlayError::GroupIdTooLong));
    assert_eq!(start_mode("123456789012345"), Ok(StartMode::Group(*b"123456789012345")));
}

#[test]
fn content_name() {
    assert_eq!(Content::SharedMemory { path: "/beat".to_string() }.name(), "/beat");
    let source = MidiSource { bytes: Vec::new(), file_name: "a.mid".to_string(), associated_port: 0 };
    assert_eq!(Content::Midi(source).name(), "a.mid");
}
