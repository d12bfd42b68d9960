use harmonia::block::{Block, Content};
use harmonia::frame::{group_id_from_str, GroupFrame};
use harmonia::handlers::{playing_progress, Progress};
use harmonia::shared_memory::{beat_bytes, publish, Publish, INFINITE_PROGRESS, PUBLISH_SLEEP_MICROS, REGION_SIZE};
use harmonia::state::AppState;

fn shm(path: &str) -> Block {
    Block {
        order: None,
        group: String::new(),
        keybind: String::new(),
        content: Content::SharedMemory { path: path.to_string() },
    }
}

#[test]
fn new_state_is_empty() {
    let state = AppState::new(8080, "ann".to_string());
    assert!(state.blocks.is_empty());
    assert_eq!(state.currently_playing_uuid, None);
    assert_eq!(state.current_playing_progress, (0, 0));
    assert_eq!(state.port, 8080);
    assert_eq!(state.nick, "ann");
    assert_eq!(state.block(&"shm-1".to_string()), None);
}

#[test]
fn insert_then_find() {
    let mut state = AppState::new(1, String::new());
    state.insert("shm-1".to_string(), shm("/a"));
    state.insert("shm-2".to_string(), shm("/b"));
    assert_eq!(state.block(&"shm-1".to_string()), Some(&shm("/a")));
    assert_eq!(state.block(&"shm-2".to_string()), Some(&shm("/b")));
    assert_eq!(state.block(&"shm-3".to_string()), None);
    assert_eq!(state.position(&"shm-2".to_string()), Some(1));
}

#[test]
fn insert_replaces_the_block_under_the_same_identifier() {
    let mut state = AppState::new(1, String::new());
    state.insert("shm-1".to_string(), shm("/a"));
    state.insert("shm-2".to_string(), shm("/b"));
    state.insert("shm-1".to_string(), shm("/c"));
    assert_eq!(state.blocks.len(), 2);
    assert_eq!(state.block(&"shm-1".to_string()), Some(&shm("/c")));
    assert_eq!(state.block(&"shm-2".to_string()), Some(&shm("/b")));
}

#[test]
fn remove_takes_the_block_out() {
    let mut state = AppState::new(1, String::new());
    state.insert("shm-1".to_string(), shm("/a"));
    state.insert("shm-2".to_string(), shm("/b"));
    state.insert("shm-3".to_string(), shm("/c"));
    assert_eq!(state.remove(&"shm-2".to_string()), Some(shm("/b")));
    assert_eq!(state.remove(&"shm-2".to_string()), None);
    assert_eq!(state.block(&"shm-1".to_string()), Some(&shm("/a")));
    assert_eq!(state.block(&"shm-2".to_string()), None);
    assert_eq!(state.block(&"shm-3".to_string()), Some(&shm("/c")));
    assert_eq!(state.blocks.len(), 2);
}

#[test]
fn playing_state_is_set_and_cleared() {
    let mut state = AppState::new(1, String::new());
    state.begin_playing("midi-1".to_string(), 2);
    assert_eq!(state.currently_playing_uuid, Some("midi-1".to_string()));
    assert_eq!(state.current_playing_progress, (0, 2));
    state.set_progress(1, 2);
    assert_eq!(state.current_playing_progress, (1, 2));
    state.end_playing();
    assert_eq!(state.currently_playing_uuid, None);
    assert_eq!(state.current_playing_progress, (1, 2));
}

#[test]
fn progress_in_per_cent() {
    assert_eq!(playing_progress(0, 0), Progress::Infinite);
    assert_eq!(playing_progress(0, 2), Progress::Percent(0));
    assert_eq!(playing_progress(1, 2), Progress::Percent(50));
    assert_eq!(playing_progress(1, 3), Progress::Percent(33));
    assert_eq!(playing_progress(3, 3), Progress::Percent(100));
    assert_eq!(INFINITE_PROGRESS, (0, 0));
}

#[test]
fn beat_is_published_little_endian() {
    assert_eq!(REGION_SIZE, 8);
    assert_eq!(beat_bytes(0.0f64.to_bits()), vec![0u8; 8]);
    assert_eq!(beat_bytes(1.0f64.to_bits()), 1.0f64.to_le_bytes().to_vec());
    assert_eq!(beat_bytes(0.9f64.to_bits()), 0.9f64.to_le_bytes().to_vec());
    assert_eq!(beat_bytes(0x0102_0304_0506_0708), vec![8, 7, 6, 5, 4, 3, 2, 1]);
    let bytes: [u8; 8] = beat_bytes((-2.5f64).to_bits()).try_into().unwrap();
    assert_eq!(f64::from_le_bytes(bytes), -2.5);
}

#[test]
fn publish_until_interrupted() {
    assert_eq!(publish(true, 7), Publish::Leave);
    assert_eq!(
        publish(false, 1.5f64.to_bits()),
        Publish::Write { region: 1.5f64.to_le_bytes().to_vec(), sleep_micros: 100 }
    );
    assert_eq!(PUBLISH_SLEEP_MICROS, 100);
}

#[test]
fn name_of_a_frame_is_its_id_without_padding() {
    let frame = GroupFrame::new(group_id_from_str("lambda").unwrap(), 0);
    assert_eq!(frame.name_bytes(), b"lambda".to_vec());
    let frame = GroupFrame::new(group_id_from_str("").unwrap(), 0);
    assert_eq!(frame.name_bytes(), Vec::<u8>::new());
    let frame = GroupFrame::new(*b"123456789012345", 0);
    assert_eq!(frame.name_bytes(), b"123456789012345".to_vec());
    let mut id = [0u8; 15];
    id[0] = b'a';
    id[2] = b'c';
    assert_eq!(GroupFrame::new(id, 0).name_bytes(), b"a".to_vec());
}
