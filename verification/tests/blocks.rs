use harmonia::block::{Block, Content, MidiSource};
use harmonia::handlers::{truncate_group, AddSharedMemoryBlock, SetGroup, SetKeybind, SetNick, SetPort};
use harmonia::ident::{block_id, midi_block_id, shared_memory_block_id};
use harmonia::version::Version;

fn midi_block() -> Block {
    Block {
        order: Some(3),
        group: "old".to_string(),
        keybind: "a".to_string(),
        content: Content::Midi(MidiSource { bytes: vec![1], file_name: "x.mid".to_string(), associated_port: 1 }),
    }
}

#[test]
fn identifiers_are_tagged_sha1_in_hex() {
    assert_eq!(shared_memory_block_id("abc"), "shm-a9993e364706816aba3e25717850c26c9cd0d89d");
    assert_eq!(midi_block_id(b""), "midi-da39a3ee5e6b4b0d3255bfef95601890afd80709");
    assert_eq!(block_id("x", b"abc"), "x-a9993e364706816aba3e25717850c26c9cd0d89d");
    assert_ne!(midi_block_id(b"abc"), midi_block_id(b"abd"));
}

#[test]
fn shared_memory_block_is_made_bare() {
    let (id, block) = AddSharedMemoryBlock { path: "abc".to_string() }.block();
    assert_eq!(id, "shm-a9993e364706816aba3e25717850c26c9cd0d89d");
    assert_eq!(
        block,
        Block {
            order: None,
            group: String::new(),
            keybind: String::new(),
            content: Content::SharedMemory { path: "abc".to_string() },
        }
    );
}

#[test]
fn group_that_fits_is_kept() {
    assert_eq!(truncate_group(""), "");
    assert_eq!(truncate_group("123456789012345"), "123456789012345");
    assert_eq!(truncate_group("żżżżżżż"), "żżżżżżż");
}

#[test]
fn group_is_cut_to_fifteen_bytes() {
    assert_eq!(truncate_group("1234567890123456"), "123456789012345");
    assert_eq!(truncate_group("12345678901234567890"), "123456789012345");
}

#[test]
fn group_is_cut_at_a_char_boundary() {
    // fourteen bytes, then a two-byte character across the limit
    assert_eq!(truncate_group("12345678901234żx"), "12345678901234");
    // thirteen bytes, then a three-byte character across the limit
    assert_eq!(truncate_group("1234567890123€"), "1234567890123");
    // twelve bytes, then a four-byte character across the limit
    assert_eq!(truncate_group("123456789012😀"), "123456789012");
    // a character that ends at the limit stays
    assert_eq!(truncate_group("1234567890123żx"), "1234567890123ż");
    assert_eq!(truncate_group("żżżżżżżż"), "żżżżżżż");
}

#[test]
fn set_group_changes_only_the_group() {
    let mut block = midi_block();
    SetGroup { group: "12345678901234żx".to_string() }.apply(&mut block);
    assert_eq!(block, Block { group: "12345678901234".to_string(), ..midi_block() });
    SetGroup { group: "g".to_string() }.apply(&mut block);
    assert_eq!(block.group, "g");
}

#[test]
fn set_keybind_changes_only_the_keybind() {
    let mut block = midi_block();
    SetKeybind { keybind: "q".to_string() }.apply(&mut block);
    assert_eq!(block, Block { keybind: "q".to_string(), ..midi_block() });
}

#[test]
fn set_port_within_the_known_ports() {
    let mut source = MidiSource { bytes: vec![9], file_name: "x.mid".to_string(), associated_port: 1 };
    assert!(SetPort { port: 0 }.apply(&mut source, 0, 3));
    assert_eq!(source.associated_port, 0);
    assert!(SetPort { port: 3 }.apply(&mut source, 0, 3));
    assert_eq!(source.associated_port, 3);
    assert!(!SetPort { port: 4 }.apply(&mut source, 0, 3));
    assert_eq!(source.associated_port, 3);
    assert!(!SetPort { port: 0 }.apply(&mut source, 1, 3));
    assert_eq!(source.associated_port, 3);
    assert_eq!(source.bytes, vec![9]);
}

#[test]
fn nick_schema_holds_the_nick() {
    let form = SetNick { nick: " ann ".to_string() };
    assert_eq!(form.clone(), form);
    assert_eq!(form.nick, " ann ");
}

#[test]
fn version_in_one_line() {
    let mut version = Version {
        pkg_version: "0.3.0".to_string(),
        hash: "abc1234".to_string(),
        full_hash: "abc1234def".to_string(),
        date: "2024-05-01 12:30".to_string(),
        dirty: false,
    };
    assert_eq!(version.text(), "0.3.0 (abc1234 2024-05-01 12:30)");
    version.dirty = true;
    assert_eq!(version.text(), "0.3.0 (abc1234 2024-05-01 12:30 dirty)");
}
