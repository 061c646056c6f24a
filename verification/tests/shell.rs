use mayoos::task::init::{parse_command, split_words, Command, CommandLine, LineInput};
use pc_keyboard::{DecodedKey, Error, KeyCode, KeyEvent, KeyState};
use mayoos::task::keyboard::{
    completed_event, dequeue, enqueue, key_input, key_of, push_outcome, new_key_queue, Enqueued, Key, KeyDecoder, RawKey,
    KEY_QUEUE_CAPACITY,
};

fn chars(s: &str) -> Vec<char> {
    s.chars().collect()
}

fn words_of(s: &str) -> Vec<String> {
    split_words(&chars(s)).into_iter().map(|w| w.into_iter().collect()).collect()
}

#[test]
fn split_words_skips_ascii_whitespace() {
    assert_eq!(words_of("a  bb\tc"), vec!["a", "bb", "c"]);
    assert_eq!(words_of("  lead\r\ntrail  "), vec!["lead", "trail"]);
    assert_eq!(words_of(""), Vec::<String>::new());
    assert_eq!(words_of(" \t "), Vec::<String>::new());
    assert_eq!(words_of("x\u{0C}y"), vec!["x", "y"]);
}

#[test]
fn parse_ls() {
    assert!(matches!(parse_command(&chars("ls")), Command::List));
    assert!(matches!(parse_command(&chars("  ls  -l")), Command::List));
    assert!(matches!(parse_command(&chars("\tls\n")), Command::List));
}

#[test]
fn parse_cat_with_file() {
    match parse_command(&chars("cat   etc/boot-fail-wait  more")) {
        Command::Cat(f) => assert_eq!(f, "etc/boot-fail-wait"),
        other => panic!("unexpected {:?}", other),
    }
}

#[test]
fn parse_cat_default_file() {
    match parse_command(&chars("cat")) {
        Command::Cat(f) => assert_eq!(f, "opt/test"),
        other => panic!("unexpected {:?}", other),
    }
}

#[test]
fn parse_shutdown() {
    assert!(matches!(parse_command(&chars("shutdown")), Command::Shutdown));
}

#[test]
fn parse_unknown_keeps_line() {
    match parse_command(&chars("hello world")) {
        Command::Unknown(l) => assert_eq!(l, "hello world"),
        other => panic!("unexpected {:?}", other),
    }
    match parse_command(&chars("")) {
        Command::Unknown(l) => assert_eq!(l, ""),
        other => panic!("unexpected {:?}", other),
    }
    match parse_command(&chars("lss")) {
        Command::Unknown(l) => assert_eq!(l, "lss"),
        other => panic!("unexpected {:?}", other),
    }
}

#[test]
fn command_line_echoes_and_submits() {
    let mut line = CommandLine::new();
    assert!(matches!(line.feed('l'), LineInput::Echo('l')));
    assert!(matches!(line.feed('s'), LineInput::Echo('s')));
    match line.feed('\n') {
        LineInput::Submit(l) => assert_eq!(l, vec!['l', 's']),
        other => panic!("unexpected {:?}", other),
    }
    match line.feed('\n') {
        LineInput::Submit(l) => assert!(l.is_empty()),
        other => panic!("unexpected {:?}", other),
    }
}

#[test]
fn key_input_maps_keys() {
    assert_eq!(key_input(Key::Unicode('a')), Some('a'));
    assert_eq!(key_input(Key::Raw(RawKey::Enter)), Some('\n'));
    assert_eq!(key_input(Key::Raw(RawKey::Other)), None);
}

#[test]
fn decoder_turns_scancodes_into_characters() {
    let mut d = KeyDecoder::new();
    assert_eq!(d.next_input(0x1E), Some('a'));
    assert_eq!(d.next_input(0x9E), None);
    assert_eq!(d.next_input(0x1C), Some('\n'));
    assert_eq!(d.next_input(0x9C), None);
    assert_eq!(d.next_input(0x2A), None);
    assert_eq!(d.next_input(0x1E), Some('A'));
}

#[test]
fn decoder_classifies_raw_keys() {
    let mut d = KeyDecoder::new();
    assert_eq!(d.decode(0x3B), Some(Key::Raw(RawKey::Other)));
    assert_eq!(d.decode(0x10), Some(Key::Unicode('q')));
}

#[test]
fn key_queue_drops_input_when_full() {
    let q = new_key_queue::<u8>();
    for i in 0..KEY_QUEUE_CAPACITY {
        assert_eq!(enqueue(&q, i as u8), Enqueued::Accepted);
    }
    assert_eq!(enqueue(&q, 200), Enqueued::Full);
    assert_eq!(dequeue(&q), Some(0));
    assert_eq!(enqueue(&q, 201), Enqueued::Accepted);
    for i in 1..KEY_QUEUE_CAPACITY {
        assert_eq!(dequeue(&q), Some(i as u8));
    }
    assert_eq!(dequeue(&q), Some(201));
    assert_eq!(dequeue(&q), None);
}

#[test]
fn decoded_keys_map_to_shell_keys() {
    assert_eq!(key_of(DecodedKey::Unicode('x')), Key::Unicode('x'));
    assert_eq!(key_of(DecodedKey::RawKey(KeyCode::Return)), Key::Raw(RawKey::Enter));
    assert_eq!(key_of(DecodedKey::RawKey(KeyCode::F1)), Key::Raw(RawKey::Other));
}

#[test]
fn completed_event_keeps_only_events() {
    let ev = KeyEvent::new(KeyCode::A, KeyState::Down);
    assert_eq!(completed_event(Ok(Some(ev.clone()))), Some(ev));
    assert_eq!(completed_event(Ok(None)), None);
    assert_eq!(completed_event(Err(Error::UnknownKeyCode)), None);
}

#[test]
fn push_outcome_reports_full_queue() {
    assert_eq!(push_outcome::<u8>(Ok(())), Enqueued::Accepted);
    assert_eq!(push_outcome(Err(5u8)), Enqueued::Full);
}

#[test]
fn decode_key_returns_pc_keyboard_keys() {
    let mut d = KeyDecoder::new();
    assert_eq!(d.decode_key(0x1E), Some(DecodedKey::Unicode('a')));
    assert_eq!(d.decode_key(0x9E), None);
    assert_eq!(d.decode_key(0x3B), Some(DecodedKey::RawKey(KeyCode::F1)));
    assert_eq!(d.decode_key(0xE0), None);
}
