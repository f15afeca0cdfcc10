use groupchat::framing::{decode_frame, encode_frame, frame_length};
use groupchat::input::parse_input;
use groupchat::names::{str_eq, NameSet};
use groupchat::protocol::{Message, PromptMode};
use groupchat::replies::{prompt_text, server_message, username_accepted_message};
use groupchat::state::{is_group_admin, GroupInfo};
use groupchat::text::trim;

#[test]
fn frame_layout() {
    assert_eq!(encode_frame(&[7, 8, 9]), vec![0, 0, 0, 3, 7, 8, 9]);
    assert_eq!(encode_frame(&[]), vec![0, 0, 0, 0]);
    let big = vec![1u8; 0x1_0203];
    let f = encode_frame(&big);
    assert_eq!(&f[..4], &[0, 1, 2, 3]);
    assert_eq!(f.len(), 4 + big.len());
}

#[test]
fn frame_length_is_big_endian() {
    assert_eq!(frame_length(&[0, 0, 1, 0]), 256);
    assert_eq!(frame_length(&[1, 2, 3, 4]), 0x0102_0304);
    assert_eq!(frame_length(&[0xff, 0xff, 0xff, 0xff]), u32::MAX);
}

#[test]
fn frame_round_trip_with_trailing_bytes() {
    let payload = b"hello".to_vec();
    let mut bytes = encode_frame(&payload);
    bytes.extend_from_slice(&[42, 43]);
    assert_eq!(decode_frame(&bytes), Some((payload, 9)));
}

#[test]
fn incomplete_frames() {
    assert_eq!(decode_frame(&[0, 0, 0]), None);
    assert_eq!(decode_frame(&[0, 0, 0, 2, 9]), None);
    assert_eq!(decode_frame(&[0, 0, 0, 0]), Some((vec![], 4)));
}

#[test]
fn trimming() {
    assert_eq!(trim("  a b \t\n"), "a b");
    assert_eq!(trim("\u{3000}x\u{00a0}"), "x");
    assert_eq!(trim("   "), "");
    assert_eq!(trim(""), "");
    assert_eq!(trim("x"), "x");
}

#[test]
fn replies_in_reach() {
    assert_eq!(username_accepted_message(), "Username accepted. Welcome!");
    assert_eq!(prompt_text("ann", &PromptMode::Plain), "[ann]: ");
    assert_eq!(prompt_text("ann", &PromptMode::Group("g".to_string())), "[ann@g]: ");
    assert_eq!(prompt_text("ann", &PromptMode::Direct("bo".to_string())), "[ann@bo]: ");
    assert_eq!(prompt_text("ann", &PromptMode::PendingUsername), "> ");
    match server_message("hi") {
        Message::Say(t) => assert_eq!(t, "[Server@you]: hi"),
        other => panic!("unexpected {:?}", other),
    }
}

#[test]
fn admins_of_a_group() {
    let mut g = GroupInfo::new("owner".to_string());
    assert!(is_group_admin(&g, "owner"));
    assert!(!is_group_admin(&g, "other"));
    g.admins.insert("other".to_string());
    assert!(is_group_admin(&g, "other"));
}

#[test]
fn name_sets() {
    let mut s = NameSet::new();
    assert!(s.insert("a".to_string()));
    assert!(!s.insert("a".to_string()));
    assert!(s.contains("a"));
    assert!(s.remove("a"));
    assert!(!s.remove("a"));
    assert!(!s.contains("a"));
    assert!(str_eq("é", "é"));
    assert!(!str_eq("ab", "a"));
}

#[test]
fn typed_lines() {
    match parse_input("/nick ann") {
        Some(Message::Username(n)) => assert_eq!(n, "ann"),
        other => panic!("unexpected {:?}", other),
    }
    match parse_input("/whisper bo hello there") {
        Some(Message::Send(to, text)) => {
            assert_eq!(to, "bo");
            assert_eq!(text, "hello there");
        }
        other => panic!("unexpected {:?}", other),
    }
    assert!(parse_input("/whisper bo").is_none());
    match parse_input("just text") {
        Some(Message::Say(t)) => assert_eq!(t, "just text"),
        other => panic!("unexpected {:?}", other),
    }
    match parse_input("/nick") {
        Some(Message::Say(t)) => assert_eq!(t, "/nick"),
        other => panic!("unexpected {:?}", other),
    }
}
