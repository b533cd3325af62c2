use vibi_core::ai_bridge::{
    decode_program, decode_reply, escape_for_script, parse_index, pieces_whole, read_uri, Bridge, BridgeEvent,
    LoadAction, PieceBuffer, SendAction, Signal, PROMPT,
};

fn hex(s: &str) -> String {
    s.bytes().map(|b| format!("{:02x}", b)).collect()
}

#[test]
fn indexes_parse_like_usize() {
    assert_eq!(parse_index("42"), Some(42));
    assert_eq!(parse_index("+7"), Some(7));
    assert_eq!(parse_index(""), None);
    assert_eq!(parse_index("+"), None);
    assert_eq!(parse_index("-1"), None);
    assert_eq!(parse_index("4a"), None);
    assert_eq!(parse_index("18446744073709551615"), Some(usize::MAX));
    assert_eq!(parse_index("18446744073709551616"), None);
    assert_eq!(parse_index("007"), Some(7));
}

#[test]
fn addresses_are_read() {
    match read_uri("https://chat.openai.com/c/1#vibi-3-6869&x=1") {
        Signal::ReplyChunk { index, data } => {
            assert_eq!(index, 3);
            assert_eq!(data, "6869");
        }
        _ => panic!("expected a reply piece"),
    }
    assert!(matches!(read_uri("https://x/#vibi-done?y"), Signal::ReplyDone));
    assert!(matches!(read_uri("https://x/#vibi-action-done"), Signal::ActionDone));
    match read_uri("https://x/#vibi-action-0-ab-cd") {
        Signal::ActionChunk { index, data } => {
            assert_eq!(index, 0);
            assert_eq!(data, "ab-cd");
        }
        _ => panic!("expected a program piece"),
    }
    assert!(matches!(read_uri("https://x/#vibi-x-ab"), Signal::Ignored));
    assert!(matches!(read_uri("https://x/#vibi-nodash"), Signal::Ignored));
    assert!(matches!(read_uri("https://x/page"), Signal::Ignored));
}

#[test]
fn pieces_are_joined_by_index() {
    let mut b = PieceBuffer::new();
    b.store(2, "c".to_string());
    b.store(0, "a".to_string());
    b.store(1, "b".to_string());
    assert_eq!(b.take_all(), "abc");
    assert!(b.pieces.is_empty());
    b.store(1, "y".to_string());
    assert_eq!(b.pieces, vec!["".to_string(), "y".to_string()]);
}

#[test]
fn a_reply_travels_in_pieces() {
    let mut bridge = Bridge::new();
    let h = hex("hi é");
    let (first, second) = h.split_at(4);
    let uris = [
        format!("https://x/#vibi-1-{}", second),
        format!("https://x/#vibi-0-{}", first),
    ];
    for u in &uris {
        assert!(matches!(bridge.on_signal(read_uri(u)), BridgeEvent::Nothing));
    }
    match bridge.on_signal(read_uri("https://x/#vibi-done")) {
        BridgeEvent::ReplyHex(h2) => {
            assert_eq!(h2, h);
            assert!(pieces_whole(&h2));
            assert_eq!(decode_reply(&h2).unwrap(), "hi é");
        }
        other => panic!("unexpected {:?}", other),
    }
    assert!(bridge.reply_pieces.pieces.is_empty());
}

#[test]
fn replies_that_are_not_hex_fail() {
    assert!(decode_reply("zz").is_none());
    assert!(decode_reply("abc").is_none());
    assert!(decode_reply("ff").is_none());
}

#[test]
fn programs_need_the_marker() {
    let code = "main vibi.claw\n{ jobs jobs() }";
    assert_eq!(decode_program(&hex(code)).unwrap(), code);
    assert!(decode_program(&hex("hello")).is_none());
    let mut with_junk = hex(code);
    with_junk.push_str("zz");
    assert_eq!(decode_program(&with_junk).unwrap(), code);
}

#[test]
fn escaping_for_scripts() {
    assert_eq!(escape_for_script("a\\b'c\"d\ne"), "a\\\\b\\'c\\\"d\\ne");
}

#[test]
fn sending_adds_instructions_every_tenth_message() {
    let mut bridge = Bridge::new();
    bridge.load_model("chatgpt");
    bridge.page_finished();
    assert!(matches!(bridge.send("   "), SendAction::Nothing));
    assert_eq!(bridge.message_count, 0);
    match bridge.send("hello") {
        SendAction::Run { script, page_loaded } => {
            assert!(page_loaded);
            assert!(script.starts_with("(function() { var input = document.querySelector('#prompt-textarea')"));
            assert!(script.contains(&escape_for_script(&format!("{}\n\nhello", PROMPT))));
        }
        _ => panic!("expected a script"),
    }
    match bridge.send("again") {
        SendAction::Run { script, .. } => {
            assert!(script.contains("input.textContent = 'again';"));
            assert!(!script.contains("SYSTEM MEMORY"));
        }
        _ => panic!("expected a script"),
    }
    assert_eq!(bridge.message_count, 2);
}

#[test]
fn loading_models() {
    let mut bridge = Bridge::new();
    match bridge.load_model("gemini") {
        LoadAction::Load(url) => assert_eq!(url, "https://gemini.google.com"),
        _ => panic!("expected a load"),
    }
    match bridge.load_model("gemini") {
        LoadAction::Load(_) => {}
        _ => panic!("not loaded yet, so it loads again"),
    }
    bridge.page_finished();
    assert!(matches!(bridge.load_model("gemini"), LoadAction::AlreadyLoaded));
    match bridge.load_model("mistral") {
        LoadAction::Load(url) => assert_eq!(url, "https://chat.openai.com"),
        _ => panic!("expected a load"),
    }
    assert!(!bridge.page_loaded);
}

#[test]
fn sleeping_after_ten_idle_minutes() {
    let mut bridge = Bridge::new();
    assert!(!bridge.should_sleep(700_000));
    bridge.sleep_enabled = true;
    assert!(!bridge.should_sleep(600_000));
    assert!(bridge.should_sleep(600_001));
}
