use vibi_core::chat_store::{ChatMessage, ChatSession, ChatStore};
use vibi_core::logger::{format_time, level_icon, LogEntry, LogLevel, Logger};
use vibi_core::storage::AppStorage;
use vibi_core::theme::{rgb, Rgba, Theme};
use std::cell::RefCell;
use std::rc::Rc;

fn chat(id: &str, title: &str) -> ChatSession {
    ChatSession {
        id: id.to_string(),
        title: title.to_string(),
        model: "gpt-4o".to_string(),
        messages: vec![ChatMessage { role: "user".to_string(), content: "hi".to_string() }],
    }
}

#[test]
fn store_starts_with_no_open_chat() {
    let store = ChatStore::from_chats(vec![chat("a", "A"), chat("b", "B")]);
    assert!(store.get_active().is_none());
    assert_eq!(store.all_chats().len(), 2);
}

#[test]
fn set_active_opens_and_empty_closes() {
    let mut store = ChatStore::from_chats(vec![chat("a", "A"), chat("b", "B")]);
    store.set_active("b");
    assert_eq!(store.get_active().unwrap().title, "B");
    store.set_active("zzz");
    assert!(store.get_active().is_none());
    store.set_active("a");
    assert_eq!(store.get_active().unwrap().title, "A");
    store.set_active("");
    assert!(store.get_active().is_none());
}

#[test]
fn get_active_finds_the_first_of_equal_ids() {
    let mut store = ChatStore::from_chats(vec![chat("x", "first"), chat("x", "second")]);
    store.set_active("x");
    assert_eq!(store.get_active().unwrap().title, "first");
}

#[test]
fn delete_chat_removes_every_copy_and_closes_it() {
    let mut store = ChatStore::from_chats(vec![chat("a", "A"), chat("b", "B"), chat("a", "A2"), chat("c", "C")]);
    store.set_active("a");
    store.delete_chat("a");
    let ids: Vec<&str> = store.all_chats().iter().map(|c| c.id.as_str()).collect();
    assert_eq!(ids, vec!["b", "c"]);
    assert!(store.get_active().is_none());
}

#[test]
fn delete_other_chat_keeps_the_open_one() {
    let mut store = ChatStore::from_chats(vec![chat("a", "A"), chat("b", "B")]);
    store.set_active("a");
    store.delete_chat("b");
    assert_eq!(store.all_chats().len(), 1);
    assert_eq!(store.get_active().unwrap().id, "a");
}

#[test]
fn logger_saves_after_every_fifth_entry() {
    let mut log: Logger<Box<dyn Fn(&LogEntry)>> = Logger::new();
    assert!(log.session_id().starts_with("session_"));
    let mut due = Vec::new();
    for i in 0..10 {
        due.push(log.log(LogLevel::Info, "test", &format!("message {}", i)));
    }
    assert_eq!(due, vec![false, false, false, false, true, false, false, false, false, true]);
    assert_eq!(log.entries.len(), 10);
    assert_eq!(log.entries[3].message, "message 3");
    assert_eq!(log.entries[3].category, "test");
    assert_eq!(log.entries[3].level, LogLevel::Info);
}

#[test]
fn logger_tells_listeners() {
    let seen: Rc<RefCell<Vec<String>>> = Rc::new(RefCell::new(Vec::new()));
    let mut log: Logger<Box<dyn Fn(&LogEntry)>> = Logger::new();
    let s = seen.clone();
    log.on_log(Box::new(move |e: &LogEntry| s.borrow_mut().push(e.message.clone())));
    log.log(LogLevel::Error, "net", "down");
    log.log(LogLevel::Success, "net", "up");
    assert_eq!(*seen.borrow(), vec!["down".to_string(), "up".to_string()]);
}

#[test]
fn timestamps_shorten_to_the_clock() {
    assert_eq!(format_time("2025-07-19 22:15:30.123"), "22:15");
    assert_eq!(format_time("short"), "short");
}

#[test]
fn each_level_has_an_icon() {
    assert_eq!(level_icon(LogLevel::Success), "🟢");
    assert_eq!(level_icon(LogLevel::Error), "🔴");
    assert_eq!(level_icon(LogLevel::Warning), "🟡");
    assert_eq!(level_icon(LogLevel::Info), "🔵");
    assert_eq!(level_icon(LogLevel::Debug), "⚪");
}

#[test]
fn default_storage() {
    let s = AppStorage::defaults();
    assert_eq!(s.theme, "light");
    assert!(!s.sidebar_collapsed);
    assert!(s.projects.is_empty());
    assert!(!s.api_mode);
    assert!(s.openai_api_key.is_none());
    assert!(s.gemini_api_key.is_none());
}

#[test]
fn set_theme_changes_only_the_theme() {
    let mut s = AppStorage::defaults();
    s.api_mode = true;
    s.set_theme("dark");
    assert_eq!(s.theme, "dark");
    assert!(s.api_mode);
}

#[test]
fn theme_palettes() {
    let light = Theme::new(false);
    let dark = Theme::new(true);
    assert_eq!(light.bg(), rgb(0xfa, 0xf9, 0xff));
    assert_eq!(dark.bg(), rgb(0x21, 0x21, 0x21));
    assert_eq!(light.accent(), Rgba { r: 0x8b, g: 0x00, b: 0xff, a: 255 });
    assert_eq!(dark.accent_hover(), rgb(0xe8, 0xd5, 0xf0));
    assert_eq!(dark.success_border(), rgb(0x2e, 0x5e, 0x2e));
    assert_eq!(light.text(), light.ai_text());
}

use vibi_core::sessions::session_listing;

#[test]
fn past_sessions_newest_first() {
    let names: Vec<String> = vec![
        "session_20250101_090000.sessiondata",
        "notes.txt",
        "session_20250301_120000.sessiondata",
        "session_20250201_080000.sessiondata",
    ]
    .into_iter()
    .map(String::from)
    .collect();
    let listed = session_listing(&names);
    let shown: Vec<&str> = listed.iter().map(|(_, d)| d.as_str()).collect();
    assert_eq!(shown, vec!["session_20250301_120000", "session_20250201_080000", "session_20250101_090000"]);
    assert_eq!(listed[0].0, "session_20250301_120000.sessiondata");
}

#[test]
fn at_most_twenty_sessions_are_listed() {
    let names: Vec<String> = (0..25).map(|i| format!("s{:02}.sessiondata", i)).collect();
    let listed = session_listing(&names);
    assert_eq!(listed.len(), 20);
    assert_eq!(listed[0].1, "s24");
    assert_eq!(listed[19].1, "s05");
}

use vibi_core::logger::NotificationBadge;

#[test]
fn badge_counts_entries_until_cleared() {
    let mut b = NotificationBadge::new();
    assert_eq!(b.on_entry(), "1");
    assert_eq!(b.on_entry(), "2");
    for _ in 0..8 {
        b.on_entry();
    }
    assert_eq!(b.count, 10);
    assert_eq!(b.clear(), "");
    assert_eq!(b.on_entry(), "1");
}

#[test]
fn logged_times_have_the_documented_shape() {
    let mut log: Logger<Box<dyn Fn(&LogEntry)>> = Logger::new();
    log.log(LogLevel::Debug, "clock", "tick");
    let t: Vec<char> = log.entries[0].timestamp.chars().collect();
    assert_eq!(t.len(), 23);
    for (i, c) in t.iter().enumerate() {
        match i {
            4 | 7 => assert_eq!(*c, '-'),
            10 => assert_eq!(*c, ' '),
            13 | 16 => assert_eq!(*c, ':'),
            19 => assert_eq!(*c, '.'),
            _ => assert!(c.is_ascii_digit()),
        }
    }
    let id: Vec<char> = log.session_id().chars().collect();
    assert_eq!(id.len(), 23);
    assert_eq!(id[16], '_');
    assert!(id[8..16].iter().all(|c| c.is_ascii_digit()));
    assert!(id[17..].iter().all(|c| c.is_ascii_digit()));
}
