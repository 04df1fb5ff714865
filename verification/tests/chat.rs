use pomc::ui::chat::{ChatState, MAX_MESSAGES};

fn texts(chat: &ChatState) -> Vec<String> {
    chat.messages().iter().map(|l| l.text.clone()).collect()
}

#[test]
fn new_chat_is_closed_and_empty() {
    let chat = ChatState::new();
    assert!(!chat.is_open());
    assert_eq!(chat.input(), "");
    assert!(chat.messages().is_empty());
}

#[test]
fn push_message_appends_in_order() {
    let mut chat = ChatState::new();
    chat.push_message("hello".to_string());
    chat.push_message("world".to_string());
    assert_eq!(texts(&chat), vec!["hello".to_string(), "world".to_string()]);
}

#[test]
fn push_message_keeps_the_latest_hundred() {
    let mut chat = ChatState::new();
    for i in 0..105 {
        chat.push_message(format!("message {i}"));
    }
    let t = texts(&chat);
    assert_eq!(t.len(), MAX_MESSAGES);
    assert_eq!(t[0], "message 5");
    assert_eq!(t[99], "message 104");
}

#[test]
fn push_message_at_exactly_the_limit_drops_nothing() {
    let mut chat = ChatState::new();
    for i in 0..100 {
        chat.push_message(format!("m{i}"));
    }
    let t = texts(&chat);
    assert_eq!(t.len(), 100);
    assert_eq!(t[0], "m0");
}

#[test]
fn open_clears_the_input() {
    let mut chat = ChatState::new();
    chat.set_input("draft".to_string());
    chat.open();
    assert!(chat.is_open());
    assert_eq!(chat.input(), "");
}

#[test]
fn open_with_slash_types_a_slash() {
    let mut chat = ChatState::new();
    chat.open_with_slash();
    assert!(chat.is_open());
    assert_eq!(chat.input(), "/");
}

#[test]
fn close_clears_and_closes() {
    let mut chat = ChatState::new();
    chat.open_with_slash();
    chat.close();
    assert!(!chat.is_open());
    assert_eq!(chat.input(), "");
}

#[test]
fn take_pending_message_hands_out_the_typed_line() {
    let mut chat = ChatState::new();
    chat.open();
    chat.set_input("hi there".to_string());
    assert_eq!(chat.take_pending_message(), Some("hi there".to_string()));
    assert!(!chat.is_open());
    assert_eq!(chat.input(), "");
}

#[test]
fn take_pending_message_with_empty_line_closes_only() {
    let mut chat = ChatState::new();
    chat.open();
    assert_eq!(chat.take_pending_message(), None);
    assert!(!chat.is_open());
}

#[test]
fn take_pending_message_when_closed_keeps_the_line() {
    let mut chat = ChatState::new();
    chat.set_input("kept".to_string());
    assert_eq!(chat.take_pending_message(), None);
    assert!(!chat.is_open());
    assert_eq!(chat.input(), "kept");
}

#[test]
fn visible_lines_open_shows_ten_newest_first() {
    let mut chat = ChatState::new();
    for i in 0..12 {
        chat.push_message(format!("m{i}"));
    }
    chat.open();
    let recent = vec![false; 12];
    let lines = chat.visible_lines(&recent);
    assert_eq!(lines.len(), 10);
    assert_eq!(lines[0], "m11");
    assert_eq!(lines[9], "m2");
}

#[test]
fn visible_lines_closed_shows_only_recent() {
    let mut chat = ChatState::new();
    for i in 0..5 {
        chat.push_message(format!("m{i}"));
    }
    let recent = vec![false, true, false, true, true];
    let lines = chat.visible_lines(&recent);
    assert_eq!(lines, vec!["m4".to_string(), "m3".to_string(), "m1".to_string()]);
}

#[test]
fn a_hundred_and_one_pushes_keep_the_last_hundred() {
    let mut chat = ChatState::new();
    for i in 0..=100 {
        chat.push_message(format!("{i}"));
    }
    let t = texts(&chat);
    assert_eq!(t.len(), 100);
    assert_eq!(t[0], "1");
    assert_eq!(t[99], "100");
}
