use tcp_chat::chat_log::{get_spacer, Message, MessageList, SystemUserType, MAX_MESSAGE};

fn line(author_id: u32, text: &str) -> Message {
    Message {
        author_id,
        author_username: String::from("someone"),
        message: String::from(text),
    }
}

#[test]
fn spacer_pads_to_ten_columns() {
    assert_eq!(get_spacer(0), "          ");
    assert_eq!(get_spacer(4), "      ");
    assert_eq!(get_spacer(9), " ");
    assert_eq!(get_spacer(10), "");
    assert_eq!(get_spacer(30), "");
    for n in 0..10 {
        assert_eq!(get_spacer(n).len() + n, 10);
    }
}

#[test]
fn notices_are_told_apart() {
    assert_eq!(line(0xF000_0000, "").system_type(), Some(SystemUserType::System));
    assert_eq!(line(0xFFFF_FFFF, "").system_type(), Some(SystemUserType::System));
    assert_eq!(line(0xE000_0000, "").system_type(), Some(SystemUserType::Server));
    assert_eq!(line(0xEFFF_FFFF, "").system_type(), Some(SystemUserType::Server));
    assert_eq!(line(0xDFFF_FFFF, "").system_type(), None);
    assert_eq!(line(42, "").system_type(), None);
    assert!(line(0xE000_0001, "").is_system());
    assert!(!line(0x1000_0000, "").is_system());
}

#[test]
fn name_colour_comes_from_id_bits() {
    assert_eq!(line(0x0123_4567, "").username_color(), (0x12, 0x56, 0x34));
    assert_eq!(line(0, "").username_color(), (0, 0, 0));
}

#[test]
fn log_keeps_the_newest_lines() {
    let mut log = MessageList::new();
    assert_eq!(log.len(), 0);
    for i in 0..(MAX_MESSAGE + 5) {
        log.push_message(line(1, &i.to_string()));
        assert_eq!(log.len(), (i + 1).min(MAX_MESSAGE));
    }
    assert_eq!(log.get(0).unwrap().message, "5");
    assert_eq!(log.get(MAX_MESSAGE - 1).unwrap().message, (MAX_MESSAGE + 4).to_string());
    assert!(log.get(MAX_MESSAGE).is_none());
}

#[test]
fn scrolling_stays_in_bounds() {
    let mut log = MessageList::new();
    log.scroll_up();
    assert_eq!(log.scroll(), 0);
    log.push_message(line(1, "a"));
    log.push_message(line(1, "b"));
    log.scroll_down(5);
    assert_eq!(log.scroll(), 0);
    log.scroll_down(1);
    assert_eq!(log.scroll(), 1);
    log.scroll_up();
    log.scroll_up();
    assert_eq!(log.scroll(), 0);
}
