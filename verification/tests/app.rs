use hackchat::app::{App, CurrentScreen, Inserting, KeyInput, Mode};
use hackchat::textutil::{string_from_chars, usize_to_chars};

#[test]
fn new_app_defaults() {
    let app = App::new();
    assert!(matches!(app.current_screen, CurrentScreen::Login));
    assert!(app.mode.is_none());
    assert!(app.username.is_none());
    assert!(app.room_name.is_none());
    assert!(app.chat_input.is_empty());
    assert_eq!(app.chat_input_index, 0);
    assert!(app.network_messages.is_empty());
    assert_eq!(app.chat_messages.0, 0);
    assert!(app.chat_messages.1.is_empty());
    assert!(!app.exit);
    assert!(matches!(app.inserting, Inserting::Username));
    assert_eq!(app.online_users.len(), 0);
}

#[test]
fn typing_and_deleting() {
    let mut app = App::new();
    app.enter_char('h', Inserting::Username);
    app.enter_char('i', Inserting::Username);
    assert_eq!(app.username_input, vec!['h', 'i']);
    assert_eq!(app.username_index, 2);

    app.move_cursor_left(Inserting::Username);
    app.enter_char('e', Inserting::Username);
    assert_eq!(app.username_input, vec!['h', 'e', 'i']);
    assert_eq!(app.username_index, 2);

    app.delete_char(Inserting::Username);
    assert_eq!(app.username_input, vec!['h', 'i']);
    assert_eq!(app.username_index, 1);
}

#[test]
fn delete_at_left_edge_is_a_no_op() {
    let mut app = App::new();
    app.enter_char('x', Inserting::Room);
    app.reset_cursor(Inserting::Room);
    app.delete_char(Inserting::Room);
    assert_eq!(app.room_input, vec!['x']);
    assert_eq!(app.room_index, 0);
}

#[test]
fn cursor_clamps_at_both_ends() {
    let mut app = App::new();
    app.move_cursor_left(Inserting::Username);
    assert_eq!(app.username_index, 0);
    app.enter_char('a', Inserting::Username);
    app.move_cursor_right(Inserting::Username);
    app.move_cursor_right(Inserting::Username);
    assert_eq!(app.username_index, 1);
}

#[test]
fn byte_index_counts_utf8_bytes() {
    let mut app = App::new();
    app.enter_char('\u{e9}', Inserting::Chat);
    app.enter_char('x', Inserting::Chat);
    assert_eq!(app.chat_input_index, 2);
    assert_eq!(app.byte_index(Inserting::Chat), 3);
    app.move_cursor_left(Inserting::Chat);
    assert_eq!(app.byte_index(Inserting::Chat), 2);
    app.move_cursor_left(Inserting::Chat);
    assert_eq!(app.byte_index(Inserting::Chat), 0);
}

#[test]
fn cursor_pos_offsets_by_border() {
    let mut app = App::new();
    app.enter_char('a', Inserting::Username);
    let (x, y) = app.cursor_pos(4, 7, Inserting::Username);
    assert_eq!(x, 6);
    assert_eq!(y, 8);
}

#[test]
fn login_flow_through_keys() {
    let mut app = App::new();
    app.handle_key(KeyInput::Char('m'));
    app.handle_key(KeyInput::Char('e'));
    app.handle_key(KeyInput::Tab);
    assert!(matches!(app.inserting, Inserting::Room));
    app.handle_key(KeyInput::Char('r'));
    app.handle_key(KeyInput::Char('1'));
    app.handle_key(KeyInput::Backspace);
    app.handle_key(KeyInput::Enter);
    assert!(matches!(app.current_screen, CurrentScreen::Main));
    assert!(matches!(app.mode, Some(Mode::Main)));
    assert_eq!(app.username.as_deref(), Some("me"));
    assert_eq!(app.room_name.as_deref(), Some("r"));
}

#[test]
fn quit_flow_through_keys() {
    let mut app = App::new();
    app.current_screen = CurrentScreen::Main;
    app.handle_key(KeyInput::Char('q'));
    assert!(matches!(app.current_screen, CurrentScreen::Main));
    app.handle_key(KeyInput::Esc);
    assert!(matches!(app.current_screen, CurrentScreen::Quit));
    app.handle_key(KeyInput::Char('n'));
    assert!(matches!(app.current_screen, CurrentScreen::Main));
    app.handle_key(KeyInput::Esc);
    app.handle_key(KeyInput::Char('y'));
    assert!(app.exit);
}

#[test]
fn escape_on_login_exits() {
    let mut app = App::new();
    app.handle_key(KeyInput::Esc);
    assert!(app.exit);
}

#[test]
fn scrolling_clamps() {
    let mut app = App::new();
    app.max_chat_index = 2;
    app.scroll_down();
    app.scroll_down();
    app.scroll_down();
    assert_eq!(app.chat_index, 2);
    app.scroll_up();
    assert_eq!(app.chat_index, 1);
    app.scroll_up();
    app.scroll_up();
    assert_eq!(app.chat_index, 0);
}

#[test]
fn create_lines_wraps_and_numbers() {
    let mut app = App::new();
    app.network_messages.push(("ab".to_string(), "cd".to_string()));
    app.create_lines(10);
    assert_eq!(app.chat_messages.0, 10);
    assert_eq!(app.chat_messages.1, vec![" 1 |ab| cd".to_string()]);
}

#[test]
fn create_lines_numbers_across_messages() {
    let mut app = App::new();
    app.network_messages.push(("u".to_string(), "x".to_string()));
    app.network_messages.push(("v".to_string(), "y".to_string()));
    app.create_lines(5);
    assert_eq!(
        app.chat_messages.1,
        vec![
            " 1 |u".to_string(),
            " 2 | ".to_string(),
            " 3 x".to_string(),
            " 4 |v".to_string(),
            " 5 | ".to_string(),
            " 6 y".to_string(),
        ]
    );
}

#[test]
fn add_message_appends_and_numbers_from_one() {
    let mut app = App::new();
    app.chat_messages.0 = 5;
    app.add_message_to_network_and_chat("u".to_string(), "x".to_string());
    assert_eq!(
        app.network_messages,
        vec![("u".to_string(), "x".to_string())]
    );
    assert_eq!(
        app.chat_messages.1,
        vec![" 1 |u".to_string(), " 2 | ".to_string(), " 3 x".to_string()]
    );
}

#[test]
fn log_fits_accepts_ordinary_logs() {
    assert!(hackchat::chat::log_fits(&Vec::new()));
    let log = vec![
        ("alice".to_string(), "hello there".to_string()),
        ("bob".to_string(), "hi".to_string()),
    ];
    assert!(hackchat::chat::log_fits(&log));
}

#[test]
fn decimal_rendering_is_exact() {
    assert_eq!(usize_to_chars(0), vec!['0']);
    assert_eq!(usize_to_chars(7), vec!['7']);
    assert_eq!(usize_to_chars(120), vec!['1', '2', '0']);
    assert_eq!(usize_to_chars(10_000), vec!['1', '0', '0', '0', '0']);
}

#[test]
fn string_from_chars_round_trips() {
    let s = string_from_chars(&vec!['a', '\u{e9}', 'z']);
    assert_eq!(s, "a\u{e9}z");
}
