use std::path::PathBuf;
use term_ssh_manager::app::{App, Effect, Screen};
use term_ssh_manager::form::FormField;
use term_ssh_manager::input::{handle_key, key_to_bytes, utf8_encode, KeyCode, KeyEvent, KeyModifiers};
use term_ssh_manager::server::Server;

const NONE: KeyModifiers = KeyModifiers { shift: false, control: false, alt: false };
const SHIFT: KeyModifiers = KeyModifiers { shift: true, control: false, alt: false };
const CTRL: KeyModifiers = KeyModifiers { shift: false, control: true, alt: false };
const ALT: KeyModifiers = KeyModifiers { shift: false, control: false, alt: true };

fn key(code: KeyCode) -> KeyEvent {
    KeyEvent { code, modifiers: NONE }
}

fn ch(c: char) -> KeyEvent {
    key(KeyCode::Char(c))
}

fn app_with(n: usize) -> App {
    let servers = (0..n)
        .map(|i| Server {
            alias: format!("s{}", i),
            host: format!("h{}", i),
            username: String::new(),
            port: 22,
            tags: String::new(),
        })
        .collect();
    App::new(PathBuf::from("servers.json"), servers)
}

#[test]
fn dashboard_keys() {
    let mut app = app_with(3);
    handle_key(&mut app, ch('j'), false);
    assert_eq!(app.selected, 1);
    handle_key(&mut app, key(KeyCode::Down), false);
    assert_eq!(app.selected, 2);
    handle_key(&mut app, ch('k'), false);
    assert_eq!(app.selected, 1);
    handle_key(&mut app, key(KeyCode::Up), false);
    assert_eq!(app.selected, 0);
    handle_key(&mut app, key(KeyCode::Enter), false);
    assert_eq!(app.should_ssh, Some(0));
    handle_key(&mut app, ch('x'), false);
    assert_eq!(app.screen, Screen::Dashboard);
    handle_key(&mut app, ch('q'), false);
    assert!(app.should_quit);
}

#[test]
fn dashboard_opens_screens() {
    let mut app = app_with(2);
    handle_key(&mut app, ch('a'), false);
    assert_eq!(app.screen, Screen::AddForm);
    let mut app = app_with(2);
    handle_key(&mut app, ch('e'), false);
    assert_eq!(app.screen, Screen::EditForm(0));
    let mut app = app_with(2);
    handle_key(&mut app, ch('d'), false);
    assert_eq!(app.screen, Screen::ConfirmDelete(0));
}

#[test]
fn form_typing_and_backspace() {
    let mut app = app_with(0);
    handle_key(&mut app, ch('a'), false);
    for c in "web".chars() {
        handle_key(&mut app, ch(c), false);
    }
    assert_eq!(app.form.alias, "web");
    handle_key(&mut app, key(KeyCode::Backspace), false);
    assert_eq!(app.form.alias, "we");
    handle_key(&mut app, key(KeyCode::Tab), false);
    assert_eq!(app.form.focused, FormField::Host);
    for c in "h.io".chars() {
        handle_key(&mut app, ch(c), false);
    }
    assert_eq!(app.form.host, "h.io");
    handle_key(&mut app, key(KeyCode::Backspace), false);
    handle_key(&mut app, ch('o'), false);
    assert_eq!(app.form.host, "h.io");
}

#[test]
fn form_backspace_on_empty_field() {
    let mut app = app_with(0);
    handle_key(&mut app, ch('a'), false);
    handle_key(&mut app, key(KeyCode::Backspace), false);
    assert_eq!(app.form.alias, "");
}

#[test]
fn form_focus_keys() {
    let mut app = app_with(0);
    handle_key(&mut app, ch('a'), false);
    handle_key(&mut app, KeyEvent { code: KeyCode::Tab, modifiers: SHIFT }, false);
    assert_eq!(app.form.focused, FormField::Tags);
    handle_key(&mut app, key(KeyCode::Tab), false);
    assert_eq!(app.form.focused, FormField::Alias);
    handle_key(&mut app, key(KeyCode::BackTab), false);
    assert_eq!(app.form.focused, FormField::Tags);
}

#[test]
fn form_enter_submits_and_esc_cancels() {
    let mut app = app_with(0);
    handle_key(&mut app, ch('a'), false);
    let e = handle_key(&mut app, key(KeyCode::Enter), false);
    assert!(matches!(e, Effect::Nothing));
    assert_eq!(app.status_msg, "Alias and Host are required.");
    handle_key(&mut app, ch('x'), false);
    handle_key(&mut app, key(KeyCode::Tab), false);
    handle_key(&mut app, ch('y'), false);
    let e = handle_key(&mut app, key(KeyCode::Enter), false);
    assert!(matches!(e, Effect::SaveAndReport));
    assert_eq!(app.servers.len(), 1);
    assert_eq!(app.status_msg, "Added 'x'");
    handle_key(&mut app, ch('a'), false);
    handle_key(&mut app, key(KeyCode::Esc), false);
    assert_eq!(app.screen, Screen::Dashboard);
    assert_eq!(app.status_msg, "");
}

#[test]
fn confirm_delete_keys() {
    let mut app = app_with(2);
    handle_key(&mut app, ch('d'), false);
    handle_key(&mut app, ch('z'), false);
    assert_eq!(app.screen, Screen::ConfirmDelete(0));
    handle_key(&mut app, ch('n'), false);
    assert_eq!(app.screen, Screen::Dashboard);
    handle_key(&mut app, ch('d'), false);
    handle_key(&mut app, key(KeyCode::Esc), false);
    assert_eq!(app.servers.len(), 2);
    handle_key(&mut app, ch('d'), false);
    let e = handle_key(&mut app, ch('Y'), false);
    assert!(matches!(e, Effect::SaveQuietly));
    assert_eq!(app.servers.len(), 1);
    assert_eq!(app.status_msg, "Deleted 's0'");
}

#[test]
fn session_keys_go_to_terminal() {
    let mut app = app_with(1);
    app.screen = Screen::SshSession;
    match handle_key(&mut app, ch('l'), false) {
        Effect::SendToSession(b) => assert_eq!(b, vec![b'l']),
        _ => panic!("expected bytes for the session"),
    }
    let e = handle_key(&mut app, key(KeyCode::Other), false);
    assert!(matches!(e, Effect::Nothing));
    assert_eq!(app.screen, Screen::SshSession);
}

#[test]
fn ended_session_returns_to_list() {
    let mut app = app_with(1);
    app.screen = Screen::SshSession;
    let e = handle_key(&mut app, ch('l'), true);
    assert!(matches!(e, Effect::Nothing));
    assert_eq!(app.screen, Screen::Dashboard);
    assert_eq!(app.status_msg, "SSH session ended.");
}

#[test]
fn ctrl_keys_give_control_codes() {
    assert_eq!(key_to_bytes(KeyEvent { code: KeyCode::Char('a'), modifiers: CTRL }), vec![1]);
    assert_eq!(key_to_bytes(KeyEvent { code: KeyCode::Char('C'), modifiers: CTRL }), vec![3]);
    assert_eq!(key_to_bytes(KeyEvent { code: KeyCode::Char('z'), modifiers: CTRL }), vec![26]);
    assert_eq!(key_to_bytes(KeyEvent { code: KeyCode::Char('['), modifiers: CTRL }), vec![27]);
    assert_eq!(key_to_bytes(KeyEvent { code: KeyCode::Char('\\'), modifiers: CTRL }), vec![28]);
    assert_eq!(key_to_bytes(KeyEvent { code: KeyCode::Char(']'), modifiers: CTRL }), vec![29]);
    assert_eq!(key_to_bytes(KeyEvent { code: KeyCode::Char('^'), modifiers: CTRL }), vec![30]);
    assert_eq!(key_to_bytes(KeyEvent { code: KeyCode::Char('_'), modifiers: CTRL }), vec![31]);
    assert_eq!(key_to_bytes(KeyEvent { code: KeyCode::Char('1'), modifiers: CTRL }), vec![b'1']);
    assert_eq!(key_to_bytes(KeyEvent { code: KeyCode::Char('é'), modifiers: CTRL }), vec![0xE9]);
    let both = KeyModifiers { shift: false, control: true, alt: true };
    assert_eq!(key_to_bytes(KeyEvent { code: KeyCode::Char('b'), modifiers: both }), vec![2]);
}

#[test]
fn alt_keys_get_escape_prefix() {
    assert_eq!(key_to_bytes(KeyEvent { code: KeyCode::Char('x'), modifiers: ALT }), vec![27, b'x']);
    assert_eq!(key_to_bytes(KeyEvent { code: KeyCode::Char('ß'), modifiers: ALT }), vec![27, 0xC3, 0x9F]);
}

#[test]
fn plain_chars_are_utf8() {
    for c in ['a', 'é', '€', '😀', '\u{7f}', '\u{80}', '\u{7ff}', '\u{800}', '\u{ffff}', '\u{10000}', '\u{10ffff}'] {
        let mut buf = [0u8; 4];
        let expected = c.encode_utf8(&mut buf).as_bytes().to_vec();
        assert_eq!(key_to_bytes(ch(c)), expected);
        assert_eq!(utf8_encode(c), expected);
    }
    assert_eq!(key_to_bytes(KeyEvent { code: KeyCode::Char('A'), modifiers: SHIFT }), vec![b'A']);
}

#[test]
fn special_keys_give_escape_sequences() {
    assert_eq!(key_to_bytes(key(KeyCode::Enter)), vec![b'\r']);
    assert_eq!(key_to_bytes(key(KeyCode::Backspace)), vec![127]);
    assert_eq!(key_to_bytes(key(KeyCode::Delete)), vec![27, b'[', b'3', b'~']);
    assert_eq!(key_to_bytes(key(KeyCode::Tab)), vec![b'\t']);
    assert_eq!(key_to_bytes(key(KeyCode::BackTab)), vec![27, b'[', b'Z']);
    assert_eq!(key_to_bytes(key(KeyCode::Esc)), vec![27]);
    assert_eq!(key_to_bytes(key(KeyCode::Up)), vec![27, b'[', b'A']);
    assert_eq!(key_to_bytes(key(KeyCode::Down)), vec![27, b'[', b'B']);
    assert_eq!(key_to_bytes(key(KeyCode::Right)), vec![27, b'[', b'C']);
    assert_eq!(key_to_bytes(key(KeyCode::Left)), vec![27, b'[', b'D']);
    assert_eq!(key_to_bytes(key(KeyCode::Home)), vec![27, b'[', b'H']);
    assert_eq!(key_to_bytes(key(KeyCode::End)), vec![27, b'[', b'F']);
    assert_eq!(key_to_bytes(key(KeyCode::PageUp)), vec![27, b'[', b'5', b'~']);
    assert_eq!(key_to_bytes(key(KeyCode::PageDown)), vec![27, b'[', b'6', b'~']);
    assert_eq!(key_to_bytes(key(KeyCode::Other)), Vec::<u8>::new());
    // modifiers do not change non-character keys
    assert_eq!(key_to_bytes(KeyEvent { code: KeyCode::Up, modifiers: CTRL }), vec![27, b'[', b'A']);
}

#[test]
fn function_keys() {
    let expected: [&[u8]; 13] = [
        b"",
        b"\x1bOP",
        b"\x1bOQ",
        b"\x1bOR",
        b"\x1bOS",
        b"\x1b[15~",
        b"\x1b[17~",
        b"\x1b[18~",
        b"\x1b[19~",
        b"\x1b[20~",
        b"\x1b[21~",
        b"\x1b[23~",
        b"\x1b[24~",
    ];
    for n in 0..13u8 {
        assert_eq!(key_to_bytes(key(KeyCode::F(n))), expected[n as usize].to_vec(), "F{}", n);
    }
    assert_eq!(key_to_bytes(key(KeyCode::F(13))), Vec::<u8>::new());
}

#[test]
fn keys_keep_selection_in_range() {
    let mut app = app_with(3);
    let script = [ch('k'), ch('d'), ch('y'), ch('k'), ch('d'), ch('y'), ch('j'), ch('d'), ch('Y'), ch('j'), ch('e')];
    for k in script {
        handle_key(&mut app, k, false);
        if app.servers.is_empty() {
            assert_eq!(app.selected, 0);
        } else {
            assert!(app.selected < app.servers.len());
        }
        if let Screen::ConfirmDelete(i) | Screen::EditForm(i) = app.screen {
            assert!(i < app.servers.len());
        }
    }
    assert!(app.servers.is_empty());
    assert_eq!(app.screen, Screen::Dashboard);
}

#[test]
fn keys_never_start_a_session() {
    let mut app = app_with(2);
    let keys = [ch('j'), key(KeyCode::Enter), ch('e'), key(KeyCode::Enter), ch('d'), ch('n'), ch('a'), key(KeyCode::Esc)];
    for k in keys {
        let before = app.screen;
        handle_key(&mut app, k, false);
        assert_ne!(app.screen, Screen::SshSession);
        if before == Screen::Dashboard {
            assert!(matches!(app.screen, Screen::Dashboard | Screen::AddForm | Screen::EditForm(1) | Screen::ConfirmDelete(1)));
        }
    }
    assert_eq!(app.servers.len(), 2);
}

#[test]
fn selection_at_limit_is_fine_for_other_keys() {
    let mut app = app_with(1);
    app.selected = usize::MAX;
    app.screen = Screen::AddForm;
    handle_key(&mut app, ch('x'), false);
    assert_eq!(app.form.alias, "x");
}
