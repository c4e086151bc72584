//! Key handling: what each key does on each screen, and the bytes a key
//! sends to a terminal when an SSH session has the screen.
use vstd::prelude::*;
use vstd::utf8::{decode_utf8, encode_scalar, encode_utf8, encode_utf8_decode_utf8};
use crate::app::{
    App, AppView, Effect, EffectView, Screen, after_cancel, after_confirm_delete, after_delete,
    after_initiate_ssh, after_move_down, after_move_up, after_start_add, after_start_edit,
    after_submit, delete_effect, submit_effect,
};
use crate::form::{FormField, FormView, lemma_next_prev_inverse, next_field, prev_field};
use crate::text::{string_pop, string_push};

verus! {

/// The key of a key press.
#[derive(Debug, Clone, Copy, PartialEq, Eq, Structural)]
pub enum KeyCode {
    Char(char),
    Enter,
    Backspace,
    Delete,
    Tab,
    BackTab,
    Esc,
    Up,
    Down,
    Right,
    Left,
    Home,
    End,
    PageUp,
    PageDown,
    /// A function key, F1 being `F(1)`.
    F(u8),
    /// Any other key (Insert, media keys, lone modifiers, ...).
    Other,
}

/// The modifier keys held during a key press.
#[derive(Debug, Clone, Copy, PartialEq, Eq, Structural)]
pub struct KeyModifiers {
    pub shift: bool,
    pub control: bool,
    pub alt: bool,
}

/// A key press.
#[derive(Debug, Clone, Copy, PartialEq, Eq, Structural)]
pub struct KeyEvent {
    pub code: KeyCode,
    pub modifiers: KeyModifiers,
}

/// Whether `v` is an ASCII letter.
pub open spec fn is_ascii_letter(v: u32) -> bool {
    (65 <= v <= 90) || (97 <= v <= 122)
}

/// The ASCII lower-case form of `v`.
pub open spec fn ascii_lower(v: u32) -> u32 {
    if 65 <= v <= 90 {
        (v + 32) as u32
    } else {
        v
    }
}

/// The byte a character gives with Ctrl held: a letter gives its control
/// code 1 to 26; `[`, `\`, `]`, `^` and `_` give 27 to 31; any other
/// character gives the low byte of its code point.
pub open spec fn ctrl_byte(c: char) -> u8 {
    let v = c as u32;
    if is_ascii_letter(v) {
        (ascii_lower(v) - 96) as u8
    } else if v == 91 {
        27
    } else if v == 92 {
        28
    } else if v == 93 {
        29
    } else if v == 94 {
        30
    } else if v == 95 {
        31
    } else {
        (v % 256) as u8
    }
}

/// The escape sequence of a function key, empty for keys beyond F12.
pub open spec fn function_key_bytes(n: u8) -> Seq<u8> {
    if n == 1 {
        seq![27u8, 79, 80]
    } else if n == 2 {
        seq![27u8, 79, 81]
    } else if n == 3 {
        seq![27u8, 79, 82]
    } else if n == 4 {
        seq![27u8, 79, 83]
    } else if n == 5 {
        seq![27u8, 91, 49, 53, 126]
    } else if n == 6 {
        seq![27u8, 91, 49, 55, 126]
    } else if n == 7 {
        seq![27u8, 91, 49, 56, 126]
    } else if n == 8 {
        seq![27u8, 91, 49, 57, 126]
    } else if n == 9 {
        seq![27u8, 91, 50, 48, 126]
    } else if n == 10 {
        seq![27u8, 91, 50, 49, 126]
    } else if n == 11 {
        seq![27u8, 91, 50, 51, 126]
    } else if n == 12 {
        seq![27u8, 91, 50, 52, 126]
    } else {
        seq![]
    }
}

/// The bytes a terminal expects for a key press.
pub open spec fn key_bytes(key: KeyEvent) -> Seq<u8> {
    match key.code {
        KeyCode::Char(c) => if key.modifiers.control {
            seq![ctrl_byte(c)]
        } else if key.modifiers.alt {
            seq![27u8] + encode_scalar(c as u32)
        } else {
            encode_scalar(c as u32)
        },
        KeyCode::Enter => seq![13u8],
        KeyCode::Backspace => seq![127u8],
        KeyCode::Delete => seq![27u8, 91, 51, 126],
        KeyCode::Tab => seq![9u8],
        KeyCode::BackTab => seq![27u8, 91, 90],
        KeyCode::Esc => seq![27u8],
        KeyCode::Up => seq![27u8, 91, 65],
        KeyCode::Down => seq![27u8, 91, 66],
        KeyCode::Right => seq![27u8, 91, 67],
        KeyCode::Left => seq![27u8, 91, 68],
        KeyCode::Home => seq![27u8, 91, 72],
        KeyCode::End => seq![27u8, 91, 70],
        KeyCode::PageUp => seq![27u8, 91, 53, 126],
        KeyCode::PageDown => seq![27u8, 91, 54, 126],
        KeyCode::F(n) => function_key_bytes(n),
        KeyCode::Other => seq![],
    }
}

/// The UTF-8 encoding of a character.
pub fn utf8_encode(c: char) -> (r: Vec<u8>)
    ensures
        r@ == encode_scalar(c as u32),
{
    let v = c as u32;
    if v <= 0x7F {
        vec![(v & 0x7F) as u8]
    } else if v <= 0x7FF {
        vec![0xC0u8 | ((v >> 6) & 0x1F) as u8, 0x80u8 | (v & 0x3F) as u8]
    } else if v <= 0xFFFF {
        vec![
            0xE0u8 | ((v >> 12) & 0x0F) as u8,
            0x80u8 | ((v >> 6) & 0x3F) as u8,
            0x80u8 | (v & 0x3F) as u8,
        ]
    } else {
        vec![
            0xF0u8 | ((v >> 18) & 0x7) as u8,
            0x80u8 | ((v >> 12) & 0x3F) as u8,
            0x80u8 | ((v >> 6) & 0x3F) as u8,
            0x80u8 | (v & 0x3F) as u8,
        ]
    }
}

/// The byte a character gives with Ctrl held.
fn ctrl_char_byte(c: char) -> (r: u8)
    ensures
        r == ctrl_byte(c),
{
    let v = c as u32;
    if (65 <= v && v <= 90) || (97 <= v && v <= 122) {
        let lower = if v <= 90 {
            v + 32
        } else {
            v
        };
        (lower - 96) as u8
    } else if v == 91 {
        27
    } else if v == 92 {
        28
    } else if v == 93 {
        29
    } else if v == 94 {
        30
    } else if v == 95 {
        31
    } else {
        (v % 256) as u8
    }
}

/// The escape sequence of function key `n`.
fn function_key_sequence(n: u8) -> (r: Vec<u8>)
    ensures
        r@ == function_key_bytes(n),
{
    let r = match n {
        1 => vec![27u8, 79, 80],
        2 => vec![27u8, 79, 81],
        3 => vec![27u8, 79, 82],
        4 => vec![27u8, 79, 83],
        5 => vec![27u8, 91, 49, 53, 126],
        6 => vec![27u8, 91, 49, 55, 126],
        7 => vec![27u8, 91, 49, 56, 126],
        8 => vec![27u8, 91, 49, 57, 126],
        9 => vec![27u8, 91, 50, 48, 126],
        10 => vec![27u8, 91, 50, 49, 126],
        11 => vec![27u8, 91, 50, 51, 126],
        12 => vec![27u8, 91, 50, 52, 126],
        _ => vec![],
    };
    assert(r@ =~= function_key_bytes(n));
    r
}

/// The byte sequence a terminal expects for a key press.
pub fn key_to_bytes(key: KeyEvent) -> (r: Vec<u8>)
    ensures
        r@ == key_bytes(key),
{
    let r = match key.code {
        KeyCode::Char(c) => {
            if key.modifiers.control {
                vec![ctrl_char_byte(c)]
            } else if key.modifiers.alt {
                let mut out = vec![27u8];
                let mut enc = utf8_encode(c);
                out.append(&mut enc);
                out
            } else {
                utf8_encode(c)
            }
        },
        KeyCode::Enter => vec![13u8],
        KeyCode::Backspace => vec![127u8],
        KeyCode::Delete => vec![27u8, 91, 51, 126],
        KeyCode::Tab => vec![9u8],
        KeyCode::BackTab => vec![27u8, 91, 90],
        KeyCode::Esc => vec![27u8],
        KeyCode::Up => vec![27u8, 91, 65],
        KeyCode::Down => vec![27u8, 91, 66],
        KeyCode::Right => vec![27u8, 91, 67],
        KeyCode::Left => vec![27u8, 91, 68],
        KeyCode::Home => vec![27u8, 91, 72],
        KeyCode::End => vec![27u8, 91, 70],
        KeyCode::PageUp => vec![27u8, 91, 53, 126],
        KeyCode::PageDown => vec![27u8, 91, 54, 126],
        KeyCode::F(n) => function_key_sequence(n),
        KeyCode::Other => vec![],
    };
    assert(r@ =~= key_bytes(key));
    r
}

/// The app with field `f` of the form focused.
pub open spec fn with_focus(a: AppView, f: FormField) -> AppView {
    AppView { form: FormView { focused: f, ..a.form }, ..a }
}

/// The app after typing `c` into the focused field.
pub open spec fn after_type(a: AppView, c: char) -> AppView {
    let f = a.form.focused;
    AppView { form: a.form.with_field(f, a.form.field(f).push(c)), ..a }
}

/// The app after deleting the last character of the focused field.
pub open spec fn after_backspace(a: AppView) -> AppView {
    let f = a.form.focused;
    let t = a.form.field(f);
    AppView { form: a.form.with_field(f, if t.len() > 0 { t.drop_last() } else { t }), ..a }
}

/// A key on the server list: `q` quits, `j`/Down and `k`/Up move the
/// selection, `a` adds, `e` edits, `d` deletes and Enter connects.
pub open spec fn after_dashboard_key(a: AppView, key: KeyEvent) -> AppView {
    match key.code {
        KeyCode::Char(c) => if c == 'q' {
            AppView { should_quit: true, ..a }
        } else if c == 'j' {
            after_move_down(a)
        } else if c == 'k' {
            after_move_up(a)
        } else if c == 'a' {
            after_start_add(a)
        } else if c == 'e' {
            after_start_edit(a)
        } else if c == 'd' {
            after_confirm_delete(a)
        } else {
            a
        },
        KeyCode::Down => after_move_down(a),
        KeyCode::Up => after_move_up(a),
        KeyCode::Enter => after_initiate_ssh(a),
        _ => a,
    }
}

/// A key in the form: Esc cancels, Enter submits, Tab and Shift+Tab (or
/// BackTab) move the focus, Backspace deletes and characters are typed.
pub open spec fn after_form_key(a: AppView, key: KeyEvent) -> AppView {
    match key.code {
        KeyCode::Esc => after_cancel(a),
        KeyCode::Enter => after_submit(a),
        KeyCode::Tab => if key.modifiers.shift {
            with_focus(a, prev_field(a.form.focused))
        } else {
            with_focus(a, next_field(a.form.focused))
        },
        KeyCode::BackTab => with_focus(a, prev_field(a.form.focused)),
        KeyCode::Backspace => after_backspace(a),
        KeyCode::Char(c) => after_type(a, c),
        _ => a,
    }
}

/// A key while confirming the deletion of server `idx`: `y` or `Y`
/// deletes, `n`, `N` or Esc go back to the list.
pub open spec fn after_confirm_key(a: AppView, key: KeyEvent, idx: usize) -> AppView {
    match key.code {
        KeyCode::Char(c) => if c == 'y' || c == 'Y' {
            after_delete(a, idx)
        } else if c == 'n' || c == 'N' {
            AppView { screen: Screen::Dashboard, ..a }
        } else {
            a
        },
        KeyCode::Esc => AppView { screen: Screen::Dashboard, ..a },
        _ => a,
    }
}

/// A key during an SSH session: once the session has ended, any key goes
/// back to the list.
pub open spec fn after_session_key(a: AppView, exited: bool) -> AppView {
    if exited {
        AppView { screen: Screen::Dashboard, status: "SSH session ended."@, ..a }
    } else {
        a
    }
}

/// The app after a key press.
pub open spec fn after_key(a: AppView, key: KeyEvent, exited: bool) -> AppView {
    match a.screen {
        Screen::Dashboard => after_dashboard_key(a, key),
        Screen::AddForm => after_form_key(a, key),
        Screen::EditForm(_) => after_form_key(a, key),
        Screen::ConfirmDelete(idx) => after_confirm_key(a, key, idx),
        Screen::SshSession => after_session_key(a, exited),
    }
}

/// The outside work a key press asks for.
pub open spec fn key_effect(a: AppView, key: KeyEvent, exited: bool) -> EffectView {
    match a.screen {
        Screen::Dashboard => EffectView::Nothing,
        Screen::AddForm | Screen::EditForm(_) => if key.code == KeyCode::Enter {
            submit_effect(a)
        } else {
            EffectView::Nothing
        },
        Screen::ConfirmDelete(idx) => if key.code == KeyCode::Char('y') || key.code
            == KeyCode::Char('Y') {
            delete_effect(a, idx)
        } else {
            EffectView::Nothing
        },
        Screen::SshSession => if !exited && key_bytes(key).len() > 0 {
            EffectView::SendToSession(key_bytes(key))
        } else {
            EffectView::Nothing
        },
    }
}

/// Handles a key press on the server list.
fn handle_dashboard(app: &mut App, key: KeyEvent)
    requires
        (key.code == KeyCode::Char('j') || key.code == KeyCode::Down) && old(app).servers.len() > 0
            ==> old(app).selected < usize::MAX,
    ensures
        final(app)@ == after_dashboard_key(old(app)@, key),
{
    match key.code {
        KeyCode::Char('q') => app.should_quit = true,
        KeyCode::Char('j') | KeyCode::Down => app.move_selection_down(),
        KeyCode::Char('k') | KeyCode::Up => app.move_selection_up(),
        KeyCode::Char('a') => app.start_add(),
        KeyCode::Char('e') => app.start_edit(),
        KeyCode::Char('d') => app.confirm_delete(),
        KeyCode::Enter => app.initiate_ssh(),
        _ => {},
    }
}

/// Handles a key press in the add/edit form.
fn handle_form(app: &mut App, key: KeyEvent) -> (r: Effect)
    ensures
        final(app)@ == after_form_key(old(app)@, key),
        r@ == (if key.code == KeyCode::Enter {
            submit_effect(old(app)@)
        } else {
            EffectView::Nothing
        }),
{
    match key.code {
        KeyCode::Esc => {
            app.cancel_form();
            Effect::Nothing
        },
        KeyCode::Enter => app.submit_form(),
        KeyCode::Tab => {
            if key.modifiers.shift {
                app.form.focused = app.form.focused.prev();
            } else {
                app.form.focused = app.form.focused.next();
            }
            Effect::Nothing
        },
        KeyCode::BackTab => {
            app.form.focused = app.form.focused.prev();
            Effect::Nothing
        },
        KeyCode::Backspace => {
            let focused = app.form.focused;
            let field = app.form.get_field_mut(focused);
            string_pop(field);
            Effect::Nothing
        },
        KeyCode::Char(c) => {
            let focused = app.form.focused;
            let field = app.form.get_field_mut(focused);
            string_push(field, c);
            Effect::Nothing
        },
        _ => Effect::Nothing,
    }
}

/// Handles a key press while confirming the deletion of server `idx`.
fn handle_confirm_delete(app: &mut App, key: KeyEvent, idx: usize) -> (r: Effect)
    ensures
        final(app)@ == after_confirm_key(old(app)@, key, idx),
        r@ == (if key.code == KeyCode::Char('y') || key.code == KeyCode::Char('Y') {
            delete_effect(old(app)@, idx)
        } else {
            EffectView::Nothing
        }),
{
    match key.code {
        KeyCode::Char('y') | KeyCode::Char('Y') => app.do_delete(idx),
        KeyCode::Char('n') | KeyCode::Char('N') | KeyCode::Esc => {
            app.screen = Screen::Dashboard;
            Effect::Nothing
        },
        _ => Effect::Nothing,
    }
}

/// Handles a key press while an SSH session has the screen: the key goes to
/// the session as terminal bytes, or, once the session has ended, back to
/// the server list.
fn handle_ssh_session(app: &mut App, key: KeyEvent, session_exited: bool) -> (r: Effect)
    ensures
        final(app)@ == after_session_key(old(app)@, session_exited),
        r@ == (if !session_exited && key_bytes(key).len() > 0 {
            EffectView::SendToSession(key_bytes(key))
        } else {
            EffectView::Nothing
        }),
{
    if session_exited {
        app.screen = Screen::Dashboard;
        app.status_msg = String::from_str("SSH session ended.");
        return Effect::Nothing;
    }
    let bytes = key_to_bytes(key);
    if bytes.len() > 0 {
        Effect::SendToSession(bytes)
    } else {
        Effect::Nothing
    }
}

/// Handles one key press. `session_exited` tells whether the SSH session
/// (when one has the screen) has ended.
pub fn handle_key(app: &mut App, key: KeyEvent, session_exited: bool) -> (r: Effect)
    requires
        old(app).screen == Screen::Dashboard && (key.code == KeyCode::Char('j') || key.code
            == KeyCode::Down) && old(app).servers.len() > 0 ==> old(app).selected < usize::MAX,
    ensures
        final(app)@ == after_key(old(app)@, key, session_exited),
        r@ == key_effect(old(app)@, key, session_exited),
{
    match app.screen {
        Screen::Dashboard => {
            handle_dashboard(app, key);
            Effect::Nothing
        },
        Screen::AddForm | Screen::EditForm(_) => handle_form(app, key),
        Screen::ConfirmDelete(idx) => handle_confirm_delete(app, key, idx),
        Screen::SshSession => handle_ssh_session(app, key, session_exited),
    }
}

/// Typing a character and then pressing Backspace leaves the form as it was.
pub proof fn lemma_type_then_backspace(a: AppView, c: char)
    ensures
        after_backspace(after_type(a, c)) == a,
{
    let f = a.form.focused;
    let t = a.form.field(f);
    assert(t.push(c).drop_last() =~= t);
    assert(a.form.with_field(f, t) == a.form);
}

/// Tab and then Shift+Tab (or BackTab) return the focus to the field it was
/// on, and the other way round.
pub proof fn lemma_tab_back_tab(a: AppView)
    ensures
        with_focus(with_focus(a, next_field(a.form.focused)), prev_field(next_field(a.form.focused)))
            == a,
        with_focus(with_focus(a, prev_field(a.form.focused)), next_field(prev_field(a.form.focused)))
            == a,
{
    lemma_next_prev_inverse(a.form.focused);
}

/// With Ctrl held, the `k`-th letter of the alphabet gives the control code
/// `k + 1` whether it is typed in lower or upper case.
pub proof fn lemma_ctrl_letters(k: u32)
    requires
        k < 26,
    ensures
        ctrl_byte((97 + k) as char) == k + 1,
        ctrl_byte((65 + k) as char) == k + 1,
{
    assert(((97 + k) as char) as u32 == 97 + k);
    assert(((65 + k) as char) as u32 == 65 + k);
}

/// The screens a key can lead to: from the list to itself, the add form, or
/// the form or delete confirmation of the selected server; from a form or a
/// confirmation to itself or the list; from a session to itself or the
/// list. No key starts a session. The server list changes only on Enter in
/// a form or on `y`/`Y` in a confirmation.
pub proof fn lemma_key_screen_transitions(a: AppView, key: KeyEvent, exited: bool)
    ensures
        ({
            let r = after_key(a, key, exited);
            &&& a.screen == Screen::Dashboard ==> r.screen == Screen::Dashboard || r.screen
                == Screen::AddForm || r.screen == Screen::EditForm(a.selected) || r.screen
                == Screen::ConfirmDelete(a.selected)
            &&& a.screen == Screen::AddForm ==> r.screen == Screen::AddForm || r.screen
                == Screen::Dashboard
            &&& a.screen matches Screen::EditForm(i) ==> r.screen == Screen::EditForm(i)
                || r.screen == Screen::Dashboard
            &&& a.screen matches Screen::ConfirmDelete(i) ==> r.screen == Screen::ConfirmDelete(i)
                || r.screen == Screen::Dashboard
            &&& a.screen == Screen::SshSession ==> r.screen == Screen::SshSession || r.screen
                == Screen::Dashboard
            &&& a.screen != Screen::SshSession ==> r.screen != Screen::SshSession
            &&& r.servers != a.servers ==> ((a.screen == Screen::AddForm || a.screen
                is EditForm) && key.code == KeyCode::Enter) || (a.screen is ConfirmDelete && (
            key.code == KeyCode::Char('y') || key.code == KeyCode::Char('Y')))
        }),
{
}

/// Every key press that changes the server list asks for the list to be
/// saved; in particular `y` and `Y` on the confirmation of an existing
/// server delete it and ask for a save.
pub proof fn lemma_list_changes_are_saved(a: AppView, key: KeyEvent, exited: bool)
    ensures
        after_key(a, key, exited).servers != a.servers ==> key_effect(a, key, exited)
            == EffectView::SaveQuietly || key_effect(a, key, exited) == EffectView::SaveAndReport,
        (a.screen matches Screen::ConfirmDelete(i) && i < a.servers.len() && (key.code
            == KeyCode::Char('y') || key.code == KeyCode::Char('Y'))) ==> after_key(
            a,
            key,
            exited,
        ).servers == a.servers.remove(a.screen->ConfirmDelete_0 as int) && key_effect(
            a,
            key,
            exited,
        ) == EffectView::SaveQuietly,
{
}

/// While a running session has the screen, every key is sent to it as the
/// bytes a terminal expects, whatever kind of key it is; and every key but
/// an unknown one or a function key beyond F12 has such bytes.
pub proof fn lemma_session_forwards_keys(a: AppView, key: KeyEvent, exited: bool)
    ensures
        a.screen == Screen::SshSession && !exited && key_bytes(key).len() > 0 ==> key_effect(
            a,
            key,
            exited,
        ) == EffectView::SendToSession(key_bytes(key)),
        key.code != KeyCode::Other && !(key.code matches KeyCode::F(n) && (n == 0 || n > 12))
            ==> key_bytes(key).len() > 0,
        a.screen == Screen::SshSession && !exited ==> after_key(a, key, exited) == a,
{
    match key.code {
        KeyCode::Char(c) => {
            assert(encode_scalar(c as u32).len() > 0);
        },
        _ => {},
    }
}

/// How modifiers change what a key sends: a character typed without Ctrl
/// or Alt is sent as its UTF-8 encoding, which decodes back to it; Alt
/// sends exactly one escape byte before what the character alone sends;
/// Shift never changes the bytes (the character already carries the case);
/// and no modifier changes the bytes of a key that is not a character.
pub proof fn lemma_key_bytes_modifiers(key: KeyEvent)
    ensures
        key.code matches KeyCode::Char(c) ==> {
            let plain = KeyEvent { code: key.code, modifiers: KeyModifiers { shift: false, control: false, alt: false } };
            let alt = KeyEvent { code: key.code, modifiers: KeyModifiers { shift: false, control: false, alt: true } };
            &&& decode_utf8(key_bytes(plain)) == seq![c]
            &&& key_bytes(alt) == seq![27u8] + key_bytes(plain)
        },
        key_bytes(KeyEvent { code: key.code, modifiers: KeyModifiers { shift: !key.modifiers.shift, ..key.modifiers } })
            == key_bytes(key),
        !(key.code is Char) ==> key_bytes(key) == key_bytes(
            KeyEvent { code: key.code, modifiers: KeyModifiers { shift: false, control: false, alt: false } },
        ),
{
    match key.code {
        KeyCode::Char(c) => {
            let s = seq![c];
            encode_utf8_decode_utf8(s);
            assert(s.drop_first() =~= Seq::<char>::empty());
            assert(encode_utf8(s) =~= encode_scalar(c as u32) + encode_utf8(s.drop_first()));
            assert(encode_utf8(Seq::<char>::empty()) =~= Seq::<u8>::empty());
            assert(encode_utf8(s) =~= encode_scalar(c as u32));
        },
        _ => {},
    }
}

/// Every key press keeps the app well formed: the selection points at a
/// server (or is 0 when there is none) and the form or confirmation on
/// screen refers to an existing server.
pub proof fn lemma_key_keeps_wf(a: AppView, key: KeyEvent, exited: bool)
    requires
        a.wf(),
    ensures
        after_key(a, key, exited).wf(),
{
    if a.servers.len() > 0 {
        assert(a.selected < a.servers.len());
    }
}

} // verus!
