//! The application state and its transitions. Each operation is specified by
//! a spec function from the state before to the state after, and by the
//! outside work (saving the server list, sending bytes to a session) that it
//! asks of the program that runs it.
use vstd::prelude::*;
use std::path::PathBuf;
use crate::form::{
    FormState, FormView, empty_form, form_of_server, form_port, lemma_edit_round_trip,
    server_of_form,
};
use crate::server::{Server, ServerView};
use crate::text::{is_trimmed, trim_spec};
use vstd::arithmetic::div_mod::{lemma_mod_self_0, lemma_small_mod};

verus! {

/// A filesystem path, carried through unchanged.
#[verifier::external_type_specification]
#[verifier::external_body]
pub struct ExPathBuf(PathBuf);

/// Which screen the app is on. A live SSH session owns the whole screen;
/// the pseudo-terminal behind it is held by the program that runs the app.
#[derive(Debug, Clone, Copy, PartialEq, Eq, Structural)]
pub enum Screen {
    Dashboard,
    AddForm,
    EditForm(usize),
    ConfirmDelete(usize),
    SshSession,
}

/// Outside work that a transition asks for.
#[derive(Debug)]
pub enum Effect {
    /// Nothing to do.
    Nothing,
    /// Write the server list to the configuration file; the outcome is not
    /// reported.
    SaveQuietly,
    /// Write the server list to the configuration file and report the
    /// outcome through [`App::save`].
    SaveAndReport,
    /// Write these bytes to the running SSH session.
    SendToSession(Vec<u8>),
}

/// The mathematical content of an [`Effect`].
pub enum EffectView {
    Nothing,
    SaveQuietly,
    SaveAndReport,
    SendToSession(Seq<u8>),
}

impl View for Effect {
    type V = EffectView;

    open spec fn view(&self) -> EffectView {
        match self {
            Effect::Nothing => EffectView::Nothing,
            Effect::SaveQuietly => EffectView::SaveQuietly,
            Effect::SaveAndReport => EffectView::SaveAndReport,
            Effect::SendToSession(b) => EffectView::SendToSession(b@),
        }
    }
}

/// The main application state.
pub struct App {
    pub servers: Vec<Server>,
    pub selected: usize,
    pub screen: Screen,
    pub form: FormState,
    pub config_path: PathBuf,
    pub should_quit: bool,
    pub status_msg: String,
    pub should_ssh: Option<usize>,
}

/// The mathematical content of an [`App`].
pub struct AppView {
    pub servers: Seq<ServerView>,
    pub selected: usize,
    pub screen: Screen,
    pub form: FormView,
    pub config_path: PathBuf,
    pub should_quit: bool,
    pub status: Seq<char>,
    pub should_ssh: Option<usize>,
}

impl View for App {
    type V = AppView;

    open spec fn view(&self) -> AppView {
        AppView {
            servers: self.servers.deep_view(),
            selected: self.selected,
            screen: self.screen,
            form: self.form@,
            config_path: self.config_path,
            should_quit: self.should_quit,
            status: self.status_msg@,
            should_ssh: self.should_ssh,
        }
    }
}

impl AppView {
    /// The selection points at a server, or is 0 when there is none, and a
    /// screen that refers to a server refers to one that exists.
    pub open spec fn wf(self) -> bool {
        &&& (self.servers.len() == 0 ==> self.selected == 0)
        &&& (self.servers.len() > 0 ==> self.selected < self.servers.len())
        &&& (self.screen matches Screen::EditForm(i) ==> i < self.servers.len())
        &&& (self.screen matches Screen::ConfirmDelete(i) ==> i < self.servers.len())
    }
}

/// The selection after moving down: the next server, wrapping to the first.
pub open spec fn select_down(sel: usize, len: nat) -> usize {
    if len == 0 {
        sel
    } else {
        ((sel + 1) % (len as int)) as usize
    }
}

/// The selection after moving up: the previous server, wrapping to the last.
pub open spec fn select_up(sel: usize, len: nat) -> usize {
    if len == 0 {
        sel
    } else if sel == 0 {
        (len - 1) as usize
    } else {
        (sel - 1) as usize
    }
}

/// A fresh app on the dashboard, with the given servers.
pub open spec fn initial_app(config_path: PathBuf, servers: Seq<ServerView>) -> AppView {
    AppView {
        servers,
        selected: 0,
        screen: Screen::Dashboard,
        form: empty_form(),
        config_path,
        should_quit: false,
        status: Seq::empty(),
        should_ssh: None,
    }
}

/// The status after saving: `Saved.` or the error.
pub open spec fn after_save(a: AppView, outcome: Result<(), Seq<char>>) -> AppView {
    match outcome {
        Ok(()) => AppView { status: "Saved."@, ..a },
        Err(e) => AppView { status: "Save error: "@ + e, ..a },
    }
}

/// The app after moving the selection down.
pub open spec fn after_move_down(a: AppView) -> AppView {
    AppView { selected: select_down(a.selected, a.servers.len()), ..a }
}

/// The app after moving the selection up.
pub open spec fn after_move_up(a: AppView) -> AppView {
    AppView { selected: select_up(a.selected, a.servers.len()), ..a }
}

/// The app with a blank form open for a new server.
pub open spec fn after_start_add(a: AppView) -> AppView {
    AppView { form: empty_form(), screen: Screen::AddForm, ..a }
}

/// The app with the form open on the selected server, if there is one.
pub open spec fn after_start_edit(a: AppView) -> AppView {
    if a.selected < a.servers.len() {
        AppView {
            form: form_of_server(a.servers[a.selected as int]),
            screen: Screen::EditForm(a.selected),
            ..a
        }
    } else {
        a
    }
}

/// The app asking to confirm the deletion of the selected server, if any.
pub open spec fn after_confirm_delete(a: AppView) -> AppView {
    if a.servers.len() > 0 {
        AppView { screen: Screen::ConfirmDelete(a.selected), ..a }
    } else {
        a
    }
}

/// The selection after the server list shrank to `len` entries.
pub open spec fn select_after_delete(sel: usize, len: nat) -> usize {
    if sel >= len && sel > 0 {
        (sel - 1) as usize
    } else {
        sel
    }
}

/// The app after deleting server `idx` (when it exists) and returning to
/// the list.
pub open spec fn after_delete(a: AppView, idx: usize) -> AppView {
    if idx < a.servers.len() {
        let rest = a.servers.remove(idx as int);
        AppView {
            servers: rest,
            selected: select_after_delete(a.selected, rest.len()),
            status: "Deleted '"@ + a.servers[idx as int].alias + "'"@,
            screen: Screen::Dashboard,
            ..a
        }
    } else {
        AppView { screen: Screen::Dashboard, ..a }
    }
}

/// The outside work a deletion asks for: saving, when a server was removed.
pub open spec fn delete_effect(a: AppView, idx: usize) -> EffectView {
    if idx < a.servers.len() {
        EffectView::SaveQuietly
    } else {
        EffectView::Nothing
    }
}

/// The app after submitting the form: the described server is added (on
/// the add form) or replaces the edited one, or the required fields are
/// reported when the alias or host is blank.
pub open spec fn after_submit(a: AppView) -> AppView {
    match server_of_form(a.form) {
        None => AppView { status: "Alias and Host are required."@, ..a },
        Some(s) => match a.screen {
            Screen::AddForm => AppView {
                servers: a.servers.push(s),
                status: "Added '"@ + s.alias + "'"@,
                screen: Screen::Dashboard,
                ..a
            },
            Screen::EditForm(i) => if i < a.servers.len() {
                AppView {
                    servers: a.servers.update(i as int, s),
                    status: "Updated '"@ + s.alias + "'"@,
                    screen: Screen::Dashboard,
                    ..a
                }
            } else {
                AppView { screen: Screen::Dashboard, ..a }
            },
            _ => AppView { screen: Screen::Dashboard, ..a },
        },
    }
}

/// The outside work a submission asks for: saving and reporting the
/// outcome, when the server list changed.
pub open spec fn submit_effect(a: AppView) -> EffectView {
    match server_of_form(a.form) {
        None => EffectView::Nothing,
        Some(s) => match a.screen {
            Screen::AddForm => EffectView::SaveAndReport,
            Screen::EditForm(i) => if i < a.servers.len() {
                EffectView::SaveAndReport
            } else {
                EffectView::Nothing
            },
            _ => EffectView::Nothing,
        },
    }
}

/// The app after leaving the form without saving.
pub open spec fn after_cancel(a: AppView) -> AppView {
    AppView { screen: Screen::Dashboard, status: Seq::empty(), ..a }
}

/// The app asking to connect to the selected server, if there is one.
pub open spec fn after_initiate_ssh(a: AppView) -> AppView {
    if a.servers.len() > 0 {
        AppView { should_ssh: Some(a.selected), ..a }
    } else {
        a
    }
}

impl App {
    /// A fresh app on the dashboard with the servers loaded from `config_path`.
    pub fn new(config_path: PathBuf, servers: Vec<Server>) -> (r: Self)
        ensures
            r@ == initial_app(config_path, servers.deep_view()),
            r@.wf(),
    {
        App {
            servers,
            selected: 0,
            screen: Screen::Dashboard,
            form: FormState::new_empty(),
            config_path,
            should_quit: false,
            status_msg: String::new(),
            should_ssh: None,
        }
    }

    /// Records the outcome of writing the server list to disk.
    pub fn save(&mut self, outcome: Result<(), String>)
        ensures
            final(self)@ == after_save(
                old(self)@,
                match outcome {
                    Ok(()) => Ok(()),
                    Err(e) => Err(e@),
                },
            ),
    {
        match outcome {
            Ok(()) => {
                self.status_msg = String::from_str("Saved.");
            },
            Err(e) => {
                let mut msg = String::from_str("Save error: ");
                msg.append(e.as_str());
                self.status_msg = msg;
            },
        }
    }

    /// Selects the next server, wrapping around at the end of the list.
    pub fn move_selection_down(&mut self)
        requires
            old(self).servers.len() > 0 ==> old(self).selected < usize::MAX,
        ensures
            final(self)@ == after_move_down(old(self)@),
            old(self)@.wf() ==> final(self)@.wf(),
    {
        if !self.servers.is_empty() {
            self.selected = (self.selected + 1) % self.servers.len();
        }
    }

    /// Selects the previous server, wrapping around at the start of the list.
    pub fn move_selection_up(&mut self)
        ensures
            final(self)@ == after_move_up(old(self)@),
            old(self)@.wf() ==> final(self)@.wf(),
    {
        if !self.servers.is_empty() {
            self.selected = if self.selected == 0 {
                self.servers.len() - 1
            } else {
                self.selected - 1
            };
        }
    }

    /// Opens a blank form for a new server.
    pub fn start_add(&mut self)
        ensures
            final(self)@ == after_start_add(old(self)@),
            old(self)@.wf() ==> final(self)@.wf(),
    {
        self.form = FormState::new_empty();
        self.screen = Screen::AddForm;
    }

    /// Opens the form on the selected server, if there is one.
    pub fn start_edit(&mut self)
        ensures
            final(self)@ == after_start_edit(old(self)@),
            old(self)@.wf() ==> final(self)@.wf(),
    {
        if self.selected < self.servers.len() {
            self.form = FormState::from_server(&self.servers[self.selected]);
            self.screen = Screen::EditForm(self.selected);
        }
    }

    /// Asks to confirm the deletion of the selected server.
    pub fn confirm_delete(&mut self)
        ensures
            final(self)@ == after_confirm_delete(old(self)@),
            old(self)@.wf() ==> final(self)@.wf(),
    {
        if !self.servers.is_empty() {
            self.screen = Screen::ConfirmDelete(self.selected);
        }
    }

    /// Deletes the server at `idx`, if it exists, and returns to the
    /// dashboard. The server list is then to be saved.
    pub fn do_delete(&mut self, idx: usize) -> (r: Effect)
        ensures
            final(self)@ == after_delete(old(self)@, idx),
            r@ == delete_effect(old(self)@, idx),
            old(self)@.wf() ==> final(self)@.wf(),
    {
        let mut r = Effect::Nothing;
        if idx < self.servers.len() {
            let alias = self.servers[idx].alias.clone();
            let ghost before = self.servers.deep_view();
            self.servers.remove(idx);
            assert(self.servers.deep_view() =~= before.remove(idx as int));
            r = Effect::SaveQuietly;
            if self.selected >= self.servers.len() && self.selected > 0 {
                self.selected = self.selected - 1;
            }
            let mut msg = String::from_str("Deleted '");
            msg.append(alias.as_str());
            msg.append("'");
            self.status_msg = msg;
        }
        self.screen = Screen::Dashboard;
        r
    }

    /// Adds or updates the server that the form describes and returns to the
    /// dashboard; with a blank alias or host, reports that they are required.
    pub fn submit_form(&mut self) -> (r: Effect)
        ensures
            final(self)@ == after_submit(old(self)@),
            r@ == submit_effect(old(self)@),
            old(self)@.wf() ==> final(self)@.wf(),
    {
        let mut r = Effect::Nothing;
        match self.form.to_server() {
            Some(server) => {
                match self.screen {
                    Screen::AddForm => {
                        let mut msg = String::from_str("Added '");
                        msg.append(server.alias.as_str());
                        msg.append("'");
                        self.status_msg = msg;
                        let ghost before = self.servers.deep_view();
                        let ghost sv = server@;
                        self.servers.push(server);
                        assert(self.servers.deep_view() =~= before.push(sv));
                        r = Effect::SaveAndReport;
                    },
                    Screen::EditForm(idx) => {
                        if idx < self.servers.len() {
                            let mut msg = String::from_str("Updated '");
                            msg.append(server.alias.as_str());
                            msg.append("'");
                            self.status_msg = msg;
                            let ghost before = self.servers.deep_view();
                            let ghost sv = server@;
                            self.servers.set(idx, server);
                            assert(self.servers.deep_view() =~= before.update(idx as int, sv));
                            r = Effect::SaveAndReport;
                        }
                    },
                    _ => {},
                }
                self.screen = Screen::Dashboard;
            },
            None => {
                self.status_msg = String::from_str("Alias and Host are required.");
            },
        }
        r
    }

    /// Leaves the form without saving and clears the status line.
    pub fn cancel_form(&mut self)
        ensures
            final(self)@ == after_cancel(old(self)@),
            old(self)@.wf() ==> final(self)@.wf(),
    {
        self.screen = Screen::Dashboard;
        self.status_msg = String::new();
    }

    /// Asks to connect to the selected server, if there is one.
    pub fn initiate_ssh(&mut self)
        ensures
            final(self)@ == after_initiate_ssh(old(self)@),
            old(self)@.wf() ==> final(self)@.wf(),
    {
        if !self.servers.is_empty() {
            self.should_ssh = Some(self.selected);
        }
    }
}

/// Moving the selection down and then up (or up and then down) returns to
/// the server that was selected.
pub proof fn lemma_move_down_up(sel: usize, len: nat)
    requires
        sel < len,
        len <= usize::MAX,
    ensures
        select_up(select_down(sel, len), len) == sel,
        select_down(select_up(sel, len), len) == sel,
{
    if sel + 1 < len {
        lemma_small_mod((sel + 1) as nat, len);
    } else {
        lemma_mod_self_0(len as int);
    }
    if sel > 0 {
        lemma_small_mod(sel as nat, len);
    } else {
        lemma_mod_self_0(len as int);
    }
}

/// The selection after moving up `n` times.
pub open spec fn moved_up(sel: usize, len: nat, n: nat) -> usize
    decreases n,
{
    if n == 0 {
        sel
    } else {
        select_up(moved_up(sel, len, (n - 1) as nat), len)
    }
}

/// The selection after moving down `n` times.
pub open spec fn moved_down(sel: usize, len: nat, n: nat) -> usize
    decreases n,
{
    if n == 0 {
        sel
    } else {
        select_down(moved_down(sel, len, (n - 1) as nat), len)
    }
}

proof fn lemma_moved_up_value(sel: usize, len: nat, n: nat)
    requires
        sel < len,
        len <= usize::MAX,
        n <= len,
    ensures
        moved_up(sel, len, n) == (if n <= sel {
            sel - n
        } else {
            len + sel - n
        }),
    decreases n,
{
    if n > 0 {
        lemma_moved_up_value(sel, len, (n - 1) as nat);
    }
}

proof fn lemma_moved_down_value(sel: usize, len: nat, n: nat)
    requires
        sel < len,
        len <= usize::MAX,
        n <= len,
    ensures
        moved_down(sel, len, n) == (if sel + n < len {
            sel + n
        } else {
            sel + n - len
        }),
    decreases n,
{
    if n > 0 {
        lemma_moved_down_value(sel, len, (n - 1) as nat);
        let prev = moved_down(sel, len, (n - 1) as nat);
        if prev + 1 < len {
            lemma_small_mod((prev + 1) as nat, len);
        } else {
            lemma_mod_self_0(len as int);
        }
    }
}

/// Moving the selection up, or down, as many times as there are servers
/// comes back to the server that was selected.
pub proof fn lemma_full_cycle(sel: usize, len: nat)
    requires
        sel < len,
        len <= usize::MAX,
    ensures
        moved_up(sel, len, len) == sel,
        moved_down(sel, len, len) == sel,
{
    lemma_moved_up_value(sel, len, len);
    lemma_moved_down_value(sel, len, len);
}

/// Deleting removes exactly the chosen server and keeps the others in order.
pub proof fn lemma_delete_removes(a: AppView, idx: usize)
    requires
        idx < a.servers.len(),
    ensures
        after_delete(a, idx).servers.len() == a.servers.len() - 1,
        forall|i: int|
            0 <= i < idx ==> #[trigger] after_delete(a, idx).servers[i] == a.servers[i],
        forall|i: int|
            idx <= i < a.servers.len() - 1 ==> #[trigger] after_delete(a, idx).servers[i]
                == a.servers[i + 1],
{
}

/// Submitting the edit form of an existing server `i` replaces that server,
/// and only it, by the one the form describes: each text field is the form's
/// text trimmed (the user name included) and the port is the form's port
/// parsed (22 when it does not parse). The list is then to be saved.
pub proof fn lemma_edit_replaces(a: AppView, i: usize)
    requires
        a.screen == Screen::EditForm(i),
        i < a.servers.len(),
        trim_spec(a.form.alias).len() > 0,
        trim_spec(a.form.host).len() > 0,
    ensures
        after_submit(a).servers.len() == a.servers.len(),
        after_submit(a).servers[i as int].alias == trim_spec(a.form.alias),
        after_submit(a).servers[i as int].host == trim_spec(a.form.host),
        after_submit(a).servers[i as int].username == trim_spec(a.form.username),
        after_submit(a).servers[i as int].port == form_port(a.form.port),
        after_submit(a).servers[i as int].tags == trim_spec(a.form.tags),
        forall|j: int|
            0 <= j < a.servers.len() && j != i ==> #[trigger] after_submit(a).servers[j]
                == a.servers[j],
        after_submit(a).screen == Screen::Dashboard,
        submit_effect(a) == EffectView::SaveAndReport,
{
}

/// Submitting the add form appends the server the form describes: each text
/// field is the form's text trimmed and the port is the form's port parsed
/// (22 when it does not parse); the servers before it are kept, and the list
/// is then to be saved.
pub proof fn lemma_add_fields(a: AppView)
    requires
        a.screen == Screen::AddForm,
        trim_spec(a.form.alias).len() > 0,
        trim_spec(a.form.host).len() > 0,
    ensures
        after_submit(a).servers.len() == a.servers.len() + 1,
        after_submit(a).servers.last().alias == trim_spec(a.form.alias),
        after_submit(a).servers.last().host == trim_spec(a.form.host),
        after_submit(a).servers.last().username == trim_spec(a.form.username),
        after_submit(a).servers.last().port == form_port(a.form.port),
        after_submit(a).servers.last().tags == trim_spec(a.form.tags),
        forall|j: int|
            0 <= j < a.servers.len() ==> #[trigger] after_submit(a).servers[j] == a.servers[j],
        submit_effect(a) == EffectView::SaveAndReport,
{
}

/// A server added through the form is appended at the end of the list, and
/// the servers before it are kept.
pub proof fn lemma_add_appends(a: AppView)
    requires
        a.screen == Screen::AddForm,
        server_of_form(a.form) is Some,
    ensures
        after_submit(a).servers == a.servers.push(server_of_form(a.form)->0),
        after_submit(a).servers.last() == server_of_form(a.form)->0,
        submit_effect(a) == EffectView::SaveAndReport,
{
}

/// Opening a server for editing and submitting the form unchanged leaves the
/// server list as it was (for servers whose fields have no surrounding
/// whitespace and whose alias and host are not empty, which holds of every
/// server added or edited through the form).
pub proof fn lemma_edit_unchanged(a: AppView)
    requires
        a.selected < a.servers.len(),
        is_trimmed(a.servers[a.selected as int].alias),
        is_trimmed(a.servers[a.selected as int].host),
        is_trimmed(a.servers[a.selected as int].username),
        is_trimmed(a.servers[a.selected as int].tags),
        a.servers[a.selected as int].alias.len() > 0,
        a.servers[a.selected as int].host.len() > 0,
    ensures
        after_submit(after_start_edit(a)).servers == a.servers,
        after_submit(after_start_edit(a)).screen == Screen::Dashboard,
{
    lemma_edit_round_trip(a.servers[a.selected as int]);
    assert(a.servers.update(a.selected as int, a.servers[a.selected as int]) =~= a.servers);
}

/// Cancelling a form leaves the server list as it was.
pub proof fn lemma_cancel_keeps_servers(a: AppView)
    ensures
        after_cancel(a).servers == a.servers,
        after_cancel(after_start_add(a)).servers == a.servers,
        after_cancel(after_start_edit(a)).servers == a.servers,
{
}

} // verus!
