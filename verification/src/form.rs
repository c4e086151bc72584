//! The add/edit form: its fields, focus order and conversion to a server.
use vstd::prelude::*;
use crate::server::{Server, ServerView};
use crate::text::{
    decimal, decimal_spec, is_trimmed, lemma_decimal_trimmed, lemma_parse_decimal,
    lemma_trim_is_trimmed, lemma_trim_of_trimmed, parse_u16, parse_u16_spec, trim, trim_spec,
};

verus! {

/// Which field of the form has the focus.
#[derive(Debug, Clone, Copy, PartialEq, Eq, Structural)]
pub enum FormField {
    Alias,
    Host,
    Username,
    Port,
    Tags,
}

/// The field after `f` in the focus cycle Alias, Host, Username, Port, Tags.
pub open spec fn next_field(f: FormField) -> FormField {
    match f {
        FormField::Alias => FormField::Host,
        FormField::Host => FormField::Username,
        FormField::Username => FormField::Port,
        FormField::Port => FormField::Tags,
        FormField::Tags => FormField::Alias,
    }
}

/// The field before `f` in the focus cycle.
pub open spec fn prev_field(f: FormField) -> FormField {
    match f {
        FormField::Alias => FormField::Tags,
        FormField::Host => FormField::Alias,
        FormField::Username => FormField::Host,
        FormField::Port => FormField::Username,
        FormField::Tags => FormField::Port,
    }
}

/// The label shown above a field.
pub open spec fn field_label(f: FormField) -> Seq<char> {
    match f {
        FormField::Alias => "Alias"@,
        FormField::Host => "Host / IP"@,
        FormField::Username => "Username"@,
        FormField::Port => "Port"@,
        FormField::Tags => "Tags / Notes"@,
    }
}

impl FormField {
    /// The next field in the focus cycle (Tab).
    pub fn next(self) -> (r: Self)
        ensures
            r == next_field(self),
    {
        match self {
            Self::Alias => Self::Host,
            Self::Host => Self::Username,
            Self::Username => Self::Port,
            Self::Port => Self::Tags,
            Self::Tags => Self::Alias,
        }
    }

    /// The previous field in the focus cycle (Shift+Tab).
    pub fn prev(self) -> (r: Self)
        ensures
            r == prev_field(self),
    {
        match self {
            Self::Alias => Self::Tags,
            Self::Host => Self::Alias,
            Self::Username => Self::Host,
            Self::Port => Self::Username,
            Self::Tags => Self::Port,
        }
    }

    /// The label of the field.
    pub fn label(self) -> (r: &'static str)
        ensures
            r@ == field_label(self),
    {
        match self {
            Self::Alias => "Alias",
            Self::Host => "Host / IP",
            Self::Username => "Username",
            Self::Port => "Port",
            Self::Tags => "Tags / Notes",
        }
    }
}

impl Default for FormField {
    fn default() -> (r: Self)
        ensures
            r == FormField::Alias,
    {
        Self::Alias
    }
}

/// Moving the focus forward and then back, or back and then forward,
/// returns it to the field it started on.
pub proof fn lemma_next_prev_inverse(f: FormField)
    ensures
        prev_field(next_field(f)) == f,
        next_field(prev_field(f)) == f,
{
}

/// The focus cycle visits all five fields: five steps forward come back to
/// the start, and no fewer do.
pub proof fn lemma_focus_cycle(f: FormField)
    ensures
        next_field(next_field(next_field(next_field(next_field(f))))) == f,
        next_field(f) != f,
        next_field(next_field(f)) != f,
        next_field(next_field(next_field(f))) != f,
        next_field(next_field(next_field(next_field(f)))) != f,
{
}

/// The fields in the order the form shows them, top to bottom.
pub open spec fn form_order() -> Seq<FormField> {
    seq![FormField::Alias, FormField::Host, FormField::Username, FormField::Port, FormField::Tags]
}

/// The fields in the order the form shows them.
pub fn form_fields() -> (r: Vec<FormField>)
    ensures
        r@ == form_order(),
{
    let r = vec![FormField::Alias, FormField::Host, FormField::Username, FormField::Port, FormField::Tags];
    assert(r@ =~= form_order());
    r
}

/// The form shows every field exactly once, and Tab moves the focus to the
/// field shown below, from the last back to the first.
pub proof fn lemma_tab_follows_form_order(f: FormField)
    ensures
        form_order().contains(f),
        forall|i: int, j: int|
            0 <= i < j < 5 ==> #[trigger] form_order()[i] != #[trigger] form_order()[j],
        forall|i: int| 0 <= i < 4 ==> next_field(#[trigger] form_order()[i]) == form_order()[i + 1],
        next_field(form_order()[4]) == form_order()[0],
{
    match f {
        FormField::Alias => assert(form_order()[0] == f),
        FormField::Host => assert(form_order()[1] == f),
        FormField::Username => assert(form_order()[2] == f),
        FormField::Port => assert(form_order()[3] == f),
        FormField::Tags => assert(form_order()[4] == f),
    }
}

/// The text in each field of the form, and which field has the focus.
#[derive(Debug, Clone)]
pub struct FormState {
    pub alias: String,
    pub host: String,
    pub username: String,
    pub port: String,
    pub tags: String,
    pub focused: FormField,
}

/// The mathematical content of a [`FormState`].
pub struct FormView {
    pub alias: Seq<char>,
    pub host: Seq<char>,
    pub username: Seq<char>,
    pub port: Seq<char>,
    pub tags: Seq<char>,
    pub focused: FormField,
}

impl View for FormState {
    type V = FormView;

    open spec fn view(&self) -> FormView {
        FormView {
            alias: self.alias@,
            host: self.host@,
            username: self.username@,
            port: self.port@,
            tags: self.tags@,
            focused: self.focused,
        }
    }
}

impl FormView {
    /// The text of field `f`.
    pub open spec fn field(self, f: FormField) -> Seq<char> {
        match f {
            FormField::Alias => self.alias,
            FormField::Host => self.host,
            FormField::Username => self.username,
            FormField::Port => self.port,
            FormField::Tags => self.tags,
        }
    }

    /// The form with the text of field `f` replaced by `t`.
    pub open spec fn with_field(self, f: FormField, t: Seq<char>) -> FormView {
        match f {
            FormField::Alias => FormView { alias: t, ..self },
            FormField::Host => FormView { host: t, ..self },
            FormField::Username => FormView { username: t, ..self },
            FormField::Port => FormView { port: t, ..self },
            FormField::Tags => FormView { tags: t, ..self },
        }
    }
}

/// Writing a field and reading it back gives what was written; the other
/// fields and the focus are left as they were.
pub proof fn lemma_field_write_read(v: FormView, f: FormField, g: FormField, t: Seq<char>)
    ensures
        v.with_field(f, t).field(f) == t,
        g != f ==> v.with_field(f, t).field(g) == v.field(g),
        v.with_field(f, t).focused == v.focused,
        v.with_field(f, v.field(f)) == v,
{
}

/// The empty form for adding a server: all fields empty but the port, which
/// is `22`, and the focus on the alias.
pub open spec fn empty_form() -> FormView {
    FormView {
        alias: Seq::empty(),
        host: Seq::empty(),
        username: Seq::empty(),
        port: "22"@,
        tags: Seq::empty(),
        focused: FormField::Alias,
    }
}

/// The form filled in from a server for editing it.
pub open spec fn form_of_server(s: ServerView) -> FormView {
    FormView {
        alias: s.alias,
        host: s.host,
        username: s.username,
        port: decimal_spec(s.port as nat),
        tags: s.tags,
        focused: FormField::Alias,
    }
}

/// The port that the form's port text gives: the number it parses to after
/// trimming, or 22 when it does not parse.
pub open spec fn form_port(port: Seq<char>) -> u16 {
    match parse_u16_spec(trim_spec(port)) {
        Some(p) => p,
        None => 22,
    }
}

/// The server that a submitted form describes: every field trimmed, and
/// none at all when the trimmed alias or host is empty.
pub open spec fn server_of_form(v: FormView) -> Option<ServerView> {
    if trim_spec(v.alias).len() == 0 || trim_spec(v.host).len() == 0 {
        None
    } else {
        Some(
            ServerView {
                alias: trim_spec(v.alias),
                host: trim_spec(v.host),
                username: trim_spec(v.username),
                port: form_port(v.port),
                tags: trim_spec(v.tags),
            },
        )
    }
}

impl Default for FormState {
    fn default() -> (r: Self)
        ensures
            r.alias@ == Seq::<char>::empty(),
            r.host@ == Seq::<char>::empty(),
            r.username@ == Seq::<char>::empty(),
            r.port@ == Seq::<char>::empty(),
            r.tags@ == Seq::<char>::empty(),
            r.focused == FormField::Alias,
    {
        FormState {
            alias: String::new(),
            host: String::new(),
            username: String::new(),
            port: String::new(),
            tags: String::new(),
            focused: FormField::Alias,
        }
    }
}

impl FormState {
    /// A blank form for a new server, with the port preset to 22.
    pub fn new_empty() -> (r: Self)
        ensures
            r@ == empty_form(),
    {
        FormState { port: String::from_str("22"), ..Default::default() }
    }

    /// The form filled in with the values of `s`.
    pub fn from_server(s: &Server) -> (r: Self)
        ensures
            r@ == form_of_server(s@),
    {
        FormState {
            alias: s.alias.clone(),
            host: s.host.clone(),
            username: s.username.clone(),
            port: decimal(s.port as u64),
            tags: s.tags.clone(),
            focused: FormField::Alias,
        }
    }

    /// The text of field `f`.
    pub fn get_field(&self, f: FormField) -> (r: &str)
        ensures
            r@ == self@.field(f),
    {
        match f {
            FormField::Alias => self.alias.as_str(),
            FormField::Host => self.host.as_str(),
            FormField::Username => self.username.as_str(),
            FormField::Port => self.port.as_str(),
            FormField::Tags => self.tags.as_str(),
        }
    }

    /// The text of field `f`, for editing in place.
    pub fn get_field_mut(&mut self, f: FormField) -> (r: &mut String)
        ensures
            r@ == old(self)@.field(f),
            final(self)@ == old(self)@.with_field(f, final(r)@),
    {
        match f {
            FormField::Alias => &mut self.alias,
            FormField::Host => &mut self.host,
            FormField::Username => &mut self.username,
            FormField::Port => &mut self.port,
            FormField::Tags => &mut self.tags,
        }
    }

    /// The server the form describes, or `None` when the alias or the host
    /// is blank. Every field is trimmed; a port that does not parse is 22.
    pub fn to_server(&self) -> (r: Option<Server>)
        ensures
            match r {
                Some(s) => server_of_form(self@) == Some(s@),
                None => server_of_form(self@) is None,
            },
    {
        let alias = trim(self.alias.as_str());
        let host = trim(self.host.as_str());
        if alias.is_empty() || host.is_empty() {
            return None;
        }
        let port = match parse_u16(trim(self.port.as_str())) {
            Some(p) => p,
            None => 22,
        };
        Some(
            Server {
                alias: alias.to_owned(),
                host: host.to_owned(),
                username: trim(self.username.as_str()).to_owned(),
                port,
                tags: trim(self.tags.as_str()).to_owned(),
            },
        )
    }
}

/// Editing a server and saving the form unchanged gives the same server
/// back, provided its fields carry no surrounding whitespace and its alias
/// and host are not empty (which holds of every server a form produces).
pub proof fn lemma_edit_round_trip(s: ServerView)
    requires
        is_trimmed(s.alias),
        is_trimmed(s.host),
        is_trimmed(s.username),
        is_trimmed(s.tags),
        s.alias.len() > 0,
        s.host.len() > 0,
    ensures
        server_of_form(form_of_server(s)) == Some(s),
{
    lemma_trim_of_trimmed(s.alias);
    lemma_trim_of_trimmed(s.host);
    lemma_trim_of_trimmed(s.username);
    lemma_trim_of_trimmed(s.tags);
    lemma_decimal_trimmed(s.port as nat);
    lemma_parse_decimal(s.port);
}

/// Every server a form produces has a non-empty alias and host, and no
/// field with surrounding whitespace.
pub proof fn lemma_form_server_trimmed(v: FormView)
    ensures
        server_of_form(v) matches Some(s) ==> {
            &&& s.alias.len() > 0
            &&& s.host.len() > 0
            &&& is_trimmed(s.alias)
            &&& is_trimmed(s.host)
            &&& is_trimmed(s.username)
            &&& is_trimmed(s.tags)
        },
{
    lemma_trim_is_trimmed(v.alias);
    lemma_trim_is_trimmed(v.host);
    lemma_trim_is_trimmed(v.username);
    lemma_trim_is_trimmed(v.tags);
}

} // verus!
