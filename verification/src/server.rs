//! A saved SSH server and how it is shown and connected to.
use vstd::prelude::*;
use crate::text::{decimal, decimal_spec, lemma_parse_decimal, parse_u16_spec};

verus! {

/// One saved SSH server.
#[derive(Debug, Clone)]
pub struct Server {
    pub alias: String,
    pub host: String,
    pub username: String,
    pub port: u16,
    pub tags: String,
}

/// The mathematical content of a [`Server`].
pub struct ServerView {
    pub alias: Seq<char>,
    pub host: Seq<char>,
    pub username: Seq<char>,
    pub port: u16,
    pub tags: Seq<char>,
}

impl View for Server {
    type V = ServerView;

    open spec fn view(&self) -> ServerView {
        ServerView {
            alias: self.alias@,
            host: self.host@,
            username: self.username@,
            port: self.port,
            tags: self.tags@,
        }
    }
}

impl DeepView for Server {
    type V = ServerView;

    open spec fn deep_view(&self) -> ServerView {
        self@
    }
}

/// The user name that a connection logs in as: the configured one, or
/// `default_user` (the current user) when none is configured.
pub open spec fn login_user(username: Seq<char>, default_user: Seq<char>) -> Seq<char> {
    if username.len() == 0 {
        default_user
    } else {
        username
    }
}

/// `user@host:port`, as shown in the server list.
pub open spec fn connection_text(s: ServerView, default_user: Seq<char>) -> Seq<char> {
    login_user(s.username, default_user) + "@"@ + s.host + ":"@ + decimal_spec(s.port as nat)
}

/// The arguments handed to `ssh`: `-p <port> <user>@<host>`.
pub open spec fn ssh_args_spec(s: ServerView, default_user: Seq<char>) -> Seq<Seq<char>> {
    seq!["-p"@, decimal_spec(s.port as nat), login_user(s.username, default_user) + "@"@ + s.host]
}

/// The connection shown in the list is the `ssh` target followed by `:`
/// and the port argument; the port argument parses back to the server's
/// port; and the target logs in as the configured user, or as
/// `default_user` exactly when none is configured.
pub proof fn lemma_connection_matches_ssh_args(s: ServerView, default_user: Seq<char>)
    ensures
        ssh_args_spec(s, default_user).len() == 3,
        ssh_args_spec(s, default_user)[0] == "-p"@,
        connection_text(s, default_user) == ssh_args_spec(s, default_user)[2] + ":"@
            + ssh_args_spec(s, default_user)[1],
        parse_u16_spec(ssh_args_spec(s, default_user)[1]) == Some(s.port),
        s.username.len() > 0 ==> ssh_args_spec(s, default_user)[2] == s.username + "@"@ + s.host,
        s.username.len() == 0 ==> ssh_args_spec(s, default_user)[2] == default_user + "@"@
            + s.host,
{
    lemma_parse_decimal(s.port);
}

impl Server {
    /// The user name this server's connection logs in as.
    fn login_name<'a>(&'a self, default_user: &'a str) -> (r: &'a str)
        ensures
            r@ == login_user(self.username@, default_user@),
    {
        if self.username.as_str().is_empty() {
            default_user
        } else {
            self.username.as_str()
        }
    }

    /// `user@host:port`, where `user` falls back to `default_user` (the
    /// current user) when no user name is configured.
    pub fn display_connection(&self, default_user: &str) -> (r: String)
        ensures
            r@ == connection_text(self@, default_user@),
    {
        let mut r = String::from_str(self.login_name(default_user));
        r.append("@");
        r.append(self.host.as_str());
        r.append(":");
        let port = decimal(self.port as u64);
        r.append(port.as_str());
        r
    }

    /// The command-line arguments of `ssh` for this server.
    pub fn ssh_args(&self, default_user: &str) -> (r: Vec<String>)
        ensures
            r.deep_view() == ssh_args_spec(self@, default_user@),
    {
        let mut target = String::from_str(self.login_name(default_user));
        target.append("@");
        target.append(self.host.as_str());
        let mut r: Vec<String> = Vec::new();
        r.push(String::from_str("-p"));
        r.push(decimal(self.port as u64));
        r.push(target);
        assert(r.deep_view() =~= ssh_args_spec(self@, default_user@));
        r
    }
}

} // verus!
