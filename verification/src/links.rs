//! The links that a browser hands to the launcher, and the server that it trusts.
use crate::arguments::{
    argument_fault, is_blocked, passwordless, validate_player_command_arguments,
    without_auth_password, ArgumentError,
};
use crate::text::{
    any_control, begins, byte_length, concat, has_control, letters, maybe_text, part, spells,
    text_of, texts,
};
use crate::web::{
    field_texts, has_room, is_loopback_host, loopback_host, parse_url, parts_in, replace_path,
    same_server, url_parts, url_with_path, UrlModel, UrlParts,
};
use vstd::prelude::*;

verus! {

/// A link that asks for a launch.
pub struct ProtocolLaunch {
    pub ticket: String,
    pub username: String,
    pub command_args: Vec<String>,
}

/// Why a link is refused.
pub enum LinkError {
    Unreadable { cause: String },
    Foreign,
    Field,
    NoTicket,
    Ticket,
    NoUsername,
    Username,
    Arguments { error: ArgumentError },
    Repair,
}

/// The kind of a [`LinkError`].
pub enum LinkFault {
    Unreadable { cause: Seq<char> },
    Foreign,
    Field,
    NoTicket,
    Ticket,
    NoUsername,
    Username,
    Arguments { error: ArgumentError },
    Repair,
}

impl LinkFault {
    pub open spec fn text(self) -> Seq<char> {
        match self {
            LinkFault::Unreadable { cause } => "parse DKO launcher URI: "@ + cause,
            LinkFault::Foreign => "invalid DKO launcher URI"@,
            LinkFault::Field => "invalid or repeated DKO launcher URI field"@,
            LinkFault::NoTicket => "DKO launcher URI omitted its ticket"@,
            LinkFault::Ticket => "DKO launcher ticket has an invalid format"@,
            LinkFault::NoUsername => "DKO launcher URI omitted its username"@,
            LinkFault::Username => "DKO launcher username has an invalid format"@,
            LinkFault::Arguments { error } => error.text(),
            LinkFault::Repair => "invalid DKO repair URI"@,
        }
    }
}

impl LinkError {
    pub open spec fn fault(self) -> LinkFault {
        match self {
            LinkError::Unreadable { cause } => LinkFault::Unreadable { cause: cause@ },
            LinkError::Foreign => LinkFault::Foreign,
            LinkError::Field => LinkFault::Field,
            LinkError::NoTicket => LinkFault::NoTicket,
            LinkError::Ticket => LinkFault::Ticket,
            LinkError::NoUsername => LinkFault::NoUsername,
            LinkError::Username => LinkFault::Username,
            LinkError::Arguments { error } => LinkFault::Arguments { error },
            LinkError::Repair => LinkFault::Repair,
        }
    }

    /// What the player reads.
    pub fn message(&self) -> (r: String)
        ensures
            r@ == self.fault().text(),
    {
        match self {
            LinkError::Unreadable { cause } => concat("parse DKO launcher URI: ", cause.as_str()),
            LinkError::Foreign => "invalid DKO launcher URI".to_owned(),
            LinkError::Field => "invalid or repeated DKO launcher URI field".to_owned(),
            LinkError::NoTicket => "DKO launcher URI omitted its ticket".to_owned(),
            LinkError::Ticket => "DKO launcher ticket has an invalid format".to_owned(),
            LinkError::NoUsername => "DKO launcher URI omitted its username".to_owned(),
            LinkError::Username => "DKO launcher username has an invalid format".to_owned(),
            LinkError::Arguments { error } => error.message(),
            LinkError::Repair => "invalid DKO repair URI".to_owned(),
        }
    }
}

/// What a link asks for.
pub struct Request {
    pub ticket: Seq<char>,
    pub username: Seq<char>,
    pub command_args: Seq<Seq<char>>,
}

impl ProtocolLaunch {
    pub open spec fn request(self) -> Request {
        Request {
            ticket: self.ticket@,
            username: self.username@,
            command_args: texts(self.command_args@),
        }
    }
}

/// A character of a launch ticket.
pub open spec fn is_token_letter(c: char) -> bool {
    ||| 'a' <= c && c <= 'z'
    ||| 'A' <= c && c <= 'Z'
    ||| '0' <= c && c <= '9'
    ||| c == '~'
    ||| c == '-'
    ||| c == '_'
}

/// A launch ticket: up to 128 characters that start with `dkl~`.
pub open spec fn is_ticket(s: Seq<char>) -> bool {
    &&& "dkl~"@.is_prefix_of(s)
    &&& s.len() <= 128
    &&& forall|i: int| 0 <= i < s.len() ==> is_token_letter(#[trigger] s[i])
}

pub open spec fn is_username(s: Seq<char>) -> bool {
    s.len() > 0 && vstd::utf8::encode_utf8(s).len() <= 64 && !has_control(s)
}

/// The fields of a link, as far as they were read.
pub struct Fields {
    pub ticket: Option<Seq<char>>,
    pub username: Option<Seq<char>>,
    pub mode_seen: bool,
    pub command_args: Seq<Seq<char>>,
}

/// Reads the fields of a link one by one; nothing when one is unknown or repeated.
pub open spec fn read_fields(fields: Seq<(Seq<char>, Seq<char>)>) -> Option<Fields>
    decreases fields.len(),
{
    if fields.len() == 0 {
        Some(
            Fields { ticket: None, username: None, mode_seen: false, command_args: Seq::empty() },
        )
    } else {
        match read_fields(fields.drop_last()) {
            None => None,
            Some(before) => {
                let (key, value) = fields.last();
                if key == "ticket"@ && before.ticket is None {
                    Some(Fields { ticket: Some(value), ..before })
                } else if key == "username"@ && before.username is None {
                    Some(Fields { username: Some(value), ..before })
                } else if key == "mode"@ && !before.mode_seen && value == "patched"@ {
                    Some(Fields { mode_seen: true, ..before })
                } else if key == "arg"@ {
                    Some(Fields { command_args: before.command_args.push(value), ..before })
                } else {
                    None
                }
            },
        }
    }
}

/// The link is addressed to the launcher and names nothing but form fields.
pub open spec fn is_launch_link(parts: UrlModel) -> bool {
    &&& parts.scheme == "project-knockout"@
    &&& parts.host == Some("launch"@)
    &&& parts.username.len() == 0
    &&& parts.password is None
    &&& parts.port is None
    &&& parts.path.len() == 0 || parts.path == "/"@
    &&& parts.fragment is None
}

/// What a link asks for, or why it is refused.
pub open spec fn request_of(parts: UrlModel) -> Result<Request, LinkFault> {
    if !is_launch_link(parts) {
        Err(LinkFault::Foreign)
    } else {
        match read_fields(parts.fields) {
            None => Err(LinkFault::Field),
            Some(fields) => if fields.ticket is None {
                Err(LinkFault::NoTicket)
            } else if !is_ticket(fields.ticket->0) {
                Err(LinkFault::Ticket)
            } else if fields.username is None {
                Err(LinkFault::NoUsername)
            } else if !is_username(fields.username->0) {
                Err(LinkFault::Username)
            } else {
                let command_args = passwordless(fields.command_args);
                match argument_fault(command_args) {
                    Some(error) => Err(LinkFault::Arguments { error }),
                    None => Ok(
                        Request {
                            ticket: fields.ticket->0,
                            username: fields.username->0,
                            command_args,
                        },
                    ),
                }
            },
        }
    }
}

pub fn token_letter(c: char) -> (r: bool)
    ensures
        r == is_token_letter(c),
{
    ('a' <= c && c <= 'z') || ('A' <= c && c <= 'Z') || ('0' <= c && c <= '9') || c == '~' || c
        == '-' || c == '_'
}

fn valid_ticket(s: &[char]) -> (r: bool)
    ensures
        r == is_ticket(s@),
{
    if !begins(s, letters("dkl~").as_slice()) || s.len() > 128 {
        return false;
    }
    let mut i: usize = 0;
    while i < s.len()
        invariant
            i <= s@.len(),
            forall|j: int| 0 <= j < i ==> is_token_letter(#[trigger] s@[j]),
        decreases s@.len() - i,
    {
        if !token_letter(s[i]) {
            assert(!is_token_letter(s@[i as int]));
            return false;
        }
        i = i + 1;
    }
    true
}

struct FieldTexts {
    ticket: Option<String>,
    username: Option<String>,
    mode_seen: bool,
    command_args: Vec<String>,
}

impl FieldTexts {
    spec fn model(self) -> Fields {
        Fields {
            ticket: maybe_text(self.ticket),
            username: maybe_text(self.username),
            mode_seen: self.mode_seen,
            command_args: texts(self.command_args@),
        }
    }
}

proof fn lemma_fields_stop(fields: Seq<(Seq<char>, Seq<char>)>, i: int)
    requires
        0 <= i <= fields.len(),
        read_fields(fields.take(i)) is None,
    ensures
        read_fields(fields) is None,
    decreases fields.len(),
{
    if i == fields.len() {
        assert(fields.take(i) =~= fields);
    } else {
        assert(fields.drop_last().take(i) =~= fields.take(i));
        lemma_fields_stop(fields.drop_last(), i);
    }
}

fn collect_fields(fields: &Vec<(String, String)>) -> (r: Option<FieldTexts>)
    ensures
        match r {
            Some(read) => read_fields(field_texts(fields@)) == Some(read.model()),
            None => read_fields(field_texts(fields@)) is None,
        },
{
    let ghost all = field_texts(fields@);
    let mut read = FieldTexts {
        ticket: None,
        username: None,
        mode_seen: false,
        command_args: Vec::new(),
    };
    let mut i: usize = 0;
    assert(texts(read.command_args@) =~= Seq::empty());
    assert(all.take(0) =~= Seq::empty());
    while i < fields.len()
        invariant
            i <= fields@.len(),
            all == field_texts(fields@),
            read_fields(all.take(i as int)) == Some(read.model()),
        decreases fields@.len() - i,
    {
        assert(all.take(i + 1).drop_last() =~= all.take(i as int));
        assert(all.take(i + 1).last() == (fields@[i as int].0@, fields@[i as int].1@));
        let ghost before = read.model();
        let key = letters(fields[i].0.as_str());
        let value = &fields[i].1;
        if spells(key.as_slice(), "ticket") && read.ticket.is_none() {
            read.ticket = Some(value.clone());
        } else if spells(key.as_slice(), "username") && read.username.is_none() {
            read.username = Some(value.clone());
        } else if spells(key.as_slice(), "mode") && !read.mode_seen && spells(
            letters(value.as_str()).as_slice(),
            "patched",
        ) {
            read.mode_seen = true;
        } else if spells(key.as_slice(), "arg") {
            read.command_args.push(value.clone());
            assert(texts(read.command_args@) =~= before.command_args.push(value@));
        } else {
            proof {
                lemma_fields_stop(all, i + 1);
            }
            return None;
        }
        i = i + 1;
    }
    assert(all.take(i as int) =~= all);
    Some(read)
}

fn launch_link(parts: &UrlParts) -> (r: bool)
    ensures
        r == is_launch_link(parts.model()),
{
    if !spells(letters(parts.scheme.as_str()).as_slice(), "project-knockout") {
        return false;
    }
    match &parts.host {
        None => {
            return false;
        },
        Some(host) => {
            if !spells(letters(host.as_str()).as_slice(), "launch") {
                return false;
            }
        },
    }
    let path = letters(parts.path.as_str());
    letters(parts.username.as_str()).len() == 0 && parts.password.is_none() && parts.port.is_none()
        && (path.len() == 0 || spells(path.as_slice(), "/")) && parts.fragment.is_none()
}

/// What the parts of a link ask for.
pub fn launch_request(parts: &UrlParts) -> (r: Result<ProtocolLaunch, LinkError>)
    ensures
        match r {
            Ok(launch) => request_of(parts.model()) == Ok::<Request, LinkFault>(launch.request()),
            Err(error) => request_of(parts.model()) == Err::<Request, LinkFault>(error.fault()),
        },
{
    if !launch_link(parts) {
        return Err(LinkError::Foreign);
    }
    let fields = match collect_fields(&parts.fields) {
        Some(fields) => fields,
        None => {
            return Err(LinkError::Field);
        },
    };
    let ticket = match fields.ticket {
        Some(ticket) => ticket,
        None => {
            return Err(LinkError::NoTicket);
        },
    };
    if !valid_ticket(letters(ticket.as_str()).as_slice()) {
        return Err(LinkError::Ticket);
    }
    let username = match fields.username {
        Some(username) => username,
        None => {
            return Err(LinkError::NoUsername);
        },
    };
    let name = letters(username.as_str());
    if name.len() == 0 || byte_length(username.as_str()) > 64 || any_control(name.as_slice()) {
        return Err(LinkError::Username);
    }
    let command_args = without_auth_password(&fields.command_args);
    match validate_player_command_arguments(&command_args) {
        Ok(()) => Ok(ProtocolLaunch { ticket, username, command_args }),
        Err(error) => Err(LinkError::Arguments { error }),
    }
}

/// What a text asks for, or why it is refused.
pub open spec fn link_request(uri: Seq<char>) -> Result<Request, LinkFault> {
    match url_parts(uri) {
        Ok(parts) => request_of(parts),
        Err(cause) => Err(LinkFault::Unreadable { cause }),
    }
}

/// Reads a link that asks for a launch.
pub fn parse_protocol_uri(uri: &str) -> (r: Result<ProtocolLaunch, LinkError>)
    ensures
        match r {
            Ok(launch) => link_request(uri@) == Ok::<Request, LinkFault>(launch.request()),
            Err(error) => link_request(uri@) == Err::<Request, LinkFault>(error.fault()),
        },
{
    match parse_url(uri) {
        Ok(parts) => launch_request(&parts),
        Err(cause) => Err(LinkError::Unreadable { cause }),
    }
}

/// Whether a link to `host` asks for a repair, or why it is refused. Repair only
/// opens local configuration, so the link must not say anything else.
pub open spec fn repair_request(uri: Seq<char>, host: Option<Seq<char>>) -> Result<bool, LinkFault> {
    if host != Some("repair"@) {
        Ok(false)
    } else if uri == "project-knockout://repair"@ || uri == "project-knockout://repair/"@ {
        Ok(true)
    } else {
        Err(LinkFault::Repair)
    }
}

/// Whether a link to `host` asks for a repair.
pub fn asks_for_repair(uri: &str, host: &Option<String>) -> (r: Result<bool, LinkError>)
    ensures
        match r {
            Ok(repair) => repair_request(uri@, maybe_text(*host)) == Ok::<bool, LinkFault>(repair),
            Err(error) => repair_request(uri@, maybe_text(*host)) == Err::<bool, LinkFault>(
                error.fault(),
            ),
        },
{
    match host {
        None => Ok(false),
        Some(host) => {
            if !spells(letters(host.as_str()).as_slice(), "repair") {
                return Ok(false);
            }
            let all = letters(uri);
            if spells(all.as_slice(), "project-knockout://repair") || spells(
                all.as_slice(),
                "project-knockout://repair/",
            ) {
                Ok(true)
            } else {
                Err(LinkError::Repair)
            }
        },
    }
}

/// Whether a text asks for a repair, or why it is refused.
pub open spec fn link_repair(uri: Seq<char>) -> Result<bool, LinkFault> {
    match url_parts(uri) {
        Ok(parts) => repair_request(uri, parts.host),
        Err(cause) => Err(LinkFault::Unreadable { cause }),
    }
}

/// Whether a link asks for a repair.
pub fn is_repair_protocol_uri(uri: &str) -> (r: Result<bool, LinkError>)
    ensures
        match r {
            Ok(repair) => link_repair(uri@) == Ok::<bool, LinkFault>(repair),
            Err(error) => link_repair(uri@) == Err::<bool, LinkFault>(error.fault()),
        },
{
    match parse_url(uri) {
        Ok(parts) => asks_for_repair(uri, &parts.host),
        Err(cause) => Err(LinkError::Unreadable { cause }),
    }
}

/// Why a server is not trusted.
pub enum ServerError {
    Unreadable { cause: String },
    Insecure,
    NotAnOrigin,
    /// The URL has more positions than can be counted.
    TooLong,
}

/// The kind of a [`ServerError`].
pub enum ServerFault {
    Unreadable { cause: Seq<char> },
    Insecure,
    NotAnOrigin,
    TooLong,
}

impl ServerFault {
    pub open spec fn text(self) -> Seq<char> {
        match self {
            ServerFault::Unreadable { cause } => "parse trusted DKO server URL: "@ + cause,
            ServerFault::Insecure =>
                "the external launcher requires HTTPS (HTTP is allowed only for loopback testing)"@,
            ServerFault::NotAnOrigin =>
                "trusted DKO server URL must be an absolute origin without query or fragment"@,
            ServerFault::TooLong => "trusted DKO server URL is too long"@,
        }
    }
}

impl ServerError {
    pub open spec fn fault(self) -> ServerFault {
        match self {
            ServerError::Unreadable { cause } => ServerFault::Unreadable { cause: cause@ },
            ServerError::Insecure => ServerFault::Insecure,
            ServerError::NotAnOrigin => ServerFault::NotAnOrigin,
            ServerError::TooLong => ServerFault::TooLong,
        }
    }

    /// What the player reads.
    pub fn message(&self) -> (r: String)
        ensures
            r@ == self.fault().text(),
    {
        match self {
            ServerError::Unreadable { cause } => concat(
                "parse trusted DKO server URL: ",
                cause.as_str(),
            ),
            ServerError::Insecure =>
                "the external launcher requires HTTPS (HTTP is allowed only for loopback testing)".to_owned(),
            ServerError::NotAnOrigin =>
                "trusted DKO server URL must be an absolute origin without query or fragment".to_owned(),
            ServerError::TooLong => "trusted DKO server URL is too long".to_owned(),
        }
    }
}

/// Plain HTTP to this machine, for tests.
pub open spec fn is_loopback_http(parts: UrlModel) -> bool {
    parts.scheme == "http"@ && parts.host is Some && is_loopback_host(parts.host->0)
}

/// What is wrong with a URL as the origin of a trusted server.
pub open spec fn server_fault(parts: UrlModel) -> Option<ServerFault> {
    if parts.scheme != "https"@ && !is_loopback_http(parts) {
        Some(ServerFault::Insecure)
    } else if parts.host is None || parts.query is Some || parts.fragment is Some {
        Some(ServerFault::NotAnOrigin)
    } else {
        None
    }
}

/// The text without the slashes it ends with.
pub open spec fn unslashed(s: Seq<char>) -> Seq<char>
    decreases s.len(),
{
    if s.len() > 0 && s.last() == '/' {
        unslashed(s.drop_last())
    } else {
        s
    }
}

fn cut_slashes(s: &str) -> (r: String)
    ensures
        r@ == unslashed(s@),
{
    let all = letters(s);
    let mut n: usize = all.len();
    assert(all@.take(n as int) =~= all@);
    while n > 0 && all[n - 1] == '/'
        invariant
            n <= all@.len(),
            unslashed(all@.take(n as int)) == unslashed(all@),
        decreases n,
    {
        assert(all@.take(n as int).drop_last() =~= all@.take(n - 1));
        n = n - 1;
    }
    let kept = part(all.as_slice(), 0, n);
    assert(kept@ =~= all@.take(n as int));
    text_of(kept.as_slice())
}

/// Whether a URL can be the origin of a trusted server.
pub fn check_server(parts: &UrlParts) -> (r: Result<(), ServerError>)
    ensures
        match r {
            Ok(()) => server_fault(parts.model()) is None,
            Err(error) => server_fault(parts.model()) == Some(error.fault()),
        },
{
    let scheme = letters(parts.scheme.as_str());
    let loopback_http = spells(scheme.as_slice(), "http") && match &parts.host {
        Some(host) => loopback_host(host.as_str()),
        None => false,
    };
    if !spells(scheme.as_slice(), "https") && !loopback_http {
        return Err(ServerError::Insecure);
    }
    if parts.host.is_none() || parts.query.is_some() || parts.fragment.is_some() {
        return Err(ServerError::NotAnOrigin);
    }
    Ok(())
}

/// The trusted server that a text names, or why it is not trusted. The slashes at
/// the end of its path do not count.
pub open spec fn pinned_server(value: Seq<char>) -> Result<Seq<char>, ServerFault> {
    match url_parts(value) {
        Err(cause) => Err(ServerFault::Unreadable { cause }),
        Ok(parts) => match server_fault(parts) {
            Some(fault) => Err(fault),
            None => if has_room(value, unslashed(parts.path)) {
                Ok(url_with_path(value, unslashed(parts.path))->0)
            } else {
                Err(ServerFault::TooLong)
            },
        },
    }
}

/// The origin of the trusted server, in its normal form. It is a URL of the server that
/// the text names, and can itself be trusted.
pub fn validate_pinned_server_url(value: &str) -> (r: Result<String, ServerError>)
    ensures
        match r {
            Ok(server) => {
                &&& pinned_server(value@) == Ok::<Seq<char>, ServerFault>(server@)
                &&& url_with_path(value@, unslashed(parts_in(value@).path)) == Some(server@)
                &&& same_server(value@, server@)
                &&& url_parts(server@) is Ok
                &&& server_fault(parts_in(server@)) is None
            },
            Err(error) => pinned_server(value@) == Err::<Seq<char>, ServerFault>(error.fault()),
        },
{
    let parts = match parse_url(value) {
        Ok(parts) => parts,
        Err(cause) => {
            return Err(ServerError::Unreadable { cause });
        },
    };
    match check_server(&parts) {
        Ok(()) => {},
        Err(error) => {
            return Err(error);
        },
    }
    let path = cut_slashes(parts.path.as_str());
    match replace_path(Some(value.to_owned()), path.as_str()) {
        Some(server) => Ok(server),
        None => Err(ServerError::TooLong),
    }
}

/// Whatever the link, a launch that is accepted has a well-formed ticket, and none of
/// its arguments sets an option that decides who plays, where, or what runs.
pub proof fn law_accepted_launch_is_harmless(parts: UrlModel, i: int)
    requires
        request_of(parts) is Ok,
        0 <= i < request_of(parts)->Ok_0.command_args.len(),
    ensures
        is_ticket(request_of(parts)->Ok_0.ticket),
        request_of(parts)->Ok_0.command_args.len() <= 16,
        !is_blocked(request_of(parts)->Ok_0.command_args[i]),
{
}

/// Whatever host a link names, it is taken for a repair only when it is one of the
/// two texts that say nothing else.
pub proof fn law_repair_link_carries_nothing(uri: Seq<char>, host: Option<Seq<char>>)
    requires
        repair_request(uri, host) == Ok::<bool, LinkFault>(true),
    ensures
        uri == "project-knockout://repair"@ || uri == "project-knockout://repair/"@,
{
}

/// A trusted server is reached over HTTPS, or it is this machine.
pub proof fn law_trusted_server_is_secure(parts: UrlModel)
    requires
        server_fault(parts) is None,
    ensures
        parts.scheme == "https"@ || (parts.scheme == "http"@ && is_loopback_host(parts.host->0)),
        parts.query is None,
        parts.fragment is None,
{
}

} // verus!
