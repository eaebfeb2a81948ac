//! Where the bridge connects to, and when one is needed at all.
use crate::settings::{Build, Setting};
use crate::text::{
    begins, concat, letters, maybe_text, part, pieces, spells, split, text_of, trim, trimmed, views,
};
use crate::web::{
    fragment_dropped, has_room, has_room_for_scheme, is_loopback_host, loopback_host,
    offers_room_for_scheme, parse_url, parts_in, path_replaced, query_dropped, remove_fragment,
    remove_query, replace_path, replace_scheme, url_parts, url_with_scheme, UrlModel, UrlParts,
};
use vstd::prelude::*;

verus! {

/// Whether this process is the launcher, which is the only one that starts bridges.
#[derive(Clone, Copy, Debug, PartialEq, Eq, Structural)]
pub struct LauncherProcess {
    pub enabled: bool,
}

impl Default for LauncherProcess {
    fn default() -> (r: LauncherProcess)
        ensures
            !r.enabled,
    {
        LauncherProcess { enabled: false }
    }
}

/// From now on this process starts bridges.
pub fn enable_in_launcher(process: &mut LauncherProcess)
    ensures
        final(process).enabled,
{
    process.enabled = true;
}

/// Why there is no transport.
pub enum TransportError {
    Unreadable { cause: String },
    NoTicket,
    Insecure,
    Scheme,
    /// The URL has more positions than can be counted.
    TooLong,
}

/// The kind of a [`TransportError`].
pub enum TransportFault {
    Unreadable { cause: Seq<char> },
    NoTicket,
    Insecure,
    Scheme,
    TooLong,
}

impl TransportFault {
    pub open spec fn text(self) -> Seq<char> {
        match self {
            TransportFault::Unreadable { cause } => cause,
            TransportFault::NoTicket => "transport launch has no ticket"@,
            TransportFault::Insecure => "public player transport requires HTTPS"@,
            TransportFault::Scheme => "invalid transport scheme"@,
            TransportFault::TooLong => "player transport URL is too long"@,
        }
    }
}

impl TransportError {
    pub open spec fn fault(self) -> TransportFault {
        match self {
            TransportError::Unreadable { cause } => TransportFault::Unreadable { cause: cause@ },
            TransportError::NoTicket => TransportFault::NoTicket,
            TransportError::Insecure => TransportFault::Insecure,
            TransportError::Scheme => TransportFault::Scheme,
            TransportError::TooLong => TransportFault::TooLong,
        }
    }

    pub fn message(&self) -> (r: String)
        ensures
            r@ == self.fault().text(),
    {
        match self {
            TransportError::Unreadable { cause } => cause.clone(),
            TransportError::NoTicket => "transport launch has no ticket".to_owned(),
            TransportError::Insecure => "public player transport requires HTTPS".to_owned(),
            TransportError::Scheme => "invalid transport scheme".to_owned(),
            TransportError::TooLong => "player transport URL is too long".to_owned(),
        }
    }
}

/// A launch URL needs a bridge when it belongs to an authenticated launch.
pub open spec fn needs_bridge(build: &Build, process: LauncherProcess, path: Seq<char>) -> bool {
    process.enabled && build.value(Setting::LaunchPrefix).is_prefix_of(path)
}

/// Whether a launch with a URL of this path needs a bridge.
pub fn path_needs_bridge(build: &Build, process: LauncherProcess, path: &str) -> (r: bool)
    ensures
        r == needs_bridge(build, process, path@),
{
    process.enabled && begins(
        letters(path).as_slice(),
        letters(build.get(Setting::LaunchPrefix)).as_slice(),
    )
}

/// Whether a launch URL needs a bridge.
pub fn launch_needs_bridge(build: &Build, process: LauncherProcess, url: &str) -> (r: Result<
    bool,
    TransportError,
>)
    ensures
        match r {
            Ok(needed) => url_parts(url@) matches Ok(parts) && needed == needs_bridge(
                build,
                process,
                parts.path,
            ),
            Err(error) => url_parts(url@) matches Err(cause) && error.fault()
                == (TransportFault::Unreadable { cause }),
        },
{
    match parse_url(url) {
        Ok(parts) => Ok(path_needs_bridge(build, process, parts.path.as_str())),
        Err(cause) => Err(TransportError::Unreadable { cause }),
    }
}

/// The line by which the bridge says that it is connected.
pub fn is_ready_line(line: &str) -> (r: bool)
    ensures
        r == (trimmed(line@) == "ready"@),
{
    spells(trim(letters(line).as_slice()).as_slice(), "ready")
}

/// The ticket in the path of a launch URL: what stands behind the prefix, up to the
/// next slash.
pub open spec fn ticket_in(build: &Build, path: Seq<char>) -> Option<Seq<char>> {
    let prefix = build.value(Setting::LaunchPrefix);
    if prefix.is_prefix_of(path) && pieces(path.skip(prefix.len() as int), '/')[0].len() > 0 {
        Some(pieces(path.skip(prefix.len() as int), '/')[0])
    } else {
        None
    }
}

/// The scheme of the transport for a launch URL.
pub open spec fn transport_scheme(parts: UrlModel) -> Option<Seq<char>> {
    if parts.scheme == "https"@ {
        Some("wss"@)
    } else if parts.scheme == "http"@ && parts.host is Some && (parts.host->0 == "localhost"@
        || is_loopback_host(parts.host->0)) {
        Some("ws"@)
    } else {
        None
    }
}

/// Where the bridge connects to and what it shows there.
pub struct Transport {
    pub url: String,
    pub ticket: String,
}

/// The transport of a launch URL with these parts, or why there is none.
pub open spec fn transport_of(build: &Build, url: Seq<char>, parts: UrlModel) -> Result<
    (Seq<char>, Seq<char>),
    TransportFault,
> {
    let path = build.value(Setting::TransportPath);
    match (ticket_in(build, parts.path), transport_scheme(parts)) {
        (None, _) => Err(TransportFault::NoTicket),
        (_, None) => Err(TransportFault::Insecure),
        (Some(ticket), Some(scheme)) => if !has_room_for_scheme(url, scheme) {
            Err(TransportFault::TooLong)
        } else {
            match url_with_scheme(url, scheme) {
                None => Err(TransportFault::Scheme),
                Some(start) => match fragment_dropped(
                    query_dropped(path_replaced(Some(start), path)),
                ) {
                    Some(url) => Ok((url, ticket)),
                    None => Err(TransportFault::TooLong),
                },
            }
        },
    }
}

/// The URL of a transport: it leads to the host of the launch URL, by a protected
/// connection unless that is this machine, and says nothing else of the launch.
pub open spec fn leads_to_host(parts: UrlModel, transport: Seq<char>) -> bool {
    let after = parts_in(transport);
    &&& url_parts(transport) is Ok
    &&& Some(after.scheme) == transport_scheme(parts)
    &&& after.host == parts.host
    &&& after.username == parts.username
    &&& after.password == parts.password
    &&& after.query is None
    &&& after.fragment is None
}

fn find_ticket(build: &Build, path: &str) -> (r: Option<String>)
    ensures
        maybe_text(r) == ticket_in(build, path@),
{
    let all = letters(path);
    let prefix = letters(build.get(Setting::LaunchPrefix));
    if !begins(all.as_slice(), prefix.as_slice()) {
        return None;
    }
    let rest = part(all.as_slice(), prefix.len(), all.len());
    assert(rest@ =~= all@.skip(prefix@.len() as int));
    let steps = split(rest.as_slice(), '/');
    assert(views(steps@)[0] == steps@[0]@);
    if steps[0].len() == 0 {
        return None;
    }
    Some(text_of(steps[0].as_slice()))
}

fn choose_scheme(parts: &UrlParts) -> (r: Option<&'static str>)
    ensures
        match r {
            Some(scheme) => transport_scheme(parts.model()) == Some(scheme@),
            None => transport_scheme(parts.model()) is None,
        },
{
    let scheme = letters(parts.scheme.as_str());
    if spells(scheme.as_slice(), "https") {
        return Some("wss");
    }
    if !spells(scheme.as_slice(), "http") {
        return None;
    }
    match &parts.host {
        Some(host) => if spells(letters(host.as_str()).as_slice(), "localhost") || loopback_host(
            host.as_str(),
        ) {
            Some("ws")
        } else {
            None
        },
        None => None,
    }
}

/// The transport for a launch URL and its parts.
pub fn transport_for(build: &Build, url: &str, parts: &UrlParts) -> (r: Result<
    Transport,
    TransportError,
>)
    ensures
        match r {
            Ok(transport) => transport_of(build, url@, parts.model()) == Ok::<
                (Seq<char>, Seq<char>),
                TransportFault,
            >((transport.url@, transport.ticket@)),
            Err(error) => transport_of(build, url@, parts.model()) == Err::<
                (Seq<char>, Seq<char>),
                TransportFault,
            >(error.fault()),
        },
        url_parts(url@) == Ok::<UrlModel, Seq<char>>(parts.model()) && parts.host is Some ==> match r {
            Ok(transport) => leads_to_host(parts.model(), transport.url@),
            Err(TransportError::Scheme) => false,
            Err(TransportError::TooLong) => {
                let scheme = transport_scheme(parts.model())->0;
                ||| !has_room_for_scheme(url@, scheme)
                ||| !has_room(
                    url_with_scheme(url@, scheme)->0,
                    build.value(Setting::TransportPath),
                )
            },
            Err(_) => true,
        },
{
    let ticket = match find_ticket(build, parts.path.as_str()) {
        Some(ticket) => ticket,
        None => {
            return Err(TransportError::NoTicket);
        },
    };
    let scheme = match choose_scheme(parts) {
        Some(scheme) => scheme,
        None => {
            return Err(TransportError::Insecure);
        },
    };
    if !offers_room_for_scheme(url, scheme) {
        return Err(TransportError::TooLong);
    }
    match replace_scheme(Some(url.to_owned()), scheme) {
        None => Err(TransportError::Scheme),
        Some(start) => {
            let start = replace_path(Some(start), build.get(Setting::TransportPath));
            match remove_fragment(remove_query(start)) {
                Some(url) => Ok(Transport { url, ticket }),
                None => Err(TransportError::TooLong),
            }
        },
    }
}

/// The transport of a launch URL. There is one for every launch URL with a ticket that
/// names a host and may be used, unless it is too long.
pub fn open_transport(build: &Build, url: &str) -> (r: Result<Transport, TransportError>)
    ensures
        match r {
            Ok(transport) => url_parts(url@) matches Ok(parts) && transport_of(build, url@, parts)
                == Ok::<(Seq<char>, Seq<char>), TransportFault>((transport.url@, transport.ticket@))
                && (parts.host is Some ==> leads_to_host(parts, transport.url@)),
            Err(error) => match url_parts(url@) {
                Ok(parts) => transport_of(build, url@, parts) == Err::<
                    (Seq<char>, Seq<char>),
                    TransportFault,
                >(error.fault()) && (parts.host is Some ==> !(error is Scheme)) && (error is TooLong
                    && parts.host is Some ==> {
                    let scheme = transport_scheme(parts)->0;
                    ||| !has_room_for_scheme(url@, scheme)
                    ||| !has_room(
                        url_with_scheme(url@, scheme)->0,
                        build.value(Setting::TransportPath),
                    )
                }),
                Err(cause) => error.fault() == (TransportFault::Unreadable { cause }),
            },
        },
{
    match parse_url(url) {
        Ok(parts) => transport_for(build, url, &parts),
        Err(cause) => Err(TransportError::Unreadable { cause }),
    }
}

/// The argument by which the game is told its home directory.
pub open spec fn homedir_argument(homedir: Seq<char>) -> Seq<char> {
    "-homedir="@ + homedir
}

/// The argument by which the game is told its home directory.
pub fn homedir_option(homedir: &str) -> (r: String)
    ensures
        r@ == homedir_argument(homedir@),
{
    concat("-homedir=", homedir)
}

/// A launch never uses an unprotected connection to another machine.
pub proof fn law_transport_is_secure(build: &Build, url: Seq<char>, parts: UrlModel)
    requires
        transport_of(build, url, parts) is Ok,
    ensures
        parts.scheme == "https"@ || (parts.scheme == "http"@ && (parts.host == Some("localhost"@)
            || is_loopback_host(parts.host->0))),
{
}

} // verus!
