//! URLs, as the `url` crate reads and rewrites them.
use crate::settings::{Build, Setting};
use crate::text::{
    all_digits, byte_length, concat, decimal, letters, maybe_text, parse_decimal, pieces, split,
    views,
};
use url::Url;
use vstd::prelude::*;

verus! {

/// What a URL consists of.
pub struct UrlParts {
    /// The URL in its normal form.
    pub text: String,
    pub scheme: String,
    pub host: Option<String>,
    pub username: String,
    pub password: Option<String>,
    pub port: Option<u16>,
    pub path: String,
    pub query: Option<String>,
    pub fragment: Option<String>,
    /// The query, decoded as form fields.
    pub fields: Vec<(String, String)>,
}

/// The content of [`UrlParts`].
pub struct UrlModel {
    pub text: Seq<char>,
    pub scheme: Seq<char>,
    pub host: Option<Seq<char>>,
    pub username: Seq<char>,
    pub password: Option<Seq<char>>,
    pub port: Option<u16>,
    pub path: Seq<char>,
    pub query: Option<Seq<char>>,
    pub fragment: Option<Seq<char>>,
    pub fields: Seq<(Seq<char>, Seq<char>)>,
}

pub open spec fn field_texts(fields: Seq<(String, String)>) -> Seq<(Seq<char>, Seq<char>)> {
    Seq::new(fields.len(), |i: int| (fields[i].0@, fields[i].1@))
}

impl UrlParts {
    pub open spec fn model(self) -> UrlModel {
        UrlModel {
            text: self.text@,
            scheme: self.scheme@,
            host: maybe_text(self.host),
            username: self.username@,
            password: maybe_text(self.password),
            port: self.port,
            path: self.path@,
            query: maybe_text(self.query),
            fragment: maybe_text(self.fragment),
            fields: field_texts(self.fields@),
        }
    }
}

/// What `Url::parse` makes of a text: the parts of the URL, or what is wrong with it.
pub uninterp spec fn url_parts(text: Seq<char>) -> Result<UrlModel, Seq<char>>;

/// The URL that `Url::set_path` makes of a URL and a path.
pub uninterp spec fn url_with_path(url: Seq<char>, path: Seq<char>) -> Option<Seq<char>>;

/// The URL that `Url::set_scheme` makes of a URL and a scheme.
pub uninterp spec fn url_with_scheme(url: Seq<char>, scheme: Seq<char>) -> Option<Seq<char>>;

/// The URL that `Url::set_query` without a query makes of a URL.
pub uninterp spec fn url_without_query(url: Seq<char>) -> Option<Seq<char>>;

/// The URL that `Url::set_fragment` without a fragment makes of a URL.
pub uninterp spec fn url_without_fragment(url: Seq<char>) -> Option<Seq<char>>;

/// `Url::parse` and the accessors of `Url`. The result depends on the text alone.
/// What the `url` crate takes for a URL, and how it divides it up, is left to it.
#[verifier::external_body]
pub(crate) fn parse_url(text: &str) -> (r: Result<UrlParts, String>)
    ensures
        match r {
            Ok(parts) => url_parts(text@) == Ok::<UrlModel, Seq<char>>(parts.model()),
            Err(error) => url_parts(text@) == Err::<UrlModel, Seq<char>>(error@),
        },
{
    let url = Url::parse(text).map_err(|error| error.to_string())?;
    Ok(UrlParts {
        text: url.as_str().to_owned(),
        scheme: url.scheme().to_owned(),
        host: url.host_str().map(str::to_owned),
        username: url.username().to_owned(),
        password: url.password().map(str::to_owned),
        port: url.port(),
        path: url.path().to_owned(),
        query: url.query().map(str::to_owned),
        fragment: url.fragment().map(str::to_owned),
        fields: url.query_pairs().map(|(key, value)| (key.into_owned(), value.into_owned())).collect(),
    })
}

/// A URL by which a server on the network is reached.
pub open spec fn is_web(parts: UrlModel) -> bool {
    is_web_scheme(parts.scheme) && parts.host is Some
}

pub open spec fn is_web_scheme(scheme: Seq<char>) -> bool {
    scheme == "http"@ || scheme == "https"@ || scheme == "ws"@ || scheme == "wss"@
}

/// The text is the URL of a server.
pub open spec fn is_web_url(text: Seq<char>) -> bool {
    url_parts(text) matches Ok(parts) && is_web(parts)
}

/// The parts of the URL that a text holds.
pub open spec fn parts_in(text: Seq<char>) -> UrlModel {
    url_parts(text)->Ok_0
}

/// The other text is the URL of the same server with another path.
pub open spec fn differs_in_path(url: Seq<char>, other: Seq<char>) -> bool {
    is_web_url(url) ==> url_parts(other) is Ok && parts_in(other) == (UrlModel {
        text: other,
        path: parts_in(other).path,
        ..parts_in(url)
    })
}

/// The other text is the URL of the same server with this scheme; its port is left out
/// when it is the usual one.
pub open spec fn differs_in_scheme(url: Seq<char>, other: Seq<char>, scheme: Seq<char>) -> bool {
    is_web_url(url) ==> url_parts(other) is Ok && parts_in(other) == (UrlModel {
        text: other,
        scheme,
        port: parts_in(other).port,
        ..parts_in(url)
    })
}

/// The other text is the same URL of a server without its query.
pub open spec fn lacks_query(url: Seq<char>, other: Seq<char>) -> bool {
    is_web_url(url) ==> url_parts(other) is Ok && parts_in(other) == (UrlModel {
        text: other,
        query: None,
        fields: Seq::empty(),
        ..parts_in(url)
    })
}

/// The other text is the same URL of a server without its fragment.
pub open spec fn lacks_fragment(url: Seq<char>, other: Seq<char>) -> bool {
    is_web_url(url) ==> url_parts(other) is Ok && parts_in(other) == (UrlModel {
        text: other,
        fragment: None,
        ..parts_in(url)
    })
}

/// `Url::set_path` on the URL that a text holds. It always succeeds, and changes nothing
/// but the path of a server's URL. How the path is written in the URL is left to the
/// `url` crate, which counts positions in 32 bits and panics when it cannot.
#[verifier::external_body]
fn put_path(url: &str, path: &str) -> (r: Option<String>)
    requires
        has_room(url@, path@),
    ensures
        maybe_text(r) == url_with_path(url@, path@),
        r is Some,
        differs_in_path(url@, r->0@),
{
    let mut url = Url::parse(url).ok()?;
    url.set_path(path);
    Some(url.into())
}

/// `Url::set_scheme` on the URL that a text holds; nothing when the scheme cannot
/// replace its own. Between the schemes of servers it always can, and nothing else of
/// the URL changes, but for a port that has become the usual one.
#[verifier::external_body]
fn put_scheme(url: &str, scheme: &str) -> (r: Option<String>)
    requires
        has_room_for_scheme(url@, scheme@),
    ensures
        maybe_text(r) == url_with_scheme(url@, scheme@),
        is_web_url(url@) && is_web_scheme(scheme@) ==> r is Some && differs_in_scheme(
            url@,
            r->0@,
            scheme@,
        ),
{
    let mut url = Url::parse(url).ok()?;
    url.set_scheme(scheme).ok()?;
    Some(url.into())
}

/// `Url::set_query(None)` on the URL that a text holds; nothing when it holds none. It
/// removes nothing else from a server's URL.
#[verifier::external_body]
fn drop_query(url: &str) -> (r: Option<String>)
    ensures
        maybe_text(r) == url_without_query(url@),
        r is Some <==> url_parts(url@) is Ok,
        r is Some ==> lacks_query(url@, r->0@),
{
    let mut url = Url::parse(url).ok()?;
    url.set_query(None);
    Some(url.into())
}

/// `Url::set_fragment(None)` on the URL that a text holds; nothing when it holds none.
/// It removes nothing else from a server's URL.
#[verifier::external_body]
fn drop_fragment(url: &str) -> (r: Option<String>)
    ensures
        maybe_text(r) == url_without_fragment(url@),
        r is Some <==> url_parts(url@) is Ok,
        r is Some ==> lacks_fragment(url@, r->0@),
{
    let mut url = Url::parse(url).ok()?;
    url.set_fragment(None);
    Some(url.into())
}

/// The last position that the `url` crate can count.
pub const LAST_POSITION: u64 = 0xffff_ffff;

pub open spec fn bytes_in(text: Seq<char>) -> int {
    vstd::utf8::encode_utf8(text).len() as int
}

/// The last position in a URL that is counted: where its fragment starts, or its end.
pub open spec fn last_position(parts: UrlModel) -> int {
    bytes_in(parts.text) - match parts.fragment {
        Some(fragment) => bytes_in(fragment) + 1,
        None => 0,
    }
}

/// How many bytes a byte of a path takes in a URL: line breaks and tabs are left out,
/// and what cannot stand in a path is written as a percent sign and two digits.
pub open spec fn room_for_byte(b: u8) -> int {
    if b == 9 || b == 10 || b == 13 {
        0
    } else if b <= 32 || b >= 127 || b == 34 || b == 35 || b == 60 || b == 62 || b == 63 || b == 96
        || b == 123 || b == 125 {
        3
    } else {
        1
    }
}

/// How many bytes a path takes in a URL, when none of its components is `.` or `..`.
pub open spec fn room_for(path: Seq<u8>) -> int
    decreases path.len(),
{
    if path.len() == 0 {
        0
    } else {
        room_for(path.drop_last()) + room_for_byte(path.last())
    }
}

/// The text is a URL whose path can be replaced: all positions still count in 32 bits,
/// with up to four bytes for the slash that a path starts with.
pub open spec fn has_room(url: Seq<char>, path: Seq<char>) -> bool {
    url_parts(url) matches Ok(parts) && last_position(parts) <= LAST_POSITION && last_position(
        parts,
    ) - bytes_in(parts.path) + room_for(vstd::utf8::encode_utf8(path)) + 4 <= LAST_POSITION
}

/// The text is a URL whose scheme can be replaced: all positions still count in 32
/// bits.
pub open spec fn has_room_for_scheme(url: Seq<char>, scheme: Seq<char>) -> bool {
    url_parts(url) matches Ok(parts) && last_position(parts) <= LAST_POSITION && last_position(
        parts,
    ) - bytes_in(parts.scheme) + bytes_in(scheme) <= LAST_POSITION
}

/// The URL with another path. There is none when its positions could not be counted.
pub open spec fn path_replaced(url: Option<Seq<char>>, path: Seq<char>) -> Option<Seq<char>> {
    match url {
        Some(url) => if has_room(url, path) {
            url_with_path(url, path)
        } else {
            None
        },
        None => None,
    }
}

/// The URL with another scheme. There is none when its positions could not be counted,
/// or the scheme cannot replace its own.
pub open spec fn scheme_replaced(url: Option<Seq<char>>, scheme: Seq<char>) -> Option<Seq<char>> {
    match url {
        Some(url) => if has_room_for_scheme(url, scheme) {
            url_with_scheme(url, scheme)
        } else {
            None
        },
        None => None,
    }
}

fn count_room(path: &str) -> (r: u128)
    ensures
        r == room_for(vstd::utf8::encode_utf8(path@)),
        r <= 3 * usize::MAX,
{
    let bytes = path.as_bytes();
    let mut r: u128 = 0;
    let mut i: usize = 0;
    while i < bytes.len()
        invariant
            i <= bytes@.len(),
            r == room_for(bytes@.take(i as int)),
            r <= 3 * i,
        decreases bytes@.len() - i,
    {
        assert(bytes@.take(i + 1).drop_last() =~= bytes@.take(i as int));
        let b: u8 = bytes[i];
        if b == 9 || b == 10 || b == 13 {
        } else if b <= 32 || b >= 127 || b == 34 || b == 35 || b == 60 || b == 62 || b == 63 || b
            == 96 || b == 123 || b == 125 {
            r = r + 3;
        } else {
            r = r + 1;
        }
        i = i + 1;
    }
    assert(bytes@.take(i as int) =~= bytes@);
    r
}

/// Whether a URL still counts in 32 bits when `removed` bytes of it become `added`.
fn counts(parts: &UrlParts, removed: usize, added: u128) -> (r: bool)
    requires
        added <= 3 * usize::MAX + 4,
    ensures
        r == (last_position(parts.model()) <= LAST_POSITION && last_position(parts.model()) - removed
            + added <= LAST_POSITION),
{
    let whole: u128 = byte_length(parts.text.as_str()) as u128;
    let uncounted: u128 = match &parts.fragment {
        Some(fragment) => byte_length(fragment.as_str()) as u128 + 1,
        None => 0,
    };
    let limit: u128 = LAST_POSITION as u128 + uncounted;
    whole <= limit && whole + added <= limit + removed as u128
}

/// Whether the path of the URL that a text holds can be replaced.
pub fn offers_room(url: &str, path: &str) -> (r: bool)
    ensures
        r == has_room(url@, path@),
{
    match parse_url(url) {
        Ok(parts) => counts(&parts, byte_length(parts.path.as_str()), count_room(path) + 4),
        Err(_) => false,
    }
}

/// Whether the scheme of the URL that a text holds can be replaced.
pub fn offers_room_for_scheme(url: &str, scheme: &str) -> (r: bool)
    ensures
        r == has_room_for_scheme(url@, scheme@),
{
    match parse_url(url) {
        Ok(parts) => counts(
            &parts,
            byte_length(parts.scheme.as_str()),
            byte_length(scheme) as u128,
        ),
        Err(_) => false,
    }
}

pub open spec fn query_dropped(url: Option<Seq<char>>) -> Option<Seq<char>> {
    match url {
        Some(url) => url_without_query(url),
        None => None,
    }
}

pub open spec fn fragment_dropped(url: Option<Seq<char>>) -> Option<Seq<char>> {
    match url {
        Some(url) => url_without_fragment(url),
        None => None,
    }
}

/// Replaces the path of a URL.
pub fn replace_path(url: Option<String>, path: &str) -> (r: Option<String>)
    ensures
        maybe_text(r) == path_replaced(maybe_text(url), path@),
        match url {
            Some(url) => (r is Some <==> has_room(url@, path@)) && (r is Some ==> differs_in_path(
                url@,
                r->0@,
            )),
            None => r is None,
        },
{
    match url {
        Some(url) => if offers_room(url.as_str(), path) {
            put_path(url.as_str(), path)
        } else {
            None
        },
        None => None,
    }
}

/// Replaces the scheme of a URL.
pub fn replace_scheme(url: Option<String>, scheme: &str) -> (r: Option<String>)
    ensures
        maybe_text(r) == scheme_replaced(maybe_text(url), scheme@),
        match url {
            Some(url) => has_room_for_scheme(url@, scheme@) && is_web_url(url@)
                && is_web_scheme(scheme@) ==> r is Some && differs_in_scheme(url@, r->0@, scheme@),
            None => r is None,
        },
{
    match url {
        Some(url) => if offers_room_for_scheme(url.as_str(), scheme) {
            put_scheme(url.as_str(), scheme)
        } else {
            None
        },
        None => None,
    }
}

/// Removes the query of a URL.
pub fn remove_query(url: Option<String>) -> (r: Option<String>)
    ensures
        maybe_text(r) == query_dropped(maybe_text(url)),
        match url {
            Some(url) => (r is Some <==> url_parts(url@) is Ok) && (r is Some ==> lacks_query(
                url@,
                r->0@,
            )),
            None => r is None,
        },
{
    match url {
        Some(url) => drop_query(url.as_str()),
        None => None,
    }
}

/// Removes the fragment of a URL.
pub fn remove_fragment(url: Option<String>) -> (r: Option<String>)
    ensures
        maybe_text(r) == fragment_dropped(maybe_text(url)),
        match url {
            Some(url) => (r is Some <==> url_parts(url@) is Ok) && (r is Some ==> lacks_fragment(
                url@,
                r->0@,
            )),
            None => r is None,
        },
{
    match url {
        Some(url) => drop_fragment(url.as_str()),
        None => None,
    }
}

/// When the first text is the URL of a server, the other one is a URL of the same
/// server: they agree in scheme, host, port and user.
pub open spec fn same_server(server: Seq<char>, url: Seq<char>) -> bool {
    is_web_url(server) ==> {
        let before = parts_in(server);
        let after = parts_in(url);
        &&& url_parts(url) is Ok
        &&& after.scheme == before.scheme
        &&& after.host == before.host
        &&& after.port == before.port
        &&& after.username == before.username
        &&& after.password == before.password
    }
}

/// The URL of a file on the server.
pub open spec fn file_url(server: Seq<char>, path: Seq<char>) -> Option<Seq<char>> {
    query_dropped(path_replaced(Some(server), path))
}

/// The URL of a file on the server.
pub fn server_file_url(server: &str, path: &str) -> (r: Option<String>)
    ensures
        maybe_text(r) == file_url(server@, path@),
        is_web_url(server@) ==> (r is Some <==> has_room(server@, path@)),
        r is Some ==> same_server(server@, r->0@),
{
    remove_query(replace_path(Some(server.to_owned()), path))
}

/// A path that the server answers on behalf of a launch ticket.
pub open spec fn routed_path(build: &Build, ticket: Seq<char>, path: Seq<char>) -> Seq<char> {
    build.value(Setting::LaunchPrefix) + ticket + path
}

/// A path that the server answers on behalf of a launch ticket.
pub fn ticket_routed_path(build: &Build, ticket: &str, path: &str) -> (r: String)
    ensures
        r@ == routed_path(build, ticket@, path@),
{
    let start = concat(build.get(Setting::LaunchPrefix), ticket);
    concat(start.as_str(), path)
}

/// The URL of the game manifest.
pub open spec fn manifest_url(build: &Build, server: Seq<char>) -> Option<Seq<char>> {
    file_url(server, build.value(Setting::GameManifestPath))
}

/// The URL of the game manifest.
pub fn game_manifest_url(build: &Build, server: &str) -> (r: Option<String>)
    ensures
        maybe_text(r) == manifest_url(build, server@),
        is_web_url(server@) ==> (r is Some <==> has_room(
            server@,
            build.value(Setting::GameManifestPath),
        )),
        r is Some ==> same_server(server@, r->0@),
{
    server_file_url(server, build.get(Setting::GameManifestPath))
}

/// Where the game manifest is fetched from: on behalf of a ticket, if there is one.
pub open spec fn fetched_manifest_url(
    build: &Build,
    server: Seq<char>,
    ticket: Option<Seq<char>>,
) -> Option<Seq<char>> {
    match ticket {
        Some(ticket) => path_replaced(
            manifest_url(build, server),
            routed_path(build, ticket, build.value(Setting::GameManifestPath)),
        ),
        None => manifest_url(build, server),
    }
}

/// Where the game manifest is fetched from.
pub fn manifest_source(build: &Build, server: &str, ticket: &Option<String>) -> (r: Option<String>)
    ensures
        maybe_text(r) == fetched_manifest_url(build, server@, maybe_text(*ticket)),
        is_web_url(server@) ==> (r is Some <==> has_room(
            server@,
            build.value(Setting::GameManifestPath),
        ) && (ticket matches Some(ticket) ==> has_room(
            manifest_url(build, server@)->0,
            routed_path(build, ticket@, build.value(Setting::GameManifestPath)),
        ))),
        r is Some ==> same_server(server@, r->0@),
{
    let url = game_manifest_url(build, server);
    match ticket {
        Some(ticket) => {
            let path = ticket_routed_path(
                build,
                ticket.as_str(),
                build.get(Setting::GameManifestPath),
            );
            replace_path(url, path.as_str())
        },
        None => url,
    }
}

/// Where a launch is reported to, for one of the report paths.
pub open spec fn report_url(
    build: &Build,
    server: Seq<char>,
    ticket: Seq<char>,
    path: Seq<char>,
) -> Option<Seq<char>> {
    path_replaced(
        fragment_dropped(query_dropped(Some(server))),
        routed_path(build, ticket, path),
    )
}

fn launch_report_url(build: &Build, server: &str, ticket: &str, path: &str) -> (r: Option<String>)
    ensures
        maybe_text(r) == report_url(build, server@, ticket@, path@),
        is_web_url(server@) ==> (r is Some <==> has_room(
            fragment_dropped(query_dropped(Some(server@)))->0,
            routed_path(build, ticket@, path@),
        )),
        r is Some ==> same_server(server@, r->0@),
{
    let origin = remove_fragment(remove_query(Some(server.to_owned())));
    let routed = ticket_routed_path(build, ticket, path);
    replace_path(origin, routed.as_str())
}

/// Where a launch is acknowledged.
pub fn acknowledgement_url(build: &Build, server: &str, ticket: &str) -> (r: Option<String>)
    ensures
        maybe_text(r) == report_url(build, server@, ticket@, build.value(Setting::LaunchAckPath)),
        is_web_url(server@) ==> (r is Some <==> has_room(
            fragment_dropped(query_dropped(Some(server@)))->0,
            routed_path(build, ticket@, build.value(Setting::LaunchAckPath)),
        )),
        r is Some ==> same_server(server@, r->0@),
{
    launch_report_url(build, server, ticket, build.get(Setting::LaunchAckPath))
}

/// Where the progress of a launch is reported.
pub fn status_url(build: &Build, server: &str, ticket: &str) -> (r: Option<String>)
    ensures
        maybe_text(r) == report_url(build, server@, ticket@, build.value(Setting::LaunchStatusPath)),
        is_web_url(server@) ==> (r is Some <==> has_room(
            fragment_dropped(query_dropped(Some(server@)))->0,
            routed_path(build, ticket@, build.value(Setting::LaunchStatusPath)),
        )),
        r is Some ==> same_server(server@, r->0@),
{
    launch_report_url(build, server, ticket, build.get(Setting::LaunchStatusPath))
}

/// One decimal number of a dotted address.
pub open spec fn is_octet(s: Seq<char>) -> bool {
    &&& s.len() > 0
    &&& all_digits(s)
    &&& decimal(s) <= 255
    &&& s.len() > 1 ==> s[0] != '0'
}

/// The host is an address of the loopback network `127.0.0.0/8` in dotted decimal
/// form. (In a URL an IPv6 address stands in brackets, and is not looked into.)
pub open spec fn is_loopback_host(host: Seq<char>) -> bool {
    let parts = pieces(host, '.');
    &&& parts.len() == 4
    &&& forall|i: int| 0 <= i < 4 ==> is_octet(#[trigger] parts[i])
    &&& decimal(parts[0]) == 127
}

/// Whether a host is an address of the loopback network.
pub fn loopback_host(host: &str) -> (r: bool)
    ensures
        r == is_loopback_host(host@),
{
    let parts = split(letters(host).as_slice(), '.');
    let ghost all = views(parts@);
    if parts.len() != 4 {
        return false;
    }
    let mut i: usize = 0;
    let mut first: u64 = 0;
    while i < 4
        invariant
            i <= 4,
            parts@.len() == 4,
            all == views(parts@),
            all == pieces(host@, '.'),
            forall|j: int| 0 <= j < i ==> is_octet(#[trigger] all[j]),
            i > 0 ==> first == decimal(all[0]),
        decreases 4 - i,
    {
        let octet = &parts[i];
        assert(octet@ == all[i as int]);
        match parse_decimal(octet.as_slice(), 255) {
            None => {
                assert(!is_octet(all[i as int]));
                return false;
            },
            Some(value) => {
                if octet.len() > 1 && octet[0] == '0' {
                    assert(!is_octet(all[i as int]));
                    return false;
                }
                if i == 0 {
                    first = value;
                }
            },
        }
        assert(is_octet(all[i as int]));
        i = i + 1;
    }
    first == 127
}

} // verus!
