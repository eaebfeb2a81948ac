//! What is read from links and addresses, and which addresses are made of them.
use crate::laws::links::{
    law_repair_links, law_right_launches_are_accepted, law_scheme_of_the_transport,
    law_ticket_is_found_in_the_url, law_trusted_servers, values_of,
};
use crate::links::{
    is_repair_protocol_uri, parse_protocol_uri, unslashed, validate_pinned_server_url, LinkError,
    LinkFault, ProtocolLaunch, ServerError, ServerFault,
};
use crate::p2p::transport::{
    launch_needs_bridge, open_transport, transport_for, LauncherProcess, Transport, TransportError,
    TransportFault,
};
use crate::settings::{Build, Setting};
use crate::text::texts;
use crate::web::{
    acknowledgement_url, game_manifest_url, has_room, has_room_for_scheme, is_loopback_host,
    is_web_url, manifest_source, parts_in, remove_fragment, remove_query, replace_path,
    replace_scheme, room_for, room_for_byte, routed_path, server_file_url, status_url, url_parts,
    url_with_path, url_without_fragment, url_without_query, UrlModel, UrlParts,
};
use vstd::prelude::*;
use vstd::utf8::encode_utf8;

verus! {

/// A link that was accepted names one ticket and one player, and both are handed on as
/// they were written; the arguments are those of the link.
pub proof fn law_reading_a_link(uri: &str, parts: UrlModel, r: Result<ProtocolLaunch, LinkError>)
    requires
        call_ensures(parse_protocol_uri, (uri,), r),
        url_parts(uri@) == Ok::<UrlModel, Seq<char>>(parts),
    ensures
        r is Ok ==> {
            let launch = r->Ok_0;
            &&& values_of(parts.fields, "ticket"@) == seq![launch.ticket@]
            &&& values_of(parts.fields, "username"@) == seq![launch.username@]
            &&& texts(launch.command_args@) == crate::arguments::passwordless(
                values_of(parts.fields, "arg"@),
            )
            &&& parts.scheme == "project-knockout"@ && parts.host == Some("launch"@)
        },
        parts.scheme != "project-knockout"@ || parts.host != Some("launch"@) ==> r is Err,
{
    law_right_launches_are_accepted(parts);
    if r is Ok {
        assert(values_of(parts.fields, "ticket"@) =~= seq![r->Ok_0.ticket@]);
        assert(values_of(parts.fields, "username"@) =~= seq![r->Ok_0.username@]);
    }
}

/// What cannot be read as a URL is refused with the reason, as a link to launch and as
/// one to repair.
pub proof fn law_unreadable_links(
    uri: &str,
    cause: Seq<char>,
    r: Result<ProtocolLaunch, LinkError>,
    repair: Result<bool, LinkError>,
)
    requires
        call_ensures(parse_protocol_uri, (uri,), r),
        call_ensures(is_repair_protocol_uri, (uri,), repair),
        url_parts(uri@) == Err::<UrlModel, Seq<char>>(cause),
    ensures
        r is Err && r->Err_0.fault() == (LinkFault::Unreadable { cause }),
        repair is Err && repair->Err_0.fault() == (LinkFault::Unreadable { cause }),
{
}

/// A link asks for a repair when it says that and nothing else.
pub proof fn law_asking_for_a_repair(uri: &str, parts: UrlModel, r: Result<bool, LinkError>)
    requires
        call_ensures(is_repair_protocol_uri, (uri,), r),
        url_parts(uri@) == Ok::<UrlModel, Seq<char>>(parts),
    ensures
        parts.host != Some("repair"@) ==> r == Ok::<bool, LinkError>(false),
        parts.host == Some("repair"@) && (uri@ == "project-knockout://repair"@ || uri@
            == "project-knockout://repair/"@) ==> r == Ok::<bool, LinkError>(true),
        parts.host == Some("repair"@) && uri@ != "project-knockout://repair"@ && uri@
            != "project-knockout://repair/"@ ==> r is Err && r->Err_0.fault() == LinkFault::Repair,
{
    law_repair_links(uri@, parts.host);
}

/// A server is pinned when it is reached by a protected connection, or is this machine,
/// and nothing is asked of it. The pinned server is that server.
pub proof fn law_pinning_a_server(value: &str, parts: UrlModel, r: Result<String, ServerError>)
    requires
        call_ensures(validate_pinned_server_url, (value,), r),
        url_parts(value@) == Ok::<UrlModel, Seq<char>>(parts),
    ensures
        ({
            let secure = parts.scheme == "https"@ || (parts.scheme == "http"@ && parts.host is Some
                && is_loopback_host(parts.host->0));
            let origin = parts.host is Some && parts.query is None && parts.fragment is None;
            let room = has_room(value@, unslashed(parts.path));
            &&& r is Ok <==> secure && origin && room
            &&& !secure ==> r is Err && r->Err_0.fault() == ServerFault::Insecure
            &&& secure && !origin ==> r is Err && r->Err_0.fault() == ServerFault::NotAnOrigin
            &&& secure && origin && !room ==> r is Err && r->Err_0.fault() == ServerFault::TooLong
            &&& r is Ok ==> {
                let pinned = parts_in(r->Ok_0@);
                &&& url_with_path(value@, unslashed(parts.path)) == Some(r->Ok_0@)
                &&& pinned.scheme == parts.scheme
                &&& pinned.host == parts.host
                &&& pinned.port == parts.port
                &&& pinned.username == parts.username
                &&& pinned.password == parts.password
                &&& pinned.query is None
                &&& pinned.fragment is None
            }
        }),
{
    law_trusted_servers(parts);
    if r is Ok {
        law_trusted_servers(parts_in(r->Ok_0@));
    }
}

/// A path of letters, digits and the like takes as much room as it has bytes, and no
/// path takes more than three times that.
pub proof fn law_room_for_paths(path: Seq<u8>)
    ensures
        0 <= room_for(path) <= 3 * path.len(),
        (forall|i: int|
            0 <= i < path.len() ==> 48 <= #[trigger] path[i] <= 57 || 65 <= path[i] <= 90 || 97
                <= path[i] <= 122 || path[i] == 45 || path[i] == 46 || path[i] == 47 || path[i] == 95
                || path[i] == 126) ==> room_for(path) == path.len(),
    decreases path.len(),
{
    if path.len() > 0 {
        law_room_for_paths(path.drop_last());
        let plain = forall|i: int|
            0 <= i < path.len() ==> 48 <= #[trigger] path[i] <= 57 || 65 <= path[i] <= 90 || 97
                <= path[i] <= 122 || path[i] == 45 || path[i] == 46 || path[i] == 47 || path[i] == 95
                || path[i] == 126;
        if plain {
            let front = path.drop_last();
            assert forall|i: int| 0 <= i < front.len() implies 48 <= #[trigger] front[i] <= 57 || 65
                <= front[i] <= 90 || 97 <= front[i] <= 122 || front[i] == 45 || front[i] == 46
                || front[i] == 47 || front[i] == 95 || front[i] == 126 by {
                assert(path[i] == front[i]);
            }
            let last = path[path.len() - 1];
            assert(room_for_byte(last) == 1);
        }
    }
}

/// There is room for a path in every URL of a usual length.
pub proof fn law_usual_addresses_have_room(url: Seq<char>, path: Seq<char>, scheme: Seq<char>)
    requires
        url_parts(url) is Ok,
        encode_utf8(parts_in(url).text).len() <= 1_000_000_000,
        encode_utf8(path).len() <= 1_000_000_000,
        encode_utf8(scheme).len() <= 1_000_000_000,
    ensures
        has_room(url, path),
        has_room_for_scheme(url, scheme),
{
    law_room_for_paths(encode_utf8(path));
}

/// The path of an address is replaced, and nothing else of it.
pub proof fn law_replacing_the_path(url: String, path: &str, r: Option<String>)
    requires
        call_ensures(replace_path, (Some(url), path), r),
        is_web_url(url@),
        has_room(url@, path@),
    ensures
        r is Some,
        r->0@ == url_with_path(url@, path@)->0,
        parts_in(r->0@).scheme == parts_in(url@).scheme,
        parts_in(r->0@).host == parts_in(url@).host,
        parts_in(r->0@).port == parts_in(url@).port,
        parts_in(r->0@).username == parts_in(url@).username,
        parts_in(r->0@).password == parts_in(url@).password,
        parts_in(r->0@).query == parts_in(url@).query,
        parts_in(r->0@).fragment == parts_in(url@).fragment,
{
}

/// The query and the fragment of an address are taken away, each without the other, and
/// nothing else of it.
pub proof fn law_taking_the_query_away(url: String, r: Option<String>, other: Option<String>)
    requires
        call_ensures(remove_query, (Some(url),), r),
        call_ensures(remove_fragment, (Some(url),), other),
        is_web_url(url@),
    ensures
        r is Some && parts_in(r->0@).query is None && parts_in(r->0@).fields.len() == 0,
        parts_in(r->0@).fragment == parts_in(url@).fragment,
        parts_in(r->0@).path == parts_in(url@).path,
        parts_in(r->0@).host == parts_in(url@).host,
        parts_in(r->0@).scheme == parts_in(url@).scheme,
        parts_in(r->0@).port == parts_in(url@).port,
        other is Some && parts_in(other->0@).fragment is None,
        parts_in(other->0@).query == parts_in(url@).query,
        parts_in(other->0@).path == parts_in(url@).path,
        parts_in(other->0@).host == parts_in(url@).host,
        parts_in(other->0@).scheme == parts_in(url@).scheme,
        parts_in(other->0@).port == parts_in(url@).port,
{
}

/// The scheme of an address is replaced, and nothing else of it but a port that becomes
/// the usual one.
pub proof fn law_replacing_the_scheme(url: String, scheme: &str, r: Option<String>)
    requires
        call_ensures(replace_scheme, (Some(url), scheme), r),
        is_web_url(url@),
        scheme@ == "http"@ || scheme@ == "https"@ || scheme@ == "ws"@ || scheme@ == "wss"@,
        has_room_for_scheme(url@, scheme@),
    ensures
        r is Some,
        parts_in(r->0@).scheme == scheme@,
        parts_in(r->0@).host == parts_in(url@).host,
        parts_in(r->0@).path == parts_in(url@).path,
        parts_in(r->0@).query == parts_in(url@).query,
        parts_in(r->0@).fragment == parts_in(url@).fragment,
        parts_in(r->0@).username == parts_in(url@).username,
        parts_in(r->0@).password == parts_in(url@).password,
{
}

/// Files are fetched from the trusted server: the address has the path of the file and
/// no query.
pub proof fn law_fetching_a_file(server: &str, path: &str, r: Option<String>)
    requires
        call_ensures(server_file_url, (server, path), r),
        is_web_url(server@),
        has_room(server@, path@),
    ensures
        r is Some,
        url_with_path(server@, path@) is Some ==> url_without_query(
            url_with_path(server@, path@)->0,
        ) == Some(r->0@),
        parts_in(r->0@).scheme == parts_in(server@).scheme,
        parts_in(r->0@).host == parts_in(server@).host,
        parts_in(r->0@).port == parts_in(server@).port,
{
}

/// The manifest of the game is fetched from its own path, on behalf of a ticket from
/// below the prefix for launches.
pub proof fn law_fetching_the_manifest(
    build: &Build,
    server: &str,
    ticket: String,
    plain: Option<String>,
    routed: Option<String>,
    direct: Option<String>,
    file: Option<String>,
    path: &str,
)
    requires
        call_ensures(manifest_source, (build, server, &None), plain),
        call_ensures(manifest_source, (build, server, &Some(ticket)), routed),
        call_ensures(game_manifest_url, (build, server), direct),
        call_ensures(server_file_url, (server, path), file),
        path@ == build.value(Setting::GameManifestPath),
    ensures
        plain is Some <==> file is Some,
        plain is Some ==> plain->0@ == file->0@,
        direct is Some <==> file is Some,
        direct is Some ==> direct->0@ == file->0@,
        routed is Some ==> file is Some && url_with_path(
            file->0@,
            build.value(Setting::LaunchPrefix) + ticket@ + path@,
        ) == Some(routed->0@),
{
}

/// The server is told of a launch on behalf of its ticket: an acknowledgement goes to
/// the path for acknowledgements, and everything else to that for reports.
pub proof fn law_reporting_a_launch(
    build: &Build,
    server: &str,
    ticket: &str,
    acknowledgement: Option<String>,
    status: Option<String>,
)
    requires
        call_ensures(acknowledgement_url, (build, server, ticket), acknowledgement),
        call_ensures(status_url, (build, server, ticket), status),
        is_web_url(server@),
    ensures
        acknowledgement is Some ==> url_without_query(server@) is Some && url_without_fragment(
            url_without_query(server@)->0,
        ) is Some && url_with_path(
            url_without_fragment(url_without_query(server@)->0)->0,
            build.value(Setting::LaunchPrefix) + ticket@ + build.value(Setting::LaunchAckPath),
        ) == Some(acknowledgement->0@),
        status is Some ==> url_without_query(server@) is Some && url_without_fragment(
            url_without_query(server@)->0,
        ) is Some && url_with_path(
            url_without_fragment(url_without_query(server@)->0)->0,
            build.value(Setting::LaunchPrefix) + ticket@ + build.value(Setting::LaunchStatusPath),
        ) == Some(status->0@),
        acknowledgement is Some ==> parts_in(acknowledgement->0@).host == parts_in(server@).host
            && parts_in(acknowledgement->0@).scheme == parts_in(server@).scheme,
        status is Some ==> parts_in(status->0@).host == parts_in(server@).host && parts_in(
            status->0@,
        ).scheme == parts_in(server@).scheme,
{
}

/// The bridge is needed for launches alone, and only where it is switched on.
pub proof fn law_needing_the_bridge(
    build: &Build,
    process: LauncherProcess,
    url: &str,
    parts: UrlModel,
    ticket: Seq<char>,
    rest: Seq<char>,
    r: Result<bool, TransportError>,
)
    requires
        call_ensures(launch_needs_bridge, (build, process, url), r),
        url_parts(url@) == Ok::<UrlModel, Seq<char>>(parts),
    ensures
        r is Ok,
        !process.enabled ==> !r->Ok_0,
        process.enabled && parts.path == build.value(Setting::LaunchPrefix) + ticket + rest
            ==> r->Ok_0,
        r->Ok_0 ==> process.enabled && build.value(Setting::LaunchPrefix).len() <= parts.path.len()
            && parts.path.take(build.value(Setting::LaunchPrefix).len() as int) == build.value(
            Setting::LaunchPrefix,
        ),
{
    let prefix = build.value(Setting::LaunchPrefix);
    if parts.path == prefix + ticket + rest {
        assert(prefix =~= parts.path.subrange(0, prefix.len() as int));
    }
    if prefix.is_prefix_of(parts.path) {
        assert(parts.path.take(prefix.len() as int) =~= parts.path.subrange(
            0,
            prefix.len() as int,
        ));
    }
}

/// The transport of a launch leads to the host of the launch, by a protected connection
/// unless that is this machine, shows the ticket there, and says nothing else.
pub proof fn law_opening_the_transport(
    build: &Build,
    url: &str,
    parts: &UrlParts,
    ticket: Seq<char>,
    rest: Seq<char>,
    r: Result<Transport, TransportError>,
)
    requires
        call_ensures(transport_for, (build, url, parts), r),
        url_parts(url@) == Ok::<UrlModel, Seq<char>>(parts.model()),
        parts.host is Some,
        ticket.len() > 0,
        !ticket.contains('/'),
        rest.len() > 0 ==> rest[0] == '/',
        parts.path@ == routed_path(build, ticket, rest),
    ensures
        ({
            let local = parts.host->0@ == "localhost"@ || is_loopback_host(parts.host->0@);
            let protected = parts.scheme@ == "https"@;
            let open = parts.scheme@ == "http"@ && local;
            &&& !protected && !open ==> r is Err && r->Err_0.fault() == TransportFault::Insecure
            &&& protected || open ==> r is Ok || r->Err_0.fault() == TransportFault::TooLong
            &&& r is Ok ==> {
                let after = parts_in(r->Ok_0.url@);
                &&& r->Ok_0.ticket@ == ticket
                &&& after.scheme == (if protected {
                    "wss"@
                } else {
                    "ws"@
                })
                &&& after.host == Some(parts.host->0@)
                &&& after.query is None
                &&& after.fragment is None
            }
        }),
{
    law_ticket_is_found_in_the_url(build, ticket, rest);
    law_scheme_of_the_transport(parts.model());
    reveal_strlit("https");
    reveal_strlit("http");
    assert("https"@.len() != "http"@.len());
}

/// The transport of a URL is that of its parts; a text that is no URL has none.
pub proof fn law_opening_by_the_url(
    build: &Build,
    url: &str,
    parts: &UrlParts,
    r: Result<Transport, TransportError>,
    s: Result<Transport, TransportError>,
)
    requires
        call_ensures(open_transport, (build, url), r),
        call_ensures(transport_for, (build, url, parts), s),
    ensures
        url_parts(url@) == Ok::<UrlModel, Seq<char>>(parts.model()) ==> (r is Ok <==> s is Ok) && (
        r is Ok ==> r->Ok_0.url@ == s->Ok_0.url@ && r->Ok_0.ticket@ == s->Ok_0.ticket@) && (r is Err
            ==> r->Err_0.fault() == s->Err_0.fault()),
        url_parts(url@) is Err ==> r is Err && r->Err_0.fault() == (TransportFault::Unreadable {
            cause: url_parts(url@)->Err_0,
        }),
{
}

} // verus!
