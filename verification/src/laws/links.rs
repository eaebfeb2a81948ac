//! The links that start the launcher, and the server that it trusts.
use crate::arguments::{argument_fault, passwordless};
use crate::laws::manifest::lemma_pieces_of_both_sides;
use crate::links::{
    is_launch_link, is_ticket, is_token_letter, is_username, read_fields, repair_request,
    request_of, server_fault, unslashed, LinkFault, Request, ServerFault,
};
use crate::p2p::transport::{ticket_in, transport_scheme};
use crate::settings::{Build, Setting};
use crate::text::{
    decimal, decimal_text, is_digit, law_decimal_round_trip, lemma_pieces_append, pieces,
};
use crate::web::{is_loopback_host, is_octet, routed_path, UrlModel};
use vstd::prelude::*;
use vstd::utf8::encode_utf8;

verus! {

/// The characters of tickets are these.
pub proof fn law_letters_of_tickets(c: char)
    ensures
        is_token_letter(c)
            <==> "abcdefghijklmnopqrstuvwxyzABCDEFGHIJKLMNOPQRSTUVWXYZ0123456789~-_"@.contains(c),
{
    reveal_strlit("abcdefghijklmnopqrstuvwxyzABCDEFGHIJKLMNOPQRSTUVWXYZ0123456789~-_");
    let all = "abcdefghijklmnopqrstuvwxyzABCDEFGHIJKLMNOPQRSTUVWXYZ0123456789~-_"@;
    let n = c as u32;
    if 'a' <= c && c <= 'z' {
        assert(all[n - 97] == c);
    } else if 'A' <= c && c <= 'Z' {
        assert(all[n - 65 + 26] == c);
    } else if '0' <= c && c <= '9' {
        assert(all[n - 48 + 52] == c);
    } else if c == '~' {
        assert(all[62] == c);
    } else if c == '-' {
        assert(all[63] == c);
    } else if c == '_' {
        assert(all[64] == c);
    }
}

/// A ticket is its mark and up to 124 characters of tickets.
pub proof fn law_tickets(rest: Seq<char>)
    ensures
        is_ticket(seq!['d', 'k', 'l', '~'] + rest) <==> rest.len() <= 124 && forall|i: int|
            0 <= i < rest.len() ==> is_token_letter(#[trigger] rest[i]),
{
    reveal_strlit("dkl~");
    let start = seq!['d', 'k', 'l', '~'];
    let s = start + rest;
    assert("dkl~"@ =~= s.subrange(0, 4));
    if is_ticket(s) {
        assert forall|i: int| 0 <= i < rest.len() implies is_token_letter(#[trigger] rest[i]) by {
            assert(is_token_letter(s[i + 4]));
        }
    }
    if rest.len() <= 124 && forall|i: int|
        0 <= i < rest.len() ==> is_token_letter(#[trigger] rest[i]) {
        assert forall|i: int| 0 <= i < s.len() implies is_token_letter(#[trigger] s[i]) by {
            if i >= 4 {
                assert(is_token_letter(rest[i - 4]));
            }
        }
    }
}

/// Nothing without the mark is a ticket.
pub proof fn law_tickets_are_marked(s: Seq<char>)
    requires
        is_ticket(s),
    ensures
        s.len() >= 4,
        s[0] == 'd' && s[1] == 'k' && s[2] == 'l' && s[3] == '~',
        s.len() <= 128,
{
    reveal_strlit("dkl~");
    assert(s.subrange(0, 4)[0] == 'd' && s.subrange(0, 4)[1] == 'k' && s.subrange(0, 4)[2] == 'l'
        && s.subrange(0, 4)[3] == '~');
}

/// A player's name holds something, up to 64 bytes of it, and no control codes.
pub proof fn law_names_of_players(s: Seq<char>)
    ensures
        is_username(s) <==> s.len() >= 1 && encode_utf8(s).len() <= 64 && forall|i: int|
            0 <= i < s.len() ==> (#[trigger] s[i]) as u32 >= 32 && !(127 <= s[i] as u32 <= 159),
{
    if is_username(s) {
        assert forall|i: int| 0 <= i < s.len() implies (#[trigger] s[i]) as u32 >= 32 && !(127
            <= s[i] as u32 <= 159) by {
            assert(!crate::text::is_control(s[i]));
        }
    }
}

/// The fields of a link are in order: known ones alone, none but the arguments twice, and
/// the mode is the one that there is.
pub open spec fn are_fields(fields: Seq<(Seq<char>, Seq<char>)>) -> bool {
    &&& forall|i: int|
        0 <= i < fields.len() ==> {
            let (key, value) = #[trigger] fields[i];
            ||| key == "ticket"@
            ||| key == "username"@
            ||| key == "mode"@ && value == "patched"@
            ||| key == "arg"@
        }
    &&& forall|i: int, j: int|
        0 <= i < j < fields.len() && (#[trigger] fields[i]).0 == (#[trigger] fields[j]).0
            ==> fields[i].0 == "arg"@
}

/// The values of one field, in order.
pub open spec fn values_of(fields: Seq<(Seq<char>, Seq<char>)>, key: Seq<char>) -> Seq<Seq<char>>
    decreases fields.len(),
{
    if fields.len() == 0 {
        Seq::empty()
    } else if fields.last().0 == key {
        values_of(fields.drop_last(), key).push(fields.last().1)
    } else {
        values_of(fields.drop_last(), key)
    }
}

proof fn lemma_keys_differ()
    ensures
        "ticket"@ != "username"@,
        "ticket"@ != "mode"@,
        "ticket"@ != "arg"@,
        "username"@ != "mode"@,
        "username"@ != "arg"@,
        "mode"@ != "arg"@,
{
    reveal_strlit("ticket");
    reveal_strlit("username");
    reveal_strlit("mode");
    reveal_strlit("arg");
    assert("ticket"@.len() == 6 && "username"@.len() == 8 && "mode"@.len() == 4 && "arg"@.len()
        == 3);
}

proof fn lemma_values(fields: Seq<(Seq<char>, Seq<char>)>, key: Seq<char>)
    ensures
        values_of(fields, key).len() == 0 <==> forall|i: int|
            0 <= i < fields.len() ==> (#[trigger] fields[i]).0 != key,
    decreases fields.len(),
{
    if fields.len() > 0 {
        let front = fields.drop_last();
        lemma_values(front, key);
        if fields.last().0 == key {
            assert(fields[fields.len() - 1].0 == key);
        } else {
            if forall|i: int| 0 <= i < front.len() ==> (#[trigger] front[i]).0 != key {
                assert forall|i: int| 0 <= i < fields.len() implies (#[trigger] fields[i]).0
                    != key by {
                    if i < front.len() {
                        assert(front[i] == fields[i]);
                    }
                }
            }
            if forall|i: int| 0 <= i < fields.len() ==> (#[trigger] fields[i]).0 != key {
                assert forall|i: int| 0 <= i < front.len() implies (#[trigger] front[i]).0 != key by {
                    assert(front[i] == fields[i]);
                }
            }
        }
    }
}

/// The fields of a link are read in whatever order they stand: the ticket and the name of
/// the player are the values of those fields, and the arguments keep their order.
pub proof fn law_fields_are_read(fields: Seq<(Seq<char>, Seq<char>)>)
    ensures
        read_fields(fields) is Some <==> are_fields(fields),
        read_fields(fields) matches Some(read) ==> {
            let tickets = values_of(fields, "ticket"@);
            let names = values_of(fields, "username"@);
            &&& read.ticket == if tickets.len() == 0 {
                None
            } else {
                Some(tickets[0])
            }
            &&& read.username == if names.len() == 0 {
                None
            } else {
                Some(names[0])
            }
            &&& read.command_args == values_of(fields, "arg"@)
            &&& read.mode_seen == (values_of(fields, "mode"@).len() > 0)
            &&& tickets.len() <= 1 && names.len() <= 1
        },
    decreases fields.len(),
{
    lemma_keys_differ();
    if fields.len() > 0 {
        let front = fields.drop_last();
        let n = fields.len() - 1;
        law_fields_are_read(front);
        lemma_values(front, "ticket"@);
        lemma_values(front, "username"@);
        lemma_values(front, "mode"@);
        let key = fields[n].0;
        assert(fields.last() == fields[n]);
        if are_fields(fields) {
            assert(are_fields(front)) by {
                assert forall|i: int| 0 <= i < front.len() implies {
                    let (key, value) = #[trigger] front[i];
                    ||| key == "ticket"@
                    ||| key == "username"@
                    ||| key == "mode"@ && value == "patched"@
                    ||| key == "arg"@
                } by {
                    assert(front[i] == fields[i]);
                }
                assert forall|i: int, j: int|
                    0 <= i < j < front.len() && (#[trigger] front[i]).0 == (
                    #[trigger] front[j]).0 implies front[i].0 == "arg"@ by {
                    assert(fields[i] == front[i] && fields[j] == front[j]);
                }
            }
            if key != "arg"@ {
                assert forall|i: int| 0 <= i < front.len() implies (#[trigger] front[i]).0 != key by {
                    assert(fields[i] == front[i]);
                    if fields[i].0 == fields[n].0 {
                        assert(fields[i].0 == "arg"@);
                    }
                }
            }
        }
        if read_fields(fields) is Some {
            assert(are_fields(fields)) by {
                assert forall|i: int| 0 <= i < fields.len() implies {
                    let (key, value) = #[trigger] fields[i];
                    ||| key == "ticket"@
                    ||| key == "username"@
                    ||| key == "mode"@ && value == "patched"@
                    ||| key == "arg"@
                } by {
                    if i < n {
                        assert(front[i] == fields[i]);
                    }
                }
                assert forall|i: int, j: int|
                    0 <= i < j < fields.len() && (#[trigger] fields[i]).0 == (
                    #[trigger] fields[j]).0 implies fields[i].0 == "arg"@ by {
                    assert(front[i] == fields[i]);
                    if j < n {
                        assert(front[j] == fields[j]);
                    }
                }
            }
        }
    }
}

/// A launch is accepted exactly when the link is addressed to the launcher and brings a
/// ticket, a name, and arguments that a player may add; and then it is what was sent.
pub proof fn law_right_launches_are_accepted(parts: UrlModel)
    ensures
        ({
            let tickets = values_of(parts.fields, "ticket"@);
            let names = values_of(parts.fields, "username"@);
            let arguments = passwordless(values_of(parts.fields, "arg"@));
            &&& request_of(parts) is Ok <==> {
                &&& parts.scheme == "project-knockout"@
                &&& parts.host == Some("launch"@)
                &&& parts.username.len() == 0
                &&& parts.password is None
                &&& parts.port is None
                &&& parts.path.len() == 0 || parts.path == "/"@
                &&& parts.fragment is None
                &&& are_fields(parts.fields)
                &&& tickets.len() == 1 && is_ticket(tickets[0])
                &&& names.len() == 1 && is_username(names[0])
                &&& argument_fault(arguments) is None
            }
            &&& request_of(parts) matches Ok(request) ==> request == (Request {
                ticket: tickets[0],
                username: names[0],
                command_args: arguments,
            })
        }),
{
    law_fields_are_read(parts.fields);
}

/// What is wrong with a link is said in this order.
pub proof fn law_faults_of_links(parts: UrlModel)
    requires
        is_launch_link(parts),
    ensures
        !are_fields(parts.fields) ==> request_of(parts) == Err::<Request, LinkFault>(
            LinkFault::Field,
        ),
        are_fields(parts.fields) && values_of(parts.fields, "ticket"@).len() == 0 ==> request_of(
            parts,
        ) == Err::<Request, LinkFault>(LinkFault::NoTicket),
        are_fields(parts.fields) && values_of(parts.fields, "ticket"@).len() == 1 && !is_ticket(
            values_of(parts.fields, "ticket"@)[0],
        ) ==> request_of(parts) == Err::<Request, LinkFault>(LinkFault::Ticket),
        are_fields(parts.fields) && values_of(parts.fields, "ticket"@).len() == 1 && is_ticket(
            values_of(parts.fields, "ticket"@)[0],
        ) && values_of(parts.fields, "username"@).len() == 0 ==> request_of(parts) == Err::<
            Request,
            LinkFault,
        >(LinkFault::NoUsername),
{
    law_fields_are_read(parts.fields);
}

/// A link to the host of repairs is a repair when it is one of two texts, and refused
/// otherwise; any other host asks for none.
pub proof fn law_repair_links(uri: Seq<char>, host: Option<Seq<char>>)
    ensures
        repair_request("project-knockout://repair"@, Some("repair"@)) == Ok::<bool, LinkFault>(true),
        repair_request("project-knockout://repair/"@, Some("repair"@)) == Ok::<bool, LinkFault>(
            true,
        ),
        host != Some("repair"@) ==> repair_request(uri, host) == Ok::<bool, LinkFault>(false),
        uri != "project-knockout://repair"@ && uri != "project-knockout://repair/"@
            ==> repair_request(uri, Some("repair"@)) == Err::<bool, LinkFault>(LinkFault::Repair),
{
}

/// A server is trusted exactly when it is an origin on the network behind HTTPS, or one
/// on this machine behind HTTP.
pub proof fn law_trusted_servers(parts: UrlModel)
    ensures
        server_fault(parts) is None <==> parts.host is Some && parts.query is None
            && parts.fragment is None && (parts.scheme == "https"@ || (parts.scheme == "http"@
            && is_loopback_host(parts.host->0))),
        parts.scheme != "https"@ && parts.scheme != "http"@ ==> server_fault(parts) == Some(
            ServerFault::Insecure,
        ),
{
}

/// Four numbers with dots between them are an address of this machine exactly when the
/// first is 127.
pub proof fn law_loopback_addresses(a: int, b: int, c: int, d: int)
    requires
        0 <= a <= 255,
        0 <= b <= 255,
        0 <= c <= 255,
        0 <= d <= 255,
    ensures
        is_loopback_host(
            decimal_text(a) + seq!['.'] + decimal_text(b) + seq!['.'] + decimal_text(c) + seq!['.']
                + decimal_text(d),
        ) <==> a == 127,
{
    lemma_octet(a);
    lemma_octet(b);
    lemma_octet(c);
    lemma_octet(d);
    let dot = seq!['.'];
    let two = decimal_text(a) + dot + decimal_text(b);
    let three = two + dot + decimal_text(c);
    let four = three + dot + decimal_text(d);
    lemma_pieces_of_both_sides(decimal_text(a), decimal_text(b), '.');
    lemma_pieces_of_both_sides(two, decimal_text(c), '.');
    lemma_pieces_of_both_sides(three, decimal_text(d), '.');
    let parts = pieces(four, '.');
    assert(parts =~= seq![decimal_text(a), decimal_text(b), decimal_text(c), decimal_text(d)]);
}

proof fn lemma_octet(n: int)
    requires
        0 <= n <= 255,
    ensures
        is_octet(decimal_text(n)),
        decimal(decimal_text(n)) == n,
        pieces(decimal_text(n), '.') == seq![decimal_text(n)],
{
    let s = decimal_text(n);
    law_decimal_round_trip(n);
    assert(!s.contains('.')) by {
        if s.contains('.') {
            let k = choose|k: int| 0 <= k < s.len() && s[k] == '.';
            assert(is_digit(s[k]));
        }
    }
    lemma_pieces_append(Seq::<char>::empty(), s, '.');
    assert(Seq::<char>::empty() + s =~= s);
    assert(pieces(s, '.') =~= seq![s]);
    lemma_no_leading_zero(n);
}

proof fn lemma_no_leading_zero(n: int)
    requires
        0 <= n,
    ensures
        decimal_text(n).len() >= 1,
        n > 0 ==> decimal_text(n)[0] != '0',
        n < 10 ==> decimal_text(n).len() == 1,
        decimal_text(n).len() > 1 ==> n >= 10,
    decreases n,
{
    if n >= 10 {
        lemma_no_leading_zero(n / 10);
        assert(decimal_text(n)[0] == decimal_text(n / 10)[0]);
    }
}

/// All the slashes at the end of a path go, and nothing else.
pub proof fn law_slashes_at_the_end_go(path: Seq<char>, slashes: Seq<char>)
    requires
        path.len() > 0 ==> path.last() != '/',
        forall|i: int| 0 <= i < slashes.len() ==> #[trigger] slashes[i] == '/',
    ensures
        unslashed(path + slashes) == path,
    decreases slashes.len(),
{
    let s = path + slashes;
    if slashes.len() == 0 {
        assert(s =~= path);
    } else {
        assert(slashes[slashes.len() - 1] == '/');
        assert(s.last() == '/');
        assert(s.drop_last() =~= path + slashes.drop_last());
        law_slashes_at_the_end_go(path, slashes.drop_last());
    }
}

/// The ticket of a launch stands in its URL where the launcher put it.
pub proof fn law_ticket_is_found_in_the_url(build: &Build, ticket: Seq<char>, rest: Seq<char>)
    requires
        ticket.len() > 0,
        !ticket.contains('/'),
        rest.len() > 0 ==> rest[0] == '/',
    ensures
        ticket_in(build, routed_path(build, ticket, rest)) == Some(ticket),
{
    let prefix = build.value(Setting::LaunchPrefix);
    let path = routed_path(build, ticket, rest);
    assert(prefix =~= path.subrange(0, prefix.len() as int));
    let tail = path.skip(prefix.len() as int);
    assert(tail =~= ticket + rest);
    lemma_pieces_append(Seq::<char>::empty(), ticket, '/');
    assert(Seq::<char>::empty() + ticket =~= ticket);
    assert(pieces(ticket, '/') =~= seq![ticket]);
    if rest.len() == 0 {
        assert(tail =~= ticket);
    } else {
        assert(tail =~= ticket + seq!['/'] + rest.skip(1));
        lemma_pieces_of_both_sides(ticket, rest.skip(1), '/');
    }
}

/// The transport is protected wherever the launch was, and unprotected on this machine
/// alone.
pub proof fn law_scheme_of_the_transport(parts: UrlModel)
    ensures
        parts.scheme == "https"@ ==> transport_scheme(parts) == Some("wss"@),
        parts.scheme == "http"@ && parts.host == Some("localhost"@) ==> transport_scheme(parts)
            == Some("ws"@),
        parts.scheme == "http"@ && parts.host is Some && is_loopback_host(parts.host->0)
            ==> transport_scheme(parts) == Some("ws"@),
        transport_scheme(parts) is Some ==> parts.scheme == "https"@ || (parts.scheme == "http"@
            && parts.host is Some && (parts.host->0 == "localhost"@ || is_loopback_host(
            parts.host->0,
        ))),
{
    reveal_strlit("http");
    reveal_strlit("https");
    assert("http"@.len() == 4 && "https"@.len() == 5);
}

/// The numbers of an address are written without needless zeros.
pub proof fn law_octets_have_no_leading_zeros(s: Seq<char>)
    requires
        s.len() > 0,
    ensures
        !is_octet(seq!['0'] + s),
        is_octet(seq!['0']),
{
    let padded = seq!['0'] + s;
    assert(padded[0] == '0' && padded.len() > 1);
    let zero = seq!['0'];
    assert(zero.drop_last() =~= Seq::empty());
    assert(decimal(zero.drop_last()) == 0);
    assert(is_digit(zero[0]));
}

} // verus!
