//! What the bridge does with what it hears.
use crate::laws::bridge::{
    gives_back, law_closed_pair_leaves_the_table, law_frame_is_understood,
    law_game_is_on_this_machine, law_guest_plays_with_one_game, law_match_replaces_the_last_one,
    law_packet_goes_to_the_game, law_pair_becomes_a_peer, law_server_tells_the_candidate,
    law_welcome_renews_the_credential,
};
use crate::p2p::bridge::{
    first_v4, peer_at, Action, Admission, Bridge, BridgeError, Effect, Forward, Note, Pair,
    PairStep, Peer, ServerStep,
};
use crate::p2p::protocol::{Address, Id, ServerMessage};
use crate::p2p::wire::{sequence_of, Cipher, PacketWindow};
use vstd::prelude::*;

verus! {

/// A new bridge knows nobody, has the credential that it was given, and is not connected.
pub proof fn law_starting_a_bridge(credential: String, now: u64, r: Bridge)
    requires
        call_ensures(Bridge::new, (credential, now), r),
    ensures
        r.credential == credential,
        r.peers@ == Seq::<Peer>::empty(),
        r.discovery is None && r.rendezvous is None && r.last_udp_ack is None,
        !r.connected && !r.initialized,
        r.started == now && r.last_server_received == now,
{
    assert(r.peers@ =~= Seq::<Peer>::empty());
}

/// Connections come and go without changing the table.
pub proof fn law_connecting(bridge: &mut Bridge, other: &mut Bridge, now: u64)
    requires
        call_ensures(Bridge::connect, (bridge, now), ()),
        call_ensures(Bridge::disconnect, (other,), ()),
    ensures
        final(bridge).connected,
        final(bridge).last_server_received == now,
        final(bridge).peers == old(bridge).peers,
        final(bridge).credential == old(bridge).credential,
        final(bridge).initialized == old(bridge).initialized,
        !final(other).connected,
        final(other).peers == old(other).peers,
        final(other).last_server_received == old(other).last_server_received,
{
}

/// What one side seals the other side opens, once: the same frame is refused when it
/// comes again.
pub proof fn law_sealing_and_opening(
    from: &mut Cipher,
    to: &mut Cipher,
    again: &mut Cipher,
    kind: u8,
    data: &[u8],
    frame: Vec<u8>,
    received: &[u8],
    role: u8,
    r: Option<(u8, Vec<u8>)>,
    s: Option<(u8, Vec<u8>)>,
)
    requires
        call_ensures(Cipher::seal, (from, kind, data), Some(frame)),
        call_ensures(Cipher::open, (to, received, role), r),
        call_ensures(Cipher::open, (again, received, role), s),
        *old(again) == *final(to),
        received@ == frame@,
        role == old(from).role,
        old(from).id == old(to).id,
        old(from).key == old(to).key,
        gives_back(old(from).key@),
        old(to).received.admits(old(from).sequence),
    ensures
        r is Some,
        (r->0).0 == kind,
        (r->0).1@ == data@,
        s is None,
        final(from).sequence == old(from).sequence + 1,
        final(to).sequence == old(to).sequence,
{
    law_frame_is_understood(*old(from), *old(to), kind, data@, role);
    law_frame_is_understood(*old(from), *final(to), kind, data@, role);
    let n = sequence_of(frame@);
    assert(r is Some);
    assert(old(to).received.receives(n, final(to).received));
    assert(final(to).received.holds(n));
    assert(!final(to).received.admits(n));
}

/// A number that was committed is not accepted again. Others that are not too old and
/// were not committed are.
pub proof fn law_committing_a_number(
    window: &mut PacketWindow,
    sequence: u64,
    other: u64,
    after: &PacketWindow,
    same: bool,
    r: bool,
)
    requires
        call_ensures(PacketWindow::commit, (window, sequence), ()),
        *after == *final(window),
        call_ensures(PacketWindow::accepts, (after, sequence), same),
        call_ensures(PacketWindow::accepts, (after, other), r),
        old(window).admits(sequence),
    ensures
        !same,
        other > sequence && (old(window).highest is Some ==> other > old(window).highest->0) ==> r,
        other < sequence && sequence - other >= 128 ==> !r,
        other != sequence && old(window).admits(other) && (other < sequence ==> sequence - other
            < 128) ==> r,
        !old(window).admits(other) ==> !r,
{
    assert(final(window).holds(sequence) <==> final(window).reaches(sequence) && sequence
        <= final(window).highest->0);
    assert(final(window).holds(other) <==> (final(window).reaches(other) && other
        <= final(window).highest->0 && (other == sequence || old(window).holds(other))));
}

/// The server tells where a peer may be; the first welcome is answered, and every one
/// renews the credential; a peer that is closed is gone; a sign of life changes nothing
/// but the time of the last one.
pub proof fn law_hearing_from_the_server(
    bridge: &mut Bridge,
    message: ServerMessage,
    addresses: &Vec<Address>,
    now: u64,
    i: int,
    r: Result<ServerStep, BridgeError>,
)
    requires
        call_ensures(Bridge::server, (bridge, message, addresses, now), r),
    ensures
        match message {
            ServerMessage::Candidate { id, address } => r == Ok::<ServerStep, BridgeError>(
                ServerStep::Nothing,
            ) && (peer_at(old(bridge).peers@, id@, i) ==> final(bridge).peers@[i].candidate == Some(
                address,
            ) && final(bridge).peers@.len() == old(bridge).peers@.len()),
            ServerMessage::Close { id } => r == Ok::<ServerStep, BridgeError>(ServerStep::Nothing)
                && (peer_at(old(bridge).peers@, id@, i) ==> final(bridge).peers@.len() == old(
                bridge,
            ).peers@.len() - 1 && forall|k: int|
                0 <= k < final(bridge).peers@.len() ==> (#[trigger] final(bridge).peers@[k]).id@
                    != id@),
            ServerMessage::Pong => r == Ok::<ServerStep, BridgeError>(ServerStep::Nothing)
                && final(bridge).peers == old(bridge).peers && final(bridge).credential == old(
                bridge,
            ).credential,
            ServerMessage::Welcome { id, key, resume, udp } => {
                &&& r == Ok::<ServerStep, BridgeError>(
                    if old(bridge).initialized {
                        ServerStep::Nothing
                    } else {
                        ServerStep::Announce
                    },
                )
                &&& final(bridge).credential == resume
                &&& final(bridge).initialized
                &&& final(bridge).peers == old(bridge).peers
                &&& udp is None ==> final(bridge).rendezvous is None
                &&& udp is Some ==> final(bridge).rendezvous == first_v4(addresses@)
            },
            ServerMessage::Pair { .. } => !(r is Ok) || r->Ok_0 is Pair,
        },
        !(message is Pair) ==> final(bridge).last_server_received == now,
{
    let heard = old(bridge).heard(now);
    match message {
        ServerMessage::Candidate { id, address } => {
            if peer_at(old(bridge).peers@, id@, i) {
                law_server_tells_the_candidate(heard, id, address, *final(bridge), i, i);
            }
        },
        ServerMessage::Close { id } => {
            if peer_at(old(bridge).peers@, id@, i) {
                law_closed_pair_leaves_the_table(heard, id, now, *final(bridge), i);
            }
        },
        ServerMessage::Welcome { id, key, resume, udp } => {
            let all = if udp is Some {
                addresses@
            } else {
                Seq::empty()
            };
            law_welcome_renews_the_credential(heard, id, key, resume, all, *final(bridge));
        },
        _ => {},
    }
}

/// A pair belongs to a match: the peers of another match leave. A pair that is known
/// stays; a new one is bound, unless this player would be the guest of two hosts.
pub proof fn law_pairing(
    bridge: &mut Bridge,
    pair: Pair,
    now: u64,
    i: int,
    r: Result<PairStep, BridgeError>,
)
    requires
        call_ensures(Bridge::pair, (bridge, pair, now), r),
        0 <= i < old(bridge).peers@.len(),
    ensures
        old(bridge).peers@[i].allocation@ == pair.allocation@ ==> final(bridge).peers@.contains(
            old(bridge).peers@[i],
        ),
        old(bridge).peers@[i].allocation@ != pair.allocation@ ==> !final(bridge).peers@.contains(
            old(bridge).peers@[i],
        ) && final(bridge).retired@.contains((now, old(bridge).peers@[i].socket)),
        old(bridge).peers@[i].allocation@ == pair.allocation@ && old(bridge).peers@[i].id@
            == pair.id@ ==> (r matches Ok(PairStep::Known { .. })),
        r matches Ok(PairStep::Known { ready }) ==> (!old(bridge).connected ==> ready is None) && (
        old(bridge).connected ==> ready is Some && exists|k: int|
            0 <= k < final(bridge).peers@.len() && (#[trigger] final(bridge).peers@[k]).id@
                == pair.id@ && ready->0.effect() == (Effect::Control {
                note: Note::Ready { id: pair.id@, proxy_port: final(bridge).peers@[k].port },
            })),
        r matches Ok(PairStep::Bind { pair: waiting }) ==> waiting == pair,
        r is Err ==> !pair.host,
        pair.host ==> r is Ok,
{
    law_match_replaces_the_last_one(old(bridge).peers@, pair.allocation@, now, i);
    let peer = old(bridge).peers@[i];
    if peer.allocation@ == pair.allocation@ {
        let after = final(bridge).peers@;
        let k = choose|k: int| 0 <= k < after.len() && after[k] == peer;
        assert(after[k] == peer);
        if peer.id@ == pair.id@ {
            assert(peer_at(after, pair.id@, k));
        }
    } else {
        let gone = crate::p2p::bridge::obsolete_sockets(
            old(bridge).peers@,
            pair.allocation@,
            now,
        );
        let x = (now, peer.socket);
        let k = choose|k: int| 0 <= k < gone.len() && gone[k] == x;
        assert(final(bridge).retired@[old(bridge).retired@.len() + k] == x);
    }
}

/// A pair that was bound is in the table under its own keys, and the server is told its
/// port. A host that was given the port of the game itself binds another one first.
pub proof fn law_enrolling(
    bridge: &mut Bridge,
    pair: Pair,
    socket: u64,
    port: u16,
    rebound: bool,
    probe: [u8; 16],
    r: Admission,
)
    requires
        call_ensures(Bridge::enroll, (bridge, pair, socket, port, rebound, probe), r),
    ensures
        r is Rebind <==> pair.host && port == pair.host_port && !rebound,
        r is Rebind ==> *final(bridge) == *old(bridge),
        r is Enrolled ==> exists|i: int|
            {
                &&& 0 <= i < final(bridge).peers@.len()
                &&& #[trigger] final(bridge).peers@[i].id == pair.id
                &&& final(bridge).peers@[i].cipher.key == pair.key
                &&& final(bridge).peers@[i].cipher.role == (if pair.host {
                    0u8
                } else {
                    1u8
                })
                &&& final(bridge).peers@[i].socket == socket
                &&& final(bridge).peers@[i].port == port
                &&& final(bridge).peers@[i].candidate == pair.candidate
            },
        r matches Admission::Enrolled { ready } ==> (old(bridge).connected ==> ready is Some
            && ready->0.effect() == (Effect::Control {
            note: Note::Ready { id: pair.id@, proxy_port: port },
        })) && (!old(bridge).connected ==> ready is None),
{
    if r is Enrolled {
        let i = choose|i: int|
            {
                &&& #[trigger] peer_at(final(bridge).peers@, pair.id@, i)
                &&& pair.becomes(socket, port, probe, final(bridge).peers@[i])
                &&& final(bridge).peers@ == old(bridge).peers@.insert(i, final(bridge).peers@[i])
            };
        law_pair_becomes_a_peer(pair, socket, port, probe, final(bridge).peers@[i]);
        assert(final(bridge).peers@[i].id == pair.id);
    }
}

/// What is played on this machine goes to the peer whose socket it came to, or to the
/// host; nothing else does.
pub proof fn law_forwarding_the_game(
    bridge: &mut Bridge,
    id: Option<Id>,
    data: &[u8],
    address: Address,
    now: u64,
    i: int,
    r: Option<Forward>,
)
    requires
        call_ensures(Bridge::local, (bridge, id, data, address, now), r),
        0 <= i < old(bridge).peers@.len(),
        id is Some ==> old(bridge).peers@[i].id@ == id->0@,
        id is None ==> !old(bridge).peers@[i].host,
    ensures
        ({
            let peer = old(bridge).peers@[i];
            let here = if address.v6 {
                address.ip == 1
            } else {
                0x7f00_0000 <= address.ip <= 0x7fff_ffff
            };
            let wanted = data@.len() <= 65507 && here && (peer.host || peer.game_address is None
                || peer.game_address == Some(address));
            &&& !wanted ==> r is None
            &&& wanted && peer.cipher.sequence < u64::MAX ==> r is Some && r->0.frame@
                == peer.cipher.sealed(0, data@)->0 && r->0.routes@ == old(bridge).routes(
                peer,
                r->0.frame@.len(),
                now,
            )
            &&& final(bridge).peers@.len() == old(bridge).peers@.len()
            &&& final(bridge).peers@[i].candidate == peer.candidate
        }),
{
    let peer = old(bridge).peers@[i];
    assert(old(bridge).is_recipient(id, i));
    law_guest_plays_with_one_game(peer, data@, address);
    law_game_is_on_this_machine(data@, address);
}

/// The answer of the relay shows that it can be reached, and is passed on.
pub proof fn law_hearing_from_the_relay(
    bridge: &mut Bridge,
    frame: &[u8],
    address: Address,
    now: u64,
    data: Seq<u8>,
    r: Option<Action>,
)
    requires
        call_ensures(Bridge::network, (bridge, frame, address, now), r),
        old(bridge).rendezvous == Some(address),
        old(bridge).discovery is Some,
        old(bridge).discovery->0.delivered(frame@, 1) == Some((2u8, data)),
    ensures
        final(bridge).peers == old(bridge).peers,
        data.len() == 16 ==> final(bridge).last_udp_ack == Some(now),
        data.len() == 16 && old(bridge).connected ==> r is Some && r->0.effect() == (
        Effect::Control { note: Note::UdpReady { challenge: data } }),
        data.len() != 16 || !old(bridge).connected ==> r is None,
        data.len() != 16 ==> final(bridge).last_udp_ack == old(bridge).last_udp_ack,
{
}

/// A bridge that was never welcomed gives up after twenty seconds, and no other does.
pub proof fn law_giving_up(
    bridge: &mut Bridge,
    now: u64,
    r: Result<Vec<Action>, BridgeError>,
)
    requires
        call_ensures(Bridge::tick, (bridge, now), r),
        old(bridge).started <= now,
    ensures
        r is Err <==> !old(bridge).initialized && now - old(bridge).started > 20_000_000_000,
        r is Err ==> r->Err_0 == BridgeError::TimedOut && final(bridge).peers == old(bridge).peers,
{
}

/// A packet of the game goes to the game: to the socket of its pair, and there to the
/// address that plays.
pub proof fn law_delivering_a_packet(
    peer: &mut Peer,
    frame: &[u8],
    source: Option<Address>,
    now: u64,
    data: Seq<u8>,
    r: Option<Action>,
)
    requires
        call_ensures(Peer::receive, (peer, frame, source, now), r),
        old(peer).delivered(frame@) == Some((0u8, data)),
    ensures
        old(peer).host ==> r is Some && r->0.effect() == (Effect::Deliver {
            socket: old(peer).socket,
            data,
            target: None,
        }),
        !old(peer).host && old(peer).game_address is Some ==> r is Some && r->0.effect() == (
        Effect::Deliver { socket: old(peer).socket, data, target: old(peer).game_address }),
        !old(peer).host && old(peer).game_address is None ==> r is None,
        final(peer).candidate == old(peer).candidate,
        final(peer).direct == old(peer).direct,
{
    law_packet_goes_to_the_game(*old(peer), frame@, source, now, *final(peer), data);
}

/// The answer to our own probe opens the direct way to whoever sent it.
pub proof fn law_receiving_an_answer(
    peer: &mut Peer,
    frame: &[u8],
    source: Option<Address>,
    now: u64,
    data: Seq<u8>,
    r: Option<Action>,
)
    requires
        call_ensures(Peer::receive, (peer, frame, source, now), r),
        old(peer).delivered(frame@) == Some((2u8, data)),
    ensures
        r is None,
        source is Some && data == old(peer).probe@ ==> final(peer).direct == Some((source->0, now)),
        source is None || data != old(peer).probe@ ==> final(peer).direct == old(peer).direct,
        final(peer).candidate == old(peer).candidate,
{
}

} // verus!
