//! The bridge between the players: frames, probes, routes and matches.
use crate::p2p::bridge::{
    age, at_most, first_v4, kept_peers, kept_sockets, obsolete_sockets, peer_at, probe_effects,
    role_of, Bridge, Effect, Note, Pair, Peer, Route,
};
use crate::p2p::protocol::{Address, Id};
use crate::p2p::wire::{
    big_endian, header_of, is_addressed, law_big_endian_round_trip, nonce_of, opened_bytes,
    payload_of, sealed_bytes, sequence_of, Cipher, PacketWindow,
};
use vstd::prelude::*;

verus! {

/// Numbers are written with their highest byte first.
pub proof fn law_big_endian_is_positional(n: u64)
    ensures
        big_endian(n).len() == 8,
        big_endian(n)[0] as int == n as int / 72057594037927936,
        big_endian(n)[7] as int == n as int % 256,
        forall|i: int|
            0 <= i < 7 ==> #[trigger] big_endian(n)[i] == big_endian((n / 256) as u64)[i + 1],
{
    assert((n >> 56) as u8 as u64 == n / 72057594037927936) by (bit_vector);
    assert(n as u8 as u64 == n % 256) by (bit_vector);
    let m = (n / 256) as u64;
    assert(m == n / 256);
    assert((n >> 56) as u8 == (m >> 48) as u8 && (n >> 48) as u8 == (m >> 40) as u8 && (n >> 40) as u8 == (m >> 32) as u8 && (n >> 32)
        as u8 == (m >> 24) as u8 && (n >> 24) as u8 == (m >> 16) as u8 && (n >> 16) as u8 == (m
        >> 8) as u8 && (n >> 8) as u8 == m as u8) by (bit_vector)
        requires
            m == n / 256,
    ;
}

/// A frame starts with the pair, the sender's role and the number of the frame; behind
/// that stands the sealed content, which is bound to all of it. A packet of up to 65507
/// bytes fits.
pub proof fn law_layout_of_a_frame(cipher: Cipher, kind: u8, data: Seq<u8>)
    ensures
        cipher.sealed(kind, data) is Some <==> data.len() <= 65507 && cipher.sequence < u64::MAX,
        cipher.sealed(kind, data) matches Some(frame) ==> {
            &&& frame.len() >= 25
            &&& frame.take(16) == cipher.id@
            &&& frame[16] == cipher.role
            &&& frame.subrange(17, 25) == big_endian(cipher.sequence)
            &&& frame.skip(25) == sealed_bytes(
                cipher.key@,
                seq![0u8, 0u8, 0u8, cipher.role] + big_endian(cipher.sequence),
                seq![kind] + data,
                frame.take(25),
            )
            &&& cipher.after_sealing(data) == (Cipher {
                sequence: (cipher.sequence + 1) as u64,
                ..cipher
            })
        },
{
    if let Some(frame) = cipher.sealed(kind, data) {
        let header = header_of(cipher.id@, cipher.role, cipher.sequence);
        assert(header.len() == 25);
        assert(frame.take(16) =~= cipher.id@);
        assert(frame.subrange(17, 25) =~= big_endian(cipher.sequence));
        assert(frame.take(25) =~= header);
        assert(frame.skip(25) =~= sealed_bytes(
            cipher.key@,
            nonce_of(cipher.role, cipher.sequence),
            seq![kind] + data,
            header,
        ));
    }
}

/// The window reaches 128 numbers back from the highest that was received: below it
/// nothing is taken, above it everything, and within it what was not received yet.
pub proof fn law_window_reaches_back(window: PacketWindow, sequence: u64)
    ensures
        window.highest is None ==> window.admits(sequence),
        window.highest matches Some(highest) ==> {
            &&& sequence > highest ==> window.admits(sequence)
            &&& highest - sequence >= 128 ==> !window.admits(sequence)
            &&& 0 <= highest - sequence <= 127 ==> (window.admits(sequence) <==> !window.holds(
                sequence,
            ))
        },
{
}

/// The cipher gives back what it sealed, and adds sixteen bytes.
pub open spec fn gives_back(key: Seq<u8>) -> bool {
    forall|nonce: Seq<u8>, message: Seq<u8>, header: Seq<u8>|
        message.len() <= 65508 ==> {
            &&& (#[trigger] sealed_bytes(key, nonce, message, header)).len() == message.len() + 16
            &&& opened_bytes(key, nonce, sealed_bytes(key, nonce, message, header), header) == Some(
                message,
            )
        }
}

/// What one end seals, the other end of the pair gets, unless it came too late or came
/// before; and it is not taken for a frame of another role.
pub proof fn law_frame_is_understood(from: Cipher, to: Cipher, kind: u8, data: Seq<u8>, other: u8)
    requires
        gives_back(from.key@),
        from.id == to.id,
        from.key == to.key,
        from.sealed(kind, data) is Some,
    ensures
        to.received.admits(from.sequence) ==> to.delivered(
            from.sealed(kind, data)->0,
            from.role,
        ) == Some((kind, data)),
        !to.received.admits(from.sequence) ==> to.delivered(
            from.sealed(kind, data)->0,
            from.role,
        ) is None,
        other != from.role ==> to.delivered(from.sealed(kind, data)->0, other) is None,
{
    let frame = from.sealed(kind, data)->0;
    let header = header_of(from.id@, from.role, from.sequence);
    let message = seq![kind] + data;
    law_layout_of_a_frame(from, kind, data);
    law_big_endian_round_trip(from.sequence, big_endian(from.sequence));
    assert(sequence_of(frame) == from.sequence);
    assert(frame.subrange(0, 16) =~= frame.take(16));
    assert(frame.subrange(0, 25) =~= header);
    assert(frame.subrange(25, frame.len() as int) =~= frame.skip(25));
    let sealed = sealed_bytes(from.key@, nonce_of(from.role, from.sequence), message, header);
    assert(frame.skip(25) =~= sealed);
    assert(sealed.len() == message.len() + 16);
    assert(frame.len() == 25 + sealed.len());
    assert(is_addressed(to.id@, from.role, frame));
    assert(payload_of(to.key@, from.role, frame) == Some(message));
    assert(message[0] == kind);
    assert(message.skip(1) =~= data);
}

/// The two ends of a pair: one hosts, and they share the identifier and the key.
pub open spec fn are_a_pair(a: Peer, b: Peer) -> bool {
    &&& a.is_sound()
    &&& b.is_sound()
    &&& a.host != b.host
    &&& a.id == b.id
    &&& a.cipher.key == b.cipher.key
    &&& gives_back(a.cipher.key@)
}

/// What a peer sends, the other end gets.
pub proof fn law_peers_understand_each_other(a: Peer, b: Peer, kind: u8, data: Seq<u8>)
    requires
        are_a_pair(a, b),
        a.cipher.sealed(kind, data) is Some,
        b.cipher.received.admits(a.cipher.sequence),
    ensures
        b.delivered(a.cipher.sealed(kind, data)->0) == Some((kind, data)),
{
    law_frame_is_understood(a.cipher, b.cipher, kind, data, 0);
    assert(a.cipher.role == role_of(!b.host));
}

/// The sender of an authentic probe is what is probed from then on, whatever was known
/// of the peer before, and it gets an answer; a probe that was relayed, or is no probe,
/// leaves the candidate as it was.
pub proof fn law_probe_reveals_the_address(
    before: Peer,
    frame: Seq<u8>,
    source: Option<Address>,
    now: u64,
    after: Peer,
    next: Seq<u8>,
)
    requires
        before.receives(frame, source, now, after),
    ensures
        match (before.delivered(frame), source) {
            (Some((kind, data)), Some(address)) => if kind == 1 && data.len() == 16 {
                &&& after.candidate == Some(address)
                &&& before.cipher.sealed(2, data) matches Some(ack) ==> before.reaction(
                    frame,
                    source,
                ) == Some(Effect::Send { frame: ack, to: address })
                &&& after.cipher.sealed(1, next) matches Some(probe) ==> after.probing(next) == Some(
                    Effect::Send { frame: probe, to: address },
                )
            } else {
                after.candidate == before.candidate
            },
            _ => after.candidate == before.candidate,
        },
{
}

/// Once an authentic probe came directly from an address, the next tick of the clock
/// probes that address.
pub proof fn law_next_tick_probes_the_sender(
    before: Bridge,
    frame: Seq<u8>,
    address: Address,
    now: u64,
    after: Bridge,
    effect: Option<Effect>,
    i: int,
    later: u64,
    ticked: Bridge,
)
    requires
        before.takes_in(frame, Some(address), now, after, effect),
        frame.len() >= 42,
        peer_at(before.peers@, frame.take(16), i),
        before.peers@[i].delivered(frame) matches Some((kind, data)) && kind == 1 && data.len()
            == 16,
        before.peers@[i].cipher.sequence < 0xffff_ffff_ffff_fff0,
        after.ticks(later, ticked),
    ensures
        exists|k: int|
            0 <= k < after.tick_effects(later, ticked).len() && #[trigger] after.tick_effects(
                later,
                ticked,
            )[k] == (Effect::Send {
                frame: after.peers@[i].cipher.sealed(1, ticked.peers@[i].probe@)->0,
                to: address,
            }),
{
    assert(before.peers@[i].receives(frame, Some(address), now, after.peers@[i]));
    assert(after.peers@[i].candidate == Some(address));
    law_tick_probes_every_candidate(after, later, ticked, i, address);
}

/// Every candidate is probed at every tick, with the probe that its answer will be
/// compared with.
pub proof fn law_tick_probes_every_candidate(
    before: Bridge,
    now: u64,
    after: Bridge,
    i: int,
    address: Address,
)
    requires
        before.ticks(now, after),
        0 <= i < before.peers@.len(),
        before.peers@[i].candidate == Some(address),
        before.peers@[i].cipher.sequence < u64::MAX,
    ensures
        exists|k: int|
            0 <= k < before.tick_effects(now, after).len() && #[trigger] before.tick_effects(
                now,
                after,
            )[k] == (Effect::Send {
                frame: before.peers@[i].cipher.sealed(1, after.peers@[i].probe@)->0,
                to: address,
            }),
        after.peers@.len() == before.peers@.len(),
        after.peers@[i].candidate == Some(address),
        after.peers@[i].cipher.sequence == before.peers@[i].cipher.sequence + 1,
{
    assert(after.peers@[i] == before.peers@[i].after_probing(after.peers@[i].probe));
    let probe = Effect::Send {
        frame: before.peers@[i].cipher.sealed(1, after.peers@[i].probe@)->0,
        to: address,
    };
    lemma_probe_is_sent(before.peers@, after.peers@, i, probe);
    let sent = probe_effects(before.peers@, after.peers@);
    let k = choose|k: int| 0 <= k < sent.len() && #[trigger] sent[k] == probe;
    let first = at_most(after.control(Note::Ping)) + at_most(before.registering());
    assert(before.tick_effects(now, after)[first.len() + k] == probe);
}

proof fn lemma_probe_is_sent(before: Seq<Peer>, after: Seq<Peer>, i: int, effect: Effect)
    requires
        before.len() == after.len(),
        0 <= i < before.len(),
        before[i].probing(after[i].probe@) == Some(effect),
    ensures
        exists|k: int|
            0 <= k < probe_effects(before, after).len() && #[trigger] probe_effects(before, after)[k]
                == effect,
    decreases before.len(),
{
    let front = probe_effects(before.drop_last(), after.drop_last());
    let all = probe_effects(before, after);
    if i == before.len() - 1 {
        assert(all[front.len() as int] == effect);
    } else {
        lemma_probe_is_sent(before.drop_last(), after.drop_last(), i, effect);
        let k = choose|k: int| 0 <= k < front.len() && #[trigger] front[k] == effect;
        assert(all[k] == effect);
    }
}

/// Nobody is probed but the candidates.
pub proof fn law_only_candidates_are_probed(before: Seq<Peer>, after: Seq<Peer>, k: int)
    requires
        before.len() == after.len(),
        0 <= k < probe_effects(before, after).len(),
    ensures
        exists|i: int|
            0 <= i < before.len() && (probe_effects(before, after)[k] matches Effect::Send {
                to,
                ..
            } && (#[trigger] before[i]).candidate == Some(to)),
    decreases before.len(),
{
    let front = probe_effects(before.drop_last(), after.drop_last());
    if k < front.len() {
        law_only_candidates_are_probed(before.drop_last(), after.drop_last(), k);
        let i = choose|i: int|
            0 <= i < before.drop_last().len() && (front[k] matches Effect::Send { to, .. } && (
            #[trigger] before.drop_last()[i]).candidate == Some(to));
        assert(before[i] == before.drop_last()[i]);
    } else {
        assert(before[before.len() - 1] == before.last());
    }
}

/// The sender of the answer to our own probe is reached directly from then on; an
/// answer to anything else, or a relayed one, changes nothing.
pub proof fn law_answer_opens_the_direct_way(
    before: Peer,
    frame: Seq<u8>,
    source: Option<Address>,
    now: u64,
    after: Peer,
)
    requires
        before.receives(frame, source, now, after),
        before.delivered(frame) matches Some((kind, _)) && kind == 2,
    ensures
        source is Some && (before.delivered(frame)->0).1 == before.probe@ ==> after.direct == Some(
            (source->0, now),
        ),
        source is None || (before.delivered(frame)->0).1 != before.probe@ ==> after.direct
            == before.direct,
        before.reaction(frame, source) is None,
        after.candidate == before.candidate,
{
}

/// A packet goes to the game, whichever way it came: to the game that hosts, or to the
/// one that was heard from; until it was heard from there is nobody to give it to.
pub proof fn law_packet_goes_to_the_game(
    before: Peer,
    frame: Seq<u8>,
    source: Option<Address>,
    now: u64,
    after: Peer,
    data: Seq<u8>,
)
    requires
        before.receives(frame, source, now, after),
        before.delivered(frame) == Some((0u8, data)),
    ensures
        before.host ==> before.reaction(frame, source) == Some(
            Effect::Deliver { socket: before.socket, data, target: None },
        ),
        !before.host ==> (before.game_address matches Some(game) ==> before.reaction(frame, source)
            == Some(Effect::Deliver { socket: before.socket, data, target: Some(game) })),
        !before.host && before.game_address is None ==> before.reaction(frame, source) is None,
        after.candidate == before.candidate,
        after.direct == before.direct,
        after.game_address == before.game_address,
{
}

/// What becomes of a probe between two players: the one that is probed answers to where
/// the probe came from, and probes that address itself; the one that probed takes the
/// place that the answer came from for the direct way.
pub proof fn law_probing_opens_both_ways(
    prober: Peer,
    probed: Peer,
    probe: [u8; 16],
    candidate: Address,
    seen: Address,
    now: u64,
    after: Peer,
    answered: Address,
    later: u64,
    done: Peer,
)
    requires
        are_a_pair(prober, probed),
        prober.candidate == Some(candidate),
        prober.cipher.sequence < u64::MAX,
        probed.cipher.sequence < u64::MAX,
        probed.cipher.received.admits(prober.cipher.sequence),
        prober.cipher.received.admits(probed.cipher.sequence),
        probed.receives(prober.cipher.sealed(1, probe@)->0, Some(seen), now, after),
        prober.after_probing(probe).receives(
            probed.cipher.sealed(2, probe@)->0,
            Some(answered),
            later,
            done,
        ),
    ensures
        prober.probing(probe@) == Some(
            Effect::Send { frame: prober.cipher.sealed(1, probe@)->0, to: candidate },
        ),
        probed.reaction(prober.cipher.sealed(1, probe@)->0, Some(seen)) == Some(
            Effect::Send { frame: probed.cipher.sealed(2, probe@)->0, to: seen },
        ),
        after.candidate == Some(seen),
        done.direct == Some((answered, later)),
{
    assert(probe@.len() == 16);
    law_peers_understand_each_other(prober, probed, 1, probe@);
    let waiting = prober.after_probing(probe);
    assert(are_a_pair(probed, waiting));
    law_peers_understand_each_other(probed, waiting, 2, probe@);
}

/// The server is pinged while it was heard from within the last 45 seconds; after that
/// the connection counts as lost.
pub proof fn law_silent_server_is_given_up(before: Bridge, now: u64, after: Bridge)
    requires
        before.ticks(now, after),
        before.connected,
        before.last_server_received <= now,
    ensures
        now - before.last_server_received <= 45_000_000_000 ==> after.connected
            && before.tick_effects(now, after).len() > 0 && before.tick_effects(now, after)[0] == (
        Effect::Control { note: Note::Ping }),
        now - before.last_server_received > 45_000_000_000 ==> !after.connected,
{
}

/// A bridge that is lost sends no ping, and a tick never connects it.
pub proof fn law_tick_does_not_connect(before: Bridge, now: u64, after: Bridge, k: int)
    requires
        before.ticks(now, after),
        !before.connected,
    ensures
        !after.connected,
        0 <= k < before.tick_effects(now, after).len() ==> !(before.tick_effects(now, after)[k]
            is Control),
{
    let sent = probe_effects(before.peers@, after.peers@);
    let first = at_most(before.registering());
    assert(before.tick_effects(now, after) =~= first + sent);
    if 0 <= k < before.tick_effects(now, after).len() && k >= first.len() {
        law_only_candidates_are_probed(before.peers@, after.peers@, k - first.len());
    }
}

/// The relay is told of this player at every tick, as soon as it is known.
pub proof fn law_tick_registers_with_the_relay(
    before: Bridge,
    now: u64,
    after: Bridge,
    relay: Address,
)
    requires
        before.ticks(now, after),
        before.rendezvous == Some(relay),
        before.discovery is Some,
        before.discovery->0.sequence < u64::MAX,
    ensures
        exists|k: int|
            0 <= k < before.tick_effects(now, after).len() && #[trigger] before.tick_effects(
                now,
                after,
            )[k] == (Effect::Send {
                frame: before.discovery->0.sealed(3, Seq::empty())->0,
                to: relay,
            }),
{
    let first = at_most(after.control(Note::Ping));
    assert(before.tick_effects(now, after)[first.len() as int] == (Effect::Send {
        frame: before.discovery->0.sealed(3, Seq::empty())->0,
        to: relay,
    }));
}

/// Without a welcome the bridge gives up after twenty seconds, and not before.
pub proof fn law_patience_is_twenty_seconds(bridge: Bridge, now: u64)
    requires
        bridge.started <= now,
    ensures
        bridge.is_late(now) <==> !bridge.initialized && now - bridge.started > 20_000_000_000,
{
}

/// The socket of a peer that was let go stays bound for thirty seconds, and every other
/// socket in the list is released.
pub proof fn law_sockets_rest_for_thirty_seconds(
    retired: Seq<(u64, u64)>,
    now: u64,
    time: u64,
    socket: u64,
)
    requires
        time <= now,
    ensures
        kept_sockets(retired, now).contains((time, socket)) <==> retired.contains((time, socket))
            && now - time < 30_000_000_000,
    decreases retired.len(),
{
    if retired.len() > 0 {
        let front = retired.drop_last();
        let before = kept_sockets(front, now);
        let all = kept_sockets(retired, now);
        law_sockets_rest_for_thirty_seconds(front, now, time, socket);
        let x = (time, socket);
        if retired.contains(x) {
            let k = choose|k: int| 0 <= k < retired.len() && retired[k] == x;
            if k < front.len() {
                assert(front[k] == x);
            }
        }
        if front.contains(x) {
            let k = choose|k: int| 0 <= k < front.len() && front[k] == x;
            assert(retired[k] == x);
        }
        if before.contains(x) {
            let k = choose|k: int| 0 <= k < before.len() && before[k] == x;
            assert(all[k] == x);
        }
        if all.contains(x) {
            let k = choose|k: int| 0 <= k < all.len() && all[k] == x;
            if k < before.len() {
                assert(before[k] == x);
            }
        }
        if retired.last() == x {
            assert(retired[retired.len() - 1] == x);
            if now - time < 30_000_000_000 {
                assert(all[all.len() - 1] == x);
            }
        }
    }
}

/// A frame goes to the peer itself while it answered within the last three seconds, then
/// to the relay while that answered within the last three seconds, and last over the
/// connection to the server; a frame over 1232 bytes is sent over the connection alone.
pub proof fn law_best_way_comes_first(bridge: Bridge, peer: Peer, size: nat, now: u64)
    requires
        peer.direct matches Some((_, seen)) ==> seen <= now,
        bridge.last_udp_ack matches Some(seen) ==> seen <= now,
    ensures
        ({
            let routes = bridge.routes(peer, size, now);
            let small = size <= 1232;
            let direct = small && peer.direct is Some && now - (peer.direct->0).1 < 3_000_000_000;
            let relay = small && bridge.rendezvous is Some && bridge.last_udp_ack is Some && now
                - bridge.last_udp_ack->0 < 3_000_000_000;
            let n: int = if direct {
                1
            } else {
                0
            };
            let m: int = if relay {
                n + 1
            } else {
                n
            };
            &&& direct ==> routes[0] == (Route::Direct { address: (peer.direct->0).0 })
            &&& relay ==> routes[n] == (Route::Rendezvous { address: bridge.rendezvous->0 })
            &&& bridge.connected ==> routes[m] == Route::Relay
            &&& routes.len() == if bridge.connected {
                m + 1
            } else {
                m
            }
        }),
{
}

/// A host plays with whoever sends; a guest plays with one game, the first that was heard
/// from on this machine.
pub proof fn law_guest_plays_with_one_game(peer: Peer, data: Seq<u8>, address: Address)
    ensures
        peer.host || peer.game_address is None || peer.game_address == Some(address)
            ==> peer.forwarded(data, address) == peer.cipher.sealed(0, data),
        !peer.host && peer.game_address is Some && peer.game_address != Some(address)
            ==> peer.forwarded(data, address) is None && peer.after_forwarding(data, address)
            == peer,
        !peer.host && peer.game_address is None ==> peer.after_forwarding(
            data,
            address,
        ).game_address == Some(address),
        peer.host ==> peer.after_forwarding(data, address).game_address == peer.game_address,
        peer.after_forwarding(data, address).direct == peer.direct,
        peer.after_forwarding(data, address).candidate == peer.candidate,
        peer.forwarded(data, address) is Some ==> peer.after_forwarding(
            data,
            address,
        ).cipher.sequence == peer.cipher.sequence + 1,
{
}

/// What one player's game sends, the other player's game gets.
pub proof fn law_packet_crosses_the_bridge(
    sender: Peer,
    receiver: Peer,
    data: Seq<u8>,
    address: Address,
    source: Option<Address>,
)
    requires
        are_a_pair(sender, receiver),
        sender.forwarded(data, address) is Some,
        receiver.cipher.received.admits(sender.cipher.sequence),
        receiver.host || receiver.game_address is Some,
    ensures
        receiver.reaction(sender.forwarded(data, address)->0, source) == Some(
            Effect::Deliver {
                socket: receiver.socket,
                data,
                target: if receiver.host {
                    None
                } else {
                    receiver.game_address
                },
            },
        ),
{
    law_peers_understand_each_other(sender, receiver, 0, data);
}

/// Only datagrams of this machine are taken from the game: those of the network
/// 127.0.0.0/8, or of the address ::1, up to 65507 bytes.
pub proof fn law_game_is_on_this_machine(data: Seq<u8>, address: Address)
    ensures
        Bridge::is_game_data(data, address) <==> data.len() <= 65507 && if address.v6 {
            address.ip == 1
        } else {
            address.ip / 0x100_0000 == 127
        },
{
}

/// A new match keeps its own peers and lets go of all others, whose sockets rest.
pub proof fn law_match_replaces_the_last_one(
    peers: Seq<Peer>,
    allocation: Seq<char>,
    now: u64,
    i: int,
)
    requires
        0 <= i < peers.len(),
    ensures
        peers[i].allocation@ == allocation ==> kept_peers(peers, allocation).contains(peers[i]),
        peers[i].allocation@ != allocation ==> obsolete_sockets(peers, allocation, now).contains(
            (now, peers[i].socket),
        ) && !kept_peers(peers, allocation).contains(peers[i]),
        kept_peers(peers, allocation).len() + obsolete_sockets(peers, allocation, now).len()
            == peers.len(),
    decreases peers.len(),
{
    lemma_kept_peers_belong(peers, allocation);
    let front = peers.drop_last();
    let kept = kept_peers(front, allocation);
    let gone = obsolete_sockets(front, allocation, now);
    let all_kept = kept_peers(peers, allocation);
    let all_gone = obsolete_sockets(peers, allocation, now);
    if front.len() > 0 {
        law_match_replaces_the_last_one(
            front,
            allocation,
            now,
            if i < front.len() {
                i
            } else {
                0
            },
        );
    }
    if i < front.len() {
        if peers[i].allocation@ == allocation {
            let k = choose|k: int| 0 <= k < kept.len() && kept[k] == peers[i];
            assert(all_kept[k] == peers[i]);
        } else {
            let x = (now, peers[i].socket);
            let k = choose|k: int| 0 <= k < gone.len() && gone[k] == x;
            assert(all_gone[k] == x);
        }
    } else if peers[i].allocation@ == allocation {
        assert(all_kept[all_kept.len() - 1] == peers[i]);
    } else {
        assert(all_gone[all_gone.len() - 1] == (now, peers[i].socket));
    }
}

proof fn lemma_kept_peers_belong(peers: Seq<Peer>, allocation: Seq<char>)
    ensures
        forall|k: int|
            0 <= k < kept_peers(peers, allocation).len() ==> (#[trigger] kept_peers(
                peers,
                allocation,
            )[k]).allocation@ == allocation,
    decreases peers.len(),
{
    if peers.len() > 0 {
        lemma_kept_peers_belong(peers.drop_last(), allocation);
        let front = kept_peers(peers.drop_last(), allocation);
        let all = kept_peers(peers, allocation);
        assert forall|k: int| 0 <= k < all.len() implies (#[trigger] all[k]).allocation@
            == allocation by {
            if k < front.len() {
                assert(all[k] == front[k]);
            }
        }
    }
}

/// The relay is reached at the first IPv4 address of its name.
pub proof fn law_relay_is_the_first_ipv4_address(
    before: Seq<Address>,
    address: Address,
    after: Seq<Address>,
)
    requires
        forall|i: int| 0 <= i < before.len() ==> (#[trigger] before[i]).v6,
        !address.v6,
    ensures
        first_v4(before) is None,
        first_v4(before + seq![address] + after) == Some(address),
    decreases before.len() + after.len(),
{
    if before.len() > 0 {
        let front = before.drop_last();
        assert forall|i: int| 0 <= i < front.len() implies (#[trigger] front[i]).v6 by {
            assert(before[i].v6);
        }
        lemma_no_v4(front);
        assert(before[before.len() - 1].v6);
    }
    lemma_no_v4(before);
    let all = before + seq![address] + after;
    if after.len() > 0 {
        assert(all.drop_last() =~= before + seq![address] + after.drop_last());
        law_relay_is_the_first_ipv4_address(before, address, after.drop_last());
    } else {
        assert(all.drop_last() =~= before);
    }
}

proof fn lemma_no_v4(addresses: Seq<Address>)
    requires
        forall|i: int| 0 <= i < addresses.len() ==> (#[trigger] addresses[i]).v6,
    ensures
        first_v4(addresses) is None,
    decreases addresses.len(),
{
    if addresses.len() > 0 {
        let front = addresses.drop_last();
        assert forall|i: int| 0 <= i < front.len() implies (#[trigger] front[i]).v6 by {
            assert(addresses[i].v6);
        }
        lemma_no_v4(front);
        assert(addresses[addresses.len() - 1].v6);
    }
}

/// Every welcome brings the next credential; the first one also the key for the relay,
/// which stays.
pub proof fn law_welcome_renews_the_credential(
    before: Bridge,
    id: Id,
    key: [u8; 32],
    resume: String,
    addresses: Seq<Address>,
    after: Bridge,
)
    requires
        before.welcomes(id, key, resume, addresses, after),
    ensures
        after.credential == resume,
        after.initialized,
        after.discovery is Some,
        before.discovery is None ==> after.discovery->0.id == id && after.discovery->0.key == key
            && after.discovery->0.role == 0 && after.discovery->0.sequence == 0,
        before.discovery is Some ==> after.discovery == before.discovery,
        after.peers == before.peers,
        after.connected == before.connected,
{
}

/// The relay's answer to a registration, sealed under the other role, is what the server
/// is told; nobody else's frame is taken for one.
pub proof fn law_relay_answers_the_registration(
    bridge: Bridge,
    frame: Seq<u8>,
    address: Address,
    data: Seq<u8>,
)
    ensures
        bridge.challenge(frame, address) == Some(data) ==> bridge.rendezvous == Some(address)
            && bridge.discovery is Some,
        bridge.rendezvous == Some(address) && bridge.discovery is Some
            && bridge.discovery->0.delivered(frame, 1) == Some((2u8, data)) ==> bridge.challenge(
            frame,
            address,
        ) == Some(data),
        bridge.rendezvous == Some(address) && bridge.discovery is Some
            && bridge.discovery->0.delivered(frame, 1) == Some((0u8, data)) ==> bridge.challenge(
            frame,
            address,
        ) is None,
{
}

/// An address that the server tells of becomes the candidate of that peer, and of no
/// other.
pub proof fn law_server_tells_the_candidate(
    before: Bridge,
    id: Id,
    address: Address,
    after: Bridge,
    i: int,
    j: int,
)
    requires
        before.learns(id, address, after),
        peer_at(before.peers@, id@, i),
        0 <= j < before.peers@.len(),
    ensures
        after.peers@.len() == before.peers@.len(),
        after.peers@[i].candidate == Some(address),
        after.peers@[i].direct == before.peers@[i].direct,
        j != i ==> after.peers@[j] == before.peers@[j],
{
}

/// A pair that is over leaves the table, and its socket rests.
pub proof fn law_closed_pair_leaves_the_table(
    before: Bridge,
    id: Id,
    now: u64,
    after: Bridge,
    i: int,
)
    requires
        before.closes(id, now, after),
        peer_at(before.peers@, id@, i),
    ensures
        after.peers@.len() == before.peers@.len() - 1,
        forall|k: int| 0 <= k < after.peers@.len() ==> (#[trigger] after.peers@[k]).id@ != id@,
        after.retired@.contains((now, before.peers@[i].socket)),
{
    assert(after.retired@[after.retired@.len() - 1] == (now, before.peers@[i].socket));
    assert forall|k: int| 0 <= k < after.peers@.len() implies (#[trigger] after.peers@[k]).id@
        != id@ by {
        assert(!peer_at(after.peers@, id@, k));
    }
}

/// A pair becomes a peer that seals as its own side: the host under role 0, the guest
/// under role 1, from the first number on, with the candidate that the server gave.
pub proof fn law_pair_becomes_a_peer(
    pair: Pair,
    socket: u64,
    port: u16,
    probe: [u8; 16],
    peer: Peer,
)
    requires
        pair.becomes(socket, port, probe, peer),
    ensures
        peer.id == pair.id && peer.cipher.id == pair.id && peer.cipher.key == pair.key,
        peer.allocation == pair.allocation,
        pair.host ==> peer.cipher.role == 0,
        !pair.host ==> peer.cipher.role == 1,
        peer.host == pair.host,
        peer.cipher.sequence == 0,
        peer.candidate == pair.candidate,
        peer.socket == socket && peer.port == port && peer.probe == probe,
        peer.direct is None && peer.game_address is None,
        peer.is_sound(),
        forall|n: u64| peer.cipher.received.admits(n),
{
}

/// Time that lies ahead counts as now.
pub proof fn law_age(then: u64, now: u64)
    ensures
        then <= now ==> age(then, now) == now - then,
        then > now ==> age(then, now) == 0,
{
}

/// A frame that is too short to name a pair and hold anything is ignored.
pub proof fn law_short_frames_are_ignored(
    before: Bridge,
    frame: Seq<u8>,
    source: Option<Address>,
    now: u64,
    after: Bridge,
    effect: Option<Effect>,
)
    requires
        before.takes_in(frame, source, now, after, effect),
        frame.len() < 42,
    ensures
        after == before,
        effect is None,
{
}

/// Every registration with the relay takes a number of its own.
pub proof fn law_registrations_are_numbered(before: Bridge, now: u64, after: Bridge)
    requires
        before.ticks(now, after),
        before.discovery is Some,
        before.discovery->0.sequence < u64::MAX,
    ensures
        after.discovery is Some,
        before.rendezvous is Some ==> after.discovery->0.sequence == before.discovery->0.sequence
            + 1,
        before.rendezvous is None ==> after.discovery == before.discovery,
        after.discovery->0.key == before.discovery->0.key,
        after.discovery->0.received == before.discovery->0.received,
        after.rendezvous == before.rendezvous,
        after.last_udp_ack == before.last_udp_ack,
        after.credential == before.credential,
{
}

/// Of pairs that the table does not hold nothing is learned, and nothing is closed; and
/// what happens to one pair leaves the others in the table.
pub proof fn law_other_pairs_are_left_alone(
    before: Bridge,
    id: Id,
    address: Address,
    now: u64,
    learned: Bridge,
    closed: Bridge,
    i: int,
    j: int,
)
    requires
        before.learns(id, address, learned),
        before.closes(id, now, closed),
    ensures
        (forall|k: int| 0 <= k < before.peers@.len() ==> (#[trigger] before.peers@[k]).id@ != id@)
            ==> learned.peers@ == before.peers@ && closed == before,
        peer_at(before.peers@, id@, i) && 0 <= j < before.peers@.len() && j != i
            ==> closed.peers@.contains(before.peers@[j]) && learned.peers@[j] == before.peers@[j],
        learned.connected == before.connected && learned.credential == before.credential,
        closed.connected == before.connected && closed.credential == before.credential,
{
    if forall|k: int| 0 <= k < before.peers@.len() ==> (#[trigger] before.peers@[k]).id@ != id@ {
        assert(!crate::p2p::bridge::has_peer(before.peers@, id@));
    }
    if peer_at(before.peers@, id@, i) && 0 <= j < before.peers@.len() && j != i {
        let k = if j < i {
            j
        } else {
            j - 1
        };
        assert(closed.peers@[k] == before.peers@[j]);
    }
}

} // verus!
