//! The launcher-owned UDP bridge between the game and the other players.
//!
//! The bridge is a state machine. What arrives (a tick of the clock, a message of
//! the server, a datagram of the network or of the game) goes into one of its
//! methods, and what comes out says what is to be sent and where. Sockets are known
//! by numbers that their owner hands out, times are nanoseconds of one clock.
use crate::p2p::protocol::{Address, ClientMessage, Id, ServerMessage};
use crate::p2p::wire::{
    law_delivered_frame_is_refused, random, ACK, Cipher, DATA, HEADER, MAX_GAME_PACKET, PROBE,
    REGISTER,
};
use crate::text::{
    comes_before, lemma_precedes_is_strict, lemma_precedes_is_total, lemma_precedes_is_transitive,
    letters, part, precedes, same, spells,
};
use vstd::prelude::*;

verus! {

pub const SECOND: u64 = 1_000_000_000;

/// The largest frame that is sent as one datagram over the internet.
pub const MAX_DATAGRAM: usize = 1232;

/// How long ago something was; nothing lies in the future.
pub open spec fn age(then: u64, now: u64) -> int {
    if now >= then {
        now - then
    } else {
        0
    }
}

fn elapsed(then: u64, now: u64) -> (r: u64)
    ensures
        r == age(then, now),
{
    if now >= then {
        now - then
    } else {
        0
    }
}

/// Something to send.
pub enum Action {
    /// A datagram from the network socket.
    Send { frame: Vec<u8>, to: Address },
    /// A message to the server, over the connection that is open.
    Control { message: ClientMessage },
    /// A datagram to the game, from the socket of a peer: to the address that the
    /// socket is connected to, or to the one that is given.
    Deliver { socket: u64, data: Vec<u8>, target: Option<Address> },
}

/// The content of a message to the server.
pub enum Note {
    Register { proxy_port: u16, host_port: u16 },
    Ready { id: Seq<u8>, proxy_port: u16 },
    UdpReady { challenge: Seq<u8> },
    Ping,
}

/// The content of an action.
pub enum Effect {
    Send { frame: Seq<u8>, to: Address },
    Control { note: Note },
    Deliver { socket: u64, data: Seq<u8>, target: Option<Address> },
}

impl ClientMessage {
    pub open spec fn note(self) -> Note {
        match self {
            ClientMessage::Register { proxy_port, host_port } => Note::Register {
                proxy_port,
                host_port,
            },
            ClientMessage::Ready { id, proxy_port } => Note::Ready { id: id@, proxy_port },
            ClientMessage::UdpReady { challenge } => Note::UdpReady { challenge: challenge@ },
            ClientMessage::Ping => Note::Ping,
        }
    }
}

impl Action {
    pub open spec fn effect(self) -> Effect {
        match self {
            Action::Send { frame, to } => Effect::Send { frame: frame@, to },
            Action::Control { message } => Effect::Control { note: message.note() },
            Action::Deliver { socket, data, target } => Effect::Deliver {
                socket,
                data: data@,
                target,
            },
        }
    }
}

pub open spec fn effects(actions: Seq<Action>) -> Seq<Effect> {
    Seq::new(actions.len(), |i: int| actions[i].effect())
}

/// An action that may be absent, as a list.
pub open spec fn at_most(effect: Option<Effect>) -> Seq<Effect> {
    match effect {
        Some(effect) => seq![effect],
        None => Seq::empty(),
    }
}

/// One other player.
pub struct Peer {
    pub id: Id,
    pub cipher: Cipher,
    /// This side hosts the match.
    pub host: bool,
    pub allocation: String,
    pub socket: u64,
    /// The port of the socket.
    pub port: u16,
    pub game_address: Option<Address>,
    pub candidate: Option<Address>,
    /// The address that answered a probe, and when.
    pub direct: Option<(Address, u64)>,
    pub probe: [u8; 16],
}

/// The role that a side seals its frames under.
pub open spec fn role_of(host: bool) -> u8 {
    if host {
        0
    } else {
        1
    }
}

fn role(host: bool) -> (r: u8)
    ensures
        r == role_of(host),
{
    if host {
        0
    } else {
        1
    }
}

impl Peer {
    /// The cipher belongs to this pair and to this side of it.
    pub open spec fn is_sound(self) -> bool {
        self.cipher.id == self.id && self.cipher.role == role_of(self.host)
    }

    /// What a frame that is addressed to this pair brings: the other side's frames
    /// carry the other role.
    pub open spec fn delivered(self, frame: Seq<u8>) -> Option<(u8, Seq<u8>)> {
        self.cipher.delivered(frame, role_of(!self.host))
    }

    /// An answer to a probe is owed.
    pub open spec fn is_probed(self, frame: Seq<u8>, source: Option<Address>) -> bool {
        &&& source is Some
        &&& self.delivered(frame) is Some
        &&& (self.delivered(frame)->0).0 == PROBE
        &&& (self.delivered(frame)->0).1.len() == 16
    }

    /// What is sent on account of a frame.
    pub open spec fn reaction(self, frame: Seq<u8>, source: Option<Address>) -> Option<Effect> {
        match self.delivered(frame) {
            None => None,
            Some((kind, data)) => if kind == DATA {
                if self.host {
                    Some(Effect::Deliver { socket: self.socket, data, target: None })
                } else if self.game_address is Some {
                    Some(Effect::Deliver { socket: self.socket, data, target: self.game_address })
                } else {
                    None
                }
            } else if self.is_probed(frame, source) {
                match self.cipher.sealed(ACK, data) {
                    Some(ack) => Some(Effect::Send { frame: ack, to: source->0 }),
                    None => None,
                }
            } else {
                None
            },
        }
    }

    /// `after` is the peer once the frame was taken in: the frame is recorded, the
    /// sender of a probe becomes the candidate, and the sender of the answer to our
    /// probe becomes the direct address.
    pub open spec fn receives(
        self,
        frame: Seq<u8>,
        source: Option<Address>,
        now: u64,
        after: Peer,
    ) -> bool {
        let probed = self.is_probed(frame, source);
        let answered = source is Some && self.delivered(frame) == Some((ACK, self.probe@));
        &&& self.cipher.opens(
            frame,
            role_of(!self.host),
            (Cipher { sequence: self.cipher.sequence, ..after.cipher }),
        )
        &&& after.cipher.sequence == if probed {
            self.cipher.after_sealing((self.delivered(frame)->0).1).sequence
        } else {
            self.cipher.sequence
        }
        &&& after == Peer {
            cipher: after.cipher,
            candidate: if probed {
                source
            } else {
                self.candidate
            },
            direct: if answered {
                Some((source->0, now))
            } else {
                self.direct
            },
            ..self
        }
    }

    /// Takes in a frame; `source` is its sender unless it was relayed.
    pub fn receive(&mut self, frame: &[u8], source: Option<Address>, now: u64) -> (r: Option<Action>)
        ensures
            old(self).receives(frame@, source, now, *final(self)),
            match r {
                Some(action) => old(self).reaction(frame@, source) == Some(action.effect()),
                None => old(self).reaction(frame@, source) is None,
            },
    {
        let opened = self.cipher.open(frame, role(!self.host));
        match opened {
            None => None,
            Some((kind, data)) => {
                if kind == DATA {
                    if self.host {
                        Some(Action::Deliver { socket: self.socket, data, target: None })
                    } else {
                        match self.game_address {
                            Some(address) => Some(
                                Action::Deliver {
                                    socket: self.socket,
                                    data,
                                    target: Some(address),
                                },
                            ),
                            None => None,
                        }
                    }
                } else {
                    match source {
                        Some(address) => {
                            if kind == PROBE && data.len() == 16 {
                                let sealed = self.cipher.seal(ACK, data.as_slice());
                                self.candidate = Some(address);
                                match sealed {
                                    Some(frame) => Some(Action::Send { frame, to: address }),
                                    None => None,
                                }
                            } else {
                                if kind == ACK && same(data.as_slice(), self.probe.as_slice()) {
                                    self.direct = Some((address, now));
                                }
                                None
                            }
                        },
                        None => None,
                    }
                }
            },
        }
    }
}

impl Peer {
    /// What a tick of the clock sends to the candidate.
    pub open spec fn probing(self, probe: Seq<u8>) -> Option<Effect> {
        match (self.candidate, self.cipher.sealed(PROBE, probe)) {
            (Some(address), Some(frame)) => Some(Effect::Send { frame, to: address }),
            _ => None,
        }
    }

    /// The peer once its candidate was probed.
    pub open spec fn after_probing(self, probe: [u8; 16]) -> Peer {
        if self.candidate is Some {
            Peer { probe, cipher: self.cipher.after_sealing(probe@), ..self }
        } else {
            self
        }
    }

    /// Probes the candidate, if there is one.
    pub fn probe_candidate(&mut self, probe: [u8; 16]) -> (r: Option<Action>)
        ensures
            *final(self) == old(self).after_probing(probe),
            match r {
                Some(action) => old(self).probing(probe@) == Some(action.effect()),
                None => old(self).probing(probe@) is None,
            },
    {
        match self.candidate {
            Some(address) => {
                self.probe = probe;
                match self.cipher.seal(PROBE, probe.as_slice()) {
                    Some(frame) => Some(Action::Send { frame, to: address }),
                    None => None,
                }
            },
            None => None,
        }
    }

    /// The game may send from this address: a player that does not host plays with
    /// one game, from the address that it was first heard from.
    pub open spec fn hears(self, address: Address) -> bool {
        self.host || self.game_address is None || self.game_address == Some(address)
    }

    /// The peer once the game's datagram was sealed for it.
    pub open spec fn after_forwarding(self, data: Seq<u8>, address: Address) -> Peer {
        if !self.hears(address) {
            self
        } else {
            Peer {
                cipher: self.cipher.after_sealing(data),
                game_address: if self.host {
                    self.game_address
                } else {
                    Some(address)
                },
                ..self
            }
        }
    }

    /// The frame for the game's datagram.
    pub open spec fn forwarded(self, data: Seq<u8>, address: Address) -> Option<Seq<u8>> {
        if self.hears(address) {
            self.cipher.sealed(DATA, data)
        } else {
            None
        }
    }

    /// Seals a datagram of the game.
    pub fn forward(&mut self, data: &[u8], address: Address) -> (r: Option<Vec<u8>>)
        ensures
            *final(self) == old(self).after_forwarding(data@, address),
            match r {
                Some(frame) => old(self).forwarded(data@, address) == Some(frame@),
                None => old(self).forwarded(data@, address) is None,
            },
    {
        if !self.host {
            if let Some(previous) = self.game_address {
                if previous != address {
                    return None;
                }
            }
            self.game_address = Some(address);
        }
        self.cipher.seal(DATA, data)
    }
}

/// A way for a frame to reach the other player.
#[derive(Clone, Copy, Debug, PartialEq, Eq, Structural)]
pub enum Route {
    /// To the peer itself.
    Direct { address: Address },
    /// To the server's UDP relay.
    Rendezvous { address: Address },
    /// Over the connection to the server.
    Relay,
}

/// The datagram of the game is on its way: `frame` goes over the first of `routes`
/// that takes it.
pub struct Forward {
    pub frame: Vec<u8>,
    pub routes: Vec<Route>,
}

/// Where the peer with an identifier stands in a list.
pub open spec fn peer_at(peers: Seq<Peer>, id: Seq<u8>, i: int) -> bool {
    0 <= i < peers.len() && peers[i].id@ == id
}

pub open spec fn has_peer(peers: Seq<Peer>, id: Seq<u8>) -> bool {
    exists|i: int| #[trigger] peer_at(peers, id, i)
}

/// The peers of one match: every identifier occurs once, the list is ordered by it,
/// all belong to one allocation, and at most one of them is the host of this player.
pub open spec fn is_table(peers: Seq<Peer>) -> bool {
    &&& forall|i: int| 0 <= i < peers.len() ==> (#[trigger] peers[i]).is_sound()
    &&& forall|i: int, j: int|
        0 <= i < j < peers.len() ==> precedes(#[trigger] peers[i].id@, #[trigger] peers[j].id@)
    &&& forall|i: int, j: int|
        0 <= i < peers.len() && 0 <= j < peers.len() ==> #[trigger] peers[i].allocation@
            == #[trigger] peers[j].allocation@
    &&& forall|i: int, j: int|
        0 <= i < j < peers.len() ==> (#[trigger] peers[i]).host || (#[trigger] peers[j]).host
}

/// An identifier occurs at one place only.
proof fn lemma_table_is_injective(peers: Seq<Peer>, id: Seq<u8>, i: int, j: int)
    requires
        is_table(peers),
        peer_at(peers, id, i),
        peer_at(peers, id, j),
    ensures
        i == j,
{
    lemma_precedes_is_strict(id);
    if i < j {
        assert(precedes(peers[i].id@, peers[j].id@));
    } else if j < i {
        assert(precedes(peers[j].id@, peers[i].id@));
    }
}

fn find_peer(peers: &Vec<Peer>, id: &[u8]) -> (r: Option<usize>)
    ensures
        match r {
            Some(i) => peer_at(peers@, id@, i as int),
            None => !has_peer(peers@, id@),
        },
{
    let mut i: usize = 0;
    while i < peers.len()
        invariant
            i <= peers@.len(),
            forall|j: int| 0 <= j < i ==> !#[trigger] peer_at(peers@, id@, j),
        decreases peers@.len() - i,
    {
        if same(peers[i].id.as_slice(), id) {
            assert(peer_at(peers@, id@, i as int));
            return Some(i);
        }
        i = i + 1;
    }
    None
}

/// A peer keeps its place in the table as long as it keeps what it is.
proof fn lemma_table_keeps(peers: Seq<Peer>, i: int, peer: Peer)
    requires
        is_table(peers),
        0 <= i < peers.len(),
        peer.is_sound(),
        peer.id == peers[i].id,
        peer.host == peers[i].host,
        peer.allocation == peers[i].allocation,
    ensures
        is_table(peers.update(i, peer)),
{
    let after = peers.update(i, peer);
    assert forall|k: int| 0 <= k < after.len() implies (#[trigger] after[k]).is_sound() && after[k].id
        == peers[k].id && after[k].host == peers[k].host && after[k].allocation
        == peers[k].allocation by {
        assert(peers[k].is_sound());
    }
}

/// Why the bridge gives up.
#[derive(Clone, Copy, Debug, PartialEq, Eq, Structural)]
pub enum BridgeError {
    TimedOut,
    Overlapping,
}

impl BridgeError {
    pub open spec fn text(self) -> Seq<char> {
        match self {
            BridgeError::TimedOut => "player transport initialization timed out"@,
            BridgeError::Overlapping => "overlapping player transport allocations"@,
        }
    }

    pub fn message(&self) -> (r: String)
        ensures
            r@ == self.text(),
    {
        match self {
            BridgeError::TimedOut => "player transport initialization timed out".to_owned(),
            BridgeError::Overlapping => "overlapping player transport allocations".to_owned(),
        }
    }
}

/// The state of the bridge.
pub struct Bridge {
    /// What the next connection to the server is opened with.
    pub credential: String,
    pub discovery: Option<Cipher>,
    /// The server's UDP relay.
    pub rendezvous: Option<Address>,
    pub peers: Vec<Peer>,
    /// When a peer was let go, and its socket: it stays bound for a while, so that
    /// its port is not reused while the previous match is still being torn down.
    pub retired: Vec<(u64, u64)>,
    pub initialized: bool,
    pub connected: bool,
    pub last_server_received: u64,
    pub last_udp_ack: Option<u64>,
    pub started: u64,
}

/// The sockets that are still to be kept.
pub open spec fn kept_sockets(retired: Seq<(u64, u64)>, now: u64) -> Seq<(u64, u64)>
    decreases retired.len(),
{
    if retired.len() == 0 {
        retired
    } else if age(retired.last().0, now) < 30 * SECOND {
        kept_sockets(retired.drop_last(), now).push(retired.last())
    } else {
        kept_sockets(retired.drop_last(), now)
    }
}

/// The peers once each candidate was probed; the new probes are random.
pub open spec fn are_probed(before: Seq<Peer>, after: Seq<Peer>) -> bool {
    &&& before.len() == after.len()
    &&& forall|i: int|
        0 <= i < before.len() ==> #[trigger] after[i] == before[i].after_probing(after[i].probe)
}

/// What probing the candidates sends, in the order of the table.
pub open spec fn probe_effects(before: Seq<Peer>, after: Seq<Peer>) -> Seq<Effect>
    decreases before.len(),
{
    if before.len() == 0 || after.len() == 0 {
        Seq::empty()
    } else {
        probe_effects(before.drop_last(), after.drop_last()) + at_most(
            before.last().probing(after.last().probe@),
        )
    }
}

/// The first IPv4 address of a list.
pub open spec fn first_v4(addresses: Seq<Address>) -> Option<Address>
    decreases addresses.len(),
{
    if addresses.len() == 0 {
        None
    } else if first_v4(addresses.drop_last()) is Some {
        first_v4(addresses.drop_last())
    } else if !addresses.last().v6 {
        Some(addresses.last())
    } else {
        None
    }
}

impl Bridge {
    pub open spec fn is_sound(self) -> bool {
        &&& is_table(self.peers@)
        &&& self.discovery is Some ==> self.discovery->0.role == 0
    }

    /// A message to the server goes out only while a connection is open.
    pub open spec fn control(self, note: Note) -> Option<Effect> {
        if self.connected {
            Some(Effect::Control { note })
        } else {
            None
        }
    }

    /// The bridge never came to life.
    pub open spec fn is_late(self, now: u64) -> bool {
        !self.initialized && age(self.started, now) > 20 * SECOND
    }

    /// The connection is open and the server was heard of lately.
    pub open spec fn is_alive(self, now: u64) -> bool {
        self.connected && age(self.last_server_received, now) <= 45 * SECOND
    }

    /// What the discovery socket sends at a tick.
    pub open spec fn registering(self) -> Option<Effect> {
        match (self.discovery, self.rendezvous) {
            (Some(cipher), Some(address)) => match cipher.sealed(REGISTER, Seq::empty()) {
                Some(frame) => Some(Effect::Send { frame, to: address }),
                None => None,
            },
            _ => None,
        }
    }

    /// `after` is the bridge after a tick of its clock.
    pub open spec fn ticks(self, now: u64, after: Bridge) -> bool {
        &&& after.retired@ == kept_sockets(self.retired@, now)
        &&& are_probed(self.peers@, after.peers@)
        &&& after == Bridge {
            retired: after.retired,
            peers: after.peers,
            connected: self.is_alive(now),
            discovery: match (self.discovery, self.rendezvous) {
                (Some(cipher), Some(address)) => Some(cipher.after_sealing(Seq::empty())),
                _ => self.discovery,
            },
            ..self
        }
    }

    /// What a tick of the clock sends: a ping to the server, a registration with its
    /// UDP relay, and a probe to every candidate.
    pub open spec fn tick_effects(self, now: u64, after: Bridge) -> Seq<Effect> {
        at_most(after.control(Note::Ping)) + at_most(self.registering()) + probe_effects(
            self.peers@,
            after.peers@,
        )
    }

    /// The bridge before anything has happened.
    pub fn new(credential: String, now: u64) -> (r: Bridge)
        ensures
            r.is_sound(),
            r.credential == credential,
            r.discovery is None,
            r.rendezvous is None,
            r.peers@.len() == 0,
            r.retired@.len() == 0,
            !r.initialized,
            !r.connected,
            r.last_server_received == now,
            r.last_udp_ack is None,
            r.started == now,
    {
        Bridge {
            credential,
            discovery: None,
            rendezvous: None,
            peers: Vec::new(),
            retired: Vec::new(),
            initialized: false,
            connected: false,
            last_server_received: now,
            last_udp_ack: None,
            started: now,
        }
    }
}

fn keep_sockets(retired: &Vec<(u64, u64)>, now: u64) -> (r: Vec<(u64, u64)>)
    ensures
        r@ == kept_sockets(retired@, now),
{
    let mut r: Vec<(u64, u64)> = Vec::new();
    let mut i: usize = 0;
    assert(r@ =~= kept_sockets(retired@.take(0), now));
    while i < retired.len()
        invariant
            i <= retired@.len(),
            r@ == kept_sockets(retired@.take(i as int), now),
        decreases retired@.len() - i,
    {
        assert(retired@.take(i + 1).drop_last() =~= retired@.take(i as int));
        if elapsed(retired[i].0, now) < 30 * SECOND {
            r.push(retired[i]);
        }
        i = i + 1;
    }
    assert(retired@.take(i as int) =~= retired@);
    r
}

fn push_some(actions: &mut Vec<Action>, action: Option<Action>)
    ensures
        effects(final(actions)@) == effects(old(actions)@) + at_most(
            match action {
                Some(action) => Some(action.effect()),
                None => None,
            },
        ),
{
    let ghost before = effects(actions@);
    match action {
        Some(action) => {
            let ghost added = action.effect();
            actions.push(action);
            assert(effects(actions@) =~= before + seq![added]);
        },
        None => {
            assert(effects(actions@) =~= before + Seq::<Effect>::empty());
        },
    }
}

fn probe_all(peers: &mut Vec<Peer>, actions: &mut Vec<Action>)
    requires
        is_table(old(peers)@),
    ensures
        is_table(final(peers)@),
        are_probed(old(peers)@, final(peers)@),
        effects(final(actions)@) == effects(old(actions)@) + probe_effects(
            old(peers)@,
            final(peers)@,
        ),
{
    let ghost before = peers@;
    let ghost first = effects(actions@);
    let mut i: usize = 0;
    assert(effects(actions@) =~= first + probe_effects(before.take(0), peers@.take(0)));
    while i < peers.len()
        invariant
            i <= peers@.len(),
            peers@.len() == before.len(),
            is_table(peers@),
            forall|k: int|
                0 <= k < i ==> #[trigger] peers@[k] == before[k].after_probing(peers@[k].probe),
            forall|k: int| i <= k < peers@.len() ==> #[trigger] peers@[k] == before[k],
            effects(actions@) == first + probe_effects(
                before.take(i as int),
                peers@.take(i as int),
            ),
        decreases peers@.len() - i,
    {
        let ghost prior = peers@;
        let ghost sent = effects(actions@);
        let action = peers[i].probe_candidate(random());
        assert(peers@ =~= prior.update(i as int, peers@[i as int]));
        proof {
            lemma_table_keeps(prior, i as int, peers@[i as int]);
        }
        push_some(actions, action);
        assert(before.take(i + 1).drop_last() =~= before.take(i as int));
        assert(peers@.take(i + 1).drop_last() =~= prior.take(i as int));
        assert(effects(actions@) =~= first + probe_effects(before.take(i + 1), peers@.take(i + 1)));
        i = i + 1;
    }
    assert(before.take(i as int) =~= before);
    assert(peers@.take(i as int) =~= peers@);
}

impl Bridge {
    /// One tick of the clock, once a second.
    pub fn tick(&mut self, now: u64) -> (r: Result<Vec<Action>, BridgeError>)
        requires
            old(self).is_sound(),
        ensures
            final(self).is_sound(),
            r is Err <==> old(self).is_late(now),
            match r {
                Ok(actions) => old(self).ticks(now, *final(self)) && effects(actions@) == old(
                    self,
                ).tick_effects(now, *final(self)),
                Err(error) => error == BridgeError::TimedOut && final(self).retired@
                    == kept_sockets(old(self).retired@, now) && *final(self) == (Bridge {
                    retired: final(self).retired,
                    ..*old(self)
                }),
            },
    {
        self.retired = keep_sockets(&self.retired, now);
        if !self.initialized && elapsed(self.started, now) > 20 * SECOND {
            return Err(BridgeError::TimedOut);
        }
        if self.connected && elapsed(self.last_server_received, now) > 45 * SECOND {
            self.connected = false;
        }
        let mut actions: Vec<Action> = Vec::new();
        assert(effects(actions@) =~= Seq::empty());
        push_some(
            &mut actions,
            if self.connected {
                Some(Action::Control { message: ClientMessage::Ping })
            } else {
                None
            },
        );
        let mut registration: Option<Action> = None;
        if let Some(address) = self.rendezvous {
            if let Some(cipher) = &mut self.discovery {
                let nothing: [u8; 0] = [];
                assert(nothing@ =~= Seq::empty());
                if let Some(frame) = cipher.seal(REGISTER, nothing.as_slice()) {
                    registration = Some(Action::Send { frame, to: address });
                }
            }
        }
        push_some(&mut actions, registration);
        probe_all(&mut self.peers, &mut actions);
        Ok(actions)
    }
}

/// The server brings two players together.
pub struct Pair {
    pub id: Id,
    pub key: [u8; 32],
    pub host: bool,
    pub host_port: u16,
    pub allocation: String,
    pub candidate: Option<Address>,
}

/// What is to be done about a pair.
pub enum PairStep {
    /// The pair is known already; the server is told the port of its socket.
    Known { ready: Option<Action> },
    /// A loopback socket is to be bound for it.
    Bind { pair: Pair },
}

/// What is to be done about the socket that was bound for a pair.
pub enum Admission {
    /// The game itself is to listen on that port: bind another one, and only then
    /// close this one.
    Rebind { pair: Pair },
    /// The pair is in the table; the server is told the port of its socket.
    Enrolled { ready: Option<Action> },
}

/// The peers that belong to an allocation.
pub open spec fn kept_peers(peers: Seq<Peer>, allocation: Seq<char>) -> Seq<Peer>
    decreases peers.len(),
{
    if peers.len() == 0 {
        peers
    } else if peers.last().allocation@ == allocation {
        kept_peers(peers.drop_last(), allocation).push(peers.last())
    } else {
        kept_peers(peers.drop_last(), allocation)
    }
}

/// The sockets of the peers that do not belong to an allocation.
pub open spec fn obsolete_sockets(peers: Seq<Peer>, allocation: Seq<char>, now: u64) -> Seq<
    (u64, u64),
>
    decreases peers.len(),
{
    if peers.len() == 0 {
        Seq::empty()
    } else if peers.last().allocation@ == allocation {
        obsolete_sockets(peers.drop_last(), allocation, now)
    } else {
        obsolete_sockets(peers.drop_last(), allocation, now).push((now, peers.last().socket))
    }
}

/// This player is a guest of someone in the table already.
pub open spec fn is_guest(peers: Seq<Peer>) -> bool {
    exists|i: int| 0 <= i < peers.len() && !(#[trigger] peers[i]).host
}

fn guest(peers: &Vec<Peer>) -> (r: bool)
    ensures
        r == is_guest(peers@),
{
    let mut i: usize = 0;
    while i < peers.len()
        invariant
            i <= peers@.len(),
            forall|k: int| 0 <= k < i ==> (#[trigger] peers@[k]).host,
        decreases peers@.len() - i,
    {
        if !peers[i].host {
            return true;
        }
        i = i + 1;
    }
    false
}

/// What is kept was there, in the same order.
proof fn lemma_kept_peers(peers: Seq<Peer>, allocation: Seq<char>)
    requires
        is_table(peers),
    ensures
        is_table(kept_peers(peers, allocation)),
        forall|k: int|
            0 <= k < kept_peers(peers, allocation).len() ==> (#[trigger] kept_peers(
                peers,
                allocation,
            )[k]).allocation@ == allocation && peers.contains(kept_peers(peers, allocation)[k]),
    decreases peers.len(),
{
    if peers.len() > 0 {
        let front = peers.drop_last();
        assert(is_table(front)) by {
            assert forall|i: int| 0 <= i < front.len() implies (#[trigger] front[i]).is_sound() by {
                assert(peers[i].is_sound());
            }
            assert forall|i: int, j: int| 0 <= i < j < front.len() implies precedes(
                #[trigger] front[i].id@,
                #[trigger] front[j].id@,
            ) by {
                assert(precedes(peers[i].id@, peers[j].id@));
            }
            assert forall|i: int, j: int|
                0 <= i < front.len() && 0 <= j < front.len() implies #[trigger] front[i].allocation@
                == #[trigger] front[j].allocation@ by {
                assert(peers[i].allocation@ == peers[j].allocation@);
            }
            assert forall|i: int, j: int| 0 <= i < j < front.len() implies (#[trigger] front[i]).host
                || (#[trigger] front[j]).host by {
                assert(peers[i].host || peers[j].host);
            }
        }
        lemma_kept_peers(front, allocation);
        let before = kept_peers(front, allocation);
        let after = kept_peers(peers, allocation);
        assert forall|k: int| 0 <= k < before.len() implies peers.contains(
            #[trigger] before[k],
        ) && precedes(before[k].id@, peers.last().id@) && (before[k].host || peers.last().host) by {
            let m = choose|m: int| 0 <= m < front.len() && front[m] == before[k];
            assert(peers[m] == before[k]);
            assert(precedes(peers[m].id@, peers[peers.len() - 1].id@));
            assert(peers[m].host || peers[peers.len() - 1].host);
        }
        if peers.last().allocation@ == allocation {
            assert(peers[peers.len() - 1].is_sound());
            assert(peers.contains(peers.last()));
            assert forall|i: int| 0 <= i < after.len() implies (#[trigger] after[i]).is_sound()
                && after[i].allocation@ == allocation && peers.contains(after[i]) by {
                if i < before.len() {
                    assert(after[i] == before[i]);
                }
            }
            assert forall|i: int, j: int| 0 <= i < j < after.len() implies precedes(
                #[trigger] after[i].id@,
                #[trigger] after[j].id@,
            ) by {
                if j < before.len() {
                    assert(precedes(before[i].id@, before[j].id@));
                } else {
                    assert(after[i] == before[i]);
                }
            }
            assert forall|i: int, j: int| 0 <= i < j < after.len() implies (#[trigger] after[i]).host
                || (#[trigger] after[j]).host by {
                if j < before.len() {
                    assert(before[i].host || before[j].host);
                } else {
                    assert(after[i] == before[i]);
                }
            }
        }
    }
}

impl Bridge {
    /// The table holds the match that a pair belongs to, and has room for the pair.
    pub open spec fn awaits(self, pair: Pair) -> bool {
        &&& !has_peer(self.peers@, pair.id@)
        &&& forall|i: int|
            0 <= i < self.peers@.len() ==> (#[trigger] self.peers@[i]).allocation@
                == pair.allocation@
        &&& pair.host || !is_guest(self.peers@)
    }

    /// The peers of another allocation are let go.
    pub open spec fn switches(self, allocation: Seq<char>, now: u64, after: Bridge) -> bool {
        &&& after.peers@ == kept_peers(self.peers@, allocation)
        &&& after.retired@ == self.retired@ + obsolete_sockets(self.peers@, allocation, now)
        &&& after == Bridge { peers: after.peers, retired: after.retired, ..self }
    }

    fn switch(&mut self, allocation: &str, now: u64)
        requires
            old(self).is_sound(),
        ensures
            final(self).is_sound(),
            old(self).switches(allocation@, now, *final(self)),
    {
        let ghost all = self.peers@;
        let ghost earlier = self.retired@;
        proof {
            lemma_kept_peers(all, allocation@);
        }
        let mut i: usize = 0;
        let ghost mut seen: int = 0;
        assert(all.skip(0) =~= all);
        assert(all.take(0) =~= Seq::empty());
        assert(self.retired@ =~= earlier + obsolete_sockets(all.take(0), allocation@, now));
        assert(self.peers@.take(0) =~= kept_peers(all.take(0), allocation@));
        while i < self.peers.len()
            invariant
                0 <= i <= self.peers@.len(),
                0 <= seen <= all.len(),
                self.peers@.len() - i == all.len() - seen,
                self.peers@.take(i as int) == kept_peers(all.take(seen), allocation@),
                self.peers@.skip(i as int) == all.skip(seen),
                self.retired@ == earlier + obsolete_sockets(all.take(seen), allocation@, now),
                *self == (Bridge { peers: self.peers, retired: self.retired, ..*old(self) }),
            decreases self.peers@.len() - i,
        {
            let ghost k = seen;
            let ghost table = self.peers@;
            assert(all.take(k + 1).drop_last() =~= all.take(k));
            assert(table[i as int] == table.skip(i as int)[0]);
            assert(all[k] == all.skip(k)[0]);
            assert(all.skip(k).skip(1) =~= all.skip(k + 1));
            if spells(letters(self.peers[i].allocation.as_str()).as_slice(), allocation) {
                assert(table.take(i + 1) =~= table.take(i as int).push(all[k]));
                assert(table.skip(i + 1) =~= table.skip(i as int).skip(1));
                i = i + 1;
            } else {
                let peer = self.peers.remove(i);
                self.retired.push((now, peer.socket));
                assert(self.peers@.take(i as int) =~= table.take(i as int));
                assert(self.peers@.skip(i as int) =~= table.skip(i as int).skip(1));
                assert(self.retired@ =~= earlier + obsolete_sockets(
                    all.take(k + 1),
                    allocation@,
                    now,
                ));
            }
            proof {
                seen = k + 1;
            }
        }
        assert(all.take(seen) =~= all);
        assert(self.peers@.take(i as int) =~= self.peers@);
    }

    /// The message that tells the server about the socket of a pair.
    pub open spec fn readiness(self, id: Seq<u8>, port: u16) -> Option<Effect> {
        self.control(Note::Ready { id, proxy_port: port })
    }

    fn ready(&self, id: Id, port: u16) -> (r: Option<Action>)
        ensures
            match r {
                Some(action) => self.readiness(id@, port) == Some(action.effect()),
                None => self.readiness(id@, port) is None,
            },
    {
        if self.connected {
            Some(Action::Control { message: ClientMessage::Ready { id, proxy_port: port } })
        } else {
            None
        }
    }

    /// `after` and `r` are what a pair leads to: whatever belongs to another match is let
    /// go, and a pair that is not known yet gets a place, unless this player would be the
    /// guest of two hosts.
    pub open spec fn pairs(
        self,
        pair: Pair,
        now: u64,
        after: Bridge,
        r: Result<PairStep, BridgeError>,
    ) -> bool {
        &&& self.switches(pair.allocation@, now, after)
        &&& match r {
            Ok(PairStep::Known { ready }) => exists|i: int|
                {
                    &&& #[trigger] peer_at(after.peers@, pair.id@, i)
                    &&& after.readiness(pair.id@, after.peers@[i].port) == match ready {
                        Some(action) => Some(action.effect()),
                        None => None,
                    }
                },
            Ok(PairStep::Bind { pair: waiting }) => waiting == pair && after.awaits(pair),
            Err(error) => error == BridgeError::Overlapping && !has_peer(after.peers@, pair.id@)
                && !pair.host && is_guest(after.peers@),
        }
    }

    /// The server brings two players together.
    pub fn pair(&mut self, pair: Pair, now: u64) -> (r: Result<PairStep, BridgeError>)
        requires
            old(self).is_sound(),
        ensures
            final(self).is_sound(),
            old(self).pairs(pair, now, *final(self), r),
    {
        proof {
            lemma_kept_peers(self.peers@, pair.allocation@);
        }
        self.switch(pair.allocation.as_str(), now);
        if let Some(i) = find_peer(&self.peers, pair.id.as_slice()) {
            let ready = self.ready(pair.id, self.peers[i].port);
            return Ok(PairStep::Known { ready });
        }
        if !pair.host && guest(&self.peers) {
            return Err(BridgeError::Overlapping);
        }
        Ok(PairStep::Bind { pair })
    }
}

/// The table with a pair added to it.
proof fn lemma_table_grows(peers: Seq<Peer>, i: int, peer: Peer)
    requires
        is_table(peers),
        0 <= i <= peers.len(),
        peer.is_sound(),
        forall|k: int| 0 <= k < i ==> precedes(#[trigger] peers[k].id@, peer.id@),
        forall|k: int| i <= k < peers.len() ==> precedes(peer.id@, #[trigger] peers[k].id@),
        forall|k: int|
            0 <= k < peers.len() ==> (#[trigger] peers[k]).allocation@ == peer.allocation@,
        peer.host || !is_guest(peers),
    ensures
        is_table(peers.insert(i, peer)),
{
    let after = peers.insert(i, peer);
    assert forall|k: int| 0 <= k < after.len() implies #[trigger] after[k] == (if k < i {
        peers[k]
    } else if k == i {
        peer
    } else {
        peers[k - 1]
    }) by {}
    assert forall|k: int| 0 <= k < after.len() implies (#[trigger] after[k]).is_sound()
        && after[k].allocation@ == peer.allocation@ by {
        if k < i {
            assert(peers[k].is_sound());
        } else if k > i {
            assert(peers[k - 1].is_sound());
        }
    }
    assert forall|k: int, m: int| 0 <= k < m < after.len() implies precedes(
        #[trigger] after[k].id@,
        #[trigger] after[m].id@,
    ) by {
        let from = if k < i {
            k
        } else {
            k - 1
        };
        let to = if m < i {
            m
        } else {
            m - 1
        };
        if k != i && m != i {
            assert(precedes(peers[from].id@, peers[to].id@));
        } else if k == i {
            assert(precedes(peer.id@, peers[m - 1].id@));
        } else {
            assert(precedes(peers[k].id@, peer.id@));
        }
    }
    assert forall|k: int, m: int| 0 <= k < m < after.len() implies (#[trigger] after[k]).host || (
    #[trigger] after[m]).host by {
        let from = if k < i {
            k
        } else {
            k - 1
        };
        let to = if m < i {
            m
        } else {
            m - 1
        };
        if k != i && m != i {
            assert(peers[from].host || peers[to].host);
        } else if k == i {
            assert(!peer.host ==> peers[m - 1].host);
        } else {
            assert(!peer.host ==> peers[k].host);
        }
    }
}

/// Where a pair belongs in the table.
fn place_for(peers: &Vec<Peer>, id: &Id) -> (r: usize)
    requires
        is_table(peers@),
        !has_peer(peers@, id@),
    ensures
        r <= peers@.len(),
        forall|k: int| 0 <= k < r ==> precedes(#[trigger] peers@[k].id@, id@),
        forall|k: int| r <= k < peers@.len() ==> precedes(id@, #[trigger] peers@[k].id@),
{
    let mut i: usize = 0;
    while i < peers.len() && comes_before(peers[i].id.as_slice(), id.as_slice())
        invariant
            i <= peers@.len(),
            forall|k: int| 0 <= k < i ==> precedes(#[trigger] peers@[k].id@, id@),
        decreases peers@.len() - i,
    {
        i = i + 1;
    }
    assert forall|k: int| i <= k < peers@.len() implies precedes(id@, #[trigger] peers@[k].id@) by {
        assert(!peer_at(peers@, id@, i as int));
        lemma_precedes_is_total(peers@[i as int].id@, id@);
        if k > i {
            assert(precedes(peers@[i as int].id@, peers@[k].id@));
            lemma_precedes_is_transitive(id@, peers@[i as int].id@, peers@[k].id@);
        }
    }
    i
}

impl Pair {
    /// `peer` is what the pair becomes.
    pub open spec fn becomes(self, socket: u64, port: u16, probe: [u8; 16], peer: Peer) -> bool {
        &&& peer.id == self.id
        &&& peer.cipher.id == self.id
        &&& peer.cipher.key == self.key
        &&& peer.cipher.role == role_of(self.host)
        &&& peer.cipher.sequence == 0
        &&& peer.cipher.received.is_fresh()
        &&& peer.host == self.host
        &&& peer.allocation == self.allocation
        &&& peer.socket == socket
        &&& peer.port == port
        &&& peer.game_address is None
        &&& peer.candidate == self.candidate
        &&& peer.direct is None
        &&& peer.probe == probe
    }
}

impl Bridge {
    /// A socket was bound for a pair. When it took the port that the game is to host
    /// on, another one is asked for, once.
    pub fn enroll(&mut self, pair: Pair, socket: u64, port: u16, rebound: bool, probe: [u8; 16]) -> (r:
        Admission)
        requires
            old(self).is_sound(),
            old(self).awaits(pair),
        ensures
            final(self).is_sound(),
            match r {
                Admission::Rebind { pair: waiting } => {
                    &&& pair.host && port == pair.host_port && !rebound
                    &&& waiting == pair
                    &&& *final(self) == *old(self)
                },
                Admission::Enrolled { ready } => {
                    &&& !(pair.host && port == pair.host_port && !rebound)
                    &&& exists|i: int|
                        {
                            &&& #[trigger] peer_at(final(self).peers@, pair.id@, i)
                            &&& pair.becomes(socket, port, probe, final(self).peers@[i])
                            &&& final(self).peers@ == old(self).peers@.insert(
                                i,
                                final(self).peers@[i],
                            )
                        }
                    &&& *final(self) == (Bridge { peers: final(self).peers, ..*old(self) })
                    &&& old(self).readiness(pair.id@, port) == match ready {
                        Some(action) => Some(action.effect()),
                        None => None,
                    }
                },
            },
    {
        if pair.host && port == pair.host_port && !rebound {
            return Admission::Rebind { pair };
        }
        let id: Id = pair.id;
        let place = place_for(&self.peers, &id);
        let cipher = Cipher::new(pair.id, pair.key, role(pair.host));
        let peer = Peer {
            id: pair.id,
            cipher,
            host: pair.host,
            allocation: pair.allocation,
            socket,
            port,
            game_address: None,
            candidate: pair.candidate,
            direct: None,
            probe,
        };
        proof {
            lemma_table_grows(self.peers@, place as int, peer);
        }
        self.peers.insert(place, peer);
        assert(peer_at(self.peers@, id@, place as int));
        let ready = self.ready(id, port);
        Admission::Enrolled { ready }
    }

    /// A connection to the server is open.
    pub fn connect(&mut self, now: u64)
        requires
            old(self).is_sound(),
        ensures
            final(self).is_sound(),
            *final(self) == (Bridge { connected: true, last_server_received: now, ..*old(self) }),
    {
        self.connected = true;
        self.last_server_received = now;
    }

    /// The connection is gone; another one is to be opened with the credential.
    pub fn disconnect(&mut self)
        requires
            old(self).is_sound(),
        ensures
            final(self).is_sound(),
            *final(self) == (Bridge { connected: false, ..*old(self) }),
    {
        self.connected = false;
    }

    /// `after` is the bridge once the server knows this player: the first welcome sets
    /// the cipher for the server's UDP relay.
    pub open spec fn welcomes(
        self,
        id: Id,
        key: [u8; 32],
        resume: String,
        addresses: Seq<Address>,
        after: Bridge,
    ) -> bool {
        &&& after == Bridge {
            credential: resume,
            discovery: after.discovery,
            rendezvous: first_v4(addresses),
            initialized: true,
            ..self
        }
        &&& match (self.discovery, after.discovery) {
            (Some(before), Some(cipher)) => cipher == before,
            (None, Some(cipher)) => cipher.id == id && cipher.key == key && cipher.role == 0
                && cipher.sequence == 0 && cipher.received.is_fresh(),
            _ => false,
        }
    }

    /// The server knows this player. `addresses` are those that the name of its UDP
    /// relay stands for. True when this is the first welcome, which is when the game
    /// may start.
    pub fn welcome(&mut self, id: Id, key: [u8; 32], resume: String, addresses: &Vec<Address>) -> (r:
        bool)
        requires
            old(self).is_sound(),
        ensures
            final(self).is_sound(),
            r == !old(self).initialized,
            old(self).welcomes(id, key, resume, addresses@, *final(self)),
    {
        self.credential = resume;
        if self.discovery.is_none() {
            self.discovery = Some(Cipher::new(id, key, 0));
        }
        self.rendezvous = pick_v4(addresses);
        let first = !self.initialized;
        self.initialized = true;
        first
    }

    /// `after` is the bridge once it heard of another address of a peer.
    pub open spec fn learns(self, id: Id, address: Address, after: Bridge) -> bool {
        &&& after == Bridge { peers: after.peers, ..self }
        &&& !has_peer(self.peers@, id@) ==> after.peers@ == self.peers@
        &&& forall|i: int| #[trigger]
            peer_at(self.peers@, id@, i) ==> after.peers@ == self.peers@.update(
                i,
                (Peer { candidate: Some(address), ..self.peers@[i] }),
            )
    }

    /// The server heard of another address of a peer.
    pub fn learn(&mut self, id: Id, address: Address)
        requires
            old(self).is_sound(),
        ensures
            final(self).is_sound(),
            old(self).learns(id, address, *final(self)),
    {
        if let Some(i) = find_peer(&self.peers, id.as_slice()) {
            let ghost table = self.peers@;
            self.peers[i].candidate = Some(address);
            assert(self.peers@ =~= table.update(i as int, self.peers@[i as int]));
            proof {
                assert(table[i as int].is_sound());
                lemma_table_keeps(table, i as int, self.peers@[i as int]);
                assert forall|k: int| #[trigger] peer_at(table, id@, k) implies k == i by {
                    lemma_table_is_injective(table, id@, i as int, k);
                }
            }
        }
    }

    /// `after` is the bridge once a pair is over.
    pub open spec fn closes(self, id: Id, now: u64, after: Bridge) -> bool {
        &&& after == Bridge { peers: after.peers, retired: after.retired, ..self }
        &&& !has_peer(after.peers@, id@)
        &&& !has_peer(self.peers@, id@) ==> after == self
        &&& forall|i: int| #[trigger]
            peer_at(self.peers@, id@, i) ==> after.peers@ == self.peers@.remove(i)
                && after.retired@ == self.retired@.push((now, self.peers@[i].socket))
    }

    /// A pair is over. Its socket is kept for a while.
    pub fn close(&mut self, id: Id, now: u64)
        requires
            old(self).is_sound(),
        ensures
            final(self).is_sound(),
            old(self).closes(id, now, *final(self)),
    {
        if let Some(i) = find_peer(&self.peers, id.as_slice()) {
            let ghost table = self.peers@;
            let peer = self.peers.remove(i);
            self.retired.push((now, peer.socket));
            proof {
                let after = self.peers@;
                assert forall|k: int| 0 <= k < after.len() implies #[trigger] after[k] == table[if k
                    < i {
                    k
                } else {
                    k + 1
                }] by {}
                assert forall|k: int| 0 <= k < after.len() implies (#[trigger] after[k]).is_sound() by {
                    assert(table[if k < i {
                        k
                    } else {
                        k + 1
                    }].is_sound());
                }
                assert forall|k: int| #[trigger] peer_at(table, id@, k) implies k == i by {
                    lemma_table_is_injective(table, id@, i as int, k);
                }
                assert forall|k: int| !#[trigger] peer_at(after, id@, k) by {
                    if peer_at(after, id@, k) {
                        let m = if k < i {
                            k
                        } else {
                            k + 1
                        };
                        assert(peer_at(table, id@, m));
                    }
                }
            }
        }
    }
}

/// What a message of the server leads to.
pub enum ServerStep {
    Nothing,
    /// The server knows this player for the first time: the game may start.
    Announce,
    Pair { step: PairStep },
}

impl Bridge {
    /// The bridge once it was heard from the server.
    pub open spec fn heard(self, now: u64) -> Bridge {
        Bridge { last_server_received: now, ..self }
    }

    /// A message of the server. `addresses` are those that the name of the UDP relay in
    /// a welcome stands for.
    pub fn server(&mut self, message: ServerMessage, addresses: &Vec<Address>, now: u64) -> (r: Result<
        ServerStep,
        BridgeError,
    >)
        requires
            old(self).is_sound(),
        ensures
            final(self).is_sound(),
            ({
                let heard = old(self).heard(now);
                match message {
                    ServerMessage::Welcome { id, key, resume, udp } => heard.welcomes(
                        id,
                        key,
                        resume,
                        if udp is Some {
                            addresses@
                        } else {
                            Seq::empty()
                        },
                        *final(self),
                    ) && r == Ok::<ServerStep, BridgeError>(
                        if heard.initialized {
                            ServerStep::Nothing
                        } else {
                            ServerStep::Announce
                        },
                    ),
                    ServerMessage::Pair { id, key, host, host_port, allocation, candidate } => {
                        let pair = Pair { id, key, host, host_port, allocation, candidate };
                        match r {
                            Ok(ServerStep::Pair { step }) => heard.pairs(
                                pair,
                                now,
                                *final(self),
                                Ok(step),
                            ),
                            Ok(_) => false,
                            Err(error) => heard.pairs(pair, now, *final(self), Err(error)),
                        }
                    },
                    ServerMessage::Candidate { id, address } => heard.learns(
                        id,
                        address,
                        *final(self),
                    ) && r == Ok::<ServerStep, BridgeError>(ServerStep::Nothing),
                    ServerMessage::Close { id } => heard.closes(id, now, *final(self)) && r == Ok::<
                        ServerStep,
                        BridgeError,
                    >(ServerStep::Nothing),
                    ServerMessage::Pong => *final(self) == heard && r == Ok::<
                        ServerStep,
                        BridgeError,
                    >(ServerStep::Nothing),
                }
            }),
    {
        self.last_server_received = now;
        match message {
            ServerMessage::Welcome { id, key, resume, udp } => {
                let nowhere: Vec<Address> = Vec::new();
                assert(nowhere@ =~= Seq::empty());
                let first = match udp {
                    Some(_) => self.welcome(id, key, resume, addresses),
                    None => self.welcome(id, key, resume, &nowhere),
                };
                if first {
                    Ok(ServerStep::Announce)
                } else {
                    Ok(ServerStep::Nothing)
                }
            },
            ServerMessage::Pair { id, key, host, host_port, allocation, candidate } => {
                let pair = Pair { id, key, host, host_port, allocation, candidate };
                match self.pair(pair, now) {
                    Ok(step) => Ok(ServerStep::Pair { step }),
                    Err(error) => Err(error),
                }
            },
            ServerMessage::Candidate { id, address } => {
                self.learn(id, address);
                Ok(ServerStep::Nothing)
            },
            ServerMessage::Close { id } => {
                self.close(id, now);
                Ok(ServerStep::Nothing)
            },
            ServerMessage::Pong => Ok(ServerStep::Nothing),
        }
    }
}

fn pick_v4(addresses: &Vec<Address>) -> (r: Option<Address>)
    ensures
        r == first_v4(addresses@),
{
    let mut i: usize = 0;
    assert(addresses@.take(0) =~= Seq::empty());
    while i < addresses.len()
        invariant
            i <= addresses@.len(),
            first_v4(addresses@.take(i as int)) is None,
        decreases addresses@.len() - i,
    {
        assert(addresses@.take(i + 1).drop_last() =~= addresses@.take(i as int));
        if !addresses[i].v6 {
            proof {
                lemma_first_v4_stays(addresses@, i + 1);
            }
            return Some(addresses[i]);
        }
        i = i + 1;
    }
    assert(addresses@.take(i as int) =~= addresses@);
    None
}

proof fn lemma_first_v4_stays(addresses: Seq<Address>, i: int)
    requires
        0 <= i <= addresses.len(),
        first_v4(addresses.take(i)) is Some,
    ensures
        first_v4(addresses) == first_v4(addresses.take(i)),
    decreases addresses.len(),
{
    if i == addresses.len() {
        assert(addresses.take(i) =~= addresses);
    } else {
        assert(addresses.drop_last().take(i) =~= addresses.take(i));
        lemma_first_v4_stays(addresses.drop_last(), i);
    }
}

/// The address answered lately.
pub open spec fn is_recent(seen: u64, now: u64) -> bool {
    age(seen, now) < 3 * SECOND
}

impl Bridge {
    /// `after` and `effect` are what a frame from the network leads to: the peer that
    /// the frame names takes it in, and nobody else notices.
    pub open spec fn takes_in(
        self,
        frame: Seq<u8>,
        source: Option<Address>,
        now: u64,
        after: Bridge,
        effect: Option<Effect>,
    ) -> bool {
        if frame.len() < HEADER + 17 || !has_peer(self.peers@, frame.take(16)) {
            after == self && effect is None
        } else {
            &&& after == Bridge { peers: after.peers, ..self }
            &&& forall|i: int| #[trigger]
                peer_at(self.peers@, frame.take(16), i) ==> {
                    &&& self.peers@[i].receives(frame, source, now, after.peers@[i])
                    &&& after.peers@ == self.peers@.update(i, after.peers@[i])
                    &&& effect == self.peers@[i].reaction(frame, source)
                }
        }
    }

    /// A frame that came over the connection to the server or from the network. One
    /// that was relayed has no `source`.
    pub fn receive(&mut self, frame: &[u8], source: Option<Address>, now: u64) -> (r: Option<Action>)
        requires
            old(self).is_sound(),
        ensures
            final(self).is_sound(),
            old(self).takes_in(
                frame@,
                source,
                now,
                *final(self),
                match r {
                    Some(action) => Some(action.effect()),
                    None => None,
                },
            ),
    {
        if frame.len() < HEADER + 17 {
            return None;
        }
        let id = part(frame, 0, 16);
        assert(id@ =~= frame@.take(16));
        match find_peer(&self.peers, id.as_slice()) {
            None => None,
            Some(i) => {
                let ghost table = self.peers@;
                let action = self.peers[i].receive(frame, source, now);
                assert(self.peers@ =~= table.update(i as int, self.peers@[i as int]));
                proof {
                    assert(table[i as int].is_sound());
                    lemma_table_keeps(table, i as int, self.peers@[i as int]);
                    assert forall|k: int| #[trigger] peer_at(table, id@, k) implies k == i by {
                        lemma_table_is_injective(table, id@, i as int, k);
                    }
                }
                action
            },
        }
    }

    /// The relay's answer to a registration.
    pub open spec fn challenge(self, frame: Seq<u8>, address: Address) -> Option<Seq<u8>> {
        match self.discovery {
            Some(cipher) => match cipher.delivered(frame, 1) {
                Some((kind, data)) => if self.rendezvous == Some(address) && kind == ACK {
                    Some(data)
                } else {
                    None
                },
                None => None,
            },
            None => None,
        }
    }

    /// The bridge once the relay's frame was offered to the discovery cipher.
    pub open spec fn discovers(self, frame: Seq<u8>, after: Bridge) -> bool {
        &&& after == Bridge { discovery: after.discovery, ..self }
        &&& match (self.discovery, after.discovery) {
            (Some(before), Some(opened)) => before.opens(frame, 1, opened),
            (None, None) => true,
            _ => false,
        }
    }

    /// A datagram from the network. The relay's answers to our registrations prove
    /// that the relay is reachable; its other frames are relayed ones, and their
    /// sender is not taken for a peer.
    pub fn network(&mut self, frame: &[u8], address: Address, now: u64) -> (r: Option<Action>)
        requires
            old(self).is_sound(),
        ensures
            final(self).is_sound(),
            ({
                let effect = match r {
                    Some(action) => Some(action.effect()),
                    None => None,
                };
                if old(self).rendezvous != Some(address) {
                    old(self).takes_in(frame@, Some(address), now, *final(self), effect)
                } else {
                    match old(self).challenge(frame@, address) {
                        Some(data) => exists|opened: Bridge|
                            {
                                &&& #[trigger] old(self).discovers(frame@, opened)
                                &&& *final(self) == Bridge {
                                    last_udp_ack: if data.len() == 16 {
                                        Some(now)
                                    } else {
                                        opened.last_udp_ack
                                    },
                                    ..opened
                                }
                                &&& effect == if data.len() == 16 {
                                    old(self).control(Note::UdpReady { challenge: data })
                                } else {
                                    None
                                }
                            },
                        None => exists|opened: Bridge|
                            {
                                &&& #[trigger] old(self).discovers(frame@, opened)
                                &&& opened.takes_in(frame@, None, now, *final(self), effect)
                            },
                    }
                }
            }),
    {
        let relayed = match self.rendezvous {
            Some(relay) => relay == address,
            None => false,
        };
        if !relayed {
            return self.receive(frame, Some(address), now);
        }
        let mut answer: Option<(u8, Vec<u8>)> = None;
        if let Some(cipher) = &mut self.discovery {
            answer = cipher.open(frame, 1);
        }
        let ghost opened = *self;
        assert(old(self).discovers(frame@, opened));
        match answer {
            Some((kind, data)) => {
                if kind == ACK {
                    if data.len() != 16 {
                        return None;
                    }
                    self.last_udp_ack = Some(now);
                    if !self.connected {
                        return None;
                    }
                    let challenge: Id = id_of(data.as_slice());
                    return Some(Action::Control { message: ClientMessage::UdpReady { challenge } });
                }
            },
            None => {},
        }
        self.receive(frame, None, now)
    }

    /// The peer that a datagram of the game is for: the one whose socket it came to,
    /// or the host of this player.
    pub open spec fn is_recipient(self, id: Option<Id>, i: int) -> bool {
        &&& 0 <= i < self.peers@.len()
        &&& match id {
            Some(id) => self.peers@[i].id@ == id@,
            None => !self.peers@[i].host,
        }
    }

    /// The ways that a frame may go, the best one first.
    pub open spec fn routes(self, peer: Peer, size: nat, now: u64) -> Seq<Route> {
        let fits = size <= MAX_DATAGRAM;
        (match peer.direct {
            Some((address, seen)) => if is_recent(seen, now) && fits {
                seq![Route::Direct { address }]
            } else {
                Seq::empty()
            },
            None => Seq::empty(),
        }) + (match (self.rendezvous, self.last_udp_ack) {
            (Some(address), Some(seen)) => if is_recent(seen, now) && fits {
                seq![Route::Rendezvous { address }]
            } else {
                Seq::empty()
            },
            _ => Seq::empty(),
        }) + (if self.connected {
            seq![Route::Relay]
        } else {
            Seq::empty()
        })
    }

    fn choose_routes(&self, direct: Option<(Address, u64)>, size: usize, now: u64) -> (r: Vec<
        Route,
    >)
        ensures
            forall|peer: Peer|
                peer.direct == direct ==> r@ == #[trigger] self.routes(peer, size as nat, now),
    {
        let mut r: Vec<Route> = Vec::new();
        if size <= MAX_DATAGRAM {
            if let Some((address, seen)) = direct {
                if elapsed(seen, now) < 3 * SECOND {
                    r.push(Route::Direct { address });
                }
            }
            if let (Some(address), Some(seen)) = (self.rendezvous, self.last_udp_ack) {
                if elapsed(seen, now) < 3 * SECOND {
                    r.push(Route::Rendezvous { address });
                }
            }
        }
        if self.connected {
            r.push(Route::Relay);
        }
        assert forall|peer: Peer| peer.direct == direct implies r@ == #[trigger] self.routes(
            peer,
            size as nat,
            now,
        ) by {
            assert(r@ =~= self.routes(peer, size as nat, now));
        }
        r
    }

    /// A datagram of the game is worth looking at.
    pub open spec fn is_game_data(data: Seq<u8>, address: Address) -> bool {
        data.len() <= MAX_GAME_PACKET && address.is_loopback()
    }

    /// A datagram of the game, from the socket of the peer `id` or from the one that
    /// all share.
    pub fn local(&mut self, id: Option<Id>, data: &[u8], address: Address, now: u64) -> (r: Option<
        Forward,
    >)
        requires
            old(self).is_sound(),
        ensures
            final(self).is_sound(),
            *final(self) == (Bridge { peers: final(self).peers, ..*old(self) }),
            !Bridge::is_game_data(data@, address) || !(exists|i: int| #[trigger]
                old(self).is_recipient(id, i)) ==> r is None && final(self).peers@ == old(
                self,
            ).peers@,
            Bridge::is_game_data(data@, address) ==> forall|i: int| #[trigger]
                old(self).is_recipient(id, i) ==> {
                    let peer = old(self).peers@[i];
                    &&& final(self).peers@ == old(self).peers@.update(
                        i,
                        peer.after_forwarding(data@, address),
                    )
                    &&& match r {
                        Some(forward) => {
                            &&& peer.forwarded(data@, address) == Some(forward.frame@)
                            &&& forward.routes@ == old(self).routes(peer, forward.frame@.len(), now)
                        },
                        None => peer.forwarded(data@, address) is None,
                    }
                },
    {
        if data.len() > MAX_GAME_PACKET || !address.loopback() {
            return None;
        }
        let found = match &id {
            Some(id) => find_peer(&self.peers, id.as_slice()),
            None => find_host(&self.peers),
        };
        match found {
            None => {
                assert forall|i: int| !#[trigger] self.is_recipient(id, i) by {
                    if let Some(wanted) = id {
                        assert(!peer_at(self.peers@, wanted@, i));
                    }
                }
                None
            },
            Some(i) => {
                let ghost table = self.peers@;
                assert(self.is_recipient(id, i as int));
                proof {
                    assert forall|k: int| #[trigger] self.is_recipient(id, k) implies k == i by {
                        if let Some(wanted) = id {
                            assert(peer_at(table, wanted@, k));
                            assert(peer_at(table, wanted@, i as int));
                            lemma_table_is_injective(table, wanted@, i as int, k);
                        } else if i < k {
                            assert(table[i as int].host || table[k].host);
                        } else if k < i {
                            assert(table[k].host || table[i as int].host);
                        }
                    }
                }
                let direct = self.peers[i].direct;
                let sealed = self.peers[i].forward(data, address);
                assert(self.peers@ =~= table.update(i as int, self.peers@[i as int]));
                proof {
                    assert(table[i as int].is_sound());
                    lemma_table_keeps(table, i as int, self.peers@[i as int]);
                }
                match sealed {
                    None => None,
                    Some(frame) => {
                        let routes = self.choose_routes(direct, frame.len(), now);
                        assert(routes@ == self.routes(table[i as int], frame@.len(), now));
                        Some(Forward { frame, routes })
                    },
                }
            },
        }
    }
}

fn find_host(peers: &Vec<Peer>) -> (r: Option<usize>)
    ensures
        match r {
            Some(i) => i < peers@.len() && !peers@[i as int].host,
            None => !is_guest(peers@),
        },
{
    let mut i: usize = 0;
    while i < peers.len()
        invariant
            i <= peers@.len(),
            forall|k: int| 0 <= k < i ==> (#[trigger] peers@[k]).host,
        decreases peers@.len() - i,
    {
        if !peers[i].host {
            return Some(i);
        }
        i = i + 1;
    }
    None
}

fn id_of(bytes: &[u8]) -> (r: Id)
    requires
        bytes@.len() == 16,
    ensures
        r@ == bytes@,
{
    let mut id: Id = [0;16];
    let mut i: usize = 0;
    while i < 16
        invariant
            i <= 16,
            bytes@.len() == 16,
            forall|k: int| 0 <= k < i ==> #[trigger] id@[k] == bytes@[k],
        decreases 16 - i,
    {
        id[i] = bytes[i];
        i = i + 1;
    }
    assert(id@ =~= bytes@);
    id
}

/// A relayed frame never makes its sender a candidate or a direct address, whatever
/// it holds.
pub proof fn law_relayed_frame_nominates_nobody(before: Peer, frame: Seq<u8>, now: u64, after: Peer)
    requires
        before.receives(frame, None, now, after),
    ensures
        after.candidate == before.candidate,
        after.direct == before.direct,
{
}

/// A peer becomes directly reachable only at the address that the answer to our own
/// probe came from.
pub proof fn law_direct_address_answered_our_probe(
    before: Peer,
    frame: Seq<u8>,
    source: Option<Address>,
    now: u64,
    after: Peer,
)
    requires
        before.receives(frame, source, now, after),
        after.direct != before.direct,
    ensures
        source is Some,
        after.direct == Some((source->0, now)),
        before.delivered(frame) == Some((ACK, before.probe@)),
{
}

/// A frame that does not name a pair of the table changes nothing and sends nothing.
pub proof fn law_foreign_frame_is_ignored(
    before: Bridge,
    frame: Seq<u8>,
    source: Option<Address>,
    now: u64,
    after: Bridge,
    effect: Option<Effect>,
)
    requires
        before.takes_in(frame, source, now, after, effect),
        !has_peer(before.peers@, frame.take(16)),
    ensures
        after == before,
        effect is None,
{
}

/// A frame that a peer took in is not taken in again: brought a second time it
/// delivers nothing and is answered by nothing.
pub proof fn law_replayed_frame_is_ignored(
    before: Peer,
    frame: Seq<u8>,
    source: Option<Address>,
    now: u64,
    after: Peer,
    again: Option<Address>,
)
    requires
        before.receives(frame, source, now, after),
    ensures
        after.delivered(frame) is None,
        after.reaction(frame, again) is None,
{
    let role = role_of(!before.host);
    if before.delivered(frame) is Some {
        law_delivered_frame_is_refused(before.cipher.received, after.cipher.received, frame);
    }
}

} // verus!
