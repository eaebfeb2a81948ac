use dko_launcher::p2p::bridge::{
    Action, Admission, Bridge, BridgeError, Pair, PairStep, Route, ServerStep, SECOND,
};
use dko_launcher::p2p::protocol::{Address, ClientMessage, ServerMessage};
use dko_launcher::p2p::wire::{Cipher, ACK, DATA, PROBE, REGISTER};

fn address(last: u8, port: u16) -> Address {
    Address { v6: false, ip: 0x0a00_0000 + last as u128, port, flow: 0, scope: 0 }
}

fn game(port: u16) -> Address {
    Address { v6: false, ip: 0x7f00_0001, port, flow: 0, scope: 0 }
}

fn pair(id: u8, host: bool, allocation: &str) -> Pair {
    Pair {
        id: [id; 16],
        key: [id; 32],
        host,
        host_port: 7777,
        allocation: allocation.to_owned(),
        candidate: None,
    }
}

fn enroll(bridge: &mut Bridge, pair: Pair, socket: u64) {
    match bridge.pair(pair, 0) {
        Ok(PairStep::Bind { pair }) => match bridge.enroll(pair, socket, 4000, false, [1; 16]) {
            Admission::Enrolled { .. } => {}
            Admission::Rebind { .. } => panic!("rebind"),
        },
        _ => panic!("not new"),
    }
}

fn started() -> Bridge {
    let mut bridge = Bridge::new("ticket".to_owned(), 0);
    bridge.connect(0);
    assert!(bridge.welcome([5; 16], [6; 32], "resume".to_owned(), &vec![address(9, 99)]));
    bridge
}

fn hear(bridge: &mut Bridge, now: u64) {
    assert!(matches!(bridge.server(ServerMessage::Pong, &Vec::new(), now), Ok(ServerStep::Nothing)));
    assert_eq!(bridge.last_server_received, now);
}

#[test]
fn messages_of_the_server() {
    let none = Vec::new();
    let mut bridge = Bridge::new("t".to_owned(), 0);
    let welcome = || ServerMessage::Welcome { id: [5; 16], key: [6; 32], resume: "r".to_owned(), udp: None };
    assert!(matches!(bridge.server(welcome(), &none, 1), Ok(ServerStep::Announce)));
    assert!(matches!(bridge.server(welcome(), &vec![address(2, 2)], 2), Ok(ServerStep::Nothing)));
    assert_eq!(bridge.rendezvous, None);
    let relayed =
        ServerMessage::Welcome { id: [5; 16], key: [6; 32], resume: "r".to_owned(), udp: Some("h:1".to_owned()) };
    assert!(matches!(bridge.server(relayed, &vec![address(2, 2)], 2), Ok(ServerStep::Nothing)));
    assert_eq!(bridge.rendezvous, Some(address(2, 2)));
    let pair = |id: u8, host| ServerMessage::Pair {
        id: [id; 16],
        key: [id; 32],
        host,
        host_port: 1,
        allocation: "m".to_owned(),
        candidate: None,
    };
    match bridge.server(pair(1, false), &none, 3) {
        Ok(ServerStep::Pair { step: PairStep::Bind { pair } }) => {
            assert!(matches!(bridge.enroll(pair, 9, 4000, false, [1; 16]), Admission::Enrolled { ready: None }));
        }
        _ => panic!("not new"),
    }
    assert!(matches!(bridge.server(pair(2, false), &none, 3), Err(BridgeError::Overlapping)));
    let candidate = ServerMessage::Candidate { id: [1; 16], address: address(4, 4) };
    assert!(matches!(bridge.server(candidate, &none, 4), Ok(ServerStep::Nothing)));
    assert_eq!(bridge.peers[0].candidate, Some(address(4, 4)));
    assert!(matches!(bridge.server(ServerMessage::Close { id: [1; 16] }, &none, 5), Ok(ServerStep::Nothing)));
    assert_eq!(bridge.retired, vec![(5, 9)]);
    assert_eq!(bridge.last_server_received, 5);
}

#[test]
fn loopback_addresses() {
    assert!(game(1).loopback());
    assert!(!address(1, 1).loopback());
    assert!(Address { v6: true, ip: 1, port: 0, flow: 0, scope: 0 }.loopback());
    assert!(!Address { v6: true, ip: 0x7f00_0001, port: 0, flow: 0, scope: 0 }.loopback());
}

#[test]
fn bridge_gives_up_when_it_is_never_welcomed() {
    let mut bridge = Bridge::new("t".to_owned(), 0);
    assert!(bridge.tick(20 * SECOND).is_ok());
    let error = bridge.tick(20 * SECOND + 1).err().unwrap();
    assert_eq!(error, BridgeError::TimedOut);
    assert_eq!(error.message(), "player transport initialization timed out");
}

#[test]
fn welcome_announces_once_and_picks_an_ipv4_address() {
    let mut bridge = Bridge::new("t".to_owned(), 0);
    let six = Address { v6: true, ip: 5, port: 1, flow: 0, scope: 0 };
    assert!(bridge.welcome([5; 16], [6; 32], "a".to_owned(), &vec![six, address(2, 2), address(3, 3)]));
    assert_eq!(bridge.rendezvous, Some(address(2, 2)));
    assert_eq!(bridge.credential, "a");
    assert!(!bridge.welcome([8; 16], [8; 32], "b".to_owned(), &Vec::new()));
    assert_eq!(bridge.rendezvous, None);
    assert_eq!(bridge.credential, "b");
    assert_eq!(bridge.discovery.as_ref().unwrap().id, [5; 16]);
}

#[test]
fn tick_pings_registers_and_probes() {
    let mut bridge = started();
    let mut first = pair(2, true, "m");
    first.candidate = Some(address(2, 20));
    enroll(&mut bridge, first, 1);
    enroll(&mut bridge, pair(1, true, "m"), 2);
    let actions = bridge.tick(SECOND).ok().unwrap();
    assert_eq!(actions.len(), 3);
    assert!(matches!(actions[0], Action::Control { message: ClientMessage::Ping }));
    let mut relay = Cipher::new([5; 16], [6; 32], 1);
    match &actions[1] {
        Action::Send { frame, to } => {
            assert_eq!(*to, address(9, 99));
            assert_eq!(relay.open(frame, 0), Some((REGISTER, Vec::new())));
        }
        _ => panic!("no registration"),
    }
    let mut other = Cipher::new([2; 16], [2; 32], 1);
    match &actions[2] {
        Action::Send { frame, to } => {
            assert_eq!(*to, address(2, 20));
            let (kind, probe) = other.open(frame, 0).unwrap();
            assert_eq!(kind, PROBE);
            assert_eq!(probe, bridge.peers[1].probe.to_vec());
        }
        _ => panic!("no probe"),
    }
}

#[test]
fn a_silent_server_counts_as_gone() {
    let mut bridge = started();
    hear(&mut bridge, 10 * SECOND);
    assert!(matches!(bridge.tick(55 * SECOND).ok().unwrap()[0], Action::Control { .. }));
    bridge.tick(55 * SECOND + 1).ok().unwrap();
    assert!(!bridge.connected);
    bridge.connect(60 * SECOND);
    assert!(bridge.connected);
    bridge.disconnect();
    assert!(!bridge.connected);
}

#[test]
fn peers_are_ordered_and_known_pairs_are_repeated() {
    let mut bridge = started();
    enroll(&mut bridge, pair(9, true, "m"), 1);
    enroll(&mut bridge, pair(3, true, "m"), 2);
    enroll(&mut bridge, pair(5, true, "m"), 3);
    let ids: Vec<u8> = bridge.peers.iter().map(|p| p.id[0]).collect();
    assert_eq!(ids, vec![3, 5, 9]);
    match bridge.pair(pair(5, true, "m"), 0) {
        Ok(PairStep::Known { ready: Some(Action::Control { message: ClientMessage::Ready { id, proxy_port } }) }) => {
            assert_eq!((id, proxy_port), ([5; 16], 4000));
        }
        _ => panic!("not known"),
    }
}

#[test]
fn another_match_lets_go_of_the_previous_one() {
    let mut bridge = started();
    enroll(&mut bridge, pair(1, true, "a"), 11);
    enroll(&mut bridge, pair(2, true, "a"), 12);
    match bridge.pair(pair(3, true, "b"), 5 * SECOND) {
        Ok(PairStep::Bind { .. }) => {}
        _ => panic!("not new"),
    }
    assert!(bridge.peers.is_empty());
    assert_eq!(bridge.retired, vec![(5 * SECOND, 11), (5 * SECOND, 12)]);
    hear(&mut bridge, 30 * SECOND);
    bridge.tick(35 * SECOND - 1).ok().unwrap();
    assert_eq!(bridge.retired.len(), 2);
    bridge.tick(35 * SECOND).ok().unwrap();
    assert!(bridge.retired.is_empty());
}

#[test]
fn a_player_is_the_guest_of_one_host() {
    let mut bridge = started();
    enroll(&mut bridge, pair(1, false, "a"), 1);
    enroll(&mut bridge, pair(4, true, "a"), 2);
    let error = bridge.pair(pair(2, false, "a"), 0).err().unwrap();
    assert_eq!(error, BridgeError::Overlapping);
    assert_eq!(error.message(), "overlapping player transport allocations");
}

#[test]
fn the_game_keeps_its_port() {
    let mut bridge = started();
    let Ok(PairStep::Bind { pair }) = bridge.pair(pair(1, true, "a"), 0) else { panic!("known") };
    let Admission::Rebind { pair } = bridge.enroll(pair, 1, 7777, false, [0; 16]) else { panic!("kept") };
    assert!(matches!(bridge.enroll(pair, 1, 7777, true, [0; 16]), Admission::Enrolled { .. }));
    assert_eq!(bridge.peers.len(), 1);
}

#[test]
fn closing_retires_the_socket() {
    let mut bridge = started();
    enroll(&mut bridge, pair(1, true, "a"), 11);
    bridge.close([2; 16], 1);
    assert_eq!(bridge.peers.len(), 1);
    bridge.close([1; 16], 1);
    assert!(bridge.peers.is_empty());
    assert_eq!(bridge.retired, vec![(1, 11)]);
}

#[test]
fn data_reaches_the_game() {
    let mut bridge = started();
    enroll(&mut bridge, pair(1, true, "a"), 11);
    enroll(&mut bridge, pair(2, false, "a"), 12);
    let mut guest = Cipher::new([1; 16], [1; 32], 1);
    let frame = guest.seal(DATA, b"move").unwrap();
    match bridge.receive(&frame, None, 0) {
        Some(Action::Deliver { socket: 11, data, target: None }) => assert_eq!(data, b"move"),
        _ => panic!("not delivered"),
    }
    assert!(bridge.receive(&frame, None, 0).is_none());
    let mut host = Cipher::new([2; 16], [2; 32], 0);
    let early = host.seal(DATA, b"early").unwrap();
    assert!(bridge.receive(&early, None, 0).is_none());
    bridge.local(None, b"hi", game(50), 0).unwrap();
    let late = host.seal(DATA, b"late").unwrap();
    match bridge.receive(&late, None, 0) {
        Some(Action::Deliver { socket: 12, data, target }) => {
            assert_eq!((data, target), (b"late".to_vec(), Some(game(50))));
        }
        _ => panic!("not delivered"),
    }
}

#[test]
fn probes_are_answered_and_relayed_ones_are_not() {
    let mut bridge = started();
    enroll(&mut bridge, pair(1, true, "a"), 11);
    let mut guest = Cipher::new([1; 16], [1; 32], 1);
    let relayed = guest.seal(PROBE, &[3; 16]).unwrap();
    assert!(bridge.network(&relayed, address(9, 99), 0).is_none());
    assert_eq!(bridge.peers[0].candidate, None);
    let direct = guest.seal(PROBE, &[4; 16]).unwrap();
    match bridge.network(&direct, address(2, 2), 0) {
        Some(Action::Send { frame, to }) => {
            assert_eq!(to, address(2, 2));
            assert_eq!(guest.open(&frame, 0), Some((ACK, vec![4; 16])));
        }
        _ => panic!("no answer"),
    }
    assert_eq!(bridge.peers[0].candidate, Some(address(2, 2)));
    let short = guest.seal(PROBE, &[4; 15]).unwrap();
    assert!(bridge.network(&short, address(3, 3), 0).is_none());
    assert_eq!(bridge.peers[0].candidate, Some(address(2, 2)));
}

#[test]
fn an_answer_to_our_probe_opens_the_direct_way() {
    let mut bridge = started();
    enroll(&mut bridge, pair(1, true, "a"), 11);
    let mut guest = Cipher::new([1; 16], [1; 32], 1);
    let wrong = guest.seal(ACK, &[2; 16]).unwrap();
    bridge.network(&wrong, address(2, 2), SECOND);
    assert_eq!(bridge.peers[0].direct, None);
    let answer = guest.seal(ACK, &[1; 16]).unwrap();
    bridge.network(&answer, address(2, 2), SECOND);
    assert_eq!(bridge.peers[0].direct, Some((address(2, 2), SECOND)));
}

#[test]
fn routes_are_tried_from_the_best_on() {
    let mut bridge = started();
    enroll(&mut bridge, pair(1, true, "a"), 11);
    let id = Some([1; 16]);
    assert_eq!(bridge.local(id, b"x", game(1), 0).unwrap().routes, vec![Route::Relay]);
    let mut relay = Cipher::new([5; 16], [6; 32], 1);
    let challenge = relay.seal(ACK, &[7; 16]).unwrap();
    match bridge.network(&challenge, address(9, 99), SECOND) {
        Some(Action::Control { message: ClientMessage::UdpReady { challenge } }) => {
            assert_eq!(challenge, [7; 16]);
        }
        _ => panic!("no answer to the challenge"),
    }
    let mut guest = Cipher::new([1; 16], [1; 32], 1);
    let answer = guest.seal(ACK, &[1; 16]).unwrap();
    bridge.network(&answer, address(2, 2), 2 * SECOND);
    let all = bridge.local(id, b"x", game(1), 2 * SECOND).unwrap();
    assert_eq!(
        all.routes,
        vec![Route::Direct { address: address(2, 2) }, Route::Rendezvous { address: address(9, 99) }, Route::Relay]
    );
    let later = bridge.local(id, b"x", game(1), 4 * SECOND).unwrap();
    assert_eq!(later.routes, vec![Route::Direct { address: address(2, 2) }, Route::Relay]);
    let large = bridge.local(id, &[0; 1191], game(1), 2 * SECOND).unwrap();
    assert_eq!(large.routes, vec![Route::Relay]);
    assert_eq!(large.frame.len(), 1233);
    assert_eq!(bridge.local(id, &[0; 1190], game(1), 2 * SECOND).unwrap().routes.len(), 3);
    bridge.disconnect();
    assert!(bridge.local(id, b"x", game(1), 10 * SECOND).unwrap().routes.is_empty());
}

#[test]
fn a_short_challenge_is_swallowed() {
    let mut bridge = started();
    let mut relay = Cipher::new([5; 16], [6; 32], 1);
    let short = relay.seal(ACK, &[7; 15]).unwrap();
    assert!(bridge.network(&short, address(9, 99), SECOND).is_none());
    assert_eq!(bridge.last_udp_ack, None);
}

#[test]
fn only_the_local_game_is_heard() {
    let mut bridge = started();
    assert!(bridge.local(None, b"x", game(1), 0).is_none());
    enroll(&mut bridge, pair(1, false, "a"), 11);
    assert!(bridge.local(None, b"x", address(1, 1), 0).is_none());
    assert!(bridge.local(Some([2; 16]), b"x", game(1), 0).is_none());
    assert!(bridge.local(None, b"x", game(1), 0).is_some());
    assert!(bridge.local(None, b"x", game(2), 0).is_none());
    assert!(bridge.local(Some([1; 16]), b"x", game(1), 0).is_some());
    assert!(bridge.local(None, &[0; 65_508], game(1), 0).is_none());
}

#[test]
fn the_server_may_name_another_candidate() {
    let mut bridge = started();
    enroll(&mut bridge, pair(1, true, "a"), 11);
    bridge.learn([1; 16], address(8, 8));
    bridge.learn([2; 16], address(9, 9));
    assert_eq!(bridge.peers[0].candidate, Some(address(8, 8)));
}

#[test]
fn short_and_unknown_frames_are_ignored() {
    let mut bridge = started();
    enroll(&mut bridge, pair(1, true, "a"), 11);
    assert!(bridge.receive(&[1; 41], None, 0).is_none());
    assert!(bridge.receive(&[2; 60], Some(address(1, 1)), 0).is_none());
}
