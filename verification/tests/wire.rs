use chacha20poly1305::aead::{Aead, Payload};
use chacha20poly1305::{ChaCha20Poly1305, KeyInit, Nonce};
use dko_launcher::p2p::wire::{random, Cipher, PacketWindow, ACK, DATA, HEADER, MAX_FRAME, MAX_GAME_PACKET, PROBE, REGISTER};

fn pair() -> (Cipher, Cipher) {
    let id = [7u8; 16];
    let key = [9u8; 32];
    (Cipher::new(id, key, 0), Cipher::new(id, key, 1))
}

#[test]
fn constants_of_the_frame() {
    assert_eq!((HEADER, MAX_GAME_PACKET, MAX_FRAME), (25, 65_507, 65_549));
    assert_eq!((DATA, PROBE, ACK, REGISTER), (0, 1, 2, 3));
}

#[test]
fn sealed_frames_are_opened_once() {
    let (mut host, mut guest) = pair();
    let frame = host.seal(DATA, b"hello").unwrap();
    assert_eq!(frame.len(), HEADER + 17 + 5);
    assert_eq!(&frame[..16], &[7u8; 16]);
    assert_eq!(frame[16], 0);
    assert_eq!(&frame[17..25], &[0u8; 8]);
    assert_ne!(&frame[26..31], b"hello");
    assert_eq!(guest.open(&frame, 0), Some((DATA, b"hello".to_vec())));
    assert_eq!(guest.open(&frame, 0), None);
}

#[test]
fn frames_are_sealed_as_the_cipher_prescribes() {
    let (mut host, _) = pair();
    host.seal(PROBE, b"first").unwrap();
    let frame = host.seal(PROBE, b"second").unwrap();
    let nonce = [0u8, 0, 0, 0, 0, 0, 0, 0, 0, 0, 0, 1];
    let expected = ChaCha20Poly1305::new((&[9u8; 32]).into())
        .encrypt(Nonce::from_slice(&nonce), Payload { msg: b"\x01second", aad: &frame[..HEADER] })
        .unwrap();
    assert_eq!(&frame[HEADER..], expected.as_slice());
}

#[test]
fn damaged_and_foreign_frames_are_refused() {
    let (mut host, mut guest) = pair();
    let frame = host.seal(DATA, b"x").unwrap();
    for i in 0..frame.len() {
        let mut damaged = frame.clone();
        damaged[i] ^= 1;
        assert_eq!(guest.open(&damaged, 0), None, "byte {i}");
    }
    assert_eq!(guest.open(&frame, 1), None);
    assert_eq!(guest.open(&frame[..41], 0), None);
    assert_eq!(guest.open(&vec![0u8; MAX_FRAME + 1], 0), None);
    assert!(guest.open(&frame, 0).is_some());
}

#[test]
fn packets_are_limited_and_numbers_run_out() {
    let (mut host, mut guest) = pair();
    assert!(host.seal(DATA, &vec![1; MAX_GAME_PACKET + 1]).is_none());
    let largest = host.seal(DATA, &vec![1; MAX_GAME_PACKET]).unwrap();
    assert_eq!(largest.len(), MAX_FRAME);
    assert_eq!(guest.open(&largest, 0).unwrap().1.len(), MAX_GAME_PACKET);
    host.sequence = u64::MAX - 1;
    assert!(host.seal(DATA, b"last").is_some());
    assert!(host.seal(DATA, b"none").is_none());
}

#[test]
fn reordered_packets_are_accepted_within_the_window() {
    let (mut host, mut guest) = pair();
    let frames: Vec<Vec<u8>> = (0..200u8).map(|i| host.seal(DATA, &[i]).unwrap()).collect();
    assert!(guest.open(&frames[150], 0).is_some());
    assert!(guest.open(&frames[23], 0).is_some());
    assert!(guest.open(&frames[22], 0).is_none());
    assert!(guest.open(&frames[23], 0).is_none());
    assert!(guest.open(&frames[199], 0).is_some());
    assert!(guest.open(&frames[71], 0).is_none());
    assert!(guest.open(&frames[72], 0).is_some());
}

#[test]
fn window_remembers_what_it_took_in() {
    let mut window = PacketWindow::default();
    assert!(window.accepts(5));
    window.commit(5);
    assert!(!window.accepts(5));
    assert!(window.accepts(4));
    window.commit(1000);
    assert!(!window.accepts(5));
    assert!(window.accepts(873));
    assert!(!window.accepts(872));
    window.commit(873);
    assert!(!window.accepts(873));
    window.commit(1127);
    assert!(!window.accepts(1000));
}

#[test]
fn random_bytes_differ() {
    let first: [u8; 16] = random();
    let second: [u8; 16] = random();
    assert_ne!(first, second);
}
