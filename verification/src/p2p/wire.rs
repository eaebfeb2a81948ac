//! Authenticated datagrams shared by the direct and relayed player transports.
//!
//! A frame is the 16-byte pair identifier, the sender's role, the 64-bit sequence
//! number in big-endian order and the sealed payload. The first 25 bytes are
//! authenticated but not hidden; the payload is one kind byte and the data.
use crate::text::{append, part, same};
use chacha20poly1305::aead::{Aead, Payload};
use chacha20poly1305::{ChaCha20Poly1305, KeyInit, Nonce};
use rand_core::{OsRng, RngCore};
use vstd::prelude::*;

verus! {

pub const HEADER: usize = 25;

pub const MAX_GAME_PACKET: usize = 65_507;

pub const MAX_FRAME: usize = 65_549;

pub const DATA: u8 = 0;

pub const PROBE: u8 = 1;

pub const ACK: u8 = 2;

pub const REGISTER: u8 = 3;

/// What `ChaCha20Poly1305` makes of a message: the hidden message and its tag.
pub uninterp spec fn sealed_bytes(
    key: Seq<u8>,
    nonce: Seq<u8>,
    message: Seq<u8>,
    header: Seq<u8>,
) -> Seq<u8>;

/// What `ChaCha20Poly1305` recovers from a sealed message, if it is authentic.
pub uninterp spec fn opened_bytes(
    key: Seq<u8>,
    nonce: Seq<u8>,
    sealed: Seq<u8>,
    header: Seq<u8>,
) -> Option<Seq<u8>>;

/// `ChaCha20Poly1305::encrypt` under a fresh cipher for `key`. Messages of this
/// size are always accepted, and the 16-byte tag is all that is added to them.
#[verifier::external_body]
fn encrypt(key: &[u8; 32], nonce: &[u8; 12], message: &[u8], header: &[u8]) -> (r: Vec<u8>)
    requires
        message@.len() <= MAX_GAME_PACKET + 1,
        header@.len() == HEADER,
    ensures
        r@ == sealed_bytes(key@, nonce@, message@, header@),
        r@.len() == message@.len() + 16,
{
    ChaCha20Poly1305::new(key.into())
        .encrypt(Nonce::from_slice(nonce), Payload { msg: message, aad: header })
        .unwrap()
}

/// `ChaCha20Poly1305::decrypt` under a fresh cipher for `key`. What comes out is 16
/// bytes shorter than what went in, and whatever was sealed under the same key,
/// nonce and header is given back.
#[verifier::external_body]
fn decrypt(key: &[u8; 32], nonce: &[u8; 12], sealed: &[u8], header: &[u8]) -> (r: Option<Vec<u8>>)
    requires
        sealed@.len() <= MAX_FRAME,
        header@.len() == HEADER,
    ensures
        r is Some <==> opened_bytes(key@, nonce@, sealed@, header@) is Some,
        r is Some ==> opened_bytes(key@, nonce@, sealed@, header@) == Some(r->0@),
        r is Some ==> r->0@.len() + 16 == sealed@.len(),
        forall|message: Seq<u8>|
            message.len() <= MAX_GAME_PACKET + 1 && #[trigger] sealed_bytes(
                key@,
                nonce@,
                message,
                header@,
            ) == sealed@ ==> r is Some && r->0@ == message,
{
    ChaCha20Poly1305::new(key.into())
        .decrypt(Nonce::from_slice(nonce), Payload { msg: sealed, aad: header })
        .ok()
}

/// Bytes from the operating system's random generator (`OsRng::fill_bytes`).
/// Nothing is promised about their values.
#[verifier::external_body]
pub fn random<const N: usize>() -> (value: [u8; N]) {
    let mut value = [0; N];
    OsRng.fill_bytes(&mut value);
    value
}

/// Bit `k` of a bitmap.
pub open spec fn bit_at(bits: u128, k: u64) -> bool {
    bits & (1u128 << k) != 0
}

/// A bounded packet window permits UDP reordering without accepting duplicates.
pub struct PacketWindow {
    pub highest: Option<u64>,
    pub seen: u128,
}

impl Default for PacketWindow {
    fn default() -> (r: PacketWindow)
        ensures
            r.is_fresh(),
    {
        PacketWindow { highest: None, seen: 0 }
    }
}

impl PacketWindow {
    /// Nothing was received yet.
    pub open spec fn is_fresh(self) -> bool {
        self.highest is None
    }

    /// `sequence` lies in the window and was received.
    pub open spec fn holds(self, sequence: u64) -> bool {
        &&& self.highest is Some
        &&& sequence <= self.highest->0
        &&& self.highest->0 - sequence < 128
        &&& bit_at(self.seen, (self.highest->0 - sequence) as u64)
    }

    /// `sequence` lies beyond the window or inside of it.
    pub open spec fn reaches(self, sequence: u64) -> bool {
        self.highest is Some && sequence <= self.highest->0 ==> self.highest->0 - sequence < 128
    }

    /// A packet of this number is new.
    pub open spec fn admits(self, sequence: u64) -> bool {
        self.reaches(sequence) && !self.holds(sequence)
    }

    /// The window after `sequence` was received: the highest number moves up to it
    /// if it is higher, and inside the window exactly it and what was held before
    /// is held.
    pub open spec fn receives(self, sequence: u64, after: PacketWindow) -> bool {
        &&& after.highest == Some(
            if self.highest is Some && sequence <= self.highest->0 {
                self.highest->0
            } else {
                sequence
            },
        )
        &&& forall|other: u64| #[trigger]
            after.holds(other) <==> (after.reaches(other) && other <= after.highest->0 && (other
                == sequence || self.holds(other)))
    }

    /// Whether a packet of this number may still be delivered.
    pub fn accepts(&self, sequence: u64) -> (r: bool)
        ensures
            r == self.admits(sequence),
    {
        match self.highest {
            None => true,
            Some(highest) => {
                if sequence > highest {
                    true
                } else {
                    highest - sequence < 128 && self.seen & (1u128 << (highest - sequence)) == 0
                }
            },
        }
    }

    /// Records a packet of this number.
    pub fn commit(&mut self, sequence: u64)
        requires
            old(self).reaches(sequence),
        ensures
            old(self).receives(sequence, *final(self)),
    {
        let ghost before = *self;
        match self.highest {
            None => {
                self.highest = Some(sequence);
                self.seen = 1;
                proof {
                    lemma_bit_of_one();
                }
            },
            Some(highest) => {
                if sequence > highest {
                    let step: u64 = sequence - highest;
                    let shifted: u128 = if step >= 128 {
                        1
                    } else {
                        (self.seen << step) | 1
                    };
                    self.seen = shifted;
                    self.highest = Some(sequence);
                    proof {
                        if step >= 128 {
                            lemma_bit_of_one();
                        } else {
                            lemma_bit_of_shifted(before.seen, step);
                        }
                    }
                    assert forall|other: u64| #[trigger] self.holds(other) <==> (self.reaches(other)
                        && other <= sequence && (other == sequence || before.holds(other))) by {
                        if self.reaches(other) && other <= sequence {
                            let k = (sequence - other) as u64;
                            if step < 128 && k >= step {
                                assert((k - step) as u64 == (highest - other) as u64);
                            }
                        }
                    }
                } else {
                    let k: u64 = highest - sequence;
                    self.seen = self.seen | (1u128 << k);
                    proof {
                        lemma_bit_of_set(before.seen, k);
                    }
                }
            },
        }
    }
}

proof fn lemma_bit_of_one()
    ensures
        forall|k: u64| k < 128 ==> (#[trigger] bit_at(1, k) <==> k == 0),
{
    assert forall|k: u64| k < 128 implies (#[trigger] bit_at(1, k) <==> k == 0) by {
        assert(k < 128 ==> ((1u128 & (1u128 << k) != 0) <==> k == 0)) by (bit_vector);
    }
}

proof fn lemma_bit_of_shifted(bits: u128, step: u64)
    requires
        0 < step < 128,
    ensures
        forall|k: u64|
            k < 128 ==> (#[trigger] bit_at((bits << step) | 1, k) <==> (k == 0 || (k >= step
                && bit_at(bits, (k - step) as u64)))),
{
    assert forall|k: u64| k < 128 implies (#[trigger] bit_at((bits << step) | 1, k) <==> (k == 0
        || (k >= step && bit_at(bits, (k - step) as u64)))) by {
        if k >= step {
            let d = (k - step) as u64;
            assert(((bits << step) | 1) & (1u128 << k) != 0 <==> (k == 0 || bits & (1u128 << d)
                != 0)) by (bit_vector)
                requires
                    0 < step < 128,
                    k < 128,
                    k >= step,
                    d == k - step,
            ;
        } else {
            assert(((bits << step) | 1) & (1u128 << k) != 0 <==> k == 0) by (bit_vector)
                requires
                    0 < step < 128,
                    k < step,
            ;
        }
    }
}

proof fn lemma_bit_of_set(bits: u128, j: u64)
    requires
        j < 128,
    ensures
        forall|k: u64|
            k < 128 ==> (#[trigger] bit_at(bits | (1u128 << j), k) <==> (k == j || bit_at(bits, k))),
{
    assert forall|k: u64| k < 128 implies (#[trigger] bit_at(bits | (1u128 << j), k) <==> (k == j
        || bit_at(bits, k))) by {
        assert((bits | (1u128 << j)) & (1u128 << k) != 0 <==> (k == j || bits & (1u128 << k) != 0))
            by (bit_vector)
            requires
                j < 128,
                k < 128,
        ;
    }
}

/// A number in big-endian order.
pub open spec fn big_endian(n: u64) -> Seq<u8> {
    seq![
        (n >> 56) as u8,
        (n >> 48) as u8,
        (n >> 40) as u8,
        (n >> 32) as u8,
        (n >> 24) as u8,
        (n >> 16) as u8,
        (n >> 8) as u8,
        n as u8,
    ]
}

/// The number that eight bytes stand for in big-endian order.
pub open spec fn from_big_endian(b: Seq<u8>) -> u64 {
    ((b[0] as u64) << 56) | ((b[1] as u64) << 48) | ((b[2] as u64) << 40) | ((b[3] as u64) << 32)
        | ((b[4] as u64) << 24) | ((b[5] as u64) << 16) | ((b[6] as u64) << 8) | (b[7] as u64)
}

/// Big-endian bytes read back as the number they were written from, and are the
/// only ones that do.
pub proof fn law_big_endian_round_trip(n: u64, b: Seq<u8>)
    requires
        b.len() == 8,
    ensures
        from_big_endian(big_endian(n)) == n,
        big_endian(from_big_endian(b)) == b,
{
    assert((((n >> 56) as u8) as u64) << 56 | (((n >> 48) as u8) as u64) << 48 | (((n >> 40)
        as u8) as u64) << 40 | (((n >> 32) as u8) as u64) << 32 | (((n >> 24) as u8) as u64) << 24
        | (((n >> 16) as u8) as u64) << 16 | (((n >> 8) as u8) as u64) << 8 | ((n as u8) as u64)
        == n) by (bit_vector);
    let (b0, b1, b2, b3, b4, b5, b6, b7) = (b[0], b[1], b[2], b[3], b[4], b[5], b[6], b[7]);
    let m = from_big_endian(b);
    assert((m >> 56) as u8 == b0 && (m >> 48) as u8 == b1 && (m >> 40) as u8 == b2 && (m >> 32)
        as u8 == b3 && (m >> 24) as u8 == b4 && (m >> 16) as u8 == b5 && (m >> 8) as u8 == b6
        && m as u8 == b7) by (bit_vector)
        requires
            m == ((b0 as u64) << 56) | ((b1 as u64) << 48) | ((b2 as u64) << 40) | ((b3 as u64)
                << 32) | ((b4 as u64) << 24) | ((b5 as u64) << 16) | ((b6 as u64) << 8) | (
            b7 as u64),
    ;
    assert(big_endian(m) =~= b);
}

fn write_big_endian(n: u64) -> (r: Vec<u8>)
    ensures
        r@ == big_endian(n),
{
    let mut r: Vec<u8> = Vec::new();
    r.push(#[verifier::truncate] ((n >> 56) as u8));
    r.push(#[verifier::truncate] ((n >> 48) as u8));
    r.push(#[verifier::truncate] ((n >> 40) as u8));
    r.push(#[verifier::truncate] ((n >> 32) as u8));
    r.push(#[verifier::truncate] ((n >> 24) as u8));
    r.push(#[verifier::truncate] ((n >> 16) as u8));
    r.push(#[verifier::truncate] ((n >> 8) as u8));
    r.push(#[verifier::truncate] (n as u8));
    assert(r@ =~= big_endian(n));
    r
}

fn read_big_endian(b: &[u8]) -> (r: u64)
    requires
        b@.len() == 8,
    ensures
        r == from_big_endian(b@),
{
    ((b[0] as u64) << 56) | ((b[1] as u64) << 48) | ((b[2] as u64) << 40) | ((b[3] as u64) << 32)
        | ((b[4] as u64) << 24) | ((b[5] as u64) << 16) | ((b[6] as u64) << 8) | (b[7] as u64)
}

/// The nonce of a frame: three zero bytes, the sender's role, the sequence number.
pub open spec fn nonce_of(role: u8, sequence: u64) -> Seq<u8> {
    seq![0u8, 0u8, 0u8, role] + big_endian(sequence)
}

/// The clear part of a frame.
pub open spec fn header_of(id: Seq<u8>, role: u8, sequence: u64) -> Seq<u8> {
    id + seq![role] + big_endian(sequence)
}

/// The frame that carries `data` of the given kind.
pub open spec fn frame_of(
    id: Seq<u8>,
    key: Seq<u8>,
    role: u8,
    sequence: u64,
    kind: u8,
    data: Seq<u8>,
) -> Seq<u8> {
    let header = header_of(id, role, sequence);
    header + sealed_bytes(key, nonce_of(role, sequence), seq![kind] + data, header)
}

/// The sequence number written in a frame.
pub open spec fn sequence_of(frame: Seq<u8>) -> u64 {
    from_big_endian(frame.subrange(17, 25))
}

/// What the payload of a frame from `role` opens to.
pub open spec fn payload_of(key: Seq<u8>, role: u8, frame: Seq<u8>) -> Option<Seq<u8>> {
    opened_bytes(
        key,
        nonce_of(role, sequence_of(frame)),
        frame.subrange(25, frame.len() as int),
        frame.subrange(0, 25),
    )
}

/// The frame has a permitted length and is addressed to this pair by that role.
pub open spec fn is_addressed(id: Seq<u8>, role: u8, frame: Seq<u8>) -> bool {
    &&& HEADER + 17 <= frame.len() <= MAX_FRAME
    &&& frame.subrange(0, 16) == id
    &&& frame[16] == role
}

fn write_nonce(role: u8, sequence: u64) -> (nonce: [u8; 12])
    ensures
        nonce@ == nonce_of(role, sequence),
{
    let b = write_big_endian(sequence);
    let nonce: [u8; 12] = [0, 0, 0, role, b[0], b[1], b[2], b[3], b[4], b[5], b[6], b[7]];
    assert(nonce@ =~= nonce_of(role, sequence));
    nonce
}

/// One end of an authenticated pair.
pub struct Cipher {
    pub id: [u8; 16],
    pub role: u8,
    pub key: [u8; 32],
    pub sequence: u64,
    pub received: PacketWindow,
}

impl Cipher {
    pub fn new(id: [u8; 16], key: [u8; 32], role: u8) -> (r: Cipher)
        ensures
            r.id == id,
            r.key == key,
            r.role == role,
            r.sequence == 0,
            r.received.is_fresh(),
    {
        Cipher { id, role, key, sequence: 0, received: PacketWindow::default() }
    }

    /// The next frame with this content. There is none when the data is longer than
    /// a game packet or the sequence numbers are used up.
    pub open spec fn sealed(self, kind: u8, data: Seq<u8>) -> Option<Seq<u8>> {
        if data.len() <= MAX_GAME_PACKET && self.sequence < u64::MAX {
            Some(frame_of(self.id@, self.key@, self.role, self.sequence, kind, data))
        } else {
            None
        }
    }

    /// The cipher once the next frame is taken from it.
    pub open spec fn after_sealing(self, data: Seq<u8>) -> Cipher {
        if data.len() <= MAX_GAME_PACKET && self.sequence < u64::MAX {
            Cipher { sequence: (self.sequence + 1) as u64, ..self }
        } else {
            self
        }
    }

    /// What a frame sent by `role` brings: its kind and its data, if it is addressed
    /// to this pair by that role, its sequence number is new, and it is authentic.
    pub open spec fn delivered(self, frame: Seq<u8>, role: u8) -> Option<(u8, Seq<u8>)> {
        match payload_of(self.key@, role, frame) {
            Some(plain) => if is_addressed(self.id@, role, frame) && self.received.admits(
                sequence_of(frame),
            ) {
                Some((plain[0], plain.skip(1)))
            } else {
                None
            },
            None => None,
        }
    }

    /// `after` is the cipher once the frame was offered to it: a frame that was
    /// delivered is recorded, and nothing else changes.
    pub open spec fn opens(self, frame: Seq<u8>, role: u8, after: Cipher) -> bool {
        &&& after.id == self.id
        &&& after.key == self.key
        &&& after.role == self.role
        &&& after.sequence == self.sequence
        &&& if self.delivered(frame, role) is Some {
            self.received.receives(sequence_of(frame), after.received)
        } else {
            after.received == self.received
        }
    }

    /// Seals `data` under the next sequence number.
    pub fn seal(&mut self, kind: u8, data: &[u8]) -> (r: Option<Vec<u8>>)
        ensures
            match r {
                Some(frame) => old(self).sealed(kind, data@) == Some(frame@) && frame@.len()
                    == HEADER + 17 + data@.len(),
                None => old(self).sealed(kind, data@) is None,
            },
            *final(self) == old(self).after_sealing(data@),
    {
        if data.len() > MAX_GAME_PACKET {
            return None;
        }
        let sequence: u64 = self.sequence;
        if sequence == u64::MAX {
            return None;
        }
        self.sequence = sequence + 1;
        let mut frame: Vec<u8> = part(self.id.as_slice(), 0, 16);
        frame.push(self.role);
        append(&mut frame, write_big_endian(sequence).as_slice());
        assert(self.id@.subrange(0, 16) =~= self.id@);
        assert(frame@ =~= header_of(self.id@, self.role, sequence));
        let nonce = write_nonce(self.role, sequence);
        let mut plain: Vec<u8> = Vec::new();
        plain.push(kind);
        append(&mut plain, data);
        assert(plain@ =~= seq![kind] + data@);
        let encrypted = encrypt(&self.key, &nonce, plain.as_slice(), frame.as_slice());
        append(&mut frame, encrypted.as_slice());
        Some(frame)
    }

    /// Opens a frame sent by `expected_role`. A frame that was sealed under this pair's
    /// key, by that role and under a new number, gives its content back.
    pub fn open(&mut self, frame: &[u8], expected_role: u8) -> (r: Option<(u8, Vec<u8>)>)
        ensures
            match r {
                Some((kind, data)) => old(self).delivered(frame@, expected_role) == Some(
                    (kind, data@),
                ),
                None => old(self).delivered(frame@, expected_role) is None,
            },
            old(self).opens(frame@, expected_role, *final(self)),
            forall|sequence: u64, kind: u8, data: Seq<u8>|
                data.len() <= MAX_GAME_PACKET && old(self).received.admits(sequence) && frame@
                    == #[trigger] frame_of(
                    old(self).id@,
                    old(self).key@,
                    expected_role,
                    sequence,
                    kind,
                    data,
                ) && frame@.len() == HEADER + 17 + data.len() ==> r is Some && (r->0).0 == kind && (
                r->0).1@ == data,
    {
        proof {
            assert forall|sequence: u64, kind: u8, data: Seq<u8>|
                data.len() <= MAX_GAME_PACKET && frame@ == #[trigger] frame_of(
                    self.id@,
                    self.key@,
                    expected_role,
                    sequence,
                    kind,
                    data,
                ) && frame@.len() == HEADER + 17 + data.len() implies is_addressed(
                self.id@,
                expected_role,
                frame@,
            ) && sequence_of(frame@) == sequence && frame@.subrange(0, 25) == header_of(
                self.id@,
                expected_role,
                sequence,
            ) && frame@.subrange(25, frame@.len() as int) == sealed_bytes(
                self.key@,
                nonce_of(expected_role, sequence),
                seq![kind] + data,
                header_of(self.id@, expected_role, sequence),
            ) by {
                let header = header_of(self.id@, expected_role, sequence);
                assert(header.len() == 25);
                assert(frame@.subrange(0, 16) =~= self.id@);
                assert(frame@.subrange(17, 25) =~= big_endian(sequence));
                law_big_endian_round_trip(sequence, big_endian(sequence));
                assert(frame@.subrange(0, 25) =~= header);
                assert(frame@.subrange(25, frame@.len() as int) =~= sealed_bytes(
                    self.key@,
                    nonce_of(expected_role, sequence),
                    seq![kind] + data,
                    header,
                ));
            }
        }
        if frame.len() < HEADER + 17 || frame.len() > MAX_FRAME {
            return None;
        }
        let name = part(frame, 0, 16);
        if !same(name.as_slice(), self.id.as_slice()) || frame[16] != expected_role {
            return None;
        }
        let number = part(frame, 17, HEADER);
        let sequence: u64 = read_big_endian(number.as_slice());
        if !self.received.accepts(sequence) {
            return None;
        }
        let nonce = write_nonce(expected_role, sequence);
        let sealed = part(frame, HEADER, frame.len());
        let header = part(frame, 0, HEADER);
        match decrypt(&self.key, &nonce, sealed.as_slice(), header.as_slice()) {
            None => {
                assert forall|s: u64, kind: u8, data: Seq<u8>|
                    data.len() <= MAX_GAME_PACKET && self.received.admits(s) && frame@
                        == #[trigger] frame_of(self.id@, self.key@, expected_role, s, kind, data)
                        && frame@.len() == HEADER + 17 + data.len() implies false by {
                    assert((seq![kind] + data).len() == data.len() + 1);
                }
                None
            },
            Some(plain) => {
                let kind = plain[0];
                let data = part(plain.as_slice(), 1, plain.len());
                assert(plain@ =~= seq![kind] + data@);
                assert forall|s: u64, k: u8, d: Seq<u8>|
                    d.len() <= MAX_GAME_PACKET && self.received.admits(s) && frame@
                        == #[trigger] frame_of(self.id@, self.key@, expected_role, s, k, d)
                        && frame@.len() == HEADER + 17 + d.len() implies k == kind && d == data@ by {
                    let whole = seq![k] + d;
                    assert(whole.len() == d.len() + 1);
                    assert(plain@ == whole);
                    assert(whole[0] == k);
                    assert(whole.subrange(1, whole.len() as int) =~= d);
                }
                self.received.commit(sequence);
                Some((kind, data))
            },
        }
    }
}

/// A window that took in `numbers` one after the other, each of them new, through
/// the states `windows`.
pub open spec fn is_history(windows: Seq<PacketWindow>, numbers: Seq<u64>) -> bool {
    &&& windows.len() == numbers.len() + 1
    &&& windows[0].is_fresh()
    &&& forall|i: int|
        0 <= i < numbers.len() ==> #[trigger] windows[i].admits(numbers[i]) && windows[i].receives(
            numbers[i],
            windows[i + 1],
        )
}

proof fn lemma_history_of_window(windows: Seq<PacketWindow>, numbers: Seq<u64>)
    requires
        is_history(windows, numbers),
    ensures
        windows.last().is_fresh() <==> numbers.len() == 0,
        forall|i: int|
            0 <= i < numbers.len() ==> #[trigger] numbers[i] <= windows.last().highest->0,
        numbers.len() > 0 ==> numbers.contains(windows.last().highest->0),
        forall|n: u64| #[trigger]
            windows.last().holds(n) <==> (numbers.contains(n) && windows.last().highest->0 - n
                < 128),
    decreases numbers.len(),
{
    if numbers.len() > 0 {
        let before = windows.drop_last();
        let earlier = numbers.drop_last();
        assert forall|i: int| 0 <= i < earlier.len() implies #[trigger] before[i].admits(earlier[i])
            && before[i].receives(earlier[i], before[i + 1]) by {
            assert(windows[i].admits(numbers[i]));
        }
        lemma_history_of_window(before, earlier);
        let k = numbers.len() - 1;
        assert(windows[k].admits(numbers[k]));
        let last = windows.last();
        assert(last == windows[k + 1]);
        assert forall|n: u64| numbers.contains(n) <==> (earlier.contains(n) || n == numbers[k]) by {
            if numbers.contains(n) && n != numbers[k] {
                let j = choose|j: int| 0 <= j < numbers.len() && numbers[j] == n;
                assert(earlier[j] == n);
            }
            if earlier.contains(n) {
                let j = choose|j: int| 0 <= j < earlier.len() && earlier[j] == n;
                assert(numbers[j] == n);
            }
            if n == numbers[k] {
                assert(numbers.contains(n));
            }
        }
        assert forall|i: int| 0 <= i < numbers.len() implies #[trigger] numbers[i]
            <= last.highest->0 by {
            if i < k {
                assert(earlier[i] <= before.last().highest->0);
            }
        }
        assert forall|n: u64| #[trigger] last.holds(n) <==> (numbers.contains(n)
            && last.highest->0 - n < 128) by {
            if numbers.contains(n) {
                let j = choose|j: int| 0 <= j < numbers.len() && numbers[j] == n;
                assert(numbers[j] <= last.highest->0);
            }
            assert(before.last().holds(n) <==> (earlier.contains(n)
                && before.last().highest->0 - n < 128));
            if earlier.len() == 0 {
                assert(!earlier.contains(n));
            }
        }
    } else {
        assert forall|n: u64| !(#[trigger] windows.last().holds(n)) by {}
    }
}

/// No packet number is ever accepted twice: whatever a window took in, in whatever
/// order, it refuses from then on, and what it took in has no repetition.
pub proof fn law_window_refuses_duplicates(windows: Seq<PacketWindow>, numbers: Seq<u64>)
    requires
        is_history(windows, numbers),
    ensures
        forall|i: int| 0 <= i < numbers.len() ==> !windows.last().admits(#[trigger] numbers[i]),
        numbers.no_duplicates(),
    decreases numbers.len(),
{
    lemma_history_of_window(windows, numbers);
    assert forall|i: int| 0 <= i < numbers.len() implies !windows.last().admits(
        #[trigger] numbers[i],
    ) by {
        let n = numbers[i];
        assert(numbers.contains(n));
        assert(windows.last().holds(n) <==> windows.last().highest->0 - n < 128);
    }
    if numbers.len() > 0 {
        let k = numbers.len() - 1;
        let before = windows.drop_last();
        let earlier = numbers.drop_last();
        assert forall|i: int| 0 <= i < earlier.len() implies #[trigger] before[i].admits(earlier[i])
            && before[i].receives(earlier[i], before[i + 1]) by {
            assert(windows[i].admits(numbers[i]));
        }
        law_window_refuses_duplicates(before, earlier);
        assert(windows[k].admits(numbers[k]));
        assert forall|i: int, j: int| 0 <= i < j < numbers.len() implies numbers[i]
            != numbers[j] by {
            if j < k {
                assert(earlier[i] != earlier[j]);
            } else {
                assert(!before.last().admits(earlier[i]));
            }
        }
    }
}

/// Reordering is permitted: a number that a window has not taken in is accepted
/// as long as it is less than 128 behind the highest one.
pub proof fn law_window_admits_reordered(
    windows: Seq<PacketWindow>,
    numbers: Seq<u64>,
    number: u64,
)
    requires
        is_history(windows, numbers),
        !numbers.contains(number),
        windows.last().reaches(number),
    ensures
        windows.last().admits(number),
{
    lemma_history_of_window(windows, numbers);
    assert(windows.last().holds(number) ==> numbers.contains(number));
}

/// A recorded number is refused right away, so a frame that was delivered once is
/// not delivered again.
pub proof fn law_delivered_frame_is_refused(before: PacketWindow, after: PacketWindow, frame: Seq<u8>)
    requires
        before.admits(sequence_of(frame)),
        before.receives(sequence_of(frame), after),
    ensures
        !after.admits(sequence_of(frame)),
{
    let n = sequence_of(frame);
    assert(after.holds(n) <==> after.reaches(n));
}

/// Two frames share a nonce only when they come from the same role under the same
/// sequence number.
pub proof fn law_nonces_are_distinct(role: u8, sequence: u64, other_role: u8, other: u64)
    ensures
        nonce_of(role, sequence) == nonce_of(other_role, other) ==> role == other_role && sequence
            == other,
{
    let a = nonce_of(role, sequence);
    let b = nonce_of(other_role, other);
    if a == b {
        assert(a[3] == role && b[3] == other_role);
        assert(a.subrange(4, 12) =~= big_endian(sequence));
        assert(b.subrange(4, 12) =~= big_endian(other));
        law_big_endian_round_trip(sequence, big_endian(sequence));
        law_big_endian_round_trip(other, big_endian(other));
    }
}

} // verus!
