//! SHA-256 digests, and files that are only taken when they have the right one.
use crate::text::{
    append, concat, decimal_text, letters, lower_all, lowercase, spells, text_of, write_decimal,
};
use sha2::Digest;
use vstd::prelude::*;

verus! {

/// The SHA-256 digest of some bytes.
pub uninterp spec fn sha256_bytes(data: Seq<u8>) -> Seq<u8>;

/// `Sha256::digest`: the 32 bytes of the digest. What they are is left to the `sha2`
/// crate.
#[verifier::external_body]
fn sha256(data: &[u8]) -> (r: Vec<u8>)
    ensures
        r@ == sha256_bytes(data@),
        r@.len() == 32,
{
    sha2::Sha256::digest(data).to_vec()
}

/// A number below sixteen as a hexadecimal digit.
pub open spec fn hex_letter(n: int) -> char {
    if n < 10 {
        ('0' as u32 + n) as char
    } else {
        ('a' as u32 + (n - 10)) as char
    }
}

/// Bytes in hexadecimal, two lower-case digits for each.
pub open spec fn hex_of(data: Seq<u8>) -> Seq<char> {
    Seq::new(
        2 * data.len(),
        |i: int|
            hex_letter(
                if i % 2 == 0 {
                    data[i / 2] / 16
                } else {
                    data[i / 2] % 16
                } as int,
            ),
    )
}

/// `hex::encode`: the bytes in hexadecimal, two lower-case digits for each.
#[verifier::external_body]
pub(crate) fn hex_text(data: &[u8]) -> (r: String)
    ensures
        r@ == hex_of(data@),
{
    hex::encode(data)
}

/// The digest of some bytes, in hexadecimal.
pub open spec fn digest_of(data: Seq<u8>) -> Seq<char> {
    hex_of(sha256_bytes(data))
}

/// The digest of some bytes, in hexadecimal.
pub fn sha256_text(data: &[u8]) -> (r: String)
    ensures
        r@ == digest_of(data@),
        r@.len() == 64,
{
    hex_text(sha256(data).as_slice())
}

/// Why a download is not taken.
pub enum DownloadError {
    TooLong,
    Damaged { expected_size: u64, expected_sha256: String, size: u64, sha256: String },
}

impl DownloadError {
    pub open spec fn text(self) -> Seq<char> {
        match self {
            DownloadError::TooLong => "downloaded managed file exceeds its declared size"@,
            DownloadError::Damaged { expected_size, expected_sha256, size, sha256 } =>
                "downloaded managed file failed integrity verification: expected size "@
                    + decimal_text(expected_size as int) + " and SHA-256 "@ + expected_sha256@
                    + ", received size "@ + decimal_text(size as int) + " and SHA-256 "@ + sha256@,
        }
    }

    /// What the player reads.
    pub fn message(&self) -> (r: String)
        ensures
            r@ == self.text(),
    {
        match self {
            DownloadError::TooLong =>
                "downloaded managed file exceeds its declared size".to_owned(),
            DownloadError::Damaged { expected_size, expected_sha256, size, sha256 } => {
                let number = text_of(write_decimal(*expected_size).as_slice());
                let text = concat(
                    "downloaded managed file failed integrity verification: expected size ",
                    number.as_str(),
                );
                let text = concat(text.as_str(), " and SHA-256 ");
                let text = concat(text.as_str(), expected_sha256.as_str());
                let text = concat(text.as_str(), ", received size ");
                let number = text_of(write_decimal(*size).as_slice());
                let text = concat(text.as_str(), number.as_str());
                let text = concat(text.as_str(), " and SHA-256 ");
                concat(text.as_str(), sha256.as_str())
            },
        }
    }
}

/// A file that is being downloaded.
pub struct Download {
    pub expected_size: u64,
    pub expected_sha256: String,
    pub body: Vec<u8>,
}

impl Download {
    /// No more was taken than was announced.
    pub open spec fn is_sound(self) -> bool {
        self.body@.len() <= self.expected_size
    }

    /// The file is what was announced.
    pub open spec fn is_intact(self) -> bool {
        self.body@.len() == self.expected_size && digest_of(self.body@) == lowercase(
            self.expected_sha256@,
        )
    }

    pub fn new(expected_size: u64, expected_sha256: &str) -> (r: Download)
        ensures
            r.is_sound(),
            r.expected_size == expected_size,
            r.expected_sha256@ == expected_sha256@,
            r.body@.len() == 0,
    {
        Download { expected_size, expected_sha256: expected_sha256.to_owned(), body: Vec::new() }
    }

    /// Takes some more of the file, and says how much there is. The download ends as
    /// soon as there is more than was announced.
    pub fn take(&mut self, chunk: &[u8]) -> (r: Result<u64, DownloadError>)
        requires
            old(self).is_sound(),
        ensures
            final(self).is_sound(),
            final(self).expected_size == old(self).expected_size,
            final(self).expected_sha256 == old(self).expected_sha256,
            match r {
                Ok(downloaded) => final(self).body@ == old(self).body@ + chunk@ && downloaded
                    == final(self).body@.len(),
                Err(error) => error is TooLong && *final(self) == *old(self) && old(
                    self,
                ).body@.len() + chunk@.len() > old(self).expected_size,
            },
    {
        let have: u64 = self.body.len() as u64;
        if chunk.len() as u64 > self.expected_size - have {
            return Err(DownloadError::TooLong);
        }
        append(&mut self.body, chunk);
        Ok(have + chunk.len() as u64)
    }

    /// Hands out the file, if it is what was announced.
    pub fn finish(self) -> (r: Result<Vec<u8>, DownloadError>)
        ensures
            match r {
                Ok(body) => self.is_intact() && body == self.body,
                Err(error) => !self.is_intact() && match error {
                    DownloadError::TooLong => false,
                    DownloadError::Damaged { expected_size, expected_sha256, size, sha256 } => {
                        &&& expected_size == self.expected_size
                        &&& expected_sha256 == self.expected_sha256
                        &&& size == self.body@.len()
                        &&& sha256@ == digest_of(self.body@)
                    },
                },
            },
    {
        let sha256 = sha256_text(self.body.as_slice());
        let size: u64 = self.body.len() as u64;
        let wanted = lower_all(letters(self.expected_sha256.as_str()).as_slice());
        if size != self.expected_size || !spells(wanted.as_slice(), sha256.as_str()) {
            return Err(
                DownloadError::Damaged {
                    expected_size: self.expected_size,
                    expected_sha256: self.expected_sha256,
                    size,
                    sha256,
                },
            );
        }
        Ok(self.body)
    }
}

/// The nearest multiple of `unit`, the even one of two that are equally near.
pub open spec fn nearest(n: int, unit: int) -> int {
    let below = n / unit;
    let rest = n % unit;
    if 2 * rest > unit || (2 * rest == unit && below % 2 == 1) {
        below + 1
    } else {
        below
    }
}

/// The smallest power of two, from `unit` on, of which a number has fewer than 2^53.
pub open spec fn coarseness(n: int, unit: int) -> int
    decreases n - unit,
{
    if unit <= 0 || n < unit * 0x20_0000_0000_0000 {
        unit
    } else {
        coarseness(n, unit * 2)
    }
}

/// The number that a double holds for a whole number.
pub open spec fn as_double(n: int) -> int {
    nearest(n, coarseness(n, 1)) * coarseness(n, 1)
}

/// A number of bytes with one decimal of a larger unit: the tenths are rounded to the
/// nearest one, and to the even one of two that are equally near.
pub open spec fn in_tenths(n: int, unit: int) -> Seq<char> {
    let tenths = nearest(as_double(n) * 10, unit);
    decimal_text(tenths / 10).push('.') + decimal_text(tenths % 10)
}

/// A number of bytes as the player reads it.
pub open spec fn size_text(n: int) -> Seq<char> {
    if n >= 0x10_0000 {
        in_tenths(n, 0x10_0000) + " MB"@
    } else if n >= 0x400 {
        in_tenths(n, 0x400) + " KB"@
    } else {
        decimal_text(n) + " B"@
    }
}

fn round_to(n: u128, unit: u128) -> (r: u128)
    requires
        0 < unit <= 0x1_0000_0000_0000_0000,
    ensures
        r == nearest(n as int, unit as int),
        r <= n / unit + 1,
{
    let below = n / unit;
    let rest = n % unit;
    if 2 * rest > unit || (2 * rest == unit && below % 2 == 1) {
        assert(below <= n / unit);
        assert(n / unit < u128::MAX || unit == 1) by (nonlinear_arith)
            requires
                0 < unit,
                n <= u128::MAX,
        ;
        below + 1
    } else {
        below
    }
}

fn double_of(n: u64) -> (r: u128)
    ensures
        r == as_double(n as int),
        r <= 0x1_0000_0000_0000_0000 + 0x1000,
{
    let mut unit: u128 = 1;
    while n as u128 >= unit * 0x20_0000_0000_0000
        invariant
            0 < unit <= 0x1000,
            coarseness(n as int, unit as int) == coarseness(n as int, 1),
        decreases 0x1000 - unit,
    {
        unit = unit * 2;
    }
    let count = round_to(n as u128, unit);
    assert(count * unit <= n + unit) by (nonlinear_arith)
        requires
            count <= n as int / unit as int + 1,
            0 < unit,
            0 <= n,
    ;
    assert(0 <= count * unit) by (nonlinear_arith)
        requires
            0 <= count,
            0 < unit,
    ;
    count * unit
}

fn tenths_text(n: u64, unit: u128) -> (r: String)
    requires
        0x400 <= unit <= 0x10_0000,
    ensures
        r@ == in_tenths(n as int, unit as int),
{
    let value = double_of(n);
    let tenths = round_to(value * 10, unit);
    assert(tenths <= 0x1000_0000_0000_0000) by {
        assert((value * 10) / unit as int <= (value * 10) / 0x400) by (nonlinear_arith)
            requires
                0 <= value,
                0x400 <= unit,
        ;
    }
    let mut r = write_decimal((tenths / 10) as u64);
    r.push('.');
    append(&mut r, write_decimal((tenths % 10) as u64).as_slice());
    text_of(r.as_slice())
}

/// A number of bytes as the player reads it.
pub fn format_download_size(bytes: u64) -> (r: String)
    ensures
        r@ == size_text(bytes as int),
{
    if bytes >= 0x10_0000 {
        concat(tenths_text(bytes, 0x10_0000).as_str(), " MB")
    } else if bytes >= 0x400 {
        concat(tenths_text(bytes, 0x400).as_str(), " KB")
    } else {
        concat(text_of(write_decimal(bytes).as_slice()).as_str(), " B")
    }
}

} // verus!
