//! The server that a setup download is bound to: it stands at the end of the file, or
//! in its name.
use crate::text::{
    all_digits, begins, copied, decode_bytes, digits_only, ends, letters, part, stands_at, text_of,
};
use crate::windows_paths::{file_name_on, name_on};
use base64::Engine;
use vstd::prelude::*;

verus! {

pub const MAX_SERVER_URL_BYTES: usize = 160;

/// What stands before the server in a bound setup.
pub open spec fn binding_magic() -> Seq<u8> {
    vstd::utf8::encode_utf8("PROJECT_KNOCKOUT_SERVER_V1\0"@)
}

/// Why no server is found.
#[derive(Clone, Copy, Debug, PartialEq, Eq, Structural)]
pub enum BindingError {
    NotEmbedded,
    InvalidEmbedding,
    EmbeddingNotUtf8,
    NameNotUnicode,
    NotExe,
    Unbound,
    Encoding,
    Length,
    NotUtf8,
}

impl BindingError {
    pub open spec fn text(self) -> Seq<char> {
        match self {
            BindingError::NotEmbedded => "setup has no embedded server binding"@,
            BindingError::InvalidEmbedding => "setup has an invalid embedded server binding"@,
            BindingError::EmbeddingNotUtf8 => "setup server binding is not valid UTF-8"@,
            BindingError::NameNotUnicode => "Windows setup filename is not valid Unicode"@,
            BindingError::NotExe => "Windows setup filename must end in .exe"@,
            BindingError::Unbound =>
                "This is not a server-bound DKO setup download. Download it again from the DKO portal."@,
            BindingError::Encoding => "DKO setup filename contains an invalid server binding"@,
            BindingError::Length => "DKO setup server binding is empty or too long"@,
            BindingError::NotUtf8 => "DKO setup server binding is not valid UTF-8"@,
        }
    }

    /// What the player reads.
    pub fn message(&self) -> (r: String)
        ensures
            r@ == self.text(),
    {
        match self {
            BindingError::NotEmbedded => "setup has no embedded server binding".to_owned(),
            BindingError::InvalidEmbedding =>
                "setup has an invalid embedded server binding".to_owned(),
            BindingError::EmbeddingNotUtf8 => "setup server binding is not valid UTF-8".to_owned(),
            BindingError::NameNotUnicode =>
                "Windows setup filename is not valid Unicode".to_owned(),
            BindingError::NotExe => "Windows setup filename must end in .exe".to_owned(),
            BindingError::Unbound =>
                "This is not a server-bound DKO setup download. Download it again from the DKO portal.".to_owned(),
            BindingError::Encoding =>
                "DKO setup filename contains an invalid server binding".to_owned(),
            BindingError::Length => "DKO setup server binding is empty or too long".to_owned(),
            BindingError::NotUtf8 => "DKO setup server binding is not valid UTF-8".to_owned(),
        }
    }
}

/// The server at the end of a file: a marker, the server, and its length in two bytes,
/// the low one first.
pub open spec fn embedded(body: Seq<u8>) -> Result<Seq<char>, BindingError> {
    let end = body.len() - 2;
    let length = body[end] + body[end + 1] * 256;
    let start = end - length;
    let magic = binding_magic();
    if body.len() < 2 {
        Err(BindingError::NotEmbedded)
    } else if length == 0 || length > MAX_SERVER_URL_BYTES || start < magic.len() {
        Err(BindingError::InvalidEmbedding)
    } else if body.subrange(start - magic.len(), start) != magic {
        Err(BindingError::NotEmbedded)
    } else if !vstd::utf8::valid_utf8(body.subrange(start, end)) {
        Err(BindingError::EmbeddingNotUtf8)
    } else {
        Ok(vstd::utf8::decode_utf8(body.subrange(start, end)))
    }
}

/// The server at the end of a file.
pub fn server_url_from_embedded_binding(body: &[u8]) -> (r: Result<String, BindingError>)
    ensures
        match r {
            Ok(server) => embedded(body@) == Ok::<Seq<char>, BindingError>(server@),
            Err(error) => embedded(body@) == Err::<Seq<char>, BindingError>(error),
        },
{
    if body.len() < 2 {
        return Err(BindingError::NotEmbedded);
    }
    let end: usize = body.len() - 2;
    let length: usize = body[end] as usize + body[end + 1] as usize * 256;
    let magic = "PROJECT_KNOCKOUT_SERVER_V1\0".as_bytes();
    if length == 0 || length > MAX_SERVER_URL_BYTES || end < length || end - length < magic.len() {
        return Err(BindingError::InvalidEmbedding);
    }
    let start: usize = end - length;
    if !stands_at(body, magic, start - magic.len()) {
        return Err(BindingError::NotEmbedded);
    }
    match decode_bytes(part(body, start, end)) {
        Some(server) => Ok(server),
        None => Err(BindingError::EmbeddingNotUtf8),
    }
}

/// The last place at which `needle` stands.
pub open spec fn last_index(s: Seq<char>, needle: Seq<char>) -> Option<int>
    decreases s.len(),
{
    if s.len() < needle.len() {
        None
    } else if s.skip(s.len() - needle.len()) == needle {
        Some(s.len() - needle.len())
    } else if s.len() == 0 {
        None
    } else {
        last_index(s.drop_last(), needle)
    }
}

/// A browser that downloaded a file before adds a number in brackets to its name.
pub open spec fn is_duplicate_suffix(s: Seq<char>) -> bool {
    &&& s.len() >= 2
    &&& s.last() == ')'
    &&& all_digits(s.drop_last())
}

/// The name without the number that a browser added.
pub open spec fn without_duplicate_suffix(stem: Seq<char>) -> Seq<char> {
    match last_index(stem, " ("@) {
        Some(i) => if is_duplicate_suffix(stem.skip(i + " ("@.len())) {
            stem.take(i)
        } else {
            stem
        },
        None => stem,
    }
}

fn find_last(s: &[char], needle: &[char]) -> (r: Option<usize>)
    ensures
        match r {
            Some(i) => last_index(s@, needle@) == Some(i as int) && i + needle@.len() <= s@.len(),
            None => last_index(s@, needle@) is None,
        },
{
    let mut n: usize = s.len();
    assert(s@.take(n as int) =~= s@);
    while n >= needle.len()
        invariant
            n <= s@.len(),
            last_index(s@.take(n as int), needle@) == last_index(s@, needle@),
        decreases n,
    {
        let ghost head = s@.take(n as int);
        assert(head.skip(n - needle@.len()) =~= s@.subrange(n - needle@.len(), n as int));
        if stands_at(s, needle, n - needle.len()) {
            return Some(n - needle.len());
        }
        if n == 0 {
            return None;
        }
        assert(head.drop_last() =~= s@.take(n - 1));
        n = n - 1;
    }
    None
}

/// The name without the number that a browser added.
pub fn strip_browser_duplicate_suffix(stem: &[char]) -> (r: Vec<char>)
    ensures
        r@ == without_duplicate_suffix(stem@),
{
    let opening = letters(" (");
    let whole = copied(stem);
    assert(whole@ =~= stem@);
    match find_last(stem, opening.as_slice()) {
        None => whole,
        Some(i) => {
            let end: usize = stem.len();
            let suffix = part(stem, i + opening.len(), end);
            assert(suffix@ =~= stem@.skip(i + " ("@.len()));
            let n = suffix.len();
            if n < 2 || suffix[n - 1] != ')' {
                return whole;
            }
            let number = part(suffix.as_slice(), 0, n - 1);
            assert(number@ =~= suffix@.drop_last());
            if !digits_only(number.as_slice()) {
                return whole;
            }
            let candidate = part(stem, 0, i);
            assert(candidate@ =~= stem@.take(i as int));
            candidate
        },
    }
}

/// What the base64 alphabet for URLs, without padding, decodes a text to.
pub uninterp spec fn base64url_bytes(text: Seq<char>) -> Option<Seq<u8>>;

/// `URL_SAFE_NO_PAD.decode`: the bytes that a text stands for, if it stands for any.
/// Which texts do is left to the `base64` crate.
#[verifier::external_body]
fn decode_base64url(text: &str) -> (r: Option<Vec<u8>>)
    ensures
        match r {
            Some(bytes) => base64url_bytes(text@) == Some(bytes@),
            None => base64url_bytes(text@) is None,
        },
{
    base64::engine::general_purpose::URL_SAFE_NO_PAD.decode(text).ok()
}

/// The server that decoded bytes name.
pub open spec fn decoded_server(bytes: Option<Seq<u8>>) -> Result<Seq<char>, BindingError> {
    match bytes {
        None => Err(BindingError::Encoding),
        Some(bytes) => if bytes.len() == 0 || bytes.len() > MAX_SERVER_URL_BYTES {
            Err(BindingError::Length)
        } else if !vstd::utf8::valid_utf8(bytes) {
            Err(BindingError::NotUtf8)
        } else {
            Ok(vstd::utf8::decode_utf8(bytes))
        },
    }
}

/// The server that decoded bytes name.
pub fn server_from_bytes(bytes: Option<Vec<u8>>) -> (r: Result<String, BindingError>)
    ensures
        ({
            let model = match bytes {
                Some(bytes) => Some(bytes@),
                None => None,
            };
            match r {
                Ok(server) => decoded_server(model) == Ok::<Seq<char>, BindingError>(server@),
                Err(error) => decoded_server(model) == Err::<Seq<char>, BindingError>(error),
            }
        }),
{
    match bytes {
        None => Err(BindingError::Encoding),
        Some(bytes) => {
            if bytes.len() == 0 || bytes.len() > MAX_SERVER_URL_BYTES {
                return Err(BindingError::Length);
            }
            match decode_bytes(bytes) {
                Some(server) => Ok(server),
                None => Err(BindingError::NotUtf8),
            }
        },
    }
}

/// The encoded server in the name of a setup file.
pub open spec fn named_encoding(path: Seq<u8>, windows: bool) -> Result<Seq<char>, BindingError> {
    match name_on(windows, path) {
        None => Err(BindingError::NameNotUnicode),
        Some(name) => {
            let text = vstd::utf8::decode_utf8(name);
            let stem = without_duplicate_suffix(text.take(text.len() - ".exe"@.len()));
            if !vstd::utf8::valid_utf8(name) {
                Err(BindingError::NameNotUnicode)
            } else if !".exe"@.is_suffix_of(text) {
                Err(BindingError::NotExe)
            } else if !"DKO-Setup--"@.is_prefix_of(stem) {
                Err(BindingError::Unbound)
            } else {
                Ok(stem.skip("DKO-Setup--"@.len() as int))
            }
        },
    }
}

/// The encoded server in the name of a setup file.
pub fn encoded_server(path: &[u8], windows: bool) -> (r: Result<String, BindingError>)
    ensures
        match r {
            Ok(encoded) => named_encoding(path@, windows) == Ok::<Seq<char>, BindingError>(encoded@),
            Err(error) => named_encoding(path@, windows) == Err::<Seq<char>, BindingError>(error),
        },
{
    let name = match file_name_on(windows, path) {
        Some(name) => name,
        None => {
            return Err(BindingError::NameNotUnicode);
        },
    };
    let text = match decode_bytes(name) {
        Some(text) => letters(text.as_str()),
        None => {
            return Err(BindingError::NameNotUnicode);
        },
    };
    let suffix = letters(".exe");
    if !ends(text.as_slice(), suffix.as_slice()) {
        return Err(BindingError::NotExe);
    }
    let whole = part(text.as_slice(), 0, text.len() - suffix.len());
    assert(whole@ =~= text@.take(text@.len() - ".exe"@.len()));
    let stem = strip_browser_duplicate_suffix(whole.as_slice());
    let prefix = letters("DKO-Setup--");
    if !begins(stem.as_slice(), prefix.as_slice()) {
        return Err(BindingError::Unbound);
    }
    let encoded = part(stem.as_slice(), prefix.len(), stem.len());
    assert(encoded@ =~= stem@.skip(prefix@.len() as int));
    Ok(text_of(encoded.as_slice()))
}

/// The server that a setup is bound to, by its content or by its name.
pub open spec fn bound_server(path: Seq<u8>, body: Option<Seq<u8>>, windows: bool) -> Result<
    Seq<char>,
    BindingError,
> {
    if body is Some && embedded(body->0) is Ok {
        embedded(body->0)
    } else {
        match named_encoding(path, windows) {
            Ok(encoded) => decoded_server(base64url_bytes(encoded)),
            Err(error) => Err(error),
        }
    }
}

/// The server that a setup is bound to; `body` is the content of the file, as far as
/// it could be read.
pub fn server_url_from_setup_executable(path: &[u8], body: &Option<Vec<u8>>, windows: bool) -> (r:
    Result<String, BindingError>)
    ensures
        ({
            let bound = bound_server(
                path@,
                match body {
                    Some(body) => Some(body@),
                    None => None,
                },
                windows,
            );
            match r {
                Ok(server) => bound == Ok::<Seq<char>, BindingError>(server@),
                Err(error) => bound == Err::<Seq<char>, BindingError>(error),
            }
        }),
{
    if let Some(body) = body {
        if let Ok(server) = server_url_from_embedded_binding(body.as_slice()) {
            return Ok(server);
        }
    }
    match encoded_server(path, windows) {
        Err(error) => Err(error),
        Ok(encoded) => server_from_bytes(decode_base64url(encoded.as_str())),
    }
}

/// The end of a setup that is bound to a server.
pub open spec fn binding_of(server: Seq<u8>) -> Seq<u8> {
    binding_magic() + server + seq![(server.len() % 256) as u8, (server.len() / 256) as u8]
}

/// A setup that a server was appended to is bound to it, whatever it held before and
/// whatever its name is.
pub proof fn law_embedded_server_is_found(program: Seq<u8>, server: Seq<u8>)
    requires
        0 < server.len() <= MAX_SERVER_URL_BYTES,
        vstd::utf8::valid_utf8(server),
    ensures
        embedded(program + binding_of(server)) == Ok::<Seq<char>, BindingError>(
            vstd::utf8::decode_utf8(server),
        ),
{
    let body = program + binding_of(server);
    let magic = binding_magic();
    let end = body.len() - 2;
    assert(body[end] == server.len() % 256);
    assert(body[end + 1] == server.len() / 256);
    let start = end - server.len();
    assert(body.subrange(start, end) =~= server);
    assert(body.subrange(start - magic.len(), start) =~= magic);
}

} // verus!
