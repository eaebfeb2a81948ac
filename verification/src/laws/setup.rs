//! The server that a setup is bound to.
use crate::text::{all_digits, decimal_text, is_digit, law_decimal_round_trip};
use crate::windows_paths::name_on;
use crate::windows_setup::{
    base64url_bytes, bound_server, decoded_server, embedded, last_index, named_encoding,
    without_duplicate_suffix, BindingError,
};
use vstd::prelude::*;
use vstd::utf8::{decode_utf8, encode_utf8, valid_utf8};

verus! {

/// A program with a server behind it: a marker, the server, and its length in two bytes,
/// the low one first.
pub open spec fn bound_program(program: Seq<u8>, server: Seq<u8>, low: u8, high: u8) -> Seq<u8> {
    program + encode_utf8("PROJECT_KNOCKOUT_SERVER_V1\0"@) + server + seq![low, high]
}

/// A server of up to 160 bytes is found behind any program, and no longer one, no empty
/// one and nothing that is no text.
pub proof fn law_server_behind_the_program(program: Seq<u8>, server: Seq<u8>, low: u8, high: u8)
    requires
        server.len() == low + 256 * high,
    ensures
        ({
            let found = embedded(bound_program(program, server, low, high));
            &&& 1 <= server.len() <= 160 && valid_utf8(server) ==> found == Ok::<
                Seq<char>,
                BindingError,
            >(decode_utf8(server))
            &&& 1 <= server.len() <= 160 && !valid_utf8(server) ==> found == Err::<
                Seq<char>,
                BindingError,
            >(BindingError::EmbeddingNotUtf8)
            &&& server.len() == 0 || server.len() > 160 ==> found == Err::<Seq<char>, BindingError>(
                BindingError::InvalidEmbedding,
            )
        }),
{
    let magic = encode_utf8("PROJECT_KNOCKOUT_SERVER_V1\0"@);
    let body = bound_program(program, server, low, high);
    let end = body.len() - 2;
    let start = end - server.len();
    assert(body[end] == low && body[end + 1] == high);
    assert(body.subrange(start, end) =~= server);
    assert(body.subrange(start - magic.len(), start) =~= magic);
}

/// A server is found nowhere else than behind the marker.
pub proof fn law_server_stands_behind_the_marker(body: Seq<u8>) -> (program: Seq<u8>)
    requires
        embedded(body) is Ok,
    ensures
        exists|server: Seq<u8>, low: u8, high: u8| #[trigger]
            bound_program(program, server, low, high) == body && server.len() == low + 256 * high
                && valid_utf8(server) && embedded(body)->Ok_0 == decode_utf8(server),
{
    let magic = encode_utf8("PROJECT_KNOCKOUT_SERVER_V1\0"@);
    let end = body.len() - 2;
    let low = body[end];
    let high = body[end + 1];
    let start = end - (low + high * 256);
    let server = body.subrange(start, end);
    let program = body.take(start - magic.len());
    assert(bound_program(program, server, low, high) =~= body) by {
        assert(body =~= program + body.subrange(start - magic.len(), start) + server + seq![
            low,
            high,
        ]);
    }
    program
}

/// Too short a file holds no server.
pub proof fn law_short_file_holds_no_server(body: Seq<u8>)
    requires
        body.len() < 2,
    ensures
        embedded(body) == Err::<Seq<char>, BindingError>(BindingError::NotEmbedded),
{
}

/// What was encoded in the name is a server when it is a text of 1 to 160 bytes.
pub proof fn law_decoded_servers(bytes: Seq<u8>)
    ensures
        1 <= bytes.len() <= 160 && valid_utf8(bytes) ==> decoded_server(Some(bytes)) == Ok::<
            Seq<char>,
            BindingError,
        >(decode_utf8(bytes)),
        1 <= bytes.len() <= 160 && !valid_utf8(bytes) ==> decoded_server(Some(bytes)) == Err::<
            Seq<char>,
            BindingError,
        >(BindingError::NotUtf8),
        bytes.len() == 0 || bytes.len() > 160 ==> decoded_server(Some(bytes)) == Err::<
            Seq<char>,
            BindingError,
        >(BindingError::Length),
        decoded_server(None) == Err::<Seq<char>, BindingError>(BindingError::Encoding),
{
}

proof fn lemma_last_index(before: Seq<char>, after: Seq<char>)
    requires
        !after.contains('('),
    ensures
        last_index(before + seq![' ', '('] + after, seq![' ', '(']) == Some(before.len() as int),
    decreases after.len(),
{
    let needle = seq![' ', '('];
    let s = before + needle + after;
    if after.len() == 0 {
        assert(s.skip(s.len() - 2) =~= needle);
    } else {
        assert(after.contains(after.last()));
        assert(s.last() == after.last());
        assert(s.skip(s.len() - 2)[1] == after.last());
        assert(needle[1] == '(');
        assert(s.drop_last() =~= before + needle + after.drop_last());
        assert forall|i: int| 0 <= i < after.drop_last().len() implies after.drop_last()[i]
            != '(' by {
            assert(after.contains(after[i]));
        }
        lemma_last_index(before, after.drop_last());
    }
}

proof fn lemma_no_last_index(s: Seq<char>)
    requires
        !s.contains('('),
    ensures
        last_index(s, seq![' ', '(']) is None,
    decreases s.len(),
{
    let needle = seq![' ', '('];
    if s.len() >= 2 {
        assert(s.contains(s.last()));
        assert(s.skip(s.len() - 2)[1] == s.last());
        assert(needle[1] == '(');
        assert forall|i: int| 0 <= i < s.drop_last().len() implies s.drop_last()[i] != '(' by {
            assert(s.contains(s[i]));
        }
        lemma_no_last_index(s.drop_last());
    }
}

/// The number that a browser adds to the name of a file that it downloaded before is
/// disregarded.
pub proof fn law_number_of_the_download_is_disregarded(stem: Seq<char>, n: int)
    requires
        n >= 0,
    ensures
        without_duplicate_suffix(stem + seq![' ', '('] + decimal_text(n) + seq![')']) == stem,
        !stem.contains('(') ==> without_duplicate_suffix(stem) == stem,
{
    reveal_strlit(" (");
    assert(" ("@ =~= seq![' ', '(']);
    law_decimal_round_trip(n);
    let number = decimal_text(n);
    let after = number + seq![')'];
    let s = stem + seq![' ', '('] + number + seq![')'];
    assert(s =~= stem + seq![' ', '('] + after);
    assert forall|i: int| 0 <= i < after.len() implies after[i] != '(' by {
        if i < number.len() {
            assert(is_digit(number[i]));
        }
    }
    lemma_last_index(stem, after);
    assert(s.skip(stem.len() as int + 2) =~= after);
    assert(after.drop_last() =~= number);
    assert(s.take(stem.len() as int) =~= stem);
    if !stem.contains('(') {
        lemma_no_last_index(stem);
    }
}

/// Brackets that hold anything but a number belong to the name.
pub proof fn law_other_brackets_belong_to_the_name(stem: Seq<char>, inner: Seq<char>)
    requires
        !inner.contains('('),
        inner.len() == 0 || !all_digits(inner),
    ensures
        without_duplicate_suffix(stem + seq![' ', '('] + inner + seq![')']) == stem + seq![' ', '(']
            + inner + seq![')'],
{
    reveal_strlit(" (");
    assert(" ("@ =~= seq![' ', '(']);
    let after = inner + seq![')'];
    let s = stem + seq![' ', '('] + inner + seq![')'];
    assert(s =~= stem + seq![' ', '('] + after);
    assert forall|i: int| 0 <= i < after.len() implies after[i] != '(' by {
        if i < inner.len() {
            assert(inner.contains(inner[i]));
        }
    }
    lemma_last_index(stem, after);
    assert(s.skip(stem.len() as int + 2) =~= after);
    assert(after.drop_last() =~= inner);
}

/// The name of a bound setup holds what its server was encoded to, in the directory of
/// any system, and also when a browser numbered it.
pub proof fn law_name_of_a_setup(path: Seq<u8>, windows: bool, encoded: Seq<char>, n: int)
    requires
        n >= 0,
        !encoded.contains('('),
        ({
            let stem = "DKO-Setup--"@ + encoded;
            ||| name_on(windows, path) == Some(encode_utf8(stem + ".exe"@))
            ||| name_on(windows, path) == Some(
                encode_utf8(stem + seq![' ', '('] + decimal_text(n) + seq![')'] + ".exe"@),
            )
        }),
    ensures
        named_encoding(path, windows) == Ok::<Seq<char>, BindingError>(encoded),
        bound_server(path, None, windows) == decoded_server(base64url_bytes(encoded)),
{
    reveal_strlit("DKO-Setup--");
    reveal_strlit(".exe");
    let stem = "DKO-Setup--"@ + encoded;
    let numbered = stem + seq![' ', '('] + decimal_text(n) + seq![')'];
    assert forall|i: int| 0 <= i < stem.len() implies stem[i] != '(' by {
        if i >= 11 {
            assert(stem[i] == encoded[i - 11]);
            assert(encoded.contains(encoded[i - 11]));
        }
    }
    law_number_of_the_download_is_disregarded(stem, n);
    let text = if name_on(windows, path) == Some(encode_utf8(stem + ".exe"@)) {
        stem + ".exe"@
    } else {
        numbered + ".exe"@
    };
    vstd::utf8::encode_utf8_valid_utf8(text);
    vstd::utf8::encode_utf8_decode_utf8(text);
    assert((stem + ".exe"@).take((stem + ".exe"@).len() - 4) =~= stem);
    assert((numbered + ".exe"@).take((numbered + ".exe"@).len() - 4) =~= numbered);
    assert(".exe"@ =~= text.subrange(text.len() - 4, text.len() as int));
    assert("DKO-Setup--"@ =~= stem.subrange(0, 11));
    assert(stem.skip(11) =~= encoded);
}

/// Any other name is refused.
pub proof fn law_other_names_are_refused(path: Seq<u8>, windows: bool, text: Seq<char>)
    requires
        name_on(windows, path) == Some(encode_utf8(text)),
        text.len() < 4 || text.skip(text.len() - 4) != seq!['.', 'e', 'x', 'e'],
    ensures
        named_encoding(path, windows) == Err::<Seq<char>, BindingError>(BindingError::NotExe),
{
    reveal_strlit(".exe");
    vstd::utf8::encode_utf8_valid_utf8(text);
    vstd::utf8::encode_utf8_decode_utf8(text);
    assert(".exe"@ =~= seq!['.', 'e', 'x', 'e']);
    if ".exe"@.is_suffix_of(text) {
        assert(text.skip(text.len() - 4) =~= text.subrange(text.len() - 4, text.len() as int));
    }
}

/// A program whose name does not start as those of bound setups is bound to no server.
pub proof fn law_unbound_setups_are_refused(path: Seq<u8>, windows: bool, stem: Seq<char>)
    requires
        name_on(windows, path) == Some(encode_utf8(stem + seq!['.', 'e', 'x', 'e'])),
        !stem.contains('('),
        stem.len() < 11 || stem.take(11) != "DKO-Setup--"@,
    ensures
        named_encoding(path, windows) == Err::<Seq<char>, BindingError>(BindingError::Unbound),
{
    reveal_strlit(".exe");
    reveal_strlit("DKO-Setup--");
    let text = stem + seq!['.', 'e', 'x', 'e'];
    vstd::utf8::encode_utf8_valid_utf8(text);
    vstd::utf8::encode_utf8_decode_utf8(text);
    assert(".exe"@ =~= text.subrange(text.len() - 4, text.len() as int));
    assert(text.take(text.len() - 4) =~= stem);
    law_number_of_the_download_is_disregarded(stem, 0);
    if "DKO-Setup--"@.is_prefix_of(stem) {
        assert(stem.take(11) =~= stem.subrange(0, 11));
    }
}

/// A server in the file comes before the one in the name.
pub proof fn law_server_in_the_file_comes_first(
    path: Seq<u8>,
    windows: bool,
    program: Seq<u8>,
    server: Seq<u8>,
    low: u8,
    high: u8,
)
    requires
        server.len() == low + 256 * high,
        1 <= server.len() <= 160,
        valid_utf8(server),
    ensures
        bound_server(path, Some(bound_program(program, server, low, high)), windows) == Ok::<
            Seq<char>,
            BindingError,
        >(decode_utf8(server)),
{
    law_server_behind_the_program(program, server, low, high);
}

/// A file that holds no server is as good as one that cannot be read: the name decides.
pub proof fn law_name_decides_otherwise(path: Seq<u8>, windows: bool, body: Seq<u8>)
    requires
        embedded(body) is Err,
    ensures
        bound_server(path, Some(body), windows) == bound_server(path, None, windows),
{
}

} // verus!
