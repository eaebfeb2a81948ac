//! What the launcher writes to its log.
use crate::links::{is_ticket, is_token_letter, token_letter};
use crate::settings::{Build, Setting};
use crate::text::{append, concat, decimal_text, letters, replace, replaced, text_of, write_decimal};
use vstd::prelude::*;

verus! {

/// A launch ticket starts here.
pub open spec fn starts_ticket(s: Seq<char>) -> bool {
    s.len() >= 4 && s[0] == 'd' && s[1] == 'k' && s[2] == 'l' && s[3] == '~'
}

/// How many characters that tickets are made of stand at the start.
pub open spec fn token_length(s: Seq<char>) -> int
    decreases s.len(),
{
    if s.len() > 0 && is_token_letter(s[0]) {
        1 + token_length(s.skip(1))
    } else {
        0
    }
}

/// The text with a marker in place of every launch ticket.
pub open spec fn redacted(s: Seq<char>) -> Seq<char>
    decreases s.len(),
    via redacted_shrinks
{
    if s.len() == 0 {
        s
    } else if starts_ticket(s) {
        "[redacted-launch-ticket]"@ + redacted(s.skip(token_length(s)))
    } else {
        seq![s[0]] + redacted(s.skip(1))
    }
}

#[via_fn]
proof fn redacted_shrinks(s: Seq<char>) {
    lemma_token_length(s);
}

proof fn lemma_token_length(s: Seq<char>)
    ensures
        0 <= token_length(s) <= s.len(),
        starts_ticket(s) ==> token_length(s) > 0,
    decreases s.len(),
{
    if s.len() > 0 {
        lemma_token_length(s.skip(1));
    }
}

/// Replaces every launch ticket in a text.
pub fn redact_launcher_tokens(value: &str) -> (r: String)
    ensures
        r@ == redacted(value@),
{
    let s = letters(value);
    let marker = letters("[redacted-launch-ticket]");
    let mut r: Vec<char> = Vec::new();
    let mut i: usize = 0;
    assert(s@.skip(0) =~= s@);
    assert(r@ + redacted(s@) =~= redacted(s@));
    while i < s.len()
        invariant
            i <= s@.len(),
            marker@ == "[redacted-launch-ticket]"@,
            r@ + redacted(s@.skip(i as int)) == redacted(s@),
        decreases s@.len() - i,
    {
        let ghost rest = s@.skip(i as int);
        let ghost before = r@;
        if s.len() - i >= 4 && s[i] == 'd' && s[i + 1] == 'k' && s[i + 2] == 'l' && s[i + 3] == '~' {
            assert(starts_ticket(rest));
            let mut end: usize = i;
            assert(s@.skip(end as int) =~= rest);
            while end < s.len() && token_letter(s[end])
                invariant
                    i <= end <= s@.len(),
                    end - i + token_length(s@.skip(end as int)) == token_length(rest),
                decreases s@.len() - end,
            {
                assert(s@.skip(end as int).skip(1) =~= s@.skip(end + 1));
                end = end + 1;
            }
            assert(end - i == token_length(rest));
            proof {
                lemma_token_length(rest);
            }
            append(&mut r, marker.as_slice());
            assert(rest.skip(token_length(rest)) =~= s@.skip(end as int));
            assert(r@ + redacted(s@.skip(end as int)) =~= before + (marker@ + redacted(
                s@.skip(end as int),
            )));
            i = end;
        } else {
            assert(!starts_ticket(rest));
            r.push(s[i]);
            assert(rest.skip(1) =~= s@.skip(i + 1));
            assert(r@ + redacted(s@.skip(i + 1)) =~= before + (seq![rest[0]] + redacted(
                s@.skip(i + 1),
            )));
            i = i + 1;
        }
    }
    assert(s@.skip(i as int) =~= Seq::empty());
    assert(r@ + Seq::<char>::empty() =~= r@);
    text_of(r.as_slice())
}

/// Up to the first bracket, a redacted text is the text itself.
proof fn lemma_redacted_prefix(s: Seq<char>, k: int)
    requires
        0 <= k <= redacted(s).len(),
        forall|j: int| 0 <= j < k ==> #[trigger] redacted(s)[j] != '[',
    ensures
        k <= s.len(),
        forall|j: int| 0 <= j < k ==> s[j] == #[trigger] redacted(s)[j],
    decreases s.len(),
{
    reveal_strlit("[redacted-launch-ticket]");
    if s.len() > 0 && k > 0 {
        if starts_ticket(s) {
            assert(redacted(s)[0] == '[');
        } else {
            let rest = s.skip(1);
            assert forall|j: int| 0 <= j < k - 1 implies #[trigger] redacted(rest)[j] != '[' by {
                assert(redacted(s)[j + 1] == redacted(rest)[j]);
            }
            lemma_redacted_prefix(rest, k - 1);
            assert forall|j: int| 0 <= j < k implies s[j] == #[trigger] redacted(s)[j] by {
                if j > 0 {
                    assert(rest[j - 1] == redacted(rest)[j - 1]);
                }
            }
        }
    }
}

/// No launch ticket is left in a redacted text, wherever it stood and whatever stood
/// around it.
pub proof fn law_no_ticket_survives_redaction(s: Seq<char>, i: int)
    requires
        0 <= i <= redacted(s).len(),
    ensures
        !starts_ticket(redacted(s).skip(i)),
    decreases s.len(),
{
    if s.len() > 0 && starts_ticket(redacted(s).skip(i)) {
        let r = redacted(s);
        assert(r.skip(i)[0] == r[i] && r.skip(i)[1] == r[i + 1] && r.skip(i)[2] == r[i + 2] && r.skip(
            i,
        )[3] == r[i + 3]);
        if starts_ticket(s) {
            reveal_strlit("[redacted-launch-ticket]");
            let marker = "[redacted-launch-ticket]"@;
            lemma_token_length(s);
            let rest = s.skip(token_length(s));
            if i >= 24 {
                law_no_ticket_survives_redaction(rest, i - 24);
                assert(redacted(rest).skip(i - 24) =~= r.skip(i));
            } else if i + 3 >= 24 {
                assert(r[23] == marker[23]);
                assert(r[23] == ']');
            } else {
                assert(r[i + 3] == marker[i + 3]);
            }
        } else {
            let rest = s.skip(1);
            if i > 0 {
                law_no_ticket_survives_redaction(rest, i - 1);
                assert(redacted(rest).skip(i - 1) =~= r.skip(i));
            } else {
                assert forall|j: int| 0 <= j < 3 implies #[trigger] redacted(rest)[j] != '[' by {
                    assert(redacted(rest)[j] == r[j + 1]);
                }
                lemma_redacted_prefix(rest, 3);
                assert(rest[0] == redacted(rest)[0] && rest[1] == redacted(rest)[1] && rest[2]
                    == redacted(rest)[2]);
                assert(s[1] == rest[0] && s[2] == rest[1] && s[3] == rest[2]);
                assert(starts_ticket(s));
            }
        }
    }
}

/// A log line: the time in seconds, and the message without tickets and zero bytes.
pub open spec fn line_of(timestamp: u64, message: Seq<char>) -> Seq<char> {
    "["@ + decimal_text(timestamp as int) + "] "@ + redacted(replaced(message, seq!['\0'], seq![' ']))
        + "\n"@
}

/// A line of the log.
pub fn log_line(timestamp: u64, message: &str) -> (r: String)
    ensures
        r@ == line_of(timestamp, message@),
{
    let plain = replace(letters(message).as_slice(), ['\0'].as_slice(), [' '].as_slice());
    assert(['\0']@ =~= seq!['\0']);
    assert([' ']@ =~= seq![' ']);
    let clean = redact_launcher_tokens(text_of(plain.as_slice()).as_str());
    let time = text_of(write_decimal(timestamp).as_slice());
    let start = concat("[", time.as_str());
    let start = concat(start.as_str(), "] ");
    let line = concat(start.as_str(), clean.as_str());
    concat(line.as_str(), "\n")
}

/// A log of more than 4 MiB is set aside before it is written to again.
pub fn log_is_full(size: u64) -> (r: bool)
    ensures
        r == (size > 4 * 1024 * 1024),
{
    size > 4 * 1024 * 1024
}

/// The first message of every run.
pub fn start_message(build: &Build, windows: bool) -> (r: String)
    ensures
        r@ == "launcher start version="@ + build.value(Setting::LauncherVersion) + " platform="@ + (
        if windows {
            "windows"@
        } else {
            "linux"@
        }) + " verbose=true"@,
{
    let message = concat("launcher start version=", build.get(Setting::LauncherVersion));
    let message = concat(message.as_str(), " platform=");
    let message = concat(
        message.as_str(),
        if windows {
            "windows"
        } else {
            "linux"
        },
    );
    concat(message.as_str(), " verbose=true")
}

proof fn lemma_token_is_whole(s: Seq<char>)
    requires
        forall|i: int| 0 <= i < s.len() ==> is_token_letter(#[trigger] s[i]),
    ensures
        token_length(s) == s.len(),
    decreases s.len(),
{
    if s.len() > 0 {
        assert(is_token_letter(s[0]));
        let rest = s.skip(1);
        assert forall|i: int| 0 <= i < rest.len() implies is_token_letter(#[trigger] rest[i]) by {
            assert(is_token_letter(s[i + 1]));
        }
        lemma_token_is_whole(rest);
    }
}

/// Every ticket that a link can carry is redacted as a whole.
pub proof fn law_ticket_is_redacted(ticket: Seq<char>)
    requires
        is_ticket(ticket),
    ensures
        redacted(ticket) == "[redacted-launch-ticket]"@,
{
    reveal_strlit("dkl~");
    let start = "dkl~"@;
    assert(ticket.subrange(0, 4) =~= start);
    assert(ticket[0] == start[0] && ticket[1] == start[1] && ticket[2] == start[2] && ticket[3]
        == start[3]);
    lemma_token_is_whole(ticket);
    assert(ticket.skip(token_length(ticket)) =~= Seq::empty());
    assert(redacted(Seq::empty()) =~= Seq::empty());
    assert(redacted(ticket) =~= "[redacted-launch-ticket]"@);
}

} // verus!
