//! What the server and the player are told, and what is written down.
use crate::failure::{
    failure_code, is_about_proton, is_cancellation, player_text, repair_helps, report_reply,
    speaks_of, ReportReply,
};
use crate::laws::text::law_text_is_found;
use crate::links::is_token_letter;
use crate::log::{line_of, redacted, starts_ticket, token_length};
use crate::text::{decimal_text, lowercase, occurs};
use vstd::prelude::*;

verus! {

/// The error speaks of one of these, in any case.
pub open spec fn speaks_of_any(details: Seq<char>, words: Seq<Seq<char>>) -> bool {
    exists|i: int| 0 <= i < words.len() && speaks_of(details, #[trigger] words[i])
}

pub open spec fn proton_words() -> Seq<Seq<char>> {
    seq!["proton"@, "compatibility tool"@]
}

pub open spec fn missing_words() -> Seq<Seq<char>> {
    seq!["executable missing"@, "divine knockout was not found"@]
}

pub open spec fn version_words() -> Seq<Seq<char>> {
    seq!["supported stock"@, "supported dko build"@]
}

pub open spec fn ticket_words() -> Seq<Seq<char>> {
    seq!["ticket"@, "acknowledgement"@]
}

pub open spec fn update_words() -> Seq<Seq<char>> {
    seq!["manifest"@, "integrity verification"@]
}

pub open spec fn start_words() -> Seq<Seq<char>> {
    seq!["start divine knockout"@, "spawn"@]
}

pub open spec fn network_words() -> Seq<Seq<char>> {
    seq!["http"@, "connect"@, "download"@]
}

/// A word is spoken of wherever it stands, and however it is written.
pub proof fn law_words_are_recognized(before: Seq<char>, word: Seq<char>, after: Seq<char>)
    ensures
        speaks_of(before + word + after, lowercase(word)),
{
    let low = lowercase(before + word + after);
    assert(low =~= lowercase(before) + lowercase(word) + lowercase(after));
    law_text_is_found(lowercase(before), lowercase(word), lowercase(after));
}

proof fn lemma_pairs(details: Seq<char>)
    ensures
        speaks_of_any(details, proton_words()) <==> is_about_proton(details),
        speaks_of_any(details, missing_words()) <==> speaks_of(details, "executable missing"@)
            || speaks_of(details, "divine knockout was not found"@),
        speaks_of_any(details, version_words()) <==> speaks_of(details, "supported stock"@)
            || speaks_of(details, "supported dko build"@),
        speaks_of_any(details, ticket_words()) <==> speaks_of(details, "ticket"@) || speaks_of(
            details,
            "acknowledgement"@,
        ),
        speaks_of_any(details, update_words()) <==> speaks_of(details, "manifest"@) || speaks_of(
            details,
            "integrity verification"@,
        ),
        speaks_of_any(details, start_words()) <==> speaks_of(details, "start divine knockout"@)
            || speaks_of(details, "spawn"@),
        speaks_of_any(details, network_words()) <==> speaks_of(details, "http"@) || speaks_of(
            details,
            "connect"@,
        ) || speaks_of(details, "download"@),
{
    assert(proton_words()[0] == "proton"@ && proton_words()[1] == "compatibility tool"@);
    assert(missing_words()[0] == "executable missing"@ && missing_words()[1]
        == "divine knockout was not found"@);
    assert(version_words()[0] == "supported stock"@ && version_words()[1] == "supported dko build"@);
    assert(ticket_words()[0] == "ticket"@ && ticket_words()[1] == "acknowledgement"@);
    assert(update_words()[0] == "manifest"@ && update_words()[1] == "integrity verification"@);
    assert(start_words()[0] == "start divine knockout"@ && start_words()[1] == "spawn"@);
    assert(network_words()[0] == "http"@ && network_words()[1] == "connect"@ && network_words()[2]
        == "download"@);
}

/// The code for a failure follows the first of these groups that the error speaks of.
pub proof fn law_codes_of_failures(details: Seq<char>)
    ensures
        ({
            let code = failure_code(details);
            let proton = speaks_of_any(details, proton_words());
            let missing = speaks_of_any(details, missing_words());
            let version = speaks_of_any(details, version_words());
            let ticket = speaks_of_any(details, ticket_words());
            let update = speaks_of_any(details, update_words());
            let start = speaks_of_any(details, start_words());
            let network = speaks_of_any(details, network_words());
            &&& proton ==> code == "proton"@
            &&& !proton && missing ==> code == "game_missing"@
            &&& !proton && !missing && version ==> code == "game_version"@
            &&& !proton && !missing && !version && ticket ==> code == "ticket"@
            &&& !proton && !missing && !version && !ticket && update ==> code == "game_update"@
            &&& !proton && !missing && !version && !ticket && !update && start ==> code
                == "process_start"@
            &&& !proton && !missing && !version && !ticket && !update && !start && network ==> code
                == "network_or_update"@
            &&& !proton && !missing && !version && !ticket && !update && !start && !network ==> code
                == "preflight"@
        }),
{
    lemma_pairs(details);
}

/// What the player reads: about Proton with the details, then about a missing game, an
/// unsupported one, a launcher that is not set up, and else a general advice.
pub proof fn law_advice_for_the_player(details: Seq<char>)
    ensures
        ({
            let text = player_text(details);
            let proton = speaks_of_any(details, proton_words());
            let missing = speaks_of_any(details, missing_words());
            let version = speaks_of_any(details, version_words()) || speaks_of(
                details,
                "game launch requires dko"@,
            );
            let setup = speaks_of(details, "not configured"@) || speaks_of(details, "setup"@);
            &&& proton ==> text
                == "Proton could not be found or started.\n\nIn Steam, open Library > Tools and install or verify the Proton version you want to use. Then open Divine Knockout > Properties > Compatibility and select that installed version. Let Steam finish downloading it, then try launching again.\n\nDetails: "@
                + details
            &&& !proton && missing ==> text
                == "Divine Knockout could not be found. Use Repair on the Project KNOCKOUT website to select DivineKnockout.exe."@
            &&& !proton && !missing && version ==> text
                == "The selected DivineKnockout.exe does not match the supported Project KNOCKOUT game build. Restore the original supported DKO files, then use Repair on the Project KNOCKOUT website to select that executable."@
            &&& !proton && !missing && !version && setup ==> text
                == "Use Repair on the Project KNOCKOUT website. If the launcher does not open, download and run the latest setup there."@
            &&& !proton && !missing && !version && !setup ==> text
                == "Divine Knockout could not be launched. Download and run the latest launcher setup from the Project KNOCKOUT portal if the problem continues."@
            &&& repair_helps(text) <==> !proton
        }),
{
    lemma_pairs(details);
    crate::failure::law_proton_errors_are_not_repaired(details);
    law_codes_of_failures(details);
    lemma_codes_differ();
}

proof fn lemma_codes_differ()
    ensures
        "game_missing"@ != "proton"@,
        "game_version"@ != "proton"@,
        "ticket"@ != "proton"@,
        "game_update"@ != "proton"@,
        "process_start"@ != "proton"@,
        "network_or_update"@ != "proton"@,
        "preflight"@ != "proton"@,
{
    reveal_strlit("proton");
    reveal_strlit("game_missing");
    reveal_strlit("game_version");
    reveal_strlit("ticket");
    reveal_strlit("game_update");
    reveal_strlit("process_start");
    reveal_strlit("network_or_update");
    reveal_strlit("preflight");
    assert("ticket"@[0] != "proton"@[0]);
    assert("proton"@.len() == 6 && "process_start"@.len() == 13 && "preflight"@.len() == 9
        && "network_or_update"@.len() == 17 && "game_update"@.len() == 11 && "game_missing"@.len()
        == 12 && "game_version"@.len() == 12);
}

/// Giving up is recognized wherever it is spoken of, as it is written.
pub proof fn law_giving_up_is_recognized(before: Seq<char>, after: Seq<char>)
    ensures
        is_cancellation(before + "selection was canceled"@ + after),
{
    law_text_is_found(before, "selection was canceled"@, after);
}

/// The server's answers: success is accepted, a code that it does not know is replaced,
/// and everything else is refused.
pub proof fn law_answers_to_reports(status: u16, code: Option<Seq<char>>)
    ensures
        200 <= status <= 299 ==> report_reply(status, code) == ReportReply::Accepted,
        status == 400 && code == Some("proton"@) ==> report_reply(status, code)
            == ReportReply::Retry,
        status == 400 && code != Some("proton"@) ==> report_reply(status, code)
            == ReportReply::Refused,
        !(200 <= status <= 299) && status != 400 ==> report_reply(status, code)
            == ReportReply::Refused,
{
}

/// A ticket is replaced as a whole, and what stands around it stays.
pub proof fn law_only_the_ticket_is_redacted(before: Seq<char>, ticket: Seq<char>, after: Seq<char>)
    requires
        ticket.len() >= 4,
        ticket[0] == 'd' && ticket[1] == 'k' && ticket[2] == 'l' && ticket[3] == '~',
        forall|i: int| 0 <= i < ticket.len() ==> is_token_letter(#[trigger] ticket[i]),
        after.len() > 0 ==> !is_token_letter(after[0]),
        forall|i: int|
            0 <= i < before.len() ==> !starts_ticket((#[trigger] (before + ticket + after).skip(i))),
    ensures
        redacted(before + ticket + after) == before + "[redacted-launch-ticket]"@ + redacted(after),
    decreases before.len(),
{
    let s = before + ticket + after;
    if before.len() == 0 {
        assert(s =~= ticket + after);
        assert(starts_ticket(s));
        lemma_token_ends(ticket, after);
        assert(s.skip(ticket.len() as int) =~= after);
        assert(before + "[redacted-launch-ticket]"@ + redacted(after)
            =~= "[redacted-launch-ticket]"@ + redacted(after));
    } else {
        assert(s.skip(0) =~= s);
        assert(!starts_ticket(s.skip(0)));
        let rest = before.skip(1);
        assert(s.skip(1) =~= rest + ticket + after);
        assert forall|i: int| 0 <= i < rest.len() implies !starts_ticket(
            (#[trigger] (rest + ticket + after).skip(i)),
        ) by {
            assert((rest + ticket + after).skip(i) =~= s.skip(i + 1));
            assert(!starts_ticket(s.skip(i + 1)));
        }
        law_only_the_ticket_is_redacted(rest, ticket, after);
        assert(seq![s[0]] + (rest + "[redacted-launch-ticket]"@ + redacted(after)) =~= before
            + "[redacted-launch-ticket]"@ + redacted(after));
    }
}

proof fn lemma_token_ends(token: Seq<char>, after: Seq<char>)
    requires
        forall|i: int| 0 <= i < token.len() ==> is_token_letter(#[trigger] token[i]),
        after.len() > 0 ==> !is_token_letter(after[0]),
    ensures
        token_length(token + after) == token.len(),
    decreases token.len(),
{
    let s = token + after;
    if token.len() == 0 {
        assert(s =~= after);
    } else {
        assert(is_token_letter(token[0]));
        assert(s[0] == token[0]);
        assert(s.skip(1) =~= token.skip(1) + after);
        assert forall|i: int| 0 <= i < token.skip(1).len() implies is_token_letter(
            #[trigger] token.skip(1)[i],
        ) by {
            assert(is_token_letter(token[i + 1]));
        }
        lemma_token_ends(token.skip(1), after);
    }
}

/// A text without tickets stays as it is.
pub proof fn law_nothing_else_is_redacted(s: Seq<char>)
    requires
        forall|i: int| 0 <= i < s.len() ==> !starts_ticket((#[trigger] s.skip(i))),
    ensures
        redacted(s) == s,
    decreases s.len(),
{
    if s.len() > 0 {
        assert(s.skip(0) =~= s);
        assert(!starts_ticket(s.skip(0)));
        let rest = s.skip(1);
        assert forall|i: int| 0 <= i < rest.len() implies !starts_ticket((#[trigger] rest.skip(i))) by {
            assert(rest.skip(i) =~= s.skip(i + 1));
            assert(!starts_ticket(s.skip(i + 1)));
        }
        law_nothing_else_is_redacted(rest);
        assert(seq![s[0]] + rest =~= s);
    }
}

/// A message without tickets and zero bytes stands in the log as it is, behind the time
/// and before the end of the line.
pub proof fn law_log_holds_the_message(timestamp: u64, message: Seq<char>)
    requires
        !message.contains('\0'),
        forall|i: int| 0 <= i < message.len() ==> !starts_ticket((#[trigger] message.skip(i))),
    ensures
        line_of(timestamp, message) == "["@ + decimal_text(timestamp as int) + "] "@ + message
            + "\n"@,
{
    assert(!occurs(message, seq!['\0'])) by {
        if occurs(message, seq!['\0']) {
            let i = choose|i: int| #[trigger] crate::text::occurs_at(message, seq!['\0'], i);
            assert(message.subrange(i, i + 1)[0] == '\0');
            assert(message[i] == '\0');
        }
    }
    crate::laws::text::law_nothing_else_is_replaced(message, seq!['\0'], seq![' ']);
    law_nothing_else_is_redacted(message);
}

} // verus!
