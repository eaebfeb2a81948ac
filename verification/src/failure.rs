//! What went wrong with a launch: what the server is told, and what the player reads.
use crate::text::{contains, letters, lower_all, lowercase, maybe_text, occurs, spells};
use vstd::prelude::*;

verus! {

/// The lower-case text of an error speaks of `needle`.
pub open spec fn speaks_of(details: Seq<char>, needle: Seq<char>) -> bool {
    occurs(lowercase(details), needle)
}

/// The error is about Proton.
pub open spec fn is_about_proton(details: Seq<char>) -> bool {
    speaks_of(details, "proton"@) || speaks_of(details, "compatibility tool"@)
}

/// The code by which the server is told about a failure; `details` is the text of the
/// error and of its causes.
pub open spec fn failure_code(details: Seq<char>) -> Seq<char> {
    if is_about_proton(details) {
        "proton"@
    } else if speaks_of(details, "executable missing"@) || speaks_of(
        details,
        "divine knockout was not found"@,
    ) {
        "game_missing"@
    } else if speaks_of(details, "supported stock"@) || speaks_of(
        details,
        "supported dko build"@,
    ) {
        "game_version"@
    } else if speaks_of(details, "ticket"@) || speaks_of(details, "acknowledgement"@) {
        "ticket"@
    } else if speaks_of(details, "manifest"@) || speaks_of(details, "integrity verification"@) {
        "game_update"@
    } else if speaks_of(details, "start divine knockout"@) || speaks_of(details, "spawn"@) {
        "process_start"@
    } else if speaks_of(details, "http"@) || speaks_of(details, "connect"@) || speaks_of(
        details,
        "download"@,
    ) {
        "network_or_update"@
    } else {
        "preflight"@
    }
}

fn says(lowered: &[char], needle: &str) -> (r: bool)
    ensures
        r == occurs(lowered@, needle@),
{
    contains(lowered, letters(needle).as_slice())
}

/// The code by which the server is told about a failure.
pub fn launcher_failure_code(details: &str) -> (r: &'static str)
    ensures
        r@ == failure_code(details@),
{
    let lowered = lower_all(letters(details).as_slice());
    let text = lowered.as_slice();
    if says(text, "proton") || says(text, "compatibility tool") {
        "proton"
    } else if says(text, "executable missing") || says(text, "divine knockout was not found") {
        "game_missing"
    } else if says(text, "supported stock") || says(text, "supported dko build") {
        "game_version"
    } else if says(text, "ticket") || says(text, "acknowledgement") {
        "ticket"
    } else if says(text, "manifest") || says(text, "integrity verification") {
        "game_update"
    } else if says(text, "start divine knockout") || says(text, "spawn") {
        "process_start"
    } else if says(text, "http") || says(text, "connect") || says(text, "download") {
        "network_or_update"
    } else {
        "preflight"
    }
}

/// What the player reads about an error.
pub open spec fn player_text(details: Seq<char>) -> Seq<char> {
    if is_about_proton(details) {
        "Proton could not be found or started.\n\nIn Steam, open Library > Tools and install or verify the Proton version you want to use. Then open Divine Knockout > Properties > Compatibility and select that installed version. Let Steam finish downloading it, then try launching again.\n\nDetails: "@
            + details
    } else if speaks_of(details, "executable missing"@) || speaks_of(
        details,
        "divine knockout was not found"@,
    ) {
        "Divine Knockout could not be found. Use Repair on the Project KNOCKOUT website to select DivineKnockout.exe."@
    } else if speaks_of(details, "supported stock"@) || speaks_of(
        details,
        "game launch requires dko"@,
    ) || speaks_of(details, "supported dko build"@) {
        "The selected DivineKnockout.exe does not match the supported Project KNOCKOUT game build. Restore the original supported DKO files, then use Repair on the Project KNOCKOUT website to select that executable."@
    } else if speaks_of(details, "not configured"@) || speaks_of(details, "setup"@) {
        "Use Repair on the Project KNOCKOUT website. If the launcher does not open, download and run the latest setup there."@
    } else {
        "Divine Knockout could not be launched. Download and run the latest launcher setup from the Project KNOCKOUT portal if the problem continues."@
    }
}

/// What the player reads about an error.
pub fn player_facing_error(details: &str) -> (r: String)
    ensures
        r@ == player_text(details@),
{
    let lowered = lower_all(letters(details).as_slice());
    let text = lowered.as_slice();
    if says(text, "proton") || says(text, "compatibility tool") {
        return crate::text::concat(
            "Proton could not be found or started.\n\nIn Steam, open Library > Tools and install or verify the Proton version you want to use. Then open Divine Knockout > Properties > Compatibility and select that installed version. Let Steam finish downloading it, then try launching again.\n\nDetails: ",
            details,
        );
    }
    if says(text, "executable missing") || says(text, "divine knockout was not found") {
        return "Divine Knockout could not be found. Use Repair on the Project KNOCKOUT website to select DivineKnockout.exe.".to_owned();
    }
    if says(text, "supported stock") || says(text, "game launch requires dko") || says(
        text,
        "supported dko build",
    ) {
        return "The selected DivineKnockout.exe does not match the supported Project KNOCKOUT game build. Restore the original supported DKO files, then use Repair on the Project KNOCKOUT website to select that executable.".to_owned();
    }
    if says(text, "not configured") || says(text, "setup") {
        return "Use Repair on the Project KNOCKOUT website. If the launcher does not open, download and run the latest setup there.".to_owned();
    }
    "Divine Knockout could not be launched. Download and run the latest launcher setup from the Project KNOCKOUT portal if the problem continues.".to_owned()
}

/// Repairing the launcher can help with the error that a message is about.
pub open spec fn repair_helps(message: Seq<char>) -> bool {
    !"Proton could not be found or started."@.is_prefix_of(message)
}

/// Whether the player is to be offered a repair.
pub fn offers_repair(message: &str) -> (r: bool)
    ensures
        r == repair_helps(message@),
{
    !crate::text::begins(
        letters(message).as_slice(),
        letters("Proton could not be found or started.").as_slice(),
    )
}

/// The player is offered a repair exactly when the server is told something else than
/// that Proton is missing.
pub proof fn law_proton_errors_are_not_repaired(details: Seq<char>)
    ensures
        repair_helps(player_text(details)) <==> failure_code(details) != "proton"@,
{
    let opening = "Proton could not be found or started."@;
    let message = player_text(details);
    reveal_strlit("Proton could not be found or started.");
    if is_about_proton(details) {
        reveal_strlit(
            "Proton could not be found or started.\n\nIn Steam, open Library > Tools and install or verify the Proton version you want to use. Then open Divine Knockout > Properties > Compatibility and select that installed version. Let Steam finish downloading it, then try launching again.\n\nDetails: ",
        );
        assert(message.subrange(0, opening.len() as int) =~= opening);
        assert(!repair_helps(message));
    } else {
        reveal_strlit(
            "Divine Knockout could not be found. Use Repair on the Project KNOCKOUT website to select DivineKnockout.exe.",
        );
        reveal_strlit(
            "The selected DivineKnockout.exe does not match the supported Project KNOCKOUT game build. Restore the original supported DKO files, then use Repair on the Project KNOCKOUT website to select that executable.",
        );
        reveal_strlit(
            "Use Repair on the Project KNOCKOUT website. If the launcher does not open, download and run the latest setup there.",
        );
        reveal_strlit(
            "Divine Knockout could not be launched. Download and run the latest launcher setup from the Project KNOCKOUT portal if the problem continues.",
        );
        reveal_strlit("proton");
        reveal_strlit("game_missing");
        reveal_strlit("game_version");
        reveal_strlit("ticket");
        reveal_strlit("game_update");
        reveal_strlit("process_start");
        reveal_strlit("network_or_update");
        reveal_strlit("preflight");
        assert(message[0] != 'P');
        assert(message.subrange(0, opening.len() as int)[0] == message[0]);
        assert(repair_helps(message));
        assert("proton"@[0] == 'p' && "ticket"@[0] == 't');
        assert("proton"@.len() == 6 && "game_missing"@.len() == 12 && "game_version"@.len() == 12
            && "game_update"@.len() == 11 && "process_start"@.len() == 13
            && "network_or_update"@.len() == 17 && "preflight"@.len() == 9);
    }
}

/// The player gave up choosing the game; nothing is wrong.
pub open spec fn is_cancellation(details: Seq<char>) -> bool {
    occurs(details, "selection was canceled"@)
}

/// Whether an error only says that the player gave up choosing the game.
pub fn was_canceled(details: &str) -> (r: bool)
    ensures
        r == is_cancellation(details@),
{
    contains(letters(details).as_slice(), letters("selection was canceled").as_slice())
}

/// What is to be done about the server's answer to a status report.
#[derive(Clone, Copy, Debug, PartialEq, Eq, Structural)]
pub enum ReportReply {
    Accepted,
    /// Report again with the code `preflight`: an older server does not know the
    /// code for Proton.
    Retry,
    Refused,
}

pub open spec fn report_reply(status: u16, failure_code: Option<Seq<char>>) -> ReportReply {
    if status == 400 && failure_code == Some("proton"@) {
        ReportReply::Retry
    } else if 200 <= status < 300 {
        ReportReply::Accepted
    } else {
        ReportReply::Refused
    }
}

/// What is to be done about the server's answer to a status report.
pub fn judge_report(status: u16, failure_code: &Option<String>) -> (r: ReportReply)
    ensures
        r == report_reply(status, maybe_text(*failure_code)),
{
    let proton = match failure_code {
        Some(code) => spells(letters(code.as_str()).as_slice(), "proton"),
        None => false,
    };
    if status == 400 && proton {
        ReportReply::Retry
    } else if 200 <= status && status < 300 {
        ReportReply::Accepted
    } else {
        ReportReply::Refused
    }
}

/// A report is repeated at most once: the second time its code is another one.
pub proof fn law_report_is_repeated_at_most_once(status: u16)
    ensures
        report_reply(status, Some("preflight"@)) != ReportReply::Retry,
{
    reveal_strlit("proton");
    reveal_strlit("preflight");
    assert("proton"@.len() != "preflight"@.len());
}

} // verus!
