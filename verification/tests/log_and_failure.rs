use dko_launcher::failure::{
    judge_report, launcher_failure_code, offers_repair, player_facing_error, was_canceled, ReportReply,
};
use dko_launcher::log::{log_is_full, log_line, redact_launcher_tokens, start_message};
use dko_launcher::settings::configure;

#[test]
fn tickets_are_redacted() {
    let marker = "[redacted-launch-ticket]";
    assert_eq!(redact_launcher_tokens("nothing"), "nothing");
    assert_eq!(redact_launcher_tokens("dkl~abc"), marker);
    assert_eq!(redact_launcher_tokens("x dkl~a-B_9~z/y"), format!("x {marker}/y"));
    assert_eq!(redact_launcher_tokens("dkl~a dkl~b"), format!("{marker} {marker}"));
    assert_eq!(redact_launcher_tokens("dkdkl~x."), format!("dk{marker}."));
    assert_eq!(redact_launcher_tokens("dkl~\u{e9}"), format!("{marker}\u{e9}"));
    for text in ["dkl~dkl~a", "dkl~ dkl~", "adkl~b.dkl~c"] {
        assert!(!redact_launcher_tokens(text).contains("dkl~"));
    }
}

#[test]
fn log_lines() {
    assert_eq!(log_line(12, "a\0b dkl~x"), "[12] a b [redacted-launch-ticket]\n");
    assert!(!log_is_full(4 * 1024 * 1024));
    assert!(log_is_full(4 * 1024 * 1024 + 1));
    let values: Vec<Option<String>> = [
        "/m", "/f/", "DKO.exe", "/l", "/g/", "/launch/", "/ack", "/status", "/t", "DivineKnockoutPK", "r", "1.2.3.4",
        &"a".repeat(64), &"b".repeat(64), "1.2.3",
    ]
    .iter()
    .map(|v| Some((*v).to_owned()))
    .collect();
    let build = configure(&values, &Vec::new()).ok().unwrap();
    assert_eq!(start_message(&build, false), "launcher start version=1.2.3 platform=linux verbose=true");
    assert_eq!(start_message(&build, true), "launcher start version=1.2.3 platform=windows verbose=true");
}

#[test]
fn failures_have_codes() {
    let cases = [
        ("No installed Proton launcher", "proton"),
        ("compatibility TOOL x", "proton"),
        ("DKO executable missing: /x", "game_missing"),
        ("Divine Knockout was not found at x", "game_missing"),
        ("do not match the supported stock build", "game_version"),
        ("not for the supported DKO build", "game_version"),
        ("bad ticket", "ticket"),
        ("launch acknowledgement returned HTTP 500", "ticket"),
        ("game manifest contains", "game_update"),
        ("failed integrity verification", "game_update"),
        ("start Divine Knockout", "process_start"),
        ("spawn failed", "process_start"),
        ("returned HTTP 404", "network_or_update"),
        ("could not connect", "network_or_update"),
        ("download x", "network_or_update"),
        ("anything else", "preflight"),
        ("manifest for proton", "proton"),
    ];
    for (details, code) in cases {
        assert_eq!(launcher_failure_code(details), code, "{details}");
    }
}

#[test]
fn players_read_what_helps() {
    let proton = player_facing_error("Proton missing");
    assert!(proton.starts_with("Proton could not be found or started."));
    assert!(proton.ends_with("\n\nDetails: Proton missing"));
    assert!(player_facing_error("executable missing").starts_with("Divine Knockout could not be found."));
    assert!(player_facing_error("Game launch requires DKO 1").starts_with("The selected DivineKnockout.exe"));
    assert!(player_facing_error("run SETUP again").starts_with("Use Repair on the Project KNOCKOUT website."));
    assert!(player_facing_error("?").starts_with("Divine Knockout could not be launched."));
}

#[test]
fn repair_is_offered_unless_proton_is_missing() {
    for details in ["Proton", "compatibility tool", "executable missing", "supported stock", "setup", "?"] {
        let offered = offers_repair(&player_facing_error(details));
        assert_eq!(offered, launcher_failure_code(details) != "proton", "{details}");
    }
}

#[test]
fn giving_up_is_no_failure() {
    assert!(was_canceled("context: DivineKnockout.exe selection was canceled"));
    assert!(!was_canceled("Selection Was Canceled"));
}

#[test]
fn reports_are_repeated_for_older_servers() {
    let proton = Some("proton".to_owned());
    let preflight = Some("preflight".to_owned());
    assert_eq!(judge_report(400, &proton), ReportReply::Retry);
    assert_eq!(judge_report(400, &preflight), ReportReply::Refused);
    assert_eq!(judge_report(400, &None), ReportReply::Refused);
    assert_eq!(judge_report(200, &proton), ReportReply::Accepted);
    assert_eq!(judge_report(299, &None), ReportReply::Accepted);
    assert_eq!(judge_report(302, &None), ReportReply::Refused);
    assert_eq!(judge_report(199, &None), ReportReply::Refused);
}
