use dko_launcher::arguments::{validate_player_command_arguments, without_auth_password, ArgumentError};
use dko_launcher::links::{
    asks_for_repair, is_repair_protocol_uri, parse_protocol_uri, validate_pinned_server_url, LinkError, ServerError,
};
use dko_launcher::p2p::transport::{
    enable_in_launcher, homedir_option, is_ready_line, launch_needs_bridge, open_transport, LauncherProcess,
    TransportError,
};
use dko_launcher::settings::{configure, Build};
use dko_launcher::web::{
    acknowledgement_url, game_manifest_url, loopback_host, manifest_source, replace_path, server_file_url,
    offers_room, offers_room_for_scheme, remove_fragment, remove_query, replace_scheme, status_url,
    ticket_routed_path,
};

fn build() -> Build {
    let values: Vec<Option<String>> = [
        "/game/manifest", "/game/files/", "DKO.exe", "/launcher/manifest", "/launcher/files/", "/launch/",
        "/ack", "/status", "/transport", "DivineKnockoutPK", "runtime-v1", "1.2.3.4", &"a".repeat(64),
        &"b".repeat(64), "1.2.3",
    ]
    .iter()
    .map(|v| Some((*v).to_owned()))
    .collect();
    configure(&values, &Vec::new()).ok().unwrap()
}

fn list(values: &[&str]) -> Vec<String> {
    values.iter().map(|v| (*v).to_owned()).collect()
}

fn message(uri: &str) -> String {
    parse_protocol_uri(uri).err().unwrap().message()
}

const GOOD: &str = "project-knockout://launch?ticket=dkl~abc-DEF_9&username=Player%20One&mode=patched&arg=-windowed";

#[test]
fn a_link_is_read() {
    let launch = parse_protocol_uri(GOOD).ok().unwrap();
    assert_eq!(launch.ticket, "dkl~abc-DEF_9");
    assert_eq!(launch.username, "Player One");
    assert_eq!(launch.command_args, list(&["-windowed"]));
    assert!(parse_protocol_uri("project-knockout://launch/?ticket=dkl~a&username=b").is_ok());
}

#[test]
fn foreign_links_are_refused() {
    for uri in [
        "https://launch?ticket=dkl~a&username=b",
        "project-knockout://other?ticket=dkl~a&username=b",
        "project-knockout://user@launch?ticket=dkl~a&username=b",
        "project-knockout://user:pw@launch?ticket=dkl~a&username=b",
        "project-knockout://launch:80?ticket=dkl~a&username=b",
        "project-knockout://launch/x?ticket=dkl~a&username=b",
        "project-knockout://launch?ticket=dkl~a&username=b#f",
    ] {
        assert!(matches!(parse_protocol_uri(uri), Err(LinkError::Foreign)), "{uri}");
        assert_eq!(message(uri), "invalid DKO launcher URI");
    }
    assert!(message("no url").starts_with("parse DKO launcher URI: "));
    assert_eq!(message("no url"), "parse DKO launcher URI: relative URL without a base");
}

#[test]
fn fields_of_a_link_are_checked() {
    let field = "invalid or repeated DKO launcher URI field";
    assert_eq!(message("project-knockout://launch?ticket=dkl~a&ticket=dkl~b&username=c"), field);
    assert_eq!(message("project-knockout://launch?ticket=dkl~a&username=b&username=c"), field);
    assert_eq!(message("project-knockout://launch?ticket=dkl~a&username=b&mode=stock"), field);
    assert_eq!(message("project-knockout://launch?ticket=dkl~a&username=b&mode=patched&mode=patched"), field);
    assert_eq!(message("project-knockout://launch?ticket=dkl~a&username=b&x=1"), field);
    assert_eq!(message("project-knockout://launch?username=b"), "DKO launcher URI omitted its ticket");
    assert_eq!(message("project-knockout://launch?ticket=dkl~a"), "DKO launcher URI omitted its username");
    let ticket = "DKO launcher ticket has an invalid format";
    assert_eq!(message("project-knockout://launch?ticket=abc&username=b"), ticket);
    assert_eq!(message("project-knockout://launch?ticket=dkl~a.b&username=b"), ticket);
    let long = format!("project-knockout://launch?ticket=dkl~{}&username=b", "a".repeat(125));
    assert_eq!(message(&long), ticket);
    let fits = format!("project-knockout://launch?ticket=dkl~{}&username=b", "a".repeat(124));
    assert!(parse_protocol_uri(&fits).is_ok());
    let username = "DKO launcher username has an invalid format";
    assert_eq!(message("project-knockout://launch?ticket=dkl~a&username="), username);
    assert_eq!(message("project-knockout://launch?ticket=dkl~a&username=a%07"), username);
    let wide = format!("project-knockout://launch?ticket=dkl~a&username={}", "%C3%A4".repeat(33));
    assert_eq!(message(&wide), username);
}

#[test]
fn links_cannot_set_protected_options() {
    for option in [
        "-AUTH_LOGIN=x", "-RallyHereURL=x", "-homedir=x", "-abslog=x", "-LogCmds=x", "-oss=x", "-nosteam",
        "-noeac", "-hirezenv=x", "-ini:x", "-INI=x", "windowed", "-a\u{7}", "",
    ] {
        let error = validate_player_command_arguments(&list(&[option])).unwrap_err();
        assert_eq!(error, ArgumentError::NotAllowed, "{option:?}");
    }
    assert_eq!(ArgumentError::NotAllowed.message(), "custom launch argument is not allowed");
    assert!(validate_player_command_arguments(&list(&["-windowed", "-ResX=800"])).is_ok());
    assert!(validate_player_command_arguments(&vec![format!("-{}", "a".repeat(255))]).is_ok());
    assert!(validate_player_command_arguments(&vec![format!("-{}", "a".repeat(256))]).is_err());
    let many = vec!["-a".to_owned(); 17];
    assert_eq!(validate_player_command_arguments(&many), Err(ArgumentError::TooMany));
    let heavy = vec![format!("-{}", "a".repeat(205)); 5];
    assert_eq!(validate_player_command_arguments(&heavy), Err(ArgumentError::TooMany));
    assert_eq!(ArgumentError::TooMany.message(), "too many custom launch arguments");
    let uri = "project-knockout://launch?ticket=dkl~a&username=b&arg=-nosteam";
    assert_eq!(message(uri), "custom launch argument is not allowed");
}

#[test]
fn passwords_are_taken_out() {
    let cases: [(&[&str], &[&str]); 6] = [
        (&["-a", "-AUTH_PASSWORD=x", "-b"], &["-a", "-b"]),
        (&["-auth_password", "secret", "-b"], &["-b"]),
        (&["--auth_password", "-b"], &["-b"]),
        (&["auth_password secret"], &[]),
        (&["-auth_password"], &[]),
        (&["-auth_passwordx"], &["-auth_passwordx"]),
    ];
    for (given, left) in cases {
        assert_eq!(without_auth_password(&list(given)), list(left), "{given:?}");
    }
    let launch = parse_protocol_uri("project-knockout://launch?ticket=dkl~a&username=b&arg=-AUTH_PASSWORD%3Dx&arg=-w");
    assert_eq!(launch.ok().unwrap().command_args, list(&["-w"]));
}

#[test]
fn repair_links_say_nothing_else() {
    assert!(matches!(is_repair_protocol_uri("project-knockout://repair"), Ok(true)));
    assert!(matches!(is_repair_protocol_uri("project-knockout://repair/"), Ok(true)));
    assert!(matches!(is_repair_protocol_uri(GOOD), Ok(false)));
    let error = is_repair_protocol_uri("project-knockout://repair?server=evil").err().unwrap();
    assert_eq!(error.message(), "invalid DKO repair URI");
    assert!(matches!(is_repair_protocol_uri("x"), Err(LinkError::Unreadable { .. })));
    assert!(matches!(asks_for_repair("anything", &Some("repair".to_owned())), Err(LinkError::Repair)));
    assert!(matches!(asks_for_repair("anything", &None), Ok(false)));
}

#[test]
fn trusted_servers() {
    let pinned = |value: &str| validate_pinned_server_url(value).ok().unwrap();
    assert_eq!(pinned("https://example.com"), "https://example.com/");
    assert_eq!(pinned("HTTPS://Example.com:443/portal///"), "https://example.com/portal");
    assert_eq!(pinned("http://127.0.0.1:8080/"), "http://127.0.0.1:8080/");
    assert_eq!(pinned("http://127.9.9.9"), "http://127.9.9.9/");
    for insecure in ["http://example.com", "http://localhost", "ftp://example.com", "http://[::1]"] {
        let error = validate_pinned_server_url(insecure).err().unwrap();
        assert!(matches!(error, ServerError::Insecure), "{insecure}");
        assert_eq!(
            error.message(),
            "the external launcher requires HTTPS (HTTP is allowed only for loopback testing)"
        );
    }
    for partial in ["https://example.com?x", "https://example.com#x"] {
        let error = validate_pinned_server_url(partial).err().unwrap();
        assert!(matches!(error, ServerError::NotAnOrigin));
        assert_eq!(
            error.message(),
            "trusted DKO server URL must be an absolute origin without query or fragment"
        );
    }
    let error = validate_pinned_server_url("").err().unwrap();
    assert_eq!(error.message(), "parse trusted DKO server URL: relative URL without a base");
    assert_eq!(ServerError::TooLong.message(), "trusted DKO server URL is too long");
}

#[test]
fn loopback_hosts() {
    for yes in ["127.0.0.1", "127.255.255.255"] {
        assert!(loopback_host(yes), "{yes}");
    }
    for no in ["128.0.0.1", "127.0.0", "127.0.0.256", "127.0.0.01", "0127.0.0.1", "localhost", "127.0.0.1.", ""] {
        assert!(!loopback_host(no), "{no}");
    }
}

#[test]
fn urls_on_the_server() {
    let build = build();
    let server = "https://example.com/portal?q#f";
    assert_eq!(ticket_routed_path(&build, "dkl~a", "/ack"), "/launch/dkl~a/ack");
    assert_eq!(server_file_url(server, "/a b").unwrap(), "https://example.com/a%20b#f");
    assert_eq!(game_manifest_url(&build, "https://example.com/").unwrap(), "https://example.com/game/manifest");
    assert_eq!(
        manifest_source(&build, "https://example.com/", &Some("dkl~a".to_owned())).unwrap(),
        "https://example.com/launch/dkl~a/game/manifest"
    );
    assert_eq!(
        manifest_source(&build, "https://example.com/", &None).unwrap(),
        "https://example.com/game/manifest"
    );
    assert_eq!(acknowledgement_url(&build, server, "dkl~a").unwrap(), "https://example.com/launch/dkl~a/ack");
    assert_eq!(status_url(&build, server, "dkl~a").unwrap(), "https://example.com/launch/dkl~a/status");
    assert_eq!(game_manifest_url(&build, "nonsense"), None);
    let long = "a".repeat(0x120_0000);
    let url = replace_path(Some("https://example.com/".to_owned()), &long).unwrap();
    assert_eq!(url.len(), "https://example.com/".len() + long.len());
    assert_eq!(replace_path(Some("nonsense".to_owned()), "/a"), None);
}

#[test]
fn rewriting_a_url_changes_one_part() {
    let url = || Some("https://u:p@h.example:8443/a?x=1#f".to_owned());
    assert_eq!(replace_path(url(), "/b c/./d\t?#").unwrap(), "https://u:p@h.example:8443/b%20c/d%3F%23?x=1#f");
    assert_eq!(remove_query(url()).unwrap(), "https://u:p@h.example:8443/a#f");
    assert_eq!(remove_fragment(url()).unwrap(), "https://u:p@h.example:8443/a?x=1");
    assert_eq!(replace_scheme(url(), "wss").unwrap(), "wss://u:p@h.example:8443/a?x=1#f");
    assert_eq!(replace_scheme(Some("http://h.example:443/".to_owned()), "wss").unwrap(), "wss://h.example/");
    assert_eq!(replace_scheme(url(), "mailto"), None);
    assert_eq!(remove_query(Some("nonsense".to_owned())), None);
    assert_eq!(remove_fragment(None), None);
    assert!(offers_room("https://example.com/", "/a"));
    assert!(!offers_room("nonsense", "/a"));
    assert!(offers_room_for_scheme("https://example.com/", "wss"));
    assert!(!offers_room_for_scheme("nonsense", "wss"));
}

#[test]
fn transports_of_launches() {
    let build = build();
    let open = |url: &str| open_transport(&build, url);
    let transport = open("https://example.com/launch/dkl~a/x?q=1#f").ok().unwrap();
    assert_eq!((transport.url.as_str(), transport.ticket.as_str()), ("wss://example.com/transport", "dkl~a"));
    assert_eq!(open("http://127.0.0.1:81/launch/t").ok().unwrap().url, "ws://127.0.0.1:81/transport");
    assert_eq!(open("http://localhost/launch/t").ok().unwrap().url, "ws://localhost/transport");
    let error = open("https://example.com/launch//x").err().unwrap();
    assert!(matches!(error, TransportError::NoTicket));
    assert_eq!(error.message(), "transport launch has no ticket");
    assert!(matches!(open("https://example.com/other/t"), Err(TransportError::NoTicket)));
    let error = open("http://example.com/launch/t").err().unwrap();
    assert!(matches!(error, TransportError::Insecure));
    assert_eq!(error.message(), "public player transport requires HTTPS");
    assert_eq!(open("").err().unwrap().message(), "relative URL without a base");
    assert_eq!(open("https://u:p@example.com:8443/launch/t").ok().unwrap().url, "wss://u:p@example.com:8443/transport");
    assert_eq!(TransportError::Scheme.message(), "invalid transport scheme");
    assert_eq!(TransportError::TooLong.message(), "player transport URL is too long");
}

#[test]
fn only_the_launcher_starts_bridges() {
    let build = build();
    let mut process = LauncherProcess::default();
    let url = "https://example.com/launch/dkl~a";
    assert!(matches!(launch_needs_bridge(&build, process, url), Ok(false)));
    enable_in_launcher(&mut process);
    assert!(matches!(launch_needs_bridge(&build, process, url), Ok(true)));
    assert!(matches!(launch_needs_bridge(&build, process, "https://example.com/"), Ok(false)));
    assert!(launch_needs_bridge(&build, process, "x").is_err());
    assert!(is_ready_line(" ready\n"));
    assert!(!is_ready_line("not ready"));
    assert_eq!(homedir_option("DivineKnockoutPK"), "-homedir=DivineKnockoutPK");
}
