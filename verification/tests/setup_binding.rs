use base64::engine::general_purpose::URL_SAFE_NO_PAD;
use base64::Engine;
use dko_launcher::launch::{choose_setup, SetupChoice};
use dko_launcher::windows_setup::{
    server_from_bytes, server_url_from_embedded_binding, server_url_from_setup_executable,
    strip_browser_duplicate_suffix, BindingError,
};

fn bound(program: &[u8], server: &str) -> Vec<u8> {
    let mut body = program.to_vec();
    body.extend_from_slice(b"PROJECT_KNOCKOUT_SERVER_V1\0");
    body.extend_from_slice(server.as_bytes());
    body.extend_from_slice(&(server.len() as u16).to_le_bytes());
    body
}

fn strip(stem: &str) -> String {
    let letters: Vec<char> = stem.chars().collect();
    strip_browser_duplicate_suffix(&letters).into_iter().collect()
}

fn by_name(name: &str) -> Result<String, BindingError> {
    server_url_from_setup_executable(name.as_bytes(), &None, false)
}

#[test]
fn an_embedded_server_is_found() {
    for program in [&b""[..], b"MZ...", b"PROJECT_KNOCKOUT_SERVER_V1\0"] {
        let body = bound(program, "https://example.com");
        assert_eq!(server_url_from_embedded_binding(&body), Ok("https://example.com".to_owned()));
        let found = server_url_from_setup_executable(b"/tmp/whatever", &Some(body), false);
        assert_eq!(found, Ok("https://example.com".to_owned()));
    }
}

#[test]
fn files_without_a_binding() {
    let invalid = Err(BindingError::InvalidEmbedding);
    assert_eq!(server_url_from_embedded_binding(b""), Err(BindingError::NotEmbedded));
    assert_eq!(server_url_from_embedded_binding(b"\0"), Err(BindingError::NotEmbedded));
    assert_eq!(server_url_from_embedded_binding(b"abc\0\0"), invalid);
    assert_eq!(server_url_from_embedded_binding(b"abc\x03\0"), invalid);
    assert_eq!(server_url_from_embedded_binding(&bound(b"", &"a".repeat(161))), invalid);
    assert!(server_url_from_embedded_binding(&bound(b"", &"a".repeat(160))).is_ok());
    let mut other = bound(b"", "https://example.com");
    other[0] = b'X';
    assert_eq!(server_url_from_embedded_binding(&other), Err(BindingError::NotEmbedded));
    let mut broken = bound(b"", "ab");
    let place = broken.len() - 3;
    broken[place] = 0xff;
    assert_eq!(server_url_from_embedded_binding(&broken), Err(BindingError::EmbeddingNotUtf8));
}

#[test]
fn the_name_of_a_setup_may_hold_the_server() {
    let encoded = URL_SAFE_NO_PAD.encode("https://example.com/\u{e9}");
    let server = Ok("https://example.com/\u{e9}".to_owned());
    assert_eq!(by_name(&format!("/home/DKO-Setup--{encoded}.exe")), server);
    assert_eq!(by_name(&format!("DKO-Setup--{encoded} (12).exe")), server);
    let fallback = server_url_from_setup_executable(
        format!("DKO-Setup--{encoded}.exe").as_bytes(),
        &Some(b"no binding here".to_vec()),
        false,
    );
    assert_eq!(fallback, server);
    let downloaded = format!("C:\\Users\\me/Downloads\\DKO-Setup--{encoded}.exe");
    assert_eq!(server_url_from_setup_executable(downloaded.as_bytes(), &None, true), server);
    let on_linux = by_name(&downloaded.replace('/', "\\"));
    assert_eq!(on_linux, Err(BindingError::Unbound));
}

#[test]
fn names_that_hold_no_server() {
    assert_eq!(by_name("/"), Err(BindingError::NameNotUnicode));
    assert_eq!(server_url_from_setup_executable(b"/\xff.exe", &None, false), Err(BindingError::NameNotUnicode));
    assert_eq!(by_name("DKO-Setup--x"), Err(BindingError::NotExe));
    assert_eq!(by_name("Setup.exe"), Err(BindingError::Unbound));
    assert_eq!(by_name("DKO-Setup--!!.exe"), Err(BindingError::Encoding));
    assert_eq!(by_name("DKO-Setup--.exe"), Err(BindingError::Length));
    let long = URL_SAFE_NO_PAD.encode("a".repeat(161));
    assert_eq!(by_name(&format!("DKO-Setup--{long}.exe")), Err(BindingError::Length));
    let binary = URL_SAFE_NO_PAD.encode([0xffu8, 0xfe]);
    assert_eq!(by_name(&format!("DKO-Setup--{binary}.exe")), Err(BindingError::NotUtf8));
}

#[test]
fn decoded_servers() {
    assert_eq!(server_from_bytes(None), Err(BindingError::Encoding));
    assert_eq!(server_from_bytes(Some(Vec::new())), Err(BindingError::Length));
    assert_eq!(server_from_bytes(Some(vec![0xff])), Err(BindingError::NotUtf8));
    assert_eq!(server_from_bytes(Some(b"x".to_vec())), Ok("x".to_owned()));
}

#[test]
fn numbers_of_browsers_are_stripped() {
    assert_eq!(strip("DKO (1)"), "DKO");
    assert_eq!(strip("DKO (1) (23)"), "DKO (1)");
    for kept in ["DKO", "DKO ()", "DKO (x)", "DKO (1", "DKO(1)", "DKO (1)x"] {
        assert_eq!(strip(kept), kept);
    }
}

#[test]
fn errors_of_bindings() {
    let messages = [
        (BindingError::NotEmbedded, "setup has no embedded server binding"),
        (BindingError::InvalidEmbedding, "setup has an invalid embedded server binding"),
        (BindingError::EmbeddingNotUtf8, "setup server binding is not valid UTF-8"),
        (BindingError::NameNotUnicode, "Windows setup filename is not valid Unicode"),
        (BindingError::NotExe, "Windows setup filename must end in .exe"),
        (
            BindingError::Unbound,
            "This is not a server-bound DKO setup download. Download it again from the DKO portal.",
        ),
        (BindingError::Encoding, "DKO setup filename contains an invalid server binding"),
        (BindingError::Length, "DKO setup server binding is empty or too long"),
        (BindingError::NotUtf8, "DKO setup server binding is not valid UTF-8"),
    ];
    for (error, message) in messages {
        assert_eq!(error.message(), message);
    }
}

#[test]
fn a_program_without_arguments() {
    assert!(matches!(choose_setup(Ok("s".to_owned()), true), SetupChoice::Install { .. }));
    assert!(matches!(choose_setup(Err(BindingError::Unbound), true), SetupChoice::AlreadyInstalled));
    assert!(matches!(
        choose_setup(Err(BindingError::Unbound), false),
        SetupChoice::Fail { error: BindingError::Unbound }
    ));
}
