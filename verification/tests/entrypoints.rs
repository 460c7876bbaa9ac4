use std::path::PathBuf;

use codex_rs::callback::{ErrorKind, IoReport};
use codex_rs::entrypoints::{
    decode_lines, login_finished, login_with_chatgpt, spawn_login_with_chatgpt, SpawnedLogin,
};
use codex_rs::process::ProcessText;
use codex_rs::server::{
    run_local_login_server, run_local_login_server_with_options, LoginPages, LoginServerOptions,
    PkceCodes,
};

fn login_url(stderr: &[u8]) -> Option<String> {
    SpawnedLogin {
        stdout: b"http://stdout.test\n".to_vec(),
        stderr: stderr.to_vec(),
    }
    .get_login_url()
}

fn pages() -> LoginPages {
    LoginPages {
        success_html: String::new(),
        error_html: String::new(),
    }
}

#[test]
fn login_url_is_the_last_line_that_looks_like_one() {
    assert_eq!(login_url(b""), None);
    assert_eq!(login_url(b"nothing here\nsee http://a.test\n"), None);
    assert_eq!(login_url(b"http://a.test"), Some("http://a.test".to_string()));
    assert_eq!(
        login_url(b"http://a.test\r\n \thttps://b.test/x?y \r\nlater\n"),
        Some("https://b.test/x?y".to_string())
    );
    assert_eq!(login_url(b"ftp://a.test\nhttps:/b\n"), None);
    assert_eq!(login_url(b"HTTP://a.test\n"), None);
}

#[test]
fn login_url_survives_bytes_that_are_not_utf8() {
    assert_eq!(
        login_url(b"\xff\xfe\nhttps://b.test/\xff\n\xc3"),
        Some("https://b.test/\u{fffd}".to_string())
    );
}

#[test]
fn lines_agree_with_those_of_the_whole_text() {
    fn agree(bytes: &[u8]) {
        let text = String::from_utf8_lossy(bytes);
        let expected: Vec<&str> = text.lines().collect();
        assert_eq!(decode_lines(bytes), expected, "{bytes:?}");
    }
    for text in [
        "", "\n", "a", "a\n", "a\nb", "a\r\nb\r\n", "a\r", "\r\n", "a\n\nb", "a\r\r\nb", "\r",
        "é\n\u{2028}x", "\u{10a0a}\n\u{d0d}\r\n",
    ] {
        agree(text.as_bytes());
    }
    // A byte of every kind, in every order.
    let kinds = [
        b'a', b'\n', b'\r', 0x80, 0x8f, 0x90, 0x9f, 0xa0, 0xbf, 0xc0, 0xc3, 0xe0, 0xe2, 0xed, 0xf0,
        0xf1, 0xf4, 0xff,
    ];
    let mut sequences: Vec<Vec<u8>> = vec![Vec::new()];
    for _ in 0..4 {
        let mut longer = Vec::new();
        for sequence in &sequences {
            agree(sequence);
            for kind in kinds {
                let mut next = sequence.clone();
                next.push(kind);
                longer.push(next);
            }
        }
        sequences = longer;
    }
    for sequence in &sequences {
        agree(sequence);
        let mut ended = sequence.clone();
        ended.extend(b"\nb");
        agree(&ended);
    }
}

#[test]
fn login_url_is_found_after_any_bytes() {
    for before in [&b""[..], b"\xff", b"\xf0\x9f\x98", b"http://earlier.test", b"\xe2\r"] {
        let mut stderr = before.to_vec();
        stderr.extend(b"\nhttps://b.test/x\nlater \xff\n ftp://c.test");
        assert_eq!(login_url(&stderr), Some("https://b.test/x".to_string()));
    }
}

#[test]
fn login_url_is_found_in_what_the_server_prints() {
    let opts = LoginServerOptions {
        codex_home: PathBuf::from("/home/codex"),
        client_id: "client".to_string(),
        issuer: "https://issuer.test".to_string(),
        port: 0,
        open_browser: true,
        expose_state_endpoint: false,
        testing_timeout_secs: None,
    };
    let pkce = PkceCodes {
        code_verifier: "v".to_string(),
        code_challenge: "c".to_string(),
    };
    let server = run_local_login_server_with_options(opts, pages(), false);
    match server.bound(1455, pkce) {
        Ok((_, startup)) => {
            let printed = format!(
                "http://earlier.test\nwarning: é\n{}\n{}\n",
                startup.starting_message, startup.navigate_message
            );
            assert_eq!(
                login_url(printed.as_bytes()),
                Some(startup.auth_url.clone())
            );
            let more = format!("{printed}\nWaiting for https://issuer.test\n\thttp:/x");
            assert_eq!(login_url(more.as_bytes()), Some(startup.auth_url));
        }
        Err(error) => panic!("unexpected error: {error:?}"),
    }
}

#[test]
fn login_process_is_this_program() {
    let plan = spawn_login_with_chatgpt(PathBuf::from("/bin/codex"), PathBuf::from("/home/codex"));
    assert_eq!(plan.program, PathBuf::from("/bin/codex"));
    assert!(matches!(&plan.args[..], [ProcessText::Text(arg)] if arg == "login"));
    match &plan.env[..] {
        [(name, ProcessText::Path(home))] => {
            assert_eq!(name, "CODEX_HOME");
            assert_eq!(home, &PathBuf::from("/home/codex"));
        }
        other => panic!("unexpected environment: {other:?}"),
    }
}

#[test]
fn configured_client_is_used_unless_empty() {
    for (configured, expected) in [
        (None, "default"),
        (Some(""), "default"),
        (Some("mine"), "mine"),
        (Some(" "), " "),
    ] {
        let server = login_with_chatgpt(
            PathBuf::from("/h"),
            configured.map(|id| id.to_string()),
            "default",
            pages(),
        );
        assert_eq!(server.opts.client_id, expected);
        assert_eq!(server.opts.codex_home, PathBuf::from("/h"));
        assert_eq!(server.opts.issuer, "https://auth.openai.com");
        assert_eq!(server.opts.port, 1455);
        assert!(server.opts.open_browser);
        assert!(!server.opts.expose_state_endpoint);
        assert_eq!(server.opts.testing_timeout_secs, None);
        assert!(!server.http_e2e_tests);
    }
}

#[test]
fn login_is_the_local_server_for_the_chosen_client() {
    let login = login_with_chatgpt(
        PathBuf::from("/h"),
        Some("mine".to_string()),
        "default",
        pages(),
    );
    let local = run_local_login_server(PathBuf::from("/h"), "mine", pages());
    assert_eq!(format!("{login:?}"), format!("{local:?}"));
}

#[test]
fn login_ends_as_its_server_does() {
    assert!(login_finished(Ok(Ok(()))).is_ok());
    let refused = std::io::Error::new(std::io::ErrorKind::AddrInUse, "taken");
    match login_finished(Ok(Err(refused))) {
        Err(IoReport::Passed(error)) => {
            assert_eq!(error.kind(), std::io::ErrorKind::AddrInUse);
            assert_eq!(error.to_string(), "taken");
        }
        other => panic!("unexpected end: {other:?}"),
    }
    match login_finished(Err("task 3 panicked".to_string())) {
        Err(IoReport::Made { kind, message }) => {
            assert_eq!(kind, ErrorKind::Other);
            assert_eq!(message, "task join error: task 3 panicked");
        }
        other => panic!("unexpected end: {other:?}"),
    }
}
