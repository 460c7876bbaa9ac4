use std::path::PathBuf;

use codex_rs::authorize::{generate_state, state_of};
use codex_rs::callback::{CallbackError, ErrorKind, HeadlessOutcome, IoReport};
use codex_rs::server::{
    default_url_base, render_error_html, run_local_login_server,
    run_local_login_server_with_options, HttpReply, LoginPages, LoginServerError,
    LoginServerOptions, Method, PkceCodes, Route, RunningServer, ServerStep, Startup,
    DEFAULT_ISSUER, DEFAULT_PORT,
};

fn pages() -> LoginPages {
    LoginPages {
        success_html: "<p>done</p>".to_string(),
        error_html: "<p>%%MESSAGE%%</p>".to_string(),
    }
}

fn options(issuer: &str) -> LoginServerOptions {
    LoginServerOptions {
        codex_home: PathBuf::from("/home/codex"),
        client_id: "client 1".to_string(),
        issuer: issuer.to_string(),
        port: 0,
        open_browser: false,
        expose_state_endpoint: true,
        testing_timeout_secs: Some(5),
    }
}

fn pkce() -> PkceCodes {
    PkceCodes {
        code_verifier: "verifier".to_string(),
        code_challenge: "chal_lenge-1".to_string(),
    }
}

fn start(http_e2e_tests: bool) -> (RunningServer, Startup) {
    let server =
        run_local_login_server_with_options(options("https://issuer.test"), pages(), http_e2e_tests);
    match server.bound_with_state(4321, pkce(), "5ta7e".to_string()) {
        Ok(begun) => begun,
        Err(error) => panic!("unexpected error: {error:?}"),
    }
}

fn answer(step: ServerStep) -> (HttpReply, bool) {
    match step {
        ServerStep::Respond { reply, stop } => (reply, stop),
        ServerStep::Exchange(login) => panic!("unexpected exchange: {login:?}"),
    }
}

/// The answer of a server that does not stop.
fn going_on(step: ServerStep) -> HttpReply {
    let (reply, stop) = answer(step);
    assert!(!stop);
    reply
}

/// The message of an error that is reported as any other.
fn other_error(error: LoginServerError) -> String {
    match error.report() {
        IoReport::Made {
            kind: ErrorKind::Other,
            message,
        } => message,
        report => panic!("unexpected report: {report:?}"),
    }
}

fn html_header() -> Vec<(String, String)> {
    vec![(
        "Content-Type".to_string(),
        "text/html; charset=utf-8".to_string(),
    )]
}

#[test]
fn default_server_has_default_options() {
    let server = run_local_login_server(PathBuf::from("/h"), "me", pages());
    assert_eq!(server.opts.codex_home, PathBuf::from("/h"));
    assert_eq!(server.opts.client_id, "me");
    assert_eq!(server.opts.issuer, "https://auth.openai.com");
    assert_eq!(DEFAULT_ISSUER, "https://auth.openai.com");
    assert_eq!(server.opts.port, 1455);
    assert_eq!(DEFAULT_PORT, 1455);
    assert!(server.opts.open_browser);
    assert!(!server.opts.expose_state_endpoint);
    assert_eq!(server.opts.testing_timeout_secs, None);
    assert!(!server.http_e2e_tests);
    assert_eq!(server.bind_address(), ("127.0.0.1".to_string(), 1455));
    assert_eq!(server.reported_port(1455), None);
}

#[test]
fn url_base_names_the_port() {
    assert_eq!(default_url_base(1455), "http://localhost:1455");
    assert_eq!(default_url_base(0), "http://localhost:0");
}

#[test]
fn generated_state_is_hexadecimal() {
    let state = generate_state();
    assert_eq!(state.len(), 64);
    assert!(state.chars().all(|c| matches!(c, '0'..='9' | 'a'..='f')));
    assert_ne!(state, generate_state());
}

#[test]
fn state_is_the_drawn_bytes_in_hexadecimal() {
    assert_eq!(state_of(&[]), "");
    assert_eq!(state_of(&[0x00, 0x0f, 0xa5, 0xff]), "000fa5ff");
}

#[test]
fn authorize_url_has_the_query_of_the_login() {
    let (running, startup) = start(false);
    assert_eq!(
        startup.auth_url,
        "https://issuer.test/oauth/authorize?response_type=code&client_id=client+1\
&redirect_uri=http%3A%2F%2Flocalhost%3A4321%2Fauth%2Fcallback\
&scope=openid+profile+email+offline_access&code_challenge=chal_lenge-1\
&code_challenge_method=S256&id_token_add_organizations=true\
&codex_cli_simplified_flow=true&state=5ta7e"
    );
    assert_eq!(running.opts.port, 4321);
    assert_eq!(running.opts.issuer, "https://issuer.test");
    assert_eq!(running.state, "5ta7e");
    assert_eq!(running.code_verifier, "verifier");
    assert_eq!(
        startup.starting_message,
        "Starting local login server on http://localhost:4321"
    );
    assert_eq!(
        startup.navigate_message,
        format!(
            ". If your browser did not open, navigate to this URL to authenticate: \n\n{}",
            startup.auth_url
        )
    );
    assert_eq!(startup.open_browser, None);
    assert!(startup.exit_request.is_none());
}

#[test]
fn authorize_url_keeps_query_and_fragment_of_the_issuer() {
    for (issuer, beginning, end) in [
        (
            "https://issuer.test?a=b#c",
            "https://issuer.test/?a=b&response_type=code&client_id=client+1&",
            "&state=%C3%A9%26+%25#c/oauth/authorize",
        ),
        (
            "https://issuer.test?x=",
            "https://issuer.test/?x=/oauth/authorize&response_type=code&",
            "&state=%C3%A9%26+%25",
        ),
        (
            "https://issuer.test/p?#f",
            "https://issuer.test/p?response_type=code&",
            "&state=%C3%A9%26+%25#f/oauth/authorize",
        ),
    ] {
        let server = run_local_login_server_with_options(options(issuer), pages(), false);
        match server.bound_with_state(1, pkce(), "é& %".to_string()) {
            Ok((_, startup)) => {
                assert!(startup.auth_url.starts_with(beginning), "{}", startup.auth_url);
                assert!(startup.auth_url.ends_with(end), "{}", startup.auth_url);
            }
            Err(error) => panic!("unexpected error: {error:?}"),
        }
    }
}

#[test]
fn a_bound_server_draws_a_state() {
    let server = run_local_login_server_with_options(options("https://issuer.test"), pages(), false);
    match server.bound(1, pkce()) {
        Ok((running, startup)) => {
            assert_eq!(running.state.len(), 64);
            assert!(startup
                .auth_url
                .ends_with(&format!("&state={}", running.state)));
        }
        Err(error) => panic!("unexpected error: {error:?}"),
    }
}

#[test]
fn an_issuer_that_is_no_url_is_refused() {
    let server = run_local_login_server_with_options(options("nonsense"), pages(), false);
    match server.bound(1, pkce()) {
        Err(LoginServerError::AuthorizeUrl(error)) => {
            assert_eq!(error.to_string(), "relative URL without a base");
            assert_eq!(
                other_error(LoginServerError::AuthorizeUrl(error)),
                "relative URL without a base"
            );
        }
        other => panic!("unexpected outcome: {other:?}"),
    }
    let server = run_local_login_server_with_options(options("https://a b"), pages(), false);
    match server.bound(1, pkce()) {
        Err(error) => assert_eq!(other_error(error), "invalid international domain name"),
        other => panic!("unexpected outcome: {other:?}"),
    }
}

#[test]
fn sockets_that_fail_are_reported() {
    assert_eq!(
        other_error(LoginServerError::Bind("Address already in use".to_string())),
        "Address already in use"
    );
    let (running, _) = start(false);
    match running.received(Err("thread unblocked".to_string())) {
        Err(error) => assert_eq!(other_error(error), "thread unblocked"),
        other => panic!("unexpected step: {other:?}"),
    }
    match running.received(Ok((Method::Get, "/__test/exit?x".to_string()))) {
        Ok(step) => {
            let (reply, stop) = answer(step);
            assert_eq!(reply.body, Some("bye".to_string()));
            assert!(stop);
        }
        other => panic!("unexpected step: {other:?}"),
    }
}

#[test]
fn authorize_url_of_a_web_address_has_no_white_space() {
    for issuer in [
        "https://us er:pa\tss\u{a0}@issuer.test/a b\u{3000}",
        "HTTP://issuer.test:80/\u{85}?q r\ns#f\u{2028} g",
        "http:\\\\issuer.test\\x y",
        "https:issuer.test/%20 '\"",
        " https://b\u{fc}cher.test/\u{b}",
        "http://[::1]/ ?\r#",
    ] {
        let server = run_local_login_server_with_options(options(issuer), pages(), false);
        match server.bound(1, pkce()) {
            Ok((_, startup)) => {
                let url = startup.auth_url;
                assert!(url.starts_with("http://") || url.starts_with("https://"), "{url}");
                assert!(!url.contains(char::is_whitespace), "{url}");
            }
            Err(error) => panic!("unexpected error: {error:?}"),
        }
    }
}

#[test]
fn a_browser_is_opened_if_wanted() {
    let mut opts = options("https://issuer.test");
    opts.open_browser = true;
    let server = run_local_login_server_with_options(opts, pages(), false);
    match server.bound_with_state(1, pkce(), "s".to_string()) {
        Ok((_, startup)) => assert_eq!(startup.open_browser, Some(startup.auth_url)),
        Err(error) => panic!("unexpected error: {error:?}"),
    }
}

#[test]
fn end_to_end_tests_get_port_state_and_exit() {
    let server =
        run_local_login_server_with_options(options("https://issuer.test"), pages(), true);
    assert_eq!(server.reported_port(77), Some(77));
    let (running, startup) = start(true);
    let exit = match startup.exit_request {
        Some(exit) => exit,
        None => panic!("no exit request"),
    };
    assert_eq!(exit.after_secs, 5);
    assert_eq!(exit.url, "http://127.0.0.1:4321/__test/exit");
    let (reply, stop) = answer(running.handle(Method::Get, "/__test/state?x"));
    assert!(!stop);
    assert_eq!(reply.status, 200);
    assert_eq!(
        reply.headers,
        vec![("Content-Type".to_string(), "text/plain".to_string())]
    );
    assert_eq!(reply.body, Some("5ta7e".to_string()));
}

#[test]
fn state_is_hidden_outside_end_to_end_tests() {
    let (running, _) = start(false);
    assert_eq!(running.route(Method::Get, "/__test/state"), Route::Unknown);
    let (mut running, _) = start(true);
    running.opts.expose_state_endpoint = false;
    assert_eq!(running.route(Method::Get, "/__test/state"), Route::Unknown);
}

#[test]
fn success_page_ends_the_server() {
    let (running, _) = start(false);
    let (reply, stop) = answer(running.handle(Method::Get, "/success?id_token=x"));
    assert!(stop);
    assert_eq!(reply.status, 200);
    assert_eq!(reply.headers, html_header());
    assert_eq!(reply.body, Some("<p>done</p>".to_string()));
}

#[test]
fn exit_request_ends_the_server() {
    let (running, _) = start(false);
    let (reply, stop) = answer(running.handle(Method::Get, "/__test/exit"));
    assert!(stop);
    assert_eq!(reply.status, 200);
    assert_eq!(reply.headers, vec![]);
    assert_eq!(reply.body, Some("bye".to_string()));
}

#[test]
fn other_requests_are_not_supported() {
    let (running, _) = start(true);
    for (method, target) in [
        (Method::Get, "/"),
        (Method::Get, ""),
        (Method::Get, "/success/"),
        (Method::Get, "/auth/callback/x?state=5ta7e&code=c"),
        (Method::Other, "/success"),
        (Method::Other, "/__test/exit"),
        (Method::Other, "/__test/state"),
        (Method::Other, "/auth/callback?state=5ta7e&code=c"),
    ] {
        let (reply, stop) = answer(running.handle(method, target));
        assert!(!stop);
        assert_eq!(reply.status, 404);
        assert_eq!(reply.headers, vec![]);
        assert_eq!(reply.body, Some("Endpoint not supported".to_string()));
    }
}

#[test]
fn callback_with_another_state_is_refused() {
    let (running, _) = start(false);
    for target in [
        "/auth/callback",
        "/auth/callback?",
        "/auth/callback?code=c",
        "/auth/callback?state=other&code=c",
        "/auth/callback?state=5ta7e&code=c&state=other",
        "/auth/callback?state&code=c",
        "/auth/callback?STATE=5ta7e&code=c",
    ] {
        let (reply, stop) = answer(running.handle(Method::Get, target));
        assert!(!stop);
        assert_eq!(reply.status, 400);
        assert_eq!(reply.headers, html_header());
        assert_eq!(reply.body, Some("<p>State parameter mismatch</p>".to_string()));
    }
}

#[test]
fn callback_without_a_code_is_refused() {
    let (running, _) = start(false);
    for target in [
        "/auth/callback?state=5ta7e",
        "/auth/callback?state=5ta7e&code=",
        "/auth/callback?code=c&state=5ta7e&code",
    ] {
        let (reply, stop) = answer(running.handle(Method::Get, target));
        assert!(!stop);
        assert_eq!(reply.status, 400);
        assert_eq!(reply.headers, html_header());
        assert_eq!(
            reply.body,
            Some("<p>Missing authorization code</p>".to_string())
        );
    }
}

#[test]
fn callback_with_state_and_code_is_accepted() {
    let (running, _) = start(false);
    for (target, code) in [
        ("/auth/callback?code=abc&state=5ta7e", "abc"),
        ("/auth/callback?state=other&state=5ta7e&code=x&code=y", "y"),
        ("/auth/callback?&&state=5ta7e&code=a%2Fb+c%26", "a/b c&"),
        ("/auth/callback?state=5ta7%65&c%6Fde=a=b?c", "a=b?c"),
    ] {
        match running.handle(Method::Get, target) {
            ServerStep::Exchange(login) => {
                assert_eq!(login.request.url, "https://issuer.test/oauth/token");
                assert_eq!(
                    login.request.form,
                    vec![
                        ("grant_type".to_string(), "authorization_code".to_string()),
                        ("code".to_string(), code.to_string()),
                        (
                            "redirect_uri".to_string(),
                            "http://localhost:4321/auth/callback".to_string()
                        ),
                        ("client_id".to_string(), "client 1".to_string()),
                        ("code_verifier".to_string(), "verifier".to_string()),
                    ]
                );
                assert_eq!(login.port, 4321);
                assert_eq!(login.codex_home, PathBuf::from("/home/codex"));
            }
            other => panic!("unexpected step: {other:?}"),
        }
    }
}

#[test]
fn parameters_decide_without_a_query() {
    let (running, _) = start(false);
    let params = vec![
        ("state".to_string(), "5ta7e".to_string()),
        ("code".to_string(), "c".to_string()),
    ];
    assert!(matches!(
        running.handle_callback(&params),
        ServerStep::Exchange(_)
    ));
    assert!(matches!(
        running.handle_callback(&vec![]),
        ServerStep::Respond { stop: false, .. }
    ));
}

#[test]
fn completed_login_redirects_to_its_success_url() {
    let (running, _) = start(false);
    let reply = going_on(running.exchanged(&Ok(HeadlessOutcome {
        success_url: "http://localhost:4321/success?x=1".to_string(),
        api_key: None,
    })));
    assert_eq!(reply.status, 302);
    assert_eq!(
        reply.headers,
        vec![(
            "Location".to_string(),
            "http://localhost:4321/success?x=1".to_string()
        )]
    );
    assert_eq!(reply.body, None);
}

#[test]
fn success_url_that_is_no_header_is_left_out() {
    let (running, _) = start(false);
    let reply = going_on(running.exchanged(&Ok(HeadlessOutcome {
        success_url: "http://localhost/é".to_string(),
        api_key: None,
    })));
    assert_eq!(reply.status, 302);
    assert_eq!(reply.headers, vec![]);
    assert_eq!(reply.body, None);
}

#[test]
fn failed_login_shows_an_error() {
    let (running, _) = start(false);
    for error in [
        CallbackError::StateMismatch,
        CallbackError::TokenExchangeFailed,
        CallbackError::SuccessUrl("reason".to_string()),
    ] {
        let reply = going_on(running.exchanged(&Err(error)));
        assert_eq!(reply.status, 500);
        assert_eq!(reply.headers, html_header());
        assert_eq!(reply.body, Some("<p>Token exchange failed</p>".to_string()));
    }
}

#[test]
fn error_page_shows_the_message_escaped() {
    assert_eq!(
        render_error_html("<p>%%MESSAGE%%</p>", "a < b & c > \"d\" 'é'"),
        "<p>a &lt; b &amp; c &gt; \"d\" 'é'</p>"
    );
    assert_eq!(render_error_html("no place", "x"), "no place");
    assert_eq!(
        render_error_html("%%MESSAGE%% %%MESSAGE%%", "%%MESSAGE%%"),
        "%%MESSAGE%% %%MESSAGE%%"
    );
}
