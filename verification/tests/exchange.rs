use std::io::{Error, ErrorKind as IoErrorKind};
use std::path::PathBuf;

use codex_rs::callback::{
    process_callback_headless, AwaitingContext, AwaitingStore, AwaitingTokens, AwaitingUrl,
    CallbackError, ErrorKind, IoReport, LoginContext, TokenExchange, TokenReply, PLATFORM_BASE,
};
use codex_rs::server::LoginServerOptions;

fn opts() -> LoginServerOptions {
    LoginServerOptions {
        codex_home: PathBuf::from("/home/codex"),
        client_id: "client".to_string(),
        issuer: "https://issuer.test".to_string(),
        port: 99,
        open_browser: false,
        expose_state_endpoint: false,
        testing_timeout_secs: None,
    }
}

fn begun() -> AwaitingTokens {
    match process_callback_headless(&opts(), "s", "s", Some("code"), "verifier") {
        Ok(login) => login,
        Err(error) => panic!("unexpected error: {error:?}"),
    }
}

fn tokens(id: &str, access: &str, refresh: &str) -> TokenReply {
    TokenReply::Tokens(TokenExchange {
        id_token: id.to_string(),
        access_token: access.to_string(),
        refresh_token: refresh.to_string(),
    })
}

fn received() -> AwaitingContext {
    match begun().tokens_received(tokens("id", "access", "refresh")) {
        Ok(login) => login,
        Err(error) => panic!("unexpected error: {error:?}"),
    }
}

fn to_store() -> AwaitingStore {
    received().context_extracted(LoginContext {
        account_id: Some("account".to_string()),
        org_id: Some("org".to_string()),
        project_id: None,
        needs_setup: true,
        plan_type: Some("plan".to_string()),
    })
}

fn stored() -> AwaitingUrl {
    match to_store().auth_stored(Ok(())) {
        Ok(login) => login,
        Err(error) => panic!("unexpected error: {error:?}"),
    }
}

fn made(error: CallbackError) -> (ErrorKind, String) {
    match error.report() {
        IoReport::Made { kind, message } => (kind, message),
        IoReport::Passed(error) => panic!("unexpected error: {error:?}"),
    }
}

#[test]
fn state_mismatch_is_invalid_input() {
    for code in [None, Some("code")] {
        match process_callback_headless(&opts(), "expected", "incoming", code, "v") {
            Err(error) => {
                assert!(matches!(error, CallbackError::StateMismatch));
                assert_eq!(
                    made(error),
                    (ErrorKind::InvalidInput, "state mismatch".to_string())
                );
            }
            Ok(login) => panic!("unexpected login: {login:?}"),
        }
    }
}

#[test]
fn missing_code_is_invalid_input() {
    match process_callback_headless(&opts(), "s", "s", None, "v") {
        Err(error) => {
            assert!(matches!(error, CallbackError::MissingCode));
            assert_eq!(
                made(error),
                (
                    ErrorKind::InvalidInput,
                    "missing authorization code".to_string()
                )
            );
        }
        Ok(login) => panic!("unexpected login: {login:?}"),
    }
}

#[test]
fn code_is_posted_to_the_token_endpoint() {
    let login = begun();
    assert_eq!(login.request.url, "https://issuer.test/oauth/token");
    assert_eq!(
        login.request.form,
        vec![
            ("grant_type".to_string(), "authorization_code".to_string()),
            ("code".to_string(), "code".to_string()),
            (
                "redirect_uri".to_string(),
                "http://localhost:99/auth/callback".to_string()
            ),
            ("client_id".to_string(), "client".to_string()),
            ("code_verifier".to_string(), "verifier".to_string()),
        ]
    );
}

#[test]
fn empty_code_is_posted_too() {
    match process_callback_headless(&opts(), "", "", Some(""), "v") {
        Ok(login) => assert_eq!(login.request.form[1].1, ""),
        Err(error) => panic!("unexpected error: {error:?}"),
    }
}

#[test]
fn failed_request_is_passed_on() {
    let failure = Error::new(IoErrorKind::ConnectionRefused, "refused");
    match begun().tokens_received(TokenReply::Failed(failure)) {
        Err(error) => match error.report() {
            IoReport::Passed(error) => {
                assert_eq!(error.kind(), IoErrorKind::ConnectionRefused);
                assert_eq!(error.to_string(), "refused");
            }
            other => panic!("unexpected report: {other:?}"),
        },
        Ok(login) => panic!("unexpected login: {login:?}"),
    }
}

#[test]
fn malformed_reply_is_reported() {
    match begun().tokens_received(TokenReply::Malformed("missing field `id_token`".to_string())) {
        Err(error) => assert_eq!(
            made(error),
            (
                ErrorKind::Other,
                "invalid token response: missing field `id_token`".to_string()
            )
        ),
        Ok(login) => panic!("unexpected login: {login:?}"),
    }
}

#[test]
fn empty_token_fails_the_exchange() {
    for reply in [
        tokens("", "a", "r"),
        tokens("i", "", "r"),
        tokens("i", "a", ""),
    ] {
        match begun().tokens_received(reply) {
            Err(error) => {
                assert!(matches!(error, CallbackError::TokenExchangeFailed));
                assert_eq!(
                    made(error),
                    (ErrorKind::Other, "token exchange failed".to_string())
                );
            }
            Ok(login) => panic!("unexpected login: {login:?}"),
        }
    }
}

#[test]
fn received_tokens_are_to_be_stored() {
    assert_eq!(received().tokens.id_token, "id");
    let login = to_store();
    assert_eq!(login.record.codex_home, PathBuf::from("/home/codex"));
    assert_eq!(login.record.api_key, None);
    assert_eq!(login.record.id_token, "id");
    assert_eq!(login.record.access_token, "access");
    assert_eq!(login.record.refresh_token, "refresh");
    assert_eq!(login.record.account_id, Some("account".to_string()));
}

#[test]
fn failed_store_is_passed_on() {
    let failure = Error::new(IoErrorKind::PermissionDenied, "denied");
    match to_store().auth_stored(Err(failure)) {
        Err(error) => match error.report() {
            IoReport::Passed(error) => assert_eq!(error.kind(), IoErrorKind::PermissionDenied),
            other => panic!("unexpected report: {other:?}"),
        },
        Ok(login) => panic!("unexpected login: {login:?}"),
    }
}

#[test]
fn success_url_is_made_of_the_account() {
    let login = stored();
    assert_eq!(login.request.base, "http://localhost:99");
    assert_eq!(login.request.id_token, Some("id".to_string()));
    assert_eq!(login.request.org_id, Some("org".to_string()));
    assert_eq!(login.request.project_id, None);
    assert_eq!(login.request.plan_type, Some("plan".to_string()));
    assert!(login.request.needs_setup);
    assert_eq!(login.request.platform_url, "https://platform.openai.com");
    assert_eq!(PLATFORM_BASE, "https://platform.openai.com");
}

#[test]
fn outcome_is_the_success_url() {
    match stored().url_built(Ok("http://localhost:99/success".to_string())) {
        Ok(outcome) => {
            assert_eq!(outcome.success_url, "http://localhost:99/success");
            assert_eq!(outcome.api_key, None);
        }
        Err(error) => panic!("unexpected error: {error:?}"),
    }
}

#[test]
fn missing_success_url_is_reported() {
    match stored().url_built(Err("bad url".to_string())) {
        Err(error) => assert_eq!(made(error), (ErrorKind::Other, "bad url".to_string())),
        Ok(outcome) => panic!("unexpected outcome: {outcome:?}"),
    }
}
