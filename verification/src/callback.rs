//! The exchange that follows the redirect of the browser: an authorization code is traded for
//! tokens, the tokens are stored, and the browser is sent to the success page.
//!
//! Each step takes the reply to the work that the step before asked for.
use crate::server::{default_url_base, redirect_uri, url_base, LoginServerOptions};
use crate::text::{followed_by, pair_texts, same_text};
use vstd::prelude::*;
use vstd::string::*;

verus! {

/// The site that the success page links to.
pub const PLATFORM_BASE: &'static str = "https://platform.openai.com";

/// A form to post to the token endpoint.
#[derive(Debug)]
pub struct TokenRequest {
    pub url: String,
    pub form: Vec<(String, String)>,
}

/// The tokens in a reply of the token endpoint.
#[derive(Debug)]
pub struct TokenExchange {
    pub id_token: String,
    pub access_token: String,
    pub refresh_token: String,
}

impl TokenExchange {
    /// Whether no token is empty.
    pub open spec fn complete(self) -> bool {
        self.id_token@.len() > 0 && self.access_token@.len() > 0 && self.refresh_token@.len() > 0
    }
}

/// What came back from the token endpoint.
#[derive(Debug)]
pub enum TokenReply {
    /// The request failed.
    Failed(std::io::Error),
    /// The reply did not hold the tokens, for this reason.
    Malformed(String),
    Tokens(TokenExchange),
}

/// What the tokens say of the account.
#[derive(Debug)]
pub struct LoginContext {
    pub account_id: Option<String>,
    pub org_id: Option<String>,
    pub project_id: Option<String>,
    pub needs_setup: bool,
    pub plan_type: Option<String>,
}

/// What is to be stored.
#[derive(Debug)]
pub struct AuthRecord {
    pub codex_home: std::path::PathBuf,
    pub api_key: Option<String>,
    pub id_token: String,
    pub access_token: String,
    pub refresh_token: String,
    pub account_id: Option<String>,
}

/// What the URL of the success page is made of.
#[derive(Debug)]
pub struct SuccessUrlRequest {
    pub base: String,
    pub id_token: Option<String>,
    pub org_id: Option<String>,
    pub project_id: Option<String>,
    pub plan_type: Option<String>,
    pub needs_setup: bool,
    pub platform_url: String,
}

/// The result of a completed login.
#[derive(Debug, Clone)]
pub struct HeadlessOutcome {
    pub success_url: String,
    pub api_key: Option<String>,
}

/// Why a login was not completed.
#[derive(Debug)]
pub enum CallbackError {
    StateMismatch,
    MissingCode,
    TokenEndpoint(std::io::Error),
    InvalidTokenResponse(String),
    TokenExchangeFailed,
    AuthStore(std::io::Error),
    SuccessUrl(String),
}

/// The kind of an error that the login reports as an I/O error.
#[derive(Debug, Clone, Copy, PartialEq, Eq, Structural)]
pub enum ErrorKind {
    InvalidInput,
    Other,
}

/// An I/O error to report.
#[derive(Debug)]
pub enum IoReport {
    /// One that came from outside, as it is.
    Passed(std::io::Error),
    /// A new one.
    Made { kind: ErrorKind, message: String },
}

impl CallbackError {
    /// The I/O error that stands for this error.
    pub fn report(self) -> (report: IoReport)
        ensures
            match self {
                CallbackError::StateMismatch => report matches IoReport::Made { kind, message }
                    && kind == ErrorKind::InvalidInput && message@ == "state mismatch"@,
                CallbackError::MissingCode => report matches IoReport::Made { kind, message }
                    && kind == ErrorKind::InvalidInput && message@ == "missing authorization code"@,
                CallbackError::TokenEndpoint(error) => report == IoReport::Passed(error),
                CallbackError::InvalidTokenResponse(reason) => report matches IoReport::Made {
                    kind,
                    message,
                } && kind == ErrorKind::Other && message@ == "invalid token response: "@ + reason@,
                CallbackError::TokenExchangeFailed => report matches IoReport::Made {
                    kind,
                    message,
                } && kind == ErrorKind::Other && message@ == "token exchange failed"@,
                CallbackError::AuthStore(error) => report == IoReport::Passed(error),
                CallbackError::SuccessUrl(reason) => report matches IoReport::Made { kind, message }
                    && kind == ErrorKind::Other && message@ == reason@,
            },
    {
        match self {
            CallbackError::StateMismatch => IoReport::Made {
                kind: ErrorKind::InvalidInput,
                message: "state mismatch".to_owned(),
            },
            CallbackError::MissingCode => IoReport::Made {
                kind: ErrorKind::InvalidInput,
                message: "missing authorization code".to_owned(),
            },
            CallbackError::TokenEndpoint(error) => IoReport::Passed(error),
            CallbackError::InvalidTokenResponse(reason) => IoReport::Made {
                kind: ErrorKind::Other,
                message: followed_by("invalid token response: ", reason.as_str()),
            },
            CallbackError::TokenExchangeFailed => IoReport::Made {
                kind: ErrorKind::Other,
                message: "token exchange failed".to_owned(),
            },
            CallbackError::AuthStore(error) => IoReport::Passed(error),
            CallbackError::SuccessUrl(reason) => IoReport::Made {
                kind: ErrorKind::Other,
                message: reason,
            },
        }
    }
}

/// The form that trades an authorization code for tokens.
pub open spec fn token_form(
    code: Seq<char>,
    port: u16,
    client_id: Seq<char>,
    code_verifier: Seq<char>,
) -> Seq<(Seq<char>, Seq<char>)> {
    seq![
        ("grant_type"@, "authorization_code"@),
        ("code"@, code),
        ("redirect_uri"@, redirect_uri(port)),
        ("client_id"@, client_id),
        ("code_verifier"@, code_verifier),
    ]
}

/// A login that waits for the reply to `request`, posted as a form.
#[derive(Debug)]
pub struct AwaitingTokens {
    pub codex_home: std::path::PathBuf,
    pub port: u16,
    pub request: TokenRequest,
}

/// A login that waits for what `tokens` say of the account.
#[derive(Debug)]
pub struct AwaitingContext {
    pub codex_home: std::path::PathBuf,
    pub port: u16,
    pub tokens: TokenExchange,
}

/// A login that waits for `record` to be stored.
#[derive(Debug)]
pub struct AwaitingStore {
    pub port: u16,
    pub record: AuthRecord,
    pub org_id: Option<String>,
    pub project_id: Option<String>,
    pub needs_setup: bool,
    pub plan_type: Option<String>,
}

/// A login that waits for the URL of the success page, made of `request`.
#[derive(Debug)]
pub struct AwaitingUrl {
    pub request: SuccessUrlRequest,
    pub api_key: Option<String>,
}

/// Begins the exchange for a callback that carries `incoming_state` and maybe a code.
pub fn process_callback_headless(
    opts: &LoginServerOptions,
    expected_state: &str,
    incoming_state: &str,
    code_opt: Option<&str>,
    code_verifier: &str,
) -> (begun: Result<AwaitingTokens, CallbackError>)
    ensures
        match begun {
            Err(error) => {
                ||| error == CallbackError::StateMismatch && incoming_state@ != expected_state@
                ||| error == CallbackError::MissingCode && incoming_state@ == expected_state@
                    && code_opt is None
            },
            Ok(login) => {
                &&& incoming_state@ == expected_state@
                &&& code_opt is Some
                &&& login.trades(*opts, code_opt->0@, code_verifier@)
            },
        },
{
    if !same_text(incoming_state, expected_state) {
        return Err(CallbackError::StateMismatch);
    }
    let code = match code_opt {
        Some(code) => code,
        None => {
            return Err(CallbackError::MissingCode);
        },
    };
    let redirect = followed_by(default_url_base(opts.port).as_str(), "/auth/callback");
    let mut form: Vec<(String, String)> = Vec::new();
    form.push(("grant_type".to_owned(), "authorization_code".to_owned()));
    form.push(("code".to_owned(), code.to_owned()));
    form.push(("redirect_uri".to_owned(), redirect));
    form.push(("client_id".to_owned(), opts.client_id.clone()));
    form.push(("code_verifier".to_owned(), code_verifier.to_owned()));
    let request = TokenRequest { url: followed_by(opts.issuer.as_str(), "/oauth/token"), form };
    assert(pair_texts(request.form@) =~= token_form(
        code@,
        opts.port,
        opts.client_id@,
        code_verifier@,
    ));
    Ok(AwaitingTokens { codex_home: opts.codex_home.clone(), port: opts.port, request })
}

impl AwaitingTokens {
    /// Whether this is the exchange of a code under these options.
    pub open spec fn trades(
        self,
        opts: LoginServerOptions,
        code: Seq<char>,
        code_verifier: Seq<char>,
    ) -> bool {
        &&& self.codex_home == opts.codex_home
        &&& self.port == opts.port
        &&& self.request.url@ == opts.issuer@ + "/oauth/token"@
        &&& pair_texts(self.request.form@) == token_form(
            code,
            opts.port,
            opts.client_id@,
            code_verifier,
        )
    }

    /// What follows the reply of the token endpoint.
    pub open spec fn after_reply(self, reply: TokenReply) -> Result<
        AwaitingContext,
        CallbackError,
    > {
        match reply {
            TokenReply::Failed(error) => Err(CallbackError::TokenEndpoint(error)),
            TokenReply::Malformed(reason) => Err(CallbackError::InvalidTokenResponse(reason)),
            TokenReply::Tokens(tokens) => if tokens.complete() {
                Ok(AwaitingContext { codex_home: self.codex_home, port: self.port, tokens })
            } else {
                Err(CallbackError::TokenExchangeFailed)
            },
        }
    }

    /// Takes the reply of the token endpoint. Tokens are accepted if none of them is empty.
    pub fn tokens_received(self, reply: TokenReply) -> (next: Result<
        AwaitingContext,
        CallbackError,
    >)
        ensures
            next == self.after_reply(reply),
    {
        match reply {
            TokenReply::Failed(error) => Err(CallbackError::TokenEndpoint(error)),
            TokenReply::Malformed(reason) => Err(CallbackError::InvalidTokenResponse(reason)),
            TokenReply::Tokens(tokens) => {
                if tokens.id_token.as_str().is_empty() || tokens.access_token.as_str().is_empty()
                    || tokens.refresh_token.as_str().is_empty() {
                    Err(CallbackError::TokenExchangeFailed)
                } else {
                    Ok(AwaitingContext { codex_home: self.codex_home, port: self.port, tokens })
                }
            },
        }
    }
}

impl AwaitingContext {
    /// What follows once it is known what the tokens say of the account.
    pub open spec fn after_context(self, context: LoginContext) -> AwaitingStore {
        AwaitingStore {
            port: self.port,
            record: AuthRecord {
                codex_home: self.codex_home,
                api_key: None,
                id_token: self.tokens.id_token,
                access_token: self.tokens.access_token,
                refresh_token: self.tokens.refresh_token,
                account_id: context.account_id,
            },
            org_id: context.org_id,
            project_id: context.project_id,
            needs_setup: context.needs_setup,
            plan_type: context.plan_type,
        }
    }

    /// Takes what the tokens say of the account, and asks for the tokens to be stored without
    /// an API key.
    pub fn context_extracted(self, context: LoginContext) -> (next: AwaitingStore)
        ensures
            next == self.after_context(context),
            next.port == self.port,
            next.record.id_token == self.tokens.id_token,
            next.record.access_token == self.tokens.access_token,
            next.record.refresh_token == self.tokens.refresh_token,
            next.record.account_id == context.account_id,
            next.org_id == context.org_id,
            next.project_id == context.project_id,
            next.needs_setup == context.needs_setup,
            next.plan_type == context.plan_type,
    {
        AwaitingStore {
            port: self.port,
            record: AuthRecord {
                codex_home: self.codex_home,
                api_key: None,
                id_token: self.tokens.id_token,
                access_token: self.tokens.access_token,
                refresh_token: self.tokens.refresh_token,
                account_id: context.account_id,
            },
            org_id: context.org_id,
            project_id: context.project_id,
            needs_setup: context.needs_setup,
            plan_type: context.plan_type,
        }
    }
}

impl AwaitingStore {
    /// Whether this is what follows the result of storing the record.
    pub open spec fn after_store(
        self,
        stored: Result<(), std::io::Error>,
        next: Result<AwaitingUrl, CallbackError>,
    ) -> bool {
        match stored {
            Err(error) => next == Err::<AwaitingUrl, _>(CallbackError::AuthStore(error)),
            Ok(_) => {
                &&& next is Ok
                &&& next->Ok_0.request.base@ == url_base(self.port)
                &&& next->Ok_0.request.id_token == Some(self.record.id_token)
                &&& next->Ok_0.request.org_id == self.org_id
                &&& next->Ok_0.request.project_id == self.project_id
                &&& next->Ok_0.request.plan_type == self.plan_type
                &&& next->Ok_0.request.needs_setup == self.needs_setup
                &&& next->Ok_0.request.platform_url@ == PLATFORM_BASE@
                &&& next->Ok_0.api_key == self.record.api_key
            },
        }
    }

    /// Takes the result of storing the record.
    pub fn auth_stored(self, stored: Result<(), std::io::Error>) -> (next: Result<
        AwaitingUrl,
        CallbackError,
    >)
        ensures
            self.after_store(stored, next),
    {
        match stored {
            Err(error) => Err(CallbackError::AuthStore(error)),
            Ok(_) => Ok(
                AwaitingUrl {
                    request: SuccessUrlRequest {
                        base: default_url_base(self.port),
                        id_token: Some(self.record.id_token),
                        org_id: self.org_id,
                        project_id: self.project_id,
                        plan_type: self.plan_type,
                        needs_setup: self.needs_setup,
                        platform_url: PLATFORM_BASE.to_owned(),
                    },
                    api_key: self.record.api_key,
                },
            ),
        }
    }
}

impl AwaitingUrl {
    /// The outcome, given the URL of the success page or the reason why there is none.
    pub open spec fn after_url(self, built: Result<String, String>) -> Result<
        HeadlessOutcome,
        CallbackError,
    > {
        match built {
            Ok(success_url) => Ok(HeadlessOutcome { success_url, api_key: self.api_key }),
            Err(reason) => Err(CallbackError::SuccessUrl(reason)),
        }
    }

    /// Takes the URL of the success page, or the reason why there is none.
    pub fn url_built(self, built: Result<String, String>) -> (outcome: Result<
        HeadlessOutcome,
        CallbackError,
    >)
        ensures
            outcome == self.after_url(built),
    {
        match built {
            Ok(success_url) => Ok(HeadlessOutcome { success_url, api_key: self.api_key }),
            Err(reason) => Err(CallbackError::SuccessUrl(reason)),
        }
    }
}

} // verus!
