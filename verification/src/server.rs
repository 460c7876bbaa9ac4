//! The local web server that a browser comes back to at the end of a login.
use crate::authorize::{
    append_pairs, authorize_pairs, authorize_url, generate_state, with_pairs,
};
use crate::callback::{
    process_callback_headless, AwaitingTokens, CallbackError, ErrorKind, HeadlessOutcome, IoReport,
};
use crate::external::{
    encode_text, escaped_text, form_pairs, header_accepted, hex_text, parse_form, parse_url,
    url_parse, url_parts, url_str, UrlParts,
};
use crate::form_laws::{lemma_longer_url, lemma_web_address};
use crate::text::{
    decimal, decimal_text, first_index, followed_by, is_unbroken, looks_like_url, option_text,
    pair_texts, replace, replaced, same_text, split_once,
};
use vstd::pervasive::unreached;
use vstd::prelude::*;
use vstd::string::*;
use vstd::utf8::is_ascii_chars;

verus! {

/// The port that the server listens on unless told otherwise.
pub const DEFAULT_PORT: u16 = 1455;

/// The issuer that is asked for tokens unless told otherwise.
pub const DEFAULT_ISSUER: &'static str = "https://auth.openai.com";

/// How the server is to run.
#[derive(Debug, Clone)]
pub struct LoginServerOptions {
    pub codex_home: std::path::PathBuf,
    pub client_id: String,
    pub issuer: String,
    pub port: u16,
    pub open_browser: bool,
    pub expose_state_endpoint: bool,
    /// Stop after this many seconds, in end to end tests.
    pub testing_timeout_secs: Option<u64>,
}

/// The URL of the server itself.
pub open spec fn url_base(port: u16) -> Seq<char> {
    "http://localhost:"@ + decimal(port as nat)
}

/// The URL of the server itself.
pub fn default_url_base(port: u16) -> (base: String)
    ensures
        base@ == url_base(port),
{
    followed_by("http://localhost:", decimal_text(port as u64).as_str())
}

/// The URL that the browser comes back to.
pub open spec fn redirect_uri(port: u16) -> Seq<char> {
    url_base(port) + "/auth/callback"@
}

/// The pages that the server shows.
#[derive(Debug)]
pub struct LoginPages {
    /// Shown when the login is complete.
    pub success_html: String,
    /// Shown when it failed; `%%MESSAGE%%` stands for the reason.
    pub error_html: String,
}

/// The secret of a login and the challenge derived from it.
#[derive(Debug)]
pub struct PkceCodes {
    pub code_verifier: String,
    pub code_challenge: String,
}

/// A server that is to be bound to its port.
#[derive(Debug)]
pub struct LoginServer {
    pub opts: LoginServerOptions,
    pub pages: LoginPages,
    /// Whether the helpers for end to end tests are there.
    pub http_e2e_tests: bool,
}

/// A request that the server sends to itself so that a test does not hang.
#[derive(Debug)]
pub struct ExitRequest {
    pub after_secs: u64,
    pub url: String,
}

/// What to do when the server begins to run, in this order: print `starting_message`, open the
/// browser, print `navigate_message`, schedule the exit.
#[derive(Debug)]
pub struct Startup {
    pub starting_message: String,
    /// The URL to open a browser on, if one is to be opened.
    pub open_browser: Option<String>,
    pub navigate_message: String,
    pub auth_url: String,
    pub exit_request: Option<ExitRequest>,
}

/// Why the server did not begin to run, or did not run to its end.
#[derive(Debug)]
pub enum LoginServerError {
    /// It could not be bound to its address, for this reason.
    Bind(String),
    /// The issuer does not make a URL.
    AuthorizeUrl(url::ParseError),
    /// The authorization URL would grow beyond what the `url` crate can count.
    AuthorizeUrlTooLong,
    /// No more requests can be received, for this reason.
    Receive(String),
}

impl LoginServerError {
    /// The I/O error that stands for this error. A URL that is too long is a bug of the caller and
    /// has none.
    pub fn report(self) -> (report: IoReport)
        requires
            self !is AuthorizeUrlTooLong,
        ensures
            report matches IoReport::Made { kind, message } && kind == ErrorKind::Other
                && match self {
                LoginServerError::Bind(reason) => message@ == reason@,
                LoginServerError::AuthorizeUrl(error) => to_string_from_display_ensures::<
                    url::ParseError,
                >(&error, message),
                LoginServerError::AuthorizeUrlTooLong => false,
                LoginServerError::Receive(reason) => message@ == reason@,
            },
    {
        let message = match self {
            LoginServerError::Bind(reason) => reason,
            LoginServerError::AuthorizeUrl(error) => error.to_string(),
            LoginServerError::AuthorizeUrlTooLong => unreached(),
            LoginServerError::Receive(reason) => reason,
        };
        IoReport::Made { kind: ErrorKind::Other, message }
    }
}

/// A server that answers requests.
#[derive(Debug)]
pub struct RunningServer {
    pub opts: LoginServerOptions,
    pub pages: LoginPages,
    pub state: String,
    pub code_verifier: String,
    pub http_e2e_tests: bool,
}

/// The options of a login with the default issuer and port.
pub open spec fn default_options(
    opts: LoginServerOptions,
    codex_home: std::path::PathBuf,
    client_id: Seq<char>,
) -> bool {
    &&& opts.codex_home == codex_home
    &&& opts.client_id@ == client_id
    &&& opts.issuer@ == DEFAULT_ISSUER@
    &&& opts.port == DEFAULT_PORT
    &&& opts.open_browser
    &&& !opts.expose_state_endpoint
    &&& opts.testing_timeout_secs is None
}

/// A server with the default issuer and port.
pub fn run_local_login_server(
    codex_home: std::path::PathBuf,
    client_id: &str,
    pages: LoginPages,
) -> (server: LoginServer)
    ensures
        default_options(server.opts, codex_home, client_id@),
        server.pages == pages,
        !server.http_e2e_tests,
{
    let opts = LoginServerOptions {
        codex_home,
        client_id: client_id.to_owned(),
        issuer: DEFAULT_ISSUER.to_owned(),
        port: DEFAULT_PORT,
        open_browser: true,
        expose_state_endpoint: false,
        testing_timeout_secs: None,
    };
    run_local_login_server_with_options(opts, pages, false)
}

/// A server with the given options.
pub fn run_local_login_server_with_options(
    opts: LoginServerOptions,
    pages: LoginPages,
    http_e2e_tests: bool,
) -> (server: LoginServer)
    ensures
        server == (LoginServer { opts, pages, http_e2e_tests }),
{
    LoginServer { opts, pages, http_e2e_tests }
}

/// What is printed when the server begins to run.
pub open spec fn starting_message(port: u16) -> Seq<char> {
    "Starting local login server on "@ + url_base(port)
}

/// What is printed in case that no browser was opened.
pub open spec fn navigate_message(auth_url: Seq<char>) -> Seq<char> {
    ". If your browser did not open, navigate to this URL to authenticate: \n\n"@ + auth_url
}

/// The URL that makes the server stop.
pub open spec fn exit_url(port: u16) -> Seq<char> {
    "http://127.0.0.1:"@ + decimal(port as nat) + "/__test/exit"@
}

impl LoginServer {
    /// Whether two servers have the same options and pages.
    pub open spec fn same_as(self, other: LoginServer) -> bool {
        &&& self.opts.codex_home == other.opts.codex_home
        &&& self.opts.client_id@ == other.opts.client_id@
        &&& self.opts.issuer@ == other.opts.issuer@
        &&& self.opts.port == other.opts.port
        &&& self.opts.open_browser == other.opts.open_browser
        &&& self.opts.expose_state_endpoint == other.opts.expose_state_endpoint
        &&& self.opts.testing_timeout_secs == other.opts.testing_timeout_secs
        &&& self.pages == other.pages
        &&& self.http_e2e_tests == other.http_e2e_tests
    }

    /// The address to listen on.
    pub fn bind_address(&self) -> (address: (String, u16))
        ensures
            address.0@ == "127.0.0.1"@,
            address.1 == self.opts.port,
    {
        ("127.0.0.1".to_owned(), self.opts.port)
    }

    /// The port to report to whoever waits for it, once the server is bound to one.
    pub fn reported_port(&self, port: u16) -> (report: Option<u16>)
        ensures
            report == if self.http_e2e_tests {
                Some(port)
            } else {
                None
            },
    {
        if self.http_e2e_tests {
            Some(port)
        } else {
            None
        }
    }

    /// Whether `running` and `startup` are what the server becomes on a port.
    pub open spec fn runs(
        self,
        port: u16,
        pkce: PkceCodes,
        state: Seq<char>,
        running: RunningServer,
        startup: Startup,
    ) -> bool {
        let pairs = authorize_pairs(self.opts.client_id@, port, pkce.code_challenge@, state);
        &&& running.opts == (LoginServerOptions { port, ..self.opts })
        &&& running.pages == self.pages
        &&& running.state@ == state
        &&& running.code_verifier == pkce.code_verifier
        &&& running.http_e2e_tests == self.http_e2e_tests
        &&& authorize_url(self.opts.issuer@, pairs) matches Some(url) && url.text()
            == startup.auth_url@
        &&& looks_like_url(self.opts.issuer@) ==> looks_like_url(startup.auth_url@)
        &&& looks_like_url(startup.auth_url@) ==> is_unbroken(startup.auth_url@)
        &&& startup.starting_message@ == starting_message(port)
        &&& startup.navigate_message@ == navigate_message(startup.auth_url@)
        &&& match startup.open_browser {
            Some(url) => self.opts.open_browser && url@ == startup.auth_url@,
            None => !self.opts.open_browser,
        }
        &&& match startup.exit_request {
            Some(exit) => self.http_e2e_tests && self.opts.testing_timeout_secs == Some(
                exit.after_secs,
            ) && exit.url@ == exit_url(port),
            None => !(self.http_e2e_tests && self.opts.testing_timeout_secs is Some),
        }
    }

    /// Whether the server fails to begin with this error on a port.
    pub open spec fn fails(
        self,
        port: u16,
        pkce: PkceCodes,
        state: Seq<char>,
        error: LoginServerError,
    ) -> bool {
        let pairs = authorize_pairs(self.opts.client_id@, port, pkce.code_challenge@, state);
        match error {
            LoginServerError::Bind(_) => false,
            LoginServerError::Receive(_) => false,
            LoginServerError::AuthorizeUrl(reason) => url_parse(
                self.opts.issuer@ + "/oauth/authorize"@,
            ) == Err::<UrlParts, _>(reason),
            LoginServerError::AuthorizeUrlTooLong => match url_parse(
                self.opts.issuer@ + "/oauth/authorize"@,
            ) {
                Ok(url) => with_pairs(url, pairs) is None,
                Err(_) => false,
            },
        }
    }

    /// Begins to run on the port that the server was bound to, with the given state.
    pub fn bound_with_state(self, port: u16, pkce: PkceCodes, state: String) -> (begun: Result<
        (RunningServer, Startup),
        LoginServerError,
    >)
        ensures
            match begun {
                Ok((running, startup)) => self.runs(port, pkce, state@, running, startup),
                Err(error) => self.fails(port, pkce, state@, error),
            },
    {
        let base = default_url_base(port);
        let redirect = followed_by(base.as_str(), "/auth/callback");
        let mut auth_url = match parse_url(
            followed_by(self.opts.issuer.as_str(), "/oauth/authorize").as_str(),
        ) {
            Ok(url) => url,
            Err(error) => {
                return Err(LoginServerError::AuthorizeUrl(error));
            },
        };
        let ghost parsed = url_parts(auth_url);
        let mut pairs: Vec<(String, String)> = Vec::new();
        pairs.push(("response_type".to_owned(), "code".to_owned()));
        pairs.push(("client_id".to_owned(), self.opts.client_id.clone()));
        pairs.push(("redirect_uri".to_owned(), redirect));
        pairs.push(("scope".to_owned(), "openid profile email offline_access".to_owned()));
        pairs.push(("code_challenge".to_owned(), pkce.code_challenge.clone()));
        pairs.push(("code_challenge_method".to_owned(), "S256".to_owned()));
        pairs.push(("id_token_add_organizations".to_owned(), "true".to_owned()));
        pairs.push(("codex_cli_simplified_flow".to_owned(), "true".to_owned()));
        pairs.push(("state".to_owned(), state.clone()));
        assert(pair_texts(pairs@) =~= authorize_pairs(
            self.opts.client_id@,
            port,
            pkce.code_challenge@,
            state@,
        ));
        if !append_pairs(&mut auth_url, &pairs) {
            return Err(LoginServerError::AuthorizeUrlTooLong);
        }
        proof {
            lemma_longer_url(self.opts.issuer@, "/oauth/authorize"@);
            lemma_web_address(parsed, pair_texts(pairs@), url_parts(auth_url));
        }
        let auth_url = url_str(&auth_url).to_owned();
        let open_browser = if self.opts.open_browser {
            Some(auth_url.clone())
        } else {
            None
        };
        let origin = followed_by("http://127.0.0.1:", decimal_text(port as u64).as_str());
        let exit_request = match self.opts.testing_timeout_secs {
            Some(after_secs) if self.http_e2e_tests => Some(
                ExitRequest {
                    after_secs,
                    url: followed_by(origin.as_str(), "/__test/exit"),
                },
            ),
            _ => None,
        };
        let startup = Startup {
            starting_message: followed_by("Starting local login server on ", base.as_str()),
            open_browser,
            navigate_message: followed_by(
                ". If your browser did not open, navigate to this URL to authenticate: \n\n",
                auth_url.as_str(),
            ),
            auth_url,
            exit_request,
        };
        let running = RunningServer {
            opts: LoginServerOptions { port, ..self.opts },
            pages: self.pages,
            state,
            code_verifier: pkce.code_verifier,
            http_e2e_tests: self.http_e2e_tests,
        };
        Ok((running, startup))
    }

    /// Begins to run on the port that the server was bound to, with a state of its own.
    pub fn bound(self, port: u16, pkce: PkceCodes) -> (begun: Result<
        (RunningServer, Startup),
        LoginServerError,
    >)
        ensures
            match begun {
                Ok((running, startup)) => {
                    &&& self.runs(port, pkce, running.state@, running, startup)
                    &&& exists|bytes: Seq<u8>|
                        bytes.len() == 32 && running.state@ == hex_text(bytes)
                },
                Err(error) => exists|bytes: Seq<u8>|
                    bytes.len() == 32 && self.fails(port, pkce, #[trigger] hex_text(bytes), error),
            },
    {
        self.bound_with_state(port, pkce, generate_state())
    }
}

/// The method of a request.
#[derive(Debug, Clone, Copy, PartialEq, Eq, Structural)]
pub enum Method {
    Get,
    Other,
}

/// What a request asks for.
#[derive(Debug, Clone, Copy, PartialEq, Eq, Structural)]
pub enum Route {
    /// The page that ends a login.
    Success,
    /// An order to stop.
    Exit,
    /// The state of the login.
    State,
    /// The return of the browser from the issuer.
    Callback,
    Unknown,
}

/// An answer to a request. Without a body it is empty.
#[derive(Debug)]
pub struct HttpReply {
    pub status: u16,
    pub headers: Vec<(String, String)>,
    pub body: Option<String>,
}

/// The contents of an answer.
#[verifier::ext_equal]
pub struct HttpReplyView {
    pub status: u16,
    pub headers: Seq<(Seq<char>, Seq<char>)>,
    pub body: Option<Seq<char>>,
}

impl View for HttpReply {
    type V = HttpReplyView;

    open spec fn view(&self) -> HttpReplyView {
        HttpReplyView {
            status: self.status,
            headers: pair_texts(self.headers@),
            body: option_text(self.body),
        }
    }
}

/// What to do with a request.
#[derive(Debug)]
pub enum ServerStep {
    /// Answer it, and stop if `stop` is set.
    Respond { reply: HttpReply, stop: bool },
    /// Complete the login and answer with its outcome.
    Exchange(AwaitingTokens),
}

impl ServerStep {
    /// Whether the step is this answer, and whether the server stops with it.
    pub open spec fn responds(self, reply: HttpReplyView, stop: bool) -> bool {
        match self {
            ServerStep::Respond { reply: given, stop: stops } => given@ == reply && stops == stop,
            ServerStep::Exchange(_) => false,
        }
    }
}

/// The part of a request's target before its first `?`.
pub open spec fn path_part(target: Seq<char>) -> Seq<char> {
    target.take(first_index(target, '?'))
}

/// The part of a request's target after its first `?`; empty where there is none.
pub open spec fn query_part(target: Seq<char>) -> Seq<char> {
    let cut = first_index(target, '?');
    if cut < target.len() {
        target.skip(cut + 1)
    } else {
        seq![]
    }
}

/// The route of a request.
pub open spec fn route_of(method: Method, path: Seq<char>, state_exposed: bool) -> Route {
    if method != Method::Get {
        Route::Unknown
    } else if path == "/success"@ {
        Route::Success
    } else if path == "/__test/exit"@ {
        Route::Exit
    } else if path == "/__test/state"@ && state_exposed {
        Route::State
    } else if path == "/auth/callback"@ {
        Route::Callback
    } else {
        Route::Unknown
    }
}

/// The value of the last pair with this name.
pub open spec fn last_value(pairs: Seq<(Seq<char>, Seq<char>)>, name: Seq<char>) -> Option<
    Seq<char>,
>
    decreases pairs.len(),
{
    if pairs.len() == 0 {
        None
    } else if pairs.last().0 == name {
        Some(pairs.last().1)
    } else {
        last_value(pairs.drop_last(), name)
    }
}

/// An answer with a page.
pub open spec fn html_reply(status: u16, page: Seq<char>) -> HttpReplyView {
    HttpReplyView {
        status,
        headers: seq![("Content-Type"@, "text/html; charset=utf-8"@)],
        body: Some(page),
    }
}

/// An answer with a text and no header of its own.
pub open spec fn text_reply(status: u16, text: Seq<char>) -> HttpReplyView {
    HttpReplyView { status, headers: seq![], body: Some(text) }
}

/// An answer that sends the browser to a URL. A URL that is not ASCII cannot stand in a header
/// and is left out.
pub open spec fn redirect_reply(url: Seq<char>) -> HttpReplyView {
    HttpReplyView {
        status: 302,
        headers: if is_ascii_chars(url) {
            seq![("Location"@, url)]
        } else {
            seq![]
        },
        body: None,
    }
}

/// The page that shows why a login failed.
pub open spec fn error_page(template: Seq<char>, message: Seq<char>) -> Seq<char> {
    replaced(template, "%%MESSAGE%%"@, escaped_text(message))
}

/// Puts a message, escaped, in the place that the page has for it.
pub fn render_error_html(template: &str, message: &str) -> (page: String)
    ensures
        page@ == error_page(template@, message@),
{
    proof {
        reveal_strlit("%%MESSAGE%%");
    }
    replace(template, "%%MESSAGE%%", encode_text(message).as_str())
}

/// The headers with one more at the end, if it is one.
fn with_header(headers: Vec<(String, String)>, field: &str, value: &str) -> (all: Vec<
    (String, String),
>)
    ensures
        pair_texts(all@) == if is_ascii_chars(field@) && is_ascii_chars(value@) {
            pair_texts(headers@).push((field@, value@))
        } else {
            pair_texts(headers@)
        },
{
    let mut all = headers;
    if header_accepted(field, value) {
        all.push((field.to_owned(), value.to_owned()));
        assert(pair_texts(all@) =~= pair_texts(headers@).push((field@, value@)));
    }
    all
}

/// An answer with a text of this type.
fn reply_of_type(status: u16, content_type: &str, text: &str) -> (reply: HttpReply)
    requires
        is_ascii_chars(content_type@),
    ensures
        reply@ == (HttpReplyView {
            status,
            headers: seq![("Content-Type"@, content_type@)],
            body: Some(text@),
        }),
{
    proof {
        reveal_strlit("Content-Type");
    }
    let headers = with_header(Vec::new(), "Content-Type", content_type);
    assert(pair_texts(headers@) =~= seq![("Content-Type"@, content_type@)]);
    HttpReply { status, headers, body: Some(text.to_owned()) }
}

/// An answer with a page.
fn html(status: u16, page: &str) -> (reply: HttpReply)
    ensures
        reply@ == html_reply(status, page@),
{
    proof {
        reveal_strlit("text/html; charset=utf-8");
    }
    reply_of_type(status, "text/html; charset=utf-8", page)
}

/// An answer with a text and no header of its own.
fn plain(status: u16, text: &str) -> (reply: HttpReply)
    ensures
        reply@ == text_reply(status, text@),
{
    let reply = HttpReply { status, headers: Vec::new(), body: Some(text.to_owned()) };
    assert(reply@ =~= text_reply(status, text@));
    reply
}

/// Finds the last pair with this name.
fn find_last<'a>(pairs: &'a Vec<(String, String)>, name: &str) -> (value: Option<&'a str>)
    ensures
        match value {
            Some(text) => last_value(pair_texts(pairs@), name@) == Some(text@),
            None => last_value(pair_texts(pairs@), name@) is None,
        },
        value is None == (forall|i: int|
            0 <= i < pairs@.len() ==> (#[trigger] pairs@[i]).0@ != name@),
{
    let ghost all = pair_texts(pairs@);
    let mut i: usize = pairs.len();
    assert(all.take(i as int) == all);
    while i > 0
        invariant
            i <= pairs@.len(),
            all == pair_texts(pairs@),
            last_value(all.take(i as int), name@) == last_value(all, name@),
            forall|j: int| i <= j < pairs@.len() ==> (#[trigger] pairs@[j]).0@ != name@,
        decreases i,
    {
        assert(all.take(i as int).drop_last() == all.take(i - 1));
        if same_text(pairs[i - 1].0.as_str(), name) {
            return Some(pairs[i - 1].1.as_str());
        }
        i = i - 1;
    }
    None
}

impl RunningServer {
    /// Whether requests for the state are answered.
    pub open spec fn state_exposed(self) -> bool {
        self.http_e2e_tests && self.opts.expose_state_endpoint
    }

    /// The page that shows why a login failed.
    pub open spec fn error_reply(self, status: u16, message: Seq<char>) -> HttpReplyView {
        html_reply(status, error_page(self.pages.error_html@, message))
    }

    /// What the server does when the browser comes back with these parameters.
    pub open spec fn answers_callback(
        self,
        params: Seq<(Seq<char>, Seq<char>)>,
        step: ServerStep,
    ) -> bool {
        if last_value(params, "state"@) != Some(self.state@) {
            step.responds(self.error_reply(400, "State parameter mismatch"@), false)
        } else {
            match last_value(params, "code"@) {
                Some(code) if code.len() > 0 => step matches ServerStep::Exchange(login)
                    && login.trades(self.opts, code, self.code_verifier@),
                _ => step.responds(self.error_reply(400, "Missing authorization code"@), false),
            }
        }
    }

    /// What the server does with a request.
    pub open spec fn answers(self, method: Method, target: Seq<char>, step: ServerStep) -> bool {
        match route_of(method, path_part(target), self.state_exposed()) {
            Route::Success => step.responds(html_reply(200, self.pages.success_html@), true),
            Route::Exit => step.responds(text_reply(200, "bye"@), true),
            Route::State => step.responds(
                HttpReplyView {
                    status: 200,
                    headers: seq![("Content-Type"@, "text/plain"@)],
                    body: Some(self.state@),
                },
                false,
            ),
            Route::Callback => self.answers_callback(form_pairs(query_part(target)), step),
            Route::Unknown => step.responds(text_reply(404, "Endpoint not supported"@), false),
        }
    }

    /// Finds the route of a request.
    pub fn route(&self, method: Method, path: &str) -> (route: Route)
        ensures
            route == route_of(method, path@, self.state_exposed()),
    {
        if method != Method::Get {
            Route::Unknown
        } else if same_text(path, "/success") {
            Route::Success
        } else if same_text(path, "/__test/exit") {
            Route::Exit
        } else if same_text(path, "/__test/state") && self.http_e2e_tests
            && self.opts.expose_state_endpoint {
            Route::State
        } else if same_text(path, "/auth/callback") {
            Route::Callback
        } else {
            Route::Unknown
        }
    }

    fn failure(&self, status: u16, message: &str) -> (reply: HttpReply)
        ensures
            reply@ == self.error_reply(status, message@),
    {
        html(status, render_error_html(self.pages.error_html.as_str(), message).as_str())
    }

    /// Decides what to do when the browser comes back with these parameters.
    pub fn handle_callback(&self, params: &Vec<(String, String)>) -> (step: ServerStep)
        ensures
            self.answers_callback(pair_texts(params@), step),
    {
        let same_state = match find_last(params, "state") {
            Some(state) => same_text(state, self.state.as_str()),
            None => false,
        };
        if !same_state {
            return ServerStep::Respond {
                reply: self.failure(400, "State parameter mismatch"),
                stop: false,
            };
        }
        let code_opt = find_last(params, "code");
        let missing = match code_opt {
            Some(code) => code.is_empty(),
            None => true,
        };
        if missing {
            return ServerStep::Respond {
                reply: self.failure(400, "Missing authorization code"),
                stop: false,
            };
        }
        let state = self.state.as_str();
        match process_callback_headless(
            &self.opts,
            state,
            state,
            code_opt,
            self.code_verifier.as_str(),
        ) {
            Ok(login) => ServerStep::Exchange(login),
            Err(_) => ServerStep::Respond {
                reply: self.failure(500, "Token exchange failed"),
                stop: false,
            },
        }
    }

    /// Decides what to do with a request for this target.
    pub fn handle(&self, method: Method, target: &str) -> (step: ServerStep)
        ensures
            self.answers(method, target@, step),
    {
        let (path, query) = match split_once(target, '?') {
            Some((path, query)) => (path, query),
            None => (target.to_owned(), String::new()),
        };
        assert(path@ =~= path_part(target@));
        assert(query@ =~= query_part(target@));
        match self.route(method, path.as_str()) {
            Route::Success => ServerStep::Respond {
                reply: html(200, self.pages.success_html.as_str()),
                stop: true,
            },
            Route::Exit => ServerStep::Respond { reply: plain(200, "bye"), stop: true },
            Route::State => {
                proof {
                    reveal_strlit("text/plain");
                }
                ServerStep::Respond {
                    reply: reply_of_type(200, "text/plain", self.state.as_str()),
                    stop: false,
                }
            },
            Route::Callback => self.handle_callback(&parse_form(query.as_str())),
            Route::Unknown => ServerStep::Respond {
                reply: plain(404, "Endpoint not supported"),
                stop: false,
            },
        }
    }

    /// Decides what to do when a request has come in, or none can come in any more.
    pub fn received(&self, request: Result<(Method, String), String>) -> (step: Result<
        ServerStep,
        LoginServerError,
    >)
        ensures
            match request {
                Ok((method, target)) => step matches Ok(step) && self.answers(
                    method,
                    target@,
                    step,
                ),
                Err(reason) => step == Err::<ServerStep, _>(LoginServerError::Receive(reason)),
            },
    {
        match request {
            Ok((method, target)) => Ok(self.handle(method, target.as_str())),
            Err(reason) => Err(LoginServerError::Receive(reason)),
        }
    }

    /// Decides what to do once the exchange is over. The server goes on in either case.
    pub fn exchanged(&self, outcome: &Result<HeadlessOutcome, CallbackError>) -> (step: ServerStep)
        ensures
            step.responds(
                match *outcome {
                    Ok(done) => redirect_reply(done.success_url@),
                    Err(_) => self.error_reply(500, "Token exchange failed"@),
                },
                false,
            ),
    {
        let reply = match outcome {
            Ok(done) => {
                proof {
                    reveal_strlit("Location");
                }
                let headers = with_header(Vec::new(), "Location", done.success_url.as_str());
                let reply = HttpReply { status: 302, headers, body: None };
                assert(reply@ =~= redirect_reply(done.success_url@));
                reply
            },
            Err(_) => self.failure(500, "Token exchange failed"),
        };
        ServerStep::Respond { reply, stop: false }
    }
}

} // verus!
