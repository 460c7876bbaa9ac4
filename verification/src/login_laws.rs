//! What holds of a login as a whole.
use crate::authorize::{authorize_pairs, authorize_url, lemma_pairs_fit, pairs_room};
use crate::callback::{
    token_form, AwaitingContext, AwaitingStore, AwaitingTokens, AwaitingUrl, CallbackError,
    HeadlessOutcome, LoginContext, TokenExchange, TokenReply,
};
use crate::entrypoints::{chosen_client_id, last_url, lemma_lossy_lines, lossy_lines};
use crate::external::{
    escaped_char, escaped_text, form_component, form_pairs, form_segments, name_part,
    url_parse, value_part, UrlParts,
};
use crate::form_laws::{
    law_added_pairs_are_read_back, law_form_encoding_is_read_back, lemma_form_keeps,
    query_pairs,
};
use crate::server::{
    default_options, error_page, exit_url, html_reply, last_value, path_part, query_part,
    redirect_reply, redirect_uri, route_of, starting_message, text_reply, url_base, LoginPages,
    LoginServer, LoginServerError, LoginServerOptions, Method, PkceCodes, Route, RunningServer,
    ServerStep, Startup,
};
use crate::text::{
    byte_lines, decimal, is_unbroken, lemma_encode_concat, lemma_first_index_is,
    law_replacing_keeps_the_rest, law_replacing_replaces_occurrences, lemma_split_concat,
    lemma_split_one, looks_like_url, option_text, pair_texts, trimmed, white_space,
    without_return,
};
use vstd::prelude::*;
use vstd::utf8::{
    encode_utf8, encode_utf8_decode_utf8, encode_utf8_valid_utf8, is_ascii_chars,
    is_ascii_chars_encode_utf8,
};

verus! {

/// Lines that do not look like a URL make no difference to the last one that does.
proof fn lemma_last_url(lines: Seq<Seq<char>>, after: Seq<Seq<char>>)
    requires
        forall|i: int| 0 <= i < after.len() ==> !looks_like_url(trimmed(#[trigger] after[i])),
    ensures
        last_url(lines + after) == last_url(lines),
    decreases after.len(),
{
    if after.len() == 0 {
        assert(lines + after =~= lines);
    } else {
        let rest = after.drop_last();
        assert forall|i: int| 0 <= i < rest.len() implies !looks_like_url(
            trimmed(#[trigger] rest[i]),
        ) by {
            assert(rest[i] == after[i]);
        }
        lemma_last_url(lines, rest);
        assert((lines + after).drop_last() =~= lines + rest);
        assert((lines + after).last() == after[after.len() - 1]);
    }
}

/// A URL on a line of its own is found, whatever bytes were printed before it, and whatever is
/// printed after it as long as no line of that looks like a URL.
pub proof fn law_login_url_is_found(before: Seq<u8>, auth_url: Seq<char>, after: Seq<u8>)
    requires
        looks_like_url(auth_url),
        is_unbroken(auth_url),
        forall|i: int|
            0 <= i < lossy_lines(after).len() ==> !looks_like_url(
                trimmed(#[trigger] lossy_lines(after)[i]),
            ),
    ensures
        last_url(
            lossy_lines(before + encode_utf8("\n"@ + auth_url + "\n"@) + after),
        ) == Some(auth_url),
{
    reveal_strlit("\n");
    assert("\n"@ =~= seq!['\n']);
    let newline = seq![0x0au8];
    let line = encode_utf8(auth_url);
    assert(encode_utf8("\n"@) =~= newline) by {
        is_ascii_chars_encode_utf8("\n"@);
    }
    lemma_encode_concat("\n"@ + auth_url, "\n"@);
    lemma_encode_concat("\n"@, auth_url);
    let all = before + encode_utf8("\n"@ + auth_url + "\n"@) + after;
    assert(all =~= before.push(0x0a) + (line.push(0x0a) + after));
    lemma_split_concat(before, line.push(0x0a) + after, 0x0au8, 0x0du8);
    assert(byte_lines(all) == byte_lines(before.push(0x0a)) + byte_lines(line.push(0x0a) + after));

    assert forall|i: int| 0 <= i < auth_url.len() implies auth_url[i] != '\n' by {
        assert(!white_space(auth_url[i]));
    }
    assert(line.push(0x0a) =~= encode_utf8(auth_url + "\n"@)) by {
        lemma_encode_concat(auth_url, "\n"@);
    }
    assert(auth_url + "\n"@ =~= auth_url.push('\n'));
    lemma_lossy_lines(auth_url.push('\n'));
    lemma_split_one(auth_url, '\n', '\r');
    lemma_split_concat(line, after, 0x0au8, 0x0du8);

    reveal_strlit("http://");
    reveal_strlit("https://");
    assert(auth_url.len() > 0);
    assert(!white_space(auth_url.last()));
    assert(!white_space(auth_url[0]));
    assert(without_return(auth_url) == auth_url);
    assert(trimmed(auth_url) == auth_url);
    let found = lossy_lines(before.push(0x0a)) + seq![auth_url];
    assert(lossy_lines(all) =~= lossy_lines(before.push(0x0a)) + (lossy_lines(line.push(0x0a))
        + lossy_lines(after)));
    assert(lossy_lines(all) =~= found + lossy_lines(after));
    lemma_last_url(found, lossy_lines(after));
    assert(found.last() == auth_url);
}

/// A login as the command line runs it is the local login server for the chosen client.
pub proof fn law_login_is_the_local_server(
    login: LoginServer,
    local: LoginServer,
    codex_home: std::path::PathBuf,
    configured: Option<String>,
    default_client_id: Seq<char>,
    pages: LoginPages,
)
    requires
        default_options(login.opts, codex_home, chosen_client_id(configured, default_client_id)),
        login.pages == pages,
        !login.http_e2e_tests,
        default_options(local.opts, codex_home, chosen_client_id(configured, default_client_id)),
        local.pages == pages,
        !local.http_e2e_tests,
    ensures
        login.same_as(local),
{
}

/// Servers with the same options and pages begin to run in the same way and fail in the same way.
pub proof fn law_same_servers_begin_alike(
    first: LoginServer,
    second: LoginServer,
    port: u16,
    pkce: PkceCodes,
    state: Seq<char>,
    running: RunningServer,
    startup: Startup,
    error: LoginServerError,
)
    requires
        first.same_as(second),
    ensures
        first.runs(port, pkce, state, running, startup) ==> second.runs(
            port,
            pkce,
            state,
            RunningServer { opts: LoginServerOptions { port, ..second.opts }, ..running },
            startup,
        ),
        first.fails(port, pkce, state, error) == second.fails(port, pkce, state, error),
{
}

/// Whoever reads the query of the authorization URL finds the parameters of this login, behind
/// those that the issuer brings with it. Among them is the state that the server will ask the
/// browser for.
pub proof fn law_authorize_url_carries_login(
    server: LoginServer,
    port: u16,
    pkce: PkceCodes,
    state: Seq<char>,
    running: RunningServer,
    startup: Startup,
    base: UrlParts,
) -> (url: UrlParts)
    requires
        server.runs(port, pkce, state, running, startup),
        url_parse(server.opts.issuer@ + "/oauth/authorize"@) == Ok::<_, url::ParseError>(base),
    ensures
        url.text() == startup.auth_url@,
        url.base == base.base,
        url.fragment == base.fragment,
        query_pairs(url) == query_pairs(base) + authorize_pairs(
            server.opts.client_id@,
            port,
            pkce.code_challenge@,
            state,
        ),
        last_value(query_pairs(url), "state"@) == Some(running.state@),
{
    let pairs = authorize_pairs(server.opts.client_id@, port, pkce.code_challenge@, state);
    let url = authorize_url(server.opts.issuer@, pairs)->0;
    law_added_pairs_are_read_back(base, pairs, url);
    assert(query_pairs(url).last() == pairs.last());
    url
}

/// Whoever starts a login in a process of its own finds the authorization URL in what that
/// process prints, whether or not a browser is opened, given that the issuer or the URL made of it
/// is a web address. What was printed before makes no difference, nor does what is printed after
/// it as long as no line of that looks like a URL.
pub proof fn law_started_login_is_found(
    before: Seq<u8>,
    after: Seq<u8>,
    server: LoginServer,
    port: u16,
    pkce: PkceCodes,
    state: Seq<char>,
    running: RunningServer,
    startup: Startup,
)
    requires
        server.runs(port, pkce, state, running, startup),
        looks_like_url(server.opts.issuer@) || looks_like_url(startup.auth_url@),
        forall|i: int|
            0 <= i < lossy_lines(after).len() ==> !looks_like_url(
                trimmed(#[trigger] lossy_lines(after)[i]),
            ),
    ensures
        last_url(
            lossy_lines(
                before + encode_utf8(
                    startup.starting_message@ + "\n"@ + startup.navigate_message@ + "\n"@,
                ) + after,
            ),
        ) == Some(startup.auth_url@),
{
    let auth_url = startup.auth_url@;
    let message = ". If your browser did not open, navigate to this URL to authenticate: \n\n"@;
    reveal_strlit(". If your browser did not open, navigate to this URL to authenticate: \n\n");
    reveal_strlit("\n");
    let lead = starting_message(port) + "\n"@ + message.drop_last();
    let line = "\n"@ + auth_url + "\n"@;
    assert(message =~= message.drop_last() + "\n"@);
    let printed = startup.starting_message@ + "\n"@ + startup.navigate_message@ + "\n"@;
    assert(printed =~= lead + line);
    lemma_encode_concat(lead, line);
    law_login_url_is_found(before + encode_utf8(lead), auth_url, after);
    assert(before + encode_utf8(printed) + after =~= before + encode_utf8(lead) + encode_utf8(line)
        + after);
}

/// A login as the command line starts it, with the default issuer, prints a URL that is found.
pub proof fn law_default_login_is_found(
    before: Seq<u8>,
    server: LoginServer,
    codex_home: std::path::PathBuf,
    client_id: Seq<char>,
    port: u16,
    pkce: PkceCodes,
    state: Seq<char>,
    running: RunningServer,
    startup: Startup,
)
    requires
        default_options(server.opts, codex_home, client_id),
        server.runs(port, pkce, state, running, startup),
    ensures
        last_url(
            lossy_lines(
                before + encode_utf8(
                    startup.starting_message@ + "\n"@ + startup.navigate_message@ + "\n"@,
                ),
            ),
        ) == Some(startup.auth_url@),
        startup.open_browser matches Some(url) && url@ == startup.auth_url@,
{
    reveal_strlit("https://");
    reveal_strlit("https://auth.openai.com");
    assert("https://auth.openai.com"@.subrange(0, 8) =~= "https://"@);
    let after = Seq::<u8>::empty();
    assert(byte_lines(after) =~= seq![]);
    law_started_login_is_found(before, after, server, port, pkce, state, running, startup);
    let printed = encode_utf8(
        startup.starting_message@ + "\n"@ + startup.navigate_message@ + "\n"@,
    );
    assert(before + printed + after =~= before + printed);
}

/// The value of a pair whose name no later pair has is the last value of that name.
proof fn lemma_last_value(pairs: Seq<(Seq<char>, Seq<char>)>, at: int)
    requires
        0 <= at < pairs.len(),
        forall|i: int| at < i < pairs.len() ==> (#[trigger] pairs[i]).0 != pairs[at].0,
    ensures
        last_value(pairs, pairs[at].0) == Some(pairs[at].1),
    decreases pairs.len(),
{
    if at < pairs.len() - 1 {
        assert(pairs.last() == pairs[pairs.len() - 1]);
        lemma_last_value(pairs.drop_last(), at);
    }
}

/// A browser that comes back is recognized whatever else the server answers.
proof fn lemma_callback_route(state_exposed: bool)
    ensures
        route_of(Method::Get, "/auth/callback"@, state_exposed) == Route::Callback,
{
    reveal_strlit("/auth/callback");
    reveal_strlit("/success");
    reveal_strlit("/__test/exit");
    reveal_strlit("/__test/state");
    assert("/auth/callback"@[1] == 'a');
    assert("/success"@[1] == 's');
    assert("/__test/exit"@[1] == '_');
    assert("/__test/state"@[1] == '_');
}

/// The URI that the issuer is told to send the browser to is the one that is named when the
/// code is traded, and the server answers there.
pub proof fn law_redirect_uri_is_consistent(
    port: u16,
    client_id: Seq<char>,
    challenge: Seq<char>,
    state: Seq<char>,
    code: Seq<char>,
    verifier: Seq<char>,
)
    ensures
        last_value(authorize_pairs(client_id, port, challenge, state), "redirect_uri"@) == Some(
            redirect_uri(port),
        ),
        last_value(token_form(code, port, client_id, verifier), "redirect_uri"@) == Some(
            redirect_uri(port),
        ),
        redirect_uri(port) == url_base(port) + "/auth/callback"@,
        route_of(Method::Get, "/auth/callback"@, true) == Route::Callback,
        route_of(Method::Get, "/auth/callback"@, false) == Route::Callback,
{
    lemma_callback_route(true);
    lemma_callback_route(false);
    reveal_strlit("redirect_uri");
    reveal_strlit("scope");
    reveal_strlit("code_challenge");
    reveal_strlit("code_challenge_method");
    reveal_strlit("id_token_add_organizations");
    reveal_strlit("codex_cli_simplified_flow");
    reveal_strlit("state");
    reveal_strlit("client_id");
    reveal_strlit("code_verifier");
    let pairs = authorize_pairs(client_id, port, challenge, state);
    assert("redirect_uri"@.len() == 12);
    assert forall|i: int| 2 < i < pairs.len() implies (#[trigger] pairs[i]).0 != pairs[2].0 by {
        assert(pairs[i].0.len() != 12);
    }
    lemma_last_value(pairs, 2);
    let form = token_form(code, port, client_id, verifier);
    assert forall|i: int| 2 < i < form.len() implies (#[trigger] form[i]).0 != form[2].0 by {
        assert(form[i].0.len() != 12);
    }
    lemma_last_value(form, 2);
}

/// The target of the request that a browser makes when it comes back, with a code
/// and a state as they stand in a form.
pub open spec fn callback_target(code: Seq<char>, state: Seq<char>) -> Seq<char> {
    "/auth/callback?code="@ + code + "&state="@ + state
}

proof fn lemma_callback_pairs(code: Seq<char>, state: Seq<char>)
    requires
        forall|i: int| 0 <= i < code.len() ==> code[i] != '&',
        forall|i: int| 0 <= i < state.len() ==> state[i] != '&',
    ensures
        path_part(callback_target(code, state)) == "/auth/callback"@,
        form_pairs(query_part(callback_target(code, state))) == seq![
            ("code"@, form_component(code)),
            ("state"@, form_component(state)),
        ],
{
    reveal_strlit("/auth/callback?code=");
    reveal_strlit("/auth/callback");
    reveal_strlit("&state=");
    reveal_strlit("code");
    reveal_strlit("state");
    let target = callback_target(code, state);
    lemma_first_index_is(target, '?', 14);
    assert(path_part(target) =~= "/auth/callback"@);
    let first = "code"@ + seq!['='] + code;
    let second = "state"@ + seq!['='] + state;
    let query = first + seq!['&'] + second;
    assert(query_part(target) =~= query);
    assert forall|i: int| 0 <= i < first.len() implies first[i] != '&' by {
        if i >= 5 {
            assert(first[i] == code[i - 5]);
        }
    }
    assert forall|i: int| 0 <= i < second.len() implies second[i] != '&' by {
        if i >= 6 {
            assert(second[i] == state[i - 6]);
        }
    }
    lemma_first_index_is(query, '&', first.len() as int);
    lemma_first_index_is(second, '&', second.len() as int);
    assert(query.take(first.len() as int) =~= first);
    assert(query.skip((first.len() + 1) as int) =~= second);
    assert(form_segments(second) =~= seq![second]);
    assert(form_segments(query) =~= seq![first, second]);
    lemma_first_index_is(first, '=', 4);
    lemma_first_index_is(second, '=', 5);
    assert(name_part(first) =~= "code"@);
    assert(value_part(first) =~= code);
    assert(name_part(second) =~= "state"@);
    assert(value_part(second) =~= state);
    lemma_form_keeps("code"@);
    lemma_form_keeps("state"@);
    law_form_encoding_is_read_back("code"@);
    law_form_encoding_is_read_back("state"@);
    assert(form_pairs(query) =~= seq![
        ("code"@, form_component(code)),
        ("state"@, form_component(state)),
    ]);
}

/// A browser that comes back with the state of this login and a code is let in, and its code is
/// traded for tokens.
pub proof fn law_callback_is_accepted(
    server: RunningServer,
    code: Seq<char>,
    state: Seq<char>,
    step: ServerStep,
)
    requires
        server.answers(Method::Get, callback_target(code, state), step),
        forall|i: int| 0 <= i < code.len() ==> code[i] != '&',
        forall|i: int| 0 <= i < state.len() ==> state[i] != '&',
        form_component(state) == server.state@,
        form_component(code).len() > 0,
    ensures
        step matches ServerStep::Exchange(login) && login.trades(
            server.opts,
            form_component(code),
            server.code_verifier@,
        ),
{
    lemma_callback_pairs(code, state);
    lemma_callback_route(server.state_exposed());
    reveal_strlit("code");
    reveal_strlit("state");
    let pairs = seq![("code"@, form_component(code)), ("state"@, form_component(state))];
    assert("code"@.len() != "state"@.len());
    lemma_last_value(pairs, 0);
    lemma_last_value(pairs, 1);
}

/// Tokens are asked for only when the browser comes back with the state of this login and with
/// a code, and it is that code which is traded.
pub proof fn law_exchange_needs_state_and_code(
    server: RunningServer,
    method: Method,
    target: Seq<char>,
    login: AwaitingTokens,
)
    requires
        server.answers(method, target, ServerStep::Exchange(login)),
    ensures
        method == Method::Get,
        path_part(target) == "/auth/callback"@,
        last_value(form_pairs(query_part(target)), "state"@) == Some(server.state@),
        last_value(form_pairs(query_part(target)), "code"@) matches Some(code) && code.len() > 0
            && login.trades(server.opts, code, server.code_verifier@),
{
}

/// A browser that comes back with another state, or with none, is shown an error.
pub proof fn law_other_state_is_refused(server: RunningServer, target: Seq<char>, step: ServerStep)
    requires
        server.answers(Method::Get, target, step),
        path_part(target) == "/auth/callback"@,
        last_value(form_pairs(query_part(target)), "state"@) != Some(server.state@),
    ensures
        step.responds(
            html_reply(
                400,
                error_page(server.pages.error_html@, "State parameter mismatch"@),
            ),
            false,
        ),
{
    lemma_callback_route(server.state_exposed());
}

/// A browser that comes back with the state of this login but without a code is shown an error.
pub proof fn law_missing_code_is_refused(server: RunningServer, target: Seq<char>, step: ServerStep)
    requires
        server.answers(Method::Get, target, step),
        path_part(target) == "/auth/callback"@,
        last_value(form_pairs(query_part(target)), "state"@) == Some(server.state@),
        last_value(form_pairs(query_part(target)), "code"@) matches Some(code) ==> code.len() == 0,
    ensures
        step.responds(
            html_reply(
                400,
                error_page(server.pages.error_html@, "Missing authorization code"@),
            ),
            false,
        ),
{
    lemma_callback_route(server.state_exposed());
}

/// The server stops only when it is asked for the success page or told to exit.
pub proof fn law_server_stops_only_when_asked(
    server: RunningServer,
    method: Method,
    target: Seq<char>,
    step: ServerStep,
)
    requires
        server.answers(method, target, step),
        step matches ServerStep::Respond { stop, .. } && stop,
    ensures
        method == Method::Get,
        path_part(target) == "/success"@ || path_part(target) == "/__test/exit"@,
{
}

/// The request that is scheduled for end to end tests makes the server stop.
pub proof fn law_exit_request_stops_server(
    server: RunningServer,
    port: u16,
    target: Seq<char>,
    step: ServerStep,
)
    requires
        exit_url(port) == "http://127.0.0.1:"@ + decimal(port as nat) + target,
        server.answers(Method::Get, target, step),
    ensures
        step.responds(text_reply(200, "bye"@), true),
{
    reveal_strlit("/__test/exit");
    reveal_strlit("/success");
    let origin = "http://127.0.0.1:"@ + decimal(port as nat);
    assert(target =~= exit_url(port).skip(origin.len() as int));
    assert(target =~= "/__test/exit"@);
    lemma_first_index_is(target, '?', target.len() as int);
    assert(path_part(target) =~= target);
}

/// An escaped text holds no character that begins or ends a tag.
pub proof fn law_escaped_text_has_no_markup(text: Seq<char>)
    ensures
        forall|i: int|
            0 <= i < escaped_text(text).len() ==> escaped_text(text)[i] != '<' && escaped_text(
                text,
            )[i] != '>',
    decreases text.len(),
{
    if text.len() > 0 {
        law_escaped_text_has_no_markup(text.drop_last());
        reveal_strlit("&amp;");
        reveal_strlit("&lt;");
        reveal_strlit("&gt;");
        let head = escaped_text(text.drop_last());
        let tail = escaped_char(text.last());
        let all = escaped_text(text);
        assert(forall|i: int| 0 <= i < tail.len() ==> tail[i] != '<' && tail[i] != '>');
        assert forall|i: int| 0 <= i < all.len() implies all[i] != '<' && all[i] != '>' by {
            if i < head.len() {
                assert(all[i] == head[i]);
            } else {
                assert(all[i] == tail[i - head.len()]);
            }
        }
    }
}

/// What is stored are the tokens that came back, none of them empty and without an API key, in
/// the directory of this login; the outcome then holds the URL that was built and no API key.
pub proof fn law_received_tokens_are_stored(
    login: AwaitingTokens,
    reply: TokenReply,
    received: AwaitingContext,
    context: LoginContext,
    stored: AwaitingUrl,
    success_url: String,
)
    requires
        login.after_reply(reply) == Ok::<_, CallbackError>(received),
        received.after_context(context).after_store(Ok(()), Ok(stored)),
    ensures
        ({
            let record = received.after_context(context).record;
            &&& reply matches TokenReply::Tokens(tokens) && tokens.complete() && record.id_token
                == tokens.id_token && record.access_token == tokens.access_token
                && record.refresh_token == tokens.refresh_token
            &&& record.codex_home == login.codex_home
            &&& record.api_key is None
            &&& record.account_id == context.account_id
        }),
        stored.request.base@ == url_base(login.port),
        stored.after_url(Ok(success_url)) == Ok::<_, CallbackError>(
            HeadlessOutcome { success_url, api_key: None },
        ),
{
}

/// A parameter has the value of the last pair that is named after it.
pub proof fn law_last_pair_gives_the_value(
    before: Seq<(Seq<char>, Seq<char>)>,
    name: Seq<char>,
    value: Seq<char>,
    after: Seq<(Seq<char>, Seq<char>)>,
)
    requires
        forall|i: int| 0 <= i < after.len() ==> (#[trigger] after[i]).0 != name,
    ensures
        last_value(before.push((name, value)) + after, name) == Some(value),
{
    let pairs = before.push((name, value)) + after;
    let at = before.len() as int;
    assert(pairs[at] == (name, value));
    assert forall|i: int| at < i < pairs.len() implies (#[trigger] pairs[i]).0 != pairs[at].0 by {
        assert(pairs[i] == after[i - at - 1]);
    }
    lemma_last_value(pairs, at);
}

/// A parameter that no pair is named after has no value.
pub proof fn law_unnamed_parameter_has_no_value(
    pairs: Seq<(Seq<char>, Seq<char>)>,
    name: Seq<char>,
)
    requires
        forall|i: int| 0 <= i < pairs.len() ==> (#[trigger] pairs[i]).0 != name,
    ensures
        last_value(pairs, name) is None,
    decreases pairs.len(),
{
    if pairs.len() > 0 {
        let rest = pairs.drop_last();
        assert(pairs.last() == pairs[pairs.len() - 1]);
        assert forall|i: int| 0 <= i < rest.len() implies (#[trigger] rest[i]).0 != name by {
            assert(rest[i] == pairs[i]);
        }
        law_unnamed_parameter_has_no_value(rest, name);
    }
}

/// Whether a step answers with a page of this status, and the server goes on.
pub open spec fn shows_page(step: ServerStep, status: u16, page: Seq<char>) -> bool {
    step matches ServerStep::Respond { reply, stop } && !stop && reply.status == status
        && reply.headers@.len() == 1 && reply.headers@[0].0@ == "Content-Type"@
        && reply.headers@[0].1@ == "text/html; charset=utf-8"@
        && reply.body is Some && reply.body->0@ == page
}

proof fn lemma_callback_target(query: Seq<char>)
    ensures
        path_part("/auth/callback"@) == "/auth/callback"@,
        query_part("/auth/callback"@) == Seq::<char>::empty(),
        path_part("/auth/callback?"@ + query) == "/auth/callback"@,
        query_part("/auth/callback?"@ + query) == query,
{
    reveal_strlit("/auth/callback");
    reveal_strlit("/auth/callback?");
    lemma_first_index_is("/auth/callback"@, '?', 14);
    let target = "/auth/callback?"@ + query;
    lemma_first_index_is(target, '?', 14);
    assert(path_part("/auth/callback"@) =~= "/auth/callback"@);
    assert(path_part(target) =~= "/auth/callback"@);
    assert(query_part(target) =~= query);
}

proof fn lemma_page(server: RunningServer, step: ServerStep, status: u16, message: Seq<char>)
    requires
        step.responds(server.error_reply(status, message), false),
    ensures
        shows_page(step, status, error_page(server.pages.error_html@, message)),
{
    let reply = step->reply;
    assert(reply@.headers.len() == 1);
    assert(reply@.headers[0] == ("Content-Type"@, "text/html; charset=utf-8"@));
    assert(reply@.headers[0] == (reply.headers@[0].0@, reply.headers@[0].1@));
}

/// A browser that comes back with no pair named `state`, or with another state in the last such
/// pair, is shown an error and nothing else happens.
pub proof fn law_callback_needs_the_state(
    server: RunningServer,
    query: Seq<char>,
    at: int,
    step: ServerStep,
)
    requires
        server.answers(Method::Get, "/auth/callback?"@ + query, step),
        forall|i: int|
            at < i < form_pairs(query).len() ==> (#[trigger] form_pairs(query)[i]).0 != "state"@,
        at == -1 || 0 <= at < form_pairs(query).len() && form_pairs(query)[at].0 == "state"@
            && form_pairs(query)[at].1 != server.state@,
    ensures
        shows_page(
            step,
            400,
            error_page(server.pages.error_html@, "State parameter mismatch"@),
        ),
{
    let pairs = form_pairs(query);
    lemma_callback_target(query);
    lemma_callback_route(server.state_exposed());
    if at == -1 {
        law_unnamed_parameter_has_no_value(pairs, "state"@);
    } else {
        lemma_last_value(pairs, at);
    }
    lemma_page(server, step, 400, "State parameter mismatch"@);
}

/// A browser that comes back with the state of this login in the last pair named `state`, but
/// with no pair named `code`, or an empty code in the last such pair, is shown an error and
/// nothing else happens.
pub proof fn law_callback_needs_a_code(
    server: RunningServer,
    query: Seq<char>,
    state_at: int,
    code_at: int,
    step: ServerStep,
)
    requires
        server.answers(Method::Get, "/auth/callback?"@ + query, step),
        0 <= state_at < form_pairs(query).len(),
        form_pairs(query)[state_at] == ("state"@, server.state@),
        forall|i: int|
            state_at < i < form_pairs(query).len() ==> (#[trigger] form_pairs(query)[i]).0
                != "state"@,
        forall|i: int|
            code_at < i < form_pairs(query).len() ==> (#[trigger] form_pairs(query)[i]).0
                != "code"@,
        code_at == -1 || 0 <= code_at < form_pairs(query).len() && form_pairs(query)[code_at].0
            == "code"@ && form_pairs(query)[code_at].1.len() == 0,
    ensures
        shows_page(
            step,
            400,
            error_page(server.pages.error_html@, "Missing authorization code"@),
        ),
{
    let pairs = form_pairs(query);
    lemma_callback_target(query);
    lemma_callback_route(server.state_exposed());
    lemma_last_value(pairs, state_at);
    if code_at == -1 {
        law_unnamed_parameter_has_no_value(pairs, "code"@);
    } else {
        lemma_last_value(pairs, code_at);
    }
    lemma_page(server, step, 400, "Missing authorization code"@);
}

/// A browser that comes back without a query is shown an error and nothing else happens.
pub proof fn law_callback_needs_a_query(server: RunningServer, step: ServerStep)
    requires
        server.answers(Method::Get, "/auth/callback"@, step),
    ensures
        shows_page(
            step,
            400,
            error_page(server.pages.error_html@, "State parameter mismatch"@),
        ),
{
    lemma_callback_target(seq![]);
    lemma_callback_route(server.state_exposed());
    assert(form_pairs(seq![]) =~= seq![]);
    law_unnamed_parameter_has_no_value(form_pairs(seq![]), "state"@);
    lemma_page(server, step, 400, "State parameter mismatch"@);
}

/// Whether this is the request that trades a code: a form with these five fields for the token
/// endpoint of the issuer, and nothing else.
pub open spec fn asks_for_tokens(
    login: AwaitingTokens,
    opts: LoginServerOptions,
    code: Seq<char>,
    code_verifier: Seq<char>,
) -> bool {
    let form = login.request.form@;
    &&& login.codex_home == opts.codex_home
    &&& login.port == opts.port
    &&& login.request.url@ == opts.issuer@ + "/oauth/token"@
    &&& form.len() == 5
    &&& form[0].0@ == "grant_type"@ && form[0].1@ == "authorization_code"@
    &&& form[1].0@ == "code"@ && form[1].1@ == code
    &&& form[2].0@ == "redirect_uri"@ && form[2].1@ == "http://localhost:"@ + decimal(
        opts.port as nat,
    ) + "/auth/callback"@
    &&& form[3].0@ == "client_id"@ && form[3].1@ == opts.client_id@
    &&& form[4].0@ == "code_verifier"@ && form[4].1@ == code_verifier
}

/// The request that trades a code holds the code, the client, the verifier of this login and the
/// URI that the browser came back to.
pub proof fn law_trade_names_its_parts(
    login: AwaitingTokens,
    opts: LoginServerOptions,
    code: Seq<char>,
    code_verifier: Seq<char>,
)
    requires
        login.trades(opts, code, code_verifier),
    ensures
        asks_for_tokens(login, opts, code, code_verifier),
{
    let form = login.request.form@;
    let pairs = pair_texts(form);
    assert(pairs.len() == 5 && form.len() == 5);
    assert(forall|i: int|
        0 <= i < 5 ==> #[trigger] pairs[i] == ((#[trigger] form[i]).0@, form[i].1@));
    assert("http://localhost:"@ + decimal(opts.port as nat) + "/auth/callback"@ =~= redirect_uri(
        opts.port,
    ));
}

/// A browser that comes back with the state of this login in the last pair named `state` and a
/// code in the last pair named `code` is let in: its code is traded under the options of this
/// server.
pub proof fn law_callback_trades_the_code(
    server: RunningServer,
    query: Seq<char>,
    state_at: int,
    code_at: int,
    step: ServerStep,
)
    requires
        server.answers(Method::Get, "/auth/callback?"@ + query, step),
        0 <= state_at < form_pairs(query).len(),
        form_pairs(query)[state_at] == ("state"@, server.state@),
        forall|i: int|
            state_at < i < form_pairs(query).len() ==> (#[trigger] form_pairs(query)[i]).0
                != "state"@,
        0 <= code_at < form_pairs(query).len(),
        form_pairs(query)[code_at].0 == "code"@,
        form_pairs(query)[code_at].1.len() > 0,
        forall|i: int|
            code_at < i < form_pairs(query).len() ==> (#[trigger] form_pairs(query)[i]).0
                != "code"@,
    ensures
        step matches ServerStep::Exchange(login) && asks_for_tokens(
            login,
            server.opts,
            form_pairs(query)[code_at].1,
            server.code_verifier@,
        ),
{
    let pairs = form_pairs(query);
    lemma_callback_target(query);
    lemma_callback_route(server.state_exposed());
    lemma_last_value(pairs, state_at);
    lemma_last_value(pairs, code_at);
    law_trade_names_its_parts(
        step->Exchange_0,
        server.opts,
        pairs[code_at].1,
        server.code_verifier@,
    );
}

/// A target with a path in front of its query, if it has one.
pub open spec fn target_of(path: Seq<char>, query: Option<Seq<char>>) -> Seq<char> {
    match query {
        Some(query) => path + seq!['?'] + query,
        None => path,
    }
}

proof fn lemma_target(path: Seq<char>, query: Option<Seq<char>>)
    requires
        forall|i: int| 0 <= i < path.len() ==> path[i] != '?',
    ensures
        path_part(target_of(path, query)) == path,
{
    let target = target_of(path, query);
    assert forall|i: int| 0 <= i < path.len() implies target[i] != '?' by {
        assert(target[i] == path[i]);
    }
    lemma_first_index_is(target, '?', path.len() as int);
    assert(path_part(target) =~= path);
}

/// Whatever the query, the success page is shown at `/success` and the server then stops.
pub proof fn law_success_page_ends_the_login(
    server: RunningServer,
    query: Option<Seq<char>>,
    step: ServerStep,
)
    requires
        server.answers(Method::Get, target_of("/success"@, query), step),
    ensures
        step matches ServerStep::Respond { reply, stop } && stop && reply.status == 200
            && reply.headers@.len() == 1 && reply.headers@[0].0@ == "Content-Type"@
            && reply.headers@[0].1@ == "text/html; charset=utf-8"@
            && reply.body is Some && reply.body->0@ == server.pages.success_html@,
{
    reveal_strlit("/success");
    lemma_target("/success"@, query);
    let reply = step->reply;
    assert(reply@.headers.len() == 1);
    assert(reply@.headers[0] == (reply.headers@[0].0@, reply.headers@[0].1@));
}

/// Whatever the query, the server says goodbye at `/__test/exit` and stops.
pub proof fn law_exit_ends_the_server(
    server: RunningServer,
    query: Option<Seq<char>>,
    step: ServerStep,
)
    requires
        server.answers(Method::Get, target_of("/__test/exit"@, query), step),
    ensures
        step matches ServerStep::Respond { reply, stop } && stop && reply.status == 200
            && reply.headers@.len() == 0 && reply.body is Some && reply.body->0@ == "bye"@,
{
    reveal_strlit("/__test/exit");
    reveal_strlit("/success");
    lemma_target("/__test/exit"@, query);
    assert("/__test/exit"@[1] == '_');
    assert("/success"@[1] == 's');
    assert(step->reply@.headers.len() == 0);
}

/// Whatever the query, the state is told at `/__test/state`, in end to end tests that ask for it.
pub proof fn law_state_is_told_to_tests(
    server: RunningServer,
    query: Option<Seq<char>>,
    step: ServerStep,
)
    requires
        server.answers(Method::Get, target_of("/__test/state"@, query), step),
        server.http_e2e_tests,
        server.opts.expose_state_endpoint,
    ensures
        step matches ServerStep::Respond { reply, stop } && !stop && reply.status == 200
            && reply.headers@.len() == 1 && reply.headers@[0].0@ == "Content-Type"@
            && reply.headers@[0].1@ == "text/plain"@
            && reply.body is Some && reply.body->0@ == server.state@,
{
    reveal_strlit("/__test/state");
    reveal_strlit("/__test/exit");
    reveal_strlit("/success");
    lemma_target("/__test/state"@, query);
    assert("/__test/state"@[8] == 's');
    assert("/__test/exit"@[8] == 'e');
    assert("/__test/state"@[1] == '_');
    assert("/success"@[1] == 's');
    let reply = step->reply;
    assert(reply@.headers.len() == 1);
    assert(reply@.headers[0] == (reply.headers@[0].0@, reply.headers@[0].1@));
}

/// Anything else is not there: another method, another path, or the state where it is not to be
/// told.
pub proof fn law_other_requests_are_not_supported(
    server: RunningServer,
    method: Method,
    path: Seq<char>,
    query: Option<Seq<char>>,
    step: ServerStep,
)
    requires
        server.answers(method, target_of(path, query), step),
        forall|i: int| 0 <= i < path.len() ==> path[i] != '?',
        method == Method::Get ==> path != "/success"@ && path != "/__test/exit"@ && path
            != "/auth/callback"@ && (path == "/__test/state"@ ==> !server.http_e2e_tests
            || !server.opts.expose_state_endpoint),
    ensures
        step matches ServerStep::Respond { reply, stop } && !stop && reply.status == 404
            && reply.headers@.len() == 0
            && reply.body is Some && reply.body->0@ == "Endpoint not supported"@,
{
    lemma_target(path, query);
    assert(step->reply@.headers.len() == 0);
}

/// The page of a failed login is the template with the message, escaped, in the place of each
/// mark, and is otherwise unchanged: up to the first mark here, and likewise behind it.
pub proof fn law_error_page_shows_the_message(
    before: Seq<char>,
    after: Seq<char>,
    message: Seq<char>,
)
    requires
        forall|i: int|
            0 <= i < before.len() ==> !"%%MESSAGE%%"@.is_prefix_of(
                #[trigger] (before + "%%MESSAGE%%"@ + after).skip(i),
            ),
    ensures
        error_page(before + "%%MESSAGE%%"@ + after, message) == before + escaped_text(message)
            + error_page(after, message),
        (forall|i: int|
            0 <= i < after.len() ==> !"%%MESSAGE%%"@.is_prefix_of(#[trigger] after.skip(i)))
            ==> error_page(after, message) == after,
{
    reveal_strlit("%%MESSAGE%%");
    law_replacing_replaces_occurrences(before, "%%MESSAGE%%"@, after, escaped_text(message));
    if forall|i: int|
        0 <= i < after.len() ==> !"%%MESSAGE%%"@.is_prefix_of(#[trigger] after.skip(i)) {
        law_replacing_keeps_the_rest(after, "%%MESSAGE%%"@, escaped_text(message));
    }
}

/// Escaping goes character by character: `&`, `<` and `>` are replaced, all others stay.
pub proof fn law_escaping_goes_by_characters(first: Seq<char>, second: Seq<char>, c: char)
    ensures
        escaped_text(first + second) == escaped_text(first) + escaped_text(second),
        escaped_text(seq![]) == Seq::<char>::empty(),
        escaped_text(seq!['&']) == "&amp;"@,
        escaped_text(seq!['<']) == "&lt;"@,
        escaped_text(seq!['>']) == "&gt;"@,
        c != '&' && c != '<' && c != '>' ==> escaped_text(seq![c]) == seq![c],
    decreases second.len(),
{
    reveal_with_fuel(escaped_text, 2);
    assert(seq!['&'].drop_last() =~= seq![]);
    assert(seq!['<'].drop_last() =~= seq![]);
    assert(seq!['>'].drop_last() =~= seq![]);
    assert(seq![c].drop_last() =~= seq![]);
    assert(escaped_text(seq!['&']) =~= "&amp;"@);
    assert(escaped_text(seq!['<']) =~= "&lt;"@);
    assert(escaped_text(seq!['>']) =~= "&gt;"@);
    assert(escaped_text(seq![c]) =~= escaped_char(c));
    if second.len() == 0 {
        assert(first + second =~= first);
        assert(escaped_text(first + second) =~= escaped_text(first) + escaped_text(second));
    } else {
        law_escaping_goes_by_characters(first, second.drop_last(), c);
        assert((first + second).drop_last() =~= first + second.drop_last());
        assert((first + second).last() == second.last());
        assert(escaped_text(first + second) =~= escaped_text(first) + escaped_text(second));
    }
}

/// A browser whose login is complete is sent to the URL of the success page, if that is ASCII;
/// the server goes on.
pub proof fn law_redirect_names_the_url(url: Seq<char>, step: ServerStep)
    requires
        step.responds(redirect_reply(url), false),
    ensures
        step matches ServerStep::Respond { reply, stop } && !stop && reply.status == 302
            && reply.body is None && (if forall|i: int|
            0 <= i < url.len() ==> '\0' <= #[trigger] url[i] <= '\u{7f}' {
            reply.headers@.len() == 1 && reply.headers@[0].0@ == "Location"@
                && reply.headers@[0].1@ == url
        } else {
            reply.headers@.len() == 0
        }),
{
    let reply = step->reply;
    if is_ascii_chars(url) {
        assert(reply@.headers.len() == 1);
        assert(reply@.headers[0] == (reply.headers@[0].0@, reply.headers@[0].1@));
    } else {
        assert(reply@.headers.len() == 0);
    }
}

/// A browser whose login failed is shown an error page, and the server goes on.
pub proof fn law_failed_login_is_shown(server: RunningServer, step: ServerStep)
    requires
        step.responds(server.error_reply(500, "Token exchange failed"@), false),
    ensures
        shows_page(step, 500, error_page(server.pages.error_html@, "Token exchange failed"@)),
{
    lemma_page(server, step, 500, "Token exchange failed"@);
}

/// Tokens are accepted if none of them is empty, and then all three are kept as they came, with
/// the directory and the port of the login.
pub proof fn law_complete_tokens_are_accepted(login: AwaitingTokens, tokens: TokenExchange)
    ensures
        tokens.id_token@.len() > 0 && tokens.access_token@.len() > 0 && tokens.refresh_token@.len()
            > 0 ==> (login.after_reply(TokenReply::Tokens(tokens)) matches Ok(next) && next.tokens
            == tokens && next.codex_home == login.codex_home && next.port == login.port),
        tokens.id_token@.len() == 0 || tokens.access_token@.len() == 0
            || tokens.refresh_token@.len() == 0 ==> login.after_reply(TokenReply::Tokens(tokens))
            == Err::<AwaitingContext, _>(CallbackError::TokenExchangeFailed),
{
}

/// A reply that brings no tokens ends the login with the error that came.
pub proof fn law_other_replies_are_errors(
    login: AwaitingTokens,
    error: std::io::Error,
    reason: String,
)
    ensures
        login.after_reply(TokenReply::Failed(error)) == Err::<AwaitingContext, _>(
            CallbackError::TokenEndpoint(error),
        ),
        login.after_reply(TokenReply::Malformed(reason)) == Err::<AwaitingContext, _>(
            CallbackError::InvalidTokenResponse(reason),
        ),
{
}

/// The success URL is made of what the tokens say of the account, of the identity token itself
/// and of the address of this server.
pub proof fn law_success_url_is_made_of_the_context(
    received: AwaitingContext,
    context: LoginContext,
    stored: AwaitingUrl,
)
    requires
        received.after_context(context).after_store(Ok(()), Ok(stored)),
    ensures
        stored.request.id_token == Some(received.tokens.id_token),
        stored.request.org_id == context.org_id,
        stored.request.project_id == context.project_id,
        stored.request.plan_type == context.plan_type,
        stored.request.needs_setup == context.needs_setup,
        stored.request.base@ == "http://localhost:"@ + decimal(received.port as nat),
        stored.request.platform_url@ == "https://platform.openai.com"@,
        stored.api_key is None,
{
}

/// What is stored are the three tokens and the account, in the directory of the login and
/// without an API key.
pub proof fn law_record_holds_the_tokens(received: AwaitingContext, context: LoginContext)
    ensures
        ({
            let record = received.after_context(context).record;
            &&& record.codex_home == received.codex_home
            &&& record.api_key is None
            &&& record.id_token == received.tokens.id_token
            &&& record.access_token == received.tokens.access_token
            &&& record.refresh_token == received.tokens.refresh_token
            &&& record.account_id == context.account_id
        }),
{
}

/// A login goes on only if its record was stored; else it ends with the error of that. It is
/// complete with the URL that was built, or ends with the reason why there is none.
pub proof fn law_login_ends_with_its_last_step(
    login: AwaitingStore,
    stored: Result<(), std::io::Error>,
    next: Result<AwaitingUrl, CallbackError>,
    waiting: AwaitingUrl,
    url: String,
    reason: String,
)
    requires
        login.after_store(stored, next),
    ensures
        next is Ok == stored is Ok,
        stored matches Err(error) ==> next == Err::<AwaitingUrl, _>(
            CallbackError::AuthStore(error),
        ),
        next matches Ok(waits) ==> waits.api_key == login.record.api_key,
        waiting.after_url(Ok(url)) matches Ok(outcome) && outcome.success_url == url
            && outcome.api_key == waiting.api_key,
        waiting.after_url(Err(reason)) == Err::<HeadlessOutcome, _>(
            CallbackError::SuccessUrl(reason),
        ),
{
}

/// The authorization URL is the endpoint of the issuer, with what its query and its fragment held
/// and with these nine parameters behind them.
pub proof fn law_authorize_url_asks_for_a_code(
    server: LoginServer,
    port: u16,
    pkce: PkceCodes,
    state: Seq<char>,
    running: RunningServer,
    startup: Startup,
) -> (parts: (UrlParts, UrlParts))
    requires
        server.runs(port, pkce, state, running, startup),
    ensures
        url_parse(server.opts.issuer@ + "/oauth/authorize"@) == Ok::<_, url::ParseError>(parts.0),
        startup.auth_url@ == parts.1.text(),
        parts.1.base == parts.0.base,
        parts.1.fragment == parts.0.fragment,
        query_pairs(parts.1) == query_pairs(parts.0) + seq![
            ("response_type"@, "code"@),
            ("client_id"@, server.opts.client_id@),
            (
                "redirect_uri"@,
                "http://localhost:"@ + decimal(port as nat) + "/auth/callback"@,
            ),
            ("scope"@, "openid profile email offline_access"@),
            ("code_challenge"@, pkce.code_challenge@),
            ("code_challenge_method"@, "S256"@),
            ("id_token_add_organizations"@, "true"@),
            ("codex_cli_simplified_flow"@, "true"@),
            ("state"@, state),
        ],
{
    let base = url_parse(server.opts.issuer@ + "/oauth/authorize"@)->Ok_0;
    let url = law_authorize_url_carries_login(server, port, pkce, state, running, startup, base);
    assert(authorize_pairs(server.opts.client_id@, port, pkce.code_challenge@, state) =~= seq![
        ("response_type"@, "code"@),
        ("client_id"@, server.opts.client_id@),
        ("redirect_uri"@, "http://localhost:"@ + decimal(port as nat) + "/auth/callback"@),
        ("scope"@, "openid profile email offline_access"@),
        ("code_challenge"@, pkce.code_challenge@),
        ("code_challenge_method"@, "S256"@),
        ("id_token_add_organizations"@, "true"@),
        ("codex_cli_simplified_flow"@, "true"@),
        ("state"@, state),
    ]);
    (base, url)
}

/// The server that begins to run has the options it was given but for the port, which is the one
/// it was bound to, and keeps the pages, the state and the verifier of the login.
pub proof fn law_running_server_keeps_the_login(
    server: LoginServer,
    port: u16,
    pkce: PkceCodes,
    state: Seq<char>,
    running: RunningServer,
    startup: Startup,
)
    requires
        server.runs(port, pkce, state, running, startup),
    ensures
        running.opts.codex_home == server.opts.codex_home,
        running.opts.client_id == server.opts.client_id,
        running.opts.issuer == server.opts.issuer,
        running.opts.port == port,
        running.opts.open_browser == server.opts.open_browser,
        running.opts.expose_state_endpoint == server.opts.expose_state_endpoint,
        running.opts.testing_timeout_secs == server.opts.testing_timeout_secs,
        running.pages == server.pages,
        running.state@ == state,
        running.code_verifier == pkce.code_verifier,
        running.http_e2e_tests == server.http_e2e_tests,
{
}

/// The server says where it listens and where to go, opens the browser there if that is wanted,
/// and asks itself to stop only in end to end tests with a timeout.
pub proof fn law_startup_announces_the_login(
    server: LoginServer,
    port: u16,
    pkce: PkceCodes,
    state: Seq<char>,
    running: RunningServer,
    startup: Startup,
)
    requires
        server.runs(port, pkce, state, running, startup),
    ensures
        startup.starting_message@ == "Starting local login server on http://localhost:"@ + decimal(
            port as nat,
        ),
        startup.navigate_message@
            == ". If your browser did not open, navigate to this URL to authenticate: \n\n"@
            + startup.auth_url@,
        option_text(startup.open_browser) == if server.opts.open_browser {
            Some(startup.auth_url@)
        } else {
            None
        },
        startup.exit_request is Some == (server.http_e2e_tests
            && server.opts.testing_timeout_secs is Some),
        startup.exit_request matches Some(exit) ==> server.opts.testing_timeout_secs == Some(
            exit.after_secs,
        ) && exit.url@ == "http://127.0.0.1:"@ + decimal(port as nat) + "/__test/exit"@,
{
    reveal_strlit("Starting local login server on http://localhost:");
    reveal_strlit("Starting local login server on ");
    reveal_strlit("http://localhost:");
    assert("Starting local login server on http://localhost:"@
        =~= "Starting local login server on "@ + "http://localhost:"@);
    assert(startup.starting_message@ =~= "Starting local login server on http://localhost:"@
        + decimal(port as nat));
}

/// An issuer is refused exactly if it makes no URL, with the error of the parser. A URL that it
/// makes is only too long if it can have more bytes than can be counted in 32 bits when the
/// parameters are added.
pub proof fn law_only_bad_issuers_are_refused(
    server: LoginServer,
    port: u16,
    pkce: PkceCodes,
    state: Seq<char>,
    running: RunningServer,
    startup: Startup,
    error: LoginServerError,
)
    ensures
        server.runs(port, pkce, state, running, startup) ==> url_parse(
            server.opts.issuer@ + "/oauth/authorize"@,
        ) is Ok,
        server.fails(port, pkce, state, error) ==> match url_parse(
            server.opts.issuer@ + "/oauth/authorize"@,
        ) {
            Err(reason) => error == LoginServerError::AuthorizeUrl(reason),
            Ok(url) => error == LoginServerError::AuthorizeUrlTooLong && encode_utf8(
                url.head(),
            ).len() + pairs_room(
                authorize_pairs(server.opts.client_id@, port, pkce.code_challenge@, state),
            ) > u32::MAX,
        },
{
    if let Ok(url) = url_parse(server.opts.issuer@ + "/oauth/authorize"@) {
        let pairs = authorize_pairs(server.opts.client_id@, port, pkce.code_challenge@, state);
        if encode_utf8(url.head()).len() + pairs_room(pairs) <= u32::MAX {
            lemma_pairs_fit(url, pairs);
        }
    }
}

/// A login without options of its own has the default issuer and port, opens a browser, and has
/// nothing of what only tests need.
pub proof fn law_default_options_are_these(
    opts: LoginServerOptions,
    codex_home: std::path::PathBuf,
    client_id: Seq<char>,
)
    requires
        default_options(opts, codex_home, client_id),
    ensures
        opts.codex_home == codex_home,
        opts.client_id@ == client_id,
        opts.issuer@ == "https://auth.openai.com"@,
        opts.port == 1455,
        opts.open_browser,
        !opts.expose_state_endpoint,
        opts.testing_timeout_secs is None,
{
}

/// A client that is configured is used, unless its name is empty; else the default is.
pub proof fn law_configured_client_is_chosen(configured: String, default: Seq<char>)
    ensures
        configured@.len() > 0 ==> chosen_client_id(Some(configured), default) == configured@,
        configured@.len() == 0 ==> chosen_client_id(Some(configured), default) == default,
        chosen_client_id(None, default) == default,
{
}

/// The login URL is the last line that looks like one, without the white space around it; there
/// is none if no line does.
pub proof fn law_last_url_wins(
    before: Seq<Seq<char>>,
    line: Seq<char>,
    after: Seq<Seq<char>>,
)
    requires
        forall|i: int| 0 <= i < after.len() ==> !looks_like_url(trimmed(#[trigger] after[i])),
    ensures
        looks_like_url(trimmed(line)) ==> last_url(before.push(line) + after) == Some(
            trimmed(line),
        ),
        last_url(after) is None,
{
    lemma_last_url(before.push(line), after);
    assert(before.push(line).last() == line);
    lemma_last_url(seq![], after);
    assert(Seq::<Seq<char>>::empty() + after =~= after);
}

/// Lines are decoded one by one: those in UTF-8 exactly, whatever the others hold.
pub proof fn law_lines_are_decoded_one_by_one(bytes: Seq<u8>, i: int, text: Seq<char>)
    requires
        0 <= i < byte_lines(bytes).len(),
        byte_lines(bytes)[i] == encode_utf8(text),
    ensures
        lossy_lines(bytes).len() == byte_lines(bytes).len(),
        lossy_lines(bytes)[i] == text,
{
    encode_utf8_valid_utf8(text);
    encode_utf8_decode_utf8(text);
}

} // verus!
