//! Logins that are started from a program: in a process of their own, or in place.
use crate::callback::{ErrorKind, IoReport};
use crate::external::{from_utf8_lossy, lossy_text};
use crate::process::{
    argument_views, setting_views, text_arguments, ProcessPlan, ProcessText, ProcessTextView,
};
use crate::server::{
    default_options, run_local_login_server_with_options, LoginPages, LoginServer,
    LoginServerOptions, DEFAULT_ISSUER, DEFAULT_PORT,
};
use crate::text::{
    byte_lines, followed_by, lemma_byte_lines, lemma_first_index_is, lines_of, looks_like_url,
    option_text, starts_with, texts, trim, trimmed, without_last,
};
use vstd::prelude::*;
use vstd::slice::slice_subrange;
use vstd::string::*;
use vstd::utf8::{
    decode_utf8, decode_utf8_encode_utf8, encode_utf8, encode_utf8_decode_utf8,
    encode_utf8_valid_utf8, valid_utf8,
};

verus! {

/// What a login process has printed so far.
#[derive(Debug, Clone)]
pub struct SpawnedLogin {
    pub stdout: Vec<u8>,
    pub stderr: Vec<u8>,
}

/// The last line that looks like a URL, without the white space around it.
pub open spec fn last_url(lines: Seq<Seq<char>>) -> Option<Seq<char>>
    decreases lines.len(),
{
    if lines.len() == 0 {
        None
    } else if looks_like_url(trimmed(lines.last())) {
        Some(trimmed(lines.last()))
    } else {
        last_url(lines.drop_last())
    }
}

/// The lines of a text that should be UTF-8. A newline is never part of a longer sequence of
/// bytes, so the lines can be told apart before they are decoded.
pub open spec fn lossy_lines(bytes: Seq<u8>) -> Seq<Seq<char>> {
    byte_lines(bytes).map_values(|line: Seq<u8>| lossy_text(line))
}

/// The lines of a text in UTF-8 are those of the text.
pub proof fn lemma_lossy_lines(text: Seq<char>)
    ensures
        lossy_lines(encode_utf8(text)) == lines_of(text),
{
    lemma_byte_lines(text);
    assert forall|i: int| 0 <= i < lines_of(text).len() implies lossy_text(
        encode_utf8(#[trigger] lines_of(text)[i]),
    ) == lines_of(text)[i] by {
        encode_utf8_valid_utf8(lines_of(text)[i]);
        encode_utf8_decode_utf8(lines_of(text)[i]);
    }
    assert(lossy_lines(encode_utf8(text)) =~= lines_of(text));
}

/// Splits a text that should be UTF-8 into its lines.
pub fn decode_lines(bytes: &[u8]) -> (found: Vec<String>)
    ensures
        texts(found@) == lossy_lines(bytes@),
{
    let mut found: Vec<String> = Vec::new();
    let mut at: usize = 0;
    assert(bytes@.len() == bytes.len());
    assert(bytes@.skip(0) == bytes@);
    assert(texts(found@) + lossy_lines(bytes@) =~= lossy_lines(bytes@));
    while at < bytes.len()
        invariant
            at <= bytes@.len() <= usize::MAX,
            texts(found@) + lossy_lines(bytes@.skip(at as int)) == lossy_lines(bytes@),
        decreases bytes@.len() - at,
    {
        let ghost rest = bytes@.skip(at as int);
        let ghost before = texts(found@);
        let mut end: usize = at;
        while end < bytes.len() && bytes[end] != 0x0a
            invariant
                at <= end <= bytes@.len(),
                forall|i: int| at <= i < end ==> bytes@[i] != 0x0a,
            decreases bytes@.len() - end,
        {
            end = end + 1;
        }
        proof {
            lemma_first_index_is(rest, 0x0a, end - at);
        }
        let last = end == bytes.len();
        let stop = if !last && end > at && bytes[end - 1] == 0x0d {
            end - 1
        } else {
            end
        };
        let line = from_utf8_lossy(slice_subrange(bytes, at, stop));
        found.push(line);
        assert(texts(found@) == before.push(line@));
        if last {
            assert(bytes@.subrange(at as int, stop as int) =~= rest);
            assert(byte_lines(rest) =~= seq![rest]);
            assert(lossy_lines(rest) =~= seq![line@]);
            at = end;
            assert(byte_lines(bytes@.skip(at as int)) =~= seq![]);
            assert(lossy_lines(bytes@.skip(at as int)) =~= seq![]);
        } else {
            assert(bytes@.subrange(at as int, stop as int) =~= without_last(
                rest.take(end - at),
                0x0d,
            ));
            assert(bytes@.skip(end + 1) =~= rest.skip(end - at + 1));
            at = end + 1;
            assert(lossy_lines(rest) =~= seq![line@] + lossy_lines(bytes@.skip(at as int)));
        }
        assert(texts(found@) + lossy_lines(bytes@.skip(at as int)) =~= before + lossy_lines(rest));
    }
    assert(lossy_lines(bytes@.skip(at as int)) =~= seq![]);
    found
}

impl SpawnedLogin {
    /// The login URL that the process has printed.
    ///
    /// The login server prints the authorization URL to stderr on a line of its own. The last
    /// line that looks like a URL is taken.
    ///
    /// A line that is not UTF-8 is read as `String::from_utf8_lossy` reads it, of which nothing
    /// more is said here.
    pub fn get_login_url(&self) -> (url: Option<String>)
        ensures
            option_text(url) == last_url(lossy_lines(self.stderr@)),
            valid_utf8(self.stderr@) ==> option_text(url) == last_url(
                lines_of(decode_utf8(self.stderr@)),
            ),
    {
        proof {
            if valid_utf8(self.stderr@) {
                decode_utf8_encode_utf8(self.stderr@);
                lemma_lossy_lines(decode_utf8(self.stderr@));
            }
        }
        let found = decode_lines(self.stderr.as_slice());
        let ghost all = texts(found@);
        let mut i: usize = found.len();
        assert(all.take(i as int) == all);
        while i > 0
            invariant
                i <= found@.len(),
                all == texts(found@),
                all == lossy_lines(self.stderr@),
                valid_utf8(self.stderr@) ==> all == lines_of(decode_utf8(self.stderr@)),
                last_url(all.take(i as int)) == last_url(all),
            decreases i,
        {
            assert(all.take(i as int).drop_last() == all.take(i - 1));
            let line = trim(found[i - 1].as_str());
            if starts_with(line.as_str(), "http://") || starts_with(line.as_str(), "https://") {
                return Some(line);
            }
            i = i - 1;
        }
        None
    }
}

/// The process that runs the login server: this program, told to log in.
pub fn spawn_login_with_chatgpt(
    current_exe: std::path::PathBuf,
    codex_home: std::path::PathBuf,
) -> (plan: ProcessPlan)
    ensures
        plan.program == current_exe,
        argument_views(plan.args@) == text_arguments(seq!["login"@]),
        setting_views(plan.env@) == seq![("CODEX_HOME"@, ProcessTextView::Path(codex_home))],
        plan.is_listened_to(),
{
    let mut args: Vec<ProcessText> = Vec::new();
    args.push(ProcessText::Text("login".to_owned()));
    let mut env: Vec<(String, ProcessText)> = Vec::new();
    env.push(("CODEX_HOME".to_owned(), ProcessText::Path(codex_home)));
    assert(argument_views(args@) =~= text_arguments(seq!["login"@]));
    assert(setting_views(env@) =~= seq![("CODEX_HOME"@, ProcessTextView::Path(codex_home))]);
    ProcessPlan::listened_to(current_exe, args, env)
}

/// The client to log in as: the configured one, unless it is empty.
pub open spec fn chosen_client_id(configured: Option<String>, default: Seq<char>) -> Seq<char> {
    match configured {
        Some(id) if id@.len() > 0 => id@,
        _ => default,
    }
}

/// The login server that the command line runs. `configured` is the value of `CODEX_CLIENT_ID`.
pub fn login_with_chatgpt(
    codex_home: std::path::PathBuf,
    configured: Option<String>,
    default_client_id: &str,
    pages: LoginPages,
) -> (server: LoginServer)
    ensures
        default_options(
            server.opts,
            codex_home,
            chosen_client_id(configured, default_client_id@),
        ),
        server.pages == pages,
        !server.http_e2e_tests,
{
    let client_id = match configured {
        Some(id) if !id.as_str().is_empty() => id,
        _ => default_client_id.to_owned(),
    };
    let opts = LoginServerOptions {
        codex_home,
        client_id,
        issuer: DEFAULT_ISSUER.to_owned(),
        port: DEFAULT_PORT,
        open_browser: true,
        expose_state_endpoint: false,
        testing_timeout_secs: None,
    };
    run_local_login_server_with_options(opts, pages, false)
}

/// How a login on a thread of its own has ended: as its server has, or with the reason why that
/// thread could not be joined.
pub fn login_finished(outcome: Result<Result<(), std::io::Error>, String>) -> (end: Result<
    (),
    IoReport,
>)
    ensures
        match outcome {
            Ok(Ok(())) => end is Ok,
            Ok(Err(error)) => end == Err::<(), _>(IoReport::Passed(error)),
            Err(reason) => end matches Err(IoReport::Made { kind, message }) && kind
                == ErrorKind::Other && message@ == "task join error: "@ + reason@,
        },
{
    match outcome {
        Ok(Ok(())) => Ok(()),
        Ok(Err(error)) => Err(IoReport::Passed(error)),
        Err(reason) => Err(
            IoReport::Made {
                kind: ErrorKind::Other,
                message: followed_by("task join error: ", reason.as_str()),
            },
        ),
    }
}

} // verus!
