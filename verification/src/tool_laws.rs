//! What holds of tool calls as a whole.
use crate::external::{json_text, path_debug, path_of};
use crate::gravity_sketch::{
    display_name, CommandError, GravitySketchAction, GravitySketchToolCallParam,
};
use crate::process::{
    argument_views, environment, names_differ, setting_views, text_arguments, text_settings,
    ProcessPlan, ProcessText, ProcessTextView, StreamMode,
};
use crate::stream::{told_lines, OutgoingNotification, RequestId};
use crate::text::{
    decimal, joined, law_blank_texts_are_trimmed_away, lemma_split_concat, lemma_split_one,
    lines_of, pair_texts, texts, white_space, without_return,
};
use crate::tool_call::{
    answers_call, run_result, summary, text_result, CallToolResult, ExitReport, RunError,
    StructuredContentView,
};
use vstd::prelude::*;

verus! {

/// Settings one after the other are the same as all settings at once.
proof fn lemma_environment_in_parts(
    inherited: Map<Seq<char>, ProcessTextView>,
    first: Seq<(Seq<char>, ProcessTextView)>,
    second: Seq<(Seq<char>, ProcessTextView)>,
)
    ensures
        environment(inherited, first + second) == environment(
            environment(inherited, first),
            second,
        ),
    decreases second.len(),
{
    if second.len() == 0 {
        assert(first + second =~= first);
    } else {
        assert((first + second).drop_last() =~= first + second.drop_last());
        lemma_environment_in_parts(inherited, first, second.drop_last());
    }
}

/// A variable has the value it was set to, or else the one it had.
proof fn lemma_environment(
    inherited: Map<Seq<char>, ProcessTextView>,
    settings: Seq<(Seq<char>, ProcessTextView)>,
)
    requires
        names_differ(settings),
    ensures
        forall|i: int|
            0 <= i < settings.len() ==> environment(inherited, settings).contains_pair(
                (#[trigger] settings[i]).0,
                settings[i].1,
            ),
        forall|name: Seq<char>|
            (forall|i: int| 0 <= i < settings.len() ==> (#[trigger] settings[i]).0 != name) ==> {
                &&& #[trigger] environment(inherited, settings).contains_key(name)
                    == inherited.contains_key(name)
                &&& environment(inherited, settings)[name] == inherited[name]
            },
    decreases settings.len(),
{
    if settings.len() > 0 {
        let rest = settings.drop_last();
        assert(names_differ(rest)) by {
            assert forall|i: int, j: int| 0 <= i < j < rest.len() implies (#[trigger] rest[i]).0
                != (#[trigger] rest[j]).0 by {
                assert(rest[i] == settings[i] && rest[j] == settings[j]);
            }
        }
        lemma_environment(inherited, rest);
        let last = settings[settings.len() - 1];
        assert forall|i: int| 0 <= i < settings.len() implies environment(
            inherited,
            settings,
        ).contains_pair((#[trigger] settings[i]).0, settings[i].1) by {
            if i < settings.len() - 1 {
                assert(rest[i] == settings[i]);
                assert(settings[i].0 != last.0);
            }
        }
        assert forall|name: Seq<char>|
            (forall|i: int|
                0 <= i < settings.len() ==> (#[trigger] settings[i]).0 != name) implies {
            &&& #[trigger] environment(inherited, settings).contains_key(name)
                == inherited.contains_key(name)
            &&& environment(inherited, settings)[name] == inherited[name]
        } by {
            assert(last.0 != name);
            assert forall|i: int| 0 <= i < rest.len() implies (#[trigger] rest[i]).0 != name by {
                assert(rest[i] == settings[i]);
            }
            assert(environment(inherited, rest).contains_key(name) == inherited.contains_key(name));
        }
    }
}

/// Where no name occurs twice, the order of settings makes no difference.
proof fn lemma_environment_order(
    inherited: Map<Seq<char>, ProcessTextView>,
    first: Seq<(Seq<char>, ProcessTextView)>,
    second: Seq<(Seq<char>, ProcessTextView)>,
)
    requires
        names_differ(first),
        names_differ(second),
        forall|setting: (Seq<char>, ProcessTextView)|
            first.contains(setting) <==> second.contains(setting),
    ensures
        environment(inherited, first) == environment(inherited, second),
{
    lemma_environment(inherited, first);
    lemma_environment(inherited, second);
    let a = environment(inherited, first);
    let b = environment(inherited, second);
    assert forall|name: Seq<char>| #[trigger]
        a.contains_key(name) == b.contains_key(name) && a[name] == b[name] by {
        if exists|i: int| 0 <= i < first.len() && (#[trigger] first[i]).0 == name {
            let i = choose|i: int| 0 <= i < first.len() && (#[trigger] first[i]).0 == name;
            assert(first.contains(first[i]));
            assert(second.contains(first[i]));
            let j = choose|j: int| 0 <= j < second.len() && second[j] == first[i];
            assert(b.contains_pair(second[j].0, second[j].1));
            assert(a.contains_pair(first[i].0, first[i].1));
        } else {
            assert forall|j: int| 0 <= j < second.len() implies (#[trigger] second[j]).0
                != name by {
                assert(second.contains(second[j]));
                assert(first.contains(second[j]));
                let i = choose|i: int| 0 <= i < first.len() && first[i] == second[j];
                assert(first[i].0 != name);
            }
            assert(a.contains_key(name) == inherited.contains_key(name));
            assert(b.contains_key(name) == inherited.contains_key(name));
        }
    }
    assert(a =~= b);
}

proof fn lemma_text_settings(pairs: Seq<(Seq<char>, Seq<char>)>)
    requires
        names_differ(pairs),
    ensures
        names_differ(text_settings(pairs)),
{
    let settings = text_settings(pairs);
    assert forall|i: int, j: int| 0 <= i < j < settings.len() implies (#[trigger] settings[i]).0
        != (#[trigger] settings[j]).0 by {
        assert(pairs[i].0 != pairs[j].0);
    }
}

/// The order in which additional environment variables are given makes no difference to the
/// environment of the process.
pub proof fn law_order_of_env_is_irrelevant(
    inherited: Map<Seq<char>, ProcessTextView>,
    first: GravitySketchToolCallParam,
    second: GravitySketchToolCallParam,
)
    requires
        first.token == second.token,
        first.well_formed(),
        second.well_formed(),
        forall|pair: (Seq<char>, Seq<char>)|
            pair_texts(first.env@).contains(pair) <==> pair_texts(second.env@).contains(pair),
    ensures
        environment(inherited, first.settings()) == environment(inherited, second.settings()),
{
    let a = pair_texts(first.env@);
    let b = pair_texts(second.env@);
    lemma_text_settings(a);
    lemma_text_settings(b);
    let token = match first.token {
        Some(text) => seq![("GRAVITY_SKETCH_TOKEN"@, ProcessTextView::Text(text@))],
        None => seq![],
    };
    lemma_environment_in_parts(inherited, token, text_settings(a));
    lemma_environment_in_parts(inherited, token, text_settings(b));
    assert forall|setting: (Seq<char>, ProcessTextView)|
        text_settings(a).contains(setting) <==> text_settings(b).contains(setting) by {
        if text_settings(a).contains(setting) {
            let i = choose|i: int| 0 <= i < a.len() && text_settings(a)[i] == setting;
            assert(a.contains(a[i]));
            assert(b.contains(a[i]));
            let j = choose|j: int| 0 <= j < b.len() && b[j] == a[i];
            assert(text_settings(b)[j] == setting);
        }
        if text_settings(b).contains(setting) {
            let i = choose|i: int| 0 <= i < b.len() && text_settings(b)[i] == setting;
            assert(b.contains(b[i]));
            assert(a.contains(b[i]));
            let j = choose|j: int| 0 <= j < a.len() && a[j] == b[i];
            assert(text_settings(a)[j] == setting);
        }
    }
    lemma_environment_order(environment(inherited, token), text_settings(a), text_settings(b));
}

/// The process sees each additional environment variable, even one that names the token.
pub proof fn law_env_is_set(
    inherited: Map<Seq<char>, ProcessTextView>,
    params: GravitySketchToolCallParam,
    i: int,
)
    requires
        params.well_formed(),
        0 <= i < params.env@.len(),
    ensures
        environment(inherited, params.settings()).contains_pair(
            params.env@[i].0@,
            ProcessTextView::Text(params.env@[i].1@),
        ),
{
    let pairs = pair_texts(params.env@);
    lemma_text_settings(pairs);
    let token = match params.token {
        Some(text) => seq![("GRAVITY_SKETCH_TOKEN"@, ProcessTextView::Text(text@))],
        None => seq![],
    };
    lemma_environment_in_parts(inherited, token, text_settings(pairs));
    lemma_environment(environment(inherited, token), text_settings(pairs));
    assert(text_settings(pairs)[i] == (
        params.env@[i].0@,
        ProcessTextView::Text(params.env@[i].1@),
    ));
}

/// The process sees the token of the call in place of one that it would inherit, unless the
/// additional environment variables name another.
pub proof fn law_token_is_set(
    inherited: Map<Seq<char>, ProcessTextView>,
    params: GravitySketchToolCallParam,
    token: String,
)
    requires
        params.token == Some(token),
        params.well_formed(),
        forall|i: int|
            0 <= i < params.env@.len() ==> (#[trigger] params.env@[i]).0@
                != "GRAVITY_SKETCH_TOKEN"@,
    ensures
        environment(inherited, params.settings()).contains_pair(
            "GRAVITY_SKETCH_TOKEN"@,
            ProcessTextView::Text(token@),
        ),
{
    let pairs = pair_texts(params.env@);
    let name = "GRAVITY_SKETCH_TOKEN"@;
    lemma_text_settings(pairs);
    let first = seq![(name, ProcessTextView::Text(token@))];
    let with_token = environment(inherited, first);
    assert(first.drop_last() =~= seq![]);
    reveal_with_fuel(environment, 2);
    assert(with_token.contains_pair(name, ProcessTextView::Text(token@)));
    lemma_environment_in_parts(inherited, first, text_settings(pairs));
    lemma_environment(with_token, text_settings(pairs));
    let settings = text_settings(pairs);
    assert forall|i: int| 0 <= i < settings.len() implies (#[trigger] settings[i]).0 != name by {
        assert(params.env@[i].0@ != name);
    }
    assert(environment(with_token, settings).contains_key(name));
}

/// A payload stands last on the command line, as its JSON text; without it the rest is the same.
pub proof fn law_payload_stands_last(
    params: GravitySketchToolCallParam,
    bare: GravitySketchToolCallParam,
    payload: serde_json::Value,
)
    requires
        params.payload == Some(payload),
        bare == (GravitySketchToolCallParam { payload: None, ..params }),
    ensures
        params.lacks() == bare.lacks(),
        params.arguments() == bare.arguments() + seq![
            ProcessTextView::Text("--payload"@),
            ProcessTextView::Text(json_text(payload)),
        ],
{
    assert(bare.arguments() + seq![
        ProcessTextView::Text("--payload"@),
        ProcessTextView::Text(json_text(payload)),
    ] =~= params.arguments());
}

/// Extra arguments stand behind the action, whatever the action is, and before nothing but a
/// payload; without them the rest is the same.
pub proof fn law_extra_arguments_follow_the_action(
    params: GravitySketchToolCallParam,
    bare: GravitySketchToolCallParam,
)
    requires
        bare == (GravitySketchToolCallParam { extra_args: bare.extra_args, ..params }),
        bare.extra_args@.len() == 0,
        params.payload is None,
    ensures
        params.arguments() == bare.arguments() + text_arguments(texts(params.extra_args@)),
{
    assert(text_arguments(texts(bare.extra_args@)) =~= seq![]);
    assert(params.arguments() =~= bare.arguments() + text_arguments(texts(params.extra_args@)));
}

/// Two actions with the same name are the same action.
pub proof fn law_display_names_differ(first: GravitySketchAction, second: GravitySketchAction)
    requires
        display_name(first) == display_name(second),
    ensures
        first == second,
{
    reveal_strlit("launch");
    reveal_strlit("open-scene");
    reveal_strlit("export-scene");
    reveal_strlit("import-asset");
    reveal_strlit("custom-command");
    assert("launch"@.len() == 6);
    assert("open-scene"@.len() == 10);
    assert("export-scene"@.len() == 12);
    assert("import-asset"@.len() == 12);
    assert("custom-command"@.len() == 14);
    assert("export-scene"@[0] == 'e');
    assert("import-asset"@[0] == 'i');
}

/// The lines that a tool printed can be read from the output that is kept of it. (A line that
/// ends with a carriage return would lose it.)
pub proof fn law_output_gives_lines_back(lines: Seq<Seq<char>>)
    requires
        lines.len() > 0,
        forall|i: int, j: int|
            0 <= i < lines.len() && 0 <= j < lines[i].len() ==> #[trigger] lines[i][j] != '\n',
        forall|i: int| 0 <= i < lines.len() ==> without_return(#[trigger] lines[i]) == lines[i],
    ensures
        lines_of(joined(lines).push('\n')) == lines,
    decreases lines.len(),
{
    let last = lines[lines.len() - 1];
    assert forall|j: int| 0 <= j < last.len() implies last[j] != '\n' by {
        assert(lines[lines.len() - 1][j] != '\n');
    }
    lemma_split_one(last, '\n', '\r');
    if lines.len() == 1 {
        assert(lines =~= seq![last]);
    } else {
        let rest = lines.drop_last();
        assert forall|i: int, j: int| 0 <= i < rest.len() && 0 <= j < rest[i].len() implies
            #[trigger] rest[i][j] != '\n' by {
            assert(lines[i][j] != '\n');
        }
        assert forall|i: int| 0 <= i < rest.len() implies without_return(#[trigger] rest[i])
            == rest[i] by {
            assert(without_return(lines[i]) == lines[i]);
        }
        law_output_gives_lines_back(rest);
        lemma_split_concat(joined(rest), last.push('\n'), '\n', '\r');
        assert(joined(lines).push('\n') =~= joined(rest).push('\n') + last.push('\n'));
        assert(lines =~= rest.push(last));
    }
}

/// Every line that a tool prints stands in the output that is kept of it.
pub proof fn law_output_holds_every_line(lines: Seq<Seq<char>>, i: int)
    requires
        0 <= i < lines.len(),
    ensures
        exists|at: int|
            0 <= at && at + lines[i].len() <= joined(lines).len() && #[trigger] joined(
                lines,
            ).subrange(at, at + lines[i].len()) == lines[i],
    decreases lines.len(),
{
    let all = joined(lines);
    if lines.len() == 1 {
        assert(all.subrange(0int, 0int + lines[i].len()) =~= lines[i]);
    } else if i == lines.len() - 1 {
        let at = all.len() - lines[i].len();
        assert(all.subrange(at, at + lines[i].len()) =~= lines[i]);
    } else {
        let rest = lines.drop_last();
        law_output_holds_every_line(rest, i);
        let at = choose|at: int|
            0 <= at && at + rest[i].len() <= joined(rest).len() && #[trigger] joined(
                rest,
            ).subrange(at, at + rest[i].len()) == rest[i];
        assert(all.subrange(at, at + lines[i].len()) =~= joined(rest).subrange(
            at,
            at + lines[i].len(),
        ));
    }
}

/// A tool call whose run did not reach its end is answered with an error.
pub proof fn law_broken_run_is_an_error(
    action: GravitySketchAction,
    error: RunError,
    response: CallToolResult,
)
    requires
        answers_call(action, Err(error), response),
    ensures
        response.is_error == Some(true),
        response.structured_content is None,
{
}

/// The executable that a call names is run, whatever the environment says.
pub proof fn law_named_executable_is_run(
    params: GravitySketchToolCallParam,
    path: std::path::PathBuf,
    configured: Option<String>,
)
    requires
        params.cli_path == Some(path),
    ensures
        params.program(configured) == path,
{
}

/// Where a call names no executable, the one that the environment names is run, unless that name
/// is empty; else the default is.
pub proof fn law_configured_executable_is_run(
    params: GravitySketchToolCallParam,
    configured: String,
)
    requires
        params.cli_path is None,
    ensures
        configured@.len() > 0 ==> params.program(Some(configured)) == path_of(configured@),
        configured@.len() == 0 ==> params.program(Some(configured)) == path_of(
            "gravity-sketch-cli"@,
        ),
        params.program(None) == path_of("gravity-sketch-cli"@),
{
}

/// The command line begins with the host of the call, or else with this machine.
pub proof fn law_host_stands_first(params: GravitySketchToolCallParam)
    ensures
        params.arguments().len() > 2,
        params.arguments()[0] == ProcessTextView::Text("--host"@),
        params.host matches Some(host) ==> params.arguments()[1] == ProcessTextView::Text(host@),
        params.host is None ==> params.arguments()[1] == ProcessTextView::Text("127.0.0.1"@),
{
}

/// A port stands directly behind the host, whatever the other parameters are; without it the rest
/// of the command line is the same.
pub proof fn law_port_follows_the_host(
    params: GravitySketchToolCallParam,
    bare: GravitySketchToolCallParam,
    port: u16,
)
    requires
        params.port == Some(port),
        bare == (GravitySketchToolCallParam { port: None, ..params }),
    ensures
        params.lacks() == bare.lacks(),
        params.arguments() == bare.arguments().take(2) + seq![
            ProcessTextView::Text("--port"@),
            ProcessTextView::Text(decimal(port as nat)),
        ] + bare.arguments().skip(2),
{
    assert(params.arguments() =~= bare.arguments().take(2) + seq![
        ProcessTextView::Text("--port"@),
        ProcessTextView::Text(decimal(port as nat)),
    ] + bare.arguments().skip(2));
}

/// A project stands directly behind the host and the port, whatever the other parameters are;
/// without it the rest of the command line is the same.
pub proof fn law_project_follows_the_address(
    params: GravitySketchToolCallParam,
    bare: GravitySketchToolCallParam,
    project_id: String,
)
    requires
        params.project_id == Some(project_id),
        bare == (GravitySketchToolCallParam { project_id: None, ..params }),
    ensures
        params.lacks() == bare.lacks(),
        ({
            let at = if params.port is Some {
                4int
            } else {
                2int
            };
            params.arguments() == bare.arguments().take(at) + seq![
                ProcessTextView::Text("--project-id"@),
                ProcessTextView::Text(project_id@),
            ] + bare.arguments().skip(at)
        }),
{
    let at = if params.port is Some {
        4int
    } else {
        2int
    };
    assert(params.arguments() =~= bare.arguments().take(at) + seq![
        ProcessTextView::Text("--project-id"@),
        ProcessTextView::Text(project_id@),
    ] + bare.arguments().skip(at));
}

/// Behind the options stand the words of the action and what it works on: here the whole command
/// line of a call with no other parameters than those of the address and the action.
pub proof fn law_action_stands_behind_the_options(params: GravitySketchToolCallParam)
    requires
        params.lacks() is None,
        params.port is None,
        params.project_id is None,
        params.extra_args@.len() == 0 || params.action == GravitySketchAction::CustomCommand,
        params.payload is None,
    ensures
        params.arguments().skip(2) == match params.action {
            GravitySketchAction::Launch => seq![ProcessTextView::Text("launch"@)],
            GravitySketchAction::OpenScene => seq![
                ProcessTextView::Text("open-scene"@),
                ProcessTextView::Text("--scene-id"@),
                ProcessTextView::Text(params.scene_id->0@),
            ],
            GravitySketchAction::ExportScene => seq![
                ProcessTextView::Text("export-scene"@),
                ProcessTextView::Text("--scene-id"@),
                ProcessTextView::Text(params.scene_id->0@),
                ProcessTextView::Text("--output"@),
                ProcessTextView::Path(params.export_path->0),
            ],
            GravitySketchAction::ImportAsset => seq![
                ProcessTextView::Text("import-asset"@),
                ProcessTextView::Path(params.import_path->0),
            ],
            GravitySketchAction::CustomCommand => seq![ProcessTextView::Text("run"@)]
                + Seq::new(
                params.extra_args@.len(),
                |i: int| ProcessTextView::Text(params.extra_args@[i]@),
            ),
        },
{
    let extra = Seq::new(
        params.extra_args@.len(),
        |i: int| ProcessTextView::Text(params.extra_args@[i]@),
    );
    assert(text_arguments(texts(params.extra_args@)) =~= extra);
    assert(params.arguments().skip(2) =~= params.action_arguments() + extra);
    if params.action != GravitySketchAction::CustomCommand {
        assert(params.arguments().skip(2) =~= params.action_arguments());
    }
}

/// A call is refused if it lacks what its action needs, and only then: a scene to open or to
/// export, a file to export to, a file to import, or the arguments of a custom command. What
/// is missing first is named.
pub proof fn law_only_incomplete_calls_are_refused(params: GravitySketchToolCallParam)
    ensures
        params.lacks() is None == match params.action {
            GravitySketchAction::Launch => true,
            GravitySketchAction::OpenScene => params.scene_id is Some,
            GravitySketchAction::ExportScene => params.scene_id is Some && params.export_path
                is Some,
            GravitySketchAction::ImportAsset => params.import_path is Some,
            GravitySketchAction::CustomCommand => params.extra_args@.len() > 0,
        },
        params.lacks() matches Some(error) ==> match params.action {
            GravitySketchAction::Launch => false,
            GravitySketchAction::OpenScene => error == CommandError::OpenWithoutSceneId,
            GravitySketchAction::ExportScene => error == if params.scene_id is None {
                CommandError::ExportWithoutSceneId
            } else {
                CommandError::ExportWithoutPath
            },
            GravitySketchAction::ImportAsset => error == CommandError::ImportWithoutPath,
            GravitySketchAction::CustomCommand => error == CommandError::CustomWithoutArguments,
        },
{
}

/// The process inherits every variable that the call does not set, and none comes from nowhere.
pub proof fn law_other_variables_are_inherited(
    inherited: Map<Seq<char>, ProcessTextView>,
    params: GravitySketchToolCallParam,
    name: Seq<char>,
)
    requires
        params.well_formed(),
        forall|i: int| 0 <= i < params.env@.len() ==> (#[trigger] params.env@[i]).0@ != name,
        name == "GRAVITY_SKETCH_TOKEN"@ ==> params.token is None,
    ensures
        environment(inherited, params.settings()).contains_key(name) == inherited.contains_key(
            name,
        ),
        environment(inherited, params.settings())[name] == inherited[name],
{
    let pairs = pair_texts(params.env@);
    lemma_text_settings(pairs);
    let token = match params.token {
        Some(text) => seq![("GRAVITY_SKETCH_TOKEN"@, ProcessTextView::Text(text@))],
        None => seq![],
    };
    lemma_environment_in_parts(inherited, token, text_settings(pairs));
    let before = environment(inherited, token);
    lemma_environment(before, text_settings(pairs));
    let settings = text_settings(pairs);
    assert forall|i: int| 0 <= i < settings.len() implies (#[trigger] settings[i]).0 != name by {
        assert(params.env@[i].0@ != name);
    }
    assert(environment(before, settings).contains_key(name) == before.contains_key(name));
    assert(names_differ(token));
    lemma_environment(inherited, token);
    assert(before.contains_key(name) == inherited.contains_key(name));
}

/// Arguments and settings are handed over one by one, each as it is.
pub proof fn law_process_sees_what_is_given(
    args: Seq<ProcessText>,
    env: Seq<(String, ProcessText)>,
    plan: ProcessPlan,
    i: int,
)
    ensures
        argument_views(args).len() == args.len(),
        0 <= i < args.len() ==> argument_views(args)[i] == match args[i] {
            ProcessText::Text(text) => ProcessTextView::Text(text@),
            ProcessText::Path(path) => ProcessTextView::Path(path),
        },
        setting_views(env).len() == env.len(),
        0 <= i < env.len() ==> setting_views(env)[i].0 == env[i].0@ && setting_views(env)[i].1
            == match env[i].1 {
            ProcessText::Text(text) => ProcessTextView::Text(text@),
            ProcessText::Path(path) => ProcessTextView::Path(path),
        },
        plan.is_listened_to() ==> plan.stdin == StreamMode::Null && plan.stdout
            == StreamMode::Piped && plan.stderr == StreamMode::Piped,
{
}

/// A result that is a text is this text and no other, with the error flag and the details that it
/// was given.
pub proof fn law_text_result_is_one_text(
    result: CallToolResult,
    text: Seq<char>,
    is_error: bool,
    structured: Option<StructuredContentView>,
)
    requires
        result@ == text_result(text, is_error, structured),
    ensures
        result.content@.len() == 1,
        result.content@[0].kind@ == "text"@,
        result.content@[0].text@ == text,
        result.is_error == Some(is_error),
        structured is Some == result.structured_content is Some,
        structured matches Some(view) ==> {
            let given = result.structured_content->0;
            &&& given.action@ == view.action
            &&& given.success == view.success
            &&& given.status_code == view.status_code
            &&& given.stdout@ == view.stdout
            &&& given.stderr@ == view.stderr
        },
{
    assert(result@.content.len() == 1);
    assert(result@.content[0] == ("text"@, text));
    assert(result@.content[0] == (result.content@[0].kind@, result.content@[0].text@));
}

/// A run is an error if the process failed, and only then. The result tells how the process
/// ended and holds all that it printed, whatever its text is.
pub proof fn law_result_tells_how_the_run_ended(
    action: GravitySketchAction,
    exit: ExitReport,
    stdout: Seq<char>,
    stderr: Seq<char>,
    result: CallToolResult,
)
    requires
        result@ == run_result(action, exit, stdout, stderr),
    ensures
        result.content@.len() == 1,
        result.content@[0].kind@ == "text"@,
        result.is_error == Some(!exit.success),
        result.structured_content is Some,
        ({
            let given = result.structured_content->0;
            &&& given.action@ == display_name(action)
            &&& given.success == exit.success
            &&& given.status_code == exit.code
            &&& given.stdout@ == stdout
            &&& given.stderr@ == stderr
        }),
{
    let text = summary(action, exit.success, exit.status@, stdout, stderr);
    let structured = run_result(action, exit, stdout, stderr).structured_content;
    law_text_result_is_one_text(result, text, !exit.success, structured);
}

/// When the process succeeded and printed anything but white space to stdout, the text of the
/// result is what it printed there, whatever it printed to stderr.
pub proof fn law_output_of_a_success_is_shown(
    action: GravitySketchAction,
    exit: ExitReport,
    stdout: Seq<char>,
    stderr: Seq<char>,
    result: CallToolResult,
    at: int,
)
    requires
        result@ == run_result(action, exit, stdout, stderr),
        exit.success,
        0 <= at < stdout.len(),
        !white_space(stdout[at]),
    ensures
        result.content@.len() == 1,
        result.content@[0].kind@ == "text"@,
        result.content@[0].text@ == stdout,
{
    law_blank_texts_are_trimmed_away(stdout);
    let structured = run_result(action, exit, stdout, stderr).structured_content;
    law_text_result_is_one_text(result, stdout, false, structured);
}

/// When the process succeeded and printed nothing but white space to stdout, the text of the
/// result says that the action is done, whatever was printed to stderr.
pub proof fn law_quiet_success_is_told(
    action: GravitySketchAction,
    exit: ExitReport,
    stdout: Seq<char>,
    stderr: Seq<char>,
    result: CallToolResult,
)
    requires
        result@ == run_result(action, exit, stdout, stderr),
        exit.success,
        forall|i: int| 0 <= i < stdout.len() ==> white_space(#[trigger] stdout[i]),
    ensures
        result.content@[0].text@ == "Gravity Sketch action "@ + display_name(action)
            + " completed successfully."@,
{
    law_blank_texts_are_trimmed_away(stdout);
    let structured = run_result(action, exit, stdout, stderr).structured_content;
    let text = summary(action, exit.success, exit.status@, stdout, stderr);
    law_text_result_is_one_text(result, text, false, structured);
}

/// When the process failed, the text of the result names the action and the status, and shows
/// stderr if there is anything but white space in it, else stdout if there is in that, else
/// nothing more.
pub proof fn law_failure_is_explained(
    action: GravitySketchAction,
    exit: ExitReport,
    stdout: Seq<char>,
    stderr: Seq<char>,
    result: CallToolResult,
)
    requires
        result@ == run_result(action, exit, stdout, stderr),
        !exit.success,
    ensures
        ({
            let text = result.content@[0].text@;
            let head = "Gravity Sketch action "@ + display_name(action) + " failed with status "@
                + exit.status@ + "."@;
            &&& (exists|i: int| 0 <= i < stderr.len() && !white_space(#[trigger] stderr[i]))
                ==> text == head + "\nstderr:\n"@ + stderr
            &&& (forall|i: int| 0 <= i < stderr.len() ==> white_space(#[trigger] stderr[i])) && (
            exists|i: int| 0 <= i < stdout.len() && !white_space(#[trigger] stdout[i])) ==> text
                == head + "\nstdout:\n"@ + stdout
            &&& (forall|i: int| 0 <= i < stderr.len() ==> white_space(#[trigger] stderr[i])) && (
            forall|i: int| 0 <= i < stdout.len() ==> white_space(#[trigger] stdout[i])) ==> text
                == head
        }),
{
    law_blank_texts_are_trimmed_away(stdout);
    law_blank_texts_are_trimmed_away(stderr);
    let structured = run_result(action, exit, stdout, stderr).structured_content;
    let text = summary(action, exit.success, exit.status@, stdout, stderr);
    law_text_result_is_one_text(result, text, true, structured);
    let head = "Gravity Sketch action "@ + display_name(action) + " failed with status "@
        + exit.status@ + "."@;
    assert(head + ("\nstderr:\n"@ + stderr) =~= head + "\nstderr:\n"@ + stderr);
    assert(head + ("\nstdout:\n"@ + stdout) =~= head + "\nstdout:\n"@ + stdout);
    assert(head + seq![] =~= head);
}

/// A call whose run reached its end is answered with its result as it is. One whose run did not is
/// answered with an error that names the action and says why.
pub proof fn law_call_is_answered_with_its_outcome(
    action: GravitySketchAction,
    result: CallToolResult,
    reason: String,
    path: std::path::PathBuf,
    response: CallToolResult,
)
    ensures
        answers_call(action, Ok(result), response) ==> response == result,
        answers_call(action, Err(RunError::Stream(reason)), response) ==> says_why(
            response,
            action,
            reason@,
        ),
        answers_call(action, Err(RunError::Spawn(path)), response) ==> says_why(
            response,
            action,
            "failed to spawn Gravity Sketch CLI at "@ + path_debug(path),
        ),
        answers_call(action, Err(RunError::StdoutMissing), response) ==> says_why(
            response,
            action,
            "failed to capture stdout from Gravity Sketch CLI"@,
        ),
        answers_call(action, Err(RunError::StderrMissing), response) ==> says_why(
            response,
            action,
            "failed to capture stderr from Gravity Sketch CLI"@,
        ),
        answers_call(action, Err(RunError::Wait), response) ==> says_why(
            response,
            action,
            "failed to wait for Gravity Sketch CLI"@,
        ),
        answers_call(
            action,
            Err(RunError::Command(CommandError::OpenWithoutSceneId)),
            response,
        ) ==> says_why(response, action, "`scene_id` is required for the open-scene action"@),
        answers_call(
            action,
            Err(RunError::Command(CommandError::ExportWithoutSceneId)),
            response,
        ) ==> says_why(response, action, "`scene_id` is required for the export-scene action"@),
        answers_call(
            action,
            Err(RunError::Command(CommandError::ExportWithoutPath)),
            response,
        ) ==> says_why(
            response,
            action,
            "`export_path` is required for the export-scene action"@,
        ),
        answers_call(
            action,
            Err(RunError::Command(CommandError::ImportWithoutPath)),
            response,
        ) ==> says_why(
            response,
            action,
            "`import_path` is required for the import-asset action"@,
        ),
        answers_call(
            action,
            Err(RunError::Command(CommandError::CustomWithoutArguments)),
            response,
        ) ==> says_why(
            response,
            action,
            "`extra_args` must contain at least one argument for the custom-command action"@,
        ),
{
    assert forall|error: RunError, message: String|
        #![trigger error.says(message)]
        response@ == text_result(
            "Failed to execute gravity-sketch action "@ + display_name(action) + ": "@ + message@,
            true,
            None,
        ) implies says_why(response, action, message@) by {
        law_text_result_is_one_text(
            response,
            "Failed to execute gravity-sketch action "@ + display_name(action) + ": "@ + message@,
            true,
            None,
        );
    }
}

/// Whether a response is an error that names the action and says this of it.
pub open spec fn says_why(
    response: CallToolResult,
    action: GravitySketchAction,
    message: Seq<char>,
) -> bool {
    &&& response.content@.len() == 1
    &&& response.content@[0].kind@ == "text"@
    &&& response.content@[0].text@ == "Failed to execute gravity-sketch action "@ + display_name(
        action,
    ) + ": "@ + message
    &&& response.is_error == Some(true)
    &&& response.structured_content is None
}

/// The notification of a line names the method, the request, the stream and the line.
pub proof fn law_notification_names_its_parts(
    notification: OutgoingNotification,
    request_id: RequestId,
    stream: Seq<char>,
    line: Seq<char>,
)
    requires
        notification.tells(request_id, stream, line),
    ensures
        notification.method@ == "gravity-sketch/event"@,
        notification.request_id == request_id,
        notification.event.kind@ == "stream"@,
        notification.event.stream@ == stream,
        notification.event.line@ == line,
{
}

/// Every line that is not empty is told of, in order, and no empty one.
pub proof fn law_lines_are_told_of_in_order(
    first: Seq<Seq<char>>,
    second: Seq<Seq<char>>,
    line: Seq<char>,
)
    ensures
        told_lines(first + second) == told_lines(first) + told_lines(second),
        line.len() > 0 ==> told_lines(seq![line]) == seq![line],
        told_lines(seq![Seq::<char>::empty()]) == Seq::<Seq<char>>::empty(),
        told_lines(seq![]) == Seq::<Seq<char>>::empty(),
    decreases second.len(),
{
    reveal_with_fuel(told_lines, 2);
    assert(seq![line].drop_last() =~= seq![]);
    assert(seq![Seq::<char>::empty()].drop_last() =~= seq![]);
    assert(told_lines(seq![line]) =~= if line.len() > 0 {
        seq![line]
    } else {
        seq![]
    });
    assert(told_lines(seq![Seq::<char>::empty()]) =~= Seq::<Seq<char>>::empty());
    if second.len() == 0 {
        assert(first + second =~= first);
        assert(told_lines(first + second) =~= told_lines(first) + told_lines(second));
    } else {
        law_lines_are_told_of_in_order(first, second.drop_last(), line);
        assert((first + second).drop_last() =~= first + second.drop_last());
        assert((first + second).last() == second.last());
        assert(told_lines(first + second) =~= told_lines(first) + told_lines(second));
    }
}

} // verus!
