use std::path::PathBuf;

use codex_rs::entrypoints::decode_lines;
use codex_rs::gravity_sketch::{
    read_payload, CommandError, GravitySketchAction, GravitySketchToolCallParam,
    DEFAULT_GRAVITY_SKETCH_CLI, DEFAULT_GRAVITY_SKETCH_HOST,
};
use codex_rs::process::{ProcessPlan, ProcessText, StreamMode};
use codex_rs::stream::{stream_notification, OutgoingNotification, RequestId, StreamDrain};
use codex_rs::tool_call::{
    create_tool_for_gravity_sketch, handle_tool_call_gravity_sketch, run_gravity_sketch,
    tool_call_response, CallToolResult, ExitReport, ReadingRun, RunError, StartingRun,
    ToolCallStep,
};
use serde_json::Value;

fn params(action: GravitySketchAction) -> GravitySketchToolCallParam {
    GravitySketchToolCallParam {
        action,
        host: None,
        port: None,
        token: None,
        project_id: None,
        scene_id: None,
        export_path: None,
        import_path: None,
        extra_args: Vec::new(),
        payload: None,
        cli_path: None,
        env: Vec::new(),
    }
}

fn shown(arg: &ProcessText) -> String {
    match arg {
        ProcessText::Text(text) => text.clone(),
        ProcessText::Path(path) => path.to_string_lossy().to_string(),
    }
}

fn args(plan: &ProcessPlan) -> Vec<String> {
    plan.args.iter().map(shown).collect()
}

fn env(plan: &ProcessPlan) -> Vec<(String, String)> {
    plan.env
        .iter()
        .map(|(name, value)| (name.clone(), shown(value)))
        .collect()
}

fn command(params: &GravitySketchToolCallParam) -> ProcessPlan {
    match params.configure_command(PathBuf::from("cli")) {
        Ok(plan) => plan,
        Err(error) => panic!("unexpected error: {error:?}"),
    }
}

fn refusal(params: &GravitySketchToolCallParam) -> String {
    match params.configure_command(PathBuf::from("cli")) {
        Ok(plan) => panic!("unexpected plan: {plan:?}"),
        Err(error) => error.message(),
    }
}

fn started(params: &GravitySketchToolCallParam, configured: Option<&str>) -> StartingRun {
    match run_gravity_sketch(params, configured.map(|text| text.to_string())) {
        Ok(run) => run,
        Err(error) => panic!("unexpected error: {error:?}"),
    }
}

fn reading(run: StartingRun) -> ReadingRun {
    match run.spawned(true) {
        Ok(run) => match run.captured(true, true) {
            Ok(run) => run,
            Err(error) => panic!("unexpected error: {error:?}"),
        },
        Err(error) => panic!("unexpected error: {error:?}"),
    }
}

fn ended(
    action: GravitySketchAction,
    success: bool,
    code: Option<i32>,
    status: &str,
    stdout: &str,
    stderr: &str,
) -> CallToolResult {
    let run = ReadingRun { action };
    let exit = ExitReport {
        success,
        code,
        status: status.to_string(),
    };
    let outcome = run
        .waited(Some(exit))
        .and_then(|run| run.stdout_read(Ok(stdout.to_string())))
        .and_then(|run| run.stderr_read(Ok(stderr.to_string())));
    tool_call_response(action, outcome)
}

fn only_text(result: &CallToolResult) -> String {
    match &result.content[..] {
        [content] => {
            assert_eq!(content.kind, "text");
            content.text.clone()
        }
        other => panic!("unexpected content: {other:?}"),
    }
}

/// Feeds lines to a stream, and gives its notifications and its output.
fn drained(
    request_id: &RequestId,
    stream: &str,
    printed: &[&str],
) -> (Vec<OutgoingNotification>, String) {
    let mut drain = StreamDrain::new(request_id, stream);
    let mut notifications = Vec::new();
    for line in printed {
        if let Some(notification) = drain.line(line.to_string()) {
            notifications.push(notification);
        }
    }
    (notifications, drain.finish())
}

#[test]
fn tools_list_includes_gravity_sketch() {
    let schema = Value::Object(serde_json::Map::new());
    let tools = vec![create_tool_for_gravity_sketch(schema.clone())];
    assert!(
        tools.iter().any(|tool| tool.name == "gravity-sketch"),
        "tools/list should advertise gravity-sketch"
    );
    assert_eq!(tools[0].title, Some("Gravity Sketch".to_string()));
    assert_eq!(
        tools[0].description,
        Some("Control a local Gravity Sketch instance via its command line interface.".to_string())
    );
    assert_eq!(tools[0].input_schema, schema);
    assert_eq!(tools[0].output_schema, None);
}

#[test]
fn gravity_sketch_tool_success() {
    let mut payload = serde_json::Map::new();
    payload.insert("sync".to_string(), Value::Bool(true));
    let params = GravitySketchToolCallParam {
        action: GravitySketchAction::Launch,
        host: Some("127.0.0.1".to_string()),
        port: Some(7000),
        token: Some("override-token".to_string()),
        project_id: None,
        scene_id: None,
        export_path: None,
        import_path: None,
        extra_args: Vec::new(),
        payload: Some(Value::Object(payload)),
        cli_path: None,
        env: Vec::new(),
    };
    let params = match handle_tool_call_gravity_sketch(Some(Ok(params))) {
        ToolCallStep::Run(params) => params,
        ToolCallStep::Respond(result) => panic!("unexpected response: {result:?}"),
    };
    let run = started(&params, Some("/tmp/mock_gravity_sketch.sh"));
    assert_eq!(run.plan.program, PathBuf::from("/tmp/mock_gravity_sketch.sh"));
    assert_eq!(
        args(&run.plan),
        vec!["--host", "127.0.0.1", "--port", "7000", "launch", "--payload", "{\"sync\":true}"]
    );
    assert_eq!(
        env(&run.plan),
        vec![("GRAVITY_SKETCH_TOKEN".to_string(), "override-token".to_string())]
    );

    let request_id = RequestId::Integer(1);
    let (notifications, stdout) = drained(
        &request_id,
        "stdout",
        &[
            "launch:starting",
            "{\"status\":\"ok\",\"action\":\"launch\",\"token\":\"override-token\"}",
        ],
    );
    let (more, stderr) = drained(
        &request_id,
        "stderr",
        &["connecting to Gravity Sketch on 127.0.0.1:7000..."],
    );
    let notification = &notifications[0];
    assert_eq!(notification.method, "gravity-sketch/event");
    assert_eq!(
        notification.event.kind, "stream",
        "stream notification should set type=stream"
    );
    assert_eq!(notifications.len(), 2);
    assert_eq!(more.len(), 1);

    let outcome = reading(run)
        .waited(Some(ExitReport {
            success: true,
            code: Some(0),
            status: "exit status: 0".to_string(),
        }))
        .and_then(|run| run.stdout_read(Ok(stdout)))
        .and_then(|run| run.stderr_read(Ok(stderr)));
    let result = tool_call_response(params.action, outcome);
    assert_eq!(result.is_error, Some(false));
    let text = only_text(&result);
    assert!(
        text.contains("\"status\":\"ok\""),
        "stdout summary should include success payload"
    );
    let structured = match result.structured_content {
        Some(structured) => structured,
        None => panic!("structured_content should be populated"),
    };
    assert_eq!(structured.success, true);
    assert!(
        structured.stdout.contains("launch:starting"),
        "stdout should capture CLI progress"
    );
    assert!(
        structured.stderr.contains("connecting to Gravity Sketch"),
        "stderr should report connection progress"
    );
}

#[test]
fn gravity_sketch_tool_failure() {
    let params = GravitySketchToolCallParam {
        action: GravitySketchAction::ExportScene,
        host: None,
        port: None,
        token: None,
        project_id: Some("studio".to_string()),
        scene_id: Some("scene-42".to_string()),
        export_path: Some(PathBuf::from("/tmp/home").join("scene.usdz")),
        import_path: None,
        extra_args: Vec::new(),
        payload: None,
        cli_path: None,
        env: vec![("EXTRA_MODE".to_string(), "test".to_string())],
    };
    let run = started(&params, Some("/tmp/mock_gravity_sketch.sh"));
    assert_eq!(
        args(&run.plan),
        vec![
            "--host", "127.0.0.1", "--project-id", "studio", "export-scene", "--scene-id",
            "scene-42", "--output", "/tmp/home/scene.usdz"
        ]
    );
    assert_eq!(
        env(&run.plan),
        vec![("EXTRA_MODE".to_string(), "test".to_string())]
    );
    let (notifications, stderr) = drained(
        &RequestId::Integer(2),
        "stderr",
        &["export failed: missing license (test) for scene-42 -> /tmp/home/scene.usdz"],
    );
    assert_eq!(notifications[0].method, "gravity-sketch/event");
    let outcome = reading(run)
        .waited(Some(ExitReport {
            success: false,
            code: Some(2),
            status: "exit status: 2".to_string(),
        }))
        .and_then(|run| run.stdout_read(Ok(String::new())))
        .and_then(|run| run.stderr_read(Ok(stderr)));
    let result = tool_call_response(params.action, outcome);
    assert_eq!(result.is_error, Some(true));
    let message = only_text(&result);
    assert!(message.contains("failed with status"));
    let structured = match result.structured_content {
        Some(structured) => structured,
        None => panic!("structured_content should be populated"),
    };
    assert_eq!(structured.success, false);
    assert_eq!(structured.status_code, Some(2));
    assert!(
        structured.stderr.contains("missing license (test)"),
        "stderr should include the CLI failure message"
    );
}

#[test]
fn display_names_are_kebab_case() {
    let names: Vec<&str> = [
        GravitySketchAction::Launch,
        GravitySketchAction::OpenScene,
        GravitySketchAction::ExportScene,
        GravitySketchAction::ImportAsset,
        GravitySketchAction::CustomCommand,
    ]
    .iter()
    .map(|action| action.as_display_name())
    .collect();
    assert_eq!(
        names,
        vec!["launch", "open-scene", "export-scene", "import-asset", "custom-command"]
    );
}

#[test]
fn executable_is_given_configured_or_default() {
    let mut params = params(GravitySketchAction::Launch);
    assert_eq!(
        params.resolve_cli_path(None),
        PathBuf::from("gravity-sketch-cli")
    );
    assert_eq!(DEFAULT_GRAVITY_SKETCH_CLI, "gravity-sketch-cli");
    assert_eq!(
        params.resolve_cli_path(Some(String::new())),
        PathBuf::from("gravity-sketch-cli")
    );
    assert_eq!(
        params.resolve_cli_path(Some("/opt/gs".to_string())),
        PathBuf::from("/opt/gs")
    );
    params.cli_path = Some(PathBuf::from("/own/gs"));
    assert_eq!(
        params.resolve_cli_path(Some("/opt/gs".to_string())),
        PathBuf::from("/own/gs")
    );
}

#[test]
fn options_stand_before_the_action() {
    let mut params = params(GravitySketchAction::OpenScene);
    params.host = Some("h".to_string());
    params.port = Some(0);
    params.project_id = Some("p".to_string());
    params.scene_id = Some("s".to_string());
    params.payload = Some(Value::Array(vec![Value::Null, Value::from(3)]));
    let plan = command(&params);
    assert_eq!(plan.program, PathBuf::from("cli"));
    assert_eq!(plan.stdin, StreamMode::Null);
    assert_eq!(plan.stdout, StreamMode::Piped);
    assert_eq!(plan.stderr, StreamMode::Piped);
    assert_eq!(
        args(&plan),
        vec![
            "--host", "h", "--port", "0", "--project-id", "p", "open-scene", "--scene-id", "s",
            "--payload", "[null,3]"
        ]
    );
}

#[test]
fn import_names_the_path() {
    let mut params = params(GravitySketchAction::ImportAsset);
    params.import_path = Some(PathBuf::from("/a/b.obj"));
    let plan = command(&params);
    assert_eq!(
        args(&plan),
        vec!["--host", "127.0.0.1", "import-asset", "/a/b.obj"]
    );
    assert!(matches!(&plan.args[3], ProcessText::Path(_)));
}

#[test]
fn host_defaults_to_this_machine() {
    let mut params = params(GravitySketchAction::Launch);
    assert_eq!(DEFAULT_GRAVITY_SKETCH_HOST, "127.0.0.1");
    assert_eq!(args(&command(&params)), vec!["--host", "127.0.0.1", "launch"]);
    params.host = Some("h".to_string());
    assert_eq!(args(&command(&params)), vec!["--host", "h", "launch"]);
    params.host = Some(String::new());
    assert_eq!(args(&command(&params)), vec!["--host", "", "launch"]);
}

#[test]
fn extra_arguments_follow_every_action() {
    for (action, words) in [
        (GravitySketchAction::Launch, vec!["launch"]),
        (GravitySketchAction::OpenScene, vec!["open-scene", "--scene-id", "s"]),
        (
            GravitySketchAction::ExportScene,
            vec!["export-scene", "--scene-id", "s", "--output", "/out"],
        ),
        (GravitySketchAction::ImportAsset, vec!["import-asset", "/in"]),
        (GravitySketchAction::CustomCommand, vec!["run"]),
    ] {
        let mut params = params(action);
        params.host = Some("h".to_string());
        params.scene_id = Some("s".to_string());
        params.export_path = Some(PathBuf::from("/out"));
        params.import_path = Some(PathBuf::from("/in"));
        params.extra_args = vec!["--fullscreen".to_string(), "x y".to_string()];
        let mut expected = vec!["--host", "h"];
        expected.extend(words);
        expected.extend(["--fullscreen", "x y"]);
        assert_eq!(args(&command(&params)), expected);
        params.payload = Some(Value::Bool(false));
        expected.extend(["--payload", "false"]);
        assert_eq!(args(&command(&params)), expected);
    }
}

#[test]
fn custom_command_takes_extra_arguments() {
    let mut params = params(GravitySketchAction::CustomCommand);
    params.extra_args = vec!["sub".to_string(), "--flag".to_string(), String::new()];
    params.payload = Some(Value::String("x".to_string()));
    assert_eq!(
        args(&command(&params)),
        vec![
            "--host", "127.0.0.1", "run", "sub", "--flag", "", "--payload", "\"x\""
        ]
    );
}

#[test]
fn missing_parameters_are_named() {
    assert_eq!(
        refusal(&params(GravitySketchAction::OpenScene)),
        "`scene_id` is required for the open-scene action"
    );
    let mut export = params(GravitySketchAction::ExportScene);
    assert_eq!(
        refusal(&export),
        "`scene_id` is required for the export-scene action"
    );
    export.scene_id = Some("s".to_string());
    assert_eq!(
        refusal(&export),
        "`export_path` is required for the export-scene action"
    );
    assert_eq!(
        refusal(&params(GravitySketchAction::ImportAsset)),
        "`import_path` is required for the import-asset action"
    );
    assert_eq!(
        refusal(&params(GravitySketchAction::CustomCommand)),
        "`extra_args` must contain at least one argument for the custom-command action"
    );
}

#[test]
fn payload_error_says_what_json_says() {
    let error = match serde_json::from_str::<Value>("{") {
        Err(error) => error,
        Ok(value) => panic!("unexpected value: {value:?}"),
    };
    let said = error.to_string();
    let error = CommandError::Payload(error);
    assert_eq!(error.message(), said);
    assert_eq!(RunError::Command(error).message(), said);
}

#[test]
fn token_is_set_before_the_other_variables() {
    let mut params = params(GravitySketchAction::Launch);
    params.token = Some("t".to_string());
    params.env = vec![
        ("B".to_string(), "2".to_string()),
        ("GRAVITY_SKETCH_TOKEN".to_string(), "other".to_string()),
    ];
    assert_eq!(
        env(&command(&params)),
        vec![
            ("GRAVITY_SKETCH_TOKEN".to_string(), "t".to_string()),
            ("B".to_string(), "2".to_string()),
            ("GRAVITY_SKETCH_TOKEN".to_string(), "other".to_string()),
        ]
    );
}

/// The environment of a process that inherits one variable.
fn environment(plan: &ProcessPlan) -> std::collections::BTreeMap<String, String> {
    let mut all = std::collections::BTreeMap::new();
    all.insert("GRAVITY_SKETCH_TOKEN".to_string(), "env-token".to_string());
    all.extend(env(plan));
    all
}

#[test]
fn token_of_the_call_beats_the_inherited_one() {
    let mut params = params(GravitySketchAction::Launch);
    let token = |plan: &ProcessPlan| environment(plan)["GRAVITY_SKETCH_TOKEN"].clone();
    assert_eq!(token(&command(&params)), "env-token");
    params.token = Some("override-token".to_string());
    assert_eq!(token(&command(&params)), "override-token");
    params.env = vec![("GRAVITY_SKETCH_TOKEN".to_string(), "explicit".to_string())];
    assert_eq!(token(&command(&params)), "explicit");
}

#[test]
fn order_of_variables_makes_no_difference() {
    let mut params = params(GravitySketchAction::Launch);
    params.token = Some("t".to_string());
    params.env = vec![
        ("A".to_string(), "1".to_string()),
        ("B".to_string(), "2".to_string()),
        ("GRAVITY_SKETCH_TOKEN".to_string(), "x".to_string()),
    ];
    let forward = environment(&command(&params));
    params.env.reverse();
    assert_eq!(environment(&command(&params)), forward);
    assert_eq!(forward["A"], "1");
    assert_eq!(forward["B"], "2");
}

#[test]
fn missing_arguments_are_refused() {
    match handle_tool_call_gravity_sketch(None) {
        ToolCallStep::Respond(result) => {
            assert_eq!(
                only_text(&result),
                "Missing arguments for gravity-sketch tool-call."
            );
            assert_eq!(result.is_error, Some(true));
            assert!(result.structured_content.is_none());
        }
        other => panic!("unexpected step: {other:?}"),
    }
}

#[test]
fn other_arguments_are_refused() {
    match handle_tool_call_gravity_sketch(Some(Err("missing field `action`".to_string()))) {
        ToolCallStep::Respond(result) => {
            assert_eq!(
                only_text(&result),
                "Failed to parse configuration for gravity-sketch tool: missing field `action`"
            );
            assert_eq!(result.is_error, Some(true));
            assert!(result.structured_content.is_none());
        }
        other => panic!("unexpected step: {other:?}"),
    }
}

#[test]
fn quiet_success_is_summed_up() {
    let result = ended(GravitySketchAction::ImportAsset, true, Some(0), "x", " \n\t", "noise");
    assert_eq!(
        only_text(&result),
        "Gravity Sketch action import-asset completed successfully."
    );
    assert_eq!(result.is_error, Some(false));
    match result.structured_content {
        Some(structured) => {
            assert_eq!(structured.action, "import-asset");
            assert_eq!(structured.stdout, " \n\t");
            assert_eq!(structured.stderr, "noise");
        }
        None => panic!("no structured content"),
    }
}

#[test]
fn failure_shows_stderr_before_stdout() {
    let action = GravitySketchAction::Launch;
    assert_eq!(
        only_text(&ended(action, false, Some(1), "exit status: 1", "out", "err")),
        "Gravity Sketch action launch failed with status exit status: 1.\nstderr:\nerr"
    );
    assert_eq!(
        only_text(&ended(action, false, Some(1), "exit status: 1", "out", "\n")),
        "Gravity Sketch action launch failed with status exit status: 1.\nstdout:\nout"
    );
    let killed = ended(action, false, None, "signal: 9 (SIGKILL)", "", "");
    assert_eq!(
        only_text(&killed),
        "Gravity Sketch action launch failed with status signal: 9 (SIGKILL)."
    );
    assert_eq!(killed.structured_content.map(|s| s.status_code), Some(None));
}

#[test]
fn broken_runs_are_reported() {
    let action = GravitySketchAction::CustomCommand;
    let prefix = "Failed to execute gravity-sketch action custom-command: ";
    let spawn = started(&params(GravitySketchAction::Launch), None)
        .spawned(false);
    let spawn = match spawn {
        Err(error) => error,
        Ok(run) => panic!("unexpected run: {run:?}"),
    };
    let mut errors = vec![(
        spawn,
        "failed to spawn Gravity Sketch CLI at \"gravity-sketch-cli\"",
    )];
    for (stdout, stderr, said) in [
        (false, true, "failed to capture stdout from Gravity Sketch CLI"),
        (false, false, "failed to capture stdout from Gravity Sketch CLI"),
        (true, false, "failed to capture stderr from Gravity Sketch CLI"),
    ] {
        let run = started(&params(GravitySketchAction::Launch), None).spawned(true);
        match run.and_then(|run| run.captured(stdout, stderr)) {
            Err(error) => errors.push((error, said)),
            Ok(run) => panic!("unexpected run: {run:?}"),
        }
    }
    match (ReadingRun { action }).waited(None) {
        Err(error) => errors.push((error, "failed to wait for Gravity Sketch CLI")),
        Ok(run) => panic!("unexpected run: {run:?}"),
    }
    let exit = || {
        Some(ExitReport {
            success: true,
            code: Some(0),
            status: String::new(),
        })
    };
    match (ReadingRun { action })
        .waited(exit())
        .and_then(|run| run.stdout_read(Err("stream broke".to_string())))
    {
        Err(error) => errors.push((error, "stream broke")),
        Ok(run) => panic!("unexpected run: {run:?}"),
    }
    match (ReadingRun { action })
        .waited(exit())
        .and_then(|run| run.stdout_read(Ok(String::new())))
        .and_then(|run| run.stderr_read(Err("other stream broke".to_string())))
    {
        Err(error) => errors.push((error, "other stream broke")),
        Ok(result) => panic!("unexpected result: {result:?}"),
    }
    match run_gravity_sketch(&params(action), None) {
        Err(error) => errors.push((
            error,
            "`extra_args` must contain at least one argument for the custom-command action",
        )),
        Ok(run) => panic!("unexpected run: {run:?}"),
    }
    for (error, said) in errors {
        assert_eq!(error.message(), said);
        let response = tool_call_response(action, Err(error));
        assert_eq!(only_text(&response), format!("{prefix}{said}"));
        assert_eq!(response.is_error, Some(true));
        assert!(response.structured_content.is_none());
    }
}

#[test]
fn empty_lines_are_kept_but_not_told_of() {
    let request_id = RequestId::Text("r".to_string());
    let (notifications, output) = drained(&request_id, "stderr", &["", "a", "", " "]);
    let told: Vec<&str> = notifications
        .iter()
        .map(|notification| notification.event.line.as_str())
        .collect();
    assert_eq!(told, vec!["a", " "]);
    assert_eq!(output, "\na\n\n ");
    assert!(notifications.iter().all(|n| n.event.stream == "stderr"
        && matches!(&n.request_id, RequestId::Text(text) if text == "r")));
    assert_eq!(drained(&request_id, "stdout", &[]).1, "");
    assert_eq!(
        decode_lines(format!("{output}\n").as_bytes()),
        vec!["", "a", "", " "]
    );
}

#[test]
fn notification_names_request_stream_and_line() {
    let notification = stream_notification(&RequestId::Integer(7), "stdout", "hello");
    assert_eq!(notification.method, "gravity-sketch/event");
    assert!(matches!(notification.request_id, RequestId::Integer(7)));
    assert_eq!(notification.event.kind, "stream");
    assert_eq!(notification.event.stream, "stdout");
    assert_eq!(notification.event.line, "hello");
}

#[test]
fn payload_is_read_back_from_the_command_line() {
    let mut object = serde_json::Map::new();
    object.insert("a \"quoted\" key\n".to_string(), Value::from(u64::MAX));
    object.insert("é\u{1f600}\u{0}".to_string(), Value::from(i64::MIN));
    object.insert(String::new(), Value::Array(vec![Value::Null, Value::Bool(true)]));
    let mut deep = Value::from(1);
    for _ in 0..127 {
        deep = Value::Array(vec![deep]);
    }
    let mut payloads = vec![Value::Object(object), Value::String("x".to_string()), deep.clone()];
    for number in [0.1, -0.0, 1.0, 1e16, 2.0_f64.powi(70), f64::MAX, f64::MIN_POSITIVE, 5e-324] {
        payloads.push(Value::from(number));
    }
    // Numbers that are easily read with an error in the last place.
    for i in 1..2000u64 {
        let bits = 0x3ff0_0000_0000_0000 + i * 0x0007_1234_5678_9abd;
        payloads.push(Value::from(f64::from_bits(bits)));
    }
    for payload in payloads {
        let mut params = params(GravitySketchAction::Launch);
        params.payload = Some(payload.clone());
        let args = args(&command(&params));
        assert_eq!(args[args.len() - 2], "--payload");
        let read = read_payload(&args[args.len() - 1]);
        assert_eq!(format!("{read:?}"), format!("{:?}", Some(payload)));
    }
    let mut params = params(GravitySketchAction::Launch);
    params.payload = Some(Value::Array(vec![deep]));
    let args = args(&command(&params));
    assert_eq!(read_payload(&args[args.len() - 1]), None);
    assert_eq!(read_payload("{"), None);
}
