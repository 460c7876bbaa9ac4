//! The `gravity-sketch` tool: its parameters and the command line they stand for.
use crate::external::{
    json_from_str, json_text, json_to_string, json_value, path_from, path_of,
};
use crate::process::{
    argument_views, names_differ, push_path, push_text, setting_views, text_arguments,
    text_settings, ProcessPlan, ProcessText, ProcessTextView,
};
use crate::text::{decimal, decimal_text, option_text, pair_texts, texts};
use vstd::prelude::*;
use vstd::string::*;

verus! {

/// The command that is run when no other is named.
pub const DEFAULT_GRAVITY_SKETCH_CLI: &'static str = "gravity-sketch-cli";

/// The host that is addressed when no other is named.
pub const DEFAULT_GRAVITY_SKETCH_HOST: &'static str = "127.0.0.1";

/// What Gravity Sketch can be asked to do.
#[derive(Debug, Clone, Copy, PartialEq, Eq, Structural)]
pub enum GravitySketchAction {
    /// Launch or focus the application.
    Launch,
    /// Open an existing scene by id.
    OpenScene,
    /// Export the active scene to a local file.
    ExportScene,
    /// Import an asset or scene file.
    ImportAsset,
    /// Execute a custom subcommand with additional arguments.
    CustomCommand,
}

/// The name of an action.
pub open spec fn display_name(action: GravitySketchAction) -> Seq<char> {
    match action {
        GravitySketchAction::Launch => "launch"@,
        GravitySketchAction::OpenScene => "open-scene"@,
        GravitySketchAction::ExportScene => "export-scene"@,
        GravitySketchAction::ImportAsset => "import-asset"@,
        GravitySketchAction::CustomCommand => "custom-command"@,
    }
}

impl GravitySketchAction {
    /// The name of the action.
    pub fn as_display_name(&self) -> (name: &'static str)
        ensures
            name@ == display_name(*self),
    {
        match self {
            GravitySketchAction::Launch => "launch",
            GravitySketchAction::OpenScene => "open-scene",
            GravitySketchAction::ExportScene => "export-scene",
            GravitySketchAction::ImportAsset => "import-asset",
            GravitySketchAction::CustomCommand => "custom-command",
        }
    }
}

/// Parameters of the tool.
#[derive(Debug, Clone)]
pub struct GravitySketchToolCallParam {
    /// Action to execute.
    pub action: GravitySketchAction,
    /// Gravity Sketch host. Defaults to `127.0.0.1` when omitted.
    pub host: Option<String>,
    /// Gravity Sketch API port. Defaults to that of the command line when omitted.
    pub port: Option<u16>,
    /// Authentication token, handed over as `GRAVITY_SKETCH_TOKEN`.
    pub token: Option<String>,
    /// Project identifier used by some commands.
    pub project_id: Option<String>,
    /// Scene identifier to open or to export.
    pub scene_id: Option<String>,
    /// Local file to export a scene to.
    pub export_path: Option<std::path::PathBuf>,
    /// Local path of an asset or scene to import.
    pub import_path: Option<std::path::PathBuf>,
    /// Extra arguments appended after the action.
    pub extra_args: Vec<String>,
    /// JSON forwarded as `--payload`.
    pub payload: Option<serde_json::Value>,
    /// The executable to run.
    pub cli_path: Option<std::path::PathBuf>,
    /// Additional environment variables, each name once.
    pub env: Vec<(String, String)>,
}

/// Why parameters do not make a command line.
#[derive(Debug)]
pub enum CommandError {
    OpenWithoutSceneId,
    ExportWithoutSceneId,
    ExportWithoutPath,
    ImportWithoutPath,
    CustomWithoutArguments,
    /// What `serde_json` says of a payload that it does not write. It writes every JSON value.
    Payload(serde_json::Error),
}

impl CommandError {
    /// Whether a text says what is wrong.
    pub open spec fn says(self, message: String) -> bool {
        match self {
            CommandError::OpenWithoutSceneId => message@
                == "`scene_id` is required for the open-scene action"@,
            CommandError::ExportWithoutSceneId => message@
                == "`scene_id` is required for the export-scene action"@,
            CommandError::ExportWithoutPath => message@
                == "`export_path` is required for the export-scene action"@,
            CommandError::ImportWithoutPath => message@
                == "`import_path` is required for the import-asset action"@,
            CommandError::CustomWithoutArguments => message@
                == "`extra_args` must contain at least one argument for the custom-command action"@,
            CommandError::Payload(error) => to_string_from_display_ensures::<serde_json::Error>(
                &error,
                message,
            ),
        }
    }

    /// Says what is wrong.
    pub fn message(&self) -> (message: String)
        ensures
            self.says(message),
    {
        match self {
            CommandError::OpenWithoutSceneId =>
                "`scene_id` is required for the open-scene action".to_owned(),
            CommandError::ExportWithoutSceneId =>
                "`scene_id` is required for the export-scene action".to_owned(),
            CommandError::ExportWithoutPath =>
                "`export_path` is required for the export-scene action".to_owned(),
            CommandError::ImportWithoutPath =>
                "`import_path` is required for the import-asset action".to_owned(),
            CommandError::CustomWithoutArguments =>
                "`extra_args` must contain at least one argument for the custom-command action"
                    .to_owned(),
            CommandError::Payload(error) => error.to_string(),
        }
    }
}

/// An option of the command line and its value; nothing where there is no value.
pub open spec fn option_arguments(name: Seq<char>, value: Option<Seq<char>>) -> Seq<
    ProcessTextView,
> {
    match value {
        Some(text) => seq![ProcessTextView::Text(name), ProcessTextView::Text(text)],
        None => seq![],
    }
}

/// Whether a command line ends with a payload, as a text from which nothing but this payload can
/// be read.
pub open spec fn hands_over(args: Seq<ProcessTextView>, payload: serde_json::Value) -> bool {
    &&& args.len() >= 2
    &&& args[args.len() - 2] == ProcessTextView::Text("--payload"@)
    &&& args.last() == ProcessTextView::Text(json_text(payload))
    &&& json_value(json_text(payload)) matches Some(read) ==> read == payload
}

/// Reads a payload as the program does that it is handed over to.
pub fn read_payload(text: &str) -> (payload: Option<serde_json::Value>)
    ensures
        payload == json_value(text@),
{
    match json_from_str(text) {
        Ok(payload) => Some(payload),
        Err(_) => None,
    }
}

impl GravitySketchToolCallParam {
    /// Each additional environment variable is named once.
    pub open spec fn well_formed(self) -> bool {
        names_differ(pair_texts(self.env@))
    }

    /// The host to address.
    pub open spec fn addressed_host(self) -> Seq<char> {
        match self.host {
            Some(host) => host@,
            None => DEFAULT_GRAVITY_SKETCH_HOST@,
        }
    }

    /// The options that stand before the action.
    pub open spec fn leading_arguments(self) -> Seq<ProcessTextView> {
        option_arguments("--host"@, Some(self.addressed_host())) + option_arguments(
            "--port"@,
            match self.port {
                Some(port) => Some(decimal(port as nat)),
                None => None,
            },
        ) + option_arguments("--project-id"@, option_text(self.project_id))
    }

    /// Why the action cannot be executed for want of a parameter, if so.
    pub open spec fn lacks(self) -> Option<CommandError> {
        match self.action {
            GravitySketchAction::Launch => None,
            GravitySketchAction::OpenScene => if self.scene_id is None {
                Some(CommandError::OpenWithoutSceneId)
            } else {
                None
            },
            GravitySketchAction::ExportScene => if self.scene_id is None {
                Some(CommandError::ExportWithoutSceneId)
            } else if self.export_path is None {
                Some(CommandError::ExportWithoutPath)
            } else {
                None
            },
            GravitySketchAction::ImportAsset => if self.import_path is None {
                Some(CommandError::ImportWithoutPath)
            } else {
                None
            },
            GravitySketchAction::CustomCommand => if self.extra_args@.len() == 0 {
                Some(CommandError::CustomWithoutArguments)
            } else {
                None
            },
        }
    }

    /// The action and what it works on, where it lacks nothing.
    pub open spec fn action_arguments(self) -> Seq<ProcessTextView> {
        match self.action {
            GravitySketchAction::Launch => seq![ProcessTextView::Text("launch"@)],
            GravitySketchAction::OpenScene => seq![
                ProcessTextView::Text("open-scene"@),
                ProcessTextView::Text("--scene-id"@),
                ProcessTextView::Text(self.scene_id->0@),
            ],
            GravitySketchAction::ExportScene => seq![
                ProcessTextView::Text("export-scene"@),
                ProcessTextView::Text("--scene-id"@),
                ProcessTextView::Text(self.scene_id->0@),
                ProcessTextView::Text("--output"@),
                ProcessTextView::Path(self.export_path->0),
            ],
            GravitySketchAction::ImportAsset => seq![
                ProcessTextView::Text("import-asset"@),
                ProcessTextView::Path(self.import_path->0),
            ],
            GravitySketchAction::CustomCommand => seq![ProcessTextView::Text("run"@)],
        }
    }

    /// The JSON text of the payload; `None` where there is no payload.
    pub open spec fn payload_text(self) -> Option<Seq<char>> {
        match self.payload {
            Some(value) => Some(json_text(value)),
            None => None,
        }
    }

    /// The whole command line, where the parameters make one.
    pub open spec fn arguments(self) -> Seq<ProcessTextView> {
        self.leading_arguments() + self.action_arguments() + text_arguments(
            texts(self.extra_args@),
        ) + option_arguments("--payload"@, self.payload_text())
    }

    /// The environment variables to set, in order.
    pub open spec fn settings(self) -> Seq<(Seq<char>, ProcessTextView)> {
        let token = match self.token {
            Some(text) => seq![("GRAVITY_SKETCH_TOKEN"@, ProcessTextView::Text(text@))],
            None => seq![],
        };
        token + text_settings(pair_texts(self.env@))
    }

    /// The executable to run.
    pub open spec fn program(self, configured: Option<String>) -> std::path::PathBuf {
        match self.cli_path {
            Some(path) => path,
            None => match configured {
                Some(text) if text@.len() > 0 => path_of(text@),
                _ => path_of(DEFAULT_GRAVITY_SKETCH_CLI@),
            },
        }
    }

    /// The executable to run. `configured` is the value of `GRAVITY_SKETCH_CLI`.
    pub fn resolve_cli_path(&self, configured: Option<String>) -> (path: std::path::PathBuf)
        ensures
            path == self.program(configured),
            self.cli_path matches Some(named) ==> path == named,
    {
        if let Some(path) = &self.cli_path {
            return path.clone();
        }
        match configured {
            Some(text) if !text.as_str().is_empty() => path_from(text),
            _ => path_from(DEFAULT_GRAVITY_SKETCH_CLI.to_owned()),
        }
    }

    fn push_action(&self, args: &mut Vec<ProcessText>) -> (done: Result<(), CommandError>)
        ensures
            match self.lacks() {
                Some(error) => done == Err::<(), _>(error),
                None => done is Ok && argument_views(final(args)@) == argument_views(old(args)@)
                    + self.action_arguments(),
            },
    {
        let ghost before = argument_views(args@);
        match self.action {
            GravitySketchAction::Launch => {
                push_text(args, "launch");
            },
            GravitySketchAction::OpenScene => {
                match &self.scene_id {
                    Some(scene_id) => {
                        push_text(args, "open-scene");
                        push_text(args, "--scene-id");
                        push_text(args, scene_id.as_str());
                    },
                    None => {
                        return Err(CommandError::OpenWithoutSceneId);
                    },
                }
            },
            GravitySketchAction::ExportScene => {
                match (&self.scene_id, &self.export_path) {
                    (Some(scene_id), Some(export_path)) => {
                        push_text(args, "export-scene");
                        push_text(args, "--scene-id");
                        push_text(args, scene_id.as_str());
                        push_text(args, "--output");
                        push_path(args, export_path);
                    },
                    (None, _) => {
                        return Err(CommandError::ExportWithoutSceneId);
                    },
                    (_, None) => {
                        return Err(CommandError::ExportWithoutPath);
                    },
                }
            },
            GravitySketchAction::ImportAsset => {
                match &self.import_path {
                    Some(import_path) => {
                        push_text(args, "import-asset");
                        push_path(args, import_path);
                    },
                    None => {
                        return Err(CommandError::ImportWithoutPath);
                    },
                }
            },
            GravitySketchAction::CustomCommand => {
                if self.extra_args.len() == 0 {
                    return Err(CommandError::CustomWithoutArguments);
                }
                push_text(args, "run");
            },
        }
        assert(argument_views(args@) =~= before + self.action_arguments());
        Ok(())
    }

    fn push_extra(&self, args: &mut Vec<ProcessText>)
        ensures
            argument_views(final(args)@) == argument_views(old(args)@) + text_arguments(
                texts(self.extra_args@),
            ),
    {
        let ghost before = argument_views(args@);
        let ghost extra = text_arguments(texts(self.extra_args@));
        let mut i: usize = 0;
        while i < self.extra_args.len()
            invariant
                i <= self.extra_args@.len(),
                extra == text_arguments(texts(self.extra_args@)),
                argument_views(args@) == before + extra.take(i as int),
            decreases self.extra_args@.len() - i,
        {
            push_text(args, self.extra_args[i].as_str());
            assert(extra.take(i + 1) == extra.take(i as int).push(extra[i as int]));
            i = i + 1;
        }
        assert(extra.take(i as int) == extra);
    }

    /// The process that executes the action.
    pub fn configure_command(&self, program: std::path::PathBuf) -> (plan: Result<
        ProcessPlan,
        CommandError,
    >)
        ensures
            match self.lacks() {
                Some(error) => plan == Err::<ProcessPlan, _>(error),
                None => {
                    &&& plan is Ok
                    &&& plan->Ok_0.program == program
                    &&& argument_views(plan->Ok_0.args@) == self.arguments()
                    &&& setting_views(plan->Ok_0.env@) == self.settings()
                    &&& plan->Ok_0.is_listened_to()
                    &&& self.payload matches Some(payload) ==> hands_over(
                        argument_views(plan->Ok_0.args@),
                        payload,
                    )
                },
            },
    {
        let mut args: Vec<ProcessText> = Vec::new();
        push_text(&mut args, "--host");
        match &self.host {
            Some(host) => push_text(&mut args, host.as_str()),
            None => push_text(&mut args, DEFAULT_GRAVITY_SKETCH_HOST),
        }
        if let Some(port) = self.port {
            push_text(&mut args, "--port");
            push_text(&mut args, decimal_text(port as u64).as_str());
        }
        if let Some(project_id) = &self.project_id {
            push_text(&mut args, "--project-id");
            push_text(&mut args, project_id.as_str());
        }
        assert(argument_views(args@) =~= self.leading_arguments());
        let env = self.environment_settings();
        match self.push_action(&mut args) {
            Ok(_) => {},
            Err(error) => {
                return Err(error);
            },
        }
        self.push_extra(&mut args);
        if let Some(payload) = &self.payload {
            let text = match json_to_string(payload) {
                Ok(text) => text,
                Err(error) => {
                    return Err(CommandError::Payload(error));
                },
            };
            push_text(&mut args, "--payload");
            push_text(&mut args, text.as_str());
        }
        assert(argument_views(args@) =~= self.arguments());
        Ok(ProcessPlan::listened_to(program, args, env))
    }

    fn environment_settings(&self) -> (env: Vec<(String, ProcessText)>)
        ensures
            setting_views(env@) == self.settings(),
    {
        let mut env: Vec<(String, ProcessText)> = Vec::new();
        if let Some(token) = &self.token {
            env.push(("GRAVITY_SKETCH_TOKEN".to_owned(), ProcessText::Text(token.clone())));
        }
        let ghost start = setting_views(env@);
        let ghost more = text_settings(pair_texts(self.env@));
        assert(start + more =~= self.settings());
        let mut i: usize = 0;
        while i < self.env.len()
            invariant
                i <= self.env@.len(),
                more == text_settings(pair_texts(self.env@)),
                setting_views(env@) == start + more.take(i as int),
            decreases self.env@.len() - i,
        {
            let ghost before = setting_views(env@);
            env.push((self.env[i].0.clone(), ProcessText::Text(self.env[i].1.clone())));
            assert(setting_views(env@) =~= before.push(more[i as int]));
            assert(more.take(i + 1) == more.take(i as int).push(more[i as int]));
            i = i + 1;
        }
        assert(more.take(i as int) == more);
        env
    }
}

} // verus!
