//! Calls of the `gravity-sketch` tool, from the request to the result.
//!
//! Each step of a run takes the outcome of the work that the step before asked for.
use crate::external::{path_debug, path_debug_text};
use crate::gravity_sketch::{
    display_name, hands_over, CommandError, GravitySketchAction, GravitySketchToolCallParam,
};
use crate::process::{argument_views, setting_views, ProcessPlan};
use crate::text::{followed_by, trim, trimmed};
use vstd::prelude::*;
use vstd::string::*;

verus! {

/// A tool that a server offers.
#[derive(Debug)]
pub struct Tool {
    pub name: String,
    pub title: Option<String>,
    pub description: Option<String>,
    pub input_schema: serde_json::Value,
    pub output_schema: Option<serde_json::Value>,
}

/// The `gravity-sketch` tool, whose parameters have this schema.
pub fn create_tool_for_gravity_sketch(input_schema: serde_json::Value) -> (tool: Tool)
    ensures
        tool.name@ == "gravity-sketch"@,
        tool.title matches Some(title) && title@ == "Gravity Sketch"@,
        tool.description matches Some(description) && description@
            == "Control a local Gravity Sketch instance via its command line interface."@,
        tool.input_schema == input_schema,
        tool.output_schema is None,
{
    Tool {
        name: "gravity-sketch".to_owned(),
        title: Some("Gravity Sketch".to_owned()),
        description: Some(
            "Control a local Gravity Sketch instance via its command line interface.".to_owned(),
        ),
        input_schema,
        output_schema: None,
    }
}

/// A part of a result.
#[derive(Debug)]
pub struct TextContent {
    /// The type of the part.
    pub kind: String,
    pub text: String,
}

/// How a run ended, part by part.
#[derive(Debug)]
pub struct StructuredContent {
    pub action: String,
    pub success: bool,
    pub status_code: Option<i32>,
    pub stdout: String,
    pub stderr: String,
}

/// The contents of a [`StructuredContent`].
#[verifier::ext_equal]
pub struct StructuredContentView {
    pub action: Seq<char>,
    pub success: bool,
    pub status_code: Option<i32>,
    pub stdout: Seq<char>,
    pub stderr: Seq<char>,
}

impl View for StructuredContent {
    type V = StructuredContentView;

    open spec fn view(&self) -> StructuredContentView {
        StructuredContentView {
            action: self.action@,
            success: self.success,
            status_code: self.status_code,
            stdout: self.stdout@,
            stderr: self.stderr@,
        }
    }
}

/// The result of a tool call.
#[derive(Debug)]
pub struct CallToolResult {
    pub content: Vec<TextContent>,
    pub is_error: Option<bool>,
    pub structured_content: Option<StructuredContent>,
}

/// The contents of a [`CallToolResult`]; each part is its type and its text.
#[verifier::ext_equal]
pub struct CallToolResultView {
    pub content: Seq<(Seq<char>, Seq<char>)>,
    pub is_error: Option<bool>,
    pub structured_content: Option<StructuredContentView>,
}

impl View for CallToolResult {
    type V = CallToolResultView;

    open spec fn view(&self) -> CallToolResultView {
        CallToolResultView {
            content: self.content@.map_values(|part: TextContent| (part.kind@, part.text@)),
            is_error: self.is_error,
            structured_content: match self.structured_content {
                Some(structured) => Some(structured@),
                None => None,
            },
        }
    }
}

/// A result that is a text.
pub open spec fn text_result(
    text: Seq<char>,
    is_error: bool,
    structured_content: Option<StructuredContentView>,
) -> CallToolResultView {
    CallToolResultView {
        content: seq![("text"@, text)],
        is_error: Some(is_error),
        structured_content,
    }
}

fn make_result(
    text: String,
    is_error: bool,
    structured_content: Option<StructuredContent>,
) -> (result: CallToolResult)
    ensures
        result@ == text_result(
            text@,
            is_error,
            match structured_content {
                Some(structured) => Some(structured@),
                None => None,
            },
        ),
{
    let mut content: Vec<TextContent> = Vec::new();
    content.push(TextContent { kind: "text".to_owned(), text });
    assert(content@.map_values(|part: TextContent| (part.kind@, part.text@)) =~= seq![
        ("text"@, text@),
    ]);
    CallToolResult { content, is_error: Some(is_error), structured_content }
}

/// What to do with a tool call.
#[derive(Debug)]
pub enum ToolCallStep {
    /// Answer it.
    Respond(CallToolResult),
    /// Execute the action, and answer with what [`tool_call_response`] makes of the outcome.
    Run(GravitySketchToolCallParam),
}

/// Decides what to do with a tool call, from its arguments or the reason why they are not
/// parameters of the tool.
pub fn handle_tool_call_gravity_sketch(
    arguments: Option<Result<GravitySketchToolCallParam, String>>,
) -> (step: ToolCallStep)
    ensures
        match arguments {
            Some(Ok(params)) => step == ToolCallStep::Run(params),
            Some(Err(reason)) => step matches ToolCallStep::Respond(result) && result@
                == text_result(
                "Failed to parse configuration for gravity-sketch tool: "@ + reason@,
                true,
                None,
            ),
            None => step matches ToolCallStep::Respond(result) && result@ == text_result(
                "Missing arguments for gravity-sketch tool-call."@,
                true,
                None,
            ),
        },
{
    match arguments {
        Some(Ok(params)) => ToolCallStep::Run(params),
        Some(Err(reason)) => ToolCallStep::Respond(
            make_result(
                followed_by(
                    "Failed to parse configuration for gravity-sketch tool: ",
                    reason.as_str(),
                ),
                true,
                None,
            ),
        ),
        None => ToolCallStep::Respond(
            make_result(
                "Missing arguments for gravity-sketch tool-call.".to_owned(),
                true,
                None,
            ),
        ),
    }
}

/// Why an action was not executed to its end.
#[derive(Debug)]
pub enum RunError {
    /// The parameters do not make a command line.
    Command(CommandError),
    /// The executable could not be started.
    Spawn(std::path::PathBuf),
    StdoutMissing,
    StderrMissing,
    Wait,
    /// A stream could not be read to its end, for this reason.
    Stream(String),
}

impl RunError {
    /// Whether a text says what went wrong.
    pub open spec fn says(self, message: String) -> bool {
        match self {
            RunError::Command(error) => error.says(message),
            RunError::Spawn(path) => message@ == "failed to spawn Gravity Sketch CLI at "@
                + path_debug(path),
            RunError::StdoutMissing => message@
                == "failed to capture stdout from Gravity Sketch CLI"@,
            RunError::StderrMissing => message@
                == "failed to capture stderr from Gravity Sketch CLI"@,
            RunError::Wait => message@ == "failed to wait for Gravity Sketch CLI"@,
            RunError::Stream(reason) => message@ == reason@,
        }
    }

    /// Says what went wrong.
    pub fn message(&self) -> (message: String)
        ensures
            self.says(message),
    {
        match self {
            RunError::Command(error) => error.message(),
            RunError::Spawn(path) => followed_by(
                "failed to spawn Gravity Sketch CLI at ",
                path_debug_text(path).as_str(),
            ),
            RunError::StdoutMissing =>
                "failed to capture stdout from Gravity Sketch CLI".to_owned(),
            RunError::StderrMissing =>
                "failed to capture stderr from Gravity Sketch CLI".to_owned(),
            RunError::Wait => "failed to wait for Gravity Sketch CLI".to_owned(),
            RunError::Stream(reason) => reason.clone(),
        }
    }
}

/// How a process ended.
#[derive(Debug)]
pub struct ExitReport {
    pub success: bool,
    pub code: Option<i32>,
    /// The status as it is shown.
    pub status: String,
}

impl Clone for ExitReport {
    fn clone(&self) -> (same: Self)
        ensures
            same == *self,
    {
        ExitReport { success: self.success, code: self.code, status: self.status.clone() }
    }
}

/// A run whose process is to be started as `plan` says.
#[derive(Debug)]
pub struct StartingRun {
    pub action: GravitySketchAction,
    pub plan: ProcessPlan,
}

/// A run whose process was started.
#[derive(Debug)]
pub struct StartedRun {
    pub action: GravitySketchAction,
}

/// A run whose streams are being read.
#[derive(Debug)]
pub struct ReadingRun {
    pub action: GravitySketchAction,
}

/// A run whose process has ended.
#[derive(Debug)]
pub struct EndedRun {
    pub action: GravitySketchAction,
    pub exit: ExitReport,
}

/// A run whose process has ended, and all that it printed to stdout.
#[derive(Debug)]
pub struct PrintedRun {
    pub action: GravitySketchAction,
    pub exit: ExitReport,
    pub stdout: String,
}

/// Begins to execute the action. `configured` is the value of `GRAVITY_SKETCH_CLI`.
pub fn run_gravity_sketch(params: &GravitySketchToolCallParam, configured: Option<String>) -> (run:
    Result<StartingRun, RunError>)
    ensures
        match params.lacks() {
            Some(error) => run == Err::<StartingRun, _>(RunError::Command(error)),
            None => {
                &&& run is Ok
                &&& run->Ok_0.action == params.action
                &&& run->Ok_0.plan.program == params.program(configured)
                &&& params.cli_path matches Some(named) ==> run->Ok_0.plan.program == named
                &&& argument_views(run->Ok_0.plan.args@) == params.arguments()
                &&& setting_views(run->Ok_0.plan.env@) == params.settings()
                &&& run->Ok_0.plan.is_listened_to()
                &&& params.payload matches Some(payload) ==> hands_over(
                    argument_views(run->Ok_0.plan.args@),
                    payload,
                )
            },
        },
{
    let program = params.resolve_cli_path(configured);
    match params.configure_command(program) {
        Ok(plan) => Ok(StartingRun { action: params.action, plan }),
        Err(error) => Err(RunError::Command(error)),
    }
}

impl StartingRun {
    /// Takes whether the process could be started.
    pub fn spawned(self, started: bool) -> (next: Result<StartedRun, RunError>)
        ensures
            next == if started {
                Ok(StartedRun { action: self.action })
            } else {
                Err(RunError::Spawn(self.plan.program))
            },
    {
        if started {
            Ok(StartedRun { action: self.action })
        } else {
            Err(RunError::Spawn(self.plan.program))
        }
    }
}

impl StartedRun {
    /// Takes whether the two streams of the process can be read.
    pub fn captured(self, stdout: bool, stderr: bool) -> (next: Result<ReadingRun, RunError>)
        ensures
            next == if !stdout {
                Err(RunError::StdoutMissing)
            } else if !stderr {
                Err(RunError::StderrMissing)
            } else {
                Ok(ReadingRun { action: self.action })
            },
    {
        if !stdout {
            Err(RunError::StdoutMissing)
        } else if !stderr {
            Err(RunError::StderrMissing)
        } else {
            Ok(ReadingRun { action: self.action })
        }
    }
}

impl ReadingRun {
    /// Takes how the process ended, if that is known.
    pub fn waited(self, exit: Option<ExitReport>) -> (next: Result<EndedRun, RunError>)
        ensures
            next == match exit {
                Some(exit) => Ok(EndedRun { action: self.action, exit }),
                None => Err(RunError::Wait),
            },
    {
        match exit {
            Some(exit) => Ok(EndedRun { action: self.action, exit }),
            None => Err(RunError::Wait),
        }
    }
}

impl EndedRun {
    /// Takes all that was printed to stdout, or the reason why it could not be read.
    pub fn stdout_read(self, output: Result<String, String>) -> (next: Result<PrintedRun, RunError>)
        ensures
            next == match output {
                Ok(stdout) => Ok(PrintedRun { action: self.action, exit: self.exit, stdout }),
                Err(reason) => Err(RunError::Stream(reason)),
            },
    {
        match output {
            Ok(stdout) => Ok(PrintedRun { action: self.action, exit: self.exit, stdout }),
            Err(reason) => Err(RunError::Stream(reason)),
        }
    }
}

/// Whether a text is nothing but white space.
pub open spec fn is_blank(text: Seq<char>) -> bool {
    trimmed(text).len() == 0
}

/// The text that sums up a run.
pub open spec fn summary(
    action: GravitySketchAction,
    success: bool,
    status: Seq<char>,
    stdout: Seq<char>,
    stderr: Seq<char>,
) -> Seq<char> {
    if success {
        if is_blank(stdout) {
            "Gravity Sketch action "@ + display_name(action) + " completed successfully."@
        } else {
            stdout
        }
    } else {
        "Gravity Sketch action "@ + display_name(action) + " failed with status "@ + status + "."@
            + if !is_blank(stderr) {
            "\nstderr:\n"@ + stderr
        } else if !is_blank(stdout) {
            "\nstdout:\n"@ + stdout
        } else {
            seq![]
        }
    }
}

/// The result of a run.
pub open spec fn run_result(
    action: GravitySketchAction,
    exit: ExitReport,
    stdout: Seq<char>,
    stderr: Seq<char>,
) -> CallToolResultView {
    text_result(
        summary(action, exit.success, exit.status@, stdout, stderr),
        !exit.success,
        Some(
            StructuredContentView {
                action: display_name(action),
                success: exit.success,
                status_code: exit.code,
                stdout,
                stderr,
            },
        ),
    )
}

/// Sums up a run.
fn sum_up(action: GravitySketchAction, exit: &ExitReport, stdout: &str, stderr: &str) -> (text:
    String)
    ensures
        text@ == summary(action, exit.success, exit.status@, stdout@, stderr@),
{
    let start = followed_by("Gravity Sketch action ", action.as_display_name());
    if exit.success {
        if trim(stdout).as_str().is_empty() {
            followed_by(start.as_str(), " completed successfully.")
        } else {
            stdout.to_owned()
        }
    } else {
        let mut text = followed_by(start.as_str(), " failed with status ");
        text.append(exit.status.as_str());
        text.append(".");
        let ghost head = text@;
        if !trim(stderr).as_str().is_empty() {
            text.append("\nstderr:\n");
            text.append(stderr);
            assert(text@ =~= head + ("\nstderr:\n"@ + stderr@));
        } else if !trim(stdout).as_str().is_empty() {
            text.append("\nstdout:\n");
            text.append(stdout);
            assert(text@ =~= head + ("\nstdout:\n"@ + stdout@));
        } else {
            assert(text@ =~= head + seq![]);
        }
        text
    }
}

impl PrintedRun {
    /// Takes all that was printed to stderr, or the reason why it could not be read.
    pub fn stderr_read(self, output: Result<String, String>) -> (outcome: Result<
        CallToolResult,
        RunError,
    >)
        ensures
            match output {
                Ok(stderr) => outcome matches Ok(result) && result@ == run_result(
                    self.action,
                    self.exit,
                    self.stdout@,
                    stderr@,
                ),
                Err(reason) => outcome == Err::<CallToolResult, _>(RunError::Stream(reason)),
            },
    {
        match output {
            Ok(stderr) => {
                let text = sum_up(self.action, &self.exit, self.stdout.as_str(), stderr.as_str());
                let structured = StructuredContent {
                    action: self.action.as_display_name().to_owned(),
                    success: self.exit.success,
                    status_code: self.exit.code,
                    stdout: self.stdout,
                    stderr,
                };
                Ok(make_result(text, !self.exit.success, Some(structured)))
            },
            Err(reason) => Err(RunError::Stream(reason)),
        }
    }
}

/// Whether this is the answer to a tool call whose run had this outcome.
pub open spec fn answers_call(
    action: GravitySketchAction,
    outcome: Result<CallToolResult, RunError>,
    response: CallToolResult,
) -> bool {
    match outcome {
        Ok(result) => response == result,
        Err(error) => exists|message: String| #[trigger]
            error.says(message) && response@ == text_result(
                "Failed to execute gravity-sketch action "@ + display_name(action) + ": "@
                    + message@,
                true,
                None,
            ),
    }
}

/// The answer to a tool call whose action was executed, or why it was not.
pub fn tool_call_response(
    action: GravitySketchAction,
    outcome: Result<CallToolResult, RunError>,
) -> (response: CallToolResult)
    ensures
        answers_call(action, outcome, response),
{
    match outcome {
        Ok(result) => result,
        Err(error) => {
            let mut text = followed_by(
                "Failed to execute gravity-sketch action ",
                action.as_display_name(),
            );
            text.append(": ");
            let message = error.message();
            text.append(message.as_str());
            assert(error.says(message));
            make_result(text, true, None)
        },
    }
}

} // verus!
