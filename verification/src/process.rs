//! What is needed to start a child process.
use vstd::prelude::*;

verus! {

/// A text or a path that is handed to a process.
#[derive(Debug)]
pub enum ProcessText {
    Text(String),
    Path(std::path::PathBuf),
}

/// The contents of a [`ProcessText`].
pub enum ProcessTextView {
    Text(Seq<char>),
    Path(std::path::PathBuf),
}

impl View for ProcessText {
    type V = ProcessTextView;

    open spec fn view(&self) -> ProcessTextView {
        match self {
            ProcessText::Text(text) => ProcessTextView::Text(text@),
            ProcessText::Path(path) => ProcessTextView::Path(*path),
        }
    }
}

/// The contents of arguments.
pub open spec fn argument_views(args: Seq<ProcessText>) -> Seq<ProcessTextView> {
    args.map_values(|arg: ProcessText| arg@)
}

/// Arguments that are all texts.
pub open spec fn text_arguments(args: Seq<Seq<char>>) -> Seq<ProcessTextView> {
    args.map_values(|arg: Seq<char>| ProcessTextView::Text(arg))
}

/// The contents of settings of environment variables.
pub open spec fn setting_views(env: Seq<(String, ProcessText)>) -> Seq<
    (Seq<char>, ProcessTextView),
> {
    env.map_values(|setting: (String, ProcessText)| (setting.0@, setting.1@))
}

/// Settings whose values are all texts.
pub open spec fn text_settings(pairs: Seq<(Seq<char>, Seq<char>)>) -> Seq<
    (Seq<char>, ProcessTextView),
> {
    pairs.map_values(
        |pair: (Seq<char>, Seq<char>)| (pair.0, ProcessTextView::Text(pair.1)),
    )
}

/// Whether no name occurs twice.
pub open spec fn names_differ<V>(settings: Seq<(Seq<char>, V)>) -> bool {
    forall|i: int, j: int|
        0 <= i < j < settings.len() ==> (#[trigger] settings[i]).0 != (#[trigger] settings[j]).0
}

/// The environment that results when variables are set in order: of two settings of one
/// variable the later one stands.
pub open spec fn environment(
    inherited: Map<Seq<char>, ProcessTextView>,
    settings: Seq<(Seq<char>, ProcessTextView)>,
) -> Map<Seq<char>, ProcessTextView>
    decreases settings.len(),
{
    if settings.len() == 0 {
        inherited
    } else {
        environment(inherited, settings.drop_last()).insert(settings.last().0, settings.last().1)
    }
}

/// What a standard stream of a process is connected to.
#[derive(Debug, Clone, Copy, PartialEq, Eq, Structural)]
pub enum StreamMode {
    /// Nothing.
    Null,
    /// Whoever starts the process.
    Piped,
}

/// A process to start: its program, its arguments, the environment variables to set, in order,
/// on top of those it inherits, and its standard streams.
#[derive(Debug)]
pub struct ProcessPlan {
    pub program: std::path::PathBuf,
    pub args: Vec<ProcessText>,
    pub env: Vec<(String, ProcessText)>,
    pub stdin: StreamMode,
    pub stdout: StreamMode,
    pub stderr: StreamMode,
}

impl ProcessPlan {
    /// Whether the process reads nothing, and what it prints is read.
    pub open spec fn is_listened_to(self) -> bool {
        &&& self.stdin == StreamMode::Null
        &&& self.stdout == StreamMode::Piped
        &&& self.stderr == StreamMode::Piped
    }

    /// A process that reads nothing, and whose output is read.
    pub(crate) fn listened_to(
        program: std::path::PathBuf,
        args: Vec<ProcessText>,
        env: Vec<(String, ProcessText)>,
    ) -> (plan: ProcessPlan)
        ensures
            plan.program == program,
            plan.args == args,
            plan.env == env,
            plan.is_listened_to(),
    {
        ProcessPlan {
            program,
            args,
            env,
            stdin: StreamMode::Null,
            stdout: StreamMode::Piped,
            stderr: StreamMode::Piped,
        }
    }
}

/// Adds a text to arguments.
pub fn push_text(args: &mut Vec<ProcessText>, text: &str)
    ensures
        argument_views(final(args)@) == argument_views(old(args)@).push(
            ProcessTextView::Text(text@),
        ),
{
    args.push(ProcessText::Text(text.to_owned()));
    assert(argument_views(args@) =~= argument_views(old(args)@).push(ProcessTextView::Text(text@)));
}

/// Adds a path to arguments.
pub fn push_path(args: &mut Vec<ProcessText>, path: &std::path::PathBuf)
    ensures
        argument_views(final(args)@) == argument_views(old(args)@).push(
            ProcessTextView::Path(*path),
        ),
{
    args.push(ProcessText::Path(path.clone()));
    assert(argument_views(args@) =~= argument_views(old(args)@).push(ProcessTextView::Path(*path)));
}

} // verus!
