//! A run whose process is listened to: what it prints is told of at once, and the call is
//! answered when all is known.
use crate::gravity_sketch::GravitySketchAction;
use crate::stream::{OutgoingNotification, RequestId, StreamDrain};
use crate::text::joined;
use crate::tool_call::{run_result, CallToolResult, ExitReport, ReadingRun, RunError};
use vstd::prelude::*;

verus! {

/// The streams that a process prints to.
#[derive(Debug, Clone, Copy, PartialEq, Eq, Structural)]
pub enum Stream {
    Stdout,
    Stderr,
}

/// The name of a stream.
pub open spec fn stream_name(stream: Stream) -> Seq<char> {
    match stream {
        Stream::Stdout => "stdout"@,
        Stream::Stderr => "stderr"@,
    }
}

/// What happens while a process is listened to.
#[derive(Debug)]
pub enum RunEvent {
    /// A line was printed.
    Line(Stream, String),
    /// A stream has ended, or it could not be read on for this reason.
    Ended(Stream, Result<(), String>),
    /// The process has ended; how is not always known.
    Exited(Option<ExitReport>),
}

/// What is to be sent.
#[derive(Debug)]
pub enum RunMessage {
    Notify(OutgoingNotification),
    /// The answer to the call, which [`crate::tool_call::tool_call_response`] makes of this
    /// outcome.
    Respond(Result<CallToolResult, RunError>),
}

/// How far a stream was read.
#[derive(Debug)]
pub enum StreamProgress {
    Open(StreamDrain),
    /// All that was printed, or the reason why it could not be read.
    Closed(Result<String, String>),
}

impl StreamProgress {
    /// Whether `after` is what becomes of a stream to which a line is printed, and `message` what
    /// is to be sent.
    pub open spec fn takes_line(
        self,
        line: Seq<char>,
        after: StreamProgress,
        message: Option<RunMessage>,
    ) -> bool {
        match self {
            StreamProgress::Open(drain) => {
                &&& after matches StreamProgress::Open(next) && next.request() == drain.request()
                    && next.name() == drain.name() && next.read() == drain.read().push(line)
                &&& match message {
                    Some(RunMessage::Notify(told)) => line.len() > 0 && told.tells(
                        drain.request(),
                        drain.name(),
                        line,
                    ),
                    Some(RunMessage::Respond(_)) => false,
                    None => line.len() == 0,
                }
            },
            StreamProgress::Closed(_) => after == self && message is None,
        }
    }

    /// Whether `after` is what becomes of a stream that has ended.
    pub open spec fn ends(self, outcome: Result<(), String>, after: StreamProgress) -> bool {
        match self {
            StreamProgress::Open(drain) => match outcome {
                Ok(()) => after matches StreamProgress::Closed(Ok(text)) && text@ == joined(
                    drain.read(),
                ),
                Err(reason) => after == StreamProgress::Closed(Err(reason)),
            },
            StreamProgress::Closed(_) => after == self,
        }
    }

    fn line(self, line: String) -> (next: (StreamProgress, Option<RunMessage>))
        ensures
            self.takes_line(line@, next.0, next.1),
    {
        match self {
            StreamProgress::Open(drain) => {
                let mut drain = drain;
                match drain.line(line) {
                    Some(told) => (StreamProgress::Open(drain), Some(RunMessage::Notify(told))),
                    None => (StreamProgress::Open(drain), None),
                }
            },
            StreamProgress::Closed(output) => (StreamProgress::Closed(output), None),
        }
    }

    fn ended(self, outcome: Result<(), String>) -> (after: StreamProgress)
        ensures
            self.ends(outcome, after),
    {
        match self {
            StreamProgress::Open(drain) => match outcome {
                Ok(()) => StreamProgress::Closed(Ok(drain.finish())),
                Err(reason) => StreamProgress::Closed(Err(reason)),
            },
            StreamProgress::Closed(output) => StreamProgress::Closed(output),
        }
    }
}

fn copy_of(output: &Result<String, String>) -> (copy: Result<String, String>)
    ensures
        copy == *output,
{
    match output {
        Ok(text) => Ok(text.clone()),
        Err(reason) => Err(reason.clone()),
    }
}

/// A run whose process is listened to.
#[derive(Debug)]
pub struct LiveRun {
    pub action: GravitySketchAction,
    pub stdout: StreamProgress,
    pub stderr: StreamProgress,
    /// How the process has ended, once it has.
    pub exit: Option<Option<ExitReport>>,
}

impl LiveRun {
    /// How far a stream was read.
    pub open spec fn progress(self, stream: Stream) -> StreamProgress {
        match stream {
            Stream::Stdout => self.stdout,
            Stream::Stderr => self.stderr,
        }
    }

    /// Whether nothing has happened yet in a run for this request.
    pub open spec fn is_fresh(self, request_id: RequestId) -> bool {
        &&& self.exit is None
        &&& forall|stream: Stream|
            #![trigger self.progress(stream)]
            self.progress(stream) matches StreamProgress::Open(drain) && drain.request()
                == request_id && drain.name() == stream_name(stream) && drain.read()
                == Seq::<Seq<char>>::empty()
    }

    /// Whether the outcome of the run is known.
    pub open spec fn is_over(self) -> bool {
        match self.exit {
            None => false,
            Some(None) => true,
            Some(Some(_)) => match self.stdout {
                StreamProgress::Open(_) => false,
                StreamProgress::Closed(Err(_)) => true,
                StreamProgress::Closed(Ok(_)) => self.stderr is Closed,
            },
        }
    }

    /// Whether this is the outcome of the run.
    pub open spec fn comes_to(self, outcome: Result<CallToolResult, RunError>) -> bool {
        match (self.exit, self.stdout, self.stderr) {
            (Some(None), _, _) => outcome == Err::<CallToolResult, _>(RunError::Wait),
            (Some(Some(_)), StreamProgress::Closed(Err(reason)), _) => outcome == Err::<
                CallToolResult,
                _,
            >(RunError::Stream(reason)),
            (
                Some(Some(_)),
                StreamProgress::Closed(Ok(_)),
                StreamProgress::Closed(Err(reason)),
            ) => outcome == Err::<CallToolResult, _>(RunError::Stream(reason)),
            (
                Some(Some(exit)),
                StreamProgress::Closed(Ok(stdout)),
                StreamProgress::Closed(Ok(stderr)),
            ) => outcome matches Ok(result) && result@ == run_result(
                self.action,
                exit,
                stdout@,
                stderr@,
            ),
            _ => false,
        }
    }

    /// Whether `after` is what becomes of the run when something happens, and `message` what is
    /// to be sent. The call is answered when the outcome becomes known.
    pub open spec fn takes(
        self,
        event: RunEvent,
        after: LiveRun,
        message: Option<RunMessage>,
    ) -> bool {
        &&& after.action == self.action
        &&& match event {
            RunEvent::Line(stream, line) => {
                &&& after.exit == self.exit
                &&& self.progress(stream).takes_line(line@, after.progress(stream), message)
            },
            RunEvent::Ended(stream, outcome) => {
                &&& after.exit == self.exit
                &&& self.progress(stream).ends(outcome, after.progress(stream))
            },
            RunEvent::Exited(exit) => {
                &&& after.exit == if self.exit is None {
                    Some(exit)
                } else {
                    self.exit
                }
            },
        }
        &&& forall|stream: Stream|
            #![trigger after.progress(stream)]
            match event {
                RunEvent::Line(on, _) => stream != on,
                RunEvent::Ended(on, _) => stream != on,
                RunEvent::Exited(_) => true,
            } ==> after.progress(stream) == self.progress(stream)
        &&& event !is Line ==> match message {
            Some(RunMessage::Respond(outcome)) => !self.is_over() && after.is_over()
                && after.comes_to(outcome),
            Some(RunMessage::Notify(_)) => false,
            None => self.is_over() || !after.is_over(),
        }
    }

    /// A run for a request, of which nothing was read yet.
    pub fn new(run: ReadingRun, request_id: &RequestId) -> (live: LiveRun)
        ensures
            live.action == run.action,
            live.is_fresh(*request_id),
    {
        LiveRun {
            action: run.action,
            stdout: StreamProgress::Open(StreamDrain::new(request_id, "stdout")),
            stderr: StreamProgress::Open(StreamDrain::new(request_id, "stderr")),
            exit: None,
        }
    }

    fn over(&self) -> (over: bool)
        ensures
            over == self.is_over(),
    {
        match &self.exit {
            None => false,
            Some(None) => true,
            Some(Some(_)) => match &self.stdout {
                StreamProgress::Open(_) => false,
                StreamProgress::Closed(Err(_)) => true,
                StreamProgress::Closed(Ok(_)) => match &self.stderr {
                    StreamProgress::Open(_) => false,
                    StreamProgress::Closed(_) => true,
                },
            },
        }
    }

    fn outcome(&self) -> (outcome: Option<Result<CallToolResult, RunError>>)
        ensures
            match outcome {
                Some(outcome) => self.is_over() && self.comes_to(outcome),
                None => !self.is_over(),
            },
    {
        let exit = match &self.exit {
            Some(Some(exit)) => Some(exit.clone()),
            Some(None) => None,
            None => return None,
        };
        let run = match (ReadingRun { action: self.action }).waited(exit) {
            Ok(run) => run,
            Err(error) => return Some(Err(error)),
        };
        let run = match &self.stdout {
            StreamProgress::Closed(output) => match run.stdout_read(copy_of(output)) {
                Ok(run) => run,
                Err(error) => return Some(Err(error)),
            },
            StreamProgress::Open(_) => return None,
        };
        match &self.stderr {
            StreamProgress::Closed(output) => Some(run.stderr_read(copy_of(output))),
            StreamProgress::Open(_) => None,
        }
    }

    /// Takes what has happened.
    pub fn take(self, event: RunEvent) -> (next: (LiveRun, Option<RunMessage>))
        ensures
            self.takes(event, next.0, next.1),
    {
        let was_over = self.over();
        let LiveRun { action, stdout, stderr, exit } = self;
        let after = match event {
            RunEvent::Line(stream, line) => {
                return match stream {
                    Stream::Stdout => {
                        let (stdout, message) = stdout.line(line);
                        (LiveRun { action, stdout, stderr, exit }, message)
                    },
                    Stream::Stderr => {
                        let (stderr, message) = stderr.line(line);
                        (LiveRun { action, stdout, stderr, exit }, message)
                    },
                };
            },
            RunEvent::Ended(Stream::Stdout, outcome) => LiveRun {
                action,
                stdout: stdout.ended(outcome),
                stderr,
                exit,
            },
            RunEvent::Ended(Stream::Stderr, outcome) => LiveRun {
                action,
                stdout,
                stderr: stderr.ended(outcome),
                exit,
            },
            RunEvent::Exited(report) => {
                let exit = match exit {
                    None => Some(report),
                    known => known,
                };
                LiveRun { action, stdout, stderr, exit }
            },
        };
        if was_over {
            return (after, None);
        }
        match after.outcome() {
            Some(outcome) => (after, Some(RunMessage::Respond(outcome))),
            None => (after, None),
        }
    }
}

} // verus!
