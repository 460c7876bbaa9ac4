//! What a tool prints: forwarded line by line while it runs, and kept for the result.
use crate::text::{join_lines, joined, texts};
use vstd::prelude::*;
use vstd::string::*;

verus! {

/// The request that a tool call belongs to.
#[derive(Debug)]
pub enum RequestId {
    Text(String),
    Integer(i64),
}

impl Clone for RequestId {
    fn clone(&self) -> (same: Self)
        ensures
            same == *self,
    {
        match self {
            RequestId::Text(text) => RequestId::Text(text.clone()),
            RequestId::Integer(number) => RequestId::Integer(*number),
        }
    }
}

/// A line that a tool has printed.
#[derive(Debug)]
pub struct StreamEvent {
    /// The type of the event.
    pub kind: String,
    /// The stream that the line was printed to.
    pub stream: String,
    pub line: String,
}

/// A notification of a line, for the request that the tool call belongs to.
#[derive(Debug)]
pub struct OutgoingNotification {
    pub method: String,
    pub request_id: RequestId,
    pub event: StreamEvent,
}

impl OutgoingNotification {
    /// Whether this is the notification of a line.
    pub open spec fn tells(
        self,
        request_id: RequestId,
        stream: Seq<char>,
        line: Seq<char>,
    ) -> bool {
        &&& self.method@ == "gravity-sketch/event"@
        &&& self.request_id == request_id
        &&& self.event.kind@ == "stream"@
        &&& self.event.stream@ == stream
        &&& self.event.line@ == line
    }
}

/// The notification of a line.
pub fn stream_notification(request_id: &RequestId, stream: &str, line: &str) -> (notification:
    OutgoingNotification)
    ensures
        notification.tells(*request_id, stream@, line@),
{
    OutgoingNotification {
        method: "gravity-sketch/event".to_owned(),
        request_id: request_id.clone(),
        event: StreamEvent {
            kind: "stream".to_owned(),
            stream: stream.to_owned(),
            line: line.to_owned(),
        },
    }
}

/// The lines that are told of: all but the empty ones, in order.
pub open spec fn told_lines(lines: Seq<Seq<char>>) -> Seq<Seq<char>>
    decreases lines.len(),
{
    if lines.len() == 0 {
        seq![]
    } else if lines.last().len() == 0 {
        told_lines(lines.drop_last())
    } else {
        told_lines(lines.drop_last()).push(lines.last())
    }
}

/// The lines of one stream of a running tool.
#[derive(Debug)]
pub struct StreamDrain {
    request_id: RequestId,
    stream: String,
    lines: Vec<String>,
}

impl StreamDrain {
    /// The request that the tool call belongs to.
    pub closed spec fn request(self) -> RequestId {
        self.request_id
    }

    /// The name of the stream.
    pub closed spec fn name(self) -> Seq<char> {
        self.stream@
    }

    /// The lines that were read so far.
    pub closed spec fn read(self) -> Seq<Seq<char>> {
        texts(self.lines@)
    }

    /// A stream of which nothing was read yet.
    pub fn new(request_id: &RequestId, stream: &str) -> (drain: StreamDrain)
        ensures
            drain.request() == *request_id,
            drain.name() == stream@,
            drain.read() == Seq::<Seq<char>>::empty(),
    {
        let drain = StreamDrain {
            request_id: request_id.clone(),
            stream: stream.to_owned(),
            lines: Vec::new(),
        };
        assert(drain.read() =~= Seq::<Seq<char>>::empty());
        drain
    }

    /// Takes a line. It is kept, and unless it is empty it is to be told of.
    pub fn line(&mut self, line: String) -> (notification: Option<OutgoingNotification>)
        ensures
            final(self).request() == old(self).request(),
            final(self).name() == old(self).name(),
            final(self).read() == old(self).read().push(line@),
            match notification {
                Some(told) => line@.len() > 0 && told.tells(
                    old(self).request(),
                    old(self).name(),
                    line@,
                ),
                None => line@.len() == 0,
            },
            told_lines(final(self).read()) == match notification {
                Some(told) => told_lines(old(self).read()).push(told.event.line@),
                None => told_lines(old(self).read()),
            },
    {
        let notification = if line.as_str().is_empty() {
            None
        } else {
            Some(stream_notification(&self.request_id, self.stream.as_str(), line.as_str()))
        };
        self.lines.push(line);
        assert(self.read() =~= old(self).read().push(line@));
        assert(self.read().drop_last() =~= old(self).read());
        notification
    }

    /// All lines that were read, joined with newlines.
    pub fn finish(self) -> (output: String)
        ensures
            output@ == joined(self.read()),
    {
        join_lines(&self.lines)
    }
}

} // verus!
