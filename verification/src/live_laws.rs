//! What holds of a run as a whole, whatever happens and in whatever order.
use crate::live::{stream_name, LiveRun, RunEvent, RunMessage, Stream, StreamProgress};
use crate::stream::{told_lines, RequestId};
use crate::text::joined;
use crate::tool_call::{run_result, CallToolResult, ExitReport, RunError};
use vstd::prelude::*;

verus! {

/// Whether a run for a request went through these states when all this happened, and sent these
/// messages.
pub open spec fn is_history(
    request_id: RequestId,
    states: Seq<LiveRun>,
    events: Seq<RunEvent>,
    messages: Seq<Option<RunMessage>>,
) -> bool {
    &&& states.len() == events.len() + 1
    &&& messages.len() == events.len()
    &&& states[0].is_fresh(request_id)
    &&& forall|i: int|
        0 <= i < events.len() ==> states[i].takes(
            #[trigger] events[i],
            states[i + 1],
            messages[i],
        )
}

/// Whether a stream has ended.
pub open spec fn has_ended(events: Seq<RunEvent>, stream: Stream) -> bool {
    exists|i: int|
        0 <= i < events.len() && (#[trigger] events[i] matches RunEvent::Ended(on, _) && on
            == stream)
}

/// Whether the process has ended.
pub open spec fn has_exited(events: Seq<RunEvent>) -> bool {
    exists|i: int| 0 <= i < events.len() && #[trigger] events[i] is Exited
}

/// How the process has ended, by the first report of that; `None` before.
pub open spec fn first_exit(events: Seq<RunEvent>) -> Option<Option<ExitReport>>
    decreases events.len(),
{
    if events.len() == 0 {
        None
    } else {
        match (first_exit(events.drop_last()), events.last()) {
            (None, RunEvent::Exited(exit)) => Some(exit),
            (before, _) => before,
        }
    }
}

/// How a stream has ended, by the first report of that; `None` before.
pub open spec fn first_end(events: Seq<RunEvent>, stream: Stream) -> Option<Result<(), String>>
    decreases events.len(),
{
    if events.len() == 0 {
        None
    } else {
        match (first_end(events.drop_last(), stream), events.last()) {
            (None, RunEvent::Ended(on, outcome)) if on == stream => Some(outcome),
            (before, _) => before,
        }
    }
}

/// Whether enough has happened to answer the call: it is not known how the process has ended, or
/// stdout could not be read, or both streams have ended too.
pub open spec fn outcome_is_known(events: Seq<RunEvent>) -> bool {
    match first_exit(events) {
        None => false,
        Some(None) => true,
        Some(Some(_)) => match first_end(events, Stream::Stdout) {
            None => false,
            Some(Err(_)) => true,
            Some(Ok(_)) => first_end(events, Stream::Stderr) is Some,
        },
    }
}

/// The lines that were printed to a stream before it ended.
pub open spec fn printed_lines(events: Seq<RunEvent>, stream: Stream) -> Seq<Seq<char>>
    decreases events.len(),
{
    if events.len() == 0 {
        seq![]
    } else {
        let before = printed_lines(events.drop_last(), stream);
        match events.last() {
            RunEvent::Line(on, line) if on == stream && !has_ended(events.drop_last(), stream) =>
                before.push(line@),
            _ => before,
        }
    }
}

/// The lines of a stream that were told of.
pub open spec fn notified_lines(messages: Seq<Option<RunMessage>>, stream: Stream) -> Seq<
    Seq<char>,
>
    decreases messages.len(),
{
    if messages.len() == 0 {
        seq![]
    } else {
        let before = notified_lines(messages.drop_last(), stream);
        match messages.last() {
            Some(RunMessage::Notify(told)) if told.event.stream@ == stream_name(stream) =>
                before.push(told.event.line@),
            _ => before,
        }
    }
}

/// The number of answers.
pub open spec fn responses(messages: Seq<Option<RunMessage>>) -> nat
    decreases messages.len(),
{
    if messages.len() == 0 {
        0
    } else {
        responses(messages.drop_last()) + match messages.last() {
            Some(RunMessage::Respond(_)) => 1nat,
            _ => 0nat,
        }
    }
}

proof fn lemma_shorter_history(
    request_id: RequestId,
    states: Seq<LiveRun>,
    events: Seq<RunEvent>,
    messages: Seq<Option<RunMessage>>,
    len: int,
)
    requires
        is_history(request_id, states, events, messages),
        0 <= len <= events.len(),
    ensures
        is_history(request_id, states.take(len + 1), events.take(len), messages.take(len)),
{
    assert forall|i: int| 0 <= i < len implies states.take(len + 1)[i].takes(
        #[trigger] events.take(len)[i],
        states.take(len + 1)[i + 1],
        messages.take(len)[i],
    ) by {
        assert(states[i].takes(events[i], states[i + 1], messages[i]));
    }
}

/// A stream ends with the event that ends it, and does not end otherwise.
proof fn lemma_has_ended(events: Seq<RunEvent>, stream: Stream)
    requires
        events.len() > 0,
    ensures
        has_ended(events, stream) == (has_ended(events.drop_last(), stream) || (
        events.last() matches RunEvent::Ended(on, _) && on == stream)),
{
    let before = events.drop_last();
    if has_ended(before, stream) {
        let i = choose|i: int|
            0 <= i < before.len() && (#[trigger] before[i] matches RunEvent::Ended(on, _) && on
                == stream);
        assert(events[i] == before[i]);
    }
    if has_ended(events, stream) {
        let i = choose|i: int|
            0 <= i < events.len() && (#[trigger] events[i] matches RunEvent::Ended(on, _) && on
                == stream);
        if i < before.len() {
            assert(before[i] == events[i]);
        }
    }
    assert(events.last() == events[events.len() - 1]);
}

proof fn lemma_has_exited(events: Seq<RunEvent>)
    requires
        events.len() > 0,
    ensures
        has_exited(events) == (has_exited(events.drop_last()) || events.last() is Exited),
{
    let before = events.drop_last();
    if has_exited(before) {
        let i = choose|i: int| 0 <= i < before.len() && #[trigger] before[i] is Exited;
        assert(events[i] == before[i]);
    }
    if has_exited(events) {
        let i = choose|i: int| 0 <= i < events.len() && #[trigger] events[i] is Exited;
        if i < before.len() {
            assert(before[i] == events[i]);
        }
    }
    assert(events.last() == events[events.len() - 1]);
}

/// What a run knows of a stream is what has happened to it.
spec fn knows(
    run: LiveRun,
    request_id: RequestId,
    events: Seq<RunEvent>,
    stream: Stream,
) -> bool {
    match run.progress(stream) {
        StreamProgress::Open(drain) => {
            &&& !has_ended(events, stream)
            &&& first_end(events, stream) is None
            &&& drain.request() == request_id
            &&& drain.name() == stream_name(stream)
            &&& drain.read() == printed_lines(events, stream)
        },
        StreamProgress::Closed(Ok(text)) => {
            &&& has_ended(events, stream)
            &&& first_end(events, stream) matches Some(Ok(_))
            &&& text@ == joined(printed_lines(events, stream))
        },
        StreamProgress::Closed(Err(reason)) => {
            &&& has_ended(events, stream)
            &&& first_end(events, stream) == Some(Err::<(), _>(reason))
        },
    }
}

proof fn lemma_names_differ()
    ensures
        stream_name(Stream::Stdout) != stream_name(Stream::Stderr),
{
    reveal_strlit("stdout");
    reveal_strlit("stderr");
    assert("stdout"@[3] == 'o');
    assert("stderr"@[3] == 'e');
}

proof fn lemma_history(
    request_id: RequestId,
    states: Seq<LiveRun>,
    events: Seq<RunEvent>,
    messages: Seq<Option<RunMessage>>,
)
    requires
        is_history(request_id, states, events, messages),
    ensures
        states.last().action == states[0].action,
        forall|stream: Stream| #[trigger] knows(states.last(), request_id, events, stream),
        forall|stream: Stream| #[trigger]
            notified_lines(messages, stream) == told_lines(printed_lines(events, stream)),
        states.last().exit == first_exit(events),
        states.last().exit is Some == has_exited(events),
        responses(messages) == if states.last().is_over() {
            1nat
        } else {
            0nat
        },
    decreases events.len(),
{
    let run = states.last();
    if events.len() == 0 {
        assert forall|stream: Stream| #[trigger] knows(run, request_id, events, stream) by {
            assert(run.progress(stream) is Open);
            assert(printed_lines(events, stream) =~= Seq::<Seq<char>>::empty());
        }
        assert(run.progress(Stream::Stdout) is Open);
    } else {
        let n = events.len() - 1;
        lemma_shorter_history(request_id, states, events, messages, n as int);
        assert(states.take(n + 1) =~= states.drop_last());
        assert(events.take(n as int) =~= events.drop_last());
        assert(messages.take(n as int) =~= messages.drop_last());
        lemma_history(request_id, states.drop_last(), events.drop_last(), messages.drop_last());
        let before = states[n as int];
        assert(before == states.drop_last().last());
        let event = events[n as int];
        let message = messages[n as int];
        assert(before.takes(event, run, message));
        lemma_has_exited(events);
        lemma_names_differ();
        assert forall|stream: Stream|
            knows(run, request_id, events, stream) && #[trigger] notified_lines(messages, stream)
                == told_lines(printed_lines(events, stream)) by {
            lemma_has_ended(events, stream);
            assert(knows(before, request_id, events.drop_last(), stream));
            assert(notified_lines(messages.drop_last(), stream) == told_lines(
                printed_lines(events.drop_last(), stream),
            ));
            assert(run.progress(stream) == before.progress(stream) || match event {
                RunEvent::Line(on, _) => on == stream,
                RunEvent::Ended(on, _) => on == stream,
                RunEvent::Exited(_) => false,
            });
            match event {
                RunEvent::Line(on, line) => {
                    assert(knows(before, request_id, events.drop_last(), on));
                    let lines = printed_lines(events.drop_last(), stream);
                    assert(lines.push(line@).drop_last() =~= lines);
                },
                _ => {},
            }
        }
        assert forall|stream: Stream| #[trigger] knows(run, request_id, events, stream) by {
            assert(notified_lines(messages, stream) == told_lines(printed_lines(events, stream)));
        }
        assert(run.progress(Stream::Stdout) == run.stdout);
        assert(run.progress(Stream::Stderr) == run.stderr);
        assert(before.progress(Stream::Stdout) == before.stdout);
        assert(before.progress(Stream::Stderr) == before.stderr);
    }
}

/// A call is answered at most once, whatever happens. It has been answered when the process and
/// both of its streams have ended.
pub proof fn law_call_is_answered_once(
    request_id: RequestId,
    states: Seq<LiveRun>,
    events: Seq<RunEvent>,
    messages: Seq<Option<RunMessage>>,
)
    requires
        is_history(request_id, states, events, messages),
    ensures
        responses(messages) <= 1,
        has_exited(events) && has_ended(events, Stream::Stdout) && has_ended(
            events,
            Stream::Stderr,
        ) ==> responses(messages) == 1,
{
    lemma_history(request_id, states, events, messages);
    assert(knows(states.last(), request_id, events, Stream::Stdout));
    assert(knows(states.last(), request_id, events, Stream::Stderr));
}

/// A call is answered as soon as enough has happened for that, and not before.
pub proof fn law_call_is_answered_as_soon_as_possible(
    request_id: RequestId,
    states: Seq<LiveRun>,
    events: Seq<RunEvent>,
    messages: Seq<Option<RunMessage>>,
)
    requires
        is_history(request_id, states, events, messages),
    ensures
        responses(messages) == if outcome_is_known(events) {
            1nat
        } else {
            0nat
        },
{
    lemma_history(request_id, states, events, messages);
    assert(knows(states.last(), request_id, events, Stream::Stdout));
    assert(knows(states.last(), request_id, events, Stream::Stderr));
}

/// The answer says what happened: that it is not known how the process has ended, or why stdout
/// could not be read, or else why stderr could not; it is a result if none of this is so.
pub proof fn law_answer_says_what_happened(
    request_id: RequestId,
    states: Seq<LiveRun>,
    events: Seq<RunEvent>,
    messages: Seq<Option<RunMessage>>,
    at: int,
    outcome: Result<CallToolResult, RunError>,
)
    requires
        is_history(request_id, states, events, messages),
        0 <= at < messages.len(),
        messages[at] == Some(RunMessage::Respond(outcome)),
    ensures
        ({
            let past = events.take(at + 1);
            match (first_exit(past), first_end(past, Stream::Stdout)) {
                (None, _) => false,
                (Some(None), _) => outcome == Err::<CallToolResult, _>(RunError::Wait),
                (Some(Some(_)), None) => false,
                (Some(Some(_)), Some(Err(reason))) => outcome == Err::<CallToolResult, _>(
                    RunError::Stream(reason),
                ),
                (Some(Some(_)), Some(Ok(_))) => match first_end(past, Stream::Stderr) {
                    None => false,
                    Some(Err(reason)) => outcome == Err::<CallToolResult, _>(
                        RunError::Stream(reason),
                    ),
                    Some(Ok(_)) => outcome is Ok,
                },
            }
        }),
{
    let past = events.take(at + 1);
    lemma_shorter_history(request_id, states, events, messages, at + 1);
    lemma_history(request_id, states.take(at + 2), past, messages.take(at + 1));
    let run = states.take(at + 2).last();
    assert(run == states[at + 1]);
    assert(states[at].takes(events[at], states[at + 1], messages[at]));
    assert(knows(run, request_id, past, Stream::Stdout));
    assert(knows(run, request_id, past, Stream::Stderr));
    assert(events[at] !is Line) by {
        if let RunEvent::Line(on, line) = events[at] {
            assert(states[at].progress(on).takes_line(
                line@,
                states[at + 1].progress(on),
                messages[at],
            ));
        }
    }
    assert(run.comes_to(outcome));
}

/// Each line that is not empty is told of in order, for the request of the call and while its
/// stream has not ended, and nothing else is told of.
pub proof fn law_lines_are_told_of(
    request_id: RequestId,
    states: Seq<LiveRun>,
    events: Seq<RunEvent>,
    messages: Seq<Option<RunMessage>>,
    stream: Stream,
)
    requires
        is_history(request_id, states, events, messages),
    ensures
        notified_lines(messages, stream) == told_lines(printed_lines(events, stream)),
        forall|i: int|
            0 <= i < messages.len() ==> (#[trigger] messages[i] matches Some(
                RunMessage::Notify(told),
            ) ==> exists|on: Stream, line: Seq<char>|
                #![trigger told.tells(request_id, stream_name(on), line)]
                told.tells(request_id, stream_name(on), line)),
{
    lemma_history(request_id, states, events, messages);
    assert forall|i: int| 0 <= i < messages.len() implies (#[trigger] messages[i] matches Some(
        RunMessage::Notify(told),
    ) ==> exists|on: Stream, line: Seq<char>|
        #![trigger told.tells(request_id, stream_name(on), line)]
        told.tells(request_id, stream_name(on), line)) by {
        lemma_shorter_history(request_id, states, events, messages, i);
        lemma_history(request_id, states.take(i + 1), events.take(i), messages.take(i));
        assert(states[i].takes(events[i], states[i + 1], messages[i]));
        if let RunEvent::Line(on, line) = events[i] {
            assert(knows(states.take(i + 1).last(), request_id, events.take(i), on));
            if let Some(RunMessage::Notify(told)) = messages[i] {
                assert(told.tells(request_id, stream_name(on), line@));
            }
        }
    }
}

/// When a call is answered with a result, the process and both streams have ended. The result
/// holds how the process has ended and all that was printed, and nothing is sent any more,
/// whatever happens then.
pub proof fn law_result_comes_last(
    request_id: RequestId,
    states: Seq<LiveRun>,
    events: Seq<RunEvent>,
    messages: Seq<Option<RunMessage>>,
    at: int,
)
    requires
        is_history(request_id, states, events, messages),
        0 <= at < messages.len(),
        messages[at] matches Some(RunMessage::Respond(Ok(_))),
    ensures
        has_ended(events.take(at + 1), Stream::Stdout),
        has_ended(events.take(at + 1), Stream::Stderr),
        first_exit(events.take(at + 1)) matches Some(Some(exit))
            && messages[at]->0->Respond_0->Ok_0@ == run_result(
            states[0].action,
            exit,
            joined(printed_lines(events, Stream::Stdout)),
            joined(printed_lines(events, Stream::Stderr)),
        ),
        forall|j: int| at < j < messages.len() ==> #[trigger] messages[j] is None,
    decreases events.len(),
{
    let n = events.len() - 1;
    if at == n {
        lemma_history(request_id, states, events, messages);
        let run = states.last();
        assert(states[n as int].takes(events[n as int], run, messages[n as int]));
        assert(knows(run, request_id, events, Stream::Stdout));
        assert(knows(run, request_id, events, Stream::Stderr));
        assert(events.take(at + 1) =~= events);
        assert(run.comes_to(messages[at]->0->Respond_0));
    } else {
        lemma_shorter_history(request_id, states, events, messages, n as int);
        let (earlier, rest, sent) = (
            states.take(n + 1),
            events.take(n as int),
            messages.take(n as int),
        );
        law_result_comes_last(request_id, earlier, rest, sent, at);
        assert(rest.take(at + 1) =~= events.take(at + 1));
        assert(rest =~= events.drop_last());
        lemma_history(request_id, earlier, rest, sent);
        assert(earlier.last() == states[n as int]);
        assert(states[n as int].takes(events[n as int], states[n + 1], messages[n as int]));
        lemma_history(request_id, states, events, messages);
        lemma_stays_ended(events, at + 1, n as int, Stream::Stdout);
        lemma_stays_ended(events, at + 1, n as int, Stream::Stderr);
        assert(knows(states[n as int], request_id, rest, Stream::Stdout));
        assert(knows(states[n as int], request_id, rest, Stream::Stderr));
        lemma_answered(sent, at);
        assert(messages[n as int] is None);
        assert forall|j: int| at < j < messages.len() implies #[trigger] messages[j] is None by {
            if j < n {
                assert(sent[j] == messages[j]);
            }
        }
        assert(printed_lines(events, Stream::Stdout) == printed_lines(rest, Stream::Stdout));
        assert(printed_lines(events, Stream::Stderr) == printed_lines(rest, Stream::Stderr));
    }
}

proof fn lemma_stays_ended(events: Seq<RunEvent>, from: int, to: int, stream: Stream)
    requires
        0 <= from <= to <= events.len(),
        has_ended(events.take(from), stream),
    ensures
        has_ended(events.take(to), stream),
{
    let early = events.take(from);
    let i = choose|i: int|
        0 <= i < early.len() && (#[trigger] early[i] matches RunEvent::Ended(on, _) && on
            == stream);
    assert(events.take(to)[i] == early[i]);
}

proof fn lemma_answered(messages: Seq<Option<RunMessage>>, at: int)
    requires
        0 <= at < messages.len(),
        messages[at] matches Some(RunMessage::Respond(_)),
    ensures
        responses(messages) >= 1,
    decreases messages.len(),
{
    if at < messages.len() - 1 {
        lemma_answered(messages.drop_last(), at);
    }
}

} // verus!
