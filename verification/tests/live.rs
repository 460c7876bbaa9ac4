use codex_rs::gravity_sketch::GravitySketchAction;
use codex_rs::live::{LiveRun, RunEvent, RunMessage, Stream};
use codex_rs::stream::RequestId;
use codex_rs::tool_call::{tool_call_response, CallToolResult, ExitReport, ReadingRun, RunError};

const ACTION: GravitySketchAction = GravitySketchAction::Launch;

fn line(stream: Stream, line: &str) -> RunEvent {
    RunEvent::Line(stream, line.to_string())
}

fn exited(success: bool) -> RunEvent {
    RunEvent::Exited(Some(ExitReport {
        success,
        code: Some(if success { 0 } else { 3 }),
        status: "exit status".to_string(),
    }))
}

/// What is sent as all this happens: a text for each notification, and the outcomes.
fn sent(
    events: Vec<RunEvent>,
) -> (
    Vec<Option<String>>,
    Vec<std::result::Result<CallToolResult, RunError>>,
) {
    let mut run = LiveRun::new(ReadingRun { action: ACTION }, &RequestId::Integer(5));
    let mut messages = Vec::new();
    let mut outcomes = Vec::new();
    for event in events {
        let (next, message) = run.take(event);
        run = next;
        messages.push(message.map(|message| match message {
            RunMessage::Notify(told) => {
                assert_eq!(told.method, "gravity-sketch/event");
                assert_eq!(told.event.kind, "stream");
                assert!(matches!(told.request_id, RequestId::Integer(5)));
                format!("{}: {}", told.event.stream, told.event.line)
            }
            RunMessage::Respond(outcome) => {
                outcomes.push(outcome);
                "response".to_string()
            }
        }));
    }
    (messages, outcomes)
}

fn shown(messages: &[Option<String>]) -> Vec<&str> {
    messages
        .iter()
        .map(|message| message.as_deref().unwrap_or(""))
        .collect()
}

#[test]
fn result_comes_when_all_is_known() {
    let (messages, mut outcomes) = sent(vec![
        line(Stream::Stdout, "a"),
        line(Stream::Stderr, "b"),
        exited(true),
        line(Stream::Stdout, ""),
        RunEvent::Ended(Stream::Stderr, Ok(())),
        line(Stream::Stdout, "c"),
        line(Stream::Stderr, "late"),
        RunEvent::Ended(Stream::Stdout, Ok(())),
        line(Stream::Stdout, "late"),
        exited(false),
        RunEvent::Ended(Stream::Stdout, Err("late".to_string())),
    ]);
    assert_eq!(
        shown(&messages),
        vec!["stdout: a", "stderr: b", "", "", "", "stdout: c", "", "response", "", "", ""]
    );
    assert_eq!(outcomes.len(), 1);
    match outcomes.remove(0) {
        Ok(result) => {
            assert_eq!(result.is_error, Some(false));
            assert_eq!(result.content[0].text, "a\n\nc");
            match result.structured_content {
                Some(structured) => {
                    assert_eq!(structured.stdout, "a\n\nc");
                    assert_eq!(structured.stderr, "b");
                    assert_eq!(structured.status_code, Some(0));
                }
                None => panic!("no structured content"),
            }
        }
        Err(error) => panic!("unexpected error: {error:?}"),
    }
}

#[test]
fn last_event_may_be_any() {
    for last in 0..3 {
        let mut events = Vec::new();
        for i in [1, 2, 0] {
            events.push(match (i + last) % 3 {
                0 => exited(false),
                1 => RunEvent::Ended(Stream::Stdout, Ok(())),
                _ => RunEvent::Ended(Stream::Stderr, Ok(())),
            });
        }
        let (messages, outcomes) = sent(events);
        assert_eq!(shown(&messages), vec!["", "", "response"]);
        assert!(matches!(&outcomes[..], [Ok(result)] if result.is_error == Some(true)));
    }
}

#[test]
fn errors_are_reported_at_once_and_only_once() {
    let (messages, mut outcomes) = sent(vec![
        RunEvent::Exited(None),
        line(Stream::Stdout, "still there"),
        RunEvent::Ended(Stream::Stdout, Err("broke".to_string())),
        RunEvent::Ended(Stream::Stderr, Ok(())),
        RunEvent::Exited(None),
    ]);
    assert_eq!(
        shown(&messages),
        vec!["response", "stdout: still there", "", "", ""]
    );
    assert_eq!(outcomes.len(), 1);
    let response = tool_call_response(ACTION, outcomes.remove(0));
    assert_eq!(
        response.content[0].text,
        "Failed to execute gravity-sketch action launch: failed to wait for Gravity Sketch CLI"
    );

    let (messages, outcomes) = sent(vec![
        RunEvent::Ended(Stream::Stdout, Err("broke".to_string())),
        exited(true),
        line(Stream::Stderr, "on"),
        RunEvent::Ended(Stream::Stderr, Err("too".to_string())),
    ]);
    assert_eq!(shown(&messages), vec!["", "response", "stderr: on", ""]);
    assert!(matches!(&outcomes[..], [Err(RunError::Stream(reason))] if reason == "broke"));

    let (messages, outcomes) = sent(vec![
        exited(true),
        RunEvent::Ended(Stream::Stderr, Err("too".to_string())),
        line(Stream::Stdout, "on"),
        RunEvent::Ended(Stream::Stdout, Ok(())),
    ]);
    assert_eq!(shown(&messages), vec!["", "", "stdout: on", "response"]);
    assert!(matches!(&outcomes[..], [Err(RunError::Stream(reason))] if reason == "too"));
}
