use lliminal::message::{AssistantMessageContent, AssistantMessagePart, LlmError, Message};
use lliminal::stream::{reconstruct, Frame, StreamEvent, StreamingResponseStateHolder};

fn frame(name: &str, data: &str) -> Frame {
    Frame::Event { name: name.to_string(), data: data.to_string() }
}

fn delta(text: &str) -> Frame {
    frame(
        "content_block_delta",
        &format!(
            "{{\"type\": \"content_block_delta\", \"index\": 0, \"delta\": {{\"type\": \"text_delta\", \"text\": \"{}\"}}}}",
            text
        ),
    )
}

fn assistant(parts: &[(bool, &str)]) -> Vec<Message> {
    vec![Message::Assistant {
        parts: parts
            .iter()
            .map(|(complete, text)| AssistantMessagePart {
                complete: *complete,
                content: AssistantMessageContent::Text { text: text.to_string() },
            })
            .collect(),
    }]
}

fn example_frames() -> Vec<Frame> {
    vec![
        frame("message_start", "{\"type\": \"message_start\"}"),
        frame("content_block_start", "{\"type\": \"content_block_start\", \"index\": 0}"),
        delta("My"),
        delta(" response"),
        frame("content_block_stop", "{\"type\": \"content_block_stop\", \"index\": 0}"),
        frame("message_delta", "{\"type\": \"message_delta\"}"),
        frame("message_stop", "{\"type\": \"message_stop\"}"),
    ]
}

#[test]
fn end_to_end_example_yields_three_snapshots() {
    let results = reconstruct(&example_frames());
    assert_eq!(
        results,
        vec![
            Ok(assistant(&[(false, "My")])),
            Ok(assistant(&[(false, "My response")])),
            Ok(assistant(&[(true, "My response")])),
        ]
    );
}

#[test]
fn pings_change_nothing() {
    let plain = example_frames();
    let mut with_pings = Vec::new();
    for f in plain.iter() {
        with_pings.push(frame("ping", "{\"type\": \"ping\"}"));
        with_pings.push(f.clone());
    }
    with_pings.push(frame("ping", "{\"type\": \"ping\"}"));
    assert_eq!(reconstruct(&with_pings), reconstruct(&plain));
}

#[test]
fn unknown_event_is_rejected_and_stream_goes_on() {
    let mut holder = StreamingResponseStateHolder::new();
    assert_eq!(holder.handle_event("message_start", "{}"), None);
    assert_eq!(holder.handle_event("error", "{}"), Some(Err(LlmError::UnexpectedResponse)));
    assert_eq!(holder.handle_event("content_block_start", "{}"), None);
    let r = holder.handle_event("content_block_delta", "{\"delta\": {\"text\": \"Hi\"}}");
    assert_eq!(r, Some(Ok(assistant(&[(false, "Hi")]))));
}

#[test]
fn event_out_of_order_is_rejected() {
    let mut holder = StreamingResponseStateHolder::new();
    assert_eq!(holder.handle_event("content_block_start", "{}"), Some(Err(LlmError::UnexpectedResponse)));
    assert_eq!(holder.handle_event("message_start", "{}"), None);
    assert_eq!(holder.handle_event("message_start", "{}"), Some(Err(LlmError::UnexpectedResponse)));
    assert_eq!(holder.handle_event("content_block_stop", "{}"), Some(Err(LlmError::UnexpectedResponse)));
    assert_eq!(holder.handle_event("content_block_delta", "{\"delta\": {\"text\": \"x\"}}"), Some(Err(LlmError::UnexpectedResponse)));
}

#[test]
fn malformed_delta_is_rejected_and_keeps_text() {
    let mut holder = StreamingResponseStateHolder::new();
    holder.handle_event("message_start", "{}");
    holder.handle_event("content_block_start", "{}");
    holder.handle_event("content_block_delta", "{\"delta\": {\"text\": \"A\"}}");
    assert_eq!(holder.handle_event("content_block_delta", "not json"), Some(Err(LlmError::UnexpectedResponse)));
    assert_eq!(holder.handle_event("content_block_delta", "{\"delta\": {\"text\": 3}}"), Some(Err(LlmError::UnexpectedResponse)));
    assert_eq!(holder.current_response(), assistant(&[(false, "A")]));
}

#[test]
fn delta_text_is_appended_verbatim() {
    let mut holder = StreamingResponseStateHolder::new();
    holder.apply(StreamEvent::MessageStart);
    holder.apply(StreamEvent::ContentBlockStart);
    let r = holder.handle_event("content_block_delta", "{\"delta\": {\"text\": \"  a\\nb \"}}");
    assert_eq!(r, Some(Ok(assistant(&[(false, "  a\nb ")]))));
    let r = holder.handle_event("content_block_delta", "{\"delta\": {\"text\": \"\"}}");
    assert_eq!(r, Some(Ok(assistant(&[(false, "  a\nb ")]))));
}

#[test]
fn snapshots_grow_and_flags_follow_blocks() {
    let frames = vec![
        frame("message_start", "{}"),
        frame("content_block_start", "{}"),
        delta("One"),
        frame("content_block_stop", "{}"),
        frame("content_block_start", "{}"),
        delta("Tw"),
        delta("o"),
        frame("content_block_stop", "{}"),
        frame("message_delta", "{}"),
    ];
    let results = reconstruct(&frames);
    assert_eq!(
        results,
        vec![
            Ok(assistant(&[(false, "One")])),
            Ok(assistant(&[(true, "One")])),
            Ok(assistant(&[(true, "One"), (false, "Tw")])),
            Ok(assistant(&[(true, "One"), (false, "Two")])),
            Ok(assistant(&[(true, "One"), (true, "Two")])),
        ]
    );
}

#[test]
fn completion_stops_reading() {
    let mut holder = StreamingResponseStateHolder::new();
    assert!(!holder.is_completed());
    holder.apply(StreamEvent::MessageStart);
    holder.apply(StreamEvent::MessageDelta);
    assert!(holder.is_completed());
    let frames = vec![
        frame("message_start", "{}"),
        frame("message_delta", "{}"),
        frame("bogus", "{}"),
    ];
    assert_eq!(reconstruct(&frames), vec![]);
}

#[test]
fn message_stop_completes_the_message_only() {
    let mut holder = StreamingResponseStateHolder::new();
    holder.apply(StreamEvent::MessageStart);
    assert_eq!(holder.apply(StreamEvent::MessageStop), None);
    assert!(!holder.is_completed());
    assert_eq!(holder.apply(StreamEvent::ContentBlockStart), Some(Err(LlmError::UnexpectedResponse)));
    assert_eq!(holder.apply(StreamEvent::Ping), None);
}

#[test]
fn parse_reads_names_and_payloads() {
    assert_eq!(StreamEvent::parse("message_start", ""), StreamEvent::MessageStart);
    assert_eq!(StreamEvent::parse("ping", ""), StreamEvent::Ping);
    assert_eq!(StreamEvent::parse("message_stop", ""), StreamEvent::MessageStop);
    assert_eq!(StreamEvent::parse("Message_start", ""), StreamEvent::Unknown);
    assert_eq!(
        StreamEvent::parse("content_block_delta", "{\"delta\": {\"text\": \"q\"}}"),
        StreamEvent::ContentBlockDelta { text: "q".to_string() }
    );
    assert_eq!(StreamEvent::parse("content_block_delta", "{}"), StreamEvent::MalformedDelta);
}

#[test]
fn malformed_frame_is_rejected_and_stream_goes_on() {
    let frames = vec![
        frame("message_start", "{}"),
        frame("content_block_start", "{}"),
        delta("My"),
        Frame::Malformed,
        delta(" response"),
        frame("content_block_stop", "{}"),
        frame("message_delta", "{}"),
    ];
    assert_eq!(
        reconstruct(&frames),
        vec![
            Ok(assistant(&[(false, "My")])),
            Err(LlmError::UnexpectedResponse),
            Ok(assistant(&[(false, "My response")])),
            Ok(assistant(&[(true, "My response")])),
        ]
    );
    let mut holder = StreamingResponseStateHolder::new();
    assert_eq!(holder.handle_malformed_frame(), Some(Err(LlmError::UnexpectedResponse)));
    assert_eq!(holder.handle_event("message_start", "{}"), None);
}
