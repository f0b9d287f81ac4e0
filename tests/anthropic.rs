use lliminal::anthropic::{AnthropicLlmClient, AnthropicLlmClientConfig};
use lliminal::message::{
    AssistantMessageContent, AssistantMessagePart, CompletionRequest, Message, SystemPrompt,
    UserMessageContent, UserMessagePart,
};
use lliminal::stream::{reconstruct, Frame};
use lliminal::wire::{WireContent, WireResponse, WireRole};
use url::Url;

fn user(text: &str) -> Message {
    Message::User {
        parts: vec![UserMessagePart { content: UserMessageContent::Text { text: text.to_string() } }],
    }
}

fn assistant_part(complete: bool, text: &str) -> AssistantMessagePart {
    AssistantMessagePart { complete, content: AssistantMessageContent::Text { text: text.to_string() } }
}

fn client(url: &str) -> AnthropicLlmClient {
    AnthropicLlmClient {
        config: AnthropicLlmClientConfig {
            base_url: Url::parse(url).unwrap(),
            api_key: "test".to_string(),
            model: "model".to_string(),
            max_tokens: 1024,
        },
    }
}

fn text_blocks(content: &[WireContent]) -> Vec<String> {
    content
        .iter()
        .map(|c| match c {
            WireContent::Text { text } => text.clone(),
            _ => panic!("not a text block"),
        })
        .collect()
}

#[test]
fn test_completion() {
    let anthropic_client = client("http://127.0.0.1:1234");
    let request = CompletionRequest {
        system: vec![SystemPrompt { content: "Answer in some way".to_string() }],
        messages: vec![
            user("Part 1"),
            Message::Assistant { parts: vec![assistant_part(true, "Response")] },
            user("Part 2"),
        ],
    };

    let body = anthropic_client.messages_request(&request);
    assert_eq!(body.model, "model");
    assert_eq!(body.max_tokens, 1024);
    assert!(body.stream);
    assert_eq!(body.system.len(), 1);
    assert_eq!(body.system[0].text, "Answer in some way");
    assert_eq!(body.system[0].encoding_type, "text");
    assert_eq!(body.messages.len(), 3);
    assert_eq!(body.messages[0].role, WireRole::User);
    assert_eq!(text_blocks(&body.messages[0].content), vec!["Part 1".to_string()]);
    assert_eq!(body.messages[1].role, WireRole::Assistant);
    assert_eq!(text_blocks(&body.messages[1].content), vec!["Response".to_string()]);
    assert_eq!(body.messages[2].role, WireRole::User);
    assert_eq!(text_blocks(&body.messages[2].content), vec!["Part 2".to_string()]);

    let url = anthropic_client.messages_url().unwrap();
    assert_eq!(url.as_str(), "http://127.0.0.1:1234/v1/messages");
    let headers = anthropic_client.request_headers();
    assert_eq!(headers[0], ("x-api-key".to_string(), "test".to_string()));
    assert_eq!(headers[1].0, "anthropic-version");

    let frames: Vec<Frame> = vec![
        ("message_start", r#"{"type": "message_start", "message": {"id": "msg_1nZdL29xx5MUA1yADyHTEsnR8uuvGzszyY", "type": "message", "role": "assistant", "content": [], "model": "model", "stop_reason": null, "stop_sequence": null, "usage": {"input_tokens": 25, "output_tokens": 1}}}"#),
        ("content_block_start", r#"{"type": "content_block_start", "index": 0, "content_block": {"type": "text", "text": ""}}"#),
        ("ping", r#"{"type": "ping"}"#),
        ("content_block_delta", r#"{"type": "content_block_delta", "index": 0, "delta": {"type": "text_delta", "text": "My"}}"#),
        ("content_block_delta", r#"{"type": "content_block_delta", "index": 0, "delta": {"type": "text_delta", "text": " response"}}"#),
        ("content_block_stop", r#"{"type": "content_block_stop", "index": 0}"#),
        ("message_delta", r#"{"type": "message_delta", "delta": {"stop_reason": "end_turn", "stop_sequence":null}, "usage": {"output_tokens": 15}}"#),
        ("message_stop", r#"{"type": "message_stop"}"#),
    ]
    .into_iter()
    .map(|(n, d)| Frame::Event { name: n.to_string(), data: d.to_string() })
    .collect();
    let mut result = reconstruct(&frames).into_iter();

    assert_eq!(*result.next().unwrap().unwrap().first().unwrap(), Message::Assistant { parts: vec![
        assistant_part(false, "My")
    ] });
    assert_eq!(*result.next().unwrap().unwrap().first().unwrap(), Message::Assistant { parts: vec![
        assistant_part(false, "My response")
    ] });
    assert_eq!(*result.next().unwrap().unwrap().first().unwrap(), Message::Assistant { parts: vec![
        assistant_part(true, "My response")
    ] });
    assert!(result.next().is_none());
}

#[test]
fn incomplete_parts_are_not_sent() {
    let request = CompletionRequest {
        system: vec![],
        messages: vec![Message::Assistant {
            parts: vec![assistant_part(true, "A"), assistant_part(false, "B"), assistant_part(true, "C")],
        }],
    };
    let body = client("http://localhost").messages_request(&request);
    assert_eq!(text_blocks(&body.messages[0].content), vec!["A".to_string(), "C".to_string()]);
}

#[test]
fn user_parts_keep_their_order() {
    let parts = vec![
        UserMessagePart { content: UserMessageContent::Text { text: "x".to_string() } },
        UserMessagePart { content: UserMessageContent::Text { text: "".to_string() } },
        UserMessagePart { content: UserMessageContent::Text { text: "z".to_string() } },
    ];
    let w = lliminal::wire::WireMessage::from_user_message_parts(&parts);
    assert_eq!(w.role, WireRole::User);
    assert_eq!(text_blocks(&w.content), vec!["x".to_string(), "".to_string(), "z".to_string()]);
}

#[test]
fn finished_messages_round_trip() {
    let conversation = vec![
        user("Hello"),
        Message::Assistant { parts: vec![assistant_part(true, "Hi"), assistant_part(true, " there")] },
        Message::User { parts: vec![] },
    ];
    for m in conversation.iter() {
        let wire = lliminal::wire::WireMessage::from_message(m);
        let decoded = WireResponse { content: wire.content }.to_message();
        let texts = |m: &Message| -> Vec<String> {
            match m {
                Message::User { parts } => parts
                    .iter()
                    .map(|p| match &p.content {
                        UserMessageContent::Text { text } => text.clone(),
                    })
                    .collect(),
                Message::Assistant { parts } => parts
                    .iter()
                    .map(|p| match &p.content {
                        AssistantMessageContent::Text { text } => text.clone(),
                    })
                    .collect(),
            }
        };
        assert_eq!(texts(&decoded), texts(m));
    }
}

#[test]
fn response_decoding_skips_other_blocks() {
    let response = WireResponse {
        content: vec![
            WireContent::Text { text: "a".to_string() },
            WireContent::ToolUse {
                id: "t1".to_string(),
                input: serde_json::Value::Null,
                name: "f".to_string(),
            },
            WireContent::ToolResult {
                tool_use_id: "t1".to_string(),
                content: "r".to_string(),
                is_error: false,
            },
            WireContent::Text { text: "b".to_string() },
        ],
    };
    assert_eq!(
        response.to_message(),
        Message::Assistant { parts: vec![assistant_part(true, "a"), assistant_part(true, "b")] }
    );
    assert_eq!(WireResponse { content: vec![] }.to_message(), Message::Assistant { parts: vec![] });
}

#[test]
fn url_join_resolves_below_base() {
    let c = client("https://example.com/api/");
    assert_eq!(c.messages_url().unwrap().as_str(), "https://example.com/v1/messages");
}
