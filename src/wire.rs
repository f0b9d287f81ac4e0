use vstd::prelude::*;

use crate::message::{
    AssistantMessageContent, AssistantMessagePart, AssistantPartView, Message, MessageView,
    SystemPrompt, UserMessageContent, UserMessagePart, assistant_parts_view, is_finished,
    message_texts, user_parts_view,
};

verus! {

/// A JSON value, held as the provider sent it.
#[verifier::external_type_specification]
#[verifier::external_body]
pub struct ExValue(serde_json::Value);

/// The author of a message on the wire.
#[derive(Clone, Copy, Debug, PartialEq, Eq, Structural)]
pub enum WireRole {
    User,
    Assistant,
}

/// Where the bytes of an image come from on the wire.
pub struct ImageSource {
    /// The image, base64 encoded.
    pub data: String,
    pub media_type: String,
    /// How `data` is encoded: always `base64`.
    pub encoding_type: String,
}

/// Where the bytes of a document come from on the wire.
pub struct DocumentSource {
    /// The document: base64 for a binary one, the literal text for a plain-text one.
    pub data: String,
    pub media_type: String,
    /// How `data` is encoded: `base64` or `text`.
    pub encoding_type: String,
}

/// A content block on the wire, told apart by its `type` tag.
#[allow(inconsistent_fields)]
pub enum WireContent {
    Text { text: String },
    Image { source: ImageSource },
    Document { source: DocumentSource },
    ToolUse { id: String, input: serde_json::Value, name: String },
    ToolResult { tool_use_id: String, content: String, is_error: bool },
}

/// A message on the wire.
pub struct WireMessage {
    pub role: WireRole,
    pub content: Vec<WireContent>,
}

/// A system prompt on the wire.
pub struct WireSystemPrompt {
    pub text: String,
    /// Always `text`.
    pub encoding_type: String,
}

/// The body of a request for a completion.
pub struct MessagesRequest {
    pub model: String,
    pub max_tokens: u32,
    pub system: Vec<WireSystemPrompt>,
    pub messages: Vec<WireMessage>,
    pub stream: bool,
}

/// The body of a completion that was not streamed.
pub struct WireResponse {
    pub content: Vec<WireContent>,
}

/// What a content block on the wire holds.
#[allow(inconsistent_fields)]
pub enum WireBlock {
    Text { text: Seq<char> },
    Image { data: Seq<char>, media_type: Seq<char>, encoding_type: Seq<char> },
    Document { data: Seq<char>, media_type: Seq<char>, encoding_type: Seq<char> },
    ToolUse { id: Seq<char>, input: serde_json::Value, name: Seq<char> },
    ToolResult { tool_use_id: Seq<char>, content: Seq<char>, is_error: bool },
}

/// What a message on the wire holds.
pub struct WireMessageView {
    pub role: WireRole,
    pub content: Seq<WireBlock>,
}

impl View for WireContent {
    type V = WireBlock;

    open spec fn view(&self) -> WireBlock {
        match self {
            WireContent::Text { text } => WireBlock::Text { text: text@ },
            WireContent::Image { source } => WireBlock::Image {
                data: source.data@,
                media_type: source.media_type@,
                encoding_type: source.encoding_type@,
            },
            WireContent::Document { source } => WireBlock::Document {
                data: source.data@,
                media_type: source.media_type@,
                encoding_type: source.encoding_type@,
            },
            WireContent::ToolUse { id, input, name } => WireBlock::ToolUse {
                id: id@,
                input: *input,
                name: name@,
            },
            WireContent::ToolResult { tool_use_id, content, is_error } => WireBlock::ToolResult {
                tool_use_id: tool_use_id@,
                content: content@,
                is_error: *is_error,
            },
        }
    }
}

/// The views of a sequence of content blocks.
pub open spec fn blocks_view(blocks: Seq<WireContent>) -> Seq<WireBlock> {
    blocks.map_values(|b: WireContent| b@)
}

impl View for WireMessage {
    type V = WireMessageView;

    open spec fn view(&self) -> WireMessageView {
        WireMessageView { role: self.role, content: blocks_view(self.content@) }
    }
}

/// The blocks of a user message: one text block per part, in order.
pub open spec fn user_blocks(parts: Seq<Seq<char>>) -> Seq<WireBlock> {
    parts.map_values(|t: Seq<char>| WireBlock::Text { text: t })
}

/// The blocks of an assistant message: one text block per complete part, in
/// order; a part still in generation is left out.
pub open spec fn assistant_blocks(parts: Seq<AssistantPartView>) -> Seq<WireBlock>
    decreases parts.len(),
{
    if parts.len() == 0 {
        Seq::empty()
    } else {
        let rest = assistant_blocks(parts.drop_last());
        if parts.last().complete {
            rest.push(WireBlock::Text { text: parts.last().text })
        } else {
            rest
        }
    }
}

/// The wire form of a message.
pub open spec fn wire_message(m: MessageView) -> WireMessageView {
    match m {
        MessageView::User { parts } => WireMessageView {
            role: WireRole::User,
            content: user_blocks(parts),
        },
        MessageView::Assistant { parts } => WireMessageView {
            role: WireRole::Assistant,
            content: assistant_blocks(parts),
        },
    }
}

/// The parts that a response's blocks decode to: one complete part per text
/// block, in order; other blocks are passed over.
pub open spec fn decoded_parts(blocks: Seq<WireBlock>) -> Seq<AssistantPartView>
    decreases blocks.len(),
{
    if blocks.len() == 0 {
        Seq::empty()
    } else {
        let rest = decoded_parts(blocks.drop_last());
        match blocks.last() {
            WireBlock::Text { text } => rest.push(AssistantPartView { complete: true, text }),
            _ => rest,
        }
    }
}

/// The assistant message that a response's blocks decode to.
pub open spec fn decoded(blocks: Seq<WireBlock>) -> MessageView {
    MessageView::Assistant { parts: decoded_parts(blocks) }
}

impl WireMessage {
    /// The wire form of a user message with these parts.
    pub fn from_user_message_parts(parts: &[UserMessagePart]) -> (r: WireMessage)
        ensures
            r@ == wire_message(MessageView::User { parts: user_parts_view(parts@) }),
    {
        let mut content: Vec<WireContent> = Vec::new();
        let mut i: usize = 0;
        while i < parts.len()
            invariant
                0 <= i <= parts@.len(),
                content@.len() == i,
                forall|j: int|
                    0 <= j < i ==> (#[trigger] content@[j])@ == (WireBlock::Text {
                        text: parts@[j]@,
                    }),
            decreases parts@.len() - i,
        {
            match &parts[i].content {
                UserMessageContent::Text { text } => {
                    content.push(WireContent::Text { text: text.clone() });
                },
            }
            i = i + 1;
        }
        let r = WireMessage { role: WireRole::User, content };
        proof {
            assert(blocks_view(r.content@) =~= user_blocks(user_parts_view(parts@)));
        }
        r
    }

    /// The wire form of an assistant message with these parts: its complete
    /// parts only, since a part in generation is never sent back.
    pub fn from_assistant_message_parts(parts: &[AssistantMessagePart]) -> (r: WireMessage)
        ensures
            r@ == wire_message(MessageView::Assistant { parts: assistant_parts_view(parts@) }),
    {
        let ghost pv = assistant_parts_view(parts@);
        let mut content: Vec<WireContent> = Vec::new();
        let mut i: usize = 0;
        proof {
            assert(pv.take(0) =~= Seq::<AssistantPartView>::empty());
        }
        while i < parts.len()
            invariant
                0 <= i <= parts@.len(),
                pv == assistant_parts_view(parts@),
                blocks_view(content@) == assistant_blocks(pv.take(i as int)),
            decreases parts@.len() - i,
        {
            let ghost before = content@;
            let part = &parts[i];
            if part.complete {
                match &part.content {
                    AssistantMessageContent::Text { text } => {
                        content.push(WireContent::Text { text: text.clone() });
                    },
                }
                proof {
                    assert(blocks_view(content@) =~= blocks_view(before).push(content@.last()@));
                }
            }
            proof {
                assert(pv.take(i + 1).drop_last() =~= pv.take(i as int));
            }
            i = i + 1;
        }
        proof {
            assert(pv.take(parts@.len() as int) =~= pv);
        }
        WireMessage { role: WireRole::Assistant, content }
    }

    /// The wire form of a message.
    pub fn from_message(value: &Message) -> (r: WireMessage)
        ensures
            r@ == wire_message(value@),
    {
        match value {
            Message::User { parts } => WireMessage::from_user_message_parts(parts.as_slice()),
            Message::Assistant { parts } => WireMessage::from_assistant_message_parts(
                parts.as_slice(),
            ),
        }
    }
}

impl WireSystemPrompt {
    /// The wire form of a system prompt: its content, as text.
    pub fn from_system_prompt(value: &SystemPrompt) -> (r: WireSystemPrompt)
        ensures
            r.text@ == value.content@,
            r.encoding_type@ == "text"@,
    {
        WireSystemPrompt { text: value.content.clone(), encoding_type: "text".to_owned() }
    }
}

impl WireResponse {
    /// The completed assistant message of a response that was not streamed: one
    /// complete part per text block, in order; other blocks are passed over.
    pub fn to_message(&self) -> (r: Message)
        ensures
            r@ == decoded(blocks_view(self.content@)),
    {
        let ghost bv = blocks_view(self.content@);
        let mut parts: Vec<AssistantMessagePart> = Vec::new();
        let mut i: usize = 0;
        proof {
            assert(bv.take(0) =~= Seq::<WireBlock>::empty());
        }
        while i < self.content.len()
            invariant
                0 <= i <= self.content@.len(),
                bv == blocks_view(self.content@),
                assistant_parts_view(parts@) == decoded_parts(bv.take(i as int)),
            decreases self.content@.len() - i,
        {
            let ghost before = parts@;
            match &self.content[i] {
                WireContent::Text { text } => {
                    parts.push(
                        AssistantMessagePart {
                            complete: true,
                            content: AssistantMessageContent::Text { text: text.clone() },
                        },
                    );
                    proof {
                        assert(assistant_parts_view(parts@) =~= assistant_parts_view(before).push(
                            parts@.last()@,
                        ));
                    }
                },
                _ => {},
            }
            proof {
                assert(bv.take(i + 1).drop_last() =~= bv.take(i as int));
            }
            i = i + 1;
        }
        proof {
            assert(bv.take(self.content@.len() as int) =~= bv);
        }
        Message::Assistant { parts }
    }
}

proof fn lemma_user_round_trip(parts: Seq<Seq<char>>)
    ensures
        decoded_parts(user_blocks(parts)) == parts.map_values(
            |t: Seq<char>| AssistantPartView { complete: true, text: t },
        ),
    decreases parts.len(),
{
    if parts.len() > 0 {
        lemma_user_round_trip(parts.drop_last());
        assert(user_blocks(parts).drop_last() =~= user_blocks(parts.drop_last()));
        assert(decoded_parts(user_blocks(parts)) =~= parts.map_values(
            |t: Seq<char>| AssistantPartView { complete: true, text: t },
        ));
    }
}

proof fn lemma_assistant_round_trip(parts: Seq<AssistantPartView>)
    requires
        forall|i: int| 0 <= i < parts.len() ==> (#[trigger] parts[i]).complete,
    ensures
        decoded_parts(assistant_blocks(parts)) == parts,
    decreases parts.len(),
{
    if parts.len() > 0 {
        let rest = parts.drop_last();
        assert forall|i: int| 0 <= i < rest.len() implies (#[trigger] rest[i]).complete by {
            assert(rest[i] == parts[i]);
        }
        lemma_assistant_round_trip(rest);
        assert(parts.last().complete);
        assert(assistant_blocks(parts).drop_last() =~= assistant_blocks(rest));
        assert(decoded_parts(assistant_blocks(parts)) =~= parts);
    }
}

/// Finished messages survive the wire: for a conversation whose assistant
/// messages hold only complete parts, each message, once encoded, decodes from a
/// response made of its blocks to the same texts, in the same order.
pub proof fn lemma_round_trip(conversation: Seq<MessageView>)
    requires
        forall|i: int| 0 <= i < conversation.len() ==> is_finished(#[trigger] conversation[i]),
    ensures
        forall|i: int|
            0 <= i < conversation.len() ==> message_texts(
                decoded(#[trigger] wire_message(conversation[i]).content),
            ) == message_texts(conversation[i]),
{
    assert forall|i: int| 0 <= i < conversation.len() implies message_texts(
        decoded(#[trigger] wire_message(conversation[i]).content),
    ) == message_texts(conversation[i]) by {
        assert(is_finished(conversation[i]));
        match conversation[i] {
            MessageView::User { parts } => {
                lemma_user_round_trip(parts);
                assert(message_texts(decoded(wire_message(conversation[i]).content)) =~= parts);
            },
            MessageView::Assistant { parts } => {
                lemma_assistant_round_trip(parts);
            },
        }
    }
}

} // verus!
