use vstd::prelude::*;

verus! {

/// A system message, which the model should follow regardless of the other messages.
#[derive(Debug, PartialEq, Eq)]
pub struct SystemPrompt {
    pub content: String,
}

/// A message in a chat which should be completed.
#[derive(Debug, PartialEq, Eq)]
#[allow(inconsistent_fields)]
pub enum Message {
    /// A user message, which may consist of several parts to support multimodality.
    User { parts: Vec<UserMessagePart> },
    /// An assistant message, whose parts may still be in generation.
    Assistant { parts: Vec<AssistantMessagePart> },
}

/// A part of a user message.
#[derive(Debug, PartialEq, Eq)]
pub struct UserMessagePart {
    /// The content of the message part.
    pub content: UserMessageContent,
}

/// The content of a user message part.
#[derive(Debug, PartialEq, Eq)]
pub enum UserMessageContent {
    Text { text: String },
}

/// A part of an assistant message.
#[derive(Debug, PartialEq, Eq)]
pub struct AssistantMessagePart {
    /// Whether the part is complete, or still being generated.
    pub complete: bool,
    /// The content of the part.
    pub content: AssistantMessageContent,
}

/// The content of an assistant message part.
#[derive(Debug, PartialEq, Eq)]
pub enum AssistantMessageContent {
    Text { text: String },
}

/// The media type of an image.
#[derive(Clone, Copy, Debug, PartialEq, Eq, Structural)]
pub enum ImageMediaType {
    JPEG,
    PNG,
    GIF,
    WEBP,
}

/// The media type of an audio recording.
#[derive(Clone, Copy, Debug, PartialEq, Eq, Structural)]
pub enum AudioMediaType {
    WAV,
    MP3,
}

/// The media type of a document.
#[derive(Clone, Copy, Debug, PartialEq, Eq, Structural)]
pub enum FileMediaType {
    PlainText,
    PDF,
}

/// A request of the model to call an external tool, with its arguments as a JSON text.
#[derive(Debug, PartialEq, Eq)]
pub struct ToolCall {
    pub id: String,
    pub function_name: String,
    pub function_args_json: String,
}

/// The kinds of failure of a completion.
#[derive(Clone, Copy, Debug, PartialEq, Eq, Structural)]
pub enum LlmError {
    /// The request could not be sent.
    ConnectionError,
    /// The provider answered with something the protocol does not allow.
    UnexpectedResponse,
}

/// The request which contains all information to generate a text completion.
#[derive(Debug, PartialEq, Eq)]
pub struct CompletionRequest {
    /// The system prompts.
    pub system: Vec<SystemPrompt>,
    /// The previous messages.
    pub messages: Vec<Message>,
}

/// What an assistant message part holds: its completion flag and its text.
pub struct AssistantPartView {
    pub complete: bool,
    pub text: Seq<char>,
}

/// What a message holds: its role, and the text of each of its parts.
#[allow(inconsistent_fields)]
pub enum MessageView {
    User { parts: Seq<Seq<char>> },
    Assistant { parts: Seq<AssistantPartView> },
}

impl View for UserMessageContent {
    type V = Seq<char>;

    open spec fn view(&self) -> Seq<char> {
        match self {
            UserMessageContent::Text { text } => text@,
        }
    }
}

impl View for UserMessagePart {
    type V = Seq<char>;

    open spec fn view(&self) -> Seq<char> {
        self.content@
    }
}

impl View for AssistantMessageContent {
    type V = Seq<char>;

    open spec fn view(&self) -> Seq<char> {
        match self {
            AssistantMessageContent::Text { text } => text@,
        }
    }
}

impl View for AssistantMessagePart {
    type V = AssistantPartView;

    open spec fn view(&self) -> AssistantPartView {
        AssistantPartView { complete: self.complete, text: self.content@ }
    }
}

/// The views of a sequence of user message parts.
pub open spec fn user_parts_view(parts: Seq<UserMessagePart>) -> Seq<Seq<char>> {
    parts.map_values(|p: UserMessagePart| p@)
}

/// The views of a sequence of assistant message parts.
pub open spec fn assistant_parts_view(parts: Seq<AssistantMessagePart>) -> Seq<AssistantPartView> {
    parts.map_values(|p: AssistantMessagePart| p@)
}

impl View for Message {
    type V = MessageView;

    open spec fn view(&self) -> MessageView {
        match self {
            Message::User { parts } => MessageView::User { parts: user_parts_view(parts@) },
            Message::Assistant { parts } => MessageView::Assistant {
                parts: assistant_parts_view(parts@),
            },
        }
    }
}

/// The views of a sequence of messages.
pub open spec fn messages_view(messages: Seq<Message>) -> Seq<MessageView> {
    messages.map_values(|m: Message| m@)
}

/// The text of each part of a message, in order.
pub open spec fn message_texts(m: MessageView) -> Seq<Seq<char>> {
    match m {
        MessageView::User { parts } => parts,
        MessageView::Assistant { parts } => parts.map_values(|p: AssistantPartView| p.text),
    }
}

/// No part of the message is still in generation.
pub open spec fn is_finished(m: MessageView) -> bool {
    match m {
        MessageView::User { .. } => true,
        MessageView::Assistant { parts } => forall|i: int|
            0 <= i < parts.len() ==> (#[trigger] parts[i]).complete,
    }
}

impl Clone for UserMessageContent {
    fn clone(&self) -> (r: Self)
        ensures
            r@ == self@,
    {
        match self {
            UserMessageContent::Text { text } => UserMessageContent::Text { text: text.clone() },
        }
    }
}

impl Clone for UserMessagePart {
    fn clone(&self) -> (r: Self)
        ensures
            r@ == self@,
    {
        UserMessagePart { content: self.content.clone() }
    }
}

impl Clone for AssistantMessageContent {
    fn clone(&self) -> (r: Self)
        ensures
            r@ == self@,
    {
        match self {
            AssistantMessageContent::Text { text } => AssistantMessageContent::Text {
                text: text.clone(),
            },
        }
    }
}

impl Clone for AssistantMessagePart {
    fn clone(&self) -> (r: Self)
        ensures
            r@ == self@,
    {
        AssistantMessagePart { complete: self.complete, content: self.content.clone() }
    }
}

impl Clone for Message {
    fn clone(&self) -> (r: Self)
        ensures
            r@ == self@,
    {
        match self {
            Message::User { parts } => {
                let copy = parts.clone();
                proof {
                    assert(user_parts_view(copy@) =~= user_parts_view(parts@));
                }
                Message::User { parts: copy }
            },
            Message::Assistant { parts } => {
                let copy = parts.clone();
                proof {
                    assert(assistant_parts_view(copy@) =~= assistant_parts_view(parts@));
                }
                Message::Assistant { parts: copy }
            },
        }
    }
}

} // verus!
