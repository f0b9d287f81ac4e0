use vstd::prelude::*;
use vstd::string::StringSliceAdditionalSpecFns;
use vstd::utf8::encode_utf8_decode_utf8;

use crate::wire::{decoded, lemma_round_trip, wire_message};
use crate::message::{
    AssistantMessageContent, AssistantMessagePart, AssistantPartView, LlmError, Message,
    MessageView, is_finished, message_texts, messages_view,
};

verus! {

/// The text at `delta.text` of a JSON document, when the document parses and
/// that field holds a string.
pub uninterp spec fn delta_text(data: Seq<char>) -> Option<Seq<char>>;

/// Relies on `serde_json::from_str` into a `serde_json::Value`, and on `Value`'s
/// indexing and `as_str`, to read the text of a `content_block_delta` payload.
#[verifier::external_body]
fn parse_delta_text(data: &str) -> (r: Option<String>)
    ensures
        match r {
            Some(t) => delta_text(data@) == Some(t@),
            None => delta_text(data@) is None,
        },
{
    match serde_json::from_str::<serde_json::Value>(data) {
        Ok(value) => value["delta"]["text"].as_str().map(|t| t.to_string()),
        Err(_) => None,
    }
}

/// Whether two strings hold the same characters.
fn same_text(a: &str, b: &str) -> (r: bool)
    ensures
        r == (a@ == b@),
{
    let x = a.as_bytes();
    let y = b.as_bytes();
    proof {
        encode_utf8_decode_utf8(a@);
        encode_utf8_decode_utf8(b@);
    }
    if x.len() != y.len() {
        return false;
    }
    let mut i: usize = 0;
    while i < x.len()
        invariant
            0 <= i <= x@.len(),
            x@.len() == y@.len(),
            x@ == a.spec_bytes(),
            y@ == b.spec_bytes(),
            forall|j: int| 0 <= j < i ==> x@[j] == y@[j],
        decreases x@.len() - i,
    {
        if x[i] != y[i] {
            return false;
        }
        i = i + 1;
    }
    proof {
        assert(x@ =~= y@);
    }
    true
}

/// A server-sent event of the completion stream, with its payload read.
#[derive(Debug, PartialEq, Eq)]
pub enum StreamEvent {
    MessageStart,
    ContentBlockStart,
    /// A `content_block_delta` whose payload holds this text.
    ContentBlockDelta { text: String },
    /// A `content_block_delta` whose payload could not be read.
    MalformedDelta,
    ContentBlockStop,
    MessageDelta,
    MessageStop,
    Ping,
    /// An event whose name the protocol does not know.
    Unknown,
    /// A frame that the transport could not decode into an event.
    MalformedFrame,
}

/// What a stream event holds.
pub enum StreamEventView {
    MessageStart,
    ContentBlockStart,
    ContentBlockDelta { text: Seq<char> },
    MalformedDelta,
    ContentBlockStop,
    MessageDelta,
    MessageStop,
    Ping,
    Unknown,
    MalformedFrame,
}

impl View for StreamEvent {
    type V = StreamEventView;

    open spec fn view(&self) -> StreamEventView {
        match self {
            StreamEvent::MessageStart => StreamEventView::MessageStart,
            StreamEvent::ContentBlockStart => StreamEventView::ContentBlockStart,
            StreamEvent::ContentBlockDelta { text } => StreamEventView::ContentBlockDelta {
                text: text@,
            },
            StreamEvent::MalformedDelta => StreamEventView::MalformedDelta,
            StreamEvent::ContentBlockStop => StreamEventView::ContentBlockStop,
            StreamEvent::MessageDelta => StreamEventView::MessageDelta,
            StreamEvent::MessageStop => StreamEventView::MessageStop,
            StreamEvent::Ping => StreamEventView::Ping,
            StreamEvent::Unknown => StreamEventView::Unknown,
            StreamEvent::MalformedFrame => StreamEventView::MalformedFrame,
        }
    }
}

/// The event that a frame with this name and payload stands for.
pub open spec fn event_of(name: Seq<char>, data: Seq<char>) -> StreamEventView {
    if name == "message_start"@ {
        StreamEventView::MessageStart
    } else if name == "content_block_start"@ {
        StreamEventView::ContentBlockStart
    } else if name == "content_block_delta"@ {
        match delta_text(data) {
            Some(text) => StreamEventView::ContentBlockDelta { text },
            None => StreamEventView::MalformedDelta,
        }
    } else if name == "content_block_stop"@ {
        StreamEventView::ContentBlockStop
    } else if name == "message_delta"@ {
        StreamEventView::MessageDelta
    } else if name == "message_stop"@ {
        StreamEventView::MessageStop
    } else if name == "ping"@ {
        StreamEventView::Ping
    } else {
        StreamEventView::Unknown
    }
}

impl StreamEvent {
    /// Reads a frame's event name, and for a `content_block_delta` its payload.
    pub fn parse(name: &str, data: &str) -> (r: StreamEvent)
        ensures
            r@ == event_of(name@, data@),
    {
        if same_text(name, "message_start") {
            StreamEvent::MessageStart
        } else if same_text(name, "content_block_start") {
            StreamEvent::ContentBlockStart
        } else if same_text(name, "content_block_delta") {
            match parse_delta_text(data) {
                Some(text) => StreamEvent::ContentBlockDelta { text },
                None => StreamEvent::MalformedDelta,
            }
        } else if same_text(name, "content_block_stop") {
            StreamEvent::ContentBlockStop
        } else if same_text(name, "message_delta") {
            StreamEvent::MessageDelta
        } else if same_text(name, "message_stop") {
            StreamEvent::MessageStop
        } else if same_text(name, "ping") {
            StreamEvent::Ping
        } else {
            StreamEvent::Unknown
        }
    }
}

/// The phase of the protocol, with the text of the block in transfer.
pub enum Phase {
    Init,
    MessageTransferring,
    ContentBlockStarted { current: Seq<char> },
    MessageCompleted,
    ResponseCompleted,
}

/// The state of a reconstruction: its phase and the texts of the finished blocks.
pub struct StreamModel {
    pub phase: Phase,
    pub finished: Seq<Seq<char>>,
}

/// What a step hands to the consumer, if anything.
pub type Emission = Option<Result<Seq<MessageView>, LlmError>>;

/// The state before any event.
pub open spec fn initial_model() -> StreamModel {
    StreamModel { phase: Phase::Init, finished: Seq::empty() }
}

/// The parts of the answer so far: the finished blocks, complete, then the block
/// in transfer, if any, incomplete.
pub open spec fn snapshot_parts(m: StreamModel) -> Seq<AssistantPartView> {
    let done = m.finished.map_values(|t: Seq<char>| AssistantPartView { complete: true, text: t });
    match m.phase {
        Phase::ContentBlockStarted { current } => done.push(
            AssistantPartView { complete: false, text: current },
        ),
        _ => done,
    }
}

/// The answer so far, as a conversation of one assistant message.
pub open spec fn snapshot(m: StreamModel) -> Seq<MessageView> {
    seq![MessageView::Assistant { parts: snapshot_parts(m) }]
}

/// The emission of an event that the protocol does not allow here.
pub open spec fn rejected() -> Emission {
    Some(Err(LlmError::UnexpectedResponse))
}

/// One transition of the protocol: the next state, and what is handed on.
pub open spec fn step(m: StreamModel, e: StreamEventView) -> (StreamModel, Emission) {
    match e {
        StreamEventView::MessageStart => if m.phase is Init {
            (StreamModel { phase: Phase::MessageTransferring, finished: m.finished }, None)
        } else {
            (m, rejected())
        },
        StreamEventView::ContentBlockStart => if m.phase is MessageTransferring {
            (
                StreamModel {
                    phase: Phase::ContentBlockStarted { current: Seq::empty() },
                    finished: m.finished,
                },
                None,
            )
        } else {
            (m, rejected())
        },
        StreamEventView::ContentBlockDelta { text } => match m.phase {
            Phase::ContentBlockStarted { current } => {
                let next = StreamModel {
                    phase: Phase::ContentBlockStarted { current: current + text },
                    finished: m.finished,
                };
                (next, Some(Ok(snapshot(next))))
            },
            _ => (m, rejected()),
        },
        StreamEventView::ContentBlockStop => match m.phase {
            Phase::ContentBlockStarted { current } => {
                let next = StreamModel {
                    phase: Phase::MessageTransferring,
                    finished: m.finished.push(current),
                };
                (next, Some(Ok(snapshot(next))))
            },
            _ => (m, rejected()),
        },
        StreamEventView::MessageDelta => if m.phase is MessageTransferring {
            (StreamModel { phase: Phase::ResponseCompleted, finished: m.finished }, None)
        } else {
            (m, rejected())
        },
        StreamEventView::MessageStop => if m.phase is MessageTransferring {
            (StreamModel { phase: Phase::MessageCompleted, finished: m.finished }, None)
        } else {
            (m, rejected())
        },
        StreamEventView::Ping => (m, None),
        StreamEventView::MalformedDelta => (m, rejected()),
        StreamEventView::Unknown => (m, rejected()),
        StreamEventView::MalformedFrame => (m, rejected()),
    }
}

/// What a step hands on, as the consumer sees it.
pub open spec fn emission_view(r: Option<Result<Vec<Message>, LlmError>>) -> Emission {
    match r {
        Some(Ok(messages)) => Some(Ok(messages_view(messages@))),
        Some(Err(e)) => Some(Err(e)),
        None => None,
    }
}

enum StreamingResponseState {
    Init,
    MessageTransferring,
    ContentBlockStarted { current_content: AssistantMessageContent },
    MessageCompleted,
    ResponseCompleted,
}

impl View for StreamingResponseState {
    type V = Phase;

    closed spec fn view(&self) -> Phase {
        match self {
            StreamingResponseState::Init => Phase::Init,
            StreamingResponseState::MessageTransferring => Phase::MessageTransferring,
            StreamingResponseState::ContentBlockStarted { current_content } => {
                Phase::ContentBlockStarted { current: current_content@ }
            },
            StreamingResponseState::MessageCompleted => Phase::MessageCompleted,
            StreamingResponseState::ResponseCompleted => Phase::ResponseCompleted,
        }
    }
}

/// Reconstructs the answer of a streamed completion, one event at a time.
pub struct StreamingResponseStateHolder {
    state: StreamingResponseState,
    response_parts: Vec<AssistantMessageContent>,
}

impl View for StreamingResponseStateHolder {
    type V = StreamModel;

    closed spec fn view(&self) -> StreamModel {
        StreamModel {
            phase: self.state@,
            finished: self.response_parts@.map_values(|c: AssistantMessageContent| c@),
        }
    }
}

impl StreamingResponseStateHolder {
    /// A reconstruction that has seen no event.
    pub fn new() -> (r: Self)
        ensures
            r@ == initial_model(),
    {
        let r = StreamingResponseStateHolder {
            state: StreamingResponseState::Init,
            response_parts: Vec::new(),
        };
        proof {
            assert(r@.finished =~= Seq::<Seq<char>>::empty());
        }
        r
    }

    /// Takes one event of the stream; hands back the answer so far when the event
    /// changed it, or an error when the protocol does not allow the event here.
    pub fn apply(&mut self, event: StreamEvent) -> (r: Option<Result<Vec<Message>, LlmError>>)
        ensures
            final(self)@ == step(old(self)@, event@).0,
            emission_view(r) == step(old(self)@, event@).1,
    {
        match event {
            StreamEvent::MessageStart => {
                if let StreamingResponseState::Init = self.state {
                    self.state = StreamingResponseState::MessageTransferring;
                    None
                } else {
                    Some(Err(LlmError::UnexpectedResponse))
                }
            },
            StreamEvent::ContentBlockStart => {
                if let StreamingResponseState::MessageTransferring = self.state {
                    self.state = StreamingResponseState::ContentBlockStarted {
                        current_content: AssistantMessageContent::Text { text: String::new() },
                    };
                    None
                } else {
                    Some(Err(LlmError::UnexpectedResponse))
                }
            },
            StreamEvent::ContentBlockDelta { text } => {
                let extended = match &self.state {
                    StreamingResponseState::ContentBlockStarted { current_content } => {
                        match current_content {
                            AssistantMessageContent::Text { text: current } => {
                                Some(current.clone().concat(text.as_str()))
                            },
                        }
                    },
                    _ => None,
                };
                match extended {
                    Some(next) => {
                        self.state = StreamingResponseState::ContentBlockStarted {
                            current_content: AssistantMessageContent::Text { text: next },
                        };
                        Some(Ok(self.current_response()))
                    },
                    None => Some(Err(LlmError::UnexpectedResponse)),
                }
            },
            StreamEvent::ContentBlockStop => {
                let finished = match &self.state {
                    StreamingResponseState::ContentBlockStarted { current_content } => {
                        Some(current_content.clone())
                    },
                    _ => None,
                };
                match finished {
                    Some(content) => {
                        self.response_parts.push(content);
                        self.state = StreamingResponseState::MessageTransferring;
                        proof {
                            assert(self@.finished =~= old(self)@.finished.push(content@));
                        }
                        Some(Ok(self.current_response()))
                    },
                    None => Some(Err(LlmError::UnexpectedResponse)),
                }
            },
            StreamEvent::MessageDelta => {
                if let StreamingResponseState::MessageTransferring = self.state {
                    self.state = StreamingResponseState::ResponseCompleted;
                    None
                } else {
                    Some(Err(LlmError::UnexpectedResponse))
                }
            },
            StreamEvent::MessageStop => {
                if let StreamingResponseState::MessageTransferring = self.state {
                    self.state = StreamingResponseState::MessageCompleted;
                    None
                } else {
                    Some(Err(LlmError::UnexpectedResponse))
                }
            },
            StreamEvent::Ping => None,
            StreamEvent::MalformedDelta => Some(Err(LlmError::UnexpectedResponse)),
            StreamEvent::Unknown => Some(Err(LlmError::UnexpectedResponse)),
            StreamEvent::MalformedFrame => Some(Err(LlmError::UnexpectedResponse)),
        }
    }

    /// Takes a frame that the transport could not decode: an `UnexpectedResponse`
    /// error, with the state left as it was.
    pub fn handle_malformed_frame(&mut self) -> (r: Option<Result<Vec<Message>, LlmError>>)
        ensures
            final(self)@ == step(old(self)@, StreamEventView::MalformedFrame).0,
            emission_view(r) == step(old(self)@, StreamEventView::MalformedFrame).1,
    {
        self.apply(StreamEvent::MalformedFrame)
    }

    /// Takes one frame of the stream, by its event name and payload.
    pub fn handle_event(&mut self, event: &str, data: &str) -> (r: Option<
        Result<Vec<Message>, LlmError>,
    >)
        ensures
            final(self)@ == step(old(self)@, event_of(event@, data@)).0,
            emission_view(r) == step(old(self)@, event_of(event@, data@)).1,
    {
        let e = StreamEvent::parse(event, data);
        self.apply(e)
    }

    /// The answer so far: the finished blocks, complete, then the block in
    /// transfer, if any, incomplete, as one assistant message.
    pub fn current_response(&self) -> (r: Vec<Message>)
        ensures
            messages_view(r@) == snapshot(self@),
    {
        let mut parts: Vec<AssistantMessagePart> = Vec::new();
        let mut i: usize = 0;
        while i < self.response_parts.len()
            invariant
                0 <= i <= self.response_parts@.len(),
                parts@.len() == i,
                forall|j: int|
                    0 <= j < i ==> (#[trigger] parts@[j]).complete && parts@[j].content@
                        == self.response_parts@[j]@,
            decreases self.response_parts@.len() - i,
        {
            parts.push(
                AssistantMessagePart { complete: true, content: self.response_parts[i].clone() },
            );
            i = i + 1;
        }
        if let StreamingResponseState::ContentBlockStarted { current_content } = &self.state {
            parts.push(AssistantMessagePart { complete: false, content: current_content.clone() });
        }
        let ghost parts_view = parts@;
        let mut r: Vec<Message> = Vec::new();
        r.push(Message::Assistant { parts });
        proof {
            assert(crate::message::assistant_parts_view(parts_view) =~= snapshot_parts(self@));
            assert(messages_view(r@) =~= snapshot(self@));
        }
        r
    }

    /// Whether the response is complete, after which no event is to be read.
    pub fn is_completed(&self) -> (r: bool)
        ensures
            r == (self@.phase is ResponseCompleted),
    {
        matches!(self.state, StreamingResponseState::ResponseCompleted)
    }
}

/// One event as seen by a consumer that reads no further once the response is
/// completed.
pub open spec fn consume(m: StreamModel, e: StreamEventView) -> (StreamModel, Emission) {
    if m.phase is ResponseCompleted {
        (m, None)
    } else {
        step(m, e)
    }
}

/// The state after a sequence of events, and the results handed on in order.
pub open spec fn run(m: StreamModel, events: Seq<StreamEventView>) -> (
    StreamModel,
    Seq<Result<Seq<MessageView>, LlmError>>,
)
    decreases events.len(),
{
    if events.len() == 0 {
        (m, Seq::empty())
    } else {
        let prev = run(m, events.drop_last());
        let next = consume(prev.0, events.last());
        (
            next.0,
            match next.1 {
                Some(x) => prev.1.push(x),
                None => prev.1,
            },
        )
    }
}

/// A frame of the event stream as the transport delivers it.
#[derive(Clone, Debug, PartialEq, Eq)]
pub enum Frame {
    /// A decoded frame: its event name and its payload.
    Event { name: String, data: String },
    /// A frame whose framing could not be decoded.
    Malformed,
}

/// The event that a frame stands for.
pub open spec fn frame_event(f: Frame) -> StreamEventView {
    match f {
        Frame::Event { name, data } => event_of(name@, data@),
        Frame::Malformed => StreamEventView::MalformedFrame,
    }
}

/// The events that a sequence of frames stands for.
pub open spec fn frames_view(frames: Seq<Frame>) -> Seq<StreamEventView> {
    frames.map_values(|f: Frame| frame_event(f))
}

/// The views of a sequence of results.
pub open spec fn results_view(results: Seq<Result<Vec<Message>, LlmError>>) -> Seq<
    Result<Seq<MessageView>, LlmError>,
> {
    results.map_values(
        |x: Result<Vec<Message>, LlmError>|
            match x {
                Ok(messages) => Ok(messages_view(messages@)),
                Err(e) => Err(e),
            },
    )
}

proof fn lemma_run_stops_when_completed(m: StreamModel, events: Seq<StreamEventView>, i: int, j: int)
    requires
        0 <= i <= j <= events.len(),
        run(m, events.take(i)).0.phase is ResponseCompleted,
    ensures
        run(m, events.take(j)) == run(m, events.take(i)),
    decreases j - i,
{
    if j > i {
        lemma_run_stops_when_completed(m, events, i, j - 1);
        assert(events.take(j).drop_last() =~= events.take(j - 1));
    }
}

/// Reconstructs the answers of a whole stream of frames, reading no frame after
/// the response is completed.
pub fn reconstruct(frames: &[Frame]) -> (r: Vec<Result<Vec<Message>, LlmError>>)
    ensures
        results_view(r@) == run(initial_model(), frames_view(frames@)).1,
{
    let ghost events = frames_view(frames@);
    let mut holder = StreamingResponseStateHolder::new();
    let mut results: Vec<Result<Vec<Message>, LlmError>> = Vec::new();
    let mut i: usize = 0;
    proof {
        assert(events.take(0) =~= Seq::<StreamEventView>::empty());
    }
    while i < frames.len() && !holder.is_completed()
        invariant
            0 <= i <= frames@.len(),
            events == frames_view(frames@),
            holder@ == run(initial_model(), events.take(i as int)).0,
            results_view(results@) == run(initial_model(), events.take(i as int)).1,
        decreases frames@.len() - i,
    {
        let ghost before = results@;
        let r = match &frames[i] {
            Frame::Event { name, data } => holder.handle_event(name.as_str(), data.as_str()),
            Frame::Malformed => holder.handle_malformed_frame(),
        };
        match r {
            Some(x) => {
                results.push(x);
                proof {
                    assert(results_view(results@) =~= results_view(before).push(
                        results_view(results@).last(),
                    ));
                }
            },
            None => {},
        }
        proof {
            assert(events.take(i + 1).drop_last() =~= events.take(i as int));
        }
        i = i + 1;
    }
    proof {
        if i < frames.len() {
            lemma_run_stops_when_completed(initial_model(), events, i as int, events.len() as int);
        }
        assert(events.take(events.len() as int) =~= events);
    }
    results
}

/// The text of each part of the last message of a snapshot.
pub open spec fn answer_texts(s: Seq<MessageView>) -> Seq<Seq<char>> {
    if s.len() == 0 {
        Seq::empty()
    } else {
        message_texts(s.last())
    }
}

/// Every text of `shorter` is a prefix of the text at the same place in `longer`.
pub open spec fn extends(longer: Seq<Seq<char>>, shorter: Seq<Seq<char>>) -> bool {
    &&& shorter.len() <= longer.len()
    &&& forall|i: int| 0 <= i < shorter.len() ==> (#[trigger] shorter[i]).is_prefix_of(longer[i])
}

proof fn lemma_extends_refl(a: Seq<Seq<char>>)
    ensures
        extends(a, a),
{
    assert forall|i: int| 0 <= i < a.len() implies (#[trigger] a[i]).is_prefix_of(a[i]) by {
        assert(a[i] =~= a[i].subrange(0, a[i].len() as int));
    }
}

proof fn lemma_extends_trans(a: Seq<Seq<char>>, b: Seq<Seq<char>>, c: Seq<Seq<char>>)
    requires
        extends(b, a),
        extends(c, b),
    ensures
        extends(c, a),
{
    assert forall|i: int| 0 <= i < a.len() implies (#[trigger] a[i]).is_prefix_of(c[i]) by {
        assert(a[i].is_prefix_of(b[i]));
        assert(b[i].is_prefix_of(c[i]));
        assert(a[i] =~= c[i].subrange(0, a[i].len() as int));
    }
}

proof fn lemma_consume_extends(m: StreamModel, e: StreamEventView)
    ensures
        extends(answer_texts(snapshot(consume(m, e).0)), answer_texts(snapshot(m))),
        consume(m, e).1 matches Some(Ok(s)) ==> s == snapshot(consume(m, e).0),
        consume(m, e).1 matches Some(Err(_)) ==> consume(m, e).0 == m,
{
    let next = consume(m, e).0;
    let old_texts = answer_texts(snapshot(m));
    let new_texts = answer_texts(snapshot(next));
    let done = m.finished.map_values(|t: Seq<char>| AssistantPartView { complete: true, text: t });
    assert(old_texts =~= snapshot_parts(m).map_values(|p: AssistantPartView| p.text));
    assert(new_texts =~= snapshot_parts(next).map_values(|p: AssistantPartView| p.text));
    if next.finished == m.finished && (next.phase is ContentBlockStarted) == (
    m.phase is ContentBlockStarted) && (next.phase is ContentBlockStarted ==> next.phase
        == m.phase) {
        assert(snapshot_parts(next) =~= snapshot_parts(m));
        lemma_extends_refl(old_texts);
    } else {
        match m.phase {
            Phase::ContentBlockStarted { current } => {
                if next.phase is ContentBlockStarted {
                    let added = next.phase->current;
                    assert(current.is_prefix_of(added)) by {
                        assert(current =~= added.subrange(0, current.len() as int));
                    }
                    assert(new_texts.len() == old_texts.len());
                    assert forall|i: int| 0 <= i < old_texts.len() implies (
                    #[trigger] old_texts[i]).is_prefix_of(new_texts[i]) by {
                        if i < old_texts.len() - 1 {
                            assert(old_texts[i] == new_texts[i]);
                            assert(old_texts[i] =~= new_texts[i].subrange(0, old_texts[i].len() as int));
                        }
                    }
                } else {
                    assert(snapshot_parts(next) =~= done.push(
                        AssistantPartView { complete: true, text: current },
                    ));
                    assert(new_texts =~= old_texts);
                    lemma_extends_refl(old_texts);
                }
            },
            _ => {
                assert(snapshot_parts(m) =~= done);
                assert(snapshot_parts(next) =~= done.push(
                    AssistantPartView { complete: false, text: Seq::empty() },
                ));
                assert forall|i: int| 0 <= i < old_texts.len() implies (
                #[trigger] old_texts[i]).is_prefix_of(new_texts[i]) by {
                    assert(old_texts[i] == new_texts[i]);
                    assert(old_texts[i] =~= new_texts[i].subrange(0, old_texts[i].len() as int));
                }
            },
        }
    }
}

proof fn lemma_run_extends(m: StreamModel, events: Seq<StreamEventView>)
    ensures
        forall|i: int|
            0 <= i < run(m, events).1.len() && (#[trigger] run(m, events).1[i]) is Ok ==> extends(
                answer_texts(snapshot(run(m, events).0)),
                answer_texts(run(m, events).1[i]->Ok_0),
            ),
        forall|i: int, j: int|
            0 <= i < j < run(m, events).1.len() && (#[trigger] run(m, events).1[i]) is Ok && (
            #[trigger] run(m, events).1[j]) is Ok ==> extends(
                answer_texts(run(m, events).1[j]->Ok_0),
                answer_texts(run(m, events).1[i]->Ok_0),
            ),
    decreases events.len(),
{
    if events.len() > 0 {
        let prev = run(m, events.drop_last());
        lemma_run_extends(m, events.drop_last());
        lemma_consume_extends(prev.0, events.last());
        let out = run(m, events).1;
        let now = answer_texts(snapshot(run(m, events).0));
        let before = answer_texts(snapshot(prev.0));
        assert forall|i: int| 0 <= i < out.len() && (#[trigger] out[i]) is Ok implies extends(
            now,
            answer_texts(out[i]->Ok_0),
        ) by {
            if i < prev.1.len() {
                assert(out[i] == prev.1[i]);
                lemma_extends_trans(answer_texts(out[i]->Ok_0), before, now);
            } else {
                lemma_extends_refl(now);
            }
        }
        assert forall|i: int, j: int|
            0 <= i < j < out.len() && (#[trigger] out[i]) is Ok && (#[trigger] out[j]) is Ok implies extends(
            answer_texts(out[j]->Ok_0),
            answer_texts(out[i]->Ok_0),
        ) by {
            assert(out[i] == prev.1[i]);
            if j < prev.1.len() {
                assert(out[j] == prev.1[j]);
            } else {
                lemma_extends_trans(answer_texts(out[i]->Ok_0), before, now);
            }
        }
    }
}

/// Answers only grow: over any sequence of events, each answer handed on holds,
/// block by block, a prefix-or-equal extension of the text of every earlier one.
pub proof fn lemma_snapshots_grow(events: Seq<StreamEventView>)
    ensures
        forall|i: int, j: int|
            0 <= i < j < run(initial_model(), events).1.len() && (#[trigger] run(
                initial_model(),
                events,
            ).1[i]) is Ok && (#[trigger] run(initial_model(), events).1[j]) is Ok ==> extends(
                answer_texts(run(initial_model(), events).1[j]->Ok_0),
                answer_texts(run(initial_model(), events).1[i]->Ok_0),
            ),
{
    lemma_run_extends(initial_model(), events);
}

/// The events of a sequence but its pings, in order.
pub open spec fn without_pings(events: Seq<StreamEventView>) -> Seq<StreamEventView> {
    events.filter(|e: StreamEventView| !(e is Ping))
}

/// Pings are transparent: a sequence of events and the same sequence without its
/// pings lead to the same state and hand on the same results.
pub proof fn lemma_ping_transparent(m: StreamModel, events: Seq<StreamEventView>)
    ensures
        run(m, events) == run(m, without_pings(events)),
    decreases events.len(),
{
    if events.len() > 0 {
        lemma_ping_transparent(m, events.drop_last());
        let pred = |e: StreamEventView| !(e is Ping);
        reveal(Seq::filter);
        let rest = without_pings(events.drop_last());
        assert(rest == events.drop_last().filter(pred));
        assert(without_pings(events) == events.filter(pred));
        if !(events.last() is Ping) {
            assert(pred(events.last()));
            assert(events.filter(pred) == events.drop_last().filter(pred).push(events.last()));
            assert(rest.push(events.last()).drop_last() =~= rest);
        } else {
            assert(!pred(events.last()));
            assert(events.filter(pred) == events.drop_last().filter(pred));
        }
    }
}

/// The snapshot's last message is an assistant message with at least one part,
/// whose parts are all complete but the last, which is still in generation.
pub open spec fn only_last_in_generation(s: Seq<MessageView>) -> bool {
    &&& s.len() > 0
    &&& s.last() matches MessageView::Assistant { parts } && parts.len() > 0 && !parts.last().complete
        && forall|i: int| 0 <= i < parts.len() - 1 ==> (#[trigger] parts[i]).complete
}

/// The snapshot's last message has every part complete.
pub open spec fn all_complete(s: Seq<MessageView>) -> bool {
    s.len() > 0 && is_finished(s.last())
}

/// The flags of each answer handed on: after a delta the block in transfer is the
/// one part still in generation, always the last; after the block stops, every
/// part is complete.
pub proof fn lemma_snapshot_flags(m: StreamModel, e: StreamEventView)
    ensures
        e is ContentBlockDelta && step(m, e).1 is Some && step(m, e).1->Some_0 is Ok
            ==> only_last_in_generation(step(m, e).1->Some_0->Ok_0),
        e is ContentBlockStop && step(m, e).1 is Some && step(m, e).1->Some_0 is Ok
            ==> all_complete(step(m, e).1->Some_0->Ok_0),
{
}

/// After any sequence of events, as long as no block is in transfer, the last
/// answer handed on, if any, has every part complete.
proof fn lemma_last_answer_complete(m: StreamModel, events: Seq<StreamEventView>)
    requires
        !(m.phase is ContentBlockStarted),
    ensures
        !(run(m, events).0.phase is ContentBlockStarted) ==> forall|i: int|
            0 <= i < run(m, events).1.len() && (#[trigger] run(m, events).1[i]) is Ok && (
            forall|j: int| i < j < run(m, events).1.len() ==> (#[trigger] run(m, events).1[j]) is Err)
                ==> all_complete(run(m, events).1[i]->Ok_0),
    decreases events.len(),
{
    if events.len() > 0 {
        let prev = run(m, events.drop_last());
        lemma_last_answer_complete(m, events.drop_last());
        let next = consume(prev.0, events.last());
        let out = run(m, events).1;
        if !(next.0.phase is ContentBlockStarted) {
            match next.1 {
                Some(Ok(s)) => {
                    assert forall|i: int|
                        0 <= i < out.len() && (#[trigger] out[i]) is Ok && (forall|j: int|
                            i < j < out.len() ==> (#[trigger] out[j]) is Err) implies all_complete(
                        out[i]->Ok_0,
                    ) by {
                        if i < out.len() - 1 {
                            assert(out[out.len() - 1] is Ok);
                        }
                    }
                },
                Some(Err(_)) => {
                    assert forall|i: int|
                        0 <= i < out.len() && (#[trigger] out[i]) is Ok && (forall|j: int|
                            i < j < out.len() ==> (#[trigger] out[j]) is Err) implies all_complete(
                        out[i]->Ok_0,
                    ) by {
                        assert(out[i] == prev.1[i]);
                        assert forall|j: int| i < j < prev.1.len() implies (#[trigger] prev.1[j]) is Err by {
                            assert(out[j] == prev.1[j]);
                        }
                    }
                },
                None => {},
            }
        }
    }
}

/// The last answer handed on before the response completes has every part
/// complete.
pub proof fn lemma_final_answer_complete(events: Seq<StreamEventView>)
    requires
        run(initial_model(), events).0.phase is ResponseCompleted,
    ensures
        forall|i: int|
            0 <= i < run(initial_model(), events).1.len() && (#[trigger] run(
                initial_model(),
                events,
            ).1[i]) is Ok && (forall|j: int|
                i < j < run(initial_model(), events).1.len() ==> (#[trigger] run(
                    initial_model(),
                    events,
                ).1[j]) is Err) ==> all_complete(run(initial_model(), events).1[i]->Ok_0),
{
    lemma_last_answer_complete(initial_model(), events);
}

/// Whether the transition table has an entry for this event in this phase.
pub open spec fn allowed(phase: Phase, e: StreamEventView) -> bool {
    match e {
        StreamEventView::MessageStart => phase is Init,
        StreamEventView::ContentBlockStart => phase is MessageTransferring,
        StreamEventView::ContentBlockDelta { .. } => phase is ContentBlockStarted,
        StreamEventView::ContentBlockStop => phase is ContentBlockStarted,
        StreamEventView::MessageDelta => phase is MessageTransferring,
        StreamEventView::MessageStop => phase is MessageTransferring,
        StreamEventView::Ping => true,
        StreamEventView::MalformedDelta => false,
        StreamEventView::Unknown => false,
        StreamEventView::MalformedFrame => false,
    }
}

/// An event without an entry in the transition table for the current phase is
/// answered with an `UnexpectedResponse` error and leaves the state as it was, so
/// that the stream goes on with the next event.
pub proof fn lemma_unexpected_event_rejected(m: StreamModel, e: StreamEventView)
    requires
        !allowed(m.phase, e),
    ensures
        step(m, e) == (m, rejected()),
{
}

/// A frame whose event name the protocol does not know is rejected in every phase.
pub proof fn lemma_unknown_name_rejected(m: StreamModel, name: Seq<char>, data: Seq<char>)
    requires
        name != "message_start"@,
        name != "content_block_start"@,
        name != "content_block_delta"@,
        name != "content_block_stop"@,
        name != "message_delta"@,
        name != "message_stop"@,
        name != "ping"@,
    ensures
        step(m, event_of(name, data)) == (m, rejected()),
{
}

/// The events of a stream that opens a message and then sends these texts, one
/// block each, in order.
pub open spec fn opening_events(texts: Seq<Seq<char>>) -> Seq<StreamEventView>
    decreases texts.len(),
{
    if texts.len() == 0 {
        seq![StreamEventView::MessageStart]
    } else {
        opening_events(texts.drop_last()).push(StreamEventView::ContentBlockStart).push(
            StreamEventView::ContentBlockDelta { text: texts.last() },
        ).push(StreamEventView::ContentBlockStop)
    }
}

/// The events of a whole stream that sends these texts, one block each, in order,
/// and then completes the response.
pub open spec fn streamed_events(texts: Seq<Seq<char>>) -> Seq<StreamEventView> {
    opening_events(texts).push(StreamEventView::MessageDelta)
}

proof fn lemma_opening_run(texts: Seq<Seq<char>>)
    ensures
        run(initial_model(), opening_events(texts)).0 == (StreamModel {
            phase: Phase::MessageTransferring,
            finished: texts,
        }),
        texts.len() > 0 ==> run(initial_model(), opening_events(texts)).1.len() > 0 && run(
            initial_model(),
            opening_events(texts),
        ).1.last() == Ok::<Seq<MessageView>, LlmError>(
            snapshot(StreamModel { phase: Phase::MessageTransferring, finished: texts }),
        ),
    decreases texts.len(),
{
    if texts.len() == 0 {
        let e = seq![StreamEventView::MessageStart];
        assert(opening_events(texts) == e);
        assert(e.drop_last() =~= Seq::<StreamEventView>::empty());
        assert(e.last() == StreamEventView::MessageStart);
        assert(run(initial_model(), Seq::<StreamEventView>::empty()).0 == initial_model());
        assert(texts =~= Seq::<Seq<char>>::empty());
    } else {
        let rest = texts.drop_last();
        let t = texts.last();
        lemma_opening_run(rest);
        let p = opening_events(rest);
        let s1 = p.push(StreamEventView::ContentBlockStart);
        let s2 = s1.push(StreamEventView::ContentBlockDelta { text: t });
        let s3 = s2.push(StreamEventView::ContentBlockStop);
        assert(opening_events(texts) == s3);
        assert(s1.drop_last() =~= p);
        assert(s2.drop_last() =~= s1);
        assert(s3.drop_last() =~= s2);
        assert(Seq::<char>::empty() + t =~= t);
        assert(rest.push(t) =~= texts);
        let m0 = run(initial_model(), p).0;
        let m1 = StreamModel {
            phase: Phase::ContentBlockStarted { current: Seq::empty() },
            finished: rest,
        };
        let m2 = StreamModel { phase: Phase::ContentBlockStarted { current: t }, finished: rest };
        let m3 = StreamModel { phase: Phase::MessageTransferring, finished: texts };
        assert(consume(m0, StreamEventView::ContentBlockStart) == (m1, None::<Result<Seq<MessageView>, LlmError>>));
        assert(run(initial_model(), s1).0 == m1);
        assert(run(initial_model(), s1).1 == run(initial_model(), p).1);
        assert(consume(m1, StreamEventView::ContentBlockDelta { text: t }).0 == m2);
        assert(run(initial_model(), s2).0 == m2);
        assert(consume(m2, StreamEventView::ContentBlockStop) == (m3, Some(Ok::<Seq<MessageView>, LlmError>(snapshot(m3)))));
        assert(run(initial_model(), s3).0 == m3);
        assert(run(initial_model(), s3).1 == run(initial_model(), s2).1.push(Ok(snapshot(m3))));
    }
}

/// Finished messages survive a stream: when the provider streams the texts of a
/// message's wire form, one block each, and then completes the response, the last
/// answer handed on holds exactly the message's texts, in order, every part
/// complete.
pub proof fn lemma_streamed_round_trip(m: MessageView)
    requires
        is_finished(m),
        message_texts(m).len() > 0,
    ensures
        run(
            initial_model(),
            streamed_events(message_texts(decoded(wire_message(m).content))),
        ).0.phase is ResponseCompleted,
        run(initial_model(), streamed_events(message_texts(decoded(wire_message(m).content)))).1.len()
            > 0,
        run(
            initial_model(),
            streamed_events(message_texts(decoded(wire_message(m).content))),
        ).1.last() is Ok,
        answer_texts(
            run(
                initial_model(),
                streamed_events(message_texts(decoded(wire_message(m).content))),
            ).1.last()->Ok_0,
        ) == message_texts(m),
        all_complete(
            run(
                initial_model(),
                streamed_events(message_texts(decoded(wire_message(m).content))),
            ).1.last()->Ok_0,
        ),
{
    lemma_round_trip(seq![m]);
    assert(seq![m][0] == m);
    let texts = message_texts(m);
    assert(message_texts(decoded(wire_message(m).content)) == texts);
    lemma_opening_run(texts);
    let events = streamed_events(texts);
    assert(events.drop_last() =~= opening_events(texts));
    let model = StreamModel { phase: Phase::MessageTransferring, finished: texts };
    let parts = snapshot_parts(model);
    assert(parts.map_values(|p: AssistantPartView| p.text) =~= texts);
}

} // verus!
