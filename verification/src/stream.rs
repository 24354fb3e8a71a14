//! Accumulation of a streamed Messages-API response into a full response.
//!
//! The accumulator is a state machine: each server-sent event moves it to a
//! new state, and the caller forwards text deltas to its consumers as they
//! come. `accumulate_stream` folds a whole list of events at once.

use vstd::prelude::*;

use crate::api::{
    AgentError, ApiContentBlock, ApiUsage, ContentDelta, MessageResponse, StreamEvent,
};
use crate::text::{push_str, str_eq};

verus! {

/// Whether a text is a well-formed JSON document.
pub uninterp spec fn parses_as_json(text: Seq<char>) -> bool;

/// Whether `text` parses as JSON (`serde_json::from_str` into a
/// `serde_json::Value` returns `Ok`).
#[verifier::external_body]
fn json_text_parses(text: &str) -> (r: bool)
    ensures
        r == parses_as_json(text@),
{
    serde_json::from_str::<serde_json::Value>(text).is_ok()
}

/// What an in-progress content block is, once its start has been seen.
#[derive(Debug, Clone, Copy, PartialEq, Eq, Structural)]
pub enum BlockKind {
    Unset,
    Text,
    ToolUse,
    Thinking,
}

/// An in-progress content block: its kind, the text (or tool-input JSON)
/// gathered so far, and the id and name of a tool use.
#[derive(Debug)]
pub struct BlockSlot {
    pub kind: BlockKind,
    pub text: String,
    pub tool_id: String,
    pub tool_name: String,
}

/// The mathematical model of a slot.
#[verifier::ext_equal]
pub struct SlotView {
    pub kind: BlockKind,
    pub text: Seq<char>,
    pub tool_id: Seq<char>,
    pub tool_name: Seq<char>,
}

impl View for BlockSlot {
    type V = SlotView;

    open spec fn view(&self) -> SlotView {
        SlotView {
            kind: self.kind,
            text: self.text@,
            tool_id: self.tool_id@,
            tool_name: self.tool_name@,
        }
    }
}

/// The model of a finished content block.
pub enum BlockView {
    Text(Seq<char>),
    /// Id, name and the JSON text of the input.
    ToolUse(Seq<char>, Seq<char>, Seq<char>),
    Thinking(Seq<char>),
    Other,
}

/// The model of a content block of a response: text without a cache marker,
/// tool use, and thinking keep their strings; anything else is `Other`.
pub open spec fn block_view(b: ApiContentBlock) -> BlockView {
    match b {
        ApiContentBlock::Text { text, cache_control } => {
            if cache_control is None {
                BlockView::Text(text@)
            } else {
                BlockView::Other
            }
        },
        ApiContentBlock::ToolUse { id, name, input } => BlockView::ToolUse(id@, name@, input@),
        ApiContentBlock::Thinking { thinking } => BlockView::Thinking(thinking@),
        _ => BlockView::Other,
    }
}

pub open spec fn blocks_view(bs: Seq<ApiContentBlock>) -> Seq<BlockView> {
    bs.map_values(|b: ApiContentBlock| block_view(b))
}

/// The model of a content delta.
pub enum DeltaView {
    Text(Seq<char>),
    Json(Seq<char>),
    Thinking(Seq<char>),
}

/// The model of a stream event: strings by their characters.
pub enum EventView {
    MessageStart {
        id: Seq<char>,
        role: Seq<char>,
        content: Seq<BlockView>,
        model: Seq<char>,
        stop_reason: Option<Seq<char>>,
        usage: ApiUsage,
    },
    BlockStart { index: usize, block: BlockView },
    BlockDelta { index: usize, delta: DeltaView },
    BlockStop { index: usize },
    MessageDelta { stop_reason: Option<Seq<char>>, usage: ApiUsage },
    MessageStop,
    Ping,
    Error { kind: Seq<char>, message: Seq<char> },
}

pub open spec fn delta_view(d: ContentDelta) -> DeltaView {
    match d {
        ContentDelta::TextDelta { text } => DeltaView::Text(text@),
        ContentDelta::InputJsonDelta { partial_json } => DeltaView::Json(partial_json@),
        ContentDelta::ThinkingDelta { thinking } => DeltaView::Thinking(thinking@),
    }
}

/// The model of an event.
pub open spec fn event_view(e: StreamEvent) -> EventView {
    match e {
        StreamEvent::MessageStart { message } => EventView::MessageStart {
            id: message.id@,
            role: message.role@,
            content: blocks_view(message.content@),
            model: message.model@,
            stop_reason: opt_str_view(message.stop_reason),
            usage: message.usage,
        },
        StreamEvent::ContentBlockStart { index, content_block } => EventView::BlockStart {
            index,
            block: block_view(content_block),
        },
        StreamEvent::ContentBlockDelta { index, delta } => EventView::BlockDelta {
            index,
            delta: delta_view(delta),
        },
        StreamEvent::ContentBlockStop { index } => EventView::BlockStop { index },
        StreamEvent::MessageDelta { delta, usage } => EventView::MessageDelta {
            stop_reason: opt_str_view(delta.stop_reason),
            usage,
        },
        StreamEvent::MessageStop => EventView::MessageStop,
        StreamEvent::Ping => EventView::Ping,
        StreamEvent::Error { error } => EventView::Error { kind: error.kind@, message: error.message@ },
    }
}

pub open spec fn events_view(v: Seq<StreamEvent>) -> Seq<EventView> {
    v.map_values(|e: StreamEvent| event_view(e))
}

/// The JSON text of a tool input: the text when it parses as JSON, else
/// the empty object.
pub open spec fn json_or_empty(text: Seq<char>) -> Seq<char> {
    if parses_as_json(text) {
        text
    } else {
        "{}"@
    }
}

/// The JSON text of a tool input, or the empty object when it does not
/// parse.
pub fn json_or_empty_object(text: String) -> (r: String)
    ensures
        r@ == json_or_empty(text@),
{
    if json_text_parses(text.as_str()) {
        text
    } else {
        "{}".to_owned()
    }
}

/// Zero usage.
pub open spec fn zero_usage() -> ApiUsage {
    ApiUsage {
        input_tokens: 0,
        output_tokens: 0,
        cache_creation_input_tokens: None,
        cache_read_input_tokens: None,
    }
}

/// The model of the accumulator.
#[verifier::ext_equal]
pub struct AccView {
    pub message_id: Seq<char>,
    pub model: Seq<char>,
    pub role: Seq<char>,
    pub content: Seq<BlockView>,
    pub stop_reason: Option<Seq<char>>,
    pub usage: ApiUsage,
    pub slots: Seq<SlotView>,
}

pub open spec fn blank_slot() -> SlotView {
    SlotView { kind: BlockKind::Unset, text: seq![], tool_id: seq![], tool_name: seq![] }
}

/// The slots grown with blank slots so that `index` is a valid position.
pub open spec fn pad_slots(s: Seq<SlotView>, index: int) -> Seq<SlotView> {
    if index < s.len() {
        s
    } else {
        s + Seq::new((index + 1 - s.len()) as nat, |j: int| blank_slot())
    }
}

/// The content grown with empty text blocks so that `index` is a valid position.
pub open spec fn pad_content(c: Seq<BlockView>, index: int) -> Seq<BlockView> {
    if index < c.len() {
        c
    } else {
        c + Seq::new((index + 1 - c.len()) as nat, |j: int| BlockView::Text(seq![]))
    }
}

/// A slot after the start of its block: the kind is set; a tool use also
/// records its id and name, and its input unless the input is `{}` (streams
/// that deliver the whole input at the start).
pub open spec fn slot_started(s: SlotView, b: ApiContentBlock) -> SlotView {
    match b {
        ApiContentBlock::Text { .. } => SlotView {
            kind: BlockKind::Text,
            text: s.text,
            tool_id: s.tool_id,
            tool_name: s.tool_name,
        },
        ApiContentBlock::ToolUse { id, name, input } => SlotView {
            kind: BlockKind::ToolUse,
            text: if input@ == "{}"@ { s.text } else { input@ },
            tool_id: id@,
            tool_name: name@,
        },
        ApiContentBlock::Thinking { .. } => SlotView {
            kind: BlockKind::Thinking,
            text: s.text,
            tool_id: s.tool_id,
            tool_name: s.tool_name,
        },
        _ => s,
    }
}

/// The text carried by a delta.
pub open spec fn delta_text(d: ContentDelta) -> Seq<char> {
    match d {
        ContentDelta::TextDelta { text } => text@,
        ContentDelta::InputJsonDelta { partial_json } => partial_json@,
        ContentDelta::ThinkingDelta { thinking } => thinking@,
    }
}

/// A slot after a delta: the delta's text is appended.
pub open spec fn slot_extended(s: SlotView, d: ContentDelta) -> SlotView {
    SlotView { kind: s.kind, text: s.text + delta_text(d), tool_id: s.tool_id, tool_name: s.tool_name }
}

/// The block that the stop of a slot produces; a tool input that does not
/// parse as JSON becomes the empty object.
pub open spec fn finished_block(s: SlotView) -> BlockView {
    match s.kind {
        BlockKind::Text => BlockView::Text(s.text),
        BlockKind::ToolUse => BlockView::ToolUse(
            s.tool_id,
            s.tool_name,
            if parses_as_json(s.text) { s.text } else { "{}"@ },
        ),
        _ => BlockView::Thinking(s.text),
    }
}

/// A slot after its stop: what moved into the block is cleared (a tool use
/// keeps its input text).
pub open spec fn slot_stopped(s: SlotView) -> SlotView {
    match s.kind {
        BlockKind::ToolUse => SlotView { kind: s.kind, text: s.text, tool_id: seq![], tool_name: seq![] },
        _ => SlotView { kind: s.kind, text: seq![], tool_id: s.tool_id, tool_name: s.tool_name },
    }
}

/// The usage after a `message_delta`: only the output tokens change.
pub open spec fn usage_after_delta(u: ApiUsage, d: ApiUsage) -> ApiUsage {
    ApiUsage {
        input_tokens: u.input_tokens,
        output_tokens: d.output_tokens,
        cache_creation_input_tokens: u.cache_creation_input_tokens,
        cache_read_input_tokens: u.cache_read_input_tokens,
    }
}

pub open spec fn opt_str_view(o: Option<String>) -> Option<Seq<char>> {
    match o {
        Some(s) => Some(s@),
        None => None,
    }
}

/// One step of the accumulator on an event that does not end the stream.
pub open spec fn acc_step(v: AccView, e: StreamEvent) -> AccView {
    match e {
        StreamEvent::MessageStart { message } => AccView {
            message_id: message.id@,
            model: message.model@,
            role: message.role@,
            usage: message.usage,
            ..v
        },
        StreamEvent::ContentBlockStart { index, content_block } => {
            let p = pad_slots(v.slots, index as int);
            AccView { slots: p.update(index as int, slot_started(p[index as int], content_block)), ..v }
        },
        StreamEvent::ContentBlockDelta { index, delta } => {
            let p = pad_slots(v.slots, index as int);
            AccView { slots: p.update(index as int, slot_extended(p[index as int], delta)), ..v }
        },
        StreamEvent::ContentBlockStop { index } => {
            if index < v.slots.len() && v.slots[index as int].kind != BlockKind::Unset {
                let s = v.slots[index as int];
                AccView {
                    slots: v.slots.update(index as int, slot_stopped(s)),
                    content: pad_content(v.content, index as int).update(
                        index as int,
                        finished_block(s),
                    ),
                    ..v
                }
            } else {
                v
            }
        },
        StreamEvent::MessageDelta { delta, usage } => AccView {
            stop_reason: opt_str_view(delta.stop_reason),
            usage: usage_after_delta(v.usage, usage),
            ..v
        },
        _ => v,
    }
}

/// What one event asks of the caller.
#[derive(Debug)]
pub enum StreamStep {
    /// Nothing to forward; go on reading.
    Continue,
    /// Forward this text delta of the block at `index`, then go on.
    TextDelta { index: usize, text: String },
    /// The message is complete.
    Stop,
    /// The stream reported an error.
    Failed { message: String },
}

/// The step an event asks for.
pub open spec fn step_matches(e: StreamEvent, st: StreamStep) -> bool {
    match e {
        StreamEvent::ContentBlockDelta { index, delta } => match delta {
            ContentDelta::TextDelta { text } => st matches StreamStep::TextDelta { index: i, text: t }
                && i == index && t@ == text@,
            _ => st is Continue,
        },
        StreamEvent::MessageStop => st is Stop,
        StreamEvent::Error { error } => st matches StreamStep::Failed { message } && message@
            == error.message@,
        _ => st is Continue,
    }
}

/// The state in which accumulation starts.
pub open spec fn initial_view() -> AccView {
    AccView {
        message_id: seq![],
        model: seq![],
        role: "assistant"@,
        content: seq![],
        stop_reason: None,
        usage: ApiUsage {
            input_tokens: 0,
            output_tokens: 0,
            cache_creation_input_tokens: None,
            cache_read_input_tokens: None,
        },
        slots: seq![],
    }
}

/// How a list of events ends: the state reached at the first `message_stop`
/// (or at the end of the list), or the message of the first error.
pub enum RunView {
    Finished(AccView),
    Failed(Seq<char>),
}

pub open spec fn run_events(v: AccView, es: Seq<StreamEvent>) -> RunView
    decreases es.len(),
{
    if es.len() == 0 {
        RunView::Finished(v)
    } else {
        match es[0] {
            StreamEvent::MessageStop => RunView::Finished(v),
            StreamEvent::Error { error } => RunView::Failed(error.message@),
            e => run_events(acc_step(v, e), es.drop_first()),
        }
    }
}

/// The text deltas (block index and text) met before the stream ends.
pub open spec fn text_deltas(es: Seq<StreamEvent>) -> Seq<(usize, Seq<char>)>
    decreases es.len(),
{
    if es.len() == 0 {
        seq![]
    } else {
        match es[0] {
            StreamEvent::MessageStop => seq![],
            StreamEvent::Error { .. } => seq![],
            StreamEvent::ContentBlockDelta { index, delta } => match delta {
                ContentDelta::TextDelta { text } => seq![(index, text@)] + text_deltas(
                    es.drop_first(),
                ),
                _ => text_deltas(es.drop_first()),
            },
            _ => text_deltas(es.drop_first()),
        }
    }
}

/// A response holds exactly the accumulated state.
pub open spec fn response_of(r: MessageResponse, v: AccView) -> bool {
    &&& r.id@ == v.message_id
    &&& r.model@ == v.model
    &&& r.role@ == v.role
    &&& blocks_view(r.content@) == v.content
    &&& opt_str_view(r.stop_reason) == v.stop_reason
    &&& r.usage == v.usage
}

/// Accumulates the events of one streamed response.
pub struct StreamAccumulator {
    message_id: String,
    model: String,
    role: String,
    content: Vec<ApiContentBlock>,
    stop_reason: Option<String>,
    usage: ApiUsage,
    slots: Vec<BlockSlot>,
}

impl View for StreamAccumulator {
    type V = AccView;

    closed spec fn view(&self) -> AccView {
        AccView {
            message_id: self.message_id@,
            model: self.model@,
            role: self.role@,
            content: blocks_view(self.content@),
            stop_reason: opt_str_view(self.stop_reason),
            usage: self.usage,
            slots: self.slots@.map_values(|s: BlockSlot| s@),
        }
    }
}

/// Block indexes that leave room to grow the slots up to them.
pub open spec fn index_in_range(e: StreamEvent) -> bool {
    match e {
        StreamEvent::ContentBlockStart { index, .. } => index < usize::MAX,
        StreamEvent::ContentBlockDelta { index, .. } => index < usize::MAX,
        _ => true,
    }
}

/// Whether an event ends the stream.
pub open spec fn ends_stream(e: StreamEvent) -> bool {
    e is MessageStop || e is Error
}

/// Move a string out, leaving an empty one.
fn take_string(s: &mut String) -> (r: String)
    ensures
        r@ == old(s)@,
        final(s)@ == Seq::<char>::empty(),
{
    let mut r = String::new();
    std::mem::swap(&mut r, s);
    r
}

fn blank_slot_exec() -> (s: BlockSlot)
    ensures
        s@ == blank_slot(),
{
    BlockSlot {
        kind: BlockKind::Unset,
        text: String::new(),
        tool_id: String::new(),
        tool_name: String::new(),
    }
}

impl StreamAccumulator {
    /// An accumulator before any event: empty strings, role `assistant`.
    pub fn new() -> (a: StreamAccumulator)
        ensures
            a@ == initial_view(),
    {
        let a = StreamAccumulator {
            message_id: String::new(),
            model: String::new(),
            role: "assistant".to_owned(),
            content: Vec::new(),
            stop_reason: None,
            usage: ApiUsage {
                input_tokens: 0,
                output_tokens: 0,
                cache_creation_input_tokens: None,
                cache_read_input_tokens: None,
            },
            slots: Vec::new(),
        };
        proof {
            assert(a@.slots =~= seq![]);
            assert(a@.content =~= seq![]);
        }
        a
    }

    /// Apply one event of the stream and say what the caller is to do.
    /// Events that end the stream (`message_stop`, `error`) leave the state
    /// as it is.
    pub fn apply(&mut self, event: StreamEvent) -> (st: StreamStep)
        requires
            index_in_range(event),
        ensures
            step_matches(event, st),
            ends_stream(event) ==> final(self)@ == old(self)@,
            !ends_stream(event) ==> final(self)@ == acc_step(old(self)@, event),
    {
        let ghost ev = event;
        let ghost v0 = self@;
        match event {
            StreamEvent::MessageStart { message } => {
                self.message_id = message.id;
                self.model = message.model;
                self.role = message.role;
                self.usage = message.usage;
                proof {
                    assert(self@ =~= acc_step(v0, ev));
                }
                StreamStep::Continue
            },
            StreamEvent::ContentBlockStart { index, content_block } => {
                self.ensure_slot(index);
                let ghost v1 = self@;
                match content_block {
                    ApiContentBlock::Text { .. } => {
                        self.slots[index].kind = BlockKind::Text;
                    },
                    ApiContentBlock::ToolUse { id, name, input } => {
                        self.slots[index].kind = BlockKind::ToolUse;
                        self.slots[index].tool_id = id;
                        self.slots[index].tool_name = name;
                        proof {
                            reveal_strlit("{}");
                        }
                        if !str_eq(input.as_str(), "{}") {
                            self.slots[index].text = input;
                        }
                    },
                    ApiContentBlock::Thinking { .. } => {
                        self.slots[index].kind = BlockKind::Thinking;
                    },
                    _ => {},
                }
                proof {
                    assert(self@.slots =~= v1.slots.update(
                        index as int,
                        slot_started(v1.slots[index as int], content_block),
                    ));
                    assert(self@ =~= acc_step(v0, ev));
                }
                StreamStep::Continue
            },
            StreamEvent::ContentBlockDelta { index, delta } => {
                self.ensure_slot(index);
                let ghost v1 = self@;
                let st = match delta {
                    ContentDelta::TextDelta { text } => {
                        push_str(&mut self.slots[index].text, text.as_str());
                        StreamStep::TextDelta { index, text }
                    },
                    ContentDelta::InputJsonDelta { partial_json } => {
                        push_str(&mut self.slots[index].text, partial_json.as_str());
                        StreamStep::Continue
                    },
                    ContentDelta::ThinkingDelta { thinking } => {
                        push_str(&mut self.slots[index].text, thinking.as_str());
                        StreamStep::Continue
                    },
                };
                proof {
                    assert(self@.slots =~= v1.slots.update(
                        index as int,
                        slot_extended(v1.slots[index as int], delta),
                    ));
                    assert(self@ =~= acc_step(v0, ev));
                }
                st
            },
            StreamEvent::ContentBlockStop { index } => {
                if index < self.slots.len() {
                    let kind = self.slots[index].kind;
                    let block = match kind {
                        BlockKind::Text => {
                            let t = take_string(&mut self.slots[index].text);
                            ApiContentBlock::Text { text: t, cache_control: None }
                        },
                        BlockKind::ToolUse => {
                            let ok = json_text_parses(self.slots[index].text.as_str());
                            proof {
                                reveal_strlit("{}");
                            }
                            let input = if ok {
                                self.slots[index].text.clone()
                            } else {
                                "{}".to_owned()
                            };
                            let id = take_string(&mut self.slots[index].tool_id);
                            let name = take_string(&mut self.slots[index].tool_name);
                            ApiContentBlock::ToolUse { id, name, input }
                        },
                        BlockKind::Thinking => {
                            let t = take_string(&mut self.slots[index].text);
                            ApiContentBlock::Thinking { thinking: t }
                        },
                        BlockKind::Unset => {
                            return StreamStep::Continue;
                        },
                    };
                    let ghost v1 = self@;
                    assert(v1.slots =~= v0.slots.update(index as int, slot_stopped(v0.slots[index as int])));
                    assert(block_view(block) == finished_block(v0.slots[index as int]));
                    let ghost c0 = self.content@;
                    while self.content.len() <= index
                        invariant
                            index < self.slots@.len(),
                            self.slots@.len() <= usize::MAX,
                            c0.len() <= self.content@.len(),
                            self.content@.len() <= index + 1 || self.content@.len() == c0.len(),
                            forall|j: int| 0 <= j < c0.len() ==> #[trigger] self.content@[j] == c0[j],
                            forall|j: int| c0.len() <= j < self.content@.len() ==> block_view(#[trigger] self.content@[j]) == BlockView::Text(seq![]),
                            self@ == (AccView { content: blocks_view(self.content@), ..v1 }),
                        decreases index + 1 - self.content@.len(),
                    {
                        let b = ApiContentBlock::Text { text: String::new(), cache_control: None };
                        self.content.push(b);
                    }
                    self.content.set(index, block);
                    proof {
                        assert(self@.content =~= pad_content(blocks_view(c0), index as int).update(
                            index as int,
                            finished_block(v0.slots[index as int]),
                        ));
                        assert(self@ =~= acc_step(v0, ev));
                    }
                }
                StreamStep::Continue
            },
            StreamEvent::MessageDelta { delta, usage } => {
                self.stop_reason = delta.stop_reason;
                self.usage.output_tokens = usage.output_tokens;
                proof {
                    assert(self@ =~= acc_step(v0, ev));
                }
                StreamStep::Continue
            },
            StreamEvent::MessageStop => StreamStep::Stop,
            StreamEvent::Ping => StreamStep::Continue,
            StreamEvent::Error { error } => StreamStep::Failed { message: error.message },
        }
    }

    /// The response built from what has been accumulated.
    pub fn into_response(self) -> (r: MessageResponse)
        ensures
            response_of(r, self@),
    {
        MessageResponse {
            id: self.message_id,
            role: self.role,
            content: self.content,
            model: self.model,
            stop_reason: self.stop_reason,
            usage: self.usage,
        }
    }

    /// Grow the slots so that `index` is a valid position.
    fn ensure_slot(&mut self, index: usize)
        requires
            index < usize::MAX,
        ensures
            final(self)@ == (AccView { slots: pad_slots(old(self)@.slots, index as int), ..old(self)@ }),
            index < final(self)@.slots.len(),
    {
        let ghost old_slots = self@.slots;
        let ghost old_view = self@;
        while self.slots.len() <= index
            invariant
                index < usize::MAX,
                self.slots@.len() <= index + 1 || self.slots@.len() == old_slots.len(),
                old_slots.len() <= self.slots@.len(),
                forall|j: int| 0 <= j < old_slots.len() ==> #[trigger] self.slots@[j]@ == old_slots[j],
                forall|j: int| old_slots.len() <= j < self.slots@.len() ==> #[trigger] self.slots@[j]@ == blank_slot(),
                self@ == (AccView { slots: self.slots@.map_values(|s: BlockSlot| s@), ..old_view }),
            decreases index + 1 - self.slots@.len(),
        {
            let b = blank_slot_exec();
            self.slots.push(b);
        }
        proof {
            assert(self@.slots =~= pad_slots(old_slots, index as int));
        }
    }
}

/// The state after each of the events in turn (none of which ends the
/// stream).
pub open spec fn apply_all(v: AccView, es: Seq<StreamEvent>) -> AccView
    decreases es.len(),
{
    if es.len() == 0 {
        v
    } else {
        apply_all(acc_step(v, es[0]), es.drop_first())
    }
}

/// The texts of the deltas, concatenated in order.
pub open spec fn concat_deltas(ds: Seq<ContentDelta>) -> Seq<char>
    decreases ds.len(),
{
    if ds.len() == 0 {
        seq![]
    } else {
        concat_deltas(ds.drop_last()) + delta_text(ds.last())
    }
}

/// The delta events of one block.
pub open spec fn delta_events(index: usize, ds: Seq<ContentDelta>) -> Seq<StreamEvent> {
    ds.map_values(|d: ContentDelta| StreamEvent::ContentBlockDelta { index, delta: d })
}

proof fn lemma_apply_all_append(v: AccView, a: Seq<StreamEvent>, b: Seq<StreamEvent>)
    ensures
        apply_all(v, a + b) == apply_all(apply_all(v, a), b),
    decreases a.len(),
{
    if a.len() == 0 {
        assert(a + b =~= b);
    } else {
        assert((a + b).drop_first() =~= a.drop_first() + b);
        lemma_apply_all_append(acc_step(v, a[0]), a.drop_first(), b);
    }
}

proof fn lemma_apply_one(v: AccView, e: StreamEvent)
    ensures
        apply_all(v, seq![e]) == acc_step(v, e),
{
    let s = seq![e];
    assert(s.drop_first() =~= Seq::<StreamEvent>::empty());
    assert(apply_all(acc_step(v, e), s.drop_first()) == acc_step(v, e));
}

proof fn lemma_deltas_extend(v: AccView, index: usize, ds: Seq<ContentDelta>)
    requires
        index < v.slots.len(),
    ensures
        apply_all(v, delta_events(index, ds)).slots.len() == v.slots.len(),
        apply_all(v, delta_events(index, ds)).slots[index as int] == (SlotView {
            text: v.slots[index as int].text + concat_deltas(ds),
            ..v.slots[index as int]
        }),
        apply_all(v, delta_events(index, ds)).content == v.content,
    decreases ds.len(),
{
    if ds.len() == 0 {
        assert(delta_events(index, ds) =~= Seq::<StreamEvent>::empty());
        assert(v.slots[index as int].text + concat_deltas(ds) =~= v.slots[index as int].text);
        assert(v.slots[index as int] =~= (SlotView {
            text: v.slots[index as int].text + concat_deltas(ds),
            ..v.slots[index as int]
        }));
    } else {
        let init = ds.drop_last();
        lemma_deltas_extend(v, index, init);
        let mid = apply_all(v, delta_events(index, init));
        let last = seq![StreamEvent::ContentBlockDelta { index, delta: ds.last() }];
        assert(delta_events(index, ds) =~= delta_events(index, init) + last);
        lemma_apply_all_append(v, delta_events(index, init), last);
        lemma_apply_one(mid, last[0]);
        assert(pad_slots(mid.slots, index as int) == mid.slots);
        assert(v.slots[index as int].text + concat_deltas(init) + delta_text(ds.last())
            =~= v.slots[index as int].text + concat_deltas(ds));
    }
}

/// A text block that is started on an unused position, extended by deltas
/// and stopped holds the concatenation of the deltas' texts, in order.
pub proof fn lemma_text_block_concatenates(
    v: AccView,
    index: usize,
    start: ApiContentBlock,
    ds: Seq<ContentDelta>,
)
    requires
        start is Text,
        index >= v.slots.len() || v.slots[index as int] == blank_slot(),
    ensures
        apply_all(
            v,
            seq![StreamEvent::ContentBlockStart { index, content_block: start }] + delta_events(index, ds)
                + seq![StreamEvent::ContentBlockStop { index }],
        ).content[index as int] == BlockView::Text(concat_deltas(ds)),
{
    let s = seq![StreamEvent::ContentBlockStart { index, content_block: start }];
    let t = seq![StreamEvent::ContentBlockStop { index }];
    let v1 = acc_step(v, s[0]);
    lemma_apply_one(v, s[0]);
    let p = pad_slots(v.slots, index as int);
    assert(p[index as int] == blank_slot());
    assert(v1.slots[index as int].text =~= seq![]);
    lemma_deltas_extend(v1, index, ds);
    lemma_apply_all_append(v, s, delta_events(index, ds));
    lemma_apply_all_append(v, s + delta_events(index, ds), t);
    let v2 = apply_all(v1, delta_events(index, ds));
    lemma_apply_one(v2, t[0]);
    assert(v2.slots[index as int].text =~= concat_deltas(ds));
}

/// A fully accumulated response and the text deltas met on the way.
#[derive(Debug)]
pub struct StreamOutcome {
    pub response: MessageResponse,
    pub text_deltas: Vec<(usize, String)>,
}

pub open spec fn deltas_view(v: Seq<(usize, String)>) -> Seq<(usize, Seq<char>)> {
    v.map_values(|p: (usize, String)| (p.0, p.1@))
}

/// Accumulate the events of a streamed response, in order, up to the first
/// `message_stop` (or the end of the list). An `error` event fails the whole
/// response with its message.
pub fn accumulate_stream(events: Vec<StreamEvent>) -> (r: Result<StreamOutcome, AgentError>)
    requires
        forall|i: int| 0 <= i < events@.len() ==> index_in_range(#[trigger] events@[i]),
    ensures
        match run_events(initial_view(), events@) {
            RunView::Finished(v) => r matches Ok(out) && response_of(out.response, v)
                && deltas_view(out.text_deltas@) == text_deltas(events@),
            RunView::Failed(m) => r matches Err(AgentError::Api(msg)) && msg@ == m,
        },
{
    let ghost evs = events@;
    let mut acc = StreamAccumulator::new();
    let mut deltas: Vec<(usize, String)> = Vec::new();
    proof {
        assert(evs.skip(0) =~= evs);
        assert(deltas_view(deltas@) + text_deltas(evs) =~= text_deltas(evs));
    }
    for event in it: events.into_iter()
        invariant
            it.seq() == evs,
            forall|i: int| 0 <= i < evs.len() ==> index_in_range(#[trigger] evs[i]),
            run_events(initial_view(), evs) == run_events(acc@, evs.skip(it.index() as int)),
            text_deltas(evs) == deltas_view(deltas@) + text_deltas(evs.skip(it.index() as int)),
    {
        let ghost k = it.index() as int;
        let ghost e = event;
        let ghost rest = evs.skip(k);
        assert(rest[0] == e);
        assert(rest.drop_first() =~= evs.skip(k + 1));
        let ghost d0 = deltas@;
        let st = acc.apply(event);
        match st {
            StreamStep::Stop => {
                let response = acc.into_response();
                proof {
                    assert(deltas_view(deltas@) + text_deltas(rest) =~= deltas_view(deltas@));
                }
                return Ok(StreamOutcome { response, text_deltas: deltas });
            },
            StreamStep::Failed { message } => {
                return Err(AgentError::Api(message));
            },
            StreamStep::TextDelta { index, text } => {
                deltas.push((index, text));
                proof {
                    assert(deltas_view(deltas@) =~= deltas_view(d0).push((index, text@)));
                    assert(text_deltas(evs) =~= deltas_view(deltas@) + text_deltas(evs.skip(k + 1)));
                }
            },
            StreamStep::Continue => {
                proof {
                    assert(text_deltas(evs) =~= deltas_view(deltas@) + text_deltas(evs.skip(k + 1)));
                }
            },
        }
    }
    proof {
        assert(evs.skip(evs.len() as int) =~= Seq::<StreamEvent>::empty());
        assert(deltas_view(deltas@) + text_deltas(evs.skip(evs.len() as int)) =~= deltas_view(deltas@));
    }
    let response = acc.into_response();
    Ok(StreamOutcome { response, text_deltas: deltas })
}

} // verus!
