//! The OpenAI Chat Completions wire format (also spoken by Groq, DeepSeek,
//! OpenRouter and Ollama): translation of requests, of responses, and of
//! streamed chunks into the canonical stream events.
//!
//! The wire types here hold what the translation reads; JSON payloads are
//! JSON text. Encoding and decoding JSON is left to the host.

use vstd::prelude::*;

use crate::api::{
    AgentError, ApiContentBlock, ApiMessage, ApiUsage, ContentDelta, CreateMessageRequest,
    MessageDelta, MessageResponse, StreamEvent,
};
use crate::gateway::json_string_value;
use crate::stream::{
    blocks_view, event_view, events_view, json_or_empty, json_or_empty_object, zero_usage,
    BlockView, DeltaView, EventView,
};
use crate::text::{join_with, joined_with, push_str, str_eq};

verus! {

/// Default endpoint of the OpenAI API.
pub const DEFAULT_OPENAI_URL: &'static str = "https://api.openai.com/v1/chat/completions";

/// Token counts reported by the API.
#[derive(Debug, Clone, Copy)]
pub struct OaiUsage {
    pub prompt_tokens: u64,
    pub completion_tokens: u64,
}

/// A tool call of a response; `arguments` is the JSON text of the input.
#[derive(Debug, Clone)]
pub struct OaiToolCall {
    pub id: String,
    pub name: String,
    pub arguments: String,
}

/// A choice of a response.
#[derive(Debug, Clone)]
pub struct OaiChoice {
    pub content: Option<String>,
    pub tool_calls: Option<Vec<OaiToolCall>>,
    pub finish_reason: Option<String>,
}

/// A (non-streamed) response.
#[derive(Debug, Clone)]
pub struct OaiChatResponse {
    pub id: String,
    pub model: String,
    pub choices: Vec<OaiChoice>,
    pub usage: Option<OaiUsage>,
}

/// A tool-call delta of a streamed chunk.
#[derive(Debug, Clone)]
pub struct OaiToolCallDelta {
    pub index: usize,
    pub id: Option<String>,
    pub name: Option<String>,
    pub arguments: Option<String>,
}

/// A choice of a streamed chunk.
#[derive(Debug, Clone)]
pub struct OaiStreamChoice {
    pub content: Option<String>,
    pub tool_calls: Option<Vec<OaiToolCallDelta>>,
    pub finish_reason: Option<String>,
}

/// A streamed chunk.
#[derive(Debug, Clone)]
pub struct OaiStreamChunk {
    pub id: String,
    pub model: String,
    pub choices: Vec<OaiStreamChoice>,
    pub usage: Option<OaiUsage>,
}

/// The canonical stop reason of a finish reason.
pub open spec fn stop_reason_for(reason: Seq<char>) -> Seq<char> {
    if reason == "stop"@ {
        "end_turn"@
    } else if reason == "tool_calls"@ {
        "tool_use"@
    } else if reason == "length"@ {
        "max_tokens"@
    } else {
        reason
    }
}

/// Map a finish reason to the canonical stop reason.
pub fn map_finish_reason(reason: &str) -> (r: String)
    ensures
        r@ == stop_reason_for(reason@),
{
    if str_eq(reason, "stop") {
        "end_turn".to_owned()
    } else if str_eq(reason, "tool_calls") {
        "tool_use".to_owned()
    } else if str_eq(reason, "length") {
        "max_tokens".to_owned()
    } else {
        reason.to_owned()
    }
}

/// The canonical usage of the reported token counts (zero when absent).
pub open spec fn usage_of(u: Option<OaiUsage>) -> ApiUsage {
    match u {
        Some(u) => ApiUsage {
            input_tokens: u.prompt_tokens,
            output_tokens: u.completion_tokens,
            cache_creation_input_tokens: None,
            cache_read_input_tokens: None,
        },
        None => zero_usage(),
    }
}

fn usage_from(u: Option<OaiUsage>) -> (r: ApiUsage)
    ensures
        r == usage_of(u),
{
    match u {
        Some(u) => ApiUsage {
            input_tokens: u.prompt_tokens,
            output_tokens: u.completion_tokens,
            cache_creation_input_tokens: None,
            cache_read_input_tokens: None,
        },
        None => ApiUsage {
            input_tokens: 0,
            output_tokens: 0,
            cache_creation_input_tokens: None,
            cache_read_input_tokens: None,
        },
    }
}

/// A tool call being assembled from deltas: id, name and arguments so far.
pub type ToolAccView = (Seq<char>, Seq<char>, Seq<char>);

/// The tool calls after one delta: grown to hold its index; the id and name
/// replaced when given; the arguments extended.
pub open spec fn tools_after_delta(t: Seq<ToolAccView>, d: OaiToolCallDelta) -> Seq<ToolAccView> {
    let i = d.index as int;
    let p = if i < t.len() {
        t
    } else {
        t + Seq::new((i + 1 - t.len()) as nat, |j: int| (Seq::<char>::empty(), Seq::<char>::empty(), Seq::<char>::empty()))
    };
    p.update(
        i,
        (
            match d.id {
                Some(x) => x@,
                None => p[i].0,
            },
            match d.name {
                Some(n) => n@,
                None => p[i].1,
            },
            p[i].2 + match d.arguments {
                Some(a) => a@,
                None => Seq::<char>::empty(),
            },
        ),
    )
}

pub open spec fn tools_after_deltas(t: Seq<ToolAccView>, ds: Seq<OaiToolCallDelta>) -> Seq<ToolAccView>
    decreases ds.len(),
{
    if ds.len() == 0 {
        t
    } else {
        tools_after_delta(tools_after_deltas(t, ds.drop_last()), ds.last())
    }
}

/// The argument fragments of tool-call deltas, concatenated in order.
pub open spec fn concat_arguments(ds: Seq<OaiToolCallDelta>) -> Seq<char>
    decreases ds.len(),
{
    if ds.len() == 0 {
        Seq::empty()
    } else {
        concat_arguments(ds.drop_last()) + match ds.last().arguments {
            Some(a) => a@,
            None => Seq::<char>::empty(),
        }
    }
}

/// The arguments of a streamed tool call are the concatenation of the
/// fragments of its deltas, in the order they came, after what it held.
pub proof fn lemma_tool_arguments_concatenate(t: Seq<ToolAccView>, ds: Seq<OaiToolCallDelta>, i: usize)
    requires
        forall|j: int| 0 <= j < ds.len() ==> (#[trigger] ds[j]).index == i,
        ds.len() > 0 || i < t.len(),
    ensures
        tools_after_deltas(t, ds).len() > i,
        tools_after_deltas(t, ds)[i as int].2 == (if i < t.len() {
            t[i as int].2
        } else {
            Seq::<char>::empty()
        }) + concat_arguments(ds),
    decreases ds.len(),
{
    if ds.len() == 0 {
        assert(t[i as int].2 + Seq::<char>::empty() =~= t[i as int].2);
    } else {
        let prev = tools_after_deltas(t, ds.drop_last());
        let d = ds.last();
        if ds.len() > 1 || i < t.len() {
            lemma_tool_arguments_concatenate(t, ds.drop_last(), i);
        } else {
            assert(ds.drop_last().len() == 0);
            assert(prev == t);
        }
        let base = if i < t.len() {
            t[i as int].2
        } else {
            Seq::<char>::empty()
        };
        let tail = match d.arguments {
            Some(a) => a@,
            None => Seq::<char>::empty(),
        };
        if (i as int) < prev.len() {
            assert(tools_after_deltas(t, ds)[i as int].2 == prev[i as int].2 + tail);
            assert(prev[i as int].2 + tail =~= base + concat_arguments(ds));
        } else {
            let p = prev + Seq::new((i + 1 - prev.len()) as nat, |j: int| (Seq::<char>::empty(), Seq::<char>::empty(), Seq::<char>::empty()));
            assert(p[i as int].2 == Seq::<char>::empty());
            assert(tools_after_deltas(t, ds)[i as int].2 == p[i as int].2 + tail);
            assert(concat_arguments(ds.drop_last()) =~= Seq::<char>::empty());
            assert(p[i as int].2 + tail =~= base + concat_arguments(ds));
        }
    }
}

pub open spec fn tools_after_choices(t: Seq<ToolAccView>, cs: Seq<OaiStreamChoice>) -> Seq<ToolAccView>
    decreases cs.len(),
{
    if cs.len() == 0 {
        t
    } else {
        let before = tools_after_choices(t, cs.drop_last());
        match cs.last().tool_calls {
            Some(ds) => tools_after_deltas(before, ds@),
            None => before,
        }
    }
}

/// The events of one choice: its text (when not empty) as a delta of block
/// 0, then its finish reason as a message delta with the chunk's usage.
pub open spec fn choice_events(c: OaiStreamChoice, usage: Option<OaiUsage>) -> Seq<EventView> {
    (match c.content {
        Some(t) => if t@.len() > 0 {
            seq![EventView::BlockDelta { index: 0, delta: DeltaView::Text(t@) }]
        } else {
            seq![]
        },
        None => seq![],
    }) + match c.finish_reason {
        Some(r) => seq![EventView::MessageDelta { stop_reason: Some(stop_reason_for(r@)), usage: usage_of(usage) }],
        None => seq![],
    }
}

pub open spec fn choices_events(cs: Seq<OaiStreamChoice>, usage: Option<OaiUsage>) -> Seq<EventView>
    decreases cs.len(),
{
    if cs.len() == 0 {
        seq![]
    } else {
        choices_events(cs.drop_last(), usage) + choice_events(cs.last(), usage)
    }
}

/// The message start announced with the first chunk.
pub open spec fn start_event(id: Seq<char>, model: Seq<char>) -> EventView {
    EventView::MessageStart {
        id,
        role: "assistant"@,
        content: seq![],
        model,
        stop_reason: None,
        usage: zero_usage(),
    }
}

/// The events of the tool calls assembled so far, numbered from `ci`: a
/// block start (with the input, or the empty object when the arguments do
/// not parse) and a block stop for each.
pub open spec fn flush_events(t: Seq<ToolAccView>, ci: int) -> Seq<EventView>
    decreases t.len(),
{
    if t.len() == 0 {
        seq![]
    } else {
        let k = (ci + t.len() - 1) as usize;
        let last = t.last();
        flush_events(t.drop_last(), ci) + seq![
            EventView::BlockStart { index: k, block: BlockView::ToolUse(last.0, last.1, json_or_empty(last.2)) },
            EventView::BlockStop { index: k },
        ]
    }
}

/// A tool call being assembled.
#[derive(Debug)]
pub struct ToolAcc {
    pub id: String,
    pub name: String,
    pub arguments: String,
}

pub open spec fn acc_view(a: ToolAcc) -> ToolAccView {
    (a.id@, a.name@, a.arguments@)
}

/// The state of a streamed response being translated.
pub struct OaiStreamState {
    tools: Vec<ToolAcc>,
    content_index: usize,
    started: bool,
}

/// The model of the stream state.
pub struct OaiStreamView {
    pub tools: Seq<ToolAccView>,
    pub content_index: usize,
    pub started: bool,
}

impl View for OaiStreamState {
    type V = OaiStreamView;

    closed spec fn view(&self) -> OaiStreamView {
        OaiStreamView {
            tools: self.tools@.map_values(|a: ToolAcc| acc_view(a)),
            content_index: self.content_index,
            started: self.started,
        }
    }
}

/// Tool indexes that leave room to grow the list of tool calls.
pub open spec fn indexes_in_range(cs: Seq<OaiStreamChoice>) -> bool {
    forall|i: int| 0 <= i < cs.len() ==> match (#[trigger] cs[i]).tool_calls {
        Some(ds) => forall|j: int| 0 <= j < ds@.len() ==> (#[trigger] ds@[j]).index < usize::MAX,
        None => true,
    }
}

impl OaiStreamState {
    /// The state before the first chunk.
    pub fn new() -> (s: OaiStreamState)
        ensures
            s@.tools.len() == 0,
            s@.content_index == 0,
            !s@.started,
    {
        let s = OaiStreamState { tools: Vec::new(), content_index: 0, started: false };
        proof {
            assert(s@.tools =~= Seq::<ToolAccView>::empty());
        }
        s
    }

    /// The index the next content block takes.
    pub fn content_index(&self) -> (r: usize)
        ensures
            r == self@.content_index,
    {
        self.content_index
    }

    /// How many tool calls are being assembled.
    pub fn pending_tools(&self) -> (r: usize)
        ensures
            r == self@.tools.len(),
    {
        self.tools.len()
    }

    fn apply_delta(&mut self, d: &OaiToolCallDelta)
        requires
            d.index < usize::MAX,
        ensures
            final(self)@.tools == tools_after_delta(old(self)@.tools, *d),
            final(self)@.content_index == old(self)@.content_index,
            final(self)@.started == old(self)@.started,
    {
        let ghost t0 = self@.tools;
        let idx = d.index;
        while self.tools.len() <= idx
            invariant
                idx < usize::MAX,
                t0.len() <= self.tools@.len(),
                self.tools@.len() <= idx + 1 || self.tools@.len() == t0.len(),
                forall|j: int| 0 <= j < t0.len() ==> acc_view(#[trigger] self.tools@[j]) == t0[j],
                forall|j: int| t0.len() <= j < self.tools@.len() ==> acc_view(#[trigger] self.tools@[j]) == (
                    Seq::<char>::empty(),
                    Seq::<char>::empty(),
                    Seq::<char>::empty(),
                ),
                self.content_index == old(self).content_index,
                self.started == old(self).started,
            decreases idx + 1 - self.tools@.len(),
        {
            self.tools.push(ToolAcc { id: String::new(), name: String::new(), arguments: String::new() });
        }
        let ghost p = self@.tools;
        proof {
            let i = idx as int;
            let q = if i < t0.len() {
                t0
            } else {
                t0 + Seq::new((i + 1 - t0.len()) as nat, |j: int| (Seq::<char>::empty(), Seq::<char>::empty(), Seq::<char>::empty()))
            };
            assert(p =~= q);
        }
        match &d.id {
            Some(x) => {
                self.tools[idx].id = x.clone();
            },
            None => {},
        }
        match &d.name {
            Some(n) => {
                self.tools[idx].name = n.clone();
            },
            None => {},
        }
        match &d.arguments {
            Some(a) => {
                push_str(&mut self.tools[idx].arguments, a.as_str());
            },
            None => {},
        }
        proof {
            assert(self@.tools =~= tools_after_delta(t0, *d));
        }
    }

    /// Translate one chunk. The first chunk announces the message; each
    /// choice gives its text delta and finish reason; tool-call deltas are
    /// assembled until the stream ends.
    pub fn on_chunk(&mut self, chunk: &OaiStreamChunk) -> (events: Vec<StreamEvent>)
        requires
            indexes_in_range(chunk.choices@),
        ensures
            events_view(events@) == (if old(self)@.started {
                seq![]
            } else {
                seq![start_event(chunk.id@, chunk.model@)]
            }) + choices_events(chunk.choices@, chunk.usage),
            final(self)@.tools == tools_after_choices(old(self)@.tools, chunk.choices@),
            final(self)@.content_index == old(self)@.content_index,
            final(self)@.started,
            match chunk.usage {
                Some(u) => forall|k: int|
                    0 <= k < events@.len() ==> (#[trigger] events_view(events@)[k] matches EventView::MessageDelta {
                        usage,
                        ..
                    } ==> usage.input_tokens == u.prompt_tokens && usage.output_tokens == u.completion_tokens),
                None => true,
            },
    {
        let mut events: Vec<StreamEvent> = Vec::new();
        if !self.started {
            self.started = true;
            events.push(
                StreamEvent::MessageStart {
                    message: MessageResponse {
                        id: chunk.id.clone(),
                        role: "assistant".to_owned(),
                        content: Vec::new(),
                        model: chunk.model.clone(),
                        stop_reason: None,
                        usage: ApiUsage {
                            input_tokens: 0,
                            output_tokens: 0,
                            cache_creation_input_tokens: None,
                            cache_read_input_tokens: None,
                        },
                    },
                },
            );
            proof {
                let e = events@[0];
                assert(blocks_view(Seq::<ApiContentBlock>::empty()) =~= Seq::<BlockView>::empty());
            }
        }
        let ghost head = events_view(events@);
        let ghost t0 = self@.tools;
        proof {
            assert(head =~= (if old(self)@.started {
                seq![]
            } else {
                seq![start_event(chunk.id@, chunk.model@)]
            }));
        }
        let mut i: usize = 0;
        while i < chunk.choices.len()
            invariant
                0 <= i <= chunk.choices@.len(),
                indexes_in_range(chunk.choices@),
                events_view(events@) == head + choices_events(chunk.choices@.take(i as int), chunk.usage),
                self@.tools == tools_after_choices(t0, chunk.choices@.take(i as int)),
                self@.content_index == old(self)@.content_index,
                self@.started,
            decreases chunk.choices@.len() - i,
        {
            let c = &chunk.choices[i];
            let ghost e0 = events_view(events@);
            let ghost tt = self@.tools;
            proof {
                assert(chunk.choices@.take(i + 1).drop_last() =~= chunk.choices@.take(i as int));
            }
            match &c.content {
                Some(t) => {
                    if !t.as_str().is_empty() {
                        events.push(
                            StreamEvent::ContentBlockDelta {
                                index: 0,
                                delta: ContentDelta::TextDelta { text: t.clone() },
                            },
                        );
                    }
                },
                None => {},
            }
            match &c.tool_calls {
                Some(ds) => {
                    let mut j: usize = 0;
                    while j < ds.len()
                        invariant
                            0 <= j <= ds@.len(),
                            forall|q: int| 0 <= q < ds@.len() ==> (#[trigger] ds@[q]).index < usize::MAX,
                            self@.tools == tools_after_deltas(tt, ds@.take(j as int)),
                            self@.content_index == old(self)@.content_index,
                            self@.started,
                        decreases ds@.len() - j,
                    {
                        proof {
                            assert(ds@.take(j + 1).drop_last() =~= ds@.take(j as int));
                        }
                        self.apply_delta(&ds[j]);
                        j = j + 1;
                    }
                    proof {
                        assert(ds@.take(j as int) =~= ds@);
                    }
                },
                None => {},
            }
            match &c.finish_reason {
                Some(r) => {
                    let stop = map_finish_reason(r.as_str());
                    let usage = usage_from(chunk.usage);
                    events.push(
                        StreamEvent::MessageDelta { delta: MessageDelta { stop_reason: Some(stop) }, usage },
                    );
                },
                None => {},
            }
            proof {
                assert(events_view(events@) =~= e0 + choice_events(*c, chunk.usage));
                assert(events_view(events@) =~= head + choices_events(chunk.choices@.take(i + 1), chunk.usage));
            }
            i = i + 1;
        }
        proof {
            assert(chunk.choices@.take(i as int) =~= chunk.choices@);
            match chunk.usage {
                Some(u) => {
                    lemma_stream_finish_carries_usage(chunk.choices@, u);
                    let es = events_view(events@);
                    let cs = choices_events(chunk.choices@, chunk.usage);
                    assert forall|k: int| 0 <= k < events@.len() implies (#[trigger] events_view(events@)[k] matches EventView::MessageDelta {
                        usage,
                        ..
                    } ==> usage.input_tokens == u.prompt_tokens && usage.output_tokens == u.completion_tokens) by {
                        if k >= head.len() {
                            assert(es[k] == cs[k - head.len()]);
                        } else {
                            assert(es[k] == head[k]);
                        }
                    }
                },
                None => {},
            }
        }
        events
    }

    /// Emit the assembled tool calls as complete tool-use blocks, numbered
    /// on from the current block index.
    pub fn flush_tools(&mut self) -> (events: Vec<StreamEvent>)
        requires
            old(self)@.content_index + old(self)@.tools.len() <= usize::MAX,
        ensures
            events_view(events@) == flush_events(old(self)@.tools, old(self)@.content_index as int),
            final(self)@.tools.len() == 0,
            final(self)@.content_index == old(self)@.content_index + old(self)@.tools.len(),
            final(self)@.started == old(self)@.started,
    {
        let mut tools: Vec<ToolAcc> = Vec::new();
        std::mem::swap(&mut tools, &mut self.tools);
        let ghost t = tools@.map_values(|a: ToolAcc| acc_view(a));
        let ghost ci = self.content_index as int;
        let mut events: Vec<StreamEvent> = Vec::new();
        let n = tools.len();
        proof {
            assert(flush_events(t.take(0), ci) =~= Seq::<EventView>::empty());
        }
        for a in it: tools.into_iter()
            invariant
                n == t.len(),
                it.seq().map_values(|a: ToolAcc| acc_view(a)) == t,
                self.content_index == ci + it.index(),
                ci + n <= usize::MAX,
                events_view(events@) == flush_events(t.take(it.index() as int), ci),
                self.tools@.len() == 0,
                self.started == old(self).started,
        {
            let ghost k = it.index() as int;
            let ghost e0 = events_view(events@);
            proof {
                assert(acc_view(a) == t[k]);
            }
            let input = json_or_empty_object(a.arguments);
            let idx = self.content_index;
            events.push(
                StreamEvent::ContentBlockStart {
                    index: idx,
                    content_block: ApiContentBlock::ToolUse { id: a.id, name: a.name, input },
                },
            );
            events.push(StreamEvent::ContentBlockStop { index: idx });
            self.content_index = self.content_index + 1;
            proof {
                assert(t.take(k + 1).drop_last() =~= t.take(k));
                assert(events_view(events@) =~= flush_events(t.take(k + 1), ci));
            }
        }
        proof {
            assert(t.take(n as int) =~= t);
            assert(self@.tools =~= Seq::<ToolAccView>::empty());
        }
        events
    }

    /// The stream sent `[DONE]`: the assembled tool calls, then the end of
    /// the message.
    pub fn on_done(&mut self) -> (events: Vec<StreamEvent>)
        requires
            old(self)@.content_index + old(self)@.tools.len() <= usize::MAX,
        ensures
            events_view(events@) == flush_events(old(self)@.tools, old(self)@.content_index as int)
                + seq![EventView::MessageStop],
            final(self)@.tools.len() == 0,
    {
        let mut events = self.flush_tools();
        let ghost e0 = events_view(events@);
        events.push(StreamEvent::MessageStop);
        proof {
            assert(events_view(events@) =~= e0 + seq![EventView::MessageStop]);
        }
        events
    }
}

/// The content field of an outgoing message.
#[derive(Debug, Clone)]
pub enum OaiContent {
    /// `null`, as required beside tool calls when there is no text.
    Null,
    Text(String),
}

/// A tool call of an outgoing assistant message; `arguments` is JSON text.
#[derive(Debug, Clone)]
pub struct OaiOutToolCall {
    pub id: String,
    pub name: String,
    pub arguments: String,
}

/// An outgoing message.
#[derive(Debug, Clone)]
pub enum OaiOutMessage {
    /// A tool result (`role: tool`).
    Tool { tool_call_id: String, content: String },
    /// Any other message; `tool_calls` is left out when empty.
    Chat { role: String, content: OaiContent, tool_calls: Vec<OaiOutToolCall> },
}

/// A function tool offered to the model; `parameters` is JSON text.
#[derive(Debug, Clone)]
pub struct OaiFunctionTool {
    pub name: String,
    pub description: String,
    pub parameters: String,
}

/// An outgoing request.
#[derive(Debug, Clone)]
pub struct OaiRequest {
    pub model: String,
    pub max_tokens: u32,
    pub messages: Vec<OaiOutMessage>,
    pub stream: bool,
    pub tools: Option<Vec<OaiFunctionTool>>,
}

/// The model of an outgoing message's content.
pub enum ContentView {
    Null,
    Text(Seq<char>),
}

/// The model of an outgoing message.
pub enum OutView {
    Tool(Seq<char>, Seq<char>),
    Chat(Seq<char>, ContentView, Seq<ToolAccView>),
}

pub open spec fn out_view(m: OaiOutMessage) -> OutView {
    match m {
        OaiOutMessage::Tool { tool_call_id, content } => OutView::Tool(tool_call_id@, content@),
        OaiOutMessage::Chat { role, content, tool_calls } => OutView::Chat(
            role@,
            match content {
                OaiContent::Null => ContentView::Null,
                OaiContent::Text(t) => ContentView::Text(t@),
            },
            tool_calls@.map_values(|c: OaiOutToolCall| (c.id@, c.name@, c.arguments@)),
        ),
    }
}

pub open spec fn outs_view(v: Seq<OaiOutMessage>) -> Seq<OutView> {
    v.map_values(|m: OaiOutMessage| out_view(m))
}

/// The text sent for a tool result's JSON content: the string itself when
/// the content is a JSON string, else the JSON text.
pub open spec fn result_text(content: Seq<char>) -> Seq<char> {
    match json_string_value(content) {
        Some(s) => s,
        None => content,
    }
}

/// The tool results among the blocks, as `tool` messages, in order.
pub open spec fn tool_result_messages(bs: Seq<ApiContentBlock>) -> Seq<OutView>
    decreases bs.len(),
{
    if bs.len() == 0 {
        seq![]
    } else {
        tool_result_messages(bs.drop_last()) + match bs.last() {
            ApiContentBlock::ToolResult { tool_use_id, content, .. } => seq![
                OutView::Tool(tool_use_id@, result_text(content@)),
            ],
            _ => seq![],
        }
    }
}

/// The tool uses among the blocks, as tool calls, in order.
pub open spec fn tool_calls_of(bs: Seq<ApiContentBlock>) -> Seq<ToolAccView>
    decreases bs.len(),
{
    if bs.len() == 0 {
        seq![]
    } else {
        tool_calls_of(bs.drop_last()) + match bs.last() {
            ApiContentBlock::ToolUse { id, name, input } => seq![(id@, name@, input@)],
            _ => seq![],
        }
    }
}

/// The messages one canonical message becomes: one `tool` message per tool
/// result when it has any; else one message with its role, its text blocks
/// concatenated, and its tool uses as tool calls (the content is `null`
/// when there are tool calls and no text).
pub open spec fn translated(m: ApiMessage) -> Seq<OutView> {
    let results = tool_result_messages(m.content@);
    if results.len() > 0 {
        results
    } else {
        let text = crate::compact::text_of_blocks(m.content@);
        let calls = tool_calls_of(m.content@);
        seq![
            OutView::Chat(
                m.role@,
                if calls.len() > 0 && text.len() == 0 {
                    ContentView::Null
                } else {
                    ContentView::Text(text)
                },
                calls,
            ),
        ]
    }
}

/// Translate one canonical message into OpenAI messages.
pub fn translate_message(msg: &ApiMessage) -> (r: Vec<OaiOutMessage>)
    ensures
        outs_view(r@) == translated(*msg),
{
    let mut results: Vec<OaiOutMessage> = Vec::new();
    let mut calls: Vec<OaiOutToolCall> = Vec::new();
    let mut i: usize = 0;
    while i < msg.content.len()
        invariant
            0 <= i <= msg.content@.len(),
            outs_view(results@) == tool_result_messages(msg.content@.take(i as int)),
            calls@.map_values(|c: OaiOutToolCall| (c.id@, c.name@, c.arguments@)) == tool_calls_of(
                msg.content@.take(i as int),
            ),
        decreases msg.content@.len() - i,
    {
        let ghost r0 = outs_view(results@);
        let ghost c0 = calls@.map_values(|c: OaiOutToolCall| (c.id@, c.name@, c.arguments@));
        proof {
            assert(msg.content@.take(i + 1).drop_last() =~= msg.content@.take(i as int));
        }
        match &msg.content[i] {
            ApiContentBlock::ToolResult { tool_use_id, content, .. } => {
                let text = match crate::gateway::decode_json_string_pub(content.as_str()) {
                    Some(s) => s,
                    None => content.clone(),
                };
                results.push(OaiOutMessage::Tool { tool_call_id: tool_use_id.clone(), content: text });
                proof {
                    assert(outs_view(results@) =~= r0 + seq![OutView::Tool(tool_use_id@, result_text(content@))]);
                }
            },
            ApiContentBlock::ToolUse { id, name, input } => {
                calls.push(OaiOutToolCall { id: id.clone(), name: name.clone(), arguments: input.clone() });
                proof {
                    assert(calls@.map_values(|c: OaiOutToolCall| (c.id@, c.name@, c.arguments@)) =~= c0
                        + seq![(id@, name@, input@)]);
                }
            },
            _ => {},
        }
        proof {
            assert(outs_view(results@) =~= tool_result_messages(msg.content@.take(i + 1)));
            assert(calls@.map_values(|c: OaiOutToolCall| (c.id@, c.name@, c.arguments@))
                =~= tool_calls_of(msg.content@.take(i + 1)));
        }
        i = i + 1;
    }
    proof {
        assert(msg.content@.take(i as int) =~= msg.content@);
    }
    if results.len() > 0 {
        return results;
    }
    let text = crate::compact::join_text_blocks(msg.content.as_slice());
    let content = if calls.len() > 0 && text.as_str().is_empty() {
        OaiContent::Null
    } else {
        OaiContent::Text(text)
    };
    let mut r: Vec<OaiOutMessage> = Vec::new();
    r.push(OaiOutMessage::Chat { role: msg.role.clone(), content, tool_calls: calls });
    proof {
        assert(outs_view(r@) =~= translated(*msg));
    }
    r
}

/// The messages of a conversation, translated in order.
pub open spec fn translated_all(ms: Seq<ApiMessage>) -> Seq<OutView>
    decreases ms.len(),
{
    if ms.len() == 0 {
        seq![]
    } else {
        translated_all(ms.drop_last()) + translated(ms.last())
    }
}

/// The system text: the system blocks' texts joined by newlines.
pub open spec fn system_text_of(blocks: Seq<crate::api::SystemBlock>) -> Seq<char> {
    joined_with(blocks.map_values(|b: crate::api::SystemBlock| b.text@), "\n"@)
}

/// The system message, when there is system text.
pub open spec fn system_messages(system: Option<Vec<crate::api::SystemBlock>>) -> Seq<OutView> {
    match system {
        Some(bs) => if system_text_of(bs@).len() > 0 {
            seq![OutView::Chat("system"@, ContentView::Text(system_text_of(bs@)), seq![])]
        } else {
            seq![]
        },
        None => seq![],
    }
}

/// The function tool of a tool definition.
pub open spec fn is_function_of(t: crate::api::ToolDefinition, f: OaiFunctionTool) -> bool {
    f.name == t.name && f.description == t.description && f.parameters == t.input_schema
}

/// The system text of a request.
pub fn system_text(blocks: &Vec<crate::api::SystemBlock>) -> (r: String)
    ensures
        r@ == system_text_of(blocks@),
{
    let mut texts: Vec<String> = Vec::new();
    let mut i: usize = 0;
    while i < blocks.len()
        invariant
            0 <= i <= blocks@.len(),
            texts@.map_values(|s: String| s@) == blocks@.take(i as int).map_values(
                |b: crate::api::SystemBlock| b.text@,
            ),
        decreases blocks@.len() - i,
    {
        let ghost t0 = texts@;
        let t = blocks[i].text.clone();
        texts.push(t);
        proof {
            assert(texts@ =~= t0.push(t));
            assert(blocks@.take(i + 1) =~= blocks@.take(i as int).push(blocks@[i as int]));
            assert(texts@.map_values(|s: String| s@) =~= t0.map_values(|s: String| s@).push(t@));
            assert(texts@.map_values(|s: String| s@) =~= blocks@.take(i + 1).map_values(
                |b: crate::api::SystemBlock| b.text@,
            ));
        }
        i = i + 1;
    }
    proof {
        assert(blocks@.take(i as int) =~= blocks@);
    }
    join_with(&texts, "\n")
}

/// Build the OpenAI request: the system message (when there is system
/// text), the translated conversation, and the tools as functions (left
/// out when there are none).
pub fn build_openai_request(request: &CreateMessageRequest) -> (r: OaiRequest)
    ensures
        r.model == request.model,
        r.max_tokens == request.max_tokens,
        r.stream == request.stream,
        outs_view(r.messages@) == system_messages(request.system) + translated_all(request.messages@),
        match request.tools {
            Some(ts) => if ts@.len() > 0 {
                r.tools matches Some(fs) && fs@.len() == ts@.len() && forall|i: int|
                    0 <= i < ts@.len() ==> is_function_of(ts@[i], #[trigger] fs@[i])
            } else {
                r.tools is None
            },
            None => r.tools is None,
        },
{
    let mut messages: Vec<OaiOutMessage> = Vec::new();
    match &request.system {
        Some(bs) => {
            let t = system_text(bs);
            if !t.as_str().is_empty() {
                let ghost tv = t@;
                let calls: Vec<OaiOutToolCall> = Vec::new();
                proof {
                    assert(calls@.map_values(|c: OaiOutToolCall| (c.id@, c.name@, c.arguments@))
                        =~= Seq::<ToolAccView>::empty());
                }
                messages.push(
                    OaiOutMessage::Chat {
                        role: "system".to_owned(),
                        content: OaiContent::Text(t),
                        tool_calls: calls,
                    },
                );
                proof {
                    assert(out_view(messages@[0]) == OutView::Chat("system"@, ContentView::Text(tv), seq![]));
                    assert(outs_view(messages@) =~= system_messages(request.system));
                }
            } else {
                proof {
                    assert(outs_view(messages@) =~= system_messages(request.system));
                }
            }
        },
        None => {
            proof {
                assert(outs_view(messages@) =~= system_messages(request.system));
            }
        },
    }
    let ghost head = outs_view(messages@);
    let mut i: usize = 0;
    while i < request.messages.len()
        invariant
            0 <= i <= request.messages@.len(),
            outs_view(messages@) == head + translated_all(request.messages@.take(i as int)),
        decreases request.messages@.len() - i,
    {
        let ghost m0 = outs_view(messages@);
        let mut part = translate_message(&request.messages[i]);
        let ghost pv = outs_view(part@);
        messages.append(&mut part);
        proof {
            assert(request.messages@.take(i + 1).drop_last() =~= request.messages@.take(i as int));
            assert(outs_view(messages@) =~= m0 + pv);
        }
        i = i + 1;
    }
    proof {
        assert(request.messages@.take(i as int) =~= request.messages@);
    }
    let tools = match &request.tools {
        Some(ts) => {
            let mut fs: Vec<OaiFunctionTool> = Vec::new();
            let mut j: usize = 0;
            while j < ts.len()
                invariant
                    0 <= j <= ts@.len(),
                    fs@.len() == j,
                    forall|q: int| 0 <= q < j ==> is_function_of(ts@[q], #[trigger] fs@[q]),
                decreases ts@.len() - j,
            {
                let t = &ts[j];
                fs.push(
                    OaiFunctionTool {
                        name: t.name.clone(),
                        description: t.description.clone(),
                        parameters: t.input_schema.clone(),
                    },
                );
                j = j + 1;
            }
            if fs.len() > 0 {
                Some(fs)
            } else {
                None
            }
        },
        None => None,
    };
    OaiRequest {
        model: request.model.clone(),
        max_tokens: request.max_tokens,
        messages,
        stream: request.stream,
        tools,
    }
}

/// The blocks of a response's choice: its text when not empty, then its
/// tool calls (arguments that do not parse become the empty object).
pub open spec fn choice_blocks(c: OaiChoice) -> Seq<BlockView> {
    (match c.content {
        Some(t) => if t@.len() > 0 {
            seq![BlockView::Text(t@)]
        } else {
            seq![]
        },
        None => seq![],
    }) + match c.tool_calls {
        Some(tcs) => tcs@.map_values(|tc: OaiToolCall| BlockView::ToolUse(tc.id@, tc.name@, json_or_empty(tc.arguments@))),
        None => seq![],
    }
}

/// Translate a response: the first choice's blocks and finish reason.
pub fn parse_openai_response(resp: &OaiChatResponse) -> (r: Result<MessageResponse, AgentError>)
    ensures
        resp.choices@.len() == 0 ==> (r matches Err(AgentError::Api(m)) && m@
            == "No choices in OpenAI response"@),
        resp.choices@.len() > 0 ==> (r matches Ok(m) && m.id == resp.id && m.role@ == "assistant"@
            && m.model == resp.model && blocks_view(m.content@) == choice_blocks(resp.choices@[0])
            && crate::stream::opt_str_view(m.stop_reason) == match resp.choices@[0].finish_reason {
            Some(f) => Some(stop_reason_for(f@)),
            None => None,
        } && m.usage == usage_of(resp.usage)),
{
    if resp.choices.len() == 0 {
        return Err(AgentError::Api("No choices in OpenAI response".to_owned()));
    }
    let choice = &resp.choices[0];
    let mut content: Vec<ApiContentBlock> = Vec::new();
    match &choice.content {
        Some(t) => {
            if !t.as_str().is_empty() {
                content.push(ApiContentBlock::Text { text: t.clone(), cache_control: None });
            }
        },
        None => {},
    }
    let ghost head = blocks_view(content@);
    proof {
        assert(head =~= match choice.content {
            Some(t) => if t@.len() > 0 {
                seq![BlockView::Text(t@)]
            } else {
                seq![]
            },
            None => seq![],
        });
    }
    match &choice.tool_calls {
        Some(tcs) => {
            let mut i: usize = 0;
            while i < tcs.len()
                invariant
                    0 <= i <= tcs@.len(),
                    blocks_view(content@) == head + tcs@.take(i as int).map_values(
                        |tc: OaiToolCall| BlockView::ToolUse(tc.id@, tc.name@, json_or_empty(tc.arguments@)),
                    ),
                decreases tcs@.len() - i,
            {
                let ghost c0 = blocks_view(content@);
                let tc = &tcs[i];
                let input = json_or_empty_object(tc.arguments.clone());
                content.push(ApiContentBlock::ToolUse { id: tc.id.clone(), name: tc.name.clone(), input });
                proof {
                    assert(tcs@.take(i + 1) =~= tcs@.take(i as int).push(tcs@[i as int]));
                    assert(blocks_view(content@) =~= c0 + seq![
                        BlockView::ToolUse(tc.id@, tc.name@, json_or_empty(tc.arguments@)),
                    ]);
                    assert(blocks_view(content@) =~= head + tcs@.take(i + 1).map_values(
                        |tc: OaiToolCall| BlockView::ToolUse(tc.id@, tc.name@, json_or_empty(tc.arguments@)),
                    ));
                }
                i = i + 1;
            }
            proof {
                assert(tcs@.take(i as int) =~= tcs@);
            }
        },
        None => {
            proof {
                assert(blocks_view(content@) =~= choice_blocks(*choice));
            }
        },
    }
    let stop_reason = match &choice.finish_reason {
        Some(f) => Some(map_finish_reason(f.as_str())),
        None => None,
    };
    Ok(MessageResponse {
        id: resp.id.clone(),
        role: "assistant".to_owned(),
        content,
        model: resp.model.clone(),
        stop_reason,
        usage: usage_from(resp.usage),
    })
}

/// The error of a failed request, by HTTP status: 401/403 authentication,
/// 400 invalid request, 402 billing, 429 rate limit, 5xx server error;
/// otherwise a generic API error naming the status.
pub open spec fn status_error(status: u16, status_text: Seq<char>, detail: Seq<char>, e: AgentError) -> bool {
    if status == 401 || status == 403 {
        e matches AgentError::AuthenticationFailed(d) && d@ == detail
    } else if status == 400 {
        e matches AgentError::InvalidRequest(d) && d@ == detail
    } else if status == 402 {
        e matches AgentError::BillingError(d) && d@ == detail
    } else if status == 429 {
        e matches AgentError::RateLimited(d) && d@ == detail
    } else if 500 <= status <= 599 {
        e matches AgentError::ServerError(d) && d@ == detail
    } else {
        e matches AgentError::Api(d) && d@ == "HTTP "@ + status_text + ": "@ + detail
    }
}

/// Map a failed request to an error; `status_text` is how the status reads
/// (such as `404 Not Found`), `detail` the API's error message or the body.
pub fn status_to_error(status: u16, status_text: &str, detail: String) -> (e: AgentError)
    ensures
        status_error(status, status_text@, detail@, e),
{
    if status == 401 || status == 403 {
        AgentError::AuthenticationFailed(detail)
    } else if status == 400 {
        AgentError::InvalidRequest(detail)
    } else if status == 402 {
        AgentError::BillingError(detail)
    } else if status == 429 {
        AgentError::RateLimited(detail)
    } else if 500 <= status && status <= 599 {
        AgentError::ServerError(detail)
    } else {
        let mut m = "HTTP ".to_owned();
        push_str(&mut m, status_text);
        push_str(&mut m, ": ");
        push_str(&mut m, detail.as_str());
        AgentError::Api(m)
    }
}

/// Requests are retried on 429 (rate limited) and 529 (overloaded).
pub fn is_retryable(status: u16) -> (r: bool)
    ensures
        r == (status == 429 || status == 529),
{
    status == 429 || status == 529
}

/// In a streamed chunk that reports usage, every message delta (one per
/// choice that finishes) carries that usage: the prompt tokens as input and
/// the completion tokens as output. A chunk in which some choice finishes
/// yields such a delta.
pub proof fn lemma_stream_finish_carries_usage(cs: Seq<OaiStreamChoice>, u: OaiUsage)
    ensures
        forall|k: int|
            0 <= k < choices_events(cs, Some(u)).len() ==> (#[trigger] choices_events(cs, Some(u))[k] matches
                EventView::MessageDelta { usage, .. } ==> usage.input_tokens == u.prompt_tokens
                && usage.output_tokens == u.completion_tokens),
        (exists|j: int| 0 <= j < cs.len() && (#[trigger] cs[j]).finish_reason is Some) ==> exists|k: int|
            0 <= k < choices_events(cs, Some(u)).len() && #[trigger] choices_events(cs, Some(u))[k] is MessageDelta,
    decreases cs.len(),
{
    if cs.len() > 0 {
        let init = cs.drop_last();
        lemma_stream_finish_carries_usage(init, u);
        let a = choices_events(init, Some(u));
        let b = choice_events(cs.last(), Some(u));
        let es = choices_events(cs, Some(u));
        assert(es == a + b);
        assert forall|k: int| 0 <= k < es.len() implies (#[trigger] es[k] matches EventView::MessageDelta {
            usage,
            ..
        } ==> usage.input_tokens == u.prompt_tokens && usage.output_tokens == u.completion_tokens) by {
            if k < a.len() {
                assert(es[k] == a[k]);
            } else {
                assert(es[k] == b[k - a.len()]);
            }
        }
        if exists|j: int| 0 <= j < cs.len() && (#[trigger] cs[j]).finish_reason is Some {
            let j = choose|j: int| 0 <= j < cs.len() && (#[trigger] cs[j]).finish_reason is Some;
            if j < init.len() {
                assert(init[j] == cs[j]);
                let k = choose|k: int| 0 <= k < a.len() && #[trigger] a[k] is MessageDelta;
                assert(es[k] == a[k]);
            } else {
                assert(cs.last().finish_reason is Some);
                let k = es.len() - 1;
                assert(es[k] == b[b.len() - 1]);
            }
        }
    }
}

/// The streamed tool calls, once the stream ends, become one tool-use block
/// each, in order and numbered on from `ci`: for the `j`-th call a block
/// start with its id and name, then at once its stop. Nothing else is sent.
pub proof fn lemma_flush_one_block_per_call(t: Seq<ToolAccView>, ci: int)
    requires
        ci >= 0,
        ci + t.len() <= usize::MAX,
    ensures
        flush_events(t, ci).len() == 2 * t.len(),
        forall|j: int|
            0 <= j < t.len() ==> (#[trigger] flush_events(t, ci)[2 * j] matches EventView::BlockStart {
                index,
                block: BlockView::ToolUse(id, name, _),
            } && index == ci + j && id == t[j].0 && name == t[j].1) && (flush_events(t, ci)[2 * j + 1]
                == EventView::BlockStop { index: (ci + j) as usize }),
    decreases t.len(),
{
    if t.len() > 0 {
        lemma_flush_one_block_per_call(t.drop_last(), ci);
        let a = flush_events(t.drop_last(), ci);
        let es = flush_events(t, ci);
        assert forall|j: int| 0 <= j < t.len() implies (#[trigger] es[2 * j] matches EventView::BlockStart {
            index,
            block: BlockView::ToolUse(id, name, _),
        } && index == ci + j && id == t[j].0 && name == t[j].1) && es[2 * j + 1] == EventView::BlockStop {
            index: (ci + j) as usize,
        } by {
            if j < t.len() - 1 {
                assert(t.drop_last()[j] == t[j]);
                assert(es[2 * j] == a[2 * j]);
                assert(es[2 * j + 1] == a[2 * j + 1]);
            }
        }
    }
}

/// The canonical stop reasons: `stop` ends the turn, `tool_calls` asks for
/// tools, `length` hit the token limit; any other reason is passed on.
pub proof fn lemma_stop_reasons(reason: Seq<char>)
    ensures
        reason == "stop"@ ==> stop_reason_for(reason) == "end_turn"@,
        reason == "tool_calls"@ ==> stop_reason_for(reason) == "tool_use"@,
        reason == "length"@ ==> stop_reason_for(reason) == "max_tokens"@,
        reason != "stop"@ && reason != "tool_calls"@ && reason != "length"@ ==> stop_reason_for(reason) == reason,
{
    reveal_strlit("stop");
    reveal_strlit("tool_calls");
    reveal_strlit("length");
    assert("stop"@.len() == 4 && "tool_calls"@.len() == 10 && "length"@.len() == 6);
}

/// Whether a response's choice has text to show.
pub open spec fn has_text(c: OaiChoice) -> bool {
    c.content matches Some(x) && x@.len() > 0
}

/// The tool calls of a response's choice.
pub open spec fn calls_of(c: OaiChoice) -> Seq<OaiToolCall> {
    match c.tool_calls {
        Some(tcs) => tcs@,
        None => seq![],
    }
}

/// A response's choice becomes its text (when there is any) followed by one
/// tool-use block per tool call, in order, each with the call's id and
/// name; nothing else.
pub proof fn lemma_response_keeps_every_tool_call(c: OaiChoice)
    ensures
        has_text(c) ==> choice_blocks(c).len() == 1 + calls_of(c).len() && choice_blocks(c)[0] == BlockView::Text(
            c.content->0@,
        ),
        !has_text(c) ==> choice_blocks(c).len() == calls_of(c).len(),
        forall|j: int|
            0 <= j < calls_of(c).len() ==> (choice_blocks(c)[(if has_text(c) {
                1int
            } else {
                0int
            }) + j] matches BlockView::ToolUse(id, name, _) && id == (#[trigger] calls_of(c)[j]).id@ && name
                == calls_of(c)[j].name@),
{
}

} // verus!
