//! The Gemini `generateContent` wire format: translation of requests, of
//! responses, and of streamed responses into the canonical stream events.
//!
//! The wire types here hold what the translation reads; JSON payloads are
//! JSON text. Encoding and decoding JSON is left to the host.

use vstd::prelude::*;

use crate::api::{
    AgentError, ApiContentBlock, ApiMessage, ApiUsage, ContentDelta, CreateMessageRequest,
    MessageDelta, MessageResponse, StreamEvent, ThinkingParam,
};
use crate::openai::{result_text, system_text, system_text_of};
use crate::stream::{blocks_view, events_view, zero_usage, BlockView, DeltaView, EventView};
use crate::text::{decimal, push_str, str_eq, u64_to_decimal};

verus! {

/// Default endpoint of the Gemini API.
pub const DEFAULT_GEMINI_URL: &'static str = "https://generativelanguage.googleapis.com/v1beta";

/// The URL of a model's method.
pub open spec fn endpoint_url(base: Seq<char>, model: Seq<char>, method: Seq<char>) -> Seq<char> {
    base + "/models/"@ + model + ":"@ + method
}

/// Build the URL of a model's method.
pub fn endpoint(base_url: &str, model: &str, method: &str) -> (r: String)
    ensures
        r@ == endpoint_url(base_url@, model@, method@),
{
    let mut r = base_url.to_owned();
    push_str(&mut r, "/models/");
    push_str(&mut r, model);
    push_str(&mut r, ":");
    push_str(&mut r, method);
    r
}

/// A part of an outgoing message.
#[derive(Debug, Clone)]
pub enum GeminiPartOut {
    Text(String),
    /// Name and JSON text of the arguments.
    FunctionCall { name: String, args: String },
    /// Name and the result text.
    FunctionResponse { name: String, result: String },
    InlineData { mime_type: String, data: String },
}

/// An outgoing message.
#[derive(Debug, Clone)]
pub struct GeminiContentOut {
    pub role: String,
    pub parts: Vec<GeminiPartOut>,
}

/// A function declared to the model; `parameters` is JSON text.
#[derive(Debug, Clone)]
pub struct GeminiFunctionDecl {
    pub name: String,
    pub description: String,
    pub parameters: String,
}

/// An outgoing request.
#[derive(Debug, Clone)]
pub struct GeminiRequest {
    pub system_instruction: Option<String>,
    pub contents: Vec<GeminiContentOut>,
    pub max_output_tokens: u32,
    pub thinking_level: Option<String>,
    pub function_declarations: Option<Vec<GeminiFunctionDecl>>,
}

/// The model of an outgoing part.
pub enum PartView {
    Text(Seq<char>),
    FunctionCall(Seq<char>, Seq<char>),
    FunctionResponse(Seq<char>, Seq<char>),
    InlineData(Seq<char>, Seq<char>),
}

pub open spec fn part_view(p: GeminiPartOut) -> PartView {
    match p {
        GeminiPartOut::Text(t) => PartView::Text(t@),
        GeminiPartOut::FunctionCall { name, args } => PartView::FunctionCall(name@, args@),
        GeminiPartOut::FunctionResponse { name, result } => PartView::FunctionResponse(name@, result@),
        GeminiPartOut::InlineData { mime_type, data } => PartView::InlineData(mime_type@, data@),
    }
}

/// The part a block becomes: thinking is sent as text in `<thinking>` tags;
/// a tool result is keyed by the tool's name (its id when the name is
/// unknown).
pub open spec fn block_part(b: ApiContentBlock) -> PartView {
    match b {
        ApiContentBlock::Text { text, .. } => PartView::Text(text@),
        ApiContentBlock::ToolUse { name, input, .. } => PartView::FunctionCall(name@, input@),
        ApiContentBlock::ToolResult { tool_use_id, content, name, .. } => PartView::FunctionResponse(
            match name {
                Some(n) => n@,
                None => tool_use_id@,
            },
            result_text(content@),
        ),
        ApiContentBlock::Thinking { thinking } => PartView::Text("<thinking>"@ + thinking@ + "</thinking>"@),
        ApiContentBlock::Image { source } => PartView::InlineData(source.media_type@, source.data@),
    }
}

/// The role of a message in Gemini's terms: `model` for the assistant;
/// other roles than user and assistant are not sent.
pub open spec fn gemini_role(role: Seq<char>) -> Option<Seq<char>> {
    if role == "user"@ {
        Some("user"@)
    } else if role == "assistant"@ {
        Some("model"@)
    } else {
        None
    }
}

/// The message a canonical message becomes, if any: messages of other
/// roles, and messages without blocks, are left out.
pub open spec fn gemini_message(m: ApiMessage, out: Option<GeminiContentOut>) -> bool {
    match gemini_role(m.role@) {
        None => out is None,
        Some(r) => if m.content@.len() == 0 {
            out is None
        } else {
            out matches Some(c) && c.role@ == r && c.parts@.map_values(|p: GeminiPartOut| part_view(p))
                == m.content@.map_values(|b: ApiContentBlock| block_part(b))
        },
    }
}

/// The model of an outgoing message.
pub open spec fn content_out_view(c: GeminiContentOut) -> (Seq<char>, Seq<PartView>) {
    (c.role@, c.parts@.map_values(|p: GeminiPartOut| part_view(p)))
}

/// The model of the message a canonical message becomes, if any.
pub open spec fn gemini_view(m: ApiMessage) -> Option<(Seq<char>, Seq<PartView>)> {
    match gemini_role(m.role@) {
        None => None,
        Some(r) => if m.content@.len() == 0 {
            None
        } else {
            Some((r, m.content@.map_values(|b: ApiContentBlock| block_part(b))))
        },
    }
}

/// The messages a conversation becomes, in order.
pub open spec fn gemini_contents(ms: Seq<ApiMessage>) -> Seq<(Seq<char>, Seq<PartView>)>
    decreases ms.len(),
{
    if ms.len() == 0 {
        seq![]
    } else {
        gemini_contents(ms.drop_last()) + match gemini_view(ms.last()) {
            Some(v) => seq![v],
            None => seq![],
        }
    }
}

fn part_of(b: &ApiContentBlock) -> (p: GeminiPartOut)
    ensures
        part_view(p) == block_part(*b),
{
    match b {
        ApiContentBlock::Text { text, .. } => GeminiPartOut::Text(text.clone()),
        ApiContentBlock::ToolUse { name, input, .. } => GeminiPartOut::FunctionCall {
            name: name.clone(),
            args: input.clone(),
        },
        ApiContentBlock::ToolResult { tool_use_id, content, name, .. } => {
            let n = match name {
                Some(n) => n.clone(),
                None => tool_use_id.clone(),
            };
            let result = match crate::gateway::decode_json_string_pub(content.as_str()) {
                Some(s) => s,
                None => content.clone(),
            };
            GeminiPartOut::FunctionResponse { name: n, result }
        },
        ApiContentBlock::Thinking { thinking } => {
            let mut t = "<thinking>".to_owned();
            push_str(&mut t, thinking.as_str());
            push_str(&mut t, "</thinking>");
            GeminiPartOut::Text(t)
        },
        ApiContentBlock::Image { source } => GeminiPartOut::InlineData {
            mime_type: source.media_type.clone(),
            data: source.data.clone(),
        },
    }
}

/// Translate one canonical message.
pub fn translate_message_to_gemini(msg: &ApiMessage) -> (r: Option<GeminiContentOut>)
    ensures
        gemini_message(*msg, r),
{
    let role = if str_eq(msg.role.as_str(), "user") {
        "user"
    } else if str_eq(msg.role.as_str(), "assistant") {
        "model"
    } else {
        return None;
    };
    let mut parts: Vec<GeminiPartOut> = Vec::new();
    let mut i: usize = 0;
    while i < msg.content.len()
        invariant
            0 <= i <= msg.content@.len(),
            parts@.map_values(|p: GeminiPartOut| part_view(p)) == msg.content@.take(i as int).map_values(
                |b: ApiContentBlock| block_part(b),
            ),
        decreases msg.content@.len() - i,
    {
        let ghost p0 = parts@;
        let p = part_of(&msg.content[i]);
        parts.push(p);
        proof {
            assert(parts@ =~= p0.push(p));
            assert(msg.content@.take(i + 1) =~= msg.content@.take(i as int).push(msg.content@[i as int]));
            assert(parts@.map_values(|p: GeminiPartOut| part_view(p)) =~= p0.map_values(
                |p: GeminiPartOut| part_view(p),
            ).push(part_view(p)));
        }
        i = i + 1;
    }
    proof {
        assert(msg.content@.take(i as int) =~= msg.content@);
    }
    if parts.len() == 0 {
        return None;
    }
    Some(GeminiContentOut { role: role.to_owned(), parts })
}

/// The thinking level asked for: low up to a 4096-token budget, medium up
/// to 16384, high above or without a budget; none when thinking is not
/// enabled.
pub open spec fn thinking_level(t: Option<ThinkingParam>) -> Option<Seq<char>> {
    match t {
        Some(p) => if p.kind@ == "enabled"@ {
            Some(
                match p.budget_tokens {
                    Some(b) => if b <= 4096 {
                        "LOW"@
                    } else if b <= 16384 {
                        "MEDIUM"@
                    } else {
                        "HIGH"@
                    },
                    None => "HIGH"@,
                },
            )
        } else {
            None
        },
        None => None,
    }
}

/// Build the Gemini request: the system instruction (when there is system
/// text), the translated messages, the output limit, the thinking level and
/// the function declarations (left out when there are none).
pub fn build_gemini_request(request: &CreateMessageRequest) -> (r: GeminiRequest)
    ensures
        match request.system {
            Some(bs) => if system_text_of(bs@).len() > 0 {
                r.system_instruction matches Some(s) && s@ == system_text_of(bs@)
            } else {
                r.system_instruction is None
            },
            None => r.system_instruction is None,
        },
        r.max_output_tokens == request.max_tokens,
        crate::stream::opt_str_view(r.thinking_level) == thinking_level(request.thinking),
        r.contents@.map_values(|c: GeminiContentOut| content_out_view(c)) == gemini_contents(
            request.messages@,
        ),
        match request.tools {
            Some(ts) => if ts@.len() > 0 {
                r.function_declarations matches Some(fs) && fs@.len() == ts@.len() && forall|i: int|
                    0 <= i < ts@.len() ==> (#[trigger] fs@[i]).name == ts@[i].name && fs@[i].description
                        == ts@[i].description && fs@[i].parameters == ts@[i].input_schema
            } else {
                r.function_declarations is None
            },
            None => r.function_declarations is None,
        },
{
    let system_instruction = match &request.system {
        Some(bs) => {
            let t = system_text(bs);
            if t.as_str().is_empty() {
                None
            } else {
                Some(t)
            }
        },
        None => None,
    };
    let mut contents: Vec<GeminiContentOut> = Vec::new();
    let mut i: usize = 0;
    while i < request.messages.len()
        invariant
            0 <= i <= request.messages@.len(),
            contents@.map_values(|c: GeminiContentOut| content_out_view(c)) == gemini_contents(
                request.messages@.take(i as int),
            ),
        decreases request.messages@.len() - i,
    {
        let ghost c0 = contents@;
        proof {
            assert(request.messages@.take(i + 1).drop_last() =~= request.messages@.take(i as int));
        }
        match translate_message_to_gemini(&request.messages[i]) {
            Some(c) => {
                contents.push(c);
                proof {
                    assert(contents@ =~= c0.push(c));
                    assert(contents@.map_values(|c: GeminiContentOut| content_out_view(c)) =~= c0.map_values(
                        |c: GeminiContentOut| content_out_view(c),
                    ).push(content_out_view(c)));
                }
            },
            None => {},
        }
        proof {
            assert(contents@.map_values(|c: GeminiContentOut| content_out_view(c)) =~= gemini_contents(
                request.messages@.take(i + 1),
            ));
        }
        i = i + 1;
    }
    proof {
        assert(request.messages@.take(i as int) =~= request.messages@);
    }
    let thinking_level = match &request.thinking {
        Some(p) => {
            if str_eq(p.kind.as_str(), "enabled") {
                let level = match p.budget_tokens {
                    Some(b) => if b <= 4096 {
                        "LOW"
                    } else if b <= 16384 {
                        "MEDIUM"
                    } else {
                        "HIGH"
                    },
                    None => "HIGH",
                };
                Some(level.to_owned())
            } else {
                None
            }
        },
        None => None,
    };
    let function_declarations = match &request.tools {
        Some(ts) => {
            let mut fs: Vec<GeminiFunctionDecl> = Vec::new();
            let mut j: usize = 0;
            while j < ts.len()
                invariant
                    0 <= j <= ts@.len(),
                    fs@.len() == j,
                    forall|q: int| 0 <= q < j ==> (#[trigger] fs@[q]).name == ts@[q].name && fs@[q].description
                        == ts@[q].description && fs@[q].parameters == ts@[q].input_schema,
                decreases ts@.len() - j,
            {
                let t = &ts[j];
                fs.push(
                    GeminiFunctionDecl {
                        name: t.name.clone(),
                        description: t.description.clone(),
                        parameters: t.input_schema.clone(),
                    },
                );
                j = j + 1;
            }
            if fs.len() > 0 {
                Some(fs)
            } else {
                None
            }
        },
        None => None,
    };
    GeminiRequest {
        system_instruction,
        contents,
        max_output_tokens: request.max_tokens,
        thinking_level,
        function_declarations,
    }
}

/// A function call of the model; `args` is the JSON text of the arguments.
#[derive(Debug, Clone)]
pub struct GeminiFunctionCall {
    pub name: String,
    pub args: Option<String>,
}

/// A part of a response.
#[derive(Debug, Clone)]
pub struct GeminiPart {
    pub text: Option<String>,
    pub function_call: Option<GeminiFunctionCall>,
}

/// A candidate of a response.
#[derive(Debug, Clone)]
pub struct GeminiCandidate {
    pub parts: Option<Vec<GeminiPart>>,
    pub finish_reason: Option<String>,
}

/// Token counts reported by the API.
#[derive(Debug, Clone, Copy)]
pub struct GeminiUsageMetadata {
    pub prompt_token_count: Option<u64>,
    pub candidates_token_count: Option<u64>,
    pub cached_content_token_count: Option<u64>,
}

/// A response (or a streamed chunk).
#[derive(Debug, Clone)]
pub struct GeminiResponse {
    pub candidates: Option<Vec<GeminiCandidate>>,
    pub usage_metadata: Option<GeminiUsageMetadata>,
}

/// The canonical usage of the reported counts (missing counts are 0).
pub open spec fn gemini_usage(u: Option<GeminiUsageMetadata>) -> ApiUsage {
    match u {
        Some(u) => ApiUsage {
            input_tokens: match u.prompt_token_count {
                Some(n) => n,
                None => 0,
            },
            output_tokens: match u.candidates_token_count {
                Some(n) => n,
                None => 0,
            },
            cache_creation_input_tokens: None,
            cache_read_input_tokens: u.cached_content_token_count,
        },
        None => zero_usage(),
    }
}

fn usage_from(u: Option<GeminiUsageMetadata>) -> (r: ApiUsage)
    ensures
        r == gemini_usage(u),
{
    match u {
        Some(u) => ApiUsage {
            input_tokens: match u.prompt_token_count {
                Some(n) => n,
                None => 0,
            },
            output_tokens: match u.candidates_token_count {
                Some(n) => n,
                None => 0,
            },
            cache_creation_input_tokens: None,
            cache_read_input_tokens: u.cached_content_token_count,
        },
        None => ApiUsage {
            input_tokens: 0,
            output_tokens: 0,
            cache_creation_input_tokens: None,
            cache_read_input_tokens: None,
        },
    }
}

/// The canonical stop reason of a finish reason.
pub open spec fn gemini_stop_reason(reason: Seq<char>) -> Seq<char> {
    if reason == "STOP"@ {
        "end_turn"@
    } else if reason == "MAX_TOKENS"@ {
        "max_tokens"@
    } else {
        reason
    }
}

fn map_stop(reason: &str) -> (r: String)
    ensures
        r@ == gemini_stop_reason(reason@),
{
    if str_eq(reason, "STOP") {
        "end_turn".to_owned()
    } else if str_eq(reason, "MAX_TOKENS") {
        "max_tokens".to_owned()
    } else {
        reason.to_owned()
    }
}

/// The id given to the `n`-th function call of a response.
pub open spec fn call_id(n: nat) -> Seq<char> {
    "gemini_call_"@ + decimal(n)
}

fn call_id_exec(n: u64) -> (r: String)
    ensures
        r@ == call_id(n as nat),
{
    let mut r = "gemini_call_".to_owned();
    let d = u64_to_decimal(n);
    push_str(&mut r, d.as_str());
    r
}

/// The arguments of a call as JSON text; the empty object when absent.
pub open spec fn args_text(a: Option<String>) -> Seq<char> {
    match a {
        Some(s) => s@,
        None => "{}"@,
    }
}

/// The blocks of a candidate's parts, numbering function calls from `n`:
/// each part gives its text, then its function call.
pub open spec fn parts_blocks(parts: Seq<GeminiPart>, n: nat) -> Seq<BlockView>
    decreases parts.len(),
{
    if parts.len() == 0 {
        seq![]
    } else {
        let p = parts[0];
        let calls: nat = if p.function_call is Some {
            1
        } else {
            0
        };
        (match p.text {
            Some(t) => seq![BlockView::Text(t@)],
            None => seq![],
        }) + (match p.function_call {
            Some(fc) => seq![BlockView::ToolUse(call_id(n), fc.name@, args_text(fc.args))],
            None => seq![],
        }) + parts_blocks(parts.drop_first(), n + calls)
    }
}

/// Translate a response: the blocks of the first candidate; the stop
/// reason is `tool_use` when there are function calls, else the mapped
/// finish reason.
pub fn parse_gemini_response(resp: &GeminiResponse, model: &str, id: String) -> (r: Result<MessageResponse, AgentError>)
    requires
        match resp.candidates {
            Some(cs) => cs@.len() > 0 ==> match cs@[0].parts {
                Some(ps) => ps@.len() < u64::MAX,
                None => true,
            },
            None => true,
        },
    ensures
        match resp.candidates {
            Some(cs) => cs@.len() > 0,
            None => false,
        } ==> (r matches Ok(m) && m.id == id && m.role@ == "assistant"@ && m.model@ == model@
            && blocks_view(m.content@) == match resp.candidates.unwrap()@[0].parts {
            Some(ps) => parts_blocks(ps@, 0),
            None => seq![],
        } && crate::stream::opt_str_view(m.stop_reason) == if crate::api::any_tool_use(m.content@) {
            Some("tool_use"@)
        } else {
            match resp.candidates.unwrap()@[0].finish_reason {
                Some(f) => Some(gemini_stop_reason(f@)),
                None => None,
            }
        } && m.usage == gemini_usage(resp.usage_metadata)),
        !match resp.candidates {
            Some(cs) => cs@.len() > 0,
            None => false,
        } ==> (r matches Err(AgentError::Api(m)) && m@ == "No candidates in Gemini response"@),
{
    let candidate = match &resp.candidates {
        Some(cs) => {
            if cs.len() == 0 {
                return Err(AgentError::Api("No candidates in Gemini response".to_owned()));
            }
            &cs[0]
        },
        None => {
            return Err(AgentError::Api("No candidates in Gemini response".to_owned()));
        },
    };
    let mut content: Vec<ApiContentBlock> = Vec::new();
    match &candidate.parts {
        Some(ps) => {
            let mut i: usize = 0;
            let mut counter: u64 = 0;
            proof {
                assert(ps@.skip(0) =~= ps@);
            }
            while i < ps.len()
                invariant
                    0 <= i <= ps@.len(),
                    ps@.len() < u64::MAX,
                    counter <= i,
                    blocks_view(content@) + parts_blocks(ps@.skip(i as int), counter as nat)
                        == parts_blocks(ps@, 0),
                decreases ps@.len() - i,
            {
                let ghost c0 = blocks_view(content@);
                let p = &ps[i];
                proof {
                    assert(ps@.skip(i as int)[0] == *p);
                    assert(ps@.skip(i as int).drop_first() =~= ps@.skip(i + 1));
                }
                match &p.text {
                    Some(t) => {
                        content.push(ApiContentBlock::Text { text: t.clone(), cache_control: None });
                    },
                    None => {},
                }
                match &p.function_call {
                    Some(fc) => {
                        let id = call_id_exec(counter);
                        counter = counter + 1;
                        let args = match &fc.args {
                            Some(a) => a.clone(),
                            None => "{}".to_owned(),
                        };
                        content.push(ApiContentBlock::ToolUse { id, name: fc.name.clone(), input: args });
                    },
                    None => {},
                }
                proof {
                    assert(blocks_view(content@) + parts_blocks(ps@.skip(i + 1), counter as nat)
                        =~= c0 + parts_blocks(ps@.skip(i as int), (if p.function_call is Some {
                        counter - 1
                    } else {
                        counter as int
                    }) as nat));
                }
                i = i + 1;
            }
            proof {
                assert(ps@.skip(i as int) =~= Seq::<GeminiPart>::empty());
                assert(blocks_view(content@) =~= parts_blocks(ps@, 0));
            }
        },
        None => {
            proof {
                assert(blocks_view(content@) =~= Seq::<BlockView>::empty());
            }
        },
    }
    let has_tool_use = crate::api::has_tool_uses(content.as_slice());
    let stop_reason = if has_tool_use {
        Some("tool_use".to_owned())
    } else {
        match &candidate.finish_reason {
            Some(f) => Some(map_stop(f.as_str())),
            None => None,
        }
    };
    Ok(MessageResponse {
        id,
        role: "assistant".to_owned(),
        content,
        model: model.to_owned(),
        stop_reason,
        usage: usage_from(resp.usage_metadata),
    })
}

/// The number of function calls among the parts.
pub open spec fn calls_in(ps: Seq<GeminiPart>) -> nat
    decreases ps.len(),
{
    if ps.len() == 0 {
        0
    } else {
        calls_in(ps.drop_first()) + if ps[0].function_call is Some {
            1nat
        } else {
            0nat
        }
    }
}

pub open spec fn parts_of(c: GeminiCandidate) -> Seq<GeminiPart> {
    match c.parts {
        Some(ps) => ps@,
        None => seq![],
    }
}

/// The events of one streamed part, with `n` calls seen before: its text
/// (when not empty) as a delta of block 0; its function call as a complete
/// tool-use block at index `n + 1` (with id `gemini_call_<n>`).
pub open spec fn part_events(p: GeminiPart, n: nat) -> Seq<EventView> {
    (match p.text {
        Some(t) => if t@.len() > 0 {
            seq![EventView::BlockDelta { index: 0, delta: DeltaView::Text(t@) }]
        } else {
            seq![]
        },
        None => seq![],
    }) + match p.function_call {
        Some(fc) => seq![
            EventView::BlockStart {
                index: (n + 1) as usize,
                block: BlockView::ToolUse(call_id(n), fc.name@, args_text(fc.args)),
            },
            EventView::BlockStop { index: (n + 1) as usize },
        ],
        None => seq![],
    }
}

pub open spec fn parts_events(ps: Seq<GeminiPart>, n: nat) -> Seq<EventView>
    decreases ps.len(),
{
    if ps.len() == 0 {
        seq![]
    } else {
        part_events(ps[0], n) + parts_events(
            ps.drop_first(),
            n + if ps[0].function_call is Some {
                1nat
            } else {
                0nat
            },
        )
    }
}

/// The events of one candidate: its parts, then its finish reason as a
/// message delta with the chunk's usage.
pub open spec fn candidate_events(c: GeminiCandidate, n: nat, usage: Option<GeminiUsageMetadata>) -> Seq<EventView> {
    parts_events(parts_of(c), n) + match c.finish_reason {
        Some(r) => seq![EventView::MessageDelta { stop_reason: Some(gemini_stop_reason(r@)), usage: gemini_usage(usage) }],
        None => seq![],
    }
}

pub open spec fn candidates_events(cs: Seq<GeminiCandidate>, n: nat, usage: Option<GeminiUsageMetadata>) -> Seq<EventView>
    decreases cs.len(),
{
    if cs.len() == 0 {
        seq![]
    } else {
        candidate_events(cs[0], n, usage) + candidates_events(cs.drop_first(), n + calls_in(parts_of(cs[0])), usage)
    }
}

pub open spec fn candidates_calls(cs: Seq<GeminiCandidate>) -> nat
    decreases cs.len(),
{
    if cs.len() == 0 {
        0
    } else {
        calls_in(parts_of(cs[0])) + candidates_calls(cs.drop_first())
    }
}

pub open spec fn chunk_candidates(r: GeminiResponse) -> Seq<GeminiCandidate> {
    match r.candidates {
        Some(cs) => cs@,
        None => seq![],
    }
}

/// Calls among the parts of a suffix of candidates never outnumber those
/// of a longer suffix.
proof fn lemma_suffix_calls_mono(cs: Seq<GeminiCandidate>, j: int, k: int)
    requires
        0 <= j <= k <= cs.len(),
    ensures
        candidates_calls(cs.skip(j)) >= candidates_calls(cs.skip(k)),
    decreases k - j,
{
    if j < k {
        assert(cs.skip(j).drop_first() =~= cs.skip(j + 1));
        lemma_suffix_calls_mono(cs, j + 1, k);
    }
}

/// How many of the parts carry a function call.
fn calls_count(ps: &Vec<GeminiPart>) -> (n: usize)
    ensures
        n == calls_in(ps@),
{
    let mut i: usize = ps.len();
    let mut n: usize = 0;
    while i > 0
        invariant
            0 <= i <= ps@.len(),
            n == calls_in(ps@.skip(i as int)),
            n <= ps@.len() - i,
            ps@.len() <= usize::MAX,
        decreases i,
    {
        assert(ps@.skip(i - 1).drop_first() =~= ps@.skip(i as int));
        i -= 1;
        if ps[i].function_call.is_some() {
            n += 1;
        }
    }
    assert(ps@.skip(0) =~= ps@);
    n
}

/// Whether a chunk's function calls, added to `seen` calls, stay below
/// `usize::MAX` (as `GeminiStreamState::on_chunk` asks).
pub fn calls_fit(resp: &GeminiResponse, seen: usize) -> (r: bool)
    ensures
        r == (seen + candidates_calls(chunk_candidates(*resp)) < usize::MAX),
{
    match &resp.candidates {
        None => seen < usize::MAX,
        Some(cs) => {
            let mut i: usize = cs.len();
            let mut total: usize = seen;
            while i > 0
                invariant
                    0 <= i <= cs@.len(),
                    total == seen + candidates_calls(cs@.skip(i as int)),
                    resp.candidates == Some(*cs),
                decreases i,
            {
                assert(cs@.skip(i - 1).drop_first() =~= cs@.skip(i as int));
                i -= 1;
                let c: usize = match &cs[i].parts {
                    Some(ps) => calls_count(ps),
                    None => 0,
                };
                assert(c == calls_in(parts_of(cs@[i as int])));
                if c >= usize::MAX - total {
                    proof {
                        lemma_suffix_calls_mono(cs@, 0, i as int);
                        assert(cs@.skip(0) =~= cs@);
                    }
                    return false;
                }
                total = total + c;
            }
            assert(cs@.skip(0) =~= cs@);
            total < usize::MAX
        },
    }
}

/// The state of a streamed response being translated: whether the
/// message was announced, and how many function calls were seen.
pub struct GeminiStreamState {
    pub started: bool,
    pub calls: usize,
}

impl GeminiStreamState {
    /// The state before the first chunk.
    pub fn new() -> (s: GeminiStreamState)
        ensures
            !s.started,
            s.calls == 0,
    {
        GeminiStreamState { started: false, calls: 0 }
    }

    fn on_parts(&mut self, ps: &Vec<GeminiPart>, events: &mut Vec<StreamEvent>)
        requires
            old(self).calls + calls_in(ps@) < usize::MAX,
        ensures
            events_view(final(events)@) == events_view(old(events)@) + parts_events(ps@, old(self).calls as nat),
            final(self).calls == old(self).calls + calls_in(ps@),
            final(self).started == old(self).started,
    {
        let ghost n0 = self.calls as nat;
        let ghost e0 = events_view(events@);
        let mut i: usize = 0;
        proof {
            assert(ps@.skip(0) =~= ps@);
            assert(e0 + parts_events(ps@, n0) =~= events_view(events@) + parts_events(ps@.skip(0), n0));
        }
        while i < ps.len()
            invariant
                0 <= i <= ps@.len(),
                self.calls + calls_in(ps@.skip(i as int)) == n0 + calls_in(ps@),
                n0 + calls_in(ps@) < usize::MAX,
                events_view(events@) + parts_events(ps@.skip(i as int), self.calls as nat) == e0
                    + parts_events(ps@, n0),
                self.started == old(self).started,
            decreases ps@.len() - i,
        {
            let ghost ev0 = events_view(events@);
            let ghost c0 = self.calls as nat;
            let p = &ps[i];
            proof {
                assert(ps@.skip(i as int)[0] == *p);
                assert(ps@.skip(i as int).drop_first() =~= ps@.skip(i + 1));
            }
            match &p.text {
                Some(t) => {
                    if !t.as_str().is_empty() {
                        events.push(
                            StreamEvent::ContentBlockDelta {
                                index: 0,
                                delta: ContentDelta::TextDelta { text: t.clone() },
                            },
                        );
                    }
                },
                None => {},
            }
            match &p.function_call {
                Some(fc) => {
                    let id = call_id_exec(self.calls as u64);
                    self.calls = self.calls + 1;
                    let args = match &fc.args {
                        Some(a) => a.clone(),
                        None => "{}".to_owned(),
                    };
                    proof {
                        reveal_strlit("{}");
                    }
                    events.push(
                        StreamEvent::ContentBlockStart {
                            index: self.calls,
                            content_block: ApiContentBlock::ToolUse { id, name: fc.name.clone(), input: args },
                        },
                    );
                    events.push(StreamEvent::ContentBlockStop { index: self.calls });
                },
                None => {},
            }
            proof {
                assert(events_view(events@) =~= ev0 + part_events(*p, c0));
            }
            i = i + 1;
        }
        proof {
            assert(ps@.skip(i as int) =~= Seq::<GeminiPart>::empty());
        }
    }

    /// Translate one streamed chunk; the first announces the message (with
    /// the id and model given by the caller).
    pub fn on_chunk(&mut self, resp: &GeminiResponse, message_id: &str, model: &str) -> (events: Vec<StreamEvent>)
        requires
            old(self).calls + candidates_calls(chunk_candidates(*resp)) < usize::MAX,
        ensures
            events_view(events@) == (if old(self).started {
                seq![]
            } else {
                seq![crate::openai::start_event(message_id@, model@)]
            }) + candidates_events(chunk_candidates(*resp), old(self).calls as nat, resp.usage_metadata),
            final(self).calls == old(self).calls + candidates_calls(chunk_candidates(*resp)),
            final(self).started,
            tool_use_starts(events_view(events@)) == candidates_calls(chunk_candidates(*resp)),
    {
        let mut events: Vec<StreamEvent> = Vec::new();
        if !self.started {
            self.started = true;
            events.push(
                StreamEvent::MessageStart {
                    message: MessageResponse {
                        id: message_id.to_owned(),
                        role: "assistant".to_owned(),
                        content: Vec::new(),
                        model: model.to_owned(),
                        stop_reason: None,
                        usage: ApiUsage {
                            input_tokens: 0,
                            output_tokens: 0,
                            cache_creation_input_tokens: None,
                            cache_read_input_tokens: None,
                        },
                    },
                },
            );
            proof {
                assert(blocks_view(Seq::<ApiContentBlock>::empty()) =~= Seq::<BlockView>::empty());
            }
        }
        let ghost head = events_view(events@);
        proof {
            assert(head =~= (if old(self).started {
                seq![]
            } else {
                seq![crate::openai::start_event(message_id@, model@)]
            }));
        }
        match &resp.candidates {
            Some(cs) => {
                let ghost n0 = self.calls as nat;
                let mut i: usize = 0;
                proof {
                    assert(cs@.skip(0) =~= cs@);
                    assert(events_view(events@) + candidates_events(cs@.skip(0), n0, resp.usage_metadata) =~= head
                        + candidates_events(cs@, n0, resp.usage_metadata));
                }
                while i < cs.len()
                    invariant
                        0 <= i <= cs@.len(),
                        self.calls + candidates_calls(cs@.skip(i as int)) == n0 + candidates_calls(cs@),
                        n0 + candidates_calls(cs@) < usize::MAX,
                        events_view(events@) + candidates_events(cs@.skip(i as int), self.calls as nat, resp.usage_metadata)
                            == head + candidates_events(cs@, n0, resp.usage_metadata),
                        self.started,
                    decreases cs@.len() - i,
                {
                    let ghost ev0 = events_view(events@);
                    let ghost c0 = self.calls as nat;
                    let c = &cs[i];
                    proof {
                        assert(cs@.skip(i as int)[0] == *c);
                        assert(cs@.skip(i as int).drop_first() =~= cs@.skip(i + 1));
                    }
                    match &c.parts {
                        Some(ps) => {
                            self.on_parts(ps, &mut events);
                        },
                        None => {
                            proof {
                                assert(parts_events(parts_of(*c), c0) =~= Seq::<EventView>::empty());
                            }
                        },
                    }
                    let ghost ev1 = events_view(events@);
                    assert(ev1 == ev0 + parts_events(parts_of(*c), c0));
                    match &c.finish_reason {
                        Some(r) => {
                            let stop = map_stop(r.as_str());
                            let usage = usage_from(resp.usage_metadata);
                            events.push(
                                StreamEvent::MessageDelta { delta: MessageDelta { stop_reason: Some(stop) }, usage },
                            );
                        },
                        None => {},
                    }
                    proof {
                        assert(events_view(events@) =~= ev1 + match c.finish_reason {
                            Some(r) => seq![EventView::MessageDelta { stop_reason: Some(gemini_stop_reason(r@)), usage: gemini_usage(resp.usage_metadata) }],
                            None => seq![],
                        });
                        assert(events_view(events@) =~= ev0 + candidate_events(*c, c0, resp.usage_metadata));
                    }
                    i = i + 1;
                }
                proof {
                    assert(cs@.skip(i as int) =~= Seq::<GeminiCandidate>::empty());
                }
            },
            None => {},
        }
        proof {
            let all = candidates_events(chunk_candidates(*resp), old(self).calls as nat, resp.usage_metadata);
            assert(events_view(events@) == head + all);
            lemma_stream_candidates_open_one_block_per_call(
                chunk_candidates(*resp),
                old(self).calls as nat,
                resp.usage_metadata,
            );
            lemma_tool_use_starts_concat(head, all);
            reveal_with_fuel(tool_use_starts, 2);
            if head.len() == 1 {
                assert(head.drop_first() =~= Seq::<EventView>::empty());
            }
        }
        events
    }

    /// The stream ended: the message is complete.
    pub fn on_end(&self) -> (events: Vec<StreamEvent>)
        ensures
            events_view(events@) == seq![EventView::MessageStop],
    {
        let mut events: Vec<StreamEvent> = Vec::new();
        events.push(StreamEvent::MessageStop);
        proof {
            assert(events_view(events@) =~= seq![EventView::MessageStop]);
        }
        events
    }
}

/// Whether an event opens a tool-use block.
pub open spec fn opens_tool_use(e: EventView) -> bool {
    e matches EventView::BlockStart { block: BlockView::ToolUse(..), .. }
}

/// The number of tool-use blocks that a run of events opens.
pub open spec fn tool_use_starts(es: Seq<EventView>) -> nat
    decreases es.len(),
{
    if es.len() == 0 {
        0
    } else {
        (if opens_tool_use(es[0]) {
            1nat
        } else {
            0nat
        }) + tool_use_starts(es.drop_first())
    }
}

proof fn lemma_tool_use_starts_concat(a: Seq<EventView>, b: Seq<EventView>)
    ensures
        tool_use_starts(a + b) == tool_use_starts(a) + tool_use_starts(b),
    decreases a.len(),
{
    if a.len() > 0 {
        assert((a + b)[0] == a[0]);
        assert((a + b).drop_first() =~= a.drop_first() + b);
        lemma_tool_use_starts_concat(a.drop_first(), b);
    }
}

/// One part opens a tool-use block exactly when it carries a function call.
proof fn lemma_part_tool_uses(p: GeminiPart, n: nat)
    ensures
        tool_use_starts(part_events(p, n)) == if p.function_call is Some {
            1nat
        } else {
            0nat
        },
{
    let t: Seq<EventView> = match p.text {
        Some(x) => if x@.len() > 0 {
            seq![EventView::BlockDelta { index: 0, delta: DeltaView::Text(x@) }]
        } else {
            seq![]
        },
        None => seq![],
    };
    let f: Seq<EventView> = match p.function_call {
        Some(fc) => seq![
            EventView::BlockStart {
                index: (n + 1) as usize,
                block: BlockView::ToolUse(call_id(n), fc.name@, args_text(fc.args)),
            },
            EventView::BlockStop { index: (n + 1) as usize },
        ],
        None => seq![],
    };
    assert(part_events(p, n) == t + f);
    lemma_tool_use_starts_concat(t, f);
    reveal_with_fuel(tool_use_starts, 3);
    if t.len() == 1 {
        assert(t.drop_first() =~= Seq::<EventView>::empty());
    }
    if f.len() == 2 {
        assert(f.drop_first() =~= seq![f[1]]);
        assert(f.drop_first().drop_first() =~= Seq::<EventView>::empty());
    }
}

/// The streamed parts of a Gemini response open exactly one tool-use block
/// per function call among them: no call is dropped and none is invented.
pub proof fn lemma_stream_parts_open_one_block_per_call(ps: Seq<GeminiPart>, n: nat)
    ensures
        tool_use_starts(parts_events(ps, n)) == calls_in(ps),
    decreases ps.len(),
{
    if ps.len() > 0 {
        let m = n + if ps[0].function_call is Some {
            1nat
        } else {
            0nat
        };
        lemma_stream_parts_open_one_block_per_call(ps.drop_first(), m);
        lemma_part_tool_uses(ps[0], n);
        lemma_tool_use_starts_concat(part_events(ps[0], n), parts_events(ps.drop_first(), m));
    }
}

/// Every function call among the streamed parts of a Gemini response is
/// announced as a tool-use block with the call's name and arguments (`{}`
/// when it has none), closed by the very next event.
pub proof fn lemma_stream_call_becomes_tool_use(ps: Seq<GeminiPart>, n: nat, i: int)
    requires
        0 <= i < ps.len(),
        ps[i].function_call is Some,
    ensures
        ({
            let fc = ps[i].function_call->0;
            let args = match fc.args {
                Some(a) => a@,
                None => "{}"@,
            };
            let es = parts_events(ps, n);
            exists|k: int|
                0 <= k && k + 1 < es.len() && (#[trigger] es[k] matches EventView::BlockStart {
                    index,
                    block: BlockView::ToolUse(_, name, input),
                } && name == fc.name@ && input == args && es[k + 1] == EventView::BlockStop { index })
        }),
    decreases ps.len(),
{
    let es = parts_events(ps, n);
    let head = part_events(ps[0], n);
    let m = n + if ps[0].function_call is Some {
        1nat
    } else {
        0nat
    };
    let rest = parts_events(ps.drop_first(), m);
    assert(es == head + rest);
    let fc = ps[i].function_call->0;
    let args = match fc.args {
        Some(a) => a@,
        None => "{}"@,
    };
    if i == 0 {
        let t: Seq<EventView> = match ps[0].text {
            Some(x) => if x@.len() > 0 {
                seq![EventView::BlockDelta { index: 0, delta: DeltaView::Text(x@) }]
            } else {
                seq![]
            },
            None => seq![],
        };
        let k = t.len() as int;
        assert(head.len() == k + 2);
        assert(es[k] == head[k]);
        assert(es[k + 1] == head[k + 1]);
        assert(es[k] matches EventView::BlockStart { index, block: BlockView::ToolUse(_, name, input) } && name
            == fc.name@ && input == args && es[k + 1] == EventView::BlockStop { index });
    } else {
        assert(ps.drop_first()[i - 1] == ps[i]);
        lemma_stream_call_becomes_tool_use(ps.drop_first(), m, i - 1);
        let k0 = choose|k: int|
            0 <= k && k + 1 < rest.len() && (#[trigger] rest[k] matches EventView::BlockStart {
                index,
                block: BlockView::ToolUse(_, name, input),
            } && name == fc.name@ && input == args && rest[k + 1] == EventView::BlockStop { index });
        let k = head.len() + k0;
        assert(es[k] == rest[k0]);
        assert(es[k + 1] == rest[k0 + 1]);
    }
}

proof fn lemma_parts_no_message_delta(ps: Seq<GeminiPart>, n: nat)
    ensures
        forall|k: int| 0 <= k < parts_events(ps, n).len() ==> !(#[trigger] parts_events(ps, n)[k] is MessageDelta),
    decreases ps.len(),
{
    if ps.len() > 0 {
        let m = n + if ps[0].function_call is Some {
            1nat
        } else {
            0nat
        };
        lemma_parts_no_message_delta(ps.drop_first(), m);
        let a = part_events(ps[0], n);
        let b = parts_events(ps.drop_first(), m);
        let es = parts_events(ps, n);
        assert(es == a + b);
        assert forall|k: int| 0 <= k < es.len() implies !(#[trigger] es[k] is MessageDelta) by {
            if k < a.len() {
                assert(es[k] == a[k]);
            } else {
                assert(es[k] == b[k - a.len()]);
            }
        }
    }
}

/// In a streamed Gemini chunk that reports usage metadata, every message
/// delta (one per candidate that finishes) carries it: the prompt token
/// count as input, the candidates token count as output (0 when absent),
/// and the cached token count as cache reads.
pub proof fn lemma_stream_finish_carries_usage(cs: Seq<GeminiCandidate>, n: nat, u: GeminiUsageMetadata)
    ensures
        forall|k: int|
            0 <= k < candidates_events(cs, n, Some(u)).len() ==> (#[trigger] candidates_events(cs, n, Some(u))[k]
                matches EventView::MessageDelta { usage, .. } ==> usage.input_tokens == (match u.prompt_token_count {
                Some(x) => x,
                None => 0,
            }) && usage.output_tokens == (match u.candidates_token_count {
                Some(x) => x,
                None => 0,
            }) && usage.cache_read_input_tokens == u.cached_content_token_count),
    decreases cs.len(),
{
    if cs.len() > 0 {
        let m = n + calls_in(parts_of(cs[0]));
        lemma_stream_finish_carries_usage(cs.drop_first(), m, u);
        lemma_parts_no_message_delta(parts_of(cs[0]), n);
        let p = parts_events(parts_of(cs[0]), n);
        let a = candidate_events(cs[0], n, Some(u));
        let b = candidates_events(cs.drop_first(), m, Some(u));
        let es = candidates_events(cs, n, Some(u));
        assert(es == a + b);
        assert forall|k: int| 0 <= k < es.len() implies (#[trigger] es[k] matches EventView::MessageDelta {
            usage,
            ..
        } ==> usage.input_tokens == (match u.prompt_token_count {
            Some(x) => x,
            None => 0,
        }) && usage.output_tokens == (match u.candidates_token_count {
            Some(x) => x,
            None => 0,
        }) && usage.cache_read_input_tokens == u.cached_content_token_count) by {
            if k < a.len() {
                assert(es[k] == a[k]);
                if k < p.len() {
                    assert(a[k] == p[k]);
                }
            } else {
                assert(es[k] == b[k - a.len()]);
            }
        }
    }
}

/// The canonical stop reasons: `STOP` ends the turn, `MAX_TOKENS` hit the
/// token limit; any other reason is passed on.
pub proof fn lemma_stop_reasons(reason: Seq<char>)
    ensures
        reason == "STOP"@ ==> gemini_stop_reason(reason) == "end_turn"@,
        reason == "MAX_TOKENS"@ ==> gemini_stop_reason(reason) == "max_tokens"@,
        reason != "STOP"@ && reason != "MAX_TOKENS"@ ==> gemini_stop_reason(reason) == reason,
{
    reveal_strlit("STOP");
    reveal_strlit("MAX_TOKENS");
    assert("STOP"@.len() == 4 && "MAX_TOKENS"@.len() == 10);
}

/// The streamed candidates of a Gemini chunk open exactly one tool-use
/// block per function call among all their parts.
pub proof fn lemma_stream_candidates_open_one_block_per_call(
    cs: Seq<GeminiCandidate>,
    n: nat,
    usage: Option<GeminiUsageMetadata>,
)
    ensures
        tool_use_starts(candidates_events(cs, n, usage)) == candidates_calls(cs),
    decreases cs.len(),
{
    if cs.len() > 0 {
        let m = n + calls_in(parts_of(cs[0]));
        lemma_stream_candidates_open_one_block_per_call(cs.drop_first(), m, usage);
        lemma_stream_parts_open_one_block_per_call(parts_of(cs[0]), n);
        let p = parts_events(parts_of(cs[0]), n);
        let f: Seq<EventView> = match cs[0].finish_reason {
            Some(r) => seq![EventView::MessageDelta { stop_reason: Some(gemini_stop_reason(r@)), usage: gemini_usage(usage) }],
            None => seq![],
        };
        assert(candidate_events(cs[0], n, usage) == p + f);
        lemma_tool_use_starts_concat(p, f);
        reveal_with_fuel(tool_use_starts, 2);
        if f.len() == 1 {
            assert(f.drop_first() =~= Seq::<EventView>::empty());
        }
        lemma_tool_use_starts_concat(candidate_events(cs[0], n, usage), candidates_events(cs.drop_first(), m, usage));
    }
}

/// The number of tool-use blocks among some blocks.
pub open spec fn tool_use_blocks(bs: Seq<BlockView>) -> nat
    decreases bs.len(),
{
    if bs.len() == 0 {
        0
    } else {
        (if bs[0] is ToolUse {
            1nat
        } else {
            0nat
        }) + tool_use_blocks(bs.drop_first())
    }
}

proof fn lemma_tool_use_blocks_concat(a: Seq<BlockView>, b: Seq<BlockView>)
    ensures
        tool_use_blocks(a + b) == tool_use_blocks(a) + tool_use_blocks(b),
    decreases a.len(),
{
    if a.len() > 0 {
        assert((a + b)[0] == a[0]);
        assert((a + b).drop_first() =~= a.drop_first() + b);
        lemma_tool_use_blocks_concat(a.drop_first(), b);
    }
}

/// A Gemini response's parts become exactly one tool-use block per
/// function call among them.
pub proof fn lemma_response_one_block_per_call(ps: Seq<GeminiPart>, n: nat)
    ensures
        tool_use_blocks(parts_blocks(ps, n)) == calls_in(ps),
    decreases ps.len(),
{
    if ps.len() > 0 {
        let p = ps[0];
        let m = n + if p.function_call is Some {
            1nat
        } else {
            0nat
        };
        let t: Seq<BlockView> = match p.text {
            Some(x) => seq![BlockView::Text(x@)],
            None => seq![],
        };
        let f: Seq<BlockView> = match p.function_call {
            Some(fc) => seq![BlockView::ToolUse(call_id(n), fc.name@, args_text(fc.args))],
            None => seq![],
        };
        let rest = parts_blocks(ps.drop_first(), m);
        assert(parts_blocks(ps, n) == t + f + rest);
        lemma_response_one_block_per_call(ps.drop_first(), m);
        lemma_tool_use_blocks_concat(t + f, rest);
        lemma_tool_use_blocks_concat(t, f);
        reveal_with_fuel(tool_use_blocks, 2);
        if t.len() == 1 {
            assert(t.drop_first() =~= Seq::<BlockView>::empty());
        }
        if f.len() == 1 {
            assert(f.drop_first() =~= Seq::<BlockView>::empty());
        }
    }
}

} // verus!
