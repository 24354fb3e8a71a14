//! The Messages-API providers: Anthropic's own endpoint, AWS Bedrock and
//! Google Vertex AI. They share the request and event formats; what differs
//! is the URL, the error mapping and, for Bedrock, the binary framing of
//! streamed events.

use vstd::prelude::*;
use vstd::utf8::{decode_utf8, valid_utf8};
use base64::Engine;

use crate::api::{AgentError, ApiContentBlock, ApiMessage, CreateMessageRequest};
use crate::sse::{trimmed, trim};
use crate::text::{chars_of, push_str, str_eq, string_of_range};

verus! {

/// Version of the Messages API sent to Bedrock.
pub const BEDROCK_API_VERSION: &'static str = "bedrock-2023-05-31";

/// Version of the Messages API sent to Vertex AI.
pub const VERTEX_API_VERSION: &'static str = "vertex-2023-10-16";

/// What a provider's backend supports.
#[derive(Debug, Clone, Copy, PartialEq, Eq, Structural)]
pub struct ProviderCapabilities {
    /// Streaming responses.
    pub streaming: bool,
    /// Tool (function) calling.
    pub tool_use: bool,
    /// Extended thinking.
    pub thinking: bool,
    /// Prompt caching through `cache_control` blocks.
    pub prompt_caching: bool,
}

/// The backends a provider can talk to.
#[derive(Debug, Clone, Copy, PartialEq, Eq, Structural)]
pub enum Backend {
    Anthropic,
    Bedrock,
    Vertex,
    OpenAi,
    Gemini,
}

/// Every backend streams and calls tools; all but OpenAI-compatible ones
/// think; only the three that speak the Messages API cache prompts.
pub open spec fn capabilities_of(b: Backend) -> ProviderCapabilities {
    ProviderCapabilities {
        streaming: true,
        tool_use: true,
        thinking: !(b is OpenAi),
        prompt_caching: b is Anthropic || b is Bedrock || b is Vertex,
    }
}

impl Backend {
    /// The capabilities a provider for this backend advertises.
    pub fn capabilities(&self) -> (c: ProviderCapabilities)
        ensures
            c == capabilities_of(*self),
    {
        match self {
            Backend::Anthropic | Backend::Bedrock | Backend::Vertex => ProviderCapabilities {
                streaming: true,
                tool_use: true,
                thinking: true,
                prompt_caching: true,
            },
            Backend::Gemini => ProviderCapabilities {
                streaming: true,
                tool_use: true,
                thinking: true,
                prompt_caching: false,
            },
            Backend::OpenAi => ProviderCapabilities {
                streaming: true,
                tool_use: true,
                thinking: false,
                prompt_caching: false,
            },
        }
    }
}

/// The Bedrock InvokeModel URL of a model.
pub open spec fn bedrock_url(region: Seq<char>, model_id: Seq<char>, stream: bool) -> Seq<char> {
    "https://bedrock-runtime."@ + region + ".amazonaws.com/model/"@ + model_id + if stream {
        "/invoke-with-response-stream"@
    } else {
        "/invoke"@
    }
}

/// The Bedrock InvokeModel URL of a model.
pub fn bedrock_invoke_url(region: &str, model_id: &str) -> (r: String)
    ensures
        r@ == bedrock_url(region@, model_id@, false),
{
    let mut r = "https://bedrock-runtime.".to_owned();
    push_str(&mut r, region);
    push_str(&mut r, ".amazonaws.com/model/");
    push_str(&mut r, model_id);
    push_str(&mut r, "/invoke");
    r
}

/// The Bedrock InvokeModelWithResponseStream URL of a model.
pub fn bedrock_invoke_stream_url(region: &str, model_id: &str) -> (r: String)
    ensures
        r@ == bedrock_url(region@, model_id@, true),
{
    let mut r = "https://bedrock-runtime.".to_owned();
    push_str(&mut r, region);
    push_str(&mut r, ".amazonaws.com/model/");
    push_str(&mut r, model_id);
    push_str(&mut r, "/invoke-with-response-stream");
    r
}

/// The Vertex AI rawPredict URL of a model.
pub open spec fn vertex_url(region: Seq<char>, project: Seq<char>, model: Seq<char>, stream: bool) -> Seq<char> {
    "https://"@ + region + "-aiplatform.googleapis.com/v1/projects/"@ + project + "/locations/"@
        + region + "/publishers/anthropic/models/"@ + model + if stream {
        ":streamRawPredict"@
    } else {
        ":rawPredict"@
    }
}

fn vertex_url_exec(region: &str, project: &str, model: &str, stream: bool) -> (r: String)
    ensures
        r@ == vertex_url(region@, project@, model@, stream),
{
    let mut r = "https://".to_owned();
    push_str(&mut r, region);
    push_str(&mut r, "-aiplatform.googleapis.com/v1/projects/");
    push_str(&mut r, project);
    push_str(&mut r, "/locations/");
    push_str(&mut r, region);
    push_str(&mut r, "/publishers/anthropic/models/");
    push_str(&mut r, model);
    if stream {
        push_str(&mut r, ":streamRawPredict");
    } else {
        push_str(&mut r, ":rawPredict");
    }
    r
}

/// The Vertex AI rawPredict URL of a model.
pub fn vertex_invoke_url(region: &str, project: &str, model: &str) -> (r: String)
    ensures
        r@ == vertex_url(region@, project@, model@, false),
{
    vertex_url_exec(region, project, model, false)
}

/// The Vertex AI streamRawPredict URL of a model.
pub fn vertex_invoke_stream_url(region: &str, project: &str, model: &str) -> (r: String)
    ensures
        r@ == vertex_url(region@, project@, model@, true),
{
    vertex_url_exec(region, project, model, true)
}

/// The error of a failed Messages-API request, by HTTP status: as for the
/// other providers, with 529 (overloaded) a server error of its own.
pub open spec fn anthropic_status_error(status: u16, status_text: Seq<char>, detail: Seq<char>, e: AgentError) -> bool {
    if status == 529 {
        e matches AgentError::ServerError(d) && d@ == "overloaded: "@ + detail
    } else {
        crate::openai::status_error(status, status_text, detail, e)
    }
}

/// Map a failed Messages-API request to an error.
pub fn anthropic_status_to_error(status: u16, status_text: &str, detail: String) -> (e: AgentError)
    ensures
        anthropic_status_error(status, status_text@, detail@, e),
{
    if status == 529 {
        let mut m = "overloaded: ".to_owned();
        push_str(&mut m, detail.as_str());
        AgentError::ServerError(m)
    } else {
        crate::openai::status_to_error(status, status_text, detail)
    }
}

/// The error of a failed Gemini request: as for OpenAI, without the
/// billing case (402 is a generic API error).
pub open spec fn gemini_status_error(status: u16, status_text: Seq<char>, detail: Seq<char>, e: AgentError) -> bool {
    if status == 402 {
        e matches AgentError::Api(d) && d@ == "HTTP "@ + status_text + ": "@ + detail
    } else {
        crate::openai::status_error(status, status_text, detail, e)
    }
}

/// Map a failed Gemini request to an error.
pub fn gemini_status_to_error(status: u16, status_text: &str, detail: String) -> (e: AgentError)
    ensures
        gemini_status_error(status, status_text@, detail@, e),
{
    if status == 402 {
        let mut m = "HTTP ".to_owned();
        push_str(&mut m, status_text);
        push_str(&mut m, ": ");
        push_str(&mut m, detail.as_str());
        AgentError::Api(m)
    } else {
        crate::openai::status_to_error(status, status_text, detail)
    }
}

/// A block without the tool name of a tool result (only Gemini needs it).
pub open spec fn nameless(b: ApiContentBlock) -> ApiContentBlock {
    match b {
        ApiContentBlock::ToolResult { tool_use_id, content, is_error, cache_control, .. } =>
            ApiContentBlock::ToolResult { tool_use_id, content, is_error, cache_control, name: None },
        _ => b,
    }
}

fn strip_block(b: &mut ApiContentBlock)
    ensures
        *final(b) == nameless(*old(b)),
{
    match b {
        ApiContentBlock::ToolResult { name, .. } => {
            *name = None;
        },
        _ => {},
    }
}

fn strip_message(m: &mut ApiMessage)
    ensures
        final(m).role == old(m).role,
        final(m).content@ == old(m).content@.map_values(|b: ApiContentBlock| nameless(b)),
{
    let n = m.content.len();
    let mut k: usize = 0;
    while k < n
        invariant
            0 <= k <= n,
            n == m.content@.len(),
            m.role == old(m).role,
            m.content@.len() == old(m).content@.len(),
            forall|q: int| 0 <= q < k ==> #[trigger] m.content@[q] == nameless(old(m).content@[q]),
            forall|q: int| k <= q < n ==> #[trigger] m.content@[q] == old(m).content@[q],
        decreases n - k,
    {
        strip_block(&mut m.content[k]);
        k += 1;
    }
    proof {
        assert(m.content@ =~= old(m).content@.map_values(|b: ApiContentBlock| nameless(b)));
    }
}

/// Strip the tool names of tool results, which the Messages API refuses.
pub fn strip_tool_result_names(req: &mut CreateMessageRequest)
    ensures
        final(req).model == old(req).model,
        final(req).max_tokens == old(req).max_tokens,
        final(req).system == old(req).system,
        final(req).tools == old(req).tools,
        final(req).stream == old(req).stream,
        final(req).metadata == old(req).metadata,
        final(req).thinking == old(req).thinking,
        final(req).messages@.len() == old(req).messages@.len(),
        forall|i: int| 0 <= i < old(req).messages@.len() ==> (#[trigger] final(req).messages@[i]).role
            == old(req).messages@[i].role && final(req).messages@[i].content@ == old(req).messages@[i].content@.map_values(
            |b: ApiContentBlock| nameless(b),
        ),
{
    let n = req.messages.len();
    let mut i: usize = 0;
    while i < n
        invariant
            0 <= i <= n,
            n == req.messages@.len(),
            req.model == old(req).model,
            req.max_tokens == old(req).max_tokens,
            req.system == old(req).system,
            req.tools == old(req).tools,
            req.stream == old(req).stream,
            req.metadata == old(req).metadata,
            req.thinking == old(req).thinking,
            req.messages@.len() == old(req).messages@.len(),
            forall|q: int| 0 <= q < i ==> (#[trigger] req.messages@[q]).role == old(req).messages@[q].role
                && req.messages@[q].content@ == old(req).messages@[q].content@.map_values(
                |b: ApiContentBlock| nameless(b),
            ),
            forall|q: int| i <= q < n ==> #[trigger] req.messages@[q] == old(req).messages@[q],
        decreases n - i,
    {
        strip_message(&mut req.messages[i]);
        i += 1;
    }
}

/// The kinds of streamed Messages-API events; unknown kinds are treated as
/// pings.
#[derive(Debug, Clone, Copy, PartialEq, Eq, Structural)]
pub enum EventKind {
    MessageStart,
    ContentBlockStart,
    ContentBlockDelta,
    ContentBlockStop,
    MessageDelta,
    MessageStop,
    Ping,
    Error,
}

/// The kind of an event type name.
pub open spec fn kind_of(t: Seq<char>) -> EventKind {
    if t == "message_start"@ {
        EventKind::MessageStart
    } else if t == "content_block_start"@ {
        EventKind::ContentBlockStart
    } else if t == "content_block_delta"@ {
        EventKind::ContentBlockDelta
    } else if t == "content_block_stop"@ {
        EventKind::ContentBlockStop
    } else if t == "message_delta"@ {
        EventKind::MessageDelta
    } else if t == "message_stop"@ {
        EventKind::MessageStop
    } else if t == "error"@ {
        EventKind::Error
    } else {
        EventKind::Ping
    }
}

/// The kind of an event type name.
pub fn event_kind(event_type: &str) -> (k: EventKind)
    ensures
        k == kind_of(event_type@),
{
    if str_eq(event_type, "message_start") {
        EventKind::MessageStart
    } else if str_eq(event_type, "content_block_start") {
        EventKind::ContentBlockStart
    } else if str_eq(event_type, "content_block_delta") {
        EventKind::ContentBlockDelta
    } else if str_eq(event_type, "content_block_stop") {
        EventKind::ContentBlockStop
    } else if str_eq(event_type, "message_delta") {
        EventKind::MessageDelta
    } else if str_eq(event_type, "message_stop") {
        EventKind::MessageStop
    } else if str_eq(event_type, "error") {
        EventKind::Error
    } else {
        EventKind::Ping
    }
}

/// The field value of a line `<field>:<value>` (trimmed), if the line
/// starts with the field name and a colon.
pub open spec fn field_value(line: Seq<char>, field: Seq<char>) -> Option<Seq<char>> {
    let n = field.len() + 1;
    if line.len() >= n && line.take(n as int) == field + ":"@ {
        Some(trimmed(line.skip(n as int)))
    } else {
        None
    }
}

fn field_of(line: &str, prefix: &str) -> (r: Option<String>)
    ensures
        match r {
            Some(v) => prefix@.len() <= line@.len() && line@.take(prefix@.len() as int) == prefix@
                && v@ == trimmed(line@.skip(prefix@.len() as int)),
            None => !(prefix@.len() <= line@.len() && line@.take(prefix@.len() as int) == prefix@),
        },
{
    let chars = chars_of(line);
    let p = chars_of(prefix);
    if p.len() > chars.len() {
        return None;
    }
    let mut i: usize = 0;
    while i < p.len()
        invariant
            chars@ == line@,
            p@ == prefix@,
            p@.len() <= chars@.len(),
            0 <= i <= p@.len(),
            forall|j: int| 0 <= j < i ==> chars@[j] == p@[j],
        decreases p@.len() - i,
    {
        if chars[i] != p[i] {
            proof {
                assert(line@.take(prefix@.len() as int)[i as int] != prefix@[i as int]);
            }
            return None;
        }
        i = i + 1;
    }
    proof {
        assert(line@.take(prefix@.len() as int) =~= prefix@);
    }
    let rest = string_of_range(&chars, p.len(), chars.len());
    proof {
        assert(rest@ =~= line@.skip(prefix@.len() as int));
    }
    Some(trim(rest.as_str()))
}

/// Reads the `event:` and `data:` lines of a Messages-API event stream.
pub struct SseEventReader {
    event_type: String,
}

impl View for SseEventReader {
    type V = Seq<char>;

    /// The event type of the last `event:` line.
    closed spec fn view(&self) -> Seq<char> {
        self.event_type@
    }
}

impl SseEventReader {
    /// A reader that has seen no `event:` line.
    pub fn new() -> (r: SseEventReader)
        ensures
            r@ == Seq::<char>::empty(),
    {
        SseEventReader { event_type: String::new() }
    }

    /// Take one line: an `event:` line sets the event type; a `data:` line
    /// gives the current event type and its (trimmed) data; other lines are
    /// skipped.
    pub fn on_line(&mut self, line: &str) -> (r: Option<(String, String)>)
        ensures
            match field_value(line@, "event"@) {
                Some(t) => r is None && final(self)@ == t,
                None => final(self)@ == old(self)@ && match field_value(line@, "data"@) {
                    Some(d) => r matches Some((t, data)) && t@ == old(self)@ && data@ == d,
                    None => r is None,
                },
            },
    {
        proof {
            reveal_strlit("event:");
            reveal_strlit("event");
            reveal_strlit("data:");
            reveal_strlit("data");
            reveal_strlit(":");
            assert("event"@ + ":"@ =~= "event:"@);
            assert("data"@ + ":"@ =~= "data:"@);
        }
        match field_of(line, "event:") {
            Some(t) => {
                self.event_type = t;
                None
            },
            None => match field_of(line, "data:") {
                Some(d) => Some((self.event_type.clone(), d)),
                None => None,
            },
        }
    }
}

/// Text of valid UTF-8 bytes (`std::str::from_utf8`): `None` for bytes that
/// are not valid UTF-8.
#[verifier::external_body]
pub(crate) fn utf8_text(b: &[u8]) -> (r: Option<String>)
    ensures
        r is Some <==> valid_utf8(b@),
        r matches Some(s) ==> s@ == decode_utf8(b@),
{
    match std::str::from_utf8(b) {
        Ok(s) => Some(s.to_owned()),
        Err(_) => None,
    }
}

/// The bytes a base64 text encodes, in the standard alphabet with padding.
pub uninterp spec fn base64_decoded(text: Seq<char>) -> Option<Seq<u8>>;

/// Decode base64 (`base64::engine::general_purpose::STANDARD.decode`);
/// `None` when the text is not valid base64.
#[verifier::external_body]
fn base64_decode(text: &str) -> (r: Option<Vec<u8>>)
    ensures
        match r {
            Some(v) => base64_decoded(text@) == Some(v@),
            None => base64_decoded(text@) is None,
        },
{
    base64::engine::general_purpose::STANDARD.decode(text).ok()
}

/// The JSON event a Bedrock chunk carries: its base64 payload decoded as
/// UTF-8 text.
pub open spec fn chunk_event_text(b64: Seq<char>) -> Option<Seq<char>> {
    match base64_decoded(b64) {
        Some(bytes) => if valid_utf8(bytes) {
            Some(decode_utf8(bytes))
        } else {
            None
        },
        None => None,
    }
}

/// Decode the base64 payload of a Bedrock chunk into the JSON text of the
/// event it carries; `None` when it is not base64 of UTF-8 text.
pub fn decode_chunk_payload(b64: &str) -> (r: Option<String>)
    ensures
        match chunk_event_text(b64@) {
            Some(t) => r matches Some(s) && s@ == t,
            None => r is None,
        },
{
    match base64_decode(b64) {
        Some(bytes) => utf8_text(bytes.as_slice()),
        None => None,
    }
}

/// Whether a frame without a JSON payload reports an exception.
pub open spec fn is_exception(event_type: Seq<char>) -> bool {
    event_type == "exception"@ || exists|i: int| 0 <= i && i + 9 <= event_type.len()
        && #[trigger] event_type.subrange(i, i + 9) == "Exception"@
}

/// Whether an event type reports an exception: `exception`, or any type
/// containing `Exception`.
pub fn exception_event(event_type: &str) -> (r: bool)
    ensures
        r == is_exception(event_type@),
{
    proof {
        reveal_strlit("Exception");
    }
    if str_eq(event_type, "exception") {
        return true;
    }
    let chars = chars_of(event_type);
    let pat = chars_of("Exception");
    if chars.len() < 9 {
        proof {
            assert forall|i: int| 0 <= i && i + 9 <= event_type@.len() implies #[trigger] event_type@.subrange(i, i + 9)
                != "Exception"@ by {}
        }
        return false;
    }
    let n = chars.len();
    let mut i: usize = 0;
    while i < n - 8
        invariant
            chars@ == event_type@,
            pat@ == "Exception"@,
            pat@.len() == 9,
            n == chars@.len(),
            9 <= chars@.len(),
            0 <= i <= chars@.len() - 8,
            forall|k: int| 0 <= k < i ==> #[trigger] event_type@.subrange(k, k + 9) != "Exception"@,
        decreases chars@.len() - i,
    {
        let mut j: usize = 0;
        while j < 9 && chars[i + j] == pat[j]
            invariant
                chars@ == event_type@,
                pat@ == "Exception"@,
                pat@.len() == 9,
                n == chars@.len(),
                i + 9 <= chars@.len(),
                0 <= j <= 9,
                forall|q: int| 0 <= q < j ==> chars@[i + q] == pat@[q],
            decreases 9 - j,
        {
            j = j + 1;
        }
        let same = j == 9;
        if !same {
            proof {
                assert(event_type@.subrange(i as int, i + 9)[j as int] != pat@[j as int]);
            }
        }
        if same {
            proof {
                assert(event_type@.subrange(i as int, i + 9) =~= pat@);
            }
            return true;
        }
        i = i + 1;
    }
    false
}

/// A big-endian 32-bit number at position `i`.
pub open spec fn be32(b: Seq<u8>, i: int) -> int {
    b[i] * 16777216 + b[i + 1] * 65536 + b[i + 2] * 256 + b[i + 3]
}

/// A big-endian 16-bit number at position `i`.
pub open spec fn be16(b: Seq<u8>, i: int) -> int {
    b[i] * 256 + b[i + 1]
}

/// The text of UTF-8 bytes; empty when they are not valid UTF-8.
pub open spec fn utf8_or_empty(b: Seq<u8>) -> Seq<char> {
    if valid_utf8(b) {
        decode_utf8(b)
    } else {
        seq![]
    }
}

/// The `:event-type` of event-stream headers, read as a list of
/// `[name length][name][value type]` entries with, for string values
/// (type 7), `[2-byte big-endian length][value]`. Reading stops at the end
/// of the data, at a truncated entry, or at a value of another type; the
/// last `:event-type` read wins, and `acc` stands when there is none.
pub open spec fn header_event_type(data: Seq<u8>, acc: Seq<char>) -> Seq<char>
    decreases data.len(),
{
    if data.len() <= 2 {
        acc
    } else {
        let name_len = data[0] as int;
        let d1 = data.skip(1);
        if d1.len() < name_len + 1 {
            acc
        } else {
            let name = utf8_or_empty(d1.take(name_len));
            let d2 = d1.skip(name_len);
            let d3 = d2.skip(1);
            if d2[0] != 7 || d3.len() < 2 {
                acc
            } else {
                let vl = be16(d3, 0);
                let d4 = d3.skip(2);
                if d4.len() < vl {
                    acc
                } else {
                    header_event_type(
                        d4.skip(vl),
                        if name == ":event-type"@ {
                            utf8_or_empty(d4.take(vl))
                        } else {
                            acc
                        },
                    )
                }
            }
        }
    }
}

fn copy_range(v: &[u8], a: usize, b: usize) -> (r: Vec<u8>)
    requires
        a <= b <= v@.len(),
    ensures
        r@ == v@.subrange(a as int, b as int),
{
    let mut r: Vec<u8> = Vec::new();
    let mut i: usize = a;
    while i < b
        invariant
            a <= i <= b,
            b <= v@.len(),
            r@ == v@.subrange(a as int, i as int),
        decreases b - i,
    {
        r.push(v[i]);
        proof {
            assert(r@ =~= v@.subrange(a as int, i + 1));
        }
        i = i + 1;
    }
    r
}

/// Read the `:event-type` of event-stream frame headers (empty when none).
pub fn parse_event_stream_headers(data: &[u8]) -> (r: String)
    ensures
        r@ == header_event_type(data@, seq![]),
{
    let n = data.len();
    let mut pos: usize = 0;
    let mut event_type = String::new();
    proof {
        assert(data@.skip(0) =~= data@);
    }
    while n - pos > 2
        invariant
            n == data@.len(),
            pos <= n,
            header_event_type(data@.skip(pos as int), event_type@) == header_event_type(data@, seq![]),
        decreases n - pos,
    {
        let ghost d = data@.skip(pos as int);
        let name_len = data[pos] as usize;
        let rest1 = n - pos - 1;
        proof {
            assert(d[0] == data@[pos as int]);
        }
        if rest1 < name_len + 1 {
            proof {
                assert(d.skip(1).len() == rest1);
            }
            return event_type;
        }
        let name_start = pos + 1;
        let name_bytes = copy_range(data, name_start, name_start + name_len);
        let name = match utf8_text(name_bytes.as_slice()) {
            Some(t) => t,
            None => String::new(),
        };
        let vt_pos = name_start + name_len;
        let value_type = data[vt_pos];
        let after = vt_pos + 1;
        proof {
            assert(d.skip(1).take(name_len as int) =~= name_bytes@);
            assert(d.skip(1).skip(name_len as int)[0] == value_type);
            assert(d.skip(1).skip(name_len as int).skip(1) =~= data@.skip(after as int));
        }
        if value_type != 7 || n - after < 2 {
            return event_type;
        }
        let value_len = (data[after] as usize) * 256 + (data[after + 1] as usize);
        let vstart = after + 2;
        proof {
            let d3 = data@.skip(after as int);
            assert(d3[0] == data@[after as int]);
            assert(d3[1] == data@[after + 1]);
            assert(d3.skip(2) =~= data@.skip(vstart as int));
        }
        if n - vstart < value_len {
            return event_type;
        }
        let value_bytes = copy_range(data, vstart, vstart + value_len);
        proof {
            assert(data@.skip(vstart as int).take(value_len as int) =~= value_bytes@);
            assert(data@.skip(vstart as int).skip(value_len as int) =~= data@.skip(vstart + value_len));
            reveal_strlit(":event-type");
        }
        if str_eq(name.as_str(), ":event-type") {
            event_type = match utf8_text(value_bytes.as_slice()) {
                Some(t) => t,
                None => String::new(),
            };
        }
        pos = vstart + value_len;
    }
    event_type
}

/// One frame taken from an event-stream buffer.
#[derive(Debug)]
pub enum FrameResult {
    /// Not a whole frame yet.
    Incomplete,
    /// The lengths of the prelude do not describe a frame (headers that
    /// overrun the payload's end); nothing is consumed.
    Malformed,
    /// A whole frame: its `:event-type` and payload; it is consumed.
    Frame { event_type: String, payload: Vec<u8> },
}

/// Bytes of an AWS event stream, not yet split into frames. A frame is a
/// 12-byte prelude (total length, headers length, prelude checksum), the
/// headers, the payload and a 4-byte checksum; checksums are not checked.
pub struct EventStreamBuffer {
    buf: Vec<u8>,
}

impl View for EventStreamBuffer {
    type V = Seq<u8>;

    closed spec fn view(&self) -> Seq<u8> {
        self.buf@
    }
}

/// There is a whole frame at the start of the bytes.
pub open spec fn frame_complete(b: Seq<u8>) -> bool {
    b.len() >= 12 && b.len() >= be32(b, 0)
}

/// The prelude of a whole frame describes headers that fit before the
/// payload's end.
pub open spec fn frame_well_formed(b: Seq<u8>) -> bool {
    be32(b, 4) + 16 <= be32(b, 0)
}

impl EventStreamBuffer {
    /// An empty buffer.
    pub fn new() -> (b: EventStreamBuffer)
        ensures
            b@ == Seq::<u8>::empty(),
    {
        EventStreamBuffer { buf: Vec::new() }
    }

    /// Append received bytes.
    pub fn push(&mut self, bytes: &[u8])
        ensures
            final(self)@ == old(self)@ + bytes@,
    {
        let mut i: usize = 0;
        let ghost b0 = self@;
        while i < bytes.len()
            invariant
                0 <= i <= bytes@.len(),
                self@ == b0 + bytes@.take(i as int),
            decreases bytes@.len() - i,
        {
            self.buf.push(bytes[i]);
            proof {
                assert(self@ =~= b0 + bytes@.take(i + 1));
            }
            i = i + 1;
        }
        proof {
            assert(bytes@.take(i as int) =~= bytes@);
        }
    }

    /// Take the next frame, if a whole one is there.
    pub fn next_frame(&mut self) -> (r: FrameResult)
        ensures
            !frame_complete(old(self)@) ==> r is Incomplete && final(self)@ == old(self)@,
            frame_complete(old(self)@) && !frame_well_formed(old(self)@) ==> r is Malformed
                && final(self)@ == old(self)@,
            frame_complete(old(self)@) && frame_well_formed(old(self)@) ==> ({
                let b = old(self)@;
                let total = be32(b, 0);
                let hl = be32(b, 4);
                &&& r matches FrameResult::Frame { event_type, payload }
                &&& event_type@ == header_event_type(b.subrange(12, 12 + hl), seq![])
                &&& payload@ == b.subrange(12 + hl, total - 4)
                &&& final(self)@ == b.skip(total)
            }),
    {
        let n = self.buf.len();
        if n < 12 {
            return FrameResult::Incomplete;
        }
        let total64: u64 = (self.buf[0] as u64) * 16777216 + (self.buf[1] as u64) * 65536
            + (self.buf[2] as u64) * 256 + (self.buf[3] as u64);
        if (n as u64) < total64 {
            return FrameResult::Incomplete;
        }
        let hl64: u64 = (self.buf[4] as u64) * 16777216 + (self.buf[5] as u64) * 65536 + (self.buf[6] as u64)
            * 256 + (self.buf[7] as u64);
        if hl64 + 16 > total64 {
            return FrameResult::Malformed;
        }
        let total = total64 as usize;
        let hl = hl64 as usize;
        let headers = copy_range(self.buf.as_slice(), 12, 12 + hl);
        let payload = copy_range(self.buf.as_slice(), 12 + hl, total - 4);
        let event_type = parse_event_stream_headers(headers.as_slice());
        let rest = self.buf.split_off(total);
        self.buf = rest;
        FrameResult::Frame { event_type, payload }
    }
}

} // verus!
