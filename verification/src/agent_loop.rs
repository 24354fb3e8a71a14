//! The decisions of the agent loop: prompt, request, response, tool calls,
//! tool results, compaction. The host runs the loop: it sends the requests,
//! runs the tools and the hooks, and hands each outcome back here.

use vstd::prelude::*;

use crate::api::{
    any_tool_use, is_tool_use, ApiContentBlock, ApiMessage, ApiUsage, CacheControl, CreateMessageRequest,
    ImageSource, MessageResponse, SystemBlock, ThinkingParam, ToolDefinition,
};
use crate::compact::{
    build_summary_prompt, find_split_point, join_text_blocks, should_compact, splice_conversation,
    split_point, summary_text, text_of_blocks,
};
use crate::conversation::{apply_cache_breakpoint, breakpoint_applied};
use crate::executor::ToolResult;
use crate::messages::{PermissionDenial, Usage};
use crate::options::{
    max_tokens_for, request_max_tokens, thinking_param, CustomToolDefinition, ThinkingConfig,
};
use crate::sanitize::{sanitize_tool_result, sanitized, DEFAULT_MAX_TOOL_RESULT_BYTES};
use crate::text::{join_with, joined_with, push_str, str_eq};
use crate::tool_defs::{defined_names, get_tool_definitions, is_definition_of};

verus! {

/// A lowercase hexadecimal digit.
pub open spec fn hex_digit(v: int) -> char {
    if v < 10 {
        (48 + v) as char
    } else {
        (97 + v - 10) as char
    }
}

/// How a character stands inside a JSON string: `"` and `\` behind a
/// backslash; backspace, form feed, newline, carriage return and tab as
/// `\b`, `\f`, `\n`, `\r`, `\t`; the other control characters below
/// U+0020 as `\u00` and two lowercase hex digits; every other character as
/// itself.
pub open spec fn json_escaped_char(c: char) -> Seq<char> {
    let v = c as int;
    if c == '"' {
        seq!['\\', '"']
    } else if c == '\\' {
        seq!['\\', '\\']
    } else if v == 8 {
        seq!['\\', 'b']
    } else if v == 12 {
        seq!['\\', 'f']
    } else if v == 10 {
        seq!['\\', 'n']
    } else if v == 13 {
        seq!['\\', 'r']
    } else if v == 9 {
        seq!['\\', 't']
    } else if v < 32 {
        seq!['\\', 'u', '0', '0', hex_digit(v / 16), hex_digit(v % 16)]
    } else {
        seq![c]
    }
}

/// The characters of a string, each as it stands inside a JSON string.
pub open spec fn json_escaped(s: Seq<char>) -> Seq<char>
    decreases s.len(),
{
    if s.len() == 0 {
        seq![]
    } else {
        json_escaped(s.drop_last()) + json_escaped_char(s.last())
    }
}

/// JSON text of a string value: the escaped characters between quotes.
pub open spec fn json_string_text(s: Seq<char>) -> Seq<char> {
    seq!['"'] + json_escaped(s) + seq!['"']
}

/// The JSON encoding of a string (`serde_json::to_string` on a `&str`).
#[verifier::external_body]
fn json_string(s: &str) -> (r: String)
    ensures
        r@ == json_string_text(s@),
{
    serde_json::to_string(s).unwrap_or_default()
}

/// The tools offered when none are configured.
pub open spec fn default_tool_name_list() -> Seq<Seq<char>> {
    seq!["Read"@, "Write"@, "Edit"@, "Bash"@, "Glob"@, "Grep"@]
}

pub open spec fn names_view(v: Seq<String>) -> Seq<Seq<char>> {
    v.map_values(|s: String| s@)
}

/// The tools offered when none are configured: Read, Write, Edit, Bash,
/// Glob and Grep.
pub fn default_tool_names() -> (v: Vec<String>)
    ensures
        names_view(v@) == default_tool_name_list(),
{
    let mut v: Vec<String> = Vec::new();
    v.push("Read".to_owned());
    v.push("Write".to_owned());
    v.push("Edit".to_owned());
    v.push("Bash".to_owned());
    v.push("Glob".to_owned());
    v.push("Grep".to_owned());
    proof {
        assert(names_view(v@) =~= default_tool_name_list());
    }
    v
}

fn copy_strings(v: &Vec<String>) -> (r: Vec<String>)
    ensures
        r@ == v@,
{
    let mut r: Vec<String> = Vec::new();
    let mut i: usize = 0;
    while i < v.len()
        invariant
            0 <= i <= v@.len(),
            r@ == v@.take(i as int),
        decreases v@.len() - i,
    {
        r.push(v[i].clone());
        proof {
            assert(r@ =~= v@.take(i + 1));
        }
        i = i + 1;
    }
    proof {
        assert(v@.take(i as int) =~= v@);
    }
    r
}

/// The tools of a query: none when a structured output format is set (such
/// queries use no tools), the default set when no tools are configured, the
/// configured ones otherwise.
pub fn select_tool_names(has_output_format: bool, allowed_tools: &Vec<String>) -> (v: Vec<String>)
    ensures
        has_output_format ==> v@.len() == 0,
        !has_output_format && allowed_tools@.len() == 0 ==> names_view(v@) == default_tool_name_list(),
        !has_output_format && allowed_tools@.len() > 0 ==> v@ == allowed_tools@,
{
    if has_output_format {
        Vec::new()
    } else if allowed_tools.len() == 0 {
        default_tool_names()
    } else {
        copy_strings(allowed_tools)
    }
}

/// The definition of a custom tool, without a cache marker.
pub open spec fn is_custom_definition(c: CustomToolDefinition, d: ToolDefinition) -> bool {
    &&& d.name == c.name
    &&& d.description == c.description
    &&& d.input_schema == c.input_schema
}

/// The tool definitions sent with every request: the built-in tools named
/// (those that have a definition, in order), then the custom tools; only the
/// last one carries an (ephemeral) cache marker, so the tools are cached.
pub fn build_tool_definitions(tool_names: &Vec<String>, custom: &Vec<CustomToolDefinition>) -> (r: Vec<
    ToolDefinition,
>)
    ensures
        ({
            let b = defined_names(tool_names@);
            &&& r@.len() == b.len() + custom@.len()
            &&& forall|i: int| 0 <= i < b.len() ==> {
                &&& (#[trigger] r@[i]).name@ == b[i]
                &&& r@[i].description@ == crate::tool_defs::tool_description(b[i])
                &&& r@[i].input_schema@ == crate::tool_defs::tool_schema(b[i])
            }
            &&& forall|j: int| 0 <= j < custom@.len() ==> is_custom_definition(custom@[j], #[trigger] r@[b.len() + j])
            &&& forall|i: int| 0 <= i < r@.len() - 1 ==> (#[trigger] r@[i]).cache_control is None
            &&& r@.len() > 0 ==> (r@.last().cache_control matches Some(cc) && cc.kind@ == "ephemeral"@)
        }),
{
    let mut defs = get_tool_definitions(tool_names);
    let ghost b = defined_names(tool_names@);
    let nb = defs.len();
    let mut j: usize = 0;
    while j < custom.len()
        invariant
            nb == b.len(),
            0 <= j <= custom@.len(),
            defs@.len() == nb + j,
            forall|i: int| 0 <= i < nb ==> is_definition_of(b[i], #[trigger] defs@[i]),
            forall|q: int| 0 <= q < j ==> is_custom_definition(custom@[q], #[trigger] defs@[nb + q]),
            forall|q: int| 0 <= q < defs@.len() ==> (#[trigger] defs@[q]).cache_control is None,
        decreases custom@.len() - j,
    {
        let c = &custom[j];
        defs.push(
            ToolDefinition {
                name: c.name.clone(),
                description: c.description.clone(),
                input_schema: c.input_schema.clone(),
                cache_control: None,
            },
        );
        j = j + 1;
    }
    let n = defs.len();
    if n > 0 {
        let last = defs.pop().unwrap();
        defs.push(
            ToolDefinition {
                name: last.name,
                description: last.description,
                input_schema: last.input_schema,
                cache_control: Some(CacheControl::ephemeral()),
            },
        );
    }
    defs
}

/// An image attached to the prompt, base64-encoded.
#[derive(Debug, Clone)]
pub struct ImageAttachment {
    pub mime_type: String,
    pub base64_data: String,
}

/// The image types that are sent to the model.
pub open spec fn is_image_mime(m: Seq<char>) -> bool {
    m == "image/png"@ || m == "image/jpeg"@ || m == "image/gif"@ || m == "image/webp"@
}

fn image_mime(m: &str) -> (r: bool)
    ensures
        r == is_image_mime(m@),
{
    str_eq(m, "image/png") || str_eq(m, "image/jpeg") || str_eq(m, "image/gif") || str_eq(
        m,
        "image/webp",
    )
}

/// The image block of an attachment.
pub open spec fn is_image_block_of(a: ImageAttachment, b: ApiContentBlock) -> bool {
    b matches ApiContentBlock::Image { source } && source.kind@ == "base64"@ && source.media_type
        == a.mime_type && source.data == a.base64_data
}

/// The attachments of an image type, in order.
pub open spec fn image_attachments(atts: Seq<ImageAttachment>) -> Seq<ImageAttachment> {
    atts.filter(|a: ImageAttachment| is_image_mime(a.mime_type@))
}

/// The user message of a prompt: one image block per attachment of an image
/// type (other attachments are left out), then the prompt text.
pub fn user_prompt_message(prompt: &str, attachments: &Vec<ImageAttachment>) -> (m: ApiMessage)
    ensures
        m.role@ == "user"@,
        m.content@.len() == image_attachments(attachments@).len() + 1,
        forall|i: int|
            0 <= i < image_attachments(attachments@).len() ==> is_image_block_of(
                image_attachments(attachments@)[i],
                #[trigger] m.content@[i],
            ),
        m.content@.last() matches ApiContentBlock::Text { text, cache_control } && text@ == prompt@
            && cache_control is None,
{
    let mut blocks: Vec<ApiContentBlock> = Vec::new();
    let mut i: usize = 0;
    while i < attachments.len()
        invariant
            0 <= i <= attachments@.len(),
            blocks@.len() == image_attachments(attachments@.take(i as int)).len(),
            forall|q: int|
                0 <= q < blocks@.len() ==> is_image_block_of(
                    image_attachments(attachments@.take(i as int))[q],
                    #[trigger] blocks@[q],
                ),
        decreases attachments@.len() - i,
    {
        let a = &attachments[i];
        proof {
            assert(attachments@.take(i + 1) =~= attachments@.take(i as int).push(attachments@[i as int]));
            attachments@.take(i as int).lemma_filter_push(
                attachments@[i as int],
                |a: ImageAttachment| is_image_mime(a.mime_type@),
            );
        }
        if image_mime(a.mime_type.as_str()) {
            blocks.push(
                ApiContentBlock::Image {
                    source: ImageSource {
                        kind: "base64".to_owned(),
                        media_type: a.mime_type.clone(),
                        data: a.base64_data.clone(),
                    },
                },
            );
        }
        i = i + 1;
    }
    proof {
        assert(attachments@.take(i as int) =~= attachments@);
    }
    blocks.push(ApiContentBlock::Text { text: prompt.to_owned(), cache_control: None });
    ApiMessage { role: "user".to_owned(), content: blocks }
}

/// A tool call of the model: id, tool name and JSON text of the input.
#[derive(Debug, Clone)]
pub struct ToolUse {
    pub id: String,
    pub name: String,
    pub input: String,
}

/// The tool calls among the blocks, in order.
pub open spec fn tool_uses_of(bs: Seq<ApiContentBlock>) -> Seq<(Seq<char>, Seq<char>, Seq<char>)>
    decreases bs.len(),
{
    if bs.len() == 0 {
        seq![]
    } else {
        tool_uses_of(bs.drop_last()) + match bs.last() {
            ApiContentBlock::ToolUse { id, name, input } => seq![(id@, name@, input@)],
            _ => seq![],
        }
    }
}

pub open spec fn tool_use_view(u: ToolUse) -> (Seq<char>, Seq<char>, Seq<char>) {
    (u.id@, u.name@, u.input@)
}

/// Collect the tool calls of a list of blocks.
pub fn collect_tool_uses(bs: &Vec<ApiContentBlock>) -> (r: Vec<ToolUse>)
    ensures
        r@.map_values(|u: ToolUse| tool_use_view(u)) == tool_uses_of(bs@),
{
    let mut r: Vec<ToolUse> = Vec::new();
    let mut i: usize = 0;
    while i < bs.len()
        invariant
            0 <= i <= bs@.len(),
            r@.map_values(|u: ToolUse| tool_use_view(u)) == tool_uses_of(bs@.take(i as int)),
        decreases bs@.len() - i,
    {
        let ghost r0 = r@;
        if let ApiContentBlock::ToolUse { id, name, input } = &bs[i] {
            r.push(ToolUse { id: id.clone(), name: name.clone(), input: input.clone() });
        }
        proof {
            assert(bs@.take(i + 1).drop_last() =~= bs@.take(i as int));
            assert(r@.map_values(|u: ToolUse| tool_use_view(u)) =~= tool_uses_of(bs@.take(i + 1)));
        }
        i = i + 1;
    }
    proof {
        assert(bs@.take(i as int) =~= bs@);
    }
    r
}

/// Settings of a query that the loop's decisions depend on.
#[derive(Debug, Clone)]
pub struct LoopSettings {
    pub session_id: String,
    pub model: String,
    pub max_turns: Option<u32>,
    pub max_tokens: Option<u32>,
    pub thinking: Option<ThinkingConfig>,
    /// Stream responses (and forward text deltas) rather than wait for them.
    pub streaming: bool,
    pub max_tool_result_bytes: Option<usize>,
    pub context_budget: Option<u64>,
    pub min_keep_messages: Option<usize>,
}

/// What a response leads to.
#[derive(Debug)]
pub enum TurnOutcome {
    /// No tool calls: the query ends with this text (the response's text
    /// blocks, concatenated).
    Finished { text: String },
    /// The model called these tools.
    ToolCalls { uses: Vec<ToolUse> },
}

/// The state of the agent loop.
pub struct AgentLoop {
    pub settings: LoopSettings,
    pub system: SystemBlock,
    pub tools: Vec<ToolDefinition>,
    pub conversation: Vec<ApiMessage>,
    pub num_turns: u32,
    pub usage: Usage,
    pub denials: Vec<PermissionDenial>,
}

/// The usage after adding a response's usage (missing cache counts add 0).
pub open spec fn usage_added(u: Usage, r: ApiUsage) -> Usage {
    Usage {
        input_tokens: (u.input_tokens + r.input_tokens) as u64,
        output_tokens: (u.output_tokens + r.output_tokens) as u64,
        cache_creation_input_tokens: (u.cache_creation_input_tokens + match r.cache_creation_input_tokens {
            Some(n) => n,
            None => 0,
        }) as u64,
        cache_read_input_tokens: (u.cache_read_input_tokens + match r.cache_read_input_tokens {
            Some(n) => n,
            None => 0,
        }) as u64,
    }
}

/// The usage can absorb another response's usage without overflow.
pub open spec fn usage_fits(u: Usage, r: ApiUsage) -> bool {
    &&& u.input_tokens + r.input_tokens <= u64::MAX
    &&& u.output_tokens + r.output_tokens <= u64::MAX
    &&& u.cache_creation_input_tokens + match r.cache_creation_input_tokens {
        Some(n) => n,
        None => 0,
    } <= u64::MAX
    &&& u.cache_read_input_tokens + match r.cache_read_input_tokens {
        Some(n) => n,
        None => 0,
    } <= u64::MAX
}

/// The text of the error answered to a call of an unknown tool.
pub open spec fn unknown_tool_message(name: Seq<char>, tools: Seq<ToolDefinition>) -> Seq<char> {
    "Error: '"@ + name + "' is not a valid tool. You MUST use one of the following tools: "@
        + joined_names(tools)
}

/// The tool names, separated by `, `.
pub open spec fn joined_names(tools: Seq<ToolDefinition>) -> Seq<char>
    decreases tools.len(),
{
    if tools.len() == 0 {
        seq![]
    } else if tools.len() == 1 {
        tools[0].name@
    } else {
        joined_names(tools.drop_last()) + ", "@ + tools.last().name@
    }
}

/// The tool-result block answered for a tool call, with the JSON text of
/// `text` as its content.
pub open spec fn error_result_for(b: ApiContentBlock, id: Seq<char>, name: Seq<char>, text: Seq<char>) -> bool {
    b matches ApiContentBlock::ToolResult { tool_use_id, content, is_error, cache_control, name: n }
        && tool_use_id@ == id && content@ == json_string_text(text) && is_error == Some(true)
        && cache_control is None && (n matches Some(nn) && nn@ == name)
}

/// A tool of the given name is among the definitions.
pub open spec fn is_known_tool(tools: Seq<ToolDefinition>, name: Seq<char>) -> bool {
    exists|i: int| 0 <= i < tools.len() && (#[trigger] tools[i]).name@ == name
}

/// Byte limit of tool results.
pub open spec fn result_limit(s: LoopSettings) -> int {
    match s.max_tool_result_bytes {
        Some(m) => m as int,
        None => DEFAULT_MAX_TOOL_RESULT_BYTES as int,
    }
}

/// The minimum number of recent messages kept by compaction.
pub open spec fn keep_count(s: LoopSettings) -> nat {
    match s.min_keep_messages {
        Some(m) => m as nat,
        None => 4,
    }
}

fn join_names(tools: &Vec<ToolDefinition>) -> (r: String)
    ensures
        r@ == joined_names(tools@),
{
    let mut r = String::new();
    let mut i: usize = 0;
    while i < tools.len()
        invariant
            0 <= i <= tools@.len(),
            r@ == joined_names(tools@.take(i as int)),
        decreases tools@.len() - i,
    {
        if i > 0 {
            push_str(&mut r, ", ");
        }
        push_str(&mut r, tools[i].name.as_str());
        proof {
            assert(tools@.take(i + 1).drop_last() =~= tools@.take(i as int));
            assert(r@ =~= joined_names(tools@.take(i + 1)));
        }
        i = i + 1;
    }
    proof {
        assert(tools@.take(i as int) =~= tools@);
    }
    r
}

fn error_result(id: &str, name: &str, text: &str) -> (b: ApiContentBlock)
    ensures
        error_result_for(b, id@, name@, text@),
{
    ApiContentBlock::ToolResult {
        tool_use_id: id.to_owned(),
        content: json_string(text),
        is_error: Some(true),
        cache_control: None,
        name: Some(name.to_owned()),
    }
}

impl AgentLoop {
    /// A loop before its first request.
    pub fn new(
        settings: LoopSettings,
        system: SystemBlock,
        tools: Vec<ToolDefinition>,
        conversation: Vec<ApiMessage>,
    ) -> (l: AgentLoop)
        ensures
            l.settings == settings,
            l.system == system,
            l.tools == tools,
            l.conversation == conversation,
            l.num_turns == 0,
            l.usage == (Usage {
                input_tokens: 0,
                output_tokens: 0,
                cache_creation_input_tokens: 0,
                cache_read_input_tokens: 0,
            }),
            l.denials@.len() == 0,
    {
        AgentLoop {
            settings,
            system,
            tools,
            conversation,
            num_turns: 0,
            usage: Usage {
                input_tokens: 0,
                output_tokens: 0,
                cache_creation_input_tokens: 0,
                cache_read_input_tokens: 0,
            },
            denials: Vec::new(),
        }
    }

    /// The turn limit is reached: the query ends with a max-turns result.
    pub fn turn_limit_reached(&self) -> (r: bool)
        ensures
            r == (self.settings.max_turns matches Some(m) && self.num_turns >= m),
    {
        match self.settings.max_turns {
            Some(m) => self.num_turns >= m,
            None => false,
        }
    }

    /// Inject follow-up messages that arrived meanwhile: they are joined
    /// with blank lines into one user message. Returns the joined text, to
    /// be shown to consumers.
    pub fn inject_followups(&mut self, followups: &Vec<String>) -> (r: Option<String>)
        ensures
            final(self).settings == old(self).settings,
            final(self).system == old(self).system,
            final(self).tools == old(self).tools,
            final(self).num_turns == old(self).num_turns,
            final(self).usage == old(self).usage,
            final(self).denials == old(self).denials,
            followups@.len() == 0 ==> r is None && final(self).conversation == old(self).conversation,
            followups@.len() > 0 ==> (r matches Some(t) && t@ == joined_with(names_view(followups@), "\n\n"@) && final(self).conversation@.len() == old(self).conversation@.len() + 1
                && final(self).conversation@.drop_last() == old(self).conversation@
                && final(self).conversation@.last().role@ == "user"@
                && final(self).conversation@.last().content@.len() == 1
                && (final(self).conversation@.last().content@[0] matches ApiContentBlock::Text {
                text,
                cache_control,
            } && text@ == t@ && cache_control is None)),
    {
        if followups.len() == 0 {
            return None;
        }
        let combined = join_with(followups, "\n\n");
        let mut content: Vec<ApiContentBlock> = Vec::new();
        content.push(ApiContentBlock::Text { text: combined.clone(), cache_control: None });
        self.conversation.push(ApiMessage { role: "user".to_owned(), content });
        Some(combined)
    }

    /// The next request: the conversation (with a single cache breakpoint on
    /// the last user message), the system block, the tools (none when
    /// empty), and the max tokens and thinking parameters of the settings.
    pub fn next_request(&mut self) -> (req: CreateMessageRequest)
        requires
            match old(self).settings.thinking {
                Some(ThinkingConfig::Enabled { budget_tokens }) => (budget_tokens % 0x1_0000_0000)
                    + 8192 <= u32::MAX,
                _ => true,
            },
        ensures
            final(self).settings == old(self).settings,
            final(self).system == old(self).system,
            final(self).tools == old(self).tools,
            final(self).num_turns == old(self).num_turns,
            final(self).usage == old(self).usage,
            final(self).denials == old(self).denials,
            breakpoint_applied(old(self).conversation@, final(self).conversation@),
            same_messages(req.messages@, final(self).conversation@),
            req.model == old(self).settings.model,
            req.system matches Some(v) && v@ == seq![old(self).system],
            old(self).tools@.len() == 0 ==> req.tools is None,
            old(self).tools@.len() > 0 ==> (req.tools matches Some(t) && t@ == old(self).tools@),
            req.stream == old(self).settings.streaming,
            req.metadata is None,
            req.max_tokens == request_max_tokens(
                old(self).settings.max_tokens,
                match old(self).settings.thinking {
                    Some(ThinkingConfig::Adaptive) => Some(crate::options::ADAPTIVE_THINKING_BUDGET),
                    Some(ThinkingConfig::Enabled { budget_tokens }) => Some(budget_tokens),
                    _ => None,
                },
            ),
            match old(self).settings.thinking {
                None => req.thinking is None,
                Some(ThinkingConfig::Adaptive) => req.thinking matches Some(p) && p.kind@ == "enabled"@
                    && p.budget_tokens == Some(crate::options::ADAPTIVE_THINKING_BUDGET),
                Some(ThinkingConfig::Disabled) => req.thinking matches Some(p) && p.kind@
                    == "disabled"@ && p.budget_tokens is None,
                Some(ThinkingConfig::Enabled { budget_tokens }) => req.thinking matches Some(p)
                    && p.kind@ == "enabled"@ && p.budget_tokens == Some(budget_tokens),
            },
            match old(self).settings.thinking {
                Some(ThinkingConfig::Enabled { budget_tokens }) => req.max_tokens >= (budget_tokens % 0x1_0000_0000)
                    + 8192,
                Some(ThinkingConfig::Adaptive) => req.max_tokens >= crate::options::ADAPTIVE_THINKING_BUDGET + 8192,
                _ => true,
            },
    {
        apply_cache_breakpoint(&mut self.conversation);
        let thinking: Option<ThinkingParam> = match &self.settings.thinking {
            Some(tc) => Some(thinking_param(tc)),
            None => None,
        };
        let max_tokens = max_tokens_for(self.settings.max_tokens, &thinking);
        let mut system: Vec<SystemBlock> = Vec::new();
        system.push(copy_system_block(&self.system));
        let tools = if self.tools.len() == 0 {
            None
        } else {
            Some(copy_tool_definitions(&self.tools))
        };
        CreateMessageRequest {
            model: self.settings.model.clone(),
            max_tokens,
            messages: copy_messages(&self.conversation),
            system: Some(system),
            tools,
            stream: self.settings.streaming,
            metadata: None,
            thinking,
        }
    }

    /// Take in a response: its usage is added, it joins the conversation as
    /// an assistant message, and its tool calls (if any) open a new turn.
    pub fn record_response(&mut self, response: MessageResponse) -> (out: TurnOutcome)
        requires
            usage_fits(old(self).usage, response.usage),
            old(self).num_turns < u32::MAX,
        ensures
            final(self).settings == old(self).settings,
            final(self).system == old(self).system,
            final(self).tools == old(self).tools,
            final(self).denials == old(self).denials,
            final(self).usage == usage_added(old(self).usage, response.usage),
            final(self).conversation@ == old(self).conversation@.push(
                ApiMessage { role: final(self).conversation@.last().role, content: response.content },
            ),
            final(self).conversation@.last().role@ == "assistant"@,
            !any_tool_use(response.content@) ==> (out matches TurnOutcome::Finished { text } && text@
                == text_of_blocks(response.content@)) && final(self).num_turns == old(self).num_turns,
            any_tool_use(response.content@) ==> (out matches TurnOutcome::ToolCalls { uses } && uses@.map_values(
                |u: ToolUse| tool_use_view(u),
            ) == tool_uses_of(response.content@)) && final(self).num_turns == old(self).num_turns + 1,
    {
        let u = response.usage;
        self.usage = Usage {
            input_tokens: self.usage.input_tokens + u.input_tokens,
            output_tokens: self.usage.output_tokens + u.output_tokens,
            cache_creation_input_tokens: self.usage.cache_creation_input_tokens + match u.cache_creation_input_tokens {
                Some(n) => n,
                None => 0,
            },
            cache_read_input_tokens: self.usage.cache_read_input_tokens + match u.cache_read_input_tokens {
                Some(n) => n,
                None => 0,
            },
        };
        let uses = collect_tool_uses(&response.content);
        let text = join_text_blocks(response.content.as_slice());
        let is_calls = crate::api::has_tool_uses(response.content.as_slice());
        self.conversation.push(ApiMessage { role: "assistant".to_owned(), content: response.content });
        if !is_calls {
            TurnOutcome::Finished { text }
        } else {
            self.num_turns = self.num_turns + 1;
            TurnOutcome::ToolCalls { uses }
        }
    }

    /// Screen a tool call: a call of a tool that was not offered gets an
    /// error result naming the tools that were; `None` for known tools.
    pub fn screen_tool_use(&self, tool_use: &ToolUse) -> (r: Option<ApiContentBlock>)
        ensures
            is_known_tool(self.tools@, tool_use.name@) ==> r is None,
            !is_known_tool(self.tools@, tool_use.name@) ==> (r matches Some(b) && error_result_for(
                b,
                tool_use.id@,
                tool_use.name@,
                unknown_tool_message(tool_use.name@, self.tools@),
            )),
    {
        let mut i: usize = 0;
        while i < self.tools.len()
            invariant
                0 <= i <= self.tools@.len(),
                forall|j: int| 0 <= j < i ==> (#[trigger] self.tools@[j]).name@ != tool_use.name@,
            decreases self.tools@.len() - i,
        {
            if str_eq(self.tools[i].name.as_str(), tool_use.name.as_str()) {
                return None;
            }
            i = i + 1;
        }
        let mut msg = String::new();
        push_str(&mut msg, "Error: '");
        push_str(&mut msg, tool_use.name.as_str());
        push_str(&mut msg, "' is not a valid tool. You MUST use one of the following tools: ");
        let names = join_names(&self.tools);
        push_str(&mut msg, names.as_str());
        Some(error_result(tool_use.id.as_str(), tool_use.name.as_str(), msg.as_str()))
    }

    /// Record a denied tool call and give its error result:
    /// `Permission denied: <reason>`.
    pub fn deny_tool(&mut self, tool_use: &ToolUse, reason: &str) -> (b: ApiContentBlock)
        ensures
            final(self).settings == old(self).settings,
            final(self).system == old(self).system,
            final(self).tools == old(self).tools,
            final(self).conversation == old(self).conversation,
            final(self).num_turns == old(self).num_turns,
            final(self).usage == old(self).usage,
            final(self).denials@.len() == old(self).denials@.len() + 1,
            final(self).denials@.drop_last() == old(self).denials@,
            final(self).denials@.last().tool_name == tool_use.name,
            final(self).denials@.last().tool_use_id == tool_use.id,
            final(self).denials@.last().tool_input == tool_use.input,
            error_result_for(b, tool_use.id@, tool_use.name@, "Permission denied: "@ + reason@),
    {
        self.denials.push(
            PermissionDenial {
                tool_name: tool_use.name.clone(),
                tool_use_id: tool_use.id.clone(),
                tool_input: tool_use.input.clone(),
            },
        );
        let mut msg = String::new();
        push_str(&mut msg, "Permission denied: ");
        push_str(&mut msg, reason);
        error_result(tool_use.id.as_str(), tool_use.name.as_str(), msg.as_str())
    }

    /// The tool-result block of an executed tool, and the sanitized text
    /// (for the PostToolUse hooks): the content is the raw JSON content when
    /// the tool gave one, else the JSON text of the sanitized output.
    pub fn tool_result_block(&self, tool_use_id: &str, tool_name: &str, result: ToolResult) -> (r: (
        ApiContentBlock,
        String,
    ))
        ensures
            r.1@ == sanitized(result.content@, result_limit(self.settings)),
            r.0 matches ApiContentBlock::ToolResult { tool_use_id: id, content, is_error, cache_control, name }
                && id@ == tool_use_id@ && cache_control is None && (name matches Some(n) && n@
                == tool_name@) && is_error == (if result.is_error {
                Some(true)
            } else {
                None
            }) && content@ == match result.raw_content {
                Some(raw) => raw@,
                None => json_string_text(r.1@),
            },
    {
        let limit = match self.settings.max_tool_result_bytes {
            Some(m) => m,
            None => DEFAULT_MAX_TOOL_RESULT_BYTES,
        };
        let clean = sanitize_tool_result(result.content.as_str(), limit);
        let content = match result.raw_content {
            Some(raw) => raw,
            None => json_string(clean.as_str()),
        };
        let block = ApiContentBlock::ToolResult {
            tool_use_id: tool_use_id.to_owned(),
            content,
            is_error: if result.is_error {
                Some(true)
            } else {
                None
            },
            cache_control: None,
            name: Some(tool_name.to_owned()),
        };
        (block, clean)
    }

    /// Close a round of tool calls: the round's results, one for each tool
    /// use of the round, go back to the model in one user message.
    pub fn finish_tool_round(&mut self, round: ToolRound)
        requires
            round.wf(),
            round_complete(round@),
        ensures
            final(self).settings == old(self).settings,
            final(self).system == old(self).system,
            final(self).tools == old(self).tools,
            final(self).num_turns == old(self).num_turns,
            final(self).usage == old(self).usage,
            final(self).denials == old(self).denials,
            final(self).conversation@ == old(self).conversation@.push(
                ApiMessage { role: final(self).conversation@.last().role, content: final(self).conversation@.last().content },
            ),
            final(self).conversation@.last().role@ == "user"@,
            final(self).conversation@.last().content@ == round@.results,
            answers_each_once(round@.uses, round@.order, round@.results),
    {
        proof {
            round.lemma_complete_answers_each_once();
        }
        let results = round.into_results();
        self.conversation.push(ApiMessage { role: "user".to_owned(), content: results });
    }

    /// Where to compact after a response with `input_tokens` input tokens:
    /// when a context budget is set and exceeded, the split point of the
    /// conversation, if it is not 0.
    pub fn compaction_point(&self, input_tokens: u64) -> (r: Option<usize>)
        ensures
            match self.settings.context_budget {
                Some(b) => if input_tokens > b && split_point(self.conversation@, keep_count(self.settings))
                    > 0 {
                    r == Some(split_point(self.conversation@, keep_count(self.settings)) as usize)
                } else {
                    r is None
                },
                None => r is None,
            },
    {
        match self.settings.context_budget {
            Some(b) => {
                if should_compact(input_tokens, b) {
                    let keep = match self.settings.min_keep_messages {
                        Some(m) => m,
                        None => 4,
                    };
                    let split = find_split_point(self.conversation.as_slice(), keep);
                    if split > 0 {
                        Some(split)
                    } else {
                        None
                    }
                } else {
                    None
                }
            },
            None => None,
        }
    }

    /// The prompt asking for a summary of the messages before `split`.
    pub fn summary_prompt(&self, split: usize) -> (p: String)
        requires
            split <= self.conversation@.len(),
        ensures
            p@ == crate::compact::summary_prompt(self.conversation@.take(split as int)),
    {
        let (head, _tail) = self.conversation.as_slice().split_at(split);
        proof {
            assert(head@ =~= self.conversation@.take(split as int));
        }
        build_summary_prompt(head)
    }

    /// Replace the messages before `split` by the summary.
    pub fn apply_compaction(&mut self, split: usize, summary: &str)
        requires
            0 < split <= old(self).conversation@.len(),
        ensures
            final(self).settings == old(self).settings,
            final(self).system == old(self).system,
            final(self).tools == old(self).tools,
            final(self).num_turns == old(self).num_turns,
            final(self).usage == old(self).usage,
            final(self).denials == old(self).denials,
            final(self).conversation@.len() == old(self).conversation@.len() - split + 1,
            final(self).conversation@.skip(1) == old(self).conversation@.skip(split as int),
            final(self).conversation@[0].role@ == "user"@,
            final(self).conversation@[0].content@.len() == 1,
            final(self).conversation@[0].content@[0] matches ApiContentBlock::Text { text, cache_control }
                && text@ == summary_text(summary@) && cache_control is None,
    {
        splice_conversation(&mut self.conversation, split, summary);
    }
}

fn copy_cache(c: &Option<CacheControl>) -> (r: Option<CacheControl>)
    ensures
        r == *c,
{
    match c {
        Some(cc) => Some(CacheControl { kind: cc.kind.clone() }),
        None => None,
    }
}

fn copy_opt_string(s: &Option<String>) -> (r: Option<String>)
    ensures
        r == *s,
{
    match s {
        Some(t) => Some(t.clone()),
        None => None,
    }
}

fn copy_block(b: &ApiContentBlock) -> (r: ApiContentBlock)
    ensures
        r == *b,
{
    match b {
        ApiContentBlock::Text { text, cache_control } => ApiContentBlock::Text {
            text: text.clone(),
            cache_control: copy_cache(cache_control),
        },
        ApiContentBlock::Image { source } => ApiContentBlock::Image {
            source: ImageSource {
                kind: source.kind.clone(),
                media_type: source.media_type.clone(),
                data: source.data.clone(),
            },
        },
        ApiContentBlock::ToolUse { id, name, input } => ApiContentBlock::ToolUse {
            id: id.clone(),
            name: name.clone(),
            input: input.clone(),
        },
        ApiContentBlock::ToolResult { tool_use_id, content, is_error, cache_control, name } =>
            ApiContentBlock::ToolResult {
            tool_use_id: tool_use_id.clone(),
            content: content.clone(),
            is_error: *is_error,
            cache_control: copy_cache(cache_control),
            name: copy_opt_string(name),
        },
        ApiContentBlock::Thinking { thinking } => ApiContentBlock::Thinking {
            thinking: thinking.clone(),
        },
    }
}

/// Two messages with the same role and the same blocks.
pub open spec fn same_message(a: ApiMessage, b: ApiMessage) -> bool {
    a.role == b.role && a.content@ == b.content@
}

/// Two conversations with the same messages.
pub open spec fn same_messages(a: Seq<ApiMessage>, b: Seq<ApiMessage>) -> bool {
    a.len() == b.len() && forall|i: int| 0 <= i < a.len() ==> same_message(#[trigger] a[i], b[i])
}

/// A copy of a message.
pub fn copy_message(m: &ApiMessage) -> (r: ApiMessage)
    ensures
        same_message(r, *m),
{
    let mut content: Vec<ApiContentBlock> = Vec::new();
    let mut i: usize = 0;
    while i < m.content.len()
        invariant
            0 <= i <= m.content@.len(),
            content@ == m.content@.take(i as int),
        decreases m.content@.len() - i,
    {
        content.push(copy_block(&m.content[i]));
        proof {
            assert(content@ =~= m.content@.take(i + 1));
        }
        i = i + 1;
    }
    proof {
        assert(content@ =~= m.content@);
    }
    ApiMessage { role: m.role.clone(), content }
}

/// A copy of a conversation.
pub fn copy_messages(v: &Vec<ApiMessage>) -> (r: Vec<ApiMessage>)
    ensures
        same_messages(r@, v@),
{
    let mut r: Vec<ApiMessage> = Vec::new();
    let mut i: usize = 0;
    while i < v.len()
        invariant
            0 <= i <= v@.len(),
            r@.len() == i,
            forall|j: int| 0 <= j < i ==> same_message(#[trigger] r@[j], v@[j]),
        decreases v@.len() - i,
    {
        r.push(copy_message(&v[i]));
        i = i + 1;
    }
    r
}

fn copy_system_block(b: &SystemBlock) -> (r: SystemBlock)
    ensures
        r == *b,
{
    SystemBlock { kind: b.kind.clone(), text: b.text.clone(), cache_control: copy_cache(&b.cache_control) }
}

fn copy_tool_definitions(v: &Vec<ToolDefinition>) -> (r: Vec<ToolDefinition>)
    ensures
        r@ == v@,
{
    let mut r: Vec<ToolDefinition> = Vec::new();
    let mut i: usize = 0;
    while i < v.len()
        invariant
            0 <= i <= v@.len(),
            r@ == v@.take(i as int),
        decreases v@.len() - i,
    {
        let d = &v[i];
        r.push(
            ToolDefinition {
                name: d.name.clone(),
                description: d.description.clone(),
                input_schema: d.input_schema.clone(),
                cache_control: copy_cache(&d.cache_control),
            },
        );
        proof {
            assert(r@ =~= v@.take(i + 1));
        }
        i = i + 1;
    }
    proof {
        assert(r@ =~= v@);
    }
    r
}

/// A query makes no more tool rounds than `max_turns`: a request is made
/// only while the limit is not reached, and recording its response (as
/// `record_response` states) adds at most one turn, so the count of turns
/// never passes the limit.
pub proof fn lemma_turns_stay_within_limit(before: AgentLoop, after: AgentLoop, response: MessageResponse)
    requires
        before.settings.max_turns is Some,
        before.num_turns < before.settings.max_turns.unwrap(),
        after.settings == before.settings,
        !any_tool_use(response.content@) ==> after.num_turns == before.num_turns,
        any_tool_use(response.content@) ==> after.num_turns == before.num_turns + 1,
    ensures
        after.num_turns <= after.settings.max_turns.unwrap(),
{
}

/// The tool use a block answers, if it is a tool result.
pub open spec fn result_id(b: ApiContentBlock) -> Option<Seq<char>> {
    match b {
        ApiContentBlock::ToolResult { tool_use_id, .. } => Some(tool_use_id@),
        _ => None,
    }
}

/// How many flags are set.
pub open spec fn count_true(s: Seq<bool>) -> nat
    decreases s.len(),
{
    if s.len() == 0 {
        0
    } else {
        count_true(s.drop_last()) + if s.last() {
            1nat
        } else {
            0nat
        }
    }
}

proof fn lemma_count_set(s: Seq<bool>, i: int)
    requires
        0 <= i < s.len(),
        !s[i],
    ensures
        count_true(s.update(i, true)) == count_true(s) + 1,
    decreases s.len(),
{
    let u = s.update(i, true);
    if i == s.len() - 1 {
        assert(u.drop_last() =~= s.drop_last());
    } else {
        assert(u.drop_last() =~= s.drop_last().update(i, true));
        lemma_count_set(s.drop_last(), i);
    }
}

proof fn lemma_count_all(s: Seq<bool>)
    requires
        forall|i: int| 0 <= i < s.len() ==> s[i],
    ensures
        count_true(s) == s.len(),
    decreases s.len(),
{
    if s.len() > 0 {
        lemma_count_all(s.drop_last());
    }
}

/// The results answer the tool uses one for one: result `k` answers use
/// `order[k]`, no use is answered twice, and every use is answered.
pub open spec fn answers_each_once(uses: Seq<ToolUse>, order: Seq<usize>, results: Seq<ApiContentBlock>) -> bool {
    &&& results.len() == uses.len()
    &&& order.len() == uses.len()
    &&& forall|k: int|
        0 <= k < order.len() ==> (#[trigger] order[k]) < uses.len() && result_id(results[k]) == Some(
            uses[order[k] as int].id@,
        )
    &&& forall|k: int, j: int| 0 <= k < j < order.len() ==> #[trigger] order[k] != #[trigger] order[j]
    &&& forall|i: int| 0 <= i < uses.len() ==> #[trigger] answered_by(order, i)
}

/// Some result answers use `i`.
pub open spec fn answered_by(order: Seq<usize>, i: int) -> bool {
    exists|k: int| 0 <= k < order.len() && #[trigger] order[k] == i
}

/// The results of a round of tool calls, as they come in.
pub struct ToolRound {
    uses: Vec<ToolUse>,
    answered: Vec<bool>,
    order: Vec<usize>,
    results: Vec<ApiContentBlock>,
}

/// The model of a round: its tool uses, which are answered, which use
/// each result answers, and the results in the order they came.
pub struct RoundView {
    pub uses: Seq<ToolUse>,
    pub answered: Seq<bool>,
    pub order: Seq<usize>,
    pub results: Seq<ApiContentBlock>,
}

impl View for ToolRound {
    type V = RoundView;

    closed spec fn view(&self) -> RoundView {
        RoundView {
            uses: self.uses@,
            answered: self.answered@,
            order: self.order@,
            results: self.results@,
        }
    }
}

/// Every tool use of the round is answered.
pub open spec fn round_complete(v: RoundView) -> bool {
    forall|i: int| 0 <= i < v.answered.len() ==> #[trigger] v.answered[i]
}

impl ToolRound {
    /// Each result answers an answered use, no use twice, and every
    /// answered use has its result.
    pub closed spec fn wf(&self) -> bool {
        let v = self@;
        &&& v.answered.len() == v.uses.len()
        &&& v.order.len() == v.results.len()
        &&& v.order.len() == count_true(v.answered)
        &&& forall|k: int|
            0 <= k < v.order.len() ==> (#[trigger] v.order[k]) < v.uses.len() && v.answered[v.order[k] as int]
                && result_id(v.results[k]) == Some(v.uses[v.order[k] as int].id@)
        &&& forall|k: int, j: int| 0 <= k < j < v.order.len() ==> #[trigger] v.order[k] != #[trigger] v.order[j]
        &&& forall|i: int|
            0 <= i < v.uses.len() && #[trigger] v.answered[i] ==> exists|k: int|
                0 <= k < v.order.len() && #[trigger] v.order[k] == i
    }

    /// A round with nothing answered yet.
    pub fn new(uses: Vec<ToolUse>) -> (r: ToolRound)
        ensures
            r.wf(),
            r@.uses == uses@,
            r@.answered.len() == uses@.len(),
            forall|i: int| 0 <= i < uses@.len() ==> !#[trigger] r@.answered[i],
            r@.results.len() == 0,
    {
        let mut answered: Vec<bool> = Vec::new();
        let mut i: usize = 0;
        while i < uses.len()
            invariant
                0 <= i <= uses@.len(),
                answered@.len() == i,
                forall|j: int| 0 <= j < i ==> !#[trigger] answered@[j],
            decreases uses@.len() - i,
        {
            answered.push(false);
            i += 1;
        }
        let r = ToolRound { uses, answered, order: Vec::new(), results: Vec::new() };
        proof {
            assert forall|k: int| 0 <= k <= r@.answered.len() implies count_true(#[trigger] r@.answered.take(k)) == 0 by {
                lemma_count_none(r@.answered.take(k));
            }
            assert(r@.answered.take(r@.answered.len() as int) =~= r@.answered);
        }
        r
    }

    /// The tool uses of the round.
    pub fn uses(&self) -> (r: &Vec<ToolUse>)
        ensures
            r@ == self@.uses,
    {
        &self.uses
    }

    /// Whether `block` can be recorded as the answer to use `i`: the use is
    /// there and not answered yet, and the block is a tool result for it.
    pub fn accepts(&self, i: usize, block: &ApiContentBlock) -> (r: bool)
        requires
            self.wf(),
        ensures
            r == (i < self@.uses.len() && !self@.answered[i as int] && result_id(*block) == Some(
                self@.uses[i as int].id@,
            )),
    {
        if i >= self.uses.len() || self.answered[i] {
            return false;
        }
        match block {
            ApiContentBlock::ToolResult { tool_use_id, .. } => str_eq(tool_use_id.as_str(), self.uses[i].id.as_str()),
            _ => false,
        }
    }

    /// Record the answer to use `i`.
    pub fn answer(&mut self, i: usize, block: ApiContentBlock)
        requires
            old(self).wf(),
            i < old(self)@.uses.len(),
            !old(self)@.answered[i as int],
            result_id(block) == Some(old(self)@.uses[i as int].id@),
        ensures
            final(self).wf(),
            final(self)@.uses == old(self)@.uses,
            final(self)@.answered == old(self)@.answered.update(i as int, true),
            final(self)@.order == old(self)@.order.push(i),
            final(self)@.results == old(self)@.results.push(block),
    {
        let ghost v = self@;
        self.answered.set(i, true);
        self.order.push(i);
        self.results.push(block);
        proof {
            lemma_count_set(v.answered, i as int);
            let w = self@;
            assert(w.answered == v.answered.update(i as int, true));
            assert forall|k: int| 0 <= k < w.order.len() implies (#[trigger] w.order[k]) < w.uses.len()
                && w.answered[w.order[k] as int] && result_id(w.results[k]) == Some(
                w.uses[w.order[k] as int].id@,
            ) by {
                if k < v.order.len() {
                    assert(w.order[k] == v.order[k]);
                    assert(w.results[k] == v.results[k]);
                    assert(v.answered[v.order[k] as int]);
                }
            }
            assert forall|k: int, j: int| 0 <= k < j < w.order.len() implies #[trigger] w.order[k]
                != #[trigger] w.order[j] by {
                if j < v.order.len() {
                    assert(w.order[k] == v.order[k] && w.order[j] == v.order[j]);
                } else {
                    assert(w.order[j] == i);
                    assert(w.order[k] == v.order[k]);
                    assert(v.answered[v.order[k] as int]);
                }
            }
            assert forall|x: int| 0 <= x < w.uses.len() && #[trigger] w.answered[x] implies exists|k: int|
                0 <= k < w.order.len() && #[trigger] w.order[k] == x by {
                if x == i {
                    assert(w.order[v.order.len() as int] == x);
                } else {
                    assert(v.answered[x]);
                    let k = choose|k: int| 0 <= k < v.order.len() && #[trigger] v.order[k] == x;
                    assert(w.order[k] == x);
                }
            }
        }
    }

    /// Whether every tool use of the round is answered.
    pub fn is_complete(&self) -> (r: bool)
        requires
            self.wf(),
        ensures
            r == round_complete(self@),
    {
        let mut i: usize = 0;
        while i < self.answered.len()
            invariant
                0 <= i <= self@.answered.len(),
                forall|j: int| 0 <= j < i ==> #[trigger] self@.answered[j],
            decreases self@.answered.len() - i,
        {
            if !self.answered[i] {
                return false;
            }
            i += 1;
        }
        true
    }

    /// A complete round answers each of its tool uses exactly once.
    proof fn lemma_complete_answers_each_once(&self)
        requires
            self.wf(),
            round_complete(self@),
        ensures
            answers_each_once(self@.uses, self@.order, self@.results),
    {
        let v = self@;
        lemma_count_all(v.answered);
        assert forall|i: int| 0 <= i < v.uses.len() implies #[trigger] answered_by(v.order, i) by {
            assert(v.answered[i]);
        }
    }

    fn into_results(self) -> (r: Vec<ApiContentBlock>)
        ensures
            r@ == self@.results,
    {
        self.results
    }
}

proof fn lemma_count_none(s: Seq<bool>)
    requires
        forall|i: int| 0 <= i < s.len() ==> !s[i],
    ensures
        count_true(s) == 0,
    decreases s.len(),
{
    if s.len() > 0 {
        lemma_count_none(s.drop_last());
    }
}

/// The tool calls taken from a response are exactly its tool-use blocks:
/// each block yields a call with its id, name and input, each call comes
/// from such a block, and there are calls exactly when there is such a
/// block (so a response ends the turn exactly when it asks for no tool).
pub proof fn lemma_tool_calls_are_tool_use_blocks(bs: Seq<ApiContentBlock>)
    ensures
        forall|i: int|
            0 <= i < bs.len() ==> (#[trigger] bs[i] matches ApiContentBlock::ToolUse { id, name, input }
                ==> tool_uses_of(bs).contains((id@, name@, input@))),
        forall|k: int|
            0 <= k < tool_uses_of(bs).len() ==> exists|i: int|
                0 <= i < bs.len() && (#[trigger] bs[i] matches ApiContentBlock::ToolUse { id, name, input }
                    && #[trigger] tool_uses_of(bs)[k] == (id@, name@, input@)),
        any_tool_use(bs) <==> tool_uses_of(bs).len() > 0,
    decreases bs.len(),
{
    if bs.len() > 0 {
        let init = bs.drop_last();
        lemma_tool_calls_are_tool_use_blocks(init);
        let a = tool_uses_of(init);
        let t = tool_uses_of(bs);
        let tail: Seq<(Seq<char>, Seq<char>, Seq<char>)> = match bs.last() {
            ApiContentBlock::ToolUse { id, name, input } => seq![(id@, name@, input@)],
            _ => seq![],
        };
        assert(t == a + tail);
        assert forall|i: int| 0 <= i < bs.len() implies (#[trigger] bs[i] matches ApiContentBlock::ToolUse {
            id,
            name,
            input,
        } ==> t.contains((id@, name@, input@))) by {
            if i < init.len() {
                assert(bs[i] == init[i]);
                match bs[i] {
                    ApiContentBlock::ToolUse { id, name, input } => {
                        let k = choose|k: int| 0 <= k < a.len() && a[k] == (id@, name@, input@);
                        assert(t[k] == a[k]);
                    },
                    _ => {},
                }
            } else {
                if bs[i] is ToolUse {
                    assert(t[t.len() - 1] == tail[0]);
                }
            }
        }
        assert forall|k: int| 0 <= k < t.len() implies exists|i: int|
            0 <= i < bs.len() && (#[trigger] bs[i] matches ApiContentBlock::ToolUse { id, name, input }
                && #[trigger] t[k] == (id@, name@, input@)) by {
            if k < a.len() {
                assert(t[k] == a[k]);
                let i = choose|i: int|
                    0 <= i < init.len() && (#[trigger] init[i] matches ApiContentBlock::ToolUse { id, name, input }
                        && #[trigger] a[k] == (id@, name@, input@));
                assert(bs[i] == init[i]);
            } else {
                assert(t[k] == tail[0]);
                assert(bs[bs.len() - 1] == bs.last());
            }
        }
        if any_tool_use(bs) {
            let i = choose|i: int| 0 <= i < bs.len() && is_tool_use(#[trigger] bs[i]);
            if i < init.len() {
                assert(init[i] == bs[i]);
            }
        }
        if t.len() > 0 {
            if a.len() > 0 {
                let i = choose|i: int| 0 <= i < init.len() && is_tool_use(#[trigger] init[i]);
                assert(bs[i] == init[i]);
            } else {
                assert(is_tool_use(bs[bs.len() - 1]));
            }
        }
    }
}

} // verus!
