//! Conversation compaction: when the input tokens of a response exceed the
//! context budget, older messages are summarized and replaced by a single
//! summary message, keeping the most recent turns intact.

use vstd::prelude::*;

use crate::api::{any_tool_result, any_tool_use, has_tool_results, has_tool_uses, AgentError, ApiContentBlock, ApiMessage};
use crate::text::{
    cat, chars_of, fits_prefix, fitting_prefix, lemma_utf8_len_take_mono, push_str, str_eq,
    string_of_range, utf8_len,
};

verus! {

/// Default minimum number of messages kept at the end.
pub const DEFAULT_MIN_KEEP_MESSAGES: usize = 4;

/// Default max tokens of the summarization response.
pub const DEFAULT_SUMMARY_MAX_TOKENS: u32 = 4096;

/// Result of a compaction.
#[derive(Debug)]
pub struct CompactResult {
    pub pre_tokens: u64,
    pub summary: String,
    pub messages_compacted: usize,
}

/// Compaction triggers when the input tokens exceed the context budget.
pub fn should_compact(input_tokens: u64, context_budget: u64) -> (r: bool)
    ensures
        r == (input_tokens > context_budget),
{
    input_tokens > context_budget
}

/// A user message carrying tool results right after an assistant message
/// carrying tool uses: splitting between them would break a tool cycle.
pub open spec fn splits_tool_cycle(conv: Seq<ApiMessage>, at: int) -> bool {
    &&& 0 < at < conv.len()
    &&& conv[at].role@ == "user"@
    &&& any_tool_result(conv[at].content@)
    &&& conv[at - 1].role@ == "assistant"@
    &&& any_tool_use(conv[at - 1].content@)
}

/// The split point: keep `min_keep` messages at the end, moved back by one
/// when the candidate would separate a tool use from its results; 0 when the
/// conversation is too short.
pub open spec fn split_point(conv: Seq<ApiMessage>, min_keep: nat) -> nat {
    if conv.len() <= min_keep {
        0
    } else {
        let c = (conv.len() - min_keep) as nat;
        if splits_tool_cycle(conv, c as int) {
            (c - 1) as nat
        } else {
            c
        }
    }
}

/// Find the index where old messages end and recent messages begin.
pub fn find_split_point(conversation: &[ApiMessage], min_keep: usize) -> (split: usize)
    ensures
        split == split_point(conversation@, min_keep as nat),
        split <= conversation@.len(),
        split > 0 ==> conversation@.len() - split >= min_keep,
        split > 0 ==> !splits_tool_cycle(conversation@, split as int),
{
    if conversation.len() <= min_keep {
        return 0;
    }
    let split = conversation.len() - min_keep;
    if split < conversation.len() {
        let msg = &conversation[split];
        if str_eq(msg.role.as_str(), "user") && has_tool_results(msg.content.as_slice()) {
            let prev = &conversation[split - 1];
            if str_eq(prev.role.as_str(), "assistant") && has_tool_uses(prev.content.as_slice()) {
                proof {
                    reveal_strlit("assistant");
                    reveal_strlit("user");
                    assert("assistant"@ != "user"@) by {
                        assert("assistant"@[0] != "user"@[0]);
                    }
                }
                return split - 1;
            }
        }
    }
    split
}

/// Text of the summary message that replaces compacted messages.
pub open spec fn summary_text(summary: Seq<char>) -> Seq<char> {
    "[Previous conversation summary]\n"@ + summary
        + "\n[End of summary \u{2014} conversation continues below]"@
}

/// Replace the first `split_point` messages with one user message holding the
/// summary.
pub fn splice_conversation(conversation: &mut Vec<ApiMessage>, split_point: usize, summary: &str)
    requires
        split_point <= old(conversation)@.len(),
    ensures
        final(conversation)@.len() == old(conversation)@.len() - split_point + 1,
        final(conversation)@[0].role@ == "user"@,
        final(conversation)@[0].content@.len() == 1,
        final(conversation)@[0].content@[0] matches ApiContentBlock::Text { text, cache_control }
            && text@ == summary_text(summary@) && cache_control is None,
        forall|i: int|
            1 <= i < final(conversation)@.len() ==> #[trigger] final(conversation)@[i]
                == old(conversation)@[split_point + i - 1],
{
    let mut kept = conversation.split_off(split_point);
    let mut text = cat("[Previous conversation summary]\n", summary);
    push_str(&mut text, "\n[End of summary \u{2014} conversation continues below]");
    let mut content: Vec<ApiContentBlock> = Vec::new();
    content.push(ApiContentBlock::Text { text, cache_control: None });
    let head = ApiMessage { role: "user".to_owned(), content };
    let mut result: Vec<ApiMessage> = Vec::new();
    result.push(head);
    result.append(&mut kept);
    *conversation = result;
}

/// Truncation of a character sequence to the longest prefix whose encoding
/// fits in `max` bytes.
pub open spec fn truncate_bytes(s: Seq<char>, max: int) -> Seq<char> {
    s.take(choose|k: int| fits_prefix(s, max, k))
}

proof fn lemma_fits_prefix_unique(s: Seq<char>, max: int, k1: int, k2: int)
    requires
        fits_prefix(s, max, k1),
        fits_prefix(s, max, k2),
    ensures
        k1 == k2,
{
    if k1 < k2 {
        lemma_utf8_len_take_mono(s, k1 + 1, k2);
    } else if k2 < k1 {
        lemma_utf8_len_take_mono(s, k2 + 1, k1);
    }
}

/// The prefix computed by `fitting_prefix` is the one `truncate_bytes` names.
pub proof fn lemma_truncate_bytes(s: Seq<char>, max: int, k: int)
    requires
        fits_prefix(s, max, k),
    ensures
        truncate_bytes(s, max) == s.take(k),
        utf8_len(s) > max <==> k < s.len(),
{
    let c = choose|j: int| fits_prefix(s, max, j);
    lemma_fits_prefix_unique(s, max, c, k);
    if k < s.len() {
        lemma_utf8_len_take_mono(s, k + 1, s.len() as int);
        assert(s.take(s.len() as int) =~= s);
    } else {
        assert(s.take(k) =~= s);
    }
}

/// Rendering of one content block in the summary prompt.
pub open spec fn render_block(b: ApiContentBlock) -> Seq<char> {
    match b {
        ApiContentBlock::Text { text, .. } => text@ + "\n"@,
        ApiContentBlock::ToolUse { name, input, .. } => "Tool call: "@ + name@ + " input: "@
            + input@ + "\n"@,
        ApiContentBlock::ToolResult { content, is_error, .. } => {
            let label = if is_error == Some(true) {
                "error"@
            } else {
                "result"@
            };
            if utf8_len(content@) > 500 {
                "Tool "@ + label + ": "@ + truncate_bytes(content@, 500) + "...\n"@
            } else {
                "Tool "@ + label + ": "@ + content@ + "\n"@
            }
        },
        ApiContentBlock::Thinking { thinking } => if utf8_len(thinking@) <= 200 {
            "(thinking: "@ + thinking@ + ")\n"@
        } else {
            Seq::empty()
        },
        ApiContentBlock::Image { .. } => "[image]\n"@,
    }
}

/// Rendering of a sequence of blocks.
pub open spec fn render_blocks(bs: Seq<ApiContentBlock>) -> Seq<char>
    decreases bs.len(),
{
    if bs.len() == 0 {
        Seq::empty()
    } else {
        render_blocks(bs.drop_last()) + render_block(bs.last())
    }
}

/// Rendering of one message: its role in brackets, its blocks, a blank line.
pub open spec fn render_message(m: ApiMessage) -> Seq<char> {
    "["@ + m.role@ + "]\n"@ + render_blocks(m.content@) + "\n"@
}

/// Rendering of a sequence of messages.
pub open spec fn render_messages(ms: Seq<ApiMessage>) -> Seq<char>
    decreases ms.len(),
{
    if ms.len() == 0 {
        Seq::empty()
    } else {
        render_messages(ms.drop_last()) + render_message(ms.last())
    }
}

/// Fixed instructions that open the summary prompt.
pub open spec fn summary_instructions() -> Seq<char> {
    "Summarize the following conversation segment concisely. Preserve:\n- Key decisions made\n- Important facts and context established\n- File paths and code references mentioned\n- Tool results and their outcomes\n- Any commitments or action items\n\nFormat as a structured summary with sections.\n\n<conversation>\n"@
}

/// The whole summarization prompt for a list of old messages.
pub open spec fn summary_prompt(ms: Seq<ApiMessage>) -> Seq<char> {
    summary_instructions() + render_messages(ms) + "</conversation>"@
}

fn push_block(out: &mut String, block: &ApiContentBlock)
    ensures
        final(out)@ == old(out)@ + render_block(*block),
{
    match block {
        ApiContentBlock::Text { text, .. } => {
            push_str(out, text.as_str());
            push_str(out, "\n");
            assert(final(out)@ =~= old(out)@ + render_block(*block));
        },
        ApiContentBlock::ToolUse { name, input, .. } => {
            push_str(out, "Tool call: ");
            push_str(out, name.as_str());
            push_str(out, " input: ");
            push_str(out, input.as_str());
            push_str(out, "\n");
            assert(final(out)@ =~= old(out)@ + render_block(*block));
        },
        ApiContentBlock::ToolResult { content, is_error, .. } => {
            let label = match is_error {
                Some(true) => "error",
                _ => "result",
            };
            let chars = chars_of(content.as_str());
            let k = fitting_prefix(&chars, 500);
            proof {
                lemma_truncate_bytes(content@, 500, k as int);
            }
            push_str(out, "Tool ");
            push_str(out, label);
            push_str(out, ": ");
            if k < chars.len() {
                let prefix = string_of_range(&chars, 0, k);
                assert(prefix@ =~= content@.take(k as int));
                push_str(out, prefix.as_str());
                push_str(out, "...\n");
            } else {
                push_str(out, content.as_str());
                push_str(out, "\n");
            }
            assert(final(out)@ =~= old(out)@ + render_block(*block));
        },
        ApiContentBlock::Thinking { thinking } => {
            let chars = chars_of(thinking.as_str());
            let k = fitting_prefix(&chars, 200);
            proof {
                lemma_truncate_bytes(thinking@, 200, k as int);
            }
            if k == chars.len() {
                push_str(out, "(thinking: ");
                push_str(out, thinking.as_str());
                push_str(out, ")\n");
            }
            assert(final(out)@ =~= old(out)@ + render_block(*block));
        },
        ApiContentBlock::Image { .. } => {
            push_str(out, "[image]\n");
        },
    }
}

fn push_message(out: &mut String, msg: &ApiMessage)
    ensures
        final(out)@ == old(out)@ + render_message(*msg),
{
    push_str(out, "[");
    push_str(out, msg.role.as_str());
    push_str(out, "]\n");
    let ghost start = out@;
    let mut i: usize = 0;
    while i < msg.content.len()
        invariant
            0 <= i <= msg.content@.len(),
            out@ == start + render_blocks(msg.content@.take(i as int)),
        decreases msg.content@.len() - i,
    {
        push_block(out, &msg.content[i]);
        assert(msg.content@.take(i + 1).drop_last() =~= msg.content@.take(i as int));
        i += 1;
    }
    assert(msg.content@.take(i as int) =~= msg.content@);
    push_str(out, "\n");
    assert(final(out)@ =~= old(out)@ + render_message(*msg));
}

/// Build the summarization prompt from old messages.
pub fn build_summary_prompt(old_messages: &[ApiMessage]) -> (p: String)
    ensures
        p@ == summary_prompt(old_messages@),
{
    let mut out = String::new();
    let mut i: usize = 0;
    while i < old_messages.len()
        invariant
            0 <= i <= old_messages@.len(),
            out@ == render_messages(old_messages@.take(i as int)),
        decreases old_messages@.len() - i,
    {
        push_message(&mut out, &old_messages[i]);
        assert(old_messages@.take(i + 1).drop_last() =~= old_messages@.take(i as int));
        i += 1;
    }
    assert(old_messages@.take(i as int) =~= old_messages@);
    let mut p = "Summarize the following conversation segment concisely. Preserve:\n- Key decisions made\n- Important facts and context established\n- File paths and code references mentioned\n- Tool results and their outcomes\n- Any commitments or action items\n\nFormat as a structured summary with sections.\n\n<conversation>\n".to_owned();
    push_str(&mut p, out.as_str());
    push_str(&mut p, "</conversation>");
    p
}

/// Concatenation of the text blocks of a list.
pub open spec fn text_of_blocks(bs: Seq<ApiContentBlock>) -> Seq<char>
    decreases bs.len(),
{
    if bs.len() == 0 {
        Seq::empty()
    } else {
        text_of_blocks(bs.drop_last()) + match bs.last() {
            ApiContentBlock::Text { text, .. } => text@,
            _ => Seq::empty(),
        }
    }
}

/// Concatenate the text blocks of a list.
pub fn join_text_blocks(content: &[ApiContentBlock]) -> (s: String)
    ensures
        s@ == text_of_blocks(content@),
{
    let mut s = String::new();
    let mut i: usize = 0;
    while i < content.len()
        invariant
            0 <= i <= content@.len(),
            s@ == text_of_blocks(content@.take(i as int)),
        decreases content@.len() - i,
    {
        if let ApiContentBlock::Text { text, .. } = &content[i] {
            push_str(&mut s, text.as_str());
        }
        assert(content@.take(i + 1).drop_last() =~= content@.take(i as int));
        assert(s@ =~= text_of_blocks(content@.take(i + 1)));
        i += 1;
    }
    assert(content@.take(i as int) =~= content@);
    s
}

/// The text of a summarization response: the concatenated text blocks, or an
/// API error when there is none.
pub fn extract_text(content: &[ApiContentBlock]) -> (r: Result<String, AgentError>)
    ensures
        text_of_blocks(content@).len() > 0 ==> (r matches Ok(s) && s@ == text_of_blocks(content@)),
        text_of_blocks(content@).len() == 0 ==> (r matches Err(AgentError::Api(m))
            && m@ == "Compaction response contained no text"@),
{
    let s = join_text_blocks(content);
    if s.as_str().is_empty() {
        Err(AgentError::Api("Compaction response contained no text".to_owned()))
    } else {
        Ok(s)
    }
}

} // verus!
