//! Conversation maintenance between turns of the agent loop: repairing tool
//! uses left without results, placing the prompt-cache breakpoint and turning
//! API blocks into message blocks.

use vstd::prelude::*;

use crate::api::{ApiContentBlock, ApiMessage, CacheControl};
use crate::messages::ContentBlock;
use crate::text::str_eq;

verus! {

/// JSON text of the synthetic result given to an interrupted tool use.
pub const INTERRUPTED_RESULT_JSON: &'static str =
    "\"[Session interrupted \u{2014} tool execution was not completed]\"";

/// Index of the last assistant message, or -1 when there is none.
pub open spec fn last_assistant(conv: Seq<ApiMessage>) -> int
    decreases conv.len(),
{
    if conv.len() == 0 {
        -1
    } else if conv.last().role@ == "assistant"@ {
        conv.len() - 1
    } else {
        last_assistant(conv.drop_last())
    }
}

/// Ids of the tool-use blocks of a list, in order.
pub open spec fn tool_use_ids(bs: Seq<ApiContentBlock>) -> Seq<Seq<char>>
    decreases bs.len(),
{
    if bs.len() == 0 {
        Seq::empty()
    } else {
        tool_use_ids(bs.drop_last()) + match bs.last() {
            ApiContentBlock::ToolUse { id, .. } => seq![id@],
            _ => Seq::empty(),
        }
    }
}

/// A user message holds a tool result for the given id.
pub open spec fn answers(m: ApiMessage, id: Seq<char>) -> bool {
    &&& m.role@ == "user"@
    &&& exists|k: int|
        0 <= k < m.content@.len() && (#[trigger] m.content@[k] matches ApiContentBlock::ToolResult {
            tool_use_id,
            ..
        } && tool_use_id@ == id)
}

/// Some message after `idx` answers the id.
pub open spec fn answered(conv: Seq<ApiMessage>, idx: int, id: Seq<char>) -> bool {
    exists|j: int| idx < j < conv.len() && answers(#[trigger] conv[j], id)
}

/// The ids of the list that no message after `idx` answers, in order.
pub open spec fn unanswered(ids: Seq<Seq<char>>, conv: Seq<ApiMessage>, idx: int) -> Seq<Seq<char>>
    decreases ids.len(),
{
    if ids.len() == 0 {
        Seq::empty()
    } else {
        unanswered(ids.drop_last(), conv, idx) + if answered(conv, idx, ids.last()) {
            Seq::empty()
        } else {
            seq![ids.last()]
        }
    }
}

/// Tool uses of the last assistant message that no later user message answers.
pub open spec fn orphan_ids(conv: Seq<ApiMessage>) -> Seq<Seq<char>> {
    let idx = last_assistant(conv);
    if idx < 0 {
        Seq::empty()
    } else {
        unanswered(tool_use_ids(conv[idx].content@), conv, idx)
    }
}

/// The synthetic user message that answers the given ids with an error.
pub open spec fn is_repair_message(m: ApiMessage, ids: Seq<Seq<char>>) -> bool {
    &&& m.role@ == "user"@
    &&& m.content@.len() == ids.len()
    &&& forall|i: int|
        0 <= i < ids.len() ==> (#[trigger] m.content@[i] matches ApiContentBlock::ToolResult {
            tool_use_id,
            content,
            is_error,
            cache_control,
            name,
        } && tool_use_id@ == ids[i] && content@ == INTERRUPTED_RESULT_JSON@ && is_error == Some(
            true,
        ) && cache_control is None && name is None)
}

/// What a repair does: nothing when no tool use is orphaned, else append one
/// synthetic user message answering every orphan.
pub open spec fn repaired(before: Seq<ApiMessage>, after: Seq<ApiMessage>) -> bool {
    let orphans = orphan_ids(before);
    if orphans.len() == 0 {
        after == before
    } else {
        &&& after.len() == before.len() + 1
        &&& after.take(before.len() as int) == before
        &&& is_repair_message(after.last(), orphans)
    }
}

/// No id of the list is left unanswered when each one is answered.
proof fn lemma_all_answered(ids: Seq<Seq<char>>, conv: Seq<ApiMessage>, idx: int)
    requires
        forall|i: int| 0 <= i < ids.len() ==> answered(conv, idx, #[trigger] ids[i]),
    ensures
        unanswered(ids, conv, idx).len() == 0,
    decreases ids.len(),
{
    if ids.len() > 0 {
        assert forall|i: int| 0 <= i < ids.drop_last().len() implies answered(
            conv,
            idx,
            #[trigger] ids.drop_last()[i],
        ) by {
            assert(ids.drop_last()[i] == ids[i]);
        }
        lemma_all_answered(ids.drop_last(), conv, idx);
        assert(answered(conv, idx, ids[ids.len() - 1]));
    }
}

/// A tool round leaves no tool use unanswered: when the model's reply is
/// followed by a user message that holds a result for each of the reply's
/// tool uses, the conversation has no orphaned tool use (and repairing it
/// changes nothing).
pub proof fn lemma_answered_round_leaves_no_orphans(conv: Seq<ApiMessage>, reply: ApiMessage, results: ApiMessage)
    requires
        reply.role@ == "assistant"@,
        results.role@ == "user"@,
        forall|i: int|
            0 <= i < tool_use_ids(reply.content@).len() ==> answers(results, #[trigger] tool_use_ids(reply.content@)[i]),
    ensures
        orphan_ids(conv.push(reply).push(results)).len() == 0,
{
    let c1 = conv.push(reply);
    let c2 = c1.push(results);
    let ids = tool_use_ids(reply.content@);
    reveal_strlit("user");
    reveal_strlit("assistant");
    assert("user"@[0] != "assistant"@[0]);
    assert(results.role@ != "assistant"@);
    assert(c2.last() == results);
    assert(c2.drop_last() =~= c1);
    assert(c1.last() == reply);
    assert(last_assistant(c1) == c1.len() - 1);
    assert(last_assistant(c2) == c1.len() - 1);
    assert(c2[c1.len() - 1] == reply);
    assert forall|i: int| 0 <= i < ids.len() implies answered(c2, c1.len() - 1, #[trigger] ids[i]) by {
        assert(answers(results, ids[i]));
        assert(c2[c2.len() - 1] == results);
        assert(answers(c2[c2.len() - 1], ids[i]));
    }
    lemma_all_answered(ids, c2, c1.len() - 1);
}

/// Where the last assistant message sits.
pub proof fn lemma_last_assistant(conv: Seq<ApiMessage>)
    ensures
        -1 <= last_assistant(conv) < conv.len(),
        last_assistant(conv) >= 0 ==> conv[last_assistant(conv)].role@ == "assistant"@,
        forall|j: int| last_assistant(conv) < j < conv.len() ==> (#[trigger] conv[j]).role@ != "assistant"@,
    decreases conv.len(),
{
    if conv.len() > 0 && conv.last().role@ != "assistant"@ {
        lemma_last_assistant(conv.drop_last());
        assert forall|j: int| last_assistant(conv) < j < conv.len() implies (#[trigger] conv[j]).role@ != "assistant"@ by {
            if j < conv.len() - 1 {
                assert(conv[j] == conv.drop_last()[j]);
            }
        }
    }
}

proof fn lemma_user_is_not_assistant()
    ensures
        "user"@ != "assistant"@,
{
    reveal_strlit("user");
    reveal_strlit("assistant");
    assert("user"@[0] != "assistant"@[0]);
}

fn find_last_assistant(conv: &Vec<ApiMessage>) -> (r: Option<usize>)
    ensures
        r is None <==> last_assistant(conv@) < 0,
        r matches Some(i) ==> i == last_assistant(conv@) && i < conv@.len(),
{
    let mut i: usize = conv.len();
    assert(conv@.take(i as int) =~= conv@);
    while i > 0
        invariant
            0 <= i <= conv@.len(),
            last_assistant(conv@) == last_assistant(conv@.take(i as int)),
        decreases i,
    {
        assert(conv@.take(i as int).drop_last() =~= conv@.take(i - 1));
        if str_eq(conv[i - 1].role.as_str(), "assistant") {
            return Some(i - 1);
        }
        i -= 1;
    }
    None
}

fn collect_tool_use_ids(blocks: &Vec<ApiContentBlock>) -> (ids: Vec<String>)
    ensures
        ids.deep_view() == tool_use_ids(blocks@),
{
    let mut ids: Vec<String> = Vec::new();
    let mut i: usize = 0;
    while i < blocks.len()
        invariant
            0 <= i <= blocks@.len(),
            ids.deep_view() == tool_use_ids(blocks@.take(i as int)),
        decreases blocks@.len() - i,
    {
        assert(blocks@.take(i + 1).drop_last() =~= blocks@.take(i as int));
        if let ApiContentBlock::ToolUse { id, .. } = &blocks[i] {
            ids.push(id.clone());
            assert(ids.deep_view() =~= tool_use_ids(blocks@.take(i + 1)));
        } else {
            assert(ids.deep_view() =~= tool_use_ids(blocks@.take(i + 1)));
        }
        i += 1;
    }
    assert(blocks@.take(i as int) =~= blocks@);
    ids
}

fn message_answers(m: &ApiMessage, id: &str) -> (r: bool)
    ensures
        r == answers(*m, id@),
{
    if !str_eq(m.role.as_str(), "user") {
        return false;
    }
    let mut k: usize = 0;
    while k < m.content.len()
        invariant
            0 <= k <= m.content@.len(),
            m.role@ == "user"@,
            forall|q: int|
                0 <= q < k ==> !(#[trigger] m.content@[q] matches ApiContentBlock::ToolResult {
                    tool_use_id,
                    ..
                } && tool_use_id@ == id@),
        decreases m.content@.len() - k,
    {
        if let ApiContentBlock::ToolResult { tool_use_id, .. } = &m.content[k] {
            if str_eq(tool_use_id.as_str(), id) {
                assert(m.content@[k as int] matches ApiContentBlock::ToolResult { tool_use_id, .. }
                    && tool_use_id@ == id@);
                assert(m.role@ == "user"@);
                assert(answers(*m, id@));
                return true;
            }
        }
        k += 1;
    }
    false
}

fn is_answered(conv: &Vec<ApiMessage>, idx: usize, id: &str) -> (r: bool)
    requires
        idx < conv@.len(),
    ensures
        r == answered(conv@, idx as int, id@),
{
    let n = conv.len();
    let mut j: usize = idx + 1;
    while j < n
        invariant
            idx < j <= conv@.len(),
            n == conv@.len(),
            forall|q: int| idx < q < j ==> !answers(#[trigger] conv@[q], id@),
        decreases conv@.len() - j,
    {
        if message_answers(&conv[j], id) {
            return true;
        }
        j += 1;
    }
    false
}

proof fn lemma_answered_extend(conv: Seq<ApiMessage>, ext: Seq<ApiMessage>, idx: int, id: Seq<char>)
    requires
        conv.len() <= ext.len(),
        ext.take(conv.len() as int) == conv,
        0 <= idx < conv.len(),
        answered(conv, idx, id),
    ensures
        answered(ext, idx, id),
{
    let j = choose|j: int| idx < j < conv.len() && answers(#[trigger] conv[j], id);
    assert(ext[j] == ext.take(conv.len() as int)[j]);
    assert(answers(ext[j], id));
}

proof fn lemma_unanswered_empty(ids: Seq<Seq<char>>, conv: Seq<ApiMessage>, idx: int)
    requires
        forall|i: int| 0 <= i < ids.len() ==> answered(conv, idx, #[trigger] ids[i]),
    ensures
        unanswered(ids, conv, idx).len() == 0,
    decreases ids.len(),
{
    if ids.len() > 0 {
        assert(answered(conv, idx, ids[ids.len() - 1]));
        lemma_unanswered_empty(ids.drop_last(), conv, idx);
    }
}

proof fn lemma_unanswered_member(ids: Seq<Seq<char>>, conv: Seq<ApiMessage>, idx: int, i: int)
    requires
        0 <= i < ids.len(),
        !answered(conv, idx, ids[i]),
    ensures
        unanswered(ids, conv, idx).contains(ids[i]),
    decreases ids.len(),
{
    let u = unanswered(ids, conv, idx);
    if i == ids.len() - 1 {
        assert(u[u.len() - 1] == ids[i]);
    } else {
        lemma_unanswered_member(ids.drop_last(), conv, idx, i);
        let p = unanswered(ids.drop_last(), conv, idx);
        let k = choose|k: int| 0 <= k < p.len() && p[k] == ids[i];
        assert(u[k] == p[k]);
    }
}

/// Repairing twice changes nothing more than repairing once: after a repair
/// no tool use of the last assistant message is left without a result.
pub proof fn lemma_repair_idempotent(before: Seq<ApiMessage>, after: Seq<ApiMessage>)
    requires
        repaired(before, after),
    ensures
        orphan_ids(after).len() == 0,
{
    let orphans = orphan_ids(before);
    if orphans.len() > 0 {
        lemma_user_is_not_assistant();
        let n = before.len() as int;
        assert(after.drop_last() =~= before);
        let idx = last_assistant(before);
        lemma_last_assistant(before);
        assert(last_assistant(after) == idx) by {
            assert(after.last().role@ == "user"@);
            assert(after.drop_last() == before);
        }
        assert(after[idx] == before[idx]);
        let ids = tool_use_ids(before[idx].content@);
        assert forall|i: int| 0 <= i < ids.len() implies answered(after, idx, #[trigger] ids[i]) by {
            if answered(before, idx, ids[i]) {
                lemma_answered_extend(before, after, idx, ids[i]);
            } else {
                lemma_unanswered_member(ids, before, idx, i);
                let k = choose|k: int| 0 <= k < orphans.len() && orphans[k] == ids[i];
                let last = after[n];
                assert(last == after.last());
                assert(last.content@[k] matches ApiContentBlock::ToolResult { tool_use_id, .. }
                    && tool_use_id@ == ids[i]);
                assert(answers(last, ids[i]));
            }
        }
        lemma_unanswered_empty(ids, after, idx);
    }
}

/// Append synthetic error results for the tool uses of the last assistant
/// message that have no result in a later user message.
pub fn repair_orphaned_tool_uses(conversation: &mut Vec<ApiMessage>)
    ensures
        repaired(old(conversation)@, final(conversation)@),
{
    let idx = match find_last_assistant(conversation) {
        Some(i) => i,
        None => return,
    };
    let ids = collect_tool_use_ids(&conversation[idx].content);
    let ghost all_ids = tool_use_ids(conversation@[idx as int].content@);
    let mut orphaned: Vec<ApiContentBlock> = Vec::new();
    let ghost mut orphan_seq: Seq<Seq<char>> = Seq::empty();
    let mut i: usize = 0;
    while i < ids.len()
        invariant
            0 <= i <= ids@.len(),
            idx < conversation@.len(),
            ids.deep_view() == all_ids,
            orphan_seq == unanswered(all_ids.take(i as int), conversation@, idx as int),
            orphaned@.len() == orphan_seq.len(),
            forall|q: int|
                0 <= q < orphan_seq.len() ==> (#[trigger] orphaned@[q] matches ApiContentBlock::ToolResult {
                    tool_use_id,
                    content,
                    is_error,
                    cache_control,
                    name,
                } && tool_use_id@ == orphan_seq[q] && content@ == INTERRUPTED_RESULT_JSON@
                    && is_error == Some(true) && cache_control is None && name is None),
        decreases ids@.len() - i,
    {
        assert(all_ids.take(i + 1).drop_last() =~= all_ids.take(i as int));
        assert(ids@[i as int]@ == all_ids[i as int]);
        let a = is_answered(conversation, idx, ids[i].as_str());
        if !a {
            orphaned.push(
                ApiContentBlock::ToolResult {
                    tool_use_id: ids[i].clone(),
                    content: INTERRUPTED_RESULT_JSON.to_owned(),
                    is_error: Some(true),
                    cache_control: None,
                    name: None,
                },
            );
            proof {
                orphan_seq = orphan_seq.push(all_ids[i as int]);
            }
        }
        i += 1;
    }
    assert(all_ids.take(i as int) =~= all_ids);
    if orphaned.len() > 0 {
        let ghost before = conversation@;
        conversation.push(ApiMessage { role: "user".to_owned(), content: orphaned });
        assert(conversation@.take(before.len() as int) =~= before);
    }
}

/// A block with its cache marker removed (only text and tool-result blocks
/// carry one).
pub open spec fn without_cache(b: ApiContentBlock) -> ApiContentBlock {
    match b {
        ApiContentBlock::Text { text, .. } => ApiContentBlock::Text { text, cache_control: None },
        ApiContentBlock::ToolResult { tool_use_id, content, is_error, name, .. } =>
            ApiContentBlock::ToolResult { tool_use_id, content, is_error, cache_control: None, name },
        _ => b,
    }
}

/// The block `after` is `before` carrying an ephemeral cache marker when it
/// can carry one, and `before` unchanged otherwise.
pub open spec fn with_ephemeral_cache(before: ApiContentBlock, after: ApiContentBlock) -> bool {
    match before {
        ApiContentBlock::Text { text, .. } => after matches ApiContentBlock::Text { text: t2, cache_control: Some(cc) }
            && t2 == text && cc.kind@ == "ephemeral"@,
        ApiContentBlock::ToolResult { tool_use_id, content, is_error, name, .. } =>
            after matches ApiContentBlock::ToolResult { tool_use_id: u2, content: c2, is_error: e2, cache_control: Some(cc), name: n2 }
            && u2 == tool_use_id && c2 == content && e2 == is_error && n2 == name && cc.kind@ == "ephemeral"@,
        _ => after == before,
    }
}

/// Index of the last user message, or -1 when there is none.
pub open spec fn last_user(conv: Seq<ApiMessage>) -> int
    decreases conv.len(),
{
    if conv.len() == 0 {
        -1
    } else if conv.last().role@ == "user"@ {
        conv.len() - 1
    } else {
        last_user(conv.drop_last())
    }
}

/// Whether block `k` of message `i` is the one that receives the breakpoint.
pub open spec fn is_breakpoint(conv: Seq<ApiMessage>, i: int, k: int) -> bool {
    i == last_user(conv) && k == conv[i].content@.len() - 1
}

/// The conversation `after` is `before` with every cache marker removed,
/// except on the last block of the last user message, which carries an
/// ephemeral one.
pub open spec fn breakpoint_applied(before: Seq<ApiMessage>, after: Seq<ApiMessage>) -> bool {
    &&& after.len() == before.len()
    &&& forall|i: int| 0 <= i < before.len() ==> {
        &&& (#[trigger] after[i]).role == before[i].role
        &&& after[i].content@.len() == before[i].content@.len()
    }
    &&& forall|i: int, k: int|
        0 <= i < before.len() && 0 <= k < before[i].content@.len() ==> if is_breakpoint(before, i, k) {
            with_ephemeral_cache(without_cache(before[i].content@[k]), #[trigger] after[i].content@[k])
        } else {
            after[i].content@[k] == without_cache(before[i].content@[k])
        }
}

/// Whether a block carries a cache marker.
pub open spec fn has_cache_marker(b: ApiContentBlock) -> bool {
    match b {
        ApiContentBlock::Text { cache_control, .. } => cache_control is Some,
        ApiContentBlock::ToolResult { cache_control, .. } => cache_control is Some,
        _ => false,
    }
}

/// After the breakpoint is applied, at most one block of the conversation
/// carries a cache marker: the last block of the last user message.
pub proof fn lemma_single_breakpoint(before: Seq<ApiMessage>, after: Seq<ApiMessage>)
    requires
        breakpoint_applied(before, after),
    ensures
        forall|i: int, k: int|
            0 <= i < after.len() && 0 <= k < after[i].content@.len() && has_cache_marker(#[trigger] after[i].content@[k])
                ==> i == last_user(before) && k == before[i].content@.len() - 1,
{
    assert forall|i: int, k: int|
        0 <= i < after.len() && 0 <= k < after[i].content@.len() && has_cache_marker(#[trigger] after[i].content@[k])
            implies i == last_user(before) && k == before[i].content@.len() - 1 by {
        assert(after[i].content@.len() == before[i].content@.len());
        if !is_breakpoint(before, i, k) {
            assert(after[i].content@[k] == without_cache(before[i].content@[k]));
        }
    }
}

fn clear_cache(b: &mut ApiContentBlock)
    ensures
        *final(b) == without_cache(*old(b)),
{
    match b {
        ApiContentBlock::Text { cache_control, .. } => {
            *cache_control = None;
        },
        ApiContentBlock::ToolResult { cache_control, .. } => {
            *cache_control = None;
        },
        _ => {},
    }
}

fn set_ephemeral(b: &mut ApiContentBlock)
    ensures
        with_ephemeral_cache(*old(b), *final(b)),
{
    match b {
        ApiContentBlock::Text { cache_control, .. } => {
            *cache_control = Some(CacheControl::ephemeral());
        },
        ApiContentBlock::ToolResult { cache_control, .. } => {
            *cache_control = Some(CacheControl::ephemeral());
        },
        _ => {},
    }
}

fn clear_message(m: &mut ApiMessage)
    ensures
        final(m).role == old(m).role,
        final(m).content@.len() == old(m).content@.len(),
        forall|k: int| 0 <= k < old(m).content@.len() ==> #[trigger] final(m).content@[k] == without_cache(old(m).content@[k]),
{
    let n = m.content.len();
    let mut k: usize = 0;
    while k < n
        invariant
            0 <= k <= n,
            n == m.content@.len(),
            m.role == old(m).role,
            m.content@.len() == old(m).content@.len(),
            forall|q: int| 0 <= q < k ==> #[trigger] m.content@[q] == without_cache(old(m).content@[q]),
            forall|q: int| k <= q < n ==> #[trigger] m.content@[q] == old(m).content@[q],
        decreases n - k,
    {
        clear_cache(&mut m.content[k]);
        k += 1;
    }
}

/// Put a single prompt-cache breakpoint on the last content block of the
/// last user message, clearing every other breakpoint of the conversation.
pub fn apply_cache_breakpoint(conversation: &mut Vec<ApiMessage>)
    ensures
        breakpoint_applied(old(conversation)@, final(conversation)@),
{
    let n = conversation.len();
    let mut i: usize = 0;
    while i < n
        invariant
            0 <= i <= n,
            n == conversation@.len(),
            forall|q: int| 0 <= q < n ==> {
                &&& (#[trigger] conversation@[q]).role == old(conversation)@[q].role
                &&& conversation@[q].content@.len() == old(conversation)@[q].content@.len()
            },
            forall|q: int, k: int| 0 <= q < i && 0 <= k < old(conversation)@[q].content@.len()
                ==> #[trigger] conversation@[q].content@[k] == without_cache(old(conversation)@[q].content@[k]),
            forall|q: int| i <= q < n ==> #[trigger] conversation@[q] == old(conversation)@[q],
            n == old(conversation)@.len(),
        decreases n - i,
    {
        clear_message(&mut conversation[i]);
        i += 1;
    }
    let mut j: usize = n;
    let ghost cleared = conversation@;
    let ghost olds = old(conversation)@;
    proof {
        assert(olds.take(n as int) =~= olds);
    }
    while j > 0
        invariant
            0 <= j <= n,
            n == conversation@.len(),
            n == olds.len(),
            olds == old(conversation)@,
            conversation@ == cleared,
            last_user(olds) == last_user(olds.take(j as int)),
            forall|q: int| 0 <= q < n ==> {
                &&& (#[trigger] cleared[q]).role == olds[q].role
                &&& cleared[q].content@.len() == olds[q].content@.len()
            },
            forall|q: int, k: int| 0 <= q < n && 0 <= k < olds[q].content@.len()
                ==> #[trigger] cleared[q].content@[k] == without_cache(olds[q].content@[k]),
        decreases j,
    {
        assert(olds.take(j as int).drop_last() =~= olds.take(j - 1));
        if str_eq(conversation[j - 1].role.as_str(), "user") {
            assert(last_user(olds) == j - 1);
            let len = conversation[j - 1].content.len();
            if len > 0 {
                set_ephemeral(&mut conversation[j - 1].content[len - 1]);
                assert(forall|q: int| 0 <= q < n && q != j - 1 ==> #[trigger] conversation@[q] == cleared[q]);
                assert(forall|k: int| 0 <= k < len - 1 ==> #[trigger] conversation@[j - 1].content@[k] == cleared[j - 1].content@[k]);
            }
            return;
        }
        j -= 1;
    }
    assert(last_user(olds) == -1);
}

/// Convert an API content block to a message content block; images become
/// the text `[image]`.
pub fn api_block_to_content_block(block: &ApiContentBlock) -> (r: ContentBlock)
    ensures
        match *block {
            ApiContentBlock::Text { text, .. } => r matches ContentBlock::Text { text: t } && t == text,
            ApiContentBlock::Image { .. } => r matches ContentBlock::Text { text: t } && t@ == "[image]"@,
            ApiContentBlock::ToolUse { id, name, input } => r matches ContentBlock::ToolUse { id: i2, name: n2, input: in2 }
                && i2 == id && n2 == name && in2 == input,
            ApiContentBlock::ToolResult { tool_use_id, content, is_error, .. } =>
                r matches ContentBlock::ToolResult { tool_use_id: u2, content: c2, is_error: e2 }
                && u2 == tool_use_id && c2 == content && e2 == is_error,
            ApiContentBlock::Thinking { thinking } => r matches ContentBlock::Thinking { thinking: t } && t == thinking,
        },
{
    match block {
        ApiContentBlock::Text { text, .. } => ContentBlock::Text { text: text.clone() },
        ApiContentBlock::Image { .. } => ContentBlock::Text { text: "[image]".to_owned() },
        ApiContentBlock::ToolUse { id, name, input } => ContentBlock::ToolUse {
            id: id.clone(),
            name: name.clone(),
            input: input.clone(),
        },
        ApiContentBlock::ToolResult { tool_use_id, content, is_error, .. } => ContentBlock::ToolResult {
            tool_use_id: tool_use_id.clone(),
            content: content.clone(),
            is_error: *is_error,
        },
        ApiContentBlock::Thinking { thinking } => ContentBlock::Thinking { thinking: thinking.clone() },
    }
}

} // verus!
