//! The decisions of the HTTP and WebSocket gateway: API-key checks, the
//! follow-up handling of a WebSocket connection, and what is relayed to the
//! client from the messages of a running query.

use vstd::prelude::*;

use crate::config::FollowupMode;
use crate::messages::ContentBlock;
use crate::orion::{ellipsized, truncate_text};
use crate::text::{is_boundary, join_with, joined_with, push_char, push_str, str_eq, utf8_len};

verus! {

/// An incoming chat message from a user or channel.
#[derive(Debug, Clone)]
pub struct ChatMessage {
    pub text: String,
    pub user_id: Option<String>,
    pub channel_id: Option<String>,
    pub channel_session_key: Option<String>,
    /// File attachments (paths or URLs).
    pub attachments: Vec<String>,
}

/// Default number of sessions listed.
pub const DEFAULT_SESSION_LIMIT: usize = 20;

/// Default number of memory search results.
pub const DEFAULT_SEARCH_LIMIT: usize = 10;

/// The answer to a request without the right API key.
pub const INVALID_API_KEY: &'static str = "Invalid or missing API key";

/// A refused request: HTTP status and error text.
#[derive(Debug)]
pub struct AuthError {
    pub status: u16,
    pub error: String,
}

/// Check the `x-api-key` header: every request passes when no key is
/// configured; otherwise the header must hold exactly the key (401
/// otherwise).
pub fn check_api_key(expected: Option<&str>, provided: Option<&str>) -> (r: Result<(), AuthError>)
    ensures
        match expected {
            None => r is Ok,
            Some(k) => if provided matches Some(p) && p@ == k@ {
                r is Ok
            } else {
                r matches Err(e) && e.status == 401 && e.error@ == INVALID_API_KEY@
            },
        },
{
    match expected {
        None => Ok(()),
        Some(k) => {
            let ok = match provided {
                Some(p) => str_eq(p, k),
                None => false,
            };
            if ok {
                Ok(())
            } else {
                Err(AuthError { status: 401, error: INVALID_API_KEY.to_owned() })
            }
        },
    }
}

/// Whether a WebSocket upgrade may proceed: always when no key is
/// configured, else only with the key as `token`.
pub fn ws_token_ok(expected: Option<&str>, token: Option<&str>) -> (r: bool)
    ensures
        r == match expected {
            None => true,
            Some(k) => token matches Some(t) && t@ == k@,
        },
{
    match expected {
        None => true,
        Some(k) => match token {
            Some(t) => str_eq(t, k),
            None => false,
        },
    }
}

/// A chat message sent by a WebSocket client.
#[derive(Debug, Clone)]
pub struct ClientChat {
    pub text: String,
    pub user_id: Option<String>,
    pub channel_id: Option<String>,
    pub channel_session_key: Option<String>,
}

/// The chat message of a client message: its channel defaults to `main`.
pub open spec fn chat_of(c: ClientChat, m: ChatMessage) -> bool {
    &&& m.text == c.text
    &&& m.user_id == c.user_id
    &&& m.channel_session_key == c.channel_session_key
    &&& m.attachments@.len() == 0
    &&& match c.channel_id {
        Some(ch) => m.channel_id == Some(ch),
        None => m.channel_id matches Some(ch) && ch@ == "main"@,
    }
}

fn chat_message_of(c: ClientChat) -> (m: ChatMessage)
    ensures
        chat_of(c, m),
{
    let channel_id = match c.channel_id {
        Some(ch) => Some(ch),
        None => Some("main".to_owned()),
    };
    ChatMessage {
        text: c.text,
        user_id: c.user_id,
        channel_id,
        channel_session_key: c.channel_session_key,
        attachments: Vec::new(),
    }
}

/// What to do with a client message.
#[derive(Debug)]
pub enum ClientAction {
    /// No stream is running: start one for this message.
    Start { message: ChatMessage },
    /// A stream is running: hand the text to it as a follow-up.
    Inject { text: String },
    /// A stream is running: the message waits for it to finish.
    Queued,
}

/// A batch of queued messages, replayed as one chat message.
#[derive(Debug)]
pub struct QueuedBatch {
    pub message: ChatMessage,
}

/// The follow-up state of one WebSocket connection.
pub struct WsConnection {
    pub mode: FollowupMode,
    pub streaming: bool,
    pub queued: Vec<ChatMessage>,
}

pub open spec fn texts_of(v: Seq<ChatMessage>) -> Seq<Seq<char>> {
    v.map_values(|m: ChatMessage| m.text@)
}

impl WsConnection {
    /// A connection with no stream and nothing queued.
    pub fn new(mode: FollowupMode) -> (c: WsConnection)
        ensures
            c.mode == mode,
            !c.streaming,
            c.queued@.len() == 0,
    {
        WsConnection { mode, streaming: false, queued: Vec::new() }
    }

    /// A client message arrived. Without a running stream it starts one;
    /// during a stream it is injected (inject mode) or queued (queue mode).
    pub fn on_client_message(&mut self, c: ClientChat) -> (a: ClientAction)
        ensures
            final(self).mode == old(self).mode,
            !old(self).streaming ==> (a matches ClientAction::Start { message } && chat_of(c, message))
                && final(self).streaming && final(self).queued == old(self).queued,
            old(self).streaming && old(self).mode == FollowupMode::Inject ==> (a matches ClientAction::Inject {
                text,
            } && text == c.text) && final(self).streaming && final(self).queued == old(self).queued,
            old(self).streaming && old(self).mode == FollowupMode::Queue ==> a is Queued
                && final(self).streaming && final(self).queued@.len() == old(self).queued@.len() + 1
                && final(self).queued@.drop_last() == old(self).queued@ && chat_of(
                c,
                final(self).queued@.last(),
            ),
    {
        if !self.streaming {
            self.streaming = true;
            return ClientAction::Start { message: chat_message_of(c) };
        }
        match self.mode {
            FollowupMode::Inject => ClientAction::Inject { text: c.text },
            FollowupMode::Queue => {
                let m = chat_message_of(c);
                self.queued.push(m);
                proof {
                    assert(self.queued@.drop_last() =~= old(self).queued@);
                }
                ClientAction::Queued
            },
        }
    }

    /// The running stream ended.
    pub fn on_stream_end(&mut self)
        ensures
            final(self).mode == old(self).mode,
            !final(self).streaming,
            final(self).queued == old(self).queued,
    {
        self.streaming = false;
    }

    /// With no running stream, the queued messages (if any) are replayed as
    /// one message: their texts joined by blank lines, with the user and
    /// channel of the first. The queue is emptied and a stream starts.
    pub fn take_queued(&mut self) -> (b: Option<QueuedBatch>)
        ensures
            final(self).mode == old(self).mode,
            old(self).streaming || old(self).queued@.len() == 0 ==> b is None && final(self).streaming
                == old(self).streaming && final(self).queued == old(self).queued,
            !old(self).streaming && old(self).queued@.len() > 0 ==> (b matches Some(batch)
                && batch.message.text@ == joined_with(texts_of(old(self).queued@), "\n\n"@)
                && batch.message.user_id == old(self).queued@[0].user_id
                && batch.message.channel_id == old(self).queued@[0].channel_id
                && batch.message.channel_session_key == old(self).queued@[0].channel_session_key
                && batch.message.attachments@.len() == 0) && final(self).streaming
                && final(self).queued@.len() == 0,
    {
        if self.streaming || self.queued.len() == 0 {
            return None;
        }
        let mut batch: Vec<ChatMessage> = Vec::new();
        std::mem::swap(&mut batch, &mut self.queued);
        let mut texts: Vec<String> = Vec::new();
        let mut i: usize = 0;
        while i < batch.len()
            invariant
                0 <= i <= batch@.len(),
                texts@.map_values(|s: String| s@) == texts_of(batch@.take(i as int)),
            decreases batch@.len() - i,
        {
            let ghost t0 = texts@;
            let t = batch[i].text.clone();
            texts.push(t);
            proof {
                assert(texts@ =~= t0.push(t));
                assert(batch@.take(i + 1) =~= batch@.take(i as int).push(batch@[i as int]));
                assert(texts@.map_values(|s: String| s@) =~= t0.map_values(|s: String| s@).push(t@));
                assert(texts@.map_values(|s: String| s@) =~= texts_of(batch@.take(i + 1)));
            }
            i = i + 1;
        }
        proof {
            assert(batch@.take(i as int) =~= batch@);
        }
        let text = join_with(&texts, "\n\n");
        let first = &batch[0];
        let message = ChatMessage {
            text,
            user_id: first.user_id.clone(),
            channel_id: first.channel_id.clone(),
            channel_session_key: first.channel_session_key.clone(),
            attachments: Vec::new(),
        };
        self.streaming = true;
        Some(QueuedBatch { message })
    }
}

/// What is relayed to the client; JSON payloads are JSON text.
#[derive(Debug)]
pub enum ServerEvent {
    StreamStart { session_id: String },
    TextDelta { text: String },
    ToolUse { name: String, input: String },
    ToolResult { content: String, is_error: bool },
    /// The end of a stream; the cost is added by the host.
    StreamEnd {
        session_id: String,
        num_turns: u32,
        input_tokens: u64,
        output_tokens: u64,
        is_error: bool,
        errors: Vec<String>,
    },
    Error { message: String },
}

/// The events relayed for the blocks of an assistant message, and the
/// reply text after them: every non-empty text block is relayed and joins
/// the reply (after a newline when there is text already); every tool use
/// is relayed.
pub open spec fn relayed_assistant(acc: Seq<char>, blocks: Seq<ContentBlock>, events: Seq<ServerEvent>, after: Seq<char>) -> bool
    decreases blocks.len(),
{
    if blocks.len() == 0 {
        events.len() == 0 && after == acc
    } else {
        let last = blocks.last();
        match last {
            ContentBlock::Text { text } => if text@.len() > 0 {
                events.len() > 0 && (events.last() matches ServerEvent::TextDelta { text: t } && t@
                    == text@) && exists|mid: Seq<char>|
                    relayed_assistant(acc, blocks.drop_last(), events.drop_last(), mid) && after == if mid.len()
                        == 0 {
                        text@
                    } else {
                        mid + "\n"@ + text@
                    }
            } else {
                relayed_assistant(acc, blocks.drop_last(), events, after)
            },
            ContentBlock::ToolUse { name, input, .. } => events.len() > 0 && (events.last() matches ServerEvent::ToolUse {
                name: n,
                input: i,
            } && n@ == name@ && i@ == input@) && relayed_assistant(
                acc,
                blocks.drop_last(),
                events.drop_last(),
                after,
            ),
            _ => relayed_assistant(acc, blocks.drop_last(), events, after),
        }
    }
}

/// The text of a tool result's JSON content: the string itself when the
/// content is a JSON string.
pub uninterp spec fn json_string_value(text: Seq<char>) -> Option<Seq<char>>;

/// The string a JSON text encodes, if it encodes a string
/// (`serde_json::from_str::<String>`).
#[verifier::external_body]
fn decode_json_string(text: &str) -> (r: Option<String>)
    ensures
        match r {
            Some(s) => json_string_value(text@) == Some(s@),
            None => json_string_value(text@) is None,
        },
{
    serde_json::from_str::<String>(text).ok()
}

/// The string a JSON text encodes, if it encodes a string.
pub fn decode_json_string_pub(text: &str) -> (r: Option<String>)
    ensures
        match r {
            Some(s) => json_string_value(text@) == Some(s@),
            None => json_string_value(text@) is None,
        },
{
    decode_json_string(text)
}

/// The text shown for a tool result's content.
pub open spec fn shown_content(content: Seq<char>) -> Seq<char> {
    match json_string_value(content) {
        Some(s) => s,
        None => content,
    }
}

/// The preview of a tool result: its shown text cut at 500 bytes.
pub open spec fn result_preview(content: Seq<char>) -> Seq<char> {
    ellipsized(shown_content(content), 500)
}

/// Tool results whose preview can be cut: short enough, or with a
/// character boundary at byte 500.
pub open spec fn previewable(content: Seq<char>) -> bool {
    utf8_len(shown_content(content)) <= 500 || is_boundary(shown_content(content), 500)
}

/// The preview of a tool result's content (JSON text).
pub fn tool_result_preview(content: &str) -> (r: String)
    requires
        previewable(content@),
    ensures
        r@ == result_preview(content@),
{
    match decode_json_string(content) {
        Some(s) => truncate_text(s.as_str(), 500),
        None => truncate_text(content, 500),
    }
}

/// The preview of a tool result's content, or `None` when its shown text
/// has no character boundary at byte 500 (where it cannot be cut).
pub fn try_tool_result_preview(content: &str) -> (r: Option<String>)
    ensures
        r is Some <==> previewable(content@),
        r matches Some(p) ==> p@ == result_preview(content@),
{
    let shown = match decode_json_string(content) {
        Some(s) => s,
        None => content.to_owned(),
    };
    if crate::text::fits_in_bytes(shown.as_str(), 500) {
        return Some(truncate_text(shown.as_str(), 500));
    }
    if crate::text::byte_boundary_at(shown.as_str(), 500) {
        Some(truncate_text(shown.as_str(), 500))
    } else {
        None
    }
}

/// Relays the messages of one running query to the client.
pub struct StreamRelay {
    reply: String,
}

impl View for StreamRelay {
    type V = Seq<char>;

    closed spec fn view(&self) -> Seq<char> {
        self.reply@
    }
}

impl StreamRelay {
    /// A relay with no reply text yet.
    pub fn new() -> (r: StreamRelay)
        ensures
            r@ == Seq::<char>::empty(),
    {
        StreamRelay { reply: String::new() }
    }

    /// The reply text gathered so far.
    pub fn reply(&self) -> (t: &str)
        ensures
            t@ == self@,
    {
        self.reply.as_str()
    }

    /// Relay the blocks of an assistant message.
    pub fn on_assistant(&mut self, blocks: &Vec<ContentBlock>) -> (events: Vec<ServerEvent>)
        ensures
            relayed_assistant(old(self)@, blocks@, events@, final(self)@),
    {
        let ghost a0 = self@;
        let mut events: Vec<ServerEvent> = Vec::new();
        let mut i: usize = 0;
        while i < blocks.len()
            invariant
                0 <= i <= blocks@.len(),
                relayed_assistant(a0, blocks@.take(i as int), events@, self@),
            decreases blocks@.len() - i,
        {
            let ghost e0 = events@;
            let ghost r0 = self@;
            proof {
                assert(blocks@.take(i + 1).drop_last() =~= blocks@.take(i as int));
                reveal_strlit("\n");
            }
            match &blocks[i] {
                ContentBlock::Text { text } => {
                    if !text.as_str().is_empty() {
                        if !self.reply.as_str().is_empty() {
                            push_char(&mut self.reply, '\n');
                        }
                        push_str(&mut self.reply, text.as_str());
                        events.push(ServerEvent::TextDelta { text: text.clone() });
                        proof {
                            assert(events@.drop_last() =~= e0);
                            assert(self@ =~= (if r0.len() == 0 {
                                text@
                            } else {
                                r0 + "\n"@ + text@
                            }));
                        }
                    }
                },
                ContentBlock::ToolUse { name, input, .. } => {
                    events.push(ServerEvent::ToolUse { name: name.clone(), input: input.clone() });
                    proof {
                        assert(events@.drop_last() =~= e0);
                    }
                },
                _ => {},
            }
            i = i + 1;
        }
        proof {
            assert(blocks@.take(i as int) =~= blocks@);
        }
        events
    }

    /// The final result arrived: its text is the reply when no text came
    /// before. Returns the end-of-stream event.
    pub fn on_result(
        &mut self,
        session_id: &str,
        result: Option<String>,
        num_turns: u32,
        input_tokens: u64,
        output_tokens: u64,
        is_error: bool,
        errors: Vec<String>,
    ) -> (e: ServerEvent)
        ensures
            final(self)@ == (if old(self)@.len() == 0 && result is Some {
                result.unwrap()@
            } else {
                old(self)@
            }),
            e matches ServerEvent::StreamEnd { session_id: s, num_turns: n, input_tokens: it, output_tokens: ot, is_error: ie, errors: es }
                && s@ == session_id@ && n == num_turns && it == input_tokens && ot == output_tokens
                && ie == is_error && es == errors,
    {
        if self.reply.as_str().is_empty() {
            if let Some(t) = result {
                self.reply = t;
            }
        }
        ServerEvent::StreamEnd {
            session_id: session_id.to_owned(),
            num_turns,
            input_tokens,
            output_tokens,
            is_error,
            errors,
        }
    }
}

} // verus!
