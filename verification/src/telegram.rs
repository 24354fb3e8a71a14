//! Message shaping for the Telegram channel: MarkdownV2 escaping, cutting
//! and splitting of replies at Telegram's size limit, and the decisions of
//! the message handler.

use vstd::prelude::*;

use crate::messages::ContentBlock;
use crate::text::{
    boundary_index, byte_len, chars_of, char_byte_len, decimal, is_boundary, lemma_boundary_unique,
    lemma_utf8_len_take_mono, lemma_utf8_len_take_step, lemma_utf8_len_take_strict, push_char,
    push_str, str_eq, string_of_range, u64_to_decimal, utf8_len,
};

verus! {

/// Telegram's maximum message length in bytes.
pub const MAX_MSG_LEN: usize = 4096;

/// The characters that MarkdownV2 requires to be escaped.
pub open spec fn is_md_special(c: char) -> bool {
    c == '_' || c == '*' || c == '[' || c == ']' || c == '(' || c == ')' || c == '~' || c == '`'
        || c == '>' || c == '#' || c == '+' || c == '-' || c == '=' || c == '|' || c == '{' || c
        == '}' || c == '.' || c == '!'
}

/// The text with a backslash before every MarkdownV2 special character.
pub open spec fn escaped_md(s: Seq<char>) -> Seq<char>
    decreases s.len(),
{
    if s.len() == 0 {
        seq![]
    } else {
        escaped_md(s.drop_last()) + if is_md_special(s.last()) {
            seq!['\\', s.last()]
        } else {
            seq![s.last()]
        }
    }
}

/// Escape special characters for MarkdownV2.
pub fn escape_md(text: &str) -> (r: String)
    ensures
        r@ == escaped_md(text@),
{
    let chars = chars_of(text);
    let mut result = String::new();
    let mut i: usize = 0;
    while i < chars.len()
        invariant
            0 <= i <= chars@.len(),
            chars@ == text@,
            result@ == escaped_md(chars@.take(i as int)),
        decreases chars@.len() - i,
    {
        let c = chars[i];
        let special = c == '_' || c == '*' || c == '[' || c == ']' || c == '(' || c == ')' || c
            == '~' || c == '`' || c == '>' || c == '#' || c == '+' || c == '-' || c == '=' || c
            == '|' || c == '{' || c == '}' || c == '.' || c == '!';
        if special {
            push_char(&mut result, '\\');
        }
        push_char(&mut result, c);
        proof {
            assert(chars@.take(i + 1).drop_last() =~= chars@.take(i as int));
        }
        i = i + 1;
    }
    proof {
        assert(chars@.take(i as int) =~= chars@);
    }
    result
}

/// A reply cut for display while it streams: unchanged when it fits the
/// limit, else its first 4093 bytes and `...`.
pub open spec fn cut_for_telegram(s: Seq<char>) -> Seq<char> {
    if utf8_len(s) <= MAX_MSG_LEN {
        s
    } else {
        s.take(boundary_index(s, MAX_MSG_LEN - 3)) + "..."@
    }
}

/// Cut text to Telegram's limit for display while streaming (no markdown).
/// A text over the limit must have a character boundary at byte 4093.
pub fn truncate_for_telegram(text: &str) -> (r: String)
    requires
        utf8_len(text@) <= MAX_MSG_LEN || is_boundary(text@, MAX_MSG_LEN - 3),
    ensures
        r@ == cut_for_telegram(text@),
{
    let chars = chars_of(text);
    let (whole, _w) = fit_from(&chars, 0, MAX_MSG_LEN);
    proof {
        assert(chars@.skip(0) =~= chars@);
    }
    if whole == chars.len() {
        proof {
            assert(chars@.take(whole as int) =~= chars@);
        }
        return text.to_owned();
    }
    proof {
        lemma_utf8_len_take_mono(chars@, whole + 1, chars@.len() as int);
        assert(chars@.take(chars@.len() as int) =~= chars@);
    }
    let (k, used) = fit_from(&chars, 0, MAX_MSG_LEN - 3);
    proof {
        let k0 = boundary_index(text@, MAX_MSG_LEN - 3);
        if k < chars@.len() {
            if k0 > k {
                lemma_utf8_len_take_mono(chars@, k + 1, k0);
            }
        }
        if k0 < k {
            lemma_utf8_len_take_strict(chars@, k0, k as int);
        }
        lemma_boundary_unique(chars@, k as int, k0);
    }
    let mut r = string_of_range(&chars, 0, k);
    push_str(&mut r, "...");
    proof {
        assert(chars@.subrange(0, k as int) =~= chars@.take(k as int));
    }
    r
}

/// The position of the last newline among the first `k` characters.
pub open spec fn last_newline_before(s: Seq<char>, k: int) -> Option<int>
    decreases k,
{
    if k <= 0 {
        None
    } else if s[k - 1] == '\n' {
        Some(k - 1)
    } else {
        last_newline_before(s, k - 1)
    }
}

/// Where a long text is split: at the last newline within the first `max`
/// bytes, else right after those bytes.
pub open spec fn split_point(r: Seq<char>, max: int) -> int {
    let k = boundary_index(r, max);
    match last_newline_before(r, k) {
        Some(i) => i,
        None => k,
    }
}

/// What remains after a split: the newline split on is dropped.
pub open spec fn after_split(r: Seq<char>, sp: int) -> Seq<char> {
    let rest = r.skip(sp);
    if rest.len() > 0 && rest[0] == '\n' {
        rest.skip(1)
    } else {
        rest
    }
}

/// Texts that the splitter can take apart: every remainder over the limit
/// has a character boundary at the limit, and every split makes progress.
pub open spec fn splittable(r: Seq<char>, max: int) -> bool
    decreases r.len(),
{
    if r.len() == 0 || utf8_len(r) <= max {
        true
    } else {
        let sp = split_point(r, max);
        let rest = after_split(r, sp);
        &&& is_boundary(r, max)
        &&& 0 <= sp <= r.len()
        &&& rest.len() < r.len()
        &&& splittable(rest, max)
    }
}

/// The chunks of a remainder.
pub open spec fn chunks_of(r: Seq<char>, max: int) -> Seq<Seq<char>>
    decreases r.len(),
{
    if r.len() == 0 {
        seq![]
    } else if utf8_len(r) <= max {
        seq![r]
    } else {
        let sp = split_point(r, max);
        let rest = after_split(r, sp);
        if 0 <= sp <= r.len() && rest.len() < r.len() {
            seq![r.take(sp)] + chunks_of(rest, max)
        } else {
            seq![r]
        }
    }
}

/// The chunks a message is split into: the text itself when it fits.
pub open spec fn message_chunks(text: Seq<char>, max: int) -> Seq<Seq<char>> {
    if utf8_len(text) <= max {
        seq![text]
    } else {
        chunks_of(text, max)
    }
}

pub open spec fn strings_view(v: Seq<String>) -> Seq<Seq<char>> {
    v.map_values(|s: String| s@)
}

proof fn lemma_last_newline_range(s: Seq<char>, k: int)
    requires
        0 <= k <= s.len(),
    ensures
        last_newline_before(s, k) matches Some(i) ==> 0 <= i < k && s[i] == '\n',
    decreases k,
{
    if k > 0 && s[k - 1] != '\n' {
        lemma_last_newline_range(s, k - 1);
    }
}

proof fn lemma_chunks_of_fit(r: Seq<char>, max: int)
    requires
        splittable(r, max),
        max >= 0,
    ensures
        forall|i: int| 0 <= i < chunks_of(r, max).len() ==> utf8_len(#[trigger] chunks_of(r, max)[i]) <= max,
    decreases r.len(),
{
    if r.len() == 0 || utf8_len(r) <= max {
    } else {
        let sp = split_point(r, max);
        let rest = after_split(r, sp);
        let k = boundary_index(r, max);
        assert(0 <= k <= r.len() && utf8_len(r.take(k)) == max);
        lemma_last_newline_range(r, k);
        assert(sp <= k);
        lemma_utf8_len_take_mono(r, sp, k);
        lemma_chunks_of_fit(rest, max);
        let cs = chunks_of(r, max);
        assert(cs == seq![r.take(sp)] + chunks_of(rest, max));
        assert forall|i: int| 0 <= i < cs.len() implies utf8_len(#[trigger] cs[i]) <= max by {
            if i > 0 {
                assert(cs[i] == chunks_of(rest, max)[i - 1]);
            }
        }
    }
}

/// Every chunk a message is split into fits in the limit.
pub proof fn lemma_message_chunks_fit(text: Seq<char>, max: int)
    requires
        splittable(text, max),
        max >= 0,
    ensures
        forall|i: int|
            0 <= i < message_chunks(text, max).len() ==> utf8_len(#[trigger] message_chunks(text, max)[i]) <= max,
{
    if utf8_len(text) > max {
        lemma_chunks_of_fit(text, max);
    }
}

/// How many leading characters of `chars[start..]` fit in `max` bytes, and
/// their byte count.
fn fit_from(chars: &Vec<char>, start: usize, max: usize) -> (res: (usize, usize))
    requires
        start <= chars@.len(),
    ensures
        ({
            let r = chars@.skip(start as int);
            let (k, used) = res;
            &&& 0 <= k <= r.len()
            &&& used == utf8_len(r.take(k as int))
            &&& used <= max
            &&& (k < r.len() ==> utf8_len(r.take(k + 1)) > max)
        }),
{
    let ghost r = chars@.skip(start as int);
    let mut k: usize = 0;
    let mut used: usize = 0;
    let n = chars.len();
    while start + k < n
        invariant
            n == chars@.len(),
            start <= chars@.len(),
            r == chars@.skip(start as int),
            0 <= k <= r.len(),
            start + k <= chars@.len(),
            used == utf8_len(r.take(k as int)),
            used <= max,
        decreases r.len() - k,
    {
        proof {
            lemma_utf8_len_take_step(r, k as int);
        }
        let w = char_byte_len(chars[start + k]);
        if w > max - used {
            return (k, used);
        }
        used = used + w;
        k = k + 1;
    }
    (k, used)
}

/// One split of the remainder `chars[start..]`, which is over the limit and
/// of which `k` characters (`used` bytes) fit: the split point and where the
/// next remainder starts, or `None` when the splitter cannot go on.
fn split_step(chars: &Vec<char>, start: usize, max_len: usize, k: usize, used: usize) -> (res: Option<(usize, usize)>)
    requires
        start < chars@.len(),
        ({
            let r = chars@.skip(start as int);
            &&& 0 <= k < r.len()
            &&& used == utf8_len(r.take(k as int))
            &&& used <= max_len
            &&& utf8_len(r.take(k + 1)) > max_len
        }),
    ensures
        ({
            let r = chars@.skip(start as int);
            let sp = split_point(r, max_len as int);
            &&& res is Some <==> (is_boundary(r, max_len as int) && 0 <= sp <= r.len() && after_split(
                r,
                sp,
            ).len() < r.len())
            &&& res matches Some((p, next)) ==> p == sp && start + p <= next <= chars@.len() && next
                > start && chars@.skip(next as int) == after_split(r, sp)
        }),
{
    let ghost r = chars@.skip(start as int);
    if used != max_len {
        proof {
            if is_boundary(r, max_len as int) {
                let kb = boundary_index(r, max_len as int);
                if kb <= k {
                    lemma_utf8_len_take_mono(r, kb, k as int);
                } else {
                    lemma_utf8_len_take_mono(r, k + 1, kb);
                }
            }
        }
        return None;
    }
    proof {
        assert(is_boundary(r, max_len as int)) by {
            assert(utf8_len(r.take(k as int)) == max_len);
        }
        lemma_boundary_unique(r, k as int, boundary_index(r, max_len as int));
    }
    let n = chars.len();
    let mut j: usize = k;
    let mut nl: Option<usize> = None;
    while j > 0 && nl.is_none()
        invariant
            n == chars@.len(),
            start + k < chars@.len(),
            r == chars@.skip(start as int),
            0 <= j <= k,
            nl is None ==> last_newline_before(r, k as int) == last_newline_before(r, j as int),
            nl matches Some(i) ==> last_newline_before(r, k as int) == Some(i as int),
        decreases j,
    {
        if chars[start + j - 1] == '\n' {
            nl = Some(j - 1);
        }
        j = j - 1;
    }
    let sp: usize = match nl {
        Some(i) => i,
        None => k,
    };
    proof {
        lemma_last_newline_range(r, k as int);
        assert(sp == split_point(r, max_len as int));
    }
    let mut next = start + sp;
    if next < chars.len() && chars[next] == '\n' {
        next = next + 1;
    }
    proof {
        assert(after_split(r, sp as int) =~= chars@.skip(next as int));
    }
    if next == start {
        return None;
    }
    Some((sp, next))
}

/// Split a message into chunks that fit Telegram's limit, preferring line
/// boundaries; `None` for texts that cannot be split that way (no character
/// boundary at the limit, or no progress).
pub fn try_split_message(text: &str, max_len: usize) -> (r: Option<Vec<String>>)
    ensures
        r is Some <==> splittable(text@, max_len as int),
        r matches Some(v) ==> strings_view(v@) == message_chunks(text@, max_len as int),
{
    let chars = chars_of(text);
    let ghost t = text@;
    let n = chars.len();
    let (k0, _u0) = fit_from(&chars, 0, max_len);
    proof {
        assert(chars@.skip(0) =~= chars@);
    }
    if k0 == n {
        proof {
            assert(t.take(k0 as int) =~= t);
        }
        let mut v: Vec<String> = Vec::new();
        v.push(text.to_owned());
        proof {
            assert(strings_view(v@) =~= seq![t]);
        }
        return Some(v);
    }
    proof {
        lemma_utf8_len_take_mono(t, k0 + 1, t.len() as int);
        assert(t.take(t.len() as int) =~= t);
    }
    let mut chunks: Vec<String> = Vec::new();
    let mut start: usize = 0;
    while start < n
        invariant
            t == text@,
            chars@ == t,
            n == chars@.len(),
            0 <= start <= chars@.len(),
            strings_view(chunks@) + chunks_of(t.skip(start as int), max_len as int) == chunks_of(
                t,
                max_len as int,
            ),
            splittable(t, max_len as int) == splittable(t.skip(start as int), max_len as int),
            utf8_len(t) > max_len,
        decreases chars@.len() - start,
    {
        let ghost r = t.skip(start as int);
        let ghost c0 = strings_view(chunks@);
        let (k, used) = fit_from(&chars, start, max_len);
        if start + k == n {
            proof {
                assert(r.take(k as int) =~= r);
            }
            let last = string_of_range(&chars, start, n);
            chunks.push(last);
            proof {
                assert(last@ =~= r);
                assert(strings_view(chunks@) =~= c0.push(r));
                assert(t.skip(n as int) =~= Seq::<char>::empty());
                assert(strings_view(chunks@) + chunks_of(t.skip(n as int), max_len as int) =~= c0
                    + chunks_of(r, max_len as int));
            }
            start = n;
        } else {
            proof {
                lemma_utf8_len_take_mono(r, k + 1, r.len() as int);
                assert(r.take(r.len() as int) =~= r);
            }
            match split_step(&chars, start, max_len, k, used) {
                None => {
                    proof {
                        assert(utf8_len(r) > max_len);
                        assert(!splittable(r, max_len as int));
                    }
                    return None;
                },
                Some((sp, next)) => {
                    let chunk = string_of_range(&chars, start, start + sp);
                    chunks.push(chunk);
                    proof {
                        assert(chunk@ =~= r.take(sp as int));
                        assert(strings_view(chunks@) =~= c0.push(r.take(sp as int)));
                        assert(strings_view(chunks@) + chunks_of(t.skip(next as int), max_len as int)
                            =~= c0 + chunks_of(r, max_len as int));
                    }
                    start = next;
                },
            }
        }
    }
    proof {
        assert(t.skip(start as int) =~= Seq::<char>::empty());
        assert(strings_view(chunks@) + chunks_of(t.skip(start as int), max_len as int)
            =~= strings_view(chunks@));
    }
    Some(chunks)
}

/// Split a message into chunks that fit Telegram's limit, preferring line
/// boundaries. The text must be splittable (see `try_split_message`).
pub fn split_message(text: &str, max_len: usize) -> (r: Vec<String>)
    requires
        splittable(text@, max_len as int),
    ensures
        strings_view(r@) == message_chunks(text@, max_len as int),
{
    match try_split_message(text, max_len) {
        Some(v) => v,
        None => {
            proof {
                assert(false);
            }
            Vec::new()
        },
    }
}

/// What the bot does with an incoming message.
#[derive(Debug)]
pub enum TelegramAction {
    /// Not a text message: nothing to do.
    Ignore,
    /// `/start`: greet, in MarkdownV2, or in plain text when that fails.
    Greet { markdown: String, plain: String },
    /// A user off the allow-list: answer with this text.
    Reject { text: String },
    /// Answer by editing a placeholder as the reply streams in.
    Stream,
    /// Answer once the full reply is there.
    Blocking,
}

/// The answer to users who are not on the allow-list.
pub const UNAUTHORIZED_REPLY: &'static str =
    "Sorry, you're not authorized to use this bot. Ask the bot owner to add your user ID to the allow-list.";

/// The MarkdownV2 greeting.
pub open spec fn greeting_markdown(name: Seq<char>, user_id: Option<u64>) -> Seq<char> {
    "Hello\\! I'm "@ + escaped_md(name) + ", your personal AI assistant\\."@ + match user_id {
        Some(id) => "\n\nYour user ID: `"@ + decimal(id as nat) + "`"@
            + "\nAdd this to `\\[telegram\\] allowed_users` in your config to start chatting\\."@,
        None => seq![],
    }
}

/// The plain-text greeting.
pub open spec fn greeting_plain(name: Seq<char>, user_id: Option<u64>) -> Seq<char> {
    "Hello! I'm "@ + name + ", your personal AI assistant.\n\nYour user ID: "@ + match user_id {
        Some(id) => decimal(id as nat),
        None => seq![],
    } + "\nAdd this to [telegram] allowed_users in your config to start chatting."@
}

/// The action for a message with text `text` (`None` when it has none)
/// from user `user_id`.
pub open spec fn action_for(
    text: Option<Seq<char>>,
    user_id: Option<u64>,
    allowed: Seq<u64>,
    stream_mode: Seq<char>,
    name: Seq<char>,
    a: TelegramAction,
) -> bool {
    match text {
        None => a is Ignore,
        Some(t) => if t == "/start"@ {
            a matches TelegramAction::Greet { markdown, plain } && markdown@ == greeting_markdown(
                name,
                user_id,
            ) && plain@ == greeting_plain(name, user_id)
        } else if !(user_id matches Some(id) && allowed.contains(id)) {
            a matches TelegramAction::Reject { text } && text@ == UNAUTHORIZED_REPLY@
        } else if stream_mode == "edit_in_place"@ {
            a is Stream
        } else {
            a is Blocking
        },
    }
}

fn contains_id(allowed: &Vec<u64>, id: u64) -> (r: bool)
    ensures
        r == allowed@.contains(id),
{
    let mut i: usize = 0;
    while i < allowed.len()
        invariant
            0 <= i <= allowed@.len(),
            forall|j: int| 0 <= j < i ==> allowed@[j] != id,
        decreases allowed@.len() - i,
    {
        if allowed[i] == id {
            return true;
        }
        i = i + 1;
    }
    false
}

/// Decide what to do with an incoming message: `/start` always answers
/// with a greeting (and the sender's id, for setting up the allow-list);
/// other messages need the sender on the allow-list; the stream mode picks
/// streaming or blocking replies.
pub fn route_message(
    text: Option<&str>,
    user_id: Option<u64>,
    allowed: &Vec<u64>,
    stream_mode: &str,
    agent_name: &str,
) -> (a: TelegramAction)
    ensures
        action_for(
            match text {
                Some(t) => Some(t@),
                None => None,
            },
            user_id,
            allowed@,
            stream_mode@,
            agent_name@,
            a,
        ),
{
    let t = match text {
        Some(t) => t,
        None => {
            return TelegramAction::Ignore;
        },
    };
    if str_eq(t, "/start") {
        let mut markdown = String::new();
        push_str(&mut markdown, "Hello\\! I'm ");
        let esc = escape_md(agent_name);
        push_str(&mut markdown, esc.as_str());
        push_str(&mut markdown, ", your personal AI assistant\\.");
        let mut plain = String::new();
        push_str(&mut plain, "Hello! I'm ");
        push_str(&mut plain, agent_name);
        push_str(&mut plain, ", your personal AI assistant.\n\nYour user ID: ");
        match user_id {
            Some(id) => {
                let digits = u64_to_decimal(id);
                push_str(&mut markdown, "\n\nYour user ID: `");
                push_str(&mut markdown, digits.as_str());
                push_str(&mut markdown, "`");
                push_str(
                    &mut markdown,
                    "\nAdd this to `\\[telegram\\] allowed_users` in your config to start chatting\\.",
                );
                push_str(&mut plain, digits.as_str());
            },
            None => {},
        }
        push_str(&mut plain, "\nAdd this to [telegram] allowed_users in your config to start chatting.");
        proof {
            assert(markdown@ =~= greeting_markdown(agent_name@, user_id));
            assert(plain@ =~= greeting_plain(agent_name@, user_id));
        }
        return TelegramAction::Greet { markdown, plain };
    }
    let is_allowed = match user_id {
        Some(id) => contains_id(allowed, id),
        None => false,
    };
    if !is_allowed {
        return TelegramAction::Reject { text: UNAUTHORIZED_REPLY.to_owned() };
    }
    if str_eq(stream_mode, "edit_in_place") {
        TelegramAction::Stream
    } else {
        TelegramAction::Blocking
    }
}

/// The text of the text blocks, concatenated.
pub open spec fn text_of(blocks: Seq<ContentBlock>) -> Seq<char>
    decreases blocks.len(),
{
    if blocks.len() == 0 {
        seq![]
    } else {
        text_of(blocks.drop_last()) + match blocks.last() {
            ContentBlock::Text { text } => text@,
            _ => seq![],
        }
    }
}

/// A reply being streamed: the text gathered from the assistant messages.
pub struct StreamingReply {
    accumulated: String,
}

/// How a streamed reply ends.
#[derive(Debug)]
pub enum FinalReply {
    /// Nothing was said: the placeholder shows `(no response)`.
    NoResponse,
    /// The placeholder is edited to the full text.
    Edit { text: String },
    /// Too long for one message: the placeholder is deleted and these
    /// chunks are sent.
    Chunks { chunks: Vec<String> },
}

impl View for StreamingReply {
    type V = Seq<char>;

    closed spec fn view(&self) -> Seq<char> {
        self.accumulated@
    }
}

impl StreamingReply {
    /// A reply with no text yet.
    pub fn new() -> (r: StreamingReply)
        ensures
            r@ == Seq::<char>::empty(),
    {
        StreamingReply { accumulated: String::new() }
    }

    /// The text gathered so far.
    pub fn text(&self) -> (t: &str)
        ensures
            t@ == self@,
    {
        self.accumulated.as_str()
    }

    /// Add the text blocks of an assistant message.
    pub fn on_assistant(&mut self, blocks: &Vec<ContentBlock>)
        ensures
            final(self)@ == old(self)@ + text_of(blocks@),
    {
        let mut i: usize = 0;
        let ghost a0 = self@;
        while i < blocks.len()
            invariant
                0 <= i <= blocks@.len(),
                self@ == a0 + text_of(blocks@.take(i as int)),
            decreases blocks@.len() - i,
        {
            if let ContentBlock::Text { text } = &blocks[i] {
                push_str(&mut self.accumulated, text.as_str());
            }
            proof {
                assert(blocks@.take(i + 1).drop_last() =~= blocks@.take(i as int));
                assert(self@ =~= a0 + text_of(blocks@.take(i + 1)));
            }
            i = i + 1;
        }
        proof {
            assert(blocks@.take(i as int) =~= blocks@);
        }
    }

    /// The final result arrived: its text is the reply when no text came
    /// before.
    pub fn on_result(&mut self, result: Option<String>)
        ensures
            final(self)@ == (if old(self)@.len() == 0 && result is Some {
                result.unwrap()@
            } else {
                old(self)@
            }),
    {
        if self.accumulated.as_str().is_empty() {
            if let Some(t) = result {
                self.accumulated = t;
            }
        }
    }

    /// How the reply ends: `(no response)` when empty, an in-place edit when
    /// it fits one message, else the chunks to send. A reply over the limit
    /// must be splittable.
    pub fn finish(self) -> (f: FinalReply)
        requires
            utf8_len(self@) <= MAX_MSG_LEN || splittable(self@, MAX_MSG_LEN as int),
        ensures
            self@.len() == 0 ==> f is NoResponse,
            self@.len() > 0 && utf8_len(self@) <= MAX_MSG_LEN ==> (f matches FinalReply::Edit { text }
                && text@ == self@),
            utf8_len(self@) > MAX_MSG_LEN ==> (f matches FinalReply::Chunks { chunks }
                && strings_view(chunks@) == message_chunks(self@, MAX_MSG_LEN as int)),
    {
        if self.accumulated.as_str().is_empty() {
            return FinalReply::NoResponse;
        }
        if utf8_fits(self.accumulated.as_str()) {
            return FinalReply::Edit { text: self.accumulated };
        }
        match try_split_message(self.accumulated.as_str(), MAX_MSG_LEN) {
            Some(chunks) => FinalReply::Chunks { chunks },
            None => {
                proof {
                    assert(false);
                }
                FinalReply::NoResponse
            },
        }
    }
}

/// Whether a text fits in one Telegram message.
pub fn utf8_fits(text: &str) -> (r: bool)
    ensures
        r == (utf8_len(text@) <= MAX_MSG_LEN),
{
    let chars = chars_of(text);
    let (k, _u) = fit_from(&chars, 0, MAX_MSG_LEN);
    proof {
        assert(chars@.skip(0) =~= chars@);
        if k < chars@.len() {
            lemma_utf8_len_take_mono(chars@, k + 1, chars@.len() as int);
        }
        assert(chars@.take(chars@.len() as int) =~= chars@);
    }
    k == chars.len()
}

} // verus!
