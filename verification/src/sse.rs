//! Server-sent events: the line framing of a byte stream decoded as text,
//! and the `data:` payload of a line.

use vstd::prelude::*;

use crate::text::{chars_of, push_str, string_of_range};

verus! {

/// The characters with the Unicode `White_Space` property (what
/// `char::is_whitespace` tests, and `str::trim` removes).
pub open spec fn is_unicode_whitespace(c: char) -> bool {
    ||| ('\u{9}' <= c && c <= '\u{d}')
    ||| c == ' '
    ||| c == '\u{85}'
    ||| c == '\u{a0}'
    ||| c == '\u{1680}'
    ||| ('\u{2000}' <= c && c <= '\u{200a}')
    ||| c == '\u{2028}'
    ||| c == '\u{2029}'
    ||| c == '\u{202f}'
    ||| c == '\u{205f}'
    ||| c == '\u{3000}'
}

fn whitespace(c: char) -> (r: bool)
    ensures
        r == is_unicode_whitespace(c),
{
    ('\u{9}' <= c && c <= '\u{d}') || c == ' ' || c == '\u{85}' || c == '\u{a0}' || c == '\u{1680}'
        || ('\u{2000}' <= c && c <= '\u{200a}') || c == '\u{2028}' || c == '\u{2029}' || c
        == '\u{202f}' || c == '\u{205f}' || c == '\u{3000}'
}

/// Number of leading whitespace characters.
pub open spec fn lead_ws(s: Seq<char>) -> nat
    decreases s.len(),
{
    if s.len() > 0 && is_unicode_whitespace(s[0]) {
        1 + lead_ws(s.drop_first())
    } else {
        0
    }
}

/// Number of trailing whitespace characters.
pub open spec fn trail_ws(s: Seq<char>) -> nat
    decreases s.len(),
{
    if s.len() > 0 && is_unicode_whitespace(s.last()) {
        1 + trail_ws(s.drop_last())
    } else {
        0
    }
}

/// The text without leading and trailing whitespace.
pub open spec fn trimmed(s: Seq<char>) -> Seq<char> {
    let a = s.skip(lead_ws(s) as int);
    a.take(a.len() - trail_ws(a))
}

proof fn lemma_lead_ws(s: Seq<char>, k: int)
    requires
        0 <= k <= s.len(),
        forall|j: int| 0 <= j < k ==> is_unicode_whitespace(#[trigger] s[j]),
        k == s.len() || !is_unicode_whitespace(s[k]),
    ensures
        lead_ws(s) == k,
    decreases k,
{
    if k > 0 {
        lemma_lead_ws(s.drop_first(), k - 1);
    }
}

proof fn lemma_trail_ws(s: Seq<char>, k: int)
    requires
        0 <= k <= s.len(),
        forall|j: int| s.len() - k <= j < s.len() ==> is_unicode_whitespace(#[trigger] s[j]),
        k == s.len() || !is_unicode_whitespace(s[s.len() - k - 1]),
    ensures
        trail_ws(s) == k,
    decreases k,
{
    if k > 0 {
        lemma_trail_ws(s.drop_last(), k - 1);
    }
}

/// Trim whitespace at both ends (std's `str::trim`).
pub fn trim(s: &str) -> (r: String)
    ensures
        r@ == trimmed(s@),
{
    let chars = chars_of(s);
    let n = chars.len();
    let mut a: usize = 0;
    while a < n && whitespace(chars[a])
        invariant
            n == chars@.len(),
            chars@ == s@,
            0 <= a <= n,
            forall|j: int| 0 <= j < a ==> is_unicode_whitespace(#[trigger] chars@[j]),
        decreases n - a,
    {
        a = a + 1;
    }
    proof {
        lemma_lead_ws(s@, a as int);
    }
    let ghost rest = s@.skip(a as int);
    let mut b: usize = n;
    while b > a && whitespace(chars[b - 1])
        invariant
            n == chars@.len(),
            chars@ == s@,
            a <= b <= n,
            rest == s@.skip(a as int),
            forall|j: int| b <= j < n ==> is_unicode_whitespace(#[trigger] chars@[j]),
        decreases b - a,
    {
        b = b - 1;
    }
    proof {
        assert forall|j: int| rest.len() - (n - b) <= j < rest.len() implies is_unicode_whitespace(#[trigger] rest[j]) by {
            assert(rest[j] == chars@[a + j]);
        }
        if b > a {
            assert(rest[rest.len() - (n - b) - 1] == chars@[b - 1]);
        }
        lemma_trail_ws(rest, (n - b) as int);
    }
    let r = string_of_range(&chars, a, b);
    proof {
        assert(r@ =~= trimmed(s@));
    }
    r
}

/// The position of the first newline, if any.
pub open spec fn first_newline(s: Seq<char>) -> Option<int> {
    if exists|i: int| 0 <= i < s.len() && s[i] == '\n' {
        Some(choose|i: int| 0 <= i < s.len() && s[i] == '\n' && forall|j: int| 0 <= j < i ==> s[j] != '\n')
    } else {
        None
    }
}

/// Number of trailing carriage returns.
pub open spec fn trail_cr(s: Seq<char>) -> nat
    decreases s.len(),
{
    if s.len() > 0 && s.last() == '\r' {
        1 + trail_cr(s.drop_last())
    } else {
        0
    }
}

/// A line without its trailing carriage returns.
pub open spec fn without_cr(s: Seq<char>) -> Seq<char> {
    s.take(s.len() - trail_cr(s))
}

proof fn lemma_trail_cr(s: Seq<char>, k: int)
    requires
        0 <= k <= s.len(),
        forall|j: int| s.len() - k <= j < s.len() ==> #[trigger] s[j] == '\r',
        k == s.len() || s[s.len() - k - 1] != '\r',
    ensures
        trail_cr(s) == k,
    decreases k,
{
    if k > 0 {
        lemma_trail_cr(s.drop_last(), k - 1);
    }
}

/// Text received from a stream, not yet split into lines.
pub struct SseBuffer {
    buf: String,
}

impl View for SseBuffer {
    type V = Seq<char>;

    closed spec fn view(&self) -> Seq<char> {
        self.buf@
    }
}

impl SseBuffer {
    /// An empty buffer.
    pub fn new() -> (b: SseBuffer)
        ensures
            b@ == Seq::<char>::empty(),
    {
        SseBuffer { buf: String::new() }
    }

    /// Append received text.
    pub fn push(&mut self, text: &str)
        ensures
            final(self)@ == old(self)@ + text@,
    {
        push_str(&mut self.buf, text);
    }

    /// Take the next complete line (up to the first newline, without
    /// trailing carriage returns); `None` while no newline has arrived.
    pub fn next_line(&mut self) -> (r: Option<String>)
        ensures
            match first_newline(old(self)@) {
                Some(p) => r matches Some(l) && l@ == without_cr(old(self)@.take(p))
                    && final(self)@ == old(self)@.skip(p + 1),
                None => r is None && final(self)@ == old(self)@,
            },
    {
        let chars = chars_of(self.buf.as_str());
        let n = chars.len();
        let mut p: usize = 0;
        while p < n && chars[p] != '\n'
            invariant
                n == chars@.len(),
                chars@ == self@,
                0 <= p <= n,
                forall|j: int| 0 <= j < p ==> chars@[j] != '\n',
            decreases n - p,
        {
            p = p + 1;
        }
        if p == n {
            return None;
        }
        proof {
            let q = choose|i: int| 0 <= i < chars@.len() && chars@[i] == '\n' && forall|j: int| 0 <= j < i ==> chars@[j] != '\n';
            assert(chars@[p as int] == '\n');
            if q < p {
            } else if q > p {
                assert(chars@[p as int] != '\n');
            }
        }
        let mut e: usize = p;
        while e > 0 && chars[e - 1] == '\r'
            invariant
                n == chars@.len(),
                0 <= e <= p < n,
                forall|j: int| e <= j < p ==> #[trigger] chars@[j] == '\r',
            decreases e,
        {
            e = e - 1;
        }
        proof {
            let line = chars@.take(p as int);
            assert forall|j: int| line.len() - (p - e) <= j < line.len() implies #[trigger] line[j] == '\r' by {
                assert(line[j] == chars@[j]);
            }
            lemma_trail_cr(line, (p - e) as int);
        }
        let line = string_of_range(&chars, 0, e);
        let rest = string_of_range(&chars, p + 1, n);
        proof {
            assert(line@ =~= without_cr(chars@.take(p as int)));
            assert(rest@ =~= chars@.skip(p + 1));
        }
        self.buf = rest;
        Some(line)
    }
}

/// The payload of a `data:` line, trimmed; `None` for empty lines,
/// comments (`:`) and other fields.
pub open spec fn data_payload(line: Seq<char>) -> Option<Seq<char>> {
    if line.len() >= 5 && line.take(5) == "data:"@ {
        Some(trimmed(line.skip(5)))
    } else {
        None
    }
}

/// The payload of an SSE line, if it is a `data:` line.
pub fn sse_data(line: &str) -> (r: Option<String>)
    ensures
        match data_payload(line@) {
            Some(d) => r matches Some(s) && s@ == d,
            None => r is None,
        },
{
    let chars = chars_of(line);
    proof {
        reveal_strlit("data:");
    }
    if chars.len() < 5 {
        return None;
    }
    if !(chars[0] == 'd' && chars[1] == 'a' && chars[2] == 't' && chars[3] == 'a' && chars[4]
        == ':') {
        proof {
            if line@.take(5) == "data:"@ {
                assert(line@.take(5)[0] == 'd');
                assert(line@.take(5)[1] == 'a');
                assert(line@.take(5)[2] == 't');
                assert(line@.take(5)[3] == 'a');
                assert(line@.take(5)[4] == ':');
            }
        }
        return None;
    }
    proof {
        assert(line@.take(5) =~= "data:"@);
    }
    let rest = string_of_range(&chars, 5, chars.len());
    proof {
        assert(rest@ =~= line@.skip(5));
    }
    Some(trim(rest.as_str()))
}

} // verus!
