//! Tool result sanitization: a pass applied to every tool result before it
//! enters the conversation. Base64 data URIs and hex blobs are replaced by
//! short placeholders, and the result is cut at a byte limit on a character
//! boundary.

use vstd::prelude::*;

use crate::compact::{lemma_truncate_bytes, truncate_bytes};
use crate::text::{
    boundary_index, is_boundary, lemma_boundary_unique, chars_of, char_byte_len, decimal, fits_prefix, fitting_prefix, lemma_utf8_len_take_mono,
    lemma_utf8_len_take_step, lemma_utf8_len_take_strict, push_char, push_str, string_of_range,
    u128_to_decimal, u64_to_decimal, utf8_len, utf8_total,
};

verus! {

/// Default maximum tool result size in bytes.
pub const DEFAULT_MAX_TOOL_RESULT_BYTES: usize = 50000;

/// Data URIs with a base64 payload of at least 200 characters.
pub const BASE64_DATA_URI_PATTERN: &'static str = "data:[^;]+;base64,[A-Za-z0-9+/=]{200,}";

/// Hex sequences (optionally prefixed with `0x`) of at least 200 characters.
pub const HEX_BLOB_PATTERN: &'static str = "(?:0x)?[0-9a-fA-F]{200,}";

/// Byte spans of the successive non-overlapping matches of `pattern` in
/// `text`, or `None` when the pattern does not compile.
pub uninterp spec fn regex_match_spans(pattern: Seq<char>, text: Seq<char>) -> Option<Seq<(usize, usize)>>;

/// Spans that lie on character boundaries, each not reversed, and each
/// ending at or before the start of the next.
pub open spec fn spans_ordered(text: Seq<char>, spans: Seq<(usize, usize)>) -> bool {
    &&& forall|i: int|
        0 <= i < spans.len() ==> (#[trigger] spans[i]).0 <= spans[i].1 && is_boundary(text, spans[i].0 as int)
            && is_boundary(text, spans[i].1 as int)
    &&& forall|i: int, j: int| 0 <= i < j < spans.len() ==> (#[trigger] spans[i]).1 <= (#[trigger] spans[j]).0
}

pub open spec fn opt_spans(r: Option<Vec<(usize, usize)>>) -> Option<Seq<(usize, usize)>> {
    match r {
        Some(v) => Some(v@),
        None => None,
    }
}

/// The byte spans of all non-overlapping matches of a regular expression
/// (`regex::Regex::new`, then `find_iter` with `Match::start` and
/// `Match::end`). The crate documents that matches come in order without
/// overlapping, with `start <= end` on UTF-8 code point boundaries.
#[verifier::external_body]
fn find_spans(pattern: &str, text: &str) -> (r: Option<Vec<(usize, usize)>>)
    ensures
        opt_spans(r) == regex_match_spans(pattern@, text@),
        r matches Some(v) ==> spans_ordered(text@, v@),
{
    match regex::Regex::new(pattern) {
        Ok(re) => Some(re.find_iter(text).map(|m| (m.start(), m.end())).collect()),
        Err(_) => None,
    }
}

/// The text from character `pos` on, with the spans from the `i`-th on
/// replaced by `prefix`, the span's byte length in decimal, and `suffix`.
pub open spec fn replace_from(
    text: Seq<char>,
    spans: Seq<(usize, usize)>,
    i: int,
    pos: int,
    prefix: Seq<char>,
    suffix: Seq<char>,
) -> Seq<char>
    decreases spans.len() - i,
{
    if i < 0 || i >= spans.len() {
        text.subrange(pos, text.len() as int)
    } else {
        let ks = boundary_index(text, spans[i].0 as int);
        let ke = boundary_index(text, spans[i].1 as int);
        text.subrange(pos, ks) + prefix + decimal((spans[i].1 - spans[i].0) as nat) + suffix
            + replace_from(text, spans, i + 1, ke, prefix, suffix)
    }
}

/// The text with every match of `pattern` replaced by its placeholder; the
/// text itself when the pattern does not compile.
pub open spec fn stripped(text: Seq<char>, pattern: Seq<char>, prefix: Seq<char>, suffix: Seq<char>) -> Seq<char> {
    match regex_match_spans(pattern, text) {
        Some(spans) => replace_from(text, spans, 0, 0, prefix, suffix),
        None => text,
    }
}

/// A text cut at `max` bytes: unchanged when it fits, else the longest
/// fitting prefix and a note with the cut point and the full size.
pub open spec fn cut_at(s: Seq<char>, max: int) -> Seq<char> {
    if utf8_len(s) <= max {
        s
    } else {
        let kept = truncate_bytes(s, max);
        kept + "\n[Output truncated at "@ + decimal(utf8_len(kept)) + " bytes, "@ + decimal(utf8_len(s))
            + " total]"@
    }
}

proof fn lemma_fits_prefix_exists(s: Seq<char>, max: int)
    requires
        max >= 0,
    ensures
        exists|k: int| fits_prefix(s, max, k),
    decreases s.len(),
{
    if utf8_len(s) <= max {
        assert(s.take(s.len() as int) =~= s);
        assert(fits_prefix(s, max, s.len() as int));
    } else {
        let p = s.drop_last();
        lemma_fits_prefix_exists(p, max);
        let k = choose|k: int| fits_prefix(p, max, k);
        assert(p.take(k) =~= s.take(k));
        if k < p.len() {
            assert(p.take(k + 1) =~= s.take(k + 1));
            assert(fits_prefix(s, max, k));
        } else {
            assert(s.take(k + 1) =~= s);
            assert(fits_prefix(s, max, k));
        }
    }
}

/// A text over the limit is cut to the longest prefix that fits in the
/// limit, followed by the note; a text within the limit is left as it is.
pub proof fn lemma_cut_fits(s: Seq<char>, max: int)
    requires
        max >= 0,
    ensures
        utf8_len(s) <= max ==> cut_at(s, max) == s,
        utf8_len(s) > max ==> ({
            let kept = truncate_bytes(s, max);
            &&& kept.len() < s.len()
            &&& kept == s.take(kept.len() as int)
            &&& utf8_len(kept) <= max
            &&& cut_at(s, max).take(kept.len() as int) == kept
        }),
{
    if utf8_len(s) > max {
        lemma_fits_prefix_exists(s, max);
        let k = choose|k: int| fits_prefix(s, max, k);
        lemma_truncate_bytes(s, max, k);
        let kept = truncate_bytes(s, max);
        assert(kept.len() == k);
        let c = cut_at(s, max);
        assert(c.take(k) =~= kept);
    }
}

/// The sanitized form of a tool result.
pub open spec fn sanitized(content: Seq<char>, max_bytes: int) -> Seq<char> {
    let a = stripped(content, BASE64_DATA_URI_PATTERN@, "[data URI removed, "@, " bytes]"@);
    let b = stripped(a, HEX_BLOB_PATTERN@, "[hex blob removed, "@, " chars]"@);
    cut_at(b, max_bytes)
}

/// Advance `pos` from a boundary at or before `off` to the boundary `off`,
/// copying the characters passed over to `out` when `copy` is set.
fn walk_to(
    chars: &Vec<char>,
    pos: &mut usize,
    bytes: &mut usize,
    off: usize,
    out: &mut String,
    copy: bool,
)
    requires
        *old(pos) <= chars@.len(),
        *old(bytes) == utf8_len(chars@.take(*old(pos) as int)),
        *old(bytes) <= off,
        is_boundary(chars@, off as int),
    ensures
        *final(pos) == boundary_index(chars@, off as int),
        *final(bytes) == off,
        *old(pos) <= *final(pos) <= chars@.len(),
        copy ==> final(out)@ == old(out)@ + chars@.subrange(*old(pos) as int, *final(pos) as int),
        !copy ==> final(out)@ == old(out)@,
{
    let ghost k0 = boundary_index(chars@, off as int);
    let ghost p0 = *pos;
    let ghost o0 = out@;
    let total_chars = chars.len();
    proof {
        if k0 < p0 {
            lemma_utf8_len_take_strict(chars@, k0, p0 as int);
        }
    }
    while *bytes < off
        invariant
            chars@.len() == total_chars,
            0 <= k0 <= chars@.len(),
            utf8_len(chars@.take(k0)) == off,
            p0 <= *pos <= k0,
            *bytes == utf8_len(chars@.take(*pos as int)),
            *bytes <= off,
            copy ==> out@ == o0 + chars@.subrange(p0 as int, *pos as int),
            !copy ==> out@ == o0,
        decreases k0 - *pos,
    {
        proof {
            assert(*pos < k0);
            lemma_utf8_len_take_step(chars@, *pos as int);
            lemma_utf8_len_take_mono(chars@, *pos as int + 1, k0);
        }
        let c = chars[*pos];
        let w = char_byte_len(c);
        if copy {
            push_char(out, c);
            proof {
                assert(out@ =~= o0 + chars@.subrange(p0 as int, *pos as int + 1));
            }
        }
        *bytes = *bytes + w;
        *pos = *pos + 1;
    }
    proof {
        lemma_boundary_unique(chars@, *pos as int, k0);
    }
}

/// Replace the given byte spans of `text` (in order, on character
/// boundaries) by `prefix`, the span's byte length in decimal, and `suffix`.
pub fn replace_spans(text: &str, spans: &Vec<(usize, usize)>, prefix: &str, suffix: &str) -> (r: String)
    requires
        spans_ordered(text@, spans@),
    ensures
        r@ == replace_from(text@, spans@, 0, 0, prefix@, suffix@),
{
    let chars = chars_of(text);
    let ghost t = text@;
    let mut out = String::new();
    let mut pos: usize = 0;
    let mut bytes: usize = 0;
    let mut i: usize = 0;
    proof {
        assert(chars@.take(0) =~= Seq::<char>::empty());
        assert(out@ + replace_from(t, spans@, 0, 0, prefix@, suffix@) =~= replace_from(
            t,
            spans@,
            0,
            0,
            prefix@,
            suffix@,
        ));
    }
    while i < spans.len()
        invariant
            chars@ == t,
            spans_ordered(t, spans@),
            0 <= i <= spans@.len(),
            pos <= chars@.len(),
            bytes == utf8_len(chars@.take(pos as int)),
            i < spans@.len() ==> bytes <= spans@[i as int].0,
            out@ + replace_from(t, spans@, i as int, pos as int, prefix@, suffix@) == replace_from(
                t,
                spans@,
                0,
                0,
                prefix@,
                suffix@,
            ),
        decreases spans@.len() - i,
    {
        let (s, e) = spans[i];
        let ghost out0 = out@;
        let ghost pos0 = pos as int;
        walk_to(&chars, &mut pos, &mut bytes, s, &mut out, true);
        let ghost ks = pos as int;
        let n = u64_to_decimal((e - s) as u64);
        push_str(&mut out, prefix);
        push_str(&mut out, n.as_str());
        push_str(&mut out, suffix);
        walk_to(&chars, &mut pos, &mut bytes, e, &mut out, false);
        proof {
            assert(out@ =~= out0 + t.subrange(pos0, ks) + prefix@ + decimal((e - s) as nat)
                + suffix@);
            if i + 1 < spans@.len() {
                assert(spans@[i as int].1 <= spans@[i + 1].0);
            }
            assert(out@ + replace_from(t, spans@, i + 1, pos as int, prefix@, suffix@) =~= out0
                + replace_from(t, spans@, i as int, pos0, prefix@, suffix@));
        }
        i = i + 1;
    }
    let rest = string_of_range(&chars, pos, chars.len());
    push_str(&mut out, rest.as_str());
    proof {
        assert(out@ =~= replace_from(t, spans@, 0, 0, prefix@, suffix@));
    }
    out
}

/// Replace every match of `pattern` in `text` by `prefix`, the match's byte
/// length and `suffix`.
fn strip_matches(text: &str, pattern: &str, prefix: &str, suffix: &str) -> (r: String)
    ensures
        r@ == stripped(text@, pattern@, prefix@, suffix@),
{
    let found = find_spans(pattern, text);
    match found {
        None => text.to_owned(),
        Some(spans) => replace_spans(text, &spans, prefix, suffix),
    }
}

/// Cut a text at `max_bytes` on a character boundary, with a note of the
/// cut point and the full size.
pub fn cut_text(s: String, max_bytes: usize) -> (r: String)
    ensures
        r@ == cut_at(s@, max_bytes as int),
{
    let chars = chars_of(s.as_str());
    let k = fitting_prefix(&chars, max_bytes);
    proof {
        lemma_truncate_bytes(s@, max_bytes as int, k as int);
    }
    if k == chars.len() {
        return s;
    }
    let total = utf8_total(&chars);
    let kept = string_of_range(&chars, 0, k);
    let ghost kv = kept@;
    proof {
        assert(kv =~= s@.take(k as int));
    }
    let kept_chars = chars_of(kept.as_str());
    let boundary = utf8_total(&kept_chars);
    let mut r = kept;
    push_str(&mut r, "\n[Output truncated at ");
    let b = u128_to_decimal(boundary);
    push_str(&mut r, b.as_str());
    push_str(&mut r, " bytes, ");
    let t = u128_to_decimal(total);
    push_str(&mut r, t.as_str());
    push_str(&mut r, " total]");
    r
}

/// Sanitize a tool result: replace base64 data URIs and hex blobs of 200 or
/// more characters by placeholders giving their size, then cut the result
/// at `max_bytes` on a character boundary.
pub fn sanitize_tool_result(content: &str, max_bytes: usize) -> (r: String)
    ensures
        r@ == sanitized(content@, max_bytes as int),
{
    let a = strip_matches(content, BASE64_DATA_URI_PATTERN, "[data URI removed, ", " bytes]");
    let b = strip_matches(a.as_str(), HEX_BLOB_PATTERN, "[hex blob removed, ", " chars]");
    cut_text(b, max_bytes)
}

} // verus!
