//! The computing part of the built-in tools: path resolution, output
//! formatting, file edits and grep output shaping. Reading and writing files,
//! spawning processes and walking directories happen in the caller, which
//! hands the contents to these functions.

use vstd::prelude::*;
use base64::Engine;

use crate::text::{
    cat, chars_of, decimal, is_absolute, is_absolute_path, join_path, path_join, push_char,
    push_str, sort_texts, sorted_texts, str_eq, string_of_range, string_views, to_lowercase,
    u64_to_decimal, unicode_lowercase,
};

verus! {

/// Result of executing a tool. `raw_content`, when set, is the JSON text sent
/// as the tool-result content in place of `content`.
#[derive(Debug, Clone)]
pub struct ToolResult {
    pub content: String,
    pub is_error: bool,
    pub raw_content: Option<String>,
}

impl ToolResult {
    /// A successful result.
    pub fn ok(content: String) -> (r: ToolResult)
        ensures
            r.content == content,
            !r.is_error,
            r.raw_content is None,
    {
        ToolResult { content, is_error: false, raw_content: None }
    }

    /// An error result.
    pub fn err(content: String) -> (r: ToolResult)
        ensures
            r.content == content,
            r.is_error,
            r.raw_content is None,
    {
        ToolResult { content, is_error: true, raw_content: None }
    }
}

/// Executes the built-in tools relative to a working directory.
#[derive(Debug, Clone)]
pub struct ToolExecutor {
    pub cwd: String,
}

impl ToolExecutor {
    /// An executor rooted at `cwd`.
    pub fn new(cwd: String) -> (e: ToolExecutor)
        ensures
            e.cwd == cwd,
    {
        ToolExecutor { cwd }
    }

    /// Resolve a path against the working directory: absolute paths stay,
    /// relative ones are joined to the working directory.
    pub fn resolve_path(&self, path: &str) -> (p: String)
        ensures
            p@ == if is_absolute_path(path@) {
                path@
            } else {
                path_join(self.cwd@, path@)
            },
    {
        if is_absolute(path) {
            path.to_owned()
        } else {
            join_path(self.cwd.as_str(), path)
        }
    }
}

/// The extension of a path as `Path::extension` gives it.
pub uninterp spec fn std_path_extension(p: Seq<char>) -> Option<Seq<char>>;

/// std's `Path::extension`, lossily converted to text; the result is named
/// `std_path_extension`.
#[verifier::external_body]
fn path_extension(p: &str) -> (r: Option<String>)
    ensures
        match r {
            Some(s) => std_path_extension(p@) == Some(s@),
            None => std_path_extension(p@) is None,
        },
{
    std::path::Path::new(p).extension().map(|e| e.to_string_lossy().into_owned())
}

/// Image media type for a lowercased extension.
pub open spec fn image_media_type(ext: Seq<char>) -> Option<Seq<char>> {
    if ext == "png"@ {
        Some("image/png"@)
    } else if ext == "jpg"@ || ext == "jpeg"@ {
        Some("image/jpeg"@)
    } else if ext == "gif"@ {
        Some("image/gif"@)
    } else if ext == "webp"@ {
        Some("image/webp"@)
    } else {
        None
    }
}

/// The lowercased extension of a path, empty when it has none.
pub open spec fn lower_ext(p: Seq<char>) -> Seq<char> {
    unicode_lowercase(
        match std_path_extension(p) {
            Some(e) => e,
            None => Seq::empty(),
        },
    )
}

/// The lowercased extension of a path, empty when it has none.
pub fn path_extension_lowercase(path: &str) -> (r: String)
    ensures
        r@ == lower_ext(path@),
{
    let ext = match path_extension(path) {
        Some(e) => e,
        None => String::new(),
    };
    to_lowercase(ext.as_str())
}

/// The image media type a Read of this path produces, if it is an image.
pub fn media_type_for_path(path: &str) -> (r: Option<&'static str>)
    ensures
        match r {
            Some(m) => image_media_type(lower_ext(path@)) == Some(m@),
            None => image_media_type(lower_ext(path@)) is None,
        },
{
    let ext = match path_extension(path) {
        Some(e) => e,
        None => String::new(),
    };
    let lower = to_lowercase(ext.as_str());
    let l = lower.as_str();
    if str_eq(l, "png") {
        Some("image/png")
    } else if str_eq(l, "jpg") || str_eq(l, "jpeg") {
        Some("image/jpeg")
    } else if str_eq(l, "gif") {
        Some("image/gif")
    } else if str_eq(l, "webp") {
        Some("image/webp")
    } else {
        None
    }
}

/// The pieces of a text between `\n` characters (one more than there are
/// newlines).
pub open spec fn split_newlines(s: Seq<char>) -> Seq<Seq<char>>
    decreases s.len(),
{
    if s.len() == 0 {
        seq![Seq::empty()]
    } else {
        let p = split_newlines(s.drop_last());
        if s.last() == '\n' {
            p.push(Seq::empty())
        } else {
            p.update(p.len() - 1, p.last().push(s.last()))
        }
    }
}

proof fn lemma_split_newlines_nonempty(s: Seq<char>)
    ensures
        split_newlines(s).len() >= 1,
    decreases s.len(),
{
    if s.len() > 0 {
        lemma_split_newlines_nonempty(s.drop_last());
    }
}

/// A line without the `\r` of a `\r\n` ending.
pub open spec fn strip_cr(l: Seq<char>) -> Seq<char> {
    if l.len() > 0 && l.last() == '\r' {
        l.drop_last()
    } else {
        l
    }
}

/// Lines of a text as `str::lines` gives them: split at `\n`, a `\r` before
/// the `\n` dropped, and no empty last line after a final line ending.
pub open spec fn text_lines(s: Seq<char>) -> Seq<Seq<char>> {
    let pieces = split_newlines(s);
    let kept = if s.len() == 0 || s.last() == '\n' {
        pieces.drop_last()
    } else {
        pieces
    };
    Seq::new(kept.len(), |i: int| strip_cr(kept[i]))
}

/// Split a text into lines.
pub fn split_lines(text: &str) -> (lines: Vec<String>)
    ensures
        lines.deep_view() == text_lines(text@),
{
    let cs = chars_of(text);
    let mut lines: Vec<String> = Vec::new();
    let mut start: usize = 0;
    let mut i: usize = 0;
    let n = cs.len();
    while i < n
        invariant
            0 <= start <= i <= n,
            n == cs@.len(),
            cs@ == text@,
            split_newlines(cs@.take(i as int)).len() == lines@.len() + 1,
            split_newlines(cs@.take(i as int)).last() == cs@.subrange(start as int, i as int),
            forall|k: int| 0 <= k < lines@.len() ==> (#[trigger] lines@[k])@ == strip_cr(split_newlines(cs@.take(i as int))[k]),
        decreases n - i,
    {
        let ghost prev = split_newlines(cs@.take(i as int));
        proof {
            assert(cs@.take(i + 1).drop_last() =~= cs@.take(i as int));
            assert(cs@.take(i + 1).last() == cs@[i as int]);
        }
        if cs[i] == '\n' {
            let end = if i > start && cs[i - 1] == '\r' {
                i - 1
            } else {
                i
            };
            let line = string_of_range(&cs, start, end);
            proof {
                let t = cs@.subrange(start as int, i as int);
                if i > start && cs@[i - 1] == '\r' {
                    assert(line@ =~= t.drop_last());
                } else {
                    assert(line@ =~= t);
                }
            }
            lines.push(line);
            start = i + 1;
            proof {
                assert(cs@.subrange(start as int, (i + 1) as int) =~= Seq::<char>::empty());
            }
        } else {
            proof {
                assert(cs@.subrange(start as int, (i + 1) as int) =~= cs@.subrange(start as int, i as int).push(cs@[i as int]));
            }
        }
        i += 1;
    }
    proof {
        assert(cs@.take(n as int) =~= cs@);
    }
    let ghost pieces = split_newlines(cs@);
    if start < n {
        let line = string_of_range(&cs, start, n);
        proof {
            assert(cs@.last() != '\n') by {
                assert(cs@[n - 1] == cs@.subrange(start as int, n as int).last());
            }
            let t = cs@.subrange(start as int, n as int);
            assert(t.len() > 0);
            if t.last() == '\r' {
                // a final `\r` without `\n` stays, as in std.
            }
        }
        let fixed = if n > start && cs[n - 1] == '\r' {
            string_of_range(&cs, start, n - 1)
        } else {
            line
        };
        proof {
            let t = cs@.subrange(start as int, n as int);
            if n > start && cs@[n - 1] == '\r' {
                assert(fixed@ =~= t.drop_last());
            } else {
                assert(fixed@ =~= t);
            }
        }
        lines.push(fixed);
        proof {
            assert(lines.deep_view() =~= text_lines(text@));
        }
    } else {
        proof {
            assert(pieces.last().len() == 0);
            if n > 0 {
                assert(cs@.last() == '\n') by {
                    if cs@.last() != '\n' {
                        assert(cs@.take(n as int).drop_last() =~= cs@.take(n - 1));
                        let p = split_newlines(cs@.drop_last());
                        lemma_split_newlines_nonempty(cs@.drop_last());
                        assert(pieces.last() == p.last().push(cs@.last()));
                    }
                }
            }
            assert(lines.deep_view() =~= text_lines(text@));
        }
    }
    lines
}

/// `n` right-aligned in a field of `width` characters.
pub open spec fn right_aligned(n: nat, width: nat) -> Seq<char> {
    let d = decimal(n);
    if d.len() < width {
        Seq::new((width - d.len()) as nat, |i: int| ' ') + d
    } else {
        d
    }
}

/// One line of `cat -n` output.
pub open spec fn numbered_line(n: nat, width: nat, line: Seq<char>) -> Seq<char> {
    right_aligned(n, width) + seq!['\t'] + line + seq!['\n']
}

/// The slice of lines a Read shows: from `offset` up to `offset + limit`
/// (all lines when no limit), capped at the number of lines.
pub open spec fn read_end(total: nat, offset: nat, limit: Option<nat>) -> nat {
    match limit {
        Some(l) => if offset + l < total {
            offset + l
        } else {
            total
        },
        None => total,
    }
}

/// Output of a Read of a text file: empty when `offset` is past the end,
/// else the numbered lines from `offset`.
pub open spec fn read_output(lines: Seq<Seq<char>>, offset: nat, limit: Option<nat>) -> Seq<char> {
    if offset >= lines.len() {
        Seq::empty()
    } else {
        let end = read_end(lines.len(), offset, limit);
        numbered_lines_width(lines, offset, end, decimal(end).len())
    }
}

/// Numbered lines with a fixed width.
pub open spec fn numbered_lines_width(lines: Seq<Seq<char>>, from: nat, to: nat, width: nat) -> Seq<char>
    decreases to - from,
{
    if to <= from {
        Seq::empty()
    } else {
        numbered_lines_width(lines, from, (to - 1) as nat, width) + numbered_line(to, width, lines[to - 1])
    }
}

fn push_right_aligned(out: &mut String, n: u64, width: usize)
    ensures
        final(out)@ == old(out)@ + right_aligned(n as nat, width as nat),
{
    let d = u64_to_decimal(n);
    let dc = chars_of(d.as_str());
    let mut pad: usize = 0;
    let missing: usize = if dc.len() < width {
        width - dc.len()
    } else {
        0
    };
    let ghost start = out@;
    while pad < missing
        invariant
            0 <= pad <= missing,
            out@ == start + Seq::new(pad as nat, |i: int| ' '),
        decreases missing - pad,
    {
        push_char(out, ' ');
        assert(out@ =~= start + Seq::new((pad + 1) as nat, |i: int| ' '));
        pad += 1;
    }
    push_str(out, d.as_str());
    proof {
        if dc@.len() >= width {
            assert(out@ =~= start + decimal(n as nat));
        } else {
            assert(out@ =~= start + right_aligned(n as nat, width as nat));
        }
    }
}

/// `cat -n` style output of a Read, given the lines of the file.
pub fn format_read_output(lines: &Vec<String>, offset: u64, limit: Option<u64>) -> (out: String)
    ensures
        out@ == read_output(
            lines.deep_view(),
            offset as nat,
            match limit {
                Some(l) => Some(l as nat),
                None => None,
            },
        ),
{
    let total = lines.len();
    if offset >= total as u64 {
        return String::new();
    }
    let off = offset as usize;
    let end: usize = match limit {
        Some(l) => if l < (total - off) as u64 {
            off + l as usize
        } else {
            total
        },
        None => total,
    };
    let width = chars_of(u64_to_decimal(end as u64).as_str()).len();
    let mut out = String::new();
    let mut k: usize = off;
    while k < end
        invariant
            off <= k <= end,
            end <= total,
            total == lines@.len(),
            width == decimal(end as nat).len(),
            out@ == numbered_lines_width(lines.deep_view(), off as nat, k as nat, width as nat),
        decreases end - k,
    {
        push_right_aligned(&mut out, (k + 1) as u64, width);
        push_char(&mut out, '\t');
        push_str(&mut out, lines[k].as_str());
        push_char(&mut out, '\n');
        assert(out@ =~= numbered_lines_width(lines.deep_view(), off as nat, (k + 1) as nat, width as nat));
        k += 1;
    }
    out
}

/// Number of non-overlapping occurrences of `p` in `s`, found from the left
/// (an empty pattern occurs at every character boundary).
pub open spec fn count_occurrences(s: Seq<char>, p: Seq<char>) -> nat
    decreases s.len(),
{
    if p.len() == 0 {
        s.len() + 1
    } else if s.len() < p.len() {
        0
    } else if s.take(p.len() as int) == p {
        1 + count_occurrences(s.skip(p.len() as int), p)
    } else {
        count_occurrences(s.skip(1), p)
    }
}

/// `s` with every non-overlapping occurrence of a non-empty `p` replaced by
/// `r`, from the left.
pub open spec fn replace_nonempty(s: Seq<char>, p: Seq<char>, r: Seq<char>) -> Seq<char>
    decreases s.len(),
{
    if p.len() == 0 || s.len() < p.len() {
        s
    } else if s.take(p.len() as int) == p {
        r + replace_nonempty(s.skip(p.len() as int), p, r)
    } else {
        seq![s[0]] + replace_nonempty(s.skip(1), p, r)
    }
}

/// `r` inserted before every character and at the end.
pub open spec fn interleave(s: Seq<char>, r: Seq<char>) -> Seq<char>
    decreases s.len(),
{
    if s.len() == 0 {
        r
    } else {
        r + seq![s[0]] + interleave(s.skip(1), r)
    }
}

/// `str::replace`: every occurrence replaced.
pub open spec fn replace_all_spec(s: Seq<char>, p: Seq<char>, r: Seq<char>) -> Seq<char> {
    if p.len() == 0 {
        interleave(s, r)
    } else {
        replace_nonempty(s, p, r)
    }
}

/// `str::replacen(p, r, 1)`: the first occurrence replaced.
pub open spec fn replace_first_spec(s: Seq<char>, p: Seq<char>, r: Seq<char>) -> Seq<char>
    decreases s.len(),
{
    if p.len() == 0 {
        r + s
    } else if s.len() < p.len() {
        s
    } else if s.take(p.len() as int) == p {
        r + s.skip(p.len() as int)
    } else {
        seq![s[0]] + replace_first_spec(s.skip(1), p, r)
    }
}

fn matches_at(s: &Vec<char>, p: &Vec<char>, i: usize) -> (r: bool)
    requires
        i <= s@.len(),
    ensures
        r == (p@.len() <= s@.len() - i && s@.skip(i as int).take(p@.len() as int) == p@),
{
    let n = s.len();
    if p.len() > n - i {
        return false;
    }
    let mut k: usize = 0;
    while k < p.len()
        invariant
            0 <= k <= p@.len(),
            n == s@.len(),
            i <= n,
            p@.len() <= s@.len() - i,
            forall|q: int| 0 <= q < k ==> s@[i + q] == p@[q],
        decreases p@.len() - k,
    {
        if s[i + k] != p[k] {
            assert(s@.skip(i as int).take(p@.len() as int)[k as int] != p@[k as int]);
            return false;
        }
        k += 1;
    }
    assert(s@.skip(i as int).take(p@.len() as int) =~= p@);
    true
}

/// Count the non-overlapping occurrences of `pattern` in `text`.
pub fn count_matches(text: &str, pattern: &str) -> (n: usize)
    requires
        text@.len() < usize::MAX,
    ensures
        n == count_occurrences(text@, pattern@),
{
    let s = chars_of(text);
    let p = chars_of(pattern);
    if p.len() == 0 {
        return s.len() + 1;
    }
    let mut n: usize = 0;
    let mut i: usize = 0;
    assert(s@.skip(0) =~= s@);
    while i < s.len()
        invariant
            0 <= i <= s@.len(),
            p@.len() > 0,
            s@ == text@,
            p@ == pattern@,
            n + count_occurrences(s@.skip(i as int), p@) == count_occurrences(s@, p@),
            n <= i,
        decreases s@.len() - i,
    {
        if matches_at(&s, &p, i) {
            assert(s@.skip(i as int).skip(p@.len() as int) =~= s@.skip(i + p@.len()));
            n += 1;
            i += p.len();
        } else {
            proof {
                if s@.len() - i < p@.len() {
                    assert(count_occurrences(s@.skip(i as int), p@) == 0);
                    assert(s@.skip(i as int).skip(1) =~= s@.skip(i + 1));
                    assert(count_occurrences(s@.skip(i + 1), p@) == 0) by {
                        assert(s@.skip(i + 1).len() < p@.len());
                    }
                } else {
                    assert(s@.skip(i as int).skip(1) =~= s@.skip(i + 1));
                }
            }
            i += 1;
        }
    }
    proof {
        assert(s@.skip(i as int).len() == 0);
    }
    n
}

/// Replace every occurrence (`replace_all`) or the first one of `pattern`.
pub fn replace_text(text: &str, pattern: &str, replacement: &str, all: bool) -> (r: String)
    ensures
        r@ == if all {
            replace_all_spec(text@, pattern@, replacement@)
        } else {
            replace_first_spec(text@, pattern@, replacement@)
        },
{
    let s = chars_of(text);
    let p = chars_of(pattern);
    let mut out = String::new();
    if p.len() == 0 {
        if !all {
            let mut r = replacement.to_owned();
            push_str(&mut r, text);
            return r;
        }
        let mut i: usize = 0;
        assert(s@.skip(0) =~= s@);
        assert(out@ =~= Seq::<char>::empty());
        while i < s.len()
            invariant
                0 <= i <= s@.len(),
                s@ == text@,
                out@ + interleave(s@.skip(i as int), replacement@) == interleave(s@, replacement@),
            decreases s@.len() - i,
        {
            push_str(&mut out, replacement);
            push_char(&mut out, s[i]);
            assert(s@.skip(i as int).skip(1) =~= s@.skip(i + 1));
            assert(out@ + interleave(s@.skip(i + 1), replacement@) =~= interleave(s@, replacement@));
            i += 1;
        }
        push_str(&mut out, replacement);
        assert(out@ =~= interleave(s@, replacement@));
        return out;
    }
    let mut i: usize = 0;
    let ghost target = if all {
        replace_nonempty(s@, p@, replacement@)
    } else {
        replace_first_spec(s@, p@, replacement@)
    };
    assert(s@.skip(0) =~= s@);
    assert(out@ =~= Seq::<char>::empty());
    while i < s.len()
        invariant
            0 <= i <= s@.len(),
            p@.len() > 0,
            s@ == text@,
            p@ == pattern@,
            target == if all {
                replace_nonempty(s@, p@, replacement@)
            } else {
                replace_first_spec(s@, p@, replacement@)
            },
            out@ + (if all {
                replace_nonempty(s@.skip(i as int), p@, replacement@)
            } else {
                replace_first_spec(s@.skip(i as int), p@, replacement@)
            }) == target,
        decreases s@.len() - i,
    {
        if matches_at(&s, &p, i) {
            assert(s@.skip(i as int).skip(p@.len() as int) =~= s@.skip(i + p@.len()));
            push_str(&mut out, replacement);
            if !all {
                let rest = string_of_range(&s, i + p.len(), s.len());
                assert(rest@ =~= s@.skip(i + p@.len()));
                push_str(&mut out, rest.as_str());
                assert(out@ =~= target);
                return out;
            }
            assert(out@ + replace_nonempty(s@.skip(i + p@.len()), p@, replacement@) =~= target);
            i += p.len();
        } else {
            proof {
                assert(s@.skip(i as int).skip(1) =~= s@.skip(i + 1));
                if s@.len() - i < p@.len() {
                    assert(s@.skip(i as int).len() < p@.len());
                }
            }
            if s.len() - i < p.len() {
                let rest = string_of_range(&s, i, s.len());
                assert(rest@ =~= s@.skip(i as int));
                push_str(&mut out, rest.as_str());
                assert(out@ =~= target);
                return out;
            }
            push_char(&mut out, s[i]);
            assert(out@ + (if all {
                replace_nonempty(s@.skip(i + 1), p@, replacement@)
            } else {
                replace_first_spec(s@.skip(i + 1), p@, replacement@)
            }) =~= target);
            i += 1;
        }
    }
    proof {
        assert(s@.skip(i as int).len() == 0);
        assert(out@ =~= target);
    }
    out
}

/// Outcome of an Edit on a file's contents.
#[derive(Debug, Clone)]
pub enum EditOutcome {
    /// `old_string` does not occur.
    NotFound,
    /// `old_string` occurs `count` times and `replace_all` is not set.
    Ambiguous { count: usize },
    /// The new contents, after `count` replacements.
    Replaced { new_content: String, count: usize },
}

/// Plan an Edit: count the occurrences of `old_string`; refuse when there is
/// none, or several without `replace_all`; else replace them all, or the
/// only one.
pub fn plan_edit(content: &str, old_string: &str, new_string: &str, replace_all: bool) -> (r: EditOutcome)
    requires
        content@.len() < usize::MAX,
    ensures
        count_occurrences(content@, old_string@) == 0 ==> r is NotFound,
        count_occurrences(content@, old_string@) > 1 && !replace_all ==> (r matches EditOutcome::Ambiguous { count }
            && count == count_occurrences(content@, old_string@)),
        count_occurrences(content@, old_string@) > 0 && (replace_all || count_occurrences(content@, old_string@) == 1)
            ==> (r matches EditOutcome::Replaced { new_content, count }
            && count == count_occurrences(content@, old_string@) && new_content@ == if replace_all {
            replace_all_spec(content@, old_string@, new_string@)
        } else {
            replace_first_spec(content@, old_string@, new_string@)
        }),
{
    let count = count_matches(content, old_string);
    if count == 0 {
        return EditOutcome::NotFound;
    }
    if count > 1 && !replace_all {
        return EditOutcome::Ambiguous { count };
    }
    let new_content = replace_text(content, old_string, new_string, replace_all);
    EditOutcome::Replaced { new_content, count }
}

/// Message of an Edit result for the file shown as `path`.
pub fn edit_message(outcome: &EditOutcome, path: &str, replace_all: bool) -> (r: ToolResult)
    ensures
        match *outcome {
            EditOutcome::NotFound => r.is_error && r.content@ == "old_string not found in "@ + path@
                + ". Make sure it matches exactly, including whitespace and indentation."@,
            EditOutcome::Ambiguous { count } => r.is_error && r.content@ == "old_string found "@
                + decimal(count as nat) + " times in "@ + path@
                + ". Provide more surrounding context to make it unique, or set replace_all to true."@,
            EditOutcome::Replaced { count, .. } => !r.is_error && r.content@ == "Successfully edited "@
                + path@ + if replace_all {
                " ("@ + decimal(count as nat) + " replacement(s))"@
            } else {
                " (1 replacement)"@
            },
        },
        r.raw_content is None,
{
    match outcome {
        EditOutcome::NotFound => {
            let mut m = cat("old_string not found in ", path);
            push_str(&mut m, ". Make sure it matches exactly, including whitespace and indentation.");
            ToolResult::err(m)
        },
        EditOutcome::Ambiguous { count } => {
            let mut m = "old_string found ".to_owned();
            let c = u64_to_decimal(*count as u64);
            push_str(&mut m, c.as_str());
            push_str(&mut m, " times in ");
            push_str(&mut m, path);
            push_str(
                &mut m,
                ". Provide more surrounding context to make it unique, or set replace_all to true.",
            );
            ToolResult::err(m)
        },
        EditOutcome::Replaced { count, .. } => {
            let mut m = cat("Successfully edited ", path);
            if replace_all {
                push_str(&mut m, " (");
                let c = u64_to_decimal(*count as u64);
                push_str(&mut m, c.as_str());
                push_str(&mut m, " replacement(s))");
            } else {
                push_str(&mut m, " (1 replacement)");
            }
            ToolResult::ok(m)
        },
    }
}

/// Decimal rendering of a signed integer.
pub open spec fn signed_decimal(n: int) -> Seq<char> {
    if n < 0 {
        seq!['-'] + decimal((-n) as nat)
    } else {
        decimal(n as nat)
    }
}

/// Render a signed integer in decimal.
pub fn i64_to_decimal(n: i64) -> (s: String)
    ensures
        s@ == signed_decimal(n as int),
{
    if n < 0 {
        let m: u64 = if n == i64::MIN {
            9223372036854775808u64
        } else {
            (-n) as u64
        };
        let mut s = String::new();
        push_char(&mut s, '-');
        let d = u64_to_decimal(m);
        push_str(&mut s, d.as_str());
        s
    } else {
        u64_to_decimal(n as u64)
    }
}

/// Output of a finished shell command: stdout, then stderr after a newline
/// when both are present; an error when the exit status is not success,
/// described by the exit code when there is no output.
pub open spec fn bash_output(stdout: Seq<char>, stderr: Seq<char>, success: bool, code: Option<i32>) -> Seq<char> {
    let combined = if stderr.len() == 0 {
        stdout
    } else if stdout.len() == 0 {
        stderr
    } else {
        stdout + seq!['\n'] + stderr
    };
    if !success && combined.len() == 0 {
        "Process exited with code "@ + signed_decimal(
            match code {
                Some(c) => c as int,
                None => -1,
            },
        )
    } else {
        combined
    }
}

/// Result of a finished shell command.
pub fn bash_result(stdout: &str, stderr: &str, success: bool, code: Option<i32>) -> (r: ToolResult)
    ensures
        r.content@ == bash_output(stdout@, stderr@, success, code),
        r.is_error == !success,
        r.raw_content is None,
{
    let mut combined = String::new();
    let out_empty = stdout.is_empty();
    let err_empty = stderr.is_empty();
    if !out_empty {
        push_str(&mut combined, stdout);
    }
    if !err_empty {
        if !out_empty {
            push_char(&mut combined, '\n');
        }
        push_str(&mut combined, stderr);
    }
    assert(combined@ =~= if stderr@.len() == 0 {
        stdout@
    } else if stdout@.len() == 0 {
        stderr@
    } else {
        stdout@ + seq!['\n'] + stderr@
    });
    if !success && out_empty && err_empty {
        let c: i64 = match code {
            Some(c) => c as i64,
            None => -1,
        };
        let d = i64_to_decimal(c);
        combined = cat("Process exited with code ", d.as_str());
    }
    ToolResult { content: combined, is_error: !success, raw_content: None }
}

/// Result of starting a command in the background.
pub fn bash_background_result(pid: u32) -> (r: ToolResult)
    ensures
        r.content@ == "Process started in background (pid: "@ + decimal(pid as nat) + ")"@,
        !r.is_error,
        r.raw_content is None,
{
    let mut m = "Process started in background (pid: ".to_owned();
    let d = u64_to_decimal(pid as u64);
    push_str(&mut m, d.as_str());
    push_str(&mut m, ")");
    ToolResult::ok(m)
}

/// Result of a command that exceeded its timeout.
pub fn bash_timeout_result(timeout_ms: u64) -> (r: ToolResult)
    ensures
        r.content@ == "Command timed out after "@ + decimal(timeout_ms as nat) + "ms"@,
        r.is_error,
        r.raw_content is None,
{
    let mut m = "Command timed out after ".to_owned();
    let d = u64_to_decimal(timeout_ms);
    push_str(&mut m, d.as_str());
    push_str(&mut m, "ms");
    ToolResult::err(m)
}

/// Default timeout of a shell command, in milliseconds.
pub const DEFAULT_BASH_TIMEOUT_MS: u64 = 120000;

/// Lines joined with `\n`.
pub open spec fn joined_lines(items: Seq<Seq<char>>) -> Seq<char>
    decreases items.len(),
{
    if items.len() == 0 {
        Seq::empty()
    } else if items.len() == 1 {
        items[0]
    } else {
        joined_lines(items.drop_last()) + seq!['\n'] + items.last()
    }
}

/// Join with newlines.
pub fn join_lines(items: &Vec<String>) -> (s: String)
    ensures
        s@ == joined_lines(items.deep_view()),
{
    let mut s = String::new();
    let mut i: usize = 0;
    while i < items.len()
        invariant
            0 <= i <= items@.len(),
            s@ == joined_lines(items.deep_view().take(i as int)),
        decreases items@.len() - i,
    {
        assert(items.deep_view().take(i + 1).drop_last() =~= items.deep_view().take(i as int));
        if i > 0 {
            push_char(&mut s, '\n');
        }
        push_str(&mut s, items[i].as_str());
        assert(s@ =~= joined_lines(items.deep_view().take(i + 1)));
        i += 1;
    }
    assert(items.deep_view().take(i as int) =~= items.deep_view());
    s
}

/// Result of a Glob, given the matching paths: sorted and one per line.
pub fn glob_result(paths: Vec<String>) -> (r: ToolResult)
    ensures
        paths@.len() == 0 ==> r.content@ == "No files matched the pattern."@,
        paths@.len() > 0 ==> exists|s: Seq<Seq<char>>|
            sorted_texts(s) && s.to_multiset() == string_views(paths@).to_multiset() && r.content@ == joined_lines(s),
        !r.is_error,
        r.raw_content is None,
{
    if paths.len() == 0 {
        return ToolResult::ok("No files matched the pattern.".to_owned());
    }
    let sorted = sort_texts(paths);
    proof {
        assert(sorted.deep_view() =~= string_views(sorted@));
    }
    ToolResult::ok(join_lines(&sorted))
}

/// Result of a Grep, given its output lines.
pub fn grep_result(lines: &Vec<String>) -> (r: ToolResult)
    ensures
        r.content@ == if lines@.len() == 0 {
            "No matches found."@
        } else {
            joined_lines(lines.deep_view())
        },
        !r.is_error,
        r.raw_content is None,
{
    if lines.len() == 0 {
        ToolResult::ok("No matches found.".to_owned())
    } else {
        ToolResult::ok(join_lines(lines))
    }
}

/// Skip `offset` entries, then keep at most `head_limit` (all when 0).
pub open spec fn offset_limit<T>(items: Seq<T>, offset: nat, head_limit: nat) -> Seq<T> {
    let rest = if offset < items.len() {
        items.skip(offset as int)
    } else {
        Seq::empty()
    };
    if head_limit > 0 && head_limit < rest.len() {
        rest.take(head_limit as int)
    } else {
        rest
    }
}

/// Apply offset (skip) and head limit (take) to a list of entries.
pub fn apply_offset_limit(items: Vec<String>, offset: usize, head_limit: usize) -> (r: Vec<String>)
    ensures
        r@ == offset_limit(items@, offset as nat, head_limit as nat),
{
    let mut items = items;
    let ghost orig = items@;
    let mut rest = if offset < items.len() {
        items.split_off(offset)
    } else {
        Vec::new()
    };
    proof {
        if offset < orig.len() {
            assert(rest@ =~= orig.skip(offset as int));
        }
    }
    if head_limit > 0 && head_limit < rest.len() {
        rest.truncate(head_limit);
    }
    proof {
        assert(rest@ =~= offset_limit(orig, offset as nat, head_limit as nat));
    }
    rest
}

/// Extensions searched for a type filter (mirrors ripgrep's types).
pub open spec fn type_extensions(t: Seq<char>) -> Option<Seq<Seq<char>>> {
    if t == "rust"@ || t == "rs"@ {
        Some(seq!["rs"@])
    } else if t == "py"@ || t == "python"@ {
        Some(seq!["py"@, "pyi"@])
    } else if t == "js"@ {
        Some(seq!["js"@, "mjs"@, "cjs"@])
    } else if t == "ts"@ {
        Some(seq!["ts"@, "tsx"@, "mts"@, "cts"@])
    } else if t == "go"@ {
        Some(seq!["go"@])
    } else if t == "java"@ {
        Some(seq!["java"@])
    } else if t == "c"@ {
        Some(seq!["c"@, "h"@])
    } else if t == "cpp"@ {
        Some(seq!["cpp"@, "cxx"@, "cc"@, "hpp"@, "hxx"@, "hh"@, "h"@])
    } else if t == "rb"@ || t == "ruby"@ {
        Some(seq!["rb"@])
    } else if t == "html"@ {
        Some(seq!["html"@, "htm"@])
    } else if t == "css"@ {
        Some(seq!["css"@])
    } else if t == "json"@ {
        Some(seq!["json"@])
    } else if t == "yaml"@ {
        Some(seq!["yaml"@, "yml"@])
    } else if t == "toml"@ {
        Some(seq!["toml"@])
    } else if t == "md"@ {
        Some(seq!["md"@, "markdown"@])
    } else if t == "sh"@ {
        Some(seq!["sh"@, "bash"@, "zsh"@])
    } else if t == "sql"@ {
        Some(seq!["sql"@])
    } else if t == "xml"@ {
        Some(seq!["xml"@])
    } else if t == "swift"@ {
        Some(seq!["swift"@])
    } else if t == "kt"@ {
        Some(seq!["kt"@, "kts"@])
    } else if t == "scala"@ {
        Some(seq!["scala"@])
    } else {
        None
    }
}

fn strs(v: &[&'static str]) -> (r: Vec<&'static str>)
    ensures
        r@ == v@,
{
    let mut r: Vec<&'static str> = Vec::new();
    let mut i: usize = 0;
    while i < v.len()
        invariant
            0 <= i <= v@.len(),
            r@ == v@.take(i as int),
        decreases v@.len() - i,
    {
        r.push(v[i]);
        assert(r@ =~= v@.take(i + 1));
        i += 1;
    }
    assert(v@.take(i as int) =~= v@);
    r
}

/// File extensions for a grep type filter.
pub fn extensions_for_type(file_type: &str) -> (r: Option<Vec<&'static str>>)
    ensures
        match r {
            Some(v) => type_extensions(file_type@) == Some(v@.map_values(|s: &str| s@)),
            None => type_extensions(file_type@) is None,
        },
{
    let t = file_type;
    let v: Vec<&'static str> = if str_eq(t, "rust") || str_eq(t, "rs") {
        strs(&["rs"])
    } else if str_eq(t, "py") || str_eq(t, "python") {
        strs(&["py", "pyi"])
    } else if str_eq(t, "js") {
        strs(&["js", "mjs", "cjs"])
    } else if str_eq(t, "ts") {
        strs(&["ts", "tsx", "mts", "cts"])
    } else if str_eq(t, "go") {
        strs(&["go"])
    } else if str_eq(t, "java") {
        strs(&["java"])
    } else if str_eq(t, "c") {
        strs(&["c", "h"])
    } else if str_eq(t, "cpp") {
        strs(&["cpp", "cxx", "cc", "hpp", "hxx", "hh", "h"])
    } else if str_eq(t, "rb") || str_eq(t, "ruby") {
        strs(&["rb"])
    } else if str_eq(t, "html") {
        strs(&["html", "htm"])
    } else if str_eq(t, "css") {
        strs(&["css"])
    } else if str_eq(t, "json") {
        strs(&["json"])
    } else if str_eq(t, "yaml") {
        strs(&["yaml", "yml"])
    } else if str_eq(t, "toml") {
        strs(&["toml"])
    } else if str_eq(t, "md") {
        strs(&["md", "markdown"])
    } else if str_eq(t, "sh") {
        strs(&["sh", "bash", "zsh"])
    } else if str_eq(t, "sql") {
        strs(&["sql"])
    } else if str_eq(t, "xml") {
        strs(&["xml"])
    } else if str_eq(t, "swift") {
        strs(&["swift"])
    } else if str_eq(t, "kt") {
        strs(&["kt", "kts"])
    } else if str_eq(t, "scala") {
        strs(&["scala"])
    } else {
        return None;
    };
    assert(type_extensions(file_type@) == Some(v@.map_values(|s: &str| s@)));
    Some(v)
}

/// Line `i` is shown: it lies within `before` lines before or `after` lines
/// after some matching line.
pub open spec fn shown(matches: Seq<bool>, before: nat, after: nat, i: int) -> bool {
    0 <= i < matches.len() && exists|m: int|
        0 <= m < matches.len() && #[trigger] matches[m] && m - before <= i <= m + after
}

/// Some line before `i` is shown.
pub open spec fn shown_before(matches: Seq<bool>, before: nat, after: nat, i: int) -> bool {
    exists|j: int| 0 <= j < i && shown(matches, before, after, j)
}

/// One output line of a grep in content mode.
pub open spec fn grep_line(file: Seq<char>, line: Seq<char>, i: int, is_match: bool, numbers: bool) -> Seq<char> {
    if numbers {
        let sep = if is_match { ':' } else { '-' };
        file + seq![sep] + decimal((i + 1) as nat) + seq![sep] + line
    } else {
        file + seq![':'] + line
    }
}

/// Output of a grep over the first `n` lines of one file: shown lines, with
/// `--` between groups that are not contiguous.
pub open spec fn grep_file_output(
    file: Seq<char>,
    lines: Seq<Seq<char>>,
    matches: Seq<bool>,
    before: nat,
    after: nat,
    numbers: bool,
    n: int,
) -> Seq<Seq<char>>
    decreases n,
{
    if n <= 0 {
        Seq::empty()
    } else {
        let i = n - 1;
        let prev = grep_file_output(file, lines, matches, before, after, numbers, i);
        if shown(matches, before, after, i) {
            let gap = shown_before(matches, before, after, i) && !shown(matches, before, after, i - 1);
            prev + (if gap {
                seq!["--"@]
            } else {
                Seq::empty()
            }) + seq![grep_line(file, lines[i], i, matches[i], numbers)]
        } else {
            prev
        }
    }
}

fn is_shown(matches: &Vec<bool>, before: usize, after: usize, i: usize) -> (r: bool)
    requires
        i < matches@.len(),
    ensures
        r == shown(matches@, before as nat, after as nat, i as int),
{
    let n = matches.len();
    let lo: usize = if i >= after { i - after } else { 0 };
    let hi: usize = if before < n - i { i + before } else { n - 1 };
    let mut m = lo;
    while m <= hi
        invariant
            lo <= m,
            hi < n,
            n == matches@.len(),
            i < n,
            lo == if i >= after { i - after } else { 0 },
            hi == if before < n - i { i + before } else { n - 1 },
            forall|k: int| lo <= k < m ==> !(#[trigger] matches@[k]),
        decreases hi + 1 - m,
    {
        if matches[m] {
            assert(matches@[m as int] && m - before <= i <= m + after);
            return true;
        }
        m += 1;
    }
    proof {
        assert forall|k: int| 0 <= k < n && #[trigger] matches@[k] implies !(k - before <= i <= k + after) by {
            if k - before <= i <= k + after {
                assert(lo <= k <= hi);
            }
        }
    }
    false
}

/// Content-mode grep output of one file, given which of its lines match.
pub fn grep_file_content(
    file_display: &str,
    lines: &Vec<String>,
    matches: &Vec<bool>,
    before: usize,
    after: usize,
    show_line_numbers: bool,
) -> (out: Vec<String>)
    requires
        matches@.len() == lines@.len(),
    ensures
        out.deep_view() == grep_file_output(
            file_display@,
            lines.deep_view(),
            matches@,
            before as nat,
            after as nat,
            show_line_numbers,
            lines@.len() as int,
        ),
        forall|m: int, i: int|
            0 <= m < matches@.len() && #[trigger] matches@[m] && m - before <= i <= m + after && 0 <= i
                < lines@.len() ==> out.deep_view().contains(
                grep_line(file_display@, #[trigger] lines.deep_view()[i], i, matches@[i], show_line_numbers),
            ),
{
    let mut out: Vec<String> = Vec::new();
    let mut any_before = false;
    let mut prev_shown = false;
    let mut i: usize = 0;
    let n = lines.len();
    while i < n
        invariant
            0 <= i <= n,
            n == lines@.len(),
            matches@.len() == n,
            any_before == shown_before(matches@, before as nat, after as nat, i as int),
            i > 0 ==> prev_shown == shown(matches@, before as nat, after as nat, i - 1),
            out.deep_view() == grep_file_output(
                file_display@,
                lines.deep_view(),
                matches@,
                before as nat,
                after as nat,
                show_line_numbers,
                i as int,
            ),
        decreases n - i,
    {
        let sh = is_shown(matches, before, after, i);
        if sh {
            if any_before && !prev_shown {
                out.push("--".to_owned());
            }
            let mut l = file_display.to_owned();
            if show_line_numbers {
                let sep = if matches[i] { ':' } else { '-' };
                push_char(&mut l, sep);
                let d = u64_to_decimal((i + 1) as u64);
                push_str(&mut l, d.as_str());
                push_char(&mut l, sep);
            } else {
                push_char(&mut l, ':');
            }
            push_str(&mut l, lines[i].as_str());
            assert(lines.deep_view()[i as int] == lines@[i as int]@);
            assert(l@ =~= grep_line(file_display@, lines.deep_view()[i as int], i as int, matches@[i as int], show_line_numbers));
            let ghost before_push = out.deep_view();
            out.push(l);
            proof {
                assert(out.deep_view() =~= before_push.push(l@));
                let want = grep_file_output(
                    file_display@,
                    lines.deep_view(),
                    matches@,
                    before as nat,
                    after as nat,
                    show_line_numbers,
                    (i + 1) as int,
                );
                assert(out.deep_view() =~= want);
            }
        } else {
            assert(out.deep_view() =~= grep_file_output(
                file_display@,
                lines.deep_view(),
                matches@,
                before as nat,
                after as nat,
                show_line_numbers,
                (i + 1) as int,
            ));
        }
        proof {
            if sh {
                assert(shown_before(matches@, before as nat, after as nat, (i + 1) as int));
            } else if !any_before {
                assert forall|j: int| 0 <= j < i + 1 implies !shown(matches@, before as nat, after as nat, j) by {
                    if j < i {
                        assert(!shown_before(matches@, before as nat, after as nat, i as int));
                    }
                }
            } else {
                let j = choose|j: int| 0 <= j < i && shown(matches@, before as nat, after as nat, j);
                assert(shown(matches@, before as nat, after as nat, j));
            }
        }
        any_before = any_before || sh;
        prev_shown = sh;
        i += 1;
    }
    proof {
        assert forall|m: int, i: int|
            0 <= m < matches@.len() && #[trigger] matches@[m] && m - before <= i <= m + after && 0 <= i
                < lines@.len() implies out.deep_view().contains(
            grep_line(file_display@, #[trigger] lines.deep_view()[i], i, matches@[i], show_line_numbers),
        ) by {
            lemma_grep_shows_context(
                file_display@,
                lines.deep_view(),
                matches@,
                before as nat,
                after as nat,
                show_line_numbers,
                m,
                i,
            );
        }
    }
    out
}

/// Grep settings after defaults: output mode (files with matches), line
/// numbers (on), and context, where `context` wins over its `-C` alias and
/// both stand in for unset before/after counts.
pub struct GrepSettings {
    pub output_mode: crate::tool_inputs::GrepOutputMode,
    pub case_insensitive: bool,
    pub show_line_numbers: bool,
    pub multiline: bool,
    pub before_context: usize,
    pub after_context: usize,
    pub head_limit: usize,
    pub offset: usize,
}

pub open spec fn first_set(a: Option<u32>, b: Option<u32>) -> Option<u32> {
    match a {
        Some(x) => Some(x),
        None => b,
    }
}

pub open spec fn or_zero(a: Option<u32>) -> nat {
    match a {
        Some(x) => x as nat,
        None => 0,
    }
}

/// Resolve the settings of a grep from its input.
pub fn grep_settings(input: &crate::tool_inputs::GrepInput) -> (s: GrepSettings)
    ensures
        s.output_mode == match input.output_mode {
            Some(m) => m,
            None => crate::tool_inputs::GrepOutputMode::FilesWithMatches,
        },
        s.case_insensitive == (input.case_insensitive == Some(true)),
        s.show_line_numbers == (input.line_numbers != Some(false)),
        s.multiline == (input.multiline == Some(true)),
        s.before_context == or_zero(first_set(input.before_context, first_set(input.context, input.context_alias))),
        s.after_context == or_zero(first_set(input.after_context, first_set(input.context, input.context_alias))),
        s.head_limit == or_zero(input.head_limit),
        s.offset == or_zero(input.offset),
{
    let output_mode = match input.output_mode {
        Some(m) => m,
        None => crate::tool_inputs::GrepOutputMode::FilesWithMatches,
    };
    let context_lines = match input.context {
        Some(c) => Some(c),
        None => input.context_alias,
    };
    let before = match input.before_context {
        Some(b) => b,
        None => match context_lines {
            Some(c) => c,
            None => 0,
        },
    };
    let after = match input.after_context {
        Some(a) => a,
        None => match context_lines {
            Some(c) => c,
            None => 0,
        },
    };
    GrepSettings {
        output_mode,
        case_insensitive: match input.case_insensitive {
            Some(b) => b,
            None => false,
        },
        show_line_numbers: match input.line_numbers {
            Some(b) => b,
            None => true,
        },
        multiline: match input.multiline {
            Some(b) => b,
            None => false,
        },
        before_context: before as usize,
        after_context: after as usize,
        head_limit: match input.head_limit {
            Some(h) => h as usize,
            None => 0,
        },
        offset: match input.offset {
            Some(o) => o as usize,
            None => 0,
        },
    }
}

/// Images larger than this many bytes are refused.
pub const MAX_IMAGE_BYTES: usize = 20971520;

/// Whether an image is too large to send.
pub fn image_too_large(len: usize) -> (r: bool)
    ensures
        r == (len > MAX_IMAGE_BYTES),
{
    len > MAX_IMAGE_BYTES
}

/// The digit of the standard base64 alphabet for a six-bit value:
/// `A`-`Z`, `a`-`z`, `0`-`9`, `+`, `/`.
pub open spec fn base64_digit(v: int) -> char {
    if v < 26 {
        (65 + v) as char
    } else if v < 52 {
        (97 + v - 26) as char
    } else if v < 62 {
        (48 + v - 52) as char
    } else if v == 62 {
        '+'
    } else {
        '/'
    }
}

/// The standard base64 encoding (with padding) of some bytes: each group
/// of three bytes gives four digits; a last group of one or two bytes is
/// filled with zero bits and padded with `=` to four characters.
pub open spec fn base64_standard(bytes: Seq<u8>) -> Seq<char>
    decreases bytes.len(),
{
    if bytes.len() == 0 {
        seq![]
    } else if bytes.len() == 1 {
        let a = bytes[0] as int;
        seq![base64_digit(a / 4), base64_digit((a % 4) * 16), '=', '=']
    } else if bytes.len() == 2 {
        let a = bytes[0] as int;
        let b = bytes[1] as int;
        seq![base64_digit(a / 4), base64_digit((a % 4) * 16 + b / 16), base64_digit((b % 16) * 4), '=']
    } else {
        let a = bytes[0] as int;
        let b = bytes[1] as int;
        let c = bytes[2] as int;
        seq![
            base64_digit(a / 4),
            base64_digit((a % 4) * 16 + b / 16),
            base64_digit((b % 16) * 4 + c / 64),
            base64_digit(c % 64),
        ] + base64_standard(bytes.subrange(3, bytes.len() as int))
    }
}

/// Encode bytes in base64 (`base64::engine::general_purpose::STANDARD`'s
/// `encode`).
#[verifier::external_body]
fn base64_encode(bytes: &[u8]) -> (r: String)
    ensures
        r@ == base64_standard(bytes@),
{
    base64::engine::general_purpose::STANDARD.encode(bytes)
}

/// The JSON text of a tool-result content made of one base64 image.
pub open spec fn image_content_json(media_type: Seq<char>, data: Seq<char>) -> Seq<char> {
    "[{\"source\":{\"data\":\""@ + data + "\",\"media_type\":\""@ + media_type
        + "\",\"type\":\"base64\"},\"type\":\"image\"}]"@
}

/// The result of reading an image: a short text, and as raw content the
/// image itself, base64-encoded. The media type is one of the image types
/// (no character of it needs escaping in JSON).
pub fn image_tool_result(path: &str, media_type: &str, bytes: &[u8]) -> (r: ToolResult)
    ensures
        r.content@ == "Image: "@ + path@,
        !r.is_error,
        r.raw_content matches Some(raw) && raw@ == image_content_json(media_type@, base64_standard(bytes@)),
{
    let data = base64_encode(bytes);
    let mut raw = "[{\"source\":{\"data\":\"".to_owned();
    push_str(&mut raw, data.as_str());
    push_str(&mut raw, "\",\"media_type\":\"");
    push_str(&mut raw, media_type);
    push_str(&mut raw, "\",\"type\":\"base64\"},\"type\":\"image\"}]");
    let mut content = "Image: ".to_owned();
    push_str(&mut content, path);
    ToolResult { content, is_error: false, raw_content: Some(raw) }
}

proof fn lemma_shown_line_in_output(
    file: Seq<char>,
    lines: Seq<Seq<char>>,
    matches: Seq<bool>,
    before: nat,
    after: nat,
    numbers: bool,
    n: int,
    i: int,
)
    requires
        0 <= i < n <= matches.len(),
        shown(matches, before, after, i),
    ensures
        grep_file_output(file, lines, matches, before, after, numbers, n).contains(
            grep_line(file, lines[i], i, matches[i], numbers),
        ),
    decreases n,
{
    let out = grep_file_output(file, lines, matches, before, after, numbers, n);
    let line = grep_line(file, lines[i], i, matches[i], numbers);
    if i == n - 1 {
        assert(out[out.len() - 1] == line);
    } else {
        lemma_shown_line_in_output(file, lines, matches, before, after, numbers, n - 1, i);
        let prev = grep_file_output(file, lines, matches, before, after, numbers, n - 1);
        let k = choose|k: int| 0 <= k < prev.len() && prev[k] == line;
        if shown(matches, before, after, n - 1) {
            let gap = shown_before(matches, before, after, n - 1) && !shown(matches, before, after, n - 2);
            let extra = (if gap {
                seq!["--"@]
            } else {
                Seq::<Seq<char>>::empty()
            }) + seq![grep_line(file, lines[n - 1], n - 1, matches[n - 1], numbers)];
            assert(out == prev + extra);
            assert(out[k] == prev[k]);
        }
    }
}

/// Grep in content mode shows every line within the context of a match:
/// for a matching line `m`, each line from `before` lines above it to
/// `after` lines below it (within the file) appears in the output, with its
/// number and separator when numbers are shown.
pub proof fn lemma_grep_shows_context(
    file: Seq<char>,
    lines: Seq<Seq<char>>,
    matches: Seq<bool>,
    before: nat,
    after: nat,
    numbers: bool,
    m: int,
    i: int,
)
    requires
        matches.len() == lines.len(),
        0 <= m < matches.len(),
        matches[m],
        m - before <= i <= m + after,
        0 <= i < matches.len(),
    ensures
        grep_file_output(file, lines, matches, before, after, numbers, lines.len() as int).contains(
            grep_line(file, lines[i], i, matches[i], numbers),
        ),
{
    assert(shown(matches, before, after, i));
    lemma_shown_line_in_output(file, lines, matches, before, after, numbers, lines.len() as int, i);
}

/// The line at `i` lies within the context of some matching line.
pub open spec fn in_context(matches: Seq<bool>, before: nat, after: nat, i: int) -> bool {
    exists|m: int| 0 <= m < matches.len() && #[trigger] matches[m] && m - before <= i && i <= m + after
}

proof fn lemma_output_only_context(
    file: Seq<char>,
    lines: Seq<Seq<char>>,
    matches: Seq<bool>,
    before: nat,
    after: nat,
    numbers: bool,
    n: int,
)
    requires
        0 <= n <= matches.len(),
    ensures
        ({
            let out = grep_file_output(file, lines, matches, before, after, numbers, n);
            forall|k: int|
                0 <= k < out.len() ==> #[trigger] out[k] == "--"@ || exists|i: int|
                    0 <= i < n && in_context(matches, before, after, i) && out[k] == grep_line(
                        file,
                        lines[i],
                        i,
                        matches[i],
                        numbers,
                    )
        }),
    decreases n,
{
    if n > 0 {
        lemma_output_only_context(file, lines, matches, before, after, numbers, n - 1);
        let out = grep_file_output(file, lines, matches, before, after, numbers, n);
        let prev = grep_file_output(file, lines, matches, before, after, numbers, n - 1);
        if shown(matches, before, after, n - 1) {
            let gap = shown_before(matches, before, after, n - 1) && !shown(matches, before, after, n - 2);
            let sep: Seq<Seq<char>> = if gap {
                seq!["--"@]
            } else {
                Seq::<Seq<char>>::empty()
            };
            let last = grep_line(file, lines[n - 1], n - 1, matches[n - 1], numbers);
            assert(out == prev + sep + seq![last]);
            assert(in_context(matches, before, after, n - 1));
            assert forall|k: int| 0 <= k < out.len() implies #[trigger] out[k] == "--"@ || exists|i: int|
                0 <= i < n && in_context(matches, before, after, i) && out[k] == grep_line(
                    file,
                    lines[i],
                    i,
                    matches[i],
                    numbers,
                ) by {
                if k < prev.len() {
                    assert(out[k] == prev[k]);
                    if prev[k] != "--"@ {
                        let i = choose|i: int|
                            0 <= i < n - 1 && in_context(matches, before, after, i) && prev[k] == grep_line(
                                file,
                                lines[i],
                                i,
                                matches[i],
                                numbers,
                            );
                        assert(0 <= i < n);
                    }
                } else if k < prev.len() + sep.len() {
                    assert(out[k] == sep[k - prev.len()]);
                } else {
                    assert(out[k] == last);
                }
            }
        } else {
            assert(out == prev);
            assert forall|k: int| 0 <= k < out.len() implies #[trigger] out[k] == "--"@ || exists|i: int|
                0 <= i < n && in_context(matches, before, after, i) && out[k] == grep_line(
                    file,
                    lines[i],
                    i,
                    matches[i],
                    numbers,
                ) by {
                if prev[k] != "--"@ {
                    let i = choose|i: int|
                        0 <= i < n - 1 && in_context(matches, before, after, i) && prev[k] == grep_line(
                            file,
                            lines[i],
                            i,
                            matches[i],
                            numbers,
                        );
                    assert(0 <= i < n);
                }
            }
        }
    }
}

/// Grep in content mode shows nothing but context: each output line is a
/// `--` group separator or a file line that lies within `before` lines
/// above or `after` lines below some matching line.
pub proof fn lemma_grep_shows_only_context(
    file: Seq<char>,
    lines: Seq<Seq<char>>,
    matches: Seq<bool>,
    before: nat,
    after: nat,
    numbers: bool,
)
    requires
        matches.len() == lines.len(),
    ensures
        ({
            let out = grep_file_output(file, lines, matches, before, after, numbers, lines.len() as int);
            forall|k: int|
                0 <= k < out.len() ==> #[trigger] out[k] == "--"@ || exists|i: int|
                    0 <= i < lines.len() && in_context(matches, before, after, i) && out[k] == grep_line(
                        file,
                        lines[i],
                        i,
                        matches[i],
                        numbers,
                    )
        }),
{
    lemma_output_only_context(file, lines, matches, before, after, numbers, lines.len() as int);
}

/// An Edit of a single occurrence replaces `old_string` where it first
/// occurs and nothing else: when the contents are `pre + old + post` and no
/// occurrence of `old` starts inside `pre`, the new contents are
/// `pre + new + post`.
pub proof fn lemma_edit_replaces_first_occurrence(
    pre: Seq<char>,
    old: Seq<char>,
    post: Seq<char>,
    new: Seq<char>,
)
    requires
        old.len() > 0,
        forall|j: int|
            0 <= j < pre.len() ==> !(j + old.len() <= (pre + old + post).len() && #[trigger] (pre + old
                + post).subrange(j, j + old.len()) == old),
    ensures
        replace_first_spec(pre + old + post, old, new) == pre + new + post,
    decreases pre.len(),
{
    let s = pre + old + post;
    if pre.len() == 0 {
        assert(s =~= old + post);
        assert(s.take(old.len() as int) =~= old);
        assert(s.skip(old.len() as int) =~= post);
        assert(pre + new + post =~= new + post);
    } else {
        let z: int = 0;
        assert(s.take(old.len() as int) =~= s.subrange(z, z + old.len()));
        assert(!(z + old.len() <= s.len() && s.subrange(z, z + old.len()) == old));
        assert(s.take(old.len() as int) != old);
        let pre1 = pre.skip(1);
        let s1 = pre1 + old + post;
        assert(s.skip(1) =~= s1);
        assert forall|j: int|
            0 <= j < pre1.len() implies !(j + old.len() <= s1.len() && #[trigger] s1.subrange(j, j + old.len())
            == old) by {
            assert(s1.subrange(j, j + old.len()) =~= s.subrange(j + 1, j + 1 + old.len()));
        }
        lemma_edit_replaces_first_occurrence(pre1, old, post, new);
        assert(seq![s[0]] + (pre1 + new + post) =~= pre + new + post);
    }
}

/// Replacing every occurrence of a text by itself changes nothing.
pub proof fn lemma_replace_all_by_itself(s: Seq<char>, p: Seq<char>)
    requires
        p.len() > 0,
    ensures
        replace_all_spec(s, p, p) == s,
    decreases s.len(),
{
    if s.len() >= p.len() {
        if s.take(p.len() as int) == p {
            lemma_replace_all_by_itself(s.skip(p.len() as int), p);
            assert(p + s.skip(p.len() as int) =~= s);
        } else {
            lemma_replace_all_by_itself(s.skip(1), p);
            assert(seq![s[0]] + s.skip(1) =~= s);
        }
    }
}

/// Numbered lines split at any line between their ends.
pub proof fn lemma_numbered_lines_split(lines: Seq<Seq<char>>, a: nat, b: nat, c: nat, width: nat)
    requires
        a <= b <= c,
    ensures
        numbered_lines_width(lines, a, c, width) == numbered_lines_width(lines, a, b, width)
            + numbered_lines_width(lines, b, c, width),
    decreases c - b,
{
    if b < c {
        lemma_numbered_lines_split(lines, a, b, (c - 1) as nat, width);
        assert(numbered_lines_width(lines, a, c, width) =~= numbered_lines_width(lines, a, b, width)
            + numbered_lines_width(lines, b, c, width));
    } else {
        assert(numbered_lines_width(lines, b, c, width) =~= Seq::<char>::empty());
        assert(numbered_lines_width(lines, a, c, width) =~= numbered_lines_width(lines, a, b, width)
            + numbered_lines_width(lines, b, c, width));
    }
}

/// A Read shows each line of the requested slice, from `offset` on and at
/// most `limit` of them, as its 1-based number right-aligned to the width
/// of the last number shown, a tab, the line and a newline; and nothing is
/// shown when `offset` is past the end.
pub proof fn lemma_read_shows_each_line(lines: Seq<Seq<char>>, offset: nat, limit: Option<nat>, k: nat)
    requires
        offset <= k < lines.len(),
        limit matches Some(l) ==> k < offset + l,
    ensures
        k < read_end(lines.len(), offset, limit) <= lines.len(),
        limit matches Some(l) ==> read_end(lines.len(), offset, limit) <= offset + l,
        limit is None ==> read_end(lines.len(), offset, limit) == lines.len(),
        ({
            let shown = numbered_line(k + 1, decimal(read_end(lines.len(), offset, limit)).len(), lines[k as int]);
            let out = read_output(lines, offset, limit);
            exists|p: int| 0 <= p && p + shown.len() <= out.len() && #[trigger] out.subrange(p, p + shown.len()) == shown
        }),
{
    let end = read_end(lines.len(), offset, limit);
    let w = decimal(end).len();
    lemma_numbered_lines_split(lines, offset, k, end, w);
    lemma_numbered_lines_split(lines, k, k + 1, end, w);
    assert(numbered_lines_width(lines, k, k, w) =~= Seq::<char>::empty());
    assert(numbered_lines_width(lines, k, k + 1, w) =~= numbered_line(k + 1, w, lines[k as int]));
    let pre = numbered_lines_width(lines, offset, k, w);
    let post = numbered_lines_width(lines, k + 1, end, w);
    let shown = numbered_line(k + 1, w, lines[k as int]);
    let out = read_output(lines, offset, limit);
    assert(out == pre + shown + post);
    let p: int = pre.len() as int;
    assert(out.subrange(p, p + shown.len()) =~= shown);
}

/// A Read past the end of the file shows nothing.
pub proof fn lemma_read_past_end_is_empty(lines: Seq<Seq<char>>, offset: nat, limit: Option<nat>)
    requires
        offset >= lines.len(),
    ensures
        read_output(lines, offset, limit).len() == 0,
{
}

/// Paging Grep results keeps them in order: the `j`-th kept item is item
/// `offset + j`; all items from `offset` on are kept when there is no head
/// limit (0) or it is not reached, else exactly `head_limit` of them.
pub proof fn lemma_offset_limit_pages<T>(items: Seq<T>, offset: nat, head_limit: nat)
    ensures
        forall|j: int|
            0 <= j < offset_limit(items, offset, head_limit).len() ==> #[trigger] offset_limit(
                items,
                offset,
                head_limit,
            )[j] == items[offset + j],
        offset >= items.len() ==> offset_limit(items, offset, head_limit).len() == 0,
        offset < items.len() && (head_limit == 0 || head_limit >= items.len() - offset) ==> offset_limit(
            items,
            offset,
            head_limit,
        ).len() == items.len() - offset,
        offset < items.len() && 0 < head_limit < items.len() - offset ==> offset_limit(
            items,
            offset,
            head_limit,
        ).len() == head_limit,
{
}

} // verus!
