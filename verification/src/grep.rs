//! The Grep tool over files that were read: which files pass the name and
//! type filters, which lines and files match the expression, and the output
//! of the three modes. Walking directories and reading files happen in the
//! caller.

use vstd::prelude::*;

use crate::api::AgentError;
use crate::executor::{
    apply_offset_limit, grep_file_content, grep_file_output, grep_result, joined_lines,
    lower_ext, offset_limit, path_extension_lowercase, split_lines, text_lines, type_extensions,
    GrepSettings, ToolResult,
};
use crate::text::{decimal, push_str, str_eq, u64_to_decimal};
use crate::tool_inputs::GrepOutputMode;

verus! {

/// The error text of an expression that does not compile with the given
/// case-insensitivity and multi-line settings; `None` when it compiles.
pub uninterp spec fn grep_regex_error(pattern: Seq<char>, case_insensitive: bool, multiline: bool) -> Option<Seq<char>>;

/// Whether the compiled expression matches somewhere in a text.
pub uninterp spec fn grep_regex_matches(pattern: Seq<char>, case_insensitive: bool, multiline: bool, text: Seq<char>) -> bool;

/// How many non-overlapping matches the compiled expression finds in a text.
pub uninterp spec fn grep_regex_count(pattern: Seq<char>, case_insensitive: bool, multiline: bool, text: Seq<char>) -> nat;

/// Compile the expression with `regex::RegexBuilder` (case-insensitive,
/// and multi-line with `.` matching newlines, as set); the error's text
/// when it does not compile, named `grep_regex_error`.
#[verifier::external_body]
fn grep_regex_check(pattern: &str, case_insensitive: bool, multiline: bool) -> (r: Option<String>)
    ensures
        match r {
            Some(e) => grep_regex_error(pattern@, case_insensitive, multiline) == Some(e@),
            None => grep_regex_error(pattern@, case_insensitive, multiline) is None,
        },
{
    regex::RegexBuilder::new(pattern)
        .case_insensitive(case_insensitive)
        .multi_line(multiline)
        .dot_matches_new_line(multiline)
        .build()
        .err()
        .map(|e| e.to_string())
}

/// `Regex::is_match` of the compiled expression on each text, in order;
/// each result is named `grep_regex_matches`.
#[verifier::external_body]
fn grep_regex_match_each(pattern: &str, case_insensitive: bool, multiline: bool, texts: &Vec<String>) -> (r: Vec<bool>)
    requires
        grep_regex_error(pattern@, case_insensitive, multiline) is None,
    ensures
        r@.len() == texts@.len(),
        forall|i: int| 0 <= i < texts@.len() ==> r@[i] == grep_regex_matches(pattern@, case_insensitive, multiline, #[trigger] texts@[i]@),
{
    match regex::RegexBuilder::new(pattern)
        .case_insensitive(case_insensitive)
        .multi_line(multiline)
        .dot_matches_new_line(multiline)
        .build() {
        Ok(re) => texts.iter().map(|t| re.is_match(t)).collect(),
        Err(_) => Vec::new(),
    }
}

/// The number of matches `Regex::find_iter` yields on a text, named
/// `grep_regex_count`.
#[verifier::external_body]
fn grep_regex_count_in(pattern: &str, case_insensitive: bool, multiline: bool, text: &str) -> (r: usize)
    requires
        grep_regex_error(pattern@, case_insensitive, multiline) is None,
    ensures
        r == grep_regex_count(pattern@, case_insensitive, multiline, text@),
{
    match regex::RegexBuilder::new(pattern)
        .case_insensitive(case_insensitive)
        .multi_line(multiline)
        .dot_matches_new_line(multiline)
        .build() {
        Ok(re) => re.find_iter(text).count(),
        Err(_) => 0,
    }
}

/// A file to search: how it is shown, and its text (`None` when it could
/// not be read as text; such files are skipped).
#[derive(Debug, Clone)]
pub struct GrepFile {
    pub display: String,
    pub content: Option<String>,
}

/// The files whose text matches, in order (files-with-matches mode).
pub open spec fn matching_files(p: Seq<char>, ci: bool, ml: bool, fs: Seq<GrepFile>) -> Seq<Seq<char>>
    decreases fs.len(),
{
    if fs.len() == 0 {
        Seq::empty()
    } else {
        matching_files(p, ci, ml, fs.drop_last()) + match fs.last().content {
            Some(c) => if grep_regex_matches(p, ci, ml, c@) {
                seq![fs.last().display@]
            } else {
                Seq::empty()
            },
            None => Seq::empty(),
        }
    }
}

/// `file:count` for the files with matches, in order (count mode).
pub open spec fn count_entries(p: Seq<char>, ci: bool, ml: bool, fs: Seq<GrepFile>) -> Seq<Seq<char>>
    decreases fs.len(),
{
    if fs.len() == 0 {
        Seq::empty()
    } else {
        count_entries(p, ci, ml, fs.drop_last()) + match fs.last().content {
            Some(c) => if grep_regex_count(p, ci, ml, c@) > 0 {
                seq![fs.last().display@ + seq![':'] + decimal(grep_regex_count(p, ci, ml, c@))]
            } else {
                Seq::empty()
            },
            None => Seq::empty(),
        }
    }
}

/// Which lines of a text match.
pub open spec fn line_matches(p: Seq<char>, ci: bool, ml: bool, lines: Seq<Seq<char>>) -> Seq<bool> {
    Seq::new(lines.len(), |i: int| grep_regex_matches(p, ci, ml, lines[i]))
}

/// The output lines of one file in content mode.
pub open spec fn file_content_lines(p: Seq<char>, s: GrepSettings, display: Seq<char>, text: Seq<char>) -> Seq<Seq<char>> {
    let ls = text_lines(text);
    grep_file_output(
        display,
        ls,
        line_matches(p, s.case_insensitive, s.multiline, ls),
        s.before_context as nat,
        s.after_context as nat,
        s.show_line_numbers,
        ls.len() as int,
    )
}

/// The output lines of all files in content mode, in order.
pub open spec fn content_entries(p: Seq<char>, s: GrepSettings, fs: Seq<GrepFile>) -> Seq<Seq<char>>
    decreases fs.len(),
{
    if fs.len() == 0 {
        Seq::empty()
    } else {
        content_entries(p, s, fs.drop_last()) + match fs.last().content {
            Some(c) => file_content_lines(p, s, fs.last().display@, c@),
            None => Seq::empty(),
        }
    }
}

/// The output lines of a grep, before offset and limit.
pub open spec fn grep_entries(p: Seq<char>, s: GrepSettings, fs: Seq<GrepFile>) -> Seq<Seq<char>> {
    match s.output_mode {
        GrepOutputMode::FilesWithMatches => matching_files(p, s.case_insensitive, s.multiline, fs),
        GrepOutputMode::Count => count_entries(p, s.case_insensitive, s.multiline, fs),
        GrepOutputMode::Content => content_entries(p, s, fs),
    }
}

/// The text of a grep's result: the entries after offset and limit, one per
/// line, or `No matches found.`.
pub open spec fn grep_output(p: Seq<char>, s: GrepSettings, fs: Seq<GrepFile>) -> Seq<char> {
    let ls = offset_limit(grep_entries(p, s, fs), s.offset as nat, s.head_limit as nat);
    if ls.len() == 0 {
        "No matches found."@
    } else {
        joined_lines(ls)
    }
}

fn append_strings(out: &mut Vec<String>, part: &Vec<String>)
    ensures
        final(out).deep_view() == old(out).deep_view() + part.deep_view(),
{
    let ghost o = out.deep_view();
    let mut i: usize = 0;
    while i < part.len()
        invariant
            0 <= i <= part@.len(),
            out.deep_view() == o + part.deep_view().take(i as int),
        decreases part@.len() - i,
    {
        let ghost before = out.deep_view();
        let c = part[i].clone();
        proof {
            assert(c@ == part@[i as int]@);
        }
        out.push(c);
        proof {
            assert(out.deep_view() =~= before.push(c@));
            assert(part.deep_view().take(i + 1) =~= part.deep_view().take(i as int).push(part@[i as int]@));
            assert(out.deep_view() =~= o + part.deep_view().take(i + 1));
        }
        i = i + 1;
    }
    proof {
        assert(part.deep_view().take(i as int) =~= part.deep_view());
    }
}

/// Search the files that were read. An expression that does not compile is
/// an error; otherwise the result lists the entries of the output mode
/// (after offset and limit), or says that nothing matched.
pub fn grep_search(pattern: &str, settings: &GrepSettings, files: &Vec<GrepFile>) -> (r: Result<ToolResult, AgentError>)
    ensures
        match grep_regex_error(pattern@, settings.case_insensitive, settings.multiline) {
            Some(e) => r matches Err(AgentError::Regex(m)) && m@ == e,
            None => r matches Ok(t) && !t.is_error && t.raw_content is None && t.content@ == grep_output(
                pattern@,
                *settings,
                files@,
            ),
        },
{
    let ci = settings.case_insensitive;
    let ml = settings.multiline;
    if let Some(e) = grep_regex_check(pattern, ci, ml) {
        return Err(AgentError::Regex(e));
    }
    let ghost p = pattern@;
    let ghost s = *settings;
    let mut entries: Vec<String> = Vec::new();
    let mut i: usize = 0;
    while i < files.len()
        invariant
            0 <= i <= files@.len(),
            p == pattern@,
            s == *settings,
            ci == settings.case_insensitive,
            ml == settings.multiline,
            grep_regex_error(p, ci, ml) is None,
            entries.deep_view() == grep_entries(p, s, files@.take(i as int)),
        decreases files@.len() - i,
    {
        proof {
            assert(files@.take(i + 1).drop_last() =~= files@.take(i as int));
            assert(files@.take(i + 1).last() == files@[i as int]);
        }
        let f = &files[i];
        match &f.content {
            Some(c) => match settings.output_mode {
                GrepOutputMode::FilesWithMatches => {
                    let texts = vec![c.clone()];
                    let m = grep_regex_match_each(pattern, ci, ml, &texts);
                    proof {
                        assert(texts@[0]@ == c@);
                    }
                    if m[0] {
                        entries.push(f.display.clone());
                    }
                    proof {
                        assert(entries.deep_view() =~= grep_entries(p, s, files@.take(i + 1)));
                    }
                },
                GrepOutputMode::Count => {
                    let n = grep_regex_count_in(pattern, ci, ml, c.as_str());
                    if n > 0 {
                        let mut e = f.display.clone();
                        push_str(&mut e, ":");
                        let d = u64_to_decimal(n as u64);
                        push_str(&mut e, d.as_str());
                        proof {
                            reveal_strlit(":");
                            assert(e@ =~= f.display@ + seq![':'] + decimal(grep_regex_count(p, ci, ml, c@)));
                        }
                        entries.push(e);
                    }
                    proof {
                        assert(entries.deep_view() =~= grep_entries(p, s, files@.take(i + 1)));
                    }
                },
                GrepOutputMode::Content => {
                    let lines = split_lines(c.as_str());
                    let ms = grep_regex_match_each(pattern, ci, ml, &lines);
                    proof {
                        assert(ms@ =~= line_matches(p, ci, ml, text_lines(c@)));
                    }
                    let part = grep_file_content(
                        f.display.as_str(),
                        &lines,
                        &ms,
                        settings.before_context,
                        settings.after_context,
                        settings.show_line_numbers,
                    );
                    append_strings(&mut entries, &part);
                    proof {
                        assert(entries.deep_view() =~= grep_entries(p, s, files@.take(i + 1)));
                    }
                },
            },
            None => {
                proof {
                    assert(entries.deep_view() =~= grep_entries(p, s, files@.take(i + 1)));
                }
            },
        }
        i = i + 1;
    }
    proof {
        assert(files@.take(i as int) =~= files@);
    }
    let ghost all = entries.deep_view();
    let kept = apply_offset_limit(entries, settings.offset, settings.head_limit);
    proof {
        assert(kept.deep_view() =~= offset_limit(all, settings.offset as nat, settings.head_limit as nat));
    }
    Ok(grep_result(&kept))
}

/// The name of the last component of a path (`Path::file_name`, lossily
/// converted; empty when there is none).
pub uninterp spec fn std_file_name(path: Seq<char>) -> Seq<char>;

/// `Path::file_name` of a path, lossily converted to text (empty when the
/// path has none); named `std_file_name`.
#[verifier::external_body]
fn path_file_name(path: &str) -> (r: String)
    ensures
        r@ == std_file_name(path@),
{
    std::path::Path::new(path).file_name().unwrap_or_default().to_string_lossy().into_owned()
}

/// Whether a file name matches a glob pattern (`glob::Pattern::new`, then
/// `matches`); `None` when the pattern does not compile.
pub uninterp spec fn glob_pattern_matches(pattern: Seq<char>, name: Seq<char>) -> Option<bool>;

/// Compile a glob pattern and match a file name against it; named
/// `glob_pattern_matches`.
#[verifier::external_body]
fn glob_matches(pattern: &str, name: &str) -> (r: Option<bool>)
    ensures
        r == glob_pattern_matches(pattern@, name@),
{
    match glob::Pattern::new(pattern) {
        Ok(p) => Some(p.matches(name)),
        Err(_) => None,
    }
}

/// A file name passes a glob filter; a pattern that does not compile is
/// replaced by `*`.
pub open spec fn passes_glob(pattern: Seq<char>, name: Seq<char>) -> bool {
    match glob_pattern_matches(pattern, name) {
        Some(b) => b,
        None => glob_pattern_matches("*"@, name) == Some(true),
    }
}

/// A path passes the filters: its file name matches the glob (when one is
/// given), and its lowercased extension is one of the type's extensions
/// (when the type is a known one).
pub open spec fn passes_filter(path: Seq<char>, glob: Option<Seq<char>>, file_type: Option<Seq<char>>) -> bool {
    &&& match glob {
        Some(g) => passes_glob(g, std_file_name(path)),
        None => true,
    }
    &&& match file_type {
        Some(t) => match type_extensions(t) {
            Some(es) => es.contains(lower_ext(path)),
            None => true,
        },
        None => true,
    }
}

/// Whether a path passes the glob and type filters of a grep.
pub fn matches_file_filter(path: &str, glob: Option<&str>, file_type: Option<&str>) -> (r: bool)
    ensures
        r == passes_filter(
            path@,
            match glob {
                Some(g) => Some(g@),
                None => None,
            },
            match file_type {
                Some(t) => Some(t@),
                None => None,
            },
        ),
{
    proof {
        reveal_strlit("*");
    }
    if let Some(g) = glob {
        let name = path_file_name(path);
        let ok = match glob_matches(g, name.as_str()) {
            Some(b) => b,
            None => match glob_matches("*", name.as_str()) {
                Some(b) => b,
                None => false,
            },
        };
        if !ok {
            return false;
        }
    }
    if let Some(t) = file_type {
        if let Some(exts) = crate::executor::extensions_for_type(t) {
            let ext = path_extension_lowercase(path);
            let mut i: usize = 0;
            while i < exts.len()
                invariant
                    0 <= i <= exts@.len(),
                    type_extensions(t@) == Some(exts@.map_values(|s: &str| s@)),
                    ext@ == lower_ext(path@),
                    forall|j: int| 0 <= j < i ==> exts@[j]@ != ext@,
                    glob matches Some(g) ==> passes_glob(g@, std_file_name(path@)),
                    file_type == Some(t),
                decreases exts@.len() - i,
            {
                if str_eq(exts[i], ext.as_str()) {
                    proof {
                        let es = exts@.map_values(|s: &str| s@);
                        assert(es[i as int] == lower_ext(path@));
                        assert(es.contains(lower_ext(path@)));
                        assert(type_extensions(t@) == Some(es));
                    }
                    return true;
                }
                i = i + 1;
            }
            proof {
                let es = exts@.map_values(|s: &str| s@);
                assert forall|j: int| 0 <= j < es.len() implies es[j] != lower_ext(path@) by {
                    assert(es[j] == exts@[j]@);
                }
            }
            return false;
        }
    }
    true
}

/// The text of an optional string slice.
pub open spec fn opt_text(o: Option<&str>) -> Option<Seq<char>> {
    match o {
        Some(s) => Some(s@),
        None => None,
    }
}

/// The filter on paths of a grep.
pub open spec fn file_filter(glob: Option<Seq<char>>, file_type: Option<Seq<char>>) -> spec_fn(String) -> bool {
    |p: String| passes_filter(p@, glob, file_type)
}

/// The paths that pass the glob and type filters, in order.
pub fn filter_files(paths: Vec<String>, glob: Option<&str>, file_type: Option<&str>) -> (r: Vec<String>)
    ensures
        r@ == paths@.filter(file_filter(opt_text(glob), opt_text(file_type))),
{
    let ghost pred = file_filter(opt_text(glob), opt_text(file_type));
    let mut r: Vec<String> = Vec::new();
    let mut i: usize = 0;
    while i < paths.len()
        invariant
            0 <= i <= paths@.len(),
            pred == file_filter(opt_text(glob), opt_text(file_type)),
            r@ == paths@.take(i as int).filter(pred),
        decreases paths@.len() - i,
    {
        proof {
            assert(paths@.take(i + 1) =~= paths@.take(i as int).push(paths@[i as int]));
            paths@.take(i as int).lemma_filter_push(paths@[i as int], pred);
        }
        if matches_file_filter(paths[i].as_str(), glob, file_type) {
            r.push(paths[i].clone());
        }
        i = i + 1;
    }
    proof {
        assert(paths@.take(i as int) =~= paths@);
    }
    r
}

} // verus!
