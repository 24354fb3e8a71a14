//! Session transcripts: where they are stored, how sessions are listed and
//! how a page of a transcript is selected.

use vstd::prelude::*;

use crate::orion::{ellipsized, truncate_text};
use crate::text::{
    byte_boundary_at, cat, chars_of, fits_in_bytes, is_boundary, join_path, join_with, joined_with,
    path_join, push_char, push_str, str_eq, utf8_len,
};

verus! {

/// Whether a character is alphanumeric in Unicode's sense.
pub uninterp spec fn unicode_alphanumeric(c: char) -> bool;

/// std's `char::is_alphanumeric`; the result is named `unicode_alphanumeric`.
#[verifier::external_body]
fn is_alphanumeric(c: char) -> (r: bool)
    ensures
        r == unicode_alphanumeric(c),
{
    c.is_alphanumeric()
}

/// Every non-alphanumeric character becomes `-`.
pub open spec fn encoded_path(p: Seq<char>) -> Seq<char> {
    Seq::new(p.len(), |i: int| if unicode_alphanumeric(p[i]) { p[i] } else { '-' })
}

/// Encode a filesystem path for use as a directory name.
pub fn encode_path(path: &str) -> (r: String)
    ensures
        r@ == encoded_path(path@),
{
    let cs = chars_of(path);
    let mut r = String::new();
    let mut i: usize = 0;
    while i < cs.len()
        invariant
            0 <= i <= cs@.len(),
            cs@ == path@,
            r@ == encoded_path(path@).take(i as int),
        decreases cs@.len() - i,
    {
        let c = cs[i];
        if is_alphanumeric(c) {
            push_char(&mut r, c);
        } else {
            push_char(&mut r, '-');
        }
        assert(r@ =~= encoded_path(path@).take(i + 1));
        i += 1;
    }
    assert(encoded_path(path@).take(i as int) =~= encoded_path(path@));
    r
}

/// A lowercase hexadecimal digit.
pub open spec fn is_lower_hex(c: char) -> bool {
    ('0' <= c && c <= '9') || ('a' <= c && c <= 'f')
}

/// The text of a version-4 UUID, hyphenated and in lowercase: 36
/// characters, hyphens at positions 8, 13, 18 and 23, hexadecimal digits
/// elsewhere, the version digit `4` at position 14 and the variant digit
/// (`8`, `9`, `a` or `b`) at position 19.
pub open spec fn is_v4_uuid_text(s: Seq<char>) -> bool {
    &&& s.len() == 36
    &&& forall|i: int|
        0 <= i < 36 ==> if i == 8 || i == 13 || i == 18 || i == 23 {
            #[trigger] s[i] == '-'
        } else {
            is_lower_hex(s[i])
        }
    &&& s[14] == '4'
    &&& (s[19] == '8' || s[19] == '9' || s[19] == 'a' || s[19] == 'b')
}

/// A fresh random identifier: `uuid::Uuid::new_v4`, written with its
/// `Display` (hyphenated lowercase). Which UUID comes out is random; its
/// layout is fixed: `new_v4` sets the version bits to 4 and the variant
/// bits to RFC 4122.
#[verifier::external_body]
pub(crate) fn new_session_id() -> (id: String)
    ensures
        is_v4_uuid_text(id@),
{
    uuid::Uuid::new_v4().to_string()
}

/// A session and where its transcript lives.
#[derive(Debug, Clone)]
pub struct Session {
    pub id: String,
    pub cwd: String,
    /// Messages of the transcript, each as JSON text.
    pub messages: Vec<String>,
}

impl Session {
    /// A new session with a random id: a v4 UUID's text.
    pub fn new(cwd: String) -> (s: Session)
        ensures
            is_v4_uuid_text(s.id@),
            s.cwd == cwd,
            s.messages@.len() == 0,
    {
        Session { id: new_session_id(), cwd, messages: Vec::new() }
    }

    /// A session with a given id.
    pub fn with_id(id: String, cwd: String) -> (s: Session)
        ensures
            s.id == id,
            s.cwd == cwd,
            s.messages@.len() == 0,
    {
        Session { id, cwd, messages: Vec::new() }
    }

    /// Directory of the transcripts of a working directory, under the given
    /// projects directory.
    pub fn sessions_dir_in(projects_root: &str, cwd: &str) -> (p: String)
        ensures
            p@ == path_join(projects_root@, encoded_path(cwd@)),
    {
        let enc = encode_path(cwd);
        join_path(projects_root, enc.as_str())
    }

    /// Path of this session's transcript, `<dir>/<id>.jsonl`.
    pub fn transcript_path_in(&self, projects_root: &str) -> (p: String)
        ensures
            p@ == path_join(path_join(projects_root@, encoded_path(self.cwd@)), self.id@ + ".jsonl"@),
    {
        let dir = Self::sessions_dir_in(projects_root, self.cwd.as_str());
        let file = cat(self.id.as_str(), ".jsonl");
        join_path(dir.as_str(), file.as_str())
    }
}

/// Information about a past session.
#[derive(Debug, Clone)]
pub struct SessionInfo {
    pub session_id: String,
    pub summary: String,
    pub last_modified: u64,
    pub file_size: u64,
    pub custom_title: Option<String>,
    pub first_prompt: Option<String>,
    pub git_branch: Option<String>,
    pub cwd: Option<String>,
}

/// The display title of a session: its custom title, else its first
/// prompt, else `(empty session)`.
pub fn session_summary(custom_title: &Option<String>, first_prompt: &Option<String>) -> (s: String)
    ensures
        s@ == match custom_title {
            Some(t) => t@,
            None => match first_prompt {
                Some(p) => p@,
                None => "(empty session)"@,
            },
        },
{
    match custom_title {
        Some(t) => t.clone(),
        None => match first_prompt {
            Some(p) => p.clone(),
            None => "(empty session)".to_owned(),
        },
    }
}

/// Sessions ordered newest first.
pub open spec fn newest_first(s: Seq<SessionInfo>) -> bool {
    forall|i: int, j: int| 0 <= i < j < s.len() ==> (#[trigger] s[i]).last_modified >= (#[trigger] s[j]).last_modified
}

/// Order sessions newest first (stable) and keep at most `limit`.
pub fn order_sessions(infos: Vec<SessionInfo>, limit: Option<usize>) -> (r: Vec<SessionInfo>)
    ensures
        newest_first(r@),
        exists|sorted: Seq<SessionInfo>| {
            &&& sorted.to_multiset() == infos@.to_multiset()
            &&& newest_first(sorted)
            &&& r@ == match limit {
                Some(n) => if n < sorted.len() { sorted.take(n as int) } else { sorted },
                None => sorted,
            }
        },
{
    let mut src = infos;
    let ghost orig = src@;
    let mut sorted: Vec<SessionInfo> = Vec::new();
    proof {
        broadcast use vstd::seq_lib::group_to_multiset_ensures;
        assert(sorted@.to_multiset().add(src@.to_multiset()) =~= orig.to_multiset());
    }
    // Insertion sort: take items from the back of `src` and insert each after
    // every element that is at least as new, so equal keys keep their order.
    while src.len() > 0
        invariant
            newest_first(sorted@),
            sorted@.to_multiset().add(src@.to_multiset()) == orig.to_multiset(),
        decreases src@.len(),
    {
        let ghost before_src = src@;
        let item = src.remove(0);
        let ghost before = sorted@;
        let mut pos: usize = 0;
        while pos < sorted.len() && sorted[pos].last_modified >= item.last_modified
            invariant
                0 <= pos <= sorted@.len(),
                sorted@ == before,
                forall|k: int| 0 <= k < pos ==> (#[trigger] sorted@[k]).last_modified >= item.last_modified,
            decreases sorted@.len() - pos,
        {
            pos += 1;
        }
        proof {
            if pos < sorted@.len() {
                assert(sorted@[pos as int].last_modified < item.last_modified);
            }
        }
        let ghost key = item.last_modified;
        let ghost it = item;
        sorted.insert(pos, item);
        proof {
            let s = sorted@;
            assert(s =~= before.take(pos as int).push(it) + before.skip(pos as int));
            assert forall|i: int, j: int| 0 <= i < j < s.len() implies (#[trigger] s[i]).last_modified >= (#[trigger] s[j]).last_modified by {
                if j < pos {
                    assert(s[i] == before[i] && s[j] == before[j]);
                } else if j == pos {
                    assert(s[i] == before[i]);
                } else if i < pos {
                    assert(s[i] == before[i] && s[j] == before[j - 1]);
                    if pos < before.len() {
                        assert(before[i].last_modified >= key);
                    }
                } else if i == pos {
                    assert(s[j] == before[j - 1]);
                    assert(before[pos as int].last_modified < key);
                    if j - 1 > pos {
                        assert(before[pos as int].last_modified >= before[j - 1].last_modified);
                    }
                } else {
                    assert(s[i] == before[i - 1] && s[j] == before[j - 1]);
                }
            }
            assert(s =~= before.insert(pos as int, it));
            vstd::seq_lib::to_multiset_insert(before, pos as int, it);
            vstd::seq_lib::to_multiset_remove(before_src, 0);
            assert(before_src[0] == it);
            vstd::seq_lib::to_multiset_contains(before_src, it);
            assert(s.to_multiset().add(src@.to_multiset()) =~= orig.to_multiset());
        }
    }
    let ghost full = sorted@;
    proof {
        broadcast use vstd::seq_lib::group_to_multiset_ensures;
        assert(src@.to_multiset() =~= vstd::multiset::Multiset::empty());
        assert(full.to_multiset() =~= orig.to_multiset());
    }
    match limit {
        Some(n) => {
            if n < sorted.len() {
                sorted.truncate(n);
                assert(sorted@ =~= full.take(n as int));
            }
        },
        None => {},
    }
    sorted
}

/// A block of a transcript entry's content, as far as it is read: its
/// `type` and `text` fields when they are strings.
#[derive(Debug, Clone)]
pub struct BlockFields {
    pub kind: Option<String>,
    pub text: Option<String>,
}

/// The `content` field of a transcript entry.
#[derive(Debug, Clone)]
pub enum ContentField {
    /// A string.
    Text(String),
    /// An array of blocks.
    Blocks(Vec<BlockFields>),
    /// Anything else.
    Other,
}

/// What is read of one JSON line of a transcript: the `customTitle` and
/// `custom_title` fields and the `type` field when they are strings, and
/// the `content` field when present.
#[derive(Debug, Clone)]
pub struct TranscriptEntry {
    pub custom_title: Option<String>,
    pub custom_title_snake: Option<String>,
    pub entry_type: Option<String>,
    pub content: Option<ContentField>,
}

/// The texts of the `text` blocks that have one, in order.
pub open spec fn block_texts(bs: Seq<BlockFields>) -> Seq<Seq<char>>
    decreases bs.len(),
{
    if bs.len() == 0 {
        Seq::empty()
    } else {
        block_texts(bs.drop_last()) + match (bs.last().kind, bs.last().text) {
            (Some(k), Some(t)) => if k@ == "text"@ {
                seq![t@]
            } else {
                Seq::empty()
            },
            _ => Seq::empty(),
        }
    }
}

/// The text of a content field: the string, or the texts of the text
/// blocks joined by spaces.
pub open spec fn content_text(c: ContentField) -> Seq<char> {
    match c {
        ContentField::Text(s) => s@,
        ContentField::Blocks(bs) => joined_with(block_texts(bs@), " "@),
        ContentField::Other => Seq::empty(),
    }
}

/// The custom title after an entry: a non-empty `custom_title` wins over a
/// non-empty `customTitle`, which wins over the title so far.
pub open spec fn title_after(ct: Option<Seq<char>>, e: TranscriptEntry) -> Option<Seq<char>> {
    let t1 = match e.custom_title {
        Some(t) => if t@.len() > 0 {
            Some(t@)
        } else {
            ct
        },
        None => ct,
    };
    match e.custom_title_snake {
        Some(t) => if t@.len() > 0 {
            Some(t@)
        } else {
            t1
        },
        None => t1,
    }
}

/// The first prompt after an entry: once found it stays; a user entry with
/// non-empty content text gives it, cut at 200 bytes with `...` appended.
/// `None` when that cut falls inside a character.
pub open spec fn prompt_after(fp: Option<Seq<char>>, e: TranscriptEntry) -> Option<Option<Seq<char>>> {
    if fp is Some {
        Some(fp)
    } else {
        match (e.entry_type, e.content) {
            (Some(t), Some(c)) => if t@ == "user"@ && content_text(c).len() > 0 {
                let text = content_text(c);
                if utf8_len(text) <= 200 || is_boundary(text, 200) {
                    Some(Some(ellipsized(text, 200)))
                } else {
                    None
                }
            } else {
                Some(fp)
            },
            _ => Some(fp),
        }
    }
}

/// The first prompt and custom title found in the entries (`None` for
/// blank or unreadable lines), stopping once both are known; `None` when a
/// prompt would be cut inside a character.
pub open spec fn scan_metadata(
    lines: Seq<Option<TranscriptEntry>>,
    fp: Option<Seq<char>>,
    ct: Option<Seq<char>>,
) -> Option<(Option<Seq<char>>, Option<Seq<char>>)>
    decreases lines.len(),
{
    if lines.len() == 0 {
        Some((fp, ct))
    } else {
        match lines[0] {
            None => scan_metadata(lines.drop_first(), fp, ct),
            Some(e) => {
                let ct2 = title_after(ct, e);
                match prompt_after(fp, e) {
                    None => None,
                    Some(fp2) => if fp2 is Some && ct2 is Some {
                        Some((fp2, ct2))
                    } else {
                        scan_metadata(lines.drop_first(), fp2, ct2)
                    },
                }
            },
        }
    }
}

/// The metadata read from a transcript: only its first 50 lines are read.
pub open spec fn transcript_metadata(lines: Seq<Option<TranscriptEntry>>) -> Option<(Option<Seq<char>>, Option<Seq<char>>)> {
    scan_metadata(lines.take(if lines.len() < 50 { lines.len() as int } else { 50 }), None, None)
}

pub open spec fn opt_str(o: Option<String>) -> Option<Seq<char>> {
    match o {
        Some(s) => Some(s@),
        None => None,
    }
}

fn content_text_of(c: &ContentField) -> (r: String)
    ensures
        r@ == content_text(*c),
{
    match c {
        ContentField::Text(s) => s.clone(),
        ContentField::Blocks(bs) => {
            let mut texts: Vec<String> = Vec::new();
            let mut i: usize = 0;
            while i < bs.len()
                invariant
                    0 <= i <= bs@.len(),
                    texts@.map_values(|x: String| x@) == block_texts(bs@.take(i as int)),
                decreases bs@.len() - i,
            {
                proof {
                    assert(bs@.take(i + 1).drop_last() =~= bs@.take(i as int));
                    reveal_strlit("text");
                }
                let ghost t0 = texts@.map_values(|x: String| x@);
                match (&bs[i].kind, &bs[i].text) {
                    (Some(k), Some(t)) => {
                        if str_eq(k.as_str(), "text") {
                            texts.push(t.clone());
                        }
                    },
                    _ => {},
                }
                proof {
                    assert(texts@.map_values(|x: String| x@) =~= block_texts(bs@.take(i + 1)));
                }
                i = i + 1;
            }
            proof {
                assert(bs@.take(i as int) =~= bs@);
            }
            join_with(&texts, " ")
        },
        ContentField::Other => String::new(),
    }
}

/// Read the first prompt (cut at 200 bytes) and the custom title from the
/// first 50 lines of a transcript, given what each line holds (`None` for
/// blank or unreadable lines). `None` when the prompt would have to be cut
/// inside a character.
pub fn session_metadata(lines: &Vec<Option<TranscriptEntry>>) -> (r: Option<(Option<String>, Option<String>)>)
    ensures
        match transcript_metadata(lines@) {
            None => r is None,
            Some((fp, ct)) => r matches Some((a, b)) && opt_str(a) == fp && opt_str(b) == ct,
        },
{
    let n: usize = if lines.len() < 50 { lines.len() } else { 50 };
    let ghost all = lines@.take(n as int);
    let mut fp: Option<String> = None;
    let mut ct: Option<String> = None;
    let mut i: usize = 0;
    proof {
        assert(all.subrange(0, n as int) =~= all);
        reveal_strlit("user");
    }
    while i < n
        invariant
            0 <= i <= n,
            n <= lines@.len(),
            all == lines@.take(n as int),
            transcript_metadata(lines@) == scan_metadata(all.subrange(i as int, n as int), opt_str(fp), opt_str(ct)),
        decreases n - i,
    {
        let ghost rest = all.subrange(i as int, n as int);
        proof {
            assert(rest[0] == lines@[i as int]);
            assert(rest.drop_first() =~= all.subrange(i + 1, n as int));
        }
        if let Some(e) = &lines[i] {
            let ghost fp0 = opt_str(fp);
            let ghost ct0 = opt_str(ct);
            if let Some(t) = &e.custom_title {
                if !t.as_str().is_empty() {
                    ct = Some(t.clone());
                }
            }
            if let Some(t) = &e.custom_title_snake {
                if !t.as_str().is_empty() {
                    ct = Some(t.clone());
                }
            }
            assert(opt_str(ct) == title_after(ct0, *e));
            if fp.is_none() {
                match (&e.entry_type, &e.content) {
                    (Some(t), Some(c)) => {
                        if str_eq(t.as_str(), "user") {
                            let text = content_text_of(c);
                            if !text.as_str().is_empty() {
                                if fits_in_bytes(text.as_str(), 200) || byte_boundary_at(text.as_str(), 200) {
                                    fp = Some(truncate_text(text.as_str(), 200));
                                } else {
                                    return None;
                                }
                            }
                        }
                    },
                    _ => {},
                }
            }
            assert(prompt_after(fp0, *e) == Some(opt_str(fp)));
            if fp.is_some() && ct.is_some() {
                return Some((fp, ct));
            }
        }
        i = i + 1;
    }
    proof {
        assert(all.subrange(i as int, n as int) =~= Seq::<Option<TranscriptEntry>>::empty());
    }
    Some((fp, ct))
}

/// What a line of a transcript is, for paging.
#[derive(Debug, Clone, Copy, PartialEq, Eq, Structural)]
pub enum LineKind {
    /// Empty after trimming.
    Blank,
    /// Not valid JSON.
    Malformed,
    /// A JSON message.
    Message,
}

/// The lines that make a page of messages, from line `i` on: blank lines
/// are skipped and do not count; the first `skip` other lines (messages and
/// malformed lines alike) are skipped; malformed lines are skipped; and no
/// more than `limit` messages are taken.
pub open spec fn page_from(kinds: Seq<LineKind>, i: int, skip: nat, limit: Option<nat>, taken: Seq<int>) -> Seq<int>
    decreases kinds.len() - i,
{
    if i < 0 || i >= kinds.len() {
        taken
    } else if kinds[i] == LineKind::Blank {
        page_from(kinds, i + 1, skip, limit, taken)
    } else if skip > 0 {
        page_from(kinds, i + 1, (skip - 1) as nat, limit, taken)
    } else if limit matches Some(l) && taken.len() >= l {
        taken
    } else if kinds[i] == LineKind::Message {
        page_from(kinds, i + 1, skip, limit, taken.push(i))
    } else {
        page_from(kinds, i + 1, skip, limit, taken)
    }
}

/// The indexes of the lines that make a page of a transcript's messages:
/// `offset` non-blank lines are passed over first.
pub fn message_page(kinds: &Vec<LineKind>, offset: usize, limit: Option<usize>) -> (r: Vec<usize>)
    ensures
        r@.map_values(|x: usize| x as int) == page_from(
            kinds@,
            0,
            offset as nat,
            match limit {
                Some(l) => Some(l as nat),
                None => None,
            },
            Seq::empty(),
        ),
{
    let ghost lim = match limit {
        Some(l) => Some(l as nat),
        None => None::<nat>,
    };
    let mut r: Vec<usize> = Vec::new();
    let mut i: usize = 0;
    let mut skip: usize = offset;
    proof {
        assert(r@.map_values(|x: usize| x as int) =~= Seq::<int>::empty());
    }
    while i < kinds.len()
        invariant
            0 <= i <= kinds@.len(),
            lim == match limit {
                Some(l) => Some(l as nat),
                None => None::<nat>,
            },
            page_from(kinds@, 0, offset as nat, lim, Seq::empty()) == page_from(
                kinds@,
                i as int,
                skip as nat,
                lim,
                r@.map_values(|x: usize| x as int),
            ),
        decreases kinds@.len() - i,
    {
        let k = kinds[i];
        if k == LineKind::Blank {
            i = i + 1;
            continue;
        }
        if skip > 0 {
            skip = skip - 1;
            i = i + 1;
            continue;
        }
        if let Some(l) = limit {
            if r.len() >= l {
                return r;
            }
        }
        if k == LineKind::Message {
            let ghost before = r@.map_values(|x: usize| x as int);
            r.push(i);
            proof {
                assert(r@.map_values(|x: usize| x as int) =~= before.push(i as int));
            }
        }
        i = i + 1;
    }
    r
}

} // verus!
