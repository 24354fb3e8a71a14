//! The model catalog's lookups that do not touch prices: catalog keys, the
//! fuzzy matching of model names, and what is read from a local Ollama
//! instance.

use vstd::prelude::*;

use crate::text::{chars_of, push_str, sort_texts, sorted_texts, str_eq, str_len, string_of_range, string_views, utf8_len};

verus! {

/// The catalog key of a model: `provider::model`.
pub open spec fn model_key(provider: Seq<char>, model: Seq<char>) -> Seq<char> {
    provider + "::"@ + model
}

/// The catalog key of a model.
pub fn make_key(provider: &str, model: &str) -> (k: String)
    ensures
        k@ == model_key(provider@, model@),
{
    let mut k = provider.to_owned();
    push_str(&mut k, "::");
    push_str(&mut k, model);
    k
}

/// `a` occurs in `b` as a contiguous part.
pub open spec fn contains_seq(b: Seq<char>, a: Seq<char>) -> bool {
    exists|i: int| 0 <= i && i + a.len() <= b.len() && #[trigger] b.subrange(i, i + a.len()) == a
}

/// Whether `a` occurs in `b` (std's `str::contains` with a string pattern).
pub fn contains_text(b: &str, a: &str) -> (r: bool)
    ensures
        r == contains_seq(b@, a@),
{
    let bc = chars_of(b);
    let ac = chars_of(a);
    let n = bc.len();
    let m = ac.len();
    if m > n {
        proof {
            assert forall|i: int| 0 <= i && i + a@.len() <= b@.len() implies #[trigger] b@.subrange(i, i + a@.len()) != a@ by {}
        }
        return false;
    }
    let mut i: usize = 0;
    while i <= n - m
        invariant
            bc@ == b@,
            ac@ == a@,
            n == bc@.len(),
            m == ac@.len(),
            m <= n,
            0 <= i <= n - m + 1,
            forall|k: int| 0 <= k < i ==> #[trigger] b@.subrange(k, k + m) != a@,
        decreases n - m + 1 - i,
    {
        let mut j: usize = 0;
        while j < m && bc[i + j] == ac[j]
            invariant
                bc@ == b@,
                ac@ == a@,
                n == bc@.len(),
                m == ac@.len(),
                i + m <= n,
                0 <= j <= m,
                forall|q: int| 0 <= q < j ==> bc@[i + q] == ac@[q],
            decreases m - j,
        {
            j = j + 1;
        }
        if j == m {
            proof {
                assert(b@.subrange(i as int, i + m) =~= a@);
            }
            return true;
        }
        proof {
            assert(b@.subrange(i as int, i + m)[j as int] != a@[j as int]);
        }
        i = i + 1;
    }
    false
}

/// Whether a registered model name matches a queried one: either holds
/// the other.
pub open spec fn fuzzy_matches(model: Seq<char>, registered: Seq<char>) -> bool {
    contains_seq(model, registered) || contains_seq(registered, model)
}

/// The best fuzzy match among the registered names (in the order given):
/// the longest matching name in bytes, the first one among equally long
/// ones.
pub open spec fn is_best_match(model: Seq<char>, names: Seq<Seq<char>>, r: Option<usize>) -> bool {
    match r {
        None => forall|i: int| 0 <= i < names.len() ==> !fuzzy_matches(model, #[trigger] names[i]),
        Some(k) => {
            &&& k < names.len()
            &&& fuzzy_matches(model, names[k as int])
            &&& forall|i: int| 0 <= i < names.len() && fuzzy_matches(model, #[trigger] names[i]) ==> utf8_len(names[i])
                <= utf8_len(names[k as int])
            &&& forall|i: int| 0 <= i < k && fuzzy_matches(model, #[trigger] names[i]) ==> utf8_len(names[i])
                < utf8_len(names[k as int])
        },
    }
}

/// Find the best fuzzy match of a model name among registered names.
pub fn best_fuzzy_match(model: &str, registered: &Vec<String>) -> (r: Option<usize>)
    ensures
        is_best_match(model@, registered@.map_values(|s: String| s@), r),
{
    let ghost names = registered@.map_values(|s: String| s@);
    let mut best: Option<usize> = None;
    let mut best_len: usize = 0;
    let mut i: usize = 0;
    while i < registered.len()
        invariant
            0 <= i <= registered@.len(),
            names == registered@.map_values(|s: String| s@),
            is_best_match(model@, names.take(i as int), best),
            best matches Some(k) ==> best_len == utf8_len(names[k as int]),
        decreases registered@.len() - i,
    {
        let name = registered[i].as_str();
        proof {
            assert(names[i as int] == name@);
            assert(names.take(i + 1).drop_last() =~= names.take(i as int));
        }
        let m = contains_text(model, name) || contains_text(name, model);
        let ghost old_best = best;
        if m {
            let len = str_len(name);
            let better = match best {
                None => true,
                Some(_) => len > best_len,
            };
            if better {
                best = Some(i);
                best_len = len;
            }
        }
        proof {
            assert forall|q: int| 0 <= q < i + 1 implies #[trigger] names.take(i + 1)[q] == names[q] by {}
            assert(is_best_match(model@, names.take(i + 1), best));
        }
        i = i + 1;
    }
    proof {
        assert(names.take(i as int) =~= names);
    }
    best
}

/// The text of each key.
pub open spec fn key_views(keys: Seq<String>) -> Seq<Seq<char>> {
    string_views(keys)
}

/// The model part of a catalog key of `provider`, if the key is one.
pub open spec fn key_model(key: Seq<char>, provider: Seq<char>) -> Option<Seq<char>> {
    let p = provider + "::"@;
    if p.len() <= key.len() && key.take(p.len() as int) == p {
        Some(key.skip(p.len() as int))
    } else {
        None
    }
}

/// The models of `provider` among catalog keys, each with its key's index,
/// in the order of the keys.
pub open spec fn provider_entries(keys: Seq<Seq<char>>, provider: Seq<char>) -> Seq<(int, Seq<char>)>
    decreases keys.len(),
{
    if keys.len() == 0 {
        Seq::empty()
    } else {
        let prev = provider_entries(keys.drop_last(), provider);
        match key_model(keys.last(), provider) {
            Some(m) => prev.push((keys.len() - 1, m)),
            None => prev,
        }
    }
}

/// The names of entries.
pub open spec fn entry_names(es: Seq<(int, Seq<char>)>) -> Seq<Seq<char>> {
    es.map_values(|e: (int, Seq<char>)| e.1)
}

/// The key a fuzzy lookup of `model` under `provider` finds: the exact
/// key when there is one, else the key of the best fuzzy match among the
/// provider's models.
pub open spec fn fuzzy_lookup_result(
    provider: Seq<char>,
    model: Seq<char>,
    keys: Seq<Seq<char>>,
    r: Option<usize>,
) -> bool {
    if exists|i: int| 0 <= i < keys.len() && #[trigger] keys[i] == model_key(provider, model) {
        r matches Some(k) && k < keys.len() && keys[k as int] == model_key(provider, model)
    } else {
        let es = provider_entries(keys, provider);
        match r {
            None => is_best_match(model, entry_names(es), None),
            Some(k) => exists|j: int|
                0 <= j < es.len() && #[trigger] es[j].0 == k && is_best_match(model, entry_names(es), Some(j as usize)),
        }
    }
}

/// The model part of `key` after `prefix`, if `key` starts with it.
fn after_prefix(key: &str, prefix: &str) -> (r: Option<String>)
    ensures
        match r {
            Some(m) => prefix@.len() <= key@.len() && key@.take(prefix@.len() as int) == prefix@
                && m@ == key@.skip(prefix@.len() as int),
            None => !(prefix@.len() <= key@.len() && key@.take(prefix@.len() as int) == prefix@),
        },
{
    let kc = chars_of(key);
    let pc = chars_of(prefix);
    if pc.len() > kc.len() {
        return None;
    }
    let mut i: usize = 0;
    while i < pc.len()
        invariant
            kc@ == key@,
            pc@ == prefix@,
            pc@.len() <= kc@.len(),
            0 <= i <= pc@.len(),
            forall|q: int| 0 <= q < i ==> kc@[q] == pc@[q],
        decreases pc@.len() - i,
    {
        if kc[i] != pc[i] {
            proof {
                assert(key@.take(prefix@.len() as int)[i as int] != prefix@[i as int]);
            }
            return None;
        }
        i = i + 1;
    }
    proof {
        assert(key@.take(prefix@.len() as int) =~= prefix@);
    }
    let m = string_of_range(&kc, pc.len(), kc.len());
    proof {
        assert(m@ =~= key@.skip(prefix@.len() as int));
    }
    Some(m)
}

/// The models of `provider` among catalog keys, with the keys' indexes.
fn provider_models(provider: &str, keys: &Vec<String>) -> (r: (Vec<usize>, Vec<String>))
    ensures
        r.0@.len() == r.1@.len(),
        r.0@.len() == provider_entries(key_views(keys@), provider@).len(),
        forall|j: int| 0 <= j < r.0@.len() ==> {
            let e = #[trigger] provider_entries(key_views(keys@), provider@)[j];
            r.0@[j] == e.0 && r.1@[j]@ == e.1
        },
{
    let ghost ks = key_views(keys@);
    let mut prefix = provider.to_owned();
    push_str(&mut prefix, "::");
    proof {
        reveal_strlit("::");
    }
    let mut idx: Vec<usize> = Vec::new();
    let mut names: Vec<String> = Vec::new();
    let mut i: usize = 0;
    while i < keys.len()
        invariant
            0 <= i <= keys@.len(),
            ks == key_views(keys@),
            prefix@ == provider@ + "::"@,
            idx@.len() == names@.len(),
            idx@.len() == provider_entries(ks.take(i as int), provider@).len(),
            forall|j: int| 0 <= j < idx@.len() ==> {
                let e = #[trigger] provider_entries(ks.take(i as int), provider@)[j];
                idx@[j] == e.0 && names@[j]@ == e.1
            },
        decreases keys@.len() - i,
    {
        proof {
            assert(ks.take(i + 1).drop_last() =~= ks.take(i as int));
            assert(ks.take(i + 1).last() == keys@[i as int]@);
        }
        match after_prefix(keys[i].as_str(), prefix.as_str()) {
            Some(m) => {
                idx.push(i);
                names.push(m);
            },
            None => {},
        }
        i = i + 1;
    }
    proof {
        assert(ks.take(i as int) =~= ks);
    }
    (idx, names)
}

/// Look a model up among catalog keys: the exact key `provider::model`
/// first, else the longest of the provider's model names that holds the
/// queried name or is held by it.
pub fn fuzzy_lookup(provider: &str, model: &str, keys: &Vec<String>) -> (r: Option<usize>)
    ensures
        fuzzy_lookup_result(provider@, model@, key_views(keys@), r),
{
    let ghost ks = key_views(keys@);
    let exact = make_key(provider, model);
    let mut i: usize = 0;
    while i < keys.len()
        invariant
            0 <= i <= keys@.len(),
            ks == key_views(keys@),
            exact@ == model_key(provider@, model@),
            forall|q: int| 0 <= q < i ==> ks[q] != model_key(provider@, model@),
        decreases keys@.len() - i,
    {
        if str_eq(keys[i].as_str(), exact.as_str()) {
            proof {
                assert(ks[i as int] == model_key(provider@, model@));
            }
            return Some(i);
        }
        i = i + 1;
    }
    let (idx, names) = provider_models(provider, keys);
    let ghost es = provider_entries(ks, provider@);
    proof {
        assert(names@.map_values(|s: String| s@) =~= entry_names(es));
    }
    match best_fuzzy_match(model, &names) {
        Some(j) => {
            proof {
                assert(es[j as int].0 == idx@[j as int]);
            }
            Some(idx[j])
        },
        None => None,
    }
}

/// The models of a provider among catalog keys, sorted.
pub fn models_for_provider(provider: &str, keys: &Vec<String>) -> (r: Vec<String>)
    ensures
        sorted_texts(key_views(r@)),
        key_views(r@).to_multiset() == entry_names(provider_entries(key_views(keys@), provider@)).to_multiset(),
{
    let (_idx, names) = provider_models(provider, keys);
    proof {
        assert(key_views(names@) =~= entry_names(provider_entries(key_views(keys@), provider@)));
    }
    sort_texts(names)
}

/// The default base URL of a local Ollama instance.
pub const DEFAULT_OLLAMA_URL: &'static str = "http://localhost:11434";

/// The text without trailing slashes.
pub open spec fn trim_slashes(s: Seq<char>) -> Seq<char>
    decreases s.len(),
{
    if s.len() > 0 && s.last() == '/' {
        trim_slashes(s.drop_last())
    } else {
        s
    }
}

/// The text without the suffix, repeated as often as it ends with it.
pub open spec fn trim_suffix_all(s: Seq<char>, suffix: Seq<char>) -> Seq<char>
    decreases s.len(),
{
    if suffix.len() > 0 && s.len() >= suffix.len() && s.skip(s.len() - suffix.len()) == suffix {
        trim_suffix_all(s.take(s.len() - suffix.len()), suffix)
    } else {
        s
    }
}

/// The root URL of an Ollama instance given either its root or its
/// OpenAI-compatible chat endpoint: trailing slashes, then the endpoint's
/// path, are removed.
pub open spec fn ollama_root(url: Seq<char>) -> Seq<char> {
    trim_suffix_all(trim_slashes(url), "/v1/chat/completions"@)
}

/// Normalize an Ollama base URL.
pub fn ollama_base_url(base_url: &str) -> (r: String)
    ensures
        r@ == ollama_root(base_url@),
{
    let chars = chars_of(base_url);
    let mut end: usize = chars.len();
    proof {
        assert(chars@.take(end as int) =~= chars@);
    }
    while end > 0 && chars[end - 1] == '/'
        invariant
            chars@ == base_url@,
            end <= chars@.len(),
            trim_slashes(chars@.take(end as int)) == trim_slashes(base_url@),
        decreases end,
    {
        proof {
            assert(chars@.take(end as int).drop_last() =~= chars@.take(end - 1));
        }
        end = end - 1;
    }
    let suffix = chars_of("/v1/chat/completions");
    proof {
        reveal_strlit("/v1/chat/completions");
    }
    let m = suffix.len();
    let ghost t = chars@.take(end as int);
    proof {
        assert(trim_slashes(t) == t);
    }
    loop
        invariant
            chars@ == base_url@,
            suffix@ == "/v1/chat/completions"@,
            m == suffix@.len(),
            m > 0,
            end <= chars@.len(),
            trim_suffix_all(chars@.take(end as int), suffix@) == ollama_root(base_url@),
        ensures
            end <= chars@.len(),
            chars@.take(end as int) == ollama_root(base_url@),
        decreases end,
    {
        if end < m {
            proof {
                assert(trim_suffix_all(chars@.take(end as int), suffix@) == chars@.take(end as int));
            }
            break;
        }
        let mut j: usize = 0;
        while j < m && chars[end - m + j] == suffix[j]
            invariant
                chars@ == base_url@,
                m == suffix@.len(),
                m <= end <= chars@.len(),
                0 <= j <= m,
                forall|q: int| 0 <= q < j ==> chars@[end - m + q] == suffix@[q],
            decreases m - j,
        {
            j = j + 1;
        }
        let ghost cur = chars@.take(end as int);
        if j < m {
            proof {
                assert(cur.skip(cur.len() - m)[j as int] != suffix@[j as int]);
                assert(trim_suffix_all(cur, suffix@) == cur);
            }
            break;
        }
        proof {
            assert(cur.skip(cur.len() - m) =~= suffix@);
            assert(cur.take(cur.len() - m) =~= chars@.take(end - m));
        }
        end = end - m;
    }
    string_of_range(&chars, 0, end)
}

/// A model that a local Ollama server has.
#[derive(Debug, Clone)]
pub struct OllamaModelSummary {
    /// The model's name as the server knows it.
    pub name: String,
    /// Its family.
    pub family: String,
    /// Its parameter count, as the server writes it.
    pub parameter_size: String,
    /// Its quantization level.
    pub quantization_level: String,
}

/// A value of the model metadata Ollama reports, as far as it is read:
/// the key, and the value when it is an unsigned integer or a string.
#[derive(Debug, Clone)]
pub struct ModelInfoEntry {
    pub key: String,
    pub as_u64: Option<u64>,
    pub as_str: Option<String>,
}

/// The context window assumed when none is reported.
pub const DEFAULT_CONTEXT_LENGTH: u64 = 131072;

/// Capabilities of a local model.
#[derive(Debug, Clone)]
pub struct OllamaModelDetail {
    pub context_length: u64,
    pub supports_vision: bool,
    pub family: String,
}

/// `s` ends with `suffix`.
pub open spec fn ends_with(s: Seq<char>, suffix: Seq<char>) -> bool {
    s.len() >= suffix.len() && s.skip(s.len() - suffix.len()) == suffix
}

/// How a metadata key is compared with a pattern.
#[derive(Clone, Copy, PartialEq, Eq, Debug)]
pub enum KeyTest {
    Suffix,
    Contains,
    Exact,
}

/// A key passes a test against a pattern.
pub open spec fn key_matches(k: Seq<char>, pat: Seq<char>, t: KeyTest) -> bool {
    match t {
        KeyTest::Suffix => ends_with(k, pat),
        KeyTest::Contains => contains_seq(k, pat),
        KeyTest::Exact => k == pat,
    }
}

/// The index of the first entry whose key passes the test.
pub open spec fn first_entry(es: Seq<ModelInfoEntry>, pat: Seq<char>, t: KeyTest) -> Option<int> {
    if exists|i: int| 0 <= i < es.len() && key_matches(#[trigger] es[i].key@, pat, t) {
        Some(choose|i: int| 0 <= i < es.len() && key_matches(es[i].key@, pat, t) && forall|j: int| 0 <= j < i ==> !key_matches(#[trigger] es[j].key@, pat, t))
    } else {
        None
    }
}

fn ends_with_text(s: &str, suffix: &str) -> (r: bool)
    ensures
        r == ends_with(s@, suffix@),
{
    let sc = chars_of(s);
    let xc = chars_of(suffix);
    if xc.len() > sc.len() {
        return false;
    }
    let n = sc.len();
    let off = sc.len() - xc.len();
    let mut j: usize = 0;
    while j < xc.len() && sc[off + j] == xc[j]
        invariant
            n == sc@.len(),
            sc@ == s@,
            xc@ == suffix@,
            off + xc@.len() == sc@.len(),
            0 <= j <= xc@.len(),
            forall|q: int| 0 <= q < j ==> sc@[off + q] == xc@[q],
        decreases xc@.len() - j,
    {
        j = j + 1;
    }
    if j < xc.len() {
        proof {
            assert(s@.skip(off as int)[j as int] != suffix@[j as int]);
        }
        return false;
    }
    proof {
        assert(s@.skip(off as int) =~= suffix@);
    }
    true
}

/// The capabilities read from a model's metadata, entries taken in the
/// order given: the first key ending in `.context_length` gives the context
/// window (when it holds a number; else the default); the first key
/// holding `.vision.block_count` tells vision support (a number above 0);
/// the key `general.architecture` gives the family (else `unknown`).
pub open spec fn detail_of(es: Seq<ModelInfoEntry>, d: OllamaModelDetail) -> bool {
    &&& d.context_length == match first_entry(es, ".context_length"@, KeyTest::Suffix) {
        Some(i) => match es[i].as_u64 {
            Some(n) => n,
            None => DEFAULT_CONTEXT_LENGTH,
        },
        None => DEFAULT_CONTEXT_LENGTH,
    }
    &&& d.supports_vision == match first_entry(es, ".vision.block_count"@, KeyTest::Contains) {
        Some(i) => match es[i].as_u64 {
            Some(n) => n > 0,
            None => false,
        },
        None => false,
    }
    &&& d.family@ == match first_entry(es, "general.architecture"@, KeyTest::Exact) {
        Some(i) => match es[i].as_str {
            Some(s) => s@,
            None => "unknown"@,
        },
        None => "unknown"@,
    }
}

/// Index of the first entry whose key passes the test against `pat`.
fn find_entry(es: &Vec<ModelInfoEntry>, pat: &str, t: KeyTest) -> (r: Option<usize>)
    ensures
        match r {
            Some(k) => first_entry(es@, pat@, t) == Some(k as int) && k < es@.len(),
            None => first_entry(es@, pat@, t) is None,
        },
{
    let mut i: usize = 0;
    while i < es.len()
        invariant
            0 <= i <= es@.len(),
            forall|j: int| 0 <= j < i ==> !key_matches(#[trigger] es@[j].key@, pat@, t),
        decreases es@.len() - i,
    {
        let key = es[i].key.as_str();
        let hit = match t {
            KeyTest::Suffix => ends_with_text(key, pat),
            KeyTest::Contains => contains_text(key, pat),
            KeyTest::Exact => str_eq(key, pat),
        };
        if hit {
            proof {
                assert(key_matches(es@[i as int].key@, pat@, t));
                let c = choose|q: int| 0 <= q < es@.len() && key_matches(es@[q].key@, pat@, t) && forall|j: int| 0 <= j < q ==> !key_matches(#[trigger] es@[j].key@, pat@, t);
                if c < i {
                    assert(!key_matches(es@[c].key@, pat@, t));
                } else if c > i {
                    assert(!key_matches(es@[i as int].key@, pat@, t));
                }
            }
            return Some(i);
        }
        i = i + 1;
    }
    None
}

/// Read a model's capabilities from its metadata entries.
pub fn detail_from_model_info(entries: &Vec<ModelInfoEntry>) -> (d: OllamaModelDetail)
    ensures
        detail_of(entries@, d),
{
    proof {
        reveal_strlit("unknown");
    }
    let ctx = match find_entry(entries, ".context_length", KeyTest::Suffix) {
        Some(i) => match entries[i].as_u64 {
            Some(n) => n,
            None => DEFAULT_CONTEXT_LENGTH,
        },
        None => DEFAULT_CONTEXT_LENGTH,
    };
    let vision = match find_entry(entries, ".vision.block_count", KeyTest::Contains) {
        Some(i) => match entries[i].as_u64 {
            Some(n) => n > 0,
            None => false,
        },
        None => false,
    };
    let family = match find_entry(entries, "general.architecture", KeyTest::Exact) {
        Some(i) => match &entries[i].as_str {
            Some(s) => s.clone(),
            None => "unknown".to_owned(),
        },
        None => "unknown".to_owned(),
    };
    OllamaModelDetail { context_length: ctx, supports_vision: vision, family }
}

} // verus!
