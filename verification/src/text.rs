//! Character-level string helpers shared by the library.

use vstd::prelude::*;
use vstd::utf8::*;

verus! {

/// Equality of two string slices by their characters (std's `==` on `str`).
#[verifier::external_body]
pub(crate) fn str_eq(a: &str, b: &str) -> (r: bool)
    ensures
        r == (a@ == b@),
{
    a == b
}

/// Append one character to a `String` (std's `String::push`).
#[verifier::external_body]
pub(crate) fn push_char(s: &mut String, c: char)
    ensures
        final(s)@ == old(s)@.push(c),
{
    s.push(c);
}

/// The characters of a string slice, collected into a vector.
pub fn chars_of(s: &str) -> (v: Vec<char>)
    ensures
        v@ == s@,
{
    let mut v: Vec<char> = Vec::new();
    for c in it: s.chars()
        invariant
            v@ == it.seq().take(it.index() as int),
            it.seq() == s@,
    {
        v.push(c);
    }
    v
}

/// Number of bytes of the UTF-8 encoding of one character.
pub open spec fn char_width(c: char) -> nat {
    if (c as u32) < 0x80 {
        1
    } else if (c as u32) < 0x800 {
        2
    } else if (c as u32) < 0x10000 {
        3
    } else {
        4
    }
}

/// Number of bytes of the UTF-8 encoding of a character sequence.
pub open spec fn utf8_len(s: Seq<char>) -> nat
    decreases s.len(),
{
    if s.len() == 0 {
        0
    } else {
        utf8_len(s.drop_last()) + char_width(s.last())
    }
}

proof fn lemma_encode_scalar_len(c: char)
    ensures
        encode_scalar(c as u32).len() == char_width(c),
{
    char_is_scalar(c);
}

proof fn lemma_encode_utf8_push(s: Seq<char>, c: char)
    ensures
        encode_utf8(s.push(c)) == encode_utf8(s) + encode_scalar(c as u32),
    decreases s.len(),
{
    if s.len() == 0 {
        assert(s.push(c).drop_first() =~= Seq::<char>::empty());
        assert(encode_utf8(Seq::<char>::empty()) =~= Seq::<u8>::empty());
        assert(encode_utf8(s.push(c)) =~= encode_scalar(c as u32));
    } else {
        assert(s.push(c).drop_first() =~= s.drop_first().push(c));
        lemma_encode_utf8_push(s.drop_first(), c);
        assert(encode_utf8(s.push(c)) =~= encode_utf8(s) + encode_scalar(c as u32));
    }
}

/// The UTF-8 byte count of a sequence is the length of its encoding.
pub proof fn lemma_utf8_len_is_encoding_len(s: Seq<char>)
    ensures
        utf8_len(s) == encode_utf8(s).len(),
    decreases s.len(),
{
    if s.len() == 0 {
    } else {
        let p = s.drop_last();
        lemma_utf8_len_is_encoding_len(p);
        assert(p.push(s.last()) =~= s);
        lemma_encode_utf8_push(p, s.last());
        lemma_encode_scalar_len(s.last());
    }
}

/// Byte count of a prefix grows by the width of the next character.
pub proof fn lemma_utf8_len_take_step(s: Seq<char>, k: int)
    requires
        0 <= k < s.len(),
    ensures
        utf8_len(s.take(k + 1)) == utf8_len(s.take(k)) + char_width(s[k]),
{
    assert(s.take(k + 1).drop_last() =~= s.take(k));
}

/// Byte counts of prefixes grow with the prefix.
pub proof fn lemma_utf8_len_take_mono(s: Seq<char>, j: int, k: int)
    requires
        0 <= j <= k <= s.len(),
    ensures
        utf8_len(s.take(j)) <= utf8_len(s.take(k)),
    decreases k - j,
{
    if j < k {
        lemma_utf8_len_take_step(s, k - 1);
        lemma_utf8_len_take_mono(s, j, k - 1);
    }
}

/// Byte counts of prefixes grow strictly with the prefix.
pub proof fn lemma_utf8_len_take_strict(s: Seq<char>, j: int, k: int)
    requires
        0 <= j < k <= s.len(),
    ensures
        utf8_len(s.take(j)) < utf8_len(s.take(k)),
{
    lemma_utf8_len_take_step(s, j);
    lemma_utf8_len_take_mono(s, j + 1, k);
}

/// `off` is a byte offset that falls between two characters of `text`.
pub open spec fn is_boundary(text: Seq<char>, off: int) -> bool {
    exists|k: int| 0 <= k <= text.len() && utf8_len(#[trigger] text.take(k)) == off
}

/// The number of characters before the byte offset `off`.
pub open spec fn boundary_index(text: Seq<char>, off: int) -> int {
    choose|k: int| 0 <= k <= text.len() && utf8_len(#[trigger] text.take(k)) == off
}

/// Two prefixes with the same byte count have the same length.
pub proof fn lemma_boundary_unique(text: Seq<char>, j: int, k: int)
    requires
        0 <= j <= text.len(),
        0 <= k <= text.len(),
        utf8_len(text.take(j)) == utf8_len(text.take(k)),
    ensures
        j == k,
{
    if j < k {
        lemma_utf8_len_take_strict(text, j, k);
    } else if k < j {
        lemma_utf8_len_take_strict(text, k, j);
    }
}

/// Byte count of a concatenation.
pub proof fn lemma_utf8_len_concat(a: Seq<char>, b: Seq<char>)
    ensures
        utf8_len(a + b) == utf8_len(a) + utf8_len(b),
    decreases b.len(),
{
    if b.len() == 0 {
        assert(a + b =~= a);
    } else {
        assert((a + b).drop_last() =~= a + b.drop_last());
        lemma_utf8_len_concat(a, b.drop_last());
    }
}

/// Byte length of a string slice, as UTF-8 (std's `str::len`).
pub fn byte_len(s: &str) -> (n: usize)
    requires
        utf8_len(s@) <= usize::MAX,
    ensures
        n == utf8_len(s@),
{
    proof {
        lemma_utf8_len_is_encoding_len(s@);
    }
    s.len()
}

/// Byte length of a string slice (std's `str::len`), which always fits.
pub fn str_len(s: &str) -> (n: usize)
    ensures
        n == utf8_len(s@),
{
    proof {
        lemma_utf8_len_is_encoding_len(s@);
    }
    s.as_bytes().len()
}

/// Number of bytes of the UTF-8 encoding of a character.
pub fn char_byte_len(c: char) -> (n: usize)
    ensures
        n == char_width(c),
{
    if (c as u32) < 0x80 {
        1
    } else if (c as u32) < 0x800 {
        2
    } else if (c as u32) < 0x10000 {
        3
    } else {
        4
    }
}

/// The largest number of leading characters of `s` whose encoding fits in
/// `max` bytes.
pub open spec fn fits_prefix(s: Seq<char>, max: int, k: int) -> bool {
    &&& 0 <= k <= s.len()
    &&& utf8_len(s.take(k)) <= max
    &&& (k < s.len() ==> utf8_len(s.take(k + 1)) > max)
}

/// Count of leading characters of `s` whose encoding fits in `max` bytes
/// (the last char boundary at or before `max`).
pub fn fitting_prefix(s: &Vec<char>, max: usize) -> (k: usize)
    ensures
        fits_prefix(s@, max as int, k as int),
{
    let mut k: usize = 0;
    let mut used: usize = 0;
    while k < s.len()
        invariant
            0 <= k <= s@.len(),
            used == utf8_len(s@.take(k as int)),
            used <= max,
        decreases s@.len() - k,
    {
        proof {
            lemma_utf8_len_take_step(s@, k as int);
        }
        let w = char_byte_len(s[k]);
        if w > max - used {
            return k;
        }
        used = used + w;
        k = k + 1;
    }
    proof {
        assert(s@.take(k as int) =~= s@);
    }
    k
}

/// Whether a text's UTF-8 encoding fits in `max` bytes.
pub fn fits_in_bytes(s: &str, max: usize) -> (r: bool)
    ensures
        r == (utf8_len(s@) <= max),
{
    let chars = chars_of(s);
    let k = fitting_prefix(&chars, max);
    proof {
        if k < chars@.len() {
            lemma_utf8_len_take_mono(chars@, k + 1, chars@.len() as int);
        }
        assert(chars@.take(chars@.len() as int) =~= chars@);
    }
    k == chars.len()
}

/// Whether byte offset `off` falls between two characters of `s`.
pub fn byte_boundary_at(s: &str, off: usize) -> (r: bool)
    ensures
        r == is_boundary(s@, off as int),
{
    let chars = chars_of(s);
    let mut k: usize = 0;
    let mut used: usize = 0;
    while k < chars.len() && used < off
        invariant
            0 <= k <= chars@.len(),
            chars@ == s@,
            used == utf8_len(chars@.take(k as int)),
            used <= off,
            forall|j: int| 0 <= j < k ==> utf8_len(#[trigger] chars@.take(j)) < off,
        decreases chars@.len() - k,
    {
        proof {
            lemma_utf8_len_take_step(chars@, k as int);
        }
        let w = char_byte_len(chars[k]);
        if w > off - used {
            proof {
                assert forall|j: int| 0 <= j <= chars@.len() implies utf8_len(#[trigger] chars@.take(j)) != off as int by {
                    if j > k {
                        lemma_utf8_len_take_mono(chars@, k + 1, j);
                    }
                }
            }
            return false;
        }
        used = used + w;
        k = k + 1;
    }
    if used == off {
        return true;
    }
    proof {
        assert forall|j: int| 0 <= j <= chars@.len() implies utf8_len(#[trigger] chars@.take(j)) != off as int by {
            if j > k {
                assert(k == chars@.len());
            } else if j == k {
            }
        }
    }
    false
}

/// Decimal digits of a natural number.
pub open spec fn decimal(n: nat) -> Seq<char>
    decreases n,
{
    if n < 10 {
        seq![digit_char(n)]
    } else {
        decimal(n / 10).push(digit_char(n % 10))
    }
}

pub open spec fn digit_char(d: nat) -> char {
    if d == 0 { '0' }
    else if d == 1 { '1' }
    else if d == 2 { '2' }
    else if d == 3 { '3' }
    else if d == 4 { '4' }
    else if d == 5 { '5' }
    else if d == 6 { '6' }
    else if d == 7 { '7' }
    else if d == 8 { '8' }
    else { '9' }
}

fn digit(d: u64) -> (c: char)
    requires
        d < 10,
    ensures
        c == digit_char(d as nat),
{
    if d == 0 { '0' }
    else if d == 1 { '1' }
    else if d == 2 { '2' }
    else if d == 3 { '3' }
    else if d == 4 { '4' }
    else if d == 5 { '5' }
    else if d == 6 { '6' }
    else if d == 7 { '7' }
    else if d == 8 { '8' }
    else { '9' }
}

/// The decimal rendering of an unsigned integer, as `Display` gives it.
pub fn u64_to_decimal(n: u64) -> (s: String)
    ensures
        s@ == decimal(n as nat),
    decreases n,
{
    if n < 10 {
        let mut s = String::new();
        push_char(&mut s, digit(n));
        assert(s@ =~= decimal(n as nat));
        s
    } else {
        let mut s = u64_to_decimal(n / 10);
        push_char(&mut s, digit(n % 10));
        s
    }
}

/// The decimal rendering of a 128-bit unsigned integer.
pub fn u128_to_decimal(n: u128) -> (s: String)
    ensures
        s@ == decimal(n as nat),
    decreases n,
{
    if n < 10 {
        let mut s = String::new();
        push_char(&mut s, digit(n as u64));
        assert(s@ =~= decimal(n as nat));
        s
    } else {
        let mut s = u128_to_decimal(n / 10);
        push_char(&mut s, digit((n % 10) as u64));
        s
    }
}

/// The UTF-8 byte count of a character vector.
pub fn utf8_total(v: &Vec<char>) -> (n: u128)
    ensures
        n == utf8_len(v@),
{
    let mut n: u128 = 0;
    let mut i: usize = 0;
    while i < v.len()
        invariant
            0 <= i <= v@.len(),
            n == utf8_len(v@.take(i as int)),
            n <= 4 * i,
        decreases v@.len() - i,
    {
        proof {
            lemma_utf8_len_take_step(v@, i as int);
        }
        let w = char_byte_len(v[i]);
        n = n + w as u128;
        i = i + 1;
    }
    proof {
        assert(v@.take(i as int) =~= v@);
    }
    n
}

/// Concatenation of two string slices into a new `String`.
pub fn cat(a: &str, b: &str) -> (s: String)
    ensures
        s@ == a@ + b@,
{
    let mut s = a.to_owned();
    s.append(b);
    s
}

/// Append to a `String`.
pub fn push_str(s: &mut String, t: &str)
    ensures
        final(s)@ == old(s)@ + t@,
{
    s.append(t);
}

/// The items separated by `sep`.
pub open spec fn joined_with(items: Seq<Seq<char>>, sep: Seq<char>) -> Seq<char>
    decreases items.len(),
{
    if items.len() == 0 {
        seq![]
    } else if items.len() == 1 {
        items[0]
    } else {
        joined_with(items.drop_last(), sep) + sep + items.last()
    }
}

/// Join strings with a separator.
pub fn join_with(items: &Vec<String>, sep: &str) -> (s: String)
    ensures
        s@ == joined_with(items@.map_values(|x: String| x@), sep@),
{
    let ghost v = items@.map_values(|x: String| x@);
    let mut s = String::new();
    let mut i: usize = 0;
    while i < items.len()
        invariant
            0 <= i <= items@.len(),
            v == items@.map_values(|x: String| x@),
            s@ == joined_with(v.take(i as int), sep@),
        decreases items@.len() - i,
    {
        proof {
            assert(v.take(i + 1).drop_last() =~= v.take(i as int));
        }
        if i > 0 {
            push_str(&mut s, sep);
        }
        push_str(&mut s, items[i].as_str());
        proof {
            assert(s@ =~= joined_with(v.take(i + 1), sep@));
        }
        i = i + 1;
    }
    proof {
        assert(v.take(i as int) =~= v);
    }
    s
}

/// A `String` built from a character vector.
pub fn string_of(v: &Vec<char>) -> (s: String)
    ensures
        s@ == v@,
{
    let mut s = String::new();
    let mut i: usize = 0;
    while i < v.len()
        invariant
            0 <= i <= v@.len(),
            s@ == v@.take(i as int),
        decreases v@.len() - i,
    {
        push_char(&mut s, v[i]);
        assert(v@.take(i + 1) =~= v@.take(i as int).push(v@[i as int]));
        i += 1;
    }
    assert(v@.take(v@.len() as int) =~= v@);
    s
}

/// A `String` made of the characters `v[from..to]`.
pub fn string_of_range(v: &Vec<char>, from: usize, to: usize) -> (s: String)
    requires
        from <= to <= v@.len(),
    ensures
        s@ == v@.subrange(from as int, to as int),
{
    let mut s = String::new();
    let mut i: usize = from;
    while i < to
        invariant
            from <= i <= to,
            to <= v@.len(),
            s@ == v@.subrange(from as int, i as int),
        decreases to - i,
    {
        push_char(&mut s, v[i]);
        assert(v@.subrange(from as int, i + 1) =~= v@.subrange(from as int, i as int).push(v@[i as int]));
        i += 1;
    }
    s
}

/// Unicode lowercase mapping of a string (std's `str::to_lowercase`).
pub uninterp spec fn unicode_lowercase(s: Seq<char>) -> Seq<char>;

/// Lowercase a string with std's `str::to_lowercase`; the result is named
/// `unicode_lowercase`.
#[verifier::external_body]
pub(crate) fn to_lowercase(s: &str) -> (r: String)
    ensures
        r@ == unicode_lowercase(s@),
{
    s.to_lowercase()
}

/// Path join on Unix paths, as `Path::join` does it: an absolute second path
/// replaces the first; otherwise a `/` separates them unless the first is
/// empty or already ends with one.
pub open spec fn path_join(base: Seq<char>, rel: Seq<char>) -> Seq<char> {
    if rel.len() > 0 && rel[0] == '/' {
        rel
    } else if base.len() == 0 {
        rel
    } else if base.last() == '/' {
        base + rel
    } else {
        base + seq!['/'] + rel
    }
}

/// Join two Unix paths.
pub fn join_path(base: &str, rel: &str) -> (r: String)
    ensures
        r@ == path_join(base@, rel@),
{
    let rc = chars_of(rel);
    if rc.len() > 0 && rc[0] == '/' {
        return rel.to_owned();
    }
    let bc = chars_of(base);
    if bc.len() == 0 {
        return rel.to_owned();
    }
    let mut r = base.to_owned();
    if bc[bc.len() - 1] != '/' {
        push_char(&mut r, '/');
    }
    push_str(&mut r, rel);
    r
}

/// A Unix path is absolute when it starts with `/`.
pub open spec fn is_absolute_path(p: Seq<char>) -> bool {
    p.len() > 0 && p[0] == '/'
}

/// Whether a Unix path is absolute.
pub fn is_absolute(p: &str) -> (r: bool)
    ensures
        r == is_absolute_path(p@),
{
    let c = chars_of(p);
    c.len() > 0 && c[0] == '/'
}

/// The text of each string.
pub open spec fn string_views(v: Seq<String>) -> Seq<Seq<char>> {
    v.map_values(|s: String| s@)
}

/// Lexicographic order of texts by code point, which is the order of
/// their UTF-8 bytes.
pub open spec fn text_le(a: Seq<char>, b: Seq<char>) -> bool
    decreases a.len(),
{
    if a.len() == 0 {
        true
    } else if b.len() == 0 {
        false
    } else if a[0] != b[0] {
        (a[0] as int) < (b[0] as int)
    } else {
        text_le(a.skip(1), b.skip(1))
    }
}

/// Texts in ascending order.
pub open spec fn sorted_texts(s: Seq<Seq<char>>) -> bool {
    forall|i: int, j: int| 0 <= i < j < s.len() ==> text_le(#[trigger] s[i], #[trigger] s[j])
}

proof fn lemma_text_le_total(a: Seq<char>, b: Seq<char>)
    ensures
        text_le(a, b) || text_le(b, a),
    decreases a.len(),
{
    if a.len() > 0 && b.len() > 0 && a[0] == b[0] {
        lemma_text_le_total(a.skip(1), b.skip(1));
    }
}

proof fn lemma_text_le_trans(a: Seq<char>, b: Seq<char>, c: Seq<char>)
    requires
        text_le(a, b),
        text_le(b, c),
    ensures
        text_le(a, c),
    decreases a.len(),
{
    if a.len() > 0 && b.len() > 0 && c.len() > 0 && a[0] == b[0] && b[0] == c[0] {
        lemma_text_le_trans(a.skip(1), b.skip(1), c.skip(1));
    }
}

fn text_le_exec(a: &str, b: &str) -> (r: bool)
    ensures
        r == text_le(a@, b@),
{
    let ac = chars_of(a);
    let bc = chars_of(b);
    let mut i: usize = 0;
    proof {
        assert(a@.skip(0) =~= a@);
        assert(b@.skip(0) =~= b@);
    }
    while i < ac.len() && i < bc.len() && ac[i] == bc[i]
        invariant
            ac@ == a@,
            bc@ == b@,
            0 <= i <= ac@.len(),
            i <= bc@.len(),
            text_le(a@, b@) == text_le(a@.skip(i as int), b@.skip(i as int)),
        decreases ac@.len() - i,
    {
        proof {
            assert(a@.skip(i as int).skip(1) =~= a@.skip(i + 1));
            assert(b@.skip(i as int).skip(1) =~= b@.skip(i + 1));
        }
        i = i + 1;
    }
    if i == ac.len() {
        true
    } else if i == bc.len() {
        false
    } else {
        ac[i] < bc[i]
    }
}

/// Sort texts in ascending order (as std's `sort` does on strings).
pub fn sort_texts(v: Vec<String>) -> (r: Vec<String>)
    ensures
        sorted_texts(string_views(r@)),
        string_views(r@).to_multiset() == string_views(v@).to_multiset(),
{
    let mut r: Vec<String> = Vec::new();
    let n = v.len();
    let mut i: usize = 0;
    proof {
        assert(string_views(v@.take(0)) =~= string_views(r@));
    }
    while i < n
        invariant
            0 <= i <= n,
            n == v@.len(),
            sorted_texts(string_views(r@)),
            string_views(r@).to_multiset() == string_views(v@.take(i as int)).to_multiset(),
        decreases n - i,
    {
        let x = v[i].clone();
        let mut p: usize = 0;
        while p < r.len() && text_le_exec(r[p].as_str(), x.as_str())
            invariant
                0 <= p <= r@.len(),
                forall|q: int| 0 <= q < p ==> text_le(#[trigger] r@[q]@, x@),
            decreases r@.len() - p,
        {
            p = p + 1;
        }
        let ghost rv = string_views(r@);
        proof {
            if p < r@.len() {
                assert(!text_le(rv[p as int], x@));
                lemma_text_le_total(rv[p as int], x@);
            }
        }
        r.insert(p, x);
        proof {
            let nv = string_views(r@);
            assert(nv =~= rv.insert(p as int, x@));
            assert forall|a: int, b: int| 0 <= a < b < nv.len() implies text_le(#[trigger] nv[a], #[trigger] nv[b]) by {
                if b < p {
                } else if b == p {
                    assert(text_le(r@[a]@, x@));
                } else if a == p {
                    if p + 1 < b {
                        lemma_text_le_trans(x@, rv[p as int], rv[b - 1]);
                    }
                } else if a < p {
                    assert(text_le(rv[a], x@));
                    lemma_text_le_trans(rv[a], x@, rv[p as int]);
                    if p + 1 < b {
                        lemma_text_le_trans(rv[a], rv[p as int], rv[b - 1]);
                    }
                } else {
                }
            }
            vstd::seq_lib::to_multiset_insert(rv, p as int, x@);
            assert(string_views(v@.take(i + 1)) =~= string_views(v@.take(i as int)).push(x@));
            vstd::seq_lib::to_multiset_build(string_views(v@.take(i as int)), x@);
        }
        i = i + 1;
    }
    proof {
        assert(v@.take(n as int) =~= v@);
    }
    r
}

} // verus!
