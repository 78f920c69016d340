//! Text as a sequence of characters, measured in UTF-8 bytes.

use vstd::prelude::*;
use vstd::string::StrSliceExecFns;
use vstd::string::StringExecFns;
use vstd::utf8::*;

verus! {

/// `String::push` appends one character.
pub assume_specification[ String::push ](s: &mut String, c: char)
    ensures
        final(s)@ == old(s)@.push(c),
;

/// The characters with the Unicode property `White_Space`.
pub open spec fn white_space(c: char) -> bool {
    ||| '\u{9}' <= c <= '\u{d}'
    ||| c == '\u{20}' || c == '\u{85}' || c == '\u{a0}' || c == '\u{1680}'
    ||| '\u{2000}' <= c <= '\u{200a}'
    ||| c == '\u{2028}' || c == '\u{2029}' || c == '\u{202f}' || c == '\u{205f}' || c == '\u{3000}'
}

/// Whether `c` is white space.
pub fn is_white_space(c: char) -> (r: bool)
    ensures
        r == white_space(c),
{
    ('\u{9}' <= c && c <= '\u{d}') || c == '\u{20}' || c == '\u{85}' || c == '\u{a0}'
        || c == '\u{1680}' || ('\u{2000}' <= c && c <= '\u{200a}') || c == '\u{2028}'
        || c == '\u{2029}' || c == '\u{202f}' || c == '\u{205f}' || c == '\u{3000}'
}

/// The letters and numbers among the characters up to U+00FF.
pub open spec fn latin_alphanumeric(c: char) -> bool {
    ||| '0' <= c <= '9' || 'A' <= c <= 'Z' || 'a' <= c <= 'z'
    ||| c == '\u{aa}' || c == '\u{b2}' || c == '\u{b3}' || c == '\u{b5}' || c == '\u{b9}' || c == '\u{ba}'
    ||| '\u{bc}' <= c <= '\u{be}'
    ||| '\u{c0}' <= c <= '\u{ff}' && c != '\u{d7}' && c != '\u{f7}'
}

/// Whether `char::is_alphanumeric` holds of `c`, a character beyond U+00FF.
pub uninterp spec fn unicode_alphanumeric(c: char) -> bool;

/// The letters and numbers.
pub open spec fn alphanumeric(c: char) -> bool {
    if c <= '\u{ff}' {
        latin_alphanumeric(c)
    } else {
        unicode_alphanumeric(c)
    }
}

/// `char::is_alphanumeric`, which looks at the character alone. It holds of the characters with the
/// Unicode property `Alphabetic` or one of the general categories for numbers.
#[verifier::external_body]
pub(crate) fn is_alphanumeric(c: char) -> (r: bool)
    ensures
        c <= '\u{ff}' ==> r == latin_alphanumeric(c),
        c > '\u{ff}' ==> r == unicode_alphanumeric(c),
{
    c.is_alphanumeric()
}

/// All characters of `s` are ASCII characters.
pub open spec fn is_ascii_text(s: Seq<char>) -> bool {
    forall|i: int| 0 <= i < s.len() ==> #[trigger] s[i] <= '\u{7f}'
}

/// The lower case of an ASCII character.
pub open spec fn ascii_lower(c: char) -> char {
    if 'A' <= c <= 'Z' {
        (c as u8 + 32) as char
    } else {
        c
    }
}

/// `s` with its ASCII letters in lower case.
pub open spec fn ascii_lowercase(s: Seq<char>) -> Seq<char> {
    Seq::new(s.len(), |i: int| ascii_lower(s[i]))
}

/// What `str::to_lowercase` makes of characters that are not all ASCII characters.
pub uninterp spec fn unicode_lowercase(s: Seq<char>) -> Seq<char>;

/// `s` in lower case.
pub open spec fn lowercase(s: Seq<char>) -> Seq<char> {
    if is_ascii_text(s) {
        ascii_lowercase(s)
    } else {
        unicode_lowercase(s)
    }
}

/// `str::to_lowercase`, whose result depends on the characters alone. Of ASCII characters it
/// changes the letters from `A` to `Z`, each to its small letter.
#[verifier::external_body]
pub(crate) fn to_lowercase(s: &str) -> (r: String)
    ensures
        is_ascii_text(s@) ==> r@ == ascii_lowercase(s@),
        !is_ascii_text(s@) ==> r@ == unicode_lowercase(s@),
{
    s.to_lowercase()
}

/// The number of bytes of the UTF-8 encoding of `s`.
pub open spec fn byte_len(s: Seq<char>) -> nat {
    encode_utf8(s).len()
}

/// The number of bytes of the UTF-8 encoding of `c`.
pub open spec fn char_width(c: char) -> nat {
    encode_scalar(c as u32).len()
}

/// Byte `n` is where the character with index `k` starts, or the end of `s` if there is none.
pub open spec fn starts_at(s: Seq<char>, k: int, n: int) -> bool {
    0 <= k <= s.len() && byte_len(s.take(k)) == n
}

/// Byte `n` is the start of a character of `s`, or its end.
pub open spec fn char_boundary(s: Seq<char>, n: int) -> bool {
    exists|k: int| #[trigger] starts_at(s, k, n)
}

/// The number of characters of `s` before byte `n`.
pub open spec fn chars_before(s: Seq<char>, n: int) -> int {
    choose|k: int| #[trigger] starts_at(s, k, n)
}

/// The characters of `s` from byte `n` on.
pub open spec fn from_byte(s: Seq<char>, n: int) -> Seq<char> {
    s.skip(chars_before(s, n))
}

/// The characters of `s` from byte `from` to byte `to`.
pub open spec fn between_bytes(s: Seq<char>, from: int, to: int) -> Seq<char> {
    s.subrange(chars_before(s, from), chars_before(s, to))
}

/// `prefix` is how `s` starts.
pub open spec fn is_prefix(prefix: Seq<char>, s: Seq<char>) -> bool {
    prefix.len() <= s.len() && s.take(prefix.len() as int) == prefix
}

pub proof fn lemma_byte_len_concat(a: Seq<char>, b: Seq<char>)
    ensures
        byte_len(a + b) == byte_len(a) + byte_len(b),
    decreases a.len(),
{
    if a.len() == 0 {
        assert(a + b =~= b);
    } else {
        assert((a + b).drop_first() =~= a.drop_first() + b);
        lemma_byte_len_concat(a.drop_first(), b);
    }
}

pub proof fn lemma_byte_len_one(c: char)
    ensures
        byte_len(seq![c]) == char_width(c),
        1 <= char_width(c) <= 4,
        (c as u32) < 0x80 <==> char_width(c) == 1,
{
    reveal_with_fuel(encode_utf8, 2);
    assert(seq![c].drop_first() =~= Seq::<char>::empty());
    assert(encode_utf8(seq![c]) =~= encode_scalar(c as u32));
}

pub proof fn lemma_byte_len_push(s: Seq<char>, c: char)
    ensures
        byte_len(s.push(c)) == byte_len(s) + char_width(c),
        1 <= char_width(c) <= 4,
{
    assert(s.push(c) =~= s + seq![c]);
    lemma_byte_len_concat(s, seq![c]);
    lemma_byte_len_one(c);
}

pub proof fn lemma_byte_len_take_next(s: Seq<char>, k: int)
    requires
        0 <= k < s.len(),
    ensures
        byte_len(s.take(k + 1)) == byte_len(s.take(k)) + char_width(s[k]),
        1 <= char_width(s[k]) <= 4,
{
    assert(s.take(k + 1) =~= s.take(k).push(s[k]));
    lemma_byte_len_push(s.take(k), s[k]);
}

pub proof fn lemma_byte_len_split(s: Seq<char>, k: int)
    requires
        0 <= k <= s.len(),
    ensures
        byte_len(s) == byte_len(s.take(k)) + byte_len(s.skip(k)),
{
    assert(s =~= s.take(k) + s.skip(k));
    lemma_byte_len_concat(s.take(k), s.skip(k));
}

/// A longer prefix has more bytes, at least one for each character more.
pub proof fn lemma_byte_len_take_grows(s: Seq<char>, i: int, j: int)
    requires
        0 <= i <= j <= s.len(),
    ensures
        byte_len(s.take(i)) + (j - i) <= byte_len(s.take(j)),
    decreases j - i,
{
    if i < j {
        lemma_byte_len_take_grows(s, i, j - 1);
        lemma_byte_len_take_next(s, j - 1);
    }
}

pub proof fn lemma_byte_len_at_least(s: Seq<char>)
    ensures
        byte_len(s) >= s.len(),
        s.len() == 0 ==> byte_len(s) == 0,
{
    lemma_byte_len_take_grows(s, 0, s.len() as int);
    assert(s.take(s.len() as int) =~= s);
}

/// No two characters start at the same byte.
pub proof fn lemma_starts_at_unique(s: Seq<char>, k: int, n: int)
    requires
        starts_at(s, k, n),
    ensures
        char_boundary(s, n),
        chars_before(s, n) == k,
{
    let c = chars_before(s, n);
    assert(starts_at(s, c, n));
    if c < k {
        lemma_byte_len_take_grows(s, c, k);
    } else if k < c {
        lemma_byte_len_take_grows(s, k, c);
    }
}

/// A byte that starts a character among the first `k` still does where only what follows them is
/// another text.
pub proof fn lemma_boundary_kept(s: Seq<char>, t: Seq<char>, k: int, n: int)
    requires
        0 <= k <= s.len(),
        k <= t.len(),
        s.take(k) == t.take(k),
        char_boundary(s, n),
        n <= byte_len(s.take(k)),
    ensures
        char_boundary(t, n),
        chars_before(t, n) == chars_before(s, n),
        chars_before(s, n) <= k,
{
    let c = chars_before(s, n);
    assert(starts_at(s, c, n));
    if k < c {
        lemma_byte_len_take_grows(s, k, c);
    }
    assert(s.take(c) =~= s.take(k).take(c));
    assert(t.take(c) =~= t.take(k).take(c));
    lemma_starts_at_unique(t, c, n);
}

/// The number of bytes of `c` in UTF-8.
pub fn width(c: char) -> (w: usize)
    ensures
        w == char_width(c),
        1 <= w <= 4,
{
    let v: u32 = c as u32;
    if v < 0x80 {
        1
    } else if v < 0x800 {
        2
    } else if v < 0x10000 {
        3
    } else {
        4
    }
}

/// The characters of `s`.
pub fn to_chars(s: &str) -> (v: Vec<char>)
    ensures
        v@ == s@,
{
    let mut v: Vec<char> = Vec::new();
    for c in it: s.chars()
        invariant
            it.seq() == s@,
            v@ == s@.take(it.index() as int),
    {
        v.push(c);
    }
    assert(s@.take(s@.len() as int) =~= s@);
    v
}

/// The number of bytes of `s`.
pub fn byte_count(s: &str) -> (n: usize)
    ensures
        n == byte_len(s@),
{
    s.as_bytes().len()
}

/// The index of the character of `s` that starts at byte `n`.
pub fn locate(s: &str, n: usize) -> (r: Option<usize>)
    ensures
        r is Some <==> char_boundary(s@, n as int),
        r matches Some(k) ==> starts_at(s@, k as int, n as int) && k == chars_before(s@, n as int),
{
    let total: usize = byte_count(s);
    if n > total {
        proof {
            assert forall|j: int| !starts_at(s@, j, n as int) by {
                if starts_at(s@, j, n as int) {
                    lemma_byte_len_split(s@, j);
                }
            }
        }
        return None;
    }
    let chars = to_chars(s);
    let mut k: usize = 0;
    let mut at: usize = 0;
    while at < n && k < chars.len()
        invariant
            k <= chars.len(),
            chars@ == s@,
            total == byte_len(s@),
            at == byte_len(s@.take(k as int)),
            forall|j: int| 0 <= j < k ==> byte_len(s@.take(j)) < n,
        decreases chars.len() - k,
    {
        proof {
            lemma_byte_len_take_next(s@, k as int);
            lemma_byte_len_split(s@, k + 1);
        }
        at = at + width(chars[k]);
        k = k + 1;
    }
    if at == n {
        proof {
            assert(starts_at(s@, k as int, n as int));
            lemma_starts_at_unique(s@, k as int, n as int);
        }
        Some(k)
    } else {
        proof {
            assert forall|j: int| !starts_at(s@, j, n as int) by {
                if k <= j <= s@.len() && starts_at(s@, j, n as int) {
                    lemma_byte_len_take_grows(s@, k as int, j);
                }
            }
        }
        None
    }
}

/// The first `k` characters of `s`.
pub fn take_chars(s: &str, k: usize) -> (r: &str)
    requires
        k <= s@.len(),
    ensures
        r@ == s@.take(k as int),
{
    s.substring_char(0, k)
}

/// What is left of `s` behind its first `k` characters.
pub fn skip_chars(s: &str, k: usize) -> (r: &str)
    requires
        k <= s@.len(),
    ensures
        r@ == s@.skip(k as int),
{
    let n: usize = s.unicode_len();
    s.substring_char(k, n)
}

/// `a` followed by `b` and `c`.
pub fn join(a: &str, b: &str, c: &str) -> (r: String)
    ensures
        r@ == a@ + b@ + c@,
{
    let mut r = a.to_owned();
    r.append(b);
    r.append(c);
    r
}

/// Whether `s` starts with `prefix`.
pub fn starts_with(s: &str, prefix: &str) -> (r: bool)
    ensures
        r == is_prefix(prefix@, s@),
{
    let a = to_chars(s);
    let b = to_chars(prefix);
    if b.len() > a.len() {
        return false;
    }
    let mut i: usize = 0;
    while i < b.len()
        invariant
            i <= b.len() <= a.len(),
            a@ == s@,
            b@ == prefix@,
            forall|j: int| 0 <= j < i ==> a@[j] == b@[j],
        decreases b.len() - i,
    {
        if a[i] != b[i] {
            assert(s@.take(prefix@.len() as int)[i as int] != prefix@[i as int]);
            return false;
        }
        i = i + 1;
    }
    assert(s@.take(prefix@.len() as int) =~= prefix@);
    true
}

/// Whether `a` and `b` are the same.
pub fn same_text(a: &str, b: &str) -> (r: bool)
    ensures
        r == (a@ == b@),
{
    proof {
        assert(a@.take(a@.len() as int) =~= a@);
    }
    a.unicode_len() == b.unicode_len() && starts_with(a, b)
}

/// `s` without the white space at its end.
pub open spec fn trimmed_end(s: Seq<char>) -> Seq<char>
    decreases s.len(),
{
    if s.len() > 0 && white_space(s.last()) {
        trimmed_end(s.drop_last())
    } else {
        s
    }
}

/// `s` without the white space at its start.
pub open spec fn trimmed_start(s: Seq<char>) -> Seq<char>
    decreases s.len(),
{
    if s.len() > 0 && white_space(s[0]) {
        trimmed_start(s.drop_first())
    } else {
        s
    }
}

/// `s` without the white space at its ends.
pub open spec fn trimmed(s: Seq<char>) -> Seq<char> {
    trimmed_start(trimmed_end(s))
}

/// `s` without the white space at its end.
pub fn trim_end(s: &str) -> (r: &str)
    ensures
        r@ == trimmed_end(s@),
{
    let chars = to_chars(s);
    let mut k: usize = chars.len();
    assert(s@.take(k as int) =~= s@);
    while k > 0 && is_white_space(chars[k - 1])
        invariant
            k <= chars.len(),
            chars@ == s@,
            trimmed_end(s@) == trimmed_end(s@.take(k as int)),
        decreases k,
    {
        assert(s@.take(k as int).drop_last() =~= s@.take(k - 1));
        k = k - 1;
    }
    take_chars(s, k)
}

/// `s` without the white space at its ends.
pub fn trim(s: &str) -> (r: &str)
    ensures
        r@ == trimmed(s@),
{
    let t = trim_end(s);
    let chars = to_chars(t);
    let mut k: usize = 0;
    assert(t@.skip(0) =~= t@);
    while k < chars.len() && is_white_space(chars[k])
        invariant
            k <= chars.len(),
            chars@ == t@,
            trimmed_start(t@) == trimmed_start(t@.skip(k as int)),
        decreases chars.len() - k,
    {
        assert(t@.skip(k as int).drop_first() =~= t@.skip(k + 1));
        k = k + 1;
    }
    skip_chars(t, k)
}

} // verus!
