//! Character-sequence helpers shared by the line parser and the framer, and
//! small trusted bridges to `std` text operations that vstd does not specify.

use vstd::prelude::*;
use vstd::string::StrSliceExecFns;

verus! {

/// Index of the first occurrence of `c` in `s`, or `s.len()` if there is
/// none.
pub open spec fn first_index_of(s: Seq<char>, c: char) -> int
    decreases s.len(),
{
    if s.len() == 0 {
        0
    } else if s[0] == c {
        0
    } else {
        1 + first_index_of(s.drop_first(), c)
    }
}

/// Whether `c` occurs in `s` at all.
pub open spec fn contains_char(s: Seq<char>, c: char) -> bool {
    first_index_of(s, c) < s.len()
}

pub proof fn lemma_first_index_of_props(s: Seq<char>, c: char)
    ensures
        0 <= first_index_of(s, c) <= s.len(),
        first_index_of(s, c) < s.len() ==> s[first_index_of(s, c)] == c,
        forall|j: int| 0 <= j < first_index_of(s, c) ==> s[j] != c,
    decreases s.len(),
{
    if s.len() > 0 && s[0] != c {
        let t = s.drop_first();
        lemma_first_index_of_props(t, c);
        assert forall|j: int| 0 <= j < first_index_of(s, c) implies s[j] != c by {
            if j > 0 {
                assert(s[j] == t[j - 1]);
            }
        }
    }
}

pub proof fn lemma_first_index_of_at(s: Seq<char>, c: char, i: int)
    requires
        0 <= i <= s.len(),
        forall|j: int| 0 <= j < i ==> s[j] != c,
        i < s.len() ==> s[i] == c,
    ensures
        first_index_of(s, c) == i,
    decreases i,
{
    if i == 0 {
    } else {
        assert(s[0] != c);
        let t = s.drop_first();
        assert(forall|j: int| 0 <= j < i - 1 ==> t[j] == s[j + 1] && t[j] != c);
        assert(i - 1 < t.len() ==> t[i - 1] == s[i]);
        lemma_first_index_of_at(t, c, i - 1);
    }
}

/// Index of the first occurrence of `c` in `s`, or the length of `s` if `c`
/// does not occur.
pub fn find_char(s: &str, c: char) -> (i: usize)
    ensures
        i == first_index_of(s@, c),
        i <= s@.len(),
{
    let n = s.unicode_len();
    let mut i: usize = 0;
    while i < n && s.get_char(i) != c
        invariant
            n == s@.len(),
            i <= n,
            forall|j: int| 0 <= j < i ==> s@[j] != c,
        decreases n - i,
    {
        i += 1;
    }
    proof {
        lemma_first_index_of_at(s@, c, i as int);
    }
    i
}

/// What `String::from_utf8_lossy` yields for a given byte sequence: UTF-8
/// decoding with U+FFFD substituted for invalid sequences. The result is a
/// function of the bytes alone.
pub uninterp spec fn decoded_of(bytes: Seq<u8>) -> Seq<char>;

/// Relies on `String::from_utf8_lossy`: decodes the bytes as UTF-8, replacing
/// invalid sequences with the replacement character; an empty input decodes to
/// an empty string.
#[verifier::external_body]
pub(crate) fn lossy_decode(bytes: &[u8]) -> (r: String)
    ensures
        r@ == decoded_of(bytes@),
        bytes@.len() == 0 ==> r@.len() == 0,
{
    String::from_utf8_lossy(bytes).into_owned()
}

/// How many bytes a UTF-8 lead byte announces; 1 for ASCII and for bytes
/// that cannot start a character, 0 for continuation bytes.
pub open spec fn utf8_expected_len(b: u8) -> int {
    if b < 0x80 {
        1
    } else if b < 0xC0 {
        0
    } else if b < 0xE0 {
        2
    } else if b < 0xF0 {
        3
    } else if b < 0xF8 {
        4
    } else {
        1
    }
}

/// Whether `b` is a UTF-8 continuation byte.
pub open spec fn is_utf8_continuation(b: u8) -> bool {
    0x80 <= b && b < 0xC0
}

/// The bytes at the end of `s` that begin a character whose continuation
/// bytes have not all arrived: a multi-byte lead followed by too few
/// continuation bytes. The decoder holds them back so that a character
/// split across byte batches is decoded whole.
pub open spec fn utf8_holdback(s: Seq<u8>) -> int {
    let n = s.len() as int;
    if n >= 1 && !is_utf8_continuation(s[n - 1]) && utf8_expected_len(s[n - 1]) > 1 {
        1
    } else if n >= 2 && is_utf8_continuation(s[n - 1]) && !is_utf8_continuation(s[n - 2])
        && utf8_expected_len(s[n - 2]) > 2 {
        2
    } else if n >= 3 && is_utf8_continuation(s[n - 1]) && is_utf8_continuation(s[n - 2])
        && !is_utf8_continuation(s[n - 3]) && utf8_expected_len(s[n - 3]) > 3 {
        3
    } else {
        0
    }
}

fn utf8_cont(b: u8) -> (r: bool)
    ensures
        r == is_utf8_continuation(b),
{
    0x80 <= b && b < 0xC0
}

fn utf8_lead_len(b: u8) -> (r: usize)
    ensures
        r as int == utf8_expected_len(b),
{
    if b < 0x80 {
        1
    } else if b < 0xC0 {
        0
    } else if b < 0xE0 {
        2
    } else if b < 0xF0 {
        3
    } else if b < 0xF8 {
        4
    } else {
        1
    }
}

/// How many trailing bytes of `v` to hold back before decoding.
pub fn utf8_holdback_len(v: &Vec<u8>) -> (k: usize)
    ensures
        k == utf8_holdback(v@),
        k <= v@.len(),
{
    let n = v.len();
    if n >= 1 && !utf8_cont(v[n - 1]) && utf8_lead_len(v[n - 1]) > 1 {
        1
    } else if n >= 2 && utf8_cont(v[n - 1]) && !utf8_cont(v[n - 2]) && utf8_lead_len(v[n - 2])
        > 2 {
        2
    } else if n >= 3 && utf8_cont(v[n - 1]) && utf8_cont(v[n - 2]) && !utf8_cont(v[n - 3])
        && utf8_lead_len(v[n - 3]) > 3 {
        3
    } else {
        0
    }
}

/// `a` followed by `b`, as one byte vector.
pub fn concat_bytes(a: &Vec<u8>, b: &[u8]) -> (r: Vec<u8>)
    ensures
        r@ == a@ + b@,
{
    let mut r: Vec<u8> = Vec::new();
    let mut i: usize = 0;
    while i < a.len()
        invariant
            i <= a@.len(),
            r@ == a@.take(i as int),
        decreases a@.len() - i,
    {
        r.push(a[i]);
        proof {
            assert(r@ =~= a@.take(i as int + 1));
        }
        i += 1;
    }
    proof {
        assert(a@.take(a@.len() as int) =~= a@);
    }
    let mut j: usize = 0;
    while j < b.len()
        invariant
            j <= b@.len(),
            r@ == a@ + b@.take(j as int),
        decreases b@.len() - j,
    {
        r.push(b[j]);
        proof {
            assert(r@ =~= a@ + b@.take(j as int + 1));
        }
        j += 1;
    }
    proof {
        assert(a@ + b@.take(b@.len() as int) =~= a@ + b@);
    }
    r
}

/// Splits a byte vector at `cut`: the prefix to decode and the suffix to
/// keep.
pub fn split_bytes(v: &Vec<u8>, cut: usize) -> (r: (Vec<u8>, Vec<u8>))
    requires
        cut <= v@.len(),
    ensures
        r.0@ == v@.take(cut as int),
        r.1@ == v@.skip(cut as int),
{
    let mut head: Vec<u8> = Vec::new();
    let mut i: usize = 0;
    while i < cut
        invariant
            i <= cut <= v@.len(),
            head@ == v@.take(i as int),
        decreases cut - i,
    {
        head.push(v[i]);
        proof {
            assert(head@ =~= v@.take(i as int + 1));
        }
        i += 1;
    }
    let mut tail: Vec<u8> = Vec::new();
    while i < v.len()
        invariant
            cut <= i <= v@.len(),
            tail@ == v@.subrange(cut as int, i as int),
        decreases v@.len() - i,
    {
        tail.push(v[i]);
        proof {
            assert(tail@ =~= v@.subrange(cut as int, i as int + 1));
        }
        i += 1;
    }
    proof {
        assert(tail@ =~= v@.skip(cut as int));
    }
    (head, tail)
}

/// Relies on `str`'s `PartialEq`: two string slices compare equal exactly when
/// their character sequences are equal.
#[verifier::external_body]
pub(crate) fn str_eq(a: &str, b: &str) -> (r: bool)
    ensures
        r == (a@ == b@),
{
    a == b
}

/// Whether `char::is_whitespace` holds of a character; a function of the
/// character alone (the Unicode `White_Space` property).
pub uninterp spec fn char_is_whitespace(c: char) -> bool;

/// Relies on `char::is_whitespace`: true exactly on characters with the
/// Unicode `White_Space` property.
#[verifier::external_body]
pub(crate) fn is_whitespace(c: char) -> (r: bool)
    ensures
        r == char_is_whitespace(c),
{
    c.is_whitespace()
}

} // verus!
