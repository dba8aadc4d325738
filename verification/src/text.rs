use vstd::prelude::*;
use vstd::string::StrSliceExecFns;

verus! {

/// Whether `c` is an ASCII letter or digit.
pub open spec fn is_ascii_alnum(c: char) -> bool {
    let u = c as u32;
    (48 <= u <= 57) || (65 <= u <= 90) || (97 <= u <= 122)
}

/// Whether every character of `s` is ASCII.
pub open spec fn all_ascii(s: Seq<char>) -> bool {
    forall|k: int| 0 <= k < s.len() ==> ((#[trigger] s[k]) as u32) < 128
}

/// ASCII lower-casing of one character: `A`-`Z` map to `a`-`z`, all others stay.
pub open spec fn ascii_lower_char(c: char) -> char {
    if 65 <= (c as u32) <= 90 {
        ((c as u32) + 32) as char
    } else {
        c
    }
}

/// ASCII upper-casing of one character: `a`-`z` map to `A`-`Z`, all others stay.
pub open spec fn ascii_upper_char(c: char) -> char {
    if 97 <= (c as u32) <= 122 {
        ((c as u32) - 32) as char
    } else {
        c
    }
}

pub open spec fn ascii_lower(s: Seq<char>) -> Seq<char> {
    s.map_values(|c: char| ascii_lower_char(c))
}

pub open spec fn ascii_upper(s: Seq<char>) -> Seq<char> {
    s.map_values(|c: char| ascii_upper_char(c))
}

/// What `char::is_alphanumeric` answers for `c`.
pub uninterp spec fn unicode_alphanumeric(c: char) -> bool;

/// What `str::to_lowercase` returns for a string with characters `s`.
pub uninterp spec fn unicode_lowercase(s: Seq<char>) -> Seq<char>;

/// What `str::to_uppercase` returns for a string with characters `s`.
pub uninterp spec fn unicode_uppercase(s: Seq<char>) -> Seq<char>;

/// `char::is_alphanumeric`. Claimed: the answer is `unicode_alphanumeric(c)`, and on ASCII
/// characters it holds exactly of letters and digits (the documented Alphabetic/Numeric classes).
#[verifier::external_body]
pub fn is_alphanumeric(c: char) -> (b: bool)
    ensures
        b == unicode_alphanumeric(c),
        (c as u32) < 128 ==> (b == is_ascii_alnum(c)),
{
    c.is_alphanumeric()
}

/// `str::to_lowercase`. Claimed: the result is `unicode_lowercase` of the input, and on an
/// all-ASCII input it maps `A`-`Z` to `a`-`z` and keeps every other character.
#[verifier::external_body]
pub fn to_lowercase(s: &str) -> (r: String)
    ensures
        r@ == unicode_lowercase(s@),
        all_ascii(s@) ==> r@ == ascii_lower(s@),
{
    s.to_lowercase()
}

/// `str::to_uppercase`. Claimed: the result is `unicode_uppercase` of the input, and on an
/// all-ASCII input it maps `a`-`z` to `A`-`Z` and keeps every other character.
#[verifier::external_body]
pub fn to_uppercase(s: &str) -> (r: String)
    ensures
        r@ == unicode_uppercase(s@),
        all_ascii(s@) ==> r@ == ascii_upper(s@),
{
    s.to_uppercase()
}

/// `String::from_iter` over characters. Claimed: the string holds exactly those characters.
#[verifier::external_body]
pub fn string_from_chars(v: &Vec<char>) -> (s: String)
    ensures
        s@ == v@,
{
    String::from_iter(v.iter())
}

/// Number of bytes of the UTF-8 encoding of `c`.
pub open spec fn char_width(c: char) -> nat {
    let u = c as u32;
    if u < 0x80 {
        1
    } else if u < 0x800 {
        2
    } else if u < 0x10000 {
        3
    } else {
        4
    }
}

/// Number of bytes of the UTF-8 encoding of `s`.
pub open spec fn text_width(s: Seq<char>) -> nat
    decreases s.len(),
{
    if s.len() == 0 {
        0
    } else {
        text_width(s.drop_last()) + char_width(s.last())
    }
}

pub proof fn lemma_text_width_bounds(s: Seq<char>)
    ensures
        s.len() <= text_width(s) <= 4 * s.len(),
    decreases s.len(),
{
    if s.len() > 0 {
        lemma_text_width_bounds(s.drop_last());
    }
}

pub fn char_width_exec(c: char) -> (w: usize)
    ensures
        w == char_width(c),
{
    let u = c as u32;
    if u < 0x80 {
        1
    } else if u < 0x800 {
        2
    } else if u < 0x10000 {
        3
    } else {
        4
    }
}

/// The UTF-8 width of a character sequence.
pub fn chars_width(v: &Vec<char>) -> (w: usize)
    requires
        v.len() <= usize::MAX / 4,
    ensures
        w == text_width(v@),
{
    let mut w: usize = 0;
    let mut k: usize = 0;
    while k < v.len()
        invariant
            k <= v.len() <= usize::MAX / 4,
            w == text_width(v@.take(k as int)),
            w <= 4 * k,
        decreases v.len() - k,
    {
        proof {
            assert(v@.take(k + 1).drop_last() =~= v@.take(k as int));
        }
        w = w + char_width_exec(v[k]);
        k = k + 1;
    }
    proof {
        assert(v@.take(k as int) =~= v@);
    }
    w
}

/// Whether the characters of `v` spell `lit`.
pub fn chars_eq(v: &Vec<char>, lit: &str) -> (b: bool)
    ensures
        b == (v@ == lit@),
{
    let n = lit.unicode_len();
    if n != v.len() {
        return false;
    }
    let mut k: usize = 0;
    while k < n
        invariant
            n == v.len(),
            n == lit@.len(),
            k <= n,
            forall|j: int| 0 <= j < k ==> v@[j] == lit@[j],
        decreases n - k,
    {
        if v[k] != lit.get_char(k) {
            return false;
        }
        k = k + 1;
    }
    proof {
        assert(v@ =~= lit@);
    }
    true
}


/// Whether two strings have the same characters.
pub fn str_eq(a: &str, lit: &str) -> (b: bool)
    ensures
        b == (a@ == lit@),
{
    let n = lit.unicode_len();
    if n != a.unicode_len() {
        return false;
    }
    let mut k: usize = 0;
    while k < n
        invariant
            n == a@.len(),
            n == lit@.len(),
            k <= n,
            forall|j: int| 0 <= j < k ==> a@[j] == lit@[j],
        decreases n - k,
    {
        if a.get_char(k) != lit.get_char(k) {
            return false;
        }
        k = k + 1;
    }
    proof {
        assert(a@ =~= lit@);
    }
    true
}

} // verus!
