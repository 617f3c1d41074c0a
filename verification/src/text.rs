//! Character-level utilities shared by the framing logic: whitespace
//! classification, first-occurrence search for two-character delimiters,
//! string equality, and decimal rendering of lengths.

use vstd::prelude::*;
use vstd::string::*;

verus! {

/// The whitespace characters that separate tokens of a request line: the
/// characters with the Unicode White_Space property, as
/// `str::split_whitespace` uses them.
pub open spec fn is_ws(c: char) -> bool {
    c == '\t' || c == '\n' || c == '\u{b}' || c == '\u{c}' || c == '\r' || c == ' ' || c
        == '\u{85}' || c == '\u{a0}' || c == '\u{1680}' || c == '\u{2000}' || c == '\u{2001}'
        || c == '\u{2002}' || c == '\u{2003}' || c == '\u{2004}' || c == '\u{2005}' || c
        == '\u{2006}' || c == '\u{2007}' || c == '\u{2008}' || c == '\u{2009}' || c
        == '\u{200a}' || c == '\u{2028}' || c == '\u{2029}' || c == '\u{202f}' || c
        == '\u{205f}' || c == '\u{3000}'
}

/// Exec mirror of [`is_ws`].
pub fn ws_char(c: char) -> (r: bool)
    ensures
        r == is_ws(c),
{
    c == '\t' || c == '\n' || c == '\u{b}' || c == '\u{c}' || c == '\r' || c == ' ' || c
        == '\u{85}' || c == '\u{a0}' || c == '\u{1680}' || c == '\u{2000}' || c == '\u{2001}'
        || c == '\u{2002}' || c == '\u{2003}' || c == '\u{2004}' || c == '\u{2005}' || c
        == '\u{2006}' || c == '\u{2007}' || c == '\u{2008}' || c == '\u{2009}' || c
        == '\u{200a}' || c == '\u{2028}' || c == '\u{2029}' || c == '\u{202f}' || c
        == '\u{205f}' || c == '\u{3000}'
}

/// Index of the first occurrence of the two-character pattern `c0 c1` in `s`
/// at or after position `i`, if any.
pub open spec fn first2_from(s: Seq<char>, c0: char, c1: char, i: int) -> Option<int>
    decreases s.len() - i,
{
    if i + 1 >= s.len() {
        None
    } else if s[i] == c0 && s[i + 1] == c1 {
        Some(i)
    } else {
        first2_from(s, c0, c1, i + 1)
    }
}

/// `s` holds the two-character pattern `c0 c1` somewhere.
pub open spec fn contains2(s: Seq<char>, c0: char, c1: char) -> bool {
    exists|j: int| 0 <= j && j + 1 < s.len() && #[trigger] s[j] == c0 && s[j + 1] == c1
}

/// What [`first2_from`] returns: the first match at or after `i`, or `None`
/// when no position from `i` on matches.
pub proof fn lemma_first2_from_spec(s: Seq<char>, c0: char, c1: char, i: int)
    requires
        0 <= i,
    ensures
        match first2_from(s, c0, c1, i) {
            Some(j) => i <= j && j + 1 < s.len() && s[j] == c0 && s[j + 1] == c1
                && (forall|k: int| i <= k < j ==> !(#[trigger] s[k] == c0 && s[k + 1] == c1)),
            None => forall|k: int| i <= k && k + 1 < s.len() ==> !(#[trigger] s[k] == c0 && s[k + 1] == c1),
        },
    decreases s.len() - i,
{
    if i + 1 >= s.len() {
    } else if s[i] == c0 && s[i + 1] == c1 {
    } else {
        lemma_first2_from_spec(s, c0, c1, i + 1);
    }
}

/// A sequence without the first pattern character anywhere cannot hold the
/// pattern.
pub proof fn lemma_no_c0_no_pair(s: Seq<char>, c0: char, c1: char)
    requires
        forall|j: int| 0 <= j < s.len() ==> #[trigger] s[j] != c0,
    ensures
        !contains2(s, c0, c1),
{
}

/// Concatenation keeps pattern-freedom when neither part holds the pattern
/// and no match straddles the boundary.
pub proof fn lemma_contains2_concat(a: Seq<char>, b: Seq<char>, c0: char, c1: char)
    requires
        !contains2(a, c0, c1),
        !contains2(b, c0, c1),
        !(a.len() > 0 && b.len() > 0 && a.last() == c0 && b[0] == c1),
    ensures
        !contains2(a + b, c0, c1),
{
    let s = a + b;
    assert forall|j: int| 0 <= j && j + 1 < s.len() implies !(#[trigger] s[j] == c0 && s[j + 1] == c1) by {
        if j + 1 < a.len() {
            assert(s[j] == a[j] && s[j + 1] == a[j + 1]);
            assert(!(a[j] == c0 && a[j + 1] == c1));
        } else if j + 1 == a.len() {
            assert(s[j] == a[j] && s[j + 1] == b[0]);
            assert(a[j] == a.last());
        } else {
            assert(s[j] == b[j - a.len()] && s[j + 1] == b[j + 1 - a.len()]);
            assert(!(b[j - a.len()] == c0 && b[j - a.len() + 1] == c1));
        }
    }
}

/// First occurrence of the pattern `c0 c1` in `s`, front to back.
pub fn find2(s: &str, c0: char, c1: char) -> (r: Option<usize>)
    ensures
        match r {
            Some(i) => first2_from(s@, c0, c1, 0) == Some(i as int),
            None => first2_from(s@, c0, c1, 0) is None,
        },
{
    let n = s.unicode_len();
    let mut i: usize = 0;
    while i < n && i + 1 < n
        invariant
            n == s@.len(),
            0 <= i <= n,
            first2_from(s@, c0, c1, 0) == first2_from(s@, c0, c1, i as int),
        decreases n - i,
    {
        let a = s.get_char(i);
        let b = s.get_char(i + 1);
        if a == c0 && b == c1 {
            return Some(i);
        }
        proof {
            assert(first2_from(s@, c0, c1, i as int) == first2_from(s@, c0, c1, i + 1));
        }
        i = i + 1;
    }
    None
}

/// Index of the first whitespace character of `s` at or after `i`, if any.
pub open spec fn first_ws_from(s: Seq<char>, i: int) -> Option<int>
    decreases s.len() - i,
{
    if i >= s.len() {
        None
    } else if is_ws(s[i]) {
        Some(i)
    } else {
        first_ws_from(s, i + 1)
    }
}

/// What [`first_ws_from`] returns: the first whitespace position at or after
/// `i`, or `None` when everything from `i` on is non-whitespace.
pub proof fn lemma_first_ws_from_spec(s: Seq<char>, i: int)
    requires
        0 <= i,
    ensures
        match first_ws_from(s, i) {
            Some(j) => i <= j < s.len() && is_ws(s[j])
                && (forall|k: int| i <= k < j ==> !is_ws(s[k])),
            None => forall|k: int| i <= k < s.len() ==> !is_ws(s[k]),
        },
    decreases s.len() - i,
{
    if i >= s.len() {
    } else if is_ws(s[i]) {
    } else {
        lemma_first_ws_from_spec(s, i + 1);
    }
}

/// First whitespace character of `s`, front to back.
pub fn find_ws(s: &str) -> (r: Option<usize>)
    ensures
        match r {
            Some(i) => first_ws_from(s@, 0) == Some(i as int),
            None => first_ws_from(s@, 0) is None,
        },
{
    let n = s.unicode_len();
    let mut i: usize = 0;
    while i < n
        invariant
            n == s@.len(),
            0 <= i <= n,
            first_ws_from(s@, 0) == first_ws_from(s@, i as int),
        decreases n - i,
    {
        let c = s.get_char(i);
        if ws_char(c) {
            return Some(i);
        }
        proof {
            assert(first_ws_from(s@, i as int) == first_ws_from(s@, i + 1));
        }
        i = i + 1;
    }
    None
}

/// Character-for-character string equality.
pub fn str_eq(a: &str, b: &str) -> (r: bool)
    ensures
        r == (a@ == b@),
{
    let na = a.unicode_len();
    let nb = b.unicode_len();
    if na != nb {
        return false;
    }
    let mut i: usize = 0;
    while i < na
        invariant
            na == a@.len(),
            na == b@.len(),
            0 <= i <= na,
            forall|j: int| 0 <= j < i ==> a@[j] == b@[j],
        decreases na - i,
    {
        if a.get_char(i) != b.get_char(i) {
            return false;
        }
        i = i + 1;
    }
    proof {
        assert(a@ =~= b@);
    }
    true
}

/// The character standing for the decimal digit `d`.
pub open spec fn digit_char(d: int) -> char {
    if d == 0 {
        '0'
    } else if d == 1 {
        '1'
    } else if d == 2 {
        '2'
    } else if d == 3 {
        '3'
    } else if d == 4 {
        '4'
    } else if d == 5 {
        '5'
    } else if d == 6 {
        '6'
    } else if d == 7 {
        '7'
    } else if d == 8 {
        '8'
    } else {
        '9'
    }
}

/// Decimal rendering of `n`, most significant digit first.
pub open spec fn dec_str(n: int) -> Seq<char>
    decreases n,
{
    if n < 10 {
        seq![digit_char(n)]
    } else {
        dec_str(n / 10).push(digit_char(n % 10))
    }
}

/// Every character of a decimal rendering is a digit.
pub proof fn lemma_dec_str_digits(n: int)
    requires
        0 <= n,
    ensures
        forall|j: int| 0 <= j < dec_str(n).len() ==> '0' <= #[trigger] dec_str(n)[j] <= '9',
    decreases n,
{
    if n < 10 {
        assert forall|j: int| 0 <= j < dec_str(n).len() implies '0' <= #[trigger] dec_str(n)[j]
            <= '9' by {
            assert(dec_str(n)[j] == digit_char(n));
        }
    } else {
        lemma_dec_str_digits(n / 10);
        assert forall|j: int| 0 <= j < dec_str(n).len() implies '0' <= #[trigger] dec_str(n)[j]
            <= '9' by {
            if j < dec_str(n / 10).len() {
                assert(dec_str(n)[j] == dec_str(n / 10)[j]);
            } else {
                assert(dec_str(n)[j] == digit_char(n % 10));
            }
        }
    }
}

/// A one-character string for the decimal digit `d`.
fn digit_literal(d: usize) -> (r: &'static str)
    requires
        d < 10,
    ensures
        r@ == seq![digit_char(d as int)],
{
    if d == 0 {
        proof { reveal_strlit("0"); }
        "0"
    } else if d == 1 {
        proof { reveal_strlit("1"); }
        "1"
    } else if d == 2 {
        proof { reveal_strlit("2"); }
        "2"
    } else if d == 3 {
        proof { reveal_strlit("3"); }
        "3"
    } else if d == 4 {
        proof { reveal_strlit("4"); }
        "4"
    } else if d == 5 {
        proof { reveal_strlit("5"); }
        "5"
    } else if d == 6 {
        proof { reveal_strlit("6"); }
        "6"
    } else if d == 7 {
        proof { reveal_strlit("7"); }
        "7"
    } else if d == 8 {
        proof { reveal_strlit("8"); }
        "8"
    } else {
        proof { reveal_strlit("9"); }
        "9"
    }
}

/// Decimal rendering of `n` as an owned string.
pub fn dec_of_usize(n: usize) -> (r: String)
    ensures
        r@ == dec_str(n as int),
    decreases n,
{
    if n < 10 {
        digit_literal(n).to_owned()
    } else {
        let mut prefix = dec_of_usize(n / 10);
        let d = digit_literal(n % 10);
        prefix.append(d);
        proof {
            assert(prefix@ =~= dec_str((n / 10) as int).push(digit_char((n % 10) as int)));
        }
        prefix
    }
}

} // verus!
