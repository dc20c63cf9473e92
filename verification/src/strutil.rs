//! Character-level string utilities: scanning, trimming, prefix and
//! substring tests, and decimal conversion in both directions.
//!
//! Every executable function is specified against a recursive spec function
//! over the string's character sequence.

use vstd::prelude::*;

verus! {

/// ASCII decimal digit.
pub open spec fn is_digit(c: char) -> bool {
    '0' as u32 <= c as u32 <= '9' as u32
}

/// Numeric value of an ASCII decimal digit.
pub open spec fn digit_val(c: char) -> int {
    c as u32 - '0' as u32
}

/// The first index at or after `i` holding `c`, or `s.len()` if there is none.
pub open spec fn find_char_from(s: Seq<char>, c: char, i: int) -> int
    recommends
        0 <= i <= s.len(),
    decreases s.len() - i,
{
    if i < 0 || i >= s.len() {
        s.len() as int
    } else if s[i] == c {
        i
    } else {
        find_char_from(s, c, i + 1)
    }
}

/// Bounds and characterization of `find_char_from`: the result is the first
/// occurrence of `c` at or after `i`.
pub proof fn lemma_find_char_from(s: Seq<char>, c: char, i: int)
    requires
        0 <= i <= s.len(),
    ensures
        i <= find_char_from(s, c, i) <= s.len(),
        find_char_from(s, c, i) < s.len() ==> s[find_char_from(s, c, i)] == c,
        forall|j: int| i <= j < find_char_from(s, c, i) ==> s[j] != c,
    decreases s.len() - i,
{
    if i < s.len() && s[i] != c {
        lemma_find_char_from(s, c, i + 1);
    }
}

/// The first index at or after `i` whose character is neither `c1` nor `c2`,
/// or `s.len()` if all of the rest match.
pub open spec fn skip_chars_from(s: Seq<char>, c1: char, c2: char, i: int) -> int
    recommends
        0 <= i <= s.len(),
    decreases s.len() - i,
{
    if i < 0 || i >= s.len() {
        s.len() as int
    } else if s[i] == c1 || s[i] == c2 {
        skip_chars_from(s, c1, c2, i + 1)
    } else {
        i
    }
}

pub proof fn lemma_skip_chars_from(s: Seq<char>, c1: char, c2: char, i: int)
    requires
        0 <= i <= s.len(),
    ensures
        i <= skip_chars_from(s, c1, c2, i) <= s.len(),
        skip_chars_from(s, c1, c2, i) < s.len() ==> {
            let k = skip_chars_from(s, c1, c2, i);
            s[k] != c1 && s[k] != c2
        },
        forall|j: int| i <= j < skip_chars_from(s, c1, c2, i) ==> s[j] == c1 || s[j] == c2,
    decreases s.len() - i,
{
    if i < s.len() && (s[i] == c1 || s[i] == c2) {
        lemma_skip_chars_from(s, c1, c2, i + 1);
    }
}

/// The end (exclusive) of `s` once trailing `c1`/`c2` characters before
/// index `j` are dropped.
pub open spec fn trim_chars_end(s: Seq<char>, c1: char, c2: char, j: int) -> int
    recommends
        0 <= j <= s.len(),
    decreases j,
{
    if j <= 0 {
        0
    } else if s[j - 1] == c1 || s[j - 1] == c2 {
        trim_chars_end(s, c1, c2, j - 1)
    } else {
        j
    }
}

pub proof fn lemma_trim_chars_end(s: Seq<char>, c1: char, c2: char, j: int)
    requires
        0 <= j <= s.len(),
    ensures
        0 <= trim_chars_end(s, c1, c2, j) <= j,
        trim_chars_end(s, c1, c2, j) > 0 ==> {
            let k = trim_chars_end(s, c1, c2, j);
            s[k - 1] != c1 && s[k - 1] != c2
        },
        forall|m: int| trim_chars_end(s, c1, c2, j) <= m < j ==> s[m] == c1 || s[m] == c2,
    decreases j,
{
    if j > 0 && (s[j - 1] == c1 || s[j - 1] == c2) {
        lemma_trim_chars_end(s, c1, c2, j - 1);
    }
}

/// `s` with every leading and trailing `c1` or `c2` character removed.
pub open spec fn spec_trim_chars(s: Seq<char>, c1: char, c2: char) -> Seq<char> {
    let a = skip_chars_from(s, c1, c2, 0);
    let b = trim_chars_end(s, c1, c2, s.len() as int);
    if a >= b {
        Seq::empty()
    } else {
        s.subrange(a, b)
    }
}

/// `s` with surrounding header whitespace removed.
pub open spec fn spec_trim_ws(s: Seq<char>) -> Seq<char> {
    spec_trim_chars(s, ' ', '\t')
}

/// `p` is a prefix of `s`.
pub open spec fn spec_starts_with(s: Seq<char>, p: Seq<char>) -> bool {
    s.len() >= p.len() && s.subrange(0, p.len() as int) == p
}

/// `t` occurs contiguously somewhere inside `s`.
pub open spec fn spec_contains_seq(s: Seq<char>, t: Seq<char>) -> bool {
    exists|i: int| 0 <= i <= s.len() - t.len() && #[trigger] s.subrange(i, i + t.len()) == t
}

/// The number of characters in `s`, as an exec value.
pub fn str_char_len(s: &str) -> (n: usize)
    ensures
        n == s@.len(),
{
    s.unicode_len()
}

/// The first index at or after `start` holding `c`, or the character length
/// of `s` if there is none.
pub fn str_find_char_from(s: &str, c: char, start: usize) -> (r: usize)
    requires
        start <= s@.len(),
    ensures
        r == find_char_from(s@, c, start as int),
        start <= r <= s@.len(),
{
    let n = s.unicode_len();
    let mut i: usize = start;
    while i < n
        invariant
            start <= i <= n,
            n == s@.len(),
            find_char_from(s@, c, start as int) == find_char_from(s@, c, i as int),
        decreases n - i,
    {
        if s.get_char(i) == c {
            return i;
        }
        i = i + 1;
    }
    i
}

/// `s` with every leading and trailing `c1` or `c2` character removed.
pub fn str_trim_chars<'a>(s: &'a str, c1: char, c2: char) -> (r: &'a str)
    ensures
        r@ == spec_trim_chars(s@, c1, c2),
{
    let n = s.unicode_len();
    let mut a: usize = 0;
    while a < n && (s.get_char(a) == c1 || s.get_char(a) == c2)
        invariant
            0 <= a <= n,
            n == s@.len(),
            skip_chars_from(s@, c1, c2, 0) == skip_chars_from(s@, c1, c2, a as int),
        decreases n - a,
    {
        a = a + 1;
    }
    assert(a == skip_chars_from(s@, c1, c2, 0));
    let mut b: usize = n;
    while b > a && (s.get_char(b - 1) == c1 || s.get_char(b - 1) == c2)
        invariant
            a <= b <= n,
            n == s@.len(),
            a == skip_chars_from(s@, c1, c2, 0),
            trim_chars_end(s@, c1, c2, n as int) == trim_chars_end(s@, c1, c2, b as int),
        decreases b,
    {
        b = b - 1;
    }
    proof {
        lemma_skip_chars_from(s@, c1, c2, 0);
        lemma_trim_chars_end(s@, c1, c2, b as int);
    }
    if a >= b {
        assert(spec_trim_chars(s@, c1, c2) =~= Seq::<char>::empty());
        let r = s.substring_char(0, 0);
        assert(r@ =~= Seq::<char>::empty());
        r
    } else {
        let r = s.substring_char(a, b);
        assert(r@ == spec_trim_chars(s@, c1, c2));
        r
    }
}

/// `s` with surrounding header whitespace removed.
pub fn str_trim_ws<'a>(s: &'a str) -> (r: &'a str)
    ensures
        r@ == spec_trim_ws(s@),
{
    str_trim_chars(s, ' ', '\t')
}

/// Whether `p` is a prefix of `s`.
pub fn str_starts_with(s: &str, p: &str) -> (r: bool)
    ensures
        r == spec_starts_with(s@, p@),
{
    let n = s.unicode_len();
    let m = p.unicode_len();
    if m > n {
        assert(!spec_starts_with(s@, p@));
        return false;
    }
    let mut k: usize = 0;
    while k < m
        invariant
            0 <= k <= m <= n,
            n == s@.len(),
            m == p@.len(),
            forall|j: int| 0 <= j < k ==> s@[j] == p@[j],
        decreases m - k,
    {
        if s.get_char(k) != p.get_char(k) {
            assert(s@.subrange(0, m as int)[k as int] != p@[k as int]);
            return false;
        }
        k = k + 1;
    }
    assert(s@.subrange(0, m as int) =~= p@);
    true
}

/// Whether the characters of `t` occur contiguously inside `s`.
pub fn str_contains_str(s: &str, t: &str) -> (r: bool)
    ensures
        r == spec_contains_seq(s@, t@),
{
    let n = s.unicode_len();
    let m = t.unicode_len();
    if m > n {
        assert(!spec_contains_seq(s@, t@));
        return false;
    }
    if m == 0 {
        proof {
            assert(s@.subrange(0, 0 + t@.len() as int) =~= t@);
        }
        assert(spec_contains_seq(s@, t@));
        return true;
    }
    let mut i: usize = 0;
    while i <= n - m
        invariant
            0 <= i <= n - m + 1,
            1 <= m <= n,
            n == s@.len(),
            m == t@.len(),
            forall|x: int| 0 <= x < i ==> #[trigger] s@.subrange(x, x + t@.len()) != t@,
        decreases n - i,
    {
        if str_matches_at(s, t, i) {
            assert(spec_contains_seq(s@, t@));
            return true;
        }
        i = i + 1;
    }
    assert(forall|x: int| 0 <= x <= s@.len() - t@.len() ==> #[trigger] s@.subrange(
        x,
        x + t@.len(),
    ) != t@);
    false
}

/// Every character of `s` is an ASCII decimal digit.
pub open spec fn all_digits(s: Seq<char>) -> bool {
    forall|i: int| 0 <= i < s.len() ==> is_digit(#[trigger] s[i])
}

/// The numeric value of a digit string, most significant digit first.
pub open spec fn dec_value(s: Seq<char>) -> int
    recommends
        all_digits(s),
    decreases s.len(),
{
    if s.len() == 0 {
        0
    } else {
        dec_value(s.drop_last()) * 10 + digit_val(s.last())
    }
}

/// A digit string's value is non-negative and grows (weakly) as the string
/// is extended to the right.
pub proof fn lemma_dec_value_prefix(s: Seq<char>, i: int)
    requires
        all_digits(s),
        0 <= i <= s.len(),
    ensures
        dec_value(s.subrange(0, i)) >= 0,
        dec_value(s) >= dec_value(s.subrange(0, i)),
    decreases s.len() - i,
{
    if i == s.len() {
        assert(s.subrange(0, i) =~= s);
        lemma_dec_value_nonneg(s);
    } else {
        lemma_dec_value_prefix(s, i + 1);
        let p = s.subrange(0, i);
        let q = s.subrange(0, i + 1);
        assert(q.drop_last() =~= p);
        assert(is_digit(q.last()));
        lemma_dec_value_nonneg(p);
    }
}

pub proof fn lemma_dec_value_nonneg(s: Seq<char>)
    requires
        all_digits(s),
    ensures
        dec_value(s) >= 0,
    decreases s.len(),
{
    if s.len() > 0 {
        assert(all_digits(s.drop_last()));
        lemma_dec_value_nonneg(s.drop_last());
        assert(is_digit(s.last()));
    }
}

/// The parse of a decimal string: defined exactly when the string is
/// non-empty, all digits, and its value fits in a `u64`. Digits only, as
/// HTTP's `Content-Length` grammar (`1*DIGIT`) demands: no sign character
/// is accepted.
pub open spec fn spec_parse_u64(s: Seq<char>) -> Option<u64> {
    if s.len() >= 1 && all_digits(s) && dec_value(s) <= u64::MAX {
        Some(dec_value(s) as u64)
    } else {
        None
    }
}

/// Parses a non-negative decimal integer; rejects empty strings, non-digit
/// characters, and values that do not fit in a `u64`.
pub fn parse_u64(s: &str) -> (r: Option<u64>)
    ensures
        r == spec_parse_u64(s@),
{
    let n = s.unicode_len();
    if n == 0 {
        return None;
    }
    let mut acc: u64 = 0;
    let mut i: usize = 0;
    while i < n
        invariant
            0 <= i <= n,
            n == s@.len(),
            all_digits(s@.subrange(0, i as int)),
            acc == dec_value(s@.subrange(0, i as int)),
        decreases n - i,
    {
        let c = s.get_char(i);
        let cv = c as u32;
        if cv < '0' as u32 || cv > '9' as u32 {
            assert(!is_digit(s@[i as int]));
            return None;
        }
        let d: u64 = (cv - '0' as u32) as u64;
        let ghost pre = s@.subrange(0, i as int);
        let ghost ext = s@.subrange(0, i + 1);
        assert(ext.drop_last() =~= pre);
        assert(all_digits(ext));
        let next = match acc.checked_mul(10) {
            Some(t) => t.checked_add(d),
            None => None,
        };
        match next {
            Some(v) => {
                acc = v;
                assert(acc == dec_value(ext));
            },
            None => {
                assert(dec_value(ext) > u64::MAX);
                proof {
                    if all_digits(s@) {
                        lemma_dec_value_prefix(s@, i + 1);
                    }
                }
                return None;
            },
        }
        i = i + 1;
    }
    assert(s@.subrange(0, n as int) =~= s@);
    Some(acc)
}

/// The character for a single decimal digit.
pub open spec fn digit_char(d: int) -> char {
    if d == 0 {
        '0'
    } else if d == 1 {
        '1'
    } else if d == 2 {
        '2'
    } else if d == 3 {
        '3'
    } else if d == 4 {
        '4'
    } else if d == 5 {
        '5'
    } else if d == 6 {
        '6'
    } else if d == 7 {
        '7'
    } else if d == 8 {
        '8'
    } else {
        '9'
    }
}

/// The decimal rendering of a non-negative integer, without leading zeros
/// (a lone zero for 0).
pub open spec fn dec_seq(n: int) -> Seq<char>
    recommends
        n >= 0,
    decreases n,
{
    if n < 10 {
        seq![digit_char(n)]
    } else {
        dec_seq(n / 10) + seq![digit_char(n % 10)]
    }
}

/// A one-character string for a single decimal digit.
pub fn digit_str(d: u64) -> (r: &'static str)
    requires
        d < 10,
    ensures
        r@ == seq![digit_char(d as int)],
{
    if d == 0 {
        proof {
            reveal_strlit("0");
        }
        let r = "0";
        assert(r@ =~= seq![digit_char(0)]);
        r
    } else if d == 1 {
        proof {
            reveal_strlit("1");
        }
        let r = "1";
        assert(r@ =~= seq![digit_char(1)]);
        r
    } else if d == 2 {
        proof {
            reveal_strlit("2");
        }
        let r = "2";
        assert(r@ =~= seq![digit_char(2)]);
        r
    } else if d == 3 {
        proof {
            reveal_strlit("3");
        }
        let r = "3";
        assert(r@ =~= seq![digit_char(3)]);
        r
    } else if d == 4 {
        proof {
            reveal_strlit("4");
        }
        let r = "4";
        assert(r@ =~= seq![digit_char(4)]);
        r
    } else if d == 5 {
        proof {
            reveal_strlit("5");
        }
        let r = "5";
        assert(r@ =~= seq![digit_char(5)]);
        r
    } else if d == 6 {
        proof {
            reveal_strlit("6");
        }
        let r = "6";
        assert(r@ =~= seq![digit_char(6)]);
        r
    } else if d == 7 {
        proof {
            reveal_strlit("7");
        }
        let r = "7";
        assert(r@ =~= seq![digit_char(7)]);
        r
    } else if d == 8 {
        proof {
            reveal_strlit("8");
        }
        let r = "8";
        assert(r@ =~= seq![digit_char(8)]);
        r
    } else {
        proof {
            reveal_strlit("9");
        }
        let r = "9";
        assert(r@ =~= seq![digit_char(9)]);
        r
    }
}

/// Renders `n` in decimal.
pub fn u64_to_string(n: u64) -> (r: String)
    ensures
        r@ == dec_seq(n as int),
    decreases n,
{
    if n < 10 {
        let mut s = String::new();
        s.append(digit_str(n));
        assert(s@ =~= dec_seq(n as int));
        s
    } else {
        let mut s = u64_to_string(n / 10);
        s.append(digit_str(n % 10));
        assert(s@ =~= dec_seq(n as int));
        s
    }
}

/// Whether `t` occurs in `s` starting exactly at character index `i`.
fn str_matches_at(s: &str, t: &str, i: usize) -> (r: bool)
    requires
        i + t@.len() <= s@.len(),
    ensures
        r == (s@.subrange(i as int, i + t@.len()) == t@),
{
    let n = s.unicode_len();
    let m = t.unicode_len();
    let mut k: usize = 0;
    while k < m
        invariant
            0 <= k <= m,
            m == t@.len(),
            n == s@.len(),
            i + m <= n,
            forall|j: int| 0 <= j < k ==> s@[i + j] == t@[j],
        decreases m - k,
    {
        if s.get_char(i + k) != t.get_char(k) {
            assert(s@.subrange(i as int, i + t@.len())[k as int] != t@[k as int]);
            return false;
        }
        k = k + 1;
    }
    assert(s@.subrange(i as int, i + t@.len()) =~= t@);
    true
}

} // verus!
