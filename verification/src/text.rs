//! Character-level text utilities: conversions between `&str`, `Vec<char>`
//! and `String`, substring search, and exact decimal parsing/formatting.
//!
//! All quantities parsed from tool output are carried as integers; decimal
//! fractions are read into fixed-point thousandths ("milli-units") so the
//! arithmetic downstream stays exact.

use vstd::prelude::*;

verus! {

/// Relies on `String::push` from std: appends the given character to the
/// end of the string.
#[verifier::external_body]
pub fn push_char(s: &mut String, c: char)
    ensures
        final(s)@ == old(s)@.push(c),
{
    s.push(c);
}

/// Copy the characters of a string slice into a vector.
pub fn to_chars(s: &str) -> (v: Vec<char>)
    ensures
        v@ == s@,
{
    let n = s.unicode_len();
    let mut v: Vec<char> = Vec::new();
    let mut i: usize = 0;
    while i < n
        invariant
            i <= n,
            n == s@.len(),
            v@ == s@.subrange(0, i as int),
        decreases n - i,
    {
        v.push(s.get_char(i));
        i += 1;
        proof {
            assert(v@ =~= s@.subrange(0, i as int));
        }
    }
    proof {
        assert(v@ =~= s@);
    }
    v
}

/// Build a `String` holding exactly the given characters.
pub fn chars_to_string(v: &Vec<char>) -> (s: String)
    ensures
        s@ == v@,
{
    let mut s = String::new();
    let mut i: usize = 0;
    while i < v.len()
        invariant
            i <= v@.len(),
            s@ == v@.subrange(0, i as int),
        decreases v@.len() - i,
    {
        push_char(&mut s, v[i]);
        i += 1;
        proof {
            assert(s@ =~= v@.subrange(0, i as int));
        }
    }
    proof {
        assert(s@ =~= v@);
    }
    s
}

/// Whether the characters of `pat` occur in `s` starting at position `i`.
pub open spec fn matches_at(s: Seq<char>, pat: Seq<char>, i: int) -> bool {
    0 <= i && i + pat.len() <= s.len() && s.subrange(i, i + pat.len()) == pat
}

/// Whether `pat` occurs somewhere in `s`.
pub open spec fn contains_seq(s: Seq<char>, pat: Seq<char>) -> bool {
    exists|i: int| matches_at(s, pat, i)
}

/// Test one candidate position.
fn check_match(s: &Vec<char>, pat: &Vec<char>, i: usize) -> (r: bool)
    requires
        i + pat@.len() <= s@.len(),
    ensures
        r == matches_at(s@, pat@, i as int),
{
    let n = s.len();
    let m = pat.len();
    let mut j: usize = 0;
    while j < m
        invariant
            j <= m,
            m == pat@.len(),
            n == s@.len(),
            i + m <= n,
            forall|k: int| 0 <= k < j ==> s@[i + k] == pat@[k],
        decreases m - j,
    {
        if s[i + j] != pat[j] {
            assert(s@.subrange(i as int, i + pat@.len())[j as int] != pat@[j as int]);
            return false;
        }
        j += 1;
    }
    proof {
        assert(s@.subrange(i as int, i + pat@.len()) =~= pat@);
    }
    true
}

/// Position of the first occurrence of `pat` in `s`, if any.
pub fn find_sub(s: &Vec<char>, pat: &Vec<char>) -> (r: Option<usize>)
    ensures
        match r {
            Some(i) => matches_at(s@, pat@, i as int) && forall|j: int|
                0 <= j < i ==> !matches_at(s@, pat@, j),
            None => !contains_seq(s@, pat@),
        },
{
    let n = s.len();
    let m = pat.len();
    if m > n {
        return None;
    }
    if m == 0 {
        proof {
            assert(s@.subrange(0, 0) =~= pat@);
        }
        return Some(0);
    }
    let mut i: usize = 0;
    while i <= n - m
        invariant
            1 <= m <= n,
            n == s@.len(),
            m == pat@.len(),
            i <= n - m + 1,
            forall|j: int| 0 <= j < i ==> !matches_at(s@, pat@, j),
        decreases n + 1 - m - i,
    {
        if check_match(s, pat, i) {
            return Some(i);
        }
        i += 1;
    }
    assert(forall|j: int| matches_at(s@, pat@, j) ==> 0 <= j < i);
    None
}

/// Whether `pat` occurs somewhere in `s`.
pub fn contains_sub(s: &Vec<char>, pat: &Vec<char>) -> (r: bool)
    ensures
        r == contains_seq(s@, pat@),
{
    find_sub(s, pat).is_some()
}

/// Whether `s` begins with `pat`.
pub fn starts_with(s: &Vec<char>, pat: &Vec<char>) -> (r: bool)
    ensures
        r == (pat@.len() <= s@.len() && s@.subrange(0, pat@.len() as int) == pat@),
{
    if pat.len() > s.len() {
        return false;
    }
    check_match(s, pat, 0)
}

/// Exact equality of two character vectors.
pub fn chars_eq(a: &Vec<char>, b: &Vec<char>) -> (r: bool)
    ensures
        r == (a@ == b@),
{
    if a.len() != b.len() {
        proof {
            assert(a@ != b@);
        }
        return false;
    }
    let mut i: usize = 0;
    while i < a.len()
        invariant
            i <= a@.len(),
            a@.len() == b@.len(),
            forall|k: int| 0 <= k < i ==> a@[k] == b@[k],
        decreases a@.len() - i,
    {
        if a[i] != b[i] {
            return false;
        }
        i += 1;
    }
    proof {
        assert(a@ =~= b@);
    }
    true
}

/// ASCII lower-casing of one character.
pub open spec fn lower_char(c: char) -> char {
    match c {
        'A' => 'a',
        'B' => 'b',
        'C' => 'c',
        'D' => 'd',
        'E' => 'e',
        'F' => 'f',
        'G' => 'g',
        'H' => 'h',
        'I' => 'i',
        'J' => 'j',
        'K' => 'k',
        'L' => 'l',
        'M' => 'm',
        'N' => 'n',
        'O' => 'o',
        'P' => 'p',
        'Q' => 'q',
        'R' => 'r',
        'S' => 's',
        'T' => 't',
        'U' => 'u',
        'V' => 'v',
        'W' => 'w',
        'X' => 'x',
        'Y' => 'y',
        'Z' => 'z',
        _ => c,
    }
}

/// ASCII lower-casing of a character sequence.
pub open spec fn lower_seq(s: Seq<char>) -> Seq<char> {
    s.map(|_i: int, c: char| lower_char(c))
}

fn lower_one(c: char) -> (r: char)
    ensures
        r == lower_char(c),
{
    match c {
        'A' => 'a',
        'B' => 'b',
        'C' => 'c',
        'D' => 'd',
        'E' => 'e',
        'F' => 'f',
        'G' => 'g',
        'H' => 'h',
        'I' => 'i',
        'J' => 'j',
        'K' => 'k',
        'L' => 'l',
        'M' => 'm',
        'N' => 'n',
        'O' => 'o',
        'P' => 'p',
        'Q' => 'q',
        'R' => 'r',
        'S' => 's',
        'T' => 't',
        'U' => 'u',
        'V' => 'v',
        'W' => 'w',
        'X' => 'x',
        'Y' => 'y',
        'Z' => 'z',
        _ => c,
    }
}

/// ASCII lower-casing of a character vector.
pub fn to_lower(s: &Vec<char>) -> (r: Vec<char>)
    ensures
        r@ == lower_seq(s@),
{
    let mut r: Vec<char> = Vec::new();
    let mut i: usize = 0;
    while i < s.len()
        invariant
            i <= s@.len(),
            r@ == lower_seq(s@.subrange(0, i as int)),
        decreases s@.len() - i,
    {
        r.push(lower_one(s[i]));
        i += 1;
        proof {
            assert(r@ =~= lower_seq(s@.subrange(0, i as int)));
        }
    }
    proof {
        assert(r@ =~= lower_seq(s@));
    }
    r
}

/// Whether a character is an ASCII decimal digit.
pub open spec fn is_digit(c: char) -> bool {
    c == '0' || c == '1' || c == '2' || c == '3' || c == '4' || c == '5' || c == '6' || c == '7'
        || c == '8' || c == '9'
}

/// Numeric value of an ASCII digit.
pub open spec fn digit_val(c: char) -> nat {
    match c {
        '0' => 0,
        '1' => 1,
        '2' => 2,
        '3' => 3,
        '4' => 4,
        '5' => 5,
        '6' => 6,
        '7' => 7,
        '8' => 8,
        '9' => 9,
        _ => 0,
    }
}

fn digit_value(c: char) -> (r: u64)
    requires
        is_digit(c),
    ensures
        r == digit_val(c),
{
    match c {
        '0' => 0,
        '1' => 1,
        '2' => 2,
        '3' => 3,
        '4' => 4,
        '5' => 5,
        '6' => 6,
        '7' => 7,
        '8' => 8,
        _ => 9,
    }
}

/// Whether every character of `s` is a digit.
pub open spec fn all_digits(s: Seq<char>) -> bool {
    forall|i: int| 0 <= i < s.len() ==> is_digit(s[i])
}

/// Value of a digit sequence read in base ten.
pub open spec fn digits_val(s: Seq<char>) -> nat
    decreases s.len(),
{
    if s.len() == 0 {
        0
    } else {
        digits_val(s.drop_last()) * 10 + digit_val(s.last())
    }
}

/// Parse a non-empty run of digits as a `u64`, refusing overflow and any
/// non-digit character.
pub fn parse_u64(s: &Vec<char>) -> (r: Option<u64>)
    ensures
        match r {
            Some(n) => s@.len() > 0 && all_digits(s@) && n == digits_val(s@),
            None => s@.len() == 0 || !all_digits(s@) || digits_val(s@) > u64::MAX,
        },
{
    if s.len() == 0 {
        return None;
    }
    let mut acc: u64 = 0;
    let mut i: usize = 0;
    while i < s.len()
        invariant
            i <= s@.len(),
            all_digits(s@.subrange(0, i as int)),
            acc == digits_val(s@.subrange(0, i as int)),
        decreases s@.len() - i,
    {
        let c = s[i];
        if !(c == '0' || c == '1' || c == '2' || c == '3' || c == '4' || c == '5' || c == '6' || c
            == '7' || c == '8' || c == '9') {
            return None;
        }
        let d = digit_value(c);
        if acc > (u64::MAX - d) / 10 {
            proof {
                assert(s@.subrange(0, i + 1).drop_last() =~= s@.subrange(0, i as int));
                assert(s@.subrange(0, i + 1).last() == s@[i as int]);
                assert(digits_val(s@.subrange(0, i + 1)) == acc * 10 + d);
                let x = (u64::MAX - d) as nat;
                assert(x == 10 * (x / 10) + x % 10) by {
                    vstd::arithmetic::div_mod::lemma_fundamental_div_mod(x as int, 10);
                }
                assert(acc * 10 + d > u64::MAX);
                lemma_digits_val_prefix_grows(s@, i + 1);
            }
            return None;
        }
        acc = acc * 10 + d;
        i += 1;
        proof {
            assert(s@.subrange(0, i as int).drop_last() =~= s@.subrange(0, i - 1));
            assert(s@.subrange(0, i as int).last() == s@[i - 1]);
        }
    }
    proof {
        assert(s@.subrange(0, s@.len() as int) =~= s@);
    }
    Some(acc)
}

/// The value of a digit sequence is at least the value of any of its
/// prefixes scaled appropriately; in particular a prefix that already
/// overflows forces the whole to overflow.
proof fn lemma_digits_val_prefix_grows(s: Seq<char>, i: int)
    requires
        0 < i <= s.len(),
    ensures
        digits_val(s) >= digits_val(s.subrange(0, i)),
    decreases s.len() - i,
{
    if i == s.len() {
        assert(s.subrange(0, i) =~= s);
    } else {
        lemma_digits_val_prefix_grows(s, i + 1);
        assert(s.subrange(0, i + 1).drop_last() =~= s.subrange(0, i));
        assert(digits_val(s.subrange(0, i + 1)) >= digits_val(s.subrange(0, i)));
    }
}

/// Copy of the characters of `s` between `from` and `to`.
pub fn sub_vec(s: &Vec<char>, from: usize, to: usize) -> (r: Vec<char>)
    requires
        from <= to <= s@.len(),
    ensures
        r@ == s@.subrange(from as int, to as int),
{
    let mut r: Vec<char> = Vec::new();
    let mut k: usize = from;
    while k < to
        invariant
            from <= k <= to <= s@.len(),
            r@ == s@.subrange(from as int, k as int),
        decreases to - k,
    {
        r.push(s[k]);
        k += 1;
        proof {
            assert(r@ =~= s@.subrange(from as int, k as int));
        }
    }
    r
}

/// Whitespace, as the tool output uses it.
pub open spec fn is_ws(c: char) -> bool {
    c == ' ' || c == '\t' || c == '\n' || c == '\r'
}

/// Whether a character is whitespace.
pub fn ws_char(c: char) -> (r: bool)
    ensures
        r == is_ws(c),
{
    c == ' ' || c == '\t' || c == '\n' || c == '\r'
}

/// `s` with leading whitespace removed.
pub open spec fn trim_start_spec(s: Seq<char>) -> Seq<char>
    decreases s.len(),
{
    if s.len() > 0 && is_ws(s[0]) {
        trim_start_spec(s.drop_first())
    } else {
        s
    }
}

/// `s` with trailing whitespace removed.
pub open spec fn trim_end_spec(s: Seq<char>) -> Seq<char>
    decreases s.len(),
{
    if s.len() > 0 && is_ws(s.last()) {
        trim_end_spec(s.drop_last())
    } else {
        s
    }
}

/// `s` with leading and trailing whitespace removed.
pub open spec fn trim_spec(s: Seq<char>) -> Seq<char> {
    trim_end_spec(trim_start_spec(s))
}

proof fn lemma_trim_start_range(s: Seq<char>, a: int)
    requires
        0 <= a <= s.len(),
        forall|k: int| 0 <= k < a ==> is_ws(s[k]),
        a < s.len() ==> !is_ws(s[a]),
    ensures
        trim_start_spec(s) == s.subrange(a, s.len() as int),
    decreases a,
{
    if a == 0 {
        if s.len() == 0 {
            assert(s.subrange(0, s.len() as int) =~= s);
        } else {
            assert(s.subrange(0, s.len() as int) =~= s);
        }
    } else {
        assert(is_ws(s[0]));
        lemma_trim_start_range(s.drop_first(), a - 1);
        assert(s.drop_first().subrange(a - 1, s.drop_first().len() as int) =~= s.subrange(
            a,
            s.len() as int,
        ));
    }
}

proof fn lemma_trim_end_range(s: Seq<char>, b: int)
    requires
        0 <= b <= s.len(),
        forall|k: int| b <= k < s.len() ==> is_ws(s[k]),
        b > 0 ==> !is_ws(s[b - 1]),
    ensures
        trim_end_spec(s) == s.subrange(0, b),
    decreases s.len() - b,
{
    if b == s.len() {
        if s.len() == 0 {
            assert(s.subrange(0, b) =~= s);
        } else {
            assert(s.subrange(0, b) =~= s);
        }
    } else {
        assert(is_ws(s.last()));
        lemma_trim_end_range(s.drop_last(), b);
        assert(s.drop_last().subrange(0, b) =~= s.subrange(0, b));
    }
}

/// Remove leading and trailing whitespace.
pub fn trim(s: &Vec<char>) -> (r: Vec<char>)
    ensures
        r@ == trim_spec(s@),
{
    let n = s.len();
    let mut a: usize = 0;
    while a < n && ws_char(s[a])
        invariant
            a <= n,
            n == s@.len(),
            forall|k: int| 0 <= k < a ==> is_ws(s@[k]),
        decreases n - a,
    {
        a += 1;
    }
    proof {
        lemma_trim_start_range(s@, a as int);
    }
    let mut b: usize = n;
    while b > a && ws_char(s[b - 1])
        invariant
            a <= b <= n,
            n == s@.len(),
            forall|k: int| b <= k < n ==> is_ws(s@[k]),
        decreases b,
    {
        b -= 1;
    }
    let r = sub_vec(s, a, b);
    proof {
        let t = s@.subrange(a as int, n as int);
        if b == a {
            lemma_trim_end_range(t, 0);
        } else {
            lemma_trim_end_range(t, b - a);
        }
        assert(t.subrange(0, b - a) =~= s@.subrange(a as int, b as int));
    }
    r
}

/// Length of the leading run of non-whitespace characters.
pub open spec fn token_len(s: Seq<char>) -> nat
    decreases s.len(),
{
    if s.len() == 0 || is_ws(s[0]) {
        0
    } else {
        1 + token_len(s.drop_first())
    }
}

proof fn lemma_token_len(s: Seq<char>, k: int)
    requires
        0 <= k <= s.len(),
        forall|j: int| 0 <= j < k ==> !is_ws(s[j]),
        k < s.len() ==> is_ws(s[k]),
    ensures
        token_len(s) == k,
    decreases k,
{
    if k == 0 {
    } else {
        lemma_token_len(s.drop_first(), k - 1);
    }
}

/// The whitespace-separated tokens of `s`, in order.
pub open spec fn split_ws_spec(s: Seq<char>) -> Seq<Seq<char>>
    decreases s.len(),
{
    if s.len() == 0 {
        Seq::empty()
    } else if is_ws(s[0]) {
        split_ws_spec(s.drop_first())
    } else {
        let k0 = (1 + token_len(s.drop_first())) as int;
        let k = if k0 <= s.len() {
            k0
        } else {
            s.len() as int
        };
        seq![s.take(k)] + split_ws_spec(s.skip(k))
    }
}

proof fn lemma_token_len_bound(s: Seq<char>)
    ensures
        token_len(s) <= s.len(),
    decreases s.len(),
{
    if s.len() == 0 || is_ws(s[0]) {
    } else {
        lemma_token_len_bound(s.drop_first());
    }
}

proof fn lemma_split_ws_skip_one(s: Seq<char>, i: int)
    requires
        0 <= i < s.len(),
        is_ws(s[i]),
    ensures
        split_ws_spec(s.skip(i)) == split_ws_spec(s.skip(i + 1)),
{
    assert(s.skip(i).len() > 0);
    assert(s.skip(i)[0] == s[i]);
    assert(s.skip(i).drop_first() =~= s.skip(i + 1));
}

proof fn lemma_split_ws_token(s: Seq<char>, i: int, j: int)
    requires
        0 <= i < j <= s.len(),
        forall|k: int| i <= k < j ==> !is_ws(s[k]),
        j < s.len() ==> is_ws(s[j]),
    ensures
        split_ws_spec(s.skip(i)) == seq![s.subrange(i, j)] + split_ws_spec(s.skip(j)),
{
    let t = s.skip(i);
    assert(!is_ws(t[0]));
    lemma_token_len(t, j - i);
    lemma_token_len_bound(t.drop_first());
    assert(1 + token_len(t.drop_first()) == j - i);
    assert(t.take(j - i) =~= s.subrange(i, j));
    assert(t.skip(j - i) =~= s.skip(j));
}

/// Split into whitespace-separated tokens, as the tool arguments are
/// tokenized.
pub fn split_ws(s: &Vec<char>) -> (r: Vec<Vec<char>>)
    ensures
        r@.map_values(|t: Vec<char>| t@) == split_ws_spec(s@),
{
    let n = s.len();
    let mut r: Vec<Vec<char>> = Vec::new();
    let mut i: usize = 0;
    proof {
        assert(s@.skip(0) =~= s@);
    }
    while i < n
        invariant
            i <= n,
            n == s@.len(),
            split_ws_spec(s@) == r@.map_values(|t: Vec<char>| t@) + split_ws_spec(
                s@.skip(i as int),
            ),
        decreases n - i,
    {
        if ws_char(s[i]) {
            proof {
                lemma_split_ws_skip_one(s@, i as int);
            }
            i += 1;
        } else {
            let mut j: usize = i + 1;
            while j < n && !ws_char(s[j])
                invariant
                    i < j <= n,
                    n == s@.len(),
                    forall|k: int| i <= k < j ==> !is_ws(s@[k]),
                decreases n - j,
            {
                j += 1;
            }
            let tok = sub_vec(s, i, j);
            proof {
                lemma_split_ws_token(s@, i as int, j as int);
            }
            r.push(tok);
            proof {
                assert(r@.map_values(|t: Vec<char>| t@) =~= r@.drop_last().map_values(
                    |t: Vec<char>| t@,
                ).push(tok@));
            }
            i = j;
        }
    }
    proof {
        assert(split_ws_spec(s@.skip(n as int)) =~= Seq::<Seq<char>>::empty());
        assert(r@.map_values(|t: Vec<char>| t@) + Seq::<Seq<char>>::empty() =~= r@.map_values(
            |t: Vec<char>| t@,
        ));
    }
    r
}

/// Index of the first `.` in `s`, or the length of `s` if there is none.
pub open spec fn dot_pos(s: Seq<char>) -> nat
    decreases s.len(),
{
    if s.len() == 0 {
        0
    } else if s[0] == '.' {
        0
    } else {
        1 + dot_pos(s.drop_first())
    }
}

proof fn lemma_dot_pos(s: Seq<char>, k: int)
    requires
        0 <= k <= s.len(),
        forall|j: int| 0 <= j < k ==> s[j] != '.',
        k < s.len() ==> s[k] == '.',
    ensures
        dot_pos(s) == k,
    decreases k,
{
    if k == 0 {
    } else {
        lemma_dot_pos(s.drop_first(), k - 1);
    }
}

/// Largest integer part accepted when parsing a decimal into milli-units;
/// in thousandths it still fits comfortably in 64 bits.
pub const MAX_DECIMAL_INT: u64 = 1000000000000000;

/// A decimal numeral: one or more digits, optionally followed by `.` and
/// further digits (possibly none).
pub open spec fn decimal_wf(s: Seq<char>) -> bool {
    let d = dot_pos(s) as int;
    0 < d <= s.len() && all_digits(s.subrange(0, d)) && all_digits(
        s.subrange(if d < s.len() {
            d + 1
        } else {
            d
        }, s.len() as int),
    )
}

/// Value in thousandths of the fractional digit run `s`; digits past the
/// third are ignored.
pub open spec fn frac_milli(s: Seq<char>) -> nat {
    if s.len() >= 3 {
        digits_val(s.subrange(0, 3))
    } else if s.len() == 2 {
        digits_val(s) * 10
    } else if s.len() == 1 {
        digits_val(s) * 100
    } else {
        0
    }
}

/// Value of a well-formed decimal numeral in thousandths.
pub open spec fn decimal_milli(s: Seq<char>) -> nat {
    let d = dot_pos(s) as int;
    digits_val(s.subrange(0, d)) * 1000 + if d < s.len() {
        frac_milli(s.subrange(d + 1, s.len() as int))
    } else {
        0
    }
}

/// Parse a decimal numeral (such as the tool's `25.75` or `995`) into
/// thousandths. Digits past the third fractional place are dropped.
pub fn parse_milli(s: &Vec<char>) -> (r: Option<u64>)
    ensures
        match r {
            Some(n) => decimal_wf(s@) && digits_val(s@.subrange(0, dot_pos(s@) as int))
                <= MAX_DECIMAL_INT && n == decimal_milli(s@),
            None => !decimal_wf(s@) || digits_val(s@.subrange(0, dot_pos(s@) as int))
                > MAX_DECIMAL_INT,
        },
{
    let n = s.len();
    let mut d: usize = 0;
    while d < n && s[d] != '.'
        invariant
            d <= n,
            n == s@.len(),
            forall|j: int| 0 <= j < d ==> s@[j] != '.',
        decreases n - d,
    {
        d += 1;
    }
    proof {
        lemma_dot_pos(s@, d as int);
    }
    let int_part = sub_vec(s, 0, d);
    let int_val = match parse_u64(&int_part) {
        Some(v) => v,
        None => {
            return None;
        },
    };
    if int_val > MAX_DECIMAL_INT {
        return None;
    }
    let frac_start = if d < n {
        d + 1
    } else {
        d
    };
    let frac_part = sub_vec(s, frac_start, n);
    let mut k: usize = 0;
    while k < frac_part.len()
        invariant
            k <= frac_part@.len(),
            n == s@.len(),
            d <= n,
            dot_pos(s@) == d,
            frac_start as int == if d < n {
                d as int + 1
            } else {
                d as int
            },
            frac_part@ == s@.subrange(frac_start as int, n as int),
            forall|j: int| 0 <= j < k ==> is_digit(frac_part@[j]),
        decreases frac_part@.len() - k,
    {
        let c = frac_part[k];
        if !(c == '0' || c == '1' || c == '2' || c == '3' || c == '4' || c == '5' || c == '6' || c
            == '7' || c == '8' || c == '9') {
            proof {
                assert(!is_digit(frac_part@[k as int]));
                assert(!all_digits(frac_part@));
                assert(!decimal_wf(s@));
            }
            return None;
        }
        k += 1;
    }
    proof {
        assert(all_digits(frac_part@));
    }
    let f = frac_part.len();
    let frac_val: u64 = if f >= 3 {
        let t = sub_vec(&frac_part, 0, 3);
        proof {
            assert forall|j: int| 0 <= j < t@.len() implies is_digit(t@[j]) by {
                assert(t@[j] == frac_part@[j]);
            }
            lemma_digits_val_small(t@);
        }
        match parse_u64(&t) {
            Some(v) => v,
            None => {
                return None;
            },
        }
    } else if f == 2 {
        proof {
            lemma_digits_val_small(frac_part@);
        }
        match parse_u64(&frac_part) {
            Some(v) => v * 10,
            None => {
                return None;
            },
        }
    } else if f == 1 {
        proof {
            lemma_digits_val_small(frac_part@);
        }
        match parse_u64(&frac_part) {
            Some(v) => v * 100,
            None => {
                return None;
            },
        }
    } else {
        0
    };
    Some(int_val * 1000 + frac_val)
}

/// A run of at most three digits reads below one thousand.
proof fn lemma_digits_val_small(s: Seq<char>)
    requires
        s.len() <= 3,
    ensures
        s.len() <= 1 ==> digits_val(s) <= 9,
        s.len() <= 2 ==> digits_val(s) <= 99,
        digits_val(s) <= 999,
    decreases s.len(),
{
    if s.len() > 0 {
        lemma_digits_val_small(s.drop_last());
    }
}

/// Character for a digit value.
pub open spec fn digit_char(n: nat) -> char {
    if n == 0 {
        '0'
    } else if n == 1 {
        '1'
    } else if n == 2 {
        '2'
    } else if n == 3 {
        '3'
    } else if n == 4 {
        '4'
    } else if n == 5 {
        '5'
    } else if n == 6 {
        '6'
    } else if n == 7 {
        '7'
    } else if n == 8 {
        '8'
    } else {
        '9'
    }
}

/// Base-ten numeral of `n`, most significant digit first.
pub open spec fn dec_str(n: nat) -> Seq<char>
    decreases n,
{
    if n < 10 {
        seq![digit_char(n)]
    } else {
        dec_str(n / 10).push(digit_char(n % 10))
    }
}

/// The ASCII digit for a value under ten.
pub fn digit_char_exec(n: u64) -> (c: char)
    requires
        n < 10,
    ensures
        c == digit_char(n as nat),
{
    match n {
        0 => '0',
        1 => '1',
        2 => '2',
        3 => '3',
        4 => '4',
        5 => '5',
        6 => '6',
        7 => '7',
        8 => '8',
        _ => '9',
    }
}

/// Render `n` in base ten.
pub fn u64_to_string(n: u64) -> (s: String)
    ensures
        s@ == dec_str(n as nat),
    decreases n,
{
    if n < 10 {
        let mut s = String::new();
        push_char(&mut s, digit_char_exec(n));
        proof {
            assert(s@ =~= dec_str(n as nat));
        }
        s
    } else {
        let mut s = u64_to_string(n / 10);
        push_char(&mut s, digit_char_exec(n % 10));
        s
    }
}

/// Numeral of a value held in thousandths: the integer part, then the
/// fractional digits with trailing zeros dropped, as `25`, `25.5` or
/// `25.755`.
pub open spec fn milli_str(n: nat) -> Seq<char> {
    let f = n % 1000;
    dec_str(n / 1000) + if f == 0 {
        Seq::<char>::empty()
    } else if f % 100 == 0 {
        seq!['.', digit_char(f / 100)]
    } else if f % 10 == 0 {
        seq!['.', digit_char(f / 100), digit_char((f / 10) % 10)]
    } else {
        seq!['.', digit_char(f / 100), digit_char((f / 10) % 10), digit_char(f % 10)]
    }
}

/// Render a fixed-point value held in thousandths.
pub fn milli_to_string(n: u64) -> (s: String)
    ensures
        s@ == milli_str(n as nat),
{
    let mut s = u64_to_string(n / 1000);
    let f = n % 1000;
    if f == 0 {
        proof {
            assert(s@ =~= milli_str(n as nat));
        }
        return s;
    }
    push_char(&mut s, '.');
    push_char(&mut s, digit_char_exec(f / 100));
    if f % 100 != 0 {
        push_char(&mut s, digit_char_exec((f / 10) % 10));
        if f % 10 != 0 {
            push_char(&mut s, digit_char_exec(f % 10));
        }
    }
    proof {
        assert(s@ =~= milli_str(n as nat));
    }
    s
}

} // verus!
