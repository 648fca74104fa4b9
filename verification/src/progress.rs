//! Parsing of the encoder's machine-readable progress stream and of the
//! quality tool's score output. This is the one place that reads tool
//! text; everything is stated over an explicit line grammar.
//!
//! The stream carries `key=value` fields; the fields read here are
//! `out_time=` (a clock time), `out_time_ms=` and `out_time_us=`
//! (microseconds), `speed=` (a decimal with a trailing `x`) and
//! `bitrate=` (a decimal with a trailing `k` unit); a line holding
//! `progress=` ends one progress tick.

use vstd::prelude::*;
use crate::text::{
    to_chars, find_sub, sub_vec, trim, parse_u64, parse_milli, matches_at, contains_seq,
    trim_spec, decimal_wf, decimal_milli, dot_pos, digits_val, all_digits, MAX_DECIMAL_INT,
    is_digit,
};

verus! {

/// Position of the first occurrence of `pat` in `s`, or `-1` if there is
/// none.
pub open spec fn find_pos(s: Seq<char>, pat: Seq<char>) -> int
    decreases s.len(),
{
    if matches_at(s, pat, 0) {
        0
    } else if s.len() == 0 {
        -1
    } else {
        let r = find_pos(s.drop_first(), pat);
        if r < 0 {
            -1
        } else {
            1 + r
        }
    }
}

proof fn lemma_find_pos(s: Seq<char>, pat: Seq<char>, i: int)
    requires
        matches_at(s, pat, i),
        forall|j: int| 0 <= j < i ==> !matches_at(s, pat, j),
    ensures
        find_pos(s, pat) == i,
    decreases i,
{
    if i == 0 {
    } else {
        assert(!matches_at(s, pat, 0));
        assert(s.len() > 0);
        let t = s.drop_first();
        assert forall|k: int| 0 <= k && k + pat.len() <= t.len() && matches_at(s, pat, k + 1)
            implies matches_at(t, pat, k) by {
            assert(t.subrange(k, k + pat.len() as int) =~= s.subrange(
                k + 1,
                k + 1 + pat.len() as int,
            ));
        }
        assert forall|k: int| 0 <= k && k + pat.len() <= t.len() && matches_at(t, pat, k)
            implies matches_at(s, pat, k + 1) by {
            assert(s.subrange(k + 1, k + 1 + pat.len() as int) =~= t.subrange(
                k,
                k + pat.len() as int,
            ));
        }
        assert(matches_at(t, pat, i - 1));
        lemma_find_pos(t, pat, i - 1);
    }
}

proof fn lemma_find_pos_none(s: Seq<char>, pat: Seq<char>)
    requires
        !contains_seq(s, pat),
    ensures
        find_pos(s, pat) < 0,
    decreases s.len(),
{
    assert(!matches_at(s, pat, 0));
    if s.len() > 0 {
        let t = s.drop_first();
        assert forall|k: int| 0 <= k && k + pat.len() <= t.len() && matches_at(t, pat, k)
            implies matches_at(s, pat, k + 1) by {
            assert(s.subrange(k + 1, k + 1 + pat.len() as int) =~= t.subrange(
                k,
                k + pat.len() as int,
            ));
        }
        if contains_seq(t, pat) {
            let k = choose|k: int| matches_at(t, pat, k);
            assert(matches_at(s, pat, k + 1));
            assert(false);
        }
        lemma_find_pos_none(t, pat);
    }
}

/// Find the first occurrence of `pat`, with the position related to the
/// `find_pos` spec.
fn find_pos_exec(s: &Vec<char>, pat: &Vec<char>) -> (r: Option<usize>)
    ensures
        match r {
            Some(i) => find_pos(s@, pat@) == i && i + pat@.len() <= s@.len() && contains_seq(
                s@,
                pat@,
            ),
            None => find_pos(s@, pat@) < 0 && !contains_seq(s@, pat@),
        },
{
    let r = find_sub(s, pat);
    proof {
        match r {
            Some(i) => {
                lemma_find_pos(s@, pat@, i as int);
            },
            None => {
                lemma_find_pos_none(s@, pat@);
            },
        }
    }
    r
}

/// The trimmed text after the first occurrence of `tag`.
pub open spec fn value_after(line: Seq<char>, tag: Seq<char>) -> Seq<char> {
    trim_spec(line.skip(find_pos(line, tag) + tag.len() as int))
}

/// Milliseconds read from a clock time `H:M:S`, where `S` may carry a
/// decimal fraction; a text of any other shape reads as zero, and each
/// unreadable component reads as zero. Values beyond the 64-bit range
/// saturate.
pub open spec fn clock_ms(parts: Seq<Seq<char>>) -> nat {
    if parts.len() != 3 {
        0
    } else {
        let h: nat = if parts[0].len() > 0 && all_digits(parts[0]) && digits_val(parts[0])
            <= u64::MAX {
            digits_val(parts[0])
        } else {
            0
        };
        let m: nat = if parts[1].len() > 0 && all_digits(parts[1]) && digits_val(parts[1])
            <= u64::MAX {
            digits_val(parts[1])
        } else {
            0
        };
        let s: nat = if decimal_wf(parts[2]) && digits_val(
            parts[2].subrange(0, dot_pos(parts[2]) as int),
        ) <= MAX_DECIMAL_INT {
            decimal_milli(parts[2])
        } else {
            0
        };
        let total = h * 3600000 + m * 60000 + s;
        if total > u64::MAX {
            u64::MAX as nat
        } else {
            total
        }
    }
}

/// Split on a separator character; empty pieces are kept.
pub open spec fn split_char_spec(s: Seq<char>, c: char) -> Seq<Seq<char>>
    decreases s.len(),
{
    let p = char_pos(s, c);
    if p < 0 || p >= s.len() {
        seq![s]
    } else {
        let k = if p + 1 <= s.len() {
            p + 1
        } else {
            s.len() as int
        };
        seq![s.take(p)] + split_char_spec(s.skip(k), c)
    }
}

/// Position of the first occurrence of the character `c`, or `-1`.
pub open spec fn char_pos(s: Seq<char>, c: char) -> int
    decreases s.len(),
{
    if s.len() == 0 {
        -1
    } else if s[0] == c {
        0
    } else {
        let r = char_pos(s.drop_first(), c);
        if r < 0 {
            -1
        } else {
            1 + r
        }
    }
}

proof fn lemma_char_pos(s: Seq<char>, c: char, i: int)
    requires
        0 <= i <= s.len(),
        forall|j: int| 0 <= j < i ==> s[j] != c,
        i < s.len() ==> s[i] == c,
    ensures
        i < s.len() ==> char_pos(s, c) == i,
        i == s.len() ==> char_pos(s, c) < 0,
    decreases i,
{
    if s.len() == 0 {
    } else if i == 0 {
    } else {
        lemma_char_pos(s.drop_first(), c, i - 1);
    }
}

/// Find the first occurrence of the character `c`.
fn char_pos_exec(s: &Vec<char>, c: char) -> (r: Option<usize>)
    ensures
        match r {
            Some(i) => char_pos(s@, c) == i && i < s@.len(),
            None => char_pos(s@, c) < 0,
        },
{
    let mut i: usize = 0;
    while i < s.len()
        invariant
            i <= s@.len(),
            forall|j: int| 0 <= j < i ==> s@[j] != c,
        decreases s@.len() - i,
    {
        if s[i] == c {
            proof {
                lemma_char_pos(s@, c, i as int);
            }
            return Some(i);
        }
        i += 1;
    }
    proof {
        lemma_char_pos(s@, c, s@.len() as int);
    }
    None
}

/// Split on a separator character.
pub fn split_char(s: &Vec<char>, c: char) -> (r: Vec<Vec<char>>)
    ensures
        r@.map_values(|t: Vec<char>| t@) == split_char_spec(s@, c),
    decreases s@.len(),
{
    let mut r: Vec<Vec<char>> = Vec::new();
    match char_pos_exec(s, c) {
        None => {
            let piece = sub_vec(s, 0, s.len());
            proof {
                assert(piece@ =~= s@);
            }
            r.push(piece);
            proof {
                assert(r@.map_values(|t: Vec<char>| t@) =~= seq![s@]);
            }
            r
        },
        Some(p) => {
            let n = s.len();
            proof {
                assert(p < n);
            }
            let head = sub_vec(s, 0, p);
            let tail = sub_vec(s, p + 1, n);
            proof {
                assert(head@ =~= s@.take(p as int));
                assert(tail@ =~= s@.skip(p as int + 1));
            }
            let rest = split_char(&tail, c);
            r.push(head);
            let mut k: usize = 0;
            while k < rest.len()
                invariant
                    k <= rest@.len(),
                    r@.map_values(|t: Vec<char>| t@) == seq![s@.take(char_pos(s@, c))]
                        + rest@.subrange(0, k as int).map_values(|t: Vec<char>| t@),
                decreases rest@.len() - k,
            {
                let ghost prev = r@.map_values(|t: Vec<char>| t@);
                let piece = sub_vec(&rest[k], 0, rest[k].len());
                proof {
                    assert(piece@ =~= rest@[k as int]@);
                }
                r.push(piece);
                k += 1;
                proof {
                    assert(r@.map_values(|t: Vec<char>| t@) =~= prev.push(rest@[k - 1]@));
                    assert(rest@.subrange(0, k as int).map_values(|t: Vec<char>| t@) =~= rest@
                        .subrange(0, k - 1).map_values(|t: Vec<char>| t@).push(rest@[k - 1]@));
                    assert(r@.map_values(|t: Vec<char>| t@) =~= seq![s@.take(char_pos(s@, c))]
                        + rest@.subrange(0, k as int).map_values(|t: Vec<char>| t@));
                }
            }
            proof {
                assert(rest@.subrange(0, rest@.len() as int) =~= rest@);
                assert(r@.map_values(|t: Vec<char>| t@) =~= split_char_spec(s@, c));
            }
            r
        },
    }
}

/// Milliseconds read from a clock time such as `00:01:23.45`.
pub fn parse_time_str(s: &Vec<char>) -> (r: u64)
    ensures
        r == clock_ms(split_char_spec(s@, ':')),
{
    let parts = split_char(s, ':');
    if parts.len() != 3 {
        return 0;
    }
    let h: u64 = match parse_u64(&parts[0]) {
        Some(v) => v,
        None => 0,
    };
    let m: u64 = match parse_u64(&parts[1]) {
        Some(v) => v,
        None => 0,
    };
    let sec: u64 = match parse_milli(&parts[2]) {
        Some(v) => v,
        None => 0,
    };
    proof {
        assert(parts@.map_values(|t: Vec<char>| t@)[0] == parts@[0]@);
        assert(parts@.map_values(|t: Vec<char>| t@)[1] == parts@[1]@);
        assert(parts@.map_values(|t: Vec<char>| t@)[2] == parts@[2]@);
    }
    let total: u128 = h as u128 * 3600000 + m as u128 * 60000 + sec as u128;
    if total > u64::MAX as u128 {
        u64::MAX
    } else {
        total as u64
    }
}

/// Running measurements carried across progress lines.
pub struct ProgressState {
    /// Position reached in the output, in milliseconds.
    pub out_time_ms: u64,
    /// Instantaneous speed, in thousandths of real time.
    pub speed_milli: u64,
    /// Instantaneous output bitrate, in thousandths of a kilobit per
    /// second.
    pub bitrate_milli: u64,
}

/// A decimal that parses: well-formed, with its integer part under the
/// cap.
pub open spec fn decimal_ok(v: Seq<char>) -> bool {
    decimal_wf(v) && digits_val(v.subrange(0, dot_pos(v) as int)) <= MAX_DECIMAL_INT
}

/// Value of a decimal in thousandths; an unreadable one reads as zero.
pub open spec fn decimal_or_zero(v: Seq<char>) -> nat {
    if decimal_ok(v) {
        decimal_milli(v)
    } else {
        0
    }
}

/// The position field carried by a line, in milliseconds: a clock time
/// after `out_time=`, or microseconds after `out_time_ms=` or
/// `out_time_us=`.
pub open spec fn line_out_time_ms(line: Seq<char>, prev: u64) -> nat {
    if contains_seq(line, "out_time="@) {
        clock_ms(split_char_spec(value_after(line, "out_time="@), ':'))
    } else if contains_seq(line, "out_time_ms="@) {
        decimal_or_zero(value_after(line, "out_time_ms="@)) / 1000000
    } else if contains_seq(line, "out_time_us="@) {
        decimal_or_zero(value_after(line, "out_time_us="@)) / 1000000
    } else {
        prev as nat
    }
}

/// The speed field carried by a line, in thousandths: the decimal before
/// the trailing `x`.
pub open spec fn line_speed_milli(line: Seq<char>, prev: u64) -> nat {
    if contains_seq(line, "out_time="@) || contains_seq(line, "out_time_ms="@) || contains_seq(
        line,
        "out_time_us="@,
    ) {
        prev as nat
    } else if contains_seq(line, "speed="@) {
        let v = value_after(line, "speed="@);
        let vx = if char_pos(v, 'x') >= 0 {
            v.take(char_pos(v, 'x'))
        } else {
            v
        };
        decimal_or_zero(vx)
    } else {
        prev as nat
    }
}

/// The bitrate field carried by a line, in thousandths of a kilobit per
/// second: the decimal before the `k` unit, and zero without that unit.
pub open spec fn line_bitrate_milli(line: Seq<char>, prev: u64) -> nat {
    if contains_seq(line, "out_time="@) || contains_seq(line, "out_time_ms="@) || contains_seq(
        line,
        "out_time_us="@,
    ) || contains_seq(line, "speed="@) {
        prev as nat
    } else if contains_seq(line, "bitrate="@) {
        let v = value_after(line, "bitrate="@);
        if char_pos(v, 'k') >= 0 {
            decimal_or_zero(v.take(char_pos(v, 'k')))
        } else {
            0
        }
    } else {
        prev as nat
    }
}

impl ProgressState {
    /// The starting state: nothing read yet.
    pub fn new() -> (r: ProgressState)
        ensures
            r.out_time_ms == 0,
            r.speed_milli == 0,
            r.bitrate_milli == 0,
    {
        ProgressState { out_time_ms: 0, speed_milli: 0, bitrate_milli: 0 }
    }

    /// Read one line of the progress stream, updating whichever field it
    /// carries. The first matching field tag wins, in the order the
    /// encoder writes them.
    pub fn read_line(&mut self, line: &Vec<char>)
        ensures
            final(self).out_time_ms == line_out_time_ms(line@, old(self).out_time_ms),
            final(self).speed_milli == line_speed_milli(line@, old(self).speed_milli),
            final(self).bitrate_milli == line_bitrate_milli(line@, old(self).bitrate_milli),
    {
        let tag_time = to_chars("out_time=");
        let tag_ms = to_chars("out_time_ms=");
        let tag_us = to_chars("out_time_us=");
        let tag_speed = to_chars("speed=");
        let tag_bitrate = to_chars("bitrate=");
        let n = line.len();
        if let Some(i) = find_pos_exec(line, &tag_time) {
            let rest = sub_vec(line, i + tag_time.len(), n);
            let v = trim(&rest);
            proof {
                assert(rest@ =~= line@.skip(find_pos(line@, "out_time="@) + "out_time="@.len()));
            }
            self.out_time_ms = parse_time_str(&v);
        } else if let Some(i) = find_pos_exec(line, &tag_ms) {
            let rest = sub_vec(line, i + tag_ms.len(), n);
            let v = trim(&rest);
            proof {
                assert(rest@ =~= line@.skip(
                    find_pos(line@, "out_time_ms="@) + "out_time_ms="@.len(),
                ));
            }
            let us: u64 = match parse_milli(&v) {
                Some(x) => x,
                None => 0,
            };
            self.out_time_ms = us / 1000000;
        } else if let Some(i) = find_pos_exec(line, &tag_us) {
            let rest = sub_vec(line, i + tag_us.len(), n);
            let v = trim(&rest);
            proof {
                assert(rest@ =~= line@.skip(
                    find_pos(line@, "out_time_us="@) + "out_time_us="@.len(),
                ));
            }
            let us: u64 = match parse_milli(&v) {
                Some(x) => x,
                None => 0,
            };
            self.out_time_ms = us / 1000000;
        } else if let Some(i) = find_pos_exec(line, &tag_speed) {
            let rest = sub_vec(line, i + tag_speed.len(), n);
            let v = trim(&rest);
            proof {
                assert(rest@ =~= line@.skip(find_pos(line@, "speed="@) + "speed="@.len()));
            }
            let vx = match char_pos_exec(&v, 'x') {
                Some(k) => sub_vec(&v, 0, k),
                None => v,
            };
            proof {
                assert(vx@ =~= if char_pos(value_after(line@, "speed="@), 'x') >= 0 {
                    value_after(line@, "speed="@).take(
                        char_pos(value_after(line@, "speed="@), 'x'),
                    )
                } else {
                    value_after(line@, "speed="@)
                });
            }
            self.speed_milli = match parse_milli(&vx) {
                Some(x) => x,
                None => 0,
            };
        } else if let Some(i) = find_pos_exec(line, &tag_bitrate) {
            let rest = sub_vec(line, i + tag_bitrate.len(), n);
            let v = trim(&rest);
            proof {
                assert(rest@ =~= line@.skip(find_pos(line@, "bitrate="@) + "bitrate="@.len()));
            }
            self.bitrate_milli = match char_pos_exec(&v, 'k') {
                Some(k) => {
                    let vk = sub_vec(&v, 0, k);
                    match parse_milli(&vk) {
                        Some(x) => x,
                        None => 0,
                    }
                },
                None => 0,
            };
        }
    }
}

/// Whether a line ends one progress tick.
pub fn is_progress_tick(line: &Vec<char>) -> (r: bool)
    ensures
        r == contains_seq(line@, "progress="@),
{
    crate::text::contains_sub(line, &to_chars("progress="))
}

/// Completion in whole percent: position over duration, capped at 100;
/// zero while the duration is unknown.
pub open spec fn percent_spec(current_ms: u64, duration_ms: u64) -> int {
    if duration_ms == 0 {
        0
    } else if current_ms as int * 100 / (duration_ms as int) > 100 {
        100
    } else {
        current_ms as int * 100 / (duration_ms as int)
    }
}

/// Completion in whole percent.
pub fn percent_of(current_ms: u64, duration_ms: u64) -> (r: u8)
    ensures
        r == percent_spec(current_ms, duration_ms),
{
    if duration_ms == 0 {
        return 0;
    }
    let p: u128 = current_ms as u128 * 100 / duration_ms as u128;
    if p > 100 {
        100
    } else {
        p as u8
    }
}

/// A percentage mapped into the upper half of the bar, for the second
/// pass of a two-pass run or the encode after a parameter search.
pub fn to_upper_half(p: u8) -> (r: u8)
    ensures
        r == 50 + (if p > 100 {
            100int
        } else {
            p as int
        }) / 2,
{
    let q = if p > 100 {
        100
    } else {
        p
    };
    50 + q / 2
}

/// A percentage mapped into the lower half of the bar, for the first
/// pass of a two-pass run.
pub fn to_lower_half(p: u8) -> (r: u8)
    ensures
        r == (if p > 100 {
            100int
        } else {
            p as int
        }) / 2,
{
    let q = if p > 100 {
        100
    } else {
        p
    };
    q / 2
}

/// Highest score the quality metric yields, in thousandths.
pub const MAX_VMAF_MILLI: u64 = 100000;

/// First whitespace-separated token of `s`, or `0` when there is none.
pub open spec fn first_token_or_zero(s: Seq<char>) -> Seq<char> {
    let toks = crate::text::split_ws_spec(s);
    if toks.len() > 0 {
        toks[0]
    } else {
        "0"@
    }
}

/// A token read as a score: its decimal value in thousandths, if it is
/// well-formed and within the metric's zero-to-one-hundred range.
pub open spec fn token_score(tok: Seq<char>) -> Option<u64> {
    if decimal_ok(tok) && decimal_milli(tok) <= MAX_VMAF_MILLI {
        Some(decimal_milli(tok) as u64)
    } else {
        None
    }
}

/// The score announced in the tool's diagnostic text: the token after
/// `VMAF score: `, or, failing that tag, after `VMAF score = `.
pub open spec fn text_score_spec(text: Seq<char>) -> Option<u64> {
    if contains_seq(text, "VMAF score: "@) {
        token_score(first_token_or_zero(text.skip(find_pos(text, "VMAF score: "@) + 12)))
    } else if contains_seq(text, "VMAF score = "@) {
        token_score(first_token_or_zero(text.skip(find_pos(text, "VMAF score = "@) + 13)))
    } else {
        None
    }
}

fn token_score_exec(tok: &Vec<char>) -> (r: Option<u64>)
    ensures
        r == token_score(tok@),
        r is Some ==> r->0 <= MAX_VMAF_MILLI,
{
    match parse_milli(tok) {
        Some(v) => {
            if v <= MAX_VMAF_MILLI {
                Some(v)
            } else {
                None
            }
        },
        None => None,
    }
}

fn score_after(text: &Vec<char>, from: usize) -> (r: Option<u64>)
    requires
        from <= text@.len(),
    ensures
        r == token_score(first_token_or_zero(text@.skip(from as int))),
        r is Some ==> r->0 <= MAX_VMAF_MILLI,
{
    let rest = sub_vec(text, from, text.len());
    proof {
        assert(rest@ =~= text@.skip(from as int));
    }
    let toks = crate::text::split_ws(&rest);
    if toks.len() > 0 {
        proof {
            assert(toks@.map_values(|t: Vec<char>| t@)[0] == toks@[0]@);
        }
        token_score_exec(&toks[0])
    } else {
        let zero = to_chars("0");
        token_score_exec(&zero)
    }
}

/// Read the score announced in the tool's diagnostic text, in
/// thousandths. An absent tag, an unreadable number, or one outside the
/// metric's range reads as no score.
pub fn vmaf_score_from_text(text: &Vec<char>) -> (r: Option<u64>)
    ensures
        r == text_score_spec(text@),
        r is Some ==> r->0 <= MAX_VMAF_MILLI,
{
    proof {
        reveal_strlit("VMAF score: ");
        reveal_strlit("VMAF score = ");
    }
    let tag1 = to_chars("VMAF score: ");
    let tag2 = to_chars("VMAF score = ");
    let n = text.len();
    if let Some(i) = find_pos_exec(text, &tag1) {
        proof {
            assert(i + 12 <= n);
        }
        score_after(text, i + 12)
    } else if let Some(i) = find_pos_exec(text, &tag2) {
        proof {
            assert(i + 13 <= n);
        }
        score_after(text, i + 13)
    } else {
        None
    }
}

/// Length of the leading run of number characters (digits or a point).
pub open spec fn number_len(s: Seq<char>) -> nat
    decreases s.len(),
{
    if s.len() == 0 || !(is_digit(s[0]) || s[0] == '.') {
        0
    } else {
        1 + number_len(s.drop_first())
    }
}

proof fn lemma_number_len(s: Seq<char>, k: int)
    requires
        0 <= k <= s.len(),
        forall|j: int| 0 <= j < k ==> is_digit(s[j]) || s[j] == '.',
        k < s.len() ==> !(is_digit(s[k]) || s[k] == '.'),
    ensures
        number_len(s) == k,
    decreases k,
{
    if k == 0 {
    } else {
        lemma_number_len(s.drop_first(), k - 1);
    }
}

fn number_char(c: char) -> (r: bool)
    ensures
        r == (is_digit(c) || c == '.'),
{
    c == '.' || c == '0' || c == '1' || c == '2' || c == '3' || c == '4' || c == '5' || c == '6'
        || c == '7' || c == '8' || c == '9'
}

fn take_number(s: &Vec<char>) -> (r: Vec<char>)
    ensures
        r@ == s@.take(number_len(s@) as int),
{
    let mut k: usize = 0;
    while k < s.len() && number_char(s[k])
        invariant
            k <= s@.len(),
            forall|j: int| 0 <= j < k ==> is_digit(s@[j]) || s@[j] == '.',
        decreases s@.len() - k,
    {
        k += 1;
    }
    proof {
        lemma_number_len(s@, k as int);
    }
    sub_vec(s, 0, k)
}

/// The score held by the structured log artifact: under the pooled
/// metrics, the `mean` figure of the `vmaf` entry, read as the number
/// after the colon.
pub open spec fn log_score_spec(text: Seq<char>) -> Option<u64> {
    if !contains_seq(text, "pooled_metrics"@) {
        None
    } else {
        let t1 = text.skip(find_pos(text, "pooled_metrics"@));
        if !contains_seq(t1, "vmaf"@) {
            None
        } else {
            let t2 = t1.skip(find_pos(t1, "vmaf"@));
            if !contains_seq(t2, "mean"@) {
                None
            } else {
                let t3 = t2.skip(find_pos(t2, "mean"@));
                if char_pos(t3, ':') < 0 {
                    None
                } else {
                    let after = trim_start_of(t3.skip(char_pos(t3, ':') + 1));
                    token_score(after.take(number_len(after) as int))
                }
            }
        }
    }
}

/// Leading whitespace removed.
pub open spec fn trim_start_of(s: Seq<char>) -> Seq<char> {
    crate::text::trim_start_spec(s)
}

/// Read the score from the structured log artifact the tool was asked to
/// write. An artifact without the expected entries, or with an
/// unreadable or out-of-range figure, reads as no score.
pub fn vmaf_score_from_log(text: &Vec<char>) -> (r: Option<u64>)
    ensures
        r == log_score_spec(text@),
        r is Some ==> r->0 <= MAX_VMAF_MILLI,
{
    let tag_pool = to_chars("pooled_metrics");
    let tag_vmaf = to_chars("vmaf");
    let tag_mean = to_chars("mean");
    let n = text.len();
    let p1 = match find_pos_exec(text, &tag_pool) {
        Some(i) => i,
        None => {
            return None;
        },
    };
    let t1 = sub_vec(text, p1, n);
    proof {
        assert(t1@ =~= text@.skip(find_pos(text@, "pooled_metrics"@)));
    }
    let p2 = match find_pos_exec(&t1, &tag_vmaf) {
        Some(i) => i,
        None => {
            return None;
        },
    };
    let t2 = sub_vec(&t1, p2, t1.len());
    proof {
        assert(t2@ =~= t1@.skip(find_pos(t1@, "vmaf"@)));
    }
    let p3 = match find_pos_exec(&t2, &tag_mean) {
        Some(i) => i,
        None => {
            return None;
        },
    };
    let t3 = sub_vec(&t2, p3, t2.len());
    proof {
        assert(t3@ =~= t2@.skip(find_pos(t2@, "mean"@)));
    }
    let pc = match char_pos_exec(&t3, ':') {
        Some(i) => i,
        None => {
            return None;
        },
    };
    let rest = sub_vec(&t3, pc + 1, t3.len());
    proof {
        assert(rest@ =~= t3@.skip(char_pos(t3@, ':') + 1));
    }
    let trimmed = {
        let mut a: usize = 0;
        let m = rest.len();
        while a < m && crate::text::ws_char(rest[a])
            invariant
                a <= m,
                m == rest@.len(),
                forall|j: int| 0 <= j < a ==> crate::text::is_ws(rest@[j]),
            decreases m - a,
        {
            a += 1;
        }
        let t = sub_vec(&rest, a, m);
        proof {
            lemma_trim_start_at(rest@, a as int);
            assert(t@ =~= rest@.subrange(a as int, m as int));
        }
        t
    };
    let num = take_number(&trimmed);
    token_score_exec(&num)
}

proof fn lemma_trim_start_at(s: Seq<char>, a: int)
    requires
        0 <= a <= s.len(),
        forall|k: int| 0 <= k < a ==> crate::text::is_ws(s[k]),
        a < s.len() ==> !crate::text::is_ws(s[a]),
    ensures
        crate::text::trim_start_spec(s) == s.subrange(a, s.len() as int),
    decreases a,
{
    if a == 0 {
        assert(s.subrange(0, s.len() as int) =~= s);
    } else {
        lemma_trim_start_at(s.drop_first(), a - 1);
        assert(s.drop_first().subrange(a - 1, s.drop_first().len() as int) =~= s.subrange(
            a,
            s.len() as int,
        ));
    }
}

} // verus!
