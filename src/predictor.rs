//! Reading a predictor's free-form answer: the embedded JSON object is cut
//! out, parsed, and its fields taken with neutral defaults for anything
//! missing or malformed.
use vstd::prelude::*;
use crate::models::{AIPrediction, Market, PPM};
use crate::json::{is_json, json_valid, member_number, member_string, number_at, string_at};
use crate::stats::tdiv;
use crate::text::pow10;

verus! {

/// Index of the first `c` in `s`, or -1.
pub open spec fn first_index(s: Seq<char>, c: char) -> int
    decreases s.len(),
{
    if s.len() == 0 {
        -1
    } else if s.last() == c && first_index(s.drop_last(), c) < 0 {
        s.len() - 1
    } else {
        first_index(s.drop_last(), c)
    }
}

/// Index of the last `c` in `s`, or -1.
pub open spec fn last_index(s: Seq<char>, c: char) -> int
    decreases s.len(),
{
    if s.len() == 0 {
        -1
    } else if s.last() == c {
        s.len() - 1
    } else {
        last_index(s.drop_last(), c)
    }
}

/// The part of `s` from its first `{` to its last `}`, both included; all of
/// `s` when there is no such pair in that order.
pub open spec fn json_slice(s: Seq<char>) -> Seq<char> {
    let a = first_index(s, '{');
    let b = last_index(s, '}');
    if a >= 0 && b >= a {
        s.subrange(a, b + 1)
    } else {
        s
    }
}

/// Cuts the JSON object out of a predictor's answer, see [`json_slice`].
pub fn extract_json(text: &str) -> (r: String)
    ensures
        r@ == json_slice(text@),
{
    let n: usize = text.unicode_len();
    let mut has_first = false;
    let mut first: usize = 0;
    let mut has_last = false;
    let mut last: usize = 0;
    let mut i: usize = 0;
    while i < n
        invariant
            n == text@.len(),
            i <= n,
            has_first == (first_index(text@.take(i as int), '{') >= 0),
            has_first ==> first == first_index(text@.take(i as int), '{') && first < i,
            has_last == (last_index(text@.take(i as int), '}') >= 0),
            has_last ==> last == last_index(text@.take(i as int), '}') && last < i,
            first_index(text@.take(i as int), '{') >= -1,
            last_index(text@.take(i as int), '}') >= -1,
        decreases n - i,
    {
        assert(text@.take(i + 1).drop_last() =~= text@.take(i as int));
        let c = text.get_char(i);
        assert(text@.take(i + 1).last() == c);
        if c == '{' && !has_first {
            has_first = true;
            first = i;
        }
        if c == '}' {
            has_last = true;
            last = i;
        }
        i = i + 1;
    }
    assert(text@.take(n as int) =~= text@);
    if has_first && has_last && last >= first {
        String::from_str(text.substring_char(first, last + 1))
    } else {
        String::from_str(text)
    }
}

pub open spec fn is_digit(c: char) -> bool {
    '0' <= c && c <= '9'
}

pub open spec fn digit_value(c: char) -> int {
    (c as u32) - ('0' as u32)
}

/// Value of a run of decimal digits.
pub open spec fn digits_value(s: Seq<char>) -> int
    decreases s.len(),
{
    if s.len() == 0 {
        0
    } else {
        digits_value(s.drop_last()) * 10 + digit_value(s.last())
    }
}

pub open spec fn all_digits(s: Seq<char>) -> bool {
    forall|i: int| 0 <= i < s.len() ==> is_digit(#[trigger] s[i])
}

/// Integer digits accepted at most, so that any accepted value fits.
pub const MAX_INT_DIGITS: usize = 12;

/// Parts per million of the fraction whose decimal digits are `f`; digits
/// past the sixth are dropped.
pub open spec fn fraction_ppm(f: Seq<char>) -> int {
    let t = if f.len() > 6 { f.subrange(0, 6) } else { f };
    digits_value(t) * pow10((6 - t.len()) as nat)
}

/// The value of a plain decimal number (`-`, digits, then `.` and digits,
/// the sign and the fraction optional) in parts per million, rounded toward
/// zero; `None` for any other text, or more than `MAX_INT_DIGITS` integer digits.
pub open spec fn decimal_ppm(s: Seq<char>) -> Option<int> {
    let neg = s.len() > 0 && s[0] == '-';
    let body = if neg { s.drop_first() } else { s };
    let dot = first_index(body, '.');
    let ip = if dot < 0 { body } else { body.subrange(0, dot) };
    let fp = if dot < 0 { Seq::<char>::empty() } else { body.subrange(dot + 1, body.len() as int) };
    if ip.len() == 0 || ip.len() > MAX_INT_DIGITS || !all_digits(ip) || (dot >= 0 && (fp.len()
        == 0 || !all_digits(fp))) {
        None
    } else {
        let v = digits_value(ip) * PPM + fraction_ppm(fp);
        Some(if neg { -v } else { v })
    }
}

/// Reads the digits `s[from..to]`; `None` unless all of them are digits.
fn digits_at(s: &str, from: usize, to: usize) -> (r: Option<u64>)
    requires
        from <= to <= s@.len(),
        to - from <= MAX_INT_DIGITS,
    ensures
        r.is_some() == all_digits(s@.subrange(from as int, to as int)),
        r matches Some(v) ==> v == digits_value(s@.subrange(from as int, to as int)) && v
            < pow10((to - from) as nat),
{
    let ghost d = s@.subrange(from as int, to as int);
    let mut v: u64 = 0;
    let mut p: u64 = 1;
    let mut i: usize = from;
    while i < to
        invariant
            from <= i <= to <= s@.len(),
            to - from <= MAX_INT_DIGITS,
            d == s@.subrange(from as int, to as int),
            all_digits(d.take(i - from)),
            v == digits_value(d.take(i - from)),
            p == pow10((i - from) as nat),
            v < p,
            p <= 1_000_000_000_000,
        decreases to - i,
    {
        assert(d.take(i - from + 1).drop_last() =~= d.take(i - from));
        let c = s.get_char(i);
        assert(d.take(i - from + 1).last() == c);
        if !('0' <= c && c <= '9') {
            assert(!all_digits(d)) by {
                assert(d[i - from] == c);
            }
            return None;
        }
        assert(p * 10 <= 1_000_000_000_000) by {
            if i - from + 1 > 12 {
            } else {
                assert(pow10(12) == 1_000_000_000_000) by {
                    reveal_with_fuel(pow10, 13);
                }
                lemma_pow10_mono((i - from + 1) as nat, 12);
            }
        }
        v = v * 10 + (c as u64 - '0' as u64);
        p = p * 10;
        i = i + 1;
        assert(all_digits(d.take(i - from))) by {
            assert forall|k: int| 0 <= k < d.take(i - from).len() implies is_digit(#[trigger] d.take(i - from)[k]) by {
                if k < i - from - 1 {
                    assert(d.take(i - from)[k] == d.take(i - from - 1)[k]);
                }
            }
        }
    }
    assert(d.take(to - from) =~= d);
    Some(v)
}

proof fn lemma_pow10_mono(a: nat, b: nat)
    requires
        a <= b,
    ensures
        pow10(a) <= pow10(b),
    decreases b,
{
    if a < b {
        lemma_pow10_mono(a, (b - 1) as nat);
    }
}

/// Whether `s[from..to]` holds only digits.
fn all_digits_at(s: &str, from: usize, to: usize) -> (r: bool)
    requires
        from <= to <= s@.len(),
    ensures
        r == all_digits(s@.subrange(from as int, to as int)),
{
    let mut i: usize = from;
    while i < to
        invariant
            from <= i <= to <= s@.len(),
            all_digits(s@.subrange(from as int, i as int)),
        decreases to - i,
    {
        let c = s.get_char(i);
        if !('0' <= c && c <= '9') {
            assert(s@.subrange(from as int, to as int)[i - from] == c);
            return false;
        }
        i = i + 1;
        assert forall|k: int| 0 <= k < i - from implies is_digit(#[trigger] s@.subrange(from as int, i as int)[k]) by {
            if k < i - from - 1 {
                assert(s@.subrange(from as int, i as int)[k] == s@.subrange(from as int, i - 1)[k]);
            }
        }
    }
    true
}

/// Index of the first `c` in `s[from..]`, counted from `from`.
fn first_index_from(s: &str, from: usize, c: char) -> (r: Option<usize>)
    requires
        from <= s@.len(),
    ensures
        r is None ==> first_index(s@.subrange(from as int, s@.len() as int), c) == -1,
        r matches Some(k) ==> first_index(s@.subrange(from as int, s@.len() as int), c) == k
            && k < s@.len() - from,
{
    let n: usize = s.unicode_len();
    let ghost body = s@.subrange(from as int, n as int);
    let mut i: usize = from;
    while i < n
        invariant
            from <= i <= n,
            n == s@.len(),
            body == s@.subrange(from as int, n as int),
            first_index(body.take(i - from), c) == -1,
        decreases n - i,
    {
        assert(body.take(i - from + 1).drop_last() =~= body.take(i - from));
        let d = s.get_char(i);
        assert(body.take(i - from + 1).last() == d);
        if d == c {
            proof { lemma_first_index_prefix(body, (i - from + 1) as int, c); }
            return Some(i - from);
        }
        i = i + 1;
    }
    assert(body.take(n - from) =~= body);
    None
}

/// The first occurrence found in a prefix is the first in the whole.
proof fn lemma_first_index_prefix(s: Seq<char>, k: int, c: char)
    requires
        0 <= k <= s.len(),
        first_index(s.take(k), c) >= 0,
    ensures
        first_index(s, c) == first_index(s.take(k), c),
    decreases s.len() - k,
{
    if k < s.len() {
        assert(s.take(k + 1).drop_last() =~= s.take(k));
        lemma_first_index_prefix(s, k + 1, c);
    } else {
        assert(s.take(k) =~= s);
    }
}

/// The fraction digits `s[from..]` in parts per million; `None` unless there
/// is at least one and all are digits.
fn fraction_at(s: &str, from: usize) -> (r: Option<u64>)
    requires
        from <= s@.len(),
    ensures
        r is None <==> (from == s@.len() || !all_digits(s@.subrange(from as int, s@.len() as int))),
        r matches Some(v) ==> v == fraction_ppm(s@.subrange(from as int, s@.len() as int)) && v
            <= 1_000_000,
{
    let n: usize = s.unicode_len();
    let ghost fp = s@.subrange(from as int, n as int);
    if from == n || !all_digits_at(s, from, n) {
        return None;
    }
    let tl: usize = if n - from > 6 { 6 } else { n - from };
    let ghost tt = if fp.len() > 6 { fp.subrange(0, 6) } else { fp };
    assert(tt =~= s@.subrange(from as int, (from + tl) as int));
    let fv: u64 = match digits_at(s, from, from + tl) {
        Some(v) => v,
        None => { return None; },
    };
    assert(pow10(1) == 10 && pow10(2) == 100 && pow10(3) == 1000 && pow10(4) == 10000
        && pow10(5) == 100000 && pow10(6) == 1000000) by {
        reveal_with_fuel(pow10, 7);
    }
    let scale: u64 = if tl == 1 { 100_000 } else if tl == 2 { 10_000 }
        else if tl == 3 { 1_000 } else if tl == 4 { 100 } else if tl == 5 { 10 } else { 1 };
    Some(fv * scale)
}

/// Reads a plain decimal number as parts per million, see [`decimal_ppm`].
fn parse_plain_ppm(s: &str) -> (r: Option<i64>)
    ensures
        r matches Some(v) ==> decimal_ppm(s@) == Some(v as int) && -MAX_READ <= v <= MAX_READ,
        r is None ==> decimal_ppm(s@) is None,
{
    let n: usize = s.unicode_len();
    let neg: bool = n > 0 && s.get_char(0) == '-';
    let start: usize = if neg { 1 } else { 0 };
    let ghost body = if neg { s@.drop_first() } else { s@ };
    assert(body =~= s@.subrange(start as int, n as int));
    let dot = first_index_from(s, start, '.');
    let int_end: usize = match dot { None => n, Some(d) => start + d };
    let ghost ip = match dot { None => body, Some(d) => body.subrange(0, d as int) };
    assert(ip =~= s@.subrange(start as int, int_end as int));
    if int_end - start == 0 || int_end - start > MAX_INT_DIGITS {
        return None;
    }
    let iv: u64 = match digits_at(s, start, int_end) {
        Some(v) => v,
        None => { return None; },
    };
    assert(iv < 1_000_000_000_000) by {
        assert(pow10(12) == 1_000_000_000_000) by { reveal_with_fuel(pow10, 13); }
        lemma_pow10_mono((int_end - start) as nat, 12);
    }
    let ghost fp = match dot { None => Seq::<char>::empty(), Some(d) => body.subrange(d + 1, body.len() as int) };
    let frac: u64 = match dot {
        None => {
            assert(pow10(6) == 1_000_000) by { reveal_with_fuel(pow10, 7); }
            0
        },
        Some(_) => {
            let fs: usize = int_end + 1;
            assert(fp =~= s@.subrange(fs as int, n as int));
            match fraction_at(s, fs) {
                Some(f) => f,
                None => { return None; },
            }
        },
    };
    assert(fraction_ppm(fp) == frac);
    let v: i64 = (iv * 1_000_000 + frac) as i64;
    if neg {
        Some(-v)
    } else {
        Some(v)
    }
}

/// Largest magnitude of a number read, in millionths.
pub const MAX_READ: i64 = 1_000_000_000_000_000_000;

/// Position of the exponent mark (`e`, else `E`) in `s`, or -1.
pub open spec fn exp_index(s: Seq<char>) -> int {
    let a = first_index(s, 'e');
    if a >= 0 {
        a
    } else {
        first_index(s, 'E')
    }
}

/// A decimal exponent: an optional sign and one to three digits.
pub open spec fn exponent_of(t: Seq<char>) -> Option<int> {
    let neg = t.len() > 0 && t[0] == '-';
    let pos = t.len() > 0 && t[0] == '+';
    let body = if neg || pos { t.drop_first() } else { t };
    if body.len() == 0 || body.len() > 3 || !all_digits(body) {
        None
    } else {
        Some(if neg { -digits_value(body) } else { digits_value(body) })
    }
}

/// `m` times ten to the power `e`, rounded toward zero; `None` when the
/// result would exceed `MAX_READ` in magnitude.
pub open spec fn scaled(m: int, e: int) -> Option<int> {
    if e >= 0 {
        if m == 0 {
            Some(0)
        } else if e > 18 {
            None
        } else {
            let v = m * pow10(e as nat);
            if -MAX_READ <= v <= MAX_READ {
                Some(v)
            } else {
                None
            }
        }
    } else if e < -18 {
        Some(0)
    } else {
        Some(tdiv(m, pow10((-e) as nat) as int))
    }
}

/// A number in parts per million: a plain decimal (see [`decimal_ppm`]),
/// optionally followed by `e` or `E` and an exponent, which scales the
/// decimal's value in millionths (rounded toward zero).
pub open spec fn number_ppm(s: Seq<char>) -> Option<int> {
    let p = exp_index(s);
    if p < 0 {
        decimal_ppm(s)
    } else {
        match decimal_ppm(s.subrange(0, p)) {
            Some(m) => match exponent_of(s.subrange(p + 1, s.len() as int)) {
                Some(e) => scaled(m, e),
                None => None,
            },
            None => None,
        }
    }
}

fn pow10_exec(e: u32) -> (r: u64)
    requires
        e <= 18,
    ensures
        r == pow10(e as nat),
        r <= 1_000_000_000_000_000_000,
{
    assert(pow10(18) == 1_000_000_000_000_000_000) by { reveal_with_fuel(pow10, 19); }
    let mut p: u64 = 1;
    let mut i: u32 = 0;
    while i < e
        invariant
            i <= e <= 18,
            p == pow10(i as nat),
            pow10(18) == 1_000_000_000_000_000_000,
        decreases e - i,
    {
        proof { lemma_pow10_mono((i + 1) as nat, 18); }
        p = p * 10;
        i = i + 1;
    }
    proof { lemma_pow10_mono(e as nat, 18); }
    p
}

fn parse_exponent(t: &str) -> (r: Option<i64>)
    ensures
        r matches Some(v) ==> exponent_of(t@) == Some(v as int) && -999 <= v <= 999,
        r is None ==> exponent_of(t@) is None,
{
    let n: usize = t.unicode_len();
    let neg: bool = n > 0 && t.get_char(0) == '-';
    let pos: bool = n > 0 && t.get_char(0) == '+';
    let start: usize = if neg || pos { 1 } else { 0 };
    let ghost body = if neg || pos { t@.drop_first() } else { t@ };
    assert(body =~= t@.subrange(start as int, n as int));
    if n - start == 0 || n - start > 3 {
        return None;
    }
    match digits_at(t, start, n) {
        None => None,
        Some(d) => {
            assert(d < 1000) by {
                reveal_with_fuel(pow10, 4);
            }
            if neg { Some(-(d as i64)) } else { Some(d as i64) }
        },
    }
}

fn scale_exec(m: i64, e: i64) -> (r: Option<i64>)
    requires
        -MAX_READ <= m <= MAX_READ,
    ensures
        r matches Some(v) ==> scaled(m as int, e as int) == Some(v as int),
        r is None ==> scaled(m as int, e as int) is None,
{
    if e >= 0 {
        if m == 0 {
            Some(0)
        } else if e > 18 {
            None
        } else {
            let p: u64 = pow10_exec(e as u32);
            let a: i128 = m as i128;
            let b: i128 = p as i128;
            assert(-1_000_000_000_000_000_000_000_000_000_000_000_000int <= a * b
                <= 1_000_000_000_000_000_000_000_000_000_000_000_000int) by (nonlinear_arith)
                requires
                    -1_000_000_000_000_000_000int <= a <= 1_000_000_000_000_000_000int,
                    0 <= b <= 1_000_000_000_000_000_000int,
            ;
            let v: i128 = a * b;
            if v < -(MAX_READ as i128) || v > MAX_READ as i128 {
                None
            } else {
                Some(v as i64)
            }
        }
    } else if e < -18 {
        Some(0)
    } else {
        let p: u64 = pow10_exec((-e) as u32);
        assert(p >= 1) by {
            lemma_pow10_mono(0, (-e) as nat);
        }
        let q: i64 = if m >= 0 {
            (m as u64 / p) as i64
        } else {
            -(((-(m as i128)) as u64 / p) as i64)
        };
        assert(q == tdiv(m as int, p as int));
        Some(q)
    }
}

/// Reads a number as parts per million, see [`number_ppm`].
pub fn parse_ppm(s: &str) -> (r: Option<i64>)
    ensures
        r matches Some(v) ==> number_ppm(s@) == Some(v as int),
        r is None ==> number_ppm(s@) is None,
{
    let n: usize = s.unicode_len();
    assert(s@.subrange(0, n as int) =~= s@);
    let p: Option<usize> = match first_index_from(s, 0, 'e') {
        Some(k) => Some(k),
        None => first_index_from(s, 0, 'E'),
    };
    match p {
        None => parse_plain_ppm(s),
        Some(k) => {
            let m = match parse_plain_ppm(s.substring_char(0, k)) {
                Some(v) => v,
                None => { return None; },
            };
            let e = match parse_exponent(s.substring_char(k + 1, n)) {
                Some(v) => v,
                None => { return None; },
            };
            scale_exec(m, e)
        },
    }
}

/// Confidence assumed when a predictor gives none, in parts per million.
pub const DEFAULT_CONFIDENCE: i64 = 300_000;

/// Fair price assumed when a predictor gives none, in parts per million.
pub const DEFAULT_FAIR_PRICE: i64 = 500_000;

/// Fields read from a predictor's JSON answer; numbers as their decimal text.
pub struct PredictionFields {
    pub predicted_outcome: Option<String>,
    pub fair_price: Option<String>,
    pub confidence: Option<String>,
    pub edge: Option<String>,
    pub reasoning: Option<String>,
    pub recommended_size_pct: Option<String>,
}

/// The views of optional texts.
pub open spec fn opt_view(f: Option<String>) -> Option<Seq<char>> {
    match f {
        Some(t) => Some(t@),
        None => None,
    }
}

/// The number in `f` in parts per million, or `default` when it is absent or unreadable.
pub open spec fn number_or(f: Option<Seq<char>>, default: int) -> int {
    match f {
        Some(t) => match number_ppm(t) {
            Some(v) => v,
            None => default,
        },
        None => default,
    }
}

/// The text in `f`, or `default` when it is absent.
pub open spec fn text_or(f: Option<Seq<char>>, default: Seq<char>) -> Seq<char> {
    match f {
        Some(t) => t,
        None => default,
    }
}

/// `r` is the neutral prediction for `market` given when an answer holds no
/// readable JSON.
pub open spec fn is_fallback(r: AIPrediction, market: Market) -> bool {
    &&& r.market_id@ == market.id@
    &&& r.market_name@ == market.question@
    &&& r.predicted_outcome@ == "Yes"@
    &&& r.fair_price == DEFAULT_FAIR_PRICE
    &&& r.confidence == DEFAULT_CONFIDENCE
    &&& r.edge == 0
    &&& r.reasoning@ == "Failed to parse AI response"@
    &&& r.recommended_size == 0
}

fn number_field_or(f: Option<String>, default: i64) -> (r: i64)
    ensures
        r == number_or(opt_view(f), default as int),
{
    match f {
        Some(t) => match parse_ppm(t.as_str()) {
            Some(v) => v,
            None => default,
        },
        None => default,
    }
}

fn text_field_or(f: Option<String>, default: &str) -> (r: String)
    ensures
        r@ == text_or(opt_view(f), default@),
{
    match f {
        Some(t) => t,
        None => String::from_str(default),
    }
}

/// The prediction for `market` made of the fields of an answer, each absent
/// or unreadable one replaced by its neutral default.
pub fn assemble_prediction(market: &Market, fields: PredictionFields) -> (r: AIPrediction)
    ensures
        r.market_id@ == market.id@,
        r.market_name@ == market.question@,
        r.predicted_outcome@ == text_or(opt_view(fields.predicted_outcome), "Yes"@),
        r.reasoning@ == text_or(opt_view(fields.reasoning), "No reasoning provided"@),
        r.fair_price == number_or(opt_view(fields.fair_price), DEFAULT_FAIR_PRICE as int),
        r.confidence == number_or(opt_view(fields.confidence), DEFAULT_CONFIDENCE as int),
        r.edge == number_or(opt_view(fields.edge), 0),
        r.recommended_size == number_or(opt_view(fields.recommended_size_pct), 0),
{
    AIPrediction {
        market_id: market.id.clone(),
        market_name: market.question.clone(),
        predicted_outcome: text_field_or(fields.predicted_outcome, "Yes"),
        confidence: number_field_or(fields.confidence, DEFAULT_CONFIDENCE),
        edge: number_field_or(fields.edge, 0),
        reasoning: text_field_or(fields.reasoning, "No reasoning provided"),
        recommended_size: number_field_or(fields.recommended_size_pct, 0),
        fair_price: number_field_or(fields.fair_price, DEFAULT_FAIR_PRICE),
    }
}

/// The neutral prediction for `market`.
pub fn fallback_prediction(market: &Market) -> (r: AIPrediction)
    ensures
        is_fallback(r, *market),
{
    AIPrediction {
        market_id: market.id.clone(),
        market_name: market.question.clone(),
        predicted_outcome: String::from_str("Yes"),
        confidence: DEFAULT_CONFIDENCE,
        edge: 0,
        reasoning: String::from_str("Failed to parse AI response"),
        recommended_size: 0,
        fair_price: DEFAULT_FAIR_PRICE,
    }
}

/// Reads a predictor's answer about `market`. The JSON object is cut out of
/// the text (see [`json_slice`]); when it does not parse, the neutral
/// prediction comes back; when it does, each field is read from it, with a
/// neutral default for any that is missing or malformed. Malformed output is
/// never an error.
pub fn parse_prediction(text: &str, market: &Market) -> (r: AIPrediction)
    ensures
        r.market_id@ == market.id@,
        r.market_name@ == market.question@,
        !json_valid(json_slice(text@)) ==> is_fallback(r, *market),
        json_valid(json_slice(text@)) ==> ({
            let doc = json_slice(text@);
            &&& r.predicted_outcome@ == text_or(member_string(doc, "predicted_outcome"@), "Yes"@)
            &&& r.reasoning@ == text_or(
                member_string(doc, "reasoning"@),
                "No reasoning provided"@,
            )
            &&& r.fair_price == number_or(
                member_number(doc, "fair_price"@),
                DEFAULT_FAIR_PRICE as int,
            )
            &&& r.confidence == number_or(
                member_number(doc, "confidence"@),
                DEFAULT_CONFIDENCE as int,
            )
            &&& r.edge == number_or(member_number(doc, "edge"@), 0)
            &&& r.recommended_size == number_or(member_number(doc, "recommended_size_pct"@), 0)
        }),
{
    let json = extract_json(text);
    let doc = json.as_str();
    if !is_json(doc) {
        fallback_prediction(market)
    } else {
        let fields = PredictionFields {
            predicted_outcome: string_at(doc, "predicted_outcome"),
            fair_price: number_at(doc, "fair_price"),
            confidence: number_at(doc, "confidence"),
            edge: number_at(doc, "edge"),
            reasoning: string_at(doc, "reasoning"),
            recommended_size_pct: number_at(doc, "recommended_size_pct"),
        };
        assemble_prediction(market, fields)
    }
}

/// Cumulative predictor cost of the tokens used so far, in micro-units
/// (three currency units per million input tokens, fifteen per million
/// output tokens), at most `i64::MAX`.
pub fn estimate_cost(input_tokens: u64, output_tokens: u64) -> (r: i64)
    ensures
        r == if 3 * input_tokens + 15 * output_tokens > i64::MAX {
            i64::MAX as int
        } else {
            3 * input_tokens + 15 * output_tokens
        },
{
    let a: u128 = input_tokens as u128 * 3;
    let b: u128 = output_tokens as u128 * 15;
    let total: u128 = a + b;
    if total > i64::MAX as u128 {
        i64::MAX
    } else {
        total as i64
    }
}

} // verus!
