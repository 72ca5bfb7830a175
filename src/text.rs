//! Decimal rendering of integers, fixed-point amounts and clock times.
use vstd::prelude::*;

verus! {

/// The decimal digit character for `d` (`d < 10`).
pub open spec fn digit_char(d: nat) -> char {
    if d == 0 { '0' }
    else if d == 1 { '1' }
    else if d == 2 { '2' }
    else if d == 3 { '3' }
    else if d == 4 { '4' }
    else if d == 5 { '5' }
    else if d == 6 { '6' }
    else if d == 7 { '7' }
    else if d == 8 { '8' }
    else { '9' }
}

/// Decimal text of `n`, without leading zeros.
pub open spec fn dec(n: nat) -> Seq<char>
    decreases n,
{
    if n < 10 {
        seq![digit_char(n)]
    } else {
        dec(n / 10) + seq![digit_char(n % 10)]
    }
}

/// Decimal text of `n`, padded with a leading zero to at least two digits.
pub open spec fn dec2(n: nat) -> Seq<char> {
    if n < 10 {
        seq!['0'] + dec(n)
    } else {
        dec(n)
    }
}

/// The last `width` decimal digits of `n`, zero-padded.
pub open spec fn digits_fixed(n: nat, width: nat) -> Seq<char>
    decreases width,
{
    if width == 0 {
        Seq::empty()
    } else {
        digits_fixed(n / 10, (width - 1) as nat) + seq![digit_char(n % 10)]
    }
}

/// Ten to the power `d`.
pub open spec fn pow10(d: nat) -> nat
    decreases d,
{
    if d == 0 { 1 } else { 10 * pow10((d - 1) as nat) }
}

/// Magnitude of `v` counted in steps of `step`, rounded half away from zero.
pub open spec fn rounded_steps(v: int, step: nat) -> nat
    recommends step > 0,
{
    let m: nat = if v < 0 { (-v) as nat } else { v as nat };
    ((m + step / 2) / step) as nat
}

/// `v / unit` rendered with `places` decimals (`places` is 0, 1 or 2):
/// a minus sign when `v` is negative, the integer part, then a point and the
/// decimals when `places > 0`. The last place is rounded half away from zero.
pub open spec fn fixed(v: int, unit: nat, places: nat) -> Seq<char> {
    let q = rounded_steps(v, unit / pow10(places));
    let sign = if v < 0 { seq!['-'] } else { Seq::<char>::empty() };
    if places == 0 {
        sign + dec(q)
    } else {
        sign + dec(q / pow10(places)) + seq!['.'] + digits_fixed(q % pow10(places), places)
    }
}

/// `HH:MM:SS` of the time of day, `secs` seconds after midnight of day zero.
pub open spec fn clock(secs: nat) -> Seq<char> {
    dec2((secs / 3600) % 24) + seq![':'] + dec2((secs / 60) % 60) + seq![':'] + dec2(secs % 60)
}

/// Elapsed time `secs` as hours (at least two digits), minutes and seconds.
pub open spec fn duration(secs: nat) -> Seq<char> {
    dec2(secs / 3600) + seq![':'] + dec2((secs / 60) % 60) + seq![':'] + dec2(secs % 60)
}

fn digit_str(d: u64) -> (r: &'static str)
    requires
        d < 10,
    ensures
        r@ == seq![digit_char(d as nat)],
{
    proof {
        reveal_strlit("0");
        reveal_strlit("1");
        reveal_strlit("2");
        reveal_strlit("3");
        reveal_strlit("4");
        reveal_strlit("5");
        reveal_strlit("6");
        reveal_strlit("7");
        reveal_strlit("8");
        reveal_strlit("9");
    }
    if d == 0 { "0" }
    else if d == 1 { "1" }
    else if d == 2 { "2" }
    else if d == 3 { "3" }
    else if d == 4 { "4" }
    else if d == 5 { "5" }
    else if d == 6 { "6" }
    else if d == 7 { "7" }
    else if d == 8 { "8" }
    else { "9" }
}

/// Appends the decimal text of `n`.
pub fn push_dec(s: &mut String, n: u64)
    ensures
        final(s)@ == old(s)@ + dec(n as nat),
    decreases n,
{
    if n >= 10 {
        push_dec(s, n / 10);
        s.append(digit_str(n % 10));
        assert(final(s)@ =~= old(s)@ + dec(n as nat));
    } else {
        s.append(digit_str(n));
    }
}

/// Appends the decimal text of `n`, padded to at least two digits.
pub fn push_dec2(s: &mut String, n: u64)
    ensures
        final(s)@ == old(s)@ + dec2(n as nat),
{
    if n < 10 {
        s.append(digit_str(0));
        assert(seq!['0'] == seq![digit_char(0)]);
    }
    push_dec(s, n);
    assert(final(s)@ =~= old(s)@ + dec2(n as nat));
}

fn push_digits_fixed(s: &mut String, n: u64, width: u32)
    ensures
        final(s)@ == old(s)@ + digits_fixed(n as nat, width as nat),
    decreases width,
{
    if width > 0 {
        push_digits_fixed(s, n / 10, width - 1);
        s.append(digit_str(n % 10));
        assert(final(s)@ =~= old(s)@ + digits_fixed(n as nat, width as nat));
    } else {
        assert(final(s)@ =~= old(s)@ + digits_fixed(n as nat, width as nat));
    }
}

/// Decimal text of `n`.
pub fn dec_text(n: u64) -> (r: String)
    ensures
        r@ == dec(n as nat),
{
    let mut s = String::new();
    push_dec(&mut s, n);
    assert(s@ =~= dec(n as nat));
    s
}

/// Appends `v / unit` with `places` decimals, see [`fixed`].
pub fn push_fixed(s: &mut String, v: i64, unit: u64, places: u32)
    requires
        places <= 2,
        unit >= 100,
        unit % 100 == 0,
    ensures
        final(s)@ == old(s)@ + fixed(v as int, unit as nat, places as nat),
{
    let p: u64 = if places == 0 { 1 } else if places == 1 { 10 } else { 100 };
    assert(p == pow10(places as nat)) by {
        reveal_with_fuel(pow10, 3);
    }
    let step: u64 = unit / p;
    assert(step > 0) by (nonlinear_arith)
        requires unit >= 100, p <= 100, p > 0, step == unit / p;
    let m: u64 = if v < 0 { (-(v as i128)) as u64 } else { v as u64 };
    let q: u64 = ((m as u128 + (step / 2) as u128) / step as u128) as u64;
    if v < 0 {
        proof { reveal_strlit("-"); }
        s.append("-");
    }
    if places == 0 {
        push_dec(s, q);
    } else {
        push_dec(s, q / p);
        proof { reveal_strlit("."); }
        s.append(".");
        push_digits_fixed(s, q % p, places);
    }
    assert(final(s)@ =~= old(s)@ + fixed(v as int, unit as nat, places as nat));
}

/// Appends `HH:MM:SS`, see [`clock`].
pub fn push_clock(s: &mut String, secs: u64)
    ensures
        final(s)@ == old(s)@ + clock(secs as nat),
{
    proof { reveal_strlit(":"); }
    push_dec2(s, (secs / 3600) % 24);
    s.append(":");
    push_dec2(s, (secs / 60) % 60);
    s.append(":");
    push_dec2(s, secs % 60);
    assert(final(s)@ =~= old(s)@ + clock(secs as nat));
}

/// Appends the elapsed time `secs`, see [`duration`].
pub fn push_duration(s: &mut String, secs: u64)
    ensures
        final(s)@ == old(s)@ + duration(secs as nat),
{
    proof { reveal_strlit(":"); }
    push_dec2(s, secs / 3600);
    s.append(":");
    push_dec2(s, (secs / 60) % 60);
    s.append(":");
    push_dec2(s, secs % 60);
    assert(final(s)@ =~= old(s)@ + duration(secs as nat));
}

} // verus!
