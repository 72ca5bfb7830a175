//! Derived performance figures, recomputed from the ledger and the counters.
use vstd::prelude::*;
use crate::models::{Order, OrderStatus, UNIT};
use crate::settlement::MAX_PNL;
use crate::text::{fixed, push_fixed};

verus! {

/// Orders the ledger holds at most after a cycle.
pub const LEDGER_CAP: usize = 50;

/// `sqrt(252)` in thousandths, rounded.
pub const SQRT_252_MILLI: i64 = 15875;

/// Runway reported when the predictor has cost nothing.
pub const RUNWAY_UNBOUNDED: u32 = 9999;

/// `x` limited to the range of `i64`.
pub open spec fn clamp_i64(x: int) -> int {
    if x > i64::MAX {
        i64::MAX as int
    } else if x < i64::MIN {
        i64::MIN as int
    } else {
        x
    }
}

/// `a / b` rounded toward zero (`b > 0`).
pub open spec fn tdiv(a: int, b: int) -> int {
    if a >= 0 {
        a / b
    } else {
        -((-a) / b)
    }
}

/// Share of wins among `total` trades, in hundredths of a percent; 0 without trades.
pub open spec fn win_rate_of(wins: nat, total: nat) -> nat {
    if total == 0 {
        0
    } else {
        wins * 10000 / total
    }
}

/// Sum of the stakes of the resolved orders of `s`.
pub open spec fn resolved_stake(s: Seq<Order>) -> int
    decreases s.len(),
{
    if s.len() == 0 {
        0
    } else {
        resolved_stake(s.drop_last()) + if s.last().status == OrderStatus::Resolved {
            s.last().size as int
        } else {
            0
        }
    }
}

/// Average stake per trade: resolved stakes in the ledger over all trades ever made.
pub open spec fn avg_bet_of(s: Seq<Order>, total: nat) -> int {
    if total == 0 {
        0
    } else {
        clamp_i64(tdiv(resolved_stake(s), total as int))
    }
}

/// The realised results held by the orders of `s`, in ledger order.
pub open spec fn realized(s: Seq<Order>) -> Seq<int>
    decreases s.len(),
{
    if s.len() == 0 {
        Seq::empty()
    } else {
        match s.last().pnl {
            Some(p) => realized(s.drop_last()).push(p as int),
            None => realized(s.drop_last()),
        }
    }
}

pub open spec fn sum(s: Seq<int>) -> int
    decreases s.len(),
{
    if s.len() == 0 {
        0
    } else {
        sum(s.drop_last()) + s.last()
    }
}

/// Sum of the squared deviations of `s` from `m`.
pub open spec fn sq_dev_sum(s: Seq<int>, m: int) -> int
    decreases s.len(),
{
    if s.len() == 0 {
        0
    } else {
        sq_dev_sum(s.drop_last(), m) + (s.last() - m) * (s.last() - m)
    }
}

/// Mean of `s`, rounded toward zero.
pub open spec fn mean(s: Seq<int>) -> int {
    tdiv(sum(s), s.len() as int)
}

/// Population variance of `s` around its rounded mean, rounded down.
pub open spec fn variance(s: Seq<int>) -> int {
    sq_dev_sum(s, mean(s)) / (s.len() as int)
}

/// `r` is the integer square root of `v`.
pub open spec fn is_isqrt(r: int, v: int) -> bool {
    0 <= r && r * r <= v && v < (r + 1) * (r + 1)
}

/// Sharpe approximation in thousandths from a mean and a standard deviation:
/// `mean / sd * sqrt(252)`, and 0 when the deviation is 0.
pub open spec fn sharpe_from(m: int, sd: int) -> int {
    if sd == 0 {
        0
    } else {
        clamp_i64(tdiv(m * SQRT_252_MILLI, sd))
    }
}

/// Days of predictor cost that the balance covers; `RUNWAY_UNBOUNDED` when
/// nothing has been spent.
pub open spec fn runway_of(balance: int, daily_cost: int) -> int {
    if daily_cost <= 0 {
        RUNWAY_UNBOUNDED as int
    } else if balance <= 0 {
        0
    } else if balance / daily_cost > u32::MAX {
        u32::MAX as int
    } else {
        balance / daily_cost
    }
}

/// Text of a total result: a `+` when it is not negative, `$`, the amount in
/// thousands of currency units with one decimal, and `k`.
pub open spec fn pnl_label_text(total_pnl: int) -> Seq<char> {
    (if total_pnl >= 0 { "+"@ } else { ""@ }) + "$"@ + fixed(total_pnl, 1000 * UNIT as nat, 1)
        + "k"@
}

/// Win rate in hundredths of a percent.
pub fn win_rate(wins: u32, total: u32) -> (r: u64)
    requires
        wins <= total,
    ensures
        r == win_rate_of(wins as nat, total as nat),
{
    if total == 0 {
        0
    } else {
        assert(wins as u64 * 10000 <= u32::MAX as u64 * 10000) by (nonlinear_arith)
            requires wins <= u32::MAX;
        wins as u64 * 10000 / total as u64
    }
}

fn tdiv_exec(a: i128, b: i128) -> (r: i128)
    requires
        b > 0,
        a > i128::MIN,
    ensures
        r == tdiv(a as int, b as int),
        a >= 0 ==> 0 <= r <= a,
        a < 0 ==> a <= r <= 0,
{
    if a >= 0 {
        assert((a as int) / (b as int) <= a as int) by (nonlinear_arith)
            requires a >= 0, b > 0;
        a / b
    } else {
        assert((-(a as int)) / (b as int) <= -(a as int)) by (nonlinear_arith)
            requires -(a as int) > 0, b > 0;
        -((-a) / b)
    }
}

pub(crate) fn clamp_to_i64(x: i128) -> (r: i64)
    ensures
        r == clamp_i64(x as int),
{
    if x > i64::MAX as i128 {
        i64::MAX
    } else if x < i64::MIN as i128 {
        i64::MIN
    } else {
        x as i64
    }
}

/// Average stake per trade.
pub fn average_bet(orders: &Vec<Order>, total: u32) -> (r: i64)
    requires
        orders@.len() <= LEDGER_CAP,
    ensures
        r == avg_bet_of(orders@, total as nat),
{
    if total == 0 {
        return 0;
    }
    let mut acc: i128 = 0;
    let mut i: usize = 0;
    while i < orders.len()
        invariant
            i <= orders@.len() <= LEDGER_CAP,
            acc == resolved_stake(orders@.take(i as int)),
            -(i as int) * 0x8000_0000_0000_0000 <= acc <= (i as int) * 0x8000_0000_0000_0000,
        decreases orders@.len() - i,
    {
        assert(orders@.take(i + 1).drop_last() =~= orders@.take(i as int));
        if orders[i].status == OrderStatus::Resolved {
            acc = acc + orders[i].size as i128;
        }
        i = i + 1;
    }
    assert(orders@.take(i as int) =~= orders@);
    clamp_to_i64(tdiv_exec(acc, total as i128))
}

/// Integer square root of `v`.
pub fn isqrt(v: u128) -> (r: u64)
    requires
        v < 0x100_0000_0000_0000_0000_0000_0000_0000u128,
    ensures
        is_isqrt(r as int, v as int),
{
    let mut lo: u64 = 0;
    let mut hi: u64 = 0x2000_0000_0000_0000;
    assert(0x2000_0000_0000_0000int * 0x2000_0000_0000_0000int
        == 0x400_0000_0000_0000_0000_0000_0000_0000int);
    while hi - lo > 1
        invariant
            lo < hi <= 0x2000_0000_0000_0000,
            lo as int * lo as int <= v,
            v < hi as int * hi as int,
        decreases hi - lo,
    {
        let mid: u64 = lo + (hi - lo) / 2;
        assert(mid as int * mid as int <= 0x2000_0000_0000_0000int * 0x2000_0000_0000_0000int)
            by (nonlinear_arith)
            requires 0 <= mid <= 0x2000_0000_0000_0000int;
        if (mid as u128) * (mid as u128) <= v {
            lo = mid;
        } else {
            hi = mid;
        }
    }
    assert(hi == lo + 1);
    lo
}

/// Every realised result in `s` lies within `[-MAX_PNL, MAX_PNL]`.
pub open spec fn results_bounded(s: Seq<Order>) -> bool {
    forall|i: int|
        0 <= i < s.len() ==> (#[trigger] s[i].pnl matches Some(p) ==> -MAX_PNL <= p <= MAX_PNL)
}

/// Sharpe approximation, in thousandths, over the realised results of the
/// ledger: `mean / sd * sqrt(252)` with the population standard deviation
/// `sd`; 0 when there are no results or they do not vary. Mean, variance and
/// deviation are rounded to integers of micro-units; this is a rough figure
/// for an operator, not a risk measure.
pub fn sharpe_ratio(orders: &Vec<Order>) -> (r: i64)
    requires
        orders@.len() <= LEDGER_CAP,
        results_bounded(orders@),
    ensures
        realized(orders@).len() == 0 ==> r == 0,
        realized(orders@).len() > 0 ==> exists|sd: int|
            is_isqrt(sd, variance(realized(orders@))) && r == sharpe_from(
                mean(realized(orders@)),
                sd,
            ),
{
    let mut acc: i128 = 0;
    let mut cnt: u64 = 0;
    let mut i: usize = 0;
    while i < orders.len()
        invariant
            i <= orders@.len() <= LEDGER_CAP,
            results_bounded(orders@),
            acc == sum(realized(orders@.take(i as int))),
            cnt == realized(orders@.take(i as int)).len(),
            cnt <= i,
            -(cnt as int) * MAX_PNL <= acc <= (cnt as int) * MAX_PNL,
        decreases orders@.len() - i,
    {
        assert(orders@.take(i + 1).drop_last() =~= orders@.take(i as int));
        assert(orders@.take(i + 1).last() == orders@[i as int]);
        match orders[i].pnl {
            Some(p) => {
                assert(orders@[i as int].pnl matches Some(q) ==> -MAX_PNL <= q <= MAX_PNL);
                let ghost pre = realized(orders@.take(i as int));
                assert(realized(orders@.take(i + 1)) == pre.push(p as int));
                assert(pre.push(p as int).drop_last() =~= pre);
                acc = acc + p as i128;
                cnt = cnt + 1;
            },
            None => {
                assert(realized(orders@.take(i + 1)) == realized(orders@.take(i as int)));
            },
        }
        i = i + 1;
    }
    assert(orders@.take(i as int) =~= orders@);
    if cnt == 0 {
        return 0;
    }
    let ghost vals = realized(orders@);
    let m: i128 = tdiv_exec(acc, cnt as i128);
    assert(-MAX_PNL <= m <= MAX_PNL) by (nonlinear_arith)
        requires
            -(cnt as int) * MAX_PNL <= acc <= (cnt as int) * MAX_PNL,
            cnt > 0,
            m == tdiv(acc as int, cnt as int),
    {
        if acc >= 0 {
            assert((acc as int) / (cnt as int) <= MAX_PNL) by (nonlinear_arith)
                requires 0 <= acc <= (cnt as int) * MAX_PNL, cnt > 0;
        } else {
            assert((-(acc as int)) / (cnt as int) <= MAX_PNL) by (nonlinear_arith)
                requires 0 < -(acc as int) <= (cnt as int) * MAX_PNL, cnt > 0;
        }
    }
    let mut sq: u128 = 0;
    let mut k: u64 = 0;
    i = 0;
    while i < orders.len()
        invariant
            i <= orders@.len() <= LEDGER_CAP,
            results_bounded(orders@),
            -MAX_PNL <= m <= MAX_PNL,
            sq == sq_dev_sum(realized(orders@.take(i as int)), m as int),
            k == realized(orders@.take(i as int)).len(),
            k <= i,
            sq <= (k as int) * 0x4_0000_0000_0000_0000_0000_0000_0000int,
        decreases orders@.len() - i,
    {
        assert(orders@.take(i + 1).drop_last() =~= orders@.take(i as int));
        assert(orders@.take(i + 1).last() == orders@[i as int]);
        match orders[i].pnl {
            Some(p) => {
                assert(orders@[i as int].pnl matches Some(q) ==> -MAX_PNL <= q <= MAX_PNL);
                let d: i128 = p as i128 - m;
                let ad: u128 = if d < 0 { (-d) as u128 } else { d as u128 };
                assert(ad * ad <= 0x4_0000_0000_0000_0000_0000_0000_0000int) by (nonlinear_arith)
                    requires ad <= 0x200_0000_0000_0000int;
                assert((ad * ad) as int == (p - m) * (p - m)) by (nonlinear_arith)
                    requires ad == d || ad == -d, d == p - m;
                let ghost pre = realized(orders@.take(i as int));
                assert(realized(orders@.take(i + 1)) == pre.push(p as int));
                assert(pre.push(p as int).drop_last() =~= pre);
                sq = sq + ad * ad;
                k = k + 1;
            },
            None => {
                assert(realized(orders@.take(i + 1)) == realized(orders@.take(i as int)));
            },
        }
        i = i + 1;
    }
    assert(orders@.take(i as int) =~= orders@);
    let var: u128 = sq / cnt as u128;
    assert(var <= sq) by (nonlinear_arith) requires var == (sq as int) / (cnt as int), cnt > 0;
    let sd: u64 = isqrt(var);
    assert(m == mean(vals));
    assert(var == variance(vals));
    assert(is_isqrt(sd as int, variance(vals)));
    if sd == 0 {
        0
    } else {
        let scaled: i128 = m * SQRT_252_MILLI as i128;
        assert(-MAX_PNL * 15875 <= scaled <= MAX_PNL * 15875) by (nonlinear_arith)
            requires -MAX_PNL <= m <= MAX_PNL, scaled == m * 15875;
        clamp_to_i64(tdiv_exec(scaled, sd as i128))
    }
}

/// Days of predictor cost that `balance` covers.
pub fn runway_days(balance: i64, daily_cost: i64) -> (r: u32)
    ensures
        r == runway_of(balance as int, daily_cost as int),
{
    if daily_cost <= 0 {
        RUNWAY_UNBOUNDED
    } else if balance <= 0 {
        0
    } else {
        let q: i64 = balance / daily_cost;
        if q > u32::MAX as i64 {
            u32::MAX
        } else {
            q as u32
        }
    }
}

/// Text of a total result, see [`pnl_label_text`].
pub fn pnl_label(total_pnl: i64) -> (r: String)
    ensures
        r@ == pnl_label_text(total_pnl as int),
{
    let mut s = if total_pnl >= 0 { String::from_str("+") } else { String::new() };
    s.append("$");
    push_fixed(&mut s, total_pnl, 1000 * UNIT as u64, 1);
    s.append("k");
    proof {
        if total_pnl < 0 {
            assert(""@ =~= Seq::<char>::empty()) by { reveal_strlit(""); }
        }
    }
    assert(s@ =~= pnl_label_text(total_pnl as int));
    s
}

/// Giving one open order a result adds one realised result.
pub proof fn lemma_realized_update(s: Seq<Order>, i: int, o: Order)
    requires
        0 <= i < s.len(),
        s[i].pnl is None,
        o.pnl is Some,
    ensures
        realized(s.update(i, o)).len() == realized(s).len() + 1,
    decreases s.len(),
{
    if i == s.len() - 1 {
        assert(s.update(i, o).drop_last() =~= s.drop_last());
    } else {
        lemma_realized_update(s.drop_last(), i, o);
        assert(s.update(i, o).drop_last() =~= s.drop_last().update(i, o));
        assert(s.update(i, o).last() == s.last());
    }
}

/// Dropping the oldest orders drops realised results, never adds any.
pub proof fn lemma_realized_suffix(s: Seq<Order>, k: int)
    requires
        0 <= k <= s.len(),
    ensures
        realized(s.subrange(k, s.len() as int)).len() <= realized(s).len(),
    decreases s.len(),
{
    if k < s.len() {
        lemma_realized_suffix(s.drop_last(), k);
        assert(s.subrange(k, s.len() as int).drop_last() =~= s.drop_last().subrange(
            k,
            s.len() - 1,
        ));
        assert(s.subrange(k, s.len() as int).last() == s.last());
    } else {
        assert(s.subrange(k, s.len() as int) =~= Seq::<Order>::empty());
    }
}

} // verus!
