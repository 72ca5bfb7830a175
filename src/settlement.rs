//! Simulated settlement of filled orders: the outcome draw and the payout rules.
use vstd::prelude::*;
use crate::models::PPM;

verus! {

/// An outcome draw above this many thousandths is a win (about 65% of draws).
pub const WIN_THRESHOLD: u64 = 350;

/// Percentage of the fair-odds payout that a winning order realises.
pub const WIN_SHARE_PCT: i64 = 30;

/// Percentage of the stake that a losing order gives up.
pub const LOSS_SHARE_PCT: i64 = 70;

/// Largest magnitude of a single realised result, in micro-units.
pub const MAX_PNL: i64 = 72057594037927936;

/// The next outcome draw, in thousandths, after draw state `r`.
pub open spec fn next_draw(r: nat) -> nat {
    (r * 11 / 10 + 300) % 1000
}

/// The draw state that a cycle starts from.
pub open spec fn first_draw(cycle: nat) -> nat {
    (cycle % 1000) * 1000
}

/// Whether a draw is a win.
pub open spec fn draw_wins(r: nat) -> bool {
    r > WIN_THRESHOLD
}

/// `x` limited to `[-MAX_PNL, MAX_PNL]`.
pub open spec fn clamp_pnl(x: int) -> int {
    if x > MAX_PNL {
        MAX_PNL as int
    } else if x < -MAX_PNL {
        -MAX_PNL
    } else {
        x
    }
}

/// Result of a winning order of stake `size` bought at `price`: the share
/// `WIN_SHARE_PCT` of the fair-odds payout `size * (1 / price - 1)`, each
/// division rounded toward zero; nothing when the price is not positive.
pub open spec fn win_pnl(size: nat, price: int) -> int {
    if price <= 0 {
        0
    } else if price <= PPM {
        clamp_pnl(((size * ((PPM - price) as nat) / (price as nat)) * 30 / 100) as int)
    } else {
        clamp_pnl(-((size * ((price - PPM) as nat) / (price as nat)) * 30 / 100))
    }
}

/// Result of a losing order of stake `size`: the share `LOSS_SHARE_PCT` of it, lost.
pub open spec fn loss_pnl(size: nat) -> int {
    clamp_pnl(-(size * 70 / 100))
}

/// Advances the draw state.
pub fn advance_draw(r: u64) -> (n: u64)
    requires
        r < 1_000_000,
    ensures
        n == next_draw(r as nat),
        n < 1000,
{
    (r * 11 / 10 + 300) % 1000
}

/// The draw state a cycle starts from.
pub fn start_draw(cycle: u32) -> (r: u64)
    ensures
        r == first_draw(cycle as nat),
        r < 1_000_000,
{
    (cycle as u64 % 1000) * 1000
}

fn clamp_to_pnl(x: i128) -> (r: i64)
    ensures
        r == clamp_pnl(x as int),
{
    if x > MAX_PNL as i128 {
        MAX_PNL
    } else if x < -(MAX_PNL as i128) {
        -MAX_PNL
    } else {
        x as i64
    }
}

/// Realised result of an order of stake `size` bought at `price`.
pub fn settle_pnl(size: i64, price: i64, won: bool) -> (r: i64)
    requires
        size >= 0,
    ensures
        r == if won { win_pnl(size as nat, price as int) } else { loss_pnl(size as nat) },
        -MAX_PNL <= r <= MAX_PNL,
{
    let s: u128 = size as u128;
    if won {
        if price <= 0 {
            0
        } else if price <= PPM {
            let d: u128 = (PPM - price) as u128;
            assert(s * d <= 0x8000_0000_0000_0000u128 * 0x10_0000u128) by (nonlinear_arith)
                requires s < 0x8000_0000_0000_0000u128, d <= 0x10_0000u128;
            let p: u128 = price as u128;
            let sd: u128 = s * d;
            let g: u128 = sd / p;
            assert(g <= sd) by (nonlinear_arith)
                requires g == sd / p, p >= 1;
            clamp_to_pnl((g * 30 / 100) as i128)
        } else {
            let d: u128 = (price as u128) - (PPM as u128);
            assert(s * d <= 0x8000_0000_0000_0000u128 * 0x8000_0000_0000_0000u128)
                by (nonlinear_arith)
                requires s < 0x8000_0000_0000_0000u128, d < 0x8000_0000_0000_0000u128;
            let p: u128 = price as u128;
            let sd: u128 = s * d;
            let g: u128 = sd / p;
            assert(g <= s) by (nonlinear_arith)
                requires g == sd / p, sd == s * d, d < p, p >= 1;
            clamp_to_pnl(-((g * 30 / 100) as i128))
        }
    } else {
        clamp_to_pnl(-((s * 70 / 100) as i128))
    }
}

} // verus!
