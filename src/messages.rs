//! The text of the engine's log lines.
use vstd::prelude::*;
use crate::models::{PPM, UNIT};
use crate::text::{clock, dec, fixed, push_clock, push_dec, push_fixed};

verus! {

/// Characters of a market question that a log line shows.
pub const QUESTION_SHOWN: usize = 40;

/// `s` cut to its first `max` characters, with `...` appended when it was longer.
pub open spec fn truncated(s: Seq<char>, max: nat) -> Seq<char> {
    if s.len() <= max {
        s
    } else {
        s.subrange(0, max as int) + "..."@
    }
}

/// Cuts `s` to its first `max_len` characters, marking a cut with `...`.
pub fn truncate_str(s: &str, max_len: usize) -> (r: String)
    ensures
        r@ == truncated(s@, max_len as nat),
{
    let n: usize = s.unicode_len();
    if n <= max_len {
        String::from_str(s)
    } else {
        let head = String::from_str(s.substring_char(0, max_len));
        head.concat("...")
    }
}

/// Timestamp of a log line written at `now`.
pub open spec fn stamp(now: nat) -> Seq<char> {
    "["@ + clock(now) + "]"@
}

pub open spec fn started_text() -> Seq<char> {
    "🟢 Bot started - Survival Mode active"@
}

pub open spec fn stopped_text() -> Seq<char> {
    "🔴 Bot stopped"@
}

pub open spec fn configured_text() -> Seq<char> {
    "Configuration updated successfully"@
}

pub open spec fn scan_text(cycle: nat) -> Seq<char> {
    "Scanning markets... Cycle #"@ + dec(cycle)
}

pub open spec fn found_text(n: nat) -> Seq<char> {
    "Processing "@ + dec(n) + " markets..."@
}

pub open spec fn fetch_error_text(e: Seq<char>) -> Seq<char> {
    "Error fetching markets: "@ + e
}

pub open spec fn edge_text(question: Seq<char>, stake: int, edge: int, fair: int) -> Seq<char> {
    "Edge: \""@ + truncated(question, QUESTION_SHOWN as nat) + "\" > $"@ + fixed(
        stake,
        UNIT as nat,
        0,
    ) + " @ "@ + fixed(edge, PPM as nat, 2) + " (fair "@ + fixed(fair, PPM as nat, 2) + ")"@
}

pub open spec fn order_text(size: int, question: Seq<char>) -> Seq<char> {
    "ORDER $"@ + fixed(size, UNIT as nat, 2) + " → \""@ + truncated(question, QUESTION_SHOWN as nat)
        + "\""@
}

pub open spec fn inference_text() -> Seq<char> {
    "Inference: -$0.002"@
}

pub open spec fn resolved_text(pnl: int) -> Seq<char> {
    "RESOLVED "@ + (if pnl >= 0 { "+"@ } else { ""@ }) + "$"@ + fixed(pnl, UNIT as nat, 2)
}

pub open spec fn hour_label(n: nat) -> Seq<char> {
    dec(n) + "h"@
}

pub fn stamp_line(now: u64) -> (r: String)
    ensures
        r@ == stamp(now as nat),
{
    let mut s = String::from_str("[");
    push_clock(&mut s, now);
    s.append("]");
    s
}

pub fn clock_line(now: u64) -> (r: String)
    ensures
        r@ == clock(now as nat),
{
    let mut s = String::new();
    push_clock(&mut s, now);
    assert(s@ =~= clock(now as nat));
    s
}

pub fn scan_line(cycle: u32) -> (r: String)
    ensures
        r@ == scan_text(cycle as nat),
{
    let mut s = String::from_str("Scanning markets... Cycle #");
    push_dec(&mut s, cycle as u64);
    s
}

pub fn found_line(n: usize) -> (r: String)
    ensures
        r@ == found_text(n as nat),
{
    let mut s = String::from_str("Processing ");
    push_dec(&mut s, n as u64);
    s.append(" markets...");
    s
}

pub fn fetch_error_line(e: &String) -> (r: String)
    ensures
        r@ == fetch_error_text(e@),
{
    let s = String::from_str("Error fetching markets: ");
    s.concat(e.as_str())
}

pub fn edge_line(question: &String, stake: i64, edge: i64, fair: i64) -> (r: String)
    ensures
        r@ == edge_text(question@, stake as int, edge as int, fair as int),
{
    let mut s = String::from_str("Edge: \"");
    let q = truncate_str(question.as_str(), QUESTION_SHOWN);
    s.append(q.as_str());
    s.append("\" > $");
    push_fixed(&mut s, stake, UNIT as u64, 0);
    s.append(" @ ");
    push_fixed(&mut s, edge, PPM as u64, 2);
    s.append(" (fair ");
    push_fixed(&mut s, fair, PPM as u64, 2);
    s.append(")");
    s
}

pub fn order_line(size: i64, question: &String) -> (r: String)
    ensures
        r@ == order_text(size as int, question@),
{
    let mut s = String::from_str("ORDER $");
    push_fixed(&mut s, size, UNIT as u64, 2);
    s.append(" → \"");
    let q = truncate_str(question.as_str(), QUESTION_SHOWN);
    s.append(q.as_str());
    s.append("\"");
    s
}

pub fn resolved_line(pnl: i64) -> (r: String)
    ensures
        r@ == resolved_text(pnl as int),
{
    let mut s = String::from_str("RESOLVED ");
    if pnl >= 0 {
        s.append("+");
    } else {
        s.append("");
    }
    s.append("$");
    push_fixed(&mut s, pnl, UNIT as u64, 2);
    s
}

pub fn hour_label_line(n: usize) -> (r: String)
    ensures
        r@ == hour_label(n as nat),
{
    let mut s = String::new();
    push_dec(&mut s, n as u64);
    s.append("h");
    assert(s@ =~= hour_label(n as nat));
    s
}

} // verus!
