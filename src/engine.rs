//! The engine: lifecycle, the per-cycle pipeline, the order ledger and the
//! activity log, all held in one aggregate.
use vstd::prelude::*;
use crate::bounded_log::{append_all, keep_last, push_bounded};
use crate::messages::{
    clock_line, configured_text, edge_line, edge_text, fetch_error_line, fetch_error_text,
    found_line, found_text, hour_label, hour_label_line, inference_text, order_line, order_text,
    resolved_line, resolved_text, scan_line, scan_text, stamp, stamp_line, started_text,
    stopped_text,
};
use crate::models::{
    AIPrediction, ActivityEntry, ActivityType, BalancePoint, BotConfig, BotStats, EntryView,
    Market, Order, OrderSide, OrderStatus, PPM, UNIT, entry_views,
};
use crate::settlement::{
    MAX_PNL, WIN_THRESHOLD, advance_draw, draw_wins, first_draw, loss_pnl, next_draw, settle_pnl, start_draw,
    win_pnl,
};
use crate::stats::{
    LEDGER_CAP, average_bet, clamp_to_i64, avg_bet_of, clamp_i64, is_isqrt, mean, pnl_label, pnl_label_text,
    realized, results_bounded, runway_days, runway_of, sharpe_from, sharpe_ratio, tdiv, variance,
    win_rate, win_rate_of,
};
use crate::text::{clock, duration, push_duration};

verus! {

/// Log lines kept at most.
pub const LOG_CAP: usize = 500;

/// Markets requested from the market data provider per cycle.
pub const MARKET_PAGE: u32 = 100;

/// Markets handed to the predictor per cycle, from the front of the page.
pub const ANALYZED_PER_CYCLE: usize = 10;

/// Relies on std::time::SystemTime::now and SystemTime::duration_since from
/// the Unix epoch: whole seconds since the epoch as the system clock reads
/// them, 0 when the clock reads a time before it. Nothing more is promised.
#[verifier::external_body]
fn system_seconds() -> (r: u64) {
    match std::time::SystemTime::now().duration_since(std::time::UNIX_EPOCH) {
        Ok(d) => d.as_secs(),
        Err(_) => 0,
    }
}

/// Relies on uuid::Uuid::new_v4 and its `Display`: a fresh random identifier.
#[verifier::external_body]
fn fresh_order_id() -> (r: String) {
    uuid::Uuid::new_v4().to_string()
}

/// Stake suggested by a fraction `rec` of `balance`.
fn stake(rec: i64, balance: i64) -> (r: i64)
    ensures
        r == stake_of(rec as int, balance as int),
{
    let a: i128 = rec as i128;
    let b: i128 = balance as i128;
    assert(-0x4000_0000_0000_0000_0000_0000_0000_0000int <= a * b
        <= 0x4000_0000_0000_0000_0000_0000_0000_0000int) by (nonlinear_arith)
        requires
            -0x8000_0000_0000_0000int <= a <= 0x8000_0000_0000_0000int,
            -0x8000_0000_0000_0000int <= b <= 0x8000_0000_0000_0000int,
    ;
    let prod: i128 = a * b;
    let q: i128 = if prod >= 0 { prod / PPM as i128 } else { -((-prod) / PPM as i128) };
    clamp_to_i64(q)
}

fn copy_stats(s: &BotStats) -> (r: BotStats)
    ensures
        r == *s,
{
    BotStats {
        current_balance: s.current_balance,
        initial_balance: s.initial_balance,
        total_pnl: s.total_pnl,
        total_pnl_pct: s.total_pnl_pct.clone(),
        api_costs: s.api_costs,
        win_rate: s.win_rate,
        wins: s.wins,
        losses: s.losses,
        total_trades: s.total_trades,
        markets_scanned: s.markets_scanned,
        avg_bet: s.avg_bet,
        best_trade: s.best_trade,
        worst_trade: s.worst_trade,
        sharpe_ratio: s.sharpe_ratio,
        avg_edge: s.avg_edge,
        daily_api_cost: s.daily_api_cost,
        runway_days: s.runway_days,
        uptime: s.uptime.clone(),
        cycle: s.cycle,
        pid: s.pid,
    }
}

/// Seconds since the Unix epoch now, as the system clock reads them; 0 for
/// a clock set before the epoch.
pub fn now_seconds() -> (r: u64) {
    system_seconds()
}

/// What a predictor returned for one market, with its cumulative cost after the call.
pub struct Assessment {
    pub prediction: AIPrediction,
    /// Cumulative predictor cost, in micro-units.
    pub api_costs: i64,
}

/// A log line as its kind and message.
pub open spec fn line_of(e: ActivityEntry) -> (ActivityType, Seq<char>) {
    (e.entry_type, e.message@)
}

/// The kinds and messages of a sequence of log lines.
pub open spec fn lines_of(s: Seq<ActivityEntry>) -> Seq<(ActivityType, Seq<char>)> {
    s.map_values(|e: ActivityEntry| line_of(e))
}

/// Every line of `s` is stamped with `now`.
pub open spec fn stamped(s: Seq<ActivityEntry>, now: nat) -> bool {
    forall|i: int| 0 <= i < s.len() ==> (#[trigger] s[i]).timestamp@ == stamp(now)
}

/// The view of a log line written at `now`.
pub open spec fn entry_at(t: ActivityType, msg: Seq<char>, now: nat) -> EntryView {
    EntryView { timestamp: stamp(now), message: msg, entry_type: t }
}

/// The elapsed time since `start`, as shown; zero when `now` precedes it.
pub open spec fn uptime_text(start: nat, now: nat) -> Seq<char> {
    duration(if now >= start { (now - start) as nat } else { 0 })
}

/// What settlement reads of an order: its status, stake and price.
pub open spec fn key_of(o: Order) -> (OrderStatus, int, int) {
    (o.status, o.size as int, o.price as int)
}

pub open spec fn keys_of(s: Seq<Order>) -> Seq<(OrderStatus, int, int)> {
    s.map_values(|o: Order| key_of(o))
}

/// Draw state before settling the order at index `i`; each filled order
/// before it advances the draw once.
pub open spec fn draw_before(ks: Seq<(OrderStatus, int, int)>, i: int, r0: nat) -> nat
    decreases i,
{
    if i <= 0 {
        r0
    } else {
        let r = draw_before(ks, i - 1, r0);
        if ks[i - 1].0 == OrderStatus::Filled {
            next_draw(r)
        } else {
            r
        }
    }
}

/// Result realised by the filled order at index `i`.
pub open spec fn settled_pnl(ks: Seq<(OrderStatus, int, int)>, i: int, r0: nat) -> int {
    let r = next_draw(draw_before(ks, i, r0));
    if draw_wins(r) {
        win_pnl(ks[i].1 as nat, ks[i].2)
    } else {
        loss_pnl(ks[i].1 as nat)
    }
}

/// Balance and trade counters that settlement moves.
pub struct Tally {
    pub balance: int,
    pub wins: int,
    pub losses: int,
    pub best: int,
    pub worst: int,
}

/// The tally after one more settled trade: a positive result is a win.
pub open spec fn tally_step(t: Tally, pnl: int) -> Tally {
    Tally {
        balance: clamp_i64(t.balance + pnl),
        wins: if pnl > 0 { t.wins + 1 } else { t.wins },
        losses: if pnl > 0 { t.losses } else { t.losses + 1 },
        best: if pnl > 0 && pnl > t.best { pnl } else { t.best },
        worst: if pnl <= 0 && pnl < t.worst { pnl } else { t.worst },
    }
}

/// The tally after settling the filled orders among the first `n`.
pub open spec fn tally_upto(ks: Seq<(OrderStatus, int, int)>, n: int, r0: nat, t0: Tally) -> Tally
    decreases n,
{
    if n <= 0 {
        t0
    } else {
        let t = tally_upto(ks, n - 1, r0, t0);
        if ks[n - 1].0 == OrderStatus::Filled {
            tally_step(t, settled_pnl(ks, n - 1, r0))
        } else {
            t
        }
    }
}

/// The log line of a settled trade.
pub open spec fn settle_line(pnl: int) -> (ActivityType, Seq<char>) {
    (if pnl >= 0 { ActivityType::Resolved } else { ActivityType::Warning }, resolved_text(pnl))
}

/// The log lines of settling the filled orders among the first `n`.
pub open spec fn settle_lines(ks: Seq<(OrderStatus, int, int)>, n: int, r0: nat) -> Seq<
    (ActivityType, Seq<char>),
>
    decreases n,
{
    if n <= 0 {
        Seq::empty()
    } else if ks[n - 1].0 == OrderStatus::Filled {
        settle_lines(ks, n - 1, r0).push(settle_line(settled_pnl(ks, n - 1, r0)))
    } else {
        settle_lines(ks, n - 1, r0)
    }
}

/// The tally that the stats `s` hold.
pub open spec fn tally_of(s: BotStats) -> Tally {
    Tally {
        balance: s.current_balance as int,
        wins: s.wins as int,
        losses: s.losses as int,
        best: s.best_trade as int,
        worst: s.worst_trade as int,
    }
}

/// `o` is `p` settled at `now` with result `pnl`.
pub open spec fn settled_as(o: Order, p: Order, pnl: int, now: nat) -> bool {
    &&& o.id == p.id
    &&& o.market_id == p.market_id
    &&& o.market_name == p.market_name
    &&& o.side == p.side
    &&& o.outcome == p.outcome
    &&& o.price == p.price
    &&& o.size == p.size
    &&& o.created_at == p.created_at
    &&& o.status == OrderStatus::Resolved
    &&& o.pnl == Some(pnl as i64)
    &&& o.resolved_at matches Some(t) && t@ == clock(now)
}

/// `o` is what settlement makes of the order at index `i` of `old`.
pub open spec fn after_settlement(o: Order, old: Seq<Order>, i: int, r0: nat, now: nat) -> bool {
    if old[i].status == OrderStatus::Filled {
        settled_as(o, old[i], settled_pnl(keys_of(old), i, r0), now)
    } else {
        o == old[i]
    }
}

/// The stats fields that settlement leaves alone.
pub open spec fn same_but_tally(a: BotStats, b: BotStats) -> bool {
    &&& a.initial_balance == b.initial_balance
    &&& a.total_pnl == b.total_pnl
    &&& a.total_pnl_pct == b.total_pnl_pct
    &&& a.api_costs == b.api_costs
    &&& a.win_rate == b.win_rate
    &&& a.markets_scanned == b.markets_scanned
    &&& a.avg_bet == b.avg_bet
    &&& a.sharpe_ratio == b.sharpe_ratio
    &&& a.avg_edge == b.avg_edge
    &&& a.daily_api_cost == b.daily_api_cost
    &&& a.runway_days == b.runway_days
    &&& a.uptime == b.uptime
    &&& a.cycle == b.cycle
    &&& a.pid == b.pid
}

/// Stake suggested by a fraction `rec` (parts per million) of `balance`,
/// rounded toward zero.
pub open spec fn stake_of(rec: int, balance: int) -> int {
    clamp_i64(tdiv(rec * balance, PPM as int))
}

/// Size of the order that a prediction asks for: its stake, at most the largest bet.
pub open spec fn order_size_of(cfg: BotConfig, balance: int, p: AIPrediction) -> int {
    let s = stake_of(p.recommended_size as int, balance);
    if s < cfg.max_bet_size {
        s
    } else {
        cfg.max_bet_size as int
    }
}

/// A prediction whose edge reaches the configured threshold.
pub open spec fn flags_edge(cfg: BotConfig, p: AIPrediction) -> bool {
    p.edge >= cfg.min_edge_threshold
}

/// A prediction that opens an order: an edge, a size above one currency unit,
/// and automatic trading switched on.
pub open spec fn opens_order(cfg: BotConfig, balance: int, p: AIPrediction) -> bool {
    flags_edge(cfg, p) && order_size_of(cfg, balance, p) > UNIT && cfg.auto_trading
}

/// The log lines of analysing one market.
pub open spec fn market_lines(
    cfg: BotConfig,
    balance: int,
    m: Market,
    r: Result<Assessment, String>,
) -> Seq<(ActivityType, Seq<char>)> {
    match r {
        Err(_) => seq![(ActivityType::Inference, inference_text())],
        Ok(a) => if !flags_edge(cfg, a.prediction) {
            Seq::empty()
        } else {
            let p = a.prediction;
            seq![(ActivityType::Edge, edge_text(m.question@, stake_of(p.recommended_size as int, balance), p.edge as int, p.fair_price as int))]
                + if opens_order(cfg, balance, p) {
                seq![(ActivityType::Order, order_text(order_size_of(cfg, balance, p), m.question@))]
            } else {
                Seq::empty()
            }
        },
    }
}

/// The log lines of analysing the first `n` markets.
pub open spec fn analysis_lines(
    cfg: BotConfig,
    balance: int,
    ms: Seq<Market>,
    rs: Seq<Result<Assessment, String>>,
    n: int,
) -> Seq<(ActivityType, Seq<char>)>
    decreases n,
{
    if n <= 0 {
        Seq::empty()
    } else {
        analysis_lines(cfg, balance, ms, rs, n - 1) + market_lines(cfg, balance, ms[n - 1], rs[n - 1])
    }
}

/// Status, size and price of the orders opened while analysing the first `n` markets.
pub open spec fn opened_keys(
    cfg: BotConfig,
    balance: int,
    rs: Seq<Result<Assessment, String>>,
    n: int,
) -> Seq<(OrderStatus, int, int)>
    decreases n,
{
    if n <= 0 {
        Seq::empty()
    } else {
        let prev = opened_keys(cfg, balance, rs, n - 1);
        match rs[n - 1] {
            Ok(a) => if opens_order(cfg, balance, a.prediction) {
                prev.push((OrderStatus::Filled, order_size_of(cfg, balance, a.prediction), a.prediction.fair_price as int))
            } else {
                prev
            },
            Err(_) => prev,
        }
    }
}

/// Market id, question and predicted outcome of the orders opened while
/// analysing the first `n` markets.
pub open spec fn opened_info(
    cfg: BotConfig,
    balance: int,
    ms: Seq<Market>,
    rs: Seq<Result<Assessment, String>>,
    n: int,
) -> Seq<(Seq<char>, Seq<char>, Seq<char>)>
    decreases n,
{
    if n <= 0 {
        Seq::empty()
    } else {
        let prev = opened_info(cfg, balance, ms, rs, n - 1);
        match rs[n - 1] {
            Ok(a) => if opens_order(cfg, balance, a.prediction) {
                prev.push((ms[n - 1].id@, ms[n - 1].question@, a.prediction.predicted_outcome@))
            } else {
                prev
            },
            Err(_) => prev,
        }
    }
}

/// Every order opened in a cycle starts out filled.
proof fn lemma_opened_filled(
    cfg: BotConfig,
    balance: int,
    rs: Seq<Result<Assessment, String>>,
    n: int,
)
    ensures
        forall|t: int|
            0 <= t < opened_keys(cfg, balance, rs, n).len() ==> (#[trigger] opened_keys(
                cfg,
                balance,
                rs,
                n,
            )[t]).0 == OrderStatus::Filled,
    decreases n,
{
    if n > 0 {
        lemma_opened_filled(cfg, balance, rs, n - 1);
    }
}

/// No two orders of `s` share an id.
pub open spec fn ids_distinct(s: Seq<Order>) -> bool {
    forall|i: int, j: int|
        0 <= i < s.len() && 0 <= j < s.len() && i != j ==> (#[trigger] s[i]).id@ != (
        #[trigger] s[j]).id@
}

/// `o` is the order `p`, whatever settlement did to its status and result.
pub open spec fn same_identity(o: Order, p: Order) -> bool {
    &&& o.id == p.id
    &&& o.market_id == p.market_id
    &&& o.market_name == p.market_name
    &&& o.side == p.side
    &&& o.outcome == p.outcome
    &&& o.price == p.price
    &&& o.size == p.size
    &&& o.created_at == p.created_at
}

/// `candidate`, or, when an order of `orders` already has that id, the
/// candidate lengthened with `-` until it is longer than every id there.
pub fn unique_id(orders: &Vec<Order>, candidate: String) -> (r: String)
    ensures
        forall|i: int| 0 <= i < orders@.len() ==> (#[trigger] orders@[i]).id@ != r@,
        (forall|i: int| 0 <= i < orders@.len() ==> (#[trigger] orders@[i]).id@ != candidate@)
            ==> r@ == candidate@,
{
    let mut longest: usize = 0;
    let mut clash = false;
    let mut i: usize = 0;
    while i < orders.len()
        invariant
            i <= orders@.len(),
            forall|j: int| 0 <= j < i ==> (#[trigger] orders@[j]).id@.len() <= longest,
            clash == (exists|j: int| 0 <= j < i && (#[trigger] orders@[j]).id@ == candidate@),
        decreases orders@.len() - i,
    {
        let l: usize = orders[i].id.as_str().unicode_len();
        if l > longest {
            longest = l;
        }
        if orders[i].id == candidate {
            clash = true;
        }
        i = i + 1;
    }
    if !clash {
        return candidate;
    }
    let mut r = candidate;
    while r.as_str().unicode_len() <= longest
        invariant
            forall|j: int| 0 <= j < orders@.len() ==> (#[trigger] orders@[j]).id@.len() <= longest,
        decreases longest + 1 - r@.len(),
    {
        proof { reveal_strlit("-"); }
        r.append("-");
    }
    r
}

/// `o` was opened at `now` for the market and outcome `info`.
pub open spec fn opened_as(o: Order, info: (Seq<char>, Seq<char>, Seq<char>), now: nat) -> bool {
    &&& o.market_id@ == info.0
    &&& o.market_name@ == info.1
    &&& o.outcome@ == info.2
    &&& o.side == OrderSide::Buy
    &&& o.created_at@ == clock(now)
}

/// Cumulative predictor cost after the first `n` answers: that of the last
/// successful one, else `c0`.
pub open spec fn cost_after(rs: Seq<Result<Assessment, String>>, n: int, c0: int) -> int
    decreases n,
{
    if n <= 0 {
        c0
    } else {
        match rs[n - 1] {
            Ok(a) => a.api_costs as int,
            Err(_) => cost_after(rs, n - 1, c0),
        }
    }
}

/// Markets analysed in a cycle that fetched `fetched` and got `answered` answers.
pub open spec fn analysed(fetched: nat, answered: nat) -> int {
    let k = if fetched < answered { fetched } else { answered };
    if k < ANALYZED_PER_CYCLE { k as int } else { ANALYZED_PER_CYCLE as int }
}

/// The derived figures that a stats refresh writes, as functions of the ledger and counters.
pub open spec fn derived_ok(s: BotStats, orders: Seq<Order>) -> bool {
    &&& s.total_pnl == clamp_i64(s.current_balance - s.initial_balance)
    &&& s.total_pnl_pct@ == pnl_label_text(s.total_pnl as int)
    &&& s.win_rate == win_rate_of(s.wins as nat, s.total_trades as nat)
    &&& s.avg_bet == avg_bet_of(orders, s.total_trades as nat)
    &&& (realized(orders).len() == 0 ==> s.sharpe_ratio == 0)
    &&& (realized(orders).len() > 0 ==> exists|sd: int|
        is_isqrt(sd, variance(realized(orders))) && s.sharpe_ratio == sharpe_from(
            mean(realized(orders)),
            sd,
        ))
    &&& s.daily_api_cost == s.api_costs
    &&& s.runway_days == runway_of(s.current_balance as int, s.api_costs as int)
}

/// `n + d`, at most `u64::MAX`.
pub open spec fn sat_add(n: nat, d: nat) -> nat {
    if n + d > u64::MAX { u64::MAX as nat } else { n + d }
}

pub struct TradingEngine {
    pub config: BotConfig,
    pub stats: BotStats,
    pub orders: Vec<Order>,
    pub activity_log: Vec<ActivityEntry>,
    pub balance_history: Vec<BalancePoint>,
    pub is_running: bool,
    /// Seconds since the Unix epoch when the engine last went from idle to running.
    pub start_time: Option<u64>,
    /// Whether the market data provider and the predictor have been set up.
    pub clients_ready: bool,
}

impl TradingEngine {
    /// The engine's invariant: capped ledger and log, consistent counters,
    /// and orders whose fields agree with their status.
    pub open spec fn wf(&self) -> bool {
        &&& self.orders@.len() <= LEDGER_CAP
        &&& self.activity_log@.len() <= LOG_CAP
        &&& self.stats.total_trades == self.stats.wins + self.stats.losses
        &&& results_bounded(self.orders@)
        &&& realized(self.orders@).len() <= self.stats.total_trades
        &&& ids_distinct(self.orders@)
        &&& forall|i: int|
            0 <= i < self.orders@.len() ==> {
                &&& (#[trigger] self.orders@[i]).lifecycle_ok()
                &&& self.orders@[i].size >= 0
            }
    }

    /// The trade counters can take one more cycle's settlements.
    pub open spec fn trade_room(&self) -> bool {
        self.stats.total_trades + LEDGER_CAP + ANALYZED_PER_CYCLE <= u32::MAX
    }

    /// Whether the trade counters can take one more cycle's settlements.
    pub fn has_trade_room(&self) -> (r: bool)
        ensures
            r == self.trade_room(),
    {
        self.stats.total_trades <= u32::MAX - (LEDGER_CAP + ANALYZED_PER_CYCLE) as u32
    }

    /// An idle engine with the default configuration, process id `pid`,
    /// created at `now` (seconds since the Unix epoch).
    pub fn new_at(pid: u32, now: u64) -> (r: TradingEngine)
        ensures
            r.wf(),
            !r.is_running,
            !r.clients_ready,
            r.start_time.is_none(),
            r.config.initial_balance == 50 * UNIT,
            r.config.max_bet_size == 200 * UNIT,
            r.config.min_edge_threshold == 300_000,
            !r.config.auto_trading,
            r.config.survival_mode,
            r.stats.current_balance == r.config.initial_balance,
            r.stats.initial_balance == r.config.initial_balance,
            r.stats.total_pnl == 0,
            r.stats.total_pnl_pct@ == "+0%"@,
            r.stats.api_costs == 0,
            r.stats.win_rate == 0,
            r.stats.wins == 0,
            r.stats.losses == 0,
            r.stats.total_trades == 0,
            r.stats.markets_scanned == 0,
            r.stats.avg_bet == 0,
            r.stats.best_trade == 0,
            r.stats.worst_trade == 0,
            r.stats.sharpe_ratio == 0,
            r.stats.avg_edge == 0,
            r.stats.daily_api_cost == 0,
            r.stats.runway_days == 0,
            r.stats.uptime@ == "00:00:00"@,
            r.stats.cycle == 0,
            r.stats.pid == pid,
            r.orders@.len() == 0,
            r.activity_log@.len() == 0,
            r.balance_history@.len() == 1,
            r.balance_history@[0].balance == r.config.initial_balance,
            r.balance_history@[0].timestamp@ == clock(now as nat),
            r.balance_history@[0].label@ == "0h"@,
    {
        let config = BotConfig::default();
        let initial_balance = config.initial_balance;
        let mut balance_history: Vec<BalancePoint> = Vec::new();
        balance_history.push(
            BalancePoint {
                timestamp: clock_line(now),
                balance: initial_balance,
                label: String::from_str("0h"),
            },
        );
        TradingEngine {
            config,
            stats: BotStats {
                current_balance: initial_balance,
                initial_balance,
                total_pnl: 0,
                total_pnl_pct: String::from_str("+0%"),
                api_costs: 0,
                win_rate: 0,
                wins: 0,
                losses: 0,
                total_trades: 0,
                markets_scanned: 0,
                avg_bet: 0,
                best_trade: 0,
                worst_trade: 0,
                sharpe_ratio: 0,
                avg_edge: 0,
                daily_api_cost: 0,
                runway_days: 0,
                uptime: String::from_str("00:00:00"),
                cycle: 0,
                pid,
            },
            orders: Vec::new(),
            activity_log: Vec::new(),
            balance_history,
            is_running: false,
            start_time: None,
            clients_ready: false,
        }
    }

    /// An idle engine with the default configuration, created now.
    pub fn new(pid: u32) -> (r: TradingEngine)
        ensures
            r.wf(),
            !r.is_running,
            !r.clients_ready,
            r.start_time.is_none(),
            r.config.initial_balance == 50 * UNIT,
            r.config.max_bet_size == 200 * UNIT,
            r.config.min_edge_threshold == 300_000,
            !r.config.auto_trading,
            r.config.survival_mode,
            r.stats.current_balance == 50 * UNIT,
            r.stats.initial_balance == 50 * UNIT,
            r.stats.total_pnl == 0,
            r.stats.total_pnl_pct@ == "+0%"@,
            r.stats.api_costs == 0,
            r.stats.win_rate == 0,
            r.stats.wins == 0,
            r.stats.losses == 0,
            r.stats.total_trades == 0,
            r.stats.markets_scanned == 0,
            r.stats.avg_bet == 0,
            r.stats.best_trade == 0,
            r.stats.worst_trade == 0,
            r.stats.sharpe_ratio == 0,
            r.stats.avg_edge == 0,
            r.stats.daily_api_cost == 0,
            r.stats.runway_days == 0,
            r.stats.uptime@ == "00:00:00"@,
            r.stats.cycle == 0,
            r.stats.pid == pid,
            r.orders@.len() == 0,
            r.activity_log@.len() == 0,
            r.balance_history@.len() == 1,
            r.balance_history@[0].balance == 50 * UNIT,
            r.balance_history@[0].label@ == "0h"@,
    {
        TradingEngine::new_at(pid, now_seconds())
    }

    /// Appends a log line written at `now` and returns a copy of it.
    pub fn add_activity_at(&mut self, message: &str, entry_type: ActivityType, now: u64) -> (r:
        ActivityEntry)
        requires
            old(self).activity_log@.len() <= LOG_CAP,
        ensures
            r@ == entry_at(entry_type, message@, now as nat),
            entry_views(final(self).activity_log@) == keep_last(
                entry_views(old(self).activity_log@).push(r@),
                LOG_CAP as nat,
            ),
            lines_of(final(self).activity_log@) == keep_last(
                lines_of(old(self).activity_log@).push((entry_type, message@)),
                LOG_CAP as nat,
            ),
            final(self).activity_log@.len() == if old(self).activity_log@.len() < LOG_CAP {
                old(self).activity_log@.len() + 1int
            } else {
                LOG_CAP as int
            },
            final(self).config == old(self).config,
            final(self).stats == old(self).stats,
            final(self).orders == old(self).orders,
            final(self).balance_history == old(self).balance_history,
            final(self).is_running == old(self).is_running,
            final(self).start_time == old(self).start_time,
            final(self).clients_ready == old(self).clients_ready,
    {
        let stamp = stamp_line(now);
        let entry = ActivityEntry {
            timestamp: stamp.clone(),
            message: String::from_str(message),
            entry_type,
        };
        let copy = ActivityEntry { timestamp: stamp, message: String::from_str(message), entry_type };
        let ghost before = self.activity_log@;
        push_bounded(&mut self.activity_log, entry, LOG_CAP);
        proof {
            let pushed = before.push(entry);
            assert(entry_views(pushed) =~= entry_views(before).push(copy@));
            assert(lines_of(pushed) =~= lines_of(before).push((entry_type, message@)));
            if pushed.len() > LOG_CAP {
                assert(lines_of(keep_last(pushed, LOG_CAP as nat)) =~= keep_last(
                    lines_of(pushed),
                    LOG_CAP as nat,
                ));
                assert(entry_views(keep_last(pushed, LOG_CAP as nat)) =~= keep_last(
                    entry_views(pushed),
                    LOG_CAP as nat,
                ));
            }
        }
        copy
    }

    /// Appends a log line stamped with the current time, dropping the
    /// oldest line when the log is full.
    pub fn add_activity(&mut self, message: &str, entry_type: ActivityType)
        requires
            old(self).activity_log@.len() <= LOG_CAP,
        ensures
            lines_of(final(self).activity_log@) == keep_last(
                lines_of(old(self).activity_log@).push((entry_type, message@)),
                LOG_CAP as nat,
            ),
            final(self).activity_log@.len() == if old(self).activity_log@.len() < LOG_CAP {
                old(self).activity_log@.len() + 1int
            } else {
                LOG_CAP as int
            },
            exists|t: nat| entry_views(final(self).activity_log@) == keep_last(
                entry_views(old(self).activity_log@).push(#[trigger] entry_at(entry_type, message@, t)),
                LOG_CAP as nat,
            ),
            final(self).config == old(self).config,
            final(self).stats == old(self).stats,
            final(self).orders == old(self).orders,
            final(self).balance_history == old(self).balance_history,
            final(self).is_running == old(self).is_running,
            final(self).start_time == old(self).start_time,
            final(self).clients_ready == old(self).clients_ready,
    {
        let now = now_seconds();
        self.add_activity_at(message, entry_type, now);
        assert(entry_views(self.activity_log@) == keep_last(
            entry_views(old(self).activity_log@).push(entry_at(entry_type, message@, now as nat)),
            LOG_CAP as nat,
        ));
    }

    /// Logs a line at `now` and appends a copy of it to `delta`.
    fn emit(&mut self, message: &String, entry_type: ActivityType, now: u64, delta: &mut Vec<
        ActivityEntry,
    >)
        requires
            old(self).activity_log@.len() <= LOG_CAP,
        ensures
            final(delta)@.len() == old(delta)@.len() + 1,
            final(delta)@.drop_last() == old(delta)@,
            final(delta)@.last()@ == entry_at(entry_type, message@, now as nat),
            entry_views(final(self).activity_log@) == keep_last(
                entry_views(old(self).activity_log@).push(final(delta)@.last()@),
                LOG_CAP as nat,
            ),
            final(self).activity_log@.len() <= LOG_CAP,
            final(self).config == old(self).config,
            final(self).stats == old(self).stats,
            final(self).orders == old(self).orders,
            final(self).balance_history == old(self).balance_history,
            final(self).is_running == old(self).is_running,
            final(self).start_time == old(self).start_time,
            final(self).clients_ready == old(self).clients_ready,
    {
        let e = self.add_activity_at(message.as_str(), entry_type, now);
        delta.push(e);
        assert(delta@.drop_last() =~= old(delta)@);
    }

    /// Settles every filled order: draws its outcome, books the result into
    /// the balance and the counters, marks it resolved at `now` and logs it;
    /// then keeps only the newest `LEDGER_CAP` orders.
    fn resolve_pending_orders(&mut self, now: u64, delta: &mut Vec<ActivityEntry>)
        requires
            old(self).orders@.len() <= LEDGER_CAP + ANALYZED_PER_CYCLE,
            old(self).activity_log@.len() <= LOG_CAP,
            old(self).stats.total_trades == old(self).stats.wins + old(self).stats.losses,
            old(self).trade_room(),
            results_bounded(old(self).orders@),
            realized(old(self).orders@).len() <= old(self).stats.total_trades,
            ids_distinct(old(self).orders@),
            forall|i: int|
                0 <= i < old(self).orders@.len() ==> {
                    &&& (#[trigger] old(self).orders@[i]).lifecycle_ok()
                    &&& old(self).orders@[i].size >= 0
                },
        ensures
            ({
                let ks = keys_of(old(self).orders@);
                let r0 = first_draw(old(self).stats.cycle as nat);
                let n = ks.len() as int;
                let t = tally_upto(ks, n, r0, tally_of(old(self).stats));
                let drop = n - keep_last(ks, LEDGER_CAP as nat).len();
                &&& tally_of(final(self).stats) == t
                &&& final(self).stats.total_trades == final(self).stats.wins
                    + final(self).stats.losses
                &&& same_but_tally(final(self).stats, old(self).stats)
                &&& final(self).orders@.len() == n - drop
                &&& forall|j: int|
                    0 <= j < final(self).orders@.len() ==> after_settlement(
                        #[trigger] final(self).orders@[j],
                        old(self).orders@,
                        j + drop,
                        r0,
                        now as nat,
                    )
                &&& lines_of(final(delta)@) == lines_of(old(delta)@) + settle_lines(ks, n, r0)
            }),
            final(delta)@.len() >= old(delta)@.len(),
            final(delta)@.subrange(0, old(delta)@.len() as int) == old(delta)@,
            stamped(old(delta)@, now as nat) ==> stamped(final(delta)@, now as nat),
            entry_views(final(self).activity_log@) == append_all(
                entry_views(old(self).activity_log@),
                entry_views(final(delta)@.subrange(old(delta)@.len() as int, final(delta)@.len() as int)),
                LOG_CAP as nat,
            ),
            final(self).wf(),
            final(self).config == old(self).config,
            final(self).balance_history == old(self).balance_history,
            final(self).is_running == old(self).is_running,
            final(self).start_time == old(self).start_time,
            final(self).clients_ready == old(self).clients_ready,
    {
        let ghost old_orders = self.orders@;
        let ghost ks = keys_of(old_orders);
        let ghost r0 = first_draw(self.stats.cycle as nat);
        let ghost t0 = tally_of(self.stats);
        let ghost stats0 = self.stats;
        let ghost log0 = entry_views(self.activity_log@);
        let ghost delta0 = delta@;
        let ghost d0 = delta@.len() as int;
        let mut r: u64 = start_draw(self.stats.cycle);
        let mut i: usize = 0;
        assert(entry_views(delta@.subrange(d0, delta@.len() as int)) =~= Seq::<EntryView>::empty());
        assert(lines_of(delta@) =~= lines_of(delta0) + settle_lines(ks, 0, r0));
        while i < self.orders.len()
            invariant
                0 <= i <= self.orders@.len(),
                self.orders@.len() == old_orders.len(),
                old_orders.len() <= LEDGER_CAP + ANALYZED_PER_CYCLE,
                ks == keys_of(old_orders),
                r0 == first_draw(stats0.cycle as nat),
                t0 == tally_of(stats0),
                stats0.total_trades == stats0.wins + stats0.losses,
                stats0.total_trades + LEDGER_CAP + ANALYZED_PER_CYCLE <= u32::MAX,
                results_bounded(old_orders),
                forall|j: int|
                    0 <= j < old_orders.len() ==> {
                        &&& (#[trigger] old_orders[j]).lifecycle_ok()
                        &&& old_orders[j].size >= 0
                    },
                r == draw_before(ks, i as int, r0),
                r < 1_000_000,
                tally_of(self.stats) == tally_upto(ks, i as int, r0, t0),
                self.stats.total_trades == self.stats.wins + self.stats.losses,
                self.stats.total_trades <= stats0.total_trades + i,
                realized(self.orders@).len() <= self.stats.total_trades,
                same_but_tally(self.stats, stats0),
                forall|j: int|
                    0 <= j < i ==> after_settlement(
                        #[trigger] self.orders@[j],
                        old_orders,
                        j,
                        r0,
                        now as nat,
                    ),
                forall|j: int| i <= j < old_orders.len() ==> #[trigger] self.orders@[j] == old_orders[j],
                ids_distinct(old_orders),
                forall|j: int| 0 <= j < old_orders.len() ==> (#[trigger] self.orders@[j]).id == old_orders[j].id,
                self.activity_log@.len() <= LOG_CAP,
                0 <= d0 <= delta@.len(),
                delta@.subrange(0, d0) == delta0,
                stamped(delta0, now as nat) ==> stamped(delta@, now as nat),
                lines_of(delta@) == lines_of(delta0) + settle_lines(ks, i as int, r0),
                entry_views(self.activity_log@) == append_all(
                    log0,
                    entry_views(delta@.subrange(d0, delta@.len() as int)),
                    LOG_CAP as nat,
                ),
                self.config == old(self).config,
                self.balance_history == old(self).balance_history,
                self.is_running == old(self).is_running,
                self.start_time == old(self).start_time,
                self.clients_ready == old(self).clients_ready,
            decreases old_orders.len() - i,
        {
            assert(ks[i as int] == key_of(old_orders[i as int]));
            if self.orders[i].status == OrderStatus::Filled {
                r = advance_draw(r);
                let won: bool = r > WIN_THRESHOLD;
                let size: i64 = self.orders[i].size;
                let price: i64 = self.orders[i].price;
                let pnl: i64 = settle_pnl(size, price, won);
                assert(pnl == settled_pnl(ks, i as int, r0));
                let ghost prev = self.orders@;
                self.orders[i].pnl = Some(pnl);
                self.orders[i].status = OrderStatus::Resolved;
                self.orders[i].resolved_at = Some(clock_line(now));
                proof {
                    assert(prev[i as int] == old_orders[i as int]);
                    assert(self.orders@ =~= prev.update(i as int, self.orders@[i as int]));
                    crate::stats::lemma_realized_update(prev, i as int, self.orders@[i as int]);
                }
                self.book_trade(pnl);
                let line = resolved_line(pnl);
                let kind = if pnl >= 0 { ActivityType::Resolved } else { ActivityType::Warning };
                let ghost dprev = delta@;
                self.emit(&line, kind, now, delta);
                proof {
                    assert(delta@.drop_last() == dprev);
                    assert(delta@ =~= dprev.push(delta@.last()));
                    assert(lines_of(delta@) =~= lines_of(dprev).push(settle_line(pnl as int)));
                    assert(delta@.subrange(d0, delta@.len() as int) =~= dprev.subrange(d0, dprev.len() as int).push(delta@.last()));
                    assert(entry_views(delta@.subrange(d0, delta@.len() as int)) =~= entry_views(dprev.subrange(d0, dprev.len() as int)).push(delta@.last()@));
                    crate::bounded_log::lemma_append_all_push(log0, entry_views(dprev.subrange(d0, dprev.len() as int)), delta@.last()@, LOG_CAP as nat);
                    assert(delta@.subrange(0, d0) =~= dprev.subrange(0, d0));
                    if stamped(delta0, now as nat) {
                        assert forall|j: int| 0 <= j < delta@.len() implies (#[trigger] delta@[j]).timestamp@ == stamp(now as nat) by {
                            if j < dprev.len() {
                                assert(delta@[j] == dprev[j]);
                            }
                        }
                    }
                    assert(self.orders@[i as int].lifecycle_ok());
                }
            }
            proof {
                assert forall|j: int| 0 <= j < self.orders@.len() implies
                    (#[trigger] self.orders@[j].pnl matches Some(p) ==> -MAX_PNL <= p <= MAX_PNL) by {
                    if j < i { } else if j > i { assert(self.orders@[j] == old_orders[j]); }
                }
            }
            i = i + 1;
        }
        let len: usize = self.orders.len();
        if len > LEDGER_CAP {
            let ghost whole = self.orders@;
            let tail = self.orders.split_off(len - LEDGER_CAP);
            self.orders = tail;
            proof {
                crate::stats::lemma_realized_suffix(whole, (len - LEDGER_CAP) as int);
            }
        }
        proof {
            let n = ks.len() as int;
            assert(delta@.subrange(0, d0) == delta0);
        }
    }


    /// Recomputes the derived figures from the ledger and the counters.
    pub fn update_stats(&mut self)
        requires
            old(self).orders@.len() <= LEDGER_CAP,
            results_bounded(old(self).orders@),
            old(self).stats.total_trades == old(self).stats.wins + old(self).stats.losses,
        ensures
            derived_ok(final(self).stats, final(self).orders@),
            final(self).stats.current_balance == old(self).stats.current_balance,
            final(self).stats.initial_balance == old(self).stats.initial_balance,
            final(self).stats.api_costs == old(self).stats.api_costs,
            final(self).stats.wins == old(self).stats.wins,
            final(self).stats.losses == old(self).stats.losses,
            final(self).stats.total_trades == old(self).stats.total_trades,
            final(self).stats.markets_scanned == old(self).stats.markets_scanned,
            final(self).stats.best_trade == old(self).stats.best_trade,
            final(self).stats.worst_trade == old(self).stats.worst_trade,
            final(self).stats.avg_edge == old(self).stats.avg_edge,
            final(self).stats.uptime == old(self).stats.uptime,
            final(self).stats.cycle == old(self).stats.cycle,
            final(self).stats.pid == old(self).stats.pid,
            final(self).config == old(self).config,
            final(self).orders == old(self).orders,
            final(self).activity_log == old(self).activity_log,
            final(self).balance_history == old(self).balance_history,
            final(self).is_running == old(self).is_running,
            final(self).start_time == old(self).start_time,
            final(self).clients_ready == old(self).clients_ready,
    {
        let total_pnl = clamp_to_i64(
            self.stats.current_balance as i128 - self.stats.initial_balance as i128,
        );
        self.stats.total_pnl = total_pnl;
        self.stats.total_pnl_pct = pnl_label(total_pnl);
        self.stats.win_rate = win_rate(self.stats.wins, self.stats.total_trades);
        self.stats.avg_bet = average_bet(&self.orders, self.stats.total_trades);
        self.stats.sharpe_ratio = sharpe_ratio(&self.orders);
        self.stats.daily_api_cost = self.stats.api_costs;
        self.stats.runway_days = runway_days(self.stats.current_balance, self.stats.daily_api_cost);
    }

    /// The elapsed running time at `now`, as `HH:MM:SS`; zero when idle.
    pub fn uptime_at(&self, now: u64) -> (r: String)
        ensures
            r@ == match self.start_time {
                Some(s) => if self.is_running { uptime_text(s as nat, now as nat) } else { duration(0) },
                None => duration(0),
            },
    {
        let mut s = String::new();
        let secs: u64 = match self.start_time {
            Some(st) => if self.is_running && now >= st { now - st } else { 0 },
            None => 0,
        };
        push_duration(&mut s, secs);
        assert(s@ =~= duration(secs as nat));
        s
    }

    /// Starts the engine at `now`: from idle it records the start time and
    /// logs it; a running engine is left as it is.
    pub fn start_at(&mut self, now: u64)
        requires
            old(self).wf(),
        ensures
            final(self).wf(),
            old(self).is_running ==> *final(self) == *old(self),
            !old(self).is_running ==> {
                &&& final(self).is_running
                &&& final(self).start_time == Some(now)
                &&& lines_of(final(self).activity_log@) == keep_last(
                    lines_of(old(self).activity_log@).push((ActivityType::Info, started_text())),
                    LOG_CAP as nat,
                )
                &&& entry_views(final(self).activity_log@) == keep_last(
                    entry_views(old(self).activity_log@).push(
                        entry_at(ActivityType::Info, started_text(), now as nat),
                    ),
                    LOG_CAP as nat,
                )
                &&& final(self).config == old(self).config
                &&& final(self).stats == old(self).stats
                &&& final(self).orders == old(self).orders
                &&& final(self).balance_history == old(self).balance_history
                &&& final(self).clients_ready == old(self).clients_ready
            },
    {
        if !self.is_running {
            self.is_running = true;
            self.start_time = Some(now);
            self.add_activity_at("🟢 Bot started - Survival Mode active", ActivityType::Info, now);
        }
    }

    /// Starts the engine now, see [`TradingEngine::start_at`].
    pub fn start(&mut self)
        requires
            old(self).wf(),
        ensures
            final(self).wf(),
            final(self).is_running,
            old(self).is_running ==> *final(self) == *old(self),
            !old(self).is_running ==> {
                &&& final(self).start_time.is_some()
                &&& lines_of(final(self).activity_log@) == keep_last(
                    lines_of(old(self).activity_log@).push((ActivityType::Info, started_text())),
                    LOG_CAP as nat,
                )
                &&& exists|t: nat| entry_views(final(self).activity_log@) == keep_last(
                    entry_views(old(self).activity_log@).push(#[trigger] entry_at(ActivityType::Info, started_text(), t)),
                    LOG_CAP as nat,
                )
                &&& final(self).config == old(self).config
                &&& final(self).stats == old(self).stats
                &&& final(self).orders == old(self).orders
                &&& final(self).balance_history == old(self).balance_history
                &&& final(self).clients_ready == old(self).clients_ready
            },
    {
        let now = now_seconds();
        self.start_at(now);
        assert(old(self).is_running || entry_views(self.activity_log@) == keep_last(
                entry_views(old(self).activity_log@).push(entry_at(ActivityType::Info, started_text(), now as nat)),
                LOG_CAP as nat,
            ));
    }

    /// Stops the engine at `now` and logs it. A cycle already under way is not
    /// interrupted; later ones do nothing.
    pub fn stop_at(&mut self, now: u64)
        requires
            old(self).wf(),
        ensures
            final(self).wf(),
            !final(self).is_running,
            final(self).start_time == old(self).start_time,
            entry_views(final(self).activity_log@) == keep_last(
                entry_views(old(self).activity_log@).push(
                    entry_at(ActivityType::Warning, stopped_text(), now as nat),
                ),
                LOG_CAP as nat,
            ),
            lines_of(final(self).activity_log@) == keep_last(
                lines_of(old(self).activity_log@).push((ActivityType::Warning, stopped_text())),
                LOG_CAP as nat,
            ),
            final(self).config == old(self).config,
            final(self).stats == old(self).stats,
            final(self).orders == old(self).orders,
            final(self).balance_history == old(self).balance_history,
            final(self).clients_ready == old(self).clients_ready,
    {
        self.is_running = false;
        self.add_activity_at("🔴 Bot stopped", ActivityType::Warning, now);
    }

    /// Stops the engine now, see [`TradingEngine::stop_at`].
    pub fn stop(&mut self)
        requires
            old(self).wf(),
        ensures
            final(self).wf(),
            !final(self).is_running,
            final(self).start_time == old(self).start_time,
            lines_of(final(self).activity_log@) == keep_last(
                lines_of(old(self).activity_log@).push((ActivityType::Warning, stopped_text())),
                LOG_CAP as nat,
            ),
            final(self).config == old(self).config,
            exists|t: nat| entry_views(final(self).activity_log@) == keep_last(
                entry_views(old(self).activity_log@).push(#[trigger] entry_at(ActivityType::Warning, stopped_text(), t)),
                LOG_CAP as nat,
            ),
            final(self).stats == old(self).stats,
            final(self).orders == old(self).orders,
            final(self).balance_history == old(self).balance_history,
            final(self).clients_ready == old(self).clients_ready,
    {
        let now = now_seconds();
        self.stop_at(now);
        assert(entry_views(self.activity_log@) == keep_last(
            entry_views(old(self).activity_log@).push(entry_at(ActivityType::Warning, stopped_text(), now as nat)),
            LOG_CAP as nat,
        ));
    }

    /// Replaces the configuration at `now`; the market data provider and the
    /// predictor count as set up from then on. Logs it.
    pub fn configure_at(&mut self, config: BotConfig, now: u64)
        requires
            old(self).wf(),
        ensures
            final(self).wf(),
            final(self).config == config,
            final(self).clients_ready,
            entry_views(final(self).activity_log@) == keep_last(
                entry_views(old(self).activity_log@).push(
                    entry_at(ActivityType::Info, configured_text(), now as nat),
                ),
                LOG_CAP as nat,
            ),
            lines_of(final(self).activity_log@) == keep_last(
                lines_of(old(self).activity_log@).push((ActivityType::Info, configured_text())),
                LOG_CAP as nat,
            ),
            final(self).stats == old(self).stats,
            final(self).orders == old(self).orders,
            final(self).balance_history == old(self).balance_history,
            final(self).is_running == old(self).is_running,
            final(self).start_time == old(self).start_time,
    {
        self.config = config;
        self.clients_ready = true;
        self.add_activity_at("Configuration updated successfully", ActivityType::Info, now);
    }

    /// Replaces the configuration now, see [`TradingEngine::configure_at`].
    pub fn configure(&mut self, config: BotConfig)
        requires
            old(self).wf(),
        ensures
            final(self).wf(),
            final(self).config == config,
            final(self).clients_ready,
            lines_of(final(self).activity_log@) == keep_last(
                lines_of(old(self).activity_log@).push((ActivityType::Info, configured_text())),
                LOG_CAP as nat,
            ),
            exists|t: nat| entry_views(final(self).activity_log@) == keep_last(
                entry_views(old(self).activity_log@).push(#[trigger] entry_at(ActivityType::Info, configured_text(), t)),
                LOG_CAP as nat,
            ),
            final(self).stats == old(self).stats,
            final(self).orders == old(self).orders,
            final(self).balance_history == old(self).balance_history,
            final(self).is_running == old(self).is_running,
            final(self).start_time == old(self).start_time,
    {
        let now = now_seconds();
        self.configure_at(config, now);
        assert(entry_views(self.activity_log@) == keep_last(
            entry_views(old(self).activity_log@).push(entry_at(ActivityType::Info, configured_text(), now as nat)),
            LOG_CAP as nat,
        ));
    }

    /// One cycle at `now`, given what the market data provider returned for
    /// a page of `MARKET_PAGE` markets and, in order, what the predictor
    /// returned for the first of them (at most `ANALYZED_PER_CYCLE` are
    /// used). Returns the log lines written during the call, in order.
    ///
    /// An idle engine changes nothing. A running one counts the cycle and
    /// refreshes its uptime; unless its collaborators are set up it stops
    /// there. A failed fetch is logged and ends the cycle with the ledger and
    /// balance untouched. Otherwise the markets are counted, each answer is
    /// turned into log lines and possibly an order, filled orders are
    /// settled, a balance sample is added and the stats are refreshed.
    #[verifier::rlimit(60)]
    pub fn run_cycle(
        &mut self,
        now: u64,
        fetched: Result<Vec<Market>, String>,
        assessments: Vec<Result<Assessment, String>>,
    ) -> (r: Vec<ActivityEntry>)
        requires
            old(self).wf(),
            old(self).is_running ==> old(self).trade_room(),
        ensures
            final(self).wf(),
            stamped(r@, now as nat),
            entry_views(final(self).activity_log@) == append_all(
                entry_views(old(self).activity_log@),
                entry_views(r@),
                LOG_CAP as nat,
            ),
            !old(self).is_running ==> *final(self) == *old(self) && r@.len() == 0,
            old(self).is_running ==> {
                &&& final(self).is_running
                &&& final(self).config == old(self).config
                &&& final(self).start_time == old(self).start_time
                &&& final(self).clients_ready == old(self).clients_ready
                &&& final(self).stats.cycle == if old(self).stats.cycle < u32::MAX {
                    old(self).stats.cycle + 1
                } else {
                    u32::MAX as int
                }
                &&& final(self).stats.uptime@ == match old(self).start_time {
                    Some(s) => uptime_text(s as nat, now as nat),
                    None => old(self).stats.uptime@,
                }
                &&& final(self).stats.initial_balance == old(self).stats.initial_balance
                &&& final(self).stats.pid == old(self).stats.pid
            },
            old(self).is_running && !old(self).clients_ready ==> {
                &&& r@.len() == 0
                &&& final(self).orders == old(self).orders
                &&& final(self).activity_log == old(self).activity_log
                &&& final(self).balance_history == old(self).balance_history
                &&& final(self).stats.current_balance == old(self).stats.current_balance
                &&& final(self).stats.markets_scanned == old(self).stats.markets_scanned
            },
            old(self).is_running && old(self).clients_ready ==> (match fetched {
                Err(e) => {
                    &&& lines_of(r@) == seq![
                        (ActivityType::Info, scan_text(final(self).stats.cycle as nat)),
                        (ActivityType::Error, fetch_error_text(e@)),
                    ]
                    &&& r@.len() == 2
                    &&& (old(self).activity_log@.len() + 2 <= LOG_CAP ==> entry_views(
                        final(self).activity_log@,
                    ) == entry_views(old(self).activity_log@) + entry_views(r@))
                    &&& final(self).orders == old(self).orders
                    &&& final(self).balance_history == old(self).balance_history
                    &&& final(self).stats.current_balance == old(self).stats.current_balance
                    &&& final(self).stats.wins == old(self).stats.wins
                    &&& final(self).stats.losses == old(self).stats.losses
                    &&& final(self).stats.total_trades == old(self).stats.total_trades
                    &&& final(self).stats.markets_scanned == old(self).stats.markets_scanned
                },
                Ok(ms) => {
                    let cfg = old(self).config;
                    let bal = old(self).stats.current_balance as int;
                    let rs = assessments@;
                    let k = analysed(ms@.len(), rs.len());
                    let ks = keys_of(old(self).orders@) + opened_keys(cfg, bal, rs, k);
                    let r0 = first_draw(final(self).stats.cycle as nat);
                    let drop = ks.len() - keep_last(ks, LEDGER_CAP as nat).len();
                    let t = tally_upto(ks, ks.len() as int, r0, tally_of(old(self).stats));
                    &&& final(self).stats.markets_scanned == sat_add(
                        old(self).stats.markets_scanned as nat,
                        ms@.len(),
                    )
                    &&& lines_of(r@) == seq![
                        (ActivityType::Info, scan_text(final(self).stats.cycle as nat)),
                        (ActivityType::Info, found_text(ms@.len())),
                    ] + analysis_lines(cfg, bal, ms@, rs, k) + settle_lines(ks, ks.len() as int, r0)
                    &&& final(self).stats.api_costs == cost_after(
                        rs,
                        k,
                        old(self).stats.api_costs as int,
                    )
                    &&& tally_of(final(self).stats) == t
                    &&& final(self).orders@.len() == ks.len() - drop
                    &&& forall|j: int|
                        0 <= j < final(self).orders@.len() ==> {
                            let i = j + drop;
                            let o = #[trigger] final(self).orders@[j];
                            &&& o.size == ks[i].1
                            &&& o.price == ks[i].2
                            &&& (ks[i].0 == OrderStatus::Filled ==> o.status == OrderStatus::Resolved
                                && o.pnl == Some(settled_pnl(ks, i, r0) as i64))
                            &&& (ks[i].0 != OrderStatus::Filled && i < old(self).orders@.len()
                                ==> o == old(self).orders@[i])
                            &&& (ks[i].0 == OrderStatus::Filled ==> (o.resolved_at matches Some(
                                ts,
                            ) && ts@ == clock(now as nat)))
                            &&& (i < old(self).orders@.len() ==> same_identity(
                                o,
                                old(self).orders@[i],
                            ))
                            &&& (i >= old(self).orders@.len() ==> forall|q: int|
                                0 <= q < old(self).orders@.len() ==> o.id@ != (
                                #[trigger] old(self).orders@[q]).id@)
                            &&& (i >= old(self).orders@.len() ==> opened_as(
                                o,
                                opened_info(cfg, bal, ms@, rs, k)[i - old(self).orders@.len()],
                                now as nat,
                            ))
                        }
                    &&& final(self).balance_history@.len() == old(self).balance_history@.len() + 1
                    &&& final(self).balance_history@.drop_last() == old(self).balance_history@
                    &&& final(self).balance_history@.last().balance
                        == final(self).stats.current_balance
                    &&& final(self).balance_history@.last().timestamp@ == clock(now as nat)
                    &&& final(self).balance_history@.last().label@ == hour_label(
                        old(self).balance_history@.len(),
                    )
                    &&& derived_ok(final(self).stats, final(self).orders@)
                },
            }),
    {
        let mut delta: Vec<ActivityEntry> = Vec::new();
        if !self.is_running {
            return delta;
        }
        self.stats.cycle = if self.stats.cycle < u32::MAX {
            self.stats.cycle + 1
        } else {
            u32::MAX
        };
        match self.start_time {
            Some(s) => {
                let mut up = String::new();
                push_duration(&mut up, if now >= s { now - s } else { 0 });
                assert(up@ =~= uptime_text(s as nat, now as nat));
                self.stats.uptime = up;
            },
            None => {},
        }
        if !self.clients_ready {
            assert(entry_views(delta@) =~= Seq::<EntryView>::empty());
            return delta;
        }
        let ghost log0 = entry_views(self.activity_log@);
        let line = scan_line(self.stats.cycle);
        self.emit(&line, ActivityType::Info, now, &mut delta);
        proof {
            assert(delta@ =~= seq![delta@.last()]);
            assert(entry_views(delta@) =~= Seq::<EntryView>::empty().push(delta@.last()@));
            crate::bounded_log::lemma_append_all_push(log0, Seq::<EntryView>::empty(), delta@.last()@, LOG_CAP as nat);
            assert(entry_views(Seq::<ActivityEntry>::empty()) =~= Seq::<EntryView>::empty());
        }
        let markets: Vec<Market> = match fetched {
            Err(e) => {
                let line = fetch_error_line(&e);
                let ghost dprev = delta@;
                self.emit(&line, ActivityType::Error, now, &mut delta);
                proof {
                    assert(delta@ =~= dprev.push(delta@.last()));
                    assert(entry_views(delta@) =~= entry_views(dprev).push(delta@.last()@));
                    crate::bounded_log::lemma_append_all_push(log0, entry_views(dprev), delta@.last()@, LOG_CAP as nat);
                    assert(lines_of(delta@) =~= seq![
                        (ActivityType::Info, scan_text(self.stats.cycle as nat)),
                        (ActivityType::Error, fetch_error_text(e@)),
                    ]);
                    assert forall|j: int| 0 <= j < delta@.len() implies (#[trigger] delta@[j]).timestamp@ == stamp(now as nat) by {
                        if j == 0 { assert(delta@[0] == dprev[0]); }
                    }
                    assert(delta@.len() == 2);
                    if log0.len() + 2 <= LOG_CAP {
                        crate::bounded_log::lemma_append_all_room(log0, entry_views(delta@), LOG_CAP as nat);
                    }
                }
                return delta;
            },
            Ok(ms) => ms,
        };
        self.stats.markets_scanned = self.stats.markets_scanned.saturating_add(markets.len() as u64);
        let line = found_line(markets.len());
        let ghost dprev = delta@;
        self.emit(&line, ActivityType::Info, now, &mut delta);
        proof {
            assert(delta@ =~= dprev.push(delta@.last()));
            assert(entry_views(delta@) =~= entry_views(dprev).push(delta@.last()@));
            crate::bounded_log::lemma_append_all_push(log0, entry_views(dprev), delta@.last()@, LOG_CAP as nat);
            assert(lines_of(delta@) =~= seq![
                (ActivityType::Info, scan_text(self.stats.cycle as nat)),
                (ActivityType::Info, found_text(markets@.len())),
            ]);
            assert forall|j: int| 0 <= j < delta@.len() implies (#[trigger] delta@[j]).timestamp@ == stamp(now as nat) by {
                if j == 0 { assert(delta@[0] == dprev[0]); }
            }
        }
        let ghost head = lines_of(delta@);
        let ghost cfg = self.config;
        let ghost stats1 = self.stats;
        let ghost orders0 = self.orders@;
        let ghost rs = assessments@;
        let balance: i64 = self.stats.current_balance;
        let mut k: usize = if markets.len() < assessments.len() { markets.len() } else { assessments.len() };
        if k > ANALYZED_PER_CYCLE {
            k = ANALYZED_PER_CYCLE;
        }
        let mut cost: i64 = self.stats.api_costs;
        let mut i: usize = 0;
        while i < k
            invariant
                0 <= i <= k,
                k == analysed(markets@.len(), rs.len()),
                k <= markets@.len(),
                k <= rs.len(),
                k <= ANALYZED_PER_CYCLE,
                rs == assessments@,
                balance == stats1.current_balance,
                self.config == cfg,
                cfg == old(self).config,
                self.stats == stats1,
                stats1.total_trades == stats1.wins + stats1.losses,
                stats1.total_trades + LEDGER_CAP + ANALYZED_PER_CYCLE <= u32::MAX,
                stats1.current_balance == old(self).stats.current_balance,
                orders0 == old(self).orders@,
                orders0.len() <= LEDGER_CAP,
                cost == cost_after(rs, i as int, stats1.api_costs as int),
                orders0.len() <= self.orders@.len() <= orders0.len() + i,
                realized(self.orders@).len() == realized(orders0).len(),
                ids_distinct(self.orders@),
                self.orders@.len() == orders0.len() + opened_info(cfg, balance as int, markets@, rs, i as int).len(),
                forall|t: int| 0 <= t < self.orders@.len() - orders0.len() ==> opened_as(
                    #[trigger] self.orders@[orders0.len() + t],
                    opened_info(cfg, balance as int, markets@, rs, i as int)[t],
                    now as nat,
                ),
                keys_of(self.orders@) == keys_of(orders0) + opened_keys(cfg, balance as int, rs, i as int),
                forall|j: int| 0 <= j < orders0.len() ==> #[trigger] self.orders@[j] == orders0[j],
                results_bounded(self.orders@),
                forall|j: int|
                    0 <= j < self.orders@.len() ==> {
                        &&& (#[trigger] self.orders@[j]).lifecycle_ok()
                        &&& self.orders@[j].size >= 0
                    },
                self.activity_log@.len() <= LOG_CAP,
                entry_views(self.activity_log@) == append_all(log0, entry_views(delta@), LOG_CAP as nat),
                lines_of(delta@) == head + analysis_lines(cfg, balance as int, markets@, rs, i as int),
                stamped(delta@, now as nat),
                self.balance_history == old(self).balance_history,
                self.is_running == old(self).is_running,
                self.start_time == old(self).start_time,
                self.clients_ready == old(self).clients_ready,
            decreases k - i,
        {
            let ghost d_before = delta@;
            let ghost orders_before = self.orders@;
            match &assessments[i] {
                Ok(a) => {
                    cost = a.api_costs;
                    if a.prediction.edge >= self.config.min_edge_threshold {
                        let st: i64 = stake(a.prediction.recommended_size, balance);
                        let line = edge_line(&markets[i].question, st, a.prediction.edge, a.prediction.fair_price);
                        let ghost dp = delta@;
                        self.emit(&line, ActivityType::Edge, now, &mut delta);
                        proof {
                            assert(delta@ =~= dp.push(delta@.last()));
                            assert(entry_views(delta@) =~= entry_views(dp).push(delta@.last()@));
                            crate::bounded_log::lemma_append_all_push(log0, entry_views(dp), delta@.last()@, LOG_CAP as nat);
                            assert(lines_of(delta@) =~= lines_of(dp).push(line_of(delta@.last())));
                        }
                        let size: i64 = if st < self.config.max_bet_size { st } else { self.config.max_bet_size };
                        if size > UNIT && self.config.auto_trading {
                            let order = Order {
                                id: unique_id(&self.orders, fresh_order_id()),
                                market_id: markets[i].id.clone(),
                                market_name: markets[i].question.clone(),
                                side: OrderSide::Buy,
                                outcome: a.prediction.predicted_outcome.clone(),
                                price: a.prediction.fair_price,
                                size,
                                status: OrderStatus::Filled,
                                created_at: clock_line(now),
                                resolved_at: None,
                                pnl: None,
                            };
                            let line2 = order_line(size, &markets[i].question);
                            let ghost dq = delta@;
                            self.emit(&line2, ActivityType::Order, now, &mut delta);
                            proof {
                                assert(delta@ =~= dq.push(delta@.last()));
                                assert(entry_views(delta@) =~= entry_views(dq).push(delta@.last()@));
                                crate::bounded_log::lemma_append_all_push(log0, entry_views(dq), delta@.last()@, LOG_CAP as nat);
                                assert(lines_of(delta@) =~= lines_of(dq).push(line_of(delta@.last())));
                            }
                            let ghost ob = self.orders@;
                            self.orders.push(order);
                            proof {
                                assert(self.orders@.drop_last() =~= ob);
                                assert(keys_of(self.orders@) =~= keys_of(ob).push(key_of(order)));
                            }
                        }
                    }
                },
                Err(_) => {
                    let line = String::from_str("Inference: -$0.002");
                    let ghost dp = delta@;
                    self.emit(&line, ActivityType::Inference, now, &mut delta);
                    proof {
                        assert(delta@ =~= dp.push(delta@.last()));
                        assert(entry_views(delta@) =~= entry_views(dp).push(delta@.last()@));
                        crate::bounded_log::lemma_append_all_push(log0, entry_views(dp), delta@.last()@, LOG_CAP as nat);
                        assert(lines_of(delta@) =~= lines_of(dp).push(line_of(delta@.last())));
                    }
                },
            }
            proof {
                assert(lines_of(delta@) =~= head + analysis_lines(cfg, balance as int, markets@, rs, i + 1));
                assert forall|j: int| 0 <= j < delta@.len() implies (#[trigger] delta@[j]).timestamp@ == stamp(now as nat) by {
                    if j < d_before.len() {
                        assert(delta@.subrange(0, d_before.len() as int) =~= d_before);
                        assert(delta@[j] == d_before[j]);
                    }
                }
            }
            i = i + 1;
        }
        self.stats.api_costs = cost;
        let ghost dmid = delta@;
        let ghost ks = keys_of(self.orders@);
        let ghost mid_orders = self.orders@;
        self.resolve_pending_orders(now, &mut delta);
        proof {
            let added = delta@.subrange(dmid.len() as int, delta@.len() as int);
            assert(delta@ =~= dmid + added);
            assert(entry_views(delta@) =~= entry_views(dmid) + entry_views(added));
            crate::bounded_log::lemma_append_all_concat(log0, entry_views(dmid), entry_views(added), LOG_CAP as nat);
            assert(lines_of(delta@) =~= lines_of(dmid) + lines_of(added));
        }
        let label = hour_label_line(self.balance_history.len());
        let point = BalancePoint {
            timestamp: clock_line(now),
            balance: self.stats.current_balance,
            label,
        };
        self.balance_history.push(point);
        self.update_stats();
        proof {
            lemma_opened_filled(cfg, balance as int, rs, k as int);
            let ks2 = keys_of(mid_orders);
            let drop = ks2.len() - keep_last(ks2, LEDGER_CAP as nat).len();
            assert forall|j: int| 0 <= j < self.orders@.len() && j + drop >= orders0.len() implies
                opened_as(
                    #[trigger] self.orders@[j],
                    opened_info(cfg, balance as int, markets@, rs, k as int)[j + drop - orders0.len()],
                    now as nat,
                ) by {
                let i = j + drop;
                assert(ks2[i] == key_of(mid_orders[i]));
                assert(ks2[i] == opened_keys(cfg, balance as int, rs, k as int)[i - orders0.len()]);
                assert(opened_as(mid_orders[orders0.len() + (i - orders0.len())], opened_info(cfg, balance as int, markets@, rs, k as int)[i - orders0.len()], now as nat));
            }
            assert forall|j: int| 0 <= j < self.orders@.len() implies {
                let i = j + drop;
                let o = #[trigger] self.orders@[j];
                &&& (ks2[i].0 == OrderStatus::Filled ==> (o.resolved_at matches Some(ts) && ts@ == clock(now as nat)))
                &&& (i < orders0.len() ==> same_identity(o, orders0[i]))
                &&& (i >= orders0.len() ==> forall|q: int| 0 <= q < orders0.len() ==> o.id@ != (#[trigger] orders0[q]).id@)
            } by {
                let i = j + drop;
                assert(ks2[i] == key_of(mid_orders[i]));
                assert(after_settlement(self.orders@[j], mid_orders, i, first_draw(self.stats.cycle as nat), now as nat));
                if i >= orders0.len() {
                    assert forall|q: int| 0 <= q < orders0.len() implies self.orders@[j].id@ != (#[trigger] orders0[q]).id@ by {
                        assert(mid_orders[q] == orders0[q]);
                        assert(mid_orders[i].id@ != mid_orders[q].id@);
                    }
                } else {
                    assert(mid_orders[i] == orders0[i]);
                }
            }
        }
        delta
    }

    /// Books one settled trade's result `pnl`: the balance moves by it
    /// (limited to the range of `i64`), the trade is counted as a win when
    /// `pnl > 0` and as a loss otherwise, and the best and worst trades follow.
    pub fn book_trade(&mut self, pnl: i64)
        requires
            old(self).stats.total_trades < u32::MAX,
            old(self).stats.total_trades == old(self).stats.wins + old(self).stats.losses,
        ensures
            tally_of(final(self).stats) == tally_step(tally_of(old(self).stats), pnl as int),
            final(self).stats.total_trades == old(self).stats.total_trades + 1,
            final(self).stats.total_trades == final(self).stats.wins + final(self).stats.losses,
            same_but_tally(final(self).stats, old(self).stats),
            final(self).config == old(self).config,
            final(self).orders == old(self).orders,
            final(self).activity_log == old(self).activity_log,
            final(self).balance_history == old(self).balance_history,
            final(self).is_running == old(self).is_running,
            final(self).start_time == old(self).start_time,
            final(self).clients_ready == old(self).clients_ready,
    {
        self.stats.current_balance = clamp_to_i64(
            (self.stats.current_balance as i128) + (pnl as i128),
        );
        self.stats.total_trades = self.stats.total_trades + 1;
        if pnl > 0 {
            self.stats.wins = self.stats.wins + 1;
            if pnl > self.stats.best_trade {
                self.stats.best_trade = pnl;
            }
        } else {
            self.stats.losses = self.stats.losses + 1;
            if pnl < self.stats.worst_trade {
                self.stats.worst_trade = pnl;
            }
        }
    }

    /// A copy of the stats.
    pub fn get_stats(&self) -> (r: BotStats)
        ensures
            r == self.stats,
    {
        copy_stats(&self.stats)
    }

    /// A copy of the activity log, oldest line first.
    pub fn get_activity_log(&self) -> (r: Vec<ActivityEntry>)
        ensures
            r@ == self.activity_log@,
    {
        let mut out: Vec<ActivityEntry> = Vec::new();
        let mut i: usize = 0;
        while i < self.activity_log.len()
            invariant
                i <= self.activity_log@.len(),
                out@ == self.activity_log@.take(i as int),
            decreases self.activity_log@.len() - i,
        {
            let e = &self.activity_log[i];
            out.push(ActivityEntry { timestamp: e.timestamp.clone(), message: e.message.clone(), entry_type: e.entry_type });
            assert(out@ =~= self.activity_log@.take(i + 1));
            i = i + 1;
        }
        assert(self.activity_log@.take(i as int) =~= self.activity_log@);
        out
    }

    /// A copy of the balance samples, oldest first.
    pub fn get_balance_history(&self) -> (r: Vec<BalancePoint>)
        ensures
            r@ == self.balance_history@,
    {
        let mut out: Vec<BalancePoint> = Vec::new();
        let mut i: usize = 0;
        while i < self.balance_history.len()
            invariant
                i <= self.balance_history@.len(),
                out@ == self.balance_history@.take(i as int),
            decreases self.balance_history@.len() - i,
        {
            let b = &self.balance_history[i];
            out.push(BalancePoint { timestamp: b.timestamp.clone(), balance: b.balance, label: b.label.clone() });
            assert(out@ =~= self.balance_history@.take(i + 1));
            i = i + 1;
        }
        assert(self.balance_history@.take(i as int) =~= self.balance_history@);
        out
    }
}

/// Every trade is counted once, as a win or as a loss: in any state the
/// engine's operations keep (see [`TradingEngine::wf`], which every
/// operation preserves), `wins + losses == total_trades`.
pub proof fn lemma_trade_counts(e: TradingEngine)
    requires
        e.wf(),
    ensures
        e.stats.wins + e.stats.losses == e.stats.total_trades,
{
}

/// Filled orders among the first `n` of `ks`.
pub open spec fn filled_count(ks: Seq<(OrderStatus, int, int)>, n: int) -> int
    decreases n,
{
    if n <= 0 {
        0
    } else {
        filled_count(ks, n - 1) + if ks[n - 1].0 == OrderStatus::Filled { 1int } else { 0 }
    }
}

/// Settlement counts every filled order exactly once, as a win or as a loss:
/// wins plus losses grow by the number of filled orders settled, whatever
/// the draws.
pub proof fn lemma_settlement_counts(
    ks: Seq<(OrderStatus, int, int)>,
    n: int,
    r0: nat,
    t0: Tally,
)
    requires
        0 <= n <= ks.len(),
    ensures
        tally_upto(ks, n, r0, t0).wins + tally_upto(ks, n, r0, t0).losses == t0.wins + t0.losses
            + filled_count(ks, n),
    decreases n,
{
    if n > 0 {
        lemma_settlement_counts(ks, n - 1, r0, t0);
    }
}

/// Without trades there is nothing to rate: in any state the engine keeps,
/// once the figures are refreshed, zero trades give a win rate and a Sharpe
/// figure of 0 (the ledger then holds no realised result).
pub proof fn lemma_no_trades_no_rates(e: TradingEngine)
    requires
        e.wf(),
        derived_ok(e.stats, e.orders@),
        e.stats.total_trades == 0,
    ensures
        e.stats.win_rate == 0,
        e.stats.sharpe_ratio == 0,
        e.stats.avg_bet == 0,
{
}

} // verus!
