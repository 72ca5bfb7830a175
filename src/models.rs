//! Records the engine works on.
//!
//! Amounts of money are signed micro-units (`UNIT` per currency unit); prices,
//! edges, confidences and size fractions are parts per million (`PPM` is one).
use vstd::prelude::*;

verus! {

/// Micro-units in one currency unit.
pub const UNIT: i64 = 1_000_000;

/// Parts per million that make a whole.
pub const PPM: i64 = 1_000_000;

/// A snapshot of one tradeable question.
pub struct Market {
    pub id: String,
    pub question: String,
    pub slug: String,
    pub outcomes: Vec<String>,
    /// One price per outcome, in parts per million.
    pub outcome_prices: Vec<i64>,
    /// Traded volume, in micro-units.
    pub volume: i64,
    /// Available liquidity, in micro-units.
    pub liquidity: i64,
    pub end_date: Option<String>,
    pub active: bool,
}

#[derive(Clone, Copy, Debug, PartialEq, Eq, Structural)]
pub enum OrderSide {
    Buy,
    Sell,
}

#[derive(Clone, Copy, Debug, PartialEq, Eq, Structural)]
pub enum OrderStatus {
    Pending,
    Filled,
    Resolved,
    Cancelled,
    Failed,
}

/// A speculative position.
pub struct Order {
    pub id: String,
    pub market_id: String,
    pub market_name: String,
    pub side: OrderSide,
    pub outcome: String,
    /// Entry price, in parts per million.
    pub price: i64,
    /// Stake, in micro-units.
    pub size: i64,
    pub status: OrderStatus,
    pub created_at: String,
    pub resolved_at: Option<String>,
    /// Realised profit or loss, in micro-units.
    pub pnl: Option<i64>,
}

impl Order {
    /// Resolved orders carry a result and a resolution time; open ones carry neither.
    pub open spec fn lifecycle_ok(&self) -> bool {
        &&& (self.status == OrderStatus::Resolved) ==> (self.pnl.is_some()
            && self.resolved_at.is_some())
        &&& (self.status == OrderStatus::Pending || self.status == OrderStatus::Filled) ==> (
        self.pnl.is_none() && self.resolved_at.is_none())
    }
}

/// A settled trade, as reported to an operator.
pub struct TradeResult {
    pub order_id: String,
    pub market_name: String,
    /// Realised profit or loss, in micro-units.
    pub pnl: i64,
    pub status: String,
    pub timestamp: String,
}

/// A balance sample.
pub struct BalancePoint {
    pub timestamp: String,
    /// Balance, in micro-units.
    pub balance: i64,
    pub label: String,
}

/// Derived performance figures.
pub struct BotStats {
    /// Micro-units.
    pub current_balance: i64,
    /// Micro-units.
    pub initial_balance: i64,
    /// `current_balance - initial_balance`, in micro-units.
    pub total_pnl: i64,
    /// `total_pnl` in thousands of currency units with one decimal.
    pub total_pnl_pct: String,
    /// Cumulative predictor cost, in micro-units.
    pub api_costs: i64,
    /// Share of winning trades, in hundredths of a percent.
    pub win_rate: u64,
    pub wins: u32,
    pub losses: u32,
    pub total_trades: u32,
    pub markets_scanned: u64,
    /// Micro-units.
    pub avg_bet: i64,
    /// Micro-units.
    pub best_trade: i64,
    /// Micro-units.
    pub worst_trade: i64,
    /// Sharpe approximation, in thousandths.
    pub sharpe_ratio: i64,
    /// Parts per million.
    pub avg_edge: i64,
    /// Micro-units.
    pub daily_api_cost: i64,
    pub runway_days: u32,
    pub uptime: String,
    pub cycle: u32,
    pub pid: u32,
}

#[derive(Clone, Copy, Debug, PartialEq, Eq, Structural)]
pub enum ActivityType {
    Info,
    Edge,
    Order,
    Resolved,
    Warning,
    Error,
    Inference,
}

/// A timestamped, typed log line.
pub struct ActivityEntry {
    pub timestamp: String,
    pub message: String,
    pub entry_type: ActivityType,
}

/// What a log line holds, as text.
pub struct EntryView {
    pub timestamp: Seq<char>,
    pub message: Seq<char>,
    pub entry_type: ActivityType,
}

impl View for ActivityEntry {
    type V = EntryView;

    open spec fn view(&self) -> EntryView {
        EntryView { timestamp: self.timestamp@, message: self.message@, entry_type: self.entry_type }
    }
}

/// The views of a sequence of log lines.
pub open spec fn entry_views(s: Seq<ActivityEntry>) -> Seq<EntryView> {
    s.map_values(|e: ActivityEntry| e@)
}

/// Operator-supplied parameters.
pub struct BotConfig {
    pub polymarket_api_key: String,
    pub polymarket_secret: String,
    pub polymarket_passphrase: String,
    pub claude_api_key: String,
    pub claude_model: String,
    /// Micro-units.
    pub initial_balance: i64,
    /// Micro-units.
    pub max_bet_size: i64,
    /// Parts per million.
    pub min_edge_threshold: i64,
    pub max_concurrent_orders: u32,
    pub scan_interval_secs: u32,
    pub auto_trading: bool,
    pub survival_mode: bool,
}

impl Default for BotConfig {
    fn default() -> (r: BotConfig)
        ensures
            r.polymarket_api_key@.len() == 0,
            r.polymarket_secret@.len() == 0,
            r.polymarket_passphrase@.len() == 0,
            r.claude_api_key@.len() == 0,
            r.claude_model@.len() == 0,
            r.initial_balance == 50 * UNIT,
            r.max_bet_size == 200 * UNIT,
            r.min_edge_threshold == 300_000,
            r.max_concurrent_orders == 5,
            r.scan_interval_secs == 60,
            !r.auto_trading,
            r.survival_mode,
    {
        BotConfig {
            polymarket_api_key: String::new(),
            polymarket_secret: String::new(),
            polymarket_passphrase: String::new(),
            claude_api_key: String::new(),
            claude_model: String::new(),
            initial_balance: 50 * UNIT,
            max_bet_size: 200 * UNIT,
            min_edge_threshold: 300_000,
            max_concurrent_orders: 5,
            scan_interval_secs: 60,
            auto_trading: false,
            survival_mode: true,
        }
    }
}

/// A predictor's verdict on one market.
pub struct AIPrediction {
    pub market_id: String,
    pub market_name: String,
    pub predicted_outcome: String,
    /// Parts per million.
    pub confidence: i64,
    /// Parts per million, signed.
    pub edge: i64,
    pub reasoning: String,
    /// Fraction of the current balance to stake, in parts per million.
    pub recommended_size: i64,
    /// Parts per million.
    pub fair_price: i64,
}

/// One message of a predictor request.
pub struct ClaudeMessage {
    pub role: String,
    pub content: String,
}

/// A predictor request.
pub struct ClaudeRequest {
    pub model: String,
    pub max_tokens: u32,
    pub messages: Vec<ClaudeMessage>,
    pub system: Option<String>,
}

/// A predictor response.
pub struct ClaudeResponse {
    pub content: Vec<ClaudeContent>,
    pub usage: Option<ClaudeUsage>,
}

/// One block of a predictor response.
pub struct ClaudeContent {
    pub content_type: String,
    pub text: Option<String>,
}

/// Token counts of one predictor call.
pub struct ClaudeUsage {
    pub input_tokens: u32,
    pub output_tokens: u32,
}

} // verus!
