use survival_bot::engine::{Assessment, TradingEngine};
use survival_bot::models::{
    AIPrediction, ActivityType, BotConfig, Market, Order, OrderSide, OrderStatus, UNIT,
};

fn market(id: &str, question: &str) -> Market {
    Market {
        id: id.to_string(),
        question: question.to_string(),
        slug: String::new(),
        outcomes: vec!["Yes".to_string(), "No".to_string()],
        outcome_prices: vec![500_000, 500_000],
        volume: 0,
        liquidity: 0,
        end_date: None,
        active: true,
    }
}

fn answer(m: &Market, edge: i64, size: i64, fair: i64, cost: i64) -> Result<Assessment, String> {
    Ok(Assessment {
        prediction: AIPrediction {
            market_id: m.id.clone(),
            market_name: m.question.clone(),
            predicted_outcome: "Yes".to_string(),
            confidence: 800_000,
            edge,
            reasoning: String::new(),
            recommended_size: size,
            fair_price: fair,
        },
        api_costs: cost,
    })
}

fn trading_config() -> BotConfig {
    let mut c = BotConfig::default();
    c.auto_trading = true;
    c
}

fn running_engine(config: BotConfig) -> TradingEngine {
    let mut e = TradingEngine::new_at(7, 0);
    e.configure_at(config, 1);
    e.start_at(100);
    e
}

#[test]
fn new_engine_defaults() {
    let e = TradingEngine::new_at(42, 3661);
    assert!(!e.is_running);
    assert_eq!(e.stats.current_balance, 50 * UNIT);
    assert_eq!(e.stats.pid, 42);
    assert_eq!(e.stats.total_pnl_pct, "+0%");
    assert_eq!(e.stats.uptime, "00:00:00");
    assert_eq!(e.balance_history.len(), 1);
    assert_eq!(e.balance_history[0].timestamp, "01:01:01");
    assert_eq!(e.balance_history[0].label, "0h");
    assert!(e.activity_log.is_empty());
}

#[test]
fn idle_cycle_changes_nothing() {
    let mut e = TradingEngine::new_at(1, 0);
    e.configure_at(trading_config(), 5);
    let m = market("a", "Q?");
    let log_before = e.activity_log.len();
    let delta = e.run_cycle(50, Ok(vec![market("a", "Q?")]), vec![answer(&m, 900_000, 500_000, 700_000, 9)]);
    assert!(delta.is_empty());
    assert_eq!(e.activity_log.len(), log_before);
    assert_eq!(e.stats.cycle, 0);
    assert_eq!(e.stats.current_balance, 50 * UNIT);
    assert_eq!(e.stats.markets_scanned, 0);
    assert_eq!(e.stats.api_costs, 0);
    assert!(e.orders.is_empty());
    assert_eq!(e.balance_history.len(), 1);
}

#[test]
fn fetch_failure_logs_one_error() {
    let mut e = running_engine(trading_config());
    let log_before = e.activity_log.len();
    let delta = e.run_cycle(3661, Err("timeout".to_string()), Vec::new());
    assert_eq!(delta.len(), 2);
    assert_eq!(delta[0].entry_type, ActivityType::Info);
    assert_eq!(delta[0].message, "Scanning markets... Cycle #1");
    assert_eq!(delta[1].entry_type, ActivityType::Error);
    assert_eq!(delta[1].message, "Error fetching markets: timeout");
    assert_eq!(delta[1].timestamp, "[01:01:01]");
    let errors = e.activity_log.iter().filter(|a| a.entry_type == ActivityType::Error).count();
    assert_eq!(errors, 1);
    assert_eq!(e.activity_log.len(), log_before + 2);
    assert_eq!(e.stats.current_balance, 50 * UNIT);
    assert!(e.orders.is_empty());
    assert_eq!(e.balance_history.len(), 1);
    assert!(e.is_running);
}

#[test]
fn unconfigured_cycle_only_counts() {
    let mut e = TradingEngine::new_at(1, 0);
    e.start_at(10);
    let delta = e.run_cycle(3610, Ok(Vec::new()), Vec::new());
    assert!(delta.is_empty());
    assert_eq!(e.stats.cycle, 1);
    assert_eq!(e.stats.uptime, "01:00:00");
}

#[test]
fn cycle_opens_and_settles_an_order() {
    let mut e = running_engine(trading_config());
    let m = market("m-1", "Will it rain?");
    let delta = e.run_cycle(3661, Ok(vec![market("m-1", "Will it rain?")]), vec![answer(&m, 400_000, 500_000, 700_000, 2000)]);
    let msgs: Vec<&str> = delta.iter().map(|a| a.message.as_str()).collect();
    assert_eq!(
        msgs,
        vec![
            "Scanning markets... Cycle #1",
            "Processing 1 markets...",
            "Edge: \"Will it rain?\" > $25 @ 0.40 (fair 0.70)",
            "ORDER $25.00 → \"Will it rain?\"",
            "RESOLVED +$3.21",
        ]
    );
    assert_eq!(delta[2].entry_type, ActivityType::Edge);
    assert_eq!(delta[3].entry_type, ActivityType::Order);
    assert_eq!(delta[4].entry_type, ActivityType::Resolved);
    assert_eq!(e.orders.len(), 1);
    assert_eq!(e.orders[0].status, OrderStatus::Resolved);
    assert_eq!(e.orders[0].pnl, Some(3_214_285));
    assert_eq!(e.orders[0].size, 25 * UNIT);
    assert_eq!(e.orders[0].resolved_at.as_deref(), Some("01:01:01"));
    assert_eq!(e.stats.current_balance, 50 * UNIT + 3_214_285);
    assert_eq!(e.stats.total_pnl, 3_214_285);
    assert_eq!(e.stats.total_pnl_pct, "+$0.0k");
    assert_eq!(e.stats.wins, 1);
    assert_eq!(e.stats.losses, 0);
    assert_eq!(e.stats.total_trades, 1);
    assert_eq!(e.stats.win_rate, 10_000);
    assert_eq!(e.stats.best_trade, 3_214_285);
    assert_eq!(e.stats.avg_bet, 25 * UNIT);
    assert_eq!(e.stats.sharpe_ratio, 0);
    assert_eq!(e.stats.api_costs, 2000);
    assert_eq!(e.stats.daily_api_cost, 2000);
    assert_eq!(e.stats.runway_days, 26_607);
    assert_eq!(e.stats.markets_scanned, 1);
    assert_eq!(e.balance_history.len(), 2);
    assert_eq!(e.balance_history[1].label, "1h");
    assert_eq!(e.balance_history[1].balance, 50 * UNIT + 3_214_285);
}

#[test]
fn edge_without_auto_trading_opens_nothing() {
    let mut e = running_engine(BotConfig::default());
    let m = market("m-1", "Q");
    let delta = e.run_cycle(0, Ok(vec![market("m-1", "Q")]), vec![answer(&m, 400_000, 500_000, 700_000, 0)]);
    assert_eq!(delta.len(), 3);
    assert_eq!(delta[2].entry_type, ActivityType::Edge);
    assert!(e.orders.is_empty());
    assert_eq!(e.stats.current_balance, 50 * UNIT);
    assert_eq!(e.stats.runway_days, 9999);
}

#[test]
fn predictor_failure_is_logged_and_skipped() {
    let mut e = running_engine(trading_config());
    let m = market("b", "Second");
    let delta = e.run_cycle(
        0,
        Ok(vec![market("a", "First"), market("b", "Second")]),
        vec![Err("down".to_string()), answer(&m, 100_000, 500_000, 700_000, 0)],
    );
    assert_eq!(delta.len(), 3);
    assert_eq!(delta[2].entry_type, ActivityType::Inference);
    assert_eq!(delta[2].message, "Inference: -$0.002");
    assert_eq!(e.stats.markets_scanned, 2);
}

#[test]
fn ledger_keeps_last_fifty_orders() {
    let mut e = running_engine(trading_config());
    e.stats.current_balance = 1_000_000 * UNIT;
    let mut k = 0;
    for cycle in 0..6 {
        let mut ms = Vec::new();
        let mut rs = Vec::new();
        for _ in 0..10 {
            k += 1;
            let m = market(&format!("id{}", k), &format!("m{}", k));
            rs.push(answer(&m, 900_000, 1_000, 500_000, 0));
            ms.push(m);
        }
        e.run_cycle(1000 + cycle, Ok(ms), rs);
        assert_eq!(e.stats.wins + e.stats.losses, e.stats.total_trades);
    }
    assert_eq!(e.stats.total_trades, 60);
    assert_eq!(e.orders.len(), 50);
    for (j, o) in e.orders.iter().enumerate() {
        assert_eq!(o.market_name, format!("m{}", j + 11));
        assert_eq!(o.status, OrderStatus::Resolved);
        assert!(o.pnl.is_some());
        assert_eq!(o.size, 200 * UNIT);
    }
}

#[test]
fn counters_stay_consistent_over_cycles() {
    let mut e = running_engine(trading_config());
    for c in 0..5u64 {
        let ms: Vec<Market> = (0..3).map(|i| market(&format!("{}", i), "q")).collect();
        let rs = ms.iter().map(|m| answer(m, 500_000, 100_000, 600_000, 10)).collect();
        e.run_cycle(c, Ok(ms), rs);
        assert_eq!(e.stats.wins + e.stats.losses, e.stats.total_trades);
    }
    assert_eq!(e.stats.total_trades, 15);
    assert_eq!(e.stats.cycle, 5);
}

#[test]
fn balance_moves_by_realized_pnl() {
    let mut e = TradingEngine::new_at(1, 0);
    e.book_trade(10 * UNIT);
    e.update_stats();
    assert_eq!(e.stats.current_balance, 60 * UNIT);
    assert_eq!(e.stats.total_pnl, 10 * UNIT);
    assert_eq!(e.stats.wins, 1);
    assert_eq!(e.stats.best_trade, 10 * UNIT);
}

#[test]
fn losing_trade_counts_as_loss() {
    let mut e = TradingEngine::new_at(1, 0);
    e.book_trade(-3_500_000);
    e.update_stats();
    assert_eq!(e.stats.losses, 1);
    assert_eq!(e.stats.worst_trade, -3_500_000);
    assert_eq!(e.stats.total_pnl_pct, "$-0.0k");
}

#[test]
fn zero_trades_give_zero_rates() {
    let mut e = TradingEngine::new_at(1, 0);
    e.update_stats();
    assert_eq!(e.stats.win_rate, 0);
    assert_eq!(e.stats.sharpe_ratio, 0);
    assert_eq!(e.stats.avg_bet, 0);
    assert_eq!(e.stats.total_pnl_pct, "+$0.0k");
    assert_eq!(e.stats.runway_days, 9999);
}

#[test]
fn start_is_idempotent_and_stop_logs() {
    let mut e = TradingEngine::new_at(1, 0);
    e.start_at(10);
    assert_eq!(e.activity_log.len(), 1);
    assert_eq!(e.activity_log[0].message, "🟢 Bot started - Survival Mode active");
    e.start_at(20);
    assert_eq!(e.activity_log.len(), 1);
    assert_eq!(e.start_time, Some(10));
    e.stop_at(30);
    assert!(!e.is_running);
    assert_eq!(e.activity_log[1].entry_type, ActivityType::Warning);
    assert_eq!(e.activity_log[1].message, "🔴 Bot stopped");
    assert_eq!(e.uptime_at(40), "00:00:00");
}

#[test]
fn configure_logs_and_readies_clients() {
    let mut e = TradingEngine::new_at(1, 0);
    let mut c = BotConfig::default();
    c.max_bet_size = 5 * UNIT;
    e.configure_at(c, 0);
    assert!(e.clients_ready);
    assert_eq!(e.config.max_bet_size, 5 * UNIT);
    assert_eq!(e.activity_log[0].message, "Configuration updated successfully");
    assert_eq!(e.activity_log[0].entry_type, ActivityType::Info);
}

#[test]
fn uptime_reads_elapsed_time() {
    let mut e = TradingEngine::new_at(1, 0);
    e.start_at(100);
    assert_eq!(e.uptime_at(3761), "01:01:01");
    assert_eq!(e.uptime_at(50), "00:00:00");
}

#[test]
fn activity_log_is_capped() {
    let mut e = TradingEngine::new_at(1, 0);
    for i in 0..520 {
        e.add_activity_at(&format!("line {}", i), ActivityType::Info, 0);
    }
    assert_eq!(e.activity_log.len(), 500);
    assert_eq!(e.activity_log[0].message, "line 20");
    assert_eq!(e.activity_log[499].message, "line 519");
    let copy = e.get_activity_log();
    assert_eq!(copy.len(), 500);
    assert_eq!(copy[0].message, "line 20");
}

#[test]
fn getters_copy_state() {
    let mut e = TradingEngine::new_at(9, 0);
    e.book_trade(UNIT);
    let s = e.get_stats();
    assert_eq!(s.current_balance, 51 * UNIT);
    assert_eq!(s.pid, 9);
    assert_eq!(e.get_balance_history().len(), 1);
}

#[test]
fn resolved_orders_are_not_settled_again() {
    let mut e = running_engine(trading_config());
    e.orders.push(Order {
        id: "x".to_string(),
        market_id: "x".to_string(),
        market_name: "old".to_string(),
        side: OrderSide::Buy,
        outcome: "Yes".to_string(),
        price: 500_000,
        size: UNIT,
        status: OrderStatus::Resolved,
        created_at: String::new(),
        resolved_at: Some("00:00:00".to_string()),
        pnl: Some(5),
    });
    e.stats.total_trades = 1;
    e.stats.wins = 1;
    e.run_cycle(0, Ok(Vec::new()), Vec::new());
    assert_eq!(e.stats.total_trades, 1);
    assert_eq!(e.orders[0].pnl, Some(5));
}

#[test]
fn new_order_ids_avoid_ledger_ids() {
    let e = running_engine(trading_config());
    let mut orders = e.orders;
    orders.push(Order {
        id: "dup".to_string(),
        market_id: String::new(),
        market_name: String::new(),
        side: OrderSide::Buy,
        outcome: String::new(),
        price: 500_000,
        size: UNIT,
        status: OrderStatus::Resolved,
        created_at: String::new(),
        resolved_at: None,
        pnl: None,
    });
    let id = survival_bot::engine::unique_id(&orders, "dup".to_string());
    assert_ne!(id, "dup");
    assert!(id.starts_with("dup"));
    assert_eq!(survival_bot::engine::unique_id(&orders, "fresh".to_string()), "fresh");
}

#[test]
fn cycle_order_ids_are_distinct() {
    let mut e = running_engine(trading_config());
    e.stats.current_balance = 1_000_000 * UNIT;
    let ms: Vec<Market> = (0..10).map(|i| market(&format!("{}", i), "q")).collect();
    let rs = ms.iter().map(|m| answer(m, 900_000, 1_000, 500_000, 0)).collect();
    e.run_cycle(0, Ok(ms), rs);
    let mut ids: Vec<&str> = e.orders.iter().map(|o| o.id.as_str()).collect();
    assert_eq!(ids.len(), 10);
    ids.sort();
    ids.dedup();
    assert_eq!(ids.len(), 10);
}
