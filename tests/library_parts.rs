use survival_bot::bounded_log::push_bounded;
use survival_bot::messages::truncate_str;
use survival_bot::models::{Market, Order, OrderSide, OrderStatus, UNIT};
use survival_bot::predictor::{
    assemble_prediction, extract_json, parse_ppm, parse_prediction, PredictionFields,
};
use survival_bot::settlement::{advance_draw, settle_pnl, start_draw};
use survival_bot::stats::{average_bet, isqrt, pnl_label, runway_days, sharpe_ratio, win_rate};
use survival_bot::text::{dec_text, push_duration, push_fixed};

fn market() -> Market {
    Market {
        id: "cid".to_string(),
        question: "Will it snow?".to_string(),
        slug: String::new(),
        outcomes: Vec::new(),
        outcome_prices: Vec::new(),
        volume: 0,
        liquidity: 0,
        end_date: None,
        active: true,
    }
}

fn order(size: i64, status: OrderStatus, pnl: Option<i64>) -> Order {
    Order {
        id: String::new(),
        market_id: String::new(),
        market_name: String::new(),
        side: OrderSide::Buy,
        outcome: String::new(),
        price: 500_000,
        size,
        status,
        created_at: String::new(),
        resolved_at: None,
        pnl,
    }
}

#[test]
fn bounded_log_keeps_last_items() {
    let mut log: Vec<u32> = Vec::new();
    for i in 1..=7 {
        push_bounded(&mut log, i, 3);
    }
    assert_eq!(log, vec![5, 6, 7]);
    let mut short: Vec<u32> = Vec::new();
    push_bounded(&mut short, 1, 3);
    push_bounded(&mut short, 2, 3);
    assert_eq!(short, vec![1, 2]);
}

#[test]
fn no_json_gives_fallback() {
    let p = parse_prediction("no json here", &market());
    assert_eq!(p.edge, 0);
    assert_eq!(p.confidence, 300_000);
    assert_eq!(p.fair_price, 500_000);
    assert_eq!(p.recommended_size, 0);
    assert_eq!(p.predicted_outcome, "Yes");
    assert_eq!(p.reasoning, "Failed to parse AI response");
    assert_eq!(p.market_id, "cid");
    assert_eq!(p.market_name, "Will it snow?");
}

#[test]
fn embedded_json_is_read() {
    let text = "Here you go: {\"predicted_outcome\": \"No\", \"fair_price\": 0.62, \"confidence\": 0.8, \"edge\": 0.12, \"reasoning\": \"cold\", \"recommended_size_pct\": 0.05} hope it helps";
    let p = parse_prediction(text, &market());
    assert_eq!(p.predicted_outcome, "No");
    assert_eq!(p.fair_price, 620_000);
    assert_eq!(p.confidence, 800_000);
    assert_eq!(p.edge, 120_000);
    assert_eq!(p.reasoning, "cold");
    assert_eq!(p.recommended_size, 50_000);
}

#[test]
fn missing_fields_take_defaults() {
    let p = parse_prediction("{\"edge\": 1}", &market());
    assert_eq!(p.edge, 1_000_000);
    assert_eq!(p.confidence, 300_000);
    assert_eq!(p.fair_price, 500_000);
    assert_eq!(p.predicted_outcome, "Yes");
    assert_eq!(p.reasoning, "No reasoning provided");
}

#[test]
fn assembled_fields_are_parsed() {
    let f = PredictionFields {
        predicted_outcome: None,
        fair_price: Some("abc".to_string()),
        confidence: Some("-0.25".to_string()),
        edge: Some("0.1234567".to_string()),
        reasoning: Some("x".to_string()),
        recommended_size_pct: Some("2".to_string()),
    };
    let p = assemble_prediction(&market(), f);
    assert_eq!(p.fair_price, 500_000);
    assert_eq!(p.confidence, -250_000);
    assert_eq!(p.edge, 123_456);
    assert_eq!(p.recommended_size, 2_000_000);
    assert_eq!(p.predicted_outcome, "Yes");
    assert_eq!(p.reasoning, "x");
}

#[test]
fn decimals_parse_to_ppm() {
    assert_eq!(parse_ppm("0.35"), Some(350_000));
    assert_eq!(parse_ppm("-1.5"), Some(-1_500_000));
    assert_eq!(parse_ppm("2"), Some(2_000_000));
    assert_eq!(parse_ppm("1e-7"), Some(0));
    assert_eq!(parse_ppm("1.5e-3"), Some(1_500));
    assert_eq!(parse_ppm("2E2"), Some(200_000_000));
    assert_eq!(parse_ppm("1e+2"), Some(100_000_000));
    assert_eq!(parse_ppm("-2.5e-1"), Some(-250_000));
    assert_eq!(parse_ppm("1e19"), None);
    assert_eq!(parse_ppm("1e-19"), Some(0));
    assert_eq!(parse_ppm("1e"), None);
    assert_eq!(parse_ppm(""), None);
    assert_eq!(parse_ppm("1."), None);
    assert_eq!(parse_ppm(".5"), None);
    assert_eq!(parse_ppm("1234567890123"), None);
}

#[test]
fn json_object_is_cut_out() {
    assert_eq!(extract_json("Sure! {\"edge\": 0.1} done"), "{\"edge\": 0.1}");
    assert_eq!(extract_json("no json"), "no json");
    assert_eq!(extract_json("} x {"), "} x {");
    assert_eq!(extract_json("{a} {b}"), "{a} {b}");
}

#[test]
fn questions_are_truncated() {
    assert_eq!(truncate_str("abcdef", 3), "abc...");
    assert_eq!(truncate_str("abc", 3), "abc");
    assert_eq!(truncate_str("", 0), "");
}

#[test]
fn settlement_payouts() {
    assert_eq!(settle_pnl(200 * UNIT, 500_000, true), 60 * UNIT);
    assert_eq!(settle_pnl(200 * UNIT, 500_000, false), -140 * UNIT);
    assert_eq!(settle_pnl(200 * UNIT, 0, true), 0);
    assert_eq!(settle_pnl(200 * UNIT, 2_000_000, true), -30 * UNIT);
}

#[test]
fn draws_follow_the_cycle() {
    let r0 = start_draw(1);
    assert_eq!(r0, 1000);
    let r1 = advance_draw(r0);
    assert_eq!(r1, 400);
    assert_eq!(advance_draw(r1), 740);
    assert_eq!(advance_draw(740), 114);
}

#[test]
fn rates_and_runway() {
    assert_eq!(win_rate(2, 3), 6666);
    assert_eq!(win_rate(0, 0), 0);
    assert_eq!(runway_days(100, 0), 9999);
    assert_eq!(runway_days(100, 30), 3);
    assert_eq!(runway_days(-5, 3), 0);
    assert_eq!(isqrt(99), 9);
    assert_eq!(isqrt(100), 10);
    assert_eq!(pnl_label(1_250 * UNIT), "+$1.3k");
    assert_eq!(pnl_label(-2_000 * UNIT), "$-2.0k");
}

#[test]
fn sharpe_over_realized_results() {
    let orders = vec![
        order(UNIT, OrderStatus::Resolved, Some(1_000_000)),
        order(UNIT, OrderStatus::Resolved, Some(3_000_000)),
        order(UNIT, OrderStatus::Filled, None),
    ];
    assert_eq!(sharpe_ratio(&orders), 31_750);
    assert_eq!(average_bet(&orders, 4), 500_000);
    assert_eq!(sharpe_ratio(&Vec::new()), 0);
}

#[test]
fn decimal_text() {
    assert_eq!(dec_text(0), "0");
    assert_eq!(dec_text(1234), "1234");
    let mut s = String::new();
    push_fixed(&mut s, -3_500_000, 1_000_000, 2);
    assert_eq!(s, "-3.50");
    let mut d = String::new();
    push_duration(&mut d, 360_000);
    assert_eq!(d, "100:00:00");
}

#[test]
fn token_cost_in_micro_units() {
    assert_eq!(survival_bot::predictor::estimate_cost(1_000_000, 0), 3_000_000);
    assert_eq!(survival_bot::predictor::estimate_cost(1_000, 2_000), 33_000);
    assert_eq!(survival_bot::predictor::estimate_cost(u64::MAX, u64::MAX), i64::MAX);
}

#[test]
fn malformed_fields_take_defaults() {
    let p = parse_prediction("{\"edge\": \"high\", \"confidence\": 5e-2, \"reasoning\": 3}", &market());
    assert_eq!(p.edge, 0);
    assert_eq!(p.confidence, 50_000);
    assert_eq!(p.reasoning, "No reasoning provided");
}
