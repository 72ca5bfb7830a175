use survival_bot::markets::{market_from_record, markets_from_page, MarketRecord};

fn empty_record() -> MarketRecord {
    MarketRecord {
        question: None,
        condition_id: None,
        id: None,
        slug: None,
        outcomes: None,
        outcome_prices: None,
        volume: None,
        liquidity: None,
        end_date: None,
    }
}

#[test]
fn listing_records_are_read_best_effort() {
    let body = r#"[
        {"question": "Q1", "condition_id": "c1", "outcomePrices": ["0.3", "0.7"], "volume": "1234.5", "liquidity": 10, "slug": "q-1", "endDate": "2025-03-01"},
        {"question": "Q2", "id": "i2"},
        {"id": "x"},
        {"question": "Q3", "condition_id": null, "id": "i3"},
        5
    ]"#;
    let ms = markets_from_page(body);
    assert_eq!(ms.len(), 2);
    assert_eq!(ms[0].id, "c1");
    assert_eq!(ms[0].question, "Q1");
    assert_eq!(ms[0].slug, "q-1");
    assert_eq!(ms[0].outcome_prices, vec![300_000, 700_000]);
    assert_eq!(ms[0].outcomes, vec!["Yes".to_string(), "No".to_string()]);
    assert_eq!(ms[0].volume, 1_234_500_000);
    assert_eq!(ms[0].liquidity, 10_000_000);
    assert_eq!(ms[0].end_date.as_deref(), Some("2025-03-01"));
    assert!(ms[0].active);
    assert_eq!(ms[1].id, "i2");
    assert_eq!(ms[1].outcome_prices, vec![500_000, 500_000]);
    assert_eq!(ms[1].volume, 0);
    assert_eq!(ms[1].slug, "");
    assert_eq!(ms[1].end_date, None);
}

#[test]
fn non_array_listing_gives_nothing() {
    assert!(markets_from_page("{}").is_empty());
    assert!(markets_from_page("not json").is_empty());
}

#[test]
fn record_fields_are_decoded() {
    let mut r = empty_record();
    r.question = Some("\"Will it?\"".to_string());
    r.id = Some("\"m7\"".to_string());
    r.outcomes = Some("[\"A\",\"B\",\"C\"]".to_string());
    r.outcome_prices = Some("[\"0.25\", 0.75, \"bad\", true]".to_string());
    r.volume = Some("\"n/a\"".to_string());
    let m = market_from_record(&r).expect("usable record");
    assert_eq!(m.question, "Will it?");
    assert_eq!(m.id, "m7");
    assert_eq!(m.outcomes, vec!["A".to_string(), "B".to_string(), "C".to_string()]);
    assert_eq!(m.outcome_prices, vec![250_000, 750_000]);
    assert_eq!(m.volume, 0);
}

#[test]
fn record_without_string_id_is_skipped() {
    let mut r = empty_record();
    r.question = Some("\"Q\"".to_string());
    assert!(market_from_record(&r).is_none());
    r.condition_id = Some("12".to_string());
    r.id = Some("\"fallback\"".to_string());
    assert!(market_from_record(&r).is_none());
    let mut s = empty_record();
    s.id = Some("\"i\"".to_string());
    s.question = Some("7".to_string());
    assert!(market_from_record(&s).is_none());
}
