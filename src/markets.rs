//! Reading the market data provider's listing. Records are read one by one
//! and a malformed one is skipped, never failing the page: numbers may come
//! as JSON numbers or as strings, and missing outcomes or prices take defaults.
use vstd::prelude::*;
use crate::json::{
    item_texts, json_items, json_member, json_number, json_string, json_strings, member_text,
    number_text, string_list, string_value, texts,
};
use crate::models::Market;
use crate::predictor::{number_ppm, opt_view, parse_ppm, text_or};

verus! {

/// The members of one listing record, each as its JSON text; `None` when absent.
pub struct MarketRecord {
    pub question: Option<String>,
    pub condition_id: Option<String>,
    pub id: Option<String>,
    pub slug: Option<String>,
    pub outcomes: Option<String>,
    pub outcome_prices: Option<String>,
    pub volume: Option<String>,
    pub liquidity: Option<String>,
    pub end_date: Option<String>,
}

/// The contents of a member that is a JSON string.
pub open spec fn string_of(m: Option<Seq<char>>) -> Option<Seq<char>> {
    match m {
        Some(t) => json_string(t),
        None => None,
    }
}

/// A number given either as a string holding a number (see
/// [`number_ppm`]) or as a JSON number, in millionths.
pub open spec fn amount_of(t: Seq<char>) -> Option<int> {
    match json_string(t) {
        Some(s) => number_ppm(s),
        None => match json_number(t) {
            Some(n) => number_ppm(n),
            None => None,
        },
    }
}

/// The amount in a member, or 0.
pub open spec fn amount_or_zero(m: Option<Seq<char>>) -> int {
    match m {
        Some(t) => match amount_of(t) {
            Some(v) => v,
            None => 0,
        },
        None => 0,
    }
}

/// The readable amounts among `items`, in order.
pub open spec fn amounts(items: Seq<Seq<char>>) -> Seq<int>
    decreases items.len(),
{
    if items.len() == 0 {
        Seq::empty()
    } else {
        match amount_of(items.last()) {
            Some(v) => amounts(items.drop_last()).push(v),
            None => amounts(items.drop_last()),
        }
    }
}

/// The id of a record: its `condition_id` when present, else its `id`; it
/// must be a string.
pub open spec fn record_id(condition_id: Option<Seq<char>>, id: Option<Seq<char>>) -> Option<Seq<char>> {
    match condition_id {
        Some(c) => json_string(c),
        None => string_of(id),
    }
}

pub open spec fn default_outcomes() -> Seq<Seq<char>> {
    seq!["Yes"@, "No"@]
}

pub open spec fn default_prices() -> Seq<int> {
    seq![500_000int, 500_000int]
}

/// Outcome labels of a record: a JSON array of strings, else the default pair.
pub open spec fn outcomes_of(m: Option<Seq<char>>) -> Seq<Seq<char>> {
    match m {
        Some(t) => match json_strings(t) {
            Some(v) => v,
            None => default_outcomes(),
        },
        None => default_outcomes(),
    }
}

/// Outcome prices of a record in parts per million: the readable elements of
/// a JSON array, else the default pair.
pub open spec fn prices_of(m: Option<Seq<char>>) -> Seq<int> {
    match m {
        Some(t) => match json_items(t) {
            Some(items) => amounts(items),
            None => default_prices(),
        },
        None => default_prices(),
    }
}

/// A record makes a market when it has a string question and a string id.
pub open spec fn record_usable(r: MarketRecord) -> bool {
    string_of(opt_view(r.question)).is_some() && record_id(
        opt_view(r.condition_id),
        opt_view(r.id),
    ).is_some()
}

pub open spec fn ints(v: Seq<i64>) -> Seq<int> {
    v.map_values(|x: i64| x as int)
}

/// `mk` is the market made of the members `question` ... `end_date`
/// (each a member's JSON text, `None` when absent).
pub open spec fn market_fields(
    mk: Market,
    question: Option<Seq<char>>,
    condition_id: Option<Seq<char>>,
    id: Option<Seq<char>>,
    slug: Option<Seq<char>>,
    outcomes: Option<Seq<char>>,
    outcome_prices: Option<Seq<char>>,
    volume: Option<Seq<char>>,
    liquidity: Option<Seq<char>>,
    end_date: Option<Seq<char>>,
) -> bool {
    &&& string_of(question) == Some(mk.question@)
    &&& record_id(condition_id, id) == Some(mk.id@)
    &&& mk.slug@ == text_or(string_of(slug), ""@)
    &&& texts(mk.outcomes@) == outcomes_of(outcomes)
    &&& ints(mk.outcome_prices@) == prices_of(outcome_prices)
    &&& mk.volume == amount_or_zero(volume)
    &&& mk.liquidity == amount_or_zero(liquidity)
    &&& opt_view(mk.end_date) == string_of(end_date)
    &&& mk.active
}

/// `mk` is the market made of the record `r`.
pub open spec fn market_of(mk: Market, r: MarketRecord) -> bool {
    market_fields(
        mk,
        opt_view(r.question),
        opt_view(r.condition_id),
        opt_view(r.id),
        opt_view(r.slug),
        opt_view(r.outcomes),
        opt_view(r.outcome_prices),
        opt_view(r.volume),
        opt_view(r.liquidity),
        opt_view(r.end_date),
    )
}

/// `mk` is the market made of the listing entry `doc`.
pub open spec fn entry_market(mk: Market, doc: Seq<char>) -> bool {
    market_fields(
        mk,
        json_member(doc, "question"@),
        json_member(doc, "condition_id"@),
        json_member(doc, "id"@),
        json_member(doc, "slug"@),
        json_member(doc, "outcomes"@),
        json_member(doc, "outcomePrices"@),
        json_member(doc, "volume"@),
        json_member(doc, "liquidity"@),
        json_member(doc, "endDate"@),
    )
}

fn string_in(m: &Option<String>) -> (r: Option<String>)
    ensures
        opt_view(r) == string_of(opt_view(*m)),
{
    match m {
        Some(t) => string_value(t.as_str()),
        None => None,
    }
}

fn amount_in(t: &str) -> (r: Option<i64>)
    ensures
        r matches Some(v) ==> amount_of(t@) == Some(v as int),
        r is None ==> amount_of(t@) is None,
{
    match string_value(t) {
        Some(s) => parse_ppm(s.as_str()),
        None => match number_text(t) {
            Some(n) => parse_ppm(n.as_str()),
            None => None,
        },
    }
}

fn amount_or_zero_in(m: &Option<String>) -> (r: i64)
    ensures
        r == amount_or_zero(opt_view(*m)),
{
    match m {
        Some(t) => match amount_in(t.as_str()) {
            Some(v) => v,
            None => 0,
        },
        None => 0,
    }
}

fn prices_in(m: &Option<String>) -> (r: Vec<i64>)
    ensures
        ints(r@) == prices_of(opt_view(*m)),
{
    let mut out: Vec<i64> = Vec::new();
    let items = match m {
        Some(t) => item_texts(t.as_str()),
        None => None,
    };
    match items {
        None => {
            out.push(500_000);
            out.push(500_000);
            assert(ints(out@) =~= default_prices());
        },
        Some(v) => {
            let ghost all = texts(v@);
            let mut i: usize = 0;
            while i < v.len()
                invariant
                    i <= v@.len(),
                    all == texts(v@),
                    ints(out@) == amounts(all.take(i as int)),
                decreases v@.len() - i,
            {
                assert(all.take(i + 1).drop_last() =~= all.take(i as int));
                assert(all.take(i + 1).last() == v@[i as int]@);
                match amount_in(v[i].as_str()) {
                    Some(a) => {
                        let ghost before = out@;
                        out.push(a);
                        assert(ints(out@) =~= ints(before).push(a as int));
                    },
                    None => {},
                }
                i = i + 1;
            }
            assert(all.take(v@.len() as int) =~= all);
        },
    }
    out
}

fn outcomes_in(m: &Option<String>) -> (r: Vec<String>)
    ensures
        texts(r@) == outcomes_of(opt_view(*m)),
{
    let list = match m {
        Some(t) => string_list(t.as_str()),
        None => None,
    };
    match list {
        Some(v) => v,
        None => {
            let mut d: Vec<String> = Vec::new();
            d.push(String::from_str("Yes"));
            d.push(String::from_str("No"));
            assert(texts(d@) =~= default_outcomes());
            d
        },
    }
}

/// The market that one listing record describes, or `None` when the record
/// lacks a string question or a string id. Outcomes and prices default to
/// `["Yes", "No"]` and one half each, volume and liquidity to 0 (both in
/// micro-units), the slug to empty; the market is active.
pub fn market_from_record(r: &MarketRecord) -> (m: Option<Market>)
    ensures
        m.is_some() == record_usable(*r),
        m matches Some(mk) ==> market_of(mk, *r),
{
    let question = match string_in(&r.question) {
        Some(q) => q,
        None => { return None; },
    };
    let id_found = match &r.condition_id {
        Some(c) => string_value(c.as_str()),
        None => string_in(&r.id),
    };
    let id = match id_found {
        Some(i) => i,
        None => { return None; },
    };
    let slug = match string_in(&r.slug) {
        Some(s) => s,
        None => {
            proof {
                reveal_strlit("");
                assert(""@ =~= Seq::<char>::empty());
            }
            String::new()
        },
    };
    let mk = Market {
        id,
        question,
        slug,
        outcomes: outcomes_in(&r.outcomes),
        outcome_prices: prices_in(&r.outcome_prices),
        volume: amount_or_zero_in(&r.volume),
        liquidity: amount_or_zero_in(&r.liquidity),
        end_date: string_in(&r.end_date),
        active: true,
    };
    assert(market_of(mk, *r));
    Some(mk)
}

/// The record of the listing entry `doc`.
pub open spec fn record_in(doc: Seq<char>, r: MarketRecord) -> bool {
    &&& opt_view(r.question) == json_member(doc, "question"@)
    &&& opt_view(r.condition_id) == json_member(doc, "condition_id"@)
    &&& opt_view(r.id) == json_member(doc, "id"@)
    &&& opt_view(r.slug) == json_member(doc, "slug"@)
    &&& opt_view(r.outcomes) == json_member(doc, "outcomes"@)
    &&& opt_view(r.outcome_prices) == json_member(doc, "outcomePrices"@)
    &&& opt_view(r.volume) == json_member(doc, "volume"@)
    &&& opt_view(r.liquidity) == json_member(doc, "liquidity"@)
    &&& opt_view(r.end_date) == json_member(doc, "endDate"@)
}

/// Whether the listing entry `doc` makes a market.
pub open spec fn entry_usable(doc: Seq<char>) -> bool {
    string_of(json_member(doc, "question"@)).is_some() && record_id(
        json_member(doc, "condition_id"@),
        json_member(doc, "id"@),
    ).is_some()
}

/// Entries among `items` that make a market.
pub open spec fn usable_count(items: Seq<Seq<char>>) -> int
    decreases items.len(),
{
    if items.len() == 0 {
        0
    } else {
        usable_count(items.drop_last()) + if entry_usable(items.last()) { 1int } else { 0 }
    }
}

/// Positions of the entries among `items` that make a market, in order.
pub open spec fn usable_positions(items: Seq<Seq<char>>) -> Seq<int>
    decreases items.len(),
{
    if items.len() == 0 {
        Seq::empty()
    } else if entry_usable(items.last()) {
        usable_positions(items.drop_last()).push(items.len() - 1)
    } else {
        usable_positions(items.drop_last())
    }
}

fn opt_member(doc: &str, key: &str) -> (r: Option<String>)
    ensures
        opt_view(r) == json_member(doc@, key@),
{
    member_text(doc, key)
}

/// The record of the listing entry `doc`.
pub fn read_record(doc: &str) -> (r: MarketRecord)
    ensures
        record_in(doc@, r),
{
    MarketRecord {
        question: opt_member(doc, "question"),
        condition_id: opt_member(doc, "condition_id"),
        id: opt_member(doc, "id"),
        slug: opt_member(doc, "slug"),
        outcomes: opt_member(doc, "outcomes"),
        outcome_prices: opt_member(doc, "outcomePrices"),
        volume: opt_member(doc, "volume"),
        liquidity: opt_member(doc, "liquidity"),
        end_date: opt_member(doc, "endDate"),
    }
}

/// The markets of a listing page `body`, in page order: one per entry that
/// makes a market, each the one [`market_from_record`] makes of it; none
/// when the page is not a JSON array.
pub fn markets_from_page(body: &str) -> (r: Vec<Market>)
    ensures
        json_items(body@) is None ==> r@.len() == 0,
        json_items(body@) matches Some(items) ==> {
            &&& r@.len() == usable_positions(items).len()
            &&& forall|j: int|
                0 <= j < r@.len() ==> entry_market(
                    #[trigger] r@[j],
                    items[usable_positions(items)[j]],
                )
        },
{
    let mut out: Vec<Market> = Vec::new();
    match item_texts(body) {
        None => {},
        Some(v) => {
            let ghost all = texts(v@);
            let mut i: usize = 0;
            while i < v.len()
                invariant
                    i <= v@.len(),
                    all == texts(v@),
                    out@.len() == usable_positions(all.take(i as int)).len(),
                    forall|k: int| 0 <= k < usable_positions(all.take(i as int)).len() ==> 0
                        <= #[trigger] usable_positions(all.take(i as int))[k] < i,
                    forall|j: int|
                        0 <= j < out@.len() ==> entry_market(
                            #[trigger] out@[j],
                            all[usable_positions(all.take(i as int))[j]],
                        ),
                decreases v@.len() - i,
            {
                assert(all.take(i + 1).drop_last() =~= all.take(i as int));
                assert(all.take(i + 1).last() == v@[i as int]@);
                let rec = read_record(v[i].as_str());
                let ghost before = out@;
                match market_from_record(&rec) {
                    Some(mk) => {
                        out.push(mk);
                        assert(entry_market(mk, all[i as int]));
                    },
                    None => {},
                }
                i = i + 1;
            }
            assert(all.take(v@.len() as int) =~= all);
        },
    }
    out
}

} // verus!
