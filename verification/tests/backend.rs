use std::collections::HashMap;
use wallet_backend::backend::{Backend, MarketPlan};
use wallet_backend::balances::{empty_chain, read_reply};
use wallet_backend::json::{err, Json};
use wallet_backend::market::{decode_token_meta, decode_uniswap_prices};
use wallet_backend::market_flow::PricedChain;
use wallet_backend::store::{labels_text, load_balances, load_labels, load_watched, relabel};
use wallet_backend::strmap::StrMap;

const A: &str = "0x5aaeb6053f3e94c9b9a09f33669435e7ef1beaed";

fn ready() -> Backend {
    let mut b = Backend::new();
    b.on_context_ready(HashMap::new(), StrMap::new());
    b
}

fn json(s: &str) -> Json {
    read_reply(&Some(s.to_string())).unwrap()
}

fn not_ready() -> String {
    err("backend not initialized (context not ready)")
}

#[test]
fn a_module_without_state_answers_the_same_error() {
    let mut b = Backend::default();
    assert!(!b.ready());
    assert_eq!(b.get_proxy_config(Json::object()), not_ready());
    assert_eq!(b.get_chains(Json::array(Vec::new())), not_ready());
    assert_eq!(b.get_history(Json::array(Vec::new())), not_ready());
    assert_eq!(b.get_watched_tokens(1), not_ready());
    assert_eq!(b.get_balances(A), not_ready());
    assert!(matches!(b.market_rows(A), Err(ref e) if err(e) == not_ready()));
    assert!(matches!(b.refresh_market(A), MarketPlan::NotReady));
    assert!(b.refresh_balances(A, &Vec::new()).is_none());
    assert!(!b.set_watched_tokens(1, "[]"));
    b.record_balances(A, Vec::new());
    b.record_legs(Vec::new());
    assert!(!b.ready());
    assert!(b.watched_text().is_none());
    assert!(b.balances_text().is_none());
}

#[test]
fn what_the_host_keeps_is_answered_in_an_envelope() {
    let b = ready();
    assert!(b.ready());
    assert_eq!(b.get_proxy_config(json("{\"mode\":\"off\"}")), "{\"ok\":true,\"proxy\":{\"mode\":\"off\"}}");
    assert_eq!(b.get_chains(json("[1]")), "{\"chains\":[1],\"ok\":true}");
    assert_eq!(b.get_history(json("[]")), "{\"history\":[],\"ok\":true}");
}

#[test]
fn watched_tokens_are_read_back() {
    let mut b = ready();
    assert_eq!(b.get_watched_tokens(1), "{\"ok\":true,\"tokens\":[]}");
    assert!(b.set_watched_tokens(1, "[\"0xa\",\"0xb\"]"));
    assert!(b.set_watched_tokens(-1, "[\"0xc\"]"));
    assert_eq!(b.get_watched_tokens(1), "{\"ok\":true,\"tokens\":[\"0xa\",\"0xb\"]}");
    assert_eq!(b.get_watched_tokens(-1), "{\"ok\":true,\"tokens\":[\"0xc\"]}");
    assert_eq!(b.get_watched_tokens(2), "{\"ok\":true,\"tokens\":[]}");
    assert!(b.set_watched_tokens(1, "[]"));
    assert_eq!(b.get_watched_tokens(1), "{\"ok\":true,\"tokens\":[]}");
}

#[test]
fn an_unreadable_list_of_tokens_changes_nothing() {
    let mut b = ready();
    assert!(b.watch(1, Some(vec!["0xa".to_string()])));
    for bad in ["nope", "{}", "[1]", "[\"0xb\",null]", "\"0xb\""] {
        assert!(!b.set_watched_tokens(1, bad));
    }
    assert!(!b.watch(1, None));
    assert_eq!(b.get_watched_tokens(1), "{\"ok\":true,\"tokens\":[\"0xa\"]}");
}

#[test]
fn watched_tokens_survive_a_restart() {
    let mut b = ready();
    b.set_watched_tokens(1, "[\"0xa\"]");
    b.set_watched_tokens(-1, "[]");
    let text = b.watched_text();
    let mut again = Backend::new();
    again.on_context_ready(load_watched(&text), StrMap::new());
    assert_eq!(again.get_watched_tokens(1), b.get_watched_tokens(1));
    assert_eq!(load_watched(&text).len(), 2);
    assert_eq!(
        load_watched(&Some("{\"5\":[\"x\"]}".to_string())).get(&5),
        Some(&vec!["x".to_string()])
    );
    for bad in ["nope", "[]", "{\"a\":[]}", "{\"1\":[2]}"] {
        assert!(load_watched(&Some(bad.to_string())).is_empty());
    }
    assert!(load_watched(&None).is_empty());
}

#[test]
fn balances_are_read_back() {
    let mut b = ready();
    assert_eq!(
        b.get_balances("0xa"),
        "{\"balances\":{\"address\":\"0xa\",\"chains\":[]},\"ok\":true}"
    );
    b.record_balances("0xa", vec![empty_chain(5, &Vec::new())]);
    assert_eq!(
        b.get_balances("0xa"),
        "{\"balances\":{\"address\":\"0xa\",\"chains\":[{\"chainId\":5,\"native\":\"0\",\"tokens\":[]}]},\"ok\":true}"
    );
    assert_eq!(
        b.get_balances("0xb"),
        "{\"balances\":{\"address\":\"0xb\",\"chains\":[]},\"ok\":true}"
    );
}

#[test]
fn balances_survive_a_restart() {
    let mut b = ready();
    b.record_balances("0xa", vec![empty_chain(5, &vec!["0xt".to_string()])]);
    b.record_balances("0xb", Vec::new());
    let text = b.balances_text();
    assert!(text.as_ref().unwrap().starts_with("{\n  \"0xa\": {\n    \"address\": \"0xa\","));
    let mut again = Backend::new();
    again.on_context_ready(HashMap::new(), load_balances(&text));
    assert_eq!(again.get_balances("0xa"), b.get_balances("0xa"));
    assert_eq!(again.get_balances("0xb"), b.get_balances("0xb"));
    assert!(load_balances(&None).keys().is_empty());
    assert!(load_balances(&Some("[]".to_string())).keys().is_empty());
    assert!(load_balances(&Some("nope".to_string())).keys().is_empty());
}

#[test]
fn a_refresh_of_balances_reads_every_chain_with_its_tokens() {
    let mut b = ready();
    b.set_watched_tokens(10, "[\"0xt\"]");
    let chains = vec![(1u64, None), (10u64, Some("0xmc".to_string()))];
    let (holder, specs) = b.refresh_balances(A, &chains).unwrap();
    assert_eq!(holder.to_text().to_lowercase(), A);
    assert_eq!(specs.len(), 2);
    assert_eq!(specs[0].chain_id, 1);
    assert_eq!(specs[0].multicall, None);
    assert!(specs[0].tokens.is_empty());
    assert_eq!(specs[1].chain_id, 10);
    assert_eq!(specs[1].multicall.as_deref(), Some("0xmc"));
    assert_eq!(specs[1].tokens, vec!["0xt".to_string()]);
    assert!(b.refresh_balances("0x12", &chains).is_none());
}

fn holdings() -> Vec<Json> {
    vec![
        json("{\"chainId\":1,\"native\":\"3\",\"tokens\":[{\"address\":\"0x1234567890\",\"balance\":\"4\"}]}"),
        json("{\"chainId\":0,\"native\":\"3\"}"),
        json("{\"chainId\":2}"),
    ]
}

#[test]
fn a_refresh_of_prices_begins_with_the_chains_of_the_balances() {
    let mut b = ready();
    assert!(matches!(b.refresh_market("0xa"), MarketPlan::Nothing));
    b.record_balances("0xa", holdings());
    match b.refresh_market("0xa") {
        MarketPlan::Chains(c) => {
            assert_eq!(c.len(), 2);
            assert_eq!((c[0].0, c[0].1.len()), (1, 1));
            assert_eq!((c[1].0, c[1].1.len()), (2, 0));
        }
        _ => panic!("there are chains to price"),
    }
    assert!(matches!(b.refresh_market("0xb"), MarketPlan::Nothing));
}

fn leg(chain_id: u64, symbol: &str, usd: &str) -> PricedChain {
    PricedChain {
        chain_id,
        meta: decode_token_meta(&Some(format!(
            "{{\"tokens\":[{{\"address\":\"0x1234567890\",\"symbol\":\"{symbol}\",\"decimals\":2}}]}}"
        ))),
        prices: decode_uniswap_prices(&Some(format!(
            "{{\"prices\":[{{\"address\":\"0x1234567890\",\"usd\":{usd}}},{{\"address\":\"ETH\",\"usd\":{usd}}}]}}"
        ))),
    }
}

#[test]
fn the_market_view_reads_the_last_refresh() {
    let mut b = ready();
    assert!(matches!(b.market_rows("0xa"), Ok(Some(ref c)) if c.is_empty()));
    b.record_balances("0xa", holdings());
    let before = b.market_rows("0xa").unwrap().unwrap();
    assert_eq!(before.len(), 2);
    assert_eq!(before[0].rows[1].symbol, "0x1234\u{2026}7890");
    assert!(before[0].rows[0].usd.is_none());
    b.record_legs(vec![leg(1, "OLD", "1"), leg(1, "NEW", "2.5"), leg(9, "X", "7")]);
    let after = b.market_rows("0xa").unwrap().unwrap();
    assert_eq!(after[0].chain_id, 1);
    assert_eq!(after[0].rows[1].symbol, "NEW");
    assert_eq!(after[0].rows[1].decimals, 2);
    assert_eq!(after[0].rows[1].usd.as_deref(), Some("2.5"));
    assert_eq!(after[0].rows[0].usd.as_deref(), Some("2.5"));
    assert_eq!(after[1].chain_id, 2);
    assert!(after[1].rows[0].usd.is_none());
}

#[test]
fn legs_of_different_chains_can_be_kept_in_any_order() {
    let mut one = ready();
    one.record_balances("0xa", holdings());
    one.record_legs(vec![leg(1, "A", "1"), leg(2, "B", "2")]);
    let mut other = ready();
    other.record_balances("0xa", holdings());
    other.record_legs(vec![leg(2, "B", "2"), leg(1, "A", "1")]);
    let usd = |b: &Backend, i: usize| b.market_rows("0xa").unwrap().unwrap()[i].rows[0].usd.clone();
    assert_eq!(usd(&one, 0), usd(&other, 0));
    assert_eq!(usd(&one, 1), Some("2.0".to_string()));
    assert_eq!(usd(&other, 1), Some("2.0".to_string()));
}

#[test]
fn a_holding_that_cannot_be_labelled_is_found_out() {
    let mut b = ready();
    b.record_balances(
        "0xa",
        vec![json("{\"chainId\":1,\"tokens\":[{\"address\":\"0xa\u{e9}\u{e9}bbbbb\",\"balance\":\"5\"}]}")],
    );
    assert!(matches!(b.market_rows("0xa"), Ok(None)));
}

#[test]
fn a_label_is_kept_among_the_others() {
    assert_eq!(labels_text(&None, "0xa", "main"), "{\n  \"0xa\": \"main\"\n}");
    let saved = Some("{\"0xb\":\"cold\",\"0xa\":\"old\"}".to_string());
    let again = load_labels(&Some(labels_text(&saved, "0xa", "main")));
    assert_eq!(again.get("0xa").map(String::as_str), Some("main"));
    assert_eq!(again.get("0xb").map(String::as_str), Some("cold"));
    assert_eq!(again.keys().len(), 2);
    let more = load_labels(&Some(relabel(again, "0xc", "hot \"wallet\"")));
    assert_eq!(more.get("0xc").map(String::as_str), Some("hot \"wallet\""));
    assert_eq!(more.keys().len(), 3);
}

#[test]
fn labels_that_are_not_texts_throughout_are_dropped() {
    for bad in [
        "nope",
        "[]",
        "{\"0xb\":7}",
        "{\"0xb\":\"cold\",\"0xc\":null}",
        "{\"a\":1,\"a\":\"x\"}",
    ] {
        let saved = Some(bad.to_string());
        assert!(load_labels(&saved).keys().is_empty());
        assert_eq!(labels_text(&saved, "0xa", "m"), "{\n  \"0xa\": \"m\"\n}");
    }
    assert!(load_labels(&None).keys().is_empty());
    let twice = load_labels(&Some("{\"a\":\"x\",\"a\":\"y\"}".to_string()));
    assert_eq!(twice.get("a").map(String::as_str), Some("y"));
}
