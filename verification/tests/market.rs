use wallet_backend::balances::read_reply;
use wallet_backend::json::Json;
use wallet_backend::market::{
    chain_rows, decode_token_meta, decode_uniswap_prices, held, labels_can_fit, market_answer,
    market_chains, price_request, rows_value, ChainRows, Quote, TokenMeta,
};
use wallet_backend::market_flow::{LegStep, MarketLeg};
use wallet_backend::strmap::StrMap;

const T: &str = "0xAbcdef0123456789abcdef0123456789abcdef01";

fn json(s: &str) -> Json {
    read_reply(&Some(s.to_string())).unwrap()
}

fn tokens(s: &str) -> Vec<Json> {
    match json(s) {
        Json::Arr(items) => items,
        _ => panic!("a list is wanted"),
    }
}

fn catalogue() -> StrMap<TokenMeta> {
    decode_token_meta(&Some(format!(
        "{{\"tokens\":[{{\"address\":\"{}\",\"symbol\":\"USDC\",\"decimals\":6}},{{\"address\":\"0xB\"}},{{\"symbol\":\"?\"}},{{\"address\":\"0xC\",\"decimals\":274}}]}}",
        T.to_uppercase()
    )))
}

fn prices() -> StrMap<Quote> {
    decode_uniswap_prices(&Some(format!(
        "{{\"prices\":[{{\"address\":\"{T}\",\"eth\":0.0004,\"usd\":1}},{{\"address\":\"ETH\",\"eth\":1,\"usd\":2500.5}},{{\"address\":\"0xd\",\"usd\":\"n/a\"}},{{\"usd\":3}}]}}"
    )))
}

#[test]
fn a_catalogue_is_keyed_by_address_in_lower_case() {
    let m = catalogue();
    let usdc = m.get(&T.to_lowercase()).unwrap();
    assert_eq!((usdc.symbol.as_str(), usdc.decimals), ("USDC", 6));
    let b = m.get("0xb").unwrap();
    assert_eq!((b.symbol.as_str(), b.decimals), ("?", 18));
    assert_eq!(m.get("0xc").unwrap().decimals, 18);
    assert!(m.get("0xB").is_none());
    assert_eq!(m.keys().len(), 3);
    assert!(decode_token_meta(&None).keys().is_empty());
    assert!(decode_token_meta(&Some("nope".to_string())).keys().is_empty());
    assert!(decode_token_meta(&Some("{\"tokens\":7}".to_string())).keys().is_empty());
}

#[test]
fn letters_beyond_ascii_are_lowered_too() {
    let m = decode_token_meta(&Some(
        "{\"tokens\":[{\"address\":\"\u{c9}A\",\"symbol\":\"E\"}]}".to_string(),
    ));
    assert_eq!(m.keys(), vec!["\u{e9}a".to_string()]);
    let list = tokens("[{\"address\":\"\u{c9}a\",\"balance\":\"1\"}]");
    assert_eq!(held(&list, &m), vec![("\u{c9}a".to_string(), 18)]);
}

#[test]
fn a_price_list_is_keyed_by_address_as_it_stands() {
    let p = prices();
    let t = p.get(T).unwrap();
    assert_eq!((t.eth.as_deref(), t.usd.as_deref()), (Some("0.0004"), Some("1.0")));
    assert_eq!(p.get("ETH").unwrap().usd.as_deref(), Some("2500.5"));
    let d = p.get("0xd").unwrap();
    assert!(d.eth.is_none() && d.usd.is_none());
    assert!(p.get(&T.to_lowercase()).is_none());
    assert_eq!(p.keys().len(), 3);
    assert!(decode_uniswap_prices(&None).keys().is_empty());
}

#[test]
fn the_later_of_two_entries_counts() {
    let m = decode_token_meta(&Some(
        "{\"tokens\":[{\"address\":\"0xa\",\"symbol\":\"A\"},{\"address\":\"0xA\",\"symbol\":\"B\"}]}".to_string(),
    ));
    assert_eq!(m.get("0xa").unwrap().symbol, "B");
}

#[test]
fn only_held_tokens_are_priced() {
    let list = tokens(&format!(
        "[{{\"address\":\"{T}\",\"balance\":\"5\"}},{{\"address\":\"0xb\",\"balance\":\"0\"}},{{\"address\":\"\",\"balance\":\"7\"}},{{\"balance\":\"7\"}},{{\"address\":\"0xd\"}},{{\"address\":\"0xe\",\"balance\":\"0x1\"}}]"
    ));
    assert_eq!(held(&list, &catalogue()), vec![(T.to_string(), 6), ("0xe".to_string(), 18)]);
    assert_eq!(
        price_request(&list, &catalogue()),
        format!("{{\"tokens\":[{{\"address\":\"{T}\",\"decimals\":6}},{{\"address\":\"0xe\",\"decimals\":18}}]}}")
    );
    assert_eq!(price_request(&Vec::new(), &StrMap::new()), "{\"tokens\":[]}");
}

#[test]
fn chains_without_an_id_are_not_priced() {
    let cached = json("{\"chains\":[{\"chainId\":0,\"tokens\":[1]},{\"tokens\":[1]},{\"chainId\":\"1\"},{\"chainId\":5,\"tokens\":[1,2]},{\"chainId\":6}]}");
    let chains = market_chains(&cached);
    assert_eq!(chains.len(), 2);
    assert_eq!((chains[0].0, chains[0].1.len()), (5, 2));
    assert_eq!((chains[1].0, chains[1].1.len()), (6, 0));
    assert!(market_chains(&json("{}")).is_empty());
}

fn chain() -> Json {
    json(&format!(
        "{{\"chainId\":1,\"native\":\"9\",\"tokens\":[{{\"address\":\"{T}\",\"balance\":\"5\"}},{{\"address\":\"0x1234567890\",\"balance\":\"6\"}},{{\"address\":\"0x1234567890\",\"balance\":\"7\"}}]}}"
    ))
}

#[test]
fn the_rows_of_a_chain_begin_with_its_own_coin() {
    assert!(labels_can_fit(&chain(), &catalogue()));
    let rows = chain_rows(&chain(), &catalogue(), &prices());
    assert_eq!(rows.len(), 4);
    assert_eq!(rows[0].address, "native");
    assert_eq!(rows[0].symbol, "ETH");
    assert_eq!(rows[0].decimals, 18);
    assert_eq!(rows[0].balance, "9");
    assert_eq!(rows[0].eth.as_deref(), Some("1.0"));
    assert_eq!(rows[0].usd.as_deref(), Some("2500.5"));
    assert_eq!(rows[1].address, T);
    assert_eq!(rows[1].symbol, "USDC");
    assert_eq!(rows[1].decimals, 6);
    assert_eq!(rows[1].balance, "5");
    assert_eq!(rows[1].usd.as_deref(), Some("1.0"));
    assert_eq!(rows[2].symbol, "0x1234\u{2026}7890");
    assert_eq!(rows[2].decimals, 18);
    assert_eq!(rows[3].balance, "6");
}

#[test]
fn a_holding_shows_without_a_price_or_a_catalogue() {
    let rows = chain_rows(&chain(), &StrMap::new(), &StrMap::new());
    assert_eq!(rows.len(), 4);
    assert!(rows[0].usd.is_none());
    assert_eq!(rows[1].symbol, "0xAbcd\u{2026}ef01");
    assert_eq!(rows[1].decimals, 18);
    assert!(rows[1].eth.is_none() && rows[1].usd.is_none());
    let empty = chain_rows(&json("{}"), &StrMap::new(), &StrMap::new());
    assert_eq!(empty.len(), 1);
    assert_eq!(empty[0].balance, "0");
}

#[test]
fn a_label_that_cannot_be_cut_is_found_out() {
    let odd = json("{\"tokens\":[{\"address\":\"0xa\u{e9}\u{e9}bbbbb\",\"balance\":\"5\"}]}");
    assert!(!labels_can_fit(&odd, &StrMap::new()));
    let named = decode_token_meta(&Some(
        "{\"tokens\":[{\"address\":\"0xa\u{e9}\u{e9}bbbbb\",\"symbol\":\"E\"}]}".to_string(),
    ));
    assert!(labels_can_fit(&odd, &named));
    assert_eq!(chain_rows(&odd, &named, &StrMap::new())[1].symbol, "E");
}

#[test]
fn the_market_view_is_json() {
    let rows = chain_rows(&json("{\"native\":\"9\"}"), &StrMap::new(), &prices());
    let c = ChainRows { chain_id: 7, rows };
    let v = rows_value(&c, &vec![Some("0.25".to_string())]);
    assert_eq!(
        market_answer("0xa", vec![v]),
        "{\"address\":\"0xa\",\"chains\":[{\"chainId\":7,\"items\":[{\"address\":\"native\",\"balance\":\"9\",\"decimals\":18,\"eth\":1.0,\"symbol\":\"ETH\",\"usd\":2500.5,\"valueUsd\":0.25}]}],\"ok\":true}"
    );
    let v = rows_value(&c, &Vec::new());
    assert!(v.render().contains("\"valueUsd\":null"));
    assert_eq!(market_answer("0xa", Vec::new()), "{\"address\":\"0xa\",\"chains\":[],\"ok\":true}");
}

#[test]
fn a_leg_asks_for_the_catalogue_and_then_for_prices() {
    let list = tokens(&format!("[{{\"address\":\"{T}\",\"balance\":\"5\"}}]"));
    let leg = MarketLeg::Start { chain_id: 10, tokens: list };
    let leg = match leg.step(&None) {
        LegStep::Tokens(10, leg) => leg,
        _ => panic!("the catalogue comes first"),
    };
    let catalogue = format!("{{\"tokens\":[{{\"address\":\"{T}\",\"symbol\":\"S\",\"decimals\":8}}]}}");
    let leg = match leg.step(&Some(catalogue)) {
        LegStep::Prices(10, req, leg) => {
            assert_eq!(req, format!("{{\"tokens\":[{{\"address\":\"{T}\",\"decimals\":8}}]}}"));
            leg
        }
        _ => panic!("the prices come second"),
    };
    match leg.step(&Some(format!("{{\"prices\":[{{\"address\":\"{T}\",\"usd\":2}}]}}"))) {
        LegStep::Done(c) => {
            assert_eq!(c.chain_id, 10);
            assert_eq!(c.meta.get(&T.to_lowercase()).unwrap().symbol, "S");
            assert_eq!(c.prices.get(T).unwrap().usd.as_deref(), Some("2.0"));
        }
        _ => panic!("nothing is left to ask"),
    }
}

#[test]
fn a_leg_whose_calls_fail_brings_nothing() {
    let list = tokens("[{\"address\":\"0xe\",\"balance\":\"5\"}]");
    let leg = MarketLeg::Start { chain_id: 10, tokens: list };
    let leg = match leg.step(&None) {
        LegStep::Tokens(_, leg) => leg,
        _ => panic!("the catalogue comes first"),
    };
    let leg = match leg.step(&None) {
        LegStep::Prices(_, req, leg) => {
            assert_eq!(req, "{\"tokens\":[{\"address\":\"0xe\",\"decimals\":18}]}");
            leg
        }
        _ => panic!("the prices come second"),
    };
    match leg.step(&None) {
        LegStep::Done(c) => {
            assert!(c.meta.keys().is_empty());
            assert!(c.prices.keys().is_empty());
        }
        _ => panic!("nothing is left to ask"),
    }
}
