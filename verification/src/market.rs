//! Prices of held tokens, joined with balances.

use crate::address::{can_shorten, short_addr, short_text};
use crate::amount::{amount_of, parse_u256_str};
use crate::balances::{opt_json, read_reply, replied};
use crate::jobs::opt_text;
use crate::json::{as_float, float_text, json_text, json_views, Json, JsonView, Num, NumView};
use crate::send::text_or;
use crate::strmap::StrMap;
use crate::text::{lowercase, lowered, same_text};
use vstd::prelude::*;

verus! {

/// How a token is shown.
pub struct TokenMeta {
    pub symbol: String,
    pub decimals: u8,
}

/// What a [`TokenMeta`] says.
pub struct MetaView {
    pub symbol: Seq<char>,
    pub decimals: u8,
}

impl View for TokenMeta {
    type V = MetaView;

    open spec fn view(&self) -> MetaView {
        MetaView { symbol: self.symbol@, decimals: self.decimals }
    }
}

/// What a token is worth, in ether and in dollars, each as a decimal number.
pub struct Quote {
    pub eth: Option<String>,
    pub usd: Option<String>,
}

/// What a [`Quote`] says.
pub struct QuoteView {
    pub eth: Option<Seq<char>>,
    pub usd: Option<Seq<char>>,
}

impl View for Quote {
    type V = QuoteView;

    open spec fn view(&self) -> QuoteView {
        QuoteView { eth: opt_text(self.eth), usd: opt_text(self.usd) }
    }
}

/// Token metadata by address.
pub open spec fn metas(m: Map<Seq<char>, TokenMeta>) -> Map<Seq<char>, MetaView> {
    m.map_values(|x: TokenMeta| x@)
}

/// Prices by address.
pub open spec fn quotes(m: Map<Seq<char>, Quote>) -> Map<Seq<char>, QuoteView> {
    m.map_values(|x: Quote| x@)
}

/// The items of an array member; none where there is no such array.
pub open spec fn items_of(v: Option<JsonView>, key: Seq<char>) -> Seq<JsonView> {
    match v {
        Some(j) => match j.get_arr(key) {
            Some(items) => items,
            None => Seq::empty(),
        },
        None => Seq::empty(),
    }
}

/// Metadata of catalogued tokens, by address in lower case: no symbol is `?`,
/// no decimals are eighteen, and of two entries for one address the later counts.
pub open spec fn meta_of(tokens: Seq<JsonView>) -> Map<Seq<char>, MetaView>
    decreases tokens.len(),
{
    if tokens.len() == 0 {
        Map::empty()
    } else {
        let t = tokens.last();
        let m = meta_of(tokens.drop_last());
        match t.get_str("address"@) {
            None => m,
            Some(a) => m.insert(
                lowered(a),
                MetaView {
                    symbol: text_or(t.get_str("symbol"@), "?"@),
                    decimals: match t.get_u64("decimals"@) {
                        Some(n) => (n % 256) as u8,
                        None => 18,
                    },
                },
            ),
        }
    }
}

/// Read a token catalogue, already parsed.
pub fn token_meta(v: &Option<Json>) -> (r: StrMap<TokenMeta>)
    ensures
        metas(r@) == meta_of(items_of(opt_json(*v), "tokens"@)),
{
    let mut m: StrMap<TokenMeta> = StrMap::new();
    assert(metas(m@) =~= Map::<Seq<char>, MetaView>::empty());
    let j: &Json = match v {
        Some(j) => j,
        None => return m,
    };
    let items: &Vec<Json> = match j.get_arr("tokens") {
        Some(items) => items,
        None => return m,
    };
    let n: usize = items.len();
    let ghost views = json_views(items@);
    let mut i: usize = 0;
    while i < n
        invariant
            i <= n,
            n == items@.len(),
            views == json_views(items@),
            metas(m@) == meta_of(views.take(i as int)),
        decreases n - i,
    {
        let t: &Json = &items[i];
        let ghost before = m@;
        proof {
            assert(views.take(i + 1).drop_last() =~= views.take(i as int));
            assert(views.take(i + 1).last() == t@);
        }
        if let Some(a) = t.get_str("address") {
            let symbol: String = match t.get_str("symbol") {
                Some(s) => s.clone(),
                None => "?".to_owned(),
            };
            let decimals: u8 = match t.get_u64("decimals") {
                Some(d) => (d % 256) as u8,
                None => 18,
            };
            let key: String = lowercase(a.as_str());
            let meta = TokenMeta { symbol, decimals };
            m.insert(key, meta);
            assert(metas(m@) =~= metas(before).insert(key@, meta@));
        }
        i += 1;
    }
    assert(views.take(n as int) =~= views);
    m
}

/// Read a token catalogue. One that cannot be read is empty.
pub fn decode_token_meta(reply: &Option<String>) -> (r: StrMap<TokenMeta>)
    ensures
        metas(r@) == meta_of(items_of(replied(opt_text(*reply)), "tokens"@)),
{
    token_meta(&read_reply(reply))
}

/// A number member as a decimal.
pub open spec fn price_view(j: JsonView, key: Seq<char>) -> Option<Seq<char>> {
    match j.get_num(key) {
        Some(n) => Some(float_text(n)),
        None => None,
    }
}

fn price_at(j: &Json, key: &str) -> (r: Option<String>)
    ensures
        opt_text(r) == price_view(j@, key@),
{
    match j.get_num(key) {
        Some(n) => Some(as_float(n)),
        None => None,
    }
}

/// Prices by address, as they were priced; of two for one address the later
/// counts.
pub open spec fn prices_of(prices: Seq<JsonView>) -> Map<Seq<char>, QuoteView>
    decreases prices.len(),
{
    if prices.len() == 0 {
        Map::empty()
    } else {
        let p = prices.last();
        let m = prices_of(prices.drop_last());
        match p.get_str("address"@) {
            None => m,
            Some(a) => m.insert(
                a,
                QuoteView { eth: price_view(p, "eth"@), usd: price_view(p, "usd"@) },
            ),
        }
    }
}

/// Read a price list, already parsed.
pub fn price_list(v: &Option<Json>) -> (r: StrMap<Quote>)
    ensures
        quotes(r@) == prices_of(items_of(opt_json(*v), "prices"@)),
{
    let mut m: StrMap<Quote> = StrMap::new();
    assert(quotes(m@) =~= Map::<Seq<char>, QuoteView>::empty());
    let j: &Json = match v {
        Some(j) => j,
        None => return m,
    };
    let items: &Vec<Json> = match j.get_arr("prices") {
        Some(items) => items,
        None => return m,
    };
    let n: usize = items.len();
    let ghost views = json_views(items@);
    let mut i: usize = 0;
    while i < n
        invariant
            i <= n,
            n == items@.len(),
            views == json_views(items@),
            quotes(m@) == prices_of(views.take(i as int)),
        decreases n - i,
    {
        let p: &Json = &items[i];
        let ghost before = m@;
        proof {
            assert(views.take(i + 1).drop_last() =~= views.take(i as int));
            assert(views.take(i + 1).last() == p@);
        }
        if let Some(a) = p.get_str("address") {
            let quote = Quote { eth: price_at(p, "eth"), usd: price_at(p, "usd") };
            let key: String = a.clone();
            m.insert(key, quote);
            assert(quotes(m@) =~= quotes(before).insert(key@, quote@));
        }
        i += 1;
    }
    assert(views.take(n as int) =~= views);
    m
}

/// Read a price list. One that cannot be read is empty.
pub fn decode_uniswap_prices(reply: &Option<String>) -> (r: StrMap<Quote>)
    ensures
        quotes(r@) == prices_of(items_of(replied(opt_text(*reply)), "prices"@)),
{
    price_list(&read_reply(reply))
}

/// The address of a token entry; empty where it has none.
pub open spec fn entry_address(t: JsonView) -> Seq<char> {
    text_or(t.get_str("address"@), ""@)
}

/// The balance of a token entry; zero where it has none.
pub open spec fn entry_balance(t: JsonView) -> Seq<char> {
    text_or(t.get_str("balance"@), "0"@)
}

/// A token entry with an address and a balance above zero.
pub open spec fn is_held(t: JsonView) -> bool {
    entry_address(t).len() > 0 && amount_of(entry_balance(t)) > 0
}

/// The decimals of a token; eighteen where the catalogue does not say.
pub open spec fn decimals_of(meta: Map<Seq<char>, MetaView>, address: Seq<char>) -> u8 {
    if meta.contains_key(lowered(address)) {
        meta[lowered(address)].decimals
    } else {
        18
    }
}

/// The held tokens among entries, with their decimals.
pub open spec fn held_tokens(tokens: Seq<JsonView>, meta: Map<Seq<char>, MetaView>) -> Seq<
    (Seq<char>, u8),
>
    decreases tokens.len(),
{
    if tokens.len() == 0 {
        Seq::empty()
    } else {
        let rest = held_tokens(tokens.drop_last(), meta);
        let t = tokens.last();
        if is_held(t) {
            rest.push((entry_address(t), decimals_of(meta, entry_address(t))))
        } else {
            rest
        }
    }
}

/// Held tokens.
pub open spec fn held_views(s: Seq<(String, u8)>) -> Seq<(Seq<char>, u8)> {
    s.map_values(|x: (String, u8)| (x.0@, x.1))
}

fn held_address(t: &Json) -> (r: Option<String>)
    ensures
        match r {
            Some(a) => is_held(t@) && a@ == entry_address(t@),
            None => !is_held(t@),
        },
{
    let addr: String = match t.get_str("address") {
        Some(a) => a.clone(),
        None => "".to_owned(),
    };
    let balance: String = match t.get_str("balance") {
        Some(b) => b.clone(),
        None => "0".to_owned(),
    };
    if addr.as_str().is_empty() || parse_u256_str(balance.as_str()).is_zero() {
        None
    } else {
        Some(addr)
    }
}

fn decimals_for(meta: &StrMap<TokenMeta>, address: &str) -> (r: u8)
    ensures
        r == decimals_of(metas(meta@), address@),
{
    match meta.get(lowercase(address).as_str()) {
        Some(m) => m.decimals,
        None => 18,
    }
}

/// The held tokens among entries, with their decimals.
pub fn held(tokens: &Vec<Json>, meta: &StrMap<TokenMeta>) -> (r: Vec<(String, u8)>)
    ensures
        held_views(r@) == held_tokens(json_views(tokens@), metas(meta@)),
{
    let mut r: Vec<(String, u8)> = Vec::new();
    let n: usize = tokens.len();
    let ghost views = json_views(tokens@);
    let mut i: usize = 0;
    assert(held_views(r@) =~= Seq::<(Seq<char>, u8)>::empty());
    while i < n
        invariant
            i <= n,
            n == tokens@.len(),
            views == json_views(tokens@),
            held_views(r@) == held_tokens(views.take(i as int), metas(meta@)),
        decreases n - i,
    {
        let t: &Json = &tokens[i];
        let ghost before = r@;
        proof {
            assert(views.take(i + 1).drop_last() =~= views.take(i as int));
            assert(views.take(i + 1).last() == t@);
        }
        if let Some(a) = held_address(t) {
            let d: u8 = decimals_for(meta, a.as_str());
            r.push((a, d));
            assert(held_views(r@) =~= held_views(before).push((a@, d)));
        }
        i += 1;
    }
    assert(views.take(n as int) =~= views);
    r
}

/// What is asked of the price dependency: the held tokens and their decimals.
pub open spec fn price_request_json(held: Seq<(Seq<char>, u8)>) -> JsonView {
    JsonView::object().with(
        "tokens"@,
        JsonView::Arr(
            Seq::new(
                held.len(),
                |i: int|
                    JsonView::object().with("address"@, JsonView::Str(held[i].0)).with(
                        "decimals"@,
                        JsonView::Num(NumView::Pos(held[i].1 as u64)),
                    ),
            ),
        ),
    )
}

/// Ask for the prices of the held tokens among entries.
pub fn price_request(tokens: &Vec<Json>, meta: &StrMap<TokenMeta>) -> (r: String)
    ensures
        r@ == json_text(price_request_json(held_tokens(json_views(tokens@), metas(meta@)))),
{
    let all: Vec<(String, u8)> = held(tokens, meta);
    let n: usize = all.len();
    let ghost want = held_views(all@);
    let mut items: Vec<Json> = Vec::new();
    let mut i: usize = 0;
    while i < n
        invariant
            i <= n,
            n == all@.len(),
            want == held_views(all@),
            items@.len() == i,
            forall|k: int|
                0 <= k < i ==> (#[trigger] items@[k])@ == JsonView::object().with(
                    "address"@,
                    JsonView::Str(want[k].0),
                ).with("decimals"@, JsonView::Num(NumView::Pos(want[k].1 as u64))),
        decreases n - i,
    {
        items.push(
            Json::object().with("address", Json::text(all[i].0.as_str())).with(
                "decimals",
                Json::Num(Num::Pos(all[i].1 as u64)),
            ),
        );
        i += 1;
    }
    proof {
        assert(json_views(items@) =~= Seq::new(
            want.len(),
            |i: int|
                JsonView::object().with("address"@, JsonView::Str(want[i].0)).with(
                    "decimals"@,
                    JsonView::Num(NumView::Pos(want[i].1 as u64)),
                ),
        ));
    }
    Json::object().with("tokens", Json::array(items)).render()
}

/// The chains of cached balances that have an id, each with its token entries.
pub open spec fn chains_of(chains: Seq<JsonView>) -> Seq<(u64, Seq<JsonView>)>
    decreases chains.len(),
{
    if chains.len() == 0 {
        Seq::empty()
    } else {
        let rest = chains_of(chains.drop_last());
        let c = chains.last();
        match c.get_u64("chainId"@) {
            Some(id) => if id == 0 {
                rest
            } else {
                rest.push((id, items_of(Some(c), "tokens"@)))
            },
            None => rest,
        }
    }
}

/// Chains with their token entries.
pub open spec fn chain_views(s: Seq<(u64, Vec<Json>)>) -> Seq<(u64, Seq<JsonView>)> {
    s.map_values(|x: (u64, Vec<Json>)| (x.0, json_views(x.1@)))
}

fn copied_items(items: &Vec<Json>) -> (r: Vec<Json>)
    ensures
        json_views(r@) == json_views(items@),
{
    let n: usize = items.len();
    let mut all: Vec<Json> = Vec::new();
    let mut i: usize = 0;
    while i < n
        invariant
            i <= n,
            n == items@.len(),
            all@.len() == i,
            forall|k: int| 0 <= k < i ==> (#[trigger] all@[k])@ == items@[k]@,
        decreases n - i,
    {
        all.push(items[i].copied());
        i += 1;
    }
    assert(json_views(all@) =~= json_views(items@));
    all
}

/// The chains to be priced, each with its token entries.
pub fn market_chains(cached: &Json) -> (r: Vec<(u64, Vec<Json>)>)
    ensures
        chain_views(r@) == chains_of(items_of(Some(cached@), "chains"@)),
{
    let mut r: Vec<(u64, Vec<Json>)> = Vec::new();
    assert(chain_views(r@) =~= Seq::<(u64, Seq<JsonView>)>::empty());
    let chains: &Vec<Json> = match cached.get_arr("chains") {
        Some(c) => c,
        None => return r,
    };
    let n: usize = chains.len();
    let ghost views = json_views(chains@);
    let mut i: usize = 0;
    while i < n
        invariant
            i <= n,
            n == chains@.len(),
            views == json_views(chains@),
            chain_views(r@) == chains_of(views.take(i as int)),
        decreases n - i,
    {
        let c: &Json = &chains[i];
        let ghost before = r@;
        proof {
            assert(views.take(i + 1).drop_last() =~= views.take(i as int));
            assert(views.take(i + 1).last() == c@);
        }
        if let Some(id) = c.get_u64("chainId") {
            if id != 0 {
                let tokens: Vec<Json> = match c.get_arr("tokens") {
                    Some(t) => copied_items(t),
                    None => Vec::new(),
                };
                assert(json_views(tokens@) =~= items_of(Some(c@), "tokens"@));
                r.push((id, tokens));
                assert(chain_views(r@) =~= chain_views(before).push(
                    (id, items_of(Some(c@), "tokens"@)),
                ));
            }
        }
        i += 1;
    }
    assert(views.take(n as int) =~= views);
    r
}

/// A holding: a token, or the chain's own coin.
pub struct MarketRow {
    pub address: String,
    pub symbol: String,
    pub decimals: u8,
    pub balance: String,
    pub eth: Option<String>,
    pub usd: Option<String>,
}

/// What a [`MarketRow`] says.
pub struct RowView {
    pub address: Seq<char>,
    pub symbol: Seq<char>,
    pub decimals: u8,
    pub balance: Seq<char>,
    pub eth: Option<Seq<char>>,
    pub usd: Option<Seq<char>>,
}

impl View for MarketRow {
    type V = RowView;

    open spec fn view(&self) -> RowView {
        RowView {
            address: self.address@,
            symbol: self.symbol@,
            decimals: self.decimals,
            balance: self.balance@,
            eth: opt_text(self.eth),
            usd: opt_text(self.usd),
        }
    }
}

/// The holdings on one chain.
pub struct ChainRows {
    pub chain_id: u64,
    pub rows: Vec<MarketRow>,
}

/// What [`ChainRows`] say.
pub struct ChainRowsView {
    pub chain_id: u64,
    pub rows: Seq<RowView>,
}

/// Rows.
pub open spec fn row_views(s: Seq<MarketRow>) -> Seq<RowView> {
    s.map_values(|r: MarketRow| r@)
}

impl View for ChainRows {
    type V = ChainRowsView;

    open spec fn view(&self) -> ChainRowsView {
        ChainRowsView { chain_id: self.chain_id, rows: row_views(self.rows@) }
    }
}

/// The row of the chain's own coin: one of it is one ether, and its price in
/// dollars is the one listed for ether.
pub open spec fn native_row(chain: JsonView, prices: Map<Seq<char>, QuoteView>) -> RowView {
    RowView {
        address: "native"@,
        symbol: "ETH"@,
        decimals: 18,
        balance: text_or(chain.get_str("native"@), "0"@),
        eth: Some("1.0"@),
        usd: if prices.contains_key("ETH"@) {
            prices["ETH"@].usd
        } else {
            None
        },
    }
}

/// The balance of the first entry for an address; zero where there is none.
pub open spec fn balance_for(tokens: Seq<JsonView>, address: Seq<char>) -> Seq<char>
    decreases tokens.len(),
{
    if tokens.len() == 0 {
        "0"@
    } else if tokens[0].get_str("address"@) == Some(address) {
        entry_balance(tokens[0])
    } else {
        balance_for(tokens.skip(1), address)
    }
}

/// The row of a held token: its symbol is the catalogue's, or its address in
/// short.
pub open spec fn token_row(
    tokens: Seq<JsonView>,
    held: (Seq<char>, u8),
    meta: Map<Seq<char>, MetaView>,
    prices: Map<Seq<char>, QuoteView>,
) -> RowView {
    RowView {
        address: held.0,
        symbol: if meta.contains_key(lowered(held.0)) {
            meta[lowered(held.0)].symbol
        } else {
            short_text(held.0)
        },
        decimals: held.1,
        balance: balance_for(tokens, held.0),
        eth: if prices.contains_key(held.0) {
            prices[held.0].eth
        } else {
            None
        },
        usd: if prices.contains_key(held.0) {
            prices[held.0].usd
        } else {
            None
        },
    }
}

/// The rows of a chain: its own coin, then the held tokens in their order.
pub open spec fn rows_of(
    chain: JsonView,
    meta: Map<Seq<char>, MetaView>,
    prices: Map<Seq<char>, QuoteView>,
) -> Seq<RowView> {
    let tokens = items_of(Some(chain), "tokens"@);
    let held = held_tokens(tokens, meta);
    seq![native_row(chain, prices)] + Seq::new(
        held.len(),
        |i: int| token_row(tokens, held[i], meta, prices),
    )
}

/// Every held token that the catalogue does not name can be shown by its
/// address in short.
pub open spec fn labels_fit(chain: JsonView, meta: Map<Seq<char>, MetaView>) -> bool {
    let held = held_tokens(items_of(Some(chain), "tokens"@), meta);
    forall|i: int|
        0 <= i < held.len() ==> meta.contains_key(lowered((#[trigger] held[i]).0)) || can_shorten(
            held[i].0,
        )
}

fn balance_at(tokens: &Vec<Json>, address: &str) -> (r: String)
    ensures
        r@ == balance_for(json_views(tokens@), address@),
{
    let n: usize = tokens.len();
    let ghost views = json_views(tokens@);
    let mut i: usize = 0;
    assert(views.skip(0) =~= views);
    while i < n
        invariant
            i <= n,
            n == tokens@.len(),
            views == json_views(tokens@),
            balance_for(views, address@) == balance_for(views.skip(i as int), address@),
        decreases n - i,
    {
        let t: &Json = &tokens[i];
        proof {
            assert(views.skip(i as int)[0] == t@);
            assert(views.skip(i as int).skip(1) =~= views.skip(i + 1));
        }
        if let Some(a) = t.get_str("address") {
            if same_text(a.as_str(), address) {
                return match t.get_str("balance") {
                    Some(b) => b.clone(),
                    None => "0".to_owned(),
                };
            }
        }
        i += 1;
    }
    "0".to_owned()
}

fn copied_text(s: &Option<String>) -> (r: Option<String>)
    ensures
        r == *s,
{
    match s {
        Some(t) => Some(t.clone()),
        None => None,
    }
}

fn tokens_in(chain: &Json) -> (r: Vec<Json>)
    ensures
        json_views(r@) == items_of(Some(chain@), "tokens"@),
{
    match chain.get_arr("tokens") {
        Some(t) => copied_items(t),
        None => {
            let none: Vec<Json> = Vec::new();
            assert(json_views(none@) =~= Seq::<JsonView>::empty());
            none
        },
    }
}

/// Whether every held token of a chain can be shown.
pub fn labels_can_fit(chain: &Json, meta: &StrMap<TokenMeta>) -> (r: bool)
    ensures
        r == labels_fit(chain@, metas(meta@)),
{
    let tokens: Vec<Json> = tokens_in(chain);
    let all: Vec<(String, u8)> = held(&tokens, meta);
    let n: usize = all.len();
    let ghost want = held_views(all@);
    let mut i: usize = 0;
    while i < n
        invariant
            i <= n,
            n == all@.len(),
            want == held_views(all@),
            want == held_tokens(items_of(Some(chain@), "tokens"@), metas(meta@)),
            forall|k: int|
                0 <= k < i ==> metas(meta@).contains_key(lowered((#[trigger] want[k]).0))
                    || can_shorten(want[k].0),
        decreases n - i,
    {
        let a: &str = all[i].0.as_str();
        assert(want[i as int].0 == a@);
        if !meta.contains_key(lowercase(a).as_str()) && !crate::address::short_addr_fits(a) {
            return false;
        }
        i += 1;
    }
    true
}

/// The rows of a chain.
pub fn chain_rows(chain: &Json, meta: &StrMap<TokenMeta>, prices: &StrMap<Quote>) -> (r: Vec<MarketRow>)
    requires
        labels_fit(chain@, metas(meta@)),
    ensures
        row_views(r@) == rows_of(chain@, metas(meta@), quotes(prices@)),
{
    let tokens: Vec<Json> = tokens_in(chain);
    let all: Vec<(String, u8)> = held(&tokens, meta);
    let n: usize = all.len();
    let ghost want = held_views(all@);
    let ghost rows = rows_of(chain@, metas(meta@), quotes(prices@));
    let native: String = match chain.get_str("native") {
        Some(b) => b.clone(),
        None => "0".to_owned(),
    };
    let usd: Option<String> = match prices.get("ETH") {
        Some(q) => copied_text(&q.usd),
        None => None,
    };
    let mut r: Vec<MarketRow> = Vec::new();
    r.push(
        MarketRow {
            address: "native".to_owned(),
            symbol: "ETH".to_owned(),
            decimals: 18,
            balance: native,
            eth: Some("1.0".to_owned()),
            usd,
        },
    );
    assert(row_views(r@) =~= rows.take(1));
    let mut i: usize = 0;
    while i < n
        invariant
            i <= n,
            n == all@.len(),
            want == held_views(all@),
            want == held_tokens(items_of(Some(chain@), "tokens"@), metas(meta@)),
            json_views(tokens@) == items_of(Some(chain@), "tokens"@),
            labels_fit(chain@, metas(meta@)),
            rows == rows_of(chain@, metas(meta@), quotes(prices@)),
            row_views(r@) == rows.take(i + 1),
        decreases n - i,
    {
        let a: &str = all[i].0.as_str();
        let decimals: u8 = all[i].1;
        assert(want[i as int] == (a@, decimals));
        let symbol: String = match meta.get(lowercase(a).as_str()) {
            Some(m) => m.symbol.clone(),
            None => short_addr(a),
        };
        let balance: String = balance_at(&tokens, a);
        let (eth, usd): (Option<String>, Option<String>) = match prices.get(a) {
            Some(q) => (copied_text(&q.eth), copied_text(&q.usd)),
            None => (None, None),
        };
        let row = MarketRow { address: a.to_owned(), symbol, decimals, balance, eth, usd };
        let ghost before = r@;
        r.push(row);
        proof {
            assert(rows[i + 1] == token_row(
                items_of(Some(chain@), "tokens"@),
                want[i as int],
                metas(meta@),
                quotes(prices@),
            ));
            assert(row@ == rows[i + 1]);
            assert(row_views(r@) =~= row_views(before).push(rows[i + 1]));
            assert(rows.take(i + 2) =~= rows.take(i + 1).push(rows[i + 1]));
        }
        i += 1;
    }
    assert(rows.take(n + 1) =~= rows);
    r
}

/// A decimal number or nothing, as JSON.
pub open spec fn num_or_null(s: Option<Seq<char>>) -> JsonView {
    match s {
        Some(t) => JsonView::Num(NumView::Float(t)),
        None => JsonView::Null,
    }
}

fn number_or_null(s: &Option<String>) -> (r: Json)
    ensures
        r@ == num_or_null(opt_text(*s)),
{
    match s {
        Some(t) => Json::Num(Num::Float(t.clone())),
        None => Json::Null,
    }
}

/// A holding as it is answered; `value` is what it is worth in dollars.
pub open spec fn row_json(row: RowView, value: Option<Seq<char>>) -> JsonView {
    JsonView::object().with("address"@, JsonView::Str(row.address)).with(
        "symbol"@,
        JsonView::Str(row.symbol),
    ).with("decimals"@, JsonView::Num(NumView::Pos(row.decimals as u64))).with(
        "balance"@,
        JsonView::Str(row.balance),
    ).with("eth"@, num_or_null(row.eth)).with("usd"@, num_or_null(row.usd)).with(
        "valueUsd"@,
        num_or_null(value),
    )
}

/// The values of holdings.
pub open spec fn value_views(s: Seq<Option<String>>) -> Seq<Option<Seq<char>>> {
    s.map_values(|v: Option<String>| opt_text(v))
}

/// The value at a place; nothing where there is none.
pub open spec fn value_at(values: Seq<Option<Seq<char>>>, i: int) -> Option<Seq<char>> {
    if 0 <= i < values.len() {
        values[i]
    } else {
        None
    }
}

/// The holdings of a chain as they are answered.
pub open spec fn rows_json(c: ChainRowsView, values: Seq<Option<Seq<char>>>) -> JsonView {
    JsonView::object().with("chainId"@, JsonView::Num(NumView::Pos(c.chain_id))).with(
        "items"@,
        JsonView::Arr(Seq::new(c.rows.len(), |i: int| row_json(c.rows[i], value_at(values, i)))),
    )
}

/// The holdings of a chain as they are answered; `values` are what they are
/// worth in dollars, in their order.
pub fn rows_value(c: &ChainRows, values: &Vec<Option<String>>) -> (r: Json)
    ensures
        r@ == rows_json(c@, value_views(values@)),
        r@.get_arr("items"@) matches Some(items) && {
            &&& items.len() == c.rows@.len()
            &&& forall|i: int|
                #![trigger items[i]]
                #![trigger c.rows@[i]]
                0 <= i < c.rows@.len() ==> {
                    &&& items[i].get_str("address"@) == Some(c.rows@[i].address@)
                    &&& items[i].get_str("balance"@) == Some(c.rows@[i].balance@)
                    &&& items[i].get("valueUsd"@) == Some(
                        if i < values@.len() && values@[i] is Some {
                            JsonView::Num(NumView::Float(values@[i]->0@))
                        } else {
                            JsonView::Null
                        },
                    )
                }
        },
{
    let n: usize = c.rows.len();
    let ghost vals = value_views(values@);
    let mut items: Vec<Json> = Vec::new();
    let mut i: usize = 0;
    while i < n
        invariant
            i <= n,
            n == c.rows@.len(),
            vals == value_views(values@),
            items@.len() == i,
            forall|k: int|
                0 <= k < i ==> (#[trigger] items@[k])@ == row_json(c@.rows[k], value_at(vals, k)),
        decreases n - i,
    {
        let row: &MarketRow = &c.rows[i];
        let value: Json = if i < values.len() {
            number_or_null(&values[i])
        } else {
            Json::Null
        };
        assert(value@ == num_or_null(value_at(vals, i as int)));
        items.push(
            Json::object().with("address", Json::text(row.address.as_str())).with(
                "symbol",
                Json::text(row.symbol.as_str()),
            ).with("decimals", Json::Num(Num::Pos(row.decimals as u64))).with(
                "balance",
                Json::text(row.balance.as_str()),
            ).with("eth", number_or_null(&row.eth)).with("usd", number_or_null(&row.usd)).with(
                "valueUsd",
                value,
            ),
        );
        i += 1;
    }
    assert(json_views(items@) =~= Seq::new(
        c@.rows.len(),
        |i: int| row_json(c@.rows[i], value_at(vals, i)),
    ));
    proof {
        crate::market_laws::law_each_holding_has_its_own_value(c@, vals);
        assert forall|k: int| 0 <= k < c.rows@.len() implies c@.rows[k] == (#[trigger] c.rows@[k])@ by {}
    }
    Json::object().with("chainId", Json::Num(Num::Pos(c.chain_id))).with("items", Json::array(items))
}

/// The market view of an account.
pub open spec fn market_json(address: Seq<char>, chains: Seq<JsonView>) -> JsonView {
    JsonView::object().with("ok"@, JsonView::Bool(true)).with("address"@, JsonView::Str(address)).with(
        "chains"@,
        JsonView::Arr(chains),
    )
}

/// The market view of an account, as it is answered.
pub fn market_answer(address: &str, chains: Vec<Json>) -> (r: String)
    ensures
        r@ == json_text(market_json(address@, json_views(chains@))),
{
    Json::object().with("ok", Json::Bool(true)).with("address", Json::text(address)).with(
        "chains",
        Json::array(chains),
    ).render()
}

} // verus!
