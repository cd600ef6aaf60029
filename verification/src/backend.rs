//! The state of the module, and the methods that read or change it.

use crate::address::{address_of, parse_addr, Address};
use crate::balances::{aggregate, aggregate_json};
use crate::flow::{parked, PendingJob, PendingView};
use crate::jobs::{opt_text, texts};
use crate::json::{
    err, err_json, json_parse, json_text, json_views, parse_json, res_json, Json, JsonView,
};
use crate::market::{
    chain_rows, chain_views, chains_of, items_of, labels_can_fit, labels_fit, market_chains, metas,
    quotes, rows_of, ChainRows, ChainRowsView, MetaView, Quote, QuoteView, TokenMeta,
};
use crate::send::not_ready;
use crate::store::{balances_view, watched_view};
use crate::strmap::StrMap;
use std::collections::HashMap;
use vstd::prelude::*;

verus! {

broadcast use vstd::std_specs::hash::group_hash_axioms;

/// What the module knows once it has its context.
pub struct State {
    /// Watched token addresses, by chain.
    pub watched: HashMap<u64, Vec<String>>,
    /// The last balances of each account.
    pub balances: StrMap<Json>,
    /// Prices, by chain.
    pub prices: HashMap<u64, StrMap<Quote>>,
    /// Token metadata, by chain.
    pub meta: HashMap<u64, StrMap<TokenMeta>>,
    /// Transactions parked on a human, by approval handle.
    pub jobs: StrMap<PendingJob>,
}

/// What a [`State`] holds.
pub struct StateView {
    pub watched: Map<u64, Seq<Seq<char>>>,
    pub balances: Map<Seq<char>, JsonView>,
    pub prices: Map<u64, Map<Seq<char>, QuoteView>>,
    pub meta: Map<u64, Map<Seq<char>, MetaView>>,
    pub jobs: Map<Seq<char>, PendingView>,
}

impl View for State {
    type V = StateView;

    open spec fn view(&self) -> StateView {
        StateView {
            watched: watched_view(self.watched@),
            balances: balances_view(self.balances@),
            prices: self.prices@.map_values(|m: StrMap<Quote>| quotes(m@)),
            meta: self.meta@.map_values(|m: StrMap<TokenMeta>| metas(m@)),
            jobs: parked(self.jobs@),
        }
    }
}

/// The module: without state until its context is ready.
pub struct Backend {
    pub state: Option<State>,
}

impl View for Backend {
    type V = Option<StateView>;

    open spec fn view(&self) -> Option<StateView> {
        match self.state {
            Some(st) => Some(st@),
            None => None,
        }
    }
}

/// The texts of an array that holds nothing else.
pub open spec fn text_items(items: Seq<JsonView>) -> Option<Seq<Seq<char>>> {
    if forall|i: int| 0 <= i < items.len() ==> (#[trigger] items[i]) is Str {
        Some(items.map_values(|j: JsonView| j->Str_0))
    } else {
        None
    }
}

/// A list of texts.
pub open spec fn text_list(v: Result<JsonView, Seq<char>>) -> Option<Seq<Seq<char>>> {
    match v {
        Ok(JsonView::Arr(items)) => text_items(items),
        _ => None,
    }
}

/// A list of texts or nothing.
pub open spec fn opt_texts(v: Option<Vec<String>>) -> Option<Seq<Seq<char>>> {
    match v {
        Some(v) => Some(texts(v@)),
        None => None,
    }
}

/// Read a list of texts from a parsed value.
pub fn string_list(v: &Result<Json, String>) -> (r: Option<Vec<String>>)
    ensures
        opt_texts(r) == text_list(res_json(*v)),
{
    let items: &Vec<Json> = match v {
        Ok(Json::Arr(items)) => items,
        _ => return None,
    };
    let ghost views = json_views(items@);
    assert(Json::Arr(*items)@->Arr_0 =~= views);
    let n: usize = items.len();
    let mut all: Vec<String> = Vec::new();
    let mut i: usize = 0;
    while i < n
        invariant
            i <= n,
            n == items@.len(),
            views == json_views(items@),
            all@.len() == i,
            text_list(res_json(*v)) == text_items(views),
            forall|k: int| 0 <= k < i ==> #[trigger] views[k] == JsonView::Str(all@[k]@),
        decreases n - i,
    {
        assert(views[i as int] == items@[i as int]@);
        match &items[i] {
            Json::Str(s) => {
                let ghost before = all@;
                all.push(s.clone());
                assert forall|k: int| 0 <= k < i + 1 implies #[trigger] views[k] == JsonView::Str(all@[k]@) by {
                    if k < i {
                        assert(all@[k] == before[k]);
                    }
                }
            },
            _ => return None,
        }
        i += 1;
    }
    assert(texts(all@) =~= views.map_values(|j: JsonView| j->Str_0));
    Some(all)
}

/// A chain whose balances are to be read.
pub struct ChainSpec {
    pub chain_id: u64,
    pub multicall: Option<String>,
    pub tokens: Vec<String>,
}

/// What a [`ChainSpec`] says.
pub struct ChainSpecView {
    pub chain_id: u64,
    pub multicall: Option<Seq<char>>,
    pub tokens: Seq<Seq<char>>,
}

impl View for ChainSpec {
    type V = ChainSpecView;

    open spec fn view(&self) -> ChainSpecView {
        ChainSpecView {
            chain_id: self.chain_id,
            multicall: opt_text(self.multicall),
            tokens: texts(self.tokens@),
        }
    }
}

impl StateView {
    /// The tokens watched on a chain; none where nothing was set.
    pub open spec fn watched_on(self, chain_id: u64) -> Seq<Seq<char>> {
        if self.watched.contains_key(chain_id) {
            self.watched[chain_id]
        } else {
            Seq::empty()
        }
    }

    /// The metadata known for a chain.
    pub open spec fn meta_on(self, chain_id: u64) -> Map<Seq<char>, MetaView> {
        if self.meta.contains_key(chain_id) {
            self.meta[chain_id]
        } else {
            Map::empty()
        }
    }

    /// The prices known for a chain.
    pub open spec fn prices_on(self, chain_id: u64) -> Map<Seq<char>, QuoteView> {
        if self.prices.contains_key(chain_id) {
            self.prices[chain_id]
        } else {
            Map::empty()
        }
    }
}

fn copied_texts(v: &Vec<String>) -> (r: Vec<String>)
    ensures
        texts(r@) == texts(v@),
{
    let n: usize = v.len();
    let mut all: Vec<String> = Vec::new();
    let mut i: usize = 0;
    while i < n
        invariant
            i <= n,
            n == v@.len(),
            all@.len() == i,
            forall|k: int| 0 <= k < i ==> #[trigger] all@[k] == v@[k],
        decreases n - i,
    {
        all.push(v[i].clone());
        i += 1;
    }
    assert(texts(all@) =~= texts(v@));
    all
}

fn json_texts(v: &Vec<String>) -> (r: Json)
    ensures
        r@ == texts_json(texts(v@)),
{
    let n: usize = v.len();
    let mut all: Vec<Json> = Vec::new();
    let mut i: usize = 0;
    while i < n
        invariant
            i <= n,
            n == v@.len(),
            all@.len() == i,
            forall|k: int| 0 <= k < i ==> (#[trigger] all@[k])@ == JsonView::Str(v@[k]@),
        decreases n - i,
    {
        all.push(Json::text(v[i].as_str()));
        i += 1;
    }
    assert(json_views(all@) =~= texts(v@).map_values(|s: Seq<char>| JsonView::Str(s)));
    Json::array(all)
}

impl State {
    /// The state a module begins with: what was saved, and nothing else.
    pub fn new(watched: HashMap<u64, Vec<String>>, balances: StrMap<Json>) -> (r: State)
        ensures
            r@.watched == watched_view(watched@),
            r@.balances == balances_view(balances@),
            r@.prices == Map::<u64, Map<Seq<char>, QuoteView>>::empty(),
            r@.meta == Map::<u64, Map<Seq<char>, MetaView>>::empty(),
            r@.jobs == Map::<Seq<char>, PendingView>::empty(),
    {
        let r = State {
            watched,
            balances,
            prices: HashMap::new(),
            meta: HashMap::new(),
            jobs: StrMap::new(),
        };
        assert(r@.prices =~= Map::<u64, Map<Seq<char>, QuoteView>>::empty());
        assert(r@.meta =~= Map::<u64, Map<Seq<char>, MetaView>>::empty());
        assert(r@.jobs =~= Map::<Seq<char>, PendingView>::empty());
        r
    }

    /// The tokens watched on a chain.
    pub fn watched_tokens(&self, chain_id: u64) -> (r: Vec<String>)
        ensures
            texts(r@) == self@.watched_on(chain_id),
    {
        match self.watched.get(&chain_id) {
            Some(v) => copied_texts(v),
            None => {
                let none: Vec<String> = Vec::new();
                assert(texts(none@) =~= Seq::<Seq<char>>::empty());
                none
            },
        }
    }

    /// Keep the balances of an account.
    pub fn record_balances(&mut self, address: &str, chains: Vec<Json>)
        ensures
            final(self)@ == old(self)@.recorded(address@, json_views(chains@)),
    {
        let ghost before = self.balances@;
        let value: Json = aggregate(address, chains);
        self.balances.insert(address.to_owned(), value);
        assert(balances_view(self.balances@) =~= balances_view(before).insert(
            address@,
            value@,
        ));
    }

    /// Keep what one chain's leg of a price refresh brought.
    pub fn record_market(&mut self, chain_id: u64, meta: StrMap<TokenMeta>, prices: StrMap<Quote>)
        ensures
            final(self)@ == old(self)@.priced(chain_id, metas(meta@), quotes(prices@)),
    {
        let ghost before = self@;
        self.prices.insert(chain_id, prices);
        self.meta.insert(chain_id, meta);
        assert(self@.prices =~= before.prices.insert(chain_id, quotes(prices@)));
        assert(self@.meta =~= before.meta.insert(chain_id, metas(meta@)));
    }
}

/// The id of a chain entry; nothing where it has none, or zero.
pub open spec fn entry_chain(c: JsonView) -> Option<u64> {
    match c.get_u64("chainId"@) {
        Some(id) => if id == 0 {
            None
        } else {
            Some(id)
        },
        None => None,
    }
}

impl StateView {
    /// The chain entries of an account's last balances.
    pub open spec fn balance_chains(self, address: Seq<char>) -> Seq<JsonView> {
        if self.balances.contains_key(address) {
            items_of(Some(self.balances[address]), "chains"@)
        } else {
            Seq::empty()
        }
    }

    /// The last balances of an account; no chains where there are none.
    pub open spec fn balances_of(self, address: Seq<char>) -> JsonView {
        if self.balances.contains_key(address) {
            self.balances[address]
        } else {
            aggregate_json(address, Seq::empty())
        }
    }

    /// The holdings on the chains of balances, as far as a chain has an id.
    pub open spec fn market_of(self, chains: Seq<JsonView>) -> Seq<ChainRowsView>
        decreases chains.len(),
    {
        if chains.len() == 0 {
            Seq::empty()
        } else {
            let rest = self.market_of(chains.drop_last());
            let c = chains.last();
            match entry_chain(c) {
                Some(id) => rest.push(
                    ChainRowsView {
                        chain_id: id,
                        rows: rows_of(c, self.meta_on(id), self.prices_on(id)),
                    },
                ),
                None => rest,
            }
        }
    }

    /// Every holding on the chains of balances can be labelled.
    pub open spec fn labels_all_fit(self, chains: Seq<JsonView>) -> bool {
        forall|i: int|
            #![trigger chains[i]]
            0 <= i < chains.len() && entry_chain(chains[i]) is Some ==> labels_fit(
                chains[i],
                self.meta_on(entry_chain(chains[i])->0),
            )
    }

    /// A chain's watched tokens set.
    pub open spec fn watching(self, chain_id: u64, tokens: Seq<Seq<char>>) -> StateView {
        StateView { watched: self.watched.insert(chain_id, tokens), ..self }
    }

    /// An account's balances recorded.
    pub open spec fn recorded(self, address: Seq<char>, chains: Seq<JsonView>) -> StateView {
        StateView {
            balances: self.balances.insert(address, aggregate_json(address, chains)),
            ..self
        }
    }

    /// A chain's metadata and prices recorded.
    pub open spec fn priced(
        self,
        chain_id: u64,
        meta: Map<Seq<char>, MetaView>,
        prices: Map<Seq<char>, QuoteView>,
    ) -> StateView {
        StateView {
            prices: self.prices.insert(chain_id, prices),
            meta: self.meta.insert(chain_id, meta),
            ..self
        }
    }
}

/// A member in the envelope of an answer.
pub open spec fn member_json(key: Seq<char>, value: JsonView) -> JsonView {
    JsonView::object().with("ok"@, JsonView::Bool(true)).with(key, value)
}

/// A member in the envelope of an answer, or the error of a module without
/// state.
pub open spec fn member_text(ready: bool, key: Seq<char>, value: JsonView) -> Seq<char> {
    if ready {
        json_text(member_json(key, value))
    } else {
        json_text(err_json(not_ready()))
    }
}

/// Texts as a JSON array.
pub open spec fn texts_json(v: Seq<Seq<char>>) -> JsonView {
    JsonView::Arr(v.map_values(|s: Seq<char>| JsonView::Str(s)))
}

/// The chains whose balances are to be read.
pub open spec fn spec_views(s: Seq<ChainSpec>) -> Seq<ChainSpecView> {
    s.map_values(|c: ChainSpec| c@)
}

/// Configured chains, each with the address of its batch contract.
pub open spec fn configured_views(s: Seq<(u64, Option<String>)>) -> Seq<(u64, Option<Seq<char>>)> {
    s.map_values(|c: (u64, Option<String>)| (c.0, opt_text(c.1)))
}

/// What a refresh of balances reads: every configured chain, with its watched
/// tokens.
pub open spec fn balance_specs(st: StateView, chains: Seq<(u64, Option<Seq<char>>)>) -> Seq<
    ChainSpecView,
> {
    Seq::new(
        chains.len(),
        |i: int|
            ChainSpecView {
                chain_id: chains[i].0,
                multicall: chains[i].1,
                tokens: st.watched_on(chains[i].0),
            },
    )
}

/// What a refresh of prices begins with.
pub enum MarketPlan {
    /// The module has no state.
    NotReady,
    /// There are no balances: nothing is to be priced.
    Nothing,
    /// The chains to be priced, each with its token entries.
    Chains(Vec<(u64, Vec<Json>)>),
}

/// What a [`MarketPlan`] says.
pub enum MarketPlanView {
    NotReady,
    Nothing,
    Chains(Seq<(u64, Seq<JsonView>)>),
}

impl View for MarketPlan {
    type V = MarketPlanView;

    open spec fn view(&self) -> MarketPlanView {
        match self {
            MarketPlan::NotReady => MarketPlanView::NotReady,
            MarketPlan::Nothing => MarketPlanView::Nothing,
            MarketPlan::Chains(c) => MarketPlanView::Chains(chain_views(c@)),
        }
    }
}

/// What a refresh of prices begins with.
pub open spec fn market_plan(st: Option<StateView>, address: Seq<char>) -> MarketPlanView {
    match st {
        None => MarketPlanView::NotReady,
        Some(st) => if st.balances.contains_key(address) {
            MarketPlanView::Chains(chains_of(st.balance_chains(address)))
        } else {
            MarketPlanView::Nothing
        },
    }
}

/// Holdings by chain.
pub open spec fn market_views(s: Seq<ChainRows>) -> Seq<ChainRowsView> {
    s.map_values(|c: ChainRows| c@)
}

/// A holdings view, or the message of a module without state.
pub open spec fn res_market(r: Result<Option<Vec<ChainRows>>, String>) -> Result<
    Option<Seq<ChainRowsView>>,
    Seq<char>,
> {
    match r {
        Ok(Some(v)) => Ok(Some(market_views(v@))),
        Ok(None) => Ok(None),
        Err(e) => Err(e@),
    }
}

/// The holdings of an account; nothing where one of them cannot be labelled.
pub open spec fn market_rows_view(st: Option<StateView>, address: Seq<char>) -> Result<
    Option<Seq<ChainRowsView>>,
    Seq<char>,
> {
    match st {
        None => Err(not_ready()),
        Some(st) => if st.labels_all_fit(st.balance_chains(address)) {
            Ok(Some(st.market_of(st.balance_chains(address))))
        } else {
            Ok(None)
        },
    }
}

fn chain_of(c: &Json) -> (r: Option<u64>)
    ensures
        r == entry_chain(c@),
{
    match c.get_u64("chainId") {
        Some(id) => if id == 0 {
            None
        } else {
            Some(id)
        },
        None => None,
    }
}

impl State {
    /// The holdings on the chains of balances; nothing where one of them cannot
    /// be labelled.
    fn rows_on(&self, chains: &Vec<Json>) -> (r: Option<Vec<ChainRows>>)
        ensures
            match r {
                Some(v) => self@.labels_all_fit(json_views(chains@)) && market_views(v@)
                    == self@.market_of(json_views(chains@)),
                None => !self@.labels_all_fit(json_views(chains@)),
            },
    {
        let no_meta: StrMap<TokenMeta> = StrMap::new();
        let no_prices: StrMap<Quote> = StrMap::new();
        proof {
            assert(metas(no_meta@) =~= Map::<Seq<char>, MetaView>::empty());
            assert(quotes(no_prices@) =~= Map::<Seq<char>, QuoteView>::empty());
        }
        let ghost views = json_views(chains@);
        let n: usize = chains.len();
        let mut all: Vec<ChainRows> = Vec::new();
        assert(market_views(all@) =~= Seq::<ChainRowsView>::empty());
        let mut i: usize = 0;
        while i < n
            invariant
                i <= n,
                n == chains@.len(),
                views == json_views(chains@),
                metas(no_meta@) == Map::<Seq<char>, MetaView>::empty(),
                quotes(no_prices@) == Map::<Seq<char>, QuoteView>::empty(),
                market_views(all@) == self@.market_of(views.take(i as int)),
                forall|k: int|
                    #![trigger views[k]]
                    0 <= k < i && entry_chain(views[k]) is Some ==> labels_fit(
                        views[k],
                        self@.meta_on(entry_chain(views[k])->0),
                    ),
            decreases n - i,
        {
            let c: &Json = &chains[i];
            let ghost before = all@;
            proof {
                assert(views.take(i + 1).drop_last() =~= views.take(i as int));
                assert(views.take(i + 1).last() == c@);
                assert(views[i as int] == c@);
            }
            if let Some(id) = chain_of(c) {
                let meta: &StrMap<TokenMeta> = match self.meta.get(&id) {
                    Some(m) => m,
                    None => &no_meta,
                };
                let prices: &StrMap<Quote> = match self.prices.get(&id) {
                    Some(p) => p,
                    None => &no_prices,
                };
                assert(metas(meta@) == self@.meta_on(id));
                assert(quotes(prices@) == self@.prices_on(id));
                if !labels_can_fit(c, meta) {
                    return None;
                }
                let found = ChainRows { chain_id: id, rows: chain_rows(c, meta, prices) };
                all.push(found);
                assert(market_views(all@) =~= market_views(before).push(found@));
            }
            i += 1;
        }
        assert(views.take(n as int) =~= views);
        Some(all)
    }
}

impl Backend {
    /// A module without state.
    pub fn new() -> (r: Backend)
        ensures
            r@ is None,
    {
        Backend { state: None }
    }

    /// Whether the module has its state.
    pub fn ready(&self) -> (r: bool)
        ensures
            r == (self@ is Some),
    {
        self.state.is_some()
    }

    /// Take up what was saved.
    pub fn on_context_ready(&mut self, watched: HashMap<u64, Vec<String>>, balances: StrMap<Json>)
        ensures
            final(self)@ == Some(
                StateView {
                    watched: watched_view(watched@),
                    balances: balances_view(balances@),
                    prices: Map::empty(),
                    meta: Map::empty(),
                    jobs: Map::empty(),
                },
            ),
    {
        self.state = Some(State::new(watched, balances));
    }

    /// An answer with one member: its value once there is state, else the error.
    fn member_answer(&self, key: &str, value: Json) -> (r: String)
        ensures
            r@ == member_text(self@ is Some, key@, value@),
    {
        if self.ready() {
            Json::object().with("ok", Json::Bool(true)).with(key, value).render()
        } else {
            err("backend not initialized (context not ready)")
        }
    }

    /// The proxy settings, as they are answered.
    pub fn get_proxy_config(&self, proxy: Json) -> (r: String)
        ensures
            r@ == member_text(self@ is Some, "proxy"@, proxy@),
    {
        self.member_answer("proxy", proxy)
    }

    /// The configured chains, as they are answered.
    pub fn get_chains(&self, chains: Json) -> (r: String)
        ensures
            r@ == member_text(self@ is Some, "chains"@, chains@),
    {
        self.member_answer("chains", chains)
    }

    /// The transactions of an account, as they are answered.
    pub fn get_history(&self, history: Json) -> (r: String)
        ensures
            r@ == member_text(self@ is Some, "history"@, history@),
    {
        self.member_answer("history", history)
    }

    /// Watch these tokens on a chain. `false`, and nothing changes, where the
    /// list was unreadable or the module has no state.
    pub fn watch(&mut self, chain_id: i64, tokens: Option<Vec<String>>) -> (r: bool)
        ensures
            r == (tokens is Some && old(self)@ is Some),
            final(self)@ == (if r {
                Some(old(self)@->0.watching(chain_id as u64, opt_texts(tokens)->0))
            } else {
                old(self)@
            }),
    {
        let tokens: Vec<String> = match tokens {
            Some(t) => t,
            None => return false,
        };
        match &mut self.state {
            None => false,
            Some(st) => {
                let ghost before = st@;
                let key: u64 = #[verifier::truncate] (chain_id as u64);
                st.watched.insert(key, tokens);
                assert(st@.watched =~= before.watched.insert(key, texts(tokens@)));
                true
            },
        }
    }

    /// Watch the tokens of a JSON array of addresses on a chain.
    pub fn set_watched_tokens(&mut self, chain_id: i64, addresses_json: &str) -> (r: bool)
        ensures
            r == (text_list(json_parse(addresses_json@)) is Some && old(self)@ is Some),
            final(self)@ == (if r {
                Some(
                    old(self)@->0.watching(
                        chain_id as u64,
                        text_list(json_parse(addresses_json@))->0,
                    ),
                )
            } else {
                old(self)@
            }),
    {
        let list: Option<Vec<String>> = string_list(&parse_json(addresses_json));
        self.watch(chain_id, list)
    }

    /// The tokens watched on a chain, as they are answered.
    pub fn get_watched_tokens(&self, chain_id: i64) -> (r: String)
        ensures
            match self@ {
                Some(st) => r@ == json_text(
                    member_json("tokens"@, texts_json(st.watched_on(chain_id as u64))),
                ),
                None => r@ == json_text(err_json(not_ready())),
            },
    {
        let tokens: Vec<String> = match &self.state {
            Some(st) => st.watched_tokens(#[verifier::truncate] (chain_id as u64)),
            None => Vec::new(),
        };
        self.member_answer("tokens", json_texts(&tokens))
    }

    /// The last balances of an account, as they are answered.
    pub fn get_balances(&self, address: &str) -> (r: String)
        ensures
            match self@ {
                Some(st) => r@ == json_text(member_json("balances"@, st.balances_of(address@))),
                None => r@ == json_text(err_json(not_ready())),
            },
    {
        let none: Vec<Json> = Vec::new();
        assert(json_views(none@) =~= Seq::<JsonView>::empty());
        let value: Json = match &self.state {
            Some(st) => match st.balances.get(address) {
                Some(v) => v.copied(),
                None => aggregate(address, none),
            },
            None => Json::Null,
        };
        self.member_answer("balances", value)
    }

    /// What a refresh of an account's balances reads: its address, and every
    /// configured chain with its watched tokens. Nothing where the address is
    /// unreadable or the module has no state.
    pub fn refresh_balances(&self, address: &str, chains: &Vec<(u64, Option<String>)>) -> (r: Option<
        (Address, Vec<ChainSpec>),
    >)
        ensures
            match r {
                Some((holder, specs)) => address_of(address@) == Ok::<Seq<u8>, Seq<char>>(holder@)
                    && self@ is Some && spec_views(specs@) == balance_specs(
                    self@->0,
                    configured_views(chains@),
                ),
                None => address_of(address@) is Err || self@ is None,
            },
    {
        let holder: Address = match parse_addr(address) {
            Ok(a) => a,
            Err(_) => return None,
        };
        let st: &State = match &self.state {
            Some(st) => st,
            None => return None,
        };
        let n: usize = chains.len();
        let ghost want = balance_specs(st@, configured_views(chains@));
        let mut all: Vec<ChainSpec> = Vec::new();
        let mut i: usize = 0;
        while i < n
            invariant
                i <= n,
                n == chains@.len(),
                want == balance_specs(st@, configured_views(chains@)),
                all@.len() == i,
                forall|k: int| 0 <= k < i ==> (#[trigger] all@[k])@ == want[k],
            decreases n - i,
        {
            let multicall: Option<String> = match &chains[i].1 {
                Some(m) => Some(m.clone()),
                None => None,
            };
            let spec = ChainSpec {
                chain_id: chains[i].0,
                multicall,
                tokens: st.watched_tokens(chains[i].0),
            };
            assert(configured_views(chains@)[i as int] == (spec.chain_id, opt_text(spec.multicall)));
            assert(spec@ == want[i as int]);
            all.push(spec);
            i += 1;
        }
        assert(spec_views(all@) =~= want);
        Some((holder, all))
    }

    /// Keep what a refresh of an account's balances brought.
    pub fn record_balances(&mut self, address: &str, chains: Vec<Json>)
        ensures
            final(self)@ == (match old(self)@ {
                Some(st) => Some(st.recorded(address@, json_views(chains@))),
                None => None,
            }),
    {
        if let Some(st) = &mut self.state {
            st.record_balances(address, chains);
        }
    }

    /// What a refresh of an account's prices begins with.
    pub fn refresh_market(&self, address: &str) -> (r: MarketPlan)
        ensures
            r@ == market_plan(self@, address@),
    {
        match &self.state {
            None => MarketPlan::NotReady,
            Some(st) => match st.balances.get(address) {
                None => MarketPlan::Nothing,
                Some(cached) => MarketPlan::Chains(market_chains(cached)),
            },
        }
    }

    /// Keep what one chain's leg of a price refresh brought.
    pub fn record_market(&mut self, chain_id: u64, meta: StrMap<TokenMeta>, prices: StrMap<Quote>)
        ensures
            final(self)@ == (match old(self)@ {
                Some(st) => Some(st.priced(chain_id, metas(meta@), quotes(prices@))),
                None => None,
            }),
    {
        if let Some(st) = &mut self.state {
            st.record_market(chain_id, meta, prices);
        }
    }

    /// The holdings of an account by chain, with what is known of their prices.
    /// `Ok(None)` where a holding has an address that cannot be cut short to
    /// label it.
    pub fn market_rows(&self, address: &str) -> (r: Result<Option<Vec<ChainRows>>, String>)
        ensures
            res_market(r) == market_rows_view(self@, address@),
    {
        let st: &State = match &self.state {
            Some(st) => st,
            None => return Err("backend not initialized (context not ready)".to_owned()),
        };
        let none: Vec<Json> = Vec::new();
        assert(json_views(none@) =~= Seq::<JsonView>::empty());
        let chains: &Vec<Json> = match st.balances.get(address) {
            Some(cached) => match cached.get_arr("chains") {
                Some(c) => c,
                None => &none,
            },
            None => &none,
        };
        assert(json_views(chains@) =~= st@.balance_chains(address@));
        Ok(st.rows_on(chains))
    }
}

impl Default for Backend {
    fn default() -> (r: Backend)
        ensures
            r@ is None,
    {
        Backend::new()
    }
}

} // verus!
