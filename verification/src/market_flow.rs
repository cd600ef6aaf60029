//! One chain's leg of a price refresh: the catalogue first, then the prices of
//! what is held.

use crate::backend::{Backend, StateView};
use crate::balances::{opt_json, read_reply, replied};
use crate::jobs::opt_text;
use crate::json::{json_text, json_views, Json, JsonView};
use crate::market::{
    held_tokens, items_of, meta_of, metas, price_list, price_request, price_request_json, prices_of,
    quotes, token_meta, MetaView, Quote, QuoteView, TokenMeta,
};
use crate::strmap::StrMap;
use vstd::prelude::*;

verus! {

/// A leg and what it waits for.
pub enum MarketLeg {
    /// Nothing is asked yet.
    Start { chain_id: u64, tokens: Vec<Json> },
    /// The catalogue is asked for.
    Catalogue { chain_id: u64, tokens: Vec<Json> },
    /// The prices are asked for.
    Prices { chain_id: u64, meta: StrMap<TokenMeta> },
}

/// What a [`MarketLeg`] says.
pub enum LegView {
    Start { chain_id: u64, tokens: Seq<JsonView> },
    Catalogue { chain_id: u64, tokens: Seq<JsonView> },
    Prices { chain_id: u64, meta: Map<Seq<char>, MetaView> },
}

impl View for MarketLeg {
    type V = LegView;

    open spec fn view(&self) -> LegView {
        match self {
            MarketLeg::Start { chain_id, tokens } => LegView::Start {
                chain_id: *chain_id,
                tokens: json_views(tokens@),
            },
            MarketLeg::Catalogue { chain_id, tokens } => LegView::Catalogue {
                chain_id: *chain_id,
                tokens: json_views(tokens@),
            },
            MarketLeg::Prices { chain_id, meta } => LegView::Prices {
                chain_id: *chain_id,
                meta: metas(meta@),
            },
        }
    }
}

/// What a leg brought.
pub struct PricedChain {
    pub chain_id: u64,
    pub meta: StrMap<TokenMeta>,
    pub prices: StrMap<Quote>,
}

/// What a [`PricedChain`] says.
pub struct PricedView {
    pub chain_id: u64,
    pub meta: Map<Seq<char>, MetaView>,
    pub prices: Map<Seq<char>, QuoteView>,
}

impl View for PricedChain {
    type V = PricedView;

    open spec fn view(&self) -> PricedView {
        PricedView {
            chain_id: self.chain_id,
            meta: metas(self.meta@),
            prices: quotes(self.prices@),
        }
    }
}

/// What a leg wants next.
pub enum LegStep {
    /// The token catalogue of a chain.
    Tokens(i64, MarketLeg),
    /// The prices on a chain of the tokens that the request names.
    Prices(i64, String, MarketLeg),
    /// Nothing more.
    Done(PricedChain),
}

/// What a [`LegStep`] says.
pub enum LegStepView {
    Tokens(i64, LegView),
    Prices(i64, Seq<char>, LegView),
    Done(PricedView),
}

impl View for LegStep {
    type V = LegStepView;

    open spec fn view(&self) -> LegStepView {
        match self {
            LegStep::Tokens(id, leg) => LegStepView::Tokens(*id, leg@),
            LegStep::Prices(id, req, leg) => LegStepView::Prices(*id, req@, leg@),
            LegStep::Done(c) => LegStepView::Done(c@),
        }
    }
}

/// What a leg does with a reply; a reply that failed or cannot be read is
/// nothing, and counts as an empty catalogue or an empty price list.
pub open spec fn leg_next(leg: LegView, reply: Option<JsonView>) -> LegStepView {
    match leg {
        LegView::Start { chain_id, tokens } => LegStepView::Tokens(
            chain_id as i64,
            LegView::Catalogue { chain_id, tokens },
        ),
        LegView::Catalogue { chain_id, tokens } => {
            let meta = meta_of(items_of(reply, "tokens"@));
            LegStepView::Prices(
                chain_id as i64,
                json_text(price_request_json(held_tokens(tokens, meta))),
                LegView::Prices { chain_id, meta },
            )
        },
        LegView::Prices { chain_id, meta } => LegStepView::Done(
            PricedView { chain_id, meta, prices: prices_of(items_of(reply, "prices"@)) },
        ),
    }
}

impl MarketLeg {
    /// Take a reply, already parsed.
    pub fn advance(self, reply: &Option<Json>) -> (r: LegStep)
        ensures
            r@ == leg_next(self@, opt_json(*reply)),
    {
        match self {
            MarketLeg::Start { chain_id, tokens } => LegStep::Tokens(
                #[verifier::truncate] (chain_id as i64),
                MarketLeg::Catalogue { chain_id, tokens },
            ),
            MarketLeg::Catalogue { chain_id, tokens } => {
                let meta: StrMap<TokenMeta> = token_meta(reply);
                let request: String = price_request(&tokens, &meta);
                LegStep::Prices(
                    #[verifier::truncate] (chain_id as i64),
                    request,
                    MarketLeg::Prices { chain_id, meta },
                )
            },
            MarketLeg::Prices { chain_id, meta } => LegStep::Done(
                PricedChain { chain_id, meta, prices: price_list(reply) },
            ),
        }
    }

    /// Take a reply, or nothing where the call failed.
    pub fn step(self, reply: &Option<String>) -> (r: LegStep)
        ensures
            r@ == leg_next(self@, replied(opt_text(*reply))),
    {
        self.advance(&read_reply(reply))
    }
}

/// What legs brought.
pub open spec fn priced_views(s: Seq<PricedChain>) -> Seq<PricedView> {
    s.map_values(|c: PricedChain| c@)
}

/// A state with what legs brought, in their order.
pub open spec fn priced_all(st: StateView, legs: Seq<PricedView>) -> StateView
    decreases legs.len(),
{
    if legs.len() == 0 {
        st
    } else {
        let leg = legs[0];
        priced_all(st.priced(leg.chain_id, leg.meta, leg.prices), legs.skip(1))
    }
}

impl Backend {
    /// Keep what the legs of a price refresh brought, in their order.
    pub fn record_legs(&mut self, legs: Vec<PricedChain>)
        ensures
            final(self)@ == (match old(self)@ {
                Some(st) => Some(priced_all(st, priced_views(legs@))),
                None => None,
            }),
    {
        let ghost all = priced_views(legs@);
        let ghost st0 = self@;
        let ghost n = legs@.len();
        let mut legs: Vec<PricedChain> = legs;
        assert(all.skip(0) =~= all);
        while legs.len() > 0
            invariant
                legs@.len() <= n,
                n == all.len(),
                priced_views(legs@) == all.skip(n - legs@.len()),
                self@ is Some == st0 is Some,
                self@ is Some ==> priced_all(st0->0, all) == priced_all(
                    self@->0,
                    all.skip(n - legs@.len()),
                ),
            decreases legs.len(),
        {
            let ghost rest = all.skip(n - legs@.len());
            let ghost before = legs@;
            let leg: PricedChain = legs.remove(0);
            proof {
                assert(rest[0] == priced_views(before)[0]);
                assert(rest[0] == leg@);
                assert(rest.skip(1) =~= all.skip(n - legs@.len()));
                assert(priced_views(legs@) =~= rest.skip(1));
            }
            self.record_market(leg.chain_id, leg.meta, leg.prices);
        }
    }
}

/// A leg makes two calls, one after the other: the chain's catalogue, then the
/// prices of the tokens that the balances hold; what it brings is what the two
/// replies said.
pub proof fn law_leg_asks_twice(
    chain_id: u64,
    tokens: Seq<JsonView>,
    first: Option<JsonView>,
    catalogue: Option<JsonView>,
    prices: Option<JsonView>,
)
    ensures
        ({
            let meta = meta_of(items_of(catalogue, "tokens"@));
            let asked = leg_next(LegView::Start { chain_id, tokens }, first);
            let named = leg_next(asked->Tokens_1, catalogue);
            let done = leg_next(named->Prices_2, prices);
            &&& asked == LegStepView::Tokens(
                chain_id as i64,
                LegView::Catalogue { chain_id, tokens },
            )
            &&& named == LegStepView::Prices(
                chain_id as i64,
                json_text(price_request_json(held_tokens(tokens, meta))),
                LegView::Prices { chain_id, meta },
            )
            &&& done == LegStepView::Done(
                PricedView { chain_id, meta, prices: prices_of(items_of(prices, "prices"@)) },
            )
        }),
{
}

/// Legs of different chains can be kept in any order.
pub proof fn law_legs_are_independent(st: StateView, a: PricedView, b: PricedView)
    requires
        a.chain_id != b.chain_id,
    ensures
        priced_all(st, seq![a, b]) == priced_all(st, seq![b, a]),
{
    reveal_with_fuel(priced_all, 3);
    let ab = seq![a, b];
    let ba = seq![b, a];
    let x = priced_all(st, ab);
    let y = priced_all(st, ba);
    assert(ab.skip(1)[0] == b && ab.skip(1).skip(1).len() == 0);
    assert(ba.skip(1)[0] == a && ba.skip(1).skip(1).len() == 0);
    assert(x.prices =~= y.prices);
    assert(x.meta =~= y.meta);
}

/// A call that failed leaves the chain with an empty catalogue or no prices.
pub proof fn law_failed_pricing_degrades(chain_id: u64, tokens: Seq<JsonView>, meta: Map<Seq<char>, MetaView>)
    ensures
        leg_next(LegView::Catalogue { chain_id, tokens }, None) == LegStepView::Prices(
            chain_id as i64,
            json_text(price_request_json(held_tokens(tokens, Map::empty()))),
            LegView::Prices { chain_id, meta: Map::empty() },
        ),
        leg_next(LegView::Prices { chain_id, meta }, None) == LegStepView::Done(
            PricedView { chain_id, meta, prices: Map::empty() },
        ),
{
}

} // verus!
