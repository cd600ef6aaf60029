//! What holds of the module's state over several calls.

use crate::address::short_text;
use crate::backend::{
    market_plan, market_rows_view, member_text, MarketPlanView, StateView,
};
use crate::balances::aggregate_json;
use crate::json::{err_json, json_text, lookup, JsonView};
use crate::market::{
    chains_of, decimals_of, entry_address, held_tokens, is_held, items_of, rows_of, MetaView,
    QuoteView,
};
use crate::send::not_ready;
use crate::text::{ascii_lowered, is_ascii, lowered};
use vstd::prelude::*;

verus! {

/// The tokens set on a chain are the ones read back from it, and no other
/// chain's change.
pub proof fn law_watched_tokens_are_read_back(
    st: StateView,
    chain_id: u64,
    tokens: Seq<Seq<char>>,
    other: u64,
)
    ensures
        st.watching(chain_id, tokens).watched_on(chain_id) == tokens,
        other != chain_id ==> st.watching(chain_id, tokens).watched_on(other) == st.watched_on(
            other,
        ),
{
}

/// The balances of the last refresh are the ones read back, and no other
/// account's change.
pub proof fn law_balances_are_read_back(
    st: StateView,
    address: Seq<char>,
    chains: Seq<JsonView>,
    other: Seq<char>,
)
    ensures
        st.recorded(address, chains).balances_of(address) == aggregate_json(address, chains),
        other != address ==> st.recorded(address, chains).balances_of(other) == st.balances_of(
            other,
        ),
{
}

/// A price refresh after a refresh of balances prices the chains that it
/// brought.
pub proof fn law_refreshed_balances_are_priced(
    st: StateView,
    address: Seq<char>,
    chains: Seq<JsonView>,
)
    ensures
        market_plan(Some(st.recorded(address, chains)), address) == MarketPlanView::Chains(
            chains_of(chains),
        ),
{
    lemma_aggregate_chains(address, chains);
}

proof fn lemma_aggregate_chains(address: Seq<char>, chains: Seq<JsonView>)
    ensures
        items_of(Some(aggregate_json(address, chains)), "chains"@) == chains,
{
    reveal_strlit("address");
    reveal_strlit("chains");
    let members = aggregate_json(address, chains)->Obj_0;
    assert(members[0].0.len() == 7);
    assert(members[0].0 != "chains"@);
    assert(members.skip(1)[0] == members[1]);
    assert(lookup(members.skip(1), "chains"@) == Some(JsonView::Arr(chains)));
    assert(lookup(members, "chains"@) == Some(JsonView::Arr(chains)));
}

/// The chains that a price refresh asks about are the chains that the market
/// view shows, in the same order.
pub proof fn law_the_priced_chains_are_shown(st: StateView, chains: Seq<JsonView>)
    ensures
        st.market_of(chains).len() == chains_of(chains).len(),
        forall|i: int|
            0 <= i < chains_of(chains).len() ==> (#[trigger] st.market_of(chains)[i]).chain_id
                == chains_of(chains)[i].0,
    decreases chains.len(),
{
    if chains.len() > 0 {
        law_the_priced_chains_are_shown(st, chains.drop_last());
    }
}

/// The tokens that a chain's price request names are the ones that the market
/// view shows for it, after the chain's own coin and with the same decimals.
pub proof fn law_the_priced_tokens_are_shown(
    chain: JsonView,
    meta: Map<Seq<char>, MetaView>,
    prices: Map<Seq<char>, QuoteView>,
)
    ensures
        rows_of(chain, meta, prices).len() == held_tokens(
            items_of(Some(chain), "tokens"@),
            meta,
        ).len() + 1,
        rows_of(chain, meta, prices)[0].address == "native"@,
        forall|i: int|
            0 <= i < held_tokens(items_of(Some(chain), "tokens"@), meta).len() ==> (
            #[trigger] rows_of(chain, meta, prices)[i + 1]).address == held_tokens(
                items_of(Some(chain), "tokens"@),
                meta,
            )[i].0 && rows_of(chain, meta, prices)[i + 1].decimals == held_tokens(
                items_of(Some(chain), "tokens"@),
                meta,
            )[i].1,
{
}

/// The market view of a chain is made from what its last price refresh brought;
/// no other chain's metadata or prices change.
pub proof fn law_market_reads_the_last_refresh(
    st: StateView,
    chain_id: u64,
    meta: Map<Seq<char>, MetaView>,
    prices: Map<Seq<char>, QuoteView>,
    other: u64,
)
    ensures
        st.priced(chain_id, meta, prices).meta_on(chain_id) == meta,
        st.priced(chain_id, meta, prices).prices_on(chain_id) == prices,
        other != chain_id ==> st.priced(chain_id, meta, prices).meta_on(other) == st.meta_on(other),
        other != chain_id ==> st.priced(chain_id, meta, prices).prices_on(other) == st.prices_on(
            other,
        ),
        st.priced(chain_id, meta, prices).balances == st.balances,
{
}

/// A holding shows without a price: where nothing is priced, the same holdings
/// show with the same labels and balances, and have no price in dollars.
pub proof fn law_unpriced_holdings_still_show(
    chain: JsonView,
    meta: Map<Seq<char>, MetaView>,
    prices: Map<Seq<char>, QuoteView>,
    i: int,
)
    requires
        0 <= i < rows_of(chain, meta, prices).len(),
    ensures
        rows_of(chain, meta, Map::empty()).len() == rows_of(chain, meta, prices).len(),
        rows_of(chain, meta, Map::empty())[i].address == rows_of(chain, meta, prices)[i].address,
        rows_of(chain, meta, Map::empty())[i].symbol == rows_of(chain, meta, prices)[i].symbol,
        rows_of(chain, meta, Map::empty())[i].decimals == rows_of(chain, meta, prices)[i].decimals,
        rows_of(chain, meta, Map::empty())[i].balance == rows_of(chain, meta, prices)[i].balance,
        rows_of(chain, meta, Map::empty())[i].usd is None,
        i > 0 ==> rows_of(chain, meta, Map::empty())[i].eth is None,
{
}

/// Without a catalogue, a token counts as having eighteen decimals and is
/// labelled by its address in short.
pub proof fn law_uncatalogued_tokens_still_show(
    chain: JsonView,
    prices: Map<Seq<char>, QuoteView>,
    i: int,
)
    requires
        0 < i < rows_of(chain, Map::empty(), prices).len(),
    ensures
        rows_of(chain, Map::empty(), prices)[i].decimals == 18,
        rows_of(chain, Map::empty(), prices)[i].symbol == short_text(
            rows_of(chain, Map::empty(), prices)[i].address,
        ),
{
    let tokens = items_of(Some(chain), "tokens"@);
    lemma_held_decimals(tokens, Map::empty());
    let held = held_tokens(tokens, Map::empty());
    assert(held[i - 1].1 == decimals_of(Map::empty(), held[i - 1].0));
}

proof fn lemma_held_decimals(tokens: Seq<JsonView>, meta: Map<Seq<char>, MetaView>)
    ensures
        forall|i: int|
            0 <= i < held_tokens(tokens, meta).len() ==> (#[trigger] held_tokens(tokens, meta)[i]).1
                == decimals_of(meta, held_tokens(tokens, meta)[i].0),
    decreases tokens.len(),
{
    if tokens.len() > 0 {
        lemma_held_decimals(tokens.drop_last(), meta);
        let rest = held_tokens(tokens.drop_last(), meta);
        let held = held_tokens(tokens, meta);
        assert forall|i: int| 0 <= i < held.len() implies (#[trigger] held[i]).1 == decimals_of(
            meta,
            held[i].0,
        ) by {
            if i < rest.len() {
                assert(held[i] == rest[i]);
            }
        }
    }
}

/// Exactly the entries with an address and a balance above zero are held, each
/// with the decimals of its metadata.
pub proof fn law_held_means_a_balance_above_zero(
    tokens: Seq<JsonView>,
    meta: Map<Seq<char>, MetaView>,
    token: (Seq<char>, u8),
)
    ensures
        held_tokens(tokens, meta).contains(token) <==> (exists|i: int|
            0 <= i < tokens.len() && is_held(#[trigger] tokens[i]) && token == (
                entry_address(tokens[i]),
                decimals_of(meta, entry_address(tokens[i])),
            )),
    decreases tokens.len(),
{
    let held = held_tokens(tokens, meta);
    if tokens.len() > 0 {
        let before = tokens.drop_last();
        let t = tokens.last();
        let rest = held_tokens(before, meta);
        law_held_means_a_balance_above_zero(before, meta, token);
        if held.contains(token) {
            let k = choose|k: int| 0 <= k < held.len() && held[k] == token;
            if k < rest.len() {
                assert(rest[k] == token);
                let i = choose|i: int|
                    0 <= i < before.len() && is_held(#[trigger] before[i]) && token == (
                        entry_address(before[i]),
                        decimals_of(meta, entry_address(before[i])),
                    );
                assert(tokens[i] == before[i]);
            } else {
                assert(tokens[tokens.len() - 1] == t);
            }
        }
        if exists|i: int|
            0 <= i < tokens.len() && is_held(#[trigger] tokens[i]) && token == (
                entry_address(tokens[i]),
                decimals_of(meta, entry_address(tokens[i])),
            ) {
            let i = choose|i: int|
                0 <= i < tokens.len() && is_held(#[trigger] tokens[i]) && token == (
                    entry_address(tokens[i]),
                    decimals_of(meta, entry_address(tokens[i])),
                );
            if i < before.len() {
                assert(before[i] == tokens[i]);
                assert(rest.contains(token));
                let k = choose|k: int| 0 <= k < rest.len() && rest[k] == token;
                assert(held[k] == token);
            } else {
                assert(held[held.len() - 1] == token);
            }
        }
    }
}

/// Before the module has its state, a method that reads it answers the same
/// error whatever it is asked, and a price refresh begins nothing.
pub proof fn law_nothing_is_answered_without_state(
    address: Seq<char>,
    key: Seq<char>,
    value: JsonView,
)
    ensures
        member_text(false, key, value) == json_text(err_json(not_ready())),
        market_rows_view(None, address) is Err,
        market_rows_view(None, address)->Err_0 == not_ready(),
        market_plan(None, address) == MarketPlanView::NotReady,
{
}

/// A token is found in the catalogue whichever case its address is written in.
pub proof fn law_the_catalogue_ignores_letter_case(
    meta: Map<Seq<char>, MetaView>,
    a: Seq<char>,
    b: Seq<char>,
)
    requires
        is_ascii(a),
        is_ascii(b),
        ascii_lowered(a) == ascii_lowered(b),
    ensures
        decimals_of(meta, a) == decimals_of(meta, b),
        meta.contains_key(lowered(a)) == meta.contains_key(lowered(b)),
{
}

} // verus!
