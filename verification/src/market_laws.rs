//! What the market view of an account shows: each holding with its own balance,
//! price and worth.

use crate::address::short_text;
use crate::amount::amount_of;
use crate::json::{float_text, JsonView, NumView};
use crate::json_laws::{
    law_a_member_counts_once, law_a_member_is_found, law_an_empty_object_has_no_members, member_count,
};
use crate::market::{
    balance_for, chains_of, decimals_of, entry_address, entry_balance, held_tokens, is_held, items_of,
    market_json, meta_of, price_request_json, prices_of, row_json, rows_json,
    rows_of, ChainRowsView, MetaView, QuoteView, RowView,
};
use crate::text::lowered;
use crate::words::{lemma_chain_words, lemma_member_words, lemma_row_words};
use vstd::prelude::*;

verus! {

/// A member that is a number, or null where there is none.
pub open spec fn says_number(v: JsonView, key: Seq<char>, n: Option<Seq<char>>) -> bool {
    v.get(key) == Some(
        match n {
            Some(t) => JsonView::Num(NumView::Float(t)),
            None => JsonView::Null,
        },
    )
}

/// A holding as it is shown.
pub open spec fn shows_row(v: JsonView, row: RowView, value: Option<Seq<char>>) -> bool {
    &&& v.get_str("address"@) == Some(row.address)
    &&& v.get_str("symbol"@) == Some(row.symbol)
    &&& v.get_u64("decimals"@) == Some(row.decimals as u64)
    &&& v.get_str("balance"@) == Some(row.balance)
    &&& says_number(v, "eth"@, row.eth)
    &&& says_number(v, "usd"@, row.usd)
    &&& says_number(v, "valueUsd"@, value)
    &&& member_count(v) == 7
}

/// A holding is shown with its own members and its worth.
pub proof fn law_a_holding_shows_its_members(row: RowView, value: Option<Seq<char>>)
    ensures
        shows_row(row_json(row, value), row, value),
{
    broadcast use {
        law_a_member_counts_once,
        law_a_member_is_found,
        law_an_empty_object_has_no_members,
    };

    lemma_row_words();
}

/// Each holding of a chain is shown beside its own worth: row `i` with value `i`,
/// in order; a row for which there is no value shows none.
pub proof fn law_each_holding_has_its_own_value(c: ChainRowsView, values: Seq<Option<Seq<char>>>)
    ensures
        rows_json(c, values).get_u64("chainId"@) == Some(c.chain_id),
        member_count(rows_json(c, values)) == 2,
        rows_json(c, values).get_arr("items"@) matches Some(items) && {
            &&& items.len() == c.rows.len()
            &&& forall|i: int|
                #![trigger items[i]]
                #![trigger c.rows[i]]
                0 <= i < c.rows.len() && i < values.len() ==> {
                    &&& says_number(items[i], "valueUsd"@, values[i])
                    &&& items[i].get_str("address"@) == Some(c.rows[i].address)
                    &&& items[i].get_str("balance"@) == Some(c.rows[i].balance)
                    &&& shows_row(items[i], c.rows[i], values[i])
                }
            &&& forall|i: int|
                #![trigger items[i]]
                #![trigger c.rows[i]]
                values.len() <= i < c.rows.len() ==> shows_row(items[i], c.rows[i], None)
        },
{
    broadcast use {
        law_a_member_counts_once,
        law_a_member_is_found,
        law_an_empty_object_has_no_members,
    };

    lemma_chain_words();
    let items = rows_json(c, values).get_arr("items"@)->0;
    assert forall|i: int| 0 <= i < c.rows.len() implies (if i < values.len() {
        shows_row(#[trigger] items[i], c.rows[i], values[i])
    } else {
        shows_row(items[i], c.rows[i], None)
    }) by {
        if i < values.len() {
            law_a_holding_shows_its_members(c.rows[i], values[i]);
        } else {
            law_a_holding_shows_its_members(c.rows[i], None);
        }
    }
}

/// The market view names its account, and its chains in their order.
pub proof fn law_a_market_view_names_its_account(address: Seq<char>, chains: Seq<JsonView>)
    ensures
        market_json(address, chains).get_bool("ok"@) == Some(true),
        market_json(address, chains).get_str("address"@) == Some(address),
        market_json(address, chains).get_arr("chains"@) == Some(chains),
        member_count(market_json(address, chains)) == 3,
{
    broadcast use {
        law_a_member_counts_once,
        law_a_member_is_found,
        law_an_empty_object_has_no_members,
    };

    lemma_member_words();
}

/// The price request names each held token, in order, beside its own decimals.
pub proof fn law_each_held_token_is_priced(held: Seq<(Seq<char>, u8)>)
    ensures
        member_count(price_request_json(held)) == 1,
        price_request_json(held).get_arr("tokens"@) matches Some(items) && {
            &&& items.len() == held.len()
            &&& forall|i: int|
                #![trigger items[i]]
                #![trigger held[i]]
                0 <= i < held.len() ==> items[i].get_str("address"@) == Some(held[i].0)
                    && items[i].get_u64("decimals"@) == Some(held[i].1 as u64) && member_count(
                    items[i],
                ) == 2
        },
{
    broadcast use {
        law_a_member_counts_once,
        law_a_member_is_found,
        law_an_empty_object_has_no_members,
    };

    lemma_row_words();
    let items = price_request_json(held).get_arr("tokens"@)->0;
    assert forall|i: int| 0 <= i < held.len() implies (#[trigger] items[i]).get_str("address"@) == Some(
        held[i].0,
    ) && items[i].get_u64("decimals"@) == Some(held[i].1 as u64) && member_count(items[i]) == 2 by {}
}

/// The items of an array member, and none of anything else.
pub proof fn law_items_are_those_of_the_array(v: JsonView, key: Seq<char>, items: Seq<JsonView>)
    ensures
        v.get(key) == Some(JsonView::Arr(items)) ==> items_of(Some(v), key) == items,
        v.get(key) is None || !(v.get(key)->0 is Arr) ==> items_of(Some(v), key).len() == 0,
        items_of(None, key).len() == 0,
{
}

/// A catalogue says of a token what its last entry for it says; an entry for
/// another address changes nothing, nor does one without an address. No symbol is
/// `?`, no decimals are eighteen.
pub proof fn law_the_last_catalogue_entry_counts(tokens: Seq<JsonView>, t: JsonView, a: Seq<char>)
    ensures
        meta_of(Seq::empty()).dom() == Set::<Seq<char>>::empty(),
        t.get_str("address"@) is None ==> meta_of(tokens.push(t)) == meta_of(tokens),
        t.get_str("address"@) is Some ==> {
            let m = meta_of(tokens.push(t));
            let key = lowered(t.get_str("address"@)->0);
            &&& m.contains_key(key)
            &&& t.get_str("symbol"@) is Some ==> m[key].symbol == t.get_str("symbol"@)->0
            &&& t.get_str("symbol"@) is None ==> m[key].symbol == "?"@
            &&& t.get_u64("decimals"@) is Some ==> m[key].decimals as int == t.get_u64(
                "decimals"@,
            )->0 as int % 256
            &&& t.get_u64("decimals"@) is None ==> m[key].decimals == 18
            &&& a != key ==> m.contains_key(a) == meta_of(tokens).contains_key(a)
            &&& a != key && m.contains_key(a) ==> m[a] == meta_of(tokens)[a]
        },
{
    assert(tokens.push(t).drop_last() =~= tokens);
    assert(meta_of(Seq::empty()).dom() =~= Set::<Seq<char>>::empty());
}

/// A price list says of a token what its last entry for it says, ether beside
/// ether and dollars beside dollars; an entry for another address changes nothing,
/// nor does one without an address.
pub proof fn law_the_last_price_counts(prices: Seq<JsonView>, p: JsonView, a: Seq<char>)
    ensures
        prices_of(Seq::empty()).dom() == Set::<Seq<char>>::empty(),
        p.get_str("address"@) is None ==> prices_of(prices.push(p)) == prices_of(prices),
        p.get_str("address"@) is Some ==> {
            let m = prices_of(prices.push(p));
            let key = p.get_str("address"@)->0;
            &&& m.contains_key(key)
            &&& m[key].eth == (match p.get("eth"@) {
                Some(JsonView::Num(n)) => Some(float_text(n)),
                _ => None,
            })
            &&& m[key].usd == (match p.get("usd"@) {
                Some(JsonView::Num(n)) => Some(float_text(n)),
                _ => None,
            })
            &&& a != key ==> m.contains_key(a) == prices_of(prices).contains_key(a)
            &&& a != key && m.contains_key(a) ==> m[a] == prices_of(prices)[a]
        },
{
    assert(prices.push(p).drop_last() =~= prices);
    assert(prices_of(Seq::empty()).dom() =~= Set::<Seq<char>>::empty());
}

/// A token counts as held exactly where its entry has an address and a balance
/// that reads as more than zero.
pub proof fn law_what_is_held(t: JsonView)
    ensures
        is_held(t) <==> {
            &&& t.get("address"@) matches Some(JsonView::Str(a)) && a.len() > 0
            &&& t.get("balance"@) matches Some(JsonView::Str(b)) && amount_of(b) > 0
        },
        t.get("address"@) matches Some(JsonView::Str(a)) ==> entry_address(t) == a,
        t.get("balance"@) matches Some(JsonView::Str(b)) ==> entry_balance(t) == b,
        !(t.get_str("address"@) is Some) ==> entry_address(t).len() == 0,
        !(t.get_str("balance"@) is Some) ==> amount_of(entry_balance(t)) == 0,
{
    reveal_strlit("");
    reveal_strlit("0");
    assert(crate::text::decimal_text(0) =~= "0"@);
    crate::value_laws::law_amounts_read_back(0);
}

/// The held tokens of two lists of entries are those of the one and then those of
/// the other: an entry that is held stays in its place under its own address, with
/// the decimals of the catalogue or eighteen, and one that is not is left out.
pub proof fn law_held_tokens_keep_their_order(
    one: Seq<JsonView>,
    other: Seq<JsonView>,
    t: JsonView,
    meta: Map<Seq<char>, MetaView>,
)
    ensures
        held_tokens(one + other, meta) == held_tokens(one, meta) + held_tokens(other, meta),
        is_held(t) ==> held_tokens(seq![t], meta) == seq![
            (
                t.get_str("address"@)->0,
                if meta.contains_key(lowered(t.get_str("address"@)->0)) {
                    meta[lowered(t.get_str("address"@)->0)].decimals
                } else {
                    18u8
                },
            ),
        ],
        !is_held(t) ==> held_tokens(seq![t], meta) == Seq::<(Seq<char>, u8)>::empty(),
        held_tokens(Seq::empty(), meta) == Seq::<(Seq<char>, u8)>::empty(),
    decreases other.len(),
{
    law_what_is_held(t);
    assert(seq![t].drop_last() =~= Seq::<JsonView>::empty());
    assert(seq![t].last() == t);
    assert(held_tokens(seq![t].drop_last(), meta) =~= Seq::<(Seq<char>, u8)>::empty());
    assert(held_tokens(seq![t], meta) =~= (if is_held(t) {
        seq![(entry_address(t), decimals_of(meta, entry_address(t)))]
    } else {
        Seq::<(Seq<char>, u8)>::empty()
    }));
    if other.len() == 0 {
        assert(one + other =~= one);
        assert(held_tokens(one, meta) + held_tokens(other, meta) =~= held_tokens(one, meta));
    } else {
        law_held_tokens_keep_their_order(one, other.drop_last(), t, meta);
        assert((one + other).drop_last() =~= one + other.drop_last());
        assert((one + other).last() == other.last());
        assert(held_tokens(one + other, meta) =~= held_tokens(one, meta) + held_tokens(other, meta));
    }
}

/// The chains to be priced of two lists are those of the one and then those of the
/// other: a chain with an id keeps its place with its own tokens, and one without
/// is left out.
pub proof fn law_priced_chains_keep_their_order(one: Seq<JsonView>, other: Seq<JsonView>, c: JsonView)
    ensures
        chains_of(one + other) == chains_of(one) + chains_of(other),
        c.get_u64("chainId"@) is Some && c.get_u64("chainId"@)->0 != 0 ==> chains_of(seq![c]) == seq![
            (c.get_u64("chainId"@)->0, items_of(Some(c), "tokens"@)),
        ],
        c.get_u64("chainId"@) is None || c.get_u64("chainId"@)->0 == 0 ==> chains_of(seq![c])
            == Seq::<(u64, Seq<JsonView>)>::empty(),
    decreases other.len(),
{
    assert(seq![c].drop_last() =~= Seq::<JsonView>::empty());
    assert(seq![c].last() == c);
    assert(chains_of(seq![c].drop_last()) =~= Seq::<(u64, Seq<JsonView>)>::empty());
    if c.get_u64("chainId"@) is Some && c.get_u64("chainId"@)->0 != 0 {
        assert(chains_of(seq![c]) =~= seq![
            (c.get_u64("chainId"@)->0, items_of(Some(c), "tokens"@)),
        ]);
    }
    if other.len() == 0 {
        assert(one + other =~= one);
        assert(chains_of(one) + chains_of(other) =~= chains_of(one));
    } else {
        law_priced_chains_keep_their_order(one, other.drop_last(), c);
        assert((one + other).drop_last() =~= one + other.drop_last());
        assert((one + other).last() == other.last());
        assert(chains_of(one + other) =~= chains_of(one) + chains_of(other));
    }
}

/// The balance of an address is that of its first entry, and zero where it has
/// none.
pub proof fn law_the_first_entry_gives_the_balance(tokens: Seq<JsonView>, address: Seq<char>, i: int)
    ensures
        0 <= i < tokens.len() && tokens[i].get_str("address"@) == Some(address) && (forall|j: int|
            0 <= j < i ==> (#[trigger] tokens[j]).get_str("address"@) != Some(address)) ==> balance_for(
            tokens,
            address,
        ) == (match tokens[i].get_str("balance"@) {
            Some(b) => b,
            None => "0"@,
        }),
        (forall|j: int|
            0 <= j < tokens.len() ==> (#[trigger] tokens[j]).get_str("address"@) != Some(address))
            ==> balance_for(tokens, address) == "0"@,
    decreases tokens.len(),
{
    if tokens.len() > 0 && tokens[0].get_str("address"@) != Some(address) {
        let rest = tokens.skip(1);
        assert forall|j: int| 0 <= j < rest.len() implies #[trigger] rest[j] == tokens[j + 1] by {}
        law_the_first_entry_gives_the_balance(rest, address, i - 1);
        if 0 <= i < tokens.len() && tokens[i].get_str("address"@) == Some(address) && (forall|j: int|
            0 <= j < i ==> (#[trigger] tokens[j]).get_str("address"@) != Some(address)) {
            assert(i > 0);
            assert(rest[i - 1] == tokens[i]);
            assert forall|j: int| 0 <= j < i - 1 implies (#[trigger] rest[j]).get_str("address"@) != Some(
                address,
            ) by {
                assert(rest[j] == tokens[j + 1]);
            }
        }
        if forall|j: int|
            0 <= j < tokens.len() ==> (#[trigger] tokens[j]).get_str("address"@) != Some(address) {
            assert forall|j: int| 0 <= j < rest.len() implies (#[trigger] rest[j]).get_str("address"@)
                != Some(address) by {
                assert(rest[j] == tokens[j + 1]);
            }
        }
    }
}

/// The row of a token: its own address, balance and price, and the name that the
/// catalogue has for it, or its address in short.
pub open spec fn is_row_of(
    row: RowView,
    tokens: Seq<JsonView>,
    held: (Seq<char>, u8),
    meta: Map<Seq<char>, MetaView>,
    prices: Map<Seq<char>, QuoteView>,
) -> bool {
    &&& row.address == held.0
    &&& row.decimals == held.1
    &&& row.balance == balance_for(tokens, held.0)
    &&& meta.contains_key(lowered(held.0)) ==> row.symbol == meta[lowered(held.0)].symbol
    &&& !meta.contains_key(lowered(held.0)) ==> row.symbol == short_text(held.0)
    &&& prices.contains_key(held.0) ==> row.eth == prices[held.0].eth && row.usd == prices[held.0].usd
    &&& !prices.contains_key(held.0) ==> row.eth is None && row.usd is None
}

/// The rows of a chain: first its own coin, of which one is one ether, with the
/// native balance and the dollars of ether; then each held token, in order, with
/// its own balance, price and name.
pub proof fn law_each_row_is_of_its_own_token(
    chain: JsonView,
    meta: Map<Seq<char>, MetaView>,
    prices: Map<Seq<char>, QuoteView>,
)
    ensures
        ({
            let tokens = items_of(Some(chain), "tokens"@);
            let held = held_tokens(tokens, meta);
            let rows = rows_of(chain, meta, prices);
            &&& rows.len() == held.len() + 1
            &&& rows[0].address == "native"@
            &&& rows[0].symbol == "ETH"@
            &&& rows[0].decimals == 18
            &&& rows[0].balance == (match chain.get_str("native"@) {
                Some(b) => b,
                None => "0"@,
            })
            &&& rows[0].eth == Some("1.0"@)
            &&& prices.contains_key("ETH"@) ==> rows[0].usd == prices["ETH"@].usd
            &&& !prices.contains_key("ETH"@) ==> rows[0].usd is None
            &&& forall|i: int|
                0 <= i < held.len() ==> is_row_of(rows[i + 1], tokens, #[trigger] held[i], meta, prices)
        }),
{
}

} // verus!
