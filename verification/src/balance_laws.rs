//! What the balances of an account show, and whom they were asked of.

use crate::address::{address_of, bytes_hex, is_hex};
use crate::amount::{amount_of, U256};
use crate::balances::{
    aggregate_json, arrivals, balance_view, batch_calls, batch_json, bytes_view, call_json,
    can_batch, chain_json, fetch_view, individual_json, replied, result_view, slot_amount, token_json,
    FetchView,
};
use crate::json::{json_parse, json_text, JsonView};
use crate::json_laws::{
    law_a_member_counts_once, law_a_member_is_found, law_an_empty_object_has_no_members, member_count,
};
use crate::text::{decimal_text, without_0x};
use crate::value_laws::law_bytes_read_back;
use crate::words::{lemma_chain_words, lemma_member_words, lemma_token_words, lemma_tx_words};
use vstd::prelude::*;

verus! {

/// The balances shown for a chain: its id, its native balance, and for each token,
/// in order, its address beside its own balance.
pub open spec fn shows_balances(
    v: JsonView,
    chain_id: u64,
    native: nat,
    tokens: Seq<Seq<char>>,
    balances: Seq<nat>,
) -> bool {
    &&& member_count(v) == 3
    &&& v.get_u64("chainId"@) == Some(chain_id)
    &&& v.get_str("native"@) == Some(decimal_text(native))
    &&& v.get_arr("tokens"@) matches Some(items) && {
        &&& items.len() == tokens.len()
        &&& balances.len() == tokens.len()
        &&& forall|i: int|
            #![trigger items[i]]
            #![trigger tokens[i]]
            #![trigger balances[i]]
            0 <= i < tokens.len() ==> items[i].get_str("address"@) == Some(tokens[i])
                && items[i].get_str("balance"@) == Some(decimal_text(balances[i])) && member_count(
                items[i],
            ) == 2
    }
}

/// The text of a read-only call of this contract with this calldata.
pub open spec fn asks_contract(text: Seq<char>, to: Seq<char>, data: Seq<u8>) -> bool {
    exists|v: JsonView|
        text == #[trigger] json_text(v) && v.get_str("to"@) == Some(to) && v.get_str("data"@) == Some(
            seq!['0', 'x'] + bytes_hex(data),
        ) && member_count(v) == 2
}

/// A chain's balances are shown each under its own token.
pub proof fn law_each_token_has_its_own_balance(
    chain_id: u64,
    native: nat,
    tokens: Seq<Seq<char>>,
    balances: Seq<nat>,
)
    requires
        balances.len() == tokens.len(),
    ensures
        shows_balances(
            chain_json(chain_id, native, tokens, balances),
            chain_id,
            native,
            tokens,
            balances,
        ),
{
    broadcast use {
        law_a_member_counts_once,
        law_a_member_is_found,
        law_an_empty_object_has_no_members,
    };

    lemma_chain_words();
    lemma_token_words();
    let v = chain_json(chain_id, native, tokens, balances);
    let items = v.get_arr("tokens"@)->0;
    assert forall|i: int| 0 <= i < tokens.len() implies #[trigger] items[i] == token_json(
        tokens[i],
        balances[i],
    ) by {}
}

/// A batch can be asked for exactly where the batching contract and every token
/// can be read; it asks the contract for the native balance and each token, in
/// order, for its own.
pub proof fn law_a_batch_asks_each_token(
    multicall: Seq<char>,
    tokens: Seq<Seq<char>>,
    native_data: Seq<u8>,
    token_data: Seq<u8>,
)
    ensures
        can_batch(multicall, tokens) <==> address_of(multicall) is Ok && forall|i: int|
            0 <= i < tokens.len() ==> address_of(#[trigger] tokens[i]) is Ok,
        can_batch(multicall, tokens) ==> {
            let calls = batch_calls(multicall, tokens, native_data, token_data);
            &&& calls.len() == tokens.len() + 1
            &&& address_of(multicall) == Ok::<Seq<u8>, Seq<char>>(calls[0].0)
            &&& calls[0].1 == native_data
            &&& forall|i: int|
                0 <= i < tokens.len() ==> address_of(#[trigger] tokens[i]) == Ok::<Seq<u8>, Seq<char>>(
                    calls[i + 1].0,
                ) && calls[i + 1].1 == token_data
        },
{
}

/// What call `k` of a batch returned: zero where it failed or is missing.
pub open spec fn returned(rets: Seq<Option<U256>>, k: int) -> nat {
    if 0 <= k < rets.len() && rets[k] is Some {
        rets[k]->0@
    } else {
        0
    }
}

/// The balance shown for a token is the amount that its own call returned: call
/// `i + 1` of a batch asks the contract of token `i`, and what it returned is shown
/// beside that token. A batch that failed shows zeros.
pub proof fn law_a_batch_shows_what_each_token_returned(
    chain_id: u64,
    multicall: Seq<char>,
    tokens: Seq<Seq<char>>,
    native_data: Seq<u8>,
    token_data: Seq<u8>,
    rets: Seq<Option<U256>>,
)
    ensures
        can_batch(multicall, tokens) ==> {
            let calls = batch_calls(multicall, tokens, native_data, token_data);
            let shown = batch_json(chain_id, tokens, Some(rets));
            &&& shown.get_u64("chainId"@) == Some(chain_id)
            &&& shown.get_str("native"@) == Some(decimal_text(returned(rets, 0)))
            &&& shown.get_arr("tokens"@) matches Some(items) && {
                &&& items.len() == tokens.len()
                &&& calls.len() == tokens.len() + 1
                &&& forall|i: int|
                    0 <= i < tokens.len() ==> {
                        &&& address_of(#[trigger] tokens[i]) == Ok::<Seq<u8>, Seq<char>>(calls[i + 1].0)
                        &&& items[i].get_str("address"@) == Some(tokens[i])
                        &&& items[i].get_str("balance"@) == Some(decimal_text(returned(rets, i + 1)))
                    }
            }
        },
        shows_balances(
            batch_json(chain_id, tokens, Some(rets)),
            chain_id,
            returned(rets, 0),
            tokens,
            Seq::new(tokens.len(), |i: int| returned(rets, i + 1)),
        ),
        shows_balances(
            batch_json(chain_id, tokens, None),
            chain_id,
            0,
            tokens,
            Seq::new(tokens.len(), |i: int| 0nat),
        ),
{
    let balances = Seq::new(tokens.len(), |i: int| returned(rets, i + 1));
    assert(balances =~= Seq::new(
        tokens.len(),
        |i: int| crate::balances::batch_amount(rets, i + 1),
    ));
    law_each_token_has_its_own_balance(chain_id, returned(rets, 0), tokens, balances);
    law_each_token_has_its_own_balance(
        chain_id,
        0,
        tokens,
        Seq::new(tokens.len(), |i: int| 0nat),
    );
    law_a_batch_asks_each_token(multicall, tokens, native_data, token_data);
    if can_batch(multicall, tokens) {
        let calls = batch_calls(multicall, tokens, native_data, token_data);
        let items = batch_json(chain_id, tokens, Some(rets)).get_arr("tokens"@)->0;
        assert forall|i: int| 0 <= i < tokens.len() implies address_of(#[trigger] tokens[i]) == Ok::<
            Seq<u8>,
            Seq<char>,
        >(calls[i + 1].0) && items[i].get_str("address"@) == Some(tokens[i]) && items[i].get_str(
            "balance"@,
        ) == Some(decimal_text(returned(rets, i + 1))) by {
            assert(balances[i] == returned(rets, i + 1));
        }
    }
}

/// Of the amounts given for a place the last counts, and an amount for another
/// place changes nothing; a place that was given none, or whose read failed, holds
/// zero.
pub proof fn law_the_last_amount_for_a_place_counts(
    parts: Seq<(usize, Option<U256>)>,
    place: usize,
    amount: U256,
    k: int,
)
    ensures
        slot_amount(Seq::empty(), k) == 0,
        slot_amount(parts.push((place, Some(amount))), place as int) == amount@,
        slot_amount(parts.push((place, None)), place as int) == 0,
        k != place ==> slot_amount(parts.push((place, Some(amount))), k) == slot_amount(parts, k),
        k != place ==> slot_amount(parts.push((place, None)), k) == slot_amount(parts, k),
{
    assert(parts.push((place, Some(amount))).drop_last() =~= parts);
    assert(parts.push((place, None)).drop_last() =~= parts);
}

/// Balances that were read one by one: place zero is the native balance, and place
/// `i + 1` is shown beside token `i`.
pub proof fn law_single_reads_are_shown_in_their_places(
    chain_id: u64,
    tokens: Seq<Seq<char>>,
    parts: Seq<(usize, Option<U256>)>,
)
    ensures
        shows_balances(
            individual_json(chain_id, tokens, parts),
            chain_id,
            slot_amount(parts, 0),
            tokens,
            Seq::new(tokens.len(), |i: int| slot_amount(parts, i + 1)),
        ),
{
    law_each_token_has_its_own_balance(
        chain_id,
        slot_amount(parts, 0),
        tokens,
        Seq::new(tokens.len(), |i: int| slot_amount(parts, i + 1)),
    );
}

/// How a chain is asked: the batching contract with the batch's calldata, where
/// there is one and a batch can be asked for; else each token, in order, with the
/// calldata of a balance.
pub proof fn law_each_contract_is_asked_for_its_own(
    multicall: Option<Seq<char>>,
    tokens: Seq<Seq<char>>,
    batch_data: Seq<u8>,
    token_data: Seq<u8>,
)
    ensures
        match fetch_view(multicall, tokens, batch_data, token_data) {
            FetchView::Multicall(text) => {
                &&& multicall is Some
                &&& can_batch(multicall->0, tokens)
                &&& asks_contract(text, multicall->0, batch_data)
            },
            FetchView::Individual(calls) => {
                &&& multicall is None || !can_batch(multicall->0, tokens)
                &&& calls.len() == tokens.len()
                &&& forall|i: int|
                    #![trigger tokens[i]]
                    #![trigger calls[i]]
                    0 <= i < tokens.len() ==> asks_contract(calls[i], tokens[i], token_data)
            },
        },
{
    if multicall is Some {
        law_a_call_names_its_contract(multicall->0, batch_data);
    }
    assert forall|i: int| 0 <= i < tokens.len() implies asks_contract(
        json_text(call_json(#[trigger] tokens[i], token_data)),
        tokens[i],
        token_data,
    ) by {
        law_a_call_names_its_contract(tokens[i], token_data);
    }
}

/// A read-only call names the contract it is for and its calldata.
pub proof fn law_a_call_names_its_contract(to: Seq<char>, data: Seq<u8>)
    ensures
        call_json(to, data).get_str("to"@) == Some(to),
        call_json(to, data).get_str("data"@) == Some(seq!['0', 'x'] + bytes_hex(data)),
        asks_contract(json_text(call_json(to, data)), to, data),
{
    broadcast use {
        law_a_member_counts_once,
        law_a_member_is_found,
        law_an_empty_object_has_no_members,
    };

    lemma_tx_words();
    law_bytes_read_back(data);
}

/// What a reply says: its `result`, unless it says that it failed. The native
/// balance is that amount, and the bytes of a call are those it spells.
pub proof fn law_a_reply_says_its_result(
    reply: JsonView,
    text: Seq<char>,
    bytes: Seq<u8>,
    parsed: Seq<char>,
)
    ensures
        reply.get("result"@) == Some(JsonView::Str(text)) && reply.get("ok"@) != Some(
            JsonView::Bool(false),
        ) ==> {
            &&& result_view(Some(reply)) == Some(text)
            &&& balance_view(Some(reply)) == amount_of(text)
            &&& text == seq!['0', 'x'] + bytes_hex(bytes) ==> bytes_view(Some(reply)) == Some(bytes)
            &&& !is_hex(without_0x(text)) ==> bytes_view(Some(reply)) is None
        },
        (reply.get("result"@) is None || !(reply.get("result"@)->0 is Str) || reply.get("ok"@) == Some(
            JsonView::Bool(false),
        )) ==> {
            &&& result_view(Some(reply)) is None
            &&& balance_view(Some(reply)) == 0
            &&& bytes_view(Some(reply)) is None
        },
        json_parse(parsed) == Ok::<JsonView, Seq<char>>(reply) ==> replied(Some(parsed)) == Some(reply),
        json_parse(parsed) is Err ==> replied(Some(parsed)) is None,
        replied(None) is None,
        balance_view(None) == 0,
        bytes_view(None) is None,
{
    law_bytes_read_back(bytes);
    let h = bytes_hex(bytes);
    crate::value_laws::law_every_0x_is_dropped(h);
    if h.len() >= 2 {
        assert(crate::address::is_hex_digit(h[1]));
        assert(h[1] != 'x');
    }
    crate::value_laws::law_every_0x_is_dropped(h);
}

/// The balances of an account name it, and its chains in their order.
pub proof fn law_an_account_has_its_chains(address: Seq<char>, chains: Seq<JsonView>)
    ensures
        aggregate_json(address, chains).get_str("address"@) == Some(address),
        aggregate_json(address, chains).get_arr("chains"@) == Some(chains),
        member_count(aggregate_json(address, chains)) == 2,
{
    broadcast use {
        law_a_member_counts_once,
        law_a_member_is_found,
        law_an_empty_object_has_no_members,
    };

    lemma_member_words();
}

/// A result that arrives fills its task's place and no other.
pub proof fn law_a_result_fills_its_own_place<T>(
    slots: Seq<Option<T>>,
    fills: Seq<(int, T)>,
    i: int,
    result: T,
)
    requires
        0 <= i < slots.len(),
        arrivals(slots, fills).len() == slots.len(),
    ensures
        arrivals(slots, Seq::<(int, T)>::empty()) == slots,
        arrivals(slots, fills.push((i, result))).len() == slots.len(),
        arrivals(slots, fills.push((i, result)))[i] == Some(result),
        forall|k: int|
            0 <= k < slots.len() && k != i ==> #[trigger] arrivals(slots, fills.push((i, result)))[k]
                == arrivals(slots, fills)[k],
{
    assert(fills.push((i, result)).drop_last() =~= fills);
}

} // verus!
