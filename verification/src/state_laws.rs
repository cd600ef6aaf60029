//! What the module keeps and gives back: watched tokens, balances, prices,
//! configs and jobs.

use crate::address::can_shorten;
use crate::backend::{
    balance_specs, market_plan, market_rows_view, member_text, text_list, texts_json, MarketPlanView,
    StateView,
};
use crate::config::pushes_of;
use crate::flow::{PendingView, StepView};
use crate::jobs::{job_id, without, BoardView, JobView, CAPACITY};
use crate::json::{json_text, JsonView};
use crate::json_laws::{
    law_a_member_counts_once, law_a_member_is_found, law_an_empty_object_has_no_members, member_count,
};
use crate::market::{
    chains_of, held_tokens, items_of, meta_of, prices_of, rows_of, ChainRowsView, MetaView, QuoteView,
};
use crate::market_flow::{leg_next, priced_all, LegStepView, LegView, PricedView};
use crate::market_laws::law_each_held_token_is_priced;
use crate::methods::{jobs_of, start_of, with_jobs};
use crate::plans::{parked_answer, FlowView};
use crate::poll_laws::law_a_collect_says_what_it_found;
use crate::send_laws::answers_error;
use crate::store::{
    labels_parse, members_map, saved_balances, saved_labels, saved_watched, watched_parse,
};
use crate::text::{digits_value, lowered};
use crate::value_laws::law_decimal_reads_back;
use crate::words::lemma_member_words;
use vstd::prelude::*;

verus! {

/// Setting a chain's watched tokens changes nothing else; a chain on which none
/// were set watches none.
pub proof fn law_watching_changes_one_chain(
    st: StateView,
    chain_id: u64,
    tokens: Seq<Seq<char>>,
    other: u64,
)
    ensures
        st.watching(chain_id, tokens).watched_on(chain_id) == tokens,
        other != chain_id ==> st.watching(chain_id, tokens).watched_on(other) == st.watched_on(other),
        st.watching(chain_id, tokens).balances == st.balances,
        st.watching(chain_id, tokens).prices == st.prices,
        st.watching(chain_id, tokens).meta == st.meta,
        st.watching(chain_id, tokens).jobs == st.jobs,
        !st.watched.contains_key(other) ==> st.watched_on(other).len() == 0,
        st.watched.contains_key(other) ==> st.watched_on(other) == st.watched[other],
{
}

/// Recording an account's balances changes nothing else: they name the account and
/// its chains in their order. An account without any has no chains.
pub proof fn law_recording_changes_one_account(
    st: StateView,
    address: Seq<char>,
    chains: Seq<JsonView>,
    other: Seq<char>,
)
    ensures
        st.recorded(address, chains).balances_of(address).get_str("address"@) == Some(address),
        st.recorded(address, chains).balances_of(address).get_arr("chains"@) == Some(chains),
        st.recorded(address, chains).balance_chains(address) == chains,
        other != address ==> st.recorded(address, chains).balances_of(other) == st.balances_of(other),
        other != address ==> st.recorded(address, chains).balance_chains(other) == st.balance_chains(
            other,
        ),
        st.recorded(address, chains).watched == st.watched,
        st.recorded(address, chains).prices == st.prices,
        st.recorded(address, chains).meta == st.meta,
        st.recorded(address, chains).jobs == st.jobs,
        !st.balances.contains_key(other) ==> st.balance_chains(other).len() == 0
            && st.balances_of(other).get_str("address"@) == Some(other) && st.balances_of(other).get_arr(
            "chains"@,
        ) == Some(Seq::<JsonView>::empty()),
        st.balances.contains_key(other) ==> st.balances_of(other) == st.balances[other],
{
    broadcast use {
        law_a_member_counts_once,
        law_a_member_is_found,
        law_an_empty_object_has_no_members,
    };

    lemma_member_words();
}

/// Recording what is known of a chain changes nothing else, and keeps names and
/// prices apart; a chain of which nothing is known has neither.
pub proof fn law_pricing_changes_one_chain(
    st: StateView,
    chain_id: u64,
    meta: Map<Seq<char>, MetaView>,
    prices: Map<Seq<char>, QuoteView>,
    other: u64,
)
    ensures
        st.priced(chain_id, meta, prices).meta_on(chain_id) == meta,
        st.priced(chain_id, meta, prices).prices_on(chain_id) == prices,
        other != chain_id ==> st.priced(chain_id, meta, prices).meta_on(other) == st.meta_on(other),
        other != chain_id ==> st.priced(chain_id, meta, prices).prices_on(other) == st.prices_on(other),
        st.priced(chain_id, meta, prices).watched == st.watched,
        st.priced(chain_id, meta, prices).balances == st.balances,
        st.priced(chain_id, meta, prices).jobs == st.jobs,
        !st.meta.contains_key(other) ==> st.meta_on(other) == Map::<Seq<char>, MetaView>::empty(),
        !st.prices.contains_key(other) ==> st.prices_on(other) == Map::<Seq<char>, QuoteView>::empty(),
        st.meta.contains_key(other) ==> st.meta_on(other) == st.meta[other],
        st.prices.contains_key(other) ==> st.prices_on(other) == st.prices[other],
{
}

/// Legs are kept one after the other: of two for one chain the later counts.
pub proof fn law_legs_are_kept_in_order(
    st: StateView,
    one: Seq<PricedView>,
    other: Seq<PricedView>,
    leg: PricedView,
)
    ensures
        priced_all(st, Seq::empty()) == st,
        priced_all(st, seq![leg]) == st.priced(leg.chain_id, leg.meta, leg.prices),
        priced_all(st, one + other) == priced_all(priced_all(st, one), other),
    decreases one.len(),
{
    reveal_with_fuel(priced_all, 2);
    assert(seq![leg].skip(1) =~= Seq::<PricedView>::empty());
    if one.len() == 0 {
        assert(one + other =~= other);
    } else {
        let first = one[0];
        assert((one + other)[0] == first);
        assert((one + other).skip(1) =~= one.skip(1) + other);
        law_legs_are_kept_in_order(
            st.priced(first.chain_id, first.meta, first.prices),
            one.skip(1),
            other,
            leg,
        );
    }
}

/// One leg of a price refresh asks its own chain for its catalogue, then for the
/// prices of the tokens that the balances hold, each named with its decimals; what
/// it brings is that chain's catalogue and prices.
pub proof fn law_a_leg_prices_its_own_chain(
    chain_id: u64,
    tokens: Seq<JsonView>,
    first: Option<JsonView>,
    catalogue: Option<JsonView>,
    listed: Option<JsonView>,
)
    ensures
        leg_next(LegView::Start { chain_id, tokens }, first) matches LegStepView::Tokens(asked, leg) && {
            &&& asked == chain_id as i64
            &&& leg_next(leg, catalogue) matches LegStepView::Prices(priced, text, next) && {
                &&& priced == chain_id as i64
                &&& exists|v: JsonView|
                    text == #[trigger] json_text(v) && names_tokens(
                        v,
                        held_tokens(tokens, meta_of(items_of(catalogue, "tokens"@))),
                    )
                &&& leg_next(next, listed) matches LegStepView::Done(brought) && {
                    &&& brought.chain_id == chain_id
                    &&& brought.meta == meta_of(items_of(catalogue, "tokens"@))
                    &&& brought.prices == prices_of(items_of(listed, "prices"@))
                }
            }
        },
{
    let held = held_tokens(tokens, meta_of(items_of(catalogue, "tokens"@)));
    law_each_held_token_is_priced(held);
    let v = crate::market::price_request_json(held);
    assert(names_tokens(v, held));
    let leg = LegView::Catalogue { chain_id, tokens };
    assert(leg_next(LegView::Start { chain_id, tokens }, first) == LegStepView::Tokens(
        chain_id as i64,
        leg,
    ));
    assert(leg_next(leg, catalogue)->Prices_1 == json_text(v));
}

/// The request names these tokens, in order, each with its decimals.
pub open spec fn names_tokens(v: JsonView, held: Seq<(Seq<char>, u8)>) -> bool {
    v.get_arr("tokens"@) matches Some(items) && {
        &&& items.len() == held.len()
        &&& forall|i: int|
            #![trigger items[i]]
            #![trigger held[i]]
            0 <= i < held.len() ==> items[i].get_str("address"@) == Some(held[i].0)
                && items[i].get_u64("decimals"@) == Some(held[i].1 as u64)
    }
}

/// The market view of two lists of chains is that of the one and then that of the
/// other: a chain with an id keeps its place, with its own rows made of its own
/// names and prices, and one without is left out.
pub proof fn law_shown_chains_keep_their_order(
    st: StateView,
    one: Seq<JsonView>,
    other: Seq<JsonView>,
    c: JsonView,
    id: u64,
)
    ensures
        st.market_of(one + other) == st.market_of(one) + st.market_of(other),
        c.get_u64("chainId"@) == Some(id) && id != 0 ==> {
            let shown = st.market_of(seq![c]);
            &&& shown.len() == 1
            &&& shown[0].chain_id == id
            &&& shown[0].rows == rows_of(c, st.meta_on(id), st.prices_on(id))
        },
        c.get_u64("chainId"@) is None || c.get_u64("chainId"@) == Some(0u64) ==> st.market_of(
            seq![c],
        ).len() == 0,
    decreases other.len(),
{
    assert(seq![c].drop_last() =~= Seq::<JsonView>::empty());
    assert(seq![c].last() == c);
    assert(st.market_of(seq![c].drop_last()) =~= Seq::<ChainRowsView>::empty());
    if other.len() == 0 {
        assert(one + other =~= one);
        assert(st.market_of(one) + st.market_of(other) =~= st.market_of(one));
    } else {
        law_shown_chains_keep_their_order(st, one, other.drop_last(), c, id);
        assert((one + other).drop_last() =~= one + other.drop_last());
        assert((one + other).last() == other.last());
        assert(st.market_of(one + other) =~= st.market_of(one) + st.market_of(other));
    }
}

/// The market view can be shown unless a held token has neither a name in the
/// catalogue of its chain nor an address that can be shortened.
pub proof fn law_when_the_market_can_be_shown(st: StateView, address: Seq<char>, i: int, k: int)
    ensures
        market_rows_view(None, address) == Err::<Option<Seq<ChainRowsView>>, Seq<char>>(
            "backend not initialized (context not ready)"@,
        ),
        market_rows_view(Some(st), address) is Ok,
        market_rows_view(Some(st), address)->Ok_0 is Some ==> market_rows_view(Some(st), address)->Ok_0->0
            == st.market_of(st.balance_chains(address)),
        ({
            let chains = st.balance_chains(address);
            &&& 0 <= i < chains.len() && chains[i].get_u64("chainId"@) is Some && chains[i].get_u64(
                "chainId"@,
            )->0 != 0 ==> {
                let meta = st.meta_on(chains[i].get_u64("chainId"@)->0);
                let held = held_tokens(items_of(Some(chains[i]), "tokens"@), meta);
                0 <= k < held.len() && !meta.contains_key(lowered(held[k].0)) && !can_shorten(held[k].0)
                    ==> market_rows_view(Some(st), address)->Ok_0 is None
            }
            &&& market_rows_view(Some(st), address)->Ok_0 is None ==> exists|a: int, b: int|
                #[trigger] unlabelled(st, chains, a, b)
        }),
{
    let chains = st.balance_chains(address);
    if 0 <= i < chains.len() && chains[i].get_u64("chainId"@) is Some && chains[i].get_u64("chainId"@)->0
        != 0 {
        let meta = st.meta_on(chains[i].get_u64("chainId"@)->0);
        let held = held_tokens(items_of(Some(chains[i]), "tokens"@), meta);
        if 0 <= k < held.len() && !meta.contains_key(lowered(held[k].0)) && !can_shorten(held[k].0) {
            assert(!crate::market::labels_fit(chains[i], meta));
        }
    }
    if !st.labels_all_fit(chains) {
        let a = choose|a: int|
            #![trigger chains[a]]
            0 <= a < chains.len() && crate::backend::entry_chain(chains[a]) is Some
                && !crate::market::labels_fit(
                chains[a],
                st.meta_on(crate::backend::entry_chain(chains[a])->0),
            );
        let meta = st.meta_on(crate::backend::entry_chain(chains[a])->0);
        let held = held_tokens(items_of(Some(chains[a]), "tokens"@), meta);
        let b = choose|b: int|
            0 <= b < held.len() && !(meta.contains_key(lowered((#[trigger] held[b]).0)) || can_shorten(
                held[b].0,
            ));
        assert(unlabelled(st, chains, a, b));
    }
}

/// Held token `b` of chain `a` has no name and cannot be shortened.
pub open spec fn unlabelled(st: StateView, chains: Seq<JsonView>, a: int, b: int) -> bool {
    &&& 0 <= a < chains.len()
    &&& chains[a].get_u64("chainId"@) matches Some(id) && id != 0 && {
        let held = held_tokens(items_of(Some(chains[a]), "tokens"@), st.meta_on(id));
        0 <= b < held.len() && !st.meta_on(id).contains_key(lowered(held[b].0)) && !can_shorten(
            held[b].0,
        )
    }
}

/// What a refresh of prices begins with: the chains of the account's last balances,
/// nothing where it has none, and an error without state.
pub proof fn law_what_is_to_be_priced(st: StateView, address: Seq<char>)
    ensures
        market_plan(None, address) is NotReady,
        !st.balances.contains_key(address) ==> market_plan(Some(st), address) is Nothing,
        st.balances.contains_key(address) ==> market_plan(Some(st), address) == MarketPlanView::Chains(
            chains_of(items_of(Some(st.balances[address]), "chains"@)),
        ),
{
}

/// What a refresh of balances reads: every configured chain, in order, with its own
/// batching contract and its own watched tokens.
pub proof fn law_every_chain_is_read_with_its_tokens(
    st: StateView,
    chains: Seq<(u64, Option<Seq<char>>)>,
)
    ensures
        balance_specs(st, chains).len() == chains.len(),
        forall|i: int|
            #![trigger balance_specs(st, chains)[i]]
            #![trigger chains[i]]
            0 <= i < chains.len() ==> {
                let spec = balance_specs(st, chains)[i];
                &&& spec.chain_id == chains[i].0
                &&& spec.multicall == chains[i].1
                &&& spec.tokens == st.watched_on(chains[i].0)
            },
{
}

/// A member that is asked for comes in an envelope that says it is well; a module
/// without state answers that it has none.
pub proof fn law_a_member_is_answered(key: Seq<char>, value: JsonView)
    requires
        key != "ok"@,
    ensures
        exists|v: JsonView|
            member_text(true, key, value) == #[trigger] json_text(v) && v.get_bool("ok"@) == Some(true)
                && v.get(key) == Some(value) && member_count(v) == 2,
        answers_error(
            StepView::Done(member_text(false, key, value)),
            "backend not initialized (context not ready)"@,
        ),
{
    broadcast use {
        law_a_member_counts_once,
        law_a_member_is_found,
        law_an_empty_object_has_no_members,
    };

    let v = crate::backend::member_json(key, value);
    assert(v.get_bool("ok"@) == Some(true) && v.get(key) == Some(value));
    assert(member_text(true, key, value) == json_text(v));
    crate::json_laws::law_an_error_is_read_as_that_error(
        "backend not initialized (context not ready)"@,
    );
}

/// Texts that are written as an array are read back as they were; an array with
/// anything else in it, and anything but an array, is no list of texts.
pub proof fn law_texts_read_back(
    v: Seq<Seq<char>>,
    items: Seq<JsonView>,
    other: JsonView,
    e: Seq<char>,
    i: int,
)
    ensures
        texts_json(v) matches JsonView::Arr(a) && a.len() == v.len() && forall|k: int|
            #![trigger a[k]]
            #![trigger v[k]]
            0 <= k < v.len() ==> a[k] == JsonView::Str(v[k]),
        text_list(Ok(texts_json(v))) == Some(v),
        0 <= i < items.len() && !(items[i] is Str) ==> text_list(Ok(JsonView::Arr(items))) is None,
        !(other is Arr) ==> text_list(Ok(other)) is None,
        text_list(Err(e)) is None,
{
    let a = texts_json(v)->Arr_0;
    assert(a.map_values(|j: JsonView| j->Str_0) =~= v);
}

/// The configs that are pushed of two lists of chains are those of the one and then
/// those of the other: a chain with a config keeps its place with its own config,
/// and one without is left out.
pub proof fn law_configs_keep_their_order(
    one: Seq<(u64, Option<JsonView>)>,
    other: Seq<(u64, Option<JsonView>)>,
    chain_id: u64,
    config: JsonView,
)
    ensures
        pushes_of(one + other) == pushes_of(one) + pushes_of(other),
        pushes_of(seq![(chain_id, Some(config))]) == seq![(chain_id as i64, json_text(config))],
        pushes_of(seq![(chain_id, None::<JsonView>)]) == Seq::<(i64, Seq<char>)>::empty(),
    decreases other.len(),
{
    let some = seq![(chain_id, Some(config))];
    let none = seq![(chain_id, None::<JsonView>)];
    assert(some.drop_last() =~= Seq::<(u64, Option<JsonView>)>::empty());
    assert(none.drop_last() =~= Seq::<(u64, Option<JsonView>)>::empty());
    assert(pushes_of(some.drop_last()) =~= Seq::<(i64, Seq<char>)>::empty());
    assert(pushes_of(some) =~= seq![(chain_id as i64, json_text(config))]);
    assert(pushes_of(none) =~= Seq::<(i64, Seq<char>)>::empty());
    if other.len() == 0 {
        assert(one + other =~= one);
        assert(pushes_of(one) + pushes_of(other) =~= pushes_of(one));
    } else {
        law_configs_keep_their_order(one, other.drop_last(), chain_id, config);
        assert((one + other).drop_last() =~= one + other.drop_last());
        assert((one + other).last() == other.last());
        assert(pushes_of(one + other) =~= pushes_of(one) + pushes_of(other));
    }
}

/// What was saved is what can be read of the text; nothing was saved where there is
/// none or it cannot be read.
pub proof fn law_what_was_saved_is_loaded(
    text: Seq<char>,
    v: JsonView,
    members: Seq<(Seq<char>, JsonView)>,
    key: Seq<char>,
)
    ensures
        watched_parse(text) is Some ==> saved_watched(Some(text)) == watched_parse(text)->0,
        watched_parse(text) is None ==> saved_watched(Some(text)) == Map::<u64, Seq<Seq<char>>>::empty(),
        saved_watched(None) == Map::<u64, Seq<Seq<char>>>::empty(),
        labels_parse(text) is Some ==> saved_labels(Some(text)) == labels_parse(text)->0,
        labels_parse(text) is None ==> saved_labels(Some(text)) == Map::<Seq<char>, Seq<char>>::empty(),
        saved_labels(None) == Map::<Seq<char>, Seq<char>>::empty(),
        v is Obj ==> (saved_balances(Some(v)).contains_key(key) <==> v.get(key) is Some),
        v is Obj && v.get(key) is Some ==> saved_balances(Some(v))[key] == v.get(key)->0,
        !(v is Obj) ==> saved_balances(Some(v)) == Map::<Seq<char>, JsonView>::empty(),
        saved_balances(None) == Map::<Seq<char>, JsonView>::empty(),
        members_map(members).contains_key(key) <==> JsonView::Obj(members).get(key) is Some,
        members_map(members).contains_key(key) ==> Some(members_map(members)[key]) == JsonView::Obj(
            members,
        ).get(key),
{
}

/// What is parked is the state's, and a module without state parks nothing;
/// parking changes nothing else of the state.
pub proof fn law_parking_changes_the_parked_only(st: StateView, jobs: Map<Seq<char>, PendingView>)
    ensures
        jobs_of(Some(st)) == st.jobs,
        jobs_of(None) == Map::<Seq<char>, PendingView>::empty(),
        with_jobs(None, jobs) is None,
        with_jobs(Some(st), jobs) matches Some(after) && {
            &&& after.jobs == jobs
            &&& after.watched == st.watched
            &&& after.balances == st.balances
            &&& after.prices == st.prices
            &&& after.meta == st.meta
        },
{
}

/// The id of a job is its number after a `j`.
pub proof fn law_a_job_id_is_its_number(n: u64)
    ensures
        job_id(n).len() > 1,
        job_id(n)[0] == 'j',
        digits_value(job_id(n).skip(1), 10) == Some(n as nat),
{
    law_decimal_reads_back(n as nat);
    assert(job_id(n).skip(1) =~= crate::text::decimal_text(n as nat));
}

/// A start takes the next number and the youngest place: below the cap nothing
/// else moves, and at the cap the oldest goes.
pub proof fn law_a_start_takes_the_youngest_place(b: BoardView)
    requires
        b.wf(),
    ensures
        BoardView::fresh().next == 1,
        BoardView::fresh().order.len() == 0,
        BoardView::fresh().by_id == Map::<Seq<char>, Option<Seq<char>>>::empty(),
        CAPACITY == 64,
        b.next < u64::MAX ==> b.started().next == b.next + 1,
        b.next == u64::MAX ==> b.started().next == 0,
        b.order.len() < 64 ==> b.started().order == b.order.push(job_id(b.next)),
        b.order.len() == 64 ==> b.started().order == b.order.skip(1).push(job_id(b.next)),
        b.order.len() < 64 ==> b.started().by_id == b.by_id.insert(job_id(b.next), None),
        b.order.len() == 64 ==> b.started().by_id == b.by_id.remove(b.order[0]).insert(
            job_id(b.next),
            None,
        ),
{
    if b.order.len() < 64 {
        assert(b.order.skip(0) =~= b.order);
        assert(b.order.take(0).to_set() =~= Set::<Seq<char>>::empty());
        assert(b.by_id.remove_keys(b.order.take(0).to_set()) =~= b.by_id);
    } else {
        assert(b.order.take(1) =~= seq![b.order[0]]);
        assert(b.order.take(1)[0] == b.order[0]);
        assert forall|k: Seq<char>| b.order.take(1).to_set().contains(k) <==> k == b.order[0] by {
            if k == b.order[0] {
                assert(b.order.take(1).contains(k));
            }
        }
        assert(b.by_id.remove_keys(b.order.take(1).to_set()) =~= b.by_id.remove(b.order[0]));
    }
}

/// An answer that lands is the one to be collected, in place of any before it, for
/// a job that is on the board; for any other it changes nothing.
pub proof fn law_the_last_answer_counts(b: BoardView, id: Seq<char>, answer: Seq<char>, other: Seq<char>)
    ensures
        b.by_id.contains_key(id) ==> b.completed(id, answer).found(id) == JobView::Ready(answer),
        !b.by_id.contains_key(id) ==> b.completed(id, answer) == b,
        other != id ==> b.completed(id, answer).found(other) == b.found(other),
        b.completed(id, answer).order == b.order,
        b.completed(id, answer).next == b.next,
        b.by_id.contains_key(id) ==> parked_answer(b, id, StepView::Done(answer)).found(id)
            == JobView::Ready(answer),
        parked_answer(b, id, StepView::Done(answer)) == b.completed(id, answer),
{
}

/// A collect that finds no answer changes nothing; one that finds it frees that
/// job's place and no other, and the rest keep their order.
pub proof fn law_a_collect_frees_one_place(b: BoardView, id: Seq<char>, i: int, other: Seq<char>)
    requires
        b.wf(),
    ensures
        !(b.found(id) is Ready) ==> b.taken(id) == b,
        b.found(id) is Ready ==> b.taken(id).found(id) is Unknown,
        other != id ==> b.taken(id).found(other) == b.found(other),
        b.taken(id).next == b.next,
        b.found(id) is Ready && 0 <= i < b.order.len() && b.order[i] == id ==> b.taken(id).order
            == b.order.take(i) + b.order.skip(i + 1),
        b.found(id) is Pending <==> b.by_id.contains_key(id) && b.by_id[id] is None,
        b.found(id) is Unknown <==> !b.by_id.contains_key(id),
{
    if b.found(id) is Ready && 0 <= i < b.order.len() && b.order[i] == id {
        let head = b.order.take(i);
        let tail = b.order.skip(i + 1);
        assert(b.order =~= head + seq![id] + tail);
        assert forall|k: int| 0 <= k < head.len() implies #[trigger] head[k] != id by {
            assert(head[k] == b.order[k]);
        }
        assert forall|k: int| 0 <= k < tail.len() implies #[trigger] tail[k] != id by {
            assert(tail[k] == b.order[k + i + 1]);
        }
        lemma_without_joined(head + seq![id], tail, id);
        lemma_without_joined(head, seq![id], id);
        lemma_without_none(head, id);
        lemma_without_none(tail, id);
        reveal_with_fuel(Seq::filter, 2);
        assert(seq![id].drop_last() =~= Seq::<Seq<char>>::empty());
        assert(without(seq![id], id) =~= Seq::<Seq<char>>::empty());
        assert(without(b.order, id) =~= head + tail);
    }
}

proof fn lemma_without_joined(a: Seq<Seq<char>>, b: Seq<Seq<char>>, id: Seq<char>)
    ensures
        without(a + b, id) == without(a, id) + without(b, id),
    decreases b.len(),
{
    reveal(Seq::filter);
    if b.len() > 0 {
        assert((a + b).drop_last() =~= a + b.drop_last());
        assert((a + b).last() == b.last());
        lemma_without_joined(a, b.drop_last(), id);
        assert(without(a + b, id) =~= without(a, id) + without(b, id));
    } else {
        assert(a + b =~= a);
        assert(without(a, id) + without(b, id) =~= without(a, id));
    }
}

proof fn lemma_without_none(s: Seq<Seq<char>>, id: Seq<char>)
    requires
        forall|k: int| 0 <= k < s.len() ==> #[trigger] s[k] != id,
    ensures
        without(s, id) == s,
    decreases s.len(),
{
    reveal(Seq::filter);
    if s.len() > 0 {
        assert forall|k: int| 0 <= k < s.drop_last().len() implies #[trigger] s.drop_last()[k] != id by {
            assert(s[k] != id);
        }
        lemma_without_none(s.drop_last(), id);
        assert(s[s.len() - 1] != id);
        assert(s.drop_last().push(s.last()) =~= s);
    } else {
        assert(without(s, id) =~= s);
    }
}

/// A method that is started answers with its job's id at once and takes the first
/// step that a waiting caller would; the job has the answer where that step gave
/// one, and is pending where it did not.
pub proof fn law_a_start_takes_the_first_step(f: FlowView, now: u64, st: StateView, board: BoardView)
    ensures
        ({
            let (s, g, after, left) = start_of(f, now, Some(st), board);
            let (h, jobs, turn) = f.next(None, now, st.jobs);
            &&& s.job == job_id(board.next)
            &&& exists|v: JsonView|
                s.answer == #[trigger] json_text(v) && v.get_bool("ok"@) == Some(true) && v.get_str(
                    "jobId"@,
                ) == Some(job_id(board.next)) && member_count(v) == 2
            &&& s.turn == turn
            &&& g == h
            &&& after matches Some(kept) && kept.jobs == jobs && kept.watched == st.watched
                && kept.balances == st.balances && kept.prices == st.prices && kept.meta == st.meta
            &&& left.found(s.job) == (match turn.next {
                StepView::Done(answer) => JobView::Ready(answer),
                _ => JobView::Pending,
            })
        }),
        start_of(f, now, None, board).2 is None,
        start_of(f, now, None, board).0.turn == f.next(None, now, Map::empty()).2,
{
    law_a_collect_says_what_it_found(job_id(board.next), job_id(board.next));
    let v = crate::plans::started_json(job_id(board.next));
    assert(v.get_bool("ok"@) == Some(true));
}

} // verus!
