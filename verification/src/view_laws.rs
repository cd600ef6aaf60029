//! What the parts of a value stand for: each part for itself, in its own place.

use crate::address::{res_address, Address};
use crate::amount::U256;
use crate::backend::{
    configured_views, market_views, opt_texts, res_market, spec_views, ChainSpec, MarketPlan,
    MarketPlanView, State,
};
use crate::balances::{amounts, call_views, opt_json, ChainFetch, FetchView};
use crate::config::{config_views, push_views};
use crate::flow::{
    opt_bytes, parked, Call, CallView, Effect, EffectView, Fee, FeeView, PendingJob, Step, StepView,
    Turn, TxDraft, TxRecord,
};
use crate::jobs::{opt_text, texts, Job, JobView};
use crate::json::{json_views, member_views, res_json, res_text, Json, JsonView, Num, NumView};
use crate::market::{
    chain_views, held_views, metas, quotes, row_views, value_views, ChainRows, ChainRowsView,
    MarketRow, Quote, TokenMeta,
};
use crate::market_flow::{priced_views, LegStep, LegStepView, LegView, MarketLeg, PricedChain};
use crate::plans::{res_flow, Finish, FinishView, Flow, FlowView, Started};
use crate::send::{opt_res_json, opt_res_text, res_params, SendParams, SendParamsView};
use crate::store::{balances_view, labels_view, watched_view};
use crate::strmap::StrMap;
use vstd::prelude::*;

verus! {

/// A JSON value stands for itself: a text for its text, an array for its items and
/// an object for its members, in their order.
pub proof fn law_json_stands_for_itself(
    b: bool,
    n: u64,
    m: i64,
    s: String,
    items: Vec<Json>,
    members: Vec<(String, Json)>,
)
    ensures
        Json::Null@ == JsonView::Null,
        Json::Bool(b)@ == JsonView::Bool(b),
        Json::Num(Num::Pos(n))@ == JsonView::Num(NumView::Pos(n)),
        Json::Num(Num::Neg(m))@ == JsonView::Num(NumView::Neg(m)),
        Json::Num(Num::Float(s))@ == JsonView::Num(NumView::Float(s@)),
        Json::Str(s)@ == JsonView::Str(s@),
        Json::Arr(items)@ matches JsonView::Arr(v) && v.len() == items@.len() && forall|i: int|
            0 <= i < v.len() ==> #[trigger] v[i] == items@[i]@,
        Json::Obj(members)@ matches JsonView::Obj(v) && v.len() == members@.len() && forall|i: int|
            0 <= i < v.len() ==> #[trigger] v[i] == (members@[i].0@, members@[i].1@),
        json_views(items@).len() == items@.len(),
        forall|i: int| 0 <= i < items@.len() ==> #[trigger] json_views(items@)[i] == items@[i]@,
        member_views(members@).len() == members@.len(),
        forall|i: int|
            0 <= i < members@.len() ==> #[trigger] member_views(members@)[i] == (
                members@[i].0@,
                members@[i].1@,
            ),
{
}

/// What a caller asks for stands for its own members.
pub proof fn law_a_request_stands_for_its_members(p: SendParams)
    ensures
        p@.from == p.from@,
        p@.to == p.to@,
        p@.chain_id == p.chain_id,
        p@.amount == p.amount@,
        p@.token_address == p.token_address@,
        p@.tier == opt_text(p.tier),
        p@.max_fee_per_gas == opt_text(p.max_fee_per_gas),
        p@.max_priority_fee_per_gas == opt_text(p.max_priority_fee_per_gas),
        p@.gas_limit == opt_text(p.gas_limit),
{
}

/// A transaction to be built stands for its own members.
pub proof fn law_a_draft_stands_for_its_members(
    d: TxDraft,
    max_fee_per_gas: U256,
    max_priority_fee_per_gas: U256,
)
    ensures
        d@.to == d.to@,
        d@.token is Some <==> d.token is Some,
        d.token is Some ==> d@.token->0 == d.token->0@,
        d@.amount == d.amount@,
        d@.nonce == d.nonce,
        d@.gas_limit == d.gas_limit,
        d@.fee == d.fee@,
        (Fee::Eip1559 { max_fee_per_gas, max_priority_fee_per_gas })@ == (FeeView::Eip1559 {
            max_fee_per_gas: max_fee_per_gas@,
            max_priority_fee_per_gas: max_priority_fee_per_gas@,
        }),
{
}

/// A transaction of the history, and one that is parked, stand for their own
/// members.
pub proof fn law_a_record_stands_for_its_members(
    r: TxRecord,
    p: PendingJob,
    jobs: Map<Seq<char>, PendingJob>,
    id: Seq<char>,
)
    ensures
        r@.hash == r.hash@,
        r@.chain_id == r.chain_id,
        r@.from == r.from@,
        r@.to == r.to@,
        r@.value == r.value@,
        r@.kind == r.kind@,
        r@.token == opt_text(r.token),
        r@.status == r.status@,
        r@.timestamp == r.timestamp,
        p@.chain_id == p.chain_id,
        p@.receipt == p.receipt@,
        p@.record == p.record@,
        parked(jobs).contains_key(id) == jobs.contains_key(id),
        jobs.contains_key(id) ==> parked(jobs)[id] == jobs[id]@,
{
}

/// A call stands for what it asks, of whom it asks it.
pub proof fn law_a_call_stands_for_itself(c: i64, a: String, b: String)
    ensures
        Call::EthVerifyChainId(c)@ == CallView::EthVerifyChainId(c),
        Call::EthTransactionCount(c, a)@ == CallView::EthTransactionCount(c, a@),
        Call::EthEstimateGas(c, a)@ == CallView::EthEstimateGas(c, a@),
        Call::EthSendRawTransaction(c, a)@ == CallView::EthSendRawTransaction(c, a@),
        Call::EthTransactionReceipt(c, a)@ == CallView::EthTransactionReceipt(c, a@),
        Call::KeystoreRequestApproval(a)@ == CallView::KeystoreRequestApproval(a@),
        Call::KeystoreApprovalStatus(a, b)@ == CallView::KeystoreApprovalStatus(a@, b@),
        Call::KeystoreFetchResult(a, b)@ == CallView::KeystoreFetchResult(a@, b@),
        Call::KeystoreAckResult(a, b)@ == CallView::KeystoreAckResult(a@, b@),
        Call::KeystoreImportMnemonic(a)@ == CallView::KeystoreImportMnemonic(a@),
        Call::KeystoreListAccounts@ == CallView::KeystoreListAccounts,
        Call::TokenListGetTokens(c)@ == CallView::TokenListGetTokens(c),
        Call::TokenListAddCustomToken(a)@ == CallView::TokenListAddCustomToken(a@),
        Call::FeeEstimate(c, a)@ == CallView::FeeEstimate(c, a@),
{
}

/// A turn stands for its effects in their order and for what comes next.
pub proof fn law_a_turn_stands_for_its_steps(t: Turn, c: Call, d: TxDraft, s: String)
    ensures
        t@.effects.len() == t.effects@.len(),
        forall|i: int| 0 <= i < t.effects@.len() ==> #[trigger] t@.effects[i] == t.effects@[i]@,
        t@.next == t.next@,
        Step::Call(c)@ == StepView::Call(c@),
        Step::Build(d)@ == StepView::Build(d@),
        Step::Done(s)@ == StepView::Done(s@),
{
}

/// A holding, the holdings of a chain, and what is known of a token stand for their
/// own members.
pub proof fn law_a_holding_stands_for_its_members(
    row: MarketRow,
    chain: ChainRows,
    meta: TokenMeta,
    quote: Quote,
    known: Map<Seq<char>, TokenMeta>,
    priced: Map<Seq<char>, Quote>,
    key: Seq<char>,
)
    ensures
        row@.address == row.address@,
        row@.symbol == row.symbol@,
        row@.decimals == row.decimals,
        row@.balance == row.balance@,
        row@.eth == opt_text(row.eth),
        row@.usd == opt_text(row.usd),
        chain@.chain_id == chain.chain_id,
        chain@.rows == row_views(chain.rows@),
        meta@.symbol == meta.symbol@,
        meta@.decimals == meta.decimals,
        quote@.eth == opt_text(quote.eth),
        quote@.usd == opt_text(quote.usd),
        metas(known).contains_key(key) == known.contains_key(key),
        known.contains_key(key) ==> metas(known)[key] == known[key]@,
        quotes(priced).contains_key(key) == priced.contains_key(key),
        priced.contains_key(key) ==> quotes(priced)[key] == priced[key]@,
{
}

/// A list stands for its items, each in its own place.
pub proof fn law_lists_keep_their_places(
    strings: Seq<String>,
    rows: Seq<MarketRow>,
    values: Seq<Option<String>>,
    held: Seq<(String, u8)>,
    chains: Seq<(u64, Vec<Json>)>,
    calls: Seq<(Address, Vec<u8>)>,
    numbers: Seq<U256>,
    i: int,
)
    ensures
        texts(strings).len() == strings.len(),
        0 <= i < strings.len() ==> texts(strings)[i] == strings[i]@,
        row_views(rows).len() == rows.len(),
        0 <= i < rows.len() ==> row_views(rows)[i] == rows[i]@,
        value_views(values).len() == values.len(),
        0 <= i < values.len() ==> value_views(values)[i] == opt_text(values[i]),
        held_views(held).len() == held.len(),
        0 <= i < held.len() ==> held_views(held)[i] == (held[i].0@, held[i].1),
        chain_views(chains).len() == chains.len(),
        0 <= i < chains.len() ==> chain_views(chains)[i] == (chains[i].0, json_views(chains[i].1@)),
        call_views(calls).len() == calls.len(),
        0 <= i < calls.len() ==> call_views(calls)[i] == (calls[i].0@, calls[i].1@),
        amounts(numbers).len() == numbers.len(),
        0 <= i < numbers.len() ==> amounts(numbers)[i] == numbers[i]@,
{
}

/// Chains that are configured, read or pushed stand for their own members, each in
/// its own place.
pub proof fn law_chains_keep_their_places(
    spec: ChainSpec,
    specs: Seq<ChainSpec>,
    configured: Seq<(u64, Option<String>)>,
    configs: Seq<(u64, Option<Json>)>,
    pushes: Seq<(i64, String)>,
    i: int,
)
    ensures
        spec@.chain_id == spec.chain_id,
        spec@.multicall == opt_text(spec.multicall),
        spec@.tokens == texts(spec.tokens@),
        spec_views(specs).len() == specs.len(),
        0 <= i < specs.len() ==> spec_views(specs)[i] == specs[i]@,
        configured_views(configured).len() == configured.len(),
        0 <= i < configured.len() ==> configured_views(configured)[i] == (
            configured[i].0,
            opt_text(configured[i].1),
        ),
        config_views(configs).len() == configs.len(),
        0 <= i < configs.len() ==> config_views(configs)[i].0 == configs[i].0,
        0 <= i < configs.len() && configs[i].1 is None ==> config_views(configs)[i].1 is None,
        0 <= i < configs.len() && configs[i].1 is Some ==> config_views(configs)[i].1 == Some(
            configs[i].1->0@,
        ),
        push_views(pushes).len() == pushes.len(),
        0 <= i < pushes.len() ==> push_views(pushes)[i] == (pushes[i].0, pushes[i].1@),
{
}

/// A text that may be missing stands for itself.
pub proof fn law_a_text_or_nothing(s: String)
    ensures
        opt_text(Some(s)) == Some(s@),
        opt_text(None) is None,
{
}

/// What is kept stands for its own members, by chain and by account.
pub proof fn law_a_state_stands_for_its_members(
    st: State,
    chain_id: u64,
    watched: Map<u64, Vec<String>>,
    balances: Map<Seq<char>, Json>,
    labels: Map<Seq<char>, String>,
    address: Seq<char>,
)
    ensures
        st@.watched == watched_view(st.watched@),
        st@.balances == balances_view(st.balances@),
        st@.jobs == parked(st.jobs@),
        st@.prices.contains_key(chain_id) == st.prices@.contains_key(chain_id),
        st.prices@.contains_key(chain_id) ==> st@.prices[chain_id] == quotes(st.prices@[chain_id]@),
        st@.meta.contains_key(chain_id) == st.meta@.contains_key(chain_id),
        st.meta@.contains_key(chain_id) ==> st@.meta[chain_id] == metas(st.meta@[chain_id]@),
        watched_view(watched).contains_key(chain_id) == watched.contains_key(chain_id),
        watched.contains_key(chain_id) ==> watched_view(watched)[chain_id] == texts(
            watched[chain_id]@,
        ),
        balances_view(balances).contains_key(address) == balances.contains_key(address),
        balances.contains_key(address) ==> balances_view(balances)[address] == balances[address]@,
        labels_view(labels).contains_key(address) == labels.contains_key(address),
        labels.contains_key(address) ==> labels_view(labels)[address] == labels[address]@,
{
}

/// A result stands for what came or for why it did not.
pub proof fn law_results_stand_for_themselves(
    p: SendParams,
    flow: Flow,
    a: Address,
    s: String,
    j: Json,
    list: Vec<String>,
    rows: Vec<ChainRows>,
    e: String,
)
    ensures
        res_params(Ok(p)) == Ok::<SendParamsView, Seq<char>>(p@),
        res_params(Err(e)) == Err::<SendParamsView, Seq<char>>(e@),
        res_flow(Ok(flow)) == Ok::<FlowView, Seq<char>>(flow@),
        res_flow(Err(e)) == Err::<FlowView, Seq<char>>(e@),
        res_address(Ok(a)) == Ok::<Seq<u8>, Seq<char>>(a@),
        res_address(Err(e)) == Err::<Seq<u8>, Seq<char>>(e@),
        res_text(Ok(s)) == Ok::<Seq<char>, Seq<char>>(s@),
        res_text(Err(e)) == Err::<Seq<char>, Seq<char>>(e@),
        res_json(Ok(j)) == Ok::<JsonView, Seq<char>>(j@),
        res_json(Err(e)) == Err::<JsonView, Seq<char>>(e@),
        opt_res_text(None) is None,
        opt_res_text(Some(Ok(s))) == Some(Ok::<Seq<char>, Seq<char>>(s@)),
        opt_res_text(Some(Err(e))) == Some(Err::<Seq<char>, Seq<char>>(e@)),
        opt_res_json(None) is None,
        opt_res_json(Some(Ok(j))) == Some(Ok::<JsonView, Seq<char>>(j@)),
        opt_res_json(Some(Err(e))) == Some(Err::<JsonView, Seq<char>>(e@)),
        opt_json(Some(j)) == Some(j@),
        opt_json(None) is None,
        opt_texts(Some(list)) == Some(texts(list@)),
        opt_texts(None) is None,
        opt_bytes(Some(a)) == Some(a@),
        opt_bytes(None) is None,
        res_market(Ok(Some(rows))) == Ok::<Option<Seq<ChainRowsView>>, Seq<char>>(
            Some(market_views(rows@)),
        ),
        res_market(Ok(None)) == Ok::<Option<Seq<ChainRowsView>>, Seq<char>>(None),
        res_market(Err(e)) == Err::<Option<Seq<ChainRowsView>>, Seq<char>>(e@),
        market_views(rows@).len() == rows@.len(),
        forall|i: int| 0 <= i < rows@.len() ==> #[trigger] market_views(rows@)[i] == rows@[i]@,
{
}

/// What a host has to do stands for itself.
pub proof fn law_an_effect_stands_for_itself(r: TxRecord, a: String, b: String)
    ensures
        Effect::RecordTx(r)@ == EffectView::RecordTx(r@),
        Effect::UpdateTxStatus(a, b)@ == EffectView::UpdateTxStatus(a@, b@),
        Effect::TxStatusChanged(a)@ == EffectView::TxStatusChanged(a@),
        Effect::LabelAccount(a, b)@ == EffectView::LabelAccount(a@, b@),
{
}

/// What a job answers, what a start gives and how a chain is asked stand for
/// themselves.
pub proof fn law_an_answer_stands_for_itself(
    s: String,
    calls: Vec<String>,
    started: Started,
    label: String,
    ready: bool,
)
    ensures
        Job::Pending@ == JobView::Pending,
        Job::Ready(s)@ == JobView::Ready(s@),
        Job::Unknown@ == JobView::Unknown,
        started@.answer == started.answer@,
        started@.job == started.job@,
        started@.turn == started.turn@,
        ChainFetch::Multicall(s)@ == FetchView::Multicall(s@),
        ChainFetch::Individual(calls)@ == FetchView::Individual(texts(calls@)),
        Finish::Passthrough@ == FinishView::Passthrough,
        Finish::AddCustomToken@ == FinishView::AddCustomToken,
        (Finish::ImportMnemonic { label, ready })@ == (FinishView::ImportMnemonic { label: label@, ready }),
        (Finish::TxStatus { hash: s, ready })@ == (FinishView::TxStatus { hash: s@, ready }),
{
}

/// A leg of a price refresh, and what it brings, stand for their own members.
pub proof fn law_a_leg_stands_for_its_members(
    chain_id: u64,
    asked: i64,
    request: String,
    tokens: Vec<Json>,
    meta: StrMap<TokenMeta>,
    leg: MarketLeg,
    c: PricedChain,
    legs: Seq<PricedChain>,
    chains: Vec<(u64, Vec<Json>)>,
    i: int,
)
    ensures
        (MarketLeg::Start { chain_id, tokens })@ == (LegView::Start {
            chain_id,
            tokens: json_views(tokens@),
        }),
        (MarketLeg::Catalogue { chain_id, tokens })@ == (LegView::Catalogue {
            chain_id,
            tokens: json_views(tokens@),
        }),
        (MarketLeg::Prices { chain_id, meta })@ == (LegView::Prices { chain_id, meta: metas(meta@) }),
        LegStep::Tokens(asked, leg)@ == LegStepView::Tokens(asked, leg@),
        LegStep::Prices(asked, request, leg)@ == LegStepView::Prices(asked, request@, leg@),
        LegStep::Done(c)@ == LegStepView::Done(c@),
        c@.chain_id == c.chain_id,
        c@.meta == metas(c.meta@),
        c@.prices == quotes(c.prices@),
        priced_views(legs).len() == legs.len(),
        0 <= i < legs.len() ==> priced_views(legs)[i] == legs[i]@,
        MarketPlan::NotReady@ == MarketPlanView::NotReady,
        MarketPlan::Nothing@ == MarketPlanView::Nothing,
        MarketPlan::Chains(chains)@ == MarketPlanView::Chains(chain_views(chains@)),
{
}

} // verus!
