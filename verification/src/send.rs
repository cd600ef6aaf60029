//! Sends: a nonce, a fee, a gas limit, then a human.

use crate::address::{address_of, checksum_text, data_hex, data_text, parse_addr, Address};
use crate::amount::{amount_of, parse_u256_str, quantity_text, U256};
use crate::flow::{
    answer_with, done, failed, opt_bytes, parked, quiet, turn, Call, CallView, Fee, FeeView,
    PendingJob, PendingView, Step, StepView, Turn, TurnView, TxDraft, TxDraftView, TxRecord,
    TxRecordView,
};
use crate::jobs::opt_text;
use crate::json::{
    err_json, json_parse, parse_json, reply_view, res_json, res_text, str_or_null, Json, JsonView,
    Num, NumView,
};
use crate::strmap::StrMap;
use crate::text::{decimal_text, hex_u64, parse_hex_u64};
use vstd::prelude::*;

verus! {

/// What a caller asks for in a send or a fee quote.
pub struct SendParams {
    pub from: String,
    pub to: String,
    pub chain_id: u64,
    /// Wei for a native send, base units of the token for a token transfer.
    pub amount: String,
    /// Empty for a native send.
    pub token_address: String,
    /// A suggested fee: "slow", "normal" or "fast".
    pub tier: Option<String>,
    pub max_fee_per_gas: Option<String>,
    pub max_priority_fee_per_gas: Option<String>,
    pub gas_limit: Option<String>,
}

/// What [`SendParams`] say.
pub struct SendParamsView {
    pub from: Seq<char>,
    pub to: Seq<char>,
    pub chain_id: u64,
    pub amount: Seq<char>,
    pub token_address: Seq<char>,
    pub tier: Option<Seq<char>>,
    pub max_fee_per_gas: Option<Seq<char>>,
    pub max_priority_fee_per_gas: Option<Seq<char>>,
    pub gas_limit: Option<Seq<char>>,
}

impl View for SendParams {
    type V = SendParamsView;

    open spec fn view(&self) -> SendParamsView {
        SendParamsView {
            from: self.from@,
            to: self.to@,
            chain_id: self.chain_id,
            amount: self.amount@,
            token_address: self.token_address@,
            tier: opt_text(self.tier),
            max_fee_per_gas: opt_text(self.max_fee_per_gas),
            max_priority_fee_per_gas: opt_text(self.max_priority_fee_per_gas),
            gas_limit: opt_text(self.gas_limit),
        }
    }
}

/// What is asked of the fee dependency: the tier, "normal" without one, and the
/// caller's own fee and gas limit, which are passed on as they are.
pub open spec fn fee_request(p: SendParamsView) -> JsonView {
    JsonView::object()
        .with("tier"@, JsonView::Str(if p.tier is Some { p.tier->0 } else { "normal"@ }))
        .with("maxFeePerGas"@, str_or_null(p.max_fee_per_gas))
        .with("maxPriorityFeePerGas"@, str_or_null(p.max_priority_fee_per_gas))
        .with("gasLimit"@, str_or_null(p.gas_limit))
}

/// Build what is asked of the fee dependency.
pub fn fee_request_json(p: &SendParams) -> (r: Json)
    ensures
        r@ == fee_request(p@),
{
    let tier: Json = match &p.tier {
        Some(t) => Json::text(t.as_str()),
        None => Json::text("normal"),
    };
    Json::object().with("tier", tier).with("maxFeePerGas", Json::text_or_null(&p.max_fee_per_gas))
        .with("maxPriorityFeePerGas", Json::text_or_null(&p.max_priority_fee_per_gas))
        .with("gasLimit", Json::text_or_null(&p.gas_limit))
}

/// What is waited for.
#[derive(Debug, Clone, Copy, PartialEq, Eq)]
pub enum SendStage {
    Nonce,
    Fee,
    Gas,
    Build,
    Approve,
}

/// A send on its way to a human.
///
/// Strictly one request after another: the fee is asked for once the nonce is
/// in, the gas limit once the fee is, and a human is asked to sign what was
/// built from all three.
pub struct SendFlow {
    stage: SendStage,
    chain_id: u64,
    from: String,
    /// The recipient as the caller spelled it, for the history.
    to: String,
    to_addr: Address,
    /// The token of a token transfer.
    token: Option<Address>,
    amount: U256,
    fee_req: String,
    est_tx: String,
    default_gas: u64,
    nonce: u64,
    fee: Option<Fee>,
    gas_limit: u64,
}

/// The state of a [`SendFlow`].
pub struct SendView {
    pub stage: SendStage,
    pub chain_id: u64,
    pub from: Seq<char>,
    pub to: Seq<char>,
    pub to_addr: Seq<u8>,
    pub token: Option<Seq<u8>>,
    pub amount: nat,
    pub fee_req: Seq<char>,
    pub est_tx: Seq<char>,
    pub default_gas: u64,
    pub nonce: u64,
    pub fee: Option<FeeView>,
    pub gas_limit: u64,
}

impl SendView {
    /// Once gas is asked for, the fee is in.
    pub open spec fn wf(self) -> bool {
        self.stage is Gas ==> self.fee is Some
    }
}

impl View for SendFlow {
    type V = SendView;

    closed spec fn view(&self) -> SendView {
        SendView {
            stage: self.stage,
            chain_id: self.chain_id,
            from: self.from@,
            to: self.to@,
            to_addr: self.to_addr@,
            token: opt_bytes(self.token),
            amount: self.amount@,
            fee_req: self.fee_req@,
            est_tx: self.est_tx@,
            default_gas: self.default_gas,
            nonce: self.nonce,
            fee: match self.fee {
                Some(fee) => Some(fee@),
                None => None,
            },
            gas_limit: self.gas_limit,
        }
    }
}

/// What a method answers before the module has its state.
pub open spec fn not_ready() -> Seq<char> {
    "backend not initialized (context not ready)"@
}

/// What the gas estimate is run against.
pub open spec fn estimate_tx(p: SendParamsView, token: Option<Seq<u8>>, data: Seq<u8>) -> JsonView {
    match token {
        Some(t) => JsonView::object().with("from"@, JsonView::Str(p.from)).with(
            "to"@,
            JsonView::Str(checksum_text(t)),
        ).with("value"@, JsonView::Str("0x0"@)).with("data"@, JsonView::Str(data_text(data))),
        None => JsonView::object().with("from"@, JsonView::Str(p.from)).with(
            "to"@,
            JsonView::Str(p.to),
        ).with("value"@, JsonView::Str(quantity_text(amount_of(p.amount)))).with(
            "data"@,
            JsonView::Str("0x"@),
        ),
    }
}

/// The gas limit of a bare transfer, for want of an estimate.
pub open spec fn default_gas(token: Option<Seq<u8>>) -> u64 {
    if token is Some {
        90_000
    } else {
        21_000
    }
}

/// The plan of a send: nothing is asked yet. `data` is the calldata of the
/// token transfer, where it is one.
pub open spec fn planned_send(
    p: SendParamsView,
    token: Option<Seq<u8>>,
    data: Seq<u8>,
    ready: bool,
) -> Result<SendView, Seq<char>> {
    match address_of(p.to) {
        Err(e) => Err(e),
        Ok(to_addr) => if !ready {
            Err(not_ready())
        } else {
            Ok(
                SendView {
                    stage: SendStage::Nonce,
                    chain_id: p.chain_id,
                    from: p.from,
                    to: p.to,
                    to_addr,
                    token,
                    amount: amount_of(p.amount),
                    fee_req: crate::json::json_text(fee_request(p)),
                    est_tx: crate::json::json_text(estimate_tx(p, token, data)),
                    default_gas: default_gas(token),
                    nonce: 0,
                    fee: None,
                    gas_limit: default_gas(token),
                },
            )
        },
    }
}

/// A plan, or a message.
pub open spec fn res_send(r: Result<SendFlow, String>) -> Result<SendView, Seq<char>> {
    match r {
        Ok(f) => Ok(f@),
        Err(e) => Err(e@),
    }
}

/// Plan a send: everything that needs no reply is settled here, so that a
/// recipient that cannot be read costs no request.
fn plan_send(p: &SendParams, token: Option<Address>, data: &[u8], ready: bool) -> (r: Result<
    SendFlow,
    String,
>)
    ensures
        res_send(r) == planned_send(p@, opt_bytes(token), data@, ready),
{
    let to_addr: Address = match parse_addr(p.to.as_str()) {
        Ok(a) => a,
        Err(e) => return Err(e),
    };
    if !ready {
        return Err("backend not initialized (context not ready)".to_owned());
    }
    let amount: U256 = parse_u256_str(p.amount.as_str());
    let est: Json = Json::object().with("from", Json::text(p.from.as_str()));
    let (est_tx, default_gas): (Json, u64) = match &token {
        Some(t) => (
            est.with("to", Json::Str(t.to_text())).with("value", Json::text("0x0")).with(
                "data",
                Json::Str(data_hex(data)),
            ),
            90_000,
        ),
        None => (
            est.with("to", Json::text(p.to.as_str())).with("value", Json::Str(amount.to_quantity())).with(
                "data",
                Json::text("0x"),
            ),
            21_000,
        ),
    };
    Ok(
        SendFlow {
            stage: SendStage::Nonce,
            chain_id: p.chain_id,
            from: p.from.clone(),
            to: p.to.clone(),
            to_addr,
            token,
            amount,
            fee_req: fee_request_json(p).render(),
            est_tx: est_tx.render(),
            default_gas,
            nonce: 0,
            fee: None,
            gas_limit: default_gas,
        },
    )
}

/// A request, or the message of why it cannot be read.
pub open spec fn res_params(p: Result<SendParams, String>) -> Result<SendParamsView, Seq<char>> {
    match p {
        Ok(p) => Ok(p@),
        Err(e) => Err(e@),
    }
}

/// The plan of a native send, where the request can be read.
pub open spec fn planned_native(p: Result<SendParamsView, Seq<char>>, ready: bool) -> Result<
    SendView,
    Seq<char>,
> {
    match p {
        Err(e) => Err(e),
        Ok(p) => planned_send(p, None, Seq::empty(), ready),
    }
}

/// The plan of a token transfer, where the request and its token can be read.
pub open spec fn planned_erc20(
    p: Result<SendParamsView, Seq<char>>,
    data: Seq<u8>,
    ready: bool,
) -> Result<SendView, Seq<char>> {
    match p {
        Err(e) => Err(e),
        Ok(p) => match address_of(p.token_address) {
            Err(e) => Err(e),
            Ok(token) => planned_send(p, Some(token), data, ready),
        },
    }
}

/// Plan a native send.
pub fn plan_send_native(p: &Result<SendParams, String>, ready: bool) -> (r: Result<SendFlow, String>)
    ensures
        res_send(r) == planned_native(res_params(*p), ready),
        r is Ok ==> *p is Ok && address_of((*p)->Ok_0@.to) == Ok::<Seq<u8>, Seq<char>>(r->Ok_0@.to_addr),
        r is Ok ==> r->Ok_0@.to == (*p)->Ok_0@.to && r->Ok_0@.from == (*p)->Ok_0@.from,
        r is Ok ==> r->Ok_0@.token is None,
{
    match p {
        Err(e) => Err(e.clone()),
        Ok(p) => {
            let none: Vec<u8> = Vec::new();
            assert(none@ =~= Seq::<u8>::empty());
            plan_send(p, None, none.as_slice(), ready)
        },
    }
}

/// The transfer whose calldata a token send needs: recipient and amount.
pub open spec fn transfer_view(p: SendParamsView) -> Result<(Seq<u8>, nat), Seq<char>> {
    match (address_of(p.token_address), address_of(p.to)) {
        (Err(e), _) => Err(e),
        (_, Err(e)) => Err(e),
        (Ok(_), Ok(to)) => Ok((to, amount_of(p.amount))),
    }
}

/// The transfer whose calldata a token send needs: recipient and amount.
pub fn transfer_of(p: &SendParams) -> (r: Result<(Address, U256), String>)
    ensures
        match r {
            Ok((to, amount)) => transfer_view(p@) == Ok::<(Seq<u8>, nat), Seq<char>>((to@, amount@)),
            Err(e) => transfer_view(p@) == Err::<(Seq<u8>, nat), Seq<char>>(e@),
        },
{
    match parse_addr(p.token_address.as_str()) {
        Err(e) => Err(e),
        Ok(_) => match parse_addr(p.to.as_str()) {
            Err(e) => Err(e),
            Ok(to) => Ok((to, parse_u256_str(p.amount.as_str()))),
        },
    }
}

/// Plan a token transfer. `data` is the calldata of [`transfer_of`] the request.
pub fn plan_send_erc20(p: &Result<SendParams, String>, data: &[u8], ready: bool) -> (r: Result<
    SendFlow,
    String,
>)
    ensures
        res_send(r) == planned_erc20(res_params(*p), data@, ready),
        r is Ok ==> *p is Ok && address_of((*p)->Ok_0@.to) == Ok::<Seq<u8>, Seq<char>>(r->Ok_0@.to_addr),
        r is Ok ==> r->Ok_0@.to == (*p)->Ok_0@.to && r->Ok_0@.from == (*p)->Ok_0@.from,
        r is Ok ==> r->Ok_0@.token is Some && address_of((*p)->Ok_0@.token_address) == Ok::<
            Seq<u8>,
            Seq<char>,
        >(r->Ok_0@.token->0),
{
    match p {
        Err(e) => Err(e.clone()),
        Ok(p) => match parse_addr(p.token_address.as_str()) {
            Err(e) => Err(e),
            Ok(token) => plan_send(p, Some(token), data, ready),
        },
    }
}

/// The handle and the receipt of an approval request.
pub open spec fn handle_view(resp: JsonView) -> Result<(Seq<char>, Seq<char>), Seq<char>> {
    match resp.get_str("handle"@) {
        None => Err("keystore: no handle"@),
        Some(handle) => match resp.get_str("receipt"@) {
            None => Err("keystore: no receipt"@),
            Some(receipt) => Ok((handle, receipt)),
        },
    }
}

/// The handle and the receipt of an approval request. The receipt authorises
/// collecting the result.
pub fn approval_handle(resp: &Json) -> (r: Result<(String, String), String>)
    ensures
        match r {
            Ok((handle, receipt)) => handle_view(resp@) == Ok::<(Seq<char>, Seq<char>), Seq<char>>(
                (handle@, receipt@),
            ),
            Err(e) => handle_view(resp@) == Err::<(Seq<char>, Seq<char>), Seq<char>>(e@),
        },
{
    match resp.get_str("handle") {
        None => Err("keystore: no handle".to_owned()),
        Some(handle) => match resp.get_str("receipt") {
            None => Err("keystore: no receipt".to_owned()),
            Some(receipt) => Ok((handle.clone(), receipt.clone())),
        },
    }
}

/// One transaction to be signed, as an approval request has it.
pub open spec fn tx_leg_view(chain_id: u64, unsigned: JsonView) -> JsonView {
    JsonView::object().with("kind"@, JsonView::Str("tx"@)).with(
        "chain_id"@,
        JsonView::Num(NumView::Pos(chain_id)),
    ).with("tx"@, unsigned)
}

/// One transaction to be signed, as an approval request has it.
pub fn tx_leg(chain_id: u64, unsigned: Json) -> (r: Json)
    ensures
        r@ == tx_leg_view(chain_id, unsigned@),
{
    Json::object().with("kind", Json::text("tx")).with("chain_id", Json::Num(Num::Pos(chain_id))).with(
        "tx",
        unsigned,
    )
}

/// What asks a human to sign `legs` for `address`.
pub open spec fn intent_view(address: Seq<char>, purpose: Seq<char>, legs: Seq<JsonView>) -> JsonView {
    JsonView::object().with("address"@, JsonView::Str(address)).with(
        "purpose"@,
        JsonView::Str(purpose),
    ).with("legs"@, JsonView::Arr(legs))
}

/// What asks a human to sign `legs` for `address`.
pub fn signing_intent(address: &str, purpose: &str, legs: Vec<Json>) -> (r: String)
    ensures
        r@ == crate::json::json_text(intent_view(address@, purpose@, crate::json::json_views(legs@))),
{
    Json::object().with("address", Json::text(address)).with("purpose", Json::text(purpose)).with(
        "legs",
        Json::array(legs),
    ).render()
}

/// What the history will say of the send once it is broadcast: the hash is
/// still to come.
pub open spec fn send_record(f: SendView, now: u64) -> TxRecordView {
    TxRecordView {
        hash: Seq::empty(),
        chain_id: f.chain_id,
        from: f.from,
        to: f.to,
        value: decimal_text(f.amount),
        kind: if f.token is Some { "erc20"@ } else { "native"@ },
        token: match f.token {
            Some(t) => Some(checksum_text(t)),
            None => None,
        },
        status: "pending"@,
        timestamp: now,
    }
}

/// The transaction a human is asked to sign.
pub open spec fn send_draft(f: SendView) -> TxDraftView {
    TxDraftView {
        token: f.token,
        to: f.to_addr,
        amount: f.amount,
        nonce: f.nonce,
        gas_limit: f.gas_limit,
        fee: f.fee->0,
    }
}

/// The answer to a send that waits for a human.
pub open spec fn pending_json(handle: Seq<char>) -> JsonView {
    JsonView::object().with("ok"@, JsonView::Bool(true)).with("pending"@, JsonView::Bool(true)).with(
        "requestId"@,
        JsonView::Str(handle),
    )
}

/// An amount in a member of a reply; zero where there is none.
pub open spec fn amount_member(v: JsonView, key: Seq<char>) -> nat {
    amount_of(
        match v.get_str(key) {
            Some(s) => s,
            None => "0"@,
        },
    )
}

/// The text of a member of a reply, or a stock one.
pub open spec fn text_or(v: Option<Seq<char>>, stock: Seq<char>) -> Seq<char> {
    match v {
        Some(s) => s,
        None => stock,
    }
}

/// One step of a send. `reply` is what the last request gave: nothing on the
/// first step, and the built transaction where that was asked for.
pub open spec fn send_next(
    f: SendView,
    reply: Option<Result<JsonView, Seq<char>>>,
    now: u64,
    jobs: Map<Seq<char>, PendingView>,
) -> (SendView, Map<Seq<char>, PendingView>, TurnView) {
    let chain = f.chain_id as i64;
    match reply {
        None => (f, jobs, quiet(StepView::Call(CallView::EthTransactionCount(chain, f.from)))),
        Some(reply) => match (f.stage, reply) {
            (SendStage::Nonce, Ok(v)) => (
                SendView {
                    stage: SendStage::Fee,
                    nonce: hex_u64(text_or(v.get_str("result"@), "0x0"@)),
                    ..f
                },
                jobs,
                quiet(StepView::Call(CallView::FeeEstimate(chain, f.fee_req))),
            ),
            (SendStage::Fee, Ok(v)) => (
                SendView {
                    stage: SendStage::Gas,
                    fee: Some(
                        FeeView::Eip1559 {
                            max_fee_per_gas: amount_member(v, "maxFeePerGas"@),
                            max_priority_fee_per_gas: amount_member(v, "maxPriorityFeePerGas"@),
                        },
                    ),
                    ..f
                },
                jobs,
                quiet(StepView::Call(CallView::EthEstimateGas(chain, f.est_tx))),
            ),
            (SendStage::Gas, reply) => {
                let g = SendView {
                    stage: SendStage::Build,
                    gas_limit: match reply {
                        Ok(v) => match v.get_str("result"@) {
                            Some(s) => hex_u64(s),
                            None => f.default_gas,
                        },
                        Err(_) => f.default_gas,
                    },
                    ..f
                };
                (g, jobs, quiet(StepView::Build(send_draft(g))))
            },
            (SendStage::Build, Ok(tx)) => (
                SendView { stage: SendStage::Approve, ..f },
                jobs,
                quiet(
                    StepView::Call(
                        CallView::KeystoreRequestApproval(
                            crate::json::json_text(
                                intent_view(f.from, "send"@, seq![tx_leg_view(f.chain_id, tx)]),
                            ),
                        ),
                    ),
                ),
            ),
            (SendStage::Approve, Ok(v)) => match handle_view(v) {
                Err(e) => (f, jobs, answer_with(err_json(e))),
                Ok((handle, receipt)) => (
                    f,
                    jobs.insert(
                        handle,
                        PendingView { chain_id: f.chain_id, receipt, record: send_record(f, now) },
                    ),
                    answer_with(pending_json(handle)),
                ),
            },
            (_, Err(e)) => (f, jobs, answer_with(err_json(e))),
        },
    }
}

/// What a send makes of the text it is handed: a built transaction is JSON as
/// it stands, any other text is the reply of a dependency.
pub open spec fn send_input(stage: SendStage, reply: Option<Result<Seq<char>, Seq<char>>>) -> Option<
    Result<JsonView, Seq<char>>,
> {
    match reply {
        None => None,
        Some(Err(e)) => Some(Err(e)),
        Some(Ok(s)) => if stage is Build {
            Some(json_parse(s))
        } else {
            Some(reply_view(Ok(s)))
        },
    }
}

/// An input, parsed.
pub open spec fn opt_res_json(r: Option<Result<Json, String>>) -> Option<Result<JsonView, Seq<char>>> {
    match r {
        Some(r) => Some(res_json(r)),
        None => None,
    }
}

/// An input.
pub open spec fn opt_res_text(r: Option<Result<String, String>>) -> Option<
    Result<Seq<char>, Seq<char>>,
> {
    match r {
        Some(r) => Some(res_text(r)),
        None => None,
    }
}

impl SendFlow {
    /// Whether the flow can take a step.
    pub fn can_step(&self) -> (r: bool)
        ensures
            r == self@.wf(),
    {
        match self.stage {
            SendStage::Gas => self.fee.is_some(),
            _ => true,
        }
    }

    /// The transaction a human is asked to sign.
    fn draft(&self) -> (r: TxDraft)
        requires
            self@.fee is Some,
        ensures
            r@ == send_draft(self@),
    {
        TxDraft {
            token: self.token,
            to: self.to_addr,
            amount: self.amount,
            nonce: self.nonce,
            gas_limit: self.gas_limit,
            fee: self.fee.unwrap(),
        }
    }

    /// Park the transaction under its approval handle and answer the handle.
    /// The history is not touched: nothing is approved yet.
    fn park(&self, resp: &Json, now: u64, jobs: &mut StrMap<PendingJob>) -> (r: Turn)
        ensures
            match handle_view(resp@) {
                Err(e) => r@ == answer_with(err_json(e)) && final(jobs)@ == old(jobs)@,
                Ok((handle, receipt)) => {
                    &&& r@ == answer_with(pending_json(handle))
                    &&& parked(final(jobs)@) == parked(old(jobs)@).insert(
                        handle,
                        PendingView {
                            chain_id: self@.chain_id,
                            receipt,
                            record: send_record(self@, now),
                        },
                    )
                    &&& final(jobs)@.contains_key(handle)
                    &&& final(jobs)@[handle].chain_id == self@.chain_id
                    &&& final(jobs)@[handle].receipt@ == receipt
                    &&& final(jobs)@[handle].record.from@ == self@.from
                    &&& final(jobs)@[handle].record.to@ == self@.to
                    &&& final(jobs)@[handle].record.chain_id == self@.chain_id
                    &&& final(jobs)@[handle].record.value@ == decimal_text(self@.amount)
                    &&& final(jobs)@[handle].record.timestamp == now
                },
            },
    {
        let (handle, receipt) = match approval_handle(resp) {
            Ok(pair) => pair,
            Err(e) => return failed(e.as_str()),
        };
        let (kind, token): (&str, Option<String>) = match &self.token {
            Some(t) => ("erc20", Some(t.to_text())),
            None => ("native", None),
        };
        let record = TxRecord {
            hash: String::new(),
            chain_id: self.chain_id,
            from: self.from.clone(),
            to: self.to.clone(),
            value: self.amount.to_decimal(),
            kind: kind.to_owned(),
            token,
            status: "pending".to_owned(),
            timestamp: now,
        };
        let ghost before = jobs@;
        let job = PendingJob { chain_id: self.chain_id, receipt, record };
        jobs.insert(handle.clone(), job);
        proof {
            assert(job@ == PendingView {
                chain_id: self@.chain_id,
                receipt: receipt@,
                record: send_record(self@, now),
            });
            assert(parked(jobs@) =~= parked(before).insert(handle@, job@));
        }
        done(
            Json::object().with("ok", Json::Bool(true)).with("pending", Json::Bool(true)).with(
                "requestId",
                Json::Str(handle),
            ),
        )
    }

    /// One step, on a reply already read.
    pub fn advance(
        &mut self,
        reply: Option<Result<Json, String>>,
        now: u64,
        jobs: &mut StrMap<PendingJob>,
    ) -> (r: Turn)
        requires
            old(self)@.wf(),
        ensures
            final(self)@.wf(),
            (final(self)@, parked(final(jobs)@), r@) == send_next(
                old(self)@,
                opt_res_json(reply),
                now,
                parked(old(jobs)@),
            ),
    {
        let reply: Result<Json, String> = match reply {
            Some(r) => r,
            None => {
                return turn(
                    Step::Call(Call::EthTransactionCount(self.chain_id as i64, self.from.clone())),
                );
            },
        };
        match self.stage {
            SendStage::Nonce => {
                let v: Json = match reply {
                    Ok(v) => v,
                    Err(e) => return failed(e.as_str()),
                };
                self.nonce = match v.get_str("result") {
                    Some(s) => parse_hex_u64(s.as_str()),
                    None => parse_hex_u64("0x0"),
                };
                self.stage = SendStage::Fee;
                turn(Step::Call(Call::FeeEstimate(self.chain_id as i64, self.fee_req.clone())))
            },
            SendStage::Fee => {
                let v: Json = match reply {
                    Ok(v) => v,
                    Err(e) => return failed(e.as_str()),
                };
                let max_fee_per_gas: U256 = match v.get_str("maxFeePerGas") {
                    Some(s) => parse_u256_str(s.as_str()),
                    None => parse_u256_str("0"),
                };
                let max_priority_fee_per_gas: U256 = match v.get_str("maxPriorityFeePerGas") {
                    Some(s) => parse_u256_str(s.as_str()),
                    None => parse_u256_str("0"),
                };
                self.fee = Some(Fee::Eip1559 { max_fee_per_gas, max_priority_fee_per_gas });
                self.stage = SendStage::Gas;
                turn(Step::Call(Call::EthEstimateGas(self.chain_id as i64, self.est_tx.clone())))
            },
            SendStage::Gas => {
                // A gas estimate that fails is no reason to refuse the send: the
                // default is right for a bare transfer, and a human sees the
                // limit either way.
                self.gas_limit = match reply {
                    Ok(v) => match v.get_str("result") {
                        Some(s) => parse_hex_u64(s.as_str()),
                        None => self.default_gas,
                    },
                    Err(_) => self.default_gas,
                };
                self.stage = SendStage::Build;
                turn(Step::Build(self.draft()))
            },
            SendStage::Build => {
                let tx: Json = match reply {
                    Ok(v) => v,
                    Err(e) => return failed(e.as_str()),
                };
                self.stage = SendStage::Approve;
                let mut legs: Vec<Json> = Vec::new();
                legs.push(tx_leg(self.chain_id, tx));
                assert(crate::json::json_views(legs@) =~= seq![tx_leg_view(self.chain_id, tx@)]);
                turn(
                    Step::Call(
                        Call::KeystoreRequestApproval(signing_intent(self.from.as_str(), "send", legs)),
                    ),
                )
            },
            SendStage::Approve => {
                let v: Json = match reply {
                    Ok(v) => v,
                    Err(e) => return failed(e.as_str()),
                };
                self.park(&v, now, jobs)
            },
        }
    }

    /// One step. `reply` is the text the last request gave, and nothing on the
    /// first step.
    pub fn step(
        &mut self,
        reply: Option<Result<String, String>>,
        now: u64,
        jobs: &mut StrMap<PendingJob>,
    ) -> (r: Turn)
        requires
            old(self)@.wf(),
        ensures
            final(self)@.wf(),
            (final(self)@, parked(final(jobs)@), r@) == send_next(
                old(self)@,
                send_input(old(self)@.stage, opt_res_text(reply)),
                now,
                parked(old(jobs)@),
            ),
    {
        let input: Option<Result<Json, String>> = match &reply {
            None => None,
            Some(Err(e)) => Some(Err(e.clone())),
            Some(Ok(s)) => match self.stage {
                SendStage::Build => Some(parse_json(s.as_str())),
                _ => Some(crate::json::ok_value(s.as_str())),
            },
        };
        self.advance(input, now, jobs)
    }
}

} // verus!
