//! The flows of every method, and how they are driven.

use crate::address::{address_of, data_hex, data_text, parse_addr, Address};
use crate::amount::{amount_of, parse_u256_str, quantity_text, U256};
use crate::flow::{
    answer_with, failed, parked, quiet, turn, Call, CallView, Effect, EffectView, PendingJob,
    PendingView, Step, StepView, Turn, TurnView,
};
use crate::jobs::{job_id, opt_text, BoardView, Job, JobBoard, JobView, CAPACITY};
use crate::json::{
    err, err_json, is_flat, json_parse, json_text, lookup, ok_value, parse_json, passthrough,
    passthrough_text, reply_value, reply_view, res_json, res_text, Json, JsonView,
};
use crate::send::{
    fee_request, fee_request_json, opt_res_text, res_params, send_input, send_next, SendFlow,
    SendParams, SendParamsView, SendView,
};
use crate::status::{status_input, status_next, StatusFlow, StatusView};
use crate::strmap::StrMap;
use crate::text::{decimal, decimal_text, joined, lowercase, lowered, same_text};
use vstd::prelude::*;

verus! {

/// What becomes of the one reply a method waits for.
pub enum Finish {
    /// It is the answer.
    Passthrough,
    /// It says whether a token was added.
    AddCustomToken,
    /// It names the account to be labelled, and is the answer. The label is
    /// kept only once the module has its state.
    ImportMnemonic { label: String, ready: bool },
    /// It is the receipt of a transaction. A record is updated only once the
    /// module has its state.
    TxStatus { hash: String, ready: bool },
}

/// What a [`Finish`] is.
pub enum FinishView {
    Passthrough,
    AddCustomToken,
    ImportMnemonic { label: Seq<char>, ready: bool },
    TxStatus { hash: Seq<char>, ready: bool },
}

impl View for Finish {
    type V = FinishView;

    open spec fn view(&self) -> FinishView {
        match self {
            Finish::Passthrough => FinishView::Passthrough,
            Finish::AddCustomToken => FinishView::AddCustomToken,
            Finish::ImportMnemonic { label, ready } => FinishView::ImportMnemonic {
                label: label@,
                ready: *ready,
            },
            Finish::TxStatus { hash, ready } => FinishView::TxStatus { hash: hash@, ready: *ready },
        }
    }
}

/// The answer to adding a token: the dependency's flag in an envelope.
pub open spec fn added_json(reply: Result<Seq<char>, Seq<char>>) -> JsonView {
    match reply {
        Ok(b) => JsonView::object().with("ok"@, JsonView::Bool(true)).with(
            "added"@,
            JsonView::Bool(b == "true"@),
        ),
        Err(e) => err_json(e),
    }
}

/// The flag in an answer to adding a token; false where there is none.
pub open spec fn added_view(v: Result<JsonView, Seq<char>>) -> bool {
    match v {
        Ok(j) => j.get_bool("added"@) == Some(true),
        Err(_) => false,
    }
}

proof fn lemma_added_members(reply: Result<Seq<char>, Seq<char>>)
    ensures
        is_flat(added_json(reply)),
        added_json(reply).get_bool("added"@) == Some(true) <==> reply == Ok::<Seq<char>, Seq<char>>("true"@),
{
    reveal_strlit("ok");
    reveal_strlit("added");
    reveal_strlit("error");
    assert("ok"@.len() != "added"@.len());
    assert("ok"@.len() != "error"@.len());
    assert("added"@[0] != "error"@[0]);
    let m = added_json(reply)->Obj_0;
    assert(m.len() == 2);
    assert(m[0].0 == "ok"@);
    assert(m.skip(1).len() == 1);
    assert(m.skip(1)[0] == m[1]);
    assert(m.skip(1).skip(1).len() == 0);
    reveal_with_fuel(lookup, 3);
}

/// The answer to adding a token. Read again, it says whether one was added.
pub fn added_answer(reply: &Result<String, String>) -> (r: String)
    ensures
        r@ == json_text(added_json(res_text(*reply))),
        added_view(json_parse(r@)) == (res_text(*reply) == Ok::<Seq<char>, Seq<char>>("true"@)),
{
    proof {
        lemma_added_members(res_text(*reply));
    }
    match reply {
        Ok(b) => Json::object().with("ok", Json::Bool(true)).with(
            "added",
            Json::Bool(same_text(b.as_str(), "true")),
        ).render(),
        Err(e) => Json::object().with("ok", Json::Bool(false)).with("error", Json::text(e.as_str())).render(),
    }
}

/// The flag in a parsed answer to adding a token; false where there is none.
pub fn added_in(v: &Result<Json, String>) -> (r: bool)
    ensures
        r == added_view(res_json(*v)),
{
    match v {
        Ok(j) => match j.get_bool("added") {
            Some(b) => b,
            None => false,
        },
        Err(_) => false,
    }
}

/// The flag in an answer to adding a token; false where there is none.
pub fn added_flag(answer: &str) -> (r: bool)
    ensures
        r == added_view(json_parse(answer@)),
{
    added_in(&parse_json(answer))
}

/// The step on the reply to an import: the account it names is labelled, under
/// its address in lower case, and the reply is the answer.
pub open spec fn labelled(
    v: Result<JsonView, Seq<char>>,
    reply: Seq<char>,
    label: Seq<char>,
    ready: bool,
) -> TurnView {
    match v {
        Err(e) => answer_with(err_json(e)),
        Ok(j) => TurnView {
            effects: match j.get_str("address"@) {
                Some(addr) => if ready {
                    seq![EffectView::LabelAccount(lowered(addr), label)]
                } else {
                    Seq::empty()
                },
                None => Seq::empty(),
            },
            next: StepView::Done(reply),
        },
    }
}

/// Label the account that an import names, and pass its reply on unchanged.
pub fn label_imported_account(v: Result<Json, String>, reply: String, label: String, ready: bool) -> (r:
    Turn)
    ensures
        r@ == labelled(res_json(v), reply@, label@, ready),
{
    match v {
        Err(e) => failed(e.as_str()),
        Ok(j) => {
            let mut effects: Vec<Effect> = Vec::new();
            let ghost mut shown: Seq<EffectView> = Seq::empty();
            if let Some(addr) = j.get_str("address") {
                if ready {
                    let key: String = lowercase(addr.as_str());
                    proof {
                        shown = shown.push(EffectView::LabelAccount(key@, label@));
                    }
                    effects.push(Effect::LabelAccount(key, label));
                }
            }
            let r = Turn { effects, next: Step::Done(reply) };
            assert(r@.effects =~= shown);
            assert(r@.effects =~= labelled(res_json(v), reply@, label@, ready).effects);
            r
        },
    }
}

/// What a receipt says of a transaction: no receipt yet is `pending`, and a
/// receipt is `confirmed` with status one and `failed` with any other.
pub open spec fn tx_status_view(v: JsonView) -> Seq<char> {
    match v.get("result"@) {
        None => "pending"@,
        Some(JsonView::Null) => "pending"@,
        Some(r) => if r.get_str("status"@) == Some("0x1"@) {
            "confirmed"@
        } else {
            "failed"@
        },
    }
}

/// What a receipt says of a transaction.
pub fn tx_status(v: &Json) -> (r: &'static str)
    ensures
        r@ == tx_status_view(v@),
{
    match v.get("result") {
        None => "pending",
        Some(Json::Null) => "pending",
        Some(r) => match r.get_str("status") {
            Some(s) => if same_text(s.as_str(), "0x1") {
                "confirmed"
            } else {
                "failed"
            },
            None => "failed",
        },
    }
}

/// The step on a receipt: a settled transaction has its record updated, and
/// subscribers are told either way.
pub open spec fn receipt_turn(v: Result<JsonView, Seq<char>>, hash: Seq<char>, ready: bool) -> TurnView {
    match v {
        Err(e) => answer_with(err_json(e)),
        Ok(j) => {
            let status = tx_status_view(j);
            TurnView {
                effects: if status != "pending"@ && ready {
                    seq![
                        EffectView::UpdateTxStatus(hash, status),
                        EffectView::TxStatusChanged(hash),
                    ]
                } else {
                    seq![EffectView::TxStatusChanged(hash)]
                },
                next: StepView::Done(
                    json_text(
                        JsonView::object().with("ok"@, JsonView::Bool(true)).with(
                            "status"@,
                            JsonView::Str(status),
                        ),
                    ),
                ),
            }
        },
    }
}

/// The step on a receipt.
pub fn receipt_step(v: Result<Json, String>, hash: String, ready: bool) -> (r: Turn)
    ensures
        r@ == receipt_turn(res_json(v), hash@, ready),
{
    match v {
        Err(e) => failed(e.as_str()),
        Ok(j) => {
            let status: &str = tx_status(&j);
            let mut effects: Vec<Effect> = Vec::new();
            if !same_text(status, "pending") && ready {
                effects.push(Effect::UpdateTxStatus(hash.clone(), status.to_owned()));
            }
            effects.push(Effect::TxStatusChanged(hash));
            let answer: String = Json::object().with("ok", Json::Bool(true)).with(
                "status",
                Json::text(status),
            ).render();
            let r = Turn { effects, next: Step::Done(answer) };
            assert(r@.effects =~= receipt_turn(res_json(v), hash@, ready).effects);
            r
        },
    }
}

/// The step on the one reply a method waits for.
pub open spec fn finished(f: FinishView, reply: Result<Seq<char>, Seq<char>>) -> TurnView {
    match f {
        FinishView::Passthrough => quiet(StepView::Done(passthrough_text(reply))),
        FinishView::AddCustomToken => answer_with(added_json(reply)),
        FinishView::ImportMnemonic { label, ready } => match reply {
            Ok(s) => labelled(reply_view(reply), s, label, ready),
            Err(e) => answer_with(err_json(e)),
        },
        FinishView::TxStatus { hash, ready } => receipt_turn(reply_view(reply), hash, ready),
    }
}

/// A method that makes exactly one outbound call.
pub struct OneCall {
    call: Option<Call>,
    finish: Option<Finish>,
}

/// The state of a [`OneCall`].
pub struct OneCallView {
    pub call: Option<CallView>,
    pub finish: Option<FinishView>,
}

impl View for OneCall {
    type V = OneCallView;

    closed spec fn view(&self) -> OneCallView {
        OneCallView {
            call: match self.call {
                Some(c) => Some(c@),
                None => None,
            },
            finish: match self.finish {
                Some(f) => Some(f@),
                None => None,
            },
        }
    }
}

/// A plan of one call.
pub open spec fn planned_call(call: CallView, finish: FinishView) -> OneCallView {
    OneCallView { call: Some(call), finish: Some(finish) }
}

/// Plan one call.
pub fn one_call(call: Call, finish: Finish) -> (r: OneCall)
    ensures
        r@ == planned_call(call@, finish@),
{
    OneCall { call: Some(call), finish: Some(finish) }
}

impl OneCallView {
    /// The call is still to be made, or its reply is here and was not used yet.
    pub open spec fn takes(self, reply: Option<Result<Seq<char>, Seq<char>>>) -> bool {
        self.call is Some || (self.finish is Some && reply is Some)
    }

    /// One step: the call, then what becomes of its reply.
    pub open spec fn next(self, reply: Option<Result<Seq<char>, Seq<char>>>) -> (OneCallView, TurnView) {
        match self.call {
            Some(c) => (OneCallView { call: None, ..self }, quiet(StepView::Call(c))),
            None => (OneCallView { finish: None, ..self }, finished(self.finish->0, reply->0)),
        }
    }
}

impl OneCall {
    /// One step.
    pub fn step(&mut self, reply: Option<Result<String, String>>) -> (r: Turn)
        requires
            old(self)@.takes(opt_res_text(reply)),
        ensures
            (final(self)@, r@) == old(self)@.next(opt_res_text(reply)),
            old(self)@.call is None && old(self)@.finish == Some(FinishView::AddCustomToken)
                ==> added_view(json_parse(r@.next->Done_0)) == (opt_res_text(reply) == Some(
                Ok::<Seq<char>, Seq<char>>("true"@),
            )),
    {
        match self.call.take() {
            Some(call) => turn(Step::Call(call)),
            None => {
                let finish: Finish = self.finish.take().unwrap();
                let reply: Result<String, String> = reply.unwrap();
                match finish {
                    Finish::Passthrough => turn(Step::Done(passthrough(reply))),
                    Finish::AddCustomToken => turn(Step::Done(added_answer(&reply))),
                    Finish::ImportMnemonic { label, ready } => match reply {
                        Err(e) => failed(e.as_str()),
                        Ok(s) => {
                            let v: Result<Json, String> = ok_value(s.as_str());
                            label_imported_account(v, s, label, ready)
                        },
                    },
                    Finish::TxStatus { hash, ready } => receipt_step(reply_value(&reply), hash, ready),
                }
            },
        }
    }
}

/// A method that has its answer already.
pub struct Answered {
    answer: Option<String>,
}

impl View for Answered {
    type V = Option<Seq<char>>;

    closed spec fn view(&self) -> Option<Seq<char>> {
        opt_text(self.answer)
    }
}

/// Plan an answer that needs no call.
pub fn answered(answer: String) -> (r: Answered)
    ensures
        r@ == Some(answer@),
{
    Answered { answer: Some(answer) }
}

impl Answered {
    /// The only step.
    pub fn step(&mut self) -> (r: Turn)
        requires
            old(self)@ is Some,
        ensures
            final(self)@ is None,
            r@ == quiet(StepView::Done(old(self)@->0)),
    {
        turn(Step::Done(self.answer.take().unwrap()))
    }
}

/// Ask whether the configured endpoint really is this chain.
pub fn plan_test_endpoint(chain_id: i64) -> (r: OneCall)
    ensures
        r@ == planned_call(CallView::EthVerifyChainId(chain_id), FinishView::Passthrough),
{
    one_call(Call::EthVerifyChainId(chain_id), Finish::Passthrough)
}

/// The keystore's accounts.
pub fn plan_list_accounts() -> (r: OneCall)
    ensures
        r@ == planned_call(CallView::KeystoreListAccounts, FinishView::Passthrough),
{
    one_call(Call::KeystoreListAccounts, Finish::Passthrough)
}

/// The token catalogue of a chain.
pub fn plan_get_tokens(chain_id: i64) -> (r: OneCall)
    ensures
        r@ == planned_call(CallView::TokenListGetTokens(chain_id), FinishView::Passthrough),
{
    one_call(Call::TokenListGetTokens(chain_id), Finish::Passthrough)
}

/// Add a token to the catalogue.
pub fn plan_add_custom_token(token_json: String) -> (r: OneCall)
    ensures
        r@ == planned_call(
            CallView::TokenListAddCustomToken(token_json@),
            FinishView::AddCustomToken,
        ),
{
    one_call(Call::TokenListAddCustomToken(token_json), Finish::AddCustomToken)
}

/// Import a mnemonic and label its account.
pub fn plan_import_mnemonic(phrase_json: String, label: String, ready: bool) -> (r: OneCall)
    ensures
        r@ == planned_call(
            CallView::KeystoreImportMnemonic(phrase_json@),
            FinishView::ImportMnemonic { label: label@, ready },
        ),
{
    one_call(Call::KeystoreImportMnemonic(phrase_json), Finish::ImportMnemonic { label, ready })
}

/// Poll the receipt of a broadcast transaction.
pub fn plan_refresh_tx_status(hash_hex: String, chain_id: i64, ready: bool) -> (r: OneCall)
    ensures
        r@ == planned_call(
            CallView::EthTransactionReceipt(chain_id, hash_hex@),
            FinishView::TxStatus { hash: hash_hex@, ready },
        ),
{
    let hash: String = hash_hex.clone();
    one_call(Call::EthTransactionReceipt(chain_id, hash_hex), Finish::TxStatus { hash, ready })
}

/// The transaction a fee is quoted for: a transfer of the token where one is
/// named, with this calldata, and a native one otherwise. A recipient that
/// cannot be read leaves nothing to measure.
pub open spec fn quoted_tx(p: SendParamsView, data: Seq<u8>) -> Option<JsonView> {
    if address_of(p.to) is Err {
        None
    } else if p.token_address.len() == 0 {
        Some(
            JsonView::object().with("from"@, JsonView::Str(p.from)).with("to"@, JsonView::Str(p.to)).with(
                "value"@,
                JsonView::Str(quantity_text(amount_of(p.amount))),
            ),
        )
    } else {
        Some(
            JsonView::object().with("from"@, JsonView::Str(p.from)).with(
                "to"@,
                JsonView::Str(p.token_address),
            ).with("data"@, JsonView::Str(data_text(data))),
        )
    }
}

/// What is asked of the fee dependency for a quote.
pub open spec fn quote_request(p: SendParamsView, data: Seq<u8>) -> JsonView {
    match quoted_tx(p, data) {
        Some(tx) => fee_request(p).with("tx"@, tx),
        None => fee_request(p),
    }
}

/// The transfer whose calldata a fee quote needs: recipient and amount. None is
/// needed for a native send, or where the recipient cannot be read.
pub fn quote_transfer(p: &SendParams) -> (r: Option<(Address, U256)>)
    ensures
        match r {
            Some((to, amount)) => {
                &&& p@.token_address.len() != 0
                &&& address_of(p@.to) == Ok::<Seq<u8>, Seq<char>>(to@)
                &&& amount@ == amount_of(p@.amount)
            },
            None => p@.token_address.len() == 0 || address_of(p@.to) is Err,
        },
{
    if p.token_address.as_str().is_empty() {
        return None;
    }
    match parse_addr(p.to.as_str()) {
        Ok(to) => Some((to, parse_u256_str(p.amount.as_str()))),
        Err(_) => None,
    }
}

/// A flow of any kind.
pub enum Flow {
    Answered(Answered),
    OneCall(OneCall),
    Send(SendFlow),
    Status(StatusFlow),
}

/// The state of a [`Flow`].
pub enum FlowView {
    Answered(Option<Seq<char>>),
    OneCall(OneCallView),
    Send(SendView),
    Status(StatusView),
}

impl View for Flow {
    type V = FlowView;

    open spec fn view(&self) -> FlowView {
        match self {
            Flow::Answered(f) => FlowView::Answered(f@),
            Flow::OneCall(f) => FlowView::OneCall(f@),
            Flow::Send(f) => FlowView::Send(f@),
            Flow::Status(f) => FlowView::Status(f@),
        }
    }
}

impl FlowView {
    /// The flow can take a step on this reply.
    pub open spec fn takes(self, reply: Option<Result<Seq<char>, Seq<char>>>) -> bool {
        match self {
            FlowView::Answered(a) => a is Some,
            FlowView::OneCall(f) => f.takes(reply),
            FlowView::Send(f) => f.wf(),
            FlowView::Status(f) => f.wf(),
        }
    }

    /// One step.
    pub open spec fn next(
        self,
        reply: Option<Result<Seq<char>, Seq<char>>>,
        now: u64,
        jobs: Map<Seq<char>, PendingView>,
    ) -> (FlowView, Map<Seq<char>, PendingView>, TurnView) {
        match self {
            FlowView::Answered(a) => (FlowView::Answered(None), jobs, quiet(StepView::Done(a->0))),
            FlowView::OneCall(f) => (FlowView::OneCall(f.next(reply).0), jobs, f.next(reply).1),
            FlowView::Send(f) => {
                let (g, jobs, turn) = send_next(f, send_input(f.stage, reply), now, jobs);
                (FlowView::Send(g), jobs, turn)
            },
            FlowView::Status(f) => {
                let (g, jobs, turn) = status_next(f, status_input(reply), jobs);
                (FlowView::Status(g), jobs, turn)
            },
        }
    }
}

impl Flow {
    /// Whether the flow can take a step on this reply.
    pub fn can_take(&self, reply: &Option<Result<String, String>>) -> (r: bool)
        ensures
            r == self@.takes(opt_res_text(*reply)),
    {
        match self {
            Flow::Answered(f) => f.answer.is_some(),
            Flow::OneCall(f) => f.call.is_some() || (f.finish.is_some() && reply.is_some()),
            Flow::Send(f) => f.can_step(),
            Flow::Status(f) => f.can_step(),
        }
    }

    /// One step. `reply` is what the last request gave, and nothing on the
    /// first step; `now` is the time in seconds; `jobs` are the transactions
    /// parked on a human.
    pub fn step(
        &mut self,
        reply: Option<Result<String, String>>,
        now: u64,
        jobs: &mut StrMap<PendingJob>,
    ) -> (r: Turn)
        requires
            old(self)@.takes(opt_res_text(reply)),
        ensures
            (final(self)@, parked(final(jobs)@), r@) == old(self)@.next(
                opt_res_text(reply),
                now,
                parked(old(jobs)@),
            ),
            old(self)@ is Send || old(self)@ is Status ==> forall|any: Option<
                Result<Seq<char>, Seq<char>>,
            >| #[trigger] final(self)@.takes(any),
    {
        match self {
            Flow::Answered(f) => f.step(),
            Flow::OneCall(f) => f.step(reply),
            Flow::Send(f) => f.step(reply, now, jobs),
            Flow::Status(f) => f.step(reply, jobs),
        }
    }
}

/// The plan of a fee quote: a request that cannot be read is answered at once.
pub open spec fn planned_quote(p: Result<SendParamsView, Seq<char>>, data: Seq<u8>) -> FlowView {
    match p {
        Err(e) => FlowView::Answered(Some(json_text(err_json(e)))),
        Ok(p) => FlowView::OneCall(
            planned_call(
                CallView::FeeEstimate(p.chain_id as i64, json_text(quote_request(p, data))),
                FinishView::Passthrough,
            ),
        ),
    }
}

/// Quote a send's fee. `data` is the calldata of [`quote_transfer`].
pub fn plan_estimate_fee(p: &Result<SendParams, String>, data: &[u8]) -> (r: Flow)
    ensures
        r@ == planned_quote(res_params(*p), data@),
        *p is Ok ==> (r@ matches FlowView::OneCall(c) && c.call matches Some(
            CallView::FeeEstimate(chain, text),
        ) && chain == (*p)->Ok_0.chain_id as i64 && exists|v: JsonView|
            text == #[trigger] json_text(v) && crate::send_laws::carries_fee_controls(v, (*p)->Ok_0@)),
{
    let p: &SendParams = match p {
        Err(e) => return Flow::Answered(answered(err(e.as_str()))),
        Ok(p) => p,
    };
    proof {
        crate::send_laws::law_a_quote_describes_the_send(p@, data@);
    }
    let base: Json = fee_request_json(p);
    let request: Json = match parse_addr(p.to.as_str()) {
        Err(_) => base,
        Ok(_) => {
            let from: Json = Json::object().with("from", Json::text(p.from.as_str()));
            if p.token_address.as_str().is_empty() {
                let value: String = parse_u256_str(p.amount.as_str()).to_quantity();
                base.with(
                    "tx",
                    from.with("to", Json::text(p.to.as_str())).with("value", Json::Str(value)),
                )
            } else {
                base.with(
                    "tx",
                    from.with("to", Json::text(p.token_address.as_str())).with(
                        "data",
                        Json::Str(data_hex(data)),
                    ),
                )
            }
        },
    };
    Flow::OneCall(
        one_call(Call::FeeEstimate(p.chain_id as i64, request.render()), Finish::Passthrough),
    )
}

/// A plan as a flow: one that failed has its answer already.
pub open spec fn planned_flow(plan: Result<FlowView, Seq<char>>) -> FlowView {
    match plan {
        Ok(f) => f,
        Err(e) => FlowView::Answered(Some(json_text(err_json(e)))),
    }
}

/// A plan, or the message of why there is none.
pub open spec fn res_flow(plan: Result<Flow, String>) -> Result<FlowView, Seq<char>> {
    match plan {
        Ok(f) => Ok(f@),
        Err(e) => Err(e@),
    }
}

/// A plan as a flow: one that failed has its answer already, so that both
/// spellings of a method report it alike.
pub fn planned(plan: Result<Flow, String>) -> (r: Flow)
    ensures
        r@ == planned_flow(res_flow(plan)),
{
    match plan {
        Ok(f) => f,
        Err(e) => Flow::Answered(answered(err(e.as_str()))),
    }
}

/// The board after a step: an answer is parked on the job.
pub open spec fn parked_answer(board: BoardView, job: Seq<char>, next: StepView) -> BoardView {
    match next {
        StepView::Done(answer) => board.completed(job, answer),
        _ => board,
    }
}

/// Park the answer of a job whose flow has ended.
pub fn park_answer(board: &mut JobBoard, job: &str, next: &Step)
    ensures
        final(board)@ == parked_answer(old(board)@, job@, next@),
{
    if let Step::Done(answer) = next {
        board.complete(job, answer.clone());
    }
}

/// Take one step of a flow that runs as a job: its answer, once it has one, is
/// parked on the board.
pub fn drive(
    flow: &mut Flow,
    reply: Option<Result<String, String>>,
    now: u64,
    jobs: &mut StrMap<PendingJob>,
    job: &str,
    board: &mut JobBoard,
) -> (r: Turn)
    requires
        old(flow)@.takes(opt_res_text(reply)),
    ensures
        (final(flow)@, parked(final(jobs)@), r@) == old(flow)@.next(
            opt_res_text(reply),
            now,
            parked(old(jobs)@),
        ),
        old(flow)@ is Send || old(flow)@ is Status ==> forall|any: Option<
            Result<Seq<char>, Seq<char>>,
        >| #[trigger] final(flow)@.takes(any),
        final(board)@ == parked_answer(old(board)@, job@, r@.next),
{
    let t: Turn = flow.step(reply, now, jobs);
    park_answer(board, job, &t.next);
    t
}

/// The answer to a start: the id to collect with.
pub open spec fn started_json(id: Seq<char>) -> JsonView {
    JsonView::object().with("ok"@, JsonView::Bool(true)).with("jobId"@, JsonView::Str(id))
}

/// The answer to a start on this board.
pub open spec fn start_text(board: BoardView) -> Seq<char> {
    json_text(started_json(job_id(board.next)))
}

/// What starting a flow gives: the answer, the job, and the flow's first turn.
pub struct Started {
    pub answer: String,
    pub job: String,
    pub turn: Turn,
}

/// What [`Started`] says.
pub struct StartedView {
    pub answer: Seq<char>,
    pub job: Seq<char>,
    pub turn: TurnView,
}

impl View for Started {
    type V = StartedView;

    open spec fn view(&self) -> StartedView {
        StartedView { answer: self.answer@, job: self.job@, turn: self.turn@ }
    }
}

/// Start a flow as a job and take its first step.
pub fn start_flow(flow: &mut Flow, now: u64, jobs: &mut StrMap<PendingJob>, board: &mut JobBoard) -> (r:
    Started)
    requires
        old(flow)@.takes(None),
    ensures
        r.job@ == job_id(old(board)@.next),
        r.answer@ == start_text(old(board)@),
        (final(flow)@, parked(final(jobs)@), r.turn@) == old(flow)@.next(
            None,
            now,
            parked(old(jobs)@),
        ),
        old(flow)@ is Send || old(flow)@ is Status ==> forall|any: Option<
            Result<Seq<char>, Seq<char>>,
        >| #[trigger] final(flow)@.takes(any),
        final(board)@ == parked_answer(old(board)@.started(), r.job@, r.turn@.next),
{
    let job: String = board.start();
    let t: Turn = drive(flow, None, now, jobs, job.as_str(), board);
    let answer: String = Json::object().with("ok", Json::Bool(true)).with(
        "jobId",
        Json::text(job.as_str()),
    ).render();
    Started { answer, job, turn: t }
}

/// The answer to a collect.
pub open spec fn collected_text(found: JobView, id: Seq<char>) -> Seq<char> {
    match found {
        JobView::Ready(answer) => answer,
        JobView::Pending => json_text(
            JsonView::object().with("ok"@, JsonView::Bool(false)).with(
                "pending"@,
                JsonView::Bool(true),
            ).with("jobId"@, JsonView::Str(id)),
        ),
        JobView::Unknown => json_text(
            err_json(
                "unknown job '"@ + id
                    + "': never started, already collected, or evicted after "@ + decimal_text(
                    CAPACITY as nat,
                ) + " newer ones"@,
            ),
        ),
    }
}

/// Collect a job.
pub fn take_result(board: &mut JobBoard, job_id: &str) -> (r: String)
    ensures
        r@ == collected_text(old(board)@.found(job_id@), job_id@),
        final(board)@ == old(board)@.taken(job_id@),
{
    match board.take(job_id) {
        Job::Ready(answer) => answer,
        Job::Pending => Json::object().with("ok", Json::Bool(false)).with("pending", Json::Bool(true)).with(
            "jobId",
            Json::text(job_id),
        ).render(),
        Job::Unknown => {
            let mut m: String = joined("unknown job '", job_id);
            m.append("': never started, already collected, or evicted after ");
            m.append(decimal(CAPACITY as u64).as_str());
            m.append(" newer ones");
            err(m.as_str())
        },
    }
}

/// What a build that cannot wait for a reply answers: nothing was asked, and
/// this is the spelling that works.
pub open spec fn refusal_text(start: Seq<char>) -> Seq<char> {
    json_text(
        err_json(
            "this build cannot wait for a reply (one Worker, one event loop): use "@ + start
                + ", then take_result"@,
        ),
    )
}

/// Refuse to wait for a reply.
pub fn refusal(start: &str) -> (r: String)
    ensures
        r@ == refusal_text(start@),
{
    let mut m: String = joined(
        "this build cannot wait for a reply (one Worker, one event loop): use ",
        start,
    );
    m.append(", then take_result");
    err(m.as_str())
}

} // verus!
