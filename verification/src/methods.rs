//! The methods that leave the process, planned and started on the module's state.

use crate::backend::{Backend, StateView};
use crate::flow::{parked, CallView, PendingJob, PendingView, Turn};
use crate::jobs::{job_id, BoardView, JobBoard};
use crate::plans::{
    parked_answer, plan_add_custom_token, plan_estimate_fee, plan_get_tokens, plan_import_mnemonic,
    plan_list_accounts, plan_refresh_tx_status, plan_test_endpoint, planned, planned_call,
    planned_flow, planned_quote, res_flow, start_flow, start_text, FinishView, Flow, FlowView,
    Started, StartedView,
};
use crate::send::{
    opt_res_text, plan_send_erc20, plan_send_native, planned_erc20, planned_native, res_params,
    SendParams, SendParamsView,
};
use crate::status::{plan_send_status, planned_status};
use crate::strmap::StrMap;
use vstd::prelude::*;

verus! {

/// The parked transactions; none where the module has no state.
pub open spec fn jobs_of(st: Option<StateView>) -> Map<Seq<char>, PendingView> {
    match st {
        Some(st) => st.jobs,
        None => Map::empty(),
    }
}

/// The state with these transactions parked. A module without state keeps none.
pub open spec fn with_jobs(st: Option<StateView>, jobs: Map<Seq<char>, PendingView>) -> Option<
    StateView,
> {
    match st {
        Some(st) => Some(StateView { jobs, ..st }),
        None => None,
    }
}

/// A flow started as a job: what the start gives, the flow, the state and the
/// board after its first step.
pub open spec fn start_of(f: FlowView, now: u64, st: Option<StateView>, board: BoardView) -> (
    StartedView,
    FlowView,
    Option<StateView>,
    BoardView,
) {
    let job = job_id(board.next);
    let (g, jobs, turn) = f.next(None, now, jobs_of(st));
    (
        StartedView { answer: start_text(board), job, turn },
        g,
        with_jobs(st, jobs),
        parked_answer(board.started(), job, turn.next),
    )
}

/// The plan of a native send on this state.
pub open spec fn native_plan(p: Result<SendParamsView, Seq<char>>, st: Option<StateView>) -> Result<
    FlowView,
    Seq<char>,
> {
    match planned_native(p, st is Some) {
        Ok(f) => Ok(FlowView::Send(f)),
        Err(e) => Err(e),
    }
}

/// The plan of a token transfer on this state.
pub open spec fn erc20_plan(
    p: Result<SendParamsView, Seq<char>>,
    data: Seq<u8>,
    st: Option<StateView>,
) -> Result<FlowView, Seq<char>> {
    match planned_erc20(p, data, st is Some) {
        Ok(f) => Ok(FlowView::Send(f)),
        Err(e) => Err(e),
    }
}

/// The plan of a poll on this state.
pub open spec fn status_plan(request_id: Seq<char>, st: Option<StateView>) -> Result<
    FlowView,
    Seq<char>,
> {
    match planned_status(
        request_id,
        match st {
            Some(st) => Some(st.jobs),
            None => None,
        },
    ) {
        Ok(f) => Ok(FlowView::Status(f)),
        Err(e) => Err(e),
    }
}

impl Backend {
    /// Take one step of a flow.
    pub fn step(&mut self, flow: &mut Flow, reply: Option<Result<String, String>>, now: u64) -> (r: Turn)
        requires
            old(flow)@.takes(opt_res_text(reply)),
        ensures
            ({
                let (g, jobs, turn) = old(flow)@.next(opt_res_text(reply), now, jobs_of(old(self)@));
                &&& final(flow)@ == g
                &&& final(self)@ == with_jobs(old(self)@, jobs)
                &&& r@ == turn
            }),
            old(flow)@ is Send || old(flow)@ is Status ==> forall|any: Option<
                Result<Seq<char>, Seq<char>>,
            >| #[trigger] final(flow)@.takes(any),
    {
        match &mut self.state {
            Some(st) => flow.step(reply, now, &mut st.jobs),
            None => {
                let mut none: StrMap<PendingJob> = StrMap::new();
                assert(parked(none@) =~= Map::<Seq<char>, PendingView>::empty());
                flow.step(reply, now, &mut none)
            },
        }
    }

    /// Start a flow as a job and take its first step.
    pub fn start(&mut self, flow: Flow, now: u64, board: &mut JobBoard) -> (r: (Started, Flow))
        requires
            flow@.takes(None),
        ensures
            (r.0@, r.1@, final(self)@, final(board)@) == start_of(
                flow@,
                now,
                old(self)@,
                old(board)@,
            ),
    {
        let mut flow: Flow = flow;
        let started: Started = match &mut self.state {
            Some(st) => start_flow(&mut flow, now, &mut st.jobs, board),
            None => {
                let mut none: StrMap<PendingJob> = StrMap::new();
                assert(parked(none@) =~= Map::<Seq<char>, PendingView>::empty());
                start_flow(&mut flow, now, &mut none, board)
            },
        };
        (started, flow)
    }

    /// Plan a native send.
    pub fn plan_send_native(&self, p: &Result<SendParams, String>) -> (r: Result<Flow, String>)
        ensures
            res_flow(r) == native_plan(res_params(*p), self@),
    {
        match plan_send_native(p, self.ready()) {
            Ok(f) => Ok(Flow::Send(f)),
            Err(e) => Err(e),
        }
    }

    /// Plan a token transfer. `data` is its calldata.
    pub fn plan_send_erc20(&self, p: &Result<SendParams, String>, data: &[u8]) -> (r: Result<
        Flow,
        String,
    >)
        ensures
            res_flow(r) == erc20_plan(res_params(*p), data@, self@),
    {
        match plan_send_erc20(p, data, self.ready()) {
            Ok(f) => Ok(Flow::Send(f)),
            Err(e) => Err(e),
        }
    }

    /// Plan a poll of a parked transaction.
    pub fn plan_send_status(&self, request_id: &str) -> (r: Result<Flow, String>)
        ensures
            res_flow(r) == status_plan(request_id@, self@),
    {
        let jobs: Option<&StrMap<PendingJob>> = match &self.state {
            Some(st) => Some(&st.jobs),
            None => None,
        };
        match plan_send_status(request_id, jobs) {
            Ok(f) => Ok(Flow::Status(f)),
            Err(e) => Err(e),
        }
    }

    /// Ask as a job whether the configured endpoint really is this chain.
    pub fn start_test_endpoint(&mut self, chain_id: i64, now: u64, board: &mut JobBoard) -> (r: (
        Started,
        Flow,
    ))
        ensures
            (r.0@, r.1@, final(self)@, final(board)@) == start_of(
                FlowView::OneCall(
                    planned_call(CallView::EthVerifyChainId(chain_id), FinishView::Passthrough),
                ),
                now,
                old(self)@,
                old(board)@,
            ),
    {
        self.start(Flow::OneCall(plan_test_endpoint(chain_id)), now, board)
    }

    /// Import a mnemonic as a job, and label its account.
    pub fn start_import_mnemonic(
        &mut self,
        phrase_json: String,
        label: String,
        now: u64,
        board: &mut JobBoard,
    ) -> (r: (Started, Flow))
        ensures
            (r.0@, r.1@, final(self)@, final(board)@) == start_of(
                FlowView::OneCall(
                    planned_call(
                        CallView::KeystoreImportMnemonic(phrase_json@),
                        FinishView::ImportMnemonic { label: label@, ready: old(self)@ is Some },
                    ),
                ),
                now,
                old(self)@,
                old(board)@,
            ),
    {
        let ready: bool = self.ready();
        self.start(Flow::OneCall(plan_import_mnemonic(phrase_json, label, ready)), now, board)
    }

    /// Ask for the keystore's accounts as a job.
    pub fn start_list_accounts(&mut self, now: u64, board: &mut JobBoard) -> (r: (Started, Flow))
        ensures
            (r.0@, r.1@, final(self)@, final(board)@) == start_of(
                FlowView::OneCall(
                    planned_call(CallView::KeystoreListAccounts, FinishView::Passthrough),
                ),
                now,
                old(self)@,
                old(board)@,
            ),
    {
        self.start(Flow::OneCall(plan_list_accounts()), now, board)
    }

    /// Ask for the token catalogue of a chain as a job.
    pub fn start_get_tokens(&mut self, chain_id: i64, now: u64, board: &mut JobBoard) -> (r: (
        Started,
        Flow,
    ))
        ensures
            (r.0@, r.1@, final(self)@, final(board)@) == start_of(
                FlowView::OneCall(
                    planned_call(CallView::TokenListGetTokens(chain_id), FinishView::Passthrough),
                ),
                now,
                old(self)@,
                old(board)@,
            ),
    {
        self.start(Flow::OneCall(plan_get_tokens(chain_id)), now, board)
    }

    /// Add a token to the catalogue as a job.
    pub fn start_add_custom_token(&mut self, token_json: String, now: u64, board: &mut JobBoard) -> (r: (
        Started,
        Flow,
    ))
        ensures
            (r.0@, r.1@, final(self)@, final(board)@) == start_of(
                FlowView::OneCall(
                    planned_call(
                        CallView::TokenListAddCustomToken(token_json@),
                        FinishView::AddCustomToken,
                    ),
                ),
                now,
                old(self)@,
                old(board)@,
            ),
    {
        self.start(Flow::OneCall(plan_add_custom_token(token_json)), now, board)
    }

    /// Quote a send's fee as a job. `data` is the calldata of the token transfer.
    pub fn start_estimate_fee(
        &mut self,
        p: &Result<SendParams, String>,
        data: &[u8],
        now: u64,
        board: &mut JobBoard,
    ) -> (r: (Started, Flow))
        ensures
            (r.0@, r.1@, final(self)@, final(board)@) == start_of(
                planned_quote(res_params(*p), data@),
                now,
                old(self)@,
                old(board)@,
            ),
    {
        self.start(plan_estimate_fee(p, data), now, board)
    }

    /// Start a native send as a job. A request that cannot be planned is a job
    /// too: nothing is asked, and its error is there to be collected.
    pub fn start_send_native(
        &mut self,
        p: &Result<SendParams, String>,
        now: u64,
        board: &mut JobBoard,
    ) -> (r: (Started, Flow))
        ensures
            (r.0@, r.1@, final(self)@, final(board)@) == start_of(
                planned_flow(native_plan(res_params(*p), old(self)@)),
                now,
                old(self)@,
                old(board)@,
            ),
    {
        let flow: Flow = planned(self.plan_send_native(p));
        self.start(flow, now, board)
    }

    /// Start a token transfer as a job. `data` is its calldata. A request that
    /// cannot be planned is a job too.
    pub fn start_send_erc20(
        &mut self,
        p: &Result<SendParams, String>,
        data: &[u8],
        now: u64,
        board: &mut JobBoard,
    ) -> (r: (Started, Flow))
        ensures
            (r.0@, r.1@, final(self)@, final(board)@) == start_of(
                planned_flow(erc20_plan(res_params(*p), data@, old(self)@)),
                now,
                old(self)@,
                old(board)@,
            ),
    {
        let flow: Flow = planned(self.plan_send_erc20(p, data));
        self.start(flow, now, board)
    }

    /// Start a poll of a parked transaction as a job. A request that is not
    /// known is a job too.
    pub fn start_send_status(&mut self, request_id: &str, now: u64, board: &mut JobBoard) -> (r: (
        Started,
        Flow,
    ))
        ensures
            (r.0@, r.1@, final(self)@, final(board)@) == start_of(
                planned_flow(status_plan(request_id@, old(self)@)),
                now,
                old(self)@,
                old(board)@,
            ),
    {
        let flow: Flow = planned(self.plan_send_status(request_id));
        self.start(flow, now, board)
    }

    /// Poll the receipt of a broadcast transaction as a job.
    pub fn start_refresh_tx_status(
        &mut self,
        hash_hex: String,
        chain_id: i64,
        now: u64,
        board: &mut JobBoard,
    ) -> (r: (Started, Flow))
        ensures
            (r.0@, r.1@, final(self)@, final(board)@) == start_of(
                FlowView::OneCall(
                    planned_call(
                        CallView::EthTransactionReceipt(chain_id, hash_hex@),
                        FinishView::TxStatus { hash: hash_hex@, ready: old(self)@ is Some },
                    ),
                ),
                now,
                old(self)@,
                old(board)@,
            ),
    {
        let ready: bool = self.ready();
        self.start(Flow::OneCall(plan_refresh_tx_status(hash_hex, chain_id, ready)), now, board)
    }
}

} // verus!
