//! What holds of sends, polls and jobs over several steps.

use crate::address::address_of;
use crate::backend::StateView;
use crate::flow::{
    answer_with, quiet, CallView, EffectView, FeeView, PendingView, StepView, TxRecordView,
};
use crate::jobs::{job_id, BoardView, JobView};
use crate::json::{err_json, json_text, lookup, str_or_null, JsonView};
use crate::methods::{erc20_plan, jobs_of, native_plan, start_of};
use crate::plans::{
    collected_text, parked_answer, planned_flow, quote_request, start_text, started_json, FlowView,
};
use crate::send::{
    amount_member, fee_request, handle_view, intent_view, pending_json, planned_send, send_input,
    send_next, send_record, text_or, tx_leg_view, SendParamsView, SendStage, SendView,
};
use crate::status::{
    awaiting_json, broadcast_json, declined_json, planned_status, signed_view, status_input,
    status_next, StatusStage, StatusView,
};
use crate::text::hex_u64;
use vstd::prelude::*;

verus! {

/// How far a send has come.
pub open spec fn send_rank(stage: SendStage) -> int {
    match stage {
        SendStage::Nonce => 0,
        SendStage::Fee => 1,
        SendStage::Gas => 2,
        SendStage::Build => 3,
        SendStage::Approve => 4,
    }
}

/// The request that a send in this stage waits on.
pub open spec fn send_waits_on(stage: SendStage, request: StepView) -> bool {
    match stage {
        SendStage::Nonce => request matches StepView::Call(CallView::EthTransactionCount(..)),
        SendStage::Fee => request matches StepView::Call(CallView::FeeEstimate(..)),
        SendStage::Gas => request matches StepView::Call(CallView::EthEstimateGas(..)),
        SendStage::Build => request is Build,
        SendStage::Approve => request matches StepView::Call(CallView::KeystoreRequestApproval(..)),
    }
}

/// A send makes its requests in one fixed order, each only once the reply to
/// the last one is in: every reply either ends it or takes it one stage on.
pub proof fn law_send_is_strictly_sequential(
    f: SendView,
    reply: Result<JsonView, Seq<char>>,
    now: u64,
    jobs: Map<Seq<char>, PendingView>,
)
    requires
        f.wf(),
    ensures
        ({
            let (g, _, t) = send_next(f, Some(reply), now, jobs);
            ||| t.next is Done
            ||| send_rank(g.stage) == send_rank(f.stage) + 1 && send_waits_on(g.stage, t.next)
        }),
        f.stage is Approve ==> send_next(f, Some(reply), now, jobs).2.next is Done,
        f.stage is Nonce ==> send_waits_on(f.stage, send_next(f, None, now, jobs).2.next),
{
}

/// A send never touches the history, and parks nothing before a human was asked.
pub proof fn law_send_records_nothing(
    f: SendView,
    reply: Option<Result<JsonView, Seq<char>>>,
    now: u64,
    jobs: Map<Seq<char>, PendingView>,
)
    requires
        f.wf(),
    ensures
        send_next(f, reply, now, jobs).2.effects.len() == 0,
        !(f.stage is Approve) ==> send_next(f, reply, now, jobs).1 == jobs,
{
}

/// The whole of a send whose requests all succeed: the nonce, the fee and the
/// gas limit that came back are those of the transaction a human is asked to
/// sign, and the answer is the handle it is parked under.
pub proof fn law_send_from_nonce_to_human(
    f: SendView,
    nonce: JsonView,
    fee: JsonView,
    gas: JsonView,
    tx: JsonView,
    asked: JsonView,
    now: u64,
    jobs: Map<Seq<char>, PendingView>,
)
    requires
        f.stage is Nonce,
        handle_view(asked) is Ok,
    ensures
        ({
            let (f1, j1, t1) = send_next(f, Some(Ok(nonce)), now, jobs);
            let (f2, j2, t2) = send_next(f1, Some(Ok(fee)), now, j1);
            let (f3, j3, t3) = send_next(f2, Some(Ok(gas)), now, j2);
            let (f4, j4, t4) = send_next(f3, Some(Ok(tx)), now, j3);
            let (_, j5, t5) = send_next(f4, Some(Ok(asked)), now, j4);
            let (handle, receipt) = handle_view(asked)->Ok_0;
            &&& t1.next == StepView::Call(CallView::FeeEstimate(f.chain_id as i64, f.fee_req))
            &&& t2.next == StepView::Call(CallView::EthEstimateGas(f.chain_id as i64, f.est_tx))
            &&& t3.next matches StepView::Build(d) && {
                &&& d.to == f.to_addr && d.token == f.token && d.amount == f.amount
                &&& d.nonce == hex_u64(text_or(nonce.get_str("result"@), "0x0"@))
                &&& d.gas_limit == match gas.get_str("result"@) {
                    Some(s) => hex_u64(s),
                    None => f.default_gas,
                }
                &&& d.fee == FeeView::Eip1559 {
                    max_fee_per_gas: amount_member(fee, "maxFeePerGas"@),
                    max_priority_fee_per_gas: amount_member(fee, "maxPriorityFeePerGas"@),
                }
            }
            &&& t4.next == StepView::Call(
                CallView::KeystoreRequestApproval(
                    crate::json::json_text(
                        intent_view(f.from, "send"@, seq![tx_leg_view(f.chain_id, tx)]),
                    ),
                ),
            )
            &&& t5 == answer_with(pending_json(handle))
            &&& j5 == jobs.insert(
                handle,
                PendingView { chain_id: f.chain_id, receipt, record: send_record(f, now) },
            )
        }),
{
}

/// A send that was parked can be polled: the handle it answered finds the
/// receipt that goes with it.
pub proof fn law_parked_send_can_be_polled(
    f: SendView,
    asked: JsonView,
    now: u64,
    jobs: Map<Seq<char>, PendingView>,
)
    requires
        f.stage is Approve,
        handle_view(asked) is Ok,
    ensures
        ({
            let (handle, receipt) = handle_view(asked)->Ok_0;
            planned_status(handle, Some(send_next(f, Some(Ok(asked)), now, jobs).1)) == Ok::<
                StatusView,
                Seq<char>,
            >(
                StatusView {
                    stage: StatusStage::Status,
                    request_id: handle,
                    receipt,
                    pending: None,
                    hash: Seq::empty(),
                },
            )
        }),
{
}

/// A gas estimate that fails does not stop a send: the default limit is used.
pub proof fn law_failed_gas_estimate_uses_the_default(
    f: SendView,
    e: Seq<char>,
    now: u64,
    jobs: Map<Seq<char>, PendingView>,
)
    requires
        f.wf(),
        f.stage is Gas,
    ensures
        send_next(f, Some(Err(e)), now, jobs).0.gas_limit == f.default_gas,
        send_next(f, Some(Err(e)), now, jobs).2.next is Build,
{
}

/// How far a poll has come.
pub open spec fn status_rank(stage: StatusStage) -> int {
    match stage {
        StatusStage::Status => 0,
        StatusStage::Fetch => 1,
        StatusStage::Broadcast => 2,
        StatusStage::Ack => 3,
    }
}

/// A poll makes its calls in one fixed order, each only once the last reply is
/// in.
pub proof fn law_poll_is_strictly_sequential(
    f: StatusView,
    reply: Result<JsonView, Seq<char>>,
    jobs: Map<Seq<char>, PendingView>,
)
    requires
        f.wf(),
    ensures
        ({
            let (g, _, t) = status_next(f, Some(reply), jobs);
            t.next is Done || status_rank(g.stage) == status_rank(f.stage) + 1
        }),
        f.stage is Ack ==> status_next(f, Some(reply), jobs).2.next is Done,
{
}

/// While nobody has decided, a poll changes nothing and can be run again.
pub proof fn law_undecided_poll_changes_nothing(
    f: StatusView,
    v: JsonView,
    jobs: Map<Seq<char>, PendingView>,
)
    requires
        f.stage is Status,
        v.get_str("state"@) == Some("offered"@) || v.get_str("state"@) == Some("rendered"@),
    ensures
        status_next(f, Some(Ok(v)), jobs) == (f, jobs, answer_with(awaiting_json())),
{
}

/// Nothing goes to the chain unless a human approved it: the raw transaction is
/// sent only on the fetched result, and that is fetched only once the approval
/// settled as approved.
pub proof fn law_only_approved_is_broadcast(
    f: StatusView,
    reply: Option<Result<JsonView, Seq<char>>>,
    jobs: Map<Seq<char>, PendingView>,
)
    requires
        f.wf(),
    ensures
        (status_next(f, reply, jobs).2.next matches StepView::Call(CallView::EthSendRawTransaction(..)))
            ==> f.stage is Fetch && jobs.contains_key(f.request_id),
        !(f.stage is Fetch) && status_next(f, reply, jobs).0.stage is Fetch ==> {
            &&& f.stage is Status
            &&& reply matches Some(Ok(v)) && v.get_str("state"@) == Some("settled"@)
                && v.get_str("reason"@) == Some("approved"@)
        },
{
    reveal_strlit("");
    reveal_strlit("settled");
    assert(""@.len() != "settled"@.len());
}

/// A transaction is recorded exactly when its broadcast came back with a hash.
pub proof fn law_recorded_once_broadcast(
    f: StatusView,
    reply: Option<Result<JsonView, Seq<char>>>,
    jobs: Map<Seq<char>, PendingView>,
)
    requires
        f.wf(),
    ensures
        status_next(f, reply, jobs).2.effects.len() > 0 <==> {
            &&& f.stage is Broadcast
            &&& reply matches Some(Ok(v)) && v.get_str("hash"@) is Some
        },
{
}

/// A settled approval that was not given is forgotten: its handle is unknown
/// from then on.
pub proof fn law_declined_is_forgotten(f: StatusView, v: JsonView, jobs: Map<Seq<char>, PendingView>)
    requires
        f.stage is Status,
        v.get_str("state"@) == Some("settled"@),
        v.get_str("reason"@) != Some("approved"@),
    ensures
        status_next(f, Some(Ok(v)), jobs).2 == answer_with(
            declined_json(text_or(v.get_str("reason"@), "settled"@)),
        ),
        planned_status(f.request_id, Some(status_next(f, Some(Ok(v)), jobs).1)) == Err::<
            StatusView,
            Seq<char>,
        >("unknown request"@),
{
    reveal_strlit("settled");
    reveal_strlit("offered");
    reveal_strlit("rendered");
    assert("settled"@[0] != "offered"@[0]);
    assert("settled"@[0] != "rendered"@[0]);
}

/// The whole of a poll that ends on the chain: the signed transaction goes to
/// the chain it was parked for, what is recorded is what was parked with the
/// hash filled in, it is parked no more, and the answer is the hash whatever
/// became of the acknowledgement.
pub proof fn law_poll_from_approval_to_chain(
    f: StatusView,
    decided: JsonView,
    fetched: JsonView,
    sent: JsonView,
    ack: Result<JsonView, Seq<char>>,
    jobs: Map<Seq<char>, PendingView>,
)
    requires
        f.stage is Status,
        jobs.contains_key(f.request_id),
        decided.get_str("state"@) == Some("settled"@),
        decided.get_str("reason"@) == Some("approved"@),
        signed_view(fetched) is Some,
        sent.get_str("hash"@) is Some,
    ensures
        ({
            let job = jobs[f.request_id];
            let hash = sent.get_str("hash"@)->0;
            let (f1, j1, t1) = status_next(f, Some(Ok(decided)), jobs);
            let (f2, j2, t2) = status_next(f1, Some(Ok(fetched)), j1);
            let (f3, j3, t3) = status_next(f2, Some(Ok(sent)), j2);
            let (_, j4, t4) = status_next(f3, Some(ack), j3);
            &&& t1 == quiet(StepView::Call(CallView::KeystoreFetchResult(f.request_id, f.receipt)))
            &&& t2 == quiet(
                StepView::Call(
                    CallView::EthSendRawTransaction(job.chain_id as i64, signed_view(fetched)->0),
                ),
            )
            &&& t3.effects =~= seq![
                EffectView::RecordTx(TxRecordView { hash, ..job.record }),
                EffectView::TxStatusChanged(hash),
            ]
            &&& t3.next == StepView::Call(CallView::KeystoreAckResult(f.request_id, f.receipt))
            &&& t4 == answer_with(broadcast_json(hash))
            &&& j4 == jobs.remove(f.request_id)
        }),
{
    reveal_strlit("settled");
    reveal_strlit("offered");
    reveal_strlit("rendered");
    assert("settled"@[0] != "offered"@[0]);
    assert("settled"@[0] != "rendered"@[0]);
    let hash = sent.get_str("hash"@)->0;
    let (f1, j1, t1) = status_next(f, Some(Ok(decided)), jobs);
    let (f2, j2, t2) = status_next(f1, Some(Ok(fetched)), j1);
    let (f3, j3, t3) = status_next(f2, Some(Ok(sent)), j2);
    assert(f1.stage is Fetch && j1 == jobs);
    assert(f2.stage is Broadcast && f2.pending == Some(jobs[f.request_id].record));
    assert(f3.stage is Ack && f3.hash == hash);
}

/// The two spellings of a method answer alike: the answer a waiting caller gets
/// from a flow's last step is what collecting the job gives.
pub proof fn law_both_spellings_answer_alike(
    f: FlowView,
    reply: Option<Result<Seq<char>, Seq<char>>>,
    now: u64,
    jobs: Map<Seq<char>, PendingView>,
    board: BoardView,
    job: Seq<char>,
)
    requires
        f.takes(reply),
        board.by_id.contains_key(job),
        f.next(reply, now, jobs).2.next is Done,
    ensures
        collected_text(
            parked_answer(board, job, f.next(reply, now, jobs).2.next).found(job),
            job,
        ) == f.next(reply, now, jobs).2.next->Done_0,
{
}

/// What a flow answers when every reply is waited for: nothing as long as the
/// replies, each with its time, have not brought it to its end.
pub open spec fn waited_answer(
    f: FlowView,
    reply: Option<Result<Seq<char>, Seq<char>>>,
    now: u64,
    later: Seq<(Result<Seq<char>, Seq<char>>, u64)>,
    jobs: Map<Seq<char>, PendingView>,
) -> Option<Seq<char>>
    decreases later.len(),
{
    let (g, parked, t) = f.next(reply, now, jobs);
    match t.next {
        StepView::Done(answer) => Some(answer),
        _ => if later.len() == 0 {
            None
        } else {
            waited_answer(g, Some(later[0].0), later[0].1, later.skip(1), parked)
        },
    }
}

/// The board after a job took the same replies from callbacks.
pub open spec fn driven_board(
    f: FlowView,
    reply: Option<Result<Seq<char>, Seq<char>>>,
    now: u64,
    later: Seq<(Result<Seq<char>, Seq<char>>, u64)>,
    jobs: Map<Seq<char>, PendingView>,
    board: BoardView,
    job: Seq<char>,
) -> BoardView
    decreases later.len(),
{
    let (g, parked, t) = f.next(reply, now, jobs);
    let after = parked_answer(board, job, t.next);
    if t.next is Done || later.len() == 0 {
        after
    } else {
        driven_board(g, Some(later[0].0), later[0].1, later.skip(1), parked, after, job)
    }
}

/// Over a whole run the two spellings answer alike: a job that took the replies
/// a waiting caller waited for has the same answer to collect, and is pending
/// as long as the caller would still wait.
pub proof fn law_a_job_answers_what_waiting_would(
    f: FlowView,
    reply: Option<Result<Seq<char>, Seq<char>>>,
    now: u64,
    later: Seq<(Result<Seq<char>, Seq<char>>, u64)>,
    jobs: Map<Seq<char>, PendingView>,
    board: BoardView,
    job: Seq<char>,
)
    requires
        board.found(job) == JobView::Pending,
    ensures
        driven_board(f, reply, now, later, jobs, board, job).found(job) == (match waited_answer(
            f,
            reply,
            now,
            later,
            jobs,
        ) {
            Some(answer) => JobView::Ready(answer),
            None => JobView::Pending,
        }),
    decreases later.len(),
{
    let (g, parked, t) = f.next(reply, now, jobs);
    let after = parked_answer(board, job, t.next);
    if !(t.next is Done) && later.len() > 0 {
        law_a_job_answers_what_waiting_would(
            g,
            Some(later[0].0),
            later[0].1,
            later.skip(1),
            parked,
            after,
            job,
        );
    }
}

/// A flow that has its answer before it asks for anything is a job like any
/// other, and the job has the answer at once.
pub proof fn law_early_answer_is_collectable(
    answer: Seq<char>,
    now: u64,
    jobs: Map<Seq<char>, PendingView>,
    board: BoardView,
)
    ensures
        ({
            let t = FlowView::Answered(Some(answer)).next(None, now, jobs).2;
            parked_answer(board.started(), job_id(board.next), t.next).found(job_id(board.next))
                == JobView::Ready(answer)
        }),
{
}

/// A plan that failed is reported alike in both spellings: waiting answers its
/// error, and starting it answers a job id under which the same error is
/// collected.
pub proof fn law_failed_plan_is_reported_alike(
    e: Seq<char>,
    now: u64,
    later: Seq<(Result<Seq<char>, Seq<char>>, u64)>,
    jobs: Map<Seq<char>, PendingView>,
    board: BoardView,
)
    ensures
        ({
            let f = planned_flow(Err(e));
            let job = job_id(board.next);
            let t = f.next(None, now, jobs).2;
            &&& f.takes(None)
            &&& waited_answer(f, None, now, later, jobs) == Some(json_text(err_json(e)))
            &&& start_text(board) == json_text(started_json(job))
            &&& collected_text(parked_answer(board.started(), job, t.next).found(job), job)
                == json_text(err_json(e))
            &&& t.effects.len() == 0
        }),
{
    law_early_answer_is_collectable(json_text(err_json(e)), now, jobs, board);
}

/// A method whose plan failed asks for nothing and changes no state: starting it
/// answers a job id, the job has the error at once, and the error is what
/// waiting for the method answers.
pub proof fn law_refused_start_is_collected(
    plan: Result<FlowView, Seq<char>>,
    now: u64,
    later: Seq<(Result<Seq<char>, Seq<char>>, u64)>,
    st: Option<StateView>,
    board: BoardView,
)
    requires
        plan is Err,
    ensures
        ({
            let (started, _, after, parked) = start_of(planned_flow(plan), now, st, board);
            let refusal = json_text(err_json(plan->Err_0));
            &&& started.answer == json_text(started_json(started.job))
            &&& started.turn == answer_with(err_json(plan->Err_0))
            &&& after == st
            &&& collected_text(parked.found(started.job), started.job) == refusal
            &&& waited_answer(planned_flow(plan), None, now, later, jobs_of(st)) == Some(refusal)
        }),
{
    law_failed_plan_is_reported_alike(plan->Err_0, now, later, jobs_of(st), board);
}

/// A send whose request or recipient cannot be read is refused so, native or of
/// a token, whatever the state.
pub proof fn law_unreadable_send_is_refused(
    p: Result<SendParamsView, Seq<char>>,
    data: Seq<u8>,
    st: Option<StateView>,
)
    requires
        p is Err || address_of(p->Ok_0.to) is Err,
    ensures
        native_plan(p, st) is Err,
        erc20_plan(p, data, st) is Err,
        p is Err ==> native_plan(p, st)->Err_0 == p->Err_0 && erc20_plan(p, data, st)->Err_0
            == p->Err_0,
        p is Ok ==> native_plan(p, st)->Err_0 == address_of(p->Ok_0.to)->Err_0,
{
}

/// Over a whole run a started method answers what waiting for it would: the job
/// is pending as long as a waiting caller would still wait, and then has the
/// answer that the caller gets.
pub proof fn law_a_started_method_answers_what_waiting_would(
    f: FlowView,
    now: u64,
    later: Seq<(Result<Seq<char>, Seq<char>>, u64)>,
    st: Option<StateView>,
    board: BoardView,
)
    ensures
        driven_board(f, None, now, later, jobs_of(st), board.started(), job_id(board.next)).found(
            job_id(board.next),
        ) == (match waited_answer(f, None, now, later, jobs_of(st)) {
            Some(answer) => JobView::Ready(answer),
            None => JobView::Pending,
        }),
        later.len() == 0 ==> start_of(f, now, st, board).3 == driven_board(
            f,
            None,
            now,
            later,
            jobs_of(st),
            board.started(),
            job_id(board.next),
        ),
{
    law_a_job_answers_what_waiting_would(
        f,
        None,
        now,
        later,
        jobs_of(st),
        board.started(),
        job_id(board.next),
    );
}

/// A step that is not the last leaves the board alone: a collect meanwhile
/// reads the job as pending.
pub proof fn law_unfinished_job_stays_pending(board: BoardView, job: Seq<char>, next: StepView)
    requires
        !(next is Done),
    ensures
        parked_answer(board, job, next) == board,
{
}

/// A poll that fails before the broadcast leaves the transaction parked: it can
/// be polled again.
pub proof fn law_failed_poll_can_be_retried(
    f: StatusView,
    e: Seq<char>,
    jobs: Map<Seq<char>, PendingView>,
)
    requires
        f.stage is Status || f.stage is Fetch,
    ensures
        status_next(f, Some(Err(e)), jobs).1 == jobs,
        status_next(f, Some(Err(e)), jobs).2.next is Done,
        planned_status(f.request_id, Some(jobs)) is Ok ==> planned_status(
            f.request_id,
            Some(status_next(f, Some(Err(e)), jobs).1),
        ) == planned_status(f.request_id, Some(jobs)),
{
}

/// A recipient that cannot be read is reported before anything is asked, with
/// the same message whether or not the module has its state.
pub proof fn law_unreadable_recipient_costs_no_call(
    p: SendParamsView,
    token: Option<Seq<u8>>,
    data: Seq<u8>,
    ready: bool,
)
    requires
        address_of(p.to) is Err,
    ensures
        planned_send(p, token, data, ready) == Err::<SendView, Seq<char>>(address_of(p.to)->Err_0),
{
}

/// A recipient that cannot be read does not refuse a fee quote: the request just
/// names no transaction.
pub proof fn law_unreadable_recipient_is_still_quoted(p: SendParamsView, data: Seq<u8>)
    requires
        address_of(p.to) is Err,
    ensures
        quote_request(p, data) == fee_request(p),
{
}

/// How many replies a flow takes at most before it ends.
pub open spec fn replies_left(f: FlowView) -> int {
    match f {
        FlowView::Answered(_) => 1,
        FlowView::OneCall(c) => if c.call is Some {
            2
        } else {
            1
        },
        FlowView::Send(s) => 5 - send_rank(s.stage),
        FlowView::Status(s) => 4 - status_rank(s.stage),
    }
}

/// Every flow ends: each reply either ends it or leaves it fewer to take, and it
/// never takes more than five.
pub proof fn law_every_flow_ends(
    f: FlowView,
    reply: Result<Seq<char>, Seq<char>>,
    now: u64,
    jobs: Map<Seq<char>, PendingView>,
)
    requires
        f.takes(Some(reply)),
    ensures
        1 <= replies_left(f) <= 5,
        ({
            let (g, _, t) = f.next(Some(reply), now, jobs);
            t.next is Done || replies_left(g) < replies_left(f)
        }),
{
    match f {
        FlowView::Send(s) => {
            let input = send_input(s.stage, Some(reply))->0;
            law_send_is_strictly_sequential(s, input, now, jobs);
        },
        FlowView::Status(s) => {
            law_poll_is_strictly_sequential(s, status_input(Some(reply))->0, jobs);
        },
        _ => {},
    }
}

/// A caller's fee controls are all passed on as they are, for a send as for a
/// quote; one that is not given is null, and no tier is the normal one.
pub proof fn law_fee_controls_are_passed_on(p: SendParamsView)
    ensures
        fee_request(p).get("tier"@) == Some(JsonView::Str(text_or(p.tier, "normal"@))),
        fee_request(p).get("maxFeePerGas"@) == Some(str_or_null(p.max_fee_per_gas)),
        fee_request(p).get("maxPriorityFeePerGas"@) == Some(
            str_or_null(p.max_priority_fee_per_gas),
        ),
        fee_request(p).get("gasLimit"@) == Some(str_or_null(p.gas_limit)),
{
    reveal_strlit("tier");
    reveal_strlit("maxFeePerGas");
    reveal_strlit("maxPriorityFeePerGas");
    reveal_strlit("gasLimit");
    assert("tier"@.len() == 4 && "maxFeePerGas"@.len() == 12);
    assert("maxPriorityFeePerGas"@.len() == 20 && "gasLimit"@.len() == 8);
    let m = fee_request(p)->Obj_0;
    let rest = m.skip(1);
    let tail = rest.skip(1);
    assert(rest[0] == m[1] && tail[0] == m[2] && tail.skip(1)[0] == m[3]);
    assert(lookup(tail.skip(1), "gasLimit"@) == Some(m[3].1));
    assert(lookup(tail, "gasLimit"@) == Some(m[3].1));
    assert(lookup(rest, "gasLimit"@) == Some(m[3].1));
    assert(lookup(tail, "maxPriorityFeePerGas"@) == Some(m[2].1));
    assert(lookup(rest, "maxPriorityFeePerGas"@) == Some(m[2].1));
    assert(lookup(rest, "maxFeePerGas"@) == Some(m[1].1));
}

/// Something that happens while requests are polled.
pub enum PollOp {
    /// A poll of a request begins.
    Poll(Seq<char>),
    /// A poll under way, the one at this place, takes a reply.
    Reply(int, Option<Result<JsonView, Seq<char>>>),
    /// A transaction is parked under a handle.
    Park(Seq<char>, PendingView),
}

/// Polls under way, what is parked, and the requests whose transactions were
/// sent to a chain, in that order.
pub struct Polls {
    pub flows: Seq<StatusView>,
    pub jobs: Map<Seq<char>, PendingView>,
    pub sent: Seq<Seq<char>>,
}

/// The polls after one thing happened. A poll that cannot be planned does not
/// begin, and a reply for no poll is lost.
pub open spec fn polled(p: Polls, op: PollOp) -> Polls {
    match op {
        PollOp::Poll(id) => match planned_status(id, Some(p.jobs)) {
            Ok(f) => Polls { flows: p.flows.push(f), ..p },
            Err(_) => p,
        },
        PollOp::Park(handle, job) => Polls { jobs: p.jobs.insert(handle, job), ..p },
        PollOp::Reply(i, reply) => if 0 <= i < p.flows.len() {
            let (g, jobs, t) = status_next(p.flows[i], reply, p.jobs);
            Polls {
                flows: p.flows.update(i, g),
                jobs,
                sent: if t.next matches StepView::Call(CallView::EthSendRawTransaction(..)) {
                    p.sent.push(p.flows[i].request_id)
                } else {
                    p.sent
                },
            }
        } else {
            p
        },
    }
}

/// The polls after all this happened, in this order.
pub open spec fn polled_all(p: Polls, ops: Seq<PollOp>) -> Polls
    decreases ops.len(),
{
    if ops.len() == 0 {
        p
    } else {
        polled(polled_all(p, ops.drop_last()), ops.last())
    }
}

/// The request's transaction was sent no more than once, and is parked no more
/// once it was.
pub open spec fn sent_at_most_once(p: Polls, id: Seq<char>) -> bool {
    &&& forall|i: int, j: int|
        0 <= i < j < p.sent.len() ==> !(#[trigger] p.sent[i] == id && #[trigger] p.sent[j] == id)
    &&& p.sent.contains(id) ==> !p.jobs.contains_key(id)
}

proof fn lemma_polled_sends_once(p: Polls, op: PollOp, id: Seq<char>)
    requires
        sent_at_most_once(p, id),
        !(op matches PollOp::Park(handle, _) && handle == id),
    ensures
        sent_at_most_once(polled(p, op), id),
{
    let q = polled(p, op);
    if q.sent.contains(id) {
        let k = choose|k: int| 0 <= k < q.sent.len() && q.sent[k] == id;
        if k < p.sent.len() {
            assert(p.sent[k] == id);
            assert(p.sent.contains(id));
        }
    }
    assert forall|i: int, j: int| 0 <= i < j < q.sent.len() implies !(#[trigger] q.sent[i] == id
        && #[trigger] q.sent[j] == id) by {
        assert(q.sent[i] == p.sent[i]);
        if j < p.sent.len() {
            assert(q.sent[j] == p.sent[j]);
        } else if p.sent[i] == id {
            assert(p.sent.contains(id));
        }
    }
}

/// A poll may be run as often as wanted: over any number of polls, one after
/// another or at once and whatever they are answered, the transaction of a
/// request that is not parked anew is sent to the chain at most once.
pub proof fn law_polled_transaction_is_sent_at_most_once(
    jobs: Map<Seq<char>, PendingView>,
    ops: Seq<PollOp>,
    id: Seq<char>,
)
    requires
        forall|i: int|
            0 <= i < ops.len() ==> !(#[trigger] ops[i] matches PollOp::Park(handle, _) && handle == id),
    ensures
        sent_at_most_once(polled_all(Polls { flows: Seq::empty(), jobs, sent: Seq::empty() }, ops), id),
    decreases ops.len(),
{
    let p = Polls { flows: Seq::empty(), jobs, sent: Seq::empty() };
    if ops.len() > 0 {
        let before = ops.drop_last();
        assert forall|i: int| 0 <= i < before.len() implies !(#[trigger] before[i] matches PollOp::Park(
            handle,
            _,
        ) && handle == id) by {
            assert(before[i] == ops[i]);
        }
        law_polled_transaction_is_sent_at_most_once(jobs, before, id);
        assert(ops.last() == ops[ops.len() - 1]);
        lemma_polled_sends_once(polled_all(p, before), ops.last(), id);
    }
}

} // verus!
