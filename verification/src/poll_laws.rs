//! What a poll makes of a human's decision, and what the methods of one call
//! answer.

use crate::address::address_of;
use crate::amount::amount_of;
use crate::backend::StateView;
use crate::flow::{CallView, EffectView, PendingView, StepView, TurnView, TxRecordView};
use crate::jobs::JobView;
use crate::json::{json_text, reply_view, JsonView};
use crate::json_laws::{
    law_a_member_counts_once, law_a_member_is_found, law_an_empty_object_has_no_members, member_count,
};
use crate::methods::status_plan;
use crate::plans::{
    collected_text, finished, planned_call, planned_flow, refusal_text, started_json, tx_status_view,
    FinishView, FlowView,
};
use crate::send::{planned_erc20, planned_native, send_next, SendParamsView, SendView};
use crate::send_laws::{
    answers_error, law_native_send_does_what_was_asked, law_token_send_does_what_was_asked, lemma_error,
    parks_the_send, sends_as_asked,
};
use crate::status::{
    awaiting_json, broadcast_json, declined_json, first_text, planned_status, signed_view,
    status_next, StatusView,
};
use crate::text::{decimal_text, lowered, quoted};
use crate::words::{lemma_envelope_words, lemma_state_words, lemma_tx_status_words};
use vstd::prelude::*;

verus! {

/// The answer of a poll that nobody has decided.
pub open spec fn answers_awaiting(next: StepView) -> bool {
    next matches StepView::Done(text) && exists|v: JsonView|
        text == #[trigger] json_text(v) && v.get_bool("ok"@) == Some(true) && v.get_str("state"@) == Some(
            "awaiting_approval"@,
        ) && member_count(v) == 2
}

/// The answer of a poll that was declined for this reason.
pub open spec fn answers_declined(next: StepView, reason: Seq<char>) -> bool {
    next matches StepView::Done(text) && exists|v: JsonView|
        text == #[trigger] json_text(v) && v.get_bool("ok"@) == Some(true) && v.get_str("state"@) == Some(
            "declined"@,
        ) && v.get_str("reason"@) == Some(reason) && member_count(v) == 3
}

/// The answer of a poll whose transaction is on the chain under this hash.
pub open spec fn answers_done(next: StepView, hash: Seq<char>) -> bool {
    next matches StepView::Done(text) && exists|v: JsonView|
        text == #[trigger] json_text(v) && v.get_bool("ok"@) == Some(true) && v.get_str("state"@) == Some(
            "done"@,
        ) && v.get_str("hash"@) == Some(hash) && member_count(v) == 3
}

/// The transaction is recorded as it was parked, now under its hash, and
/// subscribers hear of that hash.
pub open spec fn records_as_parked(turn: TurnView, parked: TxRecordView, hash: Seq<char>) -> bool {
    &&& turn.effects.len() == 2
    &&& turn.effects[0] matches EffectView::RecordTx(r) && {
        &&& r.hash == hash
        &&& r.chain_id == parked.chain_id
        &&& r.from == parked.from
        &&& r.to == parked.to
        &&& r.value == parked.value
        &&& r.kind == parked.kind
        &&& r.token == parked.token
        &&& r.status == parked.status
        &&& r.timestamp == parked.timestamp
    }
    &&& turn.effects[1] == EffectView::TxStatusChanged(hash)
}

proof fn lemma_first_text(items: Seq<JsonView>, k: int)
    requires
        0 <= k < items.len(),
        items[k] is Str,
        forall|i: int| 0 <= i < k ==> !(#[trigger] items[i] is Str),
    ensures
        first_text(items) == Some(items[k]->Str_0),
    decreases items.len(),
{
    if k > 0 {
        let rest = items.skip(1);
        assert(!(items[0] is Str));
        assert(rest[k - 1] == items[k]);
        assert forall|i: int| 0 <= i < k - 1 implies !(#[trigger] rest[i] is Str) by {
            assert(rest[i] == items[i + 1]);
        }
        lemma_first_text(rest, k - 1);
    }
}

/// The signed transaction of a result is the first text among its signed legs, and
/// there is none where it has no text.
pub proof fn law_the_first_signature_is_taken(v: JsonView, items: Seq<JsonView>, k: int)
    ensures
        v.get_arr("signed"@) is None ==> signed_view(v) is None,
        v.get("signed"@) == Some(JsonView::Arr(items)) && 0 <= k < items.len() && items[k] is Str && (
        forall|i: int| 0 <= i < k ==> !(#[trigger] items[i] is Str))
            ==> signed_view(v) == Some(items[k]->Str_0),
        v.get("signed"@) == Some(JsonView::Arr(items)) && (forall|i: int|
            0 <= i < items.len() ==> !(#[trigger] items[i] is Str)) ==> signed_view(v) is None,
{
    if 0 <= k < items.len() && items[k] is Str && (forall|i: int|
        0 <= i < k ==> !(#[trigger] items[i] is Str)) {
        lemma_first_text(items, k);
    }
    if forall|i: int| 0 <= i < items.len() ==> !(#[trigger] items[i] is Str) {
        lemma_no_text(items);
    }
}

proof fn lemma_no_text(items: Seq<JsonView>)
    requires
        forall|i: int| 0 <= i < items.len() ==> !(#[trigger] items[i] is Str),
    ensures
        first_text(items) is None,
    decreases items.len(),
{
    if items.len() > 0 {
        assert(!(items[0] is Str));
        assert forall|i: int| 0 <= i < items.skip(1).len() implies !(#[trigger] items.skip(1)[i] is Str) by {
            assert(items.skip(1)[i] == items[i + 1]);
        }
        lemma_no_text(items.skip(1));
    }
}

proof fn lemma_answers(reason: Seq<char>, hash: Seq<char>)
    ensures
        answers_awaiting(StepView::Done(json_text(awaiting_json()))),
        answers_declined(StepView::Done(json_text(declined_json(reason))), reason),
        answers_done(StepView::Done(json_text(broadcast_json(hash))), hash),
{
    broadcast use {
        law_a_member_counts_once,
        law_a_member_is_found,
        law_an_empty_object_has_no_members,
    };

    lemma_envelope_words();
    let a = awaiting_json();
    assert(a.get_bool("ok"@) == Some(true) && a.get_str("state"@) == Some("awaiting_approval"@));
    let d = declined_json(reason);
    assert(d.get_bool("ok"@) == Some(true) && d.get_str("state"@) == Some("declined"@) && d.get_str(
        "reason"@,
    ) == Some(reason));
    let b = broadcast_json(hash);
    assert(b.get_bool("ok"@) == Some(true) && b.get_str("state"@) == Some("done"@) && b.get_str("hash"@)
        == Some(hash));
}

/// What may be polled: a handle under which something is parked, in a module with
/// its state; else the poll is refused for what is missing.
pub proof fn law_what_may_be_polled(
    id: Seq<char>,
    jobs: Map<Seq<char>, PendingView>,
    st: StateView,
)
    ensures
        planned_status(id, Some(jobs)) is Ok <==> jobs.contains_key(id),
        !jobs.contains_key(id) ==> planned_status(id, Some(jobs)) == Err::<StatusView, Seq<char>>(
            "unknown request"@,
        ),
        planned_status(id, None) == Err::<StatusView, Seq<char>>(
            "backend not initialized (context not ready)"@,
        ),
        status_plan(id, None) == Err::<FlowView, Seq<char>>(
            "backend not initialized (context not ready)"@,
        ),
        !st.jobs.contains_key(id) ==> status_plan(id, Some(st)) == Err::<FlowView, Seq<char>>(
            "unknown request"@,
        ),
        st.jobs.contains_key(id) ==> status_plan(id, Some(st)) == Ok::<FlowView, Seq<char>>(
            FlowView::Status(planned_status(id, Some(st.jobs))->Ok_0),
        ),
{
}

/// A poll first asks for the decision on its own handle with its own receipt, and
/// answers by what it hears: undecided changes nothing, a decision against it
/// forgets the transaction and says why, and anything else is an error. Only an
/// approval goes on, to fetch the result.
pub proof fn law_a_poll_answers_the_decision(
    id: Seq<char>,
    jobs: Map<Seq<char>, PendingView>,
    v: JsonView,
    state: Seq<char>,
    reason: Seq<char>,
)
    requires
        jobs.contains_key(id),
    ensures
        ({
            let f = planned_status(id, Some(jobs))->Ok_0;
            let (f0, j0, t0) = status_next(f, None, jobs);
            let (f1, j1, t1) = status_next(f0, Some(Ok(v)), j0);
            &&& t0.next == StepView::Call(CallView::KeystoreApprovalStatus(id, jobs[id].receipt))
            &&& t0.effects.len() == 0
            &&& t1.effects.len() == 0
            &&& j0 == jobs
            &&& v.get("state"@) == Some(JsonView::Str(state)) ==> {
                &&& state == "offered"@ || state == "rendered"@ ==> answers_awaiting(t1.next) && j1 == jobs
                &&& state != "offered"@ && state != "rendered"@ && state != "settled"@ ==> answers_error(
                    t1.next,
                    "unexpected approval state "@ + quoted(state),
                ) && j1 == jobs
                &&& state == "settled"@ && v.get("reason"@) == Some(JsonView::Str(reason)) ==> (if reason
                    == "approved"@ {
                    &&& t1.next == StepView::Call(
                        CallView::KeystoreFetchResult(id, jobs[id].receipt),
                    )
                    &&& j1 == jobs
                } else {
                    &&& answers_declined(t1.next, reason)
                    &&& !j1.contains_key(id)
                    &&& j1 == jobs.remove(id)
                })
                &&& state == "settled"@ && v.get_str("reason"@) is None ==> answers_declined(
                    t1.next,
                    "settled"@,
                ) && j1 == jobs.remove(id)
            }
            &&& v.get_str("state"@) is None ==> answers_error(
                t1.next,
                "unexpected approval state "@ + quoted(Seq::empty()),
            ) && j1 == jobs
        }),
{
    lemma_state_words();
    reveal_strlit("");
    assert(""@ =~= Seq::<char>::empty());
    lemma_answers(reason, reason);
    lemma_answers("settled"@, reason);
    lemma_error("unexpected approval state "@ + quoted(state));
    lemma_error("unexpected approval state "@ + quoted(Seq::empty()));
}

/// An approved transaction goes the whole way: its own signature goes to its own
/// chain, once; what the chain gives it as hash is recorded with every member as it
/// was parked; the result is acknowledged under its own handle and receipt; and the
/// answer names the hash, whatever became of the acknowledgement.
pub proof fn law_an_approved_poll_records_what_was_parked(
    id: Seq<char>,
    jobs: Map<Seq<char>, PendingView>,
    decided: JsonView,
    fetched: JsonView,
    sent: JsonView,
    acked: Result<JsonView, Seq<char>>,
    items: Seq<JsonView>,
    k: int,
    raw: Seq<char>,
    hash: Seq<char>,
)
    requires
        jobs.contains_key(id),
        decided.get("state"@) == Some(JsonView::Str("settled"@)),
        decided.get("reason"@) == Some(JsonView::Str("approved"@)),
        fetched.get("signed"@) == Some(JsonView::Arr(items)),
        0 <= k < items.len(),
        items[k] == JsonView::Str(raw),
        forall|i: int| 0 <= i < k ==> !(#[trigger] items[i] is Str),
        sent.get("hash"@) == Some(JsonView::Str(hash)),
    ensures
        polls_to_the_chain(
            planned_status(id, Some(jobs))->Ok_0,
            id,
            jobs,
            jobs[id],
            decided,
            fetched,
            sent,
            acked,
            raw,
            hash,
        ),
{
    lemma_state_words();
    law_the_first_signature_is_taken(fetched, items, k);
    lemma_answers(hash, hash);
}

/// The whole of an approved poll, in terms of what was parked.
pub open spec fn polls_to_the_chain(
    f: StatusView,
    id: Seq<char>,
    jobs: Map<Seq<char>, PendingView>,
    job: PendingView,
    decided: JsonView,
    fetched: JsonView,
    sent: JsonView,
    acked: Result<JsonView, Seq<char>>,
    raw: Seq<char>,
    hash: Seq<char>,
) -> bool {
    let (f0, j0, t0) = status_next(f, None, jobs);
    let (f1, j1, t1) = status_next(f0, Some(Ok(decided)), j0);
    let (f2, j2, t2) = status_next(f1, Some(Ok(fetched)), j1);
    let (f3, j3, t3) = status_next(f2, Some(Ok(sent)), j2);
    let (f4, j4, t4) = status_next(f3, Some(acked), j3);
    &&& t0.next == StepView::Call(CallView::KeystoreApprovalStatus(id, job.receipt))
    &&& t1.next == StepView::Call(CallView::KeystoreFetchResult(id, job.receipt))
    &&& t2.next == StepView::Call(CallView::EthSendRawTransaction(job.chain_id as i64, raw))
    &&& t3.next == StepView::Call(CallView::KeystoreAckResult(id, job.receipt))
    &&& t0.effects.len() == 0 && t1.effects.len() == 0 && t2.effects.len() == 0 && t4.effects.len() == 0
    &&& records_as_parked(t3, job.record, hash)
    &&& answers_done(t4.next, hash)
    &&& j1 == jobs
    &&& j4 == jobs.remove(id)
}

/// A poll ends with the error of a request that fails, and keeps what is parked; it
/// has no signature, no parked transaction or no hash to go on with, and says so. An
/// acknowledgement may fail: the transaction is on the chain.
pub proof fn law_a_poll_ends_with_the_first_error(
    f: StatusView,
    e: Seq<char>,
    v: JsonView,
    jobs: Map<Seq<char>, PendingView>,
)
    ensures
        !(f.stage is Ack) ==> answers_error(status_next(f, Some(Err(e)), jobs).2.next, e),
        status_next(f, Some(Err(e)), jobs).1 == jobs,
        status_next(f, Some(Err(e)), jobs).2.effects.len() == 0,
        f.stage is Ack ==> answers_done(status_next(f, Some(Err(e)), jobs).2.next, f.hash),
        f.stage is Fetch && signed_view(v) is None ==> answers_error(
            status_next(f, Some(Ok(v)), jobs).2.next,
            "keystore: approval produced no signatures"@,
        ) && status_next(f, Some(Ok(v)), jobs).1 == jobs,
        f.stage is Fetch && signed_view(v) is Some && !jobs.contains_key(f.request_id) ==> answers_error(
            status_next(f, Some(Ok(v)), jobs).2.next,
            "unknown request"@,
        ) && status_next(f, Some(Ok(v)), jobs).1 == jobs,
        f.stage is Broadcast && v.get_str("hash"@) is None ==> answers_error(
            status_next(f, Some(Ok(v)), jobs).2.next,
            "broadcast: no hash"@,
        ) && status_next(f, Some(Ok(v)), jobs).2.effects.len() == 0,
{
    lemma_error(e);
    lemma_answers(e, f.hash);
    lemma_error("keystore: approval produced no signatures"@);
    lemma_error("unknown request"@);
    lemma_error("broadcast: no hash"@);
}

/// A poll reads each reply for what it says.
pub proof fn law_a_poll_reads_its_replies(
    f: StatusView,
    reply: Result<Seq<char>, Seq<char>>,
    now: u64,
    jobs: Map<Seq<char>, PendingView>,
)
    ensures
        FlowView::Status(f).next(None, now, jobs) == ({
            let (g, j, t) = status_next(f, None, jobs);
            (FlowView::Status(g), j, t)
        }),
        FlowView::Status(f).next(Some(reply), now, jobs) == ({
            let (g, j, t) = status_next(f, Some(reply_view(reply)), jobs);
            (FlowView::Status(g), j, t)
        }),
{
}

/// What is recorded of a send: its sender, recipient, chain and amount are the
/// request's own, native or token alike, and its hash is the chain's.
pub open spec fn recorded_as_asked(
    turn: TurnView,
    p: SendParamsView,
    token: Option<Seq<u8>>,
    hash: Seq<char>,
) -> bool {
    &&& turn.effects.len() == 2
    &&& turn.effects[0] matches EffectView::RecordTx(r) && {
        &&& r.hash == hash
        &&& r.chain_id == p.chain_id
        &&& r.from == p.from
        &&& r.to == p.to
        &&& r.value == decimal_text(amount_of(p.amount))
        &&& r.kind == (if token is Some { "erc20"@ } else { "native"@ })
        &&& r.token is Some <==> token is Some
        &&& r.status == "pending"@
    }
    &&& turn.effects[1] == EffectView::TxStatusChanged(hash)
}

/// A send that was asked for, parked and approved is broadcast on the request's own
/// chain and recorded as it was asked for, native or token alike.
pub proof fn law_what_was_asked_for_is_recorded(
    p: SendParamsView,
    data: Seq<u8>,
    native: bool,
    nonce: JsonView,
    fee: JsonView,
    gas: Result<JsonView, Seq<char>>,
    tx: JsonView,
    asked: JsonView,
    handle: Seq<char>,
    receipt: Seq<char>,
    now: u64,
    jobs: Map<Seq<char>, PendingView>,
    decided: JsonView,
    fetched: JsonView,
    sent: JsonView,
    items: Seq<JsonView>,
    k: int,
    raw: Seq<char>,
    hash: Seq<char>,
)
    requires
        address_of(p.to) is Ok,
        native || address_of(p.token_address) is Ok,
        asked.get("handle"@) == Some(JsonView::Str(handle)),
        asked.get("receipt"@) == Some(JsonView::Str(receipt)),
        decided.get("state"@) == Some(JsonView::Str("settled"@)),
        decided.get("reason"@) == Some(JsonView::Str("approved"@)),
        fetched.get("signed"@) == Some(JsonView::Arr(items)),
        0 <= k < items.len(),
        items[k] == JsonView::Str(raw),
        forall|i: int| 0 <= i < k ==> !(#[trigger] items[i] is Str),
        sent.get("hash"@) == Some(JsonView::Str(hash)),
    ensures
        ({
            let f = if native {
                planned_native(Ok(p), true)->Ok_0
            } else {
                planned_erc20(Ok(p), data, true)->Ok_0
            };
            let token = if native {
                None
            } else {
                Some(address_of(p.token_address)->Ok_0)
            };
            let (f0, j0, _) = send_next(f, None, now, jobs);
            let (f1, j1, _) = send_next(f0, Some(Ok(nonce)), now, j0);
            let (f2, j2, _) = send_next(f1, Some(Ok(fee)), now, j1);
            let (f3, j3, _) = send_next(f2, Some(gas), now, j2);
            let (f4, j4, _) = send_next(f3, Some(Ok(tx)), now, j3);
            let parked = send_next(f4, Some(Ok(asked)), now, j4).1;
            let g = planned_status(handle, Some(parked))->Ok_0;
            let (g0, k0, u0) = status_next(g, None, parked);
            let (g1, k1, u1) = status_next(g0, Some(Ok(decided)), k0);
            let (g2, k2, u2) = status_next(g1, Some(Ok(fetched)), k1);
            let (_, _, u3) = status_next(g2, Some(Ok(sent)), k2);
            &&& planned_status(handle, Some(parked)) is Ok
            &&& u0.next == StepView::Call(CallView::KeystoreApprovalStatus(handle, receipt))
            &&& u2.next == StepView::Call(CallView::EthSendRawTransaction(p.chain_id as i64, raw))
            &&& u3.next == StepView::Call(CallView::KeystoreAckResult(handle, receipt))
            &&& recorded_as_asked(u3, p, token, hash)
        }),
{
    let f = if native {
        planned_native(Ok(p), true)->Ok_0
    } else {
        planned_erc20(Ok(p), data, true)->Ok_0
    };
    let token = if native {
        None
    } else {
        Some(address_of(p.token_address)->Ok_0)
    };
    if native {
        law_native_send_does_what_was_asked(p, nonce, fee, gas, tx, asked, now, jobs, None);
    } else {
        law_token_send_does_what_was_asked(p, data, nonce, fee, gas, tx, asked, now, jobs, None);
    }
    let used = if native {
        Seq::empty()
    } else {
        data
    };
    let parked = lemma_parked(
        f,
        p,
        token,
        used,
        nonce,
        fee,
        gas,
        tx,
        asked,
        handle,
        receipt,
        now,
        jobs,
    );
    law_an_approved_poll_records_what_was_parked(
        handle,
        parked,
        decided,
        fetched,
        sent,
        Ok(sent),
        items,
        k,
        raw,
        hash,
    );
}

proof fn lemma_parked(
    f: SendView,
    p: SendParamsView,
    token: Option<Seq<u8>>,
    data: Seq<u8>,
    nonce: JsonView,
    fee: JsonView,
    gas: Result<JsonView, Seq<char>>,
    tx: JsonView,
    asked: JsonView,
    handle: Seq<char>,
    receipt: Seq<char>,
    now: u64,
    jobs: Map<Seq<char>, PendingView>,
) -> (parked: Map<Seq<char>, PendingView>)
    requires
        sends_as_asked(f, p, token, data, nonce, fee, gas, tx, asked, now, jobs),
        asked.get("handle"@) == Some(JsonView::Str(handle)),
        asked.get("receipt"@) == Some(JsonView::Str(receipt)),
    ensures
        ({
            let (f0, j0, _) = send_next(f, None, now, jobs);
            let (f1, j1, _) = send_next(f0, Some(Ok(nonce)), now, j0);
            let (f2, j2, _) = send_next(f1, Some(Ok(fee)), now, j1);
            let (f3, j3, _) = send_next(f2, Some(gas), now, j2);
            let (f4, j4, _) = send_next(f3, Some(Ok(tx)), now, j3);
            parked == send_next(f4, Some(Ok(asked)), now, j4).1
        }),
        parked.contains_key(handle),
        parks_the_send(parked[handle], p, token, receipt, now),
{
    let (f0, j0, _) = send_next(f, None, now, jobs);
    let (f1, j1, _) = send_next(f0, Some(Ok(nonce)), now, j0);
    let (f2, j2, _) = send_next(f1, Some(Ok(fee)), now, j1);
    let (f3, j3, _) = send_next(f2, Some(gas), now, j2);
    let (f4, j4, _) = send_next(f3, Some(Ok(tx)), now, j3);
    send_next(f4, Some(Ok(asked)), now, j4).1
}

/// A method of one call makes that call first and nothing else, and then answers by
/// what its one reply leads to.
pub proof fn law_one_call_is_made_and_finished(
    call: CallView,
    finish: FinishView,
    reply: Result<Seq<char>, Seq<char>>,
    now: u64,
    jobs: Map<Seq<char>, PendingView>,
)
    ensures
        ({
            let f = FlowView::OneCall(planned_call(call, finish));
            let (g, j, t) = f.next(None, now, jobs);
            let (_, l, u) = g.next(Some(reply), now, j);
            &&& f.takes(None)
            &&& t.next == StepView::Call(call)
            &&& t.effects.len() == 0
            &&& g.takes(Some(reply))
            &&& u == finished(finish, reply)
            &&& j == jobs
            &&& l == jobs
        }),
{
}

/// A reply that is passed on is the answer as it stands; where the call failed, the
/// answer is its error.
pub proof fn law_a_passed_on_reply_is_the_answer(s: Seq<char>, e: Seq<char>)
    ensures
        finished(FinishView::Passthrough, Ok(s)).next == StepView::Done(s),
        answers_error(finished(FinishView::Passthrough, Err(e)).next, e),
        finished(FinishView::Passthrough, Ok(s)).effects.len() == 0,
        finished(FinishView::Passthrough, Err(e)).effects.len() == 0,
{
    lemma_error(e);
}

/// Adding a token answers with the dependency's flag: true exactly for the word
/// `true`.
pub proof fn law_adding_answers_the_flag(reply: Seq<char>, e: Seq<char>)
    ensures
        finished(FinishView::AddCustomToken, Ok(reply)).next matches StepView::Done(text) && exists|
            v: JsonView,
        |
            text == #[trigger] json_text(v) && v.get_bool("ok"@) == Some(true) && v.get_bool("added"@)
                == Some(reply == "true"@) && member_count(v) == 2,
        answers_error(finished(FinishView::AddCustomToken, Err(e)).next, e),
        finished(FinishView::AddCustomToken, Ok(reply)).effects.len() == 0,
{
    broadcast use {
        law_a_member_counts_once,
        law_a_member_is_found,
        law_an_empty_object_has_no_members,
    };

    lemma_envelope_words();
    lemma_error(e);
    let v = crate::plans::added_json(Ok(reply));
    assert(v.get_bool("ok"@) == Some(true));
    assert(v.get_bool("added"@) == Some(reply == "true"@));
    assert(finished(FinishView::AddCustomToken, Ok(reply)).next == StepView::Done(json_text(v)));
}

/// An import labels the account that the reply names, under its address in lower
/// case and with the caller's label, once the module has its state; the reply is
/// the answer as it stands. A reply that is an error labels nothing.
pub proof fn law_an_import_labels_its_account(
    s: Seq<char>,
    v: JsonView,
    label: Seq<char>,
    e: Seq<char>,
    address: Seq<char>,
    ready: bool,
)
    ensures
        ({
            let f = FinishView::ImportMnemonic { label, ready };
            &&& reply_view(Ok(s)) == Ok::<JsonView, Seq<char>>(v) ==> {
                &&& finished(f, Ok(s)).next == StepView::Done(s)
                &&& ready && v.get("address"@) == Some(JsonView::Str(address)) ==> finished(
                    f,
                    Ok(s),
                ).effects == seq![EffectView::LabelAccount(lowered(address), label)]
                &&& !ready || v.get_str("address"@) is None ==> finished(f, Ok(s)).effects.len() == 0
            }
            &&& reply_view(Ok(s)) == Err::<JsonView, Seq<char>>(e) ==> answers_error(
                finished(f, Ok(s)).next,
                e,
            ) && finished(f, Ok(s)).effects.len() == 0
            &&& answers_error(finished(f, Err(e)).next, e)
            &&& finished(f, Err(e)).effects.len() == 0
        }),
{
    lemma_error(e);
}

/// A receipt says how a transaction fared: none yet is pending, status one is
/// confirmed, and any other is failed.
pub proof fn law_a_receipt_says_how_it_fared(v: JsonView, r: JsonView)
    ensures
        v.get("result"@) is None || v.get("result"@) == Some(JsonView::Null) ==> tx_status_view(v)
            == "pending"@,
        v.get("result"@) == Some(r) && !(r is Null) && r.get("status"@) == Some(JsonView::Str("0x1"@))
            ==> tx_status_view(v) == "confirmed"@,
        v.get("result"@) == Some(r) && !(r is Null) && r.get("status"@) != Some(JsonView::Str("0x1"@))
            ==> tx_status_view(v) == "failed"@,
{
}

/// Asking for a transaction's status answers with it, tells subscribers of that
/// transaction, and updates its record only once it is settled and the module has
/// its state.
pub proof fn law_a_status_is_answered_and_told(
    reply: Result<Seq<char>, Seq<char>>,
    v: JsonView,
    e: Seq<char>,
    hash: Seq<char>,
    ready: bool,
)
    ensures
        ({
            let t = finished(FinishView::TxStatus { hash, ready }, reply);
            let status = tx_status_view(v);
            &&& reply_view(reply) == Ok::<JsonView, Seq<char>>(v) ==> {
                &&& t.next matches StepView::Done(text) && exists|a: JsonView|
                    text == #[trigger] json_text(a) && a.get_bool("ok"@) == Some(true) && a.get_str(
                        "status"@,
                    ) == Some(status) && member_count(a) == 2
                &&& t.effects.len() > 0 && t.effects.last() == EffectView::TxStatusChanged(hash)
                &&& ready && (status == "confirmed"@ || status == "failed"@) ==> t.effects.len() == 2
                    && t.effects[0] == EffectView::UpdateTxStatus(hash, status)
                &&& !ready || status == "pending"@ ==> t.effects.len() == 1
            }
            &&& reply_view(reply) == Err::<JsonView, Seq<char>>(e) ==> answers_error(t.next, e)
                && t.effects.len() == 0
        }),
{
    broadcast use {
        law_a_member_counts_once,
        law_a_member_is_found,
        law_an_empty_object_has_no_members,
    };

    lemma_envelope_words();
    lemma_tx_status_words();
    lemma_error(e);
    let status = tx_status_view(v);
    let a = JsonView::object().with("ok"@, JsonView::Bool(true)).with("status"@, JsonView::Str(status));
    assert(a.get_bool("ok"@) == Some(true) && a.get_str("status"@) == Some(status));
}

/// A plan that failed is a flow that answers its error at once and asks for
/// nothing; any other plan is its own flow.
pub proof fn law_a_failed_plan_answers_its_error(
    f: FlowView,
    e: Seq<char>,
    now: u64,
    jobs: Map<Seq<char>, PendingView>,
)
    ensures
        planned_flow(Ok(f)) == f,
        planned_flow(Err(e)).takes(None),
        answers_error(planned_flow(Err(e)).next(None, now, jobs).2.next, e),
        planned_flow(Err(e)).next(None, now, jobs).1 == jobs,
        planned_flow(Err(e)).next(None, now, jobs).2.effects.len() == 0,
{
    lemma_error(e);
}

/// A start answers with the job's own id, and a collect with the answer, with that
/// id while it is pending, or with an error that names it.
pub proof fn law_a_collect_says_what_it_found(id: Seq<char>, answer: Seq<char>)
    ensures
        started_json(id).get_bool("ok"@) == Some(true),
        started_json(id).get_str("jobId"@) == Some(id),
        member_count(started_json(id)) == 2,
        collected_text(JobView::Ready(answer), id) == answer,
        exists|v: JsonView|
            collected_text(JobView::Pending, id) == #[trigger] json_text(v) && v.get_bool("ok"@) == Some(
                false,
            ) && v.get_bool("pending"@) == Some(true) && v.get_str("jobId"@) == Some(id)
                && member_count(v) == 3,
        answers_error(
            StepView::Done(collected_text(JobView::Unknown, id)),
            "unknown job '"@ + id + "': never started, already collected, or evicted after "@
                + decimal_text(64) + " newer ones"@,
        ),
{
    broadcast use {
        law_a_member_counts_once,
        law_a_member_is_found,
        law_an_empty_object_has_no_members,
    };

    lemma_envelope_words();
    let v = JsonView::object().with("ok"@, JsonView::Bool(false)).with(
        "pending"@,
        JsonView::Bool(true),
    ).with("jobId"@, JsonView::Str(id));
    assert(collected_text(JobView::Pending, id) == json_text(v));
    assert(v.get_bool("ok"@) == Some(false) && v.get_bool("pending"@) == Some(true) && v.get_str("jobId"@)
        == Some(id));
    lemma_error(
        "unknown job '"@ + id + "': never started, already collected, or evicted after "@
            + decimal_text(64) + " newer ones"@,
    );
}

/// A build that cannot wait answers with an error that names the spelling that
/// works.
pub proof fn law_a_refusal_names_the_way_out(start: Seq<char>)
    ensures
        answers_error(
            StepView::Done(refusal_text(start)),
            "this build cannot wait for a reply (one Worker, one event loop): use "@ + start
                + ", then take_result"@,
        ),
{
    lemma_error(
        "this build cannot wait for a reply (one Worker, one event loop): use "@ + start
            + ", then take_result"@,
    );
}

} // verus!
