//! What a send and a fee quote do with a request: from what was asked for to the
//! transaction, the human and the history.

use crate::address::{address_of, bytes_hex, checksum_text};
use crate::amount::{amount_of, hex_text, u256_limit};
use crate::backend::StateView;
use crate::flow::{CallView, FeeView, PendingView, StepView};
use crate::json::{json_parse, json_text, reply_view, JsonView};
use crate::json_laws::{
    law_a_member_counts_once, law_a_member_is_found, law_an_empty_object_has_no_members,
    law_an_error_is_read_as_that_error, member_count,
};
use crate::methods::{erc20_plan, native_plan};
use crate::plans::{planned_quote, quote_request, FinishView, FlowView};
use crate::send::{
    amount_member, estimate_tx, fee_request, handle_view, intent_view, pending_json, planned_erc20,
    planned_native, planned_send, send_next, text_or, transfer_view, tx_leg_view, SendParamsView,
    SendView,
};
use crate::text::{decimal_text, hex_u64};
use crate::value_laws::{law_amounts_read_back, law_bytes_read_back, law_hex_numbers_read_back};
use crate::words::{
    lemma_envelope_words, lemma_fee_words, lemma_intent_words, lemma_leg_words, lemma_tx_words,
};
use vstd::prelude::*;

verus! {

/// The request carries the caller's fee controls as they were given: one that was
/// not is null, and no tier is the normal one.
pub open spec fn carries_fee_controls(v: JsonView, p: SendParamsView) -> bool {
    &&& v.get("tier"@) == Some(
        JsonView::Str(
            match p.tier {
                Some(t) => t,
                None => "normal"@,
            },
        ),
    )
    &&& v.get("maxFeePerGas"@) == Some(
        match p.max_fee_per_gas {
            Some(t) => JsonView::Str(t),
            None => JsonView::Null,
        },
    )
    &&& v.get("maxPriorityFeePerGas"@) == Some(
        match p.max_priority_fee_per_gas {
            Some(t) => JsonView::Str(t),
            None => JsonView::Null,
        },
    )
    &&& v.get("gasLimit"@) == Some(
        match p.gas_limit {
            Some(t) => JsonView::Str(t),
            None => JsonView::Null,
        },
    )
}

/// The text is an amount after `0x`.
pub open spec fn says_amount(s: Option<Seq<char>>, amount: nat) -> bool {
    &&& s is Some
    &&& s->0.len() > 2 && s->0[0] == '0' && s->0[1] == 'x'
    &&& amount_of(s->0) == amount
}

/// The transaction is a transfer of the amount to the recipient, both as the
/// caller wrote them.
pub open spec fn is_native_transfer(v: JsonView, p: SendParamsView) -> bool {
    &&& v.get_str("from"@) == Some(p.from)
    &&& v.get_str("to"@) == Some(p.to)
    &&& says_amount(v.get_str("value"@), amount_of(p.amount))
}

/// The transaction is a call of the token with the transfer's calldata.
pub open spec fn is_token_call(v: JsonView, from: Seq<char>, token: Seq<char>, data: Seq<u8>) -> bool {
    &&& v.get_str("from"@) == Some(from)
    &&& v.get_str("to"@) == Some(token)
    &&& v.get_str("data"@) == Some(seq!['0', 'x'] + bytes_hex(data))
}

/// What gas is estimated for is the send that was asked for.
pub open spec fn estimates_the_send(
    v: JsonView,
    p: SendParamsView,
    token: Option<Seq<u8>>,
    data: Seq<u8>,
) -> bool {
    match token {
        None => is_native_transfer(v, p) && v.get_str("data"@) == Some(seq!['0', 'x'])
            && member_count(v) == 4,
        Some(t) => is_token_call(v, p.from, checksum_text(t), data) && says_amount(
            v.get_str("value"@),
            0,
        ) && member_count(v) == 4,
    }
}

/// A human is asked to sign this transaction, for this sender and on this chain.
pub open spec fn asks_to_sign(v: JsonView, p: SendParamsView, tx: JsonView) -> bool {
    &&& member_count(v) == 3
    &&& v.get_str("address"@) == Some(p.from)
    &&& v.get_str("purpose"@) == Some("send"@)
    &&& v.get_arr("legs"@) matches Some(legs) && {
        &&& legs.len() == 1
        &&& legs[0].get_str("kind"@) == Some("tx"@)
        &&& legs[0].get_u64("chain_id"@) == Some(p.chain_id)
        &&& legs[0].get("tx"@) == Some(tx)
        &&& member_count(legs[0]) == 3
    }
}

/// The answer that the send waits for a human under this handle.
pub open spec fn answers_handle(v: JsonView, handle: Seq<char>) -> bool {
    &&& v.get_bool("ok"@) == Some(true)
    &&& v.get_bool("pending"@) == Some(true)
    &&& v.get_str("requestId"@) == Some(handle)
    &&& member_count(v) == 3
}

/// The answer is this error.
pub open spec fn answers_error(next: StepView, e: Seq<char>) -> bool {
    next matches StepView::Done(text) && exists|v: JsonView|
        text == #[trigger] json_text(v) && v.get_bool("ok"@) == Some(false) && v.get_str("error"@)
            == Some(e) && member_count(v) == 2
}

/// What is parked is what was asked for: the request's own sender, recipient,
/// chain and amount, not yet broadcast.
pub open spec fn parks_the_send(
    job: PendingView,
    p: SendParamsView,
    token: Option<Seq<u8>>,
    receipt: Seq<char>,
    now: u64,
) -> bool {
    &&& job.chain_id == p.chain_id
    &&& job.receipt == receipt
    &&& job.record.hash.len() == 0
    &&& job.record.chain_id == p.chain_id
    &&& job.record.from == p.from
    &&& job.record.to == p.to
    &&& job.record.value == decimal_text(amount_of(p.amount))
    &&& amount_of(job.record.value) == amount_of(p.amount)
    &&& job.record.kind == (if token is Some { "erc20"@ } else { "native"@ })
    &&& job.record.token == (match token {
        Some(t) => Some(checksum_text(t)),
        None => None,
    })
    &&& job.record.status == "pending"@
    &&& job.record.timestamp == now
}

/// A text member of a reply that counts as a number, or zero.
pub open spec fn hex_member(v: JsonView) -> u64 {
    match v.get("result"@) {
        Some(JsonView::Str(s)) => hex_u64(s),
        _ => 0,
    }
}

/// A text member of a reply that counts as an amount, or zero.
pub open spec fn fee_member(v: JsonView, key: Seq<char>) -> nat {
    match v.get(key) {
        Some(JsonView::Str(s)) => amount_of(s),
        _ => 0,
    }
}

/// The gas limit that a reply gives, or the stock one of the kind of send.
pub open spec fn gas_of(reply: Result<JsonView, Seq<char>>, token: Option<Seq<u8>>) -> u64 {
    match reply {
        Ok(v) => match v.get("result"@) {
            Some(JsonView::Str(s)) => hex_u64(s),
            _ => if token is Some {
                90_000
            } else {
                21_000
            },
        },
        Err(_) => if token is Some {
            90_000
        } else {
            21_000
        },
    }
}

/// The whole of a send whose requests are answered so, in terms of what was asked
/// for: the nonce of the sender on the chain, a fee with the caller's controls,
/// gas for the very send, the transaction with the recipient, amount, nonce, fee
/// and gas limit, a human asked to sign what was built, and the send parked as it
/// was asked for.
pub open spec fn sends_as_asked(
    f: SendView,
    p: SendParamsView,
    token: Option<Seq<u8>>,
    data: Seq<u8>,
    nonce: JsonView,
    fee: JsonView,
    gas: Result<JsonView, Seq<char>>,
    tx: JsonView,
    asked: JsonView,
    now: u64,
    jobs: Map<Seq<char>, PendingView>,
) -> bool {
    let chain = p.chain_id as i64;
    let (f0, j0, t0) = send_next(f, None, now, jobs);
    let (f1, j1, t1) = send_next(f0, Some(Ok(nonce)), now, j0);
    let (f2, j2, t2) = send_next(f1, Some(Ok(fee)), now, j1);
    let (f3, j3, t3) = send_next(f2, Some(gas), now, j2);
    let (f4, j4, t4) = send_next(f3, Some(Ok(tx)), now, j3);
    let (_, j5, t5) = send_next(f4, Some(Ok(asked)), now, j4);
    &&& t0.next == StepView::Call(CallView::EthTransactionCount(chain, p.from))
    &&& t1.next matches StepView::Call(CallView::FeeEstimate(c, text)) && c == chain && exists|v: JsonView|
        text == #[trigger] json_text(v) && carries_fee_controls(v, p) && member_count(v) == 4
    &&& t2.next matches StepView::Call(CallView::EthEstimateGas(c, text)) && c == chain && exists|
        v: JsonView,
    |
        text == #[trigger] json_text(v) && estimates_the_send(v, p, token, data)
    &&& t3.next matches StepView::Build(d) && {
        &&& address_of(p.to) == Ok::<Seq<u8>, Seq<char>>(d.to)
        &&& d.token == token
        &&& d.amount == amount_of(p.amount)
        &&& d.nonce == hex_member(nonce)
        &&& d.gas_limit == gas_of(gas, token)
        &&& d.fee == FeeView::Eip1559 {
            max_fee_per_gas: fee_member(fee, "maxFeePerGas"@),
            max_priority_fee_per_gas: fee_member(fee, "maxPriorityFeePerGas"@),
        }
    }
    &&& t4.next matches StepView::Call(CallView::KeystoreRequestApproval(text)) && exists|v: JsonView|
        text == #[trigger] json_text(v) && asks_to_sign(v, p, tx)
    &&& t0.effects.len() == 0 && t1.effects.len() == 0 && t2.effects.len() == 0
    &&& t3.effects.len() == 0 && t4.effects.len() == 0 && t5.effects.len() == 0
    &&& j4 == jobs
    &&& match (asked.get("handle"@), asked.get("receipt"@)) {
        (Some(JsonView::Str(handle)), Some(JsonView::Str(receipt))) => {
            &&& j5.contains_key(handle)
            &&& j5 == jobs.insert(handle, j5[handle])
            &&& parks_the_send(j5[handle], p, token, receipt, now)
            &&& t5.next matches StepView::Done(text) && exists|v: JsonView|
                text == #[trigger] json_text(v) && answers_handle(v, handle)
        },
        (Some(JsonView::Str(_)), _) => j5 == jobs && answers_error(
            t5.next,
            "keystore: no receipt"@,
        ),
        _ => j5 == jobs && answers_error(t5.next, "keystore: no handle"@),
    }
}

proof fn lemma_amount_below_limit(s: Seq<char>)
    ensures
        amount_of(s) < u256_limit(),
{
}

proof fn lemma_quantity(n: nat)
    requires
        n < u256_limit(),
    ensures
        says_amount(Some(crate::amount::quantity_text(n)), n),
{
    law_amounts_read_back(n);
    crate::value_laws::law_hexadecimal_reads_back(n);
}

proof fn lemma_literals()
    ensures
        "0x"@ == seq!['0', 'x'],
        says_amount(Some("0x0"@), 0),
        hex_u64("0x0"@) == 0,
        amount_of("0"@) == 0,
{
    reveal_strlit("0x");
    reveal_strlit("0x0");
    reveal_strlit("0");
    assert("0x"@ =~= seq!['0', 'x']);
    assert(hex_text(0) =~= seq!['0']);
    assert("0x0"@ =~= seq!['0', 'x'] + hex_text(0));
    law_amounts_read_back(0);
    law_hex_numbers_read_back(0, Seq::empty());
    assert(decimal_text(0) =~= "0"@);
}

proof fn lemma_fee_request(p: SendParamsView)
    ensures
        carries_fee_controls(fee_request(p), p),
        fee_request(p) is Obj,
        member_count(fee_request(p)) == 4,
        fee_request(p).get("tx"@) is None,
{
    broadcast use {
        law_a_member_counts_once,
        law_a_member_is_found,
        law_an_empty_object_has_no_members,
    };

    lemma_fee_words();
}

proof fn lemma_estimate(p: SendParamsView, token: Option<Seq<u8>>, data: Seq<u8>)
    ensures
        estimates_the_send(estimate_tx(p, token, data), p, token, data),
{
    broadcast use {
        law_a_member_counts_once,
        law_a_member_is_found,
        law_an_empty_object_has_no_members,
    };

    lemma_tx_words();
    lemma_literals();
    lemma_amount_below_limit(p.amount);
    lemma_quantity(amount_of(p.amount));
    law_bytes_read_back(data);
}

proof fn lemma_intent(p: SendParamsView, tx: JsonView)
    ensures
        asks_to_sign(intent_view(p.from, "send"@, seq![tx_leg_view(p.chain_id, tx)]), p, tx),
{
    broadcast use {
        law_a_member_counts_once,
        law_a_member_is_found,
        law_an_empty_object_has_no_members,
    };

    lemma_intent_words();
    lemma_leg_words();
    let legs = seq![tx_leg_view(p.chain_id, tx)];
    assert(legs[0] == tx_leg_view(p.chain_id, tx));
}

proof fn lemma_pending(handle: Seq<char>)
    ensures
        answers_handle(pending_json(handle), handle),
{
    broadcast use {
        law_a_member_counts_once,
        law_a_member_is_found,
        law_an_empty_object_has_no_members,
    };

    lemma_envelope_words();
}

/// The error envelope, as the end of a flow, answers that error.
pub(crate) proof fn lemma_error(e: Seq<char>)
    ensures
        answers_error(StepView::Done(json_text(crate::json::err_json(e))), e),
{
    law_an_error_is_read_as_that_error(e);
}

#[verifier::rlimit(40)]
proof fn lemma_sends_as_asked(
    p: SendParamsView,
    token: Option<Seq<u8>>,
    data: Seq<u8>,
    nonce: JsonView,
    fee: JsonView,
    gas: Result<JsonView, Seq<char>>,
    tx: JsonView,
    asked: JsonView,
    now: u64,
    jobs: Map<Seq<char>, PendingView>,
)
    requires
        address_of(p.to) is Ok,
    ensures
        planned_send(p, token, data, true) is Ok,
        sends_as_asked(
            planned_send(p, token, data, true)->Ok_0,
            p,
            token,
            data,
            nonce,
            fee,
            gas,
            tx,
            asked,
            now,
            jobs,
        ),
{
    let f = planned_send(p, token, data, true)->Ok_0;
    lemma_fee_request(p);
    lemma_estimate(p, token, data);
    lemma_intent(p, tx);
    lemma_literals();
    lemma_error("keystore: no handle"@);
    lemma_error("keystore: no receipt"@);
    lemma_amount_below_limit(p.amount);
    law_amounts_read_back(amount_of(p.amount));
    let (f0, j0, t0) = send_next(f, None, now, jobs);
    let (f1, j1, t1) = send_next(f0, Some(Ok(nonce)), now, j0);
    let (f2, j2, t2) = send_next(f1, Some(Ok(fee)), now, j1);
    let (f3, j3, t3) = send_next(f2, Some(gas), now, j2);
    let (f4, j4, t4) = send_next(f3, Some(Ok(tx)), now, j3);
    let (f5, j5, t5) = send_next(f4, Some(Ok(asked)), now, j4);
    assert(t1.next == StepView::Call(
        CallView::FeeEstimate(p.chain_id as i64, json_text(fee_request(p))),
    ));
    assert(t2.next == StepView::Call(
        CallView::EthEstimateGas(p.chain_id as i64, json_text(estimate_tx(p, token, data))),
    ));
    assert(t4.next == StepView::Call(
        CallView::KeystoreRequestApproval(
            json_text(intent_view(p.from, "send"@, seq![tx_leg_view(p.chain_id, tx)])),
        ),
    ));
    if let Some(JsonView::Str(handle)) = asked.get("handle"@) {
        if let Some(JsonView::Str(receipt)) = asked.get("receipt"@) {
            lemma_pending(handle);
            assert(t5.next == StepView::Done(json_text(pending_json(handle))));
            assert(j5 =~= jobs.insert(handle, j5[handle]));
        }
    }
}

/// A native send does what was asked for, from the request to what is parked: the
/// recipient of the transaction is the address read from the request's `to`, and
/// the record keeps the request's own words. It can be planned exactly where the
/// request and its recipient can be read and the module has its state.
pub proof fn law_native_send_does_what_was_asked(
    p: SendParamsView,
    nonce: JsonView,
    fee: JsonView,
    gas: Result<JsonView, Seq<char>>,
    tx: JsonView,
    asked: JsonView,
    now: u64,
    jobs: Map<Seq<char>, PendingView>,
    st: Option<StateView>,
)
    ensures
        native_plan(Ok(p), st) is Ok <==> address_of(p.to) is Ok && st is Some,
        planned_native(Ok(p), st is Some) is Ok <==> address_of(p.to) is Ok && st is Some,
        native_plan(Ok(p), st) is Ok ==> native_plan(Ok(p), st) == Ok::<FlowView, Seq<char>>(
            FlowView::Send(planned_native(Ok(p), true)->Ok_0),
        ),
        address_of(p.to) is Ok ==> sends_as_asked(
            planned_native(Ok(p), true)->Ok_0,
            p,
            None,
            Seq::empty(),
            nonce,
            fee,
            gas,
            tx,
            asked,
            now,
            jobs,
        ),
{
    if address_of(p.to) is Ok {
        lemma_sends_as_asked(p, None, Seq::empty(), nonce, fee, gas, tx, asked, now, jobs);
    }
}

/// A token transfer does what was asked for, from the request to what is parked:
/// it calls the token that the request names, the recipient of the tokens is the
/// address read from the request's `to`, and the record keeps the request's own
/// words. It can be planned exactly where the request, its token and its
/// recipient can be read and the module has its state.
pub proof fn law_token_send_does_what_was_asked(
    p: SendParamsView,
    data: Seq<u8>,
    nonce: JsonView,
    fee: JsonView,
    gas: Result<JsonView, Seq<char>>,
    tx: JsonView,
    asked: JsonView,
    now: u64,
    jobs: Map<Seq<char>, PendingView>,
    st: Option<StateView>,
)
    ensures
        erc20_plan(Ok(p), data, st) is Ok <==> address_of(p.token_address) is Ok && address_of(p.to) is Ok
            && st is Some,
        planned_erc20(Ok(p), data, st is Some) is Ok <==> address_of(p.token_address) is Ok && address_of(
            p.to,
        ) is Ok && st is Some,
        erc20_plan(Ok(p), data, st) is Ok ==> erc20_plan(Ok(p), data, st) == Ok::<
            FlowView,
            Seq<char>,
        >(FlowView::Send(planned_erc20(Ok(p), data, true)->Ok_0)),
        address_of(p.token_address) is Ok && address_of(p.to) is Ok ==> sends_as_asked(
            planned_erc20(Ok(p), data, true)->Ok_0,
            p,
            Some(address_of(p.token_address)->Ok_0),
            data,
            nonce,
            fee,
            gas,
            tx,
            asked,
            now,
            jobs,
        ),
{
    if address_of(p.token_address) is Ok && address_of(p.to) is Ok {
        let token = address_of(p.token_address)->Ok_0;
        lemma_sends_as_asked(p, Some(token), data, nonce, fee, gas, tx, asked, now, jobs);
    }
}

/// Why a send cannot be planned: the request's own error, then that of its token,
/// then that of its recipient, and last that the module has no state.
pub proof fn law_why_a_send_is_refused(p: SendParamsView, data: Seq<u8>, e: Seq<char>, ready: bool)
    ensures
        planned_native(Err(e), ready) == Err::<SendView, Seq<char>>(e),
        planned_erc20(Err(e), data, ready) == Err::<SendView, Seq<char>>(e),
        address_of(p.to) == Err::<Seq<u8>, Seq<char>>(e) ==> planned_native(Ok(p), ready) == Err::<
            SendView,
            Seq<char>,
        >(e),
        address_of(p.to) is Ok ==> planned_native(Ok(p), false) == Err::<SendView, Seq<char>>(
            "backend not initialized (context not ready)"@,
        ),
        address_of(p.token_address) == Err::<Seq<u8>, Seq<char>>(e) ==> planned_erc20(
            Ok(p),
            data,
            ready,
        ) == Err::<SendView, Seq<char>>(e),
        address_of(p.token_address) is Ok && address_of(p.to) == Err::<Seq<u8>, Seq<char>>(e)
            ==> planned_erc20(Ok(p), data, ready) == Err::<SendView, Seq<char>>(e),
        address_of(p.token_address) is Ok && address_of(p.to) is Ok ==> planned_erc20(
            Ok(p),
            data,
            false,
        ) == Err::<SendView, Seq<char>>("backend not initialized (context not ready)"@),
{
}

/// The transfer whose calldata a token send needs goes to the recipient of the
/// request and is of its amount.
pub proof fn law_the_calldata_is_for_the_recipient(p: SendParamsView, e: Seq<char>)
    ensures
        address_of(p.token_address) is Ok && address_of(p.to) is Ok ==> transfer_view(p) == Ok::<
            (Seq<u8>, nat),
            Seq<char>,
        >((address_of(p.to)->Ok_0, amount_of(p.amount))),
        address_of(p.token_address) == Err::<Seq<u8>, Seq<char>>(e) ==> transfer_view(p) == Err::<
            (Seq<u8>, nat),
            Seq<char>,
        >(e),
        address_of(p.token_address) is Ok && address_of(p.to) == Err::<Seq<u8>, Seq<char>>(e)
            ==> transfer_view(p) == Err::<(Seq<u8>, nat), Seq<char>>(e),
{
}

/// A send ends with the error of the first request that fails, and nothing is
/// parked; a failed gas estimate alone does not end it.
pub proof fn law_a_send_ends_with_the_first_error(
    f: SendView,
    e: Seq<char>,
    now: u64,
    jobs: Map<Seq<char>, PendingView>,
)
    ensures
        !(f.stage is Gas) ==> answers_error(send_next(f, Some(Err(e)), now, jobs).2.next, e),
        f.stage is Gas ==> send_next(f, Some(Err(e)), now, jobs).2.next is Build,
        send_next(f, Some(Err(e)), now, jobs).1 == jobs,
        send_next(f, Some(Err(e)), now, jobs).2.effects.len() == 0,
{
    lemma_error(e);
}

/// What a send is handed: the JSON of a built transaction as it stands, and of any
/// other request what its reply says.
pub proof fn law_a_send_reads_its_replies(
    f: SendView,
    s: Seq<char>,
    e: Seq<char>,
    now: u64,
    jobs: Map<Seq<char>, PendingView>,
)
    ensures
        FlowView::Send(f).next(None, now, jobs) == ({
            let (g, j, t) = send_next(f, None, now, jobs);
            (FlowView::Send(g), j, t)
        }),
        FlowView::Send(f).next(Some(Err(e)), now, jobs) == ({
            let (g, j, t) = send_next(f, Some(Err(e)), now, jobs);
            (FlowView::Send(g), j, t)
        }),
        FlowView::Send(f).next(Some(Ok(s)), now, jobs) == ({
            let input = if f.stage is Build {
                json_parse(s)
            } else {
                reply_view(Ok(s))
            };
            let (g, j, t) = send_next(f, Some(input), now, jobs);
            (FlowView::Send(g), j, t)
        }),
{
}

/// A fee quote asks once, on the chain of the request, with the caller's fee
/// controls and the transaction that the request describes: the amount to the
/// recipient, or a call of the token. Where the recipient cannot be read it names
/// no transaction; the controls are the same.
pub proof fn law_a_quote_describes_the_send(p: SendParamsView, data: Seq<u8>)
    ensures
        carries_fee_controls(quote_request(p, data), p),
        planned_quote(Ok(p), data) matches FlowView::OneCall(c) && {
            &&& c.finish == Some(FinishView::Passthrough)
            &&& c.call matches Some(CallView::FeeEstimate(chain, text)) && chain == p.chain_id as i64
                && exists|v: JsonView|
                text == #[trigger] json_text(v) && carries_fee_controls(v, p) && (match v.get("tx"@) {
                    None => address_of(p.to) is Err && member_count(v) == 4,
                    Some(tx) => address_of(p.to) is Ok && member_count(v) == 5 && member_count(tx)
                        == 3 && (if p.token_address.len() == 0 {
                        is_native_transfer(tx, p) && tx.get("data"@) is None
                    } else {
                        is_token_call(tx, p.from, p.token_address, data) && tx.get("value"@) is None
                    }),
                })
        },
{
    broadcast use {
        law_a_member_counts_once,
        law_a_member_is_found,
        law_an_empty_object_has_no_members,
    };

    lemma_fee_words();
    lemma_tx_words();
    lemma_fee_request(p);
    lemma_amount_below_limit(p.amount);
    lemma_quantity(amount_of(p.amount));
    law_bytes_read_back(data);
    let v = quote_request(p, data);
    assert(carries_fee_controls(v, p));
    let c = planned_quote(Ok(p), data)->OneCall_0;
    assert(c.call == Some(CallView::FeeEstimate(p.chain_id as i64, json_text(v))));
}

/// A quote whose request cannot be read is answered with that error, and asks for
/// nothing.
pub proof fn law_an_unreadable_quote_is_answered(
    e: Seq<char>,
    data: Seq<u8>,
    now: u64,
    jobs: Map<Seq<char>, PendingView>,
)
    ensures
        answers_error(planned_quote(Err(e), data).next(None, now, jobs).2.next, e),
        planned_quote(Err(e), data).next(None, now, jobs).1 == jobs,
{
    lemma_error(e);
}

/// A planned send keeps the request: the recipient that is paid is the address read
/// from its `to`, native or token alike, and its other members are the request's.
pub proof fn law_a_planned_send_keeps_the_request(
    p: SendParamsView,
    token: Option<Seq<u8>>,
    data: Seq<u8>,
    f: SendView,
)
    requires
        planned_send(p, token, data, true) == Ok::<SendView, Seq<char>>(f),
    ensures
        address_of(p.to) == Ok::<Seq<u8>, Seq<char>>(f.to_addr),
        f.to == p.to,
        f.from == p.from,
        f.chain_id == p.chain_id,
        f.amount == amount_of(p.amount),
        f.token == token,
        f.default_gas == (if token is Some { 90_000u64 } else { 21_000u64 }),
{
}

/// An approval request names who signs, what for, and its legs in their order; a
/// leg names its chain and its transaction.
pub proof fn law_an_approval_names_its_legs(
    address: Seq<char>,
    purpose: Seq<char>,
    legs: Seq<JsonView>,
    chain_id: u64,
    tx: JsonView,
)
    ensures
        intent_view(address, purpose, legs).get_str("address"@) == Some(address),
        intent_view(address, purpose, legs).get_str("purpose"@) == Some(purpose),
        intent_view(address, purpose, legs).get_arr("legs"@) == Some(legs),
        member_count(intent_view(address, purpose, legs)) == 3,
        member_count(tx_leg_view(chain_id, tx)) == 3,
        tx_leg_view(chain_id, tx).get_str("kind"@) == Some("tx"@),
        tx_leg_view(chain_id, tx).get_u64("chain_id"@) == Some(chain_id),
        tx_leg_view(chain_id, tx).get("tx"@) == Some(tx),
{
    broadcast use {
        law_a_member_counts_once,
        law_a_member_is_found,
        law_an_empty_object_has_no_members,
    };

    lemma_intent_words();
    lemma_leg_words();
}

/// A granted approval request has a handle and a receipt, each under its own name;
/// what is missing is named, the handle first.
pub proof fn law_what_an_approval_request_gives(v: JsonView, handle: Seq<char>, receipt: Seq<char>)
    ensures
        v.get("handle"@) == Some(JsonView::Str(handle)) && v.get("receipt"@) == Some(
            JsonView::Str(receipt),
        ) ==> handle_view(v) == Ok::<(Seq<char>, Seq<char>), Seq<char>>((handle, receipt)),
        v.get_str("handle"@) is None ==> handle_view(v) == Err::<(Seq<char>, Seq<char>), Seq<char>>(
            "keystore: no handle"@,
        ),
        v.get_str("handle"@) is Some && v.get_str("receipt"@) is None ==> handle_view(v) == Err::<
            (Seq<char>, Seq<char>),
            Seq<char>,
        >("keystore: no receipt"@),
{
}

/// An amount under a name is what its text says, and zero where there is no text; a
/// text that is missing is the stock one.
pub proof fn law_members_or_their_stock(v: JsonView, key: Seq<char>, s: Seq<char>, stock: Seq<char>)
    ensures
        v.get(key) == Some(JsonView::Str(s)) ==> amount_member(v, key) == amount_of(s),
        v.get_str(key) is None ==> amount_member(v, key) == 0,
        text_or(Some(s), stock) == s,
        text_or(None, stock) == stock,
{
    lemma_literals();
}

} // verus!
