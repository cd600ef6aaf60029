//! The words of requests and answers are told apart.

use vstd::prelude::*;

verus! {

pub(crate) proof fn lemma_fee_words()
    ensures
        "tier"@ != "maxFeePerGas"@,
        "tier"@ != "maxPriorityFeePerGas"@,
        "tier"@ != "gasLimit"@,
        "tier"@ != "tx"@,
        "maxFeePerGas"@ != "maxPriorityFeePerGas"@,
        "maxFeePerGas"@ != "gasLimit"@,
        "maxFeePerGas"@ != "tx"@,
        "maxPriorityFeePerGas"@ != "gasLimit"@,
        "maxPriorityFeePerGas"@ != "tx"@,
        "gasLimit"@ != "tx"@,
{
    reveal_strlit("tier");
    reveal_strlit("maxFeePerGas");
    reveal_strlit("maxPriorityFeePerGas");
    reveal_strlit("gasLimit");
    reveal_strlit("tx");
    assert("tier"@.len() == 4);
    assert("maxFeePerGas"@.len() == 12);
    assert("maxPriorityFeePerGas"@.len() == 20);
    assert("gasLimit"@.len() == 8);
    assert("tx"@.len() == 2);
}

pub(crate) proof fn lemma_tx_words()
    ensures
        "from"@ != "to"@,
        "from"@ != "value"@,
        "from"@ != "data"@,
        "to"@ != "value"@,
        "to"@ != "data"@,
        "value"@ != "data"@,
{
    reveal_strlit("from");
    reveal_strlit("to");
    reveal_strlit("value");
    reveal_strlit("data");
    assert("from"@.len() == 4);
    assert("to"@.len() == 2);
    assert("value"@.len() == 5);
    assert("data"@.len() == 4);
    assert("from"@[0] == 'f' && "data"@[0] == 'd');
}

pub(crate) proof fn lemma_envelope_words()
    ensures
        "ok"@ != "error"@,
        "ok"@ != "pending"@,
        "ok"@ != "jobId"@,
        "ok"@ != "requestId"@,
        "ok"@ != "added"@,
        "ok"@ != "status"@,
        "ok"@ != "state"@,
        "ok"@ != "reason"@,
        "ok"@ != "hash"@,
        "error"@ != "pending"@,
        "error"@ != "jobId"@,
        "error"@ != "requestId"@,
        "error"@ != "added"@,
        "error"@ != "status"@,
        "error"@ != "state"@,
        "error"@ != "reason"@,
        "error"@ != "hash"@,
        "pending"@ != "jobId"@,
        "pending"@ != "requestId"@,
        "pending"@ != "added"@,
        "pending"@ != "status"@,
        "pending"@ != "state"@,
        "pending"@ != "reason"@,
        "pending"@ != "hash"@,
        "jobId"@ != "requestId"@,
        "jobId"@ != "added"@,
        "jobId"@ != "status"@,
        "jobId"@ != "state"@,
        "jobId"@ != "reason"@,
        "jobId"@ != "hash"@,
        "requestId"@ != "added"@,
        "requestId"@ != "status"@,
        "requestId"@ != "state"@,
        "requestId"@ != "reason"@,
        "requestId"@ != "hash"@,
        "added"@ != "status"@,
        "added"@ != "state"@,
        "added"@ != "reason"@,
        "added"@ != "hash"@,
        "status"@ != "state"@,
        "status"@ != "reason"@,
        "status"@ != "hash"@,
        "state"@ != "reason"@,
        "state"@ != "hash"@,
        "reason"@ != "hash"@,
{
    reveal_strlit("ok");
    reveal_strlit("error");
    reveal_strlit("pending");
    reveal_strlit("jobId");
    reveal_strlit("requestId");
    reveal_strlit("added");
    reveal_strlit("status");
    reveal_strlit("state");
    reveal_strlit("reason");
    reveal_strlit("hash");
    assert("ok"@.len() == 2);
    assert("error"@.len() == 5);
    assert("pending"@.len() == 7);
    assert("jobId"@.len() == 5);
    assert("requestId"@.len() == 9);
    assert("added"@.len() == 5);
    assert("status"@.len() == 6);
    assert("state"@.len() == 5);
    assert("reason"@.len() == 6);
    assert("hash"@.len() == 4);
    assert("error"@[0] == 'e' && "jobId"@[0] == 'j');
    assert("error"@[0] == 'e' && "added"@[0] == 'a');
    assert("error"@[0] == 'e' && "state"@[0] == 's');
    assert("jobId"@[0] == 'j' && "added"@[0] == 'a');
    assert("jobId"@[0] == 'j' && "state"@[0] == 's');
    assert("added"@[0] == 'a' && "state"@[0] == 's');
    assert("status"@[0] == 's' && "reason"@[0] == 'r');
}

pub(crate) proof fn lemma_member_words()
    ensures
        "ok"@ != "proxy"@,
        "ok"@ != "chains"@,
        "ok"@ != "history"@,
        "ok"@ != "tokens"@,
        "ok"@ != "balances"@,
        "ok"@ != "address"@,
        "proxy"@ != "chains"@,
        "proxy"@ != "history"@,
        "proxy"@ != "tokens"@,
        "proxy"@ != "balances"@,
        "proxy"@ != "address"@,
        "chains"@ != "history"@,
        "chains"@ != "tokens"@,
        "chains"@ != "balances"@,
        "chains"@ != "address"@,
        "history"@ != "tokens"@,
        "history"@ != "balances"@,
        "history"@ != "address"@,
        "tokens"@ != "balances"@,
        "tokens"@ != "address"@,
        "balances"@ != "address"@,
{
    reveal_strlit("ok");
    reveal_strlit("proxy");
    reveal_strlit("chains");
    reveal_strlit("history");
    reveal_strlit("tokens");
    reveal_strlit("balances");
    reveal_strlit("address");
    assert("ok"@.len() == 2);
    assert("proxy"@.len() == 5);
    assert("chains"@.len() == 6);
    assert("history"@.len() == 7);
    assert("tokens"@.len() == 6);
    assert("balances"@.len() == 8);
    assert("address"@.len() == 7);
    assert("chains"@[0] == 'c' && "tokens"@[0] == 't');
    assert("history"@[0] == 'h' && "address"@[0] == 'a');
}

pub(crate) proof fn lemma_intent_words()
    ensures
        "address"@ != "purpose"@,
        "address"@ != "legs"@,
        "purpose"@ != "legs"@,
{
    reveal_strlit("address");
    reveal_strlit("purpose");
    reveal_strlit("legs");
    assert("address"@.len() == 7);
    assert("purpose"@.len() == 7);
    assert("legs"@.len() == 4);
    assert("address"@[0] == 'a' && "purpose"@[0] == 'p');
}

pub(crate) proof fn lemma_leg_words()
    ensures
        "kind"@ != "chain_id"@,
        "kind"@ != "tx"@,
        "chain_id"@ != "tx"@,
{
    reveal_strlit("kind");
    reveal_strlit("chain_id");
    reveal_strlit("tx");
    assert("kind"@.len() == 4);
    assert("chain_id"@.len() == 8);
    assert("tx"@.len() == 2);
}

pub(crate) proof fn lemma_chain_words()
    ensures
        "chainId"@ != "native"@,
        "chainId"@ != "tokens"@,
        "chainId"@ != "items"@,
        "native"@ != "tokens"@,
        "native"@ != "items"@,
        "tokens"@ != "items"@,
{
    reveal_strlit("chainId");
    reveal_strlit("native");
    reveal_strlit("tokens");
    reveal_strlit("items");
    assert("chainId"@.len() == 7);
    assert("native"@.len() == 6);
    assert("tokens"@.len() == 6);
    assert("items"@.len() == 5);
    assert("native"@[0] == 'n' && "tokens"@[0] == 't');
}

pub(crate) proof fn lemma_token_words()
    ensures
        "address"@ != "balance"@,
{
    reveal_strlit("address");
    reveal_strlit("balance");
    assert("address"@.len() == 7);
    assert("balance"@.len() == 7);
    assert("address"@[0] == 'a' && "balance"@[0] == 'b');
}

pub(crate) proof fn lemma_row_words()
    ensures
        "address"@ != "symbol"@,
        "address"@ != "decimals"@,
        "address"@ != "balance"@,
        "address"@ != "eth"@,
        "address"@ != "usd"@,
        "address"@ != "valueUsd"@,
        "symbol"@ != "decimals"@,
        "symbol"@ != "balance"@,
        "symbol"@ != "eth"@,
        "symbol"@ != "usd"@,
        "symbol"@ != "valueUsd"@,
        "decimals"@ != "balance"@,
        "decimals"@ != "eth"@,
        "decimals"@ != "usd"@,
        "decimals"@ != "valueUsd"@,
        "balance"@ != "eth"@,
        "balance"@ != "usd"@,
        "balance"@ != "valueUsd"@,
        "eth"@ != "usd"@,
        "eth"@ != "valueUsd"@,
        "usd"@ != "valueUsd"@,
{
    reveal_strlit("address");
    reveal_strlit("symbol");
    reveal_strlit("decimals");
    reveal_strlit("balance");
    reveal_strlit("eth");
    reveal_strlit("usd");
    reveal_strlit("valueUsd");
    assert("address"@.len() == 7);
    assert("symbol"@.len() == 6);
    assert("decimals"@.len() == 8);
    assert("balance"@.len() == 7);
    assert("eth"@.len() == 3);
    assert("usd"@.len() == 3);
    assert("valueUsd"@.len() == 8);
    assert("address"@[0] == 'a' && "balance"@[0] == 'b');
    assert("decimals"@[0] == 'd' && "valueUsd"@[0] == 'v');
    assert("eth"@[0] == 'e' && "usd"@[0] == 'u');
}

pub(crate) proof fn lemma_state_words()
    ensures
        ""@ != "offered"@,
        ""@ != "rendered"@,
        ""@ != "settled"@,
        "offered"@ != "rendered"@,
        "offered"@ != "settled"@,
        "rendered"@ != "settled"@,
{
    reveal_strlit("");
    reveal_strlit("offered");
    reveal_strlit("rendered");
    reveal_strlit("settled");
    assert(""@.len() == 0);
    assert("offered"@.len() == 7);
    assert("rendered"@.len() == 8);
    assert("settled"@.len() == 7);
    assert("offered"@[0] == 'o' && "settled"@[0] == 's');
}

pub(crate) proof fn lemma_tx_status_words()
    ensures
        "pending"@ != "confirmed"@,
        "pending"@ != "failed"@,
        "confirmed"@ != "failed"@,
{
    reveal_strlit("pending");
    reveal_strlit("confirmed");
    reveal_strlit("failed");
    assert("pending"@.len() == 7);
    assert("confirmed"@.len() == 9);
    assert("failed"@.len() == 6);
}

} // verus!
