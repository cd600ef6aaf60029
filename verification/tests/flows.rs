use wallet_backend::address::parse_addr;
use wallet_backend::flow::{Call, Effect, Fee, PendingJob, Step, Turn};
use wallet_backend::jobs::{JobBoard, CAPACITY};
use wallet_backend::json::{err, Json};
use wallet_backend::plans::{
    added_flag, drive, label_imported_account, plan_add_custom_token, plan_estimate_fee,
    plan_get_tokens, plan_import_mnemonic, plan_list_accounts, plan_refresh_tx_status,
    plan_test_endpoint, planned, quote_transfer, refusal, start_flow, take_result, Flow,
};
use wallet_backend::send::{
    approval_handle, plan_send_erc20, plan_send_native, signing_intent, transfer_of, tx_leg,
    SendParams,
};
use wallet_backend::status::{plan_send_status, signed};
use wallet_backend::strmap::StrMap;

const TO: &str = "0x5aaeb6053f3e94c9b9a09f33669435e7ef1beaed";
const TO_SUM: &str = "0x5aAeb6053F3E94C9b9A09f33669435E7Ef1BeAed";
const TOKEN: &str = "0xfb6916095ca1df60bb79ce92ce3ea74c37c5d359";
const TOKEN_SUM: &str = "0xfB6916095ca1df60bB79Ce92cE3Ea74c37c5d359";

fn params(token: &str) -> SendParams {
    SendParams {
        from: "0xfrom".to_string(),
        to: TO.to_string(),
        chain_id: 10,
        amount: "1000".to_string(),
        token_address: token.to_string(),
        tier: None,
        max_fee_per_gas: None,
        max_priority_fee_per_gas: None,
        gas_limit: None,
    }
}

fn ok(s: &str) -> Option<Result<String, String>> {
    Some(Ok(s.to_string()))
}

fn failed(s: &str) -> Option<Result<String, String>> {
    Some(Err(s.to_string()))
}

fn answer(t: Turn) -> String {
    assert!(t.effects.is_empty());
    match t.next {
        Step::Done(s) => s,
        _ => panic!("the flow has not ended"),
    }
}

fn parsed(e: &str) -> Result<SendParams, String> {
    Err(e.to_string())
}

// Runs a planned send up to the approval request and returns what asks for it.
fn run_to_approval(
    flow: &mut wallet_backend::send::SendFlow,
    gas: Option<Result<String, String>>,
    jobs: &mut StrMap<PendingJob>,
) -> (u64, String) {
    let t = flow.step(None, 5, jobs);
    assert!(matches!(t.next, Step::Call(Call::EthTransactionCount(10, ref a)) if a == "0xfrom"));
    let t = flow.step(ok("{\"ok\":true,\"result\":\"0x7\"}"), 5, jobs);
    assert!(matches!(t.next, Step::Call(Call::FeeEstimate(10, _))));
    let t = flow.step(ok("{\"maxFeePerGas\":\"30\",\"maxPriorityFeePerGas\":\"0x2\"}"), 5, jobs);
    assert!(matches!(t.next, Step::Call(Call::EthEstimateGas(10, _))));
    let t = flow.step(gas, 5, jobs);
    let limit = match t.next {
        Step::Build(d) => {
            assert_eq!(d.nonce, 7);
            assert_eq!(d.to.to_text(), TO_SUM);
            let Fee::Eip1559 { max_fee_per_gas, max_priority_fee_per_gas } = d.fee;
            assert_eq!(max_fee_per_gas.to_quantity(), "0x1e");
            assert_eq!(max_priority_fee_per_gas.to_quantity(), "0x2");
            assert_eq!(d.amount.to_quantity(), "0x3e8");
            d.gas_limit
        }
        _ => panic!("a transaction is to be built"),
    };
    let t = flow.step(ok("{\"nonce\":7}"), 5, jobs);
    match t.next {
        Step::Call(Call::KeystoreRequestApproval(intent)) => (limit, intent),
        _ => panic!("a human is to be asked"),
    }
}

#[test]
fn a_native_send_runs_from_nonce_to_human() {
    let mut jobs: StrMap<PendingJob> = StrMap::new();
    let mut flow = plan_send_native(&Ok(params("")), true).ok().unwrap();
    let (limit, intent) = run_to_approval(&mut flow, ok("{\"result\":\"0x5208\"}"), &mut jobs);
    assert_eq!(limit, 21_000);
    assert_eq!(
        intent,
        "{\"address\":\"0xfrom\",\"legs\":[{\"chain_id\":10,\"kind\":\"tx\",\"tx\":{\"nonce\":7}}],\"purpose\":\"send\"}"
    );
    assert!(jobs.keys().is_empty());
    let t = flow.step(ok("{\"ok\":true,\"handle\":\"h1\",\"receipt\":\"r1\"}"), 99, &mut jobs);
    assert_eq!(answer(t), "{\"ok\":true,\"pending\":true,\"requestId\":\"h1\"}");
    let job = jobs.get("h1").unwrap();
    assert_eq!(job.chain_id, 10);
    assert_eq!(job.receipt, "r1");
    assert_eq!(job.record.hash, "");
    assert_eq!(job.record.from, "0xfrom");
    assert_eq!(job.record.to, TO);
    assert_eq!(job.record.value, "1000");
    assert_eq!(job.record.kind, "native");
    assert_eq!(job.record.token, None);
    assert_eq!(job.record.status, "pending");
    assert_eq!(job.record.timestamp, 99);
}

#[test]
fn a_token_send_names_its_token() {
    let mut jobs: StrMap<PendingJob> = StrMap::new();
    let p = params(TOKEN);
    let (to, amount) = transfer_of(&p).ok().unwrap();
    assert_eq!(to.to_text(), TO_SUM);
    assert_eq!(amount.to_quantity(), "0x3e8");
    let mut flow = plan_send_erc20(&Ok(p), &[0xa9, 0x05], true).ok().unwrap();
    flow.step(None, 5, &mut jobs);
    flow.step(ok("{}"), 5, &mut jobs);
    let t = flow.step(ok("{}"), 5, &mut jobs);
    match t.next {
        Step::Call(Call::EthEstimateGas(10, tx)) => assert_eq!(
            tx,
            format!("{{\"data\":\"0xa905\",\"from\":\"0xfrom\",\"to\":\"{TOKEN_SUM}\",\"value\":\"0x0\"}}")
        ),
        _ => panic!("gas is to be estimated"),
    }
    let t = flow.step(failed("no estimate"), 5, &mut jobs);
    match t.next {
        Step::Build(d) => {
            assert_eq!(d.nonce, 0);
            assert_eq!(d.gas_limit, 90_000);
            assert_eq!(d.token.unwrap().to_text(), TOKEN_SUM);
            let Fee::Eip1559 { max_fee_per_gas, max_priority_fee_per_gas } = d.fee;
            assert!(max_fee_per_gas.is_zero());
            assert!(max_priority_fee_per_gas.is_zero());
        }
        _ => panic!("a transaction is to be built"),
    }
    flow.step(ok("{}"), 5, &mut jobs);
    flow.step(ok("{\"handle\":\"h\",\"receipt\":\"r\"}"), 5, &mut jobs);
    let record = &jobs.get("h").unwrap().record;
    assert_eq!(record.kind, "erc20");
    assert_eq!(record.token.as_deref(), Some(TOKEN_SUM));
    assert_eq!(record.value, "1000");
}

#[test]
fn the_requests_of_a_native_send_are_planned_before_the_first_call() {
    let mut jobs: StrMap<PendingJob> = StrMap::new();
    let mut p = params("");
    p.tier = Some("fast".to_string());
    p.max_fee_per_gas = Some("9".to_string());
    p.gas_limit = Some("60000".to_string());
    let mut flow = plan_send_native(&Ok(p), true).ok().unwrap();
    assert!(flow.can_step());
    flow.step(None, 0, &mut jobs);
    let t = flow.step(ok("{\"result\":5}"), 0, &mut jobs);
    match t.next {
        Step::Call(Call::FeeEstimate(10, req)) => assert_eq!(
            req,
            "{\"gasLimit\":\"60000\",\"maxFeePerGas\":\"9\",\"maxPriorityFeePerGas\":null,\"tier\":\"fast\"}"
        ),
        _ => panic!("a fee is to be asked for"),
    }
    let t = flow.step(ok("{}"), 0, &mut jobs);
    match t.next {
        Step::Call(Call::EthEstimateGas(10, tx)) => assert_eq!(
            tx,
            format!("{{\"data\":\"0x\",\"from\":\"0xfrom\",\"to\":\"{TO}\",\"value\":\"0x3e8\"}}")
        ),
        _ => panic!("gas is to be estimated"),
    }
}

#[test]
fn a_gas_estimate_that_fails_uses_the_default() {
    for gas in [failed("down"), ok("{\"ok\":false}"), ok("nope"), ok("{\"result\":null}")] {
        let mut jobs: StrMap<PendingJob> = StrMap::new();
        let mut flow = plan_send_native(&Ok(params("")), true).ok().unwrap();
        assert_eq!(run_to_approval(&mut flow, gas, &mut jobs).0, 21_000);
    }
    let mut jobs: StrMap<PendingJob> = StrMap::new();
    let mut flow = plan_send_native(&Ok(params("")), true).ok().unwrap();
    assert_eq!(run_to_approval(&mut flow, ok("{\"result\":\"bad\"}"), &mut jobs).0, 0xbad);
}

#[test]
fn a_send_ends_on_the_first_request_that_fails() {
    let mut jobs: StrMap<PendingJob> = StrMap::new();
    let mut flow = plan_send_native(&Ok(params("")), true).ok().unwrap();
    flow.step(None, 0, &mut jobs);
    assert_eq!(answer(flow.step(failed("down"), 0, &mut jobs)), err("down"));
    let mut flow = plan_send_native(&Ok(params("")), true).ok().unwrap();
    flow.step(None, 0, &mut jobs);
    flow.step(ok("{}"), 0, &mut jobs);
    assert_eq!(
        answer(flow.step(ok("{\"ok\":false,\"error\":\"no fee\"}"), 0, &mut jobs)),
        err("no fee")
    );
}

#[test]
fn an_approval_without_handle_or_receipt_parks_nothing() {
    for (reply, e) in [
        ("{\"receipt\":\"r\"}", "keystore: no handle"),
        ("{\"handle\":\"h\"}", "keystore: no receipt"),
        ("{\"ok\":false,\"error\":\"busy\"}", "busy"),
    ] {
        let mut jobs: StrMap<PendingJob> = StrMap::new();
        let mut flow = plan_send_native(&Ok(params("")), true).ok().unwrap();
        run_to_approval(&mut flow, ok("{}"), &mut jobs);
        assert_eq!(answer(flow.step(ok(reply), 0, &mut jobs)), err(e));
        assert!(jobs.keys().is_empty());
    }
}

#[test]
fn a_send_that_cannot_be_planned_is_reported() {
    assert_eq!(plan_send_native(&parsed("bad json"), true).err(), Some("bad json".to_string()));
    assert_eq!(plan_send_erc20(&parsed("bad json"), &[], true).err(), Some("bad json".to_string()));
    assert_eq!(
        plan_send_native(&Ok(params("")), false).err(),
        Some("backend not initialized (context not ready)".to_string())
    );
    let mut p = params("0x12");
    p.to = "0x34".to_string();
    assert_eq!(
        plan_send_erc20(&Ok(p), &[], false).err(),
        Some("address must be 20 bytes: 0x12".to_string())
    );
    let mut p = params(TOKEN);
    p.to = "0x34".to_string();
    assert_eq!(transfer_of(&p).err(), Some("address must be 20 bytes: 0x34".to_string()));
    assert_eq!(
        plan_send_erc20(&Ok(p), &[], false).err(),
        Some("address must be 20 bytes: 0x34".to_string())
    );
}

#[test]
fn the_parts_of_an_approval_request() {
    let leg = tx_leg(1, Json::object());
    assert_eq!(
        signing_intent("a", "send", vec![leg]),
        "{\"address\":\"a\",\"legs\":[{\"chain_id\":1,\"kind\":\"tx\",\"tx\":{}}],\"purpose\":\"send\"}"
    );
    let resp = Json::object().with("handle", Json::text("h")).with("receipt", Json::text("r"));
    assert_eq!(approval_handle(&resp), Ok(("h".to_string(), "r".to_string())));
}

// A transaction parked under `h`, with receipt `r`.
fn parked_send() -> StrMap<PendingJob> {
    let mut jobs: StrMap<PendingJob> = StrMap::new();
    let mut flow = plan_send_native(&Ok(params("")), true).ok().unwrap();
    run_to_approval(&mut flow, ok("{}"), &mut jobs);
    flow.step(ok("{\"handle\":\"h\",\"receipt\":\"r\"}"), 42, &mut jobs);
    jobs
}

#[test]
fn an_undecided_send_is_still_awaited() {
    let mut jobs = parked_send();
    for state in ["offered", "rendered"] {
        let mut flow = plan_send_status("h", Some(&jobs)).ok().unwrap();
        assert!(flow.can_step());
        let t = flow.step(None, &mut jobs);
        assert!(
            matches!(t.next, Step::Call(Call::KeystoreApprovalStatus(ref h, ref r)) if h == "h" && r == "r")
        );
        let t = flow.step(ok(&format!("{{\"state\":\"{state}\"}}")), &mut jobs);
        assert_eq!(answer(t), "{\"ok\":true,\"state\":\"awaiting_approval\"}");
        assert!(jobs.contains_key("h"));
    }
}

#[test]
fn an_approved_send_is_broadcast_and_recorded() {
    let mut jobs = parked_send();
    let mut flow = plan_send_status("h", Some(&jobs)).ok().unwrap();
    flow.step(None, &mut jobs);
    let t = flow.step(ok("{\"state\":\"settled\",\"reason\":\"approved\"}"), &mut jobs);
    assert!(
        matches!(t.next, Step::Call(Call::KeystoreFetchResult(ref h, ref r)) if h == "h" && r == "r")
    );
    let t = flow.step(ok("{\"ok\":true,\"signed\":[null,\"0xraw\",\"0xother\"]}"), &mut jobs);
    assert!(matches!(t.next, Step::Call(Call::EthSendRawTransaction(10, ref raw)) if raw == "0xraw"));
    assert!(!jobs.contains_key("h"));
    let t = flow.step(ok("{\"ok\":true,\"hash\":\"0xhash\"}"), &mut jobs);
    assert!(
        matches!(t.next, Step::Call(Call::KeystoreAckResult(ref h, ref r)) if h == "h" && r == "r")
    );
    assert_eq!(t.effects.len(), 2);
    match &t.effects[0] {
        Effect::RecordTx(record) => {
            assert_eq!(record.hash, "0xhash");
            assert_eq!(record.from, "0xfrom");
            assert_eq!(record.value, "1000");
            assert_eq!(record.timestamp, 42);
        }
        _ => panic!("the transaction is to be recorded"),
    }
    assert!(matches!(t.effects[1], Effect::TxStatusChanged(ref h) if h == "0xhash"));
    let t = flow.step(failed("keystore gone"), &mut jobs);
    assert_eq!(answer(t), "{\"hash\":\"0xhash\",\"ok\":true,\"state\":\"done\"}");
}

#[test]
fn a_declined_send_is_forgotten() {
    for (reply, reason) in [
        ("{\"state\":\"settled\",\"reason\":\"rejected\"}", "rejected"),
        ("{\"state\":\"settled\"}", "settled"),
    ] {
        let mut jobs = parked_send();
        let mut flow = plan_send_status("h", Some(&jobs)).ok().unwrap();
        flow.step(None, &mut jobs);
        let t = flow.step(ok(reply), &mut jobs);
        assert_eq!(
            answer(t),
            format!("{{\"ok\":true,\"reason\":\"{reason}\",\"state\":\"declined\"}}")
        );
        assert!(!jobs.contains_key("h"));
        assert_eq!(
            plan_send_status("h", Some(&jobs)).err(),
            Some("unknown request".to_string())
        );
    }
}

#[test]
fn an_unexpected_approval_state_is_quoted() {
    let mut jobs = parked_send();
    let mut flow = plan_send_status("h", Some(&jobs)).ok().unwrap();
    flow.step(None, &mut jobs);
    let t = flow.step(ok("{\"state\":\"we\\\"ird\"}"), &mut jobs);
    assert_eq!(answer(t), err("unexpected approval state \"we\\\"ird\""));
    let mut flow = plan_send_status("h", Some(&jobs)).ok().unwrap();
    flow.step(None, &mut jobs);
    assert_eq!(answer(flow.step(ok("{}"), &mut jobs)), err("unexpected approval state \"\""));
    let mut flow = plan_send_status("h", Some(&jobs)).ok().unwrap();
    flow.step(None, &mut jobs);
    assert_eq!(
        answer(flow.step(ok("{\"state\":\"lost\"}"), &mut jobs)),
        err("unexpected approval state \"lost\"")
    );
    assert!(jobs.contains_key("h"));
}

#[test]
fn a_poll_that_fails_before_the_broadcast_can_be_retried() {
    let mut jobs = parked_send();
    let mut flow = plan_send_status("h", Some(&jobs)).ok().unwrap();
    flow.step(None, &mut jobs);
    assert_eq!(answer(flow.step(failed("down"), &mut jobs)), err("down"));
    let mut flow = plan_send_status("h", Some(&jobs)).ok().unwrap();
    flow.step(None, &mut jobs);
    flow.step(ok("{\"state\":\"settled\",\"reason\":\"approved\"}"), &mut jobs);
    assert_eq!(
        answer(flow.step(ok("{\"signed\":[]}"), &mut jobs)),
        err("keystore: approval produced no signatures")
    );
    assert!(plan_send_status("h", Some(&jobs)).is_ok());
}

#[test]
fn a_poll_after_the_job_is_gone_is_refused() {
    let mut jobs = parked_send();
    let mut flow = plan_send_status("h", Some(&jobs)).ok().unwrap();
    flow.step(None, &mut jobs);
    flow.step(ok("{\"state\":\"settled\",\"reason\":\"approved\"}"), &mut jobs);
    jobs.remove("h");
    assert_eq!(
        answer(flow.step(ok("{\"signed\":[\"0xraw\"]}"), &mut jobs)),
        err("unknown request")
    );
}

#[test]
fn a_broadcast_without_hash_is_reported() {
    let mut jobs = parked_send();
    let mut flow = plan_send_status("h", Some(&jobs)).ok().unwrap();
    flow.step(None, &mut jobs);
    flow.step(ok("{\"state\":\"settled\",\"reason\":\"approved\"}"), &mut jobs);
    flow.step(ok("{\"signed\":[\"0xraw\"]}"), &mut jobs);
    assert_eq!(answer(flow.step(ok("{\"ok\":true}"), &mut jobs)), err("broadcast: no hash"));
}

#[test]
fn a_poll_needs_state_and_a_known_request() {
    assert_eq!(
        plan_send_status("h", None).err(),
        Some("backend not initialized (context not ready)".to_string())
    );
    let jobs: StrMap<PendingJob> = StrMap::new();
    assert_eq!(plan_send_status("h", Some(&jobs)).err(), Some("unknown request".to_string()));
    assert_eq!(signed(&Json::object()), None);
}

#[test]
fn a_method_of_one_call_passes_its_reply_through() {
    let mut jobs: StrMap<PendingJob> = StrMap::new();
    let mut flow = Flow::OneCall(plan_test_endpoint(3));
    assert!(flow.can_take(&None));
    let t = flow.step(None, 0, &mut jobs);
    assert!(matches!(t.next, Step::Call(Call::EthVerifyChainId(3))));
    assert!(!flow.can_take(&None));
    assert!(flow.can_take(&ok("x")));
    assert_eq!(answer(flow.step(ok("as it stands"), 0, &mut jobs)), "as it stands");
    assert!(!flow.can_take(&ok("x")));

    let mut flow = Flow::OneCall(plan_list_accounts());
    assert!(matches!(flow.step(None, 0, &mut jobs).next, Step::Call(Call::KeystoreListAccounts)));
    assert_eq!(answer(flow.step(failed("locked"), 0, &mut jobs)), err("locked"));

    let mut flow = Flow::OneCall(plan_get_tokens(-1));
    assert!(matches!(flow.step(None, 0, &mut jobs).next, Step::Call(Call::TokenListGetTokens(-1))));
}

#[test]
fn adding_a_token_answers_a_flag() {
    let mut jobs: StrMap<PendingJob> = StrMap::new();
    for (reply, text, flag) in [
        (ok("true"), "{\"added\":true,\"ok\":true}".to_string(), true),
        (ok("false"), "{\"added\":false,\"ok\":true}".to_string(), false),
        (failed("down"), err("down"), false),
    ] {
        let mut flow = plan_add_custom_token("{}".to_string());
        let t = flow.step(None);
        assert!(matches!(t.next, Step::Call(Call::TokenListAddCustomToken(ref s)) if s == "{}"));
        let said = answer(flow.step(reply));
        assert_eq!(said, text);
        assert_eq!(added_flag(&said), flag);
    }
    assert!(!added_flag("nope"));
    let mut flow = Flow::OneCall(plan_add_custom_token("{}".to_string()));
    flow.step(None, 0, &mut jobs);
    assert!(added_flag(&answer(flow.step(ok("true"), 0, &mut jobs))));
}

#[test]
fn an_imported_account_is_labelled_under_its_address_in_lower_case() {
    let mut flow = plan_import_mnemonic("{}".to_string(), "main".to_string(), true);
    assert!(matches!(flow.step(None).next, Step::Call(Call::KeystoreImportMnemonic(_))));
    let reply = "{\"ok\":true, \"address\":\"0xABCdef\"}";
    let t = flow.step(ok(reply));
    assert!(matches!(t.next, Step::Done(ref s) if s == reply));
    assert_eq!(t.effects.len(), 1);
    assert!(
        matches!(t.effects[0], Effect::LabelAccount(ref a, ref l) if a == "0xabcdef" && l == "main")
    );
}

#[test]
fn an_import_without_state_or_address_keeps_no_label() {
    let mut flow = plan_import_mnemonic("{}".to_string(), "main".to_string(), false);
    flow.step(None);
    assert_eq!(answer(flow.step(ok("{\"address\":\"0xA\"}"))), "{\"address\":\"0xA\"}");
    let t = label_imported_account(Ok(Json::object()), "r".to_string(), "l".to_string(), true);
    assert_eq!(answer(t), "r");
    let mut flow = plan_import_mnemonic("{}".to_string(), "main".to_string(), true);
    flow.step(None);
    assert_eq!(answer(flow.step(ok("{\"ok\":false,\"error\":\"bad phrase\"}"))), err("bad phrase"));
    let mut flow = plan_import_mnemonic("{}".to_string(), "main".to_string(), true);
    flow.step(None);
    assert_eq!(answer(flow.step(failed("down"))), err("down"));
}

#[test]
fn a_receipt_settles_a_transaction() {
    for (reply, status) in [
        ("{\"result\":{\"status\":\"0x1\"}}", "confirmed"),
        ("{\"result\":{\"status\":\"0x0\"}}", "failed"),
        ("{\"result\":{}}", "failed"),
    ] {
        let mut flow = plan_refresh_tx_status("0xh".to_string(), 10, true);
        assert!(
            matches!(flow.step(None).next, Step::Call(Call::EthTransactionReceipt(10, ref h)) if h == "0xh")
        );
        let t = flow.step(ok(reply));
        assert!(
            matches!(t.next, Step::Done(ref s) if *s == format!("{{\"ok\":true,\"status\":\"{status}\"}}"))
        );
        assert_eq!(t.effects.len(), 2);
        assert!(
            matches!(t.effects[0], Effect::UpdateTxStatus(ref h, ref s) if h == "0xh" && s == status)
        );
        assert!(matches!(t.effects[1], Effect::TxStatusChanged(ref h) if h == "0xh"));
    }
}

#[test]
fn a_transaction_without_receipt_is_pending() {
    for reply in ["{\"ok\":true}", "{\"result\":null}"] {
        let mut flow = plan_refresh_tx_status("0xh".to_string(), 10, true);
        flow.step(None);
        let t = flow.step(ok(reply));
        assert!(matches!(t.next, Step::Done(ref s) if s == "{\"ok\":true,\"status\":\"pending\"}"));
        assert_eq!(t.effects.len(), 1);
        assert!(matches!(t.effects[0], Effect::TxStatusChanged(_)));
    }
    let mut flow = plan_refresh_tx_status("0xh".to_string(), 10, false);
    flow.step(None);
    let t = flow.step(ok("{\"result\":{\"status\":\"0x1\"}}"));
    assert_eq!(t.effects.len(), 1);
    let mut flow = plan_refresh_tx_status("0xh".to_string(), 10, true);
    flow.step(None);
    assert_eq!(answer(flow.step(failed("down"))), err("down"));
}

// What a fee quote asks for.
fn quote(p: SendParams, data: &[u8]) -> String {
    let mut jobs: StrMap<PendingJob> = StrMap::new();
    let mut flow = plan_estimate_fee(&Ok(p), data);
    match flow.step(None, 0, &mut jobs).next {
        Step::Call(Call::FeeEstimate(10, req)) => req,
        _ => panic!("a fee is to be asked for"),
    }
}

#[test]
fn a_fee_is_quoted_for_the_transaction_described() {
    assert_eq!(
        quote(params(""), &[]),
        format!("{{\"gasLimit\":null,\"maxFeePerGas\":null,\"maxPriorityFeePerGas\":null,\"tier\":\"normal\",\"tx\":{{\"from\":\"0xfrom\",\"to\":\"{TO}\",\"value\":\"0x3e8\"}}}}")
    );
    let p = params(TOKEN);
    assert_eq!(quote_transfer(&p).unwrap().0.to_text(), TO_SUM);
    assert_eq!(
        quote(p, &[1, 2]),
        format!("{{\"gasLimit\":null,\"maxFeePerGas\":null,\"maxPriorityFeePerGas\":null,\"tier\":\"normal\",\"tx\":{{\"data\":\"0x0102\",\"from\":\"0xfrom\",\"to\":\"{TOKEN}\"}}}}")
    );
    assert!(quote_transfer(&params("")).is_none());
}

#[test]
fn an_unreadable_recipient_is_still_quoted() {
    let mut p = params(TOKEN);
    p.to = "nobody".to_string();
    p.gas_limit = Some("5".to_string());
    assert!(quote_transfer(&p).is_none());
    assert_eq!(
        quote(p, &[]),
        "{\"gasLimit\":\"5\",\"maxFeePerGas\":null,\"maxPriorityFeePerGas\":null,\"tier\":\"normal\"}"
    );
}

#[test]
fn an_unreadable_quote_is_answered_without_a_call() {
    let mut jobs: StrMap<PendingJob> = StrMap::new();
    let mut flow = plan_estimate_fee(&parsed("missing field"), &[]);
    assert!(flow.can_take(&None));
    assert_eq!(answer(flow.step(None, 0, &mut jobs)), err("missing field"));
    assert!(!flow.can_take(&None));
}

#[test]
fn a_started_flow_is_collected_once_it_has_answered() {
    let mut jobs: StrMap<PendingJob> = StrMap::new();
    let mut board = JobBoard::new();
    let mut flow = Flow::OneCall(plan_list_accounts());
    let started = start_flow(&mut flow, 0, &mut jobs, &mut board);
    let id = started.job.clone();
    assert_eq!(started.answer, format!("{{\"jobId\":\"{id}\",\"ok\":true}}"));
    assert!(matches!(started.turn.next, Step::Call(Call::KeystoreListAccounts)));
    assert_eq!(
        take_result(&mut board, &id),
        format!("{{\"jobId\":\"{id}\",\"ok\":false,\"pending\":true}}")
    );
    drive(&mut flow, ok("accounts"), 0, &mut jobs, &id, &mut board);
    assert_eq!(take_result(&mut board, &id), "accounts");
    assert_eq!(
        take_result(&mut board, &id),
        err(&format!(
            "unknown job '{id}': never started, already collected, or evicted after {CAPACITY} newer ones"
        ))
    );
}

#[test]
fn an_answer_that_needs_no_call_is_collected_like_any_other() {
    let mut jobs: StrMap<PendingJob> = StrMap::new();
    let mut board = JobBoard::new();
    let mut flow = plan_estimate_fee(&parsed("bad"), &[]);
    let started = start_flow(&mut flow, 0, &mut jobs, &mut board);
    assert_eq!(take_result(&mut board, &started.job), err("bad"));
}

#[test]
fn a_send_without_fee_controls_asks_for_the_normal_tier() {
    let mut jobs: StrMap<PendingJob> = StrMap::new();
    let mut flow = plan_send_erc20(&Ok(params(TOKEN)), &[], true).ok().unwrap();
    flow.step(None, 0, &mut jobs);
    let t = flow.step(ok("{}"), 0, &mut jobs);
    match t.next {
        Step::Call(Call::FeeEstimate(10, req)) => assert_eq!(
            req,
            "{\"gasLimit\":null,\"maxFeePerGas\":null,\"maxPriorityFeePerGas\":null,\"tier\":\"normal\"}"
        ),
        _ => panic!("a fee is to be asked for"),
    }
}

#[test]
fn a_plan_that_failed_is_reported_alike_in_both_spellings() {
    let mut jobs: StrMap<PendingJob> = StrMap::new();
    let plans = || {
        let mut bad = params("");
        bad.to = "0x34".to_string();
        vec![
            (plan_send_native(&Ok(bad), true).map(Flow::Send), "address must be 20 bytes: 0x34"),
            (plan_send_erc20(&parsed("bad json"), &[], true).map(Flow::Send), "bad json"),
            (
                plan_send_status("h", None).map(Flow::Status),
                "backend not initialized (context not ready)",
            ),
        ]
    };
    for ((waiting, e), (starting, _)) in plans().into_iter().zip(plans()) {
        let mut flow = planned(waiting);
        assert!(flow.can_take(&None));
        assert_eq!(answer(flow.step(None, 0, &mut jobs)), err(e));
        let mut board = JobBoard::new();
        let mut flow = planned(starting);
        let started = start_flow(&mut flow, 0, &mut jobs, &mut board);
        assert_eq!(started.answer, "{\"jobId\":\"j1\",\"ok\":true}");
        assert_eq!(take_result(&mut board, "j1"), err(e));
    }
}

#[test]
fn a_plan_that_worked_is_the_flow() {
    let mut jobs: StrMap<PendingJob> = StrMap::new();
    let mut flow = planned(plan_send_native(&Ok(params("")), true).map(Flow::Send));
    let t = flow.step(None, 0, &mut jobs);
    assert!(matches!(t.next, Step::Call(Call::EthTransactionCount(10, _))));
}

#[test]
fn polls_at_once_send_the_transaction_once() {
    let mut jobs = parked_send();
    let mut one = plan_send_status("h", Some(&jobs)).ok().unwrap();
    let mut other = plan_send_status("h", Some(&jobs)).ok().unwrap();
    for flow in [&mut one, &mut other] {
        flow.step(None, &mut jobs);
        let t = flow.step(ok("{\"state\":\"settled\",\"reason\":\"approved\"}"), &mut jobs);
        assert!(matches!(t.next, Step::Call(Call::KeystoreFetchResult(_, _))));
    }
    let t = one.step(ok("{\"signed\":[\"0xraw\"]}"), &mut jobs);
    assert!(matches!(t.next, Step::Call(Call::EthSendRawTransaction(10, _))));
    assert_eq!(answer(other.step(ok("{\"signed\":[\"0xraw\"]}"), &mut jobs)), err("unknown request"));
    assert!(plan_send_status("h", Some(&jobs)).is_err());
}

#[test]
fn both_spellings_give_the_same_answer() {
    let mut jobs = parked_send();
    let mut waiting = plan_send_status("h", Some(&jobs)).ok().unwrap();
    waiting.step(None, &mut jobs);
    let waited = answer(waiting.step(ok("{\"state\":\"offered\"}"), &mut jobs));
    let mut board = JobBoard::new();
    let mut flow = Flow::Status(plan_send_status("h", Some(&jobs)).ok().unwrap());
    let started = start_flow(&mut flow, 0, &mut jobs, &mut board);
    drive(&mut flow, ok("{\"state\":\"offered\"}"), 0, &mut jobs, &started.job, &mut board);
    assert_eq!(take_result(&mut board, &started.job), waited);
}

#[test]
fn a_send_runs_as_a_job_too() {
    let mut jobs: StrMap<PendingJob> = StrMap::new();
    let mut board = JobBoard::new();
    let mut flow = Flow::Send(plan_send_native(&Ok(params("")), true).ok().unwrap());
    let started = start_flow(&mut flow, 1, &mut jobs, &mut board);
    for reply in ["{\"result\":\"0x1\"}", "{}", "{}", "{}"] {
        let t = drive(&mut flow, ok(reply), 1, &mut jobs, &started.job, &mut board);
        assert!(!matches!(t.next, Step::Done(_)));
    }
    drive(
        &mut flow,
        ok("{\"handle\":\"h\",\"receipt\":\"r\"}"),
        1,
        &mut jobs,
        &started.job,
        &mut board,
    );
    assert_eq!(
        take_result(&mut board, &started.job),
        "{\"ok\":true,\"pending\":true,\"requestId\":\"h\"}"
    );
}

#[test]
fn a_build_that_cannot_wait_names_the_spelling_that_works() {
    assert_eq!(
        refusal("start_send_native"),
        err("this build cannot wait for a reply (one Worker, one event loop): use start_send_native, then take_result")
    );
}

#[test]
fn an_address_is_spelled_with_its_checksum() {
    assert_eq!(parse_addr(TOKEN).unwrap().to_text(), TOKEN_SUM);
}
