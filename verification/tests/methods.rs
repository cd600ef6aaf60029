use std::collections::HashMap;
use wallet_backend::backend::Backend;
use wallet_backend::config::{config_pushes, next_push};
use wallet_backend::flow::{Call, Step};
use wallet_backend::jobs::JobBoard;
use wallet_backend::json::{err, Json};
use wallet_backend::plans::{park_answer, planned, take_result, Flow};
use wallet_backend::send::SendParams;
use wallet_backend::strmap::StrMap;

fn ready() -> Backend {
    let mut b = Backend::new();
    b.on_context_ready(HashMap::new(), StrMap::new());
    b
}

fn params(to: &str, token: &str) -> SendParams {
    SendParams {
        from: "0xfrom".to_string(),
        to: to.to_string(),
        chain_id: 1,
        amount: "5".to_string(),
        token_address: token.to_string(),
        tier: None,
        max_fee_per_gas: None,
        max_priority_fee_per_gas: None,
        gas_limit: None,
    }
}

const TO: &str = "0x5aaeb6053f3e94c9b9a09f33669435e7ef1beaed";

// What waiting for a plan that asks for nothing answers.
fn waited(b: &mut Backend, plan: Result<Flow, String>) -> String {
    let mut flow = planned(plan);
    match b.step(&mut flow, None, 0).next {
        Step::Done(answer) => answer,
        _ => panic!("nothing is to be asked"),
    }
}

#[test]
fn a_refused_send_is_a_job_with_the_answer_of_its_waiting_twin() {
    let requests = || {
        vec![
            Err("missing field `from`".to_string()),
            Ok(params("0x12", "")),
            Ok(params("zz", TO)),
        ]
    };
    for p in requests() {
        let mut b = ready();
        let mut board = JobBoard::new();
        let (started, _) = b.start_send_native(&p, 0, &mut board);
        assert_eq!(started.answer, "{\"jobId\":\"j1\",\"ok\":true}");
        assert!(started.turn.effects.is_empty());
        assert!(matches!(started.turn.next, Step::Done(_)));
        let plan = b.plan_send_native(&p);
        let waiting = waited(&mut b, plan);
        assert!(waiting.contains("\"ok\":false"));
        assert_eq!(take_result(&mut board, "j1"), waiting);

        let (started, _) = b.start_send_erc20(&p, &[], 0, &mut board);
        assert_eq!(started.answer, "{\"jobId\":\"j2\",\"ok\":true}");
        let plan = b.plan_send_erc20(&p, &[]);
        let waiting = waited(&mut b, plan);
        assert_eq!(take_result(&mut board, "j2"), waiting);
    }
}

#[test]
fn a_poll_of_an_unknown_request_is_a_job_too() {
    let mut b = ready();
    let mut board = JobBoard::new();
    let (started, _) = b.start_send_status("h", 0, &mut board);
    assert_eq!(take_result(&mut board, &started.job), err("unknown request"));
    let mut b = Backend::new();
    let (started, _) = b.start_send_status("h", 0, &mut board);
    assert_eq!(
        take_result(&mut board, &started.job),
        err("backend not initialized (context not ready)")
    );
    let (started, _) = b.start_send_native(&Ok(params(TO, "")), 0, &mut board);
    assert_eq!(
        take_result(&mut board, &started.job),
        err("backend not initialized (context not ready)")
    );
}

#[test]
fn a_started_send_parks_its_transaction_for_polls() {
    let mut b = ready();
    let mut board = JobBoard::new();
    let (started, mut flow) = b.start_send_native(&Ok(params(TO, "")), 3, &mut board);
    assert!(matches!(started.turn.next, Step::Call(Call::EthTransactionCount(1, _))));
    for reply in ["{}", "{}", "{}", "{}", "{\"handle\":\"h\",\"receipt\":\"r\"}"] {
        assert!(take_result(&mut board, &started.job).contains("\"pending\":true"));
        let t = b.step(&mut flow, Some(Ok(reply.to_string())), 3);
        park_answer(&mut board, &started.job, &t.next);
    }
    assert_eq!(
        take_result(&mut board, &started.job),
        "{\"ok\":true,\"pending\":true,\"requestId\":\"h\"}"
    );
    let (started, _) = b.start_send_status("h", 4, &mut board);
    assert!(
        matches!(started.turn.next, Step::Call(Call::KeystoreApprovalStatus(ref h, ref r)) if h == "h" && r == "r")
    );
    let (started, _) = b.start_send_erc20(&Ok(params(TO, TO)), &[], 4, &mut board);
    assert!(matches!(started.turn.next, Step::Call(Call::EthTransactionCount(1, _))));
}

#[test]
fn every_started_method_makes_its_first_call() {
    let mut b = Backend::new();
    let mut board = JobBoard::new();
    let first = |r: (wallet_backend::plans::Started, Flow)| match r.0.turn.next {
        Step::Call(call) => call,
        _ => panic!("a call is to be made"),
    };
    assert!(matches!(first(b.start_test_endpoint(7, 0, &mut board)), Call::EthVerifyChainId(7)));
    assert!(matches!(first(b.start_list_accounts(0, &mut board)), Call::KeystoreListAccounts));
    assert!(matches!(first(b.start_get_tokens(7, 0, &mut board)), Call::TokenListGetTokens(7)));
    assert!(
        matches!(first(b.start_add_custom_token("t".to_string(), 0, &mut board)), Call::TokenListAddCustomToken(ref t) if t == "t")
    );
    assert!(
        matches!(first(b.start_import_mnemonic("p".to_string(), "l".to_string(), 0, &mut board)), Call::KeystoreImportMnemonic(ref p) if p == "p")
    );
    assert!(
        matches!(first(b.start_refresh_tx_status("h".to_string(), 7, 0, &mut board)), Call::EthTransactionReceipt(7, ref h) if h == "h")
    );
    assert!(matches!(
        first(b.start_estimate_fee(&Ok(params(TO, "")), &[], 0, &mut board)),
        Call::FeeEstimate(1, _)
    ));
    assert_eq!(board.len(), 7);
    let (started, _) = b.start_estimate_fee(&Err("bad".to_string()), &[], 0, &mut board);
    assert_eq!(take_result(&mut board, &started.job), err("bad"));
}

#[test]
fn a_module_without_state_keeps_no_label() {
    for (mut b, labels) in [(Backend::new(), 0), (ready(), 1)] {
        let mut board = JobBoard::new();
        let (_, mut flow) =
            b.start_import_mnemonic("p".to_string(), "l".to_string(), 0, &mut board);
        let t = b.step(&mut flow, Some(Ok("{\"address\":\"0xA\"}".to_string())), 0);
        assert_eq!(t.effects.len(), labels);
    }
}

#[test]
fn every_configured_chain_is_pushed_once_in_order() {
    let chains = vec![
        (5u64, Some(Json::object().with("endpoint", Json::text("e")))),
        (1u64, None),
        (u64::MAX, Some(Json::object())),
        (3u64, Some(Json::Null)),
    ];
    let mut queue = config_pushes(&chains);
    assert_eq!(
        queue,
        vec![
            (5, "{\"endpoint\":\"e\"}".to_string()),
            (-1, "{}".to_string()),
            (3, "null".to_string()),
        ]
    );
    assert_eq!(next_push(&mut queue), Some((5, "{\"endpoint\":\"e\"}".to_string())));
    assert_eq!(next_push(&mut queue), Some((-1, "{}".to_string())));
    assert_eq!(next_push(&mut queue), Some((3, "null".to_string())));
    assert_eq!(next_push(&mut queue), None);
    assert!(config_pushes(&Vec::new()).is_empty());
}
