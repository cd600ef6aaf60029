use wallet_backend::amount::parse_u256_str;
use wallet_backend::balances::{
    aggregate, call_result_bytes, chain_value, decode_balance_reply, decode_multicall_chain,
    empty_chain, fetch_chain, individual_chain, multicall_calls, read_reply, ChainFetch, Gather,
};

const MC: &str = "0xca11bde05977b3631167028862be2a173976ca11";
const T1: &str = "0x5aaeb6053f3e94c9b9a09f33669435e7ef1beaed";
const T2: &str = "0xfb6916095ca1df60bb79ce92ce3ea74c37c5d359";

fn tokens() -> Vec<String> {
    vec![T1.to_string(), T2.to_string()]
}

fn chain(native: &str, a: &str, b: &str) -> String {
    format!("{{\"chainId\":10,\"native\":\"{native}\",\"tokens\":[{{\"address\":\"{T1}\",\"balance\":\"{a}\"}},{{\"address\":\"{T2}\",\"balance\":\"{b}\"}}]}}")
}

#[test]
fn results_are_gathered_in_the_order_of_their_tasks() {
    let mut g: Gather<u32> = Gather::new(3);
    assert!(g.take_if_empty().is_none());
    assert!(g.expects(1));
    assert_eq!(g.fill(1, 11), None);
    assert!(!g.expects(1));
    assert_eq!(g.fill(2, 12), None);
    assert_eq!(g.fill(0, 10), Some(vec![10, 11, 12]));
    assert!(!g.expects(0));

    let mut g: Gather<u32> = Gather::new(3);
    assert_eq!(g.fill(0, 10), None);
    assert_eq!(g.fill(2, 12), None);
    assert_eq!(g.fill(1, 11), Some(vec![10, 11, 12]));
}

#[test]
fn no_tasks_are_gathered_at_once() {
    let g: Gather<u32> = Gather::new(0);
    assert_eq!(g.take_if_empty(), Some(Vec::new()));
    assert!(!g.expects(0));
}

#[test]
fn a_batch_is_read_in_order() {
    let rets = Some(vec![
        Some(parse_u256_str("5")),
        Some(parse_u256_str("115792089237316195423570985008687907853269984665640564039457584007913129639935")),
        None,
    ]);
    assert_eq!(
        decode_multicall_chain(10, &tokens(), &rets).render(),
        chain("5", "115792089237316195423570985008687907853269984665640564039457584007913129639935", "0")
    );
}

#[test]
fn a_batch_that_is_too_short_leaves_zeros() {
    assert_eq!(
        decode_multicall_chain(10, &tokens(), &Some(vec![Some(parse_u256_str("5"))])).render(),
        chain("5", "0", "0")
    );
}

#[test]
fn a_batch_that_failed_leaves_zeros() {
    assert_eq!(decode_multicall_chain(10, &tokens(), &None).render(), chain("0", "0", "0"));
    assert_eq!(empty_chain(10, &tokens()).render(), chain("0", "0", "0"));
    assert_eq!(individual_chain(10, &tokens(), &Vec::new()).render(), chain("0", "0", "0"));
}

#[test]
fn single_reads_give_what_a_batch_gives() {
    let parts = vec![
        (2usize, Some(parse_u256_str("0x20"))),
        (0usize, Some(parse_u256_str("7"))),
        (1usize, Some(parse_u256_str("8"))),
    ];
    let rets = Some(vec![
        Some(parse_u256_str("7")),
        Some(parse_u256_str("8")),
        Some(parse_u256_str("32")),
    ]);
    let one_by_one = individual_chain(10, &tokens(), &parts);
    assert_eq!(one_by_one.render(), chain("7", "8", "32"));
    assert_eq!(one_by_one, decode_multicall_chain(10, &tokens(), &rets));
    let amounts = vec![parse_u256_str("8"), parse_u256_str("32")];
    assert_eq!(chain_value(10, &parse_u256_str("7"), &tokens(), &amounts), one_by_one);
}

#[test]
fn a_single_read_that_failed_counts_as_zero() {
    let parts = vec![(0usize, Some(parse_u256_str("7"))), (1usize, None)];
    assert_eq!(individual_chain(10, &tokens(), &parts).render(), chain("7", "0", "0"));
}

#[test]
fn a_native_balance_is_read_from_its_reply() {
    let read = |s: &str| decode_balance_reply(&Some(s.to_string())).to_quantity();
    assert_eq!(read("{\"ok\":true,\"result\":\"0xde0b6b3a7640000\"}"), "0xde0b6b3a7640000");
    assert_eq!(read("{\"result\":\"12\"}"), "0xc");
    assert_eq!(read("{\"ok\":false,\"result\":\"12\"}"), "0x0");
    assert_eq!(read("{\"result\":12}"), "0x0");
    assert_eq!(read("nope"), "0x0");
    assert!(decode_balance_reply(&None).is_zero());
}

#[test]
fn the_bytes_of_a_call_are_read_from_its_reply() {
    let read = |s: &str| call_result_bytes(&Some(s.to_string()));
    assert_eq!(read("{\"result\":\"0x00fF\"}"), Some(vec![0, 255]));
    assert_eq!(read("{\"result\":\"0x0x01\"}"), Some(vec![1]));
    assert_eq!(read("{\"result\":\"0x\"}"), Some(Vec::new()));
    assert_eq!(read("{\"result\":\"0x0\"}"), None);
    assert_eq!(read("{\"result\":\"0Xff\"}"), None);
    assert_eq!(read("{\"ok\":false,\"result\":\"0xff\"}"), None);
    assert_eq!(call_result_bytes(&None), None);
    assert_eq!(read_reply(&Some("{".to_string())), None);
}

#[test]
fn a_chain_with_a_batch_contract_is_asked_once() {
    match fetch_chain(&Some(MC.to_string()), &tokens(), &[1], &[2]) {
        ChainFetch::Multicall(call) => {
            assert_eq!(call, format!("{{\"data\":\"0x01\",\"to\":\"{MC}\"}}"))
        }
        _ => panic!("one call is enough"),
    }
    let calls = multicall_calls(MC, &tokens(), &[7], &[8]).unwrap();
    assert_eq!(calls.len(), 3);
    assert_eq!(calls[0].0.to_text().to_lowercase(), MC);
    assert_eq!(calls[0].1, vec![7]);
    assert_eq!(calls[2].0.to_text().to_lowercase(), T2);
    assert_eq!(calls[2].1, vec![8]);
}

#[test]
fn any_other_chain_is_asked_token_by_token() {
    let mut odd = tokens();
    odd.push("junk".to_string());
    assert!(multicall_calls(MC, &odd, &[], &[]).is_none());
    assert!(multicall_calls("junk", &tokens(), &[], &[]).is_none());
    for (mc, list) in [
        (None, tokens()),
        (Some("junk".to_string()), tokens()),
        (Some(MC.to_string()), odd),
    ] {
        match fetch_chain(&mc, &list, &[1], &[2]) {
            ChainFetch::Individual(calls) => {
                assert_eq!(calls.len(), list.len());
                for (call, token) in calls.iter().zip(&list) {
                    assert_eq!(*call, format!("{{\"data\":\"0x02\",\"to\":\"{token}\"}}"));
                }
            }
            _ => panic!("no batch can be asked for"),
        }
    }
}

#[test]
fn chains_are_put_together_for_an_account() {
    let v = aggregate("0xa", vec![empty_chain(1, &Vec::new())]);
    assert_eq!(
        v.render(),
        "{\"address\":\"0xa\",\"chains\":[{\"chainId\":1,\"native\":\"0\",\"tokens\":[]}]}"
    );
}
