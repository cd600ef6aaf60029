use wallet_backend::address::{data_hex, parse_addr, short_addr, short_addr_fits};
use wallet_backend::amount::{parse_u256_str, U256};
use wallet_backend::json::{err, ok_value, passthrough, reply_value, Json, Num};
use wallet_backend::strmap::StrMap;
use wallet_backend::text::{
    decimal, joined, parse_hex_u64, same_text, strip_hex, strip_hex_prefix, trim, trim_0x,
};

#[test]
fn blanks_are_trimmed_at_both_ends() {
    assert_eq!(trim(" \t a b \n"), "a b");
    assert_eq!(trim("\u{3000}x\u{a0}"), "x");
    assert_eq!(trim("   "), "");
    assert_eq!(trim("ab"), "ab");
}

#[test]
fn one_hex_prefix_is_stripped() {
    assert_eq!(strip_hex("0xab"), "ab");
    assert_eq!(strip_hex("0Xab"), "ab");
    assert_eq!(strip_hex("0x0xab"), "0xab");
    assert_eq!(strip_hex("ab"), "ab");
    assert_eq!(strip_hex_prefix("ab"), None);
    assert_eq!(strip_hex_prefix("0x"), Some(""));
}

#[test]
fn every_leading_0x_is_trimmed() {
    assert_eq!(trim_0x("0x0xab"), "ab");
    assert_eq!(trim_0x("0Xab"), "0Xab");
    assert_eq!(trim_0x(""), "");
}

#[test]
fn hexadecimal_numbers_are_read() {
    assert_eq!(parse_hex_u64("0x1A"), 26);
    assert_eq!(parse_hex_u64(" 0X10 "), 16);
    assert_eq!(parse_hex_u64("ff"), 255);
    assert_eq!(parse_hex_u64("+f"), 15);
    assert_eq!(parse_hex_u64("0xffffffffffffffff"), u64::MAX);
}

#[test]
fn what_is_no_hexadecimal_number_reads_as_zero() {
    assert_eq!(parse_hex_u64(""), 0);
    assert_eq!(parse_hex_u64("0x"), 0);
    assert_eq!(parse_hex_u64("+"), 0);
    assert_eq!(parse_hex_u64("-1"), 0);
    assert_eq!(parse_hex_u64("0xzz"), 0);
    assert_eq!(parse_hex_u64("0x10000000000000000"), 0);
}

#[test]
fn numbers_and_texts_are_written() {
    assert_eq!(decimal(0), "0");
    assert_eq!(decimal(64), "64");
    assert_eq!(decimal(u64::MAX), "18446744073709551615");
    assert_eq!(joined("ab", "cd"), "abcd");
    assert!(same_text("x", "x"));
    assert!(!same_text("x", "y"));
}

#[test]
fn amounts_are_read_in_either_base() {
    assert_eq!(parse_u256_str("1000").to_quantity(), "0x3e8");
    assert_eq!(parse_u256_str(" 0xFF ").to_quantity(), "0xff");
    assert_eq!(parse_u256_str("0XfF").to_quantity(), "0xff");
    assert_eq!(parse_u256_str("1_000").to_quantity(), "0x3e8");
    assert_eq!(parse_u256_str("0b11").to_quantity(), "0x3");
    assert_eq!(parse_u256_str("0o17").to_quantity(), "0xf");
}

#[test]
fn the_largest_amount_is_read_and_no_larger_one() {
    let max = format!("0x{}", "f".repeat(64));
    assert_eq!(parse_u256_str(&max).to_quantity(), max);
    let over = format!("0x1{}", "0".repeat(64));
    assert!(parse_u256_str(&over).is_zero());
}

#[test]
fn what_is_no_amount_reads_as_zero() {
    assert!(parse_u256_str("").is_zero());
    assert!(parse_u256_str("ten").is_zero());
    assert!(parse_u256_str("0xg").is_zero());
    assert!(parse_u256_str("-1").is_zero());
    assert_eq!(U256::zero().to_quantity(), "0x0");
    assert!(!parse_u256_str("1").is_zero());
}

#[test]
fn an_address_reads_back_with_its_checksum() {
    let a = parse_addr(" 0x5aaeb6053f3e94c9b9a09f33669435e7ef1beaed ").unwrap();
    assert_eq!(a.to_text(), "0x5aAeb6053F3E94C9b9A09f33669435E7Ef1BeAed");
    let b = parse_addr("5AAEB6053F3E94C9B9A09F33669435E7EF1BEAED").unwrap();
    assert_eq!(b.to_text(), a.to_text());
    let c = parse_addr(&a.to_text()).unwrap();
    assert_eq!(c.to_text(), a.to_text());
}

#[test]
fn what_is_no_address_is_reported() {
    assert_eq!(parse_addr("0x1234").err(), Some("address must be 20 bytes: 0x1234".to_string()));
    assert_eq!(parse_addr("0x123").err(), Some("Odd number of digits".to_string()));
    assert_eq!(
        parse_addr("0xzz").err(),
        Some("Invalid character 'z' at position 0".to_string())
    );
    assert_eq!(
        parse_addr("0xab1g").err(),
        Some("Invalid character 'g' at position 3".to_string())
    );
    assert_eq!(
        parse_addr("0x\u{e9}").err(),
        Some("Invalid character '\u{c3}' at position 0".to_string())
    );
}

#[test]
fn bytes_are_written_in_hexadecimal() {
    assert_eq!(data_hex(&[0xa9, 0x05, 0x9c, 0xbb]), "0xa9059cbb");
    assert_eq!(data_hex(&[]), "0x");
}

#[test]
fn a_long_address_is_cut_short() {
    let a = "0x1234567890abcdef";
    assert!(short_addr_fits(a));
    assert_eq!(short_addr(a), "0x1234\u{2026}cdef");
    assert_eq!(short_addr("12345678"), "0x1234\u{2026}5678");
}

#[test]
fn a_short_address_stays_as_it_is() {
    assert!(short_addr_fits("0x1234567"));
    assert_eq!(short_addr("0x1234567"), "0x1234567");
}

#[test]
fn an_address_that_splits_a_character_cannot_be_cut() {
    assert!(!short_addr_fits("0xa\u{e9}\u{e9}bbbbb"));
    assert!(!short_addr_fits("0xbbbbb\u{e9}\u{e9}a"));
    assert!(short_addr_fits("0x\u{e9}\u{e9}\u{e9}\u{e9}"));
}

#[test]
fn the_error_envelope_is_json() {
    assert_eq!(err("no \"luck\""), "{\"error\":\"no \\\"luck\\\"\",\"ok\":false}");
}

#[test]
fn a_reply_that_says_not_ok_is_an_error() {
    assert_eq!(ok_value("{\"ok\":false,\"error\":\"down\"}").err(), Some("down".to_string()));
    assert_eq!(ok_value("{\"ok\":false}").err(), Some("dependency error".to_string()));
    assert_eq!(
        ok_value("{\"ok\":false,\"error\":7}").err(),
        Some("dependency error".to_string())
    );
}

#[test]
fn any_other_reply_is_taken_as_it_is() {
    assert_eq!(ok_value("{\"ok\":true,\"n\":1}").unwrap().get_u64("n"), Some(1));
    assert_eq!(ok_value("{\"ok\":\"false\"}").unwrap().get_bool("ok"), None);
    assert_eq!(ok_value("[1]").unwrap(), Json::Arr(vec![Json::Num(Num::Pos(1))]));
}

#[test]
fn a_reply_that_is_not_json_is_an_error() {
    assert_eq!(
        ok_value("nope").err(),
        Some("expected ident at line 1 column 2".to_string())
    );
    assert_eq!(
        ok_value("").err(),
        Some("EOF while parsing a value at line 1 column 0".to_string())
    );
}

#[test]
fn a_transport_failure_is_passed_on() {
    assert_eq!(reply_value(&Err("timeout".to_string())).err(), Some("timeout".to_string()));
    assert_eq!(passthrough(Err("timeout".to_string())), err("timeout"));
    assert_eq!(passthrough(Ok("anything".to_string())), "anything");
}

#[test]
fn numbers_keep_their_kind() {
    let v = ok_value("{\"a\":7,\"b\":-7,\"c\":7.5,\"d\":18446744073709551615,\"e\":1e3}").unwrap();
    assert_eq!(v.get_num("a"), Some(&Num::Pos(7)));
    assert_eq!(v.get_num("b"), Some(&Num::Neg(-7)));
    assert_eq!(v.get_num("c"), Some(&Num::Float("7.5".to_string())));
    assert_eq!(v.get_num("d"), Some(&Num::Pos(u64::MAX)));
    assert_eq!(v.get_num("e"), Some(&Num::Float("1000.0".to_string())));
    assert_eq!(v.get_u64("b"), None);
    assert_eq!(v.get_u64("c"), None);
    assert_eq!(v.get_u64("a"), Some(7));
}

#[test]
fn members_are_found_by_name_and_kind() {
    let v = ok_value("{\"s\":\"t\",\"b\":true,\"l\":[1,2],\"n\":null}").unwrap();
    assert_eq!(v.get_str("s").map(String::as_str), Some("t"));
    assert_eq!(v.get_str("b"), None);
    assert_eq!(v.get_bool("b"), Some(true));
    assert_eq!(v.get_arr("l").map(Vec::len), Some(2));
    assert_eq!(v.get("n"), Some(&Json::Null));
    assert_eq!(v.get("x"), None);
    assert_eq!(Json::text("t").get("s"), None);
}

#[test]
fn a_value_is_written_with_its_members_in_order_of_name() {
    let v = Json::object()
        .with("z", Json::Num(Num::Neg(-1)))
        .with("a", Json::array(vec![Json::Bool(true), Json::Null]))
        .with("m", Json::Num(Num::Float("1.50".to_string())));
    assert_eq!(v.render(), "{\"a\":[true,null],\"m\":1.5,\"z\":-1}");
    assert_eq!(v.copied(), v);
    assert_eq!(
        Json::object().with("k", Json::text("v")).render_pretty(),
        "{\n  \"k\": \"v\"\n}"
    );
    assert_eq!(Json::text_or_null(&None).render(), "null");
    assert_eq!(Json::text_or_null(&Some("x".to_string())).render(), "\"x\"");
}

#[test]
fn a_flat_object_reads_back() {
    let v = Json::object().with("b", Json::text("\u{1f600}\n")).with("a", Json::Bool(false));
    let back = ok_value(&v.render()).unwrap();
    assert_eq!(back.get_str("b"), v.get_str("b"));
    assert_eq!(back.get_bool("a"), Some(false));
}

#[test]
fn a_map_keeps_one_value_for_a_key() {
    let mut m: StrMap<u64> = StrMap::new();
    m.insert("a".to_string(), 1);
    m.insert("b".to_string(), 2);
    m.insert("a".to_string(), 3);
    assert_eq!(m.get("a"), Some(&3));
    assert_eq!(m.get("c"), None);
    assert!(m.contains_key("b"));
    assert_eq!(m.keys(), vec!["a".to_string(), "b".to_string()]);
    assert_eq!(m.remove("a"), Some(3));
    assert_eq!(m.remove("a"), None);
    assert_eq!(m.keys(), vec!["b".to_string()]);
}
