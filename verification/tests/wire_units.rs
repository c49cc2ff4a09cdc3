use minikv::commands::check_set_command_syntax;
use minikv::store::Store;
use minikv::types::{Reply, ValueWithExpiry};
use minikv::wire::{encode_reply, parse_args, parse_u64, to_lower, u64_to_dec};

fn toks(words: &[&[u8]]) -> Vec<Vec<u8>> {
    words.iter().map(|w| w.to_vec()).collect()
}

#[test]
fn parse_args_extracts_bulk_string_tokens() {
    let tokens = parse_args(&b"*2\r\n$4\r\nECHO\r\n$2\r\nhi\r\n".to_vec());
    assert_eq!(tokens, toks(&[b"ECHO", b"hi"]));
}

#[test]
fn parse_args_on_empty_input_yields_no_tokens() {
    assert!(parse_args(&Vec::new()).is_empty());
}

#[test]
fn parse_args_ignores_lines_without_headers() {
    let tokens = parse_args(&b"hello\r\n*1\r\nworld\r\n$1\r\nx\r\n".to_vec());
    assert_eq!(tokens, toks(&[b"x"]));
}

#[test]
fn parse_args_dollar_header_without_following_line_yields_nothing() {
    assert!(parse_args(&b"*1\r\n$3".to_vec()).is_empty());
}

#[test]
fn parse_args_takes_token_line_verbatim() {
    let tokens = parse_args(&b"*1\r\n$2\r\nlonger-than-declared\r\n".to_vec());
    assert_eq!(tokens, toks(&[b"longer-than-declared"]));
}

#[test]
fn encode_simple_status() {
    let out = encode_reply(&Reply::Simple(b"OK".to_vec()));
    assert_eq!(out, b"+OK\r\n".to_vec());
}

#[test]
fn encode_error_reply() {
    let out = encode_reply(&Reply::Error(b"ERR syntax error".to_vec()));
    assert_eq!(out, b"-ERR syntax error\r\n".to_vec());
}

#[test]
fn encode_bulk_string_is_length_prefixed() {
    let out = encode_reply(&Reply::Bulk(b"hello world!".to_vec()));
    assert_eq!(out, b"$12\r\nhello world!\r\n".to_vec());
}

#[test]
fn encode_empty_bulk_string() {
    let out = encode_reply(&Reply::Bulk(Vec::new()));
    assert_eq!(out, b"$0\r\n\r\n".to_vec());
}

#[test]
fn encode_null_bulk() {
    let out = encode_reply(&Reply::NullBulk);
    assert_eq!(out, b"$-1\r\n".to_vec());
}

#[test]
fn u64_to_dec_formats_exactly() {
    assert_eq!(u64_to_dec(0), b"0".to_vec());
    assert_eq!(u64_to_dec(7), b"7".to_vec());
    assert_eq!(u64_to_dec(1234), b"1234".to_vec());
    assert_eq!(u64_to_dec(u64::MAX), b"18446744073709551615".to_vec());
}

#[test]
fn parse_u64_accepts_digits_only() {
    assert_eq!(parse_u64(&b"0".to_vec()), Some(0));
    assert_eq!(parse_u64(&b"123".to_vec()), Some(123));
    assert_eq!(parse_u64(&b"007".to_vec()), Some(7));
    assert_eq!(parse_u64(&b"18446744073709551615".to_vec()), Some(u64::MAX));
}

#[test]
fn parse_u64_rejects_malformed_and_overflow() {
    assert_eq!(parse_u64(&Vec::new()), None);
    assert_eq!(parse_u64(&b"12a".to_vec()), None);
    assert_eq!(parse_u64(&b"-1".to_vec()), None);
    assert_eq!(parse_u64(&b" 1".to_vec()), None);
    assert_eq!(parse_u64(&b"18446744073709551616".to_vec()), None);
}

#[test]
fn to_lower_folds_ascii_letters_only() {
    assert_eq!(to_lower(&b"PiNg-123!".to_vec()), b"ping-123!".to_vec());
}

#[test]
fn store_put_get_delete_cycle() {
    let mut store = Store::new();
    let key = b"alpha".to_vec();
    assert!(store.get_if_present(&key).is_none());

    store.put(
        key.clone(),
        ValueWithExpiry { value: b"one".to_vec(), expiry: None, insert_time: 3 },
    );
    let got = store.get_if_present(&key).expect("present after put");
    assert_eq!(got.value, b"one".to_vec());
    assert_eq!(got.expiry, None);
    assert_eq!(got.insert_time, 3);

    store.put(
        key.clone(),
        ValueWithExpiry { value: b"two".to_vec(), expiry: Some(9), insert_time: 4 },
    );
    let got = store.get_if_present(&key).expect("present after overwrite");
    assert_eq!(got.value, b"two".to_vec());
    assert_eq!(got.expiry, Some(9));

    store.delete(&key);
    assert!(store.get_if_present(&key).is_none());
    store.delete(&key);
    assert!(store.get_if_present(&key).is_none());
}

#[test]
fn store_lookup_does_not_evaluate_expiry() {
    let mut store = Store::new();
    let key = b"k".to_vec();
    store.put(
        key.clone(),
        ValueWithExpiry { value: b"v".to_vec(), expiry: Some(1), insert_time: 0 },
    );
    let got = store.get_if_present(&key).expect("still present");
    assert!(got.is_expired_at(1_000_000));
}

#[test]
fn check_set_command_syntax_accepts_valid_modifier_regions() {
    assert!(check_set_command_syntax(&toks(&[b"set", b"k", b"v"])));
    assert!(check_set_command_syntax(&toks(&[b"set", b"k", b"v", b"px", b"10"])));
    assert!(check_set_command_syntax(&toks(&[b"set", b"k", b"v", b"ex", b"5", b"nx"])));
    assert!(check_set_command_syntax(&toks(&[b"set", b"k", b"v", b"XX"])));
}

#[test]
fn check_set_command_syntax_rejects_conflicts_and_misplacements() {
    assert!(!check_set_command_syntax(&toks(&[
        b"set", b"k", b"v", b"px", b"10", b"ex", b"5"
    ])));
    assert!(!check_set_command_syntax(&toks(&[b"set", b"k", b"v", b"nx", b"xx"])));
    assert!(!check_set_command_syntax(&toks(&[b"set", b"px", b"v"])));
    assert!(!check_set_command_syntax(&toks(&[b"set", b"k", b"v", b"ex"])));
}
