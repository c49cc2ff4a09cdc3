use minikv::commands::process_request;
use minikv::store::Store;

fn request(store: &mut Store, now: u64, input: &[u8]) -> Vec<u8> {
    process_request(store, now, &input.to_vec()).expect("well-formed frame")
}

#[test]
fn ping_replies_pong() {
    let mut store = Store::new();
    let out = request(&mut store, 0, b"*1\r\n$4\r\nPING\r\n");
    assert_eq!(out, b"+PONG\r\n".to_vec());
}

#[test]
fn echo_replies_argument() {
    let mut store = Store::new();
    let out = request(&mut store, 0, b"*2\r\n$4\r\nECHO\r\n$5\r\nhello\r\n");
    assert_eq!(out, b"+hello\r\n".to_vec());
}

#[test]
fn set_then_get_round_trip() {
    let mut store = Store::new();
    let out = request(&mut store, 0, b"*3\r\n$3\r\nSET\r\n$3\r\nfoo\r\n$3\r\nbar\r\n");
    assert_eq!(out, b"+OK\r\n".to_vec());
    let out = request(&mut store, 0, b"*2\r\n$3\r\nGET\r\n$3\r\nfoo\r\n");
    assert_eq!(out, b"$3\r\nbar\r\n".to_vec());
}

#[test]
fn get_never_set_key_is_null() {
    let mut store = Store::new();
    let out = request(&mut store, 0, b"*2\r\n$3\r\nGET\r\n$7\r\nmissing\r\n");
    assert_eq!(out, b"$-1\r\n".to_vec());
}

#[test]
fn get_missing_argument_is_arity_error() {
    let mut store = Store::new();
    let out = request(&mut store, 0, b"*2\r\n$3\r\nGET\r\n");
    assert_eq!(
        out,
        b"-ERR wrong number of arguments for 'GET' command\r\n".to_vec()
    );
}

#[test]
fn frame_without_array_marker_is_protocol_error() {
    let mut store = Store::new();
    let r = process_request(&mut store, 0, &b"PING\r\n".to_vec());
    assert!(r.is_err());
}

#[test]
fn empty_input_is_protocol_error() {
    let mut store = Store::new();
    let r = process_request(&mut store, 0, &Vec::new());
    assert!(r.is_err());
}

#[test]
fn frame_with_no_tokens_is_protocol_error() {
    let mut store = Store::new();
    let r = process_request(&mut store, 0, &b"*0\r\n".to_vec());
    assert!(r.is_err());
}

#[test]
fn unknown_command_is_error_reply() {
    let mut store = Store::new();
    let out = request(&mut store, 0, b"*1\r\n$4\r\nBLAH\r\n");
    assert_eq!(
        out,
        b"-ERR unknown command probably not implemented yet\r\n".to_vec()
    );
}

#[test]
fn command_name_is_case_insensitive() {
    let mut store = Store::new();
    let out = request(&mut store, 0, b"*1\r\n$4\r\npInG\r\n");
    assert_eq!(out, b"+PONG\r\n".to_vec());
}

#[test]
fn mixed_case_keys_and_values_round_trip_byte_for_byte() {
    let mut store = Store::new();
    let out = request(&mut store, 0, b"*3\r\n$3\r\nSET\r\n$3\r\nKey\r\n$5\r\nVaLuE\r\n");
    assert_eq!(out, b"+OK\r\n".to_vec());
    let out = request(&mut store, 0, b"*2\r\n$3\r\nGET\r\n$3\r\nKey\r\n");
    assert_eq!(out, b"$5\r\nVaLuE\r\n".to_vec());
    let out = request(&mut store, 0, b"*2\r\n$3\r\nGET\r\n$3\r\nKEY\r\n");
    assert_eq!(out, b"$-1\r\n".to_vec());
}

#[test]
fn ping_with_argument_echoes_it() {
    let mut store = Store::new();
    let out = request(&mut store, 0, b"*2\r\n$4\r\nPING\r\n$2\r\nhi\r\n");
    assert_eq!(out, b"+hi\r\n".to_vec());
}

#[test]
fn set_with_px_and_ex_is_syntax_error_and_store_unchanged() {
    let mut store = Store::new();
    let out = request(
        &mut store,
        0,
        b"*7\r\n$3\r\nSET\r\n$1\r\nk\r\n$1\r\nv\r\n$2\r\nPX\r\n$3\r\n100\r\n$2\r\nEX\r\n$1\r\n5\r\n",
    );
    assert_eq!(out, b"-ERR syntax error\r\n".to_vec());
    let out = request(&mut store, 0, b"*2\r\n$3\r\nGET\r\n$1\r\nk\r\n");
    assert_eq!(out, b"$-1\r\n".to_vec());
}
