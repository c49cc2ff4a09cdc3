use minikv::commands::{handle_echo, handle_get, handle_ping, handle_set};
use minikv::store::Store;
use minikv::types::Reply;
use minikv::wire::encode_reply;

fn toks(words: &[&[u8]]) -> Vec<Vec<u8>> {
    words.iter().map(|w| w.to_vec()).collect()
}

fn wire(reply: &Reply) -> Vec<u8> {
    encode_reply(reply)
}

#[test]
fn set_px_lifecycle_value_expires_and_is_evicted() {
    let mut store = Store::new();
    let set = toks(&[b"set", b"k", b"v", b"px", b"100"]);
    let r = handle_set(&mut store, 1000, &set);
    assert_eq!(wire(&r), b"+OK\r\n".to_vec());

    let get = toks(&[b"get", b"k"]);
    let r = handle_get(&mut store, 1050, &get);
    assert_eq!(wire(&r), b"$1\r\nv\r\n".to_vec());

    let r = handle_get(&mut store, 1100, &get);
    assert_eq!(wire(&r), b"$-1\r\n".to_vec());

    let r = handle_get(&mut store, 5000, &get);
    assert_eq!(wire(&r), b"$-1\r\n".to_vec());
    assert!(store.get_if_present(&b"k".to_vec()).is_none());
}

#[test]
fn set_ex_counts_seconds() {
    let mut store = Store::new();
    let set = toks(&[b"set", b"k", b"v", b"ex", b"5"]);
    let r = handle_set(&mut store, 0, &set);
    assert_eq!(wire(&r), b"+OK\r\n".to_vec());

    let get = toks(&[b"get", b"k"]);
    let r = handle_get(&mut store, 4999, &get);
    assert_eq!(wire(&r), b"$1\r\nv\r\n".to_vec());

    let r = handle_get(&mut store, 5000, &get);
    assert_eq!(wire(&r), b"$-1\r\n".to_vec());
}

#[test]
fn set_nx_keeps_the_first_value() {
    let mut store = Store::new();
    let r = handle_set(&mut store, 0, &toks(&[b"set", b"k", b"v", b"nx"]));
    assert_eq!(wire(&r), b"+OK\r\n".to_vec());

    let r = handle_set(&mut store, 1, &toks(&[b"set", b"k", b"v2", b"nx"]));
    assert_eq!(wire(&r), b"$-1\r\n".to_vec());

    let r = handle_get(&mut store, 2, &toks(&[b"get", b"k"]));
    assert_eq!(wire(&r), b"$1\r\nv\r\n".to_vec());
}

#[test]
fn set_xx_writes_only_when_present() {
    let mut store = Store::new();
    let r = handle_set(&mut store, 0, &toks(&[b"set", b"k", b"v", b"xx"]));
    assert_eq!(wire(&r), b"$-1\r\n".to_vec());
    assert!(store.get_if_present(&b"k".to_vec()).is_none());

    let r = handle_set(&mut store, 1, &toks(&[b"set", b"k", b"v"]));
    assert_eq!(wire(&r), b"+OK\r\n".to_vec());

    let r = handle_set(&mut store, 2, &toks(&[b"set", b"k", b"v2", b"xx"]));
    assert_eq!(wire(&r), b"+OK\r\n".to_vec());

    let r = handle_get(&mut store, 3, &toks(&[b"get", b"k"]));
    assert_eq!(wire(&r), b"$2\r\nv2\r\n".to_vec());
}

#[test]
fn set_overwrites_value_and_ttl() {
    let mut store = Store::new();
    handle_set(&mut store, 0, &toks(&[b"set", b"k", b"v", b"px", b"10"]));
    handle_set(&mut store, 5, &toks(&[b"set", b"k", b"v2"]));
    let r = handle_get(&mut store, 1000, &toks(&[b"get", b"k"]));
    assert_eq!(wire(&r), b"$2\r\nv2\r\n".to_vec());
}

#[test]
fn set_nx_treats_expired_but_unevicted_key_as_present() {
    let mut store = Store::new();
    handle_set(&mut store, 0, &toks(&[b"set", b"k", b"v", b"px", b"10"]));
    let r = handle_set(&mut store, 1000, &toks(&[b"set", b"k", b"v2", b"nx"]));
    assert_eq!(wire(&r), b"$-1\r\n".to_vec());
}

#[test]
fn set_modifier_before_value_position_is_syntax_error() {
    let mut store = Store::new();
    let r = handle_set(&mut store, 0, &toks(&[b"set", b"k", b"px", b"100"]));
    assert_eq!(wire(&r), b"-ERR syntax error\r\n".to_vec());
}

#[test]
fn set_px_as_final_token_is_syntax_error() {
    let mut store = Store::new();
    let r = handle_set(&mut store, 0, &toks(&[b"set", b"k", b"v", b"px"]));
    assert_eq!(wire(&r), b"-ERR syntax error\r\n".to_vec());
}

#[test]
fn set_unrecognized_modifier_is_syntax_error() {
    let mut store = Store::new();
    let r = handle_set(&mut store, 0, &toks(&[b"set", b"k", b"v", b"blah"]));
    assert_eq!(wire(&r), b"-ERR syntax error\r\n".to_vec());
}

#[test]
fn set_nx_and_xx_together_is_syntax_error() {
    let mut store = Store::new();
    let r = handle_set(&mut store, 0, &toks(&[b"set", b"k", b"v", b"nx", b"xx"]));
    assert_eq!(wire(&r), b"-ERR syntax error\r\n".to_vec());
}

#[test]
fn set_non_numeric_ttl_is_invalid_argument() {
    let mut store = Store::new();
    let r = handle_set(&mut store, 0, &toks(&[b"set", b"k", b"v", b"px", b"abc"]));
    assert_eq!(
        wire(&r),
        b"-ERR value is not an integer or out of range\r\n".to_vec()
    );
    assert!(store.get_if_present(&b"k".to_vec()).is_none());
}

#[test]
fn set_out_of_range_ttl_is_invalid_argument() {
    let mut store = Store::new();
    let r = handle_set(
        &mut store,
        0,
        &toks(&[b"set", b"k", b"v", b"px", b"99999999999999999999999999"]),
    );
    assert_eq!(
        wire(&r),
        b"-ERR value is not an integer or out of range\r\n".to_vec()
    );
}

#[test]
fn set_with_too_few_tokens_is_arity_error() {
    let mut store = Store::new();
    let r = handle_set(&mut store, 0, &toks(&[b"set", b"k"]));
    assert_eq!(
        wire(&r),
        b"-ERR wrong number of arguments for 'SET' command\r\n".to_vec()
    );
}

#[test]
fn set_modifiers_are_case_insensitive() {
    let mut store = Store::new();
    let r = handle_set(&mut store, 0, &toks(&[b"set", b"k", b"v", b"PX", b"100", b"NX"]));
    assert_eq!(wire(&r), b"+OK\r\n".to_vec());
    let r = handle_get(&mut store, 50, &toks(&[b"get", b"k"]));
    assert_eq!(wire(&r), b"$1\r\nv\r\n".to_vec());
}

#[test]
fn ping_with_too_many_arguments_is_arity_error() {
    let r = handle_ping(&toks(&[b"ping", b"a", b"b"]));
    assert_eq!(
        wire(&r),
        b"-ERR wrong number of arguments for 'PING' command\r\n".to_vec()
    );
}

#[test]
fn echo_with_wrong_arity_is_arity_error() {
    let r = handle_echo(&toks(&[b"echo"]));
    assert_eq!(
        wire(&r),
        b"-ERR wrong number of arguments for 'ECHO' command\r\n".to_vec()
    );
    let r = handle_echo(&toks(&[b"echo", b"a", b"b"]));
    assert_eq!(
        wire(&r),
        b"-ERR wrong number of arguments for 'ECHO' command\r\n".to_vec()
    );
}
