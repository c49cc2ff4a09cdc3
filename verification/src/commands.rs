//! Command dispatch: PING, ECHO, SET (with PX/EX/NX/XX modifiers) and GET.
//!
//! Each handler is stateless across invocations: it validates the decoded
//! token sequence, reads or mutates the store as needed, and produces one
//! reply. No command is partially applied: either the full SET writes the
//! entry, or no write occurs.

use vstd::prelude::*;
use crate::store::{bytes_eq, Store};
use crate::types::{is_expired, Reply, ReplyModel, StoredValue, ValueWithExpiry};
use crate::wire::{
    dec_value, encode_reply, is_dec_digits, lower_bytes, parse_args, parse_u64, push_all,
    spec_encode_reply, spec_tokens, to_lower, STAR,
};

verus! {

/// The views of the decoded tokens.
pub open spec fn token_views(tokens: &Vec<Vec<u8>>) -> Seq<Seq<u8>> {
    tokens@.map_values(|t: Vec<u8>| t@)
}

// Command and modifier names, lowercased, as the dispatcher matches them.
pub open spec fn ping_name() -> Seq<u8> {
    seq![112u8, 105u8, 110u8, 103u8]
}

pub open spec fn echo_name() -> Seq<u8> {
    seq![101u8, 99u8, 104u8, 111u8]
}

pub open spec fn set_name() -> Seq<u8> {
    seq![115u8, 101u8, 116u8]
}

pub open spec fn get_name() -> Seq<u8> {
    seq![103u8, 101u8, 116u8]
}

pub open spec fn px_tok() -> Seq<u8> {
    seq![112u8, 120u8]
}

pub open spec fn ex_tok() -> Seq<u8> {
    seq![101u8, 120u8]
}

pub open spec fn nx_tok() -> Seq<u8> {
    seq![110u8, 120u8]
}

pub open spec fn xx_tok() -> Seq<u8> {
    seq![120u8, 120u8]
}

// Reply texts.
/// `PONG`
pub open spec fn pong_msg() -> Seq<u8> {
    seq![80u8, 79u8, 78u8, 71u8]
}

/// `OK`
pub open spec fn ok_msg() -> Seq<u8> {
    seq![79u8, 75u8]
}

/// `ERR wrong number of arguments for '`
pub open spec fn arity_prefix() -> Seq<u8> {
    seq![
        69u8, 82u8, 82u8, 32u8, 119u8, 114u8, 111u8, 110u8, 103u8, 32u8, 110u8, 117u8, 109u8,
        98u8, 101u8, 114u8, 32u8, 111u8, 102u8, 32u8, 97u8, 114u8, 103u8, 117u8, 109u8, 101u8,
        110u8, 116u8, 115u8, 32u8, 102u8, 111u8, 114u8, 32u8, 39u8,
    ]
}

/// `' command`
pub open spec fn arity_suffix() -> Seq<u8> {
    seq![39u8, 32u8, 99u8, 111u8, 109u8, 109u8, 97u8, 110u8, 100u8]
}

/// The wrong-arity error text for the command called `name`.
pub open spec fn arity_msg(name: Seq<u8>) -> Seq<u8> {
    arity_prefix() + name + arity_suffix()
}

/// `ERR syntax error`
pub open spec fn syntax_msg() -> Seq<u8> {
    seq![
        69u8, 82u8, 82u8, 32u8, 115u8, 121u8, 110u8, 116u8, 97u8, 120u8, 32u8, 101u8, 114u8,
        114u8, 111u8, 114u8,
    ]
}

/// `ERR value is not an integer or out of range`
pub open spec fn invalid_msg() -> Seq<u8> {
    seq![
        69u8, 82u8, 82u8, 32u8, 118u8, 97u8, 108u8, 117u8, 101u8, 32u8, 105u8, 115u8, 32u8,
        110u8, 111u8, 116u8, 32u8, 97u8, 110u8, 32u8, 105u8, 110u8, 116u8, 101u8, 103u8, 101u8,
        114u8, 32u8, 111u8, 114u8, 32u8, 111u8, 117u8, 116u8, 32u8, 111u8, 102u8, 32u8, 114u8,
        97u8, 110u8, 103u8, 101u8,
    ]
}

/// `ERR unknown command probably not implemented yet`
pub open spec fn unknown_msg() -> Seq<u8> {
    seq![
        69u8, 82u8, 82u8, 32u8, 117u8, 110u8, 107u8, 110u8, 111u8, 119u8, 110u8, 32u8, 99u8,
        111u8, 109u8, 109u8, 97u8, 110u8, 100u8, 32u8, 112u8, 114u8, 111u8, 98u8, 97u8, 98u8,
        108u8, 121u8, 32u8, 110u8, 111u8, 116u8, 32u8, 105u8, 109u8, 112u8, 108u8, 101u8, 109u8,
        101u8, 110u8, 116u8, 101u8, 100u8, 32u8, 121u8, 101u8, 116u8,
    ]
}

// PING, ECHO, SET, GET as they appear in arity error texts.
pub open spec fn ping_upper() -> Seq<u8> {
    seq![80u8, 73u8, 78u8, 71u8]
}

pub open spec fn echo_upper() -> Seq<u8> {
    seq![69u8, 67u8, 72u8, 79u8]
}

pub open spec fn set_upper() -> Seq<u8> {
    seq![83u8, 69u8, 84u8]
}

pub open spec fn get_upper() -> Seq<u8> {
    seq![71u8, 69u8, 84u8]
}

/// The modifiers accepted by SET after `key value`.
pub struct SetModifiers {
    /// Time-to-live in milliseconds, from `PX` (taken as given) or `EX`
    /// (seconds, scaled to milliseconds, saturating at `u64::MAX`).
    pub expiry: Option<u64>,
    /// `NX`: write only if the key is currently absent.
    pub only_if_new: bool,
    /// `XX`: write only if the key is currently present.
    pub only_if_exists: bool,
}

/// The outcome of scanning SET's modifier region.
pub enum SetScan {
    Accepted(SetModifiers),
    SyntaxError,
    InvalidArgument,
}

/// Seconds scaled to milliseconds, saturating at `u64::MAX`.
pub open spec fn secs_to_millis(n: u64) -> u64 {
    if n * 1000 > u64::MAX {
        u64::MAX
    } else {
        (n * 1000) as u64
    }
}

/// Whether SET's modifier region is syntactically valid, scanning from
/// position `i` with the given modifiers already seen. `PX` and `EX` are
/// mutually exclusive, as are `NX` and `XX`; `PX`/`EX` may not be the final
/// token; no modifier may appear before position 3. Every position of the
/// token sequence is inspected, so a key or value that spells a modifier is
/// itself rejected.
pub open spec fn set_syntax_from(
    t: Seq<Seq<u8>>,
    i: int,
    px_set: bool,
    ex_set: bool,
    nx_set: bool,
    xx_set: bool,
) -> bool
    decreases t.len() - i,
{
    if i < 0 || i >= t.len() {
        true
    } else {
        let w = lower_bytes(t[i]);
        if w == px_tok() {
            if i < 3 || i + 1 == t.len() || ex_set {
                false
            } else {
                set_syntax_from(t, i + 1, true, ex_set, nx_set, xx_set)
            }
        } else if w == ex_tok() {
            if i < 3 || i + 1 == t.len() || px_set {
                false
            } else {
                set_syntax_from(t, i + 1, px_set, true, nx_set, xx_set)
            }
        } else if w == xx_tok() {
            if i < 3 || nx_set {
                false
            } else {
                set_syntax_from(t, i + 1, px_set, ex_set, nx_set, true)
            }
        } else if w == nx_tok() {
            if i < 3 || xx_set {
                false
            } else {
                set_syntax_from(t, i + 1, px_set, ex_set, true, xx_set)
            }
        } else {
            set_syntax_from(t, i + 1, px_set, ex_set, nx_set, xx_set)
        }
    }
}

/// Whether a SET token sequence passes the modifier syntax check.
pub open spec fn set_syntax_ok(t: Seq<Seq<u8>>) -> bool {
    set_syntax_from(t, 0, false, false, false, false)
}

/// The modifiers denoted by the region of `t` from position `i` on, given
/// the modifiers `m` gathered so far. The token after `PX`/`EX` is consumed
/// as the numeric argument; a later `PX`/`EX` overrides an earlier one; an
/// unrecognized token is a syntax error; a non-numeric or out-of-range
/// `PX`/`EX` argument is an invalid-argument error.
pub open spec fn scan_modifiers_from(t: Seq<Seq<u8>>, i: int, m: SetModifiers) -> SetScan
    decreases t.len() - i,
{
    if i < 0 || i >= t.len() {
        SetScan::Accepted(m)
    } else {
        let w = lower_bytes(t[i]);
        if w == px_tok() || w == ex_tok() {
            if i + 1 >= t.len() {
                SetScan::SyntaxError
            } else if !is_dec_digits(t[i + 1]) || dec_value(t[i + 1]) > u64::MAX {
                SetScan::InvalidArgument
            } else {
                let n = dec_value(t[i + 1]) as u64;
                let ms = if w == px_tok() {
                    n
                } else {
                    secs_to_millis(n)
                };
                scan_modifiers_from(
                    t,
                    i + 2,
                    SetModifiers {
                        expiry: Some(ms),
                        only_if_new: m.only_if_new,
                        only_if_exists: m.only_if_exists,
                    },
                )
            }
        } else if w == nx_tok() {
            scan_modifiers_from(
                t,
                i + 1,
                SetModifiers {
                    expiry: m.expiry,
                    only_if_new: true,
                    only_if_exists: m.only_if_exists,
                },
            )
        } else if w == xx_tok() {
            scan_modifiers_from(
                t,
                i + 1,
                SetModifiers { expiry: m.expiry, only_if_new: m.only_if_new, only_if_exists: true },
            )
        } else {
            SetScan::SyntaxError
        }
    }
}

/// The modifiers of a SET token sequence: the scan starts after the
/// mandatory `key value` pair.
pub open spec fn scan_modifiers(t: Seq<Seq<u8>>) -> SetScan {
    scan_modifiers_from(
        t,
        3,
        SetModifiers { expiry: None, only_if_new: false, only_if_exists: false },
    )
}

/// PING's reply: `PONG` with no argument, the argument echoed with one,
/// a wrong-arity error with more.
pub open spec fn ping_reply(t: Seq<Seq<u8>>) -> ReplyModel {
    if t.len() > 2 {
        ReplyModel::Error(arity_msg(ping_upper()))
    } else if t.len() == 1 {
        ReplyModel::Simple(pong_msg())
    } else {
        ReplyModel::Simple(t[1])
    }
}

/// ECHO's reply: its single argument echoed, or a wrong-arity error.
pub open spec fn echo_reply(t: Seq<Seq<u8>>) -> ReplyModel {
    if t.len() != 2 {
        ReplyModel::Error(arity_msg(echo_upper()))
    } else {
        ReplyModel::Simple(t[1])
    }
}

/// GET's effect on the store and its reply. A present entry that is
/// logically expired is evicted and reads as absent; the presence check
/// itself is `get_if_present`, so the eviction is the only mutation.
pub open spec fn get_effect(m: Map<Seq<u8>, StoredValue>, now: u64, t: Seq<Seq<u8>>) -> (
    Map<Seq<u8>, StoredValue>,
    ReplyModel,
) {
    if t.len() != 2 {
        (m, ReplyModel::Error(arity_msg(get_upper())))
    } else if !m.contains_key(t[1]) {
        (m, ReplyModel::NullBulk)
    } else if is_expired(m[t[1]], now) {
        (m.remove(t[1]), ReplyModel::NullBulk)
    } else {
        (m, ReplyModel::Bulk(m[t[1]].value))
    }
}

/// SET's effect on the store and its reply. All checks precede any
/// mutation; the NX/XX presence check does not itself apply lazy expiry.
pub open spec fn set_effect(m: Map<Seq<u8>, StoredValue>, now: u64, t: Seq<Seq<u8>>) -> (
    Map<Seq<u8>, StoredValue>,
    ReplyModel,
) {
    if t.len() < 3 {
        (m, ReplyModel::Error(arity_msg(set_upper())))
    } else if !set_syntax_ok(t) {
        (m, ReplyModel::Error(syntax_msg()))
    } else {
        match scan_modifiers(t) {
            SetScan::SyntaxError => (m, ReplyModel::Error(syntax_msg())),
            SetScan::InvalidArgument => (m, ReplyModel::Error(invalid_msg())),
            SetScan::Accepted(mods) => {
                let present = m.contains_key(t[1]);
                if mods.only_if_exists && !present {
                    (m, ReplyModel::NullBulk)
                } else if mods.only_if_new && present {
                    (m, ReplyModel::NullBulk)
                } else {
                    (
                        m.insert(
                            t[1],
                            StoredValue { value: t[2], expiry: mods.expiry, insert_time: now },
                        ),
                        ReplyModel::Simple(ok_msg()),
                    )
                }
            },
        }
    }
}

/// One command's effect: dispatch on the lowercased first token.
pub open spec fn dispatch_effect(m: Map<Seq<u8>, StoredValue>, now: u64, t: Seq<Seq<u8>>) -> (
    Map<Seq<u8>, StoredValue>,
    ReplyModel,
)
    recommends
        t.len() >= 1,
{
    let name = lower_bytes(t[0]);
    if name == ping_name() {
        (m, ping_reply(t))
    } else if name == echo_name() {
        (m, echo_reply(t))
    } else if name == set_name() {
        set_effect(m, now, t)
    } else if name == get_name() {
        get_effect(m, now, t)
    } else {
        (m, ReplyModel::Error(unknown_msg()))
    }
}

/// One framed request's effect: `None` is a protocol violation (the buffer
/// does not begin with the array marker, or decodes to no tokens at all),
/// on which the connection is to be torn down; otherwise the new store
/// contents and the encoded reply bytes.
pub open spec fn spec_process(m: Map<Seq<u8>, StoredValue>, now: u64, input: Seq<u8>) -> Option<
    (Map<Seq<u8>, StoredValue>, Seq<u8>),
> {
    if input.len() == 0 || input[0] != STAR {
        None
    } else {
        let t = spec_tokens(input);
        if t.len() == 0 {
            None
        } else {
            let e = dispatch_effect(m, now, t);
            Some((e.0, spec_encode_reply(e.1)))
        }
    }
}

/// A malformed frame at the decode boundary; connection-fatal.
#[derive(Debug)]
pub struct ProtocolError;

fn lower_eq(t: &Vec<u8>, pat: &Vec<u8>) -> (r: bool)
    ensures
        r == (lower_bytes(t@) == pat@),
{
    let lt = to_lower(t);
    bytes_eq(&lt, pat)
}

fn tok_eq2(t: &Vec<u8>, a: u8, b: u8) -> (r: bool)
    ensures
        r == (lower_bytes(t@) == seq![a, b]),
{
    let lt = to_lower(t);
    if lt.len() == 2 {
        let r = lt[0] == a && lt[1] == b;
        proof {
            if r {
                assert(lower_bytes(t@) =~= seq![a, b]);
            } else {
                if lower_bytes(t@) == seq![a, b] {
                    assert(lt@[0] == a && lt@[1] == b);
                }
            }
        }
        r
    } else {
        false
    }
}

fn arity_error(name: &Vec<u8>) -> (r: Reply)
    ensures
        r@ == ReplyModel::Error(arity_msg(name@)),
{
    let mut msg: Vec<u8> = vec![
        69u8, 82u8, 82u8, 32u8, 119u8, 114u8, 111u8, 110u8, 103u8, 32u8, 110u8, 117u8, 109u8,
        98u8, 101u8, 114u8, 32u8, 111u8, 102u8, 32u8, 97u8, 114u8, 103u8, 117u8, 109u8, 101u8,
        110u8, 116u8, 115u8, 32u8, 102u8, 111u8, 114u8, 32u8, 39u8,
    ];
    proof {
        assert(msg@ =~= arity_prefix());
    }
    push_all(&mut msg, name);
    let suffix: Vec<u8> = vec![39u8, 32u8, 99u8, 111u8, 109u8, 109u8, 97u8, 110u8, 100u8];
    proof {
        assert(suffix@ =~= arity_suffix());
    }
    push_all(&mut msg, &suffix);
    Reply::Error(msg)
}

fn syntax_error() -> (r: Reply)
    ensures
        r@ == ReplyModel::Error(syntax_msg()),
{
    let msg: Vec<u8> = vec![
        69u8, 82u8, 82u8, 32u8, 115u8, 121u8, 110u8, 116u8, 97u8, 120u8, 32u8, 101u8, 114u8,
        114u8, 111u8, 114u8,
    ];
    proof {
        assert(msg@ =~= syntax_msg());
    }
    Reply::Error(msg)
}

fn invalid_argument_error() -> (r: Reply)
    ensures
        r@ == ReplyModel::Error(invalid_msg()),
{
    let msg: Vec<u8> = vec![
        69u8, 82u8, 82u8, 32u8, 118u8, 97u8, 108u8, 117u8, 101u8, 32u8, 105u8, 115u8, 32u8,
        110u8, 111u8, 116u8, 32u8, 97u8, 110u8, 32u8, 105u8, 110u8, 116u8, 101u8, 103u8, 101u8,
        114u8, 32u8, 111u8, 114u8, 32u8, 111u8, 117u8, 116u8, 32u8, 111u8, 102u8, 32u8, 114u8,
        97u8, 110u8, 103u8, 101u8,
    ];
    proof {
        assert(msg@ =~= invalid_msg());
    }
    Reply::Error(msg)
}

fn unknown_command_error() -> (r: Reply)
    ensures
        r@ == ReplyModel::Error(unknown_msg()),
{
    let msg: Vec<u8> = vec![
        69u8, 82u8, 82u8, 32u8, 117u8, 110u8, 107u8, 110u8, 111u8, 119u8, 110u8, 32u8, 99u8,
        111u8, 109u8, 109u8, 97u8, 110u8, 100u8, 32u8, 112u8, 114u8, 111u8, 98u8, 97u8, 98u8,
        108u8, 121u8, 32u8, 110u8, 111u8, 116u8, 32u8, 105u8, 109u8, 112u8, 108u8, 101u8, 109u8,
        101u8, 110u8, 116u8, 101u8, 100u8, 32u8, 121u8, 101u8, 116u8,
    ];
    proof {
        assert(msg@ =~= unknown_msg());
    }
    Reply::Error(msg)
}

fn copy_bytes(s: &Vec<u8>) -> (r: Vec<u8>)
    ensures
        r@ == s@,
{
    let mut r: Vec<u8> = Vec::new();
    push_all(&mut r, s);
    proof {
        assert(r@ =~= s@);
    }
    r
}

/// Handles PING: arity 0 or 1 extra argument; `PONG` or the echoed
/// argument as a simple status, a wrong-arity error otherwise.
pub fn handle_ping(tokens: &Vec<Vec<u8>>) -> (r: Reply)
    requires
        tokens@.len() >= 1,
    ensures
        r@ == ping_reply(token_views(tokens)),
{
    if tokens.len() > 2 {
        let name: Vec<u8> = vec![80u8, 73u8, 78u8, 71u8];
        proof {
            assert(name@ =~= ping_upper());
        }
        arity_error(&name)
    } else if tokens.len() == 1 {
        let msg: Vec<u8> = vec![80u8, 79u8, 78u8, 71u8];
        proof {
            assert(msg@ =~= pong_msg());
        }
        Reply::Simple(msg)
    } else {
        Reply::Simple(copy_bytes(&tokens[1]))
    }
}

/// Handles ECHO: exactly one argument, echoed as a simple status.
pub fn handle_echo(tokens: &Vec<Vec<u8>>) -> (r: Reply)
    ensures
        r@ == echo_reply(token_views(tokens)),
{
    if tokens.len() != 2 {
        let name: Vec<u8> = vec![69u8, 67u8, 72u8, 79u8];
        proof {
            assert(name@ =~= echo_upper());
        }
        arity_error(&name)
    } else {
        Reply::Simple(copy_bytes(&tokens[1]))
    }
}

/// Checks SET's modifier syntax before any mutation, exactly as
/// [`set_syntax_ok`] states it.
pub fn check_set_command_syntax(commands: &Vec<Vec<u8>>) -> (r: bool)
    ensures
        r == set_syntax_ok(token_views(commands)),
{
    let ghost t = token_views(commands);
    let mut px_set = false;
    let mut ex_set = false;
    let mut xx_set = false;
    let mut nx_set = false;
    let mut i: usize = 0;
    while i < commands.len()
        invariant
            i <= commands@.len(),
            t == token_views(commands),
            set_syntax_ok(t) == set_syntax_from(t, i as int, px_set, ex_set, nx_set, xx_set),
        decreases commands@.len() - i,
    {
        proof {
            assert(t[i as int] == commands@[i as int]@);
        }
        let w = &commands[i];
        if tok_eq2(w, 112, 120) {
            if i < 3 || i + 1 == commands.len() || ex_set {
                return false;
            }
            px_set = true;
        } else if tok_eq2(w, 101, 120) {
            if i < 3 || i + 1 == commands.len() || px_set {
                return false;
            }
            ex_set = true;
        } else if tok_eq2(w, 120, 120) {
            if i < 3 || nx_set {
                return false;
            }
            xx_set = true;
        } else if tok_eq2(w, 110, 120) {
            if i < 3 || xx_set {
                return false;
            }
            nx_set = true;
        }
        i += 1;
    }
    true
}

/// Handles SET: validates syntax, gathers the PX/EX/NX/XX modifiers,
/// applies the NX/XX condition, and writes the entry stamped with `now`.
pub fn handle_set(store: &mut Store, now: u64, tokens: &Vec<Vec<u8>>) -> (r: Reply)
    requires
        old(store).wf(),
    ensures
        final(store).wf(),
        final(store)@ == set_effect(old(store)@, now, token_views(tokens)).0,
        r@ == set_effect(old(store)@, now, token_views(tokens)).1,
{
    let ghost t = token_views(tokens);
    if tokens.len() < 3 {
        let name: Vec<u8> = vec![83u8, 69u8, 84u8];
        proof {
            assert(name@ =~= set_upper());
        }
        return arity_error(&name);
    }
    if !check_set_command_syntax(tokens) {
        return syntax_error();
    }
    let mut expiry: Option<u64> = None;
    let mut only_if_new = false;
    let mut only_if_exists = false;
    let mut i: usize = 3;
    while i < tokens.len()
        invariant
            3 <= i <= tokens@.len(),
            t == token_views(tokens),
            store.wf(),
            store@ == old(store)@,
            set_syntax_ok(t),
            scan_modifiers(t) == scan_modifiers_from(
                t,
                i as int,
                (SetModifiers { expiry, only_if_new, only_if_exists }),
            ),
        decreases tokens@.len() - i,
    {
        proof {
            assert(t[i as int] == tokens@[i as int]@);
        }
        let w = &tokens[i];
        let is_px = tok_eq2(w, 112, 120);
        let is_ex = tok_eq2(w, 101, 120);
        if is_px || is_ex {
            if i + 1 >= tokens.len() {
                return syntax_error();
            }
            proof {
                assert(t[i + 1] == tokens@[i + 1]@);
            }
            match parse_u64(&tokens[i + 1]) {
                None => {
                    return invalid_argument_error();
                },
                Some(n) => {
                    let ms = if is_px {
                        n
                    } else if n > u64::MAX / 1000 {
                        u64::MAX
                    } else {
                        n * 1000
                    };
                    proof {
                        if !is_px {
                            assert(ms == secs_to_millis(n));
                        }
                    }
                    expiry = Some(ms);
                    i += 2;
                },
            }
        } else if tok_eq2(w, 110, 120) {
            only_if_new = true;
            i += 1;
        } else if tok_eq2(w, 120, 120) {
            only_if_exists = true;
            i += 1;
        } else {
            return syntax_error();
        }
    }
    let key = &tokens[1];
    proof {
        assert(t[1] == tokens@[1]@);
        assert(t[2] == tokens@[2]@);
    }
    let data = store.get_if_present(key);
    if only_if_exists && data.is_none() {
        return Reply::NullBulk;
    }
    if only_if_new && data.is_some() {
        return Reply::NullBulk;
    }
    let value = ValueWithExpiry { value: copy_bytes(&tokens[2]), expiry, insert_time: now };
    store.put(copy_bytes(key), value);
    let msg: Vec<u8> = vec![79u8, 75u8];
    proof {
        assert(msg@ =~= ok_msg());
    }
    Reply::Simple(msg)
}

/// Handles GET: looks the key up without expiry filtering, then evicts and
/// reads as absent if the entry is logically expired.
pub fn handle_get(store: &mut Store, now: u64, tokens: &Vec<Vec<u8>>) -> (r: Reply)
    requires
        old(store).wf(),
    ensures
        final(store).wf(),
        final(store)@ == get_effect(old(store)@, now, token_views(tokens)).0,
        r@ == get_effect(old(store)@, now, token_views(tokens)).1,
{
    let ghost t = token_views(tokens);
    if tokens.len() != 2 {
        let name: Vec<u8> = vec![71u8, 69u8, 84u8];
        proof {
            assert(name@ =~= get_upper());
        }
        return arity_error(&name);
    }
    proof {
        assert(t[1] == tokens@[1]@);
    }
    let key = &tokens[1];
    match store.get_if_present(key) {
        None => Reply::NullBulk,
        Some(v) => {
            if v.is_expired_at(now) {
                store.delete(key);
                Reply::NullBulk
            } else {
                Reply::Bulk(v.value)
            }
        },
    }
}

/// Handles one framed request buffer against the store at clock reading
/// `now`: decodes it, dispatches on the first token, and returns the
/// encoded reply, or `Err` on a protocol violation (the connection's driver
/// is then to tear the connection down; the store is untouched).
pub fn process_request(store: &mut Store, now: u64, input: &Vec<u8>) -> (r: Result<
    Vec<u8>,
    ProtocolError,
>)
    requires
        old(store).wf(),
    ensures
        final(store).wf(),
        match r {
            Ok(out) => spec_process(old(store)@, now, input@) == Some((final(store)@, out@)),
            Err(_) => spec_process(old(store)@, now, input@) is None && final(store)@ == old(
                store,
            )@,
        },
{
    if input.len() == 0 {
        return Err(ProtocolError);
    }
    if input[0] != STAR {
        return Err(ProtocolError);
    }
    let tokens = parse_args(input);
    let ghost t = token_views(&tokens);
    if tokens.len() == 0 {
        return Err(ProtocolError);
    }
    proof {
        assert(t[0] == tokens@[0]@);
    }
    let name = &tokens[0];
    let ping_pat: Vec<u8> = vec![112u8, 105u8, 110u8, 103u8];
    let echo_pat: Vec<u8> = vec![101u8, 99u8, 104u8, 111u8];
    let set_pat: Vec<u8> = vec![115u8, 101u8, 116u8];
    let get_pat: Vec<u8> = vec![103u8, 101u8, 116u8];
    proof {
        assert(ping_pat@ =~= ping_name());
        assert(echo_pat@ =~= echo_name());
        assert(set_pat@ =~= set_name());
        assert(get_pat@ =~= get_name());
    }
    let reply = if lower_eq(name, &ping_pat) {
        handle_ping(&tokens)
    } else if lower_eq(name, &echo_pat) {
        handle_echo(&tokens)
    } else if lower_eq(name, &set_pat) {
        handle_set(store, now, &tokens)
    } else if lower_eq(name, &get_pat) {
        handle_get(store, now, &tokens)
    } else {
        unknown_command_error()
    };
    Ok(encode_reply(&reply))
}

} // verus!
