//! Laws of the command layer, stated over the store model and the command
//! effect functions and proved once for all keys, values and clock readings.
//!
//! The keys and values quantified over here are ordinary tokens: one that
//! spells a modifier (`PX`, `EX`, `NX`, `XX`, in any case) is rejected by
//! SET's syntax check wherever it stands, so no round trip exists for it.

use vstd::prelude::*;
use crate::commands::{
    ex_tok, get_effect, get_name, nx_tok, ok_msg, px_tok, scan_modifiers, scan_modifiers_from,
    set_effect, set_name, set_syntax_from, set_syntax_ok, xx_tok, SetModifiers, SetScan,
};
use crate::types::{ReplyModel, StoredValue};
use crate::wire::{dec_value, is_dec_digits, lower_bytes, lower_byte};

verus! {

/// An ordinary token: not a modifier name in any case.
pub open spec fn not_modifier(s: Seq<u8>) -> bool {
    &&& lower_bytes(s) != px_tok()
    &&& lower_bytes(s) != ex_tok()
    &&& lower_bytes(s) != nx_tok()
    &&& lower_bytes(s) != xx_tok()
}

/// The modifier names lowercase to themselves.
proof fn lemma_lower_toks()
    ensures
        lower_bytes(px_tok()) == px_tok(),
        lower_bytes(ex_tok()) == ex_tok(),
        lower_bytes(nx_tok()) == nx_tok(),
        lower_bytes(xx_tok()) == xx_tok(),
{
    assert(lower_bytes(px_tok()) =~= px_tok());
    assert(lower_bytes(ex_tok()) =~= ex_tok());
    assert(lower_bytes(nx_tok()) =~= nx_tok());
    assert(lower_bytes(xx_tok()) =~= xx_tok());
}

/// A numeric token is an ordinary token.
proof fn lemma_digits_not_modifier(s: Seq<u8>)
    requires
        is_dec_digits(s),
    ensures
        not_modifier(s),
{
    assert(48 <= s[0] <= 57);
    assert(lower_bytes(s)[0] == lower_byte(s[0]));
}

/// For every key `k` and value `v`, `SET k v` with no time-to-live stores
/// `v`, replies `OK`, and a later `GET k` replies `v` at every clock
/// reading, leaving the store as the SET left it (round trip).
pub proof fn lemma_set_get_round_trip(
    m: Map<Seq<u8>, StoredValue>,
    now1: u64,
    now2: u64,
    k: Seq<u8>,
    v: Seq<u8>,
)
    requires
        not_modifier(k),
        not_modifier(v),
    ensures
        ({
            let e1 = set_effect(m, now1, seq![set_name(), k, v]);
            let e2 = get_effect(e1.0, now2, seq![get_name(), k]);
            &&& e1.1 == ReplyModel::Simple(ok_msg())
            &&& e1.0 == m.insert(k, (StoredValue { value: v, expiry: None, insert_time: now1 }))
            &&& e2.1 == ReplyModel::Bulk(v)
            &&& e2.0 == e1.0
        }),
{
    let t = seq![set_name(), k, v];
    assert(set_syntax_from(t, 3, false, false, false, false));
    assert(set_syntax_from(t, 2, false, false, false, false));
    assert(set_syntax_from(t, 1, false, false, false, false));
    assert(set_syntax_ok(t));
    assert(scan_modifiers(t) == SetScan::Accepted(
        (SetModifiers { expiry: None, only_if_new: false, only_if_exists: false }),
    ));
}

/// For every key `k`, value `v` and positive time-to-live (given to `PX` as
/// the digit token `d` denoting `ttl` milliseconds): `SET k v PX d` stores
/// `v` and replies `OK`; a `GET k` strictly before `now1 + ttl` replies `v`
/// and changes nothing; a `GET k` at or past `now1 + ttl` evicts the key
/// and replies null bulk; and a `GET k` at any reading thereafter still
/// replies null bulk, the key staying absent.
pub proof fn lemma_set_px_expiry(
    m: Map<Seq<u8>, StoredValue>,
    now1: u64,
    d: Seq<u8>,
    ttl: u64,
    k: Seq<u8>,
    v: Seq<u8>,
    now2: u64,
    now3: u64,
    now4: u64,
)
    requires
        not_modifier(k),
        not_modifier(v),
        is_dec_digits(d),
        dec_value(d) == ttl,
        ttl > 0,
        now2 < now1 + ttl,
        now3 >= now1 + ttl,
    ensures
        ({
            let e1 = set_effect(m, now1, seq![set_name(), k, v, px_tok(), d]);
            let live = get_effect(e1.0, now2, seq![get_name(), k]);
            let dead = get_effect(e1.0, now3, seq![get_name(), k]);
            let after = get_effect(dead.0, now4, seq![get_name(), k]);
            &&& e1.1 == ReplyModel::Simple(ok_msg())
            &&& e1.0 == m.insert(
                k,
                (StoredValue { value: v, expiry: Some(ttl), insert_time: now1 }),
            )
            &&& live.1 == ReplyModel::Bulk(v)
            &&& live.0 == e1.0
            &&& dead.1 == ReplyModel::NullBulk
            &&& dead.0 == e1.0.remove(k)
            &&& !dead.0.contains_key(k)
            &&& after.1 == ReplyModel::NullBulk
            &&& after.0 == dead.0
        }),
{
    lemma_lower_toks();
    lemma_digits_not_modifier(d);
    let t = seq![set_name(), k, v, px_tok(), d];
    assert(set_syntax_from(t, 5, true, false, false, false));
    assert(set_syntax_from(t, 4, true, false, false, false));
    assert(set_syntax_from(t, 3, false, false, false, false));
    assert(set_syntax_from(t, 2, false, false, false, false));
    assert(set_syntax_from(t, 1, false, false, false, false));
    assert(set_syntax_ok(t));
    assert(px_tok() != ex_tok()) by {
        assert(px_tok()[0] == 112 && ex_tok()[0] == 101);
    }
    let px_mods = SetModifiers { expiry: Some(ttl), only_if_new: false, only_if_exists: false };
    assert(scan_modifiers_from(t, 5, px_mods) == SetScan::Accepted(px_mods));
    assert(scan_modifiers(t) == SetScan::Accepted(px_mods));
}

/// For every key `k` first absent from the store: `SET k v NX` stores `v`,
/// and a following `SET k v2 NX` writes nothing, replies null bulk, and
/// leaves the stored value `v`.
pub proof fn lemma_set_nx_keeps_first(
    m: Map<Seq<u8>, StoredValue>,
    now1: u64,
    now2: u64,
    k: Seq<u8>,
    v: Seq<u8>,
    v2: Seq<u8>,
)
    requires
        not_modifier(k),
        not_modifier(v),
        not_modifier(v2),
        !m.contains_key(k),
    ensures
        ({
            let e1 = set_effect(m, now1, seq![set_name(), k, v, nx_tok()]);
            let e2 = set_effect(e1.0, now2, seq![set_name(), k, v2, nx_tok()]);
            &&& e1.1 == ReplyModel::Simple(ok_msg())
            &&& e2.1 == ReplyModel::NullBulk
            &&& e2.0 == e1.0
            &&& e2.0[k].value == v
        }),
{
    lemma_lower_toks();
    let nx_mods = SetModifiers { expiry: None, only_if_new: true, only_if_exists: false };
    let t1 = seq![set_name(), k, v, nx_tok()];
    assert(set_syntax_from(t1, 4, false, false, true, false));
    assert(set_syntax_from(t1, 3, false, false, false, false));
    assert(set_syntax_from(t1, 2, false, false, false, false));
    assert(set_syntax_from(t1, 1, false, false, false, false));
    assert(set_syntax_ok(t1));
    assert(scan_modifiers_from(t1, 4, nx_mods) == SetScan::Accepted(nx_mods));
    assert(scan_modifiers(t1) == SetScan::Accepted(nx_mods));
    let t2 = seq![set_name(), k, v2, nx_tok()];
    assert(set_syntax_from(t2, 4, false, false, true, false));
    assert(set_syntax_from(t2, 3, false, false, false, false));
    assert(set_syntax_from(t2, 2, false, false, false, false));
    assert(set_syntax_from(t2, 1, false, false, false, false));
    assert(set_syntax_ok(t2));
    assert(scan_modifiers_from(t2, 4, nx_mods) == SetScan::Accepted(nx_mods));
    assert(scan_modifiers(t2) == SetScan::Accepted(nx_mods));
}

/// For every key `k` first absent from the store: `SET k v XX` writes
/// nothing and replies null bulk; once `SET k v` has stored `v`, a
/// following `SET k v2 XX` overwrites to `v2` and replies `OK`.
pub proof fn lemma_set_xx_needs_existing(
    m: Map<Seq<u8>, StoredValue>,
    now1: u64,
    now2: u64,
    now3: u64,
    k: Seq<u8>,
    v: Seq<u8>,
    v2: Seq<u8>,
)
    requires
        not_modifier(k),
        not_modifier(v),
        not_modifier(v2),
        !m.contains_key(k),
    ensures
        ({
            let e1 = set_effect(m, now1, seq![set_name(), k, v, xx_tok()]);
            let e2 = set_effect(m, now2, seq![set_name(), k, v]);
            let e3 = set_effect(e2.0, now3, seq![set_name(), k, v2, xx_tok()]);
            &&& e1.1 == ReplyModel::NullBulk
            &&& e1.0 == m
            &&& e2.1 == ReplyModel::Simple(ok_msg())
            &&& e3.1 == ReplyModel::Simple(ok_msg())
            &&& e3.0[k].value == v2
            &&& e3.0[k].insert_time == now3
        }),
{
    lemma_lower_toks();
    let xx_mods = SetModifiers { expiry: None, only_if_new: false, only_if_exists: true };
    let no_mods = SetModifiers { expiry: None, only_if_new: false, only_if_exists: false };
    let t1 = seq![set_name(), k, v, xx_tok()];
    assert(set_syntax_from(t1, 4, false, false, false, true));
    assert(set_syntax_from(t1, 3, false, false, false, false));
    assert(set_syntax_from(t1, 2, false, false, false, false));
    assert(set_syntax_from(t1, 1, false, false, false, false));
    assert(set_syntax_ok(t1));
    assert(scan_modifiers_from(t1, 4, xx_mods) == SetScan::Accepted(xx_mods));
    assert(scan_modifiers(t1) == SetScan::Accepted(xx_mods));
    let t2 = seq![set_name(), k, v];
    assert(set_syntax_from(t2, 3, false, false, false, false));
    assert(set_syntax_from(t2, 2, false, false, false, false));
    assert(set_syntax_from(t2, 1, false, false, false, false));
    assert(set_syntax_ok(t2));
    assert(scan_modifiers(t2) == SetScan::Accepted(no_mods));
    let t3 = seq![set_name(), k, v2, xx_tok()];
    assert(set_syntax_from(t3, 4, false, false, false, true));
    assert(set_syntax_from(t3, 3, false, false, false, false));
    assert(set_syntax_from(t3, 2, false, false, false, false));
    assert(set_syntax_from(t3, 1, false, false, false, false));
    assert(set_syntax_ok(t3));
    assert(scan_modifiers_from(t3, 4, xx_mods) == SetScan::Accepted(xx_mods));
    assert(scan_modifiers(t3) == SetScan::Accepted(xx_mods));
}

/// For every key `k`, value `v` and numeric tokens `a`, `b`: `SET k v PX a
/// EX b` is rejected as a syntax error (`PX` and `EX` are mutually
/// exclusive) and the store is unchanged.
pub proof fn lemma_set_px_ex_rejected(
    m: Map<Seq<u8>, StoredValue>,
    now: u64,
    k: Seq<u8>,
    v: Seq<u8>,
    a: Seq<u8>,
    b: Seq<u8>,
)
    requires
        not_modifier(k),
        not_modifier(v),
        is_dec_digits(a),
        is_dec_digits(b),
    ensures
        set_effect(m, now, seq![set_name(), k, v, px_tok(), a, ex_tok(), b]) == (
            m,
            ReplyModel::Error(crate::commands::syntax_msg()),
        ),
{
    lemma_lower_toks();
    lemma_digits_not_modifier(a);
    lemma_digits_not_modifier(b);
    let t = seq![set_name(), k, v, px_tok(), a, ex_tok(), b];
    assert(ex_tok() != px_tok()) by {
        assert(px_tok()[0] == 112 && ex_tok()[0] == 101);
    }
    assert(!set_syntax_from(t, 5, true, false, false, false));
    assert(!set_syntax_from(t, 4, true, false, false, false));
    assert(!set_syntax_from(t, 3, false, false, false, false));
    assert(!set_syntax_from(t, 2, false, false, false, false));
    assert(!set_syntax_from(t, 1, false, false, false, false));
    assert(!set_syntax_ok(t));
}

} // verus!
