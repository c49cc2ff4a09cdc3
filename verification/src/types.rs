//! Core data types: stored values with optional time-to-live, and replies.
//!
//! Time is modelled as a monotonic clock reading in milliseconds. A stored
//! value remembers the clock reading at which it was written and, optionally,
//! a time-to-live in milliseconds; it is logically expired once the current
//! reading is at or past `insert_time + ttl`. Expiry is lazy: nothing here
//! removes a value, the command layer does that on read.

use vstd::prelude::*;

verus! {

/// One key's payload: the value bytes, the optional time-to-live in
/// milliseconds, and the monotonic clock reading (milliseconds) taken when
/// the value was written.
pub struct ValueWithExpiry {
    pub value: Vec<u8>,
    pub expiry: Option<u64>,
    pub insert_time: u64,
}

/// The mathematical model of a stored value.
pub struct StoredValue {
    pub value: Seq<u8>,
    pub expiry: Option<u64>,
    pub insert_time: u64,
}

impl View for ValueWithExpiry {
    type V = StoredValue;

    open spec fn view(&self) -> StoredValue {
        StoredValue { value: self.value@, expiry: self.expiry, insert_time: self.insert_time }
    }
}

impl Clone for ValueWithExpiry {
    fn clone(&self) -> (r: Self)
        ensures
            r@ == self@,
    {
        ValueWithExpiry {
            value: self.value.clone(),
            expiry: self.expiry,
            insert_time: self.insert_time,
        }
    }
}

/// A value is logically expired once the current monotonic reading `now`
/// is at or past `insert_time + ttl`. A value without a ttl never expires.
pub open spec fn is_expired(v: StoredValue, now: u64) -> bool {
    match v.expiry {
        Some(ttl) => v.insert_time + ttl <= now,
        None => false,
    }
}

impl ValueWithExpiry {
    /// Decides logical expiry against the clock reading `now`.
    pub fn is_expired_at(&self, now: u64) -> (r: bool)
        ensures
            r == is_expired(self@, now),
    {
        match self.expiry {
            Some(ttl) => now >= self.insert_time && now - self.insert_time >= ttl,
            None => false,
        }
    }
}

/// One protocol reply, before encoding to wire bytes.
pub enum Reply {
    /// Single-line `+` status.
    Simple(Vec<u8>),
    /// Single-line `-` error.
    Error(Vec<u8>),
    /// Length-prefixed `$` bulk string.
    Bulk(Vec<u8>),
    /// The `$-1` null bulk reply.
    NullBulk,
}

/// The mathematical model of a reply.
pub enum ReplyModel {
    Simple(Seq<u8>),
    Error(Seq<u8>),
    Bulk(Seq<u8>),
    NullBulk,
}

impl View for Reply {
    type V = ReplyModel;

    open spec fn view(&self) -> ReplyModel {
        match self {
            Reply::Simple(s) => ReplyModel::Simple(s@),
            Reply::Error(s) => ReplyModel::Error(s@),
            Reply::Bulk(s) => ReplyModel::Bulk(s@),
            Reply::NullBulk => ReplyModel::NullBulk,
        }
    }
}

} // verus!
