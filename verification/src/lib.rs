//! A minimal in-memory key-value server's command protocol layer: decoding
//! the length-prefixed array-of-bulk-strings wire format into command
//! tokens, a key-value store whose entries carry optional time-to-live with
//! lazy expiry, and the dispatch and validation of PING, ECHO, SET (with
//! PX/EX/NX/XX modifiers) and GET, down to the encoded reply bytes.
//!
//! Everything here is synchronous and free of I/O: a connection driver
//! reads one framed request, hands its bytes and a monotonic clock reading
//! in milliseconds to [`commands::process_request`], and writes the reply
//! back, tearing the connection down on a protocol violation.

pub mod commands;
pub mod laws;
pub mod store;
pub mod types;
pub mod wire;
