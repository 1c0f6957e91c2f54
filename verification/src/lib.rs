//! Bridge between one game-engine WebSocket connection and many short-lived
//! TCP clients: wire-format types and codecs, upstream frame classification,
//! and the broker's correlation state (request/response waiters and
//! topic-based event fan-out).
pub mod broker;
pub mod codec;
pub mod ident;
pub mod json_out;
pub mod jsonwire;
pub mod laws;
pub mod minecraft;
pub mod request;
pub mod slots;
pub mod text;

use vstd::prelude::*;

verus! {

/// Default bind address for the engine-facing WebSocket listener.
pub fn default_wss_port() -> (r: &'static str)
    ensures
        r@ == "127.0.0.1:9988"@,
{
    "127.0.0.1:9988"
}

/// Default bind address for the client-facing TCP listener.
pub fn default_client_port() -> (r: &'static str)
    ensures
        r@ == "127.0.0.1:9989"@,
{
    "127.0.0.1:9989"
}

} // verus!
