//! The core of a signaling relay: peers connect, may claim a unique name, and
//! exchange text messages addressed to themselves, to everyone, or to one
//! named peer.
//!
//! The relay is a state machine ([`server::Server`]). The transport tells it
//! what happened on a connection, and it answers with the messages to send.
//! It neither reads from nor writes to a connection itself.

pub mod address;
pub mod envelope;
pub mod fallback;
pub mod handshake;
pub mod laws;
pub mod network;
pub mod node;
pub mod server;
pub mod text;

use crate::server::{is_startup, run, startup, Startup, TlsSetupError};
use crate::text::characters_of;
use vstd::prelude::*;

verus! {

/// Plans the start of the signaling relay at `port`, as [`server::run`] does.
pub fn run_websocket_signaling_server(
    port: u16,
    use_ssl: bool,
    ssl_cert_path: Option<String>,
    ssl_cert_key_path: Option<String>,
) -> (planned: Result<Startup, TlsSetupError>)
    ensures
        is_startup(
            planned,
            startup(port, use_ssl, characters_of(ssl_cert_path), characters_of(ssl_cert_key_path)),
        ),
{
    run(port, use_ssl, ssl_cert_path, ssl_cert_key_path)
}

} // verus!
