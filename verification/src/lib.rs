//! A local control plane for interactive sessions: the request protocol,
//! the session and turn state that answers it, steering with idempotency,
//! and the channel relay that turns channel messages into steering.
pub mod headers;
pub mod laws;
pub mod prompts;
pub mod protocol;
pub mod relay;
pub mod server_url;
pub mod setup;
pub mod state;
pub mod text;
