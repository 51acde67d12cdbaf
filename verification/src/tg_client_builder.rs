//! The session-bootstrap policy of client construction.
//!
//! Signing in to the remote service — transport, prompts, the handshake —
//! is the embedding program's job. The one decision made on the way there
//! is which session material to hand the client: the blob the cache holds
//! from an earlier run, or none, meaning a fresh session that must be
//! authenticated from scratch and saved afterwards.

use vstd::prelude::*;

verus! {

/// Where the session material for client construction comes from.
pub enum SessionSource {
    /// Reuse the session blob loaded from the cache.
    Stored(Vec<u8>),
    /// First run: no session was ever saved, start a fresh one.
    Fresh,
}

/// Builder of the signed-in remote-service client.
pub struct TgClientBuilder {}

impl TgClientBuilder {
    /// Picks the session material for client construction: exactly the
    /// stored blob when the cache holds one, a fresh session on the first
    /// run.
    pub fn choose_session(loaded: Option<Vec<u8>>) -> (r: SessionSource)
        ensures
            loaded matches Some(data) ==> r matches SessionSource::Stored(kept) && kept == data,
            loaded is None ==> r is Fresh,
    {
        match loaded {
            Some(data) => SessionSource::Stored(data),
            None => SessionSource::Fresh,
        }
    }
}

} // verus!
