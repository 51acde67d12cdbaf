//! Background synchronization core of a terminal chat client: a persistent
//! cache of conversation metadata keyed by a unified identity scheme, and the
//! runtime coordinator that arbitrates user commands and remote updates
//! against that cache.

pub mod identity;
pub mod record;
mod db;
pub mod runtime;
pub mod storage;
pub mod tg_client_builder;
