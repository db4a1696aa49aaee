//! Talking to a BossDB service.
pub mod remote;
