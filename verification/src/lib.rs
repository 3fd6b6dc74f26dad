//! Verified core of the EasyTier admin panel: report signatures and hex
//! decoding, per-peer traffic accounting, whitelist export, token and
//! credential checks, and the decisions of the whitelist sync daemon.

pub mod hex;
pub mod peers;
pub mod traffic;
pub mod text;
pub mod auth;
pub mod whitelist;
pub mod devices;
pub mod accounts;
pub mod guests;
pub mod agents;
pub mod sync;
pub mod assets;
