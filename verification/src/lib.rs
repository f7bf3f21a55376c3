//! Core of a split-horizon DNS resolving proxy.
//!
//! The library holds the verified logic of the proxy: classification of
//! queried names against a suffix blocklist, the per-name answer cache with
//! coalesced pending requesters, the synthetic loopback PTR shortcut, and the
//! dispatch rules that turn one inbound datagram into at most one outbound
//! reply or forward plus route reports. Socket and file handling stay with
//! the caller, which hands each datagram to the engine and performs the
//! actions the engine returns.

pub mod cache;
pub mod codec;
pub mod domain;
pub mod engine;
pub mod laws;
pub mod report;
