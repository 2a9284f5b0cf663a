//! A plugin-host core for a request-security decision engine.
//!
//! Detection plugins run in a sandbox against live HTTP traffic and emit a
//! belief distribution over accept / restrict / unknown plus a set of
//! tags.  This crate holds the host-side logic of that engine: the
//! evidence algebra that combines plugin decisions, the permission sets
//! gating host calls, the per-request context with its host-call surface,
//! the remote-store script semantics under an injected clock, and the
//! instance phase machine.  The unverifiable plumbing around it (the WASM
//! engine, network and store I/O, clock and environment reads) stays
//! outside and hands this crate plain values.

pub mod context;
pub mod decision;
pub mod instance;
pub mod interfaces;
pub mod outbound;
pub mod params;
pub mod perms;
pub mod plugin;
pub mod scripts;
pub mod store;
pub mod tags;
