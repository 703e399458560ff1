//! Core engine of a rendezvous relay: a registry of pending uploads keyed by
//! short generated codes, admission control, exclusive claiming, stale-entry
//! reaping, and the step logic of the byte-relay loop.
//!
//! The HTTP and asynchronous plumbing around this engine lives elsewhere;
//! everything here works on plain values and is verified.

mod codegen;
pub mod registry;
pub mod relay;
pub mod respond;
