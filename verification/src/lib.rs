//! Orchestration of visual-regression test runs.
//!
//! A run is a batch of URLs. Each URL becomes an item that is captured once by
//! an external worker and ends either `completed`, with the key under which the
//! screenshot was stored, or `failed`. The run is `completed` when every item
//! has ended and the store holds every outcome. A run that loses a write to
//! the store is not completed: it stalls, and its caller is told.
//!
//! The crate holds the rules of that pipeline and proves them: what a worker's
//! reply means for an item ([`capture`]), what the run store accepts
//! ([`store`]), in which order a run's writes are issued ([`coordinator`]), and
//! what follows for a whole run ([`laws`]). Talking to the worker and to the
//! database is left to the caller, who carries out each [`coordinator::Action`]
//! and hands back the matching [`coordinator::Event`].

use vstd::prelude::*;

pub mod capture;
pub mod coordinator;
pub mod ident;
pub mod json;
pub mod laws;
pub mod status;
pub mod store;

verus! {

/// The answer of the liveness probe.
pub fn health_check() -> (r: &'static str)
    ensures
        r@ == "OK"@,
{
    "OK"
}

} // verus!
