//! The buffered ingestion and batched persistence pipeline of a multi-tenant
//! telemetry platform.
//!
//! Producers hand discrete events and periodic metrics to a bounded
//! submission queue per kind; a single consumer per kind accumulates events
//! into batches and flushes them on buffer-full or on an idle deadline,
//! processes each metric as a dual upsert (one per-client document and one
//! fixed system aggregate document), and mirrors metrics to an optional,
//! best-effort analytics forwarder.
//!
//! The decision logic of both consumers lives here, verified; the
//! surrounding channel, store and network calls are performed by the caller,
//! which feeds every outcome back in as a plain value.

use vstd::prelude::*;

pub mod consumer;
pub mod event;
pub mod forwarder;
pub mod metric;
pub mod queue;
pub mod schema;

verus! {

/// How many batches of capacity `c` a run of `n` records dispatches:
/// the ceiling of `n / c`.
pub open spec fn div_ceil(n: int, c: int) -> int
    recommends
        c > 0,
    decreases n,
    when c > 0
{

    if n <= 0 {
        0
    } else if n <= c {
        1
    } else {
        1 + div_ceil(n - c, c)
    }
}

/// `div_ceil` is the ceiling of `n / c`: the usual closed form agrees with
/// the batch-count recursion.
pub proof fn lemma_div_ceil_closed_form(n: int, c: int)
    requires
        c > 0,
        n >= 0,
    ensures
        div_ceil(n, c) == (n + c - 1) / c,
    decreases n,
{
    if n == 0 {
        vstd::arithmetic::div_mod::lemma_fundamental_div_mod_converse(c - 1, c, 0, c - 1);
    } else if n <= c {
        vstd::arithmetic::div_mod::lemma_fundamental_div_mod_converse(n + c - 1, c, 1, n - 1);
    } else {
        lemma_div_ceil_closed_form(n - c, c);
        let q = (n - 1) / c;
        let r = (n - 1) % c;
        vstd::arithmetic::div_mod::lemma_fundamental_div_mod(n - 1, c);
        assert((q + 1) * c == q * c + c) by (nonlinear_arith);
        assert(q * c == c * q) by (nonlinear_arith);
        vstd::arithmetic::div_mod::lemma_fundamental_div_mod_converse(n + c - 1, c, q + 1, r);
    }
}

} // verus!
