//! A Prometheus exporter library for the Kubo (IPFS) node statistics API.
//!
//! The library covers the computational core of the exporter: decoding the
//! JSON documents returned by the daemon's bandwidth, repository and bitswap
//! statistics endpoints, rendering each record as Prometheus text-exposition
//! metric blocks, and aggregating the three renderings into one scrape body
//! with all-or-nothing error semantics.  The surrounding process (argument
//! handling, HTTP calls, the authenticated listener) lives outside of it and
//! hands the library plain response bodies.

pub mod gather;
pub mod json;
pub mod render;
pub mod stats;
pub mod text;
