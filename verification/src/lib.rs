//! Core of a package registry: the publish pipeline and the index
//! synchronization engine.
//!
//! The library validates untrusted publish requests, runs the race-safe
//! create-or-update publish transaction against an in-memory model of the
//! authoritative record store, enforces ownership and rate-limit policy, and
//! drives the sharded, content-addressed index replica.

pub mod archive;

pub mod deps;

pub mod digest;

pub mod index;

pub mod owners;

pub mod publish;

pub mod ratelimit;

pub mod registry;

pub mod rights;

pub mod store;

pub mod strutil;

pub mod validate;

pub mod wire;













