//! Synchronization of local schema files with a remote artifact registry.
//!
//! The crate holds the reconciliation core of a registry synchronization
//! tool: a declarative configuration ([`config`]) names artifacts to push
//! and pull, a lockfile ([`lockfile`]) pins the versions last resolved
//! against the registry, and a plan ([`plan`]) merges both into the
//! operations one run performs, which the sync executor ([`sync`]) applies.
//! The registry itself stands behind the [`provider::Provider`] capability,
//! with an in-memory implementation ([`memory`]) for tests and the route
//! and credential computations of the HTTP client ([`client`]); the
//! transport, the files and the interactive login live in the surrounding
//! application.

pub mod auth;
pub mod client;
pub mod config;
pub mod context;
pub mod error;
pub mod lockfile;
pub mod memory;
pub mod plan;
pub mod provider;
pub mod string_map;
pub mod sync;
pub mod views;
