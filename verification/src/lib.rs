//! Reconciliation and derivation engine for a hockey league's per-team
//! schedules.
//!
//! The library merges freshly fetched schedule data into a persisted game
//! ledger without duplicating already-recorded results (`reconcile`),
//! classifies each completed game's outcome into a points value under the
//! league's rules, and produces, per team, an ordered cumulative series
//! suitable for plotting (`points`). Fetching, storage and rendering are
//! left to the surrounding program; the library works on plain values.

pub mod errors;
pub mod feed;
pub mod model;
pub mod points;
pub mod reconcile;
pub mod store;
