//! A hypergraph data model with an embedded key-value persistence layer.
//!
//! The library defines validated hyperedge record shapes, a textual
//! field-named record codec with a proved decode/encode round trip, a
//! key-value store modelled as a map from keys to payloads, repository
//! facades that bind the codec to the store, and the incidence-matrix
//! and dual-hyperedge derivation that turns a hyperedge into its
//! edge-centric (dual) representation.

pub mod codec;
pub mod db_config;
pub mod entity;
pub mod errors;
pub mod ids;
pub mod repository;
pub mod services;
pub mod store;
pub mod views;
