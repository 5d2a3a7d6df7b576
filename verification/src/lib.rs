//! A ledger-resident factory-and-marketplace coordinator.
//!
//! Creators register named collections, whose child registries are created
//! asynchronously by a separate registry service and correlated back through
//! locally minted reply tokens; buyers mint items into resolved collections
//! while the coordinator splits each payment between the protocol treasury
//! and the collection's creator.
//!
//! The coordinator is written against a plain-value model of its durable
//! state: the host that carries its messages and persists its records hands
//! values in and out at the boundary.

pub mod contract;
pub mod error;
pub mod laws;
pub mod mock;
pub mod msg;
pub mod state;
pub mod store;

pub use crate::error::ContractError;
