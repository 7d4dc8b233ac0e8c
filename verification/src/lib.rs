//! A loyalty-card backend library: merchants and users are registered, each
//! (user, merchant) pair may hold one card, and marks are punched onto cards.
//!
//! The document store is modelled as an in-memory collection pair with exact
//! contracts; request handlers are pure state transitions over that model.

pub mod digits;
pub mod ids;
pub mod models;
pub mod rng;
pub mod store;
pub mod api;
pub mod laws;
