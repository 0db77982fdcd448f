//! In-memory turn-relay broker for two game clients exchanging moves.
//!
//! The verified core: the map of game records ([`store`]), the ordered
//! access levels and credential resolution ([`roles`]), the randomized id
//! allocator ([`idgen`]), and the role-gated operations the HTTP layer
//! calls ([`relay`]). Coordinate rendering lives in [`coord`].

pub mod coord;
pub mod idgen;
pub mod relay;
pub mod roles;
pub mod store;
