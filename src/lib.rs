//! Membership and presence coordination for a group-chat backend.
//!
//! Users belong to servers, servers hold channels, and a user occupies at
//! most one channel at a time. This crate keeps the live room subscriptions
//! of each connection consistent with what the entity store says about
//! membership, occupancy and each user's channel pointer:
//!
//! - `registry`: live connections and their rooms, indexed both ways;
//! - `room` and `router`: room naming and who receives an outgoing event;
//! - `coordinator`: the connect, join, leave, chat and channel protocols;
//! - `store` and `error`: the writes handed to the store and its failures;
//! - `model`, `events`, `auth`, `config` and `seed`: records, requests,
//!   account handling and start-up settings.

pub mod auth;
pub mod clock;
pub mod config;
pub mod coordinator;
pub mod error;
pub mod events;
pub mod model;
pub mod registry;
pub mod room;
pub mod router;
pub mod seed;
pub mod store;
