//! Core of an email-newsletter service.
//!
//! The library covers the subscription lifecycle and the broadcast workflow:
//! validated subscriber names and addresses, a transactional subscriber store
//! holding subscriber rows and confirmation tokens, token-based confirmation,
//! and fan-out delivery of an issue to every confirmed subscriber with
//! per-recipient failure isolation. The store and the email sender are
//! in-memory models of the persistence and delivery capabilities; adapters
//! around the library connect them to a relational database and a
//! transactional-email provider.

pub mod configuration;
pub mod confirmation;
pub mod domain;
pub mod newsletters;
pub mod sender;
pub mod store;
pub mod subscriptions;
pub mod text;
