//! A verified model of a small note-keeping service: a single `notes` table
//! with string primary keys, plus the request handling rules built on it
//! (pagination, partial updates, duplicate detection, response envelopes).

pub mod handler;
pub mod laws;
pub mod model;
pub mod schema;
pub mod store;
pub mod strutil;
