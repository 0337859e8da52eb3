//! Decision logic of a self-hosted package registry: name and version grammar,
//! index sharding, upload framing, ownership and yank rules, content types and
//! the sequencing of a publication across the storage planes.

pub mod auth;
pub mod content;
pub mod error;
pub mod index;
pub mod journal;
pub mod metadata;
pub mod migrations;
pub mod names;
pub mod publish;
pub mod routes;
pub mod search;
pub mod storage;
pub mod text;
pub mod upload;
