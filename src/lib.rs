//! Credential and topic-access decisions for an MQTT broker's auth hook,
//! with a read-through cache in front of the authoritative credential store.

pub mod api_key;
pub mod backend;
pub mod cache;
pub mod database;
pub mod hex;
pub mod model;
pub mod password;
pub mod response;
pub mod service;
pub mod store;
pub mod table;
pub mod text;
pub mod token;
pub mod validation;
