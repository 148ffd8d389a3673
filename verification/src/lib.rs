//! Verified core of a QQ Bot (official QQ v2 API) platform adapter: the
//! decisions the adapter takes between network round trips, modelled as
//! plain data and state transitions.

pub mod adapter;
pub mod chat_map;
pub mod config;
pub mod content_laws;
pub mod footer;
pub mod gateway;
pub mod laws;
pub mod notice;
pub mod outbound;
pub mod progress;
pub mod state;
pub mod stream;
pub mod text;
