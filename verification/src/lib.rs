//! Usage tracking for AI subscriptions: what a provider reports, how it is
//! summarized, checked, rendered and kept from leaking into a terminal.

pub mod cards;
pub mod cli;
pub mod clock;
pub mod dispatch;
pub mod document;
pub mod error;
pub mod errors;
pub mod identity;
pub mod inspect;
pub mod laws;
pub mod protocol;
pub mod provider;
pub mod reading;
pub mod redact;
pub mod render;
pub mod service;
pub mod summary;
pub mod table;
pub mod text;
pub mod transport;
pub mod tui;
pub mod usage;
pub mod validate;
pub mod version;
pub mod width;
