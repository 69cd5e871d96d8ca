//! What the library promises of its operations as a whole, told by their inputs
//! and results alone.

pub mod answers;
pub mod cards;
pub mod choices;
pub mod drawing;
pub mod endpoints;
pub mod failures;
pub mod manifests;
pub mod registry;
pub mod rendering;
pub mod requests;
pub mod secrets;
pub mod services;
pub mod summaries;
pub mod texts;
pub mod versions;
pub mod view;
