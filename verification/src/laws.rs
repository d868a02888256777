//! What the library promises, in terms of what goes in and what comes out.

pub mod answers;
pub mod events;
pub mod fetching;
pub mod manifests;
pub mod outcomes;
pub mod reports;
pub mod tables;
pub mod texts;
pub mod views;
