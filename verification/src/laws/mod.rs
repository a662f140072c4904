//! What callers may rely on. Each law speaks of calls: of what goes into a function and of
//! what comes out of it.
pub mod projections;
pub mod documents;
pub mod logging;
pub mod configuration;
pub mod supervision;
pub mod decoding;
