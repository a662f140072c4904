//! Machine-readable output of a command-line tool for cloud machines.

pub mod utf8;
pub mod decoder;
pub mod copying;
pub mod json;
pub mod document;
pub mod model;
pub mod projection;
pub mod config;
pub mod logs;
pub mod supervise;
pub mod laws;
