//! The side that writes the files.

pub mod confirmations;
pub mod controller;
pub mod files;
pub mod metadata;
pub mod queue;
pub mod writer;
