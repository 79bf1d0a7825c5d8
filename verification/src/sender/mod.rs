//! The side that reads the files.

pub mod confirmations;
pub mod controller;
pub mod flow;
pub mod manifest;
pub mod reader;
