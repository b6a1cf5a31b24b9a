//! Adaptors that bring configuration text into the value tree.

pub mod parser;
