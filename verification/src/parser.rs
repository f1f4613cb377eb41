//! Parsers for the texts that the router reads.

pub mod cmdhelp;
pub mod cmdinvoke;
