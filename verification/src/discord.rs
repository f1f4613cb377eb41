//! What the router keeps of the chat gateway's values.

pub mod message;
