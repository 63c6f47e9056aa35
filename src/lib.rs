//! A fetch request: the message a client sends to ask a broker for records of
//! one topic partition, with its binary encoding and decoding.
pub mod fetch;
pub mod wire;

pub use fetch::{Fetch, FetchCreationError, FetchModel};
