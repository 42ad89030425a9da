//! A Socket Mode client core: JSON frames are decoded into envelopes, each
//! envelope is acknowledged by its correlation id, and the handlers whose
//! predicates accept it are chosen in registration order.
//!
//! Everything here is pure computation with a proved contract; the program
//! around it performs the network and storage I/O.

pub mod client;
pub mod event_handler;
pub mod handshake;
pub mod json;
pub mod listen;
pub mod predicates;
pub mod web_api;
