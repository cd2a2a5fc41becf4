//! The decisions of the DataBlind policy, as verified functions.
//!
//! The policy protects the bodies of upstream responses: it takes the JSON data out of a body, has
//! the DataCrypt service filter and encrypt it, and puts what the service returns in its place.
//! [`policy`] decides which calls that takes and what becomes of the body; [`payload`] and [`mcp`]
//! find the data in a body and put it back; [`service`] holds the calls and their replies;
//! [`promises`] states what each operation does, in terms of its inputs and results, and [`laws`]
//! what holds of the whole. A gateway filter around this library reads headers and
//! bodies, makes the calls and writes the log.

pub mod codec;
pub mod config;
pub mod describe;
pub mod json;
pub mod laws;
pub mod mcp;
pub mod payload;
pub mod policy;
pub mod promises;
pub mod service;
pub mod text;
