//! A one-shot media download relay.
//!
//! A client opens a streaming connection and sends one JSON request naming a
//! media URL and an optional playlist-item range. The library builds the
//! argument vector for the external download tool, and models the loop that
//! forwards the tool's output lines back to the client one trimmed line at a
//! time. The network transport and the subprocess itself live outside the
//! library; everything the relay decides is specified and verified here.

pub mod args;
pub mod relay;
pub mod request;
