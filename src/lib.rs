//! A single-peer bidirectional TCP relay in the manner of netcat.
//!
//! The library holds every decision the relay makes: reading its command line,
//! turning local input into chunks, driving the connection loop and choosing
//! exit codes. The program around it performs the socket and terminal work and
//! hands each outcome back to the library as a plain value.
pub mod config;
pub mod endpoint;
pub mod feeder;
pub mod session;
pub mod text;
pub mod unicode;
