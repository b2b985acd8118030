//! Verified core of a command-line client for the SpiceAPI control protocol.
pub mod rc4;
pub mod json;
pub mod strings;
pub mod output;
pub mod error;
pub mod request;
pub mod response;
pub mod connection;
pub mod cli;
pub mod commands;
