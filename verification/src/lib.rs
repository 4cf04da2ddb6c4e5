//! Verified core of a small command-line client for a remote management API.
//!
//! The library holds everything that can be stated and proved: the JSON
//! encoding and decoding of the configuration file and of the wire bodies,
//! the resolution of command arguments and prompted input, and the decision
//! logic of each command flow.  The thin shell around it (argument parsing,
//! standard input, HTTP) lives outside and hands this library plain values.

pub mod errors;
pub mod text;
pub mod json;
pub mod config;
pub mod login;
pub mod resource_template;
