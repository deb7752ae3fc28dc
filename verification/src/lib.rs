//! Boundary layer between a host runtime and a database engine's query
//! pipeline.
//!
//! Everything that crosses the boundary is modelled here as plain values:
//! text as bytes, parse results as event lists, HTTP exchanges as a small
//! state machine. The functions decide what is handed to the host and in
//! which order; performing the hand-over is left to the caller.
#![allow(non_camel_case_types)]

pub mod cst;
pub mod diagnostic;
pub mod fault;
pub mod logging;
pub mod parse;
pub mod server;
pub mod stream;
pub mod text;
