//! Host-side library for a programmable breadboard that speaks a line-oriented
//! text protocol over a serial link.
pub mod text;
pub mod types;
pub mod parser;
pub mod instruction;
pub mod netlist;
pub mod validate;
pub mod discovery;
pub mod session;
pub mod device_manager;
pub mod logger;
pub mod measurements;
