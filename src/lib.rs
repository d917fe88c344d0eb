//! Interface extraction and binding generation for FPGA bitfile headers,
//! together with the plain value types of the FPGA runtime interface.
//!
//! The pipeline reads a parsed C header (as a plain declaration model),
//! recovers a typed schema of the interface from the identifier naming
//! conventions, and emits source declarations for registers and FIFOs.

pub mod text;
pub mod naming;
pub mod c_model;
pub mod constant;
pub mod addresses;
pub mod signature;
pub mod generator;
pub mod description;
pub mod header;
pub mod custom_types;
pub mod error;
pub mod types;
pub mod session;
pub mod registers;
pub mod fifos;
pub mod interface;
