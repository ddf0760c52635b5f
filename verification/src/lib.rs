//! Extraction of a contract's opcode interface from the syntax of its source.
//!
//! A module's declarations are searched for implementations of the responder
//! trait. In each, the entry method's dispatch statement is read and every arm
//! that matches one integer literal becomes a method of the interface.

pub mod abi;
pub mod syntax;
pub mod extract;
pub mod source;
pub mod laws;
