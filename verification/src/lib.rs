//! Schema derivation for remote-procedure interfaces.
//!
//! An interface declaration lists procedures; those that carry an `rpc`
//! annotation are described in a schema document. This crate decides, for an
//! interface or an implementation of one, what the derived code consists of:
//! the registrations, the schema routine, the companion module's name and the
//! rewritten declaration. Every function is stated over the views of the
//! syntax model in [`syntax`].

pub mod attr;
pub mod error;
pub mod laws;
pub mod rpc_trait;
pub mod syntax;
pub mod to_gen_schema;
