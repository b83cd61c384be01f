//! Parameter-binding resolution for a foreign-object-system wrapper generator.
//!
//! For every function parameter of the interface description, the library
//! decides which generic-parameter / ownership-conversion scheme the generated
//! signature must expose, allocates the generic symbols and region tags needed
//! to keep the expanded signature collision-free within one function, and
//! synthesizes the specialized signatures for asynchronous completion
//! callbacks and synchronous function-pointer parameters.

pub mod consts;
pub mod strutil;
pub mod library;
pub mod bounds;
pub mod imports;
pub mod laws;
pub mod chunk;
pub mod child_property_body;
pub mod general;
pub mod signal;
