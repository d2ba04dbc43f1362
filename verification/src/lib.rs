//! Verified core of a contract-framework compiler.
//!
//! Interfaces and contracts are declared as sets of methods, each marked as
//! a message of some kind. From these declarations the library generates,
//! for each kind, the message type that carries the methods' arguments and
//! the table that dispatches a message to its method; it merges the message
//! types of the interfaces that a contract is composed of into entry
//! points, and it checks that no two of the merged types contribute the
//! same name on the wire.
//!
//! - [`schema`] holds the declarations, [`parser`] what their attributes
//!   say, [`error`] what can be wrong with them.
//! - [`check_generics`] finds the type placeholders that a message type
//!   uses; [`message`] generates the message types; [`associated_types`],
//!   [`api`] and [`multitest`] generate what goes with them.
//! - [`input`] takes one interface or one contract through generation;
//!   [`assembly`] takes a contract with all its interfaces through a build.
//! - [`wire`] encodes and decodes messages, [`entry`] does so for entry
//!   points and dispatches what was decoded.
//! - [`utils`] is the collision check, over the order of names in
//!   [`lexical`]; [`casing`] writes names in the letter cases in use.

pub mod api;
pub mod assembly;
pub mod associated_types;
pub mod casing;
pub mod check_generics;
pub mod entry;
pub mod error;
pub mod input;
pub mod lexical;
pub mod message;
pub mod multitest;
pub mod parser;
pub mod schema;
pub mod utils;
pub mod wire;
