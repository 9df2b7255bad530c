//! A verified decoder from a foreign, already-materialized compiler-IR
//! module into an owned, structurally-typed data model.
//!
//! The input is a plain-data snapshot of the foreign module graph
//! ([`foreign`]): tables of types, constants, and values indexed by
//! handle, and functions whose blocks and instructions mirror what the
//! foreign library's queries answer. The decoder walks that snapshot
//! exactly once — with one two-phase sub-walk per function body, so that
//! forward references resolve against complete name maps — and produces
//! the owned module: interned types and constants, named basic blocks,
//! and one decoded terminator per block.
//!
//! Decoding is all-or-nothing. An unrecognized attribute or calling
//! convention degrades to an explicit `Unknown`/`Numbered` placeholder
//! and conversion continues; a structural inconsistency — an unknown
//! opcode, an operand count outside a rule's bounds, a name missing from
//! the first-pass maps — aborts the whole conversion with a
//! [`error::DecodeError`] and no partial result.

pub mod basicblock;
pub mod constant;
pub mod debugloc;
pub mod error;
pub mod foreign;
pub mod function;
pub mod instruction;
pub mod module;
pub mod name;
pub mod operand;
pub mod terminator;
pub mod types;

pub use name::Name;
pub use name::NameV;
