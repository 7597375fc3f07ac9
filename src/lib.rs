//! Turns the description of an enum into a companion record with one field
//! per variant: a direct payload for a variant without values, a map keyed
//! by the carried value for a variant with one. The library reads the
//! enum's directives, lays the record out, writes it as Rust source, and
//! provides the same record at run time with its constructor and accessors.

pub mod directives;
pub mod emit;
pub mod error;
pub mod keyed;
pub mod laws;
pub mod layout;
pub mod naming;
pub mod record;
pub mod tokens;

pub use layout::variants_struct;
