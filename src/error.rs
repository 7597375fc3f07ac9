//! Why a description cannot be turned into a record.

use vstd::prelude::*;

verus! {

/// A rejected input. Attribute positions count from zero in the list they
/// stand in; variant positions count from zero in declaration order.
#[derive(Clone, Copy, Debug, PartialEq, Eq, Structural)]
pub enum GenError {
    /// The enum's attribute at this position renames the record with a value
    /// that is not a string literal.
    StructNameNotString(usize),
    /// The enum's attribute at this position is a bounds, derive or raw
    /// attribute directive that is not written as a parenthesised list.
    NotAList(usize),
    /// In the enum's attribute at the first position, the list entry at the
    /// second position is not a plain path.
    NotAPath(usize, usize),
    /// The variant at the first position has, at the second position, a
    /// field-name attribute whose value is not a string literal.
    FieldNameNotString(usize, usize),
    /// The variant at this position does not carry exactly zero values, or
    /// exactly one value in parentheses or braces.
    UnsupportedVariant(usize),
    /// The variant at this position gets the same field name as an earlier one.
    DuplicateField(usize),
}

} // verus!
