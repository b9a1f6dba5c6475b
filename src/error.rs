use vstd::prelude::*;

verus! {

/// The ways in which an operation of this engine can fail.
#[derive(Clone, Copy, Debug, PartialEq, Eq, Structural)]
pub enum Error {
    /// An ordinal position lies outside the columns or fields at hand.
    Index,
    /// A column name resolves to no field.
    NotFound,
    /// An unqualified column name resolves to more than one field.
    AmbiguousName,
    /// Columns do not agree with the schema they are paired with.
    Schema,
}

} // verus!
