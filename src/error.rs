use vstd::prelude::*;

verus! {

/// The record whose decoding failed.
#[derive(Clone, Copy, Debug, PartialEq, Eq, Structural)]
pub enum Table {
    Anchor,
    Mark1,
    Ligatures,
    RuleSet,
    Rule,
    ClassRule,
    ChainRule,
    ChainClassRule,
    Scripts,
    Record,
    LanguageRecord,
}

/// What is wrong with a malformed record.
#[derive(Clone, Copy, Debug, PartialEq, Eq, Structural)]
pub enum Flaw {
    /// A rule whose input segment is empty.
    ZeroInputGlyphs,
    /// A null offset where the referenced record is required.
    NullOffset,
    /// A reserved field that does not hold its required value.
    ReservedField,
}

/// The ways decoding can fail.
#[derive(Clone, Copy, Debug, PartialEq, Eq, Structural)]
pub enum DecodeError {
    /// A read would go past the end of the buffer.
    Truncated,
    /// A seek target lies outside the buffer.
    OutOfBounds,
    /// A format discriminant names no known variant.
    UnknownFormat(Table, u16),
    /// A structural invariant does not hold.
    Malformed(Table, Flaw),
}

} // verus!
