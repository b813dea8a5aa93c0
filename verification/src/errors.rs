//! Typed loading failures. Every loader failure is returned as one of
//! these values; nothing in the library panics or aborts.

use vstd::prelude::*;

verus! {

broadcast use vstd::group_vstd_default;

/// Ghost mirror of [`LoadError`].
pub enum ErrV {
    MissingRequiredField(Seq<char>, Seq<char>),
    WrongType(Seq<char>, Seq<char>, Seq<char>),
    EmptyRequiredList(Seq<char>, Seq<char>),
    UnsupportedKey(Seq<char>),
    UnsupportedValueKind(Seq<char>),
    NumericParseFailure(Seq<char>),
}

/// Why a document failed to load.
#[derive(Debug, Clone, PartialEq)]
pub enum LoadError {
    /// A required field is absent: the field name and the fixed-fields
    /// section of the specification that requires it.
    MissingRequiredField(String, String),
    /// A field holds the wrong kind of value: the field name, the
    /// expected kind, and the kind found.
    WrongType(String, String, String),
    /// A list that must have at least one entry is absent or empty:
    /// the list name and the governing fixed-fields section.
    EmptyRequiredList(String, String),
    /// A mapping key is not a string: the kind of the offending key.
    UnsupportedKey(String),
    /// A node with no dynamic-value counterpart: its kind name.
    UnsupportedValueKind(String),
    /// A real scalar whose text does not parse as a number.
    NumericParseFailure(String),
}

impl DeepView for LoadError {
    type V = ErrV;

    open spec fn deep_view(&self) -> ErrV {
        match self {
            LoadError::MissingRequiredField(f, r) => ErrV::MissingRequiredField(f@, r@),
            LoadError::WrongType(f, e, a) => ErrV::WrongType(f@, e@, a@),
            LoadError::EmptyRequiredList(l, r) => ErrV::EmptyRequiredList(l@, r@),
            LoadError::UnsupportedKey(k) => ErrV::UnsupportedKey(k@),
            LoadError::UnsupportedValueKind(k) => ErrV::UnsupportedValueKind(k@),
            LoadError::NumericParseFailure(s) => ErrV::NumericParseFailure(s@),
        }
    }
}

} // verus!
