//! Errors of witness path traversal and value injection.
use vstd::prelude::*;

use crate::text::{decimal_text, usize_to_decimal};

verus! {

/// Errors originating from manipulating witness paths and injecting values.
#[derive(Debug, PartialEq, Eq)]
pub enum WtnsWrappingError {
    /// A path step that the type at that point cannot take.
    UnsupportedPathType(String),
    /// An index at or beyond the length: the length, then the index.
    IdxOutOfBounds(usize, usize),
    /// The injected value's type differs from the type at the path: expected, then found.
    RootTypeMismatch(String, String),
    /// The path selects the branch of an `Either` that the witness does not hold.
    EitherBranchMismatch,
    /// The path names a variant that the enum type does not declare: the name, then the type.
    UnknownEnumVariant(String, String),
    /// The path selects a variant other than the one the witness holds: selected, then held.
    EnumVariantMismatch(String, String),
}

/// Mathematical model of a `WtnsWrappingError`.
pub enum WrapErrorModel {
    UnsupportedPathType(Seq<char>),
    IdxOutOfBounds(nat, nat),
    RootTypeMismatch(Seq<char>, Seq<char>),
    EitherBranchMismatch,
    UnknownEnumVariant(Seq<char>, Seq<char>),
    EnumVariantMismatch(Seq<char>, Seq<char>),
}

impl View for WtnsWrappingError {
    type V = WrapErrorModel;

    open spec fn view(&self) -> WrapErrorModel {
        match self {
            WtnsWrappingError::UnsupportedPathType(t) => WrapErrorModel::UnsupportedPathType(t@),
            WtnsWrappingError::IdxOutOfBounds(len, idx) => WrapErrorModel::IdxOutOfBounds(
                *len as nat,
                *idx as nat,
            ),
            WtnsWrappingError::RootTypeMismatch(e, g) => WrapErrorModel::RootTypeMismatch(e@, g@),
            WtnsWrappingError::EitherBranchMismatch => WrapErrorModel::EitherBranchMismatch,
            WtnsWrappingError::UnknownEnumVariant(n, t) => WrapErrorModel::UnknownEnumVariant(n@, t@),
            WtnsWrappingError::EnumVariantMismatch(s, h) => WrapErrorModel::EnumVariantMismatch(s@, h@),
        }
    }
}

/// The message that describes the error.
pub open spec fn wrap_error_message(e: WrapErrorModel) -> Seq<char> {
    match e {
        WrapErrorModel::UnsupportedPathType(t) => "Unsupported path type: "@ + t,
        WrapErrorModel::IdxOutOfBounds(len, idx) => "Path index out of bounds: len is "@ + decimal_text(
            len,
        ) + ", got "@ + decimal_text(idx),
        WrapErrorModel::RootTypeMismatch(e, g) => "Root type mismatch: expected "@ + e + ", got "@ + g,
        WrapErrorModel::EitherBranchMismatch => "Path reached undefined branch of Either"@,
        WrapErrorModel::UnknownEnumVariant(n, t) => "Unknown enum variant '"@ + n + "' for type "@ + t,
        WrapErrorModel::EnumVariantMismatch(s, h) => "Enum variant mismatch: path selected '"@ + s
            + "' but witness holds variant '"@ + h + "'"@,
    }
}

impl WtnsWrappingError {
    /// The message that describes the error.
    pub fn message(&self) -> (r: String)
        ensures
            r@ == wrap_error_message(self@),
    {
        let mut s = String::new();
        match self {
            WtnsWrappingError::UnsupportedPathType(t) => {
                s.append("Unsupported path type: ");
                s.append(t.as_str());
            },
            WtnsWrappingError::IdxOutOfBounds(len, idx) => {
                s.append("Path index out of bounds: len is ");
                let l = usize_to_decimal(*len);
                s.append(l.as_str());
                s.append(", got ");
                let i = usize_to_decimal(*idx);
                s.append(i.as_str());
            },
            WtnsWrappingError::RootTypeMismatch(e, g) => {
                s.append("Root type mismatch: expected ");
                s.append(e.as_str());
                s.append(", got ");
                s.append(g.as_str());
            },
            WtnsWrappingError::EitherBranchMismatch => {
                s.append("Path reached undefined branch of Either");
            },
            WtnsWrappingError::UnknownEnumVariant(n, t) => {
                s.append("Unknown enum variant '");
                s.append(n.as_str());
                s.append("' for type ");
                s.append(t.as_str());
            },
            WtnsWrappingError::EnumVariantMismatch(sel, held) => {
                s.append("Enum variant mismatch: path selected '");
                s.append(sel.as_str());
                s.append("' but witness holds variant '");
                s.append(held.as_str());
                s.append("'");
            },
        }
        assert(s@ =~= wrap_error_message(self@));
        s
    }
}

} // verus!
