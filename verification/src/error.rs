//! The failures that end a conversion.

use vstd::prelude::*;
use vstd::string::StringExecFns;
use crate::text::copy_str;

verus! {

/// Why a tag stream could not be converted.
#[derive(Debug, Clone, PartialEq, Eq)]
pub enum UsfmError {
    /// A tag whose name is in none of the marker tables; holds the name.
    UnknownMarker(String),
    /// A chapter number or a tag level that is no 32-bit decimal numeral; holds the text.
    MalformedNumber(String),
    /// The lexical grammar could not be prepared for scanning.
    Grammar,
}

/// The model of a failure: its kind and the text it holds.
pub enum ErrorModel {
    UnknownMarker(Seq<char>),
    MalformedNumber(Seq<char>),
    Grammar,
}

impl UsfmError {
    /// The model of the failure.
    pub open spec fn view(&self) -> ErrorModel {
        match self {
            UsfmError::UnknownMarker(name) => ErrorModel::UnknownMarker(name@),
            UsfmError::MalformedNumber(text) => ErrorModel::MalformedNumber(text@),
            UsfmError::Grammar => ErrorModel::Grammar,
        }
    }

    /// The text that introduces the message of a failure of this kind.
    pub open spec fn message_prefix(m: ErrorModel) -> Seq<char> {
        match m {
            ErrorModel::UnknownMarker(_) => "Tag not in the marker tables : "@,
            ErrorModel::MalformedNumber(_) => "Malformed number : "@,
            ErrorModel::Grammar => "The lexical grammar could not be prepared"@,
        }
    }

    /// The text that a failure holds.
    pub open spec fn detail(m: ErrorModel) -> Seq<char> {
        match m {
            ErrorModel::UnknownMarker(name) => name,
            ErrorModel::MalformedNumber(text) => text,
            ErrorModel::Grammar => Seq::<char>::empty(),
        }
    }

    /// A message for the reader: the introduction of the kind, then the text held.
    pub fn message(&self) -> (s: String)
        ensures
            s@ == Self::message_prefix(self@) + Self::detail(self@),
    {
        match self {
            UsfmError::UnknownMarker(name) => {
                copy_str("Tag not in the marker tables : ").concat(name.as_str())
            },
            UsfmError::MalformedNumber(text) => copy_str("Malformed number : ").concat(
                text.as_str(),
            ),
            UsfmError::Grammar => {
                let s = copy_str("The lexical grammar could not be prepared");
                assert(s@ + Seq::<char>::empty() == s@);
                s
            },
        }
    }
}

} // verus!
