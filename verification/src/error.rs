//! The decoding-error taxonomy: a closed, matchable set of two variants.

use vstd::prelude::*;
use vstd::string::StringExecFns;
use crate::value::Json;
use crate::render::{render, spec_render};

verus! {

/// The model of a decoding error.
#[verifier::ext_equal]
pub ghost enum ErrorModel {
    /// A required key was absent from an object.
    MissingField(Seq<char>),
    /// A node existed but was not coercible to the requested shape: the
    /// requested type's name and the canonical text of the node found.
    Expected(Seq<char>, Seq<char>),
}

/// Why a decode failed: either a required field was missing from an object,
/// or a node was present but of the wrong shape.
#[derive(Debug, PartialEq)]
pub enum DecoderError {
    /// The key that no entry was found for.
    MissingFieldError(String),
    /// The name of the requested type, and the canonical JSON text of the
    /// node that was actually found.
    ExpectedError(String, String),
}

impl View for DecoderError {
    type V = ErrorModel;

    open spec fn view(&self) -> ErrorModel {
        match self {
            DecoderError::MissingFieldError(k) => ErrorModel::MissingField(k@),
            DecoderError::ExpectedError(e, g) => ErrorModel::Expected(e@, g@),
        }
    }
}

/// The canonical display rendering of an error model.
pub open spec fn spec_error_text(e: ErrorModel) -> Seq<char> {
    match e {
        ErrorModel::MissingField(k) => "MissingFieldError(\""@ + k + "\")"@,
        ErrorModel::Expected(exp, got) => "ExpectedError(\""@ + exp + "\", \""@ + got + "\")"@,
    }
}

impl DecoderError {
    /// The canonical display rendering of the error:
    /// `MissingFieldError("<key>")` or `ExpectedError("<expected>", "<found>")`.
    pub fn to_text(&self) -> (s: String)
        ensures
            s@ == spec_error_text(self@),
    {
        match self {
            DecoderError::MissingFieldError(k) => {
                let s = String::from_str("MissingFieldError(\"");
                let s = s.concat(k.as_str());
                let s = s.concat("\")");
                s
            }
            DecoderError::ExpectedError(e, g) => {
                let s = String::from_str("ExpectedError(\"");
                let s = s.concat(e.as_str());
                let s = s.concat("\", \"");
                let s = s.concat(g.as_str());
                let s = s.concat("\")");
                s
            }
        }
    }
}

/// The error for a node that was not of the requested shape: names the
/// requested type and renders the node that was found.
pub fn expected(name: &str, got: &Json) -> (e: DecoderError)
    ensures
        e@ == ErrorModel::Expected(name@, spec_render(got@)),
{
    DecoderError::ExpectedError(String::from_str(name), render(got))
}

} // verus!
