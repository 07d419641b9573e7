//! The error taxonomy of the decode pipeline.

use vstd::prelude::*;
use vstd::string::StringExecFns;

verus! {

/// Everything that can go wrong while decoding an OFX document.
///
/// Header and body errors are fatal to the whole document; a timestamp
/// that fails to decode is never fatal (the field falls back to the
/// sentinel date-time instead), so `InvalidDateFormat` only reaches a
/// caller who decodes a timestamp directly.
#[derive(Debug, Clone, PartialEq)]
pub enum OfxError {
    /// A transport-level read failure; raised by callers that do the
    /// reading, never by the decode pipeline itself.
    Io(String),
    /// The body did not match the required nested schema; carries the
    /// underlying decoder's message.
    Xml(String),
    /// The header-format marker or the version field holds an
    /// unsupported value; carries that value.
    InvalidVersion(String),
    /// A mandatory header field is absent; carries the field name.
    MissingHeader(String),
    /// A timestamp does not follow the OFX date-time notation.
    InvalidDateFormat(String),
    /// The text has no header region at all.
    InvalidContent(String),
    /// A message set or capability outside this decoder's scope.
    UnsupportedFeature(String),
}

pub type OfxResult<T> = Result<T, OfxError>;

impl OfxError {
    /// The label naming this error's kind.
    pub open spec fn spec_label(&self) -> Seq<char> {
        match self {
            OfxError::Io(_) => "IO error"@,
            OfxError::Xml(_) => "XML parsing error"@,
            OfxError::InvalidVersion(_) => "Invalid OFX version"@,
            OfxError::MissingHeader(_) => "Missing required header"@,
            OfxError::InvalidDateFormat(_) => "Invalid date format"@,
            OfxError::InvalidContent(_) => "Invalid content"@,
            OfxError::UnsupportedFeature(_) => "Unsupported OFX feature"@,
        }
    }

    /// The detail text carried by the error.
    pub open spec fn spec_detail(&self) -> Seq<char> {
        match self {
            OfxError::Io(m) => m@,
            OfxError::Xml(m) => m@,
            OfxError::InvalidVersion(m) => m@,
            OfxError::MissingHeader(m) => m@,
            OfxError::InvalidDateFormat(m) => m@,
            OfxError::InvalidContent(m) => m@,
            OfxError::UnsupportedFeature(m) => m@,
        }
    }

    /// A readable rendering, `LABEL: DETAIL`.
    pub fn message(&self) -> (r: String)
        ensures
            r@ == self.spec_label() + ": "@ + self.spec_detail(),
    {
        let label: &str = match self {
            OfxError::Io(_) => "IO error",
            OfxError::Xml(_) => "XML parsing error",
            OfxError::InvalidVersion(_) => "Invalid OFX version",
            OfxError::MissingHeader(_) => "Missing required header",
            OfxError::InvalidDateFormat(_) => "Invalid date format",
            OfxError::InvalidContent(_) => "Invalid content",
            OfxError::UnsupportedFeature(_) => "Unsupported OFX feature",
        };
        let detail: &String = match self {
            OfxError::Io(m) => m,
            OfxError::Xml(m) => m,
            OfxError::InvalidVersion(m) => m,
            OfxError::MissingHeader(m) => m,
            OfxError::InvalidDateFormat(m) => m,
            OfxError::InvalidContent(m) => m,
            OfxError::UnsupportedFeature(m) => m,
        };
        let mut out = String::from_str(label);
        out.append(": ");
        out.append(detail.as_str());
        out
    }
}

} // verus!
