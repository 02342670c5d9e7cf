//! Errors of the Nix domain operations.

use vstd::prelude::*;
use crate::text;

verus! {

broadcast use vstd::string::group_string_axioms;

/// Errors of domain operations.
#[derive(Debug, Clone, PartialEq)]
pub enum NixDomainError {
    /// Something could not be parsed.
    ParseError(String),
    /// An external command failed.
    CommandError(String),
    /// A build failed.
    BuildError(String),
    /// An expression could not be evaluated.
    ExecutionError(String),
    /// A request does not fit the data it is about.
    ValidationError(String),
    /// A file could not be read or written.
    IoError(String),
    /// A formatter failed.
    FormatterError(String),
    /// Anything else.
    Other(String),
}

/// The message of a domain error.
pub open spec fn domain_error_message(e: NixDomainError) -> Seq<char> {
    match e {
        NixDomainError::ParseError(m) => "Parse error: "@ + m@,
        NixDomainError::CommandError(m) => "Command error: "@ + m@,
        NixDomainError::BuildError(m) => "Build error: "@ + m@,
        NixDomainError::ExecutionError(m) => "Execution error: "@ + m@,
        NixDomainError::ValidationError(m) => "Validation error: "@ + m@,
        NixDomainError::IoError(m) => "IO error: "@ + m@,
        NixDomainError::FormatterError(m) => "Formatter error: "@ + m@,
        NixDomainError::Other(m) => m@,
    }
}

impl NixDomainError {
    /// The error as a message.
    pub fn to_string(&self) -> (s: String)
        ensures
            s@ == domain_error_message(*self),
    {
        let mut v: Vec<char> = Vec::new();
        let m = match self {
            NixDomainError::ParseError(m) => {
                text::append_str(&mut v, "Parse error: ");
                m
            },
            NixDomainError::CommandError(m) => {
                text::append_str(&mut v, "Command error: ");
                m
            },
            NixDomainError::BuildError(m) => {
                text::append_str(&mut v, "Build error: ");
                m
            },
            NixDomainError::ExecutionError(m) => {
                text::append_str(&mut v, "Execution error: ");
                m
            },
            NixDomainError::ValidationError(m) => {
                text::append_str(&mut v, "Validation error: ");
                m
            },
            NixDomainError::IoError(m) => {
                text::append_str(&mut v, "IO error: ");
                m
            },
            NixDomainError::FormatterError(m) => {
                text::append_str(&mut v, "Formatter error: ");
                m
            },
            NixDomainError::Other(m) => m,
        };
        text::append_str(&mut v, m.as_str());
        text::string_of(v.as_slice())
    }
}

} // verus!
