//! Errors of the mappings between Nix data and infrastructure data.

use vstd::prelude::*;
use crate::text;

verus! {

/// An error of the infrastructure domain, passed on by a mapping.
#[derive(Debug, Clone, PartialEq)]
pub enum InfrastructureError {
    /// A value the infrastructure domain refuses.
    ValidationError(String),
}

/// The message of an infrastructure error.
pub open spec fn infrastructure_error_message(e: InfrastructureError) -> Seq<char> {
    match e {
        InfrastructureError::ValidationError(m) => "Validation error: "@ + m@,
    }
}

impl InfrastructureError {
    /// The error as a message.
    pub fn to_string(&self) -> (s: String)
        ensures
            s@ == infrastructure_error_message(*self),
    {
        match self {
            InfrastructureError::ValidationError(m) => {
                let mut v = text::chars_of("Validation error: ");
                text::append_str(&mut v, m.as_str());
                text::string_of(v.as_slice())
            },
        }
    }
}

/// Errors of the mappings.
#[derive(Debug, Clone, PartialEq)]
pub enum FunctorError {
    /// A value could not be mapped.
    MappingError(String),
    /// The object to map is not valid.
    InvalidSource(String),
    /// A required field is missing.
    MissingField(String),
    /// The infrastructure domain refused a value.
    InfrastructureError(InfrastructureError),
    /// A Nix value is not as expected.
    NixValueError(String),
    /// A law of the mapping does not hold.
    LawViolation(String),
}

/// The message of a mapping error.
pub open spec fn functor_error_message(e: FunctorError) -> Seq<char> {
    match e {
        FunctorError::MappingError(m) => "Mapping error: "@ + m@,
        FunctorError::InvalidSource(m) => "Invalid source object: "@ + m@,
        FunctorError::MissingField(m) => "Missing required field: "@ + m@,
        FunctorError::InfrastructureError(i) => "Infrastructure error: "@
            + infrastructure_error_message(i),
        FunctorError::NixValueError(m) => "Nix value error: "@ + m@,
        FunctorError::LawViolation(m) => "Functor law violation: "@ + m@,
    }
}

impl FunctorError {
    /// The error as a message.
    pub fn to_string(&self) -> (s: String)
        ensures
            s@ == functor_error_message(*self),
    {
        let (prefix, rest) = match self {
            FunctorError::MappingError(m) => ("Mapping error: ", m.clone()),
            FunctorError::InvalidSource(m) => ("Invalid source object: ", m.clone()),
            FunctorError::MissingField(m) => ("Missing required field: ", m.clone()),
            FunctorError::InfrastructureError(i) => ("Infrastructure error: ", i.to_string()),
            FunctorError::NixValueError(m) => ("Nix value error: ", m.clone()),
            FunctorError::LawViolation(m) => ("Functor law violation: ", m.clone()),
        };
        let mut v = text::chars_of(prefix);
        text::append_str(&mut v, rest.as_str());
        text::string_of(v.as_slice())
    }
}

impl From<InfrastructureError> for FunctorError {
    fn from(e: InfrastructureError) -> (r: FunctorError) {
        FunctorError::InfrastructureError(e)
    }
}

impl vstd::std_specs::convert::FromSpecImpl<InfrastructureError> for FunctorError {
    open spec fn obeys_from_spec() -> bool {
        true
    }

    open spec fn from_spec(e: InfrastructureError) -> FunctorError {
        FunctorError::InfrastructureError(e)
    }
}

} // verus!
