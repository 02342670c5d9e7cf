use cim_domain_nix::functor::{FunctorError, InfrastructureError};

#[test]
fn test_error_types() {
    let err = FunctorError::MappingError("test".to_string());
    assert_eq!(err.to_string(), "Mapping error: test");

    let err = FunctorError::InvalidSource("test".to_string());
    assert_eq!(err.to_string(), "Invalid source object: test");

    let err = FunctorError::MissingField("name".to_string());
    assert_eq!(err.to_string(), "Missing required field: name");
}

#[test]
fn test_functor_error_nix_value_error() {
    let err = FunctorError::NixValueError("invalid value".to_string());
    assert_eq!(err.to_string(), "Nix value error: invalid value");
}

#[test]
fn test_functor_error_law_violation() {
    let err = FunctorError::LawViolation("identity not preserved".to_string());
    assert_eq!(err.to_string(), "Functor law violation: identity not preserved");
}

#[test]
fn test_functor_error_infrastructure_error() {
    let infra_err = InfrastructureError::ValidationError("invalid".into());
    let err = FunctorError::InfrastructureError(infra_err);
    let display = err.to_string();
    assert!(display.contains("invalid"));
}

#[test]
fn test_functor_error_equality() {
    let err1 = FunctorError::MappingError("test".to_string());
    let err2 = FunctorError::MappingError("test".to_string());
    assert_eq!(err1, err2);
}

#[test]
fn test_functor_error_clone() {
    let err1 = FunctorError::InvalidSource("test".to_string());
    let err2 = err1.clone();
    assert_eq!(err1, err2);
}

#[test]
fn infrastructure_errors_convert_into_mapping_errors() {
    let err: FunctorError = InfrastructureError::ValidationError("bad cidr".to_string()).into();
    assert_eq!(err, FunctorError::InfrastructureError(InfrastructureError::ValidationError("bad cidr".to_string())));
    assert_eq!(err.to_string(), "Infrastructure error: Validation error: bad cidr");
}
