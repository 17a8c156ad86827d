use greentic_dw::cap_core::CapabilityCoreError;
use greentic_dw::cap_profile::CapabilityProfileExpansionError;
use greentic_dw::cap_resolver::CapabilityResolverError;
use greentic_dw::cap_types::{CapabilityId, CapabilityIdError, CapabilityValidationError};

#[test]
fn capability_id_errors_read_as_sentences() {
    assert_eq!(CapabilityIdError::MissingScheme.message(), "capability ids must use the cap:// scheme");
    assert_eq!(CapabilityIdError::Empty.message(), "capability ids must not be empty");
    let err = CapabilityId::new("cap://llm chat".to_string()).unwrap_err();
    assert_eq!(err.message(), "capability id contains invalid character ' ' at index 9");
}

#[test]
fn validation_errors_quote_the_offending_value() {
    let err = CapabilityValidationError::DuplicateId { section: "offers.id", id: "offer.memory".to_string() };
    assert_eq!(err.message(), "offers.id contains duplicate identifier \"offer.memory\"");
    let err = CapabilityValidationError::InvalidCapabilityId {
        field: "offers.capability",
        value: "llm".to_string(),
        source: CapabilityIdError::MissingScheme,
    };
    assert_eq!(
        err.message(),
        "offers.capability contains invalid capability id \"llm\": capability ids must use the cap:// scheme"
    );
    let err = CapabilityValidationError::InvalidIdentifier { section: "requires.id", id: "a\"b".to_string() };
    assert_eq!(err.message(), "requires.id contains invalid identifier \"a\\\"b\"");
}

#[test]
fn expansion_and_wrapping_errors_show_their_cause() {
    let unknown = CapabilityProfileExpansionError::UnknownProfile { profile_id: "missing".to_string() };
    assert_eq!(unknown.message(), "unknown capability profile \"missing\"");
    let conflict = CapabilityProfileExpansionError::ConflictingRequirement {
        profile_id: Some("p".to_string()),
        id: "r".to_string(),
    };
    assert_eq!(conflict.message(), "profile Some(\"p\") contains conflicting requirement \"r\"");
    let consume = CapabilityProfileExpansionError::ConflictingConsume { profile_id: None, id: "c".to_string() };
    assert_eq!(consume.message(), "profile None contains conflicting consume \"c\"");
    let resolver = CapabilityResolverError::Expansion(unknown.clone());
    assert_eq!(resolver.message(), "unknown capability profile \"missing\"");
    let core = CapabilityCoreError::Resolver(resolver);
    assert_eq!(core.message(), "unknown capability profile \"missing\"");
}
