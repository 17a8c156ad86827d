use greentic_dw::cap_core::orchestrate_capability_declaration;
use greentic_dw::cap_profile::{expand_profile, expand_profiles, expand_root, CapabilityProfileExpansionError};
use greentic_dw::cap_resolver::{
    resolve_expansion, resolve_profile, resolve_profiles, resolve_root, CapabilityResolutionIssue,
};
use greentic_dw::cap_types::{
    CapabilityBinding, CapabilityBindingKind, CapabilityConsume, CapabilityDeclaration, CapabilityId,
    CapabilityIdError, CapabilityOffer, CapabilityProfile, CapabilityProviderRef, CapabilityRequirement,
    CapabilityResolution, CapabilityValidationError,
};

fn cap(value: &str) -> CapabilityId {
    CapabilityId::new(value.to_string()).expect("valid capability id")
}

fn provider(component_ref: &str, operation: &str) -> Option<CapabilityProviderRef> {
    Some(CapabilityProviderRef {
        component_ref: component_ref.to_string(),
        operation: operation.to_string(),
        operation_map: Vec::new(),
    })
}

#[test]
fn capability_id_requires_cap_scheme() {
    let err = CapabilityId::new("memory.short-term".to_string()).unwrap_err();
    assert_eq!(err, CapabilityIdError::MissingScheme);
}

#[test]
fn capability_id_keeps_its_text() {
    let id = cap("cap://memory.short-term");
    assert_eq!(id.as_str(), "cap://memory.short-term");
    assert_eq!(id.into_string(), "cap://memory.short-term".to_string());
}

#[test]
fn declaration_rejects_duplicate_offers() {
    let mut declaration = CapabilityDeclaration::new();
    declaration.offers.push(CapabilityOffer::new("offer.memory".to_string(), cap("cap://memory.short-term")));
    declaration.offers.push(CapabilityOffer::new("offer.memory".to_string(), cap("cap://memory.short-term")));
    let err = declaration.validate().unwrap_err();
    assert_eq!(err, CapabilityValidationError::DuplicateId { section: "offers.id", id: "offer.memory".to_string() });
}

#[test]
fn declaration_rejects_unknown_profile_reference() {
    let mut declaration = CapabilityDeclaration::new();
    let mut offer = CapabilityOffer::new("offer.memory".to_string(), cap("cap://memory.short-term"));
    offer.profiles.push("memory-default".to_string());
    declaration.offers.push(offer);
    let err = declaration.validate().unwrap_err();
    assert_eq!(
        err,
        CapabilityValidationError::UnknownProfileReference { section: "offers", reference: "memory-default".to_string() }
    );
}

#[test]
fn declaration_rejects_malformed_profile_ids() {
    let mut declaration = CapabilityDeclaration::new();
    declaration.profiles.push(CapabilityProfile::new(" ".to_string()));
    let err = declaration.validate().unwrap_err();
    assert_eq!(err, CapabilityValidationError::InvalidProfileId { section: "profiles", id: " ".to_string() });
}

#[test]
fn declaration_rejects_empty_requirement_ids() {
    let mut declaration = CapabilityDeclaration::new();
    declaration.requires.push(CapabilityRequirement::new(String::new(), cap("cap://memory.short-term")));
    let err = declaration.validate().unwrap_err();
    assert_eq!(err, CapabilityValidationError::InvalidIdentifier { section: "requires.id", id: String::new() });
}

#[test]
fn resolution_allows_multiple_requests_to_share_an_offer() {
    let mut declaration = CapabilityDeclaration::new();
    declaration.offers.push(CapabilityOffer::new("offer.memory".to_string(), cap("cap://memory.short-term")));
    declaration.requires.push(CapabilityRequirement::new("require.one".to_string(), cap("cap://memory.short-term")));
    declaration.requires.push(CapabilityRequirement::new("require.two".to_string(), cap("cap://memory.short-term")));
    let mut resolution = CapabilityResolution::new(declaration);
    resolution.bindings.push(CapabilityBinding::new(
        CapabilityBindingKind::Requirement,
        "require.one".to_string(),
        "offer.memory".to_string(),
        cap("cap://memory.short-term"),
    ));
    resolution.bindings.push(CapabilityBinding::new(
        CapabilityBindingKind::Requirement,
        "require.two".to_string(),
        "offer.memory".to_string(),
        cap("cap://memory.short-term"),
    ));
    resolution.validate().expect("shared offer binding");
}

// ---------------------------------------------------------------------------
// Profile expansion
// ---------------------------------------------------------------------------

fn expansion_declaration() -> CapabilityDeclaration {
    let mut declaration = CapabilityDeclaration::new();
    let mut root_requirement = CapabilityRequirement::new("require.root".to_string(), cap("cap://runtime.metrics"));
    root_requirement.description = Some("global requirement".to_string());
    declaration.requires.push(root_requirement);
    let mut root_consume = CapabilityConsume::new("consume.root".to_string(), cap("cap://runtime.metrics"));
    root_consume.description = Some("global consume".to_string());
    declaration.consumes.push(root_consume);
    let mut profile_requirement =
        CapabilityRequirement::new("require.profile".to_string(), cap("cap://memory.short-term"));
    profile_requirement.profiles.push("memory-default".to_string());
    declaration.requires.push(profile_requirement);
    let mut profile_consume = CapabilityConsume::new("consume.profile".to_string(), cap("cap://memory.short-term"));
    profile_consume.profiles.push("memory-default".to_string());
    declaration.consumes.push(profile_consume);
    declaration.profiles.push(CapabilityProfile {
        id: "memory-default".to_string(),
        description: Some("default memory profile".to_string()),
        requires: vec![CapabilityRequirement::new("require.profile-local".to_string(), cap("cap://memory.short-term"))],
        consumes: vec![CapabilityConsume::new("consume.profile-local".to_string(), cap("cap://memory.short-term"))],
    });
    declaration.offers.push(CapabilityOffer::new("offer.memory".to_string(), cap("cap://memory.short-term")));
    declaration
}

#[test]
fn expand_root_only_includes_generic_items() {
    let declaration = expansion_declaration();
    let expansion = expand_root(&declaration).expect("expand");
    assert!(expansion.profile_id.is_none());
    assert_eq!(expansion.requirements.len(), 1);
    assert_eq!(expansion.consumes.len(), 1);
    assert_eq!(expansion.requirements[0].id, "require.root");
    assert_eq!(expansion.consumes[0].id, "consume.root");
}

#[test]
fn expand_profile_merges_profile_and_generic_items() {
    let declaration = expansion_declaration();
    let expansion = expand_profile(&declaration, "memory-default").expect("expand");
    assert_eq!(expansion.profile_id.as_deref(), Some("memory-default"));
    assert_eq!(expansion.requirements.len(), 3);
    assert_eq!(expansion.consumes.len(), 3);
    assert_eq!(
        expansion.requirements.iter().map(|item| item.id.as_str()).collect::<Vec<_>>(),
        vec!["require.profile", "require.profile-local", "require.root"]
    );
    assert_eq!(
        expansion.consumes.iter().map(|item| item.id.as_str()).collect::<Vec<_>>(),
        vec!["consume.profile", "consume.profile-local", "consume.root"]
    );
}

#[test]
fn expand_profiles_returns_all_named_profiles() {
    let declaration = expansion_declaration();
    let profiles = expand_profiles(&declaration).expect("expand");
    assert!(profiles.iter().any(|expansion| expansion.profile_id.as_deref() == Some("memory-default")));
}

#[test]
fn unknown_profile_is_rejected() {
    let declaration = expansion_declaration();
    let err = expand_profile(&declaration, "missing").unwrap_err();
    assert_eq!(err, CapabilityProfileExpansionError::UnknownProfile { profile_id: "missing".to_string() });
}

#[test]
fn conflicting_requirement_is_reported_with_its_profile() {
    let mut declaration = expansion_declaration();
    let mut other = CapabilityRequirement::new("require.root".to_string(), cap("cap://runtime.metrics"));
    other.optional = true;
    declaration.profiles[0].requires.push(other);
    let err = expand_profile(&declaration, "memory-default").unwrap_err();
    assert_eq!(
        err,
        CapabilityProfileExpansionError::ConflictingRequirement {
            profile_id: Some("memory-default".to_string()),
            id: "require.root".to_string(),
        }
    );
}

#[test]
fn identical_duplicate_requirement_is_merged_once() {
    let mut declaration = expansion_declaration();
    let mut same = CapabilityRequirement::new("require.root".to_string(), cap("cap://runtime.metrics"));
    same.description = Some("global requirement".to_string());
    declaration.profiles[0].requires.push(same);
    let expansion = expand_profile(&declaration, "memory-default").expect("expand");
    assert_eq!(expansion.requirements.len(), 3);
}

#[test]
fn expansion_of_invalid_declaration_reports_validation() {
    let mut declaration = expansion_declaration();
    declaration.offers.push(CapabilityOffer::new("offer.memory".to_string(), cap("cap://memory.short-term")));
    let err = expand_root(&declaration).unwrap_err();
    assert_eq!(
        err,
        CapabilityProfileExpansionError::Validation(CapabilityValidationError::DuplicateId {
            section: "offers.id",
            id: "offer.memory".to_string(),
        })
    );
}

// ---------------------------------------------------------------------------
// Resolution
// ---------------------------------------------------------------------------

fn resolver_declaration() -> CapabilityDeclaration {
    let mut declaration = CapabilityDeclaration::new();
    declaration.requires.push(CapabilityRequirement::new("require.root".to_string(), cap("cap://runtime.metrics")));
    declaration.consumes.push(CapabilityConsume::new("consume.root".to_string(), cap("cap://runtime.metrics")));
    let mut profile_requirement =
        CapabilityRequirement::new("require.profile".to_string(), cap("cap://memory.short-term"));
    profile_requirement.profiles.push("memory-default".to_string());
    declaration.requires.push(profile_requirement);
    let mut profile_consume = CapabilityConsume::new("consume.profile".to_string(), cap("cap://memory.short-term"));
    profile_consume.profiles.push("memory-default".to_string());
    declaration.consumes.push(profile_consume);
    declaration.profiles.push(CapabilityProfile {
        id: "memory-default".to_string(),
        description: None,
        requires: vec![],
        consumes: vec![],
    });
    let mut root_offer = CapabilityOffer::new("offer.metrics".to_string(), cap("cap://runtime.metrics"));
    root_offer.provider = provider("component:metrics", "export");
    declaration.offers.push(root_offer);
    let mut generic_offer = CapabilityOffer::new("offer.memory.generic".to_string(), cap("cap://memory.short-term"));
    generic_offer.provider = provider("component:memory-generic", "provide");
    declaration.offers.push(generic_offer);
    let mut profile_offer = CapabilityOffer::new("offer.memory.profile".to_string(), cap("cap://memory.short-term"));
    profile_offer.profiles.push("memory-default".to_string());
    profile_offer.provider = provider("component:memory-profile", "provide");
    declaration.offers.push(profile_offer);
    declaration
}

#[test]
fn resolves_root_view_deterministically() {
    let declaration = resolver_declaration();
    let report = resolve_root(&declaration).expect("resolve");
    assert_eq!(report.profile_id, None);
    assert_eq!(report.resolution.bindings.len(), 2);
    assert!(report.issues.is_empty());
    assert_eq!(report.resolution.bindings[0].offer_id, "offer.metrics");
}

#[test]
fn profile_resolution_prefers_profile_specific_offer() {
    let declaration = resolver_declaration();
    let report = resolve_profile(&declaration, "memory-default").expect("resolve");
    assert_eq!(report.profile_id.as_deref(), Some("memory-default"));
    assert_eq!(report.resolution.bindings.len(), 4);
    assert!(report.issues.is_empty());
    let selected = report
        .resolution
        .bindings
        .iter()
        .find(|binding| binding.request_id == "require.profile")
        .expect("binding");
    assert_eq!(selected.offer_id, "offer.memory.profile");
}

#[test]
fn ambiguous_offers_are_reported() {
    let mut declaration = resolver_declaration();
    let mut duplicate = CapabilityOffer::new("offer.memory.profile-2".to_string(), cap("cap://memory.short-term"));
    duplicate.profiles.push("memory-default".to_string());
    duplicate.provider = provider("component:memory-profile-2", "provide");
    declaration.offers.push(duplicate);
    let expansion = expand_profile(&declaration, "memory-default").expect("expand");
    let report = resolve_expansion(&declaration, expansion).expect("resolve");
    assert!(report.issues.iter().any(|issue| matches!(
        issue,
        CapabilityResolutionIssue::AmbiguousOffer { request_id, .. } if request_id == "require.profile"
    )));
}

#[test]
fn ambiguity_lists_candidates_in_id_order_and_picks_the_first() {
    let mut declaration = resolver_declaration();
    let mut duplicate = CapabilityOffer::new("offer.memory.a-first".to_string(), cap("cap://memory.short-term"));
    duplicate.profiles.push("memory-default".to_string());
    duplicate.provider = provider("component:memory-a", "provide");
    declaration.offers.push(duplicate);
    let report = resolve_profile(&declaration, "memory-default").expect("resolve");
    let issue = report
        .issues
        .iter()
        .find(|issue| matches!(issue, CapabilityResolutionIssue::AmbiguousOffer { request_id, .. } if request_id == "require.profile"))
        .expect("ambiguity");
    match issue {
        CapabilityResolutionIssue::AmbiguousOffer { candidates, chosen, .. } => {
            assert_eq!(candidates, &vec!["offer.memory.a-first".to_string(), "offer.memory.profile".to_string()]);
            assert_eq!(chosen, "offer.memory.a-first");
        }
        _ => unreachable!(),
    }
}

#[test]
fn request_without_offer_is_unresolved() {
    let mut declaration = resolver_declaration();
    declaration.requires.push(CapabilityRequirement::new("require.queue".to_string(), cap("cap://queue.jobs")));
    let report = resolve_root(&declaration).expect("resolve");
    assert_eq!(
        report.issues,
        vec![CapabilityResolutionIssue::UnresolvedRequest {
            profile_id: None,
            request_id: "require.queue".to_string(),
            capability: cap("cap://queue.jobs"),
            request_kind: CapabilityBindingKind::Requirement,
        }]
    );
}

#[test]
fn resolve_profiles_reports_every_profile_in_id_order() {
    let mut declaration = resolver_declaration();
    declaration.profiles.push(CapabilityProfile::new("another".to_string()));
    let reports = resolve_profiles(&declaration).expect("resolve");
    let ids: Vec<_> = reports.iter().map(|report| report.profile_id.clone()).collect();
    assert_eq!(ids, vec![Some("another".to_string()), Some("memory-default".to_string())]);
}

#[test]
fn orchestration_produces_root_and_profile_reports() {
    let mut declaration = CapabilityDeclaration::new();
    declaration.requires.push(CapabilityRequirement::new("require.root".to_string(), cap("cap://runtime.metrics")));
    let mut profile_requirement =
        CapabilityRequirement::new("require.profile".to_string(), cap("cap://memory.short-term"));
    profile_requirement.profiles.push("memory-default".to_string());
    declaration.requires.push(profile_requirement);
    declaration.consumes.push(CapabilityConsume::new("consume.root".to_string(), cap("cap://runtime.metrics")));
    declaration.profiles.push(CapabilityProfile {
        id: "memory-default".to_string(),
        description: None,
        requires: vec![],
        consumes: vec![],
    });
    let mut root_offer = CapabilityOffer::new("offer.metrics".to_string(), cap("cap://runtime.metrics"));
    root_offer.provider = provider("component:metrics", "export");
    declaration.offers.push(root_offer);
    let mut profile_offer = CapabilityOffer::new("offer.memory".to_string(), cap("cap://memory.short-term"));
    profile_offer.profiles.push("memory-default".to_string());
    profile_offer.provider = provider("component:memory", "provide");
    declaration.offers.push(profile_offer);

    let report = orchestrate_capability_declaration(&declaration).expect("orchestrate");
    assert!(report.root.issues.is_empty());
    let profile = report
        .profiles
        .iter()
        .find(|r| r.profile_id.as_deref() == Some("memory-default"))
        .expect("profile report");
    assert!(profile.resolution.bindings.iter().any(|binding| binding.request_id == "require.profile"));
}

#[test]
fn capability_id_converts_to_and_from_text() {
    let id = CapabilityId::try_from("cap://llm/chat".to_string()).expect("valid");
    assert_eq!(id, CapabilityId::new("cap://llm/chat".to_string()).unwrap());
    assert_eq!(id.as_str(), "cap://llm/chat");
    assert_eq!(String::from(id.clone()), "cap://llm/chat");
    let text: String = id.into();
    assert_eq!(text, "cap://llm/chat");
    assert_eq!(CapabilityId::try_from("llm/chat".to_string()), Err(CapabilityIdError::MissingScheme));
    assert_eq!(CapabilityId::try_from("cap://".to_string()), Err(CapabilityIdError::Empty));
}
