use greentic_dw::cap_resolver::{resolve_profile, resolve_root};
use greentic_dw::cap_schema::{
    build_bundle_resolution_artifact, check_offer_component_compatibility, check_pack_capability_compatibility,
    emitted_binding_count, emitted_bindings, resolved_reference_policy, target_from_resolution_report,
    target_with_reference_policies, validate_component_descriptor, CapabilityBundleResolutionInputV1,
    CapabilityCompatibilityIssue, CapabilityResolvedTargetInputV1, CapabilitySchemaError, PackCapabilitySectionV1,
};
use greentic_dw::cap_types::{
    CapabilityComponentDescriptor, CapabilityComponentOperation, CapabilityConsume, CapabilityDeclaration,
    CapabilityId, CapabilityOffer, CapabilityProfile, CapabilityProviderOperationMap, CapabilityProviderRef,
    CapabilityRequirement,
};

const STRING_SCHEMA: &str = r#"{"type":"string"}"#;
const NUMBER_SCHEMA: &str = r#"{"type":"number"}"#;

fn cap(value: &str) -> CapabilityId {
    CapabilityId::new(value.to_string()).expect("valid capability id")
}

fn declaration() -> CapabilityDeclaration {
    let mut declaration = CapabilityDeclaration::new();
    let mut offer = CapabilityOffer::new("offer.memory".to_string(), cap("cap://memory.short-term"));
    offer.profiles.push("memory-default".to_string());
    offer.provider = Some(CapabilityProviderRef {
        component_ref: "component:redis".to_string(),
        operation: "provide".to_string(),
        operation_map: Vec::new(),
    });
    declaration.offers.push(offer);
    let mut requirement = CapabilityRequirement::new("require.memory".to_string(), cap("cap://memory.short-term"));
    requirement.profiles.push("memory-default".to_string());
    declaration.requires.push(requirement);
    let mut consume = CapabilityConsume::new("consume.memory".to_string(), cap("cap://memory.short-term"));
    consume.profiles.push("memory-default".to_string());
    declaration.consumes.push(consume);
    declaration.profiles.push(CapabilityProfile {
        id: "memory-default".to_string(),
        description: Some("default memory profile".to_string()),
        requires: vec![],
        consumes: vec![],
    });
    declaration
}

fn operation(name: &str, input: &str, output: &str) -> CapabilityComponentOperation {
    CapabilityComponentOperation { name: name.to_string(), input_schema: input.to_string(), output_schema: output.to_string() }
}

fn component() -> CapabilityComponentDescriptor {
    CapabilityComponentDescriptor {
        component_ref: "component:redis".to_string(),
        version: "1.0.0".to_string(),
        operations: vec![operation("provide", STRING_SCHEMA, STRING_SCHEMA)],
        capabilities: vec![cap("cap://memory.short-term")],
        metadata: Vec::new(),
    }
}

fn provider_offer() -> CapabilityOffer {
    let mut offer = CapabilityOffer::new("offer.memory".to_string(), cap("cap://memory.short-term"));
    offer.profiles.push("memory-default".to_string());
    offer.provider = Some(CapabilityProviderRef {
        component_ref: "component:redis".to_string(),
        operation: "provide".to_string(),
        operation_map: vec![CapabilityProviderOperationMap {
            contract_operation: "read".to_string(),
            component_operation: "provide".to_string(),
            input_schema: STRING_SCHEMA.to_string(),
            output_schema: STRING_SCHEMA.to_string(),
        }],
    });
    offer
}

fn declared_section() -> PackCapabilitySectionV1 {
    let mut declaration = declaration();
    declaration.offers[0] = provider_offer();
    PackCapabilitySectionV1::new(declaration)
}

fn target_input() -> CapabilityResolvedTargetInputV1 {
    CapabilityResolvedTargetInputV1 {
        path: "resolved/default.yaml".to_string(),
        tenant: "default".to_string(),
        team: Some("default".to_string()),
        default_policy: "forbidden".to_string(),
        tenant_gmap: "tenants/default/tenant.gmap".to_string(),
        team_gmap: Some("tenants/default/teams/default/team.gmap".to_string()),
        app_pack_policies: vec![resolved_reference_policy("app-pack".to_string(), "forbidden".to_string())],
    }
}

#[test]
fn pack_section_round_trips_and_compares_against_component() {
    let section = declared_section();
    section.validate().expect("version 1 section validates");
    let reports = check_pack_capability_compatibility(&section, &component()).expect("compat");
    assert!(reports.iter().all(|report| report.compatible));
    assert_eq!(reports.len(), 1);
}

#[test]
fn bundle_resolution_artifact_emits_bindings_and_target_metadata() {
    let declaration = declared_section().declaration;
    let section = PackCapabilitySectionV1::new(declaration);
    let declaration = &section.declaration;
    let compatibility_reports = check_pack_capability_compatibility(&section, &component()).expect("compat");
    let root_resolution = resolve_root(declaration).expect("resolve");
    let profile_resolutions = vec![resolve_profile(declaration, "memory-default").expect("profile")];

    let target = target_from_resolution_report(target_input(), &root_resolution);
    assert_eq!(target.bindings.len(), root_resolution.resolution.bindings.len());
    assert_eq!(emitted_binding_count(&vec![resolve_root(declaration).expect("resolve")]), target.bindings.len());
    assert_eq!(target.app_pack_policies[0].reference, "app-pack");

    let artifact = build_bundle_resolution_artifact(CapabilityBundleResolutionInputV1 {
        bundle_id: "bundle.demo".to_string(),
        bundle_name: "Demo Bundle".to_string(),
        requested_mode: "setup".to_string(),
        locale: "en".to_string(),
        artifact_extension: ".yaml".to_string(),
        root_resolution,
        profile_resolutions,
        resolved_targets: vec![target],
        compatibility_reports,
    });
    assert_eq!(artifact.schema_version, 1);
    assert_eq!(artifact.bundle_id, "bundle.demo");
    assert_eq!(artifact.resolved_targets.len(), 1);
    assert_eq!(artifact.generated_resolved_files, vec!["resolved/default.yaml".to_string()]);
    assert_eq!(artifact.compatibility_reports.len(), 1);
    assert_eq!(artifact.profile_resolutions.len(), 1);
}

#[test]
fn pack_section_and_decode_validation_failures_are_reported() {
    let mut section = declared_section();
    section.schema_version = 2;
    assert!(matches!(
        section.validate(),
        Err(CapabilitySchemaError::Compatibility(message)) if message.contains("unsupported pack capability schema_version")
    ));
}

#[test]
fn compatibility_helpers_report_expected_failure_modes() {
    let section = declared_section();
    let offer = &section.declaration.offers[0];

    let component_ref_mismatch =
        CapabilityComponentDescriptor { component_ref: "component:other".to_string(), ..component() };
    let report = check_offer_component_compatibility(offer, &component_ref_mismatch).expect("report");
    assert!(report.issues.iter().any(|issue| matches!(issue, CapabilityCompatibilityIssue::ComponentMismatch { .. })));
    assert!(!report.compatible);

    let missing_capability = CapabilityComponentDescriptor { capabilities: Vec::new(), ..component() };
    let report = check_offer_component_compatibility(offer, &missing_capability).expect("report");
    assert!(report.issues.iter().any(|issue| matches!(issue, CapabilityCompatibilityIssue::MissingCapability { .. })));

    let missing_operation = CapabilityComponentDescriptor { operations: Vec::new(), ..component() };
    let report = check_offer_component_compatibility(offer, &missing_operation).expect("report");
    assert!(report.issues.iter().any(|issue| matches!(issue, CapabilityCompatibilityIssue::MissingOperation { .. })));

    let input_mismatch =
        CapabilityComponentDescriptor { operations: vec![operation("provide", NUMBER_SCHEMA, STRING_SCHEMA)], ..component() };
    let report = check_offer_component_compatibility(offer, &input_mismatch).expect("report");
    assert!(report
        .issues
        .iter()
        .any(|issue| matches!(issue, CapabilityCompatibilityIssue::InputSchemaMismatch { .. })));

    let output_mismatch =
        CapabilityComponentDescriptor { operations: vec![operation("provide", STRING_SCHEMA, NUMBER_SCHEMA)], ..component() };
    let report = check_offer_component_compatibility(offer, &output_mismatch).expect("report");
    assert!(report
        .issues
        .iter()
        .any(|issue| matches!(issue, CapabilityCompatibilityIssue::OutputSchemaMismatch { .. })));

    let mut legacy_offer = CapabilityOffer::new("offer.legacy".to_string(), cap("cap://runtime.metrics"));
    legacy_offer.provider = Some(CapabilityProviderRef {
        component_ref: "component:redis".to_string(),
        operation: "legacy".to_string(),
        operation_map: Vec::new(),
    });
    let report = check_offer_component_compatibility(&legacy_offer, &component()).expect("report");
    assert!(report
        .issues
        .iter()
        .any(|issue| matches!(issue, CapabilityCompatibilityIssue::MissingProviderOperation { .. })));

    let missing_provider_offer = CapabilityOffer::new("offer.noprovider".to_string(), cap("cap://memory.short-term"));
    let report = check_offer_component_compatibility(&missing_provider_offer, &component()).expect("report");
    assert!(report.issues.iter().any(|issue| matches!(issue, CapabilityCompatibilityIssue::MissingProvider)));

    let duplicate_operations = CapabilityComponentDescriptor {
        operations: vec![operation("provide", STRING_SCHEMA, STRING_SCHEMA), operation("provide", STRING_SCHEMA, STRING_SCHEMA)],
        ..component()
    };
    assert!(matches!(
        check_pack_capability_compatibility(&section, &duplicate_operations),
        Err(CapabilitySchemaError::Compatibility(message)) if message.contains("duplicate component operation")
    ));

    let empty_component_ref = CapabilityComponentDescriptor { component_ref: String::new(), ..component() };
    assert!(matches!(
        check_pack_capability_compatibility(&section, &empty_component_ref),
        Err(CapabilitySchemaError::Compatibility(message)) if message.contains("component_ref must not be empty")
    ));

    let empty_version = CapabilityComponentDescriptor { version: String::new(), ..component() };
    assert!(matches!(
        check_pack_capability_compatibility(&section, &empty_version),
        Err(CapabilitySchemaError::Compatibility(message)) if message.contains("version must not be empty")
    ));
    assert!(validate_component_descriptor(&component()).is_ok());
}

#[test]
fn helper_builders_and_emissions_are_consistent() {
    let declaration = declaration();
    let root_resolution = resolve_root(&declaration).expect("resolve");
    let target = target_from_resolution_report(target_input(), &root_resolution);
    let emitted = emitted_bindings(&root_resolution);
    assert_eq!(target.bindings, emitted);
    assert_eq!(emitted_binding_count(&vec![resolve_root(&declaration).expect("resolve")]), emitted.len());

    let target =
        target_with_reference_policies(target, vec![resolved_reference_policy("app-pack".to_string(), "allowed".to_string())]);
    assert_eq!(target.app_pack_policies.len(), 1);
    assert_eq!(target.app_pack_policies[0].policy, "allowed");

    let artifact = build_bundle_resolution_artifact(CapabilityBundleResolutionInputV1 {
        bundle_id: "bundle.demo".to_string(),
        bundle_name: "Demo Bundle".to_string(),
        requested_mode: "setup".to_string(),
        locale: "en".to_string(),
        artifact_extension: ".yaml".to_string(),
        root_resolution,
        profile_resolutions: Vec::new(),
        resolved_targets: vec![target],
        compatibility_reports: Vec::new(),
    });
    assert_eq!(artifact.schema_version, 1);
    assert_eq!(artifact.generated_resolved_files, vec!["resolved/default.yaml".to_string()]);
}

#[test]
fn schemas_match_as_json_values() {
    let section = declared_section();
    let offer = &section.declaration.offers[0];
    let reordered = CapabilityComponentDescriptor {
        operations: vec![operation("provide", "{ \"type\" : \"string\" }", "{\n  \"type\": \"string\"\n}")],
        ..component()
    };
    let report = check_offer_component_compatibility(offer, &reordered).expect("report");
    assert!(report.issues.is_empty(), "the same JSON value in other spacing matches: {:?}", report.issues);
    assert!(report.compatible);

    let text_only = CapabilityComponentDescriptor {
        operations: vec![operation("provide", "not json", STRING_SCHEMA)],
        ..component()
    };
    let report = check_offer_component_compatibility(offer, &text_only).expect("report");
    assert!(report.issues.iter().any(|issue| matches!(issue, CapabilityCompatibilityIssue::InputSchemaMismatch { .. })));
}

#[test]
fn object_schemas_match_whatever_their_key_order() {
    let mut offer = provider_offer();
    if let Some(provider) = offer.provider.as_mut() {
        provider.operation_map[0].input_schema = r#"{"type":"object","required":["k"]}"#.to_string();
    }
    let component = CapabilityComponentDescriptor {
        operations: vec![operation("provide", r#"{"required":["k"],"type":"object"}"#, STRING_SCHEMA)],
        ..component()
    };
    let report = check_offer_component_compatibility(&offer, &component).expect("report");
    assert!(report.issues.is_empty(), "{:?}", report.issues);
}
