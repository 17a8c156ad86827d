use greentic_dw::cap_types::CapabilityDeclaration;
use greentic_dw::manifest::{
    default_manifest_schema_version, DeepAgentConfig, DigitalWorkerManifest, LegacyDigitalWorkerManifest,
    LocaleContract, LocalePropagation, ManifestValidationError, OutputLocaleGuidance, RequestScope,
    TaskLifecycleState, TeamPolicy, TenancyContract, WorkerLocalePolicy, CAPABILITY_FAMILY_CONTEXT,
    CAPABILITY_FAMILY_DELEGATION, CAPABILITY_FAMILY_PLANNING, CAPABILITY_FAMILY_REFLECTION,
    CAPABILITY_FAMILY_WORKSPACE, MANIFEST_SCHEMA_VERSION,
};
use greentic_dw::planning::PlanStepKind;

fn sample_manifest() -> DigitalWorkerManifest {
    DigitalWorkerManifest {
        id: "dw.support.bot".to_string(),
        display_name: "Support Bot".to_string(),
        version: MANIFEST_SCHEMA_VERSION.to_string(),
        worker_version: Some("0.5".to_string()),
        capabilities: CapabilityDeclaration::new(),
        tenancy: TenancyContract {
            tenant: "tenant-a".to_string(),
            team_policy: TeamPolicy::Optional {
                default_team: Some("team-default".to_string()),
                allow_request_override: true,
            },
        },
        locale: LocaleContract {
            worker_default_locale: "en-US".to_string(),
            policy: WorkerLocalePolicy::PreferRequested,
            propagation: LocalePropagation::PropagateToDelegates,
            output: OutputLocaleGuidance::MatchRequested,
        },
        deep_agent: None,
    }
}

fn deep_agent(
    planning: Option<&str>,
    delegation: Option<&str>,
    reflection: Option<&str>,
    context: Option<&str>,
    kinds: Vec<PlanStepKind>,
    mandatory: bool,
) -> DeepAgentConfig {
    DeepAgentConfig {
        enabled: true,
        planning_capability: planning.map(str::to_string),
        workspace_capability: Some(CAPABILITY_FAMILY_WORKSPACE.to_string()),
        delegation_capability: delegation.map(str::to_string),
        reflection_capability: reflection.map(str::to_string),
        context_capability: context.map(str::to_string),
        plan_step_kinds: kinds,
        reflection_policy_mandatory: mandatory,
    }
}

#[test]
fn sample_manifest_validates() {
    assert_eq!(sample_manifest().validate(), Ok(()));
}

#[test]
fn validate_rejects_empty_tenant() {
    let mut manifest = sample_manifest();
    manifest.tenancy.tenant = " ".to_string();
    let err = manifest.validate().expect_err("expected empty tenant error");
    assert_eq!(err, ManifestValidationError::EmptyTenant);
}

#[test]
fn schema_and_validation_reject_empty_tenant_in_instance() {
    let mut manifest = sample_manifest();
    manifest.tenancy.tenant = String::new();
    assert_eq!(manifest.validate(), Err(ManifestValidationError::EmptyTenant));
}

#[test]
fn validate_rejects_unsupported_schema_version() {
    let mut manifest = sample_manifest();
    manifest.version = "9.9".to_string();
    assert_eq!(
        manifest.validate(),
        Err(ManifestValidationError::UnsupportedVersion { found: "9.9".to_string() })
    );
}

#[test]
fn resolve_scope_inherits_request_team_when_allowed() {
    let manifest = sample_manifest();
    let request = RequestScope { tenant: "tenant-a".to_string(), team: Some("team-request".to_string()) };
    let resolved = manifest.resolve_scope(&request).expect("scope should resolve");
    assert_eq!(resolved.team.as_deref(), Some("team-request"));
}

#[test]
fn resolve_scope_uses_default_when_override_disabled() {
    let mut manifest = sample_manifest();
    manifest.tenancy.team_policy =
        TeamPolicy::Optional { default_team: Some("team-fixed".to_string()), allow_request_override: false };
    let request = RequestScope { tenant: "tenant-a".to_string(), team: Some("team-request".to_string()) };
    let resolved = manifest.resolve_scope(&request).expect("scope should resolve");
    assert_eq!(resolved.team.as_deref(), Some("team-fixed"));
}

#[test]
fn resolve_scope_rejects_other_tenant() {
    let manifest = sample_manifest();
    let request = RequestScope { tenant: "tenant-b".to_string(), team: None };
    assert_eq!(
        manifest.resolve_scope(&request),
        Err(ManifestValidationError::TenantMismatch {
            request_tenant: "tenant-b".to_string(),
            manifest_tenant: "tenant-a".to_string(),
        })
    );
}

#[test]
fn resolve_scope_without_team_policy_has_no_team() {
    let mut manifest = sample_manifest();
    manifest.tenancy.team_policy = TeamPolicy::Disabled;
    let request = RequestScope { tenant: "tenant-a".to_string(), team: Some("team-request".to_string()) };
    let resolved = manifest.resolve_scope(&request).expect("scope should resolve");
    assert_eq!(resolved.team, None);
    assert_eq!(resolved.tenant, "tenant-a");
}

#[test]
fn task_envelope_carries_scope_and_locale() {
    let manifest = sample_manifest();
    let request = RequestScope { tenant: "tenant-a".to_string(), team: None };
    let env = manifest
        .to_task_envelope("task-1".to_string(), "worker-1".to_string(), &request, Some("nl-NL".to_string()), None)
        .expect("envelope");
    assert_eq!(env.task_id, "task-1");
    assert_eq!(env.worker_id, "worker-1");
    assert_eq!(env.state, TaskLifecycleState::Created);
    assert_eq!(env.scope.team.as_deref(), Some("team-default"));
    assert_eq!(env.locale.requested_locale.as_deref(), Some("nl-NL"));
    assert_eq!(env.locale.worker_default_locale, "en-US");
}

#[test]
fn legacy_manifest_can_be_normalized() {
    let legacy = LegacyDigitalWorkerManifest {
        id: "dw.legacy".to_string(),
        display_name: "Legacy Worker".to_string(),
        version: "0.1.0".to_string(),
        tenancy: TenancyContract { tenant: "tenant-a".to_string(), team_policy: TeamPolicy::Disabled },
        locale: LocaleContract {
            worker_default_locale: "en-US".to_string(),
            policy: WorkerLocalePolicy::WorkerDefault,
            propagation: LocalePropagation::CurrentTaskOnly,
            output: OutputLocaleGuidance::WorkerDefault,
        },
    };
    let current = DigitalWorkerManifest::from_legacy(legacy);
    assert_eq!(current.version, MANIFEST_SCHEMA_VERSION);
    assert_eq!(current.worker_version.as_deref(), Some("0.1.0"));
    assert!(current.capabilities.offers.is_empty());
}

#[test]
fn schema_version_defaults_when_missing() {
    assert_eq!(default_manifest_schema_version(), MANIFEST_SCHEMA_VERSION);
}

#[test]
fn capabilities_default_when_missing() {
    let declaration = CapabilityDeclaration::new();
    assert!(declaration.offers.is_empty());
    assert!(declaration.requires.is_empty());
    assert!(declaration.consumes.is_empty());
    assert!(declaration.profiles.is_empty());
}

#[test]
fn validate_rejects_invalid_worker_version_when_present() {
    let mut manifest = sample_manifest();
    manifest.worker_version = Some(" ".to_string());
    let err = manifest.validate().expect_err("expected empty worker version error");
    assert_eq!(err, ManifestValidationError::EmptyWorkerVersion);
}

#[test]
fn deep_agent_requires_planning_and_context() {
    let mut manifest = sample_manifest();
    manifest.deep_agent = Some(deep_agent(None, None, None, None, vec![], false));
    let err = manifest.validate().expect_err("deep agent should require core capabilities");
    assert_eq!(err, ManifestValidationError::MissingDeepLoopCoreCapabilities);
}

#[test]
fn deep_agent_delegate_steps_require_delegation_capability() {
    let mut manifest = sample_manifest();
    manifest.deep_agent = Some(deep_agent(
        Some(CAPABILITY_FAMILY_PLANNING),
        None,
        Some(CAPABILITY_FAMILY_REFLECTION),
        Some(CAPABILITY_FAMILY_CONTEXT),
        vec![PlanStepKind::Delegate],
        false,
    ));
    let err = manifest.validate().expect_err("delegate steps should require delegation capability");
    assert_eq!(err, ManifestValidationError::MissingDelegationCapability);
}

#[test]
fn deep_agent_mandatory_reflection_requires_reflection_capability() {
    let mut manifest = sample_manifest();
    manifest.deep_agent = Some(deep_agent(
        Some(CAPABILITY_FAMILY_PLANNING),
        Some(CAPABILITY_FAMILY_DELEGATION),
        None,
        Some(CAPABILITY_FAMILY_CONTEXT),
        vec![PlanStepKind::Delegate],
        true,
    ));
    assert_eq!(manifest.validate(), Err(ManifestValidationError::MissingReflectionCapability));
}

#[test]
fn deep_agent_capability_family_constants_are_exposed() {
    let families = DigitalWorkerManifest::deep_agent_capability_families();
    assert!(families.contains(&CAPABILITY_FAMILY_PLANNING));
    assert!(families.contains(&CAPABILITY_FAMILY_CONTEXT));
    assert_eq!(families.len(), 5);
}
