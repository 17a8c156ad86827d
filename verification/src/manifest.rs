//! Digital Worker manifests: the worker's identity, tenancy, locale and
//! deep-agent contracts, their validation, and the derivation of a
//! request's effective scope and task envelope.

use vstd::prelude::*;

use crate::cap_types::{declaration_check, opt_string_view, CapabilityDeclaration, CapabilityValidationError, ValidationErrorView};
use crate::planning::PlanStepKind;
use crate::text::{is_blank, str_equal, str_is_blank};

verus! {

/// Supported manifest schema version.
pub const MANIFEST_SCHEMA_VERSION: &'static str = "0.2";

pub const CAPABILITY_FAMILY_PLANNING: &'static str = "greentic.cap.planning.plan";

pub const CAPABILITY_FAMILY_WORKSPACE: &'static str = "greentic.cap.workspace.artifacts";

pub const CAPABILITY_FAMILY_DELEGATION: &'static str = "greentic.cap.delegation.route";

pub const CAPABILITY_FAMILY_REFLECTION: &'static str = "greentic.cap.reflection.review";

pub const CAPABILITY_FAMILY_CONTEXT: &'static str = "greentic.cap.context.compose";

/// Which locale a worker answers in.
#[derive(Clone, Copy, Debug, PartialEq, Eq, Structural)]
pub enum WorkerLocalePolicy {
    WorkerDefault,
    PreferRequested,
    StrictRequested,
}

/// How far the locale travels.
#[derive(Clone, Copy, Debug, PartialEq, Eq, Structural)]
pub enum LocalePropagation {
    CurrentTaskOnly,
    PropagateToDelegates,
}

/// Which locale outputs are written in.
#[derive(Debug, PartialEq, Eq)]
pub enum OutputLocaleGuidance {
    WorkerDefault,
    MatchRequested,
    Explicit(String),
}

/// Lifecycle state of a task.
#[derive(Clone, Copy, Debug, PartialEq, Eq, Structural)]
pub enum TaskLifecycleState {
    Created,
    Running,
    Waiting,
    Delegated,
    Completed,
    Failed,
    Cancelled,
}

/// Tenant and optional team of a task.
#[derive(Debug, PartialEq, Eq)]
pub struct TenantScope {
    pub tenant: String,
    pub team: Option<String>,
}

/// The locale settings a task carries.
#[derive(Debug, PartialEq, Eq)]
pub struct LocaleContext {
    pub worker_default_locale: String,
    pub requested_locale: Option<String>,
    pub human_locale: Option<String>,
    pub policy: WorkerLocalePolicy,
    pub propagation: LocalePropagation,
    pub output: OutputLocaleGuidance,
}

/// A task handed to a worker.
#[derive(Debug, PartialEq, Eq)]
pub struct TaskEnvelope {
    pub task_id: String,
    pub worker_id: String,
    pub state: TaskLifecycleState,
    pub scope: TenantScope,
    pub locale: LocaleContext,
}

/// Team policy for request scope behavior.
#[derive(Debug, PartialEq, Eq)]
pub enum TeamPolicy {
    /// Team scope disabled; team is always `None`.
    Disabled,
    /// Team may be inherited from the request and/or defaulted.
    Optional { default_team: Option<String>, allow_request_override: bool },
}

/// Tenant + optional team scope contract.
#[derive(Debug, PartialEq, Eq)]
pub struct TenancyContract {
    pub tenant: String,
    pub team_policy: TeamPolicy,
}

/// Locale contract for a worker manifest.
#[derive(Debug, PartialEq, Eq)]
pub struct LocaleContract {
    pub worker_default_locale: String,
    pub policy: WorkerLocalePolicy,
    pub propagation: LocalePropagation,
    pub output: OutputLocaleGuidance,
}

/// Opt-in deep-agent configuration.
#[derive(Debug, PartialEq, Eq)]
pub struct DeepAgentConfig {
    pub enabled: bool,
    pub planning_capability: Option<String>,
    pub workspace_capability: Option<String>,
    pub delegation_capability: Option<String>,
    pub reflection_capability: Option<String>,
    pub context_capability: Option<String>,
    pub plan_step_kinds: Vec<PlanStepKind>,
    pub reflection_policy_mandatory: bool,
}

/// Public manifest for a Digital Worker definition.
#[derive(Debug, PartialEq, Eq)]
pub struct DigitalWorkerManifest {
    /// Schema version for the manifest contract itself.
    pub version: String,
    pub id: String,
    pub display_name: String,
    /// Worker/package version associated with this manifest instance.
    pub worker_version: Option<String>,
    /// Shared capability declaration.
    pub capabilities: CapabilityDeclaration,
    pub tenancy: TenancyContract,
    pub locale: LocaleContract,
    pub deep_agent: Option<DeepAgentConfig>,
}

/// Earlier manifest shape, normalized by `from_legacy`.
#[derive(Debug, PartialEq, Eq)]
pub struct LegacyDigitalWorkerManifest {
    pub id: String,
    pub display_name: String,
    pub version: String,
    pub tenancy: TenancyContract,
    pub locale: LocaleContract,
}

/// Incoming request scope used to derive the effective runtime scope.
#[derive(Debug, PartialEq, Eq)]
pub struct RequestScope {
    pub tenant: String,
    pub team: Option<String>,
}

/// Effective scope after tenant/team contract resolution.
#[derive(Debug, PartialEq, Eq)]
pub struct ResolvedScope {
    pub tenant: String,
    pub team: Option<String>,
}

/// Manifest contract violation.
#[derive(Debug, PartialEq, Eq)]
pub enum ManifestValidationError {
    EmptyVersion,
    UnsupportedVersion { found: String },
    EmptyId,
    EmptyDisplayName,
    EmptyWorkerVersion,
    EmptyTenant,
    EmptyTeam,
    EmptyDefaultLocale,
    Capability(CapabilityValidationError),
    StrictRequestedOutputMismatch,
    MissingDeepLoopCoreCapabilities,
    MissingDelegationCapability,
    MissingReflectionCapability,
    TenantMismatch { request_tenant: String, manifest_tenant: String },
}

pub enum ManifestErrorView {
    EmptyVersion,
    UnsupportedVersion { found: Seq<char> },
    EmptyId,
    EmptyDisplayName,
    EmptyWorkerVersion,
    EmptyTenant,
    EmptyTeam,
    EmptyDefaultLocale,
    Capability(ValidationErrorView),
    StrictRequestedOutputMismatch,
    MissingDeepLoopCoreCapabilities,
    MissingDelegationCapability,
    MissingReflectionCapability,
    TenantMismatch { request_tenant: Seq<char>, manifest_tenant: Seq<char> },
}

impl View for ManifestValidationError {
    type V = ManifestErrorView;

    open spec fn view(&self) -> ManifestErrorView {
        match self {
            ManifestValidationError::EmptyVersion => ManifestErrorView::EmptyVersion,
            ManifestValidationError::UnsupportedVersion { found } => ManifestErrorView::UnsupportedVersion { found: found@ },
            ManifestValidationError::EmptyId => ManifestErrorView::EmptyId,
            ManifestValidationError::EmptyDisplayName => ManifestErrorView::EmptyDisplayName,
            ManifestValidationError::EmptyWorkerVersion => ManifestErrorView::EmptyWorkerVersion,
            ManifestValidationError::EmptyTenant => ManifestErrorView::EmptyTenant,
            ManifestValidationError::EmptyTeam => ManifestErrorView::EmptyTeam,
            ManifestValidationError::EmptyDefaultLocale => ManifestErrorView::EmptyDefaultLocale,
            ManifestValidationError::Capability(e) => ManifestErrorView::Capability(e@),
            ManifestValidationError::StrictRequestedOutputMismatch => ManifestErrorView::StrictRequestedOutputMismatch,
            ManifestValidationError::MissingDeepLoopCoreCapabilities => ManifestErrorView::MissingDeepLoopCoreCapabilities,
            ManifestValidationError::MissingDelegationCapability => ManifestErrorView::MissingDelegationCapability,
            ManifestValidationError::MissingReflectionCapability => ManifestErrorView::MissingReflectionCapability,
            ManifestValidationError::TenantMismatch { request_tenant, manifest_tenant } => {
                ManifestErrorView::TenantMismatch { request_tenant: request_tenant@, manifest_tenant: manifest_tenant@ }
            },
        }
    }
}

/// The manifest schema version as a new string.
pub fn default_manifest_schema_version() -> (r: String)
    ensures
        r@ == MANIFEST_SCHEMA_VERSION@,
{
    String::from_str(MANIFEST_SCHEMA_VERSION)
}

/// Whether the team policy carries a blank default team.
pub open spec fn blank_default_team(p: &TeamPolicy) -> bool {
    match p {
        TeamPolicy::Disabled => false,
        TeamPolicy::Optional { default_team, .. } => match default_team {
            Some(t) => is_blank(t@),
            None => false,
        },
    }
}

/// Whether the output guidance keeps the requested locale.
pub open spec fn output_keeps_requested(o: &OutputLocaleGuidance) -> bool {
    match o {
        OutputLocaleGuidance::MatchRequested => true,
        OutputLocaleGuidance::Explicit(_) => true,
        OutputLocaleGuidance::WorkerDefault => false,
    }
}

/// The deep-agent rule broken by an enabled configuration, if any.
pub open spec fn deep_agent_check(d: &DeepAgentConfig) -> Option<ManifestErrorView> {
    if !d.enabled {
        None
    } else if d.planning_capability is None || d.context_capability is None {
        Some(ManifestErrorView::MissingDeepLoopCoreCapabilities)
    } else if d.plan_step_kinds@.contains(PlanStepKind::Delegate) && d.delegation_capability is None {
        Some(ManifestErrorView::MissingDelegationCapability)
    } else if d.reflection_policy_mandatory && d.reflection_capability is None {
        Some(ManifestErrorView::MissingReflectionCapability)
    } else {
        None
    }
}

/// Everything `validate` checks, in its order.
pub open spec fn manifest_check(m: &DigitalWorkerManifest) -> Option<ManifestErrorView> {
    if is_blank(m.version@) {
        Some(ManifestErrorView::EmptyVersion)
    } else if m.version@ != MANIFEST_SCHEMA_VERSION@ {
        Some(ManifestErrorView::UnsupportedVersion { found: m.version@ })
    } else if is_blank(m.id@) {
        Some(ManifestErrorView::EmptyId)
    } else if is_blank(m.display_name@) {
        Some(ManifestErrorView::EmptyDisplayName)
    } else if m.worker_version matches Some(v) && is_blank(v@) {
        Some(ManifestErrorView::EmptyWorkerVersion)
    } else if is_blank(m.tenancy.tenant@) {
        Some(ManifestErrorView::EmptyTenant)
    } else if blank_default_team(&m.tenancy.team_policy) {
        Some(ManifestErrorView::EmptyTeam)
    } else if declaration_check(m.capabilities@) is Some {
        Some(ManifestErrorView::Capability(declaration_check(m.capabilities@)->Some_0))
    } else if is_blank(m.locale.worker_default_locale@) {
        Some(ManifestErrorView::EmptyDefaultLocale)
    } else if m.locale.policy == WorkerLocalePolicy::StrictRequested && !output_keeps_requested(&m.locale.output) {
        Some(ManifestErrorView::StrictRequestedOutputMismatch)
    } else {
        match &m.deep_agent {
            Some(d) => deep_agent_check(d),
            None => None,
        }
    }
}

pub open spec fn manifest_reports(r: Result<(), ManifestValidationError>, c: Option<ManifestErrorView>) -> bool {
    match r {
        Ok(_) => c is None,
        Err(e) => c == Some(e@),
    }
}

fn has_delegate_step(kinds: &Vec<PlanStepKind>) -> (r: bool)
    ensures
        r == kinds@.contains(PlanStepKind::Delegate),
{
    let mut i: usize = 0;
    while i < kinds.len()
        invariant
            i <= kinds.len(),
            forall|k: int| 0 <= k < i ==> kinds@[k] != PlanStepKind::Delegate,
        decreases kinds.len() - i,
    {
        if let PlanStepKind::Delegate = kinds[i] {
            assert(kinds@[i as int] == PlanStepKind::Delegate);
            return true;
        }
        i = i + 1;
    }
    false
}

/// Team of a resolved scope under `policy` for a request asking for `requested`.
pub open spec fn resolved_team(policy: &TeamPolicy, requested: Option<Seq<char>>) -> Option<Seq<char>> {
    match policy {
        TeamPolicy::Disabled => None,
        TeamPolicy::Optional { default_team, allow_request_override } => if *allow_request_override && requested is Some {
            requested
        } else {
            opt_string_view(*default_team)
        },
    }
}

fn clone_team(t: &Option<String>) -> (r: Option<String>)
    ensures
        opt_string_view(r) == opt_string_view(*t),
{
    match t {
        Some(s) => Some(s.clone()),
        None => None,
    }
}

impl DigitalWorkerManifest {
    /// Converts a legacy manifest into the current contract: current schema
    /// version, the legacy version as worker version, no capabilities and no
    /// deep-agent configuration.
    pub fn from_legacy(legacy: LegacyDigitalWorkerManifest) -> (r: Self)
        ensures
            r.version@ == MANIFEST_SCHEMA_VERSION@,
            r.id == legacy.id,
            r.display_name == legacy.display_name,
            r.worker_version == Some(legacy.version),
            r.capabilities@.offers.len() == 0 && r.capabilities@.requires.len() == 0,
            r.capabilities@.consumes.len() == 0 && r.capabilities@.profiles.len() == 0,
            r.tenancy == legacy.tenancy,
            r.locale == legacy.locale,
            r.deep_agent is None,
    {
        DigitalWorkerManifest {
            version: default_manifest_schema_version(),
            id: legacy.id,
            display_name: legacy.display_name,
            worker_version: Some(legacy.version),
            capabilities: CapabilityDeclaration::new(),
            tenancy: legacy.tenancy,
            locale: legacy.locale,
            deep_agent: None,
        }
    }

    /// Validates the manifest contract rules; reports the first violation.
    pub fn validate(&self) -> (r: Result<(), ManifestValidationError>)
        ensures
            manifest_reports(r, manifest_check(self)),
    {
        if str_is_blank(self.version.as_str()) {
            return Err(ManifestValidationError::EmptyVersion);
        }
        if !str_equal(self.version.as_str(), MANIFEST_SCHEMA_VERSION) {
            return Err(ManifestValidationError::UnsupportedVersion { found: self.version.clone() });
        }
        if str_is_blank(self.id.as_str()) {
            return Err(ManifestValidationError::EmptyId);
        }
        if str_is_blank(self.display_name.as_str()) {
            return Err(ManifestValidationError::EmptyDisplayName);
        }
        if let Some(version) = &self.worker_version {
            if str_is_blank(version.as_str()) {
                return Err(ManifestValidationError::EmptyWorkerVersion);
            }
        }
        if str_is_blank(self.tenancy.tenant.as_str()) {
            return Err(ManifestValidationError::EmptyTenant);
        }
        match &self.tenancy.team_policy {
            TeamPolicy::Disabled => {},
            TeamPolicy::Optional { default_team, .. } => {
                if let Some(team) = default_team {
                    if str_is_blank(team.as_str()) {
                        return Err(ManifestValidationError::EmptyTeam);
                    }
                }
            },
        }
        if let Err(e) = self.capabilities.validate() {
            return Err(ManifestValidationError::Capability(e));
        }
        if str_is_blank(self.locale.worker_default_locale.as_str()) {
            return Err(ManifestValidationError::EmptyDefaultLocale);
        }
        let strict = match self.locale.policy {
            WorkerLocalePolicy::StrictRequested => true,
            _ => false,
        };
        let keeps = match &self.locale.output {
            OutputLocaleGuidance::MatchRequested => true,
            OutputLocaleGuidance::Explicit(_) => true,
            OutputLocaleGuidance::WorkerDefault => false,
        };
        if strict && !keeps {
            return Err(ManifestValidationError::StrictRequestedOutputMismatch);
        }
        if let Some(deep_agent) = &self.deep_agent {
            if deep_agent.enabled {
                if deep_agent.planning_capability.is_none() || deep_agent.context_capability.is_none() {
                    return Err(ManifestValidationError::MissingDeepLoopCoreCapabilities);
                }
                if has_delegate_step(&deep_agent.plan_step_kinds) && deep_agent.delegation_capability.is_none() {
                    return Err(ManifestValidationError::MissingDelegationCapability);
                }
                if deep_agent.reflection_policy_mandatory && deep_agent.reflection_capability.is_none() {
                    return Err(ManifestValidationError::MissingReflectionCapability);
                }
            }
        }
        Ok(())
    }

    /// Resolves the effective tenant/team scope of a request: the manifest
    /// must be valid and the request's tenant must be the manifest's; the team
    /// follows the team policy.
    pub fn resolve_scope(&self, request_scope: &RequestScope) -> (r: Result<ResolvedScope, ManifestValidationError>)
        ensures
            manifest_check(self) is Some ==> (r matches Err(e) && Some(e@) == manifest_check(self)),
            manifest_check(self) is None && request_scope.tenant@ != self.tenancy.tenant@ ==> (r matches Err(e) && e@
                == ManifestErrorView::TenantMismatch {
                request_tenant: request_scope.tenant@,
                manifest_tenant: self.tenancy.tenant@,
            }),
            manifest_check(self) is None && request_scope.tenant@ == self.tenancy.tenant@ ==> (r matches Ok(s)
                && s.tenant@ == self.tenancy.tenant@ && opt_string_view(s.team) == resolved_team(
                &self.tenancy.team_policy,
                opt_string_view(request_scope.team),
            )),
    {
        self.validate()?;
        if !str_equal(request_scope.tenant.as_str(), self.tenancy.tenant.as_str()) {
            return Err(
                ManifestValidationError::TenantMismatch {
                    request_tenant: request_scope.tenant.clone(),
                    manifest_tenant: self.tenancy.tenant.clone(),
                },
            );
        }
        let team = match &self.tenancy.team_policy {
            TeamPolicy::Disabled => None,
            TeamPolicy::Optional { default_team, allow_request_override } => {
                if *allow_request_override && request_scope.team.is_some() {
                    clone_team(&request_scope.team)
                } else {
                    clone_team(default_team)
                }
            },
        };
        Ok(ResolvedScope { tenant: self.tenancy.tenant.clone(), team })
    }

    /// Builds the task envelope of a request: a created task in the resolved
    /// scope, carrying the manifest's locale settings and the request's
    /// locales.
    pub fn to_task_envelope(
        &self,
        task_id: String,
        worker_id: String,
        request_scope: &RequestScope,
        requested_locale: Option<String>,
        human_locale: Option<String>,
    ) -> (r: Result<TaskEnvelope, ManifestValidationError>)
        ensures
            manifest_check(self) is Some ==> (r matches Err(e) && Some(e@) == manifest_check(self)),
            manifest_check(self) is None && request_scope.tenant@ != self.tenancy.tenant@ ==> (r matches Err(e) && e@
                == ManifestErrorView::TenantMismatch {
                request_tenant: request_scope.tenant@,
                manifest_tenant: self.tenancy.tenant@,
            }),
            manifest_check(self) is None && request_scope.tenant@ == self.tenancy.tenant@ ==> (r matches Ok(t)
                && t.task_id == task_id && t.worker_id == worker_id && t.state == TaskLifecycleState::Created
                && t.scope.tenant@ == self.tenancy.tenant@ && opt_string_view(t.scope.team) == resolved_team(
                &self.tenancy.team_policy,
                opt_string_view(request_scope.team),
            ) && t.locale.worker_default_locale@ == self.locale.worker_default_locale@ && t.locale.requested_locale
                == requested_locale && t.locale.human_locale == human_locale && t.locale.policy == self.locale.policy
                && t.locale.propagation == self.locale.propagation && output_same(&t.locale.output, &self.locale.output)),
    {
        let scope = self.resolve_scope(request_scope)?;
        let output = match &self.locale.output {
            OutputLocaleGuidance::WorkerDefault => OutputLocaleGuidance::WorkerDefault,
            OutputLocaleGuidance::MatchRequested => OutputLocaleGuidance::MatchRequested,
            OutputLocaleGuidance::Explicit(l) => OutputLocaleGuidance::Explicit(l.clone()),
        };
        let locale = LocaleContext {
            worker_default_locale: self.locale.worker_default_locale.clone(),
            requested_locale,
            human_locale,
            policy: self.locale.policy,
            propagation: self.locale.propagation,
            output,
        };
        Ok(
            TaskEnvelope {
                task_id,
                worker_id,
                state: TaskLifecycleState::Created,
                scope: TenantScope { tenant: scope.tenant, team: scope.team },
                locale,
            },
        )
    }

    /// The capability families a deep agent draws on.
    pub fn deep_agent_capability_families() -> (r: [&'static str; 5])
        ensures
            r@ == seq![
                CAPABILITY_FAMILY_PLANNING,
                CAPABILITY_FAMILY_WORKSPACE,
                CAPABILITY_FAMILY_DELEGATION,
                CAPABILITY_FAMILY_REFLECTION,
                CAPABILITY_FAMILY_CONTEXT,
            ],
    {
        let r = [
            CAPABILITY_FAMILY_PLANNING,
            CAPABILITY_FAMILY_WORKSPACE,
            CAPABILITY_FAMILY_DELEGATION,
            CAPABILITY_FAMILY_REFLECTION,
            CAPABILITY_FAMILY_CONTEXT,
        ];
        assert(r@ =~= seq![
            CAPABILITY_FAMILY_PLANNING,
            CAPABILITY_FAMILY_WORKSPACE,
            CAPABILITY_FAMILY_DELEGATION,
            CAPABILITY_FAMILY_REFLECTION,
            CAPABILITY_FAMILY_CONTEXT,
        ]);
        r
    }
}

/// Two output guidances with the same variant and locale text.
pub open spec fn output_same(a: &OutputLocaleGuidance, b: &OutputLocaleGuidance) -> bool {
    match (a, b) {
        (OutputLocaleGuidance::WorkerDefault, OutputLocaleGuidance::WorkerDefault) => true,
        (OutputLocaleGuidance::MatchRequested, OutputLocaleGuidance::MatchRequested) => true,
        (OutputLocaleGuidance::Explicit(x), OutputLocaleGuidance::Explicit(y)) => x@ == y@,
        _ => false,
    }
}

} // verus!
