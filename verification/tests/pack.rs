use std::sync::{Arc, Mutex};

use greentic_dw::cap_resolver::{CapabilityResolutionIssue, CapabilityResolutionReport};
use greentic_dw::cap_types::{
    CapabilityBindingKind, CapabilityComponentDescriptor, CapabilityComponentOperation, CapabilityConsume,
    CapabilityDeclaration, CapabilityId, CapabilityOffer, CapabilityProviderOperationMap, CapabilityProviderRef,
    CapabilityRequirement, CapabilityResolution,
};
use greentic_dw::manifest::{
    LocaleContext, LocalePropagation, OutputLocaleGuidance, TaskEnvelope, TaskLifecycleState, TenantScope,
    WorkerLocalePolicy,
};
use greentic_dw::pack::{
    decision_outcome, pack_capabilities, unresolved_capability_request_ids, validate_pack_capabilities, ControlHook, HookDecision,
    HookError, ObserverSub, PackIntegration,
};
use greentic_dw::runtime::{RuntimeEvent, RuntimeOperation};

fn cap(value: &str) -> CapabilityId {
    CapabilityId::new(value.to_string()).expect("cap")
}

fn sample_envelope() -> TaskEnvelope {
    TaskEnvelope {
        task_id: "task-1".to_string(),
        worker_id: "worker-1".to_string(),
        state: TaskLifecycleState::Created,
        scope: TenantScope { tenant: "tenant-a".to_string(), team: None },
        locale: LocaleContext {
            worker_default_locale: "en-US".to_string(),
            requested_locale: None,
            human_locale: None,
            policy: WorkerLocalePolicy::WorkerDefault,
            propagation: LocalePropagation::CurrentTaskOnly,
            output: OutputLocaleGuidance::WorkerDefault,
        },
    }
}

struct BlockStartHook;

impl ControlHook for BlockStartHook {
    fn pre_operation(&self, _envelope: &TaskEnvelope, operation: &RuntimeOperation) -> HookDecision {
        if matches!(operation, RuntimeOperation::Start) {
            HookDecision::Block { reason: "start disabled by policy".to_string() }
        } else {
            HookDecision::Continue
        }
    }

    fn post_operation(&self, _envelope: &TaskEnvelope, _event: &RuntimeEvent) {}
}

struct RecordingObserver {
    count: Arc<Mutex<u32>>,
}

impl ObserverSub for RecordingObserver {
    fn on_operation(&self, _event: &RuntimeEvent) {
        let mut count = self.count.lock().expect("lock count");
        *count += 1;
    }
}

#[test]
fn pre_hook_can_block_operation() {
    let integration = PackIntegration::new().with_control_hook(Box::new(BlockStartHook));
    let env = sample_envelope();
    let err = integration.run_pre_hooks(&env, &RuntimeOperation::Start).expect_err("start should be blocked");
    assert_eq!(err, HookError::Blocked { reason: "start disabled by policy".to_string() });
    assert!(integration.run_pre_hooks(&env, &RuntimeOperation::Step).is_ok());
}

#[test]
fn no_hooks_let_every_operation_through() {
    let integration = PackIntegration::new();
    assert_eq!(integration.run_pre_hooks(&sample_envelope(), &RuntimeOperation::Start), Ok(()));
}

#[test]
fn observer_receives_event() {
    let count = Arc::new(Mutex::new(0));
    let integration =
        PackIntegration::new().with_observer_sub(Box::new(RecordingObserver { count: Arc::clone(&count) }));
    let event = RuntimeEvent {
        task_id: "task-1".to_string(),
        worker_id: "worker-1".to_string(),
        operation: RuntimeOperation::Start,
        from_state: TaskLifecycleState::Created,
        to_state: TaskLifecycleState::Running,
    };
    integration.notify_observers(&event);
    assert_eq!(*count.lock().expect("lock count"), 1);
}

fn capability_component() -> CapabilityComponentDescriptor {
    CapabilityComponentDescriptor {
        component_ref: "component:memory.redis".to_string(),
        version: "1.0.0".to_string(),
        operations: vec![
            CapabilityComponentOperation {
                name: "memory.get".to_string(),
                input_schema: r#"{"type":"object"}"#.to_string(),
                output_schema: r#"{"type":"string"}"#.to_string(),
            },
            CapabilityComponentOperation {
                name: "memory.put".to_string(),
                input_schema: r#"{"type":"object"}"#.to_string(),
                output_schema: r#"{"type":"null"}"#.to_string(),
            },
        ],
        capabilities: vec![cap("cap://dw.memory.short-term")],
        metadata: Vec::new(),
    }
}

fn capability_declaration() -> CapabilityDeclaration {
    let mut declaration = CapabilityDeclaration::new();
    let mut offer = CapabilityOffer::new("offer.short-term-memory".to_string(), cap("cap://dw.memory.short-term"));
    offer.provider = Some(CapabilityProviderRef {
        component_ref: "component:memory.redis".to_string(),
        operation: "memory.put".to_string(),
        operation_map: vec![
            CapabilityProviderOperationMap {
                contract_operation: "get".to_string(),
                component_operation: "memory.get".to_string(),
                input_schema: r#"{"type":"object"}"#.to_string(),
                output_schema: r#"{"type":"string"}"#.to_string(),
            },
            CapabilityProviderOperationMap {
                contract_operation: "put".to_string(),
                component_operation: "memory.put".to_string(),
                input_schema: r#"{"type":"object"}"#.to_string(),
                output_schema: r#"{"type":"null"}"#.to_string(),
            },
        ],
    });
    declaration.offers.push(offer);
    let mut requirement = CapabilityRequirement::new("require.memory".to_string(), cap("cap://dw.memory.short-term"));
    requirement.description = Some("short term memory".to_string());
    declaration.requires.push(requirement);
    let mut consume = CapabilityConsume::new("consume.memory".to_string(), cap("cap://dw.memory.short-term"));
    consume.description = Some("short term memory".to_string());
    declaration.consumes.push(consume);
    declaration
}

#[test]
fn pack_capabilities_round_trip_and_validate() {
    let section = pack_capabilities(capability_declaration());
    assert_eq!(section.schema_version, 1);
    assert_eq!(section.declaration, capability_declaration());
    let reports = validate_pack_capabilities(&section, &capability_component()).expect("validate");
    assert_eq!(reports.len(), 1);
    assert!(reports[0].compatible);
}

#[test]
fn unresolved_capability_requests_are_surfaceable_for_setup() {
    let report = CapabilityResolutionReport {
        profile_id: Some("dw-default".to_string()),
        resolution: CapabilityResolution::new(CapabilityDeclaration::new()),
        issues: vec![
            CapabilityResolutionIssue::UnresolvedRequest {
                profile_id: Some("dw-default".to_string()),
                request_id: "require.dw.memory".to_string(),
                capability: cap("cap://dw.memory.short-term"),
                request_kind: CapabilityBindingKind::Requirement,
            },
            CapabilityResolutionIssue::AmbiguousOffer {
                profile_id: Some("dw-default".to_string()),
                request_id: "consume.dw.memory".to_string(),
                capability: cap("cap://dw.memory.short-term"),
                request_kind: CapabilityBindingKind::Consume,
                candidates: vec!["offer.a".to_string(), "offer.b".to_string()],
                chosen: "offer.a".to_string(),
            },
        ],
    };
    let unresolved = unresolved_capability_request_ids(&report);
    assert_eq!(unresolved, vec!["require.dw.memory".to_string()]);
}

#[test]
fn hook_decisions_map_to_outcomes() {
    assert_eq!(decision_outcome(HookDecision::Continue), Ok(()));
    assert_eq!(
        decision_outcome(HookDecision::Block { reason: "nope".to_string() }),
        Err(HookError::Blocked { reason: "nope".to_string() })
    );
}
