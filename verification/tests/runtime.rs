use greentic_dw::manifest::{
    LocaleContext, LocalePropagation, OutputLocaleGuidance, TaskEnvelope, TaskLifecycleState, TenantScope,
    WorkerLocalePolicy,
};
use greentic_dw::runtime::{
    apply_operation, clone_decision, target_state, CoreRuntimeError, DwEngine, EngineContext, EngineDecision,
    EngineError, RuntimeOperation, StaticEngine,
};

fn envelope_in(state: TaskLifecycleState) -> TaskEnvelope {
    TaskEnvelope {
        task_id: "task-1".to_string(),
        worker_id: "worker-1".to_string(),
        state,
        scope: TenantScope { tenant: "tenant-a".to_string(), team: Some("team-a".to_string()) },
        locale: LocaleContext {
            worker_default_locale: "en-US".to_string(),
            requested_locale: Some("fr-FR".to_string()),
            human_locale: None,
            policy: WorkerLocalePolicy::PreferRequested,
            propagation: LocalePropagation::PropagateToDelegates,
            output: OutputLocaleGuidance::MatchRequested,
        },
    }
}

fn sample_envelope() -> TaskEnvelope {
    TaskEnvelope {
        task_id: "task-1".to_string(),
        worker_id: "worker-1".to_string(),
        state: TaskLifecycleState::Created,
        scope: TenantScope { tenant: "tenant-a".to_string(), team: None },
        locale: LocaleContext {
            worker_default_locale: "en-US".to_string(),
            requested_locale: None,
            human_locale: None,
            policy: WorkerLocalePolicy::WorkerDefault,
            propagation: LocalePropagation::CurrentTaskOnly,
            output: OutputLocaleGuidance::WorkerDefault,
        },
    }
}

/// A lifecycle in which a created task must start before it can finish.
fn lifecycle(from: TaskLifecycleState, to: TaskLifecycleState) -> bool {
    matches!(
        (from, to),
        (TaskLifecycleState::Created, TaskLifecycleState::Running)
            | (TaskLifecycleState::Created, TaskLifecycleState::Cancelled)
            | (TaskLifecycleState::Running, TaskLifecycleState::Waiting)
            | (TaskLifecycleState::Running, TaskLifecycleState::Delegated)
            | (TaskLifecycleState::Running, TaskLifecycleState::Completed)
            | (TaskLifecycleState::Running, TaskLifecycleState::Failed)
            | (TaskLifecycleState::Running, TaskLifecycleState::Cancelled)
            | (TaskLifecycleState::Waiting, TaskLifecycleState::Running)
            | (TaskLifecycleState::Delegated, TaskLifecycleState::Running)
    )
}

#[test]
fn applies_legal_transition() {
    let mut env = envelope_in(TaskLifecycleState::Created);
    let event = apply_operation(&mut env, RuntimeOperation::Start, lifecycle).expect("start should be legal");
    assert_eq!(event.from_state, TaskLifecycleState::Created);
    assert_eq!(event.to_state, TaskLifecycleState::Running);
    assert_eq!(env.state, TaskLifecycleState::Running);
    assert_eq!(event.task_id, "task-1");
    assert_eq!(event.operation, RuntimeOperation::Start);
}

#[test]
fn step_keeps_running_state() {
    let mut env = envelope_in(TaskLifecycleState::Running);
    let event = apply_operation(&mut env, RuntimeOperation::Step, lifecycle).expect("step should be legal");
    assert_eq!(event.from_state, TaskLifecycleState::Running);
    assert_eq!(event.to_state, TaskLifecycleState::Running);
}

#[test]
fn rejects_illegal_transition() {
    let mut env = envelope_in(TaskLifecycleState::Created);
    let err =
        apply_operation(&mut env, RuntimeOperation::Complete, lifecycle).expect_err("complete from created should fail");
    assert_eq!(
        err,
        CoreRuntimeError::IllegalTransition {
            operation: "complete".to_string(),
            from: TaskLifecycleState::Created,
            to: TaskLifecycleState::Completed,
        }
    );
    assert_eq!(env, envelope_in(TaskLifecycleState::Created));
}

#[test]
fn operations_lead_to_their_states() {
    assert_eq!(target_state(&RuntimeOperation::Wait, TaskLifecycleState::Running), TaskLifecycleState::Waiting);
    assert_eq!(
        target_state(&RuntimeOperation::Fail { reason: "x".to_string() }, TaskLifecycleState::Running),
        TaskLifecycleState::Failed
    );
    assert_eq!(target_state(&RuntimeOperation::Step, TaskLifecycleState::Waiting), TaskLifecycleState::Waiting);
    assert_eq!(RuntimeOperation::Delegate { delegate_worker_id: "w".to_string() }.name(), "delegate");
}

#[test]
fn static_engine_returns_configured_operation() {
    let engine = StaticEngine::new(EngineDecision::Operation(RuntimeOperation::Start));
    let context = EngineContext { envelope: sample_envelope() };
    let decision = engine.decide(&context).expect("decision should succeed");
    assert_eq!(decision, EngineDecision::Operation(RuntimeOperation::Start));
}

#[test]
fn static_engine_rejects_empty_batch() {
    let engine = StaticEngine::new(EngineDecision::Batch(vec![]));
    let context = EngineContext { envelope: sample_envelope() };
    let err = engine.decide(&context).expect_err("empty batch should be rejected");
    assert_eq!(err, EngineError::EmptyBatch);
}

#[test]
fn static_engine_returns_a_full_batch() {
    let batch = EngineDecision::Batch(vec![RuntimeOperation::Start, RuntimeOperation::Fail { reason: "r".to_string() }]);
    let engine = StaticEngine::new(clone_decision(&batch));
    assert_eq!(engine.decide_static(), Ok(batch));
}
