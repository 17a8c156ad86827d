use greentic_dw::delegation::{DelegationError, DelegationProvider, DelegationRequest};
use greentic_dw::invoker::{
    build_envelope, extract_goal, fallback_reply, loop_status_name, outcome_from_run, plan_request, reply_user_prompt,
    reviewer_choice, settle_reply, steps_word, strip_delegate_steps, validate_operation, without_delegate, DeepLoopStatus, DeepWorkerSettings,
    OperationError, RefuseDelegation, ResolvedSettings, ReviewerChoice, DEFAULT_MAX_ITERATIONS,
    NO_DELEGATION_CONSTRAINT,
};
use greentic_dw::manifest::TaskLifecycleState;
use greentic_dw::planning::{PlanDocument, PlanStatus, PlanStep, PlanStepKind, PlanStepStatus};
use greentic_dw::reflection::ReviewVerdict;

fn plan_step(id: &str, title: &str, kind: PlanStepKind, status: PlanStepStatus, agent: Option<&str>) -> PlanStep {
    PlanStep {
        step_id: id.to_string(),
        title: title.to_string(),
        kind,
        status,
        depends_on: vec![],
        assigned_agent: agent.map(str::to_string),
        inputs_schema_ref: None,
        output_schema_ref: None,
        retry_count: 0,
    }
}

fn steps(items: &[(&str, PlanStepStatus)]) -> Vec<PlanStep> {
    items
        .iter()
        .enumerate()
        .map(|(i, (title, status))| plan_step(&format!("s{i}"), title, PlanStepKind::ToolCall, *status, None))
        .collect()
}

#[test]
fn refuse_delegation_refuses_every_call() {
    let delegator = RefuseDelegation;
    let err = delegator
        .choose_delegate(DelegationRequest { goal: "g".into(), candidate_agents: vec!["helper".into()] })
        .expect_err("delegation is off");
    match err {
        DelegationError::Validation(message) => assert!(message.contains("delegation is switched off")),
        other => panic!("unexpected error {other:?}"),
    }
}

#[test]
fn strip_delegate_steps_rewrites_only_delegate_steps() {
    let mut plan = PlanDocument {
        plan_id: "p".into(),
        goal: "g".into(),
        status: PlanStatus::Active,
        revision: 1,
        assumptions: vec![],
        constraints: vec![],
        success_criteria: vec!["task completed".into()],
        steps: vec![
            plan_step("s1", "Step s1", PlanStepKind::Delegate, PlanStepStatus::Ready, Some("helper")),
            plan_step("s2", "Step s2", PlanStepKind::ToolCall, PlanStepStatus::Ready, None),
        ],
        edges: vec![],
        metadata: vec![],
    };
    strip_delegate_steps(&mut plan);
    assert_eq!(plan.steps[0].kind, PlanStepKind::Research);
    assert_eq!(plan.steps[0].assigned_agent, None);
    assert_eq!(plan.steps[1].kind, PlanStepKind::ToolCall);
}

#[test]
fn strip_delegate_steps_keeps_titles_and_other_agents() {
    let mut plan = PlanDocument {
        plan_id: "p".into(),
        goal: "g".into(),
        status: PlanStatus::Active,
        revision: 3,
        assumptions: vec![],
        constraints: vec![],
        success_criteria: vec!["done".into()],
        steps: vec![plan_step("s1", "Ask", PlanStepKind::ToolCall, PlanStepStatus::Pending, Some("me"))],
        edges: vec![],
        metadata: vec![],
    };
    strip_delegate_steps(&mut plan);
    assert_eq!(plan.steps[0].assigned_agent.as_deref(), Some("me"));
    assert_eq!(plan.steps[0].title, "Ask");
    assert_eq!(plan.revision, 3);
}

#[test]
fn user_prompt_carries_goal_outcome_and_every_step() {
    let prompt = reply_user_prompt(
        "Refund order 42",
        DeepLoopStatus::BudgetExhausted,
        &steps(&[("Look up the order", PlanStepStatus::Completed), ("Issue the refund", PlanStepStatus::Ready)]),
    );
    assert!(prompt.contains("Goal: Refund order 42"));
    assert!(prompt.contains("Outcome: budget_exhausted"));
    assert!(prompt.contains("1. Look up the order — completed"));
    assert!(prompt.contains("2. Issue the refund — ready"));
}

#[test]
fn user_prompt_without_steps_says_so() {
    let prompt = reply_user_prompt("G", DeepLoopStatus::Completed, &vec![]);
    assert_eq!(prompt, "Goal: G\nOutcome: completed\n\nPlan steps:\n(no steps)");
}

#[test]
fn fallback_sentences_are_prose_for_every_terminal_status() {
    let done = steps(&[("A", PlanStepStatus::Completed), ("B", PlanStepStatus::Completed)]);
    assert_eq!(fallback_reply(DeepLoopStatus::Completed, &done), "The task completed in 2 steps.");
    assert_eq!(
        fallback_reply(DeepLoopStatus::Completed, &steps(&[("A", PlanStepStatus::Completed)])),
        "The task completed in 1 step."
    );
    let half = steps(&[("A", PlanStepStatus::Completed), ("B", PlanStepStatus::Ready)]);
    assert_eq!(
        fallback_reply(DeepLoopStatus::BudgetExhausted, &half),
        "The task stopped after reaching its step budget, with 1 of 2 steps done."
    );
    assert_eq!(
        fallback_reply(DeepLoopStatus::Failed, &half),
        "The task could not be completed; 1 of 2 steps were done before it stopped."
    );
    assert_eq!(
        fallback_reply(DeepLoopStatus::Revising, &half),
        "The task stopped because its plan needed revising; 1 of 2 steps were done."
    );
    assert_eq!(
        fallback_reply(DeepLoopStatus::Delegating, &half),
        "The task was handed to other workers and has no result yet."
    );
    for sentence in [fallback_reply(DeepLoopStatus::Planning, &vec![]), fallback_reply(DeepLoopStatus::Failed, &vec![])]
    {
        assert!(!sentence.trim_start().starts_with('{'), "never JSON: {sentence}");
    }
    assert_eq!(fallback_reply(DeepLoopStatus::Planning, &vec![]), "The task stopped while planning.");
}

#[test]
fn loop_status_names_are_snake_case() {
    assert_eq!(loop_status_name(DeepLoopStatus::BudgetExhausted), "budget_exhausted");
    assert_eq!(loop_status_name(DeepLoopStatus::Completed), "completed");
    assert_eq!(steps_word(1), "step");
    assert_eq!(steps_word(0), "steps");
}

#[test]
fn extract_goal_prefers_goal_then_user_text_then_default() {
    assert_eq!(extract_goal(Some("X"), None), "X");
    assert_eq!(extract_goal(None, Some("Y")), "Y");
    assert_eq!(extract_goal(None, None), "Execute the requested task");
    assert_eq!(extract_goal(Some("X"), Some("Y")), "X");
}

#[test]
fn build_envelope_populates_fields() {
    let env = build_envelope("acme", "researcher", "run-1");
    assert_eq!(env.scope.tenant, "acme");
    assert_eq!(env.worker_id, "researcher");
    assert_eq!(env.task_id, "run-1");
    assert!(env.scope.team.is_none());
    assert_eq!(env.state, TaskLifecycleState::Created);
    assert_eq!(env.locale.worker_default_locale, "en-US");
}

#[test]
fn validate_operation_accepts_empty_and_run() {
    assert!(validate_operation("").is_ok());
    assert!(validate_operation("run").is_ok());
    assert!(validate_operation("RUN").is_ok());
    assert!(validate_operation(" run ").is_ok());
}

#[test]
fn validate_operation_rejects_unknown() {
    assert!(validate_operation("delete").is_err());
    assert_eq!(validate_operation("delete"), Err(OperationError::Unsupported { operation: "delete".to_string() }));
}

#[test]
fn absent_settings_resolve_to_todays_behaviour() {
    assert_eq!(
        ResolvedSettings::resolve(None),
        ResolvedSettings { max_iterations: 64, reflection: true, delegation: true }
    );
    assert_eq!(DEFAULT_MAX_ITERATIONS, 64);
}

#[test]
fn present_settings_with_missing_fields_take_the_designer_defaults() {
    assert_eq!(
        ResolvedSettings::resolve(Some(&DeepWorkerSettings::default())),
        ResolvedSettings { max_iterations: 8, reflection: false, delegation: false }
    );
}

#[test]
fn a_zero_budget_is_clamped_to_one_iteration() {
    let settings = DeepWorkerSettings { iteration_budget: Some(0), reflection: Some(true), delegation: Some(true) };
    assert_eq!(ResolvedSettings::resolve(Some(&settings)).max_iterations, 1);
}

#[test]
fn reviewer_choice_follows_reflection_and_delegation() {
    let off = ResolvedSettings { max_iterations: 3, reflection: false, delegation: true };
    assert_eq!(reviewer_choice(&off), ReviewerChoice::AcceptAll);
    let on = ResolvedSettings { max_iterations: 3, reflection: true, delegation: true };
    assert_eq!(reviewer_choice(&on), ReviewerChoice::Model);
    let guarded = ResolvedSettings { max_iterations: 3, reflection: true, delegation: false };
    assert_eq!(reviewer_choice(&guarded), ReviewerChoice::ModelWithoutDelegate);
}

#[test]
fn no_delegate_verdict_turns_a_delegate_verdict_into_accept() {
    assert_eq!(without_delegate(ReviewVerdict::Delegate), ReviewVerdict::Accept);
    assert_eq!(without_delegate(ReviewVerdict::Revise), ReviewVerdict::Revise);
}

#[test]
fn plan_request_instructs_the_planner_when_delegation_is_off() {
    let off = plan_request("g".to_string(), false);
    assert_eq!(off.constraints, vec![NO_DELEGATION_CONSTRAINT.to_string()]);
    assert_eq!(off.success_criteria, vec!["task completed".to_string()]);
    let on = plan_request("g".to_string(), true);
    assert!(on.constraints.is_empty());
    assert_eq!(on.goal, "g");
}

#[test]
fn outcome_from_run_maps_completed_failed_and_budget_exhausted() {
    let ok = outcome_from_run(DeepLoopStatus::Completed, vec!["a".to_string()], "run", "Done.".to_string());
    assert!(ok.ok);
    assert_eq!(ok.status, "completed");
    assert_eq!(ok.operation, "run");
    assert_eq!(ok.artifact_ids, vec!["a".to_string()]);
    assert_eq!(ok.reply, "Done.");
    let bad = outcome_from_run(DeepLoopStatus::Failed, vec![], "", "x".to_string());
    assert!(!bad.ok);
    assert_eq!(bad.status, "failed");
    let capped = outcome_from_run(DeepLoopStatus::BudgetExhausted, vec![], "", "x".to_string());
    assert!(!capped.ok, "only Completed is ok");
    assert_eq!(capped.status, "budget_exhausted");
}

#[test]
fn synthesis_failure_falls_back_to_a_status_sentence() {
    let done = steps(&[("A", PlanStepStatus::Completed)]);
    assert_eq!(settle_reply(None, DeepLoopStatus::Completed, &done), "The task completed in 1 step.");
}

#[test]
fn empty_synthesis_falls_back_too() {
    assert_eq!(settle_reply(Some("  \n"), DeepLoopStatus::Completed, &vec![]), "The task completed in 0 steps.");
    assert_eq!(settle_reply(Some(""), DeepLoopStatus::Completed, &vec![]), "The task completed in 0 steps.");
}

#[test]
fn synthesized_reply_is_trimmed() {
    assert_eq!(settle_reply(Some("  Refunded order 42.\n"), DeepLoopStatus::Failed, &vec![]), "Refunded order 42.");
}
