use greentic_dw::cap_types::CapabilityId;
use greentic_dw::composition::{composition_request, setup_block_is_required, SetupRequirement};
use greentic_dw::wizard::{
    AgentAnswerDocument, AgentAnswers, AnswerDocument, AnswerEntry, AnswerValue, DefaultProvider,
    DigitalWorkerTemplate, DwProviderCatalog, DwProviderCatalogEntry, DwResolutionMode, DwWizardQuestionBlock,
    ProviderOverride, QuestionPhase, QuestionScope, QuestionSource, QuestionVisibility,
};

fn cap(value: &str) -> CapabilityId {
    CapabilityId::new(value.to_string()).expect("cap")
}

fn text(key: &str, value: &str) -> AnswerEntry {
    AnswerEntry { key: key.to_string(), value: AnswerValue::Text(value.to_string()) }
}

fn override_of(capability_id: &str, provider_id: &str) -> ProviderOverride {
    ProviderOverride { capability_id: capability_id.to_string(), provider_id: provider_id.to_string() }
}

fn template(multi_agent: bool) -> DigitalWorkerTemplate {
    DigitalWorkerTemplate {
        id: "dw.support-assistant".to_string(),
        name: "Support Assistant".to_string(),
        supports_multi_agent_app_pack: multi_agent,
        default_block_ids: vec![],
        review_all_block_ids: vec![],
        question_blocks: vec![],
        required_capabilities: vec![],
        optional_capabilities: vec![],
        default_provider_ids: vec![],
        support_pack_refs: vec![],
        bundle_notes: vec![],
        defaults: vec![],
    }
}

fn answers(design_answers: Vec<AnswerEntry>) -> AnswerDocument {
    AnswerDocument {
        manifest_id: "dw.support-app".to_string(),
        display_name: "Support App".to_string(),
        manifest_version: "0.5".to_string(),
        tenant: "tenant-a".to_string(),
        template_id: Some("dw.support-assistant".to_string()),
        review_mode: Some(DwResolutionMode::ReviewAll),
        provider_overrides: Vec::new(),
        design_answers,
        agent_answers: Vec::new(),
        team: None,
        requested_locale: None,
        human_locale: None,
        worker_default_locale: "en-US".to_string(),
    }
}

fn chat_provider(id: &str) -> DwProviderCatalogEntry {
    DwProviderCatalogEntry {
        provider_id: id.to_string(),
        display_name: id.to_string(),
        capability_contract_ids: vec![cap("cap://llm/chat")],
        template_compatibility: vec![],
        recommended_for_templates: vec![],
        is_default_choice: false,
        is_recommended_choice: false,
        required_question_block_ids: vec![],
        question_blocks: vec![],
        required_setup_schema_refs: vec![],
    }
}

#[test]
fn composition_expands_multi_agent_count_into_stable_agents() {
    let request = composition_request(&answers(vec![text("agent_count", "2")]), &template(true), None);
    assert_eq!(request.agents.len(), 2);
    assert_eq!(request.agents[0].agent_id, "dw.support-app.agent-1");
    assert_eq!(request.agents[1].agent_id, "dw.support-app.agent-2");
    assert_eq!(request.agents[0].display_name, "Support App 1");
    assert_eq!(request.agents[1].display_name, "Support App 2");
    assert_eq!(request.application_id, "dw.support-app");
    assert_eq!(request.version, "0.5");
    assert_eq!(request.mode, DwResolutionMode::ReviewAll);
}

#[test]
fn a_single_agent_is_the_application() {
    let mut doc = answers(vec![text("agent_count", "3")]);
    doc.review_mode = None;
    let request = composition_request(&doc, &template(false), None);
    assert_eq!(request.agents.len(), 1);
    assert_eq!(request.agents[0].agent_id, "dw.support-app");
    assert_eq!(request.agents[0].display_name, "Support App");
    assert_eq!(request.mode, DwResolutionMode::Recommended);

    let mut anonymous = answers(vec![text("agent_count", "2")]);
    anonymous.manifest_id = " ".to_string();
    let request = composition_request(&anonymous, &template(true), None);
    assert_eq!(request.agents[1].agent_id, "agent-2");
}

#[test]
fn composition_applies_per_agent_scoped_design_answers() {
    let doc = answers(vec![
        text("agent_count", "2"),
        text("support_behavior", "shared"),
        text("agent.2.support_behavior", "second"),
    ]);
    let request = composition_request(&doc, &template(true), None);
    let find = |agent: usize, key: &str| {
        request.agents[agent].answers.iter().find(|entry| entry.key == key).map(|entry| value_text(&entry.value))
    };
    assert_eq!(find(0, "support_behavior"), Some("shared".to_string()));
    assert_eq!(find(1, "support_behavior"), Some("second".to_string()));
}

fn value_text(value: &AnswerValue) -> String {
    match value {
        AnswerValue::Text(text) | AnswerValue::Json(text) => text.clone(),
    }
}

#[test]
fn composition_applies_per_agent_provider_overrides() {
    let mut t = template(true);
    t.required_capabilities = vec![cap("cap://llm/chat")];
    t.default_provider_ids =
        vec![DefaultProvider { capability: cap("cap://llm/chat"), provider_id: "provider.llm.openai.chat".to_string() }];
    let catalog = DwProviderCatalog {
        entries: vec![chat_provider("provider.llm.openai.chat"), chat_provider("provider.llm.openai.chat-lite")],
    };
    let mut doc = answers(vec![text("agent_count", "2"), text("provider_strategy", "per_agent")]);
    doc.agent_answers.push(AgentAnswers {
        agent_id: "agent-2".to_string(),
        answers: AgentAnswerDocument {
            provider_overrides: vec![override_of("cap://llm/chat", "provider.llm.openai.chat-lite")],
            design_answers: vec![],
        },
    });
    let request = composition_request(&doc, &t, Some(&catalog));
    assert!(request.shared_provider_overrides.is_empty());
    assert_eq!(request.agents[0].provider_overrides, vec![override_of("cap://llm/chat", "provider.llm.openai.chat")]);
    assert_eq!(
        request.agents[1].provider_overrides,
        vec![override_of("cap://llm/chat", "provider.llm.openai.chat-lite")]
    );

    let shared = composition_request(&answers(vec![text("agent_count", "2")]), &t, Some(&catalog));
    assert_eq!(shared.shared_provider_overrides, vec![override_of("cap://llm/chat", "provider.llm.openai.chat")]);
    assert!(shared.agents[0].provider_overrides.is_empty());
}

fn setup_block(block_id: &str, provider_id: &str) -> DwWizardQuestionBlock {
    DwWizardQuestionBlock {
        block_id: block_id.to_string(),
        source: QuestionSource::Provider { provider_id: provider_id.to_string() },
        owner: format!("provider:{provider_id}"),
        path: format!("provider.{provider_id}.{block_id}"),
        answer_key: None,
        prompt: None,
        scope: QuestionScope::Provider { provider_id: Some(provider_id.to_string()), agent_id: None },
        phase: QuestionPhase::Setup,
        visibility: QuestionVisibility::HiddenUnlessNeeded,
        source_ref: None,
        summary: None,
    }
}

#[test]
fn setup_blocks_are_required_by_block_or_provider() {
    let by_block = vec![SetupRequirement { question_block_id: Some("kb.url".to_string()), provider_id: None }];
    let by_provider = vec![SetupRequirement { question_block_id: None, provider_id: Some("kb".to_string()) }];
    assert!(setup_block_is_required(&setup_block("kb.url", "other"), &by_block));
    assert!(setup_block_is_required(&setup_block("kb.token", "kb"), &by_provider));
    assert!(!setup_block_is_required(&setup_block("kb.token", "other"), &by_block));
    assert!(!setup_block_is_required(&setup_block("kb.url", "kb"), &vec![]));
}
