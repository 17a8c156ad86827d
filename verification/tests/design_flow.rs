use greentic_dw::cap_types::CapabilityId;
use greentic_dw::design_flow::{
    design_prompt, next_design_step, record_design_answer, review_mode_from_response, review_mode_prompt, DesignQuestion,
    DesignStage, REVIEW_MODE_PROMPT,
};
use greentic_dw::wizard::{
    build_question_assembly, resolve_visible_blocks_for_output, AgentAnswerDocument, AgentAnswers, AnswerDocument,
    AnswerEntry, AnswerValue, DefaultProvider, DigitalWorkerTemplate, DwProviderCatalog, DwProviderCatalogEntry,
    DwResolutionMode, DwWizardQuestionBlock, ProviderOverride, ProviderQuestionBlock, QuestionPhase, QuestionScope,
    QuestionSource, QuestionVisibility, TemplateQuestionBlock,
};

fn cap(value: &str) -> CapabilityId {
    CapabilityId::new(value.to_string()).expect("cap")
}

fn answers(review_mode: Option<DwResolutionMode>) -> AnswerDocument {
    AnswerDocument {
        manifest_id: "dw.support-app".to_string(),
        display_name: "Support App".to_string(),
        manifest_version: "0.5".to_string(),
        tenant: "tenant-a".to_string(),
        template_id: Some("dw.support-assistant".to_string()),
        review_mode,
        provider_overrides: Vec::new(),
        design_answers: Vec::new(),
        agent_answers: Vec::new(),
        team: None,
        requested_locale: None,
        human_locale: None,
        worker_default_locale: "en-US".to_string(),
    }
}

fn support_template(multi_agent: bool) -> DigitalWorkerTemplate {
    DigitalWorkerTemplate {
        id: "dw.support-assistant".to_string(),
        name: "Support Assistant".to_string(),
        supports_multi_agent_app_pack: multi_agent,
        default_block_ids: vec!["dw.support.behavior".to_string()],
        review_all_block_ids: vec!["dw.support.behavior".to_string()],
        question_blocks: vec![TemplateQuestionBlock {
            block_id: "dw.support.behavior".to_string(),
            answer_key: Some("support_behavior".to_string()),
            prompt: Some("Enter support assistant behavior guidance: ".to_string()),
            required: true,
            source: None,
            summary: None,
        }],
        required_capabilities: vec![cap("cap://llm/chat")],
        optional_capabilities: vec![],
        default_provider_ids: vec![DefaultProvider {
            capability: cap("cap://llm/chat"),
            provider_id: "provider.llm.openai.chat".to_string(),
        }],
        support_pack_refs: vec![],
        bundle_notes: vec![],
        defaults: vec![],
    }
}

fn openai(id: &str) -> DwProviderCatalogEntry {
    DwProviderCatalogEntry {
        provider_id: id.to_string(),
        display_name: format!("Provider {id}"),
        capability_contract_ids: vec![cap("cap://llm/chat")],
        template_compatibility: vec![],
        recommended_for_templates: vec![],
        is_default_choice: false,
        is_recommended_choice: false,
        required_question_block_ids: vec!["provider.llm.chat.openai".to_string()],
        question_blocks: vec![ProviderQuestionBlock {
            block_id: "provider.llm.chat.openai".to_string(),
            answer_key: Some("openai_api_key_secret".to_string()),
            prompt: Some("Enter OpenAI API key secret name: ".to_string()),
            setup_schema_ref: None,
        }],
        required_setup_schema_refs: vec![],
    }
}

fn design_blocks(template: &DigitalWorkerTemplate, catalog: &DwProviderCatalog) -> Vec<DwWizardQuestionBlock> {
    build_question_assembly(template, None, Some(catalog))
        .expect("assembly")
        .blocks
        .into_iter()
        .filter(|block| block.phase == QuestionPhase::Design && block.visibility != QuestionVisibility::HiddenUnlessNeeded)
        .collect()
}

/// Walks the design questions step by step, answering each prompt with
/// `respond`; returns the prompts asked.
fn run_design_flow(
    answers: &mut AnswerDocument,
    template: &DigitalWorkerTemplate,
    visible: &Vec<DwWizardQuestionBlock>,
    respond: impl Fn(&str) -> String,
) -> Vec<String> {
    let mut asked = Vec::new();
    let mut stage = DesignStage::Start;
    loop {
        let (next, prompt) = next_design_step(stage, answers, template, visible);
        stage = next;
        match prompt {
            Some(prompt) => {
                let response = respond(&prompt.prompt);
                asked.push(prompt.prompt.clone());
                record_design_answer(answers, &prompt.question, &response);
            }
            None => break,
        }
    }
    assert_eq!(stage, DesignStage::Done);
    asked
}

fn text_answer<'a>(entries: &'a [AnswerEntry], key: &str) -> Option<&'a str> {
    entries.iter().find(|entry| entry.key == key).map(|entry| match &entry.value {
        AnswerValue::Text(text) => text.as_str(),
        AnswerValue::Json(json) => json.as_str(),
    })
}

fn agent<'a>(answers: &'a AnswerDocument, id: &str) -> &'a AgentAnswerDocument {
    &answers.agent_answers.iter().find(|agent| agent.agent_id == id).expect("agent answers").answers
}

#[test]
fn review_mode_is_asked_only_when_missing() {
    assert_eq!(review_mode_prompt(&answers(None)), Some(REVIEW_MODE_PROMPT));
    assert_eq!(review_mode_prompt(&answers(Some(DwResolutionMode::Recommended))), None);
    assert_eq!(review_mode_from_response(" n "), DwResolutionMode::ReviewAll);
    assert_eq!(review_mode_from_response("No"), DwResolutionMode::ReviewAll);
    assert_eq!(review_mode_from_response(""), DwResolutionMode::Recommended);
    assert_eq!(review_mode_from_response("y"), DwResolutionMode::Recommended);
    assert_eq!(review_mode_from_response("nope"), DwResolutionMode::Recommended);
}

#[test]
fn design_flow_captures_template_block_answers() {
    let mut template = support_template(false);
    template.required_capabilities = vec![];
    template.default_provider_ids = vec![];
    let catalog = DwProviderCatalog { entries: vec![] };
    let visible = design_blocks(&template, &catalog);
    let mut doc = answers(Some(DwResolutionMode::Recommended));
    run_design_flow(&mut doc, &template, &visible, |prompt| {
        if prompt.contains("support assistant behavior guidance") {
            "Warm, concise, and escalation-aware".to_string()
        } else {
            String::new()
        }
    });
    assert_eq!(text_answer(&doc.design_answers, "support_behavior"), Some("Warm, concise, and escalation-aware"));
    assert!(doc.agent_answers.is_empty());
}

#[test]
fn design_flow_sets_agent_count_and_provider_override() {
    let template = support_template(true);
    let catalog = DwProviderCatalog {
        entries: vec![openai("provider.llm.openai.chat"), openai("provider.llm.openai.chat-lite")],
    };
    let visible = design_blocks(&template, &catalog);
    let mut doc = answers(None);
    let asked = run_design_flow(&mut doc, &template, &visible, |prompt| {
        if prompt.contains("recommended setup") {
            "n".to_string()
        } else if prompt.contains("agent count") {
            "2".to_string()
        } else if prompt.contains("Provider override") && prompt.contains("cap://llm/chat") && !prompt.contains("Agent") {
            "provider.llm.openai.chat-lite".to_string()
        } else {
            String::new()
        }
    });
    assert_eq!(asked[0], REVIEW_MODE_PROMPT);
    assert_eq!(doc.review_mode, Some(DwResolutionMode::ReviewAll));
    assert_eq!(text_answer(&doc.design_answers, "agent_count"), Some("2"));
    assert_eq!(
        doc.provider_overrides,
        vec![ProviderOverride {
            capability_id: "cap://llm/chat".to_string(),
            provider_id: "provider.llm.openai.chat-lite".to_string()
        }]
    );
}

#[test]
fn design_flow_captures_agent_scoped_multi_agent_answers() {
    let template = support_template(true);
    let catalog = DwProviderCatalog {
        entries: vec![openai("provider.llm.openai.chat"), openai("provider.llm.openai.chat-lite")],
    };
    let visible = design_blocks(&template, &catalog);
    let mut doc = answers(Some(DwResolutionMode::ReviewAll));
    run_design_flow(&mut doc, &template, &visible, |prompt| {
        if prompt.contains("agent count") {
            "2".to_string()
        } else if prompt.contains("shared providers") {
            "n".to_string()
        } else if prompt.starts_with("Agent 1: Enter support assistant behavior") {
            "Agent one guidance".to_string()
        } else if prompt.starts_with("Agent 2: Enter support assistant behavior") {
            "Agent two guidance".to_string()
        } else if prompt.contains("Agent 1:") && prompt.contains("Provider override") && prompt.contains("cap://llm/chat") {
            "provider.llm.openai.chat".to_string()
        } else if prompt.contains("Agent 2:") && prompt.contains("Provider override") && prompt.contains("cap://llm/chat") {
            "provider.llm.openai.chat-lite".to_string()
        } else if prompt.starts_with("Agent 1: Enter OpenAI API key secret name") {
            "secret/agent-1-openai".to_string()
        } else if prompt.starts_with("Agent 2: Enter OpenAI API key secret name") {
            "secret/agent-2-openai".to_string()
        } else {
            String::new()
        }
    });
    assert_eq!(text_answer(&doc.design_answers, "agent.1.support_behavior"), Some("Agent one guidance"));
    assert_eq!(text_answer(&doc.design_answers, "agent.2.support_behavior"), Some("Agent two guidance"));
    assert_eq!(text_answer(&doc.design_answers, "agent.1.provider.cap://llm/chat"), Some("provider.llm.openai.chat"));
    assert_eq!(text_answer(&doc.design_answers, "agent.2.provider.cap://llm/chat"), Some("provider.llm.openai.chat-lite"));
    assert_eq!(text_answer(&doc.design_answers, "agent.1.openai_api_key_secret"), Some("secret/agent-1-openai"));
    assert_eq!(text_answer(&doc.design_answers, "agent.2.openai_api_key_secret"), Some("secret/agent-2-openai"));
    assert_eq!(text_answer(&agent(&doc, "agent-1").design_answers, "support_behavior"), Some("Agent one guidance"));
    assert_eq!(
        agent(&doc, "agent-2").provider_overrides,
        vec![ProviderOverride {
            capability_id: "cap://llm/chat".to_string(),
            provider_id: "provider.llm.openai.chat-lite".to_string()
        }]
    );
}

#[test]
fn answered_questions_are_not_asked_again() {
    let block = DwWizardQuestionBlock {
        block_id: "dw.support.behavior".to_string(),
        source: QuestionSource::Template { template_id: "dw.t".to_string() },
        owner: "template:dw.t".to_string(),
        path: "template.dw.t.dw.support.behavior".to_string(),
        answer_key: Some("support_behavior".to_string()),
        prompt: None,
        scope: QuestionScope::Agent { agent_id: None },
        phase: QuestionPhase::Design,
        visibility: QuestionVisibility::Required,
        source_ref: None,
        summary: None,
    };
    let mut doc = answers(None);
    let prompt = design_prompt(&block, &doc).expect("asked");
    assert_eq!(prompt.prompt, "Enter value for support_behavior: ");
    assert_eq!(
        prompt.question,
        DesignQuestion::Answer { answer_key: "support_behavior".to_string(), agent_id: None }
    );
    record_design_answer(&mut doc, &prompt.question, "   ");
    assert!(design_prompt(&block, &doc).is_some(), "a blank response answers nothing");
    record_design_answer(&mut doc, &prompt.question, " calm ");
    assert_eq!(text_answer(&doc.design_answers, "support_behavior"), Some("calm"));
    assert!(design_prompt(&block, &doc).is_none());
}

#[test]
fn agent_answers_drop_repeated_agent_addresses() {
    let mut doc = answers(None);
    doc.agent_answers.push(AgentAnswers {
        agent_id: "agent-2".to_string(),
        answers: AgentAnswerDocument { provider_overrides: vec![], design_answers: vec![] },
    });
    record_design_answer(
        &mut doc,
        &DesignQuestion::Answer {
            answer_key: "agent.2.agent.2.tone".to_string(),
            agent_id: Some("agent-2".to_string()),
        },
        "dry",
    );
    assert_eq!(doc.agent_answers.len(), 1);
    assert_eq!(text_answer(&agent(&doc, "agent-2").design_answers, "tone"), Some("dry"));
    assert_eq!(text_answer(&doc.design_answers, "agent.2.agent.2.tone"), Some("dry"));
}

#[test]
fn an_agent_count_of_one_records_nothing() {
    let mut doc = answers(None);
    record_design_answer(&mut doc, &DesignQuestion::AgentCount, " 1 ");
    assert!(doc.design_answers.is_empty());
}

#[test]
fn an_empty_review_mode_response_takes_the_recommended_setup() {
    let mut doc = answers(None);
    record_design_answer(&mut doc, &DesignQuestion::ReviewMode, "");
    assert_eq!(doc.review_mode, Some(DwResolutionMode::Recommended));
    let template = support_template(false);
    let (stage, prompt) = next_design_step(DesignStage::Done, &doc, &template, &vec![]);
    assert_eq!(stage, DesignStage::Done);
    assert!(prompt.is_none());
}
