use greentic_dw::cap_types::CapabilityId;
use greentic_dw::cli::CliError;
use greentic_dw::manifest::{ManifestValidationError, TeamPolicy, MANIFEST_SCHEMA_VERSION};
use greentic_dw::wizard::{
    apply_overrides, apply_template_defaults, build_manifest, build_question_assembly, parse_usize,
    resolve_visible_blocks_for_output, resolved_agent_count, scoped_answer_key_for_output, select_template,
    template_selection_prompt, TemplateChoice, collect_default_provider_overrides, collect_selected_provider_overrides,
    find_agent_answers, scoped_agent_design_answers, scoped_agent_provider_overrides, AgentAnswerDocument, AgentAnswers,
    scoped_visible_block_for_output, select_provider_for_capability, template_block_visibility,
    uses_shared_provider_strategy, AnswerDocument, AnswerEntry, AnswerValue, DefaultProvider, DigitalWorkerTemplate,
    DwProviderCatalog, DwProviderCatalogEntry, DwResolutionMode, ProviderOverride, ProviderQuestionBlock,
    QuestionPhase, QuestionScope, QuestionSource, QuestionVisibility, TemplateCatalogEntry, TemplateQuestionBlock,
    WizardOverrides,
};

fn cap(value: &str) -> CapabilityId {
    CapabilityId::new(value.to_string()).expect("cap")
}

fn empty_answers() -> AnswerDocument {
    AnswerDocument {
        manifest_id: String::new(),
        display_name: String::new(),
        manifest_version: "0.5".to_string(),
        tenant: String::new(),
        template_id: None,
        review_mode: None,
        provider_overrides: Vec::new(),
        design_answers: Vec::new(),
        agent_answers: Vec::new(),
        team: None,
        requested_locale: None,
        human_locale: None,
        worker_default_locale: "en-US".to_string(),
    }
}

fn text(key: &str, value: &str) -> AnswerEntry {
    AnswerEntry { key: key.to_string(), value: AnswerValue::Text(value.to_string()) }
}

fn template(id: &str, name: &str) -> DigitalWorkerTemplate {
    DigitalWorkerTemplate {
        id: id.to_string(),
        name: name.to_string(),
        supports_multi_agent_app_pack: false,
        default_block_ids: vec![],
        review_all_block_ids: vec![],
        question_blocks: vec![],
        required_capabilities: vec![],
        optional_capabilities: vec![],
        default_provider_ids: vec![],
        support_pack_refs: vec![],
        bundle_notes: vec![],
        defaults: vec![],
    }
}

fn provider(id: &str, capability: &str) -> DwProviderCatalogEntry {
    DwProviderCatalogEntry {
        provider_id: id.to_string(),
        display_name: format!("Provider {id}"),
        capability_contract_ids: vec![cap(capability)],
        template_compatibility: vec![],
        recommended_for_templates: vec![],
        is_default_choice: false,
        is_recommended_choice: false,
        required_question_block_ids: vec![],
        question_blocks: vec![],
        required_setup_schema_refs: vec![],
    }
}

#[test]
fn applies_cli_overrides_to_answers() {
    let mut answers = AnswerDocument {
        manifest_id: "a".to_string(),
        display_name: "A".to_string(),
        tenant: "tenant-a".to_string(),
        ..empty_answers()
    };
    let args = WizardOverrides {
        manifest_id: Some("dw.sample".to_string()),
        display_name: Some("Sample".to_string()),
        tenant: Some("tenant-b".to_string()),
        team: Some("team-x".to_string()),
        requested_locale: Some("fr-FR".to_string()),
        human_locale: Some("nl-NL".to_string()),
        review_all: false,
        provider_overrides: Vec::new(),
    };
    apply_overrides(&mut answers, &args).unwrap();
    assert_eq!(answers.manifest_id, "dw.sample");
    assert_eq!(answers.tenant, "tenant-b");
    assert_eq!(answers.team.as_deref(), Some("team-x"));
}

#[test]
fn provider_overrides_replace_and_stop_at_a_malformed_value() {
    let mut answers = empty_answers();
    let args = WizardOverrides {
        manifest_id: None,
        display_name: None,
        tenant: None,
        team: None,
        requested_locale: None,
        human_locale: None,
        review_all: true,
        provider_overrides: vec![
            "cap://llm/chat=openai".to_string(),
            "cap://llm/chat = ollama".to_string(),
            "broken".to_string(),
            "cap://search=web".to_string(),
        ],
    };
    let err = apply_overrides(&mut answers, &args).unwrap_err();
    assert_eq!(err, CliError::InvalidProviderOverride { value: "broken".to_string() });
    assert_eq!(
        answers.provider_overrides,
        vec![ProviderOverride { capability_id: "cap://llm/chat".to_string(), provider_id: "ollama".to_string() }]
    );
    assert_eq!(answers.review_mode, Some(DwResolutionMode::ReviewAll));
}

#[test]
fn apply_template_defaults_populates_missing_answers() {
    let mut t = template("dw.support-assistant", "Support Assistant");
    t.defaults = vec![text("requested_locale", "fr-FR"), text("tenant", "tenant-template")];
    let mut answers = empty_answers();
    apply_template_defaults(&mut answers, &t);
    assert_eq!(answers.manifest_id, "dw.support-assistant");
    assert_eq!(answers.display_name, "Support Assistant");
    assert_eq!(answers.tenant, "tenant-template");
    assert_eq!(answers.requested_locale.as_deref(), Some("fr-FR"));
    assert_eq!(answers.template_id.as_deref(), Some("dw.support-assistant"));
}

#[test]
fn template_defaults_keep_given_answers() {
    let mut t = template("dw.t", "T");
    t.defaults = vec![text("agent_count", "3"), text("tenant", "tenant-template")];
    let mut answers = AnswerDocument { tenant: "mine".to_string(), design_answers: vec![text("agent_count", "2")], ..empty_answers() };
    apply_template_defaults(&mut answers, &t);
    assert_eq!(answers.tenant, "mine");
    assert_eq!(answers.design_answers, vec![text("agent_count", "2")]);
}

#[test]
fn build_manifest_sets_expected_contracts() {
    let answers = AnswerDocument {
        manifest_id: "dw.sample".to_string(),
        display_name: "Sample".to_string(),
        manifest_version: "0.5".to_string(),
        tenant: "tenant-a".to_string(),
        team: Some("team-1".to_string()),
        requested_locale: Some("fr-FR".to_string()),
        human_locale: Some("nl-NL".to_string()),
        ..empty_answers()
    };
    let manifest = build_manifest(&answers);
    assert_eq!(manifest.id, "dw.sample");
    assert_eq!(manifest.version, MANIFEST_SCHEMA_VERSION);
    assert_eq!(manifest.worker_version.as_deref(), Some("0.5"));
    assert_eq!(manifest.tenancy.tenant, "tenant-a");
    assert_eq!(
        manifest.tenancy.team_policy,
        TeamPolicy::Optional { default_team: Some("team-1".to_string()), allow_request_override: true }
    );
    assert_eq!(manifest.validate(), Ok(()));
}

#[test]
fn template_block_visibility_follows_the_behaviour_modes() {
    let defaults = vec!["a".to_string()];
    let review = vec!["b".to_string()];
    assert_eq!(template_block_visibility("a", false, &defaults, &review), QuestionVisibility::Required);
    assert_eq!(template_block_visibility("b", false, &defaults, &review), QuestionVisibility::ReviewAll);
    assert_eq!(template_block_visibility("b", true, &defaults, &review), QuestionVisibility::Required);
    assert_eq!(template_block_visibility("c", false, &defaults, &review), QuestionVisibility::Optional);
}

#[test]
fn provider_selection_prefers_template_default_then_rank() {
    let mut t = template("dw.t", "T");
    let mut a = provider("p.a", "cap://llm/chat");
    a.is_default_choice = true;
    let mut b = provider("p.b", "cap://llm/chat");
    b.is_default_choice = true;
    let mut c = provider("p.c", "cap://llm/chat");
    c.template_compatibility = vec!["other".to_string()];
    c.recommended_for_templates = vec!["dw.t".to_string()];
    let catalog = DwProviderCatalog { entries: vec![a, b, c, provider("p.d", "cap://search")] };
    assert_eq!(select_provider_for_capability(&t, &catalog, &cap("cap://llm/chat")), Some(1));
    assert_eq!(select_provider_for_capability(&t, &catalog, &cap("cap://none")), None);
    t.default_provider_ids = vec![DefaultProvider { capability: cap("cap://llm/chat"), provider_id: "p.a".to_string() }];
    assert_eq!(select_provider_for_capability(&t, &catalog, &cap("cap://llm/chat")), Some(0));
    t.default_provider_ids = vec![DefaultProvider { capability: cap("cap://llm/chat"), provider_id: "p.x".to_string() }];
    assert_eq!(select_provider_for_capability(&t, &catalog, &cap("cap://llm/chat")), Some(1));
}

#[test]
fn question_assembly_includes_core_template_and_provider_blocks() {
    let mut t = template("dw.support-assistant", "Support Assistant");
    t.supports_multi_agent_app_pack = true;
    t.default_block_ids = vec!["dw.core.identity".to_string(), "dw.extra".to_string()];
    t.review_all_block_ids = vec!["dw.extra".to_string(), "dw.review".to_string()];
    t.question_blocks = vec![TemplateQuestionBlock {
        block_id: "dw.core.identity".to_string(),
        answer_key: Some("identity".to_string()),
        prompt: None,
        required: false,
        source: None,
        summary: None,
    }];
    t.required_capabilities = vec![cap("cap://llm/chat")];
    t.bundle_notes = vec!["ship it".to_string()];
    let mut openai = provider("provider.llm.openai.chat", "cap://llm/chat");
    openai.required_question_block_ids = vec!["provider.llm.chat.openai".to_string()];
    openai.question_blocks = vec![ProviderQuestionBlock {
        block_id: "provider.llm.chat.openai".to_string(),
        answer_key: None,
        prompt: Some("Model? ".to_string()),
        setup_schema_ref: None,
    }];
    let catalog = DwProviderCatalog { entries: vec![openai] };
    let entry = TemplateCatalogEntry { source_ref: "catalog://support".to_string() };
    let assembly = build_question_assembly(&t, Some(&entry), Some(&catalog)).unwrap();
    let paths: Vec<&str> = assembly.blocks.iter().map(|b| b.path.as_str()).collect();
    assert_eq!(
        paths,
        vec![
            "core.app.identity",
            "core.agent.topology",
            "template.dw.support-assistant.dw.core.identity",
            "template.dw.support-assistant.dw.extra",
            "template.dw.support-assistant.dw.review",
            "provider.provider.llm.openai.chat.selection.llm.chat",
            "provider.provider.llm.openai.chat.provider.llm.chat.openai",
            "composition.shared.provider_strategy",
            "packaging.bundle_plan",
        ]
    );
    let follow_up = &assembly.blocks[6];
    assert_eq!(follow_up.block_id, "provider.llm.chat.openai");
    assert_eq!(follow_up.phase, QuestionPhase::Design);
    assert!(matches!(follow_up.source, QuestionSource::Provider { .. }));
    assert_eq!(follow_up.answer_key.as_deref(), Some("provider.llm.chat.openai"));
    assert_eq!(follow_up.prompt.as_deref(), Some("Model? "));
    assert_eq!(assembly.blocks[2].visibility, QuestionVisibility::Required);
    assert_eq!(assembly.blocks[2].source_ref.as_deref(), Some("catalog://support"));
    assert_eq!(assembly.blocks[4].visibility, QuestionVisibility::ReviewAll);
    assert_eq!(assembly.blocks[1].visibility, QuestionVisibility::ReviewAll);
    let selection = &assembly.blocks[5];
    assert_eq!(selection.answer_key.as_deref(), Some("cap://llm/chat"));
    assert_eq!(
        selection.prompt.as_deref(),
        Some("Provider override for cap://llm/chat (Enter to keep provider.llm.openai.chat): ")
    );
}

#[test]
fn setup_schemas_hide_provider_follow_ups() {
    let mut t = template("dw.t", "T");
    t.optional_capabilities = vec![cap("cap://kb")];
    let mut p = provider("kb", "cap://kb");
    p.question_blocks = vec![ProviderQuestionBlock {
        block_id: "kb.url".to_string(),
        answer_key: Some("url".to_string()),
        prompt: None,
        setup_schema_ref: Some("schema://kb".to_string()),
    }];
    let catalog = DwProviderCatalog { entries: vec![p] };
    let assembly = build_question_assembly(&t, None, Some(&catalog)).unwrap();
    assert_eq!(assembly.blocks.len(), 4);
    assert_eq!(assembly.blocks[2].visibility, QuestionVisibility::ReviewAll);
    let follow_up = &assembly.blocks[3];
    assert_eq!(follow_up.phase, QuestionPhase::Setup);
    assert_eq!(follow_up.visibility, QuestionVisibility::HiddenUnlessNeeded);
    assert_eq!(follow_up.source_ref.as_deref(), Some("schema://kb"));
    assert_eq!(follow_up.prompt.as_deref(), Some("Enter value for provider block `kb.url`: "));
}

#[test]
fn parse_usize_follows_str_parse() {
    assert_eq!(parse_usize("42"), Some(42));
    assert_eq!(parse_usize("+7"), Some(7));
    assert_eq!(parse_usize("+"), None);
    assert_eq!(parse_usize(""), None);
    assert_eq!(parse_usize("-1"), None);
    assert_eq!(parse_usize("4 2"), None);
    assert_eq!(parse_usize("99999999999999999999999"), None);
    for s in ["0", "18446744073709551615", "12x", "007"] {
        assert_eq!(parse_usize(s), s.parse::<usize>().ok());
    }
}

#[test]
fn agent_count_and_provider_strategy_come_from_the_answers() {
    let mut t = template("dw.t", "T");
    let answers = AnswerDocument {
        design_answers: vec![text("agent_count", " 3 "), text("provider_strategy", "Per-Agent")],
        ..empty_answers()
    };
    assert_eq!(resolved_agent_count(&answers, &t), 1);
    t.supports_multi_agent_app_pack = true;
    assert_eq!(resolved_agent_count(&answers, &t), 3);
    assert!(!uses_shared_provider_strategy(&answers));
    let defaults = empty_answers();
    assert_eq!(resolved_agent_count(&defaults, &t), 1);
    assert!(uses_shared_provider_strategy(&defaults));
    let json = AnswerDocument {
        design_answers: vec![AnswerEntry { key: "agent_count".to_string(), value: AnswerValue::Json("4".to_string()) }],
        ..empty_answers()
    };
    assert_eq!(resolved_agent_count(&json, &t), 1);
}

#[test]
fn visible_blocks_are_asked_per_agent() {
    let mut t = template("dw.t", "T");
    t.supports_multi_agent_app_pack = true;
    t.required_capabilities = vec![cap("cap://llm/chat")];
    t.question_blocks = vec![TemplateQuestionBlock {
        block_id: "persona".to_string(),
        answer_key: Some("persona".to_string()),
        prompt: Some("Persona? ".to_string()),
        required: true,
        source: None,
        summary: None,
    }];
    let catalog = DwProviderCatalog { entries: vec![provider("p.llm", "cap://llm/chat")] };
    let assembly = build_question_assembly(&t, None, Some(&catalog)).unwrap();
    let answers = AnswerDocument {
        design_answers: vec![text("agent_count", "2"), text("provider_strategy", "no")],
        ..empty_answers()
    };
    let visible = resolve_visible_blocks_for_output(&assembly.blocks, &answers, &t);
    let ids: Vec<&str> = visible.iter().map(|b| b.block_id.as_str()).collect();
    assert_eq!(
        ids,
        vec![
            "core.app.identity",
            "core.agent.topology",
            "persona.agent-1",
            "persona.agent-2",
            "provider.select.p.llm.agent-1",
            "provider.select.p.llm.agent-2",
            "composition.shared.provider_strategy",
        ]
    );
    assert_eq!(visible[2].answer_key.as_deref(), Some("agent.1.persona"));
    assert_eq!(visible[3].prompt.as_deref(), Some("Agent 2: Persona? "));
    assert_eq!(visible[4].answer_key.as_deref(), Some("agent.1.provider.cap://llm/chat"));
    assert_eq!(
        visible[5].scope,
        QuestionScope::Provider { provider_id: Some("p.llm".to_string()), agent_id: Some("agent-2".to_string()) }
    );
    let single = resolve_visible_blocks_for_output(&assembly.blocks, &empty_answers(), &t);
    assert_eq!(single, assembly.blocks);
}

#[test]
fn scoped_blocks_name_their_agent() {
    let block = &build_question_assembly(&template("dw.t", "T"), None, None).unwrap().blocks[1];
    let scoped = scoped_visible_block_for_output(block, 3, false);
    assert_eq!(scoped.block_id, "core.agent.topology.agent-3");
    assert_eq!(scoped.path, "core.agent.topology.agent-3");
    assert_eq!(scoped.scope, QuestionScope::Application);
    let prefixed = scoped_visible_block_for_output(block, 3, true);
    assert_eq!(prefixed.scope, QuestionScope::Agent { agent_id: Some("agent-3".to_string()) });
    assert_eq!(scoped_answer_key_for_output(block, "agent_count", 3), "agent.3.agent_count");
}

fn choices() -> Vec<TemplateChoice> {
    vec![
        TemplateChoice { template_id: "dw.support-assistant".to_string(), display_name: "Support Assistant".to_string() },
        TemplateChoice { template_id: "dw.approval-worker".to_string(), display_name: "Approval Worker".to_string() },
    ]
}

#[test]
fn prompt_template_selection_defaults_to_first_entry() {
    let entries = choices();
    assert_eq!(
        template_selection_prompt(&entries),
        "Select a digital worker template:\n1. Support Assistant (dw.support-assistant)\n2. Approval Worker (dw.approval-worker)\nEnter template number [1]: "
    );
    assert_eq!(select_template(&entries, "  "), Some("dw.support-assistant".to_string()));
    assert_eq!(select_template(&entries, ""), Some("dw.support-assistant".to_string()));
    assert_eq!(select_template(&entries, "2"), Some("dw.approval-worker".to_string()));
    assert_eq!(select_template(&entries, "7"), Some("dw.support-assistant".to_string()));
    assert_eq!(select_template(&entries, "x"), Some("dw.support-assistant".to_string()));
    assert_eq!(select_template(&entries, "0"), Some("dw.support-assistant".to_string()));
    assert_eq!(select_template(&Vec::new(), "1"), None);
}

fn agent(id: &str, overrides: Vec<ProviderOverride>, design: Vec<AnswerEntry>) -> AgentAnswers {
    AgentAnswers {
        agent_id: id.to_string(),
        answers: AgentAnswerDocument { provider_overrides: overrides, design_answers: design },
    }
}

fn choice(cap: &str, provider: &str) -> ProviderOverride {
    ProviderOverride { capability_id: cap.to_string(), provider_id: provider.to_string() }
}

#[test]
fn agent_answers_are_found_by_id_or_number() {
    let answers = AnswerDocument {
        agent_answers: vec![agent("agent-2", vec![], vec![text("tone", "calm")]), agent("dw.app.agent-1", vec![], vec![])],
        ..empty_answers()
    };
    assert!(find_agent_answers(&answers, "dw.app.agent-1").is_some());
    let by_number = find_agent_answers(&answers, "dw.app.agent-2").expect("by number");
    assert_eq!(by_number.design_answers, vec![text("tone", "calm")]);
    assert!(find_agent_answers(&answers, "dw.app.agent-3").is_none());
}

#[test]
fn per_agent_design_answers_layer_shared_explicit_and_addressed() {
    let answers = AnswerDocument {
        design_answers: vec![
            text("agent.2.tone", "formal"),
            text("agent.dw.app.agent-2.style", "short"),
            text("agent.3.tone", "other"),
            text("tone", "neutral"),
            text("topic", "billing"),
        ],
        agent_answers: vec![agent("agent-2", vec![], vec![text("topic", "refunds"), text("extra", "yes")])],
        ..empty_answers()
    };
    let scoped = scoped_agent_design_answers(&answers, "dw.app.agent-2");
    assert_eq!(
        scoped,
        vec![text("tone", "formal"), text("topic", "refunds"), text("extra", "yes"), text("style", "short")]
    );
}

#[test]
fn provider_choices_follow_template_answers_and_agent() {
    let mut t = template("dw.t", "T");
    t.required_capabilities = vec![cap("cap://llm/chat")];
    t.optional_capabilities = vec![cap("cap://search")];
    let catalog = DwProviderCatalog { entries: vec![provider("p.llm", "cap://llm/chat"), provider("p.search", "cap://search")] };
    assert_eq!(
        collect_default_provider_overrides(&t, &catalog),
        vec![choice("cap://llm/chat", "p.llm"), choice("cap://search", "p.search")]
    );
    let answers = AnswerDocument {
        provider_overrides: vec![choice("cap://search", "p.web"), choice("not-a-cap", "x")],
        design_answers: vec![
            text("agent.1.provider.cap://llm/chat", "p.local"),
            AnswerEntry { key: "agent.1.provider.cap://kb".to_string(), value: AnswerValue::Json("3".to_string()) },
        ],
        agent_answers: vec![agent("agent-1", vec![choice("cap://kb", "p.kb")], vec![])],
        ..empty_answers()
    };
    assert_eq!(
        collect_selected_provider_overrides(&answers, &t, &catalog),
        vec![choice("cap://llm/chat", "p.llm"), choice("cap://search", "p.web")]
    );
    assert_eq!(
        scoped_agent_provider_overrides(&answers, &t, &catalog, "agent-1", false),
        vec![choice("cap://llm/chat", "p.local"), choice("cap://search", "p.web"), choice("cap://kb", "p.kb")]
    );
    assert_eq!(
        scoped_agent_provider_overrides(&answers, &t, &catalog, "agent-1", true),
        vec![choice("cap://kb", "p.kb"), choice("cap://llm/chat", "p.local")]
    );
}

fn complete_answers() -> AnswerDocument {
    AnswerDocument {
        manifest_id: "dw.sample".to_string(),
        display_name: "Sample".to_string(),
        tenant: "tenant-a".to_string(),
        worker_default_locale: "en-US".to_string(),
        ..empty_answers()
    }
}

#[test]
fn built_manifest_rejects_the_first_blank_answer() {
    assert_eq!(build_manifest(&complete_answers()).validate(), Ok(()));
    let blank_tenant = AnswerDocument { tenant: " ".to_string(), ..complete_answers() };
    assert_eq!(build_manifest(&blank_tenant).validate(), Err(ManifestValidationError::EmptyTenant));
    let blank_team = AnswerDocument { team: Some(String::new()), ..complete_answers() };
    assert_eq!(build_manifest(&blank_team).validate(), Err(ManifestValidationError::EmptyTeam));
    let blank_id_and_tenant =
        AnswerDocument { manifest_id: String::new(), tenant: String::new(), ..complete_answers() };
    assert_eq!(build_manifest(&blank_id_and_tenant).validate(), Err(ManifestValidationError::EmptyId));
}

#[test]
fn decimal_text_parses_back() {
    for n in [0u64, 7, 10, 1234, 4096, 18_446_744_073_709_551_615] {
        assert_eq!(parse_usize(&greentic_dw::text::u64_to_decimal(n)), Some(n as usize));
    }
    assert_eq!(parse_usize("+12"), Some(12));
    assert_eq!(parse_usize("1 2"), None);
}

#[test]
fn template_blocks_may_share_an_id_with_the_composition_block() {
    let mut t = template("dw.t", "T");
    t.supports_multi_agent_app_pack = true;
    t.question_blocks = vec![TemplateQuestionBlock {
        block_id: "composition.shared.provider_strategy".to_string(),
        answer_key: None,
        prompt: None,
        required: false,
        source: None,
        summary: None,
    }];
    let assembly = build_question_assembly(&t, None, None).unwrap();
    let ids: Vec<&str> = assembly.blocks.iter().map(|b| b.block_id.as_str()).collect();
    assert_eq!(
        ids,
        vec!["core.app.identity", "core.agent.topology", "composition.shared.provider_strategy", "composition.shared.provider_strategy"]
    );
    assert!(matches!(assembly.blocks[2].source, QuestionSource::Template { .. }));
    assert_eq!(assembly.blocks[3].source, QuestionSource::Composition);
}
