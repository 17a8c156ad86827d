use greentic_dw::cap_types::CapabilityId;
use greentic_dw::cli::{
    agent_numeric_answer_prefix, agent_numeric_suffix, capability_id_from_selection_path, capability_slug,
    healthz_response, is_insecure_http_url, is_remote_answers_url, localized, parse_agent_kind, parse_provider_override,
    resolve_model, resolve_nats_url, AgentKind, CliError, MsgKey,
};

#[test]
fn resolve_nats_url_precedence() {
    assert_eq!(resolve_nats_url(Some("nats://arg:4222"), Some("nats://env:4222".into())), "nats://arg:4222");
    assert_eq!(resolve_nats_url(None, Some("nats://env:4222".into())), "nats://env:4222");
    assert_eq!(resolve_nats_url(None, None), "nats://localhost:4222");
}

#[test]
fn resolve_model_precedence() {
    assert_eq!(resolve_model(Some("m-arg"), Some("m-env".into())), "m-arg");
    assert_eq!(resolve_model(None, Some("m-env".into())), "m-env");
    assert_eq!(resolve_model(None, None), "gpt-4o");
}

#[test]
fn healthz_answers_ok_for_healthz_path() {
    let response = healthz_response("GET /healthz HTTP/1.1");
    assert!(response.starts_with("HTTP/1.1 200"), "expected 200, got: {response}");
    assert!(response.contains("ok"));
}

#[test]
fn healthz_answers_not_found_for_unknown_path() {
    let response = healthz_response("GET /status HTTP/1.1");
    assert!(response.starts_with("HTTP/1.1 404"), "expected 404, got: {response}");
}

#[test]
fn localized_defaults_to_english() {
    assert_eq!(localized("xx", MsgKey::Tenant), "Enter tenant: ");
}

#[test]
fn localized_supports_dutch_prompts() {
    assert_eq!(localized("nl", MsgKey::Tenant), "Tenant invoeren: ");
    assert_eq!(localized("nl-NL", MsgKey::DisplayName), "Weergavenaam invoeren: ");
    assert_eq!(localized("nl", MsgKey::ManifestId), "Manifest-ID invoeren: ");
    assert_eq!(localized("nl", MsgKey::Team), "Team invoeren (optioneel): ");
    assert_eq!(localized("nl", MsgKey::RequestedLocale), "Gevraagde locale invoeren (optioneel): ");
    assert_eq!(localized("nl", MsgKey::HumanLocale), "Human locale invoeren (optioneel): ");
}

#[test]
fn localized_covers_english_fallback_prompts() {
    assert_eq!(localized("en", MsgKey::ManifestId), "Enter manifest id: ");
    assert_eq!(localized("en", MsgKey::DisplayName), "Enter display name: ");
    assert_eq!(localized("en", MsgKey::Team), "Enter team (optional): ");
    assert_eq!(localized("en", MsgKey::RequestedLocale), "Enter requested locale (optional): ");
    assert_eq!(localized("en", MsgKey::HumanLocale), "Enter human locale (optional): ");
}

#[test]
fn localized_reads_the_language_before_underscore() {
    assert_eq!(localized("nl_BE", MsgKey::Tenant), "Tenant invoeren: ");
    assert_eq!(localized("nld", MsgKey::Tenant), "Enter tenant: ");
}

#[test]
fn detects_https_answers_source() {
    assert!(is_remote_answers_url(
        "https://github.com/greenticai/greentic-dw/releases/latest/download/orchestrator-create-answers.json"
    ));
    assert!(!is_remote_answers_url(
        "http://github.com/greenticai/greentic-dw/releases/latest/download/orchestrator-create-answers.json"
    ));
    assert!(!is_remote_answers_url("examples/answers/orchestrator-create-answers.json"));
}

#[test]
fn flags_insecure_http_answers_source() {
    assert!(is_insecure_http_url("http://example.com/orchestrator-create-answers.json"));
    assert!(!is_insecure_http_url("https://example.com/orchestrator-create-answers.json"));
}

#[test]
fn provider_override_is_split_and_trimmed() {
    assert_eq!(
        parse_provider_override(" cap://llm/chat = openai "),
        Ok(("cap://llm/chat".to_string(), "openai".to_string()))
    );
    assert_eq!(
        parse_provider_override("a=b=c"),
        Ok(("a".to_string(), "b=c".to_string()))
    );
}

#[test]
fn provider_override_without_both_sides_is_rejected() {
    assert_eq!(
        parse_provider_override("cap://llm/chat"),
        Err(CliError::InvalidProviderOverride { value: "cap://llm/chat".to_string() })
    );
    assert_eq!(
        parse_provider_override(" =openai"),
        Err(CliError::InvalidProviderOverride { value: " =openai".to_string() })
    );
    assert_eq!(
        parse_provider_override("cap://x= "),
        Err(CliError::InvalidProviderOverride { value: "cap://x= ".to_string() })
    );
}

#[test]
fn capability_slug_drops_scheme_and_dots_the_path() {
    let id = CapabilityId::new("cap://llm/chat".to_string()).expect("valid id");
    assert_eq!(capability_slug(&id), "llm.chat");
    let nested = CapabilityId::new("cap://tools/search/web".to_string()).expect("valid id");
    assert_eq!(capability_slug(&nested), "tools.search.web");
}

#[test]
fn selection_path_names_a_capability() {
    assert_eq!(capability_id_from_selection_path("setup.selection.llm.chat"), Some("cap://llm/chat".to_string()));
    assert_eq!(capability_id_from_selection_path("a.selection.x.selection.y"), Some("cap://x".to_string()));
    assert_eq!(capability_id_from_selection_path("setup.provider.llm"), None);
}

#[test]
fn agent_suffix_is_the_number_after_the_last_marker() {
    assert_eq!(agent_numeric_suffix("agent-2"), "2");
    assert_eq!(agent_numeric_suffix("team-agent-agent-7"), "7");
    assert_eq!(agent_numeric_suffix("researcher"), "1");
    assert_eq!(agent_numeric_suffix("agent-"), "1");
    assert_eq!(agent_numeric_answer_prefix("agent-3"), "agent.3.");
    assert_eq!(agent_numeric_answer_prefix("solo"), "agent.1.");
}

#[test]
fn agent_kinds_are_read_in_any_spelling() {
    assert_eq!(parse_agent_kind("single_turn"), Ok(AgentKind::SingleTurn));
    assert_eq!(parse_agent_kind("Agent-Graph"), Ok(AgentKind::AgentGraph));
    assert_eq!(parse_agent_kind("DEEP-WORKER"), Ok(AgentKind::DeepWorker));
    assert_eq!(parse_agent_kind("bogus"), Err(CliError::UnknownAgentKind("bogus".to_string())));
    assert_eq!(parse_agent_kind("single turn"), Err(CliError::UnknownAgentKind("single turn".to_string())));
}
