use greentic_dw::llm_prompts::{
    extract_json, system_for_choose_delegate, system_for_create_plan, system_for_next_actions,
    system_for_revise_plan, user_for_create_plan, user_for_next_actions, user_for_revise_plan,
};

#[test]
fn prompt_extract_json_plain_object() {
    let input = r#"{"key":"value"}"#;
    assert_eq!(extract_json(input), r#"{"key":"value"}"#);
}

#[test]
fn prompt_extract_json_strips_fences() {
    let input = "```json\n{\"key\":\"value\"}\n```";
    assert_eq!(extract_json(input), r#"{"key":"value"}"#);
}

#[test]
fn prompt_extract_json_strips_prose() {
    let input = "Here is the result:\n{\"key\":\"value\"}\nEnd.";
    assert_eq!(extract_json(input), r#"{"key":"value"}"#);
}

#[test]
fn prompt_extract_json_array() {
    let input = "Result: [1, 2, 3]";
    assert_eq!(extract_json(input), "[1, 2, 3]");
}

#[test]
fn prompt_extract_json_no_delimiters_returns_input() {
    let input = "not json at all";
    assert_eq!(extract_json(input), "not json at all");
}

#[test]
fn prompt_extract_json_empty_input() {
    assert_eq!(extract_json(""), "");
}

#[test]
fn extract_json_handles_non_ascii_prose() {
    assert_eq!(extract_json("Résultat — {\"é\":1} fin"), "{\"é\":1}");
    assert_eq!(extract_json("} before {"), "} before {");
}

#[test]
fn system_prompts_end_with_the_schema() {
    let s = system_for_choose_delegate("SCHEMA");
    assert!(s.starts_with("You are a delegation strategist"));
    assert!(s.ends_with(":\n\nSCHEMA"));
    assert!(system_for_next_actions("S").contains("JSON array"));
    assert!(system_for_create_plan("S").contains("create a structured execution plan"));
    assert!(system_for_revise_plan("S").ends_with("\n\nS"));
}

#[test]
fn user_prompts_carry_plan_and_context() {
    assert_eq!(user_for_next_actions("{}", None), "Current plan:\n{}");
    assert_eq!(user_for_next_actions("{}", Some("ctx")), "Current plan:\n{}\n\nContext:\nctx");
    assert_eq!(user_for_create_plan("{\"goal\":\"g\"}"), "Plan request:\n{\"goal\":\"g\"}");
    assert_eq!(
        user_for_revise_plan("why", "{}", None),
        "Reason for revision: why\n\nCurrent plan:\n{}"
    );
}
