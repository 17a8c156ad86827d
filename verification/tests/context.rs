use greentic_dw::context::{
    assemble_context_package, compressed_outcome, summary_outcome, BuildContextRequest,
    context_package_fixture, render_context, render_package, system_for_compress, system_for_summarize,
    user_for_compress, user_for_summarize, validate_context_package, ContextBudget, ContextError, ContextFragment,
    ContextFragmentKind, ContextPackage,
};

fn knowledge_fragment(text: &str, ordinal: u32) -> ContextFragment {
    ContextFragment {
        fragment_id: format!("k{ordinal}"),
        kind: ContextFragmentKind::KnowledgeChunk,
        content_ref: String::new(),
        content: Some(text.to_string()),
        provenance: "knowledge".into(),
        ordinal,
    }
}

#[test]
fn render_context_emits_knowledge_block_in_ordinal_order() {
    let pkg = ContextPackage {
        package_id: "p1".into(),
        fragments: vec![knowledge_fragment("second", 1), knowledge_fragment("first", 0)],
        budget: ContextBudget { max_fragments: 8, max_bytes: 16384 },
    };
    let out = render_context(&pkg);
    assert!(out.contains("<knowledge>"));
    assert!(out.contains("</knowledge>"));
    let first = out.find("first").unwrap();
    let second = out.find("second").unwrap();
    assert!(first < second, "fragments must render in ordinal order");
}

#[test]
fn render_context_empty_when_no_inline_content() {
    let pkg = ContextPackage {
        package_id: "p1".into(),
        fragments: vec![ContextFragment {
            fragment_id: "a".into(),
            kind: ContextFragmentKind::WorkspaceArtifact,
            content_ref: "artifact://x".into(),
            content: None,
            provenance: "ws".into(),
            ordinal: 0,
        }],
        budget: ContextBudget { max_fragments: 8, max_bytes: 16384 },
    };
    assert_eq!(render_context(&pkg), "");
}

#[test]
fn render_context_exact_text_trims_and_keeps_equal_ordinals_in_order() {
    let pkg = ContextPackage {
        package_id: "p1".into(),
        fragments: vec![knowledge_fragment("  b  ", 1), knowledge_fragment("a", 1), knowledge_fragment("z", 0)],
        budget: ContextBudget { max_fragments: 8, max_bytes: 16384 },
    };
    assert_eq!(
        render_context(&pkg),
        "<knowledge>\nRelevant passages retrieved from the worker's knowledge base:\n- z\n- b\n- a\n</knowledge>"
    );
}

#[test]
fn validates_context_fixture() {
    validate_context_package(&context_package_fixture()).expect("fixture should validate");
}

#[test]
fn rejects_out_of_order_fragments() {
    let mut package = context_package_fixture();
    package.fragments.swap(0, 1);
    let err = validate_context_package(&package).expect_err("out-of-order fragments should fail");
    assert_eq!(err, ContextError::Validation("context fragments must be ordered deterministically".to_string()));
}

#[test]
fn rejects_zero_budget_and_incomplete_fragments() {
    let mut package = context_package_fixture();
    package.budget.max_fragments = 0;
    assert_eq!(
        validate_context_package(&package).unwrap_err(),
        ContextError::Validation("budget max_fragments must be greater than zero".to_string())
    );
    let mut package = context_package_fixture();
    package.budget.max_fragments = 1;
    assert_eq!(
        validate_context_package(&package).unwrap_err(),
        ContextError::Validation("fragment count exceeds max_fragments budget".to_string())
    );
    let mut package = context_package_fixture();
    package.fragments[1].provenance = " ".to_string();
    assert_eq!(
        validate_context_package(&package).unwrap_err(),
        ContextError::Validation("context fragments must include id, content_ref, and provenance".to_string())
    );
}

fn pkg() -> ContextPackage {
    ContextPackage {
        package_id: "p1".into(),
        fragments: vec![
            ContextFragment {
                fragment_id: "f1".into(),
                kind: ContextFragmentKind::KnowledgeChunk,
                content_ref: "ref-b".into(),
                content: Some("second".into()),
                provenance: "x".into(),
                ordinal: 1,
            },
            ContextFragment {
                fragment_id: "f0".into(),
                kind: ContextFragmentKind::MemoryItem,
                content_ref: "ref-a".into(),
                content: None,
                provenance: "x".into(),
                ordinal: 0,
            },
        ],
        budget: ContextBudget { max_fragments: 8, max_bytes: 4096 },
    }
}

#[test]
fn render_package_orders_by_ordinal_and_includes_inline_content() {
    let out = render_package(&pkg());
    let first = out.find("ref-a").unwrap();
    let second = out.find("ref-b").unwrap();
    assert!(first < second, "fragments must render in ordinal order");
    assert!(out.contains("second"), "inline content must be included");
    assert!(out.contains("p1"));
}

#[test]
fn render_package_exact_text() {
    assert_eq!(
        render_package(&pkg()),
        "Context package p1 (2 fragments):\n[0] MemoryItem ref-a\n[1] KnowledgeChunk ref-b :: second\n"
    );
}

#[test]
fn context_prompts_wrap_the_rendered_package() {
    assert_eq!(user_for_compress("X"), "Compress the following context:\n\nX");
    assert_eq!(user_for_summarize("Y"), "Summarize the following context:\n\nY");
    assert!(system_for_compress().starts_with("You are a context-compression assistant"));
    assert!(system_for_summarize().contains("concise prose summary"));
}

fn budget(max_fragments: u32) -> ContextBudget {
    ContextBudget { max_fragments, max_bytes: 4096 }
}

fn refs(items: &[&str]) -> Vec<String> {
    items.iter().map(|s| s.to_string()).collect()
}

#[test]
fn build_context_assembles_fragments_within_budget() {
    let pkg = assemble_context_package(
        0,
        BuildContextRequest { fragment_refs: refs(&["a", "b", "c"]), query: None, budget: budget(8) },
    )
    .unwrap();
    assert_eq!(pkg.fragments.len(), 3);
    assert_eq!(pkg.fragments[0].ordinal, 0);
    assert!(!pkg.package_id.is_empty());
    assert_eq!(pkg.package_id, "context-0");
    assert_eq!(pkg.fragments[2].fragment_id, "frag-2");
    assert_eq!(pkg.fragments[2].content_ref, "c");
    assert_eq!(pkg.fragments[2].provenance, "build_context");
    assert_eq!(pkg.fragments[2].kind, ContextFragmentKind::WorkspaceArtifact);
    assert!(pkg.fragments[2].content.is_none());
}

#[test]
fn build_context_caps_to_max_fragments() {
    let pkg = assemble_context_package(
        7,
        BuildContextRequest { fragment_refs: refs(&["a", "b", "c", "d", "e"]), query: None, budget: budget(2) },
    )
    .unwrap();
    assert_eq!(pkg.fragments.len(), 2);
    assert_eq!(pkg.package_id, "context-7");
}

#[test]
fn build_context_zero_budget_is_validation_error() {
    let err = assemble_context_package(0, BuildContextRequest { fragment_refs: vec![], query: None, budget: budget(0) })
        .unwrap_err();
    assert!(matches!(err, ContextError::Validation(_)));
}

#[test]
fn build_context_blank_reference_is_validation_error() {
    let err = assemble_context_package(
        0,
        BuildContextRequest { fragment_refs: refs(&["a", " "]), query: None, budget: budget(8) },
    )
    .unwrap_err();
    assert_eq!(
        err,
        ContextError::Validation("context fragments must include id, content_ref, and provenance".to_string())
    );
}

#[test]
fn compress_writes_artifact_and_returns_ref() {
    let pkg = context_package_fixture();
    let out = compressed_outcome(&pkg, 3);
    assert!(out.compressed_artifact_ref.contains("::compressed::"));
    assert_eq!(out.compressed_artifact_ref, "context-1::compressed::3");
    assert_eq!(out.source_package_id, "context-1");
    assert_eq!(out.fragment_count, 2);
}

#[test]
fn summarize_writes_artifact_and_returns_ref() {
    let pkg = context_package_fixture();
    let out = summary_outcome(&pkg, 12);
    assert!(out.artifact_ref.contains("::summary::"));
    assert_eq!(out.artifact_ref, "context-1::summary::12");
}

#[test]
fn build_context_ignores_blank_reference_beyond_budget() {
    let pkg = assemble_context_package(
        1,
        BuildContextRequest { fragment_refs: refs(&["a", " "]), query: None, budget: budget(1) },
    )
    .expect("the blank reference is not admitted");
    assert_eq!(pkg.fragments.len(), 1);
    assert_eq!(pkg.fragments[0].content_ref, "a");
}
