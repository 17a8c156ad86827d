use greentic_dw::reflection::{
    validate_review_items, ReflectionError, ReviewFinding, ReviewTarget, ReviewTargetKind, SuggestedAction,
};

fn target(reference: &str) -> ReviewTarget {
    ReviewTarget { kind: ReviewTargetKind::PlanStep, reference: reference.to_string() }
}

fn finding(code: &str, message: &str, reference: &str) -> ReviewFinding {
    ReviewFinding { code: code.to_string(), message: message.to_string(), target: target(reference) }
}

fn action(text: &str, reference: &str) -> SuggestedAction {
    SuggestedAction { action: text.to_string(), target: target(reference) }
}

#[test]
fn complete_items_validate() {
    let findings = vec![finding("missing-source", "The answer cites no source.", "s1")];
    let actions = vec![action("add a citation", "s1")];
    assert_eq!(validate_review_items(&findings, &actions), Ok(()));
    assert_eq!(validate_review_items(&vec![], &vec![]), Ok(()));
}

#[test]
fn finding_without_code_is_rejected() {
    let findings = vec![finding(" ", "message", "s1")];
    assert_eq!(
        validate_review_items(&findings, &vec![]),
        Err(ReflectionError::Validation("review findings must include code and message".to_string()))
    );
}

#[test]
fn finding_without_target_is_rejected() {
    let findings = vec![finding("code", "message", "")];
    assert_eq!(
        validate_review_items(&findings, &vec![]),
        Err(ReflectionError::Validation("review finding target reference must not be empty".to_string()))
    );
}

#[test]
fn findings_are_checked_before_actions() {
    let findings = vec![finding("code", "", "s1")];
    let actions = vec![action("", "s1")];
    assert_eq!(
        validate_review_items(&findings, &actions),
        Err(ReflectionError::Validation("review findings must include code and message".to_string()))
    );
    assert_eq!(
        validate_review_items(&vec![], &actions),
        Err(ReflectionError::Validation(
            "suggested actions must include an action and target reference".to_string()
        ))
    );
}
