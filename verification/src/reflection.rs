//! Reviews of plan steps, plans and final outputs: verdicts, findings and
//! suggested actions, and the checks on findings and actions.

use vstd::prelude::*;

use crate::text::{is_blank, str_is_blank};

verus! {

/// What a review decides.
#[derive(Clone, Copy, Debug, PartialEq, Eq, Structural)]
pub enum ReviewVerdict {
    Accept,
    Revise,
    Retry,
    Delegate,
    Fail,
}

/// What a review looks at.
#[derive(Clone, Copy, Debug, PartialEq, Eq, Structural)]
pub enum ReviewTargetKind {
    PlanStep,
    Artifact,
    Agent,
    FinalOutput,
}

/// A reviewed object.
#[derive(Debug, PartialEq, Eq)]
pub struct ReviewTarget {
    pub kind: ReviewTargetKind,
    pub reference: String,
}

/// One finding of a review.
#[derive(Debug, PartialEq, Eq)]
pub struct ReviewFinding {
    pub code: String,
    pub message: String,
    pub target: ReviewTarget,
}

/// An action a review suggests.
#[derive(Debug, PartialEq, Eq)]
pub struct SuggestedAction {
    pub action: String,
    pub target: ReviewTarget,
}

/// Request to review one plan step's output.
#[derive(Debug, PartialEq, Eq)]
pub struct ReviewStepRequest {
    pub plan_step_id: String,
    pub output_artifact_ref: String,
}

/// Request to review a plan revision.
#[derive(Debug, PartialEq, Eq)]
pub struct ReviewPlanRequest {
    pub plan_id: String,
    pub revision: u32,
}

/// Request to review a run's final output.
#[derive(Debug, PartialEq, Eq)]
pub struct ReviewFinalRequest {
    pub run_id: String,
    pub output_artifact_ref: String,
}

/// Reflection failure.
#[derive(Clone, Debug, PartialEq, Eq)]
pub enum ReflectionError {
    Validation(String),
    Provider(String),
}

pub enum ReflectionErrorView {
    Validation(Seq<char>),
    Provider(Seq<char>),
}

impl View for ReflectionError {
    type V = ReflectionErrorView;

    open spec fn view(&self) -> ReflectionErrorView {
        match self {
            ReflectionError::Validation(m) => ReflectionErrorView::Validation(m@),
            ReflectionError::Provider(m) => ReflectionErrorView::Provider(m@),
        }
    }
}

/// The first problem among findings, in order.
pub open spec fn findings_check(fs: Seq<ReviewFinding>) -> Option<Seq<char>>
    decreases fs.len(),
{
    if fs.len() == 0 {
        None
    } else if findings_check(fs.drop_last()) is Some {
        findings_check(fs.drop_last())
    } else {
        let f = fs.last();
        if is_blank(f.code@) || is_blank(f.message@) {
            Some("review findings must include code and message"@)
        } else if is_blank(f.target.reference@) {
            Some("review finding target reference must not be empty"@)
        } else {
            None
        }
    }
}

/// The first problem among suggested actions, in order.
pub open spec fn actions_check(acts: Seq<SuggestedAction>) -> Option<Seq<char>>
    decreases acts.len(),
{
    if acts.len() == 0 {
        None
    } else if actions_check(acts.drop_last()) is Some {
        actions_check(acts.drop_last())
    } else {
        let a = acts.last();
        if is_blank(a.action@) || is_blank(a.target.reference@) {
            Some("suggested actions must include an action and target reference"@)
        } else {
            None
        }
    }
}

pub open spec fn reflection_reports(r: Result<(), ReflectionError>, c: Option<Seq<char>>) -> bool {
    match r {
        Ok(_) => c is None,
        Err(e) => c matches Some(m) && e@ == ReflectionErrorView::Validation(m),
    }
}

fn reflection_error(message: &str) -> (r: Result<(), ReflectionError>)
    ensures
        r matches Err(e) && e@ == ReflectionErrorView::Validation(message@),
{
    Err(ReflectionError::Validation(String::from_str(message)))
}

proof fn lemma_findings_prefix(fs: Seq<ReviewFinding>, k: int)
    requires
        0 <= k <= fs.len(),
        findings_check(fs.take(k)) is Some,
    ensures
        findings_check(fs) == findings_check(fs.take(k)),
    decreases fs.len() - k,
{
    if k == fs.len() {
        assert(fs.take(k) =~= fs);
    } else {
        assert(fs.drop_last().take(k) =~= fs.take(k));
        lemma_findings_prefix(fs.drop_last(), k);
    }
}

proof fn lemma_actions_prefix(acts: Seq<SuggestedAction>, k: int)
    requires
        0 <= k <= acts.len(),
        actions_check(acts.take(k)) is Some,
    ensures
        actions_check(acts) == actions_check(acts.take(k)),
    decreases acts.len() - k,
{
    if k == acts.len() {
        assert(acts.take(k) =~= acts);
    } else {
        assert(acts.drop_last().take(k) =~= acts.take(k));
        lemma_actions_prefix(acts.drop_last(), k);
    }
}

/// Checks a review's findings (code, message and target reference present)
/// and suggested actions (action and target reference present), findings
/// first; reports the first problem.
pub fn validate_review_items(findings: &Vec<ReviewFinding>, suggested_actions: &Vec<SuggestedAction>) -> (r: Result<
    (),
    ReflectionError,
>)
    ensures
        reflection_reports(
            r,
            if findings_check(findings@) is Some {
                findings_check(findings@)
            } else {
                actions_check(suggested_actions@)
            },
        ),
{
    let mut i: usize = 0;
    proof {
        assert(findings@.take(0) =~= Seq::<ReviewFinding>::empty());
    }
    while i < findings.len()
        invariant
            i <= findings.len(),
            findings_check(findings@.take(i as int)) is None,
        decreases findings.len() - i,
    {
        let f = &findings[i];
        proof {
            assert(findings@.take(i + 1).drop_last() =~= findings@.take(i as int));
            assert(findings@.take(i + 1).last() == *f);
        }
        if str_is_blank(f.code.as_str()) || str_is_blank(f.message.as_str()) {
            proof {
                lemma_findings_prefix(findings@, i + 1);
            }
            return reflection_error("review findings must include code and message");
        }
        if str_is_blank(f.target.reference.as_str()) {
            proof {
                lemma_findings_prefix(findings@, i + 1);
            }
            return reflection_error("review finding target reference must not be empty");
        }
        i = i + 1;
    }
    proof {
        assert(findings@.take(i as int) =~= findings@);
    }
    let mut j: usize = 0;
    proof {
        assert(suggested_actions@.take(0) =~= Seq::<SuggestedAction>::empty());
    }
    while j < suggested_actions.len()
        invariant
            j <= suggested_actions.len(),
            findings_check(findings@) is None,
            actions_check(suggested_actions@.take(j as int)) is None,
        decreases suggested_actions.len() - j,
    {
        let a = &suggested_actions[j];
        proof {
            assert(suggested_actions@.take(j + 1).drop_last() =~= suggested_actions@.take(j as int));
            assert(suggested_actions@.take(j + 1).last() == *a);
        }
        if str_is_blank(a.action.as_str()) || str_is_blank(a.target.reference.as_str()) {
            proof {
                lemma_actions_prefix(suggested_actions@, j + 1);
            }
            return reflection_error("suggested actions must include an action and target reference");
        }
        j = j + 1;
    }
    proof {
        assert(suggested_actions@.take(j as int) =~= suggested_actions@);
    }
    Ok(())
}

} // verus!
