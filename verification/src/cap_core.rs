//! Orchestration: expands and resolves a declaration's root view and every
//! named profile in one pass.

use vstd::prelude::*;

use crate::cap_profile::{
    all_expansions, expand_profiles, expand_root, expansion_key, expansion_result, profile_expansion,
    root_expansion, CapabilityProfileExpansion, CapabilityProfileExpansionError, ExpansionErrorView,
    ExpansionView,
};
use crate::cap_resolver::{
    after_expansion, report_result, resolve_profile, resolve_root, CapabilityResolutionReport,
    CapabilityResolverError, ReportView, ResolverErrorView,
};
use crate::cap_types::{CapabilityDeclaration, DeclarationView};

verus! {

/// Full orchestration output for a capability declaration.
#[derive(Debug, PartialEq, Eq)]
pub struct CapabilityOrchestrationReport {
    /// Root generic resolution result.
    pub root: CapabilityResolutionReport,
    /// Per-profile resolution results in ascending profile id order; each
    /// report carries its profile id.
    pub profiles: Vec<CapabilityResolutionReport>,
}

pub struct OrchestrationView {
    pub root: ReportView,
    pub profiles: Seq<ReportView>,
}

impl View for CapabilityOrchestrationReport {
    type V = OrchestrationView;

    open spec fn view(&self) -> OrchestrationView {
        OrchestrationView {
            root: self.root@,
            profiles: self.profiles@.map_values(|r: CapabilityResolutionReport| r@),
        }
    }
}

/// Errors produced while orchestrating capability resolution.
#[derive(Clone, Debug, PartialEq, Eq)]
pub enum CapabilityCoreError {
    /// Profile expansion failed.
    Expansion(CapabilityProfileExpansionError),
    /// Resolver failed.
    Resolver(CapabilityResolverError),
}

pub enum CoreErrorView {
    Expansion(ExpansionErrorView),
    Resolver(ResolverErrorView),
}

impl View for CapabilityCoreError {
    type V = CoreErrorView;

    open spec fn view(&self) -> CoreErrorView {
        match self {
            CapabilityCoreError::Expansion(e) => CoreErrorView::Expansion(e@),
            CapabilityCoreError::Resolver(e) => CoreErrorView::Resolver(e@),
        }
    }
}

/// Per-profile reports for the expansions `xs`, each resolved again by its
/// profile id; the first failure stops.
pub open spec fn profile_reports(d: DeclarationView, xs: Seq<ExpansionView>) -> Result<Seq<ReportView>, CoreErrorView>
    decreases xs.len(),
{
    if xs.len() == 0 {
        Ok(Seq::empty())
    } else {
        match profile_reports(d, xs.drop_last()) {
            Err(e) => Err(e),
            Ok(rs) => match after_expansion(d, profile_expansion(d, expansion_key()(xs.last()))) {
                Err(e) => Err(CoreErrorView::Resolver(e)),
                Ok(r) => Ok(rs.push(r)),
            },
        }
    }
}

/// What orchestrating `d` gives: the root report, then the profile reports.
pub open spec fn orchestration(d: DeclarationView) -> Result<OrchestrationView, CoreErrorView> {
    match after_expansion(d, root_expansion(d)) {
        Err(e) => Err(CoreErrorView::Resolver(e)),
        Ok(root) => match all_expansions(d) {
            Err(e) => Err(CoreErrorView::Expansion(e)),
            Ok(xs) => match profile_reports(d, xs) {
                Err(e) => Err(e),
                Ok(profiles) => Ok(OrchestrationView { root, profiles }),
            },
        },
    }
}

pub open spec fn orchestration_result(r: Result<CapabilityOrchestrationReport, CapabilityCoreError>) -> Result<OrchestrationView, CoreErrorView> {
    match r {
        Ok(x) => Ok(x@),
        Err(e) => Err(e@),
    }
}

proof fn lemma_profile_reports_err(d: DeclarationView, xs: Seq<ExpansionView>, k: int)
    requires
        0 <= k <= xs.len(),
        profile_reports(d, xs.take(k)) is Err,
    ensures
        profile_reports(d, xs) == profile_reports(d, xs.take(k)),
    decreases xs.len() - k,
{
    if k == xs.len() {
        assert(xs.take(k) =~= xs);
    } else {
        assert(xs.drop_last().take(k) =~= xs.take(k));
        lemma_profile_reports_err(d, xs.drop_last(), k);
    }
}

fn expansion_profile_id(x: &CapabilityProfileExpansion) -> (r: &str)
    ensures
        r@ == expansion_key()(x@),
{
    match &x.profile_id {
        Some(s) => s.as_str(),
        None => {
            proof {
                reveal_strlit("");
            }
            assert(""@ =~= Seq::<char>::empty());
            ""
        },
    }
}

/// Expands and resolves a declaration in one pass.
pub fn orchestrate_capability_declaration(declaration: &CapabilityDeclaration) -> (r: Result<
    CapabilityOrchestrationReport,
    CapabilityCoreError,
>)
    ensures
        orchestration_result(r) == orchestration(declaration@),
{
    let root = match resolve_root(declaration) {
        Err(e) => {
            return Err(CapabilityCoreError::Resolver(e));
        },
        Ok(r) => r,
    };
    let expansions = match expand_profiles(declaration) {
        Err(e) => {
            return Err(CapabilityCoreError::Expansion(e));
        },
        Ok(v) => v,
    };
    let ghost d = declaration@;
    let ghost xs = expansions@.map_values(|x: CapabilityProfileExpansion| x@);
    let mut profiles: Vec<CapabilityResolutionReport> = Vec::new();
    proof {
        assert(crate::cap_profile::expansions_result(Ok::<Vec<CapabilityProfileExpansion>, CapabilityProfileExpansionError>(expansions)) == all_expansions(d));
        assert(xs =~= crate::cap_profile::expansions_result(Ok::<Vec<CapabilityProfileExpansion>, CapabilityProfileExpansionError>(expansions))->Ok_0);
        assert(xs.take(0) =~= Seq::<ExpansionView>::empty());
        assert(profiles@.map_values(|r: CapabilityResolutionReport| r@) =~= Seq::<ReportView>::empty());
    }
    let mut i: usize = 0;
    while i < expansions.len()
        invariant
            i <= expansions.len(),
            d == declaration@,
            xs == expansions@.map_values(|x: CapabilityProfileExpansion| x@),
            after_expansion(d, root_expansion(d)) == Ok::<ReportView, ResolverErrorView>(root@),
            all_expansions(d) == Ok::<Seq<ExpansionView>, ExpansionErrorView>(xs),
            profile_reports(d, xs.take(i as int)) == Ok::<Seq<ReportView>, CoreErrorView>(
                profiles@.map_values(|r: CapabilityResolutionReport| r@),
            ),
        decreases expansions.len() - i,
    {
        let ghost before = profiles@;
        proof {
            assert(xs.take(i + 1).drop_last() =~= xs.take(i as int));
            assert(xs.take(i + 1).last() == expansions@[i as int]@);
        }
        match resolve_profile(declaration, expansion_profile_id(&expansions[i])) {
            Err(e) => {
                proof {
                    lemma_profile_reports_err(d, xs, i + 1);
                }
                return Err(CapabilityCoreError::Resolver(e));
            },
            Ok(report) => {
                profiles.push(report);
                proof {
                    assert(profiles@.map_values(|r: CapabilityResolutionReport| r@) =~= before.map_values(
                        |r: CapabilityResolutionReport| r@,
                    ).push(profiles@[before.len() as int]@));
                }
            },
        }
        i = i + 1;
    }
    proof {
        assert(xs.take(expansions.len() as int) =~= xs);
    }
    Ok(CapabilityOrchestrationReport { root, profiles })
}

/// Returns the generic root expansion without resolving bindings.
pub fn expand_capability_root(declaration: &CapabilityDeclaration) -> (r: Result<
    CapabilityProfileExpansion,
    CapabilityCoreError,
>)
    ensures
        match r {
            Ok(x) => root_expansion(declaration@) == Ok::<ExpansionView, ExpansionErrorView>(x@),
            Err(e) => root_expansion(declaration@) matches Err(ee) && e@ == CoreErrorView::Expansion(ee),
        },
{
    match expand_root(declaration) {
        Ok(x) => Ok(x),
        Err(e) => Err(CapabilityCoreError::Expansion(e)),
    }
}

} // verus!
