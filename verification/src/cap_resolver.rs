//! Deterministic resolution: every request of an expansion is bound to the
//! best matching offer of the declaration.
//!
//! An offer matches a request when it provides the requested capability and
//! belongs to the expansion's view. Among matching offers the best score wins
//! (profile fit first, then having a provider); ties go to the smallest offer
//! id and are reported as ambiguous. Requests without a matching offer are
//! reported as unresolved.

use vstd::prelude::*;

use crate::cap_profile::{
    all_expansions, applies, applies_to_profile, expand_profile, expand_profiles, expand_root,
    expansion_result, expansions_result, opt_str_view, profile_expansion, root_expansion,
    CapabilityProfileExpansion, CapabilityProfileExpansionError, ExpansionErrorView, ExpansionView,
};
use crate::cap_types::{
    clone_opt_provider, declaration_check, lemma_scan_step, offer_ids, opt_provider_view,
    opt_string_view, resolution_check, scan, section_check, section_step, strings_view,
    CapabilityBinding, CapabilityBindingKind, CapabilityDeclaration, CapabilityId, CapabilityOffer,
    CapabilityResolution, CapabilityValidationError, OfferView, ProviderView, ResolutionView,
    BindingView, ValidationErrorView,
};
use crate::table::{
    lemma_lists_add, lemma_lists_empty, lemma_lists_entry, lemma_lists_insert, lemma_lists_position, lemma_listing,
    listing, lists,
};
use crate::text::{lex_lt, str_equal, str_less};

verus! {

/// Deterministic resolver warnings and conflicts.
#[derive(Debug, PartialEq, Eq)]
pub enum CapabilityResolutionIssue {
    /// No matching offers were found for a request.
    UnresolvedRequest {
        profile_id: Option<String>,
        request_id: String,
        capability: CapabilityId,
        request_kind: CapabilityBindingKind,
    },
    /// Multiple offers tied for the same best score.
    AmbiguousOffer {
        profile_id: Option<String>,
        request_id: String,
        capability: CapabilityId,
        request_kind: CapabilityBindingKind,
        /// Candidate offer identifiers in ascending order.
        candidates: Vec<String>,
        /// Chosen offer identifier.
        chosen: String,
    },
}

pub enum IssueView {
    UnresolvedRequest {
        profile_id: Option<Seq<char>>,
        request_id: Seq<char>,
        capability: Seq<char>,
        request_kind: CapabilityBindingKind,
    },
    AmbiguousOffer {
        profile_id: Option<Seq<char>>,
        request_id: Seq<char>,
        capability: Seq<char>,
        request_kind: CapabilityBindingKind,
        candidates: Seq<Seq<char>>,
        chosen: Seq<char>,
    },
}

impl View for CapabilityResolutionIssue {
    type V = IssueView;

    open spec fn view(&self) -> IssueView {
        match self {
            CapabilityResolutionIssue::UnresolvedRequest { profile_id, request_id, capability, request_kind } => {
                IssueView::UnresolvedRequest {
                    profile_id: opt_string_view(*profile_id),
                    request_id: request_id@,
                    capability: capability@,
                    request_kind: *request_kind,
                }
            },
            CapabilityResolutionIssue::AmbiguousOffer {
                profile_id,
                request_id,
                capability,
                request_kind,
                candidates,
                chosen,
            } => IssueView::AmbiguousOffer {
                profile_id: opt_string_view(*profile_id),
                request_id: request_id@,
                capability: capability@,
                request_kind: *request_kind,
                candidates: strings_view(candidates@),
                chosen: chosen@,
            },
        }
    }
}

/// A resolution report that records deterministic bindings and any issues encountered.
#[derive(Debug, PartialEq, Eq)]
pub struct CapabilityResolutionReport {
    /// Profile identifier, or `None` for the root generic view.
    pub profile_id: Option<String>,
    /// Final bindings chosen by the resolver.
    pub resolution: CapabilityResolution,
    /// Non-fatal resolver issues.
    pub issues: Vec<CapabilityResolutionIssue>,
}

pub struct ReportView {
    pub profile_id: Option<Seq<char>>,
    pub resolution: ResolutionView,
    pub issues: Seq<IssueView>,
}

impl View for CapabilityResolutionReport {
    type V = ReportView;

    open spec fn view(&self) -> ReportView {
        ReportView {
            profile_id: opt_string_view(self.profile_id),
            resolution: self.resolution@,
            issues: self.issues@.map_values(|i: CapabilityResolutionIssue| i@),
        }
    }
}

/// Errors produced while resolving capability profiles.
#[derive(Clone, Debug, PartialEq, Eq)]
pub enum CapabilityResolverError {
    /// Underlying capability declaration validation failed.
    Validation(CapabilityValidationError),
    /// Profile expansion failed.
    Expansion(CapabilityProfileExpansionError),
}

pub enum ResolverErrorView {
    Validation(ValidationErrorView),
    Expansion(ExpansionErrorView),
}

impl View for CapabilityResolverError {
    type V = ResolverErrorView;

    open spec fn view(&self) -> ResolverErrorView {
        match self {
            CapabilityResolverError::Validation(e) => ResolverErrorView::Validation(e@),
            CapabilityResolverError::Expansion(e) => ResolverErrorView::Expansion(e@),
        }
    }
}

/// An offer can serve a request for `cap` in the view `pid`.
pub open spec fn offer_eligible(o: OfferView, cap: Seq<char>, pid: Option<Seq<char>>) -> bool {
    o.capability == cap && applies(o.profiles, pid)
}

/// How well an offer fits the view: named for the profile, generic, or
/// (root view) unscoped.
pub open spec fn profile_fit(o: OfferView, pid: Option<Seq<char>>) -> int {
    match pid {
        Some(p) => if o.profiles.contains(p) {
            2
        } else {
            1
        },
        None => if o.profiles.len() == 0 {
            2
        } else {
            0
        },
    }
}

/// Selection score: profile fit first, then whether a provider is given.
pub open spec fn offer_score(o: OfferView, pid: Option<Seq<char>>) -> int {
    2 * profile_fit(o, pid) + if o.provider is Some {
        1int
    } else {
        0int
    }
}

/// The best score of an eligible offer in `os` (`-1` when none is eligible).
pub open spec fn best_score(os: Seq<OfferView>, cap: Seq<char>, pid: Option<Seq<char>>) -> int
    decreases os.len(),
{
    if os.len() == 0 {
        -1
    } else {
        let b = best_score(os.drop_last(), cap, pid);
        let o = os.last();
        if offer_eligible(o, cap, pid) && offer_score(o, pid) > b {
            offer_score(o, pid)
        } else {
            b
        }
    }
}

/// The eligible offers of `os` with the best score, keyed by offer id.
pub open spec fn candidates(os: Seq<OfferView>, cap: Seq<char>, pid: Option<Seq<char>>) -> Map<Seq<char>, OfferView>
    decreases os.len(),
{
    if os.len() == 0 {
        Map::empty()
    } else {
        let prev = candidates(os.drop_last(), cap, pid);
        let b = best_score(os.drop_last(), cap, pid);
        let o = os.last();
        if !offer_eligible(o, cap, pid) || offer_score(o, pid) < b {
            prev
        } else if offer_score(o, pid) == b {
            prev.insert(o.id, o)
        } else {
            Map::empty().insert(o.id, o)
        }
    }
}

pub open spec fn offer_key() -> spec_fn(OfferView) -> Seq<char> {
    |o: OfferView| o.id
}

/// The best offers in ascending id order; the first one is chosen.
pub open spec fn ranked(os: Seq<OfferView>, cap: Seq<char>, pid: Option<Seq<char>>) -> Seq<OfferView> {
    listing(candidates(os, cap, pid), offer_key())
}

/// A request of an expansion: its kind, id and requested capability.
pub type RequestView = (CapabilityBindingKind, Seq<char>, Seq<char>);

/// The requests of an expansion: requirements first, then consumes.
pub open spec fn expansion_requests(x: ExpansionView) -> Seq<RequestView> {
    x.requirements.map_values(|r: crate::cap_types::RequirementView| (CapabilityBindingKind::Requirement, r.id, r.capability))
        + x.consumes.map_values(|c: crate::cap_types::ConsumeView| (CapabilityBindingKind::Consume, c.id, c.capability))
}

/// The binding made for one request, if an offer matches it.
pub open spec fn request_binding(os: Seq<OfferView>, pid: Option<Seq<char>>, q: RequestView) -> Option<BindingView> {
    let t = ranked(os, q.2, pid);
    if t.len() == 0 {
        None
    } else {
        Some(
            BindingView {
                kind: q.0,
                request_id: q.1,
                offer_id: t[0].id,
                capability: q.2,
                provider: t[0].provider,
                profile: pid,
            },
        )
    }
}

/// The issue raised for one request, if any.
pub open spec fn request_issue(os: Seq<OfferView>, pid: Option<Seq<char>>, q: RequestView) -> Option<IssueView> {
    let t = ranked(os, q.2, pid);
    if t.len() == 0 {
        Some(IssueView::UnresolvedRequest { profile_id: pid, request_id: q.1, capability: q.2, request_kind: q.0 })
    } else if t.len() > 1 {
        Some(
            IssueView::AmbiguousOffer {
                profile_id: pid,
                request_id: q.1,
                capability: q.2,
                request_kind: q.0,
                candidates: t.map_values(|o: OfferView| o.id),
                chosen: t[0].id,
            },
        )
    } else {
        None
    }
}

pub open spec fn opt_seq<T>(o: Option<T>) -> Seq<T> {
    match o {
        Some(x) => seq![x],
        None => Seq::empty(),
    }
}

pub open spec fn bindings_for(os: Seq<OfferView>, pid: Option<Seq<char>>, qs: Seq<RequestView>) -> Seq<BindingView>
    decreases qs.len(),
{
    if qs.len() == 0 {
        Seq::empty()
    } else {
        bindings_for(os, pid, qs.drop_last()) + opt_seq(request_binding(os, pid, qs.last()))
    }
}

pub open spec fn issues_for(os: Seq<OfferView>, pid: Option<Seq<char>>, qs: Seq<RequestView>) -> Seq<IssueView>
    decreases qs.len(),
{
    if qs.len() == 0 {
        Seq::empty()
    } else {
        issues_for(os, pid, qs.drop_last()) + opt_seq(request_issue(os, pid, qs.last()))
    }
}

/// What resolving the expansion `x` of `d` gives.
pub open spec fn resolution_report(d: crate::cap_types::DeclarationView, x: ExpansionView) -> Result<ReportView, ResolverErrorView> {
    let qs = expansion_requests(x);
    let res = ResolutionView { declaration: d, bindings: bindings_for(d.offers, x.profile_id, qs) };
    match resolution_check(res) {
        Some(e) => Err(ResolverErrorView::Validation(e)),
        None => Ok(ReportView { profile_id: x.profile_id, resolution: res, issues: issues_for(d.offers, x.profile_id, qs) }),
    }
}

pub open spec fn after_expansion(
    d: crate::cap_types::DeclarationView,
    x: Result<ExpansionView, ExpansionErrorView>,
) -> Result<ReportView, ResolverErrorView> {
    match x {
        Err(e) => Err(ResolverErrorView::Expansion(e)),
        Ok(x) => resolution_report(d, x),
    }
}

/// Reports for each expansion in turn; the first failure stops.
pub open spec fn reports_for(d: crate::cap_types::DeclarationView, xs: Seq<ExpansionView>) -> Result<Seq<ReportView>, ResolverErrorView>
    decreases xs.len(),
{
    if xs.len() == 0 {
        Ok(Seq::empty())
    } else {
        match reports_for(d, xs.drop_last()) {
            Err(e) => Err(e),
            Ok(rs) => match resolution_report(d, xs.last()) {
                Err(e) => Err(e),
                Ok(r) => Ok(rs.push(r)),
            },
        }
    }
}

pub open spec fn all_reports(d: crate::cap_types::DeclarationView) -> Result<Seq<ReportView>, ResolverErrorView> {
    match all_expansions(d) {
        Err(e) => Err(ResolverErrorView::Expansion(e)),
        Ok(xs) => reports_for(d, xs),
    }
}

pub open spec fn report_result(r: Result<CapabilityResolutionReport, CapabilityResolverError>) -> Result<ReportView, ResolverErrorView> {
    match r {
        Ok(x) => Ok(x@),
        Err(e) => Err(e@),
    }
}

pub open spec fn reports_result(r: Result<Vec<CapabilityResolutionReport>, CapabilityResolverError>) -> Result<Seq<ReportView>, ResolverErrorView> {
    match r {
        Ok(v) => Ok(v@.map_values(|x: CapabilityResolutionReport| x@)),
        Err(e) => Err(e@),
    }
}

/// Identifiers that pass a section check are pairwise distinct.
pub proof fn lemma_section_distinct(section: Seq<char>, ids: Seq<Seq<char>>)
    requires
        section_check(section, ids) is None,
    ensures
        forall|i: int, j: int| 0 <= i < j < ids.len() ==> ids[i] != ids[j],
    decreases ids.len(),
{
    if ids.len() > 0 {
        let prev = ids.drop_last();
        assert(scan(prev, section_step(section)) is None);
        assert(section_step(section)(prev, ids.last()) is None);
        lemma_section_distinct(section, prev);
        assert forall|i: int, j: int| 0 <= i < j < ids.len() implies ids[i] != ids[j] by {
            if j == ids.len() - 1 {
                assert(prev[i] == ids[i]);
                assert(!prev.contains(ids.last()));
            } else {
                assert(prev[i] == ids[i] && prev[j] == ids[j]);
            }
        }
    }
}

pub open spec fn offers_seq(offers: Seq<CapabilityOffer>) -> Seq<OfferView> {
    offers.map_values(|o: CapabilityOffer| o@)
}

/// Whether an offer belongs to the view `profile_id`.
fn offer_matches_profile(offer: &CapabilityOffer, profile_id: Option<&str>) -> (r: bool)
    ensures
        r == applies(offer@.profiles, opt_str_view(profile_id)),
{
    applies_to_profile(&offer.profiles, profile_id)
}

/// The selection score as (profile fit, provider given).
fn selection_score(offer: &CapabilityOffer, profile_id: Option<&str>) -> (r: (u8, u8))
    ensures
        r.0 == profile_fit(offer@, opt_str_view(profile_id)),
        r.1 == (if offer@.provider is Some {
            1int
        } else {
            0int
        }),
{
    let profile_score: u8 = match profile_id {
        Some(p) => if crate::cap_types::strings_contain(&offer.profiles, p) {
            2
        } else {
            1
        },
        None => if offer.profiles.len() == 0 {
            2
        } else {
            0
        },
    };
    let provider_score: u8 = if offer.provider.is_some() {
        1
    } else {
        0
    };
    (profile_score, provider_score)
}

/// First position in `cand` whose offer id is not below `id`.
fn candidate_position(offers: &Vec<CapabilityOffer>, cand: &Vec<usize>, id: &str) -> (p: usize)
    requires
        forall|j: int| 0 <= j < cand.len() ==> cand@[j] < offers.len(),
    ensures
        p <= cand.len(),
        forall|j: int| 0 <= j < p ==> lex_lt(#[trigger] offers@[cand@[j] as int].id@, id@),
        p < cand.len() ==> !lex_lt(offers@[cand@[p as int] as int].id@, id@),
{
    let mut p: usize = 0;
    while p < cand.len()
        invariant
            p <= cand.len(),
            forall|j: int| 0 <= j < cand.len() ==> cand@[j] < offers.len(),
            forall|j: int| 0 <= j < p ==> lex_lt(#[trigger] offers@[cand@[j] as int].id@, id@),
        decreases cand.len() - p,
    {
        if !str_less(offers[cand[p]].id.as_str(), id) {
            return p;
        }
        p = p + 1;
    }
    p
}

pub open spec fn cand_offers(os: Seq<OfferView>, cand: Seq<usize>) -> Seq<OfferView> {
    cand.map_values(|k: usize| os[k as int])
}

/// Picks the best offers for a request of `capability` in the view
/// `profile_id`: the index of the chosen offer and the ids of all best offers
/// in ascending order, or `None` when no offer matches.
fn choose_offer(offers: &Vec<CapabilityOffer>, capability: &str, profile_id: Option<&str>) -> (r: Option<(usize, Vec<String>)>)
    requires
        forall|i: int, j: int| 0 <= i < j < offers.len() ==> offers@[i].id@ != offers@[j].id@,
    ensures
        ({
            let t = ranked(offers_seq(offers@), capability@, opt_str_view(profile_id));
            match r {
                None => t.len() == 0,
                Some((k, ids)) => t.len() > 0 && k < offers.len() && offers@[k as int]@ == t[0]
                    && strings_view(ids@) == t.map_values(|o: OfferView| o.id),
            }
        }),
{
    let ghost os = offers_seq(offers@);
    let ghost cap = capability@;
    let ghost pid = opt_str_view(profile_id);
    let mut best: Option<(u8, u8)> = None;
    let mut cand: Vec<usize> = Vec::new();
    proof {
        lemma_lists_empty(offer_key());
        assert(cand_offers(os, cand@) =~= Seq::<OfferView>::empty());
        assert(os.take(0) =~= Seq::<OfferView>::empty());
    }
    let mut i: usize = 0;
    while i < offers.len()
        invariant
            i <= offers.len(),
            os == offers_seq(offers@),
            cap == capability@,
            pid == opt_str_view(profile_id),
            forall|a: int, b: int| 0 <= a < b < offers.len() ==> offers@[a].id@ != offers@[b].id@,
            match best {
                None => best_score(os.take(i as int), cap, pid) == -1,
                Some(sc) => best_score(os.take(i as int), cap, pid) == 2 * sc.0 + sc.1 && sc.1 <= 1,
            },
            forall|j: int| 0 <= j < cand.len() ==> cand@[j] < i,
            lists(cand_offers(os, cand@), offer_key(), candidates(os.take(i as int), cap, pid)),
        decreases offers.len() - i,
    {
        let ghost prev_cand = cand@;
        let ghost m = candidates(os.take(i as int), cap, pid);
        proof {
            assert(os.take(i + 1).drop_last() =~= os.take(i as int));
            assert(os.take(i + 1).last() == os[i as int]);
            assert(os[i as int] == offers@[i as int]@);
        }
        let offer = &offers[i];
        if str_equal(offer.capability.as_str(), capability) && offer_matches_profile(offer, profile_id) {
            let score = selection_score(offer, profile_id);
            let replace = match best {
                None => true,
                Some(cur) => cur.0 < score.0 || (cur.0 == score.0 && cur.1 < score.1),
            };
            let tie = match best {
                None => false,
                Some(cur) => cur.0 == score.0 && cur.1 == score.1,
            };
            if replace {
                best = Some(score);
                cand = Vec::new();
                cand.push(i);
                proof {
                    let m1 = Map::<Seq<char>, OfferView>::empty().insert(os[i as int].id, os[i as int]);
                    assert(cand_offers(os, cand@) =~= seq![os[i as int]]);
                    lemma_lists_empty(offer_key());
                    lemma_lists_insert(Seq::<OfferView>::empty(), offer_key(), Map::<Seq<char>, OfferView>::empty(), 0, os[i as int]);
                    assert(Seq::<OfferView>::empty().insert(0, os[i as int]) =~= seq![os[i as int]]);
                }
            } else if tie {
                let p = candidate_position(offers, &cand, offer.id.as_str());
                let ghost t = cand_offers(os, cand@);
                let ghost v = os[i as int];
                assert forall|j: int| 0 <= j < p implies lex_lt(#[trigger] offer_key()(t[j]), offer_key()(v)) by {
                    assert(lex_lt(offers@[cand@[j] as int].id@, offer.id@));
                }
                proof {
                    if p < cand.len() {
                        assert(offer_key()(t[p as int]) == offers@[cand@[p as int] as int].id@);
                    }
                    lemma_lists_position(t, offer_key(), m, p as int, v.id);
                    if p < cand.len() && offer_key()(t[p as int]) == v.id {
                        assert(cand@[p as int] < i);
                        assert(offers@[cand@[p as int] as int].id@ != offers@[i as int].id@);
                    }
                }
                cand.insert(p, i);
                proof {
                    lemma_lists_insert(t, offer_key(), m, p as int, v);
                    assert(cand_offers(os, cand@) =~= t.insert(p as int, v));
                }
            }
        }
        i = i + 1;
    }
    proof {
        assert(os.take(offers.len() as int) =~= os);
        lemma_listing(cand_offers(os, cand@), offer_key(), candidates(os, cap, pid));
    }
    if cand.len() == 0 {
        return None;
    }
    let ghost t = cand_offers(os, cand@);
    let mut ids: Vec<String> = Vec::new();
    let mut j: usize = 0;
    while j < cand.len()
        invariant
            j <= cand.len(),
            t == cand_offers(os, cand@),
            os == offers_seq(offers@),
            forall|q: int| 0 <= q < cand.len() ==> cand@[q] < offers.len(),
            strings_view(ids@) == t.take(j as int).map_values(|o: OfferView| o.id),
        decreases cand.len() - j,
    {
        let ghost before = ids@;
        ids.push(offers[cand[j]].id.clone());
        proof {
            assert(t[j as int] == offers@[cand@[j as int] as int]@);
            assert(strings_view(ids@) =~= strings_view(before).push(t[j as int].id));
            assert(t.take(j + 1).map_values(|o: OfferView| o.id) =~= t.take(j as int).map_values(|o: OfferView| o.id).push(t[j as int].id));
        }
        j = j + 1;
    }
    proof {
        assert(t.take(cand.len() as int) =~= t);
    }
    Some((cand[0], ids))
}

fn owned_profile(profile_id: Option<&str>) -> (r: Option<String>)
    ensures
        opt_string_view(r) == opt_str_view(profile_id),
{
    match profile_id {
        Some(s) => Some(s.to_owned()),
        None => None,
    }
}

/// The binding of a requirement to the chosen offer.
fn binding_for_requirement(
    requirement: &crate::cap_types::CapabilityRequirement,
    offer: &CapabilityOffer,
    profile_id: Option<&str>,
) -> (r: CapabilityBinding)
    ensures
        r@ == (BindingView {
            kind: CapabilityBindingKind::Requirement,
            request_id: requirement@.id,
            offer_id: offer@.id,
            capability: requirement@.capability,
            provider: offer@.provider,
            profile: opt_str_view(profile_id),
        }),
{
    let mut binding = CapabilityBinding::new(
        CapabilityBindingKind::Requirement,
        requirement.id.clone(),
        offer.id.clone(),
        requirement.capability.clone(),
    );
    binding.provider = clone_opt_provider(&offer.provider);
    binding.profile = owned_profile(profile_id);
    binding
}

/// The binding of a consume to the chosen offer.
fn binding_for_consume(
    consume: &crate::cap_types::CapabilityConsume,
    offer: &CapabilityOffer,
    profile_id: Option<&str>,
) -> (r: CapabilityBinding)
    ensures
        r@ == (BindingView {
            kind: CapabilityBindingKind::Consume,
            request_id: consume@.id,
            offer_id: offer@.id,
            capability: consume@.capability,
            provider: offer@.provider,
            profile: opt_str_view(profile_id),
        }),
{
    let mut binding = CapabilityBinding::new(
        CapabilityBindingKind::Consume,
        consume.id.clone(),
        offer.id.clone(),
        consume.capability.clone(),
    );
    binding.provider = clone_opt_provider(&offer.provider);
    binding.profile = owned_profile(profile_id);
    binding
}

pub open spec fn issues_seq(v: Seq<CapabilityResolutionIssue>) -> Seq<IssueView> {
    v.map_values(|i: CapabilityResolutionIssue| i@)
}

/// A valid declaration has pairwise distinct offer ids.
proof fn lemma_valid_offer_ids(d: crate::cap_types::DeclarationView)
    requires
        declaration_check(d) is None,
    ensures
        forall|i: int, j: int| 0 <= i < j < d.offers.len() ==> d.offers[i].id != d.offers[j].id,
{
    lemma_section_distinct("offers.id"@, offer_ids(d.offers));
    assert forall|i: int, j: int| 0 <= i < j < d.offers.len() implies d.offers[i].id != d.offers[j].id by {
        assert(offer_ids(d.offers)[i] == d.offers[i].id);
        assert(offer_ids(d.offers)[j] == d.offers[j].id);
    }
}

/// Resolves an expansion of a valid declaration: binds each request to its
/// chosen offer and reports unresolved and ambiguous requests.
pub fn resolve_expansion(declaration: &CapabilityDeclaration, expansion: CapabilityProfileExpansion) -> (r: Result<
    CapabilityResolutionReport,
    CapabilityResolverError,
>)
    requires
        declaration_check(declaration@) is None,
    ensures
        report_result(r) == resolution_report(declaration@, expansion@),
{
    let ghost d = declaration@;
    let ghost os = declaration@.offers;
    let ghost pid = expansion@.profile_id;
    let ghost qs = expansion_requests(expansion@);
    let ghost nr = expansion.requirements.len() as int;
    proof {
        lemma_valid_offer_ids(d);
        assert(os =~= offers_seq(declaration.offers@));
        assert forall|i: int, j: int| 0 <= i < j < declaration.offers.len() implies declaration.offers@[i].id@
            != declaration.offers@[j].id@ by {
            assert(os[i] == declaration.offers@[i]@);
            assert(os[j] == declaration.offers@[j]@);
        }
    }
    let profile_id: Option<&str> = match &expansion.profile_id {
        Some(s) => Some(s.as_str()),
        None => None,
    };
    assert(opt_str_view(profile_id) == pid);
    let mut resolution = CapabilityResolution::new(declaration.clone());
    let mut issues: Vec<CapabilityResolutionIssue> = Vec::new();
    proof {
        assert(crate::cap_types::bindings_view(resolution.bindings@) =~= Seq::<BindingView>::empty());
        assert(issues_seq(issues@) =~= Seq::<IssueView>::empty());
        assert(qs.take(0) =~= Seq::<RequestView>::empty());
    }
    let mut i: usize = 0;
    while i < expansion.requirements.len()
        invariant
            i <= expansion.requirements.len(),
            d == declaration@,
            os == declaration@.offers,
            os == offers_seq(declaration.offers@),
            pid == expansion@.profile_id,
            opt_str_view(profile_id) == pid,
            qs == expansion_requests(expansion@),
            nr == expansion.requirements.len(),
            forall|a: int, b: int| 0 <= a < b < declaration.offers.len() ==> declaration.offers@[a].id@ != declaration.offers@[b].id@,
            resolution.declaration@ == d,
            crate::cap_types::bindings_view(resolution.bindings@) == bindings_for(os, pid, qs.take(i as int)),
            issues_seq(issues@) == issues_for(os, pid, qs.take(i as int)),
        decreases expansion.requirements.len() - i,
    {
        let requirement = &expansion.requirements[i];
        let ghost q = (CapabilityBindingKind::Requirement, requirement@.id, requirement@.capability);
        let ghost before_b = resolution.bindings@;
        let ghost before_i = issues@;
        proof {
            assert(qs[i as int] == q);
            assert(qs.take(i + 1).drop_last() =~= qs.take(i as int));
            assert(qs.take(i + 1).last() == q);
        }
        match choose_offer(&declaration.offers, requirement.capability.as_str(), profile_id) {
            Some((k, ids)) => {
                let ghost t = ranked(os, q.2, pid);
                let ghost ids_v = strings_view(ids@);
                assert(ids_v.len() == ids.len());
                if ids.len() > 1 {
                    let chosen = declaration.offers[k].id.clone();
                    let request_id = requirement.id.clone();
                    let issue = CapabilityResolutionIssue::AmbiguousOffer {
                        profile_id: owned_profile(profile_id),
                        request_id,
                        capability: requirement.capability.clone(),
                        request_kind: CapabilityBindingKind::Requirement,
                        candidates: ids,
                        chosen,
                    };
                    assert(t.len() > 1);
                    assert(issue@ == request_issue(os, pid, q)->Some_0);
                    issues.push(issue);
                } else {
                    assert(t.len() == 1);
                    assert(issues_seq(issues@) =~= issues_seq(before_i) + opt_seq(request_issue(os, pid, q)));
                }
                resolution.bindings.push(binding_for_requirement(requirement, &declaration.offers[k], profile_id));
                proof {
                    assert(crate::cap_types::bindings_view(resolution.bindings@) =~= crate::cap_types::bindings_view(before_b).push(
                        request_binding(os, pid, q)->Some_0,
                    ));
                    if before_i.len() < issues@.len() {
                        assert(issues_seq(issues@) =~= issues_seq(before_i).push(request_issue(os, pid, q)->Some_0));
                    } else {
                        assert(issues@ == before_i);
                    }
                }
            },
            None => {
                issues.push(
                    CapabilityResolutionIssue::UnresolvedRequest {
                        profile_id: owned_profile(profile_id),
                        request_id: requirement.id.clone(),
                        capability: requirement.capability.clone(),
                        request_kind: CapabilityBindingKind::Requirement,
                    },
                );
                proof {
                    assert(issues_seq(issues@) =~= issues_seq(before_i).push(request_issue(os, pid, q)->Some_0));
                }
            },
        }
        i = i + 1;
    }
    let mut j: usize = 0;
    proof {
        assert(qs.take(nr) =~= qs.take(nr + 0));
    }
    while j < expansion.consumes.len()
        invariant
            j <= expansion.consumes.len(),
            d == declaration@,
            os == declaration@.offers,
            os == offers_seq(declaration.offers@),
            pid == expansion@.profile_id,
            opt_str_view(profile_id) == pid,
            qs == expansion_requests(expansion@),
            nr == expansion.requirements.len(),
            forall|a: int, b: int| 0 <= a < b < declaration.offers.len() ==> declaration.offers@[a].id@ != declaration.offers@[b].id@,
            resolution.declaration@ == d,
            crate::cap_types::bindings_view(resolution.bindings@) == bindings_for(os, pid, qs.take(nr + j)),
            issues_seq(issues@) == issues_for(os, pid, qs.take(nr + j)),
        decreases expansion.consumes.len() - j,
    {
        let consume = &expansion.consumes[j];
        let ghost q = (CapabilityBindingKind::Consume, consume@.id, consume@.capability);
        let ghost before_b = resolution.bindings@;
        let ghost before_i = issues@;
        proof {
            assert(qs[nr + j] == q);
            assert(qs.take(nr + j + 1).drop_last() =~= qs.take(nr + j));
            assert(qs.take(nr + j + 1).last() == q);
        }
        match choose_offer(&declaration.offers, consume.capability.as_str(), profile_id) {
            Some((k, ids)) => {
                let ghost t = ranked(os, q.2, pid);
                let ghost ids_v = strings_view(ids@);
                assert(ids_v.len() == ids.len());
                if ids.len() > 1 {
                    let chosen = declaration.offers[k].id.clone();
                    let request_id = consume.id.clone();
                    let issue = CapabilityResolutionIssue::AmbiguousOffer {
                        profile_id: owned_profile(profile_id),
                        request_id,
                        capability: consume.capability.clone(),
                        request_kind: CapabilityBindingKind::Consume,
                        candidates: ids,
                        chosen,
                    };
                    assert(t.len() > 1);
                    assert(issue@ == request_issue(os, pid, q)->Some_0);
                    issues.push(issue);
                } else {
                    assert(t.len() == 1);
                    assert(issues_seq(issues@) =~= issues_seq(before_i) + opt_seq(request_issue(os, pid, q)));
                }
                resolution.bindings.push(binding_for_consume(consume, &declaration.offers[k], profile_id));
                proof {
                    assert(crate::cap_types::bindings_view(resolution.bindings@) =~= crate::cap_types::bindings_view(before_b).push(
                        request_binding(os, pid, q)->Some_0,
                    ));
                    if before_i.len() < issues@.len() {
                        assert(issues_seq(issues@) =~= issues_seq(before_i).push(request_issue(os, pid, q)->Some_0));
                    } else {
                        assert(issues@ == before_i);
                    }
                }
            },
            None => {
                issues.push(
                    CapabilityResolutionIssue::UnresolvedRequest {
                        profile_id: owned_profile(profile_id),
                        request_id: consume.id.clone(),
                        capability: consume.capability.clone(),
                        request_kind: CapabilityBindingKind::Consume,
                    },
                );
                proof {
                    assert(issues_seq(issues@) =~= issues_seq(before_i).push(request_issue(os, pid, q)->Some_0));
                }
            },
        }
        j = j + 1;
    }
    proof {
        assert(qs.take(nr + expansion.consumes.len()) =~= qs);
    }
    match resolution.validate() {
        Err(e) => Err(CapabilityResolverError::Validation(e)),
        Ok(()) => Ok(CapabilityResolutionReport { profile_id: expansion.profile_id, resolution, issues }),
    }
}

/// Resolves the root generic view of a declaration.
pub fn resolve_root(declaration: &CapabilityDeclaration) -> (r: Result<CapabilityResolutionReport, CapabilityResolverError>)
    ensures
        report_result(r) == after_expansion(declaration@, root_expansion(declaration@)),
{
    match expand_root(declaration) {
        Err(e) => Err(CapabilityResolverError::Expansion(e)),
        Ok(expansion) => resolve_expansion(declaration, expansion),
    }
}

/// Resolves a specific named profile.
pub fn resolve_profile(declaration: &CapabilityDeclaration, profile_id: &str) -> (r: Result<
    CapabilityResolutionReport,
    CapabilityResolverError,
>)
    ensures
        report_result(r) == after_expansion(declaration@, profile_expansion(declaration@, profile_id@)),
{
    match expand_profile(declaration, profile_id) {
        Err(e) => Err(CapabilityResolverError::Expansion(e)),
        Ok(expansion) => resolve_expansion(declaration, expansion),
    }
}

/// A failed report stops the fold for good.
proof fn lemma_reports_for_err(d: crate::cap_types::DeclarationView, xs: Seq<ExpansionView>, k: int)
    requires
        0 <= k <= xs.len(),
        reports_for(d, xs.take(k)) is Err,
    ensures
        reports_for(d, xs) == reports_for(d, xs.take(k)),
    decreases xs.len() - k,
{
    if k == xs.len() {
        assert(xs.take(k) =~= xs);
    } else {
        assert(xs.drop_last().take(k) =~= xs.take(k));
        lemma_reports_for_err(d, xs.drop_last(), k);
    }
}

pub open spec fn expansions_seq(v: Seq<CapabilityProfileExpansion>) -> Seq<ExpansionView> {
    v.map_values(|x: CapabilityProfileExpansion| x@)
}

/// Resolves every named profile in a declaration, in ascending profile id order.
pub fn resolve_profiles(declaration: &CapabilityDeclaration) -> (r: Result<
    Vec<CapabilityResolutionReport>,
    CapabilityResolverError,
>)
    ensures
        reports_result(r) == all_reports(declaration@),
{
    let mut expansions = match expand_profiles(declaration) {
        Err(e) => {
            return Err(CapabilityResolverError::Expansion(e));
        },
        Ok(v) => v,
    };
    let ghost d = declaration@;
    let ghost xs = expansions_seq(expansions@);
    assert(xs =~= expansions@.map_values(|x: CapabilityProfileExpansion| x@));
    assert(declaration_check(d) is None);
    let n = expansions.len();
    let mut reports: Vec<CapabilityResolutionReport> = Vec::new();
    proof {
        assert(xs.take(0) =~= Seq::<ExpansionView>::empty());
        assert(reports@.map_values(|x: CapabilityResolutionReport| x@) =~= Seq::<ReportView>::empty());
    }
    let mut i: usize = 0;
    while i < n
        invariant
            i <= n,
            n == xs.len(),
            d == declaration@,
            declaration_check(d) is None,
            all_expansions(d) == Ok::<Seq<ExpansionView>, ExpansionErrorView>(xs),
            expansions_seq(expansions@) == xs.skip(i as int),
            reports_for(d, xs.take(i as int)) == Ok::<Seq<ReportView>, ResolverErrorView>(
                reports@.map_values(|x: CapabilityResolutionReport| x@),
            ),
        decreases n - i,
    {
        let ghost before = reports@;
        proof {
            assert(xs.skip(i as int).len() == n - i);
            assert(expansions@.len() == n - i);
        }
        let ghost before_x = expansions@;
        let expansion = expansions.remove(0);
        proof {
            assert(expansions_seq(before_x)[0] == before_x[0]@);
            assert(expansion@ == xs.skip(i as int)[0]);
            assert forall|k: int| 0 <= k < expansions@.len() implies #[trigger] expansions_seq(expansions@)[k] == xs.skip(i + 1)[k] by {
                assert(expansions@[k] == before_x[k + 1]);
                assert(expansions_seq(before_x)[k + 1] == before_x[k + 1]@);
                assert(xs.skip(i as int)[k + 1] == xs[i + 1 + k]);
            }
            assert(xs.skip(i as int)[0] == xs[i as int]);
            assert(expansions_seq(expansions@) =~= xs.skip(i + 1));
            assert(xs.take(i + 1).drop_last() =~= xs.take(i as int));
            assert(xs.take(i + 1).last() == xs[i as int]);
        }
        match resolve_expansion(declaration, expansion) {
            Err(e) => {
                proof {
                    lemma_reports_for_err(d, xs, i + 1);
                }
                return Err(e);
            },
            Ok(report) => {
                reports.push(report);
                proof {
                    assert(reports@.map_values(|x: CapabilityResolutionReport| x@) =~= before.map_values(
                        |x: CapabilityResolutionReport| x@,
                    ).push(reports@[before.len() as int]@));
                }
            },
        }
        i = i + 1;
    }
    proof {
        assert(xs.take(n as int) =~= xs);
    }
    Ok(reports)
}


// ---------------------------------------------------------------------------
// What the choice of an offer promises
// ---------------------------------------------------------------------------

proof fn lemma_offer_score_nonnegative(o: OfferView, pid: Option<Seq<char>>)
    ensures
        0 <= offer_score(o, pid),
{
}

proof fn lemma_best_score(os: Seq<OfferView>, cap: Seq<char>, pid: Option<Seq<char>>)
    ensures
        best_score(os, cap, pid) >= -1,
        forall|i: int| 0 <= i < os.len() && offer_eligible(#[trigger] os[i], cap, pid) ==> offer_score(os[i], pid)
            <= best_score(os, cap, pid),
        best_score(os, cap, pid) == -1 ==> forall|i: int| 0 <= i < os.len() ==> !offer_eligible(#[trigger] os[i], cap, pid),
        best_score(os, cap, pid) >= 0 ==> exists|i: int| 0 <= i < os.len() && offer_eligible(#[trigger] os[i], cap, pid)
            && offer_score(os[i], pid) == best_score(os, cap, pid),
    decreases os.len(),
{
    if os.len() > 0 {
        let prev = os.drop_last();
        lemma_best_score(prev, cap, pid);
        lemma_offer_score_nonnegative(os.last(), pid);
        if best_score(os, cap, pid) >= 0 {
            if offer_eligible(os.last(), cap, pid) && offer_score(os.last(), pid) > best_score(prev, cap, pid) {
                assert(offer_eligible(os[os.len() - 1], cap, pid));
            } else {
                let j = choose|j: int| 0 <= j < prev.len() && offer_eligible(#[trigger] prev[j], cap, pid)
                    && offer_score(prev[j], pid) == best_score(prev, cap, pid);
                assert(os[j] == prev[j]);
            }
        }
        assert forall|i: int| 0 <= i < os.len() && offer_eligible(#[trigger] os[i], cap, pid) implies offer_score(os[i], pid)
            <= best_score(os, cap, pid) by {
            if i < os.len() - 1 {
                assert(os[i] == prev[i]);
            }
        }
        assert forall|i: int| 0 <= i < os.len() && best_score(os, cap, pid) == -1 implies !offer_eligible(#[trigger] os[i], cap, pid) by {
            lemma_offer_score_nonnegative(os[i], pid);
            if i < os.len() - 1 {
                assert(os[i] == prev[i]);
            }
        }
    }
}

proof fn lemma_candidates(os: Seq<OfferView>, cap: Seq<char>, pid: Option<Seq<char>>)
    ensures
        forall|k: Seq<char>| #[trigger] candidates(os, cap, pid).contains_key(k) ==> {
            let c = candidates(os, cap, pid)[k];
            &&& c.id == k
            &&& offer_eligible(c, cap, pid)
            &&& offer_score(c, pid) == best_score(os, cap, pid)
            &&& os.contains(c)
        },
        forall|i: int| 0 <= i < os.len() && offer_eligible(#[trigger] os[i], cap, pid) && offer_score(os[i], pid)
            == best_score(os, cap, pid) ==> candidates(os, cap, pid).contains_key(os[i].id),
    decreases os.len(),
{
    if os.len() > 0 {
        let prev = os.drop_last();
        let o = os.last();
        let b = best_score(prev, cap, pid);
        lemma_candidates(prev, cap, pid);
        lemma_best_score(prev, cap, pid);
        let cm = candidates(os, cap, pid);
        assert forall|k: Seq<char>| #[trigger] cm.contains_key(k) implies {
            let c = cm[k];
            &&& c.id == k
            &&& offer_eligible(c, cap, pid)
            &&& offer_score(c, pid) == best_score(os, cap, pid)
            &&& os.contains(c)
        } by {
            let pm = candidates(prev, cap, pid);
            if pm.contains_key(k) && cm[k] == pm[k] {
                let c = pm[k];
                assert(prev.contains(c));
                let j = choose|j: int| 0 <= j < prev.len() && prev[j] == c;
                assert(os[j] == c);
            } else {
                assert(os[os.len() - 1] == o);
            }
        }
        assert forall|i: int| 0 <= i < os.len() && offer_eligible(#[trigger] os[i], cap, pid) && offer_score(os[i], pid)
            == best_score(os, cap, pid) implies cm.contains_key(os[i].id) by {
            if i < os.len() - 1 {
                assert(os[i] == prev[i]);
            }
        }
    }
}

proof fn lemma_candidates_listed(os: Seq<OfferView>, cap: Seq<char>, pid: Option<Seq<char>>)
    ensures
        exists|t: Seq<OfferView>| #[trigger] lists(t, offer_key(), candidates(os, cap, pid)),
    decreases os.len(),
{
    if os.len() == 0 {
        lemma_lists_empty(offer_key());
        assert(lists(Seq::<OfferView>::empty(), offer_key(), candidates(os, cap, pid)));
    } else {
        let prev = os.drop_last();
        let o = os.last();
        let b = best_score(prev, cap, pid);
        lemma_candidates_listed(prev, cap, pid);
        let pm = candidates(prev, cap, pid);
        let t = choose|t: Seq<OfferView>| #[trigger] lists(t, offer_key(), pm);
        if !offer_eligible(o, cap, pid) || offer_score(o, pid) < b {
            assert(lists(t, offer_key(), candidates(os, cap, pid)));
        } else if offer_score(o, pid) == b {
            lemma_lists_add(t, offer_key(), pm, o);
            assert(offer_key()(o) == o.id);
        } else {
            lemma_lists_empty(offer_key());
            lemma_lists_add(Seq::<OfferView>::empty(), offer_key(), Map::<Seq<char>, OfferView>::empty(), o);
            assert(offer_key()(o) == o.id);
        }
    }
}

/// The choice of an offer for a request of capability `cap` in the view
/// `pid`: an offer is chosen exactly when some offer of the declaration can
/// serve the request; the chosen offer is one of them, no serving offer
/// scores higher, and among the serving offers with its score it has the
/// least id; the ranked offers are those of the best score, in ascending id
/// order.
pub proof fn law_offer_choice(os: Seq<OfferView>, cap: Seq<char>, pid: Option<Seq<char>>)
    ensures
        ranked(os, cap, pid).len() > 0 <==> exists|i: int| 0 <= i < os.len() && offer_eligible(#[trigger] os[i], cap, pid),
        ranked(os, cap, pid).len() > 0 ==> {
            let c = ranked(os, cap, pid)[0];
            &&& os.contains(c)
            &&& offer_eligible(c, cap, pid)
            &&& forall|i: int| 0 <= i < os.len() && offer_eligible(#[trigger] os[i], cap, pid) ==> offer_score(os[i], pid)
                <= offer_score(c, pid)
            &&& forall|i: int| 0 <= i < os.len() && offer_eligible(#[trigger] os[i], cap, pid) && offer_score(os[i], pid)
                == offer_score(c, pid) ==> os[i].id == c.id || lex_lt(c.id, os[i].id)
        },
        forall|j: int| 0 <= j < ranked(os, cap, pid).len() ==> {
            let r = #[trigger] ranked(os, cap, pid)[j];
            &&& os.contains(r)
            &&& offer_eligible(r, cap, pid)
            &&& offer_score(r, pid) == best_score(os, cap, pid)
        },
        forall|j: int, l: int| 0 <= j < l < ranked(os, cap, pid).len() ==> lex_lt(
            #[trigger] ranked(os, cap, pid)[j].id,
            #[trigger] ranked(os, cap, pid)[l].id,
        ),
{
    let cm = candidates(os, cap, pid);
    lemma_candidates_listed(os, cap, pid);
    lemma_candidates(os, cap, pid);
    lemma_best_score(os, cap, pid);
    let t = ranked(os, cap, pid);
    assert(lists(t, offer_key(), cm));
    assert forall|j: int| 0 <= j < t.len() implies {
        let r = #[trigger] t[j];
        &&& os.contains(r)
        &&& offer_eligible(r, cap, pid)
        &&& offer_score(r, pid) == best_score(os, cap, pid)
    } by {
        lemma_lists_entry(t, offer_key(), cm, j);
        assert(cm.contains_key(t[j].id));
    }
    assert forall|j: int, l: int| 0 <= j < l < t.len() implies lex_lt(#[trigger] t[j].id, #[trigger] t[l].id) by {
        assert(lex_lt(offer_key()(t[j]), offer_key()(t[l])));
    }
    if exists|i: int| 0 <= i < os.len() && offer_eligible(#[trigger] os[i], cap, pid) {
        let i = choose|i: int| 0 <= i < os.len() && offer_eligible(#[trigger] os[i], cap, pid);
        lemma_offer_score_nonnegative(os[i], pid);
        let w = choose|w: int| 0 <= w < os.len() && offer_eligible(#[trigger] os[w], cap, pid) && offer_score(os[w], pid)
            == best_score(os, cap, pid);
        assert(cm.contains_key(os[w].id));
        let x = choose|x: int| 0 <= x < t.len() && offer_key()(t[x]) == os[w].id;
        assert(t.len() > 0);
    }
    if t.len() > 0 {
        let c = t[0];
        lemma_lists_entry(t, offer_key(), cm, 0);
        assert(cm.contains_key(c.id));
        assert(os.contains(c));
        let k = choose|k: int| 0 <= k < os.len() && os[k] == c;
        assert(offer_eligible(os[k], cap, pid));
        assert forall|i: int| 0 <= i < os.len() && offer_eligible(#[trigger] os[i], cap, pid) && offer_score(os[i], pid)
            == offer_score(c, pid) implies os[i].id == c.id || lex_lt(c.id, os[i].id) by {
            assert(cm.contains_key(os[i].id));
            let x = choose|x: int| 0 <= x < t.len() && offer_key()(t[x]) == os[i].id;
            if x > 0 {
                assert(lex_lt(offer_key()(t[0]), offer_key()(t[x])));
            }
        }
    }
}


/// Among the offers that can serve a request, the chosen one fits the view
/// at least as well as any other, and among equally fitting offers one that
/// names a provider is preferred: the chosen offer, and so the binding, names
/// a provider whenever some serving offer of the same fit does.
pub proof fn law_offer_prefers_provider(os: Seq<OfferView>, pid: Option<Seq<char>>, q: RequestView)
    ensures
        ranked(os, q.2, pid).len() > 0 ==> {
            let c = ranked(os, q.2, pid)[0];
            &&& forall|i: int| 0 <= i < os.len() && offer_eligible(#[trigger] os[i], q.2, pid) ==> profile_fit(os[i], pid)
                <= profile_fit(c, pid)
            &&& forall|i: int| 0 <= i < os.len() && offer_eligible(#[trigger] os[i], q.2, pid) && profile_fit(os[i], pid)
                == profile_fit(c, pid) && os[i].provider is Some ==> c.provider is Some
        },
        request_binding(os, pid, q) matches Some(b) ==> {
            &&& b.offer_id == ranked(os, q.2, pid)[0].id
            &&& b.provider == ranked(os, q.2, pid)[0].provider
            &&& forall|i: int| 0 <= i < os.len() && offer_eligible(#[trigger] os[i], q.2, pid) && profile_fit(os[i], pid)
                == profile_fit(ranked(os, q.2, pid)[0], pid) && os[i].provider is Some ==> b.provider is Some
        },
{
    law_offer_choice(os, q.2, pid);
    let t = ranked(os, q.2, pid);
    if t.len() > 0 {
        let c = t[0];
        assert forall|i: int| 0 <= i < os.len() && offer_eligible(#[trigger] os[i], q.2, pid) implies profile_fit(
            os[i],
            pid,
        ) <= profile_fit(c, pid) && (profile_fit(os[i], pid) == profile_fit(c, pid) && os[i].provider is Some
            ==> c.provider is Some) by {
            assert(offer_score(os[i], pid) <= offer_score(c, pid));
        }
    }
}

/// Every request is answered: it is bound to an offer exactly when it is
/// not reported unresolved, and an ambiguity report names the bound offer
/// as the chosen one, first among the candidates.
pub proof fn law_request_answered(os: Seq<OfferView>, pid: Option<Seq<char>>, q: RequestView)
    ensures
        (request_binding(os, pid, q) is Some) <==> !(request_issue(os, pid, q) matches Some(
            IssueView::UnresolvedRequest { .. },
        )),
        request_issue(os, pid, q) matches Some(IssueView::AmbiguousOffer { candidates, chosen, .. }) ==> (
        request_binding(os, pid, q) matches Some(b) && b.offer_id == chosen && candidates.len() > 1 && candidates[0]
            == chosen),
        request_binding(os, pid, q) matches Some(b) ==> b.request_id == q.1 && b.capability == q.2 && b.kind == q.0
            && b.profile == pid,
{
}

} // verus!
