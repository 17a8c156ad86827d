//! Profile expansion: the effective requirements and consumes of a
//! declaration's root view or of one of its named profiles.
//!
//! Requirements and consumes are collected by id: a second entry with the same
//! id and the same content is skipped, one with different content is a
//! conflict. Results list the entries in ascending id order.

use vstd::prelude::*;

use crate::cap_types::{
    consumes_same, declaration_check, opt_string_view, requirements_same, strings_view,
    CapabilityConsume, CapabilityDeclaration, CapabilityProfile, CapabilityRequirement,
    CapabilityValidationError, ConsumeView, DeclarationView, ProfileView, RequirementView,
    ValidationErrorView,
};
use crate::table::{
    fold_insert, insert_entry, lemma_fold_err_prefix, lemma_fold_full, lemma_fold_step,
    lemma_lists_empty, lemma_lists_insert, lemma_lists_position, lemma_lists_replace,
    keys_ascending, lemma_listing, listing, lists,
};
use crate::text::{lex_lt, str_equal, str_less};

verus! {

/// Expanded capability view for a single profile or the root declaration.
#[derive(Debug, PartialEq, Eq)]
pub struct CapabilityProfileExpansion {
    /// Profile identifier, or `None` for the root generic view.
    pub profile_id: Option<String>,
    /// Effective requirements, in ascending id order.
    pub requirements: Vec<CapabilityRequirement>,
    /// Effective consumes, in ascending id order.
    pub consumes: Vec<CapabilityConsume>,
}

pub struct ExpansionView {
    pub profile_id: Option<Seq<char>>,
    pub requirements: Seq<RequirementView>,
    pub consumes: Seq<ConsumeView>,
}

impl View for CapabilityProfileExpansion {
    type V = ExpansionView;

    open spec fn view(&self) -> ExpansionView {
        ExpansionView {
            profile_id: opt_string_view(self.profile_id),
            requirements: self.requirements@.map_values(|r: CapabilityRequirement| r@),
            consumes: self.consumes@.map_values(|c: CapabilityConsume| c@),
        }
    }
}

impl CapabilityProfileExpansion {
    /// Creates an empty expansion for `profile_id`.
    pub fn new(profile_id: Option<String>) -> (r: Self)
        ensures
            r@ == (ExpansionView {
                profile_id: opt_string_view(profile_id),
                requirements: Seq::empty(),
                consumes: Seq::empty(),
            }),
    {
        let r = CapabilityProfileExpansion { profile_id, requirements: Vec::new(), consumes: Vec::new() };
        assert(r@.requirements =~= Seq::<RequirementView>::empty());
        assert(r@.consumes =~= Seq::<ConsumeView>::empty());
        r
    }
}

/// Errors produced while expanding capability profiles.
#[derive(Clone, Debug, PartialEq, Eq)]
pub enum CapabilityProfileExpansionError {
    /// Underlying capability declaration validation failed.
    Validation(CapabilityValidationError),
    /// The requested profile does not exist.
    UnknownProfile { profile_id: String },
    /// Conflicting requirement entries were encountered while merging.
    ConflictingRequirement { profile_id: Option<String>, id: String },
    /// Conflicting consume entries were encountered while merging.
    ConflictingConsume { profile_id: Option<String>, id: String },
}

pub enum ExpansionErrorView {
    Validation(ValidationErrorView),
    UnknownProfile { profile_id: Seq<char> },
    ConflictingRequirement { profile_id: Option<Seq<char>>, id: Seq<char> },
    ConflictingConsume { profile_id: Option<Seq<char>>, id: Seq<char> },
}

impl View for CapabilityProfileExpansionError {
    type V = ExpansionErrorView;

    open spec fn view(&self) -> ExpansionErrorView {
        match self {
            CapabilityProfileExpansionError::Validation(e) => ExpansionErrorView::Validation(e@),
            CapabilityProfileExpansionError::UnknownProfile { profile_id } => {
                ExpansionErrorView::UnknownProfile { profile_id: profile_id@ }
            },
            CapabilityProfileExpansionError::ConflictingRequirement { profile_id, id } => {
                ExpansionErrorView::ConflictingRequirement {
                    profile_id: opt_string_view(*profile_id),
                    id: id@,
                }
            },
            CapabilityProfileExpansionError::ConflictingConsume { profile_id, id } => {
                ExpansionErrorView::ConflictingConsume { profile_id: opt_string_view(*profile_id), id: id@ }
            },
        }
    }
}

pub type RequirementMap = Map<Seq<char>, RequirementView>;

pub type ConsumeMap = Map<Seq<char>, ConsumeView>;

pub open spec fn opt_str_view(o: Option<&str>) -> Option<Seq<char>> {
    match o {
        Some(s) => Some(s@),
        None => None,
    }
}

/// Whether an item scoped to `profiles` belongs to the view `pid`
/// (`None`: the root view, which takes only unscoped items).
pub open spec fn applies(profiles: Seq<Seq<char>>, pid: Option<Seq<char>>) -> bool {
    match pid {
        Some(p) => profiles.len() == 0 || profiles.contains(p),
        None => profiles.len() == 0,
    }
}

pub open spec fn requirement_key() -> spec_fn(RequirementView) -> Seq<char> {
    |r: RequirementView| r.id
}

pub open spec fn consume_key() -> spec_fn(ConsumeView) -> Seq<char> {
    |c: ConsumeView| c.id
}

pub open spec fn requirement_applies(pid: Option<Seq<char>>) -> spec_fn(RequirementView) -> bool {
    |r: RequirementView| applies(r.profiles, pid)
}

pub open spec fn consume_applies(pid: Option<Seq<char>>) -> spec_fn(ConsumeView) -> bool {
    |c: ConsumeView| applies(c.profiles, pid)
}

pub open spec fn every_requirement() -> spec_fn(RequirementView) -> bool {
    |r: RequirementView| true
}

pub open spec fn every_consume() -> spec_fn(ConsumeView) -> bool {
    |c: ConsumeView| true
}

pub open spec fn requirement_conflict(pid: Option<Seq<char>>) -> spec_fn(Seq<char>) -> ExpansionErrorView {
    |id: Seq<char>| ExpansionErrorView::ConflictingRequirement { profile_id: pid, id }
}

pub open spec fn consume_conflict(pid: Option<Seq<char>>) -> spec_fn(Seq<char>) -> ExpansionErrorView {
    |id: Seq<char>| ExpansionErrorView::ConflictingConsume { profile_id: pid, id }
}

/// The generic items of `d` that apply to the view `pid`, collected by id:
/// requirements first, then consumes.
pub open spec fn generic_maps(d: DeclarationView, pid: Option<Seq<char>>) -> Result<(RequirementMap, ConsumeMap), ExpansionErrorView> {
    match fold_insert(Map::empty(), d.requires, requirement_key(), requirement_applies(pid), requirement_conflict(pid)) {
        Err(e) => Err(e),
        Ok(mr) => match fold_insert(Map::empty(), d.consumes, consume_key(), consume_applies(pid), consume_conflict(pid)) {
            Err(e) => Err(e),
            Ok(mc) => Ok((mr, mc)),
        },
    }
}

/// A profile's own items merged into already collected maps.
pub open spec fn profile_merge(maps: (RequirementMap, ConsumeMap), p: ProfileView) -> Result<(RequirementMap, ConsumeMap), ExpansionErrorView> {
    let pid = Some(p.id);
    match fold_insert(maps.0, p.requires, requirement_key(), every_requirement(), requirement_conflict(pid)) {
        Err(e) => Err(e),
        Ok(mr) => match fold_insert(maps.1, p.consumes, consume_key(), every_consume(), consume_conflict(pid)) {
            Err(e) => Err(e),
            Ok(mc) => Ok((mr, mc)),
        },
    }
}

/// The expansion that lists the collected maps.
pub open spec fn expansion_of(pid: Option<Seq<char>>, maps: (RequirementMap, ConsumeMap)) -> ExpansionView {
    ExpansionView {
        profile_id: pid,
        requirements: listing(maps.0, requirement_key()),
        consumes: listing(maps.1, consume_key()),
    }
}

pub open spec fn generic_expansion(d: DeclarationView, pid: Option<Seq<char>>) -> Result<ExpansionView, ExpansionErrorView> {
    match generic_maps(d, pid) {
        Ok(maps) => Ok(expansion_of(pid, maps)),
        Err(e) => Err(e),
    }
}

/// The first profile from index `i` on whose id is `id`.
pub open spec fn find_profile(ps: Seq<ProfileView>, id: Seq<char>, i: int) -> Option<ProfileView>
    decreases ps.len() - i,
{
    if i < 0 || i >= ps.len() {
        None
    } else if ps[i].id == id {
        Some(ps[i])
    } else {
        find_profile(ps, id, i + 1)
    }
}

/// What expanding the root view of `d` gives.
pub open spec fn root_expansion(d: DeclarationView) -> Result<ExpansionView, ExpansionErrorView> {
    match declaration_check(d) {
        Some(e) => Err(ExpansionErrorView::Validation(e)),
        None => generic_expansion(d, None),
    }
}

/// What expanding the profile `id` of a valid declaration gives.
pub open spec fn valid_profile_expansion(d: DeclarationView, id: Seq<char>) -> Result<ExpansionView, ExpansionErrorView> {
    match find_profile(d.profiles, id, 0) {
        None => Err(ExpansionErrorView::UnknownProfile { profile_id: id }),
        Some(p) => match generic_maps(d, Some(id)) {
            Err(e) => Err(e),
            Ok(maps) => match profile_merge(maps, p) {
                Err(e) => Err(e),
                Ok(merged) => Ok(expansion_of(Some(id), merged)),
            },
        },
    }
}

/// What expanding the profile `id` of `d` gives.
pub open spec fn profile_expansion(d: DeclarationView, id: Seq<char>) -> Result<ExpansionView, ExpansionErrorView> {
    match declaration_check(d) {
        Some(e) => Err(ExpansionErrorView::Validation(e)),
        None => valid_profile_expansion(d, id),
    }
}

pub open spec fn expansion_key() -> spec_fn(ExpansionView) -> Seq<char> {
    |x: ExpansionView| match x.profile_id {
        Some(s) => s,
        None => Seq::empty(),
    }
}

/// The expansions of the profiles of `ps`, keyed by profile id.
pub open spec fn profiles_fold(d: DeclarationView, ps: Seq<ProfileView>) -> Result<Map<Seq<char>, ExpansionView>, ExpansionErrorView>
    decreases ps.len(),
{
    if ps.len() == 0 {
        Ok(Map::empty())
    } else {
        match profiles_fold(d, ps.drop_last()) {
            Err(e) => Err(e),
            Ok(m) => match profile_expansion(d, ps.last().id) {
                Err(e) => Err(e),
                Ok(x) => Ok(m.insert(ps.last().id, x)),
            },
        }
    }
}

/// What expanding every named profile of `d` gives: the expansions in
/// ascending profile id order.
pub open spec fn all_expansions(d: DeclarationView) -> Result<Seq<ExpansionView>, ExpansionErrorView> {
    match declaration_check(d) {
        Some(e) => Err(ExpansionErrorView::Validation(e)),
        None => match profiles_fold(d, d.profiles) {
            Err(e) => Err(e),
            Ok(m) => Ok(listing(m, expansion_key())),
        },
    }
}

pub open spec fn expansion_result(r: Result<CapabilityProfileExpansion, CapabilityProfileExpansionError>) -> Result<ExpansionView, ExpansionErrorView> {
    match r {
        Ok(x) => Ok(x@),
        Err(e) => Err(e@),
    }
}

pub open spec fn expansions_result(r: Result<Vec<CapabilityProfileExpansion>, CapabilityProfileExpansionError>) -> Result<Seq<ExpansionView>, ExpansionErrorView> {
    match r {
        Ok(v) => Ok(v@.map_values(|x: CapabilityProfileExpansion| x@)),
        Err(e) => Err(e@),
    }
}

fn owned_opt(o: Option<&str>) -> (r: Option<String>)
    ensures
        opt_string_view(r) == opt_str_view(o),
{
    match o {
        Some(s) => Some(s.to_owned()),
        None => None,
    }
}

/// Whether an item scoped to `profiles` belongs to the view `profile_id`.
pub fn applies_to_profile(profiles: &Vec<String>, profile_id: Option<&str>) -> (r: bool)
    ensures
        r == applies(strings_view(profiles@), opt_str_view(profile_id)),
{
    match profile_id {
        Some(p) => {
            if profiles.len() == 0 {
                return true;
            }
            let mut i: usize = 0;
            while i < profiles.len()
                invariant
                    i <= profiles.len(),
                    profile_id == Some(p),
                    forall|k: int| 0 <= k < i ==> profiles@[k]@ != p@,
                decreases profiles.len() - i,
            {
                if str_equal(profiles[i].as_str(), p) {
                    assert(strings_view(profiles@)[i as int] == p@);
                    assert(strings_view(profiles@).contains(p@));
                    return true;
                }
                i = i + 1;
            }
            assert(!strings_view(profiles@).contains(p@));
            false
        },
        None => profiles.len() == 0,
    }
}

/// First position whose requirement id is not below `id`.
fn requirement_position(items: &Vec<CapabilityRequirement>, id: &str) -> (p: usize)
    ensures
        p <= items.len(),
        forall|i: int| 0 <= i < p ==> lex_lt(#[trigger] items@[i].id@, id@),
        p < items.len() ==> !lex_lt(items@[p as int].id@, id@),
{
    let mut p: usize = 0;
    while p < items.len()
        invariant
            p <= items.len(),
            forall|i: int| 0 <= i < p ==> lex_lt(#[trigger] items@[i].id@, id@),
        decreases items.len() - p,
    {
        if !str_less(items[p].id.as_str(), id) {
            return p;
        }
        p = p + 1;
    }
    p
}

/// First position whose consume id is not below `id`.
fn consume_position(items: &Vec<CapabilityConsume>, id: &str) -> (p: usize)
    ensures
        p <= items.len(),
        forall|i: int| 0 <= i < p ==> lex_lt(#[trigger] items@[i].id@, id@),
        p < items.len() ==> !lex_lt(items@[p as int].id@, id@),
{
    let mut p: usize = 0;
    while p < items.len()
        invariant
            p <= items.len(),
            forall|i: int| 0 <= i < p ==> lex_lt(#[trigger] items@[i].id@, id@),
        decreases items.len() - p,
    {
        if !str_less(items[p].id.as_str(), id) {
            return p;
        }
        p = p + 1;
    }
    p
}

/// Adds `requirement` to the id-ordered `collection` listing `m`.
fn insert_requirement(
    collection: &mut Vec<CapabilityRequirement>,
    requirement: &CapabilityRequirement,
    profile_id: Option<&str>,
    Ghost(m): Ghost<RequirementMap>,
) -> (r: Result<(), CapabilityProfileExpansionError>)
    requires
        lists(old(collection)@.map_values(|x: CapabilityRequirement| x@), requirement_key(), m),
    ensures
        match insert_entry(m, requirement@, requirement_key(), requirement_conflict(opt_str_view(profile_id))) {
            Ok(m1) => r is Ok && lists(final(collection)@.map_values(|x: CapabilityRequirement| x@), requirement_key(), m1),
            Err(e) => r matches Err(err) && err@ == e,
        },
{
    let ghost t = collection@.map_values(|x: CapabilityRequirement| x@);
    let ghost key = requirement_key();
    let p = requirement_position(collection, requirement.id.as_str());
    assert forall|i: int| 0 <= i < p implies lex_lt(#[trigger] key(t[i]), requirement@.id) by {
        assert(lex_lt(collection@[i].id@, requirement.id@));
    }
    proof {
        if p < collection.len() {
            assert(key(t[p as int]) == collection@[p as int].id@);
        }
        lemma_lists_position(t, key, m, p as int, requirement@.id);
    }
    if p < collection.len() && str_equal(collection[p].id.as_str(), requirement.id.as_str()) {
        if requirements_same(&collection[p], requirement) {
            Ok(())
        } else {
            Err(
                CapabilityProfileExpansionError::ConflictingRequirement {
                    profile_id: owned_opt(profile_id),
                    id: requirement.id.clone(),
                },
            )
        }
    } else {
        collection.insert(p, requirement.clone());
        proof {
            lemma_lists_insert(t, key, m, p as int, requirement@);
            assert(collection@.map_values(|x: CapabilityRequirement| x@) =~= t.insert(p as int, requirement@));
        }
        Ok(())
    }
}

/// Adds `consume` to the id-ordered `collection` listing `m`.
fn insert_consume(
    collection: &mut Vec<CapabilityConsume>,
    consume: &CapabilityConsume,
    profile_id: Option<&str>,
    Ghost(m): Ghost<ConsumeMap>,
) -> (r: Result<(), CapabilityProfileExpansionError>)
    requires
        lists(old(collection)@.map_values(|x: CapabilityConsume| x@), consume_key(), m),
    ensures
        match insert_entry(m, consume@, consume_key(), consume_conflict(opt_str_view(profile_id))) {
            Ok(m1) => r is Ok && lists(final(collection)@.map_values(|x: CapabilityConsume| x@), consume_key(), m1),
            Err(e) => r matches Err(err) && err@ == e,
        },
{
    let ghost t = collection@.map_values(|x: CapabilityConsume| x@);
    let ghost key = consume_key();
    let p = consume_position(collection, consume.id.as_str());
    assert forall|i: int| 0 <= i < p implies lex_lt(#[trigger] key(t[i]), consume@.id) by {
        assert(lex_lt(collection@[i].id@, consume.id@));
    }
    proof {
        if p < collection.len() {
            assert(key(t[p as int]) == collection@[p as int].id@);
        }
        lemma_lists_position(t, key, m, p as int, consume@.id);
    }
    if p < collection.len() && str_equal(collection[p].id.as_str(), consume.id.as_str()) {
        if consumes_same(&collection[p], consume) {
            Ok(())
        } else {
            Err(
                CapabilityProfileExpansionError::ConflictingConsume {
                    profile_id: owned_opt(profile_id),
                    id: consume.id.clone(),
                },
            )
        }
    } else {
        collection.insert(p, consume.clone());
        proof {
            lemma_lists_insert(t, key, m, p as int, consume@);
            assert(collection@.map_values(|x: CapabilityConsume| x@) =~= t.insert(p as int, consume@));
        }
        Ok(())
    }
}

/// Collects the generic items of `declaration` that apply to the view
/// `profile_id`.
fn expand_generic(declaration: &CapabilityDeclaration, profile_id: Option<&str>) -> (r: Result<
    CapabilityProfileExpansion,
    CapabilityProfileExpansionError,
>)
    ensures
        expansion_result(r) == generic_expansion(declaration@, opt_str_view(profile_id)),
        match generic_maps(declaration@, opt_str_view(profile_id)) {
            Ok(maps) => r matches Ok(x) && lists(x@.requirements, requirement_key(), maps.0) && lists(
                x@.consumes,
                consume_key(),
                maps.1,
            ),
            Err(_) => true,
        },
{
    let ghost pid = opt_str_view(profile_id);
    let ghost rs = declaration@.requires;
    let ghost cs = declaration@.consumes;
    let mut requirements: Vec<CapabilityRequirement> = Vec::new();
    let ghost mut mr: RequirementMap = Map::empty();
    proof {
        lemma_lists_empty(requirement_key());
        assert(requirements@.map_values(|x: CapabilityRequirement| x@) =~= Seq::<RequirementView>::empty());
    }
    let mut i: usize = 0;
    while i < declaration.requires.len()
        invariant
            i <= declaration.requires.len(),
            pid == opt_str_view(profile_id),
            rs == declaration@.requires,
            fold_insert(Map::empty(), rs.take(i as int), requirement_key(), requirement_applies(pid), requirement_conflict(pid)) == Ok::<RequirementMap, ExpansionErrorView>(mr),
            lists(requirements@.map_values(|x: CapabilityRequirement| x@), requirement_key(), mr),
        decreases declaration.requires.len() - i,
    {
        let requirement = &declaration.requires[i];
        proof {
            lemma_fold_step(Map::empty(), rs, i as int, requirement_key(), requirement_applies(pid), requirement_conflict(pid));
            assert(rs[i as int] == requirement@);
        }
        if applies_to_profile(&requirement.profiles, profile_id) {
            match insert_requirement(&mut requirements, requirement, profile_id, Ghost(mr)) {
                Ok(()) => {
                    proof {
                        mr = match insert_entry(mr, requirement@, requirement_key(), requirement_conflict(pid)) {
                            Ok(m1) => m1,
                            Err(_) => mr,
                        };
                    }
                },
                Err(e) => {
                    proof {
                        lemma_fold_err_prefix(Map::empty(), rs, i + 1, requirement_key(), requirement_applies(pid), requirement_conflict(pid));
                    }
                    return Err(e);
                },
            }
        }
        i = i + 1;
    }
    proof {
        lemma_fold_full(Map::empty(), rs, requirement_key(), requirement_applies(pid), requirement_conflict(pid));
    }
    let mut consumes: Vec<CapabilityConsume> = Vec::new();
    let ghost mut mc: ConsumeMap = Map::empty();
    proof {
        lemma_lists_empty(consume_key());
        assert(consumes@.map_values(|x: CapabilityConsume| x@) =~= Seq::<ConsumeView>::empty());
    }
    let mut j: usize = 0;
    while j < declaration.consumes.len()
        invariant
            j <= declaration.consumes.len(),
            pid == opt_str_view(profile_id),
            cs == declaration@.consumes,
            rs == declaration@.requires,
            fold_insert(Map::empty(), rs, requirement_key(), requirement_applies(pid), requirement_conflict(pid)) == Ok::<RequirementMap, ExpansionErrorView>(mr),
            fold_insert(Map::empty(), cs.take(j as int), consume_key(), consume_applies(pid), consume_conflict(pid)) == Ok::<ConsumeMap, ExpansionErrorView>(mc),
            lists(consumes@.map_values(|x: CapabilityConsume| x@), consume_key(), mc),
        decreases declaration.consumes.len() - j,
    {
        let consume = &declaration.consumes[j];
        proof {
            lemma_fold_step(Map::empty(), cs, j as int, consume_key(), consume_applies(pid), consume_conflict(pid));
            assert(cs[j as int] == consume@);
        }
        if applies_to_profile(&consume.profiles, profile_id) {
            match insert_consume(&mut consumes, consume, profile_id, Ghost(mc)) {
                Ok(()) => {
                    proof {
                        mc = match insert_entry(mc, consume@, consume_key(), consume_conflict(pid)) {
                            Ok(m1) => m1,
                            Err(_) => mc,
                        };
                    }
                },
                Err(e) => {
                    proof {
                        lemma_fold_err_prefix(Map::empty(), cs, j + 1, consume_key(), consume_applies(pid), consume_conflict(pid));
                    }
                    return Err(e);
                },
            }
        }
        j = j + 1;
    }
    proof {
        lemma_fold_full(Map::empty(), cs, consume_key(), consume_applies(pid), consume_conflict(pid));
        lemma_listing(requirements@.map_values(|x: CapabilityRequirement| x@), requirement_key(), mr);
        lemma_listing(consumes@.map_values(|x: CapabilityConsume| x@), consume_key(), mc);
    }
    Ok(CapabilityProfileExpansion { profile_id: owned_opt(profile_id), requirements, consumes })
}

/// Merges a profile's own items into an expansion that lists `maps`.
fn merge_profile_items(
    expansion: &mut CapabilityProfileExpansion,
    profile: &CapabilityProfile,
    Ghost(maps): Ghost<(RequirementMap, ConsumeMap)>,
) -> (r: Result<(), CapabilityProfileExpansionError>)
    requires
        lists(old(expansion)@.requirements, requirement_key(), maps.0),
        lists(old(expansion)@.consumes, consume_key(), maps.1),
    ensures
        final(expansion).profile_id == old(expansion).profile_id,
        match profile_merge(maps, profile@) {
            Ok(merged) => r is Ok && lists(final(expansion)@.requirements, requirement_key(), merged.0)
                && lists(final(expansion)@.consumes, consume_key(), merged.1),
            Err(e) => r matches Err(err) && err@ == e,
        },
{
    let ghost pid = Some(profile@.id);
    let ghost rs = profile@.requires;
    let ghost cs = profile@.consumes;
    let ghost mut mr: RequirementMap = maps.0;
    let mut i: usize = 0;
    while i < profile.requires.len()
        invariant
            i <= profile.requires.len(),
            pid == Some(profile@.id),
            rs == profile@.requires,
            expansion.profile_id == old(expansion).profile_id,
            lists(expansion@.consumes, consume_key(), maps.1),
            fold_insert(maps.0, rs.take(i as int), requirement_key(), every_requirement(), requirement_conflict(pid)) == Ok::<RequirementMap, ExpansionErrorView>(mr),
            lists(expansion@.requirements, requirement_key(), mr),
        decreases profile.requires.len() - i,
    {
        let requirement = &profile.requires[i];
        proof {
            lemma_fold_step(maps.0, rs, i as int, requirement_key(), every_requirement(), requirement_conflict(pid));
            assert(rs[i as int] == requirement@);
        }
        match insert_requirement(&mut expansion.requirements, requirement, Some(profile.id.as_str()), Ghost(mr)) {
            Ok(()) => {
                proof {
                    mr = match insert_entry(mr, requirement@, requirement_key(), requirement_conflict(pid)) {
                        Ok(m1) => m1,
                        Err(_) => mr,
                    };
                }
            },
            Err(e) => {
                proof {
                    lemma_fold_err_prefix(maps.0, rs, i + 1, requirement_key(), every_requirement(), requirement_conflict(pid));
                }
                return Err(e);
            },
        }
        i = i + 1;
    }
    proof {
        lemma_fold_full(maps.0, rs, requirement_key(), every_requirement(), requirement_conflict(pid));
    }
    let ghost mut mc: ConsumeMap = maps.1;
    let mut j: usize = 0;
    while j < profile.consumes.len()
        invariant
            j <= profile.consumes.len(),
            pid == Some(profile@.id),
            cs == profile@.consumes,
            rs == profile@.requires,
            expansion.profile_id == old(expansion).profile_id,
            fold_insert(maps.0, rs, requirement_key(), every_requirement(), requirement_conflict(pid)) == Ok::<RequirementMap, ExpansionErrorView>(mr),
            lists(expansion@.requirements, requirement_key(), mr),
            fold_insert(maps.1, cs.take(j as int), consume_key(), every_consume(), consume_conflict(pid)) == Ok::<ConsumeMap, ExpansionErrorView>(mc),
            lists(expansion@.consumes, consume_key(), mc),
        decreases profile.consumes.len() - j,
    {
        let consume = &profile.consumes[j];
        proof {
            lemma_fold_step(maps.1, cs, j as int, consume_key(), every_consume(), consume_conflict(pid));
            assert(cs[j as int] == consume@);
        }
        match insert_consume(&mut expansion.consumes, consume, Some(profile.id.as_str()), Ghost(mc)) {
            Ok(()) => {
                proof {
                    mc = match insert_entry(mc, consume@, consume_key(), consume_conflict(pid)) {
                        Ok(m1) => m1,
                        Err(_) => mc,
                    };
                }
            },
            Err(e) => {
                proof {
                    lemma_fold_err_prefix(maps.1, cs, j + 1, consume_key(), every_consume(), consume_conflict(pid));
                    assert(fold_insert(maps.1, cs, consume_key(), every_consume(), consume_conflict(pid)) == Err::<ConsumeMap, ExpansionErrorView>(e@));
                    assert(cs == profile@.consumes);
                    assert(rs == profile@.requires);
                }
                return Err(e);
            },
        }
        j = j + 1;
    }
    proof {
        lemma_fold_full(maps.1, cs, consume_key(), every_consume(), consume_conflict(pid));
    }
    Ok(())
}

/// Expands the root view of a declaration, collecting generic requirements
/// and consumes.
pub fn expand_root(declaration: &CapabilityDeclaration) -> (r: Result<
    CapabilityProfileExpansion,
    CapabilityProfileExpansionError,
>)
    ensures
        expansion_result(r) == root_expansion(declaration@),
        r matches Ok(x) ==> keys_ascending(x@.requirements, requirement_key()) && keys_ascending(x@.consumes, consume_key()),
{
    match declaration.validate() {
        Err(e) => Err(CapabilityProfileExpansionError::Validation(e)),
        Ok(()) => expand_generic(declaration, None),
    }
}

/// Index of the first profile whose id is `id`, if any.
fn profile_index(profiles: &Vec<CapabilityProfile>, id: &str) -> (r: Option<usize>)
    ensures
        match r {
            Some(i) => i < profiles.len() && find_profile(profiles@.map_values(|p: CapabilityProfile| p@), id@, 0) == Some(profiles@[i as int]@),
            None => find_profile(profiles@.map_values(|p: CapabilityProfile| p@), id@, 0) is None,
        },
{
    let ghost ps = profiles@.map_values(|p: CapabilityProfile| p@);
    let mut i: usize = 0;
    while i < profiles.len()
        invariant
            i <= profiles.len(),
            ps == profiles@.map_values(|p: CapabilityProfile| p@),
            find_profile(ps, id@, 0) == find_profile(ps, id@, i as int),
        decreases profiles.len() - i,
    {
        if str_equal(profiles[i].id.as_str(), id) {
            return Some(i);
        }
        i = i + 1;
    }
    None
}

/// Expands a named profile within a declaration.
pub fn expand_profile(declaration: &CapabilityDeclaration, profile_id: &str) -> (r: Result<
    CapabilityProfileExpansion,
    CapabilityProfileExpansionError,
>)
    ensures
        expansion_result(r) == profile_expansion(declaration@, profile_id@),
        r matches Ok(x) ==> keys_ascending(x@.requirements, requirement_key()) && keys_ascending(x@.consumes, consume_key()),
{
    if let Err(e) = declaration.validate() {
        return Err(CapabilityProfileExpansionError::Validation(e));
    }
    let index = profile_index(&declaration.profiles, profile_id);
    match index {
        None => Err(CapabilityProfileExpansionError::UnknownProfile { profile_id: profile_id.to_owned() }),
        Some(k) => {
            let profile = &declaration.profiles[k];
            let mut expansion = expand_generic(declaration, Some(profile_id))?;
            let ghost maps = match generic_maps(declaration@, Some(profile_id@)) {
                Ok(maps) => maps,
                Err(_) => (Map::empty(), Map::empty()),
            };
            let ghost before = expansion@;
            let merged = merge_profile_items(&mut expansion, profile, Ghost(maps));
            match merged {
                Err(e) => Err(e),
                Ok(()) => {
                    proof {
                        let m2 = profile_merge(maps, profile@);
                        let merged_maps = match m2 {
                            Ok(mm) => mm,
                            Err(_) => maps,
                        };
                        lemma_listing(expansion@.requirements, requirement_key(), merged_maps.0);
                        lemma_listing(expansion@.consumes, consume_key(), merged_maps.1);
                    }
                    Ok(expansion)
                },
            }
        },
    }
}

/// A failed profile stops the fold for good.
proof fn lemma_profiles_fold_err(d: DeclarationView, ps: Seq<ProfileView>, k: int)
    requires
        0 <= k <= ps.len(),
        profiles_fold(d, ps.take(k)) is Err,
    ensures
        profiles_fold(d, ps) == profiles_fold(d, ps.take(k)),
    decreases ps.len() - k,
{
    if k == ps.len() {
        assert(ps.take(k) =~= ps);
    } else {
        assert(ps.drop_last().take(k) =~= ps.take(k));
        lemma_profiles_fold_err(d, ps.drop_last(), k);
    }
}

/// The key text of an expansion: its profile id, or empty for the root view.
fn expansion_id(x: &CapabilityProfileExpansion) -> (r: &str)
    ensures
        r@ == expansion_key()(x@),
{
    match &x.profile_id {
        Some(s) => s.as_str(),
        None => {
            proof {
                reveal_strlit("");
            }
            assert(""@ =~= Seq::<char>::empty());
            ""
        },
    }
}

/// First position whose expansion key is not below `id`.
fn expansion_position(items: &Vec<CapabilityProfileExpansion>, id: &str) -> (p: usize)
    ensures
        p <= items.len(),
        forall|i: int| 0 <= i < p ==> lex_lt(#[trigger] expansion_key()(items@[i]@), id@),
        p < items.len() ==> !lex_lt(expansion_key()(items@[p as int]@), id@),
{
    let mut p: usize = 0;
    while p < items.len()
        invariant
            p <= items.len(),
            forall|i: int| 0 <= i < p ==> lex_lt(#[trigger] expansion_key()(items@[i]@), id@),
        decreases items.len() - p,
    {
        if !str_less(expansion_id(&items[p]), id) {
            return p;
        }
        p = p + 1;
    }
    p
}

/// Puts `x` into the key-ordered `items` listing `m`, replacing an entry
/// with the same key.
fn upsert_expansion(
    items: &mut Vec<CapabilityProfileExpansion>,
    x: CapabilityProfileExpansion,
    Ghost(m): Ghost<Map<Seq<char>, ExpansionView>>,
)
    requires
        lists(old(items)@.map_values(|e: CapabilityProfileExpansion| e@), expansion_key(), m),
    ensures
        lists(final(items)@.map_values(|e: CapabilityProfileExpansion| e@), expansion_key(), m.insert(expansion_key()(x@), x@)),
{
    let ghost t = items@.map_values(|e: CapabilityProfileExpansion| e@);
    let ghost key = expansion_key();
    let ghost xv = x@;
    let p = expansion_position(items, expansion_id(&x));
    assert forall|i: int| 0 <= i < p implies lex_lt(#[trigger] key(t[i]), key(xv)) by {
        assert(lex_lt(expansion_key()(items@[i]@), key(xv)));
    }
    proof {
        if p < items.len() {
            assert(key(t[p as int]) == expansion_key()(items@[p as int]@));
        }
        lemma_lists_position(t, key, m, p as int, key(xv));
    }
    if p < items.len() && str_equal(expansion_id(&items[p]), expansion_id(&x)) {
        items.set(p, x);
        proof {
            lemma_lists_replace(t, key, m, p as int, xv);
            assert(items@.map_values(|e: CapabilityProfileExpansion| e@) =~= t.update(p as int, xv));
        }
    } else {
        items.insert(p, x);
        proof {
            lemma_lists_insert(t, key, m, p as int, xv);
            assert(items@.map_values(|e: CapabilityProfileExpansion| e@) =~= t.insert(p as int, xv));
        }
    }
}

/// Expands every named profile in a declaration; the expansions come in
/// ascending profile id order, one per profile id.
pub fn expand_profiles(declaration: &CapabilityDeclaration) -> (r: Result<
    Vec<CapabilityProfileExpansion>,
    CapabilityProfileExpansionError,
>)
    ensures
        expansions_result(r) == all_expansions(declaration@),
{
    if let Err(e) = declaration.validate() {
        return Err(CapabilityProfileExpansionError::Validation(e));
    }
    let ghost d = declaration@;
    let ghost ps = declaration@.profiles;
    let mut out: Vec<CapabilityProfileExpansion> = Vec::new();
    let ghost mut m: Map<Seq<char>, ExpansionView> = Map::empty();
    proof {
        lemma_lists_empty(expansion_key());
        assert(out@.map_values(|e: CapabilityProfileExpansion| e@) =~= Seq::<ExpansionView>::empty());
        assert(ps.take(0) =~= Seq::<ProfileView>::empty());
    }
    let mut i: usize = 0;
    while i < declaration.profiles.len()
        invariant
            i <= declaration.profiles.len(),
            d == declaration@,
            ps == declaration@.profiles,
            declaration_check(d) is None,
            profiles_fold(d, ps.take(i as int)) == Ok::<Map<Seq<char>, ExpansionView>, ExpansionErrorView>(m),
            lists(out@.map_values(|e: CapabilityProfileExpansion| e@), expansion_key(), m),
        decreases declaration.profiles.len() - i,
    {
        let profile = &declaration.profiles[i];
        proof {
            assert(ps.take(i + 1).drop_last() =~= ps.take(i as int));
            assert(ps.take(i + 1).last() == ps[i as int]);
            assert(ps[i as int] == profile@);
        }
        match expand_profile(declaration, profile.id.as_str()) {
            Err(e) => {
                proof {
                    lemma_profiles_fold_err(d, ps, i + 1);
                }
                return Err(e);
            },
            Ok(x) => {
                assert(expansion_key()(x@) == profile@.id);
                upsert_expansion(&mut out, x, Ghost(m));
                proof {
                    m = m.insert(profile@.id, x@);
                }
            },
        }
        i = i + 1;
    }
    proof {
        assert(ps.take(ps.len() as int) =~= ps);
        lemma_listing(out@.map_values(|e: CapabilityProfileExpansion| e@), expansion_key(), m);
    }
    Ok(out)
}

} // verus!
