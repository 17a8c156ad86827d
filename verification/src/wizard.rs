//! The wizard's question assembly: which question blocks a worker template,
//! its catalog entry and a provider catalog put before the user, and how
//! those blocks are scoped per agent in a multi-agent application.

use vstd::prelude::*;

use crate::cap_types::{
    capability_id_check, clone_opt_string, declaration_check, opt_string_view, strings_contain, strings_view, CapabilityDeclaration,
    CapabilityId,
};
use crate::cli::{
    agent_numeric_answer_prefix, agent_numeric_suffix, agent_suffix, capability_slug, parse_provider_override,
    provider_override, slug_of, CliError,
};
use crate::manifest::{
    default_manifest_schema_version, manifest_check, DigitalWorkerManifest, LocaleContract, LocalePropagation,
    ManifestErrorView, OutputLocaleGuidance, TeamPolicy, TenancyContract, WorkerLocalePolicy, MANIFEST_SCHEMA_VERSION,
};
use crate::delegation::{eq_ignore_ascii, str_eq_ignore_ascii_case};
use crate::text::{decimal, digit_char, has_prefix, is_blank, is_ws, str_equal, str_is_blank, str_starts_with, str_trim, trimmed, u64_to_decimal};

verus! {

// ---------------------------------------------------------------------------
// Templates and provider catalogs, as far as the wizard reads them
// ---------------------------------------------------------------------------

/// A question block a template declares.
#[derive(Debug, PartialEq, Eq)]
pub struct TemplateQuestionBlock {
    pub block_id: String,
    pub answer_key: Option<String>,
    pub prompt: Option<String>,
    pub required: bool,
    /// Where the block comes from, when the template says.
    pub source: Option<String>,
    pub summary: Option<String>,
}

/// The default provider a template names for a capability.
#[derive(Debug, PartialEq, Eq)]
pub struct DefaultProvider {
    pub capability: CapabilityId,
    pub provider_id: String,
}

/// A worker template: identity, behaviour blocks, questions, capability plan
/// and packaging hints.
#[derive(Debug, PartialEq, Eq)]
pub struct DigitalWorkerTemplate {
    pub id: String,
    pub name: String,
    pub supports_multi_agent_app_pack: bool,
    /// Block ids of the default (recommended) mode.
    pub default_block_ids: Vec<String>,
    /// Block ids of the personalised (review-all) mode.
    pub review_all_block_ids: Vec<String>,
    pub question_blocks: Vec<TemplateQuestionBlock>,
    pub required_capabilities: Vec<CapabilityId>,
    pub optional_capabilities: Vec<CapabilityId>,
    /// Default providers by capability, each capability at most once.
    pub default_provider_ids: Vec<DefaultProvider>,
    pub support_pack_refs: Vec<String>,
    pub bundle_notes: Vec<String>,
    /// Default answers by key, in ascending key order.
    pub defaults: Vec<AnswerEntry>,
}

/// The catalog entry a template was selected from.
#[derive(Debug, PartialEq, Eq)]
pub struct TemplateCatalogEntry {
    pub source_ref: String,
}

/// A follow-up question block a provider declares.
#[derive(Debug, PartialEq, Eq)]
pub struct ProviderQuestionBlock {
    pub block_id: String,
    pub answer_key: Option<String>,
    pub prompt: Option<String>,
    pub setup_schema_ref: Option<String>,
}

/// A provider of the catalog.
#[derive(Debug, PartialEq, Eq)]
pub struct DwProviderCatalogEntry {
    pub provider_id: String,
    pub display_name: String,
    /// Capabilities the provider implements.
    pub capability_contract_ids: Vec<CapabilityId>,
    /// Templates the provider works with; empty means every template.
    pub template_compatibility: Vec<String>,
    /// Templates the provider is recommended for.
    pub recommended_for_templates: Vec<String>,
    pub is_default_choice: bool,
    pub is_recommended_choice: bool,
    pub required_question_block_ids: Vec<String>,
    pub question_blocks: Vec<ProviderQuestionBlock>,
    pub required_setup_schema_refs: Vec<String>,
}

/// The providers the wizard may recommend.
#[derive(Debug, PartialEq, Eq)]
pub struct DwProviderCatalog {
    pub entries: Vec<DwProviderCatalogEntry>,
}

pub open spec fn caps_view(v: Seq<CapabilityId>) -> Seq<Seq<char>> {
    v.map_values(|c: CapabilityId| c@)
}

pub struct TemplateBlockView {
    pub block_id: Seq<char>,
    pub answer_key: Option<Seq<char>>,
    pub prompt: Option<Seq<char>>,
    pub required: bool,
    pub source: Option<Seq<char>>,
    pub summary: Option<Seq<char>>,
}

impl View for TemplateQuestionBlock {
    type V = TemplateBlockView;

    open spec fn view(&self) -> TemplateBlockView {
        TemplateBlockView {
            block_id: self.block_id@,
            answer_key: opt_string_view(self.answer_key),
            prompt: opt_string_view(self.prompt),
            required: self.required,
            source: opt_string_view(self.source),
            summary: opt_string_view(self.summary),
        }
    }
}

pub struct TemplateView {
    pub id: Seq<char>,
    pub name: Seq<char>,
    pub supports_multi_agent_app_pack: bool,
    pub default_block_ids: Seq<Seq<char>>,
    pub review_all_block_ids: Seq<Seq<char>>,
    pub question_blocks: Seq<TemplateBlockView>,
    pub required_capabilities: Seq<Seq<char>>,
    pub optional_capabilities: Seq<Seq<char>>,
    pub default_provider_ids: Seq<(Seq<char>, Seq<char>)>,
    pub support_pack_refs: Seq<Seq<char>>,
    pub bundle_notes: Seq<Seq<char>>,
    pub defaults: Seq<(Seq<char>, ValueView)>,
}

impl View for DigitalWorkerTemplate {
    type V = TemplateView;

    open spec fn view(&self) -> TemplateView {
        TemplateView {
            id: self.id@,
            name: self.name@,
            supports_multi_agent_app_pack: self.supports_multi_agent_app_pack,
            default_block_ids: strings_view(self.default_block_ids@),
            review_all_block_ids: strings_view(self.review_all_block_ids@),
            question_blocks: self.question_blocks@.map_values(|b: TemplateQuestionBlock| b@),
            required_capabilities: caps_view(self.required_capabilities@),
            optional_capabilities: caps_view(self.optional_capabilities@),
            default_provider_ids: self.default_provider_ids@.map_values(
                |d: DefaultProvider| (d.capability@, d.provider_id@),
            ),
            support_pack_refs: strings_view(self.support_pack_refs@),
            bundle_notes: strings_view(self.bundle_notes@),
            defaults: answers_view(self.defaults@),
        }
    }
}

pub struct ProviderBlockView {
    pub block_id: Seq<char>,
    pub answer_key: Option<Seq<char>>,
    pub prompt: Option<Seq<char>>,
    pub setup_schema_ref: Option<Seq<char>>,
}

impl View for ProviderQuestionBlock {
    type V = ProviderBlockView;

    open spec fn view(&self) -> ProviderBlockView {
        ProviderBlockView {
            block_id: self.block_id@,
            answer_key: opt_string_view(self.answer_key),
            prompt: opt_string_view(self.prompt),
            setup_schema_ref: opt_string_view(self.setup_schema_ref),
        }
    }
}

pub struct EntryView {
    pub provider_id: Seq<char>,
    pub display_name: Seq<char>,
    pub capability_contract_ids: Seq<Seq<char>>,
    pub template_compatibility: Seq<Seq<char>>,
    pub recommended_for_templates: Seq<Seq<char>>,
    pub is_default_choice: bool,
    pub is_recommended_choice: bool,
    pub required_question_block_ids: Seq<Seq<char>>,
    pub question_blocks: Seq<ProviderBlockView>,
    pub required_setup_schema_refs: Seq<Seq<char>>,
}

impl View for DwProviderCatalogEntry {
    type V = EntryView;

    open spec fn view(&self) -> EntryView {
        EntryView {
            provider_id: self.provider_id@,
            display_name: self.display_name@,
            capability_contract_ids: caps_view(self.capability_contract_ids@),
            template_compatibility: strings_view(self.template_compatibility@),
            recommended_for_templates: strings_view(self.recommended_for_templates@),
            is_default_choice: self.is_default_choice,
            is_recommended_choice: self.is_recommended_choice,
            required_question_block_ids: strings_view(self.required_question_block_ids@),
            question_blocks: self.question_blocks@.map_values(|b: ProviderQuestionBlock| b@),
            required_setup_schema_refs: strings_view(self.required_setup_schema_refs@),
        }
    }
}

pub open spec fn entries_view(v: Seq<DwProviderCatalogEntry>) -> Seq<EntryView> {
    v.map_values(|e: DwProviderCatalogEntry| e@)
}

// ---------------------------------------------------------------------------
// Question blocks
// ---------------------------------------------------------------------------

/// Who asks a question.
#[derive(Debug, PartialEq, Eq)]
pub enum QuestionSource {
    DwCore,
    Template { template_id: String },
    Provider { provider_id: String },
    Composition,
    Packaging,
}

/// Whom a question is about.
#[derive(Debug, PartialEq, Eq)]
pub enum QuestionScope {
    Application,
    Agent { agent_id: Option<String> },
    Provider { provider_id: Option<String>, agent_id: Option<String> },
    SharedComposition,
}

/// When a question is asked.
#[derive(Clone, Copy, Debug, PartialEq, Eq, Structural)]
pub enum QuestionPhase {
    Design,
    Setup,
}

/// How prominently a question is shown.
#[derive(Clone, Copy, Debug, PartialEq, Eq, Structural)]
pub enum QuestionVisibility {
    Required,
    Optional,
    ReviewAll,
    HiddenUnlessNeeded,
}

/// One block of wizard questions.
#[derive(Debug, PartialEq, Eq)]
pub struct DwWizardQuestionBlock {
    pub block_id: String,
    pub source: QuestionSource,
    pub owner: String,
    pub path: String,
    pub answer_key: Option<String>,
    pub prompt: Option<String>,
    pub scope: QuestionScope,
    pub phase: QuestionPhase,
    pub visibility: QuestionVisibility,
    pub source_ref: Option<String>,
    pub summary: Option<String>,
}

/// The question blocks of a wizard run, in the order they are asked.
#[derive(Debug, PartialEq, Eq)]
pub struct DwWizardQuestionAssembly {
    pub blocks: Vec<DwWizardQuestionBlock>,
}

pub enum SourceView {
    DwCore,
    Template { template_id: Seq<char> },
    Provider { provider_id: Seq<char> },
    Composition,
    Packaging,
}

impl View for QuestionSource {
    type V = SourceView;

    open spec fn view(&self) -> SourceView {
        match self {
            QuestionSource::DwCore => SourceView::DwCore,
            QuestionSource::Template { template_id } => SourceView::Template { template_id: template_id@ },
            QuestionSource::Provider { provider_id } => SourceView::Provider { provider_id: provider_id@ },
            QuestionSource::Composition => SourceView::Composition,
            QuestionSource::Packaging => SourceView::Packaging,
        }
    }
}

pub enum ScopeView {
    Application,
    Agent { agent_id: Option<Seq<char>> },
    Provider { provider_id: Option<Seq<char>>, agent_id: Option<Seq<char>> },
    SharedComposition,
}

impl View for QuestionScope {
    type V = ScopeView;

    open spec fn view(&self) -> ScopeView {
        match self {
            QuestionScope::Application => ScopeView::Application,
            QuestionScope::Agent { agent_id } => ScopeView::Agent { agent_id: opt_string_view(*agent_id) },
            QuestionScope::Provider { provider_id, agent_id } => ScopeView::Provider {
                provider_id: opt_string_view(*provider_id),
                agent_id: opt_string_view(*agent_id),
            },
            QuestionScope::SharedComposition => ScopeView::SharedComposition,
        }
    }
}

pub struct BlockView {
    pub block_id: Seq<char>,
    pub source: SourceView,
    pub owner: Seq<char>,
    pub path: Seq<char>,
    pub answer_key: Option<Seq<char>>,
    pub prompt: Option<Seq<char>>,
    pub scope: ScopeView,
    pub phase: QuestionPhase,
    pub visibility: QuestionVisibility,
    pub source_ref: Option<Seq<char>>,
    pub summary: Option<Seq<char>>,
}

impl View for DwWizardQuestionBlock {
    type V = BlockView;

    open spec fn view(&self) -> BlockView {
        BlockView {
            block_id: self.block_id@,
            source: self.source@,
            owner: self.owner@,
            path: self.path@,
            answer_key: opt_string_view(self.answer_key),
            prompt: opt_string_view(self.prompt),
            scope: self.scope@,
            phase: self.phase,
            visibility: self.visibility,
            source_ref: opt_string_view(self.source_ref),
            summary: opt_string_view(self.summary),
        }
    }
}

pub open spec fn blocks_view(v: Seq<DwWizardQuestionBlock>) -> Seq<BlockView> {
    v.map_values(|b: DwWizardQuestionBlock| b@)
}

// ---------------------------------------------------------------------------
// Visibility of template blocks
// ---------------------------------------------------------------------------

pub open spec fn template_visibility(
    block_id: Seq<char>,
    required: bool,
    default_ids: Seq<Seq<char>>,
    review_ids: Seq<Seq<char>>,
) -> QuestionVisibility {
    if required || default_ids.contains(block_id) {
        QuestionVisibility::Required
    } else if review_ids.contains(block_id) {
        QuestionVisibility::ReviewAll
    } else {
        QuestionVisibility::Optional
    }
}

/// A template block is required when the template says so or the default
/// mode lists it, shown on review when the personalised mode lists it, and
/// optional otherwise.
pub fn template_block_visibility(
    block_id: &str,
    required: bool,
    default_block_ids: &Vec<String>,
    review_all_block_ids: &Vec<String>,
) -> (r: QuestionVisibility)
    ensures
        r == template_visibility(block_id@, required, strings_view(default_block_ids@), strings_view(review_all_block_ids@)),
{
    if required || strings_contain(default_block_ids, block_id) {
        QuestionVisibility::Required
    } else if strings_contain(review_all_block_ids, block_id) {
        QuestionVisibility::ReviewAll
    } else {
        QuestionVisibility::Optional
    }
}

// ---------------------------------------------------------------------------
// Choosing a provider for a capability
// ---------------------------------------------------------------------------

/// The provider the template names for `cap`, if any (the first entry for it).
pub open spec fn default_provider(ds: Seq<(Seq<char>, Seq<char>)>, cap: Seq<char>, i: int) -> Option<Seq<char>>
    decreases ds.len() - i,
{
    if i < 0 || i >= ds.len() {
        None
    } else if ds[i].0 == cap {
        Some(ds[i].1)
    } else {
        default_provider(ds, cap, i + 1)
    }
}

/// The index of the first catalog entry with the provider id, if any.
pub open spec fn find_provider(es: Seq<EntryView>, pid: Seq<char>, i: int) -> Option<int>
    decreases es.len() - i,
{
    if i < 0 || i >= es.len() {
        None
    } else if es[i].provider_id == pid {
        Some(i)
    } else {
        find_provider(es, pid, i + 1)
    }
}

/// A catalog entry that implements `cap` and works with the template.
pub open spec fn entry_eligible(e: EntryView, template_id: Seq<char>, cap: Seq<char>) -> bool {
    e.capability_contract_ids.contains(cap) && (e.template_compatibility.len() == 0 || e.template_compatibility.contains(
        template_id,
    ))
}

/// The preference of an entry: recommended for the template first, then a
/// default choice, then a recommended choice.
pub open spec fn entry_rank(e: EntryView, template_id: Seq<char>) -> int {
    (if e.recommended_for_templates.contains(template_id) {
        4int
    } else {
        0int
    }) + (if e.is_default_choice {
        2int
    } else {
        0int
    }) + (if e.is_recommended_choice {
        1int
    } else {
        0int
    })
}

/// The eligible entry of highest preference; among equals the last one.
pub open spec fn best_entry(es: Seq<EntryView>, template_id: Seq<char>, cap: Seq<char>) -> Option<int>
    decreases es.len(),
{
    if es.len() == 0 {
        None
    } else {
        let prev = best_entry(es.drop_last(), template_id, cap);
        let i = es.len() - 1;
        if entry_eligible(es[i], template_id, cap) && (prev is None || entry_rank(es[i], template_id) >= entry_rank(
            es[prev->0],
            template_id,
        )) {
            Some(i)
        } else {
            prev
        }
    }
}

/// The provider chosen for `cap`: the template's default provider when the
/// catalog has it, else the most preferred eligible entry.
pub open spec fn selected_provider(t: TemplateView, es: Seq<EntryView>, cap: Seq<char>) -> Option<int> {
    match default_provider(t.default_provider_ids, cap, 0) {
        Some(pid) => match find_provider(es, pid, 0) {
            Some(i) => Some(i),
            None => best_entry(es, t.id, cap),
        },
        None => best_entry(es, t.id, cap),
    }
}

proof fn lemma_best_entry(es: Seq<EntryView>, template_id: Seq<char>, cap: Seq<char>)
    ensures
        best_entry(es, template_id, cap) is None <==> forall|i: int| 0 <= i < es.len() ==> !entry_eligible(
            #[trigger] es[i],
            template_id,
            cap,
        ),
        best_entry(es, template_id, cap) matches Some(b) ==> {
            &&& 0 <= b < es.len()
            &&& entry_eligible(es[b], template_id, cap)
            &&& forall|i: int| 0 <= i < es.len() && entry_eligible(#[trigger] es[i], template_id, cap) ==> entry_rank(
                es[i],
                template_id,
            ) <= entry_rank(es[b], template_id) && (b < i ==> entry_rank(es[i], template_id) < entry_rank(
                es[b],
                template_id,
            ))
        },
    decreases es.len(),
{
    if es.len() > 0 {
        let p = es.drop_last();
        lemma_best_entry(p, template_id, cap);
        assert forall|i: int| 0 <= i < p.len() implies #[trigger] p[i] == es[i] by {}
        if best_entry(es, template_id, cap) is None {
            assert forall|i: int| 0 <= i < es.len() implies !entry_eligible(#[trigger] es[i], template_id, cap) by {
                if i < p.len() {
                    assert(p[i] == es[i]);
                }
            }
        }
        let n = es.len() - 1;
        if let Some(b) = best_entry(es, template_id, cap) {
            assert forall|i: int| 0 <= i < es.len() && entry_eligible(#[trigger] es[i], template_id, cap) implies entry_rank(
                es[i],
                template_id,
            ) <= entry_rank(es[b], template_id) && (b < i ==> entry_rank(es[i], template_id) < entry_rank(
                es[b],
                template_id,
            )) by {
                if i < n {
                    assert(p[i] == es[i]);
                    assert(entry_eligible(p[i], template_id, cap));
                    if b == n {
                        let pb = best_entry(p, template_id, cap)->0;
                        assert(p[pb] == es[pb]);
                    } else {
                        assert(p[b] == es[b]);
                    }
                } else if b < n {
                    assert(p[b] == es[b]);
                }
            }
        }
    }
}

/// The preference among catalog entries is lexicographic on (recommended for
/// the template, default choice, recommended choice). Where the template
/// names no provider for `cap` that the catalog lists, an entry is chosen
/// exactly when one is eligible; the chosen entry is eligible, and no eligible
/// entry beats it: one recommended for the template is never passed over for
/// one that is not, a default choice never for a non-default entry with the
/// same template recommendation, and a recommended choice never for one that
/// is not and ties with it on the other two. An eligible entry after the
/// chosen one is strictly behind it.
pub proof fn law_provider_preference(t: TemplateView, es: Seq<EntryView>, cap: Seq<char>)
    requires
        match default_provider(t.default_provider_ids, cap, 0) {
            Some(p) => find_provider(es, p, 0) is None,
            None => true,
        },
    ensures
        selected_provider(t, es, cap) is None <==> forall|i: int| 0 <= i < es.len() ==> !entry_eligible(
            #[trigger] es[i],
            t.id,
            cap,
        ),
        selected_provider(t, es, cap) matches Some(b) ==> {
            let c = es[b];
            &&& 0 <= b < es.len()
            &&& entry_eligible(c, t.id, cap)
            &&& forall|i: int| 0 <= i < es.len() && entry_eligible(#[trigger] es[i], t.id, cap) ==> {
                let e = es[i];
                let er = e.recommended_for_templates.contains(t.id);
                let cr = c.recommended_for_templates.contains(t.id);
                &&& (er ==> cr)
                &&& (er == cr && e.is_default_choice ==> c.is_default_choice)
                &&& (er == cr && e.is_default_choice == c.is_default_choice && e.is_recommended_choice
                    ==> c.is_recommended_choice)
                &&& (b < i ==> !(er == cr && e.is_default_choice == c.is_default_choice && e.is_recommended_choice
                    == c.is_recommended_choice))
            }
        },
{
    lemma_best_entry(es, t.id, cap);
    assert(selected_provider(t, es, cap) == best_entry(es, t.id, cap));
}

fn caps_contain(v: &Vec<CapabilityId>, cap: &str) -> (r: bool)
    ensures
        r == caps_view(v@).contains(cap@),
{
    let mut i: usize = 0;
    while i < v.len()
        invariant
            i <= v.len(),
            forall|k: int| 0 <= k < i ==> v@[k]@ != cap@,
        decreases v.len() - i,
    {
        if str_equal(v[i].as_str(), cap) {
            assert(caps_view(v@)[i as int] == cap@);
            return true;
        }
        i = i + 1;
    }
    proof {
        if caps_view(v@).contains(cap@) {
            let k = choose|k: int| 0 <= k < caps_view(v@).len() && caps_view(v@)[k] == cap@;
            assert(v@[k]@ == cap@);
        }
    }
    false
}

fn default_provider_for<'a>(ds: &'a Vec<DefaultProvider>, cap: &str) -> (r: Option<&'a String>)
    ensures
        match r {
            Some(p) => default_provider(
                ds@.map_values(|d: DefaultProvider| (d.capability@, d.provider_id@)),
                cap@,
                0,
            ) == Some(p@),
            None => default_provider(ds@.map_values(|d: DefaultProvider| (d.capability@, d.provider_id@)), cap@, 0) is None,
        },
{
    let ghost v = ds@.map_values(|d: DefaultProvider| (d.capability@, d.provider_id@));
    let mut i: usize = 0;
    while i < ds.len()
        invariant
            i <= ds.len(),
            v == ds@.map_values(|d: DefaultProvider| (d.capability@, d.provider_id@)),
            default_provider(v, cap@, 0) == default_provider(v, cap@, i as int),
        decreases ds.len() - i,
    {
        if str_equal(ds[i].capability.as_str(), cap) {
            return Some(&ds[i].provider_id);
        }
        i = i + 1;
    }
    None
}

fn find_provider_index(es: &Vec<DwProviderCatalogEntry>, pid: &str) -> (r: Option<usize>)
    ensures
        match r {
            Some(i) => find_provider(entries_view(es@), pid@, 0) == Some(i as int) && i < es.len(),
            None => find_provider(entries_view(es@), pid@, 0) is None,
        },
{
    let ghost v = entries_view(es@);
    let mut i: usize = 0;
    while i < es.len()
        invariant
            i <= es.len(),
            v == entries_view(es@),
            find_provider(v, pid@, 0) == find_provider(v, pid@, i as int),
        decreases es.len() - i,
    {
        if str_equal(es[i].provider_id.as_str(), pid) {
            return Some(i);
        }
        i = i + 1;
    }
    None
}

fn entry_rank_exec(e: &DwProviderCatalogEntry, template_id: &str) -> (r: u8)
    ensures
        r == entry_rank(e@, template_id@),
{
    let a: u8 = if strings_contain(&e.recommended_for_templates, template_id) {
        4
    } else {
        0
    };
    let b: u8 = if e.is_default_choice {
        2
    } else {
        0
    };
    let c: u8 = if e.is_recommended_choice {
        1
    } else {
        0
    };
    a + b + c
}

fn best_entry_index(es: &Vec<DwProviderCatalogEntry>, template_id: &str, cap: &str) -> (r: Option<usize>)
    ensures
        match r {
            Some(i) => best_entry(entries_view(es@), template_id@, cap@) == Some(i as int) && i < es.len(),
            None => best_entry(entries_view(es@), template_id@, cap@) is None,
        },
{
    let ghost v = entries_view(es@);
    let mut best: Option<usize> = None;
    let mut best_rank: u8 = 0;
    let mut i: usize = 0;
    proof {
        assert(v.take(0) =~= Seq::<EntryView>::empty());
    }
    while i < es.len()
        invariant
            i <= es.len(),
            v == entries_view(es@),
            match best {
                Some(b) => best_entry(v.take(i as int), template_id@, cap@) == Some(b as int) && b < i && best_rank
                    == entry_rank(v[b as int], template_id@),
                None => best_entry(v.take(i as int), template_id@, cap@) is None,
            },
        decreases es.len() - i,
    {
        let e = &es[i];
        proof {
            assert(v.take(i + 1).drop_last() =~= v.take(i as int));
            assert(v.take(i + 1)[i as int] == e@);
            if let Some(b) = best {
                assert(v.take(i + 1)[b as int] == v[b as int]);
            }
        }
        let eligible = caps_contain(&e.capability_contract_ids, cap) && (e.template_compatibility.len() == 0
            || strings_contain(&e.template_compatibility, template_id));
        if eligible {
            let rank = entry_rank_exec(e, template_id);
            let better = match best {
                None => true,
                Some(_) => rank >= best_rank,
            };
            if better {
                best = Some(i);
                best_rank = rank;
            }
        }
        i = i + 1;
    }
    proof {
        assert(v.take(i as int) =~= v);
    }
    best
}

/// The catalog entry chosen for a capability: the template's default
/// provider when the catalog lists it, else the eligible entry that is best
/// by (recommended for the template, default choice, recommended choice),
/// the last of equals.
pub fn select_provider_for_capability(
    template: &DigitalWorkerTemplate,
    provider_catalog: &DwProviderCatalog,
    capability_id: &CapabilityId,
) -> (r: Option<usize>)
    ensures
        match r {
            Some(i) => selected_provider(template@, entries_view(provider_catalog.entries@), capability_id@) == Some(
                i as int,
            ) && i < provider_catalog.entries.len(),
            None => selected_provider(template@, entries_view(provider_catalog.entries@), capability_id@) is None,
        },
{
    let cap = capability_id.as_str();
    if let Some(pid) = default_provider_for(&template.default_provider_ids, cap) {
        if let Some(i) = find_provider_index(&provider_catalog.entries, pid.as_str()) {
            return Some(i);
        }
    }
    best_entry_index(&provider_catalog.entries, template.id.as_str(), cap)
}


// ---------------------------------------------------------------------------
// The question assembly
// ---------------------------------------------------------------------------

/// The wizard's own blocks: the application identity, and the agent
/// topology (reviewed for templates that support several agents).
pub open spec fn core_blocks(t: TemplateView) -> Seq<BlockView> {
    seq![
        BlockView {
            block_id: "core.app.identity"@,
            source: SourceView::DwCore,
            owner: "core"@,
            path: "core.app.identity"@,
            answer_key: None,
            prompt: None,
            scope: ScopeView::Application,
            phase: QuestionPhase::Design,
            visibility: QuestionVisibility::Required,
            source_ref: None,
            summary: Some("Application identity and manifest questions"@),
        },
        BlockView {
            block_id: "core.agent.topology"@,
            source: SourceView::DwCore,
            owner: "core"@,
            path: "core.agent.topology"@,
            answer_key: Some("agent_count"@),
            prompt: Some("Enter agent count [1]: "@),
            scope: ScopeView::Application,
            phase: QuestionPhase::Design,
            visibility: if t.supports_multi_agent_app_pack {
                QuestionVisibility::ReviewAll
            } else {
                QuestionVisibility::Optional
            },
            source_ref: None,
            summary: Some("Choose one worker or a multi-agent application"@),
        },
    ]
}

/// The provider strategy block of a multi-agent template.
pub open spec fn composition_blocks(t: TemplateView) -> Seq<BlockView> {
    if t.supports_multi_agent_app_pack {
        seq![
            BlockView {
                block_id: "composition.shared.provider_strategy"@,
                source: SourceView::Composition,
                owner: "composition.shared"@,
                path: "composition.shared.provider_strategy"@,
                answer_key: Some("provider_strategy"@),
                prompt: Some("Use shared providers across agents? [Y/n]: "@),
                scope: ScopeView::SharedComposition,
                phase: QuestionPhase::Design,
                visibility: QuestionVisibility::ReviewAll,
                source_ref: None,
                summary: Some("Shared versus per-agent provider strategy"@),
            },
        ]
    } else {
        Seq::empty()
    }
}

/// The bundle planning block, asked when the template has packaging hints.
pub open spec fn packaging_blocks(t: TemplateView) -> Seq<BlockView> {
    if t.support_pack_refs.len() > 0 || t.bundle_notes.len() > 0 {
        seq![
            BlockView {
                block_id: "packaging.bundle_plan"@,
                source: SourceView::Packaging,
                owner: "packaging"@,
                path: "packaging.bundle_plan"@,
                answer_key: Some("bundle_plan_notes"@),
                prompt: Some("Enter bundle planning notes (optional): "@),
                scope: ScopeView::Application,
                phase: QuestionPhase::Design,
                visibility: QuestionVisibility::ReviewAll,
                source_ref: None,
                summary: Some("Packaging and bundle inclusion hints"@),
            },
        ]
    } else {
        Seq::empty()
    }
}

fn core_blocks_exec(template: &DigitalWorkerTemplate, out: &mut Vec<DwWizardQuestionBlock>)
    ensures
        blocks_view(final(out)@) == blocks_view(old(out)@) + core_blocks(template@),
{
    let ghost before = out@;
    out.push(
        DwWizardQuestionBlock {
            block_id: String::from_str("core.app.identity"),
            source: QuestionSource::DwCore,
            owner: String::from_str("core"),
            path: String::from_str("core.app.identity"),
            answer_key: None,
            prompt: None,
            scope: QuestionScope::Application,
            phase: QuestionPhase::Design,
            visibility: QuestionVisibility::Required,
            source_ref: None,
            summary: Some(String::from_str("Application identity and manifest questions")),
        },
    );
    let visibility = if template.supports_multi_agent_app_pack {
        QuestionVisibility::ReviewAll
    } else {
        QuestionVisibility::Optional
    };
    out.push(
        DwWizardQuestionBlock {
            block_id: String::from_str("core.agent.topology"),
            source: QuestionSource::DwCore,
            owner: String::from_str("core"),
            path: String::from_str("core.agent.topology"),
            answer_key: Some(String::from_str("agent_count")),
            prompt: Some(String::from_str("Enter agent count [1]: ")),
            scope: QuestionScope::Application,
            phase: QuestionPhase::Design,
            visibility,
            source_ref: None,
            summary: Some(String::from_str("Choose one worker or a multi-agent application")),
        },
    );
    assert(blocks_view(out@) =~= blocks_view(before) + core_blocks(template@));
}

fn closing_blocks_exec(template: &DigitalWorkerTemplate, out: &mut Vec<DwWizardQuestionBlock>)
    ensures
        blocks_view(final(out)@) == blocks_view(old(out)@) + composition_blocks(template@) + packaging_blocks(template@),
{
    let ghost before = out@;
    if template.supports_multi_agent_app_pack {
        out.push(
            DwWizardQuestionBlock {
                block_id: String::from_str("composition.shared.provider_strategy"),
                source: QuestionSource::Composition,
                owner: String::from_str("composition.shared"),
                path: String::from_str("composition.shared.provider_strategy"),
                answer_key: Some(String::from_str("provider_strategy")),
                prompt: Some(String::from_str("Use shared providers across agents? [Y/n]: ")),
                scope: QuestionScope::SharedComposition,
                phase: QuestionPhase::Design,
                visibility: QuestionVisibility::ReviewAll,
                source_ref: None,
                summary: Some(String::from_str("Shared versus per-agent provider strategy")),
            },
        );
    }
    let ghost middle = out@;
    assert(blocks_view(middle) =~= blocks_view(before) + composition_blocks(template@));
    if template.support_pack_refs.len() > 0 || template.bundle_notes.len() > 0 {
        out.push(
            DwWizardQuestionBlock {
                block_id: String::from_str("packaging.bundle_plan"),
                source: QuestionSource::Packaging,
                owner: String::from_str("packaging"),
                path: String::from_str("packaging.bundle_plan"),
                answer_key: Some(String::from_str("bundle_plan_notes")),
                prompt: Some(String::from_str("Enter bundle planning notes (optional): ")),
                scope: QuestionScope::Application,
                phase: QuestionPhase::Design,
                visibility: QuestionVisibility::ReviewAll,
                source_ref: None,
                summary: Some(String::from_str("Packaging and bundle inclusion hints")),
            },
        );
    }
    assert(blocks_view(out@) =~= blocks_view(middle) + packaging_blocks(template@));
}


/// The ids of `ids` that are not in `known` and not listed earlier, in order.
pub open spec fn fresh_ids(ids: Seq<Seq<char>>, known: Seq<Seq<char>>) -> Seq<Seq<char>>
    decreases ids.len(),
{
    if ids.len() == 0 {
        Seq::empty()
    } else {
        let prev = ids.drop_last();
        let x = ids.last();
        fresh_ids(prev, known) + if known.contains(x) || prev.contains(x) {
            Seq::<Seq<char>>::empty()
        } else {
            seq![x]
        }
    }
}

pub open spec fn template_owner(t: TemplateView) -> Seq<char> {
    "template."@ + t.id
}

pub open spec fn template_path(t: TemplateView, block_id: Seq<char>) -> Seq<char> {
    "template."@ + t.id + "."@ + block_id
}

/// A block the template declares; its source reference defaults to the
/// catalog entry's.
pub open spec fn declared_block(t: TemplateView, src: Option<Seq<char>>, b: TemplateBlockView) -> BlockView {
    BlockView {
        block_id: b.block_id,
        source: SourceView::Template { template_id: t.id },
        owner: template_owner(t),
        path: template_path(t, b.block_id),
        answer_key: b.answer_key,
        prompt: b.prompt,
        scope: ScopeView::Agent { agent_id: None },
        phase: QuestionPhase::Design,
        visibility: template_visibility(b.block_id, b.required, t.default_block_ids, t.review_all_block_ids),
        source_ref: if b.source is Some {
            b.source
        } else {
            src
        },
        summary: b.summary,
    }
}

/// A block a behaviour mode lists without the template declaring it.
pub open spec fn behavior_block(t: TemplateView, src: Option<Seq<char>>, id: Seq<char>) -> BlockView {
    BlockView {
        block_id: id,
        source: SourceView::Template { template_id: t.id },
        owner: template_owner(t),
        path: template_path(t, id),
        answer_key: None,
        prompt: None,
        scope: ScopeView::Agent { agent_id: None },
        phase: QuestionPhase::Design,
        visibility: template_visibility(id, false, t.default_block_ids, t.review_all_block_ids),
        source_ref: src,
        summary: Some("Template behavior block `"@ + id + "` for `"@ + t.name + "`"@),
    }
}

pub open spec fn declared_ids(t: TemplateView) -> Seq<Seq<char>> {
    t.question_blocks.map_values(|b: TemplateBlockView| b.block_id)
}

/// The template's blocks: the declared ones, then those the behaviour modes
/// list (default mode first) that are not declared, each once.
pub open spec fn template_blocks(t: TemplateView, src: Option<Seq<char>>) -> Seq<BlockView> {
    t.question_blocks.map_values(|b: TemplateBlockView| declared_block(t, src, b)) + fresh_ids(
        t.default_block_ids + t.review_all_block_ids,
        declared_ids(t),
    ).map_values(|id: Seq<char>| behavior_block(t, src, id))
}

fn template_owner_exec(template: &DigitalWorkerTemplate) -> (r: String)
    ensures
        r@ == template_owner(template@),
{
    let mut s = String::from_str("template.");
    s.append(template.id.as_str());
    s
}

fn template_path_exec(template: &DigitalWorkerTemplate, block_id: &str) -> (r: String)
    ensures
        r@ == template_path(template@, block_id@),
{
    let mut s = String::from_str("template.");
    s.append(template.id.as_str());
    s.append(".");
    s.append(block_id);
    s
}

fn concat_strings(a: &Vec<String>, b: &Vec<String>) -> (r: Vec<String>)
    ensures
        strings_view(r@) == strings_view(a@) + strings_view(b@),
{
    let mut out: Vec<String> = Vec::new();
    let mut i: usize = 0;
    while i < a.len()
        invariant
            i <= a.len(),
            strings_view(out@) == strings_view(a@).take(i as int),
        decreases a.len() - i,
    {
        let ghost before = out@;
        let c = a[i].clone();
        out.push(c);
        assert(strings_view(out@) =~= strings_view(before).push(a@[i as int]@));
        assert(strings_view(out@) =~= strings_view(a@).take(i + 1));
        i = i + 1;
    }
    let mut j: usize = 0;
    while j < b.len()
        invariant
            i == a.len(),
            j <= b.len(),
            strings_view(out@) == strings_view(a@) + strings_view(b@).take(j as int),
        decreases b.len() - j,
    {
        let ghost before = out@;
        let c = b[j].clone();
        out.push(c);
        assert(strings_view(out@) =~= strings_view(before).push(b@[j as int]@));
        assert(strings_view(out@) =~= strings_view(a@) + strings_view(b@).take(j + 1));
        j = j + 1;
    }
    assert(strings_view(b@).take(j as int) =~= strings_view(b@));
    out
}

/// The ids of `ids` not in `known` nor earlier in `ids`.
fn fresh_ids_exec(ids: &Vec<String>, known: Vec<String>) -> (r: Vec<String>)
    ensures
        strings_view(r@) == fresh_ids(strings_view(ids@), strings_view(known@)),
{
    let ghost v = strings_view(ids@);
    let ghost k = strings_view(known@);
    let mut seen = known;
    let mut out: Vec<String> = Vec::new();
    let mut i: usize = 0;
    proof {
        assert(v.take(0) =~= Seq::<Seq<char>>::empty());
        assert(strings_view(seen@) =~= k + v.take(0));
    }
    while i < ids.len()
        invariant
            i <= ids.len(),
            v == strings_view(ids@),
            strings_view(seen@) == k + v.take(i as int),
            strings_view(out@) == fresh_ids(v.take(i as int), k),
        decreases ids.len() - i,
    {
        let x = &ids[i];
        proof {
            assert(v.take(i + 1).drop_last() =~= v.take(i as int));
            assert(v.take(i + 1).last() == x@);
        }
        let present = strings_contain(&seen, x.as_str());
        proof {
            let sv = k + v.take(i as int);
            if sv.contains(x@) {
                let j = choose|j: int| 0 <= j < sv.len() && sv[j] == x@;
                if j < k.len() {
                    assert(k[j] == x@);
                } else {
                    assert(v.take(i as int)[j - k.len()] == x@);
                }
            }
            if k.contains(x@) {
                let j = choose|j: int| 0 <= j < k.len() && k[j] == x@;
                assert(sv[j] == x@);
            }
            if v.take(i as int).contains(x@) {
                let j = choose|j: int| 0 <= j < v.take(i as int).len() && v.take(i as int)[j] == x@;
                assert(sv[k.len() + j] == x@);
            }
        }
        let ghost before = out@;
        if !present {
            out.push(x.clone());
        }
        proof {
            if present {
                assert(strings_view(out@) =~= fresh_ids(v.take(i + 1), k));
            } else {
                assert(strings_view(out@) =~= strings_view(before).push(x@));
                assert(strings_view(out@) =~= fresh_ids(v.take(i + 1), k));
            }
        }
        let ghost seen_before = seen@;
        let c = x.clone();
        seen.push(c);
        assert(strings_view(seen@) =~= strings_view(seen_before).push(x@));
        assert(strings_view(seen@) =~= k + v.take(i + 1));
        i = i + 1;
    }
    proof {
        assert(v.take(i as int) =~= v);
    }
    out
}

fn declared_block_exec(
    template: &DigitalWorkerTemplate,
    template_source: &Option<String>,
    b: &TemplateQuestionBlock,
) -> (r: DwWizardQuestionBlock)
    ensures
        r@ == declared_block(template@, opt_string_view(*template_source), b@),
{
    let source_ref = match &b.source {
        Some(s) => Some(s.clone()),
        None => clone_opt_string(template_source),
    };
    DwWizardQuestionBlock {
        block_id: b.block_id.clone(),
        source: QuestionSource::Template { template_id: template.id.clone() },
        owner: template_owner_exec(template),
        path: template_path_exec(template, b.block_id.as_str()),
        answer_key: clone_opt_string(&b.answer_key),
        prompt: clone_opt_string(&b.prompt),
        scope: QuestionScope::Agent { agent_id: None },
        phase: QuestionPhase::Design,
        visibility: template_block_visibility(
            b.block_id.as_str(),
            b.required,
            &template.default_block_ids,
            &template.review_all_block_ids,
        ),
        source_ref,
        summary: clone_opt_string(&b.summary),
    }
}

fn behavior_block_exec(template: &DigitalWorkerTemplate, template_source: &Option<String>, id: &String) -> (r:
    DwWizardQuestionBlock)
    ensures
        r@ == behavior_block(template@, opt_string_view(*template_source), id@),
{
    let mut summary = String::from_str("Template behavior block `");
    summary.append(id.as_str());
    summary.append("` for `");
    summary.append(template.name.as_str());
    summary.append("`");
    DwWizardQuestionBlock {
        block_id: id.clone(),
        source: QuestionSource::Template { template_id: template.id.clone() },
        owner: template_owner_exec(template),
        path: template_path_exec(template, id.as_str()),
        answer_key: None,
        prompt: None,
        scope: QuestionScope::Agent { agent_id: None },
        phase: QuestionPhase::Design,
        visibility: template_block_visibility(
            id.as_str(),
            false,
            &template.default_block_ids,
            &template.review_all_block_ids,
        ),
        source_ref: clone_opt_string(template_source),
        summary: Some(summary),
    }
}

fn template_blocks_exec(
    template: &DigitalWorkerTemplate,
    template_source: &Option<String>,
    out: &mut Vec<DwWizardQuestionBlock>,
)
    ensures
        blocks_view(final(out)@) == blocks_view(old(out)@) + template_blocks(template@, opt_string_view(*template_source)),
{
    let ghost t = template@;
    let ghost src = opt_string_view(*template_source);
    let ghost start = blocks_view(out@);
    let ghost declared = t.question_blocks.map_values(|b: TemplateBlockView| declared_block(t, src, b));
    let mut known: Vec<String> = Vec::new();
    let mut i: usize = 0;
    while i < template.question_blocks.len()
        invariant
            i <= template.question_blocks.len(),
            t == template@,
            src == opt_string_view(*template_source),
            declared == t.question_blocks.map_values(|b: TemplateBlockView| declared_block(t, src, b)),
            blocks_view(out@) == start + declared.take(i as int),
            strings_view(known@) == declared_ids(t).take(i as int),
        decreases template.question_blocks.len() - i,
    {
        let b = &template.question_blocks[i];
        let block = declared_block_exec(template, template_source, b);
        let ghost before = out@;
        let ghost known_before = known@;
        out.push(block);
        let id = b.block_id.clone();
        known.push(id);
        proof {
            assert(strings_view(known@) =~= strings_view(known_before).push(b.block_id@));
            assert(t.question_blocks[i as int] == b@);
            assert(blocks_view(out@) =~= blocks_view(before).push(block@));
            assert(blocks_view(out@) =~= start + declared.take(i + 1));
            assert(strings_view(known@) =~= declared_ids(t).take(i + 1));
        }
        i = i + 1;
    }
    proof {
        assert(declared.take(i as int) =~= declared);
        assert(declared_ids(t).take(i as int) =~= declared_ids(t));
    }
    let ids = concat_strings(&template.default_block_ids, &template.review_all_block_ids);
    let fresh = fresh_ids_exec(&ids, known);
    let ghost fv = strings_view(fresh@);
    let ghost mid = blocks_view(out@);
    let ghost extra = fv.map_values(|id: Seq<char>| behavior_block(t, src, id));
    let mut j: usize = 0;
    while j < fresh.len()
        invariant
            j <= fresh.len(),
            t == template@,
            src == opt_string_view(*template_source),
            fv == strings_view(fresh@),
            extra == fv.map_values(|id: Seq<char>| behavior_block(t, src, id)),
            blocks_view(out@) == mid + extra.take(j as int),
        decreases fresh.len() - j,
    {
        let block = behavior_block_exec(template, template_source, &fresh[j]);
        let ghost before = out@;
        out.push(block);
        proof {
            assert(blocks_view(out@) =~= blocks_view(before).push(block@));
            assert(blocks_view(out@) =~= mid + extra.take(j + 1));
        }
        j = j + 1;
    }
    proof {
        assert(extra.take(j as int) =~= extra);
        assert(blocks_view(out@) =~= start + template_blocks(t, src));
    }
}


// ---------------------------------------------------------------------------
// Provider questions
// ---------------------------------------------------------------------------

/// The block that offers to override the provider chosen for a capability.
pub open spec fn selection_block(e: EntryView, cap: Seq<char>, optional: bool) -> BlockView {
    BlockView {
        block_id: "provider.select."@ + e.provider_id,
        source: SourceView::Provider { provider_id: e.provider_id },
        owner: "provider."@ + e.provider_id,
        path: "provider."@ + e.provider_id + ".selection."@ + slug_of(cap),
        answer_key: Some(cap),
        prompt: Some("Provider override for "@ + cap + " (Enter to keep "@ + e.provider_id + "): "@),
        scope: ScopeView::Provider { provider_id: Some(e.provider_id), agent_id: None },
        phase: QuestionPhase::Design,
        visibility: if optional {
            QuestionVisibility::ReviewAll
        } else {
            QuestionVisibility::Required
        },
        source_ref: None,
        summary: Some("Recommended provider `"@ + e.display_name + "` for capability `"@ + cap + "`"@),
    }
}

/// The first block of `bs` with the id, if any.
pub open spec fn find_block(bs: Seq<ProviderBlockView>, id: Seq<char>, i: int) -> Option<ProviderBlockView>
    decreases bs.len() - i,
{
    if i < 0 || i >= bs.len() {
        None
    } else if bs[i].block_id == id {
        Some(bs[i])
    } else {
        find_block(bs, id, i + 1)
    }
}

/// The provider's follow-up block ids: the required ones, then those of its
/// declared blocks, each once.
pub open spec fn follow_up_ids(e: EntryView) -> Seq<Seq<char>> {
    fresh_ids(
        e.required_question_block_ids + e.question_blocks.map_values(|b: ProviderBlockView| b.block_id),
        Seq::empty(),
    )
}

/// A follow-up block needs setup when its declared block has a setup schema
/// or the provider requires setup schemas.
pub open spec fn needs_setup(e: EntryView, pb: Option<ProviderBlockView>) -> bool {
    (pb matches Some(b) && b.setup_schema_ref is Some) || e.required_setup_schema_refs.len() > 0
}

pub open spec fn follow_up_answer_key(pb: Option<ProviderBlockView>, qid: Seq<char>) -> Option<Seq<char>> {
    match pb {
        Some(b) => match b.answer_key {
            Some(k) => Some(k),
            None => Some(qid),
        },
        None => Some(qid),
    }
}

pub open spec fn follow_up_prompt(pb: Option<ProviderBlockView>, qid: Seq<char>) -> Option<Seq<char>> {
    let fallback = "Enter value for provider block `"@ + qid + "`: "@;
    match pb {
        Some(b) => match b.prompt {
            Some(p) => Some(p),
            None => Some(fallback),
        },
        None => Some(fallback),
    }
}

pub open spec fn follow_up_source_ref(e: EntryView, pb: Option<ProviderBlockView>) -> Option<Seq<char>> {
    match pb {
        Some(b) if b.setup_schema_ref is Some => b.setup_schema_ref,
        _ => if e.required_setup_schema_refs.len() > 0 {
            Some(e.required_setup_schema_refs[0])
        } else {
            None
        },
    }
}

/// A follow-up question block of a provider.
pub open spec fn follow_up_block(e: EntryView, qid: Seq<char>) -> BlockView {
    let pb = find_block(e.question_blocks, qid, 0);
    BlockView {
        block_id: qid,
        source: SourceView::Provider { provider_id: e.provider_id },
        owner: "provider."@ + e.provider_id,
        path: "provider."@ + e.provider_id + "."@ + qid,
        answer_key: follow_up_answer_key(pb, qid),
        prompt: follow_up_prompt(pb, qid),
        scope: ScopeView::Provider { provider_id: Some(e.provider_id), agent_id: None },
        phase: if needs_setup(e, pb) {
            QuestionPhase::Setup
        } else {
            QuestionPhase::Design
        },
        visibility: if needs_setup(e, pb) {
            QuestionVisibility::HiddenUnlessNeeded
        } else {
            QuestionVisibility::ReviewAll
        },
        source_ref: follow_up_source_ref(e, pb),
        summary: Some("Follow-up questions for provider `"@ + e.display_name + "`"@),
    }
}

/// The blocks of the provider chosen for a capability.
pub open spec fn provider_section(e: EntryView, cap: Seq<char>, optional: bool) -> Seq<BlockView> {
    seq![selection_block(e, cap, optional)] + follow_up_ids(e).map_values(|q: Seq<char>| follow_up_block(e, q))
}

/// The provider blocks for each capability of `caps` that gets a provider.
pub open spec fn capability_blocks(t: TemplateView, es: Seq<EntryView>, caps: Seq<Seq<char>>, optional: bool) -> Seq<
    BlockView,
>
    decreases caps.len(),
{
    if caps.len() == 0 {
        Seq::empty()
    } else {
        capability_blocks(t, es, caps.drop_last(), optional) + match selected_provider(t, es, caps.last()) {
            Some(i) => provider_section(es[i], caps.last(), optional),
            None => Seq::empty(),
        }
    }
}

/// Provider blocks for the required capabilities, then the optional ones.
pub open spec fn provider_blocks(t: TemplateView, es: Seq<EntryView>) -> Seq<BlockView> {
    capability_blocks(t, es, t.required_capabilities, false) + capability_blocks(t, es, t.optional_capabilities, true)
}

fn selection_block_exec(e: &DwProviderCatalogEntry, cap: &CapabilityId, optional: bool) -> (r: DwWizardQuestionBlock)
    ensures
        r@ == selection_block(e@, cap@, optional),
{
    let pid = e.provider_id.as_str();
    let cap_text = cap.as_str();
    let mut block_id = String::from_str("provider.select.");
    block_id.append(pid);
    let mut owner = String::from_str("provider.");
    owner.append(pid);
    let mut path = String::from_str("provider.");
    path.append(pid);
    path.append(".selection.");
    let slug = capability_slug(cap);
    path.append(slug.as_str());
    let mut prompt = String::from_str("Provider override for ");
    prompt.append(cap_text);
    prompt.append(" (Enter to keep ");
    prompt.append(pid);
    prompt.append("): ");
    let mut summary = String::from_str("Recommended provider `");
    summary.append(e.display_name.as_str());
    summary.append("` for capability `");
    summary.append(cap_text);
    summary.append("`");
    let visibility = if optional {
        QuestionVisibility::ReviewAll
    } else {
        QuestionVisibility::Required
    };
    DwWizardQuestionBlock {
        block_id,
        source: QuestionSource::Provider { provider_id: e.provider_id.clone() },
        owner,
        path,
        answer_key: Some(String::from_str(cap_text)),
        prompt: Some(prompt),
        scope: QuestionScope::Provider { provider_id: Some(e.provider_id.clone()), agent_id: None },
        phase: QuestionPhase::Design,
        visibility,
        source_ref: None,
        summary: Some(summary),
    }
}

fn find_block_index(bs: &Vec<ProviderQuestionBlock>, id: &str) -> (r: Option<usize>)
    ensures
        match r {
            Some(i) => i < bs.len() && find_block(bs@.map_values(|b: ProviderQuestionBlock| b@), id@, 0) == Some(
                bs@[i as int]@,
            ),
            None => find_block(bs@.map_values(|b: ProviderQuestionBlock| b@), id@, 0) is None,
        },
{
    let ghost v = bs@.map_values(|b: ProviderQuestionBlock| b@);
    let mut i: usize = 0;
    while i < bs.len()
        invariant
            i <= bs.len(),
            v == bs@.map_values(|b: ProviderQuestionBlock| b@),
            find_block(v, id@, 0) == find_block(v, id@, i as int),
        decreases bs.len() - i,
    {
        if str_equal(bs[i].block_id.as_str(), id) {
            return Some(i);
        }
        i = i + 1;
    }
    None
}

fn follow_up_block_exec(e: &DwProviderCatalogEntry, qid: &String) -> (r: DwWizardQuestionBlock)
    ensures
        r@ == follow_up_block(e@, qid@),
{
    let ghost ev = e@;
    let found = find_block_index(&e.question_blocks, qid.as_str());
    let ghost pb = find_block(ev.question_blocks, qid@, 0);
    let pid = e.provider_id.as_str();
    let mut owner = String::from_str("provider.");
    owner.append(pid);
    let mut path = String::from_str("provider.");
    path.append(pid);
    path.append(".");
    path.append(qid.as_str());
    let mut fallback_prompt = String::from_str("Enter value for provider block `");
    fallback_prompt.append(qid.as_str());
    fallback_prompt.append("`: ");
    let mut summary = String::from_str("Follow-up questions for provider `");
    summary.append(e.display_name.as_str());
    summary.append("`");
    let has_setup_refs = e.required_setup_schema_refs.len() > 0;
    let first_setup_ref: Option<String> = if has_setup_refs {
        Some(e.required_setup_schema_refs[0].clone())
    } else {
        None
    };
    let (answer_key, prompt, block_setup) = match found {
        Some(i) => {
            let b = &e.question_blocks[i];
            let answer_key = match &b.answer_key {
                Some(k) => Some(k.clone()),
                None => Some(qid.clone()),
            };
            let prompt = match &b.prompt {
                Some(p) => Some(p.clone()),
                None => Some(fallback_prompt),
            };
            (answer_key, prompt, clone_opt_string(&b.setup_schema_ref))
        },
        None => (Some(qid.clone()), Some(fallback_prompt), None),
    };
    let setup = block_setup.is_some() || has_setup_refs;
    let source_ref = match block_setup {
        Some(s) => Some(s),
        None => first_setup_ref,
    };
    let phase = if setup {
        QuestionPhase::Setup
    } else {
        QuestionPhase::Design
    };
    let visibility = if setup {
        QuestionVisibility::HiddenUnlessNeeded
    } else {
        QuestionVisibility::ReviewAll
    };
    DwWizardQuestionBlock {
        block_id: qid.clone(),
        source: QuestionSource::Provider { provider_id: e.provider_id.clone() },
        owner,
        path,
        answer_key,
        prompt,
        scope: QuestionScope::Provider { provider_id: Some(e.provider_id.clone()), agent_id: None },
        phase,
        visibility,
        source_ref,
        summary: Some(summary),
    }
}

fn block_ids(bs: &Vec<ProviderQuestionBlock>) -> (r: Vec<String>)
    ensures
        strings_view(r@) == bs@.map_values(|b: ProviderQuestionBlock| b@).map_values(|b: ProviderBlockView| b.block_id),
{
    let ghost target = bs@.map_values(|b: ProviderQuestionBlock| b@).map_values(|b: ProviderBlockView| b.block_id);
    let mut out: Vec<String> = Vec::new();
    let mut i: usize = 0;
    while i < bs.len()
        invariant
            i <= bs.len(),
            target == bs@.map_values(|b: ProviderQuestionBlock| b@).map_values(|b: ProviderBlockView| b.block_id),
            strings_view(out@) == target.take(i as int),
        decreases bs.len() - i,
    {
        let ghost before = out@;
        let c = bs[i].block_id.clone();
        out.push(c);
        assert(strings_view(out@) =~= strings_view(before).push(bs@[i as int].block_id@));
        assert(strings_view(out@) =~= target.take(i + 1));
        i = i + 1;
    }
    assert(target.take(i as int) =~= target);
    out
}

fn provider_section_exec(
    e: &DwProviderCatalogEntry,
    cap: &CapabilityId,
    optional: bool,
    out: &mut Vec<DwWizardQuestionBlock>,
)
    ensures
        blocks_view(final(out)@) == blocks_view(old(out)@) + provider_section(e@, cap@, optional),
{
    let ghost ev = e@;
    let ghost start = blocks_view(out@);
    let sel = selection_block_exec(e, cap, optional);
    out.push(sel);
    let ghost mid = blocks_view(out@);
    assert(mid =~= start + seq![selection_block(ev, cap@, optional)]);
    let declared = block_ids(&e.question_blocks);
    let ids = concat_strings(&e.required_question_block_ids, &declared);
    let none: Vec<String> = Vec::new();
    assert(strings_view(none@) =~= Seq::<Seq<char>>::empty());
    let fresh = fresh_ids_exec(&ids, none);
    let ghost fv = strings_view(fresh@);
    assert(fv == follow_up_ids(ev));
    let ghost extra = fv.map_values(|q: Seq<char>| follow_up_block(ev, q));
    let mut j: usize = 0;
    while j < fresh.len()
        invariant
            j <= fresh.len(),
            ev == e@,
            fv == strings_view(fresh@),
            extra == fv.map_values(|q: Seq<char>| follow_up_block(ev, q)),
            blocks_view(out@) == mid + extra.take(j as int),
        decreases fresh.len() - j,
    {
        let block = follow_up_block_exec(e, &fresh[j]);
        let ghost before = out@;
        out.push(block);
        proof {
            assert(blocks_view(out@) =~= blocks_view(before).push(block@));
            assert(blocks_view(out@) =~= mid + extra.take(j + 1));
        }
        j = j + 1;
    }
    proof {
        assert(extra.take(j as int) =~= extra);
        assert(blocks_view(out@) =~= start + provider_section(ev, cap@, optional));
    }
}

fn capability_blocks_exec(
    template: &DigitalWorkerTemplate,
    catalog: &DwProviderCatalog,
    caps: &Vec<CapabilityId>,
    optional: bool,
    out: &mut Vec<DwWizardQuestionBlock>,
)
    ensures
        blocks_view(final(out)@) == blocks_view(old(out)@) + capability_blocks(
            template@,
            entries_view(catalog.entries@),
            caps_view(caps@),
            optional,
        ),
{
    let ghost t = template@;
    let ghost es = entries_view(catalog.entries@);
    let ghost cv = caps_view(caps@);
    let ghost start = blocks_view(out@);
    let mut i: usize = 0;
    proof {
        assert(cv.take(0) =~= Seq::<Seq<char>>::empty());
        assert(blocks_view(out@) =~= start + capability_blocks(t, es, cv.take(0), optional));
    }
    while i < caps.len()
        invariant
            i <= caps.len(),
            t == template@,
            es == entries_view(catalog.entries@),
            cv == caps_view(caps@),
            blocks_view(out@) == start + capability_blocks(t, es, cv.take(i as int), optional),
        decreases caps.len() - i,
    {
        let cap = &caps[i];
        proof {
            assert(cv.take(i + 1).drop_last() =~= cv.take(i as int));
            assert(cv.take(i + 1).last() == cap@);
        }
        let ghost before = blocks_view(out@);
        match select_provider_for_capability(template, catalog, cap) {
            Some(k) => {
                provider_section_exec(&catalog.entries[k], cap, optional, out);
                proof {
                    assert(es[k as int] == catalog.entries@[k as int]@);
                }
            },
            None => {},
        }
        proof {
            assert(blocks_view(out@) =~= start + capability_blocks(t, es, cv.take(i + 1), optional));
        }
        i = i + 1;
    }
    proof {
        assert(cv.take(i as int) =~= cv);
    }
}


/// The question blocks of a wizard run for a template: the wizard's own
/// blocks, the template's blocks, the blocks of the provider chosen for each
/// required then optional capability (when there is a catalog), the
/// provider strategy block of a multi-agent template, and the bundle
/// planning block when the template has packaging hints.
pub open spec fn question_assembly(t: TemplateView, src: Option<Seq<char>>, es: Option<Seq<EntryView>>) -> Seq<
    BlockView,
> {
    core_blocks(t) + template_blocks(t, src) + match es {
        Some(es) => provider_blocks(t, es),
        None => Seq::empty(),
    } + composition_blocks(t) + packaging_blocks(t)
}

pub open spec fn entry_source(e: Option<&TemplateCatalogEntry>) -> Option<Seq<char>> {
    match e {
        Some(x) => Some(x.source_ref@),
        None => None,
    }
}

pub open spec fn catalog_entries(c: Option<&DwProviderCatalog>) -> Option<Seq<EntryView>> {
    match c {
        Some(x) => Some(entries_view(x.entries@)),
        None => None,
    }
}

/// Assembles the wizard's question blocks for a template.
pub fn build_question_assembly(
    template: &DigitalWorkerTemplate,
    selected_template_entry: Option<&TemplateCatalogEntry>,
    provider_catalog: Option<&DwProviderCatalog>,
) -> (r: Result<DwWizardQuestionAssembly, CliError>)
    ensures
        r matches Ok(a) && blocks_view(a.blocks@) == question_assembly(
            template@,
            entry_source(selected_template_entry),
            catalog_entries(provider_catalog),
        ),
{
    let mut blocks: Vec<DwWizardQuestionBlock> = Vec::new();
    let ghost t = template@;
    assert(blocks_view(blocks@) =~= Seq::<BlockView>::empty());
    core_blocks_exec(template, &mut blocks);
    let template_source: Option<String> = match selected_template_entry {
        Some(entry) => Some(entry.source_ref.clone()),
        None => None,
    };
    template_blocks_exec(template, &template_source, &mut blocks);
    let ghost after_template = blocks_view(blocks@);
    match provider_catalog {
        Some(catalog) => {
            capability_blocks_exec(template, catalog, &template.required_capabilities, false, &mut blocks);
            capability_blocks_exec(template, catalog, &template.optional_capabilities, true, &mut blocks);
            assert(blocks_view(blocks@) =~= after_template + provider_blocks(t, entries_view(catalog.entries@)));
        },
        None => {},
    }
    closing_blocks_exec(template, &mut blocks);
    let r = DwWizardQuestionAssembly { blocks };
    assert(blocks_view(r.blocks@) =~= question_assembly(
        t,
        entry_source(selected_template_entry),
        catalog_entries(provider_catalog),
    ));
    Ok(r)
}


// ---------------------------------------------------------------------------
// Answers
// ---------------------------------------------------------------------------

/// How much of the design the user reviews.
#[derive(Clone, Copy, Debug, PartialEq, Eq, Structural)]
pub enum DwResolutionMode {
    Recommended,
    ReviewAll,
}

/// A design answer's value: the text of a JSON string, or any other JSON
/// value as its JSON text.
#[derive(Debug, PartialEq, Eq)]
pub enum AnswerValue {
    Text(String),
    Json(String),
}

/// One design answer.
#[derive(Debug, PartialEq, Eq)]
pub struct AnswerEntry {
    pub key: String,
    pub value: AnswerValue,
}

/// A provider chosen for a capability.
#[derive(Debug, PartialEq, Eq)]
pub struct ProviderOverride {
    pub capability_id: String,
    pub provider_id: String,
}

/// Answers given for one agent of a multi-agent application.
#[derive(Debug, PartialEq, Eq)]
pub struct AgentAnswerDocument {
    pub provider_overrides: Vec<ProviderOverride>,
    pub design_answers: Vec<AnswerEntry>,
}

/// The answers of one agent, by agent id.
#[derive(Debug, PartialEq, Eq)]
pub struct AgentAnswers {
    pub agent_id: String,
    pub answers: AgentAnswerDocument,
}

/// The answers document of a wizard run. Keyed lists hold each key once.
#[derive(Debug, PartialEq, Eq)]
pub struct AnswerDocument {
    pub manifest_id: String,
    pub display_name: String,
    pub manifest_version: String,
    pub tenant: String,
    pub template_id: Option<String>,
    pub review_mode: Option<DwResolutionMode>,
    pub provider_overrides: Vec<ProviderOverride>,
    pub design_answers: Vec<AnswerEntry>,
    pub agent_answers: Vec<AgentAnswers>,
    pub team: Option<String>,
    pub requested_locale: Option<String>,
    pub human_locale: Option<String>,
    pub worker_default_locale: String,
}

pub enum ValueView {
    Text(Seq<char>),
    Json(Seq<char>),
}

impl View for AnswerValue {
    type V = ValueView;

    open spec fn view(&self) -> ValueView {
        match self {
            AnswerValue::Text(t) => ValueView::Text(t@),
            AnswerValue::Json(j) => ValueView::Json(j@),
        }
    }
}

pub open spec fn answers_view(v: Seq<AnswerEntry>) -> Seq<(Seq<char>, ValueView)> {
    v.map_values(|e: AnswerEntry| (e.key@, e.value@))
}

/// The text of the first answer under `key`, when it is a JSON string;
/// `Some(None)` for a present non-text answer.
pub open spec fn answer_text(es: Seq<(Seq<char>, ValueView)>, key: Seq<char>, i: int) -> Option<Option<Seq<char>>>
    decreases es.len() - i,
{
    if i < 0 || i >= es.len() {
        None
    } else if es[i].0 == key {
        match es[i].1 {
            ValueView::Text(t) => Some(Some(t)),
            ValueView::Json(_) => Some(None),
        }
    } else {
        answer_text(es, key, i + 1)
    }
}

fn answer_text_exec<'a>(es: &'a Vec<AnswerEntry>, key: &str) -> (r: Option<Option<&'a String>>)
    ensures
        match r {
            Some(Some(t)) => answer_text(answers_view(es@), key@, 0) == Some(Some(t@)),
            Some(None) => answer_text(answers_view(es@), key@, 0) == Some(None::<Seq<char>>),
            None => answer_text(answers_view(es@), key@, 0) is None,
        },
{
    let ghost v = answers_view(es@);
    let mut i: usize = 0;
    while i < es.len()
        invariant
            i <= es.len(),
            v == answers_view(es@),
            answer_text(v, key@, 0) == answer_text(v, key@, i as int),
        decreases es.len() - i,
    {
        if str_equal(es[i].key.as_str(), key) {
            return match &es[i].value {
                AnswerValue::Text(t) => Some(Some(t)),
                AnswerValue::Json(_) => Some(None),
            };
        }
        i = i + 1;
    }
    None
}

// ---------------------------------------------------------------------------
// Agent count and provider strategy
// ---------------------------------------------------------------------------

pub open spec fn is_digit(c: char) -> bool {
    '0' <= c && c <= '9'
}

/// The value of a run of decimal digits.
pub open spec fn digits_value(s: Seq<char>) -> int
    decreases s.len(),
{
    if s.len() == 0 {
        0
    } else {
        digits_value(s.drop_last()) * 10 + (s.last() as int - '0' as int)
    }
}

/// The digits part of text parsed as a number: without a leading `+`.
pub open spec fn usize_body(s: Seq<char>) -> Seq<char> {
    if s.len() > 0 && s[0] == '+' {
        s.drop_first()
    } else {
        s
    }
}

pub open spec fn all_digits(s: Seq<char>) -> bool {
    forall|i: int| 0 <= i < s.len() ==> is_digit(#[trigger] s[i])
}

/// What parsing text as a `usize` gives: an optional `+`, then at least one
/// digit and nothing else, of a value that fits.
pub open spec fn parsed_usize(s: Seq<char>) -> Option<int> {
    let body = usize_body(s);
    if body.len() > 0 && all_digits(body) && digits_value(body) <= usize::MAX {
        Some(digits_value(body))
    } else {
        None
    }
}

proof fn lemma_digits_value_grows(s: Seq<char>, k: int)
    requires
        0 <= k <= s.len(),
        forall|i: int| 0 <= i < s.len() ==> is_digit(#[trigger] s[i]),
    ensures
        0 <= digits_value(s.take(k)) <= digits_value(s),
    decreases s.len() - k,
{
    if k == s.len() {
        assert(s.take(k) =~= s);
        lemma_digits_value_nonneg(s);
    } else {
        lemma_digits_value_grows(s, k + 1);
        assert(s.take(k + 1).drop_last() =~= s.take(k));
        assert(is_digit(s[k]));
        lemma_digits_value_nonneg(s.take(k));
    }
}

proof fn lemma_digits_value_nonneg(s: Seq<char>)
    requires
        forall|i: int| 0 <= i < s.len() ==> is_digit(#[trigger] s[i]),
    ensures
        0 <= digits_value(s),
    decreases s.len(),
{
    if s.len() > 0 {
        let p = s.drop_last();
        assert forall|i: int| 0 <= i < p.len() implies is_digit(#[trigger] p[i]) by {
            assert(p[i] == s[i]);
        }
        lemma_digits_value_nonneg(p);
        assert(is_digit(s[s.len() - 1]));
    }
}

proof fn lemma_digit_char_value(d: nat)
    requires
        d < 10,
    ensures
        is_digit(digit_char(d)),
        digit_char(d) as int - '0' as int == d,
{
}

pub proof fn lemma_decimal_digits(n: nat)
    ensures
        decimal(n).len() > 0,
        all_digits(decimal(n)),
        digits_value(decimal(n)) == n,
    decreases n,
{
    let s = decimal(n);
    lemma_digit_char_value(n % 10);
    if n >= 10 {
        lemma_decimal_digits(n / 10);
        let p = decimal(n / 10);
        assert(s.drop_last() =~= p);
        assert(s.last() == digit_char(n % 10));
        assert forall|i: int| 0 <= i < s.len() implies is_digit(#[trigger] s[i]) by {
            if i < p.len() {
                assert(s[i] == p[i]);
            }
        }
        assert(digits_value(s) == digits_value(p) * 10 + (s.last() as int - '0' as int));
        assert(n == (n / 10) * 10 + n % 10) by (nonlinear_arith);
    } else {
        assert(s.drop_last() =~= Seq::<char>::empty());
        assert(digits_value(s) == digits_value(s.drop_last()) * 10 + (s.last() as int - '0' as int));
        assert(n % 10 == n);
    }
}

/// Rendering a number in decimal and parsing the text gives the number back.
pub proof fn law_decimal_parses_back(n: nat)
    requires
        n <= usize::MAX,
    ensures
        parsed_usize(decimal(n)) == Some(n as int),
{
    lemma_decimal_digits(n);
    assert(decimal(n)[0] != '+') by {
        assert(is_digit(decimal(n)[0]));
    }
}

/// Parses text as a `usize` the way `str::parse` does.
pub fn parse_usize(s: &str) -> (r: Option<usize>)
    ensures
        match r {
            Some(v) => parsed_usize(s@) == Some(v as int),
            None => parsed_usize(s@) is None,
        },
{
    let n = s.unicode_len();
    let start: usize = if n > 0 && s.get_char(0) == '+' {
        1
    } else {
        0
    };
    let ghost body = usize_body(s@);
    assert(body =~= s@.subrange(start as int, n as int));
    if start >= n {
        return None;
    }
    let mut value: usize = 0;
    let mut i: usize = start;
    assert(body.take(0) =~= Seq::<char>::empty());
    while i < n
        invariant
            start <= i <= n,
            n == s@.len(),
            body == s@.subrange(start as int, n as int),
            body == usize_body(s@),
            forall|k: int| 0 <= k < i - start ==> is_digit(#[trigger] body[k]),
            value == digits_value(body.take(i - start)),
        decreases n - i,
    {
        let c = s.get_char(i);
        assert(body[i - start] == c);
        if !('0' <= c && c <= '9') {
            proof {
                assert(!is_digit(body[i - start]));
                assert(!all_digits(body));
            }
            return None;
        }
        let d = (c as u32 - '0' as u32) as usize;
        assert(body.take(i - start + 1).drop_last() =~= body.take(i - start));
        assert(body.take(i - start + 1).last() == c);
        let next = match value.checked_mul(10) {
            Some(m) => m.checked_add(d),
            None => None,
        };
        match next {
            Some(v) => {
                value = v;
            },
            None => {
                proof {
                    assert(value * 10 + d > usize::MAX);
                    assert(digits_value(body.take(i - start + 1)) == value * 10 + d);
                    if all_digits(body) {
                        lemma_digits_value_grows(body, i - start + 1);
                        assert(digits_value(body) > usize::MAX);
                    }
                    }
                return None;
            },
        }
        i = i + 1;
    }
    assert(body.take(i - start) =~= body);
    Some(value)
}

/// The number of agents of the application: 1 unless the template supports
/// several agents and the `agent_count` answer is text giving a number above
/// one (surrounding blanks ignored).
pub open spec fn agent_count_of(es: Seq<(Seq<char>, ValueView)>, multi: bool) -> int {
    if !multi {
        1
    } else {
        match answer_text(es, "agent_count"@, 0) {
            Some(Some(t)) => match parsed_usize(trimmed(t)) {
                Some(n) if n > 1 => n,
                _ => 1,
            },
            _ => 1,
        }
    }
}

/// The number of agents a run builds for the answers and template.
pub fn resolved_agent_count(answers: &AnswerDocument, template: &DigitalWorkerTemplate) -> (r: usize)
    ensures
        r == agent_count_of(answers_view(answers.design_answers@), template.supports_multi_agent_app_pack),
        r >= 1,
{
    if !template.supports_multi_agent_app_pack {
        return 1;
    }
    match answer_text_exec(&answers.design_answers, "agent_count") {
        Some(Some(t)) => {
            let trimmed_text = str_trim(t.as_str());
            match parse_usize(trimmed_text.as_str()) {
                Some(n) => if n > 1 {
                    n
                } else {
                    1
                },
                None => 1,
            }
        },
        _ => 1,
    }
}

pub open spec fn per_agent_word(t: Seq<char>) -> bool {
    let w = trimmed(t);
    eq_ignore_ascii(w, "n"@) || eq_ignore_ascii(w, "no"@) || eq_ignore_ascii(w, "per_agent"@) || eq_ignore_ascii(
        w,
        "per-agent"@,
    ) || eq_ignore_ascii(w, "local"@)
}

/// Agents share providers unless the `provider_strategy` answer says
/// otherwise (`n`, `no`, `per_agent`, `per-agent` or `local`, any case).
pub open spec fn shared_providers(es: Seq<(Seq<char>, ValueView)>) -> bool {
    match answer_text(es, "provider_strategy"@, 0) {
        Some(Some(t)) => !per_agent_word(t),
        _ => true,
    }
}

/// Whether the agents of the application share their providers.
pub fn uses_shared_provider_strategy(answers: &AnswerDocument) -> (r: bool)
    ensures
        r == shared_providers(answers_view(answers.design_answers@)),
{
    match answer_text_exec(&answers.design_answers, "provider_strategy") {
        Some(Some(t)) => {
            let w = str_trim(t.as_str());
            let ws = w.as_str();
            !(str_eq_ignore_ascii_case(ws, "n") || str_eq_ignore_ascii_case(ws, "no") || str_eq_ignore_ascii_case(
                ws,
                "per_agent",
            ) || str_eq_ignore_ascii_case(ws, "per-agent") || str_eq_ignore_ascii_case(ws, "local"))
        },
        _ => true,
    }
}


// ---------------------------------------------------------------------------
// Blocks per agent
// ---------------------------------------------------------------------------

/// The answer key of a block asked for agent `idx`: provider selections
/// under `agent.<idx>.provider.`, everything else under `agent.<idx>.`.
pub open spec fn scoped_answer_key(block: BlockView, key: Seq<char>, idx: nat) -> Seq<char> {
    if has_prefix(block.block_id, "provider.select."@) {
        "agent."@ + decimal(idx) + ".provider."@ + key
    } else {
        "agent."@ + decimal(idx) + "."@ + key
    }
}

pub open spec fn agent_label(idx: nat) -> Seq<char> {
    "agent-"@ + decimal(idx)
}

/// A block asked for agent `idx`: id, path and answer key carry the agent,
/// the prompt names it, and the scope is the agent's.
pub open spec fn scoped_block(block: BlockView, idx: nat, include_scope_prefix: bool) -> BlockView {
    let agent = agent_label(idx);
    BlockView {
        block_id: block.block_id + "."@ + agent,
        source: block.source,
        owner: block.owner,
        path: block.path + "."@ + agent,
        answer_key: match block.answer_key {
            Some(k) => Some(scoped_answer_key(block, k, idx)),
            None => None,
        },
        prompt: match block.prompt {
            Some(p) => Some("Agent "@ + decimal(idx) + ": "@ + p),
            None => None,
        },
        scope: match block.scope {
            ScopeView::Agent { .. } => ScopeView::Agent { agent_id: Some(agent) },
            ScopeView::Provider { provider_id, .. } => ScopeView::Provider { provider_id, agent_id: Some(agent) },
            _ => if include_scope_prefix {
                ScopeView::Agent { agent_id: Some(agent) }
            } else {
                block.scope
            },
        },
        phase: block.phase,
        visibility: block.visibility,
        source_ref: block.source_ref,
        summary: block.summary,
    }
}

/// One copy of a block for each agent, numbered from one.
pub open spec fn per_agent_blocks(block: BlockView, count: nat) -> Seq<BlockView> {
    Seq::new(count, |i: int| scoped_block(block, (i + 1) as nat, true))
}

/// Whether a block is asked once per agent: an agent block without agent,
/// or, when providers are not shared, a provider block without agent.
pub open spec fn asked_per_agent(block: BlockView, shared: bool) -> bool {
    match block.scope {
        ScopeView::Agent { agent_id } => agent_id is None,
        ScopeView::Provider { agent_id, .. } => agent_id is None && !shared,
        _ => false,
    }
}

pub open spec fn expanded_blocks(blocks: Seq<BlockView>, count: nat, shared: bool) -> Seq<BlockView>
    decreases blocks.len(),
{
    if blocks.len() == 0 {
        Seq::empty()
    } else {
        expanded_blocks(blocks.drop_last(), count, shared) + if asked_per_agent(blocks.last(), shared) {
            per_agent_blocks(blocks.last(), count)
        } else {
            seq![blocks.last()]
        }
    }
}

/// The blocks shown for an application of `count` agents.
pub open spec fn visible_for_output(blocks: Seq<BlockView>, count: nat, shared: bool) -> Seq<BlockView> {
    if count <= 1 {
        blocks
    } else {
        expanded_blocks(blocks, count, shared)
    }
}

fn clone_source(s: &QuestionSource) -> (r: QuestionSource)
    ensures
        r@ == s@,
{
    match s {
        QuestionSource::DwCore => QuestionSource::DwCore,
        QuestionSource::Template { template_id } => QuestionSource::Template { template_id: template_id.clone() },
        QuestionSource::Provider { provider_id } => QuestionSource::Provider { provider_id: provider_id.clone() },
        QuestionSource::Composition => QuestionSource::Composition,
        QuestionSource::Packaging => QuestionSource::Packaging,
    }
}

fn clone_scope(s: &QuestionScope) -> (r: QuestionScope)
    ensures
        r@ == s@,
{
    match s {
        QuestionScope::Application => QuestionScope::Application,
        QuestionScope::Agent { agent_id } => QuestionScope::Agent { agent_id: clone_opt_string(agent_id) },
        QuestionScope::Provider { provider_id, agent_id } => QuestionScope::Provider {
            provider_id: clone_opt_string(provider_id),
            agent_id: clone_opt_string(agent_id),
        },
        QuestionScope::SharedComposition => QuestionScope::SharedComposition,
    }
}

/// A copy of a block.
pub fn clone_block(b: &DwWizardQuestionBlock) -> (r: DwWizardQuestionBlock)
    ensures
        r@ == b@,
{
    DwWizardQuestionBlock {
        block_id: b.block_id.clone(),
        source: clone_source(&b.source),
        owner: b.owner.clone(),
        path: b.path.clone(),
        answer_key: clone_opt_string(&b.answer_key),
        prompt: clone_opt_string(&b.prompt),
        scope: clone_scope(&b.scope),
        phase: b.phase,
        visibility: b.visibility,
        source_ref: clone_opt_string(&b.source_ref),
        summary: clone_opt_string(&b.summary),
    }
}

/// The answer key of a block asked for agent `agent_index`.
pub fn scoped_answer_key_for_output(block: &DwWizardQuestionBlock, answer_key: &str, agent_index: usize) -> (r: String)
    ensures
        r@ == scoped_answer_key(block@, answer_key@, agent_index as nat),
{
    let mut s = String::from_str("agent.");
    let digits = u64_to_decimal(agent_index as u64);
    s.append(digits.as_str());
    if str_starts_with(block.block_id.as_str(), "provider.select.") {
        s.append(".provider.");
    } else {
        s.append(".");
    }
    s.append(answer_key);
    s
}

/// The copy of a block asked for agent `agent_index`.
pub fn scoped_visible_block_for_output(
    block: &DwWizardQuestionBlock,
    agent_index: usize,
    include_scope_prefix: bool,
) -> (r: DwWizardQuestionBlock)
    ensures
        r@ == scoped_block(block@, agent_index as nat, include_scope_prefix),
{
    let digits = u64_to_decimal(agent_index as u64);
    let mut agent = String::from_str("agent-");
    agent.append(digits.as_str());
    let mut block_id = block.block_id.clone();
    block_id.append(".");
    block_id.append(agent.as_str());
    let mut path = block.path.clone();
    path.append(".");
    path.append(agent.as_str());
    let prompt = match &block.prompt {
        Some(p) => {
            let mut t = String::from_str("Agent ");
            t.append(digits.as_str());
            t.append(": ");
            t.append(p.as_str());
            Some(t)
        },
        None => None,
    };
    let answer_key = match &block.answer_key {
        Some(k) => Some(scoped_answer_key_for_output(block, k.as_str(), agent_index)),
        None => None,
    };
    let scope = match &block.scope {
        QuestionScope::Agent { .. } => QuestionScope::Agent { agent_id: Some(agent) },
        QuestionScope::Provider { provider_id, .. } => QuestionScope::Provider {
            provider_id: clone_opt_string(provider_id),
            agent_id: Some(agent),
        },
        _ => if include_scope_prefix {
            QuestionScope::Agent { agent_id: Some(agent) }
        } else {
            clone_scope(&block.scope)
        },
    };
    DwWizardQuestionBlock {
        block_id,
        source: clone_source(&block.source),
        owner: block.owner.clone(),
        path,
        answer_key,
        prompt,
        scope,
        phase: block.phase,
        visibility: block.visibility,
        source_ref: clone_opt_string(&block.source_ref),
        summary: clone_opt_string(&block.summary),
    }
}

/// The blocks shown for the answers and template: for several agents, each
/// agent-scoped block (and, without shared providers, each provider block)
/// without an agent is asked once per agent.
pub fn resolve_visible_blocks_for_output(
    blocks: &Vec<DwWizardQuestionBlock>,
    answers: &AnswerDocument,
    template: &DigitalWorkerTemplate,
) -> (r: Vec<DwWizardQuestionBlock>)
    ensures
        blocks_view(r@) == visible_for_output(
            blocks_view(blocks@),
            agent_count_of(answers_view(answers.design_answers@), template.supports_multi_agent_app_pack) as nat,
            shared_providers(answers_view(answers.design_answers@)),
        ),
{
    let agent_count = resolved_agent_count(answers, template);
    let shared = uses_shared_provider_strategy(answers);
    let ghost bv = blocks_view(blocks@);
    let mut out: Vec<DwWizardQuestionBlock> = Vec::new();
    if agent_count <= 1 {
        let mut i: usize = 0;
        while i < blocks.len()
            invariant
                i <= blocks.len(),
                bv == blocks_view(blocks@),
                blocks_view(out@) == bv.take(i as int),
            decreases blocks.len() - i,
        {
            let c = clone_block(&blocks[i]);
            let ghost before = out@;
            out.push(c);
            assert(blocks_view(out@) =~= blocks_view(before).push(c@));
            assert(blocks_view(out@) =~= bv.take(i + 1));
            i = i + 1;
        }
        assert(bv.take(i as int) =~= bv);
        return out;
    }
    let mut i: usize = 0;
    assert(bv.take(0) =~= Seq::<BlockView>::empty());
    while i < blocks.len()
        invariant
            i <= blocks.len(),
            agent_count > 1,
            bv == blocks_view(blocks@),
            blocks_view(out@) == expanded_blocks(bv.take(i as int), agent_count as nat, shared),
        decreases blocks.len() - i,
    {
        let block = &blocks[i];
        proof {
            assert(bv.take(i + 1).drop_last() =~= bv.take(i as int));
            assert(bv.take(i + 1).last() == block@);
        }
        let per_agent = match &block.scope {
            QuestionScope::Agent { agent_id } => agent_id.is_none(),
            QuestionScope::Provider { agent_id, .. } => agent_id.is_none() && !shared,
            _ => false,
        };
        let ghost start = blocks_view(out@);
        if per_agent {
            let ghost extra = per_agent_blocks(block@, agent_count as nat);
            let mut k: usize = 0;
            while k < agent_count
                invariant
                    k <= agent_count,
                    extra == per_agent_blocks(block@, agent_count as nat),
                    blocks_view(out@) == start + extra.take(k as int),
                decreases agent_count - k,
            {
                let c = scoped_visible_block_for_output(block, k + 1, true);
                let ghost before = out@;
                out.push(c);
                proof {
                    assert(blocks_view(out@) =~= blocks_view(before).push(c@));
                    assert(extra[k as int] == c@);
                    assert(blocks_view(out@) =~= start + extra.take(k + 1));
                }
                k = k + 1;
            }
            assert(extra.take(k as int) =~= extra);
        } else {
            let c = clone_block(block);
            out.push(c);
            assert(blocks_view(out@) =~= start + seq![block@]);
        }
        i = i + 1;
    }
    assert(bv.take(i as int) =~= bv);
    out
}


// ---------------------------------------------------------------------------
// The answers document: defaults, overrides, and the manifest it defines
// ---------------------------------------------------------------------------

pub struct AnswersView {
    pub manifest_id: Seq<char>,
    pub display_name: Seq<char>,
    pub manifest_version: Seq<char>,
    pub tenant: Seq<char>,
    pub template_id: Option<Seq<char>>,
    pub review_mode: Option<DwResolutionMode>,
    pub provider_overrides: Seq<(Seq<char>, Seq<char>)>,
    pub design_answers: Seq<(Seq<char>, ValueView)>,
    pub agent_answers: Seq<(Seq<char>, Seq<(Seq<char>, Seq<char>)>, Seq<(Seq<char>, ValueView)>)>,
    pub team: Option<Seq<char>>,
    pub requested_locale: Option<Seq<char>>,
    pub human_locale: Option<Seq<char>>,
    pub worker_default_locale: Seq<char>,
}

pub open spec fn overrides_view(v: Seq<ProviderOverride>) -> Seq<(Seq<char>, Seq<char>)> {
    v.map_values(|o: ProviderOverride| (o.capability_id@, o.provider_id@))
}

impl View for AnswerDocument {
    type V = AnswersView;

    open spec fn view(&self) -> AnswersView {
        AnswersView {
            manifest_id: self.manifest_id@,
            display_name: self.display_name@,
            manifest_version: self.manifest_version@,
            tenant: self.tenant@,
            template_id: opt_string_view(self.template_id),
            review_mode: self.review_mode,
            provider_overrides: overrides_view(self.provider_overrides@),
            design_answers: answers_view(self.design_answers@),
            agent_answers: self.agent_answers@.map_values(
                |a: AgentAnswers|
                    (
                        a.agent_id@,
                        overrides_view(a.answers.provider_overrides@),
                        answers_view(a.answers.design_answers@),
                    ),
            ),
            team: opt_string_view(self.team),
            requested_locale: opt_string_view(self.requested_locale),
            human_locale: opt_string_view(self.human_locale),
            worker_default_locale: self.worker_default_locale@,
        }
    }
}

/// A keyed list holds each key once.
pub open spec fn unique_keys<V>(es: Seq<(Seq<char>, V)>) -> bool {
    forall|i: int, j: int| 0 <= i < j < es.len() ==> es[i].0 != es[j].0
}

/// Each agent appears once.
pub open spec fn unique_agents(agents: Seq<(Seq<char>, Seq<(Seq<char>, Seq<char>)>, Seq<(Seq<char>, ValueView)>)>) -> bool {
    forall|i: int, j: int| 0 <= i < j < agents.len() ==> agents[i].0 != agents[j].0
}

/// A well-formed answers document: every keyed list (provider overrides,
/// design answers, the agents, and each agent's own lists) holds each key
/// once.
pub open spec fn answers_valid(a: AnswersView) -> bool {
    &&& unique_keys(a.provider_overrides)
    &&& unique_keys(a.design_answers)
    &&& unique_agents(a.agent_answers)
    &&& forall|k: int|
        0 <= k < a.agent_answers.len() ==> unique_keys(#[trigger] a.agent_answers[k].1) && unique_keys(
            a.agent_answers[k].2,
        )
}

pub proof fn lemma_answer_index_facts(es: Seq<(Seq<char>, ValueView)>, key: Seq<char>, i: int)
    requires
        0 <= i,
    ensures
        match answer_index(es, key, i) {
            Some(m) => i <= m < es.len() && es[m].0 == key,
            None => forall|j: int| i <= j < es.len() ==> es[j].0 != key,
        },
    decreases es.len() - i,
{
    if i < es.len() && es[i].0 != key {
        lemma_answer_index_facts(es, key, i + 1);
    }
}

pub proof fn lemma_override_index_facts(os: Seq<(Seq<char>, Seq<char>)>, cap: Seq<char>, i: int)
    requires
        0 <= i,
    ensures
        match override_index(os, cap, i) {
            Some(m) => i <= m < os.len() && os[m].0 == cap,
            None => forall|j: int| i <= j < os.len() ==> os[j].0 != cap,
        },
    decreases os.len() - i,
{
    if i < os.len() && os[i].0 != cap {
        lemma_override_index_facts(os, cap, i + 1);
    }
}

pub proof fn lemma_agent_index_facts(agents: Seq<AgentView>, id: Seq<char>, i: int)
    requires
        0 <= i,
    ensures
        match agent_index(agents, id, i) {
            Some(m) => i <= m < agents.len() && agents[m].0 == id,
            None => forall|j: int| i <= j < agents.len() ==> agents[j].0 != id,
        },
    decreases agents.len() - i,
{
    if i < agents.len() && agents[i].0 != id {
        lemma_agent_index_facts(agents, id, i + 1);
    }
}

/// Setting an answer keeps the keys of a list unique.
pub proof fn lemma_set_answer_unique(es: Seq<(Seq<char>, ValueView)>, key: Seq<char>, v: ValueView)
    requires
        unique_keys(es),
    ensures
        unique_keys(set_answer(es, key, v)),
{
    lemma_answer_index_facts(es, key, 0);
}

/// Setting a provider keeps the capabilities of a list unique.
pub proof fn lemma_set_override_unique(os: Seq<(Seq<char>, Seq<char>)>, cap: Seq<char>, pid: Seq<char>)
    requires
        unique_keys(os),
    ensures
        unique_keys(set_override(os, cap, pid)),
{
    lemma_override_index_facts(os, cap, 0);
}

/// One template default applied to the answers: a text default fills its
/// field when that field is blank (or absent), and `agent_count` becomes a
/// design answer when none is given; other defaults change nothing.
pub open spec fn apply_default(a: AnswersView, key: Seq<char>, value: ValueView) -> AnswersView {
    match value {
        ValueView::Text(v) => if key == "manifest_id"@ && is_blank(a.manifest_id) {
            AnswersView { manifest_id: v, ..a }
        } else if key == "display_name"@ && is_blank(a.display_name) {
            AnswersView { display_name: v, ..a }
        } else if key == "manifest_version"@ && is_blank(a.manifest_version) {
            AnswersView { manifest_version: v, ..a }
        } else if key == "tenant"@ && is_blank(a.tenant) {
            AnswersView { tenant: v, ..a }
        } else if key == "agent_count"@ && answer_text(a.design_answers, "agent_count"@, 0) is None {
            AnswersView { design_answers: a.design_answers.push(("agent_count"@, ValueView::Text(v))), ..a }
        } else if key == "team"@ && a.team is None {
            AnswersView { team: Some(v), ..a }
        } else if key == "requested_locale"@ && a.requested_locale is None {
            AnswersView { requested_locale: Some(v), ..a }
        } else if key == "human_locale"@ && a.human_locale is None {
            AnswersView { human_locale: Some(v), ..a }
        } else if key == "worker_default_locale"@ && is_blank(a.worker_default_locale) {
            AnswersView { worker_default_locale: v, ..a }
        } else {
            a
        },
        ValueView::Json(_) => a,
    }
}

pub open spec fn apply_defaults(a: AnswersView, ds: Seq<(Seq<char>, ValueView)>) -> AnswersView
    decreases ds.len(),
{
    if ds.len() == 0 {
        a
    } else {
        let prev = apply_defaults(a, ds.drop_last());
        apply_default(prev, ds.last().0, ds.last().1)
    }
}

/// The template's identity fills a blank manifest id and display name and a
/// missing template id.
pub open spec fn with_template_identity(a: AnswersView, t: TemplateView) -> AnswersView {
    let a1 = if is_blank(a.manifest_id) {
        AnswersView { manifest_id: t.id, ..a }
    } else {
        a
    };
    let a2 = if a1.template_id is None {
        AnswersView { template_id: Some(t.id), ..a1 }
    } else {
        a1
    };
    if is_blank(a2.display_name) {
        AnswersView { display_name: t.name, ..a2 }
    } else {
        a2
    }
}

proof fn lemma_answer_text_absent(es: Seq<(Seq<char>, ValueView)>, key: Seq<char>, i: int)
    requires
        0 <= i,
        answer_text(es, key, i) is None,
    ensures
        forall|j: int| i <= j < es.len() ==> es[j].0 != key,
    decreases es.len() - i,
{
    if i < es.len() {
        lemma_answer_text_absent(es, key, i + 1);
    }
}

/// Template defaults keep a well-formed answers document well-formed.
pub proof fn lemma_apply_defaults_valid(a: AnswersView, ds: Seq<(Seq<char>, ValueView)>)
    requires
        answers_valid(a),
    ensures
        answers_valid(apply_defaults(a, ds)),
    decreases ds.len(),
{
    if ds.len() > 0 {
        lemma_apply_defaults_valid(a, ds.drop_last());
        let prev = apply_defaults(a, ds.drop_last());
        if answer_text(prev.design_answers, "agent_count"@, 0) is None {
            lemma_answer_text_absent(prev.design_answers, "agent_count"@, 0);
        }
    }
}

fn clone_value(v: &AnswerValue) -> (r: AnswerValue)
    ensures
        r@ == v@,
{
    match v {
        AnswerValue::Text(t) => AnswerValue::Text(t.clone()),
        AnswerValue::Json(j) => AnswerValue::Json(j.clone()),
    }
}

/// Fills the answers from a template: its identity where the answers leave
/// it open, then each of its text defaults in key order.
pub fn apply_template_defaults(answers: &mut AnswerDocument, template: &DigitalWorkerTemplate)
    ensures
        final(answers)@ == apply_defaults(with_template_identity(old(answers)@, template@), template@.defaults),
        answers_valid(old(answers)@) ==> answers_valid(final(answers)@),
{
    let ghost t = template@;
    if str_is_blank(answers.manifest_id.as_str()) {
        answers.manifest_id = template.id.clone();
    }
    if answers.template_id.is_none() {
        answers.template_id = Some(template.id.clone());
    }
    if str_is_blank(answers.display_name.as_str()) {
        answers.display_name = template.name.clone();
    }
    let ghost base = answers@;
    assert(base == with_template_identity(old(answers)@, t));
    let ghost ds = t.defaults;
    let mut i: usize = 0;
    assert(ds.take(0) =~= Seq::<(Seq<char>, ValueView)>::empty());
    proof {
        if answers_valid(old(answers)@) {
            assert(base.agent_answers == old(answers)@.agent_answers);
            assert(base.design_answers == old(answers)@.design_answers);
            assert(base.provider_overrides == old(answers)@.provider_overrides);
            assert(unique_keys(base.provider_overrides));
            assert(unique_keys(base.design_answers));
            assert(unique_agents(base.agent_answers));
            assert(answers_valid(base));
            lemma_apply_defaults_valid(base, ds);
        }
    }
    while i < template.defaults.len()
        invariant
            i <= template.defaults.len(),
            t == template@,
            ds == t.defaults,
            answers@ == apply_defaults(base, ds.take(i as int)),
            answers_valid(old(answers)@) ==> answers_valid(apply_defaults(base, ds)),
        decreases template.defaults.len() - i,
    {
        let entry = &template.defaults[i];
        proof {
            assert(ds.take(i + 1).drop_last() =~= ds.take(i as int));
            assert(ds.take(i + 1).last() == (entry.key@, entry.value@));
        }
        let ghost before = answers@;
        if let AnswerValue::Text(v) = &entry.value {
            let key = entry.key.as_str();
            if str_equal(key, "manifest_id") && str_is_blank(answers.manifest_id.as_str()) {
                answers.manifest_id = v.clone();
            } else if str_equal(key, "display_name") && str_is_blank(answers.display_name.as_str()) {
                answers.display_name = v.clone();
            } else if str_equal(key, "manifest_version") && str_is_blank(answers.manifest_version.as_str()) {
                answers.manifest_version = v.clone();
            } else if str_equal(key, "tenant") && str_is_blank(answers.tenant.as_str()) {
                answers.tenant = v.clone();
            } else if str_equal(key, "agent_count") && answer_text_exec(&answers.design_answers, "agent_count").is_none() {
                let ghost das = answers.design_answers@;
                answers.design_answers.push(
                    AnswerEntry { key: String::from_str("agent_count"), value: AnswerValue::Text(v.clone()) },
                );
                assert(answers_view(answers.design_answers@) =~= answers_view(das).push(
                    ("agent_count"@, ValueView::Text(v@)),
                ));
            } else if str_equal(key, "team") && answers.team.is_none() {
                answers.team = Some(v.clone());
            } else if str_equal(key, "requested_locale") && answers.requested_locale.is_none() {
                answers.requested_locale = Some(v.clone());
            } else if str_equal(key, "human_locale") && answers.human_locale.is_none() {
                answers.human_locale = Some(v.clone());
            } else if str_equal(key, "worker_default_locale") && str_is_blank(answers.worker_default_locale.as_str()) {
                answers.worker_default_locale = v.clone();
            }
        }
        proof {
            assert(answers@ == apply_default(before, entry.key@, entry.value@));
        }
        i = i + 1;
    }
    assert(ds.take(i as int) =~= ds);
}


/// The command-line values that override answers.
#[derive(Debug, PartialEq, Eq)]
pub struct WizardOverrides {
    pub manifest_id: Option<String>,
    pub display_name: Option<String>,
    pub tenant: Option<String>,
    pub team: Option<String>,
    pub requested_locale: Option<String>,
    pub human_locale: Option<String>,
    pub review_all: bool,
    /// `capability=provider` overrides, in the order given.
    pub provider_overrides: Vec<String>,
}

/// The position of the first override for a capability, if any.
pub open spec fn override_index(os: Seq<(Seq<char>, Seq<char>)>, cap: Seq<char>, i: int) -> Option<int>
    decreases os.len() - i,
{
    if i < 0 || i >= os.len() {
        None
    } else if os[i].0 == cap {
        Some(i)
    } else {
        override_index(os, cap, i + 1)
    }
}

/// Setting the provider of a capability: its entry is replaced, or added.
pub open spec fn set_override(os: Seq<(Seq<char>, Seq<char>)>, cap: Seq<char>, pid: Seq<char>) -> Seq<(Seq<char>, Seq<char>)> {
    match override_index(os, cap, 0) {
        Some(i) => os.update(i, (cap, pid)),
        None => os.push((cap, pid)),
    }
}

/// The provider overrides after the given `capability=provider` values, or
/// the first value that is not one.
pub open spec fn overrides_after(os: Seq<(Seq<char>, Seq<char>)>, values: Seq<Seq<char>>) -> (Seq<(Seq<char>, Seq<char>)>, Option<Seq<char>>)
    decreases values.len(),
{
    if values.len() == 0 {
        (os, None)
    } else {
        let prev = overrides_after(os, values.drop_last());
        if prev.1 is Some {
            prev
        } else {
            match provider_override(values.last()) {
                Some((c, p)) => (set_override(prev.0, c, p), None),
                None => (prev.0, Some(values.last())),
            }
        }
    }
}

pub open spec fn set_if_given(v: Seq<char>, o: Option<String>) -> Seq<char> {
    match o {
        Some(x) => x@,
        None => v,
    }
}

pub open spec fn set_opt_if_given(v: Option<Seq<char>>, o: Option<String>) -> Option<Seq<char>> {
    match o {
        Some(x) => Some(x@),
        None => v,
    }
}

/// The answers with the command-line values applied, before the provider
/// overrides.
pub open spec fn with_overrides(a: AnswersView, o: WizardOverrides) -> AnswersView {
    AnswersView {
        manifest_id: set_if_given(a.manifest_id, o.manifest_id),
        display_name: set_if_given(a.display_name, o.display_name),
        tenant: set_if_given(a.tenant, o.tenant),
        team: set_opt_if_given(a.team, o.team),
        requested_locale: set_opt_if_given(a.requested_locale, o.requested_locale),
        human_locale: set_opt_if_given(a.human_locale, o.human_locale),
        review_mode: if o.review_all {
            Some(DwResolutionMode::ReviewAll)
        } else {
            a.review_mode
        },
        ..a
    }
}

pub(crate) fn set_override_exec(os: &mut Vec<ProviderOverride>, cap: String, pid: String)
    ensures
        overrides_view(final(os)@) == set_override(overrides_view(old(os)@), cap@, pid@),
{
    let ghost v = overrides_view(os@);
    let mut i: usize = 0;
    while i < os.len()
        invariant
            i <= os.len(),
            v == overrides_view(os@),
            v == overrides_view(old(os)@),
            override_index(v, cap@, 0) == override_index(v, cap@, i as int),
        decreases os.len() - i,
    {
        if str_equal(os[i].capability_id.as_str(), cap.as_str()) {
            assert(v[i as int].0 == cap@);
            let ghost cv = cap@;
            let ghost pv = pid@;
            os.set(i, ProviderOverride { capability_id: cap, provider_id: pid });
            assert(overrides_view(os@) =~= v.update(i as int, (cv, pv)));
            return;
        }
        i = i + 1;
    }
    let ghost cv = cap@;
    let ghost pv = pid@;
    os.push(ProviderOverride { capability_id: cap, provider_id: pid });
    assert(overrides_view(os@) =~= v.push((cv, pv)));
}

proof fn lemma_overrides_after_unique(os: Seq<(Seq<char>, Seq<char>)>, values: Seq<Seq<char>>)
    requires
        unique_keys(os),
    ensures
        unique_keys(overrides_after(os, values).0),
    decreases values.len(),
{
    if values.len() > 0 {
        lemma_overrides_after_unique(os, values.drop_last());
        let prev = overrides_after(os, values.drop_last());
        if prev.1 is None {
            if let Some((c, p)) = provider_override(values.last()) {
                lemma_set_override_unique(prev.0, c, p);
            }
        }
    }
}

/// Command-line values keep a well-formed answers document well-formed.
pub proof fn lemma_overrides_valid(a: AnswersView, o: WizardOverrides)
    requires
        answers_valid(a),
    ensures
        answers_valid(
            AnswersView {
                provider_overrides: overrides_after(
                    with_overrides(a, o).provider_overrides,
                    strings_view(o.provider_overrides@),
                ).0,
                ..with_overrides(a, o)
            },
        ),
{
    let w = with_overrides(a, o);
    assert(w.provider_overrides == a.provider_overrides);
    assert(w.agent_answers == a.agent_answers);
    assert(w.design_answers == a.design_answers);
    lemma_overrides_after_unique(w.provider_overrides, strings_view(o.provider_overrides@));
    let f = AnswersView {
        provider_overrides: overrides_after(w.provider_overrides, strings_view(o.provider_overrides@)).0,
        ..w
    };
    assert(unique_keys(f.design_answers));
    assert(unique_agents(f.agent_answers));
}

/// Applies the command-line values to the answers; each provider override
/// sets the provider of its capability, and the first malformed one stops
/// with an error, the earlier ones applied.
pub fn apply_overrides(answers: &mut AnswerDocument, overrides: &WizardOverrides) -> (r: Result<(), CliError>)
    ensures
        ({
            let expected = overrides_after(
                with_overrides(old(answers)@, *overrides).provider_overrides,
                strings_view(overrides.provider_overrides@),
            );
            &&& final(answers)@ == (AnswersView { provider_overrides: expected.0, ..with_overrides(old(answers)@, *overrides) })
            &&& match expected.1 {
                None => r is Ok,
                Some(v) => r matches Err(CliError::InvalidProviderOverride { value }) && value@ == v,
            }
        }),
        answers_valid(old(answers)@) ==> answers_valid(final(answers)@),
{
    if let Some(v) = &overrides.manifest_id {
        answers.manifest_id = v.clone();
    }
    if let Some(v) = &overrides.display_name {
        answers.display_name = v.clone();
    }
    if let Some(v) = &overrides.tenant {
        answers.tenant = v.clone();
    }
    if let Some(v) = &overrides.team {
        answers.team = Some(v.clone());
    }
    if let Some(v) = &overrides.requested_locale {
        answers.requested_locale = Some(v.clone());
    }
    if let Some(v) = &overrides.human_locale {
        answers.human_locale = Some(v.clone());
    }
    if overrides.review_all {
        answers.review_mode = Some(DwResolutionMode::ReviewAll);
    }
    let ghost base = answers@;
    assert(base == with_overrides(old(answers)@, *overrides));
    proof {
        if answers_valid(old(answers)@) {
            assert(base.provider_overrides == old(answers)@.provider_overrides);
            assert(base.design_answers == old(answers)@.design_answers);
            assert(base.agent_answers == old(answers)@.agent_answers);
            assert(unique_keys(base.provider_overrides));
            assert(unique_keys(base.design_answers));
            assert(unique_agents(base.agent_answers));
            assert forall|k: int| 0 <= k < base.agent_answers.len() implies unique_keys(
                #[trigger] base.agent_answers[k].1,
            ) && unique_keys(base.agent_answers[k].2) by {
                assert(unique_keys(old(answers)@.agent_answers[k].1));
            }
            assert(answers_valid(base));
        }
    }
    let ghost vs = strings_view(overrides.provider_overrides@);
    let mut i: usize = 0;
    assert(vs.take(0) =~= Seq::<Seq<char>>::empty());
    while i < overrides.provider_overrides.len()
        invariant
            i <= overrides.provider_overrides.len(),
            vs == strings_view(overrides.provider_overrides@),
            base == with_overrides(old(answers)@, *overrides),
            overrides_after(base.provider_overrides, vs.take(i as int)).1 is None,
            answers@ == (AnswersView {
                provider_overrides: overrides_after(base.provider_overrides, vs.take(i as int)).0,
                ..base
            }),
            answers_valid(old(answers)@) ==> answers_valid(answers@),
        decreases overrides.provider_overrides.len() - i,
    {
        let value = &overrides.provider_overrides[i];
        proof {
            assert(vs.take(i + 1).drop_last() =~= vs.take(i as int));
            assert(vs.take(i + 1).last() == value@);
        }
        match parse_provider_override(value.as_str()) {
            Err(e) => {
                proof {
                    let prev = overrides_after(base.provider_overrides, vs.take(i as int));
                    assert(provider_override(vs.take(i + 1).last()) is None);
                    assert(overrides_after(base.provider_overrides, vs.take(i + 1)) == (prev.0, Some(value@)));
                    lemma_overrides_after_stops(base.provider_overrides, vs, i + 1);
                }
                return Err(e);
            },
            Ok((cap, pid)) => {
                let ghost prior = answers@;
                proof {
                    if answers_valid(old(answers)@) {
                        lemma_set_override_unique(prior.provider_overrides, cap@, pid@);
                    }
                }
                set_override_exec(&mut answers.provider_overrides, cap, pid);
                proof {
                    if answers_valid(old(answers)@) {
                        assert(unique_keys(answers@.provider_overrides));
                        assert(answers@.design_answers == prior.design_answers);
                        assert(answers@.agent_answers == prior.agent_answers);
                        assert(unique_keys(answers@.design_answers));
                        assert(unique_agents(answers@.agent_answers));
                    }
                }
            },
        }
        i = i + 1;
    }
    assert(vs.take(i as int) =~= vs);
    Ok(())
}

proof fn lemma_overrides_after_stops(os: Seq<(Seq<char>, Seq<char>)>, values: Seq<Seq<char>>, k: int)
    requires
        0 <= k <= values.len(),
        overrides_after(os, values.take(k)).1 is Some,
    ensures
        overrides_after(os, values) == overrides_after(os, values.take(k)),
    decreases values.len() - k,
{
    if k == values.len() {
        assert(values.take(k) =~= values);
    } else {
        assert(values.drop_last().take(k) =~= values.take(k));
        lemma_overrides_after_stops(os, values.drop_last(), k);
    }
}

/// What validation reports of the manifest built from answers `a`: the
/// first of its identity, version, tenancy and default-locale fields that is
/// blank, if any.
pub open spec fn built_manifest_check(a: AnswersView) -> Option<ManifestErrorView> {
    if is_blank(a.manifest_id) {
        Some(ManifestErrorView::EmptyId)
    } else if is_blank(a.display_name) {
        Some(ManifestErrorView::EmptyDisplayName)
    } else if is_blank(a.manifest_version) {
        Some(ManifestErrorView::EmptyWorkerVersion)
    } else if is_blank(a.tenant) {
        Some(ManifestErrorView::EmptyTenant)
    } else if a.team matches Some(t) && is_blank(t) {
        Some(ManifestErrorView::EmptyTeam)
    } else if is_blank(a.worker_default_locale) {
        Some(ManifestErrorView::EmptyDefaultLocale)
    } else {
        None
    }
}

/// The manifest the answers define: current schema version, the answers'
/// version as worker version, no capabilities, the answers' tenant with
/// their team as overridable default, and the answers' default locale,
/// preferring requested locales and propagating them to delegates. It
/// passes validation exactly when none of those answers is blank.
pub fn build_manifest(answers: &AnswerDocument) -> (r: DigitalWorkerManifest)
    ensures
        manifest_check(&r) == built_manifest_check(answers@),
        r.version@ == MANIFEST_SCHEMA_VERSION@,
        r.id@ == answers.manifest_id@,
        r.display_name@ == answers.display_name@,
        opt_string_view(r.worker_version) == Some(answers.manifest_version@),
        r.capabilities@.offers.len() == 0 && r.capabilities@.requires.len() == 0,
        r.capabilities@.consumes.len() == 0 && r.capabilities@.profiles.len() == 0,
        r.tenancy.tenant@ == answers.tenant@,
        r.tenancy.team_policy matches TeamPolicy::Optional { default_team, allow_request_override } && opt_string_view(
            default_team,
        ) == opt_string_view(answers.team) && allow_request_override,
        r.locale.worker_default_locale@ == answers.worker_default_locale@,
        r.locale.policy == WorkerLocalePolicy::PreferRequested,
        r.locale.propagation == LocalePropagation::PropagateToDelegates,
        r.locale.output == OutputLocaleGuidance::MatchRequested,
        r.deep_agent is None,
{
    let r = DigitalWorkerManifest {
        version: default_manifest_schema_version(),
        id: answers.manifest_id.clone(),
        display_name: answers.display_name.clone(),
        worker_version: Some(answers.manifest_version.clone()),
        capabilities: CapabilityDeclaration::new(),
        tenancy: TenancyContract {
            tenant: answers.tenant.clone(),
            team_policy: TeamPolicy::Optional { default_team: clone_opt_string(&answers.team), allow_request_override: true },
        },
        locale: LocaleContract {
            worker_default_locale: answers.worker_default_locale.clone(),
            policy: WorkerLocalePolicy::PreferRequested,
            propagation: LocalePropagation::PropagateToDelegates,
            output: OutputLocaleGuidance::MatchRequested,
        },
        deep_agent: None,
    };
    proof {
        reveal_strlit("0.2");
        assert(!is_ws(r.version@[0]));
        assert(declaration_check(r.capabilities@) is None);
    }
    r
}


// ---------------------------------------------------------------------------
// Choosing a template
// ---------------------------------------------------------------------------

/// A template the catalog offers.
#[derive(Debug, PartialEq, Eq)]
pub struct TemplateChoice {
    pub template_id: String,
    pub display_name: String,
}

/// One numbered line of the template menu.
pub open spec fn choice_line(i: nat, id: Seq<char>, name: Seq<char>) -> Seq<char> {
    decimal(i + 1) + ". "@ + name + " ("@ + id + ")\n"@
}

pub open spec fn choice_lines(cs: Seq<(Seq<char>, Seq<char>)>) -> Seq<char>
    decreases cs.len(),
{
    if cs.len() == 0 {
        Seq::empty()
    } else {
        choice_lines(cs.drop_last()) + choice_line((cs.len() - 1) as nat, cs.last().0, cs.last().1)
    }
}

pub open spec fn choices_view(v: Seq<TemplateChoice>) -> Seq<(Seq<char>, Seq<char>)> {
    v.map_values(|c: TemplateChoice| (c.template_id@, c.display_name@))
}

/// The template menu: a heading, a numbered line per template, and the
/// question.
pub open spec fn selection_prompt_text(cs: Seq<(Seq<char>, Seq<char>)>) -> Seq<char> {
    "Select a digital worker template:\n"@ + choice_lines(cs) + "Enter template number [1]: "@
}

/// The template menu for the catalog's templates.
pub fn template_selection_prompt(entries: &Vec<TemplateChoice>) -> (r: String)
    requires
        entries.len() < u64::MAX,
    ensures
        r@ == selection_prompt_text(choices_view(entries@)),
{
    let ghost cs = choices_view(entries@);
    let mut s = String::from_str("Select a digital worker template:\n");
    let ghost head = s@;
    let mut i: usize = 0;
    assert(cs.take(0) =~= Seq::<(Seq<char>, Seq<char>)>::empty());
    assert(s@ =~= head + choice_lines(cs.take(0)));
    while i < entries.len()
        invariant
            i <= entries.len(),
            entries.len() < u64::MAX,
            cs == choices_view(entries@),
            s@ == head + choice_lines(cs.take(i as int)),
        decreases entries.len() - i,
    {
        proof {
            assert(cs.take(i + 1).drop_last() =~= cs.take(i as int));
            assert(cs.take(i + 1).last() == (entries@[i as int].template_id@, entries@[i as int].display_name@));
        }
        let digits = u64_to_decimal(i as u64 + 1);
        s.append(digits.as_str());
        s.append(". ");
        s.append(entries[i].display_name.as_str());
        s.append(" (");
        s.append(entries[i].template_id.as_str());
        s.append(")\n");
        assert(s@ =~= head + choice_lines(cs.take(i + 1)));
        i = i + 1;
    }
    assert(cs.take(i as int) =~= cs);
    s.append("Enter template number [1]: ");
    s
}

/// The position the answer to the menu picks among `count` templates: blank
/// picks the first, a number `n` picks the `n`-th, and anything else, zero or
/// a number past the end falls back to the first.
pub open spec fn chosen_index(response: Seq<char>, count: nat) -> nat {
    let t = trimmed(response);
    let k: int = if t.len() == 0 {
        0
    } else {
        match parsed_usize(t) {
            Some(n) => if n > 0 {
                n - 1
            } else {
                0
            },
            None => 0,
        }
    };
    if k < count {
        k as nat
    } else {
        0
    }
}

/// The template the answer to the menu picks, or `None` when the catalog
/// offers none.
pub fn select_template(entries: &Vec<TemplateChoice>, response: &str) -> (r: Option<String>)
    ensures
        entries.len() == 0 ==> r is None,
        entries.len() > 0 ==> (r matches Some(id) && id@ == entries@[chosen_index(response@, entries.len() as nat) as int].template_id@),
{
    if entries.len() == 0 {
        return None;
    }
    let t = str_trim(response);
    let k: usize = if t.as_str().unicode_len() == 0 {
        0
    } else {
        match parse_usize(t.as_str()) {
            Some(n) => if n > 0 {
                n - 1
            } else {
                0
            },
            None => 0,
        }
    };
    let index = if k < entries.len() {
        k
    } else {
        0
    };
    Some(entries[index].template_id.clone())
}


// ---------------------------------------------------------------------------
// Answers scoped to one agent
// ---------------------------------------------------------------------------

/// The position of the first answer under `key`, if any.
pub open spec fn answer_index(es: Seq<(Seq<char>, ValueView)>, key: Seq<char>, i: int) -> Option<int>
    decreases es.len() - i,
{
    if i < 0 || i >= es.len() {
        None
    } else if es[i].0 == key {
        Some(i)
    } else {
        answer_index(es, key, i + 1)
    }
}

/// Setting an answer: the entry under its key is replaced, or added.
pub open spec fn set_answer(es: Seq<(Seq<char>, ValueView)>, key: Seq<char>, v: ValueView) -> Seq<(Seq<char>, ValueView)> {
    match answer_index(es, key, 0) {
        Some(i) => es.update(i, (key, v)),
        None => es.push((key, v)),
    }
}

/// The answers of `from` set one by one over `es`.
pub open spec fn set_answers(es: Seq<(Seq<char>, ValueView)>, from: Seq<(Seq<char>, ValueView)>) -> Seq<(Seq<char>, ValueView)>
    decreases from.len(),
{
    if from.len() == 0 {
        es
    } else {
        let prev = set_answers(es, from.drop_last());
        set_answer(prev, from.last().0, from.last().1)
    }
}

pub type AgentView = (Seq<char>, Seq<(Seq<char>, Seq<char>)>, Seq<(Seq<char>, ValueView)>);

pub open spec fn agent_index(agents: Seq<AgentView>, id: Seq<char>, i: int) -> Option<int>
    decreases agents.len() - i,
{
    if i < 0 || i >= agents.len() {
        None
    } else if agents[i].0 == id {
        Some(i)
    } else {
        agent_index(agents, id, i + 1)
    }
}

/// The explicit answers of an agent: under its id, else under
/// `agent-<number>`.
pub open spec fn found_agent(agents: Seq<AgentView>, id: Seq<char>) -> Option<int> {
    match agent_index(agents, id, 0) {
        Some(i) => Some(i),
        None => agent_index(agents, "agent-"@ + agent_suffix(id), 0),
    }
}

/// The answers not addressed to a particular agent.
pub open spec fn shared_answers(es: Seq<(Seq<char>, ValueView)>) -> Seq<(Seq<char>, ValueView)> {
    es.filter(unaddressed())
}

pub open spec fn unaddressed() -> spec_fn((Seq<char>, ValueView)) -> bool {
    |e: (Seq<char>, ValueView)| !has_prefix(e.0, "agent."@)
}

/// The answers addressed to the agent by number or by id, with the address
/// removed, set one by one over `es`.
pub open spec fn addressed_answers(
    es: Seq<(Seq<char>, ValueView)>,
    from: Seq<(Seq<char>, ValueView)>,
    numeric: Seq<char>,
    stable: Seq<char>,
) -> Seq<(Seq<char>, ValueView)>
    decreases from.len(),
{
    if from.len() == 0 {
        es
    } else {
        let prev = addressed_answers(es, from.drop_last(), numeric, stable);
        let (k, v) = from.last();
        if has_prefix(k, numeric) {
            set_answer(prev, k.skip(numeric.len() as int), v)
        } else if has_prefix(k, stable) {
            set_answer(prev, k.skip(stable.len() as int), v)
        } else {
            prev
        }
    }
}

/// The design answers one agent sees: the shared answers, its explicit
/// answers over them, then the answers addressed to it (`agent.<number>.`
/// or `agent.<id>.`) with the address removed.
pub open spec fn agent_design_answers(a: AnswersView, agent_id: Seq<char>) -> Seq<(Seq<char>, ValueView)> {
    let base = shared_answers(a.design_answers);
    let explicit = match found_agent(a.agent_answers, agent_id) {
        Some(i) => set_answers(base, a.agent_answers[i].2),
        None => base,
    };
    addressed_answers(
        explicit,
        a.design_answers,
        "agent."@ + agent_suffix(agent_id) + "."@,
        "agent."@ + agent_id + "."@,
    )
}

fn clone_entry(e: &AnswerEntry) -> (r: AnswerEntry)
    ensures
        r.key@ == e.key@,
        r.value@ == e.value@,
{
    AnswerEntry { key: e.key.clone(), value: clone_value(&e.value) }
}

pub(crate) fn set_answer_exec(es: &mut Vec<AnswerEntry>, key: String, value: AnswerValue)
    ensures
        answers_view(final(es)@) == set_answer(answers_view(old(es)@), key@, value@),
{
    let ghost v = answers_view(es@);
    let ghost kv = key@;
    let ghost vv = value@;
    let mut i: usize = 0;
    while i < es.len()
        invariant
            i <= es.len(),
            v == answers_view(es@),
            v == answers_view(old(es)@),
            kv == key@,
            vv == value@,
            answer_index(v, kv, 0) == answer_index(v, kv, i as int),
        decreases es.len() - i,
    {
        if str_equal(es[i].key.as_str(), key.as_str()) {
            assert(v[i as int].0 == kv);
            es.set(i, AnswerEntry { key, value });
            assert(answers_view(es@) =~= v.update(i as int, (kv, vv)));
            return;
        }
        i = i + 1;
    }
    es.push(AnswerEntry { key, value });
    assert(answers_view(es@) =~= v.push((kv, vv)));
}

pub(crate) fn find_agent_index(agents: &Vec<AgentAnswers>, id: &str) -> (r: Option<usize>)
    ensures
        match r {
            Some(i) => i < agents.len() && agent_index(agents_view(agents@), id@, 0) == Some(i as int),
            None => agent_index(agents_view(agents@), id@, 0) is None,
        },
{
    let ghost v = agents_view(agents@);
    let mut i: usize = 0;
    while i < agents.len()
        invariant
            i <= agents.len(),
            v == agents_view(agents@),
            agent_index(v, id@, 0) == agent_index(v, id@, i as int),
        decreases agents.len() - i,
    {
        if str_equal(agents[i].agent_id.as_str(), id) {
            return Some(i);
        }
        i = i + 1;
    }
    None
}

pub open spec fn agents_view(v: Seq<AgentAnswers>) -> Seq<AgentView> {
    v.map_values(
        |a: AgentAnswers| (a.agent_id@, overrides_view(a.answers.provider_overrides@), answers_view(a.answers.design_answers@)),
    )
}

/// The explicit answers of an agent, by id or by `agent-<number>`.
pub fn find_agent_answers<'a>(answers: &'a AnswerDocument, agent_id: &str) -> (r: Option<&'a AgentAnswerDocument>)
    ensures
        match found_agent(answers@.agent_answers, agent_id@) {
            Some(i) => r matches Some(d) && answers_view(d.design_answers@) == answers@.agent_answers[i].2 && overrides_view(
                d.provider_overrides@,
            ) == answers@.agent_answers[i].1,
            None => r is None,
        },
{
    assert(answers@.agent_answers == agents_view(answers.agent_answers@));
    match find_agent_index(&answers.agent_answers, agent_id) {
        Some(i) => Some(&answers.agent_answers[i].answers),
        None => {
            let mut fallback = String::from_str("agent-");
            fallback.append(agent_numeric_suffix(agent_id));
            match find_agent_index(&answers.agent_answers, fallback.as_str()) {
                Some(i) => Some(&answers.agent_answers[i].answers),
                None => None,
            }
        },
    }
}

fn agent_prefixes(agent_id: &str) -> (r: (String, String))
    ensures
        r.0@ == "agent."@ + agent_suffix(agent_id@) + "."@,
        r.1@ == "agent."@ + agent_id@ + "."@,
{
    let numeric = agent_numeric_answer_prefix(agent_id);
    let mut stable = String::from_str("agent.");
    stable.append(agent_id);
    stable.append(".");
    (numeric, stable)
}

/// The design answers one agent sees.
pub fn scoped_agent_design_answers(answers: &AnswerDocument, agent_id: &str) -> (r: Vec<AnswerEntry>)
    ensures
        answers_view(r@) == agent_design_answers(answers@, agent_id@),
{
    let ghost a = answers@;
    let ghost des = a.design_answers;
    let mut out: Vec<AnswerEntry> = Vec::new();
    let mut i: usize = 0;
    assert(des.take(0) =~= Seq::<(Seq<char>, ValueView)>::empty());
    assert(des.take(0).filter(unaddressed()) =~= Seq::<(Seq<char>, ValueView)>::empty());
    while i < answers.design_answers.len()
        invariant
            i <= answers.design_answers.len(),
            a == answers@,
            des == a.design_answers,
            answers_view(out@) == shared_answers(des.take(i as int)),
        decreases answers.design_answers.len() - i,
    {
        let e = &answers.design_answers[i];
        proof {
            assert(des.take(i + 1).drop_last() =~= des.take(i as int));
            assert(des.take(i + 1).last() == (e.key@, e.value@));
            assert(des.take(i as int).push((e.key@, e.value@)) =~= des.take(i + 1));
            des.take(i as int).lemma_filter_push((e.key@, e.value@), unaddressed());
        }
        if !str_starts_with(e.key.as_str(), "agent.") {
            let c = clone_entry(e);
            let ghost before = out@;
            out.push(c);
            assert(answers_view(out@) =~= answers_view(before).push((e.key@, e.value@)));
        }
        i = i + 1;
    }
    assert(des.take(i as int) =~= des);
    let ghost base = answers_view(out@);
    let explicit = find_agent_answers(answers, agent_id);
    match explicit {
        Some(doc) => {
            let ghost from = answers_view(doc.design_answers@);
            let mut j: usize = 0;
            assert(from.take(0) =~= Seq::<(Seq<char>, ValueView)>::empty());
            while j < doc.design_answers.len()
                invariant
                    j <= doc.design_answers.len(),
                    from == answers_view(doc.design_answers@),
                    answers_view(out@) == set_answers(base, from.take(j as int)),
                decreases doc.design_answers.len() - j,
            {
                let e = &doc.design_answers[j];
                proof {
                    assert(from.take(j + 1).drop_last() =~= from.take(j as int));
                    assert(from.take(j + 1).last() == (e.key@, e.value@));
                }
                set_answer_exec(&mut out, e.key.clone(), clone_value(&e.value));
                j = j + 1;
            }
            assert(from.take(j as int) =~= from);
        },
        None => {},
    }
    let ghost mid = answers_view(out@);
    assert(mid == match found_agent(a.agent_answers, agent_id@) {
        Some(k) => set_answers(base, a.agent_answers[k].2),
        None => base,
    });
    let (numeric, stable) = agent_prefixes(agent_id);
    let mut k: usize = 0;
    assert(des.take(0) =~= Seq::<(Seq<char>, ValueView)>::empty());
    while k < answers.design_answers.len()
        invariant
            k <= answers.design_answers.len(),
            a == answers@,
            des == a.design_answers,
            numeric@ == "agent."@ + agent_suffix(agent_id@) + "."@,
            stable@ == "agent."@ + agent_id@ + "."@,
            answers_view(out@) == addressed_answers(mid, des.take(k as int), numeric@, stable@),
        decreases answers.design_answers.len() - k,
    {
        let e = &answers.design_answers[k];
        proof {
            assert(des.take(k + 1).drop_last() =~= des.take(k as int));
            assert(des.take(k + 1).last() == (e.key@, e.value@));
        }
        let key = e.key.as_str();
        if str_starts_with(key, numeric.as_str()) {
            let n = key.unicode_len();
            let rest = key.substring_char(numeric.as_str().unicode_len(), n);
            assert(rest@ =~= e.key@.skip(numeric@.len() as int));
            set_answer_exec(&mut out, String::from_str(rest), clone_value(&e.value));
        } else if str_starts_with(key, stable.as_str()) {
            let n = key.unicode_len();
            let rest = key.substring_char(stable.as_str().unicode_len(), n);
            assert(rest@ =~= e.key@.skip(stable@.len() as int));
            set_answer_exec(&mut out, String::from_str(rest), clone_value(&e.value));
        }
        k = k + 1;
    }
    assert(des.take(k as int) =~= des);
    out
}


// ---------------------------------------------------------------------------
// Provider choices per capability
// ---------------------------------------------------------------------------

/// The provider chosen for each capability of `caps` that gets one, later
/// capabilities over earlier ones.
pub open spec fn default_overrides(t: TemplateView, es: Seq<EntryView>, caps: Seq<Seq<char>>) -> Seq<(Seq<char>, Seq<char>)>
    decreases caps.len(),
{
    if caps.len() == 0 {
        Seq::empty()
    } else {
        let prev = default_overrides(t, es, caps.drop_last());
        match selected_provider(t, es, caps.last()) {
            Some(i) => set_override(prev, caps.last(), es[i].provider_id),
            None => prev,
        }
    }
}

/// The template's recommended providers, for its required then optional
/// capabilities.
pub open spec fn template_default_overrides(t: TemplateView, es: Seq<EntryView>) -> Seq<(Seq<char>, Seq<char>)> {
    default_overrides(t, es, t.required_capabilities + t.optional_capabilities)
}

/// The overrides of `from` whose capability id is valid, set one by one.
pub open spec fn valid_overrides(os: Seq<(Seq<char>, Seq<char>)>, from: Seq<(Seq<char>, Seq<char>)>) -> Seq<(Seq<char>, Seq<char>)>
    decreases from.len(),
{
    if from.len() == 0 {
        os
    } else {
        let prev = valid_overrides(os, from.drop_last());
        if capability_id_check(from.last().0) is None {
            set_override(prev, from.last().0, from.last().1)
        } else {
            prev
        }
    }
}

/// The providers chosen for the template's capabilities with the answers'
/// own provider choices over them.
pub open spec fn selected_overrides(a: AnswersView, t: TemplateView, es: Seq<EntryView>) -> Seq<(Seq<char>, Seq<char>)> {
    valid_overrides(template_default_overrides(t, es), a.provider_overrides)
}

/// Provider answers addressed to the agent (`agent.<number>.provider.<cap>`
/// or `agent.<id>.provider.<cap>`) with a text value and a valid capability.
pub open spec fn addressed_overrides(
    os: Seq<(Seq<char>, Seq<char>)>,
    from: Seq<(Seq<char>, ValueView)>,
    numeric: Seq<char>,
    stable: Seq<char>,
) -> Seq<(Seq<char>, Seq<char>)>
    decreases from.len(),
{
    if from.len() == 0 {
        os
    } else {
        let prev = addressed_overrides(os, from.drop_last(), numeric, stable);
        let (k, v) = from.last();
        let cap = if has_prefix(k, numeric) {
            Some(k.skip(numeric.len() as int))
        } else if has_prefix(k, stable) {
            Some(k.skip(stable.len() as int))
        } else {
            None
        };
        match (cap, v) {
            (Some(c), ValueView::Text(p)) => if capability_id_check(c) is None {
                set_override(prev, c, p)
            } else {
                prev
            },
            _ => prev,
        }
    }
}

/// The providers one agent uses: none of its own when providers are shared
/// (else the selected ones), its explicit choices over them, then the
/// provider answers addressed to it.
pub open spec fn agent_provider_overrides(
    a: AnswersView,
    t: TemplateView,
    es: Seq<EntryView>,
    agent_id: Seq<char>,
    shared: bool,
) -> Seq<(Seq<char>, Seq<char>)> {
    let base = if shared {
        Seq::empty()
    } else {
        selected_overrides(a, t, es)
    };
    let explicit = match found_agent(a.agent_answers, agent_id) {
        Some(i) => valid_overrides(base, a.agent_answers[i].1),
        None => base,
    };
    addressed_overrides(
        explicit,
        a.design_answers,
        "agent."@ + agent_suffix(agent_id) + ".provider."@,
        "agent."@ + agent_id + ".provider."@,
    )
}

fn default_overrides_for(
    template: &DigitalWorkerTemplate,
    catalog: &DwProviderCatalog,
    caps: &Vec<CapabilityId>,
    out: &mut Vec<ProviderOverride>,
)
    ensures
        ({
            let t = template@;
            let es = entries_view(catalog.entries@);
            &&& forall|front: Seq<Seq<char>>|
                #![trigger default_overrides(t, es, front + caps_view(caps@))]
                default_overrides(t, es, front) == overrides_view(old(out)@) ==> default_overrides(
                    t,
                    es,
                    front + caps_view(caps@),
                ) == overrides_view(final(out)@)
        }),
{
    let ghost t = template@;
    let ghost es = entries_view(catalog.entries@);
    let ghost cv = caps_view(caps@);
    let ghost start = overrides_view(out@);
    let mut i: usize = 0;
    while i < caps.len()
        invariant
            i <= caps.len(),
            t == template@,
            es == entries_view(catalog.entries@),
            cv == caps_view(caps@),
            start == overrides_view(old(out)@),
            forall|front: Seq<Seq<char>>|
                #![trigger default_overrides(t, es, front + cv.take(i as int))]
                default_overrides(t, es, front) == start ==> default_overrides(t, es, front + cv.take(i as int))
                    == overrides_view(out@),
        decreases caps.len() - i,
    {
        let cap = &caps[i];
        let ghost before = overrides_view(out@);
        match select_provider_for_capability(template, catalog, cap) {
            Some(k) => {
                set_override_exec(out, String::from_str(cap.as_str()), catalog.entries[k].provider_id.clone());
                proof {
                    assert(es[k as int] == catalog.entries@[k as int]@);
                }
            },
            None => {},
        }
        proof {
            assert forall|front: Seq<Seq<char>>|
                #![trigger default_overrides(t, es, front + cv.take(i + 1))]
                default_overrides(t, es, front) == start implies default_overrides(t, es, front + cv.take(i + 1))
                == overrides_view(out@) by {
                assert((front + cv.take(i + 1)).drop_last() =~= front + cv.take(i as int));
                assert((front + cv.take(i + 1)).last() == cap@);
                assert(default_overrides(t, es, front + cv.take(i as int)) == before);
            }
        }
        i = i + 1;
    }
    assert(cv.take(i as int) =~= cv);
}

/// The template's recommended provider for each of its capabilities.
pub fn collect_default_provider_overrides(template: &DigitalWorkerTemplate, provider_catalog: &DwProviderCatalog) -> (r:
    Vec<ProviderOverride>)
    ensures
        overrides_view(r@) == template_default_overrides(template@, entries_view(provider_catalog.entries@)),
{
    let ghost t = template@;
    let ghost es = entries_view(provider_catalog.entries@);
    let mut out: Vec<ProviderOverride> = Vec::new();
    proof {
        let e = Seq::<Seq<char>>::empty();
        assert(overrides_view(out@) =~= Seq::<(Seq<char>, Seq<char>)>::empty());
        assert(default_overrides(t, es, e) == overrides_view(out@));
    }
    default_overrides_for(template, provider_catalog, &template.required_capabilities, &mut out);
    proof {
        let e = Seq::<Seq<char>>::empty();
        assert(e + t.required_capabilities =~= t.required_capabilities);
        assert(default_overrides(t, es, e + t.required_capabilities) == overrides_view(out@));
    }
    default_overrides_for(template, provider_catalog, &template.optional_capabilities, &mut out);
    out
}

fn valid_overrides_exec(out: &mut Vec<ProviderOverride>, from: &Vec<ProviderOverride>)
    ensures
        overrides_view(final(out)@) == valid_overrides(overrides_view(old(out)@), overrides_view(from@)),
{
    let ghost start = overrides_view(out@);
    let ghost fv = overrides_view(from@);
    let mut i: usize = 0;
    assert(fv.take(0) =~= Seq::<(Seq<char>, Seq<char>)>::empty());
    while i < from.len()
        invariant
            i <= from.len(),
            start == overrides_view(old(out)@),
            fv == overrides_view(from@),
            overrides_view(out@) == valid_overrides(start, fv.take(i as int)),
        decreases from.len() - i,
    {
        let o = &from[i];
        proof {
            assert(fv.take(i + 1).drop_last() =~= fv.take(i as int));
            assert(fv.take(i + 1).last() == (o.capability_id@, o.provider_id@));
        }
        if CapabilityId::new(o.capability_id.clone()).is_ok() {
            set_override_exec(out, o.capability_id.clone(), o.provider_id.clone());
        }
        i = i + 1;
    }
    assert(fv.take(i as int) =~= fv);
}

/// The template's recommended providers with the answers' own provider
/// choices over them.
pub fn collect_selected_provider_overrides(
    answers: &AnswerDocument,
    template: &DigitalWorkerTemplate,
    provider_catalog: &DwProviderCatalog,
) -> (r: Vec<ProviderOverride>)
    ensures
        overrides_view(r@) == selected_overrides(answers@, template@, entries_view(provider_catalog.entries@)),
{
    let mut out = collect_default_provider_overrides(template, provider_catalog);
    valid_overrides_exec(&mut out, &answers.provider_overrides);
    out
}

/// The providers one agent of the application uses.
pub fn scoped_agent_provider_overrides(
    answers: &AnswerDocument,
    template: &DigitalWorkerTemplate,
    provider_catalog: &DwProviderCatalog,
    agent_id: &str,
    use_shared_provider_overrides: bool,
) -> (r: Vec<ProviderOverride>)
    ensures
        overrides_view(r@) == agent_provider_overrides(
            answers@,
            template@,
            entries_view(provider_catalog.entries@),
            agent_id@,
            use_shared_provider_overrides,
        ),
{
    let ghost a = answers@;
    let mut out: Vec<ProviderOverride> = if use_shared_provider_overrides {
        let none: Vec<ProviderOverride> = Vec::new();
        assert(overrides_view(none@) =~= Seq::<(Seq<char>, Seq<char>)>::empty());
        none
    } else {
        collect_selected_provider_overrides(answers, template, provider_catalog)
    };
    match find_agent_answers(answers, agent_id) {
        Some(doc) => valid_overrides_exec(&mut out, &doc.provider_overrides),
        None => {},
    }
    let ghost mid = overrides_view(out@);
    let mut numeric = String::from_str("agent.");
    numeric.append(agent_numeric_suffix(agent_id));
    numeric.append(".provider.");
    let mut stable = String::from_str("agent.");
    stable.append(agent_id);
    stable.append(".provider.");
    let ghost des = a.design_answers;
    let mut k: usize = 0;
    assert(des.take(0) =~= Seq::<(Seq<char>, ValueView)>::empty());
    while k < answers.design_answers.len()
        invariant
            k <= answers.design_answers.len(),
            a == answers@,
            des == a.design_answers,
            numeric@ == "agent."@ + agent_suffix(agent_id@) + ".provider."@,
            stable@ == "agent."@ + agent_id@ + ".provider."@,
            overrides_view(out@) == addressed_overrides(mid, des.take(k as int), numeric@, stable@),
        decreases answers.design_answers.len() - k,
    {
        let e = &answers.design_answers[k];
        proof {
            assert(des.take(k + 1).drop_last() =~= des.take(k as int));
            assert(des.take(k + 1).last() == (e.key@, e.value@));
        }
        let key = e.key.as_str();
        let n = key.unicode_len();
        let cap: Option<String> = if str_starts_with(key, numeric.as_str()) {
            let rest = key.substring_char(numeric.as_str().unicode_len(), n);
            assert(rest@ =~= e.key@.skip(numeric@.len() as int));
            Some(String::from_str(rest))
        } else if str_starts_with(key, stable.as_str()) {
            let rest = key.substring_char(stable.as_str().unicode_len(), n);
            assert(rest@ =~= e.key@.skip(stable@.len() as int));
            Some(String::from_str(rest))
        } else {
            None
        };
        match (cap, &e.value) {
            (Some(c), AnswerValue::Text(p)) => {
                if CapabilityId::new(c.clone()).is_ok() {
                    set_override_exec(&mut out, c, p.clone());
                }
            },
            _ => {},
        }
        k = k + 1;
    }
    assert(des.take(k as int) =~= des);
    out
}

} // verus!
