//! What a wizard run asks the composition resolver for: one request per
//! agent of the application, with stable agent ids, each agent's design
//! answers and providers, the providers the agents share, and the review
//! mode; and which setup blocks a resolved review asks the user for.

use vstd::prelude::*;

use crate::text::{decimal, is_blank, str_equal, str_is_blank, u64_to_decimal};
use crate::wizard::{
    agent_count_of, agent_design_answers, lemma_decimal_digits, agent_provider_overrides, answers_view, collect_selected_provider_overrides,
    entries_view, overrides_view, resolved_agent_count, scoped_agent_design_answers, scoped_agent_provider_overrides,
    selected_overrides, shared_providers, uses_shared_provider_strategy, AnswerDocument, AnswerEntry, BlockView,
    DigitalWorkerTemplate, DwProviderCatalog, DwResolutionMode, DwWizardQuestionBlock, EntryView, ProviderOverride,
    QuestionSource, SourceView,
};

verus! {

/// The resolve request of one agent.
#[derive(Debug, PartialEq, Eq)]
pub struct AgentResolveRequest {
    pub agent_id: String,
    pub display_name: String,
    /// The design answers the agent sees.
    pub answers: Vec<AnswerEntry>,
    /// The providers the agent uses.
    pub provider_overrides: Vec<ProviderOverride>,
}

/// The composition request of a wizard run. Every agent is built from the
/// run's template.
#[derive(Debug, PartialEq, Eq)]
pub struct CompositionRequest {
    pub application_id: String,
    pub display_name: String,
    pub version: String,
    pub tenant: String,
    pub agents: Vec<AgentResolveRequest>,
    /// The providers all agents share, when providers are shared.
    pub shared_provider_overrides: Vec<ProviderOverride>,
    pub mode: DwResolutionMode,
}

/// The id of agent `index` (from zero) of `count`: a single agent is the
/// application itself (or `agent-1` without an application id); several
/// agents are numbered from one under the application id.
pub open spec fn agent_request_id(manifest_id: Seq<char>, count: nat, index: nat) -> Seq<char> {
    if count == 1 {
        if is_blank(manifest_id) {
            "agent-1"@
        } else {
            manifest_id
        }
    } else if is_blank(manifest_id) {
        "agent-"@ + decimal(index + 1)
    } else {
        manifest_id + ".agent-"@ + decimal(index + 1)
    }
}

/// The display name of agent `index` (from zero) of `count`.
pub open spec fn agent_request_name(display_name: Seq<char>, count: nat, index: nat) -> Seq<char> {
    if count == 1 {
        display_name
    } else {
        display_name + " "@ + decimal(index + 1)
    }
}

pub open spec fn catalog_view(c: Option<&DwProviderCatalog>) -> Seq<EntryView> {
    match c {
        Some(c) => entries_view(c.entries@),
        None => Seq::empty(),
    }
}

fn agent_id_exec(manifest_id: &String, count: usize, index: usize) -> (r: String)
    requires
        index < count,
    ensures
        r@ == agent_request_id(manifest_id@, count as nat, index as nat),
{
    let n = u64_to_decimal(index as u64 + 1);
    if count == 1 {
        if str_is_blank(manifest_id.as_str()) {
            String::from_str("agent-1")
        } else {
            manifest_id.clone()
        }
    } else if str_is_blank(manifest_id.as_str()) {
        let mut s = String::from_str("agent-");
        s.append(n.as_str());
        s
    } else {
        let mut s = manifest_id.clone();
        s.append(".agent-");
        s.append(n.as_str());
        s
    }
}

fn agent_name_exec(display_name: &String, count: usize, index: usize) -> (r: String)
    requires
        index < count,
    ensures
        r@ == agent_request_name(display_name@, count as nat, index as nat),
{
    if count == 1 {
        display_name.clone()
    } else {
        let mut s = display_name.clone();
        s.append(" ");
        let n = u64_to_decimal(index as u64 + 1);
        s.append(n.as_str());
        s
    }
}

/// Builds the composition request of a run: the application's identity,
/// one request per agent (as many as the answers ask for, when the template
/// supports several), each with the design answers and providers that agent
/// sees, the shared providers when providers are shared, and the review
/// mode (the recommended setup unless the answers say otherwise). Without a
/// provider catalog no provider is recommended.
pub fn composition_request(
    answers: &AnswerDocument,
    template: &DigitalWorkerTemplate,
    provider_catalog: Option<&DwProviderCatalog>,
) -> (r: CompositionRequest)
    ensures
        ({
            let a = answers@;
            let es = catalog_view(provider_catalog);
            let count = agent_count_of(a.design_answers, template.supports_multi_agent_app_pack) as nat;
            let shared = shared_providers(a.design_answers);
            &&& r.application_id@ == a.manifest_id
            &&& r.display_name@ == a.display_name
            &&& r.version@ == a.manifest_version
            &&& r.tenant@ == a.tenant
            &&& r.agents.len() == count
            &&& forall|i: int|
                0 <= i < count ==> {
                    let id = agent_request_id(a.manifest_id, count, i as nat);
                    &&& (#[trigger] r.agents@[i]).agent_id@ == id
                    &&& r.agents@[i].display_name@ == agent_request_name(a.display_name, count, i as nat)
                    &&& answers_view(r.agents@[i].answers@) == agent_design_answers(a, id)
                    &&& overrides_view(r.agents@[i].provider_overrides@) == agent_provider_overrides(
                        a,
                        template@,
                        es,
                        id,
                        shared,
                    )
                }
            &&& overrides_view(r.shared_provider_overrides@) == (if shared {
                selected_overrides(a, template@, es)
            } else {
                Seq::empty()
            })
            &&& r.mode == match a.review_mode {
                Some(m) => m,
                None => DwResolutionMode::Recommended,
            }
        }),
{
    let empty = DwProviderCatalog { entries: Vec::new() };
    let catalog = match provider_catalog {
        Some(c) => c,
        None => &empty,
    };
    proof {
        assert(entries_view(empty.entries@) =~= Seq::<EntryView>::empty());
    }
    let ghost es = entries_view(catalog.entries@);
    assert(es == catalog_view(provider_catalog));
    let count = resolved_agent_count(answers, template);
    let shared = uses_shared_provider_strategy(answers);
    let shared_provider_overrides = if shared {
        collect_selected_provider_overrides(answers, template, catalog)
    } else {
        let none: Vec<ProviderOverride> = Vec::new();
        assert(overrides_view(none@) =~= Seq::<(Seq<char>, Seq<char>)>::empty());
        none
    };
    let ghost a = answers@;
    let mut agents: Vec<AgentResolveRequest> = Vec::new();
    let mut i: usize = 0;
    while i < count
        invariant
            i <= count,
            a == answers@,
            es == entries_view(catalog.entries@),
            count == agent_count_of(a.design_answers, template.supports_multi_agent_app_pack),
            shared == shared_providers(a.design_answers),
            agents.len() == i,
            forall|k: int|
                0 <= k < i ==> {
                    let id = agent_request_id(a.manifest_id, count as nat, k as nat);
                    &&& (#[trigger] agents@[k]).agent_id@ == id
                    &&& agents@[k].display_name@ == agent_request_name(a.display_name, count as nat, k as nat)
                    &&& answers_view(agents@[k].answers@) == agent_design_answers(a, id)
                    &&& overrides_view(agents@[k].provider_overrides@) == agent_provider_overrides(
                        a,
                        template@,
                        es,
                        id,
                        shared,
                    )
                },
        decreases count - i,
    {
        let agent_id = agent_id_exec(&answers.manifest_id, count, i);
        let display_name = agent_name_exec(&answers.display_name, count, i);
        let agent_answers = scoped_agent_design_answers(answers, agent_id.as_str());
        let provider_overrides = scoped_agent_provider_overrides(answers, template, catalog, agent_id.as_str(), shared);
        agents.push(AgentResolveRequest { agent_id, display_name, answers: agent_answers, provider_overrides });
        i = i + 1;
    }
    CompositionRequest {
        application_id: answers.manifest_id.clone(),
        display_name: answers.display_name.clone(),
        version: answers.manifest_version.clone(),
        tenant: answers.tenant.clone(),
        agents,
        shared_provider_overrides,
        mode: match answers.review_mode {
            Some(m) => m,
            None => DwResolutionMode::Recommended,
        },
    }
}

/// Decimal renderings of different numbers differ.
proof fn lemma_decimal_injective(m: nat, n: nat)
    requires
        decimal(m) == decimal(n),
    ensures
        m == n,
{
    lemma_decimal_digits(m);
    lemma_decimal_digits(n);
}

/// The agents of an application get pairwise different ids.
pub proof fn law_agent_ids_distinct(manifest_id: Seq<char>, count: nat, i: nat, j: nat)
    requires
        i < count,
        j < count,
        i != j,
    ensures
        agent_request_id(manifest_id, count, i) != agent_request_id(manifest_id, count, j),
{
    let (x, y) = (agent_request_id(manifest_id, count, i), agent_request_id(manifest_id, count, j));
    let p = if is_blank(manifest_id) {
        "agent-"@
    } else {
        manifest_id + ".agent-"@
    };
    if x == y {
        assert(x == p + decimal(i + 1));
        assert(y == p + decimal(j + 1));
        assert(x.skip(p.len() as int) =~= decimal(i + 1));
        assert(y.skip(p.len() as int) =~= decimal(j + 1));
        lemma_decimal_injective(i + 1, j + 1);
    }
}

// ---------------------------------------------------------------------------
// Setup blocks a review asks for
// ---------------------------------------------------------------------------

/// A setup requirement of a resolved review, as far as the wizard reads it:
/// the question block it names and the provider it concerns, if any.
#[derive(Debug, PartialEq, Eq)]
pub struct SetupRequirement {
    pub question_block_id: Option<String>,
    pub provider_id: Option<String>,
}

pub open spec fn opt_view(o: Option<String>) -> Option<Seq<char>> {
    match o {
        Some(s) => Some(s@),
        None => None,
    }
}

/// Whether a requirement asks for a block: it names the block, or the block
/// comes from the provider the requirement concerns.
pub open spec fn requirement_asks(q: &SetupRequirement, b: BlockView) -> bool {
    ||| opt_view(q.question_block_id) == Some(b.block_id)
    ||| (b.source matches SourceView::Provider { provider_id } && opt_view(q.provider_id) == Some(provider_id))
}

/// Whether some setup requirement of a review asks for the block.
pub fn setup_block_is_required(block: &DwWizardQuestionBlock, setup_requirements: &Vec<SetupRequirement>) -> (r: bool)
    ensures
        r == exists|i: int| 0 <= i < setup_requirements.len() && requirement_asks(#[trigger] &setup_requirements@[i], block@),
{
    let mut i: usize = 0;
    while i < setup_requirements.len()
        invariant
            i <= setup_requirements.len(),
            forall|k: int| 0 <= k < i ==> !requirement_asks(#[trigger] &setup_requirements@[k], block@),
        decreases setup_requirements.len() - i,
    {
        let q = &setup_requirements[i];
        let by_id = match &q.question_block_id {
            Some(id) => str_equal(id.as_str(), block.block_id.as_str()),
            None => false,
        };
        let by_provider = match (&block.source, &q.provider_id) {
            (QuestionSource::Provider { provider_id }, Some(required)) => str_equal(provider_id.as_str(), required.as_str()),
            _ => false,
        };
        if by_id || by_provider {
            assert(requirement_asks(&setup_requirements@[i as int], block@));
            return true;
        }
        i = i + 1;
    }
    false
}

} // verus!
