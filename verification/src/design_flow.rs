//! The interactive design questions of the wizard, one at a time: which
//! question a visible design block puts to the user given the answers so
//! far, and how the user's response is recorded in the answers.
//!
//! A run asks the review-mode question first (when the answers have no review
//! mode), then walks the visible design blocks twice: once for the topology
//! questions (agent count and provider strategy), and once, after the blocks
//! have been expanded per agent, for provider overrides and design answers.
//! The caller asks each question and hands the response back.

use vstd::prelude::*;

use crate::cli::{agent_numeric_answer_prefix, agent_suffix, capability_id_from_selection_path, selection_capability};
use crate::delegation::{eq_ignore_ascii, str_eq_ignore_ascii_case};
use crate::text::{has_prefix, str_equal, str_starts_with, str_trim, trimmed};
use crate::wizard::{
    answers_valid, lemma_agent_index_facts, lemma_set_answer_unique, lemma_set_override_unique, unique_agents,
    unique_keys, agent_count_of, blocks_view, resolve_visible_blocks_for_output, shared_providers, visible_for_output, agent_index, agents_view, answer_index, answers_view, find_agent_index, overrides_view, override_index, set_answer,
    set_answer_exec, set_override, set_override_exec,
    AgentAnswerDocument, AgentAnswers, AgentView, AnswerDocument, AnswerEntry, AnswerValue, AnswersView, BlockView,
    DigitalWorkerTemplate, DwResolutionMode, DwWizardQuestionBlock, ProviderOverride, QuestionScope, QuestionSource,
    ScopeView, SourceView, ValueView,
};

verus! {

/// The question asked when the answers do not say how much to review.
pub const REVIEW_MODE_PROMPT: &'static str = "Use the recommended setup and only answer required questions? [Y/n]: ";

/// Path of the block that asks for the agent topology.
pub const TOPOLOGY_PATH: &'static str = "core.agent.topology";

// ---------------------------------------------------------------------------
// The review mode
// ---------------------------------------------------------------------------

/// Whether a response turns the recommended setup down: `n` or `no`, in any
/// case, surrounding whitespace ignored.
pub open spec fn declines_recommended(response: Seq<char>) -> bool {
    eq_ignore_ascii(trimmed(response), "n"@) || eq_ignore_ascii(trimmed(response), "no"@)
}

/// The review mode a response to the review-mode question picks.
pub open spec fn review_mode_of(response: Seq<char>) -> DwResolutionMode {
    if declines_recommended(response) {
        DwResolutionMode::ReviewAll
    } else {
        DwResolutionMode::Recommended
    }
}

/// The review-mode question, when the answers have no review mode yet.
pub fn review_mode_prompt(answers: &AnswerDocument) -> (r: Option<&'static str>)
    ensures
        match r {
            Some(p) => answers@.review_mode is None && p@ == REVIEW_MODE_PROMPT@,
            None => answers@.review_mode is Some,
        },
{
    if answers.review_mode.is_none() {
        Some(REVIEW_MODE_PROMPT)
    } else {
        None
    }
}

/// The review mode a response to the review-mode question picks: every
/// question when the recommended setup is turned down, the recommended
/// setup otherwise.
pub fn review_mode_from_response(response: &str) -> (r: DwResolutionMode)
    ensures
        r == (if declines_recommended(response@) {
            DwResolutionMode::ReviewAll
        } else {
            DwResolutionMode::Recommended
        }),
{
    let t = str_trim(response);
    if str_eq_ignore_ascii_case(t.as_str(), "n") || str_eq_ignore_ascii_case(t.as_str(), "no") {
        DwResolutionMode::ReviewAll
    } else {
        DwResolutionMode::Recommended
    }
}

// ---------------------------------------------------------------------------
// Questions
// ---------------------------------------------------------------------------

/// What a design question asks, and so where its answer goes.
#[derive(Debug, PartialEq, Eq)]
pub enum DesignQuestion {
    /// Whether to take the recommended setup or review every question.
    ReviewMode,
    /// How many agents the application has.
    AgentCount,
    /// Whether the agents share their providers.
    ProviderStrategy,
    /// The provider of a capability, for the application or for one agent.
    ProviderOverride { capability_id: String, agent_id: Option<String> },
    /// A design answer, possibly addressed to one agent.
    Answer { answer_key: String, agent_id: Option<String> },
}

pub enum QuestionView {
    ReviewMode,
    AgentCount,
    ProviderStrategy,
    ProviderOverride { capability_id: Seq<char>, agent_id: Option<Seq<char>> },
    Answer { answer_key: Seq<char>, agent_id: Option<Seq<char>> },
}

impl View for DesignQuestion {
    type V = QuestionView;

    open spec fn view(&self) -> QuestionView {
        match self {
            DesignQuestion::ReviewMode => QuestionView::ReviewMode,
            DesignQuestion::AgentCount => QuestionView::AgentCount,
            DesignQuestion::ProviderStrategy => QuestionView::ProviderStrategy,
            DesignQuestion::ProviderOverride { capability_id, agent_id } => QuestionView::ProviderOverride {
                capability_id: capability_id@,
                agent_id: match agent_id {
                    Some(a) => Some(a@),
                    None => None,
                },
            },
            DesignQuestion::Answer { answer_key, agent_id } => QuestionView::Answer {
                answer_key: answer_key@,
                agent_id: match agent_id {
                    Some(a) => Some(a@),
                    None => None,
                },
            },
        }
    }
}

/// A question to put to the user: what it asks and the prompt text.
#[derive(Debug, PartialEq, Eq)]
pub struct DesignPrompt {
    pub question: DesignQuestion,
    pub prompt: String,
}

pub open spec fn prompt_or(p: Option<Seq<char>>, default: Seq<char>) -> Seq<char> {
    match p {
        Some(t) => t,
        None => default,
    }
}

pub open spec fn has_answer(es: Seq<(Seq<char>, ValueView)>, key: Seq<char>) -> bool {
    answer_index(es, key, 0) is Some
}

pub open spec fn has_override(os: Seq<(Seq<char>, Seq<char>)>, cap: Seq<char>) -> bool {
    override_index(os, cap, 0) is Some
}

/// The topology question of a visible design block, if it asks one that is
/// still open: the agent count (only for templates that support multi-agent
/// applications) or the provider strategy.
pub open spec fn topology_question(b: BlockView, a: AnswersView, multi_agent: bool) -> Option<(QuestionView, Seq<char>)> {
    if b.path == TOPOLOGY_PATH@ && !has_answer(a.design_answers, "agent_count"@) && multi_agent {
        Some((QuestionView::AgentCount, prompt_or(b.prompt, "Enter agent count [1]: "@)))
    } else if b.answer_key == Some("provider_strategy"@) && !has_answer(a.design_answers, "provider_strategy"@) {
        Some((QuestionView::ProviderStrategy, prompt_or(b.prompt, "Use shared providers across agents? [Y/n]: "@)))
    } else {
        None
    }
}

/// The agent a provider block is scoped to.
pub open spec fn provider_scope_agent(s: ScopeView) -> Option<Seq<char>> {
    match s {
        ScopeView::Provider { agent_id, .. } => agent_id,
        _ => None,
    }
}

/// The agent an answer block is scoped to.
pub open spec fn answer_scope_agent(s: ScopeView) -> Option<Seq<char>> {
    match s {
        ScopeView::Agent { agent_id } => agent_id,
        ScopeView::Provider { agent_id, .. } => agent_id,
        _ => None,
    }
}

pub open spec fn override_prompt_text(capability_id: Seq<char>, provider_id: Seq<char>) -> Seq<char> {
    "Provider override for "@ + capability_id + " (Enter to keep "@ + provider_id + "): "@
}

/// The design question of a visible block after expansion per agent, if it
/// asks one that is still open. Topology blocks ask nothing here. A provider
/// selection block offers to override its recommended provider for its
/// capability (its answer key, else the capability its path names), unless
/// that capability already has a provider (for the application) or an
/// answer (for an agent). Any other block with an answer key asks for that
/// answer unless it is given.
pub open spec fn design_question(b: BlockView, a: AnswersView) -> Option<(QuestionView, Seq<char>)> {
    if b.path == TOPOLOGY_PATH@ || b.answer_key == Some("provider_strategy"@) {
        None
    } else if has_prefix(b.block_id, "provider.select."@) {
        match b.source {
            SourceView::Provider { provider_id } => {
                let cap = match b.answer_key {
                    Some(k) => Some(k),
                    None => selection_capability(b.path),
                };
                match cap {
                    None => None,
                    Some(c) => {
                        let agent = provider_scope_agent(b.scope);
                        if agent is None && has_override(a.provider_overrides, c) {
                            None
                        } else if agent is Some && has_answer(a.design_answers, c) {
                            None
                        } else {
                            Some(
                                (
                                    QuestionView::ProviderOverride { capability_id: c, agent_id: agent },
                                    prompt_or(b.prompt, override_prompt_text(c, provider_id)),
                                ),
                            )
                        }
                    },
                }
            },
            _ => None,
        }
    } else {
        match b.answer_key {
            Some(k) => if has_answer(a.design_answers, k) {
                None
            } else {
                Some(
                    (
                        QuestionView::Answer { answer_key: k, agent_id: answer_scope_agent(b.scope) },
                        prompt_or(b.prompt, "Enter value for "@ + k + ": "@),
                    ),
                )
            },
            None => None,
        }
    }
}

pub open spec fn prompt_view(r: Option<DesignPrompt>) -> Option<(QuestionView, Seq<char>)> {
    match r {
        Some(p) => Some((p.question@, p.prompt@)),
        None => None,
    }
}

fn answer_position(es: &Vec<AnswerEntry>, key: &str) -> (r: bool)
    ensures
        r == has_answer(answers_view(es@), key@),
{
    let ghost v = answers_view(es@);
    let mut i: usize = 0;
    while i < es.len()
        invariant
            i <= es.len(),
            v == answers_view(es@),
            answer_index(v, key@, 0) == answer_index(v, key@, i as int),
        decreases es.len() - i,
    {
        if str_equal(es[i].key.as_str(), key) {
            return true;
        }
        i = i + 1;
    }
    false
}

fn override_position(os: &Vec<ProviderOverride>, cap: &str) -> (r: bool)
    ensures
        r == has_override(overrides_view(os@), cap@),
{
    let ghost v = overrides_view(os@);
    let mut i: usize = 0;
    while i < os.len()
        invariant
            i <= os.len(),
            v == overrides_view(os@),
            override_index(v, cap@, 0) == override_index(v, cap@, i as int),
        decreases os.len() - i,
    {
        if str_equal(os[i].capability_id.as_str(), cap) {
            return true;
        }
        i = i + 1;
    }
    false
}

fn prompt_or_exec(p: &Option<String>, default: &str) -> (r: String)
    ensures
        r@ == prompt_or(
            match p {
                Some(t) => Some(t@),
                None => None,
            },
            default@,
        ),
{
    match p {
        Some(t) => t.clone(),
        None => String::from_str(default),
    }
}

fn clone_opt(o: &Option<String>) -> (r: Option<String>)
    ensures
        match r {
            Some(t) => o matches Some(u) && t@ == u@,
            None => o is None,
        },
{
    match o {
        Some(t) => Some(t.clone()),
        None => None,
    }
}

/// The topology question a visible design block asks, if still open.
pub fn topology_prompt(block: &DwWizardQuestionBlock, answers: &AnswerDocument, template: &DigitalWorkerTemplate) -> (r:
    Option<DesignPrompt>)
    ensures
        prompt_view(r) == topology_question(block@, answers@, template.supports_multi_agent_app_pack),
{
    if str_equal(block.path.as_str(), TOPOLOGY_PATH) && !answer_position(&answers.design_answers, "agent_count")
        && template.supports_multi_agent_app_pack {
        return Some(
            DesignPrompt {
                question: DesignQuestion::AgentCount,
                prompt: prompt_or_exec(&block.prompt, "Enter agent count [1]: "),
            },
        );
    }
    let strategy_key = match &block.answer_key {
        Some(k) => str_equal(k.as_str(), "provider_strategy"),
        None => false,
    };
    if strategy_key && !answer_position(&answers.design_answers, "provider_strategy") {
        return Some(
            DesignPrompt {
                question: DesignQuestion::ProviderStrategy,
                prompt: prompt_or_exec(&block.prompt, "Use shared providers across agents? [Y/n]: "),
            },
        );
    }
    None
}

fn provider_agent_exec(s: &QuestionScope) -> (r: Option<String>)
    ensures
        match r {
            Some(t) => provider_scope_agent(s@) == Some(t@),
            None => provider_scope_agent(s@) is None,
        },
{
    match s {
        QuestionScope::Provider { agent_id, .. } => clone_opt(agent_id),
        _ => None,
    }
}

fn answer_agent_exec(s: &QuestionScope) -> (r: Option<String>)
    ensures
        match r {
            Some(t) => answer_scope_agent(s@) == Some(t@),
            None => answer_scope_agent(s@) is None,
        },
{
    match s {
        QuestionScope::Agent { agent_id } => clone_opt(agent_id),
        QuestionScope::Provider { agent_id, .. } => clone_opt(agent_id),
        _ => None,
    }
}

/// The design question a visible block asks after expansion per agent, if
/// still open.
pub fn design_prompt(block: &DwWizardQuestionBlock, answers: &AnswerDocument) -> (r: Option<DesignPrompt>)
    ensures
        prompt_view(r) == design_question(block@, answers@),
{
    let strategy_key = match &block.answer_key {
        Some(k) => str_equal(k.as_str(), "provider_strategy"),
        None => false,
    };
    if str_equal(block.path.as_str(), TOPOLOGY_PATH) || strategy_key {
        return None;
    }
    if str_starts_with(block.block_id.as_str(), "provider.select.") {
        let provider_id = match &block.source {
            QuestionSource::Provider { provider_id } => provider_id,
            _ => {
                return None;
            },
        };
        let cap = match &block.answer_key {
            Some(k) => k.clone(),
            None => match capability_id_from_selection_path(block.path.as_str()) {
                Some(c) => c,
                None => {
                    return None;
                },
            },
        };
        let agent = provider_agent_exec(&block.scope);
        if agent.is_none() && override_position(&answers.provider_overrides, cap.as_str()) {
            return None;
        }
        if agent.is_some() && answer_position(&answers.design_answers, cap.as_str()) {
            return None;
        }
        let prompt = match &block.prompt {
            Some(p) => p.clone(),
            None => {
                let mut s = String::from_str("Provider override for ");
                s.append(cap.as_str());
                s.append(" (Enter to keep ");
                s.append(provider_id.as_str());
                s.append("): ");
                s
            },
        };
        return Some(DesignPrompt { question: DesignQuestion::ProviderOverride { capability_id: cap, agent_id: agent }, prompt });
    }
    match &block.answer_key {
        Some(k) => {
            if answer_position(&answers.design_answers, k.as_str()) {
                None
            } else {
                let prompt = match &block.prompt {
                    Some(p) => p.clone(),
                    None => {
                        let mut s = String::from_str("Enter value for ");
                        s.append(k.as_str());
                        s.append(": ");
                        s
                    },
                };
                Some(
                    DesignPrompt {
                        question: DesignQuestion::Answer { answer_key: k.clone(), agent_id: answer_agent_exec(&block.scope) },
                        prompt,
                    },
                )
            }
        },
        None => None,
    }
}


// ---------------------------------------------------------------------------
// Recording responses
// ---------------------------------------------------------------------------

/// `s` with every leading repetition of `p` removed.
pub open spec fn strip_leading(s: Seq<char>, p: Seq<char>) -> Seq<char>
    decreases s.len(),
{
    if p.len() > 0 && has_prefix(s, p) {
        strip_leading(s.skip(p.len() as int), p)
    } else {
        s
    }
}

/// The address of an agent's answers by its number: `agent.<number>.`.
pub open spec fn numeric_address(agent_id: Seq<char>) -> Seq<char> {
    "agent."@ + agent_suffix(agent_id) + "."@
}

/// The address of an agent's answers by its id: `agent.<id>.`.
pub open spec fn stable_address(agent_id: Seq<char>) -> Seq<char> {
    "agent."@ + agent_id + "."@
}

/// The agents with `id` among them: unchanged when it is there, else with a
/// new agent without answers at the end.
pub open spec fn with_agent(agents: Seq<AgentView>, id: Seq<char>) -> Seq<AgentView> {
    match agent_index(agents, id, 0) {
        Some(_) => agents,
        None => agents.push((id, Seq::empty(), Seq::empty())),
    }
}

/// The position of the agent `id` in `with_agent(agents, id)`.
pub open spec fn agent_slot(agents: Seq<AgentView>, id: Seq<char>) -> int {
    match agent_index(agents, id, 0) {
        Some(i) => i,
        None => agents.len() as int,
    }
}

/// The agents with the provider of a capability set for agent `id`.
pub open spec fn agent_override_set(agents: Seq<AgentView>, id: Seq<char>, cap: Seq<char>, pid: Seq<char>) -> Seq<AgentView> {
    let xs = with_agent(agents, id);
    let k = agent_slot(agents, id);
    xs.update(k, (xs[k].0, set_override(xs[k].1, cap, pid), xs[k].2))
}

/// The agents with a design answer set for agent `id`.
pub open spec fn agent_answer_set(agents: Seq<AgentView>, id: Seq<char>, key: Seq<char>, v: ValueView) -> Seq<AgentView> {
    let xs = with_agent(agents, id);
    let k = agent_slot(agents, id);
    xs.update(k, (xs[k].0, xs[k].1, set_answer(xs[k].2, key, v)))
}

/// The answers after the user responded to a question. The review-mode
/// question sets the review mode the response picks. For the others the
/// response is trimmed, and an empty response changes nothing. An agent count of `1`
/// changes nothing either. A provider override for the application sets the
/// capability's provider; one for an agent sets the provider in that agent's
/// answers (under the capability without the agent's address) and records
/// the response as a design answer under the addressed key. A design answer
/// is recorded under its key and, for an agent, also in that agent's answers
/// under the key without the agent's address.
pub open spec fn recorded_answer(a: AnswersView, q: QuestionView, response: Seq<char>) -> AnswersView {
    let t = trimmed(response);
    if q is ReviewMode {
        AnswersView { review_mode: Some(review_mode_of(response)), ..a }
    } else if t.len() == 0 {
        a
    } else {
        match q {
            QuestionView::ReviewMode => a,
            QuestionView::AgentCount => if t == "1"@ {
                a
            } else {
                AnswersView { design_answers: set_answer(a.design_answers, "agent_count"@, ValueView::Text(t)), ..a }
            },
            QuestionView::ProviderStrategy => AnswersView {
                design_answers: set_answer(a.design_answers, "provider_strategy"@, ValueView::Text(t)),
                ..a
            },
            QuestionView::ProviderOverride { capability_id, agent_id } => match agent_id {
                None => AnswersView { provider_overrides: set_override(a.provider_overrides, capability_id, t), ..a },
                Some(id) => AnswersView {
                    agent_answers: agent_override_set(
                        a.agent_answers,
                        id,
                        strip_leading(
                            strip_leading(capability_id, numeric_address(id) + "provider."@),
                            stable_address(id) + "provider."@,
                        ),
                        t,
                    ),
                    design_answers: set_answer(a.design_answers, capability_id, ValueView::Text(t)),
                    ..a
                },
            },
            QuestionView::Answer { answer_key, agent_id } => match agent_id {
                None => AnswersView { design_answers: set_answer(a.design_answers, answer_key, ValueView::Text(t)), ..a },
                Some(id) => AnswersView {
                    agent_answers: agent_answer_set(
                        a.agent_answers,
                        id,
                        strip_leading(strip_leading(answer_key, numeric_address(id)), stable_address(id)),
                        ValueView::Text(t),
                    ),
                    design_answers: set_answer(a.design_answers, answer_key, ValueView::Text(t)),
                    ..a
                },
            },
        }
    }
}

proof fn lemma_with_agent_valid(a: AnswersView, id: Seq<char>)
    requires
        answers_valid(a),
    ensures
        unique_agents(with_agent(a.agent_answers, id)),
        0 <= agent_slot(a.agent_answers, id) < with_agent(a.agent_answers, id).len(),
        with_agent(a.agent_answers, id)[agent_slot(a.agent_answers, id)].0 == id,
        forall|k: int|
            0 <= k < with_agent(a.agent_answers, id).len() ==> unique_keys(
                #[trigger] with_agent(a.agent_answers, id)[k].1,
            ) && unique_keys(with_agent(a.agent_answers, id)[k].2),
{
    let agents = a.agent_answers;
    lemma_agent_index_facts(agents, id, 0);
    let xs = with_agent(agents, id);
    assert forall|k: int| 0 <= k < xs.len() implies unique_keys(#[trigger] xs[k].1) && unique_keys(xs[k].2) by {
        if k < agents.len() {
            assert(xs[k] == agents[k]);
            assert(unique_keys(agents[k].1));
        }
    }
}

/// Recording a response keeps a well-formed answers document well-formed.
pub proof fn lemma_recorded_valid(a: AnswersView, q: QuestionView, response: Seq<char>)
    requires
        answers_valid(a),
    ensures
        answers_valid(recorded_answer(a, q, response)),
{
    let t = trimmed(response);
    let r = recorded_answer(a, q, response);
    if !(q is ReviewMode) && t.len() > 0 {
        match q {
            QuestionView::AgentCount => {
                lemma_set_answer_unique(a.design_answers, "agent_count"@, ValueView::Text(t));
            },
            QuestionView::ProviderStrategy => {
                lemma_set_answer_unique(a.design_answers, "provider_strategy"@, ValueView::Text(t));
            },
            QuestionView::ProviderOverride { capability_id, agent_id } => match agent_id {
                None => {
                    lemma_set_override_unique(a.provider_overrides, capability_id, t);
                },
                Some(id) => {
                    lemma_set_answer_unique(a.design_answers, capability_id, ValueView::Text(t));
                    lemma_with_agent_valid(a, id);
                    let xs = with_agent(a.agent_answers, id);
                    let k = agent_slot(a.agent_answers, id);
                    let cap = strip_leading(
                        strip_leading(capability_id, numeric_address(id) + "provider."@),
                        stable_address(id) + "provider."@,
                    );
                    lemma_set_override_unique(xs[k].1, cap, t);
                    let ys = r.agent_answers;
                    assert forall|j: int| 0 <= j < ys.len() implies unique_keys(#[trigger] ys[j].1) && unique_keys(
                        ys[j].2,
                    ) by {
                        if j != k {
                            assert(ys[j] == xs[j]);
                        }
                    }
                },
            },
            QuestionView::Answer { answer_key, agent_id } => match agent_id {
                None => {
                    lemma_set_answer_unique(a.design_answers, answer_key, ValueView::Text(t));
                },
                Some(id) => {
                    lemma_set_answer_unique(a.design_answers, answer_key, ValueView::Text(t));
                    lemma_with_agent_valid(a, id);
                    let xs = with_agent(a.agent_answers, id);
                    let k = agent_slot(a.agent_answers, id);
                    let key = strip_leading(strip_leading(answer_key, numeric_address(id)), stable_address(id));
                    lemma_set_answer_unique(xs[k].2, key, ValueView::Text(t));
                    let ys = r.agent_answers;
                    assert forall|j: int| 0 <= j < ys.len() implies unique_keys(#[trigger] ys[j].1) && unique_keys(
                        ys[j].2,
                    ) by {
                        if j != k {
                            assert(ys[j] == xs[j]);
                        }
                    }
                },
            },
            _ => {},
        }
    }
}

/// `s` with every leading repetition of `p` removed, as a new string.
fn strip_leading_exec(s: &str, p: &str) -> (r: String)
    ensures
        r@ == strip_leading(s@, p@),
{
    let n = s.unicode_len();
    let m = p.unicode_len();
    if m == 0 {
        return String::from_str(s);
    }
    let mut i: usize = 0;
    proof {
        assert(s@.skip(0) =~= s@);
    }
    loop
        invariant
            i <= n,
            n == s@.len(),
            m == p@.len(),
            m > 0,
            strip_leading(s@, p@) == strip_leading(s@.skip(i as int), p@),
        decreases n - i,
    {
        let rest = s.substring_char(i, n);
        proof {
            assert(rest@ =~= s@.skip(i as int));
        }
        if !str_starts_with(rest, p) {
            return String::from_str(rest);
        }
        proof {
            assert(s@.skip(i as int).skip(m as int) =~= s@.skip(i + m));
        }
        i = i + m;
    }
}

/// Makes sure agent `id` has an entry in the answers; returns its position.
fn agent_entry(agents: &mut Vec<AgentAnswers>, id: &str) -> (k: usize)
    ensures
        agents_view(final(agents)@) == with_agent(agents_view(old(agents)@), id@),
        k == agent_slot(agents_view(old(agents)@), id@),
        k < final(agents).len(),
{
    match find_agent_index(agents, id) {
        Some(i) => i,
        None => {
            let ghost v = agents_view(agents@);
            agents.push(
                AgentAnswers {
                    agent_id: String::from_str(id),
                    answers: AgentAnswerDocument { provider_overrides: Vec::new(), design_answers: Vec::new() },
                },
            );
            proof {
                assert(overrides_view(Seq::<ProviderOverride>::empty()) =~= Seq::empty());
                assert(answers_view(Seq::<AnswerEntry>::empty()) =~= Seq::empty());
                assert(agents_view(agents@) =~= v.push((id@, Seq::empty(), Seq::empty())));
            }
            agents.len() - 1
        },
    }
}

fn set_agent_override(agents: &mut Vec<AgentAnswers>, id: &str, cap: String, pid: String)
    ensures
        agents_view(final(agents)@) == agent_override_set(agents_view(old(agents)@), id@, cap@, pid@),
{
    let k = agent_entry(agents, id);
    let ghost xs = agents_view(agents@);
    let mut agent = agents.remove(k);
    set_override_exec(&mut agent.answers.provider_overrides, cap, pid);
    agents.insert(k, agent);
    proof {
        assert(agents_view(agents@) =~= xs.update(k as int, (xs[k as int].0, set_override(xs[k as int].1, cap@, pid@), xs[k as int].2)));
    }
}

fn set_agent_answer(agents: &mut Vec<AgentAnswers>, id: &str, key: String, value: AnswerValue)
    ensures
        agents_view(final(agents)@) == agent_answer_set(agents_view(old(agents)@), id@, key@, value@),
{
    let k = agent_entry(agents, id);
    let ghost xs = agents_view(agents@);
    let ghost kv = key@;
    let ghost vv = value@;
    let mut agent = agents.remove(k);
    set_answer_exec(&mut agent.answers.design_answers, key, value);
    agents.insert(k, agent);
    proof {
        assert(agents_view(agents@) =~= xs.update(k as int, (xs[k as int].0, xs[k as int].1, set_answer(xs[k as int].2, kv, vv))));
    }
}

/// Records the user's response to a design question in the answers.
pub fn record_design_answer(answers: &mut AnswerDocument, question: &DesignQuestion, response: &str)
    ensures
        final(answers)@ == recorded_answer(old(answers)@, question@, response@),
        answers_valid(old(answers)@) ==> answers_valid(final(answers)@),
{
    proof {
        if answers_valid(old(answers)@) {
            lemma_recorded_valid(old(answers)@, question@, response@);
        }
    }
    if let DesignQuestion::ReviewMode = question {
        answers.review_mode = Some(review_mode_from_response(response));
        return;
    }
    let t = str_trim(response);
    if t.unicode_len() == 0 {
        return;
    }
    match question {
        DesignQuestion::ReviewMode => {},
        DesignQuestion::AgentCount => {
            if !str_equal(t.as_str(), "1") {
                set_answer_exec(&mut answers.design_answers, String::from_str("agent_count"), AnswerValue::Text(t));
            }
        },
        DesignQuestion::ProviderStrategy => {
            set_answer_exec(&mut answers.design_answers, String::from_str("provider_strategy"), AnswerValue::Text(t));
        },
        DesignQuestion::ProviderOverride { capability_id, agent_id } => match agent_id {
            None => {
                set_override_exec(&mut answers.provider_overrides, capability_id.clone(), t);
            },
            Some(id) => {
                let mut numeric = agent_numeric_answer_prefix(id.as_str());
                numeric.append("provider.");
                let mut stable = String::from_str("agent.");
                stable.append(id.as_str());
                stable.append(".");
                stable.append("provider.");
                let once = strip_leading_exec(capability_id.as_str(), numeric.as_str());
                let cap = strip_leading_exec(once.as_str(), stable.as_str());
                set_agent_override(&mut answers.agent_answers, id.as_str(), cap, t.clone());
                set_answer_exec(&mut answers.design_answers, capability_id.clone(), AnswerValue::Text(t));
            },
        },
        DesignQuestion::Answer { answer_key, agent_id } => match agent_id {
            None => {
                set_answer_exec(&mut answers.design_answers, answer_key.clone(), AnswerValue::Text(t));
            },
            Some(id) => {
                let numeric = agent_numeric_answer_prefix(id.as_str());
                let mut stable = String::from_str("agent.");
                stable.append(id.as_str());
                stable.append(".");
                let once = strip_leading_exec(answer_key.as_str(), numeric.as_str());
                let key = strip_leading_exec(once.as_str(), stable.as_str());
                set_agent_answer(&mut answers.agent_answers, id.as_str(), key, AnswerValue::Text(t.clone()));
                set_answer_exec(&mut answers.design_answers, answer_key.clone(), AnswerValue::Text(t));
            },
        },
    }
}


proof fn lemma_answer_found(es: Seq<(Seq<char>, ValueView)>, key: Seq<char>, i: int, j: int)
    requires
        0 <= i <= j < es.len(),
        es[j].0 == key,
    ensures
        answer_index(es, key, i) is Some,
    decreases j - i,
{
    if es[i].0 != key {
        lemma_answer_found(es, key, i + 1, j);
    }
}

proof fn lemma_override_found(os: Seq<(Seq<char>, Seq<char>)>, cap: Seq<char>, i: int, j: int)
    requires
        0 <= i <= j < os.len(),
        os[j].0 == cap,
    ensures
        override_index(os, cap, i) is Some,
    decreases j - i,
{
    if os[i].0 != cap {
        lemma_override_found(os, cap, i + 1, j);
    }
}

proof fn lemma_answer_index_range(es: Seq<(Seq<char>, ValueView)>, key: Seq<char>, i: int)
    requires
        0 <= i,
    ensures
        answer_index(es, key, i) matches Some(k) ==> i <= k < es.len() && es[k].0 == key,
    decreases es.len() - i,
{
    if i < es.len() && es[i].0 != key {
        lemma_answer_index_range(es, key, i + 1);
    }
}

proof fn lemma_override_index_range(os: Seq<(Seq<char>, Seq<char>)>, cap: Seq<char>, i: int)
    requires
        0 <= i,
    ensures
        override_index(os, cap, i) matches Some(k) ==> i <= k < os.len() && os[k].0 == cap,
    decreases os.len() - i,
{
    if i < os.len() && os[i].0 != cap {
        lemma_override_index_range(os, cap, i + 1);
    }
}

/// A key that has been set has an answer.
proof fn lemma_set_answer_has(es: Seq<(Seq<char>, ValueView)>, key: Seq<char>, v: ValueView)
    ensures
        has_answer(set_answer(es, key, v), key),
{
    lemma_answer_index_range(es, key, 0);
    let r = set_answer(es, key, v);
    match answer_index(es, key, 0) {
        Some(i) => lemma_answer_found(r, key, 0, i),
        None => lemma_answer_found(r, key, 0, es.len() as int),
    }
}

/// A capability whose provider has been set has an override.
proof fn lemma_set_override_has(os: Seq<(Seq<char>, Seq<char>)>, cap: Seq<char>, pid: Seq<char>)
    ensures
        has_override(set_override(os, cap, pid), cap),
{
    lemma_override_index_range(os, cap, 0);
    let r = set_override(os, cap, pid);
    match override_index(os, cap, 0) {
        Some(i) => lemma_override_found(r, cap, 0, i),
        None => lemma_override_found(r, cap, 0, os.len() as int),
    }
}

/// Once the user has given a non-empty response to the question a block
/// asks after expansion per agent, the block asks nothing more: the
/// response is recorded where the block looks for its answer.
pub proof fn law_answered_question_is_not_asked_again(
    b: BlockView,
    a: AnswersView,
    question: QuestionView,
    prompt: Seq<char>,
    response: Seq<char>,
)
    requires
        design_question(b, a) == Some((question, prompt)),
        trimmed(response).len() > 0,
    ensures
        design_question(b, recorded_answer(a, question, response)) is None,
{
    let t = trimmed(response);
    match question {
        QuestionView::ProviderOverride { capability_id, agent_id } => {
            if agent_id is None {
                lemma_set_override_has(a.provider_overrides, capability_id, t);
            } else {
                lemma_set_answer_has(a.design_answers, capability_id, ValueView::Text(t));
            }
        },
        QuestionView::Answer { answer_key, agent_id } => {
            lemma_set_answer_has(a.design_answers, answer_key, ValueView::Text(t));
        },
        _ => {},
    }
}


// ---------------------------------------------------------------------------
// The sequence of questions
// ---------------------------------------------------------------------------

/// Where a run of the design questions stands.
#[derive(Debug, PartialEq, Eq)]
pub enum DesignStage {
    /// Nothing asked yet.
    Start,
    /// Walking the visible design blocks for topology questions, from the
    /// block at `next`.
    Topology { next: usize },
    /// Walking the blocks expanded per agent for design questions, from the
    /// block at `next`.
    Design { blocks: Vec<DwWizardQuestionBlock>, next: usize },
    /// Every question has been asked.
    Done,
}

pub enum StageView {
    Start,
    Topology { next: int },
    Design { blocks: Seq<BlockView>, next: int },
    Done,
}

impl View for DesignStage {
    type V = StageView;

    open spec fn view(&self) -> StageView {
        match self {
            DesignStage::Start => StageView::Start,
            DesignStage::Topology { next } => StageView::Topology { next: *next as int },
            DesignStage::Design { blocks, next } => StageView::Design { blocks: blocks_view(blocks@), next: *next as int },
            DesignStage::Done => StageView::Done,
        }
    }
}

/// The first block at or after `i` that asks a topology question, or the
/// number of blocks when none does.
pub open spec fn first_topology(bs: Seq<BlockView>, a: AnswersView, multi_agent: bool, i: int) -> int
    decreases bs.len() - i,
{
    if i < 0 || i >= bs.len() {
        bs.len() as int
    } else if topology_question(bs[i], a, multi_agent) is Some {
        i
    } else {
        first_topology(bs, a, multi_agent, i + 1)
    }
}

/// The first block at or after `i` that asks a design question, or the
/// number of blocks when none does.
pub open spec fn first_design(bs: Seq<BlockView>, a: AnswersView, i: int) -> int
    decreases bs.len() - i,
{
    if i < 0 || i >= bs.len() {
        bs.len() as int
    } else if design_question(bs[i], a) is Some {
        i
    } else {
        first_design(bs, a, i + 1)
    }
}

/// The design pass over the expanded blocks, from `next`.
pub open spec fn design_pass_step(bs: Seq<BlockView>, next: int, a: AnswersView) -> (StageView, Option<(QuestionView, Seq<char>)>) {
    let i = first_design(bs, a, next);
    if i < bs.len() {
        (StageView::Design { blocks: bs, next: i + 1 }, design_question(bs[i], a))
    } else {
        (StageView::Done, None)
    }
}

/// The topology pass over the visible blocks, from `next`; when it is over,
/// the visible blocks are expanded per agent for the answers so far and the
/// design pass begins.
pub open spec fn topology_pass_step(visible: Seq<BlockView>, next: int, a: AnswersView, multi_agent: bool) -> (
    StageView,
    Option<(QuestionView, Seq<char>)>,
) {
    let i = first_topology(visible, a, multi_agent, next);
    if i < visible.len() {
        (StageView::Topology { next: i + 1 }, topology_question(visible[i], a, multi_agent))
    } else {
        design_pass_step(
            visible_for_output(visible, agent_count_of(a.design_answers, multi_agent) as nat, shared_providers(a.design_answers)),
            0,
            a,
        )
    }
}

/// The next question of a run and the stage after it: the review mode first
/// (when the answers have none), then the topology questions of the visible
/// design blocks, then, over those blocks expanded per agent, the design
/// questions; nothing once all have been asked.
pub open spec fn design_step(stage: StageView, a: AnswersView, multi_agent: bool, visible: Seq<BlockView>) -> (
    StageView,
    Option<(QuestionView, Seq<char>)>,
) {
    match stage {
        StageView::Start => if a.review_mode is None {
            (StageView::Topology { next: 0 }, Some((QuestionView::ReviewMode, REVIEW_MODE_PROMPT@)))
        } else {
            topology_pass_step(visible, 0, a, multi_agent)
        },
        StageView::Topology { next } => topology_pass_step(visible, next, a, multi_agent),
        StageView::Design { blocks, next } => design_pass_step(blocks, next, a),
        StageView::Done => (StageView::Done, None),
    }
}

fn design_pass_exec(blocks: Vec<DwWizardQuestionBlock>, next: usize, answers: &AnswerDocument) -> (r: (
    DesignStage,
    Option<DesignPrompt>,
))
    ensures
        (r.0@, prompt_view(r.1)) == design_pass_step(blocks_view(blocks@), next as int, answers@),
{
    let ghost bs = blocks_view(blocks@);
    let mut i = next;
    if i > blocks.len() {
        i = blocks.len();
    }
    while i < blocks.len()
        invariant
            next <= i || i == blocks.len(),
            i <= blocks.len(),
            bs == blocks_view(blocks@),
            first_design(bs, answers@, next as int) == first_design(bs, answers@, i as int),
        decreases blocks.len() - i,
    {
        assert(bs[i as int] == blocks@[i as int]@);
        let found = design_prompt(&blocks[i], answers);
        if found.is_some() {
            return (DesignStage::Design { blocks, next: i + 1 }, found);
        }
        i = i + 1;
    }
    (DesignStage::Done, None)
}

/// The next question of a run of the design questions, and the stage after
/// it. `visible` is the design blocks shown for the answers' review mode;
/// the caller records each response with `record_design_answer` before
/// asking for the next step.
pub fn next_design_step(
    stage: DesignStage,
    answers: &AnswerDocument,
    template: &DigitalWorkerTemplate,
    visible: &Vec<DwWizardQuestionBlock>,
) -> (r: (DesignStage, Option<DesignPrompt>))
    ensures
        (r.0@, prompt_view(r.1)) == design_step(
            stage@,
            answers@,
            template.supports_multi_agent_app_pack,
            blocks_view(visible@),
        ),
{
    let ghost vs = blocks_view(visible@);
    let ghost multi = template.supports_multi_agent_app_pack;
    let ghost st = stage@;
    let next = match stage {
        DesignStage::Start => {
            if answers.review_mode.is_none() {
                return (
                    DesignStage::Topology { next: 0 },
                    Some(DesignPrompt { question: DesignQuestion::ReviewMode, prompt: String::from_str(REVIEW_MODE_PROMPT) }),
                );
            }
            0
        },
        DesignStage::Topology { next } => next,
        DesignStage::Design { blocks, next } => {
            return design_pass_exec(blocks, next, answers);
        },
        DesignStage::Done => {
            return (DesignStage::Done, None);
        },
    };
    assert(design_step(st, answers@, multi, vs) == topology_pass_step(vs, next as int, answers@, multi));
    let mut i = next;
    if i > visible.len() {
        i = visible.len();
    }
    let mut found: Option<DesignPrompt> = None;
    while i < visible.len()
        invariant
            next <= i || i == visible.len(),
            i <= visible.len(),
            vs == blocks_view(visible@),
            multi == template.supports_multi_agent_app_pack,
            first_topology(vs, answers@, multi, next as int) == first_topology(vs, answers@, multi, i as int),
        ensures
            i < visible.len() ==> first_topology(vs, answers@, multi, i as int) == i as int && prompt_view(found)
                == topology_question(vs[i as int], answers@, multi),
            i >= visible.len() ==> first_topology(vs, answers@, multi, i as int) == visible.len(),
        decreases visible.len() - i,
    {
        assert(vs[i as int] == visible@[i as int]@);
        found = topology_prompt(&visible[i], answers, template);
        if found.is_some() {
            break;
        }
        i = i + 1;
    }
    if i < visible.len() {
        return (DesignStage::Topology { next: i + 1 }, found);
    }
    let expanded = resolve_visible_blocks_for_output(visible, answers, template);
    design_pass_exec(expanded, 0, answers)
}

} // verus!
