//! Context packages: fragments of context handed to a worker, their
//! validation, and their rendering into prompt text.

use vstd::prelude::*;

use crate::cap_types::{opt_string_view, strings_view};
use crate::text::{decimal, is_blank, is_ws, str_is_blank, str_trim, trimmed, u64_to_decimal};

verus! {

/// Where a context fragment comes from.
#[derive(Clone, Copy, Debug, PartialEq, Eq, Structural)]
pub enum ContextFragmentKind {
    MemoryItem,
    WorkspaceArtifact,
    PlanStep,
    RuntimeMetadata,
    PromptFragment,
    /// A passage retrieved from the worker's knowledge corpus.
    KnowledgeChunk,
}

/// One piece of context.
#[derive(Debug, PartialEq, Eq)]
pub struct ContextFragment {
    pub fragment_id: String,
    pub kind: ContextFragmentKind,
    pub content_ref: String,
    /// Inline renderable text for retrieval results; reference-only
    /// fragments leave it `None`.
    pub content: Option<String>,
    pub provenance: String,
    pub ordinal: u32,
}

/// Limits on a context package.
#[derive(Clone, Copy, Debug, PartialEq, Eq, Structural)]
pub struct ContextBudget {
    pub max_fragments: u32,
    pub max_bytes: u64,
}

/// An ordered set of fragments under a budget.
#[derive(Debug, PartialEq, Eq)]
pub struct ContextPackage {
    pub package_id: String,
    pub fragments: Vec<ContextFragment>,
    pub budget: ContextBudget,
}

/// Result of compressing a package.
#[derive(Debug, PartialEq, Eq)]
pub struct CompressedContext {
    pub source_package_id: String,
    pub compressed_artifact_ref: String,
    pub fragment_count: u32,
}

/// Reference to a stored summary.
#[derive(Debug, PartialEq, Eq)]
pub struct SummaryArtifactRef {
    pub artifact_ref: String,
}

/// Request to assemble a package from fragment references.
#[derive(Debug, PartialEq, Eq)]
pub struct BuildContextRequest {
    pub fragment_refs: Vec<String>,
    /// Semantic retrieval query; `None` keeps fragment-ref-only behaviour.
    pub query: Option<String>,
    pub budget: ContextBudget,
}

/// Request to compress a package.
#[derive(Debug, PartialEq, Eq)]
pub struct CompressContextRequest {
    pub package: ContextPackage,
}

/// Request to summarize a package.
#[derive(Debug, PartialEq, Eq)]
pub struct SummarizeContextRequest {
    pub package: ContextPackage,
}

/// Context failure.
#[derive(Clone, Debug, PartialEq, Eq)]
pub enum ContextError {
    Validation(String),
    Provider(String),
}

pub enum ContextErrorView {
    Validation(Seq<char>),
    Provider(Seq<char>),
}

impl View for ContextError {
    type V = ContextErrorView;

    open spec fn view(&self) -> ContextErrorView {
        match self {
            ContextError::Validation(m) => ContextErrorView::Validation(m@),
            ContextError::Provider(m) => ContextErrorView::Provider(m@),
        }
    }
}

/// Something that builds, compresses and summarizes context.
pub trait ContextProvider {
    fn build_context(&self, req: BuildContextRequest) -> Result<ContextPackage, ContextError>;

    fn compress_context(&self, req: CompressContextRequest) -> Result<CompressedContext, ContextError>;

    fn summarize_context(&self, req: SummarizeContextRequest) -> Result<SummaryArtifactRef, ContextError>;
}

pub struct FragmentView {
    pub fragment_id: Seq<char>,
    pub kind: ContextFragmentKind,
    pub content_ref: Seq<char>,
    pub content: Option<Seq<char>>,
    pub provenance: Seq<char>,
    pub ordinal: u32,
}

pub struct PackageView {
    pub package_id: Seq<char>,
    pub fragments: Seq<FragmentView>,
    pub budget: ContextBudget,
}

impl View for ContextFragment {
    type V = FragmentView;

    open spec fn view(&self) -> FragmentView {
        FragmentView {
            fragment_id: self.fragment_id@,
            kind: self.kind,
            content_ref: self.content_ref@,
            content: opt_string_view(self.content),
            provenance: self.provenance@,
            ordinal: self.ordinal,
        }
    }
}

pub open spec fn fragments_view(v: Seq<ContextFragment>) -> Seq<FragmentView> {
    v.map_values(|f: ContextFragment| f@)
}

impl View for ContextPackage {
    type V = PackageView;

    open spec fn view(&self) -> PackageView {
        PackageView { package_id: self.package_id@, fragments: fragments_view(self.fragments@), budget: self.budget }
    }
}

// ---------------------------------------------------------------------------
// Validation
// ---------------------------------------------------------------------------

/// Everything `validate_context_package` checks, in its order.
pub open spec fn package_check(p: PackageView) -> Option<Seq<char>> {
    if is_blank(p.package_id) {
        Some("package_id must not be empty"@)
    } else if p.budget.max_fragments == 0 {
        Some("budget max_fragments must be greater than zero"@)
    } else if p.budget.max_bytes == 0 {
        Some("budget max_bytes must be greater than zero"@)
    } else if p.fragments.len() > p.budget.max_fragments {
        Some("fragment count exceeds max_fragments budget"@)
    } else {
        fragments_check(p.fragments)
    }
}

/// Fragments in order: each must carry id, reference and provenance, and
/// ordinals must not decrease.
pub open spec fn fragments_check(fs: Seq<FragmentView>) -> Option<Seq<char>>
    decreases fs.len(),
{
    if fs.len() == 0 {
        None
    } else if fragments_check(fs.drop_last()) is Some {
        fragments_check(fs.drop_last())
    } else {
        let f = fs.last();
        if is_blank(f.fragment_id) || is_blank(f.content_ref) || is_blank(f.provenance) {
            Some("context fragments must include id, content_ref, and provenance"@)
        } else if fs.len() > 1 && f.ordinal < fs[fs.len() - 2].ordinal {
            Some("context fragments must be ordered deterministically"@)
        } else {
            None
        }
    }
}

pub open spec fn context_reports(r: Result<(), ContextError>, c: Option<Seq<char>>) -> bool {
    match r {
        Ok(_) => c is None,
        Err(e) => c matches Some(m) && e@ == ContextErrorView::Validation(m),
    }
}

fn context_error(message: &str) -> (r: Result<(), ContextError>)
    ensures
        r matches Err(e) && e@ == ContextErrorView::Validation(message@),
{
    Err(ContextError::Validation(String::from_str(message)))
}

/// Validates a package: non-blank id, positive budgets, fragment count within
/// budget, complete fragments in non-decreasing ordinal order.
pub fn validate_context_package(package: &ContextPackage) -> (r: Result<(), ContextError>)
    ensures
        context_reports(r, package_check(package@)),
{
    if str_is_blank(package.package_id.as_str()) {
        return context_error("package_id must not be empty");
    }
    if package.budget.max_fragments == 0 {
        return context_error("budget max_fragments must be greater than zero");
    }
    if package.budget.max_bytes == 0 {
        return context_error("budget max_bytes must be greater than zero");
    }
    if package.fragments.len() > package.budget.max_fragments as usize {
        return context_error("fragment count exceeds max_fragments budget");
    }
    let ghost fs = package@.fragments;
    let mut previous: Option<u32> = None;
    let mut i: usize = 0;
    proof {
        assert(fs.take(0) =~= Seq::<FragmentView>::empty());
    }
    while i < package.fragments.len()
        invariant
            i <= package.fragments.len(),
            fs == package@.fragments,
            package_check(package@) == fragments_check(fs),
            fragments_check(fs.take(i as int)) is None,
            match previous {
                None => i == 0,
                Some(o) => i > 0 && o == fs[i - 1].ordinal,
            },
        decreases package.fragments.len() - i,
    {
        let fragment = &package.fragments[i];
        proof {
            assert(fs.take(i + 1).drop_last() =~= fs.take(i as int));
            assert(fs.take(i + 1).last() == fragment@);
            assert(fs[i as int] == fragment@);
            if i > 0 {
                assert(fs.take(i + 1)[i - 1] == fs[i - 1]);
            }
        }
        if str_is_blank(fragment.fragment_id.as_str()) || str_is_blank(fragment.content_ref.as_str())
            || str_is_blank(fragment.provenance.as_str()) {
            proof {
                lemma_fragments_check_prefix(fs, i + 1);
            }
            return context_error("context fragments must include id, content_ref, and provenance");
        }
        if let Some(p) = previous {
            if fragment.ordinal < p {
                proof {
                    lemma_fragments_check_prefix(fs, i + 1);
                }
                return context_error("context fragments must be ordered deterministically");
            }
        }
        previous = Some(fragment.ordinal);
        i = i + 1;
    }
    proof {
        assert(fs.take(i as int) =~= fs);
    }
    Ok(())
}

/// A problem found in a prefix is the problem reported for the whole sequence.
pub proof fn lemma_fragments_check_prefix(fs: Seq<FragmentView>, k: int)
    requires
        0 <= k <= fs.len(),
        fragments_check(fs.take(k)) is Some,
    ensures
        fragments_check(fs) == fragments_check(fs.take(k)),
    decreases fs.len() - k,
{
    if k == fs.len() {
        assert(fs.take(k) =~= fs);
    } else {
        assert(fs.drop_last().take(k) =~= fs.take(k));
        lemma_fragments_check_prefix(fs.drop_last(), k);
    }
}

// ---------------------------------------------------------------------------
// Ordering and rendering
// ---------------------------------------------------------------------------

/// Inserts `f` after every fragment whose ordinal is not greater.
pub open spec fn insert_by_ordinal(sorted: Seq<FragmentView>, f: FragmentView) -> Seq<FragmentView> {
    sorted.insert(ordinal_slot(sorted, f.ordinal, 0), f)
}

/// The first position from `i` on holding a greater ordinal.
pub open spec fn ordinal_slot(sorted: Seq<FragmentView>, ordinal: u32, i: int) -> int
    decreases sorted.len() - i,
{
    if i < 0 || i >= sorted.len() {
        sorted.len() as int
    } else if sorted[i].ordinal > ordinal {
        i
    } else {
        ordinal_slot(sorted, ordinal, i + 1)
    }
}

/// `fs` sorted by ordinal, fragments with equal ordinals in their original
/// order (a stable sort).
pub open spec fn by_ordinal(fs: Seq<FragmentView>) -> Seq<FragmentView>
    decreases fs.len(),
{
    if fs.len() == 0 {
        Seq::empty()
    } else {
        insert_by_ordinal(by_ordinal(fs.drop_last()), fs.last())
    }
}

/// The fragments that carry inline content.
pub open spec fn with_content(fs: Seq<FragmentView>) -> Seq<FragmentView> {
    fs.filter(|f: FragmentView| f.content is Some)
}

/// The bullet lines of a knowledge block.
pub open spec fn knowledge_lines(fs: Seq<FragmentView>) -> Seq<char>
    decreases fs.len(),
{
    if fs.len() == 0 {
        Seq::empty()
    } else {
        knowledge_lines(fs.drop_last()) + "- "@ + trimmed(fs.last().content->Some_0) + "\n"@
    }
}

pub open spec fn knowledge_header() -> Seq<char> {
    "<knowledge>\nRelevant passages retrieved from the worker's knowledge base:\n"@
}

/// The knowledge block of a package: its inline-content fragments in
/// ordinal order, or nothing when none carries content.
pub open spec fn context_text(p: PackageView) -> Seq<char> {
    let fs = by_ordinal(with_content(p.fragments));
    if fs.len() == 0 {
        Seq::empty()
    } else {
        knowledge_header() + knowledge_lines(fs) + "</knowledge>"@
    }
}

/// Position after every entry of `sorted` whose ordinal is not greater.
fn ordinal_position(sorted: &Vec<&ContextFragment>, ordinal: u32) -> (p: usize)
    ensures
        p <= sorted.len(),
        p as int == ordinal_slot(sorted@.map_values(|f: &ContextFragment| f@), ordinal, 0),
{
    let ghost v = sorted@.map_values(|f: &ContextFragment| f@);
    let mut i: usize = 0;
    while i < sorted.len()
        invariant
            i <= sorted.len(),
            v == sorted@.map_values(|f: &ContextFragment| f@),
            ordinal_slot(v, ordinal, 0) == ordinal_slot(v, ordinal, i as int),
        decreases sorted.len() - i,
    {
        if sorted[i].ordinal > ordinal {
            return i;
        }
        i = i + 1;
    }
    i
}

/// The fragments of `package` selected by `only_content`, stably sorted by ordinal.
fn sorted_fragments(package: &ContextPackage, only_content: bool) -> (r: Vec<&ContextFragment>)
    ensures
        r@.map_values(|f: &ContextFragment| f@) == by_ordinal(
            if only_content {
                with_content(package@.fragments)
            } else {
                package@.fragments
            },
        ),
{
    let ghost all = package@.fragments;
    let ghost src = if only_content {
        with_content(all)
    } else {
        all
    };
    let mut out: Vec<&ContextFragment> = Vec::new();
    let ghost mut seen: Seq<FragmentView> = Seq::empty();
    let mut i: usize = 0;
    proof {
        assert(all.take(0) =~= Seq::<FragmentView>::empty());
        assert(with_content(all.take(0)) =~= Seq::<FragmentView>::empty());
    }
    while i < package.fragments.len()
        invariant
            i <= package.fragments.len(),
            all == package@.fragments,
            seen == (if only_content {
                with_content(all.take(i as int))
            } else {
                all.take(i as int)
            }),
            out@.map_values(|f: &ContextFragment| f@) == by_ordinal(seen),
        decreases package.fragments.len() - i,
    {
        let f = &package.fragments[i];
        proof {
            assert(all.take(i + 1) =~= all.take(i as int).push(f@));
        }
        let keep = !only_content || f.content.is_some();
        if keep {
            let p = ordinal_position(&out, f.ordinal);
            let ghost before = out@.map_values(|x: &ContextFragment| x@);
            out.insert(p, f);
            proof {
                assert(out@.map_values(|x: &ContextFragment| x@) =~= before.insert(p as int, f@));
                let next = seen.push(f@);
                assert(next.drop_last() =~= seen);
                if only_content {
                    lemma_filter_push(all.take(i as int), f@);
                }
                seen = next;
            }
        } else {
            proof {
                lemma_filter_push(all.take(i as int), f@);
            }
        }
        i = i + 1;
    }
    proof {
        assert(all.take(i as int) =~= all);
    }
    out
}

proof fn lemma_filter_push(s: Seq<FragmentView>, f: FragmentView)
    ensures
        with_content(s.push(f)) == (if f.content is Some {
            with_content(s).push(f)
        } else {
            with_content(s)
        }),
{
    reveal(Seq::filter);
    assert(s.push(f).drop_last() =~= s);
}

/// Renders the inline-content fragments of a package into a delimited
/// knowledge block, in ascending ordinal order; empty when no fragment
/// carries inline content.
pub fn render_context(package: &ContextPackage) -> (r: String)
    ensures
        r@ == context_text(package@),
{
    let frags = sorted_fragments(package, true);
    let ghost fs = frags@.map_values(|f: &ContextFragment| f@);
    if frags.len() == 0 {
        return String::new();
    }
    let mut out = String::from_str("<knowledge>\nRelevant passages retrieved from the worker's knowledge base:\n");
    let mut i: usize = 0;
    proof {
        assert(fs.take(0) =~= Seq::<FragmentView>::empty());
        assert(out@ =~= knowledge_header() + knowledge_lines(fs.take(0)));
        assert forall|k: int| 0 <= k < fs.len() implies (#[trigger] fs[k]).content is Some by {
            lemma_by_ordinal_content(with_content(package@.fragments), k);
        }
    }
    while i < frags.len()
        invariant
            i <= frags.len(),
            fs == frags@.map_values(|f: &ContextFragment| f@),
            forall|k: int| 0 <= k < fs.len() ==> (#[trigger] fs[k]).content is Some,
            out@ == knowledge_header() + knowledge_lines(fs.take(i as int)),
        decreases frags.len() - i,
    {
        let f = frags[i];
        proof {
            assert(fs.take(i + 1).drop_last() =~= fs.take(i as int));
            assert(fs.take(i + 1).last() == f@);
            assert(fs[i as int] == f@);
        }
        match &f.content {
            Some(text) => {
                out.append("- ");
                let t = str_trim(text.as_str());
                out.append(t.as_str());
                out.append("\n");
            },
            None => {},
        }
        proof {
            assert(out@ =~= knowledge_header() + knowledge_lines(fs.take(i + 1)));
        }
        i = i + 1;
    }
    out.append("</knowledge>");
    proof {
        assert(fs.take(i as int) =~= fs);
    }
    out
}

/// Sorting keeps only entries of the input: here, entries with content.
proof fn lemma_by_ordinal_content(fs: Seq<FragmentView>, k: int)
    requires
        forall|j: int| 0 <= j < fs.len() ==> (#[trigger] fs[j]).content is Some,
        0 <= k < by_ordinal(fs).len(),
    ensures
        by_ordinal(fs)[k].content is Some,
    decreases fs.len(),
{
    lemma_by_ordinal_len(fs);
    if fs.len() > 0 {
        let prev = by_ordinal(fs.drop_last());
        let p = ordinal_slot(prev, fs.last().ordinal, 0);
        lemma_ordinal_slot_range(prev, fs.last().ordinal, 0);
        if k < p {
            lemma_by_ordinal_content(fs.drop_last(), k);
        } else if k > p {
            lemma_by_ordinal_content(fs.drop_last(), k - 1);
        }
    }
}

pub proof fn lemma_by_ordinal_len(fs: Seq<FragmentView>)
    ensures
        by_ordinal(fs).len() == fs.len(),
    decreases fs.len(),
{
    if fs.len() > 0 {
        lemma_by_ordinal_len(fs.drop_last());
        lemma_ordinal_slot_range(by_ordinal(fs.drop_last()), fs.last().ordinal, 0);
    }
}

pub proof fn lemma_ordinal_slot_range(sorted: Seq<FragmentView>, ordinal: u32, i: int)
    requires
        0 <= i,
    ensures
        0 <= ordinal_slot(sorted, ordinal, i) <= sorted.len(),
        i <= sorted.len() ==> i <= ordinal_slot(sorted, ordinal, i),
    decreases sorted.len() - i,
{
    if i < sorted.len() && sorted[i].ordinal <= ordinal {
        lemma_ordinal_slot_range(sorted, ordinal, i + 1);
    }
}

/// The name a fragment kind is printed with.
pub open spec fn kind_text(k: ContextFragmentKind) -> Seq<char> {
    match k {
        ContextFragmentKind::MemoryItem => "MemoryItem"@,
        ContextFragmentKind::WorkspaceArtifact => "WorkspaceArtifact"@,
        ContextFragmentKind::PlanStep => "PlanStep"@,
        ContextFragmentKind::RuntimeMetadata => "RuntimeMetadata"@,
        ContextFragmentKind::PromptFragment => "PromptFragment"@,
        ContextFragmentKind::KnowledgeChunk => "KnowledgeChunk"@,
    }
}

fn kind_name(k: ContextFragmentKind) -> (r: &'static str)
    ensures
        r@ == kind_text(k),
{
    match k {
        ContextFragmentKind::MemoryItem => "MemoryItem",
        ContextFragmentKind::WorkspaceArtifact => "WorkspaceArtifact",
        ContextFragmentKind::PlanStep => "PlanStep",
        ContextFragmentKind::RuntimeMetadata => "RuntimeMetadata",
        ContextFragmentKind::PromptFragment => "PromptFragment",
        ContextFragmentKind::KnowledgeChunk => "KnowledgeChunk",
    }
}

/// One line of a rendered package.
pub open spec fn fragment_line(f: FragmentView) -> Seq<char> {
    "["@ + decimal(f.ordinal as nat) + "] "@ + kind_text(f.kind) + " "@ + f.content_ref + match f.content {
        Some(t) => " :: "@ + trimmed(t),
        None => Seq::empty(),
    } + "\n"@
}

pub open spec fn fragment_lines(fs: Seq<FragmentView>) -> Seq<char>
    decreases fs.len(),
{
    if fs.len() == 0 {
        Seq::empty()
    } else {
        fragment_lines(fs.drop_last()) + fragment_line(fs.last())
    }
}

/// A package flattened into text: a header, then one line per fragment in
/// ordinal order with inline content when present.
pub open spec fn package_text(p: PackageView) -> Seq<char> {
    "Context package "@ + p.package_id + " ("@ + decimal(p.fragments.len()) + " fragments):\n"@
        + fragment_lines(by_ordinal(p.fragments))
}

/// Flattens a context package into a stable, human-readable block.
pub fn render_package(package: &ContextPackage) -> (r: String)
    ensures
        r@ == package_text(package@),
{
    let frags = sorted_fragments(package, false);
    let ghost fs = frags@.map_values(|f: &ContextFragment| f@);
    let mut out = String::from_str("Context package ");
    out.append(package.package_id.as_str());
    out.append(" (");
    let n = u64_to_decimal(package.fragments.len() as u64);
    out.append(n.as_str());
    out.append(" fragments):\n");
    let ghost head = out@;
    let mut i: usize = 0;
    proof {
        assert(fs.take(0) =~= Seq::<FragmentView>::empty());
        assert(out@ =~= head + fragment_lines(fs.take(0)));
    }
    while i < frags.len()
        invariant
            i <= frags.len(),
            fs == frags@.map_values(|f: &ContextFragment| f@),
            out@ == head + fragment_lines(fs.take(i as int)),
        decreases frags.len() - i,
    {
        let f = frags[i];
        proof {
            assert(fs.take(i + 1).drop_last() =~= fs.take(i as int));
            assert(fs.take(i + 1).last() == f@);
            assert(fs[i as int] == f@);
        }
        out.append("[");
        let o = u64_to_decimal(f.ordinal as u64);
        out.append(o.as_str());
        out.append("] ");
        out.append(kind_name(f.kind));
        out.append(" ");
        out.append(f.content_ref.as_str());
        match &f.content {
            Some(text) => {
                out.append(" :: ");
                let t = str_trim(text.as_str());
                out.append(t.as_str());
            },
            None => {},
        }
        out.append("\n");
        proof {
            assert(out@ =~= head + fragment_lines(fs.take(i + 1)));
        }
        i = i + 1;
    }
    proof {
        assert(fs.take(i as int) =~= fs);
        assert(head =~= "Context package "@ + package@.package_id + " ("@ + decimal(package@.fragments.len()) + " fragments):\n"@);
    }
    out
}

pub open spec fn compress_system_text() -> Seq<char> {
    "You are a context-compression assistant in a deep-worker system. Condense the supplied context into the smallest faithful form that preserves every fact needed for downstream reasoning. Respond with ONLY the compressed text — no preamble, no JSON, no markdown fences."@
}

pub open spec fn summarize_system_text() -> Seq<char> {
    "You are a context-summarization assistant in a deep-worker system. Produce a concise prose summary of the supplied context. Respond with ONLY the summary text — no preamble, no JSON, no markdown fences."@
}

/// System prompt for compressing context.
pub fn system_for_compress() -> (r: String)
    ensures
        r@ == compress_system_text(),
{
    String::from_str("You are a context-compression assistant in a deep-worker system. Condense the supplied context into the smallest faithful form that preserves every fact needed for downstream reasoning. Respond with ONLY the compressed text — no preamble, no JSON, no markdown fences.")
}

/// System prompt for summarizing context.
pub fn system_for_summarize() -> (r: String)
    ensures
        r@ == summarize_system_text(),
{
    String::from_str("You are a context-summarization assistant in a deep-worker system. Produce a concise prose summary of the supplied context. Respond with ONLY the summary text — no preamble, no JSON, no markdown fences.")
}

/// User prompt wrapping a rendered package for compression.
pub fn user_for_compress(rendered: &str) -> (r: String)
    ensures
        r@ == "Compress the following context:\n\n"@ + rendered@,
{
    let mut s = String::from_str("Compress the following context:\n\n");
    s.append(rendered);
    s
}

/// User prompt wrapping a rendered package for summarization.
pub fn user_for_summarize(rendered: &str) -> (r: String)
    ensures
        r@ == "Summarize the following context:\n\n"@ + rendered@,
{
    let mut s = String::from_str("Summarize the following context:\n\n");
    s.append(rendered);
    s
}

pub open spec fn fixture_fragment(id: Seq<char>, kind: ContextFragmentKind, content_ref: Seq<char>, provenance: Seq<char>, ordinal: u32) -> FragmentView {
    FragmentView { fragment_id: id, kind, content_ref, content: None, provenance, ordinal }
}

/// A small valid package of two reference-only fragments.
pub fn context_package_fixture() -> (r: ContextPackage)
    ensures
        r@ == (PackageView {
            package_id: "context-1"@,
            fragments: seq![
                fixture_fragment("fragment-1"@, ContextFragmentKind::WorkspaceArtifact, "artifact://notes-1"@, "workspace"@, 1),
                fixture_fragment("fragment-2"@, ContextFragmentKind::PlanStep, "plan-step://review"@, "plan"@, 2),
            ],
            budget: ContextBudget { max_fragments: 8, max_bytes: 4096 },
        }),
{
    let mut fragments: Vec<ContextFragment> = Vec::new();
    fragments.push(
        ContextFragment {
            fragment_id: String::from_str("fragment-1"),
            kind: ContextFragmentKind::WorkspaceArtifact,
            content_ref: String::from_str("artifact://notes-1"),
            content: None,
            provenance: String::from_str("workspace"),
            ordinal: 1,
        },
    );
    fragments.push(
        ContextFragment {
            fragment_id: String::from_str("fragment-2"),
            kind: ContextFragmentKind::PlanStep,
            content_ref: String::from_str("plan-step://review"),
            content: None,
            provenance: String::from_str("plan"),
            ordinal: 2,
        },
    );
    let r = ContextPackage {
        package_id: String::from_str("context-1"),
        fragments,
        budget: ContextBudget { max_fragments: 8, max_bytes: 4096 },
    };
    assert(fragments_view(r.fragments@) =~= seq![
        fixture_fragment("fragment-1"@, ContextFragmentKind::WorkspaceArtifact, "artifact://notes-1"@, "workspace"@, 1),
        fixture_fragment("fragment-2"@, ContextFragmentKind::PlanStep, "plan-step://review"@, "plan"@, 2),
    ]);
    r
}


// ---------------------------------------------------------------------------
// Assembling packages and naming stored results
// ---------------------------------------------------------------------------

/// The fragment made for the `i`-th requested reference.
pub open spec fn assembled_fragment(i: int, content_ref: Seq<char>) -> FragmentView {
    FragmentView {
        fragment_id: "frag-"@ + decimal(i as nat),
        kind: ContextFragmentKind::WorkspaceArtifact,
        content_ref,
        content: None,
        provenance: "build_context"@,
        ordinal: i as u32,
    }
}

/// How many references a budget lets into a package.
pub open spec fn assembled_count(refs: Seq<Seq<char>>, budget: ContextBudget) -> nat {
    if (budget.max_fragments as nat) < refs.len() {
        budget.max_fragments as nat
    } else {
        refs.len()
    }
}

/// The package assembled from references: the first references the budget
/// admits, in order, each a reference-only workspace fragment numbered from
/// zero; the package is named by the provider's sequence number.
pub open spec fn assembled_package(sequence: nat, refs: Seq<Seq<char>>, budget: ContextBudget) -> PackageView {
    PackageView {
        package_id: "context-"@ + decimal(sequence),
        fragments: Seq::new(assembled_count(refs, budget), |i: int| assembled_fragment(i, refs[i])),
        budget,
    }
}

/// Assembles a package from a build request, with `sequence` the provider's
/// next sequence number, and validates it.
pub fn assemble_context_package(sequence: u64, req: BuildContextRequest) -> (r: Result<ContextPackage, ContextError>)
    ensures
        ({
            let expected = assembled_package(sequence as nat, strings_view(req.fragment_refs@), req.budget);
            match package_check(expected) {
                None => r matches Ok(p) && p@ == expected,
                Some(m) => r matches Err(e) && e@ == ContextErrorView::Validation(m),
            }
        }),
{
    let ghost refs = strings_view(req.fragment_refs@);
    let n = req.fragment_refs.len();
    let take: usize = if (req.budget.max_fragments as usize) < n {
        req.budget.max_fragments as usize
    } else {
        n
    };
    let ghost expected = assembled_package(sequence as nat, refs, req.budget);
    assert(take == assembled_count(refs, req.budget));
    let mut fragments: Vec<ContextFragment> = Vec::new();
    let mut i: usize = 0;
    while i < take
        invariant
            i <= take,
            take <= n,
            n == req.fragment_refs.len(),
            take <= req.budget.max_fragments,
            refs == strings_view(req.fragment_refs@),
            expected == assembled_package(sequence as nat, refs, req.budget),
            take == expected.fragments.len(),
            fragments_view(fragments@) == expected.fragments.take(i as int),
        decreases take - i,
    {
        let mut id = String::from_str("frag-");
        let digits = u64_to_decimal(i as u64);
        id.append(digits.as_str());
        let fragment = ContextFragment {
            fragment_id: id,
            kind: ContextFragmentKind::WorkspaceArtifact,
            content_ref: req.fragment_refs[i].clone(),
            content: None,
            provenance: String::from_str("build_context"),
            ordinal: i as u32,
        };
        let ghost before = fragments@;
        fragments.push(fragment);
        proof {
            assert(refs[i as int] == req.fragment_refs@[i as int]@);
            assert(fragment@ == expected.fragments[i as int]);
            assert(fragments_view(fragments@) =~= fragments_view(before).push(fragment@));
            assert(fragments_view(fragments@) =~= expected.fragments.take(i + 1));
        }
        i = i + 1;
    }
    let mut package_id = String::from_str("context-");
    let digits = u64_to_decimal(sequence);
    package_id.append(digits.as_str());
    let package = ContextPackage { package_id, fragments, budget: req.budget };
    proof {
        assert(fragments_view(package.fragments@) =~= expected.fragments);
        assert(package@ == expected);
    }
    match validate_context_package(&package) {
        Ok(()) => Ok(package),
        Err(e) => Err(e),
    }
}

/// The artifact id of a stored compression of a package.
pub open spec fn compressed_id(package_id: Seq<char>, sequence: nat) -> Seq<char> {
    package_id + "::compressed::"@ + decimal(sequence)
}

/// The artifact id of a stored summary of a package.
pub open spec fn summary_id(package_id: Seq<char>, sequence: nat) -> Seq<char> {
    package_id + "::summary::"@ + decimal(sequence)
}

/// The result of compressing a package whose compressed text is stored under
/// the provider's sequence number `sequence`.
pub fn compressed_outcome(package: &ContextPackage, sequence: u64) -> (r: CompressedContext)
    ensures
        r.source_package_id@ == package.package_id@,
        r.compressed_artifact_ref@ == compressed_id(package.package_id@, sequence as nat),
        r.fragment_count == package.fragments@.len() as u32,
{
    let mut artifact = package.package_id.clone();
    artifact.append("::compressed::");
    let digits = u64_to_decimal(sequence);
    artifact.append(digits.as_str());
    CompressedContext {
        source_package_id: package.package_id.clone(),
        compressed_artifact_ref: artifact,
        fragment_count: package.fragments.len() as u32,
    }
}

/// The reference of a package summary stored under the provider's sequence
/// number `sequence`.
pub fn summary_outcome(package: &ContextPackage, sequence: u64) -> (r: SummaryArtifactRef)
    ensures
        r.artifact_ref@ == summary_id(package.package_id@, sequence as nat),
{
    let mut artifact = package.package_id.clone();
    artifact.append("::summary::");
    let digits = u64_to_decimal(sequence);
    artifact.append(digits.as_str());
    SummaryArtifactRef { artifact_ref: artifact }
}


/// An assembled package never holds more fragments than its budget allows or
/// than references were given, and keeps them in request order.
pub proof fn law_assembled_within_budget(sequence: nat, refs: Seq<Seq<char>>, budget: ContextBudget)
    ensures
        assembled_package(sequence, refs, budget).fragments.len() <= budget.max_fragments,
        assembled_package(sequence, refs, budget).fragments.len() <= refs.len(),
        forall|i: int| 0 <= i < assembled_package(sequence, refs, budget).fragments.len() ==> {
            let f = #[trigger] assembled_package(sequence, refs, budget).fragments[i];
            f.content_ref == refs[i] && f.ordinal == i
        },
{
}

/// A text that starts with a non-whitespace character is not blank.
proof fn lemma_led_not_blank(lead: Seq<char>, rest: Seq<char>)
    requires
        lead.len() > 0,
        !is_ws(lead[0]),
    ensures
        !is_blank(lead + rest),
{
    assert((lead + rest)[0] == lead[0]);
}

proof fn lemma_assembled_prefix(sequence: nat, refs: Seq<Seq<char>>, budget: ContextBudget, k: int)
    requires
        0 <= k <= assembled_count(refs, budget),
    ensures
        fragments_check(assembled_package(sequence, refs, budget).fragments.take(k)) is None <==> forall|i: int|
            0 <= i < k ==> !is_blank(#[trigger] refs[i]),
    decreases k,
{
    let fs = assembled_package(sequence, refs, budget).fragments;
    if k > 0 {
        lemma_assembled_prefix(sequence, refs, budget, k - 1);
        assert(fs.take(k).drop_last() =~= fs.take(k - 1));
        let f = fs[k - 1];
        assert(fs.take(k).last() == f);
        reveal_strlit("frag-");
        reveal_strlit("build_context");
        lemma_led_not_blank("frag-"@, decimal((k - 1) as nat));
        lemma_led_not_blank("build_context"@, Seq::empty());
        assert("build_context"@ + Seq::<char>::empty() =~= "build_context"@);
        law_assembled_within_budget(sequence, refs, budget);
        if k > 1 {
            assert(fs.take(k)[k - 2] == fs[k - 2]);
        }
        if fragments_check(fs.take(k - 1)) is None && is_blank(refs[k - 1]) {
            assert(!(forall|i: int| 0 <= i < k ==> !is_blank(#[trigger] refs[i])));
        }
    } else {
        assert(fs.take(0).len() == 0);
    }
}

/// A package assembled from references passes validation exactly when both
/// budget limits are positive and every admitted reference is non-blank.
pub proof fn law_assembly_succeeds_iff(sequence: nat, refs: Seq<Seq<char>>, budget: ContextBudget)
    ensures
        package_check(assembled_package(sequence, refs, budget)) is None <==> {
            &&& budget.max_fragments > 0
            &&& budget.max_bytes > 0
            &&& forall|i: int| 0 <= i < assembled_count(refs, budget) ==> !is_blank(#[trigger] refs[i])
        },
{
    let p = assembled_package(sequence, refs, budget);
    reveal_strlit("context-");
    lemma_led_not_blank("context-"@, decimal(sequence));
    lemma_assembled_prefix(sequence, refs, budget, assembled_count(refs, budget) as int);
    assert(p.fragments.take(p.fragments.len() as int) =~= p.fragments);
}

} // verus!
