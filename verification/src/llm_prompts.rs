//! Prompt texts for the model-backed planning and delegation steps, and the
//! extraction of a JSON payload from a model reply.

use vstd::prelude::*;

verus! {

pub open spec fn is_open(c: char) -> bool {
    c == '{' || c == '['
}

pub open spec fn is_close(c: char) -> bool {
    c == '}' || c == ']'
}

/// Index of the first opening delimiter from `i` on, or `-1`.
pub open spec fn first_open(s: Seq<char>, i: int) -> int
    decreases s.len() - i,
{
    if i < 0 || i >= s.len() {
        -1
    } else if is_open(s[i]) {
        i
    } else {
        first_open(s, i + 1)
    }
}

/// Index of the last closing delimiter before `j`, or `-1`.
pub open spec fn last_close(s: Seq<char>, j: int) -> int
    decreases j,
{
    if j <= 0 || j > s.len() {
        -1
    } else if is_close(s[j - 1]) {
        j - 1
    } else {
        last_close(s, j - 1)
    }
}

/// The JSON payload of a reply: from the first `{` or `[` through the last
/// `}` or `]`; a missing opening counts as the start, a missing closing as
/// the end, and when the two do not enclose anything the reply is kept.
pub open spec fn extracted(s: Seq<char>) -> Seq<char> {
    let o = first_open(s, 0);
    let c = last_close(s, s.len() as int);
    let start = if o >= 0 {
        o
    } else {
        0
    };
    let end = if c >= 0 {
        c + 1
    } else {
        s.len() as int
    };
    if start < end {
        s.subrange(start, end)
    } else {
        s
    }
}

pub proof fn lemma_first_open(s: Seq<char>, i: int)
    requires
        0 <= i,
    ensures
        first_open(s, i) == -1 || (i <= first_open(s, i) < s.len() && is_open(s[first_open(s, i)])),
        first_open(s, i) == -1 ==> forall|k: int| i <= k < s.len() ==> !is_open(#[trigger] s[k]),
        first_open(s, i) >= 0 ==> forall|k: int| i <= k < first_open(s, i) ==> !is_open(#[trigger] s[k]),
    decreases s.len() - i,
{
    if i < s.len() && !is_open(s[i]) {
        lemma_first_open(s, i + 1);
    }
}

pub proof fn lemma_last_close(s: Seq<char>, j: int)
    requires
        j <= s.len(),
    ensures
        last_close(s, j) == -1 || (0 <= last_close(s, j) < j && is_close(s[last_close(s, j)])),
        last_close(s, j) == -1 ==> forall|k: int| 0 <= k < j ==> !is_close(#[trigger] s[k]),
        last_close(s, j) >= 0 ==> forall|k: int| last_close(s, j) < k < j ==> !is_close(#[trigger] s[k]),
    decreases j,
{
    if j > 0 && !is_close(s[j - 1]) {
        lemma_last_close(s, j - 1);
    }
}

/// Strips markdown fences and surrounding prose from a model reply, keeping
/// the slice from the first `{` or `[` through the last `}` or `]`. A reply
/// without delimiters comes back unchanged.
pub fn extract_json(reply: &str) -> (r: &str)
    ensures
        r@ == extracted(reply@),
{
    let n = reply.unicode_len();
    let mut start: usize = 0;
    let mut found_open = false;
    let mut i: usize = 0;
    while i < n
        invariant
            n == reply@.len(),
            i <= n,
            found_open ==> i == n,
            !found_open ==> first_open(reply@, 0) == first_open(reply@, i as int) && start == 0,
            found_open ==> first_open(reply@, 0) == start && start < n,
        decreases n - i,
    {
        let c = reply.get_char(i);
        if c == '{' || c == '[' {
            start = i;
            found_open = true;
            i = n;
        } else {
            i = i + 1;
        }
    }
    if !found_open {
        assert(first_open(reply@, 0) == -1);
    }
    let mut end: usize = n;
    let mut j: usize = n;
    let mut found_close = false;
    while j > 0
        invariant
            n == reply@.len(),
            j <= n,
            found_close ==> j == 0,
            found_open ==> first_open(reply@, 0) == start && start < n,
            !found_open ==> first_open(reply@, 0) == -1 && start == 0,
            !found_close ==> last_close(reply@, n as int) == last_close(reply@, j as int) && end == n,
            found_close ==> last_close(reply@, n as int) + 1 == end && 1 <= end <= n,
        decreases j,
    {
        let c = reply.get_char(j - 1);
        if c == '}' || c == ']' {
            end = j;
            found_close = true;
            j = 0;
        } else {
            j = j - 1;
        }
    }
    if !found_close {
        assert(last_close(reply@, n as int) == -1);
    }
    assert(start as int == (if first_open(reply@, 0) >= 0 {
        first_open(reply@, 0)
    } else {
        0
    }));
    assert(end as int == (if last_close(reply@, reply@.len() as int) >= 0 {
        last_close(reply@, reply@.len() as int) + 1
    } else {
        reply@.len() as int
    }));
    if start < end {
        reply.substring_char(start, end)
    } else {
        reply
    }
}

/// When a reply holds an opening delimiter followed later by a closing one,
/// the extracted payload starts with an opening and ends with a closing
/// delimiter; a reply without any delimiter is kept whole.
pub proof fn lemma_extracted_delimits(s: Seq<char>)
    ensures
        (first_open(s, 0) >= 0 && last_close(s, s.len() as int) > first_open(s, 0)) ==> {
            let x = extracted(s);
            x.len() > 0 && is_open(x[0]) && is_close(x[x.len() - 1])
        },
        (first_open(s, 0) == -1 && last_close(s, s.len() as int) == -1) ==> extracted(s) == s,
{
    lemma_first_open(s, 0);
    lemma_last_close(s, s.len() as int);
    if first_open(s, 0) == -1 && last_close(s, s.len() as int) == -1 {
        assert(s.subrange(0, s.len() as int) =~= s);
    }
}

fn with_schema(lead: &str, schema: &str) -> (r: String)
    ensures
        r@ == lead@ + schema@,
{
    let mut s = String::from_str(lead);
    s.append(schema);
    s
}

pub open spec fn next_actions_lead() -> Seq<char> {
    "You are a planning assistant. Your task is to examine the current plan and determine which steps should be executed next. Respond with ONLY a JSON array matching this schema (no prose, no markdown fences, no explanation):\n\n"@
}

pub open spec fn create_plan_lead() -> Seq<char> {
    "You are a planning assistant. Your task is to create a structured execution plan for the given goal. Respond with ONLY a JSON object matching this schema (no prose, no markdown fences, no explanation):\n\n"@
}

pub open spec fn revise_plan_lead() -> Seq<char> {
    "You are a planning assistant. Your task is to revise an existing plan given a reason and optional context. Respond with ONLY a JSON object matching this schema (no prose, no markdown fences, no explanation):\n\n"@
}

pub open spec fn choose_delegate_lead() -> Seq<char> {
    "You are a delegation strategist in a deep-worker system. Decide whether and how to delegate the goal to sub-agents. Respond with ONLY a JSON object matching this schema (no prose, no markdown fences):\n\n"@
}

/// System prompt asking for a JSON array of planned actions; `schema` is
/// the JSON schema of that array.
pub fn system_for_next_actions(schema: &str) -> (r: String)
    ensures
        r@ == next_actions_lead() + schema@,
{
    with_schema(
        "You are a planning assistant. Your task is to examine the current plan and determine which steps should be executed next. Respond with ONLY a JSON array matching this schema (no prose, no markdown fences, no explanation):\n\n",
        schema,
    )
}

/// System prompt asking for a JSON plan document; `schema` is its JSON schema.
pub fn system_for_create_plan(schema: &str) -> (r: String)
    ensures
        r@ == create_plan_lead() + schema@,
{
    with_schema(
        "You are a planning assistant. Your task is to create a structured execution plan for the given goal. Respond with ONLY a JSON object matching this schema (no prose, no markdown fences, no explanation):\n\n",
        schema,
    )
}

/// System prompt asking for a JSON plan revision; `schema` is its JSON schema.
pub fn system_for_revise_plan(schema: &str) -> (r: String)
    ensures
        r@ == revise_plan_lead() + schema@,
{
    with_schema(
        "You are a planning assistant. Your task is to revise an existing plan given a reason and optional context. Respond with ONLY a JSON object matching this schema (no prose, no markdown fences, no explanation):\n\n",
        schema,
    )
}

/// System prompt asking for a JSON delegation decision; `schema` is its
/// JSON schema.
pub fn system_for_choose_delegate(schema: &str) -> (r: String)
    ensures
        r@ == choose_delegate_lead() + schema@,
{
    with_schema(
        "You are a delegation strategist in a deep-worker system. Decide whether and how to delegate the goal to sub-agents. Respond with ONLY a JSON object matching this schema (no prose, no markdown fences):\n\n",
        schema,
    )
}

pub open spec fn context_block(context: Option<Seq<char>>) -> Seq<char> {
    match context {
        Some(c) => "\n\nContext:\n"@ + c,
        None => Seq::empty(),
    }
}

fn append_context(s: &mut String, context: Option<&str>)
    ensures
        final(s)@ == old(s)@ + context_block(match context {
            Some(c) => Some(c@),
            None => None,
        }),
{
    match context {
        Some(c) => {
            s.append("\n\nContext:\n");
            s.append(c);
        },
        None => {
            assert(old(s)@ + Seq::<char>::empty() =~= old(s)@);
        },
    }
}

/// User prompt for choosing next actions, around the plan's JSON text.
pub fn user_for_next_actions(plan_json: &str, context: Option<&str>) -> (r: String)
    ensures
        r@ == "Current plan:\n"@ + plan_json@ + context_block(match context {
            Some(c) => Some(c@),
            None => None,
        }),
{
    let mut s = String::from_str("Current plan:\n");
    s.append(plan_json);
    append_context(&mut s, context);
    s
}

/// User prompt for creating a plan, around the request's JSON text.
pub fn user_for_create_plan(request_json: &str) -> (r: String)
    ensures
        r@ == "Plan request:\n"@ + request_json@,
{
    with_schema("Plan request:\n", request_json)
}

/// User prompt for revising a plan, around the plan's JSON text.
pub fn user_for_revise_plan(reason: &str, plan_json: &str, context: Option<&str>) -> (r: String)
    ensures
        r@ == "Reason for revision: "@ + reason@ + "\n\nCurrent plan:\n"@ + plan_json@ + context_block(match context {
            Some(c) => Some(c@),
            None => None,
        }),
{
    let mut s = String::from_str("Reason for revision: ");
    s.append(reason);
    s.append("\n\nCurrent plan:\n");
    s.append(plan_json);
    append_context(&mut s, context);
    s
}

} // verus!
