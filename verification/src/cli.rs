//! Decisions of the command line: prompt texts by locale, setting
//! precedence, answer sources, provider overrides, capability slugs and
//! agent answer prefixes, and the health endpoint's answer.

use vstd::prelude::*;

use crate::cap_types::CapabilityId;
use crate::delegation::lower_code;
use crate::text::{has_prefix, is_blank, str_is_blank, str_starts_with, str_trim, trimmed};

verus! {

pub const DEFAULT_NATS_URL: &'static str = "nats://localhost:4222";

pub const DEFAULT_MODEL: &'static str = "gpt-4o";

/// A prompt of the interactive wizard.
#[derive(Clone, Copy, Debug, PartialEq, Eq, Structural)]
pub enum MsgKey {
    ManifestId,
    DisplayName,
    Tenant,
    Team,
    RequestedLocale,
    HumanLocale,
}

/// Index of the first `-` or `_` from `i` on, or the length.
pub open spec fn lang_end(s: Seq<char>, i: int) -> int
    decreases s.len() - i,
{
    if i < 0 || i >= s.len() {
        s.len() as int
    } else if s[i] == '-' || s[i] == '_' {
        i
    } else {
        lang_end(s, i + 1)
    }
}

/// The language part of a locale: the text before the first `-` or `_`.
pub open spec fn language(locale: Seq<char>) -> Seq<char> {
    locale.take(lang_end(locale, 0))
}

pub open spec fn prompt_text(dutch: bool, key: MsgKey) -> Seq<char> {
    if dutch {
        match key {
            MsgKey::ManifestId => "Manifest-ID invoeren: "@,
            MsgKey::DisplayName => "Weergavenaam invoeren: "@,
            MsgKey::Tenant => "Tenant invoeren: "@,
            MsgKey::Team => "Team invoeren (optioneel): "@,
            MsgKey::RequestedLocale => "Gevraagde locale invoeren (optioneel): "@,
            MsgKey::HumanLocale => "Human locale invoeren (optioneel): "@,
        }
    } else {
        match key {
            MsgKey::ManifestId => "Enter manifest id: "@,
            MsgKey::DisplayName => "Enter display name: "@,
            MsgKey::Tenant => "Enter tenant: "@,
            MsgKey::Team => "Enter team (optional): "@,
            MsgKey::RequestedLocale => "Enter requested locale (optional): "@,
            MsgKey::HumanLocale => "Enter human locale (optional): "@,
        }
    }
}

fn is_dutch(locale: &str) -> (r: bool)
    ensures
        r == (language(locale@) == seq!['n', 'l']),
{
    let n = locale.unicode_len();
    let mut i: usize = 0;
    let mut end: usize = n;
    while i < n
        invariant
            n == locale@.len(),
            i <= n,
            end <= n,
            end < n ==> i == n && lang_end(locale@, 0) == end,
            end == n ==> lang_end(locale@, 0) == lang_end(locale@, i as int),
        decreases n - i,
    {
        let c = locale.get_char(i);
        if c == '-' || c == '_' {
            end = i;
            i = n;
        } else {
            i = i + 1;
        }
    }
    assert(lang_end(locale@, 0) == end);
    if end == 2 {
        let a = locale.get_char(0);
        let b = locale.get_char(1);
        assert(language(locale@) =~= seq![locale@[0], locale@[1]]);
        a == 'n' && b == 'l'
    } else {
        assert(language(locale@).len() == end);
        false
    }
}

/// The prompt text for `key` in the locale's language: Dutch for `nl`,
/// English otherwise.
pub fn localized(locale: &str, key: MsgKey) -> (r: &'static str)
    ensures
        r@ == prompt_text(language(locale@) == seq!['n', 'l'], key),
{
    if is_dutch(locale) {
        match key {
            MsgKey::ManifestId => "Manifest-ID invoeren: ",
            MsgKey::DisplayName => "Weergavenaam invoeren: ",
            MsgKey::Tenant => "Tenant invoeren: ",
            MsgKey::Team => "Team invoeren (optioneel): ",
            MsgKey::RequestedLocale => "Gevraagde locale invoeren (optioneel): ",
            MsgKey::HumanLocale => "Human locale invoeren (optioneel): ",
        }
    } else {
        match key {
            MsgKey::ManifestId => "Enter manifest id: ",
            MsgKey::DisplayName => "Enter display name: ",
            MsgKey::Tenant => "Enter tenant: ",
            MsgKey::Team => "Enter team (optional): ",
            MsgKey::RequestedLocale => "Enter requested locale (optional): ",
            MsgKey::HumanLocale => "Enter human locale (optional): ",
        }
    }
}

/// The first of argument, environment value and default that is given.
pub open spec fn first_given(arg: Option<&str>, env: Option<String>, default: Seq<char>) -> Seq<char> {
    match arg {
        Some(a) => a@,
        None => match env {
            Some(e) => e@,
            None => default,
        },
    }
}

/// NATS URL: the argument, else the environment value, else the default.
pub fn resolve_nats_url(arg: Option<&str>, env: Option<String>) -> (r: String)
    ensures
        r@ == first_given(arg, env, DEFAULT_NATS_URL@),
{
    match arg {
        Some(a) => String::from_str(a),
        None => match env {
            Some(e) => e,
            None => String::from_str(DEFAULT_NATS_URL),
        },
    }
}

/// Model: the argument, else the environment value, else the default.
pub fn resolve_model(arg: Option<&str>, env: Option<String>) -> (r: String)
    ensures
        r@ == first_given(arg, env, DEFAULT_MODEL@),
{
    match arg {
        Some(a) => String::from_str(a),
        None => match env {
            Some(e) => e,
            None => String::from_str(DEFAULT_MODEL),
        },
    }
}

pub open spec fn healthz_ok_text() -> Seq<char> {
    "HTTP/1.1 200 OK\r\nContent-Type: text/plain\r\nContent-Length: 2\r\nConnection: close\r\n\r\nok"@
}

pub open spec fn not_found_text() -> Seq<char> {
    "HTTP/1.1 404 Not Found\r\nContent-Length: 0\r\nConnection: close\r\n\r\n"@
}

/// The health endpoint's answer to a request whose first line is
/// `first_line`: `200 ok` for `GET /healthz`, `404` otherwise.
pub fn healthz_response(first_line: &str) -> (r: &'static str)
    ensures
        has_prefix(first_line@, "GET /healthz "@) ==> r@ == healthz_ok_text(),
        !has_prefix(first_line@, "GET /healthz "@) ==> r@ == not_found_text(),
{
    if str_starts_with(first_line, "GET /healthz ") {
        "HTTP/1.1 200 OK\r\nContent-Type: text/plain\r\nContent-Length: 2\r\nConnection: close\r\n\r\nok"
    } else {
        "HTTP/1.1 404 Not Found\r\nContent-Length: 0\r\nConnection: close\r\n\r\n"
    }
}

/// An answers source fetched over HTTPS.
pub fn is_remote_answers_url(value: &str) -> (r: bool)
    ensures
        r == has_prefix(value@, "https://"@),
{
    str_starts_with(value, "https://")
}

/// An answers source over plain HTTP, which is refused.
pub fn is_insecure_http_url(value: &str) -> (r: bool)
    ensures
        r == has_prefix(value@, "http://"@),
{
    str_starts_with(value, "http://")
}

/// Command-line failure.
#[derive(Debug, PartialEq, Eq)]
pub enum CliError {
    InvalidProviderOverride { value: String },
    UnknownAgentKind(String),
}

/// Index of the first `c` in `s` from `i` on, or `-1`.
pub open spec fn char_index(s: Seq<char>, c: char, i: int) -> int
    decreases s.len() - i,
{
    if i < 0 || i >= s.len() {
        -1
    } else if s[i] == c {
        i
    } else {
        char_index(s, c, i + 1)
    }
}

/// What a `capability=provider` override gives: both sides trimmed, or
/// `None` when there is no `=` or a side is blank.
pub open spec fn provider_override(v: Seq<char>) -> Option<(Seq<char>, Seq<char>)> {
    let k = char_index(v, '=', 0);
    if k < 0 {
        None
    } else {
        let a = v.take(k);
        let b = v.skip(k + 1);
        if is_blank(a) || is_blank(b) {
            None
        } else {
            Some((trimmed(a), trimmed(b)))
        }
    }
}

fn find_char(s: &str, c: char) -> (r: Option<usize>)
    ensures
        match r {
            Some(k) => k < s@.len() && char_index(s@, c, 0) == k,
            None => char_index(s@, c, 0) == -1,
        },
{
    let n = s.unicode_len();
    let mut i: usize = 0;
    while i < n
        invariant
            n == s@.len(),
            i <= n,
            char_index(s@, c, 0) == char_index(s@, c, i as int),
        decreases n - i,
    {
        if s.get_char(i) == c {
            return Some(i);
        }
        i = i + 1;
    }
    None
}

/// Parses a `capability=provider` override.
pub fn parse_provider_override(value: &str) -> (r: Result<(String, String), CliError>)
    ensures
        match provider_override(value@) {
            Some((a, b)) => r matches Ok((x, y)) && x@ == a && y@ == b,
            None => r matches Err(CliError::InvalidProviderOverride { value: v }) && v@ == value@,
        },
{
    let n = value.unicode_len();
    match find_char(value, '=') {
        None => Err(CliError::InvalidProviderOverride { value: String::from_str(value) }),
        Some(k) => {
            let a = value.substring_char(0, k);
            let b = value.substring_char(k + 1, n);
            assert(a@ =~= value@.take(k as int));
            assert(b@ =~= value@.skip(k + 1));
            if str_is_blank(a) || str_is_blank(b) {
                Err(CliError::InvalidProviderOverride { value: String::from_str(value) })
            } else {
                Ok((str_trim(a), str_trim(b)))
            }
        },
    }
}

/// Whether `p` occurs in `s` at position `i`.
pub open spec fn occurs_at(s: Seq<char>, p: Seq<char>, i: int) -> bool {
    0 <= i && i + p.len() <= s.len() && s.subrange(i, i + p.len()) == p
}

/// `s` from `i` on with every non-overlapping `p` (found left to right)
/// removed.
pub open spec fn without_from(s: Seq<char>, p: Seq<char>, i: int) -> Seq<char>
    decreases s.len() - i,
{
    if i < 0 || i >= s.len() || p.len() == 0 {
        if 0 <= i < s.len() {
            s.skip(i)
        } else {
            Seq::empty()
        }
    } else if occurs_at(s, p, i) {
        without_from(s, p, i + p.len())
    } else {
        seq![s[i]] + without_from(s, p, i + 1)
    }
}

/// Every `/` replaced by `.`.
pub open spec fn slashes_to_dots(s: Seq<char>) -> Seq<char> {
    s.map_values(|c: char| if c == '/' {
        '.'
    } else {
        c
    })
}

/// The slug of a capability id: `cap://` removed, `/` turned into `.`.
pub open spec fn slug_of(id: Seq<char>) -> Seq<char> {
    slashes_to_dots(without_from(id, "cap://"@, 0))
}

fn occurs_at_exec(s: &str, n: usize, p: &str, m: usize, i: usize) -> (r: bool)
    requires
        n == s@.len(),
        m == p@.len(),
        i <= n,
    ensures
        r == occurs_at(s@, p@, i as int),
{
    if m > n - i {
        return false;
    }
    let mut k: usize = 0;
    while k < m
        invariant
            n == s@.len(),
            m == p@.len(),
            i + m <= n,
            k <= m,
            forall|q: int| 0 <= q < k ==> s@[i + q] == p@[q],
        decreases m - k,
    {
        if s.get_char(i + k) != p.get_char(k) {
            assert(s@.subrange(i as int, i + m)[k as int] != p@[k as int]);
            return false;
        }
        k = k + 1;
    }
    assert(s@.subrange(i as int, i + m) =~= p@);
    true
}

/// The capability's slug, used in answer paths.
pub fn capability_slug(capability_id: &CapabilityId) -> (r: String)
    ensures
        r@ == slug_of(capability_id@),
{
    let s = capability_id.as_str();
    let p = "cap://";
    proof {
        reveal_strlit("cap://");
    }
    let n = s.unicode_len();
    let m = p.unicode_len();
    let mut out = String::new();
    let mut i: usize = 0;
    proof {
        assert(out@ + slashes_to_dots(without_from(s@, p@, 0)) =~= slashes_to_dots(without_from(s@, p@, 0)));
    }
    while i < n
        invariant
            n == s@.len(),
            m == p@.len(),
            m == 6,
            i <= n,
            s@ == capability_id@,
            slug_of(s@) == out@ + slashes_to_dots(without_from(s@, p@, i as int)),
        decreases n - i,
    {
        if occurs_at_exec(s, n, p, m, i) {
            i = i + m;
        } else {
            let c = s.get_char(i);
            let ghost before = out@;
            let piece = s.substring_char(i, i + 1);
            assert(piece@ =~= seq![c]);
            if c == '/' {
                out.append(".");
                proof {
                    reveal_strlit(".");
                }
            } else {
                out.append(piece);
            }
            proof {
                let d = if c == '/' {
                    '.'
                } else {
                    c
                };
                assert(out@ =~= before + seq![d]);
                assert(without_from(s@, p@, i as int) == seq![c] + without_from(s@, p@, i + 1));
                assert(slashes_to_dots(seq![c] + without_from(s@, p@, i + 1)) =~= seq![d] + slashes_to_dots(
                    without_from(s@, p@, i + 1),
                ));
            }
            i = i + 1;
        }
    }
    proof {
        assert(without_from(s@, p@, i as int) =~= Seq::<char>::empty());
        assert(slashes_to_dots(Seq::<char>::empty()) =~= Seq::<char>::empty());
        assert(out@ + Seq::<char>::empty() =~= out@);
    }
    out
}

/// Index of the first occurrence of `p` in `s` from `i` on, or `-1`.
pub open spec fn find_from(s: Seq<char>, p: Seq<char>, i: int) -> int
    decreases s.len() - i,
{
    if i < 0 || i >= s.len() {
        -1
    } else if occurs_at(s, p, i) {
        i
    } else {
        find_from(s, p, i + 1)
    }
}

/// Every `.` replaced by `/`.
pub open spec fn dots_to_slashes(s: Seq<char>) -> Seq<char> {
    s.map_values(|c: char| if c == '.' {
        '/'
    } else {
        c
    })
}

/// The capability id named by a selection answer path: the part between the
/// first `.selection.` and the next one (or the end), with dots turned into
/// slashes under `cap://`.
pub open spec fn selection_capability(path: Seq<char>) -> Option<Seq<char>> {
    let p = ".selection."@;
    let a = find_from(path, p, 0);
    if a < 0 {
        None
    } else {
        let start = a + p.len();
        let b = find_from(path, p, start);
        let end = if b < 0 {
            path.len() as int
        } else {
            b
        };
        Some("cap://"@ + dots_to_slashes(path.subrange(start, end)))
    }
}

fn find_exec(s: &str, n: usize, p: &str, m: usize, from: usize) -> (r: Option<usize>)
    requires
        n == s@.len(),
        m == p@.len(),
        from <= n,
    ensures
        match r {
            Some(k) => k < n && find_from(s@, p@, from as int) == k,
            None => find_from(s@, p@, from as int) == -1,
        },
{
    let mut i: usize = from;
    while i < n
        invariant
            n == s@.len(),
            m == p@.len(),
            from <= i <= n,
            find_from(s@, p@, from as int) == find_from(s@, p@, i as int),
        decreases n - i,
    {
        if occurs_at_exec(s, n, p, m, i) {
            return Some(i);
        }
        i = i + 1;
    }
    None
}

proof fn lemma_find_from_range(s: Seq<char>, p: Seq<char>, i: int)
    requires
        0 <= i,
    ensures
        find_from(s, p, i) == -1 || (i <= find_from(s, p, i) && occurs_at(s, p, find_from(s, p, i))),
    decreases s.len() - i,
{
    if i < s.len() && !occurs_at(s, p, i) {
        lemma_find_from_range(s, p, i + 1);
    }
}

/// The capability id named by a selection answer path, if it names one.
pub fn capability_id_from_selection_path(path: &str) -> (r: Option<String>)
    ensures
        match r {
            Some(x) => selection_capability(path@) == Some(x@),
            None => selection_capability(path@) is None,
        },
{
    let p = ".selection.";
    proof {
        reveal_strlit(".selection.");
    }
    let n = path.unicode_len();
    let m = p.unicode_len();
    match find_exec(path, n, p, m, 0) {
        None => None,
        Some(a) => {
            proof {
                lemma_find_from_range(path@, p@, 0);
            }
            let start = a + m;
            let end = match find_exec(path, n, p, m, start) {
                Some(b) => {
                    proof {
                        lemma_find_from_range(path@, p@, start as int);
                    }
                    b
                },
                None => n,
            };
            let mut out = String::from_str("cap://");
            let ghost head = out@;
            let mut i: usize = start;
            proof {
                assert(path@.subrange(start as int, start as int) =~= Seq::<char>::empty());
                assert(out@ =~= head + dots_to_slashes(path@.subrange(start as int, start as int)));
            }
            while i < end
                invariant
                    start <= i <= end,
                    end <= n,
                    n == path@.len(),
                    out@ == head + dots_to_slashes(path@.subrange(start as int, i as int)),
                decreases end - i,
            {
                let c = path.get_char(i);
                let ghost before = out@;
                if c == '.' {
                    out.append("/");
                    proof {
                        reveal_strlit("/");
                    }
                } else {
                    let piece = path.substring_char(i, i + 1);
                    assert(piece@ =~= seq![c]);
                    out.append(piece);
                }
                proof {
                    let d = if c == '.' {
                        '/'
                    } else {
                        c
                    };
                    assert(out@ =~= before + seq![d]);
                    assert(path@.subrange(start as int, i + 1) =~= path@.subrange(start as int, i as int).push(c));
                    assert(dots_to_slashes(path@.subrange(start as int, i + 1)) =~= dots_to_slashes(
                        path@.subrange(start as int, i as int),
                    ).push(d));
                }
                i = i + 1;
            }
            Some(out)
        },
    }
}

/// Index just after the last occurrence of `agent-` before `j`, or `-1`.
pub open spec fn last_agent_marker(s: Seq<char>, j: int) -> int
    decreases j,
{
    if j < 0 || j > s.len() {
        -1
    } else if occurs_at(s, "agent-"@, j) {
        j + 6
    } else if j == 0 {
        -1
    } else {
        last_agent_marker(s, j - 1)
    }
}

/// The numeric part of an agent id: what follows the last `agent-`, or `1`
/// when there is none or it is empty.
pub open spec fn agent_suffix(id: Seq<char>) -> Seq<char> {
    let k = last_agent_marker(id, id.len() as int);
    if k < 0 || k >= id.len() {
        "1"@
    } else {
        id.skip(k)
    }
}

/// The numeric part of an agent id.
pub fn agent_numeric_suffix(agent_id: &str) -> (r: &str)
    ensures
        r@ == agent_suffix(agent_id@),
{
    let p = "agent-";
    proof {
        reveal_strlit("agent-");
    }
    let n = agent_id.unicode_len();
    let m = p.unicode_len();
    let mut j: usize = n;
    loop
        invariant
            n == agent_id@.len(),
            m == 6,
            m == p@.len(),
            p@ == "agent-"@,
            j <= n,
            last_agent_marker(agent_id@, n as int) == last_agent_marker(agent_id@, j as int),
        decreases j,
    {
        if occurs_at_exec(agent_id, n, p, m, j) {
            let k = j + m;
            if k >= n {
                return "1";
            }
            return agent_id.substring_char(k, n);
        }
        if j == 0 {
            return "1";
        }
        j = j - 1;
    }
}

/// The answer-key prefix of an agent: `agent.<number>.`.
pub fn agent_numeric_answer_prefix(agent_id: &str) -> (r: String)
    ensures
        r@ == "agent."@ + agent_suffix(agent_id@) + "."@,
{
    let mut s = String::from_str("agent.");
    s.append(agent_numeric_suffix(agent_id));
    s.append(".");
    s
}


/// The kind of agentic worker a worker spec describes.
#[derive(Clone, Copy, Debug, PartialEq, Eq, Structural)]
pub enum AgentKind {
    SingleTurn,
    AgentGraph,
    DeepWorker,
}

/// A character of a kind name as compared: ASCII lower case, `-` read as `_`.
pub open spec fn kind_code(c: char) -> u32 {
    if c == '-' {
        95
    } else {
        lower_code(c)
    }
}

/// Whether `s` names `target` (a lower-case `_`-separated name), ignoring
/// ASCII case and with `-` for `_`.
pub open spec fn names_kind(s: Seq<char>, target: Seq<char>) -> bool {
    s.len() == target.len() && forall|i: int| 0 <= i < s.len() ==> kind_code(#[trigger] s[i]) == (target[i] as u32)
}

fn names_kind_exec(s: &str, target: &str) -> (r: bool)
    ensures
        r == names_kind(s@, target@),
{
    let n = s.unicode_len();
    if n != target.unicode_len() {
        return false;
    }
    let mut i: usize = 0;
    while i < n
        invariant
            n == s@.len(),
            n == target@.len(),
            i <= n,
            forall|k: int| 0 <= k < i ==> kind_code(#[trigger] s@[k]) == (target@[k] as u32),
        decreases n - i,
    {
        let c = s.get_char(i);
        let v = c as u32;
        let code: u32 = if c == '-' {
            95
        } else if 65 <= v && v <= 90 {
            v + 32
        } else {
            v
        };
        if code != target.get_char(i) as u32 {
            return false;
        }
        i = i + 1;
    }
    true
}

/// Parses a free-form kind (`single_turn`, `agent-graph`, `Deep_Worker`, ...).
pub fn parse_agent_kind(kind: &str) -> (r: Result<AgentKind, CliError>)
    ensures
        names_kind(kind@, "single_turn"@) ==> r == Ok::<AgentKind, CliError>(AgentKind::SingleTurn),
        !names_kind(kind@, "single_turn"@) && names_kind(kind@, "agent_graph"@) ==> r == Ok::<AgentKind, CliError>(
            AgentKind::AgentGraph,
        ),
        !names_kind(kind@, "single_turn"@) && !names_kind(kind@, "agent_graph"@) && names_kind(kind@, "deep_worker"@)
            ==> r == Ok::<AgentKind, CliError>(AgentKind::DeepWorker),
        !names_kind(kind@, "single_turn"@) && !names_kind(kind@, "agent_graph"@) && !names_kind(kind@, "deep_worker"@)
            ==> (r matches Err(CliError::UnknownAgentKind(k)) && k@ == kind@),
{
    if names_kind_exec(kind, "single_turn") {
        Ok(AgentKind::SingleTurn)
    } else if names_kind_exec(kind, "agent_graph") {
        Ok(AgentKind::AgentGraph)
    } else if names_kind_exec(kind, "deep_worker") {
        Ok(AgentKind::DeepWorker)
    } else {
        Err(CliError::UnknownAgentKind(String::from_str(kind)))
    }
}

} // verus!
