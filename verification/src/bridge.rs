//! The dispatch wire contract: subjects, modes, errors, and how a request's
//! headers and an invocation's failure shape the response.

use vstd::prelude::*;

use crate::cap_types::opt_string_view;

verus! {

/// Runtime name selecting the operala subjects.
pub const RUNTIME_NAME: &'static str = "operala";

/// Await vs fire-and-forget dispatch semantics.
#[derive(Clone, Copy, Debug, PartialEq, Eq, Structural)]
pub enum DispatchMode {
    Await,
    FireAndForget,
}

/// Structured error returned when a dispatch fails.
#[derive(Debug, PartialEq, Eq)]
pub struct DispatchError {
    pub code: String,
    pub message: String,
}

/// Request subject for a runtime, e.g. `greentic.operala.request.v1`.
pub fn request_topic(runtime: &str) -> (r: String)
    ensures
        r@ == "greentic."@ + runtime@ + ".request.v1"@,
{
    let mut s = String::from_str("greentic.");
    s.append(runtime);
    s.append(".request.v1");
    s
}

/// Response subject for a runtime, e.g. `greentic.operala.response.v1`.
pub fn response_topic(runtime: &str) -> (r: String)
    ensures
        r@ == "greentic."@ + runtime@ + ".response.v1"@,
{
    let mut s = String::from_str("greentic.");
    s.append(runtime);
    s.append(".response.v1");
    s
}

/// The error carried by the response of a failed invocation.
pub fn invoke_failure(message: String) -> (r: DispatchError)
    ensures
        r.code@ == "invoke_failed"@,
        r.message == message,
{
    DispatchError { code: String::from_str("invoke_failed"), message }
}

/// What an invocation produced: whether it succeeded, its output and its
/// events, each a JSON text.
#[derive(Debug, PartialEq, Eq)]
pub struct InvokeOutcome {
    pub ok: bool,
    pub output: String,
    pub events: Vec<String>,
}

/// The response to a dispatch request; `output` and `events` are JSON texts.
#[derive(Debug, PartialEq, Eq)]
pub struct DispatchResponse {
    pub ok: bool,
    pub output: String,
    pub events: Vec<String>,
    pub error: Option<DispatchError>,
}

/// The response to a request given how its invocation went: an outcome is
/// passed on as it is, with no error; a failure answers not ok, with a
/// `null` output, no events and the `invoke_failed` error carrying the
/// failure's message.
pub fn build_response(invocation: Result<InvokeOutcome, String>) -> (r: DispatchResponse)
    ensures
        match invocation {
            Ok(outcome) => r.ok == outcome.ok && r.output == outcome.output && r.events == outcome.events
                && r.error is None,
            Err(message) => !r.ok && r.output@ == "null"@ && r.events@.len() == 0 && (r.error matches Some(e)
                && e.code@ == "invoke_failed"@ && e.message == message),
        },
{
    match invocation {
        Ok(outcome) => DispatchResponse { ok: outcome.ok, output: outcome.output, events: outcome.events, error: None },
        Err(message) => DispatchResponse {
            ok: false,
            output: String::from_str("null"),
            events: Vec::new(),
            error: Some(invoke_failure(message)),
        },
    }
}

/// What a request's headers decide for its handling.
#[derive(Debug, PartialEq, Eq)]
pub struct DispatchHeaders {
    /// Echoed verbatim on the response when present.
    pub correlation: Option<String>,
    /// Idempotency key, falling back to the correlation id.
    pub idempotency: Option<String>,
    /// Tenant, empty when absent.
    pub tenant: String,
    /// Environment, `default` when absent.
    pub env: String,
}

/// Reads the dispatch headers: the idempotency key falls back to the
/// correlation id, the tenant to empty text, the environment to `default`.
pub fn dispatch_headers(
    correlation: Option<String>,
    idempotency: Option<String>,
    tenant: Option<String>,
    env: Option<String>,
) -> (r: DispatchHeaders)
    ensures
        r.correlation == correlation,
        opt_string_view(r.idempotency) == (if idempotency is Some {
            opt_string_view(idempotency)
        } else {
            opt_string_view(correlation)
        }),
        r.tenant@ == match tenant {
            Some(t) => t@,
            None => Seq::<char>::empty(),
        },
        r.env@ == match env {
            Some(e) => e@,
            None => "default"@,
        },
{
    let idem = match idempotency {
        Some(k) => Some(k),
        None => match &correlation {
            Some(c) => Some(c.clone()),
            None => None,
        },
    };
    let tenant = match tenant {
        Some(t) => t,
        None => String::new(),
    };
    let env = match env {
        Some(e) => e,
        None => String::from_str("default"),
    };
    DispatchHeaders { correlation, idempotency: idem, tenant, env }
}

} // verus!
