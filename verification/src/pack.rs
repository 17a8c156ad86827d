//! Pack integration: control hooks that may block a runtime operation,
//! observers of applied operations, and the pack capability helpers.

use vstd::prelude::*;

use crate::cap_resolver::{CapabilityResolutionIssue, CapabilityResolutionReport, IssueView};
use crate::cap_schema::{
    check_pack_capability_compatibility, pack_compatibility, CapabilityCompatibilityReport, CapabilitySchemaError,
    PackCapabilitySectionV1,
};
use crate::cap_types::{strings_view, CapabilityComponentDescriptor, CapabilityDeclaration};
use crate::manifest::TaskEnvelope;
use crate::runtime::{RuntimeEvent, RuntimeOperation};

verus! {

/// What a control hook says about an operation.
#[derive(Debug, PartialEq, Eq)]
pub enum HookDecision {
    Continue,
    Block { reason: String },
}

/// An operation a control hook blocked.
#[derive(Debug, PartialEq, Eq)]
pub enum HookError {
    Blocked { reason: String },
}

/// What one hook's decision makes of an operation: it goes on, or it is
/// blocked with the hook's reason.
pub fn decision_outcome(decision: HookDecision) -> (r: Result<(), HookError>)
    ensures
        match decision {
            HookDecision::Continue => r is Ok,
            HookDecision::Block { reason } => r == Err::<(), HookError>(HookError::Blocked { reason }),
        },
{
    match decision {
        HookDecision::Continue => Ok(()),
        HookDecision::Block { reason } => Err(HookError::Blocked { reason }),
    }
}

/// Policy enforcement around runtime operations.
pub trait ControlHook {
    fn pre_operation(&self, envelope: &TaskEnvelope, operation: &RuntimeOperation) -> HookDecision;

    fn post_operation(&self, envelope: &TaskEnvelope, event: &RuntimeEvent);
}

/// Audit/telemetry notifications of applied operations.
pub trait ObserverSub {
    fn on_operation(&self, event: &RuntimeEvent);
}

/// A version 1 pack capability section for a declaration.
pub fn pack_capabilities(declaration: CapabilityDeclaration) -> (r: PackCapabilitySectionV1)
    ensures
        r.schema_version == 1,
        r.declaration@ == declaration@,
{
    PackCapabilitySectionV1::new(declaration)
}

/// Checks a pack capability section against a provider self-description.
pub fn validate_pack_capabilities(
    section: &PackCapabilitySectionV1,
    component: &CapabilityComponentDescriptor,
) -> (r: Result<Vec<CapabilityCompatibilityReport>, CapabilitySchemaError>)
    ensures
        match pack_compatibility(section.schema_version, section.declaration@, component@) {
            Ok(rs) => r matches Ok(v) && v@.map_values(|x: CapabilityCompatibilityReport| x@) == rs,
            Err(e) => r matches Err(err) && err@ == e,
        },
{
    check_pack_capability_compatibility(section, component)
}

/// Request ids of the unresolved issues, in order.
pub open spec fn unresolved_ids(issues: Seq<IssueView>) -> Seq<Seq<char>>
    decreases issues.len(),
{
    if issues.len() == 0 {
        Seq::empty()
    } else {
        match issues.last() {
            IssueView::UnresolvedRequest { request_id, .. } => unresolved_ids(issues.drop_last()).push(request_id),
            _ => unresolved_ids(issues.drop_last()),
        }
    }
}

/// The ids of the requests a report could not resolve, for setup surfaces.
pub fn unresolved_capability_request_ids(report: &CapabilityResolutionReport) -> (r: Vec<String>)
    ensures
        strings_view(r@) == unresolved_ids(report@.issues),
{
    let ghost all = report@.issues;
    let mut out: Vec<String> = Vec::new();
    let mut i: usize = 0;
    proof {
        assert(all.take(0) =~= Seq::<IssueView>::empty());
    }
    while i < report.issues.len()
        invariant
            i <= report.issues.len(),
            all == report@.issues,
            strings_view(out@) == unresolved_ids(all.take(i as int)),
        decreases report.issues.len() - i,
    {
        proof {
            assert(all.take(i + 1).drop_last() =~= all.take(i as int));
            assert(all.take(i + 1).last() == report.issues@[i as int]@);
        }
        let ghost before = out@;
        match &report.issues[i] {
            CapabilityResolutionIssue::UnresolvedRequest { request_id, .. } => {
                out.push(request_id.clone());
                assert(strings_view(out@) =~= strings_view(before).push(request_id@));
            },
            _ => {},
        }
        i = i + 1;
    }
    proof {
        assert(all.take(i as int) =~= all);
    }
    out
}

/// Pushing onto a sequence adds one to its length.
proof fn lemma_push_len<A>(s: Seq<A>, a: A)
    ensures
        s.push(a).len() == s.len() + 1,
{
}

/// Integration registry for hooks and observers.
pub struct PackIntegration {
    control_hooks: Vec<Box<dyn ControlHook>>,
    observer_subs: Vec<Box<dyn ObserverSub>>,
}

impl PackIntegration {
    /// Number of registered control hooks.
    pub closed spec fn hook_count(&self) -> nat {
        self.control_hooks@.len()
    }

    /// Number of registered observers.
    pub closed spec fn observer_count(&self) -> nat {
        self.observer_subs@.len()
    }

    /// The registered control hooks, in the order they are consulted.
    pub closed spec fn hooks(&self) -> Seq<Box<dyn ControlHook>> {
        self.control_hooks@
    }

    /// The registered observers, in the order they are notified.
    pub closed spec fn observers(&self) -> Seq<Box<dyn ObserverSub>> {
        self.observer_subs@
    }

    /// An empty registry.
    pub fn new() -> (r: Self)
        ensures
            r.hook_count() == 0,
            r.observer_count() == 0,
    {
        PackIntegration { control_hooks: Vec::new(), observer_subs: Vec::new() }
    }

    /// Adds a control hook, consulted after the ones already added.
    pub fn with_control_hook(self, hook: Box<dyn ControlHook>) -> (r: Self)
        ensures
            r.hooks() == self.hooks().push(hook),
            r.hook_count() == self.hook_count() + 1,
            r.observers() == self.observers(),
            r.observer_count() == self.observer_count(),
    {
        let PackIntegration { control_hooks, observer_subs } = self;
        let mut hooks = control_hooks;
        let ghost before = hooks@;
        let ghost h = hook;
        hooks.push(hook);
        proof {
            lemma_push_len(before, h);
        }
        PackIntegration { control_hooks: hooks, observer_subs }
    }

    /// Adds an observer.
    pub fn with_observer_sub(self, sub: Box<dyn ObserverSub>) -> (r: Self)
        ensures
            r.observers() == self.observers().push(sub),
            r.observer_count() == self.observer_count() + 1,
            r.hooks() == self.hooks(),
            r.hook_count() == self.hook_count(),
    {
        let PackIntegration { control_hooks, observer_subs } = self;
        let mut subs = observer_subs;
        let ghost before = subs@;
        let ghost o = sub;
        subs.push(sub);
        proof {
            lemma_push_len(before, o);
        }
        PackIntegration { control_hooks, observer_subs: subs }
    }

    /// Asks the control hooks in order; the first that blocks stops the
    /// operation with its reason (see `decision_outcome`). The decisions are
    /// the registered hooks' own; with no hooks every operation goes on.
    pub fn run_pre_hooks(&self, envelope: &TaskEnvelope, operation: &RuntimeOperation) -> (r: Result<(), HookError>)
        ensures
            self.hook_count() == 0 ==> r is Ok,
    {
        let mut i: usize = 0;
        while i < self.control_hooks.len()
            invariant
                i <= self.control_hooks.len(),
            decreases self.control_hooks.len() - i,
        {
            let outcome = decision_outcome(self.control_hooks[i].pre_operation(envelope, operation));
            if outcome.is_err() {
                return outcome;
            }
            i = i + 1;
        }
        Ok(())
    }

    /// Tells every control hook about an applied operation.
    pub fn run_post_hooks(&self, envelope: &TaskEnvelope, event: &RuntimeEvent) {
        let mut i: usize = 0;
        while i < self.control_hooks.len()
            invariant
                i <= self.control_hooks.len(),
            decreases self.control_hooks.len() - i,
        {
            self.control_hooks[i].post_operation(envelope, event);
            i = i + 1;
        }
    }

    /// Tells every observer about an applied operation.
    pub fn notify_observers(&self, event: &RuntimeEvent) {
        let mut i: usize = 0;
        while i < self.observer_subs.len()
            invariant
                i <= self.observer_subs.len(),
            decreases self.observer_subs.len() - i,
        {
            self.observer_subs[i].on_operation(event);
            i = i + 1;
        }
    }
}

} // verus!
