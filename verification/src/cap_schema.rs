//! Pack capability sections, offer/component compatibility checks, and the
//! binding emissions handed to bundle and setup tooling.
//!
//! Operation schemas are JSON texts and are compared as JSON values: two
//! texts of the same value match, whatever their spacing or key order.

use vstd::prelude::*;

use crate::cap_resolver::{CapabilityResolutionReport, ReportView};
use crate::cap_types::{
    clone_consumes, clone_opt_provider, clone_opt_string, clone_requirements, declaration_check, opt_provider_view, opt_string_view,
    reports, strings_view, BindingView, CapabilityBinding, CapabilityBindingKind,
    CapabilityComponentDescriptor, CapabilityDeclaration, CapabilityId, CapabilityOffer, CapabilityProfile,
    CapabilityProviderRef, CapabilityValidationError, ComponentOperationView, ComponentView,
    DeclarationView, OfferView, ProfileView, OperationMapView, ProviderView, ValidationErrorView,
};
use crate::text::{decimal, is_blank, str_equal, str_is_blank, u64_to_decimal};

verus! {

/// Errors produced by the schema helper layer.
#[derive(Debug, PartialEq, Eq)]
pub enum CapabilitySchemaError {
    /// CBOR serialization failed.
    Encode(String),
    /// CBOR deserialization failed.
    Decode(String),
    /// Validation failed.
    Validation(CapabilityValidationError),
    /// Compatibility validation failed.
    Compatibility(String),
}

pub enum SchemaErrorView {
    Encode(Seq<char>),
    Decode(Seq<char>),
    Validation(ValidationErrorView),
    Compatibility(Seq<char>),
}

impl View for CapabilitySchemaError {
    type V = SchemaErrorView;

    open spec fn view(&self) -> SchemaErrorView {
        match self {
            CapabilitySchemaError::Encode(m) => SchemaErrorView::Encode(m@),
            CapabilitySchemaError::Decode(m) => SchemaErrorView::Decode(m@),
            CapabilitySchemaError::Validation(e) => SchemaErrorView::Validation(e@),
            CapabilitySchemaError::Compatibility(m) => SchemaErrorView::Compatibility(m@),
        }
    }
}

/// Versioned pack capability section payload.
#[derive(Debug, PartialEq, Eq)]
pub struct PackCapabilitySectionV1 {
    /// Schema version for the section.
    pub schema_version: u32,
    /// Canonical capability declaration payload.
    pub declaration: CapabilityDeclaration,
}

/// What validating a section reports: an unsupported version, else the
/// declaration's first problem.
pub open spec fn section_validation(version: u32, d: DeclarationView) -> Option<SchemaErrorView> {
    if version != 1 {
        Some(SchemaErrorView::Compatibility("unsupported pack capability schema_version "@ + decimal(version as nat)))
    } else {
        match declaration_check(d) {
            Some(e) => Some(SchemaErrorView::Validation(e)),
            None => None,
        }
    }
}

pub open spec fn schema_reports(r: Result<(), CapabilitySchemaError>, c: Option<SchemaErrorView>) -> bool {
    match r {
        Ok(_) => c is None,
        Err(e) => c == Some(e@),
    }
}

impl PackCapabilitySectionV1 {
    /// Creates a version 1 section for a declaration.
    pub fn new(declaration: CapabilityDeclaration) -> (r: Self)
        ensures
            r.schema_version == 1,
            r.declaration@ == declaration@,
    {
        PackCapabilitySectionV1 { schema_version: 1, declaration }
    }

    /// Validates the section version and the wrapped declaration.
    pub fn validate(&self) -> (r: Result<(), CapabilitySchemaError>)
        ensures
            schema_reports(r, section_validation(self.schema_version, self.declaration@)),
    {
        if self.schema_version != 1 {
            let mut m = String::from_str("unsupported pack capability schema_version ");
            let v = u64_to_decimal(self.schema_version as u64);
            m.append(v.as_str());
            return Err(CapabilitySchemaError::Compatibility(m));
        }
        match self.declaration.validate() {
            Err(e) => Err(CapabilitySchemaError::Validation(e)),
            Ok(()) => Ok(()),
        }
    }
}

/// The declaration a profile is checked in before it is encoded: the
/// profile's own requirements and consumes, and the profile itself.
pub open spec fn profile_declaration(p: ProfileView) -> DeclarationView {
    DeclarationView { offers: Seq::empty(), requires: p.requires, consumes: p.consumes, profiles: seq![p] }
}

/// Checks a profile before it is encoded on its own: the declaration made of
/// its own items must validate.
pub fn check_profile_for_encoding(profile: &CapabilityProfile) -> (r: Result<(), CapabilitySchemaError>)
    ensures
        schema_reports(
            r,
            match declaration_check(profile_declaration(profile@)) {
                Some(e) => Some(SchemaErrorView::Validation(e)),
                None => None,
            },
        ),
{
    let mut profiles: Vec<CapabilityProfile> = Vec::new();
    profiles.push(profile.clone());
    let declaration = CapabilityDeclaration {
        offers: Vec::new(),
        requires: clone_requirements(&profile.requires),
        consumes: clone_consumes(&profile.consumes),
        profiles,
    };
    assert(declaration@.offers =~= Seq::<OfferView>::empty());
    assert(declaration@.profiles =~= seq![profile@]);
    assert(declaration@ == profile_declaration(profile@));
    match declaration.validate() {
        Err(e) => Err(CapabilitySchemaError::Validation(e)),
        Ok(()) => Ok(()),
    }
}

/// Detailed compatibility issue.
#[derive(Debug, PartialEq, Eq)]
pub enum CapabilityCompatibilityIssue {
    /// The provider points at a different component than the self-description.
    ComponentMismatch { expected: String, found: String },
    /// The component does not advertise the logical capability.
    MissingCapability { capability: String },
    /// The mapped operation is missing from the component description.
    MissingOperation { contract_operation: String, component_operation: String },
    /// The mapped operation input schema does not match.
    InputSchemaMismatch { contract_operation: String, component_operation: String },
    /// The mapped operation output schema does not match.
    OutputSchemaMismatch { contract_operation: String, component_operation: String },
    /// The provider declared no operation map and its operation is missing.
    MissingProviderOperation { operation: String },
    /// The offer did not declare a provider.
    MissingProvider,
}

pub enum CompatIssueView {
    ComponentMismatch { expected: Seq<char>, found: Seq<char> },
    MissingCapability { capability: Seq<char> },
    MissingOperation { contract_operation: Seq<char>, component_operation: Seq<char> },
    InputSchemaMismatch { contract_operation: Seq<char>, component_operation: Seq<char> },
    OutputSchemaMismatch { contract_operation: Seq<char>, component_operation: Seq<char> },
    MissingProviderOperation { operation: Seq<char> },
    MissingProvider,
}

impl View for CapabilityCompatibilityIssue {
    type V = CompatIssueView;

    open spec fn view(&self) -> CompatIssueView {
        match self {
            CapabilityCompatibilityIssue::ComponentMismatch { expected, found } => {
                CompatIssueView::ComponentMismatch { expected: expected@, found: found@ }
            },
            CapabilityCompatibilityIssue::MissingCapability { capability } => {
                CompatIssueView::MissingCapability { capability: capability@ }
            },
            CapabilityCompatibilityIssue::MissingOperation { contract_operation, component_operation } => {
                CompatIssueView::MissingOperation {
                    contract_operation: contract_operation@,
                    component_operation: component_operation@,
                }
            },
            CapabilityCompatibilityIssue::InputSchemaMismatch { contract_operation, component_operation } => {
                CompatIssueView::InputSchemaMismatch {
                    contract_operation: contract_operation@,
                    component_operation: component_operation@,
                }
            },
            CapabilityCompatibilityIssue::OutputSchemaMismatch { contract_operation, component_operation } => {
                CompatIssueView::OutputSchemaMismatch {
                    contract_operation: contract_operation@,
                    component_operation: component_operation@,
                }
            },
            CapabilityCompatibilityIssue::MissingProviderOperation { operation } => {
                CompatIssueView::MissingProviderOperation { operation: operation@ }
            },
            CapabilityCompatibilityIssue::MissingProvider => CompatIssueView::MissingProvider,
        }
    }
}

/// Compatibility report for a single offered capability.
#[derive(Debug, PartialEq, Eq)]
pub struct CapabilityCompatibilityReport {
    pub offer_id: String,
    pub component_ref: String,
    /// Whether the offer can be satisfied by the component.
    pub compatible: bool,
    pub issues: Vec<CapabilityCompatibilityIssue>,
}

pub struct CompatReportView {
    pub offer_id: Seq<char>,
    pub component_ref: Seq<char>,
    pub compatible: bool,
    pub issues: Seq<CompatIssueView>,
}

impl View for CapabilityCompatibilityReport {
    type V = CompatReportView;

    open spec fn view(&self) -> CompatReportView {
        CompatReportView {
            offer_id: self.offer_id@,
            component_ref: self.component_ref@,
            compatible: self.compatible,
            issues: self.issues@.map_values(|i: CapabilityCompatibilityIssue| i@),
        }
    }
}

// ---------------------------------------------------------------------------
// Component descriptors
// ---------------------------------------------------------------------------

pub open spec fn op_names(ops: Seq<ComponentOperationView>) -> Seq<Seq<char>> {
    ops.map_values(|o: ComponentOperationView| o.name)
}

/// The first problem among operations: a blank name, or a name seen before.
pub open spec fn operations_check(ops: Seq<ComponentOperationView>) -> Option<Seq<char>>
    decreases ops.len(),
{
    if ops.len() == 0 {
        None
    } else if operations_check(ops.drop_last()) is Some {
        operations_check(ops.drop_last())
    } else if is_blank(ops.last().name) {
        Some("component operations must have a name"@)
    } else if op_names(ops.drop_last()).contains(ops.last().name) {
        Some("duplicate component operation "@ + ops.last().name)
    } else {
        None
    }
}

/// The first capability listed twice.
pub open spec fn capabilities_check(caps: Seq<Seq<char>>) -> Option<Seq<char>>
    decreases caps.len(),
{
    if caps.len() == 0 {
        None
    } else if capabilities_check(caps.drop_last()) is Some {
        capabilities_check(caps.drop_last())
    } else if caps.drop_last().contains(caps.last()) {
        Some("duplicate component capability "@ + caps.last())
    } else {
        None
    }
}

/// What `validate_component_descriptor` reports.
pub open spec fn component_check(c: ComponentView) -> Option<Seq<char>> {
    if is_blank(c.component_ref) {
        Some("component_ref must not be empty"@)
    } else if is_blank(c.version) {
        Some("version must not be empty"@)
    } else if operations_check(c.operations) is Some {
        operations_check(c.operations)
    } else {
        capabilities_check(c.capabilities)
    }
}

pub open spec fn compat_reports(r: Result<(), CapabilitySchemaError>, c: Option<Seq<char>>) -> bool {
    match r {
        Ok(_) => c is None,
        Err(e) => c matches Some(m) && e@ == SchemaErrorView::Compatibility(m),
    }
}

fn compat_error(m: String) -> (r: Result<(), CapabilitySchemaError>)
    ensures
        r matches Err(e) && e@ == SchemaErrorView::Compatibility(m@),
{
    Err(CapabilitySchemaError::Compatibility(m))
}

fn prefixed(prefix: &str, s: &str) -> (r: String)
    ensures
        r@ == prefix@ + s@,
{
    let mut m = String::from_str(prefix);
    m.append(s);
    m
}

/// Validates a component self-description: non-blank ref and version,
/// named operations without repeats, capabilities without repeats.
pub fn validate_component_descriptor(component: &CapabilityComponentDescriptor) -> (r: Result<(), CapabilitySchemaError>)
    ensures
        compat_reports(r, component_check(component@)),
{
    if str_is_blank(component.component_ref.as_str()) {
        return compat_error(String::from_str("component_ref must not be empty"));
    }
    if str_is_blank(component.version.as_str()) {
        return compat_error(String::from_str("version must not be empty"));
    }
    let ghost ops = component@.operations;
    let mut i: usize = 0;
    proof {
        assert(ops.take(0) =~= Seq::<ComponentOperationView>::empty());
    }
    while i < component.operations.len()
        invariant
            i <= component.operations.len(),
            ops == component@.operations,
            !is_blank(component@.component_ref),
            !is_blank(component@.version),
            operations_check(ops.take(i as int)) is None,
        decreases component.operations.len() - i,
    {
        let op = &component.operations[i];
        proof {
            assert(ops.take(i + 1).drop_last() =~= ops.take(i as int));
            assert(ops.take(i + 1).last() == op@);
        }
        if str_is_blank(op.name.as_str()) {
            proof {
                lemma_operations_prefix(ops, i + 1);
            }
            return compat_error(String::from_str("component operations must have a name"));
        }
        let mut j: usize = 0;
        let mut seen = false;
        while j < i
            invariant
                j <= i,
                i < component.operations.len(),
                ops == component@.operations,
                !seen ==> forall|k: int| 0 <= k < j ==> op_names(ops.take(i as int))[k] != op@.name,
                seen ==> op_names(ops.take(i as int)).contains(op@.name),
            decreases i - j,
        {
            if !seen && str_equal(component.operations[j].name.as_str(), op.name.as_str()) {
                assert(op_names(ops.take(i as int))[j as int] == op@.name);
                seen = true;
            }
            j = j + 1;
        }
        if seen {
            proof {
                lemma_operations_prefix(ops, i + 1);
            }
            return compat_error(prefixed("duplicate component operation ", op.name.as_str()));
        }
        i = i + 1;
    }
    proof {
        assert(ops.take(i as int) =~= ops);
    }
    let ghost caps = component@.capabilities;
    let mut k: usize = 0;
    proof {
        assert(caps.take(0) =~= Seq::<Seq<char>>::empty());
    }
    while k < component.capabilities.len()
        invariant
            k <= component.capabilities.len(),
            caps == component@.capabilities,
            !is_blank(component@.component_ref),
            !is_blank(component@.version),
            operations_check(component@.operations) is None,
            capabilities_check(caps.take(k as int)) is None,
        decreases component.capabilities.len() - k,
    {
        let cap = &component.capabilities[k];
        proof {
            assert(caps.take(k + 1).drop_last() =~= caps.take(k as int));
            assert(caps.take(k + 1).last() == cap@);
        }
        let mut j: usize = 0;
        let mut seen = false;
        while j < k
            invariant
                j <= k,
                k < component.capabilities.len(),
                caps == component@.capabilities,
                !seen ==> forall|q: int| 0 <= q < j ==> caps.take(k as int)[q] != cap@,
                seen ==> caps.take(k as int).contains(cap@),
            decreases k - j,
        {
            if !seen && str_equal(component.capabilities[j].as_str(), cap.as_str()) {
                assert(caps.take(k as int)[j as int] == cap@);
                seen = true;
            }
            j = j + 1;
        }
        if seen {
            proof {
                lemma_capabilities_prefix(caps, k + 1);
            }
            return compat_error(prefixed("duplicate component capability ", cap.as_str()));
        }
        k = k + 1;
    }
    proof {
        assert(caps.take(k as int) =~= caps);
    }
    Ok(())
}

proof fn lemma_operations_prefix(ops: Seq<ComponentOperationView>, k: int)
    requires
        0 <= k <= ops.len(),
        operations_check(ops.take(k)) is Some,
    ensures
        operations_check(ops) == operations_check(ops.take(k)),
    decreases ops.len() - k,
{
    if k == ops.len() {
        assert(ops.take(k) =~= ops);
    } else {
        assert(ops.drop_last().take(k) =~= ops.take(k));
        lemma_operations_prefix(ops.drop_last(), k);
    }
}

proof fn lemma_capabilities_prefix(caps: Seq<Seq<char>>, k: int)
    requires
        0 <= k <= caps.len(),
        capabilities_check(caps.take(k)) is Some,
    ensures
        capabilities_check(caps) == capabilities_check(caps.take(k)),
    decreases caps.len() - k,
{
    if k == caps.len() {
        assert(caps.take(k) =~= caps);
    } else {
        assert(caps.drop_last().take(k) =~= caps.take(k));
        lemma_capabilities_prefix(caps.drop_last(), k);
    }
}

// ---------------------------------------------------------------------------
// Offer/component compatibility
// ---------------------------------------------------------------------------

/// Index of the first operation from `i` on named `name`, or `-1`.
pub open spec fn first_op_named(ops: Seq<ComponentOperationView>, name: Seq<char>, i: int) -> int
    decreases ops.len() - i,
{
    if i < 0 || i >= ops.len() {
        -1
    } else if ops[i].name == name {
        i
    } else {
        first_op_named(ops, name, i + 1)
    }
}

pub open spec fn issue_if(cond: bool, issue: CompatIssueView) -> Seq<CompatIssueView> {
    if cond {
        seq![issue]
    } else {
        Seq::empty()
    }
}

/// Whether two JSON texts hold equal JSON values, as `serde_json` parses
/// and compares them; `None` when either text is not JSON.
pub uninterp spec fn same_json(a: Seq<char>, b: Seq<char>) -> Option<bool>;

/// Parses both texts with `serde_json::from_str` into `serde_json::Value`
/// and compares the values with their `==`; `None` when either text does
/// not parse. The answer depends on the two texts alone.
#[verifier::external_body]
fn json_texts_equal(a: &str, b: &str) -> (r: Option<bool>)
    ensures
        r == same_json(a@, b@),
{
    match (serde_json::from_str::<serde_json::Value>(a), serde_json::from_str::<serde_json::Value>(b)) {
        (Ok(x), Ok(y)) => Some(x == y),
        _ => None,
    }
}

/// Whether two schemas match: as JSON values when both are JSON, else as
/// texts.
pub open spec fn schemas_match(a: Seq<char>, b: Seq<char>) -> bool {
    match same_json(a, b) {
        Some(equal) => equal,
        None => a == b,
    }
}

fn schemas_match_exec(a: &str, b: &str) -> (r: bool)
    ensures
        r == schemas_match(a@, b@),
{
    match json_texts_equal(a, b) {
        Some(equal) => equal,
        None => str_equal(a, b),
    }
}

/// Issues of one operation-map entry: the mapped operation is missing, or
/// its input or output schema differs.
pub open spec fn entry_issues(e: OperationMapView, ops: Seq<ComponentOperationView>) -> Seq<CompatIssueView> {
    let k = first_op_named(ops, e.component_operation, 0);
    if k < 0 {
        seq![CompatIssueView::MissingOperation { contract_operation: e.contract_operation, component_operation: e.component_operation }]
    } else {
        issue_if(
            !schemas_match(ops[k].input_schema, e.input_schema),
            CompatIssueView::InputSchemaMismatch { contract_operation: e.contract_operation, component_operation: e.component_operation },
        ) + issue_if(
            !schemas_match(ops[k].output_schema, e.output_schema),
            CompatIssueView::OutputSchemaMismatch { contract_operation: e.contract_operation, component_operation: e.component_operation },
        )
    }
}

pub open spec fn map_issues(entries: Seq<OperationMapView>, ops: Seq<ComponentOperationView>) -> Seq<CompatIssueView>
    decreases entries.len(),
{
    if entries.len() == 0 {
        Seq::empty()
    } else {
        map_issues(entries.drop_last(), ops) + entry_issues(entries.last(), ops)
    }
}

/// Everything that keeps `c` from serving the offer `o`, in check order.
pub open spec fn offer_issues(o: OfferView, c: ComponentView) -> Seq<CompatIssueView> {
    match o.provider {
        None => seq![CompatIssueView::MissingProvider],
        Some(p) => issue_if(
            p.component_ref != c.component_ref,
            CompatIssueView::ComponentMismatch { expected: p.component_ref, found: c.component_ref },
        ) + issue_if(!c.capabilities.contains(o.capability), CompatIssueView::MissingCapability { capability: o.capability })
            + if p.operation_map.len() == 0 {
            issue_if(
                !op_names(c.operations).contains(p.operation),
                CompatIssueView::MissingProviderOperation { operation: p.operation },
            )
        } else {
            map_issues(p.operation_map, c.operations)
        },
    }
}

pub open spec fn compat_report(o: OfferView, c: ComponentView) -> CompatReportView {
    let issues = offer_issues(o, c);
    CompatReportView { offer_id: o.id, component_ref: c.component_ref, compatible: issues.len() == 0, issues }
}

pub open spec fn compat_issues_view(v: Seq<CapabilityCompatibilityIssue>) -> Seq<CompatIssueView> {
    v.map_values(|i: CapabilityCompatibilityIssue| i@)
}

/// Index of the first component operation named `name`, if any.
fn operation_index(component: &CapabilityComponentDescriptor, name: &str) -> (r: Option<usize>)
    ensures
        match r {
            Some(k) => k < component.operations.len() && first_op_named(component@.operations, name@, 0) == k,
            None => first_op_named(component@.operations, name@, 0) == -1,
        },
{
    let ghost ops = component@.operations;
    let mut i: usize = 0;
    while i < component.operations.len()
        invariant
            i <= component.operations.len(),
            ops == component@.operations,
            first_op_named(ops, name@, 0) == first_op_named(ops, name@, i as int),
        decreases component.operations.len() - i,
    {
        if str_equal(component.operations[i].name.as_str(), name) {
            return Some(i);
        }
        i = i + 1;
    }
    None
}

proof fn lemma_first_op_named(ops: Seq<ComponentOperationView>, name: Seq<char>, i: int)
    requires
        0 <= i,
    ensures
        first_op_named(ops, name, i) == -1 <==> forall|k: int| i <= k < ops.len() ==> (#[trigger] ops[k]).name != name,
        first_op_named(ops, name, i) != -1 ==> i <= first_op_named(ops, name, i) < ops.len() && ops[first_op_named(
            ops,
            name,
            i,
        )].name == name,
    decreases ops.len() - i,
{
    if i < ops.len() {
        lemma_first_op_named(ops, name, i + 1);
        if first_op_named(ops, name, i) != -1 {
            if ops[i].name != name {
                let k = choose|k: int| i + 1 <= k < ops.len() && ops[k].name == name;
            }
        }
    }
}

fn push_issue(issues: &mut Vec<CapabilityCompatibilityIssue>, issue: CapabilityCompatibilityIssue)
    ensures
        compat_issues_view(final(issues)@) == compat_issues_view(old(issues)@) + seq![issue@],
{
    issues.push(issue);
    assert(compat_issues_view(issues@) =~= compat_issues_view(old(issues)@) + seq![issue@]);
}

fn check_offer_component_compatibility_inner(
    offer: &CapabilityOffer,
    component: &CapabilityComponentDescriptor,
    validate_component: bool,
) -> (r: Result<CapabilityCompatibilityReport, CapabilitySchemaError>)
    ensures
        validate_component && component_check(component@) is Some ==> (r matches Err(e) && e@
            == SchemaErrorView::Compatibility(component_check(component@)->Some_0)),
        !(validate_component && component_check(component@) is Some) ==> (r matches Ok(rep) && rep@ == compat_report(
            offer@,
            component@,
        )),
{
    if validate_component {
        if let Err(e) = validate_component_descriptor(component) {
            return Err(e);
        }
    }
    let mut issues: Vec<CapabilityCompatibilityIssue> = Vec::new();
    let ghost o = offer@;
    let ghost c = component@;
    match &offer.provider {
        Some(provider) => {
            let ghost p = provider@;
            if !str_equal(provider.component_ref.as_str(), component.component_ref.as_str()) {
                push_issue(
                    &mut issues,
                    CapabilityCompatibilityIssue::ComponentMismatch {
                        expected: provider.component_ref.clone(),
                        found: component.component_ref.clone(),
                    },
                );
            }
            let ghost after_first = compat_issues_view(issues@);
            assert(after_first =~= issue_if(
                p.component_ref != c.component_ref,
                CompatIssueView::ComponentMismatch { expected: p.component_ref, found: c.component_ref },
            ));
            let mut has_capability = false;
            let mut i: usize = 0;
            while i < component.capabilities.len()
                invariant
                    i <= component.capabilities.len(),
                    c == component@,
                    o == offer@,
                    has_capability == exists|k: int| 0 <= k < i && #[trigger] c.capabilities[k] == o.capability,
                decreases component.capabilities.len() - i,
            {
                if str_equal(component.capabilities[i].as_str(), offer.capability.as_str()) {
                    assert(c.capabilities[i as int] == o.capability);
                    has_capability = true;
                }
                i = i + 1;
            }
            assert(has_capability == c.capabilities.contains(o.capability));
            if !has_capability {
                push_issue(
                    &mut issues,
                    CapabilityCompatibilityIssue::MissingCapability {
                        capability: String::from_str(offer.capability.as_str()),
                    },
                );
            }
            let ghost after_second = compat_issues_view(issues@);
            assert(after_second =~= after_first + issue_if(
                !c.capabilities.contains(o.capability),
                CompatIssueView::MissingCapability { capability: o.capability },
            ));
            if provider.operation_map.len() == 0 {
                let found = operation_index(component, provider.operation.as_str());
                proof {
                    lemma_first_op_named(c.operations, p.operation, 0);
                    if op_names(c.operations).contains(p.operation) {
                        let k = choose|k: int| 0 <= k < op_names(c.operations).len() && op_names(c.operations)[k] == p.operation;
                        assert(c.operations[k].name == p.operation);
                    }
                    if found is Some {
                        assert(op_names(c.operations)[found->Some_0 as int] == p.operation);
                    }
                }
                if found.is_none() {
                    push_issue(
                        &mut issues,
                        CapabilityCompatibilityIssue::MissingProviderOperation { operation: provider.operation.clone() },
                    );
                }
                assert(compat_issues_view(issues@) =~= after_second + issue_if(
                    !op_names(c.operations).contains(p.operation),
                    CompatIssueView::MissingProviderOperation { operation: p.operation },
                ));
            } else {
                let ghost entries = p.operation_map;
                let mut j: usize = 0;
                proof {
                    assert(entries.take(0) =~= Seq::<OperationMapView>::empty());
                    assert(compat_issues_view(issues@) =~= after_second + map_issues(entries.take(0), c.operations));
                }
                while j < provider.operation_map.len()
                    invariant
                        j <= provider.operation_map.len(),
                        c == component@,
                        entries == provider@.operation_map,
                        compat_issues_view(issues@) == after_second + map_issues(entries.take(j as int), c.operations),
                    decreases provider.operation_map.len() - j,
                {
                    let entry = &provider.operation_map[j];
                    let ghost before = compat_issues_view(issues@);
                    proof {
                        assert(entries.take(j + 1).drop_last() =~= entries.take(j as int));
                        assert(entries.take(j + 1).last() == entry@);
                    }
                    match operation_index(component, entry.component_operation.as_str()) {
                        None => {
                            push_issue(
                                &mut issues,
                                CapabilityCompatibilityIssue::MissingOperation {
                                    contract_operation: entry.contract_operation.clone(),
                                    component_operation: entry.component_operation.clone(),
                                },
                            );
                        },
                        Some(k) => {
                            let operation = &component.operations[k];
                            assert(c.operations[k as int] == operation@);
                            if !schemas_match_exec(operation.input_schema.as_str(), entry.input_schema.as_str()) {
                                push_issue(
                                    &mut issues,
                                    CapabilityCompatibilityIssue::InputSchemaMismatch {
                                        contract_operation: entry.contract_operation.clone(),
                                        component_operation: entry.component_operation.clone(),
                                    },
                                );
                            }
                            let ghost mid = compat_issues_view(issues@);
                            if !schemas_match_exec(operation.output_schema.as_str(), entry.output_schema.as_str()) {
                                push_issue(
                                    &mut issues,
                                    CapabilityCompatibilityIssue::OutputSchemaMismatch {
                                        contract_operation: entry.contract_operation.clone(),
                                        component_operation: entry.component_operation.clone(),
                                    },
                                );
                            }
                            assert(compat_issues_view(issues@) =~= before + entry_issues(entry@, c.operations));
                        },
                    }
                    assert(compat_issues_view(issues@) =~= after_second + map_issues(entries.take(j + 1), c.operations));
                    j = j + 1;
                }
                proof {
                    assert(entries.take(j as int) =~= entries);
                }
            }
            assert(compat_issues_view(issues@) =~= offer_issues(o, c));
        },
        None => {
            push_issue(&mut issues, CapabilityCompatibilityIssue::MissingProvider);
            assert(compat_issues_view(issues@) =~= offer_issues(o, c));
        },
    }
    let compatible = issues.len() == 0;
    Ok(
        CapabilityCompatibilityReport {
            offer_id: offer.id.clone(),
            component_ref: component.component_ref.clone(),
            compatible,
            issues,
        },
    )
}

/// Checks an offer against a component self-description; a malformed
/// description is an error.
pub fn check_offer_component_compatibility(
    offer: &CapabilityOffer,
    component: &CapabilityComponentDescriptor,
) -> (r: Result<CapabilityCompatibilityReport, CapabilitySchemaError>)
    ensures
        component_check(component@) is Some ==> (r matches Err(e) && e@ == SchemaErrorView::Compatibility(
            component_check(component@)->Some_0,
        )),
        component_check(component@) is None ==> (r matches Ok(rep) && rep@ == compat_report(offer@, component@)),
{
    check_offer_component_compatibility_inner(offer, component, true)
}

pub open spec fn pack_compatibility(s_version: u32, d: DeclarationView, c: ComponentView) -> Result<Seq<CompatReportView>, SchemaErrorView> {
    match section_validation(s_version, d) {
        Some(e) => Err(e),
        None => match component_check(c) {
            Some(m) => Err(SchemaErrorView::Compatibility(m)),
            None => Ok(d.offers.map_values(|o: OfferView| compat_report(o, c))),
        },
    }
}

/// Checks every offer of a pack section against a component self-description.
pub fn check_pack_capability_compatibility(
    section: &PackCapabilitySectionV1,
    component: &CapabilityComponentDescriptor,
) -> (r: Result<Vec<CapabilityCompatibilityReport>, CapabilitySchemaError>)
    ensures
        match pack_compatibility(section.schema_version, section.declaration@, component@) {
            Ok(rs) => r matches Ok(v) && v@.map_values(|x: CapabilityCompatibilityReport| x@) == rs,
            Err(e) => r matches Err(err) && err@ == e,
        },
{
    section.validate()?;
    validate_component_descriptor(component)?;
    let ghost os = section.declaration@.offers;
    let mut reports: Vec<CapabilityCompatibilityReport> = Vec::new();
    let mut i: usize = 0;
    while i < section.declaration.offers.len()
        invariant
            i <= section.declaration.offers.len(),
            os == section.declaration@.offers,
            component_check(component@) is None,
            reports@.map_values(|x: CapabilityCompatibilityReport| x@) == os.take(i as int).map_values(
                |o: OfferView| compat_report(o, component@),
            ),
        decreases section.declaration.offers.len() - i,
    {
        let ghost before = reports@;
        let rep = check_offer_component_compatibility_inner(&section.declaration.offers[i], component, false);
        match rep {
            Ok(x) => {
                let ghost xv = x@;
                assert(xv == compat_report(section.declaration.offers@[i as int]@, component@));
                reports.push(x);
                assert(reports@.map_values(|x: CapabilityCompatibilityReport| x@) =~= before.map_values(
                    |x: CapabilityCompatibilityReport| x@,
                ).push(xv));
            },
            Err(e) => {
                return Err(e);
            },
        }
        proof {
            assert(os[i as int] == section.declaration.offers@[i as int]@);
            assert(reports@.map_values(|x: CapabilityCompatibilityReport| x@) =~= os.take(i + 1).map_values(
                |o: OfferView| compat_report(o, component@),
            ));
        }
        i = i + 1;
    }
    proof {
        assert(os.take(i as int) =~= os);
    }
    Ok(reports)
}

// ---------------------------------------------------------------------------
// Emissions for bundle and setup tooling
// ---------------------------------------------------------------------------

/// Reference policy emitted for bundle/setup consumers.
#[derive(Debug, PartialEq, Eq)]
pub struct CapabilityResolvedReferencePolicyV1 {
    pub reference: String,
    pub policy: String,
}

impl View for CapabilityResolvedReferencePolicyV1 {
    type V = (Seq<char>, Seq<char>);

    open spec fn view(&self) -> (Seq<char>, Seq<char>) {
        (self.reference@, self.policy@)
    }
}

/// Machine-readable binding emitted to bundle/setup consumers.
#[derive(Debug, PartialEq, Eq)]
pub struct CapabilityBindingEmissionV1 {
    pub request_id: String,
    pub offer_id: String,
    pub capability: CapabilityId,
    pub kind: CapabilityBindingKind,
    pub profile: Option<String>,
    pub provider: Option<CapabilityProviderRef>,
}

impl View for CapabilityBindingEmissionV1 {
    type V = BindingView;

    open spec fn view(&self) -> BindingView {
        BindingView {
            kind: self.kind,
            request_id: self.request_id@,
            offer_id: self.offer_id@,
            capability: self.capability@,
            provider: opt_provider_view(self.provider),
            profile: opt_string_view(self.profile),
        }
    }
}

/// Input parameters for creating a resolved target summary.
#[derive(Debug, PartialEq, Eq)]
pub struct CapabilityResolvedTargetInputV1 {
    pub path: String,
    pub tenant: String,
    pub team: Option<String>,
    pub default_policy: String,
    pub tenant_gmap: String,
    pub team_gmap: Option<String>,
    pub app_pack_policies: Vec<CapabilityResolvedReferencePolicyV1>,
}

/// Bundle target summary used by bundle/setup tooling.
#[derive(Debug, PartialEq, Eq)]
pub struct CapabilityResolvedTargetV1 {
    pub path: String,
    pub tenant: String,
    pub team: Option<String>,
    pub default_policy: String,
    pub tenant_gmap: String,
    pub team_gmap: Option<String>,
    pub app_pack_policies: Vec<CapabilityResolvedReferencePolicyV1>,
    /// Emitted bindings for the target.
    pub bindings: Vec<CapabilityBindingEmissionV1>,
}

/// Input parameters for building a bundle/setup resolution artifact.
#[derive(Debug, PartialEq, Eq)]
pub struct CapabilityBundleResolutionInputV1 {
    pub bundle_id: String,
    pub bundle_name: String,
    pub requested_mode: String,
    pub locale: String,
    pub artifact_extension: String,
    pub root_resolution: CapabilityResolutionReport,
    /// Per-profile resolution reports in ascending profile id order.
    pub profile_resolutions: Vec<CapabilityResolutionReport>,
    pub resolved_targets: Vec<CapabilityResolvedTargetV1>,
    pub compatibility_reports: Vec<CapabilityCompatibilityReport>,
}

/// Machine-readable bundle/setup resolution artifact.
#[derive(Debug, PartialEq, Eq)]
pub struct CapabilityBundleResolutionV1 {
    pub schema_version: u32,
    pub bundle_id: String,
    pub bundle_name: String,
    pub requested_mode: String,
    pub locale: String,
    pub artifact_extension: String,
    /// Generated resolved manifest files: the targets' paths.
    pub generated_resolved_files: Vec<String>,
    pub generated_setup_files: Vec<String>,
    pub app_packs: Vec<String>,
    pub extension_providers: Vec<String>,
    pub catalogs: Vec<String>,
    pub hooks: Vec<String>,
    pub subscriptions: Vec<String>,
    pub capabilities: Vec<String>,
    pub root_resolution: CapabilityResolutionReport,
    /// Per-profile resolution reports in ascending profile id order.
    pub profile_resolutions: Vec<CapabilityResolutionReport>,
    pub resolved_targets: Vec<CapabilityResolvedTargetV1>,
    pub compatibility_reports: Vec<CapabilityCompatibilityReport>,
}

/// A resolved reference policy entry.
pub fn resolved_reference_policy(reference: String, policy: String) -> (r: CapabilityResolvedReferencePolicyV1)
    ensures
        r@ == (reference@, policy@),
{
    CapabilityResolvedReferencePolicyV1 { reference, policy }
}

/// The emitted form of a resolver binding: the same fields.
pub fn binding_emission_from_binding(binding: &CapabilityBinding) -> (r: CapabilityBindingEmissionV1)
    ensures
        r@ == binding@,
{
    CapabilityBindingEmissionV1 {
        request_id: binding.request_id.clone(),
        offer_id: binding.offer_id.clone(),
        capability: binding.capability.clone(),
        kind: binding.kind,
        profile: clone_opt_string(&binding.profile),
        provider: clone_opt_provider(&binding.provider),
    }
}

pub open spec fn emissions_view(v: Seq<CapabilityBindingEmissionV1>) -> Seq<BindingView> {
    v.map_values(|e: CapabilityBindingEmissionV1| e@)
}

/// All bindings of a resolution report, emitted in order.
pub fn emitted_bindings(report: &CapabilityResolutionReport) -> (r: Vec<CapabilityBindingEmissionV1>)
    ensures
        emissions_view(r@) == report@.resolution.bindings,
{
    let bs = &report.resolution.bindings;
    let mut out: Vec<CapabilityBindingEmissionV1> = Vec::new();
    let mut i: usize = 0;
    while i < bs.len()
        invariant
            i <= bs.len(),
            bs == &report.resolution.bindings,
            emissions_view(out@) == report@.resolution.bindings.take(i as int),
        decreases bs.len() - i,
    {
        let ghost before = out@;
        out.push(binding_emission_from_binding(&bs[i]));
        proof {
            assert(emissions_view(out@) =~= emissions_view(before).push(bs@[i as int]@));
            assert(report@.resolution.bindings.take(i + 1) =~= report@.resolution.bindings.take(i as int).push(
                bs@[i as int]@,
            ));
        }
        i = i + 1;
    }
    proof {
        assert(report@.resolution.bindings.take(i as int) =~= report@.resolution.bindings);
    }
    out
}

/// A target summary: the input's fields with the report's bindings emitted.
pub fn target_from_resolution_report(
    input: CapabilityResolvedTargetInputV1,
    report: &CapabilityResolutionReport,
) -> (r: CapabilityResolvedTargetV1)
    ensures
        r.path == input.path,
        r.tenant == input.tenant,
        r.team == input.team,
        r.default_policy == input.default_policy,
        r.tenant_gmap == input.tenant_gmap,
        r.team_gmap == input.team_gmap,
        r.app_pack_policies == input.app_pack_policies,
        emissions_view(r.bindings@) == report@.resolution.bindings,
{
    CapabilityResolvedTargetV1 {
        path: input.path,
        tenant: input.tenant,
        team: input.team,
        default_policy: input.default_policy,
        tenant_gmap: input.tenant_gmap,
        team_gmap: input.team_gmap,
        app_pack_policies: input.app_pack_policies,
        bindings: emitted_bindings(report),
    }
}

/// The target with its app-pack policies replaced.
pub fn target_with_reference_policies(
    target: CapabilityResolvedTargetV1,
    app_pack_policies: Vec<CapabilityResolvedReferencePolicyV1>,
) -> (r: CapabilityResolvedTargetV1)
    ensures
        r.app_pack_policies == app_pack_policies,
        r.path == target.path && r.tenant == target.tenant && r.team == target.team,
        r.default_policy == target.default_policy && r.tenant_gmap == target.tenant_gmap && r.team_gmap == target.team_gmap,
        r.bindings == target.bindings,
{
    let mut target = target;
    target.app_pack_policies = app_pack_policies;
    target
}

/// Sum of the binding counts of `reports`.
pub open spec fn binding_total(reports: Seq<ReportView>) -> int
    decreases reports.len(),
{
    if reports.len() == 0 {
        0
    } else {
        binding_total(reports.drop_last()) + reports.last().resolution.bindings.len()
    }
}

pub proof fn lemma_binding_total_mono(reports: Seq<ReportView>, k: int)
    requires
        0 <= k <= reports.len(),
    ensures
        binding_total(reports.take(k)) <= binding_total(reports),
    decreases reports.len() - k,
{
    if k < reports.len() {
        assert(reports.drop_last().take(k) =~= reports.take(k));
        lemma_binding_total_mono(reports.drop_last(), k);
    } else {
        assert(reports.take(k) =~= reports);
    }
}

/// The total number of bindings emitted across all reports.
pub fn emitted_binding_count(reports: &Vec<CapabilityResolutionReport>) -> (r: usize)
    requires
        binding_total(reports@.map_values(|x: CapabilityResolutionReport| x@)) <= usize::MAX,
    ensures
        r == binding_total(reports@.map_values(|x: CapabilityResolutionReport| x@)),
{
    let ghost rs = reports@.map_values(|x: CapabilityResolutionReport| x@);
    let mut total: usize = 0;
    let mut i: usize = 0;
    while i < reports.len()
        invariant
            i <= reports.len(),
            rs == reports@.map_values(|x: CapabilityResolutionReport| x@),
            binding_total(rs) <= usize::MAX,
            total == binding_total(rs.take(i as int)),
        decreases reports.len() - i,
    {
        proof {
            assert(rs.take(i + 1).drop_last() =~= rs.take(i as int));
            assert(rs.take(i + 1).last() == reports@[i as int]@);
            lemma_binding_total_mono(rs, i + 1);
        }
        total = total + reports[i].resolution.bindings.len();
        i = i + 1;
    }
    proof {
        assert(rs.take(i as int) =~= rs);
    }
    total
}

/// Builds a bundle/setup artifact: version 1, the input's metadata and
/// reports, the targets' paths as generated resolved files, and empty
/// lists elsewhere.
pub fn build_bundle_resolution_artifact(input: CapabilityBundleResolutionInputV1) -> (r: CapabilityBundleResolutionV1)
    ensures
        r.schema_version == 1,
        r.bundle_id == input.bundle_id && r.bundle_name == input.bundle_name,
        r.requested_mode == input.requested_mode && r.locale == input.locale,
        r.artifact_extension == input.artifact_extension,
        strings_view(r.generated_resolved_files@) == input.resolved_targets@.map_values(|t: CapabilityResolvedTargetV1| t.path@),
        r.generated_setup_files@.len() == 0 && r.app_packs@.len() == 0 && r.extension_providers@.len() == 0,
        r.catalogs@.len() == 0 && r.hooks@.len() == 0 && r.subscriptions@.len() == 0 && r.capabilities@.len() == 0,
        r.root_resolution == input.root_resolution,
        r.profile_resolutions == input.profile_resolutions,
        r.resolved_targets == input.resolved_targets,
        r.compatibility_reports == input.compatibility_reports,
{
    let mut files: Vec<String> = Vec::new();
    let mut i: usize = 0;
    while i < input.resolved_targets.len()
        invariant
            i <= input.resolved_targets.len(),
            strings_view(files@) == input.resolved_targets@.take(i as int).map_values(
                |t: CapabilityResolvedTargetV1| t.path@,
            ),
        decreases input.resolved_targets.len() - i,
    {
        let ghost before = files@;
        files.push(input.resolved_targets[i].path.clone());
        proof {
            assert(strings_view(files@) =~= strings_view(before).push(input.resolved_targets@[i as int].path@));
            assert(input.resolved_targets@.take(i + 1) =~= input.resolved_targets@.take(i as int).push(
                input.resolved_targets@[i as int],
            ));
            assert(strings_view(files@) =~= input.resolved_targets@.take(i + 1).map_values(
                |t: CapabilityResolvedTargetV1| t.path@,
            ));
        }
        i = i + 1;
    }
    proof {
        assert(input.resolved_targets@.take(i as int) =~= input.resolved_targets@);
    }
    CapabilityBundleResolutionV1 {
        schema_version: 1,
        bundle_id: input.bundle_id,
        bundle_name: input.bundle_name,
        requested_mode: input.requested_mode,
        locale: input.locale,
        artifact_extension: input.artifact_extension,
        generated_resolved_files: files,
        generated_setup_files: Vec::new(),
        app_packs: Vec::new(),
        extension_providers: Vec::new(),
        catalogs: Vec::new(),
        hooks: Vec::new(),
        subscriptions: Vec::new(),
        capabilities: Vec::new(),
        root_resolution: input.root_resolution,
        profile_resolutions: input.profile_resolutions,
        resolved_targets: input.resolved_targets,
        compatibility_reports: input.compatibility_reports,
    }
}

} // verus!
