//! Canonical capability data model: identifiers, offers, requirements,
//! consumes, profiles, declarations, bindings, resolutions and their validation.
//!
//! Free-form JSON (metadata values, operation schemas) is carried as JSON
//! text; operation schemas are compared as JSON values.

use vstd::prelude::*;
use vstd::string::*;

use crate::text::{has_prefix, is_blank, is_named_id, str_equal, str_is_blank, str_is_named_id};

verus! {

// ---------------------------------------------------------------------------
// Capability identifiers
// ---------------------------------------------------------------------------

/// Error returned when parsing a capability identifier fails.
#[derive(Clone, Copy, Debug, PartialEq, Eq)]
pub enum CapabilityIdError {
    /// The identifier does not use the `cap://` scheme.
    MissingScheme,
    /// The identifier has no content after `cap://`.
    Empty,
    /// The identifier contains an unsupported character. Every character before
    /// it is ASCII, so `index` is both its character and its byte position.
    InvalidCharacter { ch: char, index: usize },
}

/// The `cap://` scheme prefix.
pub open spec fn cap_scheme() -> Seq<char> {
    seq!['c', 'a', 'p', ':', '/', '/']
}

/// Characters allowed in a capability id.
pub open spec fn is_cap_id_char(c: char) -> bool {
    ||| ('0' <= c && c <= '9')
    ||| ('a' <= c && c <= 'z')
    ||| ('A' <= c && c <= 'Z')
    ||| c == ':'
    ||| c == '/'
    ||| c == '-'
    ||| c == '_'
    ||| c == '.'
    ||| c == '+'
}

/// Index of the first character at or after `i` that is not allowed.
pub open spec fn first_bad_cap_char(s: Seq<char>, i: int) -> int
    decreases s.len() - i,
{
    if 0 <= i < s.len() && is_cap_id_char(s[i]) {
        first_bad_cap_char(s, i + 1)
    } else {
        i
    }
}

/// What validating `s` as a capability id reports, if anything.
pub open spec fn capability_id_check(s: Seq<char>) -> Option<CapabilityIdError> {
    if s.len() == 0 {
        Some(CapabilityIdError::Empty)
    } else if !has_prefix(s, cap_scheme()) {
        Some(CapabilityIdError::MissingScheme)
    } else if s.len() == cap_scheme().len() {
        Some(CapabilityIdError::Empty)
    } else {
        let k = first_bad_cap_char(s, 0);
        if k < s.len() {
            Some(CapabilityIdError::InvalidCharacter { ch: s[k], index: k as usize })
        } else {
            None
        }
    }
}

fn is_cap_id_char_exec(c: char) -> (r: bool)
    ensures
        r == is_cap_id_char(c),
{
    ('0' <= c && c <= '9') || ('a' <= c && c <= 'z') || ('A' <= c && c <= 'Z') || c == ':' || c
        == '/' || c == '-' || c == '_' || c == '.' || c == '+'
}

fn has_cap_scheme(s: &str) -> (r: bool)
    ensures
        r == has_prefix(s@, cap_scheme()),
{
    let n = s.unicode_len();
    if n < 6 {
        return false;
    }
    let r = s.get_char(0) == 'c' && s.get_char(1) == 'a' && s.get_char(2) == 'p' && s.get_char(3)
        == ':' && s.get_char(4) == '/' && s.get_char(5) == '/';
    assert(r == (s@.subrange(0, 6) =~= cap_scheme()));
    r
}

/// Validates a capability identifier.
pub fn check_capability_id(value: &str) -> (r: Result<(), CapabilityIdError>)
    ensures
        match r {
            Ok(_) => capability_id_check(value@) is None,
            Err(e) => capability_id_check(value@) == Some(e),
        },
{
    let n = value.unicode_len();
    if n == 0 {
        return Err(CapabilityIdError::Empty);
    }
    if !has_cap_scheme(value) {
        return Err(CapabilityIdError::MissingScheme);
    }
    if n == 6 {
        return Err(CapabilityIdError::Empty);
    }
    let mut i: usize = 0;
    while i < n
        invariant
            n == value@.len(),
            n > 6,
            has_prefix(value@, cap_scheme()),
            i <= n,
            first_bad_cap_char(value@, i as int) == first_bad_cap_char(value@, 0),
        decreases n - i,
    {
        let ch = value.get_char(i);
        if !is_cap_id_char_exec(ch) {
            assert(first_bad_cap_char(value@, i as int) == i as int);
            return Err(CapabilityIdError::InvalidCharacter { ch, index: i });
        }
        i = i + 1;
    }
    Ok(())
}

/// Canonical capability identifier (`cap://...`).
#[derive(Debug, PartialEq, Eq)]
pub struct CapabilityId {
    value: String,
}

impl View for CapabilityId {
    type V = Seq<char>;

    closed spec fn view(&self) -> Seq<char> {
        self.value@
    }
}

impl Clone for CapabilityId {
    fn clone(&self) -> (r: Self)
        ensures
            r@ == self@,
    {
        CapabilityId { value: self.value.clone() }
    }
}

impl CapabilityId {
    /// Creates a validated capability identifier.
    pub fn new(value: String) -> (r: Result<Self, CapabilityIdError>)
        ensures
            r == id_from_text(value),
            match r {
                Ok(id) => capability_id_check(value@) is None && id@ == value@,
                Err(e) => capability_id_check(value@) == Some(e),
            },
    {
        match check_capability_id(value.as_str()) {
            Ok(()) => Ok(CapabilityId { value }),
            Err(e) => Err(e),
        }
    }

    /// Returns the inner capability identifier string.
    pub fn as_str(&self) -> (r: &str)
        ensures
            r@ == self@,
    {
        self.value.as_str()
    }

    /// Consumes the identifier, returning its text.
    pub fn into_string(self) -> (r: String)
        ensures
            r@ == self@,
    {
        self.value
    }
}

/// What converting a text into a capability identifier gives: the
/// identifier when the text is a valid one, else the reason it is not.
pub closed spec fn id_from_text(v: String) -> Result<CapabilityId, CapabilityIdError> {
    match capability_id_check(v@) {
        None => Ok(CapabilityId { value: v }),
        Some(e) => Err(e),
    }
}

impl TryFrom<String> for CapabilityId {
    type Error = CapabilityIdError;

    /// Validates the text, as `CapabilityId::new` does.
    fn try_from(value: String) -> (r: Result<Self, CapabilityIdError>) {
        match check_capability_id(value.as_str()) {
            Ok(()) => Ok(CapabilityId { value }),
            Err(e) => Err(e),
        }
    }
}

impl vstd::std_specs::convert::TryFromSpecImpl<String> for CapabilityId {
    open spec fn obeys_try_from_spec() -> bool {
        true
    }

    closed spec fn try_from_spec(v: String) -> Result<Self, CapabilityIdError> {
        id_from_text(v)
    }
}

/// Converting a text into a capability identifier is validating it as
/// `CapabilityId::new` does, and converting an identifier back gives its
/// text: a valid text goes through both conversions unchanged.
pub proof fn law_capability_id_conversions(value: String, id: CapabilityId)
    ensures
        match <CapabilityId as vstd::std_specs::convert::TryFromSpec<String>>::try_from_spec(value) {
            Ok(converted) => capability_id_check(value@) is None && converted@ == value@,
            Err(e) => capability_id_check(value@) == Some(e),
        },
        <String as vstd::std_specs::convert::FromSpec<CapabilityId>>::from_spec(id)@ == id@,
{
}

impl From<CapabilityId> for String {
    /// The identifier's text.
    fn from(id: CapabilityId) -> (r: String) {
        id.value
    }
}

impl vstd::std_specs::convert::FromSpecImpl<CapabilityId> for String {
    open spec fn obeys_from_spec() -> bool {
        true
    }

    closed spec fn from_spec(v: CapabilityId) -> String {
        v.value
    }
}

// ---------------------------------------------------------------------------
// Data model
// ---------------------------------------------------------------------------

/// One free-form metadata entry; `value` is JSON text.
#[derive(Debug, PartialEq, Eq)]
pub struct MetadataEntry {
    pub key: String,
    pub value: String,
}

/// Capability metadata stored alongside offers, requirements and consumes,
/// in ascending key order.
pub type CapabilityMetadata = Vec<MetadataEntry>;

pub open spec fn strings_view(v: Seq<String>) -> Seq<Seq<char>> {
    v.map_values(|s: String| s@)
}

pub open spec fn opt_string_view(o: Option<String>) -> Option<Seq<char>> {
    match o {
        Some(s) => Some(s@),
        None => None,
    }
}

pub open spec fn metadata_view(v: Seq<MetadataEntry>) -> Seq<(Seq<char>, Seq<char>)> {
    v.map_values(|e: MetadataEntry| (e.key@, e.value@))
}

/// Logical capability operation mapped to a concrete component operation.
#[derive(Debug, PartialEq, Eq)]
pub struct CapabilityProviderOperationMap {
    pub contract_operation: String,
    pub component_operation: String,
    /// Input schema expected by the contract (JSON text).
    pub input_schema: String,
    /// Output schema expected by the contract (JSON text).
    pub output_schema: String,
}

/// Optional provider reference for an offered capability.
#[derive(Debug, PartialEq, Eq)]
pub struct CapabilityProviderRef {
    pub component_ref: String,
    pub operation: String,
    pub operation_map: Vec<CapabilityProviderOperationMap>,
}

/// A single component operation in a component self-description.
#[derive(Debug, PartialEq, Eq)]
pub struct CapabilityComponentOperation {
    pub name: String,
    pub input_schema: String,
    pub output_schema: String,
}

/// Self-description for a component used by pack capability compatibility checks.
#[derive(Debug, PartialEq, Eq)]
pub struct CapabilityComponentDescriptor {
    pub component_ref: String,
    pub version: String,
    pub operations: Vec<CapabilityComponentOperation>,
    pub capabilities: Vec<CapabilityId>,
    pub metadata: CapabilityMetadata,
}

/// Offers a capability from a provider.
#[derive(Debug, PartialEq, Eq)]
pub struct CapabilityOffer {
    pub id: String,
    pub capability: CapabilityId,
    pub provider: Option<CapabilityProviderRef>,
    pub profiles: Vec<String>,
    pub description: Option<String>,
    pub metadata: CapabilityMetadata,
}

/// Describes a required capability.
#[derive(Debug, PartialEq, Eq)]
pub struct CapabilityRequirement {
    pub id: String,
    pub capability: CapabilityId,
    pub profiles: Vec<String>,
    pub optional: bool,
    pub description: Option<String>,
    pub metadata: CapabilityMetadata,
}

/// How a capability is consumed.
#[derive(Clone, Copy, Debug, PartialEq, Eq)]
pub enum CapabilityConsumeMode {
    /// The consumer reads from the capability.
    Shared,
    /// The consumer mutates the capability.
    Exclusive,
    /// The consumer requires ephemeral use.
    Ephemeral,
}

/// Describes a capability that is consumed.
#[derive(Debug, PartialEq, Eq)]
pub struct CapabilityConsume {
    pub id: String,
    pub capability: CapabilityId,
    pub profiles: Vec<String>,
    pub mode: CapabilityConsumeMode,
    pub description: Option<String>,
    pub metadata: CapabilityMetadata,
}

/// A named bundle of capability requirements and consumes.
#[derive(Debug, PartialEq, Eq)]
pub struct CapabilityProfile {
    pub id: String,
    pub description: Option<String>,
    pub requires: Vec<CapabilityRequirement>,
    pub consumes: Vec<CapabilityConsume>,
}

/// Top-level capability declaration payload.
#[derive(Debug, PartialEq, Eq)]
pub struct CapabilityDeclaration {
    pub offers: Vec<CapabilityOffer>,
    pub requires: Vec<CapabilityRequirement>,
    pub consumes: Vec<CapabilityConsume>,
    pub profiles: Vec<CapabilityProfile>,
}

/// Binding origin.
#[derive(Clone, Copy, Debug, PartialEq, Eq)]
pub enum CapabilityBindingKind {
    /// Binding for a required capability.
    Requirement,
    /// Binding for a consumed capability.
    Consume,
}

/// Stable binding between a request and a selected offer.
#[derive(Debug, PartialEq, Eq)]
pub struct CapabilityBinding {
    pub kind: CapabilityBindingKind,
    pub request_id: String,
    pub offer_id: String,
    pub capability: CapabilityId,
    pub provider: Option<CapabilityProviderRef>,
    pub profile: Option<String>,
}

/// Machine-readable capability resolution result.
#[derive(Debug, PartialEq, Eq)]
pub struct CapabilityResolution {
    pub declaration: CapabilityDeclaration,
    pub bindings: Vec<CapabilityBinding>,
}

// ---------------------------------------------------------------------------
// Views
// ---------------------------------------------------------------------------

pub struct OperationMapView {
    pub contract_operation: Seq<char>,
    pub component_operation: Seq<char>,
    pub input_schema: Seq<char>,
    pub output_schema: Seq<char>,
}

pub struct ProviderView {
    pub component_ref: Seq<char>,
    pub operation: Seq<char>,
    pub operation_map: Seq<OperationMapView>,
}

pub struct ComponentOperationView {
    pub name: Seq<char>,
    pub input_schema: Seq<char>,
    pub output_schema: Seq<char>,
}

pub struct ComponentView {
    pub component_ref: Seq<char>,
    pub version: Seq<char>,
    pub operations: Seq<ComponentOperationView>,
    pub capabilities: Seq<Seq<char>>,
    pub metadata: Seq<(Seq<char>, Seq<char>)>,
}

pub struct OfferView {
    pub id: Seq<char>,
    pub capability: Seq<char>,
    pub provider: Option<ProviderView>,
    pub profiles: Seq<Seq<char>>,
    pub description: Option<Seq<char>>,
    pub metadata: Seq<(Seq<char>, Seq<char>)>,
}

pub struct RequirementView {
    pub id: Seq<char>,
    pub capability: Seq<char>,
    pub profiles: Seq<Seq<char>>,
    pub optional: bool,
    pub description: Option<Seq<char>>,
    pub metadata: Seq<(Seq<char>, Seq<char>)>,
}

pub struct ConsumeView {
    pub id: Seq<char>,
    pub capability: Seq<char>,
    pub profiles: Seq<Seq<char>>,
    pub mode: CapabilityConsumeMode,
    pub description: Option<Seq<char>>,
    pub metadata: Seq<(Seq<char>, Seq<char>)>,
}

pub struct ProfileView {
    pub id: Seq<char>,
    pub description: Option<Seq<char>>,
    pub requires: Seq<RequirementView>,
    pub consumes: Seq<ConsumeView>,
}

pub struct DeclarationView {
    pub offers: Seq<OfferView>,
    pub requires: Seq<RequirementView>,
    pub consumes: Seq<ConsumeView>,
    pub profiles: Seq<ProfileView>,
}

pub struct BindingView {
    pub kind: CapabilityBindingKind,
    pub request_id: Seq<char>,
    pub offer_id: Seq<char>,
    pub capability: Seq<char>,
    pub provider: Option<ProviderView>,
    pub profile: Option<Seq<char>>,
}

pub struct ResolutionView {
    pub declaration: DeclarationView,
    pub bindings: Seq<BindingView>,
}

impl View for MetadataEntry {
    type V = (Seq<char>, Seq<char>);

    open spec fn view(&self) -> (Seq<char>, Seq<char>) {
        (self.key@, self.value@)
    }
}

impl View for CapabilityProviderOperationMap {
    type V = OperationMapView;

    open spec fn view(&self) -> OperationMapView {
        OperationMapView {
            contract_operation: self.contract_operation@,
            component_operation: self.component_operation@,
            input_schema: self.input_schema@,
            output_schema: self.output_schema@,
        }
    }
}

impl View for CapabilityProviderRef {
    type V = ProviderView;

    open spec fn view(&self) -> ProviderView {
        ProviderView {
            component_ref: self.component_ref@,
            operation: self.operation@,
            operation_map: self.operation_map@.map_values(|m: CapabilityProviderOperationMap| m@),
        }
    }
}

pub open spec fn opt_provider_view(p: Option<CapabilityProviderRef>) -> Option<ProviderView> {
    match p {
        Some(p) => Some(p@),
        None => None,
    }
}

impl View for CapabilityComponentOperation {
    type V = ComponentOperationView;

    open spec fn view(&self) -> ComponentOperationView {
        ComponentOperationView {
            name: self.name@,
            input_schema: self.input_schema@,
            output_schema: self.output_schema@,
        }
    }
}

impl View for CapabilityComponentDescriptor {
    type V = ComponentView;

    open spec fn view(&self) -> ComponentView {
        ComponentView {
            component_ref: self.component_ref@,
            version: self.version@,
            operations: self.operations@.map_values(|o: CapabilityComponentOperation| o@),
            capabilities: self.capabilities@.map_values(|c: CapabilityId| c@),
            metadata: metadata_view(self.metadata@),
        }
    }
}

impl View for CapabilityOffer {
    type V = OfferView;

    open spec fn view(&self) -> OfferView {
        OfferView {
            id: self.id@,
            capability: self.capability@,
            provider: opt_provider_view(self.provider),
            profiles: strings_view(self.profiles@),
            description: opt_string_view(self.description),
            metadata: metadata_view(self.metadata@),
        }
    }
}

impl View for CapabilityRequirement {
    type V = RequirementView;

    open spec fn view(&self) -> RequirementView {
        RequirementView {
            id: self.id@,
            capability: self.capability@,
            profiles: strings_view(self.profiles@),
            optional: self.optional,
            description: opt_string_view(self.description),
            metadata: metadata_view(self.metadata@),
        }
    }
}

impl View for CapabilityConsume {
    type V = ConsumeView;

    open spec fn view(&self) -> ConsumeView {
        ConsumeView {
            id: self.id@,
            capability: self.capability@,
            profiles: strings_view(self.profiles@),
            mode: self.mode,
            description: opt_string_view(self.description),
            metadata: metadata_view(self.metadata@),
        }
    }
}

pub open spec fn requirements_view(v: Seq<CapabilityRequirement>) -> Seq<RequirementView> {
    v.map_values(|r: CapabilityRequirement| r@)
}

pub open spec fn consumes_view(v: Seq<CapabilityConsume>) -> Seq<ConsumeView> {
    v.map_values(|c: CapabilityConsume| c@)
}

impl View for CapabilityProfile {
    type V = ProfileView;

    open spec fn view(&self) -> ProfileView {
        ProfileView {
            id: self.id@,
            description: opt_string_view(self.description),
            requires: requirements_view(self.requires@),
            consumes: consumes_view(self.consumes@),
        }
    }
}

impl View for CapabilityDeclaration {
    type V = DeclarationView;

    open spec fn view(&self) -> DeclarationView {
        DeclarationView {
            offers: self.offers@.map_values(|o: CapabilityOffer| o@),
            requires: requirements_view(self.requires@),
            consumes: consumes_view(self.consumes@),
            profiles: self.profiles@.map_values(|p: CapabilityProfile| p@),
        }
    }
}

impl View for CapabilityBinding {
    type V = BindingView;

    open spec fn view(&self) -> BindingView {
        BindingView {
            kind: self.kind,
            request_id: self.request_id@,
            offer_id: self.offer_id@,
            capability: self.capability@,
            provider: opt_provider_view(self.provider),
            profile: opt_string_view(self.profile),
        }
    }
}

pub open spec fn bindings_view(v: Seq<CapabilityBinding>) -> Seq<BindingView> {
    v.map_values(|b: CapabilityBinding| b@)
}

impl View for CapabilityResolution {
    type V = ResolutionView;

    open spec fn view(&self) -> ResolutionView {
        ResolutionView { declaration: self.declaration@, bindings: bindings_view(self.bindings@) }
    }
}

// ---------------------------------------------------------------------------
// Cloning and comparison
// ---------------------------------------------------------------------------

/// Copy of a list of strings with the same contents.
pub fn clone_strings(v: &Vec<String>) -> (r: Vec<String>)
    ensures
        strings_view(r@) == strings_view(v@),
{
    let mut out: Vec<String> = Vec::new();
    let mut i: usize = 0;
    while i < v.len()
        invariant
            i <= v.len(),
            strings_view(out@) == strings_view(v@.take(i as int)),
        decreases v.len() - i,
    {
        out.push(v[i].clone());
        assert(strings_view(v@.take(i + 1)) =~= strings_view(v@.take(i as int)).push(v@[i as int]@));
        assert(strings_view(out@) =~= strings_view(v@.take(i + 1)));
        i = i + 1;
    }
    assert(v@.take(v.len() as int) =~= v@);
    out
}

pub fn clone_opt_string(o: &Option<String>) -> (r: Option<String>)
    ensures
        opt_string_view(r) == opt_string_view(*o),
{
    match o {
        Some(s) => Some(s.clone()),
        None => None,
    }
}

impl Clone for MetadataEntry {
    fn clone(&self) -> (r: Self)
        ensures
            r@ == self@,
    {
        MetadataEntry { key: self.key.clone(), value: self.value.clone() }
    }
}

pub fn clone_metadata(v: &Vec<MetadataEntry>) -> (r: Vec<MetadataEntry>)
    ensures
        metadata_view(r@) == metadata_view(v@),
{
    let mut out: Vec<MetadataEntry> = Vec::new();
    let mut i: usize = 0;
    while i < v.len()
        invariant
            i <= v.len(),
            metadata_view(out@) == metadata_view(v@.take(i as int)),
        decreases v.len() - i,
    {
        out.push(v[i].clone());
        assert(metadata_view(v@.take(i + 1)) =~= metadata_view(v@.take(i as int)).push(
            v@[i as int]@,
        ));
        assert(metadata_view(out@) =~= metadata_view(v@.take(i + 1)));
        i = i + 1;
    }
    assert(v@.take(v.len() as int) =~= v@);
    out
}

impl Clone for CapabilityProviderOperationMap {
    fn clone(&self) -> (r: Self)
        ensures
            r@ == self@,
    {
        CapabilityProviderOperationMap {
            contract_operation: self.contract_operation.clone(),
            component_operation: self.component_operation.clone(),
            input_schema: self.input_schema.clone(),
            output_schema: self.output_schema.clone(),
        }
    }
}

impl Clone for CapabilityProviderRef {
    fn clone(&self) -> (r: Self)
        ensures
            r@ == self@,
    {
        let mut ops: Vec<CapabilityProviderOperationMap> = Vec::new();
        let mut i: usize = 0;
        while i < self.operation_map.len()
            invariant
                i <= self.operation_map.len(),
                ops@.map_values(|m: CapabilityProviderOperationMap| m@) == self.operation_map@.take(
                    i as int,
                ).map_values(|m: CapabilityProviderOperationMap| m@),
            decreases self.operation_map.len() - i,
        {
            ops.push(self.operation_map[i].clone());
            assert(self.operation_map@.take(i + 1).map_values(
                |m: CapabilityProviderOperationMap| m@,
            ) =~= self.operation_map@.take(i as int).map_values(
                |m: CapabilityProviderOperationMap| m@,
            ).push(self.operation_map@[i as int]@));
            assert(ops@.map_values(|m: CapabilityProviderOperationMap| m@) =~= self.operation_map@.take(
                i + 1,
            ).map_values(|m: CapabilityProviderOperationMap| m@));
            i = i + 1;
        }
        assert(self.operation_map@.take(self.operation_map.len() as int) =~= self.operation_map@);
        CapabilityProviderRef {
            component_ref: self.component_ref.clone(),
            operation: self.operation.clone(),
            operation_map: ops,
        }
    }
}

pub fn clone_opt_provider(o: &Option<CapabilityProviderRef>) -> (r: Option<CapabilityProviderRef>)
    ensures
        opt_provider_view(r) == opt_provider_view(*o),
{
    match o {
        Some(p) => Some(p.clone()),
        None => None,
    }
}

impl Clone for CapabilityRequirement {
    fn clone(&self) -> (r: Self)
        ensures
            r@ == self@,
    {
        CapabilityRequirement {
            id: self.id.clone(),
            capability: self.capability.clone(),
            profiles: clone_strings(&self.profiles),
            optional: self.optional,
            description: clone_opt_string(&self.description),
            metadata: clone_metadata(&self.metadata),
        }
    }
}

impl Clone for CapabilityConsume {
    fn clone(&self) -> (r: Self)
        ensures
            r@ == self@,
    {
        CapabilityConsume {
            id: self.id.clone(),
            capability: self.capability.clone(),
            profiles: clone_strings(&self.profiles),
            mode: self.mode,
            description: clone_opt_string(&self.description),
            metadata: clone_metadata(&self.metadata),
        }
    }
}

impl Clone for CapabilityOffer {
    fn clone(&self) -> (r: Self)
        ensures
            r@ == self@,
    {
        CapabilityOffer {
            id: self.id.clone(),
            capability: self.capability.clone(),
            provider: clone_opt_provider(&self.provider),
            profiles: clone_strings(&self.profiles),
            description: clone_opt_string(&self.description),
            metadata: clone_metadata(&self.metadata),
        }
    }
}

pub fn clone_requirements(v: &Vec<CapabilityRequirement>) -> (r: Vec<CapabilityRequirement>)
    ensures
        requirements_view(r@) == requirements_view(v@),
{
    let mut out: Vec<CapabilityRequirement> = Vec::new();
    let mut i: usize = 0;
    while i < v.len()
        invariant
            i <= v.len(),
            requirements_view(out@) == requirements_view(v@.take(i as int)),
        decreases v.len() - i,
    {
        out.push(v[i].clone());
        assert(requirements_view(v@.take(i + 1)) =~= requirements_view(v@.take(i as int)).push(
            v@[i as int]@,
        ));
        assert(requirements_view(out@) =~= requirements_view(v@.take(i + 1)));
        i = i + 1;
    }
    assert(v@.take(v.len() as int) =~= v@);
    out
}

pub fn clone_consumes(v: &Vec<CapabilityConsume>) -> (r: Vec<CapabilityConsume>)
    ensures
        consumes_view(r@) == consumes_view(v@),
{
    let mut out: Vec<CapabilityConsume> = Vec::new();
    let mut i: usize = 0;
    while i < v.len()
        invariant
            i <= v.len(),
            consumes_view(out@) == consumes_view(v@.take(i as int)),
        decreases v.len() - i,
    {
        out.push(v[i].clone());
        assert(consumes_view(v@.take(i + 1)) =~= consumes_view(v@.take(i as int)).push(
            v@[i as int]@,
        ));
        assert(consumes_view(out@) =~= consumes_view(v@.take(i + 1)));
        i = i + 1;
    }
    assert(v@.take(v.len() as int) =~= v@);
    out
}

impl Clone for CapabilityProfile {
    fn clone(&self) -> (r: Self)
        ensures
            r@ == self@,
    {
        CapabilityProfile {
            id: self.id.clone(),
            description: clone_opt_string(&self.description),
            requires: clone_requirements(&self.requires),
            consumes: clone_consumes(&self.consumes),
        }
    }
}

impl Clone for CapabilityDeclaration {
    fn clone(&self) -> (r: Self)
        ensures
            r@ == self@,
    {
        let mut offers: Vec<CapabilityOffer> = Vec::new();
        let mut i: usize = 0;
        while i < self.offers.len()
            invariant
                i <= self.offers.len(),
                offers@.map_values(|o: CapabilityOffer| o@) == self.offers@.take(i as int).map_values(
                    |o: CapabilityOffer| o@,
                ),
            decreases self.offers.len() - i,
        {
            offers.push(self.offers[i].clone());
            assert(self.offers@.take(i + 1).map_values(|o: CapabilityOffer| o@) =~= self.offers@.take(
                i as int,
            ).map_values(|o: CapabilityOffer| o@).push(self.offers@[i as int]@));
            assert(offers@.map_values(|o: CapabilityOffer| o@) =~= self.offers@.take(i + 1).map_values(
                |o: CapabilityOffer| o@,
            ));
            i = i + 1;
        }
        assert(self.offers@.take(self.offers.len() as int) =~= self.offers@);
        let mut profiles: Vec<CapabilityProfile> = Vec::new();
        let mut j: usize = 0;
        while j < self.profiles.len()
            invariant
                j <= self.profiles.len(),
                profiles@.map_values(|p: CapabilityProfile| p@) == self.profiles@.take(
                    j as int,
                ).map_values(|p: CapabilityProfile| p@),
            decreases self.profiles.len() - j,
        {
            profiles.push(self.profiles[j].clone());
            assert(self.profiles@.take(j + 1).map_values(|p: CapabilityProfile| p@)
                =~= self.profiles@.take(j as int).map_values(|p: CapabilityProfile| p@).push(
                self.profiles@[j as int]@,
            ));
            assert(profiles@.map_values(|p: CapabilityProfile| p@) =~= self.profiles@.take(
                j + 1,
            ).map_values(|p: CapabilityProfile| p@));
            j = j + 1;
        }
        assert(self.profiles@.take(self.profiles.len() as int) =~= self.profiles@);
        CapabilityDeclaration {
            offers,
            requires: clone_requirements(&self.requires),
            consumes: clone_consumes(&self.consumes),
            profiles,
        }
    }
}

impl Clone for CapabilityBinding {
    fn clone(&self) -> (r: Self)
        ensures
            r@ == self@,
    {
        CapabilityBinding {
            kind: self.kind,
            request_id: self.request_id.clone(),
            offer_id: self.offer_id.clone(),
            capability: self.capability.clone(),
            provider: clone_opt_provider(&self.provider),
            profile: clone_opt_string(&self.profile),
        }
    }
}

/// Element-wise equality of two string lists.
pub fn strings_equal(a: &Vec<String>, b: &Vec<String>) -> (r: bool)
    ensures
        r == (strings_view(a@) == strings_view(b@)),
{
    if a.len() != b.len() {
        assert(strings_view(a@).len() != strings_view(b@).len());
        return false;
    }
    let mut i: usize = 0;
    while i < a.len()
        invariant
            a.len() == b.len(),
            i <= a.len(),
            forall|k: int| 0 <= k < i ==> a@[k]@ == b@[k]@,
        decreases a.len() - i,
    {
        if a[i] != b[i] {
            assert(strings_view(a@)[i as int] != strings_view(b@)[i as int]);
            return false;
        }
        i = i + 1;
    }
    assert(strings_view(a@) =~= strings_view(b@));
    true
}

pub fn opt_strings_equal(a: &Option<String>, b: &Option<String>) -> (r: bool)
    ensures
        r == (opt_string_view(*a) == opt_string_view(*b)),
{
    match (a, b) {
        (Some(x), Some(y)) => *x == *y,
        (None, None) => true,
        _ => false,
    }
}

pub fn metadata_equal(a: &Vec<MetadataEntry>, b: &Vec<MetadataEntry>) -> (r: bool)
    ensures
        r == (metadata_view(a@) == metadata_view(b@)),
{
    if a.len() != b.len() {
        assert(metadata_view(a@).len() != metadata_view(b@).len());
        return false;
    }
    let mut i: usize = 0;
    while i < a.len()
        invariant
            a.len() == b.len(),
            i <= a.len(),
            forall|k: int| 0 <= k < i ==> a@[k]@ == b@[k]@,
        decreases a.len() - i,
    {
        if a[i].key != b[i].key || a[i].value != b[i].value {
            assert(metadata_view(a@)[i as int] != metadata_view(b@)[i as int]);
            return false;
        }
        i = i + 1;
    }
    assert(metadata_view(a@) =~= metadata_view(b@));
    true
}

/// Field-wise equality of two requirements.
pub fn requirements_same(a: &CapabilityRequirement, b: &CapabilityRequirement) -> (r: bool)
    ensures
        r == (a@ == b@),
{
    a.id == b.id && str_equal(a.capability.as_str(), b.capability.as_str()) && strings_equal(
        &a.profiles,
        &b.profiles,
    ) && a.optional == b.optional && opt_strings_equal(&a.description, &b.description)
        && metadata_equal(&a.metadata, &b.metadata)
}

/// Field-wise equality of two consumes.
pub fn consumes_same(a: &CapabilityConsume, b: &CapabilityConsume) -> (r: bool)
    ensures
        r == (a@ == b@),
{
    let same_mode = match (a.mode, b.mode) {
        (CapabilityConsumeMode::Shared, CapabilityConsumeMode::Shared) => true,
        (CapabilityConsumeMode::Exclusive, CapabilityConsumeMode::Exclusive) => true,
        (CapabilityConsumeMode::Ephemeral, CapabilityConsumeMode::Ephemeral) => true,
        _ => false,
    };
    a.id == b.id && str_equal(a.capability.as_str(), b.capability.as_str()) && strings_equal(
        &a.profiles,
        &b.profiles,
    ) && same_mode && opt_strings_equal(&a.description, &b.description) && metadata_equal(
        &a.metadata,
        &b.metadata,
    )
}

/// Whether `v` holds a string equal to `s`.
pub fn strings_contain(v: &Vec<String>, s: &str) -> (r: bool)
    ensures
        r == strings_view(v@).contains(s@),
{
    let mut i: usize = 0;
    while i < v.len()
        invariant
            i <= v.len(),
            forall|k: int| 0 <= k < i ==> v@[k]@ != s@,
        decreases v.len() - i,
    {
        if str_equal(v[i].as_str(), s) {
            assert(strings_view(v@)[i as int] == s@);
            return true;
        }
        i = i + 1;
    }
    assert forall|k: int| 0 <= k < strings_view(v@).len() implies strings_view(v@)[k] != s@ by {}
    false
}


// ---------------------------------------------------------------------------
// Validation
// ---------------------------------------------------------------------------

/// Validation error for capability declarations and resolutions.
#[derive(Clone, Debug, PartialEq, Eq)]
pub enum CapabilityValidationError {
    /// Empty or malformed non-capability identifier.
    InvalidIdentifier { section: &'static str, id: String },
    /// Invalid capability identifier.
    InvalidCapabilityId { field: &'static str, value: String, source: CapabilityIdError },
    /// Duplicate identifier within a collection.
    DuplicateId { section: &'static str, id: String },
    /// Empty or malformed profile identifier.
    InvalidProfileId { section: &'static str, id: String },
    /// Reference to a non-existent profile.
    UnknownProfileReference { section: &'static str, reference: String },
}

pub enum ValidationErrorView {
    InvalidIdentifier { section: Seq<char>, id: Seq<char> },
    InvalidCapabilityId { field: Seq<char>, value: Seq<char>, source: CapabilityIdError },
    DuplicateId { section: Seq<char>, id: Seq<char> },
    InvalidProfileId { section: Seq<char>, id: Seq<char> },
    UnknownProfileReference { section: Seq<char>, reference: Seq<char> },
}

impl View for CapabilityValidationError {
    type V = ValidationErrorView;

    open spec fn view(&self) -> ValidationErrorView {
        match self {
            CapabilityValidationError::InvalidIdentifier { section, id } => {
                ValidationErrorView::InvalidIdentifier { section: section@, id: id@ }
            },
            CapabilityValidationError::InvalidCapabilityId { field, value, source } => {
                ValidationErrorView::InvalidCapabilityId {
                    field: field@,
                    value: value@,
                    source: *source,
                }
            },
            CapabilityValidationError::DuplicateId { section, id } => {
                ValidationErrorView::DuplicateId { section: section@, id: id@ }
            },
            CapabilityValidationError::InvalidProfileId { section, id } => {
                ValidationErrorView::InvalidProfileId { section: section@, id: id@ }
            },
            CapabilityValidationError::UnknownProfileReference { section, reference } => {
                ValidationErrorView::UnknownProfileReference {
                    section: section@,
                    reference: reference@,
                }
            },
        }
    }
}

/// The earlier of two checks that reports something.
pub open spec fn first_error<E>(a: Option<E>, b: Option<E>) -> Option<E> {
    if a is Some {
        a
    } else {
        b
    }
}

/// A validation result agrees with what a check reports.
pub open spec fn reports(r: Result<(), CapabilityValidationError>, c: Option<ValidationErrorView>) -> bool {
    match r {
        Ok(_) => c is None,
        Err(e) => c == Some(e@),
    }
}

pub open spec fn named_id_check(section: Seq<char>, value: Seq<char>) -> Option<ValidationErrorView> {
    if is_named_id(value) {
        None
    } else {
        Some(ValidationErrorView::InvalidIdentifier { section, id: value })
    }
}

pub open spec fn id_field_check(field: Seq<char>, value: Seq<char>) -> Option<ValidationErrorView> {
    if is_blank(value) {
        Some(ValidationErrorView::InvalidIdentifier { section: field, id: value })
    } else {
        match capability_id_check(value) {
            Some(e) => Some(ValidationErrorView::InvalidCapabilityId { field, value, source: e }),
            None => None,
        }
    }
}

/// Checks the entries of `s` in order; `step` looks at one entry and the
/// entries before it. Reports the first problem found.
pub open spec fn scan<T, E>(s: Seq<T>, step: spec_fn(Seq<T>, T) -> Option<E>) -> Option<E>
    decreases s.len(),
{
    if s.len() == 0 {
        None
    } else {
        first_error(scan(s.drop_last(), step), step(s.drop_last(), s.last()))
    }
}

pub proof fn lemma_scan_step<T, E>(s: Seq<T>, i: int, step: spec_fn(Seq<T>, T) -> Option<E>)
    requires
        0 <= i < s.len(),
    ensures
        scan(s.take(i + 1), step) == first_error(scan(s.take(i), step), step(s.take(i), s[i])),
{
    assert(s.take(i + 1).drop_last() =~= s.take(i));
}

pub proof fn lemma_scan_prefix<T, E>(s: Seq<T>, k: int, step: spec_fn(Seq<T>, T) -> Option<E>)
    requires
        0 <= k <= s.len(),
        scan(s.take(k), step) is Some,
    ensures
        scan(s, step) == scan(s.take(k), step),
    decreases s.len() - k,
{
    if k == s.len() {
        assert(s.take(k) =~= s);
    } else {
        assert(s.drop_last().take(k) =~= s.take(k));
        lemma_scan_prefix(s.drop_last(), k, step);
    }
}

pub proof fn lemma_scan_full<T, E>(s: Seq<T>, step: spec_fn(Seq<T>, T) -> Option<E>)
    ensures
        scan(s.take(s.len() as int), step) == scan(s, step),
{
    assert(s.take(s.len() as int) =~= s);
}

/// `scan` stops at the entry at `i` when the entries before it pass and it does not.
pub proof fn lemma_scan_stop<T, E>(s: Seq<T>, i: int, step: spec_fn(Seq<T>, T) -> Option<E>)
    requires
        0 <= i < s.len(),
        scan(s.take(i), step) is None,
        step(s.take(i), s[i]) is Some,
    ensures
        scan(s, step) == step(s.take(i), s[i]),
{
    lemma_scan_step(s, i, step);
    lemma_scan_prefix(s, i + 1, step);
}

pub open spec fn section_step(section: Seq<char>) -> spec_fn(Seq<Seq<char>>, Seq<char>) -> Option<ValidationErrorView> {
    |prev: Seq<Seq<char>>, id: Seq<char>|
        if !is_named_id(id) {
            Some(ValidationErrorView::InvalidIdentifier { section, id })
        } else if prev.contains(id) {
            Some(ValidationErrorView::DuplicateId { section, id })
        } else {
            None
        }
}

/// Identifiers of a collection, checked in order: each must be a named id and
/// must not repeat an earlier one.
pub open spec fn section_check(section: Seq<char>, ids: Seq<Seq<char>>) -> Option<ValidationErrorView> {
    scan(ids, section_step(section))
}

pub open spec fn profile_collection_step() -> spec_fn(Seq<Seq<char>>, Seq<char>) -> Option<ValidationErrorView> {
    |prev: Seq<Seq<char>>, id: Seq<char>|
        if !is_named_id(id) {
            Some(ValidationErrorView::InvalidProfileId { section: "profiles"@, id })
        } else if prev.contains(id) {
            Some(ValidationErrorView::DuplicateId { section: "profiles"@, id })
        } else {
            None
        }
}

/// Profile identifiers, checked in order.
pub open spec fn profile_collection_check(ids: Seq<Seq<char>>) -> Option<ValidationErrorView> {
    scan(ids, profile_collection_step())
}

pub open spec fn profile_refs_step(section: Seq<char>, owner: Seq<char>, known: Seq<Seq<char>>) -> spec_fn(Seq<Seq<char>>, Seq<char>) -> Option<ValidationErrorView> {
    |prev: Seq<Seq<char>>, r: Seq<char>|
        if !is_named_id(r) {
            Some(ValidationErrorView::InvalidProfileId { section, id: r })
        } else if prev.contains(r) {
            Some(ValidationErrorView::DuplicateId { section, id: owner + seq![':'] + r })
        } else if !known.contains(r) {
            Some(ValidationErrorView::UnknownProfileReference { section, reference: r })
        } else {
            None
        }
}

/// Profile references of one entry, checked in order.
pub open spec fn profile_refs_check(
    section: Seq<char>,
    owner: Seq<char>,
    refs: Seq<Seq<char>>,
    known: Seq<Seq<char>>,
) -> Option<ValidationErrorView> {
    scan(refs, profile_refs_step(section, owner, known))
}

pub open spec fn requirement_check(r: RequirementView, known: Seq<Seq<char>>) -> Option<ValidationErrorView> {
    first_error(
        id_field_check("requires.capability"@, r.capability),
        first_error(
            named_id_check("requires.id"@, r.id),
            profile_refs_check("requires.profiles"@, r.id, r.profiles, known),
        ),
    )
}

pub open spec fn consume_check(c: ConsumeView, known: Seq<Seq<char>>) -> Option<ValidationErrorView> {
    first_error(
        id_field_check("consumes.capability"@, c.capability),
        first_error(
            named_id_check("consumes.id"@, c.id),
            profile_refs_check("consumes.profiles"@, c.id, c.profiles, known),
        ),
    )
}

pub open spec fn offer_check(o: OfferView, known: Seq<Seq<char>>) -> Option<ValidationErrorView> {
    first_error(
        profile_refs_check("offers"@, o.id, o.profiles, known),
        named_id_check("offers"@, o.id),
    )
}

pub open spec fn requirements_step(known: Seq<Seq<char>>) -> spec_fn(Seq<RequirementView>, RequirementView) -> Option<ValidationErrorView> {
    |prev: Seq<RequirementView>, r: RequirementView| requirement_check(r, known)
}

pub open spec fn requirements_check(rs: Seq<RequirementView>, known: Seq<Seq<char>>) -> Option<ValidationErrorView> {
    scan(rs, requirements_step(known))
}

pub open spec fn consumes_step(known: Seq<Seq<char>>) -> spec_fn(Seq<ConsumeView>, ConsumeView) -> Option<ValidationErrorView> {
    |prev: Seq<ConsumeView>, c: ConsumeView| consume_check(c, known)
}

pub open spec fn consumes_check(cs: Seq<ConsumeView>, known: Seq<Seq<char>>) -> Option<ValidationErrorView> {
    scan(cs, consumes_step(known))
}

pub open spec fn offers_step(known: Seq<Seq<char>>) -> spec_fn(Seq<OfferView>, OfferView) -> Option<ValidationErrorView> {
    |prev: Seq<OfferView>, o: OfferView| offer_check(o, known)
}

pub open spec fn offers_check(os: Seq<OfferView>, known: Seq<Seq<char>>) -> Option<ValidationErrorView> {
    scan(os, offers_step(known))
}

pub open spec fn profile_check(p: ProfileView, known: Seq<Seq<char>>) -> Option<ValidationErrorView> {
    first_error(
        named_id_check("profiles.id"@, p.id),
        first_error(requirements_check(p.requires, known), consumes_check(p.consumes, known)),
    )
}

pub open spec fn profiles_step(known: Seq<Seq<char>>) -> spec_fn(Seq<ProfileView>, ProfileView) -> Option<ValidationErrorView> {
    |prev: Seq<ProfileView>, p: ProfileView| profile_check(p, known)
}

pub open spec fn profiles_check(ps: Seq<ProfileView>, known: Seq<Seq<char>>) -> Option<ValidationErrorView> {
    scan(ps, profiles_step(known))
}

pub open spec fn profile_ids(d: DeclarationView) -> Seq<Seq<char>> {
    d.profiles.map_values(|p: ProfileView| p.id)
}

pub open spec fn offer_ids(os: Seq<OfferView>) -> Seq<Seq<char>> {
    os.map_values(|o: OfferView| o.id)
}

pub open spec fn requirement_ids(rs: Seq<RequirementView>) -> Seq<Seq<char>> {
    rs.map_values(|r: RequirementView| r.id)
}

pub open spec fn consume_ids(cs: Seq<ConsumeView>) -> Seq<Seq<char>> {
    cs.map_values(|c: ConsumeView| c.id)
}

/// Everything `CapabilityDeclaration::validate` checks, in its order; `None`
/// when the declaration is valid, else the first problem found.
pub open spec fn declaration_check(d: DeclarationView) -> Option<ValidationErrorView> {
    let known = profile_ids(d);
    first_error(
        profile_collection_check(known),
        first_error(
            section_check("offers.id"@, offer_ids(d.offers)),
            first_error(
                section_check("requires.id"@, requirement_ids(d.requires)),
                first_error(
                    section_check("consumes.id"@, consume_ids(d.consumes)),
                    first_error(
                        offers_check(d.offers, known),
                        first_error(
                            requirements_check(d.requires, known),
                            first_error(consumes_check(d.consumes, known), profiles_check(d.profiles, known)),
                        ),
                    ),
                ),
            ),
        ),
    )
}

pub open spec fn binding_ids(bs: Seq<BindingView>) -> Seq<Seq<char>> {
    bs.map_values(|b: BindingView| b.request_id)
}

pub open spec fn binding_check(b: BindingView) -> Option<ValidationErrorView> {
    first_error(
        named_id_check("bindings.request_id"@, b.request_id),
        named_id_check("bindings.offer_id"@, b.offer_id),
    )
}

pub open spec fn bindings_step() -> spec_fn(Seq<BindingView>, BindingView) -> Option<ValidationErrorView> {
    |prev: Seq<BindingView>, b: BindingView| binding_check(b)
}

pub open spec fn bindings_check(bs: Seq<BindingView>) -> Option<ValidationErrorView> {
    scan(bs, bindings_step())
}

/// Everything `CapabilityResolution::validate` checks, in its order.
pub open spec fn resolution_check(r: ResolutionView) -> Option<ValidationErrorView> {
    first_error(
        declaration_check(r.declaration),
        first_error(section_check("bindings"@, binding_ids(r.bindings)), bindings_check(r.bindings)),
    )
}

/// Non-capability identifier check (`section` names the collection).
pub fn validate_named_id(section: &'static str, value: &str) -> (r: Result<(), CapabilityValidationError>)
    ensures
        reports(r, named_id_check(section@, value@)),
{
    if !str_is_named_id(value) {
        return Err(CapabilityValidationError::InvalidIdentifier { section, id: value.to_owned() });
    }
    Ok(())
}

/// Capability id field check (`field` names the field).
pub fn validate_id_field(field: &'static str, value: &str) -> (r: Result<(), CapabilityValidationError>)
    ensures
        reports(r, id_field_check(field@, value@)),
{
    if str_is_blank(value) {
        return Err(CapabilityValidationError::InvalidIdentifier { section: field, id: value.to_owned() });
    }
    match check_capability_id(value) {
        Ok(()) => Ok(()),
        Err(source) => Err(
            CapabilityValidationError::InvalidCapabilityId { field, value: value.to_owned(), source },
        ),
    }
}

/// Whether one of the first `end` strings of `v` equals `s`.
pub fn prefix_contains(v: &Vec<String>, end: usize, s: &str) -> (r: bool)
    requires
        end <= v.len(),
    ensures
        r == strings_view(v@).take(end as int).contains(s@),
{
    let mut i: usize = 0;
    while i < end
        invariant
            end <= v.len(),
            i <= end,
            forall|k: int| 0 <= k < i ==> v@[k]@ != s@,
        decreases end - i,
    {
        if str_equal(v[i].as_str(), s) {
            assert(strings_view(v@).take(end as int)[i as int] == s@);
            return true;
        }
        i = i + 1;
    }
    assert forall|k: int| 0 <= k < end implies strings_view(v@).take(end as int)[k] != s@ by {}
    false
}

/// Checks a collection's identifiers in order (named ids, no repeats).
pub fn validate_section(section: &'static str, ids: &Vec<String>) -> (r: Result<(), CapabilityValidationError>)
    ensures
        reports(r, section_check(section@, strings_view(ids@))),
{
    let mut i: usize = 0;
    while i < ids.len()
        invariant
            i <= ids.len(),
            section_check(section@, strings_view(ids@).take(i as int)) is None,
        decreases ids.len() - i,
    {
        proof {
            lemma_scan_step(strings_view(ids@), i as int, section_step(section@));
        }
        if let Err(e) = validate_named_id(section, ids[i].as_str()) {
            proof {
                lemma_scan_stop(strings_view(ids@), i as int, section_step(section@));
            }
            return Err(e);
        }
        if prefix_contains(ids, i, ids[i].as_str()) {
            proof {
                lemma_scan_stop(strings_view(ids@), i as int, section_step(section@));
            }
            return Err(CapabilityValidationError::DuplicateId { section, id: ids[i].clone() });
        }
        i = i + 1;
    }
    proof {
        lemma_scan_full(strings_view(ids@), section_step(section@));
    }
    Ok(())
}

/// Checks the profile identifiers of a declaration in order.
pub fn validate_profile_collection(ids: &Vec<String>) -> (r: Result<(), CapabilityValidationError>)
    ensures
        reports(r, profile_collection_check(strings_view(ids@))),
{
    let mut i: usize = 0;
    while i < ids.len()
        invariant
            i <= ids.len(),
            profile_collection_check(strings_view(ids@).take(i as int)) is None,
        decreases ids.len() - i,
    {
        proof {
            lemma_scan_step(strings_view(ids@), i as int, profile_collection_step());
        }
        if !str_is_named_id(ids[i].as_str()) {
            proof {
                lemma_scan_stop(strings_view(ids@), i as int, profile_collection_step());
            }
            return Err(CapabilityValidationError::InvalidProfileId { section: "profiles", id: ids[i].clone() });
        }
        if prefix_contains(ids, i, ids[i].as_str()) {
            proof {
                lemma_scan_stop(strings_view(ids@), i as int, profile_collection_step());
            }
            return Err(CapabilityValidationError::DuplicateId { section: "profiles", id: ids[i].clone() });
        }
        i = i + 1;
    }
    proof {
        lemma_scan_full(strings_view(ids@), profile_collection_step());
    }
    Ok(())
}

/// Checks the profile references of one entry (`owner`) in order.
pub fn validate_profile_refs(
    section: &'static str,
    owner: &str,
    refs: &Vec<String>,
    known: &Vec<String>,
) -> (r: Result<(), CapabilityValidationError>)
    ensures
        reports(r, profile_refs_check(section@, owner@, strings_view(refs@), strings_view(known@))),
{
    let mut i: usize = 0;
    while i < refs.len()
        invariant
            i <= refs.len(),
            profile_refs_check(section@, owner@, strings_view(refs@).take(i as int), strings_view(known@)) is None,
        decreases refs.len() - i,
    {
        let ghost step = profile_refs_step(section@, owner@, strings_view(known@));
        proof {
            lemma_scan_step(strings_view(refs@), i as int, step);
        }
        let reference = refs[i].as_str();
        if !str_is_named_id(reference) {
            proof {
                lemma_scan_stop(strings_view(refs@), i as int, step);
            }
            return Err(CapabilityValidationError::InvalidProfileId { section, id: refs[i].clone() });
        }
        if prefix_contains(refs, i, reference) {
            proof {
                reveal_strlit(":");
            }
            let id = String::from_str(owner).concat(":").concat(reference);
            assert(id@ =~= owner@ + seq![':'] + reference@);
            proof {
                lemma_scan_stop(strings_view(refs@), i as int, step);
            }
            return Err(CapabilityValidationError::DuplicateId { section, id });
        }
        if !strings_contain(known, reference) {
            proof {
                lemma_scan_stop(strings_view(refs@), i as int, step);
            }
            return Err(CapabilityValidationError::UnknownProfileReference { section, reference: refs[i].clone() });
        }
        i = i + 1;
    }
    proof {
        lemma_scan_full(strings_view(refs@), profile_refs_step(section@, owner@, strings_view(known@)));
    }
    Ok(())
}


/// Checks one requirement against the known profile ids.
pub fn validate_requirement(
    requirement: &CapabilityRequirement,
    known: &Vec<String>,
) -> (r: Result<(), CapabilityValidationError>)
    ensures
        reports(r, requirement_check(requirement@, strings_view(known@))),
{
    validate_id_field("requires.capability", requirement.capability.as_str())?;
    validate_named_id("requires.id", requirement.id.as_str())?;
    validate_profile_refs("requires.profiles", requirement.id.as_str(), &requirement.profiles, known)
}

/// Checks one consume against the known profile ids.
pub fn validate_consume(
    consume: &CapabilityConsume,
    known: &Vec<String>,
) -> (r: Result<(), CapabilityValidationError>)
    ensures
        reports(r, consume_check(consume@, strings_view(known@))),
{
    validate_id_field("consumes.capability", consume.capability.as_str())?;
    validate_named_id("consumes.id", consume.id.as_str())?;
    validate_profile_refs("consumes.profiles", consume.id.as_str(), &consume.profiles, known)
}

/// Checks a list of requirements in order.
pub fn validate_requirements(
    items: &Vec<CapabilityRequirement>,
    known: &Vec<String>,
) -> (r: Result<(), CapabilityValidationError>)
    ensures
        reports(r, requirements_check(requirements_view(items@), strings_view(known@))),
{
    let ghost step = requirements_step(strings_view(known@));
    let ghost all = requirements_view(items@);
    let mut i: usize = 0;
    while i < items.len()
        invariant
            i <= items.len(),
            all == requirements_view(items@),
            step == requirements_step(strings_view(known@)),
            scan(all.take(i as int), step) is None,
        decreases items.len() - i,
    {
        proof {
            lemma_scan_step(all, i as int, step);
        }
        if let Err(e) = validate_requirement(&items[i], known) {
            proof {
                lemma_scan_stop(all, i as int, step);
            }
            return Err(e);
        }
        i = i + 1;
    }
    proof {
        lemma_scan_full(all, step);
    }
    Ok(())
}

/// Checks a list of consumes in order.
pub fn validate_consumes(
    items: &Vec<CapabilityConsume>,
    known: &Vec<String>,
) -> (r: Result<(), CapabilityValidationError>)
    ensures
        reports(r, consumes_check(consumes_view(items@), strings_view(known@))),
{
    let ghost step = consumes_step(strings_view(known@));
    let ghost all = consumes_view(items@);
    let mut i: usize = 0;
    while i < items.len()
        invariant
            i <= items.len(),
            all == consumes_view(items@),
            step == consumes_step(strings_view(known@)),
            scan(all.take(i as int), step) is None,
        decreases items.len() - i,
    {
        proof {
            lemma_scan_step(all, i as int, step);
        }
        if let Err(e) = validate_consume(&items[i], known) {
            proof {
                lemma_scan_stop(all, i as int, step);
            }
            return Err(e);
        }
        i = i + 1;
    }
    proof {
        lemma_scan_full(all, step);
    }
    Ok(())
}

/// Checks each offer's profile references and identifier, in order.
pub fn validate_offers(items: &Vec<CapabilityOffer>, known: &Vec<String>) -> (r: Result<(), CapabilityValidationError>)
    ensures
        reports(r, offers_check(items@.map_values(|o: CapabilityOffer| o@), strings_view(known@))),
{
    let ghost step = offers_step(strings_view(known@));
    let ghost all = items@.map_values(|o: CapabilityOffer| o@);
    let mut i: usize = 0;
    while i < items.len()
        invariant
            i <= items.len(),
            all == items@.map_values(|o: CapabilityOffer| o@),
            step == offers_step(strings_view(known@)),
            scan(all.take(i as int), step) is None,
        decreases items.len() - i,
    {
        proof {
            lemma_scan_step(all, i as int, step);
        }
        let offer = &items[i];
        let checked = match validate_profile_refs("offers", offer.id.as_str(), &offer.profiles, known) {
            Ok(()) => validate_named_id("offers", offer.id.as_str()),
            Err(e) => Err(e),
        };
        if let Err(e) = checked {
            proof {
                lemma_scan_stop(all, i as int, step);
            }
            return Err(e);
        }
        i = i + 1;
    }
    proof {
        lemma_scan_full(all, step);
    }
    Ok(())
}

/// Checks each profile (identifier, requirements, consumes), in order.
pub fn validate_profiles(items: &Vec<CapabilityProfile>, known: &Vec<String>) -> (r: Result<(), CapabilityValidationError>)
    ensures
        reports(r, profiles_check(items@.map_values(|p: CapabilityProfile| p@), strings_view(known@))),
{
    let ghost step = profiles_step(strings_view(known@));
    let ghost all = items@.map_values(|p: CapabilityProfile| p@);
    let mut i: usize = 0;
    while i < items.len()
        invariant
            i <= items.len(),
            all == items@.map_values(|p: CapabilityProfile| p@),
            step == profiles_step(strings_view(known@)),
            scan(all.take(i as int), step) is None,
        decreases items.len() - i,
    {
        proof {
            lemma_scan_step(all, i as int, step);
        }
        if let Err(e) = items[i].validate(known) {
            proof {
                lemma_scan_stop(all, i as int, step);
            }
            return Err(e);
        }
        i = i + 1;
    }
    proof {
        lemma_scan_full(all, step);
    }
    Ok(())
}

/// Identifiers of the offers, in order.
pub fn offer_id_list(items: &Vec<CapabilityOffer>) -> (r: Vec<String>)
    ensures
        strings_view(r@) == offer_ids(items@.map_values(|o: CapabilityOffer| o@)),
{
    let mut out: Vec<String> = Vec::new();
    let mut i: usize = 0;
    while i < items.len()
        invariant
            i <= items.len(),
            strings_view(out@) == offer_ids(items@.map_values(|o: CapabilityOffer| o@)).take(i as int),
        decreases items.len() - i,
    {
        let ghost prev = out@;
        out.push(items[i].id.clone());
        assert(strings_view(out@) =~= strings_view(prev).push(items@[i as int].id@));
        assert(offer_ids(items@.map_values(|o: CapabilityOffer| o@)).take(i + 1) =~= offer_ids(items@.map_values(|o: CapabilityOffer| o@)).take(i as int).push(items@[i as int].id@));
        i = i + 1;
    }
    assert(offer_ids(items@.map_values(|o: CapabilityOffer| o@)).take(i as int) =~= offer_ids(items@.map_values(|o: CapabilityOffer| o@)));
    out
}

/// Identifiers of the requirements, in order.
pub fn requirement_id_list(items: &Vec<CapabilityRequirement>) -> (r: Vec<String>)
    ensures
        strings_view(r@) == requirement_ids(requirements_view(items@)),
{
    let mut out: Vec<String> = Vec::new();
    let mut i: usize = 0;
    while i < items.len()
        invariant
            i <= items.len(),
            strings_view(out@) == requirement_ids(requirements_view(items@)).take(i as int),
        decreases items.len() - i,
    {
        let ghost prev = out@;
        out.push(items[i].id.clone());
        assert(strings_view(out@) =~= strings_view(prev).push(items@[i as int].id@));
        assert(requirement_ids(requirements_view(items@)).take(i + 1) =~= requirement_ids(requirements_view(items@)).take(i as int).push(items@[i as int].id@));
        i = i + 1;
    }
    assert(requirement_ids(requirements_view(items@)).take(i as int) =~= requirement_ids(requirements_view(items@)));
    out
}

/// Identifiers of the consumes, in order.
pub fn consume_id_list(items: &Vec<CapabilityConsume>) -> (r: Vec<String>)
    ensures
        strings_view(r@) == consume_ids(consumes_view(items@)),
{
    let mut out: Vec<String> = Vec::new();
    let mut i: usize = 0;
    while i < items.len()
        invariant
            i <= items.len(),
            strings_view(out@) == consume_ids(consumes_view(items@)).take(i as int),
        decreases items.len() - i,
    {
        let ghost prev = out@;
        out.push(items[i].id.clone());
        assert(strings_view(out@) =~= strings_view(prev).push(items@[i as int].id@));
        assert(consume_ids(consumes_view(items@)).take(i + 1) =~= consume_ids(consumes_view(items@)).take(i as int).push(items@[i as int].id@));
        i = i + 1;
    }
    assert(consume_ids(consumes_view(items@)).take(i as int) =~= consume_ids(consumes_view(items@)));
    out
}

/// Identifiers of the profiles, in order.
pub fn profile_id_list(items: &Vec<CapabilityProfile>) -> (r: Vec<String>)
    ensures
        strings_view(r@) == items@.map_values(|p: CapabilityProfile| p@).map_values(|p: ProfileView| p.id),
{
    let ghost ids = items@.map_values(|p: CapabilityProfile| p@).map_values(|p: ProfileView| p.id);
    let mut out: Vec<String> = Vec::new();
    let mut i: usize = 0;
    while i < items.len()
        invariant
            i <= items.len(),
            ids == items@.map_values(|p: CapabilityProfile| p@).map_values(|p: ProfileView| p.id),
            strings_view(out@) == ids.take(i as int),
        decreases items.len() - i,
    {
        let ghost prev = out@;
        out.push(items[i].id.clone());
        assert(strings_view(out@) =~= strings_view(prev).push(items@[i as int].id@));
        assert(ids.take(i + 1) =~= ids.take(i as int).push(items@[i as int].id@));
        i = i + 1;
    }
    assert(ids.take(i as int) =~= ids);
    out
}

impl CapabilityProfile {
    /// Creates a new profile.
    pub fn new(id: String) -> (r: Self)
        ensures
            r.id@ == id@,
            r.description is None,
            r.requires@.len() == 0,
            r.consumes@.len() == 0,
    {
        CapabilityProfile { id, description: None, requires: Vec::new(), consumes: Vec::new() }
    }

    /// Checks this profile against the known profile ids.
    pub fn validate(&self, known: &Vec<String>) -> (r: Result<(), CapabilityValidationError>)
        ensures
            reports(r, profile_check(self@, strings_view(known@))),
    {
        validate_named_id("profiles.id", self.id.as_str())?;
        validate_requirements(&self.requires, known)?;
        validate_consumes(&self.consumes, known)
    }
}

impl CapabilityOffer {
    /// Creates a new capability offer.
    pub fn new(id: String, capability: CapabilityId) -> (r: Self)
        ensures
            r.id@ == id@,
            r.capability@ == capability@,
            r.provider is None,
            r.profiles@.len() == 0,
            r.description is None,
            r.metadata@.len() == 0,
    {
        CapabilityOffer {
            id,
            capability,
            provider: None,
            profiles: Vec::new(),
            description: None,
            metadata: Vec::new(),
        }
    }
}

impl CapabilityRequirement {
    /// Creates a new, non-optional capability requirement.
    pub fn new(id: String, capability: CapabilityId) -> (r: Self)
        ensures
            r.id@ == id@,
            r.capability@ == capability@,
            r.profiles@.len() == 0,
            !r.optional,
            r.description is None,
            r.metadata@.len() == 0,
    {
        CapabilityRequirement {
            id,
            capability,
            profiles: Vec::new(),
            optional: false,
            description: None,
            metadata: Vec::new(),
        }
    }
}

impl CapabilityConsume {
    /// Creates a new capability consume declaration (shared mode).
    pub fn new(id: String, capability: CapabilityId) -> (r: Self)
        ensures
            r.id@ == id@,
            r.capability@ == capability@,
            r.profiles@.len() == 0,
            r.mode == CapabilityConsumeMode::Shared,
            r.description is None,
            r.metadata@.len() == 0,
    {
        CapabilityConsume {
            id,
            capability,
            profiles: Vec::new(),
            mode: CapabilityConsumeMode::Shared,
            description: None,
            metadata: Vec::new(),
        }
    }
}

impl CapabilityDeclaration {
    /// Creates an empty capability declaration.
    pub fn new() -> (r: Self)
        ensures
            r.offers@.len() == 0,
            r.requires@.len() == 0,
            r.consumes@.len() == 0,
            r.profiles@.len() == 0,
    {
        CapabilityDeclaration {
            offers: Vec::new(),
            requires: Vec::new(),
            consumes: Vec::new(),
            profiles: Vec::new(),
        }
    }

    /// Validates the declaration for malformed and duplicate ids and bad
    /// profile references; reports the first problem in a fixed order.
    pub fn validate(&self) -> (r: Result<(), CapabilityValidationError>)
        ensures
            reports(r, declaration_check(self@)),
    {
        let known = profile_id_list(&self.profiles);
        assert(strings_view(known@) =~= profile_ids(self@));
        validate_profile_collection(&known)?;
        let offer_list = offer_id_list(&self.offers);
        validate_section("offers.id", &offer_list)?;
        let requirement_list = requirement_id_list(&self.requires);
        validate_section("requires.id", &requirement_list)?;
        let consume_list = consume_id_list(&self.consumes);
        validate_section("consumes.id", &consume_list)?;
        validate_offers(&self.offers, &known)?;
        validate_requirements(&self.requires, &known)?;
        validate_consumes(&self.consumes, &known)?;
        validate_profiles(&self.profiles, &known)
    }
}

impl Default for CapabilityDeclaration {
    fn default() -> (r: Self)
        ensures
            r.offers@.len() == 0,
            r.requires@.len() == 0,
            r.consumes@.len() == 0,
            r.profiles@.len() == 0,
    {
        Self::new()
    }
}

impl CapabilityBinding {
    /// Creates a binding for a requirement or consume, with no provider or profile.
    pub fn new(kind: CapabilityBindingKind, request_id: String, offer_id: String, capability: CapabilityId) -> (r: Self)
        ensures
            r.kind == kind,
            r.request_id@ == request_id@,
            r.offer_id@ == offer_id@,
            r.capability@ == capability@,
            r.provider is None,
            r.profile is None,
    {
        CapabilityBinding { kind, request_id, offer_id, capability, provider: None, profile: None }
    }

    /// Validates the binding identifiers.
    pub fn validate(&self) -> (r: Result<(), CapabilityValidationError>)
        ensures
            reports(r, binding_check(self@)),
    {
        validate_named_id("bindings.request_id", self.request_id.as_str())?;
        validate_named_id("bindings.offer_id", self.offer_id.as_str())
    }
}

impl CapabilityResolution {
    /// Creates an empty resolution result for a declaration.
    pub fn new(declaration: CapabilityDeclaration) -> (r: Self)
        ensures
            r.declaration@ == declaration@,
            r.bindings@.len() == 0,
    {
        CapabilityResolution { declaration, bindings: Vec::new() }
    }

    /// Validates the underlying declaration and the binding set.
    pub fn validate(&self) -> (r: Result<(), CapabilityValidationError>)
        ensures
            reports(r, resolution_check(self@)),
    {
        self.declaration.validate()?;
        let ghost all = bindings_view(self.bindings@);
        let mut ids: Vec<String> = Vec::new();
        let mut k: usize = 0;
        while k < self.bindings.len()
            invariant
                k <= self.bindings.len(),
                all == bindings_view(self.bindings@),
                strings_view(ids@) == binding_ids(all).take(k as int),
            decreases self.bindings.len() - k,
        {
            let ghost prev = ids@;
            ids.push(self.bindings[k].request_id.clone());
            assert(strings_view(ids@) =~= strings_view(prev).push(self.bindings@[k as int].request_id@));
            assert(binding_ids(all).take(k + 1) =~= binding_ids(all).take(k as int).push(self.bindings@[k as int].request_id@));
            k = k + 1;
        }
        assert(binding_ids(all).take(k as int) =~= binding_ids(all));
        validate_section("bindings", &ids)?;
        let ghost step = bindings_step();
        let mut i: usize = 0;
        while i < self.bindings.len()
            invariant
                i <= self.bindings.len(),
                all == bindings_view(self.bindings@),
                step == bindings_step(),
                declaration_check(self.declaration@) is None,
                section_check("bindings"@, binding_ids(all)) is None,
                scan(all.take(i as int), step) is None,
            decreases self.bindings.len() - i,
        {
            proof {
                lemma_scan_step(all, i as int, step);
            }
            if let Err(e) = self.bindings[i].validate() {
                proof {
                    lemma_scan_stop(all, i as int, step);
                }
                return Err(e);
            }
            i = i + 1;
        }
        proof {
            lemma_scan_full(all, step);
        }
        Ok(())
    }
}

} // verus!
