//! The human-readable messages of the capability errors. Quoted values are
//! shown the way Rust's `Debug` formatting shows them.

use vstd::prelude::*;

use crate::cap_core::{CapabilityCoreError, CoreErrorView};
use crate::cap_profile::{CapabilityProfileExpansionError, ExpansionErrorView};
use crate::cap_resolver::{CapabilityResolverError, ResolverErrorView};
use crate::cap_types::{opt_string_view, CapabilityIdError, CapabilityValidationError, ValidationErrorView};
use crate::text::{decimal, u64_to_decimal};

verus! {

/// What `Debug` formatting shows for a text: the text quoted, with escapes.
pub uninterp spec fn str_debug_text(s: Seq<char>) -> Seq<char>;

/// What `Debug` formatting shows for a character: the character quoted,
/// with escapes.
pub uninterp spec fn char_debug_text(c: char) -> Seq<char>;

/// What `Debug` formatting shows for an optional text: `None`, or the
/// quoted text inside `Some(..)`.
pub open spec fn opt_str_debug_text(o: Option<Seq<char>>) -> Seq<char> {
    match o {
        Some(s) => "Some("@ + str_debug_text(s) + ")"@,
        None => "None"@,
    }
}

/// `format!("{:?}", s)` for a `str`: std's `Debug` for `str`, which depends
/// on the text alone.
#[verifier::external_body]
fn debug_str(s: &str) -> (r: String)
    ensures
        r@ == str_debug_text(s@),
{
    format!("{s:?}")
}

/// `format!("{:?}", c)` for a `char`: std's `Debug` for `char`, which
/// depends on the character alone.
#[verifier::external_body]
fn debug_char(c: char) -> (r: String)
    ensures
        r@ == char_debug_text(c),
{
    format!("{c:?}")
}

/// The `Debug` text of an optional text.
fn debug_opt_str(o: &Option<String>) -> (r: String)
    ensures
        r@ == opt_str_debug_text(opt_string_view(*o)),
{
    match o {
        Some(t) => {
            let mut s = String::from_str("Some(");
            let d = debug_str(t.as_str());
            s.append(d.as_str());
            s.append(")");
            s
        },
        None => String::from_str("None"),
    }
}

pub open spec fn id_error_text(e: CapabilityIdError) -> Seq<char> {
    match e {
        CapabilityIdError::MissingScheme => "capability ids must use the cap:// scheme"@,
        CapabilityIdError::Empty => "capability ids must not be empty"@,
        CapabilityIdError::InvalidCharacter { ch, index } => "capability id contains invalid character "@
            + char_debug_text(ch) + " at index "@ + decimal(index as nat),
    }
}

pub open spec fn validation_error_text(e: ValidationErrorView) -> Seq<char> {
    match e {
        ValidationErrorView::InvalidIdentifier { section, id } => section + " contains invalid identifier "@
            + str_debug_text(id),
        ValidationErrorView::InvalidCapabilityId { field, value, source } => field
            + " contains invalid capability id "@ + str_debug_text(value) + ": "@ + id_error_text(source),
        ValidationErrorView::DuplicateId { section, id } => section + " contains duplicate identifier "@
            + str_debug_text(id),
        ValidationErrorView::InvalidProfileId { section, id } => section + " contains invalid profile id "@
            + str_debug_text(id),
        ValidationErrorView::UnknownProfileReference { section, reference } => section
            + " references unknown profile "@ + str_debug_text(reference),
    }
}

pub open spec fn expansion_error_text(e: ExpansionErrorView) -> Seq<char> {
    match e {
        ExpansionErrorView::Validation(v) => validation_error_text(v),
        ExpansionErrorView::UnknownProfile { profile_id } => "unknown capability profile "@ + str_debug_text(
            profile_id,
        ),
        ExpansionErrorView::ConflictingRequirement { profile_id, id } => "profile "@ + opt_str_debug_text(profile_id)
            + " contains conflicting requirement "@ + str_debug_text(id),
        ExpansionErrorView::ConflictingConsume { profile_id, id } => "profile "@ + opt_str_debug_text(profile_id)
            + " contains conflicting consume "@ + str_debug_text(id),
    }
}

pub open spec fn resolver_error_text(e: ResolverErrorView) -> Seq<char> {
    match e {
        ResolverErrorView::Validation(v) => validation_error_text(v),
        ResolverErrorView::Expansion(x) => expansion_error_text(x),
    }
}

pub open spec fn core_error_text(e: CoreErrorView) -> Seq<char> {
    match e {
        CoreErrorView::Expansion(x) => expansion_error_text(x),
        CoreErrorView::Resolver(r) => resolver_error_text(r),
    }
}

impl CapabilityIdError {
    /// The error's message.
    pub fn message(&self) -> (r: String)
        ensures
            r@ == id_error_text(*self),
    {
        match self {
            CapabilityIdError::MissingScheme => String::from_str("capability ids must use the cap:// scheme"),
            CapabilityIdError::Empty => String::from_str("capability ids must not be empty"),
            CapabilityIdError::InvalidCharacter { ch, index } => {
                let mut s = String::from_str("capability id contains invalid character ");
                let c = debug_char(*ch);
                s.append(c.as_str());
                s.append(" at index ");
                let n = u64_to_decimal(*index as u64);
                s.append(n.as_str());
                s
            },
        }
    }
}

/// `lead` + the debug text of `value`.
fn with_debug(lead: String, value: &str) -> (r: String)
    ensures
        r@ == lead@ + str_debug_text(value@),
{
    let mut s = lead;
    let d = debug_str(value);
    s.append(d.as_str());
    s
}

/// `section` + `middle`, as a new string.
fn joined(section: &str, middle: &str) -> (r: String)
    ensures
        r@ == section@ + middle@,
{
    let mut s = String::from_str(section);
    s.append(middle);
    s
}

impl CapabilityValidationError {
    /// The error's message.
    pub fn message(&self) -> (r: String)
        ensures
            r@ == validation_error_text(self@),
    {
        match self {
            CapabilityValidationError::InvalidIdentifier { section, id } => {
                with_debug(joined(section, " contains invalid identifier "), id.as_str())
            },
            CapabilityValidationError::InvalidCapabilityId { field, value, source } => {
                let mut s = with_debug(joined(field, " contains invalid capability id "), value.as_str());
                s.append(": ");
                let m = source.message();
                s.append(m.as_str());
                s
            },
            CapabilityValidationError::DuplicateId { section, id } => {
                with_debug(joined(section, " contains duplicate identifier "), id.as_str())
            },
            CapabilityValidationError::InvalidProfileId { section, id } => {
                with_debug(joined(section, " contains invalid profile id "), id.as_str())
            },
            CapabilityValidationError::UnknownProfileReference { section, reference } => {
                with_debug(joined(section, " references unknown profile "), reference.as_str())
            },
        }
    }
}

impl CapabilityProfileExpansionError {
    /// The error's message.
    pub fn message(&self) -> (r: String)
        ensures
            r@ == expansion_error_text(self@),
    {
        match self {
            CapabilityProfileExpansionError::Validation(e) => e.message(),
            CapabilityProfileExpansionError::UnknownProfile { profile_id } => {
                with_debug(String::from_str("unknown capability profile "), profile_id.as_str())
            },
            CapabilityProfileExpansionError::ConflictingRequirement { profile_id, id } => {
                let mut s = String::from_str("profile ");
                let p = debug_opt_str(profile_id);
                s.append(p.as_str());
                s.append(" contains conflicting requirement ");
                with_debug(s, id.as_str())
            },
            CapabilityProfileExpansionError::ConflictingConsume { profile_id, id } => {
                let mut s = String::from_str("profile ");
                let p = debug_opt_str(profile_id);
                s.append(p.as_str());
                s.append(" contains conflicting consume ");
                with_debug(s, id.as_str())
            },
        }
    }
}

impl CapabilityResolverError {
    /// The error's message: that of the underlying error.
    pub fn message(&self) -> (r: String)
        ensures
            r@ == resolver_error_text(self@),
    {
        match self {
            CapabilityResolverError::Validation(e) => e.message(),
            CapabilityResolverError::Expansion(e) => e.message(),
        }
    }
}

impl CapabilityCoreError {
    /// The error's message: that of the underlying error.
    pub fn message(&self) -> (r: String)
        ensures
            r@ == core_error_text(self@),
    {
        match self {
            CapabilityCoreError::Expansion(e) => e.message(),
            CapabilityCoreError::Resolver(e) => e.message(),
        }
    }
}

} // verus!
