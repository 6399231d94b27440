//! Data model: artifacts, trackers, field values, bindings, and the error
//! taxonomy of the risk rules.
use vstd::prelude::*;
use vstd::string::StringExecFns;

verus! {

/// A selectable option as it appears inside a current field value: either a
/// statically configured label/color option or a reference to a user.
#[derive(Debug, Clone, PartialEq, Eq)]
pub enum ListValue {
    StaticValue { id: u32, label: String, color: Option<String>, tlp_color: Option<String> },
    UserValue { id: Option<u32>, real_name: Option<String> },
}

/// A current field value of an artifact, tagged by field kind.
#[derive(Debug, Clone, PartialEq, Eq)]
pub enum FieldValue {
    StringField { field_id: u32 },
    Text { field_id: u32 },
    Link { field_id: u32 },
    SelectBox { field_id: u32, label: String, values: Vec<ListValue>, bind_value_ids: Vec<u32> },
    ArtifactId { field_id: u32, label: String },
    RadioButton { field_id: u32, label: String },
}

/// The current snapshot of field values of an artifact.
#[derive(Debug, Clone, PartialEq, Eq)]
pub struct Changeset {
    pub id: u32,
    pub values: Vec<FieldValue>,
}

/// A configured option of a tracker field, available for binding.
#[derive(Debug, Clone, PartialEq, Eq)]
pub struct TrackerFieldValue {
    pub id: u32,
    pub label: String,
}

/// A field definition of a tracker; `values` holds the configured selectable
/// options, `None` or empty meaning the field has none.
#[derive(Debug, Clone, PartialEq, Eq)]
pub struct TrackerField {
    pub field_id: u32,
    pub label: String,
    pub values: Option<Vec<TrackerFieldValue>>,
}

/// A tracker: the field definitions for a class of artifacts.
#[derive(Debug, Clone, PartialEq, Eq)]
pub struct Tracker {
    pub id: u32,
    pub fields: Vec<TrackerField>,
}

/// A tracker item with its current values and its tracker definition.
#[derive(Debug, Clone, PartialEq, Eq)]
pub struct Artifact {
    pub id: u32,
    pub current: Changeset,
    pub tracker: Tracker,
}

/// An instruction to set a field to the configured options with these ids.
/// The risk rules always bind exactly one id per binding.
#[derive(Debug, Clone, PartialEq, Eq)]
pub struct FieldValueBinding {
    pub field_id: u32,
    pub bind_value_ids: Vec<u32>,
}

/// Failure to extract an ordinal from a select box's first selected option.
#[derive(Debug, Clone, Copy, PartialEq, Eq, Structural)]
pub enum ExtractError {
    /// The selected option's label is not a base-10 integer in `i64` range.
    NotAnInteger,
    /// The selected option is a user reference, not a statically labeled one.
    NotAStaticOption,
}

/// Failure to resolve a product to a configured risk-level option.
#[derive(Debug, Clone, PartialEq, Eq)]
pub enum ResolveError {
    /// No tracker field carries the requested label.
    FieldNotFound(String),
    /// The risk field has no configured options at all.
    NoConfiguredOptions,
    /// No configured option's label equals the product's decimal text.
    NoMatchingOption(i128),
}

/// Any fatal failure of one run of the risk rule.
#[derive(Debug, Clone, PartialEq, Eq)]
pub enum RuleError {
    Extract(ExtractError),
    Resolve(ResolveError),
}

/// The diagnostic text of a rule failure.
pub open spec fn rule_error_message(e: RuleError) -> Seq<char> {
    match e {
        RuleError::Extract(ExtractError::NotAnInteger) => "Label is invalid integer"@,
        RuleError::Extract(ExtractError::NotAStaticOption) => (
        "Selected option is not a static option"@),
        RuleError::Resolve(ResolveError::FieldNotFound(l)) => "Cannot find field "@ + l@,
        RuleError::Resolve(ResolveError::NoConfiguredOptions) => "Cannot find risk field values"@,
        RuleError::Resolve(ResolveError::NoMatchingOption(_)) => (
        "Cannot find matching Risk value"@),
    }
}

impl RuleError {
    /// Human-readable diagnostic for the error stream.
    pub fn message(&self) -> (r: String)
        ensures
            r@ == rule_error_message(*self),
    {
        match self {
            RuleError::Extract(ExtractError::NotAnInteger) => String::from_str(
                "Label is invalid integer",
            ),
            RuleError::Extract(ExtractError::NotAStaticOption) => String::from_str(
                "Selected option is not a static option",
            ),
            RuleError::Resolve(ResolveError::FieldNotFound(l)) => {
                let mut s = String::from_str("Cannot find field ");
                s.append(l.as_str());
                s
            },
            RuleError::Resolve(ResolveError::NoConfiguredOptions) => String::from_str(
                "Cannot find risk field values",
            ),
            RuleError::Resolve(ResolveError::NoMatchingOption(_)) => String::from_str(
                "Cannot find matching Risk value",
            ),
        }
    }
}

/// Specification-level mirror of the rule failures, over mathematical values.
pub ghost enum RuleFailure {
    NotAnInteger,
    NotAStaticOption,
    FieldNotFound(Seq<char>),
    NoConfiguredOptions,
    NoMatchingOption(int),
}

/// The extraction error `e` denotes the abstract failure `f`.
pub open spec fn extract_err_matches(e: ExtractError, f: RuleFailure) -> bool {
    match (e, f) {
        (ExtractError::NotAnInteger, RuleFailure::NotAnInteger) => true,
        (ExtractError::NotAStaticOption, RuleFailure::NotAStaticOption) => true,
        _ => false,
    }
}

/// The resolution error `e` denotes the abstract failure `f`.
pub open spec fn resolve_err_matches(e: ResolveError, f: RuleFailure) -> bool {
    match (e, f) {
        (ResolveError::FieldNotFound(s), RuleFailure::FieldNotFound(l)) => s@ == l,
        (ResolveError::NoConfiguredOptions, RuleFailure::NoConfiguredOptions) => true,
        (ResolveError::NoMatchingOption(p), RuleFailure::NoMatchingOption(v)) => p as int == v,
        _ => false,
    }
}

/// The rule error `e` denotes the abstract failure `f`.
pub open spec fn rule_err_matches(e: RuleError, f: RuleFailure) -> bool {
    match e {
        RuleError::Extract(x) => extract_err_matches(x, f),
        RuleError::Resolve(x) => resolve_err_matches(x, f),
    }
}

/// The binding `b` binds exactly the option `pair.1` on the field `pair.0`.
pub open spec fn binding_matches(b: FieldValueBinding, pair: (u32, u32)) -> bool {
    &&& b.field_id == pair.0
    &&& b.bind_value_ids@ == seq![pair.1]
}

} // verus!
