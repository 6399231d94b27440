//! Selection extractor: the ordinal of the first selected option of a select
//! box.  Only the first selection is ever consulted; a user-reference option
//! fails extraction distinctly from "nothing selected".
use crate::decimal::convert_label_to_integer;
use crate::decimal::parse_i64;
use crate::locate::find_select_box_by_label;
use crate::locate::first_select_box;
use crate::model::Artifact;
use crate::model::ExtractError;
use crate::model::FieldValue;
use crate::model::ListValue;
use vstd::prelude::*;

verus! {

/// The label of the first selected option of `fv`: nothing when `fv` is not a
/// select box or has no selection, an error when the first selected option is
/// a user reference rather than a statically labeled one.
pub open spec fn spec_first_static_label(fv: FieldValue) -> Result<
    Option<Seq<char>>,
    ExtractError,
> {
    match fv {
        FieldValue::SelectBox { values, .. } => {
            if values@.len() == 0 {
                Ok(None)
            } else {
                match values@[0] {
                    ListValue::StaticValue { label, .. } => Ok(Some(label@)),
                    ListValue::UserValue { .. } => Err(ExtractError::NotAStaticOption),
                }
            }
        },
        _ => Ok(None),
    }
}

/// The ordinal extracted from `fv`: the first selected option's label parsed
/// as a base-10 signed integer.
pub open spec fn spec_extract_ordinal(fv: FieldValue) -> Result<Option<i64>, ExtractError> {
    match spec_first_static_label(fv) {
        Ok(None) => Ok(None),
        Ok(Some(l)) => match parse_i64(l) {
            Some(v) => Ok(Some(v as i64)),
            None => Err(ExtractError::NotAnInteger),
        },
        Err(e) => Err(e),
    }
}

/// The ordinal yielded for the select box labeled `lbl` among `values`:
/// nothing when no such select box exists.
pub open spec fn spec_select_box_value(values: Seq<FieldValue>, lbl: Seq<char>) -> Result<
    Option<i64>,
    ExtractError,
> {
    match first_select_box(values, lbl) {
        None => Ok(None),
        Some(fv) => spec_extract_ordinal(fv),
    }
}

/// The label of the first selected option of `field_value`, when that option
/// is statically labeled.
pub fn find_value_matching_label(field_value: &FieldValue) -> (r: Result<
    Option<String>,
    ExtractError,
>)
    ensures
        match spec_first_static_label(*field_value) {
            Ok(None) => r matches Ok(x) && x is None,
            Ok(Some(l)) => r matches Ok(x) && x matches Some(s) && s@ == l,
            Err(e) => r matches Err(e2) && e2 == e,
        },
{
    match field_value {
        FieldValue::SelectBox { values, .. } => {
            if values.len() == 0 {
                Ok(None)
            } else {
                match &values[0] {
                    ListValue::StaticValue { label, .. } => Ok(Some(label.clone())),
                    ListValue::UserValue { .. } => Err(ExtractError::NotAStaticOption),
                }
            }
        },
        _ => Ok(None),
    }
}

/// Extract the ordinal of the first selected option of `select_box`: nothing
/// when nothing is selected, an error when the option is a user reference or
/// its label is not an integer.
pub fn extract_ordinal(select_box: &FieldValue) -> (r: Result<Option<i64>, ExtractError>)
    ensures
        r == spec_extract_ordinal(*select_box),
{
    match find_value_matching_label(select_box) {
        Ok(None) => Ok(None),
        Ok(Some(label)) => match convert_label_to_integer(label) {
            Ok(v) => Ok(Some(v)),
            Err(e) => Err(e),
        },
        Err(e) => Err(e),
    }
}

/// Locate the select box labeled `target_label` among the artifact's current
/// values and extract its ordinal; absence of the field yields nothing.
pub fn find_select_box_value_by_label(artifact: &Artifact, target_label: &str) -> (r: Result<
    Option<i64>,
    ExtractError,
>)
    ensures
        r == spec_select_box_value(artifact.current.values@, target_label@),
{
    match find_select_box_by_label(&artifact.current, target_label) {
        None => Ok(None),
        Some(fv) => extract_ordinal(fv),
    }
}

} // verus!
