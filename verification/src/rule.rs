//! Rule runner: one run of the severity x probability -> risk-level rule for
//! one triple of field labels, and the fixed orchestration that runs the
//! primary and the residual rule over an artifact.
use crate::extract::extract_ordinal;
use crate::extract::spec_extract_ordinal;
use crate::locate::find_select_box_by_label;
use crate::locate::first_select_box;
use crate::model::Artifact;
use crate::model::ExtractError;
use crate::model::FieldValue;
use crate::model::FieldValueBinding;
use crate::model::ListValue;
use crate::model::RuleError;
use crate::model::RuleFailure;
use crate::model::binding_matches;
use crate::model::rule_err_matches;
use crate::resolve::find_risk_value;
use crate::resolve::spec_resolve;
use vstd::prelude::*;

verus! {

/// The abstract failure that an extraction error propagates as.
pub open spec fn extract_failure(e: ExtractError) -> RuleFailure {
    match e {
        ExtractError::NotAnInteger => RuleFailure::NotAnInteger,
        ExtractError::NotAStaticOption => RuleFailure::NotAStaticOption,
    }
}

/// What one run of the rule yields on `artifact` for the given severity,
/// probability and risk field labels: `Ok(None)` when the rule does not apply
/// (either select box absent, or either ordinal unselected), the (field id,
/// option id) pair to bind when it concludes, or the failure.
pub open spec fn spec_run_rule(
    artifact: Artifact,
    sev_lbl: Seq<char>,
    prob_lbl: Seq<char>,
    risk_lbl: Seq<char>,
) -> Result<Option<(u32, u32)>, RuleFailure> {
    match first_select_box(artifact.current.values@, sev_lbl) {
        None => Ok(None),
        Some(sev_sb) => match first_select_box(artifact.current.values@, prob_lbl) {
            None => Ok(None),
            Some(prob_sb) => match spec_extract_ordinal(sev_sb) {
                Err(e) => Err(extract_failure(e)),
                Ok(sev_opt) => match spec_extract_ordinal(prob_sb) {
                    Err(e) => Err(extract_failure(e)),
                    Ok(prob_opt) => match (sev_opt, prob_opt) {
                        (Some(s), Some(p)) => match spec_resolve(
                            artifact.tracker.fields@,
                            risk_lbl,
                            s as int,
                            p as int,
                        ) {
                            Ok(pair) => Ok(Some(pair)),
                            Err(f) => Err(f),
                        },
                        _ => Ok(None),
                    },
                },
            },
        },
    }
}

/// The rule result `r` denotes the abstract outcome `m`.
pub open spec fn rule_result_matches(
    r: Result<Option<FieldValueBinding>, RuleError>,
    m: Result<Option<(u32, u32)>, RuleFailure>,
) -> bool {
    match (r, m) {
        (Ok(b_opt), Ok(p_opt)) => match (b_opt, p_opt) {
            (None, None) => true,
            (Some(b), Some(pair)) => binding_matches(b, pair),
            _ => false,
        },
        (Err(e), Err(f)) => rule_err_matches(e, f),
        _ => false,
    }
}

/// Run the rule once on `artifact`: locate the severity and probability
/// select boxes (absence of either makes the rule inapplicable), extract both
/// ordinals (failures are fatal, an unselected ordinal makes the rule
/// inapplicable), and resolve the product against the risk field.
pub fn process_risk_values(
    artifact: &Artifact,
    severity_field_label: &str,
    probability_field_label: &str,
    risk_field_label: &str,
) -> (r: Result<Option<FieldValueBinding>, RuleError>)
    ensures
        rule_result_matches(
            r,
            spec_run_rule(
                *artifact,
                severity_field_label@,
                probability_field_label@,
                risk_field_label@,
            ),
        ),
{
    let sev_sb: &FieldValue = match find_select_box_by_label(
        &artifact.current,
        severity_field_label,
    ) {
        None => {
            return Ok(None);
        },
        Some(fv) => fv,
    };
    let prob_sb: &FieldValue = match find_select_box_by_label(
        &artifact.current,
        probability_field_label,
    ) {
        None => {
            return Ok(None);
        },
        Some(fv) => fv,
    };
    let sev_opt: Option<i64> = match extract_ordinal(sev_sb) {
        Ok(v) => v,
        Err(e) => {
            return Err(RuleError::Extract(e));
        },
    };
    let prob_opt: Option<i64> = match extract_ordinal(prob_sb) {
        Ok(v) => v,
        Err(e) => {
            return Err(RuleError::Extract(e));
        },
    };
    let severity: i64 = match sev_opt {
        None => {
            return Ok(None);
        },
        Some(v) => v,
    };
    let probability: i64 = match prob_opt {
        None => {
            return Ok(None);
        },
        Some(v) => v,
    };
    match find_risk_value(&artifact.tracker, risk_field_label, severity, probability) {
        Ok(b) => Ok(Some(b)),
        Err(e) => Err(RuleError::Resolve(e)),
    }
}

/// The bindings yielded by one rule outcome: none or exactly one.
pub open spec fn opt_pair_seq(o: Option<(u32, u32)>) -> Seq<(u32, u32)> {
    match o {
        None => seq![],
        Some(pair) => seq![pair],
    }
}

/// What running both rules on `artifact` yields: the primary rule with labels
/// `"Severity"`, `"Probability"`, `"Risk"`, then the residual rule with
/// labels `"Residual severity"`, `"Residual probability"`,
/// `"Residual risk level"`; their bindings concatenate in that fixed order,
/// and the first failure aborts the whole run.
pub open spec fn spec_run_rules(artifact: Artifact) -> Result<Seq<(u32, u32)>, RuleFailure> {
    match spec_run_rule(artifact, "Severity"@, "Probability"@, "Risk"@) {
        Err(f) => Err(f),
        Ok(first) => match spec_run_rule(
            artifact,
            "Residual severity"@,
            "Residual probability"@,
            "Residual risk level"@,
        ) {
            Err(f) => Err(f),
            Ok(second) => Ok(opt_pair_seq(first) + opt_pair_seq(second)),
        },
    }
}

/// The binding list `bs` binds exactly the pairs `pairs`, in order.
pub open spec fn bindings_match(bs: Seq<FieldValueBinding>, pairs: Seq<(u32, u32)>) -> bool {
    &&& bs.len() == pairs.len()
    &&& forall|i: int| 0 <= i < pairs.len() ==> binding_matches(#[trigger] bs[i], pairs[i])
}

/// Run the primary and the residual risk rule on `artifact` and collect their
/// bindings, primary first; the first failure aborts the whole run with no
/// partial output.
pub fn run_rules(artifact: &Artifact) -> (r: Result<Vec<FieldValueBinding>, RuleError>)
    ensures
        match (r, spec_run_rules(*artifact)) {
            (Ok(bs), Ok(pairs)) => bindings_match(bs@, pairs),
            (Err(e), Err(f)) => rule_err_matches(e, f),
            _ => false,
        },
{
    let ghost m1 = spec_run_rule(*artifact, "Severity"@, "Probability"@, "Risk"@);
    let ghost m2 = spec_run_rule(
        *artifact,
        "Residual severity"@,
        "Residual probability"@,
        "Residual risk level"@,
    );
    let mut bindings: Vec<FieldValueBinding> = Vec::new();
    match process_risk_values(artifact, "Severity", "Probability", "Risk") {
        Ok(Some(b)) => {
            bindings.push(b);
        },
        Ok(None) => {},
        Err(e) => {
            return Err(e);
        },
    }
    proof {
        assert(m1 matches Ok(first) && bindings_match(bindings@, opt_pair_seq(first)));
    }
    let ghost len1 = bindings@.len();
    match process_risk_values(
        artifact,
        "Residual severity",
        "Residual probability",
        "Residual risk level",
    ) {
        Ok(Some(b)) => {
            bindings.push(b);
        },
        Ok(None) => {},
        Err(e) => {
            return Err(e);
        },
    }
    proof {
        let first = m1->Ok_0;
        let second = m2->Ok_0;
        assert(m2 matches Ok(s2) && s2 == second);
        assert(bindings@.len() == opt_pair_seq(first).len() + opt_pair_seq(second).len());
        assert(bindings_match(bindings@, opt_pair_seq(first) + opt_pair_seq(second))) by {
            let pairs = opt_pair_seq(first) + opt_pair_seq(second);
            assert(forall|i: int| 0 <= i < len1 ==> #[trigger] pairs[i] == opt_pair_seq(first)[i]);
            assert(forall|i: int|
                len1 <= i < pairs.len() ==> #[trigger] pairs[i] == opt_pair_seq(second)[i - len1]);
        }
    }
    Ok(bindings)
}

/// The severity field is absent from the current values: the rule yields no
/// binding and no error, whatever the state of the probability field.
pub proof fn lemma_rule_inapplicable_without_severity(
    artifact: Artifact,
    sev_lbl: Seq<char>,
    prob_lbl: Seq<char>,
    risk_lbl: Seq<char>,
)
    requires
        first_select_box(artifact.current.values@, sev_lbl) is None,
    ensures
        spec_run_rule(artifact, sev_lbl, prob_lbl, risk_lbl) == Ok::<
            Option<(u32, u32)>,
            RuleFailure,
        >(None),
{
}

/// The severity select box is present but its current value list is empty:
/// the rule yields no binding, provided the probability field is absent or
/// extracts without failure.
pub proof fn lemma_rule_no_binding_on_empty_selection(
    artifact: Artifact,
    sev_lbl: Seq<char>,
    prob_lbl: Seq<char>,
    risk_lbl: Seq<char>,
)
    requires
        first_select_box(artifact.current.values@, sev_lbl) matches Some(
            FieldValue::SelectBox { values, .. },
        ) && values@.len() == 0,
        first_select_box(artifact.current.values@, prob_lbl) is None || (first_select_box(
            artifact.current.values@,
            prob_lbl,
        ) matches Some(pb) && spec_extract_ordinal(pb) is Ok),
    ensures
        spec_run_rule(artifact, sev_lbl, prob_lbl, risk_lbl) == Ok::<
            Option<(u32, u32)>,
            RuleFailure,
        >(None),
{
}

/// The first selected option of `fv` is a user-reference option.
pub open spec fn first_selected_is_user(fv: FieldValue) -> bool {
    match fv {
        FieldValue::SelectBox { values, .. } => values@.len() > 0 && values@[0] matches
            ListValue::UserValue { .. },
        _ => false,
    }
}

/// Both select boxes are present and the first selected option under severity
/// or probability is a user-reference option: the rule fails with an
/// extraction error, never silently as "no selection"; when severity itself
/// carries the user reference the error is exactly "not a static option".
pub proof fn lemma_user_reference_fails_extraction(
    artifact: Artifact,
    sev_lbl: Seq<char>,
    prob_lbl: Seq<char>,
    risk_lbl: Seq<char>,
)
    requires
        first_select_box(artifact.current.values@, sev_lbl) is Some,
        first_select_box(artifact.current.values@, prob_lbl) is Some,
        first_selected_is_user(first_select_box(artifact.current.values@, sev_lbl)->Some_0)
            || first_selected_is_user(
            first_select_box(artifact.current.values@, prob_lbl)->Some_0,
        ),
    ensures
        spec_run_rule(artifact, sev_lbl, prob_lbl, risk_lbl) matches Err(f) && (f
            == RuleFailure::NotAStaticOption || f == RuleFailure::NotAnInteger) && (
        first_selected_is_user(first_select_box(artifact.current.values@, sev_lbl)->Some_0) ==> f
            == RuleFailure::NotAStaticOption),
{
    let sev_sb = first_select_box(artifact.current.values@, sev_lbl)->Some_0;
    let prob_sb = first_select_box(artifact.current.values@, prob_lbl)->Some_0;
    if first_selected_is_user(sev_sb) {
        assert(spec_extract_ordinal(sev_sb) == Err::<Option<i64>, ExtractError>(
            ExtractError::NotAStaticOption,
        ));
    } else {
        assert(first_selected_is_user(prob_sb));
        assert(spec_extract_ordinal(prob_sb) == Err::<Option<i64>, ExtractError>(
            ExtractError::NotAStaticOption,
        ));
        match spec_extract_ordinal(sev_sb) {
            Err(e) => {
                assert(e == ExtractError::NotAnInteger || e == ExtractError::NotAStaticOption);
            },
            Ok(_) => {},
        }
    }
}

/// Only the primary rule applies: the run yields exactly one binding, in
/// primary-rule position.
pub proof fn lemma_only_primary_applies(artifact: Artifact, pair: (u32, u32))
    requires
        spec_run_rule(artifact, "Severity"@, "Probability"@, "Risk"@) == Ok::<
            Option<(u32, u32)>,
            RuleFailure,
        >(Some(pair)),
        spec_run_rule(
            artifact,
            "Residual severity"@,
            "Residual probability"@,
            "Residual risk level"@,
        ) == Ok::<Option<(u32, u32)>, RuleFailure>(None),
    ensures
        spec_run_rules(artifact) == Ok::<Seq<(u32, u32)>, RuleFailure>(seq![pair]),
{
    assert(opt_pair_seq(Some(pair)) + opt_pair_seq(None) =~= seq![pair]);
}

} // verus!
