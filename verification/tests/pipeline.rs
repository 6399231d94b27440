//! End-to-end behavior of the risk rules on concrete artifacts.
use artifact_post_action::encode_bindings;
use artifact_post_action::find_risk_value;
use artifact_post_action::find_select_box_value_by_label;
use artifact_post_action::model::Artifact;
use artifact_post_action::model::Changeset;
use artifact_post_action::model::ExtractError;
use artifact_post_action::model::FieldValue;
use artifact_post_action::model::FieldValueBinding;
use artifact_post_action::model::ListValue;
use artifact_post_action::model::ResolveError;
use artifact_post_action::model::RuleError;
use artifact_post_action::model::Tracker;
use artifact_post_action::model::TrackerField;
use artifact_post_action::model::TrackerFieldValue;
use artifact_post_action::process_risk_values;
use artifact_post_action::run;
use artifact_post_action::run_rules;

fn static_option(id: u32, label: &str) -> ListValue {
    ListValue::StaticValue { id, label: String::from(label), color: None, tlp_color: None }
}

fn select_box(field_id: u32, label: &str, values: Vec<ListValue>) -> FieldValue {
    FieldValue::SelectBox {
        field_id,
        label: String::from(label),
        values,
        bind_value_ids: Vec::new(),
    }
}

fn tracker_field(field_id: u32, label: &str, options: Option<Vec<(u32, &str)>>) -> TrackerField {
    TrackerField {
        field_id,
        label: String::from(label),
        values: options.map(|opts| {
            opts.into_iter()
                .map(|(id, label)| TrackerFieldValue { id, label: String::from(label) })
                .collect()
        }),
    }
}

fn artifact(values: Vec<FieldValue>, fields: Vec<TrackerField>) -> Artifact {
    Artifact {
        id: 1,
        current: Changeset { id: 10, values },
        tracker: Tracker { id: 20, fields },
    }
}

fn risk_artifact() -> Artifact {
    artifact(
        vec![
            select_box(30, "Severity", vec![static_option(1, "2")]),
            select_box(31, "Probability", vec![static_option(2, "3")]),
        ],
        vec![tracker_field(42, "Risk", Some(vec![(7, "5"), (8, "6")]))],
    )
}

#[test]
fn primary_rule_binds_matching_product_option() {
    let result = run_rules(&risk_artifact());
    let expected = vec![FieldValueBinding { field_id: 42, bind_value_ids: vec![8] }];
    assert_eq!(result, Ok(expected));
}

#[test]
fn primary_scenario_encodes_expected_document() {
    let bindings = run_rules(&risk_artifact()).unwrap();
    assert_eq!(
        encode_bindings(&bindings),
        String::from("{\"values\":[{\"field_id\":42,\"bind_value_ids\":[8]}]}")
    );
}

#[test]
fn missing_risk_field_fails_with_cannot_find_field() {
    let art = artifact(
        vec![
            select_box(30, "Severity", vec![static_option(1, "2")]),
            select_box(31, "Probability", vec![static_option(2, "3")]),
        ],
        vec![tracker_field(42, "Hazard", Some(vec![(7, "5"), (8, "6")]))],
    );
    let result = run_rules(&art);
    let err = RuleError::Resolve(ResolveError::FieldNotFound(String::from("Risk")));
    assert_eq!(result, Err(err.clone()));
    assert_eq!(err.message(), String::from("Cannot find field Risk"));
}

#[test]
fn empty_binding_list_encodes_as_empty_values() {
    assert_eq!(encode_bindings(&Vec::new()), String::from("{\"values\":[]}"));
}

#[test]
fn run_produces_the_whole_document() {
    assert_eq!(
        run(&risk_artifact()),
        Ok(String::from("{\"values\":[{\"field_id\":42,\"bind_value_ids\":[8]}]}"))
    );
    let inapplicable = artifact(Vec::new(), Vec::new());
    assert_eq!(run(&inapplicable), Ok(String::from("{\"values\":[]}")));
}

#[test]
fn absent_severity_field_yields_no_binding() {
    let art = artifact(
        vec![select_box(31, "Probability", vec![static_option(2, "3")])],
        vec![tracker_field(42, "Risk", Some(vec![(8, "6")]))],
    );
    assert_eq!(process_risk_values(&art, "Severity", "Probability", "Risk"), Ok(None));
}

#[test]
fn empty_severity_selection_yields_no_binding() {
    let art = artifact(
        vec![
            select_box(30, "Severity", Vec::new()),
            select_box(31, "Probability", vec![static_option(2, "3")]),
        ],
        vec![tracker_field(42, "Risk", Some(vec![(8, "6")]))],
    );
    assert_eq!(process_risk_values(&art, "Severity", "Probability", "Risk"), Ok(None));
}

#[test]
fn user_reference_selection_fails_extraction() {
    let user = ListValue::UserValue { id: Some(5), real_name: Some(String::from("Alex")) };
    let art = artifact(
        vec![
            select_box(30, "Severity", vec![user]),
            select_box(31, "Probability", vec![static_option(2, "3")]),
        ],
        vec![tracker_field(42, "Risk", Some(vec![(8, "6")]))],
    );
    assert_eq!(
        process_risk_values(&art, "Severity", "Probability", "Risk"),
        Err(RuleError::Extract(ExtractError::NotAStaticOption))
    );
}

#[test]
fn user_reference_under_probability_also_fails() {
    let user = ListValue::UserValue { id: None, real_name: None };
    let art = artifact(
        vec![
            select_box(30, "Severity", vec![static_option(1, "2")]),
            select_box(31, "Probability", vec![user]),
        ],
        vec![tracker_field(42, "Risk", Some(vec![(8, "6")]))],
    );
    assert_eq!(
        process_risk_values(&art, "Severity", "Probability", "Risk"),
        Err(RuleError::Extract(ExtractError::NotAStaticOption))
    );
}

#[test]
fn non_integer_label_fails_extraction() {
    let art = artifact(
        vec![
            select_box(30, "Severity", vec![static_option(1, "high")]),
            select_box(31, "Probability", vec![static_option(2, "3")]),
        ],
        vec![tracker_field(42, "Risk", Some(vec![(8, "6")]))],
    );
    assert_eq!(
        process_risk_values(&art, "Severity", "Probability", "Risk"),
        Err(RuleError::Extract(ExtractError::NotAnInteger))
    );
}

#[test]
fn no_matching_option_fails_resolution() {
    let tracker = Tracker {
        id: 20,
        fields: vec![tracker_field(42, "Risk", Some(vec![(7, "5"), (9, "7")]))],
    };
    assert_eq!(
        find_risk_value(&tracker, "Risk", 2, 3),
        Err(ResolveError::NoMatchingOption(6))
    );
}

#[test]
fn padded_option_label_does_not_match_product() {
    let tracker = Tracker {
        id: 20,
        fields: vec![tracker_field(42, "Risk", Some(vec![(7, "06"), (8, "6.0")]))],
    };
    assert_eq!(
        find_risk_value(&tracker, "Risk", 2, 3),
        Err(ResolveError::NoMatchingOption(6))
    );
}

#[test]
fn no_configured_options_fails_resolution() {
    let absent = Tracker { id: 20, fields: vec![tracker_field(42, "Risk", None)] };
    let empty = Tracker { id: 20, fields: vec![tracker_field(42, "Risk", Some(Vec::new()))] };
    assert_eq!(find_risk_value(&absent, "Risk", 2, 3), Err(ResolveError::NoConfiguredOptions));
    assert_eq!(find_risk_value(&empty, "Risk", 2, 3), Err(ResolveError::NoConfiguredOptions));
}

#[test]
fn first_matching_option_wins() {
    let tracker = Tracker {
        id: 20,
        fields: vec![tracker_field(42, "Risk", Some(vec![(7, "6"), (8, "6")]))],
    };
    assert_eq!(
        find_risk_value(&tracker, "Risk", 2, 3),
        Ok(FieldValueBinding { field_id: 42, bind_value_ids: vec![7] })
    );
}

#[test]
fn negative_ordinals_resolve_by_signed_product() {
    let tracker = Tracker {
        id: 20,
        fields: vec![tracker_field(42, "Risk", Some(vec![(7, "-6"), (8, "6")]))],
    };
    assert_eq!(
        find_risk_value(&tracker, "Risk", -2, 3),
        Ok(FieldValueBinding { field_id: 42, bind_value_ids: vec![7] })
    );
}

#[test]
fn both_rules_bind_in_fixed_order() {
    let art = artifact(
        vec![
            select_box(32, "Residual severity", vec![static_option(3, "1")]),
            select_box(33, "Residual probability", vec![static_option(4, "4")]),
            select_box(30, "Severity", vec![static_option(1, "2")]),
            select_box(31, "Probability", vec![static_option(2, "3")]),
        ],
        vec![
            tracker_field(42, "Risk", Some(vec![(8, "6")])),
            tracker_field(43, "Residual risk level", Some(vec![(9, "4")])),
        ],
    );
    let expected = vec![
        FieldValueBinding { field_id: 42, bind_value_ids: vec![8] },
        FieldValueBinding { field_id: 43, bind_value_ids: vec![9] },
    ];
    assert_eq!(run_rules(&art), Ok(expected));
}

#[test]
fn only_first_selection_is_consulted() {
    let art = artifact(
        vec![
            select_box(30, "Severity", vec![static_option(1, "2"), static_option(5, "9")]),
            select_box(31, "Probability", vec![static_option(2, "3")]),
        ],
        vec![tracker_field(42, "Risk", Some(vec![(8, "6"), (9, "27")]))],
    );
    let expected = vec![FieldValueBinding { field_id: 42, bind_value_ids: vec![8] }];
    assert_eq!(run_rules(&art), Ok(expected));
}

#[test]
fn first_select_box_with_the_label_wins() {
    let art = artifact(
        vec![
            select_box(30, "Severity", vec![static_option(1, "2")]),
            select_box(35, "Severity", vec![static_option(6, "9")]),
        ],
        Vec::new(),
    );
    assert_eq!(find_select_box_value_by_label(&art, "Severity"), Ok(Some(2)));
}

#[test]
fn select_box_is_matched_by_label_not_field_id() {
    let art = artifact(
        vec![
            FieldValue::ArtifactId { field_id: 30, label: String::from("Severity") },
            select_box(99, "Severity", vec![static_option(1, "2")]),
        ],
        Vec::new(),
    );
    assert_eq!(find_select_box_value_by_label(&art, "Severity"), Ok(Some(2)));
}

#[test]
fn encode_renders_multiple_ids_and_bindings() {
    let bindings = vec![
        FieldValueBinding { field_id: 1, bind_value_ids: vec![10, 20] },
        FieldValueBinding { field_id: 2, bind_value_ids: Vec::new() },
    ];
    assert_eq!(
        encode_bindings(&bindings),
        String::from(
            "{\"values\":[{\"field_id\":1,\"bind_value_ids\":[10,20]},{\"field_id\":2,\"bind_value_ids\":[]}]}"
        )
    );
}
