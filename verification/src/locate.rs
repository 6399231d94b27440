//! Field locators: find a field by display label, among the current values of
//! a changeset or among the field definitions of a tracker.  Matching is by
//! exact label equality, first match wins.
use crate::model::Changeset;
use crate::model::FieldValue;
use crate::model::Tracker;
use crate::model::TrackerField;
use crate::text::str_eq;
use vstd::prelude::*;

verus! {

/// `fv` is a select box whose label is exactly `lbl`.
pub open spec fn is_select_box_labeled(fv: FieldValue, lbl: Seq<char>) -> bool {
    match fv {
        FieldValue::SelectBox { label, .. } => label@ == lbl,
        _ => false,
    }
}

/// The first select box labeled `lbl` among `values`, scanning in order.
pub open spec fn first_select_box(values: Seq<FieldValue>, lbl: Seq<char>) -> Option<FieldValue>
    decreases values.len(),
{
    if values.len() == 0 {
        None
    } else if is_select_box_labeled(values[0], lbl) {
        Some(values[0])
    } else {
        first_select_box(values.drop_first(), lbl)
    }
}

/// The tracker field definition labeled `lbl` has label `lbl`.
pub open spec fn is_field_labeled(f: TrackerField, lbl: Seq<char>) -> bool {
    f.label@ == lbl
}

/// The first field definition labeled `lbl` among `fields`, scanning in order.
pub open spec fn first_tracker_field(fields: Seq<TrackerField>, lbl: Seq<char>) -> Option<
    TrackerField,
>
    decreases fields.len(),
{
    if fields.len() == 0 {
        None
    } else if is_field_labeled(fields[0], lbl) {
        Some(fields[0])
    } else {
        first_tracker_field(fields.drop_first(), lbl)
    }
}

/// Scan the changeset's current values in order and return the first entry
/// that is a select box labeled exactly `target_label`.  Absence is a
/// legitimate outcome, not an error.
pub fn find_select_box_by_label<'a>(changeset: &'a Changeset, target_label: &str) -> (r: Option<
    &'a FieldValue,
>)
    ensures
        match r {
            Some(fv) => first_select_box(changeset.values@, target_label@) == Some(*fv),
            None => first_select_box(changeset.values@, target_label@) is None,
        },
{
    let n: usize = changeset.values.len();
    let mut i: usize = 0;
    proof {
        assert(changeset.values@.subrange(0, n as int) =~= changeset.values@);
    }
    while i < n
        invariant
            0 <= i <= n,
            n == changeset.values@.len(),
            first_select_box(changeset.values@, target_label@) == first_select_box(
                changeset.values@.subrange(i as int, n as int),
                target_label@,
            ),
        decreases n - i,
    {
        let ghost rest = changeset.values@.subrange(i as int, n as int);
        proof {
            assert(rest[0] == changeset.values@[i as int]);
            assert(rest.drop_first() =~= changeset.values@.subrange(i + 1, n as int));
        }
        let fv = &changeset.values[i];
        match fv {
            FieldValue::SelectBox { label, .. } => {
                if str_eq(label.as_str(), target_label) {
                    proof {
                        assert(is_select_box_labeled(rest[0], target_label@));
                    }
                    return Some(fv);
                }
            },
            _ => {},
        }
        proof {
            assert(!is_select_box_labeled(rest[0], target_label@));
        }
        i += 1;
    }
    proof {
        assert(changeset.values@.subrange(n as int, n as int).len() == 0);
    }
    None
}

/// Scan the tracker's field definitions in order and return the first one
/// labeled exactly `target_label`.
pub fn find_tracker_field<'a>(tracker: &'a Tracker, target_label: &str) -> (r: Option<
    &'a TrackerField,
>)
    ensures
        match r {
            Some(f) => first_tracker_field(tracker.fields@, target_label@) == Some(*f),
            None => first_tracker_field(tracker.fields@, target_label@) is None,
        },
{
    let n: usize = tracker.fields.len();
    let mut i: usize = 0;
    proof {
        assert(tracker.fields@.subrange(0, n as int) =~= tracker.fields@);
    }
    while i < n
        invariant
            0 <= i <= n,
            n == tracker.fields@.len(),
            first_tracker_field(tracker.fields@, target_label@) == first_tracker_field(
                tracker.fields@.subrange(i as int, n as int),
                target_label@,
            ),
        decreases n - i,
    {
        let ghost rest = tracker.fields@.subrange(i as int, n as int);
        proof {
            assert(rest[0] == tracker.fields@[i as int]);
            assert(rest.drop_first() =~= tracker.fields@.subrange(i + 1, n as int));
        }
        let f = &tracker.fields[i];
        if str_eq(f.label.as_str(), target_label) {
            proof {
                assert(is_field_labeled(rest[0], target_label@));
            }
            return Some(f);
        }
        proof {
            assert(!is_field_labeled(rest[0], target_label@));
        }
        i += 1;
    }
    proof {
        assert(tracker.fields@.subrange(n as int, n as int).len() == 0);
    }
    None
}

} // verus!
