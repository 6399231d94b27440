//! Risk resolver: compute the severity x probability product and bind the
//! configured risk-level option whose label equals the product's canonical
//! decimal text.  The match is by exact decimal text, never by numeric value:
//! an option labeled `"06"` does not match a product of `6`.
use crate::decimal::dec_rep;
use crate::decimal::i128_to_decimal;
use crate::locate::find_tracker_field;
use crate::locate::first_tracker_field;
use crate::model::FieldValueBinding;
use crate::model::ResolveError;
use crate::model::RuleFailure;
use crate::model::Tracker;
use crate::model::TrackerField;
use crate::model::TrackerFieldValue;
use crate::model::binding_matches;
use crate::model::resolve_err_matches;
use crate::text::str_eq;
use vstd::prelude::*;
use vstd::string::StringExecFns;

verus! {

/// The first configured option among `opts` whose label is exactly `lbl`.
pub open spec fn first_option_labeled(opts: Seq<TrackerFieldValue>, lbl: Seq<char>) -> Option<
    TrackerFieldValue,
>
    decreases opts.len(),
{
    if opts.len() == 0 {
        None
    } else if opts[0].label@ == lbl {
        Some(opts[0])
    } else {
        first_option_labeled(opts.drop_first(), lbl)
    }
}

/// What resolving the product of `sev` and `prob` against the field labeled
/// `lbl` yields: the (field id, option id) pair to bind, or the failure.
pub open spec fn spec_resolve(
    fields: Seq<TrackerField>,
    lbl: Seq<char>,
    sev: int,
    prob: int,
) -> Result<(u32, u32), RuleFailure> {
    match first_tracker_field(fields, lbl) {
        None => Err(RuleFailure::FieldNotFound(lbl)),
        Some(f) => match f.values {
            None => Err(RuleFailure::NoConfiguredOptions),
            Some(opts) => if opts@.len() == 0 {
                Err(RuleFailure::NoConfiguredOptions)
            } else {
                match first_option_labeled(opts@, dec_rep(sev * prob)) {
                    None => Err(RuleFailure::NoMatchingOption(sev * prob)),
                    Some(o) => Ok((f.field_id, o.id)),
                }
            },
        },
    }
}

/// Resolve the risk level for the given severity and probability ordinals:
/// look up the field labeled `risk_field_label` among the tracker's field
/// definitions, require it to have configured options, and bind the first
/// option whose label equals the decimal text of severity x probability.
#[verifier::loop_isolation(false)]
pub fn find_risk_value(
    tracker: &Tracker,
    risk_field_label: &str,
    severity: i64,
    probability: i64,
) -> (r: Result<FieldValueBinding, ResolveError>)
    ensures
        match (
            r,
            spec_resolve(
                tracker.fields@,
                risk_field_label@,
                severity as int,
                probability as int,
            ),
        ) {
            (Ok(b), Ok(pair)) => binding_matches(b, pair),
            (Err(e), Err(f)) => resolve_err_matches(e, f),
            _ => false,
        },
{
    let risk_field: &TrackerField = match find_tracker_field(tracker, risk_field_label) {
        None => {
            return Err(ResolveError::FieldNotFound(String::from_str(risk_field_label)));
        },
        Some(f) => f,
    };
    let options: &Vec<TrackerFieldValue> = match &risk_field.values {
        None => {
            return Err(ResolveError::NoConfiguredOptions);
        },
        Some(v) => v,
    };
    if options.len() == 0 {
        return Err(ResolveError::NoConfiguredOptions);
    }
    proof {
        assert((severity as int) * (probability as int) <= 0x8000_0000_0000_0000
            * 0x8000_0000_0000_0000 && (severity as int) * (probability as int)
            >= -(0x8000_0000_0000_0000 * 0x8000_0000_0000_0000)) by (nonlinear_arith)
            requires
                -0x8000_0000_0000_0000 <= severity as int <= 0x7FFF_FFFF_FFFF_FFFF,
                -0x8000_0000_0000_0000 <= probability as int <= 0x7FFF_FFFF_FFFF_FFFF,
        ;
    }
    let product: i128 = (severity as i128) * (probability as i128);
    let target: String = i128_to_decimal(product);
    let ghost target_rep = dec_rep((severity as int) * (probability as int));
    proof {
        assert(target@ == target_rep);
    }
    let n: usize = options.len();
    let mut i: usize = 0;
    proof {
        assert(options@.subrange(0, n as int) =~= options@);
    }
    while i < n
        invariant
            0 <= i <= n,
            n == options@.len(),
            target@ == target_rep,
            first_option_labeled(options@, target_rep) == first_option_labeled(
                options@.subrange(i as int, n as int),
                target_rep,
            ),
        decreases n - i,
    {
        let ghost rest = options@.subrange(i as int, n as int);
        proof {
            assert(rest[0] == options@[i as int]);
            assert(rest.drop_first() =~= options@.subrange(i + 1, n as int));
        }
        let option = &options[i];
        if str_eq(option.label.as_str(), target.as_str()) {
            proof {
                assert(rest[0].label@ == target_rep);
                assert(first_option_labeled(rest, target_rep) == Some(rest[0]));
                assert(first_option_labeled(options@, target_rep) == Some(options@[i as int]));
            }
            let bind_value_ids: Vec<u32> = vec![option.id];
            proof {
                assert(bind_value_ids@ =~= seq![options@[i as int].id]);
                let m = spec_resolve(
                    tracker.fields@,
                    risk_field_label@,
                    severity as int,
                    probability as int,
                );
                assert(first_tracker_field(tracker.fields@, risk_field_label@) == Some(
                    *risk_field,
                ));
                assert(risk_field.values matches Some(v) && v@ == options@);
                assert(m matches Ok(pair) && pair.0 == risk_field.field_id && pair.1
                    == options@[i as int].id);
            }
            return Ok(FieldValueBinding { field_id: risk_field.field_id, bind_value_ids });
        }
        i += 1;
    }
    proof {
        assert(options@.subrange(n as int, n as int).len() == 0);
    }
    Err(ResolveError::NoMatchingOption(product))
}

/// When some option carries the wanted label, the first such option is found.
pub proof fn lemma_first_option_some(opts: Seq<TrackerFieldValue>, lbl: Seq<char>)
    requires
        exists|m: int| 0 <= m < opts.len() && #[trigger] opts[m].label@ == lbl,
    ensures
        first_option_labeled(opts, lbl) matches Some(o) && o.label@ == lbl && (exists|m: int|
            0 <= m < opts.len() && #[trigger] opts[m] == o),
    decreases opts.len(),
{
    if opts[0].label@ == lbl {
    } else {
        let m = choose|m: int| 0 <= m < opts.len() && #[trigger] opts[m].label@ == lbl;
        assert(opts.drop_first()[m - 1] == opts[m]);
        lemma_first_option_some(opts.drop_first(), lbl);
        let o = first_option_labeled(opts.drop_first(), lbl)->Some_0;
        let m2 = choose|m2: int| 0 <= m2 < opts.drop_first().len() && #[trigger] opts.drop_first()[m2]
            == o;
        assert(opts[m2 + 1] == o);
    }
}

/// When no option carries the wanted label, none is found.
pub proof fn lemma_first_option_none(opts: Seq<TrackerFieldValue>, lbl: Seq<char>)
    requires
        forall|m: int| 0 <= m < opts.len() ==> #[trigger] opts[m].label@ != lbl,
    ensures
        first_option_labeled(opts, lbl) is None,
    decreases opts.len(),
{
    if opts.len() > 0 {
        assert(forall|m: int|
            0 <= m < opts.drop_first().len() ==> #[trigger] opts.drop_first()[m] == opts[m + 1]);
        lemma_first_option_none(opts.drop_first(), lbl);
    }
}

/// For any severity and probability and a risk field configured with an
/// option labeled exactly like their product's decimal text, resolution
/// returns a binding pointing at the risk field's id and at the id of an
/// option labeled with that text.
pub proof fn lemma_resolve_finds_matching_option(
    fields: Seq<TrackerField>,
    lbl: Seq<char>,
    f: TrackerField,
    opts: Seq<TrackerFieldValue>,
    sev: int,
    prob: int,
)
    requires
        first_tracker_field(fields, lbl) == Some(f),
        match f.values {
            Some(v) => v@ == opts,
            None => false,
        },
        exists|m: int| 0 <= m < opts.len() && #[trigger] opts[m].label@ == dec_rep(sev * prob),
    ensures
        spec_resolve(fields, lbl, sev, prob) matches Ok(pair) && pair.0 == f.field_id && (
        exists|m: int|
            0 <= m < opts.len() && #[trigger] opts[m].label@ == dec_rep(sev * prob) && opts[m].id
                == pair.1),
{
    lemma_first_option_some(opts, dec_rep(sev * prob));
    let o = first_option_labeled(opts, dec_rep(sev * prob))->Some_0;
    let m = choose|m: int| 0 <= m < opts.len() && #[trigger] opts[m] == o;
    assert(opts[m].label@ == dec_rep(sev * prob) && opts[m].id == o.id);
}

/// For any risk field with configured options none of which is labeled like
/// the product's decimal text, resolution fails with "no matching option",
/// however many other options are configured.
pub proof fn lemma_resolve_no_matching_option(
    fields: Seq<TrackerField>,
    lbl: Seq<char>,
    f: TrackerField,
    opts: Seq<TrackerFieldValue>,
    sev: int,
    prob: int,
)
    requires
        first_tracker_field(fields, lbl) == Some(f),
        match f.values {
            Some(v) => v@ == opts,
            None => false,
        },
        opts.len() > 0,
        forall|m: int| 0 <= m < opts.len() ==> #[trigger] opts[m].label@ != dec_rep(sev * prob),
    ensures
        spec_resolve(fields, lbl, sev, prob) == Err::<(u32, u32), RuleFailure>(
            RuleFailure::NoMatchingOption(sev * prob),
        ),
{
    lemma_first_option_none(opts, dec_rep(sev * prob));
}

} // verus!
