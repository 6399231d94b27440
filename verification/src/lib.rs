//! Risk-scoring post-action rules for tracker artifacts.
//!
//! An artifact carries its current field values and its tracker's field
//! definitions.  The library locates severity and probability select boxes by
//! label, extracts the ordinal of the first selected option, resolves the
//! severity x probability product to a configured risk-level option by exact
//! decimal-label match, and encodes the resulting field bindings.
use vstd::prelude::*;

use crate::encode::encode_binding;
use crate::encode::encode_binding_list;
use crate::encode::encode_ids;
use crate::encode::encode_pair;
use crate::encode::encode_pair_list;
use crate::encode::spec_encode;
use crate::encode::spec_encode_pairs;
use crate::model::Artifact;
use crate::model::FieldValueBinding;
use crate::model::RuleError;
use crate::model::binding_matches;
use crate::model::rule_err_matches;
use crate::rule::bindings_match;
use crate::rule::spec_run_rules;

pub mod decimal;
pub mod encode;
pub mod extract;
pub mod locate;
pub mod model;
mod parity;
pub mod resolve;
pub mod rule;
pub mod text;

pub use decimal::convert_label_to_integer;
pub use encode::encode_bindings;
pub use extract::extract_ordinal;
pub use extract::find_select_box_value_by_label;
pub use extract::find_value_matching_label;
pub use locate::find_select_box_by_label;
pub use locate::find_tracker_field;
pub use parity::is_odd;
pub use resolve::find_risk_value;
pub use rule::process_risk_values;
pub use rule::run_rules;

verus! {

/// Binding lists that bind the same pairs encode to the same text.
pub proof fn lemma_bindings_encode_as_pairs(bs: Seq<FieldValueBinding>, pairs: Seq<(u32, u32)>)
    requires
        bindings_match(bs, pairs),
    ensures
        encode_binding_list(bs) == encode_pair_list(pairs),
        spec_encode(bs) == spec_encode_pairs(pairs),
    decreases bs.len(),
{
    if bs.len() > 0 {
        let b = bs.last();
        let p = pairs.last();
        assert(bs[bs.len() - 1] == b && pairs[pairs.len() - 1] == p);
        assert(binding_matches(b, p));
        assert(encode_ids(b.bind_value_ids@) == crate::decimal::dec_digits(p.1 as nat)) by {
            assert(b.bind_value_ids@ == seq![p.1]);
            assert(b.bind_value_ids@.len() == 1);
            assert(b.bind_value_ids@[0] == p.1);
        }
        assert(encode_binding(b) == encode_pair(p));
        if bs.len() > 1 {
            assert(bindings_match(bs.drop_last(), pairs.drop_last())) by {
                assert(forall|i: int|
                    0 <= i < pairs.drop_last().len() ==> #[trigger] bs.drop_last()[i] == bs[i]
                        && pairs.drop_last()[i] == pairs[i]);
            }
            lemma_bindings_encode_as_pairs(bs.drop_last(), pairs.drop_last());
        }
    }
}

/// Run both risk rules on `artifact` and serialize the collected bindings
/// into the output document; any failure aborts with no output document.
pub fn run(artifact: &Artifact) -> (r: Result<String, RuleError>)
    ensures
        match (r, spec_run_rules(*artifact)) {
            (Ok(s), Ok(pairs)) => s@ == spec_encode_pairs(pairs),
            (Err(e), Err(f)) => rule_err_matches(e, f),
            _ => false,
        },
{
    match run_rules(artifact) {
        Ok(bindings) => {
            proof {
                lemma_bindings_encode_as_pairs(bindings@, spec_run_rules(*artifact)->Ok_0);
            }
            Ok(encode_bindings(&bindings))
        },
        Err(e) => Err(e),
    }
}

} // verus!
