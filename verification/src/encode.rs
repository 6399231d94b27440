//! Encoder: serialize collected bindings into the output envelope
//! `{"values":[{"field_id":<n>,"bind_value_ids":[<n>,...]},...]}`, with every
//! integer in canonical decimal text and no whitespace.
use crate::decimal::dec_digits;
use crate::decimal::u128_to_decimal;
use crate::model::FieldValueBinding;
use vstd::prelude::*;
use vstd::string::StringExecFns;

verus! {

/// The characters that open the output envelope.
pub open spec fn envelope_open() -> Seq<char> {
    seq!['{', '"', 'v', 'a', 'l', 'u', 'e', 's', '"', ':', '[']
}

/// The characters that close the output envelope.
pub open spec fn envelope_close() -> Seq<char> {
    seq![']', '}']
}

/// The characters that open one binding object.
pub open spec fn binding_open() -> Seq<char> {
    seq!['{', '"', 'f', 'i', 'e', 'l', 'd', '_', 'i', 'd', '"', ':']
}

/// The characters between a binding's field id and its option id list.
pub open spec fn binding_ids_open() -> Seq<char> {
    seq![',', '"', 'b', 'i', 'n', 'd', '_', 'v', 'a', 'l', 'u', 'e', '_', 'i', 'd', 's', '"', ':',
        '[']
}

/// The characters that close one binding object.
pub open spec fn binding_close() -> Seq<char> {
    seq![']', '}']
}

/// Comma-separated canonical decimal texts of the ids, in order.
pub open spec fn encode_ids(ids: Seq<u32>) -> Seq<char>
    decreases ids.len(),
{
    if ids.len() == 0 {
        seq![]
    } else if ids.len() == 1 {
        dec_digits(ids[0] as nat)
    } else {
        encode_ids(ids.drop_last()) + seq![','] + dec_digits(ids.last() as nat)
    }
}

/// The encoding of one binding object.
pub open spec fn encode_binding(b: FieldValueBinding) -> Seq<char> {
    binding_open() + dec_digits(b.field_id as nat) + binding_ids_open() + encode_ids(
        b.bind_value_ids@,
    ) + binding_close()
}

/// Comma-separated encodings of the bindings, in order.
pub open spec fn encode_binding_list(bs: Seq<FieldValueBinding>) -> Seq<char>
    decreases bs.len(),
{
    if bs.len() == 0 {
        seq![]
    } else if bs.len() == 1 {
        encode_binding(bs[0])
    } else {
        encode_binding_list(bs.drop_last()) + seq![','] + encode_binding(bs.last())
    }
}

/// The whole output document for a binding list.
pub open spec fn spec_encode(bs: Seq<FieldValueBinding>) -> Seq<char> {
    envelope_open() + encode_binding_list(bs) + envelope_close()
}

/// The encoding of the binding object for one (field id, option id) pair.
pub open spec fn encode_pair(pair: (u32, u32)) -> Seq<char> {
    binding_open() + dec_digits(pair.0 as nat) + binding_ids_open() + dec_digits(pair.1 as nat)
        + binding_close()
}

/// Comma-separated encodings of the pairs' binding objects, in order.
pub open spec fn encode_pair_list(pairs: Seq<(u32, u32)>) -> Seq<char>
    decreases pairs.len(),
{
    if pairs.len() == 0 {
        seq![]
    } else if pairs.len() == 1 {
        encode_pair(pairs[0])
    } else {
        encode_pair_list(pairs.drop_last()) + seq![','] + encode_pair(pairs.last())
    }
}

/// The whole output document for a list of (field id, option id) pairs.
pub open spec fn spec_encode_pairs(pairs: Seq<(u32, u32)>) -> Seq<char> {
    envelope_open() + encode_pair_list(pairs) + envelope_close()
}

/// Encoding the empty binding list produces exactly `{"values":[]}`.
pub proof fn lemma_encode_empty()
    ensures
        spec_encode(Seq::<FieldValueBinding>::empty()) == "{\"values\":[]}"@,
{
    reveal_strlit("{\"values\":[]}");
    assert(spec_encode(Seq::<FieldValueBinding>::empty()) =~= "{\"values\":[]}"@);
}

/// Encode one binding object.
#[verifier::loop_isolation(false)]
fn encode_one_binding(b: &FieldValueBinding) -> (s: String)
    ensures
        s@ == encode_binding(*b),
{
    let mut s = String::from_str("{\"field_id\":");
    proof {
        reveal_strlit("{\"field_id\":");
        assert(s@ =~= binding_open());
    }
    let field_id_text = u128_to_decimal(b.field_id as u128);
    s.append(field_id_text.as_str());
    s.append(",\"bind_value_ids\":[");
    proof {
        reveal_strlit(",\"bind_value_ids\":[");
        assert(",\"bind_value_ids\":["@ =~= binding_ids_open());
    }
    let n: usize = b.bind_value_ids.len();
    let mut i: usize = 0;
    let ghost prefix = s@;
    proof {
        assert(b.bind_value_ids@.take(0int).len() == 0);
    }
    while i < n
        invariant
            0 <= i <= n,
            s@ == prefix + encode_ids(b.bind_value_ids@.take(i as int)),
        decreases n - i,
    {
        if i > 0 {
            s.append(",");
            proof {
                reveal_strlit(",");
                assert(","@ =~= seq![',']);
            }
        }
        let id_text = u128_to_decimal(b.bind_value_ids[i] as u128);
        s.append(id_text.as_str());
        proof {
            let ids = b.bind_value_ids@;
            assert(ids.take(i + 1).drop_last() =~= ids.take(i as int));
            assert(ids.take(i + 1).last() == ids[i as int]);
            if i == 0 {
                assert(encode_ids(ids.take(1)) == dec_digits(ids[0] as nat));
                assert(prefix + encode_ids(ids.take(0)) =~= prefix);
                assert(s@ =~= prefix + encode_ids(ids.take(1)));
            } else {
                assert(encode_ids(ids.take(i + 1)) == encode_ids(ids.take(i as int)) + seq![',']
                    + dec_digits(ids[i as int] as nat));
                assert(s@ =~= prefix + encode_ids(ids.take(i + 1)));
            }
        }
        i += 1;
    }
    s.append("]}");
    proof {
        reveal_strlit("]}");
        assert("]}"@ =~= binding_close());
        assert(b.bind_value_ids@.take(n as int) =~= b.bind_value_ids@);
        assert(s@ =~= encode_binding(*b));
    }
    s
}

/// Serialize the bindings into the output envelope; the empty list encodes as
/// `{"values":[]}`.
#[verifier::loop_isolation(false)]
pub fn encode_bindings(bindings: &Vec<FieldValueBinding>) -> (s: String)
    ensures
        s@ == spec_encode(bindings@),
{
    let mut s = String::from_str("{\"values\":[");
    proof {
        reveal_strlit("{\"values\":[");
        assert(s@ =~= envelope_open());
    }
    let n: usize = bindings.len();
    let mut i: usize = 0;
    proof {
        assert(bindings@.take(0int).len() == 0);
    }
    while i < n
        invariant
            0 <= i <= n,
            s@ == envelope_open() + encode_binding_list(bindings@.take(i as int)),
        decreases n - i,
    {
        if i > 0 {
            s.append(",");
            proof {
                reveal_strlit(",");
                assert(","@ =~= seq![',']);
            }
        }
        let piece = encode_one_binding(&bindings[i]);
        s.append(piece.as_str());
        proof {
            let bs = bindings@;
            assert(bs.take(i + 1).drop_last() =~= bs.take(i as int));
            assert(bs.take(i + 1).last() == bs[i as int]);
            if i == 0 {
                assert(encode_binding_list(bs.take(1)) == encode_binding(bs[0]));
                assert(envelope_open() + encode_binding_list(bs.take(0)) =~= envelope_open());
                assert(s@ =~= envelope_open() + encode_binding_list(bs.take(1)));
            } else {
                assert(encode_binding_list(bs.take(i + 1)) == encode_binding_list(
                    bs.take(i as int),
                ) + seq![','] + encode_binding(bs[i as int]));
                assert(s@ =~= envelope_open() + encode_binding_list(bs.take(i + 1)));
            }
        }
        i += 1;
    }
    s.append("]}");
    proof {
        reveal_strlit("]}");
        assert("]}"@ =~= envelope_close());
        assert(bindings@.take(n as int) =~= bindings@);
        assert(s@ =~= spec_encode(bindings@));
    }
    s
}

} // verus!
