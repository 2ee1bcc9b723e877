//! Round-trip law of the value codec: a host value made of strings,
//! integers, booleans, lists and duplicate-free objects encodes to a TOML
//! value that decodes back to exactly the same host value.

use vstd::prelude::*;
use crate::codec::spec_decode_list_from;
use crate::codec::spec_decode_ipairs_from;
use crate::codec::spec_decode_value;
use crate::codec::spec_encode;
use crate::codec::spec_encode_list_from;
use crate::codec::spec_encode_pairs_from;
use crate::host::SpecHost;
use crate::model::SpecValue;
use crate::model::inline_insert_pair;
use crate::model::inline_lookup;

verus! {

/// Host values the codec maps to TOML and back without loss: strings,
/// integers, booleans, lists of such values, and objects of such values
/// whose keys are pairwise distinct.
pub open spec fn exactly_encodable(h: SpecHost) -> bool
    decreases h, 0int,
{
    match h {
        SpecHost::Text(_) => true,
        SpecHost::Int(_) => true,
        SpecHost::Bool(_) => true,
        SpecHost::List(es) => exact_list_from(es, 0),
        SpecHost::Object(ps) => pairwise_distinct_keys(ps) && exact_pairs_from(ps, 0),
        _ => false,
    }
}

/// Every element from `idx` on is exactly encodable.
pub open spec fn exact_list_from(es: Seq<SpecHost>, idx: int) -> bool
    decreases es, es.len() - idx,
{
    if 0 <= idx < es.len() {
        exactly_encodable(es[idx]) && exact_list_from(es, idx + 1)
    } else {
        true
    }
}

/// Every entry value from `idx` on is exactly encodable.
pub open spec fn exact_pairs_from(ps: Seq<(Seq<char>, SpecHost)>, idx: int) -> bool
    decreases ps, ps.len() - idx,
{
    if 0 <= idx < ps.len() {
        exactly_encodable(ps[idx].1) && exact_pairs_from(ps, idx + 1)
    } else {
        true
    }
}

/// No two entries share a key.
pub open spec fn pairwise_distinct_keys(ps: Seq<(Seq<char>, SpecHost)>) -> bool {
    forall|a: int, b: int| 0 <= a < b < ps.len() ==> ps[a].0 != ps[b].0
}

proof fn lemma_inline_lookup_none(es: Seq<(Seq<char>, SpecValue)>, k: Seq<char>)
    requires
        forall|j: int| 0 <= j < es.len() ==> es[j].0 != k,
    ensures
        inline_lookup(es, k) is None,
    decreases es.len(),
{
    if es.len() > 0 {
        assert(forall|j: int| 0 <= j < es.drop_first().len() ==> es.drop_first()[j] == es[j + 1]
            && es.drop_first()[j].0 != k);
        lemma_inline_lookup_none(es.drop_first(), k);
    }
}

proof fn lemma_exact_list(es: Seq<SpecHost>, idx: int)
    requires
        0 <= idx <= es.len(),
        exact_list_from(es, idx),
    ensures
        spec_encode_list_from(es, idx) is Ok,
        spec_encode_list_from(es, idx)->Ok_0.len() == es.len() - idx,
        forall|j: int|
            0 <= j < es.len() - idx ==> spec_encode_list_from(es, idx)->Ok_0[j] == spec_encode(
                es[idx + j],
            )->Ok_0,
        forall|j: int| idx <= j < es.len() ==> spec_encode(es[j]) is Ok,
    decreases es, es.len() - idx,
{
    broadcast use vstd::seq::axiom_seq_index_decreases;

    if idx < es.len() {
        lemma_encode_decode_round_trip(es[idx]);
        lemma_exact_list(es, idx + 1);
        let v = spec_encode(es[idx])->Ok_0;
        let vs = spec_encode_list_from(es, idx + 1)->Ok_0;
        assert(spec_encode_list_from(es, idx)->Ok_0 == seq![v] + vs);
        assert(forall|j: int|
            1 <= j < es.len() - idx ==> (seq![v] + vs)[j] == vs[j - 1]);
        assert((seq![v] + vs)[0] == v);
    }
}

proof fn lemma_exact_pairs(
    ps: Seq<(Seq<char>, SpecHost)>,
    idx: int,
    acc: Seq<(Seq<char>, SpecValue)>,
)
    requires
        0 <= idx <= ps.len(),
        pairwise_distinct_keys(ps),
        exact_pairs_from(ps, idx),
        acc.len() == idx,
        forall|j: int| 0 <= j < idx ==> #[trigger] acc[j].0 == ps[j].0,
        forall|j: int| 0 <= j < idx ==> #[trigger] acc[j].1 == spec_encode(ps[j].1)->Ok_0,
    ensures
        spec_encode_pairs_from(ps, idx, acc) is Ok,
        spec_encode_pairs_from(ps, idx, acc)->Ok_0.len() == ps.len(),
        forall|j: int|
            0 <= j < ps.len() ==> #[trigger] spec_encode_pairs_from(ps, idx, acc)->Ok_0[j].0
                == ps[j].0,
        forall|j: int|
            0 <= j < ps.len() ==> #[trigger] spec_encode_pairs_from(ps, idx, acc)->Ok_0[j].1
                == spec_encode(ps[j].1)->Ok_0,
        forall|j: int| idx <= j < ps.len() ==> spec_encode(ps[j].1) is Ok,
    decreases ps, ps.len() - idx,
{
    broadcast use vstd::seq::axiom_seq_index_decreases;

    if idx < ps.len() {
        lemma_encode_decode_round_trip(ps[idx].1);
        let w = spec_encode(ps[idx].1)->Ok_0;
        assert(forall|j: int| 0 <= j < acc.len() ==> acc[j].0 == ps[j].0 && ps[j].0
            != ps[idx].0);
        lemma_inline_lookup_none(acc, ps[idx].0);
        assert(inline_insert_pair(acc, ps[idx].0, w) == acc.push((ps[idx].0, w)));
        lemma_exact_pairs(ps, idx + 1, acc.push((ps[idx].0, w)));
    }
}

proof fn lemma_decode_list_pointwise(vs: Seq<SpecValue>, idx: int)
    requires
        0 <= idx <= vs.len(),
    ensures
        spec_decode_list_from(vs, idx).len() == vs.len() - idx,
        forall|j: int|
            0 <= j < vs.len() - idx ==> #[trigger] spec_decode_list_from(vs, idx)[j]
                == spec_decode_value(vs[idx + j]),
    decreases vs.len() - idx,
{
    if idx < vs.len() {
        lemma_decode_list_pointwise(vs, idx + 1);
        let rest = spec_decode_list_from(vs, idx + 1);
        assert(forall|j: int|
            1 <= j < vs.len() - idx ==> (seq![spec_decode_value(vs[idx])] + rest)[j] == rest[j
                - 1]);
    }
}

proof fn lemma_decode_ipairs_pointwise(es: Seq<(Seq<char>, SpecValue)>, idx: int)
    requires
        0 <= idx <= es.len(),
    ensures
        spec_decode_ipairs_from(es, idx).len() == es.len() - idx,
        forall|j: int|
            0 <= j < es.len() - idx ==> #[trigger] spec_decode_ipairs_from(es, idx)[j] == (
            es[idx + j].0,
            spec_decode_value(es[idx + j].1),
            ),
    decreases es.len() - idx,
{
    if idx < es.len() {
        lemma_decode_ipairs_pointwise(es, idx + 1);
        let rest = spec_decode_ipairs_from(es, idx + 1);
        assert(forall|j: int|
            1 <= j < es.len() - idx ==> (seq![(es[idx].0, spec_decode_value(es[idx].1))]
                + rest)[j] == rest[j - 1]);
    }
}

/// Law: encoding an exactly-encodable host value always succeeds, and
/// decoding the encoded TOML value yields the original host value again,
/// element for element and entry for entry.
pub proof fn lemma_encode_decode_round_trip(h: SpecHost)
    requires
        exactly_encodable(h),
    ensures
        spec_encode(h) is Ok,
        spec_decode_value(spec_encode(h)->Ok_0) == h,
    decreases h, 1int,
{
    broadcast use vstd::seq::axiom_seq_index_decreases;

    match h {
        SpecHost::List(es) => {
            lemma_exact_list(es, 0);
            let vs = spec_encode_list_from(es, 0)->Ok_0;
            lemma_decode_list_pointwise(vs, 0);
            assert forall|j: int| 0 <= j < es.len() implies #[trigger] spec_decode_list_from(
                vs,
                0,
            )[j] == es[j] by {
                assert(vs[j] == spec_encode(es[j])->Ok_0);
                assert(exactly_encodable(es[j])) by {
                    lemma_exact_list_index(es, 0, j);
                }
                lemma_encode_decode_round_trip(es[j]);
            }
            assert(spec_decode_list_from(vs, 0) =~= es);
        },
        SpecHost::Object(ps) => {
            lemma_exact_pairs(ps, 0, Seq::empty());
            let es = spec_encode_pairs_from(ps, 0, Seq::empty())->Ok_0;
            lemma_decode_ipairs_pointwise(es, 0);
            assert forall|j: int| 0 <= j < ps.len() implies #[trigger] spec_decode_ipairs_from(
                es,
                0,
            )[j] == ps[j] by {
                assert(es[j].0 == ps[j].0);
                assert(es[j].1 == spec_encode(ps[j].1)->Ok_0);
                assert(exactly_encodable(ps[j].1)) by {
                    lemma_exact_pairs_index(ps, 0, j);
                }
                lemma_encode_decode_round_trip(ps[j].1);
                assert(ps[j] == (ps[j].0, ps[j].1));
            }
            assert(spec_decode_ipairs_from(es, 0) =~= ps);
        },
        _ => {},
    }
}

proof fn lemma_exact_list_index(es: Seq<SpecHost>, idx: int, j: int)
    requires
        0 <= idx <= j < es.len(),
        exact_list_from(es, idx),
    ensures
        exactly_encodable(es[j]),
    decreases j - idx,
{
    if idx < j {
        lemma_exact_list_index(es, idx + 1, j);
    }
}

proof fn lemma_exact_pairs_index(ps: Seq<(Seq<char>, SpecHost)>, idx: int, j: int)
    requires
        0 <= idx <= j < ps.len(),
        exact_pairs_from(ps, idx),
    ensures
        exactly_encodable(ps[j].1),
    decreases j - idx,
{
    if idx < j {
        lemma_exact_pairs_index(ps, idx + 1, j);
    }
}

} // verus!
