//! The value and document codecs: decoding a TOML item or value into a host
//! value, and encoding a host value into a TOML value. Both directions are
//! specified by recursive spec functions over the mathematical models and the
//! executable functions are proved against them.

use vstd::prelude::*;
use crate::bindings::aot_model;
use crate::bindings::arr_at;
use crate::bindings::arr_len;
use crate::bindings::arr_model;
use crate::bindings::inline_model;
use crate::bindings::aot_at;
use crate::bindings::aot_len;
use crate::bindings::float_bits_text;
use crate::bindings::float_text_bits;
use crate::bindings::inline_entry_at;
use crate::bindings::inline_insert;
use crate::bindings::inline_len;
use crate::bindings::inline_new;
use crate::bindings::is_nan_bits;
use crate::bindings::item_as_aot;
use crate::bindings::item_as_table;
use crate::bindings::item_as_value;
use crate::bindings::item_model;
use crate::bindings::table_entry_at;
use crate::bindings::table_len;
use crate::bindings::table_model;
use crate::bindings::value_as_array;
use crate::bindings::value_as_bool;
use crate::bindings::value_as_inline;
use crate::bindings::value_as_integer;
use crate::bindings::value_as_str;
use crate::bindings::value_datetime_text;
use crate::bindings::value_float_text;
use crate::bindings::value_from_array;
use crate::bindings::value_from_bool;
use crate::bindings::value_from_i64;
use crate::bindings::value_from_inline;
use crate::bindings::value_from_string;
use crate::bindings::value_model;
use crate::bindings::value_parse_float;
use crate::host::HostValue;
use crate::host::SpecHost;
use crate::host::view_list;
use crate::host::view_pairs;
use crate::host::lemma_view_list_push;
use crate::host::lemma_view_pairs_push;
use crate::model::SpecItem;
use crate::model::SpecValue;
use crate::model::inline_insert_pair;
use crate::model::inline_keys_unique;
use crate::model::inline_lookup;
use crate::model::value_wf;
use vstd::string::StrSliceExecFns;
use vstd::string::StringExecFns;

verus! {

/// Why a host value has no TOML representation.
pub enum SpecEncErr {
    /// The host's null.
    Null,
    /// The host's undefined.
    Undefined,
    /// Any other unconvertible host value, by its runtime type tag.
    Exotic(Seq<char>),
}

/// The message text carried by an encode failure.
pub open spec fn enc_err_message(e: SpecEncErr) -> Seq<char> {
    match e {
        SpecEncErr::Null => "toml doesn't support null"@,
        SpecEncErr::Undefined => "toml doesn't support undefined"@,
        SpecEncErr::Exotic(t) => "Unsupported toml data type: "@ + t,
    }
}

/// Decode a single TOML value into a host value.
pub open spec fn spec_decode_value(v: SpecValue) -> SpecHost
    decreases v, 0int,
{
    match v {
        SpecValue::Str(s) => SpecHost::Text(s),
        SpecValue::Int(i) => SpecHost::Int(i),
        SpecValue::Float(b) => SpecHost::Float(float_bits_text(b)),
        SpecValue::Bool(b) => SpecHost::Bool(b),
        SpecValue::Datetime(t) => SpecHost::Datetime(t),
        SpecValue::Arr(vs) => SpecHost::List(spec_decode_list_from(vs, 0)),
        SpecValue::Inline(es) => SpecHost::Object(spec_decode_ipairs_from(es, 0)),
    }
}

/// Decode the elements of an array, from `idx` on.
pub open spec fn spec_decode_list_from(vs: Seq<SpecValue>, idx: int) -> Seq<SpecHost>
    decreases vs, vs.len() - idx,
{
    if 0 <= idx < vs.len() {
        seq![spec_decode_value(vs[idx])] + spec_decode_list_from(vs, idx + 1)
    } else {
        Seq::empty()
    }
}

/// Decode the entries of an inline table, from `idx` on.
pub open spec fn spec_decode_ipairs_from(es: Seq<(Seq<char>, SpecValue)>, idx: int) -> Seq<
    (Seq<char>, SpecHost),
>
    decreases es, es.len() - idx,
{
    if 0 <= idx < es.len() {
        seq![(es[idx].0, spec_decode_value(es[idx].1))] + spec_decode_ipairs_from(es, idx + 1)
    } else {
        Seq::empty()
    }
}

/// Decode a whole item: absence becomes the host's null, a value decodes by
/// the value codec, a table becomes a host object, an array of tables a host
/// list of objects in document order.
pub open spec fn spec_decode_item(m: SpecItem) -> SpecHost
    decreases m, 0int,
{
    match m {
        SpecItem::Absent => SpecHost::Null,
        SpecItem::Val(v) => spec_decode_value(v),
        SpecItem::Table(es) => SpecHost::Object(spec_decode_epairs_from(es, 0)),
        SpecItem::TableArray(ts) => SpecHost::List(spec_decode_tables_from(ts, 0)),
    }
}

/// Decode the entries of a block table, from `idx` on.
pub open spec fn spec_decode_epairs_from(es: Seq<(Seq<char>, SpecItem)>, idx: int) -> Seq<
    (Seq<char>, SpecHost),
>
    decreases es, es.len() - idx,
{
    if 0 <= idx < es.len() {
        seq![(es[idx].0, spec_decode_item(es[idx].1))] + spec_decode_epairs_from(es, idx + 1)
    } else {
        Seq::empty()
    }
}

/// Decode the tables of an array-of-tables, from `idx` on.
pub open spec fn spec_decode_tables_from(ts: Seq<Seq<(Seq<char>, SpecItem)>>, idx: int) -> Seq<
    SpecHost,
>
    decreases ts, ts.len() - idx,
{
    if 0 <= idx < ts.len() {
        seq![SpecHost::Object(spec_decode_epairs_from(ts[idx], 0))] + spec_decode_tables_from(
            ts,
            idx + 1,
        )
    } else {
        Seq::empty()
    }
}

/// Encode a host value as a TOML value, or say why it cannot be done.
/// Strings, integers, booleans, float texts, lists and objects encode; the
/// host's null, undefined, date/time values and exotic values are refused.
pub open spec fn spec_encode(h: SpecHost) -> Result<SpecValue, SpecEncErr>
    decreases h, 0int,
{
    match h {
        SpecHost::Text(s) => Ok(SpecValue::Str(s)),
        SpecHost::Int(i) => Ok(SpecValue::Int(i)),
        SpecHost::Float(t) => match float_text_bits(t) {
            Some(b) => Ok(SpecValue::Float(b)),
            None => Err(SpecEncErr::Exotic("number"@)),
        },
        SpecHost::Bool(b) => Ok(SpecValue::Bool(b)),
        SpecHost::List(es) => match spec_encode_list_from(es, 0) {
            Ok(vs) => Ok(SpecValue::Arr(vs)),
            Err(e) => Err(e),
        },
        SpecHost::Object(ps) => match spec_encode_pairs_from(ps, 0, Seq::empty()) {
            Ok(es) => Ok(SpecValue::Inline(es)),
            Err(e) => Err(e),
        },
        SpecHost::Datetime(_) => Err(SpecEncErr::Exotic("date"@)),
        SpecHost::Null => Err(SpecEncErr::Null),
        SpecHost::Undefined => Err(SpecEncErr::Undefined),
        SpecHost::Exotic(t) => Err(SpecEncErr::Exotic(t)),
    }
}

/// Encode the elements of a host list from `idx` on; the first failing
/// element's error propagates.
pub open spec fn spec_encode_list_from(es: Seq<SpecHost>, idx: int) -> Result<
    Seq<SpecValue>,
    SpecEncErr,
>
    decreases es, es.len() - idx,
{
    if 0 <= idx < es.len() {
        match spec_encode(es[idx]) {
            Ok(v) => match spec_encode_list_from(es, idx + 1) {
                Ok(vs) => Ok(seq![v] + vs),
                Err(e) => Err(e),
            },
            Err(e) => Err(e),
        }
    } else {
        Ok(Seq::empty())
    }
}

/// Encode a host object's entries from `idx` on into inline-table entries,
/// inserting left to right the way an ordered map does; the first failing
/// entry's error propagates.
pub open spec fn spec_encode_pairs_from(
    ps: Seq<(Seq<char>, SpecHost)>,
    idx: int,
    acc: Seq<(Seq<char>, SpecValue)>,
) -> Result<Seq<(Seq<char>, SpecValue)>, SpecEncErr>
    decreases ps, ps.len() - idx,
{
    if 0 <= idx < ps.len() {
        match spec_encode(ps[idx].1) {
            Ok(w) => spec_encode_pairs_from(ps, idx + 1, inline_insert_pair(acc, ps[idx].0, w)),
            Err(e) => Err(e),
        }
    } else {
        Ok(acc)
    }
}

proof fn lemma_encode_list_wf(es: Seq<SpecHost>, idx: int)
    requires
        0 <= idx <= es.len(),
    ensures
        spec_encode_list_from(es, idx) is Ok ==> forall|j: int|
            0 <= j < spec_encode_list_from(es, idx)->Ok_0.len() ==> value_wf(
                #[trigger] spec_encode_list_from(es, idx)->Ok_0[j],
            ),
    decreases es, es.len() - idx,
{
    broadcast use vstd::seq::axiom_seq_index_decreases;

    if 0 <= idx < es.len() {
        lemma_encode_wf(es[idx]);
        lemma_encode_list_wf(es, idx + 1);
        if spec_encode_list_from(es, idx) is Ok {
            let v = spec_encode(es[idx])->Ok_0;
            let vs = spec_encode_list_from(es, idx + 1)->Ok_0;
            assert forall|j: int| 0 <= j < (seq![v] + vs).len() implies value_wf(
                #[trigger] (seq![v] + vs)[j],
            ) by {
                if j >= 1 {
                    assert((seq![v] + vs)[j] == vs[j - 1]);
                }
            }
        }
    }
}

proof fn lemma_encode_pairs_wf(
    ps: Seq<(Seq<char>, SpecHost)>,
    idx: int,
    acc: Seq<(Seq<char>, SpecValue)>,
)
    requires
        0 <= idx <= ps.len(),
        inline_keys_unique(acc),
        forall|j: int| 0 <= j < acc.len() ==> value_wf(#[trigger] acc[j].1),
    ensures
        spec_encode_pairs_from(ps, idx, acc) is Ok ==> inline_keys_unique(
            spec_encode_pairs_from(ps, idx, acc)->Ok_0,
        ) && forall|j: int|
            0 <= j < spec_encode_pairs_from(ps, idx, acc)->Ok_0.len() ==> value_wf(
                #[trigger] spec_encode_pairs_from(ps, idx, acc)->Ok_0[j].1,
            ),
    decreases ps, ps.len() - idx,
{
    broadcast use vstd::seq::axiom_seq_index_decreases;

    if 0 <= idx < ps.len() && spec_encode(ps[idx].1) is Ok {
        lemma_encode_wf(ps[idx].1);
        let k = ps[idx].0;
        let w = spec_encode(ps[idx].1)->Ok_0;
        let acc2 = inline_insert_pair(acc, k, w);
        if inline_lookup(acc, k) is Some {
            crate::model::lemma_inline_update_keys(acc, k, w);
            assert forall|j: int| 0 <= j < acc2.len() implies value_wf(#[trigger] acc2[j].1) by {
                assert(acc2[j].1 == acc[j].1 || acc2[j].1 == w);
            }
            assert(forall|j: int| 0 <= j < acc2.len() ==> (#[trigger] acc2[j]).0 == acc[j].0);
        } else {
            crate::model::lemma_inline_lookup_index(acc, k);
            assert(acc2 == acc.push((k, w)));
            assert forall|j: int| 0 <= j < acc2.len() implies value_wf(#[trigger] acc2[j].1) by {
                if j < acc.len() {
                    assert(acc2[j] == acc[j]);
                }
            }
            assert forall|a: int, b: int| 0 <= a < b < acc2.len() implies (#[trigger] acc2[a]).0
                != (#[trigger] acc2[b]).0 by {
                if b < acc.len() {
                    assert(acc2[a] == acc[a] && acc2[b] == acc[b]);
                } else {
                    assert(acc2[a] == acc[a] && acc2[b] == (k, w));
                    assert(acc[a].0 != k);
                }
            }
        }
        lemma_encode_pairs_wf(ps, idx + 1, acc2);
    }
}

/// Every value the encoder builds is well-formed: each of its inline
/// tables holds pairwise-distinct keys.
pub proof fn lemma_encode_wf(h: SpecHost)
    ensures
        spec_encode(h) is Ok ==> value_wf(spec_encode(h)->Ok_0),
    decreases h, 1int,
{
    broadcast use vstd::seq::axiom_seq_index_decreases;

    match h {
        SpecHost::List(es) => {
            lemma_encode_list_wf(es, 0);
            if spec_encode_list_from(es, 0) is Ok {
                crate::model::lemma_values_wf_build(spec_encode_list_from(es, 0)->Ok_0, 0);
            }
        },
        SpecHost::Object(ps) => {
            lemma_encode_pairs_wf(ps, 0, Seq::empty());
            if spec_encode_pairs_from(ps, 0, Seq::empty()) is Ok {
                crate::model::lemma_ivalues_wf_build(
                    spec_encode_pairs_from(ps, 0, Seq::empty())->Ok_0,
                    0,
                );
            }
        },
        _ => {},
    }
}

/// The models of a vector of TOML values.
pub open spec fn value_models(s: Seq<toml_edit::Value>) -> Seq<SpecValue> {
    Seq::new(s.len(), |i: int| value_model(s[i]))
}

/// Decode a TOML value into a host value.
pub fn decode_value(v: &toml_edit::Value) -> (r: HostValue)
    ensures
        r@ == spec_decode_value(value_model(*v)),
    decreases value_model(*v), 0int,
{
    let m = Ghost(value_model(*v));
    if let Some(s) = value_as_str(v) {
        HostValue::Text(s.to_owned())
    } else if let Some(i) = value_as_integer(v) {
        HostValue::Int(i)
    } else if let Some(b) = value_as_bool(v) {
        HostValue::Bool(b)
    } else if let Some(t) = value_float_text(v) {
        HostValue::Float(t)
    } else if let Some(t) = value_datetime_text(v) {
        HostValue::Datetime(t)
    } else if let Some(a) = value_as_array(v) {
        let ghost vs = m@->Arr_0;
        let n = arr_len(a);
        let mut out: Vec<HostValue> = Vec::new();
        let mut j: usize = 0;
        proof {
            assert(view_list(out@) + spec_decode_list_from(vs, 0) =~= spec_decode_list_from(
                vs,
                0,
            ));
        }
        while j < n
            invariant
                n == vs.len(),
                j <= n,
                value_model(*v) == SpecValue::Arr(vs),
                arr_model(*a) == vs,
                view_list(out@) + spec_decode_list_from(vs, j as int) == spec_decode_list_from(
                    vs,
                    0,
                ),
            decreases n - j,
        {
            let c = arr_at(a, j);
            match c {
                Some(w) => {
                    proof {
                        broadcast use vstd::seq::axiom_seq_index_decreases;

                        assert(decreases_to!(value_model(*v) => value_model(*v)->Arr_0));
                        assert(decreases_to!(value_model(*v)->Arr_0 => value_model(
                            *v,
                        )->Arr_0[j as int]));
                        assert(decreases_to!(value_model(*v), 0int => value_model(*w), 0int));
                    }
                    let h = decode_value(w);
                    proof {
                        lemma_view_list_push(out@, h);
                        assert(view_list(out@.push(h)) + spec_decode_list_from(vs, j + 1)
                            =~= view_list(out@) + spec_decode_list_from(vs, j as int));
                    }
                    out.push(h);
                },
                None => {
                    proof {
                        assert(false);
                    }
                },
            }
            j = j + 1;
        }
        proof {
            assert(view_list(out@) + spec_decode_list_from(vs, n as int) =~= view_list(out@));
        }
        HostValue::List(out)
    } else if let Some(t) = value_as_inline(v) {
        let ghost es = m@->Inline_0;
        let n = inline_len(t);
        let mut out: Vec<(String, HostValue)> = Vec::new();
        let mut j: usize = 0;
        proof {
            assert(view_pairs(out@) + spec_decode_ipairs_from(es, 0) =~= spec_decode_ipairs_from(
                es,
                0,
            ));
        }
        while j < n
            invariant
                n == es.len(),
                j <= n,
                value_model(*v) == SpecValue::Inline(es),
                inline_model(*t) == es,
                view_pairs(out@) + spec_decode_ipairs_from(es, j as int)
                    == spec_decode_ipairs_from(es, 0),
            decreases n - j,
        {
            let c = inline_entry_at(t, j);
            match c {
                Some((k, w)) => {
                    proof {
                        broadcast use vstd::seq::axiom_seq_index_decreases;

                        assert(decreases_to!(value_model(*v) => value_model(*v)->Inline_0));
                        assert(decreases_to!(value_model(*v)->Inline_0 => value_model(
                            *v,
                        )->Inline_0[j as int]));
                        assert(decreases_to!(value_model(*v)->Inline_0[j as int] => value_model(
                            *v,
                        )->Inline_0[j as int].1));
                        assert(decreases_to!(value_model(*v), 0int => value_model(*w), 0int));
                    }
                    let h = decode_value(w);
                    proof {
                        lemma_view_pairs_push(out@, (k, h));
                        assert(view_pairs(out@.push((k, h))) + spec_decode_ipairs_from(es, j + 1)
                            =~= view_pairs(out@) + spec_decode_ipairs_from(es, j as int));
                    }
                    out.push((k, h));
                },
                None => {
                    proof {
                        assert(false);
                    }
                },
            }
            j = j + 1;
        }
        proof {
            assert(view_pairs(out@) + spec_decode_ipairs_from(es, n as int) =~= view_pairs(out@));
        }
        HostValue::Object(out)
    } else {
        proof {
            assert(false);
        }
        HostValue::Null
    }
}

/// Decode a block table's visible entries into host object entries.
pub fn decode_table_entries(t: &toml_edit::Table) -> (r: Vec<(String, HostValue)>)
    ensures
        view_pairs(r@) == spec_decode_epairs_from(table_model(*t), 0),
    decreases table_model(*t), 0int,
{
    let ghost es = table_model(*t);
    let n = table_len(t);
    let mut out: Vec<(String, HostValue)> = Vec::new();
    let mut j: usize = 0;
    proof {
        assert(view_pairs(out@) + spec_decode_epairs_from(es, 0) =~= spec_decode_epairs_from(
            es,
            0,
        ));
    }
    while j < n
        invariant
            n == es.len(),
            j <= n,
            table_model(*t) == es,
            view_pairs(out@) + spec_decode_epairs_from(es, j as int) == spec_decode_epairs_from(
                es,
                0,
            ),
        decreases n - j,
    {
        let c = table_entry_at(t, j);
        match c {
            Some((k, child)) => {
                proof {
                    broadcast use vstd::seq::axiom_seq_index_decreases;

                    assert(decreases_to!(es => es[j as int]));
                    assert(decreases_to!(es[j as int] => es[j as int].1));
                    assert(decreases_to!(es, 0int => item_model(*child), 0int));
                }
                let h = decode_item(child);
                proof {
                    lemma_view_pairs_push(out@, (k, h));
                    assert(view_pairs(out@.push((k, h))) + spec_decode_epairs_from(es, j + 1)
                        =~= view_pairs(out@) + spec_decode_epairs_from(es, j as int));
                }
                out.push((k, h));
            },
            None => {
                proof {
                    assert(false);
                }
            },
        }
        j = j + 1;
    }
    proof {
        assert(view_pairs(out@) + spec_decode_epairs_from(es, n as int) =~= view_pairs(out@));
    }
    out
}

/// Decode a whole item into a host value.
pub fn decode_item(i: &toml_edit::Item) -> (r: HostValue)
    ensures
        r@ == spec_decode_item(item_model(*i)),
    decreases item_model(*i), 0int,
{
    if let Some(v) = item_as_value(i) {
        decode_value(v)
    } else if let Some(t) = item_as_table(i) {
        proof {
            assert(decreases_to!(item_model(*i) => item_model(*i)->Table_0));
            assert(decreases_to!(item_model(*i), 0int => table_model(*t), 0int));
        }
        let out = decode_table_entries(t);
        HostValue::Object(out)
    } else if let Some(a) = item_as_aot(i) {
        let ghost ts = item_model(*i)->TableArray_0;
        let n = aot_len(a);
        let mut out: Vec<HostValue> = Vec::new();
        let mut j: usize = 0;
        proof {
            assert(view_list(out@) + spec_decode_tables_from(ts, 0) =~= spec_decode_tables_from(
                ts,
                0,
            ));
        }
        while j < n
            invariant
                n == ts.len(),
                j <= n,
                item_model(*i) == SpecItem::TableArray(ts),
                aot_model(*a) == ts,
                view_list(out@) + spec_decode_tables_from(ts, j as int) == spec_decode_tables_from(
                    ts,
                    0,
                ),
            decreases n - j,
        {
            let c = aot_at(a, j);
            match c {
                Some(t) => {
                    proof {
                        broadcast use vstd::seq::axiom_seq_index_decreases;

                        assert(decreases_to!(item_model(*i) => item_model(*i)->TableArray_0));
                        assert(decreases_to!(item_model(*i)->TableArray_0 => item_model(
                            *i,
                        )->TableArray_0[j as int]));
                        assert(decreases_to!(item_model(*i), 0int => table_model(*t), 0int));
                    }
                    let es = decode_table_entries(t);
                    let h = HostValue::Object(es);
                    proof {
                        lemma_view_list_push(out@, h);
                        assert(view_list(out@.push(h)) + spec_decode_tables_from(ts, j + 1)
                            =~= view_list(out@) + spec_decode_tables_from(ts, j as int));
                    }
                    out.push(h);
                },
                None => {
                    proof {
                        assert(false);
                    }
                },
            }
            j = j + 1;
        }
        proof {
            assert(view_list(out@) + spec_decode_tables_from(ts, n as int) =~= view_list(out@));
        }
        HostValue::List(out)
    } else {
        HostValue::Null
    }
}

/// Law of the float bridge: reading a float value's decimal text out of a
/// document and encoding that text again yields the same float value,
/// whenever its bits are not a NaN's. A NaN's text does not re-encode.
pub fn float_value_round_trip(v: &toml_edit::Value) -> (r: Option<toml_edit::Value>)
    ensures
        value_model(*v) is Float && !is_nan_bits(value_model(*v)->Float_0) ==> r is Some
            && value_model(r->Some_0) == value_model(*v),
{
    match value_float_text(v) {
        Some(t) => value_parse_float(t.as_str()),
        None => None,
    }
}

/// Encode a host value as a TOML value; on failure the message says why,
/// exactly as `enc_err_message` states it.
pub fn encode_value(h: &HostValue) -> (r: Result<toml_edit::Value, String>)
    ensures
        r is Ok <==> spec_encode(h@) is Ok,
        r is Ok ==> value_model(r->Ok_0) == spec_encode(h@)->Ok_0,
        r is Err ==> r->Err_0@ == enc_err_message(spec_encode(h@)->Err_0),
    decreases *h, 0int,
{
    match h {
        HostValue::Null => Err("toml doesn't support null".to_owned()),
        HostValue::Undefined => Err("toml doesn't support undefined".to_owned()),
        HostValue::Text(s) => Ok(value_from_string(s.clone())),
        HostValue::Int(i) => Ok(value_from_i64(*i)),
        HostValue::Bool(b) => Ok(value_from_bool(*b)),
        HostValue::Float(t) => {
            match value_parse_float(t.as_str()) {
                Some(v) => Ok(v),
                None => Err("Unsupported toml data type: ".to_owned().concat("number")),
            }
        },
        HostValue::Datetime(_) => Err("Unsupported toml data type: ".to_owned().concat("date")),
        HostValue::Exotic(tag) => Err(
            "Unsupported toml data type: ".to_owned().concat(tag.as_str()),
        ),
        HostValue::List(v) => {
            let ghost ws = view_list(v@);
            let n = v.len();
            let mut out: Vec<toml_edit::Value> = Vec::new();
            let mut j: usize = 0;
            proof {
                crate::host::lemma_view_list_props(v@);
                assert(value_models(out@) + Seq::<SpecValue>::empty() =~= value_models(out@));
            }
            while j < n
                invariant
                    n == v@.len(),
                    ws == view_list(v@),
                    ws.len() == n,
                    forall|q: int| 0 <= q < n ==> ws[q] == v@[q]@,
                    j <= n,
                    h == &HostValue::List(*v),
                    spec_encode_list_from(ws, j as int) is Ok ==> spec_encode_list_from(ws, 0)
                        == Ok::<_, SpecEncErr>(
                        value_models(out@) + spec_encode_list_from(ws, j as int)->Ok_0,
                    ),
                    spec_encode_list_from(ws, j as int) is Err ==> spec_encode_list_from(ws, 0)
                        == spec_encode_list_from(ws, j as int),
                decreases n - j,
            {
                proof {
                    assert(decreases_to!(*h, 0int => v@[j as int], 0int));
                }
                let c = encode_value(&v[j]);
                match c {
                    Ok(w) => {
                        proof {
                            if spec_encode_list_from(ws, j + 1) is Ok {
                                assert(value_models(out@.push(w)) + spec_encode_list_from(
                                    ws,
                                    j + 1,
                                )->Ok_0 =~= value_models(out@) + (seq![value_model(w)]
                                    + spec_encode_list_from(ws, j + 1)->Ok_0));
                            }
                        }
                        out.push(w);
                    },
                    Err(e) => {
                        return Err(e);
                    },
                }
                j = j + 1;
            }
            proof {
                assert(value_models(out@) + spec_encode_list_from(ws, n as int)->Ok_0
                    =~= value_models(out@));
            }
            Ok(value_from_array(out))
        },
        HostValue::Object(ps) => {
            let ghost ws = view_pairs(ps@);
            let n = ps.len();
            let mut out = inline_new();
            let mut j: usize = 0;
            proof {
                crate::host::lemma_view_pairs_props(ps@);
            }
            while j < n
                invariant
                    n == ps@.len(),
                    ws == view_pairs(ps@),
                    ws.len() == n,
                    forall|q: int| 0 <= q < n ==> ws[q] == (ps@[q].0@, ps@[q].1@),
                    j <= n,
                    h == &HostValue::Object(*ps),
                    spec_encode_pairs_from(ws, j as int, inline_model(out))
                        == spec_encode_pairs_from(ws, 0, Seq::empty()),
                decreases n - j,
            {
                proof {
                    assert(decreases_to!(*h, 0int => ps@[j as int].1, 0int));
                }
                let c = encode_value(&ps[j].1);
                match c {
                    Ok(w) => {
                        inline_insert(&mut out, ps[j].0.as_str(), w);
                    },
                    Err(e) => {
                        return Err(e);
                    },
                }
                j = j + 1;
            }
            Ok(value_from_inline(out))
        },
    }
}

} // verus!
