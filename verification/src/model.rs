//! Mathematical model of a TOML document: items, values, tables, and the
//! dotted-path lookup and update operations that `get` and `set` are specified
//! against.

use vstd::prelude::*;

verus! {

/// Model of a single TOML value: one of the six scalar/container kinds.
/// A float is represented by its IEEE-754 bit pattern; a datetime by its
/// canonical text form.
pub enum SpecValue {
    Str(Seq<char>),
    Int(i64),
    Float(u64),
    Bool(bool),
    Arr(Seq<SpecValue>),
    Datetime(Seq<char>),
    Inline(Seq<(Seq<char>, SpecValue)>),
}

/// Model of anything reachable by a key path: absent, a value, a block table,
/// or an array of block tables. A table is an ordered sequence of key/item
/// pairs with unique keys.
pub enum SpecItem {
    Absent,
    Val(SpecValue),
    Table(Seq<(Seq<char>, SpecItem)>),
    TableArray(Seq<Seq<(Seq<char>, SpecItem)>>),
}

/// Look a key up in a table's entry sequence; first match wins (keys are
/// unique in any table this library builds or reads).
pub open spec fn entries_lookup(es: Seq<(Seq<char>, SpecItem)>, k: Seq<char>) -> Option<SpecItem>
    decreases es.len(),
{
    if es.len() == 0 {
        None
    } else if es[0].0 == k {
        Some(es[0].1)
    } else {
        entries_lookup(es.drop_first(), k)
    }
}

/// Look a key up in an inline table's entry sequence.
pub open spec fn inline_lookup(es: Seq<(Seq<char>, SpecValue)>, k: Seq<char>) -> Option<
    SpecValue,
>
    decreases es.len(),
{
    if es.len() == 0 {
        None
    } else if es[0].0 == k {
        Some(es[0].1)
    } else {
        inline_lookup(es.drop_first(), k)
    }
}

/// One navigation step: a string key resolves inside a block table or inside
/// an inline-table value; every other item kind yields absence.
pub open spec fn item_lookup(m: SpecItem, k: Seq<char>) -> Option<SpecItem> {
    match m {
        SpecItem::Table(es) => entries_lookup(es, k),
        SpecItem::Val(v) => match v {
            SpecValue::Inline(es) => match inline_lookup(es, k) {
                Some(w) => Some(SpecItem::Val(w)),
                None => None,
            },
            _ => None,
        },
        _ => None,
    }
}

/// Resolve the path `segs[idx..]` starting from `m`, one step per segment.
pub open spec fn path_lookup_from(m: SpecItem, segs: Seq<Seq<char>>, idx: int) -> Option<SpecItem>
    decreases segs.len() - idx,
{
    if idx >= segs.len() {
        Some(m)
    } else {
        match item_lookup(m, segs[idx]) {
            Some(c) => path_lookup_from(c, segs, idx + 1),
            None => None,
        }
    }
}

/// Replace the item stored under the first entry whose key is `k`.
pub open spec fn entries_update(
    es: Seq<(Seq<char>, SpecItem)>,
    k: Seq<char>,
    c: SpecItem,
) -> Seq<(Seq<char>, SpecItem)>
    decreases es.len(),
{
    if es.len() == 0 {
        es
    } else if es[0].0 == k {
        seq![(es[0].0, c)] + es.drop_first()
    } else {
        seq![es[0]] + entries_update(es.drop_first(), k, c)
    }
}

/// Replace the value stored under the first entry whose key is `k`.
pub open spec fn inline_update(
    es: Seq<(Seq<char>, SpecValue)>,
    k: Seq<char>,
    w: SpecValue,
) -> Seq<(Seq<char>, SpecValue)>
    decreases es.len(),
{
    if es.len() == 0 {
        es
    } else if es[0].0 == k {
        seq![(es[0].0, w)] + es.drop_first()
    } else {
        seq![es[0]] + inline_update(es.drop_first(), k, w)
    }
}

/// No two table entries share a key.
pub open spec fn entries_keys_unique(es: Seq<(Seq<char>, SpecItem)>) -> bool {
    forall|a: int, b: int| 0 <= a < b < es.len() ==> es[a].0 != es[b].0
}

/// No two inline-table entries share a key.
pub open spec fn inline_keys_unique(es: Seq<(Seq<char>, SpecValue)>) -> bool {
    forall|a: int, b: int| 0 <= a < b < es.len() ==> es[a].0 != es[b].0
}

/// Every table and inline table within the value holds pairwise-distinct
/// keys.
pub open spec fn value_wf(v: SpecValue) -> bool
    decreases v, 0int,
{
    match v {
        SpecValue::Arr(vs) => values_wf_from(vs, 0),
        SpecValue::Inline(es) => inline_keys_unique(es) && ivalues_wf_from(es, 0),
        _ => true,
    }
}

/// Every array element from `idx` on is well-formed.
pub open spec fn values_wf_from(vs: Seq<SpecValue>, idx: int) -> bool
    decreases vs, vs.len() - idx,
{
    if 0 <= idx < vs.len() {
        value_wf(vs[idx]) && values_wf_from(vs, idx + 1)
    } else {
        true
    }
}

/// Every inline-table entry value from `idx` on is well-formed.
pub open spec fn ivalues_wf_from(es: Seq<(Seq<char>, SpecValue)>, idx: int) -> bool
    decreases es, es.len() - idx,
{
    if 0 <= idx < es.len() {
        value_wf(es[idx].1) && ivalues_wf_from(es, idx + 1)
    } else {
        true
    }
}

/// Every table and inline table within the item holds pairwise-distinct
/// keys: the document-model invariant that parsing establishes and every
/// mutation of this library preserves.
pub open spec fn item_wf(m: SpecItem) -> bool
    decreases m, 0int,
{
    match m {
        SpecItem::Absent => true,
        SpecItem::Val(v) => value_wf(v),
        SpecItem::Table(es) => entries_keys_unique(es) && items_wf_from(es, 0),
        SpecItem::TableArray(ts) => tables_wf_from(ts, 0),
    }
}

/// Every table entry's item from `idx` on is well-formed.
pub open spec fn items_wf_from(es: Seq<(Seq<char>, SpecItem)>, idx: int) -> bool
    decreases es, es.len() - idx,
{
    if 0 <= idx < es.len() {
        item_wf(es[idx].1) && items_wf_from(es, idx + 1)
    } else {
        true
    }
}

/// Every table of an array-of-tables from `idx` on has distinct keys and
/// well-formed entries.
pub open spec fn tables_wf_from(ts: Seq<Seq<(Seq<char>, SpecItem)>>, idx: int) -> bool
    decreases ts, ts.len() - idx,
{
    if 0 <= idx < ts.len() {
        entries_keys_unique(ts[idx]) && items_wf_from(ts[idx], 0) && tables_wf_from(ts, idx + 1)
    } else {
        true
    }
}

/// Each entry's item is well-formed, one index at a time.
pub proof fn lemma_items_wf_index(es: Seq<(Seq<char>, SpecItem)>, idx: int, j: int)
    requires
        0 <= idx <= j < es.len(),
        items_wf_from(es, idx),
    ensures
        item_wf(es[j].1),
    decreases j - idx,
{
    if idx < j {
        lemma_items_wf_index(es, idx + 1, j);
    }
}

/// Pointwise well-formedness of the entries gives `items_wf_from`.
pub proof fn lemma_items_wf_build(es: Seq<(Seq<char>, SpecItem)>, idx: int)
    requires
        0 <= idx <= es.len(),
        forall|j: int| idx <= j < es.len() ==> item_wf(#[trigger] es[j].1),
    ensures
        items_wf_from(es, idx),
    decreases es.len() - idx,
{
    if idx < es.len() {
        lemma_items_wf_build(es, idx + 1);
    }
}

/// Each inline entry's value is well-formed, one index at a time.
pub proof fn lemma_ivalues_wf_index(es: Seq<(Seq<char>, SpecValue)>, idx: int, j: int)
    requires
        0 <= idx <= j < es.len(),
        ivalues_wf_from(es, idx),
    ensures
        value_wf(es[j].1),
    decreases j - idx,
{
    if idx < j {
        lemma_ivalues_wf_index(es, idx + 1, j);
    }
}

/// Pointwise well-formedness of the entry values gives `ivalues_wf_from`.
pub proof fn lemma_ivalues_wf_build(es: Seq<(Seq<char>, SpecValue)>, idx: int)
    requires
        0 <= idx <= es.len(),
        forall|j: int| idx <= j < es.len() ==> value_wf(#[trigger] es[j].1),
    ensures
        ivalues_wf_from(es, idx),
    decreases es.len() - idx,
{
    if idx < es.len() {
        lemma_ivalues_wf_build(es, idx + 1);
    }
}

/// Pointwise well-formedness of the elements gives `values_wf_from`.
pub proof fn lemma_values_wf_build(vs: Seq<SpecValue>, idx: int)
    requires
        0 <= idx <= vs.len(),
        forall|j: int| idx <= j < vs.len() ==> value_wf(#[trigger] vs[j]),
    ensures
        values_wf_from(vs, idx),
    decreases vs.len() - idx,
{
    if idx < vs.len() {
        lemma_values_wf_build(vs, idx + 1);
    }
}

/// A successful lookup returns the item of some entry with the looked-up
/// key; a failed one means no entry has it.
pub proof fn lemma_entries_lookup_index(es: Seq<(Seq<char>, SpecItem)>, k: Seq<char>)
    ensures
        entries_lookup(es, k) is Some ==> exists|j: int|
            0 <= j < es.len() && es[j].0 == k && entries_lookup(es, k)->Some_0 == #[trigger] es[j].1,
        entries_lookup(es, k) is None ==> forall|j: int| 0 <= j < es.len() ==> (#[trigger] es[j]).0
            != k,
    decreases es.len(),
{
    if es.len() == 0 {
    } else if es[0].0 == k {
        assert(es[0].0 == k && entries_lookup(es, k)->Some_0 == es[0].1);
    } else {
        let t = es.drop_first();
        lemma_entries_lookup_index(t, k);
        assert(forall|j: int| 1 <= j < es.len() ==> #[trigger] es[j] == t[j - 1]);
        if entries_lookup(es, k) is Some {
            let j = choose|j: int|
                0 <= j < t.len() && t[j].0 == k && entries_lookup(t, k)->Some_0 == #[trigger] t[j].1;
            assert(es[j + 1].0 == k && entries_lookup(es, k)->Some_0 == es[j + 1].1);
        } else {
            assert forall|j: int| 0 <= j < es.len() implies (#[trigger] es[j]).0 != k by {
                if j >= 1 {
                    assert(es[j] == t[j - 1]);
                    assert(t[j - 1].0 != k);
                }
            }
        }
    }
}

/// The inline-table version of `lemma_entries_lookup_index`.
pub proof fn lemma_inline_lookup_index(es: Seq<(Seq<char>, SpecValue)>, k: Seq<char>)
    ensures
        inline_lookup(es, k) is Some ==> exists|j: int|
            0 <= j < es.len() && es[j].0 == k && inline_lookup(es, k)->Some_0 == #[trigger] es[j].1,
        inline_lookup(es, k) is None ==> forall|j: int| 0 <= j < es.len() ==> (#[trigger] es[j]).0
            != k,
    decreases es.len(),
{
    if es.len() == 0 {
    } else if es[0].0 == k {
        assert(es[0].0 == k && inline_lookup(es, k)->Some_0 == es[0].1);
    } else {
        let t = es.drop_first();
        lemma_inline_lookup_index(t, k);
        assert(forall|j: int| 1 <= j < es.len() ==> #[trigger] es[j] == t[j - 1]);
        if inline_lookup(es, k) is Some {
            let j = choose|j: int|
                0 <= j < t.len() && t[j].0 == k && inline_lookup(t, k)->Some_0 == #[trigger] t[j].1;
            assert(es[j + 1].0 == k && inline_lookup(es, k)->Some_0 == es[j + 1].1);
        } else {
            assert forall|j: int| 0 <= j < es.len() implies (#[trigger] es[j]).0 != k by {
                if j >= 1 {
                    assert(es[j] == t[j - 1]);
                    assert(t[j - 1].0 != k);
                }
            }
        }
    }
}

/// An update keeps every key in place and changes at most the entry items,
/// each either kept or replaced by `c`.
pub proof fn lemma_entries_update_keys(es: Seq<(Seq<char>, SpecItem)>, k: Seq<char>, c: SpecItem)
    ensures
        entries_update(es, k, c).len() == es.len(),
        forall|j: int| 0 <= j < es.len() ==> (#[trigger] entries_update(es, k, c)[j]).0 == es[j].0,
        forall|j: int| 0 <= j < es.len() ==> (#[trigger] entries_update(es, k, c)[j]).1 == es[j].1
            || entries_update(es, k, c)[j].1 == c,
    decreases es.len(),
{
    if es.len() == 0 {
    } else if es[0].0 == k {
        let up = entries_update(es, k, c);
        assert(forall|j: int| 1 <= j < es.len() ==> #[trigger] up[j] == es.drop_first()[j - 1]
            && up[j] == es[j]);
    } else {
        lemma_entries_update_keys(es.drop_first(), k, c);
        let up = entries_update(es, k, c);
        let ut = entries_update(es.drop_first(), k, c);
        assert(forall|j: int| 1 <= j < es.len() ==> #[trigger] up[j] == ut[j - 1]
            && es.drop_first()[j - 1] == es[j]);
    }
}

/// The inline-table version of `lemma_entries_update_keys`.
pub proof fn lemma_inline_update_keys(es: Seq<(Seq<char>, SpecValue)>, k: Seq<char>, w: SpecValue)
    ensures
        inline_update(es, k, w).len() == es.len(),
        forall|j: int| 0 <= j < es.len() ==> (#[trigger] inline_update(es, k, w)[j]).0 == es[j].0,
        forall|j: int| 0 <= j < es.len() ==> (#[trigger] inline_update(es, k, w)[j]).1 == es[j].1
            || inline_update(es, k, w)[j].1 == w,
    decreases es.len(),
{
    if es.len() == 0 {
    } else if es[0].0 == k {
        let up = inline_update(es, k, w);
        assert(forall|j: int| 1 <= j < es.len() ==> #[trigger] up[j] == es.drop_first()[j - 1]
            && up[j] == es[j]);
    } else {
        lemma_inline_update_keys(es.drop_first(), k, w);
        let up = inline_update(es, k, w);
        let ut = inline_update(es.drop_first(), k, w);
        assert(forall|j: int| 1 <= j < es.len() ==> #[trigger] up[j] == ut[j - 1]
            && es.drop_first()[j - 1] == es[j]);
    }
}

/// One update step preserves the document-model invariant when the new
/// child satisfies it.
pub proof fn lemma_item_update_wf(m: SpecItem, k: Seq<char>, c: SpecItem)
    requires
        item_wf(m),
        item_wf(c),
    ensures
        item_wf(item_update(m, k, c)),
{
    match m {
        SpecItem::Table(es) => {
            lemma_entries_update_keys(es, k, c);
            let up = entries_update(es, k, c);
            assert forall|j: int| 0 <= j < up.len() implies item_wf(#[trigger] up[j].1) by {
                if up[j].1 == es[j].1 {
                    lemma_items_wf_index(es, 0, j);
                }
            }
            lemma_items_wf_build(up, 0);
        },
        SpecItem::Val(v) => match v {
            SpecValue::Inline(es) => {
                if c is Val {
                    let w = c->Val_0;
                    lemma_inline_update_keys(es, k, w);
                    let up = inline_update(es, k, w);
                    assert forall|j: int| 0 <= j < up.len() implies value_wf(
                        #[trigger] up[j].1,
                    ) by {
                        if up[j].1 == es[j].1 {
                            lemma_ivalues_wf_index(es, 0, j);
                        }
                    }
                    lemma_ivalues_wf_build(up, 0);
                }
            },
            _ => {},
        },
        _ => {},
    }
}

/// Writing a well-formed value along a resolvable path preserves the
/// document-model invariant: tables never come to hold duplicate keys.
pub proof fn lemma_path_update_wf(m: SpecItem, segs: Seq<Seq<char>>, idx: int, v: SpecValue)
    requires
        0 <= idx <= segs.len(),
        item_wf(m),
        value_wf(v),
        path_lookup_from(m, segs, idx) is Some,
    ensures
        item_wf(path_update_from(m, segs, idx, v)),
    decreases segs.len() - idx,
{
    if idx >= segs.len() {
    } else {
        let c = item_lookup(m, segs[idx])->Some_0;
        match m {
            SpecItem::Table(es) => {
                lemma_entries_lookup_index(es, segs[idx]);
                let j = choose|j: int|
                    0 <= j < es.len() && es[j].0 == segs[idx] && entries_lookup(
                        es,
                        segs[idx],
                    )->Some_0 == #[trigger] es[j].1;
                lemma_items_wf_index(es, 0, j);
            },
            SpecItem::Val(w) => match w {
                SpecValue::Inline(es) => {
                    lemma_inline_lookup_index(es, segs[idx]);
                    let j = choose|j: int|
                        0 <= j < es.len() && es[j].0 == segs[idx] && inline_lookup(
                            es,
                            segs[idx],
                        )->Some_0 == #[trigger] es[j].1;
                    lemma_ivalues_wf_index(es, 0, j);
                },
                _ => {},
            },
            _ => {},
        }
        lemma_path_update_wf(c, segs, idx + 1, v);
        lemma_item_update_wf(m, segs[idx], path_update_from(c, segs, idx + 1, v));
    }
}

/// Insert into an inline table's entries the way an ordered map does: an
/// existing key keeps its position and receives the new value, a new key is
/// appended at the end.
pub open spec fn inline_insert_pair(
    es: Seq<(Seq<char>, SpecValue)>,
    k: Seq<char>,
    w: SpecValue,
) -> Seq<(Seq<char>, SpecValue)> {
    if inline_lookup(es, k) is Some {
        inline_update(es, k, w)
    } else {
        es.push((k, w))
    }
}

/// One mutation step: replace the child reachable from `m` under key `k` by
/// `c`. Only the item kinds that `item_lookup` can see into are changed; when
/// the child slot sits in an inline table, only a value-carrying `c` fits and
/// anything else leaves `m` as it is.
pub open spec fn item_update(m: SpecItem, k: Seq<char>, c: SpecItem) -> SpecItem {
    match m {
        SpecItem::Table(es) => SpecItem::Table(entries_update(es, k, c)),
        SpecItem::Val(v) => match v {
            SpecValue::Inline(es) => match c {
                SpecItem::Val(w) => SpecItem::Val(SpecValue::Inline(inline_update(es, k, w))),
                _ => m,
            },
            _ => m,
        },
        _ => m,
    }
}

/// Write `v` at the end of the path `segs[idx..]` below `m`, re-walking the
/// same steps as `path_lookup_from`. When the whole path is consumed the
/// located slot becomes a bare value item.
pub open spec fn path_update_from(
    m: SpecItem,
    segs: Seq<Seq<char>>,
    idx: int,
    v: SpecValue,
) -> SpecItem
    decreases segs.len() - idx,
{
    if idx >= segs.len() {
        SpecItem::Val(v)
    } else {
        match item_lookup(m, segs[idx]) {
            Some(c) => item_update(m, segs[idx], path_update_from(c, segs, idx + 1, v)),
            None => m,
        }
    }
}

/// A value item stays a value item under any path update: updates either
/// replace the slot by a bare value or rebuild the same constructor.
pub proof fn lemma_path_update_keeps_val(m: SpecItem, segs: Seq<Seq<char>>, idx: int, v: SpecValue)
    requires
        m is Val,
    ensures
        path_update_from(m, segs, idx, v) is Val,
    decreases segs.len() - idx,
{
    if idx >= segs.len() {
    } else {
        match item_lookup(m, segs[idx]) {
            Some(c) => {
            },
            None => {},
        }
    }
}

/// Updating a table's entries never changes which keys are present, nor the
/// item under any other key.
pub proof fn lemma_entries_update_lookup(
    es: Seq<(Seq<char>, SpecItem)>,
    k: Seq<char>,
    c: SpecItem,
    q: Seq<char>,
)
    ensures
        entries_lookup(es, k) is Some ==> entries_lookup(entries_update(es, k, c), k) == Some(c),
        q != k ==> entries_lookup(entries_update(es, k, c), q) == entries_lookup(es, q),
    decreases es.len(),
{
    if es.len() == 0 {
    } else if es[0].0 == k {
        let up = entries_update(es, k, c);
        assert(up == seq![(es[0].0, c)] + es.drop_first());
        assert(up[0] == (es[0].0, c));
        assert(up.drop_first() =~= es.drop_first());
    } else {
        let up = entries_update(es, k, c);
        assert(up == seq![es[0]] + entries_update(es.drop_first(), k, c));
        assert(up[0] == es[0]);
        assert(up.drop_first() =~= entries_update(es.drop_first(), k, c));
        lemma_entries_update_lookup(es.drop_first(), k, c, q);
    }
}

/// The inline-table version of `lemma_entries_update_lookup`.
pub proof fn lemma_inline_update_lookup(
    es: Seq<(Seq<char>, SpecValue)>,
    k: Seq<char>,
    w: SpecValue,
    q: Seq<char>,
)
    ensures
        inline_lookup(es, k) is Some ==> inline_lookup(inline_update(es, k, w), k) == Some(w),
        q != k ==> inline_lookup(inline_update(es, k, w), q) == inline_lookup(es, q),
    decreases es.len(),
{
    if es.len() == 0 {
    } else if es[0].0 == k {
        let up = inline_update(es, k, w);
        assert(up == seq![(es[0].0, w)] + es.drop_first());
        assert(up[0] == (es[0].0, w));
        assert(up.drop_first() =~= es.drop_first());
    } else {
        let up = inline_update(es, k, w);
        assert(up == seq![es[0]] + inline_update(es.drop_first(), k, w));
        assert(up[0] == es[0]);
        assert(up.drop_first() =~= inline_update(es.drop_first(), k, w));
        lemma_inline_update_lookup(es.drop_first(), k, w, q);
    }
}

/// Updating the same key twice is the same as performing the second update
/// alone.
pub proof fn lemma_entries_update_twice(
    es: Seq<(Seq<char>, SpecItem)>,
    k: Seq<char>,
    a: SpecItem,
    b: SpecItem,
)
    ensures
        entries_update(entries_update(es, k, a), k, b) == entries_update(es, k, b),
    decreases es.len(),
{
    if es.len() == 0 {
        assert(entries_update(entries_update(es, k, a), k, b) =~= entries_update(es, k, b));
    } else if es[0].0 == k {
        let u1 = entries_update(es, k, a);
        assert(u1 == seq![(es[0].0, a)] + es.drop_first());
        assert(u1[0] == (es[0].0, a));
        assert(u1.drop_first() =~= es.drop_first());
        assert(entries_update(u1, k, b) == seq![(u1[0].0, b)] + u1.drop_first());
        assert(entries_update(u1, k, b) =~= entries_update(es, k, b));
    } else {
        let u1 = entries_update(es, k, a);
        assert(u1 == seq![es[0]] + entries_update(es.drop_first(), k, a));
        assert(u1[0] == es[0]);
        assert(u1.drop_first() =~= entries_update(es.drop_first(), k, a));
        lemma_entries_update_twice(es.drop_first(), k, a, b);
        assert(entries_update(u1, k, b) == seq![u1[0]] + entries_update(u1.drop_first(), k, b));
        assert(entries_update(u1, k, b) =~= entries_update(es, k, b));
    }
}

/// The inline-table version of `lemma_entries_update_twice`.
pub proof fn lemma_inline_update_twice(
    es: Seq<(Seq<char>, SpecValue)>,
    k: Seq<char>,
    a: SpecValue,
    b: SpecValue,
)
    ensures
        inline_update(inline_update(es, k, a), k, b) == inline_update(es, k, b),
    decreases es.len(),
{
    if es.len() == 0 {
        assert(inline_update(inline_update(es, k, a), k, b) =~= inline_update(es, k, b));
    } else if es[0].0 == k {
        let u1 = inline_update(es, k, a);
        assert(u1 == seq![(es[0].0, a)] + es.drop_first());
        assert(u1[0] == (es[0].0, a));
        assert(u1.drop_first() =~= es.drop_first());
        assert(inline_update(u1, k, b) == seq![(u1[0].0, b)] + u1.drop_first());
        assert(inline_update(u1, k, b) =~= inline_update(es, k, b));
    } else {
        let u1 = inline_update(es, k, a);
        assert(u1 == seq![es[0]] + inline_update(es.drop_first(), k, a));
        assert(u1[0] == es[0]);
        assert(u1.drop_first() =~= inline_update(es.drop_first(), k, a));
        lemma_inline_update_twice(es.drop_first(), k, a, b);
        assert(inline_update(u1, k, b) == seq![u1[0]] + inline_update(u1.drop_first(), k, b));
        assert(inline_update(u1, k, b) =~= inline_update(es, k, b));
    }
}

/// The item-level version of the double-update collapse.
pub proof fn lemma_item_update_twice(m: SpecItem, k: Seq<char>, a: SpecItem, b: SpecItem)
    requires
        m is Val ==> a is Val && b is Val,
    ensures
        item_update(item_update(m, k, a), k, b) == item_update(m, k, b),
{
    match m {
        SpecItem::Table(es) => {
            lemma_entries_update_twice(es, k, a, b);
        },
        SpecItem::Val(v) => match v {
            SpecValue::Inline(es) => {
                lemma_inline_update_twice(es, k, a->Val_0, b->Val_0);
            },
            _ => {},
        },
        _ => {},
    }
}

/// The first segment along `segs[idx..]` that fails to resolve below `m`;
/// meaningful only when the whole path does not resolve.
pub open spec fn missing_seg(m: SpecItem, segs: Seq<Seq<char>>, idx: int) -> Seq<char>
    decreases segs.len() - idx,
{
    if idx < 0 || idx >= segs.len() {
        Seq::empty()
    } else {
        match item_lookup(m, segs[idx]) {
            None => segs[idx],
            Some(c) => missing_seg(c, segs, idx + 1),
        }
    }
}

/// A single update step keeps the updated key reachable and leaves every
/// other key's child untouched.
pub proof fn lemma_item_update_lookup(m: SpecItem, k: Seq<char>, c: SpecItem, q: Seq<char>)
    requires
        item_lookup(m, k) is Some,
        m is Val ==> c is Val,
    ensures
        item_lookup(item_update(m, k, c), k) == Some(c),
        q != k ==> item_lookup(item_update(m, k, c), q) == item_lookup(m, q),
{
    match m {
        SpecItem::Table(es) => {
            lemma_entries_update_lookup(es, k, c, q);
        },
        SpecItem::Val(v) => match v {
            SpecValue::Inline(es) => {
                lemma_inline_update_lookup(es, k, c->Val_0, q);
            },
            _ => {},
        },
        _ => {},
    }
}

/// Writing along a resolvable path puts exactly the written value at that
/// path: looking the same path up afterwards finds it.
pub proof fn lemma_path_update_lookup(m: SpecItem, segs: Seq<Seq<char>>, idx: int, v: SpecValue)
    requires
        0 <= idx <= segs.len(),
        path_lookup_from(m, segs, idx) is Some,
    ensures
        path_lookup_from(path_update_from(m, segs, idx, v), segs, idx) == Some(
            SpecItem::Val(v),
        ),
    decreases segs.len() - idx,
{
    if idx >= segs.len() {
    } else {
        let c = item_lookup(m, segs[idx])->Some_0;
        let c2 = path_update_from(c, segs, idx + 1, v);
        if m is Val {
            lemma_path_update_keeps_val(c, segs, idx + 1, v);
        }
        lemma_item_update_lookup(m, segs[idx], c2, segs[idx]);
        lemma_path_update_lookup(c, segs, idx + 1, v);
    }
}

/// Writing along a path starting with segment `k0` leaves the item under any
/// other top-level key exactly as it was.
pub proof fn lemma_path_update_other_key(
    m: SpecItem,
    segs: Seq<Seq<char>>,
    idx: int,
    v: SpecValue,
    q: Seq<char>,
)
    requires
        0 <= idx < segs.len(),
        path_lookup_from(m, segs, idx) is Some,
        q != segs[idx],
        m is Val ==> path_update_from(item_lookup(m, segs[idx])->Some_0, segs, idx + 1, v) is Val,
    ensures
        item_lookup(path_update_from(m, segs, idx, v), q) == item_lookup(m, q),
{
    let c = item_lookup(m, segs[idx])->Some_0;
    let c2 = path_update_from(c, segs, idx + 1, v);
    lemma_item_update_lookup(m, segs[idx], c2, q);
}

} // verus!
