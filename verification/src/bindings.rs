//! The boundary to the underlying TOML document-model library (`toml_edit`).
//! Every item here is trusted: each wrapper's contract states, over the
//! uninterpreted model functions below, what the wrapped call does, as the
//! library's source shows it. The rest of this crate is verified against
//! these contracts alone.

use vstd::prelude::*;
use crate::model::SpecItem;
use crate::model::SpecValue;
use crate::model::item_lookup;
use crate::model::item_update;
use crate::model::inline_insert_pair;
use std::str::FromStr;

verus! {

#[verifier::external_type_specification]
#[verifier::external_body]
pub struct ExDocumentMut(toml_edit::DocumentMut);

#[verifier::external_type_specification]
#[verifier::external_body]
pub struct ExItem(toml_edit::Item);

#[verifier::external_type_specification]
#[verifier::external_body]
pub struct ExValue(toml_edit::Value);

#[verifier::external_type_specification]
#[verifier::external_body]
pub struct ExTable(toml_edit::Table);

#[verifier::external_type_specification]
#[verifier::external_body]
pub struct ExInlineTable(toml_edit::InlineTable);

#[verifier::external_type_specification]
#[verifier::external_body]
pub struct ExArray(toml_edit::Array);

#[verifier::external_type_specification]
#[verifier::external_body]
pub struct ExArrayOfTables(toml_edit::ArrayOfTables);

/// What a document's root item holds.
pub uninterp spec fn doc_item(d: toml_edit::DocumentMut) -> SpecItem;

/// The text a document serializes to.
pub uninterp spec fn doc_text(d: toml_edit::DocumentMut) -> Seq<char>;

/// What an item holds.
pub uninterp spec fn item_model(i: toml_edit::Item) -> SpecItem;

/// What a value holds.
pub uninterp spec fn value_model(v: toml_edit::Value) -> SpecValue;

/// The visible (non-empty) key/item entries a table holds, in order.
pub uninterp spec fn table_model(t: toml_edit::Table) -> Seq<(Seq<char>, SpecItem)>;

/// The visible key/value entries an inline table holds, in order. The
/// inline-table contracts below describe inline tables as this crate
/// reaches them — parsed from text, or built by `inline_new` and
/// `inline_insert` — whose slots all carry values. An inline table holding
/// a placeholder or block-table item, which the underlying library's wider
/// API could build, is outside these contracts.
pub uninterp spec fn inline_model(t: toml_edit::InlineTable) -> Seq<(Seq<char>, SpecValue)>;

/// The values an array holds, in order.
pub uninterp spec fn arr_model(a: toml_edit::Array) -> Seq<SpecValue>;

/// The tables an array-of-tables holds, in order, each as its entries.
pub uninterp spec fn aot_model(a: toml_edit::ArrayOfTables) -> Seq<Seq<(Seq<char>, SpecItem)>>;

/// The root item that parsing a text yields, or `None` when the text is not
/// valid TOML. Parsing is a function of the text alone.
pub uninterp spec fn spec_parse(s: Seq<char>) -> Option<SpecItem>;

/// The parser's diagnostic for a text that is not valid TOML: a function of
/// the text alone.
pub uninterp spec fn parse_diag(s: Seq<char>) -> Seq<char>;

/// A text with a leading UTF-8 byte-order mark dropped: the lexer skips the
/// mark before tokenizing, so it does not survive serialization.
pub open spec fn bom_stripped(s: Seq<char>) -> Seq<char> {
    if s.len() > 0 && s[0] == '\u{feff}' {
        s.drop_first()
    } else {
        s
    }
}

/// Whether the 64-bit float with this bit pattern is a NaN: all exponent
/// bits set and a non-zero mantissa.
pub open spec fn is_nan_bits(b: u64) -> bool {
    (b >> 52) & 0x7ff == 0x7ff && b & 0xfffffffffffff != 0
}

/// The decimal rendering of the 64-bit float with the given bit pattern, as
/// `format!("{:?}")` produces it: a function of the bits alone.
pub uninterp spec fn float_bits_text(bits: u64) -> Seq<char>;

/// The bit pattern of the float that the given text denotes in TOML float
/// syntax, or `None` when the text is not a TOML float.
pub uninterp spec fn float_text_bits(s: Seq<char>) -> Option<u64>;

/// Relies on `DocumentMut::from_str`: parses TOML text, preserving the
/// original text exactly but for a leading byte-order mark, which the lexer
/// skips (re-serializing an untouched document returns its input without
/// that mark), and surfaces the parser's diagnostic on failure. Tables and
/// inline tables of a parsed document are backed by an ordered map, so no
/// table ever holds two entries with the same key.
#[verifier::external_body]
pub(crate) fn parse_document(s: &str) -> (r: Result<toml_edit::DocumentMut, String>)
    ensures
        r is Ok <==> spec_parse(s@) is Some,
        r is Ok ==> doc_item(r->Ok_0) == spec_parse(s@)->Some_0,
        r is Ok ==> doc_item(r->Ok_0) is Table,
        r is Ok ==> crate::model::item_wf(doc_item(r->Ok_0)),
        r is Ok ==> doc_text(r->Ok_0) == bom_stripped(s@),
        r is Err ==> r->Err_0@ == parse_diag(s@),
{
    toml_edit::DocumentMut::from_str(s).map_err(|e| e.to_string())
}

/// Relies on `DocumentMut`'s `Display`: serializes the document. Display
/// dereferences into the root as a table and panics otherwise, so a
/// non-table root is excluded.
#[verifier::external_body]
pub(crate) fn document_text(d: &toml_edit::DocumentMut) -> (r: String)
    requires
        doc_item(*d) is Table,
    ensures
        r@ == doc_text(*d),
{
    d.to_string()
}

/// Relies on `DocumentMut::as_item`: a view of the root item.
#[verifier::external_body]
pub(crate) fn doc_root<'a>(d: &'a toml_edit::DocumentMut) -> (r: &'a toml_edit::Item)
    ensures
        item_model(*r) == doc_item(*d),
{
    d.as_item()
}

/// Relies on `DocumentMut::as_item_mut`: replaces the root item, returning
/// the old one. Serialized text of the changed document is left unspecified.
#[verifier::external_body]
pub(crate) fn doc_swap_root(d: &mut toml_edit::DocumentMut, new: toml_edit::Item) -> (r: toml_edit::Item)
    ensures
        item_model(r) == doc_item(*old(d)),
        doc_item(*final(d)) == item_model(new),
{
    std::mem::replace(d.as_item_mut(), new)
}

/// Relies on `Item::get` with a string key: resolves inside a block table or
/// an inline-table value, skipping empty placeholder entries, and yields
/// nothing for every other item kind.
#[verifier::external_body]
pub(crate) fn item_get<'a>(i: &'a toml_edit::Item, k: &str) -> (r: Option<&'a toml_edit::Item>)
    ensures
        r is Some <==> item_lookup(item_model(*i), k@) is Some,
        r is Some ==> item_model(*r->Some_0) == item_lookup(item_model(*i), k@)->Some_0,
{
    i.get(k)
}

/// Relies on `Item::get_mut` with a string key plus `core::mem::replace`:
/// for a key that is already present it reaches the existing slot without
/// restructuring anything, and the slot's item is exchanged for `new`.
/// Absent keys are excluded: on those `get_mut` would insert a placeholder.
/// An inline-table slot may only receive a value-carrying item, and `new`
/// may not be the empty placeholder item: a placeholder would vanish from
/// the visible entries instead of standing as a child.
#[verifier::external_body]
pub(crate) fn item_swap(i: &mut toml_edit::Item, k: &str, new: toml_edit::Item) -> (r:
    toml_edit::Item)
    requires
        item_lookup(item_model(*old(i)), k@) is Some,
        item_model(*old(i)) is Val ==> item_model(new) is Val,
        !(item_model(new) is Absent),
    ensures
        item_model(r) == item_lookup(item_model(*old(i)), k@)->Some_0,
        item_model(*final(i)) == item_update(item_model(*old(i)), k@, item_model(new)),
{
    match i.get_mut(k) {
        Some(slot) => core::mem::replace(slot, new),
        None => new,
    }
}

/// Relies on `Item::as_value`.
#[verifier::external_body]
pub(crate) fn item_as_value<'a>(i: &'a toml_edit::Item) -> (r: Option<&'a toml_edit::Value>)
    ensures
        r is Some <==> item_model(*i) is Val,
        r is Some ==> value_model(*r->Some_0) == item_model(*i)->Val_0,
{
    i.as_value()
}

/// Relies on `Item::as_table`.
#[verifier::external_body]
pub(crate) fn item_as_table<'a>(i: &'a toml_edit::Item) -> (r: Option<&'a toml_edit::Table>)
    ensures
        r is Some <==> item_model(*i) is Table,
        r is Some ==> table_model(*r->Some_0) == item_model(*i)->Table_0,
{
    i.as_table()
}

/// Relies on `Item::as_array_of_tables`.
#[verifier::external_body]
pub(crate) fn item_as_aot<'a>(i: &'a toml_edit::Item) -> (r: Option<&'a toml_edit::ArrayOfTables>)
    ensures
        r is Some <==> item_model(*i) is TableArray,
        r is Some ==> aot_model(*r->Some_0) == item_model(*i)->TableArray_0,
{
    i.as_array_of_tables()
}

/// Relies on `Value::as_str`.
#[verifier::external_body]
pub(crate) fn value_as_str<'a>(v: &'a toml_edit::Value) -> (r: Option<&'a str>)
    ensures
        r is Some <==> value_model(*v) is Str,
        r is Some ==> r->Some_0@ == value_model(*v)->Str_0,
{
    v.as_str()
}

/// Relies on `Value::as_integer`.
#[verifier::external_body]
pub(crate) fn value_as_integer(v: &toml_edit::Value) -> (r: Option<i64>)
    ensures
        r is Some <==> value_model(*v) is Int,
        r is Some ==> r->Some_0 == value_model(*v)->Int_0,
{
    v.as_integer()
}

/// Relies on `Value::as_bool`.
#[verifier::external_body]
pub(crate) fn value_as_bool(v: &toml_edit::Value) -> (r: Option<bool>)
    ensures
        r is Some <==> value_model(*v) is Bool,
        r is Some ==> r->Some_0 == value_model(*v)->Bool_0,
{
    v.as_bool()
}

/// Relies on `Value::as_float` and the debug rendering of the result, which
/// depends on the float's bits alone. For every float but a NaN the debug
/// text is itself TOML float syntax denoting the same bits (the rendering
/// round-trips through parsing), so such a text re-encodes to the same
/// value; a NaN renders as text that TOML does not accept.
#[verifier::external_body]
pub(crate) fn value_float_text(v: &toml_edit::Value) -> (r: Option<String>)
    ensures
        r is Some <==> value_model(*v) is Float,
        r is Some ==> r->Some_0@ == float_bits_text(value_model(*v)->Float_0),
        r is Some && !is_nan_bits(value_model(*v)->Float_0) ==> float_text_bits(r->Some_0@)
            == Some(value_model(*v)->Float_0),
{
    match v.as_float() {
        Some(x) => Some(format!("{x:?}")),
        None => None,
    }
}

/// Relies on `Value::as_datetime` and the datetime's canonical `Display`
/// rendering, a function of the datetime value alone.
#[verifier::external_body]
pub(crate) fn value_datetime_text(v: &toml_edit::Value) -> (r: Option<String>)
    ensures
        r is Some <==> value_model(*v) is Datetime,
        r is Some ==> r->Some_0@ == value_model(*v)->Datetime_0,
{
    match v.as_datetime() {
        Some(d) => Some(d.to_string()),
        None => None,
    }
}

/// Relies on `Value::as_array`.
#[verifier::external_body]
pub(crate) fn value_as_array<'a>(v: &'a toml_edit::Value) -> (r: Option<&'a toml_edit::Array>)
    ensures
        r is Some <==> value_model(*v) is Arr,
        r is Some ==> arr_model(*r->Some_0) == value_model(*v)->Arr_0,
{
    v.as_array()
}

/// Relies on `Value::as_inline_table`.
#[verifier::external_body]
pub(crate) fn value_as_inline<'a>(v: &'a toml_edit::Value) -> (r: Option<&'a toml_edit::InlineTable>)
    ensures
        r is Some <==> value_model(*v) is Inline,
        r is Some ==> inline_model(*r->Some_0) == value_model(*v)->Inline_0,
{
    v.as_inline_table()
}

/// Relies on `Table::len`: the number of visible entries.
#[verifier::external_body]
pub(crate) fn table_len(t: &toml_edit::Table) -> (r: usize)
    ensures
        r == table_model(*t).len(),
{
    t.len()
}

/// Relies on `Table::iter`: the visible entries in order.
#[verifier::external_body]
pub(crate) fn table_entry_at<'a>(t: &'a toml_edit::Table, idx: usize) -> (r: Option<
    (String, &'a toml_edit::Item),
>)
    ensures
        r is Some <==> idx < table_model(*t).len(),
        r is Some ==> r->Some_0.0@ == table_model(*t)[idx as int].0,
        r is Some ==> item_model(*r->Some_0.1) == table_model(*t)[idx as int].1,
{
    t.iter().nth(idx).map(|(k, v)| (k.to_owned(), v))
}

/// Relies on `InlineTable::len`.
#[verifier::external_body]
pub(crate) fn inline_len(t: &toml_edit::InlineTable) -> (r: usize)
    ensures
        r == inline_model(*t).len(),
{
    t.len()
}

/// Relies on `InlineTable::iter`: the visible entries in order.
#[verifier::external_body]
pub(crate) fn inline_entry_at<'a>(t: &'a toml_edit::InlineTable, idx: usize) -> (r: Option<
    (String, &'a toml_edit::Value),
>)
    ensures
        r is Some <==> idx < inline_model(*t).len(),
        r is Some ==> r->Some_0.0@ == inline_model(*t)[idx as int].0,
        r is Some ==> value_model(*r->Some_0.1) == inline_model(*t)[idx as int].1,
{
    t.iter().nth(idx).map(|(k, v)| (k.to_owned(), v))
}

/// Relies on `Array::iter`: the number of values the array holds.
#[verifier::external_body]
pub(crate) fn arr_len(a: &toml_edit::Array) -> (r: usize)
    ensures
        r == arr_model(*a).len(),
{
    a.iter().count()
}

/// Relies on `Array::iter`: the values in order.
#[verifier::external_body]
pub(crate) fn arr_at<'a>(a: &'a toml_edit::Array, idx: usize) -> (r: Option<&'a toml_edit::Value>)
    ensures
        r is Some <==> idx < arr_model(*a).len(),
        r is Some ==> value_model(*r->Some_0) == arr_model(*a)[idx as int],
{
    a.iter().nth(idx)
}

/// Relies on `ArrayOfTables::iter`: the number of tables.
#[verifier::external_body]
pub(crate) fn aot_len(a: &toml_edit::ArrayOfTables) -> (r: usize)
    ensures
        r == aot_model(*a).len(),
{
    a.iter().count()
}

/// Relies on `ArrayOfTables::iter`: the tables in document order.
#[verifier::external_body]
pub(crate) fn aot_at<'a>(a: &'a toml_edit::ArrayOfTables, idx: usize) -> (r: Option<
    &'a toml_edit::Table,
>)
    ensures
        r is Some <==> idx < aot_model(*a).len(),
        r is Some ==> table_model(*r->Some_0) == aot_model(*a)[idx as int],
{
    a.iter().nth(idx)
}

/// Relies on `Value::from(String)`: a string value holding exactly `s`.
#[verifier::external_body]
pub(crate) fn value_from_string(s: String) -> (r: toml_edit::Value)
    ensures
        value_model(r) == SpecValue::Str(s@),
{
    toml_edit::Value::from(s)
}

/// Relies on `Value::from(i64)`.
#[verifier::external_body]
pub(crate) fn value_from_i64(x: i64) -> (r: toml_edit::Value)
    ensures
        value_model(r) == SpecValue::Int(x),
{
    toml_edit::Value::from(x)
}

/// Relies on `Value::from(bool)`.
#[verifier::external_body]
pub(crate) fn value_from_bool(b: bool) -> (r: toml_edit::Value)
    ensures
        value_model(r) == SpecValue::Bool(b),
{
    toml_edit::Value::from(b)
}

/// Relies on `Value::from_str`: builds a float value from its decimal text,
/// and refuses text that does not denote a TOML float.
#[verifier::external_body]
pub(crate) fn value_parse_float(s: &str) -> (r: Option<toml_edit::Value>)
    ensures
        r is Some <==> float_text_bits(s@) is Some,
        r is Some ==> value_model(r->Some_0) == SpecValue::Float(float_text_bits(s@)->Some_0),
{
    match toml_edit::Value::from_str(s) {
        Ok(v) => {
            if v.is_float() {
                Some(v)
            } else {
                None
            }
        },
        Err(_) => None,
    }
}

/// Relies on `Value::from(Array)` and `Array::from_iter`: an array value
/// holding exactly the given values in order.
#[verifier::external_body]
pub(crate) fn value_from_array(vs: Vec<toml_edit::Value>) -> (r: toml_edit::Value)
    ensures
        value_model(r) == SpecValue::Arr(Seq::new(vs@.len(), |i: int| value_model(vs@[i]))),
{
    toml_edit::Value::Array(vs.into_iter().collect())
}

/// Relies on `InlineTable::new`.
#[verifier::external_body]
pub(crate) fn inline_new() -> (r: toml_edit::InlineTable)
    ensures
        inline_model(r) == Seq::<(Seq<char>, SpecValue)>::empty(),
{
    toml_edit::InlineTable::new()
}

/// Relies on `InlineTable::insert`: an existing key keeps its position and
/// gets the new value; a new key is appended at the end. An invisible
/// placeholder slot under the inserted key would instead become visible at
/// its old position; no such slot exists in the inline tables this crate
/// builds or parses (see `inline_model`).
#[verifier::external_body]
pub(crate) fn inline_insert(t: &mut toml_edit::InlineTable, k: &str, v: toml_edit::Value)
    ensures
        inline_model(*final(t)) == inline_insert_pair(inline_model(*old(t)), k@, value_model(v)),
{
    let _ = t.insert(k, v);
}

/// Relies on `Value::from(InlineTable)`.
#[verifier::external_body]
pub(crate) fn value_from_inline(t: toml_edit::InlineTable) -> (r: toml_edit::Value)
    ensures
        value_model(r) == SpecValue::Inline(inline_model(t)),
{
    toml_edit::Value::from(t)
}

/// Relies on `Item::Value`: wraps a value as an item.
#[verifier::external_body]
pub(crate) fn item_from_value(v: toml_edit::Value) -> (r: toml_edit::Item)
    ensures
        item_model(r) == SpecItem::Val(value_model(v)),
{
    toml_edit::Item::Value(v)
}

} // verus!
