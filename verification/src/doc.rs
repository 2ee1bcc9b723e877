//! The document handle: a parsed TOML document with dotted-path `get` and
//! `set`, serialization, and whole-document export to a host value.

use vstd::prelude::*;
use crate::bindings::bom_stripped;
use crate::bindings::doc_item;
use crate::bindings::doc_root;
use crate::bindings::doc_swap_root;
use crate::bindings::doc_text;
use crate::bindings::document_text;
use crate::bindings::item_from_value;
use crate::bindings::item_get;
use crate::bindings::item_model;
use crate::bindings::item_swap;
use crate::bindings::parse_diag;
use crate::bindings::parse_document;
use crate::bindings::spec_parse;
use crate::bindings::value_from_bool;
use crate::bindings::value_model;
use crate::codec::decode_item;
use crate::codec::enc_err_message;
use crate::codec::encode_value;
use crate::codec::lemma_encode_wf;
use crate::codec::spec_decode_item;
use crate::codec::spec_encode;
use crate::host::HostValue;
use crate::model::SpecItem;
use crate::model::item_lookup;
use crate::model::item_wf;
use crate::model::lemma_path_update_wf;
use crate::model::lemma_item_update_lookup;
use crate::model::lemma_item_update_twice;
use crate::model::lemma_path_update_keeps_val;
use crate::model::missing_seg;
use crate::model::path_lookup_from;
use crate::model::path_update_from;
use crate::path::lemma_spec_split_len;
use crate::path::seq_views;
use crate::path::spec_split;
use crate::path::split_key;
use vstd::string::StringExecFns;

verus! {

/// Why an operation on a document failed.
#[derive(Debug, Clone, PartialEq)]
pub enum DocError {
    /// The text handed to the constructor is not valid TOML; carries the
    /// parser's diagnostic.
    Parse(String),
    /// A `set` path segment does not resolve; carries the missing segment.
    KeyNotFound(String),
    /// The host value handed to `set` has no TOML representation; carries
    /// the reason.
    UnsupportedValue(String),
}

impl DocError {
    /// The human-readable message of this error.
    pub fn message(&self) -> (r: String)
        ensures
            self is Parse ==> r@ == self->Parse_0@,
            self is KeyNotFound ==> r@ == "Couldn't find key: "@ + self->KeyNotFound_0@,
            self is UnsupportedValue ==> r@ == self->UnsupportedValue_0@,
    {
        match self {
            DocError::Parse(m) => m.clone(),
            DocError::KeyNotFound(k) => "Couldn't find key: ".to_owned().concat(k.as_str()),
            DocError::UnsupportedValue(m) => m.clone(),
        }
    }
}

/// A parsed TOML document, mutable in place through dotted key paths.
pub struct TomlDocument {
    toml: toml_edit::DocumentMut,
}

/// Write `val` at the end of the path `segs[idx..]` below `*i`, which the
/// caller has already checked to resolve. Each step exchanges the child out
/// of its slot, recurses on the owned child, and puts it back, so the
/// underlying tree is only ever changed at slots the path names.
fn set_in(i: &mut toml_edit::Item, segs: &Vec<String>, idx: usize, val: toml_edit::Value)
    requires
        idx < segs@.len(),
        path_lookup_from(item_model(*old(i)), seq_views(segs@), idx as int) is Some,
    ensures
        item_model(*final(i)) == path_update_from(
            item_model(*old(i)),
            seq_views(segs@),
            idx as int,
            value_model(val),
        ),
    decreases segs@.len() - idx,
{
    let ghost sv = seq_views(segs@);
    let ghost m0 = item_model(*i);
    let ghost vm = value_model(val);
    proof {
        assert(sv[idx as int] == segs@[idx as int]@);
    }
    if idx == segs.len() - 1 {
        let _ = item_swap(i, segs[idx].as_str(), item_from_value(val));
    } else {
        let ghost c = item_lookup(m0, sv[idx as int])->Some_0;
        let ph = item_from_value(value_from_bool(false));
        let ghost phm = item_model(ph);
        let mut child = item_swap(i, segs[idx].as_str(), ph);
        proof {
            assert(item_model(child) == c);
            assert(path_lookup_from(c, sv, idx + 1) is Some);
        }
        set_in(&mut child, segs, idx + 1, val);
        let ghost c2 = item_model(child);
        proof {
            assert(c2 == path_update_from(c, sv, idx + 1, vm));
            assert(item_lookup(c, sv[idx + 1]) is Some);
            assert(c is Table || c is Val);
            assert(!(c2 is Absent));
            lemma_item_update_lookup(m0, sv[idx as int], phm, sv[idx as int]);
            if m0 is Val {
                lemma_path_update_keeps_val(c, sv, idx + 1, vm);
            }
        }
        let _ = item_swap(i, segs[idx].as_str(), child);
        proof {
            lemma_item_update_twice(m0, sv[idx as int], phm, c2);
        }
    }
}

impl TomlDocument {
    /// The model of this document's root item.
    pub closed spec fn root(self) -> SpecItem {
        doc_item(self.toml)
    }

    /// The text this document serializes to.
    pub closed spec fn text(self) -> Seq<char> {
        doc_text(self.toml)
    }

    /// The document-model invariant: the root is a table, and no table or
    /// inline table anywhere in the document holds two entries with the
    /// same key. Parsing establishes it and every mutation preserves it.
    pub open spec fn wf(self) -> bool {
        self.root() is Table && item_wf(self.root())
    }

    /// Parse a TOML document. Fails exactly on text that is not valid TOML,
    /// with the parser's diagnostic surfaced verbatim; a fresh document
    /// serializes back to the exact text it was parsed from, but for a
    /// leading byte-order mark, which the parser skips.
    pub fn new(toml: &str) -> (r: Result<TomlDocument, DocError>)
        ensures
            r is Ok <==> spec_parse(toml@) is Some,
            r is Ok ==> r->Ok_0.root() == spec_parse(toml@)->Some_0,
            r is Ok ==> r->Ok_0.wf() && r->Ok_0.text() == bom_stripped(toml@),
            r is Err ==> r->Err_0 is Parse && r->Err_0->Parse_0@ == parse_diag(toml@),
    {
        match parse_document(toml) {
            Ok(d) => Ok(TomlDocument { toml: d }),
            Err(m) => Err(DocError::Parse(m)),
        }
    }

    /// Parse a TOML document; the same as the constructor, outcome,
    /// document and diagnostic alike.
    pub fn parse(toml: &str) -> (r: Result<TomlDocument, DocError>)
        ensures
            r is Ok <==> spec_parse(toml@) is Some,
            r is Ok ==> r->Ok_0.root() == spec_parse(toml@)->Some_0,
            r is Ok ==> r->Ok_0.wf() && r->Ok_0.text() == bom_stripped(toml@),
            r is Err ==> r->Err_0 is Parse && r->Err_0->Parse_0@ == parse_diag(toml@),
    {
        Self::new(toml)
    }

    /// Read the value under a dotted key path: the decoded value when every
    /// segment resolves, and no value — never an error — otherwise.
    pub fn get(&self, key: &str) -> (r: Option<HostValue>)
        ensures
            r is Some <==> path_lookup_from(self.root(), spec_split(key@), 0) is Some,
            r is Some ==> r->Some_0@ == spec_decode_item(
                path_lookup_from(self.root(), spec_split(key@), 0)->Some_0,
            ),
    {
        let segs = split_key(key);
        let ghost sv = seq_views(segs@);
        let mut cur: &toml_edit::Item = doc_root(&self.toml);
        let mut idx: usize = 0;
        while idx < segs.len()
            invariant
                idx <= segs@.len(),
                sv == seq_views(segs@),
                sv == spec_split(key@),
                path_lookup_from(self.root(), sv, 0) == path_lookup_from(
                    item_model(*cur),
                    sv,
                    idx as int,
                ),
            decreases segs@.len() - idx,
        {
            proof {
                assert(sv[idx as int] == segs@[idx as int]@);
            }
            match item_get(cur, segs[idx].as_str()) {
                Some(c) => {
                    cur = c;
                },
                None => {
                    return None;
                },
            }
            idx = idx + 1;
        }
        Some(decode_item(cur))
    }

    /// Write a host value at the end of a dotted key path. Every segment of
    /// the path must already resolve — `set` never creates missing keys —
    /// and the value must have a TOML representation; on any failure the
    /// document is left exactly as it was. On success the located slot
    /// becomes a bare value item holding the encoded value. The mutation
    /// touches only the slots the path names, so the underlying model keeps
    /// the formatting of everything else; the contract pins the document's
    /// new model, while the new serialized text is beyond what the trusted
    /// boundary can state and is checked by tests instead.
    pub fn set(&mut self, key: &str, value: &HostValue) -> (r: Result<bool, DocError>)
        requires
            old(self).wf(),
        ensures
            path_lookup_from(old(self).root(), spec_split(key@), 0) is None ==> r is Err
                && r->Err_0 is KeyNotFound && r->Err_0->KeyNotFound_0@ == missing_seg(
                old(self).root(),
                spec_split(key@),
                0,
            ) && *final(self) == *old(self),
            path_lookup_from(old(self).root(), spec_split(key@), 0) is Some && spec_encode(
                value@,
            ) is Err ==> r is Err && r->Err_0 is UnsupportedValue
                && r->Err_0->UnsupportedValue_0@ == enc_err_message(spec_encode(value@)->Err_0)
                && *final(self) == *old(self),
            path_lookup_from(old(self).root(), spec_split(key@), 0) is Some && spec_encode(
                value@,
            ) is Ok ==> r is Ok && r->Ok_0 == true && final(self).root() == path_update_from(
                old(self).root(),
                spec_split(key@),
                0,
                spec_encode(value@)->Ok_0,
            ) && final(self).wf(),
    {
        let segs = split_key(key);
        let ghost sv = seq_views(segs@);
        {
            let mut cur: &toml_edit::Item = doc_root(&self.toml);
            let mut idx: usize = 0;
            while idx < segs.len()
                invariant
                    idx <= segs@.len(),
                    sv == seq_views(segs@),
                    sv == spec_split(key@),
                    path_lookup_from(self.root(), sv, 0) == path_lookup_from(
                        item_model(*cur),
                        sv,
                        idx as int,
                    ),
                    path_lookup_from(self.root(), sv, 0) is None ==> missing_seg(self.root(), sv, 0)
                        == missing_seg(item_model(*cur), sv, idx as int),
                decreases segs@.len() - idx,
            {
                proof {
                    assert(sv[idx as int] == segs@[idx as int]@);
                }
                match item_get(cur, segs[idx].as_str()) {
                    Some(c) => {
                        cur = c;
                    },
                    None => {
                        return Err(DocError::KeyNotFound(segs[idx].clone()));
                    },
                }
                idx = idx + 1;
            }
        }
        let val = match encode_value(value) {
            Ok(v) => v,
            Err(m) => {
                return Err(DocError::UnsupportedValue(m));
            },
        };
        proof {
            lemma_spec_split_len(key@);
            lemma_encode_wf(value@);
            lemma_path_update_wf(
                doc_item(old(self).toml),
                sv,
                0,
                spec_encode(value@)->Ok_0,
            );
        }
        let mut root_item = doc_swap_root(&mut self.toml, item_from_value(value_from_bool(false)));
        set_in(&mut root_item, &segs, 0, val);
        let _ = doc_swap_root(&mut self.toml, root_item);
        Ok(true)
    }

    /// Serialize the document: the canonical text reflecting every mutation
    /// applied so far, with untouched formatting preserved.
    pub fn to_string(&self) -> (r: String)
        requires
            self.wf(),
        ensures
            r@ == self.text(),
    {
        document_text(&self.toml)
    }

    /// Export the whole document as a host value tree rooted at the
    /// document's top-level table.
    pub fn to_object(&self) -> (r: HostValue)
        ensures
            r@ == spec_decode_item(self.root()),
    {
        decode_item(doc_root(&self.toml))
    }

    /// Serializing, re-parsing and serializing again returns the first
    /// serialization exactly — but for a leading byte-order mark, which
    /// serialization does not produce — whenever the re-parse succeeds; the
    /// re-parse succeeds exactly when the serialized text is valid TOML.
    pub fn reserialize(&self) -> (r: Option<String>)
        requires
            self.wf(),
        ensures
            r is Some <==> spec_parse(self.text()) is Some,
            r is Some ==> r->Some_0@ == bom_stripped(self.text()),
    {
        let t = self.to_string();
        match TomlDocument::new(t.as_str()) {
            Ok(d2) => Some(d2.to_string()),
            Err(_) => None,
        }
    }
}

} // verus!
