//! The library's model of a dynamic host value: what a scripting host can
//! hand to `set` or receive from `get` and the whole-document export. Numbers
//! with a fractional representation travel as decimal text; the embedding
//! host converts its native floating-point type to and from that text at the
//! boundary.

use vstd::prelude::*;

verus! {

/// A dynamic host value, as executable data.
#[derive(Debug, PartialEq)]
pub enum HostValue {
    /// The host's null.
    Null,
    /// The host's undefined / absent marker.
    Undefined,
    /// A host string.
    Text(String),
    /// A host integer.
    Int(i64),
    /// A host non-integral number, carried as decimal text. Decoding a
    /// document yields the number's debug rendering (`"2.5"`, `"inf"`,
    /// `"NaN"`); encoding accepts TOML float syntax (`"2.5"`, `"inf"`,
    /// `"nan"`). The two agree for every float but a NaN, whose decoded
    /// text `"NaN"` is not TOML syntax and does not encode back.
    Float(String),
    /// A host boolean.
    Bool(bool),
    /// A host ordered list.
    List(Vec<HostValue>),
    /// A host plain object: ordered key/value pairs, keys are strings.
    Object(Vec<(String, HostValue)>),
    /// A host date/time value, carried as its canonical TOML datetime text.
    Datetime(String),
    /// Any other host value, carried as its runtime type tag.
    Exotic(String),
}

/// The mathematical shape of a host value.
pub enum SpecHost {
    Null,
    Undefined,
    Text(Seq<char>),
    Int(i64),
    Float(Seq<char>),
    Bool(bool),
    List(Seq<SpecHost>),
    Object(Seq<(Seq<char>, SpecHost)>),
    Datetime(Seq<char>),
    Exotic(Seq<char>),
}

impl HostValue {
    /// The mathematical value of this host value.
    pub open spec fn view(self) -> SpecHost
        decreases self,
    {
        match self {
            HostValue::Null => SpecHost::Null,
            HostValue::Undefined => SpecHost::Undefined,
            HostValue::Text(s) => SpecHost::Text(s@),
            HostValue::Int(i) => SpecHost::Int(i),
            HostValue::Float(s) => SpecHost::Float(s@),
            HostValue::Bool(b) => SpecHost::Bool(b),
            HostValue::List(v) => SpecHost::List(view_list(v@)),
            HostValue::Object(v) => SpecHost::Object(view_pairs(v@)),
            HostValue::Datetime(s) => SpecHost::Datetime(s@),
            HostValue::Exotic(s) => SpecHost::Exotic(s@),
        }
    }
}

/// The element-wise mathematical value of a host list.
pub open spec fn view_list(s: Seq<HostValue>) -> Seq<SpecHost>
    decreases s,
{
    if s.len() == 0 {
        Seq::empty()
    } else {
        seq![s[0].view()] + view_list(s.drop_first())
    }
}

/// Appending an element views as appending its view.
pub proof fn lemma_view_list_push(s: Seq<HostValue>, x: HostValue)
    ensures
        view_list(s.push(x)) == view_list(s).push(x.view()),
    decreases s,
{
    if s.len() == 0 {
        assert(s.push(x)[0] == x);
        assert(s.push(x).drop_first() =~= Seq::<HostValue>::empty());
        assert(view_list(s) == Seq::<SpecHost>::empty());
        assert(view_list(s.push(x).drop_first()) == Seq::<SpecHost>::empty());
        assert(view_list(s.push(x)) == seq![x.view()] + view_list(s.push(x).drop_first()));
        assert(view_list(s.push(x)) =~= view_list(s).push(x.view()));
    } else {
        assert(s.push(x)[0] == s[0]);
        assert(s.push(x).drop_first() =~= s.drop_first().push(x));
        lemma_view_list_push(s.drop_first(), x);
        assert(view_list(s.push(x)) == seq![s[0].view()] + view_list(s.push(x).drop_first()));
        assert(view_list(s.push(x)) == seq![s[0].view()] + view_list(s.drop_first()).push(
            x.view(),
        ));
        assert(view_list(s) == seq![s[0].view()] + view_list(s.drop_first()));
        assert(view_list(s.push(x)) =~= view_list(s).push(x.view()));
    }
}

/// The length and the elements of a host list's view.
pub proof fn lemma_view_list_props(s: Seq<HostValue>)
    ensures
        view_list(s).len() == s.len(),
        forall|i: int| 0 <= i < s.len() ==> view_list(s)[i] == s[i].view(),
    decreases s,
{
    if s.len() > 0 {
        lemma_view_list_props(s.drop_first());
    }
}

/// The pair-wise mathematical value of a host object's entries.
pub open spec fn view_pairs(s: Seq<(String, HostValue)>) -> Seq<(Seq<char>, SpecHost)>
    decreases s,
{
    if s.len() == 0 {
        Seq::empty()
    } else {
        seq![(s[0].0@, s[0].1.view())] + view_pairs(s.drop_first())
    }
}

/// Appending an entry views as appending its view.
pub proof fn lemma_view_pairs_push(s: Seq<(String, HostValue)>, x: (String, HostValue))
    ensures
        view_pairs(s.push(x)) == view_pairs(s).push((x.0@, x.1.view())),
    decreases s,
{
    if s.len() == 0 {
        assert(s.push(x)[0] == x);
        assert(s.push(x).drop_first() =~= Seq::<(String, HostValue)>::empty());
        assert(view_pairs(s) == Seq::<(Seq<char>, SpecHost)>::empty());
        assert(view_pairs(s.push(x).drop_first()) == Seq::<(Seq<char>, SpecHost)>::empty());
        assert(view_pairs(s.push(x)) == seq![(x.0@, x.1.view())] + view_pairs(
            s.push(x).drop_first(),
        ));
        assert(view_pairs(s.push(x)) =~= view_pairs(s).push((x.0@, x.1.view())));
    } else {
        assert(s.push(x)[0] == s[0]);
        assert(s.push(x).drop_first() =~= s.drop_first().push(x));
        lemma_view_pairs_push(s.drop_first(), x);
        assert(view_pairs(s.push(x)) == seq![(s[0].0@, s[0].1.view())] + view_pairs(
            s.push(x).drop_first(),
        ));
        assert(view_pairs(s.push(x)) == seq![(s[0].0@, s[0].1.view())] + view_pairs(
            s.drop_first(),
        ).push((x.0@, x.1.view())));
        assert(view_pairs(s) == seq![(s[0].0@, s[0].1.view())] + view_pairs(s.drop_first()));
        assert(view_pairs(s.push(x)) =~= view_pairs(s).push((x.0@, x.1.view())));
    }
}

/// The length and the entries of a host object's view.
pub proof fn lemma_view_pairs_props(s: Seq<(String, HostValue)>)
    ensures
        view_pairs(s).len() == s.len(),
        forall|i: int| 0 <= i < s.len() ==> view_pairs(s)[i] == (s[i].0@, s[i].1.view()),
    decreases s,
{
    if s.len() > 0 {
        lemma_view_pairs_props(s.drop_first());
    }
}

} // verus!
