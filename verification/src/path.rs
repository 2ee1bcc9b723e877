//! Dotted key paths. A caller-supplied key string is split on every `.`
//! character; empty segments are kept as they are, and a key without dots is
//! the single segment itself. Escaping a literal dot inside a key name is
//! not supported.

use vstd::prelude::*;

verus! {

/// Index of the first `.` in `s`, or `-1` when there is none.
pub open spec fn first_dot(s: Seq<char>) -> int
    decreases s.len(),
{
    if s.len() == 0 {
        -1
    } else if s[0] == '.' {
        0
    } else {
        let r = first_dot(s.drop_first());
        if r < 0 {
            -1
        } else {
            r + 1
        }
    }
}

/// The segments of a key: split on every `.`.
pub open spec fn spec_split(s: Seq<char>) -> Seq<Seq<char>>
    decreases s.len(),
{
    let i = first_dot(s);
    if 0 <= i < s.len() {
        seq![s.take(i)] + spec_split(s.skip(i + 1))
    } else {
        seq![s]
    }
}

/// The views of a vector of strings.
pub open spec fn seq_views(ss: Seq<String>) -> Seq<Seq<char>> {
    Seq::new(ss.len(), |i: int| ss[i]@)
}

/// Pins `first_dot` down from a scan: if no dot stands before position `k`,
/// and `k` is the end or a dot, then `first_dot` is exactly there.
pub proof fn lemma_first_dot_at(s: Seq<char>, k: int)
    requires
        0 <= k <= s.len(),
        forall|j: int| 0 <= j < k ==> s[j] != '.',
        k < s.len() ==> s[k] == '.',
    ensures
        k == s.len() ==> first_dot(s) == -1,
        k < s.len() ==> first_dot(s) == k,
    decreases s.len(),
{
    if s.len() == 0 {
    } else if s[0] == '.' {
    } else {
        let t = s.drop_first();
        assert(forall|j: int| 0 <= j < k - 1 ==> t[j] == s[j + 1] && t[j] != '.');
        assert(k - 1 < t.len() ==> t[k - 1] == s[k]);
        lemma_first_dot_at(t, k - 1);
    }
}

/// A key always yields at least one segment.
pub proof fn lemma_spec_split_len(s: Seq<char>)
    ensures
        spec_split(s).len() >= 1,
    decreases s.len(),
{
    let i = first_dot(s);
    if 0 <= i < s.len() {
        lemma_spec_split_len(s.skip(i + 1));
    }
}

/// Split a key string into its segments.
pub fn split_key(s: &str) -> (r: Vec<String>)
    ensures
        seq_views(r@) == spec_split(s@),
        r@.len() >= 1,
{
    let n = s.unicode_len();
    let mut out: Vec<String> = Vec::new();
    let mut start: usize = 0;
    let mut i: usize = 0;
    proof {
        assert(s@.skip(0) =~= s@);
        assert(seq_views(out@) + spec_split(s@) =~= spec_split(s@));
    }
    while i < n
        invariant
            start <= i <= n,
            n == s@.len(),
            forall|j: int| start <= j < i ==> s@[j] != '.',
            spec_split(s@) == seq_views(out@) + spec_split(s@.skip(start as int)),
        decreases n - i,
    {
        if s.get_char(i) == '.' {
            let seg = s.substring_char(start, i).to_owned();
            proof {
                let tail = s@.skip(start as int);
                assert(forall|j: int| 0 <= j < i - start ==> tail[j] == s@[j + start]
                    && tail[j] != '.');
                assert(tail[i - start] == s@[i as int]);
                lemma_first_dot_at(tail, i - start);
                assert(tail.take(i - start) =~= s@.subrange(start as int, i as int));
                assert(tail.skip(i - start + 1) =~= s@.skip(i + 1));
                assert(spec_split(tail) == seq![s@.subrange(start as int, i as int)] + spec_split(
                    s@.skip(i + 1),
                ));
                assert(seq_views(out@.push(seg)) =~= seq_views(out@) + seq![seg@]);
                assert(seq_views(out@) + spec_split(tail) =~= (seq_views(out@) + seq![seg@])
                    + spec_split(s@.skip(i + 1)));
            }
            out.push(seg);
            i = i + 1;
            start = i;
        } else {
            i = i + 1;
        }
    }
    let seg = s.substring_char(start, n).to_owned();
    proof {
        let tail = s@.skip(start as int);
        assert(forall|j: int| 0 <= j < n - start ==> tail[j] == s@[j + start] && tail[j] != '.');
        lemma_first_dot_at(tail, n - start);
        assert(spec_split(tail) == seq![tail]);
        assert(tail =~= s@.subrange(start as int, n as int));
        assert(seq_views(out@.push(seg)) =~= seq_views(out@) + seq![seg@]);
        assert(seq_views(out@.push(seg)) =~= seq_views(out@) + spec_split(tail));
    }
    out.push(seg);
    out
}

} // verus!
