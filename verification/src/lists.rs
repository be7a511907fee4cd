use vstd::prelude::*;

use crate::text::{is_empty_text, lemma_trim_idempotent, str_eq, trim, trim_seq};

verus! {

/// The texts of a list of strings.
pub open spec fn texts(v: Seq<String>) -> Seq<Seq<char>> {
    v.map_values(|s: String| s@)
}

/// Each entry trimmed; blank entries and repeats of an earlier entry dropped,
/// first occurrences kept in their order.
pub open spec fn norm_list(vs: Seq<Seq<char>>) -> Seq<Seq<char>>
    decreases vs.len(),
{
    if vs.len() == 0 {
        Seq::empty()
    } else {
        let prev = norm_list(vs.drop_last());
        let t = trim_seq(vs.last());
        if t.len() == 0 || prev.contains(t) {
            prev
        } else {
            prev.push(t)
        }
    }
}

/// Every entry is trimmed and non-blank, and no entry occurs twice.
pub open spec fn is_normal_list(vs: Seq<Seq<char>>) -> bool {
    &&& vs.no_duplicates()
    &&& forall|i: int| 0 <= i < vs.len() ==> #[trigger] trim_seq(vs[i]) == vs[i]
    &&& forall|i: int| 0 <= i < vs.len() ==> (#[trigger] vs[i]).len() > 0
}

/// Whether `list` holds a string with the text `s`.
pub fn contains_text(list: &Vec<String>, s: &str) -> (b: bool)
    ensures
        b == texts(list@).contains(s@),
{
    let mut i: usize = 0;
    while i < list.len()
        invariant
            0 <= i <= list.len(),
            forall|j: int| 0 <= j < i ==> list@[j]@ != s@,
        decreases list.len() - i,
    {
        if str_eq(list[i].as_str(), s) {
            assert(texts(list@)[i as int] == s@);
            return true;
        }
        i += 1;
    }
    proof {
        if texts(list@).contains(s@) {
            let k = choose|k: int| 0 <= k < texts(list@).len() && texts(list@)[k] == s@;
            assert(list@[k]@ == s@);
        }
    }
    false
}

/// Trims every entry and drops blank ones and repeats, keeping first occurrences
/// in their order.
pub fn normalize_list(values: &Vec<String>) -> (out: Vec<String>)
    ensures
        texts(out@) == norm_list(texts(values@)),
{
    let mut out: Vec<String> = Vec::new();
    let mut i: usize = 0;
    while i < values.len()
        invariant
            0 <= i <= values.len(),
            texts(out@) == norm_list(texts(values@).take(i as int)),
        decreases values.len() - i,
    {
        let value = trim(values[i].as_str());
        let ghost prefix = texts(values@).take(i as int);
        let ghost next = texts(values@).take(i + 1);
        assert(next.drop_last() =~= prefix);
        assert(next.last() == values@[i as int]@);
        if is_empty_text(value.as_str()) || contains_text(&out, value.as_str()) {
        } else {
            out.push(value);
            assert(texts(out@) =~= norm_list(prefix).push(value@));
        }
        i += 1;
    }
    assert(texts(values@).take(values.len() as int) =~= texts(values@));
    out
}

/// The normalized list is normal: trimmed, non-blank entries without repeats.
pub proof fn lemma_norm_list_is_normal(vs: Seq<Seq<char>>)
    ensures
        is_normal_list(norm_list(vs)),
    decreases vs.len(),
{
    if vs.len() > 0 {
        lemma_norm_list_is_normal(vs.drop_last());
        let prev = norm_list(vs.drop_last());
        let t = trim_seq(vs.last());
        lemma_trim_idempotent(vs.last());
        if !(t.len() == 0 || prev.contains(t)) {
            let r = prev.push(t);
            assert forall|i: int, j: int| 0 <= i < r.len() && 0 <= j < r.len() && i != j implies r[i]
                != r[j] by {
                if i == r.len() - 1 {
                    assert(prev[j] == r[j]);
                } else if j == r.len() - 1 {
                    assert(prev[i] == r[i]);
                }
            }
        }
    }
}

/// A list that is already normal is left as it is.
pub proof fn lemma_norm_list_of_normal(vs: Seq<Seq<char>>)
    requires
        is_normal_list(vs),
    ensures
        norm_list(vs) == vs,
    decreases vs.len(),
{
    if vs.len() > 0 {
        let d = vs.drop_last();
        assert(is_normal_list(d)) by {
            assert forall|i: int| 0 <= i < d.len() implies #[trigger] trim_seq(d[i]) == d[i] by {
                assert(d[i] == vs[i]);
            }
            assert forall|i: int| 0 <= i < d.len() implies (#[trigger] d[i]).len() > 0 by {
                assert(d[i] == vs[i]);
            }
        }
        lemma_norm_list_of_normal(d);
        assert(trim_seq(vs.last()) == vs[vs.len() - 1]);
        assert(!d.contains(vs.last())) by {
            if d.contains(vs.last()) {
                let k = choose|k: int| 0 <= k < d.len() && d[k] == vs.last();
                assert(vs[k] == vs[vs.len() - 1]);
            }
        }
        assert(d.push(vs.last()) =~= vs);
    }
}

/// Normalizing twice gives what normalizing once gives.
pub proof fn lemma_normalize_list_idempotent(vs: Seq<Seq<char>>)
    ensures
        norm_list(norm_list(vs)) == norm_list(vs),
{
    lemma_norm_list_is_normal(vs);
    lemma_norm_list_of_normal(norm_list(vs));
}

/// A text is in the normalized list exactly when it is the non-blank trim of
/// some entry.
pub proof fn lemma_norm_list_members(vs: Seq<Seq<char>>, x: Seq<char>)
    ensures
        norm_list(vs).contains(x) <==> (x.len() > 0 && exists|i: int|
            0 <= i < vs.len() && #[trigger] trim_seq(vs[i]) == x),
    decreases vs.len(),
{
    if vs.len() > 0 {
        let d = vs.drop_last();
        lemma_norm_list_members(d, x);
        let prev = norm_list(d);
        let t = trim_seq(vs.last());
        if norm_list(vs).contains(x) {
            if prev.contains(x) {
                let i = choose|i: int| 0 <= i < d.len() && #[trigger] trim_seq(d[i]) == x;
                assert(vs[i] == d[i]);
            } else {
                assert(norm_list(vs) == prev.push(t));
                let k = choose|k: int| 0 <= k < norm_list(vs).len() && norm_list(vs)[k] == x;
                assert(k == prev.len());
                assert(trim_seq(vs[vs.len() - 1]) == x);
            }
        }
        if x.len() > 0 && exists|i: int| 0 <= i < vs.len() && #[trigger] trim_seq(vs[i]) == x {
            let i = choose|i: int| 0 <= i < vs.len() && #[trigger] trim_seq(vs[i]) == x;
            if i < vs.len() - 1 {
                assert(d[i] == vs[i]);
                assert(prev.contains(x));
                if !(t.len() == 0 || prev.contains(t)) {
                    let k = choose|k: int| 0 <= k < prev.len() && prev[k] == x;
                    assert(prev.push(t)[k] == x);
                }
            } else {
                if !prev.contains(t) {
                    assert(prev.push(t)[prev.len() as int] == x);
                }
            }
        }
    }
}

} // verus!
