//! The order of texts (`String`'s `Ord`: character by character, by code
//! point) and maps of texts kept in that order.

use vstd::prelude::*;

use crate::text::{chars_of, owned, str_eq};

verus! {

/// `a` sorts strictly before `b`.
pub open spec fn text_lt(a: Seq<char>, b: Seq<char>) -> bool
    decreases a.len(),
{
    if a.len() == 0 {
        b.len() > 0
    } else if b.len() == 0 {
        false
    } else if a[0] != b[0] {
        (a[0] as int) < (b[0] as int)
    } else {
        text_lt(a.drop_first(), b.drop_first())
    }
}

/// No text sorts before itself.
pub proof fn lemma_text_lt_irreflexive(a: Seq<char>)
    ensures
        !text_lt(a, a),
    decreases a.len(),
{
    if a.len() > 0 {
        lemma_text_lt_irreflexive(a.drop_first());
    }
}

/// The order is transitive.
pub proof fn lemma_text_lt_transitive(a: Seq<char>, b: Seq<char>, c: Seq<char>)
    requires
        text_lt(a, b),
        text_lt(b, c),
    ensures
        text_lt(a, c),
    decreases a.len(),
{
    if a.len() > 0 && b.len() > 0 && c.len() > 0 && a[0] == b[0] && b[0] == c[0] {
        lemma_text_lt_transitive(a.drop_first(), b.drop_first(), c.drop_first());
    }
}

/// Of two different texts, one sorts before the other, and not both ways.
pub proof fn lemma_text_lt_total(a: Seq<char>, b: Seq<char>)
    ensures
        a != b ==> (text_lt(a, b) || text_lt(b, a)),
        !(text_lt(a, b) && text_lt(b, a)),
    decreases a.len(),
{
    if a.len() > 0 && b.len() > 0 && a[0] == b[0] {
        lemma_text_lt_total(a.drop_first(), b.drop_first());
        if a.drop_first() == b.drop_first() {
            assert(a =~= seq![a[0]] + a.drop_first());
            assert(b =~= seq![b[0]] + b.drop_first());
        }
    } else if a.len() == 0 && b.len() == 0 {
        assert(a =~= b);
    }
}

proof fn lemma_text_lt_step(a: Seq<char>, b: Seq<char>, i: int)
    requires
        0 <= i < a.len(),
        i < b.len(),
        a[i] == b[i],
    ensures
        text_lt(a.skip(i), b.skip(i)) == text_lt(a.skip(i + 1), b.skip(i + 1)),
{
    assert(a.skip(i).drop_first() =~= a.skip(i + 1));
    assert(b.skip(i).drop_first() =~= b.skip(i + 1));
}

/// Whether `a` sorts strictly before `b`.
pub fn text_less(a: &str, b: &str) -> (r: bool)
    ensures
        r == text_lt(a@, b@),
{
    let x = chars_of(a);
    let y = chars_of(b);
    let mut i: usize = 0;
    assert(x@.skip(0) =~= x@);
    assert(y@.skip(0) =~= y@);
    while i < x.len() && i < y.len()
        invariant
            0 <= i <= x.len(),
            i <= y.len(),
            x@ == a@,
            y@ == b@,
            text_lt(a@, b@) == text_lt(x@.skip(i as int), y@.skip(i as int)),
        decreases x.len() - i,
    {
        if x[i] != y[i] {
            proof {
                assert(x@.skip(i as int)[0] == x@[i as int]);
                assert(y@.skip(i as int)[0] == y@[i as int]);
            }
            return x[i] < y[i];
        }
        proof {
            lemma_text_lt_step(x@, y@, i as int);
        }
        i += 1;
    }
    y.len() > i
}

/// Keys in strictly increasing order.
pub open spec fn keys_ascending(es: Seq<(Seq<char>, Seq<char>)>) -> bool {
    forall|i: int, j: int| 0 <= i < j < es.len() ==> text_lt(#[trigger] es[i].0, #[trigger] es[j].0)
}

/// The map that inserting the entries in order gives: a later entry for a key
/// replaces an earlier one.
pub open spec fn entries_map(es: Seq<(Seq<char>, Seq<char>)>) -> Map<Seq<char>, Seq<char>>
    decreases es.len(),
{
    if es.len() == 0 {
        Map::empty()
    } else {
        entries_map(es.drop_last()).insert(es.last().0, es.last().1)
    }
}

pub open spec fn pair_views(v: Seq<(String, String)>) -> Seq<(Seq<char>, Seq<char>)> {
    v.map_values(|e: (String, String)| (e.0@, e.1@))
}

/// For entries with distinct keys, the map holds exactly their keys, each
/// with its value.
proof fn lemma_entries_map_distinct(es: Seq<(Seq<char>, Seq<char>)>)
    requires
        keys_ascending(es),
    ensures
        forall|k: Seq<char>|
            entries_map(es).dom().contains(k) <==> exists|i: int|
                0 <= i < es.len() && #[trigger] es[i].0 == k,
        forall|i: int| 0 <= i < es.len() ==> entries_map(es)[#[trigger] es[i].0] == es[i].1,
    decreases es.len(),
{
    if es.len() > 0 {
        let p = es.drop_last();
        assert forall|i: int, j: int| 0 <= i < j < p.len() implies text_lt(
            #[trigger] p[i].0,
            #[trigger] p[j].0,
        ) by {
            assert(p[i] == es[i] && p[j] == es[j]);
        }
        lemma_entries_map_distinct(p);
        assert forall|k: Seq<char>|
            entries_map(es).dom().contains(k) <==> exists|i: int|
                0 <= i < es.len() && #[trigger] es[i].0 == k by {
            if entries_map(es).dom().contains(k) && k != es.last().0 {
                assert(entries_map(p).dom().contains(k));
                assert(exists|i: int| 0 <= i < p.len() && #[trigger] p[i].0 == k);
                let i = choose|i: int| 0 <= i < p.len() && #[trigger] p[i].0 == k;
                assert(es[i] == p[i]);
            }
            if k == es.last().0 {
                assert(es[es.len() - 1].0 == k);
            }
            if exists|i: int| 0 <= i < es.len() && #[trigger] es[i].0 == k {
                let i = choose|i: int| 0 <= i < es.len() && #[trigger] es[i].0 == k;
                if i < p.len() {
                    assert(p[i] == es[i]);
                }
            }
        }
        assert forall|i: int| 0 <= i < es.len() implies entries_map(es)[#[trigger] es[i].0]
            == es[i].1 by {
            if i < p.len() {
                assert(p[i] == es[i]);
                assert(text_lt(es[i].0, es[es.len() - 1].0));
                lemma_text_lt_irreflexive(es[i].0);
            }
        }
    }
}

/// Entries with ascending keys are determined by their map.
proof fn lemma_ascending_unique(a: Seq<(Seq<char>, Seq<char>)>, b: Seq<(Seq<char>, Seq<char>)>)
    requires
        keys_ascending(a),
        keys_ascending(b),
        entries_map(a) == entries_map(b),
    ensures
        a == b,
    decreases a.len() + b.len(),
{
    lemma_entries_map_distinct(a);
    lemma_entries_map_distinct(b);
    if a.len() > 0 && b.len() > 0 {
        let ka = a.last().0;
        let kb = b.last().0;
        assert(entries_map(b).dom().contains(ka));
        assert(entries_map(a).dom().contains(kb));
        let ib = choose|i: int| 0 <= i < b.len() && #[trigger] b[i].0 == ka;
        let ia = choose|i: int| 0 <= i < a.len() && #[trigger] a[i].0 == kb;
        if ia < a.len() - 1 {
            assert(text_lt(a[ia].0, a[a.len() - 1].0));
        }
        if ib < b.len() - 1 {
            assert(text_lt(b[ib].0, b[b.len() - 1].0));
        }
        lemma_text_lt_total(ka, kb);
        if ka != kb {
            if ia == a.len() - 1 {
                assert(a[ia].0 == ka);
            }
            if ib == b.len() - 1 {
                assert(b[ib].0 == kb);
            }
        }
        assert(ka == kb);
        let pa = a.drop_last();
        let pb = b.drop_last();
        assert(keys_ascending(pa)) by {
            assert forall|i: int, j: int| 0 <= i < j < pa.len() implies text_lt(
                #[trigger] pa[i].0,
                #[trigger] pa[j].0,
            ) by {
                assert(pa[i] == a[i] && pa[j] == a[j]);
            }
        }
        assert(keys_ascending(pb)) by {
            assert forall|i: int, j: int| 0 <= i < j < pb.len() implies text_lt(
                #[trigger] pb[i].0,
                #[trigger] pb[j].0,
            ) by {
                assert(pb[i] == b[i] && pb[j] == b[j]);
            }
        }
        lemma_entries_map_distinct(pa);
        lemma_entries_map_distinct(pb);
        assert(!entries_map(pa).dom().contains(ka)) by {
            if entries_map(pa).dom().contains(ka) {
                let i = choose|i: int| 0 <= i < pa.len() && #[trigger] pa[i].0 == ka;
                assert(a[i] == pa[i]);
                assert(text_lt(a[i].0, a[a.len() - 1].0));
                lemma_text_lt_irreflexive(ka);
            }
        }
        assert(!entries_map(pb).dom().contains(kb)) by {
            if entries_map(pb).dom().contains(kb) {
                let i = choose|i: int| 0 <= i < pb.len() && #[trigger] pb[i].0 == kb;
                assert(b[i] == pb[i]);
                assert(text_lt(b[i].0, b[b.len() - 1].0));
                lemma_text_lt_irreflexive(kb);
            }
        }
        assert(entries_map(pa) =~= entries_map(a).remove(ka));
        assert(entries_map(pb) =~= entries_map(b).remove(kb));
        lemma_ascending_unique(pa, pb);
        assert(a.last().1 == entries_map(a)[ka]);
        assert(b.last().1 == entries_map(b)[kb]);
        assert(a =~= pa.push(a.last()));
        assert(b =~= pb.push(b.last()));
    } else if a.len() > 0 {
        assert(entries_map(a).dom().contains(a[0].0));
    } else if b.len() > 0 {
        assert(entries_map(b).dom().contains(b[0].0));
    } else {
        assert(a =~= b);
    }
}

/// The entries as a map in key order (`BTreeMap::from_iter`): one entry per
/// key, the last value given for it, keys ascending.
pub fn sorted_entries(entries: &Vec<(String, String)>) -> (r: Vec<(String, String)>)
    ensures
        keys_ascending(pair_views(r@)),
        entries_map(pair_views(r@)) == entries_map(pair_views(entries@)),
{
    let ghost es = pair_views(entries@);
    let mut out: Vec<(String, String)> = Vec::new();
    let mut i: usize = 0;
    assert(es.take(0) =~= Seq::<(Seq<char>, Seq<char>)>::empty());
    assert(pair_views(out@) =~= Seq::<(Seq<char>, Seq<char>)>::empty());
    while i < entries.len()
        invariant
            0 <= i <= entries.len(),
            es == pair_views(entries@),
            keys_ascending(pair_views(out@)),
            entries_map(pair_views(out@)) == entries_map(es.take(i as int)),
        decreases entries.len() - i,
    {
        assert(es.take(i + 1).drop_last() =~= es.take(i as int));
        assert(es.take(i + 1).last() == es[i as int]);
        let k = owned(entries[i].0.as_str());
        let v = owned(entries[i].1.as_str());
        insert_sorted(&mut out, k, v);
        i += 1;
    }
    assert(es.take(entries.len() as int) =~= es);
    out
}

/// Puts `(k, v)` into entries kept in key order, replacing the value of an
/// equal key.
fn insert_sorted(out: &mut Vec<(String, String)>, k: String, v: String)
    requires
        keys_ascending(pair_views(old(out)@)),
    ensures
        keys_ascending(pair_views(final(out)@)),
        entries_map(pair_views(final(out)@)) == entries_map(pair_views(old(out)@)).insert(k@, v@),
{
    let ghost before = pair_views(out@);
    proof {
        lemma_entries_map_distinct(before);
    }
    let mut pos: usize = 0;
    while pos < out.len() && text_less(out[pos].0.as_str(), k.as_str())
        invariant
            0 <= pos <= out.len(),
            before == pair_views(out@),
            forall|j: int| 0 <= j < pos ==> text_lt(#[trigger] before[j].0, k@),
        decreases out.len() - pos,
    {
        pos += 1;
    }
    if pos < out.len() && text_less(k.as_str(), out[pos].0.as_str()) == false {
        // same key: replace the value in place
        proof {
            lemma_text_lt_total(before[pos as int].0, k@);
        }
        let ghost kv = (k@, v@);
        out.set(pos, (k, v));
        proof {
            let after = pair_views(out@);
            assert(after =~= before.update(pos as int, kv));
            assert(keys_ascending(after)) by {
                assert forall|a: int, b: int| 0 <= a < b < after.len() implies text_lt(
                    #[trigger] after[a].0,
                    #[trigger] after[b].0,
                ) by {
                    assert(before[a].0 == after[a].0 && before[b].0 == after[b].0);
                }
            }
            lemma_entries_map_distinct(after);
            assert(entries_map(after) =~= entries_map(before).insert(kv.0, kv.1)) by {
                assert forall|key: Seq<char>| #[trigger]
                    entries_map(after).dom().contains(key) <==> entries_map(before).insert(
                        kv.0,
                        kv.1,
                    ).dom().contains(key) by {
                    if entries_map(before).dom().contains(key) {
                        let j = choose|j: int| 0 <= j < before.len() && #[trigger] before[j].0 == key;
                        assert(after[j].0 == key);
                    }
                    if entries_map(after).dom().contains(key) {
                        let j = choose|j: int| 0 <= j < after.len() && #[trigger] after[j].0 == key;
                        assert(before[j].0 == key);
                    }
                }
                assert forall|key: Seq<char>| #[trigger]
                    entries_map(after).dom().contains(key) implies entries_map(after)[key]
                    == entries_map(before).insert(kv.0, kv.1)[key] by {
                    let j = choose|j: int| 0 <= j < after.len() && #[trigger] after[j].0 == key;
                    assert(before[j].0 == key);
                }
            }
        }
    } else {
        proof {
            assert forall|j: int| pos <= j < before.len() implies text_lt(
                k@,
                #[trigger] before[j].0,
            ) by {
                if j > pos {
                    assert(text_lt(before[pos as int].0, before[j].0));
                    if !text_lt(k@, before[pos as int].0) {
                    } else {
                        lemma_text_lt_transitive(k@, before[pos as int].0, before[j].0);
                    }
                }
            }
        }
        let ghost kv = (k@, v@);
        out.insert(pos, (k, v));
        proof {
            let after = pair_views(out@);
            assert(after =~= before.insert(pos as int, kv));
            assert(keys_ascending(after)) by {
                assert forall|a: int, b: int| 0 <= a < b < after.len() implies text_lt(
                    #[trigger] after[a].0,
                    #[trigger] after[b].0,
                ) by {
                    if b < pos {
                        assert(after[a] == before[a] && after[b] == before[b]);
                    } else if b == pos {
                        assert(after[a] == before[a]);
                    } else if a < pos {
                        assert(after[a] == before[a] && after[b] == before[b - 1]);
                        assert(text_lt(before[a].0, k@));
                        lemma_text_lt_transitive(before[a].0, k@, before[b - 1].0);
                    } else if a == pos {
                        assert(after[b] == before[b - 1]);
                    } else {
                        assert(after[a] == before[a - 1] && after[b] == before[b - 1]);
                    }
                }
            }
            assert(!entries_map(before).dom().contains(kv.0)) by {
                if entries_map(before).dom().contains(kv.0) {
                    let j = choose|j: int| 0 <= j < before.len() && #[trigger] before[j].0 == kv.0;
                    lemma_text_lt_irreflexive(kv.0);
                    if j >= pos {
                        assert(text_lt(k@, before[j].0));
                    }
                }
            }
            lemma_entries_map_distinct(after);
            assert(entries_map(after) =~= entries_map(before).insert(kv.0, kv.1)) by {
                assert forall|key: Seq<char>| #[trigger]
                    entries_map(after).dom().contains(key) <==> entries_map(before).insert(
                        kv.0,
                        kv.1,
                    ).dom().contains(key) by {
                    if entries_map(before).dom().contains(key) {
                        let j = choose|j: int| 0 <= j < before.len() && #[trigger] before[j].0 == key;
                        if j < pos {
                            assert(after[j].0 == key);
                        } else {
                            assert(after[j + 1].0 == key);
                        }
                    }
                    if key == kv.0 {
                        assert(after[pos as int].0 == key);
                    }
                    if entries_map(after).dom().contains(key) {
                        let j = choose|j: int| 0 <= j < after.len() && #[trigger] after[j].0 == key;
                        if j < pos {
                            assert(before[j].0 == key);
                        } else if j > pos {
                            assert(before[j - 1].0 == key);
                        }
                    }
                }
                assert forall|key: Seq<char>| #[trigger]
                    entries_map(after).dom().contains(key) implies entries_map(after)[key]
                    == entries_map(before).insert(kv.0, kv.1)[key] by {
                    let j = choose|j: int| 0 <= j < after.len() && #[trigger] after[j].0 == key;
                    if j < pos {
                        assert(before[j] == after[j]);
                        assert(key != kv.0);
                    } else if j > pos {
                        assert(before[j - 1] == after[j]);
                        assert(key != kv.0);
                    }
                }
            }
        }
    }
}

/// The entries of the map that `es` gives, keys ascending.
pub open spec fn ascending_entries(es: Seq<(Seq<char>, Seq<char>)>) -> Seq<(Seq<char>, Seq<char>)> {
    choose|r: Seq<(Seq<char>, Seq<char>)>| keys_ascending(r) && entries_map(r) == entries_map(es)
}

/// Entries with ascending keys and the map of `es` are `ascending_entries(es)`.
pub proof fn lemma_ascending_entries(es: Seq<(Seq<char>, Seq<char>)>, r: Seq<(Seq<char>, Seq<char>)>)
    requires
        keys_ascending(r),
        entries_map(r) == entries_map(es),
    ensures
        ascending_entries(es) == r,
{
    let c = ascending_entries(es);
    assert(keys_ascending(c) && entries_map(c) == entries_map(es));
    lemma_ascending_unique(c, r);
}

/// Sorting entries whose keys already ascend gives them back unchanged.
pub proof fn lemma_sorted_entries_fixed(
    es: Seq<(Seq<char>, Seq<char>)>,
    r: Seq<(Seq<char>, Seq<char>)>,
)
    requires
        keys_ascending(es),
        keys_ascending(r),
        entries_map(r) == entries_map(es),
    ensures
        r == es,
{
    lemma_ascending_unique(r, es);
}

} // verus!

verus! {

/// The value that the entries give a key, as a map built from them in order
/// would hold it (`BTreeMap::get` after inserting them all).
pub fn entry_value(es: &Vec<(String, String)>, key: &str) -> (r: Option<String>)
    ensures
        match r {
            Some(v) => entries_map(pair_views(es@)).dom().contains(key@) && entries_map(
                pair_views(es@),
            )[key@] == v@,
            None => !entries_map(pair_views(es@)).dom().contains(key@),
        },
{
    let ghost ps = pair_views(es@);
    let mut i: usize = es.len();
    assert(ps.take(es.len() as int) =~= ps);
    while i > 0
        invariant
            i <= es.len(),
            ps == pair_views(es@),
            entries_map(ps).dom().contains(key@) == entries_map(ps.take(i as int)).dom().contains(
                key@,
            ),
            entries_map(ps).dom().contains(key@) ==> entries_map(ps)[key@] == entries_map(
                ps.take(i as int),
            )[key@],
        decreases i,
    {
        assert(ps.take(i as int).drop_last() =~= ps.take(i - 1));
        assert(ps.take(i as int).last() == ps[i - 1]);
        assert(ps[i - 1] == (es@[i - 1].0@, es@[i - 1].1@));
        if str_eq(es[i - 1].0.as_str(), key) {
            return Some(owned(es[i - 1].1.as_str()));
        }
        i -= 1;
    }
    assert(ps.take(0) =~= Seq::<(Seq<char>, Seq<char>)>::empty());
    None
}

} // verus!
