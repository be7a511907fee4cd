use vstd::prelude::*;

use crate::domain::chat::turn::{extension, name_extension};
use crate::lists::texts;
use crate::order::{lemma_text_lt_total, lemma_text_lt_transitive, text_less, text_lt};
use crate::text::{owned, str_eq};

verus! {

/// How many records a listing shows at most.
pub const MAX_LISTED_RECORDS: usize = 200;

/// A file that holds a record: its name ends in the `json` extension.
pub open spec fn is_record_file(name: Seq<char>) -> bool {
    name_extension(name) == Some("json"@)
}

/// The record files a listing shows, newest first by name: at most `n`, each
/// once, in decreasing order of name; a record file left out comes after all
/// that are shown, and when fewer than `n` are shown, none is left out.
pub open spec fn is_recent_listing(r: Seq<Seq<char>>, names: Seq<Seq<char>>, n: nat) -> bool {
    &&& r.len() <= n
    &&& forall|i: int, j: int| 0 <= i < j < r.len() ==> text_lt(#[trigger] r[j], #[trigger] r[i])
    &&& forall|i: int| 0 <= i < r.len() ==> is_record_file(#[trigger] r[i]) && names.contains(r[i])
    &&& forall|x: Seq<char>|
        #![trigger names.contains(x), r.contains(x)]
        names.contains(x) && is_record_file(x) && !r.contains(x) ==> r.len() == n && forall|i: int|
            0 <= i < r.len() ==> text_lt(x, #[trigger] r[i])
}

pub open spec fn listing_count(limit: usize) -> usize {
    if limit < 1 {
        1
    } else if limit > MAX_LISTED_RECORDS {
        MAX_LISTED_RECORDS
    } else {
        limit
    }
}

fn is_record_name(name: &str) -> (b: bool)
    ensures
        b == is_record_file(name@),
{
    match extension(name) {
        Some(e) => {
            proof {
                reveal_strlit("json");
            }
            str_eq(e.as_str(), "json")
        },
        None => false,
    }
}

pub open spec fn descending(v: Seq<Seq<char>>) -> bool {
    forall|a: int, b: int| 0 <= a < b < v.len() ==> text_lt(#[trigger] v[b], #[trigger] v[a])
}

/// Adds a name to a list in decreasing order, unless it is there already.
fn insert_descending(all: &mut Vec<String>, name: &str)
    requires
        descending(texts(old(all)@)),
    ensures
        descending(texts(final(all)@)),
        forall|x: Seq<char>|
            #[trigger] texts(final(all)@).contains(x) <==> (texts(old(all)@).contains(x) || x
                == name@),
{
    let ghost before = texts(all@);
    let mut p: usize = 0;
    while p < all.len() && text_less(name, all[p].as_str())
        invariant
            0 <= p <= all.len(),
            before == texts(all@),
            forall|k: int| 0 <= k < p ==> text_lt(name@, #[trigger] before[k]),
        decreases all.len() - p,
    {
        p += 1;
    }
    if p < all.len() && str_eq(all[p].as_str(), name) {
        assert(before[p as int] == name@);
        return;
    }
    all.insert(p, owned(name));
    proof {
        let after = texts(all@);
        assert(after =~= before.insert(p as int, name@));
        if p < before.len() {
            lemma_text_lt_total(before[p as int], name@);
            assert(text_lt(before[p as int], name@));
        }
        assert forall|a: int, b: int| 0 <= a < b < after.len() implies text_lt(
            #[trigger] after[b],
            #[trigger] after[a],
        ) by {
            if b < p {
                assert(after[a] == before[a] && after[b] == before[b]);
            } else if b == p {
                assert(after[a] == before[a]);
            } else if a < p {
                assert(after[a] == before[a] && after[b] == before[b - 1]);
                if b - 1 > p {
                    lemma_text_lt_transitive(before[b - 1], before[p as int], name@);
                }
                lemma_text_lt_transitive(before[b - 1], name@, before[a]);
            } else if a == p {
                assert(after[b] == before[b - 1]);
                if b - 1 > p {
                    lemma_text_lt_transitive(before[b - 1], before[p as int], name@);
                }
            } else {
                assert(after[a] == before[a - 1] && after[b] == before[b - 1]);
            }
        }
        assert forall|x: Seq<char>| #[trigger] after.contains(x) <==> (before.contains(x) || x
            == name@) by {
            if after.contains(x) {
                let k = choose|k: int| 0 <= k < after.len() && after[k] == x;
                if k < p {
                    assert(before[k] == x);
                } else if k > p {
                    assert(before[k - 1] == x);
                }
            }
            if before.contains(x) {
                let k = choose|k: int| 0 <= k < before.len() && before[k] == x;
                if k < p {
                    assert(after[k] == x);
                } else {
                    assert(after[k + 1] == x);
                }
            }
            if x == name@ {
                assert(after[p as int] == x);
            }
        }
    }
}

/// The record files to read for a listing of at most `limit` records (kept
/// within 1 to 200), newest first by name.
pub fn recent_record_files(names: &Vec<String>, limit: usize) -> (r: Vec<String>)
    ensures
        is_recent_listing(texts(r@), texts(names@), listing_count(limit) as nat),
{
    let ghost ns = texts(names@);
    let mut all: Vec<String> = Vec::new();
    let mut i: usize = 0;
    while i < names.len()
        invariant
            0 <= i <= names.len(),
            ns == texts(names@),
            descending(texts(all@)),
            forall|x: Seq<char>|
                #[trigger] texts(all@).contains(x) <==> (ns.take(i as int).contains(x)
                    && is_record_file(x)),
        decreases names.len() - i,
    {
        let name = names[i].as_str();
        let ghost pa = ns.take(i as int);
        let ghost pb = ns.take(i + 1);
        proof {
            assert(ns[i as int] == name@);
            assert(pb =~= pa.push(name@));
            assert forall|x: Seq<char>| #[trigger] pb.contains(x) <==> (pa.contains(x) || x
                == name@) by {
                if pa.contains(x) {
                    let k = choose|k: int| 0 <= k < pa.len() && pa[k] == x;
                    assert(pb[k] == x);
                }
                if pb.contains(x) {
                    let k = choose|k: int| 0 <= k < pb.len() && pb[k] == x;
                    if k < i {
                        assert(pa[k] == x);
                    }
                }
                if x == name@ {
                    assert(pb[i as int] == x);
                }
            }
        }
        if is_record_name(name) {
            insert_descending(&mut all, name);
        }
        i += 1;
    }
    assert(ns.take(names.len() as int) =~= ns);
    let n: usize = if limit < 1 {
        1
    } else if limit > MAX_LISTED_RECORDS {
        MAX_LISTED_RECORDS
    } else {
        limit
    };
    let ghost full = texts(all@);
    all.truncate(n);
    proof {
        let r = texts(all@);
        assert(r =~= if full.len() <= n {
            full
        } else {
            full.take(n as int)
        });
        assert forall|x: Seq<char>|
            #![trigger ns.contains(x), r.contains(x)]
            ns.contains(x) && is_record_file(x) && !r.contains(x) implies r.len() == n && forall|i: int|
                0 <= i < r.len() ==> text_lt(x, #[trigger] r[i]) by {
            assert(full.contains(x));
            let m = choose|m: int| 0 <= m < full.len() && full[m] == x;
            if m < r.len() {
                assert(r[m] == x);
            }
            assert forall|i: int| 0 <= i < r.len() implies text_lt(x, #[trigger] r[i]) by {
                assert(r[i] == full[i]);
            }
        }
        assert forall|a: int| 0 <= a < r.len() implies is_record_file(#[trigger] r[a]) && ns.contains(
            r[a],
        ) by {
            assert(r[a] == full[a]);
            assert(full.contains(full[a]));
        }
    }
    all
}

} // verus!
