use vstd::prelude::*;

use crate::json::entry_views;
use crate::order::{ascending_entries, lemma_ascending_entries, pair_views, sorted_entries};
use crate::text::{
    chars_of, contains_seq, find_seq, is_empty_text, is_ws, lines, lines_from, lines_of, occurs_at,
    owned, push_str, strip_cr, trim_end_seq, trim_start_seq,
    replace_all, replace_seq, string_from_range, trim, trim_seq,
};

verus! {

/// The text before and after the first `:` of a line.
pub open spec fn split_colon(line: Seq<char>) -> Option<(Seq<char>, Seq<char>)>
    decreases line.len(),
{
    if line.len() == 0 {
        None
    } else if line[0] == ':' {
        Some((Seq::empty(), line.drop_first()))
    } else {
        match split_colon(line.drop_first()) {
            Some((a, b)) => Some((seq![line[0]] + a, b)),
            None => None,
        }
    }
}

proof fn lemma_split_colon(line: Seq<char>, k: int)
    requires
        0 <= k <= line.len(),
        forall|j: int| 0 <= j < k ==> line[j] != ':',
    ensures
        k < line.len() && line[k] == ':' ==> split_colon(line) == Some(
            (line.take(k), line.skip(k + 1)),
        ),
        k == line.len() ==> split_colon(line) is None,
    decreases k,
{
    if k > 0 {
        let d = line.drop_first();
        lemma_split_colon(d, k - 1);
        if k < line.len() && line[k] == ':' {
            assert(seq![line[0]] + d.take(k - 1) =~= line.take(k));
            assert(d.skip(k) =~= line.skip(k + 1));
        }
    } else if line.len() > 0 {
        assert(line.take(0) =~= Seq::<char>::empty());
        assert(line.skip(1) =~= line.drop_first());
    }
}

/// The metadata entries of frontmatter lines, in order: each line with a `:`
/// whose key and value are not blank, both trimmed.
pub open spec fn meta_entries(ls: Seq<Seq<char>>) -> Seq<(Seq<char>, Seq<char>)>
    decreases ls.len(),
{
    if ls.len() == 0 {
        Seq::empty()
    } else {
        let prev = meta_entries(ls.drop_last());
        match split_colon(ls.last()) {
            Some((k, v)) => if trim_seq(k).len() > 0 && trim_seq(v).len() > 0 {
                prev.push((trim_seq(k), trim_seq(v)))
            } else {
                prev
            },
            None => prev,
        }
    }
}

/// The first position at which `p` occurs in `s`.
pub open spec fn first_occurrence(s: Seq<char>, p: Seq<char>) -> int {
    choose|i: int| occurs_at(s, p, i) && forall|j: int| 0 <= j < i ==> !occurs_at(s, p, j)
}

/// What `parse_frontmatter` finds in a skill file: with `\r\n` read as `\n`,
/// a file that opens with `---` and a line break and has a later line
/// holding only `---` gives the metadata of the lines between (a later key
/// replacing an earlier one, keys in order) and the trimmed text after;
/// any other file gives no metadata and its trimmed text.
pub open spec fn parsed_frontmatter(raw: Seq<char>) -> (Seq<(Seq<char>, Seq<char>)>, Seq<char>) {
    let normalized = replace_seq(raw, "\r\n"@, "\n"@);
    let open = "---\n"@;
    let sep = "\n---\n"@;
    if normalized.len() >= open.len() && normalized.take(open.len() as int) == open {
        let rest = normalized.skip(open.len() as int);
        if contains_seq(rest, sep) {
            let i = first_occurrence(rest, sep);
            (
                ascending_entries(meta_entries(lines_of(rest.take(i)))),
                trim_seq(rest.skip(i + sep.len())),
            )
        } else {
            (Seq::empty(), trim_seq(normalized))
        }
    } else {
        (Seq::empty(), trim_seq(normalized))
    }
}

fn meta_of_lines(ls: &Vec<String>) -> (r: Vec<(String, String)>)
    ensures
        pair_views(r@) == meta_entries(ls@.map_values(|l: String| l@)),
{
    let ghost all = ls@.map_values(|l: String| l@);
    let mut r: Vec<(String, String)> = Vec::new();
    let mut i: usize = 0;
    assert(all.take(0) =~= Seq::<Seq<char>>::empty());
    while i < ls.len()
        invariant
            0 <= i <= ls.len(),
            all == ls@.map_values(|l: String| l@),
            pair_views(r@) == meta_entries(all.take(i as int)),
        decreases ls.len() - i,
    {
        let ghost pre = all.take(i + 1);
        assert(pre.drop_last() =~= all.take(i as int));
        assert(pre.last() == ls@[i as int]@);
        let v = chars_of(ls[i].as_str());
        let mut k: usize = 0;
        while k < v.len() && v[k] != ':'
            invariant
                0 <= k <= v.len(),
                forall|j: int| 0 <= j < k ==> v@[j] != ':',
            decreases v.len() - k,
        {
            k += 1;
        }
        proof {
            lemma_split_colon(v@, k as int);
        }
        if k < v.len() {
            let key = string_from_range(&v, 0, k);
            let value = string_from_range(&v, k + 1, v.len());
            assert(key@ =~= v@.take(k as int));
            assert(value@ =~= v@.skip(k + 1));
            let key = trim(key.as_str());
            let value = trim(value.as_str());
            if !is_empty_text(key.as_str()) && !is_empty_text(value.as_str()) {
                let ghost before = pair_views(r@);
                let ghost e = (key@, value@);
                r.push((key, value));
                assert(pair_views(r@) =~= before.push(e));
            }
        }
        i += 1;
    }
    assert(all.take(ls.len() as int) =~= all);
    r
}

/// Splits a skill file into its metadata and its body, as
/// `parsed_frontmatter` states.
pub fn parse_frontmatter(raw: &str) -> (r: (Vec<(String, String)>, String))
    ensures
        (pair_views(r.0@), r.1@) == parsed_frontmatter(raw@),
{
    proof {
        reveal_strlit("\r\n");
    }
    let normalized = replace_all(raw, "\r\n", "\n");
    let v = chars_of(normalized.as_str());
    let open = chars_of("---\n");
    let sep = chars_of("\n---\n");
    proof {
        reveal_strlit("---\n");
        reveal_strlit("\n---\n");
    }
    let opens = v.len() >= open.len() && crate::text::occurs_at_exec(&v, &open, 0);
    if opens {
        assert(v@.subrange(0, open@.len() as int) =~= v@.take(open@.len() as int));
        let rest = string_from_range(&v, open.len(), v.len());
        let rv = chars_of(rest.as_str());
        assert(rv@ =~= normalized@.skip(open@.len() as int));
        match find_seq(&rv, &sep) {
            Some(i) => {
                proof {
                    let c = first_occurrence(rv@, sep@);
                    assert(occurs_at(rv@, sep@, i as int));
                    assert(exists|x: int|
                        occurs_at(rv@, sep@, x) && forall|j: int| 0 <= j < x ==> !occurs_at(rv@, sep@, j));
                    assert(c == i);
                    assert(contains_seq(rv@, sep@));
                }
                let head = string_from_range(&rv, 0, i);
                let tail = string_from_range(&rv, i + sep.len(), rv.len());
                assert(head@ =~= rv@.take(i as int));
                assert(tail@ =~= rv@.skip(i + sep@.len()));
                let ls = lines(head.as_str());
                let entries = meta_of_lines(&ls);
                let meta = sorted_entries(&entries);
                proof {
                    lemma_ascending_entries(pair_views(entries@), pair_views(meta@));
                }
                (meta, trim(tail.as_str()))
            },
            None => (Vec::new(), trim(normalized.as_str())),
        }
    } else {
        proof {
            if normalized@.len() >= 4 {
                assert(v@.take(4) != "---\n"@) by {
                    if v@.take(4) == "---\n"@ {
                        assert(v@.subrange(0, 4) =~= v@.take(4));
                    }
                }
            }
        }
        (Vec::new(), trim(normalized.as_str()))
    }
}

/// The metadata lines of a rendered skill file: `key: value` for each entry
/// whose value is not blank, the value trimmed, each line ending with a
/// line break.
pub open spec fn meta_lines(es: Seq<(Seq<char>, Seq<char>)>) -> Seq<char>
    decreases es.len(),
{
    if es.len() == 0 {
        Seq::empty()
    } else {
        let prev = meta_lines(es.drop_last());
        let (k, v) = es.last();
        if trim_seq(v).len() > 0 {
            prev + k + ": "@ + trim_seq(v) + "\n"@
        } else {
            prev
        }
    }
}

/// A skill file rendered from its metadata, taken as a map in key order, and
/// its body: the metadata between `---` lines, a blank line, the trimmed
/// body and a final line break.
pub open spec fn rendered_frontmatter(meta: Seq<(Seq<char>, Seq<char>)>, body: Seq<char>) -> Seq<
    char,
> {
    "---\n"@ + meta_lines(ascending_entries(meta)) + "---\n\n"@ + trim_seq(body) + "\n"@
}

/// Renders a skill file, as `rendered_frontmatter` states.
pub fn render_frontmatter(meta: &Vec<(String, String)>, body: &str) -> (r: String)
    ensures
        r@ == rendered_frontmatter(pair_views(meta@), body@),
{
    let sorted = sorted_entries(meta);
    proof {
        lemma_ascending_entries(pair_views(meta@), pair_views(sorted@));
    }
    let ghost es = pair_views(sorted@);
    let mut out = owned("---\n");
    let mut i: usize = 0;
    assert(es.take(0) =~= Seq::<(Seq<char>, Seq<char>)>::empty());
    while i < sorted.len()
        invariant
            0 <= i <= sorted.len(),
            es == pair_views(sorted@),
            out@ == "---\n"@ + meta_lines(es.take(i as int)),
        decreases sorted.len() - i,
    {
        let ghost pre = es.take(i + 1);
        assert(pre.drop_last() =~= es.take(i as int));
        assert(pre.last() == (sorted@[i as int].0@, sorted@[i as int].1@));
        let value = trim(sorted[i].1.as_str());
        if !is_empty_text(value.as_str()) {
            push_str(&mut out, sorted[i].0.as_str());
            push_str(&mut out, ": ");
            push_str(&mut out, value.as_str());
            push_str(&mut out, "\n");
        }
        assert(out@ =~= "---\n"@ + meta_lines(pre));
        i += 1;
    }
    assert(es.take(sorted.len() as int) =~= es);
    push_str(&mut out, "---\n\n");
    push_str(&mut out, trim(body).as_str());
    push_str(&mut out, "\n");
    out
}

} // verus!

verus! {

// ---------------------------------------------------------------------------
// Rendering and parsing back
// ---------------------------------------------------------------------------

/// No `\r` of the text is followed by `\n`.
pub open spec fn no_crlf(s: Seq<char>) -> bool {
    forall|i: int| 0 <= i && i + 1 < s.len() ==> !(#[trigger] s[i] == '\r' && s[i + 1] == '\n')
}

proof fn lemma_no_crlf_concat(a: Seq<char>, b: Seq<char>)
    requires
        no_crlf(a),
        no_crlf(b),
        a.len() == 0 || b.len() == 0 || a.last() != '\r' || b[0] != '\n',
    ensures
        no_crlf(a + b),
{
    let s = a + b;
    assert forall|i: int| 0 <= i && i + 1 < s.len() implies !(#[trigger] s[i] == '\r' && s[i + 1] == '\n') by {
        if i + 1 < a.len() {
            assert(s[i] == a[i] && s[i + 1] == a[i + 1]);
        } else if i >= a.len() {
            assert(s[i] == b[i - a.len()] && s[i + 1] == b[i + 1 - a.len()]);
        } else {
            assert(s[i] == a.last() && s[i + 1] == b[0]);
        }
    }
}

proof fn lemma_replace_without_crlf(s: Seq<char>)
    requires
        no_crlf(s),
    ensures
        replace_seq(s, "\r\n"@, "\n"@) == s,
    decreases s.len(),
{
    reveal_strlit("\r\n");
    let p = "\r\n"@;
    if s.len() >= 2 {
        assert(s.take(2) != p) by {
            if s.take(2) == p {
                assert(s[0] == s.take(2)[0] && s[1] == s.take(2)[1]);
                assert(s[0] == '\r' && s[1] == '\n');
            }
        }
        let d = s.drop_first();
        assert(no_crlf(d)) by {
            assert forall|i: int| 0 <= i && i + 1 < d.len() implies !(#[trigger] d[i] == '\r' && d[i + 1] == '\n') by {
                assert(d[i] == s[i + 1] && d[i + 1] == s[i + 2]);
            }
        }
        lemma_replace_without_crlf(d);
        assert(s =~= seq![s[0]] + d);
    }
}

/// The lines of a text that ends a line, then of what follows it.
proof fn lemma_lines_concat(s1: Seq<char>, s2: Seq<char>, cur: Seq<char>)
    requires
        (s1.len() == 0 && cur.len() == 0) || (s1.len() > 0 && s1.last() == '\n'),
    ensures
        lines_from(s1 + s2, cur) == lines_from(s1, cur) + lines_from(s2, Seq::empty()),
    decreases s1.len(),
{
    if s1.len() == 0 {
        assert(cur =~= Seq::<char>::empty());
        assert(s1 + s2 =~= s2);
        assert(lines_from(s1, cur) =~= Seq::<Seq<char>>::empty());
        assert(lines_from(s2, Seq::empty()) =~= Seq::<Seq<char>>::empty() + lines_from(s2, Seq::empty()));
    } else {
        let d = s1.drop_first();
        assert((s1 + s2).drop_first() =~= d + s2);
        assert((s1 + s2)[0] == s1[0]);
        if s1[0] == '\n' {
            if d.len() == 0 {
                assert(d + s2 =~= s2);
                assert(lines_from(d, Seq::empty()) =~= Seq::<Seq<char>>::empty());
            } else {
                assert(d.last() == s1.last());
                lemma_lines_concat(d, s2, Seq::empty());
            }
            assert(lines_from(s1 + s2, cur) == seq![strip_cr(cur)] + lines_from(d + s2, Seq::empty()));
            assert(lines_from(s1, cur) == seq![strip_cr(cur)] + lines_from(d, Seq::empty()));
            assert(seq![strip_cr(cur)] + (lines_from(d, Seq::empty()) + lines_from(s2, Seq::empty()))
                =~= seq![strip_cr(cur)] + lines_from(d, Seq::empty()) + lines_from(s2, Seq::empty()));
        } else {
            assert(d.len() > 0);
            assert(d.last() == s1.last());
            lemma_lines_concat(d, s2, cur.push(s1[0]));
        }
    }
}

/// A text without line breaks is one line, after the partial line `cur`.
proof fn lemma_lines_single(t: Seq<char>, cur: Seq<char>)
    requires
        forall|i: int| 0 <= i < t.len() ==> t[i] != '\n',
        cur.len() + t.len() > 0,
    ensures
        lines_from(t, cur) == seq![cur + t],
        lines_from(t + "\n"@, cur) == seq![strip_cr(cur + t)],
    decreases t.len(),
{
    reveal_strlit("\n");
    if t.len() == 0 {
        assert(cur + t =~= cur);
        assert(t + "\n"@ =~= seq!['\n']);
        assert(seq!['\n'].drop_first() =~= Seq::<char>::empty());
        assert(lines_from(Seq::<char>::empty(), Seq::empty()) =~= Seq::<Seq<char>>::empty());
        assert(seq![strip_cr(cur)] + Seq::<Seq<char>>::empty() =~= seq![strip_cr(cur)]);
    } else {
        let d = t.drop_first();
        assert(t[0] != '\n');
        lemma_lines_single(d, cur.push(t[0]));
        assert(cur.push(t[0]) + d =~= cur + t);
        assert((t + "\n"@).drop_first() =~= d + "\n"@);
        assert((t + "\n"@)[0] == t[0]);
    }
}

} // verus!

verus! {

/// A key that renders and reads back as itself: not blank, trimmed, without
/// `:` or a line break.
pub open spec fn frontmatter_key(k: Seq<char>) -> bool {
    &&& k.len() > 0
    &&& trim_seq(k) == k
    &&& forall|i: int| 0 <= i < k.len() ==> k[i] != ':' && k[i] != '\n'
}

/// A value that renders and reads back as itself: not blank, trimmed, without
/// a line break.
pub open spec fn frontmatter_value(v: Seq<char>) -> bool {
    &&& v.len() > 0
    &&& trim_seq(v) == v
    &&& forall|i: int| 0 <= i < v.len() ==> v[i] != '\n'
}

/// Metadata that a rendered file gives back: entries with ascending keys,
/// each key and value as `frontmatter_key` and `frontmatter_value` state.
pub open spec fn frontmatter_entries(es: Seq<(Seq<char>, Seq<char>)>) -> bool {
    forall|i: int| 0 <= i < es.len() ==> frontmatter_key(#[trigger] es[i].0) && frontmatter_value(es[i].1)
}

pub open spec fn meta_line(e: (Seq<char>, Seq<char>)) -> Seq<char> {
    e.0 + ": "@ + e.1
}

proof fn lemma_trimmed_edges(s: Seq<char>)
    requires
        s.len() > 0,
        trim_seq(s) == s,
    ensures
        !is_ws(s[0]),
        !is_ws(s.last()),
        trim_start_seq(s) == s,
        trim_end_seq(s) == s,
{
    crate::text::lemma_trim_edges(s);
}

proof fn lemma_meta_line_shape(e: (Seq<char>, Seq<char>))
    requires
        frontmatter_key(e.0),
        frontmatter_value(e.1),
    ensures
        meta_line(e).len() >= 4,
        forall|i: int| 0 <= i < meta_line(e).len() ==> meta_line(e)[i] != '\n',
        meta_line(e).last() != '\r',
        meta_line(e)[0] != '\n',
        !(meta_line(e)[0] == '-' && meta_line(e)[1] == '-' && meta_line(e)[2] == '-' && meta_line(e)[3]
            == '\n'),
        split_colon(meta_line(e)) == Some((e.0, " "@ + e.1)),
        trim_seq(" "@ + e.1) == e.1,
{
    reveal_strlit(": ");
    reveal_strlit(" ");
    let (k, v) = e;
    let l = meta_line(e);
    lemma_trimmed_edges(k);
    lemma_trimmed_edges(v);
    assert(l =~= k + seq![':', ' '] + v);
    assert(l.last() == v.last());
    assert forall|i: int| 0 <= i < l.len() implies l[i] != '\n' by {
        if i < k.len() {
            assert(l[i] == k[i]);
        } else if i < k.len() + 2 {
        } else {
            assert(l[i] == v[i - k.len() - 2]);
        }
    }
    assert(l[k.len() as int] == ':');
    assert forall|j: int| 0 <= j < k.len() implies l[j] != ':' by {
        assert(l[j] == k[j]);
    }
    lemma_split_colon(l, k.len() as int);
    assert(l.take(k.len() as int) =~= k);
    assert(l.skip(k.len() as int + 1) =~= " "@ + v);
    let sv = " "@ + v;
    assert(sv[0] == ' ');
    assert(sv.drop_first() =~= v);
    assert(trim_start_seq(sv) == trim_start_seq(v));
}

proof fn lemma_meta_lines_shape(es: Seq<(Seq<char>, Seq<char>)>)
    requires
        frontmatter_entries(es),
    ensures
        es.len() > 0 ==> meta_lines(es).len() > 0 && meta_lines(es).last() == '\n',
        es.len() == 0 ==> meta_lines(es).len() == 0,
        meta_lines(es) == (if es.len() == 0 {
            Seq::empty()
        } else {
            meta_lines(es.drop_last()) + meta_line(es.last()) + "\n"@
        }),
        no_crlf(meta_lines(es)),
        lines_from(meta_lines(es), Seq::empty()) == es.map_values(|e: (Seq<char>, Seq<char>)| meta_line(e)),
        forall|j: int| 0 <= j && j + 5 <= meta_lines(es).len() ==> !occurs_at(meta_lines(es), "\n---\n"@, j),
    decreases es.len(),
{
    reveal_strlit("\n");
    reveal_strlit("\n---\n");
    reveal_strlit(": ");
    if es.len() == 0 {
        assert(es.map_values(|e: (Seq<char>, Seq<char>)| meta_line(e)) =~= Seq::<Seq<char>>::empty());
    } else {
        let p = es.drop_last();
        assert(frontmatter_entries(p)) by {
            assert forall|i: int| 0 <= i < p.len() implies frontmatter_key(#[trigger] p[i].0) && frontmatter_value(p[i].1) by {
                assert(p[i] == es[i]);
            }
        }
        lemma_meta_lines_shape(p);
        let e = es.last();
        assert(frontmatter_key(es[es.len() - 1].0) && frontmatter_value(es[es.len() - 1].1));
        lemma_meta_line_shape(e);
        lemma_trimmed_edges(e.1);
        let mp = meta_lines(p);
        let l = meta_line(e);
        assert(meta_lines(es) == mp + e.0 + ": "@ + e.1 + "\n"@);
        assert(mp + e.0 + ": "@ + e.1 + "\n"@ =~= mp + (l + "\n"@));
        let ln = l + "\n"@;
        // no \r\n
        assert(no_crlf(ln)) by {
            assert forall|i: int| 0 <= i && i + 1 < ln.len() implies !(#[trigger] ln[i] == '\r' && ln[i + 1] == '\n') by {
                if i + 1 < l.len() {
                    assert(ln[i + 1] == l[i + 1]);
                } else {
                    assert(ln[i] == l.last());
                }
            }
        }
        assert(ln[0] == l[0]);
        lemma_no_crlf_concat(mp, ln);
        // lines
        lemma_lines_concat(mp, ln, Seq::empty());
        lemma_lines_single(l, Seq::empty());
        assert(Seq::<char>::empty() + l =~= l);
        assert(strip_cr(l) == l);
        assert(es.map_values(|x: (Seq<char>, Seq<char>)| meta_line(x)) =~= p.map_values(
            |x: (Seq<char>, Seq<char>)| meta_line(x),
        ) + seq![l]);
        // no separator inside
        let ml = mp + ln;
        assert forall|j: int| 0 <= j && j + 5 <= ml.len() implies !occurs_at(ml, "\n---\n"@, j) by {
            if occurs_at(ml, "\n---\n"@, j) {
                let w = ml.subrange(j, j + 5);
                assert(w[0] == ml[j] && w[1] == ml[j + 1] && w[2] == ml[j + 2] && w[3] == ml[j + 3] && w[4]
                    == ml[j + 4]);
                assert(w[0] == '\n' && w[1] == '-' && w[2] == '-' && w[3] == '-' && w[4] == '\n');
                if j + 5 <= mp.len() {
                    assert(mp.subrange(j, j + 5) =~= w);
                    assert(occurs_at(mp, "\n---\n"@, j));
                } else if j >= mp.len() {
                    assert(ml[j] == ln[j - mp.len()]);
                    assert(j - mp.len() < l.len());
                    assert(ln[j - mp.len()] == l[j - mp.len()]);
                } else if j == mp.len() - 1 {
                    assert(ml[j + 1] == l[0] && ml[j + 2] == l[1] && ml[j + 3] == l[2] && ml[j + 4] == l[3]);
                } else {
                    assert(mp.len() > 0);
                    assert(ml[mp.len() - 1] == '\n');
                }
            }
        }
    }
}

proof fn lemma_meta_entries_back(es: Seq<(Seq<char>, Seq<char>)>)
    requires
        frontmatter_entries(es),
    ensures
        meta_entries(es.map_values(|e: (Seq<char>, Seq<char>)| meta_line(e))) == es,
    decreases es.len(),
{
    let ls = es.map_values(|e: (Seq<char>, Seq<char>)| meta_line(e));
    if es.len() == 0 {
        assert(meta_entries(ls) =~= es);
    } else {
        let p = es.drop_last();
        assert(frontmatter_entries(p)) by {
            assert forall|i: int| 0 <= i < p.len() implies frontmatter_key(#[trigger] p[i].0) && frontmatter_value(p[i].1) by {
                assert(p[i] == es[i]);
            }
        }
        lemma_meta_entries_back(p);
        assert(ls.drop_last() =~= p.map_values(|e: (Seq<char>, Seq<char>)| meta_line(e)));
        let e = es.last();
        assert(frontmatter_key(es[es.len() - 1].0) && frontmatter_value(es[es.len() - 1].1));
        lemma_meta_line_shape(e);
        assert(ls.last() == meta_line(e));
        assert(meta_entries(ls) == p.push((e.0, e.1)));
        assert(p.push(e) =~= es);
    }
}

} // verus!

verus! {

proof fn lemma_trim_start_skip(s: Seq<char>) -> (k: int)
    ensures
        0 <= k <= s.len(),
        trim_start_seq(s) == s.skip(k),
    decreases s.len(),
{
    if s.len() > 0 && is_ws(s[0]) {
        let k = lemma_trim_start_skip(s.drop_first());
        assert(s.drop_first().skip(k) =~= s.skip(k + 1));
        k + 1
    } else {
        assert(s.skip(0) =~= s);
        0
    }
}

proof fn lemma_trim_no_crlf(s: Seq<char>)
    requires
        no_crlf(s),
    ensures
        no_crlf(trim_seq(s)),
{
    let k = lemma_trim_start_skip(s);
    let a = trim_start_seq(s);
    crate::text::lemma_trim_edges(s);
    let t = trim_seq(s);
    assert(trim_end_seq(a).len() <= a.len() && trim_end_seq(a) == a.subrange(0, trim_end_seq(a).len() as int)) by {
        lemma_trim_end_shape_pub(a);
    }
    assert forall|i: int| 0 <= i && i + 1 < t.len() implies !(#[trigger] t[i] == '\r' && t[i + 1] == '\n') by {
        assert(t[i] == s[k + i] && t[i + 1] == s[k + i + 1]);
    }
}

proof fn lemma_trim_end_shape_pub(s: Seq<char>)
    ensures
        trim_end_seq(s).len() <= s.len(),
        trim_end_seq(s) == s.subrange(0, trim_end_seq(s).len() as int),
    decreases s.len(),
{
    if s.len() > 0 && is_ws(s.last()) {
        lemma_trim_end_shape_pub(s.drop_last());
        let t = trim_end_seq(s.drop_last());
        assert(s.drop_last().subrange(0, t.len() as int) =~= s.subrange(0, t.len() as int));
    } else {
        assert(s.subrange(0, s.len() as int) =~= s);
    }
}

proof fn lemma_trim_wrapped(tb: Seq<char>)
    requires
        trim_seq(tb) == tb,
    ensures
        trim_seq("\n"@ + tb + "\n"@) == tb,
{
    reveal_strlit("\n");
    let w = "\n"@ + tb + "\n"@;
    assert(w[0] == '\n');
    assert(w.drop_first() =~= tb + "\n"@);
    assert(trim_start_seq(w) == trim_start_seq(tb + "\n"@));
    if tb.len() > 0 {
        lemma_trimmed_edges(tb);
        assert((tb + "\n"@)[0] == tb[0]);
        assert(trim_start_seq(tb + "\n"@) == tb + "\n"@);
        assert((tb + "\n"@).last() == '\n');
        assert((tb + "\n"@).drop_last() =~= tb);
        assert(trim_end_seq(tb + "\n"@) == trim_end_seq(tb));
    } else {
        let n = tb + "\n"@;
        assert(n =~= seq!['\n']);
        assert(n.drop_first() =~= Seq::<char>::empty());
        assert(trim_start_seq(n) == trim_start_seq(Seq::<char>::empty()));
        assert(trim_end_seq(Seq::<char>::empty()) =~= tb);
    }
}

/// Rendering metadata and a body and parsing the file back gives them again:
/// the metadata (a map, so with ascending keys; not empty; each key and value
/// not blank, trimmed and without line breaks, no key with `:`) and the body
/// trimmed, where the body holds no `\r\n`.
pub proof fn lemma_frontmatter_round_trip(meta: Seq<(Seq<char>, Seq<char>)>, body: Seq<char>)
    requires
        meta.len() > 0,
        crate::order::keys_ascending(meta),
        frontmatter_entries(meta),
        no_crlf(body),
    ensures
        parsed_frontmatter(rendered_frontmatter(meta, body)) == (meta, trim_seq(body)),
{
    reveal_strlit("---\n");
    reveal_strlit("---\n\n");
    reveal_strlit("\n---\n");
    reveal_strlit("\n");
    lemma_ascending_entries(meta, meta);
    lemma_meta_lines_shape(meta);
    let ml = meta_lines(meta);
    let tb = trim_seq(body);
    crate::text::lemma_trim_idempotent(body);
    crate::text::lemma_trim_edges(body);
    lemma_trim_no_crlf(body);
    let open = "---\n"@;
    let mid = "---\n\n"@;
    let nl = "\n"@;
    let r = open + ml + mid + tb + nl;
    assert(rendered_frontmatter(meta, body) == r);
    // no \r\n anywhere
    assert(no_crlf(open)) by {
        assert forall|i: int| 0 <= i && i + 1 < open.len() implies !(#[trigger] open[i] == '\r' && open[i + 1] == '\n') by {}
    }
    assert(no_crlf(mid)) by {
        assert forall|i: int| 0 <= i && i + 1 < mid.len() implies !(#[trigger] mid[i] == '\r' && mid[i + 1] == '\n') by {}
    }
    assert(no_crlf(nl)) by {
        assert forall|i: int| 0 <= i && i + 1 < nl.len() implies !(#[trigger] nl[i] == '\r' && nl[i + 1] == '\n') by {}
    }
    lemma_no_crlf_concat(open, ml);
    lemma_no_crlf_concat(open + ml, mid);
    lemma_no_crlf_concat(open + ml + mid, tb);
    lemma_no_crlf_concat(open + ml + mid + tb, nl);
    lemma_replace_without_crlf(r);
    let normalized = replace_seq(r, "\r\n"@, "\n"@);
    assert(normalized == r);
    assert(r.take(4) =~= open);
    let rest = r.skip(4);
    assert(rest =~= ml + mid + tb + nl);
    let l = ml.len() as int;
    let sep = "\n---\n"@;
    assert(occurs_at(rest, sep, l - 1)) by {
        assert(rest.subrange(l - 1, l + 4) =~= sep) by {
            assert(rest[l - 1] == ml[l - 1]);
            assert(rest[l] == '-' && rest[l + 1] == '-' && rest[l + 2] == '-' && rest[l + 3] == '\n');
        }
    }
    assert forall|j: int| 0 <= j < l - 1 implies !occurs_at(rest, sep, j) by {
        if occurs_at(rest, sep, j) {
            let w = rest.subrange(j, j + 5);
            assert(w[4] == rest[j + 4]);
            if j + 5 <= l {
                assert(ml.subrange(j, j + 5) =~= w);
                assert(occurs_at(ml, sep, j));
            } else {
                assert(rest[j + 4] == mid[j + 4 - l]);
            }
        }
    }
    assert(contains_seq(rest, sep));
    let c = first_occurrence(rest, sep);
    assert(occurs_at(rest, sep, c) && forall|j: int| 0 <= j < c ==> !occurs_at(rest, sep, j));
    assert(c == l - 1) by {
        if c > l - 1 {
            assert(!occurs_at(rest, sep, l - 1));
        }
        if c < l - 1 {
            assert(!occurs_at(rest, sep, c));
        }
    }
    // the metadata lines
    let head = rest.take(l - 1);
    let p = meta.drop_last();
    assert(frontmatter_entries(p)) by {
        assert forall|i: int| 0 <= i < p.len() implies frontmatter_key(#[trigger] p[i].0) && frontmatter_value(p[i].1) by {
            assert(p[i] == meta[i]);
        }
    }
    lemma_meta_lines_shape(p);
    let e = meta.last();
    assert(frontmatter_key(meta[meta.len() - 1].0) && frontmatter_value(meta[meta.len() - 1].1));
    lemma_meta_line_shape(e);
    let mp = meta_lines(p);
    assert(ml == mp + meta_line(e) + nl);
    assert(head =~= mp + meta_line(e));
    lemma_lines_concat(mp, meta_line(e), Seq::empty());
    lemma_lines_single(meta_line(e), Seq::empty());
    assert(Seq::<char>::empty() + meta_line(e) =~= meta_line(e));
    assert(lines_of(head) =~= meta.map_values(|x: (Seq<char>, Seq<char>)| meta_line(x))) by {
        assert(meta.map_values(|x: (Seq<char>, Seq<char>)| meta_line(x)) =~= p.map_values(
            |x: (Seq<char>, Seq<char>)| meta_line(x),
        ) + seq![meta_line(e)]);
    }
    lemma_meta_entries_back(meta);
    // the body
    assert(rest.skip(l - 1 + 5) =~= nl + tb + nl);
    lemma_trim_wrapped(tb);
}

} // verus!
