//! Collapse repeated lines into one line with an occurrence count.

use super::Strategy;
use super::error_only::first_n;
use crate::text::{
    decimal, eq_chars, from_chars, join, join_str, lemma_views_push, lines, lines_of,
    push_all, push_decimal, push_str, slice_of, to_chars, trim, trim_of, views,
};
use crate::RtkError;
use vstd::prelude::*;

verus! {

/// Groups non-blank lines by their first forty characters and lists the
/// groups, most frequent first.
pub struct GroupingByPattern;

/// A group entry: the key and how many lines share it.
pub type Group = (Seq<char>, nat);

/// The grouping key of a line: its first forty characters.
pub open spec fn group_key(l: Seq<char>) -> Seq<char> {
    if l.len() > 40 {
        l.take(40)
    } else {
        l
    }
}

/// The keys of the non-blank lines of `ls`, in order.
pub open spec fn grouping_keys(ls: Seq<Seq<char>>) -> Seq<Seq<char>>
    decreases ls.len(),
{
    if ls.len() == 0 {
        Seq::empty()
    } else if trim(ls.last()).len() == 0 {
        grouping_keys(ls.drop_last())
    } else {
        grouping_keys(ls.drop_last()).push(group_key(ls.last()))
    }
}

/// The distinct elements of `ks`, in order of first occurrence.
pub open spec fn distinct(ks: Seq<Seq<char>>) -> Seq<Seq<char>>
    decreases ks.len(),
{
    if ks.len() == 0 {
        Seq::empty()
    } else {
        let d = distinct(ks.drop_last());
        if d.contains(ks.last()) {
            d
        } else {
            d.push(ks.last())
        }
    }
}

/// How often `k` occurs in `ks`.
pub open spec fn occurrences(ks: Seq<Seq<char>>, k: Seq<char>) -> nat
    decreases ks.len(),
{
    if ks.len() == 0 {
        0
    } else {
        occurrences(ks.drop_last(), k) + if ks.last() == k {
            1nat
        } else {
            0nat
        }
    }
}

/// Each distinct key of `ks` with its number of occurrences, in order of
/// first occurrence.
pub open spec fn tally(ks: Seq<Seq<char>>) -> Seq<Group> {
    let d = distinct(ks);
    Seq::new(d.len(), |i: int| (d[i], occurrences(ks, d[i])))
}

/// `e` inserted into `s` after every entry whose count is at least `e`'s.
pub open spec fn insert_desc(s: Seq<Group>, e: Group) -> Seq<Group>
    decreases s.len(),
{
    if s.len() == 0 {
        seq![e]
    } else if s.last().1 >= e.1 {
        s.push(e)
    } else {
        insert_desc(s.drop_last(), e).push(s.last())
    }
}

/// `es` stably sorted by count, largest first.
pub open spec fn sort_desc(es: Seq<Group>) -> Seq<Group>
    decreases es.len(),
{
    if es.len() == 0 {
        Seq::empty()
    } else {
        insert_desc(sort_desc(es.drop_last()), es.last())
    }
}

/// The output line for a group.
pub open spec fn render_group(e: Group) -> Seq<char> {
    if e.1 > 1 {
        e.0 + " ("@ + decimal(e.1) + " occurrences)"@
    } else {
        e.0
    }
}

/// The output lines for a list of groups.
pub open spec fn render_groups(es: Seq<Group>) -> Seq<Seq<char>> {
    Seq::new(es.len(), |i: int| render_group(es[i]))
}

/// What the grouping strategy makes of `input`.
pub open spec fn grouping(input: Seq<char>) -> Seq<char> {
    if input.len() == 0 {
        "(empty)"@
    } else {
        let ks = grouping_keys(lines_of(input));
        if ks.len() == 0 {
            "(empty)"@
        } else {
            join(render_groups(first_n(sort_desc(tally(ks)), 50)), "\n"@)
        }
    }
}

// ---------------------------------------------------------------------
// Lemmas
// ---------------------------------------------------------------------

pub proof fn lemma_distinct(ks: Seq<Seq<char>>)
    ensures
        distinct(ks).no_duplicates(),
        forall|k: Seq<char>| distinct(ks).contains(k) <==> ks.contains(k),
    decreases ks.len(),
{
    if ks.len() > 0 {
        let p = ks.drop_last();
        let x = ks.last();
        let d = distinct(p);
        lemma_distinct(p);
        assert forall|k: Seq<char>| distinct(ks).contains(k) <==> ks.contains(k) by {
            if ks.contains(k) {
                let i = choose|i: int| 0 <= i < ks.len() && ks[i] == k;
                if i < p.len() {
                    assert(p[i] == k);
                    assert(p.contains(k));
                    assert(d.contains(k));
                    let w = choose|w: int| 0 <= w < d.len() && d[w] == k;
                    assert(distinct(ks)[w] == k);
                } else {
                    assert(k == x);
                    if d.contains(x) {
                    } else {
                        assert(distinct(ks)[d.len() as int] == k);
                    }
                }
            }
            if distinct(ks).contains(k) {
                let w = choose|w: int| 0 <= w < distinct(ks).len() && distinct(ks)[w] == k;
                if w < d.len() {
                    assert(d[w] == k);
                    assert(d.contains(k));
                    assert(p.contains(k));
                    let i = choose|i: int| 0 <= i < p.len() && p[i] == k;
                    assert(ks[i] == k);
                } else {
                    assert(k == x);
                    assert(ks[ks.len() - 1] == k);
                }
            }
        }
    }
}

pub proof fn lemma_occurrences_absent(ks: Seq<Seq<char>>, k: Seq<char>)
    requires
        !ks.contains(k),
    ensures
        occurrences(ks, k) == 0,
    decreases ks.len(),
{
    if ks.len() > 0 {
        let p = ks.drop_last();
        assert(!p.contains(k)) by {
            if p.contains(k) {
                let i = choose|i: int| 0 <= i < p.len() && p[i] == k;
                assert(ks[i] == k);
            }
        }
        lemma_occurrences_absent(p, k);
        assert(ks[ks.len() - 1] != k);
    }
}

/// Inserting into a list splits it at `pos`: everything before keeps a count
/// at least `e`'s, everything after has a smaller count.
pub proof fn lemma_insert_desc_at(s: Seq<Group>, e: Group, pos: int)
    requires
        0 <= pos <= s.len(),
        forall|j: int| pos <= j < s.len() ==> s[j].1 < e.1,
        pos > 0 ==> s[pos - 1].1 >= e.1,
    ensures
        insert_desc(s, e) == s.take(pos) + seq![e] + s.skip(pos),
    decreases s.len(),
{
    if s.len() == 0 {
        assert(s.take(pos) + seq![e] + s.skip(pos) =~= seq![e]);
    } else if s.last().1 >= e.1 {
        assert(pos == s.len());
        assert(s.take(pos) + seq![e] + s.skip(pos) =~= s.push(e));
    } else {
        let p = s.drop_last();
        lemma_insert_desc_at(p, e, pos);
        assert(p.take(pos) + seq![e] + p.skip(pos) + seq![s.last()] =~= s.take(pos) + seq![e]
            + s.skip(pos));
    }
}

// ---------------------------------------------------------------------
// Executable
// ---------------------------------------------------------------------

/// Entries held as parallel key and count vectors.
pub open spec fn entries(keys: Seq<Vec<char>>, counts: Seq<usize>) -> Seq<Group> {
    Seq::new(keys.len(), |i: int| (keys[i]@, counts[i] as nat))
}

/// The grouping key of a line.
fn group_key_exec(l: &Vec<char>) -> (r: Vec<char>)
    ensures
        r@ == group_key(l@),
{
    if l.len() > 40 {
        slice_of(l, 0, 40)
    } else {
        slice_of(l, 0, l.len())
    }
}

/// Each distinct key of `ks` with its count, in order of first occurrence.
pub fn tally_of(ks: &Vec<Vec<char>>) -> (r: (Vec<Vec<char>>, Vec<usize>))
    ensures
        r.0.len() == r.1.len(),
        entries(r.0@, r.1@) == tally(views(ks@)),
{
    let ghost kv = views(ks@);
    let mut keys: Vec<Vec<char>> = Vec::new();
    let mut counts: Vec<usize> = Vec::new();
    let mut i: usize = 0;
    while i < ks.len()
        invariant
            i <= ks.len(),
            kv == views(ks@),
            keys.len() == counts.len(),
            views(keys@) == distinct(kv.take(i as int)),
            forall|j: int|
                0 <= j < counts.len() ==> counts@[j] == occurrences(
                    kv.take(i as int),
                    #[trigger] keys@[j]@,
                ),
            forall|j: int| 0 <= j < counts.len() ==> #[trigger] counts@[j] <= i,
        decreases ks.len() - i,
    {
        let ghost ksp = kv.take(i as int);
        let key = slice_of(&ks[i], 0, ks[i].len());
        assert(key@ == kv[i as int]);
        let ghost ks2 = ksp.push(key@);
        assert(kv.take(i + 1) == ks2);
        assert(ks2.drop_last() == ksp);
        proof {
            lemma_distinct(ksp);
        }
        let mut j: usize = 0;
        while j < keys.len() && !eq_chars(&keys[j], &key)
            invariant
                j <= keys.len(),
                forall|m: int| 0 <= m < j ==> keys@[m]@ != key@,
            decreases keys.len() - j,
        {
            j += 1;
        }
        if j < keys.len() {
            assert(keys@[j as int]@ == key@);
            let c = counts[j];
            counts.set(j, c + 1);
            assert(views(keys@)[j as int] == key@);
            assert forall|m: int| 0 <= m < counts.len() implies counts@[m] == occurrences(
                ks2,
                #[trigger] keys@[m]@,
            ) by {
                if m != j {
                    assert(views(keys@)[m] == keys@[m]@);
                    assert(views(keys@)[m] != views(keys@)[j as int]);
                }
            }
            assert(distinct(ksp).contains(key@));
            assert(views(keys@) == distinct(ks2));
        } else {
            assert(!distinct(ksp).contains(key@)) by {
                if distinct(ksp).contains(key@) {
                    let m = choose|m: int| 0 <= m < distinct(ksp).len() && distinct(ksp)[m] == key@;
                    assert(views(keys@)[m] == keys@[m]@);
                    assert(keys@[m]@ == key@);
                }
            }
            proof {
                lemma_occurrences_absent(ksp, key@);
            }
            let ghost k0 = keys@;
            keys.push(key);
            counts.push(1);
            proof {
                lemma_views_push(k0, key);
            }
            assert forall|m: int| 0 <= m < counts.len() implies counts@[m] == occurrences(
                ks2,
                #[trigger] keys@[m]@,
            ) by {
                if m < k0.len() {
                    assert(keys@[m] == k0[m]);
                }
            }
        }
        i += 1;
    }
    assert(kv.take(ks.len() as int) == kv);
    assert(entries(keys@, counts@) =~= tally(kv));
    (keys, counts)
}

/// The grouping keys of the non-blank lines of `ls`.
fn grouping_keys_exec(ls: &Vec<Vec<char>>) -> (r: Vec<Vec<char>>)
    ensures
        views(r@) == grouping_keys(views(ls@)),
{
    let ghost lv = views(ls@);
    let mut keys: Vec<Vec<char>> = Vec::new();
    let mut i: usize = 0;
    while i < ls.len()
        invariant
            i <= ls.len(),
            lv == views(ls@),
            views(keys@) == grouping_keys(lv.take(i as int)),
        decreases ls.len() - i,
    {
        assert(lv.take(i + 1).drop_last() == lv.take(i as int));
        assert(lv[i as int] == ls@[i as int]@);
        let t = trim_of(&ls[i]);
        if t.len() > 0 {
            let key = group_key_exec(&ls[i]);
            let ghost k0 = keys@;
            keys.push(key);
            proof {
                lemma_views_push(k0, key);
            }
        }
        i += 1;
    }
    assert(lv.take(ls.len() as int) == lv);
    keys
}

/// The entries stably sorted by count, largest first.
pub fn sort_exec(keys: Vec<Vec<char>>, counts: Vec<usize>) -> (r: (Vec<Vec<char>>, Vec<usize>))
    requires
        keys.len() == counts.len(),
    ensures
        r.0.len() == r.1.len(),
        entries(r.0@, r.1@) == sort_desc(entries(keys@, counts@)),
{
    let ghost es = entries(keys@, counts@);
    let mut sk: Vec<Vec<char>> = Vec::new();
    let mut sc: Vec<usize> = Vec::new();
    let mut i: usize = 0;
    let n = keys.len();
    while i < n
        invariant
            n == keys.len(),
            keys.len() == counts.len(),
            es == entries(keys@, counts@),
            i <= n,
            sk.len() == sc.len(),
            entries(sk@, sc@) == sort_desc(es.take(i as int)),
        decreases n - i,
    {
        assert(es.take(i + 1).drop_last() == es.take(i as int));
        let c = counts[i];
        let k = slice_of(&keys[i], 0, keys[i].len());
        let ghost s = entries(sk@, sc@);
        let ghost e: Group = (k@, c as nat);
        assert(es[i as int] == e);
        let mut pos = sc.len();
        while pos > 0 && sc[pos - 1] < c
            invariant
                pos <= sc.len(),
                sk.len() == sc.len(),
                s == entries(sk@, sc@),
                e.1 == c as nat,
                forall|j: int| pos <= j < s.len() ==> s[j].1 < e.1,
            decreases pos,
        {
            assert(s[pos - 1].1 == sc@[pos - 1] as nat);
            pos -= 1;
        }
        proof {
            lemma_insert_desc_at(s, e, pos as int);
        }
        sk.insert(pos, k);
        sc.insert(pos, c);
        assert(entries(sk@, sc@) =~= s.take(pos as int) + seq![e] + s.skip(pos as int));
        i += 1;
    }
    assert(es.take(n as int) == es);
    (sk, sc)
}

/// The output line for one group.
fn render_group_exec(key: &Vec<char>, count: usize) -> (r: Vec<char>)
    ensures
        r@ == render_group((key@, count as nat)),
{
    let mut r: Vec<char> = Vec::new();
    push_all(&mut r, key);
    if count > 1 {
        push_str(&mut r, " (");
        push_decimal(&mut r, count);
        push_str(&mut r, " occurrences)");
    }
    r
}

/// The grouped form of `input`.
pub fn grouping_exec(input: &str) -> (r: String)
    ensures
        r@ == grouping(input@),
{
    let v = to_chars(input);
    if v.len() == 0 {
        return String::from_str("(empty)");
    }
    let ls = lines(&v);
    let ks = grouping_keys_exec(&ls);
    let (keys, counts) = tally_of(&ks);
    if keys.len() == 0 {
        return String::from_str("(empty)");
    }
    let (sk, sc) = sort_exec(keys, counts);
    let ghost sorted = entries(sk@, sc@);
    let n: usize = if sk.len() > 50 {
        50
    } else {
        sk.len()
    };
    let ghost shown = first_n(sorted, 50);
    assert(shown.len() == n);
    let mut out: Vec<Vec<char>> = Vec::new();
    let mut i: usize = 0;
    while i < n
        invariant
            n <= sk.len(),
            sk.len() == sc.len(),
            sorted == entries(sk@, sc@),
            shown == first_n(sorted, 50),
            shown.len() == n,
            i <= n,
            views(out@) == render_groups(shown.take(i as int)),
        decreases n - i,
    {
        let l = render_group_exec(&sk[i], sc[i]);
        assert(shown[i as int] == (sk@[i as int]@, sc@[i as int] as nat));
        let ghost o0 = out@;
        out.push(l);
        proof {
            lemma_views_push(o0, l);
        }
        assert(views(out@) =~= render_groups(shown.take(i + 1)));
        i += 1;
    }
    assert(shown.take(n as int) == shown);
    let j = join_str(&out, "\n");
    from_chars(&j)
}

impl Strategy for GroupingByPattern {
    open spec fn spec_name(&self) -> Seq<char> {
        "grouping_by_pattern"@
    }

    open spec fn spec_compress(&self, input: Seq<char>) -> Seq<char> {
        grouping(input)
    }

    fn name(&self) -> (r: &'static str) {
        "grouping_by_pattern"
    }

    fn compress(&self, input: &str) -> (r: Result<String, RtkError>) {
        Ok(grouping_exec(input))
    }
}

/// Adds `x` to the distinct list of `ks`, giving the distinct list of
/// `ks` followed by `x`.
pub fn add_distinct(ds: &mut Vec<Vec<char>>, x: Vec<char>, Ghost(ks): Ghost<Seq<Seq<char>>>)
    requires
        views(old(ds)@) == distinct(ks),
    ensures
        views(final(ds)@) == distinct(ks.push(x@)),
{
    assert(ks.push(x@).drop_last() == ks);
    let mut j: usize = 0;
    while j < ds.len() && !eq_chars(&ds[j], &x)
        invariant
            j <= ds.len(),
            forall|m: int| 0 <= m < j ==> ds@[m]@ != x@,
        decreases ds.len() - j,
    {
        j += 1;
    }
    if j < ds.len() {
        assert(views(ds@)[j as int] == x@);
        assert(distinct(ks).contains(x@));
    } else {
        assert(!distinct(ks).contains(x@)) by {
            if distinct(ks).contains(x@) {
                let m = choose|m: int| 0 <= m < distinct(ks).len() && distinct(ks)[m] == x@;
                assert(views(ds@)[m] == ds@[m]@);
            }
        }
        let ghost d0 = ds@;
        ds.push(x);
        proof {
            lemma_views_push(d0, x);
        }
    }
}

/// `"<prefix><key>: <count>"` for an entry.
pub open spec fn render_kv(e: Group, prefix: Seq<char>) -> Seq<char> {
    prefix + e.0 + ": "@ + decimal(e.1)
}

/// `render_kv` of every entry.
pub open spec fn render_kvs(es: Seq<Group>, prefix: Seq<char>) -> Seq<Seq<char>> {
    Seq::new(es.len(), |i: int| render_kv(es[i], prefix))
}

/// The first `n` entries rendered as `"<prefix><key>: <count>"`.
pub fn render_top(keys: &Vec<Vec<char>>, counts: &Vec<usize>, n: usize, prefix: &str) -> (r: Vec<
    Vec<char>,
>)
    requires
        keys.len() == counts.len(),
    ensures
        views(r@) == render_kvs(first_n(entries(keys@, counts@), n as nat), prefix@),
{
    let ghost es = entries(keys@, counts@);
    let ghost shown = first_n(es, n as nat);
    let m: usize = if keys.len() > n {
        n
    } else {
        keys.len()
    };
    assert(shown.len() == m);
    let mut out: Vec<Vec<char>> = Vec::new();
    let mut i: usize = 0;
    while i < m
        invariant
            m <= keys.len(),
            keys.len() == counts.len(),
            es == entries(keys@, counts@),
            shown == first_n(es, n as nat),
            shown.len() == m,
            i <= m,
            views(out@) == render_kvs(shown.take(i as int), prefix@),
        decreases m - i,
    {
        let mut l = to_chars(prefix);
        push_all(&mut l, &keys[i]);
        push_str(&mut l, ": ");
        push_decimal(&mut l, counts[i]);
        assert(shown[i as int] == (keys@[i as int]@, counts@[i as int] as nat));
        let ghost o0 = out@;
        out.push(l);
        proof {
            lemma_views_push(o0, l);
        }
        assert(views(out@) =~= render_kvs(shown.take(i + 1), prefix@));
        i += 1;
    }
    assert(shown.take(m as int) == shown);
    out
}

} // verus!
