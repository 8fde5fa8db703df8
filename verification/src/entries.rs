//! Sequences of named entries read as maps: which names occur, what a name
//! stands for, and what changes to the sequence do to the map.

use crate::text::{
    lemma_text_lt_irreflexive, lemma_text_lt_total, lemma_text_lt_transitive, text_lt,
};
use vstd::prelude::*;

verus! {

/// Whether some entry of `s` is named `k`.
pub open spec fn has_key<V>(s: Seq<(Seq<char>, V)>, k: Seq<char>) -> bool {
    exists|i: int| is_occurrence(s, k, i)
}

/// Whether entry `i` of `s` is named `k`.
pub open spec fn is_occurrence<V>(s: Seq<(Seq<char>, V)>, k: Seq<char>, i: int) -> bool {
    0 <= i < s.len() && s[i].0 == k
}

/// Whether entry `i` of `s` is the last one named `k`.
pub open spec fn is_last_occurrence<V>(s: Seq<(Seq<char>, V)>, k: Seq<char>, i: int) -> bool {
    &&& is_occurrence(s, k, i)
    &&& forall|j: int| i < j < s.len() ==> s[j].0 != k
}

/// The map that `s` stands for: each name that occurs, with the value of its
/// last entry.
pub open spec fn entry_map<V>(s: Seq<(Seq<char>, V)>) -> Map<Seq<char>, V> {
    Map::new(
        |k: Seq<char>| has_key(s, k),
        |k: Seq<char>| s[choose|i: int| is_last_occurrence(s, k, i)].1,
    )
}

/// Whether no two entries of `s` share a name.
pub open spec fn distinct_keys<V>(s: Seq<(Seq<char>, V)>) -> bool {
    forall|i: int, j: int| 0 <= i < j < s.len() ==> s[i].0 != s[j].0
}

/// A name that occurs has a last occurrence.
pub proof fn lemma_last_occurrence_exists<V>(s: Seq<(Seq<char>, V)>, k: Seq<char>)
    requires
        has_key(s, k),
    ensures
        exists|i: int| is_last_occurrence(s, k, i),
    decreases s.len(),
{
    let i = choose|i: int| is_occurrence(s, k, i);
    if s.last().0 == k {
        assert(is_last_occurrence(s, k, s.len() - 1));
    } else {
        let t = s.drop_last();
        assert(is_occurrence(t, k, i));
        lemma_last_occurrence_exists(t, k);
        let j = choose|j: int| is_last_occurrence(t, k, j);
        assert(is_last_occurrence(s, k, j)) by {
            assert forall|m: int| j < m < s.len() implies s[m].0 != k by {
                if m < t.len() {
                    assert(t[m].0 != k);
                }
            }
        }
    }
}

/// The map holds, under a name, the value of the name's last entry.
pub proof fn lemma_entry_map_value<V>(s: Seq<(Seq<char>, V)>, k: Seq<char>, i: int)
    requires
        is_last_occurrence(s, k, i),
    ensures
        entry_map(s).contains_key(k),
        entry_map(s)[k] == s[i].1,
{
    assert(is_occurrence(s, k, i));
    let j = choose|j: int| is_last_occurrence(s, k, j);
    if i < j {
        assert(s[j].0 != k);
    } else if j < i {
        assert(s[i].0 != k);
    }
}

/// With distinct names, every entry is the last of its name.
pub proof fn lemma_distinct_last<V>(s: Seq<(Seq<char>, V)>, i: int)
    requires
        distinct_keys(s),
        0 <= i < s.len(),
    ensures
        is_last_occurrence(s, s[i].0, i),
        entry_map(s).contains_key(s[i].0),
        entry_map(s)[s[i].0] == s[i].1,
{
    lemma_entry_map_value(s, s[i].0, i);
}

/// An entry added at the end puts its value under its name, whatever stood
/// there.
pub proof fn lemma_entry_map_push<V>(s: Seq<(Seq<char>, V)>, k: Seq<char>, v: V)
    ensures
        entry_map(s.push((k, v))) == entry_map(s).insert(k, v),
{
    let t = s.push((k, v));
    let m = entry_map(s).insert(k, v);
    assert forall|x: Seq<char>| entry_map(t).contains_key(x) <==> m.contains_key(x) by {
        if entry_map(t).contains_key(x) {
            let i = choose|i: int| is_occurrence(t, x, i);
            if i < s.len() {
                assert(is_occurrence(s, x, i));
            }
        }
        if m.contains_key(x) {
            if x == k {
                assert(is_occurrence(t, x, s.len() as int));
            } else {
                let i = choose|i: int| is_occurrence(s, x, i);
                assert(is_occurrence(t, x, i));
            }
        }
    }
    assert forall|x: Seq<char>| entry_map(t).contains_key(x) implies entry_map(t)[x] == m[x] by {
        if x == k {
            assert(is_last_occurrence(t, x, s.len() as int));
            lemma_entry_map_value(t, x, s.len() as int);
        } else {
            let i = choose|i: int| is_occurrence(t, x, i);
            assert(is_occurrence(s, x, i));
            lemma_last_occurrence_exists(s, x);
            let j = choose|j: int| is_last_occurrence(s, x, j);
            lemma_entry_map_value(s, x, j);
            assert(is_last_occurrence(t, x, j)) by {
                assert forall|n: int| j < n < t.len() implies t[n].0 != x by {
                    if n < s.len() {
                        assert(s[n].0 != x);
                    }
                }
            }
            lemma_entry_map_value(t, x, j);
        }
    }
    assert(entry_map(t) =~= m);
}

/// An entry under a name that does not occur yet keeps the names distinct.
pub proof fn lemma_distinct_push<V>(s: Seq<(Seq<char>, V)>, k: Seq<char>, v: V)
    requires
        distinct_keys(s),
        !has_key(s, k),
    ensures
        distinct_keys(s.push((k, v))),
{
    let t = s.push((k, v));
    assert forall|i: int, j: int| 0 <= i < j < t.len() implies t[i].0 != t[j].0 by {
        if j == s.len() {
            assert(!is_occurrence(s, k, i));
        }
    }
}

/// With distinct names, a new value for entry `i` is a new value under its
/// name.
pub proof fn lemma_entry_map_update<V>(s: Seq<(Seq<char>, V)>, i: int, v: V)
    requires
        distinct_keys(s),
        0 <= i < s.len(),
    ensures
        distinct_keys(s.update(i, (s[i].0, v))),
        entry_map(s.update(i, (s[i].0, v))) == entry_map(s).insert(s[i].0, v),
{
    let k = s[i].0;
    let t = s.update(i, (k, v));
    let m = entry_map(s).insert(k, v);
    assert(distinct_keys(t)) by {
        assert forall|a: int, b: int| 0 <= a < b < t.len() implies t[a].0 != t[b].0 by {
            assert(t[a].0 == s[a].0 && t[b].0 == s[b].0);
        }
    }
    assert forall|x: Seq<char>| entry_map(t).contains_key(x) <==> m.contains_key(x) by {
        if entry_map(t).contains_key(x) {
            let j = choose|j: int| is_occurrence(t, x, j);
            assert(is_occurrence(s, x, j));
        }
        if m.contains_key(x) {
            if x == k {
                assert(is_occurrence(t, x, i));
            } else {
                let j = choose|j: int| is_occurrence(s, x, j);
                assert(is_occurrence(t, x, j));
            }
        }
    }
    assert forall|x: Seq<char>| entry_map(t).contains_key(x) implies entry_map(t)[x] == m[x] by {
        let j = choose|j: int| is_occurrence(t, x, j);
        lemma_distinct_last(t, j);
        if j != i {
            lemma_distinct_last(s, j);
        }
    }
    assert(entry_map(t) =~= m);
}

/// With distinct names, taking entry `i` out takes its name out of the map.
pub proof fn lemma_entry_map_remove<V>(s: Seq<(Seq<char>, V)>, i: int)
    requires
        distinct_keys(s),
        0 <= i < s.len(),
    ensures
        distinct_keys(s.remove(i)),
        entry_map(s.remove(i)) == entry_map(s).remove(s[i].0),
{
    let k = s[i].0;
    let t = s.remove(i);
    let m = entry_map(s).remove(k);
    assert forall|a: int| 0 <= a < t.len() implies t[a] == s[if a < i { a } else { a + 1 }] by {}
    assert(distinct_keys(t)) by {
        assert forall|a: int, b: int| 0 <= a < b < t.len() implies t[a].0 != t[b].0 by {
            let a2 = if a < i { a } else { a + 1 };
            let b2 = if b < i { b } else { b + 1 };
            assert(t[a] == s[a2] && t[b] == s[b2]);
        }
    }
    assert forall|x: Seq<char>| entry_map(t).contains_key(x) <==> m.contains_key(x) by {
        if entry_map(t).contains_key(x) {
            let j = choose|j: int| is_occurrence(t, x, j);
            let j2 = if j < i { j } else { j + 1 };
            assert(t[j] == s[j2]);
            assert(is_occurrence(s, x, j2));
        }
        if m.contains_key(x) {
            let j = choose|j: int| is_occurrence(s, x, j);
            let j2 = if j < i { j } else { j - 1 };
            assert(t[j2] == s[j]);
            assert(is_occurrence(t, x, j2));
        }
    }
    assert forall|x: Seq<char>| entry_map(t).contains_key(x) implies entry_map(t)[x] == m[x] by {
        let j = choose|j: int| is_occurrence(t, x, j);
        let j2 = if j < i { j } else { j + 1 };
        assert(t[j] == s[j2]);
        lemma_distinct_last(t, j);
        lemma_distinct_last(s, j2);
    }
    assert(entry_map(t) =~= m);
}

/// With distinct names, the map has as many names as the sequence has
/// entries.
pub proof fn lemma_entry_map_len<V>(s: Seq<(Seq<char>, V)>)
    requires
        distinct_keys(s),
    ensures
        entry_map(s).dom().finite(),
        entry_map(s).len() == s.len(),
    decreases s.len(),
{
    if s.len() == 0 {
        assert(entry_map(s) =~= Map::empty());
    } else {
        let t = s.drop_last();
        let k = s.last().0;
        lemma_entry_map_len(t);
        lemma_entry_map_push(t, k, s.last().1);
        assert(t.push(s.last()) =~= s);
        assert(!entry_map(t).contains_key(k)) by {
            if has_key(t, k) {
                let i = choose|i: int| is_occurrence(t, k, i);
                assert(s[i].0 != s[s.len() - 1].0);
            }
        }
    }
}

/// Whether the names of `s` go up strictly from each entry to the next.
pub open spec fn ascending<V>(s: Seq<(Seq<char>, V)>) -> bool {
    forall|i: int, j: int| 0 <= i < j < s.len() ==> text_lt(s[i].0, s[j].0)
}

/// The test for entries whose name comes before `k`.
pub open spec fn named_below<V>(k: Seq<char>) -> spec_fn((Seq<char>, V)) -> bool {
    |e: (Seq<char>, V)| text_lt(e.0, k)
}

/// The test for entries whose name comes behind `k`.
pub open spec fn named_above<V>(k: Seq<char>) -> spec_fn((Seq<char>, V)) -> bool {
    |e: (Seq<char>, V)| text_lt(k, e.0)
}

/// `s` with `v` put under the name `k`: the entries named below `k`, then
/// `k` with `v`, then the entries named above `k`.  An entry that was named
/// `k` is gone.
pub open spec fn insert_entry<V>(s: Seq<(Seq<char>, V)>, k: Seq<char>, v: V) -> Seq<
    (Seq<char>, V),
> {
    s.filter(named_below(k)) + seq![(k, v)] + s.filter(named_above(k))
}

/// Names that go up strictly are distinct.
pub proof fn lemma_ascending_distinct<V>(s: Seq<(Seq<char>, V)>)
    requires
        ascending(s),
    ensures
        distinct_keys(s),
{
    assert forall|i: int, j: int| 0 <= i < j < s.len() implies s[i].0 != s[j].0 by {
        lemma_text_lt_irreflexive(s[i].0);
    }
}

/// What a test lets through of an ascending sequence is ascending, and
/// each of its entries is one of the sequence.
pub proof fn lemma_filter_ascending<V>(s: Seq<(Seq<char>, V)>, pred: spec_fn((Seq<char>, V)) -> bool)
    requires
        ascending(s),
    ensures
        ascending(s.filter(pred)),
        forall|i: int| 0 <= i < s.filter(pred).len() ==> s.contains(#[trigger] s.filter(pred)[i]),
    decreases s.len(),
{
    reveal(Seq::filter);
    if s.len() > 0 {
        let t = s.drop_last();
        let ft = t.filter(pred);
        lemma_filter_ascending(t, pred);
        let fs = s.filter(pred);
        assert forall|i: int| 0 <= i < fs.len() implies s.contains(#[trigger] fs[i]) by {
            if i < ft.len() {
                assert(t.contains(ft[i]));
                let j = choose|j: int| 0 <= j < t.len() && t[j] == ft[i];
                assert(s[j] == ft[i]);
            } else {
                assert(fs[i] == s[s.len() - 1]);
            }
        }
        assert forall|i: int, j: int| 0 <= i < j < fs.len() implies text_lt(fs[i].0, fs[j].0) by {
            if j == ft.len() {
                assert(t.contains(ft[i]));
                let m = choose|m: int| 0 <= m < t.len() && t[m] == ft[i];
                assert(s[m] == ft[i]);
                assert(text_lt(s[m].0, s[s.len() - 1].0));
            }
        }
    }
}

/// Putting a value under a name keeps ascending names ascending.
pub proof fn lemma_insert_entry_ascending<V>(s: Seq<(Seq<char>, V)>, k: Seq<char>, v: V)
    requires
        ascending(s),
    ensures
        ascending(insert_entry(s, k, v)),
{
    let below = s.filter(named_below(k));
    let above = s.filter(named_above(k));
    let r = insert_entry(s, k, v);
    lemma_filter_ascending(s, named_below(k));
    lemma_filter_ascending(s, named_above(k));
    assert forall|i: int, j: int| 0 <= i < j < r.len() implies text_lt(r[i].0, r[j].0) by {
        if i < below.len() {
            s.lemma_filter_pred(named_below(k), i);
            assert(r[i] == below[i]);
            if j < below.len() {
                assert(r[j] == below[j]);
            } else if j == below.len() {
            } else {
                let m = j - below.len() - 1;
                assert(r[j] == above[m]);
                s.lemma_filter_pred(named_above(k), m);
                lemma_text_lt_transitive(r[i].0, k, r[j].0);
            }
        } else if i == below.len() {
            let m = j - below.len() - 1;
            assert(r[j] == above[m]);
            s.lemma_filter_pred(named_above(k), m);
        } else {
            let a = i - below.len() - 1;
            let b = j - below.len() - 1;
            assert(r[i] == above[a] && r[j] == above[b]);
        }
    }
}

/// Each entry of a sequence with a value put under a name is that name with
/// that value, or an entry of the sequence.
pub proof fn lemma_insert_entry_members<V>(s: Seq<(Seq<char>, V)>, k: Seq<char>, v: V, i: int)
    requires
        ascending(s),
        0 <= i < insert_entry(s, k, v).len(),
    ensures
        insert_entry(s, k, v)[i] == (k, v) || s.contains(insert_entry(s, k, v)[i]),
{
    let below = s.filter(named_below(k));
    let above = s.filter(named_above(k));
    lemma_filter_ascending(s, named_below(k));
    lemma_filter_ascending(s, named_above(k));
    if i < below.len() {
        assert(insert_entry(s, k, v)[i] == below[i]);
    } else if i > below.len() {
        assert(insert_entry(s, k, v)[i] == above[i - below.len() - 1]);
    }
}

/// Putting a value under a name does to the map what an insert does: the
/// name stands for the value, and every other name for what it stood for.
pub proof fn lemma_insert_entry_map<V>(s: Seq<(Seq<char>, V)>, k: Seq<char>, v: V)
    requires
        ascending(s),
    ensures
        entry_map(insert_entry(s, k, v)) == entry_map(s).insert(k, v),
{
    let below = s.filter(named_below(k));
    let above = s.filter(named_above(k));
    let r = insert_entry(s, k, v);
    let m = entry_map(s).insert(k, v);
    lemma_insert_entry_ascending(s, k, v);
    lemma_ascending_distinct(s);
    lemma_ascending_distinct(r);
    assert(r[below.len() as int] == (k, v));
    assert forall|x: Seq<char>| entry_map(r).contains_key(x) <==> m.contains_key(x) by {
        if entry_map(r).contains_key(x) {
            let i = choose|i: int| is_occurrence(r, x, i);
            lemma_insert_entry_members(s, k, v, i);
            if r[i] != (k, v) {
                let j = choose|j: int| 0 <= j < s.len() && s[j] == r[i];
                assert(is_occurrence(s, x, j));
            }
        }
        if m.contains_key(x) {
            if x == k {
                assert(is_occurrence(r, x, below.len() as int));
            } else {
                let j = choose|j: int| is_occurrence(s, x, j);
                lemma_text_lt_total(x, k);
                if text_lt(x, k) {
                    s.lemma_filter_contains(named_below(k), j);
                    let i = choose|i: int| 0 <= i < below.len() && below[i] == s[j];
                    assert(r[i] == below[i]);
                    assert(is_occurrence(r, x, i));
                } else {
                    s.lemma_filter_contains(named_above(k), j);
                    let i = choose|i: int| 0 <= i < above.len() && above[i] == s[j];
                    assert(r[below.len() + 1 + i] == above[i]);
                    assert(is_occurrence(r, x, below.len() + 1 + i));
                }
            }
        }
    }
    assert forall|x: Seq<char>| entry_map(r).contains_key(x) implies entry_map(r)[x] == m[x] by {
        let i = choose|i: int| is_occurrence(r, x, i);
        lemma_distinct_last(r, i);
        lemma_insert_entry_members(s, k, v, i);
        if x == k {
            if i != below.len() {
                assert(r[i].0 != r[below.len() as int].0);
            }
        } else {
            let j = choose|j: int| 0 <= j < s.len() && s[j] == r[i];
            lemma_distinct_last(s, j);
        }
    }
    assert(entry_map(r) =~= m);
}

} // verus!
