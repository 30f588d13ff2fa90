//! Counting texts by value, in key order (what a `BTreeMap<String, usize>`
//! of counts gives), and the set difference of identifier lists.

use vstd::prelude::*;

use crate::json::{key_less, key_lt, lemma_key_lt_total, lemma_key_lt_transitive, lemma_key_lt_asymmetric, lemma_key_lt_irreflexive};
use crate::text::{push_decimal, decimal, str_eq};
use vstd::relations::{sorted_by, total_ordering};

verus! {

/// The views of a list of strings.
pub open spec fn strings_view(s: Seq<String>) -> Seq<Seq<char>> {
    s.map_values(|x: String| x@)
}

/// The number of times `k` occurs in `keys`.
pub open spec fn occurrences(keys: Seq<Seq<char>>, k: Seq<char>) -> nat
    decreases keys.len(),
{
    if keys.len() == 0 {
        0
    } else {
        occurrences(keys.drop_last(), k) + if keys.last() == k {
            1nat
        } else {
            0nat
        }
    }
}

/// A tally of `keys`: its keys strictly ascending, each the count of its
/// occurrences, and every key of the input present.
pub open spec fn is_tally(t: Seq<(Seq<char>, nat)>, keys: Seq<Seq<char>>) -> bool {
    &&& forall|i: int, j: int| 0 <= i < j < t.len() ==> key_lt(#[trigger] t[i].0, #[trigger] t[j].0)
    &&& forall|i: int| 0 <= i < t.len() ==> (#[trigger] t[i]).1 == occurrences(keys, t[i].0)
    &&& forall|i: int| 0 <= i < t.len() ==> (#[trigger] t[i]).1 > 0
    &&& forall|m: int| 0 <= m < keys.len() ==> exists|i: int| 0 <= i < t.len() && (#[trigger] t[i]).0 == #[trigger] keys[m]
}

/// The view of a tally.
pub open spec fn tally_view(t: Seq<(String, usize)>) -> Seq<(Seq<char>, nat)> {
    t.map_values(|p: (String, usize)| (p.0@, p.1 as nat))
}

proof fn lemma_occurrences_push(keys: Seq<Seq<char>>, k: Seq<char>, x: Seq<char>)
    ensures
        occurrences(keys.push(k), x) == occurrences(keys, x) + if k == x {
            1nat
        } else {
            0nat
        },
{
    assert(keys.push(k).drop_last() =~= keys);
}

/// Counts each text by value; the result lists the distinct texts in key
/// order with their counts.
pub fn tally(keys: &Vec<String>) -> (r: Vec<(String, usize)>)
    ensures
        is_tally(tally_view(r@), strings_view(keys@)),
{
    let ghost kv = strings_view(keys@);
    let mut t: Vec<(String, usize)> = Vec::new();
    let mut n: usize = 0;
    while n < keys.len()
        invariant
            n <= keys@.len(),
            kv == strings_view(keys@),
            is_tally(tally_view(t@), kv.take(n as int)),
            forall|i: int| 0 <= i < t@.len() ==> (#[trigger] t@[i]).1 <= n,
        decreases keys@.len() - n,
    {
        let k = keys[n].as_str();
        let ghost before = tally_view(t@);
        let ghost prefix = kv.take(n as int);
        let ghost next = kv.take(n + 1);
        assert(next =~= prefix.push(k@));
        let mut p: usize = 0;
        while p < t.len() && key_less(t[p].0.as_str(), k)
            invariant
                p <= t@.len(),
                before == tally_view(t@),
                forall|i: int| 0 <= i < p ==> key_lt(#[trigger] before[i].0, k@),
            decreases t@.len() - p,
        {
            p = p + 1;
        }
        if p < t.len() && str_eq(t[p].0.as_str(), k) {
            let c = t[p].1;
            let key = t[p].0.clone();
            t.set(p, (key, c + 1));
            proof {
                let after = tally_view(t@);
                assert forall|i: int| 0 <= i < after.len() implies (#[trigger] after[i]).1
                    == occurrences(next, after[i].0) by {
                    lemma_occurrences_push(prefix, k@, after[i].0);
                    if i != p {
                        assert(after[i] == before[i]);
                        assert(before[p as int].0 == k@);
                        assert(before[i].0 != k@) by {
                            if before[i].0 == k@ {
                                if i < p {
                                    assert(key_lt(before[i].0, before[p as int].0));
                                } else {
                                    assert(key_lt(before[p as int].0, before[i].0));
                                }
                                lemma_key_lt_irreflexive(k@);
                            }
                        }
                    }
                }
                assert forall|m: int| 0 <= m < next.len() implies exists|i: int|
                    0 <= i < after.len() && (#[trigger] after[i]).0 == #[trigger] next[m] by {
                    if m < n {
                        assert(next[m] == prefix[m]);
                        let i = choose|i: int| 0 <= i < before.len() && (#[trigger] before[i]).0 == prefix[m];
                        assert(after[i].0 == before[i].0);
                    } else {
                        assert(after[p as int].0 == next[m]);
                    }
                }
                assert forall|i: int, j: int| 0 <= i < j < after.len() implies key_lt(
                    #[trigger] after[i].0,
                    #[trigger] after[j].0,
                ) by {
                    assert(after[i].0 == before[i].0);
                    assert(after[j].0 == before[j].0);
                }
                assert forall|i: int| 0 <= i < after.len() implies (#[trigger] after[i]).1 > 0 by {
                    assert(i != p ==> after[i] == before[i]);
                }
                assert(is_tally(after, next));
            }
        } else {
            proof {
                if p < before.len() {
                    lemma_key_lt_total(before[p as int].0, k@);
                }
            }
            t.insert(p, (k.to_owned(), 1));
            proof {
                let after = tally_view(t@);
                assert(after[p as int] == (k@, 1nat));
                assert forall|i: int| 0 <= i < after.len() && i != p implies (#[trigger] after[i])
                    == (if i < p {
                    before[i]
                } else {
                    before[i - 1]
                }) by {}
                // k was not in the tally: every entry differs from it
                assert forall|i: int| 0 <= i < before.len() implies (#[trigger] before[i]).0
                    != k@ by {
                    if i < p {
                        if before[i].0 == k@ {
                            lemma_key_lt_irreflexive(k@);
                        }
                    } else {
                        if i > p {
                            lemma_key_lt_transitive(k@, before[p as int].0, before[i].0);
                        }
                        lemma_key_lt_asymmetric(k@, before[i].0);
                        if before[i].0 == k@ {
                            lemma_key_lt_irreflexive(k@);
                        }
                    }
                }
                assert(occurrences(prefix, k@) == 0) by {
                    if occurrences(prefix, k@) > 0 {
                        lemma_occurrence_present(prefix, k@);
                        let m = choose|m: int| 0 <= m < prefix.len() && prefix[m] == k@;
                        let i = choose|i: int| 0 <= i < before.len() && (#[trigger] before[i]).0 == prefix[m];
                    }
                }
                assert forall|i: int| 0 <= i < after.len() implies (#[trigger] after[i]).1
                    == occurrences(next, after[i].0) by {
                    lemma_occurrences_push(prefix, k@, after[i].0);
                }
                assert forall|m: int| 0 <= m < next.len() implies exists|i: int|
                    0 <= i < after.len() && (#[trigger] after[i]).0 == #[trigger] next[m] by {
                    if m < n {
                        assert(next[m] == prefix[m]);
                        let i = choose|i: int| 0 <= i < before.len() && (#[trigger] before[i]).0 == prefix[m];
                        if i < p {
                            assert(after[i].0 == before[i].0);
                        } else {
                            assert(after[i + 1].0 == before[i].0);
                        }
                    } else {
                        assert(after[p as int].0 == next[m]);
                    }
                }
                assert forall|i: int, j: int| 0 <= i < j < after.len() implies key_lt(
                    #[trigger] after[i].0,
                    #[trigger] after[j].0,
                ) by {
                    if j < p {
                    } else if j == p {
                    } else if i == p {
                        if j - 1 > p {
                            lemma_key_lt_transitive(k@, before[p as int].0, before[j - 1].0);
                        }
                    } else if i < p {
                        if p < before.len() {
                            lemma_key_lt_transitive(before[i].0, k@, before[p as int].0);
                            if j - 1 > p {
                                lemma_key_lt_transitive(before[i].0, before[p as int].0, before[j - 1].0);
                            }
                        }
                    } else {
                    }
                }
                assert forall|i: int| 0 <= i < after.len() implies (#[trigger] after[i]).1 > 0 by {
                    if i < p {
                        assert(after[i] == before[i]);
                    } else if i > p {
                        assert(after[i] == before[i - 1]);
                    }
                }
                assert(is_tally(after, next));
            }
        }
        n = n + 1;
    }
    assert(kv.take(keys@.len() as int) =~= kv);
    t
}

proof fn lemma_occurrence_present(keys: Seq<Seq<char>>, k: Seq<char>)
    requires
        occurrences(keys, k) > 0,
    ensures
        exists|m: int| 0 <= m < keys.len() && keys[m] == k,
    decreases keys.len(),
{
    if keys.last() != k {
        lemma_occurrence_present(keys.drop_last(), k);
        let m = choose|m: int| 0 <= m < keys.len() - 1 && keys.drop_last()[m] == k;
        assert(keys[m] == k);
    } else {
        assert(keys[keys.len() - 1] == k);
    }
}

/// The text of a tally: `key count` entries joined by `, `.
pub open spec fn tally_text_spec(t: Seq<(Seq<char>, nat)>) -> Seq<char>
    decreases t.len(),
{
    if t.len() == 0 {
        Seq::empty()
    } else if t.len() == 1 {
        t[0].0 + " "@ + decimal(t[0].1)
    } else {
        tally_text_spec(t.drop_last()) + ", "@ + t.last().0 + " "@ + decimal(t.last().1)
    }
}

/// The report text of a tally.
pub fn tally_text(t: &Vec<(String, usize)>) -> (r: String)
    ensures
        r@ == tally_text_spec(tally_view(t@)),
{
    let ghost tv = tally_view(t@);
    let mut r = String::new();
    let mut i: usize = 0;
    while i < t.len()
        invariant
            i <= t@.len(),
            tv == tally_view(t@),
            r@ == tally_text_spec(tv.take(i as int)),
        decreases t@.len() - i,
    {
        if i > 0 {
            r.append(", ");
        }
        r.append(t[i].0.as_str());
        r.append(" ");
        push_decimal(&mut r, t[i].1 as u64);
        proof {
            let x = tv.take(i + 1);
            assert(x.drop_last() =~= tv.take(i as int));
            assert(x.last() == tv[i as int]);
            if i == 0 {
                assert(x.len() == 1);
            }
        }
        i = i + 1;
    }
    assert(tv.take(t@.len() as int) =~= tv);
    r
}

/// The entries of `expected` that `listed` does not hold, in their order.
pub open spec fn missing_spec(expected: Seq<Seq<char>>, listed: Seq<Seq<char>>) -> Seq<Seq<char>> {
    expected.filter(|e: Seq<char>| !listed.contains(e))
}

/// A listing lacks nothing exactly when it lists every expected entry.
pub proof fn lemma_missing_none(expected: Seq<Seq<char>>, listed: Seq<Seq<char>>)
    ensures
        missing_spec(expected, listed).len() == 0 <==> forall|i: int|
            0 <= i < expected.len() ==> listed.contains(#[trigger] expected[i]),
{
    let f = |e: Seq<char>| !listed.contains(e);
    expected.filter_lemma(f);
    if missing_spec(expected, listed).len() == 0 {
        assert forall|i: int| 0 <= i < expected.len() implies listed.contains(#[trigger] expected[i]) by {
            if !listed.contains(expected[i]) {
                assert(expected.filter(f).contains(expected[i]));
            }
        }
    } else {
        let m = expected.filter(f)[0];
        assert(expected.filter(f).contains(m));
        expected.lemma_filter_contains_rev(f, m);
        let i = choose|i: int| 0 <= i < expected.len() && expected[i] == m;
        assert(f(m));
        assert(!listed.contains(expected[i]));
    }
}

/// The expected identifiers a listing lacks.
pub fn missing(expected: &Vec<String>, listed: &Vec<String>) -> (r: Vec<String>)
    ensures
        strings_view(r@) == missing_spec(strings_view(expected@), strings_view(listed@)),
{
    let ghost ev = strings_view(expected@);
    let ghost lv = strings_view(listed@);
    let mut r: Vec<String> = Vec::new();
    let mut i: usize = 0;
    while i < expected.len()
        invariant
            i <= expected@.len(),
            ev == strings_view(expected@),
            lv == strings_view(listed@),
            strings_view(r@) == ev.take(i as int).filter(|e: Seq<char>| !lv.contains(e)),
        decreases expected@.len() - i,
    {
        let e = expected[i].as_str();
        let mut found = false;
        let mut j: usize = 0;
        while j < listed.len()
            invariant
                j <= listed@.len(),
                lv == strings_view(listed@),
                found == exists|m: int| 0 <= m < j && lv[m] == e@,
            decreases listed@.len() - j,
        {
            let same = str_eq(listed[j].as_str(), e);
            proof {
                assert(lv[j as int] == listed@[j as int]@);
                if !same && !found {
                    assert forall|m: int| 0 <= m < j + 1 implies lv[m] != e@ by {
                        if m < j {
                            assert(!(0 <= m < j && lv[m] == e@));
                        }
                    }
                }
            }
            if same {
                found = true;
            }
            j = j + 1;
        }
        proof {
            assert(found == lv.contains(e@)) by {
                if lv.contains(e@) {
                    let m = choose|m: int| 0 <= m < lv.len() && lv[m] == e@;
                }
            }
            let x = ev.take(i + 1);
            assert(x.drop_last() =~= ev.take(i as int));
            assert(x.last() == e@);
            reveal_with_fuel(Seq::filter, 1);
        }
        if !found {
            let ghost before = strings_view(r@);
            r.push(expected[i].clone());
            assert(strings_view(r@) =~= before.push(e@));
        }
        i = i + 1;
    }
    assert(ev.take(expected@.len() as int) =~= ev);
    r
}

/// A strictly ascending sequence of keys.
pub open spec fn ascending(s: Seq<Seq<char>>) -> bool {
    forall|i: int, j: int| 0 <= i < j < s.len() ==> key_lt(#[trigger] s[i], #[trigger] s[j])
}

/// Two strictly ascending key lists with the same elements are the same
/// list.
pub proof fn lemma_ascending_same_elements(a: Seq<Seq<char>>, b: Seq<Seq<char>>)
    requires
        ascending(a),
        ascending(b),
        forall|i: int| 0 <= i < a.len() ==> b.contains(#[trigger] a[i]),
        forall|i: int| 0 <= i < b.len() ==> a.contains(#[trigger] b[i]),
    ensures
        a == b,
    decreases a.len() + b.len(),
{
    if a.len() == 0 {
        if b.len() > 0 {
            assert(a.contains(b[0]));
        }
        assert(a =~= b);
    } else if b.len() == 0 {
        assert(b.contains(a[0]));
    } else {
        assert(b.contains(a[0]));
        assert(a.contains(b[0]));
        let j = choose|j: int| 0 <= j < b.len() && b[j] == a[0];
        let i = choose|i: int| 0 <= i < a.len() && a[i] == b[0];
        if j > 0 {
            assert(key_lt(b[0], b[j]));
            if i > 0 {
                assert(key_lt(a[0], a[i]));
                lemma_key_lt_asymmetric(a[0], a[i]);
            } else {
                lemma_key_lt_irreflexive(a[0]);
            }
        }
        assert(a[0] == b[0]);
        let a1 = a.drop_first();
        let b1 = b.drop_first();
        assert forall|x: int| 0 <= x < a1.len() implies b1.contains(#[trigger] a1[x]) by {
            assert(a1[x] == a[x + 1]);
            assert(b.contains(a[x + 1]));
            let y = choose|y: int| 0 <= y < b.len() && b[y] == a[x + 1];
            assert(key_lt(a[0], a[x + 1]));
            if y == 0 {
                lemma_key_lt_irreflexive(a[0]);
            }
            assert(b1[y - 1] == a1[x]);
        }
        assert forall|x: int| 0 <= x < b1.len() implies a1.contains(#[trigger] b1[x]) by {
            assert(b1[x] == b[x + 1]);
            assert(a.contains(b[x + 1]));
            let y = choose|y: int| 0 <= y < a.len() && a[y] == b[x + 1];
            assert(key_lt(b[0], b[x + 1]));
            if y == 0 {
                lemma_key_lt_irreflexive(b[0]);
            }
            assert(a1[y - 1] == b1[x]);
        }
        lemma_ascending_same_elements(a1, b1);
        assert(a =~= seq![a[0]] + a1);
        assert(b =~= seq![b[0]] + b1);
    }
}

/// A tally of a list of texts is unique: two tallies of the same list are
/// the same sequence of entries.
pub proof fn lemma_tally_unique(t1: Seq<(Seq<char>, nat)>, t2: Seq<(Seq<char>, nat)>, keys: Seq<Seq<char>>)
    requires
        is_tally(t1, keys),
        is_tally(t2, keys),
    ensures
        t1 == t2,
{
    let a = t1.map_values(|p: (Seq<char>, nat)| p.0);
    let b = t2.map_values(|p: (Seq<char>, nat)| p.0);
    assert forall|i: int| 0 <= i < a.len() implies b.contains(#[trigger] a[i]) by {
        assert(t1[i].1 > 0);
        lemma_occurrence_present(keys, t1[i].0);
        let m = choose|m: int| 0 <= m < keys.len() && keys[m] == t1[i].0;
        let j = choose|j: int| 0 <= j < t2.len() && (#[trigger] t2[j]).0 == keys[m];
        assert(b[j] == a[i]);
    }
    assert forall|i: int| 0 <= i < b.len() implies a.contains(#[trigger] b[i]) by {
        assert(t2[i].1 > 0);
        lemma_occurrence_present(keys, t2[i].0);
        let m = choose|m: int| 0 <= m < keys.len() && keys[m] == t2[i].0;
        let j = choose|j: int| 0 <= j < t1.len() && (#[trigger] t1[j]).0 == keys[m];
        assert(a[j] == b[i]);
    }
    assert(ascending(a)) by {
        assert forall|i: int, j: int| 0 <= i < j < a.len() implies key_lt(#[trigger] a[i], #[trigger] a[j]) by {
            assert(key_lt(t1[i].0, t1[j].0));
        }
    }
    assert(ascending(b)) by {
        assert forall|i: int, j: int| 0 <= i < j < b.len() implies key_lt(#[trigger] b[i], #[trigger] b[j]) by {
            assert(key_lt(t2[i].0, t2[j].0));
        }
    }
    lemma_ascending_same_elements(a, b);
    assert(t1.len() == a.len() && t2.len() == b.len());
    assert(t1.len() == t2.len());
    assert forall|i: int| 0 <= i < t1.len() implies t1[i] == t2[i] by {
        assert(a[i] == t1[i].0);
        assert(b[i] == t2[i].0);
        assert(a[i] == b[i]);
        assert(t1[i].1 == occurrences(keys, t1[i].0));
        assert(t2[i].1 == occurrences(keys, t2[i].0));
    }
    assert(t1 =~= t2);
}

/// Keys in non-decreasing order: `a` before `b`, or the same key.
pub open spec fn key_le(a: Seq<char>, b: Seq<char>) -> bool {
    key_lt(a, b) || a == b
}

/// The non-decreasing key order as a relation.
pub open spec fn key_order() -> spec_fn(Seq<char>, Seq<char>) -> bool {
    |a: Seq<char>, b: Seq<char>| key_le(a, b)
}

/// The key order is a total order.
pub proof fn lemma_key_order_total()
    ensures
        total_ordering(key_order()),
{
    assert forall|x: Seq<char>, y: Seq<char>| #[trigger] key_order()(x, y) && #[trigger] key_order()(y, x) implies x == y by {
        if x != y {
            lemma_key_lt_asymmetric(x, y);
        }
    }
    assert forall|x: Seq<char>, y: Seq<char>, z: Seq<char>| #[trigger] key_order()(x, y) && #[trigger] key_order()(y, z) implies key_order()(x, z) by {
        if x != y && y != z {
            lemma_key_lt_transitive(x, y, z);
        }
    }
    assert forall|x: Seq<char>, y: Seq<char>| #[trigger] key_order()(x, y) || #[trigger] key_order()(y, x) by {
        if x != y {
            lemma_key_lt_total(x, y);
        }
    }
}

/// Texts in key order (`sort` on strings).
pub fn sort_texts(v: &Vec<String>) -> (r: Vec<String>)
    ensures
        strings_view(r@) == strings_view(v@).sort_by(key_order()),
{
    let ghost sv = strings_view(v@);
    let ghost le = key_order();
    let mut r: Vec<String> = Vec::new();
    let mut i: usize = 0;
    assert(strings_view(r@).to_multiset() =~= sv.take(0).to_multiset()) by {
        assert(sv.take(0) =~= Seq::<Seq<char>>::empty());
        assert(strings_view(r@) =~= Seq::<Seq<char>>::empty());
    }
    while i < v.len()
        invariant
            i <= v@.len(),
            sv == strings_view(v@),
            le == key_order(),
            sorted_by(strings_view(r@), le),
            strings_view(r@).to_multiset() == sv.take(i as int).to_multiset(),
        decreases v@.len() - i,
    {
        let x = v[i].as_str();
        let ghost before = strings_view(r@);
        let mut p: usize = 0;
        while p < r.len() && (key_less(r[p].as_str(), x) || str_eq(r[p].as_str(), x))
            invariant
                p <= r@.len(),
                before == strings_view(r@),
                forall|k: int| 0 <= k < p ==> key_le(#[trigger] before[k], x@),
            decreases r@.len() - p,
        {
            p = p + 1;
        }
        proof {
            if p < before.len() {
                if before[p as int] != x@ {
                    lemma_key_lt_total(before[p as int], x@);
                }
            }
        }
        r.insert(p, v[i].clone());
        proof {
            let after = strings_view(r@);
            assert(after =~= before.insert(p as int, x@));
            assert forall|a: int, b: int| 0 <= a < b < after.len() implies #[trigger] le(after[a], after[b]) by {
                if b < p {
                    assert(le(before[a], before[b]));
                } else if b == p {
                    assert(key_le(before[a], x@));
                } else if a == p {
                    assert(key_lt(x@, before[p as int]));
                    if b - 1 > p {
                        assert(le(before[p as int], before[b - 1]));
                        if before[p as int] != before[b - 1] {
                            lemma_key_lt_transitive(x@, before[p as int], before[b - 1]);
                        }
                    }
                } else if a < p {
                    assert(key_le(before[a], x@));
                    assert(key_lt(x@, before[p as int]));
                    assert(le(before[p as int], before[b - 1])) by {
                        if b - 1 > p {
                            assert(le(before[p as int], before[b - 1]));
                        }
                    }
                    if before[a] != x@ {
                        lemma_key_lt_transitive(before[a], x@, before[p as int]);
                    }
                    if before[p as int] != before[b - 1] {
                        lemma_key_lt_transitive(before[a], before[p as int], before[b - 1]);
                    }
                } else {
                    assert(le(before[a - 1], before[b - 1]));
                }
            }
            assert(sv.take(i + 1) =~= sv.take(i as int).push(x@));
            vstd::seq_lib::to_multiset_insert(before, p as int, x@);
            vstd::seq_lib::to_multiset_build(sv.take(i as int), x@);
        }
        i = i + 1;
    }
    proof {
        assert(sv.take(v@.len() as int) =~= sv);
        lemma_key_order_total();
        sv.lemma_sort_by_ensures(le);
        vstd::seq_lib::lemma_sorted_unique(strings_view(r@), sv.sort_by(le), le);
    }
    r
}

/// The distinct texts of a list in key order (what a `BTreeSet` of them
/// gives).
pub fn distinct_sorted(v: &Vec<String>) -> (r: Vec<String>)
    ensures
        ascending(strings_view(r@)),
        forall|x: Seq<char>| strings_view(r@).contains(x) <==> strings_view(v@).contains(x),
{
    let t = tally(v);
    let ghost tv = tally_view(t@);
    let ghost kv = strings_view(v@);
    let mut r: Vec<String> = Vec::new();
    let mut i: usize = 0;
    while i < t.len()
        invariant
            i <= t@.len(),
            tv == tally_view(t@),
            strings_view(r@) == tv.take(i as int).map_values(|p: (Seq<char>, nat)| p.0),
        decreases t@.len() - i,
    {
        let ghost before = strings_view(r@);
        r.push(t[i].0.clone());
        assert(strings_view(r@) =~= before.push(tv[i as int].0));
        assert(tv.take(i + 1).map_values(|p: (Seq<char>, nat)| p.0) =~= tv.take(i as int).map_values(
            |p: (Seq<char>, nat)| p.0,
        ).push(tv[i as int].0));
        i = i + 1;
    }
    assert(tv.take(t@.len() as int) =~= tv);
    let ghost rv = strings_view(r@);
    assert forall|a: int, b: int| 0 <= a < b < rv.len() implies key_lt(#[trigger] rv[a], #[trigger] rv[b]) by {
        assert(rv[a] == tv[a].0);
        assert(rv[b] == tv[b].0);
    }
    assert forall|x: Seq<char>| rv.contains(x) implies kv.contains(x) by {
        let a = choose|a: int| 0 <= a < rv.len() && rv[a] == x;
        assert(rv[a] == tv[a].0);
        assert(tv[a].1 > 0);
        lemma_occurrence_present(kv, x);
    }
    assert forall|x: Seq<char>| kv.contains(x) implies rv.contains(x) by {
        let m = choose|m: int| 0 <= m < kv.len() && kv[m] == x;
        let a = choose|a: int| 0 <= a < tv.len() && (#[trigger] tv[a]).0 == kv[m];
        assert(rv[a] == x);
    }
    r
}

} // verus!
