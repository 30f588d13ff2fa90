//! JSON documents as the seeders build and read them: a value type whose
//! objects keep their keys in ascending order (what a `BTreeMap` of keys
//! gives), and the compact canonical text of a value — the bytes a
//! descriptor signature covers.

use vstd::prelude::*;

use crate::text::{chars_of, hex_lower, push_char, push_decimal, push_signed_decimal, signed_decimal};

verus! {

// ---------------------------------------------------------------------------
// The mathematical model
// ---------------------------------------------------------------------------

/// A JSON value as mathematics: numbers are integers (or, for the rare
/// non-integer number, the text that denotes it); an object is its
/// entries in ascending key order.
pub enum JsonValue {
    Null,
    Bool(bool),
    Num(int),
    Float(Seq<char>),
    Str(Seq<char>),
    Array(Seq<JsonValue>),
    Object(Seq<(Seq<char>, JsonValue)>),
}

/// The order of object keys: lexicographic by code point (which is the
/// byte order of their UTF-8 forms).
pub open spec fn key_lt(a: Seq<char>, b: Seq<char>) -> bool
    decreases a.len(),
{
    if b.len() == 0 {
        false
    } else if a.len() == 0 {
        true
    } else if a[0] != b[0] {
        a[0] < b[0]
    } else {
        key_lt(a.drop_first(), b.drop_first())
    }
}

/// Entries in strictly ascending key order (so no key occurs twice).
pub open spec fn keys_sorted(e: Seq<(Seq<char>, JsonValue)>) -> bool {
    forall|i: int, j: int| 0 <= i < j < e.len() ==> key_lt(#[trigger] e[i].0, #[trigger] e[j].0)
}

/// The entries after setting `k` to `v`: the entry of `k` is replaced in
/// place, or a new entry goes before the first greater key.
pub open spec fn spec_insert(e: Seq<(Seq<char>, JsonValue)>, k: Seq<char>, v: JsonValue) -> Seq<
    (Seq<char>, JsonValue),
>
    decreases e.len(),
{
    if e.len() == 0 {
        seq![(k, v)]
    } else if e[0].0 == k {
        seq![(k, v)] + e.drop_first()
    } else if key_lt(k, e[0].0) {
        seq![(k, v)] + e
    } else {
        seq![e[0]] + spec_insert(e.drop_first(), k, v)
    }
}

/// The value of the first entry with key `k`.
pub open spec fn spec_get(e: Seq<(Seq<char>, JsonValue)>, k: Seq<char>) -> Option<JsonValue>
    decreases e.len(),
{
    if e.len() == 0 {
        None
    } else if e[0].0 == k {
        Some(e[0].1)
    } else {
        spec_get(e.drop_first(), k)
    }
}

/// The entries an object literal gives: its pairs inserted in order, a
/// later pair with the same key replacing an earlier one.
pub open spec fn object_from(pairs: Seq<(Seq<char>, JsonValue)>) -> Seq<(Seq<char>, JsonValue)>
    decreases pairs.len(),
{
    if pairs.len() == 0 {
        Seq::empty()
    } else {
        spec_insert(object_from(pairs.drop_last()), pairs.last().0, pairs.last().1)
    }
}

/// An object literal with one more pair is the earlier literal with that
/// pair inserted.
pub broadcast proof fn lemma_object_from_push(pairs: Seq<(Seq<char>, JsonValue)>, x: (Seq<char>, JsonValue))
    ensures
        #[trigger] object_from(pairs.push(x)) == spec_insert(object_from(pairs), x.0, x.1),
{
    assert(pairs.push(x).drop_last() =~= pairs);
}

/// The field `k` of a value, when it is an object holding `k`.
pub open spec fn field(v: JsonValue, k: Seq<char>) -> Option<JsonValue> {
    match v {
        JsonValue::Object(e) => spec_get(e, k),
        _ => None,
    }
}

/// A field as `jq` yields it: a missing field is null.
pub open spec fn field_or_null(v: JsonValue, k: Seq<char>) -> JsonValue {
    match field(v, k) {
        Some(x) => x,
        None => JsonValue::Null,
    }
}

// ---------------------------------------------------------------------------
// Laws of the key order and of the entries
// ---------------------------------------------------------------------------

pub proof fn lemma_key_lt_irreflexive(a: Seq<char>)
    ensures
        !key_lt(a, a),
    decreases a.len(),
{
    if a.len() > 0 {
        lemma_key_lt_irreflexive(a.drop_first());
    }
}

pub proof fn lemma_key_lt_transitive(a: Seq<char>, b: Seq<char>, c: Seq<char>)
    requires
        key_lt(a, b),
        key_lt(b, c),
    ensures
        key_lt(a, c),
    decreases a.len(),
{
    if a.len() > 0 && b.len() > 0 && c.len() > 0 {
        if a[0] == b[0] && b[0] == c[0] {
            lemma_key_lt_transitive(a.drop_first(), b.drop_first(), c.drop_first());
        }
    }
}

/// Two different keys are ordered one way or the other.
pub proof fn lemma_key_lt_total(a: Seq<char>, b: Seq<char>)
    requires
        a != b,
    ensures
        key_lt(a, b) || key_lt(b, a),
    decreases a.len(),
{
    if a.len() == 0 && b.len() == 0 {
        assert(a =~= b);
    } else if a.len() == 0 || b.len() == 0 {
    } else if a[0] != b[0] {
    } else {
        if a.drop_first() =~= b.drop_first() {
            assert(a =~= seq![a[0]] + a.drop_first());
            assert(b =~= seq![b[0]] + b.drop_first());
            assert(false);
        }
        lemma_key_lt_total(a.drop_first(), b.drop_first());
    }
}

pub proof fn lemma_key_lt_asymmetric(a: Seq<char>, b: Seq<char>)
    requires
        key_lt(a, b),
    ensures
        !key_lt(b, a),
{
    if key_lt(b, a) {
        lemma_key_lt_transitive(a, b, a);
        lemma_key_lt_irreflexive(a);
    }
}

/// Where an insertion lands in sorted entries: at the first key that is
/// not below `k`, replacing it when it equals `k`.
proof fn lemma_insert_at(e: Seq<(Seq<char>, JsonValue)>, k: Seq<char>, v: JsonValue, p: int)
    requires
        keys_sorted(e),
        0 <= p <= e.len(),
        forall|i: int| 0 <= i < p ==> key_lt(#[trigger] e[i].0, k),
        p < e.len() ==> !key_lt(e[p].0, k),
    ensures
        spec_insert(e, k, v) == (if p < e.len() && e[p].0 == k {
            e.update(p, (k, v))
        } else {
            e.insert(p, (k, v))
        }),
    decreases e.len(),
{
    if e.len() == 0 {
        assert(e.insert(p, (k, v)) =~= seq![(k, v)]);
    } else if p == 0 {
        if e[0].0 == k {
            assert(e.update(0, (k, v)) =~= seq![(k, v)] + e.drop_first());
        } else {
            lemma_key_lt_total(e[0].0, k);
            assert(e.insert(0, (k, v)) =~= seq![(k, v)] + e);
        }
    } else {
        assert(key_lt(e[0].0, k));
        lemma_key_lt_asymmetric(e[0].0, k);
        if e[0].0 == k {
            lemma_key_lt_irreflexive(k);
        }
        let r = e.drop_first();
        assert forall|i: int, j: int| 0 <= i < j < r.len() implies key_lt(
            #[trigger] r[i].0,
            #[trigger] r[j].0,
        ) by {
            assert(r[i] == e[i + 1]);
            assert(r[j] == e[j + 1]);
        }
        assert forall|i: int| 0 <= i < p - 1 implies key_lt(#[trigger] r[i].0, k) by {
            assert(r[i] == e[i + 1]);
        }
        lemma_insert_at(r, k, v, p - 1);
        if p < e.len() && e[p].0 == k {
            assert(e.update(p, (k, v)) =~= seq![e[0]] + r.update(p - 1, (k, v)));
        } else {
            assert(e.insert(p, (k, v)) =~= seq![e[0]] + r.insert(p - 1, (k, v)));
        }
    }
}

/// The index of the first key not below `k`.
spec fn insert_position(e: Seq<(Seq<char>, JsonValue)>, k: Seq<char>) -> int
    decreases e.len(),
{
    if e.len() == 0 {
        0
    } else if !key_lt(e[0].0, k) {
        0
    } else {
        1 + insert_position(e.drop_first(), k)
    }
}

proof fn lemma_insert_position(e: Seq<(Seq<char>, JsonValue)>, k: Seq<char>)
    requires
        keys_sorted(e),
    ensures
        0 <= insert_position(e, k) <= e.len(),
        forall|i: int| 0 <= i < insert_position(e, k) ==> key_lt(#[trigger] e[i].0, k),
        insert_position(e, k) < e.len() ==> !key_lt(e[insert_position(e, k)].0, k),
    decreases e.len(),
{
    if e.len() > 0 && key_lt(e[0].0, k) {
        let r = e.drop_first();
        assert forall|i: int, j: int| 0 <= i < j < r.len() implies key_lt(
            #[trigger] r[i].0,
            #[trigger] r[j].0,
        ) by {
            assert(r[i] == e[i + 1]);
            assert(r[j] == e[j + 1]);
        }
        lemma_insert_position(r, k);
        assert forall|i: int| 0 <= i < insert_position(e, k) implies key_lt(#[trigger] e[i].0, k) by {
            if i > 0 {
                assert(e[i] == r[i - 1]);
            }
        }
    }
}

/// Inserting into sorted entries keeps them sorted.
pub proof fn lemma_insert_sorted(e: Seq<(Seq<char>, JsonValue)>, k: Seq<char>, v: JsonValue)
    requires
        keys_sorted(e),
    ensures
        keys_sorted(spec_insert(e, k, v)),
{
    lemma_insert_position(e, k);
    let p = insert_position(e, k);
    lemma_insert_at(e, k, v, p);
    let n = spec_insert(e, k, v);
    if p < e.len() && e[p].0 == k {
        assert forall|i: int, j: int| 0 <= i < j < n.len() implies key_lt(
            #[trigger] n[i].0,
            #[trigger] n[j].0,
        ) by {
            assert(n[i].0 == e[i].0);
            assert(n[j].0 == e[j].0);
        }
    } else {
        assert forall|i: int, j: int| 0 <= i < j < n.len() implies key_lt(
            #[trigger] n[i].0,
            #[trigger] n[j].0,
        ) by {
            if j < p {
                assert(n[i] == e[i] && n[j] == e[j]);
            } else if j == p {
                assert(n[i] == e[i]);
            } else if i == p {
                assert(n[j] == e[j - 1]);
                if p < e.len() {
                    lemma_key_lt_total(e[p].0, k);
                    if j - 1 > p {
                        lemma_key_lt_transitive(k, e[p].0, e[j - 1].0);
                    }
                }
            } else if i < p {
                assert(n[i] == e[i] && n[j] == e[j - 1]);
                if p < e.len() {
                    lemma_key_lt_total(e[p].0, k);
                    lemma_key_lt_transitive(e[i].0, k, e[p].0);
                    if j - 1 > p {
                        lemma_key_lt_transitive(e[i].0, e[p].0, e[j - 1].0);
                    }
                }
            } else {
                assert(n[i] == e[i - 1] && n[j] == e[j - 1]);
            }
        }
    }
}

/// In sorted entries, the value read back for a key is the one last set.
pub proof fn lemma_get_insert_same(e: Seq<(Seq<char>, JsonValue)>, k: Seq<char>, v: JsonValue)
    ensures
        spec_get(spec_insert(e, k, v), k) == Some(v),
    decreases e.len(),
{
    if e.len() > 0 && e[0].0 != k && !key_lt(k, e[0].0) {
        lemma_get_insert_same(e.drop_first(), k, v);
        let n = spec_insert(e, k, v);
        assert(n.drop_first() =~= spec_insert(e.drop_first(), k, v));
    } else if e.len() > 0 {
        let n = spec_insert(e, k, v);
        assert(n[0] == (k, v));
    }
}

/// Setting one key leaves every other key's value as it was.
pub proof fn lemma_get_insert_other(
    e: Seq<(Seq<char>, JsonValue)>,
    k: Seq<char>,
    v: JsonValue,
    k2: Seq<char>,
)
    requires
        k2 != k,
    ensures
        spec_get(spec_insert(e, k, v), k2) == spec_get(e, k2),
    decreases e.len(),
{
    let n = spec_insert(e, k, v);
    if e.len() == 0 {
        assert(n[0] == (k, v));
        assert(n.drop_first() =~= Seq::<(Seq<char>, JsonValue)>::empty());
    } else if e[0].0 == k {
        assert(n[0] == (k, v));
        assert(n.drop_first() =~= e.drop_first());
    } else if key_lt(k, e[0].0) {
        assert(n[0] == (k, v));
        assert(n.drop_first() =~= e);
    } else {
        assert(n[0] == e[0]);
        assert(n.drop_first() =~= spec_insert(e.drop_first(), k, v));
        lemma_get_insert_other(e.drop_first(), k, v, k2);
    }
}

proof fn lemma_sorted_tail(e: Seq<(Seq<char>, JsonValue)>)
    requires
        keys_sorted(e),
        e.len() > 0,
    ensures
        keys_sorted(e.drop_first()),
{
    let r = e.drop_first();
    assert forall|i: int, j: int| 0 <= i < j < r.len() implies key_lt(#[trigger] r[i].0, #[trigger] r[j].0) by {
        assert(r[i] == e[i + 1]);
        assert(r[j] == e[j + 1]);
    }
}

proof fn lemma_get_index(e: Seq<(Seq<char>, JsonValue)>, i: int)
    requires
        keys_sorted(e),
        0 <= i < e.len(),
    ensures
        spec_get(e, e[i].0) == Some(e[i].1),
    decreases e.len(),
{
    if i > 0 {
        assert(key_lt(e[0].0, e[i].0));
        if e[0].0 == e[i].0 {
            lemma_key_lt_irreflexive(e[0].0);
        }
        lemma_sorted_tail(e);
        lemma_get_index(e.drop_first(), i - 1);
        assert(e.drop_first()[i - 1] == e[i]);
    }
}

proof fn lemma_get_found(e: Seq<(Seq<char>, JsonValue)>, k: Seq<char>)
    requires
        spec_get(e, k) is Some,
    ensures
        exists|i: int| 0 <= i < e.len() && (#[trigger] e[i]).0 == k,
    decreases e.len(),
{
    if e[0].0 != k {
        lemma_get_found(e.drop_first(), k);
        let i = choose|i: int| 0 <= i < e.len() - 1 && (#[trigger] e.drop_first()[i]).0 == k;
        assert(e[i + 1] == e.drop_first()[i]);
    } else {
        assert(e[0].0 == k);
    }
}

/// Sorted entries are determined by what they give for each key: two of
/// them that agree on every key are the same entries (so an object's
/// canonical text depends only on its keys and values).
pub proof fn lemma_entries_extensional(a: Seq<(Seq<char>, JsonValue)>, b: Seq<(Seq<char>, JsonValue)>)
    requires
        keys_sorted(a),
        keys_sorted(b),
        forall|k: Seq<char>| spec_get(a, k) == spec_get(b, k),
    ensures
        a == b,
{
    let ka = a.map_values(|p: (Seq<char>, JsonValue)| p.0);
    let kb = b.map_values(|p: (Seq<char>, JsonValue)| p.0);
    assert forall|i: int| 0 <= i < ka.len() implies kb.contains(#[trigger] ka[i]) by {
        lemma_get_index(a, i);
        assert(spec_get(b, a[i].0) is Some);
        lemma_get_found(b, a[i].0);
        let j = choose|j: int| 0 <= j < b.len() && (#[trigger] b[j]).0 == a[i].0;
        assert(kb[j] == ka[i]);
    }
    assert forall|i: int| 0 <= i < kb.len() implies ka.contains(#[trigger] kb[i]) by {
        lemma_get_index(b, i);
        assert(spec_get(a, b[i].0) is Some);
        lemma_get_found(a, b[i].0);
        let j = choose|j: int| 0 <= j < a.len() && (#[trigger] a[j]).0 == b[i].0;
        assert(ka[j] == kb[i]);
    }
    assert(crate::tally::ascending(ka)) by {
        assert forall|i: int, j: int| 0 <= i < j < ka.len() implies key_lt(#[trigger] ka[i], #[trigger] ka[j]) by {
            assert(key_lt(a[i].0, a[j].0));
        }
    }
    assert(crate::tally::ascending(kb)) by {
        assert forall|i: int, j: int| 0 <= i < j < kb.len() implies key_lt(#[trigger] kb[i], #[trigger] kb[j]) by {
            assert(key_lt(b[i].0, b[j].0));
        }
    }
    crate::tally::lemma_ascending_same_elements(ka, kb);
    assert(a.len() == b.len());
    assert forall|i: int| 0 <= i < a.len() implies a[i] == b[i] by {
        assert(ka[i] == kb[i]);
        lemma_get_index(a, i);
        lemma_get_index(b, i);
        assert(spec_get(a, a[i].0) == spec_get(b, a[i].0));
    }
    assert(a =~= b);
}

/// Setting two different keys gives the same object in either order.
pub proof fn lemma_insert_commutes(
    e: Seq<(Seq<char>, JsonValue)>,
    k1: Seq<char>,
    v1: JsonValue,
    k2: Seq<char>,
    v2: JsonValue,
)
    requires
        keys_sorted(e),
        k1 != k2,
    ensures
        spec_insert(spec_insert(e, k1, v1), k2, v2) == spec_insert(spec_insert(e, k2, v2), k1, v1),
{
    let a = spec_insert(spec_insert(e, k1, v1), k2, v2);
    let b = spec_insert(spec_insert(e, k2, v2), k1, v1);
    lemma_insert_sorted(e, k1, v1);
    lemma_insert_sorted(spec_insert(e, k1, v1), k2, v2);
    lemma_insert_sorted(e, k2, v2);
    lemma_insert_sorted(spec_insert(e, k2, v2), k1, v1);
    assert forall|k: Seq<char>| spec_get(a, k) == spec_get(b, k) by {
        if k == k2 {
            lemma_get_insert_same(spec_insert(e, k1, v1), k2, v2);
            lemma_get_insert_other(spec_insert(e, k2, v2), k1, v1, k2);
            lemma_get_insert_same(e, k2, v2);
        } else if k == k1 {
            lemma_get_insert_same(spec_insert(e, k2, v2), k1, v1);
            lemma_get_insert_other(spec_insert(e, k1, v1), k2, v2, k1);
            lemma_get_insert_same(e, k1, v1);
        } else {
            lemma_get_insert_other(spec_insert(e, k1, v1), k2, v2, k);
            lemma_get_insert_other(e, k1, v1, k);
            lemma_get_insert_other(spec_insert(e, k2, v2), k1, v1, k);
            lemma_get_insert_other(e, k2, v2, k);
        }
    }
    lemma_entries_extensional(a, b);
}

/// The value of the last pair with key `k` (the one an object literal
/// keeps).
pub open spec fn last_value(pairs: Seq<(Seq<char>, JsonValue)>, k: Seq<char>) -> Option<JsonValue>
    decreases pairs.len(),
{
    if pairs.len() == 0 {
        None
    } else if pairs.last().0 == k {
        Some(pairs.last().1)
    } else {
        last_value(pairs.drop_last(), k)
    }
}

/// An object literal gives each key the value of its last pair.
pub proof fn lemma_object_from_get(pairs: Seq<(Seq<char>, JsonValue)>, k: Seq<char>)
    ensures
        spec_get(object_from(pairs), k) == last_value(pairs, k),
    decreases pairs.len(),
{
    if pairs.len() > 0 {
        lemma_object_from_get(pairs.drop_last(), k);
        if pairs.last().0 == k {
            lemma_get_insert_same(object_from(pairs.drop_last()), k, pairs.last().1);
        } else {
            lemma_get_insert_other(object_from(pairs.drop_last()), pairs.last().0, pairs.last().1, k);
        }
    }
}

/// The last pair of a key in two lists of pairs is its last pair in the
/// second list, or else in the first.
pub proof fn lemma_last_value_concat(
    a: Seq<(Seq<char>, JsonValue)>,
    b: Seq<(Seq<char>, JsonValue)>,
    k: Seq<char>,
)
    ensures
        last_value(a + b, k) == match last_value(b, k) {
            Some(v) => Some(v),
            None => last_value(a, k),
        },
    decreases b.len(),
{
    if b.len() == 0 {
        assert(a + b =~= a);
    } else {
        assert((a + b).drop_last() =~= a + b.drop_last());
        assert((a + b).last() == b.last());
        lemma_last_value_concat(a, b.drop_last(), k);
    }
}

/// The entries of an object literal are sorted.
pub proof fn lemma_object_from_sorted(pairs: Seq<(Seq<char>, JsonValue)>)
    ensures
        keys_sorted(object_from(pairs)),
    decreases pairs.len(),
{
    if pairs.len() > 0 {
        lemma_object_from_sorted(pairs.drop_last());
        lemma_insert_sorted(object_from(pairs.drop_last()), pairs.last().0, pairs.last().1);
    }
}

// ---------------------------------------------------------------------------
// The canonical text
// ---------------------------------------------------------------------------

/// The escape of one character inside a JSON string literal, as
/// `serde_json` writes it: the quotation mark and the reverse solidus get a
/// backslash, the control characters with a short escape get it, the other
/// control characters become `\u00XX` (lowercase hex), and everything
/// else stands as it is.
pub open spec fn json_escape(c: char) -> Seq<char> {
    let u = c as u32;
    if c == '"' {
        seq!['\\', '"']
    } else if c == '\\' {
        seq!['\\', '\\']
    } else if u == 8 {
        seq!['\\', 'b']
    } else if u == 9 {
        seq!['\\', 't']
    } else if u == 10 {
        seq!['\\', 'n']
    } else if u == 12 {
        seq!['\\', 'f']
    } else if u == 13 {
        seq!['\\', 'r']
    } else if u < 32 {
        seq!['\\', 'u', '0', '0', hex_lower((u / 16) as nat), hex_lower((u % 16) as nat)]
    } else {
        seq![c]
    }
}

/// The characters of a text, each escaped.
pub open spec fn json_escaped(s: Seq<char>) -> Seq<char>
    decreases s.len(),
{
    if s.len() == 0 {
        Seq::empty()
    } else {
        json_escaped(s.drop_last()) + json_escape(s.last())
    }
}

/// The JSON string literal of a text, as `serde_json` writes it: the
/// escaped characters between quotation marks.
pub open spec fn json_quoted(s: Seq<char>) -> Seq<char> {
    seq!['"'] + json_escaped(s) + seq!['"']
}

/// The compact JSON text of a value: no whitespace, object entries in the
/// value's (ascending) key order.
pub open spec fn encode(v: JsonValue) -> Seq<char>
    decreases v,
{
    match v {
        JsonValue::Null => "null"@,
        JsonValue::Bool(b) => if b {
            "true"@
        } else {
            "false"@
        },
        JsonValue::Num(n) => signed_decimal(n),
        JsonValue::Float(t) => t,
        JsonValue::Str(s) => json_quoted(s),
        JsonValue::Array(items) => seq!['['] + encode_items(items) + seq![']'],
        JsonValue::Object(entries) => seq!['{'] + encode_entries(entries) + seq!['}'],
    }
}

/// Array items, comma-separated.
pub open spec fn encode_items(items: Seq<JsonValue>) -> Seq<char>
    decreases items,
{
    if items.len() == 0 {
        Seq::empty()
    } else if items.len() == 1 {
        encode(items[0])
    } else {
        encode_items(items.drop_last()) + seq![','] + encode(items.last())
    }
}

/// Object entries as `"key":value`, comma-separated.
pub open spec fn encode_entries(entries: Seq<(Seq<char>, JsonValue)>) -> Seq<char>
    decreases entries,
{
    if entries.len() == 0 {
        Seq::empty()
    } else if entries.len() == 1 {
        json_quoted(entries[0].0) + seq![':'] + encode(entries[0].1)
    } else {
        encode_entries(entries.drop_last()) + seq![','] + json_quoted(entries.last().0) + seq![
            ':',
        ] + encode(entries.last().1)
    }
}

/// `serde_json::to_string` on a string: its JSON string literal, the
/// characters escaped as `format_escaped_str` does.
#[verifier::external_body]
fn quote_json_string(s: &str) -> (r: String)
    ensures
        r@ == json_quoted(s@),
{
    match serde_json::to_string(s) {
        Ok(t) => t,
        Err(_) => String::new(),
    }
}

// ---------------------------------------------------------------------------
// The executable values
// ---------------------------------------------------------------------------

/// A JSON value. Integers keep the signed/unsigned split the parsers give;
/// a non-integer number is carried as the text that denotes it.
pub enum Json {
    Null,
    Bool(bool),
    Int(i64),
    UInt(u64),
    Float(String),
    Str(String),
    Array(Vec<Json>),
    Object(JsonMap),
}

/// A JSON object: its entries, kept in strictly ascending key order.
pub struct JsonMap {
    entries: Vec<(String, Json)>,
}

impl Json {
    pub open spec fn view(&self) -> JsonValue
        decreases self,
    {
        match self {
            Json::Null => JsonValue::Null,
            Json::Bool(b) => JsonValue::Bool(*b),
            Json::Int(i) => JsonValue::Num(*i as int),
            Json::UInt(u) => JsonValue::Num(*u as int),
            Json::Float(t) => JsonValue::Float(t@),
            Json::Str(s) => JsonValue::Str(s@),
            Json::Array(v) => JsonValue::Array(
                Seq::new(
                    v@.len(),
                    |i: int|
                        if 0 <= i < v@.len() {
                            v@[i].view()
                        } else {
                            JsonValue::Null
                        },
                ),
            ),
            Json::Object(m) => JsonValue::Object(m.view()),
        }
    }
}

impl JsonMap {
    /// The entries, each key and value by its view.
    pub closed spec fn view(&self) -> Seq<(Seq<char>, JsonValue)>
        decreases self,
    {
        Seq::new(
            self.entries@.len(),
            |i: int|
                if 0 <= i < self.entries@.len() {
                    (self.entries@[i].0@, self.entries@[i].1.view())
                } else {
                    (Seq::empty(), JsonValue::Null)
                },
        )
    }

    closed spec fn keys_in_order(self) -> bool {
        forall|i: int, j: int|
            0 <= i < j < self.entries@.len() ==> key_lt(
                #[trigger] self.entries@[i].0@,
                #[trigger] self.entries@[j].0@,
            )
    }

    #[verifier::type_invariant]
    closed spec fn inv(self) -> bool {
        self.keys_in_order()
    }

    proof fn lemma_sorted(&self)
        requires
            self.keys_in_order(),
        ensures
            keys_sorted(self@),
    {
        assert forall|i: int, j: int| 0 <= i < j < self@.len() implies key_lt(
            #[trigger] self@[i].0,
            #[trigger] self@[j].0,
        ) by {
            assert(self@[i].0 == self.entries@[i].0@);
            assert(self@[j].0 == self.entries@[j].0@);
        }
    }

    /// An empty object.
    pub fn new() -> (m: JsonMap)
        ensures
            m@ == Seq::<(Seq<char>, JsonValue)>::empty(),
    {
        let m = JsonMap { entries: Vec::new() };
        assert(m@ =~= Seq::<(Seq<char>, JsonValue)>::empty());
        m
    }

    /// The number of entries.
    pub fn len(&self) -> (n: usize)
        ensures
            n == self@.len(),
    {
        self.entries.len()
    }

    /// The entries, in key order.
    pub fn entries(&self) -> (r: &Vec<(String, Json)>)
        ensures
            r@.len() == self@.len(),
            forall|i: int|
                0 <= i < r@.len() ==> (#[trigger] r@[i].0@, r@[i].1@) == self@[i],
    {
        &self.entries
    }

    /// Sets `key` to `value` (`Map::insert`): an existing entry of the key
    /// is replaced, otherwise the entry joins in key order.
    pub fn insert(&mut self, key: String, value: Json)
        ensures
            final(self)@ == spec_insert(old(self)@, key@, value@),
    {
        proof {
            use_type_invariant(&*self);
            self.lemma_sorted();
        }
        let ghost before = self@;
        let mut entries: Vec<(String, Json)> = Vec::new();
        std::mem::swap(&mut entries, &mut self.entries);
        let ghost ev = Seq::new(
            entries@.len(),
            |i: int| (entries@[i].0@, entries@[i].1@),
        );
        assert(ev =~= before);
        let mut p: usize = 0;
        while p < entries.len() && key_less(entries[p].0.as_str(), key.as_str())
            invariant
                p <= entries@.len(),
                ev.len() == entries@.len(),
                forall|i: int| 0 <= i < entries@.len() ==> ev[i] == (#[trigger] entries@[i].0@, entries@[i].1@),
                forall|i: int| 0 <= i < p ==> key_lt(#[trigger] ev[i].0, key@),
            decreases entries@.len() - p,
        {
            p = p + 1;
        }
        proof {
            lemma_insert_at(ev, key@, value@, p as int);
            lemma_insert_sorted(ev, key@, value@);
        }
        let ghost new_view = spec_insert(ev, key@, value@);
        let ghost kv = key@;
        let ghost vv = value@;
        if p < entries.len() && crate::text::str_eq(entries[p].0.as_str(), key.as_str()) {
            proof {
                assert(ev[p as int].0 == entries@[p as int].0@);
            }
            entries.set(p, (key, value));
            assert forall|i: int| 0 <= i < entries@.len() implies (
            #[trigger] entries@[i].0@, entries@[i].1@) == new_view[i] by {
                if i != p {
                    assert(new_view[i] == ev[i]);
                }
            }
        } else {
            proof {
                if p < entries@.len() {
                    assert(ev[p as int].0 == entries@[p as int].0@);
                }
            }
            let ghost old_entries = entries@;
            entries.insert(p, (key, value));
            assert forall|i: int| 0 <= i < entries@.len() implies (
            #[trigger] entries@[i].0@, entries@[i].1@) == new_view[i] by {
                if i < p {
                    assert(new_view[i] == ev[i]);
                    assert(entries@[i] == old_entries[i]);
                } else if i > p {
                    assert(new_view[i] == ev[i - 1]);
                    assert(entries@[i] == old_entries[i - 1]);
                }
            }
        }
        assert forall|i: int, j: int| 0 <= i < j < entries@.len() implies key_lt(
            #[trigger] entries@[i].0@,
            #[trigger] entries@[j].0@,
        ) by {
            assert(new_view[i].0 == entries@[i].0@);
            assert(new_view[j].0 == entries@[j].0@);
        }
        self.entries = entries;
        proof {
            assert(self@ =~= new_view);
        }
    }

    /// Removes the entry of `key`, if the object holds one (`Map::remove`).
    pub fn remove(&mut self, key: &str)
        ensures
            final(self)@ == spec_remove(old(self)@, key@),
    {
        proof {
            use_type_invariant(&*self);
            self.lemma_sorted();
        }
        let ghost before = self@;
        let mut entries: Vec<(String, Json)> = Vec::new();
        std::mem::swap(&mut entries, &mut self.entries);
        let ghost ev = Seq::new(
            entries@.len(),
            |i: int| (entries@[i].0@, entries@[i].1@),
        );
        assert(ev =~= before);
        let mut p: usize = 0;
        while p < entries.len() && !crate::text::str_eq(entries[p].0.as_str(), key)
            invariant
                p <= entries@.len(),
                ev.len() == entries@.len(),
                forall|i: int| 0 <= i < entries@.len() ==> ev[i] == (#[trigger] entries@[i].0@, entries@[i].1@),
                forall|i: int| 0 <= i < p ==> (#[trigger] ev[i]).0 != key@,
            decreases entries@.len() - p,
        {
            p = p + 1;
        }
        let ghost new_view = spec_remove(ev, key@);
        if p < entries.len() {
            proof {
                assert(ev[p as int].0 == key@);
                lemma_remove_at(ev, key@, p as int);
            }
            let ghost old_entries = entries@;
            entries.remove(p);
            assert forall|i: int| 0 <= i < entries@.len() implies (
            #[trigger] entries@[i].0@, entries@[i].1@) == new_view[i] by {
                if i < p {
                    assert(entries@[i] == old_entries[i]);
                } else {
                    assert(entries@[i] == old_entries[i + 1]);
                }
            }
            assert forall|i: int, j: int| 0 <= i < j < entries@.len() implies key_lt(
                #[trigger] entries@[i].0@,
                #[trigger] entries@[j].0@,
            ) by {
                let a = if i < p { i } else { i + 1 };
                let b = if j < p { j } else { j + 1 };
                assert(entries@[i] == old_entries[a]);
                assert(entries@[j] == old_entries[b]);
                assert(ev[a].0 == old_entries[a].0@);
                assert(ev[b].0 == old_entries[b].0@);
            }
        } else {
            proof {
                lemma_absent_get(ev, key@);
                lemma_remove_absent(ev, key@);
            }
            assert forall|i: int, j: int| 0 <= i < j < entries@.len() implies key_lt(
                #[trigger] entries@[i].0@,
                #[trigger] entries@[j].0@,
            ) by {
                assert(ev[i].0 == entries@[i].0@);
                assert(ev[j].0 == entries@[j].0@);
            }
        }
        self.entries = entries;
        proof {
            assert(self@ =~= new_view);
        }
    }

    /// The value of `key`, if the object holds it.
    pub fn get(&self, key: &str) -> (r: Option<&Json>)
        ensures
            match r {
                Some(j) => spec_get(self@, key@) == Some(j@),
                None => spec_get(self@, key@) is None,
            },
    {
        let ghost ev = self@;
        let mut i: usize = 0;
        assert(ev.skip(0) =~= ev);
        while i < self.entries.len()
            invariant
                i <= self.entries@.len(),
                ev == self@,
                ev.len() == self.entries@.len(),
                spec_get(ev, key@) == spec_get(ev.skip(i as int), key@),
            decreases self.entries@.len() - i,
        {
            let ghost rest = ev.skip(i as int);
            assert(rest[0] == (self.entries@[i as int].0@, self.entries@[i as int].1@));
            if crate::text::str_eq(self.entries[i].0.as_str(), key) {
                return Some(&self.entries[i].1);
            }
            assert(rest.drop_first() =~= ev.skip(i + 1));
            i = i + 1;
        }
        None
    }

    /// A copy of the object.
    pub fn copy(&self) -> (r: JsonMap)
        ensures
            r@ == self@,
        decreases self,
    {
        proof {
            use_type_invariant(self);
        }
        let mut out: Vec<(String, Json)> = Vec::new();
        let mut i: usize = 0;
        while i < self.entries.len()
            invariant
                i <= self.entries@.len(),
                out@.len() == i,
                forall|j: int|
                    0 <= j < i ==> (#[trigger] out@[j].0@, out@[j].1@) == (
                        self.entries@[j].0@,
                        self.entries@[j].1@,
                    ),
            decreases self.entries@.len() - i,
        {
            let k = self.entries[i].0.clone();
            let v = self.entries[i].1.copy();
            out.push((k, v));
            i = i + 1;
        }
        let r = JsonMap { entries: out };
        assert(r@ =~= self@);
        r
    }
}

/// Whether `a` comes before `b` in key order.
pub fn key_less(a: &str, b: &str) -> (r: bool)
    ensures
        r == key_lt(a@, b@),
{
    let x = chars_of(a);
    let y = chars_of(b);
    let mut i: usize = 0;
    assert(a@.skip(0) =~= a@);
    assert(b@.skip(0) =~= b@);
    while i < x.len() && i < y.len() && x[i] == y[i]
        invariant
            x@ == a@,
            y@ == b@,
            i <= x@.len(),
            i <= y@.len(),
            key_lt(a@, b@) == key_lt(a@.skip(i as int), b@.skip(i as int)),
        decreases x@.len() - i,
    {
        assert(a@.skip(i as int).drop_first() =~= a@.skip(i + 1));
        assert(b@.skip(i as int).drop_first() =~= b@.skip(i + 1));
        i = i + 1;
    }
    if i == y.len() {
        false
    } else if i == x.len() {
        true
    } else {
        assert(a@.skip(i as int)[0] == x@[i as int]);
        assert(b@.skip(i as int)[0] == y@[i as int]);
        x[i] < y[i]
    }
}

impl Json {
    /// A copy of the value.
    pub fn copy(&self) -> (r: Json)
        ensures
            r@ == self@,
        decreases self,
    {
        match self {
            Json::Null => Json::Null,
            Json::Bool(b) => Json::Bool(*b),
            Json::Int(i) => Json::Int(*i),
            Json::UInt(u) => Json::UInt(*u),
            Json::Float(t) => Json::Float(t.clone()),
            Json::Str(s) => Json::Str(s.clone()),
            Json::Array(items) => {
                let mut out: Vec<Json> = Vec::new();
                let mut i: usize = 0;
                while i < items.len()
                    invariant
                        *self === Json::Array(*items),
                        i <= items@.len(),
                        out@.len() == i,
                        forall|j: int| 0 <= j < i ==> (#[trigger] out@[j])@ == items@[j]@,
                    decreases items@.len() - i,
                {
                    proof {
                        assert(decreases_to!(*self => self->Array_0));
                        assert(decreases_to!(self->Array_0 => self->Array_0@));
                        assert(decreases_to!(self->Array_0@ => self->Array_0@[i as int]));
                    }
                    out.push(items[i].copy());
                    i = i + 1;
                }
                let r = Json::Array(out);
                assert forall|j: int| 0 <= j < items@.len() implies r@->Array_0[j] == self@->Array_0[j] by {
                    assert(r@->Array_0[j] == out@[j]@);
                    assert(self@->Array_0[j] == items@[j]@);
                }
                assert(r@->Array_0 =~= self@->Array_0);
                r
            },
            Json::Object(m) => Json::Object(m.copy()),
        }
    }

    /// A string value.
    pub fn str(s: &str) -> (r: Json)
        ensures
            r@ == JsonValue::Str(s@),
    {
        Json::Str(s.to_owned())
    }

    /// The field `key` of an object (`Value::get`).
    pub fn get(&self, key: &str) -> (r: Option<&Json>)
        ensures
            match r {
                Some(j) => field(self@, key@) == Some(j@),
                None => field(self@, key@) is None,
            },
    {
        match self {
            Json::Object(m) => m.get(key),
            _ => None,
        }
    }

    /// The text of a string value (`Value::as_str`).
    pub fn as_str(&self) -> (r: Option<&str>)
        ensures
            match r {
                Some(s) => self@ == JsonValue::Str(s@),
                None => !(self@ is Str),
            },
    {
        match self {
            Json::Str(s) => Some(s.as_str()),
            _ => None,
        }
    }

    /// The items of an array value (`Value::as_array`).
    pub fn as_array(&self) -> (r: Option<&Vec<Json>>)
        ensures
            match r {
                Some(v) => self@ is Array && self@->Array_0.len() == v@.len() && forall|i: int|
                    0 <= i < v@.len() ==> (#[trigger] v@[i])@ == self@->Array_0[i],
                None => !(self@ is Array),
            },
    {
        match self {
            Json::Array(v) => Some(v),
            _ => None,
        }
    }

    /// A non-negative integer value (`Value::as_u64`).
    pub fn as_u64(&self) -> (r: Option<u64>)
        ensures
            match r {
                Some(n) => self@ == JsonValue::Num(n as int),
                None => !(self@ is Num && 0 <= self@->Num_0 <= u64::MAX),
            },
    {
        match self {
            Json::Int(i) => if *i >= 0 {
                Some(*i as u64)
            } else {
                None
            },
            Json::UInt(u) => Some(*u),
            _ => None,
        }
    }

    /// An integer value within `i64` (`Value::as_i64`).
    pub fn as_i64(&self) -> (r: Option<i64>)
        ensures
            match r {
                Some(n) => self@ == JsonValue::Num(n as int),
                None => !(self@ is Num && i64::MIN <= self@->Num_0 <= i64::MAX),
            },
    {
        match self {
            Json::Int(i) => Some(*i),
            Json::UInt(u) => if *u <= 9223372036854775807 {
                Some(*u as i64)
            } else {
                None
            },
            _ => None,
        }
    }
}

/// The views of array items.
pub open spec fn items_view(items: Seq<Json>) -> Seq<JsonValue> {
    items.map_values(|j: Json| j@)
}

/// An array value.
pub fn json_array(items: Vec<Json>) -> (r: Json)
    ensures
        r@ == JsonValue::Array(items_view(items@)),
{
    let r = Json::Array(items);
    assert(r@->Array_0 =~= items_view(items@));
    r
}

/// The entries without key `k`.
pub open spec fn spec_remove(e: Seq<(Seq<char>, JsonValue)>, k: Seq<char>) -> Seq<(Seq<char>, JsonValue)>
    decreases e.len(),
{
    if e.len() == 0 {
        e
    } else if e[0].0 == k {
        spec_remove(e.drop_first(), k)
    } else {
        seq![e[0]] + spec_remove(e.drop_first(), k)
    }
}

proof fn lemma_remove_absent(e: Seq<(Seq<char>, JsonValue)>, k: Seq<char>)
    requires
        spec_get(e, k) is None,
    ensures
        spec_remove(e, k) == e,
    decreases e.len(),
{
    if e.len() > 0 {
        lemma_remove_absent(e.drop_first(), k);
        assert(e =~= seq![e[0]] + e.drop_first());
    }
}

/// Removing a key that an insertion added restores the entries as they
/// were before it (for sorted entries that did not hold the key).
pub proof fn lemma_remove_insert(e: Seq<(Seq<char>, JsonValue)>, k: Seq<char>, v: JsonValue)
    requires
        spec_get(e, k) is None,
    ensures
        spec_remove(spec_insert(e, k, v), k) == e,
    decreases e.len(),
{
    let n = spec_insert(e, k, v);
    if e.len() == 0 {
        assert(n[0] == (k, v));
        assert(n.drop_first() =~= e);
        assert(spec_remove(n, k) == spec_remove(n.drop_first(), k));
        assert(spec_remove(e, k) == e);
    } else if e[0].0 == k {
        assert(false);
    } else if key_lt(k, e[0].0) {
        assert(n[0] == (k, v));
        assert(n.drop_first() =~= e);
        lemma_remove_absent(e, k);
        assert(spec_remove(n, k) == spec_remove(n.drop_first(), k));
    } else {
        assert(n[0] == e[0]);
        assert(n.drop_first() =~= spec_insert(e.drop_first(), k, v));
        lemma_remove_insert(e.drop_first(), k, v);
        assert(spec_remove(n, k) == seq![e[0]] + spec_remove(n.drop_first(), k));
        assert(e =~= seq![e[0]] + e.drop_first());
    }
}

/// After removing a key, the entries give nothing for it.
pub proof fn lemma_get_remove_same(e: Seq<(Seq<char>, JsonValue)>, k: Seq<char>)
    ensures
        spec_get(spec_remove(e, k), k) is None,
    decreases e.len(),
{
    if e.len() > 0 {
        lemma_get_remove_same(e.drop_first(), k);
        if e[0].0 != k {
            let r = seq![e[0]] + spec_remove(e.drop_first(), k);
            assert(r.drop_first() =~= spec_remove(e.drop_first(), k));
        }
    }
}

/// Removing a key leaves what the entries give for every other key.
pub proof fn lemma_get_remove_other(e: Seq<(Seq<char>, JsonValue)>, k: Seq<char>, k2: Seq<char>)
    requires
        k2 != k,
    ensures
        spec_get(spec_remove(e, k), k2) == spec_get(e, k2),
    decreases e.len(),
{
    if e.len() > 0 {
        lemma_get_remove_other(e.drop_first(), k, k2);
        if e[0].0 != k {
            let r = seq![e[0]] + spec_remove(e.drop_first(), k);
            assert(r.drop_first() =~= spec_remove(e.drop_first(), k));
        }
    }
}

proof fn lemma_absent_get(e: Seq<(Seq<char>, JsonValue)>, k: Seq<char>)
    requires
        forall|i: int| 0 <= i < e.len() ==> (#[trigger] e[i]).0 != k,
    ensures
        spec_get(e, k) is None,
{
    if spec_get(e, k) is Some {
        lemma_get_found(e, k);
    }
}

proof fn lemma_remove_at(e: Seq<(Seq<char>, JsonValue)>, k: Seq<char>, p: int)
    requires
        keys_sorted(e),
        0 <= p < e.len(),
        e[p].0 == k,
    ensures
        spec_remove(e, k) == e.remove(p),
    decreases p,
{
    let t = e.drop_first();
    lemma_sorted_tail(e);
    if p == 0 {
        assert forall|i: int| 0 <= i < t.len() implies (#[trigger] t[i]).0 != k by {
            assert(t[i] == e[i + 1]);
            assert(key_lt(e[0].0, e[i + 1].0));
            if e[i + 1].0 == k {
                lemma_key_lt_irreflexive(k);
            }
        }
        lemma_absent_get(t, k);
        lemma_remove_absent(t, k);
        assert(e.remove(0) =~= t);
    } else {
        assert(key_lt(e[0].0, e[p].0));
        if e[0].0 == k {
            lemma_key_lt_irreflexive(k);
        }
        assert(t[p - 1] == e[p]);
        lemma_remove_at(t, k, p - 1);
        assert(e.remove(p) =~= seq![e[0]] + t.remove(p - 1));
    }
}

/// The views of key/value pairs.
pub open spec fn pairs_view(pairs: Seq<(String, Json)>) -> Seq<(Seq<char>, JsonValue)> {
    pairs.map_values(|p: (String, Json)| (p.0@, p.1@))
}

/// The object an object literal gives: the pairs inserted in order.
pub fn json_object(pairs: Vec<(String, Json)>) -> (r: Json)
    ensures
        r@ == JsonValue::Object(object_from(pairs_view(pairs@))),
{
    let ghost pv = pairs_view(pairs@);
    let mut m = JsonMap::new();
    let mut i: usize = 0;
    assert(pv.take(0) =~= Seq::<(Seq<char>, JsonValue)>::empty());
    while i < pairs.len()
        invariant
            i <= pairs@.len(),
            pv == pairs_view(pairs@),
            m@ == object_from(pv.take(i as int)),
        decreases pairs@.len() - i,
    {
        let k = pairs[i].0.clone();
        let v = pairs[i].1.copy();
        m.insert(k, v);
        assert(pv.take(i + 1).drop_last() =~= pv.take(i as int));
        i = i + 1;
    }
    assert(pv.take(pairs@.len() as int) =~= pv);
    Json::Object(m)
}

/// Appends the compact text of `v` to `out`.
pub fn write_json(out: &mut String, v: &Json)
    ensures
        final(out)@ == old(out)@ + encode(v@),
    decreases v,
{
    match v {
        Json::Null => out.append("null"),
        Json::Bool(b) => if *b {
            out.append("true")
        } else {
            out.append("false")
        },
        Json::Int(i) => push_signed_decimal(out, *i),
        Json::UInt(u) => push_decimal(out, *u),
        Json::Float(t) => out.append(t.as_str()),
        Json::Str(s) => {
            let q = quote_json_string(s.as_str());
            out.append(q.as_str());
        },
        Json::Array(items) => {
            let ghost start = out@;
            let ghost iv = v@->Array_0;
            push_char(out, '[');
            let mut i: usize = 0;
            while i < items.len()
                invariant
                    *v === Json::Array(*items),
                    i <= items@.len(),
                    iv.len() == items@.len(),
                    forall|j: int| 0 <= j < items@.len() ==> (#[trigger] items@[j])@ == iv[j],
                    out@ == start + seq!['['] + encode_items(iv.take(i as int)),
                decreases items@.len() - i,
            {
                let ghost before = out@;
                if i > 0 {
                    push_char(out, ',');
                }
                proof {
                    assert(decreases_to!(*v => v->Array_0));
                    assert(decreases_to!(v->Array_0 => v->Array_0@));
                    assert(decreases_to!(v->Array_0@ => v->Array_0@[i as int]));
                }
                write_json(out, &items[i]);
                proof {
                    let t = iv.take(i + 1);
                    assert(t.drop_last() =~= iv.take(i as int));
                    assert(t.last() == iv[i as int]);
                    if i == 0 {
                        assert(t =~= seq![iv[0]]);
                    }
                }
                i = i + 1;
            }
            push_char(out, ']');
            assert(iv.take(items@.len() as int) =~= iv);
        },
        Json::Object(m) => {
            let ghost start = out@;
            let ghost ev = m@;
            let entries = &m.entries;
            push_char(out, '{');
            let mut i: usize = 0;
            while i < entries.len()
                invariant
                    *v === Json::Object(*m),
                    *m === v->Object_0,
                    entries === &m.entries,
                    i <= entries@.len(),
                    ev.len() == entries@.len(),
                    forall|j: int|
                        0 <= j < entries@.len() ==> (#[trigger] entries@[j].0@, entries@[j].1@)
                            == ev[j],
                    out@ == start + seq!['{'] + encode_entries(ev.take(i as int)),
                decreases entries@.len() - i,
            {
                if i > 0 {
                    push_char(out, ',');
                }
                let q = quote_json_string(entries[i].0.as_str());
                out.append(q.as_str());
                push_char(out, ':');
                proof {
                    let mm = v->Object_0;
                    assert(decreases_to!(*v => mm));
                    assert(decreases_to!(mm => mm.entries));
                    assert(decreases_to!(mm.entries => mm.entries@));
                    assert(decreases_to!(mm.entries@ => mm.entries@[i as int]));
                    assert(decreases_to!(mm.entries@[i as int] => mm.entries@[i as int].1));
                }
                write_json(out, &entries[i].1);
                proof {
                    let t = ev.take(i + 1);
                    assert(t.drop_last() =~= ev.take(i as int));
                    assert(t.last() == ev[i as int]);
                    if i == 0 {
                        assert(t =~= seq![ev[0]]);
                    }
                }
                i = i + 1;
            }
            push_char(out, '}');
            assert(ev.take(entries@.len() as int) =~= ev);
        },
    }
}

/// The compact text of a value (`serde_json::to_string`, `Value`'s `Display`).
pub fn to_text(v: &Json) -> (r: String)
    ensures
        r@ == encode(v@),
{
    let mut r = String::new();
    write_json(&mut r, v);
    r
}

// ---------------------------------------------------------------------------
// The pretty text
// ---------------------------------------------------------------------------

/// The pretty text of a value (`serde_json::to_string_pretty`) whose
/// lines after the first are prefixed with `pad`: a non-empty array or
/// object puts each item on a line of its own, indented two spaces more
/// than its brackets; everything else is its compact text.
pub open spec fn pretty(v: JsonValue, pad: Seq<char>) -> Seq<char>
    decreases v,
{
    match v {
        JsonValue::Array(items) => if items.len() == 0 {
            seq!['[', ']']
        } else {
            seq!['['] + pretty_items(items, pad + "  "@) + seq!['\n'] + pad + seq![']']
        },
        JsonValue::Object(entries) => if entries.len() == 0 {
            seq!['{', '}']
        } else {
            seq!['{'] + pretty_entries(entries, pad + "  "@) + seq!['\n'] + pad + seq!['}']
        },
        _ => encode(v),
    }
}

/// The items of a non-empty array, each on its own line after `pad`.
pub open spec fn pretty_items(items: Seq<JsonValue>, pad: Seq<char>) -> Seq<char>
    decreases items,
{
    if items.len() == 0 {
        Seq::empty()
    } else {
        pretty_items(items.drop_last(), pad) + (if items.len() == 1 {
            seq!['\n']
        } else {
            seq![',', '\n']
        }) + pad + pretty(items.last(), pad)
    }
}

/// The entries of a non-empty object as `"key": value`, each on its own
/// line after `pad`.
pub open spec fn pretty_entries(entries: Seq<(Seq<char>, JsonValue)>, pad: Seq<char>) -> Seq<char>
    decreases entries,
{
    if entries.len() == 0 {
        Seq::empty()
    } else {
        pretty_entries(entries.drop_last(), pad) + (if entries.len() == 1 {
            seq!['\n']
        } else {
            seq![',', '\n']
        }) + pad + json_quoted(entries.last().0) + seq![':', ' '] + pretty(entries.last().1, pad)
    }
}

/// Appends the pretty text of `v`, its inner lines prefixed with `pad`.
pub fn write_pretty(out: &mut String, v: &Json, pad: &str)
    ensures
        final(out)@ == old(out)@ + pretty(v@, pad@),
    decreases v,
{
    match v {
        Json::Array(items) => {
            if items.len() == 0 {
                push_char(out, '[');
                push_char(out, ']');
                return ;
            }
            let ghost start = out@;
            let ghost iv = v@->Array_0;
            let inner = crate::text::concat2(pad, "  ");
            push_char(out, '[');
            let mut i: usize = 0;
            while i < items.len()
                invariant
                    *v === Json::Array(*items),
                    i <= items@.len(),
                    iv.len() == items@.len(),
                    inner@ == pad@ + "  "@,
                    forall|j: int| 0 <= j < items@.len() ==> (#[trigger] items@[j])@ == iv[j],
                    out@ == start + seq!['['] + pretty_items(iv.take(i as int), inner@),
                decreases items@.len() - i,
            {
                if i > 0 {
                    push_char(out, ',');
                }
                push_char(out, '\n');
                out.append(inner.as_str());
                proof {
                    assert(decreases_to!(*v => v->Array_0));
                    assert(decreases_to!(v->Array_0 => v->Array_0@));
                    assert(decreases_to!(v->Array_0@ => v->Array_0@[i as int]));
                }
                write_pretty(out, &items[i], inner.as_str());
                proof {
                    let t = iv.take(i + 1);
                    assert(t.drop_last() =~= iv.take(i as int));
                    assert(t.last() == iv[i as int]);
                    if i == 0 {
                        assert(iv.take(0) =~= Seq::<JsonValue>::empty());
                    }
                }
                i = i + 1;
            }
            assert(iv.take(items@.len() as int) =~= iv);
            push_char(out, '\n');
            out.append(pad);
            push_char(out, ']');
        },
        Json::Object(m) => {
            let entries = &m.entries;
            if entries.len() == 0 {
                assert(m@.len() == m.entries@.len());
                assert(v@ == JsonValue::Object(m@));
                push_char(out, '{');
                push_char(out, '}');
                return ;
            }
            let ghost start = out@;
            let ghost ev = m@;
            let inner = crate::text::concat2(pad, "  ");
            push_char(out, '{');
            let mut i: usize = 0;
            while i < entries.len()
                invariant
                    *v === Json::Object(*m),
                    *m === v->Object_0,
                    entries === &m.entries,
                    i <= entries@.len(),
                    ev.len() == entries@.len(),
                    inner@ == pad@ + "  "@,
                    forall|j: int|
                        0 <= j < entries@.len() ==> (#[trigger] entries@[j].0@, entries@[j].1@)
                            == ev[j],
                    out@ == start + seq!['{'] + pretty_entries(ev.take(i as int), inner@),
                decreases entries@.len() - i,
            {
                if i > 0 {
                    push_char(out, ',');
                }
                push_char(out, '\n');
                out.append(inner.as_str());
                let q = quote_json_string(entries[i].0.as_str());
                out.append(q.as_str());
                push_char(out, ':');
                push_char(out, ' ');
                proof {
                    let mm = v->Object_0;
                    assert(decreases_to!(*v => mm));
                    assert(decreases_to!(mm => mm.entries));
                    assert(decreases_to!(mm.entries => mm.entries@));
                    assert(decreases_to!(mm.entries@ => mm.entries@[i as int]));
                    assert(decreases_to!(mm.entries@[i as int] => mm.entries@[i as int].1));
                }
                write_pretty(out, &entries[i].1, inner.as_str());
                proof {
                    let t = ev.take(i + 1);
                    assert(t.drop_last() =~= ev.take(i as int));
                    assert(t.last() == ev[i as int]);
                    if i == 0 {
                        assert(ev.take(0) =~= Seq::<(Seq<char>, JsonValue)>::empty());
                    }
                }
                i = i + 1;
            }
            assert(ev.take(entries@.len() as int) =~= ev);
            push_char(out, '\n');
            out.append(pad);
            push_char(out, '}');
        },
        _ => write_json(out, v),
    }
}

/// The pretty text of a value (`serde_json::to_string_pretty`).
pub fn to_pretty_text(v: &Json) -> (r: String)
    ensures
        r@ == pretty(v@, Seq::empty()),
{
    let mut r = String::new();
    write_pretty(&mut r, v, "");
    proof {
        reveal_strlit("");
    }
    r
}

} // verus!
