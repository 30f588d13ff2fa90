//! YAML documents as the directory files hold them, and their JSON form:
//! mappings become objects (keys as text), sequences arrays, tags are
//! looked through.

use vstd::prelude::*;

use crate::json::{object_from, Json, JsonMap, JsonValue};
use crate::text::{trim, trim_spec};

verus! {

/// A mapping key: a string, or any other value by its YAML text.
pub enum YamlKeyValue {
    Str(Seq<char>),
    Other(Seq<char>),
}

/// A YAML value as mathematics: numbers are integers (or, for a
/// non-integer number, the JSON text that denotes it).
pub enum YamlValue {
    Null,
    Bool(bool),
    Num(int),
    Float(Seq<char>),
    Str(Seq<char>),
    List(Seq<YamlValue>),
    Mapping(Seq<(YamlKeyValue, YamlValue)>),
    Tagged(Box<YamlValue>),
}

/// A mapping key.
pub enum YamlKey {
    Str(String),
    Other(String),
}

/// A YAML value: integers keep the signed/unsigned split; a non-integer
/// number is carried as the JSON text that denotes it; a mapping keeps its
/// entries in document order.
pub enum Yaml {
    Null,
    Bool(bool),
    Int(i64),
    UInt(u64),
    Float(String),
    Str(String),
    List(Vec<Yaml>),
    Mapping(Vec<(YamlKey, Yaml)>),
    Tagged(Box<Yaml>),
}

impl YamlKey {
    pub open spec fn view(&self) -> YamlKeyValue {
        match self {
            YamlKey::Str(s) => YamlKeyValue::Str(s@),
            YamlKey::Other(t) => YamlKeyValue::Other(t@),
        }
    }
}

impl Yaml {
    pub open spec fn view(&self) -> YamlValue
        decreases self,
    {
        match self {
            Yaml::Null => YamlValue::Null,
            Yaml::Bool(b) => YamlValue::Bool(*b),
            Yaml::Int(i) => YamlValue::Num(*i as int),
            Yaml::UInt(u) => YamlValue::Num(*u as int),
            Yaml::Float(t) => YamlValue::Float(t@),
            Yaml::Str(s) => YamlValue::Str(s@),
            Yaml::List(v) => YamlValue::List(
                Seq::new(
                    v@.len(),
                    |i: int|
                        if 0 <= i < v@.len() {
                            v@[i].view()
                        } else {
                            YamlValue::Null
                        },
                ),
            ),
            Yaml::Mapping(m) => YamlValue::Mapping(
                Seq::new(
                    m@.len(),
                    |i: int|
                        if 0 <= i < m@.len() {
                            (m@[i].0.view(), m@[i].1.view())
                        } else {
                            (YamlKeyValue::Str(Seq::empty()), YamlValue::Null)
                        },
                ),
            ),
            Yaml::Tagged(inner) => YamlValue::Tagged(Box::new(inner.view())),
        }
    }
}

/// A value with its tags looked through.
pub open spec fn untag(y: YamlValue) -> YamlValue
    decreases y,
{
    match y {
        YamlValue::Tagged(inner) => untag(*inner),
        _ => y,
    }
}

/// The value of the first entry whose key is the string `k`.
pub open spec fn entry_value(entries: Seq<(YamlKeyValue, YamlValue)>, k: Seq<char>) -> Option<
    YamlValue,
>
    decreases entries.len(),
{
    if entries.len() == 0 {
        None
    } else if entries[0].0 == YamlKeyValue::Str(k) {
        Some(entries[0].1)
    } else {
        entry_value(entries.drop_first(), k)
    }
}

/// The field `k` of a value, when it is (under its tags) a mapping holding
/// `k` (`serde_yaml::Value::get`).
pub open spec fn yaml_field(y: YamlValue, k: Seq<char>) -> Option<YamlValue> {
    match untag(y) {
        YamlValue::Mapping(entries) => entry_value(entries, k),
        _ => None,
    }
}

/// The text of a string value, under its tags (`as_str`).
pub open spec fn yaml_str(y: YamlValue) -> Option<Seq<char>> {
    match untag(y) {
        YamlValue::Str(s) => Some(s),
        _ => None,
    }
}

/// The items of a sequence value, under its tags (`as_sequence`).
pub open spec fn yaml_list(y: YamlValue) -> Option<Seq<YamlValue>> {
    match untag(y) {
        YamlValue::List(items) => Some(items),
        _ => None,
    }
}

/// The text a key becomes in JSON: a string as it is, any other key its
/// YAML text trimmed.
pub open spec fn key_text(k: YamlKeyValue) -> Seq<char> {
    match k {
        YamlKeyValue::Str(s) => s,
        YamlKeyValue::Other(t) => trim_spec(t),
    }
}

/// The entries of a mapping as JSON object pairs, in document order.
pub open spec fn json_pairs(entries: Seq<(YamlKeyValue, YamlValue)>) -> Seq<(Seq<char>, JsonValue)>
    decreases entries,
{
    Seq::new(
        entries.len(),
        |i: int|
            if 0 <= i < entries.len() {
                (key_text(entries[i].0), yaml_json(entries[i].1))
            } else {
                (Seq::empty(), JsonValue::Null)
            },
    )
}

/// The JSON form of a YAML value: mappings become objects (a later entry
/// whose key text repeats an earlier one replaces it), sequences arrays,
/// tags are looked through.
pub open spec fn yaml_json(y: YamlValue) -> JsonValue
    decreases y,
{
    match y {
        YamlValue::Null => JsonValue::Null,
        YamlValue::Bool(b) => JsonValue::Bool(b),
        YamlValue::Num(n) => JsonValue::Num(n),
        YamlValue::Float(t) => JsonValue::Float(t),
        YamlValue::Str(s) => JsonValue::Str(s),
        YamlValue::List(items) => JsonValue::Array(
            Seq::new(
                items.len(),
                |i: int|
                    if 0 <= i < items.len() {
                        yaml_json(items[i])
                    } else {
                        JsonValue::Null
                    },
            ),
        ),
        YamlValue::Mapping(entries) => JsonValue::Object(object_from(json_pairs(entries))),
        YamlValue::Tagged(inner) => yaml_json(*inner),
    }
}

impl Yaml {
    /// The value under its tags.
    pub fn untagged(&self) -> (r: &Yaml)
        ensures
            r@ == untag(self@),
            !(r@ is Tagged),
        decreases self,
    {
        match self {
            Yaml::Tagged(inner) => inner.untagged(),
            _ => self,
        }
    }

    /// The field `k` (`serde_yaml::Value::get`).
    pub fn get(&self, key: &str) -> (r: Option<&Yaml>)
        ensures
            match r {
                Some(v) => yaml_field(self@, key@) == Some(v@),
                None => yaml_field(self@, key@) is None,
            },
    {
        let u = self.untagged();
        match u {
            Yaml::Mapping(entries) => {
                let ghost ev = u@->Mapping_0;
                let mut i: usize = 0;
                assert(ev.skip(0) =~= ev);
                while i < entries.len()
                    invariant
                        i <= entries@.len(),
                        *u === Yaml::Mapping(*entries),
                        ev == u@->Mapping_0,
                        ev.len() == entries@.len(),
                        yaml_field(self@, key@) == entry_value(ev.skip(i as int), key@),
                    decreases entries@.len() - i,
                {
                    let ghost rest = ev.skip(i as int);
                    assert(rest[0] == (entries@[i as int].0@, entries@[i as int].1@));
                    let hit = match &entries[i].0 {
                        YamlKey::Str(s) => crate::text::str_eq(s.as_str(), key),
                        YamlKey::Other(_) => false,
                    };
                    if hit {
                        return Some(&entries[i].1);
                    }
                    assert(rest.drop_first() =~= ev.skip(i + 1));
                    i = i + 1;
                }
                None
            },
            _ => None,
        }
    }

    /// The text of a string value (`as_str`).
    pub fn as_str(&self) -> (r: Option<&str>)
        ensures
            match r {
                Some(s) => yaml_str(self@) == Some(s@),
                None => yaml_str(self@) is None,
            },
    {
        match self.untagged() {
            Yaml::Str(s) => Some(s.as_str()),
            _ => None,
        }
    }

    /// The items of a sequence value (`as_sequence`).
    pub fn as_list(&self) -> (r: Option<&Vec<Yaml>>)
        ensures
            match r {
                Some(v) => yaml_list(self@) is Some && yaml_list(self@)->Some_0.len() == v@.len()
                    && forall|i: int|
                    0 <= i < v@.len() ==> (#[trigger] v@[i])@ == yaml_list(self@)->Some_0[i],
                None => yaml_list(self@) is None,
            },
    {
        let u = self.untagged();
        match u {
            Yaml::List(v) => Some(v),
            _ => None,
        }
    }
}

/// The JSON text of a mapping key.
fn key_json_text(k: &YamlKey) -> (r: String)
    ensures
        r@ == key_text(k@),
{
    match k {
        YamlKey::Str(s) => s.clone(),
        YamlKey::Other(t) => trim(t.as_str()),
    }
}

/// The JSON form of a YAML value.
pub fn yaml_to_json(y: &Yaml) -> (r: Json)
    ensures
        r@ == yaml_json(y@),
    decreases y,
{
    match y {
        Yaml::Null => Json::Null,
        Yaml::Bool(b) => Json::Bool(*b),
        Yaml::Int(i) => Json::Int(*i),
        Yaml::UInt(u) => Json::UInt(*u),
        Yaml::Float(t) => Json::Float(t.clone()),
        Yaml::Str(s) => Json::Str(s.clone()),
        Yaml::List(items) => {
            let ghost iv = y@->List_0;
            let mut out: Vec<Json> = Vec::new();
            let mut i: usize = 0;
            while i < items.len()
                invariant
                    *y === Yaml::List(*items),
                    iv == y@->List_0,
                    iv.len() == items@.len(),
                    i <= items@.len(),
                    out@.len() == i,
                    forall|j: int| 0 <= j < i ==> (#[trigger] out@[j])@ == yaml_json(iv[j]),
                decreases items@.len() - i,
            {
                proof {
                    assert(decreases_to!(*y => y->List_0));
                    assert(decreases_to!(y->List_0 => y->List_0@));
                    assert(decreases_to!(y->List_0@ => y->List_0@[i as int]));
                }
                assert(iv[i as int] == items@[i as int]@);
                out.push(yaml_to_json(&items[i]));
                i = i + 1;
            }
            let r = Json::Array(out);
            assert(r@->Array_0 =~= yaml_json(y@)->Array_0);
            assert(r@ == yaml_json(y@));
            r
        },
        Yaml::Mapping(entries) => {
            let ghost ev = y@->Mapping_0;
            let ghost pv = json_pairs(ev);
            let mut m = JsonMap::new();
            let mut i: usize = 0;
            assert(pv.take(0) =~= Seq::<(Seq<char>, JsonValue)>::empty());
            while i < entries.len()
                invariant
                    *y === Yaml::Mapping(*entries),
                    ev == y@->Mapping_0,
                    ev.len() == entries@.len(),
                    pv.len() == ev.len(),
                    forall|j: int|
                        0 <= j < ev.len() ==> #[trigger] pv[j] == (
                        key_text(ev[j].0),
                        yaml_json(ev[j].1),
                    ),
                    i <= entries@.len(),
                    m@ == object_from(pv.take(i as int)),
                decreases entries@.len() - i,
            {
                proof {
                    assert(decreases_to!(*y => y->Mapping_0));
                    assert(decreases_to!(y->Mapping_0 => y->Mapping_0@));
                    assert(decreases_to!(y->Mapping_0@ => y->Mapping_0@[i as int]));
                    assert(decreases_to!(y->Mapping_0@[i as int] => y->Mapping_0@[i as int].1));
                }
                assert(ev[i as int] == (entries@[i as int].0@, entries@[i as int].1@));
                let k = key_json_text(&entries[i].0);
                let v = yaml_to_json(&entries[i].1);
                m.insert(k, v);
                assert(pv.take(i + 1).drop_last() =~= pv.take(i as int));
                assert(pv.take(i + 1).last() == pv[i as int]);
                i = i + 1;
            }
            assert(pv.take(entries@.len() as int) =~= pv);
            Json::Object(m)
        },
        Yaml::Tagged(inner) => {
            proof {
                assert(decreases_to!(*y => y->Tagged_0));
            }
            yaml_to_json(inner)
        },
    }
}

} // verus!
