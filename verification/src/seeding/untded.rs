//! The UNTDED 2005 trade data-element directory (ECE/TRADE/362 =
//! ISO 7372:2005) as ISO 19135 items of the `untded` register: each element
//! with its representation decomposed, the D05B UN/EDIFACT join carried as
//! a manifest property, and the source lifecycle (active/retired) kept
//! beside the directory's own replacement notes. Fields with no clean
//! one-line mapping ride the manifest verbatim.

use vstd::prelude::*;

use crate::json::{
    encode, field, json_object, last_value, lemma_last_value_concat, lemma_object_from_get,
    object_from, pairs_view, spec_get, spec_insert, to_text, Json, JsonMap, JsonValue,
};
use crate::kit::{args_view, join_path, join_path_exec, Kit};
use crate::seeding::{failure, failure_message, parse_seed_args, seed_options, SeedArgs, SeedArgsView};
use crate::seeding::{
    end_view, finish_action, listed_ids, listed_identifiers, listing_count, listing_count_text,
    listing_items, listing_status, verify_line, verify_line_spec, SeedAction, SeedActionView,
};
use crate::seeding::mappings::{body_item_id, item_id_of};
use crate::tally::{missing, missing_spec};
use crate::tally::strings_view;
use crate::text::{
    concat2, concat3, decimal, parse_unsigned, parse_unsigned_bounded, push_decimal,
    push_signed_decimal, signed_decimal, str_eq, trim, trim_spec,
};
use crate::yaml::{yaml_field, yaml_json, yaml_list, yaml_str, yaml_to_json, Yaml, YamlValue};

verus! {

broadcast use crate::json::lemma_object_from_push;

pub const USAGE: &'static str = "usage: unidpp-kit seed-untded [--register R] [--untded-dir DIR] [--status active|retired|all] [--limit N] [--port N] [--bind ADDR] [--base-url URL] [--admin-token T] [--token-file PATH]";

pub const SUBMITTING_ORG: &'static str = "UNTDED 2005 (ECE/TRADE/362 = ISO 7372:2005) — untded-2005 SSOT import";

pub const EFFECTIVE_FROM: &'static str = "2005-01-01T00:00:00Z";

pub const KIT_VERSION: &'static str = "1.0.0";

pub const UNTDED_CITATION: &'static str = "UNTDED 2005, ECE/TRADE/362 (ISO 7372:2005), §4.2 Trade Data Elements Directory";

pub const EDIFACT_LINKS_REL: &'static str = "derived/edifact-links.json";

pub const EDIFACT_SOURCE_SHORT: &'static str = "UN/EDIFACT D.05B segments mirror — untded-2005 derived/edifact-links.json";

// ---------------------------------------------------------------------------
// Where the directory lives
// ---------------------------------------------------------------------------

/// The directory checkout: `$UNTDED_DIR` when it is set and not empty,
/// else `$HOME/src/untded/untded-2005`.
pub fn untded_dir(home: &str, configured: &str) -> (r: String)
    ensures
        r@ == if configured@.len() > 0 {
            configured@
        } else {
            home@ + "/src/untded/untded-2005"@
        },
{
    if !configured.is_empty() {
        configured.to_owned()
    } else {
        concat2(home, "/src/untded/untded-2005")
    }
}

/// The directory of element files: `<dir>/data/elements`.
pub fn elements_root(dir: &str) -> (r: String)
    ensures
        r@ == join_path(join_path(dir@, "data"@), "elements"@),
{
    let data = join_path_exec(dir, "data");
    join_path_exec(data.as_str(), "elements")
}

/// The derived UN/EDIFACT join: `<dir>/derived/edifact-links.json`.
pub fn edifact_links_path(dir: &str) -> (r: String)
    ensures
        r@ == join_path(dir@, EDIFACT_LINKS_REL@),
{
    join_path_exec(dir, EDIFACT_LINKS_REL)
}

/// The report of a checkout without element files.
pub fn no_elements_message(dir: &str) -> (r: String)
    ensures
        r@ == "no data/elements directory under "@ + dir@
            + " — pass --untded-dir (the untded-2005 SSOT checkout)"@,
{
    concat3(
        "no data/elements directory under ",
        dir,
        " — pass --untded-dir (the untded-2005 SSOT checkout)",
    )
}

/// The note printed when the derived join is absent.
pub fn edifact_note(path: &str) -> (r: String)
    ensures
        r@ == "  note: "@ + path@
            + " not found — seeding without un_edifact_ref (run `bin/join-edifact` in the SSOT to derive it)"@,
{
    concat3(
        "  note: ",
        path,
        " not found — seeding without un_edifact_ref (run `bin/join-edifact` in the SSOT to derive it)",
    )
}

// ---------------------------------------------------------------------------
// Loading the element files
// ---------------------------------------------------------------------------

/// A file name of the element directory: it ends in `.yaml`.
pub open spec fn is_yaml_name(n: Seq<char>) -> bool {
    n.len() >= 5 && n.skip(n.len() - 5) == ".yaml"@
}

/// The element files of a directory listing, in name order.
pub fn yaml_file_names(names: &Vec<String>) -> (r: Vec<String>)
    ensures
        strings_view(r@) == strings_view(names@).filter(|n: Seq<char>| is_yaml_name(n)).sort_by(
            crate::tally::key_order(),
        ),
{
    let ghost nv = strings_view(names@);
    let mut kept: Vec<String> = Vec::new();
    let mut i: usize = 0;
    while i < names.len()
        invariant
            i <= names@.len(),
            nv == strings_view(names@),
            strings_view(kept@) == nv.take(i as int).filter(|n: Seq<char>| is_yaml_name(n)),
        decreases names@.len() - i,
    {
        let cs = crate::text::chars_of(names[i].as_str());
        let n = cs.len();
        let keep = n >= 5 && cs[n - 5] == '.' && cs[n - 4] == 'y' && cs[n - 3] == 'a' && cs[n - 2]
            == 'm' && cs[n - 1] == 'l';
        proof {
            reveal_strlit(".yaml");
            let s = nv[i as int];
            assert(s == cs@);
            if n >= 5 {
                let tail = s.skip(s.len() - 5);
                assert(".yaml"@ =~= seq!['.', 'y', 'a', 'm', 'l']);
                if keep {
                    assert(tail =~= ".yaml"@);
                } else {
                    assert(tail[0] != '.' || tail[1] != 'y' || tail[2] != 'a' || tail[3] != 'm'
                        || tail[4] != 'l');
                    assert(tail != ".yaml"@);
                }
            }
            let x = nv.take(i + 1);
            assert(x.drop_last() =~= nv.take(i as int));
            assert(x.last() == s);
            reveal_with_fuel(Seq::filter, 1);
        }
        if keep {
            let ghost before = strings_view(kept@);
            kept.push(names[i].clone());
            assert(strings_view(kept@) =~= before.push(nv[i as int]));
        }
        i = i + 1;
    }
    assert(nv.take(names@.len() as int) =~= nv);
    crate::tally::sort_texts(&kept)
}

/// The category a file declares, trimmed (empty when it declares none).
pub open spec fn file_category_spec(doc: YamlValue) -> Seq<char> {
    trim_spec(
        match yaml_field(doc, "category"@) {
            Some(c) => match yaml_str(c) {
                Some(s) => s,
                None => Seq::empty(),
            },
            None => Seq::empty(),
        },
    )
}

/// The category a file declares.
pub fn file_category(doc: &Yaml) -> (r: String)
    ensures
        r@ == file_category_spec(doc@),
{
    proof {
        let e = Seq::<char>::empty();
        assert(crate::http::leading_ws(e) == 0);
        assert(e.skip(0) =~= e);
        assert(crate::text::trailing_ws(e) == 0);
        assert(trim_spec(e) =~= e);
    }
    match doc.get("category") {
        Some(c) => match c.as_str() {
            Some(s) => trim(s),
            None => String::new(),
        },
        None => String::new(),
    }
}

/// The element entries of a file (none when it lists none).
pub open spec fn file_items(doc: YamlValue) -> Seq<YamlValue> {
    match yaml_field(doc, "elements"@) {
        Some(e) => match yaml_list(e) {
            Some(items) => items,
            None => Seq::empty(),
        },
        None => Seq::empty(),
    }
}

/// An element in JSON form with its file's category beside it (as
/// `_category`, when the element is an object).
pub open spec fn with_category(j: JsonValue, category: Seq<char>) -> JsonValue {
    match j {
        JsonValue::Object(e) => JsonValue::Object(
            spec_insert(e, "_category"@, JsonValue::Str(category)),
        ),
        _ => j,
    }
}

/// The integer tag of an element (`get("tag").as_i64()`).
pub open spec fn tag_of(j: JsonValue) -> Option<int> {
    match field(j, "tag"@) {
        Some(JsonValue::Num(n)) => if i64::MIN <= n <= i64::MAX {
            Some(n)
        } else {
            None
        },
        _ => None,
    }
}

/// The elements of a file, each in JSON form with the file's category.
pub open spec fn file_elements(doc: YamlValue) -> Seq<JsonValue> {
    file_items(doc).map_values(|y: YamlValue| with_category(yaml_json(y), file_category_spec(doc)))
}

/// The integer tag of an element.
pub fn element_tag(el: &Json) -> (r: Option<i64>)
    ensures
        match r {
            Some(t) => tag_of(el@) == Some(t as int),
            None => tag_of(el@) is None,
        },
{
    match el.get("tag") {
        Some(t) => t.as_i64(),
        None => None,
    }
}

/// The elements loaded so far, each with its tag, and the category of each
/// (in load order).
pub struct Loaded {
    pub elements: Vec<(i64, Json)>,
    pub categories: Vec<String>,
}

/// Tagged elements by their views.
pub open spec fn tagged_view(s: Seq<(i64, Json)>) -> Seq<(int, JsonValue)> {
    s.map_values(|e: (i64, Json)| (e.0 as int, e.1@))
}

impl Loaded {
    /// Nothing loaded yet.
    pub fn new() -> (r: Loaded)
        ensures
            r.elements@.len() == 0,
            r.categories@.len() == 0,
    {
        Loaded { elements: Vec::new(), categories: Vec::new() }
    }

    /// Takes in one element file: every element of it, with the file's
    /// category and its tag. An element without an integer tag stops the
    /// loading.
    pub fn add_file(&mut self, name: &str, doc: &Yaml) -> (r: Result<(), String>)
        ensures
            (forall|k: int|
                0 <= k < file_elements(doc@).len() ==> tag_of(
                    #[trigger] file_elements(doc@)[k],
                ) is Some) <==> r is Ok,
            r matches Err(e) ==> e@ == "element without an integer tag in "@ + name@,
            r is Ok ==> {
                let added = file_elements(doc@);
                &&& tagged_view(final(self).elements@) == tagged_view(old(self).elements@)
                    + added.map_values(|j: JsonValue| (tag_of(j)->Some_0, j))
                &&& strings_view(final(self).categories@) == strings_view(old(self).categories@)
                    + Seq::new(added.len(), |k: int| file_category_spec(doc@))
            },
    {
        let category = file_category(doc);
        let ghost cat = category@;
        let ghost added = file_elements(doc@);
        let ghost start = tagged_view(self.elements@);
        let ghost start_cats = strings_view(self.categories@);
        let items: &Vec<Yaml> = match doc.get("elements") {
            Some(e) => match e.as_list() {
                Some(v) => v,
                None => {
                    assert(added.len() == 0);
                    assert(tagged_view(self.elements@) =~= start + added.map_values(
                        |j: JsonValue| (tag_of(j)->Some_0, j),
                    ));
                    assert(strings_view(self.categories@) =~= start_cats + Seq::new(
                        added.len(),
                        |k: int| file_category_spec(doc@),
                    ));
                    return Ok(());
                },
            },
            None => {
                assert(added.len() == 0);
                assert(tagged_view(self.elements@) =~= start + added.map_values(
                    |j: JsonValue| (tag_of(j)->Some_0, j),
                ));
                assert(strings_view(self.categories@) =~= start_cats + Seq::new(
                    added.len(),
                    |k: int| file_category_spec(doc@),
                ));
                return Ok(());
            },
        };
        let mut i: usize = 0;
        while i < items.len()
            invariant
                i <= items@.len(),
                cat == file_category_spec(doc@),
                category@ == cat,
                added == file_elements(doc@),
                added.len() == items@.len(),
                forall|k: int|
                    0 <= k < items@.len() ==> #[trigger] added[k] == with_category(
                        yaml_json(items@[k]@),
                        cat,
                    ),
                forall|k: int| 0 <= k < i ==> tag_of(#[trigger] added[k]) is Some,
                tagged_view(self.elements@) == start + added.take(i as int).map_values(
                    |j: JsonValue| (tag_of(j)->Some_0, j),
                ),
                strings_view(self.categories@) == start_cats + Seq::new(
                    i as nat,
                    |k: int| file_category_spec(doc@),
                ),
            decreases items@.len() - i,
        {
            let j = yaml_to_json(&items[i]);
            let ghost jv = j@;
            assert(jv == yaml_json(items@[i as int]@));
            let el = match j {
                Json::Object(mut m) => {
                    let ghost before_m = m@;
                    assert(jv == JsonValue::Object(before_m));
                    m.insert("_category".to_owned(), Json::Str(category.clone()));
                    assert(m@ == spec_insert(before_m, "_category"@, JsonValue::Str(cat)));
                    Json::Object(m)
                },
                other => other,
            };
            assert(el@ == with_category(jv, cat));
            assert(el@ == added[i as int]);
            let tag = match element_tag(&el) {
                Some(t) => t,
                None => {
                    return Err(concat2("element without an integer tag in ", name));
                },
            };
            let ghost before = tagged_view(self.elements@);
            let ghost before_cats = strings_view(self.categories@);
            self.elements.push((tag, el));
            self.categories.push(category.clone());
            proof {
                assert(tagged_view(self.elements@) =~= before.push((tag as int, added[i as int])));
                assert(added.take(i + 1) =~= added.take(i as int).push(added[i as int]));
                assert(added.take(i + 1).map_values(|j: JsonValue| (tag_of(j)->Some_0, j))
                    =~= added.take(i as int).map_values(|j: JsonValue| (tag_of(j)->Some_0, j)).push(
                    (tag as int, added[i as int]),
                ));
                assert(strings_view(self.categories@) =~= before_cats.push(cat));
                assert(Seq::new((i + 1) as nat, |k: int| file_category_spec(doc@)) =~= Seq::new(
                    i as nat,
                    |k: int| file_category_spec(doc@),
                ).push(cat));
            }
            i = i + 1;
        }
        assert(added.take(items@.len() as int) =~= added);
        Ok(())
    }
}

// ---------------------------------------------------------------------------
// Ordering by tag
// ---------------------------------------------------------------------------

/// Tagged elements in non-decreasing tag order.
pub open spec fn tag_ordered(s: Seq<(int, JsonValue)>) -> bool {
    forall|i: int, j: int| 0 <= i < j < s.len() ==> #[trigger] s[i].0 <= #[trigger] s[j].0
}

/// The elements carrying tag `t`.
pub open spec fn with_tag(t: int) -> spec_fn((int, JsonValue)) -> bool {
    |e: (int, JsonValue)| e.0 == t
}

/// `r` is `s` stably sorted by tag: in tag order, the elements of each tag
/// in their order in `s`.
pub open spec fn stable_by_tag(r: Seq<(int, JsonValue)>, s: Seq<(int, JsonValue)>) -> bool {
    &&& tag_ordered(r)
    &&& forall|t: int| #[trigger] r.filter(with_tag(t)) == s.filter(with_tag(t))
}

proof fn lemma_insert_filter(r: Seq<(int, JsonValue)>, p: int, x: (int, JsonValue), t: int)
    requires
        0 <= p <= r.len(),
        forall|k: int| 0 <= k < p ==> (#[trigger] r[k]).0 <= x.0,
        forall|k: int| p <= k < r.len() ==> (#[trigger] r[k]).0 > x.0,
    ensures
        r.insert(p, x).filter(with_tag(t)) == if x.0 == t {
            r.filter(with_tag(t)).push(x)
        } else {
            r.filter(with_tag(t))
        },
{
    let f = with_tag(t);
    let a = r.take(p);
    let b = r.skip(p);
    assert(r =~= a + b);
    assert(r.insert(p, x) =~= a.push(x) + b);
    Seq::filter_distributes_over_add(a, b, f);
    Seq::filter_distributes_over_add(a.push(x), b, f);
    a.lemma_filter_push(x, f);
    if x.0 == t {
        assert(b.all(|e: (int, JsonValue)| !f(e))) by {
            assert forall|k: int| 0 <= k < b.len() implies !f(#[trigger] b[k]) by {
                assert(b[k] == r[p + k]);
            }
        }
        b.lemma_all_neg_filter_empty(f);
        assert(b.filter(f) =~= Seq::<(int, JsonValue)>::empty());
        assert(a.filter(f).push(x) + b.filter(f) =~= (a.filter(f) + b.filter(f)).push(x));
    }
}

/// The stable order by tag is unique: two stable sorts of the same
/// elements are the same sequence.
pub proof fn lemma_stable_unique(
    r1: Seq<(int, JsonValue)>,
    r2: Seq<(int, JsonValue)>,
    s: Seq<(int, JsonValue)>,
)
    requires
        stable_by_tag(r1, s),
        stable_by_tag(r2, s),
    ensures
        r1 == r2,
{
    lemma_same_tag_filters_equal(r1, r2);
}

proof fn lemma_same_tag_filters_equal(r1: Seq<(int, JsonValue)>, r2: Seq<(int, JsonValue)>)
    requires
        tag_ordered(r1),
        tag_ordered(r2),
        forall|t: int| #[trigger] r1.filter(with_tag(t)) == r2.filter(with_tag(t)),
    ensures
        r1 == r2,
    decreases r1.len() + r2.len(),
{
    if r1.len() == 0 && r2.len() == 0 {
        assert(r1 =~= r2);
    } else if r1.len() == 0 || r2.len() == 0 {
        let (a, b) = if r1.len() > 0 {
            (r1, r2)
        } else {
            (r2, r1)
        };
        let f = with_tag(a[0].0);
        a.filter_lemma(f);
        assert(a.filter(f).contains(a[0]));
        assert(b.filter(f).len() > 0);
        b.filter_lemma(f);
        assert(b.len() >= b.filter(f).len());
    } else {
        let t1 = r1[0].0;
        let t2 = r2[0].0;
        r1.filter_lemma(with_tag(t1));
        r2.filter_lemma(with_tag(t1));
        r1.filter_lemma(with_tag(t2));
        r2.filter_lemma(with_tag(t2));
        assert(r1.filter(with_tag(t1)).contains(r1[0]));
        assert(r2.filter(with_tag(t2)).contains(r2[0]));
        // the smallest tags agree
        assert(r2.filter(with_tag(t1)).len() > 0);
        let x = r2.filter(with_tag(t1))[0];
        assert(r2.filter(with_tag(t1)).contains(x));
        r2.lemma_filter_contains_rev(with_tag(t1), x);
        let j = choose|j: int| 0 <= j < r2.len() && r2[j] == x;
        assert(t2 <= t1) by {
            if j > 0 {
                assert(r2[0].0 <= r2[j].0);
            }
        }
        assert(r1.filter(with_tag(t2)).len() > 0);
        let y = r1.filter(with_tag(t2))[0];
        assert(r1.filter(with_tag(t2)).contains(y));
        r1.lemma_filter_contains_rev(with_tag(t2), y);
        let k = choose|k: int| 0 <= k < r1.len() && r1[k] == y;
        assert(t1 <= t2) by {
            if k > 0 {
                assert(r1[0].0 <= r1[k].0);
            }
        }
        let t = t1;
        let a1 = r1.drop_first();
        let b1 = r2.drop_first();
        assert(r1 =~= seq![r1[0]] + a1);
        assert(r2 =~= seq![r2[0]] + b1);
        a1.lemma_filter_prepend(r1[0], with_tag(t));
        b1.lemma_filter_prepend(r2[0], with_tag(t));
        assert(r1.filter(with_tag(t))[0] == r1[0]);
        assert(r2.filter(with_tag(t))[0] == r2[0]);
        assert(r1[0] == r2[0]);
        assert forall|u: int| #[trigger] a1.filter(with_tag(u)) == b1.filter(with_tag(u)) by {
            a1.lemma_filter_prepend(r1[0], with_tag(u));
            b1.lemma_filter_prepend(r2[0], with_tag(u));
            assert(r1.filter(with_tag(u)) == r2.filter(with_tag(u)));
            if r1[0].0 == u {
                assert(a1.filter(with_tag(u)) =~= r1.filter(with_tag(u)).drop_first());
                assert(b1.filter(with_tag(u)) =~= r2.filter(with_tag(u)).drop_first());
            }
        }
        assert(tag_ordered(a1)) by {
            assert forall|i: int, j: int| 0 <= i < j < a1.len() implies #[trigger] a1[i].0 <= #[trigger] a1[j].0 by {
                assert(r1[i + 1].0 <= r1[j + 1].0);
            }
        }
        assert(tag_ordered(b1)) by {
            assert forall|i: int, j: int| 0 <= i < j < b1.len() implies #[trigger] b1[i].0 <= #[trigger] b1[j].0 by {
                assert(r2[i + 1].0 <= r2[j + 1].0);
            }
        }
        lemma_same_tag_filters_equal(a1, b1);
    }
}

/// The elements stably sorted by tag.
pub fn sort_by_tag(s: &Vec<(i64, Json)>) -> (r: Vec<(i64, Json)>)
    ensures
        stable_by_tag(tagged_view(r@), tagged_view(s@)),
        r@.len() == s@.len(),
{
    let ghost sv = tagged_view(s@);
    let mut r: Vec<(i64, Json)> = Vec::new();
    let mut i: usize = 0;
    assert(sv.take(0) =~= Seq::<(int, JsonValue)>::empty());
    assert(tagged_view(r@) =~= Seq::<(int, JsonValue)>::empty());
    while i < s.len()
        invariant
            i <= s@.len(),
            sv == tagged_view(s@),
            r@.len() == i,
            stable_by_tag(tagged_view(r@), sv.take(i as int)),
        decreases s@.len() - i,
    {
        let tag = s[i].0;
        let ghost before = tagged_view(r@);
        let ghost x = sv[i as int];
        let mut p: usize = 0;
        while p < r.len() && r[p].0 <= tag
            invariant
                p <= r@.len(),
                before == tagged_view(r@),
                x.0 == tag,
                forall|k: int| 0 <= k < p ==> (#[trigger] before[k]).0 <= tag,
            decreases r@.len() - p,
        {
            p = p + 1;
        }
        proof {
            assert forall|k: int| p <= k < before.len() implies (#[trigger] before[k]).0 > tag by {
                assert(before[p as int].0 > tag);
                if k > p {
                    assert(before[p as int].0 <= before[k].0);
                }
            }
        }
        let el = s[i].1.copy();
        r.insert(p, (tag, el));
        proof {
            let after = tagged_view(r@);
            assert(after =~= before.insert(p as int, x));
            assert forall|a: int, b: int| 0 <= a < b < after.len() implies #[trigger] after[a].0
                <= #[trigger] after[b].0 by {
                if b < p {
                    assert(before[a].0 <= before[b].0);
                } else if b == p {
                } else if a == p {
                } else if a < p {
                } else {
                    assert(before[a - 1].0 <= before[b - 1].0);
                }
            }
            assert(sv.take(i + 1) =~= sv.take(i as int).push(x));
            assert forall|t: int| #[trigger] after.filter(with_tag(t)) == sv.take(i + 1).filter(
                with_tag(t),
            ) by {
                lemma_insert_filter(before, p as int, x, t);
                sv.take(i as int).lemma_filter_push(x, with_tag(t));
            }
        }
        i = i + 1;
    }
    assert(sv.take(s@.len() as int) =~= sv);
    r
}

impl Loaded {
    /// The loaded elements stably sorted by tag, and the count of elements
    /// of each category, categories in key order.
    pub fn finish(&self) -> (r: (Vec<(i64, Json)>, Vec<(String, usize)>))
        ensures
            stable_by_tag(tagged_view(r.0@), tagged_view(self.elements@)),
            r.0@.len() == self.elements@.len(),
            crate::tally::is_tally(
                crate::tally::tally_view(r.1@),
                strings_view(self.categories@),
            ),
    {
        (sort_by_tag(&self.elements), crate::tally::tally(&self.categories))
    }
}

// ---------------------------------------------------------------------------
// Choosing, checking and counting
// ---------------------------------------------------------------------------

/// An element whose `status` is the string `status`.
pub open spec fn has_status(status: Seq<char>) -> spec_fn((int, JsonValue)) -> bool {
    |e: (int, JsonValue)| field(e.1, "status"@) == Some(JsonValue::Str(status))
}

/// The elements a run seeds: those of the chosen status (all of them for
/// `all`), at most `limit` of them.
pub open spec fn selected(s: Seq<(int, JsonValue)>, status: Seq<char>, limit: Option<usize>) -> Seq<
    (int, JsonValue),
> {
    let kept = if status == "all"@ {
        s
    } else {
        s.filter(has_status(status))
    };
    match limit {
        Some(n) => if n < kept.len() {
            kept.take(n as int)
        } else {
            kept
        },
        None => kept,
    }
}

fn status_is(el: &Json, status: &str) -> (r: bool)
    ensures
        r == (field(el@, "status"@) == Some(JsonValue::Str(status@))),
{
    match el.get("status") {
        Some(v) => match v.as_str() {
            Some(t) => str_eq(t, status),
            None => false,
        },
        None => false,
    }
}

/// The elements of the chosen status, at most `limit` of them.
pub fn select_elements(els: &Vec<(i64, Json)>, status: &str, limit: Option<usize>) -> (r: Vec<
    (i64, Json),
>)
    ensures
        tagged_view(r@) == selected(tagged_view(els@), status@, limit),
{
    let ghost sv = tagged_view(els@);
    let all = str_eq(status, "all");
    let mut kept: Vec<(i64, Json)> = Vec::new();
    let mut i: usize = 0;
    while i < els.len()
        invariant
            i <= els@.len(),
            sv == tagged_view(els@),
            all == (status@ == "all"@),
            tagged_view(kept@) == if all {
                sv.take(i as int)
            } else {
                sv.take(i as int).filter(has_status(status@))
            },
        decreases els@.len() - i,
    {
        let ghost before = tagged_view(kept@);
        let keep = all || status_is(&els[i].1, status);
        proof {
            sv.take(i as int).lemma_filter_push(sv[i as int], has_status(status@));
            assert(sv.take(i + 1) =~= sv.take(i as int).push(sv[i as int]));
        }
        if keep {
            let el = els[i].1.copy();
            kept.push((els[i].0, el));
            assert(tagged_view(kept@) =~= before.push(sv[i as int]));
        }
        i = i + 1;
    }
    assert(sv.take(els@.len() as int) =~= sv);
    match limit {
        Some(n) => if n < kept.len() {
            let ghost whole = tagged_view(kept@);
            kept.truncate(n);
            assert(tagged_view(kept@) =~= whole.take(n as int));
            kept
        } else {
            kept
        },
        None => kept,
    }
}

/// Two elements carry the same tag.
pub open spec fn has_duplicate_tags(s: Seq<(int, JsonValue)>) -> bool {
    exists|i: int, j: int| 0 <= i < j < s.len() && s[i].0 == s[j].0
}

/// Whether two elements carry the same tag.
pub fn duplicate_tags(els: &Vec<(i64, Json)>) -> (r: bool)
    ensures
        r == has_duplicate_tags(tagged_view(els@)),
{
    let ghost sv = tagged_view(els@);
    let mut i: usize = 0;
    while i < els.len()
        invariant
            i <= els@.len(),
            sv == tagged_view(els@),
            forall|a: int, b: int| 0 <= a < b < els@.len() && a < i ==> sv[a].0 != sv[b].0,
        decreases els@.len() - i,
    {
        let mut j: usize = i + 1;
        while j < els.len()
            invariant
                i < els@.len(),
                i + 1 <= j <= els@.len(),
                sv == tagged_view(els@),
                forall|a: int, b: int| 0 <= a < b < els@.len() && a < i ==> sv[a].0 != sv[b].0,
                forall|b: int| i < b < j ==> sv[i as int].0 != sv[b].0,
            decreases els@.len() - j,
        {
            if els[i].0 == els[j].0 {
                assert(sv[i as int].0 == sv[j as int].0);
                return true;
            }
            j = j + 1;
        }
        i = i + 1;
    }
    false
}

/// How many elements have the status `status`.
pub fn count_status(els: &Vec<(i64, Json)>, status: &str) -> (r: usize)
    ensures
        r == tagged_view(els@).filter(has_status(status@)).len(),
{
    let ghost sv = tagged_view(els@);
    let mut n: usize = 0;
    let mut i: usize = 0;
    while i < els.len()
        invariant
            i <= els@.len(),
            sv == tagged_view(els@),
            n == sv.take(i as int).filter(has_status(status@)).len(),
            n <= i,
        decreases els@.len() - i,
    {
        proof {
            sv.take(i as int).lemma_filter_push(sv[i as int], has_status(status@));
            assert(sv.take(i + 1) =~= sv.take(i as int).push(sv[i as int]));
        }
        if status_is(&els[i].1, status) {
            n = n + 1;
        }
        i = i + 1;
    }
    assert(sv.take(els@.len() as int) =~= sv);
    n
}

// ---------------------------------------------------------------------------
// The UN/EDIFACT join
// ---------------------------------------------------------------------------

/// The `links` of the derived join (none when absent).
pub open spec fn links_of(doc: JsonValue) -> Seq<JsonValue> {
    match field(doc, "links"@) {
        Some(JsonValue::Array(links)) => links,
        _ => Seq::empty(),
    }
}

/// The tag a link names, as text: a string as it is, any other value its
/// compact JSON, nothing when absent.
pub open spec fn link_tag(link: JsonValue) -> Seq<char> {
    match field(link, "tag"@) {
        Some(JsonValue::Str(s)) => s,
        Some(other) => encode(other),
        None => Seq::empty(),
    }
}

/// The links of the derived join by tag text (a later link of a tag
/// replacing an earlier one).
pub open spec fn edifact_entries(doc: JsonValue) -> Seq<(Seq<char>, JsonValue)> {
    object_from(links_of(doc).map_values(|l: JsonValue| (link_tag(l), l)))
}

/// The links of the derived join, by tag text.
pub fn edifact_index(doc: &Json) -> (r: JsonMap)
    ensures
        r@ == edifact_entries(doc@),
{
    let mut m = JsonMap::new();
    let links = match doc.get("links") {
        Some(a) => match a.as_array() {
            Some(v) => v,
            None => {
                assert(links_of(doc@).map_values(|l: JsonValue| (link_tag(l), l)) =~= Seq::<
                    (Seq<char>, JsonValue),
                >::empty());
                return m;
            },
        },
        None => {
            assert(links_of(doc@).map_values(|l: JsonValue| (link_tag(l), l)) =~= Seq::<
                (Seq<char>, JsonValue),
            >::empty());
            return m;
        },
    };
    let ghost lv = links_of(doc@);
    let ghost pv = lv.map_values(|l: JsonValue| (link_tag(l), l));
    let mut i: usize = 0;
    assert(pv.take(0) =~= Seq::<(Seq<char>, JsonValue)>::empty());
    while i < links.len()
        invariant
            i <= links@.len(),
            lv.len() == links@.len(),
            pv == lv.map_values(|l: JsonValue| (link_tag(l), l)),
            forall|j: int| 0 <= j < links@.len() ==> (#[trigger] links@[j])@ == lv[j],
            m@ == object_from(pv.take(i as int)),
        decreases links@.len() - i,
    {
        let link = &links[i];
        let tag = match link.get("tag") {
            Some(t) => match t {
                Json::Str(s) => s.clone(),
                other => to_text(other),
            },
            None => String::new(),
        };
        assert(tag@ == link_tag(lv[i as int]));
        m.insert(tag, link.copy());
        assert(pv.take(i + 1) =~= pv.take(i as int).push(pv[i as int]));
        i = i + 1;
    }
    assert(pv.take(links@.len() as int) =~= pv);
    m
}

/// Whether the join holds a link for a tag.
pub open spec fn is_linked(tag: int, edifact: Seq<(Seq<char>, JsonValue)>) -> bool {
    spec_get(edifact, signed_decimal(tag)) is Some
}

/// The decimal text of a tag.
pub fn tag_text(tag: i64) -> (r: String)
    ensures
        r@ == signed_decimal(tag as int),
{
    let mut r = String::new();
    push_signed_decimal(&mut r, tag);
    r
}

/// How many elements the join links.
pub fn count_linked(els: &Vec<(i64, Json)>, edifact: &JsonMap) -> (r: usize)
    ensures
        r == tagged_view(els@).filter(|e: (int, JsonValue)| is_linked(e.0, edifact@)).len(),
{
    let ghost sv = tagged_view(els@);
    let ghost f = |e: (int, JsonValue)| is_linked(e.0, edifact@);
    let mut n: usize = 0;
    let mut i: usize = 0;
    while i < els.len()
        invariant
            i <= els@.len(),
            sv == tagged_view(els@),
            f == (|e: (int, JsonValue)| is_linked(e.0, edifact@)),
            n == sv.take(i as int).filter(f).len(),
            n <= i,
        decreases els@.len() - i,
    {
        proof {
            sv.take(i as int).lemma_filter_push(sv[i as int], f);
            assert(sv.take(i + 1) =~= sv.take(i as int).push(sv[i as int]));
        }
        let t = tag_text(els[i].0);
        if edifact.get(t.as_str()).is_some() {
            n = n + 1;
        }
        i = i + 1;
    }
    assert(sv.take(els@.len() as int) =~= sv);
    n
}

// ---------------------------------------------------------------------------
// The registry item of an element
// ---------------------------------------------------------------------------

/// A manifest entry for a present, non-null value (nothing otherwise).
pub open spec fn opt_pair(key: Seq<char>, v: Option<JsonValue>) -> Seq<(Seq<char>, JsonValue)> {
    match v {
        Some(x) => if x is Null {
            Seq::empty()
        } else {
            seq![(key, x)]
        },
        None => Seq::empty(),
    }
}

/// The view of an optional value.
pub open spec fn opt_view(v: Option<&Json>) -> Option<JsonValue> {
    match v {
        Some(j) => Some(j@),
        None => None,
    }
}

/// The field of a value that may be absent.
pub open spec fn field_of(v: Option<JsonValue>, k: Seq<char>) -> Option<JsonValue> {
    match v {
        Some(x) => field(x, k),
        None => None,
    }
}

/// The tag an element is registered under (`0` when it has none).
pub open spec fn item_tag(el: JsonValue) -> int {
    match tag_of(el) {
        Some(t) => t,
        None => 0,
    }
}

/// The text of a string field.
pub open spec fn str_field(el: JsonValue, k: Seq<char>) -> Option<Seq<char>> {
    match field(el, k) {
        Some(JsonValue::Str(s)) => Some(s),
        _ => None,
    }
}

/// The element's name: `name`, else `old_name`, else nothing.
pub open spec fn element_name(el: JsonValue) -> Seq<char> {
    match str_field(el, "name"@) {
        Some(n) => n,
        None => match str_field(el, "old_name"@) {
            Some(n) => n,
            None => Seq::empty(),
        },
    }
}

/// The representation fields, when the element has a non-null
/// representation.
pub open spec fn representation_pairs(el: JsonValue) -> Seq<(Seq<char>, JsonValue)> {
    let rep = field(el, "representation"@);
    match rep {
        Some(r) => if r is Null {
            Seq::empty()
        } else {
            opt_pair("representation"@, field(r, "raw"@)) + opt_pair("charset"@, field(r, "charset"@))
                + opt_pair("min_length"@, field(r, "min_length"@)) + opt_pair(
                "max_length"@,
                field(r, "max_length"@),
            )
        },
        None => Seq::empty(),
    }
}

/// The UN/EDIFACT join of a tag: the EDIFACT name, and whether it is
/// aligned (when the link says anything about it).
pub open spec fn edifact_pairs(tag: int, edifact: Seq<(Seq<char>, JsonValue)>) -> Seq<
    (Seq<char>, JsonValue),
> {
    match spec_get(edifact, signed_decimal(tag)) {
        Some(link) => match field_of(field(link, "edifact"@), "name"@) {
            Some(JsonValue::Str(name)) => seq![("un_edifact_ref"@, JsonValue::Str(name))] + match field(
                link,
                "aligned"@,
            ) {
                Some(a) => seq![
                    ("aligned_with_edifact"@, JsonValue::Bool(!(a is Null) && a != JsonValue::Bool(false))),
                ],
                None => Seq::empty(),
            },
            _ => Seq::empty(),
        },
        None => Seq::empty(),
    }
}

/// The page the directory gives for an element (`"?"` when none).
pub open spec fn element_page(el: JsonValue) -> JsonValue {
    match field_of(field(el, "provenance"@), "page"@) {
        Some(p) => p,
        None => JsonValue::Str("?"@),
    }
}

/// The citation of an element in the directory.
pub open spec fn untded_ref(el: JsonValue) -> Seq<char> {
    UNTDED_CITATION@ + ", element "@ + signed_decimal(item_tag(el)) + " (p. "@ + encode(
        element_page(el),
    ) + "); https://www.untded.org/elements/"@ + signed_decimal(item_tag(el))
}

/// The source lifecycle state (`"active"` when the element states none).
pub open spec fn untded_status(el: JsonValue) -> JsonValue {
    match field(el, "status"@) {
        Some(s) => s,
        None => JsonValue::Str("active"@),
    }
}

/// The source page, when the element's provenance has one (even null).
pub open spec fn source_page_pairs(el: JsonValue) -> Seq<(Seq<char>, JsonValue)> {
    match field_of(field(el, "provenance"@), "page"@) {
        Some(p) => seq![("source_page"@, p)],
        None => Seq::empty(),
    }
}

/// The manifest entries of an element, in the order they are set.
pub open spec fn manifest_pairs(el: JsonValue, edifact: Seq<(Seq<char>, JsonValue)>) -> Seq<
    (Seq<char>, JsonValue),
> {
    seq![("version"@, JsonValue::Str(KIT_VERSION@)), ("tag"@, JsonValue::Num(item_tag(el)))]
        + opt_pair("name"@, field(el, "name"@)) + representation_pairs(el) + edifact_pairs(
        item_tag(el),
        edifact,
    ) + seq![
        ("untded_ref"@, JsonValue::Str(untded_ref(el))),
        ("untded_status"@, untded_status(el)),
    ] + opt_pair("change_tag"@, field(el, "change_tag"@)) + opt_pair(
        "old_name"@,
        field(el, "old_name"@),
    ) + opt_pair("business_term"@, field(el, "business_term"@)) + opt_pair(
        "notes"@,
        field(el, "notes"@),
    ) + opt_pair("bridges"@, field(el, "bridges"@)) + opt_pair("category"@, field(el, "_category"@))
        + source_page_pairs(el)
}

/// The definition of an element: for a retired one, its name, the
/// retirement and the directory's replacement note; else its description
/// (its name when the description is missing or empty).
pub open spec fn element_definition(el: JsonValue) -> Seq<char> {
    if field(el, "status"@) == Some(JsonValue::Str("retired"@)) {
        element_name(el) + " — retired in UNTDED 2005. "@ + match str_field(el, "notes"@) {
            Some(n) => n,
            None => "No replacement stated in the directory."@,
        }
    } else {
        match str_field(el, "description"@) {
            Some(d) => if d.len() > 0 {
                d
            } else {
                element_name(el)
            },
            None => element_name(el),
        }
    }
}

/// The title of an element: its name, or `UNTDED data element <tag>`.
pub open spec fn element_title(el: JsonValue) -> Seq<char> {
    if element_name(el).len() == 0 {
        "UNTDED data element "@ + signed_decimal(item_tag(el))
    } else {
        element_name(el)
    }
}

/// The item id of an element: `urn:untded:de:<tag>`.
pub open spec fn element_item_id(tag: int) -> Seq<char> {
    "urn:untded:de:"@ + signed_decimal(tag)
}

/// The `POST /data-elements` body of an element.
pub open spec fn item_pairs(
    el: JsonValue,
    register: Seq<char>,
    edifact: Seq<(Seq<char>, JsonValue)>,
) -> Seq<(Seq<char>, JsonValue)> {
    seq![
        ("register_id"@, JsonValue::Str(register)),
        ("item_id"@, JsonValue::Str(element_item_id(item_tag(el)))),
        ("class"@, JsonValue::Str("data-element"@)),
        ("title"@, JsonValue::Str(element_title(el))),
        ("definition"@, JsonValue::Str(element_definition(el))),
        ("version"@, JsonValue::Str(KIT_VERSION@)),
        ("effective_from"@, JsonValue::Str(EFFECTIVE_FROM@)),
        ("submitting_organization"@, JsonValue::Str(SUBMITTING_ORG@)),
        ("manifest"@, JsonValue::Object(object_from(manifest_pairs(el, edifact)))),
    ]
}

/// An element with a name is registered under that name as its title, and
/// its definition is never empty: a retired element's definition starts with its
/// name; an active one's is its description when that is a non-empty
/// text, and otherwise its name (`name`, else `old_name`).
pub proof fn lemma_item_definition(
    el: JsonValue,
    register: Seq<char>,
    edifact: Seq<(Seq<char>, JsonValue)>,
)
    ensures
        ({
            let body = JsonValue::Object(object_from(item_pairs(el, register, edifact)));
            let retired = field(el, "status"@) == Some(JsonValue::Str("retired"@));
            let name = match field(el, "name"@) {
                Some(JsonValue::Str(n)) => n,
                _ => match field(el, "old_name"@) {
                    Some(JsonValue::Str(n)) => n,
                    _ => Seq::empty(),
                },
            };
            &&& name.len() > 0 ==> field(body, "title"@) == Some(JsonValue::Str(name))
            &&& field(body, "definition"@) matches Some(JsonValue::Str(d)) && {
                &&& name.len() > 0 ==> d.len() > 0
                &&& retired ==> d.take(name.len() as int) == name
                &&& !retired ==> match field(el, "description"@) {
                    Some(JsonValue::Str(x)) => if x.len() > 0 {
                        d == x
                    } else {
                        d == name
                    },
                    _ => d == name,
                }
            }
        }),
{
    reveal_strlit("register_id");
    reveal_strlit("item_id");
    reveal_strlit("class");
    reveal_strlit("title");
    reveal_strlit("definition");
    reveal_strlit("version");
    reveal_strlit("effective_from");
    reveal_strlit("submitting_organization");
    reveal_strlit("manifest");
    assert("register_id"@.len() != "item_id"@.len());
    assert("register_id"@.len() != "class"@.len());
    assert("register_id"@.len() != "title"@.len());
    assert("register_id"@.len() != "definition"@.len());
    assert("register_id"@.len() != "version"@.len());
    assert("register_id"@.len() != "effective_from"@.len());
    assert("register_id"@.len() != "submitting_organization"@.len());
    assert("register_id"@.len() != "manifest"@.len());
    assert("item_id"@.len() != "class"@.len());
    assert("item_id"@.len() != "title"@.len());
    assert("item_id"@.len() != "definition"@.len());
    assert("item_id"@[0] != "version"@[0]);
    assert("item_id"@.len() != "effective_from"@.len());
    assert("item_id"@.len() != "submitting_organization"@.len());
    assert("item_id"@.len() != "manifest"@.len());
    assert("class"@[0] != "title"@[0]);
    assert("class"@.len() != "definition"@.len());
    assert("class"@.len() != "version"@.len());
    assert("class"@.len() != "effective_from"@.len());
    assert("class"@.len() != "submitting_organization"@.len());
    assert("class"@.len() != "manifest"@.len());
    assert("title"@.len() != "definition"@.len());
    assert("title"@.len() != "version"@.len());
    assert("title"@.len() != "effective_from"@.len());
    assert("title"@.len() != "submitting_organization"@.len());
    assert("title"@.len() != "manifest"@.len());
    assert("definition"@.len() != "version"@.len());
    assert("definition"@.len() != "effective_from"@.len());
    assert("definition"@.len() != "submitting_organization"@.len());
    assert("definition"@.len() != "manifest"@.len());
    assert("version"@.len() != "effective_from"@.len());
    assert("version"@.len() != "submitting_organization"@.len());
    assert("version"@.len() != "manifest"@.len());
    assert("effective_from"@.len() != "submitting_organization"@.len());
    assert("effective_from"@.len() != "manifest"@.len());
    assert("submitting_organization"@.len() != "manifest"@.len());
    reveal_with_fuel(last_value, 10);
    let pairs = item_pairs(el, register, edifact);
    lemma_object_from_get(pairs, "definition"@);
    lemma_object_from_get(pairs, "title"@);
    let d = element_definition(el);
    assert(last_value(pairs, "definition"@) == Some(JsonValue::Str(d)));
    let name = element_name(el);
    if field(el, "status"@) == Some(JsonValue::Str("retired"@)) {
        let rest = " — retired in UNTDED 2005. "@ + match str_field(el, "notes"@) {
            Some(n) => n,
            None => "No replacement stated in the directory."@,
        };
        reveal_strlit(" — retired in UNTDED 2005. ");
        assert(d =~= name + rest);
        assert(d.take(name.len() as int) =~= name);
        assert(d.len() > 0);
    }
}

/// A field the manifest carries verbatim: the change tag, the old and
/// business names, the notes and the legacy bridges.
pub open spec fn verbatim_field(k: Seq<char>) -> bool {
    k == "change_tag"@ || k == "old_name"@ || k == "business_term"@ || k == "notes"@ || k
        == "bridges"@
}

proof fn lemma_opt_pair_last(key: Seq<char>, v: Option<JsonValue>, k: Seq<char>)
    ensures
        last_value(opt_pair(key, v), k) == if key == k {
            match v {
                Some(x) => if x is Null {
                    None
                } else {
                    Some(x)
                },
                None => None,
            }
        } else {
            None
        },
{
    reveal_with_fuel(last_value, 2);
    let p = opt_pair(key, v);
    if p.len() > 0 {
        assert(p.drop_last() =~= Seq::<(Seq<char>, JsonValue)>::empty());
        assert(p.last() == (key, v->Some_0));
    }
}

/// The fields without a one-line mapping ride the manifest verbatim: each
/// present, non-null one is in the manifest unchanged, and none is made up.
pub proof fn lemma_verbatim_fields(el: JsonValue, edifact: Seq<(Seq<char>, JsonValue)>, k: Seq<char>)
    requires
        verbatim_field(k),
    ensures
        spec_get(object_from(manifest_pairs(el, edifact)), k) == match field(el, k) {
            Some(v) => if v is Null {
                None
            } else {
                Some(v)
            },
            None => None::<JsonValue>,
        },
{
    lemma_verbatim_not_fixed(k);
    lemma_verbatim_distinct();
    lemma_object_from_get(manifest_pairs(el, edifact), k);
    let p0 = seq![("version"@, JsonValue::Str(KIT_VERSION@)), ("tag"@, JsonValue::Num(item_tag(el)))];
    let p4 = p0 + opt_pair("name"@, field(el, "name"@)) + representation_pairs(el) + edifact_pairs(
        item_tag(el),
        edifact,
    ) + seq![
        ("untded_ref"@, JsonValue::Str(untded_ref(el))),
        ("untded_status"@, untded_status(el)),
    ];
    let q1 = opt_pair("change_tag"@, field(el, "change_tag"@));
    let q2 = opt_pair("old_name"@, field(el, "old_name"@));
    let q3 = opt_pair("business_term"@, field(el, "business_term"@));
    let q4 = opt_pair("notes"@, field(el, "notes"@));
    let q5 = opt_pair("bridges"@, field(el, "bridges"@));
    let q6 = opt_pair("category"@, field(el, "_category"@));
    let q7 = source_page_pairs(el);
    assert(manifest_pairs(el, edifact) == p4 + q1 + q2 + q3 + q4 + q5 + q6 + q7);
    lemma_opt_pair_last("change_tag"@, field(el, "change_tag"@), k);
    lemma_opt_pair_last("old_name"@, field(el, "old_name"@), k);
    lemma_opt_pair_last("business_term"@, field(el, "business_term"@), k);
    lemma_opt_pair_last("notes"@, field(el, "notes"@), k);
    lemma_opt_pair_last("bridges"@, field(el, "bridges"@), k);
    lemma_opt_pair_last("category"@, field(el, "_category"@), k);
    assert(last_value(q7, k) is None) by {
        reveal_with_fuel(last_value, 2);
        if q7.len() > 0 {
            assert(q7.drop_last() =~= Seq::<(Seq<char>, JsonValue)>::empty());
            assert(q7.last().0 == "source_page"@);
        }
    }
    lemma_fixed_keys_absent(el, edifact, k);
    lemma_last_value_concat(p4 + q1 + q2 + q3 + q4 + q5 + q6, q7, k);
    lemma_last_value_concat(p4 + q1 + q2 + q3 + q4 + q5, q6, k);
    lemma_last_value_concat(p4 + q1 + q2 + q3 + q4, q5, k);
    lemma_last_value_concat(p4 + q1 + q2 + q3, q4, k);
    lemma_last_value_concat(p4 + q1 + q2, q3, k);
    lemma_last_value_concat(p4 + q1, q2, k);
    lemma_last_value_concat(p4, q1, k);
}

/// The verbatim fields are five different fields.
proof fn lemma_verbatim_distinct()
    ensures
        "change_tag"@ != "old_name"@,
        "change_tag"@ != "business_term"@,
        "change_tag"@ != "notes"@,
        "change_tag"@ != "bridges"@,
        "old_name"@ != "business_term"@,
        "old_name"@ != "notes"@,
        "old_name"@ != "bridges"@,
        "business_term"@ != "notes"@,
        "business_term"@ != "bridges"@,
        "notes"@ != "bridges"@,
{
    reveal_strlit("change_tag");
    reveal_strlit("old_name");
    reveal_strlit("business_term");
    reveal_strlit("notes");
    reveal_strlit("bridges");
    assert("change_tag"@.len() == 10);
    assert("old_name"@.len() == 8);
    assert("business_term"@.len() == 13);
    assert("notes"@.len() == 5);
    assert("bridges"@.len() == 7);
}

proof fn lemma_last_value_two(p: (Seq<char>, JsonValue), q: (Seq<char>, JsonValue), k: Seq<char>)
    ensures
        last_value(seq![p, q], k) == if q.0 == k {
            Some(q.1)
        } else if p.0 == k {
            Some(p.1)
        } else {
            None
        },
{
    reveal_with_fuel(last_value, 3);
    let s = seq![p, q];
    assert(s.last() == q);
    assert(s.drop_last() =~= seq![p]);
    assert(seq![p].last() == p);
    assert(seq![p].drop_last() =~= Seq::<(Seq<char>, JsonValue)>::empty());
}

proof fn lemma_last_none(pairs: Seq<(Seq<char>, JsonValue)>, k: Seq<char>)
    requires
        forall|i: int| 0 <= i < pairs.len() ==> (#[trigger] pairs[i]).0 != k,
    ensures
        last_value(pairs, k) is None,
    decreases pairs.len(),
{
    if pairs.len() > 0 {
        assert(pairs[pairs.len() - 1].0 != k);
        let d = pairs.drop_last();
        assert forall|i: int| 0 <= i < d.len() implies (#[trigger] d[i]).0 != k by {
            assert(d[i] == pairs[i]);
        }
        lemma_last_none(d, k);
    }
}

/// The lengths and first letters of the verbatim fields.
proof fn lemma_verbatim_shape(k: Seq<char>)
    requires
        verbatim_field(k),
    ensures
        (k.len() == 10 && k[0] == 'c') || (k.len() == 8 && k[0] == 'o') || (k.len() == 13 && k[0]
            == 'b') || k.len() == 5 || (k.len() == 7 && k[0] == 'b'),
{
    reveal_strlit("change_tag");
    reveal_strlit("old_name");
    reveal_strlit("business_term");
    reveal_strlit("notes");
    reveal_strlit("bridges");
    if k == "change_tag"@ {
        assert(k[0] == 'c');
    } else if k == "old_name"@ {
        assert(k[0] == 'o');
    } else if k == "business_term"@ {
        assert(k[0] == 'b');
    } else if k == "bridges"@ {
        assert(k[0] == 'b');
    }
}

/// None of the verbatim fields is one of the fields set around them.
proof fn lemma_verbatim_not_fixed(k: Seq<char>)
    requires
        verbatim_field(k),
    ensures
        k != "version"@,
        k != "tag"@,
        k != "name"@,
        k != "representation"@,
        k != "charset"@,
        k != "min_length"@,
        k != "max_length"@,
        k != "un_edifact_ref"@,
        k != "aligned_with_edifact"@,
        k != "untded_ref"@,
        k != "untded_status"@,
        k != "category"@,
        k != "source_page"@,
{
    lemma_verbatim_shape(k);
    assert(k != "version"@) by {
        reveal_strlit("version");
        assert("version"@.len() == 7 && "version"@[0] == 'v');
    }
    assert(k != "tag"@) by {
        reveal_strlit("tag");
        assert("tag"@.len() == 3 && "tag"@[0] == 't');
    }
    assert(k != "name"@) by {
        reveal_strlit("name");
        assert("name"@.len() == 4 && "name"@[0] == 'n');
    }
    assert(k != "representation"@) by {
        reveal_strlit("representation");
        assert("representation"@.len() == 14 && "representation"@[0] == 'r');
    }
    assert(k != "charset"@) by {
        reveal_strlit("charset");
        assert("charset"@.len() == 7 && "charset"@[0] == 'c');
    }
    assert(k != "min_length"@) by {
        reveal_strlit("min_length");
        assert("min_length"@.len() == 10 && "min_length"@[0] == 'm');
    }
    assert(k != "max_length"@) by {
        reveal_strlit("max_length");
        assert("max_length"@.len() == 10 && "max_length"@[0] == 'm');
    }
    assert(k != "un_edifact_ref"@) by {
        reveal_strlit("un_edifact_ref");
        assert("un_edifact_ref"@.len() == 14 && "un_edifact_ref"@[0] == 'u');
    }
    assert(k != "aligned_with_edifact"@) by {
        reveal_strlit("aligned_with_edifact");
        assert("aligned_with_edifact"@.len() == 20 && "aligned_with_edifact"@[0] == 'a');
    }
    assert(k != "untded_ref"@) by {
        reveal_strlit("untded_ref");
        assert("untded_ref"@.len() == 10 && "untded_ref"@[0] == 'u');
    }
    assert(k != "untded_status"@) by {
        reveal_strlit("untded_status");
        assert("untded_status"@.len() == 13 && "untded_status"@[0] == 'u');
    }
    assert(k != "category"@) by {
        reveal_strlit("category");
        assert("category"@.len() == 8 && "category"@[0] == 'c');
    }
    assert(k != "source_page"@) by {
        reveal_strlit("source_page");
        assert("source_page"@.len() == 11 && "source_page"@[0] == 's');
    }
}

/// The manifest entries set before the verbatim fields hold none of them.
proof fn lemma_fixed_keys_absent(el: JsonValue, edifact: Seq<(Seq<char>, JsonValue)>, k: Seq<char>)
    requires
        verbatim_field(k),
    ensures
        last_value(
            seq![("version"@, JsonValue::Str(KIT_VERSION@)), ("tag"@, JsonValue::Num(item_tag(el)))]
                + opt_pair("name"@, field(el, "name"@)) + representation_pairs(el) + edifact_pairs(
                item_tag(el),
                edifact,
            ) + seq![
                ("untded_ref"@, JsonValue::Str(untded_ref(el))),
                ("untded_status"@, untded_status(el)),
            ],
            k,
        ) is None,
{
    lemma_verbatim_not_fixed(k);
    let a = seq![("version"@, JsonValue::Str(KIT_VERSION@)), ("tag"@, JsonValue::Num(item_tag(el)))];
    let b = opt_pair("name"@, field(el, "name"@));
    let c = representation_pairs(el);
    let d = edifact_pairs(item_tag(el), edifact);
    let e = seq![("untded_ref"@, JsonValue::Str(untded_ref(el))), ("untded_status"@, untded_status(el))];
    lemma_last_value_two(("version"@, JsonValue::Str(KIT_VERSION@)), ("tag"@, JsonValue::Num(item_tag(el))), k);
    lemma_opt_pair_last("name"@, field(el, "name"@), k);
    assert(last_value(c, k) is None) by {
        match field(el, "representation"@) {
            Some(r) => if !(r is Null) {
                let c1 = opt_pair("representation"@, field(r, "raw"@));
                let c2 = opt_pair("charset"@, field(r, "charset"@));
                let c3 = opt_pair("min_length"@, field(r, "min_length"@));
                let c4 = opt_pair("max_length"@, field(r, "max_length"@));
                lemma_opt_pair_last("representation"@, field(r, "raw"@), k);
                lemma_opt_pair_last("charset"@, field(r, "charset"@), k);
                lemma_opt_pair_last("min_length"@, field(r, "min_length"@), k);
                lemma_opt_pair_last("max_length"@, field(r, "max_length"@), k);
                assert(c == c1 + c2 + c3 + c4);
                lemma_last_value_concat(c1 + c2 + c3, c4, k);
                lemma_last_value_concat(c1 + c2, c3, k);
                lemma_last_value_concat(c1, c2, k);
            } else {
                assert(c.len() == 0);
            },
            None => {
                assert(c.len() == 0);
            },
        }
    }
    assert(last_value(d, k) is None) by {
        assert forall|i: int| 0 <= i < d.len() implies (#[trigger] d[i]).0 != k by {
            match spec_get(edifact, signed_decimal(item_tag(el))) {
                Some(link) => match field_of(field(link, "edifact"@), "name"@) {
                    Some(JsonValue::Str(name)) => {
                        let tail = match field(link, "aligned"@) {
                            Some(x) => seq![
                                ("aligned_with_edifact"@, JsonValue::Bool(!(x is Null) && x != JsonValue::Bool(false))),
                            ],
                            None => Seq::empty(),
                        };
                        let head = seq![("un_edifact_ref"@, JsonValue::Str(name))];
                        assert(d == head + tail);
                        if i > 0 {
                            assert(d[i] == tail[i - 1]);
                            assert(tail[0].0 == "aligned_with_edifact"@);
                        } else {
                            assert(d[0] == head[0]);
                        }
                    },
                    _ => {},
                },
                None => {},
            }
        }
        lemma_last_none(d, k);
    }
    lemma_last_value_two(("untded_ref"@, JsonValue::Str(untded_ref(el))), ("untded_status"@, untded_status(el)), k);
    lemma_last_value_concat(a + b + c + d, e, k);
    lemma_last_value_concat(a + b + c, d, k);
    lemma_last_value_concat(a + b, c, k);
    lemma_last_value_concat(a, b, k);
}

/// Appends `key: value` when the value is present and not null.
fn push_opt(pairs: &mut Vec<(String, Json)>, key: &str, v: Option<&Json>)
    ensures
        pairs_view(final(pairs)@) == pairs_view(old(pairs)@) + opt_pair(key@, opt_view(v)),
{
    let ghost before = pairs_view(pairs@);
    match v {
        Some(x) => match x {
            Json::Null => {
                assert(pairs_view(pairs@) =~= before + opt_pair(key@, opt_view(v)));
            },
            _ => {
                pairs.push((key.to_owned(), x.copy()));
                assert(pairs_view(pairs@) =~= before + opt_pair(key@, opt_view(v)));
            },
        },
        None => {
            assert(pairs_view(pairs@) =~= before + opt_pair(key@, opt_view(v)));
        },
    }
}

/// Appends one entry.
fn push_pair(pairs: &mut Vec<(String, Json)>, key: &str, v: Json)
    ensures
        pairs_view(final(pairs)@) == pairs_view(old(pairs)@) + seq![(key@, v@)],
{
    let ghost before = pairs_view(pairs@);
    pairs.push((key.to_owned(), v));
    assert(pairs_view(pairs@) =~= before + seq![(key@, v@)]);
}

fn str_field_of<'a>(el: &'a Json, key: &str) -> (r: Option<&'a str>)
    ensures
        match r {
            Some(s) => str_field(el@, key@) == Some(s@),
            None => str_field(el@, key@) is None,
        },
{
    match el.get(key) {
        Some(v) => v.as_str(),
        None => None,
    }
}

fn sub_field<'a>(v: Option<&'a Json>, key: &str) -> (r: Option<&'a Json>)
    ensures
        opt_view(r) == field_of(opt_view(v), key@),
{
    match v {
        Some(x) => x.get(key),
        None => None,
    }
}

fn push_representation(m: &mut Vec<(String, Json)>, el: &Json)
    ensures
        pairs_view(final(m)@) == pairs_view(old(m)@) + representation_pairs(el@),
{
    let ghost p1 = pairs_view(m@);
    match el.get("representation") {
        Some(rep) => match rep {
            Json::Null => {},
            _ => {
                push_opt(m, "representation", rep.get("raw"));
                push_opt(m, "charset", rep.get("charset"));
                push_opt(m, "min_length", rep.get("min_length"));
                push_opt(m, "max_length", rep.get("max_length"));
            },
        },
        None => {},
    }
    assert(pairs_view(m@) =~= p1 + representation_pairs(el@));
}

fn push_edifact(m: &mut Vec<(String, Json)>, tag: i64, edifact: &JsonMap)
    ensures
        pairs_view(final(m)@) == pairs_view(old(m)@) + edifact_pairs(tag as int, edifact@),
{
    let ghost p2 = pairs_view(m@);
    let t = tag_text(tag);
    match edifact.get(t.as_str()) {
        Some(link) => {
            match sub_field(link.get("edifact"), "name") {
                Some(n) => match n.as_str() {
                    Some(name) => {
                        push_pair(m, "un_edifact_ref", Json::str(name));
                        match link.get("aligned") {
                            Some(a) => {
                                let aligned = match a {
                                    Json::Null => false,
                                    Json::Bool(b) => *b,
                                    _ => true,
                                };
                                push_pair(m, "aligned_with_edifact", Json::Bool(aligned));
                            },
                            None => {},
                        }
                    },
                    None => {},
                },
                None => {},
            }
        },
        None => {},
    }
    assert(pairs_view(m@) =~= p2 + edifact_pairs(tag as int, edifact@));
}

/// The citation of an element in the directory.
pub fn untded_ref_text(el: &Json, tag: i64) -> (r: String)
    requires
        tag as int == item_tag(el@),
    ensures
        r@ == untded_ref(el@),
{
    let t = tag_text(tag);
    let page = match sub_field(el.get("provenance"), "page") {
        Some(p) => to_text(p),
        None => to_text(&Json::str("?")),
    };
    let mut citation = concat3(UNTDED_CITATION, ", element ", t.as_str());
    citation.append(" (p. ");
    citation.append(page.as_str());
    citation.append("); https://www.untded.org/elements/");
    citation.append(t.as_str());
    citation
}

/// The manifest entries of an element.
fn element_manifest(el: &Json, edifact: &JsonMap) -> (r: Vec<(String, Json)>)
    ensures
        pairs_view(r@) == manifest_pairs(el@, edifact@),
{
    let ghost e = el@;
    let tag: i64 = match element_tag(el) {
        Some(t) => t,
        None => 0,
    };
    assert(tag as int == item_tag(e));
    let mut m: Vec<(String, Json)> = Vec::new();
    push_pair(&mut m, "version", Json::str(KIT_VERSION));
    push_pair(&mut m, "tag", Json::Int(tag));
    assert(pairs_view(m@) =~= seq![
        ("version"@, JsonValue::Str(KIT_VERSION@)),
        ("tag"@, JsonValue::Num(item_tag(e))),
    ]);
    push_opt(&mut m, "name", el.get("name"));
    push_representation(&mut m, el);
    push_edifact(&mut m, tag, edifact);
    let ghost p2 = pairs_view(m@);
    push_pair(&mut m, "untded_ref", Json::Str(untded_ref_text(el, tag)));
    let status = match el.get("status") {
        Some(s) => s.copy(),
        None => Json::str("active"),
    };
    push_pair(&mut m, "untded_status", status);
    assert(pairs_view(m@) =~= p2 + seq![
        ("untded_ref"@, JsonValue::Str(untded_ref(e))),
        ("untded_status"@, untded_status(e)),
    ]);
    push_opt(&mut m, "change_tag", el.get("change_tag"));
    push_opt(&mut m, "old_name", el.get("old_name"));
    push_opt(&mut m, "business_term", el.get("business_term"));
    push_opt(&mut m, "notes", el.get("notes"));
    push_opt(&mut m, "bridges", el.get("bridges"));
    push_opt(&mut m, "category", el.get("_category"));
    let ghost p3 = pairs_view(m@);
    match sub_field(el.get("provenance"), "page") {
        Some(p) => push_pair(&mut m, "source_page", p.copy()),
        None => {},
    }
    assert(pairs_view(m@) =~= p3 + source_page_pairs(e));
    assert(pairs_view(m@) =~= manifest_pairs(e, edifact@));
    m
}

/// The name of an element.
pub fn element_name_text(el: &Json) -> (r: String)
    ensures
        r@ == element_name(el@),
{
    match str_field_of(el, "name") {
        Some(n) => n.to_owned(),
        None => match str_field_of(el, "old_name") {
            Some(n) => n.to_owned(),
            None => String::new(),
        },
    }
}

/// The definition of an element.
pub fn element_definition_text(el: &Json) -> (r: String)
    ensures
        r@ == element_definition(el@),
{
    let name = element_name_text(el);
    if status_is(el, "retired") {
        let mut d = concat2(name.as_str(), " — retired in UNTDED 2005. ");
        match str_field_of(el, "notes") {
            Some(n) => d.append(n),
            None => d.append("No replacement stated in the directory."),
        }
        d
    } else {
        match str_field_of(el, "description") {
            Some(d) => if !d.is_empty() {
                d.to_owned()
            } else {
                name
            },
            None => name,
        }
    }
}

/// The registry item of an element (`POST /data-elements` body): the
/// element's tag, title and definition, and its manifest.
pub fn build_item(el: &Json, register: &str, edifact: &JsonMap) -> (r: Json)
    ensures
        r@ == JsonValue::Object(object_from(item_pairs(el@, register@, edifact@))),
{
    let ghost e = el@;
    let tag: i64 = match element_tag(el) {
        Some(t) => t,
        None => 0,
    };
    let t = tag_text(tag);
    let m = element_manifest(el, edifact);
    let name = element_name_text(el);
    let title = if name.as_str().is_empty() {
        concat2("UNTDED data element ", t.as_str())
    } else {
        name
    };
    let definition = element_definition_text(el);
    let mut pairs: Vec<(String, Json)> = Vec::new();
    pairs.push(("register_id".to_owned(), Json::str(register)));
    pairs.push(("item_id".to_owned(), Json::Str(concat2("urn:untded:de:", t.as_str()))));
    pairs.push(("class".to_owned(), Json::str("data-element")));
    pairs.push(("title".to_owned(), Json::Str(title)));
    pairs.push(("definition".to_owned(), Json::Str(definition)));
    pairs.push(("version".to_owned(), Json::str(KIT_VERSION)));
    pairs.push(("effective_from".to_owned(), Json::str(EFFECTIVE_FROM)));
    pairs.push(("submitting_organization".to_owned(), Json::str(SUBMITTING_ORG)));
    pairs.push(("manifest".to_owned(), json_object(m)));
    assert(pairs_view(pairs@) =~= item_pairs(e, register@, edifact@));
    json_object(pairs)
}

// ---------------------------------------------------------------------------
// The run's report
// ---------------------------------------------------------------------------

/// The lifecycle line: how many elements are active and how many are not.
pub fn lifecycle_line(active: usize, total: usize) -> (r: String)
    requires
        active <= total,
    ensures
        r@ == "  lifecycle: "@ + decimal(active as nat) + " active / "@ + decimal(
            (total - active) as nat,
        ) + " retired (source states; every item registers 19135-status valid)"@,
{
    let mut r = String::new();
    r.append("  lifecycle: ");
    push_decimal(&mut r, active as u64);
    r.append(" active / ");
    push_decimal(&mut r, (total - active) as u64);
    r.append(" retired (source states; every item registers 19135-status valid)");
    r
}

/// The join line: how many of the elements the UN/EDIFACT join links.
pub fn edifact_line(linked: usize, total: usize) -> (r: String)
    ensures
        r@ == "  un_edifact_ref: "@ + decimal(linked as nat) + " of "@ + decimal(total as nat)
            + " (D05B join: "@ + EDIFACT_SOURCE_SHORT@ + ")"@,
{
    let mut r = String::new();
    r.append("  un_edifact_ref: ");
    push_decimal(&mut r, linked as u64);
    r.append(" of ");
    push_decimal(&mut r, total as u64);
    r.append(" (D05B join: ");
    r.append(EDIFACT_SOURCE_SHORT);
    r.append(")");
    r
}

/// The tally of registration answers.
pub struct Progress {
    pub registered: usize,
    pub skipped: usize,
    pub failed: usize,
}

impl Progress {
    /// No answer yet.
    pub fn new() -> (r: Progress)
        ensures
            r.registered == 0 && r.skipped == 0 && r.failed == 0,
    {
        Progress { registered: 0, skipped: 0, failed: 0 }
    }

    /// Counts the answer to one registration: `201` registered, `409`
    /// already present, anything else failed, with its report line.
    pub fn record(&mut self, item_id: &str, status: u16, resp: &Json) -> (r: Option<String>)
        requires
            old(self).registered + old(self).skipped + old(self).failed < usize::MAX,
        ensures
            status == 201 ==> final(self).registered == old(self).registered + 1
                && final(self).skipped == old(self).skipped && final(self).failed == old(
                self,
            ).failed && r is None,
            status == 409 ==> final(self).registered == old(self).registered
                && final(self).skipped == old(self).skipped + 1 && final(self).failed == old(
                self,
            ).failed && r is None,
            status != 201 && status != 409 ==> final(self).registered == old(self).registered
                && final(self).skipped == old(self).skipped && final(self).failed == old(
                self,
            ).failed + 1 && (r matches Some(line) && line@ == "  FAILED: "@ + failure(
                item_id@ + " failed"@,
                status,
                resp@,
            )),
    {
        if status == 201 {
            self.registered = self.registered + 1;
            None
        } else if status == 409 {
            self.skipped = self.skipped + 1;
            None
        } else {
            self.failed = self.failed + 1;
            let what = concat2(item_id, " failed");
            let report = failure_message(what.as_str(), status, resp);
            Some(concat2("  FAILED: ", report.as_str()))
        }
    }

    /// The progress line after the `n`-th of `total` registrations: every
    /// 250th, and the last.
    pub fn line(&self, n: usize, total: usize) -> (r: Option<String>)
        ensures
            (n % 250 == 0 || n == total) ==> (r matches Some(line) && line@ == "  "@ + decimal(
                n as nat,
            ) + "/"@ + decimal(total as nat) + " — "@ + decimal(self.registered as nat)
                + " registered, "@ + decimal(self.skipped as nat) + " already present, "@
                + decimal(self.failed as nat) + " failed"@),
            !(n % 250 == 0 || n == total) ==> r is None,
    {
        if n % 250 == 0 || n == total {
            let mut r = String::new();
            r.append("  ");
            push_decimal(&mut r, n as u64);
            r.append("/");
            push_decimal(&mut r, total as u64);
            r.append(" — ");
            push_decimal(&mut r, self.registered as u64);
            r.append(" registered, ");
            push_decimal(&mut r, self.skipped as u64);
            r.append(" already present, ");
            push_decimal(&mut r, self.failed as u64);
            r.append(" failed");
            Some(r)
        } else {
            None
        }
    }
}

/// The item id of an element.
pub fn element_id(tag: i64) -> (r: String)
    ensures
        r@ == element_item_id(tag as int),
{
    let t = tag_text(tag);
    concat2("urn:untded:de:", t.as_str())
}

/// The item ids the run expects to find, distinct and in key order.
pub fn expected_ids(els: &Vec<(i64, Json)>) -> (r: Vec<String>)
    ensures
        crate::tally::ascending(strings_view(r@)),
        forall|x: Seq<char>|
            strings_view(r@).contains(x) <==> exists|i: int|
                0 <= i < els@.len() && x == element_item_id(#[trigger] els@[i].0 as int),
{
    let mut ids: Vec<String> = Vec::new();
    let mut i: usize = 0;
    while i < els.len()
        invariant
            i <= els@.len(),
            ids@.len() == i,
            forall|k: int| 0 <= k < i ==> (#[trigger] ids@[k])@ == element_item_id(els@[k].0 as int),
        decreases els@.len() - i,
    {
        ids.push(element_id(els[i].0));
        i = i + 1;
    }
    let r = crate::tally::distinct_sorted(&ids);
    proof {
        let iv = strings_view(ids@);
        assert forall|x: Seq<char>| strings_view(r@).contains(x) implies exists|i: int|
            0 <= i < els@.len() && x == element_item_id(#[trigger] els@[i].0 as int) by {
            assert(iv.contains(x));
            let k = choose|k: int| 0 <= k < iv.len() && iv[k] == x;
            assert(ids@[k]@ == x);
        }
        assert forall|x: Seq<char>| (exists|i: int|
            0 <= i < els@.len() && x == element_item_id(#[trigger] els@[i].0 as int)) implies strings_view(r@).contains(x) by {
            let k = choose|i: int| 0 <= i < els@.len() && x == element_item_id(#[trigger] els@[i].0 as int);
            assert(iv[k] == x);
            assert(iv.contains(x));
        }
    }
    r
}

/// The report lines of the first `limit` missing items.
pub fn missing_lines(missing: &Vec<String>, limit: usize) -> (r: Vec<String>)
    ensures
        r@.len() == if limit < missing@.len() {
            limit as int
        } else {
            missing@.len() as int
        },
        forall|i: int| 0 <= i < r@.len() ==> (#[trigger] r@[i])@ == "  missing: "@ + missing@[i]@,
{
    let mut r: Vec<String> = Vec::new();
    let mut i: usize = 0;
    while i < missing.len() && i < limit
        invariant
            i <= missing@.len(),
            i <= limit,
            r@.len() == i,
            forall|k: int| 0 <= k < i ==> (#[trigger] r@[k])@ == "  missing: "@ + missing@[k]@,
        decreases missing@.len() - i,
    {
        r.push(concat2("  missing: ", missing[i].as_str()));
        i = i + 1;
    }
    r
}

/// The listing that verifies the seeding.
pub fn listing_path(register: &str) -> (r: String)
    ensures
        r@ == "/data-elements?register="@ + register@,
{
    concat2("/data-elements?register=", register)
}

// ---------------------------------------------------------------------------
// The run
// ---------------------------------------------------------------------------

/// Where a `seed-untded` run stands: the register, the items it registers
/// in turn, the item ids the final listing must hold, how many items have
/// been answered and how (registered, already present, failed), and its
/// ending once it has one.
pub struct UntdedRunView {
    pub register: Seq<char>,
    pub items: Seq<JsonValue>,
    pub expected: Seq<Seq<char>>,
    pub next: nat,
    pub registered: nat,
    pub skipped: nat,
    pub failed: nat,
    pub end: Option<(bool, Option<Seq<char>>)>,
}

/// The request a run makes: each item in turn to `/data-elements`, then
/// the listing of the register; then its ending.
pub open spec fn untded_action(v: UntdedRunView) -> SeedActionView {
    match v.end {
        Some((ok, message)) => SeedActionView::Finish { ok, message },
        None => if v.next < v.items.len() {
            SeedActionView::Post { path: "/data-elements"@, body: v.items[v.next as int] }
        } else {
            SeedActionView::Get { path: "/data-elements?register="@ + v.register }
        },
    }
}

/// The progress line after the `n`-th of `total` registrations.
pub open spec fn progress_text(n: nat, total: nat, registered: nat, skipped: nat, failed: nat) -> Seq<
    char,
> {
    "  "@ + decimal(n) + "/"@ + decimal(total) + " — "@ + decimal(registered) + " registered, "@
        + decimal(skipped) + " already present, "@ + decimal(failed) + " failed"@
}

/// The report lines of missing item ids: the first ten.
pub open spec fn missing_report(missing: Seq<Seq<char>>) -> Seq<Seq<char>> {
    let shown = if missing.len() < 10 {
        missing
    } else {
        missing.take(10)
    };
    shown.map_values(|m: Seq<char>| "  missing: "@ + m)
}

/// A run after the answer to its current request, with the lines it
/// reports. A registration is counted (`201` registered, `409` already
/// present, anything else failed, with its report line) and the run goes
/// on, with a progress line every 250th item and after the last. The
/// listing must answer `200`; the run then succeeds only when the listing
/// holds every expected item id and no registration failed.
pub open spec fn untded_after(v: UntdedRunView, status: u16, resp: JsonValue) -> (
    UntdedRunView,
    Seq<Seq<char>>,
) {
    if v.next < v.items.len() {
        let id = item_id_of(v.items[v.next as int]);
        let n = v.next + 1;
        let registered = if status == 201 {
            v.registered + 1
        } else {
            v.registered
        };
        let skipped = if status == 409 {
            v.skipped + 1
        } else {
            v.skipped
        };
        let failed = if status != 201 && status != 409 {
            v.failed + 1
        } else {
            v.failed
        };
        let report = if status != 201 && status != 409 {
            seq!["  FAILED: "@ + failure(id + " failed"@, status, resp)]
        } else {
            Seq::empty()
        };
        let progress = if n % 250 == 0 || n == v.items.len() {
            seq![progress_text(n, v.items.len(), registered, skipped, failed)]
        } else {
            Seq::empty()
        };
        (
            UntdedRunView { next: n, registered, skipped, failed, ..v },
            report + progress,
        )
    } else if status != 200 {
        (
            UntdedRunView {
                end: Some(
                    (
                        false,
                        Some(
                            "verification failed: GET "@ + "/data-elements"@ + " -> HTTP "@
                                + decimal(status as nat),
                        ),
                    ),
                ),
                ..v
            },
            Seq::empty(),
        )
    } else {
        let path = "/data-elements?register="@ + v.register;
        let lacking = missing_spec(v.expected, listed_ids(listing_items(resp)));
        let line = verify_line_spec(path, listing_count(resp), v.expected.len(), lacking.len() == 0);
        let end = if lacking.len() > 0 {
            (false, None)
        } else if v.failed > 0 {
            (false, Some(decimal(v.failed) + " elements failed to register"@))
        } else {
            (true, None)
        };
        (UntdedRunView { end: Some(end), ..v }, seq![Seq::empty(), line] + missing_report(lacking))
    }
}

/// A run after a sequence of answers, one per request (answers after its
/// ending change nothing).
pub open spec fn untded_replay(v: UntdedRunView, replies: Seq<(u16, JsonValue)>) -> UntdedRunView
    decreases replies.len(),
{
    if replies.len() == 0 || v.end is Some {
        v
    } else {
        untded_replay(untded_after(v, replies[0].0, replies[0].1).0, replies.drop_first())
    }
}

/// Whether a listing answer holds every expected item id.
pub open spec fn listing_complete(expected: Seq<Seq<char>>, resp: JsonValue) -> bool {
    missing_spec(expected, listed_ids(listing_items(resp))).len() == 0
}

proof fn lemma_untded_replay_from(v: UntdedRunView, replies: Seq<(u16, JsonValue)>)
    requires
        v.end is None,
        v.next <= v.items.len(),
    ensures
        ({
            let k = v.items.len() - v.next;
            untded_replay(v, replies).end == Some((true, None::<Seq<char>>)) <==> (v.failed == 0
                && replies.len() > k && (forall|i: int|
                0 <= i < k ==> #[trigger] replies[i].0 == 201 || replies[i].0 == 409)
                && replies[k].0 == 200 && listing_complete(v.expected, replies[k].1))
        }),
    decreases replies.len(),
{
    if replies.len() == 0 {
        return;
    }
    let (status, resp) = replies[0];
    let w = untded_after(v, status, resp).0;
    let rest = replies.drop_first();
    assert(untded_replay(v, replies) == untded_replay(w, rest));
    let k = v.items.len() - v.next;
    if v.next < v.items.len() {
        assert(w.end is None && w.next == v.next + 1 && w.items == v.items && w.expected == v.expected);
        lemma_untded_replay_from(w, rest);
        let accepted = status == 201 || status == 409;
        assert(w.failed == 0 <==> (v.failed == 0 && accepted));
        if replies.len() > k {
            assert(rest[k - 1] == replies[k]);
        }
        if v.failed == 0 && replies.len() > k && (forall|i: int|
            0 <= i < k ==> #[trigger] replies[i].0 == 201 || replies[i].0 == 409) {
            assert(replies[0].0 == 201 || replies[0].0 == 409);
            assert forall|i: int| 0 <= i < k - 1 implies #[trigger] rest[i].0 == 201 || rest[i].0
                == 409 by {
                assert(rest[i] == replies[i + 1]);
            }
        }
        if w.failed == 0 && rest.len() > k - 1 && (forall|i: int|
            0 <= i < k - 1 ==> #[trigger] rest[i].0 == 201 || rest[i].0 == 409) {
            assert forall|i: int| 0 <= i < k implies #[trigger] replies[i].0 == 201 || replies[i].0
                == 409 by {
                if i > 0 {
                    assert(rest[i - 1] == replies[i]);
                }
            }
        }
    } else {
        assert(w.end is Some);
        assert(untded_replay(w, rest) == w);
    }
}

/// A `seed-untded` run succeeds exactly when every item's registration is
/// accepted (`201` or `409`), then the listing of the register answers
/// `200` and holds every expected item id; a refused registration, another
/// answer to the listing, or an item id missing from it fails the run.
pub proof fn lemma_untded_run(v: UntdedRunView, replies: Seq<(u16, JsonValue)>)
    requires
        v.next == 0,
        v.registered == 0,
        v.skipped == 0,
        v.failed == 0,
        v.end is None,
    ensures
        ({
            let n = v.items.len();
            untded_replay(v, replies).end == Some((true, None::<Seq<char>>)) <==> (replies.len() > n
                && (forall|i: int| 0 <= i < n ==> #[trigger] replies[i].0 == 201 || replies[i].0 == 409)
                && replies[n as int].0 == 200 && listing_complete(v.expected, replies[n as int].1))
        }),
{
    lemma_untded_replay_from(v, replies);
}

/// A `seed-untded` run: the requests it makes in turn, and what it makes of
/// each answer.
pub struct UntdedRun {
    register: String,
    items: Vec<Json>,
    expected: Vec<String>,
    next: usize,
    progress: Progress,
    end: Option<(bool, Option<String>)>,
}

impl UntdedRun {
    pub closed spec fn view(&self) -> UntdedRunView {
        UntdedRunView {
            register: self.register@,
            items: self.items@.map_values(|j: Json| j@),
            expected: strings_view(self.expected@),
            next: self.next as nat,
            registered: self.progress.registered as nat,
            skipped: self.progress.skipped as nat,
            failed: self.progress.failed as nat,
            end: end_view(self.end),
        }
    }

    #[verifier::type_invariant]
    closed spec fn inv(self) -> bool {
        &&& self.next <= self.items@.len()
        &&& self.progress.registered + self.progress.skipped + self.progress.failed <= self.next
    }

    /// The run over the selected elements: refused when two of them carry
    /// the same tag; otherwise it registers the item of each element in
    /// order and expects the listing to hold each element's item id.
    pub fn start(els: &Vec<(i64, Json)>, register: &str, edifact: &JsonMap) -> (r: Result<
        UntdedRun,
        String,
    >)
        ensures
            has_duplicate_tags(tagged_view(els@)) <==> r is Err,
            r matches Err(e) ==> e@ == "duplicate tags in the UNTDED dataset"@,
            r matches Ok(run) ==> {
                let v = run@;
                &&& v.register == register@
                &&& v.items.len() == els@.len()
                &&& forall|i: int|
                    0 <= i < els@.len() ==> #[trigger] v.items[i] == JsonValue::Object(
                        object_from(item_pairs(els@[i].1@, register@, edifact@)),
                    )
                &&& crate::tally::ascending(v.expected)
                &&& forall|x: Seq<char>|
                    v.expected.contains(x) <==> exists|i: int|
                        0 <= i < els@.len() && x == element_item_id(#[trigger] els@[i].0 as int)
                &&& v.next == 0 && v.registered == 0 && v.skipped == 0 && v.failed == 0
                &&& v.end is None
            },
    {
        if duplicate_tags(els) {
            return Err("duplicate tags in the UNTDED dataset".to_owned());
        }
        let mut items: Vec<Json> = Vec::new();
        let mut i: usize = 0;
        while i < els.len()
            invariant
                i <= els@.len(),
                items@.len() == i,
                forall|k: int|
                    0 <= k < i ==> (#[trigger] items@[k])@ == JsonValue::Object(
                        object_from(item_pairs(els@[k].1@, register@, edifact@)),
                    ),
            decreases els@.len() - i,
        {
            items.push(build_item(&els[i].1, register, edifact));
            i = i + 1;
        }
        let expected = expected_ids(els);
        let run = UntdedRun {
            register: register.to_owned(),
            items,
            expected,
            next: 0,
            progress: Progress::new(),
            end: None,
        };
        Ok(run)
    }

    /// The request the run makes next.
    pub fn action(&self) -> (r: SeedAction)
        ensures
            r@ == untded_action(self@),
    {
        proof {
            use_type_invariant(self);
        }
        match &self.end {
            Some((ok, message)) => finish_action(*ok, message),
            None => if self.next < self.items.len() {
                SeedAction::Post {
                    path: "/data-elements".to_owned(),
                    body: self.items[self.next].copy(),
                }
            } else {
                SeedAction::Get { path: listing_path(self.register.as_str()) }
            },
        }
    }

    /// Takes the answer to the current request; returns the lines to
    /// report.
    pub fn step(&mut self, status: u16, resp: &Json) -> (lines: Vec<String>)
        requires
            old(self)@.end is None,
        ensures
            (final(self)@, strings_view(lines@)) == untded_after(old(self)@, status, resp@),
    {
        proof {
            use_type_invariant(&*self);
        }
        let ghost v = self@;
        let mut lines: Vec<String> = Vec::new();
        if self.next < self.items.len() {
            let id = body_item_id(&self.items[self.next]);
            let n = self.next + 1;
            let total = self.items.len();
            let mut p = Progress {
                registered: self.progress.registered,
                skipped: self.progress.skipped,
                failed: self.progress.failed,
            };
            match p.record(id.as_str(), status, resp) {
                Some(line) => lines.push(line),
                None => {},
            }
            match p.line(n, total) {
                Some(line) => lines.push(line),
                None => {},
            }
            self.next = n;
            self.progress = p;
            proof {
                let after = untded_after(v, status, resp@);
                assert(v.items[v.next as int] == self.items@[v.next as int]@);
                assert(strings_view(lines@) =~= after.1);
                assert(self@.items =~= after.0.items);
                assert(self@ == after.0);
            }
        } else {
            match listing_status("/data-elements", status) {
                Err(e) => {
                    self.end = Some((false, Some(e)));
                },
                Ok(()) => {
                    let path = listing_path(self.register.as_str());
                    let listed = listed_identifiers(resp);
                    let lacking = missing(&self.expected, &listed);
                    let count = listing_count_text(resp);
                    lines.push(String::new());
                    lines.push(
                        verify_line(path.as_str(), count.as_str(), self.expected.len(), lacking.len() == 0),
                    );
                    let mut shown = missing_lines(&lacking, 10);
                    let ghost before = strings_view(lines@);
                    let ghost shown_view = strings_view(shown@);
                    lines.append(&mut shown);
                    proof {
                        let lv = strings_view(lacking@);
                        assert(shown_view =~= missing_report(lv));
                        assert(strings_view(lines@) =~= before + missing_report(lv));
                    }
                    if lacking.len() > 0 {
                        self.end = Some((false, None));
                    } else if self.progress.failed > 0 {
                        let mut m = String::new();
                        push_decimal(&mut m, self.progress.failed as u64);
                        m.append(" elements failed to register");
                        self.end = Some((false, Some(m)));
                    } else {
                        self.end = Some((true, None));
                    }
                },
            }
            proof {
                let after = untded_after(v, status, resp@);
                assert(strings_view(lines@) =~= after.1);
                assert(self@.items =~= after.0.items);
                assert(self@ == after.0);
            }
        }
        lines
    }
}

// ---------------------------------------------------------------------------
// The command line
// ---------------------------------------------------------------------------

/// What `seed-untded`'s own options set.
pub struct UntdedScan {
    pub register: Seq<char>,
    pub dir: Option<Seq<char>>,
    pub status: Seq<char>,
    pub limit: Option<nat>,
    pub shared: Seq<Seq<char>>,
}

/// The options before any is read.
pub open spec fn untded_defaults() -> UntdedScan {
    UntdedScan { register: "untded"@, dir: None, status: "all"@, limit: None, shared: Seq::empty() }
}

/// `seed-untded`'s options read from the front: a missing value is the
/// usage error, an unknown status or a limit that is not a number stops
/// the reading; other arguments are passed on.
pub open spec fn untded_options(st: UntdedScan, rest: Seq<Seq<char>>) -> Result<UntdedScan, Seq<char>>
    decreases rest.len(),
{
    if rest.len() == 0 {
        Ok(st)
    } else if rest[0] == "--register"@ || rest[0] == "--untded-dir"@ || rest[0] == "--status"@
        || rest[0] == "--limit"@ {
        if rest.len() < 2 {
            Err(USAGE@)
        } else if rest[0] == "--register"@ {
            untded_options(UntdedScan { register: rest[1], ..st }, rest.skip(2))
        } else if rest[0] == "--untded-dir"@ {
            untded_options(UntdedScan { dir: Some(rest[1]), ..st }, rest.skip(2))
        } else if rest[0] == "--status"@ {
            if rest[1] == "active"@ || rest[1] == "retired"@ || rest[1] == "all"@ {
                untded_options(UntdedScan { status: rest[1], ..st }, rest.skip(2))
            } else {
                Err("--status is one of: active, retired, all"@)
            }
        } else {
            match parse_unsigned(rest[1], usize::MAX as nat) {
                Some(n) => untded_options(UntdedScan { limit: Some(n), ..st }, rest.skip(2)),
                None => Err("--limit must be a number (got "@ + rest[1] + ")"@),
            }
        }
    } else {
        untded_options(UntdedScan { shared: st.shared.push(rest[0]), ..st }, rest.drop_first())
    }
}

/// The options of `seed-untded`.
pub struct UntdedArgs {
    pub register: String,
    pub dir: Option<String>,
    pub status: String,
    pub limit: Option<usize>,
    pub shared: SeedArgs,
}

/// A count that may be absent, as a natural number.
pub open spec fn opt_nat(v: Option<usize>) -> Option<nat> {
    match v {
        Some(n) => Some(n as nat),
        None => None,
    }
}

/// The command line of `seed-untded`: its own options (register `untded`,
/// status `all`, no limit unless given), then the shared ones.
pub fn run(kit: &Kit, args: &Vec<String>) -> (r: Result<UntdedArgs, String>)
    ensures
        match untded_options(untded_defaults(), args_view(args@)) {
            Err(e) => r matches Err(x) && x@ == e,
            Ok(st) => {
                let start = SeedArgsView {
                    bind: kit.bind@,
                    port: kit.port,
                    base_url: None,
                    admin_token: None,
                    token_file: None,
                };
                match seed_options(start, st.shared, USAGE@) {
                    Err(e) => r matches Err(x) && x@ == e,
                    Ok(sv) => r matches Ok(a) && a.shared@ == sv && a.register@ == st.register
                        && crate::http::view_opt(a.dir) == st.dir && a.status@ == st.status
                        && match a.limit {
                        Some(n) => st.limit == Some(n as nat),
                        None => st.limit is None,
                    },
                }
            },
        },
{
    let mut register = "untded".to_owned();
    let mut dir: Option<String> = None;
    let mut status = "all".to_owned();
    let mut limit: Option<usize> = None;
    let mut shared: Vec<String> = Vec::new();
    let ghost av = args_view(args@);
    let mut i: usize = 0;
    assert(av.skip(0) =~= av);
    assert(args_view(shared@) =~= Seq::<Seq<char>>::empty());
    while i < args.len()
        invariant
            i <= args@.len(),
            av == args_view(args@),
            untded_options(untded_defaults(), av) == untded_options(
                UntdedScan {
                    register: register@,
                    dir: crate::http::view_opt(dir),
                    status: status@,
                    limit: opt_nat(limit),
                    shared: args_view(shared@),
                },
                av.skip(i as int),
            ),
        decreases args@.len() - i,
    {
        let a = args[i].as_str();
        let ghost rest = av.skip(i as int);
        assert(rest[0] == a@);
        let own = str_eq(a, "--register") || str_eq(a, "--untded-dir") || str_eq(a, "--status")
            || str_eq(a, "--limit");
        if own {
            if i + 1 >= args.len() {
                return Err(USAGE.to_owned());
            }
            let v = args[i + 1].as_str();
            assert(rest[1] == v@);
            assert(rest.skip(2) =~= av.skip(i + 2));
            if str_eq(a, "--register") {
                register = v.to_owned();
            } else if str_eq(a, "--untded-dir") {
                dir = Some(v.to_owned());
            } else if str_eq(a, "--status") {
                if !(str_eq(v, "active") || str_eq(v, "retired") || str_eq(v, "all")) {
                    return Err("--status is one of: active, retired, all".to_owned());
                }
                status = v.to_owned();
            } else {
                match parse_unsigned_bounded(v, usize::MAX as u64) {
                    Some(n) => {
                        limit = Some(n as usize);
                    },
                    None => {
                        let mut e = concat2("--limit must be a number (got ", v);
                        e.append(")");
                        return Err(e);
                    },
                }
            }
            i = i + 2;
        } else {
            let ghost before = args_view(shared@);
            shared.push(args[i].clone());
            assert(args_view(shared@) =~= before.push(a@));
            assert(rest.drop_first() =~= av.skip(i + 1));
            i = i + 1;
        }
    }
    assert(av.skip(i as int).len() == 0);
    let parsed = match parse_seed_args(kit, &shared, USAGE) {
        Ok(p) => p,
        Err(e) => return Err(e),
    };
    Ok(UntdedArgs { register, dir, status, limit, shared: parsed })
}


} // verus!
