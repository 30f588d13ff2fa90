//! The jurisdiction demonstration's views: the projections of the
//! registry's answers that the walkthrough prints (in the order `jq`
//! would print them), and the decisions between its steps.

use vstd::prelude::*;

use crate::json::{
    field, field_or_null, json_object, object_from, pairs_view, pretty, spec_get, to_pretty_text,
    Json, JsonValue,
};
use crate::tally::strings_view;
use crate::text::{concat2, concat3, push_char, take_chars, trim, trim_spec};

verus! {

broadcast use crate::json::lemma_object_from_push;

/// The width of a section banner.
pub const BANNER: usize = 70;

/// The product type the applicability steps ask about.
pub const PRODUCT_TYPE: &'static str = "gtin:4260123400019";

/// The data element the supersession step versions.
pub const ELEMENT: &'static str = "urn:unidpp:de:battery-carbon-footprint";

// ---------------------------------------------------------------------------
// Display views
// ---------------------------------------------------------------------------

/// A display view: a value taken from a server document, or an object or
/// array whose entries print in the order given.
pub enum J {
    V(Json),
    Obj(Vec<(String, J)>),
    Arr(Vec<J>),
}

/// A display view as mathematics.
pub enum JView {
    V(JsonValue),
    Obj(Seq<(Seq<char>, JView)>),
    Arr(Seq<JView>),
}

impl J {
    pub open spec fn view(&self) -> JView
        decreases self,
    {
        match self {
            J::V(v) => JView::V(v@),
            J::Obj(fields) => JView::Obj(
                Seq::new(
                    fields@.len(),
                    |i: int|
                        if 0 <= i < fields@.len() {
                            (fields@[i].0@, fields@[i].1.view())
                        } else {
                            (Seq::empty(), JView::Arr(Seq::empty()))
                        },
                ),
            ),
            J::Arr(items) => JView::Arr(
                Seq::new(
                    items@.len(),
                    |i: int|
                        if 0 <= i < items@.len() {
                            items@[i].view()
                        } else {
                            JView::Arr(Seq::empty())
                        },
                ),
            ),
        }
    }
}

/// `s` with each newline followed by `pad`.
pub open spec fn indent_lines(s: Seq<char>, pad: Seq<char>) -> Seq<char>
    decreases s.len(),
{
    if s.len() == 0 {
        Seq::empty()
    } else {
        indent_lines(s.drop_last(), pad) + if s.last() == '\n' {
            seq!['\n'] + pad
        } else {
            seq![s.last()]
        }
    }
}

/// The text of a view whose inner lines are prefixed with `pad`: a value
/// as its pretty JSON; a non-empty object or array one entry per line,
/// indented two spaces more than its brackets, an object's entries as
/// `"key": value`.
pub open spec fn render(j: JView, pad: Seq<char>) -> Seq<char>
    decreases j,
{
    match j {
        JView::V(v) => indent_lines(pretty(v, Seq::empty()), pad),
        JView::Obj(fields) => if fields.len() == 0 {
            seq!['{', '}']
        } else {
            seq!['{', '\n'] + render_fields(fields, pad + "  "@) + seq!['\n'] + pad + seq!['}']
        },
        JView::Arr(items) => if items.len() == 0 {
            seq!['[', ']']
        } else {
            seq!['[', '\n'] + render_items(items, pad + "  "@) + seq!['\n'] + pad + seq![']']
        },
    }
}

/// Object entries, one per line after `pad`, separated by commas.
pub open spec fn render_fields(fields: Seq<(Seq<char>, JView)>, pad: Seq<char>) -> Seq<char>
    decreases fields,
{
    if fields.len() == 0 {
        Seq::empty()
    } else {
        let line = pad + seq!['"'] + fields.last().0 + seq!['"', ':', ' '] + render(
            fields.last().1,
            pad,
        );
        if fields.len() == 1 {
            line
        } else {
            render_fields(fields.drop_last(), pad) + seq![',', '\n'] + line
        }
    }
}

/// Array items, one per line after `pad`, separated by commas.
pub open spec fn render_items(items: Seq<JView>, pad: Seq<char>) -> Seq<char>
    decreases items,
{
    if items.len() == 0 {
        Seq::empty()
    } else {
        let line = pad + render(items.last(), pad);
        if items.len() == 1 {
            line
        } else {
            render_items(items.drop_last(), pad) + seq![',', '\n'] + line
        }
    }
}

/// `s` with each newline followed by `pad`.
pub fn indent_text(s: &str, pad: &str) -> (r: String)
    ensures
        r@ == indent_lines(s@, pad@),
{
    let cs = crate::text::chars_of(s);
    let mut r = String::new();
    let mut i: usize = 0;
    while i < cs.len()
        invariant
            i <= cs@.len(),
            cs@ == s@,
            r@ == indent_lines(cs@.take(i as int), pad@),
        decreases cs@.len() - i,
    {
        let c = cs[i];
        push_char(&mut r, c);
        if c == '\n' {
            r.append(pad);
        }
        proof {
            let t = cs@.take(i + 1);
            assert(t.drop_last() =~= cs@.take(i as int));
            assert(t.last() == c);
        }
        i = i + 1;
    }
    assert(cs@.take(cs@.len() as int) =~= cs@);
    r
}

impl J {
    /// The text of the view, its inner lines prefixed with `pad`.
    pub fn render(&self, pad: &str) -> (r: String)
        ensures
            r@ == render(self@, pad@),
        decreases self,
    {
        match self {
            J::V(v) => {
                let text = to_pretty_text(v);
                indent_text(text.as_str(), pad)
            },
            J::Obj(fields) => {
                if fields.len() == 0 {
                    let mut r = String::new();
                    push_char(&mut r, '{');
                    push_char(&mut r, '}');
                    return r;
                }
                let ghost fv = self@->Obj_0;
                let inner = concat2(pad, "  ");
                let mut body = String::new();
                let mut i: usize = 0;
                while i < fields.len()
                    invariant
                        *self === J::Obj(*fields),
                        fv == self@->Obj_0,
                        fv.len() == fields@.len(),
                        i <= fields@.len(),
                        inner@ == pad@ + "  "@,
                        body@ == render_fields(fv.take(i as int), inner@),
                    decreases fields@.len() - i,
                {
                    proof {
                        assert(decreases_to!(*self => self->Obj_0));
                        assert(decreases_to!(self->Obj_0 => self->Obj_0@));
                        assert(decreases_to!(self->Obj_0@ => self->Obj_0@[i as int]));
                        assert(decreases_to!(self->Obj_0@[i as int] => self->Obj_0@[i as int].1));
                    }
                    assert(fv[i as int] == (fields@[i as int].0@, fields@[i as int].1@));
                    if i > 0 {
                        push_char(&mut body, ',');
                        push_char(&mut body, '\n');
                    }
                    body.append(inner.as_str());
                    push_char(&mut body, '"');
                    body.append(fields[i].0.as_str());
                    push_char(&mut body, '"');
                    push_char(&mut body, ':');
                    push_char(&mut body, ' ');
                    let value = fields[i].1.render(inner.as_str());
                    body.append(value.as_str());
                    proof {
                        let t = fv.take(i + 1);
                        assert(t.drop_last() =~= fv.take(i as int));
                        assert(t.last() == fv[i as int]);
                        if i == 0 {
                            assert(fv.take(0) =~= Seq::<(Seq<char>, JView)>::empty());
                        }
                    }
                    i = i + 1;
                }
                assert(fv.take(fields@.len() as int) =~= fv);
                let mut r = String::new();
                push_char(&mut r, '{');
                push_char(&mut r, '\n');
                r.append(body.as_str());
                push_char(&mut r, '\n');
                r.append(pad);
                push_char(&mut r, '}');
                r
            },
            J::Arr(items) => {
                if items.len() == 0 {
                    let mut r = String::new();
                    push_char(&mut r, '[');
                    push_char(&mut r, ']');
                    return r;
                }
                let ghost iv = self@->Arr_0;
                let inner = concat2(pad, "  ");
                let mut body = String::new();
                let mut i: usize = 0;
                while i < items.len()
                    invariant
                        *self === J::Arr(*items),
                        iv == self@->Arr_0,
                        iv.len() == items@.len(),
                        i <= items@.len(),
                        inner@ == pad@ + "  "@,
                        body@ == render_items(iv.take(i as int), inner@),
                    decreases items@.len() - i,
                {
                    proof {
                        assert(decreases_to!(*self => self->Arr_0));
                        assert(decreases_to!(self->Arr_0 => self->Arr_0@));
                        assert(decreases_to!(self->Arr_0@ => self->Arr_0@[i as int]));
                    }
                    assert(iv[i as int] == items@[i as int]@);
                    if i > 0 {
                        push_char(&mut body, ',');
                        push_char(&mut body, '\n');
                    }
                    body.append(inner.as_str());
                    let value = items[i].render(inner.as_str());
                    body.append(value.as_str());
                    proof {
                        let t = iv.take(i + 1);
                        assert(t.drop_last() =~= iv.take(i as int));
                        assert(t.last() == iv[i as int]);
                        if i == 0 {
                            assert(iv.take(0) =~= Seq::<JView>::empty());
                        }
                    }
                    i = i + 1;
                }
                assert(iv.take(items@.len() as int) =~= iv);
                let mut r = String::new();
                push_char(&mut r, '[');
                push_char(&mut r, '\n');
                r.append(body.as_str());
                push_char(&mut r, '\n');
                r.append(pad);
                push_char(&mut r, ']');
                r
            },
        }
    }

    /// The text the walkthrough prints for the view.
    pub fn show(&self) -> (r: String)
        ensures
            r@ == render(self@, Seq::empty()),
    {
        proof {
            reveal_strlit("");
            assert(""@ =~= Seq::<char>::empty());
        }
        self.render("")
    }
}

/// The views of object entries.
pub open spec fn fields_views(fields: Seq<(String, J)>) -> Seq<(Seq<char>, JView)> {
    fields.map_values(|p: (String, J)| (p.0@, p.1@))
}

/// The views of array items.
pub open spec fn items_views(items: Seq<J>) -> Seq<JView> {
    items.map_values(|j: J| j@)
}

/// An object view of the given entries.
pub fn obj(fields: Vec<(String, J)>) -> (r: J)
    ensures
        r@ == JView::Obj(fields_views(fields@)),
{
    let ghost fv = fields_views(fields@);
    let r = J::Obj(fields);
    assert(r@->Obj_0 =~= fv);
    r
}

/// An array view of the given items.
pub fn arr(items: Vec<J>) -> (r: J)
    ensures
        r@ == JView::Arr(items_views(items@)),
{
    let ghost iv = items_views(items@);
    let r = J::Arr(items);
    assert(r@->Arr_0 =~= iv);
    r
}

// ---------------------------------------------------------------------------
// Reading the registry's answers
// ---------------------------------------------------------------------------

/// The value under a path of object keys, null where the path leads
/// nowhere (a JSON pointer made of key steps).
pub open spec fn at_path(v: JsonValue, path: Seq<Seq<char>>) -> JsonValue
    decreases path.len(),
{
    if path.len() == 0 {
        v
    } else {
        at_path(field_or_null(v, path[0]), path.drop_first())
    }
}

/// The first item of an array (the `/0` step of a JSON pointer; on an
/// object, its `"0"` entry), null when there is none.
pub open spec fn first_of(v: JsonValue) -> JsonValue {
    match v {
        JsonValue::Array(items) => if items.len() > 0 {
            items[0]
        } else {
            JsonValue::Null
        },
        JsonValue::Object(e) => match spec_get(e, "0"@) {
            Some(x) => x,
            None => JsonValue::Null,
        },
        _ => JsonValue::Null,
    }
}

/// The text of a string value, empty for anything else.
pub open spec fn text_of(v: JsonValue) -> Seq<char> {
    match v {
        JsonValue::Str(t) => t,
        _ => Seq::empty(),
    }
}

/// The items of an array field (none when it is not an array).
pub open spec fn array_field(v: JsonValue, k: Seq<char>) -> Seq<JsonValue> {
    match field(v, k) {
        Some(JsonValue::Array(items)) => items,
        _ => Seq::empty(),
    }
}

/// The value a possibly absent value stands for (null when absent).
pub open spec fn or_null(v: Option<&Json>) -> JsonValue {
    match v {
        Some(x) => x@,
        None => JsonValue::Null,
    }
}

fn step<'a>(v: Option<&'a Json>, key: &str) -> (r: Option<&'a Json>)
    ensures
        or_null(r) == field_or_null(or_null(v), key@),
{
    match v {
        Some(x) => x.get(key),
        None => None,
    }
}

fn owned_or_null(v: Option<&Json>) -> (r: Json)
    ensures
        r@ == or_null(v),
{
    match v {
        Some(x) => x.copy(),
        None => Json::Null,
    }
}

fn path3(v: &Json, a: &str, b: &str, c: &str) -> (r: Json)
    ensures
        r@ == at_path(v@, seq![a@, b@, c@]),
{
    let x = step(Some(v), a);
    let y = step(x, b);
    let z = step(y, c);
    proof {
        reveal_with_fuel(at_path, 4);
        let p = seq![a@, b@, c@];
        assert(p.drop_first() =~= seq![b@, c@]);
        assert(p.drop_first().drop_first() =~= seq![c@]);
        assert(p.drop_first().drop_first().drop_first() =~= Seq::<Seq<char>>::empty());
    }
    owned_or_null(z)
}

fn path4(v: &Json, a: &str, b: &str, c: &str, d: &str) -> (r: Json)
    ensures
        r@ == at_path(v@, seq![a@, b@, c@, d@]),
{
    let x = step(Some(v), a);
    let w = owned_or_null(x);
    let r = path3(&w, b, c, d);
    proof {
        let p = seq![a@, b@, c@, d@];
        assert(p.drop_first() =~= seq![b@, c@, d@]);
    }
    r
}

fn field_value(v: &Json, key: &str) -> (r: Json)
    ensures
        r@ == field_or_null(v@, key@),
{
    owned_or_null(v.get(key))
}

fn text_value(v: &Json) -> (r: String)
    ensures
        r@ == text_of(v@),
{
    match v {
        Json::Str(s) => s.clone(),
        _ => String::new(),
    }
}

/// The first registered service of a discovery answer.
pub open spec fn first_service(doc: JsonValue) -> JsonValue {
    first_of(field_or_null(doc, "services"@))
}

/// The discovery step's view of a service: its identifier, class,
/// jurisdiction, endpoints, operator, and the algorithm and key that
/// signed its descriptor.
pub open spec fn service_view_spec(doc: JsonValue) -> JView {
    let s = first_service(doc);
    JView::Obj(
        seq![
            ("identifier"@, JView::V(field_or_null(s, "identifier"@))),
            ("class"@, JView::V(at_path(s, seq!["version"@, "body"@, "class"@]))),
            ("jurisdiction"@, JView::V(at_path(s, seq!["version"@, "body"@, "jurisdiction"@]))),
            ("endpoints"@, JView::V(at_path(s, seq!["version"@, "body"@, "endpoints"@]))),
            ("operator"@, JView::V(at_path(s, seq!["version"@, "body"@, "operator"@, "id"@]))),
            (
                "signed"@,
                JView::V(
                    JsonValue::Str(
                        text_of(at_path(s, seq!["version"@, "signature"@, "algorithm"@])) + "/"@
                            + text_of(at_path(s, seq!["version"@, "signature"@, "key_id"@])),
                    ),
                ),
            ),
        ],
    )
}

fn first_service_of(doc: &Json) -> (r: Json)
    ensures
        r@ == first_service(doc@),
{
    match doc.get("services") {
        Some(services) => match services {
            Json::Array(items) => if items.len() > 0 {
                assert(services@->Array_0[0] == items@[0]@);
                items[0].copy()
            } else {
                Json::Null
            },
            Json::Object(m) => match m.get("0") {
                Some(x) => x.copy(),
                None => Json::Null,
            },
            _ => Json::Null,
        },
        None => Json::Null,
    }
}

/// The discovery step's view of the first registered service.
pub fn service_view(doc: &Json) -> (r: J)
    ensures
        r@ == service_view_spec(doc@),
{
    let s = first_service_of(doc);
    let mut signed = text_value(&path3(&s, "version", "signature", "algorithm"));
    signed.append("/");
    let key_id = text_value(&path3(&s, "version", "signature", "key_id"));
    signed.append(key_id.as_str());
    let mut fields: Vec<(String, J)> = Vec::new();
    fields.push(("identifier".to_owned(), J::V(field_value(&s, "identifier"))));
    fields.push(("class".to_owned(), J::V(path3(&s, "version", "body", "class"))));
    fields.push(("jurisdiction".to_owned(), J::V(path3(&s, "version", "body", "jurisdiction"))));
    fields.push(("endpoints".to_owned(), J::V(path3(&s, "version", "body", "endpoints"))));
    fields.push(("operator".to_owned(), J::V(path4(&s, "version", "body", "operator", "id"))));
    fields.push(("signed".to_owned(), J::V(Json::Str(signed))));
    let r = obj(fields);
    assert(r@->Obj_0 =~= service_view_spec(doc@)->Obj_0);
    r
}

/// The first applicability step's view: the time asked about and how many
/// bindings apply then.
pub open spec fn applies_count_view_spec(doc: JsonValue) -> JView {
    JView::Obj(
        seq![
            ("at"@, JView::V(field_or_null(doc, "as_of"@))),
            ("applies"@, JView::V(JsonValue::Num(array_field(doc, "applicability"@).len() as int))),
        ],
    )
}

fn array_items<'a>(doc: &'a Json, key: &str) -> (r: Option<&'a Vec<Json>>)
    ensures
        match r {
            Some(v) => v@.len() == array_field(doc@, key@).len() && forall|i: int|
                0 <= i < v@.len() ==> (#[trigger] v@[i])@ == array_field(doc@, key@)[i],
            None => array_field(doc@, key@).len() == 0,
        },
{
    match doc.get(key) {
        Some(a) => a.as_array(),
        None => None,
    }
}

/// The first applicability step's view.
pub fn applies_count_view(doc: &Json) -> (r: J)
    ensures
        r@ == applies_count_view_spec(doc@),
{
    let n: usize = match array_items(doc, "applicability") {
        Some(v) => v.len(),
        None => 0,
    };
    let mut fields: Vec<(String, J)> = Vec::new();
    fields.push(("at".to_owned(), J::V(field_value(doc, "as_of"))));
    fields.push(("applies".to_owned(), J::V(Json::UInt(n as u64))));
    let r = obj(fields);
    assert(r@->Obj_0 =~= applies_count_view_spec(doc@)->Obj_0);
    r
}

/// One binding that applies: its profile, since when, and whether it was
/// retroactive.
pub open spec fn binding_view_spec(entry: JsonValue) -> JView {
    JView::Obj(
        seq![
            ("profile"@, JView::V(at_path(entry, seq!["binding"@, "profile_item"@]))),
            ("from"@, JView::V(at_path(entry, seq!["binding"@, "effective_from"@]))),
            ("retroactive"@, JView::V(at_path(entry, seq!["binding"@, "retroactive"@]))),
        ],
    )
}

/// The second applicability step's view: the time asked about and the
/// bindings in force then.
pub open spec fn applies_view_spec(doc: JsonValue) -> JView {
    JView::Obj(
        seq![
            ("at"@, JView::V(field_or_null(doc, "as_of"@))),
            (
                "applies"@,
                JView::Arr(
                    array_field(doc, "applicability"@).map_values(
                        |e: JsonValue| binding_view_spec(e),
                    ),
                ),
            ),
        ],
    )
}

fn path2(v: &Json, a: &str, b: &str) -> (r: Json)
    ensures
        r@ == at_path(v@, seq![a@, b@]),
{
    let x = step(Some(v), a);
    let y = step(x, b);
    proof {
        reveal_with_fuel(at_path, 3);
        let p = seq![a@, b@];
        assert(p.drop_first() =~= seq![b@]);
        assert(p.drop_first().drop_first() =~= Seq::<Seq<char>>::empty());
    }
    owned_or_null(y)
}

fn binding_view(entry: &Json) -> (r: J)
    ensures
        r@ == binding_view_spec(entry@),
{
    let mut fields: Vec<(String, J)> = Vec::new();
    fields.push(("profile".to_owned(), J::V(path2(entry, "binding", "profile_item"))));
    fields.push(("from".to_owned(), J::V(path2(entry, "binding", "effective_from"))));
    fields.push(("retroactive".to_owned(), J::V(path2(entry, "binding", "retroactive"))));
    let r = obj(fields);
    assert(r@->Obj_0 =~= binding_view_spec(entry@)->Obj_0);
    r
}

/// The second applicability step's view.
pub fn applies_view(doc: &Json) -> (r: J)
    ensures
        r@ == applies_view_spec(doc@),
{
    let ghost ev = array_field(doc@, "applicability"@);
    let mut items: Vec<J> = Vec::new();
    match array_items(doc, "applicability") {
        Some(entries) => {
            let mut i: usize = 0;
            while i < entries.len()
                invariant
                    i <= entries@.len(),
                    ev == array_field(doc@, "applicability"@),
                    entries@.len() == ev.len(),
                    forall|k: int| 0 <= k < entries@.len() ==> (#[trigger] entries@[k])@ == ev[k],
                    items@.len() == i,
                    forall|k: int| 0 <= k < i ==> (#[trigger] items@[k])@ == binding_view_spec(ev[k]),
                decreases entries@.len() - i,
            {
                items.push(binding_view(&entries[i]));
                i = i + 1;
            }
        },
        None => {},
    }
    let list = arr(items);
    assert(list@->Arr_0 =~= ev.map_values(|e: JsonValue| binding_view_spec(e)));
    let mut fields: Vec<(String, J)> = Vec::new();
    fields.push(("at".to_owned(), J::V(field_value(doc, "as_of"))));
    fields.push(("applies".to_owned(), list));
    let r = obj(fields);
    assert(r@->Obj_0 =~= applies_view_spec(doc@)->Obj_0);
    r
}

/// The view of the named fields of a value, in the order named.
pub open spec fn fields_view_spec(v: JsonValue, keys: Seq<Seq<char>>) -> JView {
    JView::Obj(keys.map_values(|k: Seq<char>| (k, JView::V(field_or_null(v, k)))))
}

/// The view of the named fields of a value.
pub fn fields_view(v: &Json, keys: &Vec<&str>) -> (r: J)
    ensures
        r@ == fields_view_spec(v@, keys@.map_values(|k: &str| k@)),
{
    let ghost kv = keys@.map_values(|k: &str| k@);
    let mut fields: Vec<(String, J)> = Vec::new();
    let mut i: usize = 0;
    while i < keys.len()
        invariant
            i <= keys@.len(),
            kv == keys@.map_values(|k: &str| k@),
            fields_views(fields@) == kv.take(i as int).map_values(
                |k: Seq<char>| (k, JView::V(field_or_null(v@, k))),
            ),
        decreases keys@.len() - i,
    {
        let ghost before = fields_views(fields@);
        fields.push((keys[i].to_owned(), J::V(field_value(v, keys[i]))));
        assert(fields_views(fields@) =~= before.push((kv[i as int], JView::V(field_or_null(v@, kv[i as int])))));
        assert(kv.take(i + 1).map_values(|k: Seq<char>| (k, JView::V(field_or_null(v@, k))))
            =~= kv.take(i as int).map_values(|k: Seq<char>| (k, JView::V(field_or_null(v@, k)))).push(
            (kv[i as int], JView::V(field_or_null(v@, kv[i as int]))),
        ));
        i = i + 1;
    }
    assert(kv.take(keys@.len() as int) =~= kv);
    obj(fields)
}

/// The keys of a version's lifecycle view.
pub fn lifecycle_keys() -> (r: Vec<&'static str>)
    ensures
        r@.map_values(|k: &str| k@) == seq!["version"@, "status"@, "effective_from"@],
{
    let mut r: Vec<&'static str> = Vec::new();
    r.push("version");
    r.push("status");
    r.push("effective_from");
    assert(r@.map_values(|k: &str| k@) =~= seq!["version"@, "status"@, "effective_from"@]);
    r
}

/// The keys of a version's supersession view.
pub fn supersession_keys() -> (r: Vec<&'static str>)
    ensures
        r@.map_values(|k: &str| k@) == seq![
            "version"@,
            "status"@,
            "superseded_by_version"@,
            "window_end"@,
        ],
{
    let mut r: Vec<&'static str> = Vec::new();
    r.push("version");
    r.push("status");
    r.push("superseded_by_version");
    r.push("window_end");
    assert(r@.map_values(|k: &str| k@) =~= seq![
        "version"@,
        "status"@,
        "superseded_by_version"@,
        "window_end"@,
    ]);
    r
}

/// The view of a data element answer's version: the named fields of its
/// `version`.
pub fn version_view(doc: &Json, keys: &Vec<&str>) -> (r: J)
    ensures
        r@ == fields_view_spec(field_or_null(doc@, "version"@), keys@.map_values(|k: &str| k@)),
{
    let version = field_value(doc, "version");
    fields_view(&version, keys)
}

/// The supersession chain's view: each version with its status, its
/// successor and the end of its window.
pub open spec fn chain_view_spec(doc: JsonValue) -> JView {
    JView::Obj(
        seq![
            (
                "chain"@,
                JView::Arr(
                    array_field(doc, "chain"@).map_values(
                        |e: JsonValue|
                            fields_view_spec(
                                e,
                                seq!["version"@, "status"@, "superseded_by_version"@, "window_end"@],
                            ),
                    ),
                ),
            ),
        ],
    )
}

/// The supersession chain's view.
pub fn chain_view(doc: &Json) -> (r: J)
    ensures
        r@ == chain_view_spec(doc@),
{
    let ghost ev = array_field(doc@, "chain"@);
    let keys = supersession_keys();
    let ghost ks = seq!["version"@, "status"@, "superseded_by_version"@, "window_end"@];
    let mut items: Vec<J> = Vec::new();
    match array_items(doc, "chain") {
        Some(entries) => {
            let mut i: usize = 0;
            while i < entries.len()
                invariant
                    i <= entries@.len(),
                    ev == array_field(doc@, "chain"@),
                    keys@.map_values(|k: &str| k@) == ks,
                    ks == seq!["version"@, "status"@, "superseded_by_version"@, "window_end"@],
                    entries@.len() == ev.len(),
                    forall|k: int| 0 <= k < entries@.len() ==> (#[trigger] entries@[k])@ == ev[k],
                    items@.len() == i,
                    forall|k: int| 0 <= k < i ==> (#[trigger] items@[k])@ == fields_view_spec(ev[k], ks),
                decreases entries@.len() - i,
            {
                items.push(fields_view(&entries[i], &keys));
                i = i + 1;
            }
        },
        None => {},
    }
    let list = arr(items);
    assert(list@->Arr_0 =~= ev.map_values(|e: JsonValue| fields_view_spec(e, ks)));
    let mut fields: Vec<(String, J)> = Vec::new();
    fields.push(("chain".to_owned(), list));
    let r = obj(fields);
    assert(r@->Obj_0 =~= chain_view_spec(doc@)->Obj_0);
    r
}

// ---------------------------------------------------------------------------
// Between the steps
// ---------------------------------------------------------------------------

/// The admin token for the supersession step: the token file's text
/// trimmed, when it holds one; else `KIT_ADMIN_TOKEN` when set and not
/// empty; else none (empty).
pub fn demo_token(file_text: Option<&str>, env_token: Option<&str>) -> (r: String)
    ensures
        r@ == match file_text {
            Some(t) if trim_spec(t@).len() > 0 => trim_spec(t@),
            _ => match env_token {
                Some(e) if e@.len() > 0 => e@,
                _ => Seq::empty(),
            },
        },
{
    match file_text {
        Some(t) => {
            let trimmed = trim(t);
            if !trimmed.as_str().is_empty() {
                return trimmed;
            }
        },
        None => {},
    }
    match env_token {
        Some(e) => if !e.is_empty() {
            e.to_owned()
        } else {
            String::new()
        },
        None => String::new(),
    }
}

/// The request body that registers version 2.0.0 of the element.
pub open spec fn new_version_pairs() -> Seq<(Seq<char>, JsonValue)> {
    seq![
        ("version"@, JsonValue::Str("2.0.0"@)),
        (
            "reason"@,
            JsonValue::Str("align representation with ESDC data-space conventions; pin unit identity"@),
        ),
        ("effective_from"@, JsonValue::Str("2028-01-01T00:00:00Z"@)),
    ]
}

/// The request body that registers version 2.0.0 of the element.
pub fn new_version_body() -> (r: Json)
    ensures
        r@ == JsonValue::Object(object_from(new_version_pairs())),
{
    let mut pairs: Vec<(String, Json)> = Vec::new();
    pairs.push(("version".to_owned(), Json::str("2.0.0")));
    pairs.push(
        (
            "reason".to_owned(),
            Json::str("align representation with ESDC data-space conventions; pin unit identity"),
        ),
    );
    pairs.push(("effective_from".to_owned(), Json::str("2028-01-01T00:00:00Z")));
    assert(pairs_view(pairs@) =~= new_version_pairs());
    json_object(pairs)
}

/// What the answer to the new version means: created (the old version is
/// superseded), already there (a re-run), or anything else, which ends
/// the walkthrough.
pub fn supersession_outcome(status: u16) -> (r: Result<String, String>)
    ensures
        status == 201 ==> (r matches Ok(line) && line@ == "   201 Created — old version superseded"@),
        status == 409 ==> (r matches Ok(line) && line@
            == "   409 — v2.0.0 already registered (idempotent re-run)"@),
        status != 201 && status != 409 ==> (r matches Err(line) && line@ == "   unexpected HTTP "@
            + crate::text::decimal(status as nat)),
{
    if status == 201 {
        Ok("   201 Created — old version superseded".to_owned())
    } else if status == 409 {
        Ok("   409 — v2.0.0 already registered (idempotent re-run)".to_owned())
    } else {
        let mut e = "   unexpected HTTP ".to_owned();
        crate::text::push_decimal(&mut e, status as u64);
        Err(e)
    }
}

/// The routes the registry's root lists (the string values of its
/// `endpoints` object, in key order), one line each.
pub open spec fn route_lines(doc: JsonValue) -> Seq<Seq<char>> {
    match field(doc, "endpoints"@) {
        Some(JsonValue::Object(entries)) => entries.map_values(|e: (Seq<char>, JsonValue)| e.1).filter(
            |v: JsonValue| v is Str,
        ).map_values(|v: JsonValue| "   "@ + text_of(v)),
        _ => Seq::empty(),
    }
}

/// The route lines of the registry's root document.
pub fn routes(doc: &Json) -> (r: Vec<String>)
    ensures
        strings_view(r@) == route_lines(doc@),
{
    let mut r: Vec<String> = Vec::new();
    match doc.get("endpoints") {
        Some(e) => match e {
            Json::Object(m) => {
                let entries = m.entries();
                let ghost ev = m@;
                let ghost vals = ev.map_values(|e: (Seq<char>, JsonValue)| e.1);
                let ghost f = |v: JsonValue| v is Str;
                let mut i: usize = 0;
                while i < entries.len()
                    invariant
                        i <= entries@.len(),
                        ev == m@,
                        vals == ev.map_values(|e: (Seq<char>, JsonValue)| e.1),
                        f == (|v: JsonValue| v is Str),
                        ev.len() == entries@.len(),
                        forall|j: int|
                            0 <= j < entries@.len() ==> (#[trigger] entries@[j].0@, entries@[j].1@)
                                == ev[j],
                        strings_view(r@) == vals.take(i as int).filter(f).map_values(
                            |v: JsonValue| "   "@ + text_of(v),
                        ),
                    decreases entries@.len() - i,
                {
                    let ghost before = strings_view(r@);
                    proof {
                        vals.take(i as int).lemma_filter_push(vals[i as int], f);
                        assert(vals.take(i + 1) =~= vals.take(i as int).push(vals[i as int]));
                        assert((entries@[i as int].0@, entries@[i as int].1@) == ev[i as int]);
                        assert(vals[i as int] == entries@[i as int].1@);
                    }
                    match &entries[i].1 {
                        Json::Str(route) => {
                            r.push(concat2("   ", route.as_str()));
                            assert(strings_view(r@) =~= before.push("   "@ + route@));
                            assert(vals.take(i as int).filter(f).push(vals[i as int]).map_values(
                                |v: JsonValue| "   "@ + text_of(v),
                            ) =~= vals.take(i as int).filter(f).map_values(
                                |v: JsonValue| "   "@ + text_of(v),
                            ).push("   "@ + route@));
                        },
                        _ => {},
                    }
                    i = i + 1;
                }
                assert(vals.take(entries@.len() as int) =~= vals);
            },
            _ => {},
        },
        None => {},
    }
    r
}

/// The first 200 characters of an answer's body.
pub fn body_preview(body: &str) -> (r: String)
    ensures
        r@ == crate::seeding::preview(body@, 200),
{
    take_chars(body, 200)
}

/// The discovery query for a jurisdiction's registry service.
pub fn services_query(jurisdiction: &str) -> (r: String)
    ensures
        r@ == "/services?jurisdiction="@ + jurisdiction@ + "&class=registry"@,
{
    concat3("/services?jurisdiction=", jurisdiction, "&class=registry")
}

/// The section rule: a line of `=` as wide as the banner.
pub fn rule() -> (r: String)
    ensures
        r@ == Seq::new(BANNER as nat, |i: int| '='),
{
    let mut r = String::new();
    let mut i: usize = 0;
    while i < BANNER
        invariant
            i <= BANNER,
            r@ == Seq::new(i as nat, |k: int| '='),
        decreases BANNER - i,
    {
        push_char(&mut r, '=');
        assert(r@ =~= Seq::new((i + 1) as nat, |k: int| '='));
        i = i + 1;
    }
    r
}

} // verus!
