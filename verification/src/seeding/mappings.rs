//! The GB 4943.1-2022 ↔ IEC 62368-1 equivalence as a cross-register
//! mapping item: both endpoint items first (referential integrity), then
//! the mapping, then its verification through the directional lookups.

use vstd::prelude::*;

use crate::json::{field, json_object, object_from, pairs_view, Json, JsonValue};
use crate::kit::{args_view, Kit};
use crate::seeding::{parse_seed_args, seed_options, SeedArgs, SeedArgsView};
use crate::seeding::{audit_seq, audit_seq_text, failure, failure_message};
use crate::seeding::{end_view, finish_action, SeedAction, SeedActionView};
use crate::tally::strings_view;
use crate::text::{decimal, push_char, push_decimal, str_eq};

verus! {

pub const USAGE: &'static str = "usage: unidpp-kit seed-mappings [--register R] [--port N] [--bind ADDR] [--base-url URL] [--admin-token T] [--token-file PATH]";

pub const MAPPING_ID: &'static str = "urn:unidpp:map:gb4943-iec62368";

pub const SUBMITTING_ORG: &'static str = "unidpp-registry-kit — GB↔IEC equivalence seed (cross-register-mapping class)";

/// The shared name of both standards.
pub open spec fn standard_name() -> Seq<char> {
    "Audio/video, information and communication technology equipment — Part 1: Safety requirements"@
}

/// One endpoint item of the mapping.
pub open spec fn endpoint_pairs(
    register: Seq<char>,
    item: Seq<char>,
    definition: Seq<char>,
    version: Seq<char>,
    organization: Seq<char>,
    designation: Seq<char>,
) -> Seq<(Seq<char>, JsonValue)> {
    seq![
        ("register_id"@, JsonValue::Str(register)),
        ("item_id"@, JsonValue::Str(item)),
        ("class"@, JsonValue::Str("data-element"@)),
        ("definition"@, JsonValue::Str(definition)),
        ("version"@, JsonValue::Str(version)),
        ("submitting_organization"@, JsonValue::Str(organization)),
        ("manifest"@, JsonValue::Object(
            object_from(
                seq![
                    ("version"@, JsonValue::Str(version)),
                    ("designation"@, JsonValue::Str(designation)),
                    ("name"@, JsonValue::Str(standard_name())),
                ],
            ),
        )),
    ]
}

/// The GB endpoint.
pub open spec fn gb_endpoint() -> JsonValue {
    JsonValue::Object(
        object_from(
            endpoint_pairs(
                "gb-std"@,
                "gb-4943-1"@,
                "GB 4943.1-2022 — audio/video, information and communication technology equipment, part 1: safety requirements (Chinese national standard)"@,
                "2022"@,
                "SAC (Standardization Administration of China)"@,
                "GB 4943.1-2022"@,
            ),
        ),
    )
}

/// The IEC endpoint.
pub open spec fn iec_endpoint() -> JsonValue {
    JsonValue::Object(
        object_from(
            endpoint_pairs(
                "iec"@,
                "iec-62368-1"@,
                "IEC 62368-1 — audio/video, information and communication technology equipment, part 1: safety requirements (international standard)"@,
                "2018"@,
                "IEC/TC 108"@,
                "IEC 62368-1:2018"@,
            ),
        ),
    )
}

fn endpoint(
    register: &str,
    item: &str,
    definition: &str,
    version: &str,
    organization: &str,
    designation: &str,
) -> (r: Json)
    ensures
        r@ == JsonValue::Object(
            object_from(
                endpoint_pairs(register@, item@, definition@, version@, organization@, designation@),
            ),
        ),
{
    let mut manifest: Vec<(String, Json)> = Vec::new();
    manifest.push(("version".to_owned(), Json::str(version)));
    manifest.push(("designation".to_owned(), Json::str(designation)));
    manifest.push(
        (
            "name".to_owned(),
            Json::str(
                "Audio/video, information and communication technology equipment — Part 1: Safety requirements",
            ),
        ),
    );
    assert(pairs_view(manifest@) =~= seq![
        ("version"@, JsonValue::Str(version@)),
        ("designation"@, JsonValue::Str(designation@)),
        ("name"@, JsonValue::Str(standard_name())),
    ]);
    let mut pairs: Vec<(String, Json)> = Vec::new();
    pairs.push(("register_id".to_owned(), Json::str(register)));
    pairs.push(("item_id".to_owned(), Json::str(item)));
    pairs.push(("class".to_owned(), Json::str("data-element")));
    pairs.push(("definition".to_owned(), Json::str(definition)));
    pairs.push(("version".to_owned(), Json::str(version)));
    pairs.push(("submitting_organization".to_owned(), Json::str(organization)));
    pairs.push(("manifest".to_owned(), json_object(manifest)));
    assert(pairs_view(pairs@) =~= endpoint_pairs(
        register@,
        item@,
        definition@,
        version@,
        organization@,
        designation@,
    ));
    json_object(pairs)
}

/// The two endpoint items, GB first.
pub fn endpoints() -> (r: Vec<Json>)
    ensures
        r@.len() == 2,
        r@[0]@ == gb_endpoint(),
        r@[1]@ == iec_endpoint(),
{
    let mut r: Vec<Json> = Vec::new();
    r.push(
        endpoint(
            "gb-std",
            "gb-4943-1",
            "GB 4943.1-2022 — audio/video, information and communication technology equipment, part 1: safety requirements (Chinese national standard)",
            "2022",
            "SAC (Standardization Administration of China)",
            "GB 4943.1-2022",
        ),
    );
    r.push(
        endpoint(
            "iec",
            "iec-62368-1",
            "IEC 62368-1 — audio/video, information and communication technology equipment, part 1: safety requirements (international standard)",
            "2018",
            "IEC/TC 108",
            "IEC 62368-1:2018",
        ),
    );
    r
}

/// The mapping item itself.
pub open spec fn mapping_pairs(register: Seq<char>) -> Seq<(Seq<char>, JsonValue)> {
    seq![
        ("register_id"@, JsonValue::Str(register)),
        ("item_id"@, JsonValue::Str(MAPPING_ID@)),
        ("definition"@, JsonValue::Str(
            "GB 4943.1-2022 corresponds to IEC 62368-1 for the purposes of charger conformity evidence"@,
        )),
        ("version"@, JsonValue::Str("1.0.0"@)),
        ("effective_from"@, JsonValue::Str("2026-09-01T00:00:00Z"@)),
        ("submitting_organization"@, JsonValue::Str(SUBMITTING_ORG@)),
        ("manifest"@, JsonValue::Object(object_from(mapping_manifest()))),
    ]
}

/// The mapping's manifest: the named source and target, the mapping type
/// and the attester.
pub open spec fn mapping_manifest() -> Seq<(Seq<char>, JsonValue)> {
    seq![
        ("version"@, JsonValue::Str("1.0.0"@)),
        ("source"@, JsonValue::Object(
            object_from(
                seq![
                    ("register"@, JsonValue::Str("gb-std"@)),
                    ("item"@, JsonValue::Str("gb-4943-1"@)),
                    ("version"@, JsonValue::Str("2022"@)),
                ],
            ),
        )),
        ("target"@, JsonValue::Object(
            object_from(
                seq![
                    ("register"@, JsonValue::Str("iec"@)),
                    ("item"@, JsonValue::Str("iec-62368-1"@)),
                ],
            ),
        )),
        ("mapping_type"@, JsonValue::Str("equivalent"@)),
        ("attester"@, JsonValue::Str("CQC-pattern notified body"@)),
    ]
}

/// The `POST /cross-register-mappings` body of the equivalence.
pub fn mapping_registration(register: &str) -> (r: Json)
    ensures
        r@ == JsonValue::Object(object_from(mapping_pairs(register@))),
{
    let mut source: Vec<(String, Json)> = Vec::new();
    source.push(("register".to_owned(), Json::str("gb-std")));
    source.push(("item".to_owned(), Json::str("gb-4943-1")));
    source.push(("version".to_owned(), Json::str("2022")));
    assert(pairs_view(source@) =~= seq![
        ("register"@, JsonValue::Str("gb-std"@)),
        ("item"@, JsonValue::Str("gb-4943-1"@)),
        ("version"@, JsonValue::Str("2022"@)),
    ]);
    let mut target: Vec<(String, Json)> = Vec::new();
    target.push(("register".to_owned(), Json::str("iec")));
    target.push(("item".to_owned(), Json::str("iec-62368-1")));
    assert(pairs_view(target@) =~= seq![
        ("register"@, JsonValue::Str("iec"@)),
        ("item"@, JsonValue::Str("iec-62368-1"@)),
    ]);
    let mut manifest: Vec<(String, Json)> = Vec::new();
    manifest.push(("version".to_owned(), Json::str("1.0.0")));
    manifest.push(("source".to_owned(), json_object(source)));
    manifest.push(("target".to_owned(), json_object(target)));
    manifest.push(("mapping_type".to_owned(), Json::str("equivalent")));
    manifest.push(("attester".to_owned(), Json::str("CQC-pattern notified body")));
    assert(pairs_view(manifest@) =~= mapping_manifest());
    let mut pairs: Vec<(String, Json)> = Vec::new();
    pairs.push(("register_id".to_owned(), Json::str(register)));
    pairs.push(("item_id".to_owned(), Json::str(MAPPING_ID)));
    pairs.push(
        (
            "definition".to_owned(),
            Json::str(
                "GB 4943.1-2022 corresponds to IEC 62368-1 for the purposes of charger conformity evidence",
            ),
        ),
    );
    pairs.push(("version".to_owned(), Json::str("1.0.0")));
    pairs.push(("effective_from".to_owned(), Json::str("2026-09-01T00:00:00Z")));
    pairs.push(("submitting_organization".to_owned(), Json::str(SUBMITTING_ORG)));
    pairs.push(("manifest".to_owned(), json_object(manifest)));
    assert(pairs_view(pairs@) =~= mapping_pairs(register@));
    json_object(pairs)
}

/// Referential integrity of the seeded mapping: each side that the
/// mapping's manifest names (a register and an item) is the register and
/// item of one of the endpoint items registered before it, whatever
/// register the mapping itself goes into.
pub proof fn lemma_mapping_sides_are_registered(register: Seq<char>)
    ensures
        ({
            let manifest = crate::json::field_or_null(
                JsonValue::Object(object_from(mapping_pairs(register))),
                "manifest"@,
            );
            let source = crate::json::field_or_null(manifest, "source"@);
            let target = crate::json::field_or_null(manifest, "target"@);
            &&& field(source, "register"@) is Some
            &&& field(source, "item"@) is Some
            &&& field(target, "register"@) is Some
            &&& field(target, "item"@) is Some
            &&& field(gb_endpoint(), "register_id"@) == field(source, "register"@)
            &&& field(gb_endpoint(), "item_id"@) == field(source, "item"@)
            &&& field(iec_endpoint(), "register_id"@) == field(target, "register"@)
            &&& field(iec_endpoint(), "item_id"@) == field(target, "item"@)
        }),
{
    reveal_strlit("register_id");
    reveal_strlit("item_id");
    reveal_strlit("class");
    reveal_strlit("definition");
    reveal_strlit("version");
    reveal_strlit("submitting_organization");
    reveal_strlit("manifest");
    reveal_strlit("effective_from");
    reveal_strlit("source");
    reveal_strlit("target");
    reveal_strlit("mapping_type");
    reveal_strlit("attester");
    reveal_strlit("register");
    reveal_strlit("item");
    reveal_with_fuel(crate::json::last_value, 8);
    assert("register_id"@.len() != "item_id"@.len());
    assert("register_id"@.len() != "class"@.len());
    assert("register_id"@.len() != "definition"@.len());
    assert("register_id"@.len() != "version"@.len());
    assert("register_id"@.len() != "submitting_organization"@.len());
    assert("register_id"@.len() != "manifest"@.len());
    assert("register_id"@.len() != "effective_from"@.len());
    assert("register_id"@.len() != "source"@.len());
    assert("register_id"@.len() != "target"@.len());
    assert("register_id"@.len() != "mapping_type"@.len());
    assert("register_id"@.len() != "attester"@.len());
    assert("register_id"@.len() != "register"@.len());
    assert("register_id"@.len() != "item"@.len());
    assert("item_id"@.len() != "class"@.len());
    assert("item_id"@.len() != "definition"@.len());
    assert("item_id"@[0] != "version"@[0]);
    assert("item_id"@.len() != "submitting_organization"@.len());
    assert("item_id"@.len() != "manifest"@.len());
    assert("item_id"@.len() != "effective_from"@.len());
    assert("item_id"@.len() != "source"@.len());
    assert("item_id"@.len() != "target"@.len());
    assert("item_id"@.len() != "mapping_type"@.len());
    assert("item_id"@.len() != "attester"@.len());
    assert("item_id"@.len() != "register"@.len());
    assert("item_id"@.len() != "item"@.len());
    assert("class"@.len() != "definition"@.len());
    assert("class"@.len() != "version"@.len());
    assert("class"@.len() != "submitting_organization"@.len());
    assert("class"@.len() != "manifest"@.len());
    assert("class"@.len() != "effective_from"@.len());
    assert("class"@.len() != "source"@.len());
    assert("class"@.len() != "target"@.len());
    assert("class"@.len() != "mapping_type"@.len());
    assert("class"@.len() != "attester"@.len());
    assert("class"@.len() != "register"@.len());
    assert("class"@.len() != "item"@.len());
    assert("definition"@.len() != "version"@.len());
    assert("definition"@.len() != "submitting_organization"@.len());
    assert("definition"@.len() != "manifest"@.len());
    assert("definition"@.len() != "effective_from"@.len());
    assert("definition"@.len() != "source"@.len());
    assert("definition"@.len() != "target"@.len());
    assert("definition"@.len() != "mapping_type"@.len());
    assert("definition"@.len() != "attester"@.len());
    assert("definition"@.len() != "register"@.len());
    assert("definition"@.len() != "item"@.len());
    assert("version"@.len() != "submitting_organization"@.len());
    assert("version"@.len() != "manifest"@.len());
    assert("version"@.len() != "effective_from"@.len());
    assert("version"@.len() != "source"@.len());
    assert("version"@.len() != "target"@.len());
    assert("version"@.len() != "mapping_type"@.len());
    assert("version"@.len() != "attester"@.len());
    assert("version"@.len() != "register"@.len());
    assert("version"@.len() != "item"@.len());
    assert("submitting_organization"@.len() != "manifest"@.len());
    assert("submitting_organization"@.len() != "effective_from"@.len());
    assert("submitting_organization"@.len() != "source"@.len());
    assert("submitting_organization"@.len() != "target"@.len());
    assert("submitting_organization"@.len() != "mapping_type"@.len());
    assert("submitting_organization"@.len() != "attester"@.len());
    assert("submitting_organization"@.len() != "register"@.len());
    assert("submitting_organization"@.len() != "item"@.len());
    assert("manifest"@.len() != "effective_from"@.len());
    assert("manifest"@.len() != "source"@.len());
    assert("manifest"@.len() != "target"@.len());
    assert("manifest"@.len() != "mapping_type"@.len());
    assert("manifest"@[0] != "attester"@[0]);
    assert("manifest"@[0] != "register"@[0]);
    assert("manifest"@.len() != "item"@.len());
    assert("effective_from"@.len() != "source"@.len());
    assert("effective_from"@.len() != "target"@.len());
    assert("effective_from"@.len() != "mapping_type"@.len());
    assert("effective_from"@.len() != "attester"@.len());
    assert("effective_from"@.len() != "register"@.len());
    assert("effective_from"@.len() != "item"@.len());
    assert("source"@[0] != "target"@[0]);
    assert("source"@.len() != "mapping_type"@.len());
    assert("source"@.len() != "attester"@.len());
    assert("source"@.len() != "register"@.len());
    assert("source"@.len() != "item"@.len());
    assert("target"@.len() != "mapping_type"@.len());
    assert("target"@.len() != "attester"@.len());
    assert("target"@.len() != "register"@.len());
    assert("target"@.len() != "item"@.len());
    assert("mapping_type"@.len() != "attester"@.len());
    assert("mapping_type"@.len() != "register"@.len());
    assert("mapping_type"@.len() != "item"@.len());
    assert("attester"@[0] != "register"@[0]);
    assert("attester"@.len() != "item"@.len());
    assert("register"@.len() != "item"@.len());
    let mp = mapping_pairs(register);
    crate::json::lemma_object_from_get(mp, "manifest"@);
    let mm = mapping_manifest();
    crate::json::lemma_object_from_get(mm, "source"@);
    crate::json::lemma_object_from_get(mm, "target"@);
    let src = seq![
        ("register"@, JsonValue::Str("gb-std"@)),
        ("item"@, JsonValue::Str("gb-4943-1"@)),
        ("version"@, JsonValue::Str("2022"@)),
    ];
    let tgt = seq![
        ("register"@, JsonValue::Str("iec"@)),
        ("item"@, JsonValue::Str("iec-62368-1"@)),
    ];
    crate::json::lemma_object_from_get(src, "register"@);
    crate::json::lemma_object_from_get(src, "item"@);
    crate::json::lemma_object_from_get(tgt, "register"@);
    crate::json::lemma_object_from_get(tgt, "item"@);
    let gb = endpoint_pairs(
        "gb-std"@,
        "gb-4943-1"@,
        "GB 4943.1-2022 — audio/video, information and communication technology equipment, part 1: safety requirements (Chinese national standard)"@,
        "2022"@,
        "SAC (Standardization Administration of China)"@,
        "GB 4943.1-2022"@,
    );
    let iec = endpoint_pairs(
        "iec"@,
        "iec-62368-1"@,
        "IEC 62368-1 — audio/video, information and communication technology equipment, part 1: safety requirements (international standard)"@,
        "2018"@,
        "IEC/TC 108"@,
        "IEC 62368-1:2018"@,
    );
    crate::json::lemma_object_from_get(gb, "register_id"@);
    crate::json::lemma_object_from_get(gb, "item_id"@);
    crate::json::lemma_object_from_get(iec, "register_id"@);
    crate::json::lemma_object_from_get(iec, "item_id"@);
    assert(crate::json::last_value(mp, "manifest"@) == Some(JsonValue::Object(object_from(mm))));
    assert(crate::json::last_value(mm, "source"@) == Some(JsonValue::Object(object_from(src))));
    assert(crate::json::last_value(mm, "target"@) == Some(JsonValue::Object(object_from(tgt))));
    assert(crate::json::last_value(src, "register"@) == Some(JsonValue::Str("gb-std"@)));
    assert(crate::json::last_value(src, "item"@) == Some(JsonValue::Str("gb-4943-1"@)));
    assert(crate::json::last_value(tgt, "register"@) == Some(JsonValue::Str("iec"@)));
    assert(crate::json::last_value(gb, "register_id"@) == Some(JsonValue::Str("gb-std"@)));
    assert(crate::json::last_value(gb, "item_id"@) == Some(JsonValue::Str("gb-4943-1"@)));
    assert(crate::json::last_value(iec, "register_id"@) == Some(JsonValue::Str("iec"@)));
    assert(crate::json::last_value(iec, "item_id"@) == Some(JsonValue::Str("iec-62368-1"@)));
}

/// The item id a registration body names (`""` when it names none).
pub open spec fn item_id_of(body: JsonValue) -> Seq<char> {
    match field(body, "item_id"@) {
        Some(JsonValue::Str(s)) => s,
        _ => Seq::empty(),
    }
}

/// The item id of a registration body.
pub fn body_item_id(body: &Json) -> (r: String)
    ensures
        r@ == item_id_of(body@),
{
    match body.get("item_id") {
        Some(v) => match v.as_str() {
            Some(s) => s.to_owned(),
            None => String::new(),
        },
        None => String::new(),
    }
}

/// What the registry's answer to an item registration means.
pub fn item_outcome(item_id: &str, status: u16, resp: &Json) -> (r: Result<String, String>)
    ensures
        status == 201 ==> r is Ok && r->Ok_0@ == "registered "@ + item_id@ + " (audit_seq "@
            + audit_seq(resp@) + ")"@,
        status == 409 ==> r is Ok && r->Ok_0@ == "already registered "@ + item_id@,
        status != 201 && status != 409 ==> r is Err && r->Err_0@ == failure(
            "item `"@ + item_id@ + "` failed"@,
            status,
            resp@,
        ),
{
    if status == 201 {
        let mut line = crate::text::concat3("registered ", item_id, " (audit_seq ");
        let seq_text = audit_seq_text(resp);
        line.append(seq_text.as_str());
        line.append(")");
        Ok(line)
    } else if status == 409 {
        Ok(crate::text::concat2("already registered ", item_id))
    } else {
        let what = crate::text::concat3("item `", item_id, "` failed");
        Err(failure_message(what.as_str(), status, resp))
    }
}

// ---------------------------------------------------------------------------
// Verification through the directional lookups
// ---------------------------------------------------------------------------

/// The lookup path for a query.
pub fn lookup_path(query: &str) -> (r: String)
    ensures
        r@ == "/cross-register-mappings?"@ + query@,
{
    crate::text::concat2("/cross-register-mappings?", query)
}

/// A lookup must answer `200`.
pub fn lookup_status(query: &str, status: u16) -> (r: Result<(), String>)
    ensures
        r is Ok <==> status == 200,
        status != 200 ==> r->Err_0@ == "lookup failed: /cross-register-mappings?"@ + query@
            + " -> HTTP "@ + decimal(status as nat),
{
    if status != 200 {
        let mut e = crate::text::concat3("lookup failed: /cross-register-mappings?", query, " -> HTTP ");
        push_decimal(&mut e, status as u64);
        return Err(e);
    }
    Ok(())
}

/// The `mappings` of a lookup answer (none when absent).
pub open spec fn mappings_of(resp: JsonValue) -> Seq<JsonValue> {
    match field(resp, "mappings"@) {
        Some(JsonValue::Array(ms)) => ms,
        _ => Seq::empty(),
    }
}

/// Whether some mapping in the answer has the mapping's identifier.
pub open spec fn names_mapping(ms: Seq<JsonValue>) -> bool {
    exists|i: int|
        0 <= i < ms.len() && field(#[trigger] ms[i], "identifier"@) == Some(
            JsonValue::Str(MAPPING_ID@),
        )
}

/// The check of one directional lookup: the count of mappings and whether
/// it is the expected one (`want` mappings, the equivalence among them
/// when any are expected).
pub fn check_lookup(resp: &Json, want: usize) -> (r: (usize, bool))
    ensures
        r.0 == mappings_of(resp@).len(),
        r.1 == (mappings_of(resp@).len() == want && (want == 0 || names_mapping(mappings_of(resp@)))),
{
    let ms = match resp.get("mappings") {
        Some(a) => match a.as_array() {
            Some(v) => v,
            None => {
                return (0, want == 0);
            },
        },
        None => {
            return (0, want == 0);
        },
    };
    let ghost mv = mappings_of(resp@);
    let mut found = false;
    let mut i: usize = 0;
    while i < ms.len()
        invariant
            i <= ms@.len(),
            mv.len() == ms@.len(),
            mv == mappings_of(resp@),
            forall|j: int| 0 <= j < ms@.len() ==> (#[trigger] ms@[j])@ == mv[j],
            found == exists|j: int|
                0 <= j < i && field(#[trigger] mv[j], "identifier"@) == Some(
                    JsonValue::Str(MAPPING_ID@),
                ),
        decreases ms@.len() - i,
    {
        let is_it = match ms[i].get("identifier") {
            Some(v) => match v.as_str() {
                Some(s) => str_eq(s, MAPPING_ID),
                None => false,
            },
            None => false,
        };
        assert(is_it == (field(mv[i as int], "identifier"@) == Some(JsonValue::Str(MAPPING_ID@))));
        found = found || is_it;
        i = i + 1;
    }
    let count = ms.len();
    (count, count == want && (want == 0 || found))
}

/// Whether the mapping item resolves with the attested equivalence
/// manifest: a `200` whose manifest says `equivalent`, attested by the
/// CQC-pattern notified body.
pub open spec fn attested(status: u16, resp: JsonValue) -> bool {
    let manifest = crate::json::field_or_null(resp, "manifest"@);
    status == 200 && field(manifest, "mapping_type"@) == Some(JsonValue::Str("equivalent"@))
        && field(manifest, "attester"@) == Some(JsonValue::Str("CQC-pattern notified body"@))
}

fn str_field_is(v: &Json, key: &str, expected: &str) -> (r: bool)
    ensures
        r == (field(v@, key@) == Some(JsonValue::Str(expected@))),
{
    match v.get(key) {
        Some(x) => match x.as_str() {
            Some(s) => str_eq(s, expected),
            None => false,
        },
        None => false,
    }
}

/// Whether the mapping item resolves with the attested manifest.
pub fn manifest_attested(status: u16, resp: &Json) -> (r: bool)
    ensures
        r == attested(status, resp@),
{
    if status != 200 {
        return false;
    }
    match resp.get("manifest") {
        Some(m) => str_field_is(m, "mapping_type", "equivalent") && str_field_is(
            m,
            "attester",
            "CQC-pattern notified body",
        ),
        None => {
            let null = Json::Null;
            str_field_is(&null, "mapping_type", "equivalent") && str_field_is(
                &null,
                "attester",
                "CQC-pattern notified body",
            )
        },
    }
}

/// A text padded with spaces on the right to `width` characters (`{:<w}`).
pub open spec fn pad_right(s: Seq<char>, width: nat) -> Seq<char> {
    if s.len() >= width {
        s
    } else {
        s + Seq::new((width - s.len()) as nat, |i: int| ' ')
    }
}

/// A text padded to a width.
pub fn pad(s: &str, width: usize) -> (r: String)
    ensures
        r@ == pad_right(s@, width as nat),
{
    let n = crate::text::chars_of(s).len();
    if n >= width {
        return s.to_owned();
    }
    let mut r = s.to_owned();
    let mut k: usize = n;
    assert(r@ =~= s@ + Seq::new(0nat, |i: int| ' '));
    while k < width
        invariant
            n == s@.len(),
            n <= k <= width,
            r@ == s@ + Seq::new((k - n) as nat, |i: int| ' '),
        decreases width - k,
    {
        push_char(&mut r, ' ');
        k = k + 1;
        assert(r@ =~= s@ + Seq::new((k - n) as nat, |i: int| ' '));
    }
    r
}

/// The report line of one lookup check.
pub fn check_line(query: &str, count: usize, good: bool) -> (r: String)
    ensures
        r@ == "  "@ + pad_right(query@, 42) + " count="@ + decimal(count as nat) + " "@ + (if good {
            "OK"@
        } else {
            "FAILED"@
        }),
{
    let mut r = "  ".to_owned();
    let padded = pad(query, 42);
    r.append(padded.as_str());
    r.append(" count=");
    push_decimal(&mut r, count as u64);
    r.append(" ");
    if good {
        r.append("OK");
    } else {
        r.append("FAILED");
    }
    r
}

// ---------------------------------------------------------------------------
// The run
// ---------------------------------------------------------------------------

/// The four directional lookups, with the number of mappings each must
/// answer: from the GB side, from the IEC side, by the named sides, and
/// the GB item as a target (which it never is here).
pub open spec fn lookup_query(k: int) -> (Seq<char>, nat) {
    if k == 0 {
        ("item=gb-4943-1"@, 1)
    } else if k == 1 {
        ("item=iec-62368-1"@, 1)
    } else if k == 2 {
        ("source=gb-4943-1&target=iec-62368-1"@, 1)
    } else {
        ("target=gb-4943-1"@, 0)
    }
}

fn lookup_query_exec(k: usize) -> (r: (&'static str, usize))
    ensures
        r.0@ == lookup_query(k as int).0,
        r.1 == lookup_query(k as int).1,
{
    if k == 0 {
        ("item=gb-4943-1", 1)
    } else if k == 1 {
        ("item=iec-62368-1", 1)
    } else if k == 2 {
        ("source=gb-4943-1&target=iec-62368-1", 1)
    } else {
        ("target=gb-4943-1", 0)
    }
}

/// Where a `seed-mappings` run stands: the register, how many of its eight
/// requests have been answered, whether every lookup so far was the
/// expected one, and its ending once it has one.
pub struct MappingsRunView {
    pub register: Seq<char>,
    pub stage: nat,
    pub ok: bool,
    pub end: Option<(bool, Option<Seq<char>>)>,
}

/// The request a run makes at each stage: the GB endpoint item, the IEC
/// endpoint item, the mapping itself, the four lookups, and the mapping
/// item; then its ending.
pub open spec fn mappings_action(v: MappingsRunView) -> SeedActionView {
    match v.end {
        Some((ok, message)) => SeedActionView::Finish { ok, message },
        None => if v.stage == 0 {
            SeedActionView::Post { path: "/data-elements"@, body: gb_endpoint() }
        } else if v.stage == 1 {
            SeedActionView::Post { path: "/data-elements"@, body: iec_endpoint() }
        } else if v.stage == 2 {
            SeedActionView::Post {
                path: "/cross-register-mappings"@,
                body: JsonValue::Object(object_from(mapping_pairs(v.register))),
            }
        } else if v.stage < 7 {
            SeedActionView::Get {
                path: "/cross-register-mappings?"@ + lookup_query(v.stage - 3).0,
            }
        } else {
            SeedActionView::Get { path: "/cross-register-mappings/"@ + MAPPING_ID@ }
        },
    }
}

/// The body a registration stage posts.
pub open spec fn posted_body(v: MappingsRunView) -> JsonValue {
    match mappings_action(v) {
        SeedActionView::Post { body, .. } => body,
        _ => JsonValue::Null,
    }
}

/// What an accepted registration (`201` or `409`) reports.
pub open spec fn accepted_text(item_id: Seq<char>, status: u16, resp: JsonValue) -> Seq<char> {
    if status == 201 {
        "registered "@ + item_id + " (audit_seq "@ + audit_seq(resp) + ")"@
    } else {
        "already registered "@ + item_id
    }
}

/// The report line of one lookup check.
pub open spec fn check_line_text(query: Seq<char>, count: nat, good: bool) -> Seq<char> {
    "  "@ + pad_right(query, 42) + " count="@ + decimal(count) + " "@ + (if good {
        "OK"@
    } else {
        "FAILED"@
    })
}

/// A run after the answer to its current request, with the lines it
/// reports: a registration goes on after `201` or `409` and ends the run
/// with the failure report after anything else; a lookup goes on after
/// `200`, noting whether it was the expected one, and ends the run after
/// anything else; the mapping item ends the run, which succeeds only when
/// every lookup was the expected one and the item is attested.
pub open spec fn mappings_after(v: MappingsRunView, status: u16, resp: JsonValue) -> (
    MappingsRunView,
    Seq<Seq<char>>,
) {
    if v.stage < 3 {
        let id = item_id_of(posted_body(v));
        if status == 201 || status == 409 {
            let line = if v.stage < 2 {
                "  endpoint "@ + id + ": "@ + accepted_text(id, status, resp)
            } else {
                "  mapping   "@ + MAPPING_ID@ + ": "@ + accepted_text(id, status, resp)
            };
            (
                MappingsRunView { stage: v.stage + 1, ..v },
                if v.stage < 2 {
                    seq![line]
                } else {
                    seq![line, Seq::empty(), "verify: directional lookups of "@ + MAPPING_ID@]
                },
            )
        } else {
            (
                MappingsRunView {
                    end: Some((false, Some(failure("item `"@ + id + "` failed"@, status, resp)))),
                    ..v
                },
                Seq::empty(),
            )
        }
    } else if v.stage < 7 {
        let (query, want) = lookup_query(v.stage - 3);
        if status != 200 {
            (
                MappingsRunView {
                    end: Some(
                        (
                            false,
                            Some(
                                "lookup failed: /cross-register-mappings?"@ + query + " -> HTTP "@
                                    + decimal(status as nat),
                            ),
                        ),
                    ),
                    ..v
                },
                Seq::empty(),
            )
        } else {
            let ms = mappings_of(resp);
            let good = ms.len() == want && (want == 0 || names_mapping(ms));
            (
                MappingsRunView { stage: v.stage + 1, ok: v.ok && good, ..v },
                seq![check_line_text(query, ms.len(), good)],
            )
        }
    } else if status != 200 {
        (
            MappingsRunView { end: Some((false, None)), ..v },
            seq!["  GET item -> HTTP "@ + decimal(status as nat) + " FAILED"@],
        )
    } else {
        let good = attested(status, resp);
        (
            MappingsRunView { end: Some((v.ok && good, None)), ..v },
            seq![
                "  "@ + pad_right("item manifest (equivalent, attested)"@, 42) + " "@ + (if good {
                    "OK"@
                } else {
                    "FAILED"@
                }),
            ],
        )
    }
}

/// A run after a sequence of answers, one per request (answers after its
/// ending change nothing).
pub open spec fn mappings_replay(v: MappingsRunView, replies: Seq<(u16, JsonValue)>) -> MappingsRunView
    decreases replies.len(),
{
    if replies.len() == 0 || v.end is Some {
        v
    } else {
        mappings_replay(mappings_after(v, replies[0].0, replies[0].1).0, replies.drop_first())
    }
}

/// Whether a lookup answer holds what the `k`-th lookup expects.
pub open spec fn lookup_good(k: int, resp: JsonValue) -> bool {
    let ms = mappings_of(resp);
    let want = lookup_query(k).1;
    ms.len() == want && (want == 0 || names_mapping(ms))
}

/// Whether the answer to the request of a stage lets the run succeed: a
/// registration accepted (`201` or `409`), a lookup answered (`200`) with
/// what it expects, the mapping item answered (`200`) and attested.
pub open spec fn accepted_at(stage: nat, status: u16, resp: JsonValue) -> bool {
    if stage < 3 {
        status == 201 || status == 409
    } else if stage < 7 {
        status == 200 && lookup_good(stage - 3, resp)
    } else {
        status == 200 && attested(status, resp)
    }
}

proof fn lemma_mappings_replay_from(v: MappingsRunView, replies: Seq<(u16, JsonValue)>)
    requires
        v.end is None,
        v.stage <= 7,
    ensures
        mappings_replay(v, replies).end == Some((true, None::<Seq<char>>)) <==> (v.ok
            && replies.len() >= 8 - v.stage && forall|i: int|
            0 <= i < 8 - v.stage ==> accepted_at(
                (v.stage + i) as nat,
                #[trigger] replies[i].0,
                replies[i].1,
            )),
    decreases replies.len(),
{
    if replies.len() == 0 {
        return;
    }
    let (status, resp) = replies[0];
    let w = mappings_after(v, status, resp).0;
    let rest = replies.drop_first();
    assert(mappings_replay(v, replies) == mappings_replay(w, rest));
    let all = v.ok && replies.len() >= 8 - v.stage && forall|i: int|
        0 <= i < 8 - v.stage ==> accepted_at((v.stage + i) as nat, #[trigger] replies[i].0, replies[i].1);
    if accepted_at(v.stage, status, resp) && v.stage < 7 {
        assert(w.end is None && w.stage == v.stage + 1);
        lemma_mappings_replay_from(w, rest);
        let tail = w.ok && rest.len() >= 8 - w.stage && forall|i: int|
            0 <= i < 8 - w.stage ==> accepted_at((w.stage + i) as nat, #[trigger] rest[i].0, rest[i].1);
        if tail {
            assert forall|i: int| 0 <= i < 8 - v.stage implies accepted_at(
                (v.stage + i) as nat,
                #[trigger] replies[i].0,
                replies[i].1,
            ) by {
                if i > 0 {
                    assert(rest[i - 1] == replies[i]);
                }
            }
        }
        if all {
            assert forall|i: int| 0 <= i < 8 - w.stage implies accepted_at(
                (w.stage + i) as nat,
                #[trigger] rest[i].0,
                rest[i].1,
            ) by {
                assert(rest[i] == replies[i + 1]);
                assert(accepted_at((v.stage + (i + 1)) as nat, replies[i + 1].0, replies[i + 1].1));
            }
        }
    } else if accepted_at(v.stage, status, resp) {
        assert(w.end == Some((v.ok, None::<Seq<char>>)));
        assert(mappings_replay(w, rest) == w);
    } else {
        if 3 <= v.stage < 7 && status == 200 {
            assert(w.end is None && w.stage == v.stage + 1 && !w.ok);
            lemma_mappings_replay_from(w, rest);
        } else {
            assert(w.end matches Some((false, _)));
            assert(mappings_replay(w, rest) == w);
        }
        if all {
            assert(accepted_at((v.stage + 0) as nat, replies[0].0, replies[0].1));
        }
    }
}

/// A `seed-mappings` run succeeds exactly when both endpoint items and the
/// mapping are accepted (`201` or `409`), each of the four directional
/// lookups answers `200` with what it expects, and the mapping item
/// answers `200` with its attested equivalence manifest; any other answer
/// fails the run.
pub proof fn lemma_mappings_run(register: Seq<char>, replies: Seq<(u16, JsonValue)>)
    ensures
        mappings_replay(
            MappingsRunView { register, stage: 0, ok: true, end: None },
            replies,
        ).end == Some((true, None::<Seq<char>>)) <==> (replies.len() >= 8 && forall|i: int|
            0 <= i < 8 ==> accepted_at(i as nat, #[trigger] replies[i].0, replies[i].1)),
{
    let v = MappingsRunView { register, stage: 0, ok: true, end: None };
    lemma_mappings_replay_from(v, replies);
    assert forall|i: int| 0 <= i < 8 implies (accepted_at(
        (v.stage + i) as nat,
        #[trigger] replies[i].0,
        replies[i].1,
    ) == accepted_at(i as nat, replies[i].0, replies[i].1)) by {
        assert((v.stage + i) as nat == i as nat);
    }
}

/// A `seed-mappings` run: the requests it makes in turn, and what it makes
/// of each answer.
pub struct MappingsRun {
    register: String,
    stage: usize,
    ok: bool,
    end: Option<(bool, Option<String>)>,
}

impl MappingsRun {
    pub closed spec fn view(&self) -> MappingsRunView {
        MappingsRunView {
            register: self.register@,
            stage: self.stage as nat,
            ok: self.ok,
            end: end_view(self.end),
        }
    }

    /// A run into a register, before its first request.
    pub fn new(register: &str) -> (r: MappingsRun)
        ensures
            r@ == (MappingsRunView { register: register@, stage: 0, ok: true, end: None }),
    {
        MappingsRun { register: register.to_owned(), stage: 0, ok: true, end: None }
    }

    /// The request the run makes next.
    pub fn action(&self) -> (r: SeedAction)
        ensures
            r@ == mappings_action(self@),
    {
        match &self.end {
            Some((ok, message)) => finish_action(*ok, message),
            None => if self.stage < 2 {
                let mut es = endpoints();
                let body = es.remove(self.stage);
                SeedAction::Post { path: "/data-elements".to_owned(), body }
            } else if self.stage == 2 {
                SeedAction::Post {
                    path: "/cross-register-mappings".to_owned(),
                    body: mapping_registration(self.register.as_str()),
                }
            } else if self.stage < 7 {
                let (query, _) = lookup_query_exec(self.stage - 3);
                SeedAction::Get { path: lookup_path(query) }
            } else {
                SeedAction::Get {
                    path: crate::text::concat2("/cross-register-mappings/", MAPPING_ID),
                }
            },
        }
    }

    /// Takes the answer to the current request; returns the lines to
    /// report.
    pub fn step(&mut self, status: u16, resp: &Json) -> (lines: Vec<String>)
        requires
            old(self)@.end is None,
        ensures
            (final(self)@, strings_view(lines@)) == mappings_after(old(self)@, status, resp@),
    {
        let ghost v = self@;
        let mut lines: Vec<String> = Vec::new();
        if self.stage < 3 {
            let body = match self.action() {
                SeedAction::Post { body, .. } => body,
                _ => Json::Null,
            };
            let id = body_item_id(&body);
            match item_outcome(id.as_str(), status, resp) {
                Ok(text) => {
                    let line = if self.stage < 2 {
                        let mut l = crate::text::concat3("  endpoint ", id.as_str(), ": ");
                        l.append(text.as_str());
                        l
                    } else {
                        let mut l = crate::text::concat3("  mapping   ", MAPPING_ID, ": ");
                        l.append(text.as_str());
                        l
                    };
                    lines.push(line);
                    if self.stage == 2 {
                        lines.push(String::new());
                        lines.push(crate::text::concat2("verify: directional lookups of ", MAPPING_ID));
                    }
                    self.stage = self.stage + 1;
                },
                Err(e) => {
                    self.end = Some((false, Some(e)));
                },
            }
        } else if self.stage < 7 {
            let (query, want) = lookup_query_exec(self.stage - 3);
            match lookup_status(query, status) {
                Err(e) => {
                    self.end = Some((false, Some(e)));
                },
                Ok(()) => {
                    let (count, good) = check_lookup(resp, want);
                    lines.push(check_line(query, count, good));
                    self.ok = self.ok && good;
                    self.stage = self.stage + 1;
                },
            }
        } else if status != 200 {
            let mut l = "  GET item -> HTTP ".to_owned();
            push_decimal(&mut l, status as u64);
            l.append(" FAILED");
            lines.push(l);
            self.end = Some((false, None));
        } else {
            let good = manifest_attested(status, resp);
            let mut l = "  ".to_owned();
            let padded = pad("item manifest (equivalent, attested)", 42);
            l.append(padded.as_str());
            l.append(" ");
            if good {
                l.append("OK");
            } else {
                l.append("FAILED");
            }
            lines.push(l);
            self.end = Some((self.ok && good, None));
        }
        proof {
            let after = mappings_after(v, status, resp@);
            assert(strings_view(lines@) =~= after.1);
        }
        lines
    }
}

/// Reads a seeder's `--register R` option (with its default), passing the
/// other arguments on.
pub fn register_option(args: &Vec<String>, default: &str, usage: &str) -> (r: Result<
    (String, Vec<String>),
    String,
>)
    ensures
        ({
            let spec = register_options(default@, Seq::empty(), args_view(args@), usage@);
            match r {
                Ok((reg, shared)) => spec == Ok::<(Seq<char>, Seq<Seq<char>>), Seq<char>>(
                    (reg@, args_view(shared@)),
                ),
                Err(e) => spec == Err::<(Seq<char>, Seq<Seq<char>>), Seq<char>>(e@),
            }
        }),
{
    let mut register = default.to_owned();
    let mut shared: Vec<String> = Vec::new();
    let ghost av = args_view(args@);
    let mut i: usize = 0;
    assert(av.skip(0) =~= av);
    assert(args_view(shared@) =~= Seq::<Seq<char>>::empty());
    while i < args.len()
        invariant
            i <= args@.len(),
            av == args_view(args@),
            register_options(default@, Seq::empty(), av, usage@) == register_options(
                register@,
                args_view(shared@),
                av.skip(i as int),
                usage@,
            ),
        decreases args@.len() - i,
    {
        let a = args[i].as_str();
        let ghost rest = av.skip(i as int);
        assert(rest[0] == a@);
        if str_eq(a, "--register") {
            if i + 1 >= args.len() {
                return Err(usage.to_owned());
            }
            register = args[i + 1].clone();
            assert(rest[1] == register@);
            assert(rest.skip(2) =~= av.skip(i + 2));
            i = i + 2;
        } else {
            let ghost before = args_view(shared@);
            shared.push(args[i].clone());
            assert(args_view(shared@) =~= before.push(a@));
            assert(rest.drop_first() =~= av.skip(i + 1));
            i = i + 1;
        }
    }
    assert(av.skip(i as int).len() == 0);
    Ok((register, shared))
}

/// A seeder's `--register R` option read from the front, with the usage
/// error for a missing value.
pub open spec fn register_options(
    register: Seq<char>,
    shared: Seq<Seq<char>>,
    rest: Seq<Seq<char>>,
    usage: Seq<char>,
) -> Result<(Seq<char>, Seq<Seq<char>>), Seq<char>>
    decreases rest.len(),
{
    if rest.len() == 0 {
        Ok((register, shared))
    } else if rest[0] == "--register"@ {
        if rest.len() < 2 {
            Err(usage)
        } else {
            register_options(rest[1], shared, rest.skip(2), usage)
        }
    } else {
        register_options(register, shared.push(rest[0]), rest.drop_first(), usage)
    }
}

/// The command line of `seed-mappings`: the register (`unidpp` unless
/// `--register` names one) and the shared options; a missing option value
/// is the usage error.
pub fn run(kit: &Kit, args: &Vec<String>) -> (r: Result<(String, SeedArgs), String>)
    ensures
        match register_options("unidpp"@, Seq::empty(), args_view(args@), USAGE@) {
            Err(e) => r matches Err(x) && x@ == e,
            Ok((register, shared)) => {
                let start = SeedArgsView {
                    bind: kit.bind@,
                    port: kit.port,
                    base_url: None,
                    admin_token: None,
                    token_file: None,
                };
                match seed_options(start, shared, USAGE@) {
                    Err(e) => r matches Err(x) && x@ == e,
                    Ok(sv) => r matches Ok((reg, parsed)) && reg@ == register && parsed@ == sv,
                }
            },
        },
{
    let (register, shared) = match register_option(args, "unidpp", USAGE) {
        Ok(p) => p,
        Err(e) => return Err(e),
    };
    match parse_seed_args(kit, &shared, USAGE) {
        Ok(parsed) => Ok((register, parsed)),
        Err(e) => Err(e),
    }
}

} // verus!
