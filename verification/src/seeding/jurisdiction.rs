//! Registering a jurisdiction's registry as a federation peer: the signed
//! C3 self-descriptor, the sample data elements, the jurisdictional
//! battery DPP profile in its signed form, and the dated applicability
//! binding — each as the exact request it sends and the reading of the
//! registry's answer.

use vstd::prelude::*;

use crate::json::{
    field, items_view, json_array, json_object, object_from, pairs_view, spec_insert, Json,
    JsonValue,
};
use crate::kit::{args_view, Kit};
use crate::seeding::{
    audit_seq, audit_seq_text, canonical_bytes, completed_manifest, derived_id,
    descriptor_signature, ed25519_signature, failure, failure_message, manifest_signature,
    operator_record, parse_seed_args, percent_encode, quote, seed_options, Operator, SeedArgs,
    SeedArgsView, DEFAULT_PROTOCOL_BINDING,
};
use crate::seeding::{end_view, finish_action, SeedAction, SeedActionView};
use crate::tally::strings_view;
use crate::text::{
    decimal, is_ascii_upper, lowercase, str_eq, to_lowercase, to_uppercase,
};
use vstd::utf8::encode_utf8;

verus! {

pub const USAGE: &'static str = "usage: unidpp-kit seed-jurisdiction --jurisdiction DE [--port N] [--bind ADDR] [--base-url URL] [--endpoint-uri URI] [--admin-token T] [--token-file PATH] [--operator-label L] [--register R] [--product-type ID]";

// ---------------------------------------------------------------------------
// Residency and the jurisdiction code
// ---------------------------------------------------------------------------

/// The illustrative residency class of a jurisdiction.
pub open spec fn residency(jur: Seq<char>) -> Seq<char> {
    if jur == "DE"@ || jur == "FR"@ || jur == "NL"@ || jur == "IT"@ || jur == "ES"@ || jur
        == "SE"@ || jur == "PL"@ || jur == "GB"@ || jur == "CH"@ || jur == "NO"@ {
        "eu"@
    } else if jur == "JP"@ || jur == "KR"@ {
        "apac"@
    } else if jur == "CN"@ {
        "cn"@
    } else if jur == "US"@ || jur == "CA"@ {
        "na"@
    } else {
        "anywhere"@
    }
}

/// The residency classes by region: the European jurisdictions of the
/// table (the EU members, the EEA's Norway, Switzerland and the United
/// Kingdom) are `eu`, Japan and Korea `apac`, China `cn`, the United States
/// and Canada `na`, and every other jurisdiction `anywhere`.
pub proof fn lemma_residency_regions(jur: Seq<char>)
    ensures
        (residency(jur) == "eu"@) == (jur == "DE"@ || jur == "FR"@ || jur == "NL"@ || jur == "IT"@ || jur == "ES"@ || jur == "SE"@ || jur == "PL"@ || jur == "GB"@ || jur == "CH"@ || jur == "NO"@),
        (residency(jur) == "apac"@) == (jur == "JP"@ || jur == "KR"@),
        (residency(jur) == "cn"@) == (jur == "CN"@),
        (residency(jur) == "na"@) == (jur == "US"@ || jur == "CA"@),
        (residency(jur) == "anywhere"@) == !(jur == "DE"@ || jur == "FR"@ || jur == "NL"@ || jur == "IT"@ || jur == "ES"@ || jur == "SE"@ || jur == "PL"@ || jur == "GB"@ || jur == "CH"@ || jur == "NO"@ || jur == "JP"@ || jur == "KR"@ || jur == "CN"@ || jur == "US"@ || jur == "CA"@),
{
    reveal_strlit("DE");
    reveal_strlit("FR");
    reveal_strlit("NL");
    reveal_strlit("IT");
    reveal_strlit("ES");
    reveal_strlit("SE");
    reveal_strlit("PL");
    reveal_strlit("GB");
    reveal_strlit("CH");
    reveal_strlit("NO");
    reveal_strlit("JP");
    reveal_strlit("KR");
    reveal_strlit("CN");
    reveal_strlit("US");
    reveal_strlit("CA");
    reveal_strlit("eu");
    reveal_strlit("apac");
    reveal_strlit("cn");
    reveal_strlit("na");
    reveal_strlit("anywhere");
    assert("DE"@[0] != "FR"@[0]);
    assert("DE"@[0] != "NL"@[0]);
    assert("DE"@[0] != "IT"@[0]);
    assert("DE"@[0] != "ES"@[0]);
    assert("DE"@[0] != "SE"@[0]);
    assert("DE"@[0] != "PL"@[0]);
    assert("DE"@[0] != "GB"@[0]);
    assert("DE"@[0] != "CH"@[0]);
    assert("DE"@[0] != "NO"@[0]);
    assert("DE"@[0] != "JP"@[0]);
    assert("DE"@[0] != "KR"@[0]);
    assert("DE"@[0] != "CN"@[0]);
    assert("DE"@[0] != "US"@[0]);
    assert("DE"@[0] != "CA"@[0]);
    assert("FR"@[0] != "NL"@[0]);
    assert("FR"@[0] != "IT"@[0]);
    assert("FR"@[0] != "ES"@[0]);
    assert("FR"@[0] != "SE"@[0]);
    assert("FR"@[0] != "PL"@[0]);
    assert("FR"@[0] != "GB"@[0]);
    assert("FR"@[0] != "CH"@[0]);
    assert("FR"@[0] != "NO"@[0]);
    assert("FR"@[0] != "JP"@[0]);
    assert("FR"@[0] != "KR"@[0]);
    assert("FR"@[0] != "CN"@[0]);
    assert("FR"@[0] != "US"@[0]);
    assert("FR"@[0] != "CA"@[0]);
    assert("NL"@[0] != "IT"@[0]);
    assert("NL"@[0] != "ES"@[0]);
    assert("NL"@[0] != "SE"@[0]);
    assert("NL"@[0] != "PL"@[0]);
    assert("NL"@[0] != "GB"@[0]);
    assert("NL"@[0] != "CH"@[0]);
    assert("NL"@[1] != "NO"@[1]);
    assert("NL"@[0] != "JP"@[0]);
    assert("NL"@[0] != "KR"@[0]);
    assert("NL"@[0] != "CN"@[0]);
    assert("NL"@[0] != "US"@[0]);
    assert("NL"@[0] != "CA"@[0]);
    assert("IT"@[0] != "ES"@[0]);
    assert("IT"@[0] != "SE"@[0]);
    assert("IT"@[0] != "PL"@[0]);
    assert("IT"@[0] != "GB"@[0]);
    assert("IT"@[0] != "CH"@[0]);
    assert("IT"@[0] != "NO"@[0]);
    assert("IT"@[0] != "JP"@[0]);
    assert("IT"@[0] != "KR"@[0]);
    assert("IT"@[0] != "CN"@[0]);
    assert("IT"@[0] != "US"@[0]);
    assert("IT"@[0] != "CA"@[0]);
    assert("ES"@[0] != "SE"@[0]);
    assert("ES"@[0] != "PL"@[0]);
    assert("ES"@[0] != "GB"@[0]);
    assert("ES"@[0] != "CH"@[0]);
    assert("ES"@[0] != "NO"@[0]);
    assert("ES"@[0] != "JP"@[0]);
    assert("ES"@[0] != "KR"@[0]);
    assert("ES"@[0] != "CN"@[0]);
    assert("ES"@[0] != "US"@[0]);
    assert("ES"@[0] != "CA"@[0]);
    assert("SE"@[0] != "PL"@[0]);
    assert("SE"@[0] != "GB"@[0]);
    assert("SE"@[0] != "CH"@[0]);
    assert("SE"@[0] != "NO"@[0]);
    assert("SE"@[0] != "JP"@[0]);
    assert("SE"@[0] != "KR"@[0]);
    assert("SE"@[0] != "CN"@[0]);
    assert("SE"@[0] != "US"@[0]);
    assert("SE"@[0] != "CA"@[0]);
    assert("PL"@[0] != "GB"@[0]);
    assert("PL"@[0] != "CH"@[0]);
    assert("PL"@[0] != "NO"@[0]);
    assert("PL"@[0] != "JP"@[0]);
    assert("PL"@[0] != "KR"@[0]);
    assert("PL"@[0] != "CN"@[0]);
    assert("PL"@[0] != "US"@[0]);
    assert("PL"@[0] != "CA"@[0]);
    assert("GB"@[0] != "CH"@[0]);
    assert("GB"@[0] != "NO"@[0]);
    assert("GB"@[0] != "JP"@[0]);
    assert("GB"@[0] != "KR"@[0]);
    assert("GB"@[0] != "CN"@[0]);
    assert("GB"@[0] != "US"@[0]);
    assert("GB"@[0] != "CA"@[0]);
    assert("CH"@[0] != "NO"@[0]);
    assert("CH"@[0] != "JP"@[0]);
    assert("CH"@[0] != "KR"@[0]);
    assert("CH"@[1] != "CN"@[1]);
    assert("CH"@[0] != "US"@[0]);
    assert("CH"@[1] != "CA"@[1]);
    assert("NO"@[0] != "JP"@[0]);
    assert("NO"@[0] != "KR"@[0]);
    assert("NO"@[0] != "CN"@[0]);
    assert("NO"@[0] != "US"@[0]);
    assert("NO"@[0] != "CA"@[0]);
    assert("JP"@[0] != "KR"@[0]);
    assert("JP"@[0] != "CN"@[0]);
    assert("JP"@[0] != "US"@[0]);
    assert("JP"@[0] != "CA"@[0]);
    assert("KR"@[0] != "CN"@[0]);
    assert("KR"@[0] != "US"@[0]);
    assert("KR"@[0] != "CA"@[0]);
    assert("CN"@[0] != "US"@[0]);
    assert("CN"@[1] != "CA"@[1]);
    assert("US"@[0] != "CA"@[0]);
    assert("eu"@.len() != "apac"@.len());
    assert("eu"@[0] != "cn"@[0]);
    assert("eu"@[0] != "na"@[0]);
    assert("eu"@.len() != "anywhere"@.len());
    assert("apac"@.len() != "cn"@.len());
    assert("apac"@.len() != "na"@.len());
    assert("apac"@.len() != "anywhere"@.len());
    assert("cn"@[0] != "na"@[0]);
    assert("cn"@.len() != "anywhere"@.len());
    assert("na"@.len() != "anywhere"@.len());
}

/// The residency table is illustrative, not normative; a jurisdiction may
/// use any string its profile defines.
pub fn residency_for(jur: &str) -> (r: &'static str)
    ensures
        r@ == residency(jur@),
{
    if str_eq(jur, "DE") || str_eq(jur, "FR") || str_eq(jur, "NL") || str_eq(jur, "IT") || str_eq(
        jur,
        "ES",
    ) || str_eq(jur, "SE") || str_eq(jur, "PL") || str_eq(jur, "GB") || str_eq(jur, "CH")
        || str_eq(jur, "NO") {
        "eu"
    } else if str_eq(jur, "JP") || str_eq(jur, "KR") {
        "apac"
    } else if str_eq(jur, "CN") {
        "cn"
    } else if str_eq(jur, "US") || str_eq(jur, "CA") {
        "na"
    } else {
        "anywhere"
    }
}

/// An ISO 3166-1 alpha-2 code: two ASCII uppercase letters.
pub open spec fn is_alpha2(s: Seq<char>) -> bool {
    s.len() == 2 && is_ascii_upper(s[0]) && is_ascii_upper(s[1])
}

/// The message for a jurisdiction that is not an alpha-2 code.
pub open spec fn bad_jurisdiction() -> Seq<char> {
    "jurisdiction must be an ISO 3166-1 alpha-2 code (e.g. DE)"@
}

/// The jurisdiction code in upper case, which must be two ASCII letters.
pub fn normalize_jurisdiction(jurisdiction: &str) -> (r: Result<String, String>)
    ensures
        match r {
            Ok(j) => j@ == crate::text::uppercase(jurisdiction@) && is_alpha2(j@) && ((forall|i: int|
                0 <= i < jurisdiction@.len() ==> crate::text::is_ascii_char(
                    #[trigger] jurisdiction@[i],
                )) ==> j@ == jurisdiction@.map_values(|c: char| crate::text::ascii_upper(c))),
            Err(e) => e@ == bad_jurisdiction() && !is_alpha2(crate::text::uppercase(jurisdiction@))
                && ((forall|i: int|
                0 <= i < jurisdiction@.len() ==> crate::text::is_ascii_char(
                    #[trigger] jurisdiction@[i],
                )) ==> !is_alpha2(
                jurisdiction@.map_values(|c: char| crate::text::ascii_upper(c)),
            )),
        },
{
    let upper = to_uppercase(jurisdiction);
    let cs = crate::text::chars_of(upper.as_str());
    if cs.len() == 2 && 'A' <= cs[0] && cs[0] <= 'Z' && 'A' <= cs[1] && cs[1] <= 'Z' {
        Ok(upper)
    } else {
        Err("jurisdiction must be an ISO 3166-1 alpha-2 code (e.g. DE)".to_owned())
    }
}

// ---------------------------------------------------------------------------
// The C3 self-descriptor
// ---------------------------------------------------------------------------

/// The service identifier: `registry-<jur>-v1`.
pub open spec fn service_identifier(jur: Seq<char>) -> Seq<char> {
    "registry-"@ + lowercase(jur) + "-v1"@
}

/// The one endpoint of the descriptor.
pub open spec fn service_endpoint(endpoint_uri: Seq<char>) -> Seq<(Seq<char>, JsonValue)> {
    seq![
        ("uri"@, JsonValue::Str(endpoint_uri)),
        ("protocol_binding_ref"@, JsonValue::Str(DEFAULT_PROTOCOL_BINDING@)),
    ]
}

/// The descriptor body before signing.
pub open spec fn service_descriptor(
    record: JsonValue,
    jur: Seq<char>,
    endpoint_uri: Seq<char>,
    residency: Seq<char>,
) -> Seq<(Seq<char>, JsonValue)> {
    seq![
        ("identifier"@, JsonValue::Str(service_identifier(jur))),
        ("operator"@, record),
        ("class"@, JsonValue::Str("registry"@)),
        ("endpoints"@, JsonValue::Array(
            seq![JsonValue::Object(object_from(service_endpoint(endpoint_uri)))],
        )),
        ("protocol_binding_ref"@, JsonValue::Str(DEFAULT_PROTOCOL_BINDING@)),
        ("jurisdiction"@, JsonValue::Str(jur)),
        ("residency_class"@, JsonValue::Str(residency)),
        ("status"@, JsonValue::Str("active"@)),
        ("service_kind"@, JsonValue::Str("jurisdictional-registry"@)),
        ("succession_pointer"@, JsonValue::Null),
    ]
}

/// A descriptor body signed by the operator with key id `key_id` and
/// secret key `secret`.
pub open spec fn signed_descriptor(
    body: Seq<(Seq<char>, JsonValue)>,
    key_id: Seq<char>,
    secret: Seq<u8>,
) -> JsonValue {
    JsonValue::Object(
        spec_insert(
            object_from(body),
            "signature"@,
            JsonValue::Object(
                object_from(
                    descriptor_signature(
                        key_id,
                        ed25519_signature(
                            secret,
                            canonical_bytes(JsonValue::Object(object_from(body))),
                        ),
                    ),
                ),
            ),
        ),
    )
}

/// The `/services` registration of a signed descriptor.
pub open spec fn service_registration_pairs(identifier: Seq<char>, signed: JsonValue) -> Seq<
    (Seq<char>, JsonValue),
> {
    seq![
        ("identifier"@, JsonValue::Str(identifier)),
        ("version"@, JsonValue::Str("1.0.0"@)),
        ("effective_from"@, JsonValue::Str("2026-09-01T00:00:00Z"@)),
        ("body"@, signed),
        ("signature"@, crate::json::field_or_null(signed, "signature"@)),
    ]
}

/// The `POST /services` body: the signed C3 self-descriptor of the
/// jurisdiction's registry (class `registry`, the default protocol
/// binding, status `active`).
pub fn service_registration(
    operator: &Operator,
    jur: &str,
    endpoint_uri: &str,
    residency: &str,
) -> (r: Json)
    ensures
        ({
            let record = JsonValue::Object(object_from(operator_record(operator.public_key())));
            let signed = signed_descriptor(
                service_descriptor(record, jur@, endpoint_uri@, residency@),
                derived_id("k-"@, "key"@, operator.public_key()),
                operator.secret_key(),
            );
            r@ == JsonValue::Object(
                object_from(service_registration_pairs(service_identifier(jur@), signed)),
            )
        }),
{
    let lower_jur = to_lowercase(jur);
    let identifier = crate::text::concat3("registry-", lower_jur.as_str(), "-v1");
    let mut endpoint: Vec<(String, Json)> = Vec::new();
    endpoint.push(("uri".to_owned(), Json::str(endpoint_uri)));
    endpoint.push(("protocol_binding_ref".to_owned(), Json::str(DEFAULT_PROTOCOL_BINDING)));
    assert(pairs_view(endpoint@) =~= service_endpoint(endpoint_uri@));
    let mut endpoints: Vec<Json> = Vec::new();
    endpoints.push(json_object(endpoint));
    let endpoints_value = json_array(endpoints);
    let ghost ev = endpoints_value@;
    assert(ev == JsonValue::Array(seq![JsonValue::Object(object_from(service_endpoint(endpoint_uri@)))])) by {
        assert(items_view(endpoints@) =~= seq![JsonValue::Object(object_from(service_endpoint(endpoint_uri@)))]);
    }
    let mut body: Vec<(String, Json)> = Vec::new();
    body.push(("identifier".to_owned(), Json::Str(identifier.clone())));
    body.push(("operator".to_owned(), operator.record()));
    body.push(("class".to_owned(), Json::str("registry")));
    body.push(("endpoints".to_owned(), endpoints_value));
    body.push(("protocol_binding_ref".to_owned(), Json::str(DEFAULT_PROTOCOL_BINDING)));
    body.push(("jurisdiction".to_owned(), Json::str(jur)));
    body.push(("residency_class".to_owned(), Json::str(residency)));
    body.push(("status".to_owned(), Json::str("active")));
    body.push(("service_kind".to_owned(), Json::str("jurisdictional-registry")));
    body.push(("succession_pointer".to_owned(), Json::Null));
    let ghost record = JsonValue::Object(object_from(operator_record(operator.public_key())));
    assert(pairs_view(body@) =~= service_descriptor(record, jur@, endpoint_uri@, residency@));
    let descriptor = json_object(body);
    let signed = operator.sign(&descriptor);
    let signature = match signed.get("signature") {
        Some(s) => s.copy(),
        None => Json::Null,
    };
    let mut reg: Vec<(String, Json)> = Vec::new();
    reg.push(("identifier".to_owned(), Json::Str(identifier)));
    reg.push(("version".to_owned(), Json::str("1.0.0")));
    reg.push(("effective_from".to_owned(), Json::str("2026-09-01T00:00:00Z")));
    let ghost sv = signed@;
    reg.push(("body".to_owned(), signed));
    reg.push(("signature".to_owned(), signature));
    assert(pairs_view(reg@) =~= service_registration_pairs(service_identifier(jur@), sv));
    json_object(reg)
}

/// What the registry's answer to the descriptor registration means: `201`
/// registered, `409` already there, anything else a failure.
pub fn service_outcome(identifier: &str, status: u16, resp: &Json) -> (r: Result<String, String>)
    ensures
        status == 201 ==> r is Ok && r->Ok_0@
            == "registered C3 self-descriptor `"@ + identifier@ + "` (audit_seq "@ + audit_seq(
            resp@,
        ) + ")"@,
        status == 409 ==> r is Ok && r->Ok_0@ == "C3 self-descriptor `"@ + identifier@
            + "` already registered"@,
        status != 201 && status != 409 ==> r is Err && r->Err_0@ == failure(
            "service registration failed"@,
            status,
            resp@,
        ),
{
    if status == 201 {
        let mut line = crate::text::concat3("registered C3 self-descriptor `", identifier, "` (audit_seq ");
        let seq_text = audit_seq_text(resp);
        line.append(seq_text.as_str());
        line.append(")");
        Ok(line)
    } else if status == 409 {
        Ok(crate::text::concat3("C3 self-descriptor `", identifier, "` already registered"))
    } else {
        Err(failure_message("service registration failed", status, resp))
    }
}


// ---------------------------------------------------------------------------
// The sample data elements
// ---------------------------------------------------------------------------

/// A sample data element the profile's data points reference.
pub struct SampleElement {
    pub item_id: &'static str,
    pub definition: &'static str,
    pub provenance: &'static str,
    pub granularity: &'static str,
    pub trust_floor: &'static str,
    pub min_capability: &'static str,
    pub manifest: Json,
}

/// A sample data element as mathematics.
pub struct SampleElementView {
    pub item_id: Seq<char>,
    pub definition: Seq<char>,
    pub provenance: Seq<char>,
    pub granularity: Seq<char>,
    pub trust_floor: Seq<char>,
    pub min_capability: Seq<char>,
    pub manifest: JsonValue,
}

impl SampleElement {
    pub open spec fn view(&self) -> SampleElementView {
        SampleElementView {
            item_id: self.item_id@,
            definition: self.definition@,
            provenance: self.provenance@,
            granularity: self.granularity@,
            trust_floor: self.trust_floor@,
            min_capability: self.min_capability@,
            manifest: self.manifest@,
        }
    }
}

/// A sample element's manifest.
pub open spec fn element_manifest(unit_ref: JsonValue, datatype: Seq<char>, representation: Seq<char>) -> Seq<
    (Seq<char>, JsonValue),
> {
    seq![
        ("version"@, JsonValue::Str("1.0.0"@)),
        ("unit_ref"@, unit_ref),
        ("datatype"@, JsonValue::Str(datatype)),
        ("representation"@, JsonValue::Str(representation)),
        ("source_register"@, JsonValue::Str("sample national RA entry"@)),
    ]
}

/// The three sample elements: battery carbon footprint, recycled content,
/// due-diligence statement.
pub open spec fn sample_element_views() -> Seq<SampleElementView> {
    seq![
        SampleElementView {
            item_id: "urn:unidpp:de:battery-carbon-footprint"@,
            definition: "Carbon footprint of the battery, declared per the applicable delegated regulation (kg CO2e per battery, life-cycle)"@,
            provenance: "attested"@,
            granularity: "instance"@,
            trust_floor: "attested"@,
            min_capability: "S1"@,
            manifest: JsonValue::Object(
                object_from(
                    element_manifest(
                        JsonValue::Str("unit-kg"@),
                        "decimal(9,3)"@,
                        "ISO 80000-1 quantity value"@,
                    ),
                ),
            ),
        },
        SampleElementView {
            item_id: "urn:unidpp:de:battery-recycled-content"@,
            definition: "Share of recycled content recovered from waste in the active material of the battery, percent by mass"@,
            provenance: "attested"@,
            granularity: "type"@,
            trust_floor: "attested"@,
            min_capability: "S1"@,
            manifest: JsonValue::Object(
                object_from(
                    element_manifest(JsonValue::Null, "decimal(5,2)"@, "percentage 0-100"@),
                ),
            ),
        },
        SampleElementView {
            item_id: "urn:unidpp:de:battery-due-diligence-statement"@,
            definition: "Reference to the due-diligence statement and verification report covering raw-material supply chains of the battery"@,
            provenance: "log_anchored"@,
            granularity: "type"@,
            trust_floor: "log_anchored"@,
            min_capability: "S1"@,
            manifest: JsonValue::Object(
                object_from(
                    element_manifest(JsonValue::Null, "uri"@, "signed document reference"@),
                ),
            ),
        },
    ]
}

fn manifest_of(unit_ref: Json, datatype: &str, representation: &str) -> (r: Json)
    ensures
        r@ == JsonValue::Object(object_from(element_manifest(unit_ref@, datatype@, representation@))),
{
    let ghost u = unit_ref@;
    let mut pairs: Vec<(String, Json)> = Vec::new();
    pairs.push(("version".to_owned(), Json::str("1.0.0")));
    pairs.push(("unit_ref".to_owned(), unit_ref));
    pairs.push(("datatype".to_owned(), Json::str(datatype)));
    pairs.push(("representation".to_owned(), Json::str(representation)));
    pairs.push(("source_register".to_owned(), Json::str("sample national RA entry")));
    assert(pairs_view(pairs@) =~= element_manifest(u, datatype@, representation@));
    json_object(pairs)
}

/// The sample data elements.
pub fn sample_elements() -> (r: Vec<SampleElement>)
    ensures
        r@.len() == 3,
        forall|i: int| 0 <= i < 3 ==> (#[trigger] r@[i]).view() == sample_element_views()[i],
{
    let mut r: Vec<SampleElement> = Vec::new();
    r.push(
        SampleElement {
            item_id: "urn:unidpp:de:battery-carbon-footprint",
            definition: "Carbon footprint of the battery, declared per the applicable delegated regulation (kg CO2e per battery, life-cycle)",
            provenance: "attested",
            granularity: "instance",
            trust_floor: "attested",
            min_capability: "S1",
            manifest: manifest_of(
                Json::str("unit-kg"),
                "decimal(9,3)",
                "ISO 80000-1 quantity value",
            ),
        },
    );
    r.push(
        SampleElement {
            item_id: "urn:unidpp:de:battery-recycled-content",
            definition: "Share of recycled content recovered from waste in the active material of the battery, percent by mass",
            provenance: "attested",
            granularity: "type",
            trust_floor: "attested",
            min_capability: "S1",
            manifest: manifest_of(Json::Null, "decimal(5,2)", "percentage 0-100"),
        },
    );
    r.push(
        SampleElement {
            item_id: "urn:unidpp:de:battery-due-diligence-statement",
            definition: "Reference to the due-diligence statement and verification report covering raw-material supply chains of the battery",
            provenance: "log_anchored",
            granularity: "type",
            trust_floor: "log_anchored",
            min_capability: "S1",
            manifest: manifest_of(Json::Null, "uri", "signed document reference"),
        },
    );
    r
}

/// The organization that submits a jurisdiction's sample items.
pub open spec fn submitting_organization(jur: Seq<char>) -> Seq<char> {
    jur + " national registry authority (kit sample)"@
}

/// The `POST /data-elements` body of a sample element.
pub open spec fn element_registration_pairs(
    jur: Seq<char>,
    register: Seq<char>,
    el: SampleElementView,
) -> Seq<(Seq<char>, JsonValue)> {
    seq![
        ("register_id"@, JsonValue::Str(register)),
        ("item_id"@, JsonValue::Str(el.item_id)),
        ("definition"@, JsonValue::Str(el.definition)),
        ("version"@, JsonValue::Str("1.0.0"@)),
        ("effective_from"@, JsonValue::Str("2026-10-01T00:00:00Z"@)),
        ("submitting_organization"@, JsonValue::Str(submitting_organization(jur))),
        ("manifest"@, el.manifest),
    ]
}

/// The registration of a sample element in the jurisdiction's register.
pub fn element_registration(jur: &str, register: &str, el: &SampleElement) -> (r: Json)
    ensures
        r@ == JsonValue::Object(object_from(element_registration_pairs(jur@, register@, el.view()))),
{
    let mut pairs: Vec<(String, Json)> = Vec::new();
    pairs.push(("register_id".to_owned(), Json::str(register)));
    pairs.push(("item_id".to_owned(), Json::str(el.item_id)));
    pairs.push(("definition".to_owned(), Json::str(el.definition)));
    pairs.push(("version".to_owned(), Json::str("1.0.0")));
    pairs.push(("effective_from".to_owned(), Json::str("2026-10-01T00:00:00Z")));
    pairs.push(
        (
            "submitting_organization".to_owned(),
            Json::Str(crate::text::concat2(jur, " national registry authority (kit sample)")),
        ),
    );
    pairs.push(("manifest".to_owned(), el.manifest.copy()));
    assert(pairs_view(pairs@) =~= element_registration_pairs(jur@, register@, el.view()));
    json_object(pairs)
}

/// What the registry's answer to a sample element registration means.
pub fn element_outcome(item_id: &str, status: u16, resp: &Json) -> (r: Result<String, String>)
    ensures
        status == 201 ==> r is Ok && r->Ok_0@ == "- registered data element `"@ + item_id@
            + "` (audit_seq "@ + audit_seq(resp@) + ")"@,
        status == 409 ==> r is Ok && r->Ok_0@ == "- data element `"@ + item_id@
            + "` already registered"@,
        status != 201 && status != 409 ==> r is Err && r->Err_0@ == failure(
            "data element `"@ + item_id@ + "` failed"@,
            status,
            resp@,
        ),
{
    if status == 201 {
        let mut line = crate::text::concat3("- registered data element `", item_id, "` (audit_seq ");
        let seq_text = audit_seq_text(resp);
        line.append(seq_text.as_str());
        line.append(")");
        Ok(line)
    } else if status == 409 {
        Ok(crate::text::concat3("- data element `", item_id, "` already registered"))
    } else {
        let what = crate::text::concat3("data element `", item_id, "` failed");
        Err(failure_message(what.as_str(), status, resp))
    }
}

// ---------------------------------------------------------------------------
// The jurisdictional profile
// ---------------------------------------------------------------------------

/// The profile's item id: `urn:unidpp:profile:<jur>-battery-passport`.
pub open spec fn profile_id(jur: Seq<char>) -> Seq<char> {
    "urn:unidpp:profile:"@ + lowercase(jur) + "-battery-passport"@
}

/// The data point that references a sample element.
pub open spec fn data_point(el: SampleElementView) -> JsonValue {
    JsonValue::Object(
        object_from(
            seq![
                ("element"@, JsonValue::Str(el.item_id)),
                ("cardinality"@, JsonValue::Str("1"@)),
                ("min_capability"@, JsonValue::Str(el.min_capability)),
                ("required_provenance"@, JsonValue::Str(el.provenance)),
                ("subject_granularity"@, JsonValue::Str(el.granularity)),
                ("trust_floor"@, JsonValue::Str(el.trust_floor)),
            ],
        ),
    )
}

/// The profile manifest before signing.
pub open spec fn profile_manifest(data_points: Seq<JsonValue>) -> Seq<(Seq<char>, JsonValue)> {
    seq![
        ("version"@, JsonValue::Str("1.0.0"@)),
        ("axes"@, JsonValue::Array(seq![JsonValue::Str("jurisdiction"@)])),
        ("data_points"@, JsonValue::Array(data_points)),
        ("custody"@, JsonValue::Object(
            object_from(
                seq![
                    ("default_model"@, JsonValue::Str("identity_preserved"@)),
                    ("standard"@, JsonValue::Str("ISO 22095:2020"@)),
                ],
            ),
        )),
        ("legal_basis"@, JsonValue::Array(
            seq![
                JsonValue::Object(
                    object_from(
                        seq![
                            ("instrument"@, JsonValue::Str(
                                "Regulation (EU) 2023/1542 (batteries) Art. 77 — digital product passport"@,
                            )),
                            ("force"@, JsonValue::Str("binding"@)),
                            ("citation"@, JsonValue::Str("obligation applies from 2027-02-18"@)),
                        ],
                    ),
                ),
            ],
        )),
        ("triggers"@, JsonValue::Array(
            seq![
                JsonValue::Object(
                    object_from(
                        seq![
                            ("description"@, JsonValue::Str(
                                "battery of a covered category placed on the market"@,
                            )),
                            ("evaluation_mode"@, JsonValue::Str("on_issuance"@)),
                            ("predicate_class"@, JsonValue::Str("fact_predicate"@)),
                            ("predicate_ref"@, JsonValue::Str("pred/battery-dpp-obligation"@)),
                        ],
                    ),
                ),
            ],
        )),
    ]
}

/// A manifest signed by the operator (see `Operator::sign_manifest`).
pub open spec fn signed_manifest(
    manifest: Seq<(Seq<char>, JsonValue)>,
    key_id: Seq<char>,
    secret: Seq<u8>,
) -> JsonValue {
    let completed = completed_manifest(object_from(manifest), key_id);
    JsonValue::Object(
        spec_insert(
            completed,
            "signature"@,
            JsonValue::Object(
                object_from(
                    manifest_signature(
                        key_id,
                        ed25519_signature(secret, canonical_bytes(JsonValue::Object(completed))),
                    ),
                ),
            ),
        ),
    )
}

/// The profile's definition.
pub open spec fn profile_definition(jur: Seq<char>) -> Seq<char> {
    jur
        + " jurisdictional battery DPP profile: placement obligation, carbon footprint, recycled content and due-diligence data points for batteries placed on the "@
        + jur + " market"@
}

/// The `POST /profiles` body.
pub open spec fn profile_registration_pairs(
    jur: Seq<char>,
    register: Seq<char>,
    manifest: JsonValue,
) -> Seq<(Seq<char>, JsonValue)> {
    seq![
        ("register_id"@, JsonValue::Str(register)),
        ("item_id"@, JsonValue::Str(profile_id(jur))),
        ("definition"@, JsonValue::Str(profile_definition(jur))),
        ("version"@, JsonValue::Str("1.0.0"@)),
        ("effective_from"@, JsonValue::Str("2027-02-18T00:00:00Z"@)),
        ("submitting_organization"@, JsonValue::Str(submitting_organization(jur))),
        ("manifest"@, manifest),
    ]
}

fn data_point_of(el: &SampleElement) -> (r: Json)
    ensures
        r@ == data_point(el.view()),
{
    let mut pairs: Vec<(String, Json)> = Vec::new();
    pairs.push(("element".to_owned(), Json::str(el.item_id)));
    pairs.push(("cardinality".to_owned(), Json::str("1")));
    pairs.push(("min_capability".to_owned(), Json::str(el.min_capability)));
    pairs.push(("required_provenance".to_owned(), Json::str(el.provenance)));
    pairs.push(("subject_granularity".to_owned(), Json::str(el.granularity)));
    pairs.push(("trust_floor".to_owned(), Json::str(el.trust_floor)));
    assert(pairs_view(pairs@) =~= seq![
        ("element"@, JsonValue::Str(el.item_id@)),
        ("cardinality"@, JsonValue::Str("1"@)),
        ("min_capability"@, JsonValue::Str(el.min_capability@)),
        ("required_provenance"@, JsonValue::Str(el.provenance@)),
        ("subject_granularity"@, JsonValue::Str(el.granularity@)),
        ("trust_floor"@, JsonValue::Str(el.trust_floor@)),
    ]);
    json_object(pairs)
}

fn single(j: Json) -> (r: Json)
    ensures
        r@ == JsonValue::Array(seq![j@]),
{
    let ghost v = j@;
    let mut items: Vec<Json> = Vec::new();
    items.push(j);
    assert(items_view(items@) =~= seq![v]);
    json_array(items)
}

fn unsigned_profile_manifest(elements: &Vec<SampleElement>) -> (r: Json)
    ensures
        r@ == JsonValue::Object(
            object_from(profile_manifest(elements@.map_values(|e: SampleElement| data_point(e.view())))),
        ),
{
    let mut points: Vec<Json> = Vec::new();
    let mut i: usize = 0;
    while i < elements.len()
        invariant
            i <= elements@.len(),
            points@.len() == i,
            forall|j: int| 0 <= j < i ==> (#[trigger] points@[j])@ == data_point(elements@[j].view()),
        decreases elements@.len() - i,
    {
        points.push(data_point_of(&elements[i]));
        i = i + 1;
    }
    let ghost dp = elements@.map_values(|e: SampleElement| data_point(e.view()));
    assert(items_view(points@) =~= dp);
    let axes = single(Json::str("jurisdiction"));
    let mut custody: Vec<(String, Json)> = Vec::new();
    custody.push(("default_model".to_owned(), Json::str("identity_preserved")));
    custody.push(("standard".to_owned(), Json::str("ISO 22095:2020")));
    assert(pairs_view(custody@) =~= seq![
        ("default_model"@, JsonValue::Str("identity_preserved"@)),
        ("standard"@, JsonValue::Str("ISO 22095:2020"@)),
    ]);
    let mut legal: Vec<(String, Json)> = Vec::new();
    legal.push(
        (
            "instrument".to_owned(),
            Json::str("Regulation (EU) 2023/1542 (batteries) Art. 77 — digital product passport"),
        ),
    );
    legal.push(("force".to_owned(), Json::str("binding")));
    legal.push(("citation".to_owned(), Json::str("obligation applies from 2027-02-18")));
    assert(pairs_view(legal@) =~= seq![
        ("instrument"@, JsonValue::Str(
            "Regulation (EU) 2023/1542 (batteries) Art. 77 — digital product passport"@,
        )),
        ("force"@, JsonValue::Str("binding"@)),
        ("citation"@, JsonValue::Str("obligation applies from 2027-02-18"@)),
    ]);
    let mut trigger: Vec<(String, Json)> = Vec::new();
    trigger.push(
        ("description".to_owned(), Json::str("battery of a covered category placed on the market")),
    );
    trigger.push(("evaluation_mode".to_owned(), Json::str("on_issuance")));
    trigger.push(("predicate_class".to_owned(), Json::str("fact_predicate")));
    trigger.push(("predicate_ref".to_owned(), Json::str("pred/battery-dpp-obligation")));
    assert(pairs_view(trigger@) =~= seq![
        ("description"@, JsonValue::Str("battery of a covered category placed on the market"@)),
        ("evaluation_mode"@, JsonValue::Str("on_issuance"@)),
        ("predicate_class"@, JsonValue::Str("fact_predicate"@)),
        ("predicate_ref"@, JsonValue::Str("pred/battery-dpp-obligation"@)),
    ]);
    let mut pairs: Vec<(String, Json)> = Vec::new();
    pairs.push(("version".to_owned(), Json::str("1.0.0")));
    pairs.push(("axes".to_owned(), axes));
    pairs.push(("data_points".to_owned(), json_array(points)));
    pairs.push(("custody".to_owned(), json_object(custody)));
    pairs.push(("legal_basis".to_owned(), single(json_object(legal))));
    pairs.push(("triggers".to_owned(), single(json_object(trigger))));
    assert(pairs_view(pairs@) =~= profile_manifest(dp));
    json_object(pairs)
}

/// The `POST /profiles` body: the jurisdictional battery DPP profile, its
/// manifest in the signed form (one data point per sample element).
pub fn profile_registration(
    operator: &Operator,
    jur: &str,
    register: &str,
    elements: &Vec<SampleElement>,
) -> (r: Json)
    ensures
        r@ == JsonValue::Object(
            object_from(
                profile_registration_pairs(
                    jur@,
                    register@,
                    signed_manifest(
                        profile_manifest(
                            elements@.map_values(|e: SampleElement| data_point(e.view())),
                        ),
                        derived_id("k-"@, "key"@, operator.public_key()),
                        operator.secret_key(),
                    ),
                ),
            ),
        ),
{
    let lower_jur = to_lowercase(jur);
    let item_id = crate::text::concat3("urn:unidpp:profile:", lower_jur.as_str(), "-battery-passport");
    let manifest = operator.sign_manifest(&unsigned_profile_manifest(elements));
    let mut definition = crate::text::concat2(
        jur,
        " jurisdictional battery DPP profile: placement obligation, carbon footprint, recycled content and due-diligence data points for batteries placed on the ",
    );
    definition.append(jur);
    definition.append(" market");
    let ghost mv = manifest@;
    let mut pairs: Vec<(String, Json)> = Vec::new();
    pairs.push(("register_id".to_owned(), Json::str(register)));
    pairs.push(("item_id".to_owned(), Json::Str(item_id)));
    pairs.push(("definition".to_owned(), Json::Str(definition)));
    pairs.push(("version".to_owned(), Json::str("1.0.0")));
    pairs.push(("effective_from".to_owned(), Json::str("2027-02-18T00:00:00Z")));
    pairs.push(
        (
            "submitting_organization".to_owned(),
            Json::Str(crate::text::concat2(jur, " national registry authority (kit sample)")),
        ),
    );
    pairs.push(("manifest".to_owned(), manifest));
    assert(pairs_view(pairs@) =~= profile_registration_pairs(jur@, register@, mv));
    json_object(pairs)
}

/// What the registry's answer to the profile registration means: the
/// profile's id and the line to report, or the failure.
pub fn profile_outcome(jur: &str, status: u16, resp: &Json) -> (r: Result<(String, String), String>)
    ensures
        status == 201 ==> r is Ok && r->Ok_0.0@ == profile_id(jur@) && r->Ok_0.1@
            == "registered profile `"@ + profile_id(jur@) + "` (audit_seq "@ + audit_seq(resp@)
            + ")"@,
        status == 409 ==> r is Ok && r->Ok_0.0@ == profile_id(jur@) && r->Ok_0.1@
            == "profile `"@ + profile_id(jur@) + "` already registered"@,
        status != 201 && status != 409 ==> r is Err && r->Err_0@ == failure(
            "profile registration failed"@,
            status,
            resp@,
        ),
{
    let lower_jur = to_lowercase(jur);
    let item_id = crate::text::concat3("urn:unidpp:profile:", lower_jur.as_str(), "-battery-passport");
    if status == 201 {
        let mut line = crate::text::concat3("registered profile `", item_id.as_str(), "` (audit_seq ");
        let seq_text = audit_seq_text(resp);
        line.append(seq_text.as_str());
        line.append(")");
        Ok((item_id, line))
    } else if status == 409 {
        let line = crate::text::concat3("profile `", item_id.as_str(), "` already registered");
        Ok((item_id, line))
    } else {
        Err(failure_message("profile registration failed", status, resp))
    }
}

// ---------------------------------------------------------------------------
// The applicability binding
// ---------------------------------------------------------------------------

/// The binding's effective date.
pub open spec fn binding_effective() -> Seq<char> {
    "2027-02-18T00:00:00Z"@
}

/// The identity-keyed applicability read for a product type at the
/// binding's effective date.
pub open spec fn applicability_path(product_type: Seq<char>) -> Seq<char> {
    "/applicability?product_type="@ + percent_encode(encode_utf8(product_type)) + "&at="@
        + percent_encode(encode_utf8(binding_effective()))
}

/// The applicability read of the idempotency check.
pub fn applicability_query(product_type: &str) -> (r: String)
    ensures
        r@ == applicability_path(product_type@),
{
    let mut r = "/applicability?product_type=".to_owned();
    let q = quote(product_type);
    r.append(q.as_str());
    r.append("&at=");
    let e = quote("2027-02-18T00:00:00Z");
    r.append(e.as_str());
    r
}

/// Whether an applicability entry's binding names the profile.
pub open spec fn entry_binds(entry: JsonValue, profile: Seq<char>) -> bool {
    match field(entry, "binding"@) {
        Some(b) => field(b, "profile_item"@) == Some(JsonValue::Str(profile)),
        None => false,
    }
}

/// Whether an applicability answer shows the profile in force: a `200`
/// whose `applicability` array holds an entry bound to the profile.
pub open spec fn binding_in_force_spec(status: u16, resp: JsonValue, profile: Seq<char>) -> bool {
    status == 200 && match field(resp, "applicability"@) {
        Some(JsonValue::Array(entries)) => some_entry_binds(entries, profile),
        _ => false,
    }
}

/// Whether some entry's binding names the profile.
pub open spec fn some_entry_binds(entries: Seq<JsonValue>, profile: Seq<char>) -> bool {
    exists|i: int| 0 <= i < entries.len() && entry_binds(#[trigger] entries[i], profile)
}

/// Whether the profile already applies to the subject (the idempotency
/// check before a binding is created).
pub fn binding_in_force(status: u16, resp: &Json, profile: &str) -> (r: bool)
    ensures
        r == binding_in_force_spec(status, resp@, profile@),
{
    if status != 200 {
        return false;
    }
    let entries = match resp.get("applicability") {
        Some(a) => match a.as_array() {
            Some(v) => v,
            None => return false,
        },
        None => return false,
    };
    let ghost ev = field(resp@, "applicability"@)->Some_0->Array_0;
    let mut i: usize = 0;
    while i < entries.len()
        invariant
            i <= entries@.len(),
            status == 200,
            field(resp@, "applicability"@) == Some(JsonValue::Array(ev)),
            ev.len() == entries@.len(),
            forall|j: int| 0 <= j < entries@.len() ==> (#[trigger] entries@[j])@ == ev[j],
            forall|j: int| 0 <= j < i ==> !entry_binds(#[trigger] ev[j], profile@),
        decreases entries@.len() - i,
    {
        let entry = &entries[i];
        let binds = match entry.get("binding") {
            Some(b) => match b.get("profile_item") {
                Some(p) => match p.as_str() {
                    Some(t) => str_eq(t, profile),
                    None => false,
                },
                None => false,
            },
            None => false,
        };
        if binds {
            assert(entry_binds(ev[i as int], profile@));
            assert(some_entry_binds(ev, profile@));
            return true;
        }
        assert(!entry_binds(ev[i as int], profile@));
        i = i + 1;
    }
    false
}

/// The `POST /applicability` body: a non-retroactive binding from the
/// effective date.
pub open spec fn binding_pairs(profile: Seq<char>, product_type: Seq<char>) -> Seq<
    (Seq<char>, JsonValue),
> {
    seq![
        ("profile_id"@, JsonValue::Str(profile)),
        ("product_type"@, JsonValue::Str(product_type)),
        ("effective_from"@, JsonValue::Str(binding_effective())),
        ("retroactive"@, JsonValue::Bool(false)),
    ]
}

/// The binding of the profile to a product type.
pub fn binding_registration(profile: &str, product_type: &str) -> (r: Json)
    ensures
        r@ == JsonValue::Object(object_from(binding_pairs(profile@, product_type@))),
{
    let mut pairs: Vec<(String, Json)> = Vec::new();
    pairs.push(("profile_id".to_owned(), Json::str(profile)));
    pairs.push(("product_type".to_owned(), Json::str(product_type)));
    pairs.push(("effective_from".to_owned(), Json::str("2027-02-18T00:00:00Z")));
    pairs.push(("retroactive".to_owned(), Json::Bool(false)));
    assert(pairs_view(pairs@) =~= binding_pairs(profile@, product_type@));
    json_object(pairs)
}

/// The line reported when the binding is already in force.
pub fn binding_present_line(product_type: &str) -> (r: String)
    ensures
        r@ == "applicability binding already in force for `"@ + product_type@ + "`"@,
{
    crate::text::concat3("applicability binding already in force for `", product_type, "`")
}

/// What the registry's answer to the binding means: `201` bound, anything
/// else a failure.
pub fn binding_outcome(product_type: &str, status: u16, resp: &Json) -> (r: Result<String, String>)
    ensures
        status == 201 ==> r is Ok && r->Ok_0@ == "bound profile to `"@ + product_type@
            + "` from "@ + binding_effective() + " (audit_seq "@ + audit_seq(resp@)
            + ", non-retroactive)"@,
        status != 201 ==> r is Err && r->Err_0@ == failure(
            "applicability binding failed"@,
            status,
            resp@,
        ),
{
    if status == 201 {
        let mut line = crate::text::concat3("bound profile to `", product_type, "` from ");
        line.append("2027-02-18T00:00:00Z");
        line.append(" (audit_seq ");
        let seq_text = audit_seq_text(resp);
        line.append(seq_text.as_str());
        line.append(", non-retroactive)");
        Ok(line)
    } else {
        Err(failure_message("applicability binding failed", status, resp))
    }
}

// ---------------------------------------------------------------------------
// The run
// ---------------------------------------------------------------------------

/// The `POST /services` body of a jurisdiction: its self-descriptor signed
/// by the operator (public key `pk`, secret key `sk`).
pub open spec fn service_body(
    pk: Seq<u8>,
    sk: Seq<u8>,
    jur: Seq<char>,
    endpoint_uri: Seq<char>,
    residency: Seq<char>,
) -> JsonValue {
    let record = JsonValue::Object(object_from(operator_record(pk)));
    let signed = signed_descriptor(
        service_descriptor(record, jur, endpoint_uri, residency),
        derived_id("k-"@, "key"@, pk),
        sk,
    );
    JsonValue::Object(object_from(service_registration_pairs(service_identifier(jur), signed)))
}

/// The `POST /profiles` body of a jurisdiction: its profile, the manifest
/// signed by the operator, one data point per sample element.
pub open spec fn profile_body(pk: Seq<u8>, sk: Seq<u8>, jur: Seq<char>, register: Seq<char>) -> JsonValue {
    JsonValue::Object(
        object_from(
            profile_registration_pairs(
                jur,
                register,
                signed_manifest(
                    profile_manifest(sample_element_views().map_values(|e: SampleElementView| data_point(e))),
                    derived_id("k-"@, "key"@, pk),
                    sk,
                ),
            ),
        ),
    )
}

/// Where a `seed-jurisdiction` run stands: the jurisdiction and product
/// type, the bodies it posts (the self-descriptor, each sample element with
/// its item id, the profile), how many of its requests have been answered,
/// and its ending once it has one.
pub struct JurisdictionRunView {
    pub jurisdiction: Seq<char>,
    pub product_type: Seq<char>,
    pub service: JsonValue,
    pub elements: Seq<(Seq<char>, JsonValue)>,
    pub profile: JsonValue,
    pub stage: nat,
    pub end: Option<(bool, Option<Seq<char>>)>,
}

/// The request a run makes at each stage: the self-descriptor, each sample
/// element in turn, the profile, the applicability read of the product
/// type, and the binding; then its ending.
pub open spec fn jurisdiction_action(v: JurisdictionRunView) -> SeedActionView {
    let n = v.elements.len();
    match v.end {
        Some((ok, message)) => SeedActionView::Finish { ok, message },
        None => if v.stage == 0 {
            SeedActionView::Post { path: "/services"@, body: v.service }
        } else if v.stage <= n {
            SeedActionView::Post { path: "/data-elements"@, body: v.elements[v.stage - 1].1 }
        } else if v.stage == n + 1 {
            SeedActionView::Post { path: "/profiles"@, body: v.profile }
        } else if v.stage == n + 2 {
            SeedActionView::Get { path: applicability_path(v.product_type) }
        } else {
            SeedActionView::Post {
                path: "/applicability"@,
                body: JsonValue::Object(
                    object_from(binding_pairs(profile_id(v.jurisdiction), v.product_type)),
                ),
            }
        },
    }
}

/// The failure that ends the run at a registration stage.
pub open spec fn ends_with(v: JurisdictionRunView, message: Seq<char>) -> JurisdictionRunView {
    JurisdictionRunView { end: Some((false, Some(message))), ..v }
}

/// A run after the answer to its current request, with the lines it
/// reports. Each registration goes on after `201` or `409` and ends the run
/// with its failure report after anything else. The applicability read
/// ends the run in success when the profile is already in force for the
/// product type; otherwise the binding is posted, and the run succeeds
/// exactly when it answers `201`.
pub open spec fn jurisdiction_after(v: JurisdictionRunView, status: u16, resp: JsonValue) -> (
    JurisdictionRunView,
    Seq<Seq<char>>,
) {
    let n = v.elements.len();
    let accepted = status == 201 || status == 409;
    let next = JurisdictionRunView { stage: v.stage + 1, ..v };
    if v.stage == 0 {
        let id = service_identifier(v.jurisdiction);
        if !accepted {
            (ends_with(v, failure("service registration failed"@, status, resp)), Seq::empty())
        } else if status == 201 {
            (next, seq!["- "@ + ("registered C3 self-descriptor `"@ + id + "` (audit_seq "@ + audit_seq(resp) + ")"@)])
        } else {
            (next, seq!["- "@ + ("C3 self-descriptor `"@ + id + "` already registered"@)])
        }
    } else if v.stage <= n {
        let id = v.elements[v.stage - 1].0;
        if !accepted {
            (ends_with(v, failure("data element `"@ + id + "` failed"@, status, resp)), Seq::empty())
        } else if status == 201 {
            (next, seq!["- registered data element `"@ + id + "` (audit_seq "@ + audit_seq(resp) + ")"@])
        } else {
            (next, seq!["- data element `"@ + id + "` already registered"@])
        }
    } else if v.stage == n + 1 {
        let id = profile_id(v.jurisdiction);
        if !accepted {
            (ends_with(v, failure("profile registration failed"@, status, resp)), Seq::empty())
        } else if status == 201 {
            (next, seq!["- "@ + ("registered profile `"@ + id + "` (audit_seq "@ + audit_seq(resp) + ")"@)])
        } else {
            (next, seq!["- "@ + ("profile `"@ + id + "` already registered"@)])
        }
    } else if v.stage == n + 2 {
        if binding_in_force_spec(status, resp, profile_id(v.jurisdiction)) {
            (
                JurisdictionRunView { end: Some((true, None)), ..v },
                seq!["- "@ + ("applicability binding already in force for `"@ + v.product_type + "`"@)],
            )
        } else {
            (next, Seq::empty())
        }
    } else if status == 201 {
        (
            JurisdictionRunView { end: Some((true, None)), ..v },
            seq![
                "- "@ + ("bound profile to `"@ + v.product_type + "` from "@ + binding_effective()
                    + " (audit_seq "@ + audit_seq(resp) + ", non-retroactive)"@),
            ],
        )
    } else {
        (ends_with(v, failure("applicability binding failed"@, status, resp)), Seq::empty())
    }
}

/// A run after a sequence of answers, one per request (answers after its
/// ending change nothing).
pub open spec fn jurisdiction_replay(v: JurisdictionRunView, replies: Seq<(u16, JsonValue)>) -> JurisdictionRunView
    decreases replies.len(),
{
    if replies.len() == 0 || v.end is Some {
        v
    } else {
        jurisdiction_replay(jurisdiction_after(v, replies[0].0, replies[0].1).0, replies.drop_first())
    }
}

spec fn succeeds_from(stage: nat, profile: Seq<char>, replies: Seq<(u16, JsonValue)>) -> bool
    decreases replies.len(),
{
    if replies.len() == 0 {
        false
    } else if stage < 5 {
        (replies[0].0 == 201 || replies[0].0 == 409) && succeeds_from(
            stage + 1,
            profile,
            replies.drop_first(),
        )
    } else if stage == 5 {
        binding_in_force_spec(replies[0].0, replies[0].1, profile) || succeeds_from(
            6,
            profile,
            replies.drop_first(),
        )
    } else {
        replies[0].0 == 201
    }
}

proof fn lemma_jurisdiction_replay_from(v: JurisdictionRunView, replies: Seq<(u16, JsonValue)>)
    requires
        v.end is None,
        v.elements.len() == 3,
        v.stage <= 6,
    ensures
        jurisdiction_replay(v, replies).end == Some((true, None::<Seq<char>>)) <==> succeeds_from(
            v.stage,
            profile_id(v.jurisdiction),
            replies,
        ),
    decreases replies.len(),
{
    if replies.len() == 0 {
        return;
    }
    let (status, resp) = replies[0];
    let w = jurisdiction_after(v, status, resp).0;
    let rest = replies.drop_first();
    assert(jurisdiction_replay(v, replies) == jurisdiction_replay(w, rest));
    if w.end is None {
        assert(w.stage == v.stage + 1 && w.elements == v.elements && w.jurisdiction == v.jurisdiction);
        lemma_jurisdiction_replay_from(w, rest);
    } else {
        assert(jurisdiction_replay(w, rest) == w);
    }
}

/// A `seed-jurisdiction` run succeeds exactly when its five registrations
/// (the self-descriptor, the three sample elements, the profile) are each
/// accepted (`201` or `409`) and then either the applicability read shows
/// the profile already in force for the product type, or the binding that
/// follows answers `201`; any other answer fails the run.
pub proof fn lemma_jurisdiction_run(v: JurisdictionRunView, replies: Seq<(u16, JsonValue)>)
    requires
        v.end is None,
        v.elements.len() == 3,
        v.stage == 0,
    ensures
        jurisdiction_replay(v, replies).end == Some((true, None::<Seq<char>>)) <==> (replies.len() > 5
            && (forall|i: int| 0 <= i < 5 ==> #[trigger] replies[i].0 == 201 || replies[i].0 == 409)
            && (binding_in_force_spec(replies[5].0, replies[5].1, profile_id(v.jurisdiction)) || (
            replies.len() > 6 && replies[6].0 == 201))),
{
    lemma_jurisdiction_replay_from(v, replies);
    let p = profile_id(v.jurisdiction);
    let r1 = replies.drop_first();
    let r2 = r1.drop_first();
    let r3 = r2.drop_first();
    let r4 = r3.drop_first();
    let r5 = r4.drop_first();
    let r6 = r5.drop_first();
    if replies.len() > 5 {
        assert(r1[0] == replies[1] && r2[0] == replies[2] && r3[0] == replies[3]);
        assert(r4[0] == replies[4] && r5[0] == replies[5]);
        if replies.len() > 6 {
            assert(r6[0] == replies[6]);
        }
        assert(succeeds_from(6, p, r6) <==> (replies.len() > 6 && replies[6].0 == 201));
        assert(succeeds_from(5, p, r5) <==> (binding_in_force_spec(replies[5].0, replies[5].1, p)
            || (replies.len() > 6 && replies[6].0 == 201)));
        assert(succeeds_from(4, p, r4) == ((replies[4].0 == 201 || replies[4].0 == 409) && succeeds_from(5, p, r5)));
        assert(succeeds_from(3, p, r3) == ((replies[3].0 == 201 || replies[3].0 == 409) && succeeds_from(4, p, r4)));
        assert(succeeds_from(2, p, r2) == ((replies[2].0 == 201 || replies[2].0 == 409) && succeeds_from(3, p, r3)));
        assert(succeeds_from(1, p, r1) == ((replies[1].0 == 201 || replies[1].0 == 409) && succeeds_from(2, p, r2)));
        assert(succeeds_from(0, p, replies) == ((replies[0].0 == 201 || replies[0].0 == 409) && succeeds_from(1, p, r1)));
        if (forall|i: int| 0 <= i < 5 ==> #[trigger] replies[i].0 == 201 || replies[i].0 == 409) {
            assert(replies[0].0 == 201 || replies[0].0 == 409);
            assert(replies[1].0 == 201 || replies[1].0 == 409);
            assert(replies[2].0 == 201 || replies[2].0 == 409);
            assert(replies[3].0 == 201 || replies[3].0 == 409);
            assert(replies[4].0 == 201 || replies[4].0 == 409);
        }
        if succeeds_from(0, p, replies) {
            assert forall|i: int| 0 <= i < 5 implies #[trigger] replies[i].0 == 201 || replies[i].0 == 409 by {
                if i == 0 {} else if i == 1 {} else if i == 2 {} else if i == 3 {} else {}
            }
        }
    } else {
        lemma_short_run_fails(0, p, replies);
    }
}

proof fn lemma_short_run_fails(stage: nat, profile: Seq<char>, replies: Seq<(u16, JsonValue)>)
    requires
        stage <= 5,
        replies.len() <= 5 - stage,
    ensures
        !succeeds_from(stage, profile, replies),
    decreases replies.len(),
{
    if replies.len() > 0 {
        lemma_short_run_fails(stage + 1, profile, replies.drop_first());
    }
}

/// The subject granularity of the profile's data points, whatever operator
/// signs it, for whatever jurisdiction and register: the battery carbon
/// footprint is declared per battery instance, the recycled content and
/// the due-diligence statement per battery type; each data point is
/// required once, at the trust floor of its required provenance; the
/// profile has a data point for each of the three elements.
pub proof fn lemma_profile_granularity(pk: Seq<u8>, sk: Seq<u8>, jur: Seq<char>, register: Seq<char>)
    ensures
        ({
            let manifest = crate::json::field_or_null(profile_body(pk, sk, jur, register), "manifest"@);
            let carbon = JsonValue::Str("urn:unidpp:de:battery-carbon-footprint"@);
            let recycled = JsonValue::Str("urn:unidpp:de:battery-recycled-content"@);
            let diligence = JsonValue::Str("urn:unidpp:de:battery-due-diligence-statement"@);
            field(manifest, "data_points"@) matches Some(JsonValue::Array(dps)) && {
                &&& forall|i: int|
                    0 <= i < dps.len() && field(#[trigger] dps[i], "element"@) == Some(carbon) ==> field(
                        dps[i],
                        "subject_granularity"@,
                    ) == Some(JsonValue::Str("instance"@))
                &&& forall|i: int|
                    0 <= i < dps.len() && (field(#[trigger] dps[i], "element"@) == Some(recycled) || field(
                        dps[i],
                        "element"@,
                    ) == Some(diligence)) ==> field(dps[i], "subject_granularity"@) == Some(
                        JsonValue::Str("type"@),
                    )
                &&& forall|i: int|
                    0 <= i < dps.len() ==> field(#[trigger] dps[i], "trust_floor"@) == field(
                        dps[i],
                        "required_provenance"@,
                    ) && field(dps[i], "cardinality"@) == Some(JsonValue::Str("1"@))
                &&& exists|i: int| 0 <= i < dps.len() && field(#[trigger] dps[i], "element"@) == Some(carbon)
                &&& exists|i: int| 0 <= i < dps.len() && field(#[trigger] dps[i], "element"@) == Some(recycled)
                &&& exists|i: int| 0 <= i < dps.len() && field(#[trigger] dps[i], "element"@) == Some(diligence)
            }
        }),
{
    reveal_strlit("axes");
    reveal_strlit("cardinality");
    reveal_strlit("custody");
    reveal_strlit("data_points");
    reveal_strlit("definition");
    reveal_strlit("effective_from");
    reveal_strlit("element");
    reveal_strlit("issuer");
    reveal_strlit("issuer_class");
    reveal_strlit("item_id");
    reveal_strlit("legal_basis");
    reveal_strlit("manifest");
    reveal_strlit("min_capability");
    reveal_strlit("register_id");
    reveal_strlit("required_provenance");
    reveal_strlit("signature");
    reveal_strlit("subject_granularity");
    reveal_strlit("submitting_organization");
    reveal_strlit("triggers");
    reveal_strlit("trust_floor");
    reveal_strlit("version");
    reveal_strlit("urn:unidpp:de:battery-carbon-footprint");
    reveal_strlit("urn:unidpp:de:battery-recycled-content");
    reveal_strlit("urn:unidpp:de:battery-due-diligence-statement");
    reveal_strlit("instance");
    reveal_strlit("type");
    assert("axes"@.len() != "cardinality"@.len());
    assert("axes"@.len() != "custody"@.len());
    assert("axes"@.len() != "data_points"@.len());
    assert("axes"@.len() != "definition"@.len());
    assert("axes"@.len() != "effective_from"@.len());
    assert("axes"@.len() != "element"@.len());
    assert("axes"@.len() != "issuer"@.len());
    assert("axes"@.len() != "issuer_class"@.len());
    assert("axes"@.len() != "item_id"@.len());
    assert("axes"@.len() != "legal_basis"@.len());
    assert("axes"@.len() != "manifest"@.len());
    assert("axes"@.len() != "min_capability"@.len());
    assert("axes"@.len() != "register_id"@.len());
    assert("axes"@.len() != "required_provenance"@.len());
    assert("axes"@.len() != "signature"@.len());
    assert("axes"@.len() != "subject_granularity"@.len());
    assert("axes"@.len() != "submitting_organization"@.len());
    assert("axes"@.len() != "triggers"@.len());
    assert("axes"@.len() != "trust_floor"@.len());
    assert("axes"@.len() != "version"@.len());
    assert("cardinality"@.len() != "custody"@.len());
    assert("cardinality"@[0] != "data_points"@[0]);
    assert("cardinality"@.len() != "definition"@.len());
    assert("cardinality"@.len() != "effective_from"@.len());
    assert("cardinality"@.len() != "element"@.len());
    assert("cardinality"@.len() != "issuer"@.len());
    assert("cardinality"@.len() != "issuer_class"@.len());
    assert("cardinality"@.len() != "item_id"@.len());
    assert("cardinality"@[0] != "legal_basis"@[0]);
    assert("cardinality"@.len() != "manifest"@.len());
    assert("cardinality"@.len() != "min_capability"@.len());
    assert("cardinality"@[0] != "register_id"@[0]);
    assert("cardinality"@.len() != "required_provenance"@.len());
    assert("cardinality"@.len() != "signature"@.len());
    assert("cardinality"@.len() != "subject_granularity"@.len());
    assert("cardinality"@.len() != "submitting_organization"@.len());
    assert("cardinality"@.len() != "triggers"@.len());
    assert("cardinality"@[0] != "trust_floor"@[0]);
    assert("cardinality"@.len() != "version"@.len());
    assert("custody"@.len() != "data_points"@.len());
    assert("custody"@.len() != "definition"@.len());
    assert("custody"@.len() != "effective_from"@.len());
    assert("custody"@[0] != "element"@[0]);
    assert("custody"@.len() != "issuer"@.len());
    assert("custody"@.len() != "issuer_class"@.len());
    assert("custody"@[0] != "item_id"@[0]);
    assert("custody"@.len() != "legal_basis"@.len());
    assert("custody"@.len() != "manifest"@.len());
    assert("custody"@.len() != "min_capability"@.len());
    assert("custody"@.len() != "register_id"@.len());
    assert("custody"@.len() != "required_provenance"@.len());
    assert("custody"@.len() != "signature"@.len());
    assert("custody"@.len() != "subject_granularity"@.len());
    assert("custody"@.len() != "submitting_organization"@.len());
    assert("custody"@.len() != "triggers"@.len());
    assert("custody"@.len() != "trust_floor"@.len());
    assert("custody"@[0] != "version"@[0]);
    assert("data_points"@.len() != "definition"@.len());
    assert("data_points"@.len() != "effective_from"@.len());
    assert("data_points"@.len() != "element"@.len());
    assert("data_points"@.len() != "issuer"@.len());
    assert("data_points"@.len() != "issuer_class"@.len());
    assert("data_points"@.len() != "item_id"@.len());
    assert("data_points"@[0] != "legal_basis"@[0]);
    assert("data_points"@.len() != "manifest"@.len());
    assert("data_points"@.len() != "min_capability"@.len());
    assert("data_points"@[0] != "register_id"@[0]);
    assert("data_points"@.len() != "required_provenance"@.len());
    assert("data_points"@.len() != "signature"@.len());
    assert("data_points"@.len() != "subject_granularity"@.len());
    assert("data_points"@.len() != "submitting_organization"@.len());
    assert("data_points"@.len() != "triggers"@.len());
    assert("data_points"@[0] != "trust_floor"@[0]);
    assert("data_points"@.len() != "version"@.len());
    assert("definition"@.len() != "effective_from"@.len());
    assert("definition"@.len() != "element"@.len());
    assert("definition"@.len() != "issuer"@.len());
    assert("definition"@.len() != "issuer_class"@.len());
    assert("definition"@.len() != "item_id"@.len());
    assert("definition"@.len() != "legal_basis"@.len());
    assert("definition"@.len() != "manifest"@.len());
    assert("definition"@.len() != "min_capability"@.len());
    assert("definition"@.len() != "register_id"@.len());
    assert("definition"@.len() != "required_provenance"@.len());
    assert("definition"@.len() != "signature"@.len());
    assert("definition"@.len() != "subject_granularity"@.len());
    assert("definition"@.len() != "submitting_organization"@.len());
    assert("definition"@.len() != "triggers"@.len());
    assert("definition"@.len() != "trust_floor"@.len());
    assert("definition"@.len() != "version"@.len());
    assert("effective_from"@.len() != "element"@.len());
    assert("effective_from"@.len() != "issuer"@.len());
    assert("effective_from"@.len() != "issuer_class"@.len());
    assert("effective_from"@.len() != "item_id"@.len());
    assert("effective_from"@.len() != "legal_basis"@.len());
    assert("effective_from"@.len() != "manifest"@.len());
    assert("effective_from"@[0] != "min_capability"@[0]);
    assert("effective_from"@.len() != "register_id"@.len());
    assert("effective_from"@.len() != "required_provenance"@.len());
    assert("effective_from"@.len() != "signature"@.len());
    assert("effective_from"@.len() != "subject_granularity"@.len());
    assert("effective_from"@.len() != "submitting_organization"@.len());
    assert("effective_from"@.len() != "triggers"@.len());
    assert("effective_from"@.len() != "trust_floor"@.len());
    assert("effective_from"@.len() != "version"@.len());
    assert("element"@.len() != "issuer"@.len());
    assert("element"@.len() != "issuer_class"@.len());
    assert("element"@[0] != "item_id"@[0]);
    assert("element"@.len() != "legal_basis"@.len());
    assert("element"@.len() != "manifest"@.len());
    assert("element"@.len() != "min_capability"@.len());
    assert("element"@.len() != "register_id"@.len());
    assert("element"@.len() != "required_provenance"@.len());
    assert("element"@.len() != "signature"@.len());
    assert("element"@.len() != "subject_granularity"@.len());
    assert("element"@.len() != "submitting_organization"@.len());
    assert("element"@.len() != "triggers"@.len());
    assert("element"@.len() != "trust_floor"@.len());
    assert("element"@[0] != "version"@[0]);
    assert("issuer"@.len() != "issuer_class"@.len());
    assert("issuer"@.len() != "item_id"@.len());
    assert("issuer"@.len() != "legal_basis"@.len());
    assert("issuer"@.len() != "manifest"@.len());
    assert("issuer"@.len() != "min_capability"@.len());
    assert("issuer"@.len() != "register_id"@.len());
    assert("issuer"@.len() != "required_provenance"@.len());
    assert("issuer"@.len() != "signature"@.len());
    assert("issuer"@.len() != "subject_granularity"@.len());
    assert("issuer"@.len() != "submitting_organization"@.len());
    assert("issuer"@.len() != "triggers"@.len());
    assert("issuer"@.len() != "trust_floor"@.len());
    assert("issuer"@.len() != "version"@.len());
    assert("issuer_class"@.len() != "item_id"@.len());
    assert("issuer_class"@.len() != "legal_basis"@.len());
    assert("issuer_class"@.len() != "manifest"@.len());
    assert("issuer_class"@.len() != "min_capability"@.len());
    assert("issuer_class"@.len() != "register_id"@.len());
    assert("issuer_class"@.len() != "required_provenance"@.len());
    assert("issuer_class"@.len() != "signature"@.len());
    assert("issuer_class"@.len() != "subject_granularity"@.len());
    assert("issuer_class"@.len() != "submitting_organization"@.len());
    assert("issuer_class"@.len() != "triggers"@.len());
    assert("issuer_class"@.len() != "trust_floor"@.len());
    assert("issuer_class"@.len() != "version"@.len());
    assert("item_id"@.len() != "legal_basis"@.len());
    assert("item_id"@.len() != "manifest"@.len());
    assert("item_id"@.len() != "min_capability"@.len());
    assert("item_id"@.len() != "register_id"@.len());
    assert("item_id"@.len() != "required_provenance"@.len());
    assert("item_id"@.len() != "signature"@.len());
    assert("item_id"@.len() != "subject_granularity"@.len());
    assert("item_id"@.len() != "submitting_organization"@.len());
    assert("item_id"@.len() != "triggers"@.len());
    assert("item_id"@.len() != "trust_floor"@.len());
    assert("item_id"@[0] != "version"@[0]);
    assert("legal_basis"@.len() != "manifest"@.len());
    assert("legal_basis"@.len() != "min_capability"@.len());
    assert("legal_basis"@[0] != "register_id"@[0]);
    assert("legal_basis"@.len() != "required_provenance"@.len());
    assert("legal_basis"@.len() != "signature"@.len());
    assert("legal_basis"@.len() != "subject_granularity"@.len());
    assert("legal_basis"@.len() != "submitting_organization"@.len());
    assert("legal_basis"@.len() != "triggers"@.len());
    assert("legal_basis"@[0] != "trust_floor"@[0]);
    assert("legal_basis"@.len() != "version"@.len());
    assert("manifest"@.len() != "min_capability"@.len());
    assert("manifest"@.len() != "register_id"@.len());
    assert("manifest"@.len() != "required_provenance"@.len());
    assert("manifest"@.len() != "signature"@.len());
    assert("manifest"@.len() != "subject_granularity"@.len());
    assert("manifest"@.len() != "submitting_organization"@.len());
    assert("manifest"@[0] != "triggers"@[0]);
    assert("manifest"@.len() != "trust_floor"@.len());
    assert("manifest"@.len() != "version"@.len());
    assert("min_capability"@.len() != "register_id"@.len());
    assert("min_capability"@.len() != "required_provenance"@.len());
    assert("min_capability"@.len() != "signature"@.len());
    assert("min_capability"@.len() != "subject_granularity"@.len());
    assert("min_capability"@.len() != "submitting_organization"@.len());
    assert("min_capability"@.len() != "triggers"@.len());
    assert("min_capability"@.len() != "trust_floor"@.len());
    assert("min_capability"@.len() != "version"@.len());
    assert("register_id"@.len() != "required_provenance"@.len());
    assert("register_id"@.len() != "signature"@.len());
    assert("register_id"@.len() != "subject_granularity"@.len());
    assert("register_id"@.len() != "submitting_organization"@.len());
    assert("register_id"@.len() != "triggers"@.len());
    assert("register_id"@[0] != "trust_floor"@[0]);
    assert("register_id"@.len() != "version"@.len());
    assert("required_provenance"@.len() != "signature"@.len());
    assert("required_provenance"@[0] != "subject_granularity"@[0]);
    assert("required_provenance"@.len() != "submitting_organization"@.len());
    assert("required_provenance"@.len() != "triggers"@.len());
    assert("required_provenance"@.len() != "trust_floor"@.len());
    assert("required_provenance"@.len() != "version"@.len());
    assert("signature"@.len() != "subject_granularity"@.len());
    assert("signature"@.len() != "submitting_organization"@.len());
    assert("signature"@.len() != "triggers"@.len());
    assert("signature"@.len() != "trust_floor"@.len());
    assert("signature"@.len() != "version"@.len());
    assert("subject_granularity"@.len() != "submitting_organization"@.len());
    assert("subject_granularity"@.len() != "triggers"@.len());
    assert("subject_granularity"@.len() != "trust_floor"@.len());
    assert("subject_granularity"@.len() != "version"@.len());
    assert("submitting_organization"@.len() != "triggers"@.len());
    assert("submitting_organization"@.len() != "trust_floor"@.len());
    assert("submitting_organization"@.len() != "version"@.len());
    assert("triggers"@.len() != "trust_floor"@.len());
    assert("triggers"@.len() != "version"@.len());
    assert("trust_floor"@.len() != "version"@.len());
    assert("urn:unidpp:de:battery-carbon-footprint"@[22] != "urn:unidpp:de:battery-recycled-content"@[22]);
    assert("urn:unidpp:de:battery-carbon-footprint"@.len() != "urn:unidpp:de:battery-due-diligence-statement"@.len());
    assert("urn:unidpp:de:battery-recycled-content"@.len() != "urn:unidpp:de:battery-due-diligence-statement"@.len());
    assert("instance"@.len() != "type"@.len());
    reveal_with_fuel(crate::json::last_value, 10);
    let views = sample_element_views();
    let dps = views.map_values(|e: SampleElementView| data_point(e));
    let key_id = derived_id("k-"@, "key"@, pk);
    let pm = profile_manifest(dps);
    let body_pairs = profile_registration_pairs(jur, register, signed_manifest(pm, key_id, sk));
    crate::json::lemma_object_from_get(body_pairs, "manifest"@);
    assert(crate::json::last_value(body_pairs, "manifest"@) == Some(signed_manifest(pm, key_id, sk)));
    let base = object_from(pm);
    crate::json::lemma_object_from_get(pm, "data_points"@);
    assert(crate::json::last_value(pm, "data_points"@) == Some(JsonValue::Array(dps)));
    let with_class = spec_insert(base, "issuer_class"@, JsonValue::Str("law"@));
    crate::json::lemma_get_insert_other(base, "issuer_class"@, JsonValue::Str("law"@), "data_points"@);
    let with_issuer = spec_insert(with_class, "issuer"@, JsonValue::Str(key_id));
    crate::json::lemma_get_insert_other(with_class, "issuer"@, JsonValue::Str(key_id), "data_points"@);
    let completed = completed_manifest(base, key_id);
    crate::json::lemma_get_remove_other(with_issuer, "signature"@, "data_points"@);
    let block = JsonValue::Object(
        object_from(
            manifest_signature(key_id, ed25519_signature(sk, canonical_bytes(JsonValue::Object(completed)))),
        ),
    );
    crate::json::lemma_get_insert_other(completed, "signature"@, block, "data_points"@);
    assert(dps.len() == 3);
    assert forall|i: int| 0 <= i < 3 implies {
        &&& field(#[trigger] dps[i], "element"@) == Some(JsonValue::Str(views[i].item_id))
        &&& field(dps[i], "subject_granularity"@) == Some(JsonValue::Str(views[i].granularity))
        &&& field(dps[i], "trust_floor"@) == Some(JsonValue::Str(views[i].trust_floor))
        &&& field(dps[i], "required_provenance"@) == Some(JsonValue::Str(views[i].provenance))
        &&& field(dps[i], "cardinality"@) == Some(JsonValue::Str("1"@))
    } by {
        let v = views[i];
        let pairs = seq![
            ("element"@, JsonValue::Str(v.item_id)),
            ("cardinality"@, JsonValue::Str("1"@)),
            ("min_capability"@, JsonValue::Str(v.min_capability)),
            ("required_provenance"@, JsonValue::Str(v.provenance)),
            ("subject_granularity"@, JsonValue::Str(v.granularity)),
            ("trust_floor"@, JsonValue::Str(v.trust_floor)),
        ];
        crate::json::lemma_object_from_get(pairs, "element"@);
        crate::json::lemma_object_from_get(pairs, "subject_granularity"@);
        crate::json::lemma_object_from_get(pairs, "trust_floor"@);
        crate::json::lemma_object_from_get(pairs, "required_provenance"@);
        crate::json::lemma_object_from_get(pairs, "cardinality"@);
    }
    assert(field(dps[0], "element"@) == Some(JsonValue::Str("urn:unidpp:de:battery-carbon-footprint"@)));
    assert(field(dps[1], "element"@) == Some(JsonValue::Str("urn:unidpp:de:battery-recycled-content"@)));
    assert(field(dps[2], "element"@) == Some(JsonValue::Str("urn:unidpp:de:battery-due-diligence-statement"@)));
}

/// A `seed-jurisdiction` run: the requests it makes in turn, and what it
/// makes of each answer.
pub struct JurisdictionRun {
    jurisdiction: String,
    product_type: String,
    service: Json,
    elements: Vec<(String, Json)>,
    profile: Json,
    stage: usize,
    end: Option<(bool, Option<String>)>,
}

impl JurisdictionRun {
    pub closed spec fn view(&self) -> JurisdictionRunView {
        JurisdictionRunView {
            jurisdiction: self.jurisdiction@,
            product_type: self.product_type@,
            service: self.service@,
            elements: self.elements@.map_values(|e: (String, Json)| (e.0@, e.1@)),
            profile: self.profile@,
            stage: self.stage as nat,
            end: end_view(self.end),
        }
    }

    #[verifier::type_invariant]
    closed spec fn inv(self) -> bool {
        &&& self.elements@.len() == 3
        &&& self.stage <= 6
    }

    /// The run of an operator for a jurisdiction: its register, endpoint
    /// URI and residency class, and the product type to bind.
    pub fn new(
        operator: &Operator,
        jur: &str,
        register: &str,
        endpoint_uri: &str,
        residency: &str,
        product_type: &str,
    ) -> (r: JurisdictionRun)
        ensures
            r@.jurisdiction == jur@,
            r@.product_type == product_type@,
            r@.service == service_body(
                operator.public_key(),
                operator.secret_key(),
                jur@,
                endpoint_uri@,
                residency@,
            ),
            r@.elements.len() == sample_element_views().len(),
            forall|i: int|
                0 <= i < r@.elements.len() ==> #[trigger] r@.elements[i] == (
                    sample_element_views()[i].item_id,
                    JsonValue::Object(
                        object_from(
                            element_registration_pairs(jur@, register@, sample_element_views()[i]),
                        ),
                    ),
                ),
            r@.profile == profile_body(operator.public_key(), operator.secret_key(), jur@, register@),
            r@.stage == 0,
            r@.end is None,
    {
        let service = service_registration(operator, jur, endpoint_uri, residency);
        let samples = sample_elements();
        let mut elements: Vec<(String, Json)> = Vec::new();
        let mut i: usize = 0;
        while i < samples.len()
            invariant
                i <= samples@.len(),
                samples@.len() == 3,
                forall|k: int| 0 <= k < 3 ==> (#[trigger] samples@[k]).view() == sample_element_views()[k],
                elements@.len() == i,
                forall|k: int|
                    0 <= k < i ==> (#[trigger] elements@[k]).0@ == sample_element_views()[k].item_id
                        && elements@[k].1@ == JsonValue::Object(
                        object_from(
                            element_registration_pairs(jur@, register@, sample_element_views()[k]),
                        ),
                    ),
            decreases samples@.len() - i,
        {
            let el = &samples[i];
            elements.push((el.item_id.to_owned(), element_registration(jur, register, el)));
            i = i + 1;
        }
        let profile = profile_registration(operator, jur, register, &samples);
        proof {
            assert(samples@.map_values(|e: SampleElement| data_point(e.view())) =~= sample_element_views().map_values(
                |e: SampleElementView| data_point(e),
            ));
        }
        let r = JurisdictionRun {
            jurisdiction: jur.to_owned(),
            product_type: product_type.to_owned(),
            service,
            elements,
            profile,
            stage: 0,
            end: None,
        };
        proof {
            assert(r@.elements.len() == 3);
        }
        r
    }

    /// The request the run makes next.
    pub fn action(&self) -> (r: SeedAction)
        ensures
            r@ == jurisdiction_action(self@),
    {
        proof {
            use_type_invariant(self);
        }
        let n = self.elements.len();
        match &self.end {
            Some((ok, message)) => finish_action(*ok, message),
            None => if self.stage == 0 {
                SeedAction::Post { path: "/services".to_owned(), body: self.service.copy() }
            } else if self.stage <= n {
                SeedAction::Post {
                    path: "/data-elements".to_owned(),
                    body: self.elements[self.stage - 1].1.copy(),
                }
            } else if self.stage == n + 1 {
                SeedAction::Post { path: "/profiles".to_owned(), body: self.profile.copy() }
            } else if self.stage == n + 2 {
                SeedAction::Get { path: applicability_query(self.product_type.as_str()) }
            } else {
                let lower_jur = to_lowercase(self.jurisdiction.as_str());
                let id = crate::text::concat3(
                    "urn:unidpp:profile:",
                    lower_jur.as_str(),
                    "-battery-passport",
                );
                SeedAction::Post {
                    path: "/applicability".to_owned(),
                    body: binding_registration(id.as_str(), self.product_type.as_str()),
                }
            },
        }
    }

    /// Takes the answer to the current request; returns the lines to
    /// report.
    pub fn step(&mut self, status: u16, resp: &Json) -> (lines: Vec<String>)
        requires
            old(self)@.end is None,
        ensures
            (final(self)@, strings_view(lines@)) == jurisdiction_after(old(self)@, status, resp@),
    {
        proof {
            use_type_invariant(&*self);
        }
        let ghost v = self@;
        let n = self.elements.len();
        let mut lines: Vec<String> = Vec::new();
        if self.stage == 0 {
            let lower_jur = to_lowercase(self.jurisdiction.as_str());
            let id = crate::text::concat3("registry-", lower_jur.as_str(), "-v1");
            match service_outcome(id.as_str(), status, resp) {
                Ok(line) => {
                    lines.push(crate::text::concat2("- ", line.as_str()));
                    self.stage = 1;
                },
                Err(e) => {
                    self.end = Some((false, Some(e)));
                },
            }
        } else if self.stage <= n {
            let id = self.elements[self.stage - 1].0.clone();
            match element_outcome(id.as_str(), status, resp) {
                Ok(line) => {
                    lines.push(line);
                    self.stage = self.stage + 1;
                },
                Err(e) => {
                    self.end = Some((false, Some(e)));
                },
            }
        } else if self.stage == n + 1 {
            match profile_outcome(self.jurisdiction.as_str(), status, resp) {
                Ok((_, line)) => {
                    lines.push(crate::text::concat2("- ", line.as_str()));
                    self.stage = self.stage + 1;
                },
                Err(e) => {
                    self.end = Some((false, Some(e)));
                },
            }
        } else if self.stage == n + 2 {
            let lower_jur = to_lowercase(self.jurisdiction.as_str());
            let id = crate::text::concat3("urn:unidpp:profile:", lower_jur.as_str(), "-battery-passport");
            if binding_in_force(status, resp, id.as_str()) {
                let line = binding_present_line(self.product_type.as_str());
                lines.push(crate::text::concat2("- ", line.as_str()));
                self.end = Some((true, None));
            } else {
                self.stage = self.stage + 1;
            }
        } else {
            match binding_outcome(self.product_type.as_str(), status, resp) {
                Ok(line) => {
                    lines.push(crate::text::concat2("- ", line.as_str()));
                    self.end = Some((true, None));
                },
                Err(e) => {
                    self.end = Some((false, Some(e)));
                },
            }
        }
        proof {
            let after = jurisdiction_after(v, status, resp@);
            assert(self@.elements =~= after.0.elements);
            assert(strings_view(lines@) =~= after.1);
        }
        lines
    }
}

// ---------------------------------------------------------------------------
// The seeding plan and the command line
// ---------------------------------------------------------------------------

/// What a seeding run works with, once the jurisdiction is checked.
pub struct SeedPlan {
    pub jurisdiction: String,
    pub register: String,
    pub residency: &'static str,
    pub endpoint_uri: String,
}

/// The seeding plan: the jurisdiction in upper case (two ASCII letters),
/// the register (`jurisdiction-<jur>` unless overridden), the residency
/// class, and the endpoint URI (`<base>/` unless overridden).
pub fn seed_plan(
    base: &str,
    jurisdiction: &str,
    register_override: Option<&str>,
    endpoint_uri_override: Option<&str>,
) -> (r: Result<SeedPlan, String>)
    ensures
        match r {
            Ok(p) => p.jurisdiction@ == crate::text::uppercase(jurisdiction@) && is_alpha2(
                p.jurisdiction@,
            ) && ((forall|i: int|
                0 <= i < jurisdiction@.len() ==> crate::text::is_ascii_char(
                    #[trigger] jurisdiction@[i],
                )) ==> p.jurisdiction@ == jurisdiction@.map_values(
                |c: char| crate::text::ascii_upper(c),
            )) && p.register@ == match register_override {
                Some(reg) => reg@,
                None => "jurisdiction-"@ + lowercase(p.jurisdiction@),
            } && p.residency@ == residency(p.jurisdiction@) && p.endpoint_uri@
                == match endpoint_uri_override {
                Some(u) => u@,
                None => base@ + "/"@,
            },
            Err(e) => e@ == bad_jurisdiction() && !is_alpha2(crate::text::uppercase(jurisdiction@)),
        },
{
    let jur = match normalize_jurisdiction(jurisdiction) {
        Ok(j) => j,
        Err(e) => return Err(e),
    };
    let register = match register_override {
        Some(reg) => reg.to_owned(),
        None => {
            let l = to_lowercase(jur.as_str());
            crate::text::concat2("jurisdiction-", l.as_str())
        },
    };
    let residency = residency_for(jur.as_str());
    let endpoint_uri = match endpoint_uri_override {
        Some(u) => u.to_owned(),
        None => crate::text::concat2(base, "/"),
    };
    Ok(SeedPlan { jurisdiction: jur, register, residency, endpoint_uri })
}

/// The `seed-jurisdiction` invocation.
pub struct JurisdictionArgs {
    pub jurisdiction: String,
    pub operator_label: String,
    pub register: Option<String>,
    pub product_type: String,
    pub endpoint_uri: Option<String>,
    pub shared: SeedArgs,
}

/// The state of reading the `seed-jurisdiction` options.
pub struct JurisdictionScan {
    pub jurisdiction: Seq<char>,
    pub operator_label: Seq<char>,
    pub register: Option<Seq<char>>,
    pub product_type: Seq<char>,
    pub endpoint_uri: Option<Seq<char>>,
    pub shared: Seq<Seq<char>>,
}

/// Reads the `seed-jurisdiction` options from the front; the others are
/// passed on to the shared options.
pub open spec fn jurisdiction_options(st: JurisdictionScan, rest: Seq<Seq<char>>) -> Result<
    JurisdictionScan,
    Seq<char>,
>
    decreases rest.len(),
{
    if rest.len() == 0 {
        Ok(st)
    } else {
        let a = rest[0];
        if a == "--jurisdiction"@ || a == "--operator-label"@ || a == "--register"@ || a
            == "--product-type"@ || a == "--endpoint-uri"@ {
            if rest.len() < 2 {
                Err(USAGE@)
            } else {
                let v = rest[1];
                let next = if a == "--jurisdiction"@ {
                    JurisdictionScan { jurisdiction: v, ..st }
                } else if a == "--operator-label"@ {
                    JurisdictionScan { operator_label: v, ..st }
                } else if a == "--register"@ {
                    JurisdictionScan { register: Some(v), ..st }
                } else if a == "--product-type"@ {
                    JurisdictionScan { product_type: v, ..st }
                } else {
                    JurisdictionScan { endpoint_uri: Some(v), ..st }
                };
                jurisdiction_options(next, rest.skip(2))
            }
        } else {
            jurisdiction_options(JurisdictionScan { shared: st.shared.push(a), ..st }, rest.drop_first())
        }
    }
}

/// The defaults of the `seed-jurisdiction` options.
pub open spec fn jurisdiction_defaults() -> JurisdictionScan {
    JurisdictionScan {
        jurisdiction: Seq::empty(),
        operator_label: "unidpp-registry"@,
        register: None,
        product_type: "gtin:4260123400019"@,
        endpoint_uri: None,
        shared: Seq::empty(),
    }
}

/// Reads the `seed-jurisdiction` command line: its own options, a required
/// `--jurisdiction`, and the shared seeder options.
pub fn run(kit: &Kit, args: &Vec<String>) -> (r: Result<JurisdictionArgs, String>)
    ensures
        match jurisdiction_options(jurisdiction_defaults(), args_view(args@)) {
            Err(e) => r is Err && r->Err_0@ == e,
            Ok(st) => if st.jurisdiction.len() == 0 {
                r is Err && r->Err_0@ == USAGE@
            } else {
                let start = SeedArgsView {
                    bind: kit.bind@,
                    port: kit.port,
                    base_url: None,
                    admin_token: None,
                    token_file: None,
                };
                match seed_options(start, st.shared, USAGE@) {
                    Err(e) => r is Err && r->Err_0@ == e,
                    Ok(sv) => r is Ok && r->Ok_0.shared@ == sv && r->Ok_0.jurisdiction@
                        == st.jurisdiction && r->Ok_0.operator_label@ == st.operator_label
                        && crate::http::view_opt(r->Ok_0.register) == st.register
                        && r->Ok_0.product_type@ == st.product_type && crate::http::view_opt(
                        r->Ok_0.endpoint_uri,
                    ) == st.endpoint_uri,
                }
            },
        },
{
    let mut jurisdiction = String::new();
    let mut operator_label = "unidpp-registry".to_owned();
    let mut register: Option<String> = None;
    let mut product_type = "gtin:4260123400019".to_owned();
    let mut endpoint_uri: Option<String> = None;
    let mut shared: Vec<String> = Vec::new();
    let ghost av = args_view(args@);
    let mut i: usize = 0;
    assert(av.skip(0) =~= av);
    assert(args_view(shared@) =~= Seq::<Seq<char>>::empty());
    while i < args.len()
        invariant
            i <= args@.len(),
            av == args_view(args@),
            jurisdiction_options(jurisdiction_defaults(), av) == jurisdiction_options(
                JurisdictionScan {
                    jurisdiction: jurisdiction@,
                    operator_label: operator_label@,
                    register: crate::http::view_opt(register),
                    product_type: product_type@,
                    endpoint_uri: crate::http::view_opt(endpoint_uri),
                    shared: args_view(shared@),
                },
                av.skip(i as int),
            ),
        decreases args@.len() - i,
    {
        let a = args[i].as_str();
        let ghost rest = av.skip(i as int);
        assert(rest[0] == a@);
        let own = str_eq(a, "--jurisdiction") || str_eq(a, "--operator-label") || str_eq(
            a,
            "--register",
        ) || str_eq(a, "--product-type") || str_eq(a, "--endpoint-uri");
        if own {
            if i + 1 >= args.len() {
                return Err(USAGE.to_owned());
            }
            let v = args[i + 1].clone();
            assert(rest[1] == v@);
            assert(rest.skip(2) =~= av.skip(i + 2));
            if str_eq(a, "--jurisdiction") {
                jurisdiction = v;
            } else if str_eq(a, "--operator-label") {
                operator_label = v;
            } else if str_eq(a, "--register") {
                register = Some(v);
            } else if str_eq(a, "--product-type") {
                product_type = v;
            } else {
                endpoint_uri = Some(v);
            }
            i = i + 2;
        } else {
            let ghost before = args_view(shared@);
            shared.push(args[i].clone());
            assert(args_view(shared@) =~= before.push(a@));
            assert(rest.drop_first() =~= av.skip(i + 1));
            i = i + 1;
        }
    }
    assert(av.skip(i as int).len() == 0);
    if jurisdiction.as_str().is_empty() {
        return Err(USAGE.to_owned());
    }
    let parsed = match parse_seed_args(kit, &shared, USAGE) {
        Ok(p) => p,
        Err(e) => return Err(e),
    };
    Ok(
        JurisdictionArgs {
            jurisdiction,
            operator_label,
            register,
            product_type,
            endpoint_uri,
            shared: parsed,
        },
    )
}

} // verus!
