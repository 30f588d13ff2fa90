//! The seeding suite's shared half: the registry connection the seeders
//! drive, their shared options, the wire encodings (hexadecimal,
//! percent-encoding, the canonical JSON bytes) and the deterministic dev
//! operator that signs service descriptors and profile manifests.

pub mod jurisdiction;
pub mod mappings;
pub mod units;
pub mod untded;

use ed25519_dalek::Signer;
use sha2::Digest;
use std::time::Duration;
use vstd::prelude::*;
use vstd::utf8::encode_utf8;

use crate::http::{HttpText, Request};
use crate::json::{
    encode, field, json_object, lemma_get_insert_same, lemma_get_remove_same, lemma_remove_insert,
    object_from, pairs_view, spec_get, spec_insert, spec_remove, to_text, Json, JsonMap, JsonValue,
};
use crate::kit::{join_path, Kit};
use crate::tally::strings_view;
use crate::text::{
    decimal, hex_digit_lower, is_lower_hex_digit, lower_hex_value, hex_digit_upper, hex_spec, hex_upper, parse_unsigned,
    parse_unsigned_bounded, push_char, push_decimal, str_eq,
};

verus! {

broadcast use crate::json::lemma_object_from_push;

pub const OPERATOR_SEED_DOMAIN: &'static str = "UNIDPP-DISCOVERY/OPERATOR-SEED";

pub const DEFAULT_OPERATOR_LABEL: &'static str = "unidpp-registry";

pub const DEFAULT_PROTOCOL_BINDING: &'static str = "pb-en18222-rest";

// ---------------------------------------------------------------------------
// Durations
// ---------------------------------------------------------------------------

/// What `Duration::from_secs` returns for a number of seconds.
pub uninterp spec fn seconds(n: u64) -> Duration;

/// `Duration::from_secs`.
#[verifier::external_body]
pub(crate) fn from_secs(n: u64) -> (d: Duration)
    ensures
        d == seconds(n),
{
    Duration::from_secs(n)
}

// ---------------------------------------------------------------------------
// Hexadecimal and percent-encoding
// ---------------------------------------------------------------------------

/// The lowercase hexadecimal form of bytes, two digits per byte: every
/// character a lowercase hexadecimal digit, and each pair of digits reads
/// back as its byte (so different bytes give different texts, see
/// `lemma_hex_injective`).
pub fn hex(bytes: &[u8]) -> (r: String)
    ensures
        r@ == hex_spec(bytes@),
        r@.len() == 2 * bytes@.len(),
        forall|i: int| 0 <= i < r@.len() ==> is_lower_hex_digit(#[trigger] r@[i]),
        forall|i: int|
            0 <= i < bytes@.len() ==> 16 * lower_hex_value(r@[2 * i]) + lower_hex_value(
                r@[2 * i + 1],
            ) == #[trigger] bytes@[i],
{
    let mut out = String::new();
    let mut i: usize = 0;
    while i < bytes.len()
        invariant
            i <= bytes@.len(),
            out@ == hex_spec(bytes@.take(i as int)),
        decreases bytes@.len() - i,
    {
        let b = bytes[i];
        assert(bytes@.take(i + 1).drop_last() =~= bytes@.take(i as int));
        push_char(&mut out, hex_digit_lower(b / 16));
        push_char(&mut out, hex_digit_lower(b % 16));
        i = i + 1;
    }
    assert(bytes@.take(bytes@.len() as int) =~= bytes@);
    proof {
        crate::text::lemma_hex_decodes(bytes@);
    }
    out
}

/// The bytes that percent-encoding leaves as they are: `A-Z a-z 0-9 - _ . ~`.
pub open spec fn unreserved(b: u8) -> bool {
    (65 <= b && b <= 90) || (97 <= b && b <= 122) || (48 <= b && b <= 57) || b == 45 || b == 95
        || b == 46 || b == 126
}

/// The encoding of one byte: itself when unreserved, `%HH` otherwise.
pub open spec fn percent_piece(b: u8) -> Seq<char> {
    if unreserved(b) {
        seq![b as char]
    } else {
        seq!['%', hex_upper(b as nat / 16), hex_upper(b as nat % 16)]
    }
}

/// Percent-encoding of every byte outside the unreserved set.
pub open spec fn percent_encode(bytes: Seq<u8>) -> Seq<char>
    decreases bytes.len(),
{
    if bytes.len() == 0 {
        Seq::empty()
    } else {
        percent_piece(bytes[0]) + percent_encode(bytes.drop_first())
    }
}

/// The value of a hexadecimal digit (either case).
pub open spec fn hex_value(c: char) -> nat {
    if '0' <= c && c <= '9' {
        (c as u32 - 48) as nat
    } else if 'A' <= c && c <= 'F' {
        (c as u32 - 55) as nat
    } else if 'a' <= c && c <= 'f' {
        (c as u32 - 87) as nat
    } else {
        0
    }
}

/// Percent-decoding: `%HH` is the byte `HH`, any other character is its own
/// code.
pub open spec fn percent_decode(s: Seq<char>) -> Seq<u8>
    decreases s.len(),
{
    if s.len() == 0 {
        Seq::empty()
    } else if s[0] == '%' && s.len() >= 3 {
        seq![(hex_value(s[1]) * 16 + hex_value(s[2])) as u8] + percent_decode(s.skip(3))
    } else {
        seq![s[0] as u8] + percent_decode(s.drop_first())
    }
}

proof fn lemma_percent_encode_append(a: Seq<u8>, b: Seq<u8>)
    ensures
        percent_encode(a + b) == percent_encode(a) + percent_encode(b),
    decreases a.len(),
{
    if a.len() == 0 {
        assert(a + b =~= b);
    } else {
        assert((a + b).drop_first() =~= a.drop_first() + b);
        lemma_percent_encode_append(a.drop_first(), b);
    }
}

proof fn lemma_percent_encode_single(b: u8)
    ensures
        percent_encode(seq![b]) == percent_piece(b),
{
    assert(seq![b].drop_first() =~= Seq::<u8>::empty());
    assert(percent_encode(Seq::<u8>::empty()) =~= Seq::<char>::empty());
    assert(percent_encode(seq![b]) == percent_piece(b) + percent_encode(seq![b].drop_first()));
    assert(percent_piece(b) + Seq::<char>::empty() =~= percent_piece(b));
}

/// Percent-encoding loses nothing: decoding the encoded form gives the
/// bytes back.
pub proof fn lemma_quote_roundtrip(bytes: Seq<u8>)
    ensures
        percent_decode(percent_encode(bytes)) == bytes,
    decreases bytes.len(),
{
    if bytes.len() > 0 {
        let b = bytes[0];
        let rest = percent_encode(bytes.drop_first());
        lemma_quote_roundtrip(bytes.drop_first());
        let s = percent_piece(b) + rest;
        if unreserved(b) {
            assert(s[0] == b as char);
            assert(s.drop_first() =~= rest);
            assert(((b as char) as u8) == b);
        } else {
            let hi = (b / 16) as nat;
            let lo = (b % 16) as nat;
            assert(s[0] == '%');
            assert(s[1] == hex_upper(hi));
            assert(s[2] == hex_upper(lo));
            assert(s.skip(3) =~= rest);
            assert(hex_value(hex_upper(hi)) == hi);
            assert(hex_value(hex_upper(lo)) == lo);
        }
        assert(bytes =~= seq![b] + bytes.drop_first());
    }
}

/// Percent-encodes everything outside the unreserved set (the bytes of the
/// text's UTF-8 form).
pub fn quote(raw: &str) -> (r: String)
    ensures
        r@ == percent_encode(encode_utf8(raw@)),
{
    let bytes = raw.as_bytes();
    let mut out = String::new();
    let mut i: usize = 0;
    while i < bytes.len()
        invariant
            i <= bytes@.len(),
            bytes@ == encode_utf8(raw@),
            out@ == percent_encode(bytes@.take(i as int)),
        decreases bytes@.len() - i,
    {
        let b = bytes[i];
        proof {
            assert(bytes@.take(i + 1) =~= bytes@.take(i as int) + seq![b]);
            lemma_percent_encode_append(bytes@.take(i as int), seq![b]);
            lemma_percent_encode_single(b);
        }
        if (65 <= b && b <= 90) || (97 <= b && b <= 122) || (48 <= b && b <= 57) || b == 45 || b
            == 95 || b == 46 || b == 126 {
            push_char(&mut out, b as char);
        } else {
            push_char(&mut out, '%');
            push_char(&mut out, hex_digit_upper(b / 16));
            push_char(&mut out, hex_digit_upper(b % 16));
        }
        i = i + 1;
    }
    assert(bytes@.take(bytes@.len() as int) =~= bytes@);
    out
}

// ---------------------------------------------------------------------------
// The canonical bytes
// ---------------------------------------------------------------------------

/// The exact bytes a signature covers: the compact JSON text, in UTF-8.
pub open spec fn canonical_bytes(v: JsonValue) -> Seq<u8> {
    encode_utf8(encode(v))
}

/// The canonical bytes of a value: sorted keys, compact separators — the
/// exact bytes the registry's keyring verifies.
pub fn canonical(value: &Json) -> (r: Vec<u8>)
    ensures
        r@ == canonical_bytes(value@),
{
    let text = to_text(value);
    vstd::slice::slice_to_vec(text.as_str().as_bytes())
}

// ---------------------------------------------------------------------------
// Reporting
// ---------------------------------------------------------------------------

/// The first `n` characters of a text (all of it when shorter).
pub open spec fn preview(s: Seq<char>, n: nat) -> Seq<char> {
    if n < s.len() {
        s.take(n as int)
    } else {
        s
    }
}

/// The report of a refused request: what failed, the status, and the first
/// 400 characters of the reply document's compact text.
pub open spec fn failure(what: Seq<char>, status: u16, resp: JsonValue) -> Seq<char> {
    what + " (HTTP "@ + decimal(status as nat) + "): "@ + preview(encode(resp), 400)
}

/// The reply's `audit_seq`, as compact JSON (`null` when absent).
pub open spec fn audit_seq(resp: JsonValue) -> Seq<char> {
    encode(crate::json::field_or_null(resp, "audit_seq"@))
}

/// The report of a refused request.
pub fn failure_message(what: &str, status: u16, resp: &Json) -> (r: String)
    ensures
        r@ == failure(what@, status, resp@),
{
    let mut r = crate::text::concat2(what, " (HTTP ");
    push_decimal(&mut r, status as u64);
    r.append("): ");
    let text = to_text(resp);
    let shown = crate::text::take_chars(text.as_str(), 400);
    r.append(shown.as_str());
    r
}

/// The reply's `audit_seq` as compact JSON.
pub fn audit_seq_text(resp: &Json) -> (r: String)
    ensures
        r@ == audit_seq(resp@),
{
    match resp.get("audit_seq") {
        Some(v) => to_text(v),
        None => to_text(&Json::Null),
    }
}

// ---------------------------------------------------------------------------
// Listings
// ---------------------------------------------------------------------------

/// The `items` of a listing answer (none when absent).
pub open spec fn listing_items(resp: JsonValue) -> Seq<JsonValue> {
    match field(resp, "items"@) {
        Some(JsonValue::Array(items)) => items,
        _ => Seq::empty(),
    }
}

/// The identifier of a listed item, when it is a string.
pub open spec fn identifier_of(item: JsonValue) -> Option<Seq<char>> {
    match field(item, "identifier"@) {
        Some(JsonValue::Str(s)) => Some(s),
        _ => None,
    }
}

/// The string identifiers of listed items, in their order.
pub open spec fn listed_ids(items: Seq<JsonValue>) -> Seq<Seq<char>>
    decreases items.len(),
{
    if items.len() == 0 {
        Seq::empty()
    } else {
        let rest = listed_ids(items.drop_last());
        match identifier_of(items.last()) {
            Some(s) => rest.push(s),
            None => rest,
        }
    }
}

/// The string identifiers of a listing answer's items.
pub fn listed_identifiers(resp: &Json) -> (r: Vec<String>)
    ensures
        strings_view(r@) == listed_ids(listing_items(resp@)),
{
    let mut r: Vec<String> = Vec::new();
    let items = match resp.get("items") {
        Some(a) => match a.as_array() {
            Some(v) => v,
            None => {
                return r;
            },
        },
        None => {
            return r;
        },
    };
    let ghost iv = listing_items(resp@);
    let mut i: usize = 0;
    while i < items.len()
        invariant
            i <= items@.len(),
            iv.len() == items@.len(),
            forall|j: int| 0 <= j < items@.len() ==> (#[trigger] items@[j])@ == iv[j],
            strings_view(r@) == listed_ids(iv.take(i as int)),
        decreases items@.len() - i,
    {
        let ghost before = strings_view(r@);
        let id = match items[i].get("identifier") {
            Some(v) => v.as_str(),
            None => None,
        };
        proof {
            let x = iv.take(i + 1);
            assert(x.drop_last() =~= iv.take(i as int));
            assert(x.last() == items@[i as int]@);
        }
        match id {
            Some(s) => {
                r.push(s.to_owned());
                assert(strings_view(r@) =~= before.push(s@));
            },
            None => {},
        }
        i = i + 1;
    }
    assert(iv.take(items@.len() as int) =~= iv);
    r
}

/// A listing's `count`, as compact JSON (`null` when absent).
pub open spec fn listing_count(resp: JsonValue) -> Seq<char> {
    encode(crate::json::field_or_null(resp, "count"@))
}

/// A listing's `count` as compact JSON.
pub fn listing_count_text(resp: &Json) -> (r: String)
    ensures
        r@ == listing_count(resp@),
{
    match resp.get("count") {
        Some(v) => to_text(v),
        None => to_text(&Json::Null),
    }
}

/// The verification listing must answer `200`.
pub fn listing_status(collection: &str, status: u16) -> (r: Result<(), String>)
    ensures
        r is Ok <==> status == 200,
        r matches Err(e) ==> e@ == "verification failed: GET "@ + collection@ + " -> HTTP "@
            + decimal(status as nat),
{
    if status != 200 {
        let mut e = crate::text::concat3("verification failed: GET ", collection, " -> HTTP ");
        push_decimal(&mut e, status as u64);
        return Err(e);
    }
    Ok(())
}

/// The verdict line of a verification listing.
pub open spec fn verify_line_spec(path: Seq<char>, count: Seq<char>, expected: nat, ok: bool) -> Seq<
    char,
> {
    "verify: GET "@ + path + " -> count="@ + count + " (expected "@ + decimal(expected) + ") — "@
        + if ok {
        "OK"@
    } else {
        "FAILED"@
    }
}

/// The verdict line of a verification listing.
pub fn verify_line(path: &str, count: &str, expected: usize, ok: bool) -> (r: String)
    ensures
        r@ == verify_line_spec(path@, count@, expected as nat, ok),
{
    let mut r = crate::text::concat3("verify: GET ", path, " -> count=");
    r.append(count);
    r.append(" (expected ");
    push_decimal(&mut r, expected as u64);
    r.append(") — ");
    if ok {
        r.append("OK");
    } else {
        r.append("FAILED");
    }
    r
}

// ---------------------------------------------------------------------------
// The registry connection
// ---------------------------------------------------------------------------

/// The registry connection the seeders drive: the address, and the admin
/// token (empty when none is known).
pub struct Registry {
    pub bind: String,
    pub port: u16,
    pub token: String,
}

/// `http://<bind>:<port>`.
pub open spec fn http_base(bind: Seq<char>, port: u16) -> Seq<char> {
    "http://"@ + bind + ":"@ + decimal(port as nat)
}

impl Registry {
    pub fn base_url(&self) -> (r: String)
        ensures
            r@ == http_base(self.bind@, self.port),
    {
        let mut r = crate::text::concat3("http://", self.bind.as_str(), ":");
        push_decimal(&mut r, self.port as u64);
        r
    }

    /// The request for `method path` with an optional JSON body: the admin
    /// token goes along when there is one, the timeout is 15 s.
    fn request(&self, method: &str, path: &str, body: Option<&Json>) -> (r: Request)
        ensures
            r.method@ == method@,
            r.host@ == self.bind@,
            r.port == self.port,
            r.path@ == path@,
            crate::http::view_opt(r.body) == (match body {
                Some(b) => Some(encode(b@)),
                None => None::<Seq<char>>,
            }),
            crate::http::view_opt(r.bearer) == (if self.token@.len() == 0 {
                None::<Seq<char>>
            } else {
                Some(self.token@)
            }),
            r.timeout == seconds(15),
    {
        Request {
            method: method.to_owned(),
            host: self.bind.clone(),
            port: self.port,
            path: path.to_owned(),
            body: match body {
                Some(b) => Some(to_text(b)),
                None => None,
            },
            bearer: if self.token.as_str().is_empty() {
                None
            } else {
                Some(self.token.clone())
            },
            timeout: from_secs(15),
        }
    }

    /// `GET path`.
    pub fn get(&self, path: &str) -> (r: Request)
        ensures
            r.method@ == "GET"@,
            r.host@ == self.bind@,
            r.port == self.port,
            r.path@ == path@,
            r.body is None,
            crate::http::view_opt(r.bearer) == (if self.token@.len() == 0 {
                None::<Seq<char>>
            } else {
                Some(self.token@)
            }),
            r.timeout == seconds(15),
    {
        self.request("GET", path, None)
    }

    /// `POST path` with a JSON body.
    pub fn post(&self, path: &str, body: &Json) -> (r: Request)
        ensures
            r.method@ == "POST"@,
            r.host@ == self.bind@,
            r.port == self.port,
            r.path@ == path@,
            crate::http::view_opt(r.body) == Some(encode(body@)),
            crate::http::view_opt(r.bearer) == (if self.token@.len() == 0 {
                None::<Seq<char>>
            } else {
                Some(self.token@)
            }),
            r.timeout == seconds(15),
    {
        self.request("POST", path, Some(body))
    }

    /// The status and document of a reply: no reply is an error naming the
    /// registry; a body that is not JSON (`parsed` is `None`) is carried as
    /// `{"body": <text>}`.
    pub fn reply(&self, response: Option<HttpText>, parsed: Option<Json>) -> (r: Result<
        (u16, Json),
        String,
    >)
        ensures
            match response {
                None => r matches Err(e) && e@ == "cannot reach the registry at "@ + http_base(
                    self.bind@,
                    self.port,
                ),
                Some(h) => r matches Ok((status, doc)) && status == h.status && doc@ == (
                match parsed {
                    Some(p) => p@,
                    None => JsonValue::Object(
                        object_from(seq![("body"@, JsonValue::Str(h.body@))]),
                    ),
                }),
            },
    {
        match response {
            None => {
                let base = self.base_url();
                Err(crate::text::concat2("cannot reach the registry at ", base.as_str()))
            },
            Some(h) => {
                let doc = match parsed {
                    Some(p) => p,
                    None => {
                        let mut pairs: Vec<(String, Json)> = Vec::new();
                        pairs.push(("body".to_owned(), Json::Str(h.body)));
                        let ghost hb = h.body@;
                        assert(pairs_view(pairs@) =~= seq![("body"@, JsonValue::Str(hb))]);
                        json_object(pairs)
                    },
                };
                Ok((h.status, doc))
            },
        }
    }

    /// The health check: anything but `200` from `/healthz` means no
    /// healthy registry.
    pub fn require_health(&self, status: u16) -> (r: Result<(), String>)
        ensures
            status == 200 <==> r is Ok,
            r matches Err(e) ==> e@ == "no healthy registry at "@ + http_base(
                self.bind@,
                self.port,
            ) + " — run unidpp-kit start --daemon first"@,
    {
        if status != 200 {
            let base = self.base_url();
            let mut e = crate::text::concat2("no healthy registry at ", base.as_str());
            e.append(" — run unidpp-kit start --daemon first");
            return Err(e);
        }
        Ok(())
    }
}

// ---------------------------------------------------------------------------
// The seeding runs' requests
// ---------------------------------------------------------------------------

/// What a seeding run asks of its driver next.
pub enum SeedAction {
    /// Send `POST path` with the body and hand the reply back.
    Post { path: String, body: Json },
    /// Send `GET path` and hand the reply back.
    Get { path: String },
    /// The run is over: it succeeded, or it fails (exit status 1) after
    /// reporting the message, when there is one.
    Finish { ok: bool, message: Option<String> },
}

/// A seeding run's next request, by its views.
pub enum SeedActionView {
    Post { path: Seq<char>, body: JsonValue },
    Get { path: Seq<char> },
    Finish { ok: bool, message: Option<Seq<char>> },
}

impl SeedAction {
    pub open spec fn view(&self) -> SeedActionView {
        match self {
            SeedAction::Post { path, body } => SeedActionView::Post { path: path@, body: body@ },
            SeedAction::Get { path } => SeedActionView::Get { path: path@ },
            SeedAction::Finish { ok, message } => SeedActionView::Finish {
                ok: *ok,
                message: crate::http::view_opt(*message),
            },
        }
    }
}

/// The ending of a run, by its views.
pub open spec fn end_view(end: Option<(bool, Option<String>)>) -> Option<(bool, Option<Seq<char>>)> {
    match end {
        Some((ok, m)) => Some((ok, crate::http::view_opt(m))),
        None => None,
    }
}

/// The `Finish` request of an ending.
pub fn finish_action(ok: bool, message: &Option<String>) -> (r: SeedAction)
    ensures
        r@ == (SeedActionView::Finish { ok, message: crate::http::view_opt(*message) }),
{
    SeedAction::Finish {
        ok,
        message: match message {
            Some(m) => Some(m.clone()),
            None => None,
        },
    }
}

// ---------------------------------------------------------------------------
// The shared options
// ---------------------------------------------------------------------------

/// The options every seeder shares, resolved against the kit.
pub struct SeedArgs {
    pub bind: String,
    pub port: u16,
    pub base_url: Option<String>,
    pub admin_token: Option<String>,
    pub token_file: Option<String>,
}

/// The shared options as mathematics.
pub struct SeedArgsView {
    pub bind: Seq<char>,
    pub port: u16,
    pub base_url: Option<Seq<char>>,
    pub admin_token: Option<Seq<char>>,
    pub token_file: Option<Seq<char>>,
}

/// Where the seeders' admin token comes from, in order: the option, the
/// environment (when not empty), the token file, else none.
pub open spec fn admin_token_choice(
    option: Option<Seq<char>>,
    env: Option<Seq<char>>,
    file: Option<Seq<char>>,
) -> Seq<char> {
    match option {
        Some(t) => t,
        None => match env {
            Some(t) if t.len() > 0 => t,
            _ => match file {
                Some(t) => t,
                None => Seq::empty(),
            },
        },
    }
}

impl SeedArgs {
    pub open spec fn view(&self) -> SeedArgsView {
        SeedArgsView {
            bind: self.bind@,
            port: self.port,
            base_url: crate::http::view_opt(self.base_url),
            admin_token: crate::http::view_opt(self.admin_token),
            token_file: crate::http::view_opt(self.token_file),
        }
    }
}

/// The options read from the front of `rest`: each option takes the next
/// argument as its value; a missing value is the usage error, an unknown
/// option is refused.
pub open spec fn seed_options(st: SeedArgsView, rest: Seq<Seq<char>>, usage: Seq<char>) -> Result<
    SeedArgsView,
    Seq<char>,
>
    decreases rest.len(),
{
    if rest.len() == 0 {
        Ok(st)
    } else {
        let opt = rest[0];
        if opt == "--port"@ || opt == "--bind"@ || opt == "--base-url"@ || opt == "--admin-token"@
            || opt == "--token-file"@ {
            if rest.len() < 2 {
                Err(usage)
            } else {
                let value = rest[1];
                if opt == "--port"@ {
                    match parse_unsigned(value, 65535) {
                        Some(p) => seed_options(
                            SeedArgsView { port: p as u16, ..st },
                            rest.skip(2),
                            usage,
                        ),
                        None => Err("--port must be a number (got "@ + value + ")"@),
                    }
                } else if opt == "--bind"@ {
                    seed_options(SeedArgsView { bind: value, ..st }, rest.skip(2), usage)
                } else if opt == "--base-url"@ {
                    seed_options(SeedArgsView { base_url: Some(value), ..st }, rest.skip(2), usage)
                } else if opt == "--admin-token"@ {
                    seed_options(
                        SeedArgsView { admin_token: Some(value), ..st },
                        rest.skip(2),
                        usage,
                    )
                } else {
                    seed_options(
                        SeedArgsView { token_file: Some(value), ..st },
                        rest.skip(2),
                        usage,
                    )
                }
            }
        } else {
            Err("unknown option: "@ + opt + "\n"@ + usage)
        }
    }
}

/// Reads the shared seeder options (`--port`, `--bind`, `--base-url`,
/// `--admin-token`, `--token-file`), starting from the kit's own address.
pub fn parse_seed_args(kit: &Kit, args: &Vec<String>, usage: &str) -> (r: Result<SeedArgs, String>)
    ensures
        ({
            let start = SeedArgsView {
                bind: kit.bind@,
                port: kit.port,
                base_url: None,
                admin_token: None,
                token_file: None,
            };
            match r {
                Ok(a) => seed_options(start, crate::kit::args_view(args@), usage@) == Ok::<
                    SeedArgsView,
                    Seq<char>,
                >(a@),
                Err(e) => seed_options(start, crate::kit::args_view(args@), usage@) == Err::<
                    SeedArgsView,
                    Seq<char>,
                >(e@),
            }
        }),
{
    let mut parsed = SeedArgs {
        bind: kit.bind.clone(),
        port: kit.port,
        base_url: None,
        admin_token: None,
        token_file: None,
    };
    let ghost av = crate::kit::args_view(args@);
    let ghost start = parsed@;
    let mut i: usize = 0;
    assert(av.skip(0) =~= av);
    while i < args.len()
        invariant
            i <= args@.len(),
            av == crate::kit::args_view(args@),
            start == (SeedArgsView {
                bind: kit.bind@,
                port: kit.port,
                base_url: None,
                admin_token: None,
                token_file: None,
            }),
            seed_options(start, av, usage@) == seed_options(parsed@, av.skip(i as int), usage@),
        decreases args@.len() - i,
    {
        let opt = args[i].as_str();
        let ghost rest = av.skip(i as int);
        assert(rest[0] == opt@);
        let known = str_eq(opt, "--port") || str_eq(opt, "--bind") || str_eq(opt, "--base-url")
            || str_eq(opt, "--admin-token") || str_eq(opt, "--token-file");
        if !known {
            let mut e = crate::text::concat2("unknown option: ", opt);
            e.append("\n");
            e.append(usage);
            return Err(e);
        }
        if i + 1 >= args.len() {
            return Err(usage.to_owned());
        }
        let value = args[i + 1].as_str();
        assert(rest[1] == value@);
        assert(rest.skip(2) =~= av.skip(i + 2));
        if str_eq(opt, "--port") {
            match parse_unsigned_bounded(value, 65535) {
                Some(p) => {
                    parsed.port = p as u16;
                },
                None => {
                    let mut e = crate::text::concat2("--port must be a number (got ", value);
                    e.append(")");
                    return Err(e);
                },
            }
        } else if str_eq(opt, "--bind") {
            parsed.bind = value.to_owned();
        } else if str_eq(opt, "--base-url") {
            parsed.base_url = Some(value.to_owned());
        } else if str_eq(opt, "--admin-token") {
            parsed.admin_token = Some(value.to_owned());
        } else {
            parsed.token_file = Some(value.to_owned());
        }
        i = i + 2;
    }
    assert(av.skip(i as int).len() == 0);
    Ok(parsed)
}

impl SeedArgs {
    /// The token file to read when no `--admin-token` was given: the one
    /// named by `--token-file`, else the kit's own.
    pub fn token_path(&self, kit: &Kit) -> (r: String)
        ensures
            r@ == match crate::http::view_opt(self.token_file) {
                Some(f) => f,
                None => join_path(kit.home@, "admin-token"@),
            },
    {
        match &self.token_file {
            Some(f) => f.clone(),
            None => kit.token_file(),
        }
    }

    /// The registry connection: the admin token from the `--admin-token`
    /// option, else from the environment (`KIT_ADMIN_TOKEN`, when set and
    /// not empty), else the (trimmed) content of the token file, else none.
    /// `env_token` is the environment's value, `None` when unset;
    /// `file_token` is the file's content, `None` when it could not be read.
    pub fn registry(&self, env_token: Option<String>, file_token: Option<String>) -> (r: Registry)
        ensures
            r.bind@ == self.bind@,
            r.port == self.port,
            r.token@ == admin_token_choice(
                crate::http::view_opt(self.admin_token),
                crate::http::view_opt(env_token),
                crate::http::view_opt(file_token),
            ),
    {
        let token = match &self.admin_token {
            Some(t) => t.clone(),
            None => match env_token {
                Some(t) if !t.as_str().is_empty() => t,
                _ => match file_token {
                    Some(t) => t,
                    None => String::new(),
                },
            },
        };
        Registry { bind: self.bind.clone(), port: self.port, token }
    }

    /// The registry's base URL: the `--base-url` option, else
    /// `http://<bind>:<port>`.
    pub fn base(&self) -> (r: String)
        ensures
            r@ == match crate::http::view_opt(self.base_url) {
                Some(u) => u,
                None => http_base(self.bind@, self.port),
            },
    {
        match &self.base_url {
            Some(u) => u.clone(),
            None => {
                let mut r = crate::text::concat3("http://", self.bind.as_str(), ":");
                push_decimal(&mut r, self.port as u64);
                r
            },
        }
    }
}

// ---------------------------------------------------------------------------
// The dev operator
// ---------------------------------------------------------------------------

/// What SHA-256 gives for a message.
pub uninterp spec fn sha256_digest(data: Seq<u8>) -> Seq<u8>;

/// `Sha256::digest`: the 32-byte SHA-256 digest.
#[verifier::external_body]
fn sha256(data: &[u8]) -> (r: Vec<u8>)
    ensures
        r@ == sha256_digest(data@),
        r@.len() == 32,
{
    sha2::Sha256::digest(data).to_vec()
}

/// The Ed25519 public key of a 32-byte secret key.
pub uninterp spec fn ed25519_public(secret: Seq<u8>) -> Seq<u8>;

/// The Ed25519 signature (RFC 8032, deterministic) of a message under a
/// 32-byte secret key.
pub uninterp spec fn ed25519_signature(secret: Seq<u8>, message: Seq<u8>) -> Seq<u8>;

/// `SigningKey::from_bytes(..).verifying_key().to_bytes()`: the public key
/// of a secret key, 32 bytes.
#[verifier::external_body]
fn ed25519_public_key(secret: &[u8]) -> (r: Vec<u8>)
    requires
        secret@.len() == 32,
    ensures
        r@ == ed25519_public(secret@),
        r@.len() == 32,
{
    let bytes: [u8; 32] = match secret.try_into() {
        Ok(b) => b,
        Err(_) => [0u8; 32],
    };
    ed25519_dalek::SigningKey::from_bytes(&bytes).verifying_key().to_bytes().to_vec()
}

/// `SigningKey::from_bytes(..).sign(message).to_bytes()`: the 64-byte
/// signature of a message.
#[verifier::external_body]
fn ed25519_sign(secret: &[u8], message: &[u8]) -> (r: Vec<u8>)
    requires
        secret@.len() == 32,
    ensures
        r@ == ed25519_signature(secret@, message@),
        r@.len() == 64,
{
    let bytes: [u8; 32] = match secret.try_into() {
        Ok(b) => b,
        Err(_) => [0u8; 32],
    };
    ed25519_dalek::SigningKey::from_bytes(&bytes).sign(message).to_bytes().to_vec()
}

/// The dev operator's secret key for a label:
/// `SHA-256("UNIDPP-DISCOVERY/OPERATOR-SEED" || label)`.
pub open spec fn operator_secret(label: Seq<char>) -> Seq<u8> {
    sha256_digest(encode_utf8(OPERATOR_SEED_DOMAIN@) + encode_utf8(label))
}

/// A content-derived identifier: `prefix` and the first 16 hexadecimal
/// digits of `SHA-256(tag || public key)`.
pub open spec fn derived_id(prefix: Seq<char>, tag: Seq<char>, public_key: Seq<u8>) -> Seq<char> {
    prefix + hex_spec(sha256_digest(encode_utf8(tag) + public_key)).take(16)
}

/// The operator record's entries, in literal order.
pub open spec fn operator_record(public_key: Seq<u8>) -> Seq<(Seq<char>, JsonValue)> {
    seq![
        ("id"@, JsonValue::Str(derived_id("op-"@, "op"@, public_key))),
        ("key_id"@, JsonValue::Str(derived_id("k-"@, "key"@, public_key))),
        ("public_key"@, JsonValue::Str(hex_spec(public_key))),
        ("algorithm"@, JsonValue::Str("ed25519"@)),
    ]
}

/// The `signature` block of a signed descriptor.
pub open spec fn descriptor_signature(key_id: Seq<char>, signature: Seq<u8>) -> Seq<(Seq<char>, JsonValue)> {
    seq![
        ("key_id"@, JsonValue::Str(key_id)),
        ("algorithm"@, JsonValue::Str("ed25519"@)),
        ("value"@, JsonValue::Str(hex_spec(signature))),
    ]
}

/// The `signature` block of a signed manifest.
pub open spec fn manifest_signature(key_id: Seq<char>, signature: Seq<u8>) -> Seq<(Seq<char>, JsonValue)> {
    seq![
        ("suite"@, JsonValue::Str("ed25519"@)),
        ("key_id"@, JsonValue::Str(key_id)),
        ("signature"@, JsonValue::Str(hex_spec(signature))),
    ]
}

/// A deterministic dev operator key: the unidpp-registry keyring scheme.
pub struct Operator {
    secret: Vec<u8>,
    public_key: Vec<u8>,
}

impl Operator {
    /// The secret key.
    pub closed spec fn secret_key(&self) -> Seq<u8> {
        self.secret@
    }

    /// The public key.
    pub closed spec fn public_key(&self) -> Seq<u8> {
        self.public_key@
    }

    #[verifier::type_invariant]
    closed spec fn inv(self) -> bool {
        self.secret@.len() == 32 && self.public_key@ == ed25519_public(self.secret@)
    }

    /// The operator of a label.
    pub fn new(label: &str) -> (op: Operator)
        ensures
            op.secret_key() == operator_secret(label@),
            op.public_key() == ed25519_public(operator_secret(label@)),
    {
        let seed = crate::text::concat_bytes(OPERATOR_SEED_DOMAIN.as_bytes(), label.as_bytes());
        let secret = sha256(seed.as_slice());
        let public_key = ed25519_public_key(secret.as_slice());
        Operator { secret, public_key }
    }

    fn derived(&self, prefix: &str, tag: &str) -> (r: String)
        ensures
            r@ == derived_id(prefix@, tag@, self.public_key()),
            r@.len() == prefix@.len() + 16,
    {
        let data = crate::text::concat_bytes(tag.as_bytes(), self.public_key.as_slice());
        let digest = sha256(data.as_slice());
        let h = hex(digest.as_slice());
        assert(h@.len() == 64);
        let short = crate::text::take_chars(h.as_str(), 16);
        crate::text::concat2(prefix, short.as_str())
    }

    /// The operator id: `op-` and 16 hex digits of `SHA-256("op" || key)`.
    pub fn id(&self) -> (r: String)
        ensures
            r@ == derived_id("op-"@, "op"@, self.public_key()),
            r@.len() == 19,
    {
        proof {
            reveal_strlit("op-");
        }
        self.derived("op-", "op")
    }

    /// The key id: `k-` and 16 hex digits of `SHA-256("key" || key)`.
    pub fn key_id(&self) -> (r: String)
        ensures
            r@ == derived_id("k-"@, "key"@, self.public_key()),
            r@.len() == 18,
    {
        proof {
            reveal_strlit("k-");
        }
        self.derived("k-", "key")
    }

    /// The operator record a service descriptor carries.
    pub fn record(&self) -> (r: Json)
        ensures
            r@ == JsonValue::Object(object_from(operator_record(self.public_key()))),
    {
        let mut pairs: Vec<(String, Json)> = Vec::new();
        pairs.push(("id".to_owned(), Json::Str(self.id())));
        pairs.push(("key_id".to_owned(), Json::Str(self.key_id())));
        pairs.push(("public_key".to_owned(), Json::Str(hex(self.public_key.as_slice()))));
        pairs.push(("algorithm".to_owned(), Json::str("ed25519")));
        assert(pairs_view(pairs@) =~= operator_record(self.public_key()));
        json_object(pairs)
    }

    /// Signs a descriptor body: the body with a `signature` block holding
    /// the key id, the algorithm and the hex signature of the body's
    /// canonical bytes.
    pub fn sign(&self, body: &Json) -> (r: Json)
        requires
            body@ is Object,
        ensures
            r@ == JsonValue::Object(
                spec_insert(
                    body@->Object_0,
                    "signature"@,
                    JsonValue::Object(
                        object_from(
                            descriptor_signature(
                                derived_id("k-"@, "key"@, self.public_key()),
                                ed25519_signature(self.secret_key(), canonical_bytes(body@)),
                            ),
                        ),
                    ),
                ),
            ),
            ed25519_signature(self.secret_key(), canonical_bytes(body@)).len() == 64,
    {
        proof {
            use_type_invariant(self);
        }
        let bytes = canonical(body);
        let sig = ed25519_sign(self.secret.as_slice(), bytes.as_slice());
        let mut pairs: Vec<(String, Json)> = Vec::new();
        pairs.push(("key_id".to_owned(), Json::Str(self.key_id())));
        pairs.push(("algorithm".to_owned(), Json::str("ed25519")));
        pairs.push(("value".to_owned(), Json::Str(hex(sig.as_slice()))));
        assert(pairs_view(pairs@) =~= descriptor_signature(
            derived_id("k-"@, "key"@, self.public_key()),
            sig@,
        ));
        let block = json_object(pairs);
        let mut signed = match body {
            Json::Object(m) => m.copy(),
            _ => JsonMap::new(),
        };
        signed.insert("signature".to_owned(), block);
        Json::Object(signed)
    }

    /// Completes a profile manifest in its signed form: the issuer class
    /// `law` and the issuer (the key id) are set, then a `signature` block
    /// (suite, key id, hex signature of 64 bytes) covering the canonical
    /// bytes of the manifest so completed, its signature slot excluded.
    pub fn sign_manifest(&self, manifest: &Json) -> (r: Json)
        requires
            manifest@ is Object,
        ensures
            ({
                let completed = completed_manifest(
                    manifest@->Object_0,
                    derived_id("k-"@, "key"@, self.public_key()),
                );
                r@ == JsonValue::Object(
                    spec_insert(
                        completed,
                        "signature"@,
                        JsonValue::Object(
                            object_from(
                                manifest_signature(
                                    derived_id("k-"@, "key"@, self.public_key()),
                                    ed25519_signature(
                                        self.secret_key(),
                                        canonical_bytes(JsonValue::Object(completed)),
                                    ),
                                ),
                            ),
                        ),
                    ),
                )
            }),
            ed25519_signature(
                self.secret_key(),
                canonical_bytes(
                    JsonValue::Object(
                        completed_manifest(
                            manifest@->Object_0,
                            derived_id("k-"@, "key"@, self.public_key()),
                        ),
                    ),
                ),
            ).len() == 64,
    {
        proof {
            use_type_invariant(self);
        }
        let mut completed = match manifest {
            Json::Object(m) => m.copy(),
            _ => JsonMap::new(),
        };
        completed.insert("issuer_class".to_owned(), Json::str("law"));
        completed.insert("issuer".to_owned(), Json::Str(self.key_id()));
        completed.remove("signature");
        let completed_value = Json::Object(completed);
        let bytes = canonical(&completed_value);
        let sig = ed25519_sign(self.secret.as_slice(), bytes.as_slice());
        let mut pairs: Vec<(String, Json)> = Vec::new();
        pairs.push(("suite".to_owned(), Json::str("ed25519")));
        pairs.push(("key_id".to_owned(), Json::Str(self.key_id())));
        pairs.push(("signature".to_owned(), Json::Str(hex(sig.as_slice()))));
        assert(pairs_view(pairs@) =~= manifest_signature(
            derived_id("k-"@, "key"@, self.public_key()),
            sig@,
        ));
        let block = json_object(pairs);
        let mut signed = match completed_value {
            Json::Object(m) => m,
            _ => JsonMap::new(),
        };
        signed.insert("signature".to_owned(), block);
        Json::Object(signed)
    }
}

/// What a signed descriptor carries: with its `signature` block removed it
/// is the body that was signed, and the block's `value` is the Ed25519
/// signature, in hex, of exactly that body's canonical bytes.
pub proof fn lemma_signed_descriptor(
    secret: Seq<u8>,
    key_id: Seq<char>,
    body: Seq<(Seq<char>, JsonValue)>,
)
    requires
        spec_get(body, "signature"@) is None,
    ensures
        ({
            let signature = ed25519_signature(secret, canonical_bytes(JsonValue::Object(body)));
            let block = JsonValue::Object(object_from(descriptor_signature(key_id, signature)));
            let signed = spec_insert(body, "signature"@, block);
            &&& spec_remove(signed, "signature"@) == body
            &&& field(JsonValue::Object(signed), "signature"@) == Some(block)
            &&& field(block, "value"@) == Some(
                JsonValue::Str(
                    hex_spec(
                        ed25519_signature(
                            secret,
                            canonical_bytes(JsonValue::Object(spec_remove(signed, "signature"@))),
                        ),
                    ),
                ),
            )
        }),
{
    let signature = ed25519_signature(secret, canonical_bytes(JsonValue::Object(body)));
    let block = JsonValue::Object(object_from(descriptor_signature(key_id, signature)));
    lemma_remove_insert(body, "signature"@, block);
    lemma_get_insert_same(body, "signature"@, block);
    let p = descriptor_signature(key_id, signature);
    reveal_strlit("value");
    reveal_strlit("key_id");
    reveal_strlit("algorithm");
    assert(p.drop_last() =~= seq![p[0], p[1]]);
    assert(seq![p[0], p[1]].drop_last() =~= seq![p[0]]);
    assert(seq![p[0]].drop_last() =~= Seq::<(Seq<char>, JsonValue)>::empty());
    lemma_get_insert_same(object_from(p.drop_last()), "value"@, p[2].1);
}

/// What a signed manifest carries, whatever object it was signed from
/// (one that already held a signature slot too): with its `signature`
/// block removed it is the manifest completed with its issuer fields, and
/// the block's `signature` is the Ed25519 signature, in hex, of exactly
/// that completed manifest's canonical bytes.
pub proof fn lemma_signed_manifest(
    secret: Seq<u8>,
    key_id: Seq<char>,
    manifest: Seq<(Seq<char>, JsonValue)>,
)
    ensures
        ({
            let completed = completed_manifest(manifest, key_id);
            let signature = ed25519_signature(secret, canonical_bytes(JsonValue::Object(completed)));
            let block = JsonValue::Object(object_from(manifest_signature(key_id, signature)));
            let signed = spec_insert(completed, "signature"@, block);
            &&& spec_remove(signed, "signature"@) == completed
            &&& field(JsonValue::Object(signed), "signature"@) == Some(block)
            &&& field(block, "signature"@) == Some(
                JsonValue::Str(
                    hex_spec(
                        ed25519_signature(
                            secret,
                            canonical_bytes(JsonValue::Object(spec_remove(signed, "signature"@))),
                        ),
                    ),
                ),
            )
        }),
{
    reveal_strlit("signature");
    reveal_strlit("suite");
    reveal_strlit("key_id");
    let completed = completed_manifest(manifest, key_id);
    lemma_get_remove_same(
        spec_insert(
            spec_insert(manifest, "issuer_class"@, JsonValue::Str("law"@)),
            "issuer"@,
            JsonValue::Str(key_id),
        ),
        "signature"@,
    );
    let signature = ed25519_signature(secret, canonical_bytes(JsonValue::Object(completed)));
    let block = JsonValue::Object(object_from(manifest_signature(key_id, signature)));
    lemma_remove_insert(completed, "signature"@, block);
    lemma_get_insert_same(completed, "signature"@, block);
    let p = manifest_signature(key_id, signature);
    assert(p.drop_last() =~= seq![p[0], p[1]]);
    assert(seq![p[0], p[1]].drop_last() =~= seq![p[0]]);
    assert(seq![p[0]].drop_last() =~= Seq::<(Seq<char>, JsonValue)>::empty());
    lemma_get_insert_same(object_from(p.drop_last()), "signature"@, p[2].1);
}

/// A manifest completed for signing: issuer class `law`, issuer the key id,
/// and no signature slot (the bytes a signature covers exclude it).
pub open spec fn completed_manifest(entries: Seq<(Seq<char>, JsonValue)>, key_id: Seq<char>) -> Seq<
    (Seq<char>, JsonValue),
> {
    spec_remove(
        spec_insert(
            spec_insert(entries, "issuer_class"@, JsonValue::Str("law"@)),
            "issuer"@,
            JsonValue::Str(key_id),
        ),
        "signature"@,
    )
}

} // verus!
