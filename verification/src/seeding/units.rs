//! The UnitsML unit inventory for the `/units` subregister: the SI base
//! set, the SI derived set (special names and coherent compounds), the
//! prefixed and non-SI-accepted units that product-passport data points
//! reference, and the passport-context compound units. Every record names
//! its source in `manifest.source`.

use vstd::prelude::*;

use crate::json::{json_object, object_from, pairs_view, Json, JsonValue};
use crate::kit::{args_view, Kit};
use crate::seeding::mappings::{register_option, register_options};
use crate::seeding::{
    audit_seq, audit_seq_text, failure, failure_message, parse_seed_args, seed_options, SeedArgs,
    SeedArgsView,
};
use crate::tally::{is_tally, strings_view, tally, tally_text, tally_text_spec};
use crate::text::{chars_of, concat2, concat3, is_digit};

verus! {

pub const USAGE: &'static str = "usage: unidpp-kit seed-units [--register R] [--port N] [--bind ADDR] [--base-url URL] [--admin-token T] [--token-file PATH]";

pub const SUBMITTING_ORG: &'static str = "UnitsML / UnitsDB (NIST) — unidpp-registry-kit import";

pub const EFFECTIVE_FROM: &'static str = "2026-01-01T00:00:00Z";

pub const KIT_VERSION: &'static str = "1.0.0";

/// Source key: the UnitsDB identifiers, names, symbols, kinds and powers.
pub const SRC_UNITSDB: &'static str = "UnitsDB (unitsml/unitsdb): ids, names, symbols, quantity kinds, dimension powers";

/// Source key: the ISO/IEC 80000 unified dataset.
pub const SRC_80000: &'static str = "ISO/IEC 80000 unified dataset (metanorma/iso-iec-80000, sources/dataset/quantities.yaml): part, edition, item";

/// Source key: the SI Brochure.
pub const SRC_BIPM: &'static str = "BIPM SI Brochure, 9th ed. (2019)";

// ---------------------------------------------------------------------------
// Dimension vectors
// ---------------------------------------------------------------------------

/// The letters of a dimension vector, in QUDT order: length, mass, time,
/// electric current, temperature, amount of substance, luminous
/// intensity, dimensionless.
pub open spec fn dim_letters() -> Seq<char> {
    seq!['L', 'M', 'T', 'E', 'H', 'A', 'I', 'D']
}

/// The length of the run of ASCII digits that begins `s`.
pub open spec fn digit_run(s: Seq<char>) -> nat
    decreases s.len(),
{
    if s.len() > 0 && is_digit(s[0]) {
        1 + digit_run(s.drop_first())
    } else {
        0
    }
}

/// The length of the component for `letter` that begins `s`: the letter,
/// an optional sign, and the whole run of digits that follows (at least
/// one); `None` when `s` does not begin with such a component.
pub open spec fn component_len(s: Seq<char>, letter: char) -> Option<nat> {
    if s.len() > 0 && s[0] == letter {
        let sign: nat = if s.len() > 1 && (s[1] == '+' || s[1] == '-') {
            1
        } else {
            0
        };
        let digits = digit_run(s.skip((1 + sign) as int));
        if digits > 0 {
            Some(1 + sign + digits)
        } else {
            None
        }
    } else {
        None
    }
}

/// `s` is one component for each of `letters`, in order, and nothing else.
pub open spec fn components(s: Seq<char>, letters: Seq<char>) -> bool
    decreases letters.len(),
{
    if letters.len() == 0 {
        s.len() == 0
    } else {
        match component_len(s, letters[0]) {
            Some(n) => components(s.skip(n as int), letters.drop_first()),
            None => false,
        }
    }
}

/// A well-formed dimension vector: eight letter-and-integer components in
/// the order L M T E H A I D.
pub open spec fn dimension_shape(s: Seq<char>) -> bool {
    components(s, dim_letters())
}

fn dim_letter(k: usize) -> (c: char)
    requires
        k < 8,
    ensures
        c == dim_letters()[k as int],
{
    if k == 0 {
        'L'
    } else if k == 1 {
        'M'
    } else if k == 2 {
        'T'
    } else if k == 3 {
        'E'
    } else if k == 4 {
        'H'
    } else if k == 5 {
        'A'
    } else if k == 6 {
        'I'
    } else {
        'D'
    }
}

/// Whether a dimension vector has its shape.
pub fn dimension_well_formed(dim: &str) -> (r: bool)
    ensures
        r == dimension_shape(dim@),
{
    let cs = chars_of(dim);
    let ghost s = cs@;
    let mut at: usize = 0;
    let mut k: usize = 0;
    assert(s.skip(0) =~= s);
    assert(dim_letters().skip(0) =~= dim_letters());
    while k < 8
        invariant
            k <= 8,
            at <= s.len(),
            s == cs@,
            s == dim@,
            dimension_shape(dim@) == components(s.skip(at as int), dim_letters().skip(k as int)),
        decreases 8 - k,
    {
        let letter = dim_letter(k);
        let ghost at0 = at as int;
        let ghost t = s.skip(at0);
        let ghost letters = dim_letters().skip(k as int);
        assert(letters[0] == letter);
        assert(letters.drop_first() =~= dim_letters().skip(k + 1));
        if at >= cs.len() || cs[at] != letter {
            return false;
        }
        assert(t[0] == letter);
        at = at + 1;
        if at < cs.len() && (cs[at] == '-' || cs[at] == '+') {
            at = at + 1;
        }
        let ds = at;
        let ghost sign: nat = (ds - at0 - 1) as nat;
        assert(t.skip((1 + sign) as int) =~= s.skip(ds as int));
        assert(s.skip(ds as int).skip(0) =~= s.skip(ds as int));
        while at < cs.len() && '0' <= cs[at] && cs[at] <= '9'
            invariant
                ds <= at <= s.len(),
                s == cs@,
                digit_run(s.skip(ds as int)) == (at - ds) + digit_run(s.skip(at as int)),
            decreases s.len() - at,
        {
            assert(s.skip(at as int).drop_first() =~= s.skip(at + 1));
            at = at + 1;
        }
        if at == ds {
            return false;
        }
        assert(component_len(t, letter) == Some((at - at0) as nat));
        assert(t.skip(at - at0) =~= s.skip(at as int));
        k = k + 1;
    }
    at == cs.len()
}

// ---------------------------------------------------------------------------
// The table's own consistency
// ---------------------------------------------------------------------------

/// Two rows of the table share an id.
pub open spec fn has_duplicate_ids(rows: Seq<UnitRowView>) -> bool {
    exists|i: int, j: int| 0 <= i < j < rows.len() && rows[i].id == rows[j].id
}

/// The report of a row whose dimension vector is malformed.
pub open spec fn malformed_message(row: UnitRowView) -> Seq<char> {
    "malformed dimension vector for "@ + row.id + ": "@ + row.dimension
}

/// The table's consistency check: unique ids first, then every dimension
/// vector well-formed, reporting the first malformed row.
pub fn check_table(rows: &Vec<UnitRow>) -> (r: Result<(), String>)
    ensures
        has_duplicate_ids(rows_view(rows@)) ==> (r matches Err(e) && e@
            == "unit table has duplicate ids"@),
        !has_duplicate_ids(rows_view(rows@)) ==> match r {
            Ok(()) => forall|i: int|
                0 <= i < rows@.len() ==> dimension_shape(#[trigger] rows@[i].dimension@),
            Err(e) => exists|i: int|
                0 <= i < rows@.len() && !dimension_shape(#[trigger] rows@[i].dimension@) && (
                forall|j: int| 0 <= j < i ==> dimension_shape(#[trigger] rows@[j].dimension@))
                && e@ == malformed_message(rows@[i]@),
        },
{
    let ghost rv = rows_view(rows@);
    let mut i: usize = 0;
    while i < rows.len()
        invariant
            i <= rows@.len(),
            rv == rows_view(rows@),
            forall|a: int, b: int| 0 <= a < b < rows@.len() && a < i ==> rv[a].id != rv[b].id,
        decreases rows@.len() - i,
    {
        let mut j: usize = i + 1;
        while j < rows.len()
            invariant
                i < rows@.len(),
                i + 1 <= j <= rows@.len(),
                rv == rows_view(rows@),
                forall|a: int, b: int| 0 <= a < b < rows@.len() && a < i ==> rv[a].id != rv[b].id,
                forall|b: int| i < b < j ==> rv[i as int].id != rv[b].id,
            decreases rows@.len() - j,
        {
            if crate::text::str_eq(rows[i].id, rows[j].id) {
                assert(rv[i as int].id == rv[j as int].id);
                return Err("unit table has duplicate ids".to_owned());
            }
            j = j + 1;
        }
        i = i + 1;
    }
    assert(!has_duplicate_ids(rv));
    let mut k: usize = 0;
    while k < rows.len()
        invariant
            k <= rows@.len(),
            rv == rows_view(rows@),
            !has_duplicate_ids(rv),
            forall|j: int| 0 <= j < k ==> dimension_shape(#[trigger] rows@[j].dimension@),
        decreases rows@.len() - k,
    {
        if !dimension_well_formed(rows[k].dimension) {
            let mut e = concat3("malformed dimension vector for ", rows[k].id, ": ");
            e.append(rows[k].dimension);
            return Err(e);
        }
        k = k + 1;
    }
    Ok(())
}

/// The categories of the rows, in table order.
pub open spec fn categories_of(rows: Seq<UnitRowView>) -> Seq<Seq<char>> {
    rows.map_values(|r: UnitRowView| r.category)
}

/// The category report: how many units each category holds, categories in
/// key order.
pub fn category_report(rows: &Vec<UnitRow>) -> (r: String)
    ensures
        exists|t: Seq<(Seq<char>, nat)>|
            is_tally(t, categories_of(rows_view(rows@))) && r@ == "  categories: "@
                + tally_text_spec(t),
{
    let mut cats: Vec<String> = Vec::new();
    let mut i: usize = 0;
    while i < rows.len()
        invariant
            i <= rows@.len(),
            strings_view(cats@) == categories_of(rows_view(rows@)).take(i as int),
        decreases rows@.len() - i,
    {
        let ghost before = strings_view(cats@);
        cats.push(rows[i].category.to_owned());
        assert(strings_view(cats@) =~= before.push(rows@[i as int].category@));
        assert(categories_of(rows_view(rows@)).take(i + 1) =~= categories_of(
            rows_view(rows@),
        ).take(i as int).push(rows@[i as int].category@));
        i = i + 1;
    }
    assert(categories_of(rows_view(rows@)).take(rows@.len() as int) =~= categories_of(
        rows_view(rows@),
    ));
    let t = tally(&cats);
    let text = tally_text(&t);
    concat2("  categories: ", text.as_str())
}

// ---------------------------------------------------------------------------
// Registration
// ---------------------------------------------------------------------------

/// The registry item id of a unit.
pub open spec fn unit_item_id(id: Seq<char>) -> Seq<char> {
    "unitsml:"@ + id
}

/// The one-line definition of a unit.
pub open spec fn unit_definition(u: UnitRowView) -> Seq<char> {
    u.name + " ("@ + u.symbol + ") — "@ + u.quantity + "; "@ + u.expression
}

/// The manifest of a unit.
pub open spec fn unit_manifest(u: UnitRowView) -> Seq<(Seq<char>, JsonValue)> {
    seq![
        ("version"@, JsonValue::Str(KIT_VERSION@)),
        ("name"@, JsonValue::Str(u.name)),
        ("symbol"@, JsonValue::Str(u.symbol)),
        ("unitsml_id"@, JsonValue::Str(u.id)),
        ("category"@, JsonValue::Str(u.category)),
        ("quantity_kind"@, JsonValue::Str(u.quantity)),
        ("dimension_vector"@, JsonValue::Str(u.dimension)),
        ("definition_expr"@, JsonValue::Str(u.expression)),
        ("iso_80000_citation"@, JsonValue::Str(u.citation)),
        ("source"@, JsonValue::Str(u.source)),
    ]
}

/// The `POST /units` body of a unit.
pub open spec fn unit_registration_pairs(register: Seq<char>, u: UnitRowView) -> Seq<
    (Seq<char>, JsonValue),
> {
    seq![
        ("register_id"@, JsonValue::Str(register)),
        ("item_id"@, JsonValue::Str(unit_item_id(u.id))),
        ("definition"@, JsonValue::Str(unit_definition(u))),
        ("version"@, JsonValue::Str(KIT_VERSION@)),
        ("effective_from"@, JsonValue::Str(EFFECTIVE_FROM@)),
        ("submitting_organization"@, JsonValue::Str(SUBMITTING_ORG@)),
        ("manifest"@, JsonValue::Object(object_from(unit_manifest(u)))),
    ]
}

/// The registry item id of a unit.
pub fn item_id(unit: &UnitRow) -> (r: String)
    ensures
        r@ == unit_item_id(unit.id@),
{
    concat2("unitsml:", unit.id)
}

/// The `POST /units` body of a unit.
pub fn unit_registration(register: &str, unit: &UnitRow) -> (r: Json)
    ensures
        r@ == JsonValue::Object(object_from(unit_registration_pairs(register@, unit@))),
{
    let u = unit;
    let mut manifest: Vec<(String, Json)> = Vec::new();
    manifest.push(("version".to_owned(), Json::str(KIT_VERSION)));
    manifest.push(("name".to_owned(), Json::str(u.name)));
    manifest.push(("symbol".to_owned(), Json::str(u.symbol)));
    manifest.push(("unitsml_id".to_owned(), Json::str(u.id)));
    manifest.push(("category".to_owned(), Json::str(u.category)));
    manifest.push(("quantity_kind".to_owned(), Json::str(u.quantity)));
    manifest.push(("dimension_vector".to_owned(), Json::str(u.dimension)));
    manifest.push(("definition_expr".to_owned(), Json::str(u.expression)));
    manifest.push(("iso_80000_citation".to_owned(), Json::str(u.citation)));
    manifest.push(("source".to_owned(), Json::str(u.source.as_str())));
    assert(pairs_view(manifest@) =~= unit_manifest(u@));
    let mut definition = concat3(u.name, " (", u.symbol);
    definition.append(") — ");
    definition.append(u.quantity);
    definition.append("; ");
    definition.append(u.expression);
    let mut pairs: Vec<(String, Json)> = Vec::new();
    pairs.push(("register_id".to_owned(), Json::str(register)));
    let id = item_id(u);
    pairs.push(("item_id".to_owned(), Json::Str(id)));
    pairs.push(("definition".to_owned(), Json::Str(definition)));
    pairs.push(("version".to_owned(), Json::str(KIT_VERSION)));
    pairs.push(("effective_from".to_owned(), Json::str(EFFECTIVE_FROM)));
    pairs.push(("submitting_organization".to_owned(), Json::str(SUBMITTING_ORG)));
    pairs.push(("manifest".to_owned(), json_object(manifest)));
    assert(pairs_view(pairs@) =~= unit_registration_pairs(register@, u@));
    json_object(pairs)
}

/// What the registry's answer to a unit registration means: a report line,
/// or the failure that stops the run.
pub fn unit_outcome(item_id: &str, name: &str, status: u16, resp: &Json) -> (r: Result<
    String,
    String,
>)
    ensures
        status == 201 ==> (r matches Ok(line) && line@ == "registered "@ + item_id@ + " — "@
            + name@ + " (audit_seq "@ + audit_seq(resp@) + ")"@),
        status == 409 ==> (r matches Ok(line) && line@ == "already registered "@ + item_id@),
        status != 201 && status != 409 ==> (r matches Err(e) && e@ == failure(
            "unit `"@ + item_id@ + "` failed"@,
            status,
            resp@,
        )),
{
    if status == 201 {
        let mut line = concat3("registered ", item_id, " — ");
        line.append(name);
        line.append(" (audit_seq ");
        let seq_text = audit_seq_text(resp);
        line.append(seq_text.as_str());
        line.append(")");
        Ok(line)
    } else if status == 409 {
        Ok(concat2("already registered ", item_id))
    } else {
        let what = concat3("unit `", item_id, "` failed");
        Err(failure_message(what.as_str(), status, resp))
    }
}

// ---------------------------------------------------------------------------
// Verification
// ---------------------------------------------------------------------------

/// The item ids the inventory registers, in table order.
pub open spec fn expected_ids(rows: Seq<UnitRowView>) -> Seq<Seq<char>> {
    rows.map_values(|u: UnitRowView| unit_item_id(u.id))
}

/// The item ids the inventory registers.
pub fn expected_item_ids(rows: &Vec<UnitRow>) -> (r: Vec<String>)
    ensures
        strings_view(r@) == expected_ids(rows_view(rows@)),
{
    let mut r: Vec<String> = Vec::new();
    let mut i: usize = 0;
    while i < rows.len()
        invariant
            i <= rows@.len(),
            strings_view(r@) == expected_ids(rows_view(rows@)).take(i as int),
        decreases rows@.len() - i,
    {
        let ghost before = strings_view(r@);
        let id = item_id(&rows[i]);
        r.push(id);
        assert(strings_view(r@) =~= before.push(unit_item_id(rows@[i as int].id@)));
        assert(expected_ids(rows_view(rows@)).take(i + 1) =~= expected_ids(rows_view(rows@)).take(
            i as int,
        ).push(unit_item_id(rows@[i as int].id@)));
        i = i + 1;
    }
    assert(expected_ids(rows_view(rows@)).take(rows@.len() as int) =~= expected_ids(
        rows_view(rows@),
    ));
    r
}

/// The listing that verifies the seeding.
pub fn listing_path(register: &str) -> (r: String)
    ensures
        r@ == "/units?register="@ + register@,
{
    concat2("/units?register=", register)
}

// ---------------------------------------------------------------------------
// The command line
// ---------------------------------------------------------------------------

/// The command line of `seed-units`: the register (`unitsml` unless
/// `--register` names one) and the shared options; a missing option value
/// is the usage error.
pub fn run(kit: &Kit, args: &Vec<String>) -> (r: Result<(String, SeedArgs), String>)
    ensures
        match register_options("unitsml"@, Seq::empty(), args_view(args@), USAGE@) {
            Err(e) => r matches Err(x) && x@ == e,
            Ok((register, shared)) => {
                let start = SeedArgsView {
                    bind: kit.bind@,
                    port: kit.port,
                    base_url: None,
                    admin_token: None,
                    token_file: None,
                };
                match seed_options(start, shared, USAGE@) {
                    Err(e) => r matches Err(x) && x@ == e,
                    Ok(sv) => r matches Ok((reg, parsed)) && reg@ == register && parsed@ == sv,
                }
            },
        },
{
    let (register, shared) = match register_option(args, "unitsml", USAGE) {
        Ok(p) => p,
        Err(e) => return Err(e),
    };
    match parse_seed_args(kit, &shared, USAGE) {
        Ok(parsed) => Ok((register, parsed)),
        Err(e) => Err(e),
    }
}

// ---------------------------------------------------------------------------
// The unit table
// ---------------------------------------------------------------------------

/// One unit: its UnitsML id, name, symbol, quantity kind, dimension vector,
/// citation, coherent definition, source and category.
pub struct UnitRow {
    pub id: &'static str,
    pub name: &'static str,
    pub symbol: &'static str,
    pub quantity: &'static str,
    pub dimension: &'static str,
    pub citation: &'static str,
    pub expression: &'static str,
    pub source: String,
    pub category: &'static str,
}

/// A unit row as texts.
pub struct UnitRowView {
    pub id: Seq<char>,
    pub name: Seq<char>,
    pub symbol: Seq<char>,
    pub quantity: Seq<char>,
    pub dimension: Seq<char>,
    pub citation: Seq<char>,
    pub expression: Seq<char>,
    pub source: Seq<char>,
    pub category: Seq<char>,
}

impl UnitRow {
    pub open spec fn view(&self) -> UnitRowView {
        UnitRowView {
            id: self.id@,
            name: self.name@,
            symbol: self.symbol@,
            quantity: self.quantity@,
            dimension: self.dimension@,
            citation: self.citation@,
            expression: self.expression@,
            source: self.source@,
            category: self.category@,
        }
    }
}

/// A unit row built from its texts.
pub open spec fn unit_row(
    id: Seq<char>,
    name: Seq<char>,
    symbol: Seq<char>,
    quantity: Seq<char>,
    dimension: Seq<char>,
    citation: Seq<char>,
    expression: Seq<char>,
    source: Seq<char>,
    category: Seq<char>,
) -> UnitRowView {
    UnitRowView { id, name, symbol, quantity, dimension, citation, expression, source, category }
}

/// The views of a list of rows.
pub open spec fn rows_view(rows: Seq<UnitRow>) -> Seq<UnitRowView> {
    rows.map_values(|r: UnitRow| r@)
}

fn unit(
    id: &'static str,
    name: &'static str,
    symbol: &'static str,
    quantity: &'static str,
    dimension: &'static str,
    citation: &'static str,
    expression: &'static str,
    source: String,
    category: &'static str,
) -> (r: UnitRow)
    ensures
        r@ == unit_row(
            id@,
            name@,
            symbol@,
            quantity@,
            dimension@,
            citation@,
            expression@,
            source@,
            category@,
        ),
{
    UnitRow { id, name, symbol, quantity, dimension, citation, expression, source, category }
}

/// The source of a unit in UnitsDB and the ISO/IEC 80000 dataset.
pub open spec fn iso_source() -> Seq<char> {
    SRC_UNITSDB@ + "; "@ + SRC_80000@
}

/// The source of a unit in UnitsDB and the SI Brochure.
pub open spec fn bipm_source() -> Seq<char> {
    SRC_UNITSDB@ + "; "@ + SRC_BIPM@
}

/// The source of a prefixed unit whose id follows the UnitsML grammar.
pub open spec fn prefixed_source() -> Seq<char> {
    iso_source() + "; prefixed id constructed per UnitsML grammar"@
}

/// The source of the percent, a fraction of the unit one.
pub open spec fn unit_one_source() -> Seq<char> {
    SRC_80000@ + " (ISO 80000-1:2022 sources); id per UnitsML grammar"@
}

/// The source of a unit whose id the kit constructs.
pub open spec fn constructed_source() -> Seq<char> {
    SRC_BIPM@ + "; kit-constructed id (not a UnitsML-registered unit)"@
}

fn iso_source_text() -> (r: String)
    ensures
        r@ == iso_source(),
{
    concat3(SRC_UNITSDB, "; ", SRC_80000)
}

fn bipm_source_text() -> (r: String)
    ensures
        r@ == bipm_source(),
{
    concat3(SRC_UNITSDB, "; ", SRC_BIPM)
}

fn prefixed_source_text() -> (r: String)
    ensures
        r@ == prefixed_source(),
{
    let mut r = iso_source_text();
    r.append("; prefixed id constructed per UnitsML grammar");
    r
}

fn unit_one_source_text() -> (r: String)
    ensures
        r@ == unit_one_source(),
{
    concat2(SRC_80000, " (ISO 80000-1:2022 sources); id per UnitsML grammar")
}

fn constructed_source_text() -> (r: String)
    ensures
        r@ == constructed_source(),
{
    concat2(SRC_BIPM, "; kit-constructed id (not a UnitsML-registered unit)")
}

/// The whole inventory, group by group.
pub open spec fn unit_rows() -> Seq<UnitRowView> {
    si_base_rows() + si_derived_special_rows() + si_derived_compound_rows() + si_prefixed_rows()
        + non_si_accepted_rows() + dpp_context_rows()
}

/// The unit inventory.
pub fn units() -> (r: Vec<UnitRow>)
    ensures
        rows_view(r@) == unit_rows(),
        r@.len() == 48,
{
    let mut v = si_base_units();
    let mut more = si_derived_special_units();
    let ghost a = rows_view(v@);
    let ghost b = rows_view(more@);
    v.append(&mut more);
    assert(rows_view(v@) =~= a + b);
    let mut more = si_derived_compound_units();
    let ghost a = rows_view(v@);
    let ghost b = rows_view(more@);
    v.append(&mut more);
    assert(rows_view(v@) =~= a + b);
    let mut more = si_prefixed_units();
    let ghost a = rows_view(v@);
    let ghost b = rows_view(more@);
    v.append(&mut more);
    assert(rows_view(v@) =~= a + b);
    let mut more = non_si_accepted_units();
    let ghost a = rows_view(v@);
    let ghost b = rows_view(more@);
    v.append(&mut more);
    assert(rows_view(v@) =~= a + b);
    let mut more = dpp_context_units();
    let ghost a = rows_view(v@);
    let ghost b = rows_view(more@);
    v.append(&mut more);
    assert(rows_view(v@) =~= a + b);
    v
}

/// The seven SI base units.
pub open spec fn si_base_rows() -> Seq<UnitRowView> {
    seq![
        unit_row("u:m"@, "metre"@, "m"@, "length"@, "L1M0T0E0H0A0I0D0"@,
            "ISO 80000-3:2019, item 3-1.1 (length)"@,
            "SI base unit of length"@, iso_source(), "si-base"@),
        unit_row("u:kilogram"@, "kilogram"@, "kg"@, "mass"@, "L0M1T0E0H0A0I0D0"@,
            "ISO 80000-4:2019, item 4-1 (mass)"@,
            "SI base unit of mass"@, iso_source(), "si-base"@),
        unit_row("u:second"@, "second"@, "s"@, "duration (time)"@, "L0M0T1E0H0A0I0D0"@,
            "ISO 80000-3:2019, item 3-9 (duration)"@,
            "SI base unit of time"@, iso_source(), "si-base"@),
        unit_row("u:ampere"@, "ampere"@, "A"@, "electric current"@, "L0M0T0E1H0A0I0D0"@,
            "IEC 80000-6:2022, item 6-1 (electric current)"@,
            "SI base unit of electric current"@, iso_source(), "si-base"@),
        unit_row("u:kelvin"@, "kelvin"@, "K"@, "thermodynamic temperature"@, "L0M0T0E0H1A0I0D0"@,
            "ISO 80000-5:2019, item 5-1 (thermodynamic temperature)"@,
            "SI base unit of thermodynamic temperature"@, iso_source(), "si-base"@),
        unit_row("u:mole"@, "mole"@, "mol"@, "amount of substance"@, "L0M0T0E0H0A1I0D0"@,
            "ISO 80000-9:2019, item 9-2 (amount of substance)"@,
            "SI base unit of amount of substance"@, iso_source(), "si-base"@),
        unit_row("u:candela"@, "candela"@, "cd"@, "luminous intensity"@, "L0M0T0E0H0A0I1D0"@,
            "ISO 80000-7:2019, item 7-14 (luminous intensity)"@,
            "SI base unit of luminous intensity"@, iso_source(), "si-base"@),
    ]
}

/// The seven SI base units.
fn si_base_units() -> (r: Vec<UnitRow>)
    ensures
        rows_view(r@) == si_base_rows(),
{
    let mut v: Vec<UnitRow> = Vec::new();
    v.push(unit("u:m", "metre", "m", "length", "L1M0T0E0H0A0I0D0",
        "ISO 80000-3:2019, item 3-1.1 (length)",
        "SI base unit of length", iso_source_text(), "si-base"));
    v.push(unit("u:kilogram", "kilogram", "kg", "mass", "L0M1T0E0H0A0I0D0",
        "ISO 80000-4:2019, item 4-1 (mass)",
        "SI base unit of mass", iso_source_text(), "si-base"));
    v.push(unit("u:second", "second", "s", "duration (time)", "L0M0T1E0H0A0I0D0",
        "ISO 80000-3:2019, item 3-9 (duration)",
        "SI base unit of time", iso_source_text(), "si-base"));
    v.push(unit("u:ampere", "ampere", "A", "electric current", "L0M0T0E1H0A0I0D0",
        "IEC 80000-6:2022, item 6-1 (electric current)",
        "SI base unit of electric current", iso_source_text(), "si-base"));
    v.push(unit("u:kelvin", "kelvin", "K", "thermodynamic temperature", "L0M0T0E0H1A0I0D0",
        "ISO 80000-5:2019, item 5-1 (thermodynamic temperature)",
        "SI base unit of thermodynamic temperature", iso_source_text(), "si-base"));
    v.push(unit("u:mole", "mole", "mol", "amount of substance", "L0M0T0E0H0A1I0D0",
        "ISO 80000-9:2019, item 9-2 (amount of substance)",
        "SI base unit of amount of substance", iso_source_text(), "si-base"));
    v.push(unit("u:candela", "candela", "cd", "luminous intensity", "L0M0T0E0H0A0I1D0",
        "ISO 80000-7:2019, item 7-14 (luminous intensity)",
        "SI base unit of luminous intensity", iso_source_text(), "si-base"));
    assert(rows_view(v@) =~= si_base_rows());
    v
}

/// The SI derived units with special names.
pub open spec fn si_derived_special_rows() -> Seq<UnitRowView> {
    seq![
        unit_row("u:radian"@, "radian"@, "rad"@, "plane angle"@, "L0M0T0E0H0A0I0D1"@,
            "ISO 80000-3:2019, item 3-5 (angular measure)"@,
            "1 rad = 1 m/m"@, iso_source(), "si-derived-special"@),
        unit_row("u:steradian"@, "steradian"@, "sr"@, "solid angle"@, "L0M0T0E0H0A0I0D1"@,
            "ISO 80000-3:2019, item 3-8 (solid angular measure)"@,
            "1 sr = 1 m2/m2"@, iso_source(), "si-derived-special"@),
        unit_row("u:hertz"@, "hertz"@, "Hz"@, "frequency"@, "L0M0T-1E0H0A0I0D0"@,
            "ISO 80000-3:2019, item 3-17.1 (frequency)"@,
            "1 Hz = 1 s-1"@, iso_source(), "si-derived-special"@),
        unit_row("u:newton"@, "newton"@, "N"@, "force"@, "L1M1T-2E0H0A0I0D0"@,
            "ISO 80000-4:2019, item 4-9.1 (force)"@,
            "1 N = 1 kg m s-2"@, iso_source(), "si-derived-special"@),
        unit_row("u:pascal"@, "pascal"@, "Pa"@, "pressure, stress"@, "L-1M1T-2E0H0A0I0D0"@,
            "ISO 80000-4:2019, item 4-14.1 (pressure)"@,
            "1 Pa = 1 N/m2 = 1 kg m-1 s-2"@, iso_source(), "si-derived-special"@),
        unit_row("u:joule"@, "joule"@, "J"@, "energy, work, amount of heat"@, "L2M1T-2E0H0A0I0D0"@,
            "ISO 80000-4:2019, item 4-28 (energy, work)"@,
            "1 J = 1 N m"@, iso_source(), "si-derived-special"@),
        unit_row("u:watt"@, "watt"@, "W"@, "power, radiant flux"@, "L2M1T-3E0H0A0I0D0"@,
            "ISO 80000-4:2019, item 4-27 (power); IEC 80000-6:2022, item 6-45"@,
            "1 W = 1 J/s"@, iso_source(), "si-derived-special"@),
        unit_row("u:coulomb"@, "coulomb"@, "C"@, "electric charge"@, "L0M0T1E1H0A0I0D0"@,
            "IEC 80000-6:2022, item 6-2.1 (electric charge)"@,
            "1 C = 1 A s"@, iso_source(), "si-derived-special"@),
        unit_row("u:volt"@, "volt"@, "V"@, "electric potential difference"@, "L2M1T-3E-1H0A0I0D0"@,
            "IEC 80000-6:2022, item 6-11.1 (electric potential)"@,
            "1 V = 1 W/A"@, iso_source(), "si-derived-special"@),
        unit_row("u:farad"@, "farad"@, "F"@, "capacitance"@, "L-2M-1T4E2H0A0I0D0"@,
            "IEC 80000-6:2022, item 6-13 (capacitance)"@,
            "1 F = 1 C/V"@, iso_source(), "si-derived-special"@),
        unit_row("u:ohm"@, "ohm"@, "Ω"@, "electric resistance"@, "L2M1T-3E-2H0A0I0D0"@,
            "IEC 80000-6:2022, item 6-46 (resistance)"@,
            "1 Ω = 1 V/A"@, iso_source(), "si-derived-special"@),
        unit_row("u:siemens"@, "siemens"@, "S"@, "electric conductance"@, "L-2M-1T3E2H0A0I0D0"@,
            "IEC 80000-6:2022, item 6-47 (conductance)"@,
            "1 S = 1 A/V = 1 Ω-1"@, iso_source(), "si-derived-special"@),
        unit_row("u:weber"@, "weber"@, "Wb"@, "magnetic flux"@, "L2M1T-2E-1H0A0I0D0"@,
            "IEC 80000-6:2022, item 6-22.1 (magnetic flux)"@,
            "1 Wb = 1 V s"@, iso_source(), "si-derived-special"@),
        unit_row("u:tesla"@, "tesla"@, "T"@, "magnetic flux density"@, "L0M1T-2E-1H0A0I0D0"@,
            "IEC 80000-6:2022, item 6-21 (magnetic flux density)"@,
            "1 T = 1 Wb/m2"@, iso_source(), "si-derived-special"@),
        unit_row("u:henry"@, "henry"@, "H"@, "inductance"@, "L2M1T-2E-2H0A0I0D0"@,
            "IEC 80000-6:2022, item 6-41.1 (inductance)"@,
            "1 H = 1 Wb/A"@, iso_source(), "si-derived-special"@),
        unit_row("u:degree_Celsius"@, "degree Celsius"@, "°C"@, "Celsius temperature"@, "L0M0T0E0H1A0I0D0"@,
            "ISO 80000-5:2019, item 5-2 (Celsius temperature)"@,
            "t/°C = T/K − 273.15"@, iso_source(), "si-derived-special"@),
        unit_row("u:lumen"@, "lumen"@, "lm"@, "luminous flux"@, "L0M0T0E0H0A0I1D0"@,
            "ISO 80000-7:2019, item 7-13 (luminous flux)"@,
            "1 lm = 1 cd sr"@, iso_source(), "si-derived-special"@),
        unit_row("u:lux"@, "lux"@, "lx"@, "illuminance"@, "L-2M0T0E0H0A0I1D0"@,
            "ISO 80000-7:2019, item 7-16 (illuminance)"@,
            "1 lx = 1 lm/m2"@, iso_source(), "si-derived-special"@),
        unit_row("u:becquerel"@, "becquerel"@, "Bq"@, "activity referred to a radionuclide"@, "L0M0T-1E0H0A0I0D0"@,
            "ISO 80000-10:2019, item 10-27 (activity)"@,
            "1 Bq = 1 s-1"@, iso_source(), "si-derived-special"@),
        unit_row("u:gray"@, "gray"@, "Gy"@, "absorbed dose"@, "L2M0T-2E0H0A0I0D0"@,
            "ISO 80000-10:2019, item 10-81.1 (absorbed dose)"@,
            "1 Gy = 1 J/kg"@, iso_source(), "si-derived-special"@),
        unit_row("u:sievert"@, "sievert"@, "Sv"@, "dose equivalent"@, "L2M0T-2E0H0A0I0D0"@,
            "ISO 80000-10:2019, item 10-83.1 (dose equivalent)"@,
            "1 Sv = 1 J/kg"@, iso_source(), "si-derived-special"@),
        unit_row("u:katal"@, "katal"@, "kat"@, "catalytic activity"@, "L0M0T-1E0H0A1I0D0"@,
            "BIPM SI Brochure, 9th ed. (2019), Table 4 (SI coherent derived units with special names); no item in the transcribed ISO 80000-9 dataset"@,
            "1 kat = 1 mol/s"@, bipm_source(), "si-derived-special"@),
    ]
}

/// The SI derived units with special names.
fn si_derived_special_units() -> (r: Vec<UnitRow>)
    ensures
        rows_view(r@) == si_derived_special_rows(),
{
    let mut v: Vec<UnitRow> = Vec::new();
    v.push(unit("u:radian", "radian", "rad", "plane angle", "L0M0T0E0H0A0I0D1",
        "ISO 80000-3:2019, item 3-5 (angular measure)",
        "1 rad = 1 m/m", iso_source_text(), "si-derived-special"));
    v.push(unit("u:steradian", "steradian", "sr", "solid angle", "L0M0T0E0H0A0I0D1",
        "ISO 80000-3:2019, item 3-8 (solid angular measure)",
        "1 sr = 1 m2/m2", iso_source_text(), "si-derived-special"));
    v.push(unit("u:hertz", "hertz", "Hz", "frequency", "L0M0T-1E0H0A0I0D0",
        "ISO 80000-3:2019, item 3-17.1 (frequency)",
        "1 Hz = 1 s-1", iso_source_text(), "si-derived-special"));
    v.push(unit("u:newton", "newton", "N", "force", "L1M1T-2E0H0A0I0D0",
        "ISO 80000-4:2019, item 4-9.1 (force)",
        "1 N = 1 kg m s-2", iso_source_text(), "si-derived-special"));
    v.push(unit("u:pascal", "pascal", "Pa", "pressure, stress", "L-1M1T-2E0H0A0I0D0",
        "ISO 80000-4:2019, item 4-14.1 (pressure)",
        "1 Pa = 1 N/m2 = 1 kg m-1 s-2", iso_source_text(), "si-derived-special"));
    v.push(unit("u:joule", "joule", "J", "energy, work, amount of heat", "L2M1T-2E0H0A0I0D0",
        "ISO 80000-4:2019, item 4-28 (energy, work)",
        "1 J = 1 N m", iso_source_text(), "si-derived-special"));
    v.push(unit("u:watt", "watt", "W", "power, radiant flux", "L2M1T-3E0H0A0I0D0",
        "ISO 80000-4:2019, item 4-27 (power); IEC 80000-6:2022, item 6-45",
        "1 W = 1 J/s", iso_source_text(), "si-derived-special"));
    v.push(unit("u:coulomb", "coulomb", "C", "electric charge", "L0M0T1E1H0A0I0D0",
        "IEC 80000-6:2022, item 6-2.1 (electric charge)",
        "1 C = 1 A s", iso_source_text(), "si-derived-special"));
    v.push(unit("u:volt", "volt", "V", "electric potential difference", "L2M1T-3E-1H0A0I0D0",
        "IEC 80000-6:2022, item 6-11.1 (electric potential)",
        "1 V = 1 W/A", iso_source_text(), "si-derived-special"));
    v.push(unit("u:farad", "farad", "F", "capacitance", "L-2M-1T4E2H0A0I0D0",
        "IEC 80000-6:2022, item 6-13 (capacitance)",
        "1 F = 1 C/V", iso_source_text(), "si-derived-special"));
    v.push(unit("u:ohm", "ohm", "Ω", "electric resistance", "L2M1T-3E-2H0A0I0D0",
        "IEC 80000-6:2022, item 6-46 (resistance)",
        "1 Ω = 1 V/A", iso_source_text(), "si-derived-special"));
    v.push(unit("u:siemens", "siemens", "S", "electric conductance", "L-2M-1T3E2H0A0I0D0",
        "IEC 80000-6:2022, item 6-47 (conductance)",
        "1 S = 1 A/V = 1 Ω-1", iso_source_text(), "si-derived-special"));
    v.push(unit("u:weber", "weber", "Wb", "magnetic flux", "L2M1T-2E-1H0A0I0D0",
        "IEC 80000-6:2022, item 6-22.1 (magnetic flux)",
        "1 Wb = 1 V s", iso_source_text(), "si-derived-special"));
    v.push(unit("u:tesla", "tesla", "T", "magnetic flux density", "L0M1T-2E-1H0A0I0D0",
        "IEC 80000-6:2022, item 6-21 (magnetic flux density)",
        "1 T = 1 Wb/m2", iso_source_text(), "si-derived-special"));
    v.push(unit("u:henry", "henry", "H", "inductance", "L2M1T-2E-2H0A0I0D0",
        "IEC 80000-6:2022, item 6-41.1 (inductance)",
        "1 H = 1 Wb/A", iso_source_text(), "si-derived-special"));
    v.push(unit("u:degree_Celsius", "degree Celsius", "°C", "Celsius temperature", "L0M0T0E0H1A0I0D0",
        "ISO 80000-5:2019, item 5-2 (Celsius temperature)",
        "t/°C = T/K − 273.15", iso_source_text(), "si-derived-special"));
    v.push(unit("u:lumen", "lumen", "lm", "luminous flux", "L0M0T0E0H0A0I1D0",
        "ISO 80000-7:2019, item 7-13 (luminous flux)",
        "1 lm = 1 cd sr", iso_source_text(), "si-derived-special"));
    v.push(unit("u:lux", "lux", "lx", "illuminance", "L-2M0T0E0H0A0I1D0",
        "ISO 80000-7:2019, item 7-16 (illuminance)",
        "1 lx = 1 lm/m2", iso_source_text(), "si-derived-special"));
    v.push(unit("u:becquerel", "becquerel", "Bq", "activity referred to a radionuclide", "L0M0T-1E0H0A0I0D0",
        "ISO 80000-10:2019, item 10-27 (activity)",
        "1 Bq = 1 s-1", iso_source_text(), "si-derived-special"));
    v.push(unit("u:gray", "gray", "Gy", "absorbed dose", "L2M0T-2E0H0A0I0D0",
        "ISO 80000-10:2019, item 10-81.1 (absorbed dose)",
        "1 Gy = 1 J/kg", iso_source_text(), "si-derived-special"));
    v.push(unit("u:sievert", "sievert", "Sv", "dose equivalent", "L2M0T-2E0H0A0I0D0",
        "ISO 80000-10:2019, item 10-83.1 (dose equivalent)",
        "1 Sv = 1 J/kg", iso_source_text(), "si-derived-special"));
    v.push(unit("u:katal", "katal", "kat", "catalytic activity", "L0M0T-1E0H0A1I0D0",
        "BIPM SI Brochure, 9th ed. (2019), Table 4 (SI coherent derived units with special names); no item in the transcribed ISO 80000-9 dataset",
        "1 kat = 1 mol/s", bipm_source_text(), "si-derived-special"));
    assert(rows_view(v@) =~= si_derived_special_rows());
    v
}

/// The SI coherent derived units without special names.
pub open spec fn si_derived_compound_rows() -> Seq<UnitRowView> {
    seq![
        unit_row("u:square_meter"@, "square metre"@, "m²"@, "area"@, "L2M0T0E0H0A0I0D0"@,
            "ISO 80000-3:2019, item 3-3 (area)"@,
            "1 m2"@, iso_source(), "si-derived-compound"@),
        unit_row("u:cubic_meter"@, "cubic metre"@, "m³"@, "volume"@, "L3M0T0E0H0A0I0D0"@,
            "ISO 80000-3:2019, item 3-4 (volume)"@,
            "1 m3"@, iso_source(), "si-derived-compound"@),
        unit_row("u:meter_per_second"@, "metre per second"@, "m/s"@, "velocity, speed"@, "L1M0T-1E0H0A0I0D0"@,
            "ISO 80000-3:2019, item 3-10 (velocity, speed)"@,
            "1 m/s"@, iso_source(), "si-derived-compound"@),
    ]
}

/// The SI coherent derived units without special names.
fn si_derived_compound_units() -> (r: Vec<UnitRow>)
    ensures
        rows_view(r@) == si_derived_compound_rows(),
{
    let mut v: Vec<UnitRow> = Vec::new();
    v.push(unit("u:square_meter", "square metre", "m²", "area", "L2M0T0E0H0A0I0D0",
        "ISO 80000-3:2019, item 3-3 (area)",
        "1 m2", iso_source_text(), "si-derived-compound"));
    v.push(unit("u:cubic_meter", "cubic metre", "m³", "volume", "L3M0T0E0H0A0I0D0",
        "ISO 80000-3:2019, item 3-4 (volume)",
        "1 m3", iso_source_text(), "si-derived-compound"));
    v.push(unit("u:meter_per_second", "metre per second", "m/s", "velocity, speed", "L1M0T-1E0H0A0I0D0",
        "ISO 80000-3:2019, item 3-10 (velocity, speed)",
        "1 m/s", iso_source_text(), "si-derived-compound"));
    assert(rows_view(v@) =~= si_derived_compound_rows());
    v
}

/// The SI prefixed units that product-passport data points use.
pub open spec fn si_prefixed_rows() -> Seq<UnitRowView> {
    seq![
        unit_row("u:gram"@, "gram"@, "g"@, "mass"@, "L0M1T0E0H0A0I0D0"@,
            "BIPM SI Brochure, 9th ed. (2019) (kilogram; the gram is the unprefixed name base of the kilogram); 1 g = 10-3 kg"@,
            "1 g = 10-3 kg"@, bipm_source(), "si-prefixed"@),
        unit_row("u:kilometer"@, "kilometre"@, "km"@, "length"@, "L1M0T0E0H0A0I0D0"@,
            "ISO 80000-3:2019, item 3-1.1 (metre); prefix kilo per ISO 80000-1:2022 (SI prefixes)"@,
            "1 km = 103 m"@, prefixed_source(), "si-prefixed"@),
        unit_row("u:millimeter"@, "millimetre"@, "mm"@, "length"@, "L1M0T0E0H0A0I0D0"@,
            "ISO 80000-3:2019, item 3-1.1 (metre); prefix milli per ISO 80000-1:2022 (SI prefixes)"@,
            "1 mm = 10-3 m"@, prefixed_source(), "si-prefixed"@),
        unit_row("u:megajoule"@, "megajoule"@, "MJ"@, "energy"@, "L2M1T-2E0H0A0I0D0"@,
            "ISO 80000-4:2019, item 4-28 (joule); prefix mega per ISO 80000-1:2022 (SI prefixes)"@,
            "1 MJ = 106 J"@, prefixed_source(), "si-prefixed"@),
    ]
}

/// The SI prefixed units that product-passport data points use.
fn si_prefixed_units() -> (r: Vec<UnitRow>)
    ensures
        rows_view(r@) == si_prefixed_rows(),
{
    let mut v: Vec<UnitRow> = Vec::new();
    v.push(unit("u:gram", "gram", "g", "mass", "L0M1T0E0H0A0I0D0",
        "BIPM SI Brochure, 9th ed. (2019) (kilogram; the gram is the unprefixed name base of the kilogram); 1 g = 10-3 kg",
        "1 g = 10-3 kg", bipm_source_text(), "si-prefixed"));
    v.push(unit("u:kilometer", "kilometre", "km", "length", "L1M0T0E0H0A0I0D0",
        "ISO 80000-3:2019, item 3-1.1 (metre); prefix kilo per ISO 80000-1:2022 (SI prefixes)",
        "1 km = 103 m", prefixed_source_text(), "si-prefixed"));
    v.push(unit("u:millimeter", "millimetre", "mm", "length", "L1M0T0E0H0A0I0D0",
        "ISO 80000-3:2019, item 3-1.1 (metre); prefix milli per ISO 80000-1:2022 (SI prefixes)",
        "1 mm = 10-3 m", prefixed_source_text(), "si-prefixed"));
    v.push(unit("u:megajoule", "megajoule", "MJ", "energy", "L2M1T-2E0H0A0I0D0",
        "ISO 80000-4:2019, item 4-28 (joule); prefix mega per ISO 80000-1:2022 (SI prefixes)",
        "1 MJ = 106 J", prefixed_source_text(), "si-prefixed"));
    assert(rows_view(v@) =~= si_prefixed_rows());
    v
}

/// The non-SI units accepted for use with the SI.
pub open spec fn non_si_accepted_rows() -> Seq<UnitRowView> {
    seq![
        unit_row("u:minute"@, "minute"@, "min"@, "duration (time)"@, "L0M0T1E0H0A0I0D0"@,
            "BIPM SI Brochure, 9th ed. (2019), Table 8 (non-SI units accepted for use with the SI)"@,
            "1 min = 60 s"@, bipm_source(), "non-si-accepted"@),
        unit_row("u:hour"@, "hour"@, "h"@, "duration (time)"@, "L0M0T1E0H0A0I0D0"@,
            "BIPM SI Brochure, 9th ed. (2019), Table 8 (non-SI units accepted for use with the SI)"@,
            "1 h = 3600 s"@, bipm_source(), "non-si-accepted"@),
        unit_row("u:liter"@, "litre"@, "L"@, "volume"@, "L3M0T0E0H0A0I0D0"@,
            "BIPM SI Brochure, 9th ed. (2019), Table 8 (non-SI units accepted for use with the SI)"@,
            "1 L = 1 dm3 = 10-3 m3"@, bipm_source(), "non-si-accepted"@),
        unit_row("u:metric_ton"@, "tonne"@, "t"@, "mass"@, "L0M1T0E0H0A0I0D0"@,
            "BIPM SI Brochure, 9th ed. (2019), Table 8 (non-SI units accepted for use with the SI)"@,
            "1 t = 103 kg"@, bipm_source(), "non-si-accepted"@),
        unit_row("u:electronvolt"@, "electronvolt"@, "eV"@, "energy"@, "L2M1T-2E0H0A0I0D0"@,
            "BIPM SI Brochure, 9th ed. (2019), Table 8 (non-SI units accepted for use with the SI)"@,
            "1 eV = 1.602176634 × 10-19 J (exact)"@, bipm_source(), "non-si-accepted"@),
        unit_row("u:bar"@, "bar"@, "bar"@, "pressure"@, "L-1M1T-2E0H0A0I0D0"@,
            "BIPM SI Brochure, 9th ed. (2019), §4.1 (other non-SI units accepted for use with the SI)"@,
            "1 bar = 100 kPa"@, bipm_source(), "non-si-accepted"@),
    ]
}

/// The non-SI units accepted for use with the SI.
fn non_si_accepted_units() -> (r: Vec<UnitRow>)
    ensures
        rows_view(r@) == non_si_accepted_rows(),
{
    let mut v: Vec<UnitRow> = Vec::new();
    v.push(unit("u:minute", "minute", "min", "duration (time)", "L0M0T1E0H0A0I0D0",
        "BIPM SI Brochure, 9th ed. (2019), Table 8 (non-SI units accepted for use with the SI)",
        "1 min = 60 s", bipm_source_text(), "non-si-accepted"));
    v.push(unit("u:hour", "hour", "h", "duration (time)", "L0M0T1E0H0A0I0D0",
        "BIPM SI Brochure, 9th ed. (2019), Table 8 (non-SI units accepted for use with the SI)",
        "1 h = 3600 s", bipm_source_text(), "non-si-accepted"));
    v.push(unit("u:liter", "litre", "L", "volume", "L3M0T0E0H0A0I0D0",
        "BIPM SI Brochure, 9th ed. (2019), Table 8 (non-SI units accepted for use with the SI)",
        "1 L = 1 dm3 = 10-3 m3", bipm_source_text(), "non-si-accepted"));
    v.push(unit("u:metric_ton", "tonne", "t", "mass", "L0M1T0E0H0A0I0D0",
        "BIPM SI Brochure, 9th ed. (2019), Table 8 (non-SI units accepted for use with the SI)",
        "1 t = 103 kg", bipm_source_text(), "non-si-accepted"));
    v.push(unit("u:electronvolt", "electronvolt", "eV", "energy", "L2M1T-2E0H0A0I0D0",
        "BIPM SI Brochure, 9th ed. (2019), Table 8 (non-SI units accepted for use with the SI)",
        "1 eV = 1.602176634 × 10-19 J (exact)", bipm_source_text(), "non-si-accepted"));
    v.push(unit("u:bar", "bar", "bar", "pressure", "L-1M1T-2E0H0A0I0D0",
        "BIPM SI Brochure, 9th ed. (2019), §4.1 (other non-SI units accepted for use with the SI)",
        "1 bar = 100 kPa", bipm_source_text(), "non-si-accepted"));
    assert(rows_view(v@) =~= non_si_accepted_rows());
    v
}

/// The units product-passport data points carry in their own context.
pub open spec fn dpp_context_rows() -> Seq<UnitRowView> {
    seq![
        unit_row("u:percent"@, "percent"@, "%"@, "fraction of the unit one"@, "L0M0T0E0H0A0I0D1"@,
            "ISO 80000-1:2022, 7.1.4 (unit one; percent symbol %)"@,
            "1 % = 0.01"@, unit_one_source(), "dpp-context"@),
        unit_row("u:kilowatt_hour"@, "kilowatt hour"@, "kW·h"@, "energy (active energy)"@, "L2M1T-2E0H0A0I0D0"@,
            "IEC 80000-6:2022, item 6-62 (active energy)"@,
            "1 kW·h = 3.6 MJ exactly"@, iso_source(), "dpp-context"@),
        unit_row("u:watt_hour"@, "watt hour"@, "W·h"@, "energy (active energy)"@, "L2M1T-2E0H0A0I0D0"@,
            "IEC 80000-6:2022, item 6-62 (active energy)"@,
            "1 W·h = 3.6 kJ exactly"@, iso_source(), "dpp-context"@),
        unit_row("u:ampere_hour"@, "ampere hour"@, "A·h"@, "electric charge"@, "L0M0T1E1H0A0I0D0"@,
            "IEC 80000-6:2022, item 6-2.1 remark (electric charge; battery use)"@,
            "1 A·h = 3.6 kC exactly"@, iso_source(), "dpp-context"@),
        unit_row("u:gram_CO2e"@, "gram of carbon dioxide equivalent"@, "g CO2e"@, "mass of CO2-equivalent greenhouse gas"@, "L0M1T0E0H0A0I0D0"@,
            "BIPM SI Brochure, 9th ed. (2019) (gram); CO2-equivalence via GWP100 factors per IPCC AR6 (2023) — no ISO 80000 quantity of this kind"@,
            "1 g CO2e = 10-3 kg CO2e; GWP factors per IPCC AR6"@, constructed_source(), "dpp-context"@),
        unit_row("u:kilogram_CO2e"@, "kilogram of carbon dioxide equivalent"@, "kg CO2e"@, "mass of CO2-equivalent greenhouse gas"@, "L0M1T0E0H0A0I0D0"@,
            "BIPM SI Brochure, 9th ed. (2019) (kilogram); CO2-equivalence via GWP100 factors per IPCC AR6 (2023) — no ISO 80000 quantity of this kind"@,
            "GWP factors per IPCC AR6; declared unit of battery carbon footprint (kg CO2e per battery)"@, constructed_source(), "dpp-context"@),
    ]
}

/// The units product-passport data points carry in their own context.
fn dpp_context_units() -> (r: Vec<UnitRow>)
    ensures
        rows_view(r@) == dpp_context_rows(),
{
    let mut v: Vec<UnitRow> = Vec::new();
    v.push(unit("u:percent", "percent", "%", "fraction of the unit one", "L0M0T0E0H0A0I0D1",
        "ISO 80000-1:2022, 7.1.4 (unit one; percent symbol %)",
        "1 % = 0.01", unit_one_source_text(), "dpp-context"));
    v.push(unit("u:kilowatt_hour", "kilowatt hour", "kW·h", "energy (active energy)", "L2M1T-2E0H0A0I0D0",
        "IEC 80000-6:2022, item 6-62 (active energy)",
        "1 kW·h = 3.6 MJ exactly", iso_source_text(), "dpp-context"));
    v.push(unit("u:watt_hour", "watt hour", "W·h", "energy (active energy)", "L2M1T-2E0H0A0I0D0",
        "IEC 80000-6:2022, item 6-62 (active energy)",
        "1 W·h = 3.6 kJ exactly", iso_source_text(), "dpp-context"));
    v.push(unit("u:ampere_hour", "ampere hour", "A·h", "electric charge", "L0M0T1E1H0A0I0D0",
        "IEC 80000-6:2022, item 6-2.1 remark (electric charge; battery use)",
        "1 A·h = 3.6 kC exactly", iso_source_text(), "dpp-context"));
    v.push(unit("u:gram_CO2e", "gram of carbon dioxide equivalent", "g CO2e", "mass of CO2-equivalent greenhouse gas", "L0M1T0E0H0A0I0D0",
        "BIPM SI Brochure, 9th ed. (2019) (gram); CO2-equivalence via GWP100 factors per IPCC AR6 (2023) — no ISO 80000 quantity of this kind",
        "1 g CO2e = 10-3 kg CO2e; GWP factors per IPCC AR6", constructed_source_text(), "dpp-context"));
    v.push(unit("u:kilogram_CO2e", "kilogram of carbon dioxide equivalent", "kg CO2e", "mass of CO2-equivalent greenhouse gas", "L0M1T0E0H0A0I0D0",
        "BIPM SI Brochure, 9th ed. (2019) (kilogram); CO2-equivalence via GWP100 factors per IPCC AR6 (2023) — no ISO 80000 quantity of this kind",
        "GWP factors per IPCC AR6; declared unit of battery carbon footprint (kg CO2e per battery)", constructed_source_text(), "dpp-context"));
    assert(rows_view(v@) =~= dpp_context_rows());
    v
}

// ---------------------------------------------------------------------------
// Dimensions
// ---------------------------------------------------------------------------

/// A dimension in the SI base quantities: the exponents of length, mass,
/// time, electric current, thermodynamic temperature, amount of substance
/// and luminous intensity, and whether the unit is a ratio of like
/// quantities (the dimension-one flag `D` of a dimension vector).
pub struct Dimension {
    pub length: int,
    pub mass: int,
    pub time: int,
    pub current: int,
    pub temperature: int,
    pub amount: int,
    pub luminous: int,
    pub ratio: int,
}

/// The dimension one.
pub open spec fn dim_one() -> Dimension {
    Dimension {
        length: 0,
        mass: 0,
        time: 0,
        current: 0,
        temperature: 0,
        amount: 0,
        luminous: 0,
        ratio: 0,
    }
}

/// The dimension of a product of two units.
pub open spec fn times(a: Dimension, b: Dimension) -> Dimension {
    Dimension {
        length: a.length + b.length,
        mass: a.mass + b.mass,
        time: a.time + b.time,
        current: a.current + b.current,
        temperature: a.temperature + b.temperature,
        amount: a.amount + b.amount,
        luminous: a.luminous + b.luminous,
        ratio: 0,
    }
}

/// The dimension of a quotient of two units.
pub open spec fn per(a: Dimension, b: Dimension) -> Dimension {
    Dimension {
        length: a.length - b.length,
        mass: a.mass - b.mass,
        time: a.time - b.time,
        current: a.current - b.current,
        temperature: a.temperature - b.temperature,
        amount: a.amount - b.amount,
        luminous: a.luminous - b.luminous,
        ratio: 0,
    }
}

/// The dimension of a unit raised to the power `n`.
pub open spec fn power(a: Dimension, n: int) -> Dimension {
    Dimension {
        length: a.length * n,
        mass: a.mass * n,
        time: a.time * n,
        current: a.current * n,
        temperature: a.temperature * n,
        amount: a.amount * n,
        luminous: a.luminous * n,
        ratio: 0,
    }
}

/// A unit that is the ratio of two like quantities (dimension one).
pub open spec fn as_ratio(a: Dimension) -> Dimension {
    Dimension { ratio: 1, ..a }
}

/// A decimal digit.
pub open spec fn digit_char(n: int) -> char {
    if n == 0 {
        '0'
    } else if n == 1 {
        '1'
    } else if n == 2 {
        '2'
    } else if n == 3 {
        '3'
    } else if n == 4 {
        '4'
    } else if n == 5 {
        '5'
    } else if n == 6 {
        '6'
    } else if n == 7 {
        '7'
    } else if n == 8 {
        '8'
    } else {
        '9'
    }
}

/// An exponent as a dimension vector writes it (one digit, with its sign
/// when negative).
pub open spec fn exponent_text(k: int) -> Seq<char> {
    if k < 0 {
        seq!['-', digit_char(-k)]
    } else {
        seq![digit_char(k)]
    }
}

/// The UnitsML dimension vector of a dimension:
/// `L<l>M<m>T<t>E<e>H<h>A<a>I<i>D<d>`.
pub open spec fn dimension_text(d: Dimension) -> Seq<char> {
    seq!['L'] + exponent_text(d.length) + seq!['M'] + exponent_text(d.mass) + seq!['T']
        + exponent_text(d.time) + seq!['E'] + exponent_text(d.current) + seq!['H'] + exponent_text(
        d.temperature,
    ) + seq!['A'] + exponent_text(d.amount) + seq!['I'] + exponent_text(d.luminous) + seq!['D']
        + exponent_text(d.ratio)
}

/// The metre: length.
pub open spec fn dim_metre() -> Dimension {
    Dimension { length: 1, ..dim_one() }
}

/// The kilogram: mass.
pub open spec fn dim_kilogram() -> Dimension {
    Dimension { mass: 1, ..dim_one() }
}

/// The second: time.
pub open spec fn dim_second() -> Dimension {
    Dimension { time: 1, ..dim_one() }
}

/// The ampere: electric current.
pub open spec fn dim_ampere() -> Dimension {
    Dimension { current: 1, ..dim_one() }
}

/// The kelvin: thermodynamic temperature.
pub open spec fn dim_kelvin() -> Dimension {
    Dimension { temperature: 1, ..dim_one() }
}

/// The mole: amount of substance.
pub open spec fn dim_mole() -> Dimension {
    Dimension { amount: 1, ..dim_one() }
}

/// The candela: luminous intensity.
pub open spec fn dim_candela() -> Dimension {
    Dimension { luminous: 1, ..dim_one() }
}

/// The steradian: 1 sr = 1 m2/m2.
pub open spec fn dim_steradian() -> Dimension {
    as_ratio(per(power(dim_metre(), 2), power(dim_metre(), 2)))
}

/// The newton: 1 N = 1 kg m s-2.
pub open spec fn dim_newton() -> Dimension {
    per(times(dim_kilogram(), dim_metre()), power(dim_second(), 2))
}

/// The pascal: 1 Pa = 1 N/m2.
pub open spec fn dim_pascal() -> Dimension {
    per(dim_newton(), power(dim_metre(), 2))
}

/// The joule: 1 J = 1 N m.
pub open spec fn dim_joule() -> Dimension {
    times(dim_newton(), dim_metre())
}

/// The watt: 1 W = 1 J/s.
pub open spec fn dim_watt() -> Dimension {
    per(dim_joule(), dim_second())
}

/// The coulomb: 1 C = 1 A s.
pub open spec fn dim_coulomb() -> Dimension {
    times(dim_ampere(), dim_second())
}

/// The volt: 1 V = 1 W/A.
pub open spec fn dim_volt() -> Dimension {
    per(dim_watt(), dim_ampere())
}

/// The weber: 1 Wb = 1 V s.
pub open spec fn dim_weber() -> Dimension {
    times(dim_volt(), dim_second())
}

/// The lumen: 1 lm = 1 cd sr.
pub open spec fn dim_lumen() -> Dimension {
    times(dim_candela(), dim_steradian())
}

/// The dimension of each unit of `si_base_rows`, from its definition in SI
/// base units.
pub open spec fn si_base_dimensions() -> Seq<(Seq<char>, Dimension)> {
    seq![
        // the metre, SI base unit of length
        ("u:m"@, dim_metre()),
        // the kilogram, SI base unit of mass
        ("u:kilogram"@, dim_kilogram()),
        // the second, SI base unit of time
        ("u:second"@, dim_second()),
        // the ampere
        ("u:ampere"@, dim_ampere()),
        // the kelvin
        ("u:kelvin"@, dim_kelvin()),
        // the mole
        ("u:mole"@, dim_mole()),
        // the candela
        ("u:candela"@, dim_candela()),
    ]
}

#[verifier::rlimit(40)]
proof fn lemma_si_base_dimensions()
    ensures
        dimensions_match(si_base_rows(), si_base_dimensions()),
{
    reveal_strlit("L1M0T0E0H0A0I0D0");
    assert("L1M0T0E0H0A0I0D0"@ =~= dimension_text(si_base_dimensions()[0].1));
    reveal_strlit("L0M1T0E0H0A0I0D0");
    assert("L0M1T0E0H0A0I0D0"@ =~= dimension_text(si_base_dimensions()[1].1));
    reveal_strlit("L0M0T1E0H0A0I0D0");
    assert("L0M0T1E0H0A0I0D0"@ =~= dimension_text(si_base_dimensions()[2].1));
    reveal_strlit("L0M0T0E1H0A0I0D0");
    assert("L0M0T0E1H0A0I0D0"@ =~= dimension_text(si_base_dimensions()[3].1));
    reveal_strlit("L0M0T0E0H1A0I0D0");
    assert("L0M0T0E0H1A0I0D0"@ =~= dimension_text(si_base_dimensions()[4].1));
    reveal_strlit("L0M0T0E0H0A1I0D0");
    assert("L0M0T0E0H0A1I0D0"@ =~= dimension_text(si_base_dimensions()[5].1));
    reveal_strlit("L0M0T0E0H0A0I1D0");
    assert("L0M0T0E0H0A0I1D0"@ =~= dimension_text(si_base_dimensions()[6].1));
    assert forall|k: int| 0 <= k < si_base_rows().len() implies #[trigger] si_base_rows()[k].id == si_base_dimensions()[k].0
        && si_base_rows()[k].dimension == dimension_text(si_base_dimensions()[k].1) by {
        if k == 0 {}
        if k == 1 {}
        if k == 2 {}
        if k == 3 {}
        if k == 4 {}
        if k == 5 {}
        if k == 6 {}
    }
}

/// The dimension of each unit of `si_derived_special_rows`, from its definition in SI
/// base units.
pub open spec fn si_derived_special_dimensions() -> Seq<(Seq<char>, Dimension)> {
    seq![
        // rad = m/m
        ("u:radian"@, as_ratio(per(dim_metre(), dim_metre()))),
        // sr = m2/m2
        ("u:steradian"@, dim_steradian()),
        // Hz = s-1
        ("u:hertz"@, per(dim_one(), dim_second())),
        // N = kg m s-2
        ("u:newton"@, dim_newton()),
        // Pa = N/m2
        ("u:pascal"@, dim_pascal()),
        // J = N m
        ("u:joule"@, dim_joule()),
        // W = J/s
        ("u:watt"@, dim_watt()),
        // C = A s
        ("u:coulomb"@, dim_coulomb()),
        // V = W/A
        ("u:volt"@, dim_volt()),
        // F = C/V
        ("u:farad"@, per(dim_coulomb(), dim_volt())),
        // Ω = V/A
        ("u:ohm"@, per(dim_volt(), dim_ampere())),
        // S = A/V
        ("u:siemens"@, per(dim_ampere(), dim_volt())),
        // Wb = V s
        ("u:weber"@, dim_weber()),
        // T = Wb/m2
        ("u:tesla"@, per(dim_weber(), power(dim_metre(), 2))),
        // H = Wb/A
        ("u:henry"@, per(dim_weber(), dim_ampere())),
        // °C: a temperature, as K
        ("u:degree_Celsius"@, dim_kelvin()),
        // lm = cd sr
        ("u:lumen"@, dim_lumen()),
        // lx = lm/m2
        ("u:lux"@, per(dim_lumen(), power(dim_metre(), 2))),
        // Bq = s-1
        ("u:becquerel"@, per(dim_one(), dim_second())),
        // Gy = J/kg
        ("u:gray"@, per(dim_joule(), dim_kilogram())),
        // Sv = J/kg
        ("u:sievert"@, per(dim_joule(), dim_kilogram())),
        // kat = mol/s
        ("u:katal"@, per(dim_mole(), dim_second())),
    ]
}

#[verifier::rlimit(40)]
proof fn lemma_si_derived_special_dimensions()
    ensures
        dimensions_match(si_derived_special_rows(), si_derived_special_dimensions()),
{
    reveal_strlit("L0M0T0E0H0A0I0D1");
    assert("L0M0T0E0H0A0I0D1"@ =~= dimension_text(si_derived_special_dimensions()[0].1));
    reveal_strlit("L0M0T0E0H0A0I0D1");
    assert("L0M0T0E0H0A0I0D1"@ =~= dimension_text(si_derived_special_dimensions()[1].1));
    reveal_strlit("L0M0T-1E0H0A0I0D0");
    assert("L0M0T-1E0H0A0I0D0"@ =~= dimension_text(si_derived_special_dimensions()[2].1));
    reveal_strlit("L1M1T-2E0H0A0I0D0");
    assert("L1M1T-2E0H0A0I0D0"@ =~= dimension_text(si_derived_special_dimensions()[3].1));
    reveal_strlit("L-1M1T-2E0H0A0I0D0");
    assert("L-1M1T-2E0H0A0I0D0"@ =~= dimension_text(si_derived_special_dimensions()[4].1));
    reveal_strlit("L2M1T-2E0H0A0I0D0");
    assert("L2M1T-2E0H0A0I0D0"@ =~= dimension_text(si_derived_special_dimensions()[5].1));
    reveal_strlit("L2M1T-3E0H0A0I0D0");
    assert("L2M1T-3E0H0A0I0D0"@ =~= dimension_text(si_derived_special_dimensions()[6].1));
    reveal_strlit("L0M0T1E1H0A0I0D0");
    assert("L0M0T1E1H0A0I0D0"@ =~= dimension_text(si_derived_special_dimensions()[7].1));
    reveal_strlit("L2M1T-3E-1H0A0I0D0");
    assert("L2M1T-3E-1H0A0I0D0"@ =~= dimension_text(si_derived_special_dimensions()[8].1));
    reveal_strlit("L-2M-1T4E2H0A0I0D0");
    assert("L-2M-1T4E2H0A0I0D0"@ =~= dimension_text(si_derived_special_dimensions()[9].1));
    reveal_strlit("L2M1T-3E-2H0A0I0D0");
    assert("L2M1T-3E-2H0A0I0D0"@ =~= dimension_text(si_derived_special_dimensions()[10].1));
    reveal_strlit("L-2M-1T3E2H0A0I0D0");
    assert("L-2M-1T3E2H0A0I0D0"@ =~= dimension_text(si_derived_special_dimensions()[11].1));
    reveal_strlit("L2M1T-2E-1H0A0I0D0");
    assert("L2M1T-2E-1H0A0I0D0"@ =~= dimension_text(si_derived_special_dimensions()[12].1));
    reveal_strlit("L0M1T-2E-1H0A0I0D0");
    assert("L0M1T-2E-1H0A0I0D0"@ =~= dimension_text(si_derived_special_dimensions()[13].1));
    reveal_strlit("L2M1T-2E-2H0A0I0D0");
    assert("L2M1T-2E-2H0A0I0D0"@ =~= dimension_text(si_derived_special_dimensions()[14].1));
    reveal_strlit("L0M0T0E0H1A0I0D0");
    assert("L0M0T0E0H1A0I0D0"@ =~= dimension_text(si_derived_special_dimensions()[15].1));
    reveal_strlit("L0M0T0E0H0A0I1D0");
    assert("L0M0T0E0H0A0I1D0"@ =~= dimension_text(si_derived_special_dimensions()[16].1));
    reveal_strlit("L-2M0T0E0H0A0I1D0");
    assert("L-2M0T0E0H0A0I1D0"@ =~= dimension_text(si_derived_special_dimensions()[17].1));
    reveal_strlit("L0M0T-1E0H0A0I0D0");
    assert("L0M0T-1E0H0A0I0D0"@ =~= dimension_text(si_derived_special_dimensions()[18].1));
    reveal_strlit("L2M0T-2E0H0A0I0D0");
    assert("L2M0T-2E0H0A0I0D0"@ =~= dimension_text(si_derived_special_dimensions()[19].1));
    reveal_strlit("L2M0T-2E0H0A0I0D0");
    assert("L2M0T-2E0H0A0I0D0"@ =~= dimension_text(si_derived_special_dimensions()[20].1));
    reveal_strlit("L0M0T-1E0H0A1I0D0");
    assert("L0M0T-1E0H0A1I0D0"@ =~= dimension_text(si_derived_special_dimensions()[21].1));
    assert forall|k: int| 0 <= k < si_derived_special_rows().len() implies #[trigger] si_derived_special_rows()[k].id == si_derived_special_dimensions()[k].0
        && si_derived_special_rows()[k].dimension == dimension_text(si_derived_special_dimensions()[k].1) by {
        if k == 0 {}
        if k == 1 {}
        if k == 2 {}
        if k == 3 {}
        if k == 4 {}
        if k == 5 {}
        if k == 6 {}
        if k == 7 {}
        if k == 8 {}
        if k == 9 {}
        if k == 10 {}
        if k == 11 {}
        if k == 12 {}
        if k == 13 {}
        if k == 14 {}
        if k == 15 {}
        if k == 16 {}
        if k == 17 {}
        if k == 18 {}
        if k == 19 {}
        if k == 20 {}
        if k == 21 {}
    }
}

/// The dimension of each unit of `si_derived_compound_rows`, from its definition in SI
/// base units.
pub open spec fn si_derived_compound_dimensions() -> Seq<(Seq<char>, Dimension)> {
    seq![
        // m2
        ("u:square_meter"@, power(dim_metre(), 2)),
        // m3
        ("u:cubic_meter"@, power(dim_metre(), 3)),
        // m/s
        ("u:meter_per_second"@, per(dim_metre(), dim_second())),
    ]
}

#[verifier::rlimit(40)]
proof fn lemma_si_derived_compound_dimensions()
    ensures
        dimensions_match(si_derived_compound_rows(), si_derived_compound_dimensions()),
{
    reveal_strlit("L2M0T0E0H0A0I0D0");
    assert("L2M0T0E0H0A0I0D0"@ =~= dimension_text(si_derived_compound_dimensions()[0].1));
    reveal_strlit("L3M0T0E0H0A0I0D0");
    assert("L3M0T0E0H0A0I0D0"@ =~= dimension_text(si_derived_compound_dimensions()[1].1));
    reveal_strlit("L1M0T-1E0H0A0I0D0");
    assert("L1M0T-1E0H0A0I0D0"@ =~= dimension_text(si_derived_compound_dimensions()[2].1));
    assert forall|k: int| 0 <= k < si_derived_compound_rows().len() implies #[trigger] si_derived_compound_rows()[k].id == si_derived_compound_dimensions()[k].0
        && si_derived_compound_rows()[k].dimension == dimension_text(si_derived_compound_dimensions()[k].1) by {
        if k == 0 {}
        if k == 1 {}
        if k == 2 {}
    }
}

/// The dimension of each unit of `si_prefixed_rows`, from its definition in SI
/// base units.
pub open spec fn si_prefixed_dimensions() -> Seq<(Seq<char>, Dimension)> {
    seq![
        // g = 10-3 kg
        ("u:gram"@, dim_kilogram()),
        // km = 103 m
        ("u:kilometer"@, dim_metre()),
        // mm = 10-3 m
        ("u:millimeter"@, dim_metre()),
        // MJ = 106 J
        ("u:megajoule"@, dim_joule()),
    ]
}

#[verifier::rlimit(40)]
proof fn lemma_si_prefixed_dimensions()
    ensures
        dimensions_match(si_prefixed_rows(), si_prefixed_dimensions()),
{
    reveal_strlit("L0M1T0E0H0A0I0D0");
    assert("L0M1T0E0H0A0I0D0"@ =~= dimension_text(si_prefixed_dimensions()[0].1));
    reveal_strlit("L1M0T0E0H0A0I0D0");
    assert("L1M0T0E0H0A0I0D0"@ =~= dimension_text(si_prefixed_dimensions()[1].1));
    reveal_strlit("L1M0T0E0H0A0I0D0");
    assert("L1M0T0E0H0A0I0D0"@ =~= dimension_text(si_prefixed_dimensions()[2].1));
    reveal_strlit("L2M1T-2E0H0A0I0D0");
    assert("L2M1T-2E0H0A0I0D0"@ =~= dimension_text(si_prefixed_dimensions()[3].1));
    assert forall|k: int| 0 <= k < si_prefixed_rows().len() implies #[trigger] si_prefixed_rows()[k].id == si_prefixed_dimensions()[k].0
        && si_prefixed_rows()[k].dimension == dimension_text(si_prefixed_dimensions()[k].1) by {
        if k == 0 {}
        if k == 1 {}
        if k == 2 {}
        if k == 3 {}
    }
}

/// The dimension of each unit of `non_si_accepted_rows`, from its definition in SI
/// base units.
pub open spec fn non_si_accepted_dimensions() -> Seq<(Seq<char>, Dimension)> {
    seq![
        // min = 60 s
        ("u:minute"@, dim_second()),
        // h = 3600 s
        ("u:hour"@, dim_second()),
        // L = 10-3 m3
        ("u:liter"@, power(dim_metre(), 3)),
        // t = 103 kg
        ("u:metric_ton"@, dim_kilogram()),
        // eV, an energy in J
        ("u:electronvolt"@, dim_joule()),
        // bar = 100 kPa
        ("u:bar"@, dim_pascal()),
    ]
}

#[verifier::rlimit(40)]
proof fn lemma_non_si_accepted_dimensions()
    ensures
        dimensions_match(non_si_accepted_rows(), non_si_accepted_dimensions()),
{
    reveal_strlit("L0M0T1E0H0A0I0D0");
    assert("L0M0T1E0H0A0I0D0"@ =~= dimension_text(non_si_accepted_dimensions()[0].1));
    reveal_strlit("L0M0T1E0H0A0I0D0");
    assert("L0M0T1E0H0A0I0D0"@ =~= dimension_text(non_si_accepted_dimensions()[1].1));
    reveal_strlit("L3M0T0E0H0A0I0D0");
    assert("L3M0T0E0H0A0I0D0"@ =~= dimension_text(non_si_accepted_dimensions()[2].1));
    reveal_strlit("L0M1T0E0H0A0I0D0");
    assert("L0M1T0E0H0A0I0D0"@ =~= dimension_text(non_si_accepted_dimensions()[3].1));
    reveal_strlit("L2M1T-2E0H0A0I0D0");
    assert("L2M1T-2E0H0A0I0D0"@ =~= dimension_text(non_si_accepted_dimensions()[4].1));
    reveal_strlit("L-1M1T-2E0H0A0I0D0");
    assert("L-1M1T-2E0H0A0I0D0"@ =~= dimension_text(non_si_accepted_dimensions()[5].1));
    assert forall|k: int| 0 <= k < non_si_accepted_rows().len() implies #[trigger] non_si_accepted_rows()[k].id == non_si_accepted_dimensions()[k].0
        && non_si_accepted_rows()[k].dimension == dimension_text(non_si_accepted_dimensions()[k].1) by {
        if k == 0 {}
        if k == 1 {}
        if k == 2 {}
        if k == 3 {}
        if k == 4 {}
        if k == 5 {}
    }
}

/// The dimension of each unit of `dpp_context_rows`, from its definition in SI
/// base units.
pub open spec fn dpp_context_dimensions() -> Seq<(Seq<char>, Dimension)> {
    seq![
        // % = 0.01
        ("u:percent"@, as_ratio(dim_one())),
        // kW h = 3.6 MJ
        ("u:kilowatt_hour"@, times(dim_watt(), dim_second())),
        // W h = 3.6 kJ
        ("u:watt_hour"@, times(dim_watt(), dim_second())),
        // A h = 3.6 kC
        ("u:ampere_hour"@, times(dim_ampere(), dim_second())),
        // a mass, 10-3 kg
        ("u:gram_CO2e"@, dim_kilogram()),
        // a mass, in kg
        ("u:kilogram_CO2e"@, dim_kilogram()),
    ]
}

#[verifier::rlimit(40)]
proof fn lemma_dpp_context_dimensions()
    ensures
        dimensions_match(dpp_context_rows(), dpp_context_dimensions()),
{
    reveal_strlit("L0M0T0E0H0A0I0D1");
    assert("L0M0T0E0H0A0I0D1"@ =~= dimension_text(dpp_context_dimensions()[0].1));
    reveal_strlit("L2M1T-2E0H0A0I0D0");
    assert("L2M1T-2E0H0A0I0D0"@ =~= dimension_text(dpp_context_dimensions()[1].1));
    reveal_strlit("L2M1T-2E0H0A0I0D0");
    assert("L2M1T-2E0H0A0I0D0"@ =~= dimension_text(dpp_context_dimensions()[2].1));
    reveal_strlit("L0M0T1E1H0A0I0D0");
    assert("L0M0T1E1H0A0I0D0"@ =~= dimension_text(dpp_context_dimensions()[3].1));
    reveal_strlit("L0M1T0E0H0A0I0D0");
    assert("L0M1T0E0H0A0I0D0"@ =~= dimension_text(dpp_context_dimensions()[4].1));
    reveal_strlit("L0M1T0E0H0A0I0D0");
    assert("L0M1T0E0H0A0I0D0"@ =~= dimension_text(dpp_context_dimensions()[5].1));
    assert forall|k: int| 0 <= k < dpp_context_rows().len() implies #[trigger] dpp_context_rows()[k].id == dpp_context_dimensions()[k].0
        && dpp_context_rows()[k].dimension == dimension_text(dpp_context_dimensions()[k].1) by {
        if k == 0 {}
        if k == 1 {}
        if k == 2 {}
        if k == 3 {}
        if k == 4 {}
        if k == 5 {}
    }
}

/// Whether each row's id is that of its definition and its dimension
/// vector the dimension of that definition.
pub open spec fn dimensions_match(rows: Seq<UnitRowView>, dims: Seq<(Seq<char>, Dimension)>) -> bool {
    &&& rows.len() == dims.len()
    &&& forall|k: int|
        0 <= k < rows.len() ==> #[trigger] rows[k].id == dims[k].0 && rows[k].dimension
            == dimension_text(dims[k].1)
}

proof fn lemma_dimensions_match_concat(
    a: Seq<UnitRowView>,
    da: Seq<(Seq<char>, Dimension)>,
    b: Seq<UnitRowView>,
    db: Seq<(Seq<char>, Dimension)>,
)
    requires
        dimensions_match(a, da),
        dimensions_match(b, db),
    ensures
        dimensions_match(a + b, da + db),
{
    assert forall|k: int| 0 <= k < (a + b).len() implies #[trigger] (a + b)[k].id == (da + db)[k].0
        && (a + b)[k].dimension == dimension_text((da + db)[k].1) by {
        if k < a.len() {
            assert((a + b)[k] == a[k]);
            assert((da + db)[k] == da[k]);
            assert(a[k].id == da[k].0);
        } else {
            assert((a + b)[k] == b[k - a.len()]);
            assert((da + db)[k] == db[k - a.len()]);
            assert(b[k - a.len()].id == db[k - a.len()].0);
        }
    }
}

/// The dimension of each unit of the inventory, from its definition in SI
/// base units, in the inventory's order.
pub open spec fn unit_dimensions() -> Seq<(Seq<char>, Dimension)> {
    si_base_dimensions() + si_derived_special_dimensions() + si_derived_compound_dimensions()
        + si_prefixed_dimensions() + non_si_accepted_dimensions() + dpp_context_dimensions()
}

/// Each seeded unit's dimension vector is the dimension of its definition
/// in SI base units (the watt is a joule per second, so `L2M1T-3`; the
/// volt a watt per ampere; the kilowatt hour a watt times a second; ...),
/// with `D1` marking the units that are ratios of like quantities.
pub proof fn lemma_unit_dimensions()
    ensures
        dimensions_match(unit_rows(), unit_dimensions()),
{
    lemma_si_base_dimensions();
    lemma_si_derived_special_dimensions();
    lemma_si_derived_compound_dimensions();
    lemma_si_prefixed_dimensions();
    lemma_non_si_accepted_dimensions();
    lemma_dpp_context_dimensions();
    lemma_dimensions_match_concat(si_base_rows(), si_base_dimensions(), si_derived_special_rows(), si_derived_special_dimensions());
    let r2 = si_base_rows() + si_derived_special_rows();
    let d2 = si_base_dimensions() + si_derived_special_dimensions();
    lemma_dimensions_match_concat(r2, d2, si_derived_compound_rows(), si_derived_compound_dimensions());
    let r3 = r2 + si_derived_compound_rows();
    let d3 = d2 + si_derived_compound_dimensions();
    lemma_dimensions_match_concat(r3, d3, si_prefixed_rows(), si_prefixed_dimensions());
    let r4 = r3 + si_prefixed_rows();
    let d4 = d3 + si_prefixed_dimensions();
    lemma_dimensions_match_concat(r4, d4, non_si_accepted_rows(), non_si_accepted_dimensions());
    let r5 = r4 + non_si_accepted_rows();
    let d5 = d4 + non_si_accepted_dimensions();
    lemma_dimensions_match_concat(r5, d5, dpp_context_rows(), dpp_context_dimensions());
}

} // verus!
