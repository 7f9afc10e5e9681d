//! Building a normalized dump pack: offsets found by signature, and a
//! compact schema.
use vstd::prelude::*;
use crate::json::{Json, JsonNumber, JsonValue, lookup, parse_json, parsed_json};
use crate::clock::{is_rfc3339_utc, system_time_now, utc_rfc3339};
use crate::paths::{display_text, shown};
use crate::signatures::{extract_offsets, found_offsets, signature_table, OffsetTable};
use crate::text::{decimal, u64_decimal};

verus! {

/// The text of member `key`, or `unknown` when it is missing or not a string.
pub open spec fn text_or_unknown(v: Json, key: Seq<char>) -> Seq<char> {
    match v.str_member(key) {
        Some(s) => s,
        None => "unknown"@,
    }
}

/// The items of member `key`, or none when it is missing or not an array.
pub open spec fn items_of(v: Json, key: Seq<char>) -> Seq<Json> {
    match v.array_member(key) {
        Some(items) => items,
        None => Seq::empty(),
    }
}

/// A schema field reduced to its name, type and offset.
pub open spec fn normalized_field(f: Json) -> Json {
    Json::Object(
        seq![
            ("name"@, Json::Str(text_or_unknown(f, "name"@))),
            ("type"@, Json::Str(text_or_unknown(f, "type"@))),
            (
                "offset"@,
                Json::Number(
                    JsonNumber::PosInt(
                        match f.u64_member("offset"@) {
                            Some(n) => n,
                            None => 0,
                        },
                    ),
                ),
            ),
        ],
    )
}

/// A schema class reduced to its name and normalized fields.
pub open spec fn normalized_class(c: Json) -> Json {
    Json::Object(
        seq![
            ("name"@, Json::Str(text_or_unknown(c, "name"@))),
            ("fields"@, Json::Array(items_of(c, "fields"@).map_values(|f: Json| normalized_field(f)))),
        ],
    )
}

/// The compact schema written to a dump pack: the classes of the given schema
/// normalized, or no classes when there is no schema.
pub open spec fn spec_normalize_schema(schema: Option<Json>) -> Json {
    match schema {
        None => Json::Object(seq![("classes"@, Json::Array(Seq::empty())), ("source"@, Json::Str("minimal"@))]),
        Some(s) => Json::Object(
            seq![
                ("classes"@, Json::Array(items_of(s, "classes"@).map_values(|c: Json| normalized_class(c)))),
                ("source"@, Json::Str("normalized"@)),
            ],
        ),
    }
}

/// The models of a sequence of values.
pub open spec fn models(v: Seq<JsonValue>) -> Seq<Json> {
    v.map_values(|x: JsonValue| x@)
}

/// The text of member `key`, or `unknown`.
fn member_text_or_unknown(v: &JsonValue, key: &str) -> (text: String)
    ensures
        text@ == text_or_unknown(v@, key@),
{
    match v.str_member(key) {
        Some(s) => s.clone(),
        None => String::from_str("unknown"),
    }
}

/// Builds a string value from a literal.
fn text_value(s: &str) -> (v: JsonValue)
    ensures
        v@ == Json::Str(s@),
{
    JsonValue::Str(String::from_str(s))
}

/// Builds an object from its entries.
fn object_of(entries: Vec<(String, JsonValue)>) -> (v: JsonValue)
    ensures
        v@ == Json::Object(entries@.map_values(|e: (String, JsonValue)| (e.0@, e.1@))),
{
    let ghost es = entries@;
    let v = JsonValue::Object(entries);
    assert(v@->Object_0 =~= es.map_values(|e: (String, JsonValue)| (e.0@, e.1@)));
    v
}

/// Builds an array from its items.
fn array_of(items: Vec<JsonValue>) -> (v: JsonValue)
    ensures
        v@ == Json::Array(models(items@)),
{
    let ghost xs = items@;
    let v = JsonValue::Array(items);
    assert(v@->Array_0 =~= models(xs));
    v
}

/// Reduces one schema field to its name, type and offset.
fn normalize_field(f: &JsonValue) -> (out: JsonValue)
    ensures
        out@ == normalized_field(f@),
{
    let name = member_text_or_unknown(f, "name");
    let ty = member_text_or_unknown(f, "type");
    let offset = match f.u64_member("offset") {
        Some(n) => n,
        None => 0,
    };
    let entries = vec![
        (String::from_str("name"), JsonValue::Str(name)),
        (String::from_str("type"), JsonValue::Str(ty)),
        (String::from_str("offset"), JsonValue::Number(JsonNumber::PosInt(offset))),
    ];
    let out = object_of(entries);
    assert(out@->Object_0 =~= normalized_field(f@)->Object_0);
    out
}

/// Normalizes each item of a sequence with `normalize_field`.
fn normalize_fields(items: Option<&Vec<JsonValue>>) -> (out: Vec<JsonValue>)
    ensures
        models(out@) == match items {
            Some(v) => models(v@),
            None => Seq::empty(),
        }.map_values(|f: Json| normalized_field(f)),
{
    let mut out: Vec<JsonValue> = Vec::new();
    match items {
        None => {
            assert(models(out@) =~= Seq::<Json>::empty().map_values(|f: Json| normalized_field(f)));
        },
        Some(v) => {
            let mut i: usize = 0;
            while i < v.len()
                invariant
                    i <= v@.len(),
                    models(out@) == models(v@).take(i as int).map_values(|f: Json| normalized_field(f)),
                decreases v@.len() - i,
            {
                let n = normalize_field(&v[i]);
                let ghost prev = out@;
                out.push(n);
                assert(models(out@) =~= models(prev).push(n@));
                assert(models(v@).take(i + 1) =~= models(v@).take(i as int).push(v@[i as int]@));
                assert(models(out@) =~= models(v@).take(i + 1).map_values(|f: Json| normalized_field(f)));
                i = i + 1;
            }
            assert(models(v@).take(v@.len() as int) =~= models(v@));
        },
    }
    out
}

/// Reduces one schema class to its name and normalized fields.
fn normalize_class(c: &JsonValue) -> (out: JsonValue)
    ensures
        out@ == normalized_class(c@),
{
    let name = member_text_or_unknown(c, "name");
    let fields = normalize_fields(c.array_member("fields"));
    let entries = vec![
        (String::from_str("name"), JsonValue::Str(name)),
        (String::from_str("fields"), array_of(fields)),
    ];
    let out = object_of(entries);
    assert(out@->Object_0 =~= normalized_class(c@)->Object_0);
    out
}

/// Normalizes a schema to the compact class/field shape of a dump pack.
pub fn normalize_schema(schema: Option<JsonValue>) -> (out: JsonValue)
    ensures
        out@ == spec_normalize_schema(
            match schema {
                Some(s) => Some(s@),
                None => None,
            },
        ),
{
    match schema {
        None => {
            let no_classes = array_of(Vec::new());
            assert(models(Seq::<JsonValue>::empty()) =~= Seq::<Json>::empty());
            let entries = vec![
                (String::from_str("classes"), no_classes),
                (String::from_str("source"), text_value("minimal")),
            ];
            let out = object_of(entries);
            assert(out@->Object_0 =~= spec_normalize_schema(None)->Object_0);
            out
        },
        Some(s) => {
            let mut classes: Vec<JsonValue> = Vec::new();
            match s.array_member("classes") {
                None => {},
                Some(v) => {
                    let mut i: usize = 0;
                    while i < v.len()
                        invariant
                            i <= v@.len(),
                            models(classes@) == models(v@).take(i as int).map_values(
                                |c: Json| normalized_class(c),
                            ),
                        decreases v@.len() - i,
                    {
                        let n = normalize_class(&v[i]);
                        let ghost prev = classes@;
                        classes.push(n);
                        assert(models(classes@) =~= models(prev).push(n@));
                        assert(models(v@).take(i + 1) =~= models(v@).take(i as int).push(v@[i as int]@));
                        assert(models(classes@) =~= models(v@).take(i + 1).map_values(
                            |c: Json| normalized_class(c),
                        ));
                        i = i + 1;
                    }
                    assert(models(v@).take(v@.len() as int) =~= models(v@));
                },
            }
            assert(models(classes@) =~= items_of(s@, "classes"@).map_values(|c: Json| normalized_class(c)));
            let entries = vec![
                (String::from_str("classes"), array_of(classes)),
                (String::from_str("source"), text_value("normalized")),
            ];
            let out = object_of(entries);
            assert(out@->Object_0 =~= spec_normalize_schema(Some(s@))->Object_0);
            out
        },
    }
}


/// The `info.json` document of a refreshed pack.
#[derive(Clone, Debug)]
pub struct RefreshInfo {
    pub source: String,
    pub build_number: u32,
    pub generated_at: String,
    pub dumper_version: String,
}

/// The three documents of a refreshed pack, before they are written.
#[derive(Debug)]
pub struct RefreshPlan {
    pub info: RefreshInfo,
    pub offsets: OffsetTable,
    pub schema: JsonValue,
}

/// What a refresh reports: where the pack went, how many offsets and how
/// many schema classes it holds.
#[derive(Clone, Debug)]
pub struct RefreshReport {
    pub output_dir: std::path::PathBuf,
    pub offsets_count: usize,
    pub schema_classes: usize,
}

/// The binary image as a mathematical sequence.
pub open spec fn bytes_of(binary: Option<&[u8]>) -> Option<Seq<u8>> {
    match binary {
        Some(d) => Some(d@),
        None => None,
    }
}

/// The model of an optional document.
pub open spec fn model_of(doc: Option<JsonValue>) -> Option<Json> {
    match doc {
        Some(d) => Some(d@),
        None => None,
    }
}

/// Whether `plan` is the refresh of `binary` and `raw_schema` for `build_number`,
/// stamped `generated_at`.
pub open spec fn is_refresh_plan(
    plan: RefreshPlan,
    binary: Option<Seq<u8>>,
    raw_schema: Option<Json>,
    build_number: u32,
) -> bool {
    &&& plan.info.source@ == "dump_refresh"@
    &&& plan.info.build_number == build_number
    &&& plan.info.dumper_version@ == "a2x-port-minimal-1"@
    &&& plan.offsets.wf()
    &&& plan.offsets@ == found_offsets(binary, signature_table())
    &&& plan.schema@ == spec_normalize_schema(raw_schema)
}

/// Builds the documents of a refreshed pack from the binary image and the raw
/// schema that were read, if any.
pub fn plan_refresh(
    binary: Option<&[u8]>,
    raw_schema: Option<JsonValue>,
    build_number: u32,
    generated_at: String,
) -> (plan: RefreshPlan)
    ensures
        is_refresh_plan(plan, bytes_of(binary), model_of(raw_schema), build_number),
        plan.info.generated_at == generated_at,
{
    let offsets = extract_offsets(binary);
    let schema = normalize_schema(raw_schema);
    RefreshPlan {
        info: RefreshInfo {
            source: String::from_str("dump_refresh"),
            build_number,
            generated_at,
            dumper_version: String::from_str("a2x-port-minimal-1"),
        },
        offsets,
        schema,
    }
}

/// Builds the documents of a refreshed pack, stamped with the current UTC time.
pub fn refresh_plan(binary: Option<&[u8]>, raw_schema: Option<JsonValue>, build_number: u32) -> (plan: RefreshPlan)
    ensures
        is_refresh_plan(plan, bytes_of(binary), model_of(raw_schema), build_number),
        is_rfc3339_utc(plan.info.generated_at@),
{
    let stamp = utc_rfc3339(system_time_now());
    plan_refresh(binary, raw_schema, build_number, stamp)
}

/// Builds the documents of a refreshed pack from the binary image and the
/// text of the raw schema that were read, if any, stamped with the current
/// UTC time: an error exactly when a schema text is given and is not JSON.
pub fn refresh_plan_from_text(
    binary: Option<&[u8]>,
    schema_text: Option<&str>,
    build_number: u32,
) -> (r: Result<RefreshPlan, serde_json::Error>)
    ensures
        match schema_text {
            None => r matches Ok(plan) && is_refresh_plan(plan, bytes_of(binary), None, build_number)
                && is_rfc3339_utc(plan.info.generated_at@),
            Some(t) => match parsed_json(t@) {
                None => r is Err,
                Some(schema) => r matches Ok(plan) && is_refresh_plan(plan, bytes_of(binary), Some(schema), build_number)
                    && is_rfc3339_utc(plan.info.generated_at@),
            },
        },
{
    let raw_schema = match schema_text {
        None => None,
        Some(t) => match parse_json(t) {
            Ok(v) => Some(v),
            Err(e) => {
                return Err(e);
            },
        },
    };
    Ok(refresh_plan(binary, raw_schema, build_number))
}

/// The number of classes a schema document lists (none when it lists none).
pub open spec fn class_count(schema: Json) -> nat {
    match schema.array_member("classes"@) {
        Some(c) => c.len(),
        None => 0,
    }
}

/// The number of classes a schema document lists.
pub fn schema_class_count(schema: &JsonValue) -> (n: usize)
    ensures
        n == class_count(schema@),
{
    match schema.array_member("classes") {
        Some(classes) => classes.len(),
        None => 0,
    }
}

impl RefreshPlan {
    /// The report of this refresh, written to `output_dir`.
    pub fn report(&self, output_dir: std::path::PathBuf) -> (report: RefreshReport)
        requires
            self.offsets.wf(),
        ensures
            report.output_dir == output_dir,
            report.offsets_count == self.offsets@.len(),
            report.schema_classes == class_count(self.schema@),
    {
        RefreshReport {
            output_dir,
            offsets_count: self.offsets.len(),
            schema_classes: schema_class_count(&self.schema),
        }
    }
}


/// The line that announces a finished refresh.
pub open spec fn refresh_message(report: RefreshReport) -> Seq<char> {
    "dump refresh complete: path="@ + shown(report.output_dir) + ", offsets="@ + decimal(
        report.offsets_count as nat,
    ) + ", classes="@ + decimal(report.schema_classes as nat)
}

/// The line that announces a finished refresh: where the pack went, how many
/// offsets and how many schema classes it holds.
pub fn refresh_command(report: &RefreshReport) -> (message: String)
    ensures
        message@ == refresh_message(*report),
{
    let mut message = String::from_str("dump refresh complete: path=");
    let path = display_text(&report.output_dir);
    message.append(path.as_str());
    message.append(", offsets=");
    let offsets = u64_decimal(report.offsets_count as u64);
    message.append(offsets.as_str());
    message.append(", classes=");
    let classes = u64_decimal(report.schema_classes as u64);
    message.append(classes.as_str());
    message
}


/// Normalizing a schema keeps each of its classes: the normalized document
/// lists as many classes as the given one (none without a schema).
pub proof fn law_normalize_keeps_class_count(schema: Option<Json>)
    ensures
        class_count(spec_normalize_schema(schema)) == match schema {
            Some(s) => items_of(s, "classes"@).len(),
            None => 0,
        },
{
}


/// A normalized field is left as it is by normalizing it again.
proof fn lemma_field_idempotent(f: Json)
    ensures
        normalized_field(normalized_field(f)) == normalized_field(f),
{
    reveal_strlit("name");
    reveal_strlit("type");
    reveal_strlit("offset");
    let g = normalized_field(f);
    let es = g->Object_0;
    assert("name"@[0] == 'n' && "type"@[0] == 't');
    assert("name"@.len() == 4 && "type"@.len() == 4 && "offset"@.len() == 6);
    assert(es[0].0 != "type"@ && es[0].0 != "offset"@);
    assert(es[1].0 != "offset"@);
    let e1 = es.drop_first();
    let e2 = e1.drop_first();
    assert(e1[0] == es[1]);
    assert(e2[0] == es[2]);
    assert(lookup(e1, "type"@) == Some(es[1].1));
    assert(lookup(e2, "offset"@) == Some(es[2].1));
    assert(lookup(e1, "offset"@) == lookup(e2, "offset"@));
    assert(g.str_member("name"@) == Some(text_or_unknown(f, "name"@)));
    assert(g.str_member("type"@) == Some(text_or_unknown(f, "type"@)));
    assert(normalized_field(g)->Object_0 =~= es);
}

/// A normalized class is left as it is by normalizing it again.
proof fn lemma_class_idempotent(c: Json)
    ensures
        normalized_class(normalized_class(c)) == normalized_class(c),
{
    reveal_strlit("name");
    reveal_strlit("fields");
    let d = normalized_class(c);
    let es = d->Object_0;
    let fs = items_of(c, "fields"@).map_values(|f: Json| normalized_field(f));
    assert("name"@.len() == 4 && "fields"@.len() == 6);
    assert(es[0].0 != "fields"@);
    let e1 = es.drop_first();
    assert(e1[0] == es[1]);
    assert(lookup(e1, "fields"@) == Some(es[1].1));
    assert(items_of(d, "fields"@) == fs);
    assert forall|i: int| 0 <= i < fs.len() implies #[trigger] normalized_field(fs[i]) == fs[i] by {
        lemma_field_idempotent(items_of(c, "fields"@)[i]);
    }
    assert(fs.map_values(|f: Json| normalized_field(f)) =~= fs);
    assert(normalized_class(d)->Object_0 =~= es);
}

/// Normalizing a schema that is already normalized changes nothing: a
/// refreshed pack's schema is a fixed point of the normalization.
pub proof fn law_normalize_is_idempotent(schema: Json)
    ensures
        spec_normalize_schema(Some(spec_normalize_schema(Some(schema)))) == spec_normalize_schema(Some(schema)),
{
    let n = spec_normalize_schema(Some(schema));
    let cs = items_of(schema, "classes"@).map_values(|c: Json| normalized_class(c));
    assert(items_of(n, "classes"@) == cs);
    assert forall|i: int| 0 <= i < cs.len() implies #[trigger] normalized_class(cs[i]) == cs[i] by {
        lemma_class_idempotent(items_of(schema, "classes"@)[i]);
    }
    assert(cs.map_values(|c: Json| normalized_class(c)) =~= cs);
    assert(spec_normalize_schema(Some(n))->Object_0 =~= n->Object_0);
}

/// The text of a string member, or `unknown`.
pub open spec fn member_text(v: Json, key: Seq<char>) -> Seq<char> {
    match v.get(key) {
        Some(Json::Str(t)) => t,
        _ => "unknown"@,
    }
}

/// The items of an array member, or none.
pub open spec fn member_items(v: Json, key: Seq<char>) -> Seq<Json> {
    match v.get(key) {
        Some(Json::Array(a)) => a,
        _ => Seq::empty(),
    }
}

/// Without a schema the pack's schema is `minimal` and lists no class.
/// With one, it is `normalized` and lists one class per class of the
/// given schema, in order: class `i` carries the name of class `i` (or
/// `unknown`) and one field per field of it, in order; field `k` carries
/// the name and type of field `k` (or `unknown`) and its offset when that
/// is a non-negative integer (else zero).
pub proof fn law_normalized_schema_members(schema: Json, i: int, k: int)
    ensures
        spec_normalize_schema(None).get("source"@) == Some(Json::Str("minimal"@)),
        spec_normalize_schema(None).get("classes"@) == Some(Json::Array(Seq::empty())),
        spec_normalize_schema(Some(schema)).get("source"@) == Some(Json::Str("normalized"@)),
        ({
            let classes = member_items(schema, "classes"@);
            let n = spec_normalize_schema(Some(schema));
            &&& n.get("classes"@) is Some
            &&& n.get("classes"@)->0 is Array
            &&& member_items(n, "classes"@).len() == classes.len()
            &&& 0 <= i < classes.len() ==> {
                let c = classes[i];
                let nc = member_items(n, "classes"@)[i];
                let fields = member_items(c, "fields"@);
                &&& nc.get("name"@) == Some(Json::Str(member_text(c, "name"@)))
                &&& nc.get("fields"@) is Some && nc.get("fields"@)->0 is Array
                &&& member_items(nc, "fields"@).len() == fields.len()
                &&& 0 <= k < fields.len() ==> {
                    let f = fields[k];
                    let nf = member_items(nc, "fields"@)[k];
                    &&& nf.get("name"@) == Some(Json::Str(member_text(f, "name"@)))
                    &&& nf.get("type"@) == Some(Json::Str(member_text(f, "type"@)))
                    &&& nf.get("offset"@) == Some(
                        Json::Number(
                            JsonNumber::PosInt(
                                match f.get("offset"@) {
                                    Some(Json::Number(JsonNumber::PosInt(o))) => o,
                                    _ => 0,
                                },
                            ),
                        ),
                    )
                }
            }
        }),
{
    reveal_strlit("name");
    reveal_strlit("type");
    reveal_strlit("offset");
    reveal_strlit("fields");
    reveal_strlit("classes");
    reveal_strlit("source");
    assert("name"@.len() == 4 && "type"@.len() == 4 && "offset"@.len() == 6 && "fields"@.len() == 6);
    assert("name"@[0] != "type"@[0] && "offset"@[0] != "fields"@[0]);
    assert("classes"@.len() == 7 && "source"@.len() == 6);
    let none = spec_normalize_schema(None)->Object_0;
    assert(lookup(none.drop_first(), "source"@) == Some(none[1].1));
    let some = spec_normalize_schema(Some(schema))->Object_0;
    assert(lookup(some.drop_first(), "source"@) == Some(some[1].1));
    let classes = member_items(schema, "classes"@);
    assert(items_of(schema, "classes"@) == classes);
    let ncs = classes.map_values(|c: Json| normalized_class(c));
    assert(member_items(spec_normalize_schema(Some(schema)), "classes"@) == ncs);
    if 0 <= i < classes.len() {
        let c = classes[i];
        let nc = ncs[i];
        assert(nc == normalized_class(c));
        let ces = nc->Object_0;
        assert(lookup(ces.drop_first(), "fields"@) == Some(ces[1].1));
        let fields = member_items(c, "fields"@);
        assert(items_of(c, "fields"@) == fields);
        assert(c.str_member("name"@) is Some ==> member_text(c, "name"@) == c.str_member("name"@)->0);
        let nfs = fields.map_values(|f: Json| normalized_field(f));
        assert(member_items(nc, "fields"@) == nfs);
        if 0 <= k < fields.len() {
            let f = fields[k];
            let nf = nfs[k];
            assert(nf == normalized_field(f));
            let fes = nf->Object_0;
            let e1 = fes.drop_first();
            let e2 = e1.drop_first();
            assert(e1[0] == fes[1]);
            assert(e2[0] == fes[2]);
            assert(lookup(e1, "type"@) == Some(fes[1].1));
            assert(lookup(e2, "offset"@) == Some(fes[2].1));
            assert(lookup(e1, "offset"@) == lookup(e2, "offset"@));
            assert(f.str_member("name"@) is Some ==> member_text(f, "name"@) == f.str_member("name"@)->0);
            assert(f.str_member("type"@) is Some ==> member_text(f, "type"@) == f.str_member("type"@)->0);
        }
    }
}

/// A refreshed pack's info names its maker, `dump_refresh` at version
/// `a2x-port-minimal-1`, and the build it was made for; its offsets are
/// those the signatures give and its schema the normalized one.
pub proof fn law_refresh_info(plan: RefreshPlan, binary: Option<Seq<u8>>, raw_schema: Option<Json>, build_number: u32)
    requires
        is_refresh_plan(plan, binary, raw_schema, build_number),
    ensures
        plan.info.source@ == "dump_refresh"@,
        plan.info.dumper_version@ == "a2x-port-minimal-1"@,
        plan.info.build_number == build_number,
        plan.offsets@ == found_offsets(binary, signature_table()),
        plan.schema@ == spec_normalize_schema(raw_schema),
{
}

} // verus!