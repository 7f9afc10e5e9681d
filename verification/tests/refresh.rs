use cs2_webradar_extreme::json::{JsonNumber, JsonValue};
use cs2_webradar_extreme::refresh::{
    normalize_schema, plan_refresh, refresh_command, refresh_plan, refresh_plan_from_text, schema_class_count,
    RefreshReport,
};
use std::path::PathBuf;

fn text(s: &str) -> JsonValue {
    JsonValue::Str(s.to_string())
}

fn object(entries: Vec<(&str, JsonValue)>) -> JsonValue {
    JsonValue::Object(entries.into_iter().map(|(k, v)| (k.to_string(), v)).collect())
}

fn str_member<'a>(v: &'a JsonValue, key: &str) -> Option<&'a str> {
    v.str_member(key).map(|s| s.as_str())
}

#[test]
fn minimal_schema_without_input() {
    let schema = normalize_schema(None);
    assert_eq!(str_member(&schema, "source"), Some("minimal"));
    assert_eq!(schema.array_member("classes").map(|c| c.len()), Some(0));
}

#[test]
fn schema_classes_are_normalized_with_defaults() {
    let raw = object(vec![
        ("classes", JsonValue::Array(vec![
            object(vec![
                ("name", text("C_CSPlayerPawn")),
                ("extra", text("dropped")),
                ("fields", JsonValue::Array(vec![
                    object(vec![("name", text("m_iHealth")), ("type", text("int32")), ("offset", JsonValue::Number(JsonNumber::PosInt(832)))]),
                    object(vec![("offset", JsonValue::Number(JsonNumber::NegInt(-4)))]),
                ])),
            ]),
            object(vec![("name", JsonValue::Null)]),
            JsonValue::Bool(true),
        ])),
        ("version", text("x")),
    ]);
    let schema = normalize_schema(Some(raw));
    assert_eq!(str_member(&schema, "source"), Some("normalized"));
    assert_eq!(schema_class_count(&schema), 3);
    let classes = schema.array_member("classes").expect("classes");
    assert_eq!(str_member(&classes[0], "name"), Some("C_CSPlayerPawn"));
    assert!(classes[0].get("extra").is_none());
    let fields = classes[0].array_member("fields").expect("fields");
    assert_eq!(fields.len(), 2);
    assert_eq!(str_member(&fields[0], "type"), Some("int32"));
    assert_eq!(fields[0].u64_member("offset"), Some(832));
    assert_eq!(str_member(&fields[1], "name"), Some("unknown"));
    assert_eq!(str_member(&fields[1], "type"), Some("unknown"));
    assert_eq!(fields[1].u64_member("offset"), Some(0));
    assert_eq!(str_member(&classes[1], "name"), Some("unknown"));
    assert_eq!(classes[1].array_member("fields").map(|f| f.len()), Some(0));
    assert_eq!(str_member(&classes[2], "name"), Some("unknown"));
}

#[test]
fn schema_without_class_list_normalizes_to_none() {
    let schema = normalize_schema(Some(object(vec![("classes", text("oops"))])));
    assert_eq!(str_member(&schema, "source"), Some("normalized"));
    assert_eq!(schema_class_count(&schema), 0);
}

#[test]
fn refresh_plan_without_inputs_lists_four_offsets() {
    let plan = plan_refresh(None, None, 15000, "2026-01-01T00:00:00+00:00".to_string());
    assert_eq!(plan.info.source, "dump_refresh");
    assert_eq!(plan.info.build_number, 15000);
    assert_eq!(plan.info.dumper_version, "a2x-port-minimal-1");
    assert_eq!(plan.info.generated_at, "2026-01-01T00:00:00+00:00");
    assert_eq!(plan.offsets.get("dwGameEntitySystem"), Some(&0));
    let report = plan.report(PathBuf::from("pack"));
    assert_eq!(report.offsets_count, 4);
    assert_eq!(report.schema_classes, 0);
    assert_eq!(report.output_dir, PathBuf::from("pack"));
}

#[test]
fn refresh_plan_is_stamped_with_the_clock() {
    let plan = refresh_plan(None, None, 1);
    assert!(plan.info.generated_at.len() >= 20);
    assert!(plan.info.generated_at.starts_with("20"));
}

#[test]
fn normalizing_twice_changes_nothing() {
    let raw = object(vec![(
        "classes",
        JsonValue::Array(vec![
            object(vec![
                ("name", text("C_BaseEntity")),
                ("fields", JsonValue::Array(vec![object(vec![("offset", JsonValue::Number(JsonNumber::PosInt(16)))])])),
            ]),
            JsonValue::Null,
        ]),
    )]);
    let once = normalize_schema(Some(raw));
    let once_text = format!("{once:?}");
    let twice = normalize_schema(Some(once));
    assert_eq!(format!("{twice:?}"), once_text);
}

#[test]
fn refresh_message_names_path_and_counts() {
    let report = RefreshReport {
        output_dir: PathBuf::from("/tmp/pack"),
        offsets_count: 4,
        schema_classes: 12,
    };
    assert_eq!(refresh_command(&report), "dump refresh complete: path=/tmp/pack, offsets=4, classes=12");
}

fn looks_like_rfc3339_utc(t: &str) -> bool {
    let b = t.as_bytes();
    t.ends_with("+00:00")
        && b.len() >= 25
        && b[4] == b'-'
        && b[7] == b'-'
        && b[10] == b'T'
        && b[13] == b':'
        && b[16] == b':'
        && b[..4].iter().all(|c| c.is_ascii_digit())
}

#[test]
fn refresh_plan_from_text_parses_the_schema() {
    let schema = "{\"classes\": [{\"name\": \"C_Player\", \"fields\": [{\"name\": \"m_iHealth\", \"type\": \"int32\", \"offset\": 832}]}]}";
    let plan = refresh_plan_from_text(None, Some(schema), 15000).expect("plan");
    assert_eq!(plan.info.build_number, 15000);
    assert_eq!(plan.info.source, "dump_refresh");
    assert!(looks_like_rfc3339_utc(&plan.info.generated_at), "{}", plan.info.generated_at);
    assert_eq!(schema_class_count(&plan.schema), 1);
    let class = &plan.schema.array_member("classes").unwrap()[0];
    assert_eq!(str_member(class, "name"), Some("C_Player"));
    let field = &class.array_member("fields").unwrap()[0];
    assert_eq!(field.u64_member("offset"), Some(832));
    assert_eq!(str_member(&plan.schema, "source"), Some("normalized"));
}

#[test]
fn refresh_plan_from_text_without_schema_and_with_bad_schema() {
    let plan = refresh_plan_from_text(None, None, 15000).expect("plan");
    assert_eq!(str_member(&plan.schema, "source"), Some("minimal"));
    assert_eq!(plan.offsets.len(), 4);
    assert!(refresh_plan_from_text(None, Some("{\"classes\": ["), 15000).is_err());
}
