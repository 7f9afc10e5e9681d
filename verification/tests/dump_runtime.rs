use std::path::PathBuf;

use cs2_webradar_extreme::dump_runtime::{
    json_document, missing_file, pack_files, pack_from_documents, parse_info, resolve_active_dump,
    resolve_active_dump_or_any, DumpError, DumpPack, DumpRuntimeConfig, DumpSource,
};
use cs2_webradar_extreme::json::{JsonNumber, JsonValue};

fn text(s: &str) -> JsonValue {
    JsonValue::Str(s.to_string())
}

fn number(n: u64) -> JsonValue {
    JsonValue::Number(JsonNumber::PosInt(n))
}

fn object(entries: Vec<(&str, JsonValue)>) -> JsonValue {
    JsonValue::Object(entries.into_iter().map(|(k, v)| (k.to_string(), v)).collect())
}

/// The pack a directory holds after writing `info.json` with the given build
/// and source, `offsets.json` and `client_dll.json`.
fn pack(dir: &str, build: u32, source: &str) -> DumpPack {
    let info = format!(
        "{{\"source\":\"{}\",\"build_number\":{},\"generated_at\":\"2026-01-01T00:00:00Z\"}}",
        source, build
    );
    pack_from_documents(PathBuf::from(dir), &info, "{\"dwGameEntitySystem\": 123}", "{\"classes\": []}")
        .expect("pack")
}

#[test]
fn prefers_user_pack_when_build_matches() {
    let user = pack("user", 15000, "user");
    let embedded = pack("embedded", 14000, "embedded");

    let resolved = resolve_active_dump(Some(user), Some(embedded), Some(15000)).expect("resolve");
    assert_eq!(resolved.source, DumpSource::User);
}

#[test]
fn falls_back_to_embedded_when_user_mismatches() {
    let user = pack("user", 15000, "user");
    let embedded = pack("embedded", 16000, "embedded");

    let resolved = resolve_active_dump(Some(user), Some(embedded), Some(16000)).expect("resolve");
    assert_eq!(resolved.source, DumpSource::Embedded);
    assert_eq!(resolved.warnings.len(), 1);
}

#[test]
fn errors_when_no_pack_matches() {
    let user = pack("user", 15000, "user");
    let embedded = pack("embedded", 16000, "embedded");

    let error = resolve_active_dump(Some(user), Some(embedded), Some(17000)).expect_err("should fail");
    assert!(matches!(error, DumpError::NoUsableDump));
}

#[test]
fn mismatch_warning_names_both_builds() {
    let user = pack("user", 15000, "user");
    let embedded = pack("embedded", 16000, "embedded");

    let resolved = resolve_active_dump(Some(user), Some(embedded), Some(16000)).expect("resolve");
    assert_eq!(
        resolved.warnings,
        vec!["user dump build mismatch: expected Some(16000), got Some(15000)".to_string()]
    );
}

#[test]
fn any_pack_suits_without_expected_build() {
    let resolved = resolve_active_dump(Some(pack("user", 1, "user")), Some(pack("embedded", 2, "embedded")), None)
        .expect("resolve");
    assert_eq!(resolved.source, DumpSource::User);
    assert!(resolved.warnings.is_empty());

    let resolved = resolve_active_dump(None, Some(pack("embedded", 2, "embedded")), None).expect("resolve");
    assert_eq!(resolved.source, DumpSource::Embedded);
    assert_eq!(resolved.pack.root_dir, PathBuf::from("embedded"));
}

#[test]
fn fallback_request_finds_a_loaded_pack() {
    let first = resolve_active_dump(None, Some(pack("embedded", 14000, "embedded")), Some(15000));
    assert!(matches!(first, Err(DumpError::NoUsableDump)));
    let second = resolve_active_dump(None, Some(pack("embedded", 14000, "embedded")), None);
    assert!(second.is_ok());
    assert!(matches!(resolve_active_dump(None, None, None), Err(DumpError::NoUsableDump)));
}

#[test]
fn parse_info_reads_both_spellings() {
    let info = parse_info(&object(vec![
        ("buildNumber", number(15000)),
        ("generatedAt", text("now")),
        ("dumper_version", text("v1")),
        ("dumperVersion", text("v2")),
    ]));
    assert_eq!(info.source, "unknown");
    assert_eq!(info.build_number, Some(15000));
    assert_eq!(info.generated_at.as_deref(), Some("now"));
    assert_eq!(info.dumper_version.as_deref(), Some("v1"));
}

#[test]
fn parse_info_drops_builds_beyond_u32() {
    let info = parse_info(&object(vec![
        ("source", number(7)),
        ("build_number", number(1u64 << 32)),
        ("buildNumber", number(12)),
    ]));
    assert_eq!(info.source, "unknown");
    assert_eq!(info.build_number, None);
    assert_eq!(info.generated_at, None);

    let info = parse_info(&object(vec![("build_number", text("15000")), ("buildNumber", number(12))]));
    assert_eq!(info.build_number, Some(12));

    let info = parse_info(&JsonValue::Array(Vec::new()));
    assert_eq!(info.source, "unknown");
    assert_eq!(info.build_number, None);
}

#[test]
fn runtime_config_clones_its_paths() {
    let config = DumpRuntimeConfig {
        app_id: "x".to_string(),
        embedded_dir: PathBuf::from("embedded"),
        user_override_dir: Some(PathBuf::from("user")),
    };
    let copy = config.clone();
    assert_eq!(copy.embedded_dir, PathBuf::from("embedded"));
    assert_eq!(copy.user_override_dir, Some(PathBuf::from("user")));
}

#[test]
fn user_dump_dir_prefers_the_override() {
    let config = DumpRuntimeConfig {
        app_id: "x".to_string(),
        embedded_dir: PathBuf::from("/embedded"),
        user_override_dir: Some(PathBuf::from("/custom/user")),
    };
    assert_eq!(config.user_dump_dir(), PathBuf::from("/custom/user"));
    assert_eq!(config.user_dump_dir_in(Some(PathBuf::from("/data"))), PathBuf::from("/custom/user"));
}

#[test]
fn user_dump_dir_lies_below_the_data_directory() {
    let config = DumpRuntimeConfig {
        app_id: "cs2_webradar_extreme".to_string(),
        embedded_dir: PathBuf::from("/embedded"),
        user_override_dir: None,
    };
    assert_eq!(
        config.user_dump_dir_in(Some(PathBuf::from("/data"))),
        PathBuf::from("/data/cs2_webradar_extreme/dumps/active")
    );
    assert_eq!(config.user_dump_dir_in(None), PathBuf::from("./cs2_webradar_extreme/dumps/active"));
    assert!(config.user_dump_dir().ends_with("cs2_webradar_extreme/dumps/active"));
}

#[test]
fn pack_from_documents_reads_the_three_texts() {
    let p = pack_from_documents(
        PathBuf::from("/packs/user"),
        "{\"source\":\"user\",\"buildNumber\":15000,\"dumperVersion\":\"d1\"}",
        "{\"dwGameEntitySystem\": 123}",
        "{\"classes\": []}",
    )
    .expect("pack");
    assert_eq!(p.root_dir, PathBuf::from("/packs/user"));
    assert_eq!(p.info.source, "user");
    assert_eq!(p.info.build_number, Some(15000));
    assert_eq!(p.info.generated_at, None);
    assert_eq!(p.info.dumper_version.as_deref(), Some("d1"));
    assert_eq!(p.offsets.u64_member("dwGameEntitySystem"), Some(123));
    assert_eq!(p.schema.array_member("classes").map(|c| c.len()), Some(0));
}

fn invalid_json_path(r: Result<DumpPack, DumpError>) -> String {
    match r {
        Err(DumpError::InvalidJson { path, .. }) => path,
        other => panic!("expected invalid json, got {:?}", other.map(|p| p.root_dir)),
    }
}

#[test]
fn pack_from_documents_names_the_first_corrupt_file() {
    let root = PathBuf::from("/packs/user");
    assert_eq!(
        invalid_json_path(pack_from_documents(root.clone(), "{oops", "not json", "{}")),
        "/packs/user/info.json"
    );
    assert_eq!(
        invalid_json_path(pack_from_documents(root.clone(), "{}", "not json", "[")),
        "/packs/user/offsets.json"
    );
    assert_eq!(invalid_json_path(pack_from_documents(root, "{}", "{}", "[")), "/packs/user/client_dll.json");
}

#[test]
fn pack_files_and_missing_file() {
    let files = pack_files(&PathBuf::from("/packs/user"));
    assert_eq!(
        files,
        vec![
            PathBuf::from("/packs/user/info.json"),
            PathBuf::from("/packs/user/offsets.json"),
            PathBuf::from("/packs/user/client_dll.json"),
        ]
    );
    match missing_file(&files[1]) {
        DumpError::MissingFile(p) => assert_eq!(p, "/packs/user/offsets.json"),
        other => panic!("unexpected {:?}", other),
    }
}

#[test]
fn json_document_parses_or_names_the_file() {
    let path = PathBuf::from("/packs/x/info.json");
    let doc = json_document(&path, "{\"a\": [1, -2, 2.5, \"t\", null, true]}").expect("json");
    let items = doc.array_member("a").expect("array");
    assert_eq!(items.len(), 6);
    assert_eq!(items[0].as_u64(), Some(1));
    assert!(matches!(items[1], JsonValue::Number(JsonNumber::NegInt(-2))));
    assert!(matches!(items[2], JsonValue::Number(JsonNumber::FloatBits(b)) if b == 2.5f64.to_bits()));
    assert_eq!(items[3].as_str().map(|s| s.as_str()), Some("t"));
    assert!(matches!(items[4], JsonValue::Null));
    assert!(matches!(items[5], JsonValue::Bool(true)));
    match json_document(&path, "{") {
        Err(DumpError::InvalidJson { path, .. }) => assert_eq!(path, "/packs/x/info.json"),
        _ => panic!("expected invalid json"),
    }
}

#[test]
fn fallback_takes_any_pack_when_none_suits() {
    let r = resolve_active_dump_or_any(Some(pack("user", 15000, "user")), Some(pack("embedded", 16000, "embedded")), Some(17000))
        .expect("resolve");
    assert_eq!(r.source, DumpSource::User);
    assert!(r.warnings.is_empty());

    let r = resolve_active_dump_or_any(Some(pack("user", 15000, "user")), Some(pack("embedded", 16000, "embedded")), Some(16000))
        .expect("resolve");
    assert_eq!(r.source, DumpSource::Embedded);
    assert_eq!(r.warnings.len(), 1);
    assert_eq!(r.warnings[0], "user dump build mismatch: expected Some(16000), got Some(15000)");

    let r = resolve_active_dump_or_any(None, Some(pack("embedded", 16000, "embedded")), Some(17000)).expect("resolve");
    assert_eq!(r.source, DumpSource::Embedded);

    assert!(matches!(resolve_active_dump_or_any(None, None, Some(17000)), Err(DumpError::NoUsableDump)));
}
