//! Dump packs: what they hold, and which one a run uses.
use vstd::prelude::*;
use crate::json::{Json, JsonNumber, JsonValue, parse_json, parsed_json};
use crate::paths::{display_text, join, joined, path_from_text, path_of, shown};
use crate::text::{debug_option_u32, decimal, option_u32_debug};

verus! {

/// An operating-system I/O error, carried as it is.
#[verifier::external_type_specification]
#[verifier::external_body]
pub struct ExIoError(std::io::Error);

/// A JSON syntax error, carried as it is.
#[verifier::external_type_specification]
#[verifier::external_body]
pub struct ExJsonError(serde_json::Error);

/// Where dump packs are looked for: the application's id (naming its data
/// directory), the bundled pack's directory, and an optional directory that
/// replaces the user pack location.
#[derive(Clone, Debug)]
pub struct DumpRuntimeConfig {
    pub app_id: String,
    pub embedded_dir: std::path::PathBuf,
    pub user_override_dir: Option<std::path::PathBuf>,
}

/// Calls `dirs::data_local_dir`: the platform's directory for local
/// application data, when the environment names one. It depends on the
/// environment, so nothing is stated of it.
#[verifier::external_body]
fn data_local_dir() -> Option<std::path::PathBuf> {
    dirs::data_local_dir()
}

/// The user pack's directory below a data directory: `<base>/<app_id>/dumps/active`.
pub open spec fn user_dir_below(base: std::path::PathBuf, app_id: Seq<char>) -> std::path::PathBuf {
    joined(joined(joined(base, app_id), "dumps"@), "active"@)
}

/// The user pack's directory, given the local data directory the platform
/// names, if any: the override when there is one, else below the data
/// directory, with `.` standing in for an unknown one.
pub open spec fn spec_user_dump_dir(
    config: DumpRuntimeConfig,
    local_data: Option<std::path::PathBuf>,
) -> std::path::PathBuf {
    match config.user_override_dir {
        Some(p) => p,
        None => user_dir_below(
            match local_data {
                Some(b) => b,
                None => path_from_text("."@),
            },
            config.app_id@,
        ),
    }
}

impl DumpRuntimeConfig {
    /// The user pack's directory, given the local data directory the
    /// platform names, if any.
    pub fn user_dump_dir_in(&self, local_data: Option<std::path::PathBuf>) -> (dir: std::path::PathBuf)
        ensures
            dir == spec_user_dump_dir(*self, local_data),
    {
        match &self.user_override_dir {
            Some(path) => path.clone(),
            None => {
                let base = match local_data {
                    Some(b) => b,
                    None => path_of("."),
                };
                let app = join(&base, self.app_id.as_str());
                let dumps = join(&app, "dumps");
                join(&dumps, "active")
            },
        }
    }

    /// The user pack's directory: the override when there is one, else
    /// `<app_id>/dumps/active` below the platform's local data directory
    /// (or below `.` when the platform names none).
    pub fn user_dump_dir(&self) -> (dir: std::path::PathBuf)
        ensures
            exists|local_data: Option<std::path::PathBuf>| dir == spec_user_dump_dir(*self, local_data),
            self.user_override_dir matches Some(p) ==> dir == p,
    {
        let local_data = data_local_dir();
        let dir = self.user_dump_dir_in(local_data);
        assert(dir == spec_user_dump_dir(*self, local_data));
        dir
    }
}

/// Where a dump pack came from, and which game build it was made for.
#[derive(Clone, Debug)]
pub struct DumpInfo {
    pub source: String,
    pub build_number: Option<u32>,
    pub generated_at: Option<String>,
    pub dumper_version: Option<String>,
}

/// The text of an optional string.
pub open spec fn text_of(o: Option<String>) -> Option<Seq<char>> {
    match o {
        Some(s) => Some(s@),
        None => None,
    }
}

/// Member `a` if it is a string, else member `b` if it is one.
pub open spec fn str_member_either(v: Json, a: Seq<char>, b: Seq<char>) -> Option<Seq<char>> {
    match v.str_member(a) {
        Some(s) => Some(s),
        None => v.str_member(b),
    }
}

/// The build number of an info document: `build_number`, else `buildNumber`,
/// read as a non-negative integer, and kept only when it fits in 32 bits.
pub open spec fn info_build_number(v: Json) -> Option<u32> {
    let raw = match v.u64_member("build_number"@) {
        Some(n) => Some(n),
        None => v.u64_member("buildNumber"@),
    };
    match raw {
        Some(n) => if n <= u32::MAX {
            Some(n as u32)
        } else {
            None
        },
        None => None,
    }
}

/// Whether `info` is what `parse_info` reads from the document `v`.
pub open spec fn is_info_of(info: DumpInfo, v: Json) -> bool {
    &&& info.source@ == match v.str_member("source"@) {
        Some(s) => s,
        None => "unknown"@,
    }
    &&& info.build_number == info_build_number(v)
    &&& text_of(info.generated_at) == str_member_either(v, "generated_at"@, "generatedAt"@)
    &&& text_of(info.dumper_version) == str_member_either(v, "dumper_version"@, "dumperVersion"@)
}

/// Member `a` if it is a string, else member `b` if it is one, copied.
fn member_either(v: &JsonValue, a: &str, b: &str) -> (text: Option<String>)
    ensures
        text_of(text) == str_member_either(v@, a@, b@),
{
    match v.str_member(a) {
        Some(s) => Some(s.clone()),
        None => match v.str_member(b) {
            Some(s) => Some(s.clone()),
            None => None,
        },
    }
}

/// Reads the info document of a dump pack, accepting both snake-case and
/// camel-case member names.
pub fn parse_info(value: &JsonValue) -> (info: DumpInfo)
    ensures
        is_info_of(info, value@),
{
    let source = match value.str_member("source") {
        Some(s) => s.clone(),
        None => String::from_str("unknown"),
    };
    let raw = match value.u64_member("build_number") {
        Some(n) => Some(n),
        None => value.u64_member("buildNumber"),
    };
    let build_number = match raw {
        Some(n) => if n <= 0xffff_ffffu64 {
            Some(n as u32)
        } else {
            None
        },
        None => None,
    };
    DumpInfo {
        source,
        build_number,
        generated_at: member_either(value, "generated_at", "generatedAt"),
        dumper_version: member_either(value, "dumper_version", "dumperVersion"),
    }
}

/// A loaded dump pack: its directory, info, offsets and schema documents.
#[derive(Debug)]
pub struct DumpPack {
    pub root_dir: std::path::PathBuf,
    pub info: DumpInfo,
    pub offsets: JsonValue,
    pub schema: JsonValue,
}

/// Which of the two pack locations a pack was loaded from.
#[derive(Clone, Copy, Debug, PartialEq, Eq, Structural)]
pub enum DumpSource {
    User,
    Embedded,
}

/// The pack a run uses, where it came from, and the mismatches noticed on the way.
#[derive(Debug)]
pub struct ActiveDump {
    pub source: DumpSource,
    pub pack: DumpPack,
    pub warnings: Vec<String>,
}

/// Why no pack could be used.
#[derive(Debug)]
#[allow(inconsistent_fields)]
pub enum DumpError {
    MissingFile(String),
    InvalidJson { path: String, source: serde_json::Error },
    Io { path: String, source: std::io::Error },
    NoUsableDump,
}

/// The files of a pack in `dir`: its info, offsets and schema documents, in
/// the order they are checked and read.
pub open spec fn spec_pack_files(dir: std::path::PathBuf) -> Seq<std::path::PathBuf> {
    seq![joined(dir, "info.json"@), joined(dir, "offsets.json"@), joined(dir, "client_dll.json"@)]
}

/// The files of a pack in `dir`, in the order they are checked and read.
pub fn pack_files(dir: &std::path::PathBuf) -> (files: Vec<std::path::PathBuf>)
    ensures
        files@ == spec_pack_files(*dir),
{
    let files = vec![join(dir, "info.json"), join(dir, "offsets.json"), join(dir, "client_dll.json")];
    assert(files@ =~= spec_pack_files(*dir));
    files
}

/// The error for a pack file that does not exist, naming it.
pub fn missing_file(path: &std::path::PathBuf) -> (e: DumpError)
    ensures
        e matches DumpError::MissingFile(p) && p@ == shown(*path),
{
    DumpError::MissingFile(display_text(path))
}

/// Whether `r` is what reading the JSON text of the file `path` gives: the
/// document, or an invalid-JSON error naming the file.
pub open spec fn is_document_of(r: Result<JsonValue, DumpError>, path: std::path::PathBuf, text: Seq<char>) -> bool {
    match parsed_json(text) {
        Some(j) => r matches Ok(v) && v@ == j,
        None => r matches Err(DumpError::InvalidJson { path: p, .. }) && p@ == shown(path),
    }
}

/// Reads the JSON text of the pack file `path`.
pub fn json_document(path: &std::path::PathBuf, text: &str) -> (r: Result<JsonValue, DumpError>)
    ensures
        is_document_of(r, *path, text@),
{
    match parse_json(text) {
        Ok(v) => Ok(v),
        Err(source) => Err(DumpError::InvalidJson { path: display_text(path), source }),
    }
}

/// Whether `pack` is the pack in `root_dir` with the given documents.
pub open spec fn is_pack_of(pack: DumpPack, root_dir: std::path::PathBuf, info: Json, offsets: Json, schema: Json) -> bool {
    &&& pack.root_dir == root_dir
    &&& is_info_of(pack.info, info)
    &&& pack.offsets@ == offsets
    &&& pack.schema@ == schema
}

/// The pack in `root_dir` with the given documents, its info read from the
/// first one.
pub fn pack_from_parts(
    root_dir: std::path::PathBuf,
    info_document: JsonValue,
    offsets: JsonValue,
    schema: JsonValue,
) -> (pack: DumpPack)
    ensures
        is_pack_of(pack, root_dir, info_document@, offsets@, schema@),
{
    let info = parse_info(&info_document);
    DumpPack { root_dir, info, offsets, schema }
}

/// Whether `r` is the pack in `root_dir` whose three files hold the given
/// texts: the pack when all three are JSON, else an invalid-JSON error
/// naming the first file that is not.
pub open spec fn is_pack_from_texts(
    r: Result<DumpPack, DumpError>,
    root_dir: std::path::PathBuf,
    info_text: Seq<char>,
    offsets_text: Seq<char>,
    schema_text: Seq<char>,
) -> bool {
    let files = spec_pack_files(root_dir);
    match (parsed_json(info_text), parsed_json(offsets_text), parsed_json(schema_text)) {
        (Some(i), Some(o), Some(s)) => r matches Ok(pack) && is_pack_of(pack, root_dir, i, o, s),
        _ => r matches Err(DumpError::InvalidJson { path: p, .. }) && p@ == shown(
            if parsed_json(info_text) is None {
                files[0]
            } else if parsed_json(offsets_text) is None {
                files[1]
            } else {
                files[2]
            },
        ),
    }
}

/// Builds the pack in `root_dir` from the texts of its info, offsets and
/// schema files.
pub fn pack_from_documents(
    root_dir: std::path::PathBuf,
    info_text: &str,
    offsets_text: &str,
    schema_text: &str,
) -> (r: Result<DumpPack, DumpError>)
    ensures
        is_pack_from_texts(r, root_dir, info_text@, offsets_text@, schema_text@),
{
    let files = pack_files(&root_dir);
    let info = match json_document(&files[0], info_text) {
        Ok(v) => v,
        Err(e) => {
            return Err(e);
        },
    };
    let offsets = match json_document(&files[1], offsets_text) {
        Ok(v) => v,
        Err(e) => {
            return Err(e);
        },
    };
    let schema = match json_document(&files[2], schema_text) {
        Ok(v) => v,
        Err(e) => {
            return Err(e);
        },
    };
    Ok(pack_from_parts(root_dir, info, offsets, schema))
}

/// Whether a pack made for `build` suits a run that expects `expected`: any
/// pack suits when nothing is expected, else only an exact match.
pub open spec fn build_accepted(build: Option<u32>, expected: Option<u32>) -> bool {
    match expected {
        Some(b) => build == Some(b),
        None => true,
    }
}

/// The warning recorded when the pack at `label` was made for another build.
pub open spec fn mismatch_warning(label: Seq<char>, expected: Option<u32>, got: Option<u32>) -> Seq<char> {
    label + " dump build mismatch: expected "@ + debug_option_u32(expected) + ", got "@
        + debug_option_u32(got)
}

/// Whether `r` is the outcome of choosing between the user pack and the
/// embedded pack for a run that expects `expected`: the user pack when it
/// suits, else the embedded pack when it suits (with a warning if the user
/// pack was passed over), else no usable pack.
pub open spec fn is_resolution(
    user: Option<DumpPack>,
    embedded: Option<DumpPack>,
    expected: Option<u32>,
    r: Result<ActiveDump, DumpError>,
) -> bool {
    if user is Some && build_accepted(user->0.info.build_number, expected) {
        &&& r is Ok
        &&& r->Ok_0.source == DumpSource::User
        &&& r->Ok_0.pack == user->0
        &&& r->Ok_0.warnings@.len() == 0
    } else if embedded is Some && build_accepted(embedded->0.info.build_number, expected) {
        &&& r is Ok
        &&& r->Ok_0.source == DumpSource::Embedded
        &&& r->Ok_0.pack == embedded->0
        &&& if user is Some {
            &&& r->Ok_0.warnings@.len() == 1
            &&& r->Ok_0.warnings@[0]@ == mismatch_warning("user"@, expected, user->0.info.build_number)
        } else {
            r->Ok_0.warnings@.len() == 0
        }
    } else {
        r matches Err(DumpError::NoUsableDump)
    }
}

/// Whether a pack made for `build` suits a run that expects `expected`.
fn accepts(build: Option<u32>, expected: Option<u32>) -> (ok: bool)
    ensures
        ok == build_accepted(build, expected),
{
    match expected {
        Some(b) => match build {
            Some(n) => n == b,
            None => false,
        },
        None => true,
    }
}

/// The warning for a pack at `label` made for another build.
fn mismatch(label: &str, expected: Option<u32>, got: Option<u32>) -> (w: String)
    ensures
        w@ == mismatch_warning(label@, expected, got),
{
    let mut w = String::from_str(label);
    w.append(" dump build mismatch: expected ");
    let e = option_u32_debug(expected);
    w.append(e.as_str());
    w.append(", got ");
    let g = option_u32_debug(got);
    w.append(g.as_str());
    w
}

/// Chooses the pack a run uses: the user pack first, then the embedded one,
/// each only when it was made for the expected build (or none is expected).
pub fn resolve_active_dump(
    user_pack: Option<DumpPack>,
    embedded_pack: Option<DumpPack>,
    expected_build_number: Option<u32>,
) -> (r: Result<ActiveDump, DumpError>)
    ensures
        is_resolution(user_pack, embedded_pack, expected_build_number, r),
{
    let mut warnings: Vec<String> = Vec::new();
    match user_pack {
        Some(pack) => {
            if accepts(pack.info.build_number, expected_build_number) {
                return Ok(ActiveDump { source: DumpSource::User, pack, warnings });
            }
            let w = mismatch("user", expected_build_number, pack.info.build_number);
            warnings.push(w);
        },
        None => {},
    }
    match embedded_pack {
        Some(pack) => {
            if accepts(pack.info.build_number, expected_build_number) || expected_build_number.is_none() {
                return Ok(ActiveDump { source: DumpSource::Embedded, pack, warnings });
            }
            let w = mismatch("embedded", expected_build_number, pack.info.build_number);
            warnings.push(w);
        },
        None => {},
    }
    Err(DumpError::NoUsableDump)
}


/// Whether one of the loaded packs suits the expected build.
pub open spec fn some_pack_suits(user: Option<DumpPack>, embedded: Option<DumpPack>, expected: Option<u32>) -> bool {
    ||| user is Some && build_accepted(user->0.info.build_number, expected)
    ||| embedded is Some && build_accepted(embedded->0.info.build_number, expected)
}

/// Chooses the pack a run uses, asking first for one made for the expected
/// build and, when none suits it, for any pack.
pub fn resolve_active_dump_or_any(
    user_pack: Option<DumpPack>,
    embedded_pack: Option<DumpPack>,
    expected_build_number: Option<u32>,
) -> (r: Result<ActiveDump, DumpError>)
    ensures
        if some_pack_suits(user_pack, embedded_pack, expected_build_number) {
            is_resolution(user_pack, embedded_pack, expected_build_number, r)
        } else {
            is_resolution(user_pack, embedded_pack, None, r)
        },
{
    let user_suits = match &user_pack {
        Some(p) => accepts(p.info.build_number, expected_build_number),
        None => false,
    };
    let embedded_suits = match &embedded_pack {
        Some(p) => accepts(p.info.build_number, expected_build_number),
        None => false,
    };
    if user_suits || embedded_suits {
        resolve_active_dump(user_pack, embedded_pack, expected_build_number)
    } else {
        resolve_active_dump(user_pack, embedded_pack, None)
    }
}

/// A run first asks for a pack made for the build it expects and, failing
/// that, for any pack: together the two requests succeed exactly when at
/// least one pack could be loaded, and the second one never fails then.
pub proof fn law_fallback_finds_any_loaded_pack(
    user: Option<DumpPack>,
    embedded: Option<DumpPack>,
    expected: Option<u32>,
    first: Result<ActiveDump, DumpError>,
    second: Result<ActiveDump, DumpError>,
)
    requires
        is_resolution(user, embedded, expected, first),
        is_resolution(user, embedded, None, second),
    ensures
        (first is Ok || second is Ok) <==> (user is Some || embedded is Some),
        (user is Some || embedded is Some) ==> second is Ok,
{
}

/// Without an expected build the user pack, when present, is always chosen,
/// and no warning is recorded.
pub proof fn law_user_pack_first(
    user: Option<DumpPack>,
    embedded: Option<DumpPack>,
    r: Result<ActiveDump, DumpError>,
)
    requires
        is_resolution(user, embedded, None, r),
        user is Some,
    ensures
        r is Ok,
        r->Ok_0.source == DumpSource::User,
        r->Ok_0.warnings@.len() == 0,
{
}

/// The embedded pack stands in when the user pack is missing or could not
/// be loaded, whenever it suits the expected build.
pub proof fn law_embedded_pack_is_fallback(
    embedded: Option<DumpPack>,
    expected: Option<u32>,
    r: Result<ActiveDump, DumpError>,
)
    requires
        is_resolution(None, embedded, expected, r),
        embedded is Some,
        build_accepted(embedded->0.info.build_number, expected),
    ensures
        r is Ok,
        r->Ok_0.source == DumpSource::Embedded,
        r->Ok_0.warnings@.len() == 0,
{
}

/// A pack is only ever chosen when it suits the expected build.
pub proof fn law_chosen_pack_suits(
    user: Option<DumpPack>,
    embedded: Option<DumpPack>,
    expected: Option<u32>,
    r: Result<ActiveDump, DumpError>,
)
    requires
        is_resolution(user, embedded, expected, r),
        r is Ok,
    ensures
        build_accepted(r->Ok_0.pack.info.build_number, expected),
{
}

/// The user pack is chosen whenever it is present and made for the expected
/// build (or no build is expected), whatever the embedded pack holds: the
/// result is the user pack itself, with no warning.
pub proof fn law_suiting_user_pack_is_chosen(
    user: Option<DumpPack>,
    embedded: Option<DumpPack>,
    expected: Option<u32>,
    r: Result<ActiveDump, DumpError>,
)
    requires
        is_resolution(user, embedded, expected, r),
        user is Some,
        expected is None || user->0.info.build_number == expected,
    ensures
        r is Ok,
        r->Ok_0.source == DumpSource::User,
        r->Ok_0.pack == user->0,
        r->Ok_0.warnings@.len() == 0,
{
}

/// A user pack made for another build than the expected one is passed over
/// for an embedded pack made for it, with one warning; when neither pack is
/// made for the expected build, no pack is usable.
pub proof fn law_mismatched_packs_are_passed_over(
    user: Option<DumpPack>,
    embedded: Option<DumpPack>,
    expected: u32,
    r: Result<ActiveDump, DumpError>,
)
    requires
        is_resolution(user, embedded, Some(expected), r),
        user is Some ==> user->0.info.build_number != Some(expected),
    ensures
        embedded is Some && embedded->0.info.build_number == Some(expected) ==> {
            &&& r is Ok
            &&& r->Ok_0.source == DumpSource::Embedded
            &&& r->Ok_0.pack == embedded->0
            &&& r->Ok_0.warnings@.len() == if user is Some {
                1int
            } else {
                0int
            }
        },
        !(embedded is Some && embedded->0.info.build_number == Some(expected)) ==> r matches Err(
            DumpError::NoUsableDump,
        ),
{
}

/// The info document is read by its members: `source` (else `unknown`);
/// `build_number`, else `buildNumber`, a non-negative integer kept only when
/// it fits in 32 bits; `generated_at`, else `generatedAt`; `dumper_version`,
/// else `dumperVersion`, each a string.
pub proof fn law_info_members(info: DumpInfo, v: Json)
    requires
        is_info_of(info, v),
    ensures
        v.get("source"@) matches Some(Json::Str(t)) ==> info.source@ == t,
        !(v.get("source"@) matches Some(Json::Str(_))) ==> info.source@ == "unknown"@,
        v.get("build_number"@) matches Some(Json::Number(JsonNumber::PosInt(n))) ==> info.build_number == if n
            <= 0xffff_ffff {
            Some(n as u32)
        } else {
            None
        },
        !(v.get("build_number"@) matches Some(Json::Number(JsonNumber::PosInt(_)))) ==> info.build_number == match v.get(
            "buildNumber"@,
        ) {
            Some(Json::Number(JsonNumber::PosInt(n))) => if n <= 0xffff_ffff {
                Some(n as u32)
            } else {
                None
            },
            _ => None,
        },
        v.get("generated_at"@) matches Some(Json::Str(t)) ==> text_of(info.generated_at) == Some(t),
        !(v.get("generated_at"@) matches Some(Json::Str(_))) ==> text_of(info.generated_at) == match v.get(
            "generatedAt"@,
        ) {
            Some(Json::Str(t)) => Some(t),
            _ => None,
        },
        v.get("dumper_version"@) matches Some(Json::Str(t)) ==> text_of(info.dumper_version) == Some(t),
        !(v.get("dumper_version"@) matches Some(Json::Str(_))) ==> text_of(info.dumper_version) == match v.get(
            "dumperVersion"@,
        ) {
            Some(Json::Str(t)) => Some(t),
            _ => None,
        },
{
}

/// The warning recorded when the user pack is passed over reads `user dump
/// build mismatch: expected Some(<n>), got <build>`, the build written
/// `Some(<m>)` or `None`.
pub proof fn law_mismatch_warning_text(
    user: Option<DumpPack>,
    embedded: Option<DumpPack>,
    expected: u32,
    r: Result<ActiveDump, DumpError>,
)
    requires
        is_resolution(user, embedded, Some(expected), r),
        user is Some,
        user->0.info.build_number != Some(expected),
        embedded is Some,
        embedded->0.info.build_number == Some(expected),
    ensures
        r is Ok,
        r->Ok_0.warnings@.len() == 1,
        r->Ok_0.warnings@[0]@ == "user dump build mismatch: expected Some("@ + decimal(expected as nat) + "), got "@
            + match user->0.info.build_number {
            Some(m) => "Some("@ + decimal(m as nat) + ")"@,
            None => "None"@,
        },
{
    let w = r->Ok_0.warnings@[0]@;
    let got = match user->0.info.build_number {
        Some(m) => "Some("@ + decimal(m as nat) + ")"@,
        None => "None"@,
    };
    assert(w =~= "user dump build mismatch: expected Some("@ + decimal(expected as nat) + "), got "@ + got) by {
        reveal_strlit("user");
        reveal_strlit(" dump build mismatch: expected ");
        reveal_strlit("user dump build mismatch: expected Some(");
        reveal_strlit("Some(");
        reveal_strlit(")");
        reveal_strlit("), got ");
        reveal_strlit(", got ");
    }
}

/// The user pack lies in the override directory when one is set; else in
/// `dumps/active` below the application's directory under the platform's
/// local data directory (or `.`).
pub proof fn law_user_pack_location(config: DumpRuntimeConfig, local_data: Option<std::path::PathBuf>)
    ensures
        config.user_override_dir is Some ==> spec_user_dump_dir(config, local_data) == config.user_override_dir->0,
        config.user_override_dir is None && local_data is Some ==> spec_user_dump_dir(config, local_data) == joined(
            joined(joined(local_data->0, config.app_id@), "dumps"@),
            "active"@,
        ),
        config.user_override_dir is None && local_data is None ==> spec_user_dump_dir(config, local_data) == joined(
            joined(joined(path_from_text("."@), config.app_id@), "dumps"@),
            "active"@,
        ),
{
}

} // verus!