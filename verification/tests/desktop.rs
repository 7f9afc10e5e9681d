use cs2_webradar_extreme::contracts::{
    EngineStatus, MatchState, RadarSnapshot, SnapshotDiagnostics, Team, PROTOCOL_VERSION,
};
use cs2_webradar_extreme::desktop::{
    asset_reply, asset_target, browser_url, candidate_ports, content_type_for_path,
    engine_config_for_rate, envelope_for, extension, fallback_browser_page, request_path,
    route_request, sanitize_request_path, snapshot_summary, tick_interval_ms, tick_limit_reached,
    AssetReply, PathStyle, RequestRoute, DEFAULT_UI_PORT, DEFAULT_UI_PORT_FALLBACK_SPAN,
};
use cs2_webradar_extreme::desktop::{
    bind_failure_message, bind_retry_warning, fallback_port_warning, embedded_dump_dir, manifest_join, run_dump_config, run_start, Notice, RunArgs, RunStart, UiMode,
};
use std::path::PathBuf;

fn parts(v: &[&str]) -> Vec<String> {
    v.iter().map(|s| s.to_string()).collect()
}

#[test]
fn sanitize_keeps_named_components() {
    assert_eq!(sanitize_request_path("/", PathStyle::Unix), Some(vec![]));
    assert_eq!(sanitize_request_path("", PathStyle::Unix), Some(vec![]));
    assert_eq!(sanitize_request_path("///a/./b//c/", PathStyle::Unix), Some(parts(&["a", "b", "c"])));
    assert_eq!(sanitize_request_path("./assets/app.js", PathStyle::Unix), Some(parts(&["assets", "app.js"])));
    assert_eq!(sanitize_request_path("/a/..b/...", PathStyle::Unix), Some(parts(&["a", "..b", "..."])));
}

#[test]
fn sanitize_refuses_climbing_paths() {
    assert_eq!(sanitize_request_path("/../etc/passwd", PathStyle::Unix), None);
    assert_eq!(sanitize_request_path("/assets/../../x", PathStyle::Unix), None);
    assert_eq!(sanitize_request_path("..", PathStyle::Unix), None);
}

#[test]
fn windows_paths_split_on_both_separators() {
    assert_eq!(
        sanitize_request_path("/assets\\img/./logo.png", PathStyle::Windows),
        Some(parts(&["assets", "img", "logo.png"]))
    );
    assert_eq!(sanitize_request_path("/a\\..\\b", PathStyle::Windows), None);
    assert_eq!(sanitize_request_path("/\\server\\share", PathStyle::Windows), None);
    assert_eq!(sanitize_request_path("//C:/Windows", PathStyle::Windows), None);
    assert_eq!(sanitize_request_path("/a\\..\\b", PathStyle::Unix), Some(parts(&["a\\..\\b"])));
    assert_eq!(sanitize_request_path("/C:/x", PathStyle::Unix), Some(parts(&["C:", "x"])));
}

#[test]
fn request_path_drops_query() {
    assert_eq!(request_path("/index.html?v=2?x"), "/index.html");
    assert_eq!(request_path("?only"), "");
    assert_eq!(request_path("/plain"), "/plain");
}

fn canned(route: RequestRoute) -> (u16, String, String) {
    match route {
        RequestRoute::Canned(c) => (c.status, c.body, c.content_type),
        RequestRoute::Asset(p) => panic!("unexpected asset {p:?}"),
    }
}

#[test]
fn routes_requests_like_the_ui_server() {
    assert_eq!(
        canned(route_request(false, "/", true, PathStyle::Unix)),
        (405, "Method Not Allowed".to_string(), "text/plain; charset=utf-8".to_string())
    );
    assert_eq!(
        canned(route_request(true, "/../secret", true, PathStyle::Unix)),
        (400, "Bad Request".to_string(), "text/plain; charset=utf-8".to_string())
    );
    assert_eq!(
        canned(route_request(true, "/radar?x=1", false, PathStyle::Unix)),
        (200, fallback_browser_page(), "text/html; charset=utf-8".to_string())
    );
    match route_request(true, "/assets/app.js?v=3", true, PathStyle::Unix) {
        RequestRoute::Asset(p) => assert_eq!(p, parts(&["assets", "app.js"])),
        other => panic!("unexpected {other:?}"),
    }
}

#[test]
fn fallback_page_mentions_build_command() {
    let page = fallback_browser_page();
    assert!(page.starts_with("<!doctype html>"));
    assert!(page.contains("npm --prefix ./ui run build"));
    assert!(page.contains("CS2_WEBRADAR_UI_DIST"));
}

#[test]
fn extensions_follow_path_rules() {
    assert_eq!(extension("app.js").as_deref(), Some("js"));
    assert_eq!(extension("archive.tar.gz").as_deref(), Some("gz"));
    assert_eq!(extension(".hidden"), None);
    assert_eq!(extension("README"), None);
    assert_eq!(extension("trailing."), Some(String::new()));
    assert_eq!(extension(".."), None);
    assert_eq!(extension("..x").as_deref(), Some("x"));
}

#[test]
fn content_types_follow_extension() {
    assert_eq!(content_type_for_path("index.html"), "text/html; charset=utf-8");
    assert_eq!(content_type_for_path("style.css"), "text/css; charset=utf-8");
    assert_eq!(content_type_for_path("app.js"), "text/javascript; charset=utf-8");
    assert_eq!(content_type_for_path("data.json"), "application/json; charset=utf-8");
    assert_eq!(content_type_for_path("logo.svg"), "image/svg+xml");
    assert_eq!(content_type_for_path("a.png"), "image/png");
    assert_eq!(content_type_for_path("a.jpg"), "image/jpeg");
    assert_eq!(content_type_for_path("a.jpeg"), "image/jpeg");
    assert_eq!(content_type_for_path("favicon.ico"), "image/x-icon");
    assert_eq!(content_type_for_path("f.woff"), "font/woff");
    assert_eq!(content_type_for_path("f.woff2"), "font/woff2");
    assert_eq!(content_type_for_path("INDEX.HTML"), "application/octet-stream");
    assert_eq!(content_type_for_path(".html"), "application/octet-stream");
    assert_eq!(content_type_for_path("Makefile"), "application/octet-stream");
}

#[test]
fn asset_requests_fall_back_to_index() {
    assert_eq!(asset_target(&vec![], false), parts(&["index.html"]));
    assert_eq!(asset_target(&parts(&["docs"]), true), parts(&["docs", "index.html"]));

    match asset_reply(&parts(&["assets", "app.js"]), false, true, true) {
        AssetReply::File { path, content_type } => {
            assert_eq!(path, parts(&["assets", "app.js"]));
            assert_eq!(content_type, "text/javascript; charset=utf-8");
        }
        other => panic!("unexpected {other:?}"),
    }
    match asset_reply(&parts(&["docs"]), true, true, true) {
        AssetReply::File { path, content_type } => {
            assert_eq!(path, parts(&["docs", "index.html"]));
            assert_eq!(content_type, "text/html; charset=utf-8");
        }
        other => panic!("unexpected {other:?}"),
    }
    assert!(matches!(asset_reply(&parts(&["radar"]), false, false, true), AssetReply::Index));
    assert!(matches!(asset_reply(&vec![], false, false, true), AssetReply::Index));
    assert!(matches!(asset_reply(&parts(&["radar"]), false, false, false), AssetReply::NotFound));
    assert!(matches!(asset_reply(&parts(&["missing.png"]), false, false, true), AssetReply::NotFound));
}

#[test]
fn default_port_range_is_4173_to_4183() {
    let ports = candidate_ports(DEFAULT_UI_PORT, DEFAULT_UI_PORT_FALLBACK_SPAN);
    assert_eq!(ports, (4173..=4183).collect::<Vec<u16>>());
    assert_eq!(candidate_ports(65530, 10), (65530..=65535).collect::<Vec<u16>>());
    assert_eq!(candidate_ports(80, 0), vec![80]);
    assert_eq!(candidate_ports(65535, 3), vec![65535]);
}

#[test]
fn tick_interval_is_paced_by_rate() {
    assert_eq!(tick_interval_ms(25), 40);
    assert_eq!(tick_interval_ms(0), 1000);
    assert_eq!(tick_interval_ms(1), 1000);
    assert_eq!(tick_interval_ms(3), 333);
    assert_eq!(tick_interval_ms(2000), 1);
    let config = engine_config_for_rate(25);
    assert_eq!(config.tick_interval_ms, 40);
    assert_eq!(config.interpolation_window_ms, 100);
    assert_eq!(config.invalid_frame_threshold, 8);
}

#[test]
fn browser_url_names_localhost_port() {
    assert_eq!(browser_url(4173), "http://127.0.0.1:4173");
    assert_eq!(browser_url(0), "http://127.0.0.1:0");
}

fn snapshot(tick: u64, map: &str) -> RadarSnapshot {
    RadarSnapshot {
        protocol_version: PROTOCOL_VERSION,
        timestamp_ms: 5,
        tick,
        interpolation_window_ms: 100,
        match_state: MatchState {
            map_name: map.to_string(),
            round: 1,
            phase: "live".to_string(),
            score_t: 0,
            score_ct: 0,
            local_team: Team::Terrorists,
        },
        players: Vec::new(),
        bomb: None,
        grenades: Vec::new(),
        dropped_weapons: Vec::new(),
        diagnostics: SnapshotDiagnostics {
            engine_status: EngineStatus::Healthy,
            offset_source: "user".to_string(),
            build_number: None,
            tick_interval_ms: 40,
            stale_entities: 0,
        },
    }
}

#[test]
fn summary_line_lists_tick_map_players_bomb() {
    assert_eq!(snapshot_summary(&snapshot(1234567, "de_dust2")), "tick=1234567 map=de_dust2 players=0 bomb=false");
}

#[test]
fn stream_stops_at_tick_limit() {
    assert!(!tick_limit_reached(5, None));
    assert!(!tick_limit_reached(4, Some(5)));
    assert!(tick_limit_reached(5, Some(5)));
    assert!(tick_limit_reached(0, Some(0)));
}

#[test]
fn envelope_carries_protocol_version() {
    let e = envelope_for(snapshot(3, "de_nuke"), 99);
    assert_eq!(e.protocol_version, PROTOCOL_VERSION);
    assert_eq!(e.emitted_at_ms, 99);
    assert_eq!(e.snapshot.tick, 3);
}

#[test]
fn match_states_compare_by_fields() {
    let a = snapshot(1, "de_dust2").match_state;
    let mut b = a.clone();
    assert_eq!(a, b);
    b.phase = "warmup".to_string();
    assert_ne!(a, b);
    let d = snapshot(1, "de_dust2").diagnostics;
    let mut e = d.clone();
    assert_eq!(d, e);
    e.stale_entities = 3;
    assert_ne!(d, e);
}

#[test]
fn manifest_paths_are_joined_below_the_manifest() {
    assert_eq!(manifest_join("/srv/app", "../../../ui/dist"), PathBuf::from("/srv/app/../../../ui/dist"));
    assert_eq!(embedded_dump_dir("/srv/app"), PathBuf::from("/srv/app/../../../data/dumps/embedded"));
}

#[test]
fn run_dump_config_uses_app_id_and_bundled_pack() {
    let config = run_dump_config("/srv/app");
    assert_eq!(config.app_id, "cs2_webradar_extreme");
    assert_eq!(config.embedded_dir, PathBuf::from("/srv/app/../../../data/dumps/embedded"));
    assert!(config.user_override_dir.is_none());
}

#[test]
fn run_args_defaults() {
    let args = RunArgs::default();
    assert_eq!(args.rate_hz, 25);
    assert!(!args.overlay && !args.click_through && !args.stream_json);
    assert_eq!(args.max_ticks, None);
    assert_eq!(args.ui_mode, UiMode::Desktop);
    assert_eq!(args.ui_port, 4173);
    assert_eq!(args.ui_port_fallback_span, 10);
    assert!(args.open_browser);
}

fn notice_texts(start: &RunStart) -> Vec<(bool, String)> {
    start
        .notices
        .iter()
        .map(|n| match n {
            Notice::Info(t) => (false, t.clone()),
            Notice::Warn(t) => (true, t.clone()),
        })
        .collect()
}

#[test]
fn browser_runs_host_the_ui_and_ignore_overlay_flags() {
    let mut args = RunArgs::default();
    args.ui_mode = UiMode::Browser;
    let quiet = run_start(&args, true);
    assert!(quiet.host_browser);
    assert!(quiet.notices.is_empty());

    args.click_through = true;
    let start = run_start(&args, true);
    assert!(start.host_browser);
    assert_eq!(
        notice_texts(&start),
        vec![(true, "overlay flags are ignored when --ui-mode browser is selected".to_string())]
    );
}

#[test]
fn desktop_runs_report_the_overlay() {
    let mut args = RunArgs::default();
    let plain = run_start(&args, false);
    assert!(!plain.host_browser);
    assert!(plain.notices.is_empty());

    args.overlay = true;
    args.click_through = true;
    let supported = run_start(&args, true);
    assert!(!supported.host_browser);
    assert_eq!(notice_texts(&supported), vec![(false, "overlay mode enabled (click-through: true)".to_string())]);

    args.click_through = false;
    let no_click = run_start(&args, true);
    assert_eq!(notice_texts(&no_click), vec![(false, "overlay mode enabled (click-through: false)".to_string())]);

    let unsupported = run_start(&args, false);
    assert!(!unsupported.host_browser);
    assert_eq!(
        notice_texts(&unsupported),
        vec![(true, "overlay mode requested on unsupported platform, running in desktop mode".to_string())]
    );
}

#[test]
fn port_binding_messages() {
    assert_eq!(bind_retry_warning(4173), "unable to bind UI server on 127.0.0.1:4173, trying next fallback port");
    assert_eq!(fallback_port_warning(4173, 4173), None);
    assert_eq!(
        fallback_port_warning(4173, 4175).as_deref(),
        Some("default UI port 4173 was unavailable; using fallback port 4175")
    );
    assert_eq!(
        bind_failure_message(4173, 10, Some("address in use".to_string())),
        "unable to bind localhost UI server in range 4173-4183 (address in use)"
    );
    assert_eq!(
        bind_failure_message(65530, 10, None),
        "unable to bind localhost UI server in range 65530-65535 (unknown error)"
    );
}

#[test]
fn sanitizing_a_sanitized_path_gives_it_back() {
    for raw in ["/assets/./js//app.js", "./a/b/", "/", "x"] {
        let parts = sanitize_request_path(raw, PathStyle::Unix).expect("sanitized");
        assert_eq!(sanitize_request_path(&parts.join("/"), PathStyle::Unix), Some(parts.clone()));
        assert_eq!(sanitize_request_path(&parts.join("/"), PathStyle::Windows), Some(parts));
    }
}
