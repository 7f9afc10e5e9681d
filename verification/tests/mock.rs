use cs2_webradar_extreme::contracts::{EngineStatus, ThreatBand};
use cs2_webradar_extreme::dump_runtime::{ActiveDump, DumpInfo, DumpPack, DumpSource};
use cs2_webradar_extreme::engine::{Engine, EngineConfig, FrameThreats, PlayerThreat};
use cs2_webradar_extreme::json::JsonValue;
use cs2_webradar_extreme::clock::{millis_to_timestamp, now_ms};
use cs2_webradar_extreme::contracts::{BombStatus, GrenadeKind, Team, Vec2};
use cs2_webradar_extreme::mock::{MockPositions, MockProvider};

fn positions() -> MockPositions {
    MockPositions {
        players: (0..10).map(|i| Vec2 { x_bits: i, y_bits: 100 + i }).collect(),
        grenade: Vec2 { x_bits: 7, y_bits: 8 },
    }
}

#[test]
fn mock_frames_follow_the_script() {
    let mut provider = MockProvider::new();
    assert_eq!(provider.current_build_number(), Some(15000));
    assert_eq!(provider.next_tick(), Some(1));
    let frame = provider.poll_frame_with(&positions()).expect("frame");
    assert_eq!(frame.tick, 1);
    assert_eq!(provider.next_tick(), Some(2));
    assert_eq!(frame.match_state.map_name, "de_dust2");
    assert_eq!(frame.match_state.phase, "live");
    assert_eq!(frame.players.len(), 10);
    for (i, p) in frame.players.iter().enumerate() {
        assert_eq!(p.entity_id, i as u32 + 1);
        assert_eq!(p.steam_name, format!("Player{}", i + 1));
        assert_eq!(p.team, if i < 5 { Team::CounterTerrorists } else { Team::Terrorists });
        assert!((55..=100).contains(&p.health));
        assert!(p.armor <= 100 && p.money <= 8500);
        assert!((8..=70).contains(&p.ping_ms));
        assert!(p.staleness_ms <= 90);
        assert_eq!(p.is_local, i == 0);
        assert_eq!(p.has_bomb, i == 7);
        assert_eq!(p.position.x_bits, i as u32);
    }
    assert_eq!(frame.players[0].weapon.as_deref(), Some("weapon_ak47"));
    assert_eq!(frame.players[2].weapon.as_deref(), Some("weapon_awp"));
    assert_eq!(frame.players[1].weapon.as_deref(), Some("weapon_m4a1"));
    let bomb = frame.bomb.expect("bomb");
    assert_eq!(bomb.status, BombStatus::Carried);
    assert_eq!(frame.grenades[0].entity_id, 1001);
    assert_eq!(frame.grenades[0].kind, GrenadeKind::Flash);
    assert!((300..2600).contains(&frame.grenades[0].remaining_ms));
    assert_eq!(frame.dropped_weapons[0].entity_id, 2000);
    assert_eq!(f32::from_bits(frame.dropped_weapons[0].position.x_bits), 100.0);
    assert_eq!(f32::from_bits(frame.dropped_weapons[0].position.y_bits), 60.0);
}

#[test]
fn mock_bomb_is_planted_in_second_half() {
    let mut provider = MockProvider::new();
    let mut frame = None;
    for _ in 0..150 {
        frame = provider.poll_frame_with(&positions());
    }
    let frame = frame.expect("frame");
    assert_eq!(frame.tick, 150);
    let bomb = frame.bomb.expect("bomb");
    assert_eq!(bomb.status, BombStatus::Planted);
    assert_eq!(bomb.site.as_deref(), Some("A"));
    assert_eq!(bomb.timer_remaining_ms, Some(22000));
    assert_eq!(bomb.defuse_remaining_ms, Some(9500));
    let position = bomb.position.expect("position");
    assert_eq!((f32::from_bits(position.x_bits), f32::from_bits(position.y_bits)), (20.0, -40.0));
    assert_eq!(frame.match_state.round, 0);
    assert_eq!(frame.grenades[0].kind, GrenadeKind::Smoke);
}

#[test]
fn mock_ticks_beyond_limits_are_refused() {
    assert!(MockProvider::tick_is_supported(1));
    assert!(MockProvider::tick_is_supported(76_861_433_640_456_399));
    assert!(!MockProvider::tick_is_supported(76_861_433_640_456_599));
    assert!(!MockProvider::tick_is_supported(u64::MAX / 2 + 100));
    assert!(!MockProvider::tick_is_supported(4_294_966_296));
}

#[test]
fn timestamps_truncate_to_64_bits() {
    assert_eq!(millis_to_timestamp(None), 0);
    assert_eq!(millis_to_timestamp(Some(1_700_000_000_000)), 1_700_000_000_000);
    assert_eq!(millis_to_timestamp(Some((1u128 << 64) + 5)), 5);
    assert!(now_ms() > 1_600_000_000_000);
}

#[test]
fn mock_frames_are_usable_by_the_engine() {
    let dump = ActiveDump {
        source: DumpSource::User,
        pack: DumpPack {
            root_dir: std::path::PathBuf::from("."),
            info: DumpInfo { source: "user".to_string(), build_number: None, generated_at: None, dumper_version: None },
            offsets: JsonValue::Null,
            schema: JsonValue::Null,
        },
        warnings: Vec::new(),
    };
    let mut engine = Engine::new(EngineConfig::default(), dump);
    let mut provider = MockProvider::default();
    let frame = provider.poll_frame_with(&positions()).expect("frame");
    assert_eq!(frame.local_origin().x_bits, frame.players[0].position.x_bits);
    let threats = FrameThreats {
        players: vec![PlayerThreat { score_bits: 0, band: ThreatBand::Low }; 10],
        bomb: None,
    };
    let snapshot = engine.next_snapshot(Some(frame), &threats);
    assert_eq!(snapshot.diagnostics.engine_status, EngineStatus::Healthy);
    assert_eq!(snapshot.diagnostics.offset_source, "user");
    assert_eq!(snapshot.players.len(), 10);
    assert_eq!(snapshot.players[9].steam_name, "Player10");
}

#[test]
fn mock_bomb_timer_stops_at_zero() {
    let mut provider = MockProvider::new();
    let mut last = None;
    for _ in 0..334 {
        last = provider.poll_frame_with(&positions());
    }
    let frame = last.expect("frame");
    assert_eq!(frame.tick, 334);
    assert_eq!(frame.match_state.round, 1);
    let bomb = frame.bomb.expect("bomb");
    assert_eq!(bomb.status, BombStatus::Planted);
    assert_eq!(bomb.site.as_deref(), Some("A"));
    assert_eq!(bomb.timer_remaining_ms, Some(0));
}
