use std::path::PathBuf;

use cs2_webradar_extreme::contracts::{
    BombStatus, EngineStatus, SurvivalBand, Team, ThreatBand, Vec2, PROTOCOL_VERSION,
};
use cs2_webradar_extreme::dump_runtime::{ActiveDump, DumpInfo, DumpPack, DumpSource};
use cs2_webradar_extreme::engine::{
    weapon_factor_tenths, BombThreat, Engine, EngineConfig, FrameThreats, PlayerThreat,
};
use cs2_webradar_extreme::json::JsonValue;
use cs2_webradar_extreme::model::{
    RawBomb, RawDroppedWeapon, RawFrame, RawGrenade, RawMatchState, RawPlayer,
};
use cs2_webradar_extreme::contracts::GrenadeKind;

fn v2(x: f32, y: f32) -> Vec2 {
    Vec2 { x_bits: x.to_bits(), y_bits: y.to_bits() }
}

fn active_dump() -> ActiveDump {
    ActiveDump {
        source: DumpSource::Embedded,
        pack: DumpPack {
            root_dir: PathBuf::from("."),
            info: DumpInfo {
                source: "embedded".to_string(),
                build_number: Some(15000),
                generated_at: None,
                dumper_version: None,
            },
            offsets: JsonValue::Object(Vec::new()),
            schema: JsonValue::Object(Vec::new()),
        },
        warnings: Vec::new(),
    }
}

fn distance(a: Vec2, b: Vec2) -> f32 {
    let (ax, ay) = (f32::from_bits(a.x_bits), f32::from_bits(a.y_bits));
    let (bx, by) = (f32::from_bits(b.x_bits), f32::from_bits(b.y_bits));
    ((ax - bx).powi(2) + (ay - by).powi(2)).sqrt().max(1.0)
}

/// The threat assessments the desktop runtime computes for a frame.
fn assess(frame: &RawFrame) -> FrameThreats {
    let origin = frame.local_origin();
    let players = frame
        .players
        .iter()
        .map(|p| {
            let factor = f32::from(weapon_factor_tenths(p.weapon.as_deref())) / 10.0;
            let visibility = if p.visible_proxy || p.spotted { 0.6 } else { 0.1 };
            let scoped = if p.is_scoped { 0.35 } else { 0.0 };
            let score = ((900.0 / distance(p.position, origin)) * factor
                + visibility
                + scoped
                + f32::from(p.health) / 160.0)
                .clamp(0.0, 10.0);
            let band = if score < 1.5 {
                ThreatBand::Low
            } else if score < 3.5 {
                ThreatBand::Medium
            } else if score < 6.0 {
                ThreatBand::High
            } else {
                ThreatBand::Critical
            };
            PlayerThreat { score_bits: score.to_bits(), band }
        })
        .collect();
    let bomb = frame.bomb.as_ref().filter(|b| b.is_assessed()).map(|b| {
        let damage = (820.0 / distance(b.position.unwrap(), origin)).clamp(0.0, 100.0);
        let band = if damage < 35.0 {
            SurvivalBand::Safe
        } else if damage < 80.0 {
            SurvivalBand::Risky
        } else {
            SurvivalBand::Lethal
        };
        BombThreat { damage_bits: damage.to_bits(), band }
    });
    FrameThreats { players, bomb }
}

fn player(entity_id: u32, local: bool, position: Vec2, staleness_ms: u64) -> RawPlayer {
    RawPlayer {
        entity_id,
        steam_name: format!("p{entity_id}"),
        team: Team::CounterTerrorists,
        alive: true,
        position,
        z_bits: 0,
        health: 100,
        armor: 100,
        money: 1000,
        weapon: Some("weapon_m4a1".to_string()),
        has_bomb: false,
        is_scoped: false,
        is_flashed: false,
        ping_ms: 12,
        visible_proxy: true,
        spotted: true,
        staleness_ms,
        is_local: local,
    }
}

fn frame(map_name: &str, players: Vec<RawPlayer>, bomb: Option<RawBomb>) -> RawFrame {
    RawFrame {
        tick: 10,
        timestamp_ms: 100,
        match_state: RawMatchState {
            map_name: map_name.to_string(),
            round: 5,
            phase: "live".to_string(),
            score_t: 2,
            score_ct: 3,
            local_team: Team::CounterTerrorists,
        },
        players,
        bomb,
        grenades: vec![],
        dropped_weapons: vec![],
    }
}

fn next(engine: &mut Engine, polled: Option<RawFrame>) -> cs2_webradar_extreme::contracts::RadarSnapshot {
    let threats = match &polled {
        Some(f) => assess(f),
        None => FrameThreats { players: Vec::new(), bomb: None },
    };
    engine.next_snapshot(polled, &threats)
}

#[test]
fn computes_bomb_survival_prediction() {
    let frame = RawFrame {
        tick: 10,
        timestamp_ms: 100,
        match_state: RawMatchState {
            map_name: "de_dust2".to_string(),
            round: 5,
            phase: "live".to_string(),
            score_t: 2,
            score_ct: 3,
            local_team: Team::CounterTerrorists,
        },
        players: vec![RawPlayer {
            entity_id: 1,
            steam_name: "local".to_string(),
            team: Team::CounterTerrorists,
            alive: true,
            position: v2(0.0, 0.0),
            z_bits: 0.0f32.to_bits(),
            health: 100,
            armor: 100,
            money: 1000,
            weapon: Some("weapon_m4a1".to_string()),
            has_bomb: false,
            is_scoped: false,
            is_flashed: false,
            ping_ms: 12,
            visible_proxy: true,
            spotted: true,
            staleness_ms: 0,
            is_local: true,
        }],
        bomb: Some(RawBomb {
            status: BombStatus::Planted,
            position: Some(v2(4.0, 0.0)),
            site: Some("A".to_string()),
            timer_remaining_ms: Some(30000),
            defuse_remaining_ms: None,
        }),
        grenades: vec![],
        dropped_weapons: vec![],
    };

    let mut engine = Engine::new(EngineConfig::default(), active_dump());
    let threats = assess(&frame);
    let snapshot = engine.next_snapshot(Some(frame), &threats);

    let bomb = snapshot.bomb.expect("bomb exists");
    assert!(f32::from_bits(bomb.predicted_damage_bits.expect("damage")) > 80.0);
    assert_eq!(bomb.survival_band, Some(SurvivalBand::Lethal));
}

#[test]
fn missing_frame_yields_waiting_placeholder() {
    let mut engine = Engine::new(EngineConfig::default(), active_dump());
    let snapshot = next(&mut engine, None);
    assert_eq!(snapshot.protocol_version, PROTOCOL_VERSION);
    assert_eq!(snapshot.diagnostics.engine_status, EngineStatus::WaitingForProcess);
    assert_eq!(snapshot.match_state.map_name, "unknown");
    assert_eq!(snapshot.match_state.phase, "waiting");
    assert_eq!(snapshot.diagnostics.offset_source, "embedded");
    assert_eq!(snapshot.diagnostics.build_number, Some(15000));
    assert_eq!(snapshot.diagnostics.tick_interval_ms, 40);
    assert_eq!(snapshot.interpolation_window_ms, 100);
    assert!(snapshot.players.is_empty() && snapshot.bomb.is_none());
}

#[test]
fn blank_map_yields_recovering_placeholder() {
    let mut engine = Engine::new(EngineConfig::default(), active_dump());
    let snapshot = next(&mut engine, Some(frame(" \t", vec![player(1, true, v2(0.0, 0.0), 0)], None)));
    assert_eq!(snapshot.diagnostics.engine_status, EngineStatus::Recovering);
    assert_eq!(snapshot.tick, 0);
    assert!(snapshot.players.is_empty());
}

#[test]
fn usable_frame_keeps_entities_in_order() {
    let mut engine = Engine::new(EngineConfig::default(), active_dump());
    let mut f = frame(
        "de_mirage",
        vec![player(3, false, v2(30.0, 40.0), 121), player(1, true, v2(0.0, 0.0), 120), player(2, false, v2(1.0, 1.0), 500)],
        Some(RawBomb {
            status: BombStatus::Carried,
            position: Some(v2(1.0, 1.0)),
            site: None,
            timer_remaining_ms: None,
            defuse_remaining_ms: None,
        }),
    );
    f.grenades.push(RawGrenade {
        entity_id: 900,
        kind: GrenadeKind::Molotov,
        position: v2(5.0, 5.0),
        remaining_ms: 700,
        owner_team: Team::Terrorists,
    });
    f.dropped_weapons.push(RawDroppedWeapon {
        entity_id: 901,
        weapon_name: "weapon_awp".to_string(),
        position: v2(6.0, 6.0),
        ammo_clip: None,
    });
    let snapshot = next(&mut engine, Some(f));
    assert_eq!(snapshot.diagnostics.engine_status, EngineStatus::Healthy);
    assert_eq!(snapshot.match_state.map_name, "de_mirage");
    assert_eq!(snapshot.tick, 10);
    assert_eq!(snapshot.timestamp_ms, 100);
    let ids: Vec<u32> = snapshot.players.iter().map(|p| p.entity_id).collect();
    assert_eq!(ids, vec![3, 1, 2]);
    // staleness above three tick intervals (120 ms) counts as stale
    assert_eq!(snapshot.diagnostics.stale_entities, 2);
    // a carried bomb gets no damage estimate
    let bomb = snapshot.bomb.expect("bomb");
    assert_eq!(bomb.predicted_damage_bits, None);
    assert_eq!(bomb.survival_band, None);
    assert_eq!(snapshot.grenades[0].entity_id, 900);
    assert_eq!(snapshot.grenades[0].kind, GrenadeKind::Molotov);
    assert_eq!(snapshot.dropped_weapons[0].weapon_name, "weapon_awp");
    // the player at distance 50 scores 900/50 * 1.5 + 0.6 + 100/160, clamped to 10
    assert_eq!(f32::from_bits(snapshot.players[0].threat_score_bits), 10.0);
    assert_eq!(snapshot.players[0].threat_band, ThreatBand::Critical);
}

#[test]
fn zero_threshold_reports_recovering_even_for_usable_frames() {
    let config = EngineConfig { tick_interval_ms: 40, interpolation_window_ms: 50, invalid_frame_threshold: 0 };
    let mut engine = Engine::new(config, active_dump());
    let snapshot = next(&mut engine, Some(frame("de_nuke", vec![], None)));
    assert_eq!(snapshot.diagnostics.engine_status, EngineStatus::Recovering);
    assert_eq!(snapshot.interpolation_window_ms, 50);
    assert_eq!(snapshot.diagnostics.stale_entities, 0);
}

#[test]
fn engine_recovers_after_unusable_frames() {
    let mut engine = Engine::new(EngineConfig::default(), active_dump());
    for _ in 0..20 {
        let s = next(&mut engine, None);
        assert_eq!(s.diagnostics.engine_status, EngineStatus::WaitingForProcess);
    }
    let s = next(&mut engine, Some(frame("de_inferno", vec![player(1, true, v2(0.0, 0.0), 0)], None)));
    assert_eq!(s.diagnostics.engine_status, EngineStatus::Healthy);
    assert_eq!(s.players.len(), 1);
}
