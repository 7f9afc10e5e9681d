//! The versioned snapshot schema shared by the runtime and the UI.
//!
//! Floating-point quantities (positions, heights, scores, damage) are held as
//! the bit patterns of their IEEE-754 single-precision values: the library
//! carries them, and the arithmetic on them happens outside it.
use vstd::prelude::*;
use vstd::std_specs::cmp::PartialEqSpecImpl;

verus! {

/// The version of the snapshot protocol.
pub const PROTOCOL_VERSION: u16 = 1;

#[derive(Clone, Copy, Debug, PartialEq, Eq, Structural)]
pub enum Team {
    Unknown,
    Terrorists,
    CounterTerrorists,
    Spectator,
}

#[derive(Clone, Copy, Debug, PartialEq, Eq, Structural)]
pub enum ThreatBand {
    Low,
    Medium,
    High,
    Critical,
}

#[derive(Clone, Copy, Debug, PartialEq, Eq, Structural)]
pub enum BombStatus {
    Carried,
    Planted,
    Defused,
    Exploded,
}

#[derive(Clone, Copy, Debug, PartialEq, Eq, Structural)]
pub enum SurvivalBand {
    Safe,
    Risky,
    Lethal,
}

#[derive(Clone, Copy, Debug, PartialEq, Eq, Structural)]
pub enum GrenadeKind {
    Smoke,
    Flash,
    Molotov,
    Incendiary,
    He,
    Decoy,
    Unknown,
}

/// A point on the radar plane; each coordinate is the bit pattern of an
/// `f32`.
#[derive(Clone, Copy, Debug)]
pub struct Vec2 {
    pub x_bits: u32,
    pub y_bits: u32,
}

#[derive(Clone, Debug)]
pub struct PlayerState {
    pub entity_id: u32,
    pub steam_name: String,
    pub team: Team,
    pub alive: bool,
    pub position: Vec2,
    pub z_bits: u32,
    pub health: u16,
    pub armor: u16,
    pub money: u32,
    pub weapon: Option<String>,
    pub has_bomb: bool,
    pub is_scoped: bool,
    pub is_flashed: bool,
    pub ping_ms: u32,
    pub visible_proxy: bool,
    pub spotted: bool,
    pub threat_score_bits: u32,
    pub threat_band: ThreatBand,
    pub staleness_ms: u64,
}

#[derive(Clone, Debug)]
pub struct BombState {
    pub status: BombStatus,
    pub position: Option<Vec2>,
    pub site: Option<String>,
    pub timer_remaining_ms: Option<u32>,
    pub defuse_remaining_ms: Option<u32>,
    pub predicted_damage_bits: Option<u32>,
    pub survival_band: Option<SurvivalBand>,
}

#[derive(Clone, Debug)]
pub struct GrenadeState {
    pub entity_id: u32,
    pub kind: GrenadeKind,
    pub position: Vec2,
    pub remaining_ms: u32,
    pub owner_team: Team,
}

#[derive(Clone, Debug)]
pub struct DroppedWeaponState {
    pub entity_id: u32,
    pub weapon_name: String,
    pub position: Vec2,
    pub ammo_clip: Option<u16>,
}

#[derive(Clone, Debug, Eq)]
pub struct MatchState {
    pub map_name: String,
    pub round: u16,
    pub phase: String,
    pub score_t: u8,
    pub score_ct: u8,
    pub local_team: Team,
}

#[derive(Clone, Copy, Debug, PartialEq, Eq, Structural)]
pub enum EngineStatus {
    Healthy,
    Recovering,
    WaitingForProcess,
    DumpMismatch,
}

#[derive(Clone, Debug, Eq)]
pub struct SnapshotDiagnostics {
    pub engine_status: EngineStatus,
    pub offset_source: String,
    pub build_number: Option<u32>,
    pub tick_interval_ms: u16,
    pub stale_entities: u16,
}

#[derive(Clone, Debug)]
pub struct RadarSnapshot {
    pub protocol_version: u16,
    pub timestamp_ms: u64,
    pub tick: u64,
    pub interpolation_window_ms: u16,
    pub match_state: MatchState,
    pub players: Vec<PlayerState>,
    pub bomb: Option<BombState>,
    pub grenades: Vec<GrenadeState>,
    pub dropped_weapons: Vec<DroppedWeaponState>,
    pub diagnostics: SnapshotDiagnostics,
}

#[derive(Clone, Debug)]
pub struct RadarEnvelope {
    pub protocol_version: u16,
    pub emitted_at_ms: u64,
    pub snapshot: RadarSnapshot,
}


impl PartialEq for MatchState {
    fn eq(&self, other: &Self) -> (same: bool) {
        self.map_name == other.map_name && self.round == other.round && self.phase == other.phase
            && self.score_t == other.score_t && self.score_ct == other.score_ct
            && self.local_team == other.local_team
    }
}

impl PartialEqSpecImpl for MatchState {
    open spec fn obeys_eq_spec() -> bool {
        true
    }

    open spec fn eq_spec(&self, other: &MatchState) -> bool {
        &&& self.map_name@ == other.map_name@
        &&& self.round == other.round
        &&& self.phase@ == other.phase@
        &&& self.score_t == other.score_t
        &&& self.score_ct == other.score_ct
        &&& self.local_team == other.local_team
    }
}

impl PartialEq for SnapshotDiagnostics {
    fn eq(&self, other: &Self) -> (same: bool) {
        self.engine_status == other.engine_status && self.offset_source == other.offset_source
            && self.build_number == other.build_number && self.tick_interval_ms == other.tick_interval_ms
            && self.stale_entities == other.stale_entities
    }
}

impl PartialEqSpecImpl for SnapshotDiagnostics {
    open spec fn obeys_eq_spec() -> bool {
        true
    }

    open spec fn eq_spec(&self, other: &SnapshotDiagnostics) -> bool {
        &&& self.engine_status == other.engine_status
        &&& self.offset_source@ == other.offset_source@
        &&& self.build_number == other.build_number
        &&& self.tick_interval_ms == other.tick_interval_ms
        &&& self.stale_entities == other.stale_entities
    }
}

} // verus!
