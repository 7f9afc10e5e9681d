//! The extraction engine: turns raw frames into versioned radar snapshots.
use std::collections::HashMap;
use vstd::prelude::*;
use crate::contracts::{
    BombState, BombStatus, DroppedWeaponState, EngineStatus, GrenadeState, MatchState,
    PlayerState, RadarSnapshot, SnapshotDiagnostics, SurvivalBand, Team, ThreatBand, Vec2,
    PROTOCOL_VERSION,
};
use crate::dump_runtime::{ActiveDump, DumpSource};
use crate::model::{RawBomb, RawDroppedWeapon, RawFrame, RawGrenade, RawMatchState, RawPlayer};
use crate::text::{ascii_lower, chars_of, char_is_whitespace, eq_ascii_lowercase, is_unicode_whitespace};

verus! {

broadcast use vstd::std_specs::hash::group_hash_axioms;

/// Timing and recovery settings of the engine.
#[derive(Clone, Copy, Debug)]
pub struct EngineConfig {
    pub tick_interval_ms: u16,
    pub interpolation_window_ms: u16,
    pub invalid_frame_threshold: u16,
}

impl Default for EngineConfig {
    fn default() -> (config: Self)
        ensures
            config.tick_interval_ms == 40,
            config.interpolation_window_ms == 100,
            config.invalid_frame_threshold == 10,
    {
        EngineConfig { tick_interval_ms: 40, interpolation_window_ms: 100, invalid_frame_threshold: 10 }
    }
}

/// The threat a player poses to the local player, as scored from their
/// distance, weapon, visibility, scope and health: the score is the bit
/// pattern of an `f32` in `[0, 10]`, the band its classification.
#[derive(Clone, Copy, Debug)]
pub struct PlayerThreat {
    pub score_bits: u32,
    pub band: ThreatBand,
}

/// The damage a planted bomb would deal at the local player's position (the
/// bit pattern of an `f32` in `[0, 100]`) and the survival band it falls in.
#[derive(Clone, Copy, Debug)]
pub struct BombThreat {
    pub damage_bits: u32,
    pub band: SurvivalBand,
}

/// The assessments of one frame: one per player, in the frame's order, and
/// one for a planted bomb whose position is known.
#[derive(Clone, Debug)]
pub struct FrameThreats {
    pub players: Vec<PlayerThreat>,
    pub bomb: Option<BombThreat>,
}

/// Whether a text is empty once surrounding whitespace is trimmed.
pub open spec fn is_blank(s: Seq<char>) -> bool {
    forall|i: int| 0 <= i < s.len() ==> is_unicode_whitespace(#[trigger] s[i])
}

/// Whether `s` trims to the empty string.
pub fn trims_to_empty(s: &str) -> (blank: bool)
    ensures
        blank == is_blank(s@),
{
    let v = chars_of(s);
    let mut i: usize = 0;
    while i < v.len()
        invariant
            v@ == s@,
            i <= v@.len(),
            forall|j: int| 0 <= j < i ==> is_unicode_whitespace(#[trigger] s@[j]),
        decreases v@.len() - i,
    {
        if !char_is_whitespace(v[i]) {
            return false;
        }
        i = i + 1;
    }
    true
}

/// The position of the first local player, or the origin when there is none.
pub open spec fn local_origin_of(players: Seq<RawPlayer>) -> Vec2
    decreases players.len(),
{
    if players.len() == 0 {
        Vec2 { x_bits: 0, y_bits: 0 }
    } else if players[0].is_local {
        players[0].position
    } else {
        local_origin_of(players.drop_first())
    }
}

/// Whether a bomb gets a damage estimate: it is planted and its position known.
pub open spec fn bomb_is_assessed(b: RawBomb) -> bool {
    b.status == BombStatus::Planted && b.position is Some
}

impl RawFrame {
    /// The point threats are measured from: the first local player's position,
    /// or the origin.
    pub fn local_origin(&self) -> (origin: Vec2)
        ensures
            origin == local_origin_of(self.players@),
    {
        let mut i: usize = 0;
        assert(self.players@.skip(0) =~= self.players@);
        while i < self.players.len()
            invariant
                i <= self.players@.len(),
                local_origin_of(self.players@) == local_origin_of(self.players@.skip(i as int)),
            decreases self.players@.len() - i,
        {
            assert(self.players@.skip(i as int).drop_first() =~= self.players@.skip(i + 1));
            if self.players[i].is_local {
                return self.players[i].position;
            }
            i = i + 1;
        }
        Vec2 { x_bits: 0, y_bits: 0 }
    }
}

impl RawBomb {
    /// Whether this bomb gets a damage estimate.
    pub fn is_assessed(&self) -> (assessed: bool)
        ensures
            assessed == bomb_is_assessed(*self),
    {
        match self.status {
            BombStatus::Planted => self.position.is_some(),
            _ => false,
        }
    }
}

/// The snapshot entry for a player with its threat assessment.
pub open spec fn player_state_of(raw: RawPlayer, threat: PlayerThreat) -> PlayerState {
    PlayerState {
        entity_id: raw.entity_id,
        steam_name: raw.steam_name,
        team: raw.team,
        alive: raw.alive,
        position: raw.position,
        z_bits: raw.z_bits,
        health: raw.health,
        armor: raw.armor,
        money: raw.money,
        weapon: raw.weapon,
        has_bomb: raw.has_bomb,
        is_scoped: raw.is_scoped,
        is_flashed: raw.is_flashed,
        ping_ms: raw.ping_ms,
        visible_proxy: raw.visible_proxy,
        spotted: raw.spotted,
        threat_score_bits: threat.score_bits,
        threat_band: threat.band,
        staleness_ms: raw.staleness_ms,
    }
}

/// The snapshot entry for a bomb: a damage estimate only when it is planted
/// at a known position.
pub open spec fn bomb_state_of(raw: RawBomb, threat: Option<BombThreat>) -> BombState {
    BombState {
        status: raw.status,
        position: raw.position,
        site: raw.site,
        timer_remaining_ms: raw.timer_remaining_ms,
        defuse_remaining_ms: raw.defuse_remaining_ms,
        predicted_damage_bits: if bomb_is_assessed(raw) {
            Some(threat->0.damage_bits)
        } else {
            None
        },
        survival_band: if bomb_is_assessed(raw) {
            Some(threat->0.band)
        } else {
            None
        },
    }
}

/// The snapshot entry for a grenade.
pub open spec fn grenade_state_of(raw: RawGrenade) -> GrenadeState {
    GrenadeState {
        entity_id: raw.entity_id,
        kind: raw.kind,
        position: raw.position,
        remaining_ms: raw.remaining_ms,
        owner_team: raw.owner_team,
    }
}

/// The snapshot entry for a dropped weapon.
pub open spec fn dropped_weapon_state_of(raw: RawDroppedWeapon) -> DroppedWeaponState {
    DroppedWeaponState {
        entity_id: raw.entity_id,
        weapon_name: raw.weapon_name,
        position: raw.position,
        ammo_clip: raw.ammo_clip,
    }
}

/// The snapshot's match state.
pub open spec fn match_state_of(raw: RawMatchState) -> MatchState {
    MatchState {
        map_name: raw.map_name,
        round: raw.round,
        phase: raw.phase,
        score_t: raw.score_t,
        score_ct: raw.score_ct,
        local_team: raw.local_team,
    }
}

/// The number of players not updated for longer than `limit` milliseconds.
pub open spec fn stale_count(players: Seq<RawPlayer>, limit: u64) -> nat
    decreases players.len(),
{
    if players.len() == 0 {
        0
    } else {
        stale_count(players.drop_last(), limit) + if players.last().staleness_ms > limit {
            1nat
        } else {
            0nat
        }
    }
}

/// The weapon cache after seeing `player`: its weapon, when it carries one,
/// recorded under its entity id.
pub open spec fn cache_with(cache: Map<u32, String>, player: RawPlayer) -> Map<u32, String> {
    match player.weapon {
        Some(w) => cache.insert(player.entity_id, w),
        None => cache,
    }
}

/// The weapon cache after seeing `players` in order.
pub open spec fn cache_after(cache: Map<u32, String>, players: Seq<RawPlayer>) -> Map<u32, String>
    decreases players.len(),
{
    if players.len() == 0 {
        cache
    } else {
        cache_with(cache_after(cache, players.drop_last()), players.last())
    }
}

/// The label under which a pack's source is reported.
pub open spec fn source_label(source: DumpSource) -> Seq<char> {
    match source {
        DumpSource::User => "user"@,
        DumpSource::Embedded => "embedded"@,
    }
}

/// The health status reported for a frame, given the invalid-frame count.
pub open spec fn status_for(invalid_frames: u16, threshold: u16) -> EngineStatus {
    if invalid_frames >= threshold {
        EngineStatus::Recovering
    } else {
        EngineStatus::Healthy
    }
}

/// Counts one more invalid frame, staying at the maximum.
pub open spec fn bump(count: u16) -> u16 {
    if count == u16::MAX {
        count
    } else {
        (count + 1) as u16
    }
}

/// The diagnostics every snapshot carries.
pub open spec fn diagnostics_agree(
    d: SnapshotDiagnostics,
    config: EngineConfig,
    source: DumpSource,
    build: Option<u32>,
) -> bool {
    &&& d.offset_source@ == source_label(source)
    &&& d.build_number == build
    &&& d.tick_interval_ms == config.tick_interval_ms
}

/// The placeholder snapshot sent while no usable frame is available.
pub open spec fn is_empty_snapshot(
    s: RadarSnapshot,
    config: EngineConfig,
    source: DumpSource,
    build: Option<u32>,
    status: EngineStatus,
) -> bool {
    &&& s.protocol_version == PROTOCOL_VERSION
    &&& s.timestamp_ms == 0
    &&& s.tick == 0
    &&& s.interpolation_window_ms == config.interpolation_window_ms
    &&& s.match_state.map_name@ == "unknown"@
    &&& s.match_state.round == 0
    &&& s.match_state.phase@ == "waiting"@
    &&& s.match_state.score_t == 0
    &&& s.match_state.score_ct == 0
    &&& s.match_state.local_team == Team::Unknown
    &&& s.players@.len() == 0
    &&& s.bomb is None
    &&& s.grenades@.len() == 0
    &&& s.dropped_weapons@.len() == 0
    &&& s.diagnostics.engine_status == status
    &&& diagnostics_agree(s.diagnostics, config, source, build)
    &&& s.diagnostics.stale_entities == 0
}

/// The snapshot of a usable frame, with its threat assessments.
pub open spec fn is_frame_snapshot(
    s: RadarSnapshot,
    config: EngineConfig,
    source: DumpSource,
    build: Option<u32>,
    invalid_frames: u16,
    frame: RawFrame,
    threats: FrameThreats,
) -> bool {
    &&& s.protocol_version == PROTOCOL_VERSION
    &&& s.timestamp_ms == frame.timestamp_ms
    &&& s.tick == frame.tick
    &&& s.interpolation_window_ms == config.interpolation_window_ms
    &&& s.match_state == match_state_of(frame.match_state)
    &&& s.players@.len() == frame.players@.len()
    &&& forall|i: int|
        0 <= i < frame.players@.len() ==> #[trigger] s.players@[i] == player_state_of(
            frame.players@[i],
            threats.players@[i],
        )
    &&& s.bomb == match frame.bomb {
        Some(b) => Some(bomb_state_of(b, threats.bomb)),
        None => None,
    }
    &&& s.grenades@ == frame.grenades@.map_values(|g: RawGrenade| grenade_state_of(g))
    &&& s.dropped_weapons@ == frame.dropped_weapons@.map_values(
        |w: RawDroppedWeapon| dropped_weapon_state_of(w),
    )
    &&& s.diagnostics.engine_status == status_for(invalid_frames, config.invalid_frame_threshold)
    &&& diagnostics_agree(s.diagnostics, config, source, build)
    &&& s.diagnostics.stale_entities == stale_count(
        frame.players@,
        (config.tick_interval_ms * 3) as u64,
    ) as u16
}

/// What a caller must supply with a usable frame: one assessment per player,
/// one for a planted bomb at a known position, and a tick interval whose
/// triple fits in 16 bits when there are players to check for staleness.
pub open spec fn threats_fit(frame: RawFrame, threats: FrameThreats, config: EngineConfig) -> bool {
    &&& threats.players@.len() == frame.players@.len()
    &&& (frame.bomb matches Some(b) && bomb_is_assessed(b) ==> threats.bomb is Some)
    &&& (frame.players@.len() > 0 ==> config.tick_interval_ms * 3 <= u16::MAX)
}

/// How much a weapon raises a player's threat, in tenths: sniper rifles most,
/// then rifles, pistols, and everything else (or no weapon) at one. Weapon
/// names are compared with ASCII letters lowered.
pub open spec fn weapon_factor_tenths_of(weapon: Option<Seq<char>>) -> u8 {
    match weapon {
        None => 10,
        Some(w) => {
            let l = w.map_values(|c: char| ascii_lower(c));
            if l == "weapon_awp"@ {
                20
            } else if l == "weapon_ssg08"@ {
                17
            } else if l == "weapon_ak47"@ || l == "weapon_m4a1"@ || l == "weapon_m4a1_silencer"@ {
                15
            } else if l == "weapon_deagle"@ || l == "weapon_revolver"@ {
                13
            } else if l == "weapon_glock"@ || l == "weapon_usp_silencer"@ {
                11
            } else {
                10
            }
        },
    }
}

/// How much a weapon raises a player's threat, in tenths.
pub fn weapon_factor_tenths(weapon: Option<&str>) -> (tenths: u8)
    ensures
        tenths == weapon_factor_tenths_of(
            match weapon {
                Some(w) => Some(w@),
                None => None,
            },
        ),
{
    let w = match weapon {
        None => {
            return 10;
        },
        Some(w) => w,
    };
    if eq_ascii_lowercase(w, "weapon_awp") {
        20
    } else if eq_ascii_lowercase(w, "weapon_ssg08") {
        17
    } else if eq_ascii_lowercase(w, "weapon_ak47") || eq_ascii_lowercase(w, "weapon_m4a1")
        || eq_ascii_lowercase(w, "weapon_m4a1_silencer") {
        15
    } else if eq_ascii_lowercase(w, "weapon_deagle") || eq_ascii_lowercase(w, "weapon_revolver") {
        13
    } else if eq_ascii_lowercase(w, "weapon_glock") || eq_ascii_lowercase(w, "weapon_usp_silencer") {
        11
    } else {
        10
    }
}

/// Copies an optional text.
fn copy_text(o: &Option<String>) -> (r: Option<String>)
    ensures
        r == *o,
{
    match o {
        Some(s) => Some(s.clone()),
        None => None,
    }
}

/// The extraction engine: its settings, the dump pack in use, a cache of the
/// weapons last seen per entity, and a count of consecutive unusable frames.
pub struct Engine {
    config: EngineConfig,
    active_dump: ActiveDump,
    class_cache: HashMap<u32, String>,
    invalid_frame_count: u16,
}

impl Engine {
    /// The engine's settings.
    pub closed spec fn config(&self) -> EngineConfig {
        self.config
    }

    /// Where the pack in use came from.
    pub closed spec fn source(&self) -> DumpSource {
        self.active_dump.source
    }

    /// The build the pack in use was made for.
    pub closed spec fn build_number(&self) -> Option<u32> {
        self.active_dump.pack.info.build_number
    }

    /// The weapon last seen carried by each entity.
    pub closed spec fn weapon_cache(&self) -> Map<u32, String> {
        self.class_cache@
    }

    /// The number of consecutive unusable frames.
    pub closed spec fn invalid_frames(&self) -> u16 {
        self.invalid_frame_count
    }

    /// An engine with the given settings and pack, no cached weapons and no
    /// unusable frames counted.
    pub fn new(config: EngineConfig, active_dump: ActiveDump) -> (engine: Engine)
        ensures
            engine.config() == config,
            engine.source() == active_dump.source,
            engine.build_number() == active_dump.pack.info.build_number,
            engine.weapon_cache() == Map::<u32, String>::empty(),
            engine.invalid_frames() == 0,
    {
        Engine { config, active_dump, class_cache: HashMap::new(), invalid_frame_count: 0 }
    }

    /// The label of the pack's source.
    fn offset_source(&self) -> (label: String)
        ensures
            label@ == source_label(self.source()),
    {
        match self.active_dump.source {
            DumpSource::User => String::from_str("user"),
            DumpSource::Embedded => String::from_str("embedded"),
        }
    }

    /// The placeholder snapshot sent while no usable frame is available.
    fn empty_snapshot(&self, engine_status: EngineStatus) -> (s: RadarSnapshot)
        ensures
            is_empty_snapshot(s, self.config(), self.source(), self.build_number(), engine_status),
    {
        RadarSnapshot {
            protocol_version: PROTOCOL_VERSION,
            timestamp_ms: 0,
            tick: 0,
            interpolation_window_ms: self.config.interpolation_window_ms,
            match_state: MatchState {
                map_name: String::from_str("unknown"),
                round: 0,
                phase: String::from_str("waiting"),
                score_t: 0,
                score_ct: 0,
                local_team: Team::Unknown,
            },
            players: Vec::new(),
            bomb: None,
            grenades: Vec::new(),
            dropped_weapons: Vec::new(),
            diagnostics: SnapshotDiagnostics {
                engine_status,
                offset_source: self.offset_source(),
                build_number: self.active_dump.pack.info.build_number,
                tick_interval_ms: self.config.tick_interval_ms,
                stale_entities: 0,
            },
        }
    }

    /// Records the player's weapon and builds its snapshot entry.
    fn transform_player(&mut self, raw: &RawPlayer, threat: PlayerThreat) -> (state: PlayerState)
        ensures
            state == player_state_of(*raw, threat),
            final(self).weapon_cache() == cache_with(old(self).weapon_cache(), *raw),
            final(self).config() == old(self).config(),
            final(self).source() == old(self).source(),
            final(self).build_number() == old(self).build_number(),
            final(self).invalid_frames() == old(self).invalid_frames(),
    {
        match &raw.weapon {
            Some(weapon) => {
                self.class_cache.insert(raw.entity_id, weapon.clone());
            },
            None => {},
        }
        PlayerState {
            entity_id: raw.entity_id,
            steam_name: raw.steam_name.clone(),
            team: raw.team,
            alive: raw.alive,
            position: raw.position,
            z_bits: raw.z_bits,
            health: raw.health,
            armor: raw.armor,
            money: raw.money,
            weapon: copy_text(&raw.weapon),
            has_bomb: raw.has_bomb,
            is_scoped: raw.is_scoped,
            is_flashed: raw.is_flashed,
            ping_ms: raw.ping_ms,
            visible_proxy: raw.visible_proxy,
            spotted: raw.spotted,
            threat_score_bits: threat.score_bits,
            threat_band: threat.band,
            staleness_ms: raw.staleness_ms,
        }
    }

    /// Builds the bomb's snapshot entry, with the damage estimate when it is
    /// planted at a known position.
    fn transform_bomb(raw: &RawBomb, threat: Option<BombThreat>) -> (state: BombState)
        requires
            bomb_is_assessed(*raw) ==> threat is Some,
        ensures
            state == bomb_state_of(*raw, threat),
    {
        let (predicted_damage_bits, survival_band) = if raw.is_assessed() {
            match threat {
                Some(t) => (Some(t.damage_bits), Some(t.band)),
                None => (None, None),
            }
        } else {
            (None, None)
        };
        BombState {
            status: raw.status,
            position: raw.position,
            site: copy_text(&raw.site),
            timer_remaining_ms: raw.timer_remaining_ms,
            defuse_remaining_ms: raw.defuse_remaining_ms,
            predicted_damage_bits,
            survival_band,
        }
    }

    /// Turns the frame a provider reported (if any) into the next snapshot.
    ///
    /// No frame yields a waiting placeholder and a frame without a map name a
    /// recovering placeholder, each counting one more unusable frame. A usable
    /// frame resets that count and yields its entities, with the supplied
    /// threat assessments, and its diagnostics.
    pub fn next_snapshot(&mut self, polled: Option<RawFrame>, threats: &FrameThreats) -> (snapshot: RadarSnapshot)
        requires
            polled matches Some(f) ==> is_blank(f.match_state.map_name@) || threats_fit(f, *threats, old(self).config()),
        ensures
            final(self).config() == old(self).config(),
            final(self).source() == old(self).source(),
            final(self).build_number() == old(self).build_number(),
            match polled {
                None => {
                    &&& is_empty_snapshot(snapshot, old(self).config(), old(self).source(), old(self).build_number(), EngineStatus::WaitingForProcess)
                    &&& final(self).invalid_frames() == bump(old(self).invalid_frames())
                    &&& final(self).weapon_cache() == old(self).weapon_cache()
                },
                Some(f) => if is_blank(f.match_state.map_name@) {
                    &&& is_empty_snapshot(snapshot, old(self).config(), old(self).source(), old(self).build_number(), EngineStatus::Recovering)
                    &&& final(self).invalid_frames() == bump(old(self).invalid_frames())
                    &&& final(self).weapon_cache() == old(self).weapon_cache()
                } else {
                    &&& final(self).invalid_frames() == 0
                    &&& is_frame_snapshot(snapshot, old(self).config(), old(self).source(), old(self).build_number(), final(self).invalid_frames(), f, *threats)
                    &&& final(self).weapon_cache() == cache_after(old(self).weapon_cache(), f.players@)
                },
            },
    {
        let frame = match polled {
            None => {
                self.invalid_frame_count = self.invalid_frame_count.saturating_add(1);
                return self.empty_snapshot(EngineStatus::WaitingForProcess);
            },
            Some(frame) => frame,
        };
        if trims_to_empty(frame.match_state.map_name.as_str()) {
            self.invalid_frame_count = self.invalid_frame_count.saturating_add(1);
            return self.empty_snapshot(EngineStatus::Recovering);
        }
        self.invalid_frame_count = 0;
        let ghost f = frame;
        let ghost cache0 = self.weapon_cache();
        let RawFrame { tick, timestamp_ms, match_state, players: raw_players, bomb: raw_bomb, grenades: raw_grenades, dropped_weapons: raw_dropped } = frame;

        let mut players: Vec<PlayerState> = Vec::new();
        let mut i: usize = 0;
        assert(raw_players@.take(0) =~= Seq::<RawPlayer>::empty());
        while i < raw_players.len()
            invariant
                raw_players@ == f.players@,
                threats.players@.len() == raw_players@.len(),
                i <= raw_players@.len(),
                players@.len() == i,
                forall|j: int| 0 <= j < i ==> #[trigger] players@[j] == player_state_of(raw_players@[j], threats.players@[j]),
                self.weapon_cache() == cache_after(cache0, raw_players@.take(i as int)),
                self.config() == old(self).config(),
                self.source() == old(self).source(),
                self.build_number() == old(self).build_number(),
                self.invalid_frames() == 0,
            decreases raw_players@.len() - i,
        {
            let state = self.transform_player(&raw_players[i], threats.players[i]);
            players.push(state);
            proof {
                assert(raw_players@.take(i + 1).drop_last() =~= raw_players@.take(i as int));
            }
            i = i + 1;
        }
        proof {
            assert(raw_players@.take(raw_players@.len() as int) =~= raw_players@);
        }

        let mut stale: usize = 0;
        let mut k: usize = 0;
        assert(raw_players@.take(0) =~= Seq::<RawPlayer>::empty());
        while k < raw_players.len()
            invariant
                raw_players@ == f.players@,
                self.config() == old(self).config(),
                raw_players@.len() > 0 ==> self.config().tick_interval_ms * 3 <= u16::MAX,
                k <= raw_players@.len(),
                stale <= k,
                stale == stale_count(raw_players@.take(k as int), (self.config().tick_interval_ms * 3) as u64),
            decreases raw_players@.len() - k,
        {
            proof {
                assert(raw_players@.take(k + 1).drop_last() =~= raw_players@.take(k as int));
            }
            if raw_players[k].staleness_ms > (self.config.tick_interval_ms * 3) as u64 {
                stale = stale + 1;
            }
            k = k + 1;
        }
        proof {
            assert(raw_players@.take(raw_players@.len() as int) =~= raw_players@);
        }

        let bomb = match &raw_bomb {
            Some(b) => Some(Engine::transform_bomb(b, threats.bomb)),
            None => None,
        };

        let mut grenades: Vec<GrenadeState> = Vec::new();
        let mut g: usize = 0;
        while g < raw_grenades.len()
            invariant
                g <= raw_grenades@.len(),
                grenades@ == raw_grenades@.take(g as int).map_values(|r: RawGrenade| grenade_state_of(r)),
            decreases raw_grenades@.len() - g,
        {
            let r = &raw_grenades[g];
            grenades.push(GrenadeState {
                entity_id: r.entity_id,
                kind: r.kind,
                position: r.position,
                remaining_ms: r.remaining_ms,
                owner_team: r.owner_team,
            });
            assert(grenades@ =~= raw_grenades@.take(g + 1).map_values(|r: RawGrenade| grenade_state_of(r)));
            g = g + 1;
        }
        assert(raw_grenades@.take(raw_grenades@.len() as int) =~= raw_grenades@);

        let mut dropped_weapons: Vec<DroppedWeaponState> = Vec::new();
        let mut d: usize = 0;
        while d < raw_dropped.len()
            invariant
                d <= raw_dropped@.len(),
                dropped_weapons@ == raw_dropped@.take(d as int).map_values(
                    |r: RawDroppedWeapon| dropped_weapon_state_of(r),
                ),
            decreases raw_dropped@.len() - d,
        {
            let r = &raw_dropped[d];
            dropped_weapons.push(DroppedWeaponState {
                entity_id: r.entity_id,
                weapon_name: r.weapon_name.clone(),
                position: r.position,
                ammo_clip: r.ammo_clip,
            });
            assert(dropped_weapons@ =~= raw_dropped@.take(d + 1).map_values(
                |r: RawDroppedWeapon| dropped_weapon_state_of(r),
            ));
            d = d + 1;
        }
        assert(raw_dropped@.take(raw_dropped@.len() as int) =~= raw_dropped@);

        let engine_status = if self.invalid_frame_count >= self.config.invalid_frame_threshold {
            EngineStatus::Recovering
        } else {
            EngineStatus::Healthy
        };

        RadarSnapshot {
            protocol_version: PROTOCOL_VERSION,
            timestamp_ms,
            tick,
            interpolation_window_ms: self.config.interpolation_window_ms,
            match_state: MatchState {
                map_name: match_state.map_name,
                round: match_state.round,
                phase: match_state.phase,
                score_t: match_state.score_t,
                score_ct: match_state.score_ct,
                local_team: match_state.local_team,
            },
            players,
            bomb,
            grenades,
            dropped_weapons,
            diagnostics: SnapshotDiagnostics {
                engine_status,
                offset_source: self.offset_source(),
                build_number: self.active_dump.pack.info.build_number,
                tick_interval_ms: self.config.tick_interval_ms,
                stale_entities: stale as u16,
            },
        }
    }
}


/// A snapshot never counts more stale players than the frame holds.
pub proof fn law_stale_count_bounded(players: Seq<RawPlayer>, limit: u64)
    ensures
        stale_count(players, limit) <= players.len(),
    decreases players.len(),
{
    if players.len() > 0 {
        law_stale_count_bounded(players.drop_last(), limit);
    }
}

/// Whether player `i` carries a weapon and has entity id `id`.
pub open spec fn carries(players: Seq<RawPlayer>, i: int, id: u32) -> bool {
    players[i].entity_id == id && players[i].weapon is Some
}

/// An entity that no player of the frame carried a weapon as keeps its
/// cache entry.
proof fn lemma_cache_untouched(cache: Map<u32, String>, players: Seq<RawPlayer>, id: u32)
    requires
        forall|i: int| 0 <= i < players.len() ==> !carries(players, i, id),
    ensures
        cache_after(cache, players).contains_key(id) == cache.contains_key(id),
        cache_after(cache, players)[id] == cache[id],
    decreases players.len(),
{
    if players.len() > 0 {
        let prev = players.drop_last();
        assert(!carries(players, players.len() - 1, id));
        assert forall|i: int| 0 <= i < prev.len() implies !carries(prev, i, id) by {
            assert(!carries(players, i, id));
        }
        lemma_cache_untouched(cache, prev, id);
    }
}

/// The cache entry of an entity is the weapon of the last player with its id
/// that carried one.
proof fn lemma_cache_last(cache: Map<u32, String>, players: Seq<RawPlayer>, id: u32, i: int)
    requires
        0 <= i < players.len(),
        carries(players, i, id),
        forall|j: int| i < j < players.len() ==> !carries(players, j, id),
    ensures
        cache_after(cache, players).contains_key(id),
        cache_after(cache, players)[id] == players[i].weapon->0,
    decreases players.len(),
{
    let n = players.len() - 1;
    let prev = players.drop_last();
    if i < n {
        assert(!carries(players, n, id));
        assert(carries(prev, i, id));
        assert forall|j: int| i < j < prev.len() implies !carries(prev, j, id) by {
            assert(!carries(players, j, id));
        }
        lemma_cache_last(cache, prev, id, i);
    }
}

/// After a frame, the weapon cache holds for each entity the weapon of the
/// last player with that id that carried one; entities that carried none
/// keep what the cache held before.
pub proof fn law_cache_keeps_last_weapon(cache: Map<u32, String>, players: Seq<RawPlayer>, id: u32)
    ensures
        forall|i: int|
            0 <= i < players.len() && carries(players, i, id) && (forall|j: int|
                i < j < players.len() ==> !carries(players, j, id)) ==> {
                &&& #[trigger] cache_after(cache, players).contains_key(id)
                &&& cache_after(cache, players)[id] == players[i].weapon->0
            },
        (forall|i: int| 0 <= i < players.len() ==> !carries(players, i, id)) ==> {
            &&& cache_after(cache, players).contains_key(id) == cache.contains_key(id)
            &&& cache_after(cache, players)[id] == cache[id]
        },
{
    assert forall|i: int|
        0 <= i < players.len() && carries(players, i, id) && (forall|j: int|
            i < j < players.len() ==> !carries(players, j, id)) implies {
            &&& #[trigger] cache_after(cache, players).contains_key(id)
            &&& cache_after(cache, players)[id] == players[i].weapon->0
        } by {
        lemma_cache_last(cache, players, id, i);
    }
    if forall|i: int| 0 <= i < players.len() ==> !carries(players, i, id) {
        lemma_cache_untouched(cache, players, id);
    }
}

/// Every snapshot the engine sends, placeholder or not, carries the
/// protocol version and the engine's header: its interpolation window and
/// tick interval, and the build and source of the pack in use.
pub proof fn law_snapshots_are_versioned(
    s: RadarSnapshot,
    config: EngineConfig,
    source: DumpSource,
    build: Option<u32>,
    invalid_frames: u16,
    status: EngineStatus,
    frame: RawFrame,
    threats: FrameThreats,
)
    requires
        is_empty_snapshot(s, config, source, build, status) || is_frame_snapshot(
            s,
            config,
            source,
            build,
            invalid_frames,
            frame,
            threats,
        ),
    ensures
        s.protocol_version == PROTOCOL_VERSION,
        s.interpolation_window_ms == config.interpolation_window_ms,
        s.diagnostics.tick_interval_ms == config.tick_interval_ms,
        s.diagnostics.build_number == build,
        s.diagnostics.offset_source@ == if source == DumpSource::User {
            "user"@
        } else {
            "embedded"@
        },
{
}

/// A usable frame ends any streak of unusable ones, so earlier frames never
/// affect its status: it is healthy, or recovering only when the threshold
/// is zero.
pub proof fn law_usable_frame_resets_status(
    s: RadarSnapshot,
    config: EngineConfig,
    source: DumpSource,
    build: Option<u32>,
    frame: RawFrame,
    threats: FrameThreats,
)
    requires
        is_frame_snapshot(s, config, source, build, 0, frame, threats),
    ensures
        s.diagnostics.engine_status == if config.invalid_frame_threshold == 0 {
            EngineStatus::Recovering
        } else {
            EngineStatus::Healthy
        },
{
}

/// Each unusable frame counts one more, never past the largest count.
pub proof fn law_unusable_frames_count_up(count: u16)
    ensures
        bump(count) >= count,
        count < u16::MAX ==> bump(count) == count + 1,
        count == u16::MAX ==> bump(count) == u16::MAX,
{
}

/// A usable frame's snapshot carries the frame itself: its tick and time,
/// the match state field for field (map, round, phase, each team's score,
/// local team), every player's own fields with the threat assessed for that
/// player, the bomb's fields (with a damage estimate exactly when it is
/// planted at a known position), and every grenade and dropped weapon, in
/// the frame's order.
pub proof fn law_snapshot_carries_the_frame(
    s: RadarSnapshot,
    config: EngineConfig,
    source: DumpSource,
    build: Option<u32>,
    invalid_frames: u16,
    frame: RawFrame,
    threats: FrameThreats,
)
    requires
        is_frame_snapshot(s, config, source, build, invalid_frames, frame, threats),
    ensures
        s.tick == frame.tick,
        s.timestamp_ms == frame.timestamp_ms,
        s.match_state.map_name == frame.match_state.map_name,
        s.match_state.round == frame.match_state.round,
        s.match_state.phase == frame.match_state.phase,
        s.match_state.score_t == frame.match_state.score_t,
        s.match_state.score_ct == frame.match_state.score_ct,
        s.match_state.local_team == frame.match_state.local_team,
        s.players@.len() == frame.players@.len(),
        forall|i: int|
            0 <= i < s.players@.len() ==> {
                let p = #[trigger] s.players@[i];
                let q = frame.players@[i];
                &&& p.entity_id == q.entity_id
                &&& p.steam_name == q.steam_name
                &&& p.team == q.team
                &&& p.alive == q.alive
                &&& p.position == q.position
                &&& p.z_bits == q.z_bits
                &&& p.health == q.health
                &&& p.armor == q.armor
                &&& p.money == q.money
                &&& p.weapon == q.weapon
                &&& p.has_bomb == q.has_bomb
                &&& p.is_scoped == q.is_scoped
                &&& p.is_flashed == q.is_flashed
                &&& p.ping_ms == q.ping_ms
                &&& p.visible_proxy == q.visible_proxy
                &&& p.spotted == q.spotted
                &&& p.staleness_ms == q.staleness_ms
                &&& p.threat_score_bits == threats.players@[i].score_bits
                &&& p.threat_band == threats.players@[i].band
            },
        s.bomb is Some <==> frame.bomb is Some,
        frame.bomb matches Some(b) ==> {
            let sb = s.bomb->0;
            &&& sb.status == b.status
            &&& sb.position == b.position
            &&& sb.site == b.site
            &&& sb.timer_remaining_ms == b.timer_remaining_ms
            &&& sb.defuse_remaining_ms == b.defuse_remaining_ms
            &&& (sb.predicted_damage_bits is Some <==> (b.status == BombStatus::Planted && b.position is Some))
            &&& (sb.survival_band is Some <==> (b.status == BombStatus::Planted && b.position is Some))
            &&& (b.status == BombStatus::Planted && b.position is Some) ==> {
                &&& sb.predicted_damage_bits == Some(threats.bomb->0.damage_bits)
                &&& sb.survival_band == Some(threats.bomb->0.band)
            }
        },
        s.grenades@.len() == frame.grenades@.len(),
        forall|i: int|
            0 <= i < s.grenades@.len() ==> {
                let g = #[trigger] s.grenades@[i];
                let r = frame.grenades@[i];
                &&& g.entity_id == r.entity_id
                &&& g.kind == r.kind
                &&& g.position == r.position
                &&& g.remaining_ms == r.remaining_ms
                &&& g.owner_team == r.owner_team
            },
        s.dropped_weapons@.len() == frame.dropped_weapons@.len(),
        forall|i: int|
            0 <= i < s.dropped_weapons@.len() ==> {
                let w = #[trigger] s.dropped_weapons@[i];
                let r = frame.dropped_weapons@[i];
                &&& w.entity_id == r.entity_id
                &&& w.weapon_name == r.weapon_name
                &&& w.position == r.position
                &&& w.ammo_clip == r.ammo_clip
            },
{
    assert forall|i: int| 0 <= i < s.grenades@.len() implies {
        let g = #[trigger] s.grenades@[i];
        let r = frame.grenades@[i];
        &&& g.entity_id == r.entity_id
        &&& g.kind == r.kind
        &&& g.position == r.position
        &&& g.remaining_ms == r.remaining_ms
        &&& g.owner_team == r.owner_team
    } by {
        assert(s.grenades@[i] == grenade_state_of(frame.grenades@[i]));
    }
    assert forall|i: int| 0 <= i < s.dropped_weapons@.len() implies {
        let w = #[trigger] s.dropped_weapons@[i];
        let r = frame.dropped_weapons@[i];
        &&& w.entity_id == r.entity_id
        &&& w.weapon_name == r.weapon_name
        &&& w.position == r.position
        &&& w.ammo_clip == r.ammo_clip
    } by {
        assert(s.dropped_weapons@[i] == dropped_weapon_state_of(frame.dropped_weapons@[i]));
    }
}

/// The weapon a player carries raises its threat by a fixed factor, in
/// tenths, whatever the capitalization of its name: 2.0 for the AWP, 1.7 for
/// the SSG 08, 1.5 for the AK-47 and both M4A1s, 1.3 for the Desert Eagle
/// and the R8 revolver, 1.1 for the Glock and the USP-S, and 1.0 with no
/// weapon.
pub proof fn law_weapon_factors(w: Seq<char>)
    ensures
        weapon_factor_tenths_of(None) == 10,
        w.map_values(|c: char| ascii_lower(c)) == "weapon_awp"@ ==> weapon_factor_tenths_of(Some(w)) == 20,
        w.map_values(|c: char| ascii_lower(c)) == "weapon_ssg08"@ ==> weapon_factor_tenths_of(Some(w)) == 17,
        w.map_values(|c: char| ascii_lower(c)) == "weapon_ak47"@ ==> weapon_factor_tenths_of(Some(w)) == 15,
        w.map_values(|c: char| ascii_lower(c)) == "weapon_m4a1"@ ==> weapon_factor_tenths_of(Some(w)) == 15,
        w.map_values(|c: char| ascii_lower(c)) == "weapon_m4a1_silencer"@ ==> weapon_factor_tenths_of(Some(w)) == 15,
        w.map_values(|c: char| ascii_lower(c)) == "weapon_deagle"@ ==> weapon_factor_tenths_of(Some(w)) == 13,
        w.map_values(|c: char| ascii_lower(c)) == "weapon_revolver"@ ==> weapon_factor_tenths_of(Some(w)) == 13,
        w.map_values(|c: char| ascii_lower(c)) == "weapon_glock"@ ==> weapon_factor_tenths_of(Some(w)) == 11,
        w.map_values(|c: char| ascii_lower(c)) == "weapon_usp_silencer"@ ==> weapon_factor_tenths_of(Some(w)) == 11,
{
    reveal_strlit("weapon_awp");
    reveal_strlit("weapon_ssg08");
    reveal_strlit("weapon_ak47");
    reveal_strlit("weapon_m4a1");
    reveal_strlit("weapon_m4a1_silencer");
    reveal_strlit("weapon_deagle");
    reveal_strlit("weapon_revolver");
    reveal_strlit("weapon_glock");
    reveal_strlit("weapon_usp_silencer");
    assert("weapon_ak47"@[7] != "weapon_awp"@[7] || "weapon_ak47"@.len() != "weapon_awp"@.len());
    assert("weapon_ak47"@ != "weapon_awp"@);
    assert("weapon_ak47"@ != "weapon_ssg08"@);
    assert("weapon_m4a1"@ != "weapon_awp"@);
    assert("weapon_m4a1"@.len() == 11 && "weapon_ssg08"@.len() == 12);
    assert("weapon_m4a1"@ != "weapon_ssg08"@);
    assert("weapon_m4a1_silencer"@ != "weapon_awp"@);
    assert("weapon_m4a1_silencer"@.len() == 20);
    assert("weapon_m4a1_silencer"@ != "weapon_ssg08"@);
    assert("weapon_awp"@ != "weapon_ssg08"@);
    assert("weapon_deagle"@[7] != "weapon_ssg08"@[7]);
    assert("weapon_deagle"@ != "weapon_awp"@ && "weapon_deagle"@ != "weapon_ssg08"@);
    assert("weapon_deagle"@ != "weapon_ak47"@ && "weapon_deagle"@ != "weapon_m4a1"@ && "weapon_deagle"@ != "weapon_m4a1_silencer"@);
    assert("weapon_revolver"@ != "weapon_awp"@ && "weapon_revolver"@ != "weapon_ssg08"@);
    assert("weapon_revolver"@ != "weapon_ak47"@ && "weapon_revolver"@ != "weapon_m4a1"@ && "weapon_revolver"@ != "weapon_m4a1_silencer"@);
    assert("weapon_glock"@[7] != "weapon_ssg08"@[7] && "weapon_glock"@[7] != "weapon_deagle"@[7]);
    assert("weapon_glock"@ != "weapon_awp"@ && "weapon_glock"@ != "weapon_ssg08"@);
    assert("weapon_glock"@ != "weapon_ak47"@ && "weapon_glock"@ != "weapon_m4a1"@ && "weapon_glock"@ != "weapon_m4a1_silencer"@);
    assert("weapon_glock"@ != "weapon_deagle"@ && "weapon_glock"@ != "weapon_revolver"@);
    assert("weapon_usp_silencer"@ != "weapon_awp"@ && "weapon_usp_silencer"@ != "weapon_ssg08"@);
    assert("weapon_usp_silencer"@ != "weapon_ak47"@ && "weapon_usp_silencer"@ != "weapon_m4a1"@);
    assert("weapon_usp_silencer"@[7] != "weapon_m4a1_silencer"@[7]);
    assert("weapon_usp_silencer"@ != "weapon_m4a1_silencer"@);
    assert("weapon_usp_silencer"@ != "weapon_deagle"@ && "weapon_usp_silencer"@ != "weapon_revolver"@);
}

/// The stale count is the number of players not updated for longer than
/// the limit.
pub proof fn law_stale_count_counts_stale_players(players: Seq<RawPlayer>, limit: u64)
    ensures
        stale_count(players, limit) == players.filter(|p: RawPlayer| p.staleness_ms > limit).len(),
    decreases players.len(),
{
    reveal(Seq::filter);
    if players.len() > 0 {
        law_stale_count_counts_stale_players(players.drop_last(), limit);
    }
}

/// A usable frame's snapshot counts as stale the players not updated for
/// longer than three tick intervals.
pub proof fn law_stale_after_three_ticks(
    s: RadarSnapshot,
    config: EngineConfig,
    source: DumpSource,
    build: Option<u32>,
    invalid_frames: u16,
    frame: RawFrame,
    threats: FrameThreats,
)
    requires
        is_frame_snapshot(s, config, source, build, invalid_frames, frame, threats),
    ensures
        s.diagnostics.stale_entities == frame.players@.filter(
            |p: RawPlayer| p.staleness_ms > 3 * config.tick_interval_ms,
        ).len() as u16,
{
    let limit = (config.tick_interval_ms * 3) as u64;
    law_stale_count_counts_stale_players(frame.players@, limit);
    assert(frame.players@.filter(|p: RawPlayer| p.staleness_ms > limit) =~= frame.players@.filter(
        |p: RawPlayer| p.staleness_ms > 3 * config.tick_interval_ms,
    ));
}

/// While no usable frame is available the engine sends a placeholder: no
/// entities, tick and time zero, an `unknown` map in the `waiting` phase with
/// no score and no local team, and no stale players.
pub proof fn law_placeholder_snapshot(
    s: RadarSnapshot,
    config: EngineConfig,
    source: DumpSource,
    build: Option<u32>,
    status: EngineStatus,
)
    requires
        is_empty_snapshot(s, config, source, build, status),
    ensures
        s.tick == 0,
        s.timestamp_ms == 0,
        s.players@.len() == 0,
        s.bomb is None,
        s.grenades@.len() == 0,
        s.dropped_weapons@.len() == 0,
        s.match_state.map_name@ == "unknown"@,
        s.match_state.phase@ == "waiting"@,
        s.match_state.round == 0,
        s.match_state.score_t == 0,
        s.match_state.score_ct == 0,
        s.match_state.local_team == Team::Unknown,
        s.diagnostics.engine_status == status,
        s.diagnostics.stale_entities == 0,
        s.protocol_version == PROTOCOL_VERSION,
{
}

/// Threats are measured from the position of the first local player, or
/// from the origin when no player is local.
pub proof fn law_origin_is_first_local_player(players: Seq<RawPlayer>, j: int)
    ensures
        0 <= j < players.len() && players[j].is_local && (forall|k: int| 0 <= k < j ==> !(#[trigger] players[k]).is_local)
            ==> local_origin_of(players) == players[j].position,
        (forall|k: int| 0 <= k < players.len() ==> !(#[trigger] players[k]).is_local) ==> local_origin_of(players) == (Vec2 {
            x_bits: 0,
            y_bits: 0,
        }),
    decreases players.len(),
{
    if players.len() > 0 {
        let rest = players.drop_first();
        law_origin_is_first_local_player(rest, j - 1);
        if 0 <= j < players.len() && players[j].is_local && (forall|k: int| 0 <= k < j ==> !(#[trigger] players[k]).is_local) {
            if j > 0 {
                assert(!players[0].is_local);
                assert(rest[j - 1] == players[j]);
                assert forall|k: int| 0 <= k < j - 1 implies !(#[trigger] rest[k]).is_local by {
                    assert(rest[k] == players[k + 1]);
                }
            }
        }
        if forall|k: int| 0 <= k < players.len() ==> !(#[trigger] players[k]).is_local {
            assert(!players[0].is_local);
            assert forall|k: int| 0 <= k < rest.len() implies !(#[trigger] rest[k]).is_local by {
                assert(rest[k] == players[k + 1]);
            }
        }
    }
}

} // verus!