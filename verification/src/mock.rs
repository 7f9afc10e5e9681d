//! A synthetic data provider: ten players circling the map, a bomb that is
//! carried and then planted, one grenade and one dropped rifle per frame.
use rand::Rng;
use vstd::prelude::*;
use crate::clock::now_ms;
use crate::contracts::{BombStatus, GrenadeKind, Team, Vec2};
use crate::engine::{is_blank, local_origin_of};
use crate::model::{RawBomb, RawDroppedWeapon, RawFrame, RawGrenade, RawMatchState, RawPlayer};
use crate::text::{decimal, u64_decimal};

verus! {

/// The thread-local random generator of `rand`, carried as it is.
#[verifier::external_type_specification]
#[verifier::external_body]
pub struct ExThreadRng(rand::rngs::ThreadRng);

/// Calls `rand::rng`, a handle on the thread-local generator.
#[verifier::external_body]
fn thread_rng() -> rand::rngs::ThreadRng {
    rand::rng()
}

/// Calls `Rng::random_range` with the inclusive range `low..=high`, which is
/// documented to return a value of that range (and to panic on an empty one,
/// which `requires` leaves out). Which value comes back is up to chance.
#[verifier::external_body]
fn random_between(rng: &mut rand::rngs::ThreadRng, low: u64, high: u64) -> (r: u64)
    requires
        low <= high,
    ensures
        low <= r <= high,
{
    rng.random_range(low..=high)
}

/// Where the players and the grenade of the next frame stand; the circling
/// motion and the grenade's scatter are computed in floating point outside
/// the library.
#[derive(Clone, Debug)]
pub struct MockPositions {
    pub players: Vec<Vec2>,
    pub grenade: Vec2,
}

/// The generator: a tick counter and a random source.
pub struct MockProvider {
    tick: u64,
    rng: rand::rngs::ThreadRng,
}

/// The weapon the `i`-th mock player carries.
pub open spec fn mock_weapon(i: nat) -> Seq<char> {
    if i % 3 == 0 {
        "weapon_ak47"@
    } else if i % 2 == 0 {
        "weapon_awp"@
    } else {
        "weapon_m4a1"@
    }
}

/// The `i`-th mock player: fixed identity, team, weapon and flags; health,
/// armor, money, ping and staleness drawn from their ranges.
pub open spec fn is_mock_player(p: RawPlayer, i: nat, position: Vec2) -> bool {
    &&& p.entity_id == i + 1
    &&& p.steam_name@ == "Player"@ + decimal(i + 1)
    &&& p.team == if i < 5 {
        Team::CounterTerrorists
    } else {
        Team::Terrorists
    }
    &&& p.alive
    &&& p.position == position
    &&& p.z_bits == 0
    &&& 55 <= p.health <= 100
    &&& p.armor <= 100
    &&& p.money <= 8500
    &&& p.weapon matches Some(w) && w@ == mock_weapon(i)
    &&& p.has_bomb == (i == 7)
    &&& p.is_scoped == (i % 2 == 0)
    &&& p.is_flashed == (i % 5 == 0)
    &&& 8 <= p.ping_ms <= 70
    &&& p.visible_proxy == (i % 2 == 1)
    &&& p.spotted == (i % 3 != 0)
    &&& p.staleness_ms <= 90
    &&& p.is_local == (i == 0)
}

/// The bomb timer at `tick`: forty seconds, less 120 ms per tick, not below zero.
pub open spec fn mock_timer(tick: u64) -> u32 {
    if 40000 - tick * 120 < 0 {
        0
    } else {
        (40000 - tick * 120) as u32
    }
}

/// The bomb at `tick`: carried for the first hundred ticks of every two
/// hundred, then planted at a fixed spot on site A (even ticks) or B.
pub open spec fn is_mock_bomb(b: RawBomb, tick: u64) -> bool {
    if tick % 200 < 100 {
        &&& b.status == BombStatus::Carried
        &&& b.position is None
        &&& b.site is None
        &&& b.timer_remaining_ms is None
        &&& b.defuse_remaining_ms is None
    } else {
        &&& b.status == BombStatus::Planted
        &&& b.position == Some(Vec2 { x_bits: 0x41a0_0000, y_bits: 0xc220_0000 })
        &&& b.site matches Some(s) && s@ == if tick % 2 == 0 {
            "A"@
        } else {
            "B"@
        }
        &&& b.timer_remaining_ms == Some(mock_timer(tick))
        &&& b.defuse_remaining_ms == Some(9500u32)
    }
}

/// The frame generated at `tick` with the given positions.
pub open spec fn is_mock_frame(f: RawFrame, tick: u64, positions: MockPositions) -> bool {
    &&& f.tick == tick
    &&& f.match_state.map_name@ == "de_dust2"@
    &&& f.match_state.round == ((tick / 200) % 30) as u16
    &&& f.match_state.phase@ == "live"@
    &&& f.match_state.score_t == ((tick / 400) % 13) as u8
    &&& f.match_state.score_ct == ((tick / 450) % 13) as u8
    &&& f.match_state.local_team == Team::CounterTerrorists
    &&& f.players@.len() == 10
    &&& forall|i: int| 0 <= i < 10 ==> is_mock_player(#[trigger] f.players@[i], i as nat, positions.players@[i])
    &&& f.bomb matches Some(b) && is_mock_bomb(b, tick)
    &&& f.grenades@.len() == 1
    &&& f.grenades@[0].entity_id == 1000 + (tick as u32)
    &&& f.grenades@[0].kind == if tick % 2 == 0 {
        GrenadeKind::Smoke
    } else {
        GrenadeKind::Flash
    }
    &&& f.grenades@[0].position == positions.grenade
    &&& 300 <= f.grenades@[0].remaining_ms < 2600
    &&& f.grenades@[0].owner_team == if tick % 2 == 0 {
        Team::CounterTerrorists
    } else {
        Team::Terrorists
    }
    &&& f.dropped_weapons@.len() == 1
    &&& f.dropped_weapons@[0].entity_id == 2000
    &&& f.dropped_weapons@[0].weapon_name@ == "weapon_ak47"@
    &&& f.dropped_weapons@[0].position == Vec2 { x_bits: 0x42c8_0000, y_bits: 0x4270_0000 }
    &&& f.dropped_weapons@[0].ammo_clip == Some(18u16)
}

/// Whether the generator can produce the frame of `tick` without overflow:
/// the tick counter, the bomb timer and the grenade id stay in range.
pub open spec fn tick_supported(tick: u64) -> bool {
    &&& tick % 200 >= 100 ==> tick * 120 <= i64::MAX
    &&& (tick as u32) + 1000 <= u32::MAX
}

impl MockProvider {
    /// The tick counter.
    pub closed spec fn tick(&self) -> u64 {
        self.tick
    }

    /// A generator at tick zero.
    pub fn new() -> (p: MockProvider)
        ensures
            p.tick() == 0,
    {
        MockProvider { tick: 0, rng: thread_rng() }
    }

    /// The game build the mock data stands for.
    pub fn current_build_number(&self) -> (build: Option<u32>)
        ensures
            build == Some(15000u32),
    {
        Some(15000)
    }

    /// The tick of the next frame, or none when the counter is exhausted.
    pub fn next_tick(&self) -> (t: Option<u64>)
        ensures
            t == if self.tick() < u64::MAX {
                Some((self.tick() + 1) as u64)
            } else {
                None
            },
    {
        if self.tick < u64::MAX {
            Some(self.tick + 1)
        } else {
            None
        }
    }

    /// Whether the frame of `tick` can be generated without overflow.
    pub fn tick_is_supported(tick: u64) -> (ok: bool)
        ensures
            ok == tick_supported(tick),
    {
        let bomb_ok = tick % 200 < 100 || tick <= 76_861_433_640_456_465u64;
        let id_ok = (tick as u32) <= 4_294_966_295u32;
        bomb_ok && id_ok
    }

    /// A name such as `Player3`.
    fn player_name(n: u64) -> (name: String)
        ensures
            name@ == "Player"@ + decimal(n as nat),
    {
        let mut name = String::from_str("Player");
        let digits = u64_decimal(n);
        name.append(digits.as_str());
        name
    }

    /// Advances to the next tick and generates its frame, with the given positions.
    pub fn poll_frame_with(&mut self, positions: &MockPositions) -> (frame: Option<RawFrame>)
        requires
            old(self).tick() < u64::MAX,
            tick_supported((old(self).tick() + 1) as u64),
            positions.players@.len() == 10,
        ensures
            final(self).tick() == old(self).tick() + 1,
            frame matches Some(f) && is_mock_frame(f, final(self).tick(), *positions),
    {
        self.tick = self.tick + 1;
        let tick = self.tick;
        let timestamp_ms = now_ms();

        let mut players: Vec<RawPlayer> = Vec::new();
        let mut i: u64 = 0;
        while i < 10
            invariant
                i <= 10,
                self.tick == tick,
                tick == old(self).tick() + 1,
                positions.players@.len() == 10,
                players@.len() == i,
                forall|j: int| 0 <= j < i ==> is_mock_player(#[trigger] players@[j], j as nat, positions.players@[j]),
            decreases 10 - i,
        {
            let team = if i < 5 {
                Team::CounterTerrorists
            } else {
                Team::Terrorists
            };
            let weapon = if i % 3 == 0 {
                String::from_str("weapon_ak47")
            } else if i % 2 == 0 {
                String::from_str("weapon_awp")
            } else {
                String::from_str("weapon_m4a1")
            };
            let health = random_between(&mut self.rng, 55, 100) as u16;
            let armor = random_between(&mut self.rng, 0, 100) as u16;
            let money = random_between(&mut self.rng, 0, 8500) as u32;
            let ping_ms = random_between(&mut self.rng, 8, 70) as u32;
            let staleness_ms = random_between(&mut self.rng, 0, 90);
            players.push(RawPlayer {
                entity_id: (i + 1) as u32,
                steam_name: MockProvider::player_name(i + 1),
                team,
                alive: true,
                position: positions.players[i as usize],
                z_bits: 0,
                health,
                armor,
                money,
                weapon: Some(weapon),
                has_bomb: i == 7,
                is_scoped: i % 2 == 0,
                is_flashed: i % 5 == 0,
                ping_ms,
                visible_proxy: i % 2 == 1,
                spotted: i % 3 != 0,
                staleness_ms,
                is_local: i == 0,
            });
            i = i + 1;
        }

        let bomb = if tick % 200 < 100 {
            RawBomb {
                status: BombStatus::Carried,
                position: None,
                site: None,
                timer_remaining_ms: None,
                defuse_remaining_ms: None,
            }
        } else {
            let left: i64 = 40000 - (tick as i64) * 120;
            let timer: u32 = if left < 0 {
                0
            } else {
                left as u32
            };
            RawBomb {
                status: BombStatus::Planted,
                position: Some(Vec2 { x_bits: 0x41a0_0000, y_bits: 0xc220_0000 }),
                site: Some(
                    if tick % 2 == 0 {
                        String::from_str("A")
                    } else {
                        String::from_str("B")
                    },
                ),
                timer_remaining_ms: Some(timer),
                defuse_remaining_ms: Some(9500),
            }
        };

        let grenade = RawGrenade {
            entity_id: 1000 + (tick as u32),
            kind: if tick % 2 == 0 {
                GrenadeKind::Smoke
            } else {
                GrenadeKind::Flash
            },
            position: positions.grenade,
            remaining_ms: random_between(&mut self.rng, 300, 2599) as u32,
            owner_team: if tick % 2 == 0 {
                Team::CounterTerrorists
            } else {
                Team::Terrorists
            },
        };
        let dropped = RawDroppedWeapon {
            entity_id: 2000,
            weapon_name: String::from_str("weapon_ak47"),
            position: Vec2 { x_bits: 0x42c8_0000, y_bits: 0x4270_0000 },
            ammo_clip: Some(18),
        };

        Some(RawFrame {
            tick,
            timestamp_ms,
            match_state: RawMatchState {
                map_name: String::from_str("de_dust2"),
                round: ((tick / 200) % 30) as u16,
                phase: String::from_str("live"),
                score_t: ((tick / 400) % 13) as u8,
                score_ct: ((tick / 450) % 13) as u8,
                local_team: Team::CounterTerrorists,
            },
            players,
            bomb: Some(bomb),
            grenades: vec![grenade],
            dropped_weapons: vec![dropped],
        })
    }
}


impl Default for MockProvider {
    fn default() -> (p: Self)
        ensures
            p.tick() == 0,
    {
        MockProvider::new()
    }
}

/// Every generated frame has its tick, ten living players whose health,
/// armor, money, ping and staleness lie in their ranges, one grenade with
/// 300 to 2599 ms left, and one dropped weapon.
pub proof fn law_mock_values_in_range(f: RawFrame, tick: u64, positions: MockPositions)
    requires
        is_mock_frame(f, tick, positions),
    ensures
        f.tick == tick,
        f.players@.len() == 10,
        forall|i: int|
            0 <= i < 10 ==> {
                let q = #[trigger] f.players@[i];
                &&& q.alive
                &&& 55 <= q.health <= 100
                &&& q.armor <= 100
                &&& q.money <= 8500
                &&& 8 <= q.ping_ms <= 70
                &&& q.staleness_ms <= 90
            },
        f.grenades@.len() == 1,
        300 <= f.grenades@[0].remaining_ms < 2600,
        f.dropped_weapons@.len() == 1,
{
    assert forall|i: int| 0 <= i < 10 implies {
        let q = #[trigger] f.players@[i];
        &&& q.alive
        &&& 55 <= q.health <= 100
        &&& q.armor <= 100
        &&& q.money <= 8500
        &&& 8 <= q.ping_ms <= 70
        &&& q.staleness_ms <= 90
    } by {
        assert(is_mock_player(f.players@[i], i as nat, positions.players@[i]));
    }
}

/// The bomb follows a fixed schedule: carried for the first hundred ticks of
/// every two hundred, then planted at (20, -40) on site A at even ticks and B
/// at odd ones, with forty seconds less 120 ms per tick left (never below
/// zero); the round advances every two hundred ticks, modulo thirty.
pub proof fn law_mock_bomb_schedule(f: RawFrame, tick: u64, positions: MockPositions)
    requires
        is_mock_frame(f, tick, positions),
    ensures
        f.bomb is Some,
        f.bomb->0.status == if tick % 200 < 100 {
            BombStatus::Carried
        } else {
            BombStatus::Planted
        },
        tick % 200 >= 100 ==> {
            &&& f.bomb->0.position == Some(Vec2 { x_bits: 0x41a0_0000, y_bits: 0xc220_0000 })
            &&& f.bomb->0.site matches Some(site) && site@ == if tick % 2 == 0 {
                "A"@
            } else {
                "B"@
            }
            &&& f.bomb->0.timer_remaining_ms == Some(
                if tick * 120 > 40000 {
                    0u32
                } else {
                    (40000 - tick * 120) as u32
                },
            )
        },
        f.match_state.round == ((tick / 200) % 30) as u16,
{
}

/// The mock roster: players numbered from one, the first five
/// counter-terrorists and the rest terrorists; the first is the local
/// player and the eighth carries the bomb; every third (from the first) an
/// AK-47, the other even-numbered places an AWP, the rest an M4A1; with the
/// given positions. One grenade (a smoke at even ticks, a flash at odd ones)
/// and one AK-47 on the ground; the match on `de_dust2`, live, with scores
/// that advance every 400 and 450 ticks.
pub proof fn law_mock_roster(f: RawFrame, tick: u64, positions: MockPositions)
    requires
        is_mock_frame(f, tick, positions),
    ensures
        forall|i: int|
            0 <= i < 10 ==> {
                let q = #[trigger] f.players@[i];
                &&& q.entity_id == i + 1
                &&& q.steam_name@ == "Player"@ + decimal((i + 1) as nat)
                &&& q.team == if i < 5 {
                    Team::CounterTerrorists
                } else {
                    Team::Terrorists
                }
                &&& q.is_local == (i == 0)
                &&& q.has_bomb == (i == 7)
                &&& q.weapon is Some
                &&& q.weapon->0@ == if i % 3 == 0 {
                    "weapon_ak47"@
                } else if i % 2 == 0 {
                    "weapon_awp"@
                } else {
                    "weapon_m4a1"@
                }
                &&& q.is_scoped == (i % 2 == 0)
                &&& q.is_flashed == (i % 5 == 0)
                &&& q.visible_proxy == (i % 2 == 1)
                &&& q.spotted == (i % 3 != 0)
                &&& q.position == positions.players@[i]
            },
        f.grenades@[0].entity_id == 1000 + (tick as u32),
        f.grenades@[0].kind == if tick % 2 == 0 {
            GrenadeKind::Smoke
        } else {
            GrenadeKind::Flash
        },
        f.grenades@[0].owner_team == if tick % 2 == 0 {
            Team::CounterTerrorists
        } else {
            Team::Terrorists
        },
        f.grenades@[0].position == positions.grenade,
        f.dropped_weapons@[0].entity_id == 2000,
        f.dropped_weapons@[0].weapon_name@ == "weapon_ak47"@,
        f.dropped_weapons@[0].ammo_clip == Some(18u16),
        f.match_state.map_name@ == "de_dust2"@,
        f.match_state.phase@ == "live"@,
        f.match_state.local_team == Team::CounterTerrorists,
        f.match_state.score_t == ((tick / 400) % 13) as u8,
        f.match_state.score_ct == ((tick / 450) % 13) as u8,
{
    assert forall|i: int| 0 <= i < 10 implies {
        let q = #[trigger] f.players@[i];
        &&& q.entity_id == i + 1
        &&& q.steam_name@ == "Player"@ + decimal((i + 1) as nat)
        &&& q.team == if i < 5 {
            Team::CounterTerrorists
        } else {
            Team::Terrorists
        }
        &&& q.is_local == (i == 0)
        &&& q.has_bomb == (i == 7)
        &&& q.weapon is Some
        &&& q.weapon->0@ == if i % 3 == 0 {
            "weapon_ak47"@
        } else if i % 2 == 0 {
            "weapon_awp"@
        } else {
            "weapon_m4a1"@
        }
        &&& q.is_scoped == (i % 2 == 0)
        &&& q.is_flashed == (i % 5 == 0)
        &&& q.visible_proxy == (i % 2 == 1)
        &&& q.spotted == (i % 3 != 0)
        &&& q.position == positions.players@[i]
    } by {
        assert(is_mock_player(f.players@[i], i as nat, positions.players@[i]));
    }
}

/// Every generated frame is usable by the engine, and threats are measured
/// from the first player's position, the local one.
pub proof fn law_mock_frames_are_usable(f: RawFrame, tick: u64, positions: MockPositions)
    requires
        is_mock_frame(f, tick, positions),
    ensures
        !is_blank(f.match_state.map_name@),
        local_origin_of(f.players@) == positions.players@[0],
{
    reveal_strlit("de_dust2");
    assert(!crate::text::is_unicode_whitespace(f.match_state.map_name@[0]));
    assert(is_mock_player(f.players@[0], 0, positions.players@[0]));
}

} // verus!
