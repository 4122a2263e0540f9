//! Per-enemy state and the decisions each enemy makes every tick.
use crate::combat::{beam_carry_spec, beam_damage, beam_damage_spec, lowered, lower_health, projectile_damage, projectile_damage_spec, Bullet};
use crate::geometry::{dist_sq_spec, sq, Vec3};
use crate::random::gen_between;
use crate::random::gen_index;
use crate::timer::Timer;
use rand::rngs::StdRng;
use vstd::prelude::*;

verus! {

/// How far, horizontally, a destination may be jittered either way.
pub const JITTER_HORIZONTAL: i64 = 5_000;

/// How far below a destination it may be jittered.
pub const JITTER_DOWN: i64 = 20_000;

/// How often an enemy picks a new destination, in milliseconds.
pub const RETARGET_PERIOD_MS: u64 = 2_000;

/// How often an enemy's weapon becomes ready, in milliseconds.
pub const FIRE_PERIOD_MS: u64 = 900;

/// How far a beam reaches when it strikes nothing.
pub const BEAM_LENGTH: u64 = 100_000;

/// The two kinds of enemy.
#[derive(Clone, Copy, Debug, PartialEq, Eq, Structural)]
pub enum EnemyKind {
    /// Orbits at range and fires slow projectiles with splash damage.
    Orbie,
    /// Holds a damaging beam on the player while in range.
    Laserie,
}

/// Whether an enemy is alive, or dead and waiting to be removed.
#[derive(Clone, Copy, Debug, PartialEq, Eq, Structural)]
pub enum Life {
    Alive,
    /// Dead; removed once the simulation time reaches `time_to_despawn`.
    Dead { time_to_despawn: u64 },
}

/// Which way an enemy turns this tick.
#[derive(Clone, Copy, Debug, PartialEq, Eq, Structural)]
pub enum Facing {
    /// Toward the player, which is in range.
    Player,
    /// Toward its movement destination.
    Destination,
    /// It does not turn: it is dead.
    Hold,
}

/// What an enemy's weapon does this tick.
#[derive(Clone, Copy, Debug, PartialEq, Eq, Structural)]
pub enum FireAction {
    /// The weapon does nothing this tick.
    Hold,
    /// Launch this projectile along the enemy's forward direction.
    Projectile(Bullet),
    /// Cast the beam toward the player and resolve it with `Enemy::beam_shot`.
    Beam,
}

/// What a beam's ray cast found first.
#[derive(Clone, Copy, Debug, PartialEq, Eq, Structural)]
pub enum BeamHit {
    Player,
    /// Level geometry, this far from the enemy.
    Obstruction { distance: u64 },
    Nothing,
}

/// The effect of one tick of a beam.
#[derive(Clone, Copy, Debug, PartialEq, Eq, Structural)]
pub struct BeamShot {
    /// Damage to the player.
    pub damage: u32,
    /// How long the drawn beam is.
    pub length: u64,
}

/// One enemy.
#[derive(Clone, Copy, Debug, PartialEq, Eq, Structural)]
pub struct Enemy {
    pub kind: EnemyKind,
    pub health: i32,
    pub life: Life,
    /// Whether the player was in range at the last targeting update.
    pub within_range_of_player: bool,
    pub range: u32,
    /// Index into the director's destinations.
    pub current_destination: usize,
    pub current_random_offset: Vec3,
    pub update_destination_timer: Timer,
    /// Readies the weapon.
    pub fire_timer: Timer,
    /// Milli-units per second.
    pub move_speed: u32,
    pub weapon_damage: u32,
    pub weapon_splash_radius: u32,
    /// How quickly the enemy turns toward the player, in hundredths.
    pub turn_rate: u32,
    /// Beam damage dealt but not yet a whole point, in hundred-thousandths.
    pub beam_carry: u64,
}

/// The starting health of each kind.
pub open spec fn kind_health(kind: EnemyKind) -> i32 {
    match kind {
        EnemyKind::Orbie => 1000,
        EnemyKind::Laserie => 500,
    }
}

pub open spec fn kind_move_speed(kind: EnemyKind) -> u32 {
    match kind {
        EnemyKind::Orbie => 30_000,
        EnemyKind::Laserie => 38_000,
    }
}

pub open spec fn kind_weapon_damage(kind: EnemyKind) -> u32 {
    match kind {
        EnemyKind::Orbie => 40,
        EnemyKind::Laserie => 15,
    }
}

pub open spec fn kind_splash_radius(kind: EnemyKind) -> u32 {
    match kind {
        EnemyKind::Orbie => 8_000,
        EnemyKind::Laserie => 0,
    }
}

pub open spec fn kind_turn_rate(kind: EnemyKind) -> u32 {
    match kind {
        EnemyKind::Orbie => 90,
        EnemyKind::Laserie => 30,
    }
}

/// Whether `o` is a jitter that a destination refresh may draw.
pub open spec fn jitter_ok(o: Vec3) -> bool {
    &&& -JITTER_HORIZONTAL <= o.x <= JITTER_HORIZONTAL
    &&& -JITTER_DOWN <= o.y <= 0
    &&& -JITTER_HORIZONTAL <= o.z <= JITTER_HORIZONTAL
}

impl Enemy {
    pub open spec fn alive(self) -> bool {
        self.life is Alive
    }

    /// Whether the enemy is a fresh one of `kind`.
    pub open spec fn is_fresh(self, kind: EnemyKind) -> bool {
        &&& self.kind == kind
        &&& self.health == kind_health(kind)
        &&& self.life is Alive
        &&& !self.within_range_of_player
        &&& self.range == 100_000
        &&& self.current_destination == 0
        &&& self.current_random_offset == Vec3 { x: 0, y: 0, z: 0 }
        &&& self.update_destination_timer == Timer::fresh(RETARGET_PERIOD_MS, true)
        &&& self.fire_timer == Timer::fresh(FIRE_PERIOD_MS, true)
        &&& self.move_speed == kind_move_speed(kind)
        &&& self.weapon_damage == kind_weapon_damage(kind)
        &&& self.weapon_splash_radius == kind_splash_radius(kind)
        &&& self.turn_rate == kind_turn_rate(kind)
        &&& self.beam_carry == 0
    }

    /// The enemy after a targeting update with the player at `player_at`.
    pub open spec fn targeted(self, own: Vec3, player_at: Vec3, player_alive: bool) -> Enemy {
        if self.alive() {
            let within = player_alive && dist_sq_spec(own, player_at) <= sq(self.range as int);
            Enemy { within_range_of_player: within, ..self }
        } else {
            self
        }
    }

    /// The enemy after its weapon update.
    pub open spec fn fired(self, delta: u64, player_alive: bool) -> Enemy {
        if self.alive() && player_alive {
            Enemy { fire_timer: self.fire_timer.after_tick(delta), ..self }
        } else {
            self
        }
    }

    /// What the weapon does on a tick of `delta` milliseconds.
    pub open spec fn fire_action_spec(self, delta: u64, player_alive: bool, damage_multiplier: u32) -> FireAction {
        if !(self.alive() && player_alive) {
            FireAction::Hold
        } else {
            let t = self.fire_timer.after_tick(delta);
            match self.kind {
                EnemyKind::Orbie => if t.just_finished && self.within_range_of_player {
                    FireAction::Projectile(
                        Bullet {
                            damage: projectile_damage_spec(self.weapon_damage, damage_multiplier),
                            splash_radius: self.weapon_splash_radius,
                        },
                    )
                } else {
                    FireAction::Hold
                },
                EnemyKind::Laserie => if self.within_range_of_player {
                    FireAction::Beam
                } else {
                    FireAction::Hold
                },
            }
        }
    }

    /// Whether `self` is what a destination refresh of `prev` may yield: a
    /// living enemy's retarget timer advances, and when it fires the enemy
    /// heads for one of `destinations` with a jitter in range.
    pub open spec fn refreshed_from(self, prev: Enemy, delta: u64, destinations: [usize; 3]) -> bool {
        if !prev.alive() {
            self == prev
        } else {
            let t = prev.update_destination_timer.after_tick(delta);
            if t.just_finished {
                &&& destinations@.contains(self.current_destination)
                &&& jitter_ok(self.current_random_offset)
                &&& self == Enemy {
                    update_destination_timer: t,
                    current_destination: self.current_destination,
                    current_random_offset: self.current_random_offset,
                    ..prev
                }
            } else {
                self == Enemy { update_destination_timer: t, ..prev }
            }
        }
    }

    /// Whether a dead enemy's removal time has come.
    pub open spec fn due(self, now: u64) -> bool {
        match self.life {
            Life::Dead { time_to_despawn } => now >= time_to_despawn,
            Life::Alive => false,
        }
    }

    /// The enemy after taking `amount` damage.
    pub open spec fn damaged(self, amount: u32) -> Enemy {
        Enemy { health: lowered(self.health, amount), ..self }
    }

    /// The enemy after the death check at `now`.
    pub open spec fn death_checked(self, now: u64, linger_ms: u64) -> Enemy {
        if self.alive() && self.health <= 0 {
            let deadline = if now + linger_ms > u64::MAX {
                u64::MAX
            } else {
                (now + linger_ms) as u64
            };
            Enemy { life: Life::Dead { time_to_despawn: deadline }, ..self }
        } else {
            self
        }
    }

    /// A fresh enemy of the given kind.
    pub fn new(kind: EnemyKind) -> (r: Enemy)
        ensures
            r.is_fresh(kind),
    {
        let (health, move_speed, weapon_damage, weapon_splash_radius, turn_rate) = match kind {
            EnemyKind::Orbie => (1000, 30_000, 40, 8_000, 90),
            EnemyKind::Laserie => (500, 38_000, 15, 0, 30),
        };
        Enemy {
            kind,
            health,
            life: Life::Alive,
            within_range_of_player: false,
            range: 100_000,
            current_destination: 0,
            current_random_offset: Vec3 { x: 0, y: 0, z: 0 },
            update_destination_timer: Timer::new(RETARGET_PERIOD_MS, true),
            fire_timer: Timer::new(FIRE_PERIOD_MS, true),
            move_speed,
            weapon_damage,
            weapon_splash_radius,
            turn_rate,
            beam_carry: 0,
        }
    }

    pub fn is_alive(&self) -> (r: bool)
        ensures
            r == self.alive(),
    {
        matches!(self.life, Life::Alive)
    }

    /// Takes `amount` off the enemy's health. Whether it is alive or dead does
    /// not change here.
    pub fn take_damage(&mut self, amount: u32)
        ensures
            *final(self) == old(self).damaged(amount),
    {
        self.health = lower_health(self.health, amount);
    }

    /// Updates whether the player is in range (within `range` of the enemy at
    /// `own`, and alive) and says which way to turn. A dead enemy is left as it is.
    pub fn update_targeting(&mut self, own: &Vec3, player_at: &Vec3, player_alive: bool) -> (r: Facing)
        requires
            own.in_bounds(),
            player_at.in_bounds(),
        ensures
            *final(self) == old(self).targeted(*own, *player_at, player_alive),
            r == if !old(self).alive() {
                Facing::Hold
            } else if final(self).within_range_of_player {
                Facing::Player
            } else {
                Facing::Destination
            },
    {
        if !self.is_alive() {
            return Facing::Hold;
        }
        let within = player_alive && own.within(player_at, self.range);
        self.within_range_of_player = within;
        if within {
            Facing::Player
        } else {
            Facing::Destination
        }
    }

    /// Heads for destination `destinations[pick]`, jittered by `offset`.
    pub fn retarget(&mut self, destinations: &[usize; 3], pick: usize, offset: Vec3)
        requires
            pick < 3,
        ensures
            *final(self) == (Enemy {
                current_destination: destinations@[pick as int],
                current_random_offset: offset,
                ..*old(self)
            }),
    {
        self.current_destination = destinations[pick];
        self.current_random_offset = offset;
    }

    /// Advances the retarget timer by `delta` milliseconds; when it fires,
    /// heads for one of `destinations` drawn at random, with a fresh random
    /// jitter. A dead enemy is left as it is.
    pub fn refresh_destination(&mut self, delta: u64, destinations: &[usize; 3], rng: &mut StdRng)
        ensures
            final(self).refreshed_from(*old(self), delta, *destinations),
    {
        if !self.is_alive() {
            return;
        }
        self.update_destination_timer.tick(delta);
        if !self.update_destination_timer.just_finished() {
            return;
        }
        let pick = gen_index(rng, 3);
        let x = gen_between(rng, -JITTER_HORIZONTAL, JITTER_HORIZONTAL);
        let y = gen_between(rng, -JITTER_DOWN, 0);
        let z = gen_between(rng, -JITTER_HORIZONTAL, JITTER_HORIZONTAL);
        self.retarget(destinations, pick, Vec3 { x, y, z });
        assert(destinations@[pick as int] == self.current_destination);
    }

    /// Advances the weapon timer and decides whether to fire. Nothing happens
    /// while the enemy or the player is dead. An Orbie launches a projectile
    /// when the timer fires with the player in range; its damage is scaled by
    /// `damage_multiplier` (hundredths). A Laserie holds its beam on the player
    /// for every tick the player is in range.
    pub fn fire(&mut self, delta: u64, player_alive: bool, damage_multiplier: u32) -> (r: FireAction)
        ensures
            *final(self) == old(self).fired(delta, player_alive),
            r == old(self).fire_action_spec(delta, player_alive, damage_multiplier),
    {
        if !self.is_alive() || !player_alive {
            return FireAction::Hold;
        }
        self.fire_timer.tick(delta);
        match self.kind {
            EnemyKind::Orbie => {
                if self.fire_timer.just_finished() && self.within_range_of_player {
                    FireAction::Projectile(
                        Bullet {
                            damage: projectile_damage(self.weapon_damage, damage_multiplier),
                            splash_radius: self.weapon_splash_radius,
                        },
                    )
                } else {
                    FireAction::Hold
                }
            },
            EnemyKind::Laserie => {
                if self.within_range_of_player {
                    FireAction::Beam
                } else {
                    FireAction::Hold
                }
            },
        }
    }

    /// What this enemy's beam does over a tick of `delta` milliseconds, given
    /// what its ray cast struck first.
    pub open spec fn beam_shot_spec(self, delta: u64, damage_multiplier: u32, hit: BeamHit) -> BeamShot {
        match hit {
            BeamHit::Player => BeamShot {
                damage: beam_damage_spec(self.beam_carry, self.weapon_damage, damage_multiplier, delta),
                length: BEAM_LENGTH,
            },
            BeamHit::Obstruction { distance } => BeamShot { damage: 0, length: distance },
            BeamHit::Nothing => BeamShot { damage: 0, length: BEAM_LENGTH },
        }
    }

    /// The enemy after that tick: only a beam on the player moves the carry.
    pub open spec fn after_beam(self, delta: u64, damage_multiplier: u32, hit: BeamHit) -> Enemy {
        if hit == BeamHit::Player {
            Enemy { beam_carry: beam_carry_spec(self.beam_carry, self.weapon_damage, damage_multiplier, delta), ..self }
        } else {
            self
        }
    }

    /// The effect of this enemy's beam over a tick of `delta` milliseconds,
    /// given what its ray cast struck first. On the player it deals the
    /// weapon's damage per second scaled by the elapsed time and
    /// `damage_multiplier` (hundredths), in whole points; the fraction of a
    /// point left over is carried to the next tick, so nothing is lost to
    /// rounding. Otherwise the beam is drawn up to the obstruction.
    pub fn beam_shot(&mut self, delta: u64, damage_multiplier: u32, hit: BeamHit) -> (r: BeamShot)
        ensures
            r == old(self).beam_shot_spec(delta, damage_multiplier, hit),
            *final(self) == old(self).after_beam(delta, damage_multiplier, hit),
    {
        match hit {
            BeamHit::Player => {
                let (damage, carry) = beam_damage(self.beam_carry, self.weapon_damage, damage_multiplier, delta);
                self.beam_carry = carry;
                BeamShot { damage, length: BEAM_LENGTH }
            },
            BeamHit::Obstruction { distance } => BeamShot { damage: 0, length: distance },
            BeamHit::Nothing => BeamShot { damage: 0, length: BEAM_LENGTH },
        }
    }

    /// Turns a living enemy whose health has run out into a dead one, due for
    /// removal `linger_ms` after `now`. Returns whether that happened; it never
    /// happens twice to one enemy.
    pub fn check_death(&mut self, now: u64, linger_ms: u64) -> (died: bool)
        ensures
            *final(self) == old(self).death_checked(now, linger_ms),
            died == (old(self).alive() && old(self).health <= 0),
    {
        if self.is_alive() && self.health <= 0 {
            self.life = Life::Dead { time_to_despawn: now.saturating_add(linger_ms) };
            true
        } else {
            false
        }
    }

    /// Whether a dead enemy's removal time has come.
    pub fn despawn_due(&self, now: u64) -> (r: bool)
        ensures
            r == self.due(now),
    {
        match self.life {
            Life::Dead { time_to_despawn } => now >= time_to_despawn,
            Life::Alive => false,
        }
    }
}

/// A living enemy with no health left dies at the death check, due for
/// removal exactly `linger_ms` after `now` while that time fits; nothing else changes.
pub proof fn lemma_death_deadline(e: Enemy, now: u64, linger_ms: u64)
    requires
        e.alive(),
        e.health <= 0,
        now + linger_ms <= u64::MAX,
    ensures
        e.death_checked(now, linger_ms) == (Enemy { life: Life::Dead { time_to_despawn: (now + linger_ms) as u64 }, ..e }),
{
}

/// Death is terminal: once an enemy is dead, damage keeps it dead with the
/// same removal time, targeting and weapons leave it untouched, and the death
/// check neither revives it nor fires again.
pub proof fn lemma_death_is_terminal(
    e: Enemy,
    amount: u32,
    now: u64,
    linger_ms: u64,
    own: Vec3,
    player_at: Vec3,
    player_alive: bool,
    delta: u64,
)
    requires
        e.life is Dead,
    ensures
        e.damaged(amount).life == e.life,
        e.targeted(own, player_at, player_alive) == e,
        e.fired(delta, player_alive) == e,
        e.death_checked(now, linger_ms) == e,
        e.damaged(amount).death_checked(now, linger_ms) == e.damaged(amount),
{
}

} // verus!
