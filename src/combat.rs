//! Damage: the player's health, enemy weapons, and how a projectile hit resolves.
use crate::geometry::{dist_sq_spec, sq, Vec3};
use vstd::prelude::*;

verus! {

/// The player's starting and largest health.
pub const PLAYER_MAX_HEALTH: i32 = 1000;

/// `a - b`, held at `i32::MIN` instead of overflowing.
pub open spec fn lowered(a: i32, b: u32) -> i32 {
    if a - b < i32::MIN {
        i32::MIN
    } else {
        (a - b) as i32
    }
}

/// `x`, held at `i32::MAX`.
pub open spec fn capped(x: int) -> u32 {
    if x > i32::MAX {
        i32::MAX as u32
    } else {
        x as u32
    }
}

/// The damage of a projectile from a weapon, scaled by the difficulty's
/// multiplier (in hundredths) and rounded down.
pub open spec fn projectile_damage_spec(weapon_damage: u32, multiplier: u32) -> u32 {
    capped(weapon_damage * multiplier / 100)
}

/// Beam damage is counted in hundred-thousandths of a point: damage per
/// second times the multiplier (hundredths) times milliseconds.
pub const BEAM_UNITS_PER_POINT: u64 = 100_000;

/// The beam damage owed after a tick of `delta_ms` milliseconds on the
/// player, counting the `carry` left over from earlier ticks.
pub open spec fn beam_total(carry: u64, weapon_damage: u32, multiplier: u32, delta_ms: u64) -> int {
    carry + weapon_damage * multiplier * delta_ms
}

/// The whole points of beam damage dealt on that tick, held at `i32::MAX`.
pub open spec fn beam_damage_spec(carry: u64, weapon_damage: u32, multiplier: u32, delta_ms: u64) -> u32 {
    capped(beam_total(carry, weapon_damage, multiplier, delta_ms) / BEAM_UNITS_PER_POINT as int)
}

/// The fraction of a point carried on to the next tick.
pub open spec fn beam_carry_spec(carry: u64, weapon_damage: u32, multiplier: u32, delta_ms: u64) -> u64 {
    (beam_total(carry, weapon_damage, multiplier, delta_ms) % BEAM_UNITS_PER_POINT as int) as u64
}

/// The total damage dealt, and the carry left, by a beam held on the player
/// over ticks of the given lengths, starting from `carry`.
pub open spec fn beam_run(carry: u64, weapon_damage: u32, multiplier: u32, deltas: Seq<u64>) -> (int, u64)
    decreases deltas.len(),
{
    if deltas.len() == 0 {
        (0, carry)
    } else {
        let (dealt, c) = beam_run(carry, weapon_damage, multiplier, deltas.drop_last());
        let d = deltas.last();
        (
            dealt + beam_damage_spec(c, weapon_damage, multiplier, d),
            beam_carry_spec(c, weapon_damage, multiplier, d),
        )
    }
}

/// The total length of the ticks.
pub open spec fn total_ms(deltas: Seq<u64>) -> int
    decreases deltas.len(),
{
    if deltas.len() == 0 {
        0
    } else {
        total_ms(deltas.drop_last()) + deltas.last()
    }
}

/// No damage is lost between ticks: held on the player over any run of ticks,
/// a beam deals in total the weapon's damage per second times the multiplier
/// times the whole time, rounded down once, as long as no single tick is long
/// enough to reach the `i32::MAX` cap.
pub proof fn lemma_beam_damage_adds_up(weapon_damage: u32, multiplier: u32, deltas: Seq<u64>)
    requires
        forall|i: int| 0 <= i < deltas.len() ==> weapon_damage * multiplier * #[trigger] deltas[i] <= (i32::MAX - 1) * 100_000,
    ensures
        beam_run(0, weapon_damage, multiplier, deltas).0 == weapon_damage * multiplier * total_ms(deltas) / 100_000,
        beam_run(0, weapon_damage, multiplier, deltas).1 == weapon_damage * multiplier * total_ms(deltas) % 100_000,
{
    lemma_beam_run_balance(weapon_damage, multiplier, deltas);
    let (dealt, c) = beam_run(0, weapon_damage, multiplier, deltas);
    vstd::arithmetic::div_mod::lemma_fundamental_div_mod_converse(
        weapon_damage * multiplier * total_ms(deltas),
        100_000,
        dealt,
        c as int,
    );
}

proof fn lemma_beam_run_balance(weapon_damage: u32, multiplier: u32, deltas: Seq<u64>)
    requires
        forall|i: int| 0 <= i < deltas.len() ==> weapon_damage * multiplier * #[trigger] deltas[i] <= (i32::MAX - 1) * 100_000,
    ensures
        ({
            let (dealt, c) = beam_run(0, weapon_damage, multiplier, deltas);
            &&& dealt * 100_000 + c == weapon_damage * multiplier * total_ms(deltas)
            &&& c < 100_000
        }),
    decreases deltas.len(),
{
    if deltas.len() > 0 {
        let prev = deltas.drop_last();
        assert forall|i: int| 0 <= i < prev.len() implies weapon_damage * multiplier * #[trigger] prev[i] <= (i32::MAX - 1) * 100_000 by {
            assert(prev[i] == deltas[i]);
        }
        lemma_beam_run_balance(weapon_damage, multiplier, prev);
        let (dealt, c) = beam_run(0, weapon_damage, multiplier, prev);
        let d = deltas.last();
        assert(weapon_damage * multiplier * d <= (i32::MAX - 1) * 100_000) by {
            assert(d == deltas[deltas.len() - 1]);
        }
        let t = beam_total(c, weapon_damage, multiplier, d);
        vstd::arithmetic::div_mod::lemma_fundamental_div_mod(t, 100_000);
        assert(t / 100_000 <= i32::MAX) by {
            vstd::arithmetic::div_mod::lemma_div_is_ordered(t, i32::MAX * 100_000, 100_000);
            vstd::arithmetic::div_mod::lemma_div_multiples_vanish(i32::MAX as int, 100_000);
        }
        assert(weapon_damage * multiplier * total_ms(deltas) == weapon_damage * multiplier * total_ms(prev)
            + weapon_damage * multiplier * d) by (nonlinear_arith)
            requires total_ms(deltas) == total_ms(prev) + d;
    }
}

/// The damage of a splash: half of the projectile's, rounded down.
pub open spec fn splash_damage_spec(damage: u32) -> u32 {
    damage / 2
}

/// Subtracts `amount` from `health`, holding at `i32::MIN`.
pub fn lower_health(health: i32, amount: u32) -> (r: i32)
    ensures
        r == lowered(health, amount),
{
    let x: i64 = health as i64 - amount as i64;
    if x < i32::MIN as i64 {
        i32::MIN
    } else {
        x as i32
    }
}

/// The damage a projectile fired now carries.
pub fn projectile_damage(weapon_damage: u32, multiplier: u32) -> (r: u32)
    ensures
        r == projectile_damage_spec(weapon_damage, multiplier),
        r <= i32::MAX,
{
    assert(weapon_damage * multiplier <= 4_294_967_295 * 4_294_967_295) by (nonlinear_arith)
        requires weapon_damage <= 4_294_967_295u32, multiplier <= 4_294_967_295u32;
    let x: u64 = weapon_damage as u64 * multiplier as u64 / 100;
    if x > i32::MAX as u64 {
        i32::MAX as u32
    } else {
        x as u32
    }
}

/// The whole points of damage a beam deals over a tick of `delta_ms`
/// milliseconds on the player, and the fraction of a point carried on,
/// given the `carry` from earlier ticks.
pub fn beam_damage(carry: u64, weapon_damage: u32, multiplier: u32, delta_ms: u64) -> (r: (u32, u64))
    ensures
        r.0 == beam_damage_spec(carry, weapon_damage, multiplier, delta_ms),
        r.1 == beam_carry_spec(carry, weapon_damage, multiplier, delta_ms),
        r.0 <= i32::MAX,
        r.1 < BEAM_UNITS_PER_POINT,
{
    assert(weapon_damage * multiplier <= 4_294_967_295 * 4_294_967_295) by (nonlinear_arith)
        requires weapon_damage <= 4_294_967_295u32, multiplier <= 4_294_967_295u32;
    let wm: u64 = weapon_damage as u64 * multiplier as u64;
    assert(wm * delta_ms <= 18_446_744_073_709_551_615 * 18_446_744_073_709_551_615) by (nonlinear_arith)
        requires wm <= 18_446_744_073_709_551_615u64, delta_ms <= 18_446_744_073_709_551_615u64;
    let total: u128 = carry as u128 + wm as u128 * delta_ms as u128;
    let units = BEAM_UNITS_PER_POINT as u128;
    let x: u128 = total / units;
    let rest: u64 = (total % units) as u64;
    if x > i32::MAX as u128 {
        (i32::MAX as u32, rest)
    } else {
        (x as u32, rest)
    }
}

/// The player, as far as enemies are concerned.
#[derive(Clone, Copy, Debug, PartialEq, Eq, Structural)]
pub struct Player {
    pub health: i32,
    pub max_health: i32,
}

impl Player {
    pub open spec fn alive(self) -> bool {
        self.health > 0
    }

    pub open spec fn new_spec() -> Player {
        Player { health: PLAYER_MAX_HEALTH, max_health: PLAYER_MAX_HEALTH }
    }

    /// A player at full health.
    pub fn new() -> (r: Player)
        ensures
            r == Player::new_spec(),
    {
        Player { health: PLAYER_MAX_HEALTH, max_health: PLAYER_MAX_HEALTH }
    }

    pub fn is_alive(&self) -> (r: bool)
        ensures
            r == self.alive(),
    {
        self.health > 0
    }

    /// Takes `amount` off the player's health.
    pub fn take_damage(&mut self, amount: u32)
        ensures
            *final(self) == (Player { health: lowered(old(self).health, amount), ..*old(self) }),
    {
        self.health = lower_health(self.health, amount);
    }

    /// Restores full health.
    pub fn restore(&mut self)
        ensures
            *final(self) == (Player { health: old(self).max_health, ..*old(self) }),
    {
        self.health = self.max_health;
    }
}

/// A projectile in flight.
#[derive(Clone, Copy, Debug, PartialEq, Eq, Structural)]
pub struct Bullet {
    pub damage: u32,
    /// Within this distance of the player, a miss still deals splash damage.
    pub splash_radius: u32,
}

/// What a projectile ran into.
#[derive(Clone, Copy, Debug, PartialEq, Eq, Structural)]
pub enum Struck {
    Player,
    Other,
}

/// The outcome of one projectile collision. The projectile is always spent.
#[derive(Clone, Copy, Debug, PartialEq, Eq, Structural)]
pub enum BulletHit {
    /// The projectile struck the player.
    Direct { damage: u32 },
    /// The projectile struck something else close enough to the player.
    Splash { damage: u32 },
    /// The projectile struck something else, away from the player.
    Miss,
}

impl BulletHit {
    pub open spec fn damage_spec(self) -> u32 {
        match self {
            BulletHit::Direct { damage } => damage,
            BulletHit::Splash { damage } => damage,
            BulletHit::Miss => 0,
        }
    }

    /// The damage the player takes from this outcome.
    pub fn damage(&self) -> (r: u32)
        ensures
            r == self.damage_spec(),
    {
        match self {
            BulletHit::Direct { damage } => *damage,
            BulletHit::Splash { damage } => *damage,
            BulletHit::Miss => 0,
        }
    }

    /// Whether the outcome counts as a hit on the player.
    pub fn hits_player(&self) -> (r: bool)
        ensures
            r == !(self is Miss),
    {
        !matches!(self, BulletHit::Miss)
    }
}

/// How a collision of `bullet` at `impact` with `struck` resolves, given where
/// the player is (if there is one).
pub open spec fn bullet_hit_spec(bullet: Bullet, impact: Vec3, struck: Struck, player_at: Option<Vec3>) -> BulletHit {
    match struck {
        Struck::Player => BulletHit::Direct { damage: bullet.damage },
        Struck::Other => match player_at {
            Some(p) => if dist_sq_spec(impact, p) < sq(bullet.splash_radius as int) {
                BulletHit::Splash { damage: splash_damage_spec(bullet.damage) }
            } else {
                BulletHit::Miss
            },
            None => BulletHit::Miss,
        },
    }
}

/// Resolves a collision of `bullet` at `impact`: full damage when it struck the
/// player, half damage when it struck something else strictly within its
/// splash radius of the player, and nothing otherwise.
pub fn resolve_bullet_hit(bullet: &Bullet, impact: &Vec3, struck: Struck, player_at: Option<Vec3>) -> (r: BulletHit)
    requires
        impact.in_bounds(),
        player_at matches Some(p) ==> p.in_bounds(),
    ensures
        r == bullet_hit_spec(*bullet, *impact, struck, player_at),
{
    match struck {
        Struck::Player => BulletHit::Direct { damage: bullet.damage },
        Struck::Other => match player_at {
            Some(p) => {
                if impact.strictly_within(&p, bullet.splash_radius) {
                    BulletHit::Splash { damage: bullet.damage / 2 }
                } else {
                    BulletHit::Miss
                }
            },
            None => BulletHit::Miss,
        },
    }
}

/// A collision deals the projectile's damage directly, or half of it as
/// splash, or nothing: never both, and a splash is never larger than a direct hit.
pub proof fn lemma_bullet_hit_applies_once(bullet: Bullet, impact: Vec3, struck: Struck, player_at: Option<Vec3>)
    ensures
        ({
            let r = bullet_hit_spec(bullet, impact, struck, player_at);
            &&& (r is Direct) <==> struck == Struck::Player
            &&& r is Direct ==> r.damage_spec() == bullet.damage
            &&& r is Splash ==> r.damage_spec() == bullet.damage / 2
            &&& r.damage_spec() <= bullet.damage
        }),
{
}

} // verus!
