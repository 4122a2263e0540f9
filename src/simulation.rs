//! The whole enemy simulation for one play session: the director, every
//! enemy, projectile and explosion, and the player, advanced one system at a
//! time in the order the host's frame runs them.
use crate::combat::{bullet_hit_spec, lowered, resolve_bullet_hit, Bullet, BulletHit, Player, Struck};
use crate::difficulty::{default_levels, LEVEL_COUNT};
use crate::director::{all_in_bounds, clear_of, lemma_kills_raise_level_gradually, EnemiesState, DESTINATION_COUNT};
use crate::enemy::{jitter_ok, BeamHit, BeamShot, Enemy, EnemyKind, Facing, FireAction};
use crate::explosion::Explosion;
use crate::geometry::Vec3;
use crate::movement::{steer_spec, steer_velocity};
use crate::random::{gen_between, seeded_rng};
use crate::timer::Timer;
use rand::rngs::StdRng;
use vstd::prelude::*;

verus! {

/// How often the director refreshes its destinations, in milliseconds.
pub const DESTINATIONS_PERIOD_MS: u64 = 2_000;

/// How often the director may spawn an enemy, in milliseconds.
pub const SPAWN_PERIOD_MS: u64 = 1_000;

/// How long a dead enemy stays before removal, in milliseconds.
pub const DEATH_LINGER_MS: u64 = 12_000;

/// The same, with reduced effects.
pub const DEATH_LINGER_REDUCED_MS: u64 = 2_000;

/// The largest torque impulse drawn for a dying enemy, per axis.
pub const DEATH_TORQUE: i64 = 2_000;

/// The downward impulse given to a dying enemy.
pub const DEATH_IMPULSE: i64 = 1_500;

/// An enemy in the arena.
#[derive(Clone, Copy, Debug, PartialEq, Eq, Structural)]
pub struct EnemyRecord {
    pub id: u64,
    pub position: Vec3,
    pub velocity: Vec3,
    pub enemy: Enemy,
}

/// A projectile in the arena.
#[derive(Clone, Copy, Debug, PartialEq, Eq, Structural)]
pub struct BulletRecord {
    pub id: u64,
    pub position: Vec3,
    pub bullet: Bullet,
}

/// An explosion in the arena.
#[derive(Clone, Copy, Debug, PartialEq, Eq, Structural)]
pub struct ExplosionRecord {
    pub position: Vec3,
    pub explosion: Explosion,
}

/// One side of a collision reported by the physics engine.
#[derive(Clone, Copy, Debug, PartialEq, Eq, Structural)]
pub enum Body {
    Bullet(u64),
    Enemy(u64),
    Player,
    World,
}

/// An enemy that died this tick, with the impulses that send it tumbling.
#[derive(Clone, Copy, Debug, PartialEq, Eq, Structural)]
pub struct Death {
    pub id: u64,
    pub position: Vec3,
    pub torque: Vec3,
    pub impulse: Vec3,
    /// Whether this kill raised the difficulty level.
    pub leveled_up: bool,
}

/// What one enemy's weapon did this tick.
#[derive(Clone, Copy, Debug, PartialEq, Eq, Structural)]
pub struct Shot {
    pub enemy: u64,
    pub action: FireAction,
    /// The projectile launched, if any.
    pub bullet: Option<u64>,
}

/// `a + b`, held at `u64::MAX`.
pub open spec fn sum_or_max(a: u64, b: u64) -> u64 {
    if a + b > u64::MAX {
        u64::MAX
    } else {
        (a + b) as u64
    }
}

/// How many records of `s` are alive.
pub open spec fn live_count(s: Seq<EnemyRecord>) -> nat
    decreases s.len(),
{
    if s.len() == 0 {
        0
    } else {
        live_count(s.drop_last()) + if s.last().enemy.alive() {
            1nat
        } else {
            0nat
        }
    }
}

/// The positions of the live records of `s`, in order.
pub open spec fn live_positions(s: Seq<EnemyRecord>) -> Seq<Vec3>
    decreases s.len(),
{
    if s.len() == 0 {
        Seq::empty()
    } else if s.last().enemy.alive() {
        live_positions(s.drop_last()).push(s.last().position)
    } else {
        live_positions(s.drop_last())
    }
}

pub open spec fn enemy_ids_below(s: Seq<EnemyRecord>, bound: u64) -> bool {
    forall|i: int| 0 <= i < s.len() ==> (#[trigger] s[i]).id < bound
}

pub open spec fn bullet_ids_unique(s: Seq<BulletRecord>, bound: u64) -> bool {
    &&& forall|i: int| 0 <= i < s.len() ==> (#[trigger] s[i]).id < bound
    &&& forall|i: int, j: int| 0 <= i < j < s.len() ==> (#[trigger] s[i]).id != (#[trigger] s[j]).id
}

pub open spec fn enemies_in_bounds(s: Seq<EnemyRecord>) -> bool {
    forall|i: int| 0 <= i < s.len() ==> {
        &&& (#[trigger] s[i]).position.in_bounds()
        &&& jitter_ok(s[i].enemy.current_random_offset)
    }
}

pub open spec fn bullets_in_bounds(s: Seq<BulletRecord>) -> bool {
    forall|i: int| 0 <= i < s.len() ==> (#[trigger] s[i]).position.in_bounds()
}

/// The state of a play session.
pub struct Simulation {
    pub state: EnemiesState,
    /// Gates spawning; paused until the player first fires.
    pub spawn_timer: Timer,
    pub destinations_timer: Timer,
    pub enemies: Vec<EnemyRecord>,
    pub bullets: Vec<BulletRecord>,
    pub explosions: Vec<ExplosionRecord>,
    pub player: Player,
    pub player_position: Vec3,
    /// Simulation time in milliseconds.
    pub now: u64,
    /// The id the next spawned entity gets.
    pub next_id: u64,
    /// Dead enemies are removed sooner.
    pub reduced_effects: bool,
    /// The single source of randomness; seeded for reproducible sessions.
    pub rng: StdRng,
}

impl Simulation {
    /// The session invariant: the live enemies never exceed the current
    /// level's cap, the difficulty table is the built-in one, ids are fresh,
    /// and every position is within the coordinate limits. Any level is
    /// allowed; past the table the last row applies.
    pub open spec fn wf(self) -> bool {
        &&& live_count(self.enemies@) <= self.state.level_params().max_enemies
        &&& self.state.levels@ == default_levels()
        &&& enemy_ids_below(self.enemies@, self.next_id)
        &&& bullet_ids_unique(self.bullets@, self.next_id)
        &&& enemies_in_bounds(self.enemies@)
        &&& bullets_in_bounds(self.bullets@)
        &&& self.player_position.in_bounds()
    }

    /// A new session: no enemies yet, the spawn timer paused until the player
    /// first fires, and the random source seeded with `seed`.
    pub fn new(seed: u64, reduced_effects: bool) -> (r: Simulation)
        ensures
            r.wf(),
            r.state.is_initial(),
            r.enemies@.len() == 0,
            r.bullets@.len() == 0,
            r.explosions@.len() == 0,
            r.player == Player::new_spec(),
            r.spawn_timer == (Timer { paused: true, ..Timer::fresh(SPAWN_PERIOD_MS, true) }),
            r.destinations_timer == Timer::fresh(DESTINATIONS_PERIOD_MS, true),
            r.now == 0,
            r.next_id == 0,
            r.player_position == (Vec3 { x: 0, y: 0, z: 0 }),
            r.reduced_effects == reduced_effects,
    {
        let mut spawn_timer = Timer::new(SPAWN_PERIOD_MS, true);
        spawn_timer.pause();
        Simulation {
            state: EnemiesState::new(),
            spawn_timer,
            destinations_timer: Timer::new(DESTINATIONS_PERIOD_MS, true),
            enemies: Vec::new(),
            bullets: Vec::new(),
            explosions: Vec::new(),
            player: Player::new(),
            player_position: Vec3 { x: 0, y: 0, z: 0 },
            now: 0,
            next_id: 0,
            reduced_effects,
            rng: seeded_rng(seed),
        }
    }

    /// The positions of the live enemies.
    pub fn live_enemy_positions(&self) -> (r: Vec<Vec3>)
        requires
            self.wf(),
        ensures
            r@ == live_positions(self.enemies@),
            all_in_bounds(r@),
    {
        let mut r: Vec<Vec3> = Vec::new();
        let mut i: usize = 0;
        while i < self.enemies.len()
            invariant
                i <= self.enemies@.len(),
                self.wf(),
                r@ == live_positions(self.enemies@.subrange(0, i as int)),
                all_in_bounds(r@),
            decreases self.enemies.len() - i,
        {
            assert(self.enemies@.subrange(0, i + 1).drop_last() =~= self.enemies@.subrange(0, i as int));
            let rec = self.enemies[i];
            if rec.enemy.is_alive() {
                r.push(rec.position);
            }
            i = i + 1;
        }
        assert(self.enemies@.subrange(0, i as int) =~= self.enemies@);
        r
    }

    /// Moves the clock forward by `delta` milliseconds, holding at the largest time.
    pub fn advance_clock(&mut self, delta: u64)
        ensures
            *final(self) == (Simulation { now: sum_or_max(old(self).now, delta), ..*old(self) }),
    {
        self.now = self.now.saturating_add(delta);
    }
}

impl Simulation {
    /// Notes that the player fired: spawning starts once the player has fired.
    pub fn player_fired(&mut self)
        ensures
            *final(self) == (Simulation { spawn_timer: Timer { paused: false, ..old(self).spawn_timer }, ..*old(self) }),
    {
        self.spawn_timer.unpause();
    }

    /// Notes a hit on the player at the current time.
    pub fn player_takes_damage(&mut self)
        ensures
            *final(self) == (Simulation {
                state: EnemiesState { last_time_player_took_damage: old(self).now, ..old(self).state },
                ..*old(self)
            }),
    {
        self.state.record_player_hit(self.now);
    }

    /// Moves the player.
    pub fn set_player_position(&mut self, p: Vec3)
        requires
            old(self).wf(),
            p.in_bounds(),
        ensures
            final(self).wf(),
            *final(self) == (Simulation { player_position: p, ..*old(self) }),
    {
        self.player_position = p;
    }

    /// Advances the destinations timer; when it fires, points the director's
    /// destinations at `inside` waypoints ranked by distance from the player.
    pub fn update_destinations(&mut self, delta: u64, inside: &Vec<Vec3>)
        requires
            old(self).wf(),
            all_in_bounds(inside@),
            old(self).destinations_timer.after_tick(delta).just_finished ==> inside@.len()
                >= old(self).state.destination_base(old(self).now) + DESTINATION_COUNT,
        ensures
            final(self).wf(),
            final(self).destinations_timer == old(self).destinations_timer.after_tick(delta),
            *final(self) == (Simulation {
                destinations_timer: final(self).destinations_timer,
                state: final(self).state,
                ..*old(self)
            }),
            final(self).state == (EnemiesState { destinations: final(self).state.destinations, ..old(self).state }),
            !final(self).destinations_timer.just_finished ==> final(self).state == old(self).state,
            final(self).destinations_timer.just_finished ==> forall|k: int|
                0 <= k < DESTINATION_COUNT ==> {
                    &&& #[trigger] final(self).state.destinations@[k] < inside@.len()
                    &&& crate::ranking::rank(
                        crate::director::distances_from(old(self).player_position, inside@),
                        final(self).state.destinations@[k] as int,
                    ) == old(self).state.destination_base(old(self).now) + k
                },
    {
        self.destinations_timer.tick(delta);
        if self.destinations_timer.just_finished() {
            let now = self.now;
            let p = self.player_position;
            self.state.choose_destinations(now, &p, inside);
        }
    }

    /// Advances the spawn timer; when it fires, and the level's cap allows,
    /// spawns an Orbie at the first of up to three random `outfront` points that
    /// is clear of every live enemy. Returns the new enemy's id. Nothing spawns
    /// once every id has been handed out.
    pub fn spawn_enemies_on_timer(&mut self, delta: u64, outfront: &Vec<Vec3>) -> (r: Option<u64>)
        requires
            old(self).wf(),
            outfront@.len() <= i64::MAX,
            all_in_bounds(outfront@),
            old(self).spawn_timer.after_tick(delta).just_finished && old(self).next_id < u64::MAX
                && live_count(old(self).enemies@) < old(self).state.level_params().max_enemies
                ==> outfront@.len() > 0,
        ensures
            final(self).wf(),
            final(self).spawn_timer == old(self).spawn_timer.after_tick(delta),
            final(self).state == old(self).state,
            final(self).bullets == old(self).bullets,
            final(self).player == old(self).player,
            final(self).now == old(self).now,
            r is None ==> final(self).enemies@ == old(self).enemies@,
            !(final(self).spawn_timer.just_finished && old(self).next_id < u64::MAX && outfront@.len() > 0) ==> r is None,
            final(self).spawn_timer.just_finished && old(self).next_id < u64::MAX && outfront@.len() > 0 ==> exists|draws: Seq<usize>|
                #![trigger old(self).state.spawn_choice(draws, outfront@, live_positions(old(self).enemies@))]
                {
                    let choice = old(self).state.spawn_choice(draws, outfront@, live_positions(old(self).enemies@));
                    &&& draws.len() == crate::director::SPAWN_ATTEMPTS
                    &&& forall|i: int| 0 <= i < draws.len() ==> #[trigger] draws[i] < outfront@.len()
                    &&& (r is Some <==> choice is Some)
                    &&& r is Some ==> final(self).enemies@.last().position == choice->Some_0
                },
            r matches Some(id) ==> {
                let rec = final(self).enemies@.last();
                &&& final(self).spawn_timer.just_finished
                &&& id == old(self).next_id
                &&& final(self).enemies@ == old(self).enemies@.push(rec)
                &&& rec.id == id
                &&& rec.enemy.is_fresh(EnemyKind::Orbie)
                &&& rec.velocity == Vec3 { x: 0, y: 0, z: 0 }
                &&& outfront@.contains(rec.position)
                &&& clear_of(rec.position, live_positions(old(self).enemies@))
                &&& live_count(old(self).enemies@) < old(self).state.level_params().max_enemies
            },
    {
        self.spawn_timer.tick(delta);
        if !self.spawn_timer.just_finished() || self.next_id == u64::MAX {
            return None;
        }
        let live = self.live_enemy_positions();
        proof {
            lemma_live_positions_len(self.enemies@);
        }
        let spot = self.state.try_spawn(&mut self.rng, outfront, &live);
        match spot {
            Some(p) => {
                let id = self.next_id;
                let rec = EnemyRecord {
                    id,
                    position: p,
                    velocity: Vec3 { x: 0, y: 0, z: 0 },
                    enemy: Enemy::new(EnemyKind::Orbie),
                };
                proof {
                    lemma_live_positions_len(self.enemies@);
                    let s = self.enemies@.push(rec);
                    assert(s.drop_last() =~= self.enemies@);
                }
                self.enemies.push(rec);
                self.next_id = self.next_id + 1;
                Some(id)
            },
            None => None,
        }
    }
}

/// The record after one movement update toward its destination among `inside`.
pub open spec fn moved(rec: EnemyRecord, inside: Seq<Vec3>) -> EnemyRecord {
    let e = rec.enemy;
    if !e.alive() || e.current_destination >= inside.len() {
        rec
    } else {
        let w = inside[e.current_destination as int];
        let o = e.current_random_offset;
        let target = Vec3 { x: (w.x + o.x) as i64, y: (w.y + o.y) as i64, z: (w.z + o.z) as i64 };
        let current = if rec.velocity.in_bounds() {
            rec.velocity
        } else {
            Vec3 { x: 0, y: 0, z: 0 }
        };
        if target.in_bounds() {
            EnemyRecord { velocity: steer_spec(rec.position, target, current, e.move_speed as int), ..rec }
        } else {
            EnemyRecord { velocity: Vec3 { x: 0, y: 0, z: 0 }, ..rec }
        }
    }
}

/// Whether two record sequences agree on which enemies live and where.
pub open spec fn same_lives(a: Seq<EnemyRecord>, b: Seq<EnemyRecord>) -> bool {
    &&& a.len() == b.len()
    &&& forall|i: int|
        0 <= i < a.len() ==> {
            &&& (#[trigger] a[i]).enemy.life == b[i].enemy.life
            &&& a[i].position == b[i].position
            &&& a[i].id == b[i].id
            &&& jitter_ok(b[i].enemy.current_random_offset)
        }
}

proof fn lemma_same_lives(a: Seq<EnemyRecord>, b: Seq<EnemyRecord>)
    requires
        same_lives(a, b),
    ensures
        live_count(a) == live_count(b),
        live_positions(a) == live_positions(b),
        enemies_in_bounds(a) ==> enemies_in_bounds(b),
        forall|bound: u64| enemy_ids_below(a, bound) ==> #[trigger] enemy_ids_below(b, bound),
    decreases a.len(),
{
    assert forall|bound: u64| enemy_ids_below(a, bound) implies #[trigger] enemy_ids_below(b, bound) by {
        assert forall|i: int| 0 <= i < b.len() implies (#[trigger] b[i]).id < bound by {
            assert(a[i].id == b[i].id);
        }
    }
    if enemies_in_bounds(a) {
        assert forall|i: int| 0 <= i < b.len() implies {
            &&& (#[trigger] b[i]).position.in_bounds()
            &&& jitter_ok(b[i].enemy.current_random_offset)
        } by {
            assert(a[i].position == b[i].position);
        }
    }
    if a.len() > 0 {
        assert(same_lives(a.drop_last(), b.drop_last()));
        lemma_same_lives(a.drop_last(), b.drop_last());
    }
}

impl Simulation {
    /// Every living enemy checks whether the living player is within its range
    /// and says which way it turns.
    pub fn enemies_look_at(&mut self) -> (r: Vec<Facing>)
        requires
            old(self).wf(),
        ensures
            final(self).wf(),
            *final(self) == (Simulation { enemies: final(self).enemies, ..*old(self) }),
            final(self).enemies@.len() == old(self).enemies@.len(),
            r@.len() == old(self).enemies@.len(),
            forall|i: int|
                0 <= i < old(self).enemies@.len() ==> {
                    let o = #[trigger] old(self).enemies@[i];
                    let n = final(self).enemies@[i];
                    &&& n == EnemyRecord {
                        enemy: o.enemy.targeted(o.position, old(self).player_position, old(self).player.alive()),
                        ..o
                    }
                    &&& r@[i] == if !o.enemy.alive() {
                        Facing::Hold
                    } else if n.enemy.within_range_of_player {
                        Facing::Player
                    } else {
                        Facing::Destination
                    }
                },
    {
        let ghost old_enemies = self.enemies@;
        let mut r: Vec<Facing> = Vec::new();
        let alive = self.player.is_alive();
        let p = self.player_position;
        let mut i: usize = 0;
        while i < self.enemies.len()
            invariant
                i <= self.enemies@.len(),
                self.enemies@.len() == old_enemies.len(),
                *self == (Simulation { enemies: self.enemies, ..*old(self) }),
                old_enemies == old(self).enemies@,
                old(self).wf(),
                alive == old(self).player.alive(),
                p == old(self).player_position,
                r@.len() == i,
                forall|j: int| i <= j < old_enemies.len() ==> self.enemies@[j] == old_enemies[j],
                forall|j: int|
                    0 <= j < i ==> {
                        let o = #[trigger] old_enemies[j];
                        let n = self.enemies@[j];
                        &&& n == EnemyRecord { enemy: o.enemy.targeted(o.position, p, alive), ..o }
                        &&& r@[j] == if !o.enemy.alive() {
                            Facing::Hold
                        } else if n.enemy.within_range_of_player {
                            Facing::Player
                        } else {
                            Facing::Destination
                        }
                    },
            decreases self.enemies.len() - i,
        {
            let mut rec = self.enemies[i];
            assert(old_enemies[i as int].position.in_bounds());
            let f = rec.enemy.update_targeting(&rec.position, &p, alive);
            self.enemies.set(i, rec);
            r.push(f);
            i = i + 1;
        }
        proof {
            assert(same_lives(old_enemies, self.enemies@));
            lemma_same_lives(old_enemies, self.enemies@);
        }
        r
    }

    /// Every living enemy advances its retarget timer and, when it fires,
    /// heads for one of the director's destinations with a random jitter.
    pub fn enemies_update_current_destination(&mut self, delta: u64)
        requires
            old(self).wf(),
        ensures
            final(self).wf(),
            *final(self) == (Simulation { enemies: final(self).enemies, rng: final(self).rng, ..*old(self) }),
            final(self).enemies@.len() == old(self).enemies@.len(),
            forall|i: int|
                0 <= i < old(self).enemies@.len() ==> {
                    let o = #[trigger] old(self).enemies@[i];
                    let n = final(self).enemies@[i];
                    &&& n == EnemyRecord { enemy: n.enemy, ..o }
                    &&& n.enemy.refreshed_from(o.enemy, delta, old(self).state.destinations)
                },
    {
        let ghost old_enemies = self.enemies@;
        let destinations = self.state.destinations;
        let mut i: usize = 0;
        while i < self.enemies.len()
            invariant
                i <= self.enemies@.len(),
                self.enemies@.len() == old_enemies.len(),
                *self == (Simulation { enemies: self.enemies, rng: self.rng, ..*old(self) }),
                old_enemies == old(self).enemies@,
                old(self).wf(),
                destinations == old(self).state.destinations,
                forall|j: int| i <= j < old_enemies.len() ==> self.enemies@[j] == old_enemies[j],
                forall|j: int|
                    0 <= j < i ==> {
                        let o = #[trigger] old_enemies[j];
                        let n = self.enemies@[j];
                        &&& n == EnemyRecord { enemy: n.enemy, ..o }
                        &&& n.enemy.refreshed_from(o.enemy, delta, destinations)
                    },
            decreases self.enemies.len() - i,
        {
            let mut rec = self.enemies[i];
            rec.enemy.refresh_destination(delta, &destinations, &mut self.rng);
            self.enemies.set(i, rec);
            i = i + 1;
        }
        proof {
            assert(same_lives(old_enemies, self.enemies@));
            lemma_same_lives(old_enemies, self.enemies@);
        }
    }

    /// Every living enemy steers toward its destination: the waypoint it is
    /// heading for plus its jitter. A destination index that no longer exists
    /// is skipped; a target or current velocity outside the coordinate limits
    /// gives zero velocity or counts as zero.
    pub fn enemies_move_to_destination(&mut self, inside: &Vec<Vec3>)
        requires
            old(self).wf(),
            all_in_bounds(inside@),
        ensures
            final(self).wf(),
            *final(self) == (Simulation { enemies: final(self).enemies, ..*old(self) }),
            final(self).enemies@ == old(self).enemies@.map_values(|rec: EnemyRecord| moved(rec, inside@)),
    {
        let ghost old_enemies = self.enemies@;
        let mut i: usize = 0;
        while i < self.enemies.len()
            invariant
                i <= self.enemies@.len(),
                self.enemies@.len() == old_enemies.len(),
                *self == (Simulation { enemies: self.enemies, ..*old(self) }),
                old_enemies == old(self).enemies@,
                old(self).wf(),
                all_in_bounds(inside@),
                forall|j: int| i <= j < old_enemies.len() ==> self.enemies@[j] == old_enemies[j],
                forall|j: int| 0 <= j < i ==> self.enemies@[j] == moved(#[trigger] old_enemies[j], inside@),
            decreases self.enemies.len() - i,
        {
            let mut rec = self.enemies[i];
            let dest = rec.enemy.current_destination;
            if rec.enemy.is_alive() && dest < inside.len() {
                let w = inside[dest];
                let o = rec.enemy.current_random_offset;
                assert(inside@[dest as int].in_bounds());
                assert(old_enemies[i as int].position.in_bounds());
                assert(jitter_ok(o));
                let target = w.add(&o);
                let current = if rec.velocity.is_in_bounds() {
                    rec.velocity
                } else {
                    Vec3 { x: 0, y: 0, z: 0 }
                };
                if target.is_in_bounds() {
                    rec.velocity = steer_velocity(&rec.position, &target, &current, rec.enemy.move_speed);
                } else {
                    rec.velocity = Vec3 { x: 0, y: 0, z: 0 };
                }
                self.enemies.set(i, rec);
            }
            i = i + 1;
        }
        proof {
            assert(self.enemies@ =~= old_enemies.map_values(|rec: EnemyRecord| moved(rec, inside@)));
            assert(same_lives(old_enemies, self.enemies@));
            lemma_same_lives(old_enemies, self.enemies@);
        }
    }
}

/// The projectiles launched by the records of `s` on a weapon update, in
/// order, numbered from `first_id`.
pub open spec fn launched(s: Seq<EnemyRecord>, first_id: u64, delta: u64, alive: bool, mult: u32) -> Seq<BulletRecord>
    decreases s.len(),
{
    if s.len() == 0 {
        Seq::empty()
    } else {
        let prev = launched(s.drop_last(), first_id, delta, alive, mult);
        let o = s.last();
        match o.enemy.fire_action_spec(delta, alive, mult) {
            FireAction::Projectile(b) => prev.push(
                BulletRecord { id: (first_id + prev.len()) as u64, position: o.position, bullet: b },
            ),
            _ => prev,
        }
    }
}

/// Whether `i` is the first record of `s` with id `id`.
pub open spec fn first_with_id(s: Seq<EnemyRecord>, i: int, id: u64) -> bool {
    &&& 0 <= i < s.len()
    &&& s[i].id == id
    &&& forall|j: int| 0 <= j < i ==> (#[trigger] s[j]).id != id
}

/// Which side of a collision is a projectile, with its id and the other side.
pub open spec fn bullet_side(a: Body, b: Body) -> Option<(u64, Body)> {
    match a {
        Body::Bullet(id) => Some((id, b)),
        _ => match b {
            Body::Bullet(id) => Some((id, a)),
            _ => None,
        },
    }
}

/// Whether some record of `s` has the id `id`.
pub open spec fn has_bullet(s: Seq<BulletRecord>, id: u64) -> bool {
    exists|k: int| 0 <= k < s.len() && (#[trigger] s[k]).id == id
}

/// What a projectile struck, seen from the projectile.
pub open spec fn struck_by(other: Body) -> Struck {
    if other == Body::Player {
        Struck::Player
    } else {
        Struck::Other
    }
}

/// The position of the record with id `id` (ids are unique in a session).
pub open spec fn bullet_index(s: Seq<BulletRecord>, id: u64) -> int {
    choose|k: int| 0 <= k < s.len() && (#[trigger] s[k]).id == id
}

/// The part of a session that collisions change: the projectiles, the
/// player's health, and the time of the last hit on the player.
pub open spec fn collision_view(sim: Simulation) -> (Seq<BulletRecord>, i32, u64) {
    (sim.bullets@, sim.player.health, sim.state.last_time_player_took_damage)
}

/// One collision report resolved against `v`, with the player at `player_at`
/// at time `now`: a report without a projectile, or for one already gone,
/// changes nothing; otherwise the projectile's hit lowers the player's
/// health, a hit on the player is timed, and the projectile is removed.
pub open spec fn collision_step(
    v: (Seq<BulletRecord>, i32, u64),
    a: Body,
    b: Body,
    player_at: Vec3,
    now: u64,
) -> ((Seq<BulletRecord>, i32, u64), Option<BulletHit>) {
    match bullet_side(a, b) {
        None => (v, None),
        Some((id, other)) => if !has_bullet(v.0, id) {
            (v, None)
        } else {
            let k = bullet_index(v.0, id);
            let br = v.0[k];
            let h = bullet_hit_spec(br.bullet, br.position, struck_by(other), Some(player_at));
            (
                (v.0.remove(k), lowered(v.1, h.damage_spec()), if h is Miss {
                    v.2
                } else {
                    now
                }),
                Some(h),
            )
        },
    }
}

/// A batch of collision reports resolved in order.
pub open spec fn collision_fold(
    v: (Seq<BulletRecord>, i32, u64),
    events: Seq<(Body, Body)>,
    player_at: Vec3,
    now: u64,
) -> ((Seq<BulletRecord>, i32, u64), Seq<Option<BulletHit>>)
    decreases events.len(),
{
    if events.len() == 0 {
        (v, Seq::empty())
    } else {
        let (w, rs) = collision_fold(v, events.drop_last(), player_at, now);
        let e = events.last();
        let (x, h) = collision_step(w, e.0, e.1, player_at, now);
        (x, rs.push(h))
    }
}

/// Once a projectile's collision is resolved it is removed, so a later report
/// of a collision for it finds nothing to resolve: damage is applied once.
pub proof fn lemma_bullet_resolves_once(s: Seq<BulletRecord>, bound: u64, k: int)
    requires
        bullet_ids_unique(s, bound),
        0 <= k < s.len(),
    ensures
        !has_bullet(s.remove(k), s[k].id),
        bullet_ids_unique(s.remove(k), bound),
{
    let r = s.remove(k);
    assert forall|j: int| 0 <= j < r.len() implies (#[trigger] r[j]).id != s[k].id by {
        if j < k {
            assert(r[j] == s[j]);
        } else {
            assert(r[j] == s[j + 1]);
        }
    }
    assert forall|i: int, j: int| 0 <= i < j < r.len() implies (#[trigger] r[i]).id != (#[trigger] r[j]).id by {
        let si = if i < k { i } else { i + 1 };
        let sj = if j < k { j } else { j + 1 };
        assert(r[i] == s[si] && r[j] == s[sj]);
    }
    assert forall|j: int| 0 <= j < r.len() implies (#[trigger] r[j]).id < bound by {
        if j < k {
            assert(r[j] == s[j]);
        } else {
            assert(r[j] == s[j + 1]);
        }
    }
}

impl Simulation {
    /// Every living enemy advances its weapon while the player lives. An Orbie
    /// whose weapon is ready and has the player in range launches a projectile
    /// from its position; a Laserie with the player in range asks for a beam,
    /// which the caller resolves with `apply_beam`. Projectile damage is scaled
    /// by the current level's multiplier, and projectiles take fresh ids in
    /// arena order.
    pub fn enemies_fire_at_player(&mut self, delta: u64) -> (r: Vec<Shot>)
        requires
            old(self).wf(),
            old(self).next_id + old(self).enemies@.len() < u64::MAX,
        ensures
            final(self).wf(),
            ({
                let alive = old(self).player.alive();
                let mult = old(self).state.level_params().damage_multiplier;
                let new_bullets = launched(old(self).enemies@, old(self).next_id, delta, alive, mult);
                &&& *final(self) == (Simulation {
                    enemies: final(self).enemies,
                    bullets: final(self).bullets,
                    next_id: final(self).next_id,
                    ..*old(self)
                })
                &&& final(self).bullets@ == old(self).bullets@ + new_bullets
                &&& final(self).next_id == old(self).next_id + new_bullets.len()
                &&& final(self).enemies@.len() == old(self).enemies@.len()
                &&& r@.len() == old(self).enemies@.len()
                &&& forall|i: int|
                    0 <= i < old(self).enemies@.len() ==> {
                        let o = #[trigger] old(self).enemies@[i];
                        let action = o.enemy.fire_action_spec(delta, alive, mult);
                        &&& final(self).enemies@[i] == EnemyRecord { enemy: o.enemy.fired(delta, alive), ..o }
                        &&& r@[i].enemy == o.id
                        &&& r@[i].action == action
                        &&& r@[i].bullet == if action is Projectile {
                            Some(
                                (old(self).next_id + launched(
                                    old(self).enemies@.subrange(0, i),
                                    old(self).next_id,
                                    delta,
                                    alive,
                                    mult,
                                ).len()) as u64,
                            )
                        } else {
                            None
                        }
                    }
            }),
    {
        let ghost old_enemies = self.enemies@;
        let ghost old_bullets = self.bullets@;
        let ghost first = self.next_id;
        let alive = self.player.is_alive();
        let mult = self.get_multiplier();
        let mut r: Vec<Shot> = Vec::new();
        let mut i: usize = 0;
        assert(old_enemies.subrange(0, 0) =~= Seq::<EnemyRecord>::empty());
        while i < self.enemies.len()
            invariant
                i <= self.enemies@.len(),
                self.enemies@.len() == old_enemies.len(),
                *self == (Simulation { enemies: self.enemies, bullets: self.bullets, next_id: self.next_id, ..*old(self) }),
                old_enemies == old(self).enemies@,
                old_bullets == old(self).bullets@,
                first == old(self).next_id,
                old(self).wf(),
                first + old_enemies.len() < u64::MAX,
                alive == old(self).player.alive(),
                mult == old(self).state.level_params().damage_multiplier,
                r@.len() == i,
                launched(old_enemies.subrange(0, i as int), first, delta, alive, mult).len() <= i,
                self.bullets@ == old_bullets + launched(old_enemies.subrange(0, i as int), first, delta, alive, mult),
                self.next_id == first + launched(old_enemies.subrange(0, i as int), first, delta, alive, mult).len(),
                bullet_ids_unique(self.bullets@, self.next_id),
                bullets_in_bounds(self.bullets@),
                forall|j: int| i <= j < old_enemies.len() ==> self.enemies@[j] == old_enemies[j],
                forall|j: int|
                    0 <= j < i ==> {
                        let o = #[trigger] old_enemies[j];
                        let action = o.enemy.fire_action_spec(delta, alive, mult);
                        &&& self.enemies@[j] == EnemyRecord { enemy: o.enemy.fired(delta, alive), ..o }
                        &&& r@[j].enemy == o.id
                        &&& r@[j].action == action
                        &&& r@[j].bullet == if action is Projectile {
                            Some((first + launched(old_enemies.subrange(0, j), first, delta, alive, mult).len()) as u64)
                        } else {
                            None
                        }
                    },
            decreases self.enemies.len() - i,
        {
            let ghost prefix = old_enemies.subrange(0, i as int);
            let ghost next = old_enemies.subrange(0, i + 1);
            assert(next.drop_last() =~= prefix);
            let mut rec = self.enemies[i];
            assert(old_enemies[i as int].position.in_bounds());
            let action = rec.enemy.fire(delta, alive, mult);
            self.enemies.set(i, rec);
            let mut bullet: Option<u64> = None;
            if let FireAction::Projectile(b) = action {
                let id = self.next_id;
                let br = BulletRecord { id, position: rec.position, bullet: b };
                let ghost before = self.bullets@;
                self.bullets.push(br);
                self.next_id = self.next_id + 1;
                bullet = Some(id);
                proof {
                    assert(self.bullets@ =~= old_bullets + launched(next, first, delta, alive, mult));
                    assert forall|j: int| 0 <= j < before.len() implies #[trigger] self.bullets@[j] == before[j] by {}
                }
            } else {
                assert(launched(next, first, delta, alive, mult) == launched(prefix, first, delta, alive, mult));
            }
            r.push(Shot { enemy: rec.id, action, bullet });
            i = i + 1;
        }
        proof {
            assert(old_enemies.subrange(0, i as int) =~= old_enemies);
            assert(same_lives(old_enemies, self.enemies@));
            lemma_same_lives(old_enemies, self.enemies@);
        }
        r
    }

    /// The current level's damage multiplier, in hundredths.
    pub fn get_multiplier(&self) -> (r: u32)
        ensures
            r == self.state.level_params().damage_multiplier,
    {
        self.state.get_level_params().damage_multiplier
    }

    /// Resolves the beam of enemy `enemy_id` for a tick of `delta` milliseconds,
    /// given what its ray cast struck first. Only a living Laserie with the
    /// living player in range has a beam; otherwise nothing happens. When the
    /// beam reaches the player its damage is applied, with the fraction of a
    /// point carried by the enemy to its next tick, and the hit is recorded.
    pub fn apply_beam(&mut self, enemy_id: u64, delta: u64, hit: BeamHit) -> (r: Option<BeamShot>)
        requires
            old(self).wf(),
        ensures
            final(self).wf(),
            r is None ==> *final(self) == *old(self),
            r is Some <==> old(self).player.alive() && exists|i: int|
                #[trigger] first_with_id(old(self).enemies@, i, enemy_id) && {
                    let e = old(self).enemies@[i].enemy;
                    e.alive() && e.kind == EnemyKind::Laserie && e.within_range_of_player
                },
            r matches Some(shot) ==> exists|i: int|
                #[trigger] first_with_id(old(self).enemies@, i, enemy_id) && {
                    let o = old(self).enemies@[i];
                    let mult = old(self).state.level_params().damage_multiplier;
                    &&& shot == o.enemy.beam_shot_spec(delta, mult, hit)
                    &&& final(self).enemies@ == old(self).enemies@.update(
                        i,
                        EnemyRecord { enemy: o.enemy.after_beam(delta, mult, hit), ..o },
                    )
                },
            r matches Some(shot) ==> *final(self) == (Simulation {
                enemies: final(self).enemies,
                player: Player { health: lowered(old(self).player.health, shot.damage), ..old(self).player },
                state: if hit == BeamHit::Player {
                    EnemiesState { last_time_player_took_damage: old(self).now, ..old(self).state }
                } else {
                    old(self).state
                },
                ..*old(self)
            }),
    {
        if !self.player.is_alive() {
            return None;
        }
        let mut i: usize = 0;
        while i < self.enemies.len()
            invariant
                i <= self.enemies@.len(),
                old(self).wf(),
                old(self).player.alive(),
                *self == *old(self),
                forall|j: int| 0 <= j < i ==> (#[trigger] self.enemies@[j]).id != enemy_id,
            decreases self.enemies.len() - i,
        {
            let e = self.enemies[i].enemy;
            if self.enemies[i].id == enemy_id {
                assert(first_with_id(old(self).enemies@, i as int, enemy_id));
                if !e.is_alive() || e.kind != EnemyKind::Laserie || !e.within_range_of_player {
                    proof {
                        assert forall|k: int| #[trigger] first_with_id(old(self).enemies@, k, enemy_id) implies k == i by {
                            if k < i {
                                assert(self.enemies@[k].id != enemy_id);
                            } else if k > i {
                                assert(old(self).enemies@[i as int].id == enemy_id);
                            }
                        }
                    }
                    return None;
                }
                let mult = self.get_multiplier();
                let mut rec = self.enemies[i];
                let shot = rec.enemy.beam_shot(delta, mult, hit);
                self.enemies.set(i, rec);
                self.player.take_damage(shot.damage);
                if let BeamHit::Player = hit {
                    self.player_takes_damage();
                }
                proof {
                    let (a, b) = (old(self).enemies@, self.enemies@);
                    assert(b =~= a.update(i as int, EnemyRecord { enemy: e.after_beam(delta, mult, hit), ..a[i as int] }));
                    assert(same_lives(a, b));
                    lemma_same_lives(a, b);
                }
                return Some(shot);
            }
            i = i + 1;
        }
        None
    }

    /// Resolves a collision reported by the physics engine. A collision without
    /// a projectile, or with one already resolved, changes nothing. Otherwise
    /// the projectile deals its damage directly or as splash, or misses; a hit
    /// is recorded; and the projectile is removed.
    pub fn handle_bullet_collision(&mut self, a: Body, b: Body) -> (r: Option<BulletHit>)
        requires
            old(self).wf(),
        ensures
            final(self).wf(),
            r is None <==> (bullet_side(a, b) is None || !has_bullet(old(self).bullets@, bullet_side(a, b)->Some_0.0)),
            r is None ==> *final(self) == *old(self),
            (collision_view(*final(self)), r) == collision_step(
                collision_view(*old(self)),
                a,
                b,
                old(self).player_position,
                old(self).now,
            ),
            *final(self) == (Simulation {
                bullets: final(self).bullets,
                player: Player { health: final(self).player.health, ..old(self).player },
                state: EnemiesState {
                    last_time_player_took_damage: final(self).state.last_time_player_took_damage,
                    ..old(self).state
                },
                ..*old(self)
            }),
            r matches Some(h) ==> {
                let (id, other) = bullet_side(a, b)->Some_0;
                exists|k: int|
                    0 <= k < old(self).bullets@.len() && {
                        let br = #[trigger] old(self).bullets@[k];
                        &&& br.id == id
                        &&& h == bullet_hit_spec(br.bullet, br.position, struck_by(other), Some(old(self).player_position))
                        &&& final(self).bullets@ == old(self).bullets@.remove(k)
                        &&& *final(self) == (Simulation {
                            bullets: final(self).bullets,
                            player: Player { health: lowered(old(self).player.health, h.damage_spec()), ..old(self).player },
                            state: if h is Miss {
                                old(self).state
                            } else {
                                EnemiesState { last_time_player_took_damage: old(self).now, ..old(self).state }
                            },
                            ..*old(self)
                        })
                    }
            },
    {
        let (id, other) = match a {
            Body::Bullet(id) => (id, b),
            _ => match b {
                Body::Bullet(id) => (id, a),
                _ => {
                    return None;
                },
            },
        };
        assert(bullet_side(a, b) == Some((id, other)));
        let mut k: usize = 0;
        while k < self.bullets.len()
            invariant
                bullet_side(a, b) == Some((id, other)),
                k <= self.bullets@.len(),
                old(self).wf(),
                *self == *old(self),
                forall|j: int| 0 <= j < k ==> (#[trigger] self.bullets@[j]).id != id,
            decreases self.bullets.len() - k,
        {
            if self.bullets[k].id == id {
                let br = self.bullets[k];
                assert(old(self).bullets@[k as int].position.in_bounds());
                let struck = if other == Body::Player {
                    Struck::Player
                } else {
                    Struck::Other
                };
                let h = resolve_bullet_hit(&br.bullet, &br.position, struck, Some(self.player_position));
                self.player.take_damage(h.damage());
                if h.hits_player() {
                    self.player_takes_damage();
                }
                self.bullets.remove(k);
                proof {
                    assert(old(self).bullets@[k as int].id == id);
                    assert(has_bullet(old(self).bullets@, id));
                    let k2 = bullet_index(old(self).bullets@, id);
                    assert(old(self).bullets@[k2].id == id);
                    if k2 < k {
                        assert(old(self).bullets@[k2].id != old(self).bullets@[k as int].id);
                    } else if k2 > k {
                        assert(old(self).bullets@[k as int].id != old(self).bullets@[k2].id);
                    }
                    assert(struck == struck_by(other));
                    lemma_bullet_resolves_once(old(self).bullets@, old(self).next_id, k as int);
                    assert forall|j: int| 0 <= j < self.bullets@.len() implies (#[trigger] self.bullets@[j]).position.in_bounds() by {
                        if j < k {
                            assert(self.bullets@[j] == old(self).bullets@[j]);
                        } else {
                            assert(self.bullets@[j] == old(self).bullets@[j + 1]);
                        }
                    }
                }
                return Some(h);
            }
            k = k + 1;
        }
        None
    }
}

impl Simulation {
    /// Resolves, in order, the collisions the physics engine reported this
    /// tick, each as `handle_bullet_collision` would on the session the earlier
    /// reports left. Each projectile is resolved at most once: whatever a report
    /// resolved is gone afterwards, and the player's health only falls.
    pub fn handle_bullet_collisions(&mut self, events: &Vec<(Body, Body)>) -> (r: Vec<Option<BulletHit>>)
        requires
            old(self).wf(),
        ensures
            final(self).wf(),
            r@.len() == events@.len(),
            (collision_view(*final(self)), r@) == collision_fold(
                collision_view(*old(self)),
                events@,
                old(self).player_position,
                old(self).now,
            ),
            *final(self) == (Simulation {
                bullets: final(self).bullets,
                player: Player { health: final(self).player.health, ..old(self).player },
                state: EnemiesState {
                    last_time_player_took_damage: final(self).state.last_time_player_took_damage,
                    ..old(self).state
                },
                ..*old(self)
            }),
            final(self).enemies == old(self).enemies,
            final(self).state.current_level == old(self).state.current_level,
            final(self).player.health <= old(self).player.health,
            forall|k: int| 0 <= k < final(self).bullets@.len() ==> has_bullet(old(self).bullets@, (#[trigger] final(self).bullets@[k]).id),
            forall|i: int|
                0 <= i < r@.len() && (#[trigger] r@[i]) is Some ==> {
                    &&& bullet_side(events@[i].0, events@[i].1) is Some
                    &&& !has_bullet(final(self).bullets@, bullet_side(events@[i].0, events@[i].1)->Some_0.0)
                },
            forall|i: int, j: int|
                0 <= i < j < r@.len() && (#[trigger] r@[i]) is Some && (#[trigger] r@[j]) is Some
                    ==> bullet_side(events@[i].0, events@[i].1)->Some_0.0 != bullet_side(events@[j].0, events@[j].1)->Some_0.0,
    {
        let mut r: Vec<Option<BulletHit>> = Vec::new();
        let mut i: usize = 0;
        while i < events.len()
            invariant
                i <= events@.len(),
                r@.len() == i,
                self.wf(),
                (collision_view(*self), r@) == collision_fold(
                    collision_view(*old(self)),
                    events@.subrange(0, i as int),
                    old(self).player_position,
                    old(self).now,
                ),
                *self == (Simulation {
                    bullets: self.bullets,
                    player: Player { health: self.player.health, ..old(self).player },
                    state: EnemiesState {
                        last_time_player_took_damage: self.state.last_time_player_took_damage,
                        ..old(self).state
                    },
                    ..*old(self)
                }),
                self.enemies == old(self).enemies,
                self.state.current_level == old(self).state.current_level,
                self.player.health <= old(self).player.health,
                forall|k: int| 0 <= k < self.bullets@.len() ==> has_bullet(old(self).bullets@, (#[trigger] self.bullets@[k]).id),
                forall|j: int|
                    0 <= j < i && (#[trigger] r@[j]) is Some ==> {
                        &&& bullet_side(events@[j].0, events@[j].1) is Some
                        &&& !has_bullet(self.bullets@, bullet_side(events@[j].0, events@[j].1)->Some_0.0)
                    },
                forall|j: int, k: int|
                    0 <= j < k < i && (#[trigger] r@[j]) is Some && (#[trigger] r@[k]) is Some
                        ==> bullet_side(events@[j].0, events@[j].1)->Some_0.0 != bullet_side(events@[k].0, events@[k].1)->Some_0.0,
            decreases events.len() - i,
        {
            let ghost before = self.bullets@;
            assert(events@.subrange(0, i + 1).drop_last() =~= events@.subrange(0, i as int));
            let (a, b) = events[i];
            let h = self.handle_bullet_collision(a, b);
            proof {
                if h is Some {
                    let k = choose|k: int|
                        0 <= k < before.len() && (#[trigger] before[k]).id == bullet_side(a, b)->Some_0.0
                            && self.bullets@ == before.remove(k);
                    lemma_remove_keeps_absent(before, k);
                }
            }
            r.push(h);
            i = i + 1;
        }
        assert(events@.subrange(0, i as int) =~= events@);
        r
    }
}

/// Removing a record neither brings back an absent id nor introduces a new one.
proof fn lemma_remove_keeps_absent(s: Seq<BulletRecord>, k: int)
    requires
        0 <= k < s.len(),
    ensures
        forall|id: u64| !has_bullet(s, id) ==> !has_bullet(#[trigger] s.remove(k), id),
        forall|j: int| 0 <= j < s.remove(k).len() ==> has_bullet(s, (#[trigger] s.remove(k)[j]).id),
{
    let r = s.remove(k);
    assert forall|j: int| 0 <= j < r.len() implies r[j] == if j < k { s[j] } else { s[j + 1] } by {}
    assert forall|id: u64| !has_bullet(s, id) implies !has_bullet(#[trigger] s.remove(k), id) by {
        if has_bullet(r, id) {
            let j = choose|j: int| 0 <= j < r.len() && (#[trigger] r[j]).id == id;
            if j < k {
                assert(s[j].id == id);
            } else {
                assert(s[j + 1].id == id);
            }
        }
    }
    assert forall|j: int| 0 <= j < r.len() implies has_bullet(s, (#[trigger] r[j]).id) by {
        if j < k {
            assert(s[j] == r[j]);
        } else {
            assert(s[j + 1] == r[j]);
        }
    }
}

/// How long a dead enemy lingers before removal.
pub open spec fn linger_spec(reduced_effects: bool) -> u64 {
    if reduced_effects {
        DEATH_LINGER_REDUCED_MS
    } else {
        DEATH_LINGER_MS
    }
}

/// The records of `s` that are alive with no health left, in order.
pub open spec fn dying_records(s: Seq<EnemyRecord>) -> Seq<EnemyRecord>
    decreases s.len(),
{
    if s.len() == 0 {
        Seq::empty()
    } else if s.last().enemy.alive() && s.last().enemy.health <= 0 {
        dying_records(s.drop_last()).push(s.last())
    } else {
        dying_records(s.drop_last())
    }
}

/// The explosion left where the enemy of `rec` dies.
pub open spec fn explosion_at(rec: EnemyRecord) -> ExplosionRecord {
    ExplosionRecord { position: rec.position, explosion: Explosion { progress: 0, speed: 3000, scale: 33 } }
}

/// Whether `d` reports the death of `rec` as the kill after which the
/// director went from `before` to `after`.
pub open spec fn reports_death(d: Death, rec: EnemyRecord, before: EnemiesState, after: EnemiesState) -> bool {
    &&& d.id == rec.id
    &&& d.position == rec.position
    &&& -DEATH_TORQUE <= d.torque.x <= DEATH_TORQUE
    &&& -DEATH_TORQUE <= d.torque.y <= DEATH_TORQUE
    &&& -DEATH_TORQUE <= d.torque.z <= DEATH_TORQUE
    &&& d.impulse.x == 0 && d.impulse.y == -DEATH_IMPULSE && d.impulse.z == 0
    &&& d.leveled_up == (after.current_level != before.current_level)
}

/// The records of `s` that stay after the dead ones due at `now` are removed.
pub open spec fn kept(s: Seq<EnemyRecord>, now: u64) -> Seq<EnemyRecord>
    decreases s.len(),
{
    if s.len() == 0 {
        Seq::empty()
    } else if s.last().enemy.due(now) {
        kept(s.drop_last(), now)
    } else {
        kept(s.drop_last(), now).push(s.last())
    }
}

/// The ids of the records of `s` removed because they are due at `now`, in order.
pub open spec fn removed_ids(s: Seq<EnemyRecord>, now: u64) -> Seq<u64>
    decreases s.len(),
{
    if s.len() == 0 {
        Seq::empty()
    } else if s.last().enemy.due(now) {
        removed_ids(s.drop_last(), now).push(s.last().id)
    } else {
        removed_ids(s.drop_last(), now)
    }
}

/// The explosions of `s` advanced by `delta` milliseconds, without those that are over.
pub open spec fn advanced(s: Seq<ExplosionRecord>, delta: u64) -> Seq<ExplosionRecord>
    decreases s.len(),
{
    if s.len() == 0 {
        Seq::empty()
    } else {
        let e = s.last();
        let p = e.explosion.progressed(delta);
        if p >= crate::explosion::PROGRESS_END {
            advanced(s.drop_last(), delta)
        } else {
            advanced(s.drop_last(), delta).push(
                ExplosionRecord { explosion: Explosion { progress: p, ..e.explosion }, ..e },
            )
        }
    }
}

/// Fewer (or as many) live records when no record comes to life.
proof fn lemma_live_count_le(a: Seq<EnemyRecord>, b: Seq<EnemyRecord>)
    requires
        a.len() == b.len(),
        forall|i: int| 0 <= i < a.len() && (#[trigger] b[i]).enemy.alive() ==> a[i].enemy.alive(),
    ensures
        live_count(b) <= live_count(a),
    decreases a.len(),
{
    if a.len() > 0 {
        let (a2, b2) = (a.drop_last(), b.drop_last());
        assert forall|i: int| 0 <= i < a2.len() && (#[trigger] b2[i]).enemy.alive() implies a2[i].enemy.alive() by {
            assert(b2[i] == b[i] && a2[i] == a[i]);
        }
        lemma_live_count_le(a2, b2);
        assert(b.last() == b[b.len() - 1]);
    }
}

/// Removing records that are due keeps every live one and takes its records from `s`.
proof fn lemma_kept(s: Seq<EnemyRecord>, now: u64)
    ensures
        live_count(kept(s, now)) == live_count(s),
        forall|j: int| 0 <= j < kept(s, now).len() ==> exists|i: int| 0 <= i < s.len() && #[trigger] kept(s, now)[j] == s[i],
    decreases s.len(),
{
    if s.len() > 0 {
        let rest = s.drop_last();
        lemma_kept(rest, now);
        let k = kept(s, now);
        let kr = kept(rest, now);
        if !s.last().enemy.due(now) {
            assert(k.drop_last() =~= kr);
            assert forall|j: int| 0 <= j < k.len() implies exists|i: int| 0 <= i < s.len() && #[trigger] k[j] == s[i] by {
                if j < kr.len() {
                    let i = choose|i: int| 0 <= i < rest.len() && kr[j] == rest[i];
                    assert(k[j] == s[i]);
                } else {
                    assert(k[j] == s[s.len() - 1]);
                }
            }
        } else {
            assert forall|j: int| 0 <= j < k.len() implies exists|i: int| 0 <= i < s.len() && #[trigger] k[j] == s[i] by {
                let i = choose|i: int| 0 <= i < rest.len() && kr[j] == rest[i];
                assert(k[j] == s[i]);
            }
        }
    }
}

/// The records agree on everything but how each enemy's life changed.
pub open spec fn same_lives_but_death(a: Seq<EnemyRecord>, b: Seq<EnemyRecord>) -> bool {
    &&& a.len() == b.len()
    &&& forall|i: int|
        0 <= i < a.len() ==> {
            &&& (#[trigger] a[i]).position == b[i].position
            &&& a[i].id == b[i].id
            &&& a[i].enemy.current_random_offset == b[i].enemy.current_random_offset
        }
}

proof fn lemma_ids_bounds_kept(a: Seq<EnemyRecord>, b: Seq<EnemyRecord>, bound: u64)
    requires
        same_lives_but_death(a, b),
        enemy_ids_below(a, bound),
        enemies_in_bounds(a),
    ensures
        enemy_ids_below(b, bound),
        enemies_in_bounds(b),
{
    assert forall|i: int| 0 <= i < b.len() implies (#[trigger] b[i]).id < bound by {
        assert(a[i].id == b[i].id);
    }
    assert forall|i: int| 0 <= i < b.len() implies {
        &&& (#[trigger] b[i]).position.in_bounds()
        &&& jitter_ok(b[i].enemy.current_random_offset)
    } by {
        assert(a[i].position == b[i].position);
    }
}

/// With the built-in table, kills never lower the cap on live enemies.
proof fn lemma_cap_after_kills(s: EnemiesState, n: nat)
    requires
        s.levels@ == default_levels(),
    ensures
        s.after_kills(n).level_params().max_enemies >= s.level_params().max_enemies,
        s.after_kills(n).levels@ == default_levels(),
        s.current_level < LEVEL_COUNT ==> s.after_kills(n).current_level < LEVEL_COUNT,
    decreases n,
{
    if n > 0 {
        lemma_cap_after_kills(s, (n - 1) as nat);
        crate::director::lemma_kill_keeps_cap(s.after_kills((n - 1) as nat));
    }
}

impl Simulation {
    /// Every living enemy with no health left dies: it becomes dead, due for
    /// removal after the linger time, leaves an explosion, and counts as a kill,
    /// which may raise the level. Returns the deaths in arena order.
    pub fn kill_enemy(&mut self) -> (r: Vec<Death>)
        requires
            old(self).wf(),
        ensures
            final(self).wf(),
            *final(self) == (Simulation {
                enemies: final(self).enemies,
                state: final(self).state,
                explosions: final(self).explosions,
                rng: final(self).rng,
                ..*old(self)
            }),
            final(self).enemies@.len() == old(self).enemies@.len(),
            forall|i: int|
                0 <= i < old(self).enemies@.len() ==> {
                    let o = #[trigger] old(self).enemies@[i];
                    final(self).enemies@[i] == EnemyRecord {
                        enemy: o.enemy.death_checked(old(self).now, linger_spec(old(self).reduced_effects)),
                        ..o
                    }
                },
            r@.len() == dying_records(old(self).enemies@).len(),
            forall|j: int|
                0 <= j < r@.len() ==> reports_death(
                    #[trigger] r@[j],
                    dying_records(old(self).enemies@)[j],
                    old(self).state.after_kills(j as nat),
                    old(self).state.after_kills((j + 1) as nat),
                ),
            final(self).state == old(self).state.after_kills(r@.len()),
            final(self).state.current_level >= old(self).state.current_level,
            final(self).explosions@ == old(self).explosions@ + dying_records(old(self).enemies@).map_values(
                |rec: EnemyRecord| explosion_at(rec),
            ),
    {
        let ghost old_enemies = self.enemies@;
        let ghost old_state = self.state;
        let linger = if self.reduced_effects {
            DEATH_LINGER_REDUCED_MS
        } else {
            DEATH_LINGER_MS
        };
        let now = self.now;
        let mut deaths: Vec<Death> = Vec::new();
        let mut i: usize = 0;
        while i < self.enemies.len()
            invariant
                i <= self.enemies@.len(),
                self.enemies@.len() == old_enemies.len(),
                *self == (Simulation {
                    enemies: self.enemies,
                    state: self.state,
                    explosions: self.explosions,
                    rng: self.rng,
                    ..*old(self)
                }),
                old_enemies == old(self).enemies@,
                old_state == old(self).state,
                old(self).wf(),
                now == old(self).now,
                linger == linger_spec(old(self).reduced_effects),
                deaths@.len() == dying_records(old_enemies.subrange(0, i as int)).len(),
                forall|j: int|
                    0 <= j < deaths@.len() ==> reports_death(
                        #[trigger] deaths@[j],
                        dying_records(old_enemies.subrange(0, i as int))[j],
                        old_state.after_kills(j as nat),
                        old_state.after_kills((j + 1) as nat),
                    ),
                self.state == old_state.after_kills(deaths@.len()),
                self.explosions@ == old(self).explosions@ + dying_records(old_enemies.subrange(0, i as int)).map_values(
                    |rec: EnemyRecord| explosion_at(rec),
                ),
                forall|j: int| i <= j < old_enemies.len() ==> self.enemies@[j] == old_enemies[j],
                forall|j: int|
                    0 <= j < i ==> self.enemies@[j] == (EnemyRecord {
                        enemy: (#[trigger] old_enemies[j]).enemy.death_checked(now, linger),
                        ..old_enemies[j]
                    }),
            decreases self.enemies.len() - i,
        {
            assert(old_enemies.subrange(0, i + 1).drop_last() =~= old_enemies.subrange(0, i as int));
            let ghost dr = dying_records(old_enemies.subrange(0, i as int));
            let ghost ex = self.explosions@;
            let ghost ds = deaths@;
            let ghost st = self.state;
            let mut rec = self.enemies[i];
            let ghost orec = rec;
            let died = rec.enemy.check_death(now, linger);
            self.enemies.set(i, rec);
            if died {
                let leveled_up = self.state.record_kill();
                let tx = gen_between(&mut self.rng, -DEATH_TORQUE, DEATH_TORQUE);
                let ty = gen_between(&mut self.rng, -DEATH_TORQUE, DEATH_TORQUE);
                let tz = gen_between(&mut self.rng, -DEATH_TORQUE, DEATH_TORQUE);
                self.explosions.push(ExplosionRecord { position: rec.position, explosion: Explosion::new() });
                deaths.push(
                    Death {
                        id: rec.id,
                        position: rec.position,
                        torque: Vec3 { x: tx, y: ty, z: tz },
                        impulse: Vec3 { x: 0, y: -DEATH_IMPULSE, z: 0 },
                        leveled_up,
                    },
                );
                proof {
                    let dr2 = dying_records(old_enemies.subrange(0, i + 1));
                    assert(dr2 == dr.push(orec));
                    assert(self.explosions@ =~= old(self).explosions@ + dr2.map_values(|rec: EnemyRecord| explosion_at(rec)));
                    assert forall|j: int| 0 <= j < deaths@.len() implies reports_death(
                        #[trigger] deaths@[j],
                        dr2[j],
                        old_state.after_kills(j as nat),
                        old_state.after_kills((j + 1) as nat),
                    ) by {
                        if j < ds.len() {
                            assert(deaths@[j] == ds[j]);
                            assert(dr2[j] == dr[j]);
                        }
                    }
                }
            }
            i = i + 1;
        }
        proof {
            assert(old_enemies.subrange(0, i as int) =~= old_enemies);
            lemma_kills_raise_level_gradually(old_state, deaths@.len());
            lemma_cap_after_kills(old_state, deaths@.len());
            assert forall|j: int| 0 <= j < old_enemies.len() && (#[trigger] self.enemies@[j]).enemy.alive()
                implies old_enemies[j].enemy.alive() by {}
            lemma_live_count_le(old_enemies, self.enemies@);
            assert(same_lives_but_death(old_enemies, self.enemies@));
            lemma_ids_bounds_kept(old_enemies, self.enemies@, old(self).next_id);
        }
        deaths
    }

    /// Removes the dead enemies whose removal time has come. Returns their ids.
    pub fn clean_up_dead(&mut self) -> (r: Vec<u64>)
        requires
            old(self).wf(),
        ensures
            final(self).wf(),
            *final(self) == (Simulation { enemies: final(self).enemies, ..*old(self) }),
            final(self).enemies@ == kept(old(self).enemies@, old(self).now),
            r@ == removed_ids(old(self).enemies@, old(self).now),
            r@.len() + final(self).enemies@.len() == old(self).enemies@.len(),
    {
        let ghost old_enemies = self.enemies@;
        let now = self.now;
        let mut stay: Vec<EnemyRecord> = Vec::new();
        let mut gone: Vec<u64> = Vec::new();
        let mut i: usize = 0;
        while i < self.enemies.len()
            invariant
                i <= self.enemies@.len(),
                self.enemies@ == old_enemies,
                *self == *old(self),
                old_enemies == old(self).enemies@,
                now == old(self).now,
                stay@ == kept(old_enemies.subrange(0, i as int), now),
                gone@ == removed_ids(old_enemies.subrange(0, i as int), now),
                gone@.len() + stay@.len() == i,
            decreases self.enemies.len() - i,
        {
            assert(old_enemies.subrange(0, i + 1).drop_last() =~= old_enemies.subrange(0, i as int));
            let rec = self.enemies[i];
            if rec.enemy.despawn_due(now) {
                gone.push(rec.id);
            } else {
                stay.push(rec);
            }
            i = i + 1;
        }
        proof {
            assert(old_enemies.subrange(0, i as int) =~= old_enemies);
            lemma_kept(old_enemies, now);
        }
        self.enemies = stay;
        proof {
            let k = self.enemies@;
            assert forall|j: int| 0 <= j < k.len() implies (#[trigger] k[j]).id < old(self).next_id && k[j].position.in_bounds()
                && jitter_ok(k[j].enemy.current_random_offset) by {
                let i = choose|i: int| 0 <= i < old_enemies.len() && k[j] == old_enemies[i];
                assert(old_enemies[i].position.in_bounds());
            }
        }
        gone
    }

    /// Advances every explosion by `delta` milliseconds and removes those that are over.
    pub fn progress_explosions(&mut self, delta: u64)
        requires
            old(self).wf(),
        ensures
            final(self).wf(),
            *final(self) == (Simulation { explosions: final(self).explosions, ..*old(self) }),
            final(self).explosions@ == advanced(old(self).explosions@, delta),
    {
        let ghost old_ex = self.explosions@;
        let mut stay: Vec<ExplosionRecord> = Vec::new();
        let mut i: usize = 0;
        while i < self.explosions.len()
            invariant
                i <= self.explosions@.len(),
                self.explosions@ == old_ex,
                *self == *old(self),
                old_ex == old(self).explosions@,
                stay@ == advanced(old_ex.subrange(0, i as int), delta),
            decreases self.explosions.len() - i,
        {
            assert(old_ex.subrange(0, i + 1).drop_last() =~= old_ex.subrange(0, i as int));
            let mut rec = self.explosions[i];
            let done = rec.explosion.advance(delta);
            if !done {
                stay.push(rec);
            }
            i = i + 1;
        }
        proof {
            assert(old_ex.subrange(0, i as int) =~= old_ex);
        }
        self.explosions = stay;
    }

    /// Starts the session over: full health, no enemies, the director reset,
    /// and spawning paused until the player fires again.
    pub fn restart(&mut self)
        requires
            old(self).wf(),
        ensures
            final(self).wf(),
            final(self).state.is_initial(),
            final(self).enemies@.len() == 0,
            final(self).player == (Player { health: old(self).player.max_health, ..old(self).player }),
            final(self).spawn_timer == (Timer { paused: true, ..old(self).spawn_timer }),
            *final(self) == (Simulation {
                state: final(self).state,
                enemies: final(self).enemies,
                player: final(self).player,
                spawn_timer: final(self).spawn_timer,
                ..*old(self)
            }),
    {
        self.player.restore();
        self.enemies = Vec::new();
        self.state.reset();
        self.spawn_timer.pause();
    }
}

impl Simulation {
    /// Stores where the physics engine has moved enemy `id` and how fast it is
    /// going. An unknown id changes nothing. Returns whether the enemy exists.
    pub fn set_enemy_motion(&mut self, id: u64, position: Vec3, velocity: Vec3) -> (found: bool)
        requires
            old(self).wf(),
            position.in_bounds(),
        ensures
            final(self).wf(),
            !found ==> *final(self) == *old(self),
            found <==> exists|i: int| 0 <= i < old(self).enemies@.len() && (#[trigger] old(self).enemies@[i]).id == id,
            found ==> exists|i: int|
                #[trigger] first_with_id(old(self).enemies@, i, id)
                    && final(self).enemies@ == old(self).enemies@.update(
                    i,
                    EnemyRecord { position, velocity, ..old(self).enemies@[i] },
                ),
            *final(self) == (Simulation { enemies: final(self).enemies, ..*old(self) }),
    {
        let mut i: usize = 0;
        while i < self.enemies.len()
            invariant
                i <= self.enemies@.len(),
                old(self).wf(),
                forall|j: int| 0 <= j < i ==> (#[trigger] self.enemies@[j]).id != id,
                position.in_bounds(),
                *self == *old(self),
            decreases self.enemies.len() - i,
        {
            if self.enemies[i].id == id {
                assert(first_with_id(old(self).enemies@, i as int, id));
                let mut rec = self.enemies[i];
                rec.position = position;
                rec.velocity = velocity;
                self.enemies.set(i, rec);
                proof {
                    let (a, b) = (old(self).enemies@, self.enemies@);
                    assert forall|j: int| 0 <= j < a.len() && (#[trigger] b[j]).enemy.alive() implies a[j].enemy.alive() by {}
                    assert forall|j: int| 0 <= j < a.len() && (#[trigger] a[j]).enemy.alive() implies b[j].enemy.alive() by {}
                    lemma_live_count_le(a, b);
                    lemma_live_count_le(b, a);
                    assert forall|j: int| 0 <= j < b.len() implies (#[trigger] b[j]).id < self.next_id && b[j].position.in_bounds()
                        && jitter_ok(b[j].enemy.current_random_offset) by {
                        assert(a[j].position.in_bounds());
                    }
                }
                return true;
            }
            i = i + 1;
        }
        false
    }

    /// Stores where the physics engine has moved projectile `id`. An unknown id
    /// changes nothing. Returns whether the projectile exists.
    pub fn set_bullet_position(&mut self, id: u64, position: Vec3) -> (found: bool)
        requires
            old(self).wf(),
            position.in_bounds(),
        ensures
            final(self).wf(),
            !found ==> *final(self) == *old(self),
            found <==> has_bullet(old(self).bullets@, id),
            found ==> exists|k: int|
                0 <= k < old(self).bullets@.len() && (#[trigger] old(self).bullets@[k]).id == id
                    && final(self).bullets@ == old(self).bullets@.update(
                    k,
                    BulletRecord { position, ..old(self).bullets@[k] },
                ),
            *final(self) == (Simulation { bullets: final(self).bullets, ..*old(self) }),
    {
        let mut k: usize = 0;
        while k < self.bullets.len()
            invariant
                k <= self.bullets@.len(),
                old(self).wf(),
                forall|j: int| 0 <= j < k ==> (#[trigger] self.bullets@[j]).id != id,
                position.in_bounds(),
                *self == *old(self),
            decreases self.bullets.len() - k,
        {
            if self.bullets[k].id == id {
                let mut rec = self.bullets[k];
                rec.position = position;
                self.bullets.set(k, rec);
                proof {
                    let (a, b) = (old(self).bullets@, self.bullets@);
                    assert forall|j: int| 0 <= j < b.len() implies (#[trigger] b[j]).id == a[j].id by {}
                    assert forall|j: int| 0 <= j < b.len() implies (#[trigger] b[j]).position.in_bounds() by {
                        assert(a[j].position.in_bounds());
                    }
                }
                return true;
            }
            k = k + 1;
        }
        false
    }

    /// Deals `amount` damage to enemy `id`, alive or dead; it dies at the next
    /// `kill_enemy` if its health has run out. An unknown id changes nothing.
    /// Returns whether the enemy exists.
    pub fn damage_enemy(&mut self, id: u64, amount: u32) -> (found: bool)
        requires
            old(self).wf(),
        ensures
            final(self).wf(),
            !found ==> *final(self) == *old(self),
            found <==> exists|i: int| 0 <= i < old(self).enemies@.len() && (#[trigger] old(self).enemies@[i]).id == id,
            found ==> exists|i: int|
                #[trigger] first_with_id(old(self).enemies@, i, id)
                    && final(self).enemies@ == old(self).enemies@.update(
                    i,
                    EnemyRecord { enemy: old(self).enemies@[i].enemy.damaged(amount), ..old(self).enemies@[i] },
                ),
            *final(self) == (Simulation { enemies: final(self).enemies, ..*old(self) }),
    {
        let mut i: usize = 0;
        while i < self.enemies.len()
            invariant
                i <= self.enemies@.len(),
                old(self).wf(),
                forall|j: int| 0 <= j < i ==> (#[trigger] self.enemies@[j]).id != id,
                *self == *old(self),
            decreases self.enemies.len() - i,
        {
            if self.enemies[i].id == id {
                assert(first_with_id(old(self).enemies@, i as int, id));
                let mut rec = self.enemies[i];
                rec.enemy.take_damage(amount);
                self.enemies.set(i, rec);
                proof {
                    let (a, b) = (old(self).enemies@, self.enemies@);
                    assert(same_lives(a, b));
                    lemma_same_lives(a, b);
                }
                return true;
            }
            i = i + 1;
        }
        false
    }
}

/// However spawns, kills, removals and restarts are interleaved, the live
/// enemies never outnumber the current level's cap: every operation keeps the
/// session invariant, and the invariant bounds the count.
pub proof fn lemma_live_enemies_within_cap(sim: Simulation)
    requires
        sim.wf(),
    ensures
        live_positions(sim.enemies@).len() <= sim.state.level_params().max_enemies,
{
    lemma_live_positions_len(sim.enemies@);
}

/// The live count is the number of live positions.
proof fn lemma_live_positions_len(s: Seq<EnemyRecord>)
    ensures
        live_positions(s).len() == live_count(s),
    decreases s.len(),
{
    if s.len() > 0 {
        lemma_live_positions_len(s.drop_last());
    }
}

} // verus!
