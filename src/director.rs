//! The wave director: difficulty level, kill count, destinations of interest
//! and where new enemies may appear.
use crate::difficulty::{clamped_level, default_level_table, default_levels, LevelParams, LEVEL_COUNT};
use crate::geometry::{dist_sq_spec, sq, Vec3};
use crate::random::gen_index;
use crate::ranking::{find_rank, rank};
use rand::rngs::StdRng;
use vstd::prelude::*;

verus! {

/// How many waypoints are active destinations at a time.
pub const DESTINATION_COUNT: usize = 3;

/// Without a hit on the player for longer than this, enemies close in.
pub const CAMPING_GRACE_MS: u64 = 10_000;

/// How many of the nearest waypoints are passed over while the player is being hit.
pub const CAMPING_SKIP: usize = 5;

/// A new enemy must appear farther than this from every live enemy.
pub const SPAWN_CLEARANCE: u32 = 5_000;

/// How many spawn points are tried on one spawn tick.
pub const SPAWN_ATTEMPTS: usize = 3;

/// Level positions, grouped by the part of the level they belong to.
pub struct Waypoints {
    pub inside: Vec<Vec3>,
    pub outside: Vec<Vec3>,
    pub window: Vec<Vec3>,
    pub outfront: Vec<Vec3>,
}

impl Waypoints {
    pub fn new() -> (r: Waypoints)
        ensures
            r.inside@.len() == 0,
            r.outside@.len() == 0,
            r.window@.len() == 0,
            r.outfront@.len() == 0,
    {
        Waypoints { inside: Vec::new(), outside: Vec::new(), window: Vec::new(), outfront: Vec::new() }
    }
}

/// Whether every point of `s` is within the coordinate limits.
pub open spec fn all_in_bounds(s: Seq<Vec3>) -> bool {
    forall|i: int| 0 <= i < s.len() ==> (#[trigger] s[i]).in_bounds()
}

/// The squared distance from `p` to each point of `pts`.
pub open spec fn distances_from(p: Vec3, pts: Seq<Vec3>) -> Seq<int> {
    pts.map_values(|q: Vec3| dist_sq_spec(p, q))
}

/// Whether `p` is farther than the spawn clearance from every point of `live`.
pub open spec fn clear_of(p: Vec3, live: Seq<Vec3>) -> bool {
    forall|i: int| 0 <= i < live.len() ==> dist_sq_spec(p, #[trigger] live[i]) > sq(SPAWN_CLEARANCE as int)
}

/// The first of the drawn spawn points that is clear of every live enemy.
pub open spec fn first_clear(draws: Seq<usize>, points: Seq<Vec3>, live: Seq<Vec3>) -> Option<Vec3>
    decreases draws.len(),
{
    if draws.len() == 0 {
        None
    } else if clear_of(points[draws[0] as int], live) {
        Some(points[draws[0] as int])
    } else {
        first_clear(draws.drop_first(), points, live)
    }
}

/// Difficulty level, kill count and destinations shared by all enemies.
pub struct EnemiesState {
    pub enemies_killed: u32,
    pub current_level: usize,
    pub levels: [LevelParams; 14],
    /// Indices into the `inside` waypoints that enemies head for.
    pub destinations: [usize; 3],
    /// Simulation time, in milliseconds, of the last hit on the player.
    pub last_time_player_took_damage: u64,
}

impl EnemiesState {
    /// Whether this is the state at the start of a session.
    pub open spec fn is_initial(self) -> bool {
        &&& self.enemies_killed == 0
        &&& self.current_level == 0
        &&& self.levels@ == default_levels()
        &&& self.destinations@ == seq![0usize, 1, 2]
        &&& self.last_time_player_took_damage == 0
    }

    /// The parameters of the current level, clamped to the table.
    pub open spec fn level_params(self) -> LevelParams {
        self.levels@[clamped_level(self.current_level as int)]
    }

    /// The rank of the first destination: the nearest waypoints when the
    /// player has not been hit for a while, otherwise ones farther out.
    pub open spec fn destination_base(self, now: u64) -> int {
        if now - self.last_time_player_took_damage > CAMPING_GRACE_MS {
            0
        } else {
            CAMPING_SKIP as int
        }
    }

    /// The state after one more kill.
    pub open spec fn after_kill(self) -> EnemiesState {
        let kills = if self.enemies_killed < u32::MAX {
            (self.enemies_killed + 1) as u32
        } else {
            self.enemies_killed
        };
        let level_up = kills >= self.level_params().kills_to_level_up && self.current_level + 1
            < LEVEL_COUNT;
        EnemiesState {
            enemies_killed: kills,
            current_level: if level_up {
                (self.current_level + 1) as usize
            } else {
                self.current_level
            },
            ..self
        }
    }

    /// The state after `n` more kills.
    pub open spec fn after_kills(self, n: nat) -> EnemiesState
        decreases n,
    {
        if n == 0 {
            self
        } else {
            self.after_kills((n - 1) as nat).after_kill()
        }
    }

    /// What a spawn tick yields for the given draws from `outfront`.
    pub open spec fn spawn_choice(self, draws: Seq<usize>, outfront: Seq<Vec3>, live: Seq<Vec3>) -> Option<Vec3> {
        if live.len() >= self.level_params().max_enemies {
            None
        } else {
            first_clear(draws, outfront, live)
        }
    }

    pub fn new() -> (r: EnemiesState)
        ensures
            r.is_initial(),
    {
        let r = EnemiesState {
            enemies_killed: 0,
            current_level: 0,
            levels: default_level_table(),
            destinations: [0, 1, 2],
            last_time_player_took_damage: 0,
        };
        assert(r.destinations@ =~= seq![0usize, 1, 2]);
        r
    }

    /// The parameters of the current level; levels past the table use its last row.
    pub fn get_level_params(&self) -> (r: &LevelParams)
        ensures
            *r == self.level_params(),
    {
        if self.current_level < LEVEL_COUNT {
            &self.levels[self.current_level]
        } else {
            &self.levels[LEVEL_COUNT - 1]
        }
    }

    /// Counts a kill, and moves up one level when the count reaches the
    /// current level's threshold. Returns whether the level went up.
    pub fn record_kill(&mut self) -> (leveled_up: bool)
        ensures
            *final(self) == old(self).after_kill(),
            leveled_up == (final(self).current_level != old(self).current_level),
    {
        self.enemies_killed = self.enemies_killed.saturating_add(1);
        let threshold = self.get_level_params().kills_to_level_up;
        if self.enemies_killed >= threshold && self.current_level < LEVEL_COUNT - 1 {
            self.current_level = self.current_level + 1;
            true
        } else {
            false
        }
    }

    /// Notes the time of a hit on the player.
    pub fn record_player_hit(&mut self, now: u64)
        ensures
            *final(self) == (EnemiesState { last_time_player_took_damage: now, ..*old(self) }),
    {
        self.last_time_player_took_damage = now;
    }

    /// Restores the state of a fresh session.
    pub fn reset(&mut self)
        ensures
            final(self).is_initial(),
    {
        *self = EnemiesState::new();
    }

    /// Points the destinations at three `inside` waypoints ranked by distance
    /// from the player: the nearest three when the player has not been hit for
    /// more than the grace period, otherwise the sixth to eighth nearest.
    pub fn choose_destinations(&mut self, now: u64, player: &Vec3, inside: &Vec<Vec3>)
        requires
            player.in_bounds(),
            all_in_bounds(inside@),
            inside@.len() >= old(self).destination_base(now) + DESTINATION_COUNT,
        ensures
            *final(self) == (EnemiesState { destinations: final(self).destinations, ..*old(self) }),
            forall|k: int|
                0 <= k < DESTINATION_COUNT ==> {
                    &&& #[trigger] final(self).destinations@[k] < inside@.len()
                    &&& rank(distances_from(*player, inside@), final(self).destinations@[k] as int)
                        == old(self).destination_base(now) + k
                },
    {
        let mut d: Vec<u64> = Vec::new();
        let mut i: usize = 0;
        while i < inside.len()
            invariant
                i <= inside@.len(),
                player.in_bounds(),
                all_in_bounds(inside@),
                d@.len() == i,
                forall|j: int| 0 <= j < i ==> d@[j] as int == dist_sq_spec(*player, #[trigger] inside@[j]),
            decreases inside.len() - i,
        {
            d.push(player.dist_sq(&inside[i]));
            i = i + 1;
        }
        assert(d@.map_values(|x: u64| x as int) =~= distances_from(*player, inside@));
        let base: usize = if now > self.last_time_player_took_damage
            && now - self.last_time_player_took_damage > CAMPING_GRACE_MS {
            0
        } else {
            CAMPING_SKIP
        };
        let a = find_rank(&d, base);
        let b = find_rank(&d, base + 1);
        let c = find_rank(&d, base + 2);
        self.destinations = [a, b, c];
    }

    /// Picks where to spawn given the spawn points already drawn: nothing when
    /// the level's enemy cap is reached, otherwise the first drawn point that is
    /// clear of every live enemy, if any.
    pub fn pick_spawn_point(&self, draws: &Vec<usize>, outfront: &Vec<Vec3>, live: &Vec<Vec3>) -> (r: Option<Vec3>)
        requires
            forall|i: int| 0 <= i < draws@.len() ==> #[trigger] draws@[i] < outfront@.len(),
            all_in_bounds(outfront@),
            all_in_bounds(live@),
        ensures
            r == self.spawn_choice(draws@, outfront@, live@),
    {
        if live.len() as u64 >= self.get_level_params().max_enemies as u64 {
            proof {
                if outfront@.len() > 0 {
                    let w = seq![0usize, 0, 0];
                    assert(self.spawn_choice(w, outfront@, live@) is None);
                }
            }
            return None;
        }
        let mut i: usize = 0;
        assert(draws@.subrange(0, draws@.len() as int) =~= draws@);
        while i < draws.len()
            invariant
                i <= draws@.len(),
                forall|j: int| 0 <= j < draws@.len() ==> #[trigger] draws@[j] < outfront@.len(),
                all_in_bounds(outfront@),
                all_in_bounds(live@),
                live@.len() < self.level_params().max_enemies,
                first_clear(draws@, outfront@, live@) == first_clear(draws@.subrange(i as int, draws@.len() as int), outfront@, live@),
            decreases draws.len() - i,
        {
            let p = outfront[draws[i]];
            assert(draws@.subrange(i as int, draws@.len() as int)[0] == draws@[i as int]);
            assert(draws@.subrange(i as int, draws@.len() as int).drop_first()
                =~= draws@.subrange(i + 1, draws@.len() as int));
            if is_clear(&p, live) {
                return Some(p);
            }
            i = i + 1;
        }
        None
    }

    /// On a spawn tick, draws up to three spawn points from `outfront` and
    /// returns the first one clear of every live enemy, unless the level's
    /// enemy cap is already reached. Below the cap there must be spawn points.
    pub fn try_spawn(&self, rng: &mut StdRng, outfront: &Vec<Vec3>, live: &Vec<Vec3>) -> (r: Option<Vec3>)
        requires
            outfront@.len() <= i64::MAX,
            live@.len() < self.level_params().max_enemies ==> outfront@.len() > 0,
            all_in_bounds(outfront@),
            all_in_bounds(live@),
        ensures
            outfront@.len() == 0 ==> r is None,
            outfront@.len() > 0 ==> exists|draws: Seq<usize>|
                #![trigger self.spawn_choice(draws, outfront@, live@)]
                draws.len() == SPAWN_ATTEMPTS && (forall|i: int| 0 <= i < draws.len() ==> #[trigger] draws[i] < outfront@.len())
                    && r == self.spawn_choice(draws, outfront@, live@),
            live@.len() >= self.level_params().max_enemies ==> r.is_none(),
            r matches Some(p) ==> {
                &&& live@.len() < self.level_params().max_enemies
                &&& outfront@.contains(p)
                &&& clear_of(p, live@)
            },
    {
        if live.len() as u64 >= self.get_level_params().max_enemies as u64 {
            proof {
                if outfront@.len() > 0 {
                    let w = seq![0usize, 0, 0];
                    assert(self.spawn_choice(w, outfront@, live@) is None);
                }
            }
            return None;
        }
        let mut draws: Vec<usize> = Vec::new();
        let mut k: usize = 0;
        while k < SPAWN_ATTEMPTS
            invariant
                k <= SPAWN_ATTEMPTS,
                draws@.len() == k,
                0 < outfront@.len() <= i64::MAX,
                forall|i: int| 0 <= i < draws@.len() ==> #[trigger] draws@[i] < outfront@.len(),
            decreases SPAWN_ATTEMPTS - k,
        {
            draws.push(gen_index(rng, outfront.len()));
            k = k + 1;
        }
        let r = self.pick_spawn_point(&draws, outfront, live);
        proof {
            lemma_first_clear_sound(draws@, outfront@, live@);
        }
        r
    }
}

impl Default for EnemiesState {
    fn default() -> (r: EnemiesState)
        ensures
            r.is_initial(),
    {
        EnemiesState::new()
    }
}

/// Past the end of the difficulty table the parameters are frozen at its last row.
pub proof fn lemma_difficulty_clamp(s: EnemiesState)
    requires
        s.current_level >= LEVEL_COUNT,
    ensures
        s.level_params() == s.levels@[LEVEL_COUNT - 1],
{
}

/// A kill never lowers the level and raises it by at most one, however far
/// the kill count has run past the thresholds.
pub proof fn lemma_kill_raises_level_by_at_most_one(s: EnemiesState)
    ensures
        s.current_level <= s.after_kill().current_level <= s.current_level + 1,
        s.after_kill().enemies_killed >= s.enemies_killed,
{
}

/// Over any number of kills the level never goes down, rises by at most one
/// per kill and never past the last row, and the difficulty table is left as
/// it is; while the count fits, each kill adds one to it.
pub proof fn lemma_kills_raise_level_gradually(s: EnemiesState, n: nat)
    ensures
        s.current_level <= s.after_kills(n).current_level <= s.current_level + n,
        s.after_kills(n).levels == s.levels,
        s.after_kills(n).destinations == s.destinations,
        s.after_kills(n).last_time_player_took_damage == s.last_time_player_took_damage,
        s.enemies_killed + n <= u32::MAX ==> s.after_kills(n).enemies_killed == s.enemies_killed + n,
        s.current_level < LEVEL_COUNT ==> s.after_kills(n).current_level < LEVEL_COUNT,
    decreases n,
{
    if n > 0 {
        lemma_kills_raise_level_gradually(s, (n - 1) as nat);
    }
}

/// With the built-in table, a kill never lowers the cap on live enemies.
pub proof fn lemma_kill_keeps_cap(s: EnemiesState)
    requires
        s.levels@ == default_levels(),
    ensures
        s.after_kill().level_params().max_enemies >= s.level_params().max_enemies,
{
    let t = default_levels();
    let l = s.current_level as int;
    if s.after_kill().current_level != s.current_level {
        assert(0 <= l < 13);
        assert(t[0].max_enemies == 6 && t[1].max_enemies == 7 && t[2].max_enemies == 8);
        assert(t[3].max_enemies == 9 && t[4].max_enemies == 10 && t[5].max_enemies == 11);
        assert(t[6].max_enemies == 12 && t[7].max_enemies == 12 && t[8].max_enemies == 12);
        assert(t[9].max_enemies == 12 && t[10].max_enemies == 12 && t[11].max_enemies == 12);
        assert(t[12].max_enemies == 13 && t[13].max_enemies == 14);
        assert(t[l].max_enemies <= t[l + 1].max_enemies);
    }
}

/// Whether `p` is farther than the spawn clearance from every point of `live`.
pub fn is_clear(p: &Vec3, live: &Vec<Vec3>) -> (r: bool)
    requires
        p.in_bounds(),
        all_in_bounds(live@),
    ensures
        r == clear_of(*p, live@),
{
    let mut i: usize = 0;
    while i < live.len()
        invariant
            i <= live@.len(),
            p.in_bounds(),
            all_in_bounds(live@),
            forall|j: int| 0 <= j < i ==> dist_sq_spec(*p, #[trigger] live@[j]) > sq(SPAWN_CLEARANCE as int),
        decreases live.len() - i,
    {
        if p.within(&live[i], SPAWN_CLEARANCE) {
            return false;
        }
        i = i + 1;
    }
    true
}

/// A point chosen by `first_clear` is one of the drawn points and is clear.
proof fn lemma_first_clear_sound(draws: Seq<usize>, points: Seq<Vec3>, live: Seq<Vec3>)
    requires
        forall|i: int| 0 <= i < draws.len() ==> #[trigger] draws[i] < points.len(),
    ensures
        first_clear(draws, points, live) matches Some(p) ==> points.contains(p) && clear_of(p, live),
    decreases draws.len(),
{
    if draws.len() > 0 {
        let rest = draws.drop_first();
        assert forall|i: int| 0 <= i < rest.len() implies #[trigger] rest[i] < points.len() by {
            assert(rest[i] == draws[i + 1]);
        }
        lemma_first_clear_sound(rest, points, live);
    }
}

/// A spawn is owed on a spawn tick below the cap when every spawn point is
/// clear of the live enemies: whichever points are drawn, the first one is taken.
pub proof fn lemma_spawn_owed(s: EnemiesState, draws: Seq<usize>, outfront: Seq<Vec3>, live: Seq<Vec3>)
    requires
        live.len() < s.level_params().max_enemies,
        draws.len() > 0,
        draws[0] < outfront.len(),
        forall|i: int| 0 <= i < outfront.len() ==> clear_of(#[trigger] outfront[i], live),
    ensures
        s.spawn_choice(draws, outfront, live) == Some(outfront[draws[0] as int]),
{
    assert(clear_of(outfront[draws[0] as int], live));
}

} // verus!
