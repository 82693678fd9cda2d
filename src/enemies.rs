//! Enemy subsystem: steering, projectile hits, reaping and spawning.
use crate::fixed::{clamp, clamped, isqrt, is_root, scale, scaled, FIELD, UNIT};
use crate::game::GameState;
use crate::seqs::{lemma_filter_all, lemma_filter_filter, lemma_filter_push, lemma_filter_split};
use crate::player::{
    bullets_wf, sat_add, Bullet, MAX_DT, MAX_TIME, PLAYER_MAX, PLAYER_MIN,
};
use crate::rng::draw_in;
use vstd::prelude::*;

verus! {

/// Health of a freshly spawned enemy.
pub const ENEMY_HEALTH: i64 = 20;

/// Speed of a freshly spawned enemy, in world units per second.
pub const ENEMY_SPEED: i64 = 2;

/// Contact damage of a freshly spawned enemy.
pub const ENEMY_DAMAGE: i64 = 10;

/// Fastest enemy accepted, in world units per second.
pub const MAX_ENEMY_SPEED: i64 = 1000;

/// How far outside the playfield an enemy may be carried by overshooting.
pub const ENEMY_REACH: i64 = 64_000;

/// Largest health, in either direction, an enemy may hold.
pub const MAX_HEALTH: i64 = 1_000_000_000_000;

#[derive(Clone, Copy, Debug, PartialEq, Eq, Structural)]
pub struct Enemy {
    pub x: i64,
    pub y: i64,
    pub z: i64,
    pub health: i64,
    pub speed: i64,
    pub damage: i64,
}

impl Enemy {
    pub open spec fn wf(&self) -> bool {
        &&& -ENEMY_REACH <= self.x <= FIELD + ENEMY_REACH
        &&& -ENEMY_REACH <= self.z <= FIELD + ENEMY_REACH
        &&& 0 <= self.speed <= MAX_ENEMY_SPEED
        &&& -MAX_HEALTH <= self.health <= MAX_HEALTH
    }
}

pub open spec fn enemies_wf(s: Seq<Enemy>) -> bool {
    forall|i: int| 0 <= i < s.len() ==> #[trigger] s[i].wf()
}

/// Most enemies present after which none spawns.
pub const SPAWN_CAP: usize = 5;

/// Spawning is considered in the first `SPAWN_WINDOW` milliseconds of every
/// `SPAWN_PERIOD`.
pub const SPAWN_PERIOD: i64 = 4000;

pub const SPAWN_WINDOW: i64 = 100;

/// Largest step along one axis in one frame.
pub const STEP_LIMIT: i64 = 63_500;

/// Squared distance beyond which an enemy walks toward the player.
pub const STEER_MIN_SQ: i64 = 250_000;

/// Squared distance under which a projectile strikes an enemy.
pub const HIT_RADIUS_SQ: i64 = 250_000;

/// Points for one kill.
pub const KILL_POINTS: u64 = 10;

/// The whole part of the square root of `n`.
pub open spec fn root(n: int) -> int {
    choose|r: int| is_root(n, r)
}

proof fn lemma_root_unique(n: int, a: int, b: int)
    requires
        is_root(n, a),
        is_root(n, b),
    ensures
        a == b,
{
    if a < b {
        assert((a + 1) * (a + 1) <= b * b) by (nonlinear_arith)
            requires
                0 <= a,
                a + 1 <= b,
        ;
    } else if b < a {
        assert((b + 1) * (b + 1) <= a * a) by (nonlinear_arith)
            requires
                0 <= b,
                b + 1 <= a,
        ;
    }
}

/// One frame of walking along offset `d` toward a target at distance `r`,
/// held within `STEP_LIMIT`.
pub open spec fn steer_step(d: int, r: int, speed: int, dt: int) -> int {
    clamped(scaled(d * speed * dt, 1, r), -STEP_LIMIT as int, STEP_LIMIT as int)
}

/// An enemy after walking toward a player at `(px, pz)` for `dt` milliseconds.
pub open spec fn steered(e: Enemy, px: int, pz: int, dt: int) -> Enemy {
    let dx = px - e.x;
    let dz = pz - e.z;
    let dd = dx * dx + dz * dz;
    if dd > STEER_MIN_SQ {
        let r = root(dd);
        Enemy {
            x: (e.x + steer_step(dx, r, e.speed as int, dt)) as i64,
            z: (e.z + steer_step(dz, r, e.speed as int, dt)) as i64,
            ..e
        }
    } else {
        e
    }
}

/// A projectile closer than half a unit to the enemy.
pub open spec fn strikes(e: Enemy) -> spec_fn(Bullet) -> bool {
    |b: Bullet| (b.x - e.x) * (b.x - e.x) + (b.z - e.z) * (b.z - e.z) < HIT_RADIUS_SQ
}

/// A projectile that passes the enemy by.
pub open spec fn passes(e: Enemy) -> spec_fn(Bullet) -> bool {
    |b: Bullet| !strikes(e)(b)
}

/// Total damage of the projectiles in `s` that strike `e`.
pub open spec fn damage_taken(s: Seq<Bullet>, e: Enemy) -> int
    decreases s.len(),
{
    if s.len() == 0 {
        0
    } else {
        damage_taken(s.drop_last(), e) + if strikes(e)(s.last()) {
            s.last().damage as int
        } else {
            0
        }
    }
}

/// `v`, held at the smallest `i64`.
pub open spec fn floor_sat(v: int) -> i64 {
    if v < i64::MIN {
        i64::MIN
    } else {
        v as i64
    }
}

/// The enemy after the projectiles of `s` that strike it.
pub open spec fn struck(e: Enemy, s: Seq<Bullet>) -> Enemy {
    Enemy { health: floor_sat(e.health - damage_taken(s, e)), ..e }
}

/// Enemies that survive the frame, in order; projectiles left; kills.
/// Each enemy in turn walks, then takes the projectiles still in flight
/// that strike it, then is removed if its health is gone.
pub open spec fn enemy_pass(s: Seq<Enemy>, b: Seq<Bullet>, px: int, pz: int, dt: int) -> (
    Seq<Enemy>,
    Seq<Bullet>,
    nat,
)
    decreases s.len(),
{
    if s.len() == 0 {
        (Seq::empty(), b, 0)
    } else {
        let (es, bs, kills) = enemy_pass(s.drop_last(), b, px, pz, dt);
        let e = steered(s.last(), px, pz, dt);
        let hit = struck(e, bs);
        let left = bs.filter(passes(e));
        if hit.health <= 0 {
            (es, left, kills + 1)
        } else {
            (es.push(hit), left, kills)
        }
    }
}

/// The spawn gate: inside the window at the start of each period, and
/// fewer than `SPAWN_CAP` enemies present.
pub open spec fn spawn_due(now: int, count: int) -> bool {
    now % (SPAWN_PERIOD as int) < SPAWN_WINDOW && count < SPAWN_CAP
}

/// A freshly spawned enemy somewhere on the playfield, its height left to
/// the host's ground sampler.
pub open spec fn is_fresh(e: Enemy) -> bool {
    &&& 0 <= e.x < FIELD
    &&& 0 <= e.z < FIELD
    &&& e.y == 0
    &&& e.health == ENEMY_HEALTH
    &&& e.speed == ENEMY_SPEED
    &&& e.damage == ENEMY_DAMAGE
}

/// Walks `enemy` toward a player at `(px, pz)` for `dt` milliseconds, unless
/// it is already within half a unit of the player.
pub fn steer(enemy: &mut Enemy, px: i64, pz: i64, dt: i64)
    requires
        old(enemy).wf(),
        PLAYER_MIN <= px <= PLAYER_MAX,
        PLAYER_MIN <= pz <= PLAYER_MAX,
        0 <= dt <= MAX_DT,
    ensures
        *final(enemy) == steered(*old(enemy), px as int, pz as int, dt as int),
        final(enemy).wf(),
{
    let dx = px - enemy.x;
    let dz = pz - enemy.z;
    assert(0 <= dx * dx <= 2 * FIELD * 2 * FIELD && 0 <= dz * dz <= 2 * FIELD * 2 * FIELD)
        by (nonlinear_arith)
        requires
            -2 * FIELD <= dx <= 2 * FIELD,
            -2 * FIELD <= dz <= 2 * FIELD,
    ;
    let dd = dx * dx + dz * dz;
    if dd > STEER_MIN_SQ {
        let ru = isqrt(dd as u64);
        assert(ru <= dd) by (nonlinear_arith)
            requires
                ru * ru <= dd,
                0 <= ru,
        ;
        let r = ru as i64;
        proof {
            lemma_root_unique(dd as int, r as int, root(dd as int));
            assert(r > 0) by (nonlinear_arith)
                requires
                    dd > STEER_MIN_SQ,
                    dd < (r + 1) * (r + 1),
                    r >= 0,
            ;
        }
        let speed = enemy.speed;
        assert(-2 * FIELD * MAX_ENEMY_SPEED <= dx * speed <= 2 * FIELD * MAX_ENEMY_SPEED && -2 * FIELD
            * MAX_ENEMY_SPEED * MAX_DT <= dx * speed * dt <= 2 * FIELD * MAX_ENEMY_SPEED * MAX_DT)
            by (nonlinear_arith)
            requires
                -2 * FIELD <= dx <= 2 * FIELD,
                0 <= speed <= MAX_ENEMY_SPEED,
                0 <= dt <= MAX_DT,
        ;
        assert(-2 * FIELD * MAX_ENEMY_SPEED <= dz * speed <= 2 * FIELD * MAX_ENEMY_SPEED && -2 * FIELD
            * MAX_ENEMY_SPEED * MAX_DT <= dz * speed * dt <= 2 * FIELD * MAX_ENEMY_SPEED * MAX_DT)
            by (nonlinear_arith)
            requires
                -2 * FIELD <= dz <= 2 * FIELD,
                0 <= speed <= MAX_ENEMY_SPEED,
                0 <= dt <= MAX_DT,
        ;
        assert(dx >= 0 ==> dx * speed * dt >= 0) by (nonlinear_arith)
            requires
                0 <= speed,
                0 <= dt,
        ;
        assert(dx < 0 ==> dx * speed * dt <= 0) by (nonlinear_arith)
            requires
                0 <= speed,
                0 <= dt,
        ;
        assert(dz >= 0 ==> dz * speed * dt >= 0) by (nonlinear_arith)
            requires
                0 <= speed,
                0 <= dt,
        ;
        assert(dz < 0 ==> dz * speed * dt <= 0) by (nonlinear_arith)
            requires
                0 <= speed,
                0 <= dt,
        ;
        let sx = clamp(scale(dx * speed * dt, 1, r), -STEP_LIMIT, STEP_LIMIT);
        let sz = clamp(scale(dz * speed * dt, 1, r), -STEP_LIMIT, STEP_LIMIT);
        enemy.x = enemy.x + sx;
        enemy.z = enemy.z + sz;
    }
}

/// Applies every projectile that strikes `enemy` to its health and takes
/// those projectiles out of flight, keeping the order of the others.
pub fn resolve_hits(enemy: &mut Enemy, bullets: &mut Vec<Bullet>)
    requires
        old(enemy).wf(),
        bullets_wf(old(bullets)@),
    ensures
        *final(enemy) == struck(*old(enemy), old(bullets)@),
        final(enemy).health <= old(enemy).health,
        final(bullets)@ == old(bullets)@.filter(passes(*old(enemy))),
        old(bullets)@.len() - final(bullets)@.len() == old(bullets)@.filter(
            strikes(*old(enemy)),
        ).len(),
        bullets_wf(final(bullets)@),
{
    let ghost start = bullets@;
    let ghost e0 = *enemy;
    let mut out: Vec<Bullet> = Vec::new();
    let mut i: usize = 0;
    while i < bullets.len()
        invariant
            bullets@ == start,
            e0.wf(),
            bullets_wf(start),
            i <= start.len(),
            *enemy == struck(e0, start.take(i as int)),
            damage_taken(start.take(i as int), e0) >= 0,
            enemy.health <= e0.health,
            out@ == start.take(i as int).filter(passes(e0)),
            bullets_wf(out@),
        decreases start.len() - i,
    {
        let b = bullets[i];
        assert(b.wf());
        proof {
            assert(start.take(i + 1) =~= start.take(i as int).push(b));
            assert(start.take(i + 1).drop_last() =~= start.take(i as int));
            lemma_filter_push(start.take(i as int), b, passes(e0));
        }
        let ddx = b.x - enemy.x;
        let ddz = b.z - enemy.z;
        assert(0 <= ddx * ddx <= 2 * FIELD * 2 * FIELD && 0 <= ddz * ddz <= 2 * FIELD * 2 * FIELD)
            by (nonlinear_arith)
            requires
                -2 * FIELD <= ddx <= 2 * FIELD,
                -2 * FIELD <= ddz <= 2 * FIELD,
        ;
        proof {
            assert(start.take(i + 1).last() == b);
            assert(damage_taken(start.take(i + 1), e0) == damage_taken(start.take(i as int), e0) + if strikes(
                e0,
            )(b) {
                b.damage as int
            } else {
                0
            });
            assert(strikes(e0)(b) == (ddx * ddx + ddz * ddz < HIT_RADIUS_SQ));
        }
        if ddx * ddx + ddz * ddz < HIT_RADIUS_SQ {
            enemy.health = if enemy.health < i64::MIN + b.damage {
                i64::MIN
            } else {
                enemy.health - b.damage
            };
        } else {
            out.push(b);
        }
        i += 1;
    }
    assert(start.take(start.len() as int) =~= start);
    proof {
        assert forall|c: Bullet| #[trigger] passes(e0)(c) == !strikes(e0)(c) by {}
        lemma_filter_split(start, strikes(e0), passes(e0));
    }
    *bullets = out;
}

/// Adds one fresh enemy at a random spot of the playfield.
fn spawn_enemy(game_state: &mut GameState)
    requires
        old(game_state).wf(),
    ensures
        final(game_state).wf(),
        final(game_state).enemies@.len() == old(game_state).enemies@.len() + 1,
        final(game_state).enemies@.drop_last() == old(game_state).enemies@,
        is_fresh(final(game_state).enemies@.last()),
        final(game_state).player == old(game_state).player,
        final(game_state).score == old(game_state).score,
        final(game_state).last_shot == old(game_state).last_shot,
        final(game_state).player_health == old(game_state).player_health,
{
    let x = draw_in(&mut game_state.rng, 0, FIELD);
    let z = draw_in(&mut game_state.rng, 0, FIELD);
    let e = Enemy { x, y: 0, z, health: ENEMY_HEALTH, speed: ENEMY_SPEED, damage: ENEMY_DAMAGE };
    game_state.enemies.push(e);
    assert(game_state.enemies@.drop_last() =~= old(game_state).enemies@);
}

/// Whether an enemy spawns at clock reading `now` with `count` enemies present.
pub fn should_spawn(now: i64, count: usize) -> (r: bool)
    requires
        now >= 0,
    ensures
        r == spawn_due(now as int, count as int),
{
    now % SPAWN_PERIOD < SPAWN_WINDOW && count < SPAWN_CAP
}

/// One frame of the enemy subsystem: each enemy in order walks toward the
/// player, takes the projectiles that strike it and is removed, for
/// `KILL_POINTS`, once its health is gone; then one enemy may spawn. The
/// enemies' heights are left to the host's ground sampler.
pub fn update_enemies(game_state: &mut GameState, dt: i64, now: i64)
    requires
        old(game_state).wf(),
        0 <= dt <= MAX_DT,
        0 <= now <= MAX_TIME,
    ensures
        final(game_state).wf(),
        ({
            let (es, bs, kills) = enemy_pass(
                old(game_state).enemies@,
                old(game_state).player.bullets@,
                old(game_state).player.x as int,
                old(game_state).player.z as int,
                dt as int,
            );
            &&& final(game_state).player.bullets@ == bs
            &&& final(game_state).score == sat_add(old(game_state).score, KILL_POINTS * kills)
            &&& if spawn_due(now as int, es.len() as int) {
                &&& final(game_state).enemies@.len() == es.len() + 1
                &&& final(game_state).enemies@.drop_last() == es
                &&& is_fresh(final(game_state).enemies@.last())
            } else {
                final(game_state).enemies@ == es
            }
        }),
        final(game_state).score >= old(game_state).score,
        old(game_state).enemies@.len() <= SPAWN_CAP ==> final(game_state).enemies@.len() <= SPAWN_CAP,
        final(game_state).enemies@.len() <= old(game_state).enemies@.len()
            || final(game_state).enemies@.len() <= SPAWN_CAP,
        final(game_state).player.x == old(game_state).player.x,
        final(game_state).player.y == old(game_state).player.y,
        final(game_state).player.z == old(game_state).player.z,
        final(game_state).player.yaw == old(game_state).player.yaw,
        final(game_state).player.pitch == old(game_state).player.pitch,
        final(game_state).last_shot == old(game_state).last_shot,
        final(game_state).player_health == old(game_state).player_health,
{
    let ghost g0 = *game_state;
    let px = game_state.player.x;
    let pz = game_state.player.z;
    let mut kept: Vec<Enemy> = Vec::new();
    let mut kills: usize = 0;
    let mut i: usize = 0;
    while i < game_state.enemies.len()
        invariant
            game_state.enemies == g0.enemies,
            g0.wf(),
            px == g0.player.x,
            pz == g0.player.z,
            i <= g0.enemies@.len(),
            (kept@, game_state.player.bullets@, kills as nat) == enemy_pass(
                g0.enemies@.take(i as int),
                g0.player.bullets@,
                px as int,
                pz as int,
                dt as int,
            ),
            kills <= i,
            kept@.len() <= i,
            enemies_wf(kept@),
            bullets_wf(game_state.player.bullets@),
            game_state.player.x == g0.player.x,
            game_state.player.y == g0.player.y,
            game_state.player.z == g0.player.z,
            game_state.player.yaw == g0.player.yaw,
            game_state.player.pitch == g0.player.pitch,
            game_state.score == g0.score,
            game_state.last_shot == g0.last_shot,
            game_state.player_health == g0.player_health,
            0 <= dt <= MAX_DT,
        decreases g0.enemies@.len() - i,
    {
        let mut e = game_state.enemies[i];
        assert(e.wf());
        steer(&mut e, px, pz, dt);
        resolve_hits(&mut e, &mut game_state.player.bullets);
        proof {
            assert(g0.enemies@.take(i + 1).drop_last() =~= g0.enemies@.take(i as int));
        }
        if e.health <= 0 {
            kills = kills + 1;
        } else {
            kept.push(e);
        }
        i += 1;
    }
    assert(g0.enemies@.take(g0.enemies@.len() as int) =~= g0.enemies@);
    game_state.enemies = kept;
    let k = kills as u64;
    let gain: u64 = if k > u64::MAX / KILL_POINTS {
        u64::MAX
    } else {
        k * KILL_POINTS
    };
    game_state.score = game_state.score.saturating_add(gain);
    if should_spawn(now, game_state.enemies.len()) {
        spawn_enemy(game_state);
    }
}

/// A projectile that every enemy of `es`, where it stands after walking,
/// lets pass.
pub open spec fn untouched(es: Seq<Enemy>, px: int, pz: int, dt: int) -> spec_fn(Bullet) -> bool {
    |b: Bullet| forall|i: int| 0 <= i < es.len() ==> #[trigger] passes(steered(es[i], px, pz, dt))(b)
}

/// A projectile that some enemy of `es`, where it stands after walking,
/// strikes.
pub open spec fn touched(es: Seq<Enemy>, px: int, pz: int, dt: int) -> spec_fn(Bullet) -> bool {
    |b: Bullet| !untouched(es, px, pz, dt)(b)
}

/// In one enemy pass, a projectile is taken out of flight exactly when some
/// enemy strikes it, and once only: the number removed is the number of
/// projectiles within half a unit of some enemy.
pub proof fn lemma_pass_removes_struck(s: Seq<Enemy>, b: Seq<Bullet>, px: int, pz: int, dt: int)
    ensures
        enemy_pass(s, b, px, pz, dt).1 == b.filter(untouched(s, px, pz, dt)),
        b.len() - enemy_pass(s, b, px, pz, dt).1.len() == b.filter(touched(s, px, pz, dt)).len(),
    decreases s.len(),
{
    if s.len() == 0 {
        lemma_filter_all(b, untouched(s, px, pz, dt));
    } else {
        let t = s.drop_last();
        let e = steered(s.last(), px, pz, dt);
        lemma_pass_removes_struck(t, b, px, pz, dt);
        assert forall|c: Bullet| #[trigger] untouched(s, px, pz, dt)(c) == (untouched(t, px, pz, dt)(c)
            && passes(e)(c)) by {
            if untouched(s, px, pz, dt)(c) {
                assert forall|i: int| 0 <= i < t.len() implies #[trigger] passes(
                    steered(t[i], px, pz, dt),
                )(c) by {
                    assert(t[i] == s[i]);
                    assert(passes(steered(s[i], px, pz, dt))(c));
                }
                assert(passes(steered(s[s.len() - 1], px, pz, dt))(c));
            }
            if untouched(t, px, pz, dt)(c) && passes(e)(c) {
                assert forall|i: int| 0 <= i < s.len() implies #[trigger] passes(
                    steered(s[i], px, pz, dt),
                )(c) by {
                    if i < t.len() {
                        assert(t[i] == s[i]);
                        assert(passes(steered(t[i], px, pz, dt))(c));
                    }
                }
            }
        }
        lemma_filter_filter(b, untouched(t, px, pz, dt), passes(e), untouched(s, px, pz, dt));
    }
    assert forall|c: Bullet| #[trigger] touched(s, px, pz, dt)(c) == !untouched(s, px, pz, dt)(c) by {}
    lemma_filter_split(b, untouched(s, px, pz, dt), touched(s, px, pz, dt));
}

} // verus!
