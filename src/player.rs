//! Player controller: look, walk, shoot, projectile flight and pickups.
use crate::fixed::{clamp, clamped, scale, scaled, FIELD, UNIT};
use crate::game::GameState;
use crate::seqs::lemma_filter_push;
use vstd::arithmetic::div_mod::lemma_fundamental_div_mod;
use vstd::prelude::*;

verus! {

/// Lowest `x` or `z` the player may stand on.
pub const PLAYER_MIN: i64 = 500;

/// Highest `x` or `z` the player may stand on.
pub const PLAYER_MAX: i64 = 63_500;

/// Largest pitch, up or down, in milliradians.
pub const PITCH_LIMIT: i64 = 1_500;

/// Walking speed, in world units per second.
pub const PLAYER_SPEED: i64 = 5;

/// One over the square root of two, in thousandths: the scale of a diagonal step.
pub const DIAGONAL: i64 = 707;

/// Milliradians of turn per thousand steps of mouse travel, over `LOOK_DEN`.
pub const LOOK_NUM: i64 = 5;

pub const LOOK_DEN: i64 = 1000;

/// Time between two shots must exceed this many milliseconds.
pub const SHOT_COOLDOWN: i64 = 500;

/// Speed of a projectile, in world units per second.
pub const BULLET_SPEED: i64 = 10;

/// Damage a projectile deals.
pub const BULLET_DAMAGE: i64 = 10;

/// Height above the player's feet at which a projectile leaves.
pub const MUZZLE_HEIGHT: i64 = 1000;

/// Largest squared length of a unit vector in thousandths, allowing one
/// thousandth for rounding: `(UNIT + 1)^2`.
pub const AIM_NORM_SQ: i64 = 1_002_001;

/// Squared pickup distance: an apple closer than half a unit is taken.
pub const PICKUP_RADIUS_SQ: i64 = 250_000;

/// Points for one apple.
pub const APPLE_POINTS: u64 = 5;

/// Longest frame, in milliseconds, that the kernel accepts.
pub const MAX_DT: i64 = 86_400_000;

/// Latest clock reading, in milliseconds, that the kernel accepts.
pub const MAX_TIME: i64 = 1_000_000_000_000_000;

/// Largest mouse travel in one frame, in thousandths of the host's unit.
pub const MAX_MOUSE: i64 = 1_000_000_000_000_000;

/// Fastest projectile component, in thousandths of a unit per second.
pub const MAX_BULLET_SPEED: i64 = 1_000_000;

/// Largest damage one projectile may carry.
pub const MAX_DAMAGE: i64 = 1_000_000;

/// A projectile in flight. It moves in the horizontal plane only.
#[derive(Clone, Copy, Debug, PartialEq, Eq, Structural)]
pub struct Bullet {
    pub x: i64,
    pub y: i64,
    pub z: i64,
    pub vx: i64,
    pub vz: i64,
    pub damage: i64,
}

/// The player: position, view angles and the projectiles it fired.
#[derive(Debug)]
pub struct Player {
    pub x: i64,
    pub y: i64,
    pub z: i64,
    pub yaw: i64,
    pub pitch: i64,
    pub bullets: Vec<Bullet>,
}

/// A collectible apple.
#[derive(Clone, Copy, Debug, PartialEq, Eq, Structural)]
pub struct Apple {
    pub x: i64,
    pub y: i64,
    pub z: i64,
}

/// What the host read for one frame.
#[derive(Clone, Copy, Debug, PartialEq, Eq, Structural)]
pub struct FrameInput {
    /// Mouse travel since the last frame, in thousandths of the host's unit.
    pub mouse_dx: i64,
    pub mouse_dy: i64,
    /// W, S, A and D held.
    pub forward: bool,
    pub back: bool,
    pub left: bool,
    pub right: bool,
    /// Left mouse button went down this frame.
    pub fire: bool,
    /// Clock, in milliseconds since start.
    pub now: i64,
    /// Milliseconds since the last frame.
    pub dt: i64,
}

/// Trigonometry of the view after the look step, in thousandths, supplied
/// by the host: `(cos yaw, sin yaw)` and the planar part of the unit
/// shooting direction `normalize(cos yaw cos pitch, sin pitch, sin yaw cos pitch)`.
#[derive(Clone, Copy, Debug, PartialEq, Eq, Structural)]
pub struct Aim {
    pub cos_yaw: i64,
    pub sin_yaw: i64,
    pub dir_x: i64,
    pub dir_z: i64,
}

impl Bullet {
    pub open spec fn in_field(&self) -> bool {
        0 <= self.x <= FIELD && 0 <= self.z <= FIELD
    }

    pub open spec fn wf(&self) -> bool {
        &&& self.in_field()
        &&& -MAX_BULLET_SPEED <= self.vx <= MAX_BULLET_SPEED
        &&& -MAX_BULLET_SPEED <= self.vz <= MAX_BULLET_SPEED
        &&& 0 <= self.damage <= MAX_DAMAGE
    }
}

impl Apple {
    pub open spec fn wf(&self) -> bool {
        0 <= self.x <= FIELD && 0 <= self.z <= FIELD
    }
}

impl FrameInput {
    pub open spec fn wf(&self) -> bool {
        &&& 0 <= self.dt <= MAX_DT
        &&& 0 <= self.now <= MAX_TIME
        &&& -MAX_MOUSE <= self.mouse_dx <= MAX_MOUSE
        &&& -MAX_MOUSE <= self.mouse_dy <= MAX_MOUSE
    }

    /// No mouse travel, no key held, no click.
    pub open spec fn idle(&self) -> bool {
        &&& self.mouse_dx == 0
        &&& self.mouse_dy == 0
        &&& !self.forward && !self.back && !self.left && !self.right
        &&& !self.fire
    }
}

impl Aim {
    pub open spec fn wf(&self) -> bool {
        &&& -UNIT <= self.cos_yaw <= UNIT
        &&& -UNIT <= self.sin_yaw <= UNIT
        &&& -UNIT <= self.dir_x <= UNIT
        &&& -UNIT <= self.dir_z <= UNIT
        &&& self.cos_yaw * self.cos_yaw + self.sin_yaw * self.sin_yaw <= AIM_NORM_SQ
        &&& self.dir_x * self.dir_x + self.dir_z * self.dir_z <= AIM_NORM_SQ
    }
}

pub open spec fn bullets_wf(s: Seq<Bullet>) -> bool {
    forall|i: int| 0 <= i < s.len() ==> #[trigger] s[i].wf()
}

pub open spec fn apples_wf(s: Seq<Apple>) -> bool {
    forall|i: int| 0 <= i < s.len() ==> #[trigger] s[i].wf()
}

impl Player {
    /// The player stays inside its margin of the playfield, its pitch within
    /// limits, and every live projectile inside the playfield.
    pub open spec fn wf(&self) -> bool {
        &&& PLAYER_MIN <= self.x <= PLAYER_MAX
        &&& PLAYER_MIN <= self.z <= PLAYER_MAX
        &&& -PITCH_LIMIT <= self.pitch <= PITCH_LIMIT
        &&& bullets_wf(self.bullets@)
    }

    /// Applies one frame of mouse travel to the view angles: the yaw turns
    /// freely, the pitch is held within its limits.
    pub fn look(&mut self, mouse_dx: i64, mouse_dy: i64)
        requires
            -PITCH_LIMIT <= old(self).pitch <= PITCH_LIMIT,
            -MAX_MOUSE <= mouse_dx <= MAX_MOUSE,
            -MAX_MOUSE <= mouse_dy <= MAX_MOUSE,
        ensures
            final(self).yaw == old(self).yaw.wrapping_sub(
                scaled(mouse_dx as int, LOOK_NUM as int, LOOK_DEN as int) as i64,
            ),
            final(self).pitch == looked_pitch(old(self).pitch as int, mouse_dy as int),
            -PITCH_LIMIT <= final(self).pitch <= PITCH_LIMIT,
            old(self).wf() ==> final(self).wf(),
            final(self).x == old(self).x,
            final(self).y == old(self).y,
            final(self).z == old(self).z,
            final(self).bullets == old(self).bullets,
    {
        let turn = scale(mouse_dx, LOOK_NUM, LOOK_DEN);
        self.yaw = self.yaw.wrapping_sub(turn);
        let tilt = scale(mouse_dy, LOOK_NUM, LOOK_DEN);
        self.pitch = clamp(self.pitch - tilt, -PITCH_LIMIT, PITCH_LIMIT);
    }
}

/// Pitch after mouse travel `mouse_dy`.
pub open spec fn looked_pitch(pitch: int, mouse_dy: int) -> int {
    clamped(pitch - scaled(mouse_dy, LOOK_NUM as int, LOOK_DEN as int), -PITCH_LIMIT as int, PITCH_LIMIT as int)
}

/// The player at the start of a session: middle of the field, looking along `+x`.
pub fn setup_player() -> (p: Player)
    ensures
        p.wf(),
        p.x == 32 * UNIT && p.y == 0 && p.z == 32 * UNIT,
        p.yaw == 0 && p.pitch == 0,
        p.bullets@.len() == 0,
{
    Player { x: 32 * UNIT, y: 0, z: 32 * UNIT, yaw: 0, pitch: 0, bullets: Vec::new() }
}


/// `-1`, `0` or `+1` from the two keys of one axis.
pub open spec fn axis(neg: bool, pos: bool) -> int {
    (if pos { 1int } else { 0int }) - (if neg { 1int } else { 0int })
}

/// Displacement for one frame along a planar direction component `m`
/// (thousandths), scaled down by `DIAGONAL` when two keys combine.
pub open spec fn walk_step(m: int, diagonal: bool, dt: int) -> int {
    scaled(
        m * (if diagonal { DIAGONAL as int } else { UNIT as int }) * PLAYER_SPEED * dt,
        1,
        UNIT * UNIT,
    )
}

/// Planar position after the walk step: W, S, A and D give a direction in
/// view space, turned by the yaw into the world and clamped to the margin.
pub open spec fn walked(x: int, z: int, input: FrameInput, aim: Aim) -> (int, int) {
    let dx = axis(input.left, input.right);
    let dz = axis(input.forward, input.back);
    if dx == 0 && dz == 0 {
        (x, z)
    } else {
        let diagonal = dx != 0 && dz != 0;
        let mx = aim.cos_yaw * dz - aim.sin_yaw * dx;
        let mz = aim.sin_yaw * dz + aim.cos_yaw * dx;
        (
            clamped(x + walk_step(mx, diagonal, input.dt as int), PLAYER_MIN as int, PLAYER_MAX as int),
            clamped(z + walk_step(mz, diagonal, input.dt as int), PLAYER_MIN as int, PLAYER_MAX as int),
        )
    }
}

/// A click fires when no shot was made yet or the last one is more than the
/// cooldown old.
pub open spec fn shoots(last_shot: Option<i64>, input: FrameInput) -> bool {
    input.fire && match last_shot {
        None => true,
        Some(t) => input.now - t > SHOT_COOLDOWN,
    }
}

/// The projectile fired by a player standing at `(x, y, z)`.
pub open spec fn fired(x: i64, y: i64, z: i64, aim: Aim) -> Bullet {
    Bullet {
        x,
        y: (y + MUZZLE_HEIGHT) as i64,
        z,
        vx: (aim.dir_x * BULLET_SPEED) as i64,
        vz: (aim.dir_z * BULLET_SPEED) as i64,
        damage: BULLET_DAMAGE,
    }
}

/// A projectile after flying for `dt` milliseconds.
pub open spec fn advanced(b: Bullet, dt: int) -> Bullet {
    Bullet {
        x: (b.x + scaled(b.vx * dt, 1, UNIT as int)) as i64,
        y: b.y,
        z: (b.z + scaled(b.vz * dt, 1, UNIT as int)) as i64,
        vx: b.vx,
        vz: b.vz,
        damage: b.damage,
    }
}

/// Every projectile moved, in order, and those outside the field dropped.
pub open spec fn advance_all(s: Seq<Bullet>, dt: int) -> Seq<Bullet> {
    s.map_values(|b: Bullet| advanced(b, dt)).filter(|b: Bullet| b.in_field())
}

/// An apple closer than half a unit to `(x, z)`.
pub open spec fn near(a: Apple, x: int, z: int) -> bool {
    (a.x - x) * (a.x - x) + (a.z - z) * (a.z - z) < PICKUP_RADIUS_SQ
}

/// The apples that a player at `(x, z)` leaves where they are, in order.
pub open spec fn kept_apples(s: Seq<Apple>, x: int, z: int) -> Seq<Apple> {
    s.filter(left_by(x, z))
}

/// Whether a player at `(x, z)` leaves an apple where it is.
pub open spec fn left_by(x: int, z: int) -> spec_fn(Apple) -> bool {
    |a: Apple| !near(a, x, z)
}

/// `s + n`, held at the largest `u64`.
pub open spec fn sat_add(s: u64, n: int) -> u64 {
    if s + n > u64::MAX {
        u64::MAX
    } else {
        (s + n) as u64
    }
}

/// Moves every projectile by its velocity over `dt` milliseconds and drops
/// those that left the playfield, keeping the order of the rest.
pub fn advance_bullets(bullets: &Vec<Bullet>, dt: i64) -> (r: Vec<Bullet>)
    requires
        bullets_wf(bullets@),
        0 <= dt <= MAX_DT,
    ensures
        r@ == advance_all(bullets@, dt as int),
        bullets_wf(r@),
{
    let mut out: Vec<Bullet> = Vec::new();
    let mut i: usize = 0;
    while i < bullets.len()
        invariant
            i <= bullets@.len(),
            bullets_wf(bullets@),
            0 <= dt <= MAX_DT,
            out@ == advance_all(bullets@.take(i as int), dt as int),
            bullets_wf(out@),
        decreases bullets@.len() - i,
    {
        let b = bullets[i];
        assert(b.wf());
        assert(-MAX_BULLET_SPEED * MAX_DT <= b.vx * dt <= MAX_BULLET_SPEED * MAX_DT) by (nonlinear_arith)
            requires
                -MAX_BULLET_SPEED <= b.vx <= MAX_BULLET_SPEED,
                0 <= dt <= MAX_DT,
        ;
        assert(-MAX_BULLET_SPEED * MAX_DT <= b.vz * dt <= MAX_BULLET_SPEED * MAX_DT) by (nonlinear_arith)
            requires
                -MAX_BULLET_SPEED <= b.vz <= MAX_BULLET_SPEED,
                0 <= dt <= MAX_DT,
        ;
        let x = b.x + scale(b.vx * dt, 1, UNIT);
        let z = b.z + scale(b.vz * dt, 1, UNIT);
        let moved = Bullet { x, y: b.y, z, vx: b.vx, vz: b.vz, damage: b.damage };
        let ghost f = |c: Bullet| advanced(c, dt as int);
        let ghost p = |c: Bullet| c.in_field();
        proof {
            assert(moved == advanced(b, dt as int));
            assert(bullets@.take(i + 1) =~= bullets@.take(i as int).push(b));
            assert(bullets@.take(i + 1).map_values(f) =~= bullets@.take(i as int).map_values(f).push(
                moved,
            ));
            lemma_filter_push(bullets@.take(i as int).map_values(f), moved, p);
        }
        if 0 <= x && x <= FIELD && 0 <= z && z <= FIELD {
            out.push(moved);
        }
        i += 1;
    }
    assert(bullets@.take(bullets@.len() as int) =~= bullets@);
    out
}

/// Takes every apple within half a unit of `(px, pz)`, keeping the order of
/// the others, and returns how many were taken.
pub fn collect_apples(apples: &mut Vec<Apple>, px: i64, pz: i64) -> (picked: u64)
    requires
        apples_wf(old(apples)@),
        0 <= px <= FIELD,
        0 <= pz <= FIELD,
    ensures
        final(apples)@ == kept_apples(old(apples)@, px as int, pz as int),
        picked == old(apples)@.len() - final(apples)@.len(),
        apples_wf(final(apples)@),
{
    let ghost start = apples@;
    let ghost p = left_by(px as int, pz as int);
    let mut out: Vec<Apple> = Vec::new();
    let mut picked: u64 = 0;
    let mut i: usize = 0;
    while i < apples.len()
        invariant
            apples@ == start,
            p == left_by(px as int, pz as int),
            i <= start.len(),
            apples_wf(start),
            0 <= px <= FIELD,
            0 <= pz <= FIELD,
            out@ == start.take(i as int).filter(p),
            picked == i - out@.len(),
            apples_wf(out@),
        decreases start.len() - i,
    {
        let a = apples[i];
        assert(a.wf());
        proof {
            assert(start.take(i + 1) =~= start.take(i as int).push(a));
            lemma_filter_push(start.take(i as int), a, p);
        }
        let dx = a.x - px;
        let dz = a.z - pz;
        assert(0 <= dx * dx <= FIELD * FIELD && 0 <= dz * dz <= FIELD * FIELD) by (nonlinear_arith)
            requires
                -FIELD <= dx <= FIELD,
                -FIELD <= dz <= FIELD,
        ;
        if dx * dx + dz * dz < PICKUP_RADIUS_SQ {
            picked = picked + 1;
        } else {
            out.push(a);
        }
        i += 1;
    }
    assert(start.take(start.len() as int) =~= start);
    *apples = out;
    picked
}

/// Fires a projectile from the player's position, raised to the muzzle,
/// along the planar part of the view direction.
pub fn shoot_bullet(game_state: &mut GameState, aim: &Aim)
    requires
        old(game_state).wf(),
        aim.wf(),
        old(game_state).player.y <= i64::MAX - MUZZLE_HEIGHT,
    ensures
        final(game_state).wf(),
        final(game_state).player.bullets@ == old(game_state).player.bullets@.push(
            fired(old(game_state).player.x, old(game_state).player.y, old(game_state).player.z, *aim),
        ),
        final(game_state).player.bullets@.last().in_field(),
        ({
            let b = final(game_state).player.bullets@.last();
            b.vx * b.vx + b.vz * b.vz <= BULLET_SPEED * BULLET_SPEED * AIM_NORM_SQ
        }),
        final(game_state).player.x == old(game_state).player.x,
        final(game_state).player.y == old(game_state).player.y,
        final(game_state).player.z == old(game_state).player.z,
        final(game_state).player.yaw == old(game_state).player.yaw,
        final(game_state).player.pitch == old(game_state).player.pitch,
        final(game_state).enemies == old(game_state).enemies,
        final(game_state).score == old(game_state).score,
        final(game_state).last_shot == old(game_state).last_shot,
        final(game_state).player_health == old(game_state).player_health,
{
    let b = Bullet {
        x: game_state.player.x,
        y: game_state.player.y + MUZZLE_HEIGHT,
        z: game_state.player.z,
        vx: aim.dir_x * BULLET_SPEED,
        vz: aim.dir_z * BULLET_SPEED,
        damage: BULLET_DAMAGE,
    };
    assert(b.vx * b.vx + b.vz * b.vz == BULLET_SPEED * BULLET_SPEED * (aim.dir_x * aim.dir_x + aim.dir_z
        * aim.dir_z)) by (nonlinear_arith)
        requires
            b.vx == aim.dir_x * BULLET_SPEED,
            b.vz == aim.dir_z * BULLET_SPEED,
    ;
    assert(aim.dir_x * aim.dir_x + aim.dir_z * aim.dir_z <= AIM_NORM_SQ);
    assert(b.vx * b.vx + b.vz * b.vz <= BULLET_SPEED * BULLET_SPEED * AIM_NORM_SQ) by (nonlinear_arith)
        requires
            b.vx * b.vx + b.vz * b.vz == BULLET_SPEED * BULLET_SPEED * (aim.dir_x * aim.dir_x + aim.dir_z
                * aim.dir_z),
            aim.dir_x * aim.dir_x + aim.dir_z * aim.dir_z <= AIM_NORM_SQ,
    ;
    game_state.player.bullets.push(b);
    assert(game_state.player.bullets@.last() == b);
}

/// The projectile list after the shot step.
pub open spec fn launched(s: Seq<Bullet>, shot: bool, b: Bullet) -> Seq<Bullet> {
    if shot {
        s.push(b)
    } else {
        s
    }
}

/// One frame of the player controller after the look step: walk, ground,
/// shoot, advance projectiles, take apples. `aim` holds the trigonometry of
/// the view as the look step left it.
pub fn update_player(game_state: &mut GameState, input: &FrameInput, aim: &Aim, apples: &mut Vec<Apple>)
    requires
        old(game_state).wf(),
        input.wf(),
        aim.wf(),
        apples_wf(old(apples)@),
    ensures
        final(game_state).wf(),
        (final(game_state).player.x as int, final(game_state).player.z as int) == walked(
            old(game_state).player.x as int,
            old(game_state).player.z as int,
            *input,
            *aim,
        ),
        final(game_state).player.y == 0,
        final(game_state).player.yaw == old(game_state).player.yaw,
        final(game_state).player.pitch == old(game_state).player.pitch,
        final(game_state).player.bullets@ == advance_all(
            launched(
                old(game_state).player.bullets@,
                shoots(old(game_state).last_shot, *input),
                fired(final(game_state).player.x, 0, final(game_state).player.z, *aim),
            ),
            input.dt as int,
        ),
        final(game_state).last_shot == (if shoots(old(game_state).last_shot, *input) {
            Some(input.now)
        } else {
            old(game_state).last_shot
        }),
        final(apples)@ == kept_apples(
            old(apples)@,
            final(game_state).player.x as int,
            final(game_state).player.z as int,
        ),
        final(game_state).score == sat_add(
            old(game_state).score,
            APPLE_POINTS * (old(apples)@.len() - final(apples)@.len()),
        ),
        final(game_state).score >= old(game_state).score,
        final(game_state).enemies == old(game_state).enemies,
        final(game_state).player_health == old(game_state).player_health,
        apples_wf(final(apples)@),
{
    let dx: i64 = (if input.right { 1i64 } else { 0i64 }) - (if input.left { 1i64 } else { 0i64 });
    let dz: i64 = (if input.back { 1i64 } else { 0i64 }) - (if input.forward { 1i64 } else { 0i64 });
    if dx != 0 || dz != 0 {
        let norm: i64 = if dx != 0 && dz != 0 { DIAGONAL } else { UNIT };
        let c = aim.cos_yaw;
        let s = aim.sin_yaw;
        assert(-UNIT <= c * dz <= UNIT && -UNIT <= s * dx <= UNIT && -UNIT <= s * dz <= UNIT && -UNIT
            <= c * dx <= UNIT) by (nonlinear_arith)
            requires
                -UNIT <= c <= UNIT,
                -UNIT <= s <= UNIT,
                -1 <= dx <= 1,
                -1 <= dz <= 1,
        ;
        let mx = c * dz - s * dx;
        let mz = s * dz + c * dx;
        let dt = input.dt;
        assert(-2 * UNIT * UNIT <= mx * norm <= 2 * UNIT * UNIT && -2 * UNIT * UNIT * PLAYER_SPEED
            * MAX_DT <= mx * norm * PLAYER_SPEED * dt <= 2 * UNIT * UNIT * PLAYER_SPEED * MAX_DT)
            by (nonlinear_arith)
            requires
                -2 * UNIT <= mx <= 2 * UNIT,
                0 <= norm <= UNIT,
                0 <= dt <= MAX_DT,
        ;
        assert(-2 * UNIT * UNIT <= mz * norm <= 2 * UNIT * UNIT && -2 * UNIT * UNIT * PLAYER_SPEED
            * MAX_DT <= mz * norm * PLAYER_SPEED * dt <= 2 * UNIT * UNIT * PLAYER_SPEED * MAX_DT)
            by (nonlinear_arith)
            requires
                -2 * UNIT <= mz <= 2 * UNIT,
                0 <= norm <= UNIT,
                0 <= dt <= MAX_DT,
        ;
        let sx = scale(mx * norm * PLAYER_SPEED * dt, 1, UNIT * UNIT);
        let sz = scale(mz * norm * PLAYER_SPEED * dt, 1, UNIT * UNIT);
        game_state.player.x = clamp(game_state.player.x + sx, PLAYER_MIN, PLAYER_MAX);
        game_state.player.z = clamp(game_state.player.z + sz, PLAYER_MIN, PLAYER_MAX);
    }
    game_state.player.y = 0;

    let shot = input.fire && match game_state.last_shot {
        None => true,
        Some(t) => input.now - t > SHOT_COOLDOWN,
    };
    if shot {
        shoot_bullet(game_state, aim);
        game_state.last_shot = Some(input.now);
    }
    game_state.player.bullets = advance_bullets(&game_state.player.bullets, input.dt);

    let picked = collect_apples(apples, game_state.player.x, game_state.player.z);
    let gain: u64 = if picked > u64::MAX / APPLE_POINTS {
        u64::MAX
    } else {
        picked * APPLE_POINTS
    };
    game_state.score = game_state.score.saturating_add(gain);
}

proof fn lemma_scaled_square(v: int, den: int)
    requires
        den >= 1,
    ensures
        (den * scaled(v, 1, den)) * (den * scaled(v, 1, den)) <= v * v,
{
    let r = scaled(v, 1, den);
    let a = if v >= 0 { v } else { -v };
    lemma_fundamental_div_mod(a, den);
    assert(0 <= a % den);
    assert(den * (a / den) <= a);
    assert(0 <= a / den) by (nonlinear_arith)
        requires
            a >= 0,
            den >= 1,
    ;
    let q = a / den;
    assert((den * q) * (den * q) <= a * a) by (nonlinear_arith)
        requires
            0 <= den * q <= a,
    ;
    assert(r == q || r == -q);
    assert((den * r) * (den * r) == (den * q) * (den * q)) by (nonlinear_arith)
        requires
            r == q || r == -q,
    ;
    assert(a * a == v * v) by (nonlinear_arith)
        requires
            a == v || a == -v,
    ;
}

proof fn lemma_clamped_move(x: int, s: int, lo: int, hi: int)
    requires
        lo <= x <= hi,
    ensures
        (clamped(x + s, lo, hi) - x) * (clamped(x + s, lo, hi) - x) <= s * s,
{
    let d = clamped(x + s, lo, hi) - x;
    assert((0 <= d <= s) || (s <= d <= 0));
    assert(d * d <= s * s) by (nonlinear_arith)
        requires
            (0 <= d <= s) || (s <= d <= 0),
    ;
}

proof fn lemma_rotation(c: int, s: int, a: int, b: int)
    ensures
        (c * b - s * a) * (c * b - s * a) + (s * b + c * a) * (s * b + c * a) == (c * c + s * s) * (a * a
            + b * b),
{
    let u = c * b;
    let v = s * a;
    let w = s * b;
    let t = c * a;
    assert((u - v) * (u - v) == u * u - 2 * (u * v) + v * v) by (nonlinear_arith);
    assert((w + t) * (w + t) == w * w + 2 * (w * t) + t * t) by (nonlinear_arith);
    assert(u * v == w * t) by (nonlinear_arith)
        requires
            u == c * b,
            v == s * a,
            w == s * b,
            t == c * a,
    ;
    assert(u * u == (c * c) * (b * b)) by (nonlinear_arith)
        requires
            u == c * b,
    ;
    assert(v * v == (s * s) * (a * a)) by (nonlinear_arith)
        requires
            v == s * a,
    ;
    assert(w * w == (s * s) * (b * b)) by (nonlinear_arith)
        requires
            w == s * b,
    ;
    assert(t * t == (c * c) * (a * a)) by (nonlinear_arith)
        requires
            t == c * a,
    ;
    assert((c * c + s * s) * (a * a + b * b) == (c * c) * (a * a) + (c * c) * (b * b) + (s * s) * (a
        * a) + (s * s) * (b * b)) by (nonlinear_arith);
}

proof fn lemma_product_square(m: int, norm: int, k: int)
    ensures
        (m * norm * k) * (m * norm * k) == (m * m) * (norm * norm) * (k * k),
{
    let p = m * norm;
    assert((p * k) * (p * k) == (p * p) * (k * k)) by (nonlinear_arith);
    assert(p * p == (m * m) * (norm * norm)) by (nonlinear_arith)
        requires
            p == m * norm,
    ;
}

proof fn lemma_direction_norm(c: int, s: int, dx: int, dz: int, norm: int, d: int)
    requires
        c * c + s * s <= AIM_NORM_SQ,
        -1 <= dx <= 1,
        -1 <= dz <= 1,
        !(dx == 0 && dz == 0),
        norm == (if dx != 0 && dz != 0 { DIAGONAL as int } else { UNIT as int }),
    ensures
        ({
            let mx = c * dz - s * dx;
            let mz = s * dz + c * dx;
            &&& 0 <= (mx * mx + mz * mz) * (norm * norm) <= 1_002_001_000_000
            &&& (mx * norm * (PLAYER_SPEED * d)) * (mx * norm * (PLAYER_SPEED * d)) + (mz * norm * (
            PLAYER_SPEED * d)) * (mz * norm * (PLAYER_SPEED * d)) == (mx * mx + mz * mz) * (norm * norm)
                * ((PLAYER_SPEED * d) * (PLAYER_SPEED * d))
            &&& (PLAYER_SPEED * d) * (PLAYER_SPEED * d) >= 0
        }),
{
    let mx = c * dz - s * dx;
    let mz = s * dz + c * dx;
    lemma_rotation(c, s, dx, dz);
    let n = dx * dx + dz * dz;
    assert(n == 1 || n == 2) by (nonlinear_arith)
        requires
            -1 <= dx <= 1,
            -1 <= dz <= 1,
            !(dx == 0 && dz == 0),
            n == dx * dx + dz * dz,
    ;
    assert(n == 2 <==> (dx != 0 && dz != 0)) by (nonlinear_arith)
        requires
            -1 <= dx <= 1,
            -1 <= dz <= 1,
            n == dx * dx + dz * dz,
    ;
    assert(0 <= c * c + s * s) by (nonlinear_arith);
    assert(0 <= (mx * mx + mz * mz) * (norm * norm) <= 1_002_001_000_000) by (nonlinear_arith)
        requires
            mx * mx + mz * mz == (c * c + s * s) * n,
            0 <= c * c + s * s <= 1_002_001,
            n == 1 ==> norm == 1000,
            n == 2 ==> norm == 707,
            n == 1 || n == 2,
    ;
    let k = PLAYER_SPEED * d;
    lemma_product_square(mx, norm, k);
    lemma_product_square(mz, norm, k);
    assert((mx * mx + mz * mz) * (norm * norm) * (k * k) == (mx * mx) * (norm * norm) * (k * k) + (mz
        * mz) * (norm * norm) * (k * k)) by (nonlinear_arith);
    assert(k * k >= 0) by (nonlinear_arith);
}

/// A walk step is no longer than the walking speed over the frame, up to
/// three parts in a thousand for the rounding of the view's trigonometry
/// and of the diagonal scale.
pub proof fn lemma_walk_speed(x: int, z: int, input: FrameInput, aim: Aim)
    requires
        PLAYER_MIN <= x <= PLAYER_MAX,
        PLAYER_MIN <= z <= PLAYER_MAX,
        input.wf(),
        aim.wf(),
    ensures
        ({
            let (wx, wz) = walked(x, z, input, aim);
            1000 * ((wx - x) * (wx - x) + (wz - z) * (wz - z)) <= 1003 * (PLAYER_SPEED * input.dt) * (
            PLAYER_SPEED * input.dt)
        }),
{
    let dx = axis(input.left, input.right);
    let dz = axis(input.forward, input.back);
    if !(dx == 0 && dz == 0) {
        let diagonal = dx != 0 && dz != 0;
        let norm: int = if diagonal { DIAGONAL as int } else { UNIT as int };
        let c = aim.cos_yaw as int;
        let s = aim.sin_yaw as int;
        let mx = c * dz - s * dx;
        let mz = s * dz + c * dx;
        let d = input.dt as int;
        let k = PLAYER_SPEED * d;
        let px = mx * norm * PLAYER_SPEED * d;
        let pz = mz * norm * PLAYER_SPEED * d;
        assert(px == mx * norm * k && pz == mz * norm * k) by (nonlinear_arith)
            requires
                px == mx * norm * PLAYER_SPEED * d,
                pz == mz * norm * PLAYER_SPEED * d,
                k == PLAYER_SPEED * d,
        ;
        let sx = walk_step(mx, diagonal, d);
        let sz = walk_step(mz, diagonal, d);
        lemma_scaled_square(px, UNIT * UNIT);
        lemma_scaled_square(pz, UNIT * UNIT);
        lemma_clamped_move(x, sx, PLAYER_MIN as int, PLAYER_MAX as int);
        lemma_clamped_move(z, sz, PLAYER_MIN as int, PLAYER_MAX as int);
        let (wx, wz) = walked(x, z, input, aim);
        lemma_direction_norm(c, s, dx, dz, norm, d);
        assert(1000 * ((wx - x) * (wx - x) + (wz - z) * (wz - z)) <= 1003 * k * k) by (nonlinear_arith)
            requires
                (wx - x) * (wx - x) <= sx * sx,
                (wz - z) * (wz - z) <= sz * sz,
                (1_000_000 * sx) * (1_000_000 * sx) <= px * px,
                (1_000_000 * sz) * (1_000_000 * sz) <= pz * pz,
                px * px + pz * pz == (mx * mx + mz * mz) * (norm * norm) * (k * k),
                0 <= (mx * mx + mz * mz) * (norm * norm) <= 1_002_001_000_000,
                k * k >= 0,
        ;
        assert(1003 * k * k == 1003 * (PLAYER_SPEED * input.dt) * (PLAYER_SPEED * input.dt));
    } else {
        let k = PLAYER_SPEED * input.dt;
        assert(walked(x, z, input, aim) == (x, z));
        assert(1000 * ((x - x) * (x - x) + (z - z) * (z - z)) <= 1003 * k * k) by (nonlinear_arith);
    }
}

} // verus!
