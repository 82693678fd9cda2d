//! The state of one session and the frame kernel.
use crate::enemies::{
    enemies_wf, enemy_pass, is_fresh, spawn_due, update_enemies, Enemy, KILL_POINTS, SPAWN_CAP,
};
use crate::fixed::scaled;
use crate::player::{
    advance_all, apples_wf, fired, kept_apples, launched, looked_pitch, sat_add, setup_player,
    shoots, update_player, walked, Aim, Apple, FrameInput, Player, APPLE_POINTS, LOOK_DEN, LOOK_NUM,
    MAX_TIME,
};
use crate::rng::seeded_rng;
use rand::rngs::StdRng;
use vstd::prelude::*;

verus! {

/// Health the player starts a session with.
pub const START_HEALTH: i64 = 100;

/// Everything one session owns.
pub struct GameState {
    pub player: Player,
    pub enemies: Vec<Enemy>,
    pub score: u64,
    /// Clock reading of the last shot, if any.
    pub last_shot: Option<i64>,
    pub player_health: i64,
    /// Generator for enemy placement.
    pub rng: StdRng,
}

impl GameState {
    pub open spec fn wf(&self) -> bool {
        &&& self.player.wf()
        &&& enemies_wf(self.enemies@)
        &&& match self.last_shot {
            None => true,
            Some(t) => 0 <= t <= MAX_TIME,
        }
    }

    /// A fresh session whose random draws follow from `seed`.
    pub fn new(seed: u64) -> (g: GameState)
        ensures
            g.wf(),
            g.player.x == 32_000 && g.player.y == 0 && g.player.z == 32_000,
            g.player.yaw == 0 && g.player.pitch == 0,
            g.player.bullets@.len() == 0,
            g.enemies@.len() == 0,
            g.score == 0,
            g.last_shot is None,
            g.player_health == START_HEALTH,
    {
        GameState {
            player: setup_player(),
            enemies: Vec::new(),
            score: 0,
            last_shot: None,
            player_health: START_HEALTH,
            rng: seeded_rng(seed),
        }
    }
}

impl GameState {
    /// One frame of the kernel: the player controller, then the enemy
    /// subsystem, in that order. The look step, `Player::look`, comes before
    /// it: `aim` is the view as that step left it, and `frame` does not read
    /// `input.mouse_dx` or `input.mouse_dy`.
    pub fn frame(&mut self, input: &FrameInput, aim: &Aim, apples: &mut Vec<Apple>)
        requires
            old(self).wf(),
            input.wf(),
            aim.wf(),
            apples_wf(old(apples)@),
        ensures
            final(self).wf(),
            (final(self).player.x as int, final(self).player.z as int) == walked(
                old(self).player.x as int,
                old(self).player.z as int,
                *input,
                *aim,
            ),
            final(self).player.yaw == old(self).player.yaw,
            final(self).player.pitch == old(self).player.pitch,
            ({
                let shot = shoots(old(self).last_shot, *input);
                let fx = final(self).player.x;
                let fz = final(self).player.z;
                let flying = advance_all(
                    launched(old(self).player.bullets@, shot, fired(fx, 0, fz, *aim)),
                    input.dt as int,
                );
                let (es, left, kills) = enemy_pass(
                    old(self).enemies@,
                    flying,
                    fx as int,
                    fz as int,
                    input.dt as int,
                );
                &&& final(self).player.y == 0
                &&& final(self).last_shot == (if shot {
                    Some(input.now)
                } else {
                    old(self).last_shot
                })
                &&& final(apples)@ == kept_apples(old(apples)@, fx as int, fz as int)
                &&& final(self).player.bullets@ == left
                &&& final(self).score == sat_add(
                    sat_add(old(self).score, APPLE_POINTS * (old(apples)@.len() - final(apples)@.len())),
                    KILL_POINTS * kills,
                )
                &&& if spawn_due(input.now as int, es.len() as int) {
                    &&& final(self).enemies@.len() == es.len() + 1
                    &&& final(self).enemies@.drop_last() == es
                    &&& is_fresh(final(self).enemies@.last())
                } else {
                    final(self).enemies@ == es
                }
            }),
            final(self).score >= old(self).score,
            old(self).enemies@.len() <= SPAWN_CAP ==> final(self).enemies@.len() <= SPAWN_CAP,
            final(self).player_health == old(self).player_health,
            apples_wf(final(apples)@),
    {
        update_player(self, input, aim, apples);
        update_enemies(self, input.dt, input.now);
    }
}

/// With no input, a frame leaves the player's position and view angles as
/// they were: the look step turns by nothing and the walk step stays put.
pub proof fn lemma_idle_frame(p: Player, input: FrameInput, aim: Aim)
    requires
        p.wf(),
        input.idle(),
    ensures
        p.yaw.wrapping_sub(scaled(input.mouse_dx as int, LOOK_NUM as int, LOOK_DEN as int) as i64)
            == p.yaw,
        looked_pitch(p.pitch as int, input.mouse_dy as int) == p.pitch,
        walked(p.x as int, p.z as int, input, aim) == (p.x as int, p.z as int),
{
}

} // verus!
