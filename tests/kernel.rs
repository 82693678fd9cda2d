use forest_explorer::enemies::{resolve_hits, should_spawn, steer, update_enemies, Enemy};
use forest_explorer::fixed::{clamp, isqrt, scale};
use forest_explorer::game::GameState;
use forest_explorer::player::{
    advance_bullets, collect_apples, setup_player, shoot_bullet, update_player, Aim, Apple, Bullet, FrameInput,
};
use forest_explorer::view::project_clip;
use forest_explorer::world::{foliage_layers, generate_terrain, generate_world};

fn idle(now: i64, dt: i64) -> FrameInput {
    FrameInput {
        mouse_dx: 0,
        mouse_dy: 0,
        forward: false,
        back: false,
        left: false,
        right: false,
        fire: false,
        now,
        dt,
    }
}

fn along_x() -> Aim {
    Aim { cos_yaw: 1000, sin_yaw: 0, dir_x: 1000, dir_z: 0 }
}

fn enemy_at(x: i64, z: i64) -> Enemy {
    Enemy { x, y: 0, z, health: 20, speed: 2, damage: 10 }
}

fn still_bullet(x: i64, z: i64) -> Bullet {
    Bullet { x, y: 1000, z, vx: 0, vz: 0, damage: 10 }
}

#[test]
fn forward_walk_clamp() {
    let mut g = GameState::new(7);
    g.player.x = 63_000;
    g.player.z = 32_000;
    let mut apples: Vec<Apple> = Vec::new();
    let mut input = idle(0, 100);
    input.forward = true;
    for _ in 0..10 {
        update_player(&mut g, &input, &along_x(), &mut apples);
        input.now += 100;
    }
    assert_eq!(g.player.x, 58_000);
    assert_eq!(g.player.z, 32_000);
    for _ in 10..126 {
        update_player(&mut g, &input, &along_x(), &mut apples);
        input.now += 100;
    }
    assert_eq!(g.player.x, 500);
    assert_eq!(g.player.z, 32_000);
}

#[test]
fn shoot_cooldown() {
    let mut g = GameState::new(7);
    let mut apples: Vec<Apple> = Vec::new();
    let mut input = idle(0, 0);
    input.fire = true;
    update_player(&mut g, &input, &along_x(), &mut apples);
    assert_eq!(g.player.bullets.len(), 1);
    assert_eq!(g.last_shot, Some(0));
    let b = g.player.bullets[0];
    assert_eq!((b.x, b.y, b.z, b.vx, b.vz, b.damage), (32_000, 1000, 32_000, 10_000, 0, 10));
    input.now = 300;
    update_player(&mut g, &input, &along_x(), &mut apples);
    assert_eq!(g.player.bullets.len(), 1);
    assert_eq!(g.last_shot, Some(0));
    input.now = 600;
    update_player(&mut g, &input, &along_x(), &mut apples);
    assert_eq!(g.player.bullets.len(), 2);
    assert_eq!(g.last_shot, Some(600));
}

#[test]
fn shot_at_exact_cooldown_is_refused() {
    let mut g = GameState::new(7);
    let mut apples: Vec<Apple> = Vec::new();
    let mut input = idle(1000, 0);
    input.fire = true;
    update_player(&mut g, &input, &along_x(), &mut apples);
    input.now = 1500;
    update_player(&mut g, &input, &along_x(), &mut apples);
    assert_eq!(g.player.bullets.len(), 1);
    input.now = 1501;
    update_player(&mut g, &input, &along_x(), &mut apples);
    assert_eq!(g.player.bullets.len(), 2);
}

#[test]
fn bullet_enemy() {
    let mut g = GameState::new(7);
    g.enemies.push(enemy_at(10_000, 10_000));
    g.player.bullets.push(still_bullet(10_000, 10_000));
    g.player.bullets.push(still_bullet(10_000, 10_000));
    update_enemies(&mut g, 0, 1000);
    assert!(g.enemies.is_empty());
    assert!(g.player.bullets.is_empty());
    assert_eq!(g.score, 10);
}

#[test]
fn apple_pickup() {
    let mut g = GameState::new(7);
    let mut apples = vec![Apple { x: 32_200, y: 0, z: 32_100 }];
    update_player(&mut g, &idle(0, 16), &along_x(), &mut apples);
    assert!(apples.is_empty());
    assert_eq!(g.score, 5);
}

#[test]
fn apple_at_half_unit_stays() {
    let mut apples = vec![Apple { x: 32_500, y: 0, z: 32_000 }, Apple { x: 32_000, y: 0, z: 32_499 }];
    let picked = collect_apples(&mut apples, 32_000, 32_000);
    assert_eq!(picked, 1);
    assert_eq!(apples, vec![Apple { x: 32_500, y: 0, z: 32_000 }]);
}

#[test]
fn off_screen_projection() {
    assert_eq!(project_clip(100, 100, -5, 800, 600), (-1000, -1000));
    assert_eq!(project_clip(100, 100, 0, 800, 600), (-1000, -1000));
}

#[test]
fn on_screen_projection() {
    assert_eq!(project_clip(0, 0, 1000, 800, 600), (400, 300));
    assert_eq!(project_clip(500, 500, 1000, 800, 600), (600, 150));
    assert_eq!(project_clip(-1000, -1000, 1000, 800, 600), (0, 600));
}

#[test]
fn spawn_gating() {
    let mut g = GameState::new(7);
    for k in 0..5 {
        g.enemies.push(enemy_at(1000 + 5000 * k, 60_000));
    }
    update_enemies(&mut g, 0, 8050);
    assert_eq!(g.enemies.len(), 5);
    g.enemies.pop();
    update_enemies(&mut g, 0, 8050);
    assert_eq!(g.enemies.len(), 5);
    let fresh = g.enemies[4];
    assert!(0 <= fresh.x && fresh.x < 64_000 && 0 <= fresh.z && fresh.z < 64_000);
    assert_eq!((fresh.health, fresh.speed, fresh.damage), (20, 2, 10));
}

#[test]
fn spawn_only_inside_window() {
    assert!(should_spawn(0, 0));
    assert!(should_spawn(4099, 4));
    assert!(!should_spawn(4100, 4));
    assert!(!should_spawn(4050, 5));
    let mut g = GameState::new(3);
    update_enemies(&mut g, 16, 2000);
    assert!(g.enemies.is_empty());
    update_enemies(&mut g, 16, 12_010);
    assert_eq!(g.enemies.len(), 1);
}

#[test]
fn player_stays_in_bounds() {
    let mut g = GameState::new(7);
    let mut apples: Vec<Apple> = Vec::new();
    let mut input = idle(0, 1000);
    input.back = true;
    input.left = true;
    input.mouse_dy = -1_000_000;
    g.player.look(input.mouse_dx, input.mouse_dy);
    assert_eq!(g.player.pitch, 1500);
    let aim = Aim { cos_yaw: 0, sin_yaw: 1000, dir_x: 0, dir_z: 70 };
    for _ in 0..20 {
        g.frame(&input, &aim, &mut apples);
        assert!(500 <= g.player.x && g.player.x <= 63_500);
        assert!(500 <= g.player.z && g.player.z <= 63_500);
        input.now += 1000;
    }
    assert_eq!((g.player.x, g.player.z), (63_500, 63_500));
}

#[test]
fn look_turns_and_clamps() {
    let mut p = setup_player();
    p.look(2000, 0);
    assert_eq!(p.yaw, -10);
    p.look(-3000, 100_000);
    assert_eq!(p.yaw, 5);
    assert_eq!(p.pitch, -500);
    p.look(0, 1_000_000);
    assert_eq!(p.pitch, -1500);
}

#[test]
fn diagonal_walk() {
    let mut g = GameState::new(7);
    let mut apples: Vec<Apple> = Vec::new();
    let mut input = idle(0, 1000);
    input.forward = true;
    input.right = true;
    update_player(&mut g, &input, &along_x(), &mut apples);
    assert_eq!((g.player.x, g.player.z), (28_465, 35_535));
}

#[test]
fn bullets_leaving_field_are_culled() {
    let out = Bullet { x: 63_900, y: 1000, z: 100, vx: 1000, vz: 0, damage: 10 };
    let stays = Bullet { x: 300, y: 1000, z: 100, vx: -1000, vz: 0, damage: 10 };
    let edge = Bullet { x: 63_800, y: 1000, z: 63_800, vx: 1000, vz: 1000, damage: 10 };
    let r = advance_bullets(&vec![out, stays, edge], 200);
    assert_eq!(r.len(), 2);
    assert_eq!((r[0].x, r[0].z), (100, 100));
    assert_eq!((r[1].x, r[1].z), (64_000, 64_000));
    for b in &r {
        assert!(0 <= b.x && b.x <= 64_000 && 0 <= b.z && b.z <= 64_000);
    }
}

#[test]
fn score_never_drops() {
    let mut g = GameState::new(11);
    g.score = u64::MAX - 3;
    let mut apples = vec![Apple { x: 32_000, y: 0, z: 32_000 }];
    g.enemies.push(enemy_at(20_000, 20_000));
    g.player.bullets.push(still_bullet(20_000, 20_000));
    g.player.bullets.push(still_bullet(20_000, 20_000));
    let before = g.score;
    g.frame(&idle(1000, 0), &along_x(), &mut apples);
    assert!(g.score >= before);
    assert_eq!(g.score, u64::MAX);
}

#[test]
fn hits_consume_only_near_bullets() {
    let mut e = enemy_at(10_000, 10_000);
    e.health = 100;
    let mut bullets = vec![
        still_bullet(10_300, 10_000),
        still_bullet(20_000, 20_000),
        still_bullet(10_000, 10_499),
        still_bullet(10_000, 10_500),
    ];
    resolve_hits(&mut e, &mut bullets);
    assert_eq!(e.health, 80);
    assert_eq!(bullets, vec![still_bullet(20_000, 20_000), still_bullet(10_000, 10_500)]);
}

#[test]
fn bullet_damages_only_first_enemy() {
    let mut g = GameState::new(7);
    g.enemies.push(enemy_at(10_000, 10_000));
    g.enemies.push(enemy_at(10_100, 10_000));
    g.player.bullets.push(still_bullet(10_050, 10_000));
    update_enemies(&mut g, 0, 1000);
    assert_eq!(g.enemies.len(), 2);
    assert_eq!(g.enemies[0].health, 10);
    assert_eq!(g.enemies[1].health, 20);
    assert!(g.player.bullets.is_empty());
}

#[test]
fn idle_frame_keeps_player() {
    let mut g = GameState::new(5);
    g.player.x = 12_345;
    g.player.z = 54_321;
    g.player.yaw = 777;
    g.player.pitch = -321;
    let mut apples: Vec<Apple> = Vec::new();
    let input = idle(1000, 16);
    g.player.look(input.mouse_dx, input.mouse_dy);
    g.frame(&input, &Aim { cos_yaw: 700, sin_yaw: 700, dir_x: 500, dir_z: 500 }, &mut apples);
    assert_eq!((g.player.x, g.player.z, g.player.yaw, g.player.pitch), (12_345, 54_321, 777, -321));
}

#[test]
fn enemy_steers_toward_player() {
    let mut e = enemy_at(1000, 1000);
    steer(&mut e, 4000, 5000, 1000);
    assert_eq!((e.x, e.z), (2200, 2600));
    let mut close = enemy_at(4000, 5400);
    steer(&mut close, 4000, 5000, 1000);
    assert_eq!((close.x, close.z), (4000, 5400));
    let mut fast = enemy_at(0, 32_000);
    fast.speed = 1000;
    steer(&mut fast, 63_500, 32_000, 1000);
    assert_eq!((fast.x, fast.z), (63_500, 32_000));
}

#[test]
fn terrain_mesh_layout() {
    let heights: Vec<i64> = (0..4096).map(|i| (i % 7) * 100 - 300).collect();
    let t = generate_terrain(&heights);
    assert_eq!(t.vertices.len(), 4096);
    assert_eq!(t.indices.len(), 63 * 63 * 6);
    assert_eq!(&t.indices[0..6], &[0, 1, 64, 1, 65, 64]);
    assert_eq!(&t.indices[6..12], &[1, 2, 65, 2, 66, 65]);
    assert_eq!(&t.indices[62 * 6..63 * 6], &[62, 63, 126, 63, 127, 126]);
    assert_eq!(&t.indices[63 * 6..64 * 6], &[64, 65, 128, 65, 129, 128]);
    let v = t.vertices[65];
    assert_eq!((v.x, v.y, v.z, v.u, v.v), (1000, -100, 1000, 15, 15));
    assert_eq!(v.green, 390);
    let w = t.vertices[64 * 40 + 3];
    assert_eq!((w.x, w.z, w.u, w.v), (40_000, 3000, 625, 46));
    assert_eq!(t.vertices[3].green, 400);
    assert_eq!(t.vertices[0].green, 370);
}

#[test]
fn world_is_deterministic_in_seed() {
    let heights: Vec<i64> = (0..4096).map(|i| (i * 37) % 2000 - 1000).collect();
    let a = generate_world(42, &heights);
    let b = generate_world(42, &heights);
    assert_eq!(a.terrain.vertices, b.terrain.vertices);
    assert_eq!(a.terrain.indices, b.terrain.indices);
    assert_eq!(a.trees.len(), 40);
    for (s, t) in a.trees.iter().zip(b.trees.iter()) {
        assert_eq!(
            (s.x, s.z, s.trunk_height, s.base_radius, s.lean_x, s.lean_z),
            (t.x, t.z, t.trunk_height, t.base_radius, t.lean_x, t.lean_z)
        );
        assert_eq!(s.foliage, t.foliage);
    }
}

#[test]
fn trees_are_drawn_in_range() {
    let heights = vec![0i64; 4096];
    let w = generate_world(9, &heights);
    for t in &w.trees {
        assert!(2000 <= t.x && t.x < 62_000 && 2000 <= t.z && t.z < 62_000);
        assert!(3000 <= t.trunk_height && t.trunk_height < 6000);
        assert!(200 <= t.base_radius && t.base_radius < 400);
        assert!(-100 <= t.lean_x && t.lean_x < 100 && -100 <= t.lean_z && t.lean_z < 100);
        assert!(t.foliage.len() == 3 || t.foliage.len() == 4);
    }
    let first = &w.trees[0];
    assert!(w.trees.iter().any(|t| t.x != first.x || t.trunk_height != first.trunk_height));
    let other = generate_world(10, &heights);
    assert!(w.trees.iter().zip(other.trees.iter()).any(|(s, t)| s.x != t.x || s.z != t.z));
}

#[test]
fn foliage_layer_formula() {
    assert_eq!(
        foliage_layers(4000, 300, 4),
        vec![(2000, 960), (2800, 720), (3600, 480), (4400, 240)]
    );
    assert_eq!(foliage_layers(3000, 200, 3), vec![(1500, 480), (2100, 320), (2700, 160)]);
}

#[test]
fn fixed_point_helpers() {
    assert_eq!(isqrt(250_000), 500);
    assert_eq!(isqrt(10), 3);
    assert_eq!(isqrt(0), 0);
    assert_eq!(scale(-7, 1, 2), -3);
    assert_eq!(scale(7, 3, 2), 10);
    assert_eq!(clamp(70, 0, 64), 64);
    assert_eq!(clamp(-1, 0, 64), 0);
}

#[test]
fn new_session() {
    let g = GameState::new(1);
    assert_eq!((g.player.x, g.player.y, g.player.z), (32_000, 0, 32_000));
    assert_eq!((g.player.yaw, g.player.pitch), (0, 0));
    assert_eq!(g.score, 0);
    assert_eq!(g.last_shot, None);
    assert_eq!(g.player_health, 100);
    assert!(g.enemies.is_empty() && g.player.bullets.is_empty());
}

#[test]
fn shot_leaves_from_muzzle() {
    let mut g = GameState::new(7);
    g.player.y = 500;
    shoot_bullet(&mut g, &Aim { cos_yaw: 0, sin_yaw: 1000, dir_x: -600, dir_z: 800 });
    let b = g.player.bullets[0];
    assert_eq!((b.x, b.y, b.z, b.vx, b.vz, b.damage), (32_000, 1500, 32_000, -6000, 8000, 10));
    assert_eq!(g.last_shot, None);
}

#[test]
fn pass_removes_bullets_near_any_enemy() {
    let mut g = GameState::new(7);
    let mut tough = enemy_at(10_000, 10_000);
    tough.health = 1000;
    g.enemies.push(tough);
    g.enemies.push(enemy_at(40_000, 40_000));
    g.player.bullets.push(still_bullet(40_100, 40_000));
    g.player.bullets.push(still_bullet(30_000, 30_000));
    g.player.bullets.push(still_bullet(10_000, 10_200));
    update_enemies(&mut g, 0, 1000);
    assert_eq!(g.player.bullets, vec![still_bullet(30_000, 30_000)]);
    assert_eq!(g.enemies[0].health, 990);
    assert_eq!(g.enemies[1].health, 10);
    assert_eq!(g.score, 0);
}

#[test]
fn frame_runs_player_then_enemies() {
    let mut g = GameState::new(7);
    g.enemies.push(enemy_at(1000, 32_000));
    let mut apples = vec![Apple { x: 32_100, y: 0, z: 32_000 }];
    let mut input = idle(1000, 500);
    input.fire = true;
    g.frame(&input, &along_x(), &mut apples);
    assert!(apples.is_empty());
    assert_eq!(g.score, 5);
    assert_eq!(g.last_shot, Some(1000));
    assert_eq!(g.player.bullets.len(), 1);
    assert_eq!((g.player.bullets[0].x, g.player.bullets[0].z), (37_000, 32_000));
    assert_eq!((g.enemies[0].x, g.enemies[0].z), (2000, 32_000));
    assert_eq!(g.player.y, 0);
}
