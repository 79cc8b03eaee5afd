use arena_sim::entity::Entity;
use arena_sim::entity::EntityKind;
use arena_sim::entity::Weapon;
use arena_sim::entity::reload_time;
use arena_sim::geom::Vec2i;
use arena_sim::sim::Input;
use arena_sim::sim::MainState;
use arena_sim::sim::Phase;

fn idle_input() -> Input {
    Input {
        up: false,
        down: false,
        left: false,
        right: false,
        fire: false,
        pause: false,
        aim: Vec2i { x: 640_000, y: 360_000 },
    }
}

fn entity(kind: EntityKind, x: i64, y: i64, vx: i64, vy: i64, health: u16) -> Entity {
    Entity {
        kind,
        pos: Vec2i { x, y },
        vel: Vec2i { x: vx, y: vy },
        health,
        rotation: 0,
        frame: 0,
        frame_time: 0,
    }
}

#[test]
fn new_state_is_the_documented_opening_state() {
    let s = MainState::new();
    assert_eq!(s.player.health, 100);
    assert_eq!(s.player.pos, Vec2i { x: 640_000, y: 360_000 });
    assert!(s.bullets.is_empty() && s.enemies.is_empty() && s.particles.is_empty());
    assert_eq!(s.reloading, 0);
    assert_eq!(s.counter, 60);
    assert_eq!(s.currency, 0);
    assert_eq!(s.equipped, Weapon::Pistol);
    assert!(s.owns_pistol && !s.owns_shotgun && !s.owns_rifle);
    assert_eq!(s.phase, Phase::Running);
}

#[test]
fn reload_table_per_weapon() {
    assert_eq!(reload_time(Weapon::Pistol), 30);
    assert_eq!(reload_time(Weapon::Shotgun), 45);
    assert_eq!(reload_time(Weapon::Rifle), 12);
}

#[test]
fn bullet_ages_and_moves_each_tick() {
    let mut s = MainState::new();
    s.counter = 60_000;
    s.bullets.push(entity(EntityKind::Bullet, 100_000, 100_000, 2000, -3000, 60));
    s.update(&idle_input());
    assert_eq!(s.bullets.len(), 1);
    assert_eq!(s.bullets[0].health, 59);
    assert_eq!(s.bullets[0].pos, Vec2i { x: 102_000, y: 97_000 });
}

#[test]
fn bullet_expires_through_cleanup() {
    let mut s = MainState::new();
    s.counter = 60_000;
    s.bullets.push(entity(EntityKind::Bullet, 100_000, 100_000, 1000, 0, 1));
    s.update(&idle_input());
    assert!(s.bullets.is_empty());
}

#[test]
fn particle_drag_is_exact_and_never_speeds_up() {
    let mut s = MainState::new();
    s.counter = 60_000;
    s.particles.push(entity(EntityKind::Particle, 0, 0, 2200, -1100, 5));
    s.particles.push(entity(EntityKind::Particle, 0, 0, 10, -11, 5));
    s.update(&idle_input());
    assert_eq!(s.particles[0].vel, Vec2i { x: 2000, y: -1000 });
    assert_eq!(s.particles[0].pos, Vec2i { x: 2200, y: -1100 });
    assert_eq!(s.particles[0].health, 4);
    assert_eq!(s.particles[1].vel, Vec2i { x: 9, y: -10 });
    let mut speed2 = i64::MAX;
    for _ in 0..10 {
        s.update(&idle_input());
        if s.particles.is_empty() {
            break;
        }
        let v = s.particles[0].vel;
        let n2 = v.x * v.x + v.y * v.y;
        assert!(n2 <= speed2);
        speed2 = n2;
    }
}

#[test]
fn cleanup_twice_removes_nothing_more() {
    let mut s = MainState::new();
    s.bullets.push(entity(EntityKind::Bullet, 0, 0, 0, 0, 3));
    s.bullets.push(entity(EntityKind::Bullet, 0, 0, 0, 0, 0));
    s.enemies.push(entity(EntityKind::Enemy, 0, 0, 0, 0, 1));
    s.enemies.push(entity(EntityKind::Enemy, 5, 5, 0, 0, 0));
    s.particles.push(entity(EntityKind::Particle, 0, 0, 0, 0, 0));
    s.particles.push(entity(EntityKind::Particle, 1, 1, 0, 0, 7));
    s.clear_entities();
    let bullets = s.bullets.clone();
    let enemies = s.enemies.clone();
    let particles = s.particles.clone();
    s.clear_entities();
    assert_eq!(s.bullets, bullets);
    assert_eq!(s.enemies, enemies);
    assert_eq!(s.particles, particles);
    assert_eq!(s.bullets.len(), 1);
    assert_eq!(s.enemies.len(), 1);
    assert_eq!(s.particles.len(), 1);
}

#[test]
fn bullet_hit_kills_enemy_expires_bullet_and_fans_particles() {
    let mut s = MainState::new();
    s.bullets.push(entity(EntityKind::Bullet, 200_000, 200_000, 1000, 0, 60));
    s.enemies.push(entity(EntityKind::Enemy, 200_000, 200_000, 0, 0, 1));
    s.handle_collisions();
    assert_eq!(s.enemies[0].health, 0);
    assert_eq!(s.bullets[0].health, 0);
    assert_eq!(s.currency, 1);
    assert_eq!(s.particles.len(), 5);
    for p in &s.particles {
        assert_eq!(p.health, 20);
        assert_eq!(p.kind, EntityKind::Particle);
        // spawned one bullet-step ahead of the impact
        assert_eq!(p.pos, Vec2i { x: 201_000, y: 200_000 });
    }
    s.clear_entities();
    assert!(s.bullets.is_empty() && s.enemies.is_empty());
    assert_eq!(s.particles.len(), 5);
}

#[test]
fn one_bullet_can_kill_several_overlapping_enemies() {
    let mut s = MainState::new();
    s.bullets.push(entity(EntityKind::Bullet, 200_000, 200_000, 0, 0, 60));
    s.enemies.push(entity(EntityKind::Enemy, 190_000, 200_000, 0, 0, 1));
    s.enemies.push(entity(EntityKind::Enemy, 210_000, 200_000, 0, 0, 1));
    s.handle_collisions();
    assert_eq!(s.enemies[0].health, 0);
    assert_eq!(s.enemies[1].health, 0);
    assert_eq!(s.currency, 2);
    assert_eq!(s.particles.len(), 10);
}

#[test]
fn a_missed_bullet_hits_nothing() {
    let mut s = MainState::new();
    s.bullets.push(entity(EntityKind::Bullet, 0, 0, 0, 0, 60));
    s.enemies.push(entity(EntityKind::Enemy, 500_000, 500_000, 0, 0, 1));
    s.handle_collisions();
    assert_eq!(s.enemies[0].health, 1);
    assert_eq!(s.bullets[0].health, 60);
    assert_eq!(s.currency, 0);
    assert!(s.particles.is_empty());
}

#[test]
fn player_overlaps_cost_fixed_damage_each() {
    let mut s = MainState::new();
    for dx in [-10_000i64, 0, 10_000] {
        s.enemies.push(entity(EntityKind::Enemy, 640_000 + dx, 360_000, 0, 0, 1));
    }
    s.handle_collisions();
    assert_eq!(s.player.health, 85);
    for e in &s.enemies {
        assert_eq!(e.health, 0);
    }
}

#[test]
fn player_health_floors_at_zero() {
    let mut s = MainState::new();
    s.player.health = 7;
    s.enemies.push(entity(EntityKind::Enemy, 640_000, 360_000, 0, 0, 1));
    s.enemies.push(entity(EntityKind::Enemy, 641_000, 360_000, 0, 0, 1));
    s.handle_collisions();
    assert_eq!(s.player.health, 0);
}

#[test]
fn scenario_enemy_marches_in_and_strikes() {
    let mut s = MainState::new();
    s.counter = 60_000;
    s.enemies.push(entity(EntityKind::Enemy, 0, 360_000, 4000, 0, 1));
    for _ in 0..151 {
        s.update(&idle_input());
    }
    assert_eq!(s.enemies.len(), 1);
    assert_eq!(s.enemies[0].pos, Vec2i { x: 604_000, y: 360_000 });
    assert_eq!(s.player.health, 100);
    s.update(&idle_input());
    assert!(s.enemies.is_empty());
    assert_eq!(s.player.health, 95);
}

#[test]
fn scenario_fire_fan_with_pistol() {
    let mut s = MainState::new();
    s.counter = 60_000;
    s.reloading = 0;
    let mut input = idle_input();
    input.fire = true;
    // aim straight down from the player so the rotation becomes zero
    input.aim = Vec2i { x: 640_000, y: 400_000 };
    s.update(&input);
    assert_eq!(s.bullets.len(), 5);
    assert_eq!(s.player.rotation, 0);
    for b in &s.bullets {
        assert_eq!(b.health, 60);
        assert!((b.rotation - s.player.rotation).abs() <= 174);
    }
    assert_eq!(s.reloading, 30);
}

#[test]
fn scenario_spawn_on_expired_countdown() {
    let mut s = MainState::new();
    s.counter = 1;
    s.update(&idle_input());
    assert_eq!(s.enemies.len(), 1);
    assert_eq!(s.counter, 60);
    let e = &s.enemies[0];
    assert_eq!(e.health, 1);
    assert!(e.pos.x == 0 || e.pos.x == 1_280_000);
    assert!(0 <= e.pos.y && e.pos.y <= 720_000);
}

#[test]
fn scenario_weapon_shop_checks_the_price() {
    let mut s = MainState::new();
    s.phase = Phase::Paused;
    s.currency = 150;
    s.switch_weapon(Weapon::Shotgun);
    assert_eq!(s.currency, 150);
    assert!(!s.owns_shotgun);
    assert_eq!(s.equipped, Weapon::Pistol);
    s.currency = 250;
    s.switch_weapon(Weapon::Shotgun);
    assert_eq!(s.currency, 50);
    assert!(s.owns_shotgun);
    assert_eq!(s.equipped, Weapon::Shotgun);
    // switching back to an owned weapon is free
    s.switch_weapon(Weapon::Pistol);
    assert_eq!(s.currency, 50);
    assert_eq!(s.equipped, Weapon::Pistol);
}

#[test]
fn weapon_shop_is_closed_while_running() {
    let mut s = MainState::new();
    s.currency = 1000;
    s.switch_weapon(Weapon::Rifle);
    assert_eq!(s.currency, 1000);
    assert!(!s.owns_rifle);
    assert_eq!(s.equipped, Weapon::Pistol);
}

#[test]
fn random_fire_fan_stays_in_the_cone() {
    let mut s = MainState::new();
    s.player.rotation = 500;
    s.fire_shot();
    assert_eq!(s.bullets.len(), 5);
    for b in &s.bullets {
        assert!(326 <= b.rotation && b.rotation <= 674);
        assert_eq!(b.health, 60);
    }
    assert_eq!(s.reloading, 30);
}

#[test]
fn random_spawn_lands_on_a_vertical_edge() {
    let mut s = MainState::new();
    for _ in 0..8 {
        s.spawn_enemy();
    }
    assert_eq!(s.enemies.len(), 8);
    assert_eq!(s.counter, 60);
    for e in &s.enemies {
        assert!(e.pos.x == 0 || e.pos.x == 1_280_000);
        assert!(0 <= e.pos.y && e.pos.y <= 720_000);
        assert_eq!(e.health, 1);
    }
}

#[test]
fn boundary_clears_the_crossing_intent_only() {
    let mut s = MainState::new();
    s.counter = 60_000;
    s.player.pos = Vec2i { x: -100, y: 360_000 };
    let mut input = idle_input();
    input.left = true;
    s.update(&input);
    assert_eq!(s.player.pos, Vec2i { x: -100, y: 360_000 });
    input.left = false;
    input.right = true;
    s.update(&input);
    assert_eq!(s.player.pos, Vec2i { x: 4_900, y: 360_000 });
}

#[test]
fn movement_steps_by_the_fixed_pixel_step() {
    let mut s = MainState::new();
    s.counter = 60_000;
    let mut input = idle_input();
    input.down = true;
    input.right = true;
    s.update(&input);
    assert_eq!(s.player.pos, Vec2i { x: 645_000, y: 365_000 });
}

#[test]
fn pause_freezes_resume_counts_down() {
    let mut s = MainState::new();
    s.counter = 60_000;
    s.bullets.push(entity(EntityKind::Bullet, 100_000, 100_000, 1000, 0, 60));
    let mut pause = idle_input();
    pause.pause = true;
    s.update(&pause);
    assert_eq!(s.phase, Phase::Paused);
    assert_eq!(s.bullets[0].health, 60);
    assert_eq!(s.bullets[0].pos, Vec2i { x: 100_000, y: 100_000 });
    // a fire request while paused does nothing
    let mut fire = idle_input();
    fire.fire = true;
    s.update(&fire);
    assert_eq!(s.bullets.len(), 1);
    assert_eq!(s.phase, Phase::Paused);
    // leaving the menu starts the resume countdown
    s.update(&pause);
    assert_eq!(s.phase, Phase::Resuming);
    assert_eq!(s.resume_counter, 60);
    for _ in 0..59 {
        s.update(&idle_input());
        assert_eq!(s.phase, Phase::Resuming);
        assert_eq!(s.bullets[0].health, 60);
    }
    s.update(&idle_input());
    assert_eq!(s.phase, Phase::Running);
    // the next tick moves the world again
    s.update(&idle_input());
    assert_eq!(s.bullets[0].health, 59);
}

#[test]
fn reload_counts_down_and_gates_fire() {
    let mut s = MainState::new();
    s.counter = 60_000;
    s.reloading = 2;
    let mut input = idle_input();
    input.fire = true;
    s.update(&input);
    assert_eq!(s.reloading, 1);
    assert!(s.bullets.is_empty());
    s.update(&input);
    // the countdown reached zero this tick, so the shot goes off
    assert_eq!(s.bullets.len(), 5);
    assert_eq!(s.reloading, 30);
}
