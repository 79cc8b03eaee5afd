use vstd::prelude::*;

use crate::bvh::SpatialIndex;
use crate::bvh::Value;
use crate::collision::chip;
use crate::collision::count_hits;
use crate::collision::enemy_killed;
use crate::collision::hit;
use crate::collision::hit_by_any;
use crate::collision::killed_if;
use crate::collision::lemma_count_hits_same_pos;
use crate::collision::lemma_sat_add_assoc;
use crate::collision::mk_entries;
use crate::collision::resolve_bullet;
use crate::collision::resolve_player;
use crate::collision::sat_add64;
use crate::collision::spawned_ok;
use crate::collision::total_bullet_hits;
use crate::config::BULLETS_SHOT;
use crate::config::BULLET_SPEED;
use crate::config::BULLET_OFFSET;
use crate::config::BULLET_TIME;
use crate::config::BULLET_W2;
use crate::config::ENEMY_CAP;
use crate::config::ENEMY_COOLDOWN;
use crate::config::ENEMY_W2;
use crate::config::HALF_PI_MRAD;
use crate::config::HALF_SPREAD;
use crate::config::PARTICLES_PER_HIT;
use crate::config::PARTICLE_HEALTH;
use crate::config::PLAYER_START_HEALTH;
use crate::config::PLAYER_W2;
use crate::config::PX_MOVEMENT;
use crate::config::RESUME_TICKS;
use crate::config::WEAPON_COST;
use crate::config::WIN_H;
use crate::config::WIN_W;
use crate::entity::Entity;
use crate::entity::EntityKind;
use crate::entity::Weapon;
use crate::entity::bullet_frame_ok;
use crate::entity::bullet_ok;
use crate::entity::enemy_frame_ok;
use crate::entity::enemy_ok;
use crate::entity::keep_bullets;
use crate::entity::keep_enemies;
use crate::entity::keep_particles;
use crate::entity::lemma_keep_bullets_members;
use crate::entity::lemma_keep_len_bounds;
use crate::entity::lemma_keep_enemies_members;
use crate::entity::lemma_keep_particles_members;
use crate::entity::moved_bullet;
use crate::entity::moved_particle;
use crate::entity::particle_frame_ok;
use crate::entity::particle_ok;
use crate::entity::player_ok;
use crate::entity::reload_time;
use crate::entity::reload_time_spec;
use crate::entity::vec_set;
use crate::geom::Vec2i;
use crate::geom::box_at;
use crate::geom::clip;
use crate::geom::clip_spec;
use crate::geom::coord_ok;
use crate::geom::dist2_spec;
use crate::random::rand_in_range;
use crate::trig::atan2_mrad;
use crate::trig::atan2_spec;
use crate::trig::cos_mrad_spec;
use crate::trig::sin_mrad_spec;
use crate::trig::enemy_velocity;
use crate::trig::vec_from_angle;

verus! {

/// What the input collaborator hands the core once per tick: movement
/// intent on four axes, the aim target point, the fire signal, and the
/// edge-triggered pause signal.
#[derive(Clone, Copy, PartialEq, Eq, Structural, Debug)]
pub struct Input {
    pub up: bool,
    pub down: bool,
    pub left: bool,
    pub right: bool,
    pub fire: bool,
    pub pause: bool,
    pub aim: Vec2i,
}

/// The simulation's run state.
#[derive(Clone, Copy, PartialEq, Eq, Structural, Debug)]
pub enum Phase {
    Running,
    Paused,
    Resuming,
}

/// The whole simulation state: the player singleton, the three entity
/// collections, and the global counters.
pub struct MainState {
    pub player: Entity,
    pub bullets: Vec<Entity>,
    pub enemies: Vec<Entity>,
    pub particles: Vec<Entity>,
    pub reloading: u16,
    pub counter: u16,
    pub currency: u64,
    pub equipped: Weapon,
    pub owns_pistol: bool,
    pub owns_shotgun: bool,
    pub owns_rifle: bool,
    pub phase: Phase,
    pub resume_counter: u16,
}

/// Whether the given weapon has been unlocked in state `s`.
pub open spec fn owns_spec(s: MainState, w: Weapon) -> bool {
    match w {
        Weapon::Pistol => s.owns_pistol,
        Weapon::Shotgun => s.owns_shotgun,
        Weapon::Rifle => s.owns_rifle,
    }
}

/// The invariant every tick starts and ends in: every stored entity is
/// well formed and alive, the enemy collection fits the index's `u16`
/// positions, and the equipped weapon is owned.
pub open spec fn wf(s: MainState) -> bool {
    player_ok(s.player) && (forall|i: int|
        0 <= i < s.bullets@.len() ==> bullet_ok(#[trigger] s.bullets@[i])) && (forall|i: int|
        0 <= i < s.enemies@.len() ==> enemy_ok(#[trigger] s.enemies@[i])) && (forall|i: int|
        0 <= i < s.particles@.len() ==> particle_ok(#[trigger] s.particles@[i]))
        && s.enemies@.len() <= ENEMY_CAP && s.owns_pistol && owns_spec(s, s.equipped)
}

/// A countdown decrement that stops at zero.
pub open spec fn sat_dec16(x: u16) -> u16 {
    if x > 0 {
        (x - 1) as u16
    } else {
        0
    }
}

/// A bullet the fan shot just created: full lifetime, rotation exactly
/// the player's plus the given offset, spawned near the player at the
/// fixed bullet speed.
pub open spec fn fresh_bullet(b: Entity, player: Entity, off: i64) -> bool {
    bullet_ok(b) && b.health == BULLET_TIME && b.rotation == player.rotation + off && b.vel.x
        == sin_mrad_spec(0 - (player.rotation + off)) * BULLET_SPEED && b.vel.y == cos_mrad_spec(
        0 - (player.rotation + off),
    ) * BULLET_SPEED && b.pos.x == clip_spec(
        player.pos.x + sin_mrad_spec(0 - (player.rotation + off)) * BULLET_OFFSET,
    ) && b.pos.y == clip_spec(
        player.pos.y + cos_mrad_spec(0 - (player.rotation + off)) * BULLET_OFFSET,
    ) && -20000 <= b.vel.x <= 20000 && -20000 <= b.vel.y <= 20000 && player.pos.x - 40000
        <= b.pos.x <= player.pos.x + 40000 && player.pos.y - 40000 <= b.pos.y <= player.pos.y
        + 40000
}

/// A fan bullet flies along its own stored rotation at the fixed bullet
/// speed, and starts the fixed offset from the player center along that
/// same direction.
pub open spec fn fan_bullet(b: Entity, player_pos: Vec2i) -> bool {
    b.vel.x == sin_mrad_spec(0 - b.rotation) * BULLET_SPEED && b.vel.y == cos_mrad_spec(
        0 - b.rotation,
    ) * BULLET_SPEED && b.pos.x == clip_spec(
        player_pos.x + sin_mrad_spec(0 - b.rotation) * BULLET_OFFSET,
    ) && b.pos.y == clip_spec(player_pos.y + cos_mrad_spec(0 - b.rotation) * BULLET_OFFSET)
}

/// A velocity points from `pos` toward `target`: each component carries
/// the sign of the difference, exactly on the axis when aligned.
pub open spec fn aimed_at(vel: Vec2i, pos: Vec2i, target: Vec2i) -> bool {
    (target.x >= pos.x ==> vel.x >= 0) && (target.x <= pos.x ==> vel.x <= 0) && (target.y >= pos.y
        ==> vel.y >= 0) && (target.y <= pos.y ==> vel.y <= 0) && (target.y == pos.y && target.x
        > pos.x ==> vel == (Vec2i { x: crate::config::ENEMY_SPEED, y: 0 }))
}

/// An enemy the spawner just created: alive, standing on the chosen
/// vertical world edge, aimed at the player.
pub open spec fn fresh_enemy(e: Entity, on_left: bool, y: i64, player: Entity) -> bool {
    enemy_ok(e) && e.pos == (Vec2i {
        x: if on_left {
            0
        } else {
            WIN_W
        },
        y,
    }) && aimed_at(e.vel, e.pos, player.pos)
}

/// How one tick of movement rewrites one enemy: the velocity is re-aimed
/// at the player at the fixed enemy speed, the position advances by the
/// new velocity, and everything else but the rotation is kept.
pub open spec fn enemy_stepped(oe: Entity, ne: Entity, player_pos: Vec2i) -> bool {
    ne.kind == oe.kind && ne.health == oe.health && ne.frame == oe.frame && ne.frame_time
        == oe.frame_time && -crate::config::ENEMY_SPEED <= ne.vel.x <= crate::config::ENEMY_SPEED
        && -crate::config::ENEMY_SPEED <= ne.vel.y <= crate::config::ENEMY_SPEED && ne.pos.x
        == clip_spec(oe.pos.x + ne.vel.x) && ne.pos.y == clip_spec(oe.pos.y + ne.vel.y)
        && -crate::config::ENEMY_ROT_MAX <= ne.rotation <= crate::config::ENEMY_ROT_MAX
        && ne.rotation == atan2_spec(player_pos.y - oe.pos.y, player_pos.x - oe.pos.x)
        - HALF_PI_MRAD && (player_pos.x >= oe.pos.x ==> ne.vel.x >= 0) && (player_pos.x <= oe.pos.x
        ==> ne.vel.x <= 0) && (player_pos.y >= oe.pos.y ==> ne.vel.y >= 0) && (player_pos.y
        <= oe.pos.y ==> ne.vel.y <= 0) && (player_pos.y == oe.pos.y && player_pos.x > oe.pos.x
        ==> ne.vel == (Vec2i { x: crate::config::ENEMY_SPEED, y: 0 })) && (dist2_spec(
        oe.pos,
        player_pos,
    ) >= crate::config::ENEMY_SPEED * crate::config::ENEMY_SPEED ==> crate::config::ENEMY_SPEED
        * crate::config::ENEMY_SPEED - 4 * crate::config::ENEMY_SPEED - 2 <= ne.vel.x * ne.vel.x
        + ne.vel.y * ne.vel.y <= (crate::config::ENEMY_SPEED + 1) * (crate::config::ENEMY_SPEED
        + 1))
}

/// The movement intent that survives the boundary policy: an axis's
/// flag is force-cleared for this tick once the player stands beyond
/// that edge, and the position itself is not clamped.
pub open spec fn clamped_input(pos: Vec2i, inp: Input) -> Input {
    Input {
        left: inp.left && !(pos.x < 0),
        up: inp.up && !(pos.y < 0),
        right: inp.right && !(pos.x > WIN_W),
        down: inp.down && !(pos.y > WIN_H),
        ..inp
    }
}

/// Where the player stands after one tick of movement.
pub open spec fn player_step(pos: Vec2i, inp: Input) -> Vec2i {
    let c = clamped_input(pos, inp);
    Vec2i {
        x: clip_spec(
            pos.x + (if c.right {
                PX_MOVEMENT
            } else {
                0
            }) - (if c.left {
                PX_MOVEMENT
            } else {
                0
            }),
        ),
        y: clip_spec(
            pos.y + (if c.down {
                PX_MOVEMENT
            } else {
                0
            }) - (if c.up {
                PX_MOVEMENT
            } else {
                0
            }),
        ),
    }
}

/// Advances every bullet by its velocity and ages it one tick.
pub fn step_bullets(bullets: &mut Vec<Entity>)
    requires
        forall|i: int| 0 <= i < old(bullets)@.len() ==> bullet_ok(#[trigger] old(bullets)@[i]),
    ensures
        final(bullets)@.len() == old(bullets)@.len(),
        forall|i: int|
            0 <= i < old(bullets)@.len() ==> final(bullets)@[i] == moved_bullet(
                #[trigger] old(bullets)@[i],
            ),
{
    let n = bullets.len();
    let mut i: usize = 0;
    while i < n
        invariant
            0 <= i <= n,
            bullets@.len() == n == old(bullets)@.len(),
            forall|j: int|
                0 <= j < i ==> bullets@[j] == moved_bullet(#[trigger] old(bullets)@[j]),
            forall|j: int| i <= j < n ==> bullets@[j] == old(bullets)@[j],
        decreases n - i,
    {
        let e = bullets[i];
        let ne = Entity {
            pos: Vec2i { x: clip(e.pos.x + e.vel.x), y: clip(e.pos.y + e.vel.y) },
            health: e.health - 1,
            ..e
        };
        vec_set(bullets, i, ne);
        i = i + 1;
    }
}

/// Advances every particle, ages it one tick, and applies drag to its
/// velocity on each axis.
pub fn step_particles(particles: &mut Vec<Entity>)
    requires
        forall|i: int| 0 <= i < old(particles)@.len() ==> particle_ok(#[trigger] old(particles)@[i]),
    ensures
        final(particles)@.len() == old(particles)@.len(),
        forall|i: int|
            0 <= i < old(particles)@.len() ==> final(particles)@[i] == moved_particle(
                #[trigger] old(particles)@[i],
            ),
        forall|i: int|
            0 <= i < old(particles)@.len() ==> crate::geom::vel_ok(
                moved_particle(#[trigger] old(particles)@[i]).vel,
            ),
{
    let n = particles.len();
    let mut i: usize = 0;
    while i < n
        invariant
            0 <= i <= n,
            particles@.len() == n == old(particles)@.len(),
            forall|j: int|
                0 <= j < i ==> particles@[j] == moved_particle(#[trigger] old(particles)@[j])
                    && crate::geom::vel_ok(particles@[j].vel),
            forall|j: int| i <= j < n ==> particles@[j] == old(particles)@[j],
        decreases n - i,
    {
        let e = particles[i];
        let ne = Entity {
            pos: Vec2i { x: clip(e.pos.x + e.vel.x), y: clip(e.pos.y + e.vel.y) },
            health: e.health - 1,
            vel: Vec2i {
                x: crate::entity::decay_component(e.vel.x),
                y: crate::entity::decay_component(e.vel.y),
            },
            ..e
        };
        vec_set(particles, i, ne);
        i = i + 1;
    }
}

/// Re-aims every enemy at the player at the fixed enemy speed and
/// advances it by the new velocity.
pub fn step_enemies(enemies: &mut Vec<Entity>, player_pos: Vec2i)
    requires
        coord_ok(player_pos),
        forall|i: int| 0 <= i < old(enemies)@.len() ==> enemy_ok(#[trigger] old(enemies)@[i]),
    ensures
        final(enemies)@.len() == old(enemies)@.len(),
        forall|i: int|
            0 <= i < old(enemies)@.len() ==> enemy_stepped(
                #[trigger] old(enemies)@[i],
                final(enemies)@[i],
                player_pos,
            ) && enemy_ok(final(enemies)@[i]),
{
    let n = enemies.len();
    let mut i: usize = 0;
    while i < n
        invariant
            0 <= i <= n,
            enemies@.len() == n == old(enemies)@.len(),
            forall|j: int|
                0 <= j < i ==> enemy_stepped(#[trigger] old(enemies)@[j], enemies@[j], player_pos)
                    && enemy_ok(enemies@[j]),
            forall|j: int| i <= j < n ==> enemies@[j] == old(enemies)@[j],
        decreases n - i,
    {
        let e = enemies[i];
        let rot = atan2_mrad(player_pos.y - e.pos.y, player_pos.x - e.pos.x) - HALF_PI_MRAD;
        let vel = enemy_velocity(e.pos, player_pos);
        let ne = Entity {
            pos: Vec2i { x: clip(e.pos.x + vel.x), y: clip(e.pos.y + vel.y) },
            vel,
            rotation: rot,
            ..e
        };
        vec_set(enemies, i, ne);
        i = i + 1;
    }
}

/// Moves the player by the surviving intent flags and turns it toward
/// the aim point.
pub fn step_player(player: &mut Entity, input: &Input)
    requires
        player_ok(*old(player)),
        coord_ok(input.aim),
    ensures
        player_ok(*final(player)),
        final(player).pos == player_step(old(player).pos, *input),
        final(player).rotation == atan2_spec(
            input.aim.y - player_step(old(player).pos, *input).y,
            input.aim.x - player_step(old(player).pos, *input).x,
        ) - HALF_PI_MRAD,
        final(player).kind == old(player).kind,
        final(player).health == old(player).health,
        final(player).vel == old(player).vel,
        final(player).frame == old(player).frame,
        final(player).frame_time == old(player).frame_time,
{
    let eff_left = input.left && !(player.pos.x < 0);
    let eff_up = input.up && !(player.pos.y < 0);
    let eff_right = input.right && !(player.pos.x > WIN_W);
    let eff_down = input.down && !(player.pos.y > WIN_H);
    let dx = (if eff_right {
        PX_MOVEMENT
    } else {
        0
    }) - (if eff_left {
        PX_MOVEMENT
    } else {
        0
    });
    let dy = (if eff_down {
        PX_MOVEMENT
    } else {
        0
    }) - (if eff_up {
        PX_MOVEMENT
    } else {
        0
    });
    player.pos = Vec2i { x: clip(player.pos.x + dx), y: clip(player.pos.y + dy) };
    player.rotation = atan2_mrad(input.aim.y - player.pos.y, input.aim.x - player.pos.x)
        - HALF_PI_MRAD;
}

fn retain_bullets(v: &mut Vec<Entity>)
    ensures
        final(v)@ == keep_bullets(old(v)@),
{
    let n = v.len();
    let mut out: Vec<Entity> = Vec::new();
    let mut i: usize = 0;
    while i < n
        invariant
            0 <= i <= n,
            n == v@.len(),
            v@ == old(v)@,
            out@ == keep_bullets(v@.take(i as int)),
        decreases n - i,
    {
        proof {
            assert(v@.take(i + 1).drop_last() =~= v@.take(i as int));
            assert(v@.take(i + 1).last() == v@[i as int]);
        }
        let e = v[i];
        if e.health > 0 {
            out.push(e);
        }
        i = i + 1;
    }
    proof {
        assert(v@.take(n as int) =~= v@);
    }
    *v = out;
}

fn retain_enemies(v: &mut Vec<Entity>)
    ensures
        final(v)@ == keep_enemies(old(v)@),
{
    let n = v.len();
    let mut out: Vec<Entity> = Vec::new();
    let mut i: usize = 0;
    while i < n
        invariant
            0 <= i <= n,
            n == v@.len(),
            v@ == old(v)@,
            out@ == keep_enemies(v@.take(i as int)),
        decreases n - i,
    {
        proof {
            assert(v@.take(i + 1).drop_last() =~= v@.take(i as int));
            assert(v@.take(i + 1).last() == v@[i as int]);
        }
        let e = v[i];
        if e.health == 1 {
            out.push(e);
        }
        i = i + 1;
    }
    proof {
        assert(v@.take(n as int) =~= v@);
    }
    *v = out;
}

fn retain_particles(v: &mut Vec<Entity>)
    ensures
        final(v)@ == keep_particles(old(v)@),
{
    let n = v.len();
    let mut out: Vec<Entity> = Vec::new();
    let mut i: usize = 0;
    while i < n
        invariant
            0 <= i <= n,
            n == v@.len(),
            v@ == old(v)@,
            out@ == keep_particles(v@.take(i as int)),
        decreases n - i,
    {
        proof {
            assert(v@.take(i + 1).drop_last() =~= v@.take(i as int));
            assert(v@.take(i + 1).last() == v@[i as int]);
        }
        let e = v[i];
        if e.health > 0 {
            out.push(e);
        }
        i = i + 1;
    }
    proof {
        assert(v@.take(n as int) =~= v@);
    }
    *v = out;
}

/// Appends one fan of bullets around the player's rotation, one bullet
/// per offset.
fn spawn_bullets(bullets: &mut Vec<Entity>, player: &Entity, offsets: &Vec<i64>)
    requires
        player_ok(*player),
        forall|k: int|
            0 <= k < offsets@.len() ==> -HALF_SPREAD <= #[trigger] offsets@[k] <= HALF_SPREAD,
    ensures
        final(bullets)@.len() == old(bullets)@.len() + offsets@.len(),
        forall|j: int| 0 <= j < old(bullets)@.len() ==> final(bullets)@[j] == old(bullets)@[j],
        forall|k: int|
            0 <= k < offsets@.len() ==> fresh_bullet(
                #[trigger] final(bullets)@[old(bullets)@.len() + k],
                *player,
                offsets@[k],
            ),
{
    let ghost b0 = bullets@;
    let m = offsets.len();
    let mut k: usize = 0;
    while k < m
        invariant
            0 <= k <= m,
            m == offsets@.len(),
            bullets@.len() == b0.len() + k,
            forall|j: int| 0 <= j < b0.len() ==> bullets@[j] == b0[j],
            forall|t: int|
                0 <= t < k ==> fresh_bullet(#[trigger] bullets@[b0.len() + t], *player, offsets@[t]),
        decreases m - k,
    {
        let off = offsets[k];
        let rot = player.rotation + off;
        let dir = vec_from_angle(-rot);
        let b = Entity {
            kind: EntityKind::Bullet,
            pos: Vec2i {
                x: clip(player.pos.x + dir.x * BULLET_OFFSET),
                y: clip(player.pos.y + dir.y * BULLET_OFFSET),
            },
            vel: Vec2i { x: dir.x * BULLET_SPEED, y: dir.y * BULLET_SPEED },
            health: BULLET_TIME,
            rotation: rot,
            frame: 0,
            frame_time: 0,
        };
        bullets.push(b);
        k = k + 1;
    }
}

impl MainState {
    /// The opening state: the player centered and at full health, no
    /// other entities, the pistol owned and equipped, the spawn counter
    /// running.
    pub fn new() -> (s: MainState)
        ensures
            wf(s),
            s.player.health == PLAYER_START_HEALTH,
            s.player.pos == (Vec2i { x: 640000, y: 360000 }),
            s.player.vel == (Vec2i { x: 0, y: 0 }),
            s.player.rotation == 0,
            s.bullets@.len() == 0,
            s.enemies@.len() == 0,
            s.particles@.len() == 0,
            s.reloading == 0,
            s.counter == ENEMY_COOLDOWN,
            s.currency == 0,
            s.equipped == Weapon::Pistol,
            s.owns_pistol && !s.owns_shotgun && !s.owns_rifle,
            s.phase == Phase::Running,
            s.resume_counter == 0,
    {
        MainState {
            player: Entity {
                kind: EntityKind::Player,
                pos: Vec2i { x: 640000, y: 360000 },
                vel: Vec2i { x: 0, y: 0 },
                health: PLAYER_START_HEALTH,
                rotation: 0,
                frame: 0,
                frame_time: 0,
            },
            bullets: Vec::new(),
            enemies: Vec::new(),
            particles: Vec::new(),
            reloading: 0,
            counter: ENEMY_COOLDOWN,
            currency: 0,
            equipped: Weapon::Pistol,
            owns_pistol: true,
            owns_shotgun: false,
            owns_rifle: false,
            phase: Phase::Running,
            resume_counter: 0,
        }
    }

    /// Prunes expired bullets, dead enemies and exhausted particles,
    /// and touches nothing else.
    pub fn clear_entities(&mut self)
        ensures
            final(self).bullets@ == keep_bullets(old(self).bullets@),
            final(self).enemies@ == keep_enemies(old(self).enemies@),
            final(self).particles@ == keep_particles(old(self).particles@),
            final(self).player == old(self).player,
            final(self).reloading == old(self).reloading,
            final(self).counter == old(self).counter,
            final(self).currency == old(self).currency,
            final(self).equipped == old(self).equipped,
            final(self).owns_pistol == old(self).owns_pistol,
            final(self).owns_shotgun == old(self).owns_shotgun,
            final(self).owns_rifle == old(self).owns_rifle,
            final(self).phase == old(self).phase,
            final(self).resume_counter == old(self).resume_counter,
    {
        retain_bullets(&mut self.bullets);
        retain_enemies(&mut self.enemies);
        retain_particles(&mut self.particles);
    }

    /// Fires one fan of bullets with the given spread offsets and
    /// starts the equipped weapon's reload cooldown.
    pub fn fire_shot_with(&mut self, offsets: &Vec<i64>)
        requires
            player_ok(old(self).player),
            forall|k: int|
                0 <= k < offsets@.len() ==> -HALF_SPREAD <= #[trigger] offsets@[k] <= HALF_SPREAD,
        ensures
            final(self).bullets@.len() == old(self).bullets@.len() + offsets@.len(),
            forall|j: int|
                0 <= j < old(self).bullets@.len() ==> final(self).bullets@[j] == old(self).bullets@[j],
            forall|k: int|
                0 <= k < offsets@.len() ==> fresh_bullet(
                    #[trigger] final(self).bullets@[old(self).bullets@.len() + k],
                    old(self).player,
                    offsets@[k],
                ),
            final(self).reloading == reload_time_spec(old(self).equipped),
            final(self).player == old(self).player,
            final(self).enemies == old(self).enemies,
            final(self).particles == old(self).particles,
            final(self).counter == old(self).counter,
            final(self).currency == old(self).currency,
            final(self).equipped == old(self).equipped,
            final(self).owns_pistol == old(self).owns_pistol,
            final(self).owns_shotgun == old(self).owns_shotgun,
            final(self).owns_rifle == old(self).owns_rifle,
            final(self).phase == old(self).phase,
            final(self).resume_counter == old(self).resume_counter,
    {
        spawn_bullets(&mut self.bullets, &self.player, offsets);
        let w = self.equipped;
        self.reloading = reload_time(w);
    }

    /// Fires one fan of bullets with random spread offsets.
    pub fn fire_shot(&mut self)
        requires
            player_ok(old(self).player),
        ensures
            final(self).bullets@.len() == old(self).bullets@.len() + BULLETS_SHOT,
            forall|j: int|
                0 <= j < old(self).bullets@.len() ==> final(self).bullets@[j] == old(self).bullets@[j],
            forall|k: int|
                old(self).bullets@.len() <= k < final(self).bullets@.len() ==> bullet_ok(
                    #[trigger] final(self).bullets@[k],
                ) && final(self).bullets@[k].health == BULLET_TIME && old(self).player.rotation
                    - HALF_SPREAD <= final(self).bullets@[k].rotation <= old(self).player.rotation
                    + HALF_SPREAD && fan_bullet(final(self).bullets@[k], old(self).player.pos),
            final(self).reloading == reload_time_spec(old(self).equipped),
            final(self).player == old(self).player,
            final(self).enemies == old(self).enemies,
            final(self).particles == old(self).particles,
            final(self).counter == old(self).counter,
            final(self).currency == old(self).currency,
            final(self).equipped == old(self).equipped,
            final(self).owns_pistol == old(self).owns_pistol,
            final(self).owns_shotgun == old(self).owns_shotgun,
            final(self).owns_rifle == old(self).owns_rifle,
            final(self).phase == old(self).phase,
            final(self).resume_counter == old(self).resume_counter,
    {
        let mut offs: Vec<i64> = Vec::new();
        let mut k: usize = 0;
        while k < BULLETS_SHOT
            invariant
                0 <= k <= BULLETS_SHOT,
                offs@.len() == k,
                forall|t: int| 0 <= t < k ==> -HALF_SPREAD <= #[trigger] offs@[t] <= HALF_SPREAD,
            decreases BULLETS_SHOT - k,
        {
            offs.push(rand_in_range(-HALF_SPREAD, HALF_SPREAD));
            k = k + 1;
        }
        self.fire_shot_with(&offs);
        proof {
            assert forall|k2: int|
                old(self).bullets@.len() <= k2 < self.bullets@.len() implies bullet_ok(
                #[trigger] self.bullets@[k2],
            ) && self.bullets@[k2].health == BULLET_TIME && old(self).player.rotation - HALF_SPREAD
                <= self.bullets@[k2].rotation <= old(self).player.rotation + HALF_SPREAD
                && fan_bullet(self.bullets@[k2], old(self).player.pos) by {
                let t = k2 - old(self).bullets@.len();
                assert(fresh_bullet(
                    self.bullets@[old(self).bullets@.len() + t],
                    old(self).player,
                    offs@[t],
                ));
            }
        }
    }

    /// Spawns one enemy on the chosen vertical world edge, aimed at the
    /// player, and restarts the spawn countdown; a full collection only
    /// restarts the countdown.
    pub fn spawn_enemy_at(&mut self, on_left: bool, y: i64)
        requires
            player_ok(old(self).player),
            0 <= y <= WIN_H,
        ensures
            final(self).counter == ENEMY_COOLDOWN,
            old(self).enemies@.len() < ENEMY_CAP ==> final(self).enemies@.len() == old(self).enemies@.len() + 1 && fresh_enemy(
                final(self).enemies@.last(),
                on_left,
                y,
                old(self).player,
            ),
            old(self).enemies@.len() >= ENEMY_CAP ==> final(self).enemies == old(self).enemies,
            forall|j: int|
                0 <= j < old(self).enemies@.len() && j < final(self).enemies@.len() ==> final(self).enemies@[j] == old(self).enemies@[j],
            final(self).player == old(self).player,
            final(self).bullets == old(self).bullets,
            final(self).particles == old(self).particles,
            final(self).reloading == old(self).reloading,
            final(self).currency == old(self).currency,
            final(self).equipped == old(self).equipped,
            final(self).owns_pistol == old(self).owns_pistol,
            final(self).owns_shotgun == old(self).owns_shotgun,
            final(self).owns_rifle == old(self).owns_rifle,
            final(self).phase == old(self).phase,
            final(self).resume_counter == old(self).resume_counter,
    {
        if self.enemies.len() < ENEMY_CAP {
            let x: i64 = if on_left {
                0
            } else {
                WIN_W
            };
            let pos = Vec2i { x, y };
            let rot = atan2_mrad(self.player.pos.y - y, self.player.pos.x - x) - HALF_PI_MRAD;
            let vel = enemy_velocity(pos, self.player.pos);
            let e = Entity {
                kind: EntityKind::Enemy,
                pos,
                vel,
                health: 1,
                rotation: rot,
                frame: 0,
                frame_time: 0,
            };
            self.enemies.push(e);
        }
        self.counter = ENEMY_COOLDOWN;
    }

    /// Spawns one enemy at a random spot on one of the two vertical
    /// world edges and restarts the spawn countdown.
    pub fn spawn_enemy(&mut self)
        requires
            player_ok(old(self).player),
        ensures
            final(self).counter == ENEMY_COOLDOWN,
            old(self).enemies@.len() < ENEMY_CAP ==> final(self).enemies@.len() == old(self).enemies@.len() + 1 && enemy_ok(final(self).enemies@.last()) && (final(self).enemies@.last().pos.x == 0 || final(self).enemies@.last().pos.x == WIN_W) && 0
                <= final(self).enemies@.last().pos.y <= WIN_H && aimed_at(
                final(self).enemies@.last().vel,
                final(self).enemies@.last().pos,
                old(self).player.pos,
            ),
            old(self).enemies@.len() >= ENEMY_CAP ==> final(self).enemies == old(self).enemies,
            forall|j: int|
                0 <= j < old(self).enemies@.len() && j < final(self).enemies@.len() ==> final(self).enemies@[j] == old(self).enemies@[j],
            final(self).player == old(self).player,
            final(self).bullets == old(self).bullets,
            final(self).particles == old(self).particles,
            final(self).reloading == old(self).reloading,
            final(self).currency == old(self).currency,
            final(self).equipped == old(self).equipped,
            final(self).owns_pistol == old(self).owns_pistol,
            final(self).owns_shotgun == old(self).owns_shotgun,
            final(self).owns_rifle == old(self).owns_rifle,
            final(self).phase == old(self).phase,
            final(self).resume_counter == old(self).resume_counter,
    {
        let side = rand_in_range(0, 1);
        let y = rand_in_range(0, WIN_H);
        self.spawn_enemy_at(side == 0, y);
    }

    /// Switches weapons in the shop: free if owned; an unowned weapon is
    /// bought, owned and equipped exactly when the currency covers the
    /// fixed cost, and nothing changes otherwise.  Only the pause menu
    /// can switch.
    pub fn switch_weapon(&mut self, w: Weapon)
        ensures
            old(self).phase != Phase::Paused ==> *final(self) == *old(self),
            old(self).phase == Phase::Paused && owns_spec(*old(self), w) ==> final(self).equipped
                == w && final(self).currency == old(self).currency && owns_spec(*final(self), w)
                && final(self).owns_pistol == old(self).owns_pistol && final(self).owns_shotgun
                == old(self).owns_shotgun && final(self).owns_rifle == old(self).owns_rifle,
            old(self).phase == Phase::Paused && !owns_spec(*old(self), w) && old(self).currency
                >= WEAPON_COST ==> final(self).equipped == w && final(self).currency == old(self).currency - WEAPON_COST && owns_spec(*final(self), w),
            old(self).phase == Phase::Paused && !owns_spec(*old(self), w) && old(self).currency
                < WEAPON_COST ==> *final(self) == *old(self),
            final(self).player == old(self).player,
            final(self).bullets == old(self).bullets,
            final(self).enemies == old(self).enemies,
            final(self).particles == old(self).particles,
            final(self).reloading == old(self).reloading,
            final(self).counter == old(self).counter,
            final(self).phase == old(self).phase,
            final(self).resume_counter == old(self).resume_counter,
            owns_spec(*old(self), Weapon::Pistol) ==> owns_spec(*final(self), Weapon::Pistol),
            owns_spec(*old(self), old(self).equipped) ==> owns_spec(
                *final(self),
                final(self).equipped,
            ),
    {
        if !matches!(self.phase, Phase::Paused) {
            return ;
        }
        let owned = match w {
            Weapon::Pistol => self.owns_pistol,
            Weapon::Shotgun => self.owns_shotgun,
            Weapon::Rifle => self.owns_rifle,
        };
        if owned {
            self.equipped = w;
        } else if self.currency >= WEAPON_COST {
            self.currency = self.currency - WEAPON_COST;
            match w {
                Weapon::Pistol => {
                    self.owns_pistol = true;
                },
                Weapon::Shotgun => {
                    self.owns_shotgun = true;
                },
                Weapon::Rifle => {
                    self.owns_rifle = true;
                },
            }
            self.equipped = w;
        }
    }

    /// One collision pass: the frame's index is built from the enemy
    /// boxes, every bullet and then the player are resolved against it,
    /// and the membership of no collection changes until the pass is
    /// over.  Every enemy some bullet hits or the player overlaps dies;
    /// a bullet that hit anything expires; one currency unit is earned
    /// per bullet-enemy hit pair; a fixed fan of full-lifetime particles
    /// is spawned per hit pair; the player loses the fixed damage per
    /// overlap, floored at zero.
    pub fn handle_collisions(&mut self)
        requires
            player_ok(old(self).player),
            forall|i: int|
                0 <= i < old(self).bullets@.len() ==> bullet_frame_ok(
                    #[trigger] old(self).bullets@[i],
                ),
            forall|i: int|
                0 <= i < old(self).enemies@.len() ==> enemy_frame_ok(
                    #[trigger] old(self).enemies@[i],
                ),
            forall|i: int|
                0 <= i < old(self).particles@.len() ==> particle_frame_ok(
                    #[trigger] old(self).particles@[i],
                ),
            old(self).enemies@.len() <= ENEMY_CAP,
        ensures
            final(self).enemies@.len() == old(self).enemies@.len(),
            forall|i: int|
                0 <= i < old(self).enemies@.len() ==> final(self).enemies@[i] == killed_if(
                    #[trigger] old(self).enemies@[i],
                    enemy_killed(old(self).bullets@, old(self).player, old(self).enemies@[i]),
                ),
            final(self).bullets@.len() == old(self).bullets@.len(),
            forall|j: int|
                0 <= j < old(self).bullets@.len() ==> final(self).bullets@[j] == killed_if(
                    #[trigger] old(self).bullets@[j],
                    count_hits(old(self).bullets@[j].pos, BULLET_W2, ENEMY_W2, old(self).enemies@)
                        > 0,
                ),
            final(self).currency == sat_add64(
                old(self).currency,
                total_bullet_hits(old(self).bullets@, old(self).enemies@),
            ),
            final(self).player == (Entity {
                health: chip(
                    old(self).player.health,
                    count_hits(old(self).player.pos, PLAYER_W2, PLAYER_W2, old(self).enemies@),
                ),
                ..old(self).player
            }),
            final(self).particles@.len() == old(self).particles@.len() + PARTICLES_PER_HIT
                * total_bullet_hits(old(self).bullets@, old(self).enemies@),
            forall|j: int|
                0 <= j < old(self).particles@.len() ==> final(self).particles@[j] == old(self).particles@[j],
            forall|j: int|
                old(self).particles@.len() <= j < final(self).particles@.len() ==> particle_ok(
                    #[trigger] final(self).particles@[j],
                ) && final(self).particles@[j].health == PARTICLE_HEALTH && (exists|t: int|
                    0 <= t < old(self).bullets@.len() && spawned_ok(
                        final(self).particles@[j],
                        old(self).bullets@[t],
                    )),
            final(self).reloading == old(self).reloading,
            final(self).counter == old(self).counter,
            final(self).equipped == old(self).equipped,
            final(self).owns_pistol == old(self).owns_pistol,
            final(self).owns_shotgun == old(self).owns_shotgun,
            final(self).owns_rifle == old(self).owns_rifle,
            final(self).phase == old(self).phase,
            final(self).resume_counter == old(self).resume_counter,
    {
        let ghost es0 = self.enemies@;
        let ghost bs0 = self.bullets@;
        let ghost p0 = self.particles@;
        let ghost c0 = self.currency;
        let ghost pl0 = self.player;
        let n = self.enemies.len();
        let mut values: Vec<Value> = Vec::new();
        let mut i: usize = 0;
        while i < n
            invariant
                0 <= i <= n,
                self.enemies@ == es0,
                n == es0.len(),
                values@ == mk_entries(es0.take(i as int)),
            decreases n - i,
        {
            let e = self.enemies[i];
            let v = Value::new(box_at(e.pos, ENEMY_W2), i as u16);
            values.push(v);
            proof {
                assert(mk_entries(es0.take(i + 1)) =~= mk_entries(es0.take(i as int)).push(v));
            }
            i = i + 1;
        }
        proof {
            assert(es0.take(n as int) =~= es0);
        }
        let idx = SpatialIndex::build(&values);
        let bn = self.bullets.len();
        let mut j: usize = 0;
        while j < bn
            invariant
                0 <= j <= bn,
                bn == bs0.len(),
                idx.wf(),
                idx.entries() == mk_entries(es0),
                self.bullets@.len() == bs0.len(),
                self.player == pl0,
                self.reloading == old(self).reloading,
                self.counter == old(self).counter,
                self.equipped == old(self).equipped,
                self.owns_pistol == old(self).owns_pistol,
                self.owns_shotgun == old(self).owns_shotgun,
                self.owns_rifle == old(self).owns_rifle,
                self.phase == old(self).phase,
                self.resume_counter == old(self).resume_counter,
                self.enemies@.len() == es0.len(),
                forall|i2: int|
                    0 <= i2 < es0.len() ==> self.enemies@[i2] == killed_if(
                        #[trigger] es0[i2],
                        hit_by_any(bs0.take(j as int), es0[i2]),
                    ),
                forall|j2: int|
                    0 <= j2 < j ==> self.bullets@[j2] == killed_if(
                        #[trigger] bs0[j2],
                        count_hits(bs0[j2].pos, BULLET_W2, ENEMY_W2, es0) > 0,
                    ),
                forall|j2: int| j <= j2 < bn ==> self.bullets@[j2] == bs0[j2],
                self.currency == sat_add64(c0, total_bullet_hits(bs0.take(j as int), es0)),
                self.particles@.len() == p0.len() + PARTICLES_PER_HIT * total_bullet_hits(
                    bs0.take(j as int),
                    es0,
                ),
                forall|t: int| 0 <= t < p0.len() ==> self.particles@[t] == p0[t],
                forall|t: int|
                    p0.len() <= t < self.particles@.len() ==> particle_ok(
                        #[trigger] self.particles@[t],
                    ) && self.particles@[t].health == PARTICLE_HEALTH && (exists|w: int|
                        0 <= w < j && spawned_ok(self.particles@[t], bs0[w])),
            decreases bn - j,
        {
            let ghost es_before = self.enemies@;
            proof {
                assert forall|i2: int| 0 <= i2 < es0.len() implies (#[trigger] es_before[i2]).pos
                    == es0[i2].pos && enemy_frame_ok(es_before[i2]) by {
                    assert(es_before[i2] == killed_if(es0[i2], hit_by_any(bs0.take(j as int),
                    es0[i2])));
                }
                assert(mk_entries(es_before) =~= mk_entries(es0));
                assert(self.bullets@[j as int] == bs0[j as int]);
                assert(bullet_frame_ok(old(self).bullets@[j as int]));
            }
            let mut b = self.bullets[j];
            let ghost parts_before = self.particles@;
            resolve_bullet(&idx, &mut b, &mut self.enemies, &mut self.particles, &mut self.currency);
            vec_set(&mut self.bullets, j, b);
            proof {
                let jj = j as int;
                assert forall|t: int|
                    p0.len() <= t < self.particles@.len() implies particle_ok(
                    #[trigger] self.particles@[t],
                ) && (exists|w: int| 0 <= w < jj + 1 && spawned_ok(self.particles@[t], bs0[w])) by {
                    if t < parts_before.len() {
                        assert(self.particles@[t] == parts_before[t]);
                        let w = choose|w: int| 0 <= w < jj && spawned_ok(parts_before[t], bs0[w]);
                        assert(spawned_ok(self.particles@[t], bs0[w]));
                    } else {
                        assert(spawned_ok(self.particles@[t], bs0[jj]));
                    }
                }
                assert(bs0.take(jj + 1).drop_last() =~= bs0.take(jj));
                assert(bs0.take(jj + 1).last() == bs0[jj]);
                lemma_count_hits_same_pos(bs0[jj].pos, BULLET_W2, ENEMY_W2, es_before, es0);
                let cj = count_hits(bs0[jj].pos, BULLET_W2, ENEMY_W2, es0);
                let tj = total_bullet_hits(bs0.take(jj), es0);
                assert(total_bullet_hits(bs0.take(jj + 1), es0) == tj + cj);
                lemma_sat_add_assoc(c0, tj, cj);
                assert forall|i2: int| 0 <= i2 < es0.len() implies self.enemies@[i2] == killed_if(
                    #[trigger] es0[i2],
                    hit_by_any(bs0.take(jj + 1), es0[i2]),
                ) by {
                    assert(self.enemies@[i2] == killed_if(
                        es_before[i2],
                        hit(bs0[jj].pos, BULLET_W2, ENEMY_W2, es_before[i2]),
                    ));
                    assert(es_before[i2].pos == es0[i2].pos);
                    assert(hit(bs0[jj].pos, BULLET_W2, ENEMY_W2, es_before[i2]) == hit(
                        bs0[jj].pos,
                        BULLET_W2,
                        ENEMY_W2,
                        es0[i2],
                    ));
                    if hit_by_any(bs0.take(jj + 1), es0[i2]) {
                        let w = choose|w: int|
                            0 <= w < bs0.take(jj + 1).len() && hit(
                                (#[trigger] bs0.take(jj + 1)[w]).pos,
                                BULLET_W2,
                                ENEMY_W2,
                                es0[i2],
                            );
                        if w < jj {
                            assert(bs0.take(jj)[w] == bs0.take(jj + 1)[w]);
                            assert(hit_by_any(bs0.take(jj), es0[i2]));
                        } else {
                            assert(bs0.take(jj + 1)[w] == bs0[jj]);
                        }
                    }
                    if hit_by_any(bs0.take(jj), es0[i2]) {
                        let w = choose|w: int|
                            0 <= w < bs0.take(jj).len() && hit(
                                (#[trigger] bs0.take(jj)[w]).pos,
                                BULLET_W2,
                                ENEMY_W2,
                                es0[i2],
                            );
                        assert(bs0.take(jj + 1)[w] == bs0.take(jj)[w]);
                        assert(hit_by_any(bs0.take(jj + 1), es0[i2]));
                    }
                    if hit(bs0[jj].pos, BULLET_W2, ENEMY_W2, es0[i2]) {
                        assert(bs0.take(jj + 1)[jj] == bs0[jj]);
                        assert(hit_by_any(bs0.take(jj + 1), es0[i2]));
                    }
                }
            }
            j = j + 1;
        }
        proof {
            assert(bs0.take(bn as int) =~= bs0);
        }
        let ghost es_mid = self.enemies@;
        proof {
            assert forall|i2: int| 0 <= i2 < es0.len() implies (#[trigger] es_mid[i2]).pos
                == es0[i2].pos && coord_ok(es_mid[i2].pos) by {
                assert(es_mid[i2] == killed_if(es0[i2], hit_by_any(bs0, es0[i2])));
            }
            assert(mk_entries(es_mid) =~= mk_entries(es0));
        }
        let mut pl = self.player;
        resolve_player(&idx, &mut pl, &mut self.enemies);
        self.player = pl;
        proof {
            lemma_count_hits_same_pos(pl0.pos, PLAYER_W2, PLAYER_W2, es_mid, es0);
            assert forall|i2: int| 0 <= i2 < es0.len() implies self.enemies@[i2] == killed_if(
                #[trigger] es0[i2],
                enemy_killed(bs0, pl0, es0[i2]),
            ) by {
                assert(self.enemies@[i2] == killed_if(
                    es_mid[i2],
                    hit(pl0.pos, PLAYER_W2, PLAYER_W2, es_mid[i2]),
                ));
                assert(hit(pl0.pos, PLAYER_W2, PLAYER_W2, es_mid[i2]) == hit(
                    pl0.pos,
                    PLAYER_W2,
                    PLAYER_W2,
                    es0[i2],
                ));
            }
        }
    }
}

/// The bullet collection after one movement step, element-wise.
pub open spec fn moved_bullets(s: Seq<Entity>) -> Seq<Entity> {
    Seq::new(s.len(), |i: int| moved_bullet(s[i]))
}

/// The particle collection after one movement step, element-wise.
pub open spec fn moved_particles(s: Seq<Entity>) -> Seq<Entity> {
    Seq::new(s.len(), |i: int| moved_particle(s[i]))
}

/// The bullets after the collision pass against the stepped enemies:
/// each expires exactly when it hits at least one of them.
pub open spec fn collided_bullets(mb: Seq<Entity>, es1: Seq<Entity>) -> Seq<Entity> {
    Seq::new(
        mb.len(),
        |j: int| killed_if(mb[j], count_hits(mb[j].pos, BULLET_W2, ENEMY_W2, es1) > 0),
    )
}

/// The enemies after the collision pass: each dies exactly when some
/// moved bullet hits it or the moved player overlaps it.
pub open spec fn collided_enemies(es1: Seq<Entity>, mb: Seq<Entity>, moved_player: Entity) -> Seq<
    Entity,
> {
    Seq::new(es1.len(), |i: int| killed_if(es1[i], enemy_killed(mb, moved_player, es1[i])))
}

/// The entity phase of one running tick, from state `pre` to state
/// `post` under input `inp`: movement, collision resolution against the
/// stepped enemies `es1`, then cleanup; counters, currency aside, stay.
pub open spec fn sim_phase(pre: MainState, post: MainState, inp: Input, es1: Seq<Entity>) -> bool {
    let pp = player_step(pre.player.pos, inp);
    let moved_player = Entity { pos: pp, ..pre.player };
    let mb = moved_bullets(pre.bullets@);
    let mp = moved_particles(pre.particles@);
    let kb = keep_bullets(collided_bullets(mb, es1));
    let ke = keep_enemies(collided_enemies(es1, mb, moved_player));
    let kp = keep_particles(mp);
    &&& es1.len() == pre.enemies@.len()
    &&& forall|i: int| 0 <= i < es1.len() ==> enemy_stepped(#[trigger] pre.enemies@[i], es1[i], pp)
    &&& post.player.pos == pp
    &&& post.player.rotation == atan2_spec(inp.aim.y - pp.y, inp.aim.x - pp.x) - HALF_PI_MRAD
    &&& post.player.health == chip(pre.player.health, count_hits(pp, PLAYER_W2, PLAYER_W2, es1))
    &&& post.player.kind == pre.player.kind
    &&& post.player.vel == pre.player.vel
    &&& post.player.frame == pre.player.frame
    &&& post.player.frame_time == pre.player.frame_time
    &&& post.bullets@ == kb
    &&& post.enemies@ == ke
    &&& post.particles@.len() == kp.len() + PARTICLES_PER_HIT * total_bullet_hits(mb, es1)
    &&& post.particles@.subrange(0, kp.len() as int) == kp
    &&& (forall|k: int|
        kp.len() <= k < post.particles@.len() ==> exists|t: int|
            0 <= t < mb.len() && spawned_ok(#[trigger] post.particles@[k], mb[t]))
    &&& post.currency == sat_add64(pre.currency, total_bullet_hits(mb, es1))
    &&& post.reloading == pre.reloading
    &&& post.counter == pre.counter
    &&& post.equipped == pre.equipped
    &&& post.owns_pistol == pre.owns_pistol
    &&& post.owns_shotgun == pre.owns_shotgun
    &&& post.owns_rifle == pre.owns_rifle
    &&& post.phase == pre.phase
    &&& post.resume_counter == pre.resume_counter
}

/// What one running, unpaused tick does, from state `pre` to state
/// `post` under input `inp`.  `es1` stands for the enemies right after
/// the movement phase: their re-aimed velocities come out of the integer
/// normalizer, so the tick fixes them relationally through
/// `enemy_stepped` and states everything downstream of them exactly.
pub open spec fn running_tick(pre: MainState, post: MainState, inp: Input, es1: Seq<Entity>) -> bool {
    let pp = player_step(pre.player.pos, inp);
    let moved_player = Entity { pos: pp, ..pre.player };
    let mb = moved_bullets(pre.bullets@);
    let mp = moved_particles(pre.particles@);
    let kb = keep_bullets(collided_bullets(mb, es1));
    let ke = keep_enemies(collided_enemies(es1, mb, moved_player));
    let kp = keep_particles(mp);
    let fired = sat_dec16(pre.reloading) == 0 && inp.fire;
    let spawned = sat_dec16(pre.counter) == 0;
    &&& es1.len() == pre.enemies@.len()
    &&& forall|i: int| 0 <= i < es1.len() ==> enemy_stepped(#[trigger] pre.enemies@[i], es1[i], pp)
    &&& post.player.pos == pp
    &&& post.player.rotation == atan2_spec(inp.aim.y - pp.y, inp.aim.x - pp.x) - HALF_PI_MRAD
    &&& post.player.health == chip(pre.player.health, count_hits(pp, PLAYER_W2, PLAYER_W2, es1))
    &&& post.player.kind == pre.player.kind
    &&& post.player.vel == pre.player.vel
    &&& post.player.frame == pre.player.frame
    &&& post.player.frame_time == pre.player.frame_time
    &&& (!fired ==> post.bullets@ == kb)
    &&& (fired ==> post.bullets@.len() == kb.len() + BULLETS_SHOT && post.bullets@.subrange(
        0,
        kb.len() as int,
    ) == kb && (forall|k: int|
        kb.len() <= k < post.bullets@.len() ==> bullet_ok(#[trigger] post.bullets@[k])
            && post.bullets@[k].health == BULLET_TIME && post.player.rotation - HALF_SPREAD
            <= post.bullets@[k].rotation <= post.player.rotation + HALF_SPREAD && fan_bullet(
            post.bullets@[k],
            pp,
        )))
    &&& (!spawned ==> post.enemies@ == ke)
    &&& (spawned && ke.len() < ENEMY_CAP ==> post.enemies@.len() == ke.len() + 1
        && post.enemies@.subrange(0, ke.len() as int) == ke && enemy_ok(post.enemies@.last()) && (
    post.enemies@.last().pos.x == 0 || post.enemies@.last().pos.x == WIN_W) && 0
        <= post.enemies@.last().pos.y <= WIN_H && aimed_at(
        post.enemies@.last().vel,
        post.enemies@.last().pos,
        pp,
    ))
    &&& (spawned && ke.len() >= ENEMY_CAP ==> post.enemies@ == ke)
    &&& post.particles@.len() == kp.len() + PARTICLES_PER_HIT * total_bullet_hits(mb, es1)
    &&& post.particles@.subrange(0, kp.len() as int) == kp
    &&& (forall|k: int|
        kp.len() <= k < post.particles@.len() ==> exists|t: int|
            0 <= t < mb.len() && spawned_ok(#[trigger] post.particles@[k], mb[t]))
    &&& post.currency == sat_add64(pre.currency, total_bullet_hits(mb, es1))
    &&& post.reloading == (if fired {
        reload_time_spec(pre.equipped)
    } else {
        sat_dec16(pre.reloading)
    })
    &&& post.counter == (if spawned {
        ENEMY_COOLDOWN
    } else {
        sat_dec16(pre.counter)
    })
    &&& post.equipped == pre.equipped
    &&& post.owns_pistol == pre.owns_pistol
    &&& post.owns_shotgun == pre.owns_shotgun
    &&& post.owns_rifle == pre.owns_rifle
    &&& post.phase == Phase::Running
    &&& post.resume_counter == pre.resume_counter
}

/// Nothing of the simulation proper moved: the pause machinery may have
/// advanced, everything else is as it was.
pub open spec fn sim_frozen(a: MainState, b: MainState) -> bool {
    b.player == a.player && b.bullets == a.bullets && b.enemies == a.enemies && b.particles
        == a.particles && b.currency == a.currency && b.reloading == a.reloading && b.counter
        == a.counter && b.equipped == a.equipped && b.owns_pistol == a.owns_pistol
        && b.owns_shotgun == a.owns_shotgun && b.owns_rifle == a.owns_rifle
}

impl MainState {
    /// The entity phase of one running tick: the boundary-clamped player
    /// move and aim, bullet, particle and enemy integration, the
    /// collision pass against the frame's index, and the cleanup that
    /// prunes what died.  Counters and the shop stay untouched.
    #[verifier::rlimit(100)]
    pub fn advance_entities(&mut self, input: &Input)
        requires
            wf(*old(self)),
            coord_ok(input.aim),
        ensures
            exists|es1: Seq<Entity>| sim_phase(*old(self), *final(self), *input, es1),
            player_ok(final(self).player),
            forall|i: int|
                0 <= i < final(self).bullets@.len() ==> bullet_ok(#[trigger] final(self).bullets@[i]),
            forall|i: int|
                0 <= i < final(self).enemies@.len() ==> enemy_ok(#[trigger] final(self).enemies@[i]),
            forall|i: int|
                0 <= i < final(self).particles@.len() ==> particle_ok(
                    #[trigger] final(self).particles@[i],
                ),
            final(self).enemies@.len() <= old(self).enemies@.len(),
            final(self).reloading == old(self).reloading,
            final(self).counter == old(self).counter,
            final(self).equipped == old(self).equipped,
            final(self).owns_pistol == old(self).owns_pistol,
            final(self).owns_shotgun == old(self).owns_shotgun,
            final(self).owns_rifle == old(self).owns_rifle,
            final(self).phase == old(self).phase,
            final(self).resume_counter == old(self).resume_counter,
    {
        let ghost s0 = *self;
        step_player(&mut self.player, input);
        step_bullets(&mut self.bullets);
        step_particles(&mut self.particles);
        step_enemies(&mut self.enemies, self.player.pos);
        proof {
            assert forall|i2: int| 0 <= i2 < self.bullets@.len() implies bullet_frame_ok(
                #[trigger] self.bullets@[i2],
            ) by {
                assert(self.bullets@[i2] == moved_bullet(s0.bullets@[i2]));
            }
            assert forall|i2: int| 0 <= i2 < self.particles@.len() implies particle_frame_ok(
                #[trigger] self.particles@[i2],
            ) by {
                assert(self.particles@[i2] == moved_particle(s0.particles@[i2]));
                assert(crate::geom::vel_ok(moved_particle(s0.particles@[i2]).vel));
            }
            assert forall|i2: int| 0 <= i2 < self.enemies@.len() implies enemy_ok(
                #[trigger] self.enemies@[i2],
            ) by {
                assert(enemy_stepped(s0.enemies@[i2], self.enemies@[i2], self.player.pos)
                    && enemy_ok(self.enemies@[i2]));
            }
        }
        let ghost s1 = *self;
        self.handle_collisions();
        let ghost s2 = *self;
        proof {
            assert forall|i2: int| 0 <= i2 < self.bullets@.len() implies bullet_frame_ok(
                #[trigger] self.bullets@[i2],
            ) by {
                assert(self.bullets@[i2] == killed_if(
                    s1.bullets@[i2],
                    count_hits(s1.bullets@[i2].pos, BULLET_W2, ENEMY_W2, s1.enemies@) > 0,
                ));
            }
            assert forall|i2: int| 0 <= i2 < self.enemies@.len() implies enemy_frame_ok(
                #[trigger] self.enemies@[i2],
            ) by {
                assert(self.enemies@[i2] == killed_if(
                    s1.enemies@[i2],
                    enemy_killed(s1.bullets@, s1.player, s1.enemies@[i2]),
                ));
                assert(enemy_ok(s1.enemies@[i2]));
            }
        }
        self.clear_entities();
        let ghost s3 = *self;
        proof {
            lemma_keep_bullets_members(s2.bullets@);
            lemma_keep_enemies_members(s2.enemies@);
            lemma_keep_particles_members(s2.particles@);
            lemma_keep_len_bounds(s2.enemies@);
            assert forall|i2: int| 0 <= i2 < self.bullets@.len() implies bullet_ok(
                #[trigger] self.bullets@[i2],
            ) by {
                let w = choose|w: int|
                    0 <= w < s2.bullets@.len() && s2.bullets@[w] == keep_bullets(s2.bullets@)[i2];
            }
            assert forall|i2: int| 0 <= i2 < self.enemies@.len() implies enemy_ok(
                #[trigger] self.enemies@[i2],
            ) by {
                let w = choose|w: int|
                    0 <= w < s2.enemies@.len() && s2.enemies@[w] == keep_enemies(s2.enemies@)[i2];
            }
            assert forall|i2: int| 0 <= i2 < self.particles@.len() implies particle_ok(
                #[trigger] self.particles@[i2],
            ) by {
                let w = choose|w: int|
                    0 <= w < s2.particles@.len() && s2.particles@[w] == keep_particles(
                        s2.particles@,
                    )[i2];
            }
        }
        proof {
            let inp = *input;
            let pp = player_step(s0.player.pos, inp);
            let moved_player = Entity { pos: pp, ..s0.player };
            let mb = moved_bullets(s0.bullets@);
            let mp = moved_particles(s0.particles@);
            let es1 = s1.enemies@;
            // the movement phase produced exactly the moved collections
            assert(s1.player.pos == pp);
            assert forall|i: int| 0 <= i < s0.bullets@.len() implies s1.bullets@[i] == moved_bullet(
                #[trigger] s0.bullets@[i],
            ) by {}
            assert(mb =~= s1.bullets@);
            assert forall|i: int|
                0 <= i < s0.particles@.len() implies s1.particles@[i] == moved_particle(
                #[trigger] s0.particles@[i],
            ) by {}
            assert(mp =~= s1.particles@);
            // the collision phase matched the spec-level pass over them
            let cb = collided_bullets(mb, es1);
            assert forall|j: int| 0 <= j < cb.len() implies cb[j] == s2.bullets@[j] by {
                assert(s2.bullets@[j] == killed_if(
                    s1.bullets@[j],
                    count_hits(s1.bullets@[j].pos, BULLET_W2, ENEMY_W2, s1.enemies@) > 0,
                ));
                assert(mb[j] == s1.bullets@[j]);
            }
            assert(cb =~= s2.bullets@);
            let ce = collided_enemies(es1, mb, moved_player);
            assert forall|i: int| 0 <= i < ce.len() implies ce[i] == s2.enemies@[i] by {
                assert(s2.enemies@[i] == killed_if(
                    s1.enemies@[i],
                    enemy_killed(s1.bullets@, s1.player, s1.enemies@[i]),
                ));
                assert(moved_player.pos == s1.player.pos);
                assert(enemy_killed(mb, moved_player, es1[i]) == enemy_killed(
                    s1.bullets@,
                    s1.player,
                    s1.enemies@[i],
                ));
            }
            assert(ce =~= s2.enemies@);
            // the fans the collision pass appended are all alive
            let fans = s2.particles@.subrange(
                s1.particles@.len() as int,
                s2.particles@.len() as int,
            );
            assert(s2.particles@ =~= s1.particles@ + fans);
            assert forall|t: int| 0 <= t < fans.len() implies (#[trigger] fans[t]).health > 0 by {
                assert(s2.particles@[s1.particles@.len() + t].health == PARTICLE_HEALTH);
            }
            crate::entity::lemma_keep_particles_concat_live(s1.particles@, fans);
            let kb = keep_bullets(cb);
            let ke = keep_enemies(ce);
            let kp = keep_particles(mp);
            assert(self.bullets@ == kb);
            assert(self.enemies@ == ke);
            assert(self.particles@ == kp + fans);
            assert(self.particles@.subrange(0, kp.len() as int) =~= kp);
            assert forall|k: int|
                kp.len() <= k < self.particles@.len() implies exists|t: int|
                0 <= t < mb.len() && spawned_ok(#[trigger] self.particles@[k], mb[t]) by {
                let u = k - kp.len();
                assert(self.particles@[k] == fans[u]);
                assert(fans[u] == s2.particles@[s1.particles@.len() + u]);
                let t = choose|t: int|
                    0 <= t < s1.bullets@.len() && spawned_ok(
                        s2.particles@[s1.particles@.len() + u],
                        s1.bullets@[t],
                    );
                assert(spawned_ok(self.particles@[k], mb[t]));
            }
            assert(self.player.rotation == s1.player.rotation);
            assert(sim_phase(s0, *self, inp, es1));
        }
    }

    /// One full tick.  While running: boundary clamp, player movement
    /// and aim, bullet/particle/enemy integration, collision resolution,
    /// cleanup, cooldown decrements, then the fire and spawn checks.
    /// The pause signal freezes the simulation; leaving the pause menu
    /// runs a resume countdown before the simulation moves again.
    #[verifier::rlimit(100)]
    pub fn update(&mut self, input: &Input)
        requires
            wf(*old(self)),
            coord_ok(input.aim),
        ensures
            wf(*final(self)),
            old(self).phase == Phase::Paused ==> sim_frozen(*old(self), *final(self)) && (
            input.pause ==> final(self).phase == Phase::Resuming && final(self).resume_counter
                == RESUME_TICKS) && (!input.pause ==> final(self).phase == Phase::Paused && final(self).resume_counter == old(self).resume_counter),
            old(self).phase == Phase::Resuming ==> sim_frozen(*old(self), *final(self)) && final(self).resume_counter == sat_dec16(old(self).resume_counter) && final(self).phase == (
            if sat_dec16(old(self).resume_counter) == 0 {
                Phase::Running
            } else {
                Phase::Resuming
            }),
            old(self).phase == Phase::Running && input.pause ==> sim_frozen(
                *old(self),
                *final(self),
            ) && final(self).phase == Phase::Paused,
            old(self).phase == Phase::Running && !input.pause ==> (exists|es1: Seq<Entity>|
                running_tick(*old(self), *final(self), *input, es1)),
            old(self).phase == Phase::Running && !input.pause ==> final(self).phase
                == Phase::Running && final(self).equipped == old(self).equipped && final(self).reloading == (if sat_dec16(old(self).reloading) == 0 && input.fire {
                reload_time_spec(old(self).equipped)
            } else {
                sat_dec16(old(self).reloading)
            }) && final(self).counter == (if sat_dec16(old(self).counter) == 0 {
                ENEMY_COOLDOWN
            } else {
                sat_dec16(old(self).counter)
            }),
            old(self).phase == Phase::Running && !input.pause && sat_dec16(old(self).reloading)
                == 0 && input.fire ==> final(self).bullets@.len() >= BULLETS_SHOT && (forall|k: int|
                final(self).bullets@.len() - BULLETS_SHOT <= k < final(self).bullets@.len()
                    ==> bullet_ok(#[trigger] final(self).bullets@[k]) && final(self).bullets@[k].health
                    == BULLET_TIME && final(self).player.rotation - HALF_SPREAD <= final(self).bullets@[k].rotation <= final(self).player.rotation + HALF_SPREAD),
            old(self).phase == Phase::Running && !input.pause && sat_dec16(old(self).counter) == 0
                && old(self).enemies@.len() < ENEMY_CAP ==> final(self).enemies@.len() >= 1
                && enemy_ok(final(self).enemies@.last()) && (final(self).enemies@.last().pos.x == 0
                || final(self).enemies@.last().pos.x == WIN_W) && 0
                <= final(self).enemies@.last().pos.y <= WIN_H,
    {
        match self.phase {
            Phase::Paused => {
                if input.pause {
                    self.phase = Phase::Resuming;
                    self.resume_counter = RESUME_TICKS;
                }
                return ;
            },
            Phase::Resuming => {
                let rc = if self.resume_counter > 0 {
                    self.resume_counter - 1
                } else {
                    0
                };
                self.resume_counter = rc;
                if rc == 0 {
                    self.phase = Phase::Running;
                }
                return ;
            },
            Phase::Running => {},
        }
        if input.pause {
            self.phase = Phase::Paused;
            return ;
        }
        let ghost s0 = *self;
        self.advance_entities(input);
        let ghost s3 = *self;
        let rd = if self.reloading > 0 {
            self.reloading - 1
        } else {
            0
        };
        self.reloading = rd;
        let cd = if self.counter > 0 {
            self.counter - 1
        } else {
            0
        };
        self.counter = cd;
        if rd == 0 && input.fire {
            self.fire_shot();
        }
        if cd == 0 {
            self.spawn_enemy();
        }
        proof {
            let inp = *input;
            let es1 = choose|es: Seq<Entity>| sim_phase(s0, s3, inp, es);
            assert(sim_phase(s0, s3, inp, es1));
            let pp = player_step(s0.player.pos, inp);
            let moved_player = Entity { pos: pp, ..s0.player };
            let mb = moved_bullets(s0.bullets@);
            let mp = moved_particles(s0.particles@);
            let kb = keep_bullets(collided_bullets(mb, es1));
            let ke = keep_enemies(collided_enemies(es1, mb, moved_player));
            let kp = keep_particles(mp);
            assert(s3.bullets@ == kb);
            assert(s3.enemies@ == ke);
            assert(rd == sat_dec16(s0.reloading));
            assert(cd == sat_dec16(s0.counter));
            let fired = rd == 0 && inp.fire;
            if fired {
                assert(self.bullets@.subrange(0, kb.len() as int) =~= kb);
            } else {
                assert(self.bullets@ == kb);
            }
            if cd == 0 {
                if ke.len() < ENEMY_CAP {
                    assert(self.enemies@.subrange(0, ke.len() as int) =~= ke);
                } else {
                    assert(self.enemies@ == ke);
                }
            } else {
                assert(self.enemies@ == ke);
            }
            assert(self.particles@ == s3.particles@);
            assert(self.particles@.subrange(0, kp.len() as int) == s3.particles@.subrange(
                0,
                kp.len() as int,
            ));
            assert forall|k: int|
                kp.len() <= k < self.particles@.len() implies exists|t: int|
                0 <= t < mb.len() && spawned_ok(#[trigger] self.particles@[k], mb[t]) by {
                assert(s3.particles@[k] == self.particles@[k]);
                let t = choose|t: int| 0 <= t < mb.len() && spawned_ok(s3.particles@[k], mb[t]);
                assert(spawned_ok(self.particles@[k], mb[t]));
            }
            assert(self.player == s3.player);
            assert(running_tick(s0, *self, inp, es1));
        }
    }
}

} // verus!