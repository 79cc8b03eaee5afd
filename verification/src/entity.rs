use vstd::prelude::*;

use vstd::arithmetic::div_mod::lemma_div_is_ordered;
use vstd::arithmetic::div_mod::lemma_div_multiples_vanish;

use crate::config::BULLET_ROT_MAX;
use crate::config::ENEMY_ROT_MAX;
use crate::config::PARTICLE_ROT_MAX;
use crate::config::PLAYER_ROT_MAX;
use crate::config::RELOAD_PISTOL;
use crate::config::RELOAD_RIFLE;
use crate::config::RELOAD_SHOTGUN;
use crate::config::V_MAX;
use crate::geom::Vec2i;
use crate::geom::clip_spec;
use crate::geom::coord_ok;
use crate::geom::dist2_spec;
use crate::geom::vel_ok;

verus! {

/// The closed set of things the simulation advances each tick.
#[derive(Clone, Copy, PartialEq, Eq, Structural, Debug)]
pub enum EntityKind {
    Player,
    Bullet,
    Enemy,
    Particle,
}

/// One simulated thing: a plain record of kinematic and gameplay state.
/// `health` is hit points for the player, remaining lifetime ticks for
/// bullets and particles, and an alive flag (exactly one) for enemies.
/// `frame` and `frame_time` belong to the presentation layer; the
/// simulation never touches them.
#[derive(Clone, Copy, PartialEq, Eq, Structural, Debug)]
pub struct Entity {
    pub kind: EntityKind,
    pub pos: Vec2i,
    pub vel: Vec2i,
    pub health: u16,
    pub rotation: i64,
    pub frame: u8,
    pub frame_time: u8,
}

/// Shape every bullet keeps through a frame, health aside.
pub open spec fn bullet_frame_ok(e: Entity) -> bool {
    e.kind == EntityKind::Bullet && coord_ok(e.pos) && vel_ok(e.vel) && -BULLET_ROT_MAX
        <= e.rotation <= BULLET_ROT_MAX
}

/// A live bullet as stored between ticks.
pub open spec fn bullet_ok(e: Entity) -> bool {
    bullet_frame_ok(e) && e.health >= 1
}

/// Shape every enemy keeps through a frame, the alive flag aside.
pub open spec fn enemy_frame_ok(e: Entity) -> bool {
    e.kind == EntityKind::Enemy && coord_ok(e.pos) && vel_ok(e.vel) && -ENEMY_ROT_MAX <= e.rotation
        <= ENEMY_ROT_MAX
}

/// A live enemy as stored between ticks: the alive flag is exactly one.
pub open spec fn enemy_ok(e: Entity) -> bool {
    enemy_frame_ok(e) && e.health == 1
}

/// Shape every particle keeps through a frame, health aside.
pub open spec fn particle_frame_ok(e: Entity) -> bool {
    e.kind == EntityKind::Particle && coord_ok(e.pos) && vel_ok(e.vel) && -PARTICLE_ROT_MAX
        <= e.rotation <= PARTICLE_ROT_MAX
}

/// A live particle as stored between ticks.
pub open spec fn particle_ok(e: Entity) -> bool {
    particle_frame_ok(e) && e.health >= 1
}

/// The player record: never removed, coordinates and rotation bounded.
pub open spec fn player_ok(e: Entity) -> bool {
    e.kind == EntityKind::Player && coord_ok(e.pos) && vel_ok(e.vel) && -PLAYER_ROT_MAX
        <= e.rotation <= PLAYER_ROT_MAX
}

/// Where an entity stands after one integration step: position plus
/// velocity, pulled back into the coordinate bound.
pub open spec fn stepped_pos(e: Entity) -> Vec2i {
    Vec2i { x: clip_spec(e.pos.x + e.vel.x), y: clip_spec(e.pos.y + e.vel.y) }
}

/// A bullet after one tick of movement: advanced and one tick older.
pub open spec fn moved_bullet(e: Entity) -> Entity {
    Entity { pos: stepped_pos(e), health: (e.health - 1) as u16, ..e }
}

/// One axis of particle drag: the magnitude shrinks to ten elevenths,
/// rounded toward zero, and the sign is kept.
pub open spec fn decayed_spec(v: int) -> int {
    if v >= 0 {
        v * 10 / 11
    } else {
        -((-v) * 10 / 11)
    }
}

/// A particle after one tick of movement: advanced, one tick older, and
/// slowed by drag on each axis.
pub open spec fn moved_particle(e: Entity) -> Entity {
    Entity {
        pos: stepped_pos(e),
        health: (e.health - 1) as u16,
        vel: Vec2i { x: decayed_spec(e.vel.x as int) as i64, y: decayed_spec(e.vel.y as int) as i64 },
        ..e
    }
}

pub fn decay_component(v: i64) -> (r: i64)
    requires
        -V_MAX <= v <= V_MAX,
    ensures
        r == decayed_spec(v as int),
        v >= 0 ==> 0 <= r <= v,
        v < 0 ==> v <= r <= 0,
{
    proof {
        if v >= 0 {
            lemma_div_is_ordered(v * 10, v * 11, 11);
            lemma_div_multiples_vanish(v as int, 11);
            assert(11 * v == v * 11);
        } else {
            lemma_div_is_ordered((-v) * 10, (-v) * 11, 11);
            lemma_div_multiples_vanish(-v as int, 11);
            assert(11 * (-v) == (-v) * 11);
        }
    }
    if v >= 0 {
        ((v as u64) * 10 / 11) as i64
    } else {
        -((((-v) as u64) * 10 / 11) as i64)
    }
}

/// Particle drag never speeds a particle up: with both axes decayed, the
/// squared speed of the new velocity is at most the old one's.
pub proof fn lemma_particle_speed_non_increasing(v_old: Vec2i, v_new: Vec2i)
    requires
        vel_ok(v_old),
        v_new.x == decayed_spec(v_old.x as int),
        v_new.y == decayed_spec(v_old.y as int),
    ensures
        dist2_spec(v_new, Vec2i { x: 0, y: 0 }) <= dist2_spec(v_old, Vec2i { x: 0, y: 0 }),
{
    lemma_decay_shrinks(v_old.x as int);
    lemma_decay_shrinks(v_old.y as int);
    let ax = if v_old.x >= 0 {
        v_old.x as int
    } else {
        -(v_old.x as int)
    };
    let ay = if v_old.y >= 0 {
        v_old.y as int
    } else {
        -(v_old.y as int)
    };
    let bx = if v_new.x >= 0 {
        v_new.x as int
    } else {
        -(v_new.x as int)
    };
    let by = if v_new.y >= 0 {
        v_new.y as int
    } else {
        -(v_new.y as int)
    };
    assert(bx * bx <= ax * ax && by * by <= ay * ay) by (nonlinear_arith)
        requires
            0 <= bx <= ax && 0 <= by <= ay,
    ;
    assert(v_new.x * v_new.x == bx * bx && v_old.x * v_old.x == ax * ax && v_new.y * v_new.y == by
        * by && v_old.y * v_old.y == ay * ay) by (nonlinear_arith)
        requires
            (bx == v_new.x || bx == -v_new.x) && (ax == v_old.x || ax == -v_old.x) && (by == v_new.y
                || by == -v_new.y) && (ay == v_old.y || ay == -v_old.y),
    ;
}

/// The magnitude of a decayed axis never exceeds the old magnitude.
proof fn lemma_decay_shrinks(v: int)
    ensures
        v >= 0 ==> 0 <= decayed_spec(v) <= v,
        v < 0 ==> v <= decayed_spec(v) <= 0,
{
    if v >= 0 {
        lemma_div_is_ordered(v * 10, v * 11, 11);
        lemma_div_multiples_vanish(v, 11);
        assert(11 * v == v * 11);
        assert(v * 10 >= 0) by (nonlinear_arith)
            requires
                v >= 0,
        ;
        vstd::arithmetic::div_mod::lemma_div_basics_4(v * 10, 11);
    } else {
        lemma_div_is_ordered((-v) * 10, (-v) * 11, 11);
        lemma_div_multiples_vanish(-v, 11);
        assert(11 * (-v) == (-v) * 11);
        assert((-v) * 10 >= 0) by (nonlinear_arith)
            requires
                v < 0,
        ;
        vstd::arithmetic::div_mod::lemma_div_basics_4((-v) * 10, 11);
    }
}

/// The bullets the cleanup pass keeps: lifetime not yet exhausted.
pub open spec fn keep_bullets(s: Seq<Entity>) -> Seq<Entity>
    decreases s.len(),
{
    if s.len() == 0 {
        Seq::empty()
    } else {
        let rest = keep_bullets(s.drop_last());
        if s.last().health > 0 {
            rest.push(s.last())
        } else {
            rest
        }
    }
}

/// The enemies the cleanup pass keeps: alive flag exactly one.
pub open spec fn keep_enemies(s: Seq<Entity>) -> Seq<Entity>
    decreases s.len(),
{
    if s.len() == 0 {
        Seq::empty()
    } else {
        let rest = keep_enemies(s.drop_last());
        if s.last().health == 1 {
            rest.push(s.last())
        } else {
            rest
        }
    }
}

/// The particles the cleanup pass keeps: lifetime not yet exhausted.
pub open spec fn keep_particles(s: Seq<Entity>) -> Seq<Entity>
    decreases s.len(),
{
    if s.len() == 0 {
        Seq::empty()
    } else {
        let rest = keep_particles(s.drop_last());
        if s.last().health > 0 {
            rest.push(s.last())
        } else {
            rest
        }
    }
}

/// Everything the bullet cleanup keeps has lifetime left, and what it
/// keeps comes from the input sequence.
pub proof fn lemma_keep_bullets_members(s: Seq<Entity>)
    ensures
        forall|k: int|
            0 <= k < keep_bullets(s).len() ==> (#[trigger] keep_bullets(s)[k]).health > 0
                && exists|j: int| 0 <= j < s.len() && s[j] == keep_bullets(s)[k],
    decreases s.len(),
{
    if s.len() > 0 {
        lemma_keep_bullets_members(s.drop_last());
        let prev = keep_bullets(s.drop_last());
        let cur = keep_bullets(s);
        assert forall|k: int| 0 <= k < cur.len() implies (#[trigger] cur[k]).health > 0 && exists|
            j: int,
        | 0 <= j < s.len() && s[j] == cur[k] by {
            if k < prev.len() {
                let j = choose|j: int| 0 <= j < s.drop_last().len() && s.drop_last()[j] == prev[k];
                assert(s[j] == cur[k]);
            } else {
                assert(s[s.len() - 1] == cur[k]);
            }
        }
    }
}

pub proof fn lemma_keep_enemies_members(s: Seq<Entity>)
    ensures
        forall|k: int|
            0 <= k < keep_enemies(s).len() ==> (#[trigger] keep_enemies(s)[k]).health == 1
                && exists|j: int| 0 <= j < s.len() && s[j] == keep_enemies(s)[k],
    decreases s.len(),
{
    if s.len() > 0 {
        lemma_keep_enemies_members(s.drop_last());
        let prev = keep_enemies(s.drop_last());
        let cur = keep_enemies(s);
        assert forall|k: int| 0 <= k < cur.len() implies (#[trigger] cur[k]).health == 1 && exists|
            j: int,
        | 0 <= j < s.len() && s[j] == cur[k] by {
            if k < prev.len() {
                let j = choose|j: int| 0 <= j < s.drop_last().len() && s.drop_last()[j] == prev[k];
                assert(s[j] == cur[k]);
            } else {
                assert(s[s.len() - 1] == cur[k]);
            }
        }
    }
}

pub proof fn lemma_keep_particles_members(s: Seq<Entity>)
    ensures
        forall|k: int|
            0 <= k < keep_particles(s).len() ==> (#[trigger] keep_particles(s)[k]).health > 0
                && exists|j: int| 0 <= j < s.len() && s[j] == keep_particles(s)[k],
    decreases s.len(),
{
    if s.len() > 0 {
        lemma_keep_particles_members(s.drop_last());
        let prev = keep_particles(s.drop_last());
        let cur = keep_particles(s);
        assert forall|k: int| 0 <= k < cur.len() implies (#[trigger] cur[k]).health > 0 && exists|
            j: int,
        | 0 <= j < s.len() && s[j] == cur[k] by {
            if k < prev.len() {
                let j = choose|j: int| 0 <= j < s.drop_last().len() && s.drop_last()[j] == prev[k];
                assert(s[j] == cur[k]);
            } else {
                assert(s[s.len() - 1] == cur[k]);
            }
        }
    }
}

/// A sequence that only holds what a keep pass would keep passes through
/// that keep pass unchanged.
proof fn lemma_keep_bullets_fixed(s: Seq<Entity>)
    requires
        forall|i: int| 0 <= i < s.len() ==> (#[trigger] s[i]).health > 0,
    ensures
        keep_bullets(s) == s,
    decreases s.len(),
{
    if s.len() > 0 {
        assert(forall|i: int|
            0 <= i < s.drop_last().len() ==> (#[trigger] s.drop_last()[i]).health > 0);
        lemma_keep_bullets_fixed(s.drop_last());
        assert(keep_bullets(s) =~= s);
    } else {
        assert(keep_bullets(s) =~= s);
    }
}

proof fn lemma_keep_enemies_fixed(s: Seq<Entity>)
    requires
        forall|i: int| 0 <= i < s.len() ==> (#[trigger] s[i]).health == 1,
    ensures
        keep_enemies(s) == s,
    decreases s.len(),
{
    if s.len() > 0 {
        assert(forall|i: int|
            0 <= i < s.drop_last().len() ==> (#[trigger] s.drop_last()[i]).health == 1);
        lemma_keep_enemies_fixed(s.drop_last());
        assert(keep_enemies(s) =~= s);
    } else {
        assert(keep_enemies(s) =~= s);
    }
}

proof fn lemma_keep_particles_fixed(s: Seq<Entity>)
    requires
        forall|i: int| 0 <= i < s.len() ==> (#[trigger] s[i]).health > 0,
    ensures
        keep_particles(s) == s,
    decreases s.len(),
{
    if s.len() > 0 {
        assert(forall|i: int|
            0 <= i < s.drop_last().len() ==> (#[trigger] s.drop_last()[i]).health > 0);
        lemma_keep_particles_fixed(s.drop_last());
        assert(keep_particles(s) =~= s);
    } else {
        assert(keep_particles(s) =~= s);
    }
}

/// No keep pass ever grows a collection.
pub proof fn lemma_keep_len_bounds(s: Seq<Entity>)
    ensures
        keep_bullets(s).len() <= s.len(),
        keep_enemies(s).len() <= s.len(),
        keep_particles(s).len() <= s.len(),
    decreases s.len(),
{
    if s.len() > 0 {
        lemma_keep_len_bounds(s.drop_last());
    }
}

/// Appending only live particles commutes with the particle keep pass.
pub proof fn lemma_keep_particles_concat_live(a: Seq<Entity>, b: Seq<Entity>)
    requires
        forall|i: int| 0 <= i < b.len() ==> (#[trigger] b[i]).health > 0,
    ensures
        keep_particles(a + b) == keep_particles(a) + b,
    decreases b.len(),
{
    if b.len() == 0 {
        assert(a + b =~= a);
        assert(keep_particles(a) + b =~= keep_particles(a));
    } else {
        assert(forall|i: int|
            0 <= i < b.drop_last().len() ==> (#[trigger] b.drop_last()[i]).health > 0);
        lemma_keep_particles_concat_live(a, b.drop_last());
        assert((a + b).drop_last() =~= a + b.drop_last());
        assert((a + b).last() == b.last());
        assert(keep_particles(a + b) =~= keep_particles(a) + b);
    }
}

/// Cleanup is idempotent: with no collision step in between, a second
/// cleanup pass over bullets, enemies and particles removes nothing.
pub proof fn lemma_cleanup_idempotent(b: Seq<Entity>, e: Seq<Entity>, p: Seq<Entity>)
    ensures
        keep_bullets(keep_bullets(b)) == keep_bullets(b),
        keep_enemies(keep_enemies(e)) == keep_enemies(e),
        keep_particles(keep_particles(p)) == keep_particles(p),
{
    lemma_keep_bullets_members(b);
    lemma_keep_bullets_fixed(keep_bullets(b));
    lemma_keep_enemies_members(e);
    lemma_keep_enemies_fixed(keep_enemies(e));
    lemma_keep_particles_members(p);
    lemma_keep_particles_fixed(keep_particles(p));
}

/// Replaces one element of an entity collection in place.
pub fn vec_set(v: &mut Vec<Entity>, i: usize, e: Entity)
    requires
        i < old(v)@.len(),
    ensures
        final(v)@ == old(v)@.update(i as int, e),
{
    let slot = &mut v[i];
    *slot = e;
}

/// The weapons the shop offers.
#[derive(Clone, Copy, PartialEq, Eq, Structural, Debug)]
pub enum Weapon {
    Pistol,
    Shotgun,
    Rifle,
}

/// The reload cooldown each weapon imposes after a shot.
pub open spec fn reload_time_spec(w: Weapon) -> u16 {
    match w {
        Weapon::Pistol => RELOAD_PISTOL,
        Weapon::Shotgun => RELOAD_SHOTGUN,
        Weapon::Rifle => RELOAD_RIFLE,
    }
}

pub fn reload_time(w: Weapon) -> (r: u16)
    ensures
        r == reload_time_spec(w),
{
    match w {
        Weapon::Pistol => RELOAD_PISTOL,
        Weapon::Shotgun => RELOAD_SHOTGUN,
        Weapon::Rifle => RELOAD_RIFLE,
    }
}

} // verus!
