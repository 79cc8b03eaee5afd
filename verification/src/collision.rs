use vstd::prelude::*;

use crate::bvh::SpatialIndex;
use crate::bvh::Value;
use crate::bvh::box_filter;
use crate::bvh::lemma_box_filter_members;
use crate::config::BULLET_W2;
use crate::config::ENEMY_CAP;
use crate::config::ENEMY_W2;
use crate::config::HALF_SPREAD;
use crate::config::PARTICLES_PER_HIT;
use crate::config::PARTICLE_HEALTH;
use crate::config::PARTICLE_SPEED;
use crate::config::PLAYER_DAMAGE;
use crate::config::PLAYER_W2;
use crate::entity::Entity;
use crate::entity::EntityKind;
use crate::entity::bullet_frame_ok;
use crate::entity::enemy_frame_ok;
use crate::entity::particle_ok;
use crate::entity::stepped_pos;
use crate::entity::vec_set;
use crate::geom::Aabb;
use crate::geom::Vec2i;
use crate::geom::box_at;
use crate::geom::box_at_spec;
use crate::geom::clip;
use crate::geom::coord_ok;
use crate::geom::dist2;
use crate::geom::dist2_spec;
use crate::geom::overlaps;
use crate::random::rand_in_range;
use crate::trig::cos_mrad_spec;
use crate::trig::sin_mrad_spec;
use crate::trig::vec_from_angle;

verus! {

/// The hitbox of an enemy: a fixed-size box centered on its position.
pub open spec fn enemy_box(e: Entity) -> Aabb {
    box_at_spec(e.pos, ENEMY_W2)
}

/// A confirmed hit of the query centered on `center` against enemy `e`:
/// the query box of half width `qw` meets the enemy's box (broad phase),
/// and the centers lie within distance `r` of each other (narrow phase).
pub open spec fn hit(center: Vec2i, qw: i64, r: i64, e: Entity) -> bool {
    overlaps(box_at_spec(center, qw), enemy_box(e)) && dist2_spec(center, e.pos) <= r * r
}

/// How many enemies of `es` the query centered on `center` hits.
pub open spec fn count_hits(center: Vec2i, qw: i64, r: i64, es: Seq<Entity>) -> nat
    decreases es.len(),
{
    if es.len() == 0 {
        0
    } else {
        count_hits(center, qw, r, es.drop_last()) + (if hit(center, qw, r, es.last()) {
            1nat
        } else {
            0nat
        })
    }
}

/// All confirmed bullet-enemy hit pairs between two collections.
pub open spec fn total_bullet_hits(bs: Seq<Entity>, es: Seq<Entity>) -> nat
    decreases bs.len(),
{
    if bs.len() == 0 {
        0
    } else {
        total_bullet_hits(bs.drop_last(), es) + count_hits(bs.last().pos, BULLET_W2, ENEMY_W2, es)
    }
}

/// The index entries a frame builds: each enemy's box, the same fat
/// bound, and the enemy's position in the collection.
pub open spec fn mk_entries(es: Seq<Entity>) -> Seq<Value> {
    Seq::new(
        es.len(),
        |i: int| Value { aabb: enemy_box(es[i]), fat_aabb: enemy_box(es[i]), index: i as u16 },
    )
}

/// An entity with its health zeroed.
pub open spec fn kill(e: Entity) -> Entity {
    Entity { health: 0, ..e }
}

/// `e`, killed exactly when `c` holds.
pub open spec fn killed_if(e: Entity, c: bool) -> Entity {
    if c {
        kill(e)
    } else {
        e
    }
}

/// Addition on the currency counter, saturating at the top of `u64`.
pub open spec fn sat_add64(c: u64, k: nat) -> u64 {
    if c + k <= u64::MAX {
        (c + k) as u64
    } else {
        u64::MAX
    }
}

/// Player health after `k` confirmed overlaps: the fixed damage per
/// overlap, floored at zero.
pub open spec fn chip(h: u16, k: nat) -> u16 {
    if h >= PLAYER_DAMAGE * k {
        (h - PLAYER_DAMAGE * k) as u16
    } else {
        0
    }
}

/// Some bullet of the collection hits enemy `e`.
pub open spec fn hit_by_any(bs: Seq<Entity>, e: Entity) -> bool {
    exists|j: int| 0 <= j < bs.len() && hit((#[trigger] bs[j]).pos, BULLET_W2, ENEMY_W2, e)
}

/// An enemy dies this tick exactly when some bullet hits it or the
/// player overlaps it.
pub open spec fn enemy_killed(bs: Seq<Entity>, player: Entity, e: Entity) -> bool {
    hit_by_any(bs, e) || hit(player.pos, PLAYER_W2, PLAYER_W2, e)
}

/// The center an index entry stands for, recovered from its box's max
/// corner as the collision pass does.
pub open spec fn vcenter(v: Value) -> Vec2i {
    Vec2i { x: (v.aabb.max_x - ENEMY_W2) as i64, y: (v.aabb.max_y - ENEMY_W2) as i64 }
}

/// The narrow-phase test against one index entry.
pub open spec fn vhit(center: Vec2i, r: i64, v: Value) -> bool {
    dist2_spec(center, vcenter(v)) <= r * r
}

/// How many of the candidates pass the narrow phase.
pub open spec fn ncount(center: Vec2i, r: i64, cs: Seq<Value>) -> nat
    decreases cs.len(),
{
    if cs.len() == 0 {
        0
    } else {
        ncount(center, r, cs.drop_last()) + (if vhit(center, r, cs.last()) {
            1nat
        } else {
            0nat
        })
    }
}

/// The candidates a query centered on `center` gets from the frame's index.
pub open spec fn cands_of(center: Vec2i, qw: i64, es: Seq<Entity>) -> Seq<Value> {
    box_filter(mk_entries(es), box_at_spec(center, qw))
}

/// Some candidate names enemy `i` and passes the narrow phase.
pub open spec fn named_hit(center: Vec2i, r: i64, cs: Seq<Value>, i: int) -> bool {
    exists|m: int| 0 <= m < cs.len() && (#[trigger] cs[m]).index == i && vhit(center, r, cs[m])
}

/// The narrow-phase count over the candidates equals the hit count over
/// the enemies themselves.
proof fn lemma_cands_count(center: Vec2i, qw: i64, r: i64, es: Seq<Entity>)
    requires
        forall|i: int| 0 <= i < es.len() ==> coord_ok((#[trigger] es[i]).pos),
    ensures
        ncount(center, r, cands_of(center, qw, es)) == count_hits(center, qw, r, es),
    decreases es.len(),
{
    let q = box_at_spec(center, qw);
    let mk = mk_entries(es);
    if es.len() == 0 {
        assert(mk =~= Seq::<Value>::empty());
    } else {
        lemma_cands_count(center, qw, r, es.drop_last());
        assert(mk.drop_last() =~= mk_entries(es.drop_last()));
        let last = mk.last();
        assert(vcenter(last) == es.last().pos);
        let prev = box_filter(mk_entries(es.drop_last()), q);
        if overlaps(last.fat_aabb, q) {
            assert(cands_of(center, qw, es) == prev.push(last));
            assert(prev.push(last).drop_last() =~= prev);
            assert(prev.push(last).last() == last);
            assert(hit(center, qw, r, es.last()) <==> vhit(center, r, last));
        } else {
            assert(cands_of(center, qw, es) == prev);
            assert(!hit(center, qw, r, es.last()));
        }
    }
}

/// What the frame's query hands back: every candidate names a real enemy
/// and carries that enemy's box, and a candidate passing the narrow
/// phase names enemy `i` exactly when the query hits enemy `i`.
proof fn lemma_cands_membership(center: Vec2i, qw: i64, r: i64, es: Seq<Entity>)
    requires
        forall|i: int| 0 <= i < es.len() ==> coord_ok((#[trigger] es[i]).pos),
        es.len() <= ENEMY_CAP,
    ensures
        forall|k: int|
            0 <= k < cands_of(center, qw, es).len() ==> 0 <= (#[trigger] cands_of(center, qw, es)[k]).index
                < es.len() && cands_of(center, qw, es)[k] == mk_entries(es)[cands_of(
                center,
                qw,
                es,
            )[k].index as int],
        forall|i: int|
            0 <= i < es.len() ==> (named_hit(center, r, cands_of(center, qw, es), i) <==> hit(
                center,
                qw,
                r,
                #[trigger] es[i],
            )),
{
    let q = box_at_spec(center, qw);
    let mk = mk_entries(es);
    let cands = cands_of(center, qw, es);
    lemma_box_filter_members(mk, q);
    assert forall|k: int| 0 <= k < cands.len() implies 0 <= (#[trigger] cands[k]).index < es.len()
        && cands[k] == mk[cands[k].index as int] by {
        assert(mk.contains(cands[k]));
        let j = choose|j: int| 0 <= j < mk.len() && mk[j] == cands[k];
        assert(mk[j].index == j as u16);
    }
    assert forall|i: int| 0 <= i < es.len() implies (named_hit(center, r, cands, i) <==> hit(
        center,
        qw,
        r,
        #[trigger] es[i],
    )) by {
        assert(vcenter(mk[i]) == es[i].pos);
        if hit(center, qw, r, es[i]) {
            assert(overlaps(mk[i].fat_aabb, q));
            assert(cands.contains(mk[i]));
            let k = choose|k: int| 0 <= k < cands.len() && cands[k] == mk[i];
            assert(0 <= k < cands.len() && cands[k].index == i && vhit(center, r, cands[k]));
            assert(named_hit(center, r, cands, i));
        }
        if named_hit(center, r, cands, i) {
            let m = choose|m: int|
                0 <= m < cands.len() && (#[trigger] cands[m]).index == i && vhit(center, r,
                cands[m]);
            assert(mk.contains(cands[m]) && overlaps(cands[m].fat_aabb, q));
            let j = choose|j: int| 0 <= j < mk.len() && mk[j] == cands[m];
            assert(mk[j].index == j as u16);
            assert(j == i);
            assert(overlaps(q, enemy_box(es[i])));
            assert(dist2_spec(center, es[i].pos) <= r * r);
        }
    }
}

/// Hits depend on enemy positions alone, not on health or anything else.
pub proof fn lemma_count_hits_same_pos(center: Vec2i, qw: i64, r: i64, es1: Seq<Entity>, es2: Seq<
    Entity,
>)
    requires
        es1.len() == es2.len(),
        forall|i: int| 0 <= i < es1.len() ==> (#[trigger] es1[i]).pos == es2[i].pos,
    ensures
        count_hits(center, qw, r, es1) == count_hits(center, qw, r, es2),
    decreases es1.len(),
{
    if es1.len() > 0 {
        lemma_count_hits_same_pos(center, qw, r, es1.drop_last(), es2.drop_last());
        assert(es1.last().pos == es2.last().pos);
    }
}

/// Saturating addition gathers: adding twice is adding the sum.
pub proof fn lemma_sat_add_assoc(c: u64, a: nat, b: nat)
    ensures
        sat_add64(sat_add64(c, a), b) == sat_add64(c, a + b),
{
}

fn sat_inc(c: u64) -> (r: u64)
    ensures
        r == sat_add64(c, 1),
{
    if c < u64::MAX {
        c + 1
    } else {
        c
    }
}

/// What holds of every particle an impact spawns from bullet `b`: it
/// starts one bullet-step ahead of the impact, rotated within the spread
/// cone of the bullet, and flies along its own rotation at the fixed
/// particle speed.
pub open spec fn spawned_ok(p: Entity, b: Entity) -> bool {
    particle_ok(p) && p.health == PARTICLE_HEALTH && p.pos == stepped_pos(b) && b.rotation
        - HALF_SPREAD <= p.rotation <= b.rotation + HALF_SPREAD && p.vel.x == sin_mrad_spec(
        0 - p.rotation,
    ) * PARTICLE_SPEED && p.vel.y == cos_mrad_spec(0 - p.rotation) * PARTICLE_SPEED && -5000
        <= p.vel.x <= 5000 && -5000 <= p.vel.y <= 5000
}

/// Appends the fixed number of impact particles for one confirmed hit,
/// fanned around the bullet's rotation.
fn spawn_particles(particles: &mut Vec<Entity>, b: &Entity)
    requires
        bullet_frame_ok(*b),
    ensures
        final(particles)@.len() == old(particles)@.len() + PARTICLES_PER_HIT,
        forall|j: int|
            0 <= j < old(particles)@.len() ==> final(particles)@[j] == old(particles)@[j],
        forall|j: int|
            old(particles)@.len() <= j < final(particles)@.len() ==> spawned_ok(
                #[trigger] final(particles)@[j],
                *b,
            ),
{
    let ghost p0 = particles@;
    let mut t: usize = 0;
    while t < PARTICLES_PER_HIT
        invariant
            0 <= t <= PARTICLES_PER_HIT,
            particles@.len() == p0.len() + t,
            forall|j: int| 0 <= j < p0.len() ==> particles@[j] == p0[j],
            forall|j: int|
                p0.len() <= j < particles@.len() ==> spawned_ok(#[trigger] particles@[j], *b),
        decreases PARTICLES_PER_HIT - t,
    {
        let off = rand_in_range(-HALF_SPREAD, HALF_SPREAD);
        let rot = b.rotation + off;
        let dir = vec_from_angle(-rot);
        let p = Entity {
            kind: EntityKind::Particle,
            pos: Vec2i { x: clip(b.pos.x + b.vel.x), y: clip(b.pos.y + b.vel.y) },
            vel: Vec2i { x: dir.x * PARTICLE_SPEED, y: dir.y * PARTICLE_SPEED },
            health: PARTICLE_HEALTH,
            rotation: rot,
            frame: 0,
            frame_time: 0,
        };
        particles.push(p);
        t = t + 1;
    }
}

/// Resolves one bullet against the frame's index: every enemy the bullet
/// hits dies, the bullet expires if it hit anything, one currency unit is
/// earned per hit, and a fan of particles is spawned per hit.
pub fn resolve_bullet(
    idx: &SpatialIndex,
    bullet: &mut Entity,
    enemies: &mut Vec<Entity>,
    particles: &mut Vec<Entity>,
    currency: &mut u64,
)
    requires
        idx.wf(),
        idx.entries() == mk_entries(old(enemies)@),
        bullet_frame_ok(*old(bullet)),
        old(enemies)@.len() <= ENEMY_CAP,
        forall|i: int| 0 <= i < old(enemies)@.len() ==> enemy_frame_ok(#[trigger] old(enemies)@[i]),
    ensures
        final(enemies)@.len() == old(enemies)@.len(),
        forall|i: int|
            0 <= i < old(enemies)@.len() ==> final(enemies)@[i] == killed_if(
                #[trigger] old(enemies)@[i],
                hit(old(bullet).pos, BULLET_W2, ENEMY_W2, old(enemies)@[i]),
            ),
        *final(bullet) == killed_if(
            *old(bullet),
            count_hits(old(bullet).pos, BULLET_W2, ENEMY_W2, old(enemies)@) > 0,
        ),
        *final(currency) == sat_add64(
            *old(currency),
            count_hits(old(bullet).pos, BULLET_W2, ENEMY_W2, old(enemies)@),
        ),
        final(particles)@.len() == old(particles)@.len() + PARTICLES_PER_HIT * count_hits(
            old(bullet).pos,
            BULLET_W2,
            ENEMY_W2,
            old(enemies)@,
        ),
        forall|j: int|
            0 <= j < old(particles)@.len() ==> final(particles)@[j] == old(particles)@[j],
        forall|j: int|
            old(particles)@.len() <= j < final(particles)@.len() ==> spawned_ok(
                #[trigger] final(particles)@[j],
                *old(bullet),
            ),
{
    let ghost es0 = enemies@;
    let ghost b0 = *bullet;
    let ghost c0 = *currency;
    let ghost p0 = particles@;
    let qbox = box_at(bullet.pos, BULLET_W2);
    let cands = idx.query(&qbox);
    proof {
        lemma_cands_count(b0.pos, BULLET_W2, ENEMY_W2, es0);
        lemma_cands_membership(b0.pos, BULLET_W2, ENEMY_W2, es0);
    }
    let clen = cands.len();
    let mut k: usize = 0;
    while k < clen
        invariant
            0 <= k <= clen,
            clen == cands@.len(),
            cands@ == cands_of(b0.pos, BULLET_W2, es0),
            enemies@.len() == es0.len(),
            forall|i: int|
                0 <= i < es0.len() ==> enemies@[i] == killed_if(
                    #[trigger] es0[i],
                    named_hit(b0.pos, ENEMY_W2, cands@.take(k as int), i),
                ),
            *bullet == killed_if(b0, ncount(b0.pos, ENEMY_W2, cands@.take(k as int)) > 0),
            *currency == sat_add64(c0, ncount(b0.pos, ENEMY_W2, cands@.take(k as int))),
            particles@.len() == p0.len() + PARTICLES_PER_HIT * ncount(
                b0.pos,
                ENEMY_W2,
                cands@.take(k as int),
            ),
            forall|j: int| 0 <= j < p0.len() ==> particles@[j] == p0[j],
            forall|j: int|
                p0.len() <= j < particles@.len() ==> spawned_ok(#[trigger] particles@[j], b0),
        decreases clen - k,
    {
        proof {
            assert(cands@.take(k + 1).drop_last() =~= cands@.take(k as int));
            assert(cands@.take(k + 1).last() == cands@[k as int]);
        }
        let v = cands[k];
        proof {
            assert(v == cands_of(b0.pos, BULLET_W2, es0)[k as int]);
            assert(v.index < es0.len() && v == mk_entries(es0)[v.index as int]);
            assert(v.aabb == enemy_box(es0[v.index as int]));
            assert(coord_ok(es0[v.index as int].pos));
        }
        let c = Vec2i { x: v.aabb.max_x - ENEMY_W2, y: v.aabb.max_y - ENEMY_W2 };
        proof {
            assert(c == es0[v.index as int].pos);
            assert(c == vcenter(v));
            assert(bullet.pos == b0.pos);
        }
        let d2 = dist2(bullet.pos, c);
        if d2 <= ENEMY_W2 * ENEMY_W2 {
            let ei = v.index as usize;
            let mut e = enemies[ei];
            e.health = 0;
            vec_set(enemies, ei, e);
            bullet.health = 0;
            *currency = sat_inc(*currency);
            let bcopy = *bullet;
            proof {
                assert(bullet_frame_ok(bcopy));
            }
            spawn_particles(particles, &bcopy);
            proof {
                assert(vhit(b0.pos, ENEMY_W2, cands@[k as int]));
            }
        } else {
            proof {
                assert(!vhit(b0.pos, ENEMY_W2, cands@[k as int]));
            }
        }
        proof {
            let prefix = cands@.take(k as int);
            let ext = cands@.take(k + 1);
            assert forall|i: int| 0 <= i < es0.len() implies enemies@[i] == killed_if(
                #[trigger] es0[i],
                named_hit(b0.pos, ENEMY_W2, ext, i),
            ) by {
                if named_hit(b0.pos, ENEMY_W2, ext, i) {
                    let m = choose|m: int|
                        0 <= m < ext.len() && (#[trigger] ext[m]).index == i && vhit(
                            b0.pos,
                            ENEMY_W2,
                            ext[m],
                        );
                    if m < k {
                        assert(prefix[m] == ext[m]);
                        assert(named_hit(b0.pos, ENEMY_W2, prefix, i));
                    }
                }
                if named_hit(b0.pos, ENEMY_W2, prefix, i) {
                    let m = choose|m: int|
                        0 <= m < prefix.len() && (#[trigger] prefix[m]).index == i && vhit(
                            b0.pos,
                            ENEMY_W2,
                            prefix[m],
                        );
                    assert(ext[m] == prefix[m]);
                    assert(named_hit(b0.pos, ENEMY_W2, ext, i));
                }
            }
        }
        k = k + 1;
    }
    proof {
        assert(cands@.take(clen as int) =~= cands@);
        assert forall|i: int| 0 <= i < es0.len() implies enemies@[i] == killed_if(
            #[trigger] es0[i],
            hit(b0.pos, BULLET_W2, ENEMY_W2, es0[i]),
        ) by {
            assert(named_hit(b0.pos, ENEMY_W2, cands@, i) <==> hit(b0.pos, BULLET_W2, ENEMY_W2,
            es0[i]));
        }
        assert(ncount(b0.pos, ENEMY_W2, cands@) == count_hits(b0.pos, BULLET_W2, ENEMY_W2, es0));
    }
}

/// Resolves the player against the frame's index: every overlapping
/// enemy dies, and each overlap costs the player the fixed damage,
/// floored at zero.
pub fn resolve_player(idx: &SpatialIndex, player: &mut Entity, enemies: &mut Vec<Entity>)
    requires
        idx.wf(),
        idx.entries() == mk_entries(old(enemies)@),
        coord_ok(old(player).pos),
        old(enemies)@.len() <= ENEMY_CAP,
        forall|i: int| 0 <= i < old(enemies)@.len() ==> coord_ok((#[trigger] old(enemies)@[i]).pos),
    ensures
        final(enemies)@.len() == old(enemies)@.len(),
        forall|i: int|
            0 <= i < old(enemies)@.len() ==> final(enemies)@[i] == killed_if(
                #[trigger] old(enemies)@[i],
                hit(old(player).pos, PLAYER_W2, PLAYER_W2, old(enemies)@[i]),
            ),
        *final(player) == (Entity {
            health: chip(
                old(player).health,
                count_hits(old(player).pos, PLAYER_W2, PLAYER_W2, old(enemies)@),
            ),
            ..*old(player)
        }),
{
    let ghost es0 = enemies@;
    let ghost pl0 = *player;
    let qbox = box_at(player.pos, PLAYER_W2);
    let cands = idx.query(&qbox);
    proof {
        lemma_cands_count(pl0.pos, PLAYER_W2, PLAYER_W2, es0);
        lemma_cands_membership(pl0.pos, PLAYER_W2, PLAYER_W2, es0);
    }
    let clen = cands.len();
    let mut k: usize = 0;
    while k < clen
        invariant
            0 <= k <= clen,
            clen == cands@.len(),
            cands@ == cands_of(pl0.pos, PLAYER_W2, es0),
            enemies@.len() == es0.len(),
            forall|i: int|
                0 <= i < es0.len() ==> enemies@[i] == killed_if(
                    #[trigger] es0[i],
                    named_hit(pl0.pos, PLAYER_W2, cands@.take(k as int), i),
                ),
            *player == (Entity {
                health: chip(pl0.health, ncount(pl0.pos, PLAYER_W2, cands@.take(k as int))),
                ..pl0
            }),
        decreases clen - k,
    {
        proof {
            assert(cands@.take(k + 1).drop_last() =~= cands@.take(k as int));
            assert(cands@.take(k + 1).last() == cands@[k as int]);
        }
        let v = cands[k];
        proof {
            assert(v == cands_of(pl0.pos, PLAYER_W2, es0)[k as int]);
            assert(v.index < es0.len() && v == mk_entries(es0)[v.index as int]);
            assert(v.aabb == enemy_box(es0[v.index as int]));
            assert(coord_ok(es0[v.index as int].pos));
        }
        let c = Vec2i { x: v.aabb.max_x - ENEMY_W2, y: v.aabb.max_y - ENEMY_W2 };
        proof {
            assert(c == es0[v.index as int].pos);
            assert(c == vcenter(v));
            assert(player.pos == pl0.pos);
        }
        let d2 = dist2(player.pos, c);
        if d2 <= PLAYER_W2 * PLAYER_W2 {
            let ei = v.index as usize;
            let mut e = enemies[ei];
            e.health = 0;
            vec_set(enemies, ei, e);
            player.health = if player.health >= PLAYER_DAMAGE {
                player.health - PLAYER_DAMAGE
            } else {
                0
            };
            proof {
                assert(vhit(pl0.pos, PLAYER_W2, cands@[k as int]));
            }
        } else {
            proof {
                assert(!vhit(pl0.pos, PLAYER_W2, cands@[k as int]));
            }
        }
        proof {
            let prefix = cands@.take(k as int);
            let ext = cands@.take(k + 1);
            assert forall|i: int| 0 <= i < es0.len() implies enemies@[i] == killed_if(
                #[trigger] es0[i],
                named_hit(pl0.pos, PLAYER_W2, ext, i),
            ) by {
                if named_hit(pl0.pos, PLAYER_W2, ext, i) {
                    let m = choose|m: int|
                        0 <= m < ext.len() && (#[trigger] ext[m]).index == i && vhit(
                            pl0.pos,
                            PLAYER_W2,
                            ext[m],
                        );
                    if m < k {
                        assert(prefix[m] == ext[m]);
                        assert(named_hit(pl0.pos, PLAYER_W2, prefix, i));
                    }
                }
                if named_hit(pl0.pos, PLAYER_W2, prefix, i) {
                    let m = choose|m: int|
                        0 <= m < prefix.len() && (#[trigger] prefix[m]).index == i && vhit(
                            pl0.pos,
                            PLAYER_W2,
                            prefix[m],
                        );
                    assert(ext[m] == prefix[m]);
                    assert(named_hit(pl0.pos, PLAYER_W2, ext, i));
                }
            }
        }
        k = k + 1;
    }
    proof {
        assert(cands@.take(clen as int) =~= cands@);
        assert forall|i: int| 0 <= i < es0.len() implies enemies@[i] == killed_if(
            #[trigger] es0[i],
            hit(pl0.pos, PLAYER_W2, PLAYER_W2, es0[i]),
        ) by {
            assert(named_hit(pl0.pos, PLAYER_W2, cands@, i) <==> hit(pl0.pos, PLAYER_W2, PLAYER_W2,
            es0[i]));
        }
        assert(ncount(pl0.pos, PLAYER_W2, cands@) == count_hits(pl0.pos, PLAYER_W2, PLAYER_W2,
        es0));
    }
}

} // verus!
