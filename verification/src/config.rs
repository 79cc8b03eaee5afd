use vstd::prelude::*;

verus! {

// All positions and velocities are fixed-point integers: one pixel is
// `SUBPIX` position units, so the 1280x720 pixel world spans
// `WIN_W` x `WIN_H` position units.  Angles are in milliradians.

/// Position units per pixel.
pub const SUBPIX: i64 = 1000;

/// World width in position units (1280 pixels).
pub const WIN_W: i64 = 1280 * 1000;

/// World height in position units (720 pixels).
pub const WIN_H: i64 = 720 * 1000;

/// Any coordinate of any entity stays within `[-P_MAX, P_MAX]`.
pub const P_MAX: i64 = 1_000_000_000;

/// Any velocity component stays within `[-V_MAX, V_MAX]` position units per tick.
pub const V_MAX: i64 = 100_000;

/// Player step per tick and axis while a movement key is held (5 pixels).
pub const PX_MOVEMENT: i64 = 5 * 1000;

/// Bullet speed in pixels per tick (scaled by a unit direction vector).
pub const BULLET_SPEED: i64 = 20;

/// Particle speed in pixels per tick (scaled by a unit direction vector).
pub const PARTICLE_SPEED: i64 = 5;

/// Enemy speed in position units per tick (4 pixels).
pub const ENEMY_SPEED: i64 = 4 * 1000;

/// Half width of the player hitbox in position units (player is 64 pixels wide).
pub const PLAYER_W2: i64 = 32 * 1000;

/// Half width of the enemy hitbox in position units (enemy is 64 pixels wide).
pub const ENEMY_W2: i64 = 32 * 1000;

/// Half width of the bullet hitbox in position units (bullet is 16 pixels wide).
pub const BULLET_W2: i64 = 8 * 1000;

/// A bullet spawns this many pixels from the player center along the firing
/// direction: half the player height plus half the bullet height.
pub const BULLET_OFFSET: i64 = 40;

/// Lifetime of a bullet in ticks.
pub const BULLET_TIME: u16 = 60;

/// Lifetime of an impact particle in ticks.
pub const PARTICLE_HEALTH: u16 = 20;

/// Particles spawned per confirmed bullet-enemy hit.
pub const PARTICLES_PER_HIT: usize = 5;

/// Bullets created by one shot.
pub const BULLETS_SHOT: usize = 5;

/// Full width of the random spread cone for bullets, in milliradians (~20 degrees).
pub const BULLETS_ANGLE: i64 = 348;

/// Full width of the random spread cone for impact particles, in milliradians.
pub const PARTICLE_ANGLE: i64 = 348;

/// Half of either spread cone: a random offset is drawn from
/// `[-HALF_SPREAD, HALF_SPREAD]`.
pub const HALF_SPREAD: i64 = 174;

/// Ticks between enemy spawns.
pub const ENEMY_COOLDOWN: u16 = 60;

/// Ticks of the resume countdown after leaving the pause menu.
pub const RESUME_TICKS: u16 = 60;

/// Hit points the player loses per confirmed enemy overlap.
pub const PLAYER_DAMAGE: u16 = 5;

/// Hit points the player starts with.
pub const PLAYER_START_HEALTH: u16 = 100;

/// Currency cost of unlocking a weapon.
pub const WEAPON_COST: u64 = 200;

/// Reload cooldown of the pistol, in ticks.
pub const RELOAD_PISTOL: u16 = 30;

/// Reload cooldown of the shotgun, in ticks.
pub const RELOAD_SHOTGUN: u16 = 45;

/// Reload cooldown of the rifle, in ticks.
pub const RELOAD_RIFLE: u16 = 12;

/// The enemy collection never grows past this size, so an index into it
/// always fits in the `u16` carried by the spatial index.
pub const ENEMY_CAP: usize = 65535;

/// Pi in milliradians.
pub const PI_MRAD: i64 = 3142;

/// Pi / 2 in milliradians.
pub const HALF_PI_MRAD: i64 = 1571;

/// 2 * Pi in milliradians.
pub const TAU_MRAD: i64 = 6283;

/// The player rotation always lies in `[-PLAYER_ROT_MAX, PLAYER_ROT_MAX]`:
/// an angle of two right turns from `atan2`, shifted by a quarter turn.
pub const PLAYER_ROT_MAX: i64 = 3142 + 1571;

/// Bullet rotation bound: the player rotation plus half the spread cone.
pub const BULLET_ROT_MAX: i64 = 3142 + 1571 + 174;

/// Particle rotation bound: the bullet rotation plus half the spread cone.
pub const PARTICLE_ROT_MAX: i64 = 3142 + 1571 + 174 + 174;

/// Enemy rotation bound, same shape as the player's.
pub const ENEMY_ROT_MAX: i64 = 3142 + 1571;

} // verus!
