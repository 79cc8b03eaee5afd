use vstd::prelude::*;

use vstd::arithmetic::div_mod::lemma_div_basics_1;
use vstd::arithmetic::div_mod::lemma_div_is_ordered;
use vstd::arithmetic::div_mod::lemma_div_multiples_vanish;
use vstd::arithmetic::div_mod::lemma_fundamental_div_mod;
use vstd::arithmetic::div_mod::lemma_mod_sub_multiples_vanish;
use vstd::arithmetic::div_mod::lemma_small_mod;

use crate::config::ENEMY_SPEED;
use crate::config::HALF_PI_MRAD;
use crate::config::PI_MRAD;
use crate::config::P_MAX;
use crate::config::TAU_MRAD;
use crate::config::V_MAX;
use crate::geom::Vec2i;
use crate::geom::coord_ok;
use crate::geom::dist2_spec;

verus! {

/// Angles this module accepts, in milliradians; every rotation the
/// simulation produces stays far inside this range.
pub const ANGLE_LIMIT: i64 = 100_000;

/// Scale of unit direction vectors: a unit vector has length `UNIT` here.
pub const UNIT: i64 = 1000;

/// Floor of the square root: `r` is the largest integer whose square is at most `n`.
pub fn isqrt(n: u64) -> (r: u64)
    ensures
        r * r <= n < (r + 1) * (r + 1),
        r < 4_294_967_296,
{
    if n == 0 {
        return 0;
    }
    let mut lo: u64 = 0;
    let mut hi: u64 = 4_294_967_296;
    proof {
        assert(n < 4_294_967_296 * 4_294_967_296) by (nonlinear_arith)
            requires
                n <= u64::MAX,
        ;
    }
    while lo + 1 < hi
        invariant
            lo < hi <= 4_294_967_296,
            lo * lo <= n,
            n < hi * hi,
        decreases hi - lo,
    {
        let mid = lo + (hi - lo) / 2;
        proof {
            assert(mid * mid < 4_294_967_296 * 4_294_967_296) by (nonlinear_arith)
                requires
                    0 <= mid < 4_294_967_296,
            ;
        }
        if mid * mid <= n {
            lo = mid;
        } else {
            hi = mid;
        }
    }
    lo
}

/// Bhaskara's rational sine approximation over the first quarter turn,
/// scaled to `UNIT`, as a mathematical function.
pub open spec fn sin_quarter_spec(x: int) -> int {
    let p = x * (3142 - x);
    16000 * p / (49_360_820 - 4 * p)
}

/// Sine of an angle in milliradians, scaled to `UNIT`, as a mathematical
/// function: the angle reduced to one turn, then folded onto the first
/// quarter with the sine's symmetries.
pub open spec fn sin_mrad_spec(a: int) -> int {
    let lifted = if a < 0 {
        a + 16 * TAU_MRAD
    } else {
        a
    };
    let x = lifted % (TAU_MRAD as int);
    if x < HALF_PI_MRAD {
        sin_quarter_spec(x)
    } else if x <= PI_MRAD {
        sin_quarter_spec(PI_MRAD - x)
    } else if x < PI_MRAD + HALF_PI_MRAD {
        -sin_quarter_spec(x - PI_MRAD)
    } else {
        -sin_quarter_spec(TAU_MRAD - x)
    }
}

/// Cosine as the sine shifted by a quarter turn.
pub open spec fn cos_mrad_spec(a: int) -> int {
    sin_mrad_spec(a + HALF_PI_MRAD)
}

/// Quarter-wave sine by Bhaskara's rational approximation, scaled to
/// `UNIT`; exact at 0 and at the quarter turn.
fn sin_quarter(x: u64) -> (r: u64)
    requires
        x <= HALF_PI_MRAD,
    ensures
        r == sin_quarter_spec(x as int),
        r <= UNIT,
        x == 0 ==> r == 0,
        x == HALF_PI_MRAD ==> r == UNIT,
{
    proof {
        assert(x * (3142 - x) <= 1571 * 1571 && x * (3142 - x) >= 0) by (nonlinear_arith)
            requires
                0 <= x <= 1571,
        ;
    }
    let p = x * (3142 - x);
    let num = 16000 * p;
    let den = 49_360_820 - 4 * p;
    proof {
        lemma_div_is_ordered(num as int, 1000 * (den as int), den as int);
        lemma_div_multiples_vanish(1000, den as int);
        assert((den as int) * 1000 == 1000 * (den as int));
    }
    num / den
}

/// Sine of an angle in milliradians, scaled to `UNIT`.
pub fn sin_mrad(a: i64) -> (r: i64)
    requires
        -ANGLE_LIMIT <= a <= ANGLE_LIMIT,
    ensures
        r == sin_mrad_spec(a as int),
        -UNIT <= r <= UNIT,
        a == 0 ==> r == 0,
        a == HALF_PI_MRAD ==> r == UNIT,
{
    // a negative angle is lifted by sixteen full turns, which covers the
    // accepted range
    let lifted = if a < 0 {
        a + 16 * TAU_MRAD
    } else {
        a
    };
    let mut x = lifted;
    while x >= TAU_MRAD
        invariant
            0 <= x <= 16 * TAU_MRAD + ANGLE_LIMIT,
            (x as int) % (TAU_MRAD as int) == (lifted as int) % (TAU_MRAD as int),
        decreases x,
    {
        proof {
            lemma_mod_sub_multiples_vanish(x as int, TAU_MRAD as int);
        }
        x = x - TAU_MRAD;
    }
    proof {
        lemma_small_mod(x as nat, TAU_MRAD as nat);
    }
    if x < HALF_PI_MRAD {
        sin_quarter(x as u64) as i64
    } else if x <= PI_MRAD {
        sin_quarter((PI_MRAD - x) as u64) as i64
    } else if x < PI_MRAD + HALF_PI_MRAD {
        -(sin_quarter((x - PI_MRAD) as u64) as i64)
    } else {
        -(sin_quarter((TAU_MRAD - x) as u64) as i64)
    }
}

/// Cosine of an angle in milliradians, scaled to `UNIT`.
pub fn cos_mrad(a: i64) -> (r: i64)
    requires
        -ANGLE_LIMIT + HALF_PI_MRAD <= a <= ANGLE_LIMIT - HALF_PI_MRAD,
    ensures
        r == cos_mrad_spec(a as int),
        -UNIT <= r <= UNIT,
        a == 0 ==> r == UNIT,
{
    sin_mrad(a + HALF_PI_MRAD)
}

/// The unit vector a sprite rotated by `a` fires along: sine then cosine,
/// so that a zero rotation faces straight up.
pub fn vec_from_angle(a: i64) -> (r: Vec2i)
    requires
        -ANGLE_LIMIT + HALF_PI_MRAD <= a <= ANGLE_LIMIT - HALF_PI_MRAD,
    ensures
        r.x == sin_mrad_spec(a as int),
        r.y == cos_mrad_spec(a as int),
        -UNIT <= r.x <= UNIT,
        -UNIT <= r.y <= UNIT,
        a == 0 ==> r == (Vec2i { x: 0, y: 1000 }),
{
    Vec2i { x: sin_mrad(a), y: cos_mrad(a) }
}

/// The arctangent approximation of a ratio at most one, in milliradians,
/// as a mathematical function: a linear term with a quadratic correction.
pub open spec fn atan_ratio_spec(num: int, den: int) -> int {
    if num == 0 {
        0
    } else {
        let z = num * 1000 / den;
        z * 785 / 1000 + 273 * (z * (1000 - z)) / 1_000_000
    }
}

/// The angle of the vector `(x, y)` in milliradians, as a mathematical
/// function: the octant-folded arctangent of the slope.
pub open spec fn atan2_spec(y: int, x: int) -> int {
    let ax = if x < 0 {
        -x
    } else {
        x
    };
    let ay = if y < 0 {
        -y
    } else {
        y
    };
    if ax == 0 && ay == 0 {
        0
    } else {
        let base = if ay <= ax {
            atan_ratio_spec(ay, ax)
        } else {
            (HALF_PI_MRAD as int) - atan_ratio_spec(ax, ay)
        };
        if x >= 0 {
            if y >= 0 {
                base
            } else {
                -base
            }
        } else {
            if y >= 0 {
                (PI_MRAD as int) - base
            } else {
                -((PI_MRAD as int) - base)
            }
        }
    }
}

/// Arctangent of `num / den` in milliradians, for a ratio at most one.
fn atan_ratio(num: u64, den: u64) -> (r: u64)
    requires
        num <= den,
        0 < den <= 4_000_000_000,
    ensures
        r == atan_ratio_spec(num as int, den as int),
        r <= 853,
        num == 0 ==> r == 0,
{
    if num == 0 {
        return 0;
    }
    let z = num * 1000 / den;
    proof {
        lemma_div_is_ordered((num as int) * 1000, (den as int) * 1000, den as int);
        lemma_div_multiples_vanish(1000, den as int);
        assert((den as int) * 1000 == 1000 * (den as int));
        assert(z <= 1000);
        assert(z * (1000 - z) <= 250_000 && z * (1000 - z) >= 0) by (nonlinear_arith)
            requires
                0 <= z <= 1000,
        ;
    }
    let lin = z * 785 / 1000;
    let q = z * (1000 - z);
    let corr = 273 * q / 1_000_000;
    lin + corr
}

fn abs64(v: i64) -> (r: i64)
    requires
        -2 * P_MAX <= v <= 2 * P_MAX,
    ensures
        r == if v < 0 {
            (-v) as i64
        } else {
            v
        },
        r >= 0,
        r == 0 <==> v == 0,
{
    if v < 0 {
        -v
    } else {
        v
    }
}

/// Angle of the vector `(x, y)` in milliradians, in `[-PI_MRAD, PI_MRAD]`;
/// exact on the four axes, zero at the origin, and always in the
/// quadrant of its argument.
pub fn atan2_mrad(y: i64, x: i64) -> (r: i64)
    requires
        -2 * P_MAX <= y <= 2 * P_MAX,
        -2 * P_MAX <= x <= 2 * P_MAX,
    ensures
        r == atan2_spec(y as int, x as int),
        -PI_MRAD <= r <= PI_MRAD,
        y == 0 && x > 0 ==> r == 0,
        y == 0 && x < 0 ==> r == PI_MRAD,
        x == 0 && y > 0 ==> r == HALF_PI_MRAD,
        x == 0 && y < 0 ==> r == -HALF_PI_MRAD,
        x == 0 && y == 0 ==> r == 0,
        y >= 0 && x >= 0 ==> 0 <= r <= HALF_PI_MRAD,
        y >= 0 && x < 0 ==> HALF_PI_MRAD <= r <= PI_MRAD,
        y < 0 && x >= 0 ==> -HALF_PI_MRAD <= r <= 0,
        y < 0 && x < 0 ==> -PI_MRAD <= r <= -HALF_PI_MRAD,
{
    let ax = abs64(x);
    let ay = abs64(y);
    if ax == 0 && ay == 0 {
        return 0;
    }
    let base: i64 = if ay <= ax {
        atan_ratio(ay as u64, ax as u64) as i64
    } else {
        HALF_PI_MRAD - (atan_ratio(ax as u64, ay as u64) as i64)
    };
    if x >= 0 {
        if y >= 0 {
            base
        } else {
            -base
        }
    } else {
        if y >= 0 {
            PI_MRAD - base
        } else {
            -(PI_MRAD - base)
        }
    }
}

/// A velocity of magnitude close to `speed` aimed from `from` toward
/// `to`: the difference vector scaled to `speed` by the rounded-down
/// norm.  Each component keeps the sign of the difference and is exact
/// on the axes; whenever the target is at least `speed` away, the
/// squared magnitude lies in a tight band around `speed` squared.
pub fn aim_velocity(from: Vec2i, to: Vec2i, speed: i64) -> (r: Vec2i)
    requires
        coord_ok(from),
        coord_ok(to),
        0 <= speed <= V_MAX,
    ensures
        -speed <= r.x <= speed,
        -speed <= r.y <= speed,
        to == from ==> r == (Vec2i { x: 0, y: 0 }),
        to.y == from.y && to.x > from.x ==> r == (Vec2i { x: speed, y: 0 }),
        to.y == from.y && to.x < from.x ==> r == (Vec2i { x: ((-speed) as i64), y: 0 }),
        to.x == from.x && to.y > from.y ==> r == (Vec2i { x: 0, y: speed }),
        to.x == from.x && to.y < from.y ==> r == (Vec2i { x: 0, y: ((-speed) as i64) }),
        to.x >= from.x ==> r.x >= 0,
        to.x <= from.x ==> r.x <= 0,
        to.y >= from.y ==> r.y >= 0,
        to.y <= from.y ==> r.y <= 0,
        dist2_spec(from, to) >= speed * speed ==> speed * speed - 4 * speed - 2 <= r.x * r.x + r.y
            * r.y <= (speed + 1) * (speed + 1),
{
    let dx = to.x - from.x;
    let dy = to.y - from.y;
    if dx == 0 && dy == 0 {
        return Vec2i { x: 0, y: 0 };
    }
    let ax = abs64(dx) as u64;
    let ay = abs64(dy) as u64;
    proof {
        assert(ax * ax <= 4_000_000_000_000_000_000 && ay * ay <= 4_000_000_000_000_000_000 && ax
            * ax >= 0 && ay * ay >= 0 && (ax >= 1 ==> ax * ax >= 1) && (ay >= 1 ==> ay * ay >= 1)
            && ax * ax + ay * ay == dist2_spec(from, to)) by (nonlinear_arith)
            requires
                0 <= ax <= 2_000_000_000 && 0 <= ay <= 2_000_000_000 && (ax == dx || ax == -dx) && (
                ay == dy || ay == -dy) && dx == to.x - from.x && dy == to.y - from.y,
        ;
    }
    let d2 = ax * ax + ay * ay;
    let len = isqrt(d2);
    proof {
        assert(len >= 1) by (nonlinear_arith)
            requires
                d2 >= 1 && d2 < (len + 1) * (len + 1) && len >= 0,
        ;
        assert(ax <= len && ay <= len) by (nonlinear_arith)
            requires
                ax * ax <= d2 && ay * ay <= d2 && d2 < (len + 1) * (len + 1) && ax >= 0 && ay >= 0
                    && len >= 0,
        ;
        assert(ax * (speed as u64) <= len * (speed as u64) && ay * (speed as u64) <= len * (
        speed as u64) && len * (speed as u64) <= 4_294_967_296 * 100_000) by (nonlinear_arith)
            requires
                0 <= ax <= len && 0 <= ay <= len && len < 4_294_967_296 && 0 <= speed <= 100_000,
        ;
        lemma_div_is_ordered((ax * (speed as u64)) as int, (len * (speed as u64)) as int,
            len as int);
        lemma_div_is_ordered((ay * (speed as u64)) as int, (len * (speed as u64)) as int,
            len as int);
        lemma_div_multiples_vanish(speed as int, len as int);
        assert((len as int) * (speed as int) == len * (speed as u64));
        // on an axis the norm is exact, so the scaling is too
        if ay == 0 {
            assert(ay * ay == 0 && ay * (speed as u64) == 0) by (nonlinear_arith)
                requires
                    ay == 0,
            ;
            lemma_div_basics_1(len as int);
            assert(len == ax) by (nonlinear_arith)
                requires
                    len * len <= d2 && d2 == ax * ax && d2 < (len + 1) * (len + 1) && len >= 0 && ax
                        >= 0,
            ;
            lemma_div_multiples_vanish(speed as int, ax as int);
        }
        if ax == 0 {
            assert(ax * ax == 0 && ax * (speed as u64) == 0) by (nonlinear_arith)
                requires
                    ax == 0,
            ;
            lemma_div_basics_1(len as int);
            assert(len == ay) by (nonlinear_arith)
                requires
                    len * len <= d2 && d2 == ay * ay && d2 < (len + 1) * (len + 1) && len >= 0 && ay
                        >= 0,
            ;
            lemma_div_multiples_vanish(speed as int, ay as int);
        }
        lemma_div_multiples_vanish(0, len as int);
    }
    let vx = (ax * (speed as u64) / len) as i64;
    let vy = (ay * (speed as u64) / len) as i64;
    proof {
        lemma_norm_band(ax as int, ay as int, len as int, speed as int, vx as int, vy as int);
        assert((-vx) * (-vx) == vx * vx && (-vy) * (-vy) == vy * vy) by (nonlinear_arith);
    }
    Vec2i {
        x: if dx < 0 {
            -vx
        } else {
            vx
        },
        y: if dy < 0 {
            -vy
        } else {
            vy
        },
    }
}

/// The scaled components keep the vector's magnitude within a tight band
/// of the wanted speed once the target is at least that speed away.
proof fn lemma_norm_band(ax: int, ay: int, len: int, s: int, vx: int, vy: int)
    requires
        0 <= ax <= len,
        0 <= ay <= len,
        1 <= len,
        0 <= s,
        len * len <= ax * ax + ay * ay < (len + 1) * (len + 1),
        vx == ax * s / len,
        vy == ay * s / len,
        0 <= vx <= s,
        0 <= vy <= s,
    ensures
        ax * ax + ay * ay >= s * s ==> s * s - 4 * s - 2 <= vx * vx + vy * vy <= (s + 1) * (s + 1),
{
    if ax * ax + ay * ay >= s * s && s == 0 {
        assert(vx == 0 && vy == 0);
        assert(vx * vx + vy * vy == 0) by (nonlinear_arith)
            requires
                vx == 0 && vy == 0,
        ;
    }
    if ax * ax + ay * ay >= s * s && s > 0 {
        let d2 = ax * ax + ay * ay;
        assert(len + 1 > s) by (nonlinear_arith)
            requires
                (len + 1) * (len + 1) > d2 && d2 >= s * s && len + 1 >= 0 && s >= 0,
        ;
        assert(len * len >= 1) by (nonlinear_arith)
            requires
                len >= 1,
        ;
        lemma_fundamental_div_mod(ax * s, len);
        lemma_fundamental_div_mod(ay * s, len);
        let rx = (ax * s) % len;
        let ry = (ay * s) % len;
        let px = ax * s;
        let py = ay * s;
        let mx = vx * len;
        let my = vy * len;
        let qx = (vx + 1) * len;
        let qy = (vy + 1) * len;
        assert(mx <= px < qx && px >= 0) by (nonlinear_arith)
            requires
                px == len * vx + rx && 0 <= rx < len && mx == vx * len && qx == (vx + 1) * len && vx
                    >= 0,
        ;
        assert(my <= py < qy && py >= 0) by (nonlinear_arith)
            requires
                py == len * vy + ry && 0 <= ry < len && my == vy * len && qy == (vy + 1) * len && vy
                    >= 0,
        ;
        // ring identities tying the named products to the squared norms
        assert(px * px + py * py == (s * s) * d2) by (nonlinear_arith)
            requires
                px == ax * s && py == ay * s && d2 == ax * ax + ay * ay,
        ;
        assert(mx * mx + my * my == (vx * vx + vy * vy) * (len * len)) by (nonlinear_arith)
            requires
                mx == vx * len && my == vy * len,
        ;
        assert(qx * qx + qy * qy == ((vx + 1) * (vx + 1) + (vy + 1) * (vy + 1)) * (len * len))
            by (nonlinear_arith)
            requires
                qx == (vx + 1) * len && qy == (vy + 1) * len,
        ;
        assert(mx * mx <= px * px && my * my <= py * py) by (nonlinear_arith)
            requires
                mx == vx * len && my == vy * len && vx >= 0 && vy >= 0 && len >= 1 && mx <= px && my
                    <= py,
        ;
        assert(px * px <= qx * qx && py * py <= qy * qy) by (nonlinear_arith)
            requires
                0 <= px < qx && 0 <= py < qy,
        ;
        // upper bound: through s^2 (len+1)^2 <= (s+1)^2 len^2
        let u = (len + 1) * s;
        let w = len * (s + 1);
        assert(0 <= u <= w) by (nonlinear_arith)
            requires
                u == (len + 1) * s && w == len * (s + 1) && 0 <= s <= len,
        ;
        assert(u * u == (s * s) * ((len + 1) * (len + 1)) && w * w == ((s + 1) * (s + 1)) * (len
            * len)) by (nonlinear_arith)
            requires
                u == (len + 1) * s && w == len * (s + 1),
        ;
        assert(u * u <= w * w) by (nonlinear_arith)
            requires
                0 <= u <= w,
        ;
        assert((s * s) * d2 <= (s * s) * ((len + 1) * (len + 1))) by (nonlinear_arith)
            requires
                d2 <= (len + 1) * (len + 1) && s * s >= 0,
        ;
        assert((vx * vx + vy * vy) * (len * len) <= ((s + 1) * (s + 1)) * (len * len));
        assert(vx * vx + vy * vy <= (s + 1) * (s + 1)) by (nonlinear_arith)
            requires
                (vx * vx + vy * vy) * (len * len) <= ((s + 1) * (s + 1)) * (len * len) && len * len
                    >= 1,
        ;
        // lower bound: through s^2 len^2 <= s^2 d2
        assert((s * s) * (len * len) <= (s * s) * d2) by (nonlinear_arith)
            requires
                len * len <= d2 && s * s >= 0,
        ;
        assert((s * s) * (len * len) <= ((vx + 1) * (vx + 1) + (vy + 1) * (vy + 1)) * (len * len));
        assert(s * s <= (vx + 1) * (vx + 1) + (vy + 1) * (vy + 1)) by (nonlinear_arith)
            requires
                (s * s) * (len * len) <= ((vx + 1) * (vx + 1) + (vy + 1) * (vy + 1)) * (len * len)
                    && len * len >= 1,
        ;
        assert(vx * vx + vy * vy >= s * s - 4 * s - 2) by (nonlinear_arith)
            requires
                s * s <= (vx + 1) * (vx + 1) + (vy + 1) * (vy + 1) && vx <= s && vy <= s,
        ;
    }
}

/// The standard enemy velocity: aimed at the player at the fixed enemy
/// speed, with the magnitude band inherited whenever the player stands
/// at least one step away.
pub fn enemy_velocity(enemy_pos: Vec2i, player_pos: Vec2i) -> (r: Vec2i)
    requires
        coord_ok(enemy_pos),
        coord_ok(player_pos),
    ensures
        -ENEMY_SPEED <= r.x <= ENEMY_SPEED,
        -ENEMY_SPEED <= r.y <= ENEMY_SPEED,
        player_pos.y == enemy_pos.y && player_pos.x > enemy_pos.x ==> r == (Vec2i {
            x: ENEMY_SPEED,
            y: 0,
        }),
        player_pos.y == enemy_pos.y && player_pos.x < enemy_pos.x ==> r == (Vec2i {
            x: (-ENEMY_SPEED) as i64,
            y: 0,
        }),
        player_pos.x >= enemy_pos.x ==> r.x >= 0,
        player_pos.x <= enemy_pos.x ==> r.x <= 0,
        player_pos.y >= enemy_pos.y ==> r.y >= 0,
        player_pos.y <= enemy_pos.y ==> r.y <= 0,
        dist2_spec(enemy_pos, player_pos) >= ENEMY_SPEED * ENEMY_SPEED ==> ENEMY_SPEED * ENEMY_SPEED
            - 4 * ENEMY_SPEED - 2 <= r.x * r.x + r.y * r.y <= (ENEMY_SPEED + 1) * (ENEMY_SPEED + 1),
{
    aim_velocity(enemy_pos, player_pos, ENEMY_SPEED)
}

} // verus!
