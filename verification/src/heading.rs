//! Turning a direction and a speed into a velocity.
//!
//! A velocity points along a given displacement and has the length of the
//! given speed, as far as whole numbers allow: each component is rounded
//! toward zero, so the result is never faster than the speed asked for.

use vstd::prelude::*;
use crate::vector::{abs, clamp_coord, trunc_div, Vec2, COORD_MAX, COORD_MIN};

verus! {

/// Lengths are measured in steps of `1 / FINE` of a grid step, so that even
/// the shortest displacement gets an accurate direction.
pub const FINE: u64 = 65536;

/// `r` is the square root of `n`, rounded up.
pub open spec fn is_ceil_sqrt(n: nat, r: nat) -> bool {
    r * r >= n && (r == 0 || (r - 1) * (r - 1) < n)
}

/// The square root of `n`, rounded up.
pub open spec fn ceil_sqrt(n: nat) -> nat {
    choose|r: nat| is_ceil_sqrt(n, r)
}

/// The length of the displacement `(dx, dy)` in steps of `1 / FINE`, rounded up.
pub open spec fn fine_length(dx: int, dy: int) -> nat {
    ceil_sqrt(((dx * dx + dy * dy) * FINE * FINE) as nat)
}

/// One component of a velocity of length `speed` along a displacement whose
/// own component is `d` and whose length is `length / FINE`.
pub open spec fn heading_component(d: int, speed: int, length: int) -> int {
    clamp_coord(trunc_div(d * speed * FINE, length))
}

/// The velocity of length `speed` along the displacement `(dx, dy)`; none
/// for the displacement of length zero, which has no direction.
pub open spec fn heading(dx: int, dy: int, speed: int) -> Option<Vec2> {
    if dx == 0 && dy == 0 {
        None
    } else {
        Some(
            Vec2 {
                x: heading_component(dx, speed, fine_length(dx, dy) as int) as i32,
                y: heading_component(dy, speed, fine_length(dx, dy) as int) as i32,
            },
        )
    }
}

/// Squares grow with their roots.
proof fn lemma_square_monotonic(a: nat, b: nat)
    requires
        a <= b,
    ensures
        a * a <= b * b,
{
    assert(a * a <= b * b) by (nonlinear_arith)
        requires
            a <= b,
    ;
}

/// A number has only one rounded-up square root.
pub proof fn lemma_ceil_sqrt_unique(n: nat, r: nat)
    requires
        is_ceil_sqrt(n, r),
    ensures
        ceil_sqrt(n) == r,
{
    let c = ceil_sqrt(n);
    assert(is_ceil_sqrt(n, c));
    if c < r {
        lemma_square_monotonic(c, (r - 1) as nat);
    } else if r < c {
        lemma_square_monotonic(r, (c - 1) as nat);
    }
}

/// Every number has a rounded-up square root.
pub proof fn lemma_ceil_sqrt_exists(n: nat)
    ensures
        is_ceil_sqrt(n, ceil_sqrt(n)),
{
    assert(n * n >= n) by (nonlinear_arith);
    lemma_ceil_sqrt_below(n, n);
}

/// A rounded-up square root of `n` is found at or below any `r` whose
/// square reaches `n`.
proof fn lemma_ceil_sqrt_below(n: nat, r: nat)
    requires
        r * r >= n,
    ensures
        exists|s: nat| is_ceil_sqrt(n, s),
    decreases r,
{
    if r == 0 || (r - 1) * (r - 1) < n {
        assert(is_ceil_sqrt(n, r));
    } else {
        lemma_ceil_sqrt_below(n, (r - 1) as nat);
    }
}

/// A displacement is at least as long as each of its components:
/// `fine_length` is not below `FINE` times the size of `dx`.
pub proof fn lemma_length_covers_component(dx: int, dy: int)
    ensures
        abs(dx) * FINE <= fine_length(dx, dy),
        abs(dy) * FINE <= fine_length(dx, dy),
        (dx != 0 || dy != 0) ==> fine_length(dx, dy) > 0,
{
    let n = ((dx * dx + dy * dy) * FINE * FINE) as nat;
    assert((dx * dx + dy * dy) * FINE * FINE >= 0) by (nonlinear_arith);
    lemma_ceil_sqrt_exists(n);
    let length = fine_length(dx, dy);
    assert(length * length >= n);
    let a = abs(dx) * FINE;
    let b = abs(dy) * FINE;
    assert(a * a <= n && b * b <= n) by (nonlinear_arith)
        requires
            a == abs(dx) * FINE,
            b == abs(dy) * FINE,
            n == (dx * dx + dy * dy) * FINE * FINE,
    ;
    if a > length {
        lemma_square_monotonic(length + 1, a as nat);
        assert((length + 1) * (length + 1) > length * length) by (nonlinear_arith);
    }
    if b > length {
        lemma_square_monotonic(length + 1, b as nat);
        assert((length + 1) * (length + 1) > length * length) by (nonlinear_arith);
    }
    if dx != 0 || dy != 0 {
        assert(a > 0 || b > 0) by (nonlinear_arith)
            requires
                a == abs(dx) * FINE,
                b == abs(dy) * FINE,
                dx != 0 || dy != 0,
        ;
    }
}

/// No component of a heading is larger than the speed.
pub proof fn lemma_heading_within_speed(dx: int, dy: int, speed: int)
    requires
        dx != 0 || dy != 0,
        0 <= speed,
    ensures
        -speed <= trunc_div(dx * speed * FINE, fine_length(dx, dy) as int) <= speed,
        -speed <= trunc_div(dy * speed * FINE, fine_length(dx, dy) as int) <= speed,
{
    lemma_length_covers_component(dx, dy);
    lemma_quotient_within(dx, speed, fine_length(dx, dy) as int);
    lemma_quotient_within(dy, speed, fine_length(dx, dy) as int);
}

/// The quotient in a heading component stays within the speed.
proof fn lemma_quotient_within(d: int, speed: int, length: int)
    requires
        0 <= speed,
        0 < length,
        abs(d) * FINE <= length,
    ensures
        -speed <= trunc_div(d * speed * FINE, length) <= speed,
{
    let top = abs(d) * speed * FINE;
    assert(0 <= top <= speed * length) by (nonlinear_arith)
        requires
            top == abs(d) * speed * FINE,
            abs(d) * FINE <= length,
            0 <= speed,
            0 <= abs(d),
    ;
    assert(0 <= top / length <= speed) by (nonlinear_arith)
        requires
            0 <= top <= speed * length,
            0 < length,
    ;
    if d >= 0 {
        assert(d * speed * FINE == top);
    } else {
        assert(d * speed * FINE == -top) by (nonlinear_arith)
            requires
                top == (-d) * speed * FINE,
        ;
    }
}

/// A heading is never longer than the speed: moving along a diagonal is no
/// faster than moving along an axis.
pub proof fn lemma_heading_no_faster(dx: int, dy: int, speed: int)
    requires
        dx != 0 || dy != 0,
        0 <= speed <= COORD_MAX,
    ensures
        heading(dx, dy, speed) matches Some(v) && v.x * v.x + v.y * v.y <= speed * speed,
{
    lemma_length_covers_component(dx, dy);
    lemma_heading_within_speed(dx, dy, speed);
    let length = fine_length(dx, dy) as int;
    let n = (dx * dx + dy * dy) * FINE * FINE;
    assert(n >= 0) by (nonlinear_arith)
        requires
            n == (dx * dx + dy * dy) * FINE * FINE,
    ;
    lemma_ceil_sqrt_exists(n as nat);
    assert(length * length >= n);
    let qx = trunc_div(dx * speed * FINE, length);
    let qy = trunc_div(dy * speed * FINE, length);
    lemma_quotient_square(dx, speed, length);
    lemma_quotient_square(dy, speed, length);
    // (qx^2 + qy^2) * length^2 <= n * speed^2 <= length^2 * speed^2
    let sx = qx * qx;
    let sy = qy * qy;
    let area = length * length;
    let pace = speed * speed;
    let ax = (dx * dx) * pace * (FINE * FINE);
    let ay = (dy * dy) * pace * (FINE * FINE);
    assert(area > 0) by (nonlinear_arith)
        requires
            area == length * length,
            length > 0,
    ;
    assert(pace >= 0) by (nonlinear_arith)
        requires
            pace == speed * speed,
    ;
    assert(ax + ay == n * pace) by (nonlinear_arith)
        requires
            ax == (dx * dx) * pace * (FINE * FINE),
            ay == (dy * dy) * pace * (FINE * FINE),
            n == (dx * dx + dy * dy) * FINE * FINE,
    ;
    assert(n * pace <= area * pace) by (nonlinear_arith)
        requires
            n <= area,
            pace >= 0,
    ;
    assert((sx + sy) * area == sx * area + sy * area) by (nonlinear_arith);
    assert(sx + sy <= pace) by (nonlinear_arith)
        requires
            (sx + sy) * area <= pace * area,
            area > 0,
    ;
}

/// The square of a heading component, scaled by the length, stays within
/// the square of what it was cut from.
proof fn lemma_quotient_square(d: int, speed: int, length: int)
    requires
        0 <= speed,
        0 < length,
    ensures
        ({
            let q = trunc_div(d * speed * FINE, length);
            (q * q) * (length * length) <= (d * d) * (speed * speed) * (FINE * FINE)
        }),
{
    let top = abs(d) * speed * FINE;
    assert(0 <= top) by (nonlinear_arith)
        requires
            top == abs(d) * speed * FINE,
            0 <= speed,
            0 <= abs(d),
    ;
    let t = top / length;
    assert(0 <= t * length <= top) by (nonlinear_arith)
        requires
            t == top / length,
            0 <= top,
            0 < length,
    ;
    let q = trunc_div(d * speed * FINE, length);
    if d >= 0 {
        assert(d * speed * FINE == top);
        assert(q == t);
    } else {
        assert(d * speed * FINE == -top) by (nonlinear_arith)
            requires
                top == (-d) * speed * FINE,
        ;
        assert(q == -t);
    }
    assert(q * q == t * t) by (nonlinear_arith)
        requires
            q == t || q == -t,
    ;
    assert((t * length) * (t * length) <= top * top) by (nonlinear_arith)
        requires
            0 <= t * length <= top,
    ;
    assert((t * t) * (length * length) == (t * length) * (t * length)) by (nonlinear_arith);
    assert(top * top == (d * d) * (speed * speed) * (FINE * FINE)) by (nonlinear_arith)
        requires
            top == abs(d) * speed * FINE,
            abs(d) == d || abs(d) == -d,
    ;
}

/// Along an axis a heading has the full speed, and it leaves the other
/// axis alone.
pub proof fn lemma_heading_along_axis(d: int, speed: int)
    requires
        d != 0,
        0 <= speed <= COORD_MAX,
    ensures
        heading(d, 0, speed) == Some(
            Vec2 {
                x: (if d > 0 {
                    speed
                } else {
                    -speed
                }) as i32,
                y: 0,
            },
        ),
        heading(0, d, speed) == Some(
            Vec2 {
                x: 0,
                y: (if d > 0 {
                    speed
                } else {
                    -speed
                }) as i32,
            },
        ),
{
    let length = abs(d) * FINE;
    assert(length > 0) by (nonlinear_arith)
        requires
            length == abs(d) * FINE,
            abs(d) > 0,
    ;
    assert(length * length == (d * d + 0 * 0) * FINE * FINE
        && length * length == (0 * 0 + d * d) * FINE * FINE
        && (length - 1) * (length - 1) < length * length) by (nonlinear_arith)
        requires
            length == abs(d) * FINE,
            abs(d) == d || abs(d) == -d,
            length > 0,
    ;
    lemma_ceil_sqrt_unique((length * length) as nat, length as nat);
    assert(fine_length(d, 0) == length);
    assert(fine_length(0, d) == length);
    let top = abs(d) * speed * FINE;
    assert(top == speed * length && top >= 0) by (nonlinear_arith)
        requires
            top == abs(d) * speed * FINE,
            length == abs(d) * FINE,
            speed >= 0,
            abs(d) > 0,
    ;
    assert(top / length == speed) by (nonlinear_arith)
        requires
            top == speed * length,
            length > 0,
    ;
    if d > 0 {
        assert(d * speed * FINE == top);
    } else {
        assert(d * speed * FINE == -top) by (nonlinear_arith)
            requires
                top == (-d) * speed * FINE,
        ;
    }
    assert(0 * speed * FINE == 0) by (nonlinear_arith);
    assert(0int / length == 0) by (nonlinear_arith)
        requires
            length > 0,
    ;
}

/// Computes the square root of `n`, rounded up.
pub fn ceil_sqrt_of(n: u128) -> (r: u128)
    ensures
        r == ceil_sqrt(n as nat),
        is_ceil_sqrt(n as nat, r as nat),
{
    if n == 0 {
        proof {
            lemma_ceil_sqrt_unique(0, 0);
        }
        return 0;
    }
    let mut low: u128 = 0;
    let mut high: u128 = 0x1_0000_0000_0000_0000;
    assert(high * high >= n) by (nonlinear_arith)
        requires
            high == 0x1_0000_0000_0000_0000,
            n <= u128::MAX,
    ;
    while high - low > 1
        invariant
            low < high <= 0x1_0000_0000_0000_0000,
            low * low < n,
            high * high >= n,
        decreases high - low,
    {
        let middle: u128 = low + (high - low) / 2;
        assert(middle * middle <= 0xffff_ffff_ffff_ffff * 0xffff_ffff_ffff_ffff)
            by (nonlinear_arith)
            requires
                middle <= 0xffff_ffff_ffff_ffff,
        ;
        if middle * middle >= n {
            high = middle;
        } else {
            low = middle;
        }
    }
    proof {
        lemma_ceil_sqrt_unique(n as nat, high as nat);
    }
    high
}

/// The size of `v`.
fn magnitude(v: i64) -> (m: u64)
    requires
        v > i64::MIN,
    ensures
        m == abs(v as int),
{
    if v < 0 {
        (-v) as u64
    } else {
        v as u64
    }
}

/// One component of `heading`, from the sizes of its parts.
fn component(negative: bool, size: u64, speed: u32, length: u128) -> (c: i32)
    requires
        size <= 0xffff_ffff,
        length > 0,
    ensures
        c == heading_component(
            if negative {
                -(size as int)
            } else {
                size as int
            },
            speed as int,
            length as int,
        ),
{
    assert(size * speed <= 0xffff_ffff * 0xffff_ffff) by (nonlinear_arith)
        requires
            size <= 0xffff_ffff,
            speed <= 0xffff_ffff,
    ;
    let scaled: u128 = (size as u128) * (speed as u128) * (FINE as u128);
    let quotient: u128 = scaled / length;
    assert((-(size as int)) * speed * FINE == -(size * speed * FINE)) by (nonlinear_arith);
    assert(size * speed * FINE >= 0) by (nonlinear_arith);
    if negative {
        if quotient > 2147483648 {
            COORD_MIN
        } else {
            (-(quotient as i64)) as i32
        }
    } else {
        if quotient > 2147483647 {
            COORD_MAX
        } else {
            quotient as i32
        }
    }
}

/// Computes `heading(dx, dy, speed)`.
fn directed(dx: i64, dy: i64, speed: u32) -> (v: Option<Vec2>)
    requires
        -0xffff_ffff <= dx <= 0xffff_ffff,
        -0xffff_ffff <= dy <= 0xffff_ffff,
    ensures
        v == heading(dx as int, dy as int, speed as int),
{
    if dx == 0 && dy == 0 {
        return None;
    }
    let size_x: u64 = magnitude(dx);
    let size_y: u64 = magnitude(dy);
    assert(size_x * size_x <= 0xffff_ffff * 0xffff_ffff) by (nonlinear_arith)
        requires
            size_x <= 0xffff_ffff,
    ;
    assert(size_y * size_y <= 0xffff_ffff * 0xffff_ffff) by (nonlinear_arith)
        requires
            size_y <= 0xffff_ffff,
    ;
    assert(size_x * size_x == dx * dx && size_y * size_y == dy * dy) by (nonlinear_arith)
        requires
            size_x == abs(dx as int),
            size_y == abs(dy as int),
    ;
    let squares: u128 = (size_x as u128) * (size_x as u128) + (size_y as u128) * (size_y as u128);
    assert(squares > 0) by (nonlinear_arith)
        requires
            squares == size_x * size_x + size_y * size_y,
            size_x > 0 || size_y > 0,
    ;
    let length: u128 = ceil_sqrt_of(squares * (FINE as u128) * (FINE as u128));
    assert(length > 0) by {
        assert(length * length >= squares * FINE * FINE);
        assert(squares * FINE * FINE > 0) by (nonlinear_arith)
            requires
                squares > 0,
        ;
        assert(length != 0) by (nonlinear_arith)
            requires
                length * length > 0,
        ;
    }
    Some(
        Vec2 {
            x: component(dx < 0, size_x, speed, length),
            y: component(dy < 0, size_y, speed, length),
        },
    )
}

/// The velocity of length `speed` that leads from `from` toward `to`; none
/// where the two coincide.
pub open spec fn aimed(from: Vec2, to: Vec2, speed: u32) -> Option<Vec2> {
    heading(to.x - from.x, to.y - from.y, speed as int)
}

/// Computes the velocity of length `speed` that leads from `from` toward `to`.
pub fn velocity_toward(from: Vec2, to: Vec2, speed: u32) -> (v: Option<Vec2>)
    ensures
        v == aimed(from, to, speed),
        v is None <==> from == to,
{
    directed(to.x as i64 - from.x as i64, to.y as i64 - from.y as i64, speed)
}

/// Computes the velocity of length `speed` along `direction`.
pub fn velocity_along(direction: Vec2, speed: u32) -> (v: Option<Vec2>)
    ensures
        v == heading(direction.x as int, direction.y as int, speed as int),
        v is None <==> direction.x == 0 && direction.y == 0,
{
    directed(direction.x as i64, direction.y as i64, speed)
}

} // verus!
