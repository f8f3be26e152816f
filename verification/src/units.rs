//! Fixed-point scalars, vectors and blend weights.

use vstd::prelude::*;

verus! {

/// Scalar steps in one world unit.
pub const UNIT: i32 = 1000;

/// Denominator of a blend weight.
pub const BLEND_ONE: u32 = 1_000_000;

/// A point or a velocity in the plane, in thousandths of a unit.
#[derive(Clone, Copy, Debug, PartialEq, Eq, Structural)]
pub struct Vec2 {
    pub x: i32,
    pub y: i32,
}

/// A point in space, in thousandths of a unit.
#[derive(Clone, Copy, Debug, PartialEq, Eq, Structural)]
pub struct Vec3 {
    pub x: i32,
    pub y: i32,
    pub z: i32,
}

/// A weight between zero and one, in millionths.
#[derive(Clone, Copy, Debug)]
pub struct Blend {
    ppm: u32,
}

impl View for Blend {
    type V = nat;

    closed spec fn view(&self) -> nat {
        self.ppm as nat
    }
}

impl Blend {
    #[verifier::type_invariant]
    spec fn in_range(self) -> bool {
        self.ppm <= BLEND_ONE
    }

    /// What every weight satisfies: it is at most one.
    pub open spec fn wf(self) -> bool {
        self@ <= BLEND_ONE
    }

    /// The weight of `ppm` millionths, saturated at one.
    pub fn from_ppm(ppm: u32) -> (b: Blend)
        ensures
            b.wf(),
            b@ == if ppm <= BLEND_ONE { ppm } else { BLEND_ONE },
    {
        if ppm <= BLEND_ONE {
            Blend { ppm }
        } else {
            Blend { ppm: BLEND_ONE }
        }
    }

    /// The weight in millionths.
    pub fn ppm(&self) -> (p: u32)
        ensures
            p == self@,
            self.wf(),
    {
        proof {
            use_type_invariant(self);
        }
        self.ppm
    }
}

/// The quotient rounded toward zero.
pub open spec fn trunc_div(p: int, d: int) -> int {
    if p >= 0 {
        p / d
    } else {
        -((-p) / d)
    }
}

/// A fixed-point product: `component` thousandths of `factor`.
pub open spec fn scaled(component: int, factor: int) -> int {
    trunc_div(component * factor, UNIT as int)
}

/// The two ends weighed against each other: `from` with what `weight` leaves
/// of a million, `to` with `weight`.
pub open spec fn weighted_sum(from: int, to: int, weight: nat) -> int {
    from * (BLEND_ONE - weight) + to * weight
}

/// The value `weight` millionths of the way from `from` to `to`: the weighted
/// mean of the two, rounded toward zero.
pub open spec fn blend_scalar(from: int, to: int, weight: nat) -> int {
    trunc_div(weighted_sum(from, to, weight), BLEND_ONE as int)
}

/// `r` is the integer part of the square root of `n`.
pub open spec fn is_floor_sqrt(n: int, r: int) -> bool {
    0 <= r && r * r <= n < (r + 1) * (r + 1)
}

/// The integer part of the square root of `n`.
pub open spec fn floor_sqrt(n: int) -> int {
    choose|r: int| is_floor_sqrt(n, r)
}

/// The square of a vector's length.
pub open spec fn length_sq(v: Vec2) -> int {
    v.x * v.x + v.y * v.y
}

/// Whether both components lie within one unit of zero, as those of every
/// direction of length at most one do.
pub open spec fn within_unit(v: Vec2) -> bool {
    -UNIT <= v.x <= UNIT && -UNIT <= v.y <= UNIT
}

/// A blend never leaves the interval between its ends, starts at `from` and
/// ends at `to`. It is never larger in size than the weighted mean that it
/// rounds.
pub proof fn lemma_blend_between(from: int, to: int, weight: nat)
    requires
        weight <= BLEND_ONE,
    ensures
        from <= to ==> from <= blend_scalar(from, to, weight) <= to,
        to <= from ==> to <= blend_scalar(from, to, weight) <= from,
        weight == 0 ==> blend_scalar(from, to, weight) == from,
        weight == BLEND_ONE ==> blend_scalar(from, to, weight) == to,
        weighted_sum(from, to, weight) >= 0 ==> 0 <= BLEND_ONE * blend_scalar(from, to, weight)
            <= weighted_sum(from, to, weight),
        weighted_sum(from, to, weight) <= 0 ==> weighted_sum(from, to, weight) <= BLEND_ONE
            * blend_scalar(from, to, weight) <= 0,
{
    let w = weight as int;
    let sum = weighted_sum(from, to, weight);
    assert(sum == from * 1_000_000 + (to - from) * w && sum == to * 1_000_000 - (to - from) * (
    1_000_000 - w)) by (nonlinear_arith)
        requires
            sum == from * (1_000_000 - w) + to * w,
    ;
    assert(from <= to ==> (to - from) * w >= 0 && (to - from) * (1_000_000 - w) >= 0)
        by (nonlinear_arith)
        requires
            0 <= w <= 1_000_000,
    ;
    assert(to <= from ==> (to - from) * w <= 0 && (to - from) * (1_000_000 - w) <= 0)
        by (nonlinear_arith)
        requires
            0 <= w <= 1_000_000,
    ;
    assert(w == 0 ==> (to - from) * w == 0) by (nonlinear_arith);
    assert(w == 1_000_000 ==> (to - from) * (1_000_000 - w) == 0) by (nonlinear_arith);
}

/// Between equal ends a blend does not move.
pub proof fn lemma_blend_of_equals(value: int, weight: nat)
    ensures
        blend_scalar(value, value, weight) == value,
{
    let w = weight as int;
    assert(value * (1_000_000 - w) + value * w == value * 1_000_000) by (nonlinear_arith);
}

/// The square of a sum.
proof fn lemma_square_of_sum(x: int, y: int)
    ensures
        (x + y) * (x + y) == x * x + 2 * (x * y) + y * y,
{
    assert((x + y) * (x + y) == x * x + 2 * (x * y) + y * y) by (nonlinear_arith);
}

/// A product of two products, regrouped.
proof fn lemma_regroup(a: int, b: int, c: int, d: int)
    ensures
        (a * b) * (c * d) == (a * c) * (b * d),
        (a * b) * (c * d) == (a * d) * (b * c),
{
    assert((a * b) * (c * d) == (a * c) * (b * d)) by (nonlinear_arith);
    assert((a * b) * (c * d) == (a * d) * (b * c)) by (nonlinear_arith);
}

/// A product of two sums.
proof fn lemma_product_of_sums(x: int, y: int, z: int, w: int)
    ensures
        (x + y) * (z + w) == x * z + x * w + y * z + y * w,
{
    assert((x + y) * (z + w) == x * z + x * w + y * z + y * w) by (nonlinear_arith);
}

/// The inner product of two vectors is at most the product of their
/// lengths: where both squares of length are at most `cap`, so is it.
proof fn lemma_inner_product_is_capped(vx: int, vy: int, tx: int, ty: int, cap: int)
    requires
        vx * vx + vy * vy <= cap,
        tx * tx + ty * ty <= cap,
    ensures
        vx * tx + vy * ty <= cap,
        cap >= 0,
{
    let (p1, p2, p3, p4) = (vx * tx, vy * ty, vx * ty, vy * tx);
    let (x2, y2, z2, w2) = (vx * vx, vy * vy, tx * tx, ty * ty);
    let dot = p1 + p2;
    let cross = p3 - p4;
    assert(x2 >= 0 && y2 >= 0 && z2 >= 0 && w2 >= 0) by (nonlinear_arith)
        requires
            x2 == vx * vx,
            y2 == vy * vy,
            z2 == tx * tx,
            w2 == ty * ty,
    ;
    lemma_regroup(vx, tx, vx, tx);
    lemma_regroup(vy, ty, vy, ty);
    lemma_regroup(vx, ty, vx, ty);
    lemma_regroup(vy, tx, vy, tx);
    lemma_regroup(vx, tx, vy, ty);
    assert(p1 * p1 == x2 * z2 && p2 * p2 == y2 * w2 && p3 * p3 == x2 * w2 && p4 * p4 == y2 * z2);
    assert(p3 * p4 == (vx * ty) * (vy * tx));
    assert(p1 * p2 == p3 * p4);
    lemma_square_of_sum(p1, p2);
    lemma_square_of_sum(p3, -p4);
    assert(p3 * (-p4) == -(p3 * p4)) by (nonlinear_arith);
    assert((-p4) * (-p4) == p4 * p4) by (nonlinear_arith);
    lemma_product_of_sums(x2, y2, z2, w2);
    assert(dot * dot + cross * cross == (x2 + y2) * (z2 + w2));
    assert(cross * cross >= 0) by (nonlinear_arith);
    assert((x2 + y2) * (z2 + w2) <= cap * cap) by (nonlinear_arith)
        requires
            0 <= x2 + y2 <= cap,
            0 <= z2 + w2 <= cap,
    ;
    assert(dot <= cap) by (nonlinear_arith)
        requires
            dot * dot <= cap * cap,
            cap >= 0,
    ;
}

/// A disc is convex: the weighted sum of two vectors within `radius` of zero
/// lies within a million times `radius`.
pub proof fn lemma_weighted_sum_in_disc(from: Vec2, to: Vec2, weight: nat, radius: int)
    requires
        weight <= BLEND_ONE,
        length_sq(from) <= radius * radius,
        length_sq(to) <= radius * radius,
    ensures
        weighted_sum(from.x as int, to.x as int, weight) * weighted_sum(
            from.x as int,
            to.x as int,
            weight,
        ) + weighted_sum(from.y as int, to.y as int, weight) * weighted_sum(
            from.y as int,
            to.y as int,
            weight,
        ) <= 1_000_000_000_000 * (radius * radius),
{
    let (vx, vy, tx, ty) = (from.x as int, from.y as int, to.x as int, to.y as int);
    let a = BLEND_ONE - weight;
    let b = weight as int;
    let cap = radius * radius;
    let nv = vx * vx + vy * vy;
    let nt = tx * tx + ty * ty;
    let dot = vx * tx + vy * ty;
    lemma_inner_product_is_capped(vx, vy, tx, ty, cap);
    let (aa, ab, bb) = (a * a, a * b, b * b);
    lemma_square_of_sum(vx * a, tx * b);
    lemma_square_of_sum(vy * a, ty * b);
    lemma_regroup(vx, a, vx, a);
    lemma_regroup(vy, a, vy, a);
    lemma_regroup(tx, b, tx, b);
    lemma_regroup(ty, b, ty, b);
    lemma_regroup(vx, a, tx, b);
    lemma_regroup(vy, a, ty, b);
    let sx = vx * a + tx * b;
    let sy = vy * a + ty * b;
    assert(sx * sx == (vx * vx) * aa + 2 * ((vx * tx) * ab) + (tx * tx) * bb);
    assert(sy * sy == (vy * vy) * aa + 2 * ((vy * ty) * ab) + (ty * ty) * bb);
    assert((vx * vx) * aa + (vy * vy) * aa == nv * aa) by (nonlinear_arith)
        requires
            nv == vx * vx + vy * vy,
    ;
    assert((tx * tx) * bb + (ty * ty) * bb == nt * bb) by (nonlinear_arith)
        requires
            nt == tx * tx + ty * ty,
    ;
    assert((vx * tx) * ab + (vy * ty) * ab == dot * ab) by (nonlinear_arith)
        requires
            dot == vx * tx + vy * ty,
    ;
    assert(sx * sx + sy * sy == nv * aa + 2 * (dot * ab) + nt * bb);
    assert(aa >= 0 && ab >= 0 && bb >= 0 && aa + 2 * ab + bb == 1_000_000_000_000)
        by (nonlinear_arith)
        requires
            aa == a * a,
            ab == a * b,
            bb == b * b,
            a >= 0,
            b >= 0,
            a + b == 1_000_000,
    ;
    assert(nv * aa <= cap * aa) by (nonlinear_arith)
        requires
            nv <= cap,
            aa >= 0,
    ;
    assert(nt * bb <= cap * bb) by (nonlinear_arith)
        requires
            nt <= cap,
            bb >= 0,
    ;
    assert(dot * ab <= cap * ab) by (nonlinear_arith)
        requires
            dot <= cap,
            ab >= 0,
    ;
    assert(cap * aa + 2 * (cap * ab) + cap * bb == 1_000_000_000_000 * cap) by (nonlinear_arith)
        requires
            aa + 2 * ab + bb == 1_000_000_000_000,
    ;
}

/// A blend of two vectors within `radius` of zero lies within `radius` of
/// zero: neither the mean nor its rounding leaves the disc.
pub proof fn lemma_blend_stays_in_disc(from: Vec2, to: Vec2, weight: nat, radius: int)
    requires
        weight <= BLEND_ONE,
        length_sq(from) <= radius * radius,
        length_sq(to) <= radius * radius,
    ensures
        blend_scalar(from.x as int, to.x as int, weight) * blend_scalar(
            from.x as int,
            to.x as int,
            weight,
        ) + blend_scalar(from.y as int, to.y as int, weight) * blend_scalar(
            from.y as int,
            to.y as int,
            weight,
        ) <= radius * radius,
{
    let sx = weighted_sum(from.x as int, to.x as int, weight);
    let sy = weighted_sum(from.y as int, to.y as int, weight);
    let rx = blend_scalar(from.x as int, to.x as int, weight);
    let ry = blend_scalar(from.y as int, to.y as int, weight);
    lemma_weighted_sum_in_disc(from, to, weight, radius);
    lemma_blend_between(from.x as int, to.x as int, weight);
    lemma_blend_between(from.y as int, to.y as int, weight);
    lemma_square_of_the_smaller(1_000_000 * rx, sx);
    lemma_square_of_the_smaller(1_000_000 * ry, sy);
    let cap = radius * radius;
    assert((1_000_000 * rx) * (1_000_000 * rx) == 1_000_000_000_000 * (rx * rx))
        by (nonlinear_arith);
    assert((1_000_000 * ry) * (1_000_000 * ry) == 1_000_000_000_000 * (ry * ry))
        by (nonlinear_arith);
}

/// Of two numbers on one side of zero, the one nearer to zero has the smaller
/// square.
pub proof fn lemma_square_of_the_smaller(near: int, far: int)
    requires
        (0 <= near <= far) || (far <= near <= 0),
    ensures
        near * near <= far * far,
{
    assert(near * near <= far * far) by (nonlinear_arith)
        requires
            (0 <= near <= far) || (far <= near <= 0),
    ;
}

/// A share of a length is no longer than the whole: where `direction` has
/// length at most one, its fixed-point product with a size that is not
/// negative has at most that length.
pub proof fn lemma_scaled_stays_in_disc(direction: Vec2, size: int)
    requires
        size >= 0,
        length_sq(direction) <= UNIT * UNIT,
    ensures
        within_unit(direction),
        scaled(direction.x as int, size) * scaled(direction.x as int, size) + scaled(
            direction.y as int,
            size,
        ) * scaled(direction.y as int, size) <= size * size,
{
    let (dx, dy) = (direction.x as int, direction.y as int);
    assert(-1000 <= dx <= 1000 && -1000 <= dy <= 1000) by (nonlinear_arith)
        requires
            dx * dx + dy * dy <= 1_000_000,
    ;
    let (px, py) = (dx * size, dy * size);
    let (tx, ty) = (scaled(dx, size), scaled(dy, size));
    lemma_square_of_the_smaller(1000 * tx, px);
    lemma_square_of_the_smaller(1000 * ty, py);
    assert((1000 * tx) * (1000 * tx) == 1_000_000 * (tx * tx)) by (nonlinear_arith);
    assert((1000 * ty) * (1000 * ty) == 1_000_000 * (ty * ty)) by (nonlinear_arith);
    assert(px * px + py * py == (dx * dx + dy * dy) * (size * size)) by (nonlinear_arith)
        requires
            px == dx * size,
            py == dy * size,
    ;
    assert((dx * dx + dy * dy) * (size * size) <= 1_000_000 * (size * size)) by (nonlinear_arith)
        requires
            dx * dx + dy * dy <= 1_000_000,
    ;
}

/// At most one number is the integer square root of `n`.
pub proof fn lemma_floor_sqrt_unique(n: int, a: int, b: int)
    requires
        is_floor_sqrt(n, a),
        is_floor_sqrt(n, b),
    ensures
        a == b,
{
    assert(a < b ==> (a + 1) * (a + 1) <= b * b) by (nonlinear_arith)
        requires
            0 <= a,
            0 <= b,
    ;
    assert(b < a ==> (b + 1) * (b + 1) <= a * a) by (nonlinear_arith)
        requires
            0 <= a,
            0 <= b,
    ;
}

/// Every number that is not negative has an integer square root.
pub proof fn lemma_floor_sqrt_exists(n: int)
    requires
        n >= 0,
    ensures
        is_floor_sqrt(n, floor_sqrt(n)),
    decreases n,
{
    if n == 0 {
        assert(is_floor_sqrt(0, 0));
    } else {
        lemma_floor_sqrt_exists(n - 1);
        let r = floor_sqrt(n - 1);
        if (r + 1) * (r + 1) <= n {
            assert((r + 1) * (r + 1) == n);
            assert(n < (r + 2) * (r + 2)) by (nonlinear_arith)
                requires
                    (r + 1) * (r + 1) == n,
                    r >= 0,
            ;
            assert(is_floor_sqrt(n, r + 1));
        } else {
            assert(r * r <= n) by {
                assert(r * r <= n - 1);
            }
            assert(is_floor_sqrt(n, r));
        }
    }
}

/// `component` thousandths of `factor`, rounded toward zero.
pub fn scale(component: i32, factor: i32) -> (r: i32)
    requires
        -UNIT <= component <= UNIT,
        factor > i32::MIN,
    ensures
        r == scaled(component as int, factor as int),
        factor >= 0 ==> -factor <= r <= factor,
        factor <= 0 ==> factor <= r <= -factor,
{
    let c: i64 = component as i64;
    let f: i64 = factor as i64;
    assert((f >= 0 ==> -f * 1000 <= c * f <= f * 1000) && (f <= 0 ==> f * 1000 <= c * f <= -f
        * 1000)) by (nonlinear_arith)
        requires
            -1000 <= c <= 1000,
    ;
    let p: i64 = c * f;
    if p >= 0 {
        (p / 1000) as i32
    } else {
        (-((-p) / 1000)) as i32
    }
}

/// The blend of two scalars.
pub fn blend(from: i32, to: i32, weight: Blend) -> (r: i32)
    ensures
        r == blend_scalar(from as int, to as int, weight@),
{
    let w: i64 = weight.ppm() as i64;
    let rest: i64 = 1_000_000 - w;
    let a: i64 = from as i64;
    let b: i64 = to as i64;
    proof {
        lemma_blend_between(from as int, to as int, weight@);
    }
    assert(-0x8000_0000 * 1_000_000 <= a * rest <= 0x8000_0000 * 1_000_000) by (nonlinear_arith)
        requires
            -0x8000_0000 <= a <= 0x8000_0000,
            0 <= rest <= 1_000_000,
    ;
    assert(-0x8000_0000 * 1_000_000 <= b * w <= 0x8000_0000 * 1_000_000) by (nonlinear_arith)
        requires
            -0x8000_0000 <= b <= 0x8000_0000,
            0 <= w <= 1_000_000,
    ;
    let sum: i64 = a * rest + b * w;
    if sum >= 0 {
        (sum / 1_000_000) as i32
    } else {
        (-((-sum) / 1_000_000)) as i32
    }
}

/// The integer part of the square root.
pub fn isqrt(n: u64) -> (r: u32)
    ensures
        is_floor_sqrt(n as int, r as int),
        r == floor_sqrt(n as int),
{
    let mut lo: u64 = 0;
    let mut hi: u64 = 0x1_0000_0000;
    assert(0x1_0000_0000int * 0x1_0000_0000int > n) by (nonlinear_arith)
        requires
            n <= 0xFFFF_FFFF_FFFF_FFFF,
    ;
    while hi - lo > 1
        invariant
            lo < hi <= 0x1_0000_0000,
            lo * lo <= n < hi * hi,
        decreases hi - lo,
    {
        let mid: u64 = lo + (hi - lo) / 2;
        assert(mid * mid <= 0xFFFF_FFFE_0000_0001) by (nonlinear_arith)
            requires
                0 <= mid <= 0xFFFF_FFFF,
        ;
        if mid * mid <= n {
            lo = mid;
        } else {
            hi = mid;
        }
    }
    proof {
        lemma_floor_sqrt_unique(n as int, lo as int, floor_sqrt(n as int));
    }
    lo as u32
}

/// The square of a vector's length.
pub fn length_squared(v: Vec2) -> (r: u64)
    ensures
        r == length_sq(v),
{
    let x: i64 = v.x as i64;
    let y: i64 = v.y as i64;
    assert(0 <= x * x <= 0x4000_0000_0000_0000) by (nonlinear_arith)
        requires
            -0x8000_0000 <= x <= 0x8000_0000,
    ;
    assert(0 <= y * y <= 0x4000_0000_0000_0000) by (nonlinear_arith)
        requires
            -0x8000_0000 <= y <= 0x8000_0000,
    ;
    (x * x) as u64 + (y * y) as u64
}

/// A vector's length, rounded down.
pub fn length(v: Vec2) -> (r: u32)
    ensures
        is_floor_sqrt(length_sq(v), r as int),
        r == floor_sqrt(length_sq(v)),
{
    isqrt(length_squared(v))
}

} // verus!
