use vstd::prelude::*;

verus! {

/// The largest magnitude a coordinate or velocity component may have.
pub const COORD_LIMIT: i64 = 1_000_000_000;

/// A point, offset or velocity in milli-units.
#[derive(Clone, Copy, Debug, PartialEq, Eq, Structural)]
pub struct Vec3 {
    pub x: i64,
    pub y: i64,
    pub z: i64,
}

pub open spec fn coord_ok(c: int) -> bool {
    -COORD_LIMIT <= c <= COORD_LIMIT
}

pub open spec fn sq(a: int) -> int {
    a * a
}

/// The square of the Euclidean distance between two points.
pub open spec fn dist_sq_spec(a: Vec3, b: Vec3) -> int {
    sq(a.x - b.x) + sq(a.y - b.y) + sq(a.z - b.z)
}

/// Whether `r` is the integer square root of `n`, rounded down.
pub open spec fn is_floor_sqrt(n: int, r: int) -> bool {
    0 <= r && r * r <= n < (r + 1) * (r + 1)
}

/// The integer square root of `n`, rounded down.
pub open spec fn floor_sqrt(n: int) -> int {
    choose|r: int| is_floor_sqrt(n, r)
}

/// A number has at most one rounded-down integer square root.
pub proof fn lemma_floor_sqrt_unique(n: int, r: int)
    requires
        is_floor_sqrt(n, r),
    ensures
        floor_sqrt(n) == r,
{
    let s = floor_sqrt(n);
    assert(is_floor_sqrt(n, s));
    if s < r {
        assert((s + 1) * (s + 1) <= r * r) by (nonlinear_arith)
            requires 0 <= s, s + 1 <= r;
    } else if s > r {
        assert((r + 1) * (r + 1) <= s * s) by (nonlinear_arith)
            requires 0 <= r, r + 1 <= s;
    }
}

impl Vec3 {
    pub open spec fn in_bounds(self) -> bool {
        coord_ok(self.x as int) && coord_ok(self.y as int) && coord_ok(self.z as int)
    }

    pub fn new(x: i64, y: i64, z: i64) -> (r: Vec3)
        ensures
            r == (Vec3 { x, y, z }),
    {
        Vec3 { x, y, z }
    }

    pub fn zero() -> (r: Vec3)
        ensures
            r == (Vec3 { x: 0, y: 0, z: 0 }),
    {
        Vec3 { x: 0, y: 0, z: 0 }
    }

    /// Whether every component lies within `COORD_LIMIT`.
    pub fn is_in_bounds(&self) -> (r: bool)
        ensures
            r == self.in_bounds(),
    {
        -COORD_LIMIT <= self.x && self.x <= COORD_LIMIT && -COORD_LIMIT <= self.y && self.y
            <= COORD_LIMIT && -COORD_LIMIT <= self.z && self.z <= COORD_LIMIT
    }

    /// The componentwise sum of two in-bounds vectors.
    pub fn add(&self, o: &Vec3) -> (r: Vec3)
        requires
            self.in_bounds(),
            o.in_bounds(),
        ensures
            r.x == self.x + o.x,
            r.y == self.y + o.y,
            r.z == self.z + o.z,
    {
        Vec3 { x: self.x + o.x, y: self.y + o.y, z: self.z + o.z }
    }

    /// The square of the distance to `o`.
    pub fn dist_sq(&self, o: &Vec3) -> (r: u64)
        requires
            self.in_bounds(),
            o.in_bounds(),
        ensures
            r == dist_sq_spec(*self, *o),
    {
        let dx = abs_diff(self.x, o.x);
        let dy = abs_diff(self.y, o.y);
        let dz = abs_diff(self.z, o.z);
        proof {
            lemma_sq_bound(self.x - o.x, dx as int);
            lemma_sq_bound(self.y - o.y, dy as int);
            lemma_sq_bound(self.z - o.z, dz as int);
        }
        dx * dx + dy * dy + dz * dz
    }

    /// Whether `o` lies at most `radius` away.
    pub fn within(&self, o: &Vec3, radius: u32) -> (r: bool)
        requires
            self.in_bounds(),
            o.in_bounds(),
        ensures
            r == (dist_sq_spec(*self, *o) <= sq(radius as int)),
    {
        proof {
            lemma_u32_sq(radius);
        }
        let r2: u64 = radius as u64 * radius as u64;
        self.dist_sq(o) <= r2
    }

    /// Whether `o` lies strictly less than `radius` away.
    pub fn strictly_within(&self, o: &Vec3, radius: u32) -> (r: bool)
        requires
            self.in_bounds(),
            o.in_bounds(),
        ensures
            r == (dist_sq_spec(*self, *o) < sq(radius as int)),
    {
        proof {
            lemma_u32_sq(radius);
        }
        let r2: u64 = radius as u64 * radius as u64;
        self.dist_sq(o) < r2
    }
}

/// The magnitude of `a - b`, for in-bounds coordinates.
fn abs_diff(a: i64, b: i64) -> (r: u64)
    requires
        coord_ok(a as int),
        coord_ok(b as int),
    ensures
        r as int == a - b || r as int == b - a,
        r >= 0,
        r as int >= a - b,
        r as int >= b - a,
        r <= 2 * COORD_LIMIT,
{
    if a >= b {
        (a - b) as u64
    } else {
        (b - a) as u64
    }
}

proof fn lemma_sq_bound(d: int, m: int)
    requires
        m == d || m == -d,
        0 <= m <= 2 * COORD_LIMIT,
    ensures
        sq(d) == m * m,
        m * m <= 4_000_000_000_000_000_000,
{
    assert(d * d == m * m) by (nonlinear_arith)
        requires m == d || m == -d;
    assert(m * m <= 2_000_000_000 * 2_000_000_000) by (nonlinear_arith)
        requires 0 <= m <= 2_000_000_000;
}

pub proof fn lemma_u32_sq(a: u32)
    ensures
        0 <= sq(a as int) <= u64::MAX,
{
    assert(0 <= (a as int) * (a as int) <= 4_294_967_295 * 4_294_967_295) by (nonlinear_arith)
        requires 0 <= a <= 4_294_967_295;
}

/// The integer square root of `n`, rounded down.
pub fn isqrt(n: u64) -> (r: u64)
    ensures
        is_floor_sqrt(n as int, r as int),
        r == floor_sqrt(n as int),
{
    // Binary search for the largest r with r * r <= n; the root of a u64 is below 2^32.
    let mut lo: u64 = 0;
    let mut hi: u64 = 4_294_967_296;
    assert(hi * hi > u64::MAX) by (nonlinear_arith)
        requires hi == 4_294_967_296u64;
    while hi - lo > 1
        invariant
            lo < hi <= 4_294_967_296,
            lo * lo <= n,
            (hi as int) * (hi as int) > n,
        decreases hi - lo,
    {
        let mid = lo + (hi - lo) / 2;
        assert(mid * mid <= u64::MAX) by (nonlinear_arith)
            requires mid < 4_294_967_296u64;
        if mid * mid <= n {
            lo = mid;
        } else {
            hi = mid;
        }
    }
    assert(hi == lo + 1);
    proof {
        lemma_floor_sqrt_unique(n as int, lo as int);
    }
    lo
}

} // verus!
