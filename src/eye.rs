//! The angular field-of-view sensor.
//!
//! The field of view is split into `cells` equal sectors spanning
//! `[-fov_angle/2, +fov_angle/2]` around the heading. A target within
//! `fov_range` and within the field lands in one sector with a concentration
//! `ONE * (1 - distance / fov_range)`.
use crate::geometry::{bearing, bearing_of, isqrt, wrap, wrap_add, Point, QUARTER, TURN};
use crate::network::{MAX_CELLS, ONE};
use vstd::prelude::*;

verus! {

/// Largest number of food items or creatures a scan accepts: the largest
/// `usize` on every target (2^32 - 1). The sums need no tighter bound: a food
/// reading adds at most `ONE` (2^16) per item, so a sector's sum stays below
/// 2^48 in `i64`, and a fitness record is below 2^80, so the population's
/// fitness sum stays below 2^112 in `u128`.
pub const MAX_TARGETS: usize = 4294967295;

/// Sensor configuration: range in torus units, total angle in binary-angle
/// units, and the number of sectors.
#[derive(Clone, Copy, Debug, PartialEq, Eq, Structural)]
pub struct Eye {
    pub fov_range: u32,
    pub fov_angle: u64,
    pub cells: usize,
}

/// `r` is the integer square root of `n`.
pub open spec fn is_root(n: nat, r: nat) -> bool {
    r * r <= n < (r + 1) * (r + 1)
}

/// Integer square root as a value.
pub open spec fn int_sqrt(n: nat) -> nat {
    choose|r: nat| #[trigger] is_root(n, r)
}

proof fn lemma_int_sqrt_unique(n: nat, r: nat)
    requires
        r * r <= n < (r + 1) * (r + 1),
    ensures
        int_sqrt(n) == r,
{
    let s = int_sqrt(n);
    assert(is_root(n, r));
    assert(s * s <= n < (s + 1) * (s + 1));
    if s < r {
        assert((s + 1) * (s + 1) <= r * r) by (nonlinear_arith)
            requires
                s < r,
        ;
    } else if s > r {
        assert((r + 1) * (r + 1) <= s * s) by (nonlinear_arith)
            requires
                s > r,
        ;
    }
}

/// Shortest signed displacement from coordinate `a` to `b` on the torus, in
/// `[-TURN/2, TURN/2)`.
pub open spec fn offset(a: u32, b: u32) -> int {
    let d = wrap(b - a);
    if d >= 0x8000_0000 {
        d - TURN
    } else {
        d
    }
}

/// Signed form of a binary angle, in `[-TURN/2, TURN/2)`.
pub open spec fn signed_angle(a: int) -> int {
    let d = wrap(a);
    if d >= 0x8000_0000 {
        d - TURN
    } else {
        d
    }
}

impl Eye {
    pub open spec fn wf(&self) -> bool {
        &&& self.fov_range > 0
        &&& 0 < self.fov_angle <= TURN
        &&& 1 <= self.cells <= MAX_CELLS
    }

    /// Squared distance from `pos` to `target` on the torus.
    pub open spec fn dist2(pos: Point, target: Point) -> int {
        let dx = offset(pos.x, target.x);
        let dy = offset(pos.y, target.y);
        dx * dx + dy * dy
    }

    /// Angle of `target` relative to the heading of a creature at `pos`
    /// turned by `rot` (heading `rot` points along the positive y axis).
    pub open spec fn relative_angle(pos: Point, rot: u32, target: Point) -> int {
        signed_angle(bearing(offset(pos.x, target.x), offset(pos.y, target.y)) - rot - QUARTER)
    }

    /// Whether `target` is within range of `pos`.
    pub open spec fn in_range(&self, pos: Point, target: Point) -> bool {
        Self::dist2(pos, target) <= (self.fov_range as int) * (self.fov_range as int)
    }

    /// Whether `target` is within the field's angular half-width.
    pub open spec fn in_angle(&self, pos: Point, rot: u32, target: Point) -> bool {
        let rel = Self::relative_angle(pos, rot, target);
        let half = (self.fov_angle / 2) as int;
        -half <= rel <= half
    }

    /// What the sensor makes of one target: its sector and concentration,
    /// or nothing when the target is out of range or out of the field.
    pub open spec fn sight(&self, pos: Point, rot: u32, target: Point) -> Option<(int, int)> {
        if self.in_range(pos, target) && self.in_angle(pos, rot, target) {
            let rel = Self::relative_angle(pos, rot, target);
            let half = (self.fov_angle / 2) as int;
            let raw = (rel + half) * (self.cells as int) / (self.fov_angle as int);
            let sector = if raw >= self.cells { self.cells - 1 } else { raw };
            let dist = int_sqrt(Self::dist2(pos, target) as nat);
            Some((sector, (ONE as int) - dist * (ONE as int) / (self.fov_range as int)))
        } else {
            None
        }
    }
}

pub(crate) fn offset_exec(a: u32, b: u32) -> (r: i64)
    ensures
        r == offset(a, b),
        -0x8000_0000 <= r < 0x8000_0000,
{
    let d = wrap_add(b, -(a as i64));
    if d >= 0x8000_0000u32 {
        d as i64 - TURN as i64
    } else {
        d as i64
    }
}

impl Eye {
    /// Sector and concentration of one target, as `sight` describes them.
    pub fn see(&self, pos: Point, rot: u32, target: Point) -> (r: Option<(usize, i64)>)
        requires
            self.wf(),
        ensures
            match (r, self.sight(pos, rot, target)) {
                (None, None) => true,
                (Some((k, c)), Some((sk, sc))) => k == sk && c == sc && k < self.cells && 0 <= c <= ONE,
                _ => false,
            },
    {
        let dx = offset_exec(pos.x, target.x);
        let dy = offset_exec(pos.y, target.y);
        assert(0 <= dx * dx <= 0x4000_0000_0000_0000) by (nonlinear_arith)
            requires
                -0x8000_0000 <= dx <= 0x8000_0000,
        ;
        assert(0 <= dy * dy <= 0x4000_0000_0000_0000) by (nonlinear_arith)
            requires
                -0x8000_0000 <= dy <= 0x8000_0000,
        ;
        let d2: u64 = (dx * dx) as u64 + (dy * dy) as u64;
        let range = self.fov_range as u64;
        assert(range * range <= 0xffff_fffe_0000_0001) by (nonlinear_arith)
            requires
                range <= 0xffff_ffff,
        ;
        if d2 > range * range {
            return None;
        }
        let b = bearing_of(dx, dy);
        let rel_u = wrap_add(wrap_add(b, -(rot as i64)), -(QUARTER as i64));
        proof {
            vstd::arithmetic::div_mod::lemma_add_mod_noop(b - rot, -(QUARTER as int), TURN as int);
            vstd::arithmetic::div_mod::lemma_mod_twice(b - rot, TURN as int);
            vstd::arithmetic::div_mod::lemma_add_mod_noop(wrap(b - rot), -(QUARTER as int), TURN as int);
        }
        assert(rel_u as int == wrap(b - rot - QUARTER));
        let rel: i64 = if rel_u >= 0x8000_0000u32 {
            rel_u as i64 - TURN as i64
        } else {
            rel_u as i64
        };
        let half: i64 = (self.fov_angle / 2) as i64;
        if rel < -half || rel > half {
            return None;
        }
        let fov = self.fov_angle as i64;
        assert(0 <= (rel + half) * (self.cells as int) <= 0x1_0000_0000 * MAX_CELLS) by (nonlinear_arith)
            requires
                0 <= rel + half <= 0x1_0000_0000,
                1 <= self.cells <= MAX_CELLS,
        ;
        let raw: i64 = (rel + half) * (self.cells as i64) / fov;
        let sector: usize = if raw >= self.cells as i64 {
            self.cells - 1
        } else {
            raw as usize
        };
        let dist = isqrt(d2);
        proof {
            lemma_int_sqrt_unique(d2 as nat, dist as nat);
            assert(dist <= range) by (nonlinear_arith)
                requires
                    dist * dist <= d2,
                    d2 <= range * range,
            ;
        }
        assert(0 <= (dist as int) * (ONE as int) / (range as int) <= ONE) by (nonlinear_arith)
            requires
                dist <= range,
                range > 0,
        {
            vstd::arithmetic::div_mod::lemma_div_is_ordered((dist as int) * (ONE as int), (range as int) * (ONE as int), range as int);
            vstd::arithmetic::div_mod::lemma_div_by_multiple(ONE as int, range as int);
        }
        let conc: i64 = ONE - (dist as i64) * ONE / (range as i64);
        Some((sector, conc))
    }
}

/// Food reading of sector `k` after the first `n` food items: the sum of
/// the concentrations of those that land in sector `k`.
pub open spec fn food_reading(eye: Eye, pos: Point, rot: u32, foods: Seq<Point>, n: int, k: int) -> int
    decreases n,
{
    if n <= 0 || n > foods.len() {
        0
    } else {
        food_reading(eye, pos, rot, foods, n - 1, k) + match eye.sight(pos, rot, foods[n - 1]) {
            Some((sk, c)) => if sk == k {
                c
            } else {
                0
            },
            None => 0,
        }
    }
}

/// Neighbour reading of sector `k` after the first `n` creatures: the index
/// and concentration of the most concentrated one in sector `k`, a later one
/// replacing an earlier one of equal concentration. The creature `me` is
/// skipped; `(0, 0)` when none is seen.
pub open spec fn neighbor_reading(
    eye: Eye,
    pos: Point,
    rot: u32,
    others: Seq<Point>,
    me: int,
    n: int,
    k: int,
) -> (int, int)
    decreases n,
{
    if n <= 0 || n > others.len() {
        (0, 0)
    } else {
        let prev = neighbor_reading(eye, pos, rot, others, me, n - 1, k);
        if n - 1 == me {
            prev
        } else {
            match eye.sight(pos, rot, others[n - 1]) {
                Some((sk, c)) => if sk == k && c >= prev.1 {
                    (n - 1, c)
                } else {
                    prev
                },
                None => prev,
            }
        }
    }
}

impl Eye {
    /// Food sensor: for each sector, the summed concentration of the food
    /// items that land in it.
    pub fn sense_food(&self, pos: Point, rot: u32, foods: &Vec<Point>) -> (r: Vec<i64>)
        requires
            self.wf(),
            foods@.len() <= MAX_TARGETS,
        ensures
            r@.len() == self.cells,
            forall|k: int| 0 <= k < self.cells ==> r@[k] == food_reading(*self, pos, rot, foods@, foods@.len() as int, k),
            forall|k: int| 0 <= k < self.cells ==> #[trigger] r@[k] >= 0,
    {
        let mut r: Vec<i64> = Vec::new();
        let mut k: usize = 0;
        while k < self.cells
            invariant
                k <= self.cells,
                r@.len() == k,
                forall|q: int| 0 <= q < k ==> r@[q] == 0,
            decreases self.cells - k,
        {
            r.push(0);
            k = k + 1;
        }
        let mut i: usize = 0;
        while i < foods.len()
            invariant
                self.wf(),
                foods@.len() <= MAX_TARGETS,
                i <= foods@.len(),
                r@.len() == self.cells,
                forall|q: int| 0 <= q < self.cells ==> #[trigger] r@[q] == food_reading(*self, pos, rot, foods@, i as int, q),
                forall|q: int| 0 <= q < self.cells ==> 0 <= #[trigger] r@[q] <= (i as int) * (ONE as int),
            decreases foods@.len() - i,
        {
            let seen = self.see(pos, rot, foods[i]);
            let ghost before = r@;
            match seen {
                Some((k, c)) => {
                    assert(r@[k as int] + c <= (i + 1) * ONE) by (nonlinear_arith)
                        requires
                            r@[k as int] <= (i as int) * (ONE as int),
                            c <= ONE,
                    ;
                    let v = r[k] + c;
                    r.set(k, v);
                },
                None => {},
            }
            assert forall|q: int| 0 <= q < self.cells implies 0 <= #[trigger] r@[q] <= ((i + 1) as int) * (ONE as int) by {
                assert((i as int) * (ONE as int) <= ((i + 1) as int) * (ONE as int)) by (nonlinear_arith);
            }
            i = i + 1;
        }
        r
    }

    /// Neighbour sensor: for each sector, the index and concentration of the
    /// most concentrated other creature in it.
    pub fn sense_neighbors(&self, pos: Point, rot: u32, others: &Vec<Point>, me: usize) -> (r: Vec<(usize, i64)>)
        requires
            self.wf(),
        ensures
            r@.len() == self.cells,
            forall|k: int|
                0 <= k < self.cells ==> {
                    let (a, c) = #[trigger] neighbor_reading(*self, pos, rot, others@, me as int, others@.len() as int, k);
                    r@[k].0 == a && r@[k].1 == c
                },
            forall|k: int| 0 <= k < self.cells ==> 0 <= (#[trigger] r@[k]).1 <= ONE,
    {
        let mut r: Vec<(usize, i64)> = Vec::new();
        let mut k: usize = 0;
        while k < self.cells
            invariant
                k <= self.cells,
                r@.len() == k,
                forall|q: int| 0 <= q < k ==> r@[q] == (0usize, 0i64),
            decreases self.cells - k,
        {
            r.push((0, 0));
            k = k + 1;
        }
        let mut i: usize = 0;
        while i < others.len()
            invariant
                self.wf(),
                i <= others@.len(),
                r@.len() == self.cells,
                forall|q: int|
                    0 <= q < self.cells ==> {
                        let (a, c) = #[trigger] neighbor_reading(*self, pos, rot, others@, me as int, i as int, q);
                        r@[q].0 == a && r@[q].1 == c
                    },
                forall|q: int| 0 <= q < self.cells ==> 0 <= (#[trigger] r@[q]).1 <= ONE,
            decreases others@.len() - i,
        {
            let ghost prev = r@;
            if i != me {
                match self.see(pos, rot, others[i]) {
                    Some((k, c)) => {
                        if c >= r[k].1 {
                            r.set(k, (i, c));
                        }
                    },
                    None => {},
                }
            }
            assert forall|q: int| 0 <= q < self.cells implies {
                let (a, c) = #[trigger] neighbor_reading(*self, pos, rot, others@, me as int, i + 1, q);
                r@[q].0 == a && r@[q].1 == c
            } by {
                let p = neighbor_reading(*self, pos, rot, others@, me as int, i as int, q);
                assert(prev[q].0 == p.0 && prev[q].1 == p.1);
            }
            i = i + 1;
        }
        r
    }
}

/// Every food reading is non-negative.
pub proof fn lemma_food_reading_nonneg(eye: Eye, pos: Point, rot: u32, foods: Seq<Point>, n: int, k: int)
    requires
        eye.wf(),
    ensures
        food_reading(eye, pos, rot, foods, n, k) >= 0,
    decreases n,
{
    if n > 0 && n <= foods.len() {
        lemma_food_reading_nonneg(eye, pos, rot, foods, n - 1, k);
        lemma_sight_conc_nonneg(eye, pos, rot, foods[n - 1]);
    }
}

/// A target the sensor sees has a concentration in `[0, ONE]`.
pub proof fn lemma_sight_conc_nonneg(eye: Eye, pos: Point, rot: u32, target: Point)
    requires
        eye.wf(),
    ensures
        eye.sight(pos, rot, target) matches Some((_, c)) ==> 0 <= c <= ONE,
{
    if eye.sight(pos, rot, target) is Some {
        let d2 = Eye::dist2(pos, target);
        let dx = offset(pos.x, target.x);
        let dy = offset(pos.y, target.y);
        assert(d2 >= 0) by (nonlinear_arith)
            requires
                d2 == dx * dx + dy * dy,
        ;
        let dist = int_sqrt(d2 as nat);
        let range = eye.fov_range as int;
        assert(exists|q: nat| #[trigger] is_root(d2 as nat, q)) by {
            lemma_root_exists(d2 as nat);
        }
        assert(dist <= range) by (nonlinear_arith)
            requires
                dist * dist <= d2,
                d2 <= range * range,
                range > 0,
        ;
        assert(0 <= dist * (ONE as int) / range <= ONE) by (nonlinear_arith)
            requires
                0 <= dist <= range,
                range > 0,
        {
            vstd::arithmetic::div_mod::lemma_div_is_ordered(dist * (ONE as int), range * (ONE as int), range);
            vstd::arithmetic::div_mod::lemma_div_by_multiple(ONE as int, range);
        }
    }
}

/// Every natural number has an integer square root.
pub proof fn lemma_root_exists(n: nat)
    ensures
        exists|r: nat| #[trigger] is_root(n, r),
    decreases n,
{
    if n == 0 {
        assert(is_root(0, 0)) by (nonlinear_arith);
    } else {
        lemma_root_exists((n - 1) as nat);
        let r = choose|r: nat| #[trigger] is_root((n - 1) as nat, r);
        if n < (r + 1) * (r + 1) {
            assert(is_root(n, r));
        } else {
            assert(is_root(n, r + 1)) by (nonlinear_arith)
                requires
                    r * r <= n - 1,
                    n - 1 < (r + 1) * (r + 1),
                    n >= (r + 1) * (r + 1),
            ;
        }
    }
}

/// Food that lies strictly outside the range or outside the field adds
/// nothing to any sector: appending it leaves every reading unchanged.
pub proof fn lemma_unseen_food_adds_nothing(eye: Eye, pos: Point, rot: u32, foods: Seq<Point>, f: Point, k: int)
    requires
        !eye.in_range(pos, f) || !eye.in_angle(pos, rot, f),
    ensures
        food_reading(eye, pos, rot, foods.push(f), foods.len() + 1int, k) == food_reading(
            eye,
            pos,
            rot,
            foods,
            foods.len() as int,
            k,
        ),
{
    lemma_food_reading_prefix(eye, pos, rot, foods, f, foods.len() as int, k);
    assert(foods.push(f)[foods.len() as int] == f);
}

proof fn lemma_food_reading_prefix(eye: Eye, pos: Point, rot: u32, foods: Seq<Point>, f: Point, n: int, k: int)
    requires
        0 <= n <= foods.len(),
    ensures
        food_reading(eye, pos, rot, foods.push(f), n, k) == food_reading(eye, pos, rot, foods, n, k),
    decreases n,
{
    if n > 0 {
        lemma_food_reading_prefix(eye, pos, rot, foods, f, n - 1, k);
        assert(foods.push(f)[n - 1] == foods[n - 1]);
    }
}

} // verus!
