//! The winner computation: a reference point derived from every revealed point, and the
//! participants nearest to and farthest from it.
use vstd::prelude::*;
use crate::hashing::{derive_scalar, hash_sum};
use crate::prime::{is_next_prime, is_prime_spec, next_prime};

verus! {

/// A point of the lattice.
#[derive(Clone, Copy, Debug, PartialEq, Eq, Structural)]
pub struct LatticePoint {
    pub x: u64,
    pub y: u64,
    pub z: u64,
}

/// A participant whose point is known.
#[derive(Clone, Copy, Debug, PartialEq, Eq, Structural)]
pub struct Player {
    pub id: u8,
    pub x: u64,
    pub y: u64,
    pub z: u64,
}

/// What a completed round yields.
#[derive(Clone, Copy, Debug, PartialEq, Eq, Structural)]
pub struct RoundOutcome {
    pub winner_id: u8,
    pub winner_distance: u128,
    pub loser_id: u8,
    pub loser_distance: u128,
    /// The point derived from the spread of the points and the scalar.
    pub composite: LatticePoint,
    /// The composite point moved, axis by axis, to the next prime.
    pub reference: LatticePoint,
}

/// One coordinate of a player: `x` for axis 0, `y` for axis 1, `z` otherwise.
pub open spec fn coord(p: Player, axis: int) -> int {
    if axis == 0 {
        p.x as int
    } else if axis == 1 {
        p.y as int
    } else {
        p.z as int
    }
}

/// The least coordinate on an axis; `u64::MAX` for no players.
pub open spec fn axis_min(s: Seq<Player>, axis: int) -> int
    decreases s.len(),
{
    if s.len() == 0 {
        u64::MAX as int
    } else {
        let m = axis_min(s.drop_last(), axis);
        let c = coord(s.last(), axis);
        if c < m {
            c
        } else {
            m
        }
    }
}

/// The greatest coordinate on an axis; zero for no players.
pub open spec fn axis_max(s: Seq<Player>, axis: int) -> int
    decreases s.len(),
{
    if s.len() == 0 {
        0
    } else {
        let m = axis_max(s.drop_last(), axis);
        let c = coord(s.last(), axis);
        if c > m {
            c
        } else {
            m
        }
    }
}

/// The sum of every coordinate of every player.
pub open spec fn coordinate_total(s: Seq<Player>) -> int
    decreases s.len(),
{
    if s.len() == 0 {
        0
    } else {
        coordinate_total(s.drop_last()) + s.last().x + s.last().y + s.last().z
    }
}

/// The sum of every coordinate, wrapped to 64 bits.
pub open spec fn total_sum(s: Seq<Player>) -> u64 {
    (coordinate_total(s) % 0x1_0000_0000_0000_0000) as u64
}

/// One axis of the composite point: `lo` moved by `scalar` modulo the axis's width,
/// or `lo` itself where the axis has no width.
pub open spec fn composite_axis(lo: int, hi: int, scalar: int) -> int {
    if lo < hi {
        lo + scalar % (hi - lo)
    } else {
        lo
    }
}

pub open spec fn composite_coord(s: Seq<Player>, axis: int, scalar: int) -> int {
    composite_axis(axis_min(s, axis), axis_max(s, axis), scalar)
}

pub open spec fn abs_diff(a: int, b: int) -> int {
    if a > b {
        a - b
    } else {
        b - a
    }
}

/// The Manhattan distance from a player to a point.
pub open spec fn distance(p: Player, r: LatticePoint) -> int {
    abs_diff(p.x as int, r.x as int) + abs_diff(p.y as int, r.y as int) + abs_diff(p.z as int, r.z as int)
}

/// Among the first `n` players, `w` is the earliest at least distance.
pub open spec fn is_first_min(s: Seq<Player>, r: LatticePoint, w: int, n: int) -> bool {
    &&& 0 <= w < n <= s.len()
    &&& forall|j: int| 0 <= j < n ==> distance(s[w], r) <= #[trigger] distance(s[j], r)
    &&& forall|j: int| 0 <= j < w ==> distance(s[w], r) < #[trigger] distance(s[j], r)
}

/// Among the first `n` players, `l` is the earliest at greatest distance.
pub open spec fn is_first_max(s: Seq<Player>, r: LatticePoint, l: int, n: int) -> bool {
    &&& 0 <= l < n <= s.len()
    &&& forall|j: int| 0 <= j < n ==> distance(s[l], r) >= #[trigger] distance(s[j], r)
    &&& forall|j: int| 0 <= j < l ==> distance(s[l], r) > #[trigger] distance(s[j], r)
}

/// No `u64` above `n` is prime.
pub open spec fn no_prime_above(n: int) -> bool {
    forall|k: int| n < k <= u64::MAX ==> !#[trigger] is_prime_spec(k)
}

/// Every axis of the composite point has a prime above it within `u64`.
pub open spec fn reference_fits(s: Seq<Player>, scalar: int) -> bool {
    &&& !no_prime_above(composite_coord(s, 0, scalar))
    &&& !no_prime_above(composite_coord(s, 1, scalar))
    &&& !no_prime_above(composite_coord(s, 2, scalar))
}

/// `o` is what the players `s` yield with the given scalar.
pub open spec fn is_outcome_with_scalar(s: Seq<Player>, scalar: int, o: RoundOutcome) -> bool {
    &&& o.composite.x == composite_coord(s, 0, scalar)
    &&& o.composite.y == composite_coord(s, 1, scalar)
    &&& o.composite.z == composite_coord(s, 2, scalar)
    &&& is_next_prime(o.composite.x as int, o.reference.x as int)
    &&& is_next_prime(o.composite.y as int, o.reference.y as int)
    &&& is_next_prime(o.composite.z as int, o.reference.z as int)
    &&& exists|w: int|
        #[trigger] is_first_min(s, o.reference, w, s.len() as int) && o.winner_id == s[w].id
            && o.winner_distance == distance(s[w], o.reference)
    &&& exists|l: int|
        #[trigger] is_first_max(s, o.reference, l, s.len() as int) && o.loser_id == s[l].id
            && o.loser_distance == distance(s[l], o.reference)
}

/// The scalar that the players `s` derive from their coordinate sum.
pub open spec fn round_scalar(s: Seq<Player>) -> int {
    derive_scalar(total_sum(s)) as int
}

/// `o` is what the players `s` yield.
pub open spec fn is_outcome(s: Seq<Player>, o: RoundOutcome) -> bool {
    is_outcome_with_scalar(s, round_scalar(s), o)
}

/// The absolute difference of two coordinates.
pub fn calculate_distance(a: u64, b: u64) -> (r: u64)
    ensures
        r == abs_diff(a as int, b as int),
{
    if a > b {
        a - b
    } else {
        b - a
    }
}

/// The Manhattan distance from a player to a point.
pub fn player_distance(p: &Player, r: &LatticePoint) -> (d: u128)
    ensures
        d == distance(*p, *r),
{
    calculate_distance(p.x, r.x) as u128 + calculate_distance(p.y, r.y) as u128
        + calculate_distance(p.z, r.z) as u128
}

/// The sum of every coordinate of every player, wrapping at 64 bits.
pub fn sum_coordinates(players: &Vec<Player>) -> (r: u64)
    ensures
        r == total_sum(players@),
{
    let mut total: u64 = 0;
    let mut i: usize = 0;
    while i < players.len()
        invariant
            i <= players@.len(),
            total == coordinate_total(players@.take(i as int)) % 0x1_0000_0000_0000_0000,
        decreases players@.len() - i,
    {
        let p = players[i];
        proof {
            assert(players@.take(i + 1).drop_last() == players@.take(i as int));
            lemma_wrapping_step(total, coordinate_total(players@.take(i as int)), p.x, p.y, p.z);
        }
        total = total.wrapping_add(p.x.wrapping_add(p.y).wrapping_add(p.z));
        i = i + 1;
    }
    assert(players@.take(players@.len() as int) == players@);
    total
}

proof fn lemma_wrap(a: int, b: int)
    requires
        0 <= a < 0x1_0000_0000_0000_0000,
        0 <= b < 0x1_0000_0000_0000_0000,
    ensures
        (if a + b > u64::MAX { a + b - 0x1_0000_0000_0000_0000 } else { a + b }) == (a + b)
            % 0x1_0000_0000_0000_0000,
{
    let m: int = 0x1_0000_0000_0000_0000;
    if a + b >= m {
        vstd::arithmetic::div_mod::lemma_mod_sub_multiples_vanish(a + b, m);
        vstd::arithmetic::div_mod::lemma_small_mod((a + b - m) as nat, m as nat);
    } else {
        vstd::arithmetic::div_mod::lemma_small_mod((a + b) as nat, m as nat);
    }
}

/// One step of the wrapping sum: adding a player's coordinates to the wrapped total
/// keeps it the wrapped sum.
proof fn lemma_wrapping_step(total: u64, a: int, x: u64, y: u64, z: u64)
    requires
        total == a % 0x1_0000_0000_0000_0000,
    ensures
        total.wrapping_add(x.wrapping_add(y).wrapping_add(z)) == (a + x + y + z)
            % 0x1_0000_0000_0000_0000,
{
    let m: int = 0x1_0000_0000_0000_0000;
    lemma_wrap(x as int, y as int);
    let xy = x.wrapping_add(y);
    assert(xy == (x + y) % m);
    lemma_wrap(xy as int, z as int);
    let xyz = xy.wrapping_add(z);
    assert(xyz == (xy + z) % m);
    vstd::arithmetic::div_mod::lemma_small_mod(z as nat, m as nat);
    vstd::arithmetic::div_mod::lemma_add_mod_noop(x + y, z as int, m);
    assert(xyz == (x + y + z) % m);
    lemma_wrap(total as int, xyz as int);
    assert(total.wrapping_add(xyz) == (total + xyz) % m);
    vstd::arithmetic::div_mod::lemma_add_mod_noop(a, x + y + z, m);
}

fn composite_coordinate(lo: u64, hi: u64, scalar: u64) -> (r: u64)
    ensures
        r == composite_axis(lo as int, hi as int, scalar as int),
{
    if lo < hi {
        lo + scalar % (hi - lo)
    } else {
        lo
    }
}

/// Computes the round's outcome from the players and a given scalar.
///
/// Returns `None` exactly when some axis of the composite point has no prime above it
/// within `u64`.
pub fn compute_with_scalar(players: &Vec<Player>, scalar: u64) -> (r: Option<RoundOutcome>)
    requires
        players@.len() > 0,
    ensures
        match r {
            Some(o) => is_outcome_with_scalar(players@, scalar as int, o),
            None => !reference_fits(players@, scalar as int),
        },
{
    let mut min_x = u64::MAX;
    let mut max_x = u64::MIN;
    let mut min_y = u64::MAX;
    let mut max_y = u64::MIN;
    let mut min_z = u64::MAX;
    let mut max_z = u64::MIN;
    let mut i: usize = 0;
    while i < players.len()
        invariant
            i <= players@.len(),
            min_x == axis_min(players@.take(i as int), 0),
            max_x == axis_max(players@.take(i as int), 0),
            min_y == axis_min(players@.take(i as int), 1),
            max_y == axis_max(players@.take(i as int), 1),
            min_z == axis_min(players@.take(i as int), 2),
            max_z == axis_max(players@.take(i as int), 2),
        decreases players@.len() - i,
    {
        let p = players[i];
        proof {
            assert(players@.take(i + 1).drop_last() == players@.take(i as int));
        }
        if p.x < min_x {
            min_x = p.x;
        }
        if p.x > max_x {
            max_x = p.x;
        }
        if p.y < min_y {
            min_y = p.y;
        }
        if p.y > max_y {
            max_y = p.y;
        }
        if p.z < min_z {
            min_z = p.z;
        }
        if p.z > max_z {
            max_z = p.z;
        }
        i = i + 1;
    }
    assert(players@.take(players@.len() as int) == players@);
    let composite = LatticePoint {
        x: composite_coordinate(min_x, max_x, scalar),
        y: composite_coordinate(min_y, max_y, scalar),
        z: composite_coordinate(min_z, max_z, scalar),
    };
    let rx = next_prime(composite.x);
    let ry = next_prime(composite.y);
    let rz = next_prime(composite.z);
    let reference = match (rx, ry, rz) {
        (Some(px), Some(py), Some(pz)) => LatticePoint { x: px, y: py, z: pz },
        _ => {
            proof {
                lemma_next_prime_bounds(composite.x as int, rx);
                lemma_next_prime_bounds(composite.y as int, ry);
                lemma_next_prime_bounds(composite.z as int, rz);
            }
            return None;
        },
    };
    let first = player_distance(&players[0], &reference);
    let mut closest: u128 = first;
    let mut farthest: u128 = first;
    let mut w: usize = 0;
    let mut l: usize = 0;
    let mut i: usize = 1;
    while i < players.len()
        invariant
            1 <= i <= players@.len(),
            is_first_min(players@, reference, w as int, i as int),
            is_first_max(players@, reference, l as int, i as int),
            closest == distance(players@[w as int], reference),
            farthest == distance(players@[l as int], reference),
        decreases players@.len() - i,
    {
        let d = player_distance(&players[i], &reference);
        if d < closest {
            closest = d;
            w = i;
        }
        if d > farthest {
            farthest = d;
            l = i;
        }
        i = i + 1;
    }
    let out = RoundOutcome {
        winner_id: players[w].id,
        winner_distance: closest,
        loser_id: players[l].id,
        loser_distance: farthest,
        composite,
        reference,
    };
    assert(is_first_min(players@, out.reference, w as int, players@.len() as int));
    assert(is_first_max(players@, out.reference, l as int, players@.len() as int));
    Some(out)
}

proof fn lemma_next_prime_bounds(n: int, r: Option<u64>)
    requires
        match r {
            Some(p) => is_next_prime(n, p as int),
            None => forall|k: int| n < k <= u64::MAX ==> !#[trigger] is_prime_spec(k),
        },
    ensures
        r is None <==> no_prime_above(n),
{
    if let Some(p) = r {
        assert(n < p <= u64::MAX && is_prime_spec(p as int));
    }
}

proof fn lemma_next_prime_unique(n: int, p: int, q: int)
    requires
        is_next_prime(n, p),
        is_next_prime(n, q),
    ensures
        p == q,
{
    if p < q {
        assert(!is_prime_spec(p));
    } else if q < p {
        assert(!is_prime_spec(q));
    }
}

proof fn lemma_first_min_unique(s: Seq<Player>, r: LatticePoint, a: int, b: int)
    requires
        is_first_min(s, r, a, s.len() as int),
        is_first_min(s, r, b, s.len() as int),
    ensures
        a == b,
{
    if a < b {
        assert(distance(s[b], r) < distance(s[a], r));
    } else if b < a {
        assert(distance(s[a], r) < distance(s[b], r));
    }
}

proof fn lemma_first_max_unique(s: Seq<Player>, r: LatticePoint, a: int, b: int)
    requires
        is_first_max(s, r, a, s.len() as int),
        is_first_max(s, r, b, s.len() as int),
    ensures
        a == b,
{
    if a < b {
        assert(distance(s[b], r) > distance(s[a], r));
    } else if b < a {
        assert(distance(s[a], r) > distance(s[b], r));
    }
}

/// The outcome of a round is a function of its players, in their order: two outcomes of
/// the same players agree on winner, loser, their distances, the composite point and the
/// reference point.
pub proof fn lemma_outcome_deterministic(s: Seq<Player>, o1: RoundOutcome, o2: RoundOutcome)
    requires
        is_outcome(s, o1),
        is_outcome(s, o2),
    ensures
        o1 == o2,
{
    lemma_next_prime_unique(o1.composite.x as int, o1.reference.x as int, o2.reference.x as int);
    lemma_next_prime_unique(o1.composite.y as int, o1.reference.y as int, o2.reference.y as int);
    lemma_next_prime_unique(o1.composite.z as int, o1.reference.z as int, o2.reference.z as int);
    assert(o1.reference == o2.reference);
    assert(o1.composite == o2.composite);
    let r = o1.reference;
    let n = s.len() as int;
    let w1 = choose|w: int|
        #[trigger] is_first_min(s, r, w, n) && o1.winner_id == s[w].id && o1.winner_distance
            == distance(s[w], r);
    let w2 = choose|w: int|
        #[trigger] is_first_min(s, r, w, n) && o2.winner_id == s[w].id && o2.winner_distance
            == distance(s[w], r);
    lemma_first_min_unique(s, r, w1, w2);
    let l1 = choose|l: int|
        #[trigger] is_first_max(s, r, l, n) && o1.loser_id == s[l].id && o1.loser_distance
            == distance(s[l], r);
    let l2 = choose|l: int|
        #[trigger] is_first_max(s, r, l, n) && o2.loser_id == s[l].id && o2.loser_distance
            == distance(s[l], r);
    lemma_first_max_unique(s, r, l1, l2);
}

/// The winner is at least as near the reference point as every participant and strictly
/// nearer than every earlier one; the loser is at least as far as every participant and
/// strictly farther than every earlier one. So on ties the earliest participant takes
/// either role.
pub proof fn lemma_outcome_extremes(s: Seq<Player>, o: RoundOutcome)
    requires
        is_outcome(s, o),
    ensures
        exists|w: int|
            0 <= w < s.len() && o.winner_id == s[w].id && o.winner_distance == distance(s[w], o.reference)
                && (forall|j: int| 0 <= j < s.len() ==> o.winner_distance <= #[trigger] distance(s[j], o.reference))
                && (forall|j: int| 0 <= j < w ==> o.winner_distance < #[trigger] distance(s[j], o.reference)),
        exists|l: int|
            0 <= l < s.len() && o.loser_id == s[l].id && o.loser_distance == distance(s[l], o.reference)
                && (forall|j: int| 0 <= j < s.len() ==> o.loser_distance >= #[trigger] distance(s[j], o.reference))
                && (forall|j: int| 0 <= j < l ==> o.loser_distance > #[trigger] distance(s[j], o.reference)),
{
    let n = s.len() as int;
    let r = o.reference;
    let w = choose|w: int|
        #[trigger] is_first_min(s, r, w, n) && o.winner_id == s[w].id && o.winner_distance
            == distance(s[w], r);
    let l = choose|l: int|
        #[trigger] is_first_max(s, r, l, n) && o.loser_id == s[l].id && o.loser_distance
            == distance(s[l], r);
    assert(0 <= w < s.len());
    assert(0 <= l < s.len());
}

/// Computes the round's outcome from the players: their coordinate sum, wrapped to 64
/// bits, gives the scalar through SHA-256.
///
/// Returns `None` exactly when some axis of the composite point has no prime above it
/// within `u64`.
pub fn compute(players: &Vec<Player>) -> (r: Option<RoundOutcome>)
    requires
        players@.len() > 0,
    ensures
        match r {
            Some(o) => is_outcome(players@, o),
            None => !reference_fits(players@, round_scalar(players@)),
        },
{
    let total = sum_coordinates(players);
    let scalar = hash_sum(total);
    compute_with_scalar(players, scalar)
}

} // verus!
