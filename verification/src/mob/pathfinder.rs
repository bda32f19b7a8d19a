//! Eight-way path finding on a map grid with the strict diagonal rule: a
//! diagonal step needs its target and both cells beside the corner walkable.

use vstd::prelude::*;
use crate::map::data::MapData;

verus! {

/// The largest `r` with `r * r <= n`.
pub open spec fn spec_is_isqrt(n: int, r: int) -> bool {
    0 <= r && r * r <= n < (r + 1) * (r + 1)
}

/// The integer square root of `n`, for `n` below 2^34.
pub fn isqrt(n: u64) -> (r: u64)
    requires
        n < 0x4_0000_0000,
    ensures
        spec_is_isqrt(n as int, r as int),
{
    let mut lo: u64 = 0;
    let mut hi: u64 = 0x2_0000;
    assert(hi * hi > n) by (nonlinear_arith)
        requires hi == 0x2_0000, n < 0x4_0000_0000;
    while hi - lo > 1
        invariant
            lo < hi <= 0x2_0000,
            lo * lo <= n,
            n < hi * hi,
        decreases hi - lo,
    {
        let mid = lo + (hi - lo) / 2;
        assert(mid * mid <= 0x4_0000_0000) by (nonlinear_arith)
            requires mid <= 0x2_0000;
        if mid * mid <= n {
            lo = mid;
        } else {
            hi = mid;
        }
    }
    assert(hi == lo + 1);
    lo
}

/// One step from `c` by `d` (-1, 0 or 1), wrapping around the 16-bit range.
pub open spec fn spec_shift(c: u16, d: int) -> u16 {
    if c + d < 0 { 65535 } else if c + d > 65535 { 0 } else { (c + d) as u16 }
}

fn shift(c: u16, d: i8) -> (r: u16)
    requires
        -1 <= d <= 1,
    ensures
        r == spec_shift(c, d as int),
{
    if d < 0 {
        if c == 0 { 65535 } else { c - 1 }
    } else if d > 0 {
        if c == 65535 { 0 } else { c + 1 }
    } else {
        c
    }
}

/// The eight directions in the order they are tried: N, S, W, E, NW, NE, SW, SE.
pub open spec fn spec_direction(i: int) -> (int, int) {
    if i == 0 { (0, -1) } else if i == 1 { (0, 1) } else if i == 2 { (-1, 0) } else if i == 3 { (1, 0) }
    else if i == 4 { (-1, -1) } else if i == 5 { (1, -1) } else if i == 6 { (-1, 1) } else { (1, 1) }
}

/// Whether a monster may step from `a` to `b` in one move: `b` is one of the
/// eight neighbours of `a` and walkable, and for a diagonal step the two
/// cells beside the corner, `(a.x, b.y)` and `(b.x, a.y)`, are walkable too.
pub open spec fn spec_step(grid: MapData, a: (u16, u16), b: (u16, u16)) -> bool {
    exists|i: int| 0 <= i < 8 && #[trigger] spec_step_dir(grid, a, b, i)
}

/// `b` is the neighbour of `a` in direction `i` and the step there is allowed.
pub open spec fn spec_step_dir(grid: MapData, a: (u16, u16), b: (u16, u16), i: int) -> bool {
    let (dx, dy) = spec_direction(i);
    &&& b == (spec_shift(a.0, dx), spec_shift(a.1, dy))
    &&& grid.spec_walkable(b.0 as int, b.1 as int)
    &&& (dx != 0 && dy != 0) ==> grid.spec_walkable(a.0 as int, b.1 as int) && grid.spec_walkable(b.0 as int, a.1 as int)
}

/// `p` leads from `start` to `end` by allowed steps.
pub open spec fn spec_is_path(grid: MapData, start: (u16, u16), end: (u16, u16), p: Seq<(u16, u16)>) -> bool {
    &&& p.len() >= 1
    &&& p[0] == start
    &&& p.last() == end
    &&& forall|i: int| 0 <= i < p.len() - 1 ==> spec_step(grid, #[trigger] p[i], p[i + 1])
}

/// Whether a direction is diagonal.
pub fn is_diagonal(dx: i8, dy: i8) -> (b: bool)
    ensures
        b == (dx != 0 && dy != 0),
{
    dx != 0 && dy != 0
}

impl Pathfinder {
    /// The strict diagonal rule for a step from `(cx, cy)` to `(nx, ny)`:
    /// the target and the two cells beside the corner, `(cx, ny)` and
    /// `(nx, cy)`, must all be walkable.
    pub fn strict_diagonal_walkable(nx: u16, ny: u16, cx: u16, cy: u16, grid: &MapData) -> (b: bool)
        ensures
            b == (grid.spec_walkable(nx as int, ny as int) && grid.spec_walkable(cx as int, ny as int)
                && grid.spec_walkable(nx as int, cy as int)),
    {
        if !grid.is_walkable(nx, ny) {
            return false;
        }
        grid.is_walkable(cx, ny) && grid.is_walkable(nx, cy)
    }
}

/// The neighbours of `p` that a monster may step to, each at cost 1, in the
/// order of the directions.
pub fn successors(p: &(u16, u16), grid: &MapData) -> (r: Vec<((u16, u16), usize)>)
    ensures
        forall|k: int| 0 <= k < r@.len() ==> (#[trigger] r@[k]).1 == 1 && spec_step(*grid, *p, r@[k].0),
        forall|q: (u16, u16)| spec_step(*grid, *p, q) ==> exists|k: int| 0 <= k < r@.len() && (#[trigger] r@[k]).0 == q,
{
    let (x, y) = *p;
    let dirs: [(i8, i8); 8] = [(0, -1), (0, 1), (-1, 0), (1, 0), (-1, -1), (1, -1), (-1, 1), (1, 1)];
    let mut result: Vec<((u16, u16), usize)> = Vec::new();
    let mut i: usize = 0;
    while i < 8
        invariant
            i <= 8,
            dirs@ == seq![(0i8, -1i8), (0i8, 1i8), (-1i8, 0i8), (1i8, 0i8), (-1i8, -1i8), (1i8, -1i8), (-1i8, 1i8), (1i8, 1i8)],
            (x, y) == *p,
            forall|k: int| 0 <= k < result@.len() ==> (#[trigger] result@[k]).1 == 1 && spec_step(*grid, *p, result@[k].0),
            forall|j: int, q: (u16, u16)| 0 <= j < i && #[trigger] spec_step_dir(*grid, *p, q, j) ==>
                exists|k: int| 0 <= k < result@.len() && (#[trigger] result@[k]).0 == q,
        decreases 8 - i,
    {
        let (dx, dy) = dirs[i];
        assert((dx as int, dy as int) == spec_direction(i as int));
        let nx = shift(x, dx);
        let ny = shift(y, dy);
        let allowed = if is_diagonal(dx, dy) {
            Pathfinder::strict_diagonal_walkable(nx, ny, x, y, grid)
        } else {
            grid.is_walkable(nx, ny)
        };
        let ghost old_result = result@;
        if allowed {
            assert(spec_step_dir(*grid, *p, (nx, ny), i as int));
            result.push(((nx, ny), 1));
        }
        proof {
            assert forall|j: int, q: (u16, u16)| 0 <= j < i + 1 && #[trigger] spec_step_dir(*grid, *p, q, j) implies
                exists|k: int| 0 <= k < result@.len() && (#[trigger] result@[k]).0 == q by {
                if j < i {
                    let k = choose|k: int| 0 <= k < old_result.len() && (#[trigger] old_result[k]).0 == q;
                    assert(result@[k] == old_result[k]);
                } else {
                    assert(q == (nx, ny));
                    assert(result@[result@.len() - 1].0 == q);
                }
            }
        }
        i = i + 1;
    }
    proof {
        assert forall|q: (u16, u16)| spec_step(*grid, *p, q) implies exists|k: int| 0 <= k < result@.len() && (#[trigger] result@[k]).0 == q by {
            let j = choose|j: int| 0 <= j < 8 && #[trigger] spec_step_dir(*grid, *p, q, j);
        }
    }
    result
}

/// The distance between two coordinates around the 16-bit ring that steps
/// wrap on: the shorter way round.
pub open spec fn spec_ring_dist(a: u16, b: u16) -> int {
    let d = if a >= b { a - b } else { b - a };
    if d <= 32768 { d } else { 65536 - d }
}

/// The Chebyshev distance between two cells, each axis measured around the
/// ring: the larger of the two axis distances.
pub open spec fn spec_chebyshev(a: (u16, u16), b: (u16, u16)) -> int {
    let dx = spec_ring_dist(a.0, b.0);
    let dy = spec_ring_dist(a.1, b.1);
    if dx >= dy { dx } else { dy }
}

fn ring_dist(a: u16, b: u16) -> (r: u16)
    ensures
        r == spec_ring_dist(a, b),
{
    let d: u32 = if a >= b { (a - b) as u32 } else { (b - a) as u32 };
    if d <= 32768 { d as u16 } else { (65536 - d) as u16 }
}

/// The estimate of the remaining distance: the Chebyshev distance around the
/// ring, which never exceeds the number of steps still needed (see
/// `lemma_estimate_admissible`).
pub fn heuristic(a: &(u16, u16), b: &(u16, u16)) -> (h: usize)
    ensures
        h == spec_chebyshev(*a, *b),
{
    let dx = ring_dist(a.0, b.0);
    let dy = ring_dist(a.1, b.1);
    if dx >= dy { dx as usize } else { dy as usize }
}

proof fn lemma_shift_ring(c: u16, d: int, e: u16)
    requires
        -1 <= d <= 1,
    ensures
        spec_ring_dist(c, e) <= spec_ring_dist(spec_shift(c, d), e) + 1,
{
}

/// A path takes at least as many steps as the Chebyshev distance (around
/// the ring) from its start to its end: the estimate the search uses never
/// overestimates.
pub proof fn lemma_estimate_admissible(grid: MapData, p: Seq<(u16, u16)>, end: (u16, u16))
    requires
        spec_is_path(grid, p[0], end, p),
    ensures
        spec_chebyshev(p[0], end) <= p.len() - 1,
    decreases p.len(),
{
    if p.len() > 1 {
        let rest = p.drop_first();
        assert forall|i: int| 0 <= i < rest.len() - 1 implies spec_step(grid, #[trigger] rest[i], rest[i + 1]) by {
            assert(rest[i] == p[i + 1] && rest[i + 1] == p[i + 2]);
        }
        assert(rest.last() == p.last());
        assert(spec_step(grid, p[0], p[1]));
        let k = choose|k: int| 0 <= k < 8 && #[trigger] spec_step_dir(grid, p[0], p[1], k);
        let (dx, dy) = spec_direction(k);
        lemma_shift_ring(p[0].0, dx, end.0);
        lemma_shift_ring(p[0].1, dy, end.1);
        lemma_estimate_admissible(grid, rest, end);
    }
}

/// Whether `p` is the goal.
pub fn is_goal(p: &(u16, u16), end: &(u16, u16)) -> (b: bool)
    ensures
        b == (*p == *end),
{
    p.0 == end.0 && p.1 == end.1
}

/// Calls `pathfinding::directed::astar::astar` from `start` with the
/// successors (each at cost 1), the Chebyshev estimate and the goal test
/// above. Its source shows that a returned path starts at `start`, ends at
/// a goal and moves by successor steps, and that it gives up only once every
/// reachable cell was expanded; its documentation promises a shortest path
/// when the estimate never exceeds the real cost, which
/// `lemma_estimate_admissible` shows of this estimate.
/// Which of several shortest paths it returns is left unsaid.
#[verifier::external_body]
fn astar_search(start: (u16, u16), end: (u16, u16), grid: &MapData) -> (r: Option<Vec<(u16, u16)>>)
    ensures
        match r {
            Some(p) => spec_is_path(*grid, start, end, p@)
                && forall|q: Seq<(u16, u16)>| #[trigger] spec_is_path(*grid, start, end, q) ==> p@.len() <= q.len(),
            None => forall|p: Seq<(u16, u16)>| !spec_is_path(*grid, start, end, p),
        },
{
    pathfinding::prelude::astar(&start, |p| successors(p, grid), |p| heuristic(p, &end), |p| is_goal(p, &end))
        .map(|found| found.0)
}

/// The path finder.
pub struct Pathfinder;

/// `start` and `end` lie within `radius` of each other on both axes.
pub open spec fn spec_within_radius(start: (u16, u16), end: (u16, u16), radius: u16) -> bool {
    -radius <= start.0 - end.0 <= radius && -radius <= start.1 - end.1 <= radius
}

impl Pathfinder {
    /// A path from `start` to `end` on `grid`, without `start` and ending at
    /// `end`; none when `end` lies farther than `search_radius` on either axis
    /// or cannot be reached.
    pub fn find_path(start: (u16, u16), end: (u16, u16), grid: &MapData, search_radius: u16) -> (r: Option<Vec<(u16, u16)>>)
        ensures
            !spec_within_radius(start, end, search_radius) ==> r is None,
            spec_within_radius(start, end, search_radius) ==> (r is Some <==> exists|p: Seq<(u16, u16)>| spec_is_path(*grid, start, end, p)),
            r matches Some(q) ==> exists|p: Seq<(u16, u16)>| spec_is_path(*grid, start, end, p) && q@ == p.drop_first(),
            r matches Some(q) ==> forall|p: Seq<(u16, u16)>| #[trigger] spec_is_path(*grid, start, end, p)
                ==> q@.len() + 1 <= p.len(),
    {
        let dx: u16 = if start.0 >= end.0 { start.0 - end.0 } else { end.0 - start.0 };
        let dy: u16 = if start.1 >= end.1 { start.1 - end.1 } else { end.1 - start.1 };
        if dx > search_radius || dy > search_radius {
            return None;
        }
        match astar_search(start, end, grid) {
            Some(path) => {
                let ghost full = path@;
                let mut rest = path;
                rest.remove(0);
                assert(rest@ =~= full.drop_first());
                Some(rest)
            },
            None => None,
        }
    }
}

} // verus!
