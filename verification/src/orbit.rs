//! Orbits of a point under an iterated map.
//!
//! The map and the escape test are closures: the plane they work on is the
//! caller's.  An orbit starts at the origin, applies the map at most `limit`
//! times and stops early as soon as a new point lies beyond the bound.

use crate::mode::DrawMode;
use vstd::prelude::*;

verus! {

/// The points an orbit visited, and whether it left the bound.
pub struct Orbit<P> {
    pub points: Vec<P>,
    pub escaped: bool,
}

/// `points` with the flag `escaped` is a run of `map` from `origin` for the
/// coordinate `coord`: it starts at the origin, each point is the image of
/// the one before, no point but the last was found beyond the bound, the last
/// one was found beyond it exactly if the run escaped, and a run that did not
/// escape has applied the map `limit` times.
pub open spec fn is_orbit<C, P, M: Fn(P, &C) -> P, E: Fn(&P) -> bool>(
    points: Seq<P>,
    escaped: bool,
    coord: C,
    origin: P,
    limit: nat,
    map: M,
    beyond: E,
) -> bool {
    &&& 1 <= points.len() <= limit + 1
    &&& points[0] == origin
    &&& forall|i: int|
        0 <= i < points.len() - 1 ==> call_ensures(map, (points[i], &coord), #[trigger] points[i + 1])
    &&& forall|i: int|
        1 <= i < points.len() ==> call_ensures(
            beyond,
            (&#[trigger] points[i],),
            escaped && i == points.len() - 1,
        )
    &&& escaped ==> points.len() >= 2
    &&& !escaped ==> points.len() == limit + 1
}

/// Runs the map from `origin` and records every point visited.
pub fn trace_orbit<C, P: Copy, M: Fn(P, &C) -> P, E: Fn(&P) -> bool>(
    coord: &C,
    origin: P,
    limit: usize,
    map: &M,
    beyond: &E,
) -> (orbit: Orbit<P>)
    requires
        forall|z: P| call_requires(*map, (z, coord)),
        forall|z: P| call_requires(*beyond, (&z,)),
    ensures
        is_orbit(orbit.points@, orbit.escaped, *coord, origin, limit as nat, *map, *beyond),
{
    let mut points: Vec<P> = Vec::new();
    points.push(origin);
    let mut z = origin;
    let mut escaped = false;
    let mut steps: usize = 0;
    while steps < limit && !escaped
        invariant
            forall|w: P| call_requires(*map, (w, coord)),
            forall|w: P| call_requires(*beyond, (&w,)),
            steps <= limit,
            points@.len() == steps + 1,
            points@[0] == origin,
            points@[steps as int] == z,
            forall|i: int|
                0 <= i < points@.len() - 1 ==> call_ensures(
                    *map,
                    (points@[i], coord),
                    #[trigger] points@[i + 1],
                ),
            forall|i: int|
                1 <= i < points@.len() ==> call_ensures(
                    *beyond,
                    (&#[trigger] points@[i],),
                    escaped && i == points@.len() - 1,
                ),
            escaped ==> steps >= 1,
        decreases limit - steps + (if escaped { 0int } else { 1int }),
    {
        let next = map(z, coord);
        points.push(next);
        escaped = beyond(&next);
        z = next;
        steps = steps + 1;
    }
    Orbit { points, escaped }
}

/// What is kept of an orbit under `mode`: its points, or nothing.
pub open spec fn filtered<P>(mode: DrawMode, points: Seq<P>, escaped: bool) -> Option<Seq<P>> {
    if mode.keeps(escaped) {
        Some(points)
    } else {
        None
    }
}

/// The view of an optional trace.
pub open spec fn trace_view<P>(kept: Option<Vec<P>>) -> Option<Seq<P>> {
    match kept {
        Some(points) => Some(points@),
        None => None,
    }
}

/// Runs the orbit of one coordinate and keeps its points if the draw mode
/// asks for orbits of its kind.
pub fn iterate_coordinate<C, P: Copy, M: Fn(P, &C) -> P, E: Fn(&P) -> bool>(
    coord: &C,
    origin: P,
    limit: usize,
    mode: DrawMode,
    map: &M,
    beyond: &E,
) -> (kept: Option<Vec<P>>)
    requires
        forall|z: P| call_requires(*map, (z, coord)),
        forall|z: P| call_requires(*beyond, (&z,)),
    ensures
        exists|points: Seq<P>, escaped: bool|
            is_orbit(points, escaped, *coord, origin, limit as nat, *map, *beyond) && trace_view(
                kept,
            ) == filtered(mode, points, escaped),
{
    let orbit = trace_orbit(coord, origin, limit, map, beyond);
    let ghost points = orbit.points@;
    let ghost escaped = orbit.escaped;
    let kept = if mode.accepts(orbit.escaped) {
        Some(orbit.points)
    } else {
        None
    };
    assert(is_orbit(points, escaped, *coord, origin, limit as nat, *map, *beyond) && trace_view(
        kept,
    ) == filtered(mode, points, escaped));
    kept
}

/// Whether the orbit of one coordinate leaves the bound within `limit`
/// applications of the map.  No point is recorded.
pub fn escapes<C, P: Copy, M: Fn(P, &C) -> P, E: Fn(&P) -> bool>(
    coord: &C,
    origin: P,
    limit: usize,
    map: &M,
    beyond: &E,
) -> (escaped: bool)
    requires
        forall|z: P| call_requires(*map, (z, coord)),
        forall|z: P| call_requires(*beyond, (&z,)),
    ensures
        exists|points: Seq<P>|
            is_orbit(points, escaped, *coord, origin, limit as nat, *map, *beyond),
{
    let ghost mut points: Seq<P> = seq![origin];
    let mut z = origin;
    let mut escaped = false;
    let mut steps: usize = 0;
    while steps < limit && !escaped
        invariant
            forall|w: P| call_requires(*map, (w, coord)),
            forall|w: P| call_requires(*beyond, (&w,)),
            steps <= limit,
            points.len() == steps + 1,
            points[0] == origin,
            points[steps as int] == z,
            forall|i: int|
                0 <= i < points.len() - 1 ==> call_ensures(
                    *map,
                    (points[i], coord),
                    #[trigger] points[i + 1],
                ),
            forall|i: int|
                1 <= i < points.len() ==> call_ensures(
                    *beyond,
                    (&#[trigger] points[i],),
                    escaped && i == points.len() - 1,
                ),
            escaped ==> steps >= 1,
        decreases limit - steps + (if escaped { 0int } else { 1int }),
    {
        let next = map(z, coord);
        escaped = beyond(&next);
        z = next;
        steps = steps + 1;
        proof {
            points = points.push(next);
        }
    }
    assert(is_orbit(points, escaped, *coord, origin, limit as nat, *map, *beyond));
    escaped
}

/// An orbit holds between one and `limit + 1` points.  One that stopped
/// before the limit escaped, and one that did not escape ran to the limit.
pub proof fn lemma_orbit_length<C, P, M: Fn(P, &C) -> P, E: Fn(&P) -> bool>(
    points: Seq<P>,
    escaped: bool,
    coord: C,
    origin: P,
    limit: nat,
    map: M,
    beyond: E,
)
    requires
        is_orbit(points, escaped, coord, origin, limit, map, beyond),
    ensures
        1 <= points.len() <= limit + 1,
        points.len() <= limit ==> escaped,
        !escaped ==> points.len() == limit + 1,
        escaped ==> 2 <= points.len(),
{
}

/// Unless the orbit left the bound on the very last application that the
/// limit allows, it escaped exactly if it holds at most `limit` points.
pub proof fn lemma_escaped_iff_short<C, P, M: Fn(P, &C) -> P, E: Fn(&P) -> bool>(
    points: Seq<P>,
    escaped: bool,
    coord: C,
    origin: P,
    limit: nat,
    map: M,
    beyond: E,
)
    requires
        is_orbit(points, escaped, coord, origin, limit, map, beyond),
        !(escaped && points.len() == limit + 1),
    ensures
        escaped <==> points.len() <= limit,
{
}

/// Where the map sends the origin to itself and the origin is never found
/// beyond the bound, the orbit stays at the origin for `limit` applications
/// and does not escape.
pub proof fn lemma_fixed_origin_is_trapped<C, P, M: Fn(P, &C) -> P, E: Fn(&P) -> bool>(
    points: Seq<P>,
    escaped: bool,
    coord: C,
    origin: P,
    limit: nat,
    map: M,
    beyond: E,
)
    requires
        is_orbit(points, escaped, coord, origin, limit, map, beyond),
        forall|next: P| call_ensures(map, (origin, &coord), next) ==> next == origin,
        forall|found: bool| call_ensures(beyond, (&origin,), found) ==> !found,
    ensures
        !escaped,
        points.len() == limit + 1,
        forall|i: int| 0 <= i < points.len() ==> points[i] == origin,
{
    lemma_constant_prefix(points, escaped, coord, origin, limit, map, beyond, points.len() as int);
    if escaped {
        let last = points.len() - 1;
        assert(call_ensures(beyond, (&points[last],), true));
    }
}

/// The first `n` points of an orbit whose map fixes the origin are the origin.
proof fn lemma_constant_prefix<C, P, M: Fn(P, &C) -> P, E: Fn(&P) -> bool>(
    points: Seq<P>,
    escaped: bool,
    coord: C,
    origin: P,
    limit: nat,
    map: M,
    beyond: E,
    n: int,
)
    requires
        is_orbit(points, escaped, coord, origin, limit, map, beyond),
        forall|next: P| call_ensures(map, (origin, &coord), next) ==> next == origin,
        1 <= n <= points.len(),
    ensures
        forall|i: int| 0 <= i < n ==> points[i] == origin,
    decreases n,
{
    if n > 1 {
        lemma_constant_prefix(points, escaped, coord, origin, limit, map, beyond, n - 1);
        assert(call_ensures(map, (points[n - 2], &coord), points[n - 2 + 1]));
    }
}

/// Where every image of the origin lies beyond the bound and the limit allows
/// one application, the orbit is the origin followed by one point, and it
/// escaped.
pub proof fn lemma_far_coordinate_escapes_at_once<C, P, M: Fn(P, &C) -> P, E: Fn(&P) -> bool>(
    points: Seq<P>,
    escaped: bool,
    coord: C,
    origin: P,
    limit: nat,
    map: M,
    beyond: E,
)
    requires
        is_orbit(points, escaped, coord, origin, limit, map, beyond),
        limit >= 1,
        forall|next: P, found: bool|
            call_ensures(map, (origin, &coord), next) && call_ensures(beyond, (&next,), found)
                ==> found,
    ensures
        escaped,
        points.len() == 2,
{
    assert(call_ensures(map, (points[0], &coord), points[0int + 1]));
}

} // verus!
