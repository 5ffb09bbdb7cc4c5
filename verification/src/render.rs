//! The chunk renderer: the orbits of a batch of coordinates, drawn segment
//! by segment.
//!
//! Drawing a segment is the caller's: a closure that takes the image, the two
//! end points and gives the image back.  What is decided here is which
//! segments are drawn, and in which order.

use crate::mode::DrawMode;
use crate::orbit::{is_orbit, iterate_coordinate};
use vstd::prelude::*;

verus! {

/// The number of segments between consecutive points of a trace.
pub open spec fn segment_count<P>(points: Seq<P>) -> nat {
    if points.len() == 0 {
        0
    } else {
        (points.len() - 1) as nat
    }
}

/// `after` is what drawing the segment from `from` to `to` onto `before` gives.
pub open spec fn segment_drawn<P, I, D: Fn(I, P, P) -> I>(
    before: I,
    from: P,
    to: P,
    after: I,
    draw: D,
) -> bool {
    call_ensures(draw, (before, from, to), after)
}

/// `after` is `before` with the first `count` segments of the trace drawn
/// onto it, one after the other: the segment from `points[i]` to
/// `points[i + 1]` for `i` from 0 up.
pub open spec fn segments_drawn<P, I, D: Fn(I, P, P) -> I>(
    points: Seq<P>,
    count: nat,
    before: I,
    after: I,
    draw: D,
) -> bool
    decreases count,
{
    if count == 0 {
        after == before
    } else {
        exists|mid: I|
            segments_drawn(points, (count - 1) as nat, before, mid, draw) && #[trigger] segment_drawn(
                mid,
                points[count - 1],
                points[count as int],
                after,
                draw,
            )
    }
}

/// `after` is `before` with one coordinate rendered: some orbit of the
/// coordinate was run, and all its segments were drawn if the mode keeps it,
/// none if it does not.
pub open spec fn coordinate_drawn<C, P, I, M: Fn(P, &C) -> P, E: Fn(&P) -> bool, D: Fn(I, P, P) -> I>(
    coord: C,
    before: I,
    after: I,
    origin: P,
    limit: nat,
    mode: DrawMode,
    map: M,
    beyond: E,
    draw: D,
) -> bool {
    exists|points: Seq<P>, escaped: bool|
        is_orbit(points, escaped, coord, origin, limit, map, beyond) && (if mode.keeps(escaped) {
            segments_drawn(points, segment_count(points), before, after, draw)
        } else {
            after == before
        })
}

/// `after` is `before` with the first `count` coordinates of the chunk
/// rendered, one after the other.
pub open spec fn chunk_drawn<C, P, I, M: Fn(P, &C) -> P, E: Fn(&P) -> bool, D: Fn(I, P, P) -> I>(
    chunk: Seq<C>,
    count: nat,
    before: I,
    after: I,
    origin: P,
    limit: nat,
    mode: DrawMode,
    map: M,
    beyond: E,
    draw: D,
) -> bool
    decreases count,
{
    if count == 0 {
        after == before
    } else {
        exists|mid: I|
            chunk_drawn(
                chunk,
                (count - 1) as nat,
                before,
                mid,
                origin,
                limit,
                mode,
                map,
                beyond,
                draw,
            ) && #[trigger] coordinate_drawn(
                chunk[count - 1],
                mid,
                after,
                origin,
                limit,
                mode,
                map,
                beyond,
                draw,
            )
    }
}

/// One more segment drawn extends what was drawn before.
proof fn lemma_next_segment<P, I, D: Fn(I, P, P) -> I>(
    points: Seq<P>,
    count: nat,
    before: I,
    mid: I,
    after: I,
    draw: D,
)
    requires
        segments_drawn(points, count, before, mid, draw),
        segment_drawn(mid, points[count as int], points[count as int + 1], after, draw),
    ensures
        segments_drawn(points, count + 1, before, after, draw),
{
    assert(segment_drawn(mid, points[count + 1 - 1], points[count as int + 1], after, draw));
}

/// One more coordinate rendered extends what was rendered before.
proof fn lemma_next_coordinate<C, P, I, M: Fn(P, &C) -> P, E: Fn(&P) -> bool, D: Fn(I, P, P) -> I>(
    chunk: Seq<C>,
    count: nat,
    before: I,
    mid: I,
    after: I,
    origin: P,
    limit: nat,
    mode: DrawMode,
    map: M,
    beyond: E,
    draw: D,
)
    requires
        chunk_drawn(chunk, count, before, mid, origin, limit, mode, map, beyond, draw),
        coordinate_drawn(chunk[count as int], mid, after, origin, limit, mode, map, beyond, draw),
    ensures
        chunk_drawn(chunk, count + 1, before, after, origin, limit, mode, map, beyond, draw),
{
    assert(coordinate_drawn(
        chunk[count + 1 - 1],
        mid,
        after,
        origin,
        limit,
        mode,
        map,
        beyond,
        draw,
    ));
}

/// Draws the segment between every two consecutive points of a trace.
pub fn draw_trace<P: Copy, I, D: Fn(I, P, P) -> I>(points: &Vec<P>, image: I, draw: &D) -> (out: I)
    requires
        forall|target: I, from: P, to: P| call_requires(*draw, (target, from, to)),
    ensures
        segments_drawn(points@, segment_count(points@), image, out, *draw),
{
    let mut image = image;
    let ghost before = image;
    let count: usize = if points.len() == 0 {
        0
    } else {
        points.len() - 1
    };
    let mut done: usize = 0;
    while done < count
        invariant
            forall|target: I, from: P, to: P| call_requires(*draw, (target, from, to)),
            count == segment_count(points@),
            done <= count,
            segments_drawn(points@, done as nat, before, image, *draw),
        decreases count - done,
    {
        let ghost mid = image;
        image = draw(image, points[done], points[done + 1]);
        proof {
            lemma_next_segment(points@, done as nat, before, mid, image, *draw);
        }
        done = done + 1;
    }
    image
}

/// Renders a chunk of coordinates onto an image: for each coordinate in
/// turn, runs its orbit and, if the mode keeps it, draws its trace.
pub fn iterate_chunk<C, P: Copy, I, M: Fn(P, &C) -> P, E: Fn(&P) -> bool, D: Fn(I, P, P) -> I>(
    chunk: &[C],
    image: I,
    origin: P,
    limit: usize,
    mode: DrawMode,
    map: &M,
    beyond: &E,
    draw: &D,
) -> (out: I)
    requires
        forall|z: P, i: int| 0 <= i < chunk@.len() ==> call_requires(*map, (z, &#[trigger] chunk@[i])),
        forall|z: P| call_requires(*beyond, (&z,)),
        forall|target: I, from: P, to: P| call_requires(*draw, (target, from, to)),
    ensures
        chunk_drawn(
            chunk@,
            chunk@.len(),
            image,
            out,
            origin,
            limit as nat,
            mode,
            *map,
            *beyond,
            *draw,
        ),
{
    let mut image = image;
    let ghost before = image;
    let mut done: usize = 0;
    while done < chunk.len()
        invariant
            forall|z: P, i: int|
                0 <= i < chunk@.len() ==> call_requires(*map, (z, &#[trigger] chunk@[i])),
            forall|z: P| call_requires(*beyond, (&z,)),
            forall|target: I, from: P, to: P| call_requires(*draw, (target, from, to)),
            done <= chunk@.len(),
            chunk_drawn(
                chunk@,
                done as nat,
                before,
                image,
                origin,
                limit as nat,
                mode,
                *map,
                *beyond,
                *draw,
            ),
        decreases chunk.len() - done,
    {
        let ghost mid = image;
        let kept = iterate_coordinate(&chunk[done], origin, limit, mode, map, beyond);
        match kept {
            Some(trace) => {
                image = draw_trace(&trace, image, draw);
            },
            None => {},
        }
        proof {
            lemma_next_coordinate(
                chunk@,
                done as nat,
                before,
                mid,
                image,
                origin,
                limit as nat,
                mode,
                *map,
                *beyond,
                *draw,
            );
        }
        done = done + 1;
    }
    image
}

} // verus!
