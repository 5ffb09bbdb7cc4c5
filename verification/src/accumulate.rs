//! The accumulator: the canvases of all chunks folded into one.
//!
//! Chunks are rendered apart, each on a canvas of its own, and merged
//! afterwards.  The lemmas say when the outcome does not depend on how the
//! canvases are grouped or ordered.

use crate::canvas::{is_raster, is_uncovered, merged, same_shape, uniform, Canvas};
use crate::pixel::LumaAlpha;
use vstd::prelude::*;

verus! {

/// The rasters of a list of canvases.
pub open spec fn rasters(canvases: Seq<Canvas>) -> Seq<Seq<Seq<LumaAlpha>>> {
    canvases.map_values(|canvas: Canvas| canvas@)
}

/// The rasters merged onto `seed` one after the other, the first one first.
pub open spec fn accumulated(seed: Seq<Seq<LumaAlpha>>, chunks: Seq<Seq<Seq<LumaAlpha>>>) -> Seq<
    Seq<LumaAlpha>,
>
    decreases chunks.len(),
{
    if chunks.len() == 0 {
        seed
    } else {
        merged(accumulated(seed, chunks.drop_last()), chunks.last())
    }
}

/// Folds the canvases of all chunks into one: starting from an untouched
/// canvas, each is merged in turn.
pub fn accumulate(side: u32, chunks: &Vec<Canvas>) -> (total: Canvas)
    requires
        4 * side * side <= isize::MAX,
        forall|i: int| 0 <= i < chunks@.len() ==> (#[trigger] chunks@[i])@.len() == side,
    ensures
        total@ == accumulated(uniform(side as nat, LumaAlpha::clear()), rasters(chunks@)),
        total@.len() == side,
        is_raster(total@),
{
    let mut total = Canvas::new(side);
    let ghost seed = total@;
    let mut done: usize = 0;
    while done < chunks.len()
        invariant
            done <= chunks@.len(),
            forall|i: int| 0 <= i < chunks@.len() ==> (#[trigger] chunks@[i])@.len() == side,
            seed == uniform(side as nat, LumaAlpha::clear()),
            total@.len() == side,
            is_raster(total@),
            total@ == accumulated(seed, rasters(chunks@).take(done as int)),
        decreases chunks@.len() - done,
    {
        total.merge(&chunks[done]);
        proof {
            let all = rasters(chunks@);
            assert(all.take(done + 1).drop_last() =~= all.take(done as int));
        }
        done = done + 1;
    }
    assert(rasters(chunks@).take(done as int) =~= rasters(chunks@));
    total
}

/// Merging a canvas without coverage into another changes nothing.
pub proof fn lemma_merge_neutral(rows: Seq<Seq<LumaAlpha>>, blank: Seq<Seq<LumaAlpha>>)
    requires
        same_shape(rows, blank),
        is_uncovered(blank),
    ensures
        merged(rows, blank) == rows,
{
    assert(merged(rows, blank) =~~= rows);
}

/// Merging a canvas into an untouched one gives that canvas, provided its
/// pixels without coverage are untouched too.
pub proof fn lemma_merge_into_untouched(rows: Seq<Seq<LumaAlpha>>, side: nat)
    requires
        same_shape(rows, uniform(side, LumaAlpha::clear())),
        forall|y: int, x: int|
            0 <= y < rows.len() && 0 <= x < rows[y].len() && (#[trigger] rows[y][x]).alpha == 0
                ==> rows[y][x] == LumaAlpha::clear(),
    ensures
        merged(uniform(side, LumaAlpha::clear()), rows) == rows,
{
    let blank = uniform(side, LumaAlpha::clear());
    assert(merged(blank, rows) =~~= rows);
}

/// Where compositing is associative on the three pixels at every place, the
/// merge of the three canvases does not depend on how they are grouped.
pub proof fn lemma_merge_grouping(
    a: Seq<Seq<LumaAlpha>>,
    b: Seq<Seq<LumaAlpha>>,
    c: Seq<Seq<LumaAlpha>>,
)
    requires
        same_shape(a, b),
        same_shape(a, c),
        forall|y: int, x: int|
            0 <= y < a.len() && 0 <= x < a[y].len() ==> (#[trigger] a[y][x]).over(b[y][x]).over(
                c[y][x],
            ) == a[y][x].over(b[y][x].over(c[y][x])),
    ensures
        merged(merged(a, b), c) == merged(a, merged(b, c)),
{
    assert(merged(merged(a, b), c) =~~= merged(a, merged(b, c)));
}

/// Where compositing two pixels over a third gives the same in either order
/// at every place, two canvases may be merged into a third in either order.
pub proof fn lemma_merge_order(
    a: Seq<Seq<LumaAlpha>>,
    b: Seq<Seq<LumaAlpha>>,
    c: Seq<Seq<LumaAlpha>>,
)
    requires
        same_shape(a, b),
        same_shape(a, c),
        forall|y: int, x: int|
            0 <= y < a.len() && 0 <= x < a[y].len() ==> (#[trigger] a[y][x]).over(b[y][x]).over(
                c[y][x],
            ) == a[y][x].over(c[y][x]).over(b[y][x]),
    ensures
        merged(merged(a, b), c) == merged(merged(a, c), b),
{
    assert(merged(merged(a, b), c) =~~= merged(merged(a, c), b));
}

/// A merge changes each pixel by the pixel above it alone: the pixel of the
/// result at a place is the pixel of the base at that place with the pixel of
/// the top at that place composited over it.
pub proof fn lemma_merge_is_pixelwise(
    base: Seq<Seq<LumaAlpha>>,
    top: Seq<Seq<LumaAlpha>>,
    x: int,
    y: int,
)
    requires
        same_shape(base, top),
        0 <= y < base.len(),
        0 <= x < base[y].len(),
    ensures
        same_shape(merged(base, top), base),
        merged(base, top)[y][x] == base[y][x].over(top[y][x]),
{
}

/// Every raster of the list has the shape of `seed`.
pub open spec fn all_shaped_like(chunks: Seq<Seq<Seq<LumaAlpha>>>, seed: Seq<Seq<LumaAlpha>>) -> bool {
    forall|i: int| 0 <= i < chunks.len() ==> same_shape(seed, #[trigger] chunks[i])
}

/// Compositing is associative: two pixels composited one after the other
/// over a third give what their composite gives over it, whatever the three
/// pixels are.
pub open spec fn compositing_is_associative() -> bool {
    forall|a: LumaAlpha, b: LumaAlpha, c: LumaAlpha|
        (#[trigger] a.over(b).over(c)) == a.over(b.over(c))
}

/// Folding keeps the shape of the seed.
pub proof fn lemma_accumulated_shape(seed: Seq<Seq<LumaAlpha>>, chunks: Seq<Seq<Seq<LumaAlpha>>>)
    ensures
        same_shape(accumulated(seed, chunks), seed),
    decreases chunks.len(),
{
    if chunks.len() > 0 {
        lemma_accumulated_shape(seed, chunks.drop_last());
    }
}

/// Folding a list of canvases in two parts, the second part onto what the
/// first part gave, is folding the whole list.
pub proof fn lemma_accumulate_in_parts(
    seed: Seq<Seq<LumaAlpha>>,
    first: Seq<Seq<Seq<LumaAlpha>>>,
    second: Seq<Seq<Seq<LumaAlpha>>>,
)
    ensures
        accumulated(seed, first + second) == accumulated(accumulated(seed, first), second),
    decreases second.len(),
{
    if second.len() > 0 {
        lemma_accumulate_in_parts(seed, first, second.drop_last());
        assert((first + second).drop_last() =~= first + second.drop_last());
    }
}

/// Where compositing is associative, the parts of a list of canvases may be
/// folded apart, each from an untouched canvas, and the two results merged:
/// that gives what folding the whole list gives.
pub proof fn lemma_accumulate_apart(
    side: nat,
    first: Seq<Seq<Seq<LumaAlpha>>>,
    second: Seq<Seq<Seq<LumaAlpha>>>,
)
    requires
        compositing_is_associative(),
        all_shaped_like(first, uniform(side, LumaAlpha::clear())),
        all_shaped_like(second, uniform(side, LumaAlpha::clear())),
    ensures
        accumulated(uniform(side, LumaAlpha::clear()), first + second) == merged(
            accumulated(uniform(side, LumaAlpha::clear()), first),
            accumulated(uniform(side, LumaAlpha::clear()), second),
        ),
    decreases second.len(),
{
    let blank = uniform(side, LumaAlpha::clear());
    let left = accumulated(blank, first);
    lemma_accumulated_shape(blank, first);
    if second.len() == 0 {
        lemma_merge_neutral(left, blank);
    } else {
        let front = second.drop_last();
        let top = second.last();
        lemma_accumulate_apart(side, first, front);
        lemma_accumulated_shape(blank, front);
        assert((first + second).drop_last() =~= first + front);
        let right = accumulated(blank, front);
        lemma_merge_grouping(left, right, top);
    }
}

/// Compositing two pixels over a third gives the same in either order,
/// whatever the three pixels are.
pub open spec fn compositing_commutes() -> bool {
    forall|a: LumaAlpha, b: LumaAlpha, c: LumaAlpha|
        (#[trigger] a.over(b).over(c)) == a.over(c).over(b)
}

/// Where compositing commutes, a canvas of the list may be merged last
/// instead of in its place.
proof fn lemma_accumulate_one_last(
    seed: Seq<Seq<LumaAlpha>>,
    chunks: Seq<Seq<Seq<LumaAlpha>>>,
    place: int,
)
    requires
        compositing_commutes(),
        all_shaped_like(chunks, seed),
        0 <= place < chunks.len(),
    ensures
        accumulated(seed, chunks) == merged(accumulated(seed, chunks.remove(place)), chunks[place]),
    decreases chunks.len(),
{
    if place < chunks.len() - 1 {
        let front = chunks.drop_last();
        let last = chunks.last();
        lemma_accumulate_one_last(seed, front, place);
        let rest = accumulated(seed, front.remove(place));
        lemma_accumulated_shape(seed, front.remove(place));
        lemma_merge_order(rest, chunks[place], last);
        assert(chunks.remove(place).drop_last() =~= front.remove(place));
    }
}

/// Where compositing commutes, the order in which the canvases are folded
/// does not matter: two lists that hold the same canvases, each as often as
/// the other, fold to the same canvas.
pub proof fn lemma_accumulate_in_any_order(
    seed: Seq<Seq<LumaAlpha>>,
    first: Seq<Seq<Seq<LumaAlpha>>>,
    second: Seq<Seq<Seq<LumaAlpha>>>,
)
    requires
        compositing_commutes(),
        all_shaped_like(first, seed),
        first.to_multiset() == second.to_multiset(),
    ensures
        accumulated(seed, first) == accumulated(seed, second),
    decreases second.len(),
{
    first.to_multiset_ensures();
    second.to_multiset_ensures();
    if second.len() > 0 {
        let last = second.last();
        assert(first.to_multiset().count(last) > 0);
        let place = choose|i: int| 0 <= i < first.len() && first[i] == last;
        let others = first.remove(place);
        let front = second.drop_last();
        assert(front =~= second.remove(second.len() - 1));
        lemma_accumulate_in_any_order(seed, others, front);
        lemma_accumulate_one_last(seed, first, place);
    }
}

} // verus!
