//! The sampling grid and its partition into chunks.

use itertools::Itertools;
use vstd::prelude::*;

verus! {

/// Calls `Itertools::cartesian_product` on the two sequences and collects
/// what it yields: every pair of an item of `first` with an item of
/// `second`, the pairs of one item of `first` together and in the order of
/// `second`, as the crate's documentation shows.
#[verifier::external_body]
fn cartesian<T: Copy>(first: &Vec<T>, second: &Vec<T>) -> (pairs: Vec<(T, T)>)
    requires
        first.len() * second.len() <= usize::MAX,
    ensures
        pairs@.len() == first@.len() * second@.len(),
        forall|i: int, j: int|
            0 <= i < first@.len() && 0 <= j < second@.len() ==> #[trigger] pairs@[i * second@.len()
                + j] == (first@[i], second@[j]),
{
    first.iter().copied().cartesian_product(second.iter().copied()).collect()
}

/// The square grid over one axis: every pair of samples, row by row.
pub open spec fn grid_of<T>(samples: Seq<T>) -> Seq<(T, T)> {
    Seq::new(
        samples.len() * samples.len(),
        |k: int| (samples[k / samples.len() as int], samples[k % samples.len() as int]),
    )
}

/// The samples along one axis: `value(k)` for `k` from 0 up, as long as they
/// are inside, and at most `u32::MAX` of them.
pub open spec fn is_axis<T, V: Fn(u32) -> T, W: Fn(&T) -> bool>(
    samples: Seq<T>,
    value: V,
    inside: W,
) -> bool {
    &&& samples.len() <= u32::MAX
    &&& forall|k: int|
        0 <= k < samples.len() ==> call_ensures(value, (k as u32,), #[trigger] samples[k])
            && call_ensures(inside, (&samples[k],), true)
    &&& samples.len() < u32::MAX ==> exists|next: T|
        call_ensures(value, (samples.len() as u32,), next) && #[trigger] call_ensures(
            inside,
            (&next,),
            false,
        )
}

/// Samples one axis: takes `value(0)`, `value(1)`, ... and stops at the first
/// that is not inside.
pub fn sample_axis<T, V: Fn(u32) -> T, W: Fn(&T) -> bool>(value: &V, inside: &W) -> (samples: Vec<T>)
    requires
        forall|k: u32| call_requires(*value, (k,)),
        forall|sample: T| call_requires(*inside, (&sample,)),
    ensures
        is_axis(samples@, *value, *inside),
{
    let mut samples: Vec<T> = Vec::new();
    let mut k: u32 = 0;
    let mut open = true;
    while open && k < u32::MAX
        invariant
            forall|k: u32| call_requires(*value, (k,)),
            forall|sample: T| call_requires(*inside, (&sample,)),
            samples@.len() == k,
            forall|i: int|
                0 <= i < samples@.len() ==> call_ensures(*value, (i as u32,), #[trigger] samples@[i])
                    && call_ensures(*inside, (&samples@[i],), true),
            !open ==> k < u32::MAX && exists|next: T|
                call_ensures(*value, (k,), next) && #[trigger] call_ensures(
                    *inside,
                    (&next,),
                    false,
                ),
        decreases u32::MAX - k + (if open { 1int } else { 0int }),
    {
        let next = value(k);
        if inside(&next) {
            samples.push(next);
            k = k + 1;
        } else {
            open = false;
        }
    }
    samples
}

/// The grid of all pairs of samples: the pair at `i * n + j` holds sample `i`
/// and sample `j`, where `n` is the number of samples.
pub fn grid<T: Copy>(samples: &Vec<T>) -> (pairs: Vec<(T, T)>)
    requires
        samples.len() * samples.len() <= usize::MAX,
    ensures
        pairs@ == grid_of(samples@),
{
    let pairs = cartesian(samples, samples);
    proof {
        let n = samples@.len() as int;
        assert forall|k: int| 0 <= k < pairs@.len() implies pairs@[k] == grid_of(samples@)[k] by {
            lemma_grid_index(k, n);
        }
    }
    pairs
}

/// An index into a grid of `n * n` pairs splits into a row and a column.
proof fn lemma_grid_index(k: int, n: int)
    requires
        0 <= n,
        0 <= k < n * n,
    ensures
        0 <= k / n < n,
        0 <= k % n < n,
        k == (k / n) * n + (k % n),
{
    assert(k == (k / n) * n + (k % n) && 0 <= k % n < n && 0 <= k / n) by (nonlinear_arith)
        requires
            n > 0,
            0 <= k,
    ;
    assert(k / n < n) by (nonlinear_arith)
        requires
            n > 0,
            0 <= k < n * n,
            k == (k / n) * n + (k % n),
            0 <= k % n,
    ;
}

/// The number of chunks of `chunk_len` items that `total` items fall into,
/// the last of which may be shorter.
pub open spec fn chunks_of(total: nat, chunk_len: nat) -> nat {
    if total % chunk_len == 0 {
        total / chunk_len
    } else {
        total / chunk_len + 1
    }
}

/// Where chunk `index` begins.
pub open spec fn chunk_start(index: nat, chunk_len: nat) -> nat {
    index * chunk_len
}

/// Where chunk `index` ends: a full chunk further, or at the last item.
pub open spec fn chunk_end(index: nat, total: nat, chunk_len: nat) -> nat {
    if (index + 1) * chunk_len <= total {
        (index + 1) * chunk_len
    } else {
        total
    }
}

/// The number of chunks that `total` items fall into.
pub fn chunk_count(total: usize, chunk_len: usize) -> (count: usize)
    requires
        chunk_len > 0,
    ensures
        count == chunks_of(total as nat, chunk_len as nat),
{
    let full = total / chunk_len;
    if total % chunk_len == 0 {
        full
    } else {
        assert(full < usize::MAX) by (nonlinear_arith)
            requires
                full == total as int / chunk_len as int,
                total as int % chunk_len as int != 0,
                chunk_len > 0,
                0 <= total <= usize::MAX,
        ;
        full + 1
    }
}

/// The items of chunk `index`: from the first of the pair up to, but not
/// including, the second.
pub fn chunk_range(index: usize, total: usize, chunk_len: usize) -> (range: (usize, usize))
    requires
        chunk_len > 0,
        index < chunks_of(total as nat, chunk_len as nat),
    ensures
        range.0 == chunk_start(index as nat, chunk_len as nat),
        range.1 == chunk_end(index as nat, total as nat, chunk_len as nat),
        range.0 < range.1 <= total,
{
    proof {
        lemma_chunks_tile(index as nat, total as nat, chunk_len as nat);
    }
    let start = index * chunk_len;
    let end = if total - start <= chunk_len {
        total
    } else {
        start + chunk_len
    };
    (start, end)
}

/// The chunks tile the items: each chunk is not empty and lies within the
/// items, it holds `chunk_len` items unless it is the last, the first chunk
/// begins at the first item, each chunk begins where the one before ended,
/// and the last chunk ends with the last item.
pub proof fn lemma_chunks_tile(index: nat, total: nat, chunk_len: nat)
    requires
        chunk_len > 0,
        index < chunks_of(total, chunk_len),
    ensures
        chunk_start(index, chunk_len) < chunk_end(index, total, chunk_len) <= total,
        chunk_end(index, total, chunk_len) - chunk_start(index, chunk_len) <= chunk_len,
        index + 1 < chunks_of(total, chunk_len) ==> chunk_end(index, total, chunk_len)
            - chunk_start(index, chunk_len) == chunk_len,
        chunk_start(0, chunk_len) == 0,
        index + 1 < chunks_of(total, chunk_len) ==> chunk_start(index + 1, chunk_len) == chunk_end(
            index,
            total,
            chunk_len,
        ),
        index + 1 == chunks_of(total, chunk_len) ==> chunk_end(index, total, chunk_len) == total,
{
    let full = total / chunk_len;
    let rest = total % chunk_len;
    assert(total == full * chunk_len + rest && 0 <= rest < chunk_len) by (nonlinear_arith)
        requires
            chunk_len > 0,
            full == total / chunk_len,
            rest == total % chunk_len,
    ;
    assert((index + 1) * chunk_len == index * chunk_len + chunk_len) by (nonlinear_arith);
    if index < full {
        assert((index + 1) * chunk_len <= full * chunk_len) by (nonlinear_arith)
            requires
                index + 1 <= full,
                chunk_len > 0,
        ;
    }
}

} // verus!
