//! Where the elements of a (multi-dimensional) array live in its flat storage: dimensions
//! have inclusive bounds, and the last index varies fastest.
use crate::types::Index;
use vstd::prelude::*;

verus! {

/// The number of values of one dimension.
pub open spec fn extent(d: Index) -> int {
    d.upper - d.lower + 1
}

/// The number of elements spanned by one step of dimension `k - 1`: the product of the
/// extents of the dimensions from `k` on.
pub open spec fn size_from(shape: Seq<Index>, k: int) -> int
    decreases shape.len() - k,
{
    if k >= shape.len() {
        1
    } else {
        extent(shape[k]) * size_from(shape, k + 1)
    }
}

/// The number of elements of an array of the shape.
pub open spec fn capacity(shape: Seq<Index>) -> int {
    size_from(shape, 0)
}

/// The flat offset of the indices from dimension `k` on.
pub open spec fn offset_from(indices: Seq<i64>, shape: Seq<Index>, k: int) -> int
    decreases shape.len() - k,
{
    if k >= shape.len() {
        0
    } else {
        (indices[k] - shape[k].lower) * size_from(shape, k + 1) + offset_from(indices, shape, k + 1)
    }
}

pub open spec fn in_bounds(i: i64, d: Index) -> bool {
    d.lower <= i <= d.upper
}

/// Every dimension holds at least one value.
pub open spec fn nonempty_dims(shape: Seq<Index>) -> bool {
    forall|k: int| 0 <= k < shape.len() ==> (#[trigger] shape[k]).lower <= shape[k].upper
}

/// The last dimension whose index is out of its bounds, if any (the dimensions are checked
/// from the last to the first).
pub open spec fn last_out_of_bounds(indices: Seq<i64>, shape: Seq<Index>, k: int) -> Option<int>
    decreases k,
{
    if k <= 0 {
        None
    } else if !in_bounds(indices[k - 1], shape[k - 1]) {
        Some(k - 1)
    } else {
        last_out_of_bounds(indices, shape, k - 1)
    }
}

/// Why an array access was refused.
#[derive(Clone, Copy, Debug, PartialEq, Eq, Structural)]
pub enum IndexError {
    /// The number of indices differs from the number of dimensions.
    WrongCount,
    /// The index for dimension `dim` lies outside `lower..upper`.
    OutOfBounds { dim: usize, index: i64, lower: i64, upper: i64 },
}

proof fn lemma_size_positive(shape: Seq<Index>, k: int)
    requires
        nonempty_dims(shape),
        0 <= k,
    ensures
        size_from(shape, k) >= 1,
    decreases shape.len() - k,
{
    if k < shape.len() {
        lemma_size_positive(shape, k + 1);
        assert(shape[k].lower <= shape[k].upper);
        let e = extent(shape[k]);
        let s = size_from(shape, k + 1);
        assert(e * s >= 1) by (nonlinear_arith)
            requires
                e >= 1,
                s >= 1,
        ;
    }
}

proof fn lemma_size_decreasing(shape: Seq<Index>, j: int, k: int)
    requires
        nonempty_dims(shape),
        0 <= j <= k,
    ensures
        size_from(shape, k) <= size_from(shape, j),
    decreases k - j,
{
    if j < k && j < shape.len() {
        lemma_size_decreasing(shape, j + 1, k);
        lemma_size_positive(shape, j + 1);
        assert(shape[j].lower <= shape[j].upper);
        let e = extent(shape[j]);
        let s = size_from(shape, j + 1);
        assert(e * s >= s) by (nonlinear_arith)
            requires
                e >= 1,
                s >= 1,
        ;
    }
}

/// The flat offset of in-bound indices lies within the storage of the dimensions concerned.
pub proof fn lemma_offset_bounds(indices: Seq<i64>, shape: Seq<Index>, k: int)
    requires
        nonempty_dims(shape),
        indices.len() == shape.len(),
        0 <= k,
        forall|d: int| k <= d < shape.len() ==> in_bounds(#[trigger] indices[d], shape[d]),
    ensures
        0 <= offset_from(indices, shape, k) < size_from(shape, k),
    decreases shape.len() - k,
{
    if k < shape.len() {
        lemma_offset_bounds(indices, shape, k + 1);
        lemma_size_positive(shape, k + 1);
        assert(in_bounds(indices[k], shape[k]));
        let off = indices[k] - shape[k].lower;
        let e = extent(shape[k]);
        let s = size_from(shape, k + 1);
        let t = offset_from(indices, shape, k + 1);
        assert(0 <= off * s + t < e * s) by (nonlinear_arith)
            requires
                0 <= off < e,
                0 <= t < s,
        ;
    }
}

/// The place in the flat storage of the element at `indices`: the indices are checked
/// from the last dimension to the first.
pub fn get_array_index(indices: &Vec<i64>, shape: &Vec<Index>) -> (r: Result<usize, IndexError>)
    requires
        nonempty_dims(shape@) ==> capacity(shape@) <= i64::MAX && capacity(shape@) <= usize::MAX,
    ensures
        indices.len() != shape.len() ==> r == Err::<usize, IndexError>(IndexError::WrongCount),
        indices.len() == shape.len() ==> match last_out_of_bounds(indices@, shape@, shape.len() as int) {
            Some(d) => r == Err::<usize, IndexError>(
                IndexError::OutOfBounds {
                    dim: d as usize,
                    index: indices@[d],
                    lower: shape@[d].lower,
                    upper: shape@[d].upper,
                },
            ),
            None => r matches Ok(i) && i == offset_from(indices@, shape@, 0) && i < capacity(shape@),
        },
{
    if indices.len() != shape.len() {
        return Err(IndexError::WrongCount);
    }
    let mut d = shape.len();
    while d > 0
        invariant
            d <= shape.len(),
            indices.len() == shape.len(),
            forall|q: int| d <= q < shape.len() ==> in_bounds(#[trigger] indices@[q], shape@[q]),
            last_out_of_bounds(indices@, shape@, shape.len() as int) == last_out_of_bounds(
                indices@,
                shape@,
                d as int,
            ),
        decreases d,
    {
        let dim = shape[d - 1];
        let index = indices[d - 1];
        if index < dim.lower || index > dim.upper {
            return Err(IndexError::OutOfBounds { dim: d - 1, index, lower: dim.lower, upper: dim.upper });
        }
        d = d - 1;
    }
    proof {
        assert forall|k: int| 0 <= k < shape@.len() implies (#[trigger] shape@[k]).lower <= shape@[k].upper by {
            assert(in_bounds(indices@[k], shape@[k]));
        }
        assert(last_out_of_bounds(indices@, shape@, 0) is None);
    }
    Ok(flat_offset(indices, shape))
}

/// The flat offset of in-bound indices.
fn flat_offset(indices: &Vec<i64>, shape: &Vec<Index>) -> (i: usize)
    requires
        indices.len() == shape.len(),
        nonempty_dims(shape@),
        capacity(shape@) <= i64::MAX,
        capacity(shape@) <= usize::MAX,
        forall|q: int| 0 <= q < shape.len() ==> in_bounds(#[trigger] indices@[q], shape@[q]),
    ensures
        i == offset_from(indices@, shape@, 0),
        i < capacity(shape@),
{
    let mut size: i64 = 1;
    let mut total: i64 = 0;
    let mut d = shape.len();
    while d > 0
        invariant
            d <= shape.len(),
            indices.len() == shape.len(),
            nonempty_dims(shape@),
            capacity(shape@) <= i64::MAX,
            size == size_from(shape@, d as int),
            total == offset_from(indices@, shape@, d as int),
            forall|q: int| 0 <= q < shape.len() ==> in_bounds(#[trigger] indices@[q], shape@[q]),
        decreases d,
    {
        let dim = shape[d - 1];
        let index = indices[d - 1];
        proof {
            assert(in_bounds(indices@[d - 1], shape@[d - 1]));
            lemma_offset_bounds(indices@, shape@, d as int);
            lemma_size_decreasing(shape@, 0, d - 1);
            lemma_size_positive(shape@, d as int);
            assert(shape@[d - 1].lower <= shape@[d - 1].upper);
            let off = index - dim.lower;
            let e = extent(dim);
            assert(size * e == e * size) by (nonlinear_arith);
            assert(off * size + total < e * size) by (nonlinear_arith)
                requires
                    0 <= off < e,
                    0 <= total < size,
            ;
            assert(0 <= off * size) by (nonlinear_arith)
                requires
                    0 <= off,
                    0 <= size,
            ;
            assert(e <= e * size) by (nonlinear_arith)
                requires
                    1 <= e,
                    1 <= size,
            ;
            assert(size_from(shape@, d - 1) == e * size);
        }
        total = total + (index - dim.lower) * size;
        size = size * (dim.upper - dim.lower + 1);
        d = d - 1;
    }
    proof {
        lemma_offset_bounds(indices@, shape@, 0);
    }
    total as usize
}

/// The forward product of the extents of the first `k` dimensions, as the declaration of
/// an array computes it, or `None` once a step leaves the range of `i64`.
pub open spec fn capacity_upto(shape: Seq<Index>, k: int) -> Option<int>
    decreases k,
{
    if k <= 0 {
        Some(1)
    } else {
        match capacity_upto(shape, k - 1) {
            None => None,
            Some(c) => {
                let diff = shape[k - 1].upper - shape[k - 1].lower;
                let e = diff + 1;
                if !(i64::MIN <= diff <= i64::MAX) || !(i64::MIN <= e <= i64::MAX) || !(i64::MIN <= c
                    * e <= i64::MAX) {
                    None
                } else {
                    Some(c * e)
                }
            },
        }
    }
}

proof fn lemma_capacity_stays_none(shape: Seq<Index>, k: int, n: int)
    requires
        0 <= k <= n,
        capacity_upto(shape, k) is None,
    ensures
        capacity_upto(shape, n) is None,
    decreases n - k,
{
    if k < n {
        lemma_capacity_stays_none(shape, k + 1, n);
    }
}

/// The number of elements of an array of the shape, computed in `i64`; `None` where the
/// computation leaves the range of `i64`.
pub fn array_capacity(shape: &Vec<Index>) -> (r: Option<i64>)
    ensures
        match capacity_upto(shape@, shape.len() as int) {
            Some(c) => r == Some(c as i64),
            None => r is None,
        },
{
    let mut c: i64 = 1;
    let mut k: usize = 0;
    while k < shape.len()
        invariant
            k <= shape.len(),
            capacity_upto(shape@, k as int) == Some(c as int),
        decreases shape.len() - k,
    {
        let d = shape[k];
        let diff = match d.upper.checked_sub(d.lower) {
            Some(x) => x,
            None => {
                proof {
                    lemma_capacity_stays_none(shape@, k + 1, shape.len() as int);
                }
                return None;
            },
        };
        let e = match diff.checked_add(1) {
            Some(x) => x,
            None => {
                proof {
                    lemma_capacity_stays_none(shape@, k + 1, shape.len() as int);
                }
                return None;
            },
        };
        c = match c.checked_mul(e) {
            Some(x) => x,
            None => {
                proof {
                    lemma_capacity_stays_none(shape@, k + 1, shape.len() as int);
                }
                return None;
            },
        };
        k = k + 1;
    }
    Some(c)
}

/// In-bound indices land inside the array's storage.
pub proof fn law_index_within_capacity(indices: Seq<i64>, shape: Seq<Index>)
    requires
        nonempty_dims(shape),
        indices.len() == shape.len(),
        forall|d: int| 0 <= d < shape.len() ==> in_bounds(#[trigger] indices[d], shape[d]),
    ensures
        0 <= offset_from(indices, shape, 0) < capacity(shape),
{
    lemma_offset_bounds(indices, shape, 0);
}

/// Splitting a number into a multiple of `size` and a remainder below `size` is unique.
proof fn lemma_unique_split(a: int, r: int, b: int, t: int, size: int)
    requires
        size > 0,
        0 <= r < size,
        0 <= t < size,
        a * size + r == b * size + t,
    ensures
        a == b,
        r == t,
{
    assert(a == b && r == t) by (nonlinear_arith)
        requires
            size > 0,
            0 <= r < size,
            0 <= t < size,
            a * size + r == b * size + t,
    ;
}

/// Different in-bound indices land in different places of the storage.
pub proof fn law_index_is_injective(i1: Seq<i64>, i2: Seq<i64>, shape: Seq<Index>, k: int)
    requires
        nonempty_dims(shape),
        i1.len() == shape.len(),
        i2.len() == shape.len(),
        0 <= k <= shape.len(),
        forall|d: int| 0 <= d < shape.len() ==> in_bounds(#[trigger] i1[d], shape[d]),
        forall|d: int| 0 <= d < shape.len() ==> in_bounds(#[trigger] i2[d], shape[d]),
        offset_from(i1, shape, k) == offset_from(i2, shape, k),
    ensures
        forall|d: int| k <= d < shape.len() ==> i1[d] == i2[d],
    decreases shape.len() - k,
{
    if k < shape.len() {
        lemma_offset_bounds(i1, shape, k + 1);
        lemma_offset_bounds(i2, shape, k + 1);
        lemma_size_positive(shape, k + 1);
        assert(in_bounds(i1[k], shape[k]));
        assert(in_bounds(i2[k], shape[k]));
        lemma_unique_split(
            i1[k] - shape[k].lower,
            offset_from(i1, shape, k + 1),
            i2[k] - shape[k].lower,
            offset_from(i2, shape, k + 1),
            size_from(shape, k + 1),
        );
        law_index_is_injective(i1, i2, shape, k + 1);
    }
}

} // verus!
