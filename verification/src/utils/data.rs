//! Preparing data: class labels as one-hot rows, and arrays shuffled alike.

use crate::tensor::{fits2, Tensor2};
use crate::text::{decimal, format_decimal};
use rand::seq::SliceRandom;
use vstd::prelude::*;

verus! {

/// Why labels cannot be encoded.
#[derive(Debug, Clone, Copy, PartialEq, Eq, Structural)]
pub enum OneHotError {
    /// The labels do not stand in a single column.
    NotOneColumn { columns: usize },
    /// There is no label.
    Empty,
    /// One row per label and one column per class do not fit an array.
    TooLarge,
}

impl OneHotError {
    /// The message of the error.
    pub open spec fn spec_message(&self) -> Seq<char> {
        match self {
            OneHotError::NotOneColumn { columns } => "array must have only one column, actually: "@
                + decimal(*columns as nat),
            OneHotError::Empty => "array must have a label"@,
            OneHotError::TooLarge => "array of one column per class is too large"@,
        }
    }

    /// The message of the error.
    pub fn message(&self) -> (r: String)
        ensures
            r@ == self.spec_message(),
    {
        match self {
            OneHotError::NotOneColumn { columns } => {
                let mut r = String::from_str("array must have only one column, actually: ");
                let count = format_decimal(*columns as u64);
                r.append(count.as_str());
                r
            },
            OneHotError::Empty => String::from_str("array must have a label"),
            OneHotError::TooLarge => String::from_str("array of one column per class is too large"),
        }
    }
}

/// The largest of a list of labels, and zero for an empty list.
pub open spec fn largest(labels: Seq<usize>) -> usize
    decreases labels.len(),
{
    if labels.len() == 0 {
        0
    } else if labels.last() >= largest(labels.drop_last()) {
        labels.last()
    } else {
        largest(labels.drop_last())
    }
}

/// What the checks say of labels in an array of the given shape.
pub open spec fn one_hot_check(shape: (usize, usize), labels: Seq<usize>) -> Result<(), OneHotError> {
    if shape.1 != 1 {
        Err(OneHotError::NotOneColumn { columns: shape.1 })
    } else if shape.0 == 0 {
        Err(OneHotError::Empty)
    } else if largest(labels) == usize::MAX || !fits2(shape.0 as nat, (largest(labels) + 1) as nat) {
        Err(OneHotError::TooLarge)
    } else {
        Ok(())
    }
}

fn find_largest(labels: &Vec<usize>) -> (r: usize)
    ensures
        r == largest(labels@),
{
    let mut r: usize = 0;
    let mut i: usize = 0;
    while i < labels.len()
        invariant
            i <= labels@.len(),
            r == largest(labels@.take(i as int)),
        decreases labels@.len() - i,
    {
        proof {
            assert(labels@.take(i + 1).drop_last() =~= labels@.take(i as int));
        }
        if labels[i] >= r {
            r = labels[i];
        }
        i = i + 1;
    }
    proof {
        assert(labels@.take(i as int) =~= labels@);
    }
    r
}

/// One row per label, with `one` in the column of the label and `zero` in
/// the other columns; there is one column more than the largest label.
/// The labels are to stand in a single column.
pub fn one_hot_encoding<T: Copy>(x: &Tensor2<usize>, zero: T, one: T) -> (r: Result<
    Tensor2<T>,
    OneHotError,
>)
    ensures
        match r {
            Ok(encoded) => {
                &&& one_hot_check(x.spec_shape(), x@) is Ok
                &&& encoded.spec_shape() == (x.spec_shape().0, (largest(x@) + 1) as usize)
                &&& forall|i: int, j: int|
                    0 <= i < encoded.spec_shape().0 && 0 <= j < encoded.spec_shape().1
                        ==> #[trigger] encoded.spec_at(i, j) == if j == x@[i] {
                        one
                    } else {
                        zero
                    }
            },
            Err(e) => one_hot_check(x.spec_shape(), x@) == Err::<(), OneHotError>(e),
        },
{
    let (rows, columns) = x.shape();
    if columns != 1 {
        return Err(OneHotError::NotOneColumn { columns });
    }
    if rows == 0 {
        return Err(OneHotError::Empty);
    }
    proof {
        use_type_invariant(x);
        assert(rows * 1 == rows) by (nonlinear_arith);
    }
    let labels = x.clone().into_raw_vec();
    let max = find_largest(&labels);
    if max == usize::MAX {
        return Err(OneHotError::TooLarge);
    }
    let classes = max + 1;
    let limit: usize = isize::MAX as usize;
    if rows > limit / classes {
        proof {
            assert(rows as nat * classes as nat > limit as nat) by (nonlinear_arith)
                requires
                    rows > limit / classes,
                    classes > 0,
            ;
        }
        return Err(OneHotError::TooLarge);
    }
    proof {
        assert(rows as nat * classes as nat <= limit as nat) by (nonlinear_arith)
            requires
                rows <= limit / classes,
                classes > 0,
        ;
    }
    let encode = |i: usize, j: usize| -> (v: T)
        requires
            i < rows,
            j < classes,
        ensures
            v == if j == labels@[i as int] {
                one
            } else {
                zero
            },
        {
            let v = if j == labels[i] {
                one
            } else {
                zero
            };
            v
        };
    let encoded = Tensor2::from_shape_fn((rows, classes), encode);
    proof {
        assert forall|i: int, j: int| 0 <= i < rows && 0 <= j < classes implies #[trigger] encoded.spec_at(
            i,
            j,
        ) == if j == x@[i] {
            one
        } else {
            zero
        } by {
            assert(encoded.spec_at(i as usize as int, j as usize as int) == encoded.spec_at(i, j));
        }
    }
    Ok(encoded)
}


/// Why arrays cannot be shuffled alike.
#[derive(Debug, Clone, Copy, PartialEq, Eq, Structural)]
pub enum ShuffleError {
    /// There is no array.
    NoArray,
    /// The arrays do not all have the same number of rows.
    DifferentLengths,
}

impl ShuffleError {
    /// The message of the error.
    pub open spec fn spec_message(&self) -> Seq<char> {
        match self {
            ShuffleError::NoArray => "there must be an array to shuffle"@,
            ShuffleError::DifferentLengths => "arrays must have the same column length"@,
        }
    }

    /// The message of the error.
    pub fn message(&self) -> (r: String)
        ensures
            r@ == self.spec_message(),
    {
        match self {
            ShuffleError::NoArray => String::from_str("there must be an array to shuffle"),
            ShuffleError::DifferentLengths => String::from_str(
                "arrays must have the same column length",
            ),
        }
    }
}

/// The numbers from zero up to, and without, `n`, in order.
pub open spec fn identity(n: nat) -> Seq<usize> {
    Seq::new(n, |i: int| i as usize)
}

/// Whether `order` holds each of the numbers below `n` once.
pub open spec fn is_permutation(order: Seq<usize>, n: nat) -> bool {
    order.to_multiset() == identity(n).to_multiset()
}

/// Whether `out` holds the rows of `array` in the given order: row `i` of
/// `out` is row `order[i]` of `array`.
pub open spec fn selects<T>(out: Tensor2<T>, array: Tensor2<T>, order: Seq<usize>) -> bool {
    &&& out.spec_shape() == (order.len() as usize, array.spec_shape().1)
    &&& forall|i: int, j: int|
        0 <= i < order.len() && 0 <= j < array.spec_shape().1 ==> #[trigger] out.spec_at(i, j)
            == array.spec_at(order[i] as int, j)
}

/// Whether every entry of `order` is the number of a row of an array of
/// `rows` rows.
pub open spec fn names_rows(order: Seq<usize>, rows: usize) -> bool {
    forall|i: int| 0 <= i < order.len() ==> order[i] < rows
}

/// Whether all the arrays have `rows` rows.
pub open spec fn same_rows<T>(arrays: Seq<&Tensor2<T>>, rows: usize) -> bool {
    forall|k: int| 0 <= k < arrays.len() ==> (#[trigger] arrays[k]).spec_shape().0 == rows
}

/// What the checks say of a list of arrays.
pub open spec fn shuffle_check<T>(arrays: Seq<&Tensor2<T>>) -> Result<(), ShuffleError> {
    if arrays.len() == 0 {
        Err(ShuffleError::NoArray)
    } else if !same_rows(arrays, arrays[0].spec_shape().0) {
        Err(ShuffleError::DifferentLengths)
    } else {
        Ok(())
    }
}

/// A permutation of the numbers below `n` has `n` entries, each below `n`.
pub proof fn lemma_permutation_bounds(order: Seq<usize>, n: nat)
    requires
        is_permutation(order, n),
        n <= usize::MAX,
    ensures
        order.len() == n,
        forall|i: int| 0 <= i < order.len() ==> order[i] < n,
{
    order.to_multiset_ensures();
    identity(n).to_multiset_ensures();
    assert forall|i: int| 0 <= i < order.len() implies order[i] < n by {
        let x = order[i];
        assert(order.contains(x));
        assert(order.to_multiset().count(x) > 0);
        assert(identity(n).to_multiset().count(x) > 0);
        assert(identity(n).contains(x));
        let k = choose|k: int| 0 <= k < identity(n).len() && identity(n)[k] == x;
        assert(identity(n)[k] == k as usize);
    }
}

/// Shuffles the list by a call of `SliceRandom::shuffle` of the crate
/// `rand`, with the generator of the thread. Taken on trust: that the call
/// only swaps entries, so that the list keeps its length and what it
/// holds. Nothing is said of the order that comes out.
#[verifier::external_body]
fn shuffle(indexes: &mut Vec<usize>)
    ensures
        final(indexes)@.len() == old(indexes)@.len(),
        final(indexes)@.to_multiset() == old(indexes)@.to_multiset(),
{
    indexes.shuffle(&mut rand::thread_rng());
}

/// The rows of each array in the given order.
pub fn reorder<T: Copy>(arrays: &Vec<&Tensor2<T>>, order: &Vec<usize>) -> (out: Vec<Tensor2<T>>)
    requires
        forall|k: int|
            0 <= k < arrays@.len() ==> fits2(order@.len(), (#[trigger] arrays@[k]).spec_shape().1 as nat),
        forall|k: int|
            0 <= k < arrays@.len() ==> names_rows(order@, (#[trigger] arrays@[k]).spec_shape().0),
    ensures
        out@.len() == arrays@.len(),
        forall|k: int| 0 <= k < out@.len() ==> selects(#[trigger] out@[k], *arrays@[k], order@),
{
    let mut out: Vec<Tensor2<T>> = Vec::new();
    let mut k: usize = 0;
    while k < arrays.len()
        invariant
            k <= arrays@.len(),
            out@.len() == k,
            forall|k: int|
                0 <= k < arrays@.len() ==> fits2(
                    order@.len(),
                    (#[trigger] arrays@[k]).spec_shape().1 as nat,
                ),
            forall|k: int|
                0 <= k < arrays@.len() ==> names_rows(
                    order@,
                    (#[trigger] arrays@[k]).spec_shape().0,
                ),
            forall|m: int| 0 <= m < k ==> selects(#[trigger] out@[m], *arrays@[m], order@),
        decreases arrays@.len() - k,
    {
        let array = arrays[k];
        proof {
            assert(names_rows(order@, arrays@[k as int].spec_shape().0));
        }
        let selected = array.select_rows(order);
        out.push(selected);
        k = k + 1;
    }
    out
}

/// The rows of every array in one and the same random order. The arrays
/// are to have the same number of rows.
pub fn shuffle_arrays<T: Copy>(arrays: Vec<&Tensor2<T>>) -> (r: Result<Vec<Tensor2<T>>, ShuffleError>)
    ensures
        match r {
            Ok(out) => {
                &&& shuffle_check(arrays@) is Ok
                &&& out@.len() == arrays@.len()
                &&& exists|order: Seq<usize>|
                    {
                        &&& is_permutation(order, arrays@[0].spec_shape().0 as nat)
                        &&& forall|k: int|
                            0 <= k < out@.len() ==> selects(#[trigger] out@[k], *arrays@[k], order)
                    }
            },
            Err(e) => shuffle_check(arrays@) == Err::<(), ShuffleError>(e),
        },
{
    if arrays.len() == 0 {
        return Err(ShuffleError::NoArray);
    }
    let rows = arrays[0].shape().0;
    let mut k: usize = 0;
    while k < arrays.len()
        invariant
            k <= arrays@.len(),
            arrays@.len() > 0,
            rows == arrays@[0].spec_shape().0,
            forall|m: int|
                0 <= m < k ==> (#[trigger] arrays@[m]).spec_shape().0 == rows && fits2(
                    rows as nat,
                    arrays@[m].spec_shape().1 as nat,
                ),
        decreases arrays@.len() - k,
    {
        let array = arrays[k];
        if array.shape().0 != rows {
            return Err(ShuffleError::DifferentLengths);
        }
        proof {
            use_type_invariant(array);
        }
        k = k + 1;
    }
    let mut indexes: Vec<usize> = Vec::new();
    let mut i: usize = 0;
    while i < rows
        invariant
            i <= rows,
            indexes@ =~= identity(i as nat),
        decreases rows - i,
    {
        indexes.push(i);
        i = i + 1;
    }
    shuffle(&mut indexes);
    proof {
        lemma_permutation_bounds(indexes@, rows as nat);
    }
    let out = reorder(&arrays, &indexes);
    proof {
        let order = indexes@;
        assert(is_permutation(order, arrays@[0].spec_shape().0 as nat));
        assert(forall|k: int| 0 <= k < out@.len() ==> selects(#[trigger] out@[k], *arrays@[k], order));
    }
    Ok(out)
}

} // verus!
