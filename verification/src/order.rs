//! The place of the largest value, found by numbers that stand for the values.
//!
//! The library does not compare the scalars of its tensors. Where it needs
//! their order, the caller hands in a key for each scalar: a number that is
//! larger than another key exactly where the scalar is larger than the other
//! scalar.

use crate::tensor::Tensor2;
use vstd::prelude::*;

verus! {

/// The place of the largest of a list of keys, the first such place where
/// several keys are the largest; zero for an empty list.
pub open spec fn first_max(keys: Seq<u64>) -> int
    decreases keys.len(),
{
    if keys.len() <= 1 {
        0
    } else {
        let before = first_max(keys.drop_last());
        if keys.last() > keys[before] {
            keys.len() - 1
        } else {
            before
        }
    }
}

/// The first maximum is a place of the list, no key is larger than the key
/// there, and every key before it is smaller.
pub proof fn lemma_first_max(keys: Seq<u64>)
    requires
        keys.len() > 0,
    ensures
        0 <= first_max(keys) < keys.len(),
        forall|j: int| 0 <= j < keys.len() ==> #[trigger] keys[j] <= keys[first_max(keys)],
        forall|j: int| 0 <= j < first_max(keys) ==> #[trigger] keys[j] < keys[first_max(keys)],
    decreases keys.len(),
{
    if keys.len() > 1 {
        let front = keys.drop_last();
        lemma_first_max(front);
        assert forall|j: int| 0 <= j < keys.len() implies #[trigger] keys[j] <= keys[first_max(
            keys,
        )] by {
            if j < keys.len() - 1 {
                assert(front[j] == keys[j]);
            }
        }
        assert forall|j: int| 0 <= j < first_max(keys) implies #[trigger] keys[j] < keys[first_max(
            keys,
        )] by {
            assert(front[j] == keys[j]);
        }
    }
}

/// The keys of row `i` of a matrix of keys.
pub open spec fn row_keys(keys: Tensor2<u64>, i: int) -> Seq<u64> {
    Seq::new(keys.spec_shape().1 as nat, |j: int| keys.spec_at(i, j))
}

/// The column of the first maximum of each of the first `count` rows.
pub open spec fn row_classes(keys: Tensor2<u64>, count: nat) -> Seq<usize> {
    Seq::new(count, |i: int| first_max(row_keys(keys, i)) as usize)
}

/// The column of the first maximum of row `i` of a matrix of keys.
pub fn row_argmax(keys: &Tensor2<u64>, i: usize) -> (r: usize)
    requires
        i < keys.spec_shape().0,
        keys.spec_shape().1 > 0,
    ensures
        r == first_max(row_keys(*keys, i as int)),
        r < keys.spec_shape().1,
{
    let columns = keys.shape().1;
    let ghost row = row_keys(*keys, i as int);
    let mut best: usize = 0;
    let mut j: usize = 1;
    proof {
        assert(row.take(1).len() == 1);
    }
    while j < columns
        invariant
            i < keys.spec_shape().0,
            columns == keys.spec_shape().1,
            row == row_keys(*keys, i as int),
            1 <= j <= columns,
            best < j,
            best == first_max(row.take(j as int)),
        decreases columns - j,
    {
        proof {
            assert(row.take(j + 1).drop_last() =~= row.take(j as int));
            assert(row.take(j + 1).last() == keys.spec_at(i as int, j as int));
            assert(row.take(j as int)[best as int] == keys.spec_at(i as int, best as int));
        }
        if *keys.get(i, j) > *keys.get(i, best) {
            best = j;
        }
        j = j + 1;
    }
    proof {
        assert(row.take(j as int) =~= row);
    }
    best
}

} // verus!
