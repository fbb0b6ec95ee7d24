//! Max pooling over non-overlapping square tiles.
//!
//! The layer does not compare the values that it routes. For the forward
//! pass the caller hands in a key for each value, a number that is larger
//! exactly where the value is; for the backward pass it marks the places
//! that tie with the winner of their tile.

use crate::tensor::{fits3, lemma_fits3_product, nonzero, same_tensor, Tensor2, Tensor3};
use vstd::prelude::*;

verus! {

/// A pooling layer and the input of its most recent forward pass.
pub struct MaxPoolingLayer<T> {
    input: Option<Tensor3<T>>,
    kernel_size: usize,
}

/// Whether `patch` is the tile of side `size` that row `h`, column `w` of
/// the tiling cuts out of `x`.
pub open spec fn is_tile<T>(patch: Tensor3<T>, x: Tensor3<T>, size: int, h: int, w: int) -> bool {
    &&& patch.spec_shape() == (size as usize, size as usize, x.spec_shape().2)
    &&& forall|i: int, j: int, c: int|
        0 <= i < size && 0 <= j < size && 0 <= c < x.spec_shape().2 ==> #[trigger] patch.spec_at(
            i,
            j,
            c,
        ) == x.spec_at(h * size + i, w * size + j, c)
}

/// The patch that stands at row `h`, column `w` of a grid of patches with
/// `columns` columns, listed row by row.
pub open spec fn patch_at<T>(
    patches: Seq<(Tensor3<T>, usize, usize)>,
    columns: int,
    h: int,
    w: int,
) -> (Tensor3<T>, usize, usize) {
    patches[h * columns + w]
}

/// The key of a place of the tile whose first place is row `top`, column
/// `left`. A place is given as (row, column, channel) within the tile.
pub open spec fn tile_key(order: Tensor3<u64>, top: int, left: int, p: (int, int, int)) -> u64 {
    order.spec_at(top + p.0, left + p.1, p.2)
}

/// Whether `p` is a place of a tile of side `size` with `channels` channels.
pub open spec fn in_tile(p: (int, int, int), size: int, channels: int) -> bool {
    0 <= p.0 < size && 0 <= p.1 < size && 0 <= p.2 < channels
}

/// Whether place `a` comes before place `b` when the places are gone
/// through row by row, within a row column by column, and within a column
/// channel by channel.
pub open spec fn before(a: (int, int, int), b: (int, int, int)) -> bool {
    a.0 < b.0 || (a.0 == b.0 && (a.1 < b.1 || (a.1 == b.1 && a.2 < b.2)))
}

/// Whether `w` is the first of the places with the largest key among the
/// places of the tile that come before `end`.
pub open spec fn leads(
    order: Tensor3<u64>,
    top: int,
    left: int,
    size: int,
    w: (int, int, int),
    end: (int, int, int),
) -> bool {
    let channels = order.spec_shape().2 as int;
    &&& in_tile(w, size, channels)
    &&& before(w, end)
    &&& forall|p: (int, int, int)|
        in_tile(p, size, channels) && before(p, end) ==> #[trigger] tile_key(order, top, left, p)
            <= tile_key(order, top, left, w)
    &&& forall|p: (int, int, int)|
        in_tile(p, size, channels) && before(p, w) ==> #[trigger] tile_key(order, top, left, p)
            < tile_key(order, top, left, w)
}

/// Whether `w` is the winner of the tile: the first of the places with the
/// largest key, over all channels at once.
pub open spec fn wins(order: Tensor3<u64>, top: int, left: int, size: int, w: (int, int, int)) -> bool {
    leads(order, top, left, size, w, (size, 0, 0))
}

/// The winner of the tile whose first place is row `top`, column `left`.
pub open spec fn winner(order: Tensor3<u64>, top: int, left: int, size: int) -> (int, int, int) {
    choose|w: (int, int, int)| wins(order, top, left, size, w)
}

/// What the forward pass keeps of the tile in row `h`, column `w` of the
/// tiling in channel `c`: the value at the row and column of the tile's
/// winner.
pub open spec fn pooled<T>(x: Tensor3<T>, order: Tensor3<u64>, size: int, h: int, w: int, c: int) -> T {
    let place = winner(order, h * size, w * size, size);
    x.spec_at(h * size + place.0, w * size + place.1, c)
}

/// What the backward pass puts at row `i`, column `j`, channel `c`: the
/// gradient of the tile that holds the place, where the place lies in a
/// whole tile and is marked, and `zero` elsewhere.
pub open spec fn routed<T>(
    y: Tensor3<T>,
    ties: Tensor3<bool>,
    zero: T,
    size: int,
    i: int,
    j: int,
    c: int,
) -> T {
    if i / size < ties.spec_shape().0 as int / size && j / size < ties.spec_shape().1 as int / size
        && ties.spec_at(i, j, c) {
        y.spec_at(i / size, j / size, c)
    } else {
        zero
    }
}

/// Whether `end` is where going through the places of a tile can stand
/// after its first place: at a place of the tile, or right behind the last.
pub open spec fn stands(end: (int, int, int), size: int, channels: int) -> bool {
    &&& before((0, 0, 0), end)
    &&& in_tile(end, size, channels) || end == (size, 0int, 0int)
}

/// The place that is gone through right before `end`.
pub open spec fn place_before(end: (int, int, int), size: int, channels: int) -> (int, int, int) {
    if end.2 > 0 {
        (end.0, end.1, end.2 - 1)
    } else if end.1 > 0 {
        (end.0, end.1 - 1, channels - 1)
    } else {
        (end.0 - 1, size - 1, channels - 1)
    }
}

/// A tile has no more than one winner.
pub proof fn lemma_winner_unique(
    order: Tensor3<u64>,
    top: int,
    left: int,
    size: int,
    a: (int, int, int),
    b: (int, int, int),
)
    requires
        wins(order, top, left, size, a),
        wins(order, top, left, size, b),
    ensures
        a == b,
{
    if a != b {
        if before(a, b) {
            assert(tile_key(order, top, left, a) < tile_key(order, top, left, b));
            assert(tile_key(order, top, left, b) <= tile_key(order, top, left, a));
        } else {
            assert(before(b, a));
            assert(tile_key(order, top, left, b) < tile_key(order, top, left, a));
            assert(tile_key(order, top, left, a) <= tile_key(order, top, left, b));
        }
    }
}

/// Among the places of a tile that come before `end` there is a first
/// place with the largest key.
pub proof fn lemma_leader_exists(
    order: Tensor3<u64>,
    top: int,
    left: int,
    size: int,
    end: (int, int, int),
)
    requires
        size > 0,
        order.spec_shape().2 > 0,
        stands(end, size, order.spec_shape().2 as int),
    ensures
        exists|w: (int, int, int)| leads(order, top, left, size, w, end),
    decreases end.0, end.1, end.2,
{
    let channels = order.spec_shape().2 as int;
    let last = place_before(end, size, channels);
    assert(in_tile(last, size, channels));
    if last == (0int, 0int, 0int) {
        assert forall|p: (int, int, int)| in_tile(p, size, channels) && before(p, end) implies p
            == last by {}
        assert(leads(order, top, left, size, last, end));
    } else {
        lemma_leader_exists(order, top, left, size, last);
        let w = choose|w: (int, int, int)| leads(order, top, left, size, w, last);
        assert forall|p: (int, int, int)|
            in_tile(p, size, channels) && before(p, end) && p != last implies before(p, last) by {}
        if tile_key(order, top, left, last) > tile_key(order, top, left, w) {
            assert forall|p: (int, int, int)|
                in_tile(p, size, channels) && before(p, end) implies #[trigger] tile_key(
                order,
                top,
                left,
                p,
            ) <= tile_key(order, top, left, last) by {
                if p != last {
                    assert(before(p, last));
                }
            }
            assert(leads(order, top, left, size, last, end));
        } else {
            assert forall|p: (int, int, int)|
                in_tile(p, size, channels) && before(p, end) implies #[trigger] tile_key(
                order,
                top,
                left,
                p,
            ) <= tile_key(order, top, left, w) by {
                if p != last {
                    assert(before(p, last));
                }
            }
            assert(leads(order, top, left, size, w, end));
        }
    }
}

/// Every tile with a place has a winner, and no key of the tile is larger
/// than the winner's.
pub proof fn lemma_winner_is_largest(
    order: Tensor3<u64>,
    top: int,
    left: int,
    size: int,
    p: (int, int, int),
)
    requires
        size > 0,
        in_tile(p, size, order.spec_shape().2 as int),
    ensures
        wins(order, top, left, size, winner(order, top, left, size)),
        tile_key(order, top, left, p) <= tile_key(
            order,
            top,
            left,
            winner(order, top, left, size),
        ),
{
    lemma_leader_exists(order, top, left, size, (size, 0, 0));
    let w = choose|w: (int, int, int)| leads(order, top, left, size, w, (size, 0, 0));
    assert(wins(order, top, left, size, w));
    assert(wins(order, top, left, size, winner(order, top, left, size)));
    assert(before(p, (size, 0int, 0int)));
}

/// In the channel of a tile's winner the forward pass keeps the largest
/// of the tile: pooling the keys themselves gives there a key that no key
/// of the tile exceeds, whatever its channel. In another channel the kept
/// value is that of the winner's row and column, which need not be the
/// largest of that channel.
pub proof fn lemma_pooled_is_largest(order: Tensor3<u64>, size: int, h: int, w: int, p: (int, int, int))
    requires
        size > 0,
        in_tile(p, size, order.spec_shape().2 as int),
    ensures
        tile_key(order, h * size, w * size, p) <= pooled(
            order,
            order,
            size,
            h,
            w,
            winner(order, h * size, w * size, size).2,
        ),
{
    lemma_winner_is_largest(order, h * size, w * size, size, p);
}

/// A tile is not larger than the tensor it tiles.
proof fn lemma_tiles_fit(height: nat, width: nat, channels: nat, size: nat)
    requires
        fits3(height, width, channels),
        size > 0,
    ensures
        fits3(height / size, width / size, channels),
        (height / size) * size <= height,
        (width / size) * size <= width,
        height / size > 0 ==> size <= height,
        width / size > 0 ==> size <= width,
{
    assert((height / size) * size <= height) by (nonlinear_arith)
        requires
            size > 0,
    ;
    assert((width / size) * size <= width) by (nonlinear_arith)
        requires
            size > 0,
    ;
    assert(height / size <= height) by (nonlinear_arith)
        requires
            size > 0,
    ;
    assert(width / size <= width) by (nonlinear_arith)
        requires
            size > 0,
    ;
    assert(height / size > 0 ==> size <= height) by (nonlinear_arith)
        requires
            size > 0,
    ;
    assert(width / size > 0 ==> size <= width) by (nonlinear_arith)
        requires
            size > 0,
    ;
    let (a, b, c) = (nonzero(height / size), nonzero(width / size), nonzero(channels));
    let (h, w) = (nonzero(height), nonzero(width));
    assert(a * b <= h * w) by (nonlinear_arith)
        requires
            a <= h,
            b <= w,
    ;
    assert(a * b * c <= h * w * c) by (nonlinear_arith)
        requires
            a * b <= h * w,
    ;
}

/// The tile at row `h`, column `w` of a tiling lies within the tensor.
proof fn lemma_tile_inside(extent: nat, size: nat, h: nat, i: nat)
    requires
        size > 0,
        h < extent / size,
        i < size,
    ensures
        h * size + i < (extent / size) * size,
        h * size + size <= (extent / size) * size,
        (extent / size) * size <= extent,
        (h * size + i) / size == h,
{
    assert(h * size + size <= (extent / size) * size) by (nonlinear_arith)
        requires
            h + 1 <= extent / size,
    ;
    assert((extent / size) * size <= extent) by (nonlinear_arith)
        requires
            size > 0,
    ;
    assert((h * size + i) / size == h) by (nonlinear_arith)
        requires
            size > 0,
            i < size,
    ;
}

impl<T> MaxPoolingLayer<T> {
    /// The side of a tile.
    pub closed spec fn spec_kernel_size(&self) -> usize {
        self.kernel_size
    }

    /// The input of the most recent forward pass.
    pub closed spec fn spec_input(&self) -> Option<Tensor3<T>> {
        self.input
    }

    /// A layer that has seen no input yet.
    pub fn build(kernel_size: usize) -> (r: Self)
        ensures
            r.spec_kernel_size() == kernel_size,
            r.spec_input() is None,
    {
        MaxPoolingLayer { input: None, kernel_size }
    }

    /// The side of a tile.
    #[verifier::when_used_as_spec(spec_kernel_size)]
    pub fn kernel_size(&self) -> (k: usize)
        ensures
            k == self.spec_kernel_size(),
    {
        self.kernel_size
    }

    /// The input of the most recent forward pass.
    pub fn input(&self) -> (r: Option<&Tensor3<T>>)
        ensures
            match r {
                Some(x) => self.spec_input() == Some(*x),
                None => self.spec_input() is None,
            },
    {
        self.input.as_ref()
    }
}

/// Goes through the places of a tile and keeps the first of the largest key.
fn find_winner(order: &Tensor3<u64>, top: usize, left: usize, size: usize) -> (w: (
    usize,
    usize,
    usize,
))
    requires
        size > 0,
        order.spec_shape().2 > 0,
        top + size <= order.spec_shape().0,
        left + size <= order.spec_shape().1,
    ensures
        (w.0 as int, w.1 as int, w.2 as int) == winner(*order, top as int, left as int, size as int),
        w.0 < size,
        w.1 < size,
        w.2 < order.spec_shape().2,
{
    let channels = order.shape().2;
    let mut best: (usize, usize, usize) = (0, 0, 0);
    let mut best_key: u64 = *order.get(top, left, 0);
    let mut i: usize = 0;
    let mut j: usize = 0;
    let mut c: usize = 0;
    while i < size
        invariant
            size > 0,
            channels == order.spec_shape().2,
            channels > 0,
            top + size <= order.spec_shape().0,
            left + size <= order.spec_shape().1,
            i <= size,
            j < size,
            c < channels,
            i == size ==> j == 0 && c == 0,
            in_tile((best.0 as int, best.1 as int, best.2 as int), size as int, channels as int),
            best_key == tile_key(
                *order,
                top as int,
                left as int,
                (best.0 as int, best.1 as int, best.2 as int),
            ),
            ((i, j, c) == (0usize, 0usize, 0usize) && best == (0usize, 0usize, 0usize)) || leads(
                *order,
                top as int,
                left as int,
                size as int,
                (best.0 as int, best.1 as int, best.2 as int),
                (i as int, j as int, c as int),
            ),
        decreases size - i, size - j, channels - c,
    {
        let ghost here = (i as int, j as int, c as int);
        let ghost old_best = (best.0 as int, best.1 as int, best.2 as int);
        let ghost started = !((i, j, c) == (0usize, 0usize, 0usize));
        let key = *order.get(top + i, left + j, c);
        assert(key == tile_key(*order, top as int, left as int, here));
        if key > best_key {
            best = (i, j, c);
            best_key = key;
        }
        if c + 1 < channels {
            c = c + 1;
        } else if j + 1 < size {
            c = 0;
            j = j + 1;
        } else {
            c = 0;
            j = 0;
            i = i + 1;
        }
        proof {
            let new_best = (best.0 as int, best.1 as int, best.2 as int);
            let end = (i as int, j as int, c as int);
            assert(before(here, end));
            assert forall|p: (int, int, int)|
                in_tile(p, size as int, channels as int) && before(p, end) implies #[trigger] tile_key(
                *order,
                top as int,
                left as int,
                p,
            ) <= tile_key(*order, top as int, left as int, new_best) by {
                if p != here {
                    assert(before(p, here));
                    assert(started);
                }
            }
            assert forall|p: (int, int, int)|
                in_tile(p, size as int, channels as int) && before(p, new_best) implies #[trigger] tile_key(
                *order,
                top as int,
                left as int,
                p,
            ) < tile_key(*order, top as int, left as int, new_best) by {
                if new_best == here {
                    assert(started);
                }
            }
        }
    }
    proof {
        let w = (best.0 as int, best.1 as int, best.2 as int);
        assert(wins(*order, top as int, left as int, size as int, w));
        lemma_winner_unique(
            *order,
            top as int,
            left as int,
            size as int,
            w,
            winner(*order, top as int, left as int, size as int),
        );
    }
    best
}

impl<T: Copy> MaxPoolingLayer<T> {
    /// Remembers `x` and cuts it into tiles, row by row, each with its row
    /// and column in the tiling. Rows and columns that fill no whole tile
    /// are left out.
    pub fn image_to_patches(&mut self, x: &Tensor3<T>) -> (patches: Vec<(Tensor3<T>, usize, usize)>)
        requires
            old(self).spec_kernel_size() > 0,
        ensures
            final(self).spec_kernel_size() == old(self).spec_kernel_size(),
            final(self).spec_input() matches Some(s) && same_tensor(s, *x),
            patches@.len() == (x.spec_shape().0 / old(self).spec_kernel_size()) * (x.spec_shape().1
                / old(self).spec_kernel_size()),
            forall|h: int, w: int|
                0 <= h < x.spec_shape().0 / old(self).spec_kernel_size() && 0 <= w
                    < x.spec_shape().1 / old(self).spec_kernel_size() ==> {
                    let p = #[trigger] patch_at(
                        patches@,
                        (x.spec_shape().1 / old(self).spec_kernel_size()) as int,
                        h,
                        w,
                    );
                    p.1 == h && p.2 == w && is_tile(
                        p.0,
                        *x,
                        old(self).spec_kernel_size() as int,
                        h,
                        w,
                    )
                },
    {
        let size = self.kernel_size;
        let (height, width, channels) = x.shape();
        let rows = height / size;
        let columns = width / size;
        proof {
            use_type_invariant(x);
            lemma_tiles_fit(height as nat, width as nat, channels as nat, size as nat);
            lemma_fits3_product((height / size) as nat, (width / size) as nat, channels as nat);
        }
        self.input = Some(x.clone());
        let cut = |h: usize, w: usize| -> (p: (Tensor3<T>, usize, usize))
            requires
                h < rows,
                w < columns,
            ensures
                p.1 == h,
                p.2 == w,
                is_tile(p.0, *x, size as int, h as int, w as int),
            {
                proof {
                    lemma_tile_inside(height as nat, size as nat, h as nat, 0);
                    lemma_tile_inside(width as nat, size as nat, w as nat, 0);
                }
                let patch = x.window(h * size, w * size, size, size);
                (patch, h, w)
            };
        let grid = Tensor2::from_shape_fn((rows, columns), cut);
        let patches = grid.into_raw_vec();
        proof {
            assert forall|h: int, w: int| 0 <= h < rows && 0 <= w < columns implies {
                let p = #[trigger] patch_at(patches@, columns as int, h, w);
                p.1 == h && p.2 == w && is_tile(p.0, *x, size as int, h, w)
            } by {
                assert(grid.spec_at(h as usize as int, w as usize as int) == patch_at(
                    patches@,
                    columns as int,
                    h,
                    w,
                ));
            }
        }
        patches
    }

    /// Remembers `x` and keeps, of every tile, the values at the row and
    /// column of the tile's winner, one value per channel. `order` holds
    /// the key of each value of `x`; the winner of a tile is the first of
    /// the places with the largest key, over all channels at once.
    pub fn forward_propagation(&mut self, x: &Tensor3<T>, order: &Tensor3<u64>) -> (out: Tensor3<T>)
        requires
            old(self).spec_kernel_size() > 0,
            order.spec_shape() == x.spec_shape(),
            x.spec_shape().2 > 0 || x.spec_shape().0 / old(self).spec_kernel_size() == 0
                || x.spec_shape().1 / old(self).spec_kernel_size() == 0,
        ensures
            final(self).spec_kernel_size() == old(self).spec_kernel_size(),
            final(self).spec_input() matches Some(s) && same_tensor(s, *x),
            out.spec_shape() == (
                (x.spec_shape().0 / old(self).spec_kernel_size()) as usize,
                (x.spec_shape().1 / old(self).spec_kernel_size()) as usize,
                x.spec_shape().2,
            ),
            out.wf(),
            forall|h: int, w: int, c: int|
                0 <= h < out.spec_shape().0 && 0 <= w < out.spec_shape().1 && 0 <= c
                    < out.spec_shape().2 ==> #[trigger] out.spec_at(h, w, c) == pooled(
                    *x,
                    *order,
                    old(self).spec_kernel_size() as int,
                    h,
                    w,
                    c,
                ),
    {
        let size = self.kernel_size;
        let (height, width, channels) = x.shape();
        let rows = height / size;
        let columns = width / size;
        proof {
            use_type_invariant(x);
            lemma_tiles_fit(height as nat, width as nat, channels as nat, size as nat);
            lemma_fits3_product(rows as nat, columns as nat, channels as nat);
        }
        self.input = Some(x.clone());
        let find = |h: usize, w: usize| -> (p: (usize, usize, usize))
            requires
                h < rows,
                w < columns,
            ensures
                (p.0 as int, p.1 as int, p.2 as int) == winner(
                    *order,
                    h * size,
                    w * size,
                    size as int,
                ),
                p.0 < size,
                p.1 < size,
            {
                proof {
                    lemma_tile_inside(height as nat, size as nat, h as nat, 0);
                    lemma_tile_inside(width as nat, size as nat, w as nat, 0);
                }
                let p = find_winner(order, h * size, w * size, size);
                p
            };
        let winners = Tensor2::from_shape_fn((rows, columns), find);
        let pick = |h: usize, w: usize, c: usize| -> (v: T)
            requires
                h < rows,
                w < columns,
                c < channels,
            ensures
                v == pooled(*x, *order, size as int, h as int, w as int, c as int),
            {
                let place = *winners.get(h, w);
                proof {
                    assert(call_ensures(find, (h, w), winners.spec_at(h as int, w as int)));
                    lemma_tile_inside(height as nat, size as nat, h as nat, place.0 as nat);
                    lemma_tile_inside(width as nat, size as nat, w as nat, place.1 as nat);
                }
                let v = *x.get(h * size + place.0, w * size + place.1, c);
                v
            };
        let out = Tensor3::from_shape_fn((rows, columns, channels), pick);
        proof {
            assert forall|h: int, w: int, c: int|
                0 <= h < rows && 0 <= w < columns && 0 <= c < channels implies #[trigger] out.spec_at(
                h,
                w,
                c,
            ) == pooled(*x, *order, size as int, h, w, c) by {
                assert(out.spec_at(h as usize as int, w as usize as int, c as usize as int)
                    == out.spec_at(h, w, c));
            }
        }
        out
    }

    /// Sends the gradient of every tile back to the places of the tile that
    /// `ties` marks, channel by channel, and `zero` to every other place.
    /// `ties` has the shape of the remembered input and marks the places
    /// whose value ties with that of the tile's winner in the same channel.
    /// `y` holds the gradient of the tile in row `h`, column `w` of the
    /// tiling at row `h`, column `w`; what it holds beyond the tiling is
    /// not looked at.
    pub fn backward_propagation(&self, y: &Tensor3<T>, ties: &Tensor3<bool>, zero: T) -> (out:
        Tensor3<T>)
        requires
            self.spec_kernel_size() > 0,
            self.spec_input() is Some,
            ties.spec_shape() == self.spec_input().unwrap().spec_shape(),
            y.spec_shape().0 >= ties.spec_shape().0 / self.spec_kernel_size(),
            y.spec_shape().1 >= ties.spec_shape().1 / self.spec_kernel_size(),
            y.spec_shape().2 >= ties.spec_shape().2,
        ensures
            out.spec_shape() == ties.spec_shape(),
            out.wf(),
            forall|i: int, j: int, c: int|
                0 <= i < out.spec_shape().0 && 0 <= j < out.spec_shape().1 && 0 <= c
                    < out.spec_shape().2 ==> #[trigger] out.spec_at(i, j, c) == routed(
                    *y,
                    *ties,
                    zero,
                    self.spec_kernel_size() as int,
                    i,
                    j,
                    c,
                ),
    {
        let size = self.kernel_size;
        let (height, width, channels) = ties.shape();
        let rows = height / size;
        let columns = width / size;
        proof {
            use_type_invariant(ties);
        }
        let route = |i: usize, j: usize, c: usize| -> (v: T)
            requires
                i < height,
                j < width,
                c < channels,
            ensures
                v == routed(*y, *ties, zero, size as int, i as int, j as int, c as int),
            {
                let h = i / size;
                let w = j / size;
                let v = if h < rows && w < columns && *ties.get(i, j, c) {
                    *y.get(h, w, c)
                } else {
                    zero
                };
                v
            };
        let out = Tensor3::from_shape_fn((height, width, channels), route);
        proof {
            assert forall|i: int, j: int, c: int|
                0 <= i < height && 0 <= j < width && 0 <= c < channels implies #[trigger] out.spec_at(
                i,
                j,
                c,
            ) == routed(*y, *ties, zero, size as int, i, j, c) by {
                assert(out.spec_at(i as usize as int, j as usize as int, c as usize as int)
                    == out.spec_at(i, j, c));
            }
        }
        out
    }
}

} // verus!
