//! Dense row-major tensors of rank 2 and rank 3 over an arbitrary scalar type.

use vstd::prelude::*;

verus! {

/// Why a shape cannot be laid over a buffer.
#[derive(Debug, Clone, Copy, PartialEq, Eq, Structural)]
pub enum ShapeError {
    /// The buffer holds more elements than the shape has places.
    IncompatibleShape,
    /// The buffer holds fewer elements than the shape has places.
    OutOfBounds,
    /// The product of the non-zero axis lengths exceeds `isize::MAX`.
    Overflow,
}

/// An axis length as it counts towards the overflow limit: empty axes count as one.
pub open spec fn nonzero(d: nat) -> nat {
    if d == 0 { 1 } else { d }
}

/// Whether a rank-2 shape stays within the addressable limit.
pub open spec fn fits2(rows: nat, cols: nat) -> bool {
    nonzero(rows) * nonzero(cols) <= isize::MAX
}

/// Whether a rank-3 shape stays within the addressable limit.
pub open spec fn fits3(height: nat, width: nat, channels: nat) -> bool {
    nonzero(height) * nonzero(width) * nonzero(channels) <= isize::MAX
}

/// The outcome of laying a rank-2 shape over a buffer of `len` elements.
pub open spec fn check2(rows: nat, cols: nat, len: nat) -> Result<(), ShapeError> {
    if !fits2(rows, cols) {
        Err(ShapeError::Overflow)
    } else if rows * cols > len {
        Err(ShapeError::OutOfBounds)
    } else if rows * cols < len {
        Err(ShapeError::IncompatibleShape)
    } else {
        Ok(())
    }
}

/// The outcome of laying a rank-3 shape over a buffer of `len` elements.
pub open spec fn check3(height: nat, width: nat, channels: nat, len: nat) -> Result<
    (),
    ShapeError,
> {
    if !fits3(height, width, channels) {
        Err(ShapeError::Overflow)
    } else if height * width * channels > len {
        Err(ShapeError::OutOfBounds)
    } else if height * width * channels < len {
        Err(ShapeError::IncompatibleShape)
    } else {
        Ok(())
    }
}

/// Row-major offset of element `(i, j)` in a matrix with `cols` columns.
pub open spec fn offset2(cols: nat, i: nat, j: nat) -> nat {
    i * cols + j
}

/// Row-major offset of element `(i, j, k)` in a tensor of `width` columns
/// and `channels` channels.
pub open spec fn offset3(width: nat, channels: nat, i: nat, j: nat, k: nat) -> nat {
    (i * width + j) * channels + k
}

/// A shape within the limit has no more places than the limit, and no
/// axis longer than it.
pub proof fn lemma_fits2_product(rows: nat, cols: nat)
    requires
        fits2(rows, cols),
    ensures
        rows * cols <= isize::MAX,
        rows <= isize::MAX,
        cols <= isize::MAX,
{
    assert(rows * cols <= nonzero(rows) * nonzero(cols)) by (nonlinear_arith)
        requires
            rows <= nonzero(rows),
            cols <= nonzero(cols),
    ;
    assert(rows <= nonzero(rows) * nonzero(cols)) by (nonlinear_arith)
        requires
            rows <= nonzero(rows),
            1 <= nonzero(cols),
    ;
    assert(cols <= nonzero(rows) * nonzero(cols)) by (nonlinear_arith)
        requires
            cols <= nonzero(cols),
            1 <= nonzero(rows),
    ;
}

/// A shape within the limit has no more places than the limit, and no
/// axis longer than it; so has the shape of its first two axes.
pub proof fn lemma_fits3_product(height: nat, width: nat, channels: nat)
    requires
        fits3(height, width, channels),
    ensures
        height * width * channels <= isize::MAX,
        height * width <= isize::MAX,
        fits2(height, width),
        height <= isize::MAX,
        width <= isize::MAX,
        channels <= isize::MAX,
{
    let h = nonzero(height);
    let w = nonzero(width);
    let c = nonzero(channels);
    assert(h * w <= h * w * c) by (nonlinear_arith)
        requires
            h >= 1,
            w >= 1,
            c >= 1,
    ;
    assert(c <= h * w * c) by (nonlinear_arith)
        requires
            h >= 1,
            w >= 1,
            c >= 1,
    ;
    assert(height * width <= h * w) by (nonlinear_arith)
        requires
            height <= h,
            width <= w,
    ;
    assert(height * width * channels <= h * w * c) by (nonlinear_arith)
        requires
            height <= h,
            width <= w,
            channels <= c,
    ;
    lemma_fits2_product(height, width);
}

/// The offset of a place of a matrix is below the number of its places.
pub proof fn lemma_offset2_bound(rows: nat, cols: nat, i: nat, j: nat)
    requires
        i < rows,
        j < cols,
    ensures
        offset2(cols, i, j) < rows * cols,
        i * cols <= rows * cols,
{
    assert(i * cols + cols <= rows * cols) by (nonlinear_arith)
        requires
            i + 1 <= rows,
    ;
}

/// The offset of a place of a tensor is below the number of its places.
pub proof fn lemma_offset3_bound(height: nat, width: nat, channels: nat, i: nat, j: nat, k: nat)
    requires
        i < height,
        j < width,
        k < channels,
    ensures
        offset3(width, channels, i, j, k) < height * width * channels,
        i * width + j < height * width,
{
    lemma_offset2_bound(height, width, i, j);
    lemma_offset2_bound(height * width, channels, i * width + j, k);
}

/// Two places with the same offset are the same place.
pub proof fn lemma_offset2_injective(cols: nat, i: nat, j: nat, i2: nat, j2: nat)
    requires
        j < cols,
        j2 < cols,
        offset2(cols, i, j) == offset2(cols, i2, j2),
    ensures
        i == i2,
        j == j2,
{
    assert(i == i2) by (nonlinear_arith)
        requires
            i * cols + j == i2 * cols + j2,
            j < cols,
            j2 < cols,
    ;
}

/// Two places with the same offset are the same place.
pub proof fn lemma_offset3_injective(
    width: nat,
    channels: nat,
    i: nat,
    j: nat,
    k: nat,
    i2: nat,
    j2: nat,
    k2: nat,
)
    requires
        j < width,
        j2 < width,
        k < channels,
        k2 < channels,
        offset3(width, channels, i, j, k) == offset3(width, channels, i2, j2, k2),
    ensures
        i == i2,
        j == j2,
        k == k2,
{
    lemma_offset2_injective(channels, i * width + j, k, i2 * width + j2, k2);
    lemma_offset2_injective(width, i, j, i2, j2);
}

/// A matrix stored row by row.
pub struct Tensor2<T> {
    rows: usize,
    cols: usize,
    data: Vec<T>,
}

impl<T> View for Tensor2<T> {
    type V = Seq<T>;

    /// The elements in row-major order.
    closed spec fn view(&self) -> Seq<T> {
        self.data@
    }
}

impl<T> Tensor2<T> {
    /// The pair (rows, columns).
    pub closed spec fn spec_shape(&self) -> (usize, usize) {
        (self.rows, self.cols)
    }

    /// Every tensor fits the addressable limit and holds exactly one element per place.
    #[verifier::type_invariant]
    pub open spec fn wf(&self) -> bool {
        &&& fits2(self.spec_shape().0 as nat, self.spec_shape().1 as nat)
        &&& self@.len() == self.spec_shape().0 * self.spec_shape().1
    }

    /// The element in row `i`, column `j`.
    pub open spec fn spec_at(&self, i: int, j: int) -> T {
        self@[i * self.spec_shape().1 + j]
    }

    /// Lays `shape` over `data`, which is kept as it is.
    pub fn from_shape_vec(shape: (usize, usize), data: Vec<T>) -> (r: Result<Self, ShapeError>)
        ensures
            match r {
                Ok(t) => check2(shape.0 as nat, shape.1 as nat, data@.len()) is Ok
                    && t.spec_shape() == shape && t@ == data@ && t.wf(),
                Err(e) => check2(shape.0 as nat, shape.1 as nat, data@.len()) == Err::<(), ShapeError>(e),
            },
    {
        let r: usize = if shape.0 == 0 { 1 } else { shape.0 };
        let c: usize = if shape.1 == 0 { 1 } else { shape.1 };
        let limit: usize = isize::MAX as usize;
        if r > limit / c {
            proof {
                assert(r as nat * c as nat > limit as nat) by (nonlinear_arith)
                    requires
                        r > limit / c,
                        c > 0,
                ;
            }
            return Err(ShapeError::Overflow);
        }
        proof {
            assert(r as nat * c as nat <= limit as nat) by (nonlinear_arith)
                requires
                    r <= limit / c,
                    c > 0,
            ;
            lemma_fits2_product(shape.0 as nat, shape.1 as nat);
        }
        let size: usize = shape.0 * shape.1;
        if size > data.len() {
            Err(ShapeError::OutOfBounds)
        } else if size < data.len() {
            Err(ShapeError::IncompatibleShape)
        } else {
            Ok(Tensor2 { rows: shape.0, cols: shape.1, data })
        }
    }

    /// The matrix without rows and columns.
    pub fn empty() -> (r: Self)
        ensures
            r.spec_shape() == (0usize, 0usize),
            r@.len() == 0,
            r.wf(),
    {
        Tensor2 { rows: 0, cols: 0, data: Vec::new() }
    }

    /// The pair (rows, columns).
    #[verifier::when_used_as_spec(spec_shape)]
    pub fn shape(&self) -> (s: (usize, usize))
        ensures
            s == self.spec_shape(),
    {
        (self.rows, self.cols)
    }

    /// The number of elements.
    pub fn len(&self) -> (n: usize)
        ensures
            n == self@.len(),
            n == self.spec_shape().0 * self.spec_shape().1,
    {
        proof {
            use_type_invariant(self);
        }
        self.data.len()
    }

    /// The element in row `i`, column `j`.
    pub fn get(&self, i: usize, j: usize) -> (r: &T)
        requires
            i < self.spec_shape().0,
            j < self.spec_shape().1,
        ensures
            *r == self.spec_at(i as int, j as int),
    {
        proof {
            use_type_invariant(self);
            lemma_offset2_bound(self.rows as nat, self.cols as nat, i as nat, j as nat);
        }
        &self.data[i * self.cols + j]
    }

    /// Gives up the buffer, in row-major order.
    pub fn into_raw_vec(self) -> (v: Vec<T>)
        ensures
            v@ == self@,
    {
        self.data
    }

    /// The matrix of the given shape whose element at each place is what
    /// `f` returns for that place. The places are visited in row-major order.
    pub fn from_shape_fn<F: Fn(usize, usize) -> T>(shape: (usize, usize), f: F) -> (r: Self)
        requires
            fits2(shape.0 as nat, shape.1 as nat),
            forall|i: usize, j: usize| i < shape.0 && j < shape.1 ==> call_requires(f, (i, j)),
        ensures
            r.spec_shape() == shape,
            r.wf(),
            forall|i: usize, j: usize|
                i < shape.0 && j < shape.1 ==> call_ensures(
                    f,
                    (i, j),
                    #[trigger] r.spec_at(i as int, j as int),
                ),
    {
        let (rows, cols) = shape;
        proof {
            lemma_fits2_product(rows as nat, cols as nat);
        }
        let total: usize = rows * cols;
        let mut data: Vec<T> = Vec::new();
        let mut i: usize = 0;
        let mut j: usize = 0;
        proof {
            assert(0 * cols + 0 == 0) by (nonlinear_arith);
            if cols == 0 {
                assert(rows * cols == 0) by (nonlinear_arith)
                    requires
                        cols == 0,
                ;
            }
        }
        while data.len() < total
            invariant
                total == rows * cols,
                forall|i: usize, j: usize| i < rows && j < cols ==> call_requires(f, (i, j)),
                data@.len() == offset2(cols as nat, i as nat, j as nat),
                data@.len() <= total,
                j < cols || total == 0,
                forall|a: usize, b: usize|
                    a < rows && b < cols && offset2(cols as nat, a as nat, b as nat) < data@.len()
                        ==> call_ensures(
                        f,
                        (a, b),
                        data@[#[trigger] offset2(cols as nat, a as nat, b as nat) as int],
                    ),
            decreases total - data.len(),
        {
            proof {
                if i >= rows {
                    assert(i * cols + j >= rows * cols) by (nonlinear_arith)
                        requires
                            i >= rows,
                            j >= 0,
                            cols >= 0,
                    ;
                }
            }
            let ghost before = data@;
            let value = f(i, j);
            data.push(value);
            proof {
                assert forall|a: usize, b: usize|
                    a < rows && b < cols && offset2(cols as nat, a as nat, b as nat)
                        < data@.len() implies call_ensures(
                    f,
                    (a, b),
                    data@[#[trigger] offset2(cols as nat, a as nat, b as nat) as int],
                ) by {
                    if offset2(cols as nat, a as nat, b as nat) == before.len() {
                        lemma_offset2_injective(cols as nat, a as nat, b as nat, i as nat, j as nat);
                    }
                }
            }
            if j + 1 < cols {
                j = j + 1;
            } else {
                proof {
                    assert((i + 1) * cols + 0 == i * cols + j + 1) by (nonlinear_arith)
                        requires
                            j + 1 == cols,
                    ;
                }
                j = 0;
                i = i + 1;
            }
        }
        let r = Tensor2 { rows, cols, data };
        proof {
            assert forall|a: usize, b: usize| a < rows && b < cols implies call_ensures(
                f,
                (a, b),
                #[trigger] r.spec_at(a as int, b as int),
            ) by {
                lemma_offset2_bound(rows as nat, cols as nat, a as nat, b as nat);
                assert(r.spec_at(a as int, b as int) == r@[offset2(
                    cols as nat,
                    a as nat,
                    b as nat,
                ) as int]);
            }
        }
        r
    }
}

/// A stack of feature maps stored row by row, the channels of a place side by side.
pub struct Tensor3<T> {
    height: usize,
    width: usize,
    channels: usize,
    data: Vec<T>,
}

impl<T> View for Tensor3<T> {
    type V = Seq<T>;

    /// The elements in row-major order.
    closed spec fn view(&self) -> Seq<T> {
        self.data@
    }
}

impl<T> Tensor3<T> {
    /// The triple (height, width, channels).
    pub closed spec fn spec_shape(&self) -> (usize, usize, usize) {
        (self.height, self.width, self.channels)
    }

    /// Every tensor fits the addressable limit and holds exactly one element per place.
    #[verifier::type_invariant]
    pub open spec fn wf(&self) -> bool {
        &&& fits3(
            self.spec_shape().0 as nat,
            self.spec_shape().1 as nat,
            self.spec_shape().2 as nat,
        )
        &&& self@.len() == self.spec_shape().0 * self.spec_shape().1 * self.spec_shape().2
    }

    /// The element in row `i`, column `j`, channel `k`.
    pub open spec fn spec_at(&self, i: int, j: int, k: int) -> T {
        self@[(i * self.spec_shape().1 + j) * self.spec_shape().2 + k]
    }

    /// Lays `shape` over `data`, which is kept as it is.
    pub fn from_shape_vec(shape: (usize, usize, usize), data: Vec<T>) -> (r: Result<
        Self,
        ShapeError,
    >)
        ensures
            match r {
                Ok(t) => check3(shape.0 as nat, shape.1 as nat, shape.2 as nat, data@.len()) is Ok
                    && t.spec_shape() == shape && t@ == data@ && t.wf(),
                Err(e) => check3(shape.0 as nat, shape.1 as nat, shape.2 as nat, data@.len())
                    == Err::<(), ShapeError>(e),
            },
    {
        let h: usize = if shape.0 == 0 { 1 } else { shape.0 };
        let w: usize = if shape.1 == 0 { 1 } else { shape.1 };
        let c: usize = if shape.2 == 0 { 1 } else { shape.2 };
        let limit: usize = isize::MAX as usize;
        if h > limit / w {
            proof {
                assert(h as nat * w as nat * c as nat > limit as nat) by (nonlinear_arith)
                    requires
                        h > limit / w,
                        w > 0,
                        c > 0,
                ;
            }
            return Err(ShapeError::Overflow);
        }
        proof {
            assert(h as nat * w as nat <= limit as nat) by (nonlinear_arith)
                requires
                    h <= limit / w,
                    w > 0,
            ;
        }
        let hw: usize = h * w;
        if hw > limit / c {
            proof {
                assert(hw as nat * c as nat > limit as nat) by (nonlinear_arith)
                    requires
                        hw > limit / c,
                        c > 0,
                ;
            }
            return Err(ShapeError::Overflow);
        }
        proof {
            assert(hw as nat * c as nat <= limit as nat) by (nonlinear_arith)
                requires
                    hw <= limit / c,
                    c > 0,
            ;
            lemma_fits3_product(shape.0 as nat, shape.1 as nat, shape.2 as nat);
        }
        let size: usize = shape.0 * shape.1 * shape.2;
        if size > data.len() {
            Err(ShapeError::OutOfBounds)
        } else if size < data.len() {
            Err(ShapeError::IncompatibleShape)
        } else {
            Ok(Tensor3 { height: shape.0, width: shape.1, channels: shape.2, data })
        }
    }

    /// The triple (height, width, channels).
    #[verifier::when_used_as_spec(spec_shape)]
    pub fn shape(&self) -> (s: (usize, usize, usize))
        ensures
            s == self.spec_shape(),
    {
        (self.height, self.width, self.channels)
    }

    /// The number of elements.
    pub fn len(&self) -> (n: usize)
        ensures
            n == self@.len(),
            n == self.spec_shape().0 * self.spec_shape().1 * self.spec_shape().2,
    {
        proof {
            use_type_invariant(self);
        }
        self.data.len()
    }

    /// The element in row `i`, column `j`, channel `k`.
    pub fn get(&self, i: usize, j: usize, k: usize) -> (r: &T)
        requires
            i < self.spec_shape().0,
            j < self.spec_shape().1,
            k < self.spec_shape().2,
        ensures
            *r == self.spec_at(i as int, j as int, k as int),
    {
        proof {
            use_type_invariant(self);
            lemma_fits3_product(self.height as nat, self.width as nat, self.channels as nat);
            lemma_offset3_bound(
                self.height as nat,
                self.width as nat,
                self.channels as nat,
                i as nat,
                j as nat,
                k as nat,
            );
        }
        &self.data[(i * self.width + j) * self.channels + k]
    }

    /// Gives up the buffer, in row-major order.
    pub fn into_raw_vec(self) -> (v: Vec<T>)
        ensures
            v@ == self@,
    {
        self.data
    }

    /// The elements as a single row, in row-major order.
    pub fn into_row(self) -> (r: Tensor2<T>)
        ensures
            r.spec_shape() == (1usize, self@.len() as usize),
            r@ == self@,
            r.wf(),
    {
        proof {
            use_type_invariant(&self);
            lemma_fits3_product(self.height as nat, self.width as nat, self.channels as nat);
        }
        let cols = self.data.len();
        proof {
            assert(nonzero(1) * nonzero(cols as nat) == nonzero(cols as nat)) by (nonlinear_arith)
                requires
                    nonzero(1) == 1,
            ;
            assert(1 * cols == cols) by (nonlinear_arith);
        }
        Tensor2 { rows: 1, cols, data: self.data }
    }

    /// The tensor of the given shape whose element at each place is what
    /// `f` returns for that place. The places are visited in row-major order.
    pub fn from_shape_fn<F: Fn(usize, usize, usize) -> T>(shape: (usize, usize, usize), f: F) -> (r:
        Self)
        requires
            fits3(shape.0 as nat, shape.1 as nat, shape.2 as nat),
            forall|i: usize, j: usize, k: usize|
                i < shape.0 && j < shape.1 && k < shape.2 ==> call_requires(f, (i, j, k)),
        ensures
            r.spec_shape() == shape,
            r.wf(),
            forall|i: usize, j: usize, k: usize|
                i < shape.0 && j < shape.1 && k < shape.2 ==> call_ensures(
                    f,
                    (i, j, k),
                    #[trigger] r.spec_at(i as int, j as int, k as int),
                ),
    {
        let (height, width, channels) = shape;
        proof {
            lemma_fits3_product(height as nat, width as nat, channels as nat);
        }
        let total: usize = height * width * channels;
        let mut data: Vec<T> = Vec::new();
        let mut i: usize = 0;
        let mut j: usize = 0;
        let mut k: usize = 0;
        proof {
            assert((0 * width + 0) * channels + 0 == 0) by (nonlinear_arith);
            if width == 0 || channels == 0 {
                assert(height * width * channels == 0) by (nonlinear_arith)
                    requires
                        width == 0 || channels == 0,
                ;
            }
        }
        while data.len() < total
            invariant
                total == height * width * channels,
                height * width <= isize::MAX,
                forall|i: usize, j: usize, k: usize|
                    i < height && j < width && k < channels ==> call_requires(f, (i, j, k)),
                data@.len() == offset3(width as nat, channels as nat, i as nat, j as nat, k as nat),
                data@.len() <= total,
                (j < width && k < channels) || total == 0,
                forall|a: usize, b: usize, c: usize|
                    a < height && b < width && c < channels && offset3(
                        width as nat,
                        channels as nat,
                        a as nat,
                        b as nat,
                        c as nat,
                    ) < data@.len() ==> call_ensures(
                        f,
                        (a, b, c),
                        data@[#[trigger] offset3(
                            width as nat,
                            channels as nat,
                            a as nat,
                            b as nat,
                            c as nat,
                        ) as int],
                    ),
            decreases total - data.len(),
        {
            proof {
                if i >= height {
                    assert((i * width + j) * channels + k >= height * width * channels)
                        by (nonlinear_arith)
                        requires
                            i >= height,
                            j >= 0,
                            k >= 0,
                            width >= 0,
                            channels >= 0,
                    ;
                }
            }
            let ghost before = data@;
            let value = f(i, j, k);
            data.push(value);
            proof {
                assert forall|a: usize, b: usize, c: usize|
                    a < height && b < width && c < channels && offset3(
                        width as nat,
                        channels as nat,
                        a as nat,
                        b as nat,
                        c as nat,
                    ) < data@.len() implies call_ensures(
                    f,
                    (a, b, c),
                    data@[#[trigger] offset3(
                        width as nat,
                        channels as nat,
                        a as nat,
                        b as nat,
                        c as nat,
                    ) as int],
                ) by {
                    if offset3(width as nat, channels as nat, a as nat, b as nat, c as nat)
                        == before.len() {
                        lemma_offset3_injective(
                            width as nat,
                            channels as nat,
                            a as nat,
                            b as nat,
                            c as nat,
                            i as nat,
                            j as nat,
                            k as nat,
                        );
                    }
                }
            }
            if k + 1 < channels {
                k = k + 1;
            } else if j + 1 < width {
                proof {
                    assert((i * width + (j + 1)) * channels + 0 == (i * width + j) * channels + k
                        + 1) by (nonlinear_arith)
                        requires
                            k + 1 == channels,
                    ;
                }
                k = 0;
                j = j + 1;
            } else {
                proof {
                    assert(((i + 1) * width + 0) * channels + 0 == (i * width + j) * channels + k
                        + 1) by (nonlinear_arith)
                        requires
                            k + 1 == channels,
                            j + 1 == width,
                    ;
                }
                k = 0;
                j = 0;
                i = i + 1;
            }
        }
        let r = Tensor3 { height, width, channels, data };
        proof {
            assert forall|a: usize, b: usize, c: usize|
                a < height && b < width && c < channels implies call_ensures(
                f,
                (a, b, c),
                #[trigger] r.spec_at(a as int, b as int, c as int),
            ) by {
                lemma_offset3_bound(
                    height as nat,
                    width as nat,
                    channels as nat,
                    a as nat,
                    b as nat,
                    c as nat,
                );
                assert(r.spec_at(a as int, b as int, c as int) == r@[offset3(
                    width as nat,
                    channels as nat,
                    a as nat,
                    b as nat,
                    c as nat,
                ) as int]);
            }
        }
        r
    }
}

/// Whether two matrices have the same shape and the same elements.
pub open spec fn same_matrix<T>(a: Tensor2<T>, b: Tensor2<T>) -> bool {
    a.spec_shape() == b.spec_shape() && a@ == b@
}

/// Whether two tensors have the same shape and the same elements.
pub open spec fn same_tensor<T>(a: Tensor3<T>, b: Tensor3<T>) -> bool {
    a.spec_shape() == b.spec_shape() && a@ == b@
}

/// A copy of a buffer.
fn copy_vec<T: Copy>(v: &Vec<T>) -> (r: Vec<T>)
    ensures
        r@ == v@,
{
    let mut r: Vec<T> = Vec::new();
    let mut n: usize = 0;
    while n < v.len()
        invariant
            n <= v.len(),
            r@ == v@.take(n as int),
        decreases v.len() - n,
    {
        r.push(v[n]);
        proof {
            assert(r@ =~= v@.take(n + 1));
        }
        n = n + 1;
    }
    proof {
        assert(v@.take(n as int) =~= v@);
    }
    r
}

impl<T: Copy> Clone for Tensor2<T> {
    fn clone(&self) -> (r: Self)
        ensures
            same_matrix(r, *self),
    {
        proof {
            use_type_invariant(self);
        }
        Tensor2 { rows: self.rows, cols: self.cols, data: copy_vec(&self.data) }
    }
}

impl<T: Copy> Clone for Tensor3<T> {
    fn clone(&self) -> (r: Self)
        ensures
            same_tensor(r, *self),
    {
        proof {
            use_type_invariant(self);
        }
        Tensor3 {
            height: self.height,
            width: self.width,
            channels: self.channels,
            data: copy_vec(&self.data),
        }
    }
}

/// Whether each of the matrices has a first row of `width` values.
pub open spec fn stackable<T>(width: usize, matrices: Seq<Tensor2<T>>) -> bool {
    forall|i: int|
        0 <= i < matrices.len() ==> (#[trigger] matrices[i]).spec_shape().0 >= 1
            && matrices[i].spec_shape().1 == width
}

impl<T: Copy> Tensor2<T> {
    /// A matrix with `value` in every place.
    pub fn filled(shape: (usize, usize), value: T) -> (r: Self)
        requires
            fits2(shape.0 as nat, shape.1 as nat),
        ensures
            r.spec_shape() == shape,
            r.wf(),
            forall|i: int, j: int|
                0 <= i < shape.0 && 0 <= j < shape.1 ==> #[trigger] r.spec_at(i, j) == value,
    {
        let fill = |i: usize, j: usize| -> (v: T)
            ensures
                v == value,
            {
                let v = value;
                v
            };
        let r = Tensor2::from_shape_fn(shape, fill);
        proof {
            assert forall|i: int, j: int| 0 <= i < shape.0 && 0 <= j < shape.1 implies #[trigger] r.spec_at(
                i,
                j,
            ) == value by {
                assert(r.spec_at(i as usize as int, j as usize as int) == r.spec_at(i, j));
            }
        }
        r
    }

    /// A copy of the block of `height` rows and `width` columns whose first
    /// element is that of row `top`, column `left`.
    pub fn window(&self, top: usize, left: usize, height: usize, width: usize) -> (r: Self)
        requires
            top + height <= self.spec_shape().0,
            left + width <= self.spec_shape().1,
        ensures
            r.spec_shape() == (height, width),
            r.wf(),
            forall|i: int, j: int|
                0 <= i < height && 0 <= j < width ==> #[trigger] r.spec_at(i, j) == self.spec_at(
                    top + i,
                    left + j,
                ),
    {
        proof {
            use_type_invariant(self);
            assert(nonzero(height as nat) * nonzero(width as nat) <= nonzero(self.rows as nat)
                * nonzero(self.cols as nat)) by (nonlinear_arith)
                requires
                    nonzero(height as nat) <= nonzero(self.rows as nat),
                    nonzero(width as nat) <= nonzero(self.cols as nat),
            ;
        }
        let copy = |i: usize, j: usize| -> (v: T)
            requires
                i < height,
                j < width,
            ensures
                v == self.spec_at(top + i, left + j),
            {
                let v = *self.get(top + i, left + j);
                v
            };
        let r = Tensor2::from_shape_fn((height, width), copy);
        proof {
            assert forall|i: int, j: int| 0 <= i < height && 0 <= j < width implies #[trigger] r.spec_at(
                i,
                j,
            ) == self.spec_at(top + i, left + j) by {
                assert(r.spec_at(i as usize as int, j as usize as int) == r.spec_at(i, j));
            }
        }
        r
    }

    /// The rows named by `indexes`, in that order: row `i` of the result is
    /// row `indexes[i]` of this matrix.
    pub fn select_rows(&self, indexes: &Vec<usize>) -> (r: Self)
        requires
            fits2(indexes@.len(), self.spec_shape().1 as nat),
            forall|i: int| 0 <= i < indexes@.len() ==> indexes@[i] < self.spec_shape().0,
        ensures
            r.spec_shape() == (indexes@.len() as usize, self.spec_shape().1),
            r.wf(),
            forall|i: int, j: int|
                0 <= i < indexes@.len() && 0 <= j < self.spec_shape().1 ==> #[trigger] r.spec_at(
                    i,
                    j,
                ) == self.spec_at(indexes@[i] as int, j),
    {
        let cols = self.cols;
        let count = indexes.len();
        let copy = |i: usize, j: usize| -> (v: T)
            requires
                i < count,
                j < cols,
            ensures
                v == self.spec_at(indexes@[i as int] as int, j as int),
            {
                let v = *self.get(indexes[i], j);
                v
            };
        let r = Tensor2::from_shape_fn((count, cols), copy);
        proof {
            assert forall|i: int, j: int|
                0 <= i < indexes@.len() && 0 <= j < self.spec_shape().1 implies #[trigger] r.spec_at(
                i,
                j,
            ) == self.spec_at(indexes@[i] as int, j) by {
                assert(r.spec_at(i as usize as int, j as usize as int) == r.spec_at(i, j));
            }
        }
        r
    }

    /// The first rows of the given matrices, one below the other. A matrix
    /// without a first row of `width` values is refused as incompatible.
    pub fn stack(width: usize, matrices: &Vec<Tensor2<T>>) -> (r: Result<Self, ShapeError>)
        ensures
            match r {
                Ok(t) => {
                    &&& stackable(width, matrices@)
                    &&& fits2(matrices@.len(), width as nat)
                    &&& t.spec_shape() == (matrices@.len() as usize, width)
                    &&& t.wf()
                    &&& forall|i: int, j: int|
                        0 <= i < matrices@.len() && 0 <= j < width ==> #[trigger] t.spec_at(i, j)
                            == matrices@[i].spec_at(0, j)
                },
                Err(e) => if stackable(width, matrices@) {
                    !fits2(matrices@.len(), width as nat) && e == ShapeError::Overflow
                } else {
                    e == ShapeError::IncompatibleShape
                },
            },
    {
        let count = matrices.len();
        let mut k: usize = 0;
        while k < count
            invariant
                count == matrices@.len(),
                k <= count,
                forall|i: int|
                    0 <= i < k ==> (#[trigger] matrices@[i]).spec_shape().0 >= 1
                        && matrices@[i].spec_shape().1 == width,
            decreases count - k,
        {
            let shape = matrices[k].shape();
            if shape.0 == 0 || shape.1 != width {
                return Err(ShapeError::IncompatibleShape);
            }
            k = k + 1;
        }
        let rows: usize = if count == 0 { 1 } else { count };
        let cols: usize = if width == 0 { 1 } else { width };
        let limit: usize = isize::MAX as usize;
        if rows > limit / cols {
            proof {
                assert(rows as nat * cols as nat > limit as nat) by (nonlinear_arith)
                    requires
                        rows > limit / cols,
                        cols > 0,
                ;
            }
            return Err(ShapeError::Overflow);
        }
        proof {
            assert(rows as nat * cols as nat <= limit as nat) by (nonlinear_arith)
                requires
                    rows <= limit / cols,
                    cols > 0,
            ;
        }
        let first = |i: usize, j: usize| -> (v: T)
            requires
                i < count,
                j < width,
            ensures
                v == matrices@[i as int].spec_at(0, j as int),
            {
                let v = *matrices[i].get(0, j);
                v
            };
        let t = Tensor2::from_shape_fn((count, width), first);
        proof {
            assert forall|i: int, j: int|
                0 <= i < matrices@.len() && 0 <= j < width implies #[trigger] t.spec_at(i, j)
                == matrices@[i].spec_at(0, j) by {
                assert(t.spec_at(i as usize as int, j as usize as int) == t.spec_at(i, j));
            }
        }
        Ok(t)
    }
}

impl<T: Copy> Tensor3<T> {
    /// A tensor with `value` in every place.
    pub fn filled(shape: (usize, usize, usize), value: T) -> (r: Self)
        requires
            fits3(shape.0 as nat, shape.1 as nat, shape.2 as nat),
        ensures
            r.spec_shape() == shape,
            r.wf(),
            forall|i: int, j: int, k: int|
                0 <= i < shape.0 && 0 <= j < shape.1 && 0 <= k < shape.2 ==> #[trigger] r.spec_at(
                    i,
                    j,
                    k,
                ) == value,
    {
        let fill = |i: usize, j: usize, k: usize| -> (v: T)
            ensures
                v == value,
            {
                let v = value;
                v
            };
        let r = Tensor3::from_shape_fn(shape, fill);
        proof {
            assert forall|i: int, j: int, k: int|
                0 <= i < shape.0 && 0 <= j < shape.1 && 0 <= k < shape.2 implies #[trigger] r.spec_at(
                i,
                j,
                k,
            ) == value by {
                assert(r.spec_at(i as usize as int, j as usize as int, k as usize as int)
                    == r.spec_at(i, j, k));
            }
        }
        r
    }

    /// A copy of the block of `height` rows and `width` columns, with every
    /// channel, whose first place is row `top`, column `left`.
    pub fn window(&self, top: usize, left: usize, height: usize, width: usize) -> (r: Self)
        requires
            top + height <= self.spec_shape().0,
            left + width <= self.spec_shape().1,
        ensures
            r.spec_shape() == (height, width, self.spec_shape().2),
            r.wf(),
            forall|i: int, j: int, k: int|
                0 <= i < height && 0 <= j < width && 0 <= k < self.spec_shape().2
                    ==> #[trigger] r.spec_at(i, j, k) == self.spec_at(top + i, left + j, k),
    {
        let channels = self.channels;
        proof {
            use_type_invariant(self);
            assert(nonzero(height as nat) * nonzero(width as nat) * nonzero(channels as nat)
                <= nonzero(self.height as nat) * nonzero(self.width as nat) * nonzero(
                channels as nat,
            )) by (nonlinear_arith)
                requires
                    nonzero(height as nat) <= nonzero(self.height as nat),
                    nonzero(width as nat) <= nonzero(self.width as nat),
            ;
        }
        let copy = |i: usize, j: usize, k: usize| -> (v: T)
            requires
                i < height,
                j < width,
                k < channels,
            ensures
                v == self.spec_at(top + i, left + j, k as int),
            {
                let v = *self.get(top + i, left + j, k);
                v
            };
        let r = Tensor3::from_shape_fn((height, width, channels), copy);
        proof {
            assert forall|i: int, j: int, k: int|
                0 <= i < height && 0 <= j < width && 0 <= k < self.spec_shape().2 implies #[trigger] r.spec_at(
                i,
                j,
                k,
            ) == self.spec_at(top + i, left + j, k) by {
                assert(r.spec_at(i as usize as int, j as usize as int, k as usize as int)
                    == r.spec_at(i, j, k));
            }
        }
        r
    }
}

} // verus!
