//! A layer of square kernels that slide over a single-channel image.
//!
//! The layer keeps the kernels and the image of its most recent forward
//! pass, cuts the image into the patches that the kernels meet, and lays the
//! responses out as feature maps. Multiplying and summing is the caller's.

use crate::tensor::{
    check3, fits2, lemma_fits2_product, same_matrix, ShapeError, Tensor2, Tensor3,
};
use vstd::prelude::*;

verus! {

/// A convolution layer and the image of its most recent forward pass.
pub struct ConvLayer<T> {
    input: Option<Tensor2<T>>,
    kernel_size: usize,
    kernel_num: usize,
    kernels: Tensor3<T>,
}

/// Whether `patch` is the square of side `size` whose first element is that
/// of row `h`, column `w` of `x`.
pub open spec fn is_window<T>(patch: Tensor2<T>, x: Tensor2<T>, size: int, h: int, w: int) -> bool {
    &&& patch.spec_shape() == (size as usize, size as usize)
    &&& forall|i: int, j: int|
        0 <= i < size && 0 <= j < size ==> #[trigger] patch.spec_at(i, j) == x.spec_at(h + i, w + j)
}

/// The window that stands at row `h`, column `w` of a grid of windows with
/// `columns` columns, listed row by row.
pub open spec fn window_at<T>(
    patches: Seq<(Tensor2<T>, usize, usize)>,
    columns: int,
    h: int,
    w: int,
) -> (Tensor2<T>, usize, usize) {
    patches[h * columns + w]
}

/// The shape of the feature maps that kernels of side `size` make of an
/// image: nothing where the image is smaller than a kernel.
pub open spec fn conv_shape(input: (usize, usize), size: usize, kernels: usize) -> Option<
    (usize, usize, usize),
> {
    if size <= input.0 && size <= input.1 && input.0 - size + 1 <= usize::MAX && input.1 - size + 1
        <= usize::MAX {
        Some(((input.0 - size + 1) as usize, (input.1 - size + 1) as usize, kernels))
    } else {
        None
    }
}

impl<T> ConvLayer<T> {
    /// The side of a kernel.
    pub closed spec fn spec_kernel_size(&self) -> usize {
        self.kernel_size
    }

    /// The number of kernels.
    pub closed spec fn spec_kernel_num(&self) -> usize {
        self.kernel_num
    }

    /// The kernels, one after the other.
    pub closed spec fn spec_kernels(&self) -> Tensor3<T> {
        self.kernels
    }

    /// The image of the most recent forward pass.
    pub closed spec fn spec_input(&self) -> Option<Tensor2<T>> {
        self.input
    }

    /// The kernels are `kernel_num` squares of side `kernel_size`.
    #[verifier::type_invariant]
    pub open spec fn wf(&self) -> bool {
        self.spec_kernels().spec_shape() == (
            self.spec_kernel_num(),
            self.spec_kernel_size(),
            self.spec_kernel_size(),
        )
    }

    /// A layer of `kernel_num` kernels of side `kernel_size` with the given
    /// values, kernel by kernel and row by row, that has seen no image yet.
    pub fn build(kernel_size: usize, kernel_num: usize, kernels: Vec<T>) -> (r: Result<
        Self,
        ShapeError,
    >)
        ensures
            match r {
                Ok(layer) => {
                    &&& check3(
                        kernel_num as nat,
                        kernel_size as nat,
                        kernel_size as nat,
                        kernels@.len(),
                    ) is Ok
                    &&& layer.spec_kernel_size() == kernel_size
                    &&& layer.spec_kernel_num() == kernel_num
                    &&& layer.spec_kernels()@ == kernels@
                    &&& layer.spec_input() is None
                    &&& layer.wf()
                },
                Err(e) => check3(
                    kernel_num as nat,
                    kernel_size as nat,
                    kernel_size as nat,
                    kernels@.len(),
                ) == Err::<(), ShapeError>(e),
            },
    {
        match Tensor3::from_shape_vec((kernel_num, kernel_size, kernel_size), kernels) {
            Ok(kernels) => Ok(ConvLayer { input: None, kernel_size, kernel_num, kernels }),
            Err(e) => Err(e),
        }
    }

    /// The side of a kernel.
    #[verifier::when_used_as_spec(spec_kernel_size)]
    pub fn kernel_size(&self) -> (k: usize)
        ensures
            k == self.spec_kernel_size(),
    {
        self.kernel_size
    }

    /// The number of kernels.
    #[verifier::when_used_as_spec(spec_kernel_num)]
    pub fn kernel_num(&self) -> (n: usize)
        ensures
            n == self.spec_kernel_num(),
    {
        self.kernel_num
    }

    /// The kernels, one after the other.
    pub fn kernels(&self) -> (r: &Tensor3<T>)
        ensures
            *r == self.spec_kernels(),
            r.spec_shape() == (
                self.spec_kernel_num(),
                self.spec_kernel_size(),
                self.spec_kernel_size(),
            ),
    {
        proof {
            use_type_invariant(self);
        }
        &self.kernels
    }

    /// The image of the most recent forward pass.
    pub fn input(&self) -> (r: Option<&Tensor2<T>>)
        ensures
            match r {
                Some(x) => self.spec_input() == Some(*x),
                None => self.spec_input() is None,
            },
    {
        self.input.as_ref()
    }

    /// The shape of the feature maps that the layer makes of an image of
    /// the given shape: nothing where the image is smaller than a kernel.
    pub fn output_shape(&self, input: (usize, usize)) -> (r: Option<(usize, usize, usize)>)
        ensures
            r == conv_shape(input, self.spec_kernel_size(), self.spec_kernel_num()),
    {
        let size = self.kernel_size;
        if size > input.0 || size > input.1 {
            return None;
        }
        if (size == 0 && input.0 == usize::MAX) || (size == 0 && input.1 == usize::MAX) {
            return None;
        }
        Some((input.0 - size + 1, input.1 - size + 1, self.kernel_num))
    }

    /// Puts new values in place of the kernels. Kernels of another shape
    /// are refused, and the layer stays as it is.
    pub fn update_kernels(&mut self, kernels: Tensor3<T>) -> (r: Result<(), ShapeError>)
        ensures
            final(self).spec_kernel_size() == old(self).spec_kernel_size(),
            final(self).spec_kernel_num() == old(self).spec_kernel_num(),
            final(self).spec_input() == old(self).spec_input(),
            r is Ok <==> kernels.spec_shape() == old(self).spec_kernels().spec_shape(),
            r is Ok ==> final(self).spec_kernels() == kernels,
            r is Err ==> r == Err::<(), ShapeError>(ShapeError::IncompatibleShape)
                && final(self).spec_kernels() == old(self).spec_kernels(),
    {
        proof {
            use_type_invariant(&*self);
        }
        let (n, h, w) = kernels.shape();
        if n == self.kernel_num && h == self.kernel_size && w == self.kernel_size {
            self.kernels = kernels;
            Ok(())
        } else {
            Err(ShapeError::IncompatibleShape)
        }
    }
}


impl<T: Copy> ConvLayer<T> {
    /// Remembers `x` and cuts out of it every square of the kernels' side,
    /// row by row, each with the row and column of its first element.
    pub fn image_to_patches(&mut self, x: &Tensor2<T>) -> (patches: Vec<(Tensor2<T>, usize, usize)>)
        requires
            old(self).spec_kernel_size() <= x.spec_shape().0,
            old(self).spec_kernel_size() <= x.spec_shape().1,
            fits2(
                (x.spec_shape().0 - old(self).spec_kernel_size() + 1) as nat,
                (x.spec_shape().1 - old(self).spec_kernel_size() + 1) as nat,
            ),
        ensures
            final(self).spec_kernel_size() == old(self).spec_kernel_size(),
            final(self).spec_kernel_num() == old(self).spec_kernel_num(),
            final(self).spec_kernels() == old(self).spec_kernels(),
            final(self).spec_input() matches Some(s) && same_matrix(s, *x),
            patches@.len() == (x.spec_shape().0 - old(self).spec_kernel_size() + 1) * (
            x.spec_shape().1 - old(self).spec_kernel_size() + 1),
            forall|h: int, w: int|
                0 <= h <= x.spec_shape().0 - old(self).spec_kernel_size() && 0 <= w
                    <= x.spec_shape().1 - old(self).spec_kernel_size() ==> {
                    let p = #[trigger] window_at(
                        patches@,
                        x.spec_shape().1 - old(self).spec_kernel_size() + 1,
                        h,
                        w,
                    );
                    p.1 == h && p.2 == w && is_window(
                        p.0,
                        *x,
                        old(self).spec_kernel_size() as int,
                        h,
                        w,
                    )
                },
    {
        let size = self.kernel_size;
        let (height, width) = x.shape();
        proof {
            use_type_invariant(&*self);
            lemma_fits2_product((height - size + 1) as nat, (width - size + 1) as nat);
        }
        let rows = height - size + 1;
        let columns = width - size + 1;
        self.input = Some(x.clone());
        let cut = |h: usize, w: usize| -> (p: (Tensor2<T>, usize, usize))
            requires
                h < rows,
                w < columns,
            ensures
                p.1 == h,
                p.2 == w,
                is_window(p.0, *x, size as int, h as int, w as int),
            {
                let patch = x.window(h, w, size, size);
                (patch, h, w)
            };
        let grid = Tensor2::from_shape_fn((rows, columns), cut);
        let patches = grid.into_raw_vec();
        proof {
            assert forall|h: int, w: int| 0 <= h < rows && 0 <= w < columns implies {
                let p = #[trigger] window_at(patches@, columns as int, h, w);
                p.1 == h && p.2 == w && is_window(p.0, *x, size as int, h, w)
            } by {
                assert(grid.spec_at(h as usize as int, w as usize as int) == window_at(
                    patches@,
                    columns as int,
                    h,
                    w,
                ));
            }
        }
        patches
    }

    /// Remembers `x` and lays the shape of the feature maps over `sums`,
    /// the responses that the caller computed: for each patch of `x`, row
    /// by row, one response per kernel.
    pub fn forward_propagation(&mut self, x: &Tensor2<T>, sums: Vec<T>) -> (r: Result<
        Tensor3<T>,
        ShapeError,
    >)
        requires
            conv_shape(x.spec_shape(), old(self).spec_kernel_size(), old(self).spec_kernel_num())
                is Some,
        ensures
            final(self).spec_kernel_size() == old(self).spec_kernel_size(),
            final(self).spec_kernel_num() == old(self).spec_kernel_num(),
            final(self).spec_kernels() == old(self).spec_kernels(),
            final(self).spec_input() matches Some(s) && same_matrix(s, *x),
            match r {
                Ok(out) => {
                    &&& Some(out.spec_shape()) == conv_shape(
                        x.spec_shape(),
                        old(self).spec_kernel_size(),
                        old(self).spec_kernel_num(),
                    )
                    &&& out@ == sums@
                    &&& out.wf()
                },
                Err(e) => {
                    let shape = conv_shape(
                        x.spec_shape(),
                        old(self).spec_kernel_size(),
                        old(self).spec_kernel_num(),
                    ).unwrap();
                    check3(shape.0 as nat, shape.1 as nat, shape.2 as nat, sums@.len()) == Err::<
                        (),
                        ShapeError,
                    >(e)
                },
            },
    {
        proof {
            use_type_invariant(&*self);
        }
        let shape = self.output_shape(x.shape());
        self.input = Some(x.clone());
        Tensor3::from_shape_vec(shape.unwrap(), sums)
    }
}

} // verus!
