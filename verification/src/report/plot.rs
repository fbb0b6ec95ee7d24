//! What a plot of one curve needs besides the drawing: matching lengths, a
//! frame around the values, and the name of its file.

use crate::text::{decimal, format_decimal};
use vstd::prelude::*;

verus! {

/// Why a curve cannot be plotted.
#[derive(Debug, Clone, Copy, PartialEq, Eq, Structural)]
pub enum PlotError {
    /// There are not as many abscissas as ordinates.
    DifferentLengths { x: usize, y: usize },
    /// There is no point.
    Empty,
}

impl PlotError {
    /// The message of the error.
    pub open spec fn spec_message(&self) -> Seq<char> {
        match self {
            PlotError::DifferentLengths { x, y } => "vectors must have the same length: "@
                + decimal(*x as nat) + " != "@ + decimal(*y as nat),
            PlotError::Empty => "no point to plot"@,
        }
    }

    /// The message of the error.
    pub fn message(&self) -> (r: String)
        ensures
            r@ == self.spec_message(),
    {
        match self {
            PlotError::DifferentLengths { x, y } => {
                let mut r = String::from_str("vectors must have the same length: ");
                let left = format_decimal(*x as u64);
                r.append(left.as_str());
                r.append(" != ");
                let right = format_decimal(*y as u64);
                r.append(right.as_str());
                r
            },
            PlotError::Empty => String::from_str("no point to plot"),
        }
    }
}

/// The smallest of a non-empty list of values.
pub open spec fn lowest(values: Seq<i32>) -> i32
    decreases values.len(),
{
    if values.len() <= 1 {
        values[0]
    } else if values.last() < lowest(values.drop_last()) {
        values.last()
    } else {
        lowest(values.drop_last())
    }
}

/// The largest of a non-empty list of values.
pub open spec fn highest(values: Seq<i32>) -> i32
    decreases values.len(),
{
    if values.len() <= 1 {
        values[0]
    } else if values.last() > highest(values.drop_last()) {
        values.last()
    } else {
        highest(values.drop_last())
    }
}

/// The range of an axis: one below the smallest value to one above the largest.
pub open spec fn axis(values: Seq<i32>) -> (int, int) {
    (lowest(values) - 1, highest(values) + 1)
}

/// The ranges of the two axes of a plot.
#[derive(Debug, Clone, Copy, PartialEq, Eq, Structural)]
pub struct Frame {
    pub x_min: i64,
    pub x_max: i64,
    pub y_min: i64,
    pub y_max: i64,
}

/// What can be said of the points of a curve before it is drawn.
pub open spec fn frame_check(x: Seq<i32>, y: Seq<i32>) -> Result<(), PlotError> {
    if x.len() != y.len() {
        Err(PlotError::DifferentLengths { x: x.len() as usize, y: y.len() as usize })
    } else if x.len() == 0 {
        Err(PlotError::Empty)
    } else {
        Ok(())
    }
}

fn range(values: &Vec<i32>) -> (r: (i64, i64))
    requires
        values@.len() > 0,
    ensures
        (r.0 as int, r.1 as int) == axis(values@),
{
    let mut low: i32 = values[0];
    let mut high: i32 = values[0];
    let mut i: usize = 1;
    proof {
        assert(values@.take(1).len() == 1);
    }
    while i < values.len()
        invariant
            1 <= i <= values@.len(),
            low == lowest(values@.take(i as int)),
            high == highest(values@.take(i as int)),
        decreases values@.len() - i,
    {
        proof {
            assert(values@.take(i + 1).drop_last() =~= values@.take(i as int));
        }
        if values[i] < low {
            low = values[i];
        }
        if values[i] > high {
            high = values[i];
        }
        i = i + 1;
    }
    proof {
        assert(values@.take(i as int) =~= values@);
    }
    (low as i64 - 1, high as i64 + 1)
}

/// The frame of a curve through the points whose coordinates, cut to whole
/// numbers, are `x` and `y`.
pub fn frame(x: &Vec<i32>, y: &Vec<i32>) -> (r: Result<Frame, PlotError>)
    ensures
        match r {
            Ok(f) => {
                &&& frame_check(x@, y@) is Ok
                &&& (f.x_min as int, f.x_max as int) == axis(x@)
                &&& (f.y_min as int, f.y_max as int) == axis(y@)
            },
            Err(e) => frame_check(x@, y@) == Err::<(), PlotError>(e),
        },
{
    if x.len() != y.len() {
        return Err(PlotError::DifferentLengths { x: x.len(), y: y.len() });
    }
    if x.len() == 0 {
        return Err(PlotError::Empty);
    }
    let (x_min, x_max) = range(x);
    let (y_min, y_max) = range(y);
    Ok(Frame { x_min, x_max, y_min, y_max })
}

/// The name of the file of the plot with the given title.
pub fn file_name(title: &str) -> (r: String)
    ensures
        r@ == title@ + ".png"@,
{
    let mut r = String::from_str(title);
    r.append(".png");
    r
}

} // verus!
