//! Values together with the shape of the array that they fill.

use vstd::prelude::*;
use crate::config::Datatype;
use crate::data::Data;
use crate::error::Error;
use crate::grid::{
    grid_dim, grid_from_shape_vec, grid_words, line_from_vec, line_words, Grid, Line,
};
use crate::shape::Shape;

verus! {

/// Values and the shape of the array that they fill, row after row.
#[derive(Debug, PartialEq, Eq)]
pub struct Base {
    v: Data,
    shape: Shape,
}

impl Base {
    /// The bit patterns of the values, row after row.
    pub closed spec fn values(&self) -> Seq<u64> {
        self.v@
    }

    /// The width of the values.
    pub closed spec fn datatype(&self) -> Datatype {
        self.v.datatype()
    }

    /// The dimensions of the array, outermost first.
    pub closed spec fn dims(&self) -> Seq<nat> {
        self.shape.dims()
    }

    /// There are as many values as the shape asks for.
    #[verifier::type_invariant]
    pub closed spec fn wf(&self) -> bool {
        self.v@.len() == self.shape.count()
    }

    /// The array of shape `shape` that `v` fills.
    ///
    /// Fails where `v` does not hold as many values as the shape asks for.
    pub fn new(v: Data, shape: Shape) -> (r: Result<Self, Error>)
        ensures
            v@.len() == shape.count() ==> r is Ok && r->Ok_0.values() == v@
                && r->Ok_0.datatype() == v.datatype() && r->Ok_0.dims() == shape.dims(),
            v@.len() != shape.count() ==> r == Err::<Self, Error>(
                Error::ShapeMismatch { expected: shape.count() as u128, actual: v@.len() as usize },
            ),
    {
        let actual = v.len();
        let expected = Self::wide_size(&shape);
        if actual as u128 == expected {
            Ok(Base { v, shape })
        } else {
            Err(Error::ShapeMismatch { expected, actual })
        }
    }

    /// The number of elements of `shape`.
    fn wide_size(shape: &Shape) -> (n: u128)
        ensures
            n == shape.count(),
    {
        proof {
            shape.lemma_count();
        }
        let x = shape.x();
        match shape.y() {
            None => x as u128,
            Some(y) => {
                assert(x * y <= usize::MAX * usize::MAX) by (nonlinear_arith)
                    requires
                        x <= usize::MAX,
                        y <= usize::MAX,
                ;
                x as u128 * y as u128
            },
        }
    }

    /// The shape of the array.
    pub fn shape(&self) -> (shape: Shape)
        ensures
            shape.dims() == self.dims(),
            shape.count() == self.values().len(),
    {
        proof {
            use_type_invariant(self);
        }
        self.shape
    }

    /// The values, row after row.
    pub fn data(&self) -> (data: &Data)
        ensures
            data@ == self.values(),
            data.datatype() == self.datatype(),
    {
        &self.v
    }

    /// The one-dimensional array that holds the values.
    ///
    /// Fails where the shape has two dimensions.
    pub fn into_line(self) -> (r: Result<Line, Error>)
        ensures
            self.dims().len() == 1 ==> r is Ok && line_words(r->Ok_0) == self.values(),
            self.dims().len() != 1 ==> r == Err::<Line, Error>(
                Error::Dimensionality { requested: 1, actual: 2 },
            ),
    {
        if self.shape.ndim() == 1 {
            Ok(line_from_vec(self.v.into_words()))
        } else {
            Err(Error::Dimensionality { requested: 1, actual: 2 })
        }
    }

    /// The two-dimensional array that holds the values, row after row.
    ///
    /// Fails where the shape has one dimension.
    pub fn into_grid(self) -> (r: Result<Grid, Error>)
        ensures
            self.dims().len() == 2 ==> r is Ok && grid_words(r->Ok_0) == self.values() && grid_dim(
                r->Ok_0,
            ) == (self.dims()[0], self.dims()[1]),
            self.dims().len() != 2 ==> r == Err::<Grid, Error>(
                Error::Dimensionality { requested: 2, actual: 1 },
            ),
    {
        proof {
            use_type_invariant(&self);
            self.shape.lemma_count();
        }
        let rows = self.shape.x();
        match self.shape.y() {
            None => Err(Error::Dimensionality { requested: 2, actual: 1 }),
            Some(cols) => {
                let words = self.v.into_words();
                let actual = words.len();
                match grid_from_shape_vec(rows, cols, words) {
                    Ok(grid) => Ok(grid),
                    // Refused only where the words do not fill the shape, which these do.
                    Err(_) => Err(Error::ShapeMismatch { expected: actual as u128, actual }),
                }
            },
        }
    }
}

} // verus!
