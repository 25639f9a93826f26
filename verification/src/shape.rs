//! The extents of an array.

use vstd::prelude::*;
use crate::error::Error;

verus! {

/// The product of the dimensions.
pub open spec fn product(dims: Seq<nat>) -> nat
    decreases dims.len(),
{
    if dims.len() == 0 {
        1
    } else {
        product(dims.drop_last()) * dims.last()
    }
}

/// A list of dimensions that a `Shape` can hold: one or two of them, none
/// zero.
pub open spec fn valid_dims(dims: Seq<nat>) -> bool {
    &&& 1 <= dims.len() <= 2
    &&& forall|i: int| 0 <= i < dims.len() ==> dims[i] > 0
}

/// A list of sizes as a list of numbers.
pub open spec fn as_dims(sizes: Seq<usize>) -> Seq<nat> {
    sizes.map_values(|d: usize| d as nat)
}

/// The extents of a one- or two-dimensional array, none of them zero.
#[derive(Debug, Clone, Copy, PartialEq, Eq)]
pub struct Shape {
    x: usize,
    /// `None` for a one-dimensional shape.
    y: Option<usize>,
}

impl Shape {
    /// The dimensions, outermost first.
    pub closed spec fn dims(&self) -> Seq<nat> {
        match self.y {
            None => seq![self.x as nat],
            Some(y) => seq![self.x as nat, y as nat],
        }
    }

    /// There are one or two dimensions, none of them zero.
    #[verifier::type_invariant]
    pub closed spec fn wf(&self) -> bool {
        &&& self.x > 0
        &&& self.y matches Some(y) ==> y > 0
    }

    /// The number of elements that an array of this shape holds.
    pub open spec fn count(&self) -> nat {
        product(self.dims())
    }

    /// The shape of a one-dimensional array of `shape` elements.
    pub fn with_1_dimension(shape: usize) -> (r: Result<Self, Error>)
        ensures
            shape == 0 ==> r == Err::<Self, Error>(Error::Shape),
            shape > 0 ==> r is Ok && r->Ok_0.dims() == seq![shape as nat],
    {
        if shape == 0 {
            Err(Error::Shape)
        } else {
            Ok(Shape { x: shape, y: None })
        }
    }

    /// The shape of an array of `shape.0` rows and `shape.1` columns.
    pub fn with_2_dimensions(shape: (usize, usize)) -> (r: Result<Self, Error>)
        ensures
            shape.0 == 0 || shape.1 == 0 ==> r == Err::<Self, Error>(Error::Shape),
            shape.0 > 0 && shape.1 > 0 ==> r is Ok && r->Ok_0.dims() == seq![
                shape.0 as nat,
                shape.1 as nat,
            ],
    {
        if shape.0 == 0 || shape.1 == 0 {
            Err(Error::Shape)
        } else {
            Ok(Shape { x: shape.0, y: Some(shape.1) })
        }
    }

    /// The shape with the dimensions `dims`, outermost first.
    pub fn new(dims: &[usize]) -> (r: Result<Self, Error>)
        ensures
            valid_dims(as_dims(dims@)) ==> r is Ok && r->Ok_0.dims() == as_dims(dims@),
            !valid_dims(as_dims(dims@)) ==> r == Err::<Self, Error>(Error::Shape),
    {
        let ghost given = as_dims(dims@);
        if dims.len() == 1 {
            let r = Self::with_1_dimension(dims[0]);
            proof {
                assert(given[0] == dims@[0] as nat);
            }
            r
        } else if dims.len() == 2 {
            let r = Self::with_2_dimensions((dims[0], dims[1]));
            proof {
                assert(given[0] == dims@[0] as nat);
                assert(given[1] == dims@[1] as nat);
            }
            r
        } else {
            Err(Error::Shape)
        }
    }

    /// The number of dimensions.
    pub fn ndim(&self) -> (n: usize)
        ensures
            n == self.dims().len(),
            1 <= n <= 2,
    {
        match self.y {
            None => 1,
            Some(_) => 2,
        }
    }

    /// The first dimension.
    pub fn x(&self) -> (x: usize)
        ensures
            x == self.dims()[0],
            x > 0,
    {
        proof {
            use_type_invariant(self);
        }
        self.x
    }

    /// The second dimension, where there is one.
    pub fn y(&self) -> (y: Option<usize>)
        ensures
            self.dims().len() == 1 <==> y is None,
            y matches Some(n) ==> n == self.dims()[1] && n > 0,
    {
        proof {
            use_type_invariant(self);
        }
        self.y
    }

    /// The number of elements that an array of this shape holds, where a
    /// `usize` holds that number.
    pub fn size(&self) -> (n: Option<usize>)
        ensures
            self.count() <= usize::MAX ==> n == Some(self.count() as usize),
            self.count() > usize::MAX ==> n is None,
    {
        proof {
            self.lemma_count();
        }
        match self.y {
            None => Some(self.x),
            Some(y) => self.x.checked_mul(y),
        }
    }

    /// The number of elements, for each number of dimensions.
    pub proof fn lemma_count(&self)
        ensures
            self.dims().len() == 1 ==> self.count() == self.dims()[0],
            self.dims().len() == 2 ==> self.count() == self.dims()[0] * self.dims()[1],
            1 <= self.dims().len() <= 2,
    {
        let d = self.dims();
        let front = d.drop_last();
        if d.len() == 2 {
            assert(product(front.drop_last()) == 1);
            assert(product(front) == 1 * front.last());
        } else {
            assert(product(front) == 1);
            assert(product(d) == 1 * d.last());
        }
    }
}

} // verus!
