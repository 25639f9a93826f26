//! Files of random values: what is asked for, and what is written.

use vstd::prelude::*;
use crate::base::Base;
use crate::codec::{encode_as, encoded};
use crate::config::Endianess;
use crate::data::Data;
use crate::error::Error;
use crate::shape::Shape;
use crate::word::{host_order, Order};

verus! {

/// How random values are drawn.
#[derive(Debug, Clone, Copy, PartialEq, Eq, Structural)]
pub enum DistributionSpec {
    /// Uniformly from `min` up to `max`, which is left out.
    Uniform { min: usize, max: usize },
    /// Normally around `mean`, with standard deviation `stddev`.
    Normal { mean: usize, stddev: usize },
}

impl DistributionSpec {
    /// The interval of a uniform distribution is not empty, and the standard
    /// deviation of a normal one is not zero.
    pub open spec fn valid(self) -> bool {
        match self {
            DistributionSpec::Uniform { min, max } => min < max,
            DistributionSpec::Normal { mean, stddev } => stddev > 0,
        }
    }

    /// Fails where the parameters describe no distribution.
    pub fn check(self) -> (r: Result<(), Error>)
        ensures
            self.valid() ==> r is Ok,
            !self.valid() ==> r == Err::<(), Error>(Error::Range),
    {
        let valid = match self {
            DistributionSpec::Uniform { min, max } => min < max,
            DistributionSpec::Normal { mean: _, stddev } => stddev > 0,
        };
        if valid {
            Ok(())
        } else {
            Err(Error::Range)
        }
    }
}

/// The number of values to draw for a file that holds an array of shape
/// `shape`, or why there is none: the shape has not two dimensions, the
/// parameters describe no distribution, or no `usize` holds the number.
pub open spec fn planned(distribution: DistributionSpec, shape: Shape) -> Result<nat, Error> {
    if shape.dims().len() != 2 {
        Err(Error::Shape)
    } else if !distribution.valid() {
        Err(Error::Range)
    } else if shape.count() > usize::MAX {
        Err(Error::Shape)
    } else {
        Ok(shape.count())
    }
}

/// The number of values to draw for a file that holds an array of shape
/// `shape`.
///
/// Fails where the shape has not two dimensions, where the parameters
/// describe no distribution, and where no `usize` holds the number.
pub fn sample_count(distribution: DistributionSpec, shape: Shape) -> (r: Result<usize, Error>)
    ensures
        match planned(distribution, shape) {
            Ok(n) => r == Ok::<usize, Error>(n as usize),
            Err(e) => r == Err::<usize, Error>(e),
        },
{
    if shape.ndim() != 2 {
        return Err(Error::Shape);
    }
    match distribution.check() {
        Ok(_) => match shape.size() {
            Some(n) => Ok(n),
            None => Err(Error::Shape),
        },
        Err(e) => Err(e),
    }
}

/// `r` is the contents of the file that holds `samples`, drawn as
/// `distribution` says, as an array of shape `shape`, written on a machine of
/// byte order `host`.
pub open spec fn generates(
    distribution: DistributionSpec,
    shape: Shape,
    samples: Data,
    endian: Endianess,
    host: Order,
    r: Result<Vec<u8>, Error>,
) -> bool {
    if shape.dims().len() != 2 {
        r == Err::<Vec<u8>, Error>(Error::Shape)
    } else if !distribution.valid() {
        r == Err::<Vec<u8>, Error>(Error::Range)
    } else if samples@.len() != shape.count() {
        r == Err::<Vec<u8>, Error>(
            Error::ShapeMismatch { expected: shape.count() as u128, actual: samples@.len() as usize },
        )
    } else {
        &&& r is Ok
        &&& r->Ok_0@ == encoded(samples@, samples.datatype().width(), endian.order_on(host))
        &&& r->Ok_0@.len() == shape.count() * samples.datatype().width()
    }
}

/// The contents of the file that holds `samples` as an array of shape
/// `shape`, as written on a machine of byte order `host`.
///
/// Fails where the shape has not two dimensions, where the parameters
/// describe no distribution, and where there are not as many samples as the
/// shape asks for.
pub fn generate_on(
    distribution: DistributionSpec,
    shape: Shape,
    samples: Data,
    endian: Endianess,
    host: Order,
) -> (r: Result<Vec<u8>, Error>)
    ensures
        generates(distribution, shape, samples, endian, host, r),
{
    if shape.ndim() != 2 {
        return Err(Error::Shape);
    }
    match distribution.check() {
        Ok(_) => {},
        Err(e) => {
            return Err(e);
        },
    }
    match Base::new(samples, shape) {
        Ok(base) => Ok(encode_as(base.data(), endian.resolve_on(host))),
        Err(e) => Err(e),
    }
}

/// The contents of the file that holds `samples` as an array of shape
/// `shape`.
///
/// Fails where the shape has not two dimensions, where the parameters
/// describe no distribution, and where there are not as many samples as the
/// shape asks for.
pub fn generate(
    distribution: DistributionSpec,
    shape: Shape,
    samples: Data,
    endian: Endianess,
) -> (r: Result<Vec<u8>, Error>)
    ensures
        generates(distribution, shape, samples, endian, Order::Little, r) || generates(
            distribution,
            shape,
            samples,
            endian,
            Order::Big,
            r,
        ),
{
    generate_on(distribution, shape, samples, endian, host_order())
}

} // verus!
