//! What is read from a file, and how.

use vstd::prelude::*;
use crate::base::Base;
use crate::codec::{decode_as, decoded, encoded, lemma_encoded_len, lemma_round_trip};
use crate::data::{words_fit, Data};
use crate::error::Error;
use crate::shape::Shape;
use crate::word::{host_order, Order};

verus! {

/// How many bytes are read from the start of a file.
#[derive(Debug, Clone, Copy, PartialEq, Eq, Structural)]
pub enum Nbytes {
    /// All of them.
    Whole,
    /// This many, or all of them where the file is shorter.
    Bytes(usize),
}

impl Nbytes {
    /// The number of bytes read from a file of `filesize` bytes.
    pub open spec fn resolved(self, filesize: nat) -> nat {
        match self {
            Nbytes::Whole => filesize,
            Nbytes::Bytes(n) => if n <= filesize {
                n as nat
            } else {
                filesize
            },
        }
    }

    /// The number of bytes read from a file of `filesize` bytes.
    pub fn resolve(self, filesize: usize) -> (n: usize)
        ensures
            n == self.resolved(filesize as nat),
            n <= filesize,
    {
        match self {
            Nbytes::Whole => filesize,
            Nbytes::Bytes(n) => if n <= filesize {
                n
            } else {
                filesize
            },
        }
    }
}

/// The byte order of the values in a file.
#[derive(Debug, Clone, Copy, PartialEq, Eq, Structural)]
pub enum Endianess {
    /// Most significant byte first.
    Big,
    /// Least significant byte first.
    Little,
    /// The order of the machine that reads or writes the file.
    Native,
}

impl Endianess {
    /// The order that this stands for on a machine of byte order `host`.
    pub open spec fn order_on(self, host: Order) -> Order {
        match self {
            Endianess::Big => Order::Big,
            Endianess::Little => Order::Little,
            Endianess::Native => host,
        }
    }

    /// The order that this stands for on a machine of byte order `host`.
    pub fn resolve_on(self, host: Order) -> (order: Order)
        ensures
            order == self.order_on(host),
    {
        match self {
            Endianess::Big => Order::Big,
            Endianess::Little => Order::Little,
            Endianess::Native => host,
        }
    }

    /// The order that this stands for on the machine that this runs on.
    pub fn resolve(self) -> (order: Order)
        ensures
            order == self.order_on(Order::Little) || order == self.order_on(Order::Big),
    {
        self.resolve_on(host_order())
    }
}

/// The width of an element.
#[derive(Debug, Clone, Copy, PartialEq, Eq, Structural)]
pub enum Datatype {
    /// IEEE-754 binary32: four bytes.
    Float,
    /// IEEE-754 binary64: eight bytes.
    Double,
}

impl Datatype {
    /// The number of bytes of one element.
    pub open spec fn width(self) -> nat {
        match self {
            Datatype::Float => 4,
            Datatype::Double => 8,
        }
    }

    /// The number of bytes of one element.
    pub fn size(self) -> (n: usize)
        ensures
            n == self.width(),
    {
        match self {
            Datatype::Float => 4,
            Datatype::Double => 8,
        }
    }
}

/// A file, and how its bytes are read as values.
#[derive(Debug)]
pub struct Configuration {
    /// The path of the file.
    pub file: String,
    /// How much of the file is read.
    pub nbytes: Nbytes,
    /// The byte order of its values.
    pub endian: Endianess,
    /// The width of its values.
    pub dt: Datatype,
}

impl Configuration {
    /// The way to read the values of width `dt` that the first `nbytes` of
    /// `file` hold in the order `endian`.
    pub fn new(file: String, nbytes: Nbytes, endian: Endianess, dt: Datatype) -> (config: Self)
        ensures
            config.file == file,
            config.nbytes == nbytes,
            config.endian == endian,
            config.dt == dt,
    {
        Self { file, nbytes, endian, dt }
    }

    /// What decoding a file that holds `contents` gives on a machine of byte
    /// order `host`: the values that the bytes read hold, or why the bytes
    /// read hold no whole number of values.
    pub open spec fn decoded(&self, contents: Seq<u8>, host: Order) -> Result<Seq<u64>, Error> {
        let n = self.nbytes.resolved(contents.len());
        let width = self.dt.width();
        if n % width != 0 {
            Err(Error::Alignment { bytes: n as usize, unit: width as usize })
        } else {
            Ok(decoded(contents.take(n as int), width, self.endian.order_on(host)))
        }
    }

    /// `r` is what decoding `contents` gives on a machine of byte order
    /// `host`.
    pub open spec fn decodes_to(&self, contents: Seq<u8>, host: Order, r: Result<Data, Error>) -> bool {
        match r {
            Ok(data) => data.datatype() == self.dt && self.decoded(contents, host) == Ok::<
                Seq<u64>,
                Error,
            >(data@),
            Err(e) => self.decoded(contents, host) == Err::<Seq<u64>, Error>(e),
        }
    }

    /// The number of values that are read from a file of `filesize` bytes, or
    /// why the bytes read hold no whole number of values.
    pub open spec fn count(&self, filesize: nat) -> Result<nat, Error> {
        let n = self.nbytes.resolved(filesize);
        let width = self.dt.width();
        if n % width != 0 {
            Err(Error::Alignment { bytes: n as usize, unit: width as usize })
        } else {
            Ok(n / width)
        }
    }

    /// The number of values that are read from a file of `filesize` bytes.
    ///
    /// Fails where the bytes read hold no whole number of values.
    pub fn element_count(&self, filesize: usize) -> (r: Result<usize, Error>)
        ensures
            match self.count(filesize as nat) {
                Ok(n) => r == Ok::<usize, Error>(n as usize),
                Err(e) => r == Err::<usize, Error>(e),
            },
    {
        let n = self.nbytes.resolve(filesize);
        let width = self.dt.size();
        if n % width != 0 {
            Err(Error::Alignment { bytes: n, unit: width })
        } else {
            Ok(n / width)
        }
    }

    /// The shape that the values read from a file of `filesize` bytes take
    /// where none is given: one dimension, of as many elements as are read.
    ///
    /// Fails where the bytes read hold no whole number of values, and where
    /// they hold none.
    pub fn default_shape(&self, filesize: usize) -> (r: Result<Shape, Error>)
        ensures
            match self.count(filesize as nat) {
                Ok(n) => if n == 0 {
                    r == Err::<Shape, Error>(Error::Shape)
                } else {
                    r is Ok && r->Ok_0.dims() == seq![n]
                },
                Err(e) => r == Err::<Shape, Error>(e),
            },
    {
        match self.element_count(filesize) {
            Ok(n) => Shape::with_1_dimension(n),
            Err(e) => Err(e),
        }
    }

    /// Decodes a file that holds `contents`, or starts with the bytes that
    /// are read of it, as on a machine of byte order `host`.
    pub fn decode_on(&self, contents: &[u8], host: Order) -> (r: Result<Data, Error>)
        ensures
            self.decodes_to(contents@, host, r),
    {
        let n = self.nbytes.resolve(contents.len());
        let read = vstd::slice::slice_subrange(contents, 0, n);
        decode_as(read, self.dt, self.endian.resolve_on(host))
    }

    /// Decodes a file that holds `contents`, or starts with the bytes that
    /// are read of it.
    pub fn decode(&self, contents: &[u8]) -> (r: Result<Data, Error>)
        ensures
            self.decodes_to(contents@, Order::Little, r) || self.decodes_to(
                contents@,
                Order::Big,
                r,
            ),
    {
        self.decode_on(contents, host_order())
    }

    /// `r` is the array that the values of `contents` fill: of shape `shape`,
    /// or of one dimension where none is given.
    pub open spec fn loads_to(
        &self,
        contents: Seq<u8>,
        shape: Option<Shape>,
        host: Order,
        r: Result<Base, Error>,
    ) -> bool {
        match self.decoded(contents, host) {
            Err(e) => r == Err::<Base, Error>(e),
            Ok(values) => {
                let dims = match shape {
                    Some(s) => s.dims(),
                    None => seq![values.len()],
                };
                if shape is None && values.len() == 0 {
                    r == Err::<Base, Error>(Error::Shape)
                } else if shape is Some && shape->Some_0.count() != values.len() {
                    r == Err::<Base, Error>(
                        Error::ShapeMismatch {
                            expected: shape->Some_0.count() as u128,
                            actual: values.len() as usize,
                        },
                    )
                } else {
                    r is Ok && r->Ok_0.values() == values && r->Ok_0.datatype() == self.dt
                        && r->Ok_0.dims() == dims
                }
            },
        }
    }

    /// Decodes a file that holds `contents`, as on a machine of byte order
    /// `host`, and gives its values the shape `shape`, or one dimension where
    /// none is given.
    pub fn load_on(&self, contents: &[u8], shape: Option<Shape>, host: Order) -> (r: Result<
        Base,
        Error,
    >)
        ensures
            self.loads_to(contents@, shape, host, r),
    {
        let data = match self.decode_on(contents, host) {
            Ok(data) => data,
            Err(e) => {
                return Err(e);
            },
        };
        let shape = match shape {
            Some(shape) => shape,
            None => match Shape::with_1_dimension(data.len()) {
                Ok(shape) => shape,
                Err(e) => {
                    return Err(e);
                },
            },
        };
        proof {
            shape.lemma_count();
        }
        Base::new(data, shape)
    }

    /// Decodes a file that holds `contents` and gives its values the shape
    /// `shape`, or one dimension where none is given.
    pub fn load(&self, contents: &[u8], shape: Option<Shape>) -> (r: Result<Base, Error>)
        ensures
            self.loads_to(contents@, shape, Order::Little, r) || self.loads_to(
                contents@,
                shape,
                Order::Big,
                r,
            ),
    {
        self.load_on(contents, shape, host_order())
    }
}

/// Decoding the whole of a file that holds a whole number of values gives as
/// many values as the file holds.
pub proof fn lemma_whole_file_count(config: Configuration, contents: Seq<u8>, host: Order)
    requires
        config.nbytes == Nbytes::Whole,
        contents.len() % config.dt.width() == 0,
    ensures
        config.decoded(contents, host) is Ok,
        config.decoded(contents, host)->Ok_0.len() == contents.len() / config.dt.width(),
{
}

/// A limit beyond the end of a file reads what no limit reads.
pub proof fn lemma_limit_clamps(
    limited: Configuration,
    whole: Configuration,
    contents: Seq<u8>,
    host: Order,
)
    requires
        limited.nbytes matches Nbytes::Bytes(n) && n > contents.len(),
        whole.nbytes == Nbytes::Whole,
        limited.endian == whole.endian,
        limited.dt == whole.dt,
    ensures
        limited.decoded(contents, host) == whole.decoded(contents, host),
{
}

/// Bytes that hold no whole number of values are refused.
pub proof fn lemma_misaligned_fails(config: Configuration, contents: Seq<u8>, host: Order)
    requires
        config.nbytes.resolved(contents.len()) % config.dt.width() != 0,
    ensures
        config.decoded(contents, host) == Err::<Seq<u64>, Error>(
            Error::Alignment {
                bytes: config.nbytes.resolved(contents.len()) as usize,
                unit: config.dt.width() as usize,
            },
        ),
{
}

/// Of a file, only the bytes that are read matter.
pub proof fn lemma_decoded_of_bytes_read(config: Configuration, contents: Seq<u8>, host: Order)
    ensures
        config.decoded(contents.take(config.nbytes.resolved(contents.len()) as int), host)
            == config.decoded(contents, host),
{
    let n = config.nbytes.resolved(contents.len());
    let read = contents.take(n as int);
    assert(read.take(n as int) =~= read);
}

/// Decoding the whole of a file that holds the encoding of values, on the
/// machine that encoded them, gives the values back, bit for bit.
pub proof fn lemma_decode_encoded(config: Configuration, values: Seq<u64>, host: Order)
    requires
        config.nbytes == Nbytes::Whole,
        words_fit(values, config.dt.width()),
    ensures
        config.decoded(
            encoded(values, config.dt.width(), config.endian.order_on(host)),
            host,
        ) == Ok::<Seq<u64>, Error>(values),
{
    let width = config.dt.width();
    let order = config.endian.order_on(host);
    let bytes = encoded(values, width, order);
    lemma_encoded_len(values, width, order);
    assert((values.len() * width) % width == 0) by (nonlinear_arith)
        requires
            width > 0,
    ;
    lemma_round_trip(values, width, order);
    assert(bytes.take(bytes.len() as int) =~= bytes);
}

/// A file written in a fixed byte order on one machine is read back on any
/// other.
pub proof fn lemma_fixed_order_travels(
    config: Configuration,
    values: Seq<u64>,
    writer: Order,
    reader: Order,
)
    requires
        config.nbytes == Nbytes::Whole,
        config.endian != Endianess::Native,
        words_fit(values, config.dt.width()),
    ensures
        config.decoded(
            encoded(values, config.dt.width(), config.endian.order_on(writer)),
            reader,
        ) == Ok::<Seq<u64>, Error>(values),
{
    lemma_decode_encoded(config, values, reader);
}

} // verus!
