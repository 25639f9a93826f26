//! From values to the bytes of a file, and back.

use vstd::prelude::*;
use crate::config::{Datatype, Endianess};
use crate::data::{words_fit, Data};
use crate::error::Error;
use crate::word::{
    bytes_of, host_order, lemma_bytes_of_len, lemma_bytes_of_value, lemma_pow256_le_word,
    lemma_value_of_bound, lemma_value_of_bytes, push_word, read_word, value_of, Order,
};

verus! {

/// The bytes of `words`, each written with `width` bytes in the given order,
/// one after the other.
pub open spec fn encoded(words: Seq<u64>, width: nat, order: Order) -> Seq<u8>
    decreases words.len(),
{
    if words.len() == 0 {
        Seq::empty()
    } else {
        encoded(words.drop_last(), width, order) + bytes_of(words.last() as nat, width, order)
    }
}

/// The `j`-th run of `width` bytes of `bytes`.
pub open spec fn chunk(bytes: Seq<u8>, width: nat, j: int) -> Seq<u8> {
    bytes.subrange(j * width, (j + 1) * width)
}

/// The words that the runs of `width` bytes of `bytes` spell in the given
/// order. Bytes after the last whole run are left out.
pub open spec fn decoded(bytes: Seq<u8>, width: nat, order: Order) -> Seq<u64> {
    Seq::new(
        bytes.len() / width,
        |j: int| value_of(chunk(bytes, width, j), order) as u64,
    )
}

/// Encoding gives `width` bytes for each word.
pub proof fn lemma_encoded_len(words: Seq<u64>, width: nat, order: Order)
    ensures
        encoded(words, width, order).len() == words.len() * width,
    decreases words.len(),
{
    if words.len() > 0 {
        lemma_encoded_len(words.drop_last(), width, order);
        lemma_bytes_of_len(words.last() as nat, width, order);
        assert((words.len() - 1) * width + width == words.len() * width) by (nonlinear_arith);
    }
}

/// The `j`-th run of the encoding holds the bytes of the `j`-th word.
pub proof fn lemma_encoded_chunk(words: Seq<u64>, width: nat, order: Order, j: int)
    requires
        0 <= j < words.len(),
    ensures
        chunk(encoded(words, width, order), width, j) == bytes_of(words[j] as nat, width, order),
    decreases words.len(),
{
    let front = words.drop_last();
    let all = encoded(words, width, order);
    let head = encoded(front, width, order);
    let tail = bytes_of(words.last() as nat, width, order);
    lemma_encoded_len(front, width, order);
    lemma_bytes_of_len(words.last() as nat, width, order);
    assert(0 <= j * width <= (j + 1) * width <= words.len() * width) by (nonlinear_arith)
        requires
            0 <= j < words.len(),
    ;
    assert((j + 1) * width == j * width + width) by (nonlinear_arith);
    assert((words.len() - 1) * width + width == words.len() * width) by (nonlinear_arith);
    if j == words.len() - 1 {
        assert(chunk(all, width, j) =~= tail);
    } else {
        lemma_encoded_chunk(front, width, order, j);
        assert((j + 1) * width <= (words.len() - 1) * width) by (nonlinear_arith)
            requires
                j + 1 <= words.len() - 1,
        ;
        assert(chunk(all, width, j) =~= chunk(head, width, j));
    }
}

/// Decoding what was encoded gives the words back, bit for bit.
pub proof fn lemma_round_trip(words: Seq<u64>, width: nat, order: Order)
    requires
        width > 0,
        words_fit(words, width),
    ensures
        decoded(encoded(words, width, order), width, order) == words,
{
    let bytes = encoded(words, width, order);
    lemma_encoded_len(words, width, order);
    assert((words.len() * width) / width == words.len()) by (nonlinear_arith)
        requires
            width > 0,
    ;
    assert forall|j: int| 0 <= j < words.len() implies decoded(bytes, width, order)[j]
        == words[j] by {
        lemma_encoded_chunk(words, width, order, j);
        lemma_value_of_bytes(words[j] as nat, width, order);
    }
    assert(decoded(bytes, width, order) =~= words);
}

/// Encoding what was decoded gives the bytes back, where the bytes were whole
/// runs of `width`.
pub proof fn lemma_round_trip_of_bytes(bytes: Seq<u8>, width: nat, order: Order)
    requires
        1 <= width <= 8,
        bytes.len() % width == 0,
    ensures
        encoded(decoded(bytes, width, order), width, order) == bytes,
{
    let words = decoded(bytes, width, order);
    let count = bytes.len() / width;
    assert(count * width == bytes.len()) by (nonlinear_arith)
        requires
            count == bytes.len() / width,
            bytes.len() % width == 0,
            width > 0,
    ;
    lemma_encoded_len(words, width, order);
    let back = encoded(words, width, order);
    assert forall|i: int| 0 <= i < bytes.len() implies back[i] == bytes[i] by {
        let j = i / (width as int);
        let k = i % (width as int);
        assert(0 <= j < count && i == j * width + k && 0 <= k < width) by (nonlinear_arith)
            requires
                0 <= i < count * width,
                j == i / (width as int),
                k == i % (width as int),
                width > 0,
        ;
        assert((j + 1) * width == j * width + width) by (nonlinear_arith);
        assert((j + 1) * width <= count * width) by (nonlinear_arith)
            requires
                j + 1 <= count,
        ;
        lemma_encoded_chunk(words, width, order, j);
        let run = chunk(bytes, width, j);
        lemma_value_of_bound(run, order);
        lemma_pow256_le_word(width);
        lemma_bytes_of_value(run, order);
        assert(chunk(back, width, j)[k] == back[i]);
        assert(run[k] == bytes[i]);
    }
    assert(back =~= bytes);
}

/// Read in the other byte order, a value whose bytes do not read the same
/// both ways comes out as another value.
pub proof fn lemma_other_order_differs(
    values: Seq<u64>,
    width: nat,
    written: Order,
    read: Order,
    i: int,
)
    requires
        1 <= width <= 8,
        words_fit(values, width),
        0 <= i < values.len(),
        written != read,
        bytes_of(values[i] as nat, width, Order::Little) != bytes_of(
            values[i] as nat,
            width,
            Order::Big,
        ),
    ensures
        decoded(encoded(values, width, written), width, read).len() == values.len(),
        decoded(encoded(values, width, written), width, read)[i] != values[i],
{
    let bytes = encoded(values, width, written);
    lemma_encoded_len(values, width, written);
    assert((values.len() * width) / width == values.len()) by (nonlinear_arith)
        requires
            width > 0,
    ;
    lemma_encoded_chunk(values, width, written, i);
    let run = bytes_of(values[i] as nat, width, written);
    lemma_bytes_of_len(values[i] as nat, width, written);
    lemma_value_of_bound(run, read);
    lemma_pow256_le_word(width);
    lemma_bytes_of_value(run, read);
}

/// The bytes of `values` in the given order.
pub fn encode_as(values: &Data, order: Order) -> (bytes: Vec<u8>)
    ensures
        bytes@ == encoded(values@, values.datatype().width(), order),
        bytes@.len() == values@.len() * values.datatype().width(),
{
    let width = values.dt().size();
    let words = values.words();
    let mut bytes: Vec<u8> = Vec::new();
    let mut i: usize = 0;
    while i < words.len()
        invariant
            i <= words.len(),
            width == values.datatype().width(),
            words@ == values@,
            words_fit(words@, width as nat),
            bytes@ == encoded(words@.take(i as int), width as nat, order),
        decreases words.len() - i,
    {
        push_word(&mut bytes, words[i], width, order);
        proof {
            let upto = words@.take(i + 1);
            assert(upto.drop_last() =~= words@.take(i as int));
        }
        i += 1;
    }
    proof {
        assert(words@.take(i as int) =~= words@);
        lemma_encoded_len(values@, width as nat, order);
    }
    bytes
}

/// The bytes of `values` in the order that `endian` stands for on the machine
/// that this runs on.
pub fn encode(values: &Data, endian: Endianess) -> (bytes: Vec<u8>)
    ensures
        bytes@ == encoded(values@, values.datatype().width(), endian.order_on(Order::Little))
            || bytes@ == encoded(values@, values.datatype().width(), endian.order_on(Order::Big)),
        bytes@.len() == values@.len() * values.datatype().width(),
{
    encode_as(values, endian.resolve_on(host_order()))
}

/// The values of width `dt` that `bytes` hold in the given order.
///
/// Fails where `bytes` do not hold a whole number of values.
pub fn decode_as(bytes: &[u8], dt: Datatype, order: Order) -> (r: Result<Data, Error>)
    ensures
        bytes@.len() % dt.width() != 0 ==> r == Err::<Data, Error>(
            Error::Alignment { bytes: bytes@.len() as usize, unit: dt.width() as usize },
        ),
        bytes@.len() % dt.width() == 0 ==> r is Ok && r->Ok_0.datatype() == dt
            && r->Ok_0@ == decoded(bytes@, dt.width(), order),
{
    let width = dt.size();
    let len = bytes.len();
    if len % width != 0 {
        return Err(Error::Alignment { bytes: len, unit: width });
    }
    let count = len / width;
    let ghost all = decoded(bytes@, width as nat, order);
    let mut words: Vec<u64> = Vec::new();
    let mut j: usize = 0;
    let mut at: usize = 0;
    while j < count
        invariant
            j <= count,
            1 <= width <= 8,
            width == dt.width(),
            len == bytes@.len(),
            count == len / width,
            len % width == 0,
            at == j * width,
            all == decoded(bytes@, width as nat, order),
            words@ == all.take(j as int),
            words_fit(words@, width as nat),
        decreases count - j,
    {
        proof {
            assert(at + width <= len) by (nonlinear_arith)
                requires
                    at == j * width,
                    j < count,
                    count == len / width,
                    width > 0,
            ;
            assert((j + 1) * width == j * width + width) by (nonlinear_arith);
            lemma_value_of_bound(chunk(bytes@, width as nat, j as int), order);
            lemma_pow256_le_word(width as nat);
        }
        let word = read_word(bytes, at, width, order);
        words.push(word);
        j += 1;
        at += width;
        proof {
            assert(words@ =~= all.take(j as int));
        }
    }
    proof {
        assert(all.take(j as int) =~= all);
    }
    Ok(Data::from_words(dt, words))
}

} // verus!
