//! Words: unsigned integers of one to eight bytes, and the two orders in which
//! their bytes are laid out.

use byteorder::{BigEndian, ByteOrder, LittleEndian, NativeEndian};
use vstd::prelude::*;
use vstd::slice::slice_subrange;

verus! {

/// The order of the bytes of a word: least significant first, or most.
#[derive(Debug, Clone, Copy, PartialEq, Eq, Structural)]
pub enum Order {
    /// Least significant byte first.
    Little,
    /// Most significant byte first.
    Big,
}

/// 256 to the power `k`.
pub open spec fn pow256(k: nat) -> nat
    decreases k,
{
    if k == 0 {
        1
    } else {
        256 * pow256((k - 1) as nat)
    }
}

/// 256 to the power 4 and to the power 8.
pub proof fn lemma_pow256_of_widths()
    ensures
        pow256(4) == 0x1_0000_0000,
        pow256(8) == 0x1_0000_0000_0000_0000,
{
    reveal_with_fuel(pow256, 9);
}

/// Up to eight bytes spell no more than a word holds.
pub proof fn lemma_pow256_le_word(width: nat)
    requires
        width <= 8,
    ensures
        pow256(width) <= 0x1_0000_0000_0000_0000,
{
    reveal_with_fuel(pow256, 9);
}

/// The number whose base-256 digits are `bytes`, least significant first.
pub open spec fn le_value(bytes: Seq<u8>) -> nat
    decreases bytes.len(),
{
    if bytes.len() == 0 {
        0
    } else {
        bytes.first() as nat + 256 * le_value(bytes.drop_first())
    }
}

/// The number whose base-256 digits are `bytes`, most significant first.
pub open spec fn be_value(bytes: Seq<u8>) -> nat
    decreases bytes.len(),
{
    if bytes.len() == 0 {
        0
    } else {
        256 * be_value(bytes.drop_last()) + bytes.last() as nat
    }
}

/// The `width` lowest base-256 digits of `n`, least significant first.
pub open spec fn le_bytes(n: nat, width: nat) -> Seq<u8>
    decreases width,
{
    if width == 0 {
        Seq::empty()
    } else {
        seq![(n % 256) as u8] + le_bytes(n / 256, (width - 1) as nat)
    }
}

/// The `width` lowest base-256 digits of `n`, most significant first.
pub open spec fn be_bytes(n: nat, width: nat) -> Seq<u8>
    decreases width,
{
    if width == 0 {
        Seq::empty()
    } else {
        be_bytes(n / 256, (width - 1) as nat).push((n % 256) as u8)
    }
}

/// The number that `bytes` spell in the given order.
pub open spec fn value_of(bytes: Seq<u8>, order: Order) -> nat {
    match order {
        Order::Little => le_value(bytes),
        Order::Big => be_value(bytes),
    }
}

/// The `width` bytes that spell `n` in the given order, where `n` is below
/// 256 to the power `width`; the lowest digits of `n` where it is not.
pub open spec fn bytes_of(n: nat, width: nat, order: Order) -> Seq<u8> {
    match order {
        Order::Little => le_bytes(n, width),
        Order::Big => be_bytes(n, width),
    }
}

/// A word is spelt with as many bytes as were asked for.
pub proof fn lemma_bytes_of_len(n: nat, width: nat, order: Order)
    ensures
        bytes_of(n, width, order).len() == width,
    decreases width,
{
    if width > 0 {
        lemma_bytes_of_len(n / 256, (width - 1) as nat, order);
    }
}

/// What `bytes` spell is below 256 to the power of their number.
pub proof fn lemma_value_of_bound(bytes: Seq<u8>, order: Order)
    ensures
        value_of(bytes, order) < pow256(bytes.len()),
    decreases bytes.len(),
{
    if bytes.len() > 0 {
        match order {
            Order::Little => lemma_value_of_bound(bytes.drop_first(), order),
            Order::Big => lemma_value_of_bound(bytes.drop_last(), order),
        }
    }
}

/// Reading the bytes of a word that fits gives the word back.
pub proof fn lemma_value_of_bytes(n: nat, width: nat, order: Order)
    requires
        n < pow256(width),
    ensures
        value_of(bytes_of(n, width, order), order) == n,
    decreases width,
{
    if width > 0 {
        let rest = (width - 1) as nat;
        lemma_value_of_bytes(n / 256, rest, order);
        match order {
            Order::Little => {
                let s = le_bytes(n, width);
                assert(s.drop_first() =~= le_bytes(n / 256, rest));
            },
            Order::Big => {
                let s = be_bytes(n, width);
                assert(s.drop_last() =~= be_bytes(n / 256, rest));
            },
        }
    }
}

/// Spelling what `bytes` spell, with as many bytes, gives `bytes` back.
pub proof fn lemma_bytes_of_value(bytes: Seq<u8>, order: Order)
    ensures
        bytes_of(value_of(bytes, order), bytes.len(), order) == bytes,
    decreases bytes.len(),
{
    if bytes.len() > 0 {
        match order {
            Order::Little => {
                lemma_bytes_of_value(bytes.drop_first(), order);
                assert(seq![bytes.first()] + bytes.drop_first() =~= bytes);
            },
            Order::Big => {
                lemma_bytes_of_value(bytes.drop_last(), order);
                assert(bytes.drop_last().push(bytes.last()) =~= bytes);
            },
        }
    }
}

/// `byteorder::LittleEndian::read_uint`: the first `nbytes` bytes of `buf`
/// read as one unsigned integer, least significant byte first. It panics
/// unless `nbytes` is between 1 and 8 and `buf` holds that many bytes.
#[verifier::external_body]
fn read_uint_le(buf: &[u8], nbytes: usize) -> (n: u64)
    requires
        1 <= nbytes <= 8,
        nbytes <= buf@.len(),
    ensures
        n == le_value(buf@.take(nbytes as int)),
{
    LittleEndian::read_uint(buf, nbytes)
}

/// `byteorder::BigEndian::read_uint`: the first `nbytes` bytes of `buf` read
/// as one unsigned integer, most significant byte first. It panics unless
/// `nbytes` is between 1 and 8 and `buf` holds that many bytes.
#[verifier::external_body]
fn read_uint_be(buf: &[u8], nbytes: usize) -> (n: u64)
    requires
        1 <= nbytes <= 8,
        nbytes <= buf@.len(),
    ensures
        n == be_value(buf@.take(nbytes as int)),
{
    BigEndian::read_uint(buf, nbytes)
}

/// `byteorder::NativeEndian::read_uint`: the first `nbytes` bytes of `buf`
/// read as one unsigned integer in the byte order of the machine, which is
/// one of the two orders. It panics as the other two do.
#[verifier::external_body]
fn read_uint_native(buf: &[u8], nbytes: usize) -> (n: u64)
    requires
        1 <= nbytes <= 8,
        nbytes <= buf@.len(),
    ensures
        n == le_value(buf@.take(nbytes as int)) || n == be_value(buf@.take(nbytes as int)),
{
    NativeEndian::read_uint(buf, nbytes)
}

/// `byteorder::LittleEndian::write_uint`: sets the first `nbytes` bytes of
/// `buf` to the digits of `n`, least significant first, and leaves the rest.
/// It panics unless `nbytes` is between 1 and 8, `n` fits in that many bytes
/// and `buf` holds that many.
#[verifier::external_body]
fn write_uint_le(buf: &mut [u8], n: u64, nbytes: usize)
    requires
        1 <= nbytes <= 8,
        n < pow256(nbytes as nat),
        nbytes <= old(buf)@.len(),
    ensures
        final(buf)@ == le_bytes(n as nat, nbytes as nat) + old(buf)@.skip(nbytes as int),
{
    LittleEndian::write_uint(buf, n, nbytes)
}

/// `byteorder::BigEndian::write_uint`: sets the first `nbytes` bytes of `buf`
/// to the digits of `n`, most significant first, and leaves the rest. It
/// panics unless `nbytes` is between 1 and 8, `n` fits in that many bytes and
/// `buf` holds that many.
#[verifier::external_body]
fn write_uint_be(buf: &mut [u8], n: u64, nbytes: usize)
    requires
        1 <= nbytes <= 8,
        n < pow256(nbytes as nat),
        nbytes <= old(buf)@.len(),
    ensures
        final(buf)@ == be_bytes(n as nat, nbytes as nat) + old(buf)@.skip(nbytes as int),
{
    BigEndian::write_uint(buf, n, nbytes)
}

/// The byte order of the machine that this runs on.
pub(crate) fn host_order() -> Order {
    let probe: [u8; 2] = [1, 0];
    let reading = read_uint_native(probe.as_slice(), 2);
    Order::shown_by(reading)
}

/// The two bytes that a machine reads to show its byte order.
pub open spec fn probe() -> Seq<u8> {
    seq![1u8, 0u8]
}

/// The order of a machine on which the probe reads as `reading`: least
/// significant byte first where it reads as one.
pub open spec fn order_shown(reading: nat) -> Order {
    if reading == 1 {
        Order::Little
    } else {
        Order::Big
    }
}

impl Order {
    /// The order of a machine on which the bytes 1, 0 read as `reading`.
    pub fn shown_by(reading: u64) -> (order: Self)
        ensures
            order == order_shown(reading as nat),
    {
        if reading == 1 {
            Order::Little
        } else {
            Order::Big
        }
    }
}

/// Read in either order, the probe shows that order.
pub proof fn lemma_probe_shows_order(order: Order)
    ensures
        value_of(probe(), Order::Little) == 1,
        value_of(probe(), Order::Big) == 256,
        order_shown(value_of(probe(), order)) == order,
{
    reveal_with_fuel(le_value, 3);
    reveal_with_fuel(be_value, 3);
    assert(probe().drop_first() =~= seq![0u8]);
    assert(probe().drop_last() =~= seq![1u8]);
    assert(seq![0u8].drop_first() =~= Seq::<u8>::empty());
    assert(seq![1u8].drop_last() =~= Seq::<u8>::empty());
}

/// The word of `width` bytes that starts at byte `at` of `bytes`.
pub(crate) fn read_word(bytes: &[u8], at: usize, width: usize, order: Order) -> (word: u64)
    requires
        1 <= width <= 8,
        at + width <= bytes@.len(),
    ensures
        word == value_of(bytes@.subrange(at as int, at + width), order),
{
    assert(bytes@.len() == bytes.len());
    let chunk = slice_subrange(bytes, at, at + width);
    assert(chunk@.take(width as int) =~= chunk@);
    match order {
        Order::Little => read_uint_le(chunk, width),
        Order::Big => read_uint_be(chunk, width),
    }
}

/// Appends the `width` bytes of `word` to `out`.
pub(crate) fn push_word(out: &mut Vec<u8>, word: u64, width: usize, order: Order)
    requires
        1 <= width <= 8,
        word < pow256(width as nat),
    ensures
        final(out)@ == old(out)@ + bytes_of(word as nat, width as nat, order),
{
    let mut scratch: [u8; 8] = [0u8; 8];
    match order {
        Order::Little => write_uint_le(&mut scratch, word, width),
        Order::Big => write_uint_be(&mut scratch, word, width),
    }
    let ghost digits = bytes_of(word as nat, width as nat, order);
    let ghost before = out@;
    proof {
        lemma_bytes_of_len(word as nat, width as nat, order);
        assert(scratch@.take(width as int) =~= digits);
    }
    let mut k: usize = 0;
    while k < width
        invariant
            k <= width <= 8,
            scratch@.len() == 8,
            digits.len() == width,
            scratch@.take(width as int) == digits,
            out@ == before + digits.take(k as int),
        decreases width - k,
    {
        out.push(scratch[k]);
        k += 1;
    }
    assert(digits.take(width as int) =~= digits);
}

} // verus!
