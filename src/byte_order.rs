//! The machine's native byte order, as the wire format uses it for every
//! integer.
use vstd::bytes::{
    lemma_auto_spec_u32_to_from_le_bytes, lemma_auto_spec_u64_to_from_le_bytes,
    spec_u32_from_le_bytes, spec_u32_to_le_bytes, spec_u64_from_le_bytes, spec_u64_to_le_bytes,
};
use vstd::endian::{endianness, Endian};
use byteorder::{NativeEndian, ReadBytesExt, WriteBytesExt};
use vstd::prelude::*;

verus! {

/// Turns bytes given least significant first into the machine's own order,
/// and back (the map is its own inverse).
pub open spec fn native_order(b: Seq<u8>) -> Seq<u8> {
    match endianness() {
        Endian::Little => b,
        Endian::Big => b.reverse(),
    }
}

/// The four bytes that hold `v` in native byte order.
pub open spec fn i32_to_ne_bytes(v: i32) -> Seq<u8> {
    native_order(spec_u32_to_le_bytes(v as u32))
}

/// The `i32` that four bytes hold in native byte order.
pub open spec fn i32_from_ne_bytes(b: Seq<u8>) -> i32 {
    spec_u32_from_le_bytes(native_order(b)) as i32
}

/// The eight bytes that hold `v` in native byte order.
pub open spec fn u64_to_ne_bytes(v: u64) -> Seq<u8> {
    native_order(spec_u64_to_le_bytes(v))
}

/// The `u64` that eight bytes hold in native byte order.
pub open spec fn u64_from_ne_bytes(b: Seq<u8>) -> u64 {
    spec_u64_from_le_bytes(native_order(b))
}

proof fn lemma_native_order_involutive(b: Seq<u8>)
    ensures
        native_order(native_order(b)) == b,
        native_order(b).len() == b.len(),
{
    assert(b.reverse().reverse() =~= b);
}

/// Reading back the bytes written for an `i32` gives the same `i32`.
pub proof fn lemma_i32_ne_round_trip(v: i32)
    ensures
        i32_to_ne_bytes(v).len() == 4,
        i32_from_ne_bytes(i32_to_ne_bytes(v)) == v,
{
    lemma_auto_spec_u32_to_from_le_bytes();
    lemma_native_order_involutive(spec_u32_to_le_bytes(v as u32));
    assert(((v as u32) as i32) == v) by (bit_vector);
}

/// Reading back the bytes written for a `u64` gives the same `u64`.
pub proof fn lemma_u64_ne_round_trip(v: u64)
    ensures
        u64_to_ne_bytes(v).len() == 8,
        u64_from_ne_bytes(u64_to_ne_bytes(v)) == v,
{
    lemma_auto_spec_u64_to_from_le_bytes();
    lemma_native_order_involutive(spec_u64_to_le_bytes(v));
}

/// The bytes of `words`, each in native byte order, one after another.
pub open spec fn u64s_to_ne_bytes(words: Seq<u64>) -> Seq<u8>
    decreases words.len(),
{
    if words.len() == 0 {
        Seq::empty()
    } else {
        u64s_to_ne_bytes(words.drop_last()) + u64_to_ne_bytes(words.last())
    }
}

/// The words that `b` holds, eight bytes each in native byte order.
pub open spec fn u64s_from_ne_bytes(b: Seq<u8>) -> Seq<u64> {
    Seq::new(b.len() / 8, |i: int| u64_from_ne_bytes(b.subrange(8 * i, 8 * i + 8)))
}

/// Relies on byteorder's `ReadBytesExt::read_u64::<NativeEndian>` on a byte
/// slice: it reads the first eight bytes in native order, and fails only
/// where fewer than eight are left.
#[verifier::external_body]
pub(crate) fn read_u64_ne(mut bytes: &[u8]) -> (r: u64)
    requires
        bytes@.len() >= 8,
    ensures
        r == u64_from_ne_bytes(bytes@.subrange(0, 8)),
{
    bytes.read_u64::<NativeEndian>().unwrap()
}

/// Relies on byteorder's `WriteBytesExt::write_u64::<NativeEndian>` on a
/// `Vec<u8>`: it appends the eight bytes of `v` in native order, and writing
/// to a `Vec` does not fail.
#[verifier::external_body]
pub(crate) fn write_u64_ne(to: &mut Vec<u8>, v: u64)
    ensures
        final(to)@ == old(to)@ + u64_to_ne_bytes(v),
{
    to.write_u64::<NativeEndian>(v).unwrap()
}

} // verus!
