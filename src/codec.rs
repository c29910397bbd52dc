//! The typed codecs: how a value becomes payload bytes, and how a field's
//! bytes become a value again.
use crate::byte_order::{read_u64_ne, u64s_from_ne_bytes, u64s_to_ne_bytes, write_u64_ne};
use crate::format::{field_bytes, in_payload};
use crate::types::{type_code, MemBufferError, MemBufferTypes, Position};
use vstd::prelude::*;
use vstd::string::StringSliceAdditionalSpecFns;
use vstd::utf8::{decode_utf8, encode_utf8, valid_utf8};

verus! {

/// A type that can be stored as a field.
pub trait MemBufferSerialize {
    /// The tag that fields of this type carry.
    spec fn spec_type() -> i32;

    /// The bytes that the value adds to the payload.
    spec fn spec_encoded(&self) -> Seq<u8>;

    /// What the descriptor's offset slot holds when the payload had `at`
    /// bytes before the value: `at` for a value in the payload, the value
    /// itself for a type stored inline.
    spec fn spec_offset(&self, at: i32) -> i32;

    /// Encodes the value; sets `pos.offset` where the type is stored inline.
    fn to_mem_buffer<'a>(&'a self, pos: &mut Position) -> (r: std::borrow::Cow<'a, [u8]>)
        ensures
            r@ == self.spec_encoded(),
            final(pos).offset == self.spec_offset(old(pos).offset),
            final(pos).length == old(pos).length,
    ;

    /// The tag that fields of this type carry.
    fn get_mem_buffer_type() -> (r: i32)
        ensures
            r == Self::spec_type(),
    ;
}

impl MemBufferSerialize for &str {
    open spec fn spec_type() -> i32 {
        type_code(MemBufferTypes::Text)
    }

    open spec fn spec_encoded(&self) -> Seq<u8> {
        encode_utf8(self@)
    }

    open spec fn spec_offset(&self, at: i32) -> i32 {
        at
    }

    fn to_mem_buffer<'a>(&'a self, pos: &mut Position) -> (r: std::borrow::Cow<'a, [u8]>) {
        std::borrow::Cow::Borrowed(self.as_bytes())
    }

    fn get_mem_buffer_type() -> (r: i32) {
        MemBufferTypes::Text.into()
    }
}

impl MemBufferSerialize for &String {
    open spec fn spec_type() -> i32 {
        type_code(MemBufferTypes::Text)
    }

    open spec fn spec_encoded(&self) -> Seq<u8> {
        encode_utf8(self@)
    }

    open spec fn spec_offset(&self, at: i32) -> i32 {
        at
    }

    fn to_mem_buffer<'a>(&'a self, pos: &mut Position) -> (r: std::borrow::Cow<'a, [u8]>) {
        std::borrow::Cow::Borrowed(self.as_str().as_bytes())
    }

    fn get_mem_buffer_type() -> (r: i32) {
        MemBufferTypes::Text.into()
    }
}

impl MemBufferSerialize for i32 {
    open spec fn spec_type() -> i32 {
        type_code(MemBufferTypes::Integer32)
    }

    open spec fn spec_encoded(&self) -> Seq<u8> {
        Seq::empty()
    }

    open spec fn spec_offset(&self, at: i32) -> i32 {
        *self
    }

    fn to_mem_buffer<'a>(&'a self, pos: &mut Position) -> (r: std::borrow::Cow<'a, [u8]>) {
        pos.offset = *self;
        std::borrow::Cow::Owned(Vec::new())
    }

    fn get_mem_buffer_type() -> (r: i32) {
        MemBufferTypes::Integer32.into()
    }
}

impl MemBufferSerialize for &[u8] {
    open spec fn spec_type() -> i32 {
        type_code(MemBufferTypes::VectorU8)
    }

    open spec fn spec_encoded(&self) -> Seq<u8> {
        self@
    }

    open spec fn spec_offset(&self, at: i32) -> i32 {
        at
    }

    fn to_mem_buffer<'a>(&'a self, pos: &mut Position) -> (r: std::borrow::Cow<'a, [u8]>) {
        std::borrow::Cow::Borrowed(*self)
    }

    fn get_mem_buffer_type() -> (r: i32) {
        MemBufferTypes::VectorU8.into()
    }
}

/// The native-order bytes of `words`, built one word at a time.
fn words_to_bytes(words: &[u64]) -> (r: Vec<u8>)
    ensures
        r@ == u64s_to_ne_bytes(words@),
{
    let mut out: Vec<u8> = Vec::new();
    let mut i: usize = 0;
    while i < words.len()
        invariant
            0 <= i <= words@.len(),
            out@ == u64s_to_ne_bytes(words@.take(i as int)),
        decreases words@.len() - i,
    {
        write_u64_ne(&mut out, words[i]);
        proof {
            assert(words@.take(i + 1).drop_last() =~= words@.take(i as int));
        }
        i += 1;
    }
    proof {
        assert(words@.take(i as int) =~= words@);
    }
    out
}

impl MemBufferSerialize for &[u64] {
    open spec fn spec_type() -> i32 {
        type_code(MemBufferTypes::VectorU64)
    }

    open spec fn spec_encoded(&self) -> Seq<u8> {
        u64s_to_ne_bytes(self@)
    }

    open spec fn spec_offset(&self, at: i32) -> i32 {
        at
    }

    fn to_mem_buffer<'a>(&'a self, pos: &mut Position) -> (r: std::borrow::Cow<'a, [u8]>) {
        std::borrow::Cow::Owned(words_to_bytes(*self))
    }

    fn get_mem_buffer_type() -> (r: i32) {
        MemBufferTypes::VectorU64.into()
    }
}

impl MemBufferSerialize for Vec<u64> {
    open spec fn spec_type() -> i32 {
        type_code(MemBufferTypes::VectorU64)
    }

    open spec fn spec_encoded(&self) -> Seq<u8> {
        u64s_to_ne_bytes(self@)
    }

    open spec fn spec_offset(&self, at: i32) -> i32 {
        at
    }

    fn to_mem_buffer<'a>(&'a self, pos: &mut Position) -> (r: std::borrow::Cow<'a, [u8]>) {
        std::borrow::Cow::Owned(words_to_bytes(self.as_slice()))
    }

    fn get_mem_buffer_type() -> (r: i32) {
        MemBufferTypes::VectorU64.into()
    }
}

/// A type that a field can be decoded into, borrowing from the buffer for
/// the lifetime `'a` where it can.
pub trait MemBufferDeserialize<'a, T>: Sized {
    /// The field at `pos` of the payload `mem` is a well-formed value.
    spec fn spec_decodable(pos: Position, mem: Seq<u8>) -> bool;

    /// `v` is the value that the field at `pos` of `mem` holds.
    spec fn spec_decoded(pos: Position, mem: Seq<u8>, v: T) -> bool;

    /// Decodes the field at `pos` of the payload `mem`.
    fn from_mem_buffer(pos: &Position, mem: &'a [u8]) -> (r: Result<T, MemBufferError>)
        ensures
            r is Ok <==> Self::spec_decodable(*pos, mem@),
            r matches Ok(v) ==> Self::spec_decoded(*pos, mem@, v),
            r matches Err(e) ==> e is WrongFormat,
    ;
}

/// The bytes of the field at `pos`, or `None` where they do not lie inside
/// `mem`.
pub(crate) fn field_slice<'a>(pos: &Position, mem: &'a [u8]) -> (r: Option<&'a [u8]>)
    ensures
        r is Some <==> in_payload(*pos, mem@.len() as int),
        r matches Some(b) ==> b@ == field_bytes(*pos, mem@),
{
    if pos.offset < 0 || pos.length < 0 {
        return None;
    }
    let start = pos.offset as usize;
    let len = pos.length as usize;
    if len > mem.len() || start > mem.len() - len {
        return None;
    }
    Some(&mem[start..start + len])
}

/// Relies on `std::str::from_utf8`: it succeeds exactly on valid UTF-8, and
/// the string it returns is made of those same bytes.
#[verifier::external_body]
fn utf8_str<'a>(bytes: &'a [u8]) -> (r: Option<&'a str>)
    ensures
        r is Some <==> valid_utf8(bytes@),
        r matches Some(s) ==> s.spec_bytes() == bytes@,
{
    std::str::from_utf8(bytes).ok()
}

impl<'a> MemBufferDeserialize<'a, &'a str> for &'a str {
    open spec fn spec_decodable(pos: Position, mem: Seq<u8>) -> bool {
        in_payload(pos, mem.len() as int) && valid_utf8(field_bytes(pos, mem))
    }

    open spec fn spec_decoded(pos: Position, mem: Seq<u8>, v: &'a str) -> bool {
        v@ == decode_utf8(field_bytes(pos, mem))
    }

    fn from_mem_buffer(pos: &Position, mem: &'a [u8]) -> (r: Result<&'a str, MemBufferError>) {
        match field_slice(pos, mem) {
            Some(bytes) => match utf8_str(bytes) {
                Some(s) => {
                    proof {
                        vstd::utf8::encode_utf8_decode_utf8(s@);
                    }
                    Ok(s)
                },
                None => Err(MemBufferError::WrongFormat),
            },
            None => Err(MemBufferError::WrongFormat),
        }
    }
}

impl<'a> MemBufferDeserialize<'a, i32> for i32 {
    open spec fn spec_decodable(pos: Position, mem: Seq<u8>) -> bool {
        true
    }

    open spec fn spec_decoded(pos: Position, mem: Seq<u8>, v: i32) -> bool {
        v == pos.offset
    }

    fn from_mem_buffer(pos: &Position, mem: &'a [u8]) -> (r: Result<i32, MemBufferError>) {
        Ok(pos.offset)
    }
}

impl<'a> MemBufferDeserialize<'a, &'a [u8]> for &'a [u8] {
    open spec fn spec_decodable(pos: Position, mem: Seq<u8>) -> bool {
        in_payload(pos, mem.len() as int)
    }

    open spec fn spec_decoded(pos: Position, mem: Seq<u8>, v: &'a [u8]) -> bool {
        v@ == field_bytes(pos, mem)
    }

    fn from_mem_buffer(pos: &Position, mem: &'a [u8]) -> (r: Result<&'a [u8], MemBufferError>) {
        match field_slice(pos, mem) {
            Some(bytes) => Ok(bytes),
            None => Err(MemBufferError::WrongFormat),
        }
    }
}

/// The words that `bytes` holds, eight bytes each; a short tail is left out.
fn bytes_to_words(bytes: &[u8]) -> (r: Vec<u64>)
    ensures
        r@ == u64s_from_ne_bytes(bytes@),
{
    let total = bytes.len();
    let n = total / 8;
    let mut out: Vec<u64> = Vec::with_capacity(n);
    let mut i: usize = 0;
    while i < n
        invariant
            total == bytes@.len(),
            n == total / 8,
            0 <= i <= n,
            out@ =~= u64s_from_ne_bytes(bytes@).take(i as int),
        decreases n - i,
    {
        assert(8 * i + 8 <= total) by (nonlinear_arith)
            requires
                i < n,
                n == total / 8,
        ;
        let start = 8 * i;
        let word = read_u64_ne(&bytes[start..start + 8]);
        proof {
            let chunk = bytes@.subrange(start as int, start + 8);
            assert(chunk.subrange(0, 8) =~= chunk);
        }
        out.push(word);
        i += 1;
    }
    out
}

impl<'a> MemBufferDeserialize<'a, Vec<u64>> for Vec<u64> {
    open spec fn spec_decodable(pos: Position, mem: Seq<u8>) -> bool {
        in_payload(pos, mem.len() as int) && pos.length % 8 == 0
    }

    open spec fn spec_decoded(pos: Position, mem: Seq<u8>, v: Vec<u64>) -> bool {
        v@ == u64s_from_ne_bytes(field_bytes(pos, mem))
    }

    fn from_mem_buffer(pos: &Position, mem: &'a [u8]) -> (r: Result<Vec<u64>, MemBufferError>) {
        if pos.length % 8 != 0 {
            return Err(MemBufferError::WrongFormat);
        }
        match field_slice(pos, mem) {
            Some(bytes) => Ok(bytes_to_words(bytes)),
            None => Err(MemBufferError::WrongFormat),
        }
    }
}

} // verus!
