//! The reader: parses the descriptor table and decodes fields on demand.
use crate::byte_order::i32_from_ne_bytes;
use crate::codec::{field_slice, MemBufferDeserialize, MemBufferSerialize};
use crate::format::{field_bytes, in_payload, parse_buffer, record_at, table_of, SENTINEL};
use crate::types::{
    nat_text, type_code, unknown_field_message, unknown_field_text, InternPosition, MemBufferError,
    MemBufferTypes, Position,
};
use byteorder::{NativeEndian, ReadBytesExt};
use vstd::prelude::*;

verus! {

/// `done` in front of the records of `parsed`, the payload kept.
spec fn after_records(
    done: Seq<(i32, InternPosition)>,
    parsed: Option<(Seq<(i32, InternPosition)>, Seq<u8>)>,
) -> Option<(Seq<(i32, InternPosition)>, Seq<u8>)> {
    match parsed {
        Some(p) => Some((done + p.0, p.1)),
        None => None,
    }
}

/// Relies on std's `format!` with `{}` on a `usize`: it writes the number
/// in decimal.
#[verifier::external_body]
fn payload_size_text(n: usize) -> (r: String)
    ensures
        r@ == "Found memory buffer with payload size "@ + nat_text(n as nat),
{
    format!("Found memory buffer with payload size {}", n)
}

/// A parsed buffer. It borrows the payload from the bytes it was made from
/// and decodes a field only when asked.
#[derive(Debug)]
pub struct MemBufferReader<'a> {
    offsets: std::collections::HashMap<i32, InternPosition>,
    data: &'a [u8],
}

impl<'a> MemBufferReader<'a> {
    /// The descriptor of each key.
    pub closed spec fn table(&self) -> Map<i32, InternPosition> {
        self.offsets@
    }

    /// The bytes after the sentinel.
    pub closed spec fn payload(&self) -> Seq<u8> {
        self.data@
    }

    /// The reader's state is what `parse_buffer` makes of `bytes`.
    pub open spec fn parsed_from(&self, bytes: Seq<u8>) -> bool {
        &&& parse_buffer(bytes) is Some
        &&& self.table() == table_of(parse_buffer(bytes)->Some_0.0)
        &&& self.payload() == parse_buffer(bytes)->Some_0.1
    }

    /// Reads the first four bytes of `buffer` as an `i32` in native order.
    ///
    /// Relies on byteorder's `ReadBytesExt::read_i32::<NativeEndian>` on a
    /// byte slice: it reads the first four bytes in native order, and fails
    /// only where fewer than four are left.
    #[verifier::external_body]
    pub fn deserialize_i32_from(mut buffer: &[u8]) -> (r: i32)
        requires
            buffer@.len() >= 4,
        ensures
            r == i32_from_ne_bytes(buffer@.subrange(0, 4)),
    {
        buffer.read_i32::<NativeEndian>().unwrap()
    }

    /// The number of fields.
    pub fn len(&self) -> (r: usize)
        ensures
            r == self.table().len(),
    {
        self.offsets.len()
    }

    /// The number of payload bytes.
    pub fn payload_len(&self) -> (r: usize)
        ensures
            r == self.payload().len(),
    {
        self.data.len()
    }

    /// A line that describes the reader by its payload size.
    pub fn describe(&self) -> (r: String)
        ensures
            r@ == "Found memory buffer with payload size "@ + nat_text(self.payload().len()),
    {
        payload_size_text(self.data.len())
    }

    /// The descriptor of `key`, if there is one.
    pub fn field(&self, key: i32) -> (r: Option<&InternPosition>)
        ensures
            r is Some <==> self.table().contains_key(key),
            r matches Some(e) ==> *e == self.table()[key],
    {
        self.offsets.get(&key)
    }

    /// Looks `key` up, checks its tag against `expected_type`, and decodes it.
    fn intern_load_entry<X: MemBufferDeserialize<'a, X>>(&self, key: i32, expected_type: i32) -> (r:
        Result<X, MemBufferError>)
        ensures
            !self.table().contains_key(key) ==> (r matches Err(MemBufferError::FieldUnknown(m))
                && m@ == unknown_field_text(key)),
            self.table().contains_key(key) && self.table()[key].variable_type != expected_type
                ==> (r matches Err(MemBufferError::FieldTypeError(a, b)) && a
                == self.table()[key].variable_type && b == expected_type),
            self.table().contains_key(key) && self.table()[key].variable_type == expected_type
                ==> {
                &&& r is Ok <==> X::spec_decodable(self.table()[key].pos, self.payload())
                &&& r matches Ok(v) ==> X::spec_decoded(self.table()[key].pos, self.payload(), v)
                &&& r matches Err(e) ==> e is WrongFormat
            },
    {
        if let Some(entry) = self.offsets.get(&key) {
            let is_type = entry.variable_type;
            if is_type != expected_type {
                return Err(MemBufferError::FieldTypeError(is_type, expected_type));
            }
            return X::from_mem_buffer(&entry.pos, self.data);
        }
        Err(MemBufferError::FieldUnknown(unknown_field_message(key)))
    }

    /// Decodes field `key` as an `X`, after checking that its tag is `X`'s.
    pub fn load_entry<X: MemBufferDeserialize<'a, X> + MemBufferSerialize>(&self, key: i32) -> (r:
        Result<X, MemBufferError>)
        ensures
            !self.table().contains_key(key) ==> (r matches Err(MemBufferError::FieldUnknown(m))
                && m@ == unknown_field_text(key)),
            self.table().contains_key(key) && self.table()[key].variable_type != X::spec_type()
                ==> (r matches Err(MemBufferError::FieldTypeError(a, b)) && a
                == self.table()[key].variable_type && b == X::spec_type()),
            self.table().contains_key(key) && self.table()[key].variable_type == X::spec_type()
                ==> {
                &&& r is Ok <==> X::spec_decodable(self.table()[key].pos, self.payload())
                &&& r matches Ok(v) ==> X::spec_decoded(self.table()[key].pos, self.payload(), v)
                &&& r matches Err(e) ==> e is WrongFormat
            },
    {
        self.intern_load_entry(key, X::get_mem_buffer_type())
    }

    /// Reads field `key`, which must hold a nested buffer, as a reader of
    /// its own over that field's bytes.
    pub fn load_recursive_reader(&self, key: i32) -> (r: Result<MemBufferReader<'a>, MemBufferError>)
        ensures
            !self.table().contains_key(key) ==> (r matches Err(MemBufferError::FieldUnknown(m))
                && m@ == unknown_field_text(key)),
            self.table().contains_key(key) && self.table()[key].variable_type != type_code(
                MemBufferTypes::MemBuffer,
            ) ==> (r matches Err(MemBufferError::FieldTypeError(a, b)) && a
                == self.table()[key].variable_type && b == type_code(MemBufferTypes::MemBuffer)),
            self.table().contains_key(key) && self.table()[key].variable_type == type_code(
                MemBufferTypes::MemBuffer,
            ) ==> {
                let pos = self.table()[key].pos;
                &&& r is Ok <==> in_payload(pos, self.payload().len() as int) && parse_buffer(
                    field_bytes(pos, self.payload()),
                ) is Some
                &&& r matches Ok(inner) ==> inner.parsed_from(field_bytes(pos, self.payload()))
                &&& r matches Err(e) ==> e is WrongFormat
            },
    {
        self.intern_load_entry(key, MemBufferTypes::MemBuffer.into())
    }

    /// Parses the descriptor table at the start of `val`; the rest after the
    /// sentinel is the payload. Fails with `WrongFormat` where `val` ends
    /// before the sentinel.
    pub fn new(val: &'a [u8]) -> (r: Result<MemBufferReader<'a>, MemBufferError>)
        ensures
            r is Ok <==> parse_buffer(val@) is Some,
            r matches Ok(reader) ==> reader.parsed_from(val@),
            r matches Err(e) ==> e is WrongFormat,
    {
        let mut current_slice: &[u8] = val;
        let mut offsets: std::collections::HashMap<i32, InternPosition> =
            std::collections::HashMap::with_capacity(100);
        let ghost done: Seq<(i32, InternPosition)> = Seq::empty();

        if val.len() < 4 {
            return Err(MemBufferError::WrongFormat);
        }
        proof {
            assert(done + parse_buffer(val@)->Some_0.0 =~= parse_buffer(val@)->Some_0.0);
        }

        loop
            invariant
                current_slice@.len() >= 4,
                parse_buffer(val@) == after_records(done, parse_buffer(current_slice@)),
                offsets@ == table_of(done),
            decreases current_slice@.len(),
        {
            let ghost cur = current_slice@;
            let position_offset = MemBufferReader::deserialize_i32_from(current_slice);
            if position_offset == SENTINEL {
                let data = &current_slice[4..current_slice.len()];
                proof {
                    assert(done + Seq::<(i32, InternPosition)>::empty() =~= done);
                }
                return Ok(MemBufferReader { offsets, data });
            }
            if current_slice.len() < 20 {
                return Err(MemBufferError::WrongFormat);
            }
            let position_length = MemBufferReader::deserialize_i32_from(&current_slice[4..8]);
            let position_type = MemBufferReader::deserialize_i32_from(&current_slice[8..12]);
            let key = MemBufferReader::deserialize_i32_from(&current_slice[12..16]);
            proof {
                assert(cur.subrange(4, 8).subrange(0, 4) =~= cur.subrange(4, 8));
                assert(cur.subrange(8, 12).subrange(0, 4) =~= cur.subrange(8, 12));
                assert(cur.subrange(12, 16).subrange(0, 4) =~= cur.subrange(12, 16));
            }

            current_slice = &current_slice[16..current_slice.len()];
            let entry = InternPosition {
                pos: Position { offset: position_offset, length: position_length },
                variable_type: position_type,
            };
            offsets.insert(key, entry);
            proof {
                let rec = record_at(cur);
                assert(rec == (key, entry));
                let next = done.push(rec);
                assert(next.drop_last() =~= done);
                if let Some(rest) = parse_buffer(current_slice@) {
                    assert(done + (seq![rec] + rest.0) =~= next + rest.0);
                }
                done = next;
            }
        }
    }
}

impl<'a> MemBufferDeserialize<'a, MemBufferReader<'a>> for MemBufferReader<'a> {
    open spec fn spec_decodable(pos: Position, mem: Seq<u8>) -> bool {
        in_payload(pos, mem.len() as int) && parse_buffer(field_bytes(pos, mem)) is Some
    }

    open spec fn spec_decoded(pos: Position, mem: Seq<u8>, v: MemBufferReader<'a>) -> bool {
        v.parsed_from(field_bytes(pos, mem))
    }

    fn from_mem_buffer(pos: &Position, mem: &'a [u8]) -> (r: Result<
        MemBufferReader<'a>,
        MemBufferError,
    >) {
        match field_slice(pos, mem) {
            Some(bytes) => MemBufferReader::new(bytes),
            None => Err(MemBufferError::WrongFormat),
        }
    }
}

} // verus!
