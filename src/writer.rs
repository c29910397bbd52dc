//! The writer: collects fields, then lays them out as one buffer.
use crate::byte_order::i32_to_ne_bytes;
use crate::codec::MemBufferSerialize;
use crate::format::{buffer_bytes, has_key, header_bytes, keys_unique, put_field, SENTINEL};
use crate::types::{type_code, InternPosition, MemBufferError, MemBufferTypes, Position};
use byteorder::{NativeEndian, WriteBytesExt};
use vstd::prelude::*;
use vstd::string::StringSliceAdditionalSpecFns;

verus! {

/// Collects fields under integer keys; `finalize` turns them into a buffer.
/// A later field under a key replaces the earlier one in its place.
pub struct MemBufferWriter {
    offsets: Vec<(i32, InternPosition)>,
    data: Vec<u8>,
}

impl MemBufferWriter {
    /// The descriptor records, in the order `finalize` writes them.
    pub closed spec fn fields(&self) -> Seq<(i32, InternPosition)> {
        self.offsets@
    }

    /// The payload collected so far.
    pub closed spec fn payload(&self) -> Seq<u8> {
        self.data@
    }

    /// Keys are unique, no offset slot holds the sentinel, and the payload
    /// is no longer than an `i32` offset can reach.
    pub open spec fn wf(&self) -> bool {
        &&& keys_unique(self.fields())
        &&& forall|i: int|
            0 <= i < self.fields().len() ==> #[trigger] self.fields()[i].1.pos.offset != SENTINEL
        &&& self.payload().len() <= i32::MAX
    }

    /// An empty writer.
    pub fn new() -> (w: MemBufferWriter)
        ensures
            w.wf(),
            w.fields() == Seq::<(i32, InternPosition)>::empty(),
            w.payload() == Seq::<u8>::empty(),
    {
        MemBufferWriter { offsets: Vec::new(), data: Vec::new() }
    }

    /// Appends `val` in native byte order.
    ///
    /// Relies on byteorder's `WriteBytesExt::write_i32::<NativeEndian>` on a
    /// `Vec<u8>`: it appends the four bytes of `val` in native order, and
    /// writing to a `Vec` does not fail.
    #[verifier::external_body]
    pub fn serialize_i32_to(val: i32, to: &mut Vec<u8>)
        ensures
            final(to)@ == old(to)@ + i32_to_ne_bytes(val),
    {
        to.write_i32::<NativeEndian>(val).unwrap();
    }

    /// Sets the record for `key` to `e`, in place where the key is present.
    fn put(&mut self, key: i32, e: InternPosition)
        requires
            keys_unique(old(self).fields()),
        ensures
            final(self).fields() == put_field(old(self).fields(), key, e),
            final(self).payload() == old(self).payload(),
            keys_unique(final(self).fields()),
    {
        let mut i: usize = 0;
        while i < self.offsets.len()
            invariant
                0 <= i <= self.offsets@.len(),
                self.offsets@ == old(self).offsets@,
                self.data@ == old(self).data@,
                keys_unique(self.offsets@),
                forall|j: int| 0 <= j < i ==> #[trigger] self.offsets@[j].0 != key,
            decreases self.offsets@.len() - i,
        {
            if self.offsets[i].0 == key {
                let ghost fields = self.offsets@;
                proof {
                    assert(has_key(fields, key));
                    let c = choose|c: int| 0 <= c < fields.len() && #[trigger] fields[c].0 == key;
                    assert(c == i);
                }
                self.offsets.set(i, (key, e));
                proof {
                    assert forall|a: int, b: int|
                        0 <= a < self.offsets@.len() && 0 <= b < self.offsets@.len() && a != b
                            implies #[trigger] self.offsets@[a].0 != #[trigger] self.offsets@[b].0 by {
                        assert(fields[a].0 != fields[b].0);
                    }
                }
                return;
            }
            i += 1;
        }
        let ghost fields = self.offsets@;
        self.offsets.push((key, e));
        proof {
            assert forall|a: int, b: int|
                0 <= a < self.offsets@.len() && 0 <= b < self.offsets@.len() && a != b
                    implies #[trigger] self.offsets@[a].0 != #[trigger] self.offsets@[b].0 by {
                if a < fields.len() && b < fields.len() {
                    assert(fields[a].0 != fields[b].0);
                }
            }
        }
    }

    /// Adds `val` as the field `key`: its bytes go to the end of the
    /// payload, and its descriptor replaces any earlier one for `key`.
    /// The offset slot may not hold the sentinel, which would end the table
    /// early: neither an inline value equal to it nor a payload of exactly
    /// that many bytes can take a new field.
    pub fn add_entry<T: MemBufferSerialize>(&mut self, key: i32, val: T)
        requires
            old(self).wf(),
            old(self).payload().len() + val.spec_encoded().len() <= i32::MAX,
            val.spec_offset(old(self).payload().len() as i32) != SENTINEL,
        ensures
            final(self).wf(),
            final(self).payload() == old(self).payload() + val.spec_encoded(),
            final(self).fields() == put_field(
                old(self).fields(),
                key,
                InternPosition {
                    pos: Position {
                        offset: val.spec_offset(old(self).payload().len() as i32),
                        length: val.spec_encoded().len() as i32,
                    },
                    variable_type: T::spec_type(),
                },
            ),
    {
        let mut position = Position { offset: self.data.len() as i32, length: 0 };
        let slice = val.to_mem_buffer(&mut position);
        let bytes: &[u8] = match &slice {
            std::borrow::Cow::Borrowed(b) => b,
            std::borrow::Cow::Owned(o) => o.as_slice(),
        };
        position.length = bytes.len() as i32;
        let entry = InternPosition { pos: position, variable_type: T::get_mem_buffer_type() };
        let ghost before = self.offsets@;
        self.put(key, entry);
        self.data.extend_from_slice(bytes);
        proof {
            assert(self.data@ =~= old(self).data@ + val.spec_encoded());
            assert forall|i: int| 0 <= i < self.offsets@.len() implies #[trigger] self.offsets@[i].1.pos.offset
                != SENTINEL by {
                if has_key(before, key) {
                    let c = choose|c: int| 0 <= c < before.len() && #[trigger] before[c].0 == key;
                    if i != c {
                        assert(self.offsets@[i] == before[i]);
                    }
                } else if i < before.len() {
                    assert(self.offsets@[i] == before[i]);
                }
            }
        }
    }

    /// Adds `text` as the Text field `key` where the payload can still
    /// address it; otherwise fails with `WrongFormat` and changes nothing.
    pub fn try_add_text(&mut self, key: i32, text: &str) -> (r: Result<(), MemBufferError>)
        requires
            old(self).wf(),
        ensures
            final(self).wf(),
            r is Ok <==> old(self).payload().len() + text.spec_bytes().len() <= i32::MAX
                && old(self).payload().len() != SENTINEL,
            r is Ok ==> final(self).payload() == old(self).payload() + text.spec_bytes(),
            r is Ok ==> final(self).fields() == put_field(
                old(self).fields(),
                key,
                InternPosition {
                    pos: Position {
                        offset: old(self).payload().len() as i32,
                        length: text.spec_bytes().len() as i32,
                    },
                    variable_type: type_code(MemBufferTypes::Text),
                },
            ),
            r matches Err(e) ==> e is WrongFormat && final(self).fields() == old(self).fields()
                && final(self).payload() == old(self).payload(),
    {
        let used = self.data.len();
        let size = text.as_bytes().len();
        let limit = i32::MAX as usize;
        if size > limit || used > limit - size || used == SENTINEL as usize {
            return Err(MemBufferError::WrongFormat);
        }
        self.add_entry(key, text);
        Ok(())
    }

    /// The buffer: each descriptor in order, the sentinel, then the payload.
    /// The writer is left as it was, so every call gives the same bytes.
    pub fn finalize(&self) -> (r: Vec<u8>)
        ensures
            r@ == buffer_bytes(self.fields(), self.payload()),
    {
        let mut var: Vec<u8> = Vec::new();
        let mut i: usize = 0;
        while i < self.offsets.len()
            invariant
                0 <= i <= self.offsets@.len(),
                var@ == header_bytes(self.offsets@.take(i as int)),
            decreases self.offsets@.len() - i,
        {
            let (key, val) = self.offsets[i];
            MemBufferWriter::serialize_i32_to(val.pos.offset, &mut var);
            MemBufferWriter::serialize_i32_to(val.pos.length, &mut var);
            MemBufferWriter::serialize_i32_to(val.variable_type, &mut var);
            MemBufferWriter::serialize_i32_to(key, &mut var);
            proof {
                let next = self.offsets@.take(i + 1);
                assert(next.drop_last() =~= self.offsets@.take(i as int));
                assert(next.last() == self.offsets@[i as int]);
                assert(var@ =~= header_bytes(next));
            }
            i += 1;
        }
        MemBufferWriter::serialize_i32_to(SENTINEL, &mut var);
        var.extend_from_slice(self.data.as_slice());
        proof {
            assert(self.offsets@.take(i as int) =~= self.offsets@);
            assert(var@ =~= buffer_bytes(self.fields(), self.payload()));
        }
        var
    }
}

impl MemBufferSerialize for MemBufferWriter {
    open spec fn spec_type() -> i32 {
        type_code(MemBufferTypes::MemBuffer)
    }

    open spec fn spec_encoded(&self) -> Seq<u8> {
        buffer_bytes(self.fields(), self.payload())
    }

    open spec fn spec_offset(&self, at: i32) -> i32 {
        at
    }

    fn to_mem_buffer<'a>(&'a self, pos: &mut Position) -> (r: std::borrow::Cow<'a, [u8]>) {
        std::borrow::Cow::Owned(self.finalize())
    }

    fn get_mem_buffer_type() -> (r: i32) {
        MemBufferTypes::MemBuffer.into()
    }
}

} // verus!
