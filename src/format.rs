//! The wire format as mathematics: what `finalize` writes and what a
//! reader makes of a byte sequence.
use crate::byte_order::{i32_from_ne_bytes, i32_to_ne_bytes};
use crate::types::{InternPosition, Position};
use vstd::prelude::*;

verus! {

/// The value in an offset slot that ends the descriptor table.
pub const SENTINEL: i32 = 0x7AFECAFE;

/// The bytes of one descriptor record: offset, length, tag and key.
pub open spec fn record_bytes(key: i32, e: InternPosition) -> Seq<u8> {
    i32_to_ne_bytes(e.pos.offset) + i32_to_ne_bytes(e.pos.length) + i32_to_ne_bytes(
        e.variable_type,
    ) + i32_to_ne_bytes(key)
}

/// The descriptor table for `fields`, in their order, without the sentinel.
pub open spec fn header_bytes(fields: Seq<(i32, InternPosition)>) -> Seq<u8>
    decreases fields.len(),
{
    if fields.len() == 0 {
        Seq::empty()
    } else {
        header_bytes(fields.drop_last()) + record_bytes(fields.last().0, fields.last().1)
    }
}

/// A whole buffer: the descriptor table, the sentinel, then the payload.
pub open spec fn buffer_bytes(fields: Seq<(i32, InternPosition)>, payload: Seq<u8>) -> Seq<u8> {
    header_bytes(fields) + i32_to_ne_bytes(SENTINEL) + payload
}

/// The record that the first sixteen bytes of `b` hold, as (key, descriptor).
pub open spec fn record_at(b: Seq<u8>) -> (i32, InternPosition) {
    (
        i32_from_ne_bytes(b.subrange(12, 16)),
        InternPosition {
            pos: Position {
                offset: i32_from_ne_bytes(b.subrange(0, 4)),
                length: i32_from_ne_bytes(b.subrange(4, 8)),
            },
            variable_type: i32_from_ne_bytes(b.subrange(8, 12)),
        },
    )
}

/// The records of the descriptor table at the start of `b`, in order, and
/// the payload after the sentinel; `None` where `b` ends before a sentinel
/// is found (a record must be followed by at least four more bytes).
pub open spec fn parse_buffer(b: Seq<u8>) -> Option<(Seq<(i32, InternPosition)>, Seq<u8>)>
    decreases b.len(),
{
    if b.len() < 4 {
        None
    } else if i32_from_ne_bytes(b.subrange(0, 4)) == SENTINEL {
        Some((Seq::empty(), b.subrange(4, b.len() as int)))
    } else if b.len() < 20 {
        None
    } else {
        match parse_buffer(b.subrange(16, b.len() as int)) {
            Some(rest) => Some((seq![record_at(b)] + rest.0, rest.1)),
            None => None,
        }
    }
}

/// The lookup table that records give when each one replaces any earlier
/// record with the same key.
pub open spec fn table_of(fields: Seq<(i32, InternPosition)>) -> Map<i32, InternPosition>
    decreases fields.len(),
{
    if fields.len() == 0 {
        Map::empty()
    } else {
        table_of(fields.drop_last()).insert(fields.last().0, fields.last().1)
    }
}

/// No two records share a key.
pub open spec fn keys_unique(fields: Seq<(i32, InternPosition)>) -> bool {
    forall|i: int, j: int|
        0 <= i < fields.len() && 0 <= j < fields.len() && i != j ==> #[trigger] fields[i].0
            != #[trigger] fields[j].0
}

/// Whether some record has key `key`.
pub open spec fn has_key(fields: Seq<(i32, InternPosition)>, key: i32) -> bool {
    exists|i: int| 0 <= i < fields.len() && #[trigger] fields[i].0 == key
}

/// `fields` with the record for `key` set to `e`: in place where the key is
/// present, else appended.
pub open spec fn put_field(fields: Seq<(i32, InternPosition)>, key: i32, e: InternPosition) -> Seq<
    (i32, InternPosition),
> {
    if has_key(fields, key) {
        fields.update(choose|i: int| 0 <= i < fields.len() && #[trigger] fields[i].0 == key, (key, e))
    } else {
        fields.push((key, e))
    }
}

/// `length` bytes from `offset` lie inside a payload of `len` bytes.
pub open spec fn in_payload(pos: Position, len: int) -> bool {
    0 <= pos.offset && 0 <= pos.length && pos.offset + pos.length <= len
}

/// The bytes of the field at `pos`.
pub open spec fn field_bytes(pos: Position, mem: Seq<u8>) -> Seq<u8> {
    mem.subrange(pos.offset as int, pos.offset + pos.length)
}

} // verus!
