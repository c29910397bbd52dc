//! The round trip of a whole sequence of writes, stated over a model of the
//! built-in values and of what `add_entry` does with each.
use crate::byte_order::{u64s_from_ne_bytes, u64s_to_ne_bytes};
use crate::format::{
    buffer_bytes, field_bytes, has_key, in_payload, keys_unique, parse_buffer, put_field, table_of,
    SENTINEL,
};
use crate::laws::{
    law_appended_field, law_buffer_round_trip, law_field_bytes_kept, law_put_field,
    law_u64s_round_trip, no_sentinel_offset,
};
use crate::types::{type_code, InternPosition, MemBufferTypes, Position};
use vstd::prelude::*;
use vstd::utf8::{decode_utf8, encode_utf8, encode_utf8_decode_utf8, encode_utf8_valid_utf8, valid_utf8};

verus! {

/// A value of a built-in type, as the codecs see it: text by its
/// characters, a nested buffer by its records and payload.
pub enum FieldValue {
    Text(Seq<char>),
    Integer(i32),
    Bytes(Seq<u8>),
    Words(Seq<u64>),
    Nested(Seq<(i32, InternPosition)>, Seq<u8>),
}

/// The tag that a value is stored under.
pub open spec fn value_tag(v: FieldValue) -> i32 {
    match v {
        FieldValue::Text(_) => type_code(MemBufferTypes::Text),
        FieldValue::Integer(_) => type_code(MemBufferTypes::Integer32),
        FieldValue::Bytes(_) => type_code(MemBufferTypes::VectorU8),
        FieldValue::Words(_) => type_code(MemBufferTypes::VectorU64),
        FieldValue::Nested(_, _) => type_code(MemBufferTypes::MemBuffer),
    }
}

/// The bytes that a value adds to the payload.
pub open spec fn value_bytes(v: FieldValue) -> Seq<u8> {
    match v {
        FieldValue::Text(c) => encode_utf8(c),
        FieldValue::Integer(_) => Seq::empty(),
        FieldValue::Bytes(b) => b,
        FieldValue::Words(w) => u64s_to_ne_bytes(w),
        FieldValue::Nested(f, p) => buffer_bytes(f, p),
    }
}

/// What the offset slot holds when the payload had `at` bytes before.
pub open spec fn value_offset(v: FieldValue, at: i32) -> i32 {
    match v {
        FieldValue::Integer(x) => x,
        _ => at,
    }
}

/// The writer's records and payload after one more write of `v` under `key`,
/// as `add_entry` states it.
pub open spec fn add_value(
    state: (Seq<(i32, InternPosition)>, Seq<u8>),
    key: i32,
    v: FieldValue,
) -> (Seq<(i32, InternPosition)>, Seq<u8>) {
    let d = InternPosition {
        pos: Position {
            offset: value_offset(v, state.1.len() as i32),
            length: value_bytes(v).len() as i32,
        },
        variable_type: value_tag(v),
    };
    (put_field(state.0, key, d), state.1 + value_bytes(v))
}

/// The records and payload of a new writer after the writes `vals`, in order.
pub open spec fn write_all(vals: Seq<(i32, FieldValue)>) -> (Seq<(i32, InternPosition)>, Seq<u8>)
    decreases vals.len(),
{
    if vals.len() == 0 {
        (Seq::empty(), Seq::empty())
    } else {
        add_value(write_all(vals.drop_last()), vals.last().0, vals.last().1)
    }
}

/// Every write in `vals` meets what `add_entry` requires, and each nested
/// buffer comes from a well-formed writer.
pub open spec fn writes_fit(vals: Seq<(i32, FieldValue)>) -> bool
    decreases vals.len(),
{
    vals.len() == 0 || {
        let before = write_all(vals.drop_last());
        let v = vals.last().1;
        &&& writes_fit(vals.drop_last())
        &&& before.1.len() + value_bytes(v).len() <= i32::MAX
        &&& value_offset(v, before.1.len() as i32) != SENTINEL
        &&& v matches FieldValue::Nested(f, _) ==> keys_unique(f) && no_sentinel_offset(f)
    }
}

/// The value written last under `key`, if any.
pub open spec fn last_value(vals: Seq<(i32, FieldValue)>, key: i32) -> Option<FieldValue>
    decreases vals.len(),
{
    if vals.len() == 0 {
        None
    } else if vals.last().0 == key {
        Some(vals.last().1)
    } else {
        last_value(vals.drop_last(), key)
    }
}

/// The descriptor `d` over `payload` decodes, with the codec of `v`'s type,
/// to `v`: these are the decoding conditions of the built-in codecs.
pub open spec fn decodes_as(d: InternPosition, payload: Seq<u8>, v: FieldValue) -> bool {
    &&& d.variable_type == value_tag(v)
    &&& match v {
        FieldValue::Text(c) => in_payload(d.pos, payload.len() as int) && valid_utf8(
            field_bytes(d.pos, payload),
        ) && decode_utf8(field_bytes(d.pos, payload)) == c,
        FieldValue::Integer(x) => d.pos.offset == x,
        FieldValue::Bytes(b) => in_payload(d.pos, payload.len() as int) && field_bytes(
            d.pos,
            payload,
        ) == b,
        FieldValue::Words(w) => in_payload(d.pos, payload.len() as int) && d.pos.length % 8 == 0
            && u64s_from_ne_bytes(field_bytes(d.pos, payload)) == w,
        FieldValue::Nested(f, p) => in_payload(d.pos, payload.len() as int) && parse_buffer(
            field_bytes(d.pos, payload),
        ) == Some((f, p)),
    }
}

proof fn lemma_decodes_as_kept(d: InternPosition, payload: Seq<u8>, more: Seq<u8>, v: FieldValue)
    requires
        decodes_as(d, payload, v),
    ensures
        decodes_as(d, payload + more, v),
{
    if !(v is Integer) {
        law_field_bytes_kept(d.pos, payload, more);
    }
}

/// Writing any sequence of built-in values under keys, then finalizing,
/// gives a buffer that parses back to the writer's records and payload;
/// the keys found are exactly those written, and each decodes to the value
/// written last under it.
pub proof fn law_write_all_round_trip(vals: Seq<(i32, FieldValue)>)
    requires
        writes_fit(vals),
    ensures
        keys_unique(write_all(vals).0),
        no_sentinel_offset(write_all(vals).0),
        write_all(vals).1.len() <= i32::MAX,
        parse_buffer(buffer_bytes(write_all(vals).0, write_all(vals).1)) == Some(write_all(vals)),
        forall|k: i32| #[trigger]
            table_of(write_all(vals).0).contains_key(k) <==> last_value(vals, k) is Some,
        forall|k: i32| #[trigger]
            last_value(vals, k) is Some ==> decodes_as(
                table_of(write_all(vals).0)[k],
                write_all(vals).1,
                last_value(vals, k)->Some_0,
            ),
    decreases vals.len(),
{
    let (fields, payload) = write_all(vals);
    if vals.len() > 0 {
        let init = vals.drop_last();
        let (key, v) = vals.last();
        let (earlier_fields, earlier_payload) = write_all(init);
        law_write_all_round_trip(init);
        let bytes = value_bytes(v);
        let d = InternPosition {
            pos: Position { offset: value_offset(v, earlier_payload.len() as i32), length: bytes.len() as i32 },
            variable_type: value_tag(v),
        };
        assert(fields == put_field(earlier_fields, key, d));
        assert(payload == earlier_payload + bytes);
        law_put_field(earlier_fields, key, d);
        assert(no_sentinel_offset(fields)) by {
            assert forall|i: int| 0 <= i < fields.len() implies #[trigger] fields[i].1.pos.offset
                != SENTINEL by {
                if has_key(earlier_fields, key) {
                    let c = choose|c: int| 0 <= c < earlier_fields.len() && #[trigger] earlier_fields[c].0 == key;
                    if i != c {
                        assert(fields[i] == earlier_fields[i]);
                    }
                } else if i < earlier_fields.len() {
                    assert(fields[i] == earlier_fields[i]);
                }
            }
        }
        assert(decodes_as(d, payload, v)) by {
            if !(v is Integer) {
                law_appended_field(earlier_payload, bytes);
            }
            match v {
                FieldValue::Text(c) => {
                    encode_utf8_valid_utf8(c);
                    encode_utf8_decode_utf8(c);
                },
                FieldValue::Words(w) => {
                    law_u64s_round_trip(w);
                    assert((8 * w.len()) % 8 == 0) by (nonlinear_arith);
                },
                FieldValue::Nested(f, p) => {
                    law_buffer_round_trip(f, p);
                },
                _ => {},
            }
        }
        assert forall|k: i32| #[trigger]
            last_value(vals, k) is Some implies decodes_as(
            table_of(fields)[k],
            payload,
            last_value(vals, k)->Some_0,
        ) by {
            if k != key {
                let x = last_value(init, k)->Some_0;
                lemma_decodes_as_kept(table_of(earlier_fields)[k], earlier_payload, bytes, x);
            }
        }
        assert forall|k: i32| #[trigger]
            table_of(fields).contains_key(k) <==> last_value(vals, k) is Some by {
            if k != key {
                assert(table_of(fields).contains_key(k) == table_of(earlier_fields).contains_key(k));
            }
        }
    }
    law_buffer_round_trip(fields, payload);
}

} // verus!
