//! Laws of the format, proved over the spec functions that the writer's and
//! the reader's contracts use.
use crate::byte_order::{
    i32_to_ne_bytes, lemma_i32_ne_round_trip, lemma_u64_ne_round_trip, u64_to_ne_bytes,
    u64s_from_ne_bytes, u64s_to_ne_bytes,
};
use crate::format::{
    buffer_bytes, field_bytes, has_key, header_bytes, in_payload, keys_unique, parse_buffer,
    put_field, record_at, record_bytes, table_of, SENTINEL,
};
use crate::codec::{MemBufferDeserialize, MemBufferSerialize};
use crate::reader::MemBufferReader;
use crate::types::{type_code, InternPosition, MemBufferTypes, Position};
use crate::writer::MemBufferWriter;
use vstd::prelude::*;
use vstd::utf8::{encode_utf8_decode_utf8, encode_utf8_valid_utf8};

verus! {

/// No record's offset slot holds the sentinel.
pub open spec fn no_sentinel_offset(fields: Seq<(i32, InternPosition)>) -> bool {
    forall|i: int| 0 <= i < fields.len() ==> #[trigger] fields[i].1.pos.offset != SENTINEL
}

proof fn lemma_record_bytes(key: i32, e: InternPosition)
    ensures
        record_bytes(key, e).len() == 16,
        record_bytes(key, e).subrange(0, 4) == i32_to_ne_bytes(e.pos.offset),
        record_bytes(key, e).subrange(4, 8) == i32_to_ne_bytes(e.pos.length),
        record_bytes(key, e).subrange(8, 12) == i32_to_ne_bytes(e.variable_type),
        record_bytes(key, e).subrange(12, 16) == i32_to_ne_bytes(key),
{
    lemma_i32_ne_round_trip(e.pos.offset);
    lemma_i32_ne_round_trip(e.pos.length);
    lemma_i32_ne_round_trip(e.variable_type);
    lemma_i32_ne_round_trip(key);
    let r = record_bytes(key, e);
    assert(r.subrange(0, 4) =~= i32_to_ne_bytes(e.pos.offset));
    assert(r.subrange(4, 8) =~= i32_to_ne_bytes(e.pos.length));
    assert(r.subrange(8, 12) =~= i32_to_ne_bytes(e.variable_type));
    assert(r.subrange(12, 16) =~= i32_to_ne_bytes(key));
}

/// The table of a record in front of others starts with that record's bytes.
proof fn lemma_header_cons(f: (i32, InternPosition), rest: Seq<(i32, InternPosition)>)
    ensures
        header_bytes(seq![f] + rest) == record_bytes(f.0, f.1) + header_bytes(rest),
        header_bytes(rest).len() == 16 * rest.len(),
    decreases rest.len(),
{
    let s = seq![f] + rest;
    lemma_record_bytes(f.0, f.1);
    if rest.len() == 0 {
        assert(s.drop_last() =~= Seq::<(i32, InternPosition)>::empty());
        assert(s.last() == f);
        assert(header_bytes(Seq::<(i32, InternPosition)>::empty()) =~= Seq::<u8>::empty());
        assert(header_bytes(rest) =~= Seq::<u8>::empty());
        assert(header_bytes(s) =~= record_bytes(f.0, f.1) + header_bytes(rest));
    } else {
        assert(s.drop_last() =~= seq![f] + rest.drop_last());
        lemma_header_cons(f, rest.drop_last());
        lemma_record_bytes(rest.last().0, rest.last().1);
        assert(s.last() == rest.last());
        assert(header_bytes(s) =~= record_bytes(f.0, f.1) + header_bytes(rest));
    }
}

/// A buffer is sixteen bytes per record, four for the sentinel, then the
/// payload.
pub proof fn law_buffer_len(fields: Seq<(i32, InternPosition)>, payload: Seq<u8>)
    ensures
        header_bytes(fields).len() == 16 * fields.len(),
        buffer_bytes(fields, payload).len() == 16 * fields.len() + 4 + payload.len(),
{
    lemma_i32_ne_round_trip(SENTINEL);
    if fields.len() == 0 {
        assert(header_bytes(fields) =~= Seq::<u8>::empty());
    } else {
        assert(fields =~= seq![fields[0]] + fields.drop_first());
        lemma_header_cons(fields[0], fields.drop_first());
        lemma_record_bytes(fields[0].0, fields[0].1);
    }
}

/// Parsing a finalized buffer gives back its records, in order, and its
/// payload, whenever no offset slot holds the sentinel.
pub proof fn law_buffer_round_trip(fields: Seq<(i32, InternPosition)>, payload: Seq<u8>)
    requires
        no_sentinel_offset(fields),
    ensures
        parse_buffer(buffer_bytes(fields, payload)) == Some((fields, payload)),
    decreases fields.len(),
{
    let b = buffer_bytes(fields, payload);
    let s = i32_to_ne_bytes(SENTINEL);
    lemma_i32_ne_round_trip(SENTINEL);
    if fields.len() == 0 {
        assert(header_bytes(fields) =~= Seq::<u8>::empty());
        assert(b.subrange(0, 4) =~= s);
        assert(b.subrange(4, b.len() as int) =~= payload);
        assert(fields =~= Seq::<(i32, InternPosition)>::empty());
    } else {
        let f = fields[0];
        let rest = fields.drop_first();
        assert(fields =~= seq![f] + rest);
        lemma_header_cons(f, rest);
        lemma_record_bytes(f.0, f.1);
        lemma_i32_ne_round_trip(f.1.pos.offset);
        lemma_i32_ne_round_trip(f.1.pos.length);
        lemma_i32_ne_round_trip(f.1.variable_type);
        lemma_i32_ne_round_trip(f.0);
        let rb = record_bytes(f.0, f.1);
        let tail = buffer_bytes(rest, payload);
        assert(b =~= rb + tail);
        assert(no_sentinel_offset(rest)) by {
            assert forall|i: int| 0 <= i < rest.len() implies #[trigger] rest[i].1.pos.offset
                != SENTINEL by {
                assert(rest[i] == fields[i + 1]);
            }
        }
        law_buffer_round_trip(rest, payload);
        assert(f.1.pos.offset != SENTINEL) by {
            assert(fields[0] == f);
        }
        assert(b.subrange(0, 4) =~= rb.subrange(0, 4));
        assert(b.subrange(4, 8) =~= rb.subrange(4, 8));
        assert(b.subrange(8, 12) =~= rb.subrange(8, 12));
        assert(b.subrange(12, 16) =~= rb.subrange(12, 16));
        assert(b.subrange(16, b.len() as int) =~= tail);
        assert(record_at(b) == f);
    }
}

/// A buffer cut anywhere before the end of its sentinel does not parse,
/// whenever no offset slot holds the sentinel.
pub proof fn law_truncated_buffer(fields: Seq<(i32, InternPosition)>, payload: Seq<u8>, n: int)
    requires
        no_sentinel_offset(fields),
        0 <= n < 16 * fields.len() + 4,
    ensures
        parse_buffer(buffer_bytes(fields, payload).take(n)) is None,
    decreases fields.len(),
{
    let b = buffer_bytes(fields, payload);
    let t = b.take(n);
    lemma_i32_ne_round_trip(SENTINEL);
    if n >= 4 && fields.len() > 0 {
        let f = fields[0];
        let rest = fields.drop_first();
        assert(fields =~= seq![f] + rest);
        lemma_header_cons(f, rest);
        lemma_record_bytes(f.0, f.1);
        lemma_i32_ne_round_trip(f.1.pos.offset);
        let rb = record_bytes(f.0, f.1);
        let tail = buffer_bytes(rest, payload);
        assert(b =~= rb + tail);
        assert(f.1.pos.offset != SENTINEL) by {
            assert(fields[0] == f);
        }
        assert(t.subrange(0, 4) =~= rb.subrange(0, 4));
        if n >= 20 {
            assert(no_sentinel_offset(rest)) by {
                assert forall|i: int| 0 <= i < rest.len() implies #[trigger] rest[i].1.pos.offset
                    != SENTINEL by {
                    assert(rest[i] == fields[i + 1]);
                }
            }
            law_truncated_buffer(rest, payload, n - 16);
            assert(t.subrange(16, t.len() as int) =~= tail.take(n - 16));
        }
    }
}

/// With unique keys, the table holds each record under its key, and holds
/// exactly the keys of the records.
pub proof fn law_table_of_unique(fields: Seq<(i32, InternPosition)>)
    requires
        keys_unique(fields),
    ensures
        forall|i: int|
            0 <= i < fields.len() ==> table_of(fields).contains_key(#[trigger] fields[i].0)
                && table_of(fields)[fields[i].0] == fields[i].1,
        forall|k: i32| #[trigger] table_of(fields).contains_key(k) <==> has_key(fields, k),
    decreases fields.len(),
{
    if fields.len() > 0 {
        let init = fields.drop_last();
        let last = fields.last();
        assert(keys_unique(init)) by {
            assert forall|i: int, j: int|
                0 <= i < init.len() && 0 <= j < init.len() && i != j implies #[trigger] init[i].0
                != #[trigger] init[j].0 by {
                assert(fields[i].0 != fields[j].0);
            }
        }
        law_table_of_unique(init);
        assert forall|i: int| 0 <= i < fields.len() implies table_of(fields).contains_key(
            #[trigger] fields[i].0,
        ) && table_of(fields)[fields[i].0] == fields[i].1 by {
            if i < fields.len() - 1 {
                assert(init[i] == fields[i]);
                assert(fields[i].0 != fields[fields.len() - 1].0);
            }
        }
        assert forall|k: i32| #[trigger] table_of(fields).contains_key(k) <==> has_key(
            fields,
            k,
        ) by {
            if has_key(fields, k) {
                let i = choose|i: int| 0 <= i < fields.len() && #[trigger] fields[i].0 == k;
                assert(table_of(fields).contains_key(fields[i].0));
            }
            if table_of(fields).contains_key(k) {
                if k == last.0 {
                    assert(fields[fields.len() - 1].0 == k);
                } else {
                    assert(table_of(init).contains_key(k));
                    assert(has_key(init, k));
                    let i = choose|i: int| 0 <= i < init.len() && #[trigger] init[i].0 == k;
                    assert(init[i] == fields[i]);
                    assert(fields[i].0 == k);
                }
            }
        }
    }
}

/// Setting a record keeps keys unique, and the table then maps the key to
/// the new record and every other key as before: the last write wins.
pub proof fn law_put_field(fields: Seq<(i32, InternPosition)>, key: i32, e: InternPosition)
    requires
        keys_unique(fields),
    ensures
        keys_unique(put_field(fields, key, e)),
        table_of(put_field(fields, key, e)) == table_of(fields).insert(key, e),
{
    let p = put_field(fields, key, e);
    if has_key(fields, key) {
        let c = choose|c: int| 0 <= c < fields.len() && #[trigger] fields[c].0 == key;
        assert(p == fields.update(c, (key, e)));
        assert forall|i: int, j: int|
            0 <= i < p.len() && 0 <= j < p.len() && i != j implies #[trigger] p[i].0
            != #[trigger] p[j].0 by {
            assert(fields[i].0 != fields[j].0);
        }
    } else {
        assert forall|i: int, j: int|
            0 <= i < p.len() && 0 <= j < p.len() && i != j implies #[trigger] p[i].0
            != #[trigger] p[j].0 by {
            if i < fields.len() && j < fields.len() {
                assert(fields[i].0 != fields[j].0);
            } else if i < fields.len() {
                assert(fields[i].0 == p[i].0);
            } else {
                assert(fields[j].0 == p[j].0);
            }
        }
    }
    law_table_of_unique(fields);
    law_table_of_unique(p);
    let m = table_of(fields).insert(key, e);
    assert forall|k: i32| #[trigger] table_of(p).contains_key(k) <==> m.contains_key(k) by {
        if has_key(p, k) && k != key {
            let i = choose|i: int| 0 <= i < p.len() && #[trigger] p[i].0 == k;
            assert(fields[i].0 == k);
        }
        if has_key(fields, k) {
            let i = choose|i: int| 0 <= i < fields.len() && #[trigger] fields[i].0 == k;
            assert(p[i].0 == k);
        }
        if k == key {
            if has_key(fields, key) {
                let c = choose|c: int| 0 <= c < fields.len() && #[trigger] fields[c].0 == key;
                assert(p[c].0 == key);
            } else {
                assert(p[fields.len() as int].0 == key);
            }
        }
    }
    assert forall|k: i32| #[trigger] table_of(p).contains_key(k) implies table_of(p)[k] == m[k] by {
        let i = choose|i: int| 0 <= i < p.len() && #[trigger] p[i].0 == k;
        assert(table_of(p)[p[i].0] == p[i].1);
        if k == key {
            assert(p[i] == (key, e));
        } else {
            assert(p[i] == fields[i]);
            assert(table_of(fields)[fields[i].0] == fields[i].1);
        }
    }
    assert(table_of(p) =~= m);
}

/// Bytes that lie inside a payload stay the same when more is appended.
pub proof fn law_field_bytes_kept(pos: crate::types::Position, payload: Seq<u8>, more: Seq<u8>)
    requires
        in_payload(pos, payload.len() as int),
    ensures
        in_payload(pos, (payload + more).len() as int),
        field_bytes(pos, payload + more) == field_bytes(pos, payload),
{
    assert(field_bytes(pos, payload + more) =~= field_bytes(pos, payload));
}

/// The bytes appended last to a payload are the field that starts where
/// the payload ended.
pub proof fn law_appended_field(payload: Seq<u8>, bytes: Seq<u8>)
    requires
        payload.len() + bytes.len() <= i32::MAX,
    ensures
        ({
            let pos = crate::types::Position {
                offset: payload.len() as i32,
                length: bytes.len() as i32,
            };
            in_payload(pos, (payload + bytes).len() as int) && field_bytes(pos, payload + bytes)
                == bytes
        }),
{
    let pos = crate::types::Position { offset: payload.len() as i32, length: bytes.len() as i32 };
    assert(field_bytes(pos, payload + bytes) =~= bytes);
}

/// Words written one after another read back as the same words.
pub proof fn law_u64s_round_trip(words: Seq<u64>)
    ensures
        u64s_to_ne_bytes(words).len() == 8 * words.len(),
        u64s_from_ne_bytes(u64s_to_ne_bytes(words)) == words,
    decreases words.len(),
{
    if words.len() > 0 {
        let init = words.drop_last();
        let x = u64s_to_ne_bytes(init);
        let y = u64_to_ne_bytes(words.last());
        law_u64s_round_trip(init);
        lemma_u64_ne_round_trip(words.last());
        let b = x + y;
        let n = words.len();
        assert(b.len() == 8 * n);
        assert(b.len() / 8 == n) by (nonlinear_arith)
            requires
                b.len() == 8 * n,
        ;
        let d = u64s_from_ne_bytes(b);
        assert forall|i: int| 0 <= i < n implies #[trigger] d[i] == words[i] by {
            if i < n - 1 {
                assert(b.subrange(8 * i, 8 * i + 8) =~= x.subrange(8 * i, 8 * i + 8));
                assert(u64s_from_ne_bytes(x)[i] == init[i]);
            } else {
                assert(b.subrange(8 * i, 8 * i + 8) =~= y);
            }
        }
        assert(d =~= words);
    }
}

/// A reader made from a writer's finalized bytes holds the writer's payload,
/// finds every key that was written, under the descriptor written last for
/// it, and finds no other key.
pub proof fn law_reader_of_writer<'a>(w: MemBufferWriter, r: MemBufferReader<'a>)
    requires
        w.wf(),
        r.parsed_from(buffer_bytes(w.fields(), w.payload())),
    ensures
        r.table() == table_of(w.fields()),
        r.payload() == w.payload(),
        forall|i: int|
            0 <= i < w.fields().len() ==> r.table().contains_key(#[trigger] w.fields()[i].0)
                && r.table()[w.fields()[i].0] == w.fields()[i].1,
        forall|k: i32| #[trigger] r.table().contains_key(k) <==> has_key(w.fields(), k),
{
    law_buffer_round_trip(w.fields(), w.payload());
    law_table_of_unique(w.fields());
}

/// The built-in tags differ from each other and lie below the first tag
/// left to users, so reading a field as another built-in type is a
/// mismatch that names both tags.
pub proof fn law_builtin_tags_distinct()
    ensures
        <&str as MemBufferSerialize>::spec_type() == type_code(MemBufferTypes::Text),
        <&String as MemBufferSerialize>::spec_type() == type_code(MemBufferTypes::Text),
        <i32 as MemBufferSerialize>::spec_type() == type_code(MemBufferTypes::Integer32),
        <&[u8] as MemBufferSerialize>::spec_type() == type_code(MemBufferTypes::VectorU8),
        <&[u64] as MemBufferSerialize>::spec_type() == type_code(MemBufferTypes::VectorU64),
        <Vec<u64> as MemBufferSerialize>::spec_type() == type_code(MemBufferTypes::VectorU64),
        <MemBufferWriter as MemBufferSerialize>::spec_type() == type_code(
            MemBufferTypes::MemBuffer,
        ),
        forall|a: MemBufferTypes, b: MemBufferTypes|
            #[trigger] type_code(a) == #[trigger] type_code(b) ==> a == b,
        forall|a: MemBufferTypes|
            a != MemBufferTypes::LastPreDefienedValue ==> #[trigger] type_code(a) < type_code(
                MemBufferTypes::LastPreDefienedValue,
            ),
{
}

/// Text written as a field reads back as the same characters.
pub proof fn law_text_round_trip<'a>(s: &str, pos: Position, mem: Seq<u8>)
    requires
        in_payload(pos, mem.len() as int),
        field_bytes(pos, mem) == <&str as MemBufferSerialize>::spec_encoded(&s),
    ensures
        <&'a str as MemBufferDeserialize<'a, &'a str>>::spec_decodable(pos, mem),
        forall|v: &'a str|
            #[trigger] <&'a str as MemBufferDeserialize<'a, &'a str>>::spec_decoded(pos, mem, v)
                ==> v@ == s@,
{
    encode_utf8_valid_utf8(s@);
    encode_utf8_decode_utf8(s@);
}

/// A byte vector written as a field reads back as the same bytes.
pub proof fn law_bytes_round_trip<'a>(b: &[u8], pos: Position, mem: Seq<u8>)
    requires
        in_payload(pos, mem.len() as int),
        field_bytes(pos, mem) == <&[u8] as MemBufferSerialize>::spec_encoded(&b),
    ensures
        <&'a [u8] as MemBufferDeserialize<'a, &'a [u8]>>::spec_decodable(pos, mem),
        forall|v: &'a [u8]|
            #[trigger] <&'a [u8] as MemBufferDeserialize<'a, &'a [u8]>>::spec_decoded(pos, mem, v)
                ==> v@ == b@,
{
}

/// Words written as a field (from a slice or a `Vec`, which encode alike)
/// read back as the same words.
pub proof fn law_words_round_trip(words: Seq<u64>, pos: Position, mem: Seq<u8>)
    requires
        in_payload(pos, mem.len() as int),
        field_bytes(pos, mem) == u64s_to_ne_bytes(words),
    ensures
        <Vec<u64> as MemBufferDeserialize<'_, Vec<u64>>>::spec_decodable(pos, mem),
        forall|v: Vec<u64>|
            #[trigger] <Vec<u64> as MemBufferDeserialize<'_, Vec<u64>>>::spec_decoded(pos, mem, v)
                ==> v@ == words,
{
    law_u64s_round_trip(words);
    assert(pos.length == 8 * words.len());
    assert((8 * words.len()) % 8 == 0) by (nonlinear_arith);
}

/// An integer is stored inline: it adds no payload bytes, its descriptor's
/// length is 0 and its offset slot holds it, and it reads back unchanged.
pub proof fn law_integer_round_trip(v: i32, at: i32, mem: Seq<u8>)
    ensures
        <i32 as MemBufferSerialize>::spec_encoded(&v).len() == 0,
        <i32 as MemBufferSerialize>::spec_offset(&v, at) == v,
        ({
            let pos = Position { offset: v, length: 0 };
            &&& <i32 as MemBufferDeserialize<'_, i32>>::spec_decodable(pos, mem)
            &&& forall|x: i32|
                #[trigger] <i32 as MemBufferDeserialize<'_, i32>>::spec_decoded(pos, mem, x)
                    ==> x == v
        }),
{
}

/// A writer nested as a field reads back as a reader with the nested
/// writer's descriptors and payload.
pub proof fn law_nested_round_trip<'a>(inner: MemBufferWriter, pos: Position, mem: Seq<u8>)
    requires
        inner.wf(),
        in_payload(pos, mem.len() as int),
        field_bytes(pos, mem) == <MemBufferWriter as MemBufferSerialize>::spec_encoded(&inner),
    ensures
        <MemBufferReader<'a> as MemBufferDeserialize<'a, MemBufferReader<'a>>>::spec_decodable(
            pos,
            mem,
        ),
        parse_buffer(field_bytes(pos, mem)) == Some((inner.fields(), inner.payload())),
        forall|v: MemBufferReader<'a>|
            #[trigger] v.parsed_from(field_bytes(pos, mem)) ==> v.table() == table_of(
                inner.fields(),
            ) && v.payload() == inner.payload(),
{
    law_buffer_round_trip(inner.fields(), inner.payload());
}

} // verus!
