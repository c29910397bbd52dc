//! A binary container that stores independently typed fields in one byte
//! buffer and decodes each field on demand.
//!
//! A [`MemBufferWriter`] collects fields under integer keys and `finalize`s
//! them into a descriptor table, a sentinel and a payload. A
//! [`MemBufferReader`] parses only the descriptor table and decodes a field
//! when it is asked for, after checking its type tag.
mod byte_order;
mod codec;
mod format;
mod laws;
mod reader;
mod round_trip;
mod structured;
mod types;
mod writer;

pub use byte_order::{
    i32_from_ne_bytes, i32_to_ne_bytes, lemma_i32_ne_round_trip, lemma_u64_ne_round_trip,
    native_order, u64_from_ne_bytes, u64_to_ne_bytes, u64s_from_ne_bytes, u64s_to_ne_bytes,
};
pub use codec::{MemBufferDeserialize, MemBufferSerialize};
pub use format::{
    buffer_bytes, field_bytes, has_key, header_bytes, in_payload, keys_unique, parse_buffer,
    put_field, record_at, record_bytes, table_of, SENTINEL,
};
pub use laws::{
    law_appended_field, law_buffer_len, law_buffer_round_trip, law_builtin_tags_distinct,
    law_bytes_round_trip, law_field_bytes_kept, law_integer_round_trip, law_nested_round_trip,
    law_put_field, law_reader_of_writer, law_table_of_unique, law_text_round_trip,
    law_truncated_buffer, law_u64s_round_trip, law_words_round_trip, no_sentinel_offset,
};
pub use reader::MemBufferReader;
pub use round_trip::{
    add_value, decodes_as, last_value, law_write_all_round_trip, value_bytes, value_offset,
    value_tag, write_all, writes_fit, FieldValue,
};
pub use types::{
    digit_char, error_text, int_text, nat_text, type_code, unknown_field_text, InternPosition,
    MemBufferError, MemBufferTypes, Position,
};
pub use writer::MemBufferWriter;
