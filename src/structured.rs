//! Structured values stored as JSON text fields, through serde_json.
use crate::codec::MemBufferDeserialize;
use crate::format::put_field;
use crate::reader::MemBufferReader;
use crate::types::{type_code, unknown_field_text, InternPosition, MemBufferError, MemBufferTypes, Position};
use crate::writer::MemBufferWriter;
use vstd::prelude::*;
use vstd::utf8::encode_utf8;

verus! {

#[verifier::external_type_specification]
#[verifier::external_body]
pub struct ExJsonError(serde_json::Error);

/// Relies on `serde_json::to_string`, which writes `val` as JSON text; what
/// the text is depends on `T`'s `Serialize` impl, so nothing is stated of it.
#[verifier::external_body]
fn json_text<T: serde::Serialize>(val: &T) -> (r: Result<String, serde_json::Error>) {
    serde_json::to_string(val)
}

/// Relies on `serde_json::from_str`, which reads JSON text into a `T`; what
/// it returns depends on `T`'s `Deserialize` impl, so nothing is stated of it.
#[verifier::external_body]
fn json_value<'a, T: serde::Deserialize<'a>>(text: &'a str) -> (r: Result<T, serde_json::Error>) {
    serde_json::from_str(text)
}

impl MemBufferWriter {
    /// Stores `val` as JSON text in the Text field `key`. Fails with
    /// `ParseError` where serde_json cannot write it, and with `WrongFormat`
    /// where the payload cannot address the text; then nothing changes.
    pub fn add_serde_entry<T: serde::Serialize>(&mut self, key: i32, val: &T) -> (r: Result<
        (),
        MemBufferError,
    >)
        requires
            old(self).wf(),
        ensures
            final(self).wf(),
            r is Ok ==> exists|text: Seq<char>|
                {
                    &&& final(self).payload() == old(self).payload() + encode_utf8(text)
                    &&& final(self).fields() == put_field(
                        old(self).fields(),
                        key,
                        InternPosition {
                            pos: Position {
                                offset: old(self).payload().len() as i32,
                                length: encode_utf8(text).len() as i32,
                            },
                            variable_type: type_code(MemBufferTypes::Text),
                        },
                    )
                },
            r matches Err(e) ==> (e is ParseError || e is WrongFormat) && final(self).fields() == old(self).fields()
                && final(self).payload() == old(self).payload(),
    {
        match json_text(val) {
            Ok(text) => self.try_add_text(key, text.as_str()),
            Err(_) => Err(MemBufferError::ParseError),
        }
    }
}

impl<'a> MemBufferReader<'a> {
    /// Reads the Text field `key` and converts its JSON text into a `T`.
    /// Fails as `load_entry` does for text, and with `ParseError` where
    /// serde_json cannot read the text as a `T`.
    pub fn load_serde_entry<T: serde::Deserialize<'a>>(&self, key: i32) -> (r: Result<
        T,
        MemBufferError,
    >)
        ensures
            !self.table().contains_key(key) ==> (r matches Err(MemBufferError::FieldUnknown(m))
                && m@ == unknown_field_text(key)),
            self.table().contains_key(key) && self.table()[key].variable_type != type_code(
                MemBufferTypes::Text,
            ) ==> (r matches Err(MemBufferError::FieldTypeError(a, b)) && a
                == self.table()[key].variable_type && b == type_code(MemBufferTypes::Text)),
            self.table().contains_key(key) && self.table()[key].variable_type == type_code(
                MemBufferTypes::Text,
            ) ==> {
                let decodable = <&'a str as MemBufferDeserialize<'a, &'a str>>::spec_decodable(
                    self.table()[key].pos,
                    self.payload(),
                );
                &&& !decodable ==> (r matches Err(e) && e is WrongFormat)
                &&& decodable ==> (r matches Err(e) ==> e is ParseError)
            },
    {
        let text: &'a str = match self.load_entry(key) {
            Ok(t) => t,
            Err(e) => {
                return Err(e);
            },
        };
        match json_value(text) {
            Ok(v) => Ok(v),
            Err(_) => Err(MemBufferError::ParseError),
        }
    }
}

} // verus!
