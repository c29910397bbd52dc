//! The data model: positions, type tags, descriptors and errors.
use vstd::prelude::*;
use vstd::string::StringExecFns;

verus! {

/// A byte range in the payload. For a type stored inline, `offset` holds
/// the value itself and `length` is 0.
#[derive(Clone, Copy, Debug, PartialEq, Eq, Structural)]
pub struct Position {
    pub offset: i32,
    pub length: i32,
}

/// The built-in type tags. Tags from `LastPreDefienedValue` on are free
/// for types defined by users of the library.
#[derive(Clone, Copy, Debug, PartialEq, Eq, Structural)]
pub enum MemBufferTypes {
    Text,
    Integer32,
    VectorU8,
    VectorU64,
    MemBuffer,
    LastPreDefienedValue,
}

/// The integer that stands for a built-in tag on the wire.
pub open spec fn type_code(t: MemBufferTypes) -> i32 {
    match t {
        MemBufferTypes::Text => 0,
        MemBufferTypes::Integer32 => 1,
        MemBufferTypes::VectorU8 => 2,
        MemBufferTypes::VectorU64 => 3,
        MemBufferTypes::MemBuffer => 4,
        MemBufferTypes::LastPreDefienedValue => 5,
    }
}

impl From<MemBufferTypes> for i32 {
    fn from(t: MemBufferTypes) -> (r: i32)
        ensures
            r == type_code(t),
    {
        match t {
            MemBufferTypes::Text => 0,
            MemBufferTypes::Integer32 => 1,
            MemBufferTypes::VectorU8 => 2,
            MemBufferTypes::VectorU64 => 3,
            MemBufferTypes::MemBuffer => 4,
            MemBufferTypes::LastPreDefienedValue => 5,
        }
    }
}

impl vstd::std_specs::convert::FromSpecImpl<MemBufferTypes> for i32 {
    open spec fn obeys_from_spec() -> bool {
        true
    }

    open spec fn from_spec(t: MemBufferTypes) -> i32 {
        type_code(t)
    }
}

/// One entry of the descriptor table: where the field lies and its tag.
#[derive(Clone, Copy, Debug, PartialEq, Eq, Structural)]
pub struct InternPosition {
    pub pos: Position,
    pub variable_type: i32,
}

/// What can go wrong when a buffer or a field is decoded.
#[derive(Clone, Debug)]
pub enum MemBufferError {
    /// No field has the requested key; the text says which key.
    FieldUnknown(String),
    /// The field's tag (first) differs from the requested tag (second).
    FieldTypeError(i32, i32),
    /// The header ends before its sentinel, or a field's bytes are not a
    /// well-formed value of its type.
    WrongFormat,
    /// A structured value stored as text could not be converted.
    ParseError,
}

/// The text of an error, as `to_string` gives it.
pub open spec fn error_text(e: MemBufferError) -> Seq<char> {
    match e {
        MemBufferError::FieldUnknown(x) => "Memory buffer error: Field "@ + x@ + " unknown"@,
        MemBufferError::FieldTypeError(x, y) => "Memory buffer error: Field has type "@ + int_text(
            x as int,
        ) + " and not requested type "@ + int_text(y as int),
        MemBufferError::WrongFormat =>
            "Memory buffer error: Reached end of slice before end of header, memory seems to be corrupted"@,
        MemBufferError::ParseError =>
            "Memory buffer error: Field could not be parsed as a structured value"@,
    }
}

/// Relies on std's `format!` with `{}` on a `String`: it copies the text.
#[verifier::external_body]
fn unknown_field_display(x: &String) -> (r: String)
    ensures
        r@ == "Memory buffer error: Field "@ + x@ + " unknown"@,
{
    format!("Memory buffer error: Field {} unknown", x)
}

/// Relies on std's `format!` with `{}` on an `i32`: it writes the number
/// in decimal, with a leading `-` when it is negative.
#[verifier::external_body]
fn type_error_display(x: i32, y: i32) -> (r: String)
    ensures
        r@ == "Memory buffer error: Field has type "@ + int_text(x as int)
            + " and not requested type "@ + int_text(y as int),
{
    format!("Memory buffer error: Field has type {} and not requested type {}", x, y)
}

impl MemBufferError {
    /// A sentence that describes the error.
    pub fn to_string(&self) -> (r: String)
        ensures
            r@ == error_text(*self),
    {
        match self {
            MemBufferError::FieldUnknown(x) => unknown_field_display(x),
            MemBufferError::FieldTypeError(x, y) => type_error_display(*x, *y),
            MemBufferError::WrongFormat => String::from_str(
                "Memory buffer error: Reached end of slice before end of header, memory seems to be corrupted",
            ),
            MemBufferError::ParseError => String::from_str(
                "Memory buffer error: Field could not be parsed as a structured value",
            ),
        }
    }
}

/// The decimal digit `d` as a character.
pub open spec fn digit_char(d: int) -> char {
    (48 + d) as char
}

/// The decimal digits of `n`, most significant first.
pub open spec fn nat_text(n: nat) -> Seq<char>
    decreases n,
{
    if n < 10 {
        seq![digit_char(n as int)]
    } else {
        nat_text(n / 10).push(digit_char((n % 10) as int))
    }
}

/// `v` in decimal, with a leading `-` when it is negative.
pub open spec fn int_text(v: int) -> Seq<char> {
    if v < 0 {
        seq!['-'] + nat_text((-v) as nat)
    } else {
        nat_text(v as nat)
    }
}

/// The text that `FieldUnknown` carries for a missing `key`.
pub open spec fn unknown_field_text(key: i32) -> Seq<char> {
    "No such field "@ + int_text(key as int) + " in MemBufferDeserialize"@
}

/// Relies on std's `format!` with `{}` on an `i32`: it writes the number
/// in decimal, with a leading `-` when it is negative.
#[verifier::external_body]
pub(crate) fn unknown_field_message(key: i32) -> (r: String)
    ensures
        r@ == unknown_field_text(key),
{
    format!("No such field {} in MemBufferDeserialize", key)
}

} // verus!
