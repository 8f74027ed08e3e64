use vstd::prelude::*;

verus! {

/// The precise way a byte sequence was found not to be gob.
#[derive(Clone, Copy, PartialEq, Eq, Structural, Debug)]
pub enum ParseFault {
    /// A varint header byte announces a width over eight bytes.
    MalformedVarint,
    /// A boolean payload held a value other than 0 or 1.
    IntegerOverflow,
    /// A type-definition section defined an id other than the one its
    /// stream header announced.
    TypeIdMismatch,
    /// A non-struct value did not begin with the singleton `0` prefix.
    NotSingletonNorStruct,
    /// A value section referred to a type id the dictionary does not hold.
    TypeNotDefined,
    /// A type-definition section tried to define an id already live.
    TypeRedefined,
    /// A struct payload addressed a field index past the descriptor.
    UnknownField,
    /// An array payload announced a count other than the declared length.
    LengthMismatch,
    /// The descriptor names a type this engine does not decode.
    UnsupportedType,
}

/// Outcome of a failed read at the message-cursor level: either the
/// message needs more bytes, or the bytes present cannot be gob.
#[derive(Clone, Copy, PartialEq, Eq, Structural, Debug)]
pub enum MessageReadError {
    Incomplete,
    Parse(ParseFault),
}

/// Errors surfaced by the stream engine. `Incomplete` never escapes:
/// the framing layer absorbs it by waiting for more bytes or promotes
/// it to `UnexpectedEof`.
#[derive(Clone, Copy, PartialEq, Eq, Structural, Debug)]
pub enum Error {
    /// The stream ended inside a section or inside a value payload.
    UnexpectedEof,
    /// The bytes cannot be a gob stream.
    Parse(ParseFault),
    /// A value handed to the writer does not fit its declared descriptor.
    SchemaMismatch,
}

impl Error {
    /// Promote a message-level failure met inside a complete payload:
    /// running out of bytes there means the payload was truncated.
    pub fn from_read(err: MessageReadError) -> (r: Error)
        ensures
            r == (match err {
                MessageReadError::Incomplete => Error::UnexpectedEof,
                MessageReadError::Parse(f) => Error::Parse(f),
            }),
    {
        match err {
            MessageReadError::Incomplete => Error::UnexpectedEof,
            MessageReadError::Parse(f) => Error::Parse(f),
        }
    }

    /// The human-readable reason, one fixed text per case.
    pub fn message(&self) -> (r: String)
        ensures
            *self == Error::UnexpectedEof ==> r@ == "unexpected end of file"@,
            *self == Error::SchemaMismatch ==> r@ == "schema mismatch"@,
            *self == Error::Parse(ParseFault::MalformedVarint) ==> r@ == "malformed varint"@,
            *self == Error::Parse(ParseFault::IntegerOverflow) ==> r@ == "integer overflow"@,
            *self == Error::Parse(ParseFault::TypeIdMismatch) ==> r@ == "type id mismatch"@,
            *self == Error::Parse(ParseFault::NotSingletonNorStruct) ==> r@
                == "neither a singleton nor a struct value"@,
            *self == Error::Parse(ParseFault::TypeNotDefined) ==> r@ == "type not defined"@,
            *self == Error::Parse(ParseFault::TypeRedefined) ==> r@ == "type id redefined"@,
            *self == Error::Parse(ParseFault::UnknownField) ==> r@ == "unknown struct field"@,
            *self == Error::Parse(ParseFault::LengthMismatch) ==> r@ == "array length mismatch"@,
            *self == Error::Parse(ParseFault::UnsupportedType) ==> r@ == "unsupported type"@,
    {
        match self {
            Error::UnexpectedEof => "unexpected end of file".to_string(),
            Error::SchemaMismatch => "schema mismatch".to_string(),
            Error::Parse(ParseFault::MalformedVarint) => "malformed varint".to_string(),
            Error::Parse(ParseFault::IntegerOverflow) => "integer overflow".to_string(),
            Error::Parse(ParseFault::TypeIdMismatch) => "type id mismatch".to_string(),
            Error::Parse(ParseFault::NotSingletonNorStruct) => {
                "neither a singleton nor a struct value".to_string()
            },
            Error::Parse(ParseFault::TypeNotDefined) => "type not defined".to_string(),
            Error::Parse(ParseFault::TypeRedefined) => "type id redefined".to_string(),
            Error::Parse(ParseFault::UnknownField) => "unknown struct field".to_string(),
            Error::Parse(ParseFault::LengthMismatch) => "array length mismatch".to_string(),
            Error::Parse(ParseFault::UnsupportedType) => "unsupported type".to_string(),
        }
    }
}

} // verus!
