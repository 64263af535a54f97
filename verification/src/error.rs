//! The errors of binding a decoder to a format and of decoding a record.

use crate::text::{decimal_digits, push_decimal};
use vstd::prelude::*;
use vstd::string::StringExecFns;

verus! {

/// A format does not fit the decoder that is bound to it.
#[derive(Debug, Clone)]
pub enum SchemaError {
    /// The format has no field of this name.
    MissingField(String),
    /// The format's field of this name has another width or array kind than
    /// the decoder reads.
    IncompatibleField(String),
}

/// A schema error, with its text as a sequence of characters.
pub ghost enum SchemaFault {
    MissingField(Seq<char>),
    IncompatibleField(Seq<char>),
}

impl View for SchemaError {
    type V = SchemaFault;

    open spec fn view(&self) -> SchemaFault {
        match self {
            SchemaError::MissingField(name) => SchemaFault::MissingField(name@),
            SchemaError::IncompatibleField(name) => SchemaFault::IncompatibleField(name@),
        }
    }
}

impl SchemaError {
    /// The error in words.
    pub open spec fn spec_message(self) -> Seq<char> {
        match self {
            SchemaError::MissingField(name) => "Missing field: "@ + name@,
            SchemaError::IncompatibleField(name) => "Incompatible field: "@ + name@,
        }
    }

    /// The error in words.
    pub fn message(&self) -> (text: String)
        ensures
            text@ == self.spec_message(),
    {
        match self {
            SchemaError::MissingField(name) => {
                let mut text = "Missing field: ".to_owned();
                text.append(name.as_str());
                text
            },
            SchemaError::IncompatibleField(name) => {
                let mut text = "Incompatible field: ".to_owned();
                text.append(name.as_str());
                text
            },
        }
    }
}

/// A record or a header section cannot be decoded.
#[derive(Debug, Clone, Copy, PartialEq, Eq, Structural)]
pub enum DecodeError {
    /// The bytes end before what is to be read.
    UnexpectedEof,
    /// The clock data section has a version other than 1.
    UnsupportedClockDataVersion(u32),
}

impl DecodeError {
    /// The error in words.
    pub open spec fn spec_message(self) -> Seq<char> {
        match self {
            DecodeError::UnexpectedEof => "Not enough data"@,
            DecodeError::UnsupportedClockDataVersion(version) => "Unsupported clock data version: "@
                + decimal_digits(version as nat),
        }
    }

    /// The error in words.
    pub fn message(&self) -> (text: String)
        ensures
            text@ == self.spec_message(),
    {
        match self {
            DecodeError::UnexpectedEof => "Not enough data".to_owned(),
            DecodeError::UnsupportedClockDataVersion(version) => {
                let mut text = "Unsupported clock data version: ".to_owned();
                push_decimal(&mut text, *version as u64);
                text
            },
        }
    }
}

} // verus!
