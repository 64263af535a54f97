//! Support for tracepoint parsing and handling.

use crate::byte_order::{ByteOrder, Endianness};
use crate::error::{DecodeError, SchemaError, SchemaFault};
use crate::tracepoints::format::TracepointFormat;
use crate::tracepoints::parser::{
    bound, fits, texts, texts_are_plain, FieldShape, FormatParser, ParseOp,
};
use vstd::prelude::*;

pub mod format;
pub mod irq;
pub mod parser;
pub mod render;
pub mod sched;

verus! {

/// Trait for tracepoint structs that can be parsed from a tracepoint format.
pub trait Tracepoint: Sized + View {
    /// Name of the tracepoint this struct corresponds to. E.g.
    /// "`sched:sched_switch`".
    spec fn spec_event_name() -> Seq<char>;

    /// The names of the fields that the struct reads, in the order of its
    /// members.
    spec fn field_names() -> Seq<Seq<char>>;

    /// What the struct reads from each of those fields.
    spec fn field_shapes() -> Seq<FieldShape>;

    /// The struct that a record holds, if the record holds all its fields.
    spec fn decoded(ops: Seq<ParseOp>, record: Seq<u8>, order: Endianness) -> Option<Self::V>;

    /// Name of the tracepoint this struct corresponds to. E.g.
    /// "`sched:sched_switch`".
    fn event_name() -> (name: &'static str)
        ensures
            name@ == Self::spec_event_name(),
    ;

    /// The names of the fields that the struct reads, in the order of its
    /// members.
    fn names() -> (names: Vec<&'static str>)
        ensures
            texts(names@) == Self::field_names(),
    ;

    /// What the struct reads from each of those fields.
    fn shapes() -> (shapes: Vec<FieldShape>)
        ensures
            shapes@ == Self::field_shapes(),
    ;

    /// Create a parser matching this struct for the given dynamic tracepoint
    /// format.
    fn parser_from_format(format: &TracepointFormat) -> (r: Result<FormatParser, SchemaError>)
        ensures
            match r {
                Ok(parser) => bound(format@.fields, Self::field_names(), Self::field_shapes())
                    == Ok::<Seq<ParseOp>, SchemaFault>(parser@) && fits(
                    parser@,
                    Self::field_shapes(),
                ),
                Err(e) => bound(format@.fields, Self::field_names(), Self::field_shapes()) == Err::<
                    Seq<ParseOp>,
                    SchemaFault,
                >(e@),
            },
    ;

    /// Parse raw data using this struct
    fn parse<O: ByteOrder>(format: &FormatParser, record: &[u8]) -> (r: Result<Self, DecodeError>)
        requires
            fits(format@, Self::field_shapes()),
        ensures
            r is Ok ==> texts_are_plain(
                format@,
                Self::field_shapes(),
                record@,
                O::endianness(),
            ),
            match r {
                Ok(parsed) => Self::decoded(format@, record@, O::endianness()) == Some(parsed@),
                Err(e) => e == DecodeError::UnexpectedEof && Self::decoded(
                    format@,
                    record@,
                    O::endianness(),
                ) is None,
            },
    ;
}

} // verus!
