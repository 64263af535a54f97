//! Tracepoints for IRQ events.

use crate::byte_order::{ByteOrder, Endianness};
use crate::error::{DecodeError, SchemaError};
use crate::tracepoints::format::TracepointFormat;
use crate::tracepoints::parser::{
    i32_at, text_at, text_is_plain, texts, u64_at, FieldShape, FormatParser, ParseOp,
};
use crate::tracepoints::Tracepoint;
use vstd::prelude::*;

verus! {

/// `irq:irq_handler_entry`
#[derive(Debug, Clone, PartialEq, Eq)]
pub struct IrqHandlerEntry {
    pub irq: i32,
    pub name: String,
}

/// A `IrqHandlerEntry`, with its text as a sequence of characters.
pub ghost struct IrqHandlerEntryView {
    pub irq: i32,
    pub name: Seq<char>,
}

impl View for IrqHandlerEntry {
    type V = IrqHandlerEntryView;

    open spec fn view(&self) -> IrqHandlerEntryView {
        IrqHandlerEntryView {
            irq: self.irq,
            name: self.name@,
        }
    }
}

impl Tracepoint for IrqHandlerEntry {
    open spec fn spec_event_name() -> Seq<char> {
        "irq:irq_handler_entry"@
    }

    open spec fn field_names() -> Seq<Seq<char>> {
        seq!["irq"@, "name"@]
    }

    open spec fn field_shapes() -> Seq<FieldShape> {
        seq![FieldShape::Number(4), FieldShape::Text]
    }

    open spec fn decoded(ops: Seq<ParseOp>, record: Seq<u8>, order: Endianness) -> Option<
        IrqHandlerEntryView,
    > {
        match (
            i32_at(ops[0], record, order),
            text_at(ops[1], record, order),
        ) {
            (Some(irq), Some(name)) => Some(
                IrqHandlerEntryView { irq, name },
            ),
            _ => None,
        }
    }

    fn event_name() -> &'static str {
        "irq:irq_handler_entry"
    }

    fn names() -> Vec<&'static str> {
        let names = vec!["irq", "name"];
        assert(texts(names@) =~= Self::field_names());
        names
    }

    fn shapes() -> Vec<FieldShape> {
        let shapes = vec![FieldShape::Number(4), FieldShape::Text];
        assert(shapes@ =~= Self::field_shapes());
        shapes
    }

    fn parser_from_format(format: &TracepointFormat) -> Result<FormatParser, SchemaError> {
        let names = Self::names();
        let shapes = Self::shapes();
        FormatParser::bind(format.fields.as_slice(), names.as_slice(), shapes.as_slice())
    }

    fn parse<O: ByteOrder>(format: &FormatParser, record: &[u8]) -> Result<Self, DecodeError> {
        let irq = format.parse_i32::<O>(0, record)?;
        let name = format.parse_compact_string::<O>(1, record)?;
        proof {
            assert(text_is_plain(format@[1], record@, O::endianness()));
        }
        Ok(IrqHandlerEntry { irq, name })
    }
}

/// `irq:irq_handler_exit`
#[derive(Debug, Clone, Copy, PartialEq, Eq)]
pub struct IrqHandlerExit {
    pub irq: i32,
    pub ret: i32,
}

impl View for IrqHandlerExit {
    type V = IrqHandlerExit;

    open spec fn view(&self) -> IrqHandlerExit {
        *self
    }
}

impl Tracepoint for IrqHandlerExit {
    open spec fn spec_event_name() -> Seq<char> {
        "irq:irq_handler_exit"@
    }

    open spec fn field_names() -> Seq<Seq<char>> {
        seq!["irq"@, "ret"@]
    }

    open spec fn field_shapes() -> Seq<FieldShape> {
        seq![FieldShape::Number(4), FieldShape::Number(4)]
    }

    open spec fn decoded(ops: Seq<ParseOp>, record: Seq<u8>, order: Endianness) -> Option<
        IrqHandlerExit,
    > {
        match (i32_at(ops[0], record, order), i32_at(ops[1], record, order)) {
            (Some(irq), Some(ret)) => Some(IrqHandlerExit { irq, ret }),
            _ => None,
        }
    }

    fn event_name() -> &'static str {
        "irq:irq_handler_exit"
    }

    fn names() -> Vec<&'static str> {
        let names = vec!["irq", "ret"];
        assert(texts(names@) =~= Self::field_names());
        names
    }

    fn shapes() -> Vec<FieldShape> {
        let shapes = vec![FieldShape::Number(4), FieldShape::Number(4)];
        assert(shapes@ =~= Self::field_shapes());
        shapes
    }

    fn parser_from_format(format: &TracepointFormat) -> Result<FormatParser, SchemaError> {
        let names = Self::names();
        let shapes = Self::shapes();
        FormatParser::bind(format.fields.as_slice(), names.as_slice(), shapes.as_slice())
    }

    fn parse<O: ByteOrder>(format: &FormatParser, record: &[u8]) -> Result<Self, DecodeError> {
        let irq = format.parse_i32::<O>(0, record)?;
        let ret = format.parse_i32::<O>(1, record)?;
        Ok(IrqHandlerExit { irq, ret })
    }
}

/// `irq:softirq_entry`
#[derive(Debug, Clone, Copy, PartialEq, Eq)]
pub struct SoftirqEntry {
    pub vec: i32,
}

impl View for SoftirqEntry {
    type V = SoftirqEntry;

    open spec fn view(&self) -> SoftirqEntry {
        *self
    }
}

impl Tracepoint for SoftirqEntry {
    open spec fn spec_event_name() -> Seq<char> {
        "irq:softirq_entry"@
    }

    open spec fn field_names() -> Seq<Seq<char>> {
        seq!["vec"@]
    }

    open spec fn field_shapes() -> Seq<FieldShape> {
        seq![FieldShape::Number(4)]
    }

    open spec fn decoded(ops: Seq<ParseOp>, record: Seq<u8>, order: Endianness) -> Option<
        SoftirqEntry,
    > {
        match i32_at(ops[0], record, order) {
            Some(vec) => Some(SoftirqEntry { vec }),
            None => None,
        }
    }

    fn event_name() -> &'static str {
        "irq:softirq_entry"
    }

    fn names() -> Vec<&'static str> {
        let names = vec!["vec"];
        assert(texts(names@) =~= Self::field_names());
        names
    }

    fn shapes() -> Vec<FieldShape> {
        let shapes = vec![FieldShape::Number(4)];
        assert(shapes@ =~= Self::field_shapes());
        shapes
    }

    fn parser_from_format(format: &TracepointFormat) -> Result<FormatParser, SchemaError> {
        let names = Self::names();
        let shapes = Self::shapes();
        FormatParser::bind(format.fields.as_slice(), names.as_slice(), shapes.as_slice())
    }

    fn parse<O: ByteOrder>(format: &FormatParser, record: &[u8]) -> Result<Self, DecodeError> {
        let vec = format.parse_i32::<O>(0, record)?;
        Ok(SoftirqEntry { vec })
    }
}

/// `irq:softirq_exit`
#[derive(Debug, Clone, Copy, PartialEq, Eq)]
pub struct SoftirqExit {
    pub vec: i32,
}

impl View for SoftirqExit {
    type V = SoftirqExit;

    open spec fn view(&self) -> SoftirqExit {
        *self
    }
}

impl Tracepoint for SoftirqExit {
    open spec fn spec_event_name() -> Seq<char> {
        "irq:softirq_exit"@
    }

    open spec fn field_names() -> Seq<Seq<char>> {
        seq!["vec"@]
    }

    open spec fn field_shapes() -> Seq<FieldShape> {
        seq![FieldShape::Number(4)]
    }

    open spec fn decoded(ops: Seq<ParseOp>, record: Seq<u8>, order: Endianness) -> Option<
        SoftirqExit,
    > {
        match i32_at(ops[0], record, order) {
            Some(vec) => Some(SoftirqExit { vec }),
            None => None,
        }
    }

    fn event_name() -> &'static str {
        "irq:softirq_exit"
    }

    fn names() -> Vec<&'static str> {
        let names = vec!["vec"];
        assert(texts(names@) =~= Self::field_names());
        names
    }

    fn shapes() -> Vec<FieldShape> {
        let shapes = vec![FieldShape::Number(4)];
        assert(shapes@ =~= Self::field_shapes());
        shapes
    }

    fn parser_from_format(format: &TracepointFormat) -> Result<FormatParser, SchemaError> {
        let names = Self::names();
        let shapes = Self::shapes();
        FormatParser::bind(format.fields.as_slice(), names.as_slice(), shapes.as_slice())
    }

    fn parse<O: ByteOrder>(format: &FormatParser, record: &[u8]) -> Result<Self, DecodeError> {
        let vec = format.parse_i32::<O>(0, record)?;
        Ok(SoftirqExit { vec })
    }
}

/// `irq:tasklet_entry`
#[derive(Debug, Clone, Copy, PartialEq, Eq)]
pub struct TaskletEntry {
    pub tasklet: u64,
    pub func: u64,
}

impl View for TaskletEntry {
    type V = TaskletEntry;

    open spec fn view(&self) -> TaskletEntry {
        *self
    }
}

impl Tracepoint for TaskletEntry {
    open spec fn spec_event_name() -> Seq<char> {
        "irq:tasklet_entry"@
    }

    open spec fn field_names() -> Seq<Seq<char>> {
        seq!["tasklet"@, "func"@]
    }

    open spec fn field_shapes() -> Seq<FieldShape> {
        seq![FieldShape::Number(8), FieldShape::Number(8)]
    }

    open spec fn decoded(ops: Seq<ParseOp>, record: Seq<u8>, order: Endianness) -> Option<
        TaskletEntry,
    > {
        match (u64_at(ops[0], record, order), u64_at(ops[1], record, order)) {
            (Some(tasklet), Some(func)) => Some(TaskletEntry { tasklet, func }),
            _ => None,
        }
    }

    fn event_name() -> &'static str {
        "irq:tasklet_entry"
    }

    fn names() -> Vec<&'static str> {
        let names = vec!["tasklet", "func"];
        assert(texts(names@) =~= Self::field_names());
        names
    }

    fn shapes() -> Vec<FieldShape> {
        let shapes = vec![FieldShape::Number(8), FieldShape::Number(8)];
        assert(shapes@ =~= Self::field_shapes());
        shapes
    }

    fn parser_from_format(format: &TracepointFormat) -> Result<FormatParser, SchemaError> {
        let names = Self::names();
        let shapes = Self::shapes();
        FormatParser::bind(format.fields.as_slice(), names.as_slice(), shapes.as_slice())
    }

    fn parse<O: ByteOrder>(format: &FormatParser, record: &[u8]) -> Result<Self, DecodeError> {
        let tasklet = format.parse_u64::<O>(0, record)?;
        let func = format.parse_u64::<O>(1, record)?;
        Ok(TaskletEntry { tasklet, func })
    }
}

/// `irq:tasklet_exit`
#[derive(Debug, Clone, Copy, PartialEq, Eq)]
pub struct TaskletExit {
    pub tasklet: u64,
    pub func: u64,
}

impl View for TaskletExit {
    type V = TaskletExit;

    open spec fn view(&self) -> TaskletExit {
        *self
    }
}

impl Tracepoint for TaskletExit {
    open spec fn spec_event_name() -> Seq<char> {
        "irq:tasklet_exit"@
    }

    open spec fn field_names() -> Seq<Seq<char>> {
        seq!["tasklet"@, "func"@]
    }

    open spec fn field_shapes() -> Seq<FieldShape> {
        seq![FieldShape::Number(8), FieldShape::Number(8)]
    }

    open spec fn decoded(ops: Seq<ParseOp>, record: Seq<u8>, order: Endianness) -> Option<
        TaskletExit,
    > {
        match (u64_at(ops[0], record, order), u64_at(ops[1], record, order)) {
            (Some(tasklet), Some(func)) => Some(TaskletExit { tasklet, func }),
            _ => None,
        }
    }

    fn event_name() -> &'static str {
        "irq:tasklet_exit"
    }

    fn names() -> Vec<&'static str> {
        let names = vec!["tasklet", "func"];
        assert(texts(names@) =~= Self::field_names());
        names
    }

    fn shapes() -> Vec<FieldShape> {
        let shapes = vec![FieldShape::Number(8), FieldShape::Number(8)];
        assert(shapes@ =~= Self::field_shapes());
        shapes
    }

    fn parser_from_format(format: &TracepointFormat) -> Result<FormatParser, SchemaError> {
        let names = Self::names();
        let shapes = Self::shapes();
        FormatParser::bind(format.fields.as_slice(), names.as_slice(), shapes.as_slice())
    }

    fn parse<O: ByteOrder>(format: &FormatParser, record: &[u8]) -> Result<Self, DecodeError> {
        let tasklet = format.parse_u64::<O>(0, record)?;
        let func = format.parse_u64::<O>(1, record)?;
        Ok(TaskletExit { tasklet, func })
    }
}

} // verus!
