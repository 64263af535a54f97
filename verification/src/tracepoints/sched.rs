//! Tracepoints for scheduling events.

use crate::byte_order::{ByteOrder, Endianness};
use crate::error::{DecodeError, SchemaError};
use crate::tracepoints::format::TracepointFormat;
use crate::tracepoints::parser::{
    i32_at, i64_at, text_at, text_is_plain, texts, FieldShape, FormatParser, ParseOp,
};
use crate::tracepoints::Tracepoint;
use vstd::prelude::*;

verus! {

/// `sched:sched_switch`
#[derive(Debug, Clone, PartialEq, Eq)]
pub struct SchedSwitch {
    pub prev_comm: String,
    pub prev_pid: i32,
    pub prev_state: i64,
    pub next_comm: String,
    pub next_pid: i32,
    pub next_prio: i32,
}

/// A `SchedSwitch`, with its text as a sequence of characters.
pub ghost struct SchedSwitchView {
    pub prev_comm: Seq<char>,
    pub prev_pid: i32,
    pub prev_state: i64,
    pub next_comm: Seq<char>,
    pub next_pid: i32,
    pub next_prio: i32,
}

impl View for SchedSwitch {
    type V = SchedSwitchView;

    open spec fn view(&self) -> SchedSwitchView {
        SchedSwitchView {
            prev_comm: self.prev_comm@,
            prev_pid: self.prev_pid,
            prev_state: self.prev_state,
            next_comm: self.next_comm@,
            next_pid: self.next_pid,
            next_prio: self.next_prio,
        }
    }
}

impl Tracepoint for SchedSwitch {
    open spec fn spec_event_name() -> Seq<char> {
        "sched:sched_switch"@
    }

    open spec fn field_names() -> Seq<Seq<char>> {
        seq!["prev_comm"@, "prev_pid"@, "prev_state"@, "next_comm"@, "next_pid"@, "next_prio"@]
    }

    open spec fn field_shapes() -> Seq<FieldShape> {
        seq![
            FieldShape::Text,
            FieldShape::Number(4),
            FieldShape::Number(8),
            FieldShape::Text,
            FieldShape::Number(4),
            FieldShape::Number(4),
        ]
    }

    open spec fn decoded(ops: Seq<ParseOp>, record: Seq<u8>, order: Endianness) -> Option<
        SchedSwitchView,
    > {
        match (
            text_at(ops[0], record, order),
            i32_at(ops[1], record, order),
            i64_at(ops[2], record, order),
            text_at(ops[3], record, order),
            i32_at(ops[4], record, order),
            i32_at(ops[5], record, order),
        ) {
            (
                Some(prev_comm),
                Some(prev_pid),
                Some(prev_state),
                Some(next_comm),
                Some(next_pid),
                Some(next_prio),
            ) => Some(
                SchedSwitchView { prev_comm, prev_pid, prev_state, next_comm, next_pid, next_prio },
            ),
            _ => None,
        }
    }

    fn event_name() -> &'static str {
        "sched:sched_switch"
    }

    fn names() -> Vec<&'static str> {
        let names = vec![
            "prev_comm",
            "prev_pid",
            "prev_state",
            "next_comm",
            "next_pid",
            "next_prio",
        ];
        assert(texts(names@) =~= Self::field_names());
        names
    }

    fn shapes() -> Vec<FieldShape> {
        let shapes = vec![
            FieldShape::Text,
            FieldShape::Number(4),
            FieldShape::Number(8),
            FieldShape::Text,
            FieldShape::Number(4),
            FieldShape::Number(4),
        ];
        assert(shapes@ =~= Self::field_shapes());
        shapes
    }

    fn parser_from_format(format: &TracepointFormat) -> Result<FormatParser, SchemaError> {
        let names = Self::names();
        let shapes = Self::shapes();
        FormatParser::bind(format.fields.as_slice(), names.as_slice(), shapes.as_slice())
    }

    fn parse<O: ByteOrder>(format: &FormatParser, record: &[u8]) -> Result<Self, DecodeError> {
        let prev_comm = format.parse_compact_string::<O>(0, record)?;
        let prev_pid = format.parse_i32::<O>(1, record)?;
        let prev_state = format.parse_i64::<O>(2, record)?;
        let next_comm = format.parse_compact_string::<O>(3, record)?;
        let next_pid = format.parse_i32::<O>(4, record)?;
        let next_prio = format.parse_i32::<O>(5, record)?;
        proof {
            assert(text_is_plain(format@[0], record@, O::endianness()));
            assert(text_is_plain(format@[3], record@, O::endianness()));
        }
        Ok(SchedSwitch { prev_comm, prev_pid, prev_state, next_comm, next_pid, next_prio })
    }
}

/// `sched:sched_migrate_task`
#[derive(Debug, Clone, PartialEq, Eq)]
pub struct SchedMigrateTask {
    pub comm: String,
    pub pid: i32,
    pub prio: i32,
    pub orig_cpu: i32,
    pub dest_cpu: i32,
}

/// A `SchedMigrateTask`, with its text as a sequence of characters.
pub ghost struct SchedMigrateTaskView {
    pub comm: Seq<char>,
    pub pid: i32,
    pub prio: i32,
    pub orig_cpu: i32,
    pub dest_cpu: i32,
}

impl View for SchedMigrateTask {
    type V = SchedMigrateTaskView;

    open spec fn view(&self) -> SchedMigrateTaskView {
        SchedMigrateTaskView {
            comm: self.comm@,
            pid: self.pid,
            prio: self.prio,
            orig_cpu: self.orig_cpu,
            dest_cpu: self.dest_cpu,
        }
    }
}

impl Tracepoint for SchedMigrateTask {
    open spec fn spec_event_name() -> Seq<char> {
        "sched:sched_migrate_task"@
    }

    open spec fn field_names() -> Seq<Seq<char>> {
        seq!["comm"@, "pid"@, "prio"@, "orig_cpu"@, "dest_cpu"@]
    }

    open spec fn field_shapes() -> Seq<FieldShape> {
        seq![
            FieldShape::Text,
            FieldShape::Number(4),
            FieldShape::Number(4),
            FieldShape::Number(4),
            FieldShape::Number(4),
        ]
    }

    open spec fn decoded(ops: Seq<ParseOp>, record: Seq<u8>, order: Endianness) -> Option<
        SchedMigrateTaskView,
    > {
        match (
            text_at(ops[0], record, order),
            i32_at(ops[1], record, order),
            i32_at(ops[2], record, order),
            i32_at(ops[3], record, order),
            i32_at(ops[4], record, order),
        ) {
            (Some(comm), Some(pid), Some(prio), Some(orig_cpu), Some(dest_cpu)) => Some(
                SchedMigrateTaskView { comm, pid, prio, orig_cpu, dest_cpu },
            ),
            _ => None,
        }
    }

    fn event_name() -> &'static str {
        "sched:sched_migrate_task"
    }

    fn names() -> Vec<&'static str> {
        let names = vec!["comm", "pid", "prio", "orig_cpu", "dest_cpu"];
        assert(texts(names@) =~= Self::field_names());
        names
    }

    fn shapes() -> Vec<FieldShape> {
        let shapes = vec![
            FieldShape::Text,
            FieldShape::Number(4),
            FieldShape::Number(4),
            FieldShape::Number(4),
            FieldShape::Number(4),
        ];
        assert(shapes@ =~= Self::field_shapes());
        shapes
    }

    fn parser_from_format(format: &TracepointFormat) -> Result<FormatParser, SchemaError> {
        let names = Self::names();
        let shapes = Self::shapes();
        FormatParser::bind(format.fields.as_slice(), names.as_slice(), shapes.as_slice())
    }

    fn parse<O: ByteOrder>(format: &FormatParser, record: &[u8]) -> Result<Self, DecodeError> {
        let comm = format.parse_compact_string::<O>(0, record)?;
        let pid = format.parse_i32::<O>(1, record)?;
        let prio = format.parse_i32::<O>(2, record)?;
        let orig_cpu = format.parse_i32::<O>(3, record)?;
        let dest_cpu = format.parse_i32::<O>(4, record)?;
        proof {
            assert(text_is_plain(format@[0], record@, O::endianness()));
        }
        Ok(SchedMigrateTask { comm, pid, prio, orig_cpu, dest_cpu })
    }
}

} // verus!
