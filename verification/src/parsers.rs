//! From the sections and sample records of a capture to clock data and
//! events.

use crate::byte_order::{
    u32_in, u64_in, BigEndian, ByteOrder, Endianness, LittleEndian,
};
use crate::error::{DecodeError, SchemaError, SchemaFault};
use crate::text::{
    chars_of, hex_digits, push_hex, push_signed_decimal, same_text, signed_decimal,
};
use crate::tracepoints::format::{FieldView, TracepointFormat};
use crate::tracepoints::irq::{
    IrqHandlerEntry, IrqHandlerEntryView, IrqHandlerExit, SoftirqEntry, SoftirqExit, TaskletEntry,
    TaskletExit,
};
use crate::tracepoints::parser::{
    bound, fits, texts_are_plain, FieldShape, FormatParser, ParseOp,
};
use crate::tracepoints::sched::{
    SchedMigrateTask, SchedMigrateTaskView, SchedSwitch, SchedSwitchView,
};
use crate::tracepoints::Tracepoint;
use crate::types::CpuState;
use vstd::pervasive::unreached;
use vstd::prelude::*;
use vstd::slice::slice_subrange;
use vstd::string::StringExecFns;
use vstd::utf8::encode_utf8;

verus! {

/// Parser for `CLOCK_DATA` file header.
#[derive(Debug, Clone, Copy, PartialEq, Eq, Structural)]
pub struct ClockData {
    /// version = 1
    pub version: u32,
    pub clockid: u32,
    pub wall_clock_ns: u64,
    pub clockid_time_ns: u64,
}

/// The clock data that a `CLOCK_DATA` section holds: a 32-bit version,
/// which must be 1, a 32-bit clock id, and two 64-bit times. The version is
/// looked at before the rest is asked for.
pub open spec fn parsed_clock(data: Seq<u8>, order: Endianness) -> Result<ClockData, DecodeError> {
    if data.len() < 4 {
        Err(DecodeError::UnexpectedEof)
    } else if u32_in(order, data) != 1 {
        Err(DecodeError::UnsupportedClockDataVersion(u32_in(order, data)))
    } else if data.len() < 24 {
        Err(DecodeError::UnexpectedEof)
    } else {
        Ok(
            ClockData {
                version: u32_in(order, data),
                clockid: u32_in(order, data.skip(4)),
                wall_clock_ns: u64_in(order, data.skip(8)),
                clockid_time_ns: u64_in(order, data.skip(16)),
            },
        )
    }
}

impl ClockData {
    /// Reads a `CLOCK_DATA` section in the given byte order.
    pub fn parse(data: &[u8], endian: Endianness) -> (r: Result<Self, DecodeError>)
        ensures
            r == parsed_clock(data@, endian),
    {
        match endian {
            Endianness::LittleEndian => Self::parse_impl::<LittleEndian>(data),
            Endianness::BigEndian => Self::parse_impl::<BigEndian>(data),
        }
    }

    /// Reads a `CLOCK_DATA` section in the byte order `O`.
    pub fn parse_impl<O: ByteOrder>(data: &[u8]) -> (r: Result<Self, DecodeError>)
        ensures
            r == parsed_clock(data@, O::endianness()),
    {
        if data.len() < 4 {
            return Err(DecodeError::UnexpectedEof);
        }
        let version = O::read_u32(data);
        if version != 1 {
            return Err(DecodeError::UnsupportedClockDataVersion(version));
        }
        if data.len() < 24 {
            return Err(DecodeError::UnexpectedEof);
        }
        let clockid = O::read_u32(slice_subrange(data, 4, 8));
        let wall_clock_ns = O::read_u64(slice_subrange(data, 8, 16));
        let clockid_time_ns = O::read_u64(slice_subrange(data, 16, 24));
        Ok(ClockData { version, clockid, wall_clock_ns, clockid_time_ns })
    }

    /// The wall-clock time, in nanoseconds, of a sample taken when the clock
    /// of the capture showed `sample_time`.
    pub open spec fn spec_wall_clock_at(self, sample_time: u64) -> int {
        self.wall_clock_ns + (sample_time - self.clockid_time_ns)
    }

    /// The wall-clock time, in nanoseconds, of a sample taken when the clock
    /// of the capture showed `sample_time`.
    pub fn wall_clock_at(&self, sample_time: u64) -> (ns: u64)
        requires
            0 <= self.spec_wall_clock_at(sample_time) <= u64::MAX,
        ensures
            ns == self.spec_wall_clock_at(sample_time),
    {
        let sum: u128 = self.wall_clock_ns as u128 + sample_time as u128;
        (sum - self.clockid_time_ns as u128) as u64
    }

    /// Whether the wall-clock time of a sample taken at `sample_time` is a
    /// 64-bit number.
    pub fn covers(&self, sample_time: u64) -> (r: bool)
        ensures
            r == (0 <= self.spec_wall_clock_at(sample_time) <= u64::MAX),
    {
        let sum: u128 = self.wall_clock_ns as u128 + sample_time as u128;
        sum >= self.clockid_time_ns as u128 && sum - self.clockid_time_ns as u128
            <= 0xffff_ffff_ffff_ffff
    }
}

/// The wall-clock time, in nanoseconds, at which a timeline begins whose
/// first sample was taken at `first_sample_time`: zero when the capture
/// holds no clock data.
pub open spec fn spec_timeline_start(clock: Option<ClockData>, first_sample_time: u64) -> int {
    match clock {
        Some(clock) => clock.spec_wall_clock_at(first_sample_time),
        None => 0,
    }
}

/// The wall-clock time, in nanoseconds, at which a timeline begins whose
/// first sample was taken at `first_sample_time`.
pub fn timeline_start(clock: Option<ClockData>, first_sample_time: u64) -> (ns: u64)
    requires
        0 <= spec_timeline_start(clock, first_sample_time) <= u64::MAX,
    ensures
        ns == spec_timeline_start(clock, first_sample_time),
{
    match clock {
        Some(clock) => clock.wall_clock_at(first_sample_time),
        None => 0,
    }
}

/// What is done with a record of a capture.
#[derive(Debug, Clone, Copy, PartialEq, Eq, Structural)]
pub enum RecordHandling {
    /// The record is passed over in silence.
    Skip,
    /// The record is a sample, to be decoded.
    Decode,
    /// The record says that samples were lost: the user is warned.
    WarnLost,
    /// The record is of a type that is not known here: the user is warned.
    WarnUnhandled,
}

/// What is done with a record of the type with the number `record_type`:
/// samples (9) are decoded; lost records (2) and lost samples (13) give a
/// warning; mappings (1, 10), kernel symbols (17) and the start, end and
/// renaming of tasks (7, 4, 3) are passed over; any other type is reported.
pub open spec fn handling_of(record_type: u32) -> RecordHandling {
    if record_type == 9 {
        RecordHandling::Decode
    } else if record_type == 2 || record_type == 13 {
        RecordHandling::WarnLost
    } else if record_type == 1 || record_type == 10 || record_type == 17 || record_type == 7
        || record_type == 4 || record_type == 3 {
        RecordHandling::Skip
    } else {
        RecordHandling::WarnUnhandled
    }
}

/// What is done with a record of the type with the number `record_type`.
pub fn record_handling(record_type: u32) -> (handling: RecordHandling)
    ensures
        handling == handling_of(record_type),
{
    match record_type {
        9 => RecordHandling::Decode,
        2 | 13 => RecordHandling::WarnLost,
        1 | 10 | 17 | 7 | 4 | 3 => RecordHandling::Skip,
        _ => RecordHandling::WarnUnhandled,
    }
}

/// What a tracepoint sample record stands for.
#[derive(Debug, Clone, Copy, PartialEq, Eq, Structural)]
pub enum ActionKind {
    Ignore,
    Switch,
    Migrate,
    EnterIrq,
    ExitIrq,
    EnterSoftirq,
    ExitSoftirq,
    EnterTasklet,
    ExitTasklet,
}

/// What the samples of the event named `name` stand for.
pub open spec fn kind_of_event(name: Seq<char>) -> ActionKind {
    if name == "irq:irq_handler_entry"@ {
        ActionKind::EnterIrq
    } else if name == "irq:irq_handler_exit"@ {
        ActionKind::ExitIrq
    } else if name == "irq:softirq_entry"@ {
        ActionKind::EnterSoftirq
    } else if name == "irq:softirq_exit"@ {
        ActionKind::ExitSoftirq
    } else if name == "irq:tasklet_entry"@ {
        ActionKind::EnterTasklet
    } else if name == "irq:tasklet_exit"@ {
        ActionKind::ExitTasklet
    } else if name == "sched:sched_migrate_task"@ {
        ActionKind::Migrate
    } else if name == "sched:sched_switch"@ {
        ActionKind::Switch
    } else {
        ActionKind::Ignore
    }
}

/// `name` is an event that is known and left out on purpose.
pub open spec fn is_ignored_event(name: Seq<char>) -> bool {
    ||| name == "sched:sched_process_fork"@
    ||| name == "sched:sched_stat_iowait"@
    ||| name == "sched:sched_stat_runtime"@
    ||| name == "sched:sched_stat_sleep"@
    ||| name == "sched:sched_stat_wait"@
    ||| name == "sched:sched_wakeup_new"@
    ||| name == "sched:sched_wakeup"@
    ||| name == "sched:sched_waking"@
    ||| name == "dummy:u"@
}

/// `name` is an event that the table of events lists.
pub open spec fn is_known_event(name: Seq<char>) -> bool {
    kind_of_event(name) != ActionKind::Ignore || is_ignored_event(name)
}

/// What the samples of the event named `name` stand for, and whether the
/// table of events lists the name. A name that it does not list is ignored.
pub fn action_kind(name: &str) -> (r: (ActionKind, bool))
    ensures
        r.0 == kind_of_event(name@),
        r.1 == is_known_event(name@),
{
    let chars = chars_of(name);
    let text = chars.as_slice();
    if same_text(text, "irq:irq_handler_entry") {
        (ActionKind::EnterIrq, true)
    } else if same_text(text, "irq:irq_handler_exit") {
        (ActionKind::ExitIrq, true)
    } else if same_text(text, "irq:softirq_entry") {
        (ActionKind::EnterSoftirq, true)
    } else if same_text(text, "irq:softirq_exit") {
        (ActionKind::ExitSoftirq, true)
    } else if same_text(text, "irq:tasklet_entry") {
        (ActionKind::EnterTasklet, true)
    } else if same_text(text, "irq:tasklet_exit") {
        (ActionKind::ExitTasklet, true)
    } else if same_text(text, "sched:sched_migrate_task") {
        (ActionKind::Migrate, true)
    } else if same_text(text, "sched:sched_switch") {
        (ActionKind::Switch, true)
    } else {
        let ignored = same_text(text, "sched:sched_process_fork") || same_text(
            text,
            "sched:sched_stat_iowait",
        ) || same_text(text, "sched:sched_stat_runtime") || same_text(
            text,
            "sched:sched_stat_sleep",
        ) || same_text(text, "sched:sched_stat_wait") || same_text(text, "sched:sched_wakeup_new")
            || same_text(text, "sched:sched_wakeup") || same_text(text, "sched:sched_waking")
            || same_text(text, "dummy:u");
        (ActionKind::Ignore, ignored)
    }
}

/// The kinds of the events named `names`.
pub open spec fn kinds_of_events(names: Seq<&str>) -> Seq<ActionKind> {
    Seq::new(names.len(), |i: int| kind_of_event(names[i]@))
}

/// Create a mapping from event attribute index to the kind of action to
/// take when seeing it: `names` holds the events' names by attribute index.
pub fn action_mapping(names: &[&str]) -> (kinds: Vec<ActionKind>)
    ensures
        kinds@ == kinds_of_events(names@),
{
    let mut kinds: Vec<ActionKind> = Vec::new();
    let mut i: usize = 0;
    while i < names.len()
        invariant
            i <= names@.len(),
            kinds@ == kinds_of_events(names@).take(i as int),
        decreases names@.len() - i,
    {
        let (kind, _) = action_kind(names[i]);
        kinds.push(kind);
        i += 1;
        assert(kinds_of_events(names@).take(i as int) =~= kinds_of_events(names@).take(i - 1).push(
            kind,
        ));
    }
    assert(kinds_of_events(names@).take(i as int) =~= kinds_of_events(names@));
    kinds
}

/// Describes what parser to use for a given tracepoint sample record.
#[derive(Debug, Clone)]
pub enum Action {
    Ignore,
    Switch(FormatParser),
    Migrate(FormatParser),
    EnterIrq(FormatParser),
    ExitIrq(FormatParser),
    EnterSoftirq(FormatParser),
    ExitSoftirq(FormatParser),
    EnterTasklet(FormatParser),
    ExitTasklet(FormatParser),
}

/// The fields, by name and shape, that binding an action of kind `kind`
/// asks of a format. Nothing is asked for `Ignore`.
pub open spec fn bound_for(kind: ActionKind, format: Seq<FieldView>) -> Result<
    Seq<ParseOp>,
    SchemaFault,
> {
    match kind {
        ActionKind::Ignore => Ok(Seq::empty()),
        ActionKind::Switch => bound(
            format,
            SchedSwitch::field_names(),
            SchedSwitch::field_shapes(),
        ),
        ActionKind::Migrate => bound(
            format,
            SchedMigrateTask::field_names(),
            SchedMigrateTask::field_shapes(),
        ),
        ActionKind::EnterIrq => bound(
            format,
            IrqHandlerEntry::field_names(),
            IrqHandlerEntry::field_shapes(),
        ),
        ActionKind::ExitIrq => bound(
            format,
            IrqHandlerExit::field_names(),
            IrqHandlerExit::field_shapes(),
        ),
        ActionKind::EnterSoftirq => bound(
            format,
            SoftirqEntry::field_names(),
            SoftirqEntry::field_shapes(),
        ),
        ActionKind::ExitSoftirq => bound(
            format,
            SoftirqExit::field_names(),
            SoftirqExit::field_shapes(),
        ),
        ActionKind::EnterTasklet => bound(
            format,
            TaskletEntry::field_names(),
            TaskletEntry::field_shapes(),
        ),
        ActionKind::ExitTasklet => bound(
            format,
            TaskletExit::field_names(),
            TaskletExit::field_shapes(),
        ),
    }
}

impl Action {
    /// The kind of the action.
    pub open spec fn spec_kind(self) -> ActionKind {
        match self {
            Action::Ignore => ActionKind::Ignore,
            Action::Switch(_) => ActionKind::Switch,
            Action::Migrate(_) => ActionKind::Migrate,
            Action::EnterIrq(_) => ActionKind::EnterIrq,
            Action::ExitIrq(_) => ActionKind::ExitIrq,
            Action::EnterSoftirq(_) => ActionKind::EnterSoftirq,
            Action::ExitSoftirq(_) => ActionKind::ExitSoftirq,
            Action::EnterTasklet(_) => ActionKind::EnterTasklet,
            Action::ExitTasklet(_) => ActionKind::ExitTasklet,
        }
    }

    /// The operations of the action's parser; none for `Ignore`.
    pub open spec fn ops(self) -> Seq<ParseOp> {
        match self {
            Action::Ignore => Seq::empty(),
            Action::Switch(parser) => parser@,
            Action::Migrate(parser) => parser@,
            Action::EnterIrq(parser) => parser@,
            Action::ExitIrq(parser) => parser@,
            Action::EnterSoftirq(parser) => parser@,
            Action::ExitSoftirq(parser) => parser@,
            Action::EnterTasklet(parser) => parser@,
            Action::ExitTasklet(parser) => parser@,
        }
    }

    /// What the action's decoder reads from each field of a record; nothing
    /// where the record is not read.
    pub open spec fn shapes(self) -> Seq<FieldShape> {
        match self {
            Action::Switch(_) => SchedSwitch::field_shapes(),
            Action::Migrate(_) => SchedMigrateTask::field_shapes(),
            Action::EnterIrq(_) => IrqHandlerEntry::field_shapes(),
            Action::EnterSoftirq(_) => SoftirqEntry::field_shapes(),
            Action::EnterTasklet(_) => TaskletEntry::field_shapes(),
            _ => Seq::empty(),
        }
    }

    /// The parser of an action whose records are decoded reads fields of
    /// the shapes that its decoder reads.
    pub open spec fn wf(self) -> bool {
        match self {
            Action::Switch(parser) => fits(parser@, SchedSwitch::field_shapes()),
            Action::Migrate(parser) => fits(parser@, SchedMigrateTask::field_shapes()),
            Action::EnterIrq(parser) => fits(parser@, IrqHandlerEntry::field_shapes()),
            Action::EnterSoftirq(parser) => fits(parser@, SoftirqEntry::field_shapes()),
            Action::EnterTasklet(parser) => fits(parser@, TaskletEntry::field_shapes()),
            _ => true,
        }
    }

    /// The kind of the action.
    pub fn kind(&self) -> (kind: ActionKind)
        ensures
            kind == self.spec_kind(),
    {
        match self {
            Action::Ignore => ActionKind::Ignore,
            Action::Switch(_) => ActionKind::Switch,
            Action::Migrate(_) => ActionKind::Migrate,
            Action::EnterIrq(_) => ActionKind::EnterIrq,
            Action::ExitIrq(_) => ActionKind::ExitIrq,
            Action::EnterSoftirq(_) => ActionKind::EnterSoftirq,
            Action::ExitSoftirq(_) => ActionKind::ExitSoftirq,
            Action::EnterTasklet(_) => ActionKind::EnterTasklet,
            Action::ExitTasklet(_) => ActionKind::ExitTasklet,
        }
    }

    /// Whether the action's parser reads fields of the shapes that its
    /// decoder reads.
    pub fn is_bound(&self) -> (r: bool)
        ensures
            r == self.wf(),
    {
        match self {
            Action::Switch(parser) => parser.accepts(SchedSwitch::shapes().as_slice()),
            Action::Migrate(parser) => parser.accepts(SchedMigrateTask::shapes().as_slice()),
            Action::EnterIrq(parser) => parser.accepts(IrqHandlerEntry::shapes().as_slice()),
            Action::EnterSoftirq(parser) => parser.accepts(SoftirqEntry::shapes().as_slice()),
            Action::EnterTasklet(parser) => parser.accepts(TaskletEntry::shapes().as_slice()),
            _ => true,
        }
    }

    /// The action of kind `kind` for records laid out as `format` says.
    pub fn bind(kind: ActionKind, format: &TracepointFormat) -> (r: Result<Action, SchemaError>)
        ensures
            match r {
                Ok(action) => action.spec_kind() == kind && action.wf() && bound_for(
                    kind,
                    format@.fields,
                ) == Ok::<Seq<ParseOp>, SchemaFault>(action.ops()),
                Err(e) => bound_for(kind, format@.fields) == Err::<Seq<ParseOp>, SchemaFault>(e@),
            },
    {
        match kind {
            ActionKind::Ignore => Ok(Action::Ignore),
            ActionKind::Switch => match SchedSwitch::parser_from_format(format) {
                Ok(parser) => Ok(Action::Switch(parser)),
                Err(e) => Err(e),
            },
            ActionKind::Migrate => match SchedMigrateTask::parser_from_format(format) {
                Ok(parser) => Ok(Action::Migrate(parser)),
                Err(e) => Err(e),
            },
            ActionKind::EnterIrq => match IrqHandlerEntry::parser_from_format(format) {
                Ok(parser) => Ok(Action::EnterIrq(parser)),
                Err(e) => Err(e),
            },
            ActionKind::ExitIrq => match IrqHandlerExit::parser_from_format(format) {
                Ok(parser) => Ok(Action::ExitIrq(parser)),
                Err(e) => Err(e),
            },
            ActionKind::EnterSoftirq => match SoftirqEntry::parser_from_format(format) {
                Ok(parser) => Ok(Action::EnterSoftirq(parser)),
                Err(e) => Err(e),
            },
            ActionKind::ExitSoftirq => match SoftirqExit::parser_from_format(format) {
                Ok(parser) => Ok(Action::ExitSoftirq(parser)),
                Err(e) => Err(e),
            },
            ActionKind::EnterTasklet => match TaskletEntry::parser_from_format(format) {
                Ok(parser) => Ok(Action::EnterTasklet(parser)),
                Err(e) => Err(e),
            },
            ActionKind::ExitTasklet => match TaskletExit::parser_from_format(format) {
                Ok(parser) => Ok(Action::ExitTasklet(parser)),
                Err(e) => Err(e),
            },
        }
    }
}

/// A parsed tracepoint sample record turns into an `Event`.
#[derive(Debug, Clone)]
pub enum Event {
    BeginThread { state: CpuState, comm: String, pid: i32 },
    BeginOther { state: CpuState, tag: String },
    End,
    Migrate { from: i32, to: i32 },
}

/// An event, with its texts as sequences of characters.
pub ghost enum EventView {
    BeginThread { state: CpuState, comm: Seq<char>, pid: i32 },
    BeginOther { state: CpuState, tag: Seq<char> },
    End,
    Migrate { from: i32, to: i32 },
}

impl View for Event {
    type V = EventView;

    open spec fn view(&self) -> EventView {
        match self {
            Event::BeginThread { state, comm, pid } => EventView::BeginThread {
                state: *state,
                comm: comm@,
                pid: *pid,
            },
            Event::BeginOther { state, tag } => EventView::BeginOther { state: *state, tag: tag@ },
            Event::End => EventView::End,
            Event::Migrate { from, to } => EventView::Migrate { from: *from, to: *to },
        }
    }
}

/// The state in which a CPU is said to be while it runs the task whose
/// command name is `comm`. The first rule that applies decides.
pub open spec fn classified(comm: Seq<u8>) -> CpuState {
    if encode_utf8("swapper/"@).is_prefix_of(comm) {
        CpuState::Idle
    } else if encode_utf8("migration/"@).is_prefix_of(comm) {
        CpuState::Idle
    } else if encode_utf8("ksoftirqd/"@).is_prefix_of(comm) {
        CpuState::Softirq
    } else if encode_utf8("irq/"@).is_prefix_of(comm) {
        CpuState::Irq
    } else if encode_utf8("kworker/"@).is_prefix_of(comm) || encode_utf8("rcu_"@).is_prefix_of(
        comm,
    ) {
        CpuState::Kernel
    } else {
        CpuState::User
    }
}

/// The tag of a hard interrupt.
pub open spec fn irq_tag(irq: i32, name: Seq<char>) -> Seq<char> {
    "IRQ "@ + signed_decimal(irq as int) + ": "@ + name
}

/// The tag of a soft interrupt.
pub open spec fn softirq_tag(vec: i32) -> Seq<char> {
    "Softirq "@ + signed_decimal(vec as int)
}

/// The tag of a tasklet.
pub open spec fn tasklet_tag(tasklet: u64) -> Seq<char> {
    "Tasklet 0x"@ + hex_digits(tasklet as nat)
}

/// The event that a decoded `sched_switch` record stands for: the CPU
/// begins to run the next task, in the state that the task's command name
/// stands for.
pub open spec fn switch_event(parsed: SchedSwitchView) -> EventView {
    EventView::BeginThread {
        state: classified(encode_utf8(parsed.next_comm)),
        comm: parsed.next_comm,
        pid: parsed.next_pid,
    }
}

/// The event that a decoded `sched_migrate_task` record stands for.
pub open spec fn migrate_event(parsed: SchedMigrateTaskView) -> EventView {
    EventView::Migrate { from: parsed.orig_cpu, to: parsed.dest_cpu }
}

/// The event that a decoded `irq_handler_entry` record stands for.
pub open spec fn irq_event(parsed: IrqHandlerEntryView) -> EventView {
    EventView::BeginOther { state: CpuState::Irq, tag: irq_tag(parsed.irq, parsed.name) }
}

/// The event that a decoded `softirq_entry` record stands for.
pub open spec fn softirq_event(parsed: SoftirqEntry) -> EventView {
    EventView::BeginOther { state: CpuState::Softirq, tag: softirq_tag(parsed.vec) }
}

/// The event that a decoded `tasklet_entry` record stands for.
pub open spec fn tasklet_event(parsed: TaskletEntry) -> EventView {
    EventView::BeginOther { state: CpuState::Tasklet, tag: tasklet_tag(parsed.tasklet) }
}

/// The event that a sample record stands for under `action`, if the record
/// holds all the fields that the action's decoder reads. The end of an
/// interrupt is an event whatever the record holds.
pub open spec fn event_of(action: Action, record: Seq<u8>, order: Endianness) -> Option<EventView> {
    match action {
        Action::Ignore => None,
        Action::Switch(parser) => match SchedSwitch::decoded(parser@, record, order) {
            Some(parsed) => Some(switch_event(parsed)),
            None => None,
        },
        Action::Migrate(parser) => match SchedMigrateTask::decoded(parser@, record, order) {
            Some(parsed) => Some(migrate_event(parsed)),
            None => None,
        },
        Action::EnterIrq(parser) => match IrqHandlerEntry::decoded(parser@, record, order) {
            Some(parsed) => Some(irq_event(parsed)),
            None => None,
        },
        Action::ExitIrq(_) => Some(EventView::End),
        Action::EnterSoftirq(parser) => match SoftirqEntry::decoded(parser@, record, order) {
            Some(parsed) => Some(softirq_event(parsed)),
            None => None,
        },
        Action::ExitSoftirq(_) => Some(EventView::End),
        Action::EnterTasklet(parser) => match TaskletEntry::decoded(parser@, record, order) {
            Some(parsed) => Some(tasklet_event(parsed)),
            None => None,
        },
        Action::ExitTasklet(_) => Some(EventView::End),
    }
}

/// Whether `bytes` begins with the bytes of `prefix`.
fn begins_with(bytes: &[u8], prefix: &str) -> (r: bool)
    ensures
        r == encode_utf8(prefix@).is_prefix_of(bytes@),
{
    let p = prefix.as_bytes();
    if p.len() > bytes.len() {
        return false;
    }
    let mut i: usize = 0;
    while i < p.len()
        invariant
            i <= p@.len(),
            p@.len() <= bytes@.len(),
            p@ == encode_utf8(prefix@),
            forall|j: int| 0 <= j < i ==> p@[j] == bytes@[j],
        decreases p@.len() - i,
    {
        if p[i] != bytes[i] {
            assert(p@[i as int] != bytes@.subrange(0, p@.len() as int)[i as int]);
            return false;
        }
        i += 1;
    }
    assert(p@ =~= bytes@.subrange(0, p@.len() as int));
    true
}

impl Event {
    /// The event that a sample record stands for under `action`, in the
    /// given byte order.
    pub fn parse(action: &Action, data: &[u8], endian: Endianness) -> (r: Result<
        Self,
        DecodeError,
    >)
        requires
            !(action is Ignore),
            action.wf(),
        ensures
            r is Ok ==> texts_are_plain(action.ops(), action.shapes(), data@, endian),
            match r {
                Ok(event) => event_of(*action, data@, endian) == Some(event@),
                Err(e) => e == DecodeError::UnexpectedEof && event_of(*action, data@, endian)
                    is None,
            },
    {
        match endian {
            Endianness::LittleEndian => Self::parse_impl::<LittleEndian>(action, data),
            Endianness::BigEndian => Self::parse_impl::<BigEndian>(action, data),
        }
    }

    /// The event that a sample record stands for under `action`, in the
    /// byte order `O`.
    pub fn parse_impl<O: ByteOrder>(action: &Action, data: &[u8]) -> (r: Result<Self, DecodeError>)
        requires
            !(action is Ignore),
            action.wf(),
        ensures
            r is Ok ==> texts_are_plain(action.ops(), action.shapes(), data@, O::endianness()),
            match r {
                Ok(event) => event_of(*action, data@, O::endianness()) == Some(event@),
                Err(e) => e == DecodeError::UnexpectedEof && event_of(
                    *action,
                    data@,
                    O::endianness(),
                ) is None,
            },
    {
        // We need to use dynamic parsers here, since the tracepoint format does
        // change between kernel versions.
        match action {
            Action::Ignore => unreached(),
            Action::Switch(parser) => Ok(Self::switch(SchedSwitch::parse::<O>(parser, data)?)),
            Action::Migrate(parser) => Ok(
                Self::migrate(SchedMigrateTask::parse::<O>(parser, data)?),
            ),
            Action::EnterIrq(parser) => Ok(
                Self::enter_irq(IrqHandlerEntry::parse::<O>(parser, data)?),
            ),
            Action::ExitIrq(_) => Ok(Event::End),
            Action::EnterSoftirq(parser) => Ok(
                Self::enter_softirq(SoftirqEntry::parse::<O>(parser, data)?),
            ),
            Action::ExitSoftirq(_) => Ok(Event::End),
            Action::EnterTasklet(parser) => Ok(
                Self::enter_tasklet(TaskletEntry::parse::<O>(parser, data)?),
            ),
            Action::ExitTasklet(_) => Ok(Event::End),
        }
    }

    /// The event that a decoded `sched_switch` record stands for.
    pub fn switch(parsed: SchedSwitch) -> (event: Event)
        ensures
            event@ == switch_event(parsed@),
    {
        let state = Self::classify(parsed.next_comm.as_str().as_bytes());
        Event::BeginThread { state, comm: parsed.next_comm, pid: parsed.next_pid }
    }

    /// The event that a decoded `sched_migrate_task` record stands for.
    pub fn migrate(parsed: SchedMigrateTask) -> (event: Event)
        ensures
            event@ == migrate_event(parsed@),
    {
        Event::Migrate { from: parsed.orig_cpu, to: parsed.dest_cpu }
    }

    /// The event that a decoded `irq_handler_entry` record stands for.
    pub fn enter_irq(parsed: IrqHandlerEntry) -> (event: Event)
        ensures
            event@ == irq_event(parsed@),
    {
        let mut tag = "IRQ ".to_owned();
        push_signed_decimal(&mut tag, parsed.irq as i64);
        tag.append(": ");
        tag.append(parsed.name.as_str());
        Event::BeginOther { state: CpuState::Irq, tag }
    }

    /// The event that a decoded `softirq_entry` record stands for.
    pub fn enter_softirq(parsed: SoftirqEntry) -> (event: Event)
        ensures
            event@ == softirq_event(parsed),
    {
        let mut tag = "Softirq ".to_owned();
        push_signed_decimal(&mut tag, parsed.vec as i64);
        Event::BeginOther { state: CpuState::Softirq, tag }
    }

    /// The event that a decoded `tasklet_entry` record stands for.
    pub fn enter_tasklet(parsed: TaskletEntry) -> (event: Event)
        ensures
            event@ == tasklet_event(parsed),
    {
        let mut tag = "Tasklet 0x".to_owned();
        push_hex(&mut tag, parsed.tasklet);
        Event::BeginOther { state: CpuState::Tasklet, tag }
    }

    /// Attempt to classify into user space vs kernel space threads, by the
    /// command name of the task.
    ///
    /// Not very accurate.
    pub fn classify(comm: &[u8]) -> (state: CpuState)
        ensures
            state == classified(comm@),
    {
        if begins_with(comm, "swapper/") {
            return CpuState::Idle;
        }
        if begins_with(comm, "migration/") {
            return CpuState::Idle;
        }
        if begins_with(comm, "ksoftirqd/") {
            return CpuState::Softirq;
        }
        if begins_with(comm, "irq/") {
            return CpuState::Irq;
        }
        if begins_with(comm, "kworker/") || begins_with(comm, "rcu_") {
            return CpuState::Kernel;
        }
        CpuState::User
    }
}

} // verus!
