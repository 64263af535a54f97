//! The per-CPU state machine: which state each CPU is in, and which state
//! it returns to when an interrupt ends.

use crate::parsers::{Event, EventView};
use crate::statemap::{copy_text, DatumView, StatemapInputDatum};
use crate::text::{
    all_digits, decimal_digits, decimal_string, lemma_decimal_digits_value, push_signed_decimal,
    signed_decimal,
};
use crate::types::CpuState;
use vstd::prelude::*;
use vstd::string::StringExecFns;

verus! {

/// What is known of one CPU at one time.
pub type Slot = DatumView<CpuState>;

/// The state of the engine: for each CPU the slot it is in and the slot
/// that was set aside when it last entered an interrupt.
pub ghost struct EngineView {
    /// The time of the first sample; times in slots count from it.
    pub start_time: u64,
    pub current: Seq<Slot>,
    pub saved: Seq<Slot>,
}

/// The slot of CPU `cpu` before any event.
pub open spec fn initial_slot(cpu: nat) -> Slot {
    DatumView { time: 0, entity: decimal_digits(cpu), state: CpuState::Idle, tag: None }
}

/// The engine for `num_cpus` CPUs before any event.
pub open spec fn initial(num_cpus: nat, start_time: u64) -> EngineView {
    EngineView {
        start_time,
        current: Seq::new(num_cpus, |cpu: int| initial_slot(cpu as nat)),
        saved: Seq::new(num_cpus, |cpu: int| initial_slot(cpu as nat)),
    }
}

impl EngineView {
    /// Both slots of each CPU carry the CPU's number as their entity.
    pub open spec fn wf(self) -> bool {
        &&& self.current.len() == self.saved.len()
        &&& forall|cpu: int|
            0 <= cpu < self.current.len() ==> (#[trigger] self.current[cpu]).entity
                == decimal_digits(cpu as nat)
        &&& forall|cpu: int|
            0 <= cpu < self.saved.len() ==> (#[trigger] self.saved[cpu]).entity == decimal_digits(
                cpu as nat,
            )
    }

    /// The number of CPUs.
    pub open spec fn num_cpus(self) -> nat {
        self.current.len()
    }
}

/// The tag of a thread.
pub open spec fn thread_tag(comm: Seq<char>, pid: i32) -> Seq<char> {
    comm + ":"@ + signed_decimal(pid as int)
}

/// `slot` at another time.
pub open spec fn at_time(slot: Slot, time: u64) -> Slot {
    DatumView { time, entity: slot.entity, state: slot.state, tag: slot.tag }
}

/// `slot` in another state, since `time`.
pub open spec fn entered(slot: Slot, time: u64, state: CpuState, tag: Option<Seq<char>>) -> Slot {
    DatumView { time, entity: slot.entity, state, tag }
}

/// The event can be applied: the CPU exists, the sample is not older than
/// the first one, and a migration is between two different CPUs that exist.
pub open spec fn applies(engine: EngineView, cpu: int, timestamp: u64, event: EventView) -> bool {
    &&& 0 <= cpu < engine.num_cpus()
    &&& engine.start_time <= timestamp
    &&& event matches EventView::Migrate { from, to } ==> {
        &&& from != to
        &&& 0 <= from < engine.num_cpus()
        &&& 0 <= to < engine.num_cpus()
    }
}

/// The engine after `event` was seen on CPU `cpu` at time `time`, counted
/// from the first sample.
pub open spec fn step(engine: EngineView, cpu: int, time: u64, event: EventView) -> EngineView {
    match event {
        EventView::BeginThread { state, comm, pid } => EngineView {
            start_time: engine.start_time,
            current: engine.current.update(
                cpu,
                entered(engine.current[cpu], time, state, Some(thread_tag(comm, pid))),
            ),
            saved: engine.saved,
        },
        EventView::BeginOther { state, tag } => EngineView {
            start_time: engine.start_time,
            current: engine.current.update(
                cpu,
                entered(engine.current[cpu], time, state, Some(tag)),
            ),
            saved: engine.saved.update(cpu, engine.current[cpu]),
        },
        EventView::End => EngineView {
            start_time: engine.start_time,
            current: engine.current.update(cpu, at_time(engine.saved[cpu], time)),
            saved: engine.saved,
        },
        EventView::Migrate { from, to } => {
            let source = engine.current[from as int];
            let moved = engine.current.update(
                to as int,
                entered(engine.current[to as int], time, source.state, source.tag),
            ).update(from as int, entered(source, time, CpuState::Idle, Some(Seq::empty())));
            EngineView {
                start_time: engine.start_time,
                current: moved.update(cpu, at_time(moved[cpu], time)),
                saved: engine.saved,
            }
        },
    }
}

/// The lines that are written when `event` is seen on CPU `cpu` at time
/// `time`: the CPU's new slot; for a migration the new slots of the
/// destination and of the source, in that order.
pub open spec fn emitted(engine: EngineView, cpu: int, time: u64, event: EventView) -> Seq<Slot> {
    let after = step(engine, cpu, time, event);
    match event {
        EventView::Migrate { from, to } => seq![
            after.current[to as int],
            after.current[from as int],
        ],
        _ => seq![after.current[cpu]],
    }
}

/// One event, seen on CPU `cpu` when the clock of the capture showed
/// `timestamp`.
pub ghost struct Sample {
    pub cpu: int,
    pub timestamp: u64,
    pub event: EventView,
}

/// The time of a sample, counted from the first sample.
pub open spec fn time_of(engine: EngineView, sample: Sample) -> u64 {
    (sample.timestamp - engine.start_time) as u64
}

/// The engine after `samples` were applied in order.
pub open spec fn run(engine: EngineView, samples: Seq<Sample>) -> EngineView
    decreases samples.len(),
{
    if samples.len() == 0 {
        engine
    } else {
        let before = run(engine, samples.drop_last());
        let last = samples.last();
        step(before, last.cpu, time_of(engine, last), last.event)
    }
}

/// Each of `samples` can be applied when its turn comes.
pub open spec fn all_apply(engine: EngineView, samples: Seq<Sample>) -> bool {
    forall|i: int|
        0 <= i < samples.len() ==> applies(
            engine,
            (#[trigger] samples[i]).cpu,
            samples[i].timestamp,
            samples[i].event,
        )
}

/// The lines written while `samples` are applied in order.
pub open spec fn lines_of(engine: EngineView, samples: Seq<Sample>) -> Seq<Slot>
    decreases samples.len(),
{
    if samples.len() == 0 {
        Seq::empty()
    } else {
        let before = run(engine, samples.drop_last());
        let last = samples.last();
        lines_of(engine, samples.drop_last()) + emitted(
            before,
            last.cpu,
            time_of(engine, last),
            last.event,
        )
    }
}

/// An event that can be applied leaves the number of CPUs, the time of the
/// first sample and the entities as they are.
pub proof fn lemma_step_keeps_shape(engine: EngineView, cpu: int, timestamp: u64, event: EventView)
    requires
        engine.wf(),
        applies(engine, cpu, timestamp, event),
    ensures
        step(engine, cpu, (timestamp - engine.start_time) as u64, event).wf(),
        step(engine, cpu, (timestamp - engine.start_time) as u64, event).num_cpus()
            == engine.num_cpus(),
        step(engine, cpu, (timestamp - engine.start_time) as u64, event).start_time
            == engine.start_time,
{
}

/// Events that can be applied leave the number of CPUs, the time of the
/// first sample and the entities as they are.
pub proof fn lemma_run_keeps_shape(engine: EngineView, samples: Seq<Sample>)
    requires
        engine.wf(),
        all_apply(engine, samples),
    ensures
        run(engine, samples).wf(),
        run(engine, samples).num_cpus() == engine.num_cpus(),
        run(engine, samples).start_time == engine.start_time,
    decreases samples.len(),
{
    if samples.len() > 0 {
        let earlier = samples.drop_last();
        assert forall|i: int| 0 <= i < earlier.len() implies applies(
            engine,
            (#[trigger] earlier[i]).cpu,
            earlier[i].timestamp,
            earlier[i].event,
        ) by {
            assert(earlier[i] == samples[i]);
        }
        lemma_run_keeps_shape(engine, earlier);
        let last = samples.last();
        assert(last == samples[samples.len() - 1]);
        lemma_step_keeps_shape(run(engine, earlier), last.cpu, last.timestamp, last.event);
    }
}

/// Every CPU is at every time in one of the six states, which are written
/// as the numbers 0 to 5.
pub proof fn lemma_state_in_range(engine: EngineView, samples: Seq<Sample>, cpu: int)
    requires
        engine.wf(),
        all_apply(engine, samples),
        0 <= cpu < engine.num_cpus(),
    ensures
        0 <= run(engine, samples).current[cpu].state.spec_value() <= 5,
{
}

/// In every line that is written the time is a number in base ten, the
/// state is a number from 0 to 5, and the entity is one or more decimal
/// digits.
pub proof fn lemma_lines_are_plain(
    engine: EngineView,
    cpu: int,
    timestamp: u64,
    event: EventView,
    k: int,
)
    requires
        engine.wf(),
        applies(engine, cpu, timestamp, event),
        0 <= k < emitted(engine, cpu, (timestamp - engine.start_time) as u64, event).len(),
    ensures
        ({
            let line = emitted(engine, cpu, (timestamp - engine.start_time) as u64, event)[k];
            &&& decimal_digits(line.time as nat).len() >= 1
            &&& all_digits(decimal_digits(line.time as nat))
            &&& line.state.spec_value() <= 5
            &&& line.entity.len() >= 1
            &&& all_digits(line.entity)
        }),
{
    let time = (timestamp - engine.start_time) as u64;
    let after = step(engine, cpu, time, event);
    let line = emitted(engine, cpu, time, event)[k];
    lemma_step_keeps_shape(engine, cpu, timestamp, event);
    lemma_decimal_digits_value(line.time as nat);
    match event {
        EventView::Migrate { from, to } => {
            if k == 0 {
                assert(line == after.current[to as int]);
                lemma_decimal_digits_value(to as nat);
            } else {
                assert(line == after.current[from as int]);
                lemma_decimal_digits_value(from as nat);
            }
        },
        _ => {
            assert(line == after.current[cpu]);
            lemma_decimal_digits_value(cpu as nat);
        },
    }
}

/// No sample of `samples` enters an interrupt on CPU `cpu`.
pub open spec fn none_enters(samples: Seq<Sample>, cpu: int) -> bool {
    forall|i: int|
        0 <= i < samples.len() ==> !((#[trigger] samples[i]).cpu == cpu
            && samples[i].event is BeginOther)
}

/// Nothing but the entry into an interrupt changes what a CPU returns to.
pub proof fn lemma_saved_stays(engine: EngineView, samples: Seq<Sample>, cpu: int)
    requires
        engine.wf(),
        all_apply(engine, samples),
        none_enters(samples, cpu),
        0 <= cpu < engine.num_cpus(),
    ensures
        run(engine, samples).saved[cpu] == engine.saved[cpu],
    decreases samples.len(),
{
    if samples.len() > 0 {
        let earlier = samples.drop_last();
        assert forall|i: int| 0 <= i < earlier.len() implies applies(
            engine,
            (#[trigger] earlier[i]).cpu,
            earlier[i].timestamp,
            earlier[i].event,
        ) && !(earlier[i].cpu == cpu && earlier[i].event is BeginOther) by {
            assert(earlier[i] == samples[i]);
        }
        lemma_saved_stays(engine, earlier, cpu);
        lemma_run_keeps_shape(engine, earlier);
        assert(samples.last() == samples[samples.len() - 1]);
    }
}

/// When an interrupt ends on a CPU, and no other interrupt was entered on
/// that CPU since this one was, the CPU is back in the slot it was in
/// before the interrupt, at the new time.
pub proof fn lemma_interrupt_returns(
    engine: EngineView,
    cpu: int,
    entry_time: u64,
    state: CpuState,
    tag: Seq<char>,
    between: Seq<Sample>,
    exit_time: u64,
)
    requires
        engine.wf(),
        0 <= cpu < engine.num_cpus(),
        engine.start_time <= entry_time,
        all_apply(engine, between),
        none_enters(between, cpu),
    ensures
        ({
            let inside = step(
                engine,
                cpu,
                (entry_time - engine.start_time) as u64,
                EventView::BeginOther { state, tag },
            );
            step(run(inside, between), cpu, exit_time, EventView::End).current[cpu] == at_time(
                engine.current[cpu],
                exit_time,
            )
        }),
{
    let enter = EventView::BeginOther { state, tag };
    let inside = step(engine, cpu, (entry_time - engine.start_time) as u64, enter);
    lemma_step_keeps_shape(engine, cpu, entry_time, enter);
    assert forall|i: int| 0 <= i < between.len() implies applies(
        inside,
        (#[trigger] between[i]).cpu,
        between[i].timestamp,
        between[i].event,
    ) by {}
    lemma_saved_stays(inside, between, cpu);
    lemma_run_keeps_shape(inside, between);
}

/// After a migration the destination carries the tag that the source had,
/// and the source carries the empty tag, which is a tag.
pub proof fn lemma_migration_moves_tag(
    engine: EngineView,
    cpu: int,
    timestamp: u64,
    from: i32,
    to: i32,
)
    requires
        engine.wf(),
        applies(engine, cpu, timestamp, EventView::Migrate { from, to }),
    ensures
        ({
            let after = step(
                engine,
                cpu,
                (timestamp - engine.start_time) as u64,
                EventView::Migrate { from, to },
            );
            &&& after.current[to as int].tag == engine.current[from as int].tag
            &&& after.current[to as int].state == engine.current[from as int].state
            &&& after.current[from as int].tag == Some(Seq::<char>::empty())
            &&& after.current[from as int].state == CpuState::Idle
        }),
{
}

/// A migration changes the destination and the source; of the CPU on which
/// it was seen it changes the time only; every other slot, and what each
/// CPU returns to, stays as it is.
pub proof fn lemma_migration_leaves_others(
    engine: EngineView,
    cpu: int,
    timestamp: u64,
    from: i32,
    to: i32,
    other: int,
)
    requires
        engine.wf(),
        applies(engine, cpu, timestamp, EventView::Migrate { from, to }),
        0 <= other < engine.num_cpus(),
        other != from,
        other != to,
    ensures
        ({
            let time = (timestamp - engine.start_time) as u64;
            let after = step(engine, cpu, time, EventView::Migrate { from, to });
            &&& after.saved == engine.saved
            &&& other != cpu ==> after.current[other] == engine.current[other]
            &&& other == cpu ==> after.current[other] == at_time(engine.current[other], time)
        }),
{
}

/// The timestamps of `samples` do not fall.
pub open spec fn in_order(samples: Seq<Sample>) -> bool {
    forall|i: int, j: int|
        0 <= i <= j < samples.len() ==> (#[trigger] samples[i]).timestamp <= (
        #[trigger] samples[j]).timestamp
}

/// Every line that is written carries the time of the sample that wrote it,
/// so no line is later than the last sample so far.
proof fn lemma_lines_bounded(engine: EngineView, samples: Seq<Sample>, k: int)
    requires
        engine.wf(),
        all_apply(engine, samples),
        in_order(samples),
        0 <= k < lines_of(engine, samples).len(),
    ensures
        samples.len() > 0,
        lines_of(engine, samples)[k].time <= time_of(engine, samples.last()),
    decreases samples.len(),
{
    if samples.len() > 0 {
        let earlier = samples.drop_last();
        let last = samples.last();
        assert(last == samples[samples.len() - 1]);
        assert forall|i: int| 0 <= i < earlier.len() implies applies(
            engine,
            (#[trigger] earlier[i]).cpu,
            earlier[i].timestamp,
            earlier[i].event,
        ) by {
            assert(earlier[i] == samples[i]);
        }
        assert forall|i: int, j: int| 0 <= i <= j < earlier.len() implies (
        #[trigger] earlier[i]).timestamp <= (#[trigger] earlier[j]).timestamp by {
            assert(earlier[i] == samples[i]);
            assert(earlier[j] == samples[j]);
        }
        lemma_run_keeps_shape(engine, earlier);
        if k < lines_of(engine, earlier).len() {
            lemma_lines_bounded(engine, earlier, k);
            assert(earlier.last() == samples[samples.len() - 2]);
        }
    }
}

/// When the timestamps of the samples do not fall, the times of the lines
/// written for one entity do not fall either.
pub proof fn lemma_lines_in_order(engine: EngineView, samples: Seq<Sample>, i: int, j: int)
    requires
        engine.wf(),
        all_apply(engine, samples),
        in_order(samples),
        0 <= i <= j < lines_of(engine, samples).len(),
        lines_of(engine, samples)[i].entity == lines_of(engine, samples)[j].entity,
    ensures
        lines_of(engine, samples)[i].time <= lines_of(engine, samples)[j].time,
    decreases samples.len(),
{
    if samples.len() > 0 {
        let earlier = samples.drop_last();
        let last = samples.last();
        assert(last == samples[samples.len() - 1]);
        assert forall|a: int| 0 <= a < earlier.len() implies applies(
            engine,
            (#[trigger] earlier[a]).cpu,
            earlier[a].timestamp,
            earlier[a].event,
        ) by {
            assert(earlier[a] == samples[a]);
        }
        assert forall|a: int, b: int| 0 <= a <= b < earlier.len() implies (
        #[trigger] earlier[a]).timestamp <= (#[trigger] earlier[b]).timestamp by {
            assert(earlier[a] == samples[a]);
            assert(earlier[b] == samples[b]);
        }
        lemma_run_keeps_shape(engine, earlier);
        let old_len = lines_of(engine, earlier).len();
        if j < old_len {
            lemma_lines_in_order(engine, earlier, i, j);
        } else if i < old_len {
            lemma_lines_bounded(engine, earlier, i);
            assert(earlier.last() == samples[samples.len() - 2]);
        }
    }
}

/// The views of `data`, in order.
pub open spec fn slots_of(data: Seq<StatemapInputDatum<CpuState>>) -> Seq<Slot> {
    Seq::new(data.len(), |i: int| data[i]@)
}

/// The per-CPU state machine.
#[derive(Debug, Clone)]
pub struct StateEngine {
    start_time: u64,
    states: Vec<StatemapInputDatum<CpuState>>,
    prev_states: Vec<StatemapInputDatum<CpuState>>,
}

impl View for StateEngine {
    type V = EngineView;

    closed spec fn view(&self) -> EngineView {
        EngineView {
            start_time: self.start_time,
            current: slots_of(self.states@),
            saved: slots_of(self.prev_states@),
        }
    }
}

impl StateEngine {
    /// The engine for `num_cpus` CPUs, for a capture whose first sample was
    /// taken at `start_time`.
    pub fn new(num_cpus: usize, start_time: u64) -> (engine: Self)
        ensures
            engine@ == initial(num_cpus as nat, start_time),
            engine@.wf(),
    {
        let mut states: Vec<StatemapInputDatum<CpuState>> = Vec::new();
        let mut prev_states: Vec<StatemapInputDatum<CpuState>> = Vec::new();
        let mut cpu: usize = 0;
        while cpu < num_cpus
            invariant
                cpu <= num_cpus,
                states@.len() == cpu,
                prev_states@.len() == cpu,
                forall|i: int| 0 <= i < cpu ==> (#[trigger] states@[i])@ == initial_slot(i as nat),
                forall|i: int|
                    0 <= i < cpu ==> (#[trigger] prev_states@[i])@ == initial_slot(i as nat),
            decreases num_cpus - cpu,
        {
            states.push(
                StatemapInputDatum {
                    time: 0,
                    entity: decimal_string(cpu as u64),
                    state: CpuState::Idle,
                    tag: None,
                },
            );
            prev_states.push(
                StatemapInputDatum {
                    time: 0,
                    entity: decimal_string(cpu as u64),
                    state: CpuState::Idle,
                    tag: None,
                },
            );
            cpu += 1;
        }
        let engine = StateEngine { start_time, states, prev_states };
        assert(engine@.current =~= initial(num_cpus as nat, start_time).current);
        assert(engine@.saved =~= initial(num_cpus as nat, start_time).saved);
        engine
    }

    /// The number of CPUs.
    pub fn num_cpus(&self) -> (n: usize)
        ensures
            n == self@.num_cpus(),
    {
        self.states.len()
    }

    /// The time of the first sample.
    pub fn start_time(&self) -> (t: u64)
        ensures
            t == self@.start_time,
    {
        self.start_time
    }

    /// The slot that CPU `cpu` is in.
    pub fn current(&self, cpu: usize) -> (slot: StatemapInputDatum<CpuState>)
        requires
            cpu < self@.num_cpus(),
        ensures
            slot@ == self@.current[cpu as int],
    {
        self.states[cpu].duplicate()
    }

    /// Whether `event`, seen on CPU `cpu` at `timestamp`, can be applied.
    pub fn accepts(&self, cpu: usize, timestamp: u64, event: &Event) -> (r: bool)
        ensures
            r == applies(self@, cpu as int, timestamp, event@),
    {
        let n = self.states.len();
        if cpu >= n || timestamp < self.start_time {
            return false;
        }
        match event {
            Event::Migrate { from, to } => *from != *to && 0 <= *from && (*from as u64) < n as u64
                && 0 <= *to && (*to as u64) < n as u64,
            _ => true,
        }
    }

    /// Applies `event`, seen on CPU `cpu` at `timestamp`, and returns the
    /// lines to write.
    pub fn apply(&mut self, cpu: usize, timestamp: u64, event: Event) -> (lines: Vec<
        StatemapInputDatum<CpuState>,
    >)
        requires
            old(self)@.wf(),
            applies(old(self)@, cpu as int, timestamp, event@),
        ensures
            final(self)@.wf(),
            final(self)@ == step(
                old(self)@,
                cpu as int,
                (timestamp - old(self)@.start_time) as u64,
                event@,
            ),
            slots_of(lines@) == emitted(
                old(self)@,
                cpu as int,
                (timestamp - old(self)@.start_time) as u64,
                event@,
            ),
    {
        let time = timestamp - self.start_time;
        let ghost before = self@;
        let mut lines: Vec<StatemapInputDatum<CpuState>> = Vec::new();
        match event {
            Event::BeginThread { state, comm, pid } => {
                let mut tag = comm;
                tag.append(":");
                push_signed_decimal(&mut tag, pid as i64);
                let slot = StatemapInputDatum {
                    time,
                    entity: self.states[cpu].entity.clone(),
                    state,
                    tag: Some(tag),
                };
                lines.push(slot.duplicate());
                self.states[cpu] = slot;
            },
            Event::BeginOther { state, tag } => {
                let slot = StatemapInputDatum {
                    time,
                    entity: self.states[cpu].entity.clone(),
                    state,
                    tag: Some(tag),
                };
                lines.push(slot.duplicate());
                let aside = self.states[cpu].duplicate();
                self.prev_states[cpu] = aside;
                self.states[cpu] = slot;
            },
            Event::End => {
                let mut slot = self.prev_states[cpu].duplicate();
                slot.time = time;
                lines.push(slot.duplicate());
                self.states[cpu] = slot;
            },
            Event::Migrate { from, to } => {
                let from = from as usize;
                let to = to as usize;
                let arrived = StatemapInputDatum {
                    time,
                    entity: self.states[to].entity.clone(),
                    state: self.states[from].state,
                    tag: copy_text(&self.states[from].tag),
                };
                let left = StatemapInputDatum {
                    time,
                    entity: self.states[from].entity.clone(),
                    state: CpuState::Idle,
                    // The statemap tool doesn't deal with a missing tag correctly.
                    tag: Some(String::new()),
                };
                self.states[to] = arrived;
                self.states[from] = left;
                let mut seen = self.states[cpu].duplicate();
                seen.time = time;
                self.states[cpu] = seen;
                lines.push(self.states[to].duplicate());
                lines.push(self.states[from].duplicate());
            },
        }
        proof {
            let after = step(before, cpu as int, time, event@);
            assert(self@.current =~= after.current);
            assert(self@.saved =~= after.saved);
            assert(slots_of(lines@) =~= emitted(before, cpu as int, time, event@));
        }
        lines
    }
}

} // verus!
