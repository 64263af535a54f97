//! The records of the statemap format: one header, then one datum per state
//! change.

use crate::text::{decimal_digits, decimal_string};
use crate::types::CpuState;
use vstd::prelude::*;

verus! {

/// How one state is drawn.
#[derive(Debug, Clone)]
pub struct StatemapInputState {
    /// color for state, if any
    pub color: Option<String>,
    /// value for state
    pub value: usize,
}

/// One state change of one entity.
#[derive(Debug, Clone)]
pub struct StatemapInputDatum<T> {
    /// time of this datum
    pub time: u64,
    /// name of entity
    pub entity: String,
    /// state entity is in at time
    pub state: T,
    /// tag for this state, if any
    pub tag: Option<String>,
}

/// The header of a statemap.
#[derive(Debug, Clone)]
#[allow(non_snake_case)]
pub struct StatemapInputMetadata {
    /// Seconds and nanoseconds of the time at which the timeline begins.
    pub start: Vec<u64>,
    pub title: String,
    pub host: Option<String>,
    pub entityKind: Option<String>,
    /// The states by name; no name occurs twice.
    pub states: Vec<(String, StatemapInputState)>,
}

/// The text of `s`, if there is one.
pub open spec fn text_of(s: Option<String>) -> Option<Seq<char>> {
    match s {
        Some(text) => Some(text@),
        None => None,
    }
}

/// A state's drawing, with its text as a sequence of characters.
pub ghost struct StateView {
    pub color: Option<Seq<char>>,
    pub value: usize,
}

impl View for StatemapInputState {
    type V = StateView;

    open spec fn view(&self) -> StateView {
        StateView { color: text_of(self.color), value: self.value }
    }
}

/// A datum, with its texts as sequences of characters.
pub ghost struct DatumView<T> {
    pub time: u64,
    pub entity: Seq<char>,
    pub state: T,
    pub tag: Option<Seq<char>>,
}

impl<T> View for StatemapInputDatum<T> {
    type V = DatumView<T>;

    open spec fn view(&self) -> DatumView<T> {
        DatumView {
            time: self.time,
            entity: self.entity@,
            state: self.state,
            tag: text_of(self.tag),
        }
    }
}

/// A copy of `text`.
pub fn copy_text(text: &Option<String>) -> (r: Option<String>)
    ensures
        text_of(r) == text_of(*text),
{
    match text {
        Some(s) => Some(s.clone()),
        None => None,
    }
}

impl<T: Copy> StatemapInputDatum<T> {
    /// A copy of the datum.
    pub fn duplicate(&self) -> (r: Self)
        ensures
            r@ == self@,
    {
        StatemapInputDatum {
            time: self.time,
            entity: self.entity.clone(),
            state: self.state,
            tag: copy_text(&self.tag),
        }
    }

    /// The time as it is written in the output: in base ten, as text.
    pub fn time_string(&self) -> (text: String)
        ensures
            text@ == decimal_digits(self.time as nat),
    {
        decimal_string(self.time)
    }
}

/// The views of the entries of a state table, in order.
pub open spec fn table_view(states: Seq<(String, StatemapInputState)>) -> Seq<
    (Seq<char>, StateView),
> {
    Seq::new(states.len(), |i: int| (states[i].0@, states[i].1@))
}

/// A header, with its texts as sequences of characters.
#[allow(non_snake_case)]
pub ghost struct MetadataView {
    pub start: Seq<u64>,
    pub title: Seq<char>,
    pub host: Option<Seq<char>>,
    pub entityKind: Option<Seq<char>>,
    pub states: Seq<(Seq<char>, StateView)>,
}

impl View for StatemapInputMetadata {
    type V = MetadataView;

    open spec fn view(&self) -> MetadataView {
        MetadataView {
            start: self.start@,
            title: self.title@,
            host: text_of(self.host),
            entityKind: text_of(self.entityKind),
            states: table_view(self.states@),
        }
    }
}

/// The name under which a state appears in the header.
pub open spec fn state_name(state: CpuState) -> Seq<char> {
    match state {
        CpuState::Idle => "Idle"@,
        CpuState::Irq => "Irq"@,
        CpuState::Softirq => "Softirq"@,
        CpuState::Tasklet => "Tasklet"@,
        CpuState::Kernel => "Kernel"@,
        CpuState::User => "User"@,
    }
}

/// The colour in which a state is drawn.
pub open spec fn state_color(state: CpuState) -> Seq<char> {
    match state {
        CpuState::Idle => "#e0e0e0"@,
        CpuState::Irq => "#FF0000"@,
        CpuState::Softirq => "#FF8000"@,
        CpuState::Tasklet => "#FFBF00"@,
        CpuState::Kernel => "#2E4E00"@,
        CpuState::User => "#9BC362"@,
    }
}

/// The entry of the header's state table for `state`.
pub open spec fn state_entry(state: CpuState) -> (Seq<char>, StateView) {
    (
        state_name(state),
        StateView { color: Some(state_color(state)), value: state.spec_value() as usize },
    )
}

/// The header's state table: the six states, by rising value.
pub open spec fn state_table() -> Seq<(Seq<char>, StateView)> {
    seq![
        state_entry(CpuState::Idle),
        state_entry(CpuState::Irq),
        state_entry(CpuState::Softirq),
        state_entry(CpuState::Tasklet),
        state_entry(CpuState::Kernel),
        state_entry(CpuState::User),
    ]
}

/// No two entries of a state table have one name.
pub open spec fn names_differ(states: Seq<(Seq<char>, StateView)>) -> bool {
    forall|i: int, j: int|
        0 <= i < j < states.len() ==> (#[trigger] states[i]).0 != (#[trigger] states[j]).0
}

/// In the header's state table each state stands once, under its own name
/// and with its own value.
pub proof fn lemma_state_table_names_differ()
    ensures
        names_differ(state_table()),
        forall|i: int| 0 <= i < state_table().len() ==> (#[trigger] state_table()[i]).1.value == i,
{
    reveal_strlit("Idle");
    reveal_strlit("Irq");
    reveal_strlit("Softirq");
    reveal_strlit("Tasklet");
    reveal_strlit("Kernel");
    reveal_strlit("User");
    let t = state_table();
    assert(t[0].0.len() == 4 && t[0].0[1] == 'd');
    assert(t[1].0.len() == 3);
    assert(t[2].0.len() == 7 && t[2].0[0] == 'S');
    assert(t[3].0.len() == 7 && t[3].0[0] == 'T');
    assert(t[4].0.len() == 6);
    assert(t[5].0.len() == 4 && t[5].0[1] == 's');
}

/// Nanoseconds in a second.
pub const NS_PER_S: u64 = 1_000_000_000;

/// The header of a timeline that begins `start_ns` nanoseconds after the
/// epoch, recorded on `host`.
pub open spec fn header_of(start_ns: u64, host: Option<Seq<char>>) -> MetadataView {
    MetadataView {
        start: seq![start_ns / NS_PER_S, start_ns % NS_PER_S],
        title: "CPU"@,
        host,
        entityKind: Some("CPU"@),
        states: state_table(),
    }
}

/// The entry of the header's state table for `state`.
fn table_entry(state: CpuState) -> (entry: (String, StatemapInputState))
    ensures
        (entry.0@, entry.1@) == state_entry(state),
{
    let (name, color) = match state {
        CpuState::Idle => ("Idle", "#e0e0e0"),
        CpuState::Irq => ("Irq", "#FF0000"),
        CpuState::Softirq => ("Softirq", "#FF8000"),
        CpuState::Tasklet => ("Tasklet", "#FFBF00"),
        CpuState::Kernel => ("Kernel", "#2E4E00"),
        CpuState::User => ("User", "#9BC362"),
    };
    (
        name.to_owned(),
        StatemapInputState { color: Some(color.to_owned()), value: state.value() as usize },
    )
}

/// The header of a timeline that begins `start_ns` nanoseconds after the
/// epoch, recorded on `host`.
pub fn header_metadata(start_ns: u64, host: Option<&str>) -> (header: StatemapInputMetadata)
    ensures
        header@ == header_of(
            start_ns,
            match host {
                Some(name) => Some(name@),
                None => None,
            },
        ),
{
    let mut states: Vec<(String, StatemapInputState)> = Vec::new();
    states.push(table_entry(CpuState::Idle));
    states.push(table_entry(CpuState::Irq));
    states.push(table_entry(CpuState::Softirq));
    states.push(table_entry(CpuState::Tasklet));
    states.push(table_entry(CpuState::Kernel));
    states.push(table_entry(CpuState::User));
    assert(table_view(states@) =~= state_table());
    let mut start: Vec<u64> = Vec::new();
    start.push(start_ns / NS_PER_S);
    start.push(start_ns % NS_PER_S);
    assert(start@ =~= seq![start_ns / NS_PER_S, start_ns % NS_PER_S]);
    let host = match host {
        Some(name) => Some(name.to_owned()),
        None => None,
    };
    StatemapInputMetadata {
        start,
        title: "CPU".to_owned(),
        host,
        entityKind: Some("CPU".to_owned()),
        states,
    }
}

} // verus!
