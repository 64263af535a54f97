use perf_statemap::engine::StateEngine;
use perf_statemap::parsers::{timeline_start, ClockData, Event};
use perf_statemap::statemap::{header_metadata, StatemapInputDatum};
use perf_statemap::types::CpuState;

fn thread(state: CpuState, comm: &str, pid: i32) -> Event {
    Event::BeginThread { state, comm: String::from(comm), pid }
}

fn line(d: &StatemapInputDatum<CpuState>) -> (String, String, u8, Option<String>) {
    (d.time_string(), d.entity.clone(), d.state.value(), d.tag.clone())
}

#[test]
fn bootstrap_header_only() {
    let header = header_metadata(timeline_start(None, 123), None);
    assert_eq!(header.start, vec![0, 0]);
    assert_eq!(header.title, "CPU");
    assert_eq!(header.host, None);
    assert_eq!(header.entityKind.as_deref(), Some("CPU"));
    let states: Vec<(&str, Option<&str>, usize)> = header
        .states
        .iter()
        .map(|(name, state)| (name.as_str(), state.color.as_deref(), state.value))
        .collect();
    assert_eq!(
        states,
        vec![
            ("Idle", Some("#e0e0e0"), 0),
            ("Irq", Some("#FF0000"), 1),
            ("Softirq", Some("#FF8000"), 2),
            ("Tasklet", Some("#FFBF00"), 3),
            ("Kernel", Some("#2E4E00"), 4),
            ("User", Some("#9BC362"), 5),
        ]
    );
    let engine = StateEngine::new(4, 0);
    assert_eq!(engine.num_cpus(), 4);
    for cpu in 0..4 {
        let slot = engine.current(cpu);
        assert_eq!(line(&slot), (String::from("0"), cpu.to_string(), 0, None));
    }
}

#[test]
fn header_with_clock_and_host() {
    let clock = ClockData {
        version: 1,
        clockid: 4,
        wall_clock_ns: 1_700_000_000_000_000_000,
        clockid_time_ns: 10_000_000_000,
    };
    assert!(clock.covers(10_500_000_000));
    assert_eq!(clock.wall_clock_at(10_500_000_000), 1_700_000_000_500_000_000);
    let start = timeline_start(Some(clock), 10_500_000_000);
    let header = header_metadata(start, Some("box"));
    assert_eq!(header.start, vec![1_700_000_000, 500_000_000]);
    assert_eq!(header.host.as_deref(), Some("box"));
    // A first sample from before the clock was read.
    assert_eq!(clock.wall_clock_at(9_999_999_999), 1_699_999_999_999_999_999);
    let early = ClockData { version: 1, clockid: 4, wall_clock_ns: 5, clockid_time_ns: 10 };
    assert!(!early.covers(4));
    assert!(early.covers(5));
    let late = ClockData { version: 1, clockid: 4, wall_clock_ns: u64::MAX, clockid_time_ns: 0 };
    assert!(!late.covers(1));
    assert!(late.covers(0));
}

#[test]
fn idle_to_thread() {
    let mut engine = StateEngine::new(2, 0);
    let event = thread(CpuState::User, "bash", 42);
    assert!(engine.accepts(1, 1000, &event));
    let lines = engine.apply(1, 1000, event);
    assert_eq!(lines.len(), 1);
    assert_eq!(
        line(&lines[0]),
        (String::from("1000"), String::from("1"), 5, Some(String::from("bash:42")))
    );
    assert_eq!(lines[0].time, 1000);
    assert_eq!(line(&engine.current(0)), (String::from("0"), String::from("0"), 0, None));
}

#[test]
fn times_count_from_first_sample() {
    let mut engine = StateEngine::new(1, 5_000);
    assert_eq!(engine.start_time(), 5_000);
    let event = thread(CpuState::Kernel, "kworker/0:1", -1);
    assert!(!engine.accepts(0, 4_999, &event));
    assert!(!engine.accepts(1, 6_000, &event));
    let lines = engine.apply(0, 6_500, event);
    assert_eq!(lines[0].time, 1_500);
    assert_eq!(lines[0].tag.as_deref(), Some("kworker/0:1:-1"));
    assert_eq!(lines[0].state, CpuState::Kernel);
}

#[test]
fn irq_nesting() {
    let mut engine = StateEngine::new(1, 0);
    let mut out = Vec::new();
    out.extend(engine.apply(0, 0, thread(CpuState::User, "bash", 42)));
    out.extend(engine.apply(
        0,
        100,
        Event::BeginOther { state: CpuState::Irq, tag: String::from("IRQ 7: eth0") },
    ));
    out.extend(engine.apply(0, 200, Event::End));
    let lines: Vec<_> = out.iter().map(line).collect();
    assert_eq!(
        lines,
        vec![
            (String::from("0"), String::from("0"), 5, Some(String::from("bash:42"))),
            (String::from("100"), String::from("0"), 1, Some(String::from("IRQ 7: eth0"))),
            (String::from("200"), String::from("0"), 5, Some(String::from("bash:42"))),
        ]
    );
}

#[test]
fn only_one_level_is_kept() {
    // A soft interrupt inside a hard one: the second end returns to the
    // hard interrupt that was set aside last.
    let mut engine = StateEngine::new(1, 0);
    engine.apply(0, 0, thread(CpuState::User, "a", 1));
    engine.apply(0, 1, Event::BeginOther { state: CpuState::Irq, tag: String::from("i") });
    engine.apply(0, 2, Event::BeginOther { state: CpuState::Softirq, tag: String::from("s") });
    let lines = engine.apply(0, 3, Event::End);
    assert_eq!(line(&lines[0]), (String::from("3"), String::from("0"), 1, Some(String::from("i"))));
    let lines = engine.apply(0, 4, Event::End);
    assert_eq!(line(&lines[0]), (String::from("4"), String::from("0"), 1, Some(String::from("i"))));
}

#[test]
fn switch_inside_interrupt_keeps_saved() {
    let mut engine = StateEngine::new(2, 0);
    engine.apply(1, 0, thread(CpuState::User, "a", 1));
    engine.apply(1, 5, Event::BeginOther { state: CpuState::Tasklet, tag: String::from("t") });
    engine.apply(1, 6, thread(CpuState::User, "b", 2));
    let lines = engine.apply(1, 7, Event::End);
    assert_eq!(line(&lines[0]), (String::from("7"), String::from("1"), 5, Some(String::from("a:1"))));
}

#[test]
fn migrate_moves_tag() {
    let mut engine = StateEngine::new(4, 0);
    engine.apply(0, 0, thread(CpuState::User, "redis", 9));
    let event = Event::Migrate { from: 0, to: 3 };
    assert!(engine.accepts(0, 500, &event));
    let lines = engine.apply(0, 500, event);
    let lines: Vec<_> = lines.iter().map(line).collect();
    assert_eq!(
        lines,
        vec![
            (String::from("500"), String::from("3"), 5, Some(String::from("redis:9"))),
            (String::from("500"), String::from("0"), 0, Some(String::new())),
        ]
    );
    assert_eq!(line(&engine.current(3)).3, Some(String::from("redis:9")));
    assert_eq!(line(&engine.current(0)).3, Some(String::new()));
}

#[test]
fn migrate_seen_on_a_third_cpu() {
    let mut engine = StateEngine::new(3, 0);
    // Nothing runs on the source yet: the destination gets no tag.
    let lines = engine.apply(2, 40, Event::Migrate { from: 1, to: 0 });
    let lines: Vec<_> = lines.iter().map(line).collect();
    assert_eq!(
        lines,
        vec![
            (String::from("40"), String::from("0"), 0, None),
            (String::from("40"), String::from("1"), 0, Some(String::new())),
        ]
    );
    assert_eq!(engine.current(2).time, 40);
    assert_eq!(engine.current(2).tag, None);
}

#[test]
fn migrate_is_checked() {
    let engine = StateEngine::new(2, 0);
    assert!(!engine.accepts(0, 0, &Event::Migrate { from: 1, to: 1 }));
    assert!(!engine.accepts(0, 0, &Event::Migrate { from: 0, to: 2 }));
    assert!(!engine.accepts(0, 0, &Event::Migrate { from: -1, to: 1 }));
    assert!(!engine.accepts(0, 0, &Event::Migrate { from: 0, to: i32::MIN }));
    assert!(engine.accepts(0, 0, &Event::Migrate { from: 1, to: 0 }));
    assert!(engine.accepts(1, 0, &Event::End));
    assert!(!engine.accepts(2, 0, &Event::End));
}

#[test]
fn lines_keep_their_form_and_order() {
    let mut engine = StateEngine::new(12, 100);
    let mut out = Vec::new();
    let mut t = 100;
    for round in 0..30usize {
        let cpu = (round * 7) % 12;
        t += round as u64;
        let event = match round % 4 {
            0 => thread(CpuState::User, "w", round as i32),
            1 => Event::BeginOther { state: CpuState::Softirq, tag: String::from("Softirq 1") },
            2 => Event::End,
            _ => Event::Migrate { from: cpu as i32, to: ((cpu + 1) % 12) as i32 },
        };
        assert!(engine.accepts(cpu, t, &event));
        out.extend(engine.apply(cpu, t, event));
    }
    for datum in &out {
        let time = datum.time_string();
        assert!(!time.is_empty() && time.bytes().all(|b| b.is_ascii_digit()));
        assert_eq!(time.parse::<u64>().unwrap(), datum.time);
        assert!(datum.state.value() <= 5);
        assert!(!datum.entity.is_empty() && datum.entity.bytes().all(|b| b.is_ascii_digit()));
        assert!(datum.entity.parse::<usize>().unwrap() < 12);
    }
    for (i, a) in out.iter().enumerate() {
        for b in &out[i..] {
            if a.entity == b.entity {
                assert!(a.time <= b.time);
            }
        }
    }
}

#[test]
fn state_numbers() {
    assert_eq!(CpuState::Idle.value(), 0);
    assert_eq!(CpuState::Irq.value(), 1);
    assert_eq!(CpuState::Softirq.value(), 2);
    assert_eq!(CpuState::Tasklet.value(), 3);
    assert_eq!(CpuState::Kernel.value(), 4);
    assert_eq!(CpuState::User.value(), 5);
    assert_eq!(CpuState::default(), CpuState::Idle);
}

#[test]
fn time_strings() {
    let datum = StatemapInputDatum {
        time: u64::MAX,
        entity: String::from("0"),
        state: CpuState::Idle,
        tag: None,
    };
    assert_eq!(datum.time_string(), "18446744073709551615");
    let copy = datum.duplicate();
    assert_eq!(copy.time, u64::MAX);
    assert_eq!(copy.entity, "0");
}
