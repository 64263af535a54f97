use perf_statemap::byte_order::{BigEndian, Endianness, LittleEndian};
use perf_statemap::error::{DecodeError, SchemaError};
use perf_statemap::parsers::{
    action_kind, action_mapping, record_handling, Action, ActionKind, ClockData, Event,
    RecordHandling,
};
use perf_statemap::tracepoints::format::TracepointFormat;
use perf_statemap::tracepoints::irq::{
    IrqHandlerEntry, IrqHandlerExit, SoftirqEntry, SoftirqExit, TaskletEntry, TaskletExit,
};
use perf_statemap::tracepoints::sched::{SchedMigrateTask, SchedSwitch};
use perf_statemap::tracepoints::Tracepoint;
use perf_statemap::types::CpuState;

const SCHED_SWITCH: &str = "name: sched_switch
ID: 308
format:
\tfield:unsigned short common_type;\toffset:0;\tsize:2;\tsigned:0;
\tfield:unsigned char common_flags;\toffset:2;\tsize:1;\tsigned:0;
\tfield:unsigned char common_preempt_count;\toffset:3;\tsize:1;\tsigned:0;
\tfield:int common_pid;\toffset:4;\tsize:4;\tsigned:1;

\tfield:char prev_comm[16];\toffset:8;\tsize:16;\tsigned:0;
\tfield:pid_t prev_pid;\toffset:24;\tsize:4;\tsigned:1;
\tfield:int prev_prio;\toffset:28;\tsize:4;\tsigned:1;
\tfield:long prev_state;\toffset:32;\tsize:8;\tsigned:1;
\tfield:char next_comm[16];\toffset:40;\tsize:16;\tsigned:0;
\tfield:pid_t next_pid;\toffset:56;\tsize:4;\tsigned:1;
\tfield:int next_prio;\toffset:60;\tsize:4;\tsigned:1;

print fmt: \"x\"
";

const SCHED_MIGRATE: &str = "name: sched_migrate_task
ID: 300
format:
\tfield:char comm[16];\toffset:8;\tsize:16;\tsigned:0;
\tfield:pid_t pid;\toffset:24;\tsize:4;\tsigned:1;
\tfield:int prio;\toffset:28;\tsize:4;\tsigned:1;
\tfield:int orig_cpu;\toffset:32;\tsize:4;\tsigned:1;
\tfield:int dest_cpu;\toffset:36;\tsize:4;\tsigned:1;
";

const IRQ_ENTRY: &str = "name: irq_handler_entry
ID: 141
format:
\tfield:int irq;\toffset:8;\tsize:4;\tsigned:1;
\tfield:__data_loc char[] name;\toffset:12;\tsize:4;\tsigned:0;
";

const IRQ_EXIT: &str = "name: irq_handler_exit
ID: 140
format:
\tfield:int irq;\toffset:8;\tsize:4;\tsigned:1;
\tfield:int ret;\toffset:12;\tsize:4;\tsigned:1;
";

const SOFTIRQ: &str = "name: softirq_entry
ID: 139
format:
\tfield:unsigned int vec;\toffset:8;\tsize:4;\tsigned:0;
";

const TASKLET: &str = "name: tasklet_entry
ID: 135
format:
\tfield:void * tasklet;\toffset:8;\tsize:8;\tsigned:0;
\tfield:void * func;\toffset:16;\tsize:8;\tsigned:0;
";

fn switch_record(prev: &[u8], prev_pid: i32, next: &[u8], next_pid: i32) -> Vec<u8> {
    let mut record = vec![0u8; 64];
    record[8..8 + prev.len()].copy_from_slice(prev);
    record[24..28].copy_from_slice(&prev_pid.to_le_bytes());
    record[32..40].copy_from_slice(&1i64.to_le_bytes());
    record[40..40 + next.len()].copy_from_slice(next);
    record[56..60].copy_from_slice(&next_pid.to_le_bytes());
    record[60..64].copy_from_slice(&120i32.to_le_bytes());
    record
}

#[test]
fn decode_sched_switch() {
    let format = TracepointFormat::parse(SCHED_SWITCH).unwrap();
    let parser = SchedSwitch::parser_from_format(&format).unwrap();
    let record = switch_record(b"swapper/1", 0, b"bash", 42);
    let parsed = SchedSwitch::parse::<LittleEndian>(&parser, &record).unwrap();
    assert_eq!(
        parsed,
        SchedSwitch {
            prev_comm: String::from("swapper/1"),
            prev_pid: 0,
            prev_state: 1,
            next_comm: String::from("bash"),
            next_pid: 42,
            next_prio: 120,
        }
    );
    assert_eq!(
        SchedSwitch::parse::<LittleEndian>(&parser, &record[..63]),
        Err(DecodeError::UnexpectedEof)
    );
    assert_eq!(SchedSwitch::event_name(), "sched:sched_switch");
    assert_eq!(
        SchedSwitch::names(),
        vec!["prev_comm", "prev_pid", "prev_state", "next_comm", "next_pid", "next_prio"]
    );
}

#[test]
fn switch_event_classifies_next_task() {
    let format = TracepointFormat::parse(SCHED_SWITCH).unwrap();
    let action = Action::bind(ActionKind::Switch, &format).unwrap();
    assert!(action.is_bound());
    assert_eq!(action.kind(), ActionKind::Switch);
    let record = switch_record(b"swapper/1", 0, b"bash", 42);
    match Event::parse(&action, &record, Endianness::LittleEndian).unwrap() {
        Event::BeginThread { state, comm, pid } => {
            assert_eq!(state, CpuState::User);
            assert_eq!(comm, "bash");
            assert_eq!(pid, 42);
        }
        other => panic!("unexpected {other:?}"),
    }
    let record = switch_record(b"bash", 42, b"kworker/0:1\0xxxx", 17);
    match Event::parse_impl::<LittleEndian>(&action, &record).unwrap() {
        Event::BeginThread { state, comm, pid } => {
            assert_eq!(state, CpuState::Kernel);
            assert_eq!(comm, "kworker/0:1");
            assert_eq!(pid, 17);
        }
        other => panic!("unexpected {other:?}"),
    }
    assert_eq!(
        Event::parse(&action, &record[..50], Endianness::LittleEndian).unwrap_err(),
        DecodeError::UnexpectedEof
    );
}

#[test]
fn classifier_rules() {
    assert_eq!(Event::classify(b"swapper/0"), CpuState::Idle);
    assert_eq!(Event::classify(b"migration/3"), CpuState::Idle);
    assert_eq!(Event::classify(b"ksoftirqd/2"), CpuState::Softirq);
    assert_eq!(Event::classify(b"irq/24-eth0"), CpuState::Irq);
    assert_eq!(Event::classify(b"kworker/0:1"), CpuState::Kernel);
    assert_eq!(Event::classify(b"rcu_preempt"), CpuState::Kernel);
    assert_eq!(Event::classify(b"bash"), CpuState::User);
    assert_eq!(Event::classify(b"swapper"), CpuState::User);
    assert_eq!(Event::classify(b""), CpuState::User);
    assert_eq!(Event::classify(b"kthreadd"), CpuState::User);
}

#[test]
fn migrate_event() {
    let format = TracepointFormat::parse(SCHED_MIGRATE).unwrap();
    let action = Action::bind(ActionKind::Migrate, &format).unwrap();
    let mut record = vec![0u8; 40];
    record[8..13].copy_from_slice(b"redis");
    record[24..28].copy_from_slice(&9i32.to_be_bytes());
    record[32..36].copy_from_slice(&0i32.to_be_bytes());
    record[36..40].copy_from_slice(&3i32.to_be_bytes());
    let parser = SchedMigrateTask::parser_from_format(&format).unwrap();
    let parsed = SchedMigrateTask::parse::<BigEndian>(&parser, &record).unwrap();
    assert_eq!(parsed.comm, "redis");
    assert_eq!(parsed.pid, 9);
    match Event::parse(&action, &record, Endianness::BigEndian).unwrap() {
        Event::Migrate { from, to } => {
            assert_eq!(from, 0);
            assert_eq!(to, 3);
        }
        other => panic!("unexpected {other:?}"),
    }
}

#[test]
fn irq_entry_event() {
    let format = TracepointFormat::parse(IRQ_ENTRY).unwrap();
    let action = Action::bind(ActionKind::EnterIrq, &format).unwrap();
    let mut record = vec![0u8; 24];
    record[8..12].copy_from_slice(&7i32.to_le_bytes());
    // Five bytes at offset 16.
    record[12..16].copy_from_slice(&0x0005_0010u32.to_le_bytes());
    record[16..21].copy_from_slice(b"eth0\0");
    let parser = IrqHandlerEntry::parser_from_format(&format).unwrap();
    assert_eq!(
        IrqHandlerEntry::parse::<LittleEndian>(&parser, &record).unwrap(),
        IrqHandlerEntry { irq: 7, name: String::from("eth0") }
    );
    match Event::parse(&action, &record, Endianness::LittleEndian).unwrap() {
        Event::BeginOther { state, tag } => {
            assert_eq!(state, CpuState::Irq);
            assert_eq!(tag, "IRQ 7: eth0");
        }
        other => panic!("unexpected {other:?}"),
    }
    record[8..12].copy_from_slice(&(-3i32).to_le_bytes());
    match Event::parse(&action, &record, Endianness::LittleEndian).unwrap() {
        Event::BeginOther { tag, .. } => assert_eq!(tag, "IRQ -3: eth0"),
        other => panic!("unexpected {other:?}"),
    }
}

#[test]
fn softirq_and_tasklet_events() {
    let format = TracepointFormat::parse(SOFTIRQ).unwrap();
    let action = Action::bind(ActionKind::EnterSoftirq, &format).unwrap();
    let mut record = vec![0u8; 12];
    record[8..12].copy_from_slice(&3i32.to_le_bytes());
    assert_eq!(
        SoftirqEntry::parse::<LittleEndian>(&SoftirqEntry::parser_from_format(&format).unwrap(), &record),
        Ok(SoftirqEntry { vec: 3 })
    );
    assert_eq!(
        SoftirqExit::parse::<LittleEndian>(&SoftirqExit::parser_from_format(&format).unwrap(), &record),
        Ok(SoftirqExit { vec: 3 })
    );
    match Event::parse(&action, &record, Endianness::LittleEndian).unwrap() {
        Event::BeginOther { state, tag } => {
            assert_eq!(state, CpuState::Softirq);
            assert_eq!(tag, "Softirq 3");
        }
        other => panic!("unexpected {other:?}"),
    }
    record[8..12].copy_from_slice(&i32::MIN.to_le_bytes());
    match Event::parse(&action, &record, Endianness::LittleEndian).unwrap() {
        Event::BeginOther { tag, .. } => assert_eq!(tag, "Softirq -2147483648"),
        other => panic!("unexpected {other:?}"),
    }

    let format = TracepointFormat::parse(TASKLET).unwrap();
    let action = Action::bind(ActionKind::EnterTasklet, &format).unwrap();
    let mut record = vec![0u8; 24];
    record[8..16].copy_from_slice(&0xffff_8881_0abc_def0u64.to_le_bytes());
    record[16..24].copy_from_slice(&5u64.to_le_bytes());
    assert_eq!(
        TaskletEntry::parse::<LittleEndian>(&TaskletEntry::parser_from_format(&format).unwrap(), &record),
        Ok(TaskletEntry { tasklet: 0xffff_8881_0abc_def0, func: 5 })
    );
    assert_eq!(
        TaskletExit::parse::<LittleEndian>(&TaskletExit::parser_from_format(&format).unwrap(), &record),
        Ok(TaskletExit { tasklet: 0xffff_8881_0abc_def0, func: 5 })
    );
    match Event::parse(&action, &record, Endianness::LittleEndian).unwrap() {
        Event::BeginOther { state, tag } => {
            assert_eq!(state, CpuState::Tasklet);
            assert_eq!(tag, "Tasklet 0xffff88810abcdef0");
        }
        other => panic!("unexpected {other:?}"),
    }
    record[8..16].copy_from_slice(&0u64.to_le_bytes());
    match Event::parse(&action, &record, Endianness::LittleEndian).unwrap() {
        Event::BeginOther { tag, .. } => assert_eq!(tag, "Tasklet 0x0"),
        other => panic!("unexpected {other:?}"),
    }
}

#[test]
fn exits_end_whatever_the_record_holds() {
    let format = TracepointFormat::parse(IRQ_EXIT).unwrap();
    let parser = IrqHandlerExit::parser_from_format(&format).unwrap();
    let mut record = vec![0u8; 16];
    record[8..12].copy_from_slice(&7i32.to_le_bytes());
    record[12..16].copy_from_slice(&1i32.to_le_bytes());
    assert_eq!(
        IrqHandlerExit::parse::<LittleEndian>(&parser, &record),
        Ok(IrqHandlerExit { irq: 7, ret: 1 })
    );
    for kind in [ActionKind::ExitIrq] {
        let action = Action::bind(kind, &format).unwrap();
        assert!(matches!(
            Event::parse(&action, &[], Endianness::LittleEndian).unwrap(),
            Event::End
        ));
    }
    let softirq = TracepointFormat::parse(SOFTIRQ).unwrap();
    let action = Action::bind(ActionKind::ExitSoftirq, &softirq).unwrap();
    assert!(matches!(Event::parse(&action, &[], Endianness::BigEndian).unwrap(), Event::End));
    let tasklet = TracepointFormat::parse(TASKLET).unwrap();
    let action = Action::bind(ActionKind::ExitTasklet, &tasklet).unwrap();
    assert!(matches!(Event::parse(&action, &[1, 2], Endianness::BigEndian).unwrap(), Event::End));
}

#[test]
fn binding_reports_schema_errors() {
    let format = TracepointFormat::parse(IRQ_EXIT).unwrap();
    match Action::bind(ActionKind::EnterIrq, &format) {
        Err(SchemaError::MissingField(name)) => assert_eq!(name, "name"),
        other => panic!("unexpected {other:?}"),
    }
    // A 32-bit kernel writes `prev_state` in four bytes.
    let narrow = SCHED_SWITCH.replace(
        "\tfield:long prev_state;\toffset:32;\tsize:8;\tsigned:1;",
        "\tfield:long prev_state;\toffset:32;\tsize:4;\tsigned:1;",
    );
    let format = TracepointFormat::parse(&narrow).unwrap();
    match Action::bind(ActionKind::Switch, &format) {
        Err(e) => {
            assert!(matches!(&e, SchemaError::IncompatibleField(name) if name == "prev_state"));
            assert_eq!(e.message(), "Incompatible field: prev_state");
        }
        Ok(other) => panic!("unexpected {other:?}"),
    }
    assert!(matches!(Action::bind(ActionKind::Ignore, &format), Ok(Action::Ignore)));
}

#[test]
fn event_table() {
    assert_eq!(action_kind("irq:irq_handler_entry"), (ActionKind::EnterIrq, true));
    assert_eq!(action_kind("irq:irq_handler_exit"), (ActionKind::ExitIrq, true));
    assert_eq!(action_kind("irq:softirq_entry"), (ActionKind::EnterSoftirq, true));
    assert_eq!(action_kind("irq:softirq_exit"), (ActionKind::ExitSoftirq, true));
    assert_eq!(action_kind("irq:tasklet_entry"), (ActionKind::EnterTasklet, true));
    assert_eq!(action_kind("irq:tasklet_exit"), (ActionKind::ExitTasklet, true));
    assert_eq!(action_kind("sched:sched_switch"), (ActionKind::Switch, true));
    assert_eq!(action_kind("sched:sched_migrate_task"), (ActionKind::Migrate, true));
    for name in [
        "sched:sched_process_fork",
        "sched:sched_stat_iowait",
        "sched:sched_stat_runtime",
        "sched:sched_stat_sleep",
        "sched:sched_stat_wait",
        "sched:sched_wakeup",
        "sched:sched_wakeup_new",
        "sched:sched_waking",
        "dummy:u",
    ] {
        assert_eq!(action_kind(name), (ActionKind::Ignore, true));
    }
    assert_eq!(action_kind("cycles"), (ActionKind::Ignore, false));
    assert_eq!(action_kind("sched:sched_switch "), (ActionKind::Ignore, false));
    assert_eq!(
        action_mapping(&["dummy:u", "sched:sched_switch", "block:rq_issue", "irq:softirq_exit"]),
        vec![ActionKind::Ignore, ActionKind::Switch, ActionKind::Ignore, ActionKind::ExitSoftirq]
    );
    assert_eq!(action_mapping(&[]), Vec::<ActionKind>::new());
}

#[test]
fn clock_data_sections() {
    let mut data = Vec::new();
    data.extend_from_slice(&1u32.to_le_bytes());
    data.extend_from_slice(&4u32.to_le_bytes());
    data.extend_from_slice(&1_700_000_000_000_000_000u64.to_le_bytes());
    data.extend_from_slice(&10_000_000_000u64.to_le_bytes());
    let clock = ClockData::parse(&data, Endianness::LittleEndian).unwrap();
    assert_eq!(
        clock,
        ClockData {
            version: 1,
            clockid: 4,
            wall_clock_ns: 1_700_000_000_000_000_000,
            clockid_time_ns: 10_000_000_000,
        }
    );
    assert_eq!(ClockData::parse_impl::<LittleEndian>(&data), Ok(clock));
    // Read in the other byte order the version is not 1.
    assert_eq!(
        ClockData::parse(&data, Endianness::BigEndian),
        Err(DecodeError::UnsupportedClockDataVersion(0x0100_0000))
    );
    assert_eq!(
        DecodeError::UnsupportedClockDataVersion(2).message(),
        "Unsupported clock data version: 2"
    );
    assert_eq!(ClockData::parse(&data[..23], Endianness::LittleEndian), Err(DecodeError::UnexpectedEof));
    assert_eq!(ClockData::parse(&data[..3], Endianness::LittleEndian), Err(DecodeError::UnexpectedEof));
    // The version is looked at before the length of the rest.
    let mut short = 2u32.to_be_bytes().to_vec();
    short.push(0);
    assert_eq!(
        ClockData::parse_impl::<BigEndian>(&short),
        Err(DecodeError::UnsupportedClockDataVersion(2))
    );
    let mut big = Vec::new();
    big.extend_from_slice(&1u32.to_be_bytes());
    big.extend_from_slice(&1u32.to_be_bytes());
    big.extend_from_slice(&77u64.to_be_bytes());
    big.extend_from_slice(&66u64.to_be_bytes());
    big.push(0xff);
    let clock = ClockData::parse(&big, Endianness::BigEndian).unwrap();
    assert_eq!((clock.clockid, clock.wall_clock_ns, clock.clockid_time_ns), (1, 77, 66));
}

#[test]
fn record_types() {
    assert_eq!(record_handling(9), RecordHandling::Decode);
    assert_eq!(record_handling(2), RecordHandling::WarnLost);
    assert_eq!(record_handling(13), RecordHandling::WarnLost);
    for skipped in [1, 10, 17, 7, 4, 3] {
        assert_eq!(record_handling(skipped), RecordHandling::Skip);
    }
    for other in [0, 5, 6, 8, 11, 12, 14, 64, u32::MAX] {
        assert_eq!(record_handling(other), RecordHandling::WarnUnhandled);
    }
}

#[test]
fn events_from_decoded_records() {
    let parsed = SchedSwitch {
        prev_comm: String::from("x"),
        prev_pid: 1,
        prev_state: 0,
        next_comm: String::from("ksoftirqd/2"),
        next_pid: 30,
        next_prio: 120,
    };
    assert!(matches!(
        Event::switch(parsed),
        Event::BeginThread { state: CpuState::Softirq, ref comm, pid: 30 } if comm == "ksoftirqd/2"
    ));
    let parsed = SchedMigrateTask {
        comm: String::from("x"),
        pid: 1,
        prio: 120,
        orig_cpu: 5,
        dest_cpu: 2,
    };
    assert!(matches!(Event::migrate(parsed), Event::Migrate { from: 5, to: 2 }));
    assert!(matches!(
        Event::enter_irq(IrqHandlerEntry { irq: 130, name: String::from("nvme0q1") }),
        Event::BeginOther { state: CpuState::Irq, ref tag } if tag == "IRQ 130: nvme0q1"
    ));
    assert!(matches!(
        Event::enter_softirq(SoftirqEntry { vec: 9 }),
        Event::BeginOther { state: CpuState::Softirq, ref tag } if tag == "Softirq 9"
    ));
    assert!(matches!(
        Event::enter_tasklet(TaskletEntry { tasklet: 0xabc, func: 0 }),
        Event::BeginOther { state: CpuState::Tasklet, ref tag } if tag == "Tasklet 0xabc"
    ));
}
