use perf_statemap::tracepoints::format::{
    TracepointArrayType, TracepointField, TracepointFormat, TracepointFormatError,
};

#[test]
fn test_tracepoint_field_parse() {
    let line = "\tfield:unsigned short common_type;\toffset:0;\tsize:2;\tsigned:0;";
    let field = TracepointField::parse(line);
    let field = field.unwrap().unwrap();
    assert_eq!(field.array_type, TracepointArrayType::NotArray);
    assert_eq!(field.field_type, "unsigned short");
    assert_eq!(field.field_name, "common_type");
    assert_eq!(field.offset, 0);
    assert_eq!(field.size, 2);
    assert!(!field.signed);

    let line = "\tfield:int common_pid;\toffset:4;\tsize:4;\tsigned:1;";
    let field = TracepointField::parse(line).unwrap().unwrap();
    assert_eq!(field.array_type, TracepointArrayType::NotArray);
    assert_eq!(field.field_type, "int");
    assert_eq!(field.field_name, "common_pid");
    assert_eq!(field.offset, 4);
    assert_eq!(field.size, 4);
    assert!(field.signed);

    let line = "\tfield:__data_loc char[] devname;\toffset:8;\tsize:4;\tsigned:0;";
    let field = TracepointField::parse(line).unwrap().unwrap();
    assert_eq!(field.array_type, TracepointArrayType::DataLoc4);
    assert_eq!(field.field_type, "__data_loc char[]");
    assert_eq!(field.field_name, "devname");
    assert_eq!(field.offset, 8);
    assert_eq!(field.size, 4);
    assert!(!field.signed);

    let line = "\tfield:char common_comm[16];\toffset:8;\tsize:16;\tsigned:0;";
    let field = TracepointField::parse(line).unwrap().unwrap();
    assert_eq!(field.array_type, TracepointArrayType::Fixed);
    assert_eq!(field.field_type, "char[16]");
    assert_eq!(field.field_name, "common_comm");
    assert_eq!(field.offset, 8);
    assert_eq!(field.size, 16);
    assert!(!field.signed);

    let line = "\tfield:char buf[];\toffset:16;\tsize:0;\tsigned:0;";
    let field = TracepointField::parse(line).unwrap().unwrap();
    assert_eq!(field.array_type, TracepointArrayType::Trailing);
    assert_eq!(field.field_type, "char[]");
    assert_eq!(field.field_name, "buf");
    assert_eq!(field.offset, 16);
    assert_eq!(field.size, 0);
    assert!(!field.signed);
}

fn message(e: TracepointFormatError) -> String {
    match e {
        TracepointFormatError::ParseError(m) => m,
        TracepointFormatError::IoError(e) => panic!("unexpected {e}"),
    }
}

#[test]
fn field_line_errors() {
    let e = TracepointField::parse("\tfield:int x;\toffset:4;\tsize:4;").unwrap_err();
    assert_eq!(message(e), "Invalid tracepoint field format (expected 4 fields, got 3)");
    let e = TracepointField::parse("\tfield:int x;\toffset:4;\tsize:4;\tsigned:2;").unwrap_err();
    assert_eq!(message(e), "Invalid signed value");
    assert!(TracepointField::parse("").unwrap().is_none());
}

#[test]
fn format_file_small() {
    let text = "name: x\nID: 7\nformat:\n\tfield:int a;\toffset:0;\tsize:4;\tsigned:1;\n\nprint fmt: \"%d\", REC->a\n";
    let f = TracepointFormat::parse(text).unwrap();
    assert_eq!(f.name, "x");
    assert_eq!(f.id, 7);
    assert_eq!(f.fields.len(), 1);
    assert_eq!(f.print_fmt, "\"%d\", REC->a");
}

#[test]
fn test_tracepoint_format_parse() {
    let input = "name: sched_switch
ID: 308
format:
\tfield:unsigned short common_type;\toffset:0;\tsize:2;\tsigned:0;
\tfield:unsigned char common_flags;\toffset:2;\tsize:1;\tsigned:0;
\tfield:unsigned char common_preempt_count;\toffset:3;\tsize:1;\tsigned:0;
\tfield:int common_pid;\toffset:4;\tsize:4;\tsigned:1;

\tfield:char prev_comm[16];\toffset:8;\tsize:16;\tsigned:0;
\tfield:pid_t prev_pid;\toffset:24;\tsize:4;\tsigned:1;
\tfield:int prev_prio;\toffset:28;\tsize:4;\tsigned:1;
\tfield:long prev_state;\toffset:32;\tsize:8;\tsigned:1;
\tfield:char next_comm[16];\toffset:40;\tsize:16;\tsigned:0;
\tfield:pid_t next_pid;\toffset:56;\tsize:4;\tsigned:1;
\tfield:int next_prio;\toffset:60;\tsize:4;\tsigned:1;

print fmt: \"prev_comm=%s prev_pid=%d prev_prio=%d prev_state=%s%s ==> next_comm=%s next_pid=%d next_prio=%d\", REC->prev_comm, REC->prev_pid, REC->prev_prio, (REC->prev_state & ((((0x00000000 | 0x00000001 | 0x00000002 | 0x00000004 | 0x00000008 | 0x00000010 | 0x00000020 | 0x00000040) + 1) << 1) - 1)) ? __print_flags(REC->prev_state & ((((0x00000000 | 0x00000001 | 0x00000002 | 0x00000004 | 0x00000008 | 0x00000010 | 0x00000020 | 0x00000040) + 1) << 1) - 1), \"|\", { 0x00000001, \"S\" }, { 0x00000002, \"D\" }, { 0x00000004, \"T\" }, { 0x00000008, \"t\" }, { 0x00000010, \"X\" }, { 0x00000020, \"Z\" }, { 0x00000040, \"P\" }, { 0x00000080, \"I\" }) : \"R\", REC->prev_state & (((0x00000000 | 0x00000001 | 0x00000002 | 0x00000004 | 0x00000008 | 0x00000010 | 0x00000020 | 0x00000040) + 1) << 1) ? \"+\" : \"\", REC->next_comm, REC->next_pid, REC->next_prio
";
    let format = TracepointFormat::parse(input).unwrap();
    assert_eq!(format.name, "sched_switch");
    assert_eq!(format.id, 308);
    assert!(format.print_fmt.starts_with("\"prev_comm=%s prev_pid=%d"));
    assert!(format.print_fmt.ends_with("REC->next_comm, REC->next_pid, REC->next_prio"));
    let expected: Vec<(&str, &str, u32, u32, bool, TracepointArrayType)> = vec![
        ("unsigned short", "common_type", 0, 2, false, TracepointArrayType::NotArray),
        ("unsigned char", "common_flags", 2, 1, false, TracepointArrayType::NotArray),
        ("unsigned char", "common_preempt_count", 3, 1, false, TracepointArrayType::NotArray),
        ("int", "common_pid", 4, 4, true, TracepointArrayType::NotArray),
        ("char[16]", "prev_comm", 8, 16, false, TracepointArrayType::Fixed),
        ("pid_t", "prev_pid", 24, 4, true, TracepointArrayType::NotArray),
        ("int", "prev_prio", 28, 4, true, TracepointArrayType::NotArray),
        ("long", "prev_state", 32, 8, true, TracepointArrayType::NotArray),
        ("char[16]", "next_comm", 40, 16, false, TracepointArrayType::Fixed),
        ("pid_t", "next_pid", 56, 4, true, TracepointArrayType::NotArray),
        ("int", "next_prio", 60, 4, true, TracepointArrayType::NotArray),
    ];
    assert_eq!(format.fields.len(), expected.len());
    for (field, want) in format.fields.iter().zip(expected.iter()) {
        assert_eq!(field.field_type, want.0);
        assert_eq!(field.field_name, want.1);
        assert_eq!(field.offset, want.2);
        assert_eq!(field.size, want.3);
        assert_eq!(field.signed, want.4);
        assert_eq!(field.array_type, want.5);
    }
}

#[test]
fn format_file_errors() {
    let e = TracepointFormat::parse("name sched_switch\n").unwrap_err();
    assert_eq!(message(e), "Tracepoint format line does not contain a colon");
    let e = TracepointFormat::parse("name: x\nID: abc\n").unwrap_err();
    assert_eq!(message(e), "Invalid ID value");
    let e = TracepointFormat::parse("name: x\nID: 4294967296\n").unwrap_err();
    assert_eq!(message(e), "Invalid ID value");
    let e = TracepointFormat::parse("name: x\nflavour: sweet\n").unwrap_err();
    assert_eq!(message(e), "Unknown tracepoint key: flavour");
    let e = TracepointFormat::parse("format:\n\tfield:int a;\toffset:x;\tsize:4;\tsigned:1;\n")
        .unwrap_err();
    assert_eq!(message(e), "Invalid offset value");
}

#[test]
fn field_line_more_errors() {
    let e = TracepointField::parse("\tfield int x;\toffset:4;\tsize:4;\tsigned:1;").unwrap_err();
    assert_eq!(message(e), "Field definition does not contain a colon");
    let e = TracepointField::parse("\tfield:int;\toffset:4;\tsize:4;\tsigned:1;").unwrap_err();
    assert_eq!(message(e), "Field definition does not contain a space");
    let e = TracepointField::parse("\tfield:int x;\toffset:4;\tsize:-4;\tsigned:1;").unwrap_err();
    assert_eq!(message(e), "Invalid size value");
    let e = TracepointField::parse("\tfield:int x;\toffset:4;\tsize:4;\twidth:1;").unwrap_err();
    assert_eq!(message(e), "Unknown field: width");
    let e = TracepointField::parse("\toffset:4;\toffset:4;\tsize:4;\tsigned:1;").unwrap_err();
    assert_eq!(message(e), "Missing field type");
    let e = TracepointField::parse("\ta\tb\tc\td\te").unwrap_err();
    assert_eq!(message(e), "Invalid tracepoint field format (expected 4 fields, got 5)");
}

#[test]
fn field_line_lenient_forms() {
    // A plus sign before a number and a missing last semicolon are accepted.
    let field = TracepointField::parse("\tfield:u64 id;\toffset:+8;\tsize:8;\tsigned:0")
        .unwrap()
        .unwrap();
    assert_eq!(field.offset, 8);
    assert_eq!(field.size, 8);
    assert_eq!(field.field_type, "u64");
    assert_eq!(field.field_name, "id");
    // The array kind follows the type and the size.
    let field = TracepointField::parse("\tfield:__data_loc char[] n;\toffset:8;\tsize:2;\tsigned:0;")
        .unwrap()
        .unwrap();
    assert_eq!(field.array_type, TracepointArrayType::NotArray);
    let field = TracepointField::parse("\tfield:char n[];\toffset:8;\tsize:1;\tsigned:0;")
        .unwrap()
        .unwrap();
    assert_eq!(field.array_type, TracepointArrayType::NotArray);
    let field = TracepointField::parse("\tfield:char n[1x];\toffset:8;\tsize:1;\tsigned:0;")
        .unwrap()
        .unwrap();
    assert_eq!(field.array_type, TracepointArrayType::NotArray);
    assert_eq!(field.field_type, "char[1x]");
    let field = TracepointField::parse("\tfield:u8 n[4];\toffset:8;\tsize:4;\tsigned:0;")
        .unwrap()
        .unwrap();
    assert_eq!(field.array_type, TracepointArrayType::Fixed);
}

#[test]
fn format_file_round_trip() {
    // A format written out as a file reads back as itself.
    let text = "name: irq_handler_entry\nID: 141\nformat:\n\
\tfield:int irq;\toffset:8;\tsize:4;\tsigned:1;\n\
\tfield:__data_loc char[] name;\toffset:12;\tsize:4;\tsigned:0;\n\
\nprint fmt: \"irq=%d name=%s\"\n";
    let f = TracepointFormat::parse(text).unwrap();
    assert_eq!(f.name, "irq_handler_entry");
    assert_eq!(f.id, 141);
    assert_eq!(f.print_fmt, "\"irq=%d name=%s\"");
    assert_eq!(f.fields.len(), 2);
    assert_eq!(f.fields[0].field_name, "irq");
    assert_eq!(f.fields[0].field_type, "int");
    assert_eq!((f.fields[0].offset, f.fields[0].size, f.fields[0].signed), (8, 4, true));
    assert_eq!(f.fields[0].array_type, TracepointArrayType::NotArray);
    assert_eq!(f.fields[1].field_name, "name");
    assert_eq!(f.fields[1].field_type, "__data_loc char[]");
    assert_eq!((f.fields[1].offset, f.fields[1].size, f.fields[1].signed), (12, 4, false));
    assert_eq!(f.fields[1].array_type, TracepointArrayType::DataLoc4);
}

#[test]
fn bracket_moves_only_as_a_suffix() {
    // A bracket that no closing bracket ends the name with stays in the name.
    let field = TracepointField::parse("\tfield:int x[y;\toffset:0;\tsize:4;\tsigned:1;")
        .unwrap()
        .unwrap();
    assert_eq!(field.field_type, "int");
    assert_eq!(field.field_name, "x[y");
    assert_eq!(field.array_type, TracepointArrayType::NotArray);
    let field = TracepointField::parse("\tfield:int x[3]y;\toffset:0;\tsize:4;\tsigned:1;")
        .unwrap()
        .unwrap();
    assert_eq!(field.field_type, "int");
    assert_eq!(field.field_name, "x[3]y");
    let field = TracepointField::parse("\tfield:int x];\toffset:0;\tsize:4;\tsigned:1;")
        .unwrap()
        .unwrap();
    assert_eq!(field.field_type, "int");
    assert_eq!(field.field_name, "x]");
    // What follows the last opening bracket of a name that ends in a closing
    // bracket goes to the type.
    let field = TracepointField::parse("\tfield:u8 m[2][4];\toffset:0;\tsize:8;\tsigned:0;")
        .unwrap()
        .unwrap();
    assert_eq!(field.field_type, "u8[4]");
    assert_eq!(field.field_name, "m[2]");
    assert_eq!(field.array_type, TracepointArrayType::Fixed);
    let field = TracepointField::parse("\tfield:char n[16];\toffset:8;\tsize:16;\tsigned:0;")
        .unwrap()
        .unwrap();
    assert_eq!(field.field_type, "char[16]");
    assert_eq!(field.field_name, "n");
}
