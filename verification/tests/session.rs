use gdb_mi::{
    frame_command, is_sentinel, read_sequence, sequence_result, take_first_result, GDBError,
    Record, ResultClass, StreamKind, Value, Variable,
};

fn lines(texts: &[&str]) -> Vec<String> {
    texts.iter().map(|t| String::from(*t)).collect()
}

#[test]
fn sentinel_forms() {
    assert!(is_sentinel("(gdb) "));
    assert!(is_sentinel("(gdb) \n"));
    assert!(is_sentinel("(gdb) \r\n"));
    assert!(!is_sentinel("(gdb)"));
    assert!(!is_sentinel("(gdb) x"));
    assert!(!is_sentinel("^done"));
}

#[test]
fn sequence_accumulates_records_in_order() {
    let seq = read_sequence(&lines(&[
        "~\"Starting program\\n\"\n",
        "^done,bkpt={number=\"1\",type=\"breakpoint\"}\n",
    ]))
    .unwrap();
    assert_eq!(seq.len(), 2);
    assert_eq!(
        seq[0],
        Record::Stream(StreamKind::Console, String::from("Starting program\n"))
    );
    match &seq[1] {
        Record::Result(m) => {
            assert_eq!(m.class, ResultClass::Done);
            assert_eq!(m.content[0].name, "bkpt");
        },
        _ => panic!("expected a result record"),
    }
}

#[test]
fn sequence_skips_blank_lines() {
    let seq = read_sequence(&lines(&["\n", "^done\n", "\r\n"])).unwrap();
    assert_eq!(seq.len(), 1);
    assert!(matches!(seq[0], Record::Result(_)));
}

#[test]
fn sequence_stops_on_malformed_line() {
    assert!(matches!(
        read_sequence(&lines(&["^done,x={a=\"1\"\n"])),
        Err(GDBError::ParseError)
    ));
    // a malformed line is fatal even when well-formed lines surround it
    assert!(matches!(
        read_sequence(&lines(&["~\"ok\"\n", "^done,x={a=\"1\"\n", "^done\n"])),
        Err(GDBError::ParseError)
    ));
}

#[test]
fn empty_sequence_is_ok_and_empty() {
    let seq = read_sequence(&lines(&[])).unwrap();
    assert!(seq.is_empty());
}

#[test]
fn first_result_skips_async_and_stream_records() {
    let seq = read_sequence(&lines(&[
        "*running,thread-id=\"all\"\n",
        "~\"output\"\n",
        "^done\n",
        "^exit\n",
    ]))
    .unwrap();
    let msg = take_first_result(seq).unwrap();
    // the first result record wins, later ones are dropped
    assert_eq!(msg.class, ResultClass::Done);
}

#[test]
fn no_result_record_yields_none() {
    let seq = read_sequence(&lines(&["*running,thread-id=\"all\"\n", "~\"output\"\n"])).unwrap();
    assert!(take_first_result(seq).is_none());
}

#[test]
fn send_loop_scenario() {
    // the sequence a command-response wait would read: interleaved stream
    // output first, then the answering result record
    let first = sequence_result(&lines(&["~\"Starting program\\n\"\n"])).unwrap();
    assert!(first.is_none());
    let second = sequence_result(&lines(&[
        "=library-loaded,id=\"/lib/ld\"\n",
        "~\"more output\"\n",
        "^done,bkpt={number=\"1\",type=\"breakpoint\"}\n",
    ]))
    .unwrap();
    let msg = second.unwrap();
    assert_eq!(msg.class, ResultClass::Done);
    let bkpt = &msg.content[0];
    assert_eq!(bkpt.name, "bkpt");
    assert_eq!(
        bkpt.value,
        Value::Tuple(vec![
            Variable { name: String::from("number"), value: Value::Str(String::from("1")) },
            Variable {
                name: String::from("type"),
                value: Value::Str(String::from("breakpoint")),
            },
        ])
    );
}

#[test]
fn error_result_is_data_not_failure() {
    let found = sequence_result(&lines(&["^error,msg=\"No symbol table\"\n"])).unwrap();
    let msg = found.unwrap();
    assert_eq!(msg.class, ResultClass::Error);
    assert_eq!(msg.content[0].name, "msg");
    assert_eq!(msg.content[0].value, Value::Str(String::from("No symbol table")));
}

#[test]
fn sequence_result_propagates_parse_error() {
    assert!(matches!(
        sequence_result(&lines(&["^done,x={a=\"1\"\n"])),
        Err(GDBError::ParseError)
    ));
}

#[test]
fn frame_command_appends_missing_newline() {
    assert_eq!(frame_command("-break-info"), "-break-info\n");
    assert_eq!(frame_command("-break-info\n"), "-break-info\n");
    assert_eq!(frame_command(""), "\n");
}

#[test]
fn exit_command_text() {
    assert_eq!(gdb_mi::exit_command(), "-gdb-exit\n");
}

#[test]
fn error_descriptions() {
    assert_eq!(GDBError::ParseError.describe(), "cannot parse response from gdb");
    assert_eq!(GDBError::IgnoredOutput.describe(), "ignored output");
    let io = GDBError::from(std::io::Error::new(std::io::ErrorKind::Other, "closed"));
    assert!(matches!(io, GDBError::IOError(_)));
    assert_eq!(io.describe(), "input/output error while talking to gdb");
}
