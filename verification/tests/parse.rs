use gdb_mi::ListItem;
use gdb_mi::{parse_line, AsyncClass, GDBError, Record, ResultClass, StreamKind, Value, Variable};

fn str_value(s: &str) -> Value {
    Value::Str(String::from(s))
}

fn field(name: &str, value: Value) -> Variable {
    Variable { name: String::from(name), value }
}

#[test]
fn result_done_bare() {
    let rec = parse_line("^done\n").unwrap();
    match rec {
        Record::Result(m) => {
            assert_eq!(m.token, None);
            assert_eq!(m.class, ResultClass::Done);
            assert!(m.content.is_empty());
        },
        _ => panic!("expected a result record"),
    }
}

#[test]
fn result_classes() {
    let cases = [
        ("^done\n", ResultClass::Done),
        ("^running\n", ResultClass::Running),
        ("^connected\n", ResultClass::Connected),
        ("^error\n", ResultClass::Error),
        ("^exit\n", ResultClass::Exit),
    ];
    for (line, class) in cases {
        match parse_line(line).unwrap() {
            Record::Result(m) => assert_eq!(m.class, class),
            _ => panic!("expected a result record"),
        }
    }
}

#[test]
fn unknown_result_class_is_parse_error() {
    assert!(matches!(parse_line("^finished\n"), Err(GDBError::ParseError)));
}

#[test]
fn result_with_token() {
    match parse_line("42^done\n").unwrap() {
        Record::Result(m) => {
            assert_eq!(m.token, Some(42));
            assert_eq!(m.class, ResultClass::Done);
        },
        _ => panic!("expected a result record"),
    }
}

#[test]
fn oversized_token_is_parse_error() {
    assert!(matches!(
        parse_line("99999999999999999999^done\n"),
        Err(GDBError::ParseError)
    ));
}

#[test]
fn token_without_sigil_is_parse_error() {
    assert!(matches!(parse_line("42\n"), Err(GDBError::ParseError)));
}

#[test]
fn async_records_by_sigil() {
    match parse_line("*running,thread-id=\"all\"\n").unwrap() {
        Record::Async(m) => {
            assert_eq!(m.class, AsyncClass::Exec);
            assert_eq!(m.content, vec![field("thread-id", str_value("all"))]);
        },
        _ => panic!("expected an async record"),
    }
    match parse_line("+download\n").unwrap() {
        Record::Async(m) => {
            assert_eq!(m.class, AsyncClass::Status);
            assert!(m.content.is_empty());
        },
        _ => panic!("expected an async record"),
    }
    match parse_line("=thread-created,id=\"1\"\n").unwrap() {
        Record::Async(m) => {
            assert_eq!(m.class, AsyncClass::Notify);
            assert_eq!(m.content, vec![field("id", str_value("1"))]);
        },
        _ => panic!("expected an async record"),
    }
}

#[test]
fn async_without_class_is_parse_error() {
    assert!(matches!(parse_line("*\n"), Err(GDBError::ParseError)));
}

#[test]
fn stream_records_by_sigil() {
    assert_eq!(
        parse_line("~\"console text\"\n").unwrap(),
        Record::Stream(StreamKind::Console, String::from("console text"))
    );
    assert_eq!(
        parse_line("@\"target text\"\n").unwrap(),
        Record::Stream(StreamKind::Target, String::from("target text"))
    );
    assert_eq!(
        parse_line("&\"log text\"\n").unwrap(),
        Record::Stream(StreamKind::Log, String::from("log text"))
    );
}

#[test]
fn stream_with_trailing_text_is_parse_error() {
    assert!(matches!(parse_line("~\"a\"x\n"), Err(GDBError::ParseError)));
}

#[test]
fn unknown_sigil_is_parse_error() {
    assert!(matches!(parse_line("!done\n"), Err(GDBError::ParseError)));
}

#[test]
fn blank_line_is_ignored_output() {
    assert!(matches!(parse_line(""), Err(GDBError::IgnoredOutput)));
    assert!(matches!(parse_line("\n"), Err(GDBError::IgnoredOutput)));
    assert!(matches!(parse_line("\r\n"), Err(GDBError::IgnoredOutput)));
}

#[test]
fn escaped_string_decoding() {
    match parse_line("~\"a\\\"b\\\\c\\nd\\te\\rf\"\n").unwrap() {
        Record::Stream(StreamKind::Console, text) => {
            assert_eq!(text, "a\"b\\c\nd\te\rf");
        },
        _ => panic!("expected a console stream record"),
    }
}

#[test]
fn bad_escape_is_parse_error() {
    assert!(matches!(parse_line("~\"a\\qb\"\n"), Err(GDBError::ParseError)));
}

#[test]
fn unterminated_string_is_parse_error() {
    assert!(matches!(parse_line("^done,msg=\"abc\n"), Err(GDBError::ParseError)));
}

#[test]
fn tuple_attribute() {
    match parse_line("^done,bkpt={number=\"1\",type=\"breakpoint\"}\n").unwrap() {
        Record::Result(m) => {
            assert_eq!(m.class, ResultClass::Done);
            assert_eq!(
                m.content,
                vec![field(
                    "bkpt",
                    Value::Tuple(vec![
                        field("number", str_value("1")),
                        field("type", str_value("breakpoint")),
                    ])
                )]
            );
        },
        _ => panic!("expected a result record"),
    }
}

#[test]
fn tuple_field_lookup() {
    match parse_line("^done,bkpt={number=\"1\",type=\"breakpoint\"}\n").unwrap() {
        Record::Result(m) => {
            let bkpt = &m.content[0].value;
            assert_eq!(bkpt.get_field("type"), Some(&str_value("breakpoint")));
            assert_eq!(bkpt.get_field("absent"), None);
            // a scalar has no fields to look up
            assert_eq!(str_value("x").get_field("type"), None);
        },
        _ => panic!("expected a result record"),
    }
}

#[test]
fn duplicate_tuple_field_is_parse_error() {
    assert!(matches!(
        parse_line("^done,x={a=\"1\",a=\"2\"}\n"),
        Err(GDBError::ParseError)
    ));
}

#[test]
fn duplicate_attribute_is_parse_error() {
    assert!(matches!(
        parse_line("^done,a=\"1\",a=\"2\"\n"),
        Err(GDBError::ParseError)
    ));
}

#[test]
fn empty_tuple_and_list() {
    match parse_line("^done,a={},b=[]\n").unwrap() {
        Record::Result(m) => {
            assert_eq!(
                m.content,
                vec![
                    field("a", Value::Tuple(vec![])),
                    field("b", Value::List(vec![])),
                ]
            );
        },
        _ => panic!("expected a result record"),
    }
}

#[test]
fn list_forms() {
    match parse_line("^done,a=[\"1\",\"2\"],b=[x=\"1\",y=\"2\"]\n").unwrap() {
        Record::Result(m) => {
            assert_eq!(
                m.content[0],
                field(
                    "a",
                    Value::List(vec![
                        ListItem::Plain(str_value("1")),
                        ListItem::Plain(str_value("2")),
                    ])
                )
            );
            assert_eq!(
                m.content[1],
                field(
                    "b",
                    Value::List(vec![
                        ListItem::Named(field("x", str_value("1"))),
                        ListItem::Named(field("y", str_value("2"))),
                    ])
                )
            );
        },
        _ => panic!("expected a result record"),
    }
}

#[test]
fn nesting_depths() {
    // depth 0: a plain scalar attribute
    assert!(parse_line("^done,a=\"1\"\n").is_ok());
    // depth 1
    assert!(parse_line("^done,a={b=\"1\"}\n").is_ok());
    // depth 2
    assert!(parse_line("^done,a={b={c=\"1\"}}\n").is_ok());
    // depth 3, mixing tuples and lists
    match parse_line("^done,a={b=[{c=\"1\"}]}\n").unwrap() {
        Record::Result(m) => {
            assert_eq!(
                m.content,
                vec![field(
                    "a",
                    Value::Tuple(vec![field(
                        "b",
                        Value::List(vec![ListItem::Plain(Value::Tuple(vec![field(
                            "c",
                            str_value("1")
                        )]))])
                    )])
                )]
            );
        },
        _ => panic!("expected a result record"),
    }
}

#[test]
fn unbalanced_brackets_fail_at_any_depth() {
    assert!(matches!(parse_line("^done,x={a=\"1\"\n"), Err(GDBError::ParseError)));
    assert!(matches!(parse_line("^done,x={a={b=\"1\"}\n"), Err(GDBError::ParseError)));
    assert!(matches!(parse_line("^done,x=[\"1\"\n"), Err(GDBError::ParseError)));
    assert!(matches!(parse_line("^done,x=[[\"1\"]\n"), Err(GDBError::ParseError)));
    assert!(matches!(parse_line("^done,x={a=\"1\"}}\n"), Err(GDBError::ParseError)));
    assert!(matches!(parse_line("^done,x={]\n"), Err(GDBError::ParseError)));
}

#[test]
fn escape_text_round_trip() {
    // decode a wire literal, re-encode it, and get the original wire text back
    let wire = "a\\\"b\\\\c\\nd";
    let line = format!("~\"{}\"\n", wire);
    match parse_line(&line).unwrap() {
        Record::Stream(StreamKind::Console, decoded) => {
            assert_eq!(decoded, "a\"b\\c\nd");
            assert_eq!(gdb_mi::escape_text(&decoded), wire);
        },
        _ => panic!("expected a console stream record"),
    }
}

#[test]
fn escape_text_on_plain_text_is_identity() {
    assert_eq!(gdb_mi::escape_text("plain text"), "plain text");
    assert_eq!(gdb_mi::escape_text(""), "");
}
