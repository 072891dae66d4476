use supervisor::args::{build_args, ArgEntry, ArgError, ArgScalar, TableValue};

fn text(s: &str) -> ArgScalar {
    ArgScalar::Text(String::from(s))
}

#[test]
fn builds_expected_tokens() {
    let entries = vec![
        ArgEntry::Scalar(ArgScalar::Int(5)),
        ArgEntry::Scalar(text("x")),
        ArgEntry::Table(vec![(String::from("verbose"), TableValue::Value(ArgScalar::Flag(true)))]),
        ArgEntry::Table(vec![(String::from("level"), TableValue::Value(ArgScalar::Int(3)))]),
        ArgEntry::Table(vec![(String::from("quiet"), TableValue::Value(ArgScalar::Flag(false)))]),
    ];
    let tokens = build_args(&entries).unwrap();
    assert_eq!(tokens, vec!["5", "x", "--verbose", "--level", "3"]);
}

#[test]
fn positional_primitives() {
    let entries = vec![
        ArgEntry::Scalar(ArgScalar::Int(-42)),
        ArgEntry::Scalar(ArgScalar::Flag(true)),
        ArgEntry::Scalar(ArgScalar::Flag(false)),
        ArgEntry::Scalar(ArgScalar::Decimal(String::from("2.5"))),
    ];
    let tokens = build_args(&entries).unwrap();
    assert_eq!(tokens, vec!["-42", "true", "false", "2.5"]);
}

#[test]
fn table_value_tokens() {
    let entries = vec![ArgEntry::Table(vec![
        (String::from("name"), TableValue::Value(text("w"))),
        (String::from("ratio"), TableValue::Value(ArgScalar::Decimal(String::from("0.5")))),
    ])];
    let tokens = build_args(&entries).unwrap();
    assert_eq!(tokens, vec!["--name", "w", "--ratio", "0.5"]);
}

#[test]
fn unsupported_entry_is_rejected() {
    let entries = vec![ArgEntry::Scalar(ArgScalar::Int(1)), ArgEntry::Unsupported];
    assert_eq!(build_args(&entries), Err(ArgError::UnsupportedShape));
}

#[test]
fn unsupported_table_value_is_rejected() {
    let entries = vec![ArgEntry::Table(vec![(String::from("when"), TableValue::Unsupported)])];
    assert_eq!(build_args(&entries), Err(ArgError::UnsupportedShape));
}

#[test]
fn empty_list_builds_no_tokens() {
    let entries: Vec<ArgEntry> = vec![];
    let tokens = build_args(&entries).unwrap();
    assert!(tokens.is_empty());
}

#[test]
fn extreme_integers() {
    let entries = vec![
        ArgEntry::Scalar(ArgScalar::Int(i64::MIN)),
        ArgEntry::Scalar(ArgScalar::Int(i64::MAX)),
        ArgEntry::Scalar(ArgScalar::Int(0)),
    ];
    let tokens = build_args(&entries).unwrap();
    assert_eq!(tokens, vec!["-9223372036854775808", "9223372036854775807", "0"]);
}
