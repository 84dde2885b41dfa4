use rowifi_core::arguments::{bind_arguments, ArgValue, FieldSpec, FieldType};
use rowifi_core::text::parse_i64;
use rowifi_core::tokenizer::tokenize;

fn int_str_specs() -> Vec<FieldSpec> {
    vec![
        FieldSpec { name: b"count".to_vec(), ty: FieldType::Int, required: true, rest: false },
        FieldSpec { name: b"label".to_vec(), ty: FieldType::Str, required: true, rest: false },
    ]
}

#[test]
fn integer_then_string_fails_on_a_word() {
    let content = b"abc def";
    let tokens = tokenize(content, 0);
    let e = bind_arguments(content, &tokens, 0, &int_str_specs()).unwrap_err();
    assert_eq!(e.fragment, b"abc".to_vec());
    assert_eq!(e.field, b"count".to_vec());
    assert_eq!(e.expected, b"number".to_vec());
}

#[test]
fn integer_then_string_binds_both() {
    let content = b"42 def";
    let tokens = tokenize(content, 0);
    let vs = bind_arguments(content, &tokens, 0, &int_str_specs()).unwrap();
    assert_eq!(vs.len(), 2);
    assert!(matches!(vs[0], ArgValue::Int(42)));
    match &vs[1] {
        ArgValue::Str(s) => assert_eq!(s, &b"def".to_vec()),
        _ => panic!("expected a word"),
    }
}

#[test]
fn missing_required_field_reports_an_empty_fragment() {
    let content = b"42";
    let tokens = tokenize(content, 0);
    let e = bind_arguments(content, &tokens, 0, &int_str_specs()).unwrap_err();
    assert_eq!(e.fragment, b"".to_vec());
    assert_eq!(e.field, b"label".to_vec());
}

#[test]
fn optional_field_absent_binds_absent_without_consuming() {
    let specs = vec![
        FieldSpec { name: b"n".to_vec(), ty: FieldType::Int, required: false, rest: false },
        FieldSpec { name: b"rest".to_vec(), ty: FieldType::Str, required: false, rest: true },
    ];
    let content = b"hello world";
    let tokens = tokenize(content, 0);
    let vs = bind_arguments(content, &tokens, 0, &specs).unwrap();
    assert!(matches!(vs[0], ArgValue::Absent));
    match &vs[1] {
        ArgValue::Str(s) => assert_eq!(s, &b"hello world".to_vec()),
        _ => panic!("expected the rest text"),
    }
}

#[test]
fn rest_field_captures_text_verbatim() {
    let specs = vec![
        FieldSpec { name: b"rest".to_vec(), ty: FieldType::Str, required: true, rest: true },
    ];
    let content = b"  a  b   c ";
    let tokens = tokenize(content, 0);
    let vs = bind_arguments(content, &tokens, 0, &specs).unwrap();
    match &vs[0] {
        ArgValue::Str(s) => assert_eq!(s, &b"a  b   c ".to_vec()),
        _ => panic!("expected the rest text"),
    }
}

#[test]
fn extra_tokens_are_ignored() {
    let specs = vec![
        FieldSpec { name: b"n".to_vec(), ty: FieldType::Int, required: true, rest: false },
    ];
    let content = b"3 more words";
    let tokens = tokenize(content, 0);
    let vs = bind_arguments(content, &tokens, 0, &specs).unwrap();
    assert_eq!(vs.len(), 1);
    assert!(matches!(vs[0], ArgValue::Int(3)));
}

#[test]
fn integer_parsing_covers_the_i64_range() {
    assert_eq!(parse_i64(b"0"), Some(0));
    assert_eq!(parse_i64(b"-0"), Some(0));
    assert_eq!(parse_i64(b"007"), Some(7));
    assert_eq!(parse_i64(b"9223372036854775807"), Some(i64::MAX));
    assert_eq!(parse_i64(b"-9223372036854775808"), Some(i64::MIN));
    assert_eq!(parse_i64(b"9223372036854775808"), None);
    assert_eq!(parse_i64(b"-9223372036854775809"), None);
    assert_eq!(parse_i64(b"18446744073709551616000"), None);
    assert_eq!(parse_i64(b""), None);
    assert_eq!(parse_i64(b"-"), None);
    assert_eq!(parse_i64(b"12a"), None);
    assert_eq!(parse_i64(b"+3"), None);
}

#[test]
fn tokenizer_splits_on_runs_of_whitespace() {
    let content = b"  one\t two\n";
    let tokens = tokenize(content, 0);
    assert_eq!(tokens.len(), 2);
    assert_eq!(&content[tokens[0].start..tokens[0].end], b"one");
    assert_eq!(&content[tokens[1].start..tokens[1].end], b"two");
    assert_eq!(tokenize(b"", 0).len(), 0);
    assert_eq!(tokenize(b"   ", 0).len(), 0);
}
