use hvmgen::error::CompileError;
use hvmgen::json::{number_value, run, JsonValue};

fn value(text: &str) -> JsonValue {
    run(text).unwrap().0
}

#[test]
fn run_reads_the_words() {
    assert_eq!(value("null"), JsonValue::Null);
    assert_eq!(value("true"), JsonValue::Boolean(true));
    assert_eq!(value("false"), JsonValue::Boolean(false));
}

#[test]
fn run_rejects_a_broken_word() {
    assert_eq!(run("nul").err(), Some(CompileError::SyntaxError));
    assert_eq!(run("tru").err(), Some(CompileError::SyntaxError));
    assert_eq!(run("falsy").err(), Some(CompileError::SyntaxError));
}

#[test]
fn run_reads_numbers() {
    assert_eq!(value("12"), JsonValue::Num(12));
    assert_eq!(value("-7"), JsonValue::Num(-7));
    assert_eq!(value("+5"), JsonValue::Num(5));
    assert_eq!(value("2147483647"), JsonValue::Num(2147483647));
    assert_eq!(value("-2147483648"), JsonValue::Num(-2147483648));
}

#[test]
fn run_leaves_the_text_behind_a_number() {
    let (found, rest) = run("12] tail").unwrap();
    assert_eq!(found, JsonValue::Num(12));
    assert_eq!(rest, "] tail");
}

#[test]
fn run_rejects_numbers_that_are_no_32_bit_integers() {
    assert_eq!(run("1.5").err(), Some(CompileError::SyntaxError));
    assert_eq!(run("2147483648").err(), Some(CompileError::SyntaxError));
    assert_eq!(run("1e3").err(), Some(CompileError::SyntaxError));
    assert_eq!(run("-").err(), Some(CompileError::SyntaxError));
}

#[test]
fn run_skips_whitespace_around_the_value() {
    let (found, rest) = run(" \t\r\n 1 \n x").unwrap();
    assert_eq!(found, JsonValue::Num(1));
    assert_eq!(rest, "x");
}

#[test]
fn run_reads_strings_with_escapes() {
    assert_eq!(value(r#""plain""#), JsonValue::Str("plain".to_string()));
    assert_eq!(value(r#""""#), JsonValue::Str(String::new()));
    assert_eq!(
        value(r#""a\"b\\c\/d\be\ff\ng\rh\ti""#),
        JsonValue::Str("a\"b\\c/d\u{8}e\u{c}f\ng\rh\ti".to_string())
    );
    assert_eq!(value("\"caf\u{e9} \u{1F600}\""), JsonValue::Str("caf\u{e9} \u{1F600}".to_string()));
}

#[test]
fn run_reads_unicode_escapes() {
    assert_eq!(value(r#""\u0041""#), JsonValue::Str("A".to_string()));
    assert_eq!(value(r#""\u00e9\u00E9""#), JsonValue::Str("\u{e9}\u{e9}".to_string()));
    assert_eq!(value(r#""\ud83d\ude00""#), JsonValue::Str("\u{1F600}".to_string()));
    assert_eq!(value(r#""\uFFFF""#), JsonValue::Str("\u{FFFF}".to_string()));
}

#[test]
fn run_rejects_malformed_escapes() {
    assert_eq!(run(r#""\x""#).err(), Some(CompileError::SyntaxError));
    assert_eq!(run(r#""\u12""#).err(), Some(CompileError::SyntaxError));
    assert_eq!(run(r#""\u12g4""#).err(), Some(CompileError::SyntaxError));
    assert_eq!(run(r#""\u+041""#).err(), Some(CompileError::SyntaxError));
    assert_eq!(run(r#""\u-041""#).err(), Some(CompileError::SyntaxError));
    assert_eq!(run(r#""\uD83D""#).err(), Some(CompileError::SyntaxError));
    assert_eq!(run(r#""\uD83DA""#).err(), Some(CompileError::SyntaxError));
    assert_eq!(run(r#""\uDE00""#).err(), Some(CompileError::SyntaxError));
    assert_eq!(run(r#""\"#).err(), Some(CompileError::SyntaxError));
}

#[test]
fn run_rejects_a_string_without_an_end() {
    assert_eq!(run(r#""abc"#).err(), Some(CompileError::SyntaxError));
}

#[test]
fn run_reads_arrays() {
    assert_eq!(value("[]"), JsonValue::Array(vec![]));
    assert_eq!(value("[ ]"), JsonValue::Array(vec![]));
    assert_eq!(
        value("[1 , \"a\",[true ,null] ]"),
        JsonValue::Array(vec![
            JsonValue::Num(1),
            JsonValue::Str("a".to_string()),
            JsonValue::Array(vec![JsonValue::Boolean(true), JsonValue::Null]),
        ])
    );
}

#[test]
fn run_rejects_malformed_arrays() {
    assert_eq!(run("[1,]").err(), Some(CompileError::SyntaxError));
    assert_eq!(run("[1 2]").err(), Some(CompileError::SyntaxError));
    assert_eq!(run("[1").err(), Some(CompileError::SyntaxError));
    assert_eq!(run("[,1]").err(), Some(CompileError::SyntaxError));
    assert_eq!(run("[x]").err(), Some(CompileError::SyntaxError));
}

#[test]
fn run_keeps_the_values_of_an_object_in_order() {
    assert_eq!(value("{}"), JsonValue::Object(vec![]));
    assert_eq!(
        value("{ \"kind\" : \"Int\" , \"value\":3, \"at\": {\"line\": 1} }"),
        JsonValue::Object(vec![
            JsonValue::Str("Int".to_string()),
            JsonValue::Num(3),
            JsonValue::Object(vec![JsonValue::Num(1)]),
        ])
    );
}

#[test]
fn run_rejects_malformed_objects() {
    assert_eq!(run("{\"a\" 1}").err(), Some(CompileError::SyntaxError));
    assert_eq!(run("{\"a\":}").err(), Some(CompileError::SyntaxError));
    assert_eq!(run("{a:1}").err(), Some(CompileError::SyntaxError));
    assert_eq!(run("{\"a\":1,}").err(), Some(CompileError::SyntaxError));
    assert_eq!(run("{\"a\":1").err(), Some(CompileError::SyntaxError));
}

#[test]
fn run_rejects_what_starts_no_value() {
    assert_eq!(run("").err(), Some(CompileError::SyntaxError));
    assert_eq!(run("   ").err(), Some(CompileError::SyntaxError));
    assert_eq!(run("]").err(), Some(CompileError::SyntaxError));
    assert_eq!(run("x").err(), Some(CompileError::SyntaxError));
}

#[test]
fn extractors_give_what_the_value_holds() {
    assert!(JsonValue::Boolean(true).extract_bool());
    assert_eq!(JsonValue::Str("s".to_string()).extract_str(), "s");
    assert_eq!(JsonValue::Num(-3).extract_num(), -3);
    let items = vec![JsonValue::Num(1), JsonValue::Null];
    assert_eq!(JsonValue::Array(items.clone()).extract_array(), &items);
    assert_eq!(JsonValue::Object(items.clone()).extract_object(), &items);
    assert_eq!(JsonValue::Object(items).extract_object_key(1), &JsonValue::Null);
}

#[test]
fn clone_copies_the_whole_value() {
    let original = value("{\"a\":[1,\"x\",{\"b\":null}],\"c\":true}");
    assert_eq!(original.clone(), original);
    assert_eq!(original.duplicate(), original);
}

#[test]
fn number_value_wraps_what_was_scanned() {
    assert_eq!(number_value(Some((7, "rest"))), Some((JsonValue::Num(7), "rest")));
    assert_eq!(number_value(None), None);
}
