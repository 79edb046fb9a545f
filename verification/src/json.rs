//! JSON: the values, and the grammar of the text they are read from.
//!
//! An object is kept as the sequence of its values, in the order of the
//! text; its keys are read and dropped.

use vstd::prelude::*;
use vstd::string::StrSliceExecFns;
use crate::error::{CompileError, Failure};
use crate::text::{push_char, strip_char};

verus! {

/// A JSON value.
#[derive(Debug, PartialEq)]
pub enum JsonValue {
    Null,
    Boolean(bool),
    Str(String),
    Num(i32),
    Array(Vec<JsonValue>),
    Object(Vec<JsonValue>),
}

/// The mathematical value of a [`JsonValue`].
pub enum Json {
    Null,
    Boolean(bool),
    Str(Seq<char>),
    Num(i32),
    Array(Seq<Json>),
    Object(Seq<Json>),
}

/// The values that a list of JSON values stands for.
pub open spec fn models(values: Seq<JsonValue>) -> Seq<Json> {
    Seq::new(values.len(), |i: int| values[i].model())
}

impl JsonValue {
    /// The value that this JSON value stands for.
    pub open spec fn model(self) -> Json
        decreases self,
    {
        match self {
            JsonValue::Null => Json::Null,
            JsonValue::Boolean(b) => Json::Boolean(b),
            JsonValue::Str(s) => Json::Str(s@),
            JsonValue::Num(n) => Json::Num(n),
            JsonValue::Array(items) => Json::Array(
                Seq::new(
                    items@.len(),
                    |i: int|
                        if 0 <= i < items@.len() {
                            items@[i].model()
                        } else {
                            Json::Null
                        },
                ),
            ),
            JsonValue::Object(fields) => Json::Object(
                Seq::new(
                    fields@.len(),
                    |i: int|
                        if 0 <= i < fields@.len() {
                            fields@[i].model()
                        } else {
                            Json::Null
                        },
                ),
            ),
        }
    }
}

impl View for JsonValue {
    type V = Json;

    open spec fn view(&self) -> Json {
        self.model()
    }
}

/// A part of the text that was read, with what follows it.
pub type Read<T> = Option<(T, Seq<char>)>;

/// Whether a character is JSON whitespace.
pub open spec fn is_space(c: char) -> bool {
    c == ' ' || c == '\t' || c == '\r' || c == '\n'
}

/// The text after its leading whitespace.
pub open spec fn after_spaces(s: Seq<char>) -> Seq<char>
    decreases s.len(),
{
    if s.len() > 0 && is_space(s[0]) {
        after_spaces(s.skip(1))
    } else {
        s
    }
}

/// Skipping whitespace never makes a text longer.
pub proof fn lemma_after_spaces_len(s: Seq<char>)
    ensures
        after_spaces(s).len() <= s.len(),
    decreases s.len(),
{
    if s.len() > 0 && is_space(s[0]) {
        lemma_after_spaces_len(s.skip(1));
    }
}

/// The text after its first character, where that is `c`.
pub open spec fn after_char(s: Seq<char>, c: char) -> Option<Seq<char>> {
    if s.len() > 0 && s[0] == c {
        Some(s.skip(1))
    } else {
        None
    }
}

/// The text after one more expected character, where there still is a text.
pub open spec fn then_char(s: Option<Seq<char>>, c: char) -> Option<Seq<char>> {
    match s {
        Some(rest) => after_char(rest, c),
        None => None,
    }
}

/// The text that an optional string slice holds.
pub open spec fn text_of(input: Option<&str>) -> Option<Seq<char>> {
    match input {
        Some(text) => Some(text@),
        None => None,
    }
}

/// Whether an optional string slice holds the given text.
pub open spec fn texts_agree(got: Option<&str>, want: Option<Seq<char>>) -> bool {
    text_of(got) == want
}

/// The text after the word `null`.
pub open spec fn after_null(s: Seq<char>) -> Option<Seq<char>> {
    then_char(then_char(then_char(after_char(s, 'n'), 'u'), 'l'), 'l')
}

/// The text after the word `true`.
pub open spec fn after_true(s: Seq<char>) -> Option<Seq<char>> {
    then_char(then_char(then_char(after_char(s, 't'), 'r'), 'u'), 'e')
}

/// The text after the word `false`.
pub open spec fn after_false(s: Seq<char>) -> Option<Seq<char>> {
    then_char(then_char(then_char(then_char(after_char(s, 'f'), 'a'), 'l'), 's'), 'e')
}

/// The value of a hexadecimal digit.
pub open spec fn hex_digit(c: char) -> Option<nat> {
    if '0' <= c && c <= '9' {
        Some((c as nat - '0' as nat) as nat)
    } else if 'a' <= c && c <= 'f' {
        Some((c as nat - 'a' as nat + 10) as nat)
    } else if 'A' <= c && c <= 'F' {
        Some((c as nat - 'A' as nat + 10) as nat)
    } else {
        None
    }
}

/// The number that the next four characters denote in base sixteen: each
/// of the four is a hexadecimal digit.
pub open spec fn hex_word(s: Seq<char>) -> Read<nat> {
    if s.len() < 4 {
        None
    } else if hex_digit(s[0]) is Some && hex_digit(s[1]) is Some && hex_digit(s[2]) is Some
        && hex_digit(s[3]) is Some {
        Some(
            (
                ((hex_digit(s[0])->0 * 16 + hex_digit(s[1])->0) * 16 + hex_digit(s[2])->0) * 16
                    + hex_digit(s[3])->0,
                s.skip(4),
            ),
        )
    } else {
        None
    }
}

/// Whether a code unit is one half of a surrogate pair.
pub open spec fn is_surrogate(unit: nat) -> bool {
    0xD800 <= unit < 0xE000
}

/// The code point that a pair of surrogates denotes.
pub open spec fn paired(high: nat, low: nat) -> nat {
    ((high - 0xD800) * 0x400 + (low - 0xDC00) + 0x10000) as nat
}

/// The character of a `\u` escape, read after the `u`: one code unit that
/// is no surrogate, or a high surrogate, `\u` and a low surrogate.
pub open spec fn unicode_escaped(s: Seq<char>) -> Read<char> {
    match hex_word(s) {
        Some((unit, rest)) => if !is_surrogate(unit) {
            Some((unit as char, rest))
        } else {
            match then_char(after_char(rest, '\\'), 'u') {
                Some(second) => match hex_word(second) {
                    Some((low, tail)) => if unit < 0xDC00 && 0xDC00 <= low < 0xE000 {
                        Some((paired(unit, low) as char, tail))
                    } else {
                        None
                    },
                    None => None,
                },
                None => None,
            }
        },
        None => None,
    }
}

/// The character of an escape, read after the backslash.
pub open spec fn escaped(s: Seq<char>) -> Read<char> {
    if s.len() == 0 {
        None
    } else if s[0] == '"' || s[0] == '\\' || s[0] == '/' {
        Some((s[0], s.skip(1)))
    } else if s[0] == 'b' {
        Some(('\x08', s.skip(1)))
    } else if s[0] == 'f' {
        Some(('\x0C', s.skip(1)))
    } else if s[0] == 'n' {
        Some(('\n', s.skip(1)))
    } else if s[0] == 'r' {
        Some(('\r', s.skip(1)))
    } else if s[0] == 't' {
        Some(('\t', s.skip(1)))
    } else if s[0] == 'u' {
        unicode_escaped(s.skip(1))
    } else {
        None
    }
}

/// One character of a string: any character but the quote, a backslash
/// starting an escape.
pub open spec fn one_character(s: Seq<char>) -> Read<char> {
    if s.len() == 0 || s[0] == '"' {
        None
    } else if s[0] == '\\' {
        escaped(s.skip(1))
    } else {
        Some((s[0], s.skip(1)))
    }
}

/// One character of a string takes at least one character of the text.
pub proof fn lemma_character_len(s: Seq<char>)
    ensures
        one_character(s) matches Some((_, rest)) ==> rest.len() < s.len(),
{
}

/// The characters of a string up to its closing quote, read after the
/// opening quote.
pub open spec fn string_rest(s: Seq<char>) -> Read<Seq<char>>
    decreases s.len(),
    via string_rest_decreases
{
    match one_character(s) {
        Some((c, rest)) => match string_rest(rest) {
            Some((text, tail)) => Some((seq![c] + text, tail)),
            None => None,
        },
        None => match after_char(s, '"') {
            Some(tail) => Some((Seq::<char>::empty(), tail)),
            None => None,
        },
    }
}

#[via_fn]
proof fn string_rest_decreases(s: Seq<char>) {
    lemma_character_len(s);
}

/// The text behind a string is no longer than the text it was read from.
pub proof fn lemma_string_rest_len(s: Seq<char>)
    ensures
        string_rest(s) matches Some((_, tail)) ==> tail.len() <= s.len(),
    decreases s.len(),
{
    if let Some((_, rest)) = one_character(s) {
        lemma_character_len(s);
        lemma_string_rest_len(rest);
    }
}

/// A string in quotes.
pub open spec fn quoted_string(s: Seq<char>) -> Read<Seq<char>> {
    match after_char(s, '"') {
        Some(rest) => string_rest(rest),
        None => None,
    }
}

/// The number at the start of a text, with what follows it: what the
/// number scanner makes of the text.
pub uninterp spec fn scanned_number(s: Seq<char>) -> Option<(i32, Seq<char>)>;

/// What a scan returned, with the rest as a sequence of characters.
pub open spec fn scan_read(scanned: Option<(i32, &str)>) -> Option<(i32, Seq<char>)> {
    match scanned {
        Some((number, rest)) => Some((number, rest@)),
        None => None,
    }
}

/// Reads a signed number at the start of the text.
///
/// Rests on `winnow::ascii::float` with `i32` as the type of its result:
/// it recognises the longest text in the form of a decimal number, with an
/// optional sign, fraction and exponent, and hands it to the standard
/// library's reading of an `i32`; it fails where either does. The contract
/// names the result, and claims of it only that a success leaves less text
/// than there was, because the recognised text is never empty.
#[verifier::external_body]
fn scan_number<'a>(input: &'a str) -> (scanned: Option<(i32, &'a str)>)
    ensures
        scan_read(scanned) == scanned_number(input@),
        scanned matches Some((_, rest)) ==> rest@.len() < input@.len(),
{
    let mut rest: &str = input;
    match winnow::ascii::float::<&str, i32, winnow::error::ErrorKind>(&mut rest) {
        Ok(number) => Some((number, rest)),
        Err(_) => None,
    }
}

/// The value that a scanned number makes.
pub open spec fn number_read(scanned: Option<(i32, Seq<char>)>) -> Read<Json> {
    match scanned {
        Some((number, rest)) => Some((Json::Num(number), rest)),
        None => None,
    }
}

/// A JSON value at the start of the text, chosen by its first character.
pub open spec fn value(s: Seq<char>) -> Read<Json>
    decreases s.len(), 0nat,
{
    if s.len() == 0 {
        None
    } else if s[0] == 'n' {
        match after_null(s) {
            Some(rest) => Some((Json::Null, rest)),
            None => None,
        }
    } else if s[0] == 't' {
        match after_true(s) {
            Some(rest) => Some((Json::Boolean(true), rest)),
            None => None,
        }
    } else if s[0] == 'f' {
        match after_false(s) {
            Some(rest) => Some((Json::Boolean(false), rest)),
            None => None,
        }
    } else if s[0] == '"' {
        match string_rest(s.skip(1)) {
            Some((text, rest)) => Some((Json::Str(text), rest)),
            None => None,
        }
    } else if s[0] == '+' || s[0] == '-' || ('0' <= s[0] && s[0] <= '9') {
        number_read(scanned_number(s))
    } else if s[0] == '[' {
        proof {
            lemma_after_spaces_len(s.skip(1));
        }
        match items(after_spaces(s.skip(1))) {
            Some((values, rest)) => Some((Json::Array(values), rest)),
            None => None,
        }
    } else if s[0] == '{' {
        proof {
            lemma_after_spaces_len(s.skip(1));
        }
        match fields(after_spaces(s.skip(1))) {
            Some((values, rest)) => Some((Json::Object(values), rest)),
            None => None,
        }
    } else {
        None
    }
}

/// The values of an array up to its closing bracket, read after the
/// opening bracket and the whitespace behind it.
pub open spec fn items(s: Seq<char>) -> Read<Seq<Json>>
    decreases s.len(), 2nat,
{
    match after_char(s, ']') {
        Some(rest) => Some((Seq::<Json>::empty(), rest)),
        None => more_items(s),
    }
}

/// One value of an array, then a comma and more values, or the closing
/// bracket. Whitespace may stand around the comma and before the bracket.
///
/// The test on the lengths makes the definition well founded whatever the
/// number scanner returns; a value that was read always leaves less text
/// than there was.
pub open spec fn more_items(s: Seq<char>) -> Read<Seq<Json>>
    decreases s.len(), 1nat,
{
    match value(s) {
        Some((first, rest)) => match after_char(after_spaces(rest), ',') {
            Some(behind) => {
                let next = after_spaces(behind);
                if next.len() < s.len() {
                    match more_items(next) {
                        Some((others, tail)) => Some((seq![first] + others, tail)),
                        None => None,
                    }
                } else {
                    None
                }
            },
            None => match after_char(after_spaces(rest), ']') {
                Some(tail) => Some((seq![first], tail)),
                None => None,
            },
        },
        None => None,
    }
}

/// The values of an object up to its closing brace, read after the opening
/// brace and the whitespace behind it.
pub open spec fn fields(s: Seq<char>) -> Read<Seq<Json>>
    decreases s.len(), 3nat,
{
    match after_char(s, '}') {
        Some(rest) => Some((Seq::<Json>::empty(), rest)),
        None => more_fields(s),
    }
}

/// The value of one field: a key in quotes, a colon and a value.
pub open spec fn field(s: Seq<char>) -> Read<Json>
    decreases s.len(), 1nat,
    via field_decreases
{
    match quoted_string(s) {
        Some((_, rest)) => match after_char(after_spaces(rest), ':') {
            Some(behind) => value(after_spaces(behind)),
            None => None,
        },
        None => None,
    }
}

#[via_fn]
proof fn field_decreases(s: Seq<char>) {
    if let Some((_, rest)) = quoted_string(s) {
        lemma_string_rest_len(s.skip(1));
        lemma_after_spaces_len(rest);
        if let Some(behind) = after_char(after_spaces(rest), ':') {
            lemma_after_spaces_len(behind);
        }
    }
}

/// One field of an object, then a comma and more fields, or the closing
/// brace. The test on the lengths is that of [`more_items`].
pub open spec fn more_fields(s: Seq<char>) -> Read<Seq<Json>>
    decreases s.len(), 2nat,
{
    match field(s) {
        Some((first, rest)) => match after_char(after_spaces(rest), ',') {
            Some(behind) => {
                let next = after_spaces(behind);
                if next.len() < s.len() {
                    match more_fields(next) {
                        Some((others, tail)) => Some((seq![first] + others, tail)),
                        None => None,
                    }
                } else {
                    None
                }
            },
            None => match after_char(after_spaces(rest), '}') {
                Some(tail) => Some((seq![first], tail)),
                None => None,
            },
        },
        None => None,
    }
}

/// A JSON document: one value with whitespace around it. What follows is
/// left unread.
pub open spec fn document(s: Seq<char>) -> Read<Json> {
    match value(after_spaces(s)) {
        Some((json, rest)) => Some((json, after_spaces(rest))),
        None => None,
    }
}

/// The character with the given code, where the code is a scalar value.
///
/// Rests on `char::from_u32`, which returns the character for every code
/// but the surrogates and those above `0x10FFFF`.
#[verifier::external_body]
fn char_of(code: u32) -> (c: Option<char>)
    ensures
        c == (if code < 0xD800 || (0xE000 <= code && code <= 0x10FFFF) {
            Some(code as char)
        } else {
            None
        }),
{
    char::from_u32(code)
}

/// Splits a text that is not empty into its first character and the rest.
fn split_first<'a>(input: &'a str) -> (parts: (char, &'a str))
    requires
        input@.len() > 0,
    ensures
        parts.0 == input@[0],
        parts.1@ == input@.skip(1),
{
    let c = input.get_char(0);
    match strip_char(input, c) {
        Some(rest) => (c, rest),
        None => (c, input),
    }
}

/// Skips one more expected character.
fn then_strip<'a>(input: Option<&'a str>, c: char) -> (rest: Option<&'a str>)
    ensures
        texts_agree(rest, then_char(text_of(input), c)),
{
    match input {
        Some(text) => strip_char(text, c),
        None => None,
    }
}

/// Skips the whitespace at the start of a text.
fn ws<'a>(input: &'a str) -> (rest: &'a str)
    ensures
        rest@ == after_spaces(input@),
        rest@.len() <= input@.len(),
{
    let mut rest = input;
    while !rest.is_empty() && is_space_char(rest.get_char(0))
        invariant
            after_spaces(rest@) == after_spaces(input@),
            rest@.len() <= input@.len(),
        decreases rest@.len(),
    {
        let (_, tail) = split_first(rest);
        rest = tail;
    }
    rest
}

/// Whether a character is JSON whitespace.
fn is_space_char(c: char) -> (space: bool)
    ensures
        space == is_space(c),
{
    c == ' ' || c == '\t' || c == '\r' || c == '\n'
}

/// Reads the word `null`.
fn null<'a>(input: &'a str) -> (rest: Option<&'a str>)
    ensures
        texts_agree(rest, after_null(input@)),
{
    then_strip(then_strip(then_strip(strip_char(input, 'n'), 'u'), 'l'), 'l')
}

/// Reads the word `true`.
fn true_<'a>(input: &'a str) -> (rest: Option<&'a str>)
    ensures
        texts_agree(rest, after_true(input@)),
{
    then_strip(then_strip(then_strip(strip_char(input, 't'), 'r'), 'u'), 'e')
}

/// Reads the word `false`.
fn false_<'a>(input: &'a str) -> (rest: Option<&'a str>)
    ensures
        texts_agree(rest, after_false(input@)),
{
    then_strip(
        then_strip(then_strip(then_strip(strip_char(input, 'f'), 'a'), 'l'), 's'),
        'e',
    )
}

/// Whether what was read is what the grammar names.
pub open spec fn read_agrees<T>(got: Option<(T, &str)>, want: Read<T>) -> bool {
    match want {
        Some((item, rest)) => got matches Some((found, tail)) && found == item && tail@ == rest,
        None => got is None,
    }
}

/// The value of a hexadecimal digit.
fn hex_value(c: char) -> (value: Option<u32>)
    ensures
        match hex_digit(c) {
            Some(digit) => value == Some(digit as u32) && digit < 16,
            None => value is None,
        },
{
    if '0' <= c && c <= '9' {
        Some((c as u32) - ('0' as u32))
    } else if 'a' <= c && c <= 'f' {
        Some((c as u32) - ('a' as u32) + 10)
    } else if 'A' <= c && c <= 'F' {
        Some((c as u32) - ('A' as u32) + 10)
    } else {
        None
    }
}

/// Reads four characters as a number in base sixteen.
fn u16_hex<'a>(input: &'a str) -> (read: Option<(u32, &'a str)>)
    ensures
        match hex_word(input@) {
            Some((unit, rest)) => read matches Some((found, tail)) && found == unit && tail@
                == rest && unit <= 0xFFFF,
            None => read is None,
        },
{
    if input.is_empty() {
        return None;
    }
    let (c0, r0) = split_first(input);
    if r0.is_empty() {
        return None;
    }
    let (c1, r1) = split_first(r0);
    if r1.is_empty() {
        return None;
    }
    let (c2, r2) = split_first(r1);
    if r2.is_empty() {
        return None;
    }
    let (c3, r3) = split_first(r2);
    proof {
        assert(input@.len() >= 4);
        assert(c1 == input@[1] && c2 == input@[2] && c3 == input@[3]);
        assert(r3@ =~= input@.skip(4));
    }
    match (hex_value(c0), hex_value(c1), hex_value(c2), hex_value(c3)) {
        (Some(d0), Some(d1), Some(d2), Some(d3)) => Some(
            (((d0 * 16 + d1) * 16 + d2) * 16 + d3, r3),
        ),
        _ => None,
    }
}

/// Reads what follows `\u`: one code unit, or a pair of surrogates.
fn unicode_escape<'a>(input: &'a str) -> (read: Option<(char, &'a str)>)
    ensures
        read_agrees(read, unicode_escaped(input@)),
{
    let (unit, rest) = match u16_hex(input) {
        Some(found) => found,
        None => { return None; },
    };
    if !(0xD800 <= unit && unit < 0xE000) {
        return match char_of(unit) {
            Some(c) => Some((c, rest)),
            None => None,
        };
    }
    let second = match then_strip(strip_char(rest, '\\'), 'u') {
        Some(text) => text,
        None => { return None; },
    };
    let (low, tail) = match u16_hex(second) {
        Some(found) => found,
        None => { return None; },
    };
    if unit < 0xDC00 && 0xDC00 <= low && low < 0xE000 {
        match char_of((unit - 0xD800) * 0x400 + (low - 0xDC00) + 0x10000) {
            Some(c) => Some((c, tail)),
            None => None,
        }
    } else {
        None
    }
}

/// Reads one character of a string.
fn character<'a>(input: &'a str) -> (read: Option<(char, &'a str)>)
    ensures
        read_agrees(read, one_character(input@)),
        read matches Some((_, tail)) ==> tail@.len() < input@.len(),
{
    if input.is_empty() {
        return None;
    }
    let (c, rest) = split_first(input);
    if c == '"' {
        None
    } else if c != '\\' {
        Some((c, rest))
    } else if rest.is_empty() {
        None
    } else {
        let (e, tail) = split_first(rest);
        if e == '"' || e == '\\' || e == '/' {
            Some((e, tail))
        } else if e == 'b' {
            Some(('\x08', tail))
        } else if e == 'f' {
            Some(('\x0C', tail))
        } else if e == 'n' {
            Some(('\n', tail))
        } else if e == 'r' {
            Some(('\r', tail))
        } else if e == 't' {
            Some(('\t', tail))
        } else if e == 'u' {
            let read = unicode_escape(tail);
            proof {
                lemma_unicode_escaped_len(tail@);
            }
            read
        } else {
            None
        }
    }
}

/// A `\u` escape leaves no more text than there was.
proof fn lemma_unicode_escaped_len(s: Seq<char>)
    ensures
        unicode_escaped(s) matches Some((_, rest)) ==> rest.len() <= s.len(),
{
}

/// Whether a string that was read is what the grammar names.
pub open spec fn string_agrees(got: Option<(String, &str)>, want: Read<Seq<char>>) -> bool {
    match want {
        Some((text, rest)) => got matches Some((found, tail)) && found@ == text && tail@ == rest,
        None => got is None,
    }
}

/// Whether a value that was read is what the grammar names.
pub open spec fn value_agrees(got: Option<(JsonValue, &str)>, want: Read<Json>) -> bool {
    match want {
        Some((json, rest)) => got matches Some((found, tail)) && found@ == json && tail@ == rest,
        None => got is None,
    }
}

/// Whether the values that were read are what the grammar names.
pub open spec fn values_agree(got: Option<(Vec<JsonValue>, &str)>, want: Read<Seq<Json>>) -> bool {
    match want {
        Some((jsons, rest)) => got matches Some((found, tail)) && models(found@) == jsons
            && tail@ == rest,
        None => got is None,
    }
}

/// What reading a string gives once `done` was read before it.
pub open spec fn string_after(done: Seq<char>, rest: Read<Seq<char>>) -> Read<Seq<char>> {
    match rest {
        Some((text, tail)) => Some((done + text, tail)),
        None => None,
    }
}

/// What reading a list gives once `done` was read before it.
pub open spec fn list_after(done: Seq<Json>, rest: Read<Seq<Json>>) -> Read<Seq<Json>> {
    match rest {
        Some((values, tail)) => Some((done + values, tail)),
        None => None,
    }
}

/// Reads a string in quotes.
fn string<'a>(input: &'a str) -> (read: Option<(String, &'a str)>)
    ensures
        string_agrees(read, quoted_string(input@)),
        read matches Some((_, tail)) ==> tail@.len() < input@.len(),
{
    let start = match strip_char(input, '"') {
        Some(rest) => rest,
        None => { return None; },
    };
    let mut text = String::new();
    let mut rest = start;
    loop
        invariant
            rest@.len() <= start@.len(),
            start@.len() < input@.len(),
            quoted_string(input@) == string_rest(start@),
            string_rest(start@) == string_after(text@, string_rest(rest@)),
        decreases rest@.len(),
    {
        match character(rest) {
            Some((c, tail)) => {
                proof {
                    let after = string_rest(tail@);
                    assert(string_after(text@.push(c), after) == string_after(
                        text@,
                        string_after(seq![c], after),
                    )) by {
                        if let Some((more, _)) = after {
                            assert(text@.push(c) + more =~= text@ + (seq![c] + more));
                        }
                    }
                }
                push_char(&mut text, c);
                rest = tail;
            },
            None => {
                proof {
                    let end = string_rest(rest@);
                    if let Some((none, _)) = end {
                        assert(text@ + none =~= text@);
                    }
                }
                return match strip_char(rest, '"') {
                    Some(tail) => Some((text, tail)),
                    None => None,
                };
            },
        }
    }
}

/// An array from its opening bracket on.
pub open spec fn bracketed(s: Seq<char>) -> Read<Seq<Json>> {
    match after_char(s, '[') {
        Some(rest) => items(after_spaces(rest)),
        None => None,
    }
}

/// An object from its opening brace on.
pub open spec fn braced(s: Seq<char>) -> Read<Seq<Json>> {
    match after_char(s, '{') {
        Some(rest) => fields(after_spaces(rest)),
        None => None,
    }
}

/// Adding a value to a list adds its model to the list's models.
proof fn lemma_models_push(values: Seq<JsonValue>, value: JsonValue)
    ensures
        models(values.push(value)) == models(values).push(value@),
{
    assert(models(values.push(value)) =~= models(values).push(value@));
}

/// Makes the JSON value of a number that was scanned.
pub fn number_value<'a>(scanned: Option<(i32, &'a str)>) -> (read: Option<(JsonValue, &'a str)>)
    ensures
        value_agrees(read, number_read(scan_read(scanned))),
{
    match scanned {
        Some((number, rest)) => Some((JsonValue::Num(number), rest)),
        None => None,
    }
}

/// Reads a JSON value, chosen by its first character.
fn json_value<'a>(input: &'a str) -> (read: Option<(JsonValue, &'a str)>)
    ensures
        value_agrees(read, value(input@)),
        read matches Some((_, tail)) ==> tail@.len() < input@.len(),
    decreases input@.len(), 1nat,
{
    if input.is_empty() {
        return None;
    }
    let c = input.get_char(0);
    if c == 'n' {
        match null(input) {
            Some(rest) => Some((JsonValue::Null, rest)),
            None => None,
        }
    } else if c == 't' {
        match true_(input) {
            Some(rest) => Some((JsonValue::Boolean(true), rest)),
            None => None,
        }
    } else if c == 'f' {
        match false_(input) {
            Some(rest) => Some((JsonValue::Boolean(false), rest)),
            None => None,
        }
    } else if c == '"' {
        match string(input) {
            Some((text, rest)) => Some((JsonValue::Str(text), rest)),
            None => None,
        }
    } else if c == '+' || c == '-' || ('0' <= c && c <= '9') {
        number_value(scan_number(input))
    } else if c == '[' {
        match array(input) {
            Some((values, rest)) => {
                let found = JsonValue::Array(values);
                proof {
                    assert(found@->Array_0 =~= models(values@));
                }
                Some((found, rest))
            },
            None => None,
        }
    } else if c == '{' {
        match object(input) {
            Some((values, rest)) => {
                let found = JsonValue::Object(values);
                proof {
                    assert(found@->Object_0 =~= models(values@));
                }
                Some((found, rest))
            },
            None => None,
        }
    } else {
        None
    }
}

/// Reads an array: values between brackets, separated by commas.
fn array<'a>(input: &'a str) -> (read: Option<(Vec<JsonValue>, &'a str)>)
    ensures
        values_agree(read, bracketed(input@)),
        read matches Some((_, tail)) ==> tail@.len() < input@.len(),
    decreases input@.len(), 0nat,
{
    let first = match strip_char(input, '[') {
        Some(rest) => ws(rest),
        None => { return None; },
    };
    let mut values: Vec<JsonValue> = Vec::new();
    match strip_char(first, ']') {
        Some(tail) => {
            proof {
                assert(models(values@) =~= Seq::<Json>::empty());
            }
            return Some((values, tail));
        },
        None => {},
    }
    let mut rest = first;
    proof {
        let all = more_items(first@);
        if let Some((found, _)) = all {
            assert(models(values@) + found =~= found);
        }
    }
    loop
        invariant
            rest@.len() < input@.len(),
            bracketed(input@) == list_after(models(values@), more_items(rest@)),
        decreases rest@.len(),
    {
        let (value, behind) = match json_value(rest) {
            Some(found) => found,
            None => { return None; },
        };
        let after = ws(behind);
        proof {
            lemma_models_push(values@, value);
        }
        let ghost before = models(values@);
        match strip_char(after, ',') {
            Some(more) => {
                let next = ws(more);
                values.push(value);
                proof {
                    if let Some((others, _)) = more_items(next@) {
                        assert(before + (seq![value@] + others) =~= before.push(value@) + others);
                    }
                }
                rest = next;
            },
            None => {
                return match strip_char(after, ']') {
                    Some(tail) => {
                        values.push(value);
                        proof {
                            assert(before + seq![value@] =~= before.push(value@));
                        }
                        Some((values, tail))
                    },
                    None => None,
                };
            },
        }
    }
}

/// Reads one field of an object and keeps its value.
fn key_value<'a>(input: &'a str) -> (read: Option<(JsonValue, &'a str)>)
    ensures
        value_agrees(read, field(input@)),
        read matches Some((_, tail)) ==> tail@.len() < input@.len(),
    decreases input@.len(), 2nat,
{
    let behind = match string(input) {
        Some((_, rest)) => ws(rest),
        None => { return None; },
    };
    match strip_char(behind, ':') {
        Some(rest) => json_value(ws(rest)),
        None => None,
    }
}

/// Reads an object: fields between braces, separated by commas.
fn object<'a>(input: &'a str) -> (read: Option<(Vec<JsonValue>, &'a str)>)
    ensures
        values_agree(read, braced(input@)),
        read matches Some((_, tail)) ==> tail@.len() < input@.len(),
    decreases input@.len(), 0nat,
{
    let first = match strip_char(input, '{') {
        Some(rest) => ws(rest),
        None => { return None; },
    };
    let mut values: Vec<JsonValue> = Vec::new();
    match strip_char(first, '}') {
        Some(tail) => {
            proof {
                assert(models(values@) =~= Seq::<Json>::empty());
            }
            return Some((values, tail));
        },
        None => {},
    }
    let mut rest = first;
    proof {
        let all = more_fields(first@);
        if let Some((found, _)) = all {
            assert(models(values@) + found =~= found);
        }
    }
    loop
        invariant
            rest@.len() < input@.len(),
            braced(input@) == list_after(models(values@), more_fields(rest@)),
        decreases rest@.len(),
    {
        let (value, behind) = match key_value(rest) {
            Some(found) => found,
            None => { return None; },
        };
        let after = ws(behind);
        proof {
            lemma_models_push(values@, value);
        }
        let ghost before = models(values@);
        match strip_char(after, ',') {
            Some(more) => {
                let next = ws(more);
                values.push(value);
                proof {
                    if let Some((others, _)) = more_fields(next@) {
                        assert(before + (seq![value@] + others) =~= before.push(value@) + others);
                    }
                }
                rest = next;
            },
            None => {
                return match strip_char(after, '}') {
                    Some(tail) => {
                        values.push(value);
                        proof {
                            assert(before + seq![value@] =~= before.push(value@));
                        }
                        Some((values, tail))
                    },
                    None => None,
                };
            },
        }
    }
}

/// Reads a JSON document: one value with whitespace around it. Returns the
/// value and the text behind it, or a syntax error where the text does not
/// start with a value.
pub fn run<'a>(input: &'a str) -> (read: Result<(JsonValue, &'a str), CompileError>)
    ensures
        match document(input@) {
            Some((json, rest)) => read matches Ok((found, tail)) && found@ == json && tail@
                == rest,
            None => read matches Err(failure) && failure@ == Failure::SyntaxError,
        },
{
    match json_value(ws(input)) {
        Some((value, rest)) => Ok((value, ws(rest))),
        None => Err(CompileError::SyntaxError),
    }
}

impl JsonValue {
    /// The boolean that this value is.
    pub fn extract_bool(&self) -> (b: bool)
        requires
            self is Boolean,
        ensures
            self@ == Json::Boolean(b),
    {
        match self {
            JsonValue::Boolean(b) => *b,
            _ => vstd::pervasive::unreached(),
        }
    }

    /// The text of the string that this value is.
    pub fn extract_str(&self) -> (s: &str)
        requires
            self is Str,
        ensures
            self@ == Json::Str(s@),
    {
        match self {
            JsonValue::Str(s) => s.as_str(),
            _ => vstd::pervasive::unreached(),
        }
    }

    /// The number that this value is.
    pub fn extract_num(&self) -> (n: i32)
        requires
            self is Num,
        ensures
            self@ == Json::Num(n),
    {
        match self {
            JsonValue::Num(n) => *n,
            _ => vstd::pervasive::unreached(),
        }
    }

    /// The items of the array that this value is.
    pub fn extract_array(&self) -> (items: &Vec<JsonValue>)
        requires
            self is Array,
        ensures
            self@ == Json::Array(models(items@)),
            *self == JsonValue::Array(*items),
    {
        match self {
            JsonValue::Array(items) => {
                proof {
                    assert(self@->Array_0 =~= models(items@));
                }
                items
            },
            _ => vstd::pervasive::unreached(),
        }
    }

    /// The values of the object that this value is, in the order of the
    /// text.
    pub fn extract_object(&self) -> (values: &Vec<JsonValue>)
        requires
            self is Object,
        ensures
            self@ == Json::Object(models(values@)),
            *self == JsonValue::Object(*values),
    {
        match self {
            JsonValue::Object(values) => {
                proof {
                    assert(self@->Object_0 =~= models(values@));
                }
                values
            },
            _ => vstd::pervasive::unreached(),
        }
    }

    /// The value at position `idx` of the object that this value is.
    pub fn extract_object_key(&self, idx: usize) -> (value: &JsonValue)
        requires
            self is Object,
            idx < self->Object_0@.len(),
        ensures
            *value == self->Object_0@[idx as int],
            value@ == self@->Object_0[idx as int],
    {
        match self {
            JsonValue::Object(values) => &values[idx],
            _ => vstd::pervasive::unreached(),
        }
    }
}

/// Copies of the values of a list, in order.
fn duplicate_values(values: &Vec<JsonValue>) -> (copies: Vec<JsonValue>)
    ensures
        models(copies@) == models(values@),
    decreases values,
{
    let mut copies: Vec<JsonValue> = Vec::new();
    let mut i: usize = 0;
    while i < values.len()
        invariant
            i <= values.len(),
            copies@.len() == i,
            forall|k: int| 0 <= k < i ==> (#[trigger] copies@[k])@ == values@[k]@,
        decreases values.len() - i,
    {
        copies.push(values[i].duplicate());
        i = i + 1;
    }
    assert(models(copies@) =~= models(values@));
    copies
}

impl JsonValue {
    /// A copy of this value.
    pub fn duplicate(&self) -> (copy: JsonValue)
        ensures
            copy@ == self@,
        decreases self,
    {
        match self {
            JsonValue::Null => JsonValue::Null,
            JsonValue::Boolean(b) => JsonValue::Boolean(*b),
            JsonValue::Str(s) => JsonValue::Str(s.clone()),
            JsonValue::Num(n) => JsonValue::Num(*n),
            JsonValue::Array(items) => {
                let copy = JsonValue::Array(duplicate_values(items));
                proof {
                    assert(copy@->Array_0 =~= models(items@));
                    assert(self@->Array_0 =~= models(items@));
                }
                copy
            },
            JsonValue::Object(values) => {
                let copy = JsonValue::Object(duplicate_values(values));
                proof {
                    assert(copy@->Object_0 =~= models(values@));
                    assert(self@->Object_0 =~= models(values@));
                }
                copy
            },
        }
    }
}

impl Clone for JsonValue {
    fn clone(&self) -> (copy: Self)
        ensures
            copy@ == self@,
    {
        self.duplicate()
    }
}

} // verus!
