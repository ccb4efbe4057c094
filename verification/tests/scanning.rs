use gramkit::convert::{convert, parse_integer};
use gramkit::pattern::{Found, Matcher};
use gramkit::scanner::{accept, Field, Scanner};
use gramkit::text::{chars_of, starts_with};
use gramkit::token::{FieldType, Token, Value};
use gramkit::{ParseError, Source};

fn source(content: &str) -> Source<'_> {
    Source { name: None, content }
}

fn field(name: &str, ty: FieldType) -> Field {
    Field { name: String::from(name), ty }
}

fn plain(kind: usize) -> Token {
    Token { kind, fields: vec![] }
}

fn number(kind: usize, value: i64) -> Token {
    Token { kind, fields: vec![Value::Integer(value)] }
}

fn word(kind: usize, value: &str) -> Token {
    Token { kind, fields: vec![Value::Text(String::from(value))] }
}

fn sample_of(r: Result<Vec<Token>, ParseError<Token>>) -> String {
    match r {
        Err(ParseError::ScanError { sample }) => sample,
        other => panic!("no scan error: {:?}", other),
    }
}

#[test]
fn literal_competition_by_growing_length() {
    // EQ = 0, EQEQ = 1, IDENT = 2
    let s = Scanner::new()
        .literal("=")
        .literal("==")
        .captured("(?<name>[a-z]+)", vec![field("name", FieldType::Text)])
        .unwrap();
    assert_eq!(s.scan(source("=x")).unwrap(), vec![plain(0), word(2, "x")]);
    // The lookahead starts at one character, so the shorter literal is met first.
    assert_eq!(s.scan(source("==")).unwrap(), vec![plain(0), plain(0)]);
}

#[test]
fn longer_literal_matches_once_lookahead_has_its_length() {
    // EQEQ = 0, LT = 1, ARROW = 2
    let s = Scanner::new().literal("==").literal("<").literal("<-");
    assert_eq!(s.scan(source("==")).unwrap(), vec![plain(0)]);
    assert_eq!(s.scan(source("<==")).unwrap(), vec![plain(1), plain(0)]);
    // "<" is met at one character, so "<-" is never reached.
    assert_eq!(sample_of(s.scan(source("<-"))), "-");
}

#[test]
fn same_length_literals_go_by_declaration_order() {
    let s = Scanner::new().literal("ab").literal("ab").literal("cd");
    assert_eq!(s.scan(source("abcd")).unwrap(), vec![plain(0), plain(2)]);
}

#[test]
fn regex_engages_only_after_literal_exhaustion() {
    // PLUS = 0, NUM = 1
    let s = Scanner::new()
        .literal("+")
        .captured("(?<value>\\d+)", vec![field("value", FieldType::Integer)])
        .unwrap();
    assert_eq!(s.scan(source("12+3")).unwrap(), vec![number(1, 12), plain(0), number(1, 3)]);
}

#[test]
fn literal_wins_over_a_regex_declared_first() {
    // WORD = 0, IF = 1
    let s = Scanner::new()
        .captured("(?<w>[a-z]+)", vec![field("w", FieldType::Text)])
        .unwrap()
        .literal("if");
    assert_eq!(s.scan(source("if")).unwrap(), vec![plain(1)]);
    assert_eq!(s.scan(source("iffy")).unwrap(), vec![plain(1), word(0, "fy")]);
    assert_eq!(s.scan(source("of")).unwrap(), vec![word(0, "of")]);
}

#[test]
fn first_declared_regex_wins() {
    let s = Scanner::new()
        .captured("(?<a>[a-z]+)", vec![field("a", FieldType::Text)])
        .unwrap()
        .captured("(?<b>[a-z0-9]+)", vec![field("b", FieldType::Text)])
        .unwrap();
    assert_eq!(s.scan(source("ab1")).unwrap(), vec![word(0, "ab"), word(1, "1")]);
}

#[test]
fn empty_source_gives_no_tokens() {
    let s = Scanner::new().literal("+");
    assert_eq!(s.scan(source("")).unwrap(), vec![]);
    assert_eq!(Scanner::new().scan(source("")).unwrap(), vec![]);
}

#[test]
fn scan_error_sample_is_the_text_examined() {
    let s = Scanner::new().literal("+").literal("<<=");
    // The lookahead grew to the longest literal's three characters.
    assert_eq!(sample_of(s.scan(source("+&abc"))), "&ab");
    // Not enough input is left to grow that far.
    assert_eq!(sample_of(s.scan(source("+&a"))), "&a");
    assert_eq!(sample_of(s.scan(source("&"))), "&");
}

#[test]
fn scan_error_sample_is_one_character_without_literals() {
    let s = Scanner::new()
        .captured("(?<value>\\d+)", vec![field("value", FieldType::Integer)])
        .unwrap();
    assert_eq!(sample_of(s.scan(source("12ab"))), "a");
    assert_eq!(sample_of(Scanner::new().scan(source("xyz"))), "x");
}

#[test]
fn regex_must_match_at_the_position() {
    // A match further on does not count.
    let s = Scanner::new()
        .captured("(?<value>\\d+)", vec![field("value", FieldType::Integer)])
        .unwrap();
    assert_eq!(sample_of(s.scan(source("a1"))), "a");
}

#[test]
fn empty_match_is_no_match() {
    let s = Scanner::new()
        .captured("(?<value>\\d*)", vec![field("value", FieldType::Text)])
        .unwrap();
    assert_eq!(s.scan(source("42")).unwrap(), vec![word(0, "42")]);
    assert_eq!(sample_of(s.scan(source("x"))), "x");
}

#[test]
fn field_that_does_not_convert_is_no_match() {
    let s = Scanner::new()
        .captured("(?<value>\\d+)", vec![field("value", FieldType::Integer)])
        .unwrap()
        .captured("(?<digits>\\d+)", vec![field("digits", FieldType::Text)])
        .unwrap();
    assert_eq!(s.scan(source("7")).unwrap(), vec![number(0, 7)]);
    assert_eq!(
        s.scan(source("99999999999999999999")).unwrap(),
        vec![word(1, "99999999999999999999")]
    );
}

#[test]
fn field_of_a_group_that_is_missing_is_no_match() {
    let s = Scanner::new()
        .captured("(?<a>x)|(?<b>y)", vec![field("a", FieldType::Text)])
        .unwrap();
    assert_eq!(s.scan(source("x")).unwrap(), vec![word(0, "x")]);
    assert_eq!(sample_of(s.scan(source("y"))), "y");
    let unknown = Scanner::new()
        .captured("x", vec![field("nope", FieldType::Text)])
        .unwrap();
    assert_eq!(sample_of(unknown.scan(source("x"))), "x");
}

#[test]
fn several_fields_come_in_declaration_order() {
    let s = Scanner::new()
        .captured(
            "(?<key>[a-z]+)=(?<value>-?\\d+)",
            vec![field("value", FieldType::Integer), field("key", FieldType::Text)],
        )
        .unwrap()
        .literal(";");
    assert_eq!(
        s.scan(source("ab=-12;")).unwrap(),
        vec![
            Token {
                kind: 0,
                fields: vec![Value::Integer(-12), Value::Text(String::from("ab"))]
            },
            plain(1)
        ]
    );
}

#[test]
fn captured_kind_without_fields() {
    let s = Scanner::new().captured("\\s+", vec![]).unwrap().literal("a");
    assert_eq!(s.scan(source("a  a")).unwrap(), vec![plain(1), plain(0), plain(1)]);
}

#[test]
fn text_beyond_ascii_counts_by_character() {
    let s = Scanner::new()
        .literal("→")
        .captured("(?<w>\\p{L}+)", vec![field("w", FieldType::Text)])
        .unwrap();
    assert_eq!(s.scan(source("é→ü")).unwrap(), vec![word(1, "é"), plain(0), word(1, "ü")]);
    assert_eq!(sample_of(s.scan(source("é€é"))), "€");
}

#[test]
fn pattern_that_does_not_compile_is_turned_down() {
    let r = Scanner::new().captured("(unclosed", vec![]);
    match r {
        Err(e) => assert!(!e.message.is_empty()),
        Ok(_) => panic!("compiled"),
    }
    assert!(Matcher::new("a+").is_ok());
    assert!(Matcher::new("a{2,1}").is_err());
}

#[test]
fn scanner_counts_its_kinds() {
    let s = Scanner::new();
    assert_eq!(s.len(), 0);
    let s = s.literal("+").literal("-");
    assert_eq!(s.len(), 2);
}

#[test]
fn placeholder_token_is_never_scanned() {
    let placeholder = Token::default();
    assert_eq!(placeholder.kind, Token::NO_KIND);
    assert!(placeholder.fields.is_empty());
    let s = Scanner::new().literal("a").literal("b");
    for t in s.scan(source("abba")).unwrap() {
        assert_ne!(t, placeholder);
        assert!(t.kind < s.len());
    }
}

#[test]
fn token_clone_is_equal() {
    let t = Token { kind: 3, fields: vec![Value::Integer(-4), Value::Text(String::from("x"))] };
    assert_eq!(t.clone(), t);
    assert_eq!(Value::Text(String::from("y")).clone(), Value::Text(String::from("y")));
}

fn found(start: usize, text: &str, groups: Vec<Option<&str>>) -> Option<Found> {
    Some(Found {
        start,
        text: String::from(text),
        groups: groups.into_iter().map(|g| g.map(String::from)).collect(),
    })
}

#[test]
fn accept_takes_a_match_at_the_start() {
    let rest = chars_of("12+3");
    let types = vec![FieldType::Integer];
    let r = accept(&rest, &types, &found(0, "12", vec![Some("12")]));
    assert_eq!(r, Some((2, vec![Value::Integer(12)])));
}

#[test]
fn accept_counts_characters_not_bytes() {
    let rest = chars_of("éé+");
    let r = accept(&rest, &vec![FieldType::Text], &found(0, "éé", vec![Some("éé")]));
    assert_eq!(r, Some((2, vec![Value::Text(String::from("éé"))])));
}

#[test]
fn accept_turns_down_what_does_not_count() {
    let rest = chars_of("a12");
    let types = vec![FieldType::Integer];
    // no match
    assert_eq!(accept(&rest, &types, &None), None);
    // a match that starts later
    assert_eq!(accept(&rest, &types, &found(1, "12", vec![Some("12")])), None);
    // an empty match
    assert_eq!(accept(&rest, &vec![], &found(0, "", vec![])), None);
    // a text that does not stand at the start
    assert_eq!(accept(&rest, &vec![], &found(0, "12", vec![])), None);
    // a text longer than what is left
    assert_eq!(accept(&rest, &vec![], &found(0, "a123", vec![])), None);
    // a group that took no part
    assert_eq!(accept(&rest, &types, &found(0, "a", vec![None])), None);
    // a field that is no integer
    assert_eq!(accept(&rest, &types, &found(0, "a", vec![Some("a")])), None);
    // fewer texts than fields
    assert_eq!(accept(&rest, &types, &found(0, "a", vec![])), None);
    // more texts than fields
    assert_eq!(accept(&rest, &vec![], &found(0, "a", vec![Some("a")])), None);
    // and one that counts
    assert_eq!(accept(&rest, &vec![], &found(0, "a", vec![])), Some((1, vec![])));
}

#[test]
fn convert_by_type() {
    assert_eq!(convert(FieldType::Integer, &Some(String::from("42"))), Some(Value::Integer(42)));
    assert_eq!(
        convert(FieldType::Text, &Some(String::from("42"))),
        Some(Value::Text(String::from("42")))
    );
    assert_eq!(convert(FieldType::Integer, &Some(String::from("4x"))), None);
    assert_eq!(convert(FieldType::Text, &None), None);
    assert_eq!(convert(FieldType::Integer, &None), None);
}

#[test]
fn starts_with_compares_from_the_start() {
    let rest = chars_of("abc");
    assert!(starts_with(&rest, &chars_of("")));
    assert!(starts_with(&rest, &chars_of("ab")));
    assert!(starts_with(&rest, &chars_of("abc")));
    assert!(!starts_with(&rest, &chars_of("abcd")));
    assert!(!starts_with(&rest, &chars_of("b")));
}

#[test]
fn chars_of_gives_the_characters() {
    assert_eq!(chars_of(""), Vec::<char>::new());
    assert_eq!(chars_of("aé→"), vec!['a', 'é', '→']);
}

fn integer(s: &str) -> Option<i64> {
    parse_integer(&chars_of(s))
}

#[test]
fn parse_integer_reads_decimal() {
    assert_eq!(integer("0"), Some(0));
    assert_eq!(integer("12"), Some(12));
    assert_eq!(integer("007"), Some(7));
    assert_eq!(integer("+5"), Some(5));
    assert_eq!(integer("-5"), Some(-5));
    assert_eq!(integer("-0"), Some(0));
}

#[test]
fn parse_integer_at_the_limits() {
    assert_eq!(integer("9223372036854775807"), Some(i64::MAX));
    assert_eq!(integer("-9223372036854775808"), Some(i64::MIN));
    assert_eq!(integer("9223372036854775808"), None);
    assert_eq!(integer("-9223372036854775809"), None);
    assert_eq!(integer("00000000000000000000000000001"), Some(1));
    assert_eq!(integer("99999999999999999999999999999999999999999999"), None);
}

#[test]
fn parse_integer_turns_down_what_is_no_integer() {
    assert_eq!(integer(""), None);
    assert_eq!(integer("-"), None);
    assert_eq!(integer("+"), None);
    assert_eq!(integer("1x"), None);
    assert_eq!(integer("x1"), None);
    assert_eq!(integer(" 1"), None);
    assert_eq!(integer("1 "), None);
    assert_eq!(integer("--1"), None);
    assert_eq!(integer("١٢"), None);
}

#[test]
fn parse_integer_agrees_with_std() {
    for s in ["0", "-1", "+17", "123456789", "", "-", "12a", "9223372036854775807", "9223372036854775808", "-9223372036854775808", "٣"] {
        assert_eq!(integer(s), s.parse::<i64>().ok(), "{:?}", s);
    }
}

#[test]
fn long_source_scans_in_one_pass() {
    let s = Scanner::new()
        .literal("+")
        .literal("é")
        .captured("(?<value>\\d+)", vec![field("value", FieldType::Integer)])
        .unwrap();
    let mut content = String::new();
    let mut expected = Vec::new();
    for i in 0..20000i64 {
        content.push_str(&i.to_string());
        expected.push(number(2, i));
        content.push(if i % 2 == 0 { '+' } else { 'é' });
        expected.push(plain((i % 2) as usize));
    }
    assert_eq!(s.scan(source(&content)).unwrap(), expected);
}
