use gramkit::choice::Either;
use gramkit::grammar::{NoToken, Parse, ParseMeta, TokenStream};
use gramkit::record::parse_record;
use gramkit::scanner::{Field, Scanner};
use gramkit::sequence::parse_pair;
use gramkit::token::{FieldType, Token, Value};
use gramkit::{ParseError, Source};

type Parsed<T> = Result<ParseMeta<T>, ParseError<Token>>;

const NUM: usize = 0;
const PLUS: usize = 1;
const STAR: usize = 2;
const COMMA: usize = 3;

fn scanner() -> Scanner {
    Scanner::new()
        .captured(
            "(?<value>\\d+)",
            vec![Field { name: String::from("value"), ty: FieldType::Integer }],
        )
        .unwrap()
        .literal("+")
        .literal("*")
        .literal(",")
}

fn scan(content: &str) -> Vec<Token> {
    scanner().scan(Source { name: Some("test"), content }).unwrap()
}

fn of_kind(kind: usize, t: Token) -> Option<Token> {
    if t.kind == kind {
        Some(t)
    } else {
        None
    }
}

#[derive(Debug, PartialEq)]
struct Num(i64);

impl Parse<Token> for Num {
    fn try_parse(stream: &mut TokenStream<Token>) -> Parsed<Self> {
        parse_record(stream, |t: Token| match of_kind(NUM, t)?.fields.pop()? {
            Value::Integer(i) => Some(Num(i)),
            Value::Text(_) => None,
        })
    }
}

#[derive(Debug, PartialEq)]
struct Plus;

impl Parse<Token> for Plus {
    fn try_parse(stream: &mut TokenStream<Token>) -> Parsed<Self> {
        parse_record(stream, |t: Token| of_kind(PLUS, t).map(|_| Plus))
    }
}

#[derive(Debug, PartialEq)]
struct Star;

impl Parse<Token> for Star {
    fn try_parse(stream: &mut TokenStream<Token>) -> Parsed<Self> {
        parse_record(stream, |t: Token| of_kind(STAR, t).map(|_| Star))
    }
}

#[derive(Debug, PartialEq)]
struct Comma;

impl Parse<Token> for Comma {
    fn try_parse(stream: &mut TokenStream<Token>) -> Parsed<Self> {
        parse_record(stream, |t: Token| of_kind(COMMA, t).map(|_| Comma))
    }
}

#[derive(Debug, PartialEq)]
enum Op {
    Plus,
    Star,
}

#[derive(Debug, PartialEq)]
struct Expr {
    left: i64,
    op: Op,
    right: i64,
}

impl Parse<Token> for Expr {
    fn try_parse(stream: &mut TokenStream<Token>) -> Parsed<Self> {
        parse_record(stream, |(left, op, right): (Num, Either<Plus, Star>, Num)| {
            let op = match op {
                Either::Left(Plus) => Op::Plus,
                Either::Right(Star) => Op::Star,
            };
            Some(Expr { left: left.0, op, right: right.0 })
        })
    }
}

#[derive(Debug, PartialEq)]
struct List {
    head: i64,
    tail: Option<Box<List>>,
}

impl Parse<Token> for List {
    fn try_parse(stream: &mut TokenStream<Token>) -> Parsed<Self> {
        parse_record(stream, |(head, tail): (Num, Either<(Comma, Box<List>), NoToken>)| {
            let tail = match tail {
                Either::Left((Comma, rest)) => Some(rest),
                Either::Right(NoToken) => None,
            };
            Some(List { head: head.0, tail })
        })
    }
}

fn list(items: &[i64]) -> Option<Box<List>> {
    match items {
        [] => None,
        [head, rest @ ..] => Some(Box::new(List { head: *head, tail: list(rest) })),
    }
}

#[test]
fn token_rule_reads_one_token_of_any_kind() {
    let tokens = scan("7+");
    let mut stream = TokenStream::new(&tokens);
    let first = stream.try_parse::<Token>().unwrap();
    assert_eq!((first.start, first.end), (0, 1));
    assert_eq!(first.value, Token { kind: NUM, fields: vec![Value::Integer(7)] });
    assert_eq!(stream.current, 1);
    let second = stream.try_parse::<Token>().unwrap();
    assert_eq!((second.start, second.end, second.value.kind), (1, 2, PLUS));
    assert!(matches!(stream.try_parse::<Token>(), Err(ParseError::Eof)));
    assert_eq!(stream.current, 2);
}

#[test]
fn end_to_end_expression() {
    let tokens = scan("3+4");
    let mut stream = TokenStream::new(&tokens);
    let expr = stream.try_parse::<Expr>().unwrap();
    assert_eq!(expr.value, Expr { left: 3, op: Op::Plus, right: 4 });
    assert_eq!((expr.start, expr.end), (0, 3));
    assert_eq!(stream.current, 3);

    let tokens = scan("12*5");
    let expr = TokenStream::new(&tokens).try_parse::<Expr>().unwrap();
    assert_eq!(expr.value, Expr { left: 12, op: Op::Star, right: 5 });
}

#[test]
fn end_to_end_scan_error_comes_before_the_parser() {
    let r = scanner().scan(Source { name: None, content: "3&4" });
    match r {
        Err(ParseError::ScanError { sample }) => assert_eq!(sample, "&"),
        other => panic!("no scan error: {:?}", other),
    }
}

#[test]
fn recursive_list_of_three() {
    let tokens = scan("1,2,3");
    let mut stream = TokenStream::new(&tokens);
    let parsed = stream.try_parse::<List>().unwrap();
    assert_eq!((parsed.start, parsed.end), (0, 5));
    assert_eq!(Some(Box::new(parsed.value)), list(&[1, 2, 3]));
    assert_eq!(stream.current, 5);
}

#[test]
fn recursive_list_base_case() {
    let tokens = scan("1");
    let parsed = TokenStream::new(&tokens).try_parse::<List>().unwrap();
    assert_eq!((parsed.start, parsed.end), (0, 1));
    assert_eq!(parsed.value, List { head: 1, tail: None });
}

#[test]
fn recursive_list_of_depth_in_the_tens() {
    let items: Vec<i64> = (1..=60).collect();
    let content: Vec<String> = items.iter().map(|i| i.to_string()).collect();
    let tokens = scan(&content.join(","));
    let parsed = TokenStream::new(&tokens).try_parse::<List>().unwrap();
    assert_eq!((parsed.start, parsed.end), (0, 119));
    assert_eq!(Some(Box::new(parsed.value)), list(&items));
}

#[test]
fn list_stops_before_a_trailing_comma() {
    let tokens = scan("1,2,");
    let mut stream = TokenStream::new(&tokens);
    let parsed = stream.try_parse::<List>().unwrap();
    assert_eq!((parsed.start, parsed.end), (0, 3));
    assert_eq!(Some(Box::new(parsed.value)), list(&[1, 2]));
    assert_eq!(stream.current, 3);
}

#[test]
fn span_contiguity_of_a_pair() {
    let tokens = scan("1,2+3");
    let mut stream = TokenStream::new(&tokens);
    stream.advance_by(2);
    let (a, b) = parse_pair::<Token, Expr, NoToken>(&mut stream).unwrap();
    assert_eq!((a.start, a.end), (2, 5));
    assert_eq!((b.start, b.end), (5, 5));
    assert_eq!(a.end, b.start);
    assert_eq!(stream.current, 5);

    let mut stream = TokenStream::new(&tokens);
    let (a, b) = parse_pair::<Token, (Num, Comma), Num>(&mut stream).unwrap();
    assert_eq!((a.start, a.end, b.start, b.end), (0, 2, 2, 3));
}

#[test]
fn sequence_spans_from_first_start_to_last_end() {
    let tokens = scan("1,2+3");
    let mut stream = TokenStream::new(&tokens);
    let m = stream.try_parse::<(Num, Comma, Num, Plus, Num)>().unwrap();
    assert_eq!((m.start, m.end), (0, 5));
    assert_eq!(m.value, (Num(1), Comma, Num(2), Plus, Num(3)));
    assert_eq!(stream.current, 5);
}

#[test]
fn sequences_of_every_length() {
    let tokens = scan("1+2+3+4+5+6+");
    let one = TokenStream::new(&tokens).try_parse::<(Num,)>().unwrap();
    assert_eq!((one.start, one.end, one.value), (0, 1, (Num(1),)));
    let two = TokenStream::new(&tokens).try_parse::<(Num, Plus)>().unwrap();
    assert_eq!((two.start, two.end, two.value), (0, 2, (Num(1), Plus)));
    let three = TokenStream::new(&tokens).try_parse::<(Num, Plus, Num)>().unwrap();
    assert_eq!((three.start, three.end, three.value), (0, 3, (Num(1), Plus, Num(2))));
    let four = TokenStream::new(&tokens).try_parse::<(Num, Plus, Num, Plus)>().unwrap();
    assert_eq!((four.start, four.end), (0, 4));
    let six = TokenStream::new(&tokens).try_parse::<(Num, Plus, Num, Plus, Num, Plus)>().unwrap();
    assert_eq!((six.start, six.end), (0, 6));
    assert_eq!(six.value, (Num(1), Plus, Num(2), Plus, Num(3), Plus));
    let twelve = TokenStream::new(&tokens)
        .try_parse::<(Num, Plus, Num, Plus, Num, Plus, Num, Plus, Num, Plus, Num, Plus)>()
        .unwrap();
    assert_eq!((twelve.start, twelve.end), (0, 12));
    assert_eq!(
        twelve.value,
        (Num(1), Plus, Num(2), Plus, Num(3), Plus, Num(4), Plus, Num(5), Plus, Num(6), Plus)
    );
    let eleven = TokenStream::new(&tokens)
        .try_parse::<(Num, Plus, Num, Plus, Num, Plus, Num, Plus, Num, Plus, Num)>()
        .unwrap();
    assert_eq!((eleven.start, eleven.end), (0, 11));
}

#[test]
fn sequence_fails_with_the_failing_members_error() {
    let tokens = scan("1+");
    let mut stream = TokenStream::new(&tokens);
    // The third member is a plain token: it fails with its own error, Eof.
    let r = stream.try_parse::<(Num, Plus, Token)>();
    assert!(matches!(r, Err(ParseError::Eof)));
    assert_eq!(stream.current, 0);
    // A record member reports the token it met.
    let r = stream.try_parse::<(Num, Num)>();
    match r {
        Err(ParseError::UnexpectedToken { token }) => assert_eq!(token.kind, PLUS),
        other => panic!("{:?}", other),
    }
    assert_eq!(stream.current, 0);
    let r = parse_pair::<Token, Plus, Num>(&mut stream);
    match r {
        Err(ParseError::UnexpectedToken { token }) => assert_eq!(token.kind, NUM),
        other => panic!("{:?}", other.map(|_| ())),
    }
    assert_eq!(stream.current, 0);
}

#[test]
fn failure_leaves_the_cursor_where_it_was() {
    let tokens = scan("1+2,");
    let mut stream = TokenStream::new(&tokens);
    stream.advance_by(1);
    assert!(stream.try_parse::<Expr>().is_err());
    assert_eq!(stream.current, 1);
    assert!(stream.try_parse::<(Plus, Num, Plus)>().is_err());
    assert_eq!(stream.current, 1);
    assert!(stream.try_parse::<Either<Num, Star>>().is_err());
    assert_eq!(stream.current, 1);
    assert!(stream.try_parse::<Box<Num>>().is_err());
    assert_eq!(stream.current, 1);
    let mut trial = stream.duplicate();
    assert!(trial.try_parse::<List>().is_err());
    assert_eq!(stream.current, 1);
    assert_eq!(stream.peek().map(|t| t.kind), Some(PLUS));
}

#[derive(Debug, PartialEq)]
struct OneNum(i64);

impl Parse<Token> for OneNum {
    fn try_parse(stream: &mut TokenStream<Token>) -> Parsed<Self> {
        parse_record(stream, |n: Num| Some(OneNum(n.0)))
    }
}

#[derive(Debug, PartialEq)]
struct Sum(i64);

impl Parse<Token> for Sum {
    fn try_parse(stream: &mut TokenStream<Token>) -> Parsed<Self> {
        parse_record(stream, |(a, _, b): (Num, Plus, Num)| Some(Sum(a.0 + b.0)))
    }
}

#[test]
fn ordered_choice_takes_the_first_that_matches() {
    let tokens = scan("1+2");
    // Both alternatives match here; the longer one is declared second and loses.
    let mut stream = TokenStream::new(&tokens);
    let m = stream.try_parse::<Either<OneNum, Sum>>().unwrap();
    assert_eq!(m.value, Either::Left(OneNum(1)));
    assert_eq!((m.start, m.end), (0, 1));
    assert_eq!(stream.current, 1);
    // Declared the other way round, the other one wins.
    let mut stream = TokenStream::new(&tokens);
    let m = stream.try_parse::<Either<Sum, OneNum>>().unwrap();
    assert_eq!(m.value, Either::Left(Sum(3)));
    assert_eq!((m.start, m.end), (0, 3));
    assert_eq!(stream.current, 3);
}

#[test]
fn choice_falls_through_to_later_alternatives() {
    let tokens = scan("*");
    let mut stream = TokenStream::new(&tokens);
    let m = stream.try_parse::<Either<Num, Either<Plus, Star>>>().unwrap();
    assert_eq!(m.value, Either::Right(Either::Right(Star)));
    assert_eq!((m.start, m.end), (0, 1));
    assert_eq!(stream.current, 1);
}

#[test]
fn choice_that_matches_nothing_names_the_token() {
    let tokens = scan(",");
    let mut stream = TokenStream::new(&tokens);
    match stream.try_parse::<Either<Num, Either<Plus, Star>>>() {
        Err(ParseError::UnexpectedToken { token }) => assert_eq!(token.kind, COMMA),
        other => panic!("{:?}", other),
    }
    stream.advance_by(1);
    assert!(matches!(stream.try_parse::<Either<Num, Plus>>(), Err(ParseError::Eof)));
    assert_eq!(stream.current, 1);
}

#[test]
fn record_commits_on_success() {
    let tokens = scan("5,");
    let mut stream = TokenStream::new(&tokens);
    let m = stream.try_parse::<Num>().unwrap();
    assert_eq!((m.start, m.end, m.value), (0, 1, Num(5)));
    assert_eq!(stream.current, 1);
}

#[test]
fn record_drops_the_patterns_error() {
    // The pattern, a plain token, fails with Eof on an empty input, and so does the record.
    let tokens = scan("");
    let mut stream = TokenStream::new(&tokens);
    assert!(matches!(stream.try_parse::<Num>(), Err(ParseError::Eof)));
    // The pattern of Sum fails inside, at the second token; the record names the first.
    let tokens = scan("1,2");
    let mut stream = TokenStream::new(&tokens);
    match stream.try_parse::<Sum>() {
        Err(ParseError::UnexpectedToken { token }) => assert_eq!(token.kind, NUM),
        other => panic!("{:?}", other),
    }
    assert_eq!(stream.current, 0);
}

#[test]
fn record_fails_where_the_binding_turns_the_value_down() {
    let tokens = scan("+");
    let mut stream = TokenStream::new(&tokens);
    let r: Parsed<u8> = parse_record(&mut stream, |_: Token| None);
    match r {
        Err(ParseError::UnexpectedToken { token }) => assert_eq!(token.kind, PLUS),
        other => panic!("{:?}", other),
    }
    assert_eq!(stream.current, 0);
}

#[test]
fn boxed_rule_reads_what_the_rule_reads() {
    let tokens = scan("8");
    let mut stream = TokenStream::new(&tokens);
    let m = stream.try_parse::<Box<Num>>().unwrap();
    assert_eq!((m.start, m.end, *m.value), (0, 1, Num(8)));
    assert_eq!(stream.current, 1);
}
