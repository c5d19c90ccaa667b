use crisp::parser::{parse_group, ErrorKind, Failure, ParseError, Span};

fn skip(s: Span) -> Span {
    let trimmed = s.fragment.trim_start();
    let skipped = s.fragment.chars().count() - trimmed.chars().count();
    Span { offset: s.offset + skipped, fragment: trimmed }
}

fn digit(s: Span) -> Result<(Span, u32), Failure> {
    let s = skip(s);
    match s.fragment.chars().next().and_then(|c| c.to_digit(10)) {
        Some(d) => Ok((Span { offset: s.offset + 1, fragment: &s.fragment[1..] }, d)),
        None => Err(Failure::Error(ParseError { input: s, code: ErrorKind::Tag })),
    }
}

fn start(text: &str) -> Span {
    Span { offset: 0, fragment: text }
}

#[test]
fn parses_a_group() {
    let (rest, g) = parse_group("(", ")", skip, digit, start(" (1 2 3) tail")).ok().unwrap();
    assert_eq!(g.values, vec![1, 2, 3]);
    assert_eq!(g.open.offset, 1);
    assert_eq!(g.open.fragment, "(");
    assert_eq!(g.close.offset, 7);
    assert_eq!(g.close.fragment, ")");
    assert_eq!(rest.offset, 8);
    assert_eq!(rest.fragment, " tail");
}

#[test]
fn parses_an_empty_group() {
    let (rest, g) = parse_group("[", "]", skip, digit, start("[ ]")).ok().unwrap();
    assert!(g.values.is_empty());
    assert_eq!(rest.fragment, "");
}

#[test]
fn missing_open_is_a_tag_error() {
    match parse_group("(", ")", skip, digit, start("  x")) {
        Err(Failure::Error(e)) => {
            assert_eq!(e.code, ErrorKind::Tag);
            assert_eq!(e.input.offset, 2);
        }
        _ => panic!("expected an error"),
    }
}

#[test]
fn bad_item_fails_the_group() {
    match parse_group("(", ")", skip, digit, start("(1 x)")) {
        Err(Failure::Error(e)) => assert_eq!(e.input.fragment, "x)"),
        _ => panic!("expected an error"),
    }
}

#[test]
fn item_that_consumes_nothing_fails() {
    fn nothing(s: Span) -> Result<(Span, u32), Failure> {
        Ok((s, 0))
    }
    match parse_group("(", ")", skip, nothing, start("(1)")) {
        Err(Failure::Error(e)) => assert_eq!(e.code, ErrorKind::ManyTill),
        _ => panic!("expected an error"),
    }
}

#[test]
fn fatal_failure_is_passed_on() {
    fn fatal(s: Span) -> Result<(Span, u32), Failure> {
        Err(Failure::Failure(ParseError { input: s, code: ErrorKind::Tag }))
    }
    assert!(matches!(parse_group("(", ")", skip, fatal, start("(1)")), Err(Failure::Failure(_))));
}
