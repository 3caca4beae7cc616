use kaldav::dsl::{expand, parse, tokenize, ErrorKind, Field, TokenKind, Value};
use kaldav::interpret::build;

#[test]
fn dsl_matches_manual_chain() {
    let expanded = expand("CompFilter::new(\"VEVENT\")").unwrap();
    assert_eq!(expanded, "{ use kaldav::filter::*; use kaldav::time::*; Filter::new().append(CompFilter::new(\"VEVENT\")) }");
    let manual = kaldav::Filter::new().append(kaldav::CompFilter::new("VEVENT"));
    assert_eq!(manual.to_xml(), "<c:filter><c:comp-filter name=\"VEVENT\" /></c:filter>");
}

#[test]
fn dsl_nesting_renders_nested_components() {
    let expanded = expand("CompFilter::new(\"VCALENDAR\") { CompFilter::new(\"VEVENT\") {} }").unwrap();
    assert_eq!(
        expanded,
        "{ use kaldav::filter::*; use kaldav::time::*; Filter::new().append(CompFilter::new(\"VCALENDAR\").append(CompFilter::new(\"VEVENT\"))) }"
    );
    let built = kaldav::Filter::new()
        .append(kaldav::CompFilter::new("VCALENDAR").append(kaldav::CompFilter::new("VEVENT")));
    assert_eq!(
        built.to_xml(),
        "<c:filter><c:comp-filter name=\"VCALENDAR\"><c:comp-filter name=\"VEVENT\" /></c:comp-filter></c:filter>"
    );
}

#[test]
fn tokens_of_a_short_entry() {
    let toks = tokenize("a: b::c(1, \"x\") { }").unwrap();
    let kinds: Vec<TokenKind> = toks.iter().map(|t| t.kind).collect();
    let texts: Vec<&str> = toks.iter().map(|t| t.text.as_str()).collect();
    assert_eq!(texts, vec!["a", ":", "b", "::", "c", "(", "1", ",", "\"x\"", ")", "{", "}"]);
    assert_eq!(
        kinds,
        vec![
            TokenKind::Ident,
            TokenKind::Punct,
            TokenKind::Ident,
            TokenKind::Punct,
            TokenKind::Ident,
            TokenKind::Open,
            TokenKind::Literal,
            TokenKind::Punct,
            TokenKind::Literal,
            TokenKind::Close,
            TokenKind::Open,
            TokenKind::Close,
        ]
    );
    let starts: Vec<usize> = toks.iter().map(|t| t.start).collect();
    assert_eq!(starts, vec![0, 1, 3, 4, 6, 7, 8, 9, 11, 14, 16, 18]);
    let words = tokenize("true false truex 12ab").unwrap();
    let kinds: Vec<TokenKind> = words.iter().map(|t| t.kind).collect();
    assert_eq!(
        kinds,
        vec![TokenKind::Literal, TokenKind::Literal, TokenKind::Ident, TokenKind::Literal]
    );
}

#[test]
fn parse_steps_of_nested_entry() {
    let toks = tokenize("CompFilter::new(\"V\") { is_not_defined: true, }").unwrap();
    let steps = parse(&toks).unwrap();
    assert_eq!(steps.len(), 2);
    assert_eq!(steps[0].field, Field::Append);
    assert_eq!(steps[0].value, Value::Call(0, 3, 5));
    assert_eq!(steps[1].field, Field::Named(7));
    assert_eq!(steps[1].value, Value::Lit(9));
}

#[test]
fn value_forms_expand() {
    assert_eq!(
        expand("mode: Mode::Strict").unwrap(),
        "{ use kaldav::filter::*; use kaldav::time::*; Filter::new().mode(Mode::Strict) }"
    );
    assert_eq!(expand("depth: 3").unwrap(), "{ use kaldav::filter::*; use kaldav::time::*; Filter::new().depth(3) }");
    assert_eq!(
        expand("range: TimeRange { start: None, end: None }").unwrap(),
        "{ use kaldav::filter::*; use kaldav::time::*; Filter::new().range(TimeRange { start:None,end:None }) }"
    );
    assert_eq!(
        expand("x: f(a b)").unwrap(),
        "{ use kaldav::filter::*; use kaldav::time::*; Filter::new().x(f(a b)) }"
    );
}

#[test]
fn lexer_errors() {
    let e = expand("CompFilter::new(\"VEVENT\") \u{e9}").unwrap_err();
    assert_eq!(e.kind, ErrorKind::InvalidCharacter);
    assert_eq!(e.pos, 26);
    let e = expand("CompFilter::new(\"VEVENT)").unwrap_err();
    assert_eq!(e.kind, ErrorKind::InvalidString);
    assert_eq!(e.pos, 16);
    let e = tokenize("a: \"b\\n\"").unwrap_err();
    assert_eq!(e.kind, ErrorKind::InvalidString);
    assert_eq!(e.pos, 3);
}

#[test]
fn parser_errors() {
    let e = expand("").unwrap_err();
    assert_eq!(e.kind, ErrorKind::ExpectedIdent);
    assert_eq!(e.pos, 0);
    let e = expand("\"x\": 1").unwrap_err();
    assert_eq!(e.kind, ErrorKind::ExpectedIdent);
    assert_eq!(e.pos, 0);
    let e = expand("name value").unwrap_err();
    assert_eq!(e.kind, ErrorKind::ExpectedColon);
    assert_eq!(e.pos, 5);
    let e = expand("name: ,").unwrap_err();
    assert_eq!(e.kind, ErrorKind::ExpectedValue);
    assert_eq!(e.pos, 6);
    let e = expand("CompFilter::new(\"x\"").unwrap_err();
    assert_eq!(e.kind, ErrorKind::UnclosedDelimiter);
    assert_eq!(e.pos, 15);
    let e = expand("CompFilter::new(\"x\"] )").unwrap_err();
    assert_eq!(e.kind, ErrorKind::UnclosedDelimiter);
    let e = expand("CompFilter::new(\"x\") extra").unwrap_err();
    assert_eq!(e.kind, ErrorKind::UnexpectedToken);
    assert_eq!(e.pos, 21);
    let e = expand("CompFilter::new(\"a\") { CompFilter::new(\"b\"), CompFilter::new(\"c\") }")
        .unwrap_err();
    assert_eq!(e.kind, ErrorKind::UnexpectedToken);
    assert_eq!(e.pos, 45);
}

#[test]
fn build_renders_like_manual_chain() {
    let built = build("CompFilter::new(\"VEVENT\")").unwrap();
    let manual = kaldav::Filter::new().append(kaldav::CompFilter::new("VEVENT"));
    assert_eq!(built.to_xml(), manual.to_xml());
    assert_eq!(built.to_xml(), "<c:filter><c:comp-filter name=\"VEVENT\" /></c:filter>");
}

#[test]
fn build_nested_components() {
    let built = build("CompFilter::new(\"VCALENDAR\") { CompFilter::new(\"VEVENT\") {} }").unwrap();
    assert_eq!(
        built.to_xml(),
        "<c:filter><c:comp-filter name=\"VCALENDAR\"><c:comp-filter name=\"VEVENT\" /></c:comp-filter></c:filter>"
    );
}

#[test]
fn build_param_and_text_match_setters() {
    let built = build(
        "CompFilter::new(\"VEVENT\") { prop_filter: PropFilter::new(\"ATTENDEE\") { ParamFilter::new(\"PARTSTAT\") { TextMatch::new(\"ACCEPTED\") { negate_condition: true } } } }",
    )
    .unwrap();
    assert_eq!(
        built.to_xml(),
        "<c:filter><c:comp-filter name=\"VEVENT\"><c:prop-filter name=\"ATTENDEE\"><c:param-filter name=\"PARTSTAT\"><c:text-match negate-condition=\"yes\"><![CDATA[ACCEPTED]]></c:text-match></c:param-filter></c:prop-filter></c:comp-filter></c:filter>"
    );
    let built = build(
        "CompFilter::new(\"VEVENT\") { prop_filter: PropFilter::new(\"URL\") { text_match: TextMatch::new(\"x\") { collation: \"i;octet\" } } }",
    )
    .unwrap();
    assert_eq!(
        built.to_xml(),
        "<c:filter><c:comp-filter name=\"VEVENT\"><c:prop-filter name=\"URL\"><c:text-match collation=\"i;octet\"><![CDATA[x]]></c:text-match></c:prop-filter></c:comp-filter></c:filter>"
    );
    let built = build("CompFilter::new(\"VTODO\") { is_not_defined: true }").unwrap();
    assert_eq!(
        built.to_xml(),
        "<c:filter><c:comp-filter name=\"VTODO\"><c:is-not-defined /></c:comp-filter></c:filter>"
    );
}

#[test]
fn build_unsupported() {
    let e = build("PropFilter::new(\"X\")").unwrap_err();
    assert_eq!(e.kind, ErrorKind::Unsupported);
    let e = build("CompFilter::new(\"A\") { text: \"x\" }").unwrap_err();
    assert_eq!(e.kind, ErrorKind::Unsupported);
    assert_eq!(e.pos, 0);
    let e = build("filter: CompFilter::new(\"A\")").unwrap_err();
    assert_eq!(e.kind, ErrorKind::Unsupported);
    let e = build("CompFilter::new(\"A\") { prop_filter: CompFilter::new(\"B\") }").unwrap_err();
    assert_eq!(e.kind, ErrorKind::Unsupported);
    let e = build("CompFilter::new(\"A\") { is_not_defined: \"yes\" }").unwrap_err();
    assert_eq!(e.kind, ErrorKind::Unsupported);
    let e = build("CompFilter::new(\"A\" {").unwrap_err();
    assert_eq!(e.kind, ErrorKind::UnclosedDelimiter);
}

#[test]
fn punctuation_tokens_stay_apart() {
    assert_eq!(
        expand("x: f(a & &b)").unwrap(),
        "{ use kaldav::filter::*; use kaldav::time::*; Filter::new().x(f(a& &b)) }"
    );
    assert_eq!(
        expand("x: f(a: :b, c::d)").unwrap(),
        "{ use kaldav::filter::*; use kaldav::time::*; Filter::new().x(f(a: :b,c::d)) }"
    );
}

#[test]
fn build_time_ranges() {
    let built = build(
        "CompFilter::new(\"VCALENDAR\") { CompFilter::new(\"VEVENT\") { time_range: TimeRange { start: UtcDateTime::new(2006, 1, 4, 0, 0, 0), end: None, } } }",
    )
    .unwrap();
    assert_eq!(
        built.to_xml(),
        "<c:filter><c:comp-filter name=\"VCALENDAR\"><c:comp-filter name=\"VEVENT\"><c:time-range start=\"20060104T000000Z\" end=\"+infinity\" /></c:comp-filter></c:comp-filter></c:filter>"
    );
    let built = build(
        "CompFilter::new(\"VEVENT\") { prop_filter: PropFilter::new(\"DTSTART\") { time_range: TimeRange { start: None, end: UtcDateTime::new(2024, 2, 29, 23, 59, 59) } } }",
    )
    .unwrap();
    assert_eq!(
        built.to_xml(),
        "<c:filter><c:comp-filter name=\"VEVENT\"><c:prop-filter name=\"DTSTART\"><c:time-range start=\"-infinity\" end=\"20240229T235959Z\" /></c:prop-filter></c:comp-filter></c:filter>"
    );
    let built = build("CompFilter::new(\"VEVENT\") { time_range: TimeRange::default() }").unwrap();
    assert_eq!(
        built.to_xml(),
        "<c:filter><c:comp-filter name=\"VEVENT\"><c:time-range start=\"-infinity\" end=\"+infinity\" /></c:comp-filter></c:filter>"
    );
    let built = build(
        "CompFilter::new(\"VEVENT\") { time_range: TimeRange { start: UtcDateTime::new(2023, 2, 29, 0, 0, 0), end: None } }",
    )
    .unwrap();
    assert_eq!(
        built.to_xml(),
        "<c:filter><c:comp-filter name=\"VEVENT\"><c:time-range start=\"-infinity\" end=\"+infinity\" /></c:comp-filter></c:filter>"
    );
    let e = build("CompFilter::new(\"VEVENT\") { time_range: TimeRange { end: None, start: None } }")
        .unwrap_err();
    assert_eq!(e.kind, ErrorKind::Unsupported);
}
