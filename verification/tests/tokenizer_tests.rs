use odt_to_md::errors::OdtError;
use odt_to_md::events::{RawEvent, XmlAttr};
use odt_to_md::render::convert;
use odt_to_md::text::{parse_usize_chars, str_contains};
use odt_to_md::tokenize::handle_xml;

fn attr(name: &str, value: &str) -> XmlAttr {
    XmlAttr { name: name.to_string(), value: value.to_string() }
}

fn open(name: &str, attrs: Vec<XmlAttr>) -> RawEvent {
    RawEvent::Open { name: name.to_string(), attrs }
}

fn close(name: &str) -> RawEvent {
    RawEvent::Close { name: name.to_string() }
}

fn text(data: &str) -> RawEvent {
    RawEvent::Text { data: data.to_string() }
}

#[test]
fn plain_paragraph_tokenizes() {
    let events = vec![
        RawEvent::Other,
        open("text:p", vec![]),
        text("hi"),
        close("text:p"),
    ];
    let tokens = handle_xml(&events).unwrap();
    assert_eq!(convert(&tokens).unwrap(), "hi\n\n");
}

#[test]
fn style_definition_resolves_paragraph_attribute() {
    let events = vec![
        open("style:style", vec![attr("name", "Strong")]),
        close("style:style"),
        open("style:text-properties", vec![attr("font-weight", "bold")]),
        close("style:text-properties"),
        open("text:p", vec![attr("style-name", "Strong")]),
        text("loud"),
        close("text:p"),
    ];
    let tokens = handle_xml(&events).unwrap();
    assert_eq!(convert(&tokens).unwrap(), "**loud**\n\n");
}

#[test]
fn italic_checked_before_bold_on_one_attribute_each() {
    let events = vec![
        open("style:style", vec![attr("name", "Em")]),
        close("style:style"),
        open(
            "style:text-properties",
            vec![attr("font-style", "italic"), attr("font-weight", "bold")],
        ),
        close("style:text-properties"),
        open("text:p", vec![attr("style-name", "Em")]),
        text("x"),
        close("text:p"),
    ];
    let tokens = handle_xml(&events).unwrap();
    assert_eq!(convert(&tokens).unwrap(), "*x*\n\n");
}

#[test]
fn duplicate_name_attribute_is_violation() {
    let events = vec![open(
        "style:style",
        vec![attr("name", "A"), attr("name", "B")],
    )];
    let r = handle_xml(&events);
    assert!(matches!(r, Err(OdtError::StyleBuilderViolation)));
}

#[test]
fn heading_level_parses_with_plus_sign() {
    let events = vec![
        open("text:h", vec![attr("outline-level", "+3")]),
        text("T"),
        close("text:h"),
    ];
    let tokens = handle_xml(&events).unwrap();
    assert_eq!(convert(&tokens).unwrap(), "### T\n\n");
}

#[test]
fn unrelated_elements_emit_nothing() {
    let events = vec![
        open("office:body", vec![attr("irrelevant", "Quotations")]),
        close("office:body"),
    ];
    let tokens = handle_xml(&events).unwrap();
    assert_eq!(convert(&tokens).unwrap(), "");
}

#[test]
fn substring_matching_is_tolerant_of_prefixes() {
    let events = vec![
        open("{urn:t}text:p", vec![]),
        text("n"),
        close("{urn:t}text:p"),
    ];
    let tokens = handle_xml(&events).unwrap();
    assert_eq!(convert(&tokens).unwrap(), "n\n\n");
}

#[test]
fn contains_finds_inner_fragments() {
    assert!(str_contains("{urn:t}text:span", "text:span"));
    assert!(str_contains("abc", ""));
    assert!(!str_contains("text:pan", "text:span"));
    assert!(!str_contains("p", "text:p"));
}

#[test]
fn numeral_parsing_matches_machine_bounds() {
    assert_eq!(parse_usize_chars(&"42".chars().collect()), Some(42));
    assert_eq!(parse_usize_chars(&"+7".chars().collect()), Some(7));
    assert_eq!(parse_usize_chars(&"".chars().collect()), None);
    assert_eq!(parse_usize_chars(&"+".chars().collect()), None);
    assert_eq!(parse_usize_chars(&"4a".chars().collect()), None);
    assert_eq!(parse_usize_chars(&"-3".chars().collect()), None);
    assert_eq!(
        parse_usize_chars(&"99999999999999999999999999".chars().collect()),
        None
    );
}
