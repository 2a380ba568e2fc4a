use odt_to_md::errors::OdtError;
use odt_to_md::render::convert;
use odt_to_md::styles::Style;
use odt_to_md::tokens::Tokens;

#[test]
fn heading_paragraph_renders() {
    let tokens = vec![
        Tokens::Heading(2),
        Tokens::Text("Title".to_string()),
        Tokens::NewLine,
    ];
    assert_eq!(convert(&tokens).unwrap(), "## Title\n\n");
}

#[test]
fn bold_span_renders() {
    let tokens = vec![
        Tokens::StartStyle(Style::Bold),
        Tokens::Text("hi".to_string()),
        Tokens::EndStyle,
        Tokens::NewLine,
    ];
    assert_eq!(convert(&tokens).unwrap(), "**hi**\n\n");
}

#[test]
fn second_start_style_closes_first() {
    let tokens = vec![
        Tokens::StartStyle(Style::Italics),
        Tokens::Text("a".to_string()),
        Tokens::StartStyle(Style::Bold),
        Tokens::Text("b".to_string()),
        Tokens::NewLine,
    ];
    // The italic close marker and the bold open marker are both emitted:
    // `*` ending `a`'s span, then `**` opening `b`'s.
    assert_eq!(convert(&tokens).unwrap(), "*a***b**\n\n");
}

#[test]
fn lone_end_style_is_unmatched() {
    let tokens = vec![Tokens::EndStyle];
    let r = convert(&tokens);
    assert!(matches!(r, Err(OdtError::UnmatchedCloseError)));
}

#[test]
fn quotation_renders() {
    let tokens = vec![
        Tokens::Quotation,
        Tokens::Text("quoted".to_string()),
        Tokens::NewLine,
    ];
    assert_eq!(convert(&tokens).unwrap(), ">quoted\n\n");
}

#[test]
fn empty_sequence_renders_empty() {
    let tokens: Vec<Tokens> = vec![];
    assert_eq!(convert(&tokens).unwrap(), "");
}

#[test]
fn normal_style_emits_no_marker() {
    let tokens = vec![
        Tokens::StartStyle(Style::Normal),
        Tokens::Text("plain".to_string()),
        Tokens::NewLine,
    ];
    assert_eq!(convert(&tokens).unwrap(), "plain\n\n");
}

#[test]
fn trailing_open_style_is_never_closed() {
    let tokens = vec![
        Tokens::StartStyle(Style::Bold),
        Tokens::Text("x".to_string()),
    ];
    assert_eq!(convert(&tokens).unwrap(), "**x");
}

#[test]
fn heading_zero_renders_bare_space() {
    let tokens = vec![Tokens::Heading(0), Tokens::NewLine];
    assert_eq!(convert(&tokens).unwrap(), " \n\n");
}

#[test]
fn end_style_after_newline_is_unmatched() {
    let tokens = vec![
        Tokens::StartStyle(Style::Bold),
        Tokens::Text("x".to_string()),
        Tokens::NewLine,
        Tokens::EndStyle,
    ];
    let r = convert(&tokens);
    assert!(matches!(r, Err(OdtError::UnmatchedCloseError)));
}
