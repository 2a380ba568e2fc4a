use std::io::Write;

use odt_to_md::errors::OdtError;
use odt_to_md::read_odt_bytes;

fn archive_with(entries: &[(&str, &str)]) -> Vec<u8> {
    let cursor = std::io::Cursor::new(Vec::new());
    let mut writer = zip::ZipWriter::new(cursor);
    for (name, content) in entries {
        writer
            .start_file(*name, zip::write::SimpleFileOptions::default())
            .unwrap();
        writer.write_all(content.as_bytes()).unwrap();
    }
    writer.finish().unwrap().into_inner()
}

fn document(body: &str) -> String {
    let mut s = String::new();
    s.push_str("<?xml version=\"1.0\" encoding=\"UTF-8\"?>\n");
    s.push_str(
        "<office:document-content xmlns:office=\"urn:o\" xmlns:style=\"urn:s\" \
         xmlns:text=\"urn:t\" xmlns:fo=\"urn:f\">",
    );
    s.push_str(body);
    s.push_str("</office:document-content>");
    s
}

#[test]
fn bold_style_paragraph_end_to_end() {
    let xml = document(
        "<style:style style:name=\"Bold1\"/>\
         <style:text-properties fo:font-weight=\"bold\"/>\
         <text:p text:style-name=\"Bold1\">hello</text:p>",
    );
    let bytes = archive_with(&[("content.xml", &xml)]);
    assert_eq!(read_odt_bytes(&bytes).unwrap(), "**hello**\n\n");
}

#[test]
fn conversion_is_deterministic() {
    let xml = document(
        "<style:style style:name=\"It1\"/>\
         <style:text-properties fo:font-style=\"italic\"/>\
         <text:h text:outline-level=\"1\">Top</text:h>\
         <text:p text:style-name=\"It1\">soft</text:p>",
    );
    let bytes = archive_with(&[("content.xml", &xml)]);
    let first = read_odt_bytes(&bytes).unwrap();
    let second = read_odt_bytes(&bytes).unwrap();
    assert_eq!(first, second);
    assert_eq!(first, "# Top\n\n*soft*\n\n");
}

#[test]
fn garbage_bytes_are_archive_error() {
    let bytes = vec![1u8, 2, 3, 4, 5];
    let r = read_odt_bytes(&bytes);
    assert!(matches!(r, Err(OdtError::ArchiveError(_))));
}

#[test]
fn missing_content_entry_is_empty_document() {
    let bytes = archive_with(&[("other.txt", "nothing here")]);
    assert_eq!(odt_to_md::extract::extract_content(&bytes).unwrap(), "");
    let r = read_odt_bytes(&bytes);
    assert!(matches!(r, Err(OdtError::MarkupParseError(_))));
}

#[test]
fn extractor_takes_first_matching_entry() {
    let xml = document("<text:p>found</text:p>");
    let bytes = archive_with(&[("a.txt", "first"), ("content.xml", &xml), ("z.txt", "last")]);
    assert_eq!(odt_to_md::extract::extract_content(&bytes).unwrap(), xml);
    assert_eq!(read_odt_bytes(&bytes).unwrap(), "found\n\n");
}

#[test]
fn malformed_markup_is_parse_error() {
    let bytes = archive_with(&[("content.xml", "<a><b></a>")]);
    let r = read_odt_bytes(&bytes);
    assert!(matches!(r, Err(OdtError::MarkupParseError(_))));
}

#[test]
fn unstyled_definition_commits_normal() {
    let xml = document(
        "<style:style style:name=\"P1\"/>\
         <style:text-properties fo:language=\"en\"/>\
         <text:p text:style-name=\"P1\">plain</text:p>",
    );
    let bytes = archive_with(&[("content.xml", &xml)]);
    assert_eq!(read_odt_bytes(&bytes).unwrap(), "plain\n\n");
}

#[test]
fn bold_written_first_wins_over_italic() {
    let xml = document(
        "<style:style style:name=\"S\"/>\
         <style:text-properties fo:font-weight=\"bold\" fo:font-style=\"italic\"/>\
         <text:p text:style-name=\"S\">x</text:p>",
    );
    let bytes = archive_with(&[("content.xml", &xml)]);
    assert_eq!(read_odt_bytes(&bytes).unwrap(), "**x**\n\n");
}

#[test]
fn heading_outline_level_end_to_end() {
    let xml = document("<text:h text:outline-level=\"2\">Title</text:h>");
    let bytes = archive_with(&[("content.xml", &xml)]);
    assert_eq!(read_odt_bytes(&bytes).unwrap(), "## Title\n\n");
}

#[test]
fn bad_outline_level_is_parse_error() {
    let xml = document("<text:h text:outline-level=\"two\">Title</text:h>");
    let bytes = archive_with(&[("content.xml", &xml)]);
    let r = read_odt_bytes(&bytes);
    assert!(matches!(r, Err(OdtError::MarkupParseError(_))));
}

#[test]
fn quotation_paragraph_end_to_end() {
    let xml = document("<text:p text:style-name=\"Quotations\">quoted</text:p>");
    let bytes = archive_with(&[("content.xml", &xml)]);
    assert_eq!(read_odt_bytes(&bytes).unwrap(), ">quoted\n\n");
}

#[test]
fn plain_span_close_is_unmatched() {
    let xml = document("<text:p><text:span>hi</text:span></text:p>");
    let bytes = archive_with(&[("content.xml", &xml)]);
    let r = read_odt_bytes(&bytes);
    assert!(matches!(r, Err(OdtError::UnmatchedCloseError)));
}

#[test]
fn double_style_name_is_builder_violation() {
    let xml = document(
        "<style:style style:name=\"A\"/>\
         <style:style style:name=\"B\"/>\
         <style:text-properties fo:font-weight=\"bold\"/>",
    );
    let bytes = archive_with(&[("content.xml", &xml)]);
    let r = read_odt_bytes(&bytes);
    assert!(matches!(r, Err(OdtError::StyleBuilderViolation)));
}

#[test]
fn properties_without_definition_are_builder_violation() {
    let xml = document("<style:text-properties fo:font-weight=\"bold\"/>");
    let bytes = archive_with(&[("content.xml", &xml)]);
    let r = read_odt_bytes(&bytes);
    assert!(matches!(r, Err(OdtError::StyleBuilderViolation)));
}

#[test]
fn styled_span_end_to_end() {
    let xml = document(
        "<style:style style:name=\"Em\"/>\
         <style:text-properties fo:font-style=\"italic\"/>\
         <text:p>before <text:span text:style-name=\"Em\">mid</text:span> after</text:p>",
    );
    let bytes = archive_with(&[("content.xml", &xml)]);
    assert_eq!(read_odt_bytes(&bytes).unwrap(), "before *mid* after\n\n");
}
