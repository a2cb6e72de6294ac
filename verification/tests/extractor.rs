use wikiext::extractor::{format_page, make_url, parse_file_size, OutputFormat};
#[test]
fn test_format_page_doc() {
    let result = format_page(
        1,
        "Test Page",
        "https://en.wikipedia.org/wiki",
        "Hello world.",
        OutputFormat::Doc,
    );
    let expected = "<doc id=\"1\" url=\"https://en.wikipedia.org/wiki/Test_Page\" title=\"Test Page\">\nHello world.\n</doc>\n\n";
    assert_eq!(result, expected);
}

#[test]
fn test_format_page_json() {
    let result = format_page(
        42,
        "Test Page",
        "https://en.wikipedia.org/wiki",
        "Some text here.",
        OutputFormat::Json,
    );
    let parsed: serde_json::Value = serde_json::from_str(result.trim()).unwrap();
    assert_eq!(parsed["id"], "42");
    assert_eq!(parsed["url"], "https://en.wikipedia.org/wiki/Test_Page");
    assert_eq!(parsed["title"], "Test Page");
    assert_eq!(parsed["text"], "Some text here.");
}

#[test]
fn test_make_url_with_spaces() {
    let url = make_url("https://en.wikipedia.org/wiki", "New York City");
    assert_eq!(url, "https://en.wikipedia.org/wiki/New_York_City");
}

#[test]
fn test_make_url_japanese_title() {
    let url = make_url("https://ja.wikipedia.org/wiki", "東京都");
    assert_eq!(url, "https://ja.wikipedia.org/wiki/東京都");
}

#[test]
fn test_make_url_no_spaces() {
    let url = make_url("https://en.wikipedia.org/wiki", "Rust");
    assert_eq!(url, "https://en.wikipedia.org/wiki/Rust");
}

#[test]
fn test_parse_file_size_kilobytes() {
    assert_eq!(parse_file_size("500K").unwrap(), 512000);
    assert_eq!(parse_file_size("1K").unwrap(), 1024);
}

#[test]
fn test_parse_file_size_megabytes() {
    assert_eq!(parse_file_size("1M").unwrap(), 1048576);
    assert_eq!(parse_file_size("10M").unwrap(), 10485760);
}

#[test]
fn test_parse_file_size_gigabytes() {
    assert_eq!(parse_file_size("1G").unwrap(), 1073741824);
}

#[test]
fn test_parse_file_size_plain_number() {
    assert_eq!(parse_file_size("4096").unwrap(), 4096);
    assert_eq!(parse_file_size("0").unwrap(), 0);
}

#[test]
fn test_parse_file_size_invalid() {
    assert!(parse_file_size("").is_err());
    assert!(parse_file_size("abc").is_err());
    assert!(parse_file_size("M").is_err());
    assert!(parse_file_size("12X").is_err());
}

#[test]
fn test_escape_html_in_doc_format() {
    let result = format_page(
        1,
        "A <b>bold</b> & \"quoted\" title",
        "https://en.wikipedia.org/wiki",
        "Some text.",
        OutputFormat::Doc,
    );
    assert!(result.contains("title=\"A &lt;b&gt;bold&lt;/b&gt; &amp; &quot;quoted&quot; title\""));
    assert!(result.contains("url=\"https://en.wikipedia.org/wiki/A_&lt;b&gt;bold&lt;/b&gt;_&amp;_&quot;quoted&quot;_title\""));
}

#[test]
fn test_json_format_trailing_newline() {
    let result = format_page(
        1,
        "Title",
        "https://example.com",
        "Text",
        OutputFormat::Json,
    );
    assert!(result.ends_with('\n'));
    // Should be exactly one trailing newline (one line per article)
    assert!(!result.ends_with("\n\n"));
}

#[test]
fn test_doc_format_trailing_newline() {
    let result = format_page(
        1,
        "Title",
        "https://example.com",
        "Text",
        OutputFormat::Doc,
    );
    // Doc format ends with </doc>\n\n (one blank line after)
    assert!(result.ends_with("</doc>\n\n"));
}
