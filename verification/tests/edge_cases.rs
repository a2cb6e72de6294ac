//! Edge cases, error variants and exact results of the library's functions.
use quick_xml::events::Event;
use quick_xml::Reader;
use wikiext::cleaner::{clean_text, clean_wikitext, clean_wikitext_noting_fallback, fallback_clean};
use wikiext::cleaner::postprocess::{strip_comment_remnants, strip_orphaned_template_close};
use wikiext::dump::{DumpReader, DumpStep, PageSkip, XmlEvent};
use wikiext::error::Error;
use wikiext::extractor::{file_size_overflows, format_page, make_url, parse_file_size, OutputFormat};
use wikiext::numbers::{parse_i32, parse_u64};
use wikiext::output::{OutputConfig, OutputSplitter};
use wikiext::text::chars_of;

/// All the steps of reading `xml` to the end, one entry per yielded item.
fn read_all(xml: &str, namespaces: &[i32]) -> (Vec<DumpStep>, String) {
    let mut reader = Reader::from_reader(xml.as_bytes());
    reader.config_mut().trim_text(true);
    let mut dump = DumpReader::new(namespaces);
    let mut buf = Vec::new();
    let mut out = Vec::new();
    loop {
        buf.clear();
        let event = match reader.read_event_into(&mut buf) {
            Ok(Event::Start(e)) => XmlEvent::Start(String::from_utf8_lossy(e.local_name().as_ref()).into_owned()),
            Ok(Event::End(e)) => XmlEvent::End(String::from_utf8_lossy(e.local_name().as_ref()).into_owned()),
            Ok(Event::Text(e)) => XmlEvent::Text(e.decode().unwrap().into_owned()),
            Ok(Event::CData(e)) => XmlEvent::CData(String::from_utf8_lossy(e.as_ref()).into_owned()),
            Ok(Event::Eof) => XmlEvent::Eof,
            Err(e) => XmlEvent::ReaderError(e),
            Ok(_) => XmlEvent::Other,
        };
        match dump.step(event) {
            DumpStep::NeedEvent => continue,
            DumpStep::Finished => break,
            other => out.push(other),
        }
    }
    (out, dump.url_base().to_string())
}

#[test]
fn clean_text_drops_parameter_lines_and_keeps_one_blank_line() {
    assert_eq!(clean_text("a\n| x = y\nb"), "a\n\nb");
    assert_eq!(clean_text(""), "");
    assert_eq!(clean_text("\n\n"), "");
    assert_eq!(clean_text("x\r\ny"), "x\ny");
}

#[test]
fn clean_text_orphan_and_comment_rules() {
    assert_eq!(clean_text("keep {a}} b}} tail"), "keep { tail");
    assert_eq!(clean_text("a !--one-- b !--two-- c"), "a b c");
    assert_eq!(clean_text("before !--never closed"), "before !--never closed");
}

#[test]
fn clean_wikitext_uses_the_parser() {
    assert_eq!(clean_wikitext("'''x'''"), "x");
    assert_eq!(clean_wikitext("&amp; and [[A|b]]"), "& and b");
    assert_eq!(clean_wikitext("== T ==\nbody"), "T\nbody");
}

#[test]
fn fallback_clean_applies_each_pattern() {
    assert_eq!(fallback_clean("'''Bold'''"), "Bold");
    assert_eq!(fallback_clean("a{{x|{{y}}}}b"), "ab");
    assert_eq!(fallback_clean("[http://e.com Label] <b>x</b>"), "Label x");
    assert_eq!(fallback_clean("== H =="), "H");
    assert_eq!(fallback_clean("[[Category:C]][[File:F.png|t]]rest"), "rest");
}

#[test]
fn make_url_replaces_every_space() {
    assert_eq!(make_url("", " a  b "), "/_a__b_");
}

#[test]
fn format_page_doc_exact() {
    let page = format_page(18446744073709551615, "A & B", "https://x/wiki", "T", OutputFormat::Doc);
    assert_eq!(
        page,
        "<doc id=\"18446744073709551615\" url=\"https://x/wiki/A_&amp;_B\" title=\"A &amp; B\">\nT\n</doc>\n\n"
    );
}

#[test]
fn format_page_json_exact() {
    let page = format_page(42, "Test \"Page\"", "https://en.wikipedia.org/wiki", "Line\nnext", OutputFormat::Json);
    assert_eq!(
        page,
        "{\"id\":\"42\",\"url\":\"https://en.wikipedia.org/wiki/Test_\\\"Page\\\"\",\"title\":\"Test \\\"Page\\\"\",\"text\":\"Line\\nnext\"}\n"
    );
}

#[test]
fn parse_file_size_edge_cases() {
    assert_eq!(parse_file_size("  12K\t").unwrap(), 12 * 1024);
    assert_eq!(parse_file_size("+5").unwrap(), 5);
    assert_eq!(parse_file_size("18446744073709551615").unwrap(), u64::MAX);
    match parse_file_size(" -5 ") {
        Err(Error::InvalidFileSize(s)) => assert_eq!(s, "-5"),
        other => panic!("expected InvalidFileSize, got {other:?}"),
    }
    assert!(parse_file_size("18446744073709551616").is_err());
    assert!(parse_file_size("1k").is_err());
    assert!(parse_file_size("+").is_err());
}

#[test]
fn numbers_parse_like_std() {
    for s in ["0", "+7", "-7", "2147483647", "-2147483648", "2147483648", "-", "", "1a", "007"] {
        assert_eq!(parse_i32(&chars_of(s)), s.parse::<i32>().ok(), "i32 {s:?}");
        assert_eq!(parse_u64(&chars_of(s)), s.parse::<u64>().ok(), "u64 {s:?}");
    }
}

#[test]
fn dump_eof_inside_siteinfo_is_reported() {
    let (steps, _) = read_all("<mediawiki><siteinfo><base>https://a/wiki/Main</base>", &[0]);
    match &steps[..] {
        [DumpStep::Failed(Error::Xml(m))] => assert_eq!(m, "unexpected EOF while parsing siteinfo"),
        other => panic!("unexpected steps: {other:?}"),
    }
}

#[test]
fn dump_base_without_slash_is_kept_whole() {
    let (steps, base) = read_all("<mediawiki><siteinfo><base>nobase</base></siteinfo></mediawiki>", &[0]);
    assert!(steps.is_empty());
    assert_eq!(base, "nobase");
}

#[test]
fn dump_page_before_siteinfo_is_read() {
    let xml = "<mediawiki><page><title>A</title><ns>0</ns><id>1</id><revision><text>x</text></revision></page>\
               <page><title>B</title><ns>0</ns><id>2</id></page></mediawiki>";
    let (steps, base) = read_all(xml, &[0]);
    assert_eq!(base, "");
    match &steps[..] {
        [DumpStep::Article(a), DumpStep::Article(b)] => {
            assert_eq!((a.id, a.title.as_str(), a.namespace, a.text.as_str()), (1, "A", 0, "x"));
            assert_eq!((b.id, b.title.as_str()), (2, "B"));
        },
        other => panic!("unexpected steps: {other:?}"),
    }
}

#[test]
fn dump_bad_numbers_and_missing_id_skip_the_page() {
    let xml = "<mediawiki><siteinfo></siteinfo>\
               <page><title>A</title><ns>x</ns><id>1</id></page>\
               <page><title>B</title><ns>0</ns><id>-1</id></page>\
               <page><title>C</title><ns>0</ns></page>\
               <page><title>D</title><id>4</id><revision><text><![CDATA[a<b]]></text></revision></page>\
               </mediawiki>";
    let (steps, _) = read_all(xml, &[0]);
    match &steps[..] {
        [
            DumpStep::Skipped(PageSkip::InvalidNamespace(ns)),
            DumpStep::Skipped(PageSkip::InvalidId(id)),
            DumpStep::Skipped(PageSkip::MissingId),
            DumpStep::Article(a),
        ] => {
            assert_eq!((ns.as_str(), id.as_str()), ("x", "-1"));
            assert_eq!((a.id, a.title.as_str(), a.namespace, a.text.as_str()), (4, "D", 0, "a<b"))
        },
        other => panic!("unexpected steps: {other:?}"),
    }
}

#[test]
fn dump_finished_stays_finished() {
    let mut dump = DumpReader::new(&[0]);
    assert!(matches!(dump.step(XmlEvent::Eof), DumpStep::NeedEvent));
    assert!(matches!(dump.step(XmlEvent::Eof), DumpStep::Finished));
    assert!(matches!(dump.step(XmlEvent::Eof), DumpStep::Finished));
}

#[test]
fn output_names_and_stdout() {
    assert_eq!(OutputSplitter::file_name(7, false), "wiki_07");
    assert_eq!(OutputSplitter::file_name(7, true), "wiki_07.bz2");
    assert_eq!(OutputSplitter::file_name(123, false), "wiki_123");
    let stdout = OutputSplitter::new(OutputConfig { path: "-".to_string(), max_file_size: 0, compress: false });
    assert!(stdout.is_stdout());
    let mut files = OutputSplitter::new(OutputConfig { path: "out".to_string(), max_file_size: 0, compress: true });
    assert!(!files.is_stdout());
    for _ in 0..101 {
        files.file_opened();
    }
    assert_eq!(files.next_file(), ("AB".to_string(), "wiki_01.bz2".to_string()));
}

#[test]
fn orphan_closes_follow_the_pattern() {
    let strip = |s: &str| strip_orphaned_template_close(&chars_of(s)).into_iter().collect::<String>();
    assert_eq!(strip("a{b}}c"), "a{c");
    assert_eq!(strip("x}}y}}z"), "z");
    assert_eq!(strip("}}}"), "");
    assert_eq!(strip("a}}}b"), "b");
    assert_eq!(strip("{}}{"), "{{");
    assert_eq!(strip("no close"), "no close");
}

#[test]
fn comment_remnants_follow_the_pattern() {
    let strip = |s: &str| strip_comment_remnants(&chars_of(s)).into_iter().collect::<String>();
    assert_eq!(strip("a!--b--c!--d--e"), "ace");
    assert_eq!(strip("!----x"), "x");
    assert_eq!(strip("a !--b"), "a !--b");
    assert_eq!(strip("a !--b\nc-- d"), "a !--b\nc-- d");
    assert_eq!(strip("!---x--y"), "y");
}

#[test]
fn json_escapes_control_characters() {
    let page = format_page(1, "T", "", "a\u{1}b\t\\", OutputFormat::Json);
    assert_eq!(page, "{\"id\":\"1\",\"url\":\"/T\",\"title\":\"T\",\"text\":\"a\\u0001b\\t\\\\\"}\n");
}

#[test]
fn file_size_overflow_is_detected() {
    assert!(file_size_overflows("18014398509481984K"));
    assert!(!file_size_overflows("18014398509481983K"));
    assert!(!file_size_overflows("18446744073709551615"));
    assert!(!file_size_overflows("bad"));
    assert!(!file_size_overflows(""));
}

#[test]
fn fallback_flag_reports_the_parser_outcome() {
    let (text, fell_back) = clean_wikitext_noting_fallback("'''x''' [[A|b]]");
    assert_eq!(text, "x b");
    assert!(!fell_back);
}

#[test]
fn dump_skips_a_page_cut_short() {
    let (steps, _) = read_all("<mediawiki><siteinfo></siteinfo><page><title>A</title><ns>0</ns>", &[0]);
    match &steps[..] {
        [DumpStep::Skipped(PageSkip::UnexpectedEof)] => {},
        other => panic!("unexpected steps: {other:?}"),
    }
}

#[test]
fn output_needs_a_file_after_close() {
    let mut s = OutputSplitter::new(OutputConfig { path: "out".to_string(), max_file_size: 100, compress: false });
    assert!(s.needs_rotation(1));
    s.file_opened();
    assert!(!s.needs_rotation(1));
    s.file_closed();
    assert!(s.needs_rotation(1));
}
