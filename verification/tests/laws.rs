//! The library's laws, checked on concrete values.
use std::collections::HashSet;

use wikiext::cleaner::ast::{extract_text_from_nodes, WikiNode};
use wikiext::cleaner::clean_text;
use wikiext::dump::{DumpReader, DumpStep, XmlEvent};
use wikiext::extractor::{escape_html, parse_file_size};
use wikiext::numbers::{parse_u64, push_decimal};
use wikiext::output::{OutputConfig, OutputSplitter};
use wikiext::text::chars_of;

fn extract(nodes: &[WikiNode]) -> String {
    let mut out = String::new();
    extract_text_from_nodes(nodes, &mut out);
    out
}

fn sample_a() -> Vec<WikiNode> {
    vec![
        WikiNode::Text("Intro ".to_string()),
        WikiNode::Link("Target".to_string(), vec![]),
        WikiNode::Template,
    ]
}

fn sample_b() -> Vec<WikiNode> {
    vec![
        WikiNode::Heading(vec![WikiNode::Text("Section".to_string())]),
        WikiNode::UnorderedList(vec![vec![WikiNode::Text("one".to_string())], vec![WikiNode::CharacterEntity('&')]]),
        WikiNode::Tag("ref".to_string(), vec![WikiNode::Text("hidden".to_string())]),
        WikiNode::ParagraphBreak,
    ]
}

#[test]
fn law_clean_text_is_tidy_on_messy_text() {
    let result = clean_text("  \n  lead   spaces  \n\n\n\n\n mid\u{3000}  text \t\n\n  \n end  ");
    assert_eq!(result, "lead spaces\n\nmid\u{3000} text\n\nend");
    assert!(!result.contains("\n\n\n"));
    assert!(!result.contains("  "));
    assert_eq!(result.trim(), result);
}

#[test]
fn law_plain_line_unchanged_example() {
    let line = "Plain text, with punctuation: (a) [b] {c} ok.";
    assert_eq!(clean_text(line), line);
}

#[test]
fn law_nodes_text_concat_example() {
    let mut both = sample_a();
    both.extend(sample_b());
    let whole = extract(&both);
    let parts = extract(&sample_a()) + &extract(&sample_b());
    assert_eq!(whole, parts);
    assert_eq!(whole, "Intro Target\nSection\none\n&\n\n\n");
}

#[test]
fn law_decimal_round_trip_examples() {
    for n in [0u64, 7, 10, 42, 99, 100, 65535, 1234567890, u64::MAX] {
        let mut s = String::new();
        push_decimal(&mut s, n);
        assert_eq!(s, n.to_string());
        assert_eq!(parse_u64(&chars_of(&s)), Some(n));
    }
}

#[test]
fn law_escaped_has_no_markup_example() {
    let escaped = escape_html("<a href=\"x\">Tom & Jerry</a>");
    assert_eq!(escaped, "&lt;a href=&quot;x&quot;&gt;Tom &amp; Jerry&lt;/a&gt;");
    assert!(!escaped.contains('<') && !escaped.contains('>') && !escaped.contains('"'));
}

#[test]
fn law_size_suffixes_examples() {
    assert_eq!(parse_file_size("37").unwrap(), 37);
    assert_eq!(parse_file_size("37K").unwrap(), 37 * 1024);
    assert_eq!(parse_file_size("37M").unwrap(), 37 * 1024 * 1024);
    assert_eq!(parse_file_size("37G").unwrap(), 37 * 1024 * 1024 * 1024);
}

#[test]
fn law_file_paths_distinct_for_all_files() {
    let mut seen = HashSet::new();
    for i in 0..67600u64 {
        let dir = OutputSplitter::dir_name(i / 100);
        let file = OutputSplitter::file_name(i % 100, false);
        assert!(seen.insert((dir, file)), "duplicate path for file {i}");
    }
    assert_eq!(OutputSplitter::dir_name(675), "ZZ");
}

fn splitter(path: &str, max_file_size: u64) -> OutputSplitter {
    OutputSplitter::new(OutputConfig { path: path.to_string(), max_file_size, compress: false })
}

#[test]
fn law_zero_limit_one_page_per_file_example() {
    let mut s = splitter("out", 0);
    assert!(s.needs_rotation(10));
    s.file_opened();
    assert!(!s.needs_rotation(10));
    s.record_write(10);
    assert!(s.needs_rotation(0));
    assert!(s.needs_rotation(10));
}

#[test]
fn law_limit_respected_example() {
    let mut s = splitter("out", 50);
    s.file_opened();
    assert!(!s.needs_rotation(14));
    s.record_write(14);
    assert!(!s.needs_rotation(36));
    assert!(s.needs_rotation(37));
    s.file_closed();
    s.file_opened();
    assert!(!s.needs_rotation(50));
    assert!(s.needs_rotation(51));
}

/// The events of one page, as the XML reader reports them.
fn page(title: &str, ns: &str, id: &str, text: &str) -> Vec<XmlEvent> {
    let tag = |name: &str, value: &str| {
        vec![XmlEvent::Start(name.to_string()), XmlEvent::Text(value.to_string()), XmlEvent::End(name.to_string())]
    };
    let mut events = vec![XmlEvent::Start("page".to_string())];
    events.extend(tag("title", title));
    events.extend(tag("ns", ns));
    events.extend(tag("id", id));
    events.push(XmlEvent::Start("revision".to_string()));
    events.extend(tag("id", "999"));
    events.extend(tag("text", text));
    events.push(XmlEvent::End("revision".to_string()));
    events.push(XmlEvent::End("page".to_string()));
    events
}

#[test]
fn law_document_yields_wanted_articles_example() {
    let mut events = Vec::new();
    events.extend(page("A", "0", "1", "a"));
    events.extend(page("Talk", "1", "2", "t"));
    events.extend(page("C", "0", "3", "c"));
    let mut dump = DumpReader::new(&[0]);
    let mut articles = Vec::new();
    for event in events {
        match dump.step(event) {
            DumpStep::Article(a) => articles.push((a.id, a.title, a.namespace, a.text)),
            DumpStep::NeedEvent => {},
            other => panic!("unexpected step: {other:?}"),
        }
    }
    assert_eq!(
        articles,
        vec![(1, "A".to_string(), 0, "a".to_string()), (3, "C".to_string(), 0, "c".to_string())]
    );
}

#[test]
fn law_no_error_inside_a_page_example() {
    let mut dump = DumpReader::new(&[0]);
    assert!(matches!(dump.step(XmlEvent::Start("page".to_string())), DumpStep::NeedEvent));
    assert!(matches!(dump.step(XmlEvent::Start("ns".to_string())), DumpStep::NeedEvent));
    assert!(matches!(dump.step(XmlEvent::Text("zero".to_string())), DumpStep::Skipped(_)));
    assert!(matches!(dump.step(XmlEvent::Start("page".to_string())), DumpStep::NeedEvent));
    assert!(matches!(dump.step(XmlEvent::Eof), DumpStep::Skipped(_)));
}

#[test]
fn law_finished_only_at_end_example() {
    let mut dump = DumpReader::new(&[0]);
    assert!(matches!(dump.step(XmlEvent::Start("mediawiki".to_string())), DumpStep::NeedEvent));
    assert!(matches!(dump.step(XmlEvent::End("mediawiki".to_string())), DumpStep::NeedEvent));
    assert!(matches!(dump.step(XmlEvent::Eof), DumpStep::NeedEvent));
    assert!(matches!(dump.step(XmlEvent::Other), DumpStep::NeedEvent));
    assert!(matches!(dump.step(XmlEvent::Eof), DumpStep::Finished));
}

#[test]
fn law_document_yields_its_pages_example() {
    let xml_events = |names: &[(&str, &str)]| {
        let mut events = Vec::new();
        for (name, value) in names {
            events.push(XmlEvent::Start(name.to_string()));
            if !value.is_empty() {
                events.push(XmlEvent::Text(value.to_string()));
            }
            events.push(XmlEvent::End(name.to_string()));
        }
        events
    };
    let mut dump = DumpReader::new(&[0]);
    let mut events = vec![XmlEvent::Start("mediawiki".to_string()), XmlEvent::Start("siteinfo".to_string())];
    events.extend(xml_events(&[("base", "https://en.wikipedia.org/wiki/Main_Page")]));
    events.push(XmlEvent::End("siteinfo".to_string()));
    for (title, ns, id) in [("A", "0", "1"), ("Talk:B", "1", "2"), ("C", "0", "")] {
        events.push(XmlEvent::Start("page".to_string()));
        events.extend(xml_events(&[("title", title), ("ns", ns)]));
        if !id.is_empty() {
            events.extend(xml_events(&[("id", id)]));
        }
        events.push(XmlEvent::Start("revision".to_string()));
        events.extend(xml_events(&[("id", "77"), ("timestamp", "2024-01-01T00:00:00Z"), ("sha1", "abc")]));
        events.push(XmlEvent::Start("contributor".to_string()));
        events.extend(xml_events(&[("username", "U"), ("id", "5")]));
        events.push(XmlEvent::End("contributor".to_string()));
        events.extend(xml_events(&[("text", title)]));
        events.push(XmlEvent::End("revision".to_string()));
        events.push(XmlEvent::End("page".to_string()));
        events.push(XmlEvent::Other);
    }
    events.push(XmlEvent::End("mediawiki".to_string()));
    events.push(XmlEvent::Eof);
    let mut outcomes = Vec::new();
    for event in events {
        match dump.step(event) {
            DumpStep::NeedEvent => {},
            DumpStep::Article(a) => outcomes.push(format!("article {} {} {}", a.id, a.title, a.text)),
            DumpStep::Skipped(reason) => outcomes.push(format!("skipped {reason:?}")),
            DumpStep::Finished => outcomes.push("finished".to_string()),
            DumpStep::Failed(e) => panic!("unexpected error {e:?}"),
        }
    }
    assert_eq!(outcomes, vec!["article 1 A A", "skipped MissingId", "finished"]);
    assert_eq!(dump.url_base(), "https://en.wikipedia.org/wiki");
}

#[test]
fn law_fresh_splitter_starts_at_aa_00_example() {
    for compress in [false, true] {
        let mut s = OutputSplitter::new(OutputConfig { path: "out".to_string(), max_file_size: 10, compress });
        let suffix = if compress { ".bz2" } else { "" };
        assert!(s.needs_rotation(1));
        assert_eq!(s.next_file(), ("AA".to_string(), format!("wiki_00{suffix}")));
        s.file_opened();
        assert_eq!((s.file_index(), s.current_bytes()), (1, 0));
        assert!(!s.needs_rotation(10));
        assert!(s.needs_rotation(11));
        assert_eq!(s.next_file(), ("AA".to_string(), format!("wiki_01{suffix}")));
    }
}

#[test]
fn law_clean_text_lines_are_trimmed() {
    let out = clean_text("  a  \n\t b \n\n\n  c\t\n");
    assert_eq!(out, "a\nb\n\nc");
    for line in out.split('\n') {
        assert_eq!(line, line.trim());
    }
}
