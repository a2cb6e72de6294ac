use quick_xml::events::Event;
use quick_xml::Reader;
use wikiext::dump::{Article, DumpReader, DumpStep, XmlEvent};
use wikiext::error::Error;

/// Feeds the events of an XML document to a [`DumpReader`], one article at a
/// time.
struct XmlDump {
    xml: Reader<&'static [u8]>,
    buf: Vec<u8>,
    dump: DumpReader,
}

impl XmlDump {
    fn url_base(&self) -> &str {
        self.dump.url_base()
    }

    fn event(&mut self) -> XmlEvent {
        self.buf.clear();
        match self.xml.read_event_into(&mut self.buf) {
            Ok(Event::Start(e)) => XmlEvent::Start(String::from_utf8_lossy(e.local_name().as_ref()).into_owned()),
            Ok(Event::End(e)) => XmlEvent::End(String::from_utf8_lossy(e.local_name().as_ref()).into_owned()),
            Ok(Event::Text(e)) => match e.decode() {
                Ok(text) => XmlEvent::Text(text.into_owned()),
                Err(err) => XmlEvent::UndecodableText(err.to_string()),
            },
            Ok(Event::CData(e)) => XmlEvent::CData(String::from_utf8_lossy(e.as_ref()).into_owned()),
            Ok(Event::Eof) => XmlEvent::Eof,
            Err(e) => XmlEvent::ReaderError(e),
            Ok(_) => XmlEvent::Other,
        }
    }
}

impl Iterator for XmlDump {
    type Item = Result<Article, Error>;

    fn next(&mut self) -> Option<Self::Item> {
        loop {
            let event = self.event();
            match self.dump.step(event) {
                DumpStep::NeedEvent => continue,
                DumpStep::Article(article) => return Some(Ok(article)),
                DumpStep::Skipped(_) => continue,
                DumpStep::Failed(e) => return Some(Err(e)),
                DumpStep::Finished => return None,
            }
        }
    }
}

/// Helper to create a reader over an XML string for testing.
fn reader_from_xml(xml: &str, namespaces: &[i32]) -> XmlDump {
    let bytes: &'static [u8] = Box::leak(xml.to_string().into_bytes().into_boxed_slice());
    let mut xml = Reader::from_reader(bytes);
    xml.config_mut().trim_text(true);
    XmlDump { xml, buf: Vec::new(), dump: DumpReader::new(namespaces) }
}

const SINGLE_PAGE_XML: &str = r#"<mediawiki>
  <siteinfo>
    <sitename>Wikipedia</sitename>
    <base>https://en.wikipedia.org/wiki/Main_Page</base>
  </siteinfo>
  <page>
    <title>Test Article</title>
    <ns>0</ns>
    <id>42</id>
    <revision>
      <id>999</id>
      <text>Hello, world!</text>
    </revision>
  </page>
</mediawiki>"#;

#[test]
fn test_parse_single_page() {
    let mut reader = reader_from_xml(SINGLE_PAGE_XML, &[0]);
    let article = reader.next().unwrap().unwrap();
    assert_eq!(article.id, 42);
    assert_eq!(article.title, "Test Article");
    assert_eq!(article.namespace, 0);
    assert_eq!(article.text, "Hello, world!");
    assert!(reader.next().is_none());
}

#[test]
fn test_namespace_filtering() {
    let xml = r#"<mediawiki>
  <siteinfo>
    <sitename>Wikipedia</sitename>
    <base>https://en.wikipedia.org/wiki/Main_Page</base>
  </siteinfo>
  <page>
    <title>Main Article</title>
    <ns>0</ns>
    <id>1</id>
    <revision>
      <id>100</id>
      <text>Main content</text>
    </revision>
  </page>
  <page>
    <title>Talk:Main Article</title>
    <ns>1</ns>
    <id>2</id>
    <revision>
      <id>101</id>
      <text>Talk content</text>
    </revision>
  </page>
  <page>
    <title>Another Article</title>
    <ns>0</ns>
    <id>3</id>
    <revision>
      <id>102</id>
      <text>Another content</text>
    </revision>
  </page>
</mediawiki>"#;

    let reader = reader_from_xml(xml, &[0]);
    let articles: Vec<Article> = reader.map(|r| r.unwrap()).collect();
    assert_eq!(articles.len(), 2);
    assert_eq!(articles[0].id, 1);
    assert_eq!(articles[1].id, 3);
}

#[test]
fn test_url_base_extraction() {
    let mut reader = reader_from_xml(SINGLE_PAGE_XML, &[0]);
    // Trigger initialization by consuming at least one item.
    let _ = reader.next();
    assert_eq!(reader.url_base(), "https://en.wikipedia.org/wiki");
}

#[test]
fn test_multiple_pages() {
    let xml = r#"<mediawiki>
  <siteinfo>
    <sitename>Wikipedia</sitename>
    <base>https://en.wikipedia.org/wiki/Main_Page</base>
  </siteinfo>
  <page>
    <title>First</title>
    <ns>0</ns>
    <id>10</id>
    <revision>
      <id>200</id>
      <text>First text</text>
    </revision>
  </page>
  <page>
    <title>Second</title>
    <ns>0</ns>
    <id>20</id>
    <revision>
      <id>201</id>
      <text>Second text</text>
    </revision>
  </page>
  <page>
    <title>Third</title>
    <ns>0</ns>
    <id>30</id>
    <revision>
      <id>202</id>
      <text>Third text</text>
    </revision>
  </page>
</mediawiki>"#;

    let reader = reader_from_xml(xml, &[0]);
    let articles: Vec<Article> = reader.map(|r| r.unwrap()).collect();
    assert_eq!(articles.len(), 3);
    assert_eq!(articles[0].id, 10);
    assert_eq!(articles[0].title, "First");
    assert_eq!(articles[1].id, 20);
    assert_eq!(articles[1].title, "Second");
    assert_eq!(articles[2].id, 30);
    assert_eq!(articles[2].title, "Third");
}

#[test]
fn test_redirect_page() {
    let xml = r#"<mediawiki>
  <siteinfo>
    <sitename>Wikipedia</sitename>
    <base>https://en.wikipedia.org/wiki/Main_Page</base>
  </siteinfo>
  <page>
    <title>Redirect Page</title>
    <ns>0</ns>
    <id>50</id>
    <redirect title="Target Page" />
    <revision>
      <id>300</id>
      <text>#REDIRECT [[Target Page]]</text>
    </revision>
  </page>
</mediawiki>"#;

    let mut reader = reader_from_xml(xml, &[0]);
    let article = reader.next().unwrap().unwrap();
    assert_eq!(article.id, 50);
    assert_eq!(article.title, "Redirect Page");
    assert_eq!(article.text, "#REDIRECT [[Target Page]]");
}

#[test]
fn test_missing_text() {
    let xml = r#"<mediawiki>
  <siteinfo>
    <sitename>Wikipedia</sitename>
    <base>https://en.wikipedia.org/wiki/Main_Page</base>
  </siteinfo>
  <page>
    <title>No Text Page</title>
    <ns>0</ns>
    <id>60</id>
    <revision>
      <id>400</id>
    </revision>
  </page>
</mediawiki>"#;

    let mut reader = reader_from_xml(xml, &[0]);
    let article = reader.next().unwrap().unwrap();
    assert_eq!(article.id, 60);
    assert_eq!(article.title, "No Text Page");
    assert_eq!(article.text, "");
}
