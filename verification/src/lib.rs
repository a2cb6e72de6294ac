//! Plain-text extraction from MediaWiki dumps: the wikitext cleaner, the
//! dump event reader, page formatting and the output-file rotation rules.

pub mod cleaner;
pub mod dump;
pub mod error;
pub mod extractor;
pub mod numbers;
pub mod output;
pub mod outside;
pub mod text;

pub use cleaner::{clean_wikitext, clean_wikitext_noting_fallback};
pub use dump::{Article, DumpReader, DumpStep, PageSkip, XmlEvent};
pub use error::Error;
pub use extractor::{file_size_overflows, format_page, make_url, parse_file_size, OutputFormat};
pub use output::{OutputConfig, OutputSplitter};
