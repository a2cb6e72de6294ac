//! The errors of dump reading, page formatting and output.
use vstd::prelude::*;

use quick_xml::Error as XmlReadError;

verus! {

/// Errors that can occur during Wikipedia dump extraction.
#[derive(Debug)]
pub enum Error {
    /// I/O error.
    Io(std::io::Error),
    /// XML parse error.
    Xml(String),
    /// XML reader error from quick-xml.
    XmlReader(XmlReadError),
    /// Invalid file size specification.
    InvalidFileSize(String),
    /// JSON serialization error.
    Json(serde_json::Error),
}

/// An error as plain values.
pub enum ErrorView {
    Io(std::io::Error),
    Xml(Seq<char>),
    XmlReader(XmlReadError),
    InvalidFileSize(Seq<char>),
    Json(serde_json::Error),
}

impl View for Error {
    type V = ErrorView;

    open spec fn view(&self) -> ErrorView {
        match self {
            Error::Io(e) => ErrorView::Io(*e),
            Error::Xml(m) => ErrorView::Xml(m@),
            Error::XmlReader(e) => ErrorView::XmlReader(*e),
            Error::InvalidFileSize(s) => ErrorView::InvalidFileSize(s@),
            Error::Json(e) => ErrorView::Json(*e),
        }
    }
}

} // verus!
