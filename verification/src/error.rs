//! What can go wrong.

use vstd::prelude::*;
use vstd::string::StringExecFns;

verus! {

/// An error with the reason for it as text.
#[derive(Debug)]
pub enum Error {
    /// The input is no word-processing package.
    InvalidDocx(String),
    /// The archive could not be read.
    Zip(String),
    /// A part of the package is not well-formed XML.
    Xml(String),
    /// The document cannot be laid out.
    Pdf(String),
    /// A file could not be read or written.
    Io(String),
}

impl Error {
    /// The text that introduces the reason in a message.
    pub open spec fn prefix(&self) -> Seq<char> {
        match self {
            Error::InvalidDocx(_) => "not a valid DOCX file: "@,
            Error::Zip(_) => "ZIP error: "@,
            Error::Xml(_) => "XML error: "@,
            Error::Pdf(_) => "PDF error: "@,
            Error::Io(_) => "IO error: "@,
        }
    }

    pub open spec fn reason(&self) -> Seq<char> {
        match self {
            Error::InvalidDocx(r) => r@,
            Error::Zip(r) => r@,
            Error::Xml(r) => r@,
            Error::Pdf(r) => r@,
            Error::Io(r) => r@,
        }
    }

    /// The message for a reader: what kind of error it is, and the reason.
    pub fn message(&self) -> (m: String)
        ensures
            m@ == self.prefix() + self.reason(),
    {
        match self {
            Error::InvalidDocx(r) => String::from_str("not a valid DOCX file: ").concat(r.as_str()),
            Error::Zip(r) => String::from_str("ZIP error: ").concat(r.as_str()),
            Error::Xml(r) => String::from_str("XML error: ").concat(r.as_str()),
            Error::Pdf(r) => String::from_str("PDF error: ").concat(r.as_str()),
            Error::Io(r) => String::from_str("IO error: ").concat(r.as_str()),
        }
    }
}

} // verus!
