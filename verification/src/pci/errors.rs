//! What can go wrong.
use vstd::prelude::*;

use crate::number::IntError;
use crate::text::{copy, join2};

verus! {

/// Why a device cannot be told of.
#[derive(Debug)]
pub enum PciError {
    /// The text is no address.
    IllegalPciAddress(String),
    /// A field of an address is no number.
    ParseIntError {
        /// The field.
        field: String,
        /// Why it is none.
        source: IntError,
    },
    /// What a file says is no number.
    FileNumber(IntError),
    /// A file or directory could not be read, and what the system says of it.
    FileError(String),
    /// Reading failed.
    IoError(String),
}

/// Why a device cannot be told of, read as characters.
pub enum PciErrorView {
    IllegalPciAddress(Seq<char>),
    ParseIntError(Seq<char>, IntError),
    FileNumber(IntError),
    FileError(Seq<char>),
    IoError(Seq<char>),
}

impl View for PciError {
    type V = PciErrorView;

    open spec fn view(&self) -> PciErrorView {
        match *self {
            PciError::IllegalPciAddress(s) => PciErrorView::IllegalPciAddress(s@),
            PciError::ParseIntError { field, source } => PciErrorView::ParseIntError(
                field@,
                source,
            ),
            PciError::FileNumber(e) => PciErrorView::FileNumber(e),
            PciError::FileError(s) => PciErrorView::FileError(s@),
            PciError::IoError(s) => PciErrorView::IoError(s@),
        }
    }
}

/// What `{:?}` of the standard library makes of a text: the text in quotes, with
/// escapes in it.
pub uninterp spec fn quoted_of(s: Seq<char>) -> Seq<char>;

/// `Debug` of `str` of the standard library: the text in quotes. Which characters
/// are escaped is not said here; two calls on the same text give the same.
#[verifier::external_body]
pub(crate) fn quoted(s: &str) -> (r: String)
    ensures
        r@ == quoted_of(s@),
{
    format!("{:?}", s)
}

/// The name of what is wrong with a number.
pub open spec fn kind_name(e: IntError) -> Seq<char> {
    match e {
        IntError::Empty => "Empty"@,
        IntError::InvalidDigit => "InvalidDigit"@,
        IntError::PosOverflow => "PosOverflow"@,
    }
}

/// What is said of a number.
pub open spec fn number_message(e: IntError) -> Seq<char> {
    match e {
        IntError::Empty => "cannot parse integer from empty string"@,
        IntError::InvalidDigit => "invalid digit found in string"@,
        IntError::PosOverflow => "number too large to fit in target type"@,
    }
}

/// What an error says.
pub open spec fn error_message(e: PciErrorView) -> Seq<char> {
    match e {
        PciErrorView::IllegalPciAddress(s) => "illegal pci address "@ + s,
        PciErrorView::ParseIntError(f, n) => "parse int error "@ + quoted_of(f)
            + " ParseIntError { kind: "@ + kind_name(n) + " }"@,
        PciErrorView::FileNumber(n) => number_message(n),
        PciErrorView::FileError(s) => s,
        PciErrorView::IoError(_) => "io error"@,
    }
}

impl PciError {
    /// What the error says.
    pub fn message(&self) -> (r: String)
        ensures
            r@ == error_message(self@),
    {
        match self {
            PciError::IllegalPciAddress(s) => join2("illegal pci address ", s.as_str()),
            PciError::ParseIntError { field, source } => {
                let q = quoted(field.as_str());
                let mut m = join2("parse int error ", q.as_str());
                m.append(" ParseIntError { kind: ");
                m.append(
                    match source {
                        IntError::Empty => "Empty",
                        IntError::InvalidDigit => "InvalidDigit",
                        IntError::PosOverflow => "PosOverflow",
                    },
                );
                m.append(" }");
                m
            },
            PciError::FileNumber(n) => match n {
                IntError::Empty => copy("cannot parse integer from empty string"),
                IntError::InvalidDigit => copy("invalid digit found in string"),
                IntError::PosOverflow => copy("number too large to fit in target type"),
            },
            PciError::FileError(s) => copy(s.as_str()),
            PciError::IoError(_) => copy("io error"),
        }
    }
}

/// Each error says what is wrong and names the address or the field that it is about.
pub proof fn law_errors_say_what_is_wrong(s: Seq<char>)
    ensures
        error_message(PciErrorView::IllegalPciAddress(s)) == "illegal pci address "@ + s,
        error_message(PciErrorView::FileError(s)) == s,
        error_message(PciErrorView::IoError(s)) == "io error"@,
        error_message(PciErrorView::FileNumber(IntError::Empty))
            == "cannot parse integer from empty string"@,
        error_message(PciErrorView::FileNumber(IntError::InvalidDigit))
            == "invalid digit found in string"@,
        error_message(PciErrorView::FileNumber(IntError::PosOverflow))
            == "number too large to fit in target type"@,
        error_message(PciErrorView::ParseIntError(s, IntError::Empty)) == "parse int error "@
            + quoted_of(s) + " ParseIntError { kind: "@ + "Empty"@ + " }"@,
        error_message(PciErrorView::ParseIntError(s, IntError::InvalidDigit)) == "parse int error "@
            + quoted_of(s) + " ParseIntError { kind: "@ + "InvalidDigit"@ + " }"@,
        error_message(PciErrorView::ParseIntError(s, IntError::PosOverflow)) == "parse int error "@
            + quoted_of(s) + " ParseIntError { kind: "@ + "PosOverflow"@ + " }"@,
{
}

} // verus!
