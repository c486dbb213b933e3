//! Errors of the ZFS layer.
use vstd::prelude::*;

use crate::number::IntErrorKind;

verus! {

/// What can go wrong when talking to ZFS or reading what it printed. Failures that come
/// from outside the library (I/O, UTF-8, JSON, float syntax) carry the message of the
/// underlying error.
#[derive(Debug, Clone)]
pub enum Error {
    CommandFailed { code: Option<i32>, stdout: String, stderr: String },
    MissingKey(String),
    ParseInt(IntErrorKind),
    ParseFloat(String),
    InvalidProperty { property: &'static str, src: &'static str },
    UnknownValue { what: &'static str, value: String },
    Io(String),
    Utf8(String),
    Json(String),
    EventStreamClosed,
    PoolNotFound(String),
    DatasetNotFound(String),
    EventParse(String),
    PropertyConversion(String),
}

/// `Error` with its texts taken by their characters.
pub enum ErrorView {
    CommandFailed { code: Option<i32>, stdout: Seq<char>, stderr: Seq<char> },
    MissingKey(Seq<char>),
    ParseInt(IntErrorKind),
    ParseFloat(Seq<char>),
    InvalidProperty { property: Seq<char>, src: Seq<char> },
    UnknownValue { what: Seq<char>, value: Seq<char> },
    Io(Seq<char>),
    Utf8(Seq<char>),
    Json(Seq<char>),
    EventStreamClosed,
    PoolNotFound(Seq<char>),
    DatasetNotFound(Seq<char>),
    EventParse(Seq<char>),
    PropertyConversion(Seq<char>),
}

impl DeepView for Error {
    type V = ErrorView;

    open spec fn deep_view(&self) -> ErrorView {
        match self {
            Error::CommandFailed { code, stdout, stderr } => ErrorView::CommandFailed {
                code: *code,
                stdout: stdout@,
                stderr: stderr@,
            },
            Error::MissingKey(k) => ErrorView::MissingKey(k@),
            Error::ParseInt(k) => ErrorView::ParseInt(*k),
            Error::ParseFloat(m) => ErrorView::ParseFloat(m@),
            Error::InvalidProperty { property, src } => ErrorView::InvalidProperty {
                property: property@,
                src: src@,
            },
            Error::UnknownValue { what, value } => ErrorView::UnknownValue {
                what: what@,
                value: value@,
            },
            Error::Io(m) => ErrorView::Io(m@),
            Error::Utf8(m) => ErrorView::Utf8(m@),
            Error::Json(m) => ErrorView::Json(m@),
            Error::EventStreamClosed => ErrorView::EventStreamClosed,
            Error::PoolNotFound(m) => ErrorView::PoolNotFound(m@),
            Error::DatasetNotFound(m) => ErrorView::DatasetNotFound(m@),
            Error::EventParse(m) => ErrorView::EventParse(m@),
            Error::PropertyConversion(m) => ErrorView::PropertyConversion(m@),
        }
    }
}

/// A result of the ZFS layer, taken by the views of both sides.
pub open spec fn result_view<T: DeepView>(r: Result<T, Error>) -> Result<T::V, ErrorView> {
    match r {
        Ok(v) => Ok(v.deep_view()),
        Err(e) => Err(e.deep_view()),
    }
}

/// The message that std's `ParseIntError` displays for each kind.
pub open spec fn int_error_message(k: IntErrorKind) -> Seq<char> {
    match k {
        IntErrorKind::Empty => "cannot parse integer from empty string"@,
        IntErrorKind::InvalidDigit => "invalid digit found in string"@,
        IntErrorKind::PosOverflow => "number too large to fit in target type"@,
        IntErrorKind::NegOverflow => "number too small to fit in target type"@,
    }
}

/// The text of a `ParseInt` error as the error type displays it (`parse error: ...`).
pub open spec fn parse_int_display(k: IntErrorKind) -> Seq<char> {
    "parse error: "@ + int_error_message(k)
}

/// The text that `Error::ParseInt(k)` displays.
pub fn parse_int_message(k: IntErrorKind) -> (r: String)
    ensures
        r@ == parse_int_display(k),
{
    let m: &str = match k {
        IntErrorKind::Empty => "cannot parse integer from empty string",
        IntErrorKind::InvalidDigit => "invalid digit found in string",
        IntErrorKind::PosOverflow => "number too large to fit in target type",
        IntErrorKind::NegOverflow => "number too small to fit in target type",
    };
    crate::text::concat_str("parse error: ", m)
}

} // verus!
