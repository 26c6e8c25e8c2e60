use vstd::prelude::*;
use vstd::string::StringExecFns;

verus! {

/// Declares `std::io::Error`, carried unchanged by `XmoditsError::IoError`.
#[verifier::external_type_specification]
#[verifier::external_body]
pub struct ExIoError(std::io::Error);

/// Every error the library reports.
#[derive(Debug)]
pub enum XmoditsError {
    SampleExtractionFailure(String),
    UnsupportedFormat(String),
    InvalidModule(String),
    IoError(std::io::Error),
    FileError(String),
    EmptyModule,
    GenericError(String),
    MultipleErrors(Vec<XmoditsError>),
    OutOfBounds,
}

/// The variant of an error, without its payload.
#[derive(PartialEq, Eq, Structural, Clone, Copy, Debug)]
pub enum ErrorKind {
    SampleExtractionFailure,
    UnsupportedFormat,
    InvalidModule,
    IoError,
    FileError,
    EmptyModule,
    GenericError,
    MultipleErrors,
    OutOfBounds,
}

/// An error as the contracts see it: its variant and its message
/// (empty for the variants that carry none).
pub struct ErrorView {
    pub kind: ErrorKind,
    pub message: Seq<char>,
}

impl View for XmoditsError {
    type V = ErrorView;

    open spec fn view(&self) -> ErrorView {
        match self {
            XmoditsError::SampleExtractionFailure(m) => ErrorView { kind: ErrorKind::SampleExtractionFailure, message: m@ },
            XmoditsError::UnsupportedFormat(m) => ErrorView { kind: ErrorKind::UnsupportedFormat, message: m@ },
            XmoditsError::InvalidModule(m) => ErrorView { kind: ErrorKind::InvalidModule, message: m@ },
            XmoditsError::IoError(_) => ErrorView { kind: ErrorKind::IoError, message: Seq::empty() },
            XmoditsError::FileError(m) => ErrorView { kind: ErrorKind::FileError, message: m@ },
            XmoditsError::EmptyModule => ErrorView { kind: ErrorKind::EmptyModule, message: Seq::empty() },
            XmoditsError::GenericError(m) => ErrorView { kind: ErrorKind::GenericError, message: m@ },
            XmoditsError::MultipleErrors(_) => ErrorView { kind: ErrorKind::MultipleErrors, message: Seq::empty() },
            XmoditsError::OutOfBounds => ErrorView { kind: ErrorKind::OutOfBounds, message: Seq::empty() },
        }
    }
}

/// The view of an error of the given kind with the given message.
pub open spec fn err_view(kind: ErrorKind, message: Seq<char>) -> ErrorView {
    ErrorView { kind, message }
}

/// The view of the `OutOfBounds` error: what every read past the data, or
/// arithmetic past a field's range, reports.
pub open spec fn oob_view() -> ErrorView {
    err_view(ErrorKind::OutOfBounds, Seq::empty())
}

impl XmoditsError {
    /// An `InvalidModule` error with the given message.
    pub fn invalid(e: &str) -> (r: Self)
        ensures
            r@ == err_view(ErrorKind::InvalidModule, e@),
    {
        XmoditsError::InvalidModule(String::from_str(e))
    }

    /// An `UnsupportedFormat` error with the given message.
    pub fn unsupported(e: &str) -> (r: Self)
        ensures
            r@ == err_view(ErrorKind::UnsupportedFormat, e@),
    {
        XmoditsError::UnsupportedFormat(String::from_str(e))
    }

    /// A `FileError` with the given message.
    pub fn file(e: &str) -> (r: Self)
        ensures
            r@ == err_view(ErrorKind::FileError, e@),
    {
        XmoditsError::FileError(String::from_str(e))
    }

    /// The `OutOfBounds` error.
    pub fn out_of_bounds() -> (r: Self)
        ensures
            r@ == err_view(ErrorKind::OutOfBounds, Seq::empty()),
    {
        XmoditsError::OutOfBounds
    }
}

/// A message becomes a `GenericError`.
impl From<String> for XmoditsError {
    fn from(e: String) -> (r: Self) {
        XmoditsError::GenericError(e)
    }
}

impl vstd::std_specs::convert::FromSpecImpl<String> for XmoditsError {
    open spec fn obeys_from_spec() -> bool {
        true
    }

    open spec fn from_spec(e: String) -> Self {
        XmoditsError::GenericError(e)
    }
}

/// An I/O error becomes an `IoError`.
impl From<std::io::Error> for XmoditsError {
    fn from(e: std::io::Error) -> (r: Self) {
        XmoditsError::IoError(e)
    }
}

impl vstd::std_specs::convert::FromSpecImpl<std::io::Error> for XmoditsError {
    open spec fn obeys_from_spec() -> bool {
        true
    }

    open spec fn from_spec(e: std::io::Error) -> Self {
        XmoditsError::IoError(e)
    }
}

/// The text an error is shown with, for every variant but `IoError`, whose
/// text is that of the I/O error it carries.
pub open spec fn error_text(e: ErrorView) -> Seq<char> {
    match e.kind {
        ErrorKind::SampleExtractionFailure => "Failed to rip sample: "@ + e.message + " "@,
        ErrorKind::UnsupportedFormat => e.message,
        ErrorKind::InvalidModule => "Invalid Module: "@ + e.message,
        ErrorKind::IoError => e.message,
        ErrorKind::FileError => e.message,
        ErrorKind::EmptyModule => "Module has no samples"@,
        ErrorKind::GenericError => "Generic Error: "@ + e.message,
        ErrorKind::MultipleErrors => "Multiple Errors"@,
        ErrorKind::OutOfBounds => "This module has caused an out of bounds error. This is a bug. Please add this module to your bug report."@,
    }
}

/// Calls `ToString::to_string` on an I/O error, which gives its `Display`
/// text; nothing is stated of that text, since the error is carried unread.
#[verifier::external_body]
fn io_error_text(e: &std::io::Error) -> (r: String) {
    e.to_string()
}

/// The text `prefix`, `body`, `suffix` joined.
fn joined(prefix: &str, body: &String, suffix: &str) -> (r: String)
    ensures
        r@ == prefix@ + body@ + suffix@,
{
    let mut out = String::from_str(prefix);
    out.append(body.as_str());
    out.append(suffix);
    out
}

impl XmoditsError {
    /// The text the error is shown with; see `error_text`. An `IoError`
    /// shows the text of the I/O error it carries.
    pub fn message(&self) -> (r: String)
        ensures
            !(self is IoError) ==> r@ == error_text(self@),
    {
        proof {
            reveal_strlit("");
        }
        match self {
            XmoditsError::SampleExtractionFailure(m) => joined("Failed to rip sample: ", m, " "),
            XmoditsError::UnsupportedFormat(m) => m.clone(),
            XmoditsError::InvalidModule(m) => {
                let r = joined("Invalid Module: ", m, "");
                assert(r@ =~= "Invalid Module: "@ + m@);
                r
            },
            XmoditsError::IoError(e) => io_error_text(e),
            XmoditsError::FileError(m) => m.clone(),
            XmoditsError::EmptyModule => String::from_str("Module has no samples"),
            XmoditsError::GenericError(m) => {
                let r = joined("Generic Error: ", m, "");
                assert(r@ =~= "Generic Error: "@ + m@);
                r
            },
            XmoditsError::MultipleErrors(_) => String::from_str("Multiple Errors"),
            XmoditsError::OutOfBounds => String::from_str(
                "This module has caused an out of bounds error. This is a bug. Please add this module to your bug report.",
            ),
        }
    }
}

} // verus!
