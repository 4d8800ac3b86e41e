//! What can go wrong while log files are searched.

use vstd::prelude::*;
use walkdir::Error as WalkError;

use crate::text::printable_text;

verus! {

/// `std::io::Error` is carried through unread.
#[verifier::external_type_specification]
#[verifier::external_body]
pub struct ExIoError(std::io::Error);

/// Why the time range of a log file is not known.
#[derive(Debug)]
pub enum Error {
    /// A line does not have the layout of a log line.
    ParseError,
    /// The file could not be read.
    IOError(std::io::Error),
}

impl From<std::io::Error> for Error {
    fn from(err: std::io::Error) -> (error: Self) {
        Error::IOError(err)
    }
}

impl vstd::std_specs::convert::FromSpecImpl<std::io::Error> for Error {
    open spec fn obeys_from_spec() -> bool {
        true
    }

    open spec fn from_spec(err: std::io::Error) -> Self {
        Error::IOError(err)
    }
}

/// The text of `s` as `{:?}` writes it: between quotes, with escapes.
pub uninterp spec fn debug_text(s: Seq<char>) -> Seq<char>;

/// A text between quotation marks.
pub open spec fn quoted(s: Seq<char>) -> Seq<char> {
    "\""@ + s + "\""@
}

/// Formats with `{:?}`, that is, calls `<str as std::fmt::Debug>::fmt`. What it
/// writes is claimed to depend on the text alone, and to be the text between
/// quotation marks if it is printable ASCII without quotation marks and
/// backslashes; how other characters are written is not claimed.
#[verifier::external_body]
pub(crate) fn format_debug(text: &str) -> (formatted: String)
    ensures
        formatted@ == debug_text(text@),
        printable_text(text@) ==> formatted@ == quoted(text@),
{
    format!("{:?}", text)
}

/// Why the logs cannot be searched.
#[derive(Debug)]
pub struct LogSearchError(pub String);

impl View for LogSearchError {
    type V = Seq<char>;

    open spec fn view(&self) -> Seq<char> {
        self.0@
    }
}

/// The text of a log search error as `{:?}` writes it.
pub open spec fn search_error_text(message: Seq<char>) -> Seq<char> {
    "LogSearchError("@ + debug_text(message) + ")"@
}

impl LogSearchError {
    /// A message followed by what it is about.
    fn about(message: &str, subject: &str) -> (error: LogSearchError)
        ensures
            error@ == message@ + subject@,
    {
        let mut text: String = message.to_owned();
        text.append(subject);
        LogSearchError(text)
    }

    /// The directory of the logs could not be walked; `cause` says why.
    pub fn walk_directory(cause: &str) -> (error: LogSearchError)
        ensures
            error@ == "walk directory: "@ + cause@,
    {
        Self::about("walk directory: ", cause)
    }

    /// The name of the log file is not UTF-8.
    pub fn invalid_utf8(log_file: &str) -> (error: LogSearchError)
        ensures
            error@ == "Invalid utf8: "@ + log_file@,
    {
        Self::about("Invalid utf8: ", log_file)
    }

    /// The path of the log file ends in no file name.
    pub fn illegal_file_name(log_file: &str) -> (error: LogSearchError)
        ensures
            error@ == "Illegal file name: "@ + log_file@,
    {
        Self::about("Illegal file name: ", log_file)
    }

    /// The path of the log file lies in no directory.
    pub fn illegal_parent_dir(log_file: &str) -> (error: LogSearchError)
        ensures
            error@ == "illegal parent dir: "@ + log_file@,
    {
        Self::about("illegal parent dir: ", log_file)
    }

    /// The error as `{:?}` writes it, from its message as `{:?}` writes it.
    pub fn formatted(message: &str) -> (text: String)
        ensures
            text@ == "LogSearchError("@ + message@ + ")"@,
    {
        let mut text: String = "LogSearchError(".to_owned();
        text.append(message);
        text.append(")");
        text
    }

    /// The error as `{:?}` writes it.
    pub fn to_text(&self) -> (text: String)
        ensures
            text@ == search_error_text(self@),
            printable_text(self@) ==> text@ == "LogSearchError("@ + quoted(self@) + ")"@,
    {
        Self::formatted(format_debug(self.0.as_str()).as_str())
    }
}

/// `walkdir::Error` is only ever formatted.
#[verifier::external_type_specification]
#[verifier::external_body]
pub struct ExWalkError(WalkError);

/// Formats with `{:?}`, that is, calls `<walkdir::Error as std::fmt::Debug>::fmt`. Nothing
/// is claimed of the text: the error comes from the file system.
#[verifier::external_body]
fn format_walk_error(error: &WalkError) -> (formatted: String) {
    format!("{:?}", error)
}

/// `text` is what formatting the error with `{:?}` may give.
pub closed spec fn is_debug_text_of(error: WalkError, text: Seq<char>) -> bool {
    exists|formatted: String|
        #[trigger] call_ensures(format_walk_error, (&error,), formatted) && formatted@ == text
}

/// `error` says that the directory of the logs could not be walked because of
/// `cause`, as `{:?}` writes it.
pub open spec fn walk_failed(cause: WalkError, error: LogSearchError) -> bool {
    exists|text: Seq<char>| #[trigger]
        is_debug_text_of(cause, text) && error@ == "walk directory: "@ + text
}

impl From<WalkError> for LogSearchError {
    fn from(e: WalkError) -> (error: Self)
        ensures
            walk_failed(e, error),
    {
        let text: String = format_walk_error(&e);
        assert(is_debug_text_of(e, text@));
        Self::walk_directory(text.as_str())
    }
}

impl vstd::std_specs::convert::FromSpecImpl<WalkError> for LogSearchError {
    open spec fn obeys_from_spec() -> bool {
        false
    }

    open spec fn from_spec(e: WalkError) -> Self {
        arbitrary()
    }
}

} // verus!
