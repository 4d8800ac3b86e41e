//! Errors and their texts.

use vstd::prelude::*;
use walkdir::Error as WalkError;

use crate::error::{debug_text, is_debug_text_of, Error, LogSearchError};
use crate::profile::ProfError;
use crate::text::printable_text;

verus! {

/// The messages of search errors say what went wrong, and with what.
pub proof fn law_search_errors_say_what_went_wrong(
    subject: &str,
    walk: LogSearchError,
    utf8: LogSearchError,
    name: LogSearchError,
    dir: LogSearchError,
)
    requires
        call_ensures(LogSearchError::walk_directory, (subject,), walk),
        call_ensures(LogSearchError::invalid_utf8, (subject,), utf8),
        call_ensures(LogSearchError::illegal_file_name, (subject,), name),
        call_ensures(LogSearchError::illegal_parent_dir, (subject,), dir),
    ensures
        walk.0@ == "walk directory: "@ + subject@,
        utf8.0@ == "Invalid utf8: "@ + subject@,
        name.0@ == "Illegal file name: "@ + subject@,
        dir.0@ == "illegal parent dir: "@ + subject@,
{
}

/// The text of a search error holds its message, between quotation marks.
pub proof fn law_search_errors_are_shown(
    error: LogSearchError,
    message: &str,
    text: String,
    formatted: String,
)
    requires
        call_ensures(LogSearchError::to_text, (&error,), text),
        call_ensures(LogSearchError::formatted, (message,), formatted),
    ensures
        text@ == "LogSearchError("@ + debug_text(error.0@) + ")"@,
        printable_text(error.0@) ==> text@ == "LogSearchError("@ + ("\""@ + error.0@ + "\""@)
            + ")"@,
        formatted@ == "LogSearchError("@ + message@ + ")"@,
{
}

/// A failed walk is told with what the error says of itself.
pub proof fn law_failed_walks_are_told(cause: WalkError, error: LogSearchError)
    requires
        call_ensures(<LogSearchError as From<WalkError>>::from, (cause,), error),
    ensures
        exists|text: Seq<char>| #[trigger]
            is_debug_text_of(cause, text) && error.0@ == "walk directory: "@ + text,
{
}

/// An error of the system is carried through as it is.
pub proof fn law_system_errors_are_carried_through(
    cause: std::io::Error,
    error: Error,
    failure: ProfError,
)
    requires
        call_ensures(<Error as From<std::io::Error>>::from, (cause,), error),
        call_ensures(<ProfError as From<std::io::Error>>::from, (cause,), failure),
    ensures
        error == Error::IOError(cause),
        failure == ProfError::IOError(cause),
{
}

} // verus!
