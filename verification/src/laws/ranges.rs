//! The time ranges of files.

use vstd::prelude::*;

use crate::error::Error;
use crate::line::{parse, LogMeta, NoMatch};
use crate::range::{line_time, parse_time_range, time_read, LineTimes};

verus! {

/// The time of a line is the one that it is parsed with.
pub proof fn law_lines_have_the_times_they_are_parsed_with(
    line: &str,
    parts: Result<(&str, LogMeta), NoMatch>,
)
    requires
        call_ensures(parse, (line,), parts),
    ensures
        parts matches Ok((_, meta)) ==> line_time(line@) == Some(meta.time),
        parts is Err ==> line_time(line@) is None,
{
}

/// A line was read whose time is `time`, which is a readable one.
pub open spec fn is_read_at(read: Result<String, std::io::Error>, time: i64) -> bool {
    read is Ok && line_time((read->Ok_0)@) == Some(time) && time != -1
}

/// A file without lines has no times.
pub proof fn law_empty_files_have_no_times(
    times: LineTimes,
    range: Result<(i64, i64), Error>,
)
    requires
        call_ensures(parse_time_range, (times,), range),
        times@.len() == 0,
    ensures
        range matches Ok((start, end)) && start == -1 && end == -1,
{
}

/// A file fails with the error of its first line, if that cannot be read; and if
/// its first or its last line is not a log line.
pub proof fn law_bad_ends_fail(times: LineTimes, range: Result<(i64, i64), Error>)
    requires
        call_ensures(parse_time_range, (times,), range),
        times@.len() > 0,
    ensures
        times@[0] is Err ==> range == Err::<(i64, i64), Error>(Error::IOError(times@[0]->Err_0)),
        times@[0] is Ok && line_time((times@[0]->Ok_0)@) is None ==> range == Err::<
            (i64, i64),
            Error,
        >(Error::ParseError),
        times@[0] is Ok && times@[times@.len() - 1] is Ok && line_time(
            (times@[times@.len() - 1]->Ok_0)@,
        ) is None ==> range == Err::<(i64, i64), Error>(Error::ParseError),
{
    assert(times@.first() == times@[0]);
    assert(times@.last() == times@[times@.len() - 1]);
}

/// A file that begins with a time starts at the smallest of its times, whatever
/// the order of its lines.
pub proof fn law_files_start_at_their_smallest_time(
    times: LineTimes,
    range: Result<(i64, i64), Error>,
    first: i64,
)
    requires
        call_ensures(parse_time_range, (times,), range),
        times@.len() > 0,
        is_read_at(times@[0], first),
        range is Ok,
    ensures
        exists|i: int| 0 <= i < times@.len() && #[trigger] is_read_at(times@[i], (range->Ok_0).0),
        forall|i: int, time: i64|
            0 <= i < times@.len() && #[trigger] is_read_at(times@[i], time) ==> (range->Ok_0).0
                <= time,
{
    let reads = times@;
    let start = (range->Ok_0).0;
    assert(reads.first() == reads[0]);
    let i = choose|i: int| 0 <= i < reads.len() && #[trigger] time_read(reads[i]) == Some(start);
    assert(is_read_at(reads[i], start));
    assert forall|j: int, time: i64|
        0 <= j < reads.len() && #[trigger] is_read_at(reads[j], time) implies start <= time by {
        assert(time_read(reads[j]) == Some(time));
    }
}

/// A file that ends with a time ends at the largest of its times, whatever the
/// order of its lines.
pub proof fn law_files_end_at_their_largest_time(
    times: LineTimes,
    range: Result<(i64, i64), Error>,
    last: i64,
)
    requires
        call_ensures(parse_time_range, (times,), range),
        times@.len() > 0,
        is_read_at(times@[times@.len() - 1], last),
        range is Ok,
    ensures
        exists|i: int| 0 <= i < times@.len() && #[trigger] is_read_at(times@[i], (range->Ok_0).1),
        forall|i: int, time: i64|
            0 <= i < times@.len() && #[trigger] is_read_at(times@[i], time) ==> time <= (
            range->Ok_0).1,
{
    let reads = times@;
    let end = (range->Ok_0).1;
    assert(reads.last() == reads[reads.len() - 1]);
    let i = choose|i: int| 0 <= i < reads.len() && #[trigger] time_read(reads[i]) == Some(end);
    assert(is_read_at(reads[i], end));
    assert forall|j: int, time: i64|
        0 <= j < reads.len() && #[trigger] is_read_at(reads[j], time) implies time <= end by {
        assert(time_read(reads[j]) == Some(time));
    }
}

/// A file whose first and last lines are log lines has a time range; on the side
/// of one without a readable time there is none, and the other side is as ever.
pub proof fn law_files_with_log_lines_at_their_ends_have_a_range(
    times: LineTimes,
    range: Result<(i64, i64), Error>,
    first: i64,
)
    requires
        call_ensures(parse_time_range, (times,), range),
        times@.len() > 0,
        times@[0] is Ok && line_time((times@[0]->Ok_0)@) == Some(first),
        times@[times@.len() - 1] matches Ok(line) ==> line_time(line@) is Some,
    ensures
        range is Ok,
        first == -1 ==> (range->Ok_0).0 == -1,
        times@[times@.len() - 1] matches Ok(line) ==> (line_time(line@) == Some(
            (-1) as i64,
        ) ==> (range->Ok_0).1 == -1),
        times@[times@.len() - 1] is Err ==> (range->Ok_0).1 == -1,
{
    assert(times@.first() == times@[0]);
    assert(times@.last() == times@[times@.len() - 1]);
}

/// What is seen is kept, in order; more is wanted as long as the first line is a log line.
pub proof fn law_lines_are_kept_in_order(
    times: &mut LineTimes,
    read: Result<String, std::io::Error>,
    more: bool,
)
    requires
        call_ensures(LineTimes::see, (times, read), more),
    ensures
        final(times)@ == old(times)@ + seq![read],
        more <==> final(times)@[0] is Ok && line_time((final(times)@[0]->Ok_0)@) is Some,
{
    assert(final(times)@ =~= old(times)@ + seq![read]);
    assert(final(times)@.first() == final(times)@[0]);
}

/// At first no line was seen.
pub proof fn law_no_line_is_seen_at_first(times: LineTimes)
    requires
        call_ensures(LineTimes::new, (), times),
    ensures
        times@.len() == 0,
{
}

} // verus!
