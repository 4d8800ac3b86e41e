//! Time ranges: from when to when the lines of a log file are.

use vstd::prelude::*;

use crate::error::Error;
use crate::line::{parse, parsed, time_is_read, INVALID_TIMESTAMP};

verus! {

/// The time of a line, if it has the layout of a log line.
pub open spec fn line_time(line: Seq<char>) -> Option<i64> {
    match parsed(line) {
        Some((_, meta)) => Some(meta.time),
        None => None,
    }
}

/// The time that came of reading a line: `None` if the line could not be read,
/// does not have the layout of a log line or holds no readable time.
pub open spec fn time_read(read: Result<String, std::io::Error>) -> Option<i64> {
    match read {
        Ok(line) => match line_time(line@) {
            Some(time) => if time == INVALID_TIMESTAMP {
                None
            } else {
                Some(time)
            },
            None => None,
        },
        Err(_) => None,
    }
}

/// `time` is the smallest of the times that were read.
pub open spec fn is_earliest(reads: Seq<Result<String, std::io::Error>>, time: i64) -> bool {
    &&& exists|i: int| 0 <= i < reads.len() && #[trigger] time_read(reads[i]) == Some(time)
    &&& forall|i: int|
        0 <= i < reads.len() ==> (#[trigger] time_read(reads[i]) matches Some(other) ==> time
            <= other)
}

/// `time` is the largest of the times that were read.
pub open spec fn is_latest(reads: Seq<Result<String, std::io::Error>>, time: i64) -> bool {
    &&& exists|i: int| 0 <= i < reads.len() && #[trigger] time_read(reads[i]) == Some(time)
    &&& forall|i: int|
        0 <= i < reads.len() ==> (#[trigger] time_read(reads[i]) matches Some(other) ==> other
            <= time)
}

/// A line was read that does not have the layout of a log line.
pub open spec fn misread(read: Result<String, std::io::Error>) -> bool {
    match read {
        Ok(line) => line_time(line@) is None,
        Err(_) => false,
    }
}

/// `range` is the time range of a file whose lines were read with the results
/// `reads`: the smallest and the largest of their times. The first and the last
/// line have to be log lines; on the side of one of them without a readable time
/// stands `INVALID_TIMESTAMP`. Other lines without a time are passed over.
pub open spec fn range_of(
    reads: Seq<Result<String, std::io::Error>>,
    range: Result<(i64, i64), Error>,
) -> bool {
    if reads.len() == 0 {
        range == Ok::<(i64, i64), Error>((INVALID_TIMESTAMP, INVALID_TIMESTAMP))
    } else if reads.first() is Err {
        range == Err::<(i64, i64), Error>(Error::IOError(reads.first()->Err_0))
    } else if misread(reads.first()) || misread(reads.last()) {
        range == Err::<(i64, i64), Error>(Error::ParseError)
    } else {
        range matches Ok((start, end)) && {
            &&& if time_read(reads.first()) is Some {
                is_earliest(reads, start)
            } else {
                start == INVALID_TIMESTAMP
            }
            &&& if time_read(reads.last()) is Some {
                is_latest(reads, end)
            } else {
                end == INVALID_TIMESTAMP
            }
        }
    }
}

/// The times of the lines of a file, gathered while it is read.
pub struct LineTimes {
    reads: Ghost<Seq<Result<String, std::io::Error>>>,
    first: Option<Result<i64, Error>>,
    last: Option<i64>,
    span: Option<(i64, i64)>,
}

impl View for LineTimes {
    type V = Seq<Result<String, std::io::Error>>;

    /// What came of reading the lines so far.
    closed spec fn view(&self) -> Seq<Result<String, std::io::Error>> {
        self.reads@
    }
}

/// The time of a line as it counts at the end of a file: a line that could not
/// be read has no readable time.
spec fn time_at_end(read: Result<String, std::io::Error>) -> Option<i64> {
    match read {
        Ok(line) => line_time(line@),
        Err(_) => Some(INVALID_TIMESTAMP),
    }
}

/// The time of a line as it counts at the beginning of a file.
spec fn time_at_start(read: Result<String, std::io::Error>) -> Result<i64, Error> {
    match read {
        Ok(line) => match line_time(line@) {
            Some(time) => Ok(time),
            None => Err(Error::ParseError),
        },
        Err(e) => Err(Error::IOError(e)),
    }
}

/// The smallest and the largest of the times that were read, if there are any.
spec fn spans(reads: Seq<Result<String, std::io::Error>>, span: Option<(i64, i64)>) -> bool {
    match span {
        Some((earliest, latest)) => is_earliest(reads, earliest) && is_latest(reads, latest),
        None => forall|i: int| 0 <= i < reads.len() ==> #[trigger] time_read(reads[i]) is None,
    }
}

/// One more line widens the span to its time, if it has one.
proof fn lemma_span(
    reads: Seq<Result<String, std::io::Error>>,
    span: Option<(i64, i64)>,
    read: Result<String, std::io::Error>,
)
    requires
        spans(reads, span),
    ensures
        spans(
            reads.push(read),
            match (span, time_read(read)) {
                (Some((earliest, latest)), Some(time)) => Some(
                    (
                        if time < earliest {
                            time
                        } else {
                            earliest
                        },
                        if time > latest {
                            time
                        } else {
                            latest
                        },
                    ),
                ),
                (None, Some(time)) => Some((time, time)),
                (_, None) => span,
            },
        ),
{
    let all = reads.push(read);
    assert(time_read(all[reads.len() as int]) == time_read(read));
    assert forall|i: int| 0 <= i < reads.len() implies #[trigger] time_read(all[i]) == time_read(
        reads[i],
    ) by {}
    match span {
        Some((earliest, latest)) => {
            let i = choose|i: int|
                0 <= i < reads.len() && #[trigger] time_read(reads[i]) == Some(earliest);
            let j = choose|j: int|
                0 <= j < reads.len() && #[trigger] time_read(reads[j]) == Some(latest);
            assert(time_read(all[i]) == Some(earliest));
            assert(time_read(all[j]) == Some(latest));
        },
        None => {},
    }
}

impl LineTimes {
    /// What is kept fits the lines that were read.
    pub closed spec fn wf(&self) -> bool {
        let reads = self.reads@;
        &&& spans(reads, self.span)
        &&& if reads.len() == 0 {
            self.first is None
        } else {
            &&& self.first == Some(time_at_start(reads.first()))
            &&& self.last == time_at_end(reads.last())
        }
    }

    /// No line was read yet.
    pub fn new() -> (times: LineTimes)
        ensures
            times.wf(),
            times@ == Seq::<Result<String, std::io::Error>>::empty(),
    {
        LineTimes { reads: Ghost(Seq::empty()), first: None, last: None, span: None }
    }

    /// Takes in what came of reading the next line.
    /// Says whether more lines are wanted: after a first line that cannot be
    /// read or is not a log line they are not.
    pub fn see(&mut self, read: Result<String, std::io::Error>) -> (more: bool)
        requires
            old(self).wf(),
        ensures
            final(self).wf(),
            final(self)@ == old(self)@.push(read),
            more == !(final(self)@.first() is Err || misread(final(self)@.first())),
            read matches Ok(line) ==> time_is_read(line@),
    {
        proof {
            lemma_span(self.reads@, self.span, read);
        }
        self.reads = Ghost(self.reads@.push(read));
        let (at_start, at_end): (Result<i64, Error>, Option<i64>) = match read {
            Ok(line) => match parse(line.as_str()) {
                Ok((_, meta)) => (Ok(meta.time), Some(meta.time)),
                Err(_) => (Err(Error::ParseError), None),
            },
            Err(e) => (Err(Error::from(e)), Some(INVALID_TIMESTAMP)),
        };
        if self.first.is_none() {
            self.first = Some(at_start);
        }
        self.last = at_end;
        match at_end {
            Some(time) => {
                if time != INVALID_TIMESTAMP {
                    self.span = match self.span {
                        Some((earliest, latest)) => Some(
                            (
                                if time < earliest {
                                    time
                                } else {
                                    earliest
                                },
                                if time > latest {
                                    time
                                } else {
                                    latest
                                },
                            ),
                        ),
                        None => Some((time, time)),
                    };
                }
            },
            None => {},
        }
        match &self.first {
            Some(Ok(_)) => true,
            _ => false,
        }
    }
}

/// The time range of a file whose lines were read: its minimal and its maximal
/// timestamp, in milliseconds since the Unix epoch.
pub fn parse_time_range(times: LineTimes) -> (range: Result<(i64, i64), Error>)
    requires
        times.wf(),
    ensures
        range_of(times@, range),
{
    let first: i64 = match times.first {
        Some(Ok(time)) => time,
        Some(Err(e)) => return Err(e),
        None => return Ok((INVALID_TIMESTAMP, INVALID_TIMESTAMP)),
    };
    let last: i64 = match times.last {
        Some(time) => time,
        None => return Err(Error::ParseError),
    };
    proof {
        let reads = times@;
        assert(time_read(reads[0]) == time_read(reads.first()));
        assert(time_read(reads[reads.len() - 1]) == time_read(reads.last()));
    }
    let (earliest, latest): (i64, i64) = match times.span {
        Some(span) => span,
        None => (INVALID_TIMESTAMP, INVALID_TIMESTAMP),
    };
    let start: i64 = if first == INVALID_TIMESTAMP {
        INVALID_TIMESTAMP
    } else {
        earliest
    };
    let end: i64 = if last == INVALID_TIMESTAMP {
        INVALID_TIMESTAMP
    } else {
        latest
    };
    Ok((start, end))
}

/// The time range of a file is the smallest and the largest of the times of its
/// lines, whatever their order, as soon as its first and its last line have a time.
pub proof fn law_time_range_spans_the_file(
    reads: Seq<Result<String, std::io::Error>>,
    range: Result<(i64, i64), Error>,
)
    requires
        reads.len() > 0,
        time_read(reads.first()) is Some,
        time_read(reads.last()) is Some,
        range_of(reads, range),
    ensures
        range matches Ok((start, end)) && {
            &&& is_earliest(reads, start)
            &&& is_latest(reads, end)
            &&& start <= end
        },
{
    let (start, end) = range->Ok_0;
    let i = choose|i: int| 0 <= i < reads.len() && #[trigger] time_read(reads[i]) == Some(start);
    assert(time_read(reads[i]) == Some(start));
}

/// A first line that cannot be read or is not a log line decides what comes of
/// the time range, whatever lines follow.
pub proof fn law_bad_first_line_decides(
    reads: Seq<Result<String, std::io::Error>>,
    more: Seq<Result<String, std::io::Error>>,
    range: Result<(i64, i64), Error>,
)
    requires
        reads.len() > 0,
        reads.first() is Err || misread(reads.first()),
    ensures
        range_of(reads + more, range) <==> range_of(reads, range),
{
    assert((reads + more).first() == reads.first());
}

/// The lines that have a time stand in the order of their times.
pub open spec fn in_time_order(reads: Seq<Result<String, std::io::Error>>) -> bool {
    forall|i: int, j: int|
        0 <= i <= j < reads.len() ==> {
            match (#[trigger] time_read(reads[i]), #[trigger] time_read(reads[j])) {
                (Some(sooner), Some(later)) => sooner <= later,
                _ => true,
            }
        }
}

/// In a file whose lines stand in the order of their times, the time range
/// reaches from the time of the first line to that of the last.
pub proof fn law_time_range_in_time_order(
    reads: Seq<Result<String, std::io::Error>>,
    range: Result<(i64, i64), Error>,
)
    requires
        reads.len() > 0,
        in_time_order(reads),
        time_read(reads.first()) is Some,
        time_read(reads.last()) is Some,
        range_of(reads, range),
    ensures
        range matches Ok((start, end)) && {
            &&& time_read(reads.first()) == Some(start)
            &&& time_read(reads.last()) == Some(end)
        },
{
    let (start, end) = range->Ok_0;
    let n = reads.len() - 1;
    let i = choose|i: int| 0 <= i < reads.len() && #[trigger] time_read(reads[i]) == Some(start);
    let j = choose|j: int| 0 <= j < reads.len() && #[trigger] time_read(reads[j]) == Some(end);
    assert(time_read(reads[0]) is Some && time_read(reads[n]) is Some);
    assert(time_read(reads[i]) == Some(start) && time_read(reads[j]) == Some(end));
}

/// A file has no time range only if its first line cannot be read, or its first
/// or its last line is not a log line; and then the error says which of the two it is.
pub proof fn law_time_range_fails_at_the_ends(
    reads: Seq<Result<String, std::io::Error>>,
    range: Result<(i64, i64), Error>,
)
    requires
        range_of(reads, range),
    ensures
        range == Err::<(i64, i64), Error>(Error::ParseError) <==> reads.len() > 0
            && reads.first() is Ok && (misread(reads.first()) || misread(reads.last())),
        (range matches Err(e) && e is IOError) <==> reads.len() > 0 && reads.first() is Err,
{
}

} // verus!
