//! Searching log files: which files are read, in what order, and which of
//! their lines are found.

use vstd::prelude::*;
use vstd::utf8::*;
use walkdir::Error as WalkError;

use crate::error::{walk_failed, Error, LogSearchError};
use crate::line::{
    parse, parsed, time_is_read, Level, LogItem, LogItemView, LogMeta, LogMetaView,
    INVALID_TIMESTAMP, TIMESTAMP_LENGTH,
};
use crate::path::{
    directory_names, last_name, lemma_written_path, lies_in, names_a_file, ordinary_names,
    path_file_name, path_parent, read_alike, written_path,
};
use crate::text::{contains, occurs_in, starts_with};

verus! {

/// What a log search looks for.
#[derive(Debug)]
pub struct LogQuery {
    /// Lines from this time on, in milliseconds since the Unix epoch.
    pub begin_time: i64,
    /// Lines up to this time, in milliseconds since the Unix epoch.
    pub end_time: i64,
    /// Lines of this level, or of any level.
    pub level: Option<Level>,
    /// Lines whose content holds this text.
    pub filter: String,
}

/// The values of a `LogQuery`.
pub struct LogQueryView {
    pub begin_time: i64,
    pub end_time: i64,
    pub level: Option<Level>,
    pub filter: Seq<char>,
}

impl View for LogQuery {
    type V = LogQueryView;

    open spec fn view(&self) -> LogQueryView {
        LogQueryView {
            begin_time: self.begin_time,
            end_time: self.end_time,
            level: self.level,
            filter: self.filter@,
        }
    }
}

/// A line with this content and these meta data is one that the query looks
/// for. One whose time cannot be read is not.
pub open spec fn selects(query: LogQueryView, content: Seq<char>, meta: LogMetaView) -> bool {
    &&& meta.time != INVALID_TIMESTAMP
    &&& query.begin_time <= meta.time <= query.end_time
    &&& query.level is Some ==> meta.level == query.level
    &&& query.filter.len() > 0 ==> occurs_in(query.filter, content)
}

/// The item that the query finds in a line, if any. A line shorter than a
/// timestamp, in bytes, holds none.
pub open spec fn item_in(query: LogQueryView, line: Seq<char>) -> Option<LogItemView> {
    if encode_utf8(line).len() < TIMESTAMP_LENGTH {
        None
    } else {
        match parsed(line) {
            Some((content, meta)) => if selects(query, content, meta) {
                Some(LogItemView { time: meta.time, level: meta.level, content })
            } else {
                None
            },
            None => None,
        }
    }
}

impl LogQuery {
    /// The item of a line with this content and these meta data, if the query looks for it.
    pub fn select(&self, content: &str, meta: &LogMeta) -> (item: Option<LogItem>)
        ensures
            match item {
                Some(item) => selects(self@, content@, meta@) && item@ == (LogItemView {
                    time: meta@.time,
                    level: meta@.level,
                    content: content@,
                }),
                None => !selects(self@, content@, meta@),
            },
    {
        if meta.time == INVALID_TIMESTAMP || meta.time > self.end_time {
            return None;
        }
        if meta.time < self.begin_time {
            return None;
        }
        if self.level.is_some() && !same_level(meta.level, self.level) {
            return None;
        }
        if !self.filter.as_str().is_empty() && !contains(content, self.filter.as_str()) {
            return None;
        }
        Some(LogItem { time: meta.time, level: meta.level, content: content.to_owned() })
    }

    /// The item that the query finds in a line, if any.
    pub fn item(&self, line: &str) -> (item: Option<LogItem>)
        ensures
            match item {
                Some(item) => item_in(self@, line@) == Some(item@),
                None => item_in(self@, line@) is None,
            },
            encode_utf8(line@).len() >= TIMESTAMP_LENGTH ==> time_is_read(line@),
    {
        if line.as_bytes().len() < TIMESTAMP_LENGTH {
            return None;
        }
        match parse(line) {
            Ok((content, meta)) => self.select(content, &meta),
            Err(_) => None,
        }
    }
}

fn same_level(a: Option<Level>, b: Option<Level>) -> (same: bool)
    ensures
        same == (a == b),
{
    match (a, b) {
        (Some(a), Some(b)) => a == b,
        (None, None) => true,
        _ => false,
    }
}

/// The files that start at the given time, in their order.
pub open spec fn starting_at<F>(files: Seq<(i64, F)>, start: i64) -> Seq<(i64, F)> {
    files.filter(|file: (i64, F)| file.0 == start)
}

/// `sorted` holds the same files as `files`, later start times first; files
/// that start at the same time keep their order.
pub open spec fn newest_first<F>(files: Seq<(i64, F)>, sorted: Seq<(i64, F)>) -> bool {
    &&& forall|i: int, j: int| 0 <= i < j < sorted.len() ==> sorted[i].0 >= sorted[j].0
    &&& sorted.to_multiset() == files.to_multiset()
    &&& forall|start: i64| #[trigger] starting_at(sorted, start) == starting_at(files, start)
}

/// Putting a file before those that start no later keeps the order right for
/// that file followed by the others.
proof fn lemma_put_in_order<F>(
    file: (i64, F),
    files: Seq<(i64, F)>,
    sorted: Seq<(i64, F)>,
    at: int,
)
    requires
        newest_first(files, sorted),
        0 <= at <= sorted.len(),
        forall|i: int| 0 <= i < at ==> sorted[i].0 > file.0,
        at < sorted.len() ==> sorted[at].0 <= file.0,
    ensures
        newest_first(seq![file] + files, sorted.insert(at, file)),
{
    let whole = seq![file] + files;
    let result = sorted.insert(at, file);
    let before = sorted.take(at);
    let after = sorted.skip(at);
    assert(result =~= before + (seq![file] + after));
    assert(sorted =~= before + after);
    assert forall|i: int, j: int| 0 <= i < j < result.len() implies result[i].0 >= result[j].0 by {
        let old_i = if i < at { i } else { i - 1 };
        let old_j = if j < at { j } else { j - 1 };
        if i != at && j != at {
            assert(sorted[old_i].0 >= sorted[old_j].0);
        } else if i == at && j > at + 1 {
            assert(sorted[at].0 >= sorted[old_j].0);
        }
    }
    assert(result.to_multiset() == whole.to_multiset()) by {
        broadcast use vstd::seq_lib::group_to_multiset_ensures;

        vstd::seq_lib::lemma_multiset_commutative(seq![file], files);
        vstd::seq_lib::lemma_multiset_commutative(before, after);
        vstd::seq_lib::lemma_multiset_commutative(seq![file], after);
        vstd::seq_lib::lemma_multiset_commutative(before, seq![file] + after);
        assert(result.to_multiset() =~= whole.to_multiset());
    }
    assert forall|start: i64| #[trigger] starting_at(result, start) == starting_at(whole, start) by {
        let pred = |f: (i64, F)| f.0 == start;
        Seq::filter_distributes_over_add(before, seq![file] + after, pred);
        Seq::filter_distributes_over_add(seq![file], after, pred);
        Seq::filter_distributes_over_add(before, after, pred);
        Seq::filter_distributes_over_add(seq![file], files, pred);
        assert(starting_at(sorted, start) == starting_at(files, start));
        let none = if file.0 == start {
            before
        } else {
            seq![file]
        };
        assert(none.filter(pred) =~= Seq::empty()) by {
            if none.filter(pred).len() > 0 {
                none.lemma_filter_pred(pred, 0);
                none.lemma_filter_contains_rev(pred, none.filter(pred)[0]);
            }
        }
    }
}

/// Sorts files by their start times, later ones first.
fn sort_newest_first<F>(files: Vec<(i64, F)>) -> (sorted: Vec<(i64, F)>)
    ensures
        newest_first(files@, sorted@),
{
    let ghost whole = files@;
    let mut left: Vec<(i64, F)> = files;
    let mut sorted: Vec<(i64, F)> = Vec::new();
    assert(whole.skip(left@.len() as int) =~= sorted@);
    loop
        invariant
            whole == files@,
            left@ == whole.take(left@.len() as int),
            left@.len() <= whole.len(),
            newest_first(whole.skip(left@.len() as int), sorted@),
        decreases left@.len(),
    {
        match left.pop() {
            Some(file) => {
                let mut at: usize = 0;
                while at < sorted.len() && sorted[at].0 > file.0
                    invariant
                        0 <= at <= sorted@.len(),
                        forall|i: int| 0 <= i < at ==> sorted@[i].0 > file.0,
                    decreases sorted@.len() - at,
                {
                    at += 1;
                }
                proof {
                    let rest = whole.skip(left@.len() as int + 1);
                    lemma_put_in_order(file, rest, sorted@, at as int);
                    assert(seq![file] + rest =~= whole.skip(left@.len() as int));
                }
                sorted.insert(at, file);
            },
            None => {
                assert(whole.skip(0) =~= whole);
                return sorted;
            },
        }
    }
}

/// The query asks for times around the beginning or around the end of a file
/// with lines from `start` to `end`.
pub open spec fn overlaps(query: LogQueryView, start: i64, end: i64) -> bool {
    ||| query.begin_time < start < query.end_time
    ||| query.begin_time < end < query.end_time
}

/// The choice of the files to search, made while the directory of the logs is walked.
pub struct LogSearch<F> {
    log_dir: String,
    log_name: String,
    query: LogQuery,
    search_files: Vec<(i64, F)>,
}

/// The values of a `LogSearch`.
#[verifier::ext_equal]
pub struct LogSearchView<F> {
    /// The directory to walk.
    pub log_dir: Seq<char>,
    /// What the names of the log files begin with.
    pub log_name: Seq<char>,
    /// What is looked for.
    pub query: LogQueryView,
    /// The files chosen so far, with their start times.
    pub files: Seq<(i64, F)>,
}

impl<F> View for LogSearch<F> {
    type V = LogSearchView<F>;

    closed spec fn view(&self) -> LogSearchView<F> {
        LogSearchView {
            log_dir: self.log_dir@,
            log_name: self.log_name@,
            query: self.query@,
            files: self.search_files@,
        }
    }
}

impl<F> LogSearchView<F> {
    /// An entry of the directory is to be opened: it is a file, and its name,
    /// if it is UTF-8, begins with the name of the log file.
    pub open spec fn wanted(self, is_file: bool, name: Option<Seq<char>>) -> bool {
        is_file && match name {
            Some(name) => self.log_name.is_prefix_of(name),
            None => false,
        }
    }

    /// The start time of a file that is to be searched; `None` for one that is not.
    pub open spec fn covered(self, range: Option<(i64, i64)>) -> Option<i64> {
        match range {
            Some((start, end)) => if overlaps(self.query, start, end) {
                Some(start)
            } else {
                None
            },
            None => None,
        }
    }

    /// The search with one more file.
    pub open spec fn with_file(self, start: i64, file: F) -> LogSearchView<F> {
        LogSearchView { files: self.files.push((start, file)), ..self }
    }
}

impl<F> LogSearch<F> {
    /// Begins to choose the files that belong to the log file at the given path.
    pub fn new(log_file: &str, query: LogQuery) -> (search: Result<LogSearch<F>, LogSearchError>)
        ensures
            match search {
                Ok(search) => {
                    &&& search@.query == query@
                    &&& search@.files == Seq::<(i64, F)>::empty()
                    &&& search@.log_name.len() > 0
                    &&& !search@.log_name.contains('/')
                    &&& occurs_in(search@.log_name, log_file@)
                    &&& search@.log_dir.is_prefix_of(log_file@)
                },
                Err(e) => {
                    ||| e@ == "Illegal file name: "@ + log_file@
                    ||| e@ == "illegal parent dir: "@ + log_file@
                },
            },
            read_alike(log_file@) ==> match search {
                Ok(search) => {
                    &&& names_a_file(log_file@)
                    &&& search@.log_name == last_name(log_file@)
                    &&& lies_in(log_file@, search@.log_dir)
                },
                Err(e) => !names_a_file(log_file@) && e@ == "Illegal file name: "@ + log_file@,
            },
            forall|absolute: bool, names: Seq<Seq<char>>|
                ordinary_names(absolute, names) && log_file@ == #[trigger] written_path(
                    absolute,
                    names,
                ) ==> {
                    if names.len() == 0 {
                        search matches Err(e) && e@ == "Illegal file name: "@ + log_file@
                    } else {
                        search matches Ok(search) && search@ == (LogSearchView::<F> {
                            log_dir: written_path(absolute, names.drop_last()),
                            log_name: names.last(),
                            query: query@,
                            files: Seq::empty(),
                        })
                    }
                },
            forall|absolute: bool, names: Seq<Seq<char>>|
                directory_names(absolute, names) && log_file@ == #[trigger] written_path(
                    absolute,
                    names.push(".."@),
                ) ==> (search matches Err(e) && e@ == "Illegal file name: "@ + log_file@),
    {
        proof {
            let path = log_file@;
            assert forall|absolute: bool, names: Seq<Seq<char>>|
                directory_names(absolute, names) && path == #[trigger] written_path(
                    absolute,
                    names,
                ) implies read_alike(path) && (names.len() > 0 ==> last_name(path) == names.last())
                && (names.len() == 0 ==> last_name(path).len() == 0) by {
                lemma_written_path(absolute, names);
            }
            assert forall|absolute: bool, names: Seq<Seq<char>>|
                directory_names(absolute, names) && path == #[trigger] written_path(
                    absolute,
                    names.push(".."@),
                ) implies read_alike(path) && !names_a_file(path) by {
                reveal_strlit("..");
                reveal_strlit(".");
                lemma_written_path(absolute, names.push(".."@));
            }
        }
        Self::located(log_file, path_file_name(log_file), path_parent(log_file), query)
    }

    /// Begins to choose the files that belong to a log file, given the last
    /// component of its path, if there is one and if it is UTF-8, and the
    /// directory that it lies in, if there is one.
    pub fn located(
        log_file: &str,
        file_name: Option<Option<String>>,
        log_dir: Option<String>,
        query: LogQuery,
    ) -> (search: Result<LogSearch<F>, LogSearchError>)
        ensures
            match (file_name, log_dir) {
                (Some(Some(name)), Some(dir)) => search matches Ok(search) && search@
                    == (LogSearchView::<F> {
                    log_dir: dir@,
                    log_name: name@,
                    query: query@,
                    files: Seq::empty(),
                }),
                (Some(Some(_)), None) => search matches Err(e) && e@ == "illegal parent dir: "@
                    + log_file@,
                (Some(None), _) => search matches Err(e) && e@ == "Invalid utf8: "@ + log_file@,
                (None, _) => search matches Err(e) && e@ == "Illegal file name: "@ + log_file@,
            },
    {
        let log_name: String = match file_name {
            Some(Some(name)) => name,
            Some(None) => return Err(LogSearchError::invalid_utf8(log_file)),
            None => return Err(LogSearchError::illegal_file_name(log_file)),
        };
        let log_dir: String = match log_dir {
            Some(dir) => dir,
            None => return Err(LogSearchError::illegal_parent_dir(log_file)),
        };
        Ok(LogSearch { log_dir, log_name, query, search_files: Vec::new() })
    }

    /// The directory to walk.
    pub fn dir(&self) -> (dir: &str)
        ensures
            dir@ == self@.log_dir,
    {
        self.log_dir.as_str()
    }

    /// Whether an entry of the directory is to be opened, given its name if that is UTF-8.
    pub fn wants(&self, is_file: bool, name: Option<&str>) -> (open: bool)
        ensures
            open == self@.wanted(
                is_file,
                match name {
                    Some(name) => Some(name@),
                    None => None,
                },
            ),
    {
        match name {
            Some(name) => is_file && starts_with(name, self.log_name.as_str()),
            None => false,
        }
    }

    /// The start time of a file that is to be searched, given its time range if
    /// that is known; `None` for a file that is not to be searched.
    pub fn covers(&self, range: &Result<(i64, i64), Error>) -> (start: Option<i64>)
        ensures
            start == self@.covered(
                match *range {
                    Ok(range) => Some(range),
                    Err(_) => None,
                },
            ),
    {
        match range {
            Ok((start, end)) => {
                let begin_time: i64 = self.query.begin_time;
                let end_time: i64 = self.query.end_time;
                if (begin_time < *start && end_time > *start) || (end_time > *end && begin_time
                    < *end) {
                    Some(*start)
                } else {
                    None
                }
            },
            Err(_) => None,
        }
    }

    /// Chooses a file.
    pub fn add_file(&mut self, start: i64, file: F)
        ensures
            final(self)@ == old(self)@.with_file(start, file),
    {
        self.search_files.push((start, file));
    }

    /// Starts to search the files that were chosen.
    pub fn finish(self) -> (search: LogIterator<F>)
        ensures
            search@.query == self@.query,
            search@.current is None ==> search@.pending.len() == 0,
            newest_first(self@.files, search@.remaining()),
    {
        LogIterator::new(self.search_files, self.query)
    }
}

/// What is learnt of one entry while the directory of the logs is walked.
pub struct Probe<F> {
    /// The entry is a file.
    pub is_file: bool,
    /// Its name, if that is UTF-8.
    pub name: Option<String>,
    /// What is learnt from opening it; `None` if it is not or cannot be opened.
    pub opened: Option<Opened<F>>,
}

/// What is learnt from opening a file.
pub struct Opened<F> {
    /// Its time range, or why that is not known.
    pub range: Result<(i64, i64), Error>,
    /// The file, to be read from its beginning; `None` if it cannot be rewound.
    pub file: Option<F>,
}

/// The values of a `Probe`.
pub struct ProbeView<F> {
    /// The entry is a file.
    pub is_file: bool,
    /// Its name, if that is UTF-8.
    pub name: Option<Seq<char>>,
    /// Its time range, if that is known.
    pub range: Option<(i64, i64)>,
    /// The file, if it can be read from its beginning.
    pub file: Option<F>,
}

impl<F> View for Probe<F> {
    type V = ProbeView<F>;

    open spec fn view(&self) -> ProbeView<F> {
        ProbeView {
            is_file: self.is_file,
            name: match self.name {
                Some(name) => Some(name@),
                None => None,
            },
            range: match self.opened {
                Some(opened) => match opened.range {
                    Ok(range) => Some(range),
                    Err(_) => None,
                },
                None => None,
            },
            file: match self.opened {
                Some(opened) => opened.file,
                None => None,
            },
        }
    }
}

/// What visiting one entry makes of a search.
pub open spec fn visited<F>(search: LogSearchView<F>, probe: ProbeView<F>) -> LogSearchView<F> {
    if !search.wanted(probe.is_file, probe.name) {
        search
    } else {
        match (search.covered(probe.range), probe.file) {
            (Some(start), Some(file)) => search.with_file(start, file),
            _ => search,
        }
    }
}

impl<F> LogSearch<F> {
    /// Goes on with the walk: takes in what was learnt of an entry, and chooses its
    /// file if it is one to search. If the walk failed, so does the search.
    pub fn visit(&mut self, entry: Result<Probe<F>, WalkError>) -> (outcome: Result<
        (),
        LogSearchError,
    >)
        ensures
            match entry {
                Ok(probe) => outcome is Ok && final(self)@ == visited(old(self)@, probe@),
                Err(e) => {
                    &&& outcome matches Err(error) && walk_failed(e, error)
                    &&& final(self)@ == old(self)@
                },
            },
    {
        match entry {
            Ok(probe) => {
                self.take_in(probe);
                Ok(())
            },
            Err(e) => Err(LogSearchError::from(e)),
        }
    }

    /// Chooses the file of an entry if it is one to search.
    fn take_in(&mut self, probe: Probe<F>)
        ensures
            final(self)@ == visited(old(self)@, probe@),
    {
        let name: Option<&str> = match &probe.name {
            Some(name) => Some(name.as_str()),
            None => None,
        };
        if !self.wants(probe.is_file, name) {
            return;
        }
        match probe.opened {
            Some(opened) => match (self.covers(&opened.range), opened.file) {
                (Some(start), Some(file)) => self.add_file(start, file),
                _ => {},
            },
            None => {},
        }
    }
}

/// What a walk makes of a search.
pub open spec fn walked<F>(search: LogSearchView<F>, probes: Seq<ProbeView<F>>) -> LogSearchView<F>
    decreases probes.len(),
{
    if probes.len() == 0 {
        search
    } else {
        visited(walked(search, probes.drop_last()), probes.last())
    }
}

/// The file that an entry contributes to a search for `query` in the logs named
/// `log_name`, if any: one of that name that can be read and that overlaps the times.
pub open spec fn chosen<F>(log_name: Seq<char>, query: LogQueryView, probe: ProbeView<F>) -> Option<
    (i64, F),
> {
    match (probe.name, probe.range, probe.file) {
        (Some(name), Some((start, end)), Some(file)) => if probe.is_file && log_name.is_prefix_of(
            name,
        ) && overlaps(query, start, end) {
            Some((start, file))
        } else {
            None
        },
        _ => None,
    }
}

/// A walk chooses exactly the files that belong to the search, in the order of
/// the walk, and changes nothing else.
pub proof fn law_walk_chooses_matching_files<F>(
    search: LogSearchView<F>,
    probes: Seq<ProbeView<F>>,
)
    ensures
        walked(search, probes) == (LogSearchView {
            files: search.files + probes.filter_map(
                |probe: ProbeView<F>| chosen(search.log_name, search.query, probe),
            ),
            ..search
        }),
    decreases probes.len(),
{
    let choice = |probe: ProbeView<F>| chosen(search.log_name, search.query, probe);
    if probes.len() == 0 {
        assert(search.files + probes.filter_map(choice) =~= search.files);
    } else {
        law_walk_chooses_matching_files(search, probes.drop_last());
        let before = walked(search, probes.drop_last());
        match chosen(search.log_name, search.query, probes.last()) {
            Some(file) => {
                assert(before.files.push(file) =~= search.files + (
                probes.drop_last().filter_map(choice) + seq![file]));
            },
            None => {},
        }
        assert(walked(search, probes) =~= (LogSearchView {
            files: search.files + probes.filter_map(choice),
            ..search
        }));
    }
}

/// What came of reading the next line of a file.
#[derive(Debug)]
pub enum LineRead {
    /// A line.
    Line(String),
    /// The line could not be read.
    Failed,
    /// There are no more lines.
    End,
}

/// A search over files of type `F`. Whoever drives it reads the lines of the
/// current file one by one and hands each of them to `advance`.
pub struct LogIterator<F> {
    search_files: Vec<(i64, F)>,
    current: Option<(i64, F)>,
    query: LogQuery,
}

/// The values of a `LogIterator`.
#[verifier::ext_equal]
pub struct LogIteratorView<F> {
    /// The files still to be opened, with their start times; the last one is next.
    pub pending: Seq<(i64, F)>,
    /// The file that is being read, with its start time.
    pub current: Option<(i64, F)>,
    /// What is looked for.
    pub query: LogQueryView,
}

impl<F> View for LogIterator<F> {
    type V = LogIteratorView<F>;

    closed spec fn view(&self) -> LogIteratorView<F> {
        LogIteratorView {
            pending: self.search_files@,
            current: self.current,
            query: self.query@,
        }
    }
}

impl<F> LogIteratorView<F> {
    /// The files that are not yet read to their end; the last one is being read.
    pub open spec fn remaining(self) -> Seq<(i64, F)> {
        match self.current {
            Some(file) => self.pending.push(file),
            None => self.pending,
        }
    }

    /// The same search once its current file is read to the end.
    pub open spec fn next_file(self) -> LogIteratorView<F> {
        if self.pending.len() == 0 {
            LogIteratorView { current: None, ..self }
        } else {
            LogIteratorView {
                pending: self.pending.drop_last(),
                current: Some(self.pending.last()),
                ..self
            }
        }
    }

    /// What the search becomes, and the item that it finds, when its current
    /// file gives `read`. Without a current file nothing happens.
    pub open spec fn advanced(self, read: LineRead) -> (LogIteratorView<F>, Option<LogItemView>) {
        if self.current is None {
            (self, None)
        } else {
            match read {
                LineRead::Line(line) => (self, item_in(self.query, line@)),
                LineRead::Failed => (self, None),
                LineRead::End => (self.next_file(), None),
            }
        }
    }
}

/// If the line that was read writes a moment, that moment is its time.
pub open spec fn read_time_is_read(read: LineRead) -> bool {
    read matches LineRead::Line(line) ==> (encode_utf8(line@).len() >= TIMESTAMP_LENGTH
        ==> time_is_read(line@))
}

impl<F> LogIterator<F> {
    /// Starts to search the given files, each with the time of its first line,
    /// with the oldest.
    pub fn new(search_files: Vec<(i64, F)>, query: LogQuery) -> (search: LogIterator<F>)
        ensures
            search@.query == query@,
            search@.current is None ==> search@.pending.len() == 0,
            newest_first(search_files@, search@.remaining()),
    {
        let mut search_files: Vec<(i64, F)> = sort_newest_first(search_files);
        let ghost sorted = search_files@;
        let current: Option<(i64, F)> = search_files.pop();
        let search: LogIterator<F> = LogIterator { search_files, current, query };
        assert(search@.remaining() =~= sorted);
        search
    }

    /// The file whose next line is wanted; `None` once the search is over.
    pub fn current_file(&mut self) -> (file: Option<&mut F>)
        ensures
            match file {
                Some(file) => {
                    &&& old(self)@.current matches Some((start, was))
                    &&& *file == was
                    &&& final(self)@ == (LogIteratorView {
                        current: Some((start, *final(file))),
                        ..old(self)@
                    })
                },
                None => old(self)@.current is None && final(self)@ == old(self)@,
            },
    {
        match &mut self.current {
            Some(file) => Some(&mut file.1),
            None => None,
        }
    }

    /// Takes in what the current file gave, and returns the item that it holds, if any.
    pub fn advance(&mut self, read: LineRead) -> (item: Option<LogItem>)
        ensures
            final(self)@ == old(self)@.advanced(read).0,
            match item {
                Some(item) => old(self)@.advanced(read).1 == Some(item@),
                None => old(self)@.advanced(read).1 is None,
            },
            item matches Some(item) ==> old(self)@.query.begin_time <= item.time
                <= old(self)@.query.end_time,
            old(self)@.current is Some ==> read_time_is_read(read),
    {
        if self.current.is_none() {
            return None;
        }
        match read {
            LineRead::Line(line) => self.query.item(line.as_str()),
            LineRead::Failed => None,
            LineRead::End => {
                self.current = self.search_files.pop();
                None
            },
        }
    }
}

/// What a search becomes, and the items that it finds, over a run of reads.
pub open spec fn run<F>(search: LogIteratorView<F>, reads: Seq<LineRead>) -> (
    LogIteratorView<F>,
    Seq<LogItemView>,
)
    decreases reads.len(),
{
    if reads.len() == 0 {
        (search, Seq::empty())
    } else {
        let (before, items) = run(search, reads.drop_last());
        let (after, item) = before.advanced(reads.last());
        (
            after,
            match item {
                Some(item) => items + seq![item],
                None => items,
            },
        )
    }
}

/// The item that a query finds in what was read, if any.
pub open spec fn item_read(query: LogQueryView, read: LineRead) -> Option<LogItemView> {
    match read {
        LineRead::Line(line) => item_in(query, line@),
        LineRead::Failed => None,
        LineRead::End => None,
    }
}

/// The items that a query finds in the lines of a file, in their order.
pub open spec fn items_in_file(query: LogQueryView, lines: Seq<LineRead>) -> Seq<LogItemView> {
    lines.filter_map(|read: LineRead| item_read(query, read))
}

/// What is read of one file before its end.
pub open spec fn before_end(lines: Seq<LineRead>) -> bool {
    forall|i: int| 0 <= i < lines.len() ==> !(#[trigger] lines[i] is End)
}

/// Reading files one after another, each to its end.
pub open spec fn whole_files(files: Seq<Seq<LineRead>>) -> Seq<LineRead>
    decreases files.len(),
{
    if files.len() == 0 {
        Seq::empty()
    } else {
        whole_files(files.drop_last()) + files.last().push(LineRead::End)
    }
}

/// The items that a query finds in files, one after another.
pub open spec fn items_in_files(query: LogQueryView, files: Seq<Seq<LineRead>>) -> Seq<LogItemView>
    decreases files.len(),
{
    if files.len() == 0 {
        Seq::empty()
    } else {
        items_in_files(query, files.drop_last()) + items_in_file(query, files.last())
    }
}

/// A search once it has read `n` more files to their end.
pub open spec fn after_files<F>(search: LogIteratorView<F>, n: nat) -> LogIteratorView<F>
    decreases n,
{
    if n == 0 {
        search
    } else {
        after_files(search, (n - 1) as nat).next_file()
    }
}

/// A run of reads can be taken in two parts.
pub proof fn lemma_run_in_two<F>(
    search: LogIteratorView<F>,
    first: Seq<LineRead>,
    second: Seq<LineRead>,
)
    ensures
        run(search, first + second) == ({
            let (between, items) = run(search, first);
            let (after, more) = run(between, second);
            (after, items + more)
        }),
    decreases second.len(),
{
    if second.len() == 0 {
        assert(first + second =~= first);
        let (between, items) = run(search, first);
        assert(items + Seq::<LogItemView>::empty() =~= items);
    } else {
        lemma_run_in_two(search, first, second.drop_last());
        assert((first + second).drop_last() =~= first + second.drop_last());
        let (between, items) = run(search, first);
        let (before_last, more) = run(between, second.drop_last());
        match before_last.advanced(second.last()).1 {
            Some(item) => {
                assert((items + more) + seq![item] =~= items + (more + seq![item]));
            },
            None => {},
        }
    }
}

/// While a file is read, the search stays on it and finds exactly the items of
/// its lines, in their order.
pub proof fn law_lines_of_a_file<F>(search: LogIteratorView<F>, lines: Seq<LineRead>)
    requires
        search.current is Some,
        before_end(lines),
    ensures
        run(search, lines) == (search, items_in_file(search.query, lines)),
    decreases lines.len(),
{
    if lines.len() > 0 {
        let last = lines.last();
        assert(!(lines[lines.len() - 1] is End));
        assert forall|i: int| 0 <= i < lines.drop_last().len() implies !(
        #[trigger] lines.drop_last()[i] is End) by {
            assert(lines.drop_last()[i] == lines[i]);
        }
        law_lines_of_a_file(search, lines.drop_last());
    }
}

/// Every item that a search finds lies between the times that were asked for,
/// whatever is read, and what is asked for does not change.
pub proof fn law_found_items_keep_to_the_times<F>(
    search: LogIteratorView<F>,
    reads: Seq<LineRead>,
)
    ensures
        run(search, reads).0.query == search.query,
        forall|i: int|
            0 <= i < run(search, reads).1.len() ==> search.query.begin_time
                <= (#[trigger] run(search, reads).1[i]).time <= search.query.end_time,
    decreases reads.len(),
{
    if reads.len() > 0 {
        law_found_items_keep_to_the_times(search, reads.drop_last());
    }
}

proof fn lemma_after_files<F>(search: LogIteratorView<F>, n: nat)
    requires
        search.current is None ==> search.pending.len() == 0,
        n <= search.remaining().len(),
    ensures
        ({
            let after = after_files(search, n);
            &&& after.query == search.query
            &&& after.current is None ==> after.pending.len() == 0
            &&& after.remaining() == search.remaining().take(search.remaining().len() - n)
        }),
    decreases n,
{
    if n == 0 {
        assert(search.remaining().take(search.remaining().len() as int) =~= search.remaining());
    } else {
        lemma_after_files(search, (n - 1) as nat);
        let before = after_files(search, (n - 1) as nat);
        assert(before.remaining().len() > 0);
        assert(before.next_file().remaining() =~= before.remaining().drop_last());
        assert(before.remaining().drop_last() =~= search.remaining().take(
            search.remaining().len() - n,
        ));
    }
}

/// Reading the files of a search one after another, each to its end, finds
/// exactly the items of their lines, file by file and line by line, and leaves
/// the files that were not read.
pub proof fn law_search_finds_what_files_hold<F>(
    search: LogIteratorView<F>,
    files: Seq<Seq<LineRead>>,
)
    requires
        search.current is None ==> search.pending.len() == 0,
        files.len() <= search.remaining().len(),
        forall|i: int| 0 <= i < files.len() ==> before_end(#[trigger] files[i]),
    ensures
        run(search, whole_files(files)).1 == items_in_files(search.query, files),
        run(search, whole_files(files)).0 == after_files(search, files.len()),
        run(search, whole_files(files)).0.remaining() == search.remaining().take(
            search.remaining().len() - files.len(),
        ),
    decreases files.len(),
{
    lemma_after_files(search, files.len());
    if files.len() > 0 {
        let rest = files.drop_last();
        let lines = files.last();
        assert forall|i: int| 0 <= i < rest.len() implies before_end(#[trigger] rest[i]) by {
            assert(rest[i] == files[i]);
        }
        law_search_finds_what_files_hold(search, rest);
        let between = after_files(search, rest.len());
        lemma_after_files(search, rest.len());
        assert(between.remaining().len() > 0);
        assert(before_end(files[files.len() - 1]));
        law_lines_of_a_file(between, lines);
        assert(lines.push(LineRead::End).drop_last() =~= lines);
        lemma_run_in_two(search, whole_files(rest), lines.push(LineRead::End));
    }
}

/// A search reads its files in the order of their start times, the oldest first.
pub proof fn law_oldest_file_first<F>(
    files: Seq<(i64, F)>,
    search: LogIteratorView<F>,
    sooner: int,
    later: int,
)
    requires
        newest_first(files, search.remaining()),
        0 <= sooner <= later < search.remaining().len(),
    ensures
        search.remaining()[search.remaining().len() - 1 - sooner].0
            <= search.remaining()[search.remaining().len() - 1 - later].0,
{
}

} // verus!
