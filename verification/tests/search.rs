use std::io;

use status_server::error::{Error, LogSearchError};
use status_server::line::{log_meta, Level, LogItem};
use status_server::page::LogPage;
use status_server::range::{parse_time_range, LineTimes};
use status_server::search::{LineRead, LogIterator, LogQuery, LogSearch, Opened, Probe};

fn query(begin_time: i64, end_time: i64, level: Option<Level>, filter: &str) -> LogQuery {
    LogQuery { begin_time, end_time, level, filter: filter.to_string() }
}

fn everything() -> LogQuery {
    query(0, i64::MAX, None, "")
}

fn line(second: u32, level: &str, content: &str) -> String {
    format!("[1970/01/01 00:00:{:02}.000 +00:00] [{}] [a.rs:1] {}", second, level, content)
}

fn read(second: u32, level: &str, content: &str) -> LineRead {
    LineRead::Line(line(second, level, content))
}

fn found(item: Option<LogItem>) -> Option<(i64, Option<Level>, String)> {
    item.map(|item| (item.time, item.level, item.content))
}

#[test]
fn query_selects_by_time_level_and_content() {
    let q = query(1000, 5000, Some(Level::Info), "needle");
    let item = q.select("a needle", &log_meta(Some(1000), "INFO", "")).unwrap();
    assert_eq!(found(Some(item)), Some((1000, Some(Level::Info), "a needle".to_string())));
    assert!(q.select("a needle", &log_meta(Some(999), "INFO", "")).is_none());
    assert!(q.select("a needle", &log_meta(Some(1000), "WARN", "")).is_none());
    assert!(q.select("a needle", &log_meta(Some(1000), "xxx", "")).is_none());
    assert!(q.select("a noodle", &log_meta(Some(1000), "INFO", "")).is_none());
    assert!(q.select("a needle", &log_meta(None, "INFO", "")).is_none());
    assert!(q.select("a needle", &log_meta(Some(5000), "INFO", "")).is_some());
    assert!(q.select("a needle", &log_meta(Some(5001), "INFO", "")).is_none());
}

#[test]
fn lines_without_a_readable_time_are_not_found() {
    let early = query(-5, 10, None, "");
    assert!(early.select("x", &log_meta(None, "INFO", "")).is_none());
    assert!(early.select("x", &log_meta(Some(-2), "INFO", "")).is_some());
    let earlier = query(-5, -2, None, "");
    assert!(earlier.select("x", &log_meta(None, "INFO", "")).is_none());
    assert!(earlier.select("x", &log_meta(Some(0), "INFO", "")).is_none());
}

#[test]
fn lines_after_the_end_are_not_found() {
    let lines = (1..6).map(|second| read(second, "INFO", "x")).collect();
    let mut search = LogIterator::new(vec![(1000, lines)], query(2000, 4000, None, ""));
    assert_eq!(drain(&mut search), vec!["x", "x", "x"]);
}

#[test]
fn lines_without_a_source_position_are_found() {
    let hello = "[2019/08/23 18:09:52.387 +08:00] [INFO] hello".to_string();
    let warning = "[2019/08/23 18:09:53.387 +08:00] [WARN] INFO line".to_string();
    let range = range_of(vec![Ok(hello.clone()), Ok(warning.clone())]);
    assert_eq!(range.unwrap(), (1566554992387, 1566554993387));
    let range = range_of(vec![Ok(warning.clone()), Ok(hello.clone())]);
    assert_eq!(range.unwrap(), (1566554992387, 1566554993387));
    let mut search = LogIterator::new(vec![(1566554992387, ())], query(0, i64::MAX, None, "INFO"));
    assert!(search.advance(LineRead::Line(hello)).is_none());
    assert_eq!(
        found(search.advance(LineRead::Line(warning))),
        Some((1566554993387, Some(Level::Warning), "INFO line".to_string()))
    );
}

#[test]
fn query_finds_items_in_lines() {
    let q = query(2000, i64::MAX, None, "b");
    assert_eq!(
        found(q.item(&line(2, "WARN", "abc"))),
        Some((2000, Some(Level::Warning), "abc".to_string()))
    );
    assert!(q.item(&line(1, "WARN", "abc")).is_none());
    assert!(q.item(&line(2, "WARN", "ac")).is_none());
    assert!(q.item("too short").is_none());
    assert!(q.item("long enough, but not the layout of a line").is_none());
    // The filter looks at the content alone.
    assert!(query(0, 9, None, "a.rs").item(&line(2, "WARN", "abc")).is_none());
}

fn range_of(reads: Vec<Result<String, io::Error>>) -> Result<(i64, i64), Error> {
    let mut times = LineTimes::new();
    let mut more = true;
    for read in reads {
        let first_is_fine = times.see(read);
        assert!(more || !first_is_fine);
        more = first_is_fine;
    }
    parse_time_range(times)
}

fn range_of_seconds(seconds: &[u32]) -> (i64, i64) {
    range_of(seconds.iter().map(|second| Ok(line(*second, "INFO", "x"))).collect()).unwrap()
}

fn untimed() -> Result<String, io::Error> {
    Ok(format!("[{}] [INFO] x", "x".repeat(30)))
}

fn unparsed() -> Result<String, io::Error> {
    Ok("    at the place of the error above".to_string())
}

fn failed(kind: io::ErrorKind) -> Result<String, io::Error> {
    Err(io::Error::from(kind))
}

#[test]
fn time_range_is_the_smallest_and_the_largest_time() {
    assert_eq!(range_of_seconds(&[3]), (3000, 3000));
    assert_eq!(range_of_seconds(&[3, 4, 4, 9]), (3000, 9000));
    assert_eq!(range_of_seconds(&[9, 3]), (3000, 9000));
    assert_eq!(range_of_seconds(&[5, 9, 1, 6]), (1000, 9000));
}

#[test]
fn time_range_passes_over_lines_between() {
    let five = || Ok(line(5, "INFO", "x"));
    let seven = || Ok(line(7, "INFO", "y"));
    for between in [untimed(), unparsed(), failed(io::ErrorKind::InvalidData)] {
        assert_eq!(range_of(vec![five(), between, seven()]).unwrap(), (5000, 7000));
    }
}

#[test]
fn time_range_of_files_without_times_at_their_ends() {
    let five = || Ok(line(5, "INFO", "x"));
    let seven = || Ok(line(7, "INFO", "y"));
    assert_eq!(range_of(vec![]).unwrap(), (-1, -1));
    assert_eq!(range_of(vec![untimed()]).unwrap(), (-1, -1));
    assert_eq!(range_of(vec![untimed(), seven(), five()]).unwrap(), (-1, 7000));
    assert_eq!(range_of(vec![seven(), five(), untimed()]).unwrap(), (5000, -1));
    let unread = failed(io::ErrorKind::InvalidData);
    assert_eq!(range_of(vec![seven(), five(), unread]).unwrap(), (5000, -1));
}

#[test]
fn time_range_needs_log_lines_at_the_ends() {
    let five = || Ok(line(5, "INFO", "x"));
    for reads in [vec![unparsed()], vec![unparsed(), five()], vec![five(), unparsed()]] {
        assert!(matches!(range_of(reads), Err(Error::ParseError)));
    }
    for rest in [five(), unparsed(), failed(io::ErrorKind::PermissionDenied)] {
        match range_of(vec![failed(io::ErrorKind::BrokenPipe), rest]) {
            Err(Error::IOError(e)) => assert_eq!(e.kind(), io::ErrorKind::BrokenPipe),
            other => panic!("{:?}", other),
        }
    }
    assert!(matches!(Error::from(io::Error::from(io::ErrorKind::Other)), Error::IOError(_)));
}

#[test]
fn a_bad_first_line_ends_the_reading() {
    for first in [unparsed(), failed(io::ErrorKind::InvalidData)] {
        let mut times = LineTimes::new();
        assert!(!times.see(first));
        assert!(!times.see(Ok(line(5, "INFO", "x"))));
    }
    let mut times = LineTimes::new();
    assert!(times.see(untimed()));
    assert!(times.see(unparsed()));
    assert!(times.see(failed(io::ErrorKind::InvalidData)));
}

#[test]
fn entries_are_chosen_by_what_is_learnt_of_them() {
    let mut search: LogSearch<u8> = LogSearch::new("logs/tikv.log", query(10, 20, None, "")).unwrap();
    let mut visit = |is_file, name: Option<&str>, opened| {
        let probe = Probe { is_file, name: name.map(|name| name.to_string()), opened };
        assert!(search.visit(Ok(probe)).is_ok());
    };
    let opened = |range, file| Some(Opened { range, file });
    visit(true, Some("tikv.log"), opened(Ok((15, 30)), Some(1)));
    visit(true, Some("tikv.log.old"), opened(Ok((12, 18)), Some(2)));
    visit(false, Some("tikv.log"), opened(Ok((15, 30)), Some(3)));
    visit(true, Some("other.log"), opened(Ok((15, 30)), Some(4)));
    visit(true, None, opened(Ok((15, 30)), Some(5)));
    visit(true, Some("tikv.log"), None);
    visit(true, Some("tikv.log"), opened(Err(Error::ParseError), Some(6)));
    visit(true, Some("tikv.log"), opened(Ok((30, 40)), Some(7)));
    visit(true, Some("tikv.log"), opened(Ok((15, 30)), None));
    let mut files = vec![];
    let mut search = search.finish();
    while let Some(file) = search.current_file() {
        files.push(*file);
        assert!(search.advance(LineRead::End).is_none());
    }
    assert_eq!(files, vec![2, 1]);
}

#[test]
fn pages_are_the_first_items_left() {
    let page_of = |search: &mut LogIterator<Vec<LineRead>>, limit: usize| {
        let mut page = LogPage::new(limit);
        while !page.is_full() {
            let next = match search.current_file() {
                Some(lines) if lines.is_empty() => LineRead::End,
                Some(lines) => lines.remove(0),
                None => break,
            };
            page.advance(search, next);
        }
        page.into_items().into_iter().map(|item| item.time / 1000).collect::<Vec<i64>>()
    };
    let start = || {
        let lines = (1..8).map(|second| read(second, "INFO", "x")).collect();
        LogIterator::new(vec![(1000, lines)], everything())
    };
    for a in 1..9 {
        for b in 1..9 {
            let mut search = start();
            let mut pages = page_of(&mut search, a);
            assert_eq!(pages.len(), a.min(7));
            pages.extend(page_of(&mut search, b));
            assert_eq!(pages, page_of(&mut start(), a + b));
        }
    }
    assert_eq!(page_of(&mut start(), 0), vec![1]);
}

#[test]
fn files_are_chosen_by_name() {
    let search: LogSearch<u8> = LogSearch::new("/var/log/tikv.log", everything()).unwrap();
    assert_eq!(search.dir(), "/var/log");
    assert!(search.wants(true, Some("tikv.log")));
    assert!(search.wants(true, Some("tikv.log.2019-08-23-18:10:00.387000")));
    assert!(!search.wants(false, Some("tikv.log")));
    assert!(!search.wants(true, Some("a-tikv.log")));
    assert!(!search.wants(true, Some("tikv.lo")));
    assert!(!search.wants(true, None));
}

#[test]
fn log_files_without_a_directory_lie_in_the_empty_one() {
    let search: LogSearch<u8> = LogSearch::new("tikv.log", everything()).unwrap();
    assert_eq!(search.dir(), "");
}

#[test]
fn paths_without_a_file_name_cannot_be_searched() {
    match LogSearch::<u8>::new("/var/log/..", everything()) {
        Err(LogSearchError(text)) => assert_eq!(text, "Illegal file name: /var/log/.."),
        Ok(_) => panic!("a file name was found"),
    }
    let located = |name: Option<Option<&str>>, dir: Option<&str>| {
        LogSearch::<u8>::located(
            "the/path",
            name.map(|name| name.map(|name| name.to_string())),
            dir.map(|dir| dir.to_string()),
            everything(),
        )
    };
    assert_eq!(located(None, None).err().unwrap().0, "Illegal file name: the/path");
    assert_eq!(located(Some(None), Some("the")).err().unwrap().0, "Invalid utf8: the/path");
    assert_eq!(located(Some(Some("path")), None).err().unwrap().0, "illegal parent dir: the/path");
    assert_eq!(located(Some(Some("path")), Some("the")).ok().unwrap().dir(), "the");
}

#[test]
fn files_are_chosen_by_time() {
    let search: LogSearch<u8> = LogSearch::new("l", query(10, 20, None, "")).unwrap();
    assert_eq!(search.covers(&Ok((15, 30))), Some(15));
    assert_eq!(search.covers(&Ok((5, 15))), Some(5));
    assert_eq!(search.covers(&Ok((12, 18))), Some(12));
    assert_eq!(search.covers(&Ok((20, 30))), None);
    assert_eq!(search.covers(&Ok((1, 10))), None);
    assert_eq!(search.covers(&Ok((5, 25))), None);
    assert_eq!(search.covers(&Err(Error::ParseError)), None);
}

#[test]
fn search_errors_as_text() {
    assert_eq!(LogSearchError::walk_directory("cause").0, "walk directory: cause");
    assert_eq!(
        LogSearchError("a \"b\"".to_string()).to_text(),
        format!("{:?}", LogSearchError("a \"b\"".to_string()))
    );
    assert_eq!(LogSearchError::formatted("\"x\""), "LogSearchError(\"x\")");
}

#[test]
fn printable_messages_are_quoted_as_they_are() {
    let message: String =
        (b' '..=b'~').map(char::from).filter(|c| *c != '"' && *c != '\\').collect();
    let text = LogSearchError(message.clone()).to_text();
    assert_eq!(text, ["LogSearchError(\"", message.as_str(), "\")"].concat());
    let error = LogSearch::<u8>::new("..", everything()).err().unwrap();
    assert_eq!(error.to_text(), "LogSearchError(\"Illegal file name: ..\")");
}

#[test]
fn walk_errors_become_search_errors() {
    let error = walkdir::WalkDir::new("/no/such/directory/anywhere")
        .into_iter()
        .next()
        .unwrap()
        .unwrap_err();
    let text = format!("walk directory: {:?}", error);
    assert_eq!(LogSearchError::from(error).0, text);
    let error = walkdir::WalkDir::new("no/such/directory").into_iter().next().unwrap().err().unwrap();
    let mut search: LogSearch<u8> = LogSearch::new("l", everything()).unwrap();
    let text = ["walk directory: ", format!("{:?}", error).as_str()].concat();
    assert_eq!(search.visit(Err(error)).unwrap_err().0, text);
    assert!(search.finish().current_file().is_none());
}

/// Reads files that are lists of lines until the search is over.
fn drain(search: &mut LogIterator<Vec<LineRead>>) -> Vec<String> {
    let mut contents = vec![];
    loop {
        let next = match search.current_file() {
            Some(lines) => {
                if lines.is_empty() {
                    LineRead::End
                } else {
                    lines.remove(0)
                }
            }
            None => return contents,
        };
        if let Some(item) = search.advance(next) {
            contents.push(item.content);
        }
    }
}

#[test]
fn files_are_searched_oldest_first_and_to_their_end() {
    let mut choice: LogSearch<Vec<LineRead>> = LogSearch::new("l", everything()).unwrap();
    choice.add_file(30, vec![read(3, "INFO", "late")]);
    choice.add_file(10, vec![read(1, "INFO", "a"), LineRead::Failed, read(2, "INFO", "b")]);
    choice.add_file(20, vec![LineRead::Line("noise".to_string()), read(2, "INFO", "c")]);
    let mut search = choice.finish();
    assert_eq!(drain(&mut search), ["a", "b", "c", "late"]);
    assert!(search.current_file().is_none());
    assert!(search.advance(read(1, "INFO", "after the end")).is_none());
}

#[test]
fn files_that_start_together_are_read_last_one_first() {
    let file = |content: &str| vec![read(1, "INFO", content)];
    let files = vec![(7, file("first")), (7, file("second")), (7, file("third"))];
    let mut search = LogIterator::new(files, everything());
    assert_eq!(drain(&mut search), ["third", "second", "first"]);
}

#[test]
fn search_without_files_is_over() {
    let mut search: LogIterator<Vec<LineRead>> = LogIterator::new(vec![], everything());
    assert!(search.current_file().is_none());
    assert!(search.advance(LineRead::End).is_none());
}

#[test]
fn pages_hold_as_many_items_as_asked_and_continue() {
    let lines = || (0..5).map(|i| read(i, "INFO", &i.to_string())).collect::<Vec<LineRead>>();
    let mut search = LogIterator::new(vec![(0, lines())], everything());
    let mut page_of = |limit: usize| {
        let mut page = LogPage::new(limit);
        while !page.is_full() {
            let next = match search.current_file() {
                Some(lines) if lines.is_empty() => LineRead::End,
                Some(lines) => lines.remove(0),
                None => break,
            };
            page.advance(&mut search, next);
        }
        page.into_items().into_iter().map(|item| item.content).collect::<Vec<String>>()
    };
    assert_eq!(page_of(2), ["0", "1"]);
    assert_eq!(page_of(0), ["2"]);
    assert_eq!(page_of(100), ["3", "4"]);
    assert_eq!(page_of(100), Vec::<String>::new());
}

#[test]
fn paths_are_split_into_directory_and_name() {
    let cases = [
        ("/tikv.log", "/", "tikv.log"),
        ("tikv.log", "", "tikv.log"),
        ("logs/tikv.log", "logs", "tikv.log"),
        ("/data-1/.cache/tikv_1.log", "/data-1/.cache", "tikv_1.log"),
        ("/my logs/t\u{e4}glich (1)/tikv log", "/my logs/t\u{e4}glich (1)", "tikv log"),
        ("./tikv.log", ".", "tikv.log"),
        ("./logs/tikv.log", "./logs", "tikv.log"),
        ("../logs/tikv.log", "../logs", "tikv.log"),
        ("../tikv.log", "..", "tikv.log"),
        ("a/../../tikv.log", "a/../..", "tikv.log"),
        ("/../tikv.log", "/..", "tikv.log"),
        ("/var/log/tikv.log/", "/var/log", "tikv.log"),
        ("/var/log/tikv.log//./", "/var/log", "tikv.log"),
        ("logs//tikv.log", "logs", "tikv.log"),
        ("logs/./tikv.log/.", "logs", "tikv.log"),
        ("a//b/./../c", "a//b/./..", "c"),
        ("/./tikv.log", "/", "tikv.log"),
        ("././tikv.log", ".", "tikv.log"),
        ("tikv.log/", "", "tikv.log"),
        (".../..a/b.", ".../..a", "b."),
        ("a*b/c\"d\n?", "a*b", "c\"d\n?"),
    ];
    for (path, dir, name) in cases.iter() {
        let search: LogSearch<u8> = LogSearch::new(path, everything()).unwrap();
        assert_eq!(search.dir(), *dir);
        assert!(search.wants(true, Some(name)));
        assert!(!search.wants(true, Some(&name[1..])));
        assert!(!search.wants(true, Some(&name[..name.len() - 1])));
    }
    for path in ["", "/", ".", "./", "./.", "/.", "..", "../", "/..", "logs/..", "logs/.././", "./..", "../.."].iter() {
        match LogSearch::<u8>::new(path, everything()) {
            Err(LogSearchError(text)) => assert_eq!(text, format!("Illegal file name: {}", path)),
            Ok(_) => panic!("{:?} has no file name", path),
        }
    }
}
