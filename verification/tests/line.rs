use nom::bytes::complete::{tag, take, take_until};
use nom::character::complete::{alpha1, space0, space1};
use nom::sequence::tuple;
use nom::IResult;

use status_server::line::{
    log_meta, parse, parse_file, parse_level, parse_time, Level, NoMatch, INVALID_TIMESTAMP,
};

#[test]
fn test_parse_time() {
    assert_eq!(
        parse_time("[2019/08/23 18:09:52.387 +08:00]"),
        Ok(("", "2019/08/23 18:09:52.387 +08:00"))
    );
    assert_eq!(
        parse_time(" [2019/08/23 18:09:52.387 +08:00] ["),
        Ok((" [", "2019/08/23 18:09:52.387 +08:00"))
    );
}

#[test]
fn test_parse_level() {
    assert_eq!(parse_level("[INFO]"), Ok(("", "INFO")));
    assert_eq!(parse_level(" [WARN] ["), Ok((" [", "WARN")));
}

#[test]
fn test_parse_file() {
    assert_eq!(parse_file("[foo.rs:100]"), Ok(("", "foo.rs:100")));
    assert_eq!(parse_file(" [bar.rs:200] ["), Ok((" [", "bar.rs:200")));
}

#[test]
fn test_parse() {
    let cs: Vec<(&str, &str, &str, Option<Level>)> = vec![
        ("[2019/08/23 18:09:52.387 +08:00] [INFO] [foo.rs:100] [some message] [key=val]", "foo.rs:100", "[some message] [key=val]", Some(Level::Info)),
        ("[2019/08/23 18:09:52.387 +08:00]    [INFO] [foo.rs:100] [some message] [key=val]", "foo.rs:100", "[some message] [key=val]", Some(Level::Info)),
        ("[2019/08/23 18:09:52.387 +08:00]    [INFO]     [foo.rs:100] [some message] [key=val]", "foo.rs:100", "[some message] [key=val]", Some(Level::Info)),
        ("   [2019/08/23 18:09:52.387 +08:00]    [INFO]     [foo.rs:100]    [some message] [key=val]", "foo.rs:100", "[some message] [key=val]", Some(Level::Info)),
        ("   [2019/08/23 18:09:52.387 +08:00]    [info]     [foo.rs:100]    [some message] [key=val]", "foo.rs:100", "[some message] [key=val]", Some(Level::Info)),
        ("   [2019/08/23 18:09:52.387 +08:00]    [warning]     [foo.rs:100]    [some message] [key=val]", "foo.rs:100", "[some message] [key=val]", Some(Level::Warning)),
        ("   [2019/08/23 18:09:52.387 +08:00]    [warn]     [foo.rs:100]    [some message] [key=val]", "foo.rs:100", "[some message] [key=val]", Some(Level::Warning)),
        ("   [2019/08/23 18:09:52.387 +08:00]    [xxx]     [foo.rs:100]    [some message] [key=val]", "foo.rs:100", "[some message] [key=val]", None),
    ];
    for (input, file, content, level) in cs.into_iter() {
        let r = parse(input);
        assert!(r.is_ok());
        let log = r.unwrap();
        assert_eq!(log.0, content);
        assert_eq!(log.1.level, level);
        assert_eq!(log.1.file, file);
    }
}

#[test]
fn parsed_time_is_in_milliseconds_since_the_epoch() {
    let (_, meta) = parse("[2019/08/23 18:09:52.387 +08:00] [INFO] [foo.rs:100] x").unwrap();
    assert_eq!(meta.time, 1566554992387);
    let (_, meta) = parse("[1970/01/01 00:00:00.000 +00:00] [INFO] [foo.rs:100] x").unwrap();
    assert_eq!(meta.time, 0);
    let (_, meta) = parse("[1969/12/31 23:59:59.000 +00:00] [INFO] [foo.rs:100] x").unwrap();
    assert_eq!(meta.time, -1000);
}

#[test]
fn unreadable_time_is_invalid() {
    let (content, meta) = parse("[2019/13/23 18:09:52.387 +08:00] [INFO] [foo.rs:100] x").unwrap();
    assert_eq!(content, "x");
    assert_eq!(meta.time, INVALID_TIMESTAMP);
    assert_eq!(meta.time, -1);
    let line = format!("[{}] [INFO] [a] x", "x".repeat(30));
    let (_, meta) = parse(&line).unwrap();
    assert_eq!(meta.time, -1);
}

#[test]
fn lines_of_another_layout_do_not_match() {
    for input in [
        "",
        "x",
        "[2019/08/23 18:09:52.387 +08:00]",
        "[2019/08/23 18:09:52.387 +08:00] [INFO]",
        "[2019/08/23 18:09:52.387 +08:00] [INFO]hello",
        "[2019/08/23 18:09:52.387 +08:00] [INFO][foo.rs:100] x",
        "[2019/08/23 18:09:52.387 +08:00][DEBUG][] x",
        "[2019/08/23 18:09:52.387 +08:00] [] [foo.rs:100] x",
        "[2019/08/23 18:09:52.387 +08:00] [INF0] [foo.rs:100] x",
        "[2019/08/23 18:09:52.387 +08:0] [INFO] [foo.rs:100] x",
    ] {
        assert_eq!(parse(input).err(), Some(NoMatch), "{}", input);
    }
}

#[test]
fn lines_may_lack_a_source_position() {
    for (message, file, content) in [
        ("hello", "", "hello"),
        ("INFO line", "", "INFO line"),
        ("[foo.rs:100]", "", "[foo.rs:100]"),
        ("[foo.rs:100][some message]", "", "[foo.rs:100][some message]"),
        ("[foo.rs:100 x", "", "[foo.rs:100 x"),
        ("x [foo.rs:100] y", "", "x [foo.rs:100] y"),
        ("", "", ""),
        ("[foo.rs:100] ", "foo.rs:100", ""),
        ("[foo.rs:100] hello", "foo.rs:100", "hello"),
        ("[] hello", "", "hello"),
    ] {
        let line = format!("[2019/08/23 18:09:52.387 +08:00] [INFO] {}", message);
        let (found, meta) = parse(&line).unwrap();
        assert_eq!(found, content, "{}", line);
        assert_eq!(meta.file, file, "{}", line);
        assert_eq!((meta.time, meta.level), (1566554992387, Some(Level::Info)));
    }
}

#[test]
fn content_may_be_empty_and_time_and_level_may_touch() {
    let (content, meta) = parse("[2019/08/23 18:09:52.387 +08:00][DEBUG]\t[] \t ").unwrap();
    assert_eq!(content, "");
    assert_eq!(meta.file, "");
    assert_eq!(meta.level, Some(Level::Debug));
}

#[test]
fn timestamps_are_measured_in_characters() {
    let thirty = "\u{e9}".repeat(30);
    let line = format!("[{}] rest", thirty);
    assert_eq!(parse_time(&line), Ok((" rest", thirty.as_str())));
    assert_eq!(parse_time(&format!("[{}]", "\u{e9}".repeat(15))), Err(NoMatch));
}

#[test]
fn level_names() {
    assert_eq!(Level::from_str("trace"), Some(Level::Trace));
    assert_eq!(Level::from_str("TRACE"), Some(Level::Trace));
    assert_eq!(Level::from_str("debug"), Some(Level::Debug));
    assert_eq!(Level::from_str("DEBUG"), Some(Level::Debug));
    assert_eq!(Level::from_str("info"), Some(Level::Info));
    assert_eq!(Level::from_str("INFO"), Some(Level::Info));
    assert_eq!(Level::from_str("warn"), Some(Level::Warning));
    assert_eq!(Level::from_str("WARN"), Some(Level::Warning));
    assert_eq!(Level::from_str("warning"), Some(Level::Warning));
    assert_eq!(Level::from_str("WARNING"), Some(Level::Warning));
    assert_eq!(Level::from_str("error"), Some(Level::Error));
    assert_eq!(Level::from_str("ERROR"), Some(Level::Error));
    assert_eq!(Level::from_str("critical"), Some(Level::Critical));
    assert_eq!(Level::from_str("CRITICAL"), Some(Level::Critical));
    for name in ["", "Info", "iNFO", "info ", "fatal", "warnin"] {
        assert_eq!(Level::from_str(name), None, "{}", name);
    }
}

#[test]
fn meta_from_its_parts() {
    let meta = log_meta(Some(7), "ERROR", "a.rs:1");
    assert_eq!((meta.time, meta.level, meta.file.as_str()), (7, Some(Level::Error), "a.rs:1"));
    let meta = log_meta(None, "none", "");
    assert_eq!((meta.time, meta.level, meta.file.as_str()), (-1, None, ""));
}

fn nom_time(input: &str) -> IResult<&str, &str> {
    let (input, (_, _, time, _)) = tuple((space0, tag("["), take(30usize), tag("]")))(input)?;
    Ok((input, time))
}

fn nom_level(input: &str) -> IResult<&str, &str> {
    let (input, (_, _, level, _)) = tuple((space0, tag("["), alpha1, tag("]")))(input)?;
    Ok((input, level))
}

fn nom_file(input: &str) -> IResult<&str, &str> {
    let (input, (_, _, file, _)) = tuple((space0, tag("["), take_until("]"), tag("]")))(input)?;
    Ok((input, file))
}

fn nom_line(input: &str) -> IResult<&str, (&str, &str, &str)> {
    let (message, (time, level, _)) = tuple((nom_time, nom_level, space1))(input)?;
    let positioned: IResult<&str, (&str, &str)> = tuple((nom_file, space1))(message);
    match positioned {
        Ok((content, (file, _))) => Ok((content, (time, level, file))),
        Err(_) => Ok((message, (time, level, ""))),
    }
}

#[test]
fn fields_agree_with_combinators() {
    let pieces = [
        "", " ", "\t", "[", "]", "[]", "[INFO]", "[a1]", "[ab", "INFO]", "[\u{e9}]", "[a.rs:1]",
        "[2019/08/23 18:09:52.387 +08:00]", "[2019/08/23 18:09:52.387 +08:00", "x", "\u{3000}",
    ];
    for a in pieces {
        for b in pieces {
            for c in pieces {
                let input = format!("{}{}{}", a, b, c);
                assert_eq!(parse_time(&input).ok(), nom_time(&input).ok(), "{}", input);
                assert_eq!(parse_level(&input).ok(), nom_level(&input).ok(), "{}", input);
                assert_eq!(parse_file(&input).ok(), nom_file(&input).ok(), "{}", input);
                for d in ["", "[INFO]"] {
                    let line = format!(
                        "{}[2019/08/23 18:09:52.387 +08:00]{}{}{}{} tail",
                        a, d, b, c, a
                    );
                    let found = parse(&line).ok().map(|(content, meta)| (content, meta.file));
                    let expected = nom_line(&line)
                        .ok()
                        .map(|(content, (_, _, file))| (content, file.to_string()));
                    assert_eq!(found, expected, "{}", line);
                }
            }
        }
    }
}

fn time_of(stamp: &str) -> i64 {
    let line = format!("[{}] [INFO] [a.rs:1] text", stamp);
    parse(&line).unwrap().1.time
}

fn days_before_year(year: i64) -> i64 {
    365 * year + (year + 3) / 4 - (year + 99) / 100 + (year + 399) / 400
}

#[test]
fn timestamps_are_read_as_unix_milliseconds() {
    assert_eq!(time_of("2019/08/23 18:09:52.387 +08:00"), 1_566_554_992_387);
    assert_eq!(time_of("1970/01/01 00:00:00.000 +00:00"), 0);
    assert_eq!(time_of("1969/12/31 23:59:59.999 -00:00"), -1);
    assert_eq!(time_of("1970/01/01 00:00:00.001 -23:59"), 86_340_001);
    assert_eq!(time_of("0000/01/01 00:00:00.000 +23:59"), -719_528 * 86_400_000 - 86_340_000);
    assert_eq!(time_of("9999/12/31 23:59:59.999 +00:00"), 253_402_300_799_999);
    for stamp in ["2019/02/29 00:00:00.000 +00:00", "2019/13/01 00:00:00.000 +00:00", "2019-08-23 18:09:52.387 +08:00"] {
        assert_eq!(time_of(stamp), -1);
    }
}

#[test]
fn timestamps_follow_the_gregorian_calendar() {
    for year in (0i64..10000).filter(|year| year % 7 == 0 || year % 100 < 2) {
        let leap = year % 4 == 0 && (year % 100 != 0 || year % 400 == 0);
        let mut days = days_before_year(year) - days_before_year(1970);
        for month in 1..13 {
            let length = match month {
                2 if leap => 29,
                2 => 28,
                4 | 6 | 9 | 11 => 30,
                _ => 31,
            };
            for day in [1, length] {
                let stamp = format!("{:04}/{:02}/{:02} 07:08:09.010 -03:30", year, month, day);
                let minutes = ((days + day - 1) * 24 + 7) * 60 + 8 + 3 * 60 + 30;
                assert_eq!(time_of(&stamp), (minutes * 60 + 9) * 1000 + 10, "{}", stamp);
            }
            days += length;
        }
        assert_eq!(days, days_before_year(year + 1) - days_before_year(1970));
    }
}
