//! The layout of one log line: `[time] [level] [file] content`, where `[file]`
//! may be missing.

use vstd::prelude::*;

use crate::text::{chars_of, same_text};
use crate::time::{
    date_time_millis, read_date_time, stamps_are_read, Stamp, TIMESTAMP_FORMAT,
};

verus! {

/// How many characters a timestamp takes between its brackets.
pub const TIMESTAMP_LENGTH: usize = 30;

/// The time of a line whose timestamp cannot be read.
pub const INVALID_TIMESTAMP: i64 = -1;

/// The severity of a log line.
#[derive(Debug, Clone, Copy, PartialEq, Eq, Structural)]
pub enum Level {
    /// Critical
    Critical,
    /// Error
    Error,
    /// Warning
    Warning,
    /// Info
    Info,
    /// Debug
    Debug,
    /// Trace
    Trace,
}

/// The level that a name stands for, written all in small letters or all in capitals.
pub open spec fn level_named(name: Seq<char>) -> Option<Level> {
    if name == "trace"@ || name == "TRACE"@ {
        Some(Level::Trace)
    } else if name == "debug"@ || name == "DEBUG"@ {
        Some(Level::Debug)
    } else if name == "info"@ || name == "INFO"@ {
        Some(Level::Info)
    } else if name == "warn"@ || name == "WARN"@ || name == "warning"@ || name == "WARNING"@ {
        Some(Level::Warning)
    } else if name == "error"@ || name == "ERROR"@ {
        Some(Level::Error)
    } else if name == "critical"@ || name == "CRITICAL"@ {
        Some(Level::Critical)
    } else {
        None
    }
}

impl Level {
    /// The level of the given name, if it names one.
    pub fn from_str(input: &str) -> (level: Option<Level>)
        ensures
            level == level_named(input@),
    {
        if same_text(input, "trace") || same_text(input, "TRACE") {
            Some(Level::Trace)
        } else if same_text(input, "debug") || same_text(input, "DEBUG") {
            Some(Level::Debug)
        } else if same_text(input, "info") || same_text(input, "INFO") {
            Some(Level::Info)
        } else if same_text(input, "warn") || same_text(input, "WARN") || same_text(
            input,
            "warning",
        ) || same_text(input, "WARNING") {
            Some(Level::Warning)
        } else if same_text(input, "error") || same_text(input, "ERROR") {
            Some(Level::Error)
        } else if same_text(input, "critical") || same_text(input, "CRITICAL") {
            Some(Level::Critical)
        } else {
            None
        }
    }
}

/// A text does not have the layout that was looked for.
#[derive(Debug, Clone, Copy, PartialEq, Eq)]
pub struct NoMatch;

/// The characters that a part of a line is made of.
#[derive(Clone, Copy)]
pub enum Class {
    /// A space or a tab.
    Blank,
    /// One of the letters of ASCII.
    Letter,
    /// Anything but a closing bracket.
    Inside,
}

/// `c` belongs to `class`.
pub open spec fn in_class(c: char, class: Class) -> bool {
    match class {
        Class::Blank => c == ' ' || c == '\t',
        Class::Letter => ('a' <= c && c <= 'z') || ('A' <= c && c <= 'Z'),
        Class::Inside => c != ']',
    }
}

/// How many characters of `class` stand at the beginning of `s`.
pub open spec fn leading(s: Seq<char>, class: Class) -> nat
    decreases s.len(),
{
    if s.len() > 0 && in_class(s[0], class) {
        1 + leading(s.skip(1), class)
    } else {
        0
    }
}

/// `s` without the blanks at its beginning.
pub open spec fn unindented(s: Seq<char>) -> Seq<char> {
    s.skip(leading(s, Class::Blank) as int)
}

/// A bracketed field at the beginning of `s`, after blanks, whose inside has
/// `length` characters: what follows the field, and its inside.
pub open spec fn field_of_length(s: Seq<char>, length: int) -> Option<(Seq<char>, Seq<char>)> {
    let r = unindented(s);
    if r.len() >= length + 2 && r[0] == '[' && r[length + 1] == ']' {
        Some((r.skip(length + 2), r.subrange(1, length + 1)))
    } else {
        None
    }
}

/// The timestamp at the beginning of `s`, and what follows it.
pub open spec fn time_field(s: Seq<char>) -> Option<(Seq<char>, Seq<char>)> {
    field_of_length(s, TIMESTAMP_LENGTH as int)
}

/// The level name at the beginning of `s`, which is letters only and not empty,
/// and what follows it.
pub open spec fn level_field(s: Seq<char>) -> Option<(Seq<char>, Seq<char>)> {
    let length = leading(unindented(s).skip(1), Class::Letter);
    if length > 0 {
        field_of_length(s, length as int)
    } else {
        None
    }
}

/// The source position at the beginning of `s`, which reaches to the first
/// closing bracket, and what follows it.
pub open spec fn file_field(s: Seq<char>) -> Option<(Seq<char>, Seq<char>)> {
    field_of_length(s, leading(unindented(s).skip(1), Class::Inside) as int)
}

proof fn lemma_leading(s: Seq<char>, class: Class, n: nat)
    requires
        n <= s.len(),
        forall|i: int| 0 <= i < n ==> in_class(#[trigger] s[i], class),
        n < s.len() ==> !in_class(s[n as int], class),
    ensures
        leading(s, class) == n,
    decreases n,
{
    if n > 0 {
        assert forall|i: int| 0 <= i < n - 1 implies in_class(
            #[trigger] s.skip(1)[i],
            class,
        ) by {
            assert(s.skip(1)[i] == s[i + 1]);
        }
        lemma_leading(s.skip(1), class, (n - 1) as nat);
    }
}

fn is_in_class(c: char, class: Class) -> (yes: bool)
    ensures
        yes == in_class(c, class),
{
    match class {
        Class::Blank => c == ' ' || c == '\t',
        Class::Letter => ('a' <= c && c <= 'z') || ('A' <= c && c <= 'Z'),
        Class::Inside => c != ']',
    }
}

/// How many characters of `class` stand at position `from`.
fn count_leading(chars: &Vec<char>, from: usize, class: Class) -> (n: usize)
    requires
        from <= chars@.len(),
    ensures
        n == leading(chars@.skip(from as int), class),
        from + n <= chars@.len(),
{
    let ghost s = chars@.skip(from as int);
    let mut n: usize = 0;
    while from + n < chars.len() && is_in_class(chars[from + n], class)
        invariant
            s == chars@.skip(from as int),
            from + n <= chars.len(),
            forall|i: int| 0 <= i < n ==> in_class(#[trigger] s[i], class),
        ensures
            n < s.len() ==> !in_class(s[n as int], class),
        decreases chars@.len() - from - n,
    {
        assert(s[n as int] == chars@[from + n]);
        n += 1;
    }
    proof {
        lemma_leading(s, class, n as nat);
    }
    n
}

/// The field whose opening bracket would stand at `from` and whose inside has
/// `length` characters.
fn take_field<'a>(input: &'a str, chars: &Vec<char>, from: usize, length: usize) -> (field: Result<
    (&'a str, &'a str),
    NoMatch,
>)
    requires
        chars@ == input@,
        from == leading(input@, Class::Blank),
        from <= chars@.len(),
    ensures
        match field {
            Ok((rest, inside)) => field_of_length(input@, length as int) == Some(
                (rest@, inside@),
            ),
            Err(_) => field_of_length(input@, length as int) is None,
        },
{
    let count: usize = chars.len();
    if count - from < 2 || count - from - 2 < length || chars[from] != '[' || chars[from + length
        + 1] != ']' {
        return Err(NoMatch);
    }
    let rest: &'a str = input.substring_char(from + length + 2, count);
    let inside: &'a str = input.substring_char(from + 1, from + length + 1);
    proof {
        let r = unindented(input@);
        assert(rest@ =~= r.skip(length + 2));
        assert(inside@ =~= r.subrange(1, length + 1));
    }
    Ok((rest, inside))
}

/// Takes the timestamp off the beginning of a line: what follows it, and the
/// text between its brackets.
pub fn parse_time<'a>(input: &'a str) -> (field: Result<(&'a str, &'a str), NoMatch>)
    ensures
        match field {
            Ok((rest, time)) => time_field(input@) == Some((rest@, time@)),
            Err(_) => time_field(input@) is None,
        },
{
    let chars: Vec<char> = chars_of(input);
    assert(chars@.skip(0) =~= chars@);
    let from: usize = count_leading(&chars, 0, Class::Blank);
    take_field(input, &chars, from, TIMESTAMP_LENGTH)
}

/// Takes the level name off the beginning of a line: what follows it, and the
/// name between its brackets.
pub fn parse_level<'a>(input: &'a str) -> (field: Result<(&'a str, &'a str), NoMatch>)
    ensures
        match field {
            Ok((rest, level)) => level_field(input@) == Some((rest@, level@)),
            Err(_) => level_field(input@) is None,
        },
{
    let chars: Vec<char> = chars_of(input);
    assert(chars@.skip(0) =~= chars@);
    let from: usize = count_leading(&chars, 0, Class::Blank);
    if from == chars.len() {
        return Err(NoMatch);
    }
    assert(chars@.skip(from + 1) =~= unindented(input@).skip(1));
    let length: usize = count_leading(&chars, from + 1, Class::Letter);
    if length == 0 {
        return Err(NoMatch);
    }
    take_field(input, &chars, from, length)
}

/// Takes the source position off the beginning of a line: what follows it, and
/// the text between its brackets.
pub fn parse_file<'a>(input: &'a str) -> (field: Result<(&'a str, &'a str), NoMatch>)
    ensures
        match field {
            Ok((rest, file)) => file_field(input@) == Some((rest@, file@)),
            Err(_) => file_field(input@) is None,
        },
{
    let chars: Vec<char> = chars_of(input);
    assert(chars@.skip(0) =~= chars@);
    let from: usize = count_leading(&chars, 0, Class::Blank);
    if from == chars.len() {
        return Err(NoMatch);
    }
    assert(chars@.skip(from + 1) =~= unindented(input@).skip(1));
    let length: usize = count_leading(&chars, from + 1, Class::Inside);
    take_field(input, &chars, from, length)
}

/// What stands before the content of a line.
#[derive(Debug)]
pub struct LogMeta {
    /// Milliseconds since the Unix epoch, `INVALID_TIMESTAMP` if they cannot be read.
    pub time: i64,
    /// The level, if its name is one that is known.
    pub level: Option<Level>,
    /// The position in the source; empty if the line gives none.
    pub file: String,
}

/// A line that a log search found.
#[derive(Debug)]
pub struct LogItem {
    /// Milliseconds since the Unix epoch, `INVALID_TIMESTAMP` if they cannot be read.
    pub time: i64,
    /// The level, if its name is one that is known.
    pub level: Option<Level>,
    /// What follows the level and the position in the source.
    pub content: String,
}

/// The values of a `LogMeta`.
pub struct LogMetaView {
    pub time: i64,
    pub level: Option<Level>,
    pub file: Seq<char>,
}

/// The values of a `LogItem`.
pub struct LogItemView {
    pub time: i64,
    pub level: Option<Level>,
    pub content: Seq<char>,
}

impl View for LogMeta {
    type V = LogMetaView;

    open spec fn view(&self) -> LogMetaView {
        LogMetaView { time: self.time, level: self.level, file: self.file@ }
    }
}

impl View for LogItem {
    type V = LogItemView;

    open spec fn view(&self) -> LogItemView {
        LogItemView { time: self.time, level: self.level, content: self.content@ }
    }
}

/// The parts of a line as they are written.
pub struct LineView {
    pub time: Seq<char>,
    pub level: Seq<char>,
    pub file: Option<Seq<char>>,
    pub content: Seq<char>,
}

/// The source position, if there is one, and the content of what a line says
/// after its level: a bracketed field with a blank behind it is a source position.
pub open spec fn message_of(s: Seq<char>) -> (Option<Seq<char>>, Seq<char>) {
    match file_field(s) {
        Some((rest, file)) => if leading(rest, Class::Blank) > 0 {
            (Some(file), unindented(rest))
        } else {
            (None, s)
        },
        None => (None, s),
    }
}

/// The parts of a line: two bracketed fields, then at least one blank, then
/// possibly a source position, then the content.
pub open spec fn line_of(s: Seq<char>) -> Option<LineView> {
    match time_field(s) {
        None => None,
        Some((after_time, time)) => match level_field(after_time) {
            None => None,
            Some((after_level, level)) => if leading(after_level, Class::Blank) > 0 {
                let (file, content) = message_of(unindented(after_level));
                Some(LineView { time, level, file, content })
            } else {
                None
            },
        },
    }
}

/// What is known of a line from its fields and from the milliseconds that its
/// timestamp stands for, if it could be read.
pub open spec fn meta_of(line: LineView, millis: Option<i64>) -> LogMetaView {
    LogMetaView {
        time: match millis {
            Some(time) => time,
            None => INVALID_TIMESTAMP,
        },
        level: level_named(line.level),
        file: match line.file {
            Some(file) => file,
            None => Seq::empty(),
        },
    }
}

/// The content and the meta data of a line.
pub open spec fn parsed(s: Seq<char>) -> Option<(Seq<char>, LogMetaView)> {
    match line_of(s) {
        Some(line) => Some(
            (line.content, meta_of(line, date_time_millis(line.time, TIMESTAMP_FORMAT@))),
        ),
        None => None,
    }
}

/// If the line writes a moment, that moment is its time.
pub open spec fn time_is_read(s: Seq<char>) -> bool {
    line_of(s) matches Some(line) ==> stamps_are_read(line.time)
}

/// The meta data of a line with the given level name and source position, whose
/// timestamp stands for `millis`, or could not be read.
pub fn log_meta(millis: Option<i64>, level: &str, file: &str) -> (meta: LogMeta)
    ensures
        meta.time == match millis {
            Some(time) => time,
            None => INVALID_TIMESTAMP,
        },
        meta.level == level_named(level@),
        meta.file@ == file@,
{
    LogMeta {
        time: match millis {
            Some(time) => time,
            None => INVALID_TIMESTAMP,
        },
        level: Level::from_str(level),
        file: file.to_owned(),
    }
}

/// Takes the blanks off the beginning of a text; `None` if there are none.
fn skip_blanks<'a>(input: &'a str) -> (rest: Option<&'a str>)
    ensures
        match rest {
            Some(rest) => leading(input@, Class::Blank) > 0 && rest@ == unindented(input@),
            None => leading(input@, Class::Blank) == 0,
        },
{
    let chars: Vec<char> = chars_of(input);
    assert(chars@.skip(0) =~= chars@);
    let gap: usize = count_leading(&chars, 0, Class::Blank);
    if gap == 0 {
        None
    } else {
        Some(input.substring_char(gap, chars.len()))
    }
}

/// Splits what a line says after its level into the source position, empty if
/// there is none, and the content.
fn split_message<'a>(message: &'a str) -> (parts: (&'a str, &'a str))
    ensures
        parts.0@ == match message_of(message@).0 {
            Some(file) => file,
            None => Seq::empty(),
        },
        parts.1@ == message_of(message@).1,
{
    proof {
        reveal_strlit("");
        assert(""@ =~= Seq::<char>::empty());
    }
    match parse_file(message) {
        Ok((rest, file)) => match skip_blanks(rest) {
            Some(content) => (file, content),
            None => ("", message),
        },
        Err(_) => ("", message),
    }
}

/// Parses a single log line and retrieves its content and its meta data.
pub fn parse<'a>(input: &'a str) -> (line: Result<(&'a str, LogMeta), NoMatch>)
    ensures
        match line {
            Ok((content, meta)) => parsed(input@) == Some((content@, meta@)),
            Err(_) => parsed(input@) is None,
        },
        time_is_read(input@),
{
    let (after_time, time): (&'a str, &'a str) = match parse_time(input) {
        Ok(field) => field,
        Err(e) => return Err(e),
    };
    let (after_level, level): (&'a str, &'a str) = match parse_level(after_time) {
        Ok(field) => field,
        Err(e) => return Err(e),
    };
    let message: &'a str = match skip_blanks(after_level) {
        Some(message) => message,
        None => return Err(NoMatch),
    };
    let (file, content): (&'a str, &'a str) = split_message(message);
    let meta: LogMeta = log_meta(read_date_time(time, TIMESTAMP_FORMAT), level, file);
    Ok((content, meta))
}

/// Every character of `s` belongs to `class`.
pub open spec fn made_of(s: Seq<char>, class: Class) -> bool {
    forall|i: int| 0 <= i < s.len() ==> in_class(#[trigger] s[i], class)
}

/// The inside of a field between its brackets.
pub open spec fn bracketed(inside: Seq<char>) -> Seq<char> {
    seq!['['] + inside + seq![']']
}

/// A line as it is written, with the blanks that stand before each of its parts.
pub open spec fn written(line: LineView, gaps: (Seq<char>, Seq<char>, Seq<char>, Seq<char>)) -> Seq<
    char,
> {
    gaps.0 + bracketed(line.time) + gaps.1 + bracketed(line.level) + gaps.2 + match line.file {
        Some(file) => bracketed(file) + gaps.3 + line.content,
        None => line.content,
    }
}

/// The parts can be told apart once they are written, and the gaps are blanks.
/// Without a source position there is no last gap, and the content does not
/// begin like a source position.
pub open spec fn well_formed(
    line: LineView,
    gaps: (Seq<char>, Seq<char>, Seq<char>, Seq<char>),
) -> bool {
    &&& line.time.len() == TIMESTAMP_LENGTH
    &&& line.level.len() > 0 && made_of(line.level, Class::Letter)
    &&& line.content.len() > 0 ==> !in_class(line.content[0], Class::Blank)
    &&& made_of(gaps.0, Class::Blank)
    &&& made_of(gaps.1, Class::Blank)
    &&& gaps.2.len() > 0 && made_of(gaps.2, Class::Blank)
    &&& match line.file {
        Some(file) => {
            &&& made_of(file, Class::Inside)
            &&& gaps.3.len() > 0 && made_of(gaps.3, Class::Blank)
        },
        None => gaps.3.len() == 0 && message_of(line.content).0 is None,
    }
}

pub(crate) proof fn lemma_unindented(gap: Seq<char>, rest: Seq<char>)
    requires
        made_of(gap, Class::Blank),
        rest.len() > 0 ==> !in_class(rest[0], Class::Blank),
    ensures
        leading(gap + rest, Class::Blank) == gap.len(),
        unindented(gap + rest) == rest,
{
    let s = gap + rest;
    assert forall|i: int| 0 <= i < gap.len() implies in_class(#[trigger] s[i], Class::Blank) by {
        assert(s[i] == gap[i]);
    }
    lemma_leading(s, Class::Blank, gap.len());
    assert(s.skip(gap.len() as int) =~= rest);
}

pub(crate) proof fn lemma_field(gap: Seq<char>, inside: Seq<char>, rest: Seq<char>)
    requires
        made_of(gap, Class::Blank),
    ensures
        unindented(gap + bracketed(inside) + rest) == bracketed(inside) + rest,
        field_of_length(gap + bracketed(inside) + rest, inside.len() as int) == Some(
            (rest, inside),
        ),
{
    let r = bracketed(inside) + rest;
    assert(gap + bracketed(inside) + rest =~= gap + r);
    lemma_unindented(gap, r);
    assert(r.skip(inside.len() as int + 2) =~= rest);
    assert(r.subrange(1, inside.len() as int + 1) =~= inside);
}

pub(crate) proof fn lemma_inside(inside: Seq<char>, rest: Seq<char>, class: Class)
    requires
        made_of(inside, class),
        class != Class::Blank,
    ensures
        leading((bracketed(inside) + rest).skip(1), class) == inside.len(),
{
    let s = (bracketed(inside) + rest).skip(1);
    assert forall|i: int| 0 <= i < inside.len() implies in_class(#[trigger] s[i], class) by {
        assert(s[i] == inside[i]);
    }
    assert(s[inside.len() as int] == ']');
    lemma_leading(s, class, inside.len());
}

/// What a line says after its level is split into the parts that it is written
/// from, and does not begin with a blank.
proof fn lemma_message_written(file: Option<Seq<char>>, gap: Seq<char>, content: Seq<char>)
    requires
        content.len() > 0 ==> !in_class(content[0], Class::Blank),
        match file {
            Some(file) => {
                &&& made_of(file, Class::Inside)
                &&& gap.len() > 0 && made_of(gap, Class::Blank)
            },
            None => message_of(content).0 is None,
        },
    ensures
        ({
            let message = match file {
                Some(file) => bracketed(file) + gap + content,
                None => content,
            };
            &&& message_of(message) == (file, content)
            &&& message.len() > 0 ==> !in_class(message[0], Class::Blank)
        }),
{
    match file {
        Some(file) => {
            let message = bracketed(file) + gap + content;
            let rest = gap + content;
            let none = Seq::<char>::empty();
            assert(none + bracketed(file) + rest =~= message);
            assert(bracketed(file) + rest =~= message);
            lemma_field(none, file, rest);
            lemma_inside(file, rest, Class::Inside);
            assert(file_field(message) == Some((rest, file)));
            lemma_unindented(gap, content);
            assert(message[0] == '[');
        },
        None => {},
    }
}

/// A line that is written from its parts is parsed into those parts, whatever
/// blanks stand between them.
#[verifier::spinoff_prover]
pub proof fn law_written_lines_parse(
    line: LineView,
    gaps: (Seq<char>, Seq<char>, Seq<char>, Seq<char>),
)
    requires
        well_formed(line, gaps),
    ensures
        line_of(written(line, gaps)) == Some(line),
{
    let message = match line.file {
        Some(file) => bracketed(file) + gaps.3 + line.content,
        None => line.content,
    };
    let after_level = gaps.2 + message;
    let after_time = gaps.1 + bracketed(line.level) + after_level;
    assert(written(line, gaps) =~= gaps.0 + bracketed(line.time) + after_time);
    lemma_field(gaps.0, line.time, after_time);
    assert(time_field(written(line, gaps)) == Some((after_time, line.time)));
    lemma_field(gaps.1, line.level, after_level);
    lemma_inside(line.level, after_level, Class::Letter);
    assert(level_field(after_time) == Some((after_level, line.level)));
    lemma_message_written(line.file, gaps.3, line.content);
    lemma_unindented(gaps.2, message);
}

/// A line that is written at a moment is parsed with the milliseconds of that
/// moment as its time, its level if that is known, its source position and its content.
pub proof fn law_written_moments_are_read(
    stamp: Stamp,
    line: LineView,
    gaps: (Seq<char>, Seq<char>, Seq<char>, Seq<char>),
)
    requires
        stamp.valid(),
        line.time == stamp.text(),
        well_formed(line, gaps),
        time_is_read(written(line, gaps)),
    ensures
        parsed(written(line, gaps)) == Some(
            (line.content, meta_of(line, Some(stamp.millis() as i64))),
        ),
{
    law_written_lines_parse(line, gaps);
}

pub(crate) proof fn lemma_leading_is_longest(s: Seq<char>, class: Class)
    ensures
        leading(s, class) <= s.len(),
        made_of(s.take(leading(s, class) as int), class),
        leading(s, class) < s.len() ==> !in_class(s[leading(s, class) as int], class),
    decreases s.len(),
{
    let n = leading(s, class);
    if s.len() > 0 && in_class(s[0], class) {
        lemma_leading_is_longest(s.skip(1), class);
        assert forall|i: int| 0 <= i < n implies in_class(
            #[trigger] s.take(n as int)[i],
            class,
        ) by {
            if i > 0 {
                assert(s.skip(1).take(n - 1)[i - 1] == s[i]);
            }
        }
    }
}

/// A field that was found is what the text begins with, after blanks.
pub(crate) proof fn lemma_field_found(s: Seq<char>, length: int)
    requires
        length >= 0,
        field_of_length(s, length) is Some,
    ensures
        ({
            let gap = s.take(leading(s, Class::Blank) as int);
            let (rest, inside) = field_of_length(s, length)->0;
            &&& made_of(gap, Class::Blank)
            &&& inside.len() == length
            &&& inside =~= unindented(s).skip(1).take(length)
            &&& s =~= gap + bracketed(inside) + rest
        }),
{
    lemma_leading_is_longest(s, Class::Blank);
}

/// The blanks between the source position and the content of what a line says
/// after its level; none without a source position.
pub(crate) closed spec fn gap_in(message: Seq<char>) -> Seq<char> {
    match message_of(message).0 {
        Some(_) => {
            let rest = (file_field(message)->0).0;
            rest.take(leading(rest, Class::Blank) as int)
        },
        None => Seq::empty(),
    }
}

/// What a line says after its level is made of its source position, if there is
/// one, and its content.
pub(crate) proof fn lemma_message_found(message: Seq<char>)
    requires
        leading(message, Class::Blank) == 0,
    ensures
        ({
            let (file, content) = message_of(message);
            let gap = gap_in(message);
            &&& content.len() > 0 ==> !in_class(content[0], Class::Blank)
            &&& match file {
                Some(file) => {
                    &&& made_of(file, Class::Inside)
                    &&& gap.len() > 0 && made_of(gap, Class::Blank)
                    &&& message == bracketed(file) + gap + content
                },
                None => message == content && message_of(content).0 is None,
            }
        }),
{
    lemma_leading_is_longest(message, Class::Blank);
    match message_of(message).0 {
        Some(file) => {
            let rest = (file_field(message)->0).0;
            let inside = unindented(message).skip(1);
            lemma_leading_is_longest(inside, Class::Inside);
            lemma_field_found(message, leading(inside, Class::Inside) as int);
            lemma_leading_is_longest(rest, Class::Blank);
            assert(rest =~= gap_in(message) + message_of(message).1);
            assert(message =~= bracketed(file) + gap_in(message) + message_of(message).1);
        },
        None => {},
    }
}

/// A line that is parsed is made of the parts that it is parsed into, with
/// blanks between them and nothing else.
#[verifier::spinoff_prover]
pub proof fn law_parsed_lines_are_written(s: Seq<char>)
    requires
        line_of(s) is Some,
    ensures
        exists|gaps: (Seq<char>, Seq<char>, Seq<char>, Seq<char>)|
            well_formed(line_of(s)->0, gaps) && s == #[trigger] written(line_of(s)->0, gaps),
{
    let line = line_of(s)->0;
    let (after_time, time) = time_field(s)->0;
    let (after_level, level) = level_field(after_time)->0;
    let message = unindented(after_level);
    let level_rest = unindented(after_time).skip(1);
    lemma_field_found(s, TIMESTAMP_LENGTH as int);
    lemma_leading_is_longest(level_rest, Class::Letter);
    lemma_field_found(after_time, leading(level_rest, Class::Letter) as int);
    lemma_leading_is_longest(after_level, Class::Blank);
    let gaps = (
        s.take(leading(s, Class::Blank) as int),
        after_time.take(leading(after_time, Class::Blank) as int),
        after_level.take(leading(after_level, Class::Blank) as int),
        gap_in(message),
    );
    lemma_message_found(message);
    let said = match line.file {
        Some(file) => bracketed(file) + gaps.3 + line.content,
        None => line.content,
    };
    assert(after_level =~= gaps.2 + said);
    assert(s =~= gaps.0 + bracketed(time) + gaps.1 + bracketed(level) + gaps.2 + said);
    assert(s == written(line, gaps));
    assert(well_formed(line, gaps));
}

} // verus!
