//! Parsing log lines.

use vstd::prelude::*;

use crate::laws::texts::holds_piece;
use crate::line::{
    bracketed, gap_in, in_class, law_parsed_lines_are_written, law_written_lines_parse, leading,
    lemma_field, lemma_field_found, lemma_inside, lemma_leading_is_longest, lemma_message_found,
    level_named, line_of, log_meta, made_of, message_of, parse, parse_file, parse_level,
    parse_time, unindented, well_formed, written, Class, Level, LineView, LogMeta, NoMatch,
    INVALID_TIMESTAMP, TIMESTAMP_LENGTH,
};
use crate::time::{date_time_millis, law_moments_are_counted, Stamp, TIMESTAMP_FORMAT};

verus! {

/// Spaces and tabs only.
pub open spec fn blanks(s: Seq<char>) -> bool {
    forall|i: int| 0 <= i < s.len() ==> (#[trigger] s[i] == ' ' || s[i] == '\t')
}

/// Letters of ASCII only, and at least one.
pub open spec fn word(s: Seq<char>) -> bool {
    &&& s.len() > 0
    &&& forall|i: int|
        0 <= i < s.len() ==> (('a' <= #[trigger] s[i] && s[i] <= 'z') || ('A' <= s[i] && s[i]
            <= 'Z'))
}

/// No closing bracket.
pub open spec fn unclosed(s: Seq<char>) -> bool {
    forall|i: int| 0 <= i < s.len() ==> #[trigger] s[i] != ']'
}

/// A text between brackets, after something and before something.
pub open spec fn around(
    before: Seq<char>,
    inside: Seq<char>,
    after: Seq<char>,
) -> Seq<char> {
    before + seq!['['] + inside + seq![']'] + after
}

/// How long a timestamp is, what stands for one that cannot be read, and how it is laid out.
pub proof fn law_timestamps_are_as_they_are()
    ensures
        TIMESTAMP_LENGTH == 30,
        INVALID_TIMESTAMP == -1,
        TIMESTAMP_FORMAT@ == "%Y/%m/%d %H:%M:%S%.3f %z"@,
{
}

/// A level has exactly these names.
pub proof fn law_levels_have_their_names(name: &str, level: Option<Level>)
    requires
        call_ensures(Level::from_str, (name,), level),
    ensures
        level == Some(Level::Trace) <==> name@ == "trace"@ || name@ == "TRACE"@,
        level == Some(Level::Debug) <==> name@ == "debug"@ || name@ == "DEBUG"@,
        level == Some(Level::Info) <==> name@ == "info"@ || name@ == "INFO"@,
        level == Some(Level::Warning) <==> name@ == "warn"@ || name@ == "WARN"@ || name@
            == "warning"@ || name@ == "WARNING"@,
        level == Some(Level::Error) <==> name@ == "error"@ || name@ == "ERROR"@,
        level == Some(Level::Critical) <==> name@ == "critical"@ || name@ == "CRITICAL"@,
{
    reveal_strlit("trace");
    reveal_strlit("TRACE");
    reveal_strlit("debug");
    reveal_strlit("DEBUG");
    reveal_strlit("info");
    reveal_strlit("INFO");
    reveal_strlit("warn");
    reveal_strlit("WARN");
    reveal_strlit("warning");
    reveal_strlit("WARNING");
    reveal_strlit("error");
    reveal_strlit("ERROR");
    reveal_strlit("critical");
    reveal_strlit("CRITICAL");
    assert("trace"@[0] == 't' && "TRACE"@[0] == 'T' && "debug"@[0] == 'd' && "DEBUG"@[0] == 'D');
    assert("info"@[0] == 'i' && "INFO"@[0] == 'I' && "warn"@[0] == 'w' && "WARN"@[0] == 'W');
    assert("warning"@[0] == 'w' && "WARNING"@[0] == 'W' && "error"@[0] == 'e');
    assert("ERROR"@[0] == 'E' && "critical"@[0] == 'c' && "CRITICAL"@[0] == 'C');
}

/// A timestamp is taken off a line wherever thirty characters stand between
/// brackets, after blanks at most.
pub proof fn law_time_is_taken(
    input: &str,
    gap: Seq<char>,
    time: Seq<char>,
    rest: Seq<char>,
    field: Result<(&str, &str), NoMatch>,
)
    requires
        call_ensures(parse_time, (input,), field),
        input@ == around(gap, time, rest),
        blanks(gap),
        time.len() == 30,
    ensures
        field matches Ok((after, inside)) && after@ == rest && inside@ == time,
{
    assert(made_of(gap, Class::Blank));
    lemma_field(gap, time, rest);
    assert(around(gap, time, rest) =~= gap + bracketed(time) + rest);
}

/// A timestamp that is taken off a line stood there, after blanks at most.
pub proof fn law_time_was_there(input: &str, field: Result<(&str, &str), NoMatch>)
    requires
        call_ensures(parse_time, (input,), field),
        field is Ok,
    ensures
        (field->Ok_0).1@.len() == 30,
        exists|gap: Seq<char>|
            blanks(gap) && input@ == #[trigger] around(gap, (field->Ok_0).1@, (field->Ok_0).0@),
{
    lemma_field_found(input@, 30);
    let gap = input@.take(leading(input@, Class::Blank) as int);
    lemma_blanks(gap);
    assert(input@ =~= around(gap, (field->Ok_0).1@, (field->Ok_0).0@));
}

proof fn lemma_blanks(gap: Seq<char>)
    ensures
        made_of(gap, Class::Blank) <==> blanks(gap),
{
    if made_of(gap, Class::Blank) {
        assert forall|i: int| 0 <= i < gap.len() implies (#[trigger] gap[i] == ' ' || gap[i]
            == '\t') by {
            assert(in_class(gap[i], Class::Blank));
        }
    }
}

proof fn lemma_word(s: Seq<char>)
    ensures
        made_of(s, Class::Letter) && s.len() > 0 <==> word(s),
{
    if made_of(s, Class::Letter) {
        assert forall|i: int| 0 <= i < s.len() implies (('a' <= #[trigger] s[i] && s[i] <= 'z') || (
        'A' <= s[i] && s[i] <= 'Z')) by {
            assert(in_class(s[i], Class::Letter));
        }
    }
}

proof fn lemma_unclosed(s: Seq<char>)
    ensures
        made_of(s, Class::Inside) <==> unclosed(s),
{
    if made_of(s, Class::Inside) {
        assert forall|i: int| 0 <= i < s.len() implies #[trigger] s[i] != ']' by {
            assert(in_class(s[i], Class::Inside));
        }
    }
}

/// A level is taken off a line wherever a word stands between brackets, after
/// blanks at most.
pub proof fn law_level_is_taken(
    input: &str,
    gap: Seq<char>,
    level: Seq<char>,
    rest: Seq<char>,
    field: Result<(&str, &str), NoMatch>,
)
    requires
        call_ensures(parse_level, (input,), field),
        input@ == around(gap, level, rest),
        blanks(gap),
        word(level),
    ensures
        field matches Ok((after, inside)) && after@ == rest && inside@ == level,
{
    lemma_blanks(gap);
    lemma_word(level);
    lemma_field(gap, level, rest);
    lemma_inside(level, rest, Class::Letter);
    assert(around(gap, level, rest) =~= gap + bracketed(level) + rest);
}

/// A level that is taken off a line is a word that stood there between brackets,
/// after blanks at most.
pub proof fn law_level_was_there(input: &str, field: Result<(&str, &str), NoMatch>)
    requires
        call_ensures(parse_level, (input,), field),
        field is Ok,
    ensures
        word((field->Ok_0).1@),
        exists|gap: Seq<char>|
            blanks(gap) && input@ == #[trigger] around(gap, (field->Ok_0).1@, (field->Ok_0).0@),
{
    let inside = unindented(input@).skip(1);
    lemma_leading_is_longest(inside, Class::Letter);
    lemma_field_found(input@, leading(inside, Class::Letter) as int);
    let gap = input@.take(leading(input@, Class::Blank) as int);
    lemma_blanks(gap);
    lemma_word((field->Ok_0).1@);
    assert(input@ =~= around(gap, (field->Ok_0).1@, (field->Ok_0).0@));
}

/// A source position is taken off a line wherever something stands between an
/// opening bracket and the next closing one, after blanks at most.
pub proof fn law_file_is_taken(
    input: &str,
    gap: Seq<char>,
    file: Seq<char>,
    rest: Seq<char>,
    field: Result<(&str, &str), NoMatch>,
)
    requires
        call_ensures(parse_file, (input,), field),
        input@ == around(gap, file, rest),
        blanks(gap),
        unclosed(file),
    ensures
        field matches Ok((after, inside)) && after@ == rest && inside@ == file,
{
    lemma_blanks(gap);
    lemma_unclosed(file);
    lemma_field(gap, file, rest);
    lemma_inside(file, rest, Class::Inside);
    assert(around(gap, file, rest) =~= gap + bracketed(file) + rest);
}

/// A source position that is taken off a line stood there between an opening
/// bracket and the next closing one, after blanks at most.
pub proof fn law_file_was_there(input: &str, field: Result<(&str, &str), NoMatch>)
    requires
        call_ensures(parse_file, (input,), field),
        field is Ok,
    ensures
        unclosed((field->Ok_0).1@),
        exists|gap: Seq<char>|
            blanks(gap) && input@ == #[trigger] around(gap, (field->Ok_0).1@, (field->Ok_0).0@),
{
    let inside = unindented(input@).skip(1);
    lemma_leading_is_longest(inside, Class::Inside);
    lemma_field_found(input@, leading(inside, Class::Inside) as int);
    let gap = input@.take(leading(input@, Class::Blank) as int);
    lemma_blanks(gap);
    lemma_unclosed((field->Ok_0).1@);
    assert(input@ =~= around(gap, (field->Ok_0).1@, (field->Ok_0).0@));
}

/// `millis` is what a timestamp stands for, or what stands for none.
pub open spec fn is_time_of(time: Seq<char>, millis: i64) -> bool {
    match date_time_millis(time, "%Y/%m/%d %H:%M:%S%.3f %z"@) {
        Some(read) => millis == read,
        None => millis == -1,
    }
}

/// The beginning of a line: a timestamp and a level between brackets, with
/// blanks before each of them, and then what follows.
pub open spec fn headed(
    gaps: (Seq<char>, Seq<char>),
    time: Seq<char>,
    level: Seq<char>,
    rest: Seq<char>,
) -> Seq<char> {
    around(gaps.0, time, around(gaps.1, level, rest))
}

/// The parts of a head are in order.
pub open spec fn is_head(gaps: (Seq<char>, Seq<char>), time: Seq<char>, level: Seq<char>) -> bool {
    blanks(gaps.0) && blanks(gaps.1) && time.len() == 30 && word(level)
}

/// A line with a timestamp, a level and a source position between brackets,
/// blanks between them, and content behind a blank, is parsed into these parts.
#[verifier::spinoff_prover]
pub proof fn law_lines_with_a_position_are_parsed(
    input: &str,
    gaps: (Seq<char>, Seq<char>),
    time: Seq<char>,
    level: Seq<char>,
    gap: Seq<char>,
    file: Seq<char>,
    last_gap: Seq<char>,
    content: Seq<char>,
    line: Result<(&str, LogMeta), NoMatch>,
)
    requires
        call_ensures(parse, (input,), line),
        is_head(gaps, time, level),
        blanks(gap) && gap.len() > 0,
        unclosed(file),
        blanks(last_gap) && last_gap.len() > 0,
        content.len() > 0 ==> content[0] != ' ' && content[0] != '\t',
        input@ == headed(gaps, time, level, around(gap, file, last_gap + content)),
    ensures
        line matches Ok((said, meta)) && {
            &&& said@ == content
            &&& meta.file@ == file
            &&& meta.level == level_named(level)
            &&& is_time_of(time, meta.time)
        },
{
    lemma_blanks(gaps.0);
    lemma_blanks(gaps.1);
    lemma_blanks(gap);
    lemma_blanks(last_gap);
    lemma_word(level);
    lemma_unclosed(file);
    let parts = LineView { time, level, file: Some(file), content };
    let all = (gaps.0, gaps.1, gap, last_gap);
    assert(input@ =~= written(parts, all));
    law_written_lines_parse(parts, all);
}

/// `content` does not begin like a source position: between an opening bracket
/// and the next closing one, with a blank behind.
pub open spec fn unpositioned(content: Seq<char>) -> bool {
    forall|file: Seq<char>, blank: Seq<char>, rest: Seq<char>|
        !(unclosed(file) && blanks(blank) && blank.len() == 1 && content == #[trigger] around(
            Seq::empty(),
            file,
            blank + rest,
        ))
}

/// A line without a source position is parsed all the same: its content is all
/// that follows the level and the blanks behind it.
#[verifier::spinoff_prover]
pub proof fn law_lines_without_a_position_are_parsed(
    input: &str,
    gaps: (Seq<char>, Seq<char>),
    time: Seq<char>,
    level: Seq<char>,
    gap: Seq<char>,
    content: Seq<char>,
    line: Result<(&str, LogMeta), NoMatch>,
)
    requires
        call_ensures(parse, (input,), line),
        is_head(gaps, time, level),
        blanks(gap) && gap.len() > 0,
        content.len() > 0 ==> content[0] != ' ' && content[0] != '\t',
        unpositioned(content),
        input@ == headed(gaps, time, level, gap + content),
    ensures
        line matches Ok((said, meta)) && {
            &&& said@ == content
            &&& meta.file@.len() == 0
            &&& meta.level == level_named(level)
            &&& is_time_of(time, meta.time)
        },
{
    lemma_blanks(gaps.0);
    lemma_blanks(gaps.1);
    lemma_blanks(gap);
    lemma_word(level);
    lemma_unpositioned(content);
    let parts = LineView { time, level, file: None, content };
    let all = (gaps.0, gaps.1, gap, Seq::<char>::empty());
    assert(input@ =~= written(parts, all));
    law_written_lines_parse(parts, all);
}

proof fn lemma_unpositioned(content: Seq<char>)
    requires
        content.len() > 0 ==> content[0] != ' ' && content[0] != '\t',
        unpositioned(content),
    ensures
        message_of(content).0 is None,
{
    assert(leading(content, Class::Blank) == 0);
    lemma_message_found(content);
    match message_of(content).0 {
        Some(file) => {
            let gap = gap_in(content);
            let (_, rest) = message_of(content);
            lemma_unclosed(file);
            lemma_blanks(gap);
            let blank = gap.take(1);
            let after = gap.skip(1) + rest;
            assert(blanks(blank));
            assert(content =~= around(Seq::empty(), file, blank + after));
        },
        None => {},
    }
}

/// A line that is parsed begins with a timestamp and a level between brackets,
/// with a blank behind them. Then comes the content, or a source position
/// between brackets, at least one blank, and the content.
#[verifier::spinoff_prover]
pub proof fn law_parsed_lines_have_their_parts(
    input: &str,
    line: Result<(&str, LogMeta), NoMatch>,
)
    requires
        call_ensures(parse, (input,), line),
        line is Ok,
    ensures
        exists|gaps: (Seq<char>, Seq<char>), time: Seq<char>, level: Seq<char>, rest: Seq<char>|
            {
                &&& is_head(gaps, time, level)
                &&& input@ == #[trigger] headed(gaps, time, level, rest)
                &&& is_time_of(time, (line->Ok_0).1.time)
                &&& (line->Ok_0).1.level == level_named(level)
                &&& rest.len() > 0 && (rest[0] == ' ' || rest[0] == '\t')
                &&& ends_in(rest, (line->Ok_0).0@)
                &&& (line->Ok_0).1.file@.len() > 0 ==> holds_piece(
                    rest,
                    (line->Ok_0).1.file@,
                )
            },
{
    let parts = line_of(input@)->0;
    law_parsed_lines_are_written(input@);
    let all = choose|gaps: (Seq<char>, Seq<char>, Seq<char>, Seq<char>)|
        well_formed(parts, gaps) && input@ == #[trigger] written(parts, gaps);
    lemma_blanks(all.0);
    lemma_blanks(all.1);
    lemma_blanks(all.2);
    lemma_word(parts.level);
    let gaps = (all.0, all.1);
    let rest = match parts.file {
        Some(file) => around(all.2, file, all.3 + parts.content),
        None => all.2 + parts.content,
    };
    assert(input@ =~= headed(gaps, parts.time, parts.level, rest));
    assert(rest[0] == all.2[0]);
    match parts.file {
        Some(file) => {
            let front = all.2 + seq!['['] + file + seq![']'] + all.3;
            assert(rest =~= front + parts.content);
            let before = all.2 + seq!['['];
            let after = seq![']'] + (all.3 + parts.content);
            assert(rest =~= (before + file) + after);
        },
        None => {},
    }
}

/// `text` is something with `ending` behind it.
pub open spec fn ends_in(text: Seq<char>, ending: Seq<char>) -> bool {
    exists|front: Seq<char>| text == #[trigger] (front + ending)
}

/// A line that is written at a moment has the milliseconds of that moment as its time.
pub proof fn law_moments_are_times(
    input: &str,
    stamp: Stamp,
    gaps: (Seq<char>, Seq<char>),
    level: Seq<char>,
    rest: Seq<char>,
    line: Result<(&str, LogMeta), NoMatch>,
)
    requires
        call_ensures(parse, (input,), line),
        line is Ok,
        stamp.valid(),
        is_head(gaps, stamp.text(), level),
        input@ == headed(gaps, stamp.text(), level, rest),
    ensures
        (line->Ok_0).1.time == stamp.millis(),
        (line->Ok_0).1.level == level_named(level),
{
    lemma_blanks(gaps.0);
    lemma_blanks(gaps.1);
    lemma_word(level);
    law_moments_are_counted(stamp);
    let after = around(gaps.1, level, rest);
    lemma_field(gaps.0, stamp.text(), after);
    assert(input@ =~= gaps.0 + bracketed(stamp.text()) + after);
    lemma_field(gaps.1, level, rest);
    lemma_inside(level, rest, Class::Letter);
    assert(after =~= gaps.1 + bracketed(level) + rest);
}

/// The meta data of a line are its parts.
pub proof fn law_meta_data_are_the_parts(
    millis: Option<i64>,
    level: &str,
    file: &str,
    meta: LogMeta,
)
    requires
        call_ensures(log_meta, (millis, level, file), meta),
    ensures
        millis matches Some(time) ==> meta.time == time,
        millis is None ==> meta.time == -1,
        meta.level == level_named(level@),
        meta.file@ == file@,
{
}

} // verus!
