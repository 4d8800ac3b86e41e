//! Searching log files.

use vstd::prelude::*;
use vstd::utf8::*;
use walkdir::Error as WalkError;

use crate::error::{is_debug_text_of, Error, LogSearchError};
use crate::laws::lines::law_parsed_lines_have_their_parts;
use crate::laws::texts::{holds_piece, lemma_piece};
use crate::line::{parse, LogItem, LogMeta, NoMatch};
use crate::path::{last_name, lemma_last_piece, read_alike, trimmed};
use crate::search::{
    newest_first, starting_at, LineRead, LogIterator, LogQuery, LogSearch, Probe,
};

verus! {

/// A line that a query selects lies within its times, has its level if it asks
/// for one, and holds its filter; the item holds what the line does.
pub proof fn law_selected_lines_fit(
    query: LogQuery,
    content: &str,
    meta: LogMeta,
    item: Option<LogItem>,
)
    requires
        call_ensures(LogQuery::select, (&query, content, &meta), item),
        item is Some,
    ensures
        query.begin_time <= (item->0).time <= query.end_time,
        (item->0).time != -1,
        query.level is Some ==> (item->0).level == query.level,
        holds_piece((item->0).content@, query.filter@),
        (item->0).time == meta.time,
        (item->0).level == meta.level,
        (item->0).content@ == content@,
{
    lemma_any_piece(content@, query.filter@);
    lemma_piece(content@, query.filter@);
}

proof fn lemma_any_piece(text: Seq<char>, piece: Seq<char>)
    ensures
        piece.len() == 0 ==> holds_piece(text, piece),
{
    if piece.len() == 0 {
        assert(text =~= (Seq::<char>::empty() + piece) + text);
    }
}

/// A query selects every line with a readable time within its times, of its
/// level or of any if it asks for none, whose content holds its filter.
pub proof fn law_fitting_lines_are_selected(
    query: LogQuery,
    content: &str,
    meta: LogMeta,
    item: Option<LogItem>,
)
    requires
        call_ensures(LogQuery::select, (&query, content, &meta), item),
        meta.time != -1,
        query.begin_time <= meta.time,
        meta.time <= query.end_time,
        query.level is None || query.level == meta.level,
        holds_piece(content@, query.filter@),
    ensures
        item is Some,
{
    lemma_piece(content@, query.filter@);
}

/// What a query finds in a line is what the line is parsed into, and fits the query.
pub proof fn law_found_items_are_in_their_lines(
    query: LogQuery,
    line: &str,
    item: Option<LogItem>,
    parts: Result<(&str, LogMeta), NoMatch>,
)
    requires
        call_ensures(LogQuery::item, (&query, line), item),
        call_ensures(parse, (line,), parts),
        item is Some,
    ensures
        parts is Ok,
        (item->0).content@ == (parts->Ok_0).0@,
        (item->0).time == (parts->Ok_0).1.time,
        (item->0).level == (parts->Ok_0).1.level,
        query.begin_time <= (item->0).time <= query.end_time,
        (item->0).time != -1,
        query.level is Some ==> (item->0).level == query.level,
        holds_piece((item->0).content@, query.filter@),
{
    lemma_any_piece((item->0).content@, query.filter@);
    lemma_piece((item->0).content@, query.filter@);
}

/// A query finds every line that is parsed and that fits it.
pub proof fn law_fitting_lines_are_found(
    query: LogQuery,
    line: &str,
    item: Option<LogItem>,
    parts: Result<(&str, LogMeta), NoMatch>,
)
    requires
        call_ensures(LogQuery::item, (&query, line), item),
        call_ensures(parse, (line,), parts),
        parts is Ok,
        (parts->Ok_0).1.time != -1,
        query.begin_time <= (parts->Ok_0).1.time,
        (parts->Ok_0).1.time <= query.end_time,
        query.level is None || query.level == (parts->Ok_0).1.level,
        holds_piece((parts->Ok_0).0@, query.filter@),
    ensures
        item is Some,
{
    lemma_piece((parts->Ok_0).0@, query.filter@);
    law_parsed_lines_have_their_parts(line, parts);
    lemma_bytes(line@);
}

/// A text takes at least as many bytes as it has characters.
proof fn lemma_bytes(s: Seq<char>)
    ensures
        encode_utf8(s).len() >= s.len(),
    decreases s.len(),
{
    if s.len() > 0 {
        lemma_bytes(s.drop_first());
    }
}

/// Asking for a level leaves, of the items that are found without, those of the level.
pub proof fn law_levels_only_narrow(
    query: LogQuery,
    without: LogQuery,
    line: &str,
    item: Option<LogItem>,
    any: Option<LogItem>,
)
    requires
        call_ensures(LogQuery::item, (&query, line), item),
        call_ensures(LogQuery::item, (&without, line), any),
        query.begin_time == without.begin_time,
        query.end_time == without.end_time,
        query.filter@ == without.filter@,
        query.level is Some,
        without.level is None,
    ensures
        item is Some <==> any is Some && (any->0).level == query.level,
        item is Some ==> (item->0)@ == (any->0)@,
{
}

/// A filter leaves, of the items that are found without, those whose content holds it.
pub proof fn law_filters_only_narrow(
    query: LogQuery,
    without: LogQuery,
    line: &str,
    item: Option<LogItem>,
    any: Option<LogItem>,
)
    requires
        call_ensures(LogQuery::item, (&query, line), item),
        call_ensures(LogQuery::item, (&without, line), any),
        query.begin_time == without.begin_time,
        query.end_time == without.end_time,
        query.level == without.level,
        without.filter@.len() == 0,
    ensures
        item is Some <==> any is Some && holds_piece((any->0).content@, query.filter@),
        item is Some ==> (item->0)@ == (any->0)@,
{
    if any is Some {
        lemma_any_piece((any->0).content@, query.filter@);
        lemma_piece((any->0).content@, query.filter@);
    }
}

/// Times leave, of the items that are found at all times, those within them.
pub proof fn law_times_only_narrow(
    query: LogQuery,
    always: LogQuery,
    line: &str,
    item: Option<LogItem>,
    any: Option<LogItem>,
)
    requires
        call_ensures(LogQuery::item, (&query, line), item),
        call_ensures(LogQuery::item, (&always, line), any),
        always.begin_time == i64::MIN,
        always.end_time == i64::MAX,
        query.level == always.level,
        query.filter@ == always.filter@,
    ensures
        item is Some <==> any is Some && query.begin_time <= (any->0).time <= query.end_time,
        item is Some ==> (item->0)@ == (any->0)@,
{
}

/// A file is searched exactly if its first or its last time lies strictly
/// between the times that are asked for; it is searched from its first time on.
pub proof fn law_files_are_chosen_by_their_ends<F>(
    search: LogSearch<F>,
    range: Result<(i64, i64), Error>,
    start: Option<i64>,
)
    requires
        call_ensures(LogSearch::<F>::covers, (&search, &range), start),
    ensures
        range matches Ok((first, last)) ==> {
            let begin = search@.query.begin_time;
            let end = search@.query.end_time;
            &&& begin < first && first < end ==> start == Some(first)
            &&& begin < last && last < end ==> start == Some(first)
            &&& start is Some ==> start == Some(first)
            &&& start is Some ==> (begin < first && first < end) || (begin < last && last < end)
        },
        range is Err ==> start is None,
{
}

/// A file that is searched for some times is searched for any times around them.
pub proof fn law_wider_times_choose_more<F>(
    search: LogSearch<F>,
    wider: LogSearch<F>,
    range: Result<(i64, i64), Error>,
    start: Option<i64>,
    start_wider: Option<i64>,
)
    requires
        call_ensures(LogSearch::<F>::covers, (&search, &range), start),
        call_ensures(LogSearch::<F>::covers, (&wider, &range), start_wider),
        wider@.query.begin_time <= search@.query.begin_time,
        search@.query.end_time <= wider@.query.end_time,
        start is Some,
    ensures
        start_wider == start,
{
}

/// An entry is opened exactly if it is a file whose name is that of the log file
/// with something behind it, or with nothing.
pub proof fn law_rotated_files_are_wanted<F>(
    search: LogSearch<F>,
    is_file: bool,
    name: Option<&str>,
    open: bool,
)
    requires
        call_ensures(LogSearch::<F>::wants, (&search, is_file, name), open),
    ensures
        open <==> is_file && name is Some && exists|rest: Seq<char>|
            (name->0)@ == #[trigger] (search@.log_name + rest),
{
    if name is Some {
        let text = (name->0)@;
        let log_name = search@.log_name;
        if log_name.is_prefix_of(text) {
            assert(text =~= log_name + text.skip(log_name.len() as int));
        }
        if exists|rest: Seq<char>| text == #[trigger] (log_name + rest) {
            let rest = choose|rest: Seq<char>| text == #[trigger] (log_name + rest);
            assert(text.take(log_name.len() as int) =~= log_name);
        }
    }
}

/// A visited entry adds its file to those that are searched, with its first time,
/// exactly if it is wanted, was opened and rewound, and covers the times.
pub proof fn law_visits_add_the_chosen_files<F>(
    search: &mut LogSearch<F>,
    probe: Probe<F>,
    outcome: Result<(), LogSearchError>,
    name: Option<&str>,
    open: bool,
    start: Option<i64>,
)
    requires
        call_ensures(
            LogSearch::<F>::visit,
            (search, Ok::<Probe<F>, WalkError>(probe)),
            outcome,
        ),
        probe.name is Some <==> name is Some,
        probe.name is Some ==> (probe.name->0)@ == (name->0)@,
        call_ensures(LogSearch::<F>::wants, (&*old(search), probe.is_file, name), open),
        probe.opened matches Some(opened) ==> call_ensures(
            LogSearch::<F>::covers,
            (&*old(search), &opened.range),
            start,
        ),
    ensures
        outcome is Ok,
        final(search)@.log_dir == old(search)@.log_dir,
        final(search)@.log_name == old(search)@.log_name,
        final(search)@.query == old(search)@.query,
        open && probe.opened is Some && start is Some && (probe.opened->0).file is Some ==> final(search)@.files == old(search)@.files.push((start->0, ((probe.opened->0).file)->0)),
        !(open && probe.opened is Some && start is Some && (probe.opened->0).file is Some)
            ==> final(search)@.files == old(search)@.files,
{
}

/// A walk that fails ends the search with its error, and adds nothing.
pub proof fn law_failed_walks_end_the_search<F>(
    search: &mut LogSearch<F>,
    error: WalkError,
    outcome: Result<(), LogSearchError>,
)
    requires
        call_ensures(
            LogSearch::<F>::visit,
            (search, Err::<Probe<F>, WalkError>(error)),
            outcome,
        ),
    ensures
        outcome is Err,
        exists|text: Seq<char>| #[trigger]
            is_debug_text_of(error, text) && (outcome->Err_0)@ == "walk directory: "@
                + text,
        final(search)@ == old(search)@,
{
}

/// Two orders of the same files, later times first and files of one time as they
/// were, are one order.
pub proof fn law_files_have_one_order<F>(
    files: Seq<(i64, F)>,
    a: Seq<(i64, F)>,
    b: Seq<(i64, F)>,
)
    requires
        newest_first(files, a),
        newest_first(files, b),
    ensures
        a == b,
{
    assert forall|start: i64| #[trigger] starting_at(a, start) == starting_at(b, start) by {
        assert(starting_at(a, start) == starting_at(files, start));
        assert(starting_at(b, start) == starting_at(files, start));
    }
    lemma_one_order(a, b);
}

proof fn lemma_one_order<F>(a: Seq<(i64, F)>, b: Seq<(i64, F)>)
    requires
        forall|i: int, j: int| 0 <= i < j < a.len() ==> a[i].0 >= a[j].0,
        forall|i: int, j: int| 0 <= i < j < b.len() ==> b[i].0 >= b[j].0,
        forall|start: i64| #[trigger] starting_at(a, start) == starting_at(b, start),
    ensures
        a == b,
    decreases a.len(),
{
    if a.len() == 0 || b.len() == 0 {
        if a.len() > 0 {
            lemma_starts(a, b, a[0]);
        }
        if b.len() > 0 {
            lemma_starts(b, a, b[0]);
        }
        assert(a =~= b);
    } else {
        lemma_starts(a, b, a[0]);
        lemma_starts(b, a, b[0]);
        let m = a[0].0;
        assert(b[0].0 == m);
        let rest_a = a.skip(1);
        let rest_b = b.skip(1);
        assert(a =~= seq![a[0]] + rest_a);
        assert(b =~= seq![b[0]] + rest_b);
        lemma_first(a[0], rest_a, m);
        lemma_first(b[0], rest_b, m);
        assert(starting_at(a, m) == starting_at(b, m));
        assert(starting_at(a, m)[0] == a[0] && starting_at(b, m)[0] == b[0]);
        assert forall|start: i64| #[trigger] starting_at(rest_a, start) == starting_at(
            rest_b,
            start,
        ) by {
            assert(starting_at(a, start) == starting_at(b, start));
            lemma_first(a[0], rest_a, start);
            lemma_first(b[0], rest_b, start);
            if start == m {
                assert(starting_at(a, m).skip(1) =~= starting_at(rest_a, m));
                assert(starting_at(b, m).skip(1) =~= starting_at(rest_b, m));
            }
        }
        lemma_one_order(rest_a, rest_b);
    }
}

/// The files that start at a time, of a file and others.
proof fn lemma_first<F>(file: (i64, F), rest: Seq<(i64, F)>, start: i64)
    ensures
        starting_at(seq![file] + rest, start) == if file.0 == start {
            seq![file] + starting_at(rest, start)
        } else {
            starting_at(rest, start)
        },
{
    let pred = |f: (i64, F)| f.0 == start;
    Seq::filter_distributes_over_add(seq![file], rest, pred);
    reveal_with_fuel(Seq::filter, 2);
    assert(seq![file].drop_last() =~= Seq::<(i64, F)>::empty());
    if file.0 == start {
        assert(seq![file].filter(pred) =~= seq![file]);
    } else {
        assert(seq![file].filter(pred) =~= Seq::<(i64, F)>::empty());
        assert(Seq::<(i64, F)>::empty() + starting_at(rest, start) =~= starting_at(rest, start));
    }
}

/// A file of `a` is one of `b`, which begins with no smaller time.
proof fn lemma_starts<F>(a: Seq<(i64, F)>, b: Seq<(i64, F)>, file: (i64, F))
    requires
        a.contains(file),
        forall|i: int, j: int| 0 <= i < j < b.len() ==> b[i].0 >= b[j].0,
        starting_at(a, file.0) == starting_at(b, file.0),
    ensures
        b.len() > 0,
        b[0].0 >= file.0,
{
    let pred = |f: (i64, F)| f.0 == file.0;
    a.lemma_filter_contains(pred, choose|i: int| 0 <= i < a.len() && a[i] == file);
    b.lemma_filter_contains_rev(pred, file);
}

/// A search begins with the file of the smallest time, and keeps the others in
/// the order of their times, the largest first; none is lost and none comes twice.
pub proof fn law_searches_begin_with_the_oldest_file<F>(
    files: Vec<(i64, F)>,
    query: LogQuery,
    search: LogIterator<F>,
)
    requires
        call_ensures(LogIterator::<F>::new, (files, query), search),
    ensures
        search@.query.begin_time == query.begin_time,
        search@.query.end_time == query.end_time,
        search@.query.level == query.level,
        search@.query.filter == query.filter@,
        search@.current is None <==> files@.len() == 0,
        search@.current matches Some(current) ==> {
            let all = search@.pending.push(current);
            &&& all.to_multiset() == files@.to_multiset()
            &&& forall|i: int|
                0 <= i < search@.pending.len() ==> current.0 <= (#[trigger] search@.pending[i]).0
            &&& forall|i: int, j: int|
                0 <= i < j < search@.pending.len() ==> (#[trigger] search@.pending[i]).0 >= (
                #[trigger] search@.pending[j]).0
        },
        search@.current is None ==> search@.pending.len() == 0,
{
    broadcast use vstd::seq_lib::group_to_multiset_ensures;

    let all = search@.remaining();
    assert(all.to_multiset().len() == files@.to_multiset().len());
    assert(all.len() == files@.len());
    if search@.current is Some {
        let n = search@.pending.len() as int;
        assert(all[n] == search@.current->0);
        assert forall|i: int| 0 <= i < n implies (search@.current->0).0 <= (
        #[trigger] search@.pending[i]).0 by {
            assert(all[i] == search@.pending[i]);
        }
        assert forall|i: int, j: int| 0 <= i < j < n implies (#[trigger] search@.pending[i]).0 >= (
        #[trigger] search@.pending[j]).0 by {
            assert(all[i] == search@.pending[i]);
            assert(all[j] == search@.pending[j]);
        }
    }
}

/// Files that stand in order, the largest time first, are searched from the last to the first.
pub proof fn law_ordered_files_keep_their_order<F>(
    files: Vec<(i64, F)>,
    query: LogQuery,
    search: LogIterator<F>,
)
    requires
        call_ensures(LogIterator::<F>::new, (files, query), search),
        files@.len() > 0,
        forall|i: int, j: int| 0 <= i < j < files@.len() ==> files@[i].0 >= files@[j].0,
    ensures
        search@.current == Some(files@.last()),
        search@.pending == files@.drop_last(),
{
    assert(newest_first(files@, files@));
    law_files_have_one_order(files@, files@, search@.remaining());
    assert(search@.remaining() == files@);
    assert(search@.current is Some);
    assert(search@.pending =~= files@.drop_last());
}

/// What was chosen is searched as if the search had been begun with it.
pub proof fn law_finished_choices_are_searched<F>(
    choice: LogSearch<F>,
    search: LogIterator<F>,
    files: Vec<(i64, F)>,
    query: LogQuery,
    other: LogIterator<F>,
)
    requires
        call_ensures(LogSearch::<F>::finish, (choice,), search),
        call_ensures(LogIterator::<F>::new, (files, query), other),
        files@ == choice@.files,
        query@ == choice@.query,
    ensures
        search@ == other@,
{
    law_files_have_one_order(files@, search@.remaining(), other@.remaining());
    law_searches_begin_with_the_oldest_file(files, query, other);
    let a = search@;
    let b = other@;
    assert(a.current is None <==> a.remaining().len() == 0);
    assert(b.current is None <==> b.remaining().len() == 0);
    if a.current is Some {
        assert(a.remaining().last() == a.current->0);
        assert(b.remaining().last() == b.current->0);
        assert(a.pending =~= a.remaining().drop_last());
        assert(b.pending =~= b.remaining().drop_last());
    }
    assert(a =~= b);
}

/// A line of the current file gives the item that the query finds in it, and the
/// search stays where it is.
pub proof fn law_lines_give_their_items<F>(
    search: &mut LogIterator<F>,
    query: LogQuery,
    line: String,
    text: &str,
    found: Option<LogItem>,
    item: Option<LogItem>,
)
    requires
        call_ensures(LogIterator::<F>::advance, (search, LineRead::Line(line)), found),
        old(search)@.current is Some,
        query@ == old(search)@.query,
        text@ == line@,
        call_ensures(LogQuery::item, (&query, text), item),
    ensures
        final(search)@ == old(search)@,
        found is Some <==> item is Some,
        found is Some ==> (found->0)@ == (item->0)@,
{
}

/// A line that cannot be read gives nothing, and the search stays where it is.
pub proof fn law_failed_lines_are_passed_over<F>(
    search: &mut LogIterator<F>,
    found: Option<LogItem>,
)
    requires
        call_ensures(LogIterator::<F>::advance, (search, LineRead::Failed), found),
    ensures
        found is None,
        final(search)@ == old(search)@,
{
}

/// At the end of a file the search goes on with the next one, if there is one,
/// and is over otherwise.
pub proof fn law_files_follow_each_other<F>(search: &mut LogIterator<F>, found: Option<LogItem>)
    requires
        call_ensures(LogIterator::<F>::advance, (search, LineRead::End), found),
        old(search)@.current is Some,
    ensures
        found is None,
        final(search)@.query == old(search)@.query,
        old(search)@.pending.len() > 0 ==> {
            &&& final(search)@.current == Some(old(search)@.pending.last())
            &&& final(search)@.pending == old(search)@.pending.drop_last()
        },
        old(search)@.pending.len() == 0 ==> final(search)@.current is None && final(search)@.pending.len() == 0,
{
}

/// A search that is over finds nothing and stays over.
pub proof fn law_searches_stay_over<F>(
    search: &mut LogIterator<F>,
    read: LineRead,
    found: Option<LogItem>,
)
    requires
        call_ensures(LogIterator::<F>::advance, (search, read), found),
        old(search)@.current is None,
    ensures
        found is None,
        final(search)@ == old(search)@,
{
}

/// The file to read from is the current one; there is none once the search is over.
pub proof fn law_the_current_file_is_read<F>(search: &mut LogIterator<F>, file: Option<&mut F>)
    requires
        call_ensures(LogIterator::<F>::current_file, (search,), file),
    ensures
        file is Some <==> old(search)@.current is Some,
        file is Some ==> *(file->0) == (old(search)@.current->0).1,
        file is Some ==> final(search)@.current == Some(
            ((old(search)@.current->0).0, *final(file->0)),
        ),
        file is None ==> final(search)@.current is None,
        final(search)@.pending == old(search)@.pending,
        final(search)@.query == old(search)@.query,
{
}

/// A log file in a directory is searched for in that directory, by its name.
pub proof fn law_log_files_are_looked_for_by_name<F>(
    log_file: &str,
    dir: Seq<char>,
    name: Seq<char>,
    query: LogQuery,
    search: Result<LogSearch<F>, LogSearchError>,
)
    requires
        call_ensures(LogSearch::<F>::new, (log_file, query), search),
        log_file@ == dir + "/"@ + name,
        dir.len() > 0 && dir.last() != '/' && dir.last() != '.',
        name.len() > 0 && name != "."@ && name != ".."@ && !name.contains('/'),
        read_alike(log_file@),
    ensures
        search is Ok,
        (search->Ok_0)@.log_name == name,
        trimmed((search->Ok_0)@.log_dir) == dir,
        (search->Ok_0)@.files.len() == 0,
        (search->Ok_0)@.query == query@,
{
    reveal_strlit("/");
    let path = log_file@;
    let front = dir + "/"@;
    reveal_strlit(".");
    assert(path =~= front + name);
    assert(path.last() == name.last() && name.contains(name.last()));
    if path.len() > 1 && path.last() == '.' && path[path.len() - 2] == '/' {
        if name.len() > 1 {
            assert(path[path.len() - 2] == name[name.len() - 2]);
            assert(name.contains(name[name.len() - 2]));
        }
        assert(name =~= "."@);
    }
    assert(trimmed(path) == path);
    lemma_last_piece(front, name);
    assert(last_name(path) == name);
    assert(path.take(path.len() - name.len()) =~= front);
    assert(front.drop_last() =~= dir);
    assert(trimmed(dir) == dir);
    assert(trimmed(front) == dir);
}

/// A log file that is named alone is searched for where the process runs.
pub proof fn law_lone_log_files_are_looked_for_here<F>(
    log_file: &str,
    query: LogQuery,
    search: Result<LogSearch<F>, LogSearchError>,
)
    requires
        call_ensures(LogSearch::<F>::new, (log_file, query), search),
        log_file@.len() > 0 && log_file@ != "."@ && log_file@ != ".."@,
        !log_file@.contains('/'),
        read_alike(log_file@),
    ensures
        search is Ok,
        (search->Ok_0)@.log_name == log_file@,
        trimmed((search->Ok_0)@.log_dir).len() == 0,
{
    let path = log_file@;
    let none = Seq::<char>::empty();
    assert(path.contains(path.last()));
    if path.len() > 1 {
        assert(path.contains(path[path.len() - 2]));
    }
    assert(trimmed(path) == path);
    assert(none + path =~= path);
    lemma_last_piece(none, path);
    assert(path.take(0) =~= none);
}

/// A path that is empty, leads to the root, or ends in a name of no file of its
/// own is not searched, and the error says so.
pub proof fn law_paths_without_a_file_are_not_searched<F>(
    log_file: &str,
    front: Seq<char>,
    query: LogQuery,
    search: Result<LogSearch<F>, LogSearchError>,
)
    requires
        call_ensures(LogSearch::<F>::new, (log_file, query), search),
        log_file@.len() == 0 || log_file@ == "/"@ || log_file@ == ".."@ || log_file@ == front
            + "/.."@,
        read_alike(log_file@),
    ensures
        search is Err,
        (search->Err_0)@ == "Illegal file name: "@ + log_file@,
{
    reveal_strlit("/");
    reveal_strlit("..");
    reveal_strlit("/..");
    let path = log_file@;
    reveal_with_fuel(trimmed, 2);
    if path == ".."@ {
        assert(trimmed(path) == path);
        assert(Seq::<char>::empty() + ".."@ =~= path);
        lemma_last_piece(Seq::empty(), ".."@);
    } else if path == front + "/.."@ {
        let before = front + "/"@;
        assert(path =~= before + ".."@);
        assert(path.last() == '.' && path[path.len() - 2] == '.');
        assert(trimmed(path) == path);
        lemma_last_piece(before, ".."@);
    }
}

/// Where a log file lies decides what is searched; where that is not known, the
/// error says what is missing.
pub proof fn law_places_decide<F>(
    log_file: &str,
    file_name: Option<Option<String>>,
    log_dir: Option<String>,
    query: LogQuery,
    search: Result<LogSearch<F>, LogSearchError>,
)
    requires
        call_ensures(LogSearch::<F>::located, (log_file, file_name, log_dir, query), search),
    ensures
        search is Ok <==> file_name is Some && file_name->0 is Some && log_dir is Some,
        search matches Ok(search) ==> {
            &&& search@.log_name == (file_name->0->0)@
            &&& search@.log_dir == (log_dir->0)@
            &&& search@.query == query@
            &&& search@.files.len() == 0
        },
        file_name is None ==> (search->Err_0)@ == "Illegal file name: "@ + log_file@,
        file_name is Some && file_name->0 is None ==> (search->Err_0)@ == "Invalid utf8: "@
            + log_file@,
        file_name is Some && file_name->0 is Some && log_dir is None ==> (search->Err_0)@
            == "illegal parent dir: "@ + log_file@,
{
}

/// The directory that is walked is the one that was found.
pub proof fn law_the_directory_is_walked<F>(search: LogSearch<F>, dir: &str)
    requires
        call_ensures(LogSearch::<F>::dir, (&search,), dir),
    ensures
        dir@ == search@.log_dir,
{
}

/// A file that is added comes after those that were added before.
pub proof fn law_added_files_come_last<F>(search: &mut LogSearch<F>, start: i64, file: F)
    requires
        call_ensures(LogSearch::<F>::add_file, (search, start, file), ()),
    ensures
        final(search)@.files == old(search)@.files + seq![(start, file)],
        final(search)@.query == old(search)@.query,
        final(search)@.log_name == old(search)@.log_name,
        final(search)@.log_dir == old(search)@.log_dir,
{
    assert(final(search)@.files =~= old(search)@.files + seq![(start, file)]);
}

} // verus!
