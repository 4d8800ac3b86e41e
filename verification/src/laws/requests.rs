//! What requests ask for.

use vstd::prelude::*;

use crate::error::{debug_text, LogSearchError};
use crate::http::{json_response, Method, Response, StatusCode};
use crate::laws::numbers::{
    law_signed_texts_are_read, law_unsigned_texts_are_read, writes, writes_signed,
};
use crate::laws::replies::{lemma_headers, says_json, says_not_open, says_nothing};
use crate::line::level_named;
use crate::number::{decimal_text, lemma_written_value, signed_read, signed_text, unsigned_read};
use crate::page::LogPage;
use crate::query::{last_value, lemma_single_pair, plain_pairs, written_form, Params};
use crate::search::{LogIterator, LogQuery};
use crate::server::{
    clock_may_say, limit_of, query_of, token_at, Route, StatusServer, DEFAULT_PROFILE_SECONDS,
    MAX_SEARCH_LOG_RESULT_SIZE, MAX_THREADS,
};
use crate::table::LogIterators;
use crate::text::plain_text;

verus! {

/// Each path is answered by the one it belongs to, and by nobody else; and only
/// `GET` is answered, but for fail points.
pub proof fn law_paths_lead_to_their_routes(
    method: Method,
    path: &str,
    fail_points: bool,
    route: Route,
)
    requires
        call_ensures(StatusServer::route, (method, path, fail_points), route),
    ensures
        route == Route::FailPoints <==> fail_points && exists|rest: Seq<char>|
            path@ == #[trigger] ("/fail"@ + rest),
        route == Route::Metrics <==> method == Method::Get && path@ == "/metrics"@,
        route == Route::Status <==> method == Method::Get && path@ == "/status"@,
        route == Route::HeapProfile <==> method == Method::Get && path@ == "/pprof/profile"@,
        route == Route::CpuProfile <==> method == Method::Get && path@ == "/pprof/cpu"@,
        route == Route::Config <==> method == Method::Get && path@ == "/config"@,
        route == Route::LogOpen <==> method == Method::Get && path@ == "/log/open"@,
        route == Route::LogNext <==> method == Method::Get && path@ == "/log/next"@,
        route == Route::LogClose <==> method == Method::Get && path@ == "/log/close"@,
{
    reveal_strlit("/fail");
    reveal_strlit("/metrics");
    reveal_strlit("/status");
    reveal_strlit("/pprof/profile");
    reveal_strlit("/pprof/cpu");
    reveal_strlit("/config");
    reveal_strlit("/log/open");
    reveal_strlit("/log/next");
    reveal_strlit("/log/close");
    assert("/metrics"@[1] == 'm' && "/status"@[1] == 's' && "/config"@[1] == 'c');
    assert("/pprof/profile"@[1] == 'p' && "/pprof/cpu"@[1] == 'p');
    assert("/pprof/profile"@.len() != "/pprof/cpu"@.len());
    assert("/log/open"@[5] == 'o' && "/log/next"@[5] == 'n' && "/log/close"@[5] == 'c');
    assert("/log/open"@[1] == 'l' && "/log/next"@[1] == 'l' && "/log/close"@[1] == 'l');
    let prefix = "/fail"@;
    if prefix.is_prefix_of(path@) {
        assert(path@ =~= prefix + path@.skip(5));
        assert(path@[1] == path@.subrange(0, 5)[1]);
        assert(path@[1] == 'f');
    }
    if exists|rest: Seq<char>| path@ == #[trigger] (prefix + rest) {
        let rest = choose|rest: Seq<char>| path@ == #[trigger] (prefix + rest);
        assert(path@.take(5) =~= prefix);
    }
}

/// The parameters give this value under this name, and no other after it; `None`
/// if they give none under that name.
pub open spec fn gives(
    pairs: Seq<(Seq<char>, Seq<char>)>,
    name: Seq<char>,
    value: Option<Seq<char>>,
) -> bool {
    match value {
        Some(value) => exists|i: int|
            {
                &&& 0 <= i < pairs.len()
                &&& #[trigger] pairs[i] == (name, value)
                &&& forall|j: int| i < j < pairs.len() ==> (#[trigger] pairs[j]).0 != name
            },
        None => forall|i: int| 0 <= i < pairs.len() ==> (#[trigger] pairs[i]).0 != name,
    }
}

proof fn lemma_gives(
    pairs: Seq<(Seq<char>, Seq<char>)>,
    name: Seq<char>,
    value: Option<Seq<char>>,
)
    requires
        gives(pairs, name, value),
    ensures
        last_value(pairs, name) == value,
    decreases pairs.len(),
{
    if pairs.len() > 0 {
        let n = pairs.len() - 1;
        let front = pairs.drop_last();
        assert(pairs.last() == pairs[n]);
        if pairs[n].0 != name {
            match value {
                Some(value) => {
                    let i = choose|i: int|
                        {
                            &&& 0 <= i < pairs.len()
                            &&& #[trigger] pairs[i] == (name, value)
                            &&& forall|j: int|
                                i < j < pairs.len() ==> (#[trigger] pairs[j]).0 != name
                        };
                    assert(front[i] == (name, value));
                    assert forall|j: int| i < j < front.len() implies (#[trigger] front[j]).0
                        != name by {
                        assert(front[j] == pairs[j]);
                    }
                },
                None => {
                    assert forall|j: int| 0 <= j < front.len() implies (#[trigger] front[j]).0
                        != name by {
                        assert(front[j] == pairs[j]);
                    }
                },
            }
            lemma_gives(front, name, value);
        } else if value is Some {
            let i = choose|i: int|
                {
                    &&& 0 <= i < pairs.len()
                    &&& #[trigger] pairs[i] == (name, value->0)
                    &&& forall|j: int| i < j < pairs.len() ==> (#[trigger] pairs[j]).0 != name
                };
            if i < n {
                assert(pairs[n].0 != name);
            }
        }
    }
}

/// Of the values under a name the last one counts; other names do not.
pub proof fn law_the_last_value_counts(
    params: Params,
    name: &str,
    value: Option<&str>,
    given: Option<Seq<char>>,
)
    requires
        call_ensures(Params::get, (&params, name), value),
        gives(params@, name@, given),
    ensures
        value is Some <==> given is Some,
        value is Some ==> (value->0)@ == given->0,
{
    lemma_gives(params@, name@, given);
}

/// The parameters are the pairs, in their order.
pub proof fn law_parameters_are_the_pairs(params: Params)
    ensures
        params@.len() == params.pairs@.len(),
        forall|i: int|
            0 <= i < params@.len() ==> #[trigger] params@[i] == (
                params.pairs@[i].0@,
                params.pairs@[i].1@,
            ),
{
}

/// A query of plain names and values is read as these, in their order; without a
/// query there are none.
pub proof fn law_plain_queries_are_read(
    query: Option<&str>,
    params: Params,
    given: Seq<(Seq<char>, Seq<char>)>,
)
    requires
        call_ensures(Params::read, (query,), params),
        query is None ==> given.len() == 0,
        query matches Some(query) ==> plain_pairs(given) && query@ == written_form(given),
    ensures
        params@ == given,
{
    if query is None {
        assert(params@ =~= given);
    }
}

/// `time` is the time that a parameter writes, or the other one if it is not given.
pub open spec fn asks_for_time(given: Option<Seq<char>>, otherwise: i64, time: i64) -> bool {
    match given {
        Some(text) => writes_signed(text, time),
        None => time == otherwise,
    }
}

proof fn lemma_time(given: Option<Seq<char>>, otherwise: i64)
    ensures
        match given {
            Some(text) => signed_read(text) matches Some(n) ==> i64::MIN <= n <= i64::MAX
                && asks_for_time(given, otherwise, n as i64),
            None => asks_for_time(given, otherwise, otherwise),
        },
        forall|time: i64| #[trigger]
            asks_for_time(given, otherwise, time) ==> (given matches Some(text) ==> signed_read(
                text,
            ) == Some(time as int)),
{
    match given {
        Some(text) => {
            law_signed_texts_are_read(text, 0);
            if let Some(n) = signed_read(text) {
                law_signed_texts_are_read(text, n as i64);
            }
            assert forall|time: i64| #[trigger]
                asks_for_time(given, otherwise, time) implies signed_read(text) == Some(
                time as int,
            ) by {
                law_signed_texts_are_read(text, time);
            }
        },
        None => {},
    }
}

/// What a request to open a search is answered, given what each of its
/// parameters is: a query for just that, or a refusal because of a time that
/// cannot be read.
pub open spec fn opens_as_asked(
    begin_time: Option<Seq<char>>,
    end_time: Option<Seq<char>>,
    level: Option<Seq<char>>,
    filter: Option<Seq<char>>,
    decision: Result<LogQuery, Response>,
) -> bool {
    match decision {
        Ok(query) => {
            &&& asks_for_time(begin_time, 0, query.begin_time)
            &&& asks_for_time(end_time, i64::MAX, query.end_time)
            &&& level matches Some(name) ==> query.level == level_named(name)
            &&& level is None ==> query.level is None
            &&& filter matches Some(text) ==> query.filter@ == text
            &&& filter is None ==> query.filter@.len() == 0
        },
        Err(reply) => {
            &&& says_nothing(reply, StatusCode::BadRequest)
            &&& (forall|time: i64| !#[trigger] asks_for_time(begin_time, 0, time)) || (forall|
                time: i64,
            | !#[trigger] asks_for_time(end_time, i64::MAX, time))
        },
    }
}

/// Each parameter of a request to open a search is read for itself, whatever the
/// others are.
pub proof fn law_searches_are_opened_as_asked(
    log_file: &str,
    params: Params,
    decision: Result<LogQuery, Response>,
    begin_time: Option<Seq<char>>,
    end_time: Option<Seq<char>>,
    level: Option<Seq<char>>,
    filter: Option<Seq<char>>,
)
    requires
        call_ensures(StatusServer::log_open_with, (log_file, &params), decision),
        log_file@.len() > 0,
        gives(params@, "begin_time"@, begin_time),
        gives(params@, "end_time"@, end_time),
        gives(params@, "level"@, level),
        gives(params@, "filter"@, filter),
    ensures
        opens_as_asked(begin_time, end_time, level, filter, decision),
{
    lemma_opens(params@, begin_time, end_time, level, filter);
    if let Err(reply) = decision {
        lemma_headers(reply);
    }
}

proof fn lemma_opens(
    pairs: Seq<(Seq<char>, Seq<char>)>,
    begin_time: Option<Seq<char>>,
    end_time: Option<Seq<char>>,
    level: Option<Seq<char>>,
    filter: Option<Seq<char>>,
)
    requires
        gives(pairs, "begin_time"@, begin_time),
        gives(pairs, "end_time"@, end_time),
        gives(pairs, "level"@, level),
        gives(pairs, "filter"@, filter),
    ensures
        match query_of(pairs) {
            Some(query) => {
                &&& asks_for_time(begin_time, 0, query.begin_time)
                &&& asks_for_time(end_time, i64::MAX, query.end_time)
                &&& level matches Some(name) ==> query.level == level_named(name)
                &&& level is None ==> query.level is None
                &&& filter matches Some(text) ==> query.filter == text
                &&& filter is None ==> query.filter.len() == 0
            },
            None => (forall|time: i64| !#[trigger] asks_for_time(begin_time, 0, time)) || (forall|
                time: i64,
            | !#[trigger] asks_for_time(end_time, i64::MAX, time)),
        },
{
    lemma_gives(pairs, "begin_time"@, begin_time);
    lemma_gives(pairs, "end_time"@, end_time);
    lemma_gives(pairs, "level"@, level);
    lemma_gives(pairs, "filter"@, filter);
    lemma_time(begin_time, 0);
    lemma_time(end_time, i64::MAX);
}

/// A request whose query gives plain parameters opens a search as these ask for.
pub proof fn law_plain_queries_open_searches(
    log_file: &str,
    query: Option<&str>,
    given: Seq<(Seq<char>, Seq<char>)>,
    decision: Result<LogQuery, Response>,
    begin_time: Option<Seq<char>>,
    end_time: Option<Seq<char>>,
    level: Option<Seq<char>>,
    filter: Option<Seq<char>>,
)
    requires
        call_ensures(StatusServer::log_open, (log_file, query), decision),
        log_file@.len() > 0,
        query is None ==> given.len() == 0,
        query matches Some(query) ==> plain_pairs(given) && query@ == written_form(given),
        gives(given, "begin_time"@, begin_time),
        gives(given, "end_time"@, end_time),
        gives(given, "level"@, level),
        gives(given, "filter"@, filter),
    ensures
        opens_as_asked(begin_time, end_time, level, filter, decision),
{
    if query is None {
        assert(given =~= Seq::<(Seq<char>, Seq<char>)>::empty());
    }
    lemma_opens(given, begin_time, end_time, level, filter);
    if let Err(reply) = decision {
        lemma_headers(reply);
    }
}

/// A query that gives nothing but a filter opens a search for that filter, at
/// all times from the epoch on and of all levels.
pub proof fn law_a_filter_alone_opens_a_search(
    log_file: &str,
    query: &str,
    text: Seq<char>,
    decision: Result<LogQuery, Response>,
)
    requires
        call_ensures(StatusServer::log_open, (log_file, Some(query)), decision),
        log_file@.len() > 0,
        plain_text(text),
        query@ == "filter="@ + text,
    ensures
        decision matches Ok(query) && {
            &&& query.filter@ == text
            &&& query.begin_time == 0
            &&& query.end_time == i64::MAX
            &&& query.level is None
        },
{
    let given = seq![("filter"@, text)];
    reveal_strlit("filter");
    reveal_strlit("=");
    reveal_strlit("filter=");
    reveal_strlit("begin_time");
    reveal_strlit("end_time");
    reveal_strlit("level");
    assert("filter="@ =~= "filter"@ + "="@);
    lemma_single_pair("filter"@, text);
    assert("filter"@.len() == 6 && "begin_time"@.len() == 10 && "end_time"@.len() == 8
        && "level"@.len() == 5);
    assert(given[0] == ("filter"@, text));
    assert(gives(given, "filter"@, Some(text)));
    assert(asks_for_time(None, 0, 0) && asks_for_time(None, i64::MAX, i64::MAX));
    law_plain_queries_open_searches(
        log_file,
        Some(query),
        given,
        decision,
        None,
        None,
        None,
        Some(text),
    );
}

/// Logs that are not written to a file are not searched, whatever is asked for.
pub proof fn law_logs_without_a_file_are_not_searched(
    log_file: &str,
    params: Params,
    query: Option<&str>,
    decision: Result<LogQuery, Response>,
    raw_decision: Result<LogQuery, Response>,
)
    requires
        call_ensures(StatusServer::log_open_with, (log_file, &params), decision),
        call_ensures(StatusServer::log_open, (log_file, query), raw_decision),
        log_file@.len() == 0,
    ensures
        decision is Err && says_json(
            decision->Err_0,
            StatusCode::Success,
            "TiKV cannot provide log service because of the log output to terminal"@,
        ),
        raw_decision is Err && says_json(
            raw_decision->Err_0,
            StatusCode::Success,
            "TiKV cannot provide log service because of the log output to terminal"@,
        ),
{
    lemma_headers(decision->Err_0);
    lemma_headers(raw_decision->Err_0);
    assert((decision->Err_0)@.headers[0] == ("content-type"@, "application/json"@));
    assert((raw_decision->Err_0)@.headers[0] == ("content-type"@, "application/json"@));
}

/// `limit` is the number of items that a parameter writes, or the usual one if
/// it is not given.
pub open spec fn asks_for_items(given: Option<Seq<char>>, limit: nat) -> bool {
    match given {
        Some(text) => writes(text, limit) && limit <= usize::MAX,
        None => limit == 128,
    }
}

proof fn lemma_limit(given: Option<Seq<char>>, pairs: Seq<(Seq<char>, Seq<char>)>)
    requires
        gives(pairs, "limit"@, given),
    ensures
        match limit_of(pairs) {
            Some(limit) => asks_for_items(given, limit as nat),
            None => forall|limit: nat| !#[trigger] asks_for_items(given, limit),
        },
{
    lemma_gives(pairs, "limit"@, given);
    if let Some(text) = given {
        if let Some(n) = unsigned_read(text, usize::MAX as nat) {
            law_unsigned_texts_are_read(text, usize::MAX as nat, n);
        }
        assert forall|limit: nat| #[trigger] asks_for_items(given, limit) implies unsigned_read(
            text,
            usize::MAX as nat,
        ) == Some(limit) by {
            law_unsigned_texts_are_read(text, usize::MAX as nat, limit);
        }
    }
}

/// The token of a request, empty if it is not given.
pub open spec fn token_given(given: Option<Seq<char>>) -> Seq<char> {
    match given {
        Some(token) => token,
        None => Seq::empty(),
    }
}

/// What a request for the next page is answered, given its parameters: an empty
/// page for just as many items as were asked for, and the search under the token;
/// or a refusal because of a number that cannot be read or a token that is not open.
pub open spec fn pages_as_asked<F>(
    before: Map<Seq<char>, LogIterator<F>>,
    token: Option<Seq<char>>,
    limit: Option<Seq<char>>,
    decision: Result<(LogPage, &mut LogIterator<F>), Response>,
) -> bool {
    match decision {
        Ok((page, search)) => {
            &&& asks_for_items(limit, page@.limit)
            &&& page@.items.len() == 0
            &&& before.contains_key(token_given(token))
            &&& *search == before[token_given(token)]
        },
        Err(reply) => {
            &&& says_nothing(reply, StatusCode::BadRequest) && (forall|n: nat|
                !#[trigger] asks_for_items(limit, n)) || says_not_open(reply, token_given(token))
                && !before.contains_key(token_given(token))
            &&& (forall|n: nat| !#[trigger] asks_for_items(limit, n)) ==> says_nothing(
                reply,
                StatusCode::BadRequest,
            )
        },
    }
}

/// A page holds as many items as the request asks for, from the search whose
/// token it gives.
pub proof fn law_pages_are_as_asked<F>(
    log_iters: &mut LogIterators<F>,
    params: Params,
    decision: Result<(LogPage, &mut LogIterator<F>), Response>,
    token: Option<Seq<char>>,
    limit: Option<Seq<char>>,
)
    requires
        call_ensures(StatusServer::log_next_with::<F>, (log_iters, &params), decision),
        gives(params@, "token"@, token),
        gives(params@, "limit"@, limit),
    ensures
        pages_as_asked(old(log_iters)@, token, limit, decision),
        decision matches Ok((_, search)) ==> final(log_iters)@ == old(log_iters)@.insert(
            token_given(token),
            *final(search),
        ),
        decision is Err ==> final(log_iters)@ == old(log_iters)@,
{
    lemma_gives(params@, "token"@, token);
    lemma_limit(limit, params@);
    if let Err(reply) = decision {
        lemma_headers(reply);
        if limit_of(params@) is Some {
            assert(reply@.headers[0] == ("content-type"@, "application/json"@));
        }
    }
}

/// A query of plain parameters is given the page that these ask for.
pub proof fn law_plain_queries_are_given_pages<F>(
    log_iters: &mut LogIterators<F>,
    query: Option<&str>,
    given: Seq<(Seq<char>, Seq<char>)>,
    decision: Result<(LogPage, &mut LogIterator<F>), Response>,
    token: Option<Seq<char>>,
    limit: Option<Seq<char>>,
)
    requires
        call_ensures(StatusServer::log_next::<F>, (log_iters, query), decision),
        query is None ==> given.len() == 0,
        query matches Some(query) ==> plain_pairs(given) && query@ == written_form(given),
        gives(given, "token"@, token),
        gives(given, "limit"@, limit),
    ensures
        pages_as_asked(old(log_iters)@, token, limit, decision),
        decision matches Ok((_, search)) ==> final(log_iters)@ == old(log_iters)@.insert(
            token_given(token),
            *final(search),
        ),
        decision is Err ==> final(log_iters)@ == old(log_iters)@,
{
    if query is None {
        assert(given =~= Seq::<(Seq<char>, Seq<char>)>::empty());
    }
    lemma_gives(given, "token"@, token);
    lemma_limit(limit, given);
    if let Err(reply) = decision {
        lemma_headers(reply);
        if limit_of(given) is Some {
            assert(reply@.headers[0] == ("content-type"@, "application/json"@));
        }
    }
}

/// A limit that is written in decimal is the limit of the page.
pub proof fn law_written_limits_are_kept<F>(
    log_iters: &mut LogIterators<F>,
    params: Params,
    decision: Result<(LogPage, &mut LogIterator<F>), Response>,
    token: Seq<char>,
    limit: usize,
)
    requires
        call_ensures(StatusServer::log_next_with::<F>, (log_iters, &params), decision),
        gives(params@, "token"@, Some(token)),
        gives(params@, "limit"@, Some(decimal_text(limit as nat))),
        old(log_iters)@.contains_key(token),
    ensures
        decision is Ok,
        (decision->Ok_0).0@.limit == limit,
{
    lemma_written_value(limit as nat);
    lemma_gives(params@, "token"@, Some(token));
    lemma_limit(Some(decimal_text(limit as nat)), params@);
    assert(asks_for_items(Some(decimal_text(limit as nat)), limit as nat));
    law_unsigned_texts_are_read(decimal_text(limit as nat), usize::MAX as nat, limit as nat);
}

/// The usual sizes are what they are.
pub proof fn law_usual_sizes()
    ensures
        MAX_SEARCH_LOG_RESULT_SIZE == 128,
        DEFAULT_PROFILE_SECONDS == 10,
        MAX_THREADS == 32768,
{
}

/// What a request to close a search is answered, given its token: it closes the
/// search under the token and no other, and says whether there was one.
pub open spec fn closes_as_asked<F>(
    before: Map<Seq<char>, LogIterator<F>>,
    after: Map<Seq<char>, LogIterator<F>>,
    token: Seq<char>,
    reply: Response,
) -> bool {
    &&& !after.contains_key(token)
    &&& forall|other: Seq<char>|
        other != token ==> {
            &&& #[trigger] after.contains_key(other) == before.contains_key(other)
            &&& after.contains_key(other) ==> after[other] == before[other]
        }
    &&& before.contains_key(token) ==> says_json(reply, StatusCode::Success, "sucess"@)
    &&& !before.contains_key(token) ==> says_not_open(reply, token)
}

/// Closing closes the search whose token is given, and no other.
pub proof fn law_searches_are_closed_as_asked<F>(
    log_iters: &mut LogIterators<F>,
    params: Params,
    reply: Response,
    token: Option<Seq<char>>,
)
    requires
        call_ensures(StatusServer::log_close_with::<F>, (log_iters, &params), reply),
        gives(params@, "token"@, token),
    ensures
        closes_as_asked(old(log_iters)@, final(log_iters)@, token_given(token), reply),
{
    lemma_gives(params@, "token"@, token);
    lemma_headers(reply);
    assert(reply@.headers[0] == ("content-type"@, "application/json"@));
}

/// A query of plain parameters closes the search whose token it gives, and no other.
pub proof fn law_plain_queries_close_searches<F>(
    log_iters: &mut LogIterators<F>,
    query: Option<&str>,
    given: Seq<(Seq<char>, Seq<char>)>,
    reply: Response,
    token: Option<Seq<char>>,
)
    requires
        call_ensures(StatusServer::log_close::<F>, (log_iters, query), reply),
        query is None ==> given.len() == 0,
        query matches Some(query) ==> plain_pairs(given) && query@ == written_form(given),
        gives(given, "token"@, token),
    ensures
        closes_as_asked(old(log_iters)@, final(log_iters)@, token_given(token), reply),
{
    if query is None {
        assert(given =~= Seq::<(Seq<char>, Seq<char>)>::empty());
    }
    lemma_gives(given, "token"@, token);
    lemma_headers(reply);
    assert(reply@.headers[0] == ("content-type"@, "application/json"@));
}

/// A search that is opened is open under the token that the reply holds, which
/// writes the moment, and the other searches stay as they are.
pub proof fn law_opened_searches_are_open<F>(
    log_iters: &mut LogIterators<F>,
    search: LogIterator<F>,
    nanos: i64,
    reply: Response,
    token: Seq<char>,
    moment: Seq<char>,
)
    requires
        call_ensures(StatusServer::log_opened_at::<F>, (log_iters, search, nanos), reply),
        token == "token-"@ + moment,
        moment == signed_text(nanos as int),
    ensures
        says_json(reply, StatusCode::Success, token),
        final(log_iters)@.contains_key(token) && final(log_iters)@[token] == search,
        forall|other: Seq<char>|
            other != token ==> {
                &&& #[trigger] final(log_iters)@.contains_key(other) == old(log_iters)@.contains_key(other)
                &&& old(log_iters)@.contains_key(other) ==> final(log_iters)@[other] == old(log_iters)@[other]
            },
{
    lemma_headers(reply);
    assert(reply@.headers[0] == ("content-type"@, "application/json"@));
    assert(token == token_at(nanos));
}

/// A search that could not be begun opens nothing, and the reply says why.
pub proof fn law_failed_searches_open_nothing<F>(
    log_iters: &mut LogIterators<F>,
    error: LogSearchError,
    reply: Option<Response>,
)
    requires
        call_ensures(
            StatusServer::log_opened::<F>,
            (log_iters, Err::<LogIterator<F>, LogSearchError>(error)),
            reply,
        ),
    ensures
        final(log_iters)@ == old(log_iters)@,
        reply is Some,
        says_json(
            reply->0,
            StatusCode::InternalServerError,
            "LogSearchError("@ + debug_text(error@) + ")"@,
        ),
{
    lemma_headers(reply->0);
    assert((reply->0)@.headers[0] == ("content-type"@, "application/json"@));
}

/// A search that was begun is opened under a token that the clock gives; it is
/// not, and nothing else changes, only if the clock gives none.
pub proof fn law_begun_searches_are_opened<F>(
    log_iters: &mut LogIterators<F>,
    search: LogIterator<F>,
    reply: Option<Response>,
)
    requires
        call_ensures(
            StatusServer::log_opened::<F>,
            (log_iters, Ok::<LogIterator<F>, LogSearchError>(search)),
            reply,
        ),
    ensures
        reply matches Some(reply) ==> exists|nanos: i64|
            {
                let token = "token-"@ + #[trigger] signed_text(nanos as int);
                &&& clock_may_say(Some(nanos))
                &&& says_json(reply, StatusCode::Success, token)
                &&& final(log_iters)@ == old(log_iters)@.insert(token, search)
            },
        reply is None ==> clock_may_say(None) && final(log_iters)@ == old(log_iters)@,
{
    if let Some(r) = reply {
        lemma_headers(r);
        assert(r@.headers[0] == ("content-type"@, "application/json"@));
        let nanos = choose|nanos: i64|
            {
                &&& clock_may_say(Some(nanos))
                &&& r@ == json_response(StatusCode::Success, #[trigger] token_at(nanos))
                &&& final(log_iters)@ == old(log_iters)@.insert(token_at(nanos), search)
            };
        assert("token-"@ + signed_text(nanos as int) == token_at(nanos));
    }
}

/// `seconds` is the time that a parameter writes, or the usual one if it is not given.
pub open spec fn asks_for_seconds(given: Option<Seq<char>>, seconds: nat) -> bool {
    match given {
        Some(text) => writes(text, seconds) && seconds <= u64::MAX,
        None => seconds == 10,
    }
}

/// What a request for a profile is answered, given its parameter: the seconds
/// that were asked for, or a refusal because they cannot be read.
pub open spec fn profiles_as_asked(
    given: Option<Seq<char>>,
    decision: Result<u64, Response>,
) -> bool {
    match decision {
        Ok(seconds) => asks_for_seconds(given, seconds as nat),
        Err(reply) => says_nothing(reply, StatusCode::BadRequest) && forall|n: nat|
            !#[trigger] asks_for_seconds(given, n),
    }
}

proof fn lemma_seconds(given: Option<Seq<char>>)
    ensures
        forall|n: nat| #[trigger]
            asks_for_seconds(given, n) ==> (given matches Some(text) ==> unsigned_read(
                text,
                u64::MAX as nat,
            ) == Some(n)),
        given matches Some(text) ==> (unsigned_read(text, u64::MAX as nat) matches Some(n)
            ==> asks_for_seconds(given, n)),
{
    if let Some(text) = given {
        assert forall|n: nat| #[trigger] asks_for_seconds(given, n) implies unsigned_read(
            text,
            u64::MAX as nat,
        ) == Some(n) by {
            law_unsigned_texts_are_read(text, u64::MAX as nat, n);
        }
        if let Some(n) = unsigned_read(text, u64::MAX as nat) {
            law_unsigned_texts_are_read(text, u64::MAX as nat, n);
        }
    }
}

/// A profile is taken for as long as the request asks for.
pub proof fn law_profiles_are_as_asked(
    params: Params,
    given: Option<Seq<char>>,
    decision: Result<u64, Response>,
)
    requires
        call_ensures(StatusServer::dump_prof_with, (&params,), decision),
        gives(params@, "seconds"@, given),
    ensures
        profiles_as_asked(given, decision),
{
    lemma_gives(params@, "seconds"@, given);
    lemma_seconds(given);
    if let Err(reply) = decision {
        lemma_headers(reply);
    }
}

/// A query of plain parameters asks for a profile as these say; without a query
/// there is none.
pub proof fn law_plain_queries_ask_for_profiles(
    query: Option<&str>,
    pairs: Seq<(Seq<char>, Seq<char>)>,
    given: Option<Seq<char>>,
    decision: Result<u64, Response>,
)
    requires
        call_ensures(StatusServer::dump_prof_to_resp, (query,), decision),
        query matches Some(query) ==> plain_pairs(pairs) && query@ == written_form(pairs),
        gives(pairs, "seconds"@, given),
    ensures
        query is Some ==> profiles_as_asked(given, decision),
        query is None ==> decision is Err && says_nothing(decision->Err_0, StatusCode::BadRequest),
{
    lemma_gives(pairs, "seconds"@, given);
    lemma_seconds(given);
    if let Err(reply) = decision {
        lemma_headers(reply);
    }
}

/// A new server is not started, and has what it is given.
pub proof fn law_new_servers_are_not_started(
    size: usize,
    log_file: String,
    server: StatusServer,
    started: bool,
    threads: usize,
    path: &str,
)
    requires
        call_ensures(StatusServer::new, (size, log_file), server),
        call_ensures(StatusServer::is_started, (&server,), started),
        call_ensures(StatusServer::thread_pool_size, (&server,), threads),
        call_ensures(StatusServer::log_file, (&server,), path),
    ensures
        !started,
        threads == size,
        path@ == log_file@,
{
}

/// A server that was started listens on the address that it was started with,
/// and is as it was otherwise.
pub proof fn law_started_servers_listen(
    server: &mut StatusServer,
    addr: String,
    started: bool,
    listening: &str,
)
    requires
        call_ensures(StatusServer::start, (server, addr), ()),
        call_ensures(StatusServer::is_started, (&*final(server),), started),
        call_ensures(StatusServer::listening_addr, (&*final(server),), listening),
    ensures
        started,
        listening@ == addr@,
        final(server)@.log_file == old(server)@.log_file,
        final(server)@.status_thread_pool_size == old(server)@.status_thread_pool_size,
{
}

} // verus!
