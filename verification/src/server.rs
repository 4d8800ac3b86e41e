//! The routes of the status server and the replies to its requests.

use vstd::prelude::*;

use crate::error::{debug_text, format_debug, quoted, search_error_text, LogSearchError};
use crate::http::{
    bare_response, json_response, text_response, Method, Response, ResponseView, StatusCode,
};
use crate::line::{level_named, Level};
use crate::number::{
    decimal_text, law_signed_text_tells_integers_apart, law_unsigned_round_trip,
    lemma_written_value, read_i64, read_u64, read_usize, signed_read, signed_text, unsigned_read,
    write_i64, write_u64,
};
use crate::page::{LogPage, LogPageView};
use crate::query::{
    last_value, lemma_single_pair, params_of, plainly_read, query_text, written_form, Params,
};
use crate::search::{LogIterator, LogQuery, LogQueryView};
use crate::table::LogIterators;
use crate::text::{plain_text, printable_text, same_text, starts_with};

verus! {

/// How many items a page of a log search holds, unless the request says otherwise.
pub const MAX_SEARCH_LOG_RESULT_SIZE: usize = 128;

/// How long a profile is taken, in seconds, unless the request says otherwise.
pub const DEFAULT_PROFILE_SECONDS: u64 = 10;

/// How many threads may serve requests.
pub const MAX_THREADS: usize = 32768;

/// What the paths of all fail point requests begin with.
pub const FAIL_POINTS_REQUEST_PATH: &'static str = "/fail";

/// Who answers a request.
#[derive(Debug, Clone, Copy, PartialEq, Eq, Structural)]
pub enum Route {
    /// The metrics of the process.
    Metrics,
    /// Whether the server is there.
    Status,
    /// A profile of the heap.
    HeapProfile,
    /// A profile of the processor.
    CpuProfile,
    /// The configuration.
    Config,
    /// A log search is to be opened.
    LogOpen,
    /// The next page of a log search.
    LogNext,
    /// A log search is to be closed.
    LogClose,
    /// The fail points.
    FailPoints,
    /// Nobody.
    NotFound,
}

/// Who answers a request. Fail points are there only if they are enabled, and
/// then they answer everything below their path.
pub open spec fn route_of(method: Method, path: Seq<char>, fail_points: bool) -> Route {
    if fail_points && FAIL_POINTS_REQUEST_PATH@.is_prefix_of(path) {
        Route::FailPoints
    } else if method != Method::Get {
        Route::NotFound
    } else if path == "/metrics"@ {
        Route::Metrics
    } else if path == "/status"@ {
        Route::Status
    } else if path == "/pprof/profile"@ {
        Route::HeapProfile
    } else if path == "/pprof/cpu"@ {
        Route::CpuProfile
    } else if path == "/config"@ {
        Route::Config
    } else if path == "/log/open"@ {
        Route::LogOpen
    } else if path == "/log/next"@ {
        Route::LogNext
    } else if path == "/log/close"@ {
        Route::LogClose
    } else {
        Route::NotFound
    }
}

/// The time that a parameter gives, or `default` without it; `None` if it gives none.
pub open spec fn time_param(
    params: Seq<(Seq<char>, Seq<char>)>,
    name: Seq<char>,
    default: i64,
) -> Option<i64> {
    match last_value(params, name) {
        Some(value) => match signed_read(value) {
            Some(time) => Some(time as i64),
            None => None,
        },
        None => Some(default),
    }
}

/// What the parameters of a request ask the logs for; `None` if their times
/// cannot be read.
pub open spec fn query_of(params: Seq<(Seq<char>, Seq<char>)>) -> Option<LogQueryView> {
    match (
        time_param(params, "begin_time"@, 0),
        time_param(params, "end_time"@, i64::MAX),
    ) {
        (Some(begin_time), Some(end_time)) => Some(
            LogQueryView {
                begin_time,
                end_time,
                level: match last_value(params, "level"@) {
                    Some(name) => level_named(name),
                    None => None,
                },
                filter: match last_value(params, "filter"@) {
                    Some(filter) => filter,
                    None => Seq::empty(),
                },
            },
        ),
        _ => None,
    }
}

/// The reply to a request to search logs that are not written to a file.
pub open spec fn no_log_file_reply() -> ResponseView {
    json_response(
        StatusCode::Success,
        "TiKV cannot provide log service because of the log output to terminal"@,
    )
}

/// The query that a request to open a log search asks for, or the reply that refuses it.
pub open spec fn open_decision(
    log_file: Seq<char>,
    params: Seq<(Seq<char>, Seq<char>)>,
) -> Result<LogQueryView, ResponseView> {
    if log_file.len() == 0 {
        Err(no_log_file_reply())
    } else {
        match query_of(params) {
            Some(query) => Ok(query),
            None => Err(bare_response(StatusCode::BadRequest)),
        }
    }
}

/// The token of a search that is opened so many nanoseconds after the Unix epoch.
pub open spec fn token_at(nanos: i64) -> Seq<char> {
    "token-"@ + signed_text(nanos as int)
}

/// The token that the parameters of a request give.
pub open spec fn token_of(params: Seq<(Seq<char>, Seq<char>)>) -> Seq<char> {
    match last_value(params, "token"@) {
        Some(token) => token,
        None => Seq::empty(),
    }
}

/// The number of items that the parameters of a request ask for; `None` if it
/// cannot be read.
pub open spec fn limit_of(params: Seq<(Seq<char>, Seq<char>)>) -> Option<usize> {
    match last_value(params, "limit"@) {
        Some(value) => match unsigned_read(value, usize::MAX as nat) {
            Some(limit) => Some(limit as usize),
            None => None,
        },
        None => Some(MAX_SEARCH_LOG_RESULT_SIZE),
    }
}

/// The reply to a request with a token under which no search is open.
pub open spec fn not_open_reply(token: Seq<char>) -> ResponseView {
    json_response(
        StatusCode::BadRequest,
        "the "@ + debug_text(token) + " dose not open or closed"@,
    )
}

/// How long a profile is to be taken, in seconds, or the reply that refuses it.
pub open spec fn profile_decision(
    query_given: bool,
    params: Seq<(Seq<char>, Seq<char>)>,
) -> Result<u64, ResponseView> {
    if !query_given {
        Err(bare_response(StatusCode::BadRequest))
    } else {
        match last_value(params, "seconds"@) {
            Some(value) => match unsigned_read(value, u64::MAX as nat) {
                Some(seconds) => Ok(seconds as u64),
                None => Err(bare_response(StatusCode::BadRequest)),
            },
            None => Ok(DEFAULT_PROFILE_SECONDS),
        }
    }
}

/// The reply that holds a profile.
pub open spec fn profile_reply(profile: Seq<u8>) -> ResponseView {
    ResponseView {
        status: StatusCode::Success,
        headers: seq![
            ("X-Content-Type-Options"@, "nosniff"@),
            ("Content-Disposition"@, "attachment; filename=\"profile\""@),
            ("Content-Type"@, "application/octet-stream"@),
            ("Content-Length"@, decimal_text(profile.len())),
        ],
        body: profile,
    }
}

/// Calls `chrono::Utc::now` and asks it for its `timestamp_nanos_opt`: the nanoseconds since the Unix
/// epoch, or `None` where they do not fit in 64 bits. Nothing is claimed of the
/// time. The call panics if the clock stands before the epoch, whatever its caller does.
#[verifier::external_body]
fn now_nanos() -> (nanos: Option<i64>) {
    chrono::Utc::now().timestamp_nanos_opt()
}

/// The clock may stand so many nanoseconds after the Unix epoch, or, with
/// `None`, so far from it that 64 bits do not hold them.
pub closed spec fn clock_may_say(nanos: Option<i64>) -> bool {
    call_ensures(now_nanos, (), nanos)
}

/// Formats `mime::APPLICATION_OCTET_STREAM`, which is claimed to be this text.
#[verifier::external_body]
fn octet_stream() -> (text: String)
    ensures
        text@ == "application/octet-stream"@,
{
    mime::APPLICATION_OCTET_STREAM.to_string()
}

/// A status server as its owner sees it.
pub struct StatusServer {
    status_thread_pool_size: usize,
    log_file: String,
    addr: Option<String>,
}

/// The values of a `StatusServer`.
pub struct StatusServerView {
    /// How many threads serve requests.
    pub status_thread_pool_size: usize,
    /// Where the logs are written; empty if they are not written to a file.
    pub log_file: Seq<char>,
    /// The address that is listened on, once the server was started.
    pub addr: Option<Seq<char>>,
}

impl View for StatusServer {
    type V = StatusServerView;

    closed spec fn view(&self) -> StatusServerView {
        StatusServerView {
            status_thread_pool_size: self.status_thread_pool_size,
            log_file: self.log_file@,
            addr: match self.addr {
                Some(addr) => Some(addr@),
                None => None,
            },
        }
    }
}

impl StatusServer {
    /// A server that is not yet started.
    pub fn new(status_thread_pool_size: usize, log_file: String) -> (server: StatusServer)
        requires
            1 <= status_thread_pool_size <= MAX_THREADS,
        ensures
            server@ == (StatusServerView {
                status_thread_pool_size,
                log_file: log_file@,
                addr: None,
            }),
    {
        StatusServer { status_thread_pool_size, log_file, addr: None }
    }

    /// How many threads serve requests.
    pub fn thread_pool_size(&self) -> (size: usize)
        ensures
            size == self@.status_thread_pool_size,
    {
        self.status_thread_pool_size
    }

    /// Where the logs are written; empty if they are not written to a file.
    pub fn log_file(&self) -> (log_file: &str)
        ensures
            log_file@ == self@.log_file,
    {
        self.log_file.as_str()
    }

    /// Whether the server was started.
    pub fn is_started(&self) -> (started: bool)
        ensures
            started == (self@.addr is Some),
    {
        self.addr.is_some()
    }

    /// The server was started, and listens on the given address. A server is
    /// started at most once.
    pub fn start(&mut self, addr: String)
        requires
            old(self)@.addr is None,
        ensures
            final(self)@ == (StatusServerView { addr: Some(addr@), ..old(self)@ }),
    {
        self.addr = Some(addr);
    }

    /// The address that is listened on.
    pub fn listening_addr(&self) -> (addr: &str)
        requires
            self@.addr is Some,
        ensures
            self@.addr == Some(addr@),
    {
        match &self.addr {
            Some(addr) => addr.as_str(),
            None => "",
        }
    }

    /// Who answers a request.
    pub fn route(method: Method, path: &str, fail_points: bool) -> (route: Route)
        ensures
            route == route_of(method, path@, fail_points),
    {
        if fail_points && starts_with(path, FAIL_POINTS_REQUEST_PATH) {
            return Route::FailPoints;
        }
        if method != Method::Get {
            return Route::NotFound;
        }
        if same_text(path, "/metrics") {
            Route::Metrics
        } else if same_text(path, "/status") {
            Route::Status
        } else if same_text(path, "/pprof/profile") {
            Route::HeapProfile
        } else if same_text(path, "/pprof/cpu") {
            Route::CpuProfile
        } else if same_text(path, "/config") {
            Route::Config
        } else if same_text(path, "/log/open") {
            Route::LogOpen
        } else if same_text(path, "/log/next") {
            Route::LogNext
        } else if same_text(path, "/log/close") {
            Route::LogClose
        } else {
            Route::NotFound
        }
    }

    /// The time that a parameter gives, or `default` without it; `None` if it gives none.
    fn time_param(params: &Params, name: &str, default: i64) -> (time: Option<i64>)
        ensures
            time == time_param(params@, name@, default),
    {
        match params.get(name) {
            Some(value) => read_i64(value),
            None => Some(default),
        }
    }

    /// Decides on a request to open a log search: what to search the logs for,
    /// or the reply that refuses it.
    pub fn log_open(log_file: &str, query: Option<&str>) -> (decision: Result<LogQuery, Response>)
        ensures
            plainly_read(query_text(query)),
            ({
                let params = params_of(query_text(query));
                match decision {
                    Ok(query) => open_decision(log_file@, params) == Ok::<
                        LogQueryView,
                        ResponseView,
                    >(query@),
                    Err(reply) => open_decision(log_file@, params) == Err::<
                        LogQueryView,
                        ResponseView,
                    >(reply@),
                }
            }),
    {
        Self::log_open_with(log_file, &Params::read(query))
    }

    /// Decides on a request with the given parameters to open a log search.
    pub fn log_open_with(log_file: &str, params: &Params) -> (decision: Result<LogQuery, Response>)
        ensures
            match decision {
                Ok(query) => open_decision(log_file@, params@) == Ok::<LogQueryView, ResponseView>(
                    query@,
                ),
                Err(reply) => open_decision(log_file@, params@) == Err::<
                    LogQueryView,
                    ResponseView,
                >(reply@),
            },
    {
        if log_file.is_empty() {
            return Err(
                Response::json(
                    StatusCode::Success,
                    "TiKV cannot provide log service because of the log output to terminal",
                ),
            );
        }
        let begin_time: i64 = match Self::time_param(params, "begin_time", 0) {
            Some(time) => time,
            None => return Err(Response::bare(StatusCode::BadRequest)),
        };
        let end_time: i64 = match Self::time_param(params, "end_time", i64::MAX) {
            Some(time) => time,
            None => return Err(Response::bare(StatusCode::BadRequest)),
        };
        let level: Option<Level> = match params.get("level") {
            Some(name) => Level::from_str(name),
            None => None,
        };
        let filter: String = match params.get("filter") {
            Some(filter) => filter.to_owned(),
            None => String::new(),
        };
        Ok(LogQuery { begin_time, end_time, level, filter })
    }

    /// Opens a log search, or says why there is none: the reply to the request.
    /// The token of the search is made from the clock; `None`, with nothing
    /// opened, if the clock stands after the years that nanoseconds can count.
    /// A clock that stands before the Unix epoch cannot be read, and the call panics.
    pub fn log_opened<F>(
        log_iters: &mut LogIterators<F>,
        outcome: Result<LogIterator<F>, LogSearchError>,
    ) -> (reply: Option<Response>)
        requires
            old(log_iters).wf(),
        ensures
            final(log_iters).wf(),
            match (outcome, reply) {
                (Ok(search), Some(reply)) => exists|nanos: i64|
                    {
                        &&& clock_may_say(Some(nanos))
                        &&& reply@ == json_response(StatusCode::Success, #[trigger] token_at(nanos))
                        &&& final(log_iters)@ == old(log_iters)@.insert(token_at(nanos), search)
                    },
                (Err(error), Some(reply)) => {
                    &&& reply@ == json_response(
                        StatusCode::InternalServerError,
                        search_error_text(error@),
                    )
                    &&& printable_text(error@) ==> search_error_text(error@) == "LogSearchError("@
                        + quoted(error@) + ")"@
                    &&& final(log_iters)@ == old(log_iters)@
                },
                (Ok(_), None) => clock_may_say(None) && final(log_iters)@ == old(log_iters)@,
                (Err(_), None) => false,
            },
    {
        match outcome {
            Ok(search) => match now_nanos() {
                Some(nanos) => Some(Self::log_opened_at(log_iters, search, nanos)),
                None => None,
            },
            Err(error) => Some(
                Response::json(StatusCode::InternalServerError, error.to_text().as_str()),
            ),
        }
    }

    /// Opens a log search so many nanoseconds after the Unix epoch: the reply
    /// holds its token.
    pub fn log_opened_at<F>(
        log_iters: &mut LogIterators<F>,
        search: LogIterator<F>,
        nanos: i64,
    ) -> (reply: Response)
        requires
            old(log_iters).wf(),
        ensures
            final(log_iters).wf(),
            reply@ == json_response(StatusCode::Success, token_at(nanos)),
            final(log_iters)@ == old(log_iters)@.insert(token_at(nanos), search),
    {
        let mut token: String = "token-".to_owned();
        token.append(write_i64(nanos).as_str());
        let reply: Response = Response::json(StatusCode::Success, token.as_str());
        log_iters.insert(token, search);
        reply
    }

    /// The token that the parameters of a request give.
    fn token<'a>(params: &'a Params) -> (token: &'a str)
        ensures
            token@ == token_of(params@),
    {
        match params.get("token") {
            Some(token) => token,
            None => {
                proof {
                    reveal_strlit("");
                    assert(""@ =~= Seq::<char>::empty());
                }
                ""
            },
        }
    }

    /// The reply to a request with a token under which no search is open, from
    /// the token as `{:?}` writes it.
    pub fn log_not_open(token: &str) -> (reply: Response)
        ensures
            reply@ == json_response(
                StatusCode::BadRequest,
                "the "@ + token@ + " dose not open or closed"@,
            ),
    {
        let mut text: String = "the ".to_owned();
        text.append(token);
        text.append(" dose not open or closed");
        Response::json(StatusCode::BadRequest, text.as_str())
    }

    /// Decides on a request for the next page of a log search: an empty page
    /// and the search to fill it from, or the reply that refuses it.
    pub fn log_next<'a, F>(
        log_iters: &'a mut LogIterators<F>,
        query: Option<&str>,
    ) -> (decision: Result<(LogPage, &'a mut LogIterator<F>), Response>)
        requires
            old(log_iters).wf(),
        ensures
            final(log_iters).wf(),
            plainly_read(query_text(query)),
            tokens_are_read(query_text(query)),
            ({
                let params = params_of(query_text(query));
                let token = token_of(params);
                match decision {
                    Ok((page, search)) => {
                        &&& limit_of(params) matches Some(limit)
                        &&& page@ == (LogPageView { limit: limit as nat, items: Seq::empty() })
                        &&& old(log_iters)@.contains_key(token)
                        &&& *search == old(log_iters)@[token]
                        &&& final(log_iters)@ == old(log_iters)@.insert(token, *final(search))
                    },
                    Err(reply) => {
                        &&& final(log_iters)@ == old(log_iters)@
                        &&& limit_of(params) is None ==> reply@ == bare_response(
                            StatusCode::BadRequest,
                        )
                        &&& limit_of(params) is Some ==> !old(log_iters)@.contains_key(token)
                            && reply@ == not_open_reply(token)
                        &&& limit_of(params) is Some && printable_text(token) ==> debug_text(token)
                            == quoted(token)
                    },
                }
            }),
    {
        let params: Params = Params::read(query);
        proof {
            lemma_tokens_are_read(query_text(query));
        }
        Self::log_next_with(log_iters, &params)
    }

    /// Decides on a request with the given parameters for the next page of a log search.
    pub fn log_next_with<'a, F>(
        log_iters: &'a mut LogIterators<F>,
        params: &Params,
    ) -> (decision: Result<(LogPage, &'a mut LogIterator<F>), Response>)
        requires
            old(log_iters).wf(),
        ensures
            final(log_iters).wf(),
            ({
                let token = token_of(params@);
                match decision {
                    Ok((page, search)) => {
                        &&& limit_of(params@) matches Some(limit)
                        &&& page@ == (LogPageView { limit: limit as nat, items: Seq::empty() })
                        &&& old(log_iters)@.contains_key(token)
                        &&& *search == old(log_iters)@[token]
                        &&& final(log_iters)@ == old(log_iters)@.insert(token, *final(search))
                    },
                    Err(reply) => {
                        &&& final(log_iters)@ == old(log_iters)@
                        &&& limit_of(params@) is None ==> reply@ == bare_response(
                            StatusCode::BadRequest,
                        )
                        &&& limit_of(params@) is Some ==> !old(log_iters)@.contains_key(token)
                            && reply@ == not_open_reply(token)
                        &&& limit_of(params@) is Some && printable_text(token) ==> debug_text(token)
                            == quoted(token)
                    },
                }
            }),
    {
        let token: &str = Self::token(params);
        let limit: usize = match params.get("limit") {
            Some(value) => match read_usize(value) {
                Some(limit) => limit,
                None => return Err(Response::bare(StatusCode::BadRequest)),
            },
            None => MAX_SEARCH_LOG_RESULT_SIZE,
        };
        match log_iters.get_mut(token) {
            Some(search) => Ok((LogPage::new(limit), search)),
            None => Err(Self::log_not_open(format_debug(token).as_str())),
        }
    }

    /// The reply that holds a page of a log search, as JSON.
    pub fn log_page(json: &str) -> (reply: Response)
        ensures
            reply@ == json_response(StatusCode::Success, json@),
    {
        Response::json(StatusCode::Success, json)
    }

    /// Closes a log search: the reply to the request.
    pub fn log_close<F>(log_iters: &mut LogIterators<F>, query: Option<&str>) -> (reply: Response)
        requires
            old(log_iters).wf(),
        ensures
            final(log_iters).wf(),
            plainly_read(query_text(query)),
            tokens_are_read(query_text(query)),
            ({
                let token = token_of(params_of(query_text(query)));
                &&& final(log_iters)@ == old(log_iters)@.remove(token)
                &&& reply@ == close_reply(old(log_iters)@.contains_key(token), token)
                &&& !old(log_iters)@.contains_key(token) && printable_text(token) ==> debug_text(token)
                    == quoted(token)
            }),
    {
        let params: Params = Params::read(query);
        proof {
            lemma_tokens_are_read(query_text(query));
        }
        Self::log_close_with(log_iters, &params)
    }

    /// Closes the log search that the given parameters name: the reply to the request.
    pub fn log_close_with<F>(log_iters: &mut LogIterators<F>, params: &Params) -> (reply: Response)
        requires
            old(log_iters).wf(),
        ensures
            final(log_iters).wf(),
            final(log_iters)@ == old(log_iters)@.remove(token_of(params@)),
            reply@ == close_reply(
                old(log_iters)@.contains_key(token_of(params@)),
                token_of(params@),
            ),
            !old(log_iters)@.contains_key(token_of(params@)) && printable_text(token_of(params@))
                ==> debug_text(token_of(params@)) == quoted(token_of(params@)),
    {
        let token: &str = Self::token(params);
        match log_iters.remove(token) {
            Some(_) => Response::json(StatusCode::Success, "sucess"),
            None => Self::log_not_open(format_debug(token).as_str()),
        }
    }

    /// Decides on a request for a profile: how many seconds to take it, or the
    /// reply that refuses it.
    pub fn dump_prof_to_resp(query: Option<&str>) -> (decision: Result<u64, Response>)
        ensures
            plainly_read(query_text(query)),
            forall|seconds: u64|
                query_text(query) == Some("seconds="@ + #[trigger] decimal_text(seconds as nat))
                    ==> decision == Ok::<u64, Response>(seconds),
            ({
                let params = params_of(query_text(query));
                match decision {
                    Ok(seconds) => profile_decision(query is Some, params) == Ok::<
                        u64,
                        ResponseView,
                    >(seconds),
                    Err(reply) => profile_decision(query is Some, params) == Err::<
                        u64,
                        ResponseView,
                    >(reply@),
                }
            }),
    {
        match query {
            Some(_) => {
                let params: Params = Params::read(query);
                proof {
                    lemma_seconds_are_read(query_text(query));
                }
                Self::dump_prof_with(&params)
            },
            None => Err(Response::bare(StatusCode::BadRequest)),
        }
    }

    /// Decides on a request with the given parameters for a profile.
    pub fn dump_prof_with(params: &Params) -> (decision: Result<u64, Response>)
        ensures
            match decision {
                Ok(seconds) => profile_decision(true, params@) == Ok::<u64, ResponseView>(seconds),
                Err(reply) => profile_decision(true, params@) == Err::<u64, ResponseView>(reply@),
            },
    {
        match params.get("seconds") {
            Some(value) => match read_u64(value) {
                Some(seconds) => Ok(seconds),
                None => Err(Response::bare(StatusCode::BadRequest)),
            },
            None => Ok(DEFAULT_PROFILE_SECONDS),
        }
    }

    /// The reply that holds a profile, or that says why there is none.
    pub fn dump_prof_reply(outcome: Result<Vec<u8>, String>) -> (reply: Response)
        ensures
            reply@ == match outcome {
                Ok(profile) => profile_reply(profile@),
                Err(text) => text_response(StatusCode::InternalServerError, text@),
            },
    {
        match outcome {
            Ok(profile) => {
                let length: u64 = profile.len() as u64;
                let mut reply: Response = Response::bare(StatusCode::Success);
                reply.add_header("X-Content-Type-Options", "nosniff");
                reply.add_header("Content-Disposition", "attachment; filename=\"profile\"");
                reply.add_header("Content-Type", octet_stream().as_str());
                reply.add_header("Content-Length", write_u64(length).as_str());
                reply.body = profile;
                assert(reply@ =~= profile_reply(profile@));
                reply
            },
            Err(text) => Response::text(StatusCode::InternalServerError, text.as_str()),
        }
    }

    /// The reply that holds the configuration as JSON, `None` if it could not
    /// be written so.
    pub fn config_handler(json: Option<&str>) -> (reply: Response)
        ensures
            reply@ == match json {
                Some(json) => json_response(StatusCode::Success, json@),
                None => text_response(
                    StatusCode::InternalServerError,
                    "Internal Server Error"@,
                ),
            },
    {
        match json {
            Some(json) => Response::json(StatusCode::Success, json),
            None => Response::text(StatusCode::InternalServerError, "Internal Server Error"),
        }
    }

    /// The reply to a request for the metrics.
    pub fn metrics_reply(metrics: &str) -> (reply: Response)
        ensures
            reply@ == text_response(StatusCode::Success, metrics@),
    {
        Response::text(StatusCode::Success, metrics)
    }

    /// The reply to a request for the status.
    pub fn status_reply() -> (reply: Response)
        ensures
            reply@ == bare_response(StatusCode::Success),
    {
        Response::bare(StatusCode::Success)
    }

    /// The reply to a request that nobody answers.
    pub fn not_found_reply() -> (reply: Response)
        ensures
            reply@ == bare_response(StatusCode::NotFound),
    {
        Response::bare(StatusCode::NotFound)
    }
}

/// The reply to a request to close a log search, given whether it was open.
pub open spec fn close_reply(open: bool, token: Seq<char>) -> ResponseView {
    if open {
        json_response(StatusCode::Success, "sucess"@)
    } else {
        not_open_reply(token)
    }
}

/// A query that gives the token of a search and nothing else is read as that token.
pub open spec fn tokens_are_read(query: Option<Seq<char>>) -> bool {
    forall|nanos: i64|
        query == Some("token="@ + #[trigger] token_at(nanos)) ==> token_of(params_of(query))
            == token_at(nanos)
}

/// The tokens of searches need no escapes.
pub proof fn law_tokens_are_plain(nanos: i64)
    ensures
        plain_text(token_at(nanos)),
{
    reveal_strlit("token-");
    lemma_written_value(
        if nanos < 0 {
            (-nanos) as nat
        } else {
            nanos as nat
        },
    );
}

proof fn lemma_tokens_are_read(query: Option<Seq<char>>)
    requires
        plainly_read(query),
    ensures
        tokens_are_read(query),
{
    assert forall|nanos: i64| query == Some("token="@ + #[trigger] token_at(nanos)) implies token_of(
        params_of(query),
    ) == token_at(nanos) by {
        let given = seq![("token"@, token_at(nanos))];
        reveal_strlit("token");
        reveal_strlit("=");
        reveal_strlit("token=");
        assert("token="@ =~= "token"@ + "="@);
        law_tokens_are_plain(nanos);
        lemma_single_pair("token"@, token_at(nanos));
        assert(query == Some(written_form(given)));
    }
}

proof fn lemma_seconds_are_read(query: Option<Seq<char>>)
    requires
        plainly_read(query),
    ensures
        forall|seconds: u64|
            query == Some("seconds="@ + #[trigger] decimal_text(seconds as nat))
                ==> profile_decision(true, params_of(query)) == Ok::<u64, ResponseView>(seconds),
{
    assert forall|seconds: u64|
        query == Some(
            "seconds="@ + #[trigger] decimal_text(seconds as nat),
        ) implies profile_decision(true, params_of(query)) == Ok::<u64, ResponseView>(seconds) by {
        let given = seq![("seconds"@, decimal_text(seconds as nat))];
        reveal_strlit("seconds");
        reveal_strlit("=");
        reveal_strlit("seconds=");
        assert("seconds="@ =~= "seconds"@ + "="@);
        lemma_written_value(seconds as nat);
        law_unsigned_round_trip(seconds as nat, u64::MAX as nat);
        lemma_single_pair("seconds"@, decimal_text(seconds as nat));
        assert(query == Some(written_form(given)));
    }
}

/// Without fail points a request is answered only if it is a `GET`.
pub proof fn law_only_get_is_answered(method: Method, path: Seq<char>)
    requires
        method != Method::Get,
    ensures
        route_of(method, path, false) == Route::NotFound,
{
}

/// Without fail points nothing below their path is answered, whatever the method.
pub proof fn law_disabled_fail_points_are_not_found(method: Method, path: Seq<char>)
    requires
        FAIL_POINTS_REQUEST_PATH@.is_prefix_of(path),
    ensures
        route_of(method, path, false) == Route::NotFound,
{
    reveal_strlit("/fail");
    reveal_strlit("/metrics");
    reveal_strlit("/status");
    reveal_strlit("/pprof/profile");
    reveal_strlit("/pprof/cpu");
    reveal_strlit("/config");
    reveal_strlit("/log/open");
    reveal_strlit("/log/next");
    reveal_strlit("/log/close");
    assert(path.subrange(0, 5)[1] == FAIL_POINTS_REQUEST_PATH@[1]);
    assert(path[1] == 'f');
}

/// Fail points leave every request alone whose path is not below theirs.
pub proof fn law_fail_points_keep_to_their_path(method: Method, path: Seq<char>)
    requires
        !FAIL_POINTS_REQUEST_PATH@.is_prefix_of(path),
    ensures
        route_of(method, path, true) == route_of(method, path, false),
{
}

/// Searches that are opened at different moments have different tokens.
pub proof fn law_tokens_differ(a: i64, b: i64)
    requires
        a != b,
    ensures
        token_at(a) != token_at(b),
{
    if token_at(a) == token_at(b) {
        let length = "token-"@.len() as int;
        assert(token_at(a).skip(length) =~= signed_text(a as int));
        assert(token_at(b).skip(length) =~= signed_text(b as int));
        law_signed_text_tells_integers_apart(a, b);
    }
}

/// A search that was opened is closed by its token, once; after that its token
/// is refused, as it was before if it was new. The searches under other tokens stay as they are.
pub proof fn law_opened_search_is_closed_once<F>(
    open: Map<Seq<char>, LogIterator<F>>,
    nanos: i64,
    search: LogIterator<F>,
)
    ensures
        ({
            let token = token_at(nanos);
            let opened = open.insert(token, search);
            let closed = opened.remove(token);
            &&& opened.contains_key(token) && opened[token] == search
            &&& close_reply(opened.contains_key(token), token) == json_response(
                StatusCode::Success,
                "sucess"@,
            )
            &&& close_reply(closed.contains_key(token), token) == not_open_reply(token)
            &&& !open.contains_key(token) ==> closed == open
            &&& forall|other: Seq<char>|
                other != token ==> {
                    &&& #[trigger] closed.contains_key(other) == open.contains_key(other)
                    &&& closed[other] == open[other]
                }
        }),
{
    let token = token_at(nanos);
    let closed = open.insert(token, search).remove(token);
    if !open.contains_key(token) {
        assert(closed =~= open);
    }
}

/// A request that asks for nothing in particular asks the logs for everything
/// from the epoch on, a page for the usual number of items, and a profile for
/// the usual time.
pub proof fn law_defaults(log_file: Seq<char>)
    requires
        log_file.len() > 0,
    ensures
        open_decision(log_file, Seq::empty()) == Ok::<LogQueryView, ResponseView>(
            LogQueryView {
                begin_time: 0,
                end_time: i64::MAX,
                level: None,
                filter: Seq::empty(),
            },
        ),
        limit_of(Seq::empty()) == Some(MAX_SEARCH_LOG_RESULT_SIZE),
        profile_decision(true, Seq::empty()) == Ok::<u64, ResponseView>(DEFAULT_PROFILE_SECONDS),
{
}

} // verus!
