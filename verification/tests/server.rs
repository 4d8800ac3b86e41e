use status_server::error::LogSearchError;
use status_server::http::{Method, Response, StatusCode};
use status_server::line::Level;
use status_server::query::Params;
use status_server::search::{LogIterator, LogQuery};
use status_server::server::{Route, StatusServer};
use status_server::table::LogIterators;

fn params(pairs: &[(&str, &str)]) -> Params {
    Params { pairs: pairs.iter().map(|(k, v)| (k.to_string(), v.to_string())).collect() }
}

fn text(reply: &Response) -> String {
    String::from_utf8(reply.body.clone()).unwrap()
}

fn headers(reply: &Response) -> Vec<(&str, &str)> {
    reply.headers.iter().map(|(k, v)| (k.as_str(), v.as_str())).collect()
}

fn assert_json(reply: &Response, status: StatusCode, body: &str) {
    assert_eq!(reply.status, status);
    assert_eq!(headers(reply), [("content-type", "application/json")]);
    assert_eq!(text(reply), body);
}

fn assert_bare(reply: &Response, status: StatusCode) {
    assert_eq!(reply.status, status);
    assert!(reply.headers.is_empty());
    assert!(reply.body.is_empty());
}

fn some_search() -> LogIterator<u8> {
    let query = LogQuery { begin_time: 0, end_time: 1, level: None, filter: String::new() };
    LogIterator::new(vec![], query)
}

#[test]
fn test_status_service() {
    assert_eq!(StatusServer::route(Method::Get, "/metrics", true), Route::Metrics);
    let reply = StatusServer::metrics_reply("some_metric 1\n");
    assert_eq!(reply.status, StatusCode::Success);
    assert_eq!(reply.status.as_u16(), 200);
    assert_eq!(text(&reply), "some_metric 1\n");
}

#[test]
fn test_config_endpoint() {
    assert_eq!(StatusServer::route(Method::Get, "/config", false), Route::Config);
    let mut config = serde_json::Map::new();
    config.insert("log-file".to_string(), serde_json::Value::from("tikv.log"));
    config.insert("pool".to_string(), serde_json::Value::from(4));
    let cfg_json = serde_json::to_string(&config).unwrap();
    let reply = StatusServer::config_handler(Some(&cfg_json));
    assert_json(&reply, StatusCode::Success, &cfg_json);
}

#[test]
fn configuration_that_cannot_be_written() {
    let reply = StatusServer::config_handler(None);
    assert_eq!(reply.status, StatusCode::InternalServerError);
    assert!(reply.headers.is_empty());
    assert_eq!(text(&reply), "Internal Server Error");
}

#[test]
fn test_status_service_fail_endpoints_should_give_404_when_failpoints_are_disable() {
    let path = "/fail/a_test_fail_name_nobody_else_is_using";
    assert_eq!(StatusServer::route(Method::Put, path, false), Route::NotFound);
    assert_eq!(StatusServer::not_found_reply().status, StatusCode::NotFound);
    assert_eq!(StatusServer::not_found_reply().status.as_u16(), 404);
}

#[test]
fn routes() {
    let routes = [
        ("/metrics", Route::Metrics),
        ("/status", Route::Status),
        ("/pprof/profile", Route::HeapProfile),
        ("/pprof/cpu", Route::CpuProfile),
        ("/config", Route::Config),
        ("/log/open", Route::LogOpen),
        ("/log/next", Route::LogNext),
        ("/log/close", Route::LogClose),
        ("/", Route::NotFound),
        ("/metrics/", Route::NotFound),
        ("/log", Route::NotFound),
    ];
    for (path, route) in routes {
        assert_eq!(StatusServer::route(Method::Get, path, false), route);
        assert_eq!(StatusServer::route(Method::Get, path, true), route);
        for method in [Method::Put, Method::Delete, Method::Other] {
            assert_eq!(StatusServer::route(method, path, true), Route::NotFound);
        }
    }
    for path in ["/fail", "/fail/", "/fail/x", "/failure"] {
        for method in [Method::Get, Method::Put, Method::Delete, Method::Other] {
            assert_eq!(StatusServer::route(method, path, true), Route::FailPoints);
            assert_eq!(StatusServer::route(method, path, false), Route::NotFound);
        }
    }
    assert_bare(&StatusServer::status_reply(), StatusCode::Success);
    assert_bare(&StatusServer::not_found_reply(), StatusCode::NotFound);
}

#[test]
fn status_numbers() {
    assert_eq!(StatusCode::Success.as_u16(), 200);
    assert_eq!(StatusCode::BadRequest.as_u16(), 400);
    assert_eq!(StatusCode::NotFound.as_u16(), 404);
    assert_eq!(StatusCode::MethodNotAllowed.as_u16(), 405);
    assert_eq!(StatusCode::UnprocessableEntity.as_u16(), 422);
    assert_eq!(StatusCode::InternalServerError.as_u16(), 500);
}

#[test]
fn parameters_are_decoded_and_the_last_one_counts() {
    let read = Params::read(Some("a=1&b=x+y%26z&a=2&flag&&e="));
    assert_eq!(read.get("a"), Some("2"));
    assert_eq!(read.get("b"), Some("x y&z"));
    assert_eq!(read.get("flag"), Some(""));
    assert_eq!(read.get("e"), Some(""));
    assert_eq!(read.get("c"), None);
    assert!(Params::read(Some("")).pairs.is_empty());
    assert!(Params::read(None).pairs.is_empty());
}

#[test]
fn logs_that_go_to_the_terminal_cannot_be_searched() {
    let reply = StatusServer::log_open("", Some("begin_time=x")).err().unwrap();
    assert_json(
        &reply,
        StatusCode::Success,
        "TiKV cannot provide log service because of the log output to terminal",
    );
}

#[test]
fn log_queries() {
    let all = StatusServer::log_open("l", None).unwrap();
    assert_eq!((all.begin_time, all.end_time, all.level), (0, i64::MAX, None));
    assert_eq!(all.filter, "");

    let query = "begin_time=-5&end_time=%2B7&level=WARN&filter=a+b";
    let some = StatusServer::log_open("l", Some(query)).unwrap();
    assert_eq!((some.begin_time, some.end_time, some.level), (-5, 7, Some(Level::Warning)));
    assert_eq!(some.filter, "a b");

    let unknown = StatusServer::log_open_with("l", &params(&[("level", "Info")])).unwrap();
    assert_eq!(unknown.level, None);

    for name in ["begin_time", "end_time"] {
        for value in ["", "x", "1.5", "9223372036854775808"] {
            let reply = StatusServer::log_open_with("l", &params(&[(name, value)])).err().unwrap();
            assert_bare(&reply, StatusCode::BadRequest);
        }
    }
}

#[test]
fn searches_are_opened_and_closed_once() {
    let mut open: LogIterators<u8> = LogIterators::new();
    let reply = StatusServer::log_opened_at(&mut open, some_search(), 1566554992387000000);
    assert_json(&reply, StatusCode::Success, "token-1566554992387000000");
    let reply = StatusServer::log_opened_at(&mut open, some_search(), -3);
    assert_json(&reply, StatusCode::Success, "token--3");

    let token = Some("token=token-1566554992387000000");
    assert!(StatusServer::log_next(&mut open, token).is_ok());
    assert_json(&StatusServer::log_close(&mut open, token), StatusCode::Success, "sucess");
    let refused = "the \"token-1566554992387000000\" dose not open or closed";
    assert_json(&StatusServer::log_close(&mut open, token), StatusCode::BadRequest, refused);
    let reply = StatusServer::log_next(&mut open, token).err().unwrap();
    assert_json(&reply, StatusCode::BadRequest, refused);

    assert!(StatusServer::log_next(&mut open, Some("token=token--3")).is_ok());
}

#[test]
fn tokens_come_from_the_clock() {
    let mut open: LogIterators<u8> = LogIterators::new();
    let reply = StatusServer::log_opened(&mut open, Ok(some_search())).unwrap();
    let token = text(&reply);
    assert_json(&reply, StatusCode::Success, &token);
    let nanos: i64 = token.strip_prefix("token-").unwrap().parse().unwrap();
    assert!(nanos > 1_500_000_000_000_000_000);
    assert!(open.get_mut(&token).is_some());
    assert!(open.remove(&token).is_some());
    assert!(open.remove(&token).is_none());
}

#[test]
fn searches_that_cannot_be_opened() {
    let mut open: LogIterators<u8> = LogIterators::new();
    let error = LogSearchError::illegal_file_name("a\"b");
    let reply = StatusServer::log_opened(&mut open, Err(error)).unwrap();
    assert_json(
        &reply,
        StatusCode::InternalServerError,
        "LogSearchError(\"Illegal file name: a\\\"b\")",
    );
}

#[test]
fn missing_tokens_are_empty() {
    let mut open: LogIterators<u8> = LogIterators::new();
    let refused = "the \"\" dose not open or closed";
    assert_json(&StatusServer::log_close(&mut open, None), StatusCode::BadRequest, refused);
    let reply = StatusServer::log_next(&mut open, None).err().unwrap();
    assert_json(&reply, StatusCode::BadRequest, refused);
    open.insert("".to_string(), some_search());
    assert_json(&StatusServer::log_close(&mut open, None), StatusCode::Success, "sucess");
}

#[test]
fn limits_that_cannot_be_read() {
    let mut open: LogIterators<u8> = LogIterators::new();
    for limit in ["", "-1", "x", "18446744073709551616"] {
        let given = params(&[("token", "none"), ("limit", limit)]);
        let reply = StatusServer::log_next_with(&mut open, &given).err().unwrap();
        assert_bare(&reply, StatusCode::BadRequest);
    }
}

#[test]
fn inserting_replaces_a_search() {
    let mut open: LogIterators<u8> = LogIterators::new();
    open.insert("t".to_string(), some_search());
    open.insert("u".to_string(), some_search());
    open.insert("t".to_string(), some_search());
    assert!(open.remove("t").is_some());
    assert!(open.remove("t").is_none());
    assert!(open.remove("u").is_some());
}

#[test]
fn pages_are_json() {
    assert_json(&StatusServer::log_page("[]"), StatusCode::Success, "[]");
}

#[test]
fn profile_requests() {
    let refused = StatusServer::dump_prof_to_resp(None).err().unwrap();
    assert_bare(&refused, StatusCode::BadRequest);
    assert_eq!(StatusServer::dump_prof_to_resp(Some("")).unwrap(), 10);
    assert_eq!(StatusServer::dump_prof_to_resp(Some("other=3")).unwrap(), 10);
    assert_eq!(StatusServer::dump_prof_to_resp(Some("seconds=0")).unwrap(), 0);
    assert_eq!(StatusServer::dump_prof_to_resp(Some("seconds=%2B25")).unwrap(), 25);
    for query in ["seconds=", "seconds=-1", "seconds=1s", "seconds=18446744073709551616"] {
        let refused = StatusServer::dump_prof_to_resp(Some(query)).err().unwrap();
        assert_bare(&refused, StatusCode::BadRequest);
    }
}

#[test]
fn profile_replies() {
    let reply = StatusServer::dump_prof_reply(Ok(vec![0, 255, 7]));
    assert_eq!(reply.status, StatusCode::Success);
    assert_eq!(reply.body, [0, 255, 7]);
    assert_eq!(
        headers(&reply),
        [
            ("X-Content-Type-Options", "nosniff"),
            ("Content-Disposition", "attachment; filename=\"profile\""),
            ("Content-Type", "application/octet-stream"),
            ("Content-Length", "3"),
        ]
    );
    let reply = StatusServer::dump_prof_reply(Err("no profile".to_string()));
    assert_eq!(reply.status, StatusCode::InternalServerError);
    assert!(reply.headers.is_empty());
    assert_eq!(text(&reply), "no profile");
}

#[test]
fn server_life_cycle() {
    let mut server = StatusServer::new(1, "tikv.log".to_string());
    assert_eq!(server.thread_pool_size(), 1);
    assert_eq!(server.log_file(), "tikv.log");
    assert!(!server.is_started());
    server.start("127.0.0.1:20180".to_string());
    assert!(server.is_started());
    assert_eq!(server.listening_addr(), "127.0.0.1:20180");
}
