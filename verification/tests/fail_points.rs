use status_server::fail_points::{
    fail_point_configured, fail_points_listed, handle_fail_points_request, reads_body,
};
use status_server::http::{Method, Response, StatusCode};
use status_server::registry::FailPoints;
use status_server::server::{Route, StatusServer};

fn request(method: Method, path: &str, body: &str) -> Response {
    assert_eq!(StatusServer::route(method, path, true), Route::FailPoints);
    handle_fail_points_request(&mut FailPoints::new(), method, path, body.as_bytes().to_vec())
}

fn text(reply: &Response) -> String {
    assert!(reply.headers.is_empty());
    String::from_utf8(reply.body.clone()).unwrap()
}

fn listed() -> Vec<String> {
    fail::list()
        .into_iter()
        .map(|(name, actions)| format!("{}={}", name, actions))
        .collect()
}

#[test]
fn test_status_service_fail_endpoints() {
    let _guard = fail::FailScenario::setup();

    // test add fail point
    let res = request(Method::Put, "/fail/test_fail_point_name", "panic");
    assert_eq!(res.status, StatusCode::Success);
    let list = listed();
    assert_eq!(list.len(), 1);
    let list = list.join(";");
    assert_eq!("test_fail_point_name=panic", list);

    // test add another fail point
    let res = request(Method::Put, "/fail/and_another_name", "panic");
    assert_eq!(res.status, StatusCode::Success);
    let list = listed();
    assert_eq!(2, list.len());
    let list = list.join(";");
    assert!(list.contains("test_fail_point_name=panic"));
    assert!(list.contains("and_another_name=panic"));

    // test list fail points
    let res = request(Method::Get, "/fail", "");
    assert_eq!(res.status, StatusCode::Success);
    let body = text(&res);
    assert!(body.contains("test_fail_point_name=panic"));
    assert!(body.contains("and_another_name=panic"));

    // test delete fail point
    let res = request(Method::Delete, "/fail/test_fail_point_name", "");
    assert_eq!(res.status, StatusCode::Success);
    let list = listed();
    assert_eq!(1, list.len());
    let list = list.join(";");
    assert_eq!("and_another_name=panic", list);
}

#[test]
fn test_status_service_fail_endpoints_can_trigger_fails() {
    let _guard = fail::FailScenario::setup();
    let res = request(Method::Put, "/fail/a_test_fail_name_nobody_else_is_using", "return");
    assert_eq!(res.status, StatusCode::Success);

    let true_only_if_fail_point_triggered = || {
        if let Some(res) = fail::eval("a_test_fail_name_nobody_else_is_using", |_| true) {
            return res;
        }
        false
    };
    assert!(true_only_if_fail_point_triggered());
}

#[test]
fn fail_point_replies() {
    let _guard = fail::FailScenario::setup();
    let reply = request(Method::Put, "/fail/a/b", "off");
    assert_eq!(reply.status, StatusCode::Success);
    assert_eq!(text(&reply), "Added fail point with name: a/b, actions: off");
    let reply = request(Method::Get, "/fail/", "");
    assert_eq!(reply.status, StatusCode::Success);
    assert_eq!(text(&reply), "a/b=off");
    let reply = request(Method::Delete, "/fail/a/b", "");
    assert_eq!(reply.status, StatusCode::Success);
    assert_eq!(text(&reply), "Deleted fail point with name: a/b");
    assert_eq!(text(&request(Method::Get, "/fail", "")), "");
}

#[test]
fn refused_fail_point_requests() {
    let _guard = fail::FailScenario::setup();
    let reply = request(Method::Put, "/fail/name", "nonsense");
    assert_eq!(reply.status, StatusCode::BadRequest);
    assert_eq!(text(&reply), "unrecognized command \"nonsense\"");

    let reply = request(Method::Put, "/fail/name", "");
    assert_eq!(reply.status, StatusCode::UnprocessableEntity);
    assert_eq!(text(&reply), "Missing param actions");

    for method in [Method::Put, Method::Delete] {
        let reply = request(method, "/fail/", "off");
        assert_eq!(reply.status, StatusCode::UnprocessableEntity);
        assert_eq!(text(&reply), "Missing param name");
    }
    for (method, path, status) in [
        (Method::Get, "/fail/name", StatusCode::NotFound),
        (Method::Get, "/failure", StatusCode::NotFound),
        (Method::Put, "/fail", StatusCode::MethodNotAllowed),
        (Method::Delete, "/failure", StatusCode::MethodNotAllowed),
        (Method::Other, "/fail/name", StatusCode::MethodNotAllowed),
    ] {
        let reply = request(method, path, "off");
        assert_eq!(reply.status, status);
        assert_eq!(text(&reply), "");
    }
    assert!(listed().is_empty());
}

#[test]
fn names_are_taken_as_they_are_written() {
    let _guard = fail::FailScenario::setup();
    request(Method::Put, "/fail/\u{e9}", "1*return(x)->off");
    assert_eq!(listed(), ["\u{e9}=1*return(x)->off"]);
}

#[test]
fn bodies_are_read_only_to_set_actions() {
    assert!(reads_body(Method::Put, "/fail/name"));
    assert!(reads_body(Method::Put, "/fail/"));
    assert!(!reads_body(Method::Put, "/fail"));
    assert!(!reads_body(Method::Get, "/fail/name"));
    assert!(!reads_body(Method::Delete, "/fail/name"));
}

#[test]
fn replies_from_outcomes() {
    let reply = fail_point_configured("n", "a", Ok(()));
    assert_eq!(text(&reply), "Added fail point with name: n, actions: a");
    let reply = fail_point_configured("n", "a", Err("no".to_string()));
    assert_eq!(reply.status, StatusCode::BadRequest);
    assert_eq!(text(&reply), "no");
    let pair = |n: &str, a: &str| (n.to_string(), a.to_string());
    let reply = fail_points_listed(&vec![pair("a", "off"), pair("b", "panic")]);
    assert_eq!(reply.status, StatusCode::Success);
    assert_eq!(text(&reply), "a=off\nb=panic");
}
