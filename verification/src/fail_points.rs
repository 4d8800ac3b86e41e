//! Fail points: setting, removing and listing them by request.

use vstd::prelude::*;
use vstd::utf8::*;

use crate::http::{
    bare_response, pairs_view, text_response, Method, Response, ResponseView, StatusCode,
};
use crate::registry::{actions_refused, bare_action, distinct_names, FailCall, FailPoints};
use crate::server::FAIL_POINTS_REQUEST_PATH;
use crate::text::{join, joined, same_text, starts_with};

verus! {

/// What the path of a request about one fail point begins with; its name follows.
pub const FAIL_POINT_PREFIX: &'static str = "/fail/";

/// What the prefix of a fail point's path takes.
pub const FAIL_POINT_PREFIX_LENGTH: usize = 6;

/// What a request asks of the fail points.
#[derive(Debug)]
pub enum FailRequest {
    /// Set the actions of the fail point of this name.
    Configure(String),
    /// Remove the fail point of this name.
    Remove(String),
    /// List the fail points.
    List,
    /// A fail point without a name is asked for.
    MissingName,
    /// There is nothing under the path.
    NotFound,
    /// The method is not one for the path.
    NotAllowed,
}

/// The values of a `FailRequest`.
pub enum FailRequestView {
    Configure(Seq<char>),
    Remove(Seq<char>),
    List,
    MissingName,
    NotFound,
    NotAllowed,
}

impl View for FailRequest {
    type V = FailRequestView;

    open spec fn view(&self) -> FailRequestView {
        match self {
            FailRequest::Configure(name) => FailRequestView::Configure(name@),
            FailRequest::Remove(name) => FailRequestView::Remove(name@),
            FailRequest::List => FailRequestView::List,
            FailRequest::MissingName => FailRequestView::MissingName,
            FailRequest::NotFound => FailRequestView::NotFound,
            FailRequest::NotAllowed => FailRequestView::NotAllowed,
        }
    }
}

/// The name of the fail point that a path leads to, if it leads to one.
pub open spec fn name_in(path: Seq<char>) -> Option<Seq<char>> {
    if FAIL_POINT_PREFIX@.is_prefix_of(path) {
        Some(path.skip(FAIL_POINT_PREFIX@.len() as int))
    } else {
        None
    }
}

/// What a request asks of the fail points.
pub open spec fn fail_request_of(method: Method, path: Seq<char>) -> FailRequestView {
    match (method, name_in(path)) {
        (Method::Put, Some(name)) => if name.len() == 0 {
            FailRequestView::MissingName
        } else {
            FailRequestView::Configure(name)
        },
        (Method::Delete, Some(name)) => if name.len() == 0 {
            FailRequestView::MissingName
        } else {
            FailRequestView::Remove(name)
        },
        (Method::Get, _) => if path == FAIL_POINTS_REQUEST_PATH@ || path == FAIL_POINT_PREFIX@ {
            FailRequestView::List
        } else {
            FailRequestView::NotFound
        },
        _ => FailRequestView::NotAllowed,
    }
}

/// The reply to a request to set the actions of a fail point, given the text
/// with which they were refused, if they were.
pub open spec fn configured_reply(
    name: Seq<char>,
    actions: Seq<char>,
    refused: Option<Seq<char>>,
) -> ResponseView {
    if actions.len() == 0 {
        text_response(StatusCode::UnprocessableEntity, "Missing param actions"@)
    } else {
        match refused {
            Some(text) => text_response(StatusCode::BadRequest, text),
            None => text_response(
                StatusCode::Success,
                "Added fail point with name: "@ + name + ", actions: "@ + actions,
            ),
        }
    }
}

/// The reply to a request for the list of the fail points: one line for each,
/// its name, an equals sign and its actions.
pub open spec fn list_reply(fail_points: Seq<(Seq<char>, Seq<char>)>) -> ResponseView {
    text_response(
        StatusCode::Success,
        joined(
            fail_points.map_values(
                |fail_point: (Seq<char>, Seq<char>)| fail_point.0 + "="@ + fail_point.1,
            ),
            "\n"@,
        ),
    )
}

/// Calls `String::from_utf8`, which takes bytes that are valid UTF-8 as the text that they encode.
#[verifier::external_body]
fn utf8_text(bytes: Vec<u8>) -> (text: String)
    requires
        valid_utf8(bytes@),
    ensures
        text@ == decode_utf8(bytes@),
{
    String::from_utf8(bytes).unwrap()
}

impl FailRequest {
    /// What a request asks of the fail points.
    pub fn of(method: Method, path: &str) -> (request: FailRequest)
        ensures
            request@ == fail_request_of(method, path@),
    {
        proof {
            reveal_strlit("/fail/");
        }
        let has_name: bool = starts_with(path, FAIL_POINT_PREFIX);
        if method == Method::Get {
            if same_text(path, FAIL_POINTS_REQUEST_PATH) || same_text(path, FAIL_POINT_PREFIX) {
                FailRequest::List
            } else {
                FailRequest::NotFound
            }
        } else if has_name && (method == Method::Put || method == Method::Delete) {
            let name: &str = path.substring_char(FAIL_POINT_PREFIX_LENGTH, path.unicode_len());
            if name.is_empty() {
                FailRequest::MissingName
            } else if method == Method::Put {
                FailRequest::Configure(name.to_owned())
            } else {
                FailRequest::Remove(name.to_owned())
            }
        } else {
            FailRequest::NotAllowed
        }
    }
}

/// Whether the body of a request is to be read.
pub fn reads_body(method: Method, path: &str) -> (reads: bool)
    ensures
        reads == (method == Method::Put && name_in(path@) is Some),
{
    method == Method::Put && starts_with(path, FAIL_POINT_PREFIX)
}

/// The reply to a request to set the actions of a fail point, given what came of it.
pub fn fail_point_configured(name: &str, actions: &str, outcome: Result<(), String>) -> (reply:
    Response)
    requires
        actions@.len() > 0,
    ensures
        reply@ == configured_reply(
            name@,
            actions@,
            match outcome {
                Ok(_) => None,
                Err(text) => Some(text@),
            },
        ),
{
    match outcome {
        Ok(_) => {
            let mut text: String = "Added fail point with name: ".to_owned();
            text.append(name);
            text.append(", actions: ");
            text.append(actions);
            Response::text(StatusCode::Success, text.as_str())
        },
        Err(text) => Response::text(StatusCode::BadRequest, text.as_str()),
    }
}

/// The reply to a request for the list of the fail points, given the list.
pub fn fail_points_listed(fail_points: &Vec<(String, String)>) -> (reply: Response)
    ensures
        reply@ == list_reply(pairs_view(fail_points@)),
{
    let ghost lines = pairs_view(fail_points@).map_values(
        |fail_point: (Seq<char>, Seq<char>)| fail_point.0 + "="@ + fail_point.1,
    );
    let mut list: Vec<String> = Vec::new();
    let mut i: usize = 0;
    while i < fail_points.len()
        invariant
            lines == pairs_view(fail_points@).map_values(
                |fail_point: (Seq<char>, Seq<char>)| fail_point.0 + "="@ + fail_point.1,
            ),
            0 <= i <= fail_points@.len(),
            list@.len() == i,
            forall|j: int| 0 <= j < i ==> (#[trigger] list@[j])@ == lines[j],
        decreases fail_points@.len() - i,
    {
        let mut line: String = fail_points[i].0.clone();
        line.append("=");
        line.append(fail_points[i].1.as_str());
        list.push(line);
        assert(pairs_view(fail_points@)[i as int] == (
            fail_points@[i as int].0@,
            fail_points@[i as int].1@,
        ));
        i += 1;
    }
    assert(list@.map_values(|piece: String| piece@) =~= lines);
    Response::text(StatusCode::Success, join(&list, "\n").as_str())
}

/// Answers a request about the fail points.
pub fn handle_fail_points_request(
    fail_points: &mut FailPoints,
    method: Method,
    path: &str,
    body: Vec<u8>,
) -> (reply: Response)
    requires
        fail_request_of(method, path@) is Configure ==> valid_utf8(body@),
    ensures
        match fail_request_of(method, path@) {
            FailRequestView::Configure(name) => {
                let actions = decode_utf8(body@);
                &&& reply@ == configured_reply(
                    name,
                    actions,
                    actions_refused(actions, usize::MAX as nat),
                )
                &&& actions.len() > 0 && bare_action(actions) ==> actions_refused(
                    actions,
                    usize::MAX as nat,
                ) is None
                &&& final(fail_points)@ == if actions.len() == 0 {
                    old(fail_points)@
                } else {
                    old(fail_points)@.push(FailCall::Configure(name, actions))
                }
            },
            FailRequestView::Remove(name) => {
                &&& reply@ == text_response(
                    StatusCode::Success,
                    "Deleted fail point with name: "@ + name,
                )
                &&& final(fail_points)@ == old(fail_points)@.push(FailCall::Remove(name))
            },
            FailRequestView::List => exists|listed: Seq<(Seq<char>, Seq<char>)>|
                {
                    &&& reply@ == #[trigger] list_reply(listed)
                    &&& distinct_names(listed)
                    &&& final(fail_points)@ == old(fail_points)@.push(FailCall::List(listed))
                },
            FailRequestView::MissingName => {
                &&& reply@ == text_response(
                    StatusCode::UnprocessableEntity,
                    "Missing param name"@,
                )
                &&& final(fail_points)@ == old(fail_points)@
            },
            FailRequestView::NotFound => {
                &&& reply@ == bare_response(StatusCode::NotFound)
                &&& final(fail_points)@ == old(fail_points)@
            },
            FailRequestView::NotAllowed => {
                &&& reply@ == bare_response(StatusCode::MethodNotAllowed)
                &&& final(fail_points)@ == old(fail_points)@
            },
        },
{
    match FailRequest::of(method, path) {
        FailRequest::Configure(name) => {
            let actions: String = utf8_text(body);
            if actions.as_str().is_empty() {
                return Response::text(StatusCode::UnprocessableEntity, "Missing param actions");
            }
            let outcome: Result<(), String> = fail_points.set(name.as_str(), actions.as_str());
            fail_point_configured(name.as_str(), actions.as_str(), outcome)
        },
        FailRequest::Remove(name) => {
            fail_points.remove(name.as_str());
            let mut text: String = "Deleted fail point with name: ".to_owned();
            text.append(name.as_str());
            Response::text(StatusCode::Success, text.as_str())
        },
        FailRequest::List => fail_points_listed(&fail_points.list()),
        FailRequest::MissingName => Response::text(
            StatusCode::UnprocessableEntity,
            "Missing param name",
        ),
        FailRequest::NotFound => Response::bare(StatusCode::NotFound),
        FailRequest::NotAllowed => Response::bare(StatusCode::MethodNotAllowed),
    }
}

} // verus!
