//! Requests about fail points.

use vstd::prelude::*;
use vstd::utf8::*;

use crate::fail_points::{
    fail_point_configured, fail_points_listed, handle_fail_points_request, name_in, reads_body,
    FailRequest,
};
use crate::http::{pairs_view, Method, Response, StatusCode};
use crate::laws::replies::{lemma_headers, says, says_nothing};
use crate::registry::{actions_refused, FailCall, FailPoints};
use crate::text::joined;

verus! {

/// The path of the fail point of a name.
pub open spec fn path_of(name: Seq<char>) -> Seq<char> {
    "/fail/"@ + name
}

pub(crate) proof fn lemma_path_of(name: Seq<char>)
    ensures
        name_in(path_of(name)) == Some(name),
{
    reveal_strlit("/fail/");
    assert(path_of(name).take(6) =~= "/fail/"@);
    assert(path_of(name).skip(6) =~= name);
}

/// The path of a name is asked for by `PUT` and `DELETE`, if the name is not empty.
pub proof fn law_named_fail_points_are_asked_for(
    method: Method,
    path: &str,
    name: Seq<char>,
    request: FailRequest,
)
    requires
        call_ensures(FailRequest::of, (method, path), request),
        path@ == path_of(name),
    ensures
        method == Method::Put && name.len() > 0 ==> (request matches FailRequest::Configure(asked)
            && asked@ == name),
        method == Method::Delete && name.len() > 0 ==> (request matches FailRequest::Remove(asked)
            && asked@ == name),
        (method == Method::Put || method == Method::Delete) && name.len() == 0
            ==> request is MissingName,
        method == Method::Get && name.len() == 0 ==> request is List,
        method == Method::Get && name.len() > 0 ==> request is NotFound,
        method == Method::Other ==> request is NotAllowed,
{
    lemma_path_of(name);
    reveal_strlit("/fail/");
    reveal_strlit("/fail");
    assert(path@.len() == 6 + name.len());
    if name.len() == 0 {
        assert(path@ =~= "/fail/"@);
    }
}

/// Other paths are asked for by `GET` only, and only the one without a name
/// lists the fail points.
pub proof fn law_other_fail_point_paths(method: Method, path: &str, request: FailRequest)
    requires
        call_ensures(FailRequest::of, (method, path), request),
        forall|name: Seq<char>| path@ != #[trigger] path_of(name),
    ensures
        method == Method::Get && path@ == "/fail"@ ==> request is List,
        method == Method::Get && path@ != "/fail"@ ==> request is NotFound,
        method != Method::Get ==> request is NotAllowed,
{
    reveal_strlit("/fail/");
    if "/fail/"@.is_prefix_of(path@) {
        assert(path@ =~= path_of(path@.skip(6)));
    }
    assert("/fail/"@ =~= path_of(Seq::empty()));
}

/// The body of a request counts exactly if it sets a fail point.
pub proof fn law_bodies_are_read_to_set_fail_points(method: Method, path: &str, reads: bool)
    requires
        call_ensures(reads_body, (method, path), reads),
    ensures
        reads <==> method == Method::Put && exists|name: Seq<char>|
            path@ == #[trigger] path_of(name),
{
    reveal_strlit("/fail/");
    if "/fail/"@.is_prefix_of(path@) {
        assert(path@ =~= path_of(path@.skip(6)));
    }
    if exists|name: Seq<char>| path@ == #[trigger] path_of(name) {
        let name = choose|name: Seq<char>| path@ == #[trigger] path_of(name);
        lemma_path_of(name);
    }
}

/// The reply to setting a fail point names it and its actions, or says why it was refused.
pub proof fn law_set_fail_points_are_named(
    name: &str,
    actions: &str,
    outcome: Result<(), String>,
    reply: Response,
)
    requires
        call_ensures(fail_point_configured, (name, actions, outcome), reply),
        actions@.len() > 0,
    ensures
        outcome is Ok ==> says(
            reply,
            StatusCode::Success,
            "Added fail point with name: "@ + name@ + ", actions: "@ + actions@,
        ),
        outcome matches Err(text) ==> says(reply, StatusCode::BadRequest, text@),
{
    lemma_headers(reply);
}

/// One line for each fail point: its name, an equals sign and its actions.
pub open spec fn lines_of(fail_points: Seq<(Seq<char>, Seq<char>)>) -> Seq<char>
    decreases fail_points.len(),
{
    if fail_points.len() == 0 {
        Seq::empty()
    } else {
        let line = fail_points.last().0 + "="@ + fail_points.last().1;
        if fail_points.len() == 1 {
            line
        } else {
            lines_of(fail_points.drop_last()) + "\n"@ + line
        }
    }
}

proof fn lemma_lines(fail_points: Seq<(Seq<char>, Seq<char>)>)
    ensures
        lines_of(fail_points) == joined(
            fail_points.map_values(
                |fail_point: (Seq<char>, Seq<char>)| fail_point.0 + "="@ + fail_point.1,
            ),
            "\n"@,
        ),
    decreases fail_points.len(),
{
    let write = |fail_point: (Seq<char>, Seq<char>)| fail_point.0 + "="@ + fail_point.1;
    let pieces = fail_points.map_values(write);
    if fail_points.len() > 0 {
        let fewer = fail_points.drop_last();
        lemma_lines(fewer);
        assert(pieces.drop_last() =~= fewer.map_values(write));
        assert(pieces.last() == write(fail_points.last()));
    }
}

/// The list of the fail points has a line for each of them, in the order in which
/// they are listed.
pub proof fn law_fail_points_are_listed(
    fail_points: Vec<(String, String)>,
    listed: Seq<(Seq<char>, Seq<char>)>,
    reply: Response,
)
    requires
        call_ensures(fail_points_listed, (&fail_points,), reply),
        listed.len() == fail_points@.len(),
        forall|i: int|
            0 <= i < listed.len() ==> #[trigger] listed[i] == (
                fail_points@[i].0@,
                fail_points@[i].1@,
            ),
    ensures
        says(reply, StatusCode::Success, lines_of(listed)),
{
    lemma_headers(reply);
    assert(pairs_view(fail_points@) =~= listed);
    lemma_lines(listed);
}

/// Setting a fail point by request hands its name and its actions to the process,
/// once, and the reply says what came of it; without actions nothing is handed over.
pub proof fn law_requests_set_fail_points(
    fail_points: &mut FailPoints,
    path: &str,
    body: Vec<u8>,
    name: Seq<char>,
    actions: Seq<char>,
    reply: Response,
)
    requires
        call_ensures(
            handle_fail_points_request,
            (fail_points, Method::Put, path, body),
            reply,
        ),
        path@ == path_of(name),
        name.len() > 0,
        body@ == encode_utf8(actions),
    ensures
        actions.len() == 0 ==> {
            &&& says(reply, StatusCode::UnprocessableEntity, "Missing param actions"@)
            &&& final(fail_points)@ == old(fail_points)@
        },
        actions.len() > 0 ==> {
            &&& final(fail_points)@ == old(fail_points)@ + seq![FailCall::Configure(name, actions)]
            &&& match actions_refused(actions, usize::MAX as nat) {
                Some(text) => says(reply, StatusCode::BadRequest, text),
                None => says(
                    reply,
                    StatusCode::Success,
                    "Added fail point with name: "@ + name + ", actions: "@ + actions,
                ),
            }
        },
        actions == "off"@ || actions == "return"@ || actions == "panic"@ || actions == "print"@
            || actions == "pause"@ || actions == "yield"@ ==> reply.status == StatusCode::Success,
{
    lemma_path_of(name);
    lemma_headers(reply);
    encode_utf8_decode_utf8(actions);
    reveal_strlit("off");
    reveal_strlit("return");
    reveal_strlit("panic");
    reveal_strlit("print");
    reveal_strlit("pause");
    reveal_strlit("yield");
    if actions.len() > 0 {
        assert(final(fail_points)@ =~= old(fail_points)@ + seq![FailCall::Configure(name, actions)]);
    }
}

/// Removing a fail point by request hands its name to the process, once, and the
/// reply says so.
pub proof fn law_requests_remove_fail_points(
    fail_points: &mut FailPoints,
    path: &str,
    body: Vec<u8>,
    name: Seq<char>,
    reply: Response,
)
    requires
        call_ensures(
            handle_fail_points_request,
            (fail_points, Method::Delete, path, body),
            reply,
        ),
        path@ == path_of(name),
        name.len() > 0,
    ensures
        says(reply, StatusCode::Success, "Deleted fail point with name: "@ + name),
        final(fail_points)@ == old(fail_points)@ + seq![FailCall::Remove(name)],
{
    lemma_path_of(name);
    lemma_headers(reply);
    assert(final(fail_points)@ =~= old(fail_points)@ + seq![FailCall::Remove(name)]);
}

/// Listing the fail points by request asks the process for them, once, and the
/// reply has a line for each that it listed.
pub proof fn law_requests_list_fail_points(
    fail_points: &mut FailPoints,
    path: &str,
    body: Vec<u8>,
    reply: Response,
)
    requires
        call_ensures(
            handle_fail_points_request,
            (fail_points, Method::Get, path, body),
            reply,
        ),
        path@ == "/fail"@ || path@ == "/fail/"@,
    ensures
        exists|listed: Seq<(Seq<char>, Seq<char>)>|
            {
                &&& says(reply, StatusCode::Success, #[trigger] lines_of(listed))
                &&& final(fail_points)@ == old(fail_points)@ + seq![FailCall::List(listed)]
            },
{
    lemma_headers(reply);
    let listed = choose|listed: Seq<(Seq<char>, Seq<char>)>|
        {
            &&& reply@ == #[trigger] crate::fail_points::list_reply(listed)
            &&& crate::registry::distinct_names(listed)
            &&& final(fail_points)@ == old(fail_points)@.push(FailCall::List(listed))
        };
    lemma_lines(listed);
    assert(says(reply, StatusCode::Success, lines_of(listed)));
    assert(final(fail_points)@ =~= old(fail_points)@ + seq![FailCall::List(listed)]);
}

/// Other requests ask the process for nothing, and the reply says what is wrong with them.
pub proof fn law_other_requests_leave_fail_points_alone(
    fail_points: &mut FailPoints,
    method: Method,
    path: &str,
    body: Vec<u8>,
    reply: Response,
    request: FailRequest,
)
    requires
        call_ensures(handle_fail_points_request, (fail_points, method, path, body), reply),
        call_ensures(FailRequest::of, (method, path), request),
        request is MissingName || request is NotFound || request is NotAllowed,
    ensures
        final(fail_points)@ == old(fail_points)@,
        request is MissingName ==> says(
            reply,
            StatusCode::UnprocessableEntity,
            "Missing param name"@,
        ),
        request is NotFound ==> says_nothing(reply, StatusCode::NotFound),
        request is NotAllowed ==> says_nothing(reply, StatusCode::MethodNotAllowed),
{
    lemma_headers(reply);
}

} // verus!
