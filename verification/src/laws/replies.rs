//! The replies to requests.

use vstd::prelude::*;
use vstd::utf8::*;

use crate::error::{debug_text, quoted};
use crate::http::{Response, StatusCode};
use crate::laws::numbers::law_numbers_are_written;
use crate::number::{all_digits, decimal_value};
use crate::server::StatusServer;
use crate::text::printable_text;

verus! {

/// A reply with a status, without headers and without a body.
pub open spec fn says_nothing(reply: Response, status: StatusCode) -> bool {
    reply.status == status && reply.headers@.len() == 0 && reply.body@.len() == 0
}

/// A reply with a status, without headers, whose body is a text.
pub open spec fn says(reply: Response, status: StatusCode, text: Seq<char>) -> bool {
    reply.status == status && reply.headers@.len() == 0 && reply.body@ == encode_utf8(text)
}

/// A reply with a status whose body is a text that is declared to be JSON.
pub open spec fn says_json(reply: Response, status: StatusCode, text: Seq<char>) -> bool {
    &&& reply.status == status
    &&& reply.headers@.len() == 1
    &&& reply.headers@[0].0@ == "content-type"@
    &&& reply.headers@[0].1@ == "application/json"@
    &&& reply.body@ == encode_utf8(text)
}

/// The header at a place has this name and this value.
pub open spec fn has_header(reply: Response, at: int, name: Seq<char>, value: Seq<char>) -> bool {
    0 <= at < reply.headers@.len() && reply.headers@[at].0@ == name && reply.headers@[at].1@ == value
}

pub(crate) proof fn lemma_headers(reply: Response)
    ensures
        reply@.headers.len() == reply.headers@.len(),
        forall|i: int|
            0 <= i < reply.headers@.len() ==> #[trigger] reply@.headers[i] == (
                reply.headers@[i].0@,
                reply.headers@[i].1@,
            ),
{
}

/// The replies that are made of a status and a text are made of nothing else.
pub proof fn law_replies_are_what_they_are_made_of(
    status: StatusCode,
    text: &str,
    bare: Response,
    plain: Response,
    json: Response,
)
    requires
        call_ensures(Response::bare, (status,), bare),
        call_ensures(Response::text, (status, text), plain),
        call_ensures(Response::json, (status, text), json),
    ensures
        says_nothing(bare, status),
        says(plain, status, text@),
        says_json(json, status, text@),
        decode_utf8(plain.body@) == text@,
        decode_utf8(json.body@) == text@,
{
    lemma_headers(bare);
    lemma_headers(plain);
    lemma_headers(json);
    encode_utf8_decode_utf8(text@);
    assert(json@.headers[0] == ("content-type"@, "application/json"@));
}

/// A header is added behind the others, and changes nothing else.
pub proof fn law_headers_are_added(reply: &mut Response, name: &str, value: &str)
    requires
        call_ensures(Response::add_header, (reply, name, value), ()),
    ensures
        final(reply).status == old(reply).status,
        final(reply).body@ == old(reply).body@,
        final(reply).headers@.len() == old(reply).headers@.len() + 1,
        has_header(*final(reply), old(reply).headers@.len() as int, name@, value@),
        forall|i: int|
            0 <= i < old(reply).headers@.len() ==> (#[trigger] final(reply).headers@[i]).0@ == old(reply).headers@[i].0@ && final(reply).headers@[i].1@ == old(reply).headers@[i].1@,
{
    lemma_headers(*old(reply));
    lemma_headers(*final(reply));
    let n = old(reply).headers@.len() as int;
    assert(final(reply)@.headers[n] == (name@, value@));
    assert forall|i: int| 0 <= i < n implies (#[trigger] final(reply).headers@[i]).0@ == old(reply).headers@[i].0@ && final(reply).headers@[i].1@ == old(reply).headers@[i].1@ by {
        assert(final(reply)@.headers[i] == old(reply)@.headers[i]);
    }
}

/// The numbers of the statuses in HTTP.
pub proof fn law_statuses_have_their_numbers(status: StatusCode, number: u16)
    requires
        call_ensures(StatusCode::as_u16, (&status,), number),
    ensures
        status == StatusCode::Success <==> number == 200,
        status == StatusCode::BadRequest <==> number == 400,
        status == StatusCode::NotFound <==> number == 404,
        status == StatusCode::MethodNotAllowed <==> number == 405,
        status == StatusCode::UnprocessableEntity <==> number == 422,
        status == StatusCode::InternalServerError <==> number == 500,
{
}

/// The configuration is shown as the JSON that it is written in; without it the
/// reply says that the server failed.
pub proof fn law_the_configuration_is_shown(json: Option<&str>, reply: Response)
    requires
        call_ensures(StatusServer::config_handler, (json,), reply),
    ensures
        json matches Some(json) ==> says_json(reply, StatusCode::Success, json@),
        json is None ==> says(reply, StatusCode::InternalServerError, "Internal Server Error"@),
{
    lemma_headers(reply);
    if json is Some {
        assert(reply@.headers[0] == ("content-type"@, "application/json"@));
    }
}

/// Metrics, pages of a search, the status and unknown paths are answered as they should be.
pub proof fn law_simple_requests_are_answered(
    text: &str,
    metrics: Response,
    page: Response,
    status: Response,
    unknown: Response,
)
    requires
        call_ensures(StatusServer::metrics_reply, (text,), metrics),
        call_ensures(StatusServer::log_page, (text,), page),
        call_ensures(StatusServer::status_reply, (), status),
        call_ensures(StatusServer::not_found_reply, (), unknown),
    ensures
        says(metrics, StatusCode::Success, text@),
        says_json(page, StatusCode::Success, text@),
        says_nothing(status, StatusCode::Success),
        says_nothing(unknown, StatusCode::NotFound),
{
    lemma_headers(metrics);
    lemma_headers(page);
    lemma_headers(status);
    lemma_headers(unknown);
    assert(page@.headers[0] == ("content-type"@, "application/json"@));
}

/// A profile is sent as it is, as a file of so many bytes; an error as its text.
pub proof fn law_profiles_are_sent(outcome: Result<Vec<u8>, String>, reply: Response)
    requires
        call_ensures(StatusServer::dump_prof_reply, (outcome,), reply),
    ensures
        outcome matches Ok(profile) ==> {
            &&& reply.status == StatusCode::Success
            &&& reply.body@ == profile@
            &&& reply.headers@.len() == 4
            &&& has_header(reply, 0, "X-Content-Type-Options"@, "nosniff"@)
            &&& has_header(reply, 1, "Content-Disposition"@, "attachment; filename=\"profile\""@)
            &&& has_header(reply, 2, "Content-Type"@, "application/octet-stream"@)
            &&& reply.headers@[3].0@ == "Content-Length"@
            &&& all_digits(reply.headers@[3].1@)
            &&& decimal_value(reply.headers@[3].1@) == profile@.len()
        },
        outcome matches Err(text) ==> says(reply, StatusCode::InternalServerError, text@),
{
    lemma_headers(reply);
    match outcome {
        Ok(profile) => {
            law_numbers_are_written(profile@.len());
            assert(reply@.headers[0] == ("X-Content-Type-Options"@, "nosniff"@));
            assert(reply@.headers[1] == (
                "Content-Disposition"@,
                "attachment; filename=\"profile\""@,
            ));
            assert(reply@.headers[2] == ("Content-Type"@, "application/octet-stream"@));
            assert(reply@.headers[3].0 == "Content-Length"@);
        },
        Err(_) => {},
    }
}

/// The reply about a token under which nothing is open holds the token as it is given.
pub proof fn law_unknown_tokens_are_named(token: &str, reply: Response)
    requires
        call_ensures(StatusServer::log_not_open, (token,), reply),
    ensures
        says_json(
            reply,
            StatusCode::BadRequest,
            "the "@ + token@ + " dose not open or closed"@,
        ),
{
    lemma_headers(reply);
    assert(reply@.headers[0] == ("content-type"@, "application/json"@));
}

/// `reply` says that nothing is open under a token.
pub open spec fn says_not_open(reply: Response, token: Seq<char>) -> bool {
    &&& says_json(
        reply,
        StatusCode::BadRequest,
        "the "@ + debug_text(token) + " dose not open or closed"@,
    )
    &&& printable_text(token) ==> debug_text(token) == quoted(token)
}

} // verus!
