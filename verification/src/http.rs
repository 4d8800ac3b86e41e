//! Requests and responses as plain values.

use vstd::prelude::*;
use vstd::utf8::*;

verus! {

/// The method of a request. `Other` stands for every method that no route knows.
#[derive(Debug, Clone, Copy, PartialEq, Eq, Structural)]
pub enum Method {
    Get,
    Put,
    Delete,
    Other,
}

/// The status of a response.
#[derive(Debug, Clone, Copy, PartialEq, Eq, Structural)]
pub enum StatusCode {
    Success,
    BadRequest,
    NotFound,
    MethodNotAllowed,
    UnprocessableEntity,
    InternalServerError,
}

/// The number of a status in HTTP.
pub open spec fn status_number(status: StatusCode) -> u16 {
    match status {
        StatusCode::Success => 200,
        StatusCode::BadRequest => 400,
        StatusCode::NotFound => 404,
        StatusCode::MethodNotAllowed => 405,
        StatusCode::UnprocessableEntity => 422,
        StatusCode::InternalServerError => 500,
    }
}

impl StatusCode {
    /// The number of the status in HTTP.
    pub fn as_u16(&self) -> (number: u16)
        ensures
            number == status_number(*self),
    {
        match self {
            StatusCode::Success => 200,
            StatusCode::BadRequest => 400,
            StatusCode::NotFound => 404,
            StatusCode::MethodNotAllowed => 405,
            StatusCode::UnprocessableEntity => 422,
            StatusCode::InternalServerError => 500,
        }
    }
}

/// A response: its status, its headers in order, and the bytes of its body.
#[derive(Debug)]
pub struct Response {
    pub status: StatusCode,
    pub headers: Vec<(String, String)>,
    pub body: Vec<u8>,
}

/// The values of a `Response`.
#[verifier::ext_equal]
pub struct ResponseView {
    pub status: StatusCode,
    pub headers: Seq<(Seq<char>, Seq<char>)>,
    pub body: Seq<u8>,
}

/// The values of pairs of texts.
pub open spec fn pairs_view(pairs: Seq<(String, String)>) -> Seq<(Seq<char>, Seq<char>)> {
    pairs.map_values(|pair: (String, String)| (pair.0@, pair.1@))
}

impl View for Response {
    type V = ResponseView;

    open spec fn view(&self) -> ResponseView {
        ResponseView {
            status: self.status,
            headers: pairs_view(self.headers@),
            body: self.body@,
        }
    }
}

/// A response with a status and nothing else.
pub open spec fn bare_response(status: StatusCode) -> ResponseView {
    ResponseView { status, headers: Seq::empty(), body: Seq::empty() }
}

/// A response with a status and a text as its body.
pub open spec fn text_response(status: StatusCode, text: Seq<char>) -> ResponseView {
    ResponseView { status, headers: Seq::empty(), body: encode_utf8(text) }
}

/// A response with a status and a body that is declared to be JSON.
pub open spec fn json_response(status: StatusCode, text: Seq<char>) -> ResponseView {
    ResponseView {
        status,
        headers: seq![("content-type"@, "application/json"@)],
        body: encode_utf8(text),
    }
}

impl Response {
    /// A response with a status and nothing else.
    pub fn bare(status: StatusCode) -> (response: Response)
        ensures
            response@ == bare_response(status),
    {
        let response: Response = Response { status, headers: Vec::new(), body: Vec::new() };
        assert(response@ =~= bare_response(status));
        response
    }

    /// A response with a status and a text as its body.
    pub fn text(status: StatusCode, text: &str) -> (response: Response)
        ensures
            response@ == text_response(status, text@),
    {
        let response: Response = Response {
            status,
            headers: Vec::new(),
            body: text.as_bytes_vec(),
        };
        assert(response@ =~= text_response(status, text@));
        response
    }

    /// A response with a status and a body that is declared to be JSON.
    pub fn json(status: StatusCode, text: &str) -> (response: Response)
        ensures
            response@ == json_response(status, text@),
    {
        let mut response: Response = Self::text(status, text);
        response.add_header("content-type", "application/json");
        assert(response@ =~= json_response(status, text@));
        response
    }

    /// Adds a header after those that are there.
    pub fn add_header(&mut self, name: &str, value: &str)
        ensures
            final(self)@ == (ResponseView {
                headers: old(self)@.headers.push((name@, value@)),
                ..old(self)@
            }),
    {
        self.headers.push((name.to_owned(), value.to_owned()));
        assert(self@ =~= (ResponseView {
            headers: old(self)@.headers.push((name@, value@)),
            ..old(self)@
        }));
    }
}

} // verus!
