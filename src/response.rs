//! Responses as values: a status, headers in order, and a body that is
//! either plain text or one of the JSON payloads the car service sends.
//! Turning a payload into bytes is left to the server around the library.
use crate::error::{BoxError, BoxErrorView, timeout_message};
use crate::ctl::Image;
use crate::store::{cars_view, Car, CarView};
use vstd::prelude::*;
use vstd::string::StringExecFns;

verus! {

pub const OK: u16 = 200;
pub const BAD_REQUEST: u16 = 400;
pub const UNAUTHORIZED: u16 = 401;
pub const NOT_FOUND: u16 = 404;
pub const METHOD_NOT_ALLOWED: u16 = 405;
pub const REQUEST_TIMEOUT: u16 = 408;
pub const INTERNAL_SERVER_ERROR: u16 = 500;

/// A response body.
pub enum Body {
    /// Plain text.
    Text(String),
    /// One car, as a JSON object.
    Car(Car),
    /// A list of cars, as a JSON array.
    Cars(Vec<Car>),
    /// The id of a newly created car, as `{"id": <id>}`.
    Created(u32),
    /// An empty JSON object, for a change that succeeded.
    Ack,
    /// A list of images, as a JSON array.
    Images(Vec<Image>),
    /// JSON `null`, for an action that returns nothing.
    Null,
    /// A bare JSON number: the id of a newly created car.
    Id(u32),
}

pub enum BodyView {
    Text(Seq<char>),
    Car(CarView),
    Cars(Seq<CarView>),
    Created(u32),
    Ack,
    Images(Seq<(Seq<char>, Seq<char>, Seq<char>, Seq<char>)>),
    Null,
    Id(u32),
}

impl View for Body {
    type V = BodyView;

    open spec fn view(&self) -> BodyView {
        match self {
            Body::Text(t) => BodyView::Text(t@),
            Body::Car(c) => BodyView::Car(c@),
            Body::Cars(cs) => BodyView::Cars(cars_view(cs@)),
            Body::Created(id) => BodyView::Created(*id),
            Body::Ack => BodyView::Ack,
            Body::Images(v) => BodyView::Images(
                v@.map_values(|i: Image| (i.name@, i.tag@, i.ctime@, i.size@)),
            ),
            Body::Null => BodyView::Null,
            Body::Id(id) => BodyView::Id(*id),
        }
    }
}

pub struct Response {
    pub status: u16,
    pub headers: Vec<(String, String)>,
    pub body: Body,
}

pub struct ResponseView {
    pub status: u16,
    pub headers: Seq<(Seq<char>, Seq<char>)>,
    pub body: BodyView,
}

impl View for Response {
    type V = ResponseView;

    open spec fn view(&self) -> ResponseView {
        ResponseView {
            status: self.status,
            headers: self.headers@.map_values(|h: (String, String)| (h.0@, h.1@)),
            body: self.body@,
        }
    }
}

pub open spec fn content_type() -> Seq<char> {
    "content-type"@
}

pub open spec fn json_type() -> Seq<char> {
    "application/json"@
}

pub open spec fn text_type() -> Seq<char> {
    "text/plain; charset=utf-8"@
}

/// A response with `status` and a text body, without headers.
pub open spec fn err_response(status: u16, body: Seq<char>) -> ResponseView {
    ResponseView { status, headers: Seq::empty(), body: BodyView::Text(body) }
}

/// A 200 response with a JSON body.
pub open spec fn json_response(body: BodyView) -> ResponseView {
    ResponseView { status: OK, headers: seq![(content_type(), json_type())], body }
}

/// A response with `status` and a text body marked as plain text.
pub open spec fn text_response(status: u16, body: Seq<char>) -> ResponseView {
    ResponseView { status, headers: seq![(content_type(), text_type())], body: BodyView::Text(body) }
}

/// `status` with a text body and no headers.
pub fn mk_err_response(status: u16, body: String) -> (r: Response)
    ensures
        r@ == err_response(status, body@),
{
    let r = Response { status, headers: Vec::new(), body: Body::Text(body) };
    assert(r@.headers =~= Seq::<(Seq<char>, Seq<char>)>::empty());
    r
}

/// `status` with an empty text body and no headers.
pub fn mk_empty_response(status: u16) -> (r: Response)
    ensures
        r@ == err_response(status, Seq::empty()),
{
    mk_err_response(status, String::new())
}

/// 200 with `body`, marked as JSON.
pub fn mk_json_response(body: Body) -> (r: Response)
    ensures
        r@ == json_response(body@),
{
    let mut headers: Vec<(String, String)> = Vec::new();
    headers.push((String::from_str("content-type"), String::from_str("application/json")));
    let r = Response { status: OK, headers, body };
    assert(r@.headers =~= seq![(content_type(), json_type())]);
    r
}

/// `status` with `body` marked as plain text.
pub fn mk_text_response(status: u16, body: String) -> (r: Response)
    ensures
        r@ == text_response(status, body@),
{
    let mut headers: Vec<(String, String)> = Vec::new();
    headers.push(
        (String::from_str("content-type"), String::from_str("text/plain; charset=utf-8")),
    );
    let r = Response { status, headers, body: Body::Text(body) };
    assert(r@.headers =~= seq![(content_type(), text_type())]);
    r
}

/// `resp` with one more header, after the others.
pub fn with_header(resp: Response, name: &str, value: &str) -> (r: Response)
    ensures
        r@ == (ResponseView { headers: resp@.headers.push((name@, value@)), ..resp@ }),
{
    let mut resp = resp;
    let ghost before = resp@;
    resp.headers.push((String::from_str(name), String::from_str(value)));
    assert(resp@.headers =~= before.headers.push((name@, value@)));
    resp
}

/// "Unhandled internal error: <message>"
pub open spec fn unhandled_message(m: Seq<char>) -> Seq<char> {
    "Unhandled internal error: "@ + m
}

/// The response an error becomes: 408 for a timeout, 500 with the
/// error's message otherwise.
pub open spec fn error_response(e: BoxErrorView) -> ResponseView {
    match e {
        BoxErrorView::Timeout => text_response(REQUEST_TIMEOUT, timeout_message()),
        BoxErrorView::Other(m) => text_response(INTERNAL_SERVER_ERROR, unhandled_message(m)),
    }
}

/// Maps a failure of the stack to the response the client gets.
pub fn handle_error(error: BoxError) -> (r: Response)
    ensures
        r@ == error_response(error@),
{
    match error {
        BoxError::Timeout(t) => {
            let m = t.message();
            mk_text_response(REQUEST_TIMEOUT, String::from_str(m))
        },
        BoxError::Other(msg) => {
            let mut m = String::from_str("Unhandled internal error: ");
            m.append(msg.as_str());
            mk_text_response(INTERNAL_SERVER_ERROR, m)
        },
    }
}

} // verus!
