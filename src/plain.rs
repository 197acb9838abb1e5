//! The car service without a route table, for servers that cannot host
//! the layered stack: the path is split by hand and every success carries
//! cross-origin headers.
use crate::context::str_eq;
use crate::parse::{id_of, parse_id, trim_text, trimmed};
use crate::path::{lemma_split_append, lemma_split_single, split_segments, split_slash};
use crate::response::{
    err_response, Body, BodyView, Response, ResponseView, BAD_REQUEST, INTERNAL_SERVER_ERROR,
    NOT_FOUND,
};
use crate::service::invalid_id_text;
use crate::store::{
    answers, apply_op, Car, CarStore, CarView, StoreAnswer, StoreAnswerView, StoreError,
    StoreErrorView, StoreOp, StoreOpView,
};
use vstd::prelude::*;
use vstd::string::StringExecFns;

verus! {

/// The headers of every successful answer.
pub open spec fn cors_headers() -> Seq<(Seq<char>, Seq<char>)> {
    seq![
        ("Access-Control-Allow-Origin"@, "*"@),
        ("Access-Control-Allow-Methods"@, "GET, POST, OPTIONS"@),
        ("Access-Control-Allow-Headers"@, "api,Keep-Alive,User-Agent,Content-Type"@),
        ("Content-Type"@, "application/json"@),
    ]
}

/// 200 with `body` and the cross-origin headers.
pub open spec fn cors_response(body: BodyView) -> ResponseView {
    ResponseView { status: 200, headers: cors_headers(), body }
}

pub fn response_build(body: Body) -> (r: Response)
    ensures
        r@ == cors_response(body@),
{
    let mut headers: Vec<(String, String)> = Vec::new();
    headers.push((String::from_str("Access-Control-Allow-Origin"), String::from_str("*")));
    headers.push((String::from_str("Access-Control-Allow-Methods"), String::from_str("GET, POST, OPTIONS")));
    headers.push(
        (
            String::from_str("Access-Control-Allow-Headers"),
            String::from_str("api,Keep-Alive,User-Agent,Content-Type"),
        ),
    );
    headers.push((String::from_str("Content-Type"), String::from_str("application/json")));
    let r = Response { status: 200, headers, body };
    assert(r@.headers =~= cors_headers());
    r
}

/// 404 with the status code as its body.
pub open spec fn not_found_response() -> ResponseView {
    err_response(NOT_FOUND, "404"@)
}

/// 500 with the status code as its body.
pub open spec fn internal_response() -> ResponseView {
    err_response(INTERNAL_SERVER_ERROR, "500"@)
}

/// 404 with the status code as the body.
pub fn mk_404() -> (r: Response)
    ensures
        r@ == not_found_response(),
{
    crate::response::mk_err_response(NOT_FOUND, String::from_str("404"))
}

/// 400 with `msg` as the body.
pub fn mk_400(msg: String) -> (r: Response)
    ensures
        r@ == err_response(BAD_REQUEST, msg@),
{
    crate::response::mk_err_response(BAD_REQUEST, msg)
}

/// 500 with the status code as the body.
pub fn mk_500() -> (r: Response)
    ensures
        r@ == internal_response(),
{
    crate::response::mk_err_response(INTERNAL_SERVER_ERROR, String::from_str("500"))
}

/// A store failure: 404 for a missing record, 500 otherwise; no detail.
pub open spec fn plain_error_response(e: StoreErrorView) -> ResponseView {
    match e {
        StoreErrorView::NotFound(_) => not_found_response(),
        StoreErrorView::Internal(_) => internal_response(),
    }
}

pub fn store_error_into(e: StoreError) -> (r: Response)
    ensures
        r@ == plain_error_response(e@),
{
    match e {
        StoreError::NotFound(_) => mk_404(),
        StoreError::Internal(_) => mk_500(),
    }
}

/// The answer to an unknown route: 404 with nothing else.
pub open spec fn default_404() -> ResponseView {
    err_response(NOT_FOUND, Seq::empty())
}

/// The second segment of a path (its first after the leading `/`), or
/// empty.
pub open spec fn base_of(path: Seq<char>) -> Seq<char> {
    if split_slash(path).len() > 1 {
        split_slash(path)[1]
    } else {
        Seq::empty()
    }
}

/// The id segment of a path, if it has one.
pub open spec fn id_segment(path: Seq<char>) -> Option<Seq<char>> {
    if split_slash(path).len() > 2 {
        Some(split_slash(path)[2])
    } else {
        None
    }
}

/// Whether the request names a collection rather than one car: no id
/// segment, or one that is blank.
pub open spec fn names_collection(path: Seq<char>) -> bool {
    match id_segment(path) {
        None => true,
        Some(s) => trimmed(s).len() == 0,
    }
}

pub open spec fn bad_id_response(sid: Seq<char>) -> ResponseView {
    err_response(BAD_REQUEST, invalid_id_text(sid))
}

pub open spec fn is_cars_method(method: Seq<char>) -> bool {
    method == "GET"@ || method == "DELETE"@ || method == "POST"@ || method == "PUT"@
}

fn invalid_id(sid: &str) -> (r: Response)
    ensures
        r@ == bad_id_response(sid@),
{
    let mut m = String::from_str("invalid id=");
    m.append(sid);
    m.append(", expect uint32 number");
    mk_400(m)
}

fn bad_json(msg: String) -> (r: Response)
    ensures
        r@ == err_response(BAD_REQUEST, "invalid json input:"@ + msg@),
{
    let mut m = String::from_str("invalid json input:");
    m.append(msg.as_str());
    mk_400(m)
}

/// The answer to a store answer of all cars.
pub open spec fn plain_list_response(res: Result<Vec<Car>, StoreError>) -> ResponseView {
    match res {
        Ok(cs) => cors_response(Body::Cars(cs)@),
        Err(_) => internal_response(),
    }
}

/// The kind of a store operation.
#[derive(Clone, Copy, PartialEq, Eq, Debug, Structural)]
pub enum OpKind {
    Create,
    Update,
    Get,
    GetAll,
    Delete,
    DeleteAll,
}

pub open spec fn kind_of(op: StoreOpView) -> OpKind {
    match op {
        StoreOpView::Create(..) => OpKind::Create,
        StoreOpView::Update(_) => OpKind::Update,
        StoreOpView::Get(_) => OpKind::Get,
        StoreOpView::GetAll => OpKind::GetAll,
        StoreOpView::Delete(_) => OpKind::Delete,
        StoreOpView::DeleteAll => OpKind::DeleteAll,
    }
}

fn op_kind(op: &StoreOp) -> (r: OpKind)
    ensures
        r == kind_of(op@),
{
    match op {
        StoreOp::Create { .. } => OpKind::Create,
        StoreOp::Update(_) => OpKind::Update,
        StoreOp::Get(_) => OpKind::Get,
        StoreOp::GetAll => OpKind::GetAll,
        StoreOp::Delete(_) => OpKind::Delete,
        StoreOp::DeleteAll => OpKind::DeleteAll,
    }
}

/// The answer to a store's answer: the record (or an empty JSON object for
/// a change) with the cross-origin headers, or a bare error. A failed
/// listing or clearing is always 500.
pub open spec fn plain_answer_response(kind: OpKind, a: StoreAnswerView) -> ResponseView {
    match a {
        StoreAnswerView::All(Ok(cs)) => cors_response(BodyView::Cars(cs)),
        StoreAnswerView::One(Ok(c)) => cors_response(BodyView::Car(c)),
        StoreAnswerView::Created(Ok(id)) => cors_response(BodyView::Id(id)),
        StoreAnswerView::Changed(Ok(_)) => cors_response(BodyView::Ack),
        StoreAnswerView::All(Err(_)) => internal_response(),
        StoreAnswerView::Changed(Err(e)) => if kind == OpKind::DeleteAll {
            internal_response()
        } else {
            plain_error_response(e)
        },
        StoreAnswerView::One(Err(e)) => plain_error_response(e),
        StoreAnswerView::Created(Err(e)) => plain_error_response(e),
    }
}

/// Turns a store's answer to an operation of `kind` into the response.
pub fn plain_finish(kind: OpKind, a: StoreAnswer) -> (r: Response)
    ensures
        r@ == plain_answer_response(kind, a@),
{
    match a {
        StoreAnswer::All(Ok(cs)) => response_build(Body::Cars(cs)),
        StoreAnswer::One(Ok(c)) => response_build(Body::Car(c)),
        StoreAnswer::Created(Ok(id)) => response_build(Body::Id(id)),
        StoreAnswer::Changed(Ok(_)) => response_build(Body::Ack),
        StoreAnswer::All(Err(_)) => mk_500(),
        StoreAnswer::Changed(Err(e)) => {
            if kind == OpKind::DeleteAll {
                mk_500()
            } else {
                store_error_into(e)
            }
        },
        StoreAnswer::One(Err(e)) => store_error_into(e),
        StoreAnswer::Created(Err(e)) => store_error_into(e),
    }
}

/// What a request decides before the store is asked: an answer at once,
/// or the operation to run.
pub enum PlainStep {
    Respond(Response),
    Store(StoreOp),
}

pub enum PlainStepView {
    Respond(ResponseView),
    Store(StoreOpView),
}

impl View for PlainStep {
    type V = PlainStepView;

    open spec fn view(&self) -> PlainStepView {
        match self {
            PlainStep::Respond(r) => PlainStepView::Respond(r@),
            PlainStep::Store(op) => PlainStepView::Store(op@),
        }
    }
}

/// The decision for a request on `/cars` or `/cars/<id>`; `body` is the
/// request body as decoded, read by `POST` and `PUT` only.
pub open spec fn plain_plan(method: Seq<char>, path: Seq<char>, body: Result<CarView, Seq<char>>) -> PlainStepView {
    if !(base_of(path) == "cars"@ && is_cars_method(method)) {
        PlainStepView::Respond(default_404())
    } else if method == "GET"@ || method == "DELETE"@ {
        if names_collection(path) {
            PlainStepView::Store(if method == "GET"@ { StoreOpView::GetAll } else { StoreOpView::DeleteAll })
        } else {
            match id_of(id_segment(path)->Some_0) {
                None => PlainStepView::Respond(bad_id_response(id_segment(path)->Some_0)),
                Some(id) => PlainStepView::Store(if method == "GET"@ { StoreOpView::Get(id) } else { StoreOpView::Delete(id) }),
            }
        }
    } else if method == "POST"@ {
        match body {
            Ok(c) => PlainStepView::Store(StoreOpView::Create(c.brand, c.model, c.year)),
            Err(m) => PlainStepView::Respond(err_response(BAD_REQUEST, "invalid json input:"@ + m)),
        }
    } else {
        match id_segment(path) {
            None => PlainStepView::Respond(not_found_response()),
            Some(seg) => match id_of(seg) {
                None => PlainStepView::Respond(bad_id_response(seg)),
                Some(id) => match body {
                    Ok(c) => PlainStepView::Store(StoreOpView::Update(CarView { id, ..c })),
                    Err(m) => PlainStepView::Respond(err_response(BAD_REQUEST, "invalid json input:"@ + m)),
                },
            },
        }
    }
}

pub open spec fn body_view(body: Result<Car, String>) -> Result<CarView, Seq<char>> {
    match body {
        Ok(c) => Ok(c@),
        Err(m) => Err(m@),
    }
}

/// `GET /cars/` is served as `GET /cars`: both list every car.
pub proof fn lemma_plain_trailing_slash(body: Result<CarView, Seq<char>>)
    ensures
        plain_plan("GET"@, "/cars/"@, body) == PlainStepView::Store(StoreOpView::GetAll),
        plain_plan("GET"@, "/cars"@, body) == PlainStepView::Store(StoreOpView::GetAll),
{
    reveal_strlit("/cars");
    reveal_strlit("/cars/");
    reveal_strlit("cars");
    reveal_strlit("GET");
    let cars = seq!['c', 'a', 'r', 's'];
    let empty = Seq::<char>::empty();
    assert("/cars"@ =~= empty + seq!['/'] + cars);
    assert("/cars/"@ =~= "/cars"@ + seq!['/'] + empty);
    lemma_split_single(empty);
    lemma_split_append(empty, cars);
    lemma_split_append("/cars"@, empty);
    assert(split_slash("/cars"@) =~= seq![empty, cars]);
    assert(split_slash("/cars/"@) =~= seq![empty, cars, empty]);
    assert(cars =~= "cars"@);
    assert(trimmed(empty) =~= empty);
}

proof fn lemma_methods_distinct()
    ensures
        "GET"@ != "DELETE"@,
        "GET"@ != "POST"@,
        "GET"@ != "PUT"@,
        "DELETE"@ != "POST"@,
        "DELETE"@ != "PUT"@,
        "POST"@ != "PUT"@,
{
    reveal_strlit("GET");
    reveal_strlit("DELETE");
    reveal_strlit("POST");
    reveal_strlit("PUT");
    assert("GET"@[0] == 'G');
    assert("PUT"@[0] == 'P');
    assert("POST"@[1] == 'O');
    assert("PUT"@[1] == 'U');
}

/// Decides a request on `/cars` or `/cars/<id>` up to the store.
pub fn plain_route(method: &str, path: &str, body: Result<Car, String>) -> (r: PlainStep)
    ensures
        r@ == plain_plan(method@, path@, body_view(body)),
{
    let segs = split_segments(path);
    let base: &str = if segs.len() > 1 {
        segs[1]
    } else {
        ""
    };
    proof {
        reveal_strlit("");
        lemma_methods_distinct();
        assert(base@ == base_of(path@));
    }
    if !str_eq(base, "cars") {
        return PlainStep::Respond(crate::response::mk_empty_response(NOT_FOUND));
    }
    let get = str_eq(method, "GET");
    if get || str_eq(method, "DELETE") {
        if segs.len() <= 2 {
            return PlainStep::Store(if get { StoreOp::GetAll } else { StoreOp::DeleteAll });
        }
        let car_id = segs[2];
        if trim_text(car_id).unicode_len() == 0 {
            return PlainStep::Store(if get { StoreOp::GetAll } else { StoreOp::DeleteAll });
        }
        match parse_id(car_id) {
            Some(id) => PlainStep::Store(if get { StoreOp::Get(id) } else { StoreOp::Delete(id) }),
            None => PlainStep::Respond(invalid_id(car_id)),
        }
    } else if str_eq(method, "POST") {
        match body {
            Ok(new_car) => PlainStep::Store(StoreOp::Create { brand: new_car.brand, model: new_car.model, year: new_car.year }),
            Err(e) => PlainStep::Respond(bad_json(e)),
        }
    } else if str_eq(method, "PUT") {
        if segs.len() <= 2 {
            return PlainStep::Respond(mk_404());
        }
        let car_id_str = segs[2];
        match parse_id(car_id_str) {
            Some(id) => match body {
                Ok(new_car) => PlainStep::Store(
                    StoreOp::Update(Car { id, brand: new_car.brand, model: new_car.model, year: new_car.year }),
                ),
                Err(e) => PlainStep::Respond(bad_json(e)),
            },
            None => PlainStep::Respond(invalid_id(car_id_str)),
        }
    } else {
        PlainStep::Respond(crate::response::mk_empty_response(NOT_FOUND))
    }
}

/// Serves one request for `/cars` or `/cars/<id>`. `body` is the request
/// body as decoded for `POST` and `PUT`; other methods ignore it.
pub fn cars_handler<S: CarStore>(store: &mut S, method: &str, path: &str, body: Result<Car, String>) -> (r: Response)
    ensures
        plain_plan(method@, path@, body_view(body)) matches PlainStepView::Respond(v) ==> r@ == v
            && *final(store) == *old(store),
        plain_plan(method@, path@, body_view(body)) matches PlainStepView::Store(op) ==> exists|a: StoreAnswerView|
            answers(op, a) && r@ == #[trigger] plain_answer_response(kind_of(op), a),
{
    match plain_route(method, path, body) {
        PlainStep::Respond(r) => r,
        PlainStep::Store(op) => {
            let kind = op_kind(&op);
            let a = apply_op(store, op);
            let ghost answer = a@;
            let r = plain_finish(kind, a);
            assert(r@ == plain_answer_response(kind, answer));
            r
        },
    }
}

} // verus!
