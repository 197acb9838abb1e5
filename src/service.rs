//! The car service: its route table, and for each route the decision from
//! the request's parameters, body and the store's answer to the response.
//! Work the library cannot do itself (running the image tool, sleeping) is
//! handed back to the server as an outcome to perform.
use crate::context::{map_of, Context};
use crate::ctl::Image;
use crate::parse::{id_of, parse_id, parse_u64, parsed_unsigned, trim_text, trimmed};
use crate::response::{
    err_response, json_response, mk_empty_response, mk_err_response, mk_json_response, Body,
    BodyView, Response, ResponseView, BAD_REQUEST, INTERNAL_SERVER_ERROR, METHOD_NOT_ALLOWED,
    NOT_FOUND,
};
use crate::path::{
    chars_ok_from, colon_count, lemma_split_append, lemma_split_single, lemma_valid_pattern_by_chars,
    bindings, is_literal, normalized, pattern_matches, same_shape, segment_bindings, segments,
    valid_path, valid_pattern,
};
use crate::router::{lookup_laws, method_name, Method, RouteMatch, RouteMatchView, RouteTable};
use crate::store::{
    first_index, lemma_first_index, lemma_first_index_push, mem_op_answer, Car, CarView, MemCarStore, StoreAnswer, StoreAnswerView, StoreError,
    StoreErrorView, StoreOp, StoreOpView,
};
use vstd::prelude::*;
use vstd::string::StringExecFns;

verus! {

/// The handler a route is bound to.
#[derive(Clone, Copy, PartialEq, Eq, Debug, Structural)]
pub enum CarRoute {
    CreateCar,
    UpdateCar,
    ListCars,
    GetCar,
    DeleteAllCars,
    DeleteCar,
    ListImages,
    PushImage,
    Sleep,
}

/// "Internal Server Error"
pub open spec fn internal_error_text() -> Seq<char> {
    "Internal Server Error"@
}

/// The response a store failure becomes: its message for a missing
/// record; a fixed text for an internal fault, whose detail is not shown.
pub open spec fn store_error_response(e: StoreErrorView) -> ResponseView {
    match e {
        StoreErrorView::NotFound(m) => err_response(NOT_FOUND, m),
        StoreErrorView::Internal(_) => err_response(INTERNAL_SERVER_ERROR, internal_error_text()),
    }
}

pub fn store_err_to_resp(err: StoreError) -> (r: Response)
    ensures
        r@ == store_error_response(err@),
{
    match err {
        StoreError::NotFound(m) => mk_err_response(NOT_FOUND, m),
        StoreError::Internal(_) => mk_err_response(
            INTERNAL_SERVER_ERROR,
            String::from_str("Internal Server Error"),
        ),
    }
}

/// "invalid id=<segment>, expect uint32 number"
pub open spec fn invalid_id_text(sid: Seq<char>) -> Seq<char> {
    "invalid id="@ + sid + ", expect uint32 number"@
}

pub open spec fn missing_id_text() -> Seq<char> {
    "expect id in url path"@
}

/// The id a request's `id` parameter names, or the 400 response.
pub open spec fn id_outcome(ctx: Map<Seq<char>, Seq<char>>) -> Result<u32, ResponseView> {
    if !ctx.contains_key("id"@) {
        Err(err_response(BAD_REQUEST, missing_id_text()))
    } else {
        match id_of(ctx["id"@]) {
            Some(id) => Ok(id),
            None => Err(err_response(BAD_REQUEST, invalid_id_text(ctx["id"@]))),
        }
    }
}

/// Reads the `id` parameter.
pub fn id_param(ctx: &Context) -> (r: Result<u32, Response>)
    ensures
        r matches Ok(id) ==> id_outcome(ctx@) == Ok::<u32, ResponseView>(id),
        r matches Err(resp) ==> id_outcome(ctx@) == Err::<u32, ResponseView>(resp@),
{
    match ctx.get("id") {
        None => Err(mk_err_response(BAD_REQUEST, String::from_str("expect id in url path"))),
        Some(sid) => match parse_id(sid.as_str()) {
            Some(id) => Ok(id),
            None => {
                let mut m = String::from_str("invalid id=");
                m.append(sid.as_str());
                m.append(", expect uint32 number");
                Err(mk_err_response(BAD_REQUEST, m))
            },
        },
    }
}

/// The response to a store's answer.
pub open spec fn answer_response(a: StoreAnswerView) -> ResponseView {
    match a {
        StoreAnswerView::Created(Ok(id)) => json_response(BodyView::Created(id)),
        StoreAnswerView::Changed(Ok(_)) => json_response(BodyView::Ack),
        StoreAnswerView::One(Ok(c)) => json_response(BodyView::Car(c)),
        StoreAnswerView::All(Ok(cs)) => json_response(BodyView::Cars(cs)),
        StoreAnswerView::Created(Err(e)) => store_error_response(e),
        StoreAnswerView::Changed(Err(e)) => store_error_response(e),
        StoreAnswerView::One(Err(e)) => store_error_response(e),
        StoreAnswerView::All(Err(e)) => store_error_response(e),
    }
}

/// Turns a store's answer into the response.
pub fn store_response(a: StoreAnswer) -> (r: Response)
    ensures
        r@ == answer_response(a@),
{
    match a {
        StoreAnswer::Created(Ok(id)) => mk_json_response(Body::Created(id)),
        StoreAnswer::Changed(Ok(_)) => mk_json_response(Body::Ack),
        StoreAnswer::One(Ok(c)) => mk_json_response(Body::Car(c)),
        StoreAnswer::All(Ok(cs)) => mk_json_response(Body::Cars(cs)),
        StoreAnswer::Created(Err(e)) => store_err_to_resp(e),
        StoreAnswer::Changed(Err(e)) => store_err_to_resp(e),
        StoreAnswer::One(Err(e)) => store_err_to_resp(e),
        StoreAnswer::All(Err(e)) => store_err_to_resp(e),
    }
}

/// "invalid json input:<decoder's message>"
pub open spec fn bad_json_response(msg: Seq<char>) -> ResponseView {
    err_response(BAD_REQUEST, "invalid json input:"@ + msg)
}

pub open spec fn bad_year_response() -> ResponseView {
    err_response(BAD_REQUEST, "car year must be greater than 0"@)
}

fn bad_json(msg: String) -> (r: Response)
    ensures
        r@ == bad_json_response(msg@),
{
    let mut m = String::from_str("invalid json input:");
    m.append(msg.as_str());
    mk_err_response(BAD_REQUEST, m)
}

fn bad_year() -> (r: Response)
    ensures
        r@ == bad_year_response(),
{
    mk_err_response(BAD_REQUEST, String::from_str("car year must be greater than 0"))
}

/// On the service's table, `GET /cars` and `GET /cars/` reach the list
/// handler with no parameters.
pub proof fn lemma_service_lists_cars(t: RouteTable<CarRoute>, path: Seq<char>, answer: RouteMatchView<CarRoute>)
    requires
        is_service_table(t),
        path == "/cars"@ || path == "/cars/"@,
        lookup_laws(t, Method::Get, path, answer),
    ensures
        answer == RouteMatchView::Found(CarRoute::ListCars, Map::<Seq<char>, Seq<char>>::empty()),
{
    reveal_strlit("/cars");
    reveal_strlit("/cars/");
    reveal_strlit("/cars/:id");
    reveal_strlit("/ctl/images");
    reveal_strlit("/test/sleep/:duration");
    assert("/cars/"@.drop_last() =~= "/cars"@);
    assert(normalized(path) == "/cars"@);
    assert(t.patterns(Method::Get).contains("/cars"@));
    assert(is_literal("/cars"@));
}

/// On the service's table, `GET /cars/<segment>` (`/cars/42`,
/// `/cars/notanumber`) reaches the get-one handler with `id` bound to the
/// segment, and no other parameter.
pub proof fn lemma_service_gets_car(t: RouteTable<CarRoute>, segment: Seq<char>, answer: RouteMatchView<CarRoute>)
    requires
        is_service_table(t),
        segment.len() > 0,
        forall|i: int| 0 <= i < segment.len() ==> segment[i] != '/',
        lookup_laws(t, Method::Get, "/cars/"@ + segment, answer),
    ensures
        answer == RouteMatchView::Found(CarRoute::GetCar, map!["id"@ => segment]),
{
    reveal_strlit("/cars");
    reveal_strlit("/cars/");
    reveal_strlit("/cars/:id");
    reveal_strlit("/ctl/images");
    reveal_strlit("/test/sleep/:duration");
    reveal_strlit("id");
    lemma_service_patterns();
    let value = segment;
    let path = "/cars/"@ + segment;
    let cars = seq!['c', 'a', 'r', 's'];
    let id = seq![':', 'i', 'd'];
    assert("/cars/"@ =~= seq!['/', 'c', 'a', 'r', 's', '/']);
    let tail = cars + seq!['/'] + value;
    assert(path =~= seq!['/', 'c', 'a', 'r', 's', '/'] + value);
    assert(seq!['/', 'c', 'a', 'r', 's', '/'] =~= seq!['/'] + cars + seq!['/']);
    assert(path =~= seq!['/'] + tail);
    assert((seq!['/'] + tail).drop_first() =~= tail);
    assert(path.drop_first() =~= tail);
    assert("/cars/:id"@.drop_first() =~= cars + seq!['/'] + id);
    lemma_split_single(cars);
    lemma_split_append(cars, value);
    lemma_split_append(cars, id);
    assert(segments(path) =~= seq![cars, value]);
    assert(segments("/cars/:id"@) =~= seq![cars, id]);
    assert(normalized(path) == path);
    assert(valid_path(path)) by {
        assert forall|i: int| 1 <= i < path.len() && #[trigger] path[i] == '/' implies path[i - 1] != '/' by {
            if i > 5 {
                assert(path[i] == segment[i - 6]);
            } else if i < 5 {
                assert(path[i] != '/');
            }
        }
        assert(path.last() == segment.last());
    }
    assert(pattern_matches("/cars/:id"@, path));
    let segs = segments(path);
    assert(!pattern_matches("/cars"@, path)) by {
        assert(segments("/cars"@) =~= seq![cars]) by {
            assert("/cars"@.drop_first() =~= cars);
        }
    }
    assert(!pattern_matches("/ctl/images"@, path)) by {
        let ctl = seq!['c', 't', 'l'];
        let images = seq!['i', 'm', 'a', 'g', 'e', 's'];
        assert("/ctl/images"@.drop_first() =~= ctl + seq!['/'] + images);
        lemma_split_single(ctl);
        lemma_split_append(ctl, images);
        assert(segments("/ctl/images"@)[0] == ctl);
        assert(ctl[1] != cars[1]);
    }
    assert(!pattern_matches("/test/sleep/:duration"@, path)) by {
        let test = seq!['t', 'e', 's', 't'];
        let sleep = seq!['s', 'l', 'e', 'e', 'p'];
        let duration = seq![':', 'd', 'u', 'r', 'a', 't', 'i', 'o', 'n'];
        assert("/test/sleep/:duration"@.drop_first() =~= (test + seq!['/'] + sleep) + seq!['/'] + duration);
        lemma_split_single(test);
        lemma_split_append(test, sleep);
        lemma_split_append(test + seq!['/'] + sleep, duration);
        assert(segments("/test/sleep/:duration"@).len() == 3);
    }
    assert(t.patterns(Method::Get).contains("/cars/:id"@));
    assert(bindings("/cars/:id"@, path) =~= seq![(id.drop_first(), value)]) by {
        let ps = seq![cars, id];
        let qs = seq![cars, value];
        assert(ps.drop_last() =~= seq![cars]);
        assert(qs.drop_last() =~= seq![cars]);
        assert(seq![cars].drop_last() =~= Seq::<Seq<char>>::empty());
        reveal_with_fuel(segment_bindings, 3);
    }
    assert(id.drop_first() =~= "id"@);
    let pairs = seq![(id.drop_first(), value)];
    assert(pairs.drop_last() =~= Seq::<(Seq<char>, Seq<char>)>::empty());
    assert(map_of(pairs.drop_last()) == Map::<Seq<char>, Seq<char>>::empty());
    assert(pairs.last() == (id.drop_first(), value));
    assert(map_of(pairs) == Map::<Seq<char>, Seq<char>>::empty().insert(id.drop_first(), value));
    assert(id.drop_first() == "id"@);
    assert(Map::<Seq<char>, Seq<char>>::empty().insert(id.drop_first(), value) =~= map!["id"@ => segment]);
}

/// A request body as the server decoded it for the route.
pub enum RequestBody {
    /// The route reads no body.
    Empty,
    /// A car, or the decoder's message.
    Car(Result<Car, String>),
    /// An image name, or the decoder's message.
    Image(Result<String, String>),
}

pub enum RequestBodyView {
    Empty,
    Car(Result<CarView, Seq<char>>),
    Image(Result<Seq<char>, Seq<char>>),
}

impl View for RequestBody {
    type V = RequestBodyView;

    open spec fn view(&self) -> RequestBodyView {
        match self {
            RequestBody::Empty => RequestBodyView::Empty,
            RequestBody::Car(Ok(c)) => RequestBodyView::Car(Ok(c@)),
            RequestBody::Car(Err(m)) => RequestBodyView::Car(Err(m@)),
            RequestBody::Image(Ok(i)) => RequestBodyView::Image(Ok(i@)),
            RequestBody::Image(Err(m)) => RequestBodyView::Image(Err(m@)),
        }
    }
}

/// The car a body holds; a body of another kind did not decode.
pub open spec fn car_body(b: RequestBodyView) -> Result<CarView, Seq<char>> {
    match b {
        RequestBodyView::Car(r) => r,
        _ => Err(Seq::empty()),
    }
}

/// The image name a body holds; a body of another kind did not decode.
pub open spec fn image_body(b: RequestBodyView) -> Result<Seq<char>, Seq<char>> {
    match b {
        RequestBodyView::Image(r) => r,
        _ => Err(Seq::empty()),
    }
}

fn take_car(b: RequestBody) -> (r: Result<Car, String>)
    ensures
        (match r {
            Ok(c) => Ok::<CarView, Seq<char>>(c@),
            Err(m) => Err(m@),
        }) == car_body(b@),
{
    match b {
        RequestBody::Car(r) => r,
        _ => Err(String::new()),
    }
}

/// What the server is to do for a handled request.
pub enum Outcome {
    /// Send this response.
    Respond(Response),
    /// Run this operation on the store, then answer with `store_response`.
    Store(StoreOp),
    /// List the images, then answer with `images_response`.
    ListImages,
    /// Push this image, then answer with `pushed_response`.
    PushImage(String),
    /// Wait this many milliseconds, then answer with `slept_response`.
    Sleep(u64),
}

pub enum OutcomeView {
    Respond(ResponseView),
    Store(StoreOpView),
    ListImages,
    PushImage(Seq<char>),
    Sleep(u64),
}

impl View for Outcome {
    type V = OutcomeView;

    open spec fn view(&self) -> OutcomeView {
        match self {
            Outcome::Respond(r) => OutcomeView::Respond(r@),
            Outcome::Store(op) => OutcomeView::Store(op@),
            Outcome::ListImages => OutcomeView::ListImages,
            Outcome::PushImage(i) => OutcomeView::PushImage(i@),
            Outcome::Sleep(ms) => OutcomeView::Sleep(*ms),
        }
    }
}

/// What the handler of `route` decides from the parameters and the body.
pub open spec fn plan(route: CarRoute, ctx: Map<Seq<char>, Seq<char>>, body: RequestBodyView) -> OutcomeView {
    match route {
        CarRoute::ListCars => OutcomeView::Store(StoreOpView::GetAll),
        CarRoute::DeleteAllCars => OutcomeView::Store(StoreOpView::DeleteAll),
        CarRoute::GetCar => match id_outcome(ctx) {
            Err(resp) => OutcomeView::Respond(resp),
            Ok(id) => OutcomeView::Store(StoreOpView::Get(id)),
        },
        CarRoute::DeleteCar => match id_outcome(ctx) {
            Err(resp) => OutcomeView::Respond(resp),
            Ok(id) => OutcomeView::Store(StoreOpView::Delete(id)),
        },
        CarRoute::CreateCar => match car_body(body) {
            Err(m) => OutcomeView::Respond(bad_json_response(m)),
            Ok(c) => if c.year == 0 {
                OutcomeView::Respond(bad_year_response())
            } else {
                OutcomeView::Store(StoreOpView::Create(c.brand, c.model, c.year))
            },
        },
        CarRoute::UpdateCar => match id_outcome(ctx) {
            Err(resp) => OutcomeView::Respond(resp),
            Ok(id) => match car_body(body) {
                Err(m) => OutcomeView::Respond(bad_json_response(m)),
                Ok(c) => if c.year == 0 {
                    OutcomeView::Respond(bad_year_response())
                } else {
                    OutcomeView::Store(StoreOpView::Update(CarView { id, ..c }))
                },
            },
        },
        CarRoute::ListImages => OutcomeView::ListImages,
        CarRoute::PushImage => match image_body(body) {
            Ok(img) => OutcomeView::PushImage(img),
            Err(m) => OutcomeView::Respond(bad_json_response(m)),
        },
        CarRoute::Sleep => match sleep_outcome(ctx) {
            Ok(ms) => OutcomeView::Sleep(ms),
            Err(resp) => OutcomeView::Respond(resp),
        },
    }
}

/// `GET /cars/:id`: reads one car, or 400 for a missing or malformed id.
pub fn get_car_by_id(ctx: &Context) -> (r: Outcome)
    ensures
        r@ == plan(CarRoute::GetCar, ctx@, RequestBodyView::Empty),
{
    match id_param(ctx) {
        Err(resp) => Outcome::Respond(resp),
        Ok(id) => Outcome::Store(StoreOp::Get(id)),
    }
}

/// `DELETE /cars/:id`: removes one car.
pub fn delete_car(ctx: &Context) -> (r: Outcome)
    ensures
        r@ == plan(CarRoute::DeleteCar, ctx@, RequestBodyView::Empty),
{
    match id_param(ctx) {
        Err(resp) => Outcome::Respond(resp),
        Ok(id) => Outcome::Store(StoreOp::Delete(id)),
    }
}

/// `POST /cars`: adds the car of the body (its id is ignored); 400 for a
/// body that did not decode or a year of 0.
pub fn create_car(body: RequestBody) -> (r: Outcome)
    ensures
        r@ == plan(CarRoute::CreateCar, Map::empty(), body@),
{
    match take_car(body) {
        Err(m) => Outcome::Respond(bad_json(m)),
        Ok(car) => {
            if car.year == 0 {
                Outcome::Respond(bad_year())
            } else {
                Outcome::Store(StoreOp::Create { brand: car.brand, model: car.model, year: car.year })
            }
        },
    }
}

/// `PUT /cars/:id`: replaces the car with the path's id by the body's
/// fields.
pub fn update_car(ctx: &Context, body: RequestBody) -> (r: Outcome)
    ensures
        r@ == plan(CarRoute::UpdateCar, ctx@, body@),
{
    let id = match id_param(ctx) {
        Err(resp) => return Outcome::Respond(resp),
        Ok(id) => id,
    };
    match take_car(body) {
        Err(m) => Outcome::Respond(bad_json(m)),
        Ok(car) => {
            if car.year == 0 {
                Outcome::Respond(bad_year())
            } else {
                Outcome::Store(StoreOp::Update(Car { id, ..car }))
            }
        },
    }
}

/// Two reads of one car from an unchanged in-memory store give the same
/// response, down to every byte of its body.
pub proof fn lemma_get_car_repeatable(
    store: MemCarStore,
    id: u32,
    after_first: MemCarStore,
    first: StoreAnswer,
    after_second: MemCarStore,
    second: StoreAnswer,
)
    requires
        mem_op_answer(store, after_first, StoreOpView::Get(id), first),
        mem_op_answer(after_first, after_second, StoreOpView::Get(id), second),
    ensures
        after_second == store,
        answer_response(first@) == answer_response(second@),
{
}

/// A car created in the in-memory store is read back with the fields it
/// was given and the id it was assigned, an id no car had before; once
/// deleted, reading it gives 404.
pub proof fn lemma_create_read_delete(
    s0: MemCarStore,
    s1: MemCarStore,
    s2: MemCarStore,
    s3: MemCarStore,
    s4: MemCarStore,
    brand: Seq<char>,
    model: Seq<char>,
    year: u16,
    created: StoreAnswer,
    read: StoreAnswer,
    deleted: StoreAnswer,
    read_again: StoreAnswer,
)
    requires
        s0.wf(),
        mem_op_answer(s0, s1, StoreOpView::Create(brand, model, year), created),
        mem_op_answer(s1, s2, StoreOpView::Get(s0.next_id()), read),
        mem_op_answer(s2, s3, StoreOpView::Delete(s0.next_id()), deleted),
        mem_op_answer(s3, s4, StoreOpView::Get(s0.next_id()), read_again),
    ensures
        answer_response(created@) == json_response(BodyView::Created(s0.next_id())),
        answer_response(read@) == json_response(
            BodyView::Car(CarView { id: s0.next_id(), brand, model, year }),
        ),
        answer_response(deleted@) == json_response(BodyView::Ack),
        answer_response(read_again@).status == NOT_FOUND,
        forall|i: int| 0 <= i < s0.cars().len() ==> s0.cars()[i].id != s0.next_id(),
        s1.cars().last() == (CarView { id: s0.next_id(), brand, model, year }),
{
    let id = s0.next_id();
    lemma_first_index(s0.cars(), id, s0.cars().len() as int);
    let car = CarView { id, brand, model, year };
    lemma_first_index_push(s0.cars(), car);
    assert(s0.cars().push(car).remove(s0.cars().len() as int) =~= s0.cars());
}

/// A request for one car whose id segment is not a 32-bit unsigned number
/// is answered with 400, naming the segment and the type expected, before
/// the store is asked anything.
pub proof fn lemma_bad_id_is_bad_request(route: CarRoute, ctx: Map<Seq<char>, Seq<char>>, body: RequestBodyView)
    requires
        route == CarRoute::GetCar || route == CarRoute::DeleteCar || route == CarRoute::UpdateCar,
        ctx.contains_key("id"@),
        id_of(ctx["id"@]) is None,
    ensures
        plan(route, ctx, body) == OutcomeView::Respond(err_response(BAD_REQUEST, invalid_id_text(ctx["id"@]))),
{
}

/// Replacing a car under an id that no car of the in-memory store has is
/// answered with 404, and the store is left as it was.
pub proof fn lemma_update_unknown_is_not_found(
    store: MemCarStore,
    after: MemCarStore,
    car: CarView,
    answer: StoreAnswer,
)
    requires
        first_index(store.cars(), car.id) < 0,
        mem_op_answer(store, after, StoreOpView::Update(car), answer),
    ensures
        answer_response(answer@).status == NOT_FOUND,
        after.cars() == store.cars(),
{
}

/// The routes of the car service and the control endpoints.
pub open spec fn service_routes(m: Method) -> Map<Seq<char>, CarRoute> {
    match m {
        Method::Post => map!["/cars"@ => CarRoute::CreateCar, "/ctl/images"@ => CarRoute::PushImage],
        Method::Put => map!["/cars/:id"@ => CarRoute::UpdateCar],
        Method::Get => map![
            "/cars"@ => CarRoute::ListCars,
            "/cars/:id"@ => CarRoute::GetCar,
            "/ctl/images"@ => CarRoute::ListImages,
            "/test/sleep/:duration"@ => CarRoute::Sleep,
        ],
        Method::Delete => map!["/cars"@ => CarRoute::DeleteAllCars, "/cars/:id"@ => CarRoute::DeleteCar],
        _ => Map::empty(),
    }
}

/// The service's patterns are valid, and no two registered for one method
/// have the same shape.
proof fn lemma_service_patterns()
    ensures
        valid_pattern("/cars"@),
        valid_pattern("/cars/:id"@),
        valid_pattern("/ctl/images"@),
        valid_pattern("/test/sleep/:duration"@),
        !same_shape("/cars"@, "/cars/:id"@),
        !same_shape("/cars"@, "/ctl/images"@),
        !same_shape("/cars"@, "/test/sleep/:duration"@),
        !same_shape("/cars/:id"@, "/ctl/images"@),
        !same_shape("/cars/:id"@, "/test/sleep/:duration"@),
        !same_shape("/ctl/images"@, "/test/sleep/:duration"@),
{
    reveal_strlit("/cars");
    reveal_strlit("/cars/:id");
    reveal_strlit("/ctl/images");
    reveal_strlit("/test/sleep/:duration");
    reveal_with_fuel(chars_ok_from, 25);
    reveal_with_fuel(colon_count, 25);
    let cars = seq!['c', 'a', 'r', 's'];
    let ctl = seq!['c', 't', 'l'];
    let images = seq!['i', 'm', 'a', 'g', 'e', 's'];
    let test = seq!['t', 'e', 's', 't'];
    let sleep = seq!['s', 'l', 'e', 'e', 'p'];
    let id = seq![':', 'i', 'd'];
    let duration = seq![':', 'd', 'u', 'r', 'a', 't', 'i', 'o', 'n'];
    assert("/cars"@.drop_first() =~= cars);
    assert("/cars/:id"@.drop_first() =~= cars + seq!['/'] + id);
    assert("/ctl/images"@.drop_first() =~= ctl + seq!['/'] + images);
    assert("/test/sleep/:duration"@.drop_first() =~= (test + seq!['/'] + sleep) + seq!['/'] + duration);
    lemma_split_single(cars);
    lemma_split_single(ctl);
    lemma_split_single(test);
    lemma_split_append(cars, id);
    lemma_split_append(ctl, images);
    lemma_split_append(test, sleep);
    lemma_split_append(test + seq!['/'] + sleep, duration);
    assert(segments("/cars"@) == seq![cars]);
    assert(segments("/cars/:id"@) =~= seq![cars, id]);
    assert(segments("/ctl/images"@) =~= seq![ctl, images]);
    assert(segments("/test/sleep/:duration"@) =~= seq![test, sleep, duration]);
    assert(cars[1] != ctl[1]);
    assert(chars_ok_from("/cars"@, 0));
    assert(chars_ok_from("/cars/:id"@, 0));
    assert(chars_ok_from("/ctl/images"@, 0));
    assert(chars_ok_from("/test/sleep/:duration"@, 0));
    lemma_valid_pattern_by_chars("/cars"@);
    lemma_valid_pattern_by_chars("/cars/:id"@);
    lemma_valid_pattern_by_chars("/ctl/images"@);
    lemma_valid_pattern_by_chars("/test/sleep/:duration"@);
}

/// The service's route table: exactly the service's routes, an entry for
/// each of `POST`, `PUT`, `GET` and `DELETE`, and none for other methods.
pub open spec fn is_service_table(t: RouteTable<CarRoute>) -> bool {
    &&& t.wf()
    &&& forall|m: Method| #[trigger] t.routes(m) == service_routes(m)
    &&& forall|m: Method| #[trigger] t.patterns(m) == service_routes(m).dom()
    &&& forall|m: Method|
        (m == Method::Post || m == Method::Put || m == Method::Get || m == Method::Delete)
            <==> #[trigger] t.entry_view(m) is Some
}

/// Builds the service's route table: every registration succeeds.
pub fn build_router() -> (r: RouteTable<CarRoute>)
    ensures
        is_service_table(r),
{
    proof {
        lemma_service_patterns();
    }
    let mut t: RouteTable<CarRoute> = RouteTable::new();
    let ghost t0 = t;
    let r = t.register(Method::Post, "/cars", CarRoute::CreateCar);
    assert(r is Ok);
    let ghost t1 = t;
    let r = t.register(Method::Put, "/cars/:id", CarRoute::UpdateCar);
    assert(r is Ok);
    let ghost t2 = t;
    let r = t.register(Method::Get, "/cars", CarRoute::ListCars);
    assert(r is Ok);
    let ghost t3 = t;
    let r = t.register(Method::Get, "/cars/:id", CarRoute::GetCar);
    assert(r is Ok);
    let ghost t4 = t;
    let r = t.register(Method::Delete, "/cars", CarRoute::DeleteAllCars);
    assert(r is Ok);
    let ghost t5 = t;
    let r = t.register(Method::Delete, "/cars/:id", CarRoute::DeleteCar);
    assert(r is Ok);
    let ghost t6 = t;
    let r = t.register(Method::Get, "/ctl/images", CarRoute::ListImages);
    assert(r is Ok);
    let ghost t7 = t;
    let r = t.register(Method::Post, "/ctl/images", CarRoute::PushImage);
    assert(r is Ok);
    let ghost t8 = t;
    let r = t.register(Method::Get, "/test/sleep/:duration", CarRoute::Sleep);
    assert(r is Ok);
    proof {
        reveal_strlit("/cars");
        reveal_strlit("/ctl/images");
        reveal_strlit("/cars/:id");
        reveal_strlit("/test/sleep/:duration");
        assert forall|m: Method| #[trigger] t.routes(m) == service_routes(m) by {
            assert(t.routes(m) =~= service_routes(m));
        }
        assert forall|m: Method| #[trigger] t.patterns(m) == service_routes(m).dom() by {
            assert(t.patterns(m) =~= service_routes(m).dom());
        }
    }
    t
}

/// What body a route reads.
#[derive(Clone, Copy, PartialEq, Eq, Debug, Structural)]
pub enum BodyKind {
    Empty,
    Car,
    Image,
}

pub fn body_kind(route: CarRoute) -> (r: BodyKind)
    ensures
        r == (match route {
            CarRoute::CreateCar | CarRoute::UpdateCar => BodyKind::Car,
            CarRoute::PushImage => BodyKind::Image,
            _ => BodyKind::Empty,
        }),
{
    match route {
        CarRoute::CreateCar | CarRoute::UpdateCar => BodyKind::Car,
        CarRoute::PushImage => BodyKind::Image,
        _ => BodyKind::Empty,
    }
}

pub open spec fn missing_duration_text() -> Seq<char> {
    "expect second pamameter in url path"@
}

/// How long `GET /test/sleep/:duration` waits: the parameter in
/// milliseconds, 1 when it is not a number.
pub open spec fn sleep_outcome(ctx: Map<Seq<char>, Seq<char>>) -> Result<u64, ResponseView> {
    if !ctx.contains_key("duration"@) {
        Err(err_response(BAD_REQUEST, missing_duration_text()))
    } else {
        match parsed_unsigned(trimmed(ctx["duration"@]), u64::MAX as nat) {
            Some(n) => Ok(n as u64),
            None => Ok(1),
        }
    }
}

pub fn sleep_duration(ctx: &Context) -> (r: Result<u64, Response>)
    ensures
        r matches Ok(ms) ==> sleep_outcome(ctx@) == Ok::<u64, ResponseView>(ms),
        r matches Err(resp) ==> sleep_outcome(ctx@) == Err::<u64, ResponseView>(resp@),
{
    match ctx.get("duration") {
        None => Err(
            mk_err_response(BAD_REQUEST, String::from_str("expect second pamameter in url path")),
        ),
        Some(d) => match parse_u64(trim_text(d.as_str())) {
            Some(ms) => Ok(ms),
            None => Ok(1),
        },
    }
}

/// The answer after listing images: the list, or 500 with the tool's
/// message.
pub fn images_response(res: Result<Vec<Image>, String>) -> (r: Response)
    ensures
        res matches Ok(v) ==> r@ == json_response(Body::Images(v)@),
        res matches Err(m) ==> r@ == err_response(INTERNAL_SERVER_ERROR, m@),
{
    match res {
        Ok(v) => mk_json_response(Body::Images(v)),
        Err(m) => mk_err_response(INTERNAL_SERVER_ERROR, m),
    }
}

/// The answer after pushing an image: JSON `null`, or 500 with the tool's
/// message.
pub fn pushed_response(res: Result<(), String>) -> (r: Response)
    ensures
        res is Ok ==> r@ == json_response(BodyView::Null),
        res matches Err(m) ==> r@ == err_response(INTERNAL_SERVER_ERROR, m@),
{
    match res {
        Ok(()) => mk_json_response(Body::Null),
        Err(m) => mk_err_response(INTERNAL_SERVER_ERROR, m),
    }
}

/// The answer after the wait.
pub fn slept_response() -> (r: Response)
    ensures
        r@ == json_response(BodyView::Ack),
{
    mk_json_response(Body::Ack)
}

/// Runs the handler of `route`. A body of another kind than the route
/// reads counts as one that did not decode.
pub fn handle(route: CarRoute, ctx: &Context, body: RequestBody) -> (r: Outcome)
    ensures
        r@ == plan(route, ctx@, body@),
{
    match route {
        CarRoute::ListCars => Outcome::Store(StoreOp::GetAll),
        CarRoute::GetCar => get_car_by_id(ctx),
        CarRoute::DeleteAllCars => Outcome::Store(StoreOp::DeleteAll),
        CarRoute::DeleteCar => delete_car(ctx),
        CarRoute::CreateCar => create_car(body),
        CarRoute::UpdateCar => update_car(ctx, body),
        CarRoute::ListImages => Outcome::ListImages,
        CarRoute::PushImage => match body {
            RequestBody::Image(Ok(img)) => Outcome::PushImage(img),
            RequestBody::Image(Err(m)) => Outcome::Respond(bad_json(m)),
            _ => Outcome::Respond(bad_json(String::new())),
        },
        CarRoute::Sleep => match sleep_duration(ctx) {
            Ok(ms) => Outcome::Sleep(ms),
            Err(resp) => Outcome::Respond(resp),
        },
    }
}

/// Where routing sends a request.
pub enum Routed {
    /// Answer at once: 405 or 404, with an empty body.
    Respond(Response),
    /// Run this handler with these parameters.
    Handle(CarRoute, Context),
}

pub enum RoutedView {
    Respond(ResponseView),
    Handle(CarRoute, Map<Seq<char>, Seq<char>>),
}

impl Routed {
    pub open spec fn view(&self) -> RoutedView {
        match self {
            Routed::Respond(r) => RoutedView::Respond(r@),
            Routed::Handle(h, c) => RoutedView::Handle(*h, c@),
        }
    }
}

/// The routing answer for a lookup's answer: 405 and 404 with an empty
/// body, or the handler with the match's parameters.
pub open spec fn routed_of(m: RouteMatchView<CarRoute>) -> RoutedView {
    match m {
        RouteMatchView::MethodNotAllowed => RoutedView::Respond(err_response(METHOD_NOT_ALLOWED, Seq::empty())),
        RouteMatchView::NotFound => RoutedView::Respond(err_response(NOT_FOUND, Seq::empty())),
        RouteMatchView::Found(h, ctx) => RoutedView::Handle(h, ctx),
    }
}

/// Where a request for `method` (by name) and `path` goes.
pub open spec fn route_result(table: RouteTable<CarRoute>, method: Seq<char>, path: Seq<char>) -> RoutedView {
    if exists|m: Method| method == #[trigger] method_name(m) {
        let m = choose|m: Method| method == #[trigger] method_name(m);
        routed_of(table.lookup_view(m, path))
    } else {
        RoutedView::Respond(err_response(METHOD_NOT_ALLOWED, Seq::empty()))
    }
}

/// Routes a request by the method's name and the path: 405 when no route
/// has the method, 404 when none of its routes matches, else the handler
/// with the parameters of the match.
pub fn route(table: &RouteTable<CarRoute>, method: &str, path: &str) -> (r: Routed)
    requires
        table.wf(),
    ensures
        r@ == route_result(*table, method@, path@),
        forall|m: Method| method@ == #[trigger] method_name(m) ==> r@ == routed_of(table.lookup_view(m, path@))
            && lookup_laws(*table, m, path@, table.lookup_view(m, path@)),
        (forall|m: Method| method@ != #[trigger] method_name(m)) ==> r@ == RoutedView::Respond(
            err_response(METHOD_NOT_ALLOWED, Seq::empty()),
        ),
{
    let m = match Method::from_name(method) {
        Some(m) => m,
        None => return Routed::Respond(mk_empty_response(METHOD_NOT_ALLOWED)),
    };
    proof {
        lemma_method_name_injective();
        assert(method@ == method_name(m));
    }
    match table.lookup(m, path) {
        RouteMatch::MethodNotAllowed => Routed::Respond(mk_empty_response(METHOD_NOT_ALLOWED)),
        RouteMatch::NotFound => Routed::Respond(mk_empty_response(NOT_FOUND)),
        RouteMatch::Found(h, ctx) => Routed::Handle(h, ctx),
    }
}

proof fn lemma_method_name_injective()
    ensures
        forall|a: Method, b: Method| #[trigger] method_name(a) == #[trigger] method_name(b) ==> a == b,
{
    reveal_strlit("GET");
    reveal_strlit("POST");
    reveal_strlit("PUT");
    reveal_strlit("DELETE");
    reveal_strlit("HEAD");
    reveal_strlit("OPTIONS");
    reveal_strlit("CONNECT");
    reveal_strlit("PATCH");
    reveal_strlit("TRACE");
    assert forall|a: Method, b: Method| #[trigger] method_name(a) == #[trigger] method_name(b) implies a == b by {
        if a != b {
            assert(method_name(a).len() != method_name(b).len() || method_name(a)[0] != method_name(b)[0]);
        }
    }
}

} // verus!
