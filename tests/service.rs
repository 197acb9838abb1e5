use carmux::context::Context;
use carmux::parse::{parse_id, parse_u32, parse_u64, parse_unsigned, trim_text};
use carmux::text::decimal_text;
use carmux::response::{Body, Response};
use carmux::router::Method;
use carmux::service::{
    body_kind, build_router, handle, images_response, pushed_response, route, slept_response,
    store_err_to_resp, store_response, BodyKind, CarRoute, Outcome, RequestBody, Routed,
};
use carmux::store::{apply_op, Car, CarStore, MemCarStore, StoreAnswer, StoreError, StoreOp};
use carmux::ctl::Image;

fn ctx_with(name: &str, value: &str) -> Context {
    Context { vars: vec![(name.to_string(), value.to_string())] }
}

fn car(brand: &str, model: &str, year: u16) -> Car {
    Car { id: 0, brand: brand.to_string(), model: model.to_string(), year }
}

/// The response to an outcome, running a store operation on `store`.
fn finish(store: &mut MemCarStore, o: Outcome) -> Response {
    match o {
        Outcome::Respond(r) => r,
        Outcome::Store(op) => store_response(store.apply(op)),
        _ => panic!("expected a response or a store operation"),
    }
}

fn respond(o: Outcome) -> Response {
    match o {
        Outcome::Respond(r) => r,
        _ => panic!("expected a response"),
    }
}

fn text(r: &Response) -> &str {
    match &r.body {
        Body::Text(t) => t.as_str(),
        _ => panic!("expected a text body"),
    }
}

fn has_header(r: &Response, name: &str, value: &str) -> bool {
    r.headers.iter().any(|(n, v)| n == name && v == value)
}

/// Routes and handles a request against the in-memory store.
fn serve(store: &mut MemCarStore, method: &str, path: &str, body: Option<Car>) -> Response {
    let table = build_router();
    match route(&table, method, path) {
        Routed::Respond(r) => r,
        Routed::Handle(h, ctx) => {
            let b = match body_kind(h) {
                BodyKind::Car => RequestBody::Car(body.ok_or_else(|| "EOF while parsing".to_string())),
                BodyKind::Image => RequestBody::Image(Err("EOF while parsing".to_string())),
                BodyKind::Empty => RequestBody::Empty,
            };
            let outcome = handle(h, &ctx, b);
            finish(store, outcome)
        }
    }
}

#[test]
fn get_car_by_id_returns_car() {
    let mut s = MemCarStore::init();
    let r = serve(&mut s, "GET", "/cars/1", None);
    assert_eq!(r.status, 200);
    assert!(has_header(&r, "content-type", "application/json"));
    match &r.body {
        Body::Car(c) => {
            assert_eq!(c.id, 1);
            assert_eq!(c.brand, "Ford");
            assert_eq!(c.model, "Bronco");
            assert_eq!(c.year, 2022);
        }
        _ => panic!("expected a car"),
    }
}

#[test]
fn repeated_get_is_identical() {
    let mut s = MemCarStore::init();
    let a = serve(&mut s, "GET", "/cars/1", None);
    let b = serve(&mut s, "GET", "/cars/1", None);
    assert_eq!(a.status, b.status);
    assert_eq!(a.headers, b.headers);
    match (&a.body, &b.body) {
        (Body::Car(x), Body::Car(y)) => {
            assert_eq!((x.id, &x.brand, &x.model, x.year), (y.id, &y.brand, &y.model, y.year));
        }
        _ => panic!("expected cars"),
    }
}

#[test]
fn create_get_delete_cycle() {
    let mut s = MemCarStore::init();
    let r = serve(&mut s, "POST", "/cars", Some(car("Ford", "Bronco", 2022)));
    assert_eq!(r.status, 200);
    let id = match r.body {
        Body::Created(id) => id,
        _ => panic!("expected an id"),
    };
    assert_eq!(id, 4);
    let path = format!("/cars/{}", id);
    let r = serve(&mut s, "GET", &path, None);
    assert_eq!(r.status, 200);
    match &r.body {
        Body::Car(c) => {
            assert_eq!((c.id, c.brand.as_str(), c.model.as_str(), c.year), (4, "Ford", "Bronco", 2022));
        }
        _ => panic!("expected a car"),
    }
    let r = serve(&mut s, "DELETE", &path, None);
    assert_eq!(r.status, 200);
    assert!(matches!(r.body, Body::Ack));
    let r = serve(&mut s, "GET", &path, None);
    assert_eq!(r.status, 404);
    assert_eq!(text(&r), "car with id=4 not found");
}

#[test]
fn invalid_id_is_bad_request() {
    let mut s = MemCarStore::init();
    let r = serve(&mut s, "GET", "/cars/notanumber", None);
    assert_eq!(r.status, 400);
    assert_eq!(text(&r), "invalid id=notanumber, expect uint32 number");
    let r = serve(&mut s, "DELETE", "/cars/-1", None);
    assert_eq!(r.status, 400);
    assert_eq!(text(&r), "invalid id=-1, expect uint32 number");
    let r = serve(&mut s, "PUT", "/cars/4294967296", Some(car("a", "b", 1)));
    assert_eq!(r.status, 400);
}

#[test]
fn update_missing_car_is_not_found() {
    let mut s = MemCarStore::init();
    let r = serve(&mut s, "PUT", "/cars/999", Some(car("Ford", "Bronco", 2022)));
    assert_eq!(r.status, 404);
    assert_eq!(text(&r), "car with id=999 not found");
}

#[test]
fn update_existing_car() {
    let mut s = MemCarStore::init();
    let r = serve(&mut s, "PUT", "/cars/2", Some(car("Kia", "Soul", 2019)));
    assert_eq!(r.status, 200);
    let c = CarStore::get_car(&s, 2).unwrap();
    assert_eq!((c.id, c.brand.as_str(), c.model.as_str(), c.year), (2, "Kia", "Soul", 2019));
}

#[test]
fn bad_body_and_year() {
    let mut s = MemCarStore::init();
    let r = serve(&mut s, "POST", "/cars", None);
    assert_eq!(r.status, 400);
    assert_eq!(text(&r), "invalid json input:EOF while parsing");
    let r = serve(&mut s, "POST", "/cars", Some(car("a", "b", 0)));
    assert_eq!(r.status, 400);
    assert_eq!(text(&r), "car year must be greater than 0");
    let r = serve(&mut s, "PUT", "/cars/1", Some(car("a", "b", 0)));
    assert_eq!(r.status, 400);
    assert_eq!(CarStore::get_all_cars(&s).unwrap().len(), 3);
}

#[test]
fn list_and_delete_all() {
    let mut s = MemCarStore::init();
    let r = serve(&mut s, "GET", "/cars/", None);
    match &r.body {
        Body::Cars(cs) => assert_eq!(cs.iter().map(|c| c.id).collect::<Vec<_>>(), vec![1, 2, 3]),
        _ => panic!("expected cars"),
    }
    let r = serve(&mut s, "DELETE", "/cars", None);
    assert_eq!(r.status, 200);
    let r = serve(&mut s, "GET", "/cars", None);
    match &r.body {
        Body::Cars(cs) => assert!(cs.is_empty()),
        _ => panic!("expected cars"),
    }
    let r = serve(&mut s, "POST", "/cars", Some(car("a", "b", 1)));
    assert!(matches!(r.body, Body::Created(1)));
}

#[test]
fn routing_errors() {
    let mut s = MemCarStore::init();
    let r = serve(&mut s, "PATCH", "/cars", None);
    assert_eq!(r.status, 405);
    assert_eq!(text(&r), "");
    let r = serve(&mut s, "BREW", "/cars", None);
    assert_eq!(r.status, 405);
    let r = serve(&mut s, "GET", "/trucks", None);
    assert_eq!(r.status, 404);
    assert!(r.headers.is_empty());
}

#[test]
fn control_routes_hand_back_work() {
    let table = build_router();
    let mut s = MemCarStore::init();
    match route(&table, "GET", "/ctl/images") {
        Routed::Handle(h, ctx) => assert!(matches!(handle(h, &ctx, RequestBody::Empty), Outcome::ListImages)),
        _ => panic!("expected a handler"),
    }
    match route(&table, "POST", "/ctl/images") {
        Routed::Handle(h, ctx) => {
            match handle(h, &ctx, RequestBody::Image(Ok("app:1".to_string()))) {
                Outcome::PushImage(i) => assert_eq!(i, "app:1"),
                _ => panic!("expected a push"),
            }
            let r = respond(handle(h, &ctx, RequestBody::Image(Err("bad".to_string()))));
            assert_eq!(text(&r), "invalid json input:bad");
        }
        _ => panic!("expected a handler"),
    }
    match route(&table, "GET", "/test/sleep/250") {
        Routed::Handle(h, ctx) => assert!(matches!(handle(h, &ctx, RequestBody::Empty), Outcome::Sleep(250))),
        _ => panic!("expected a handler"),
    }
    match route(&table, "GET", "/test/sleep/soon") {
        Routed::Handle(h, ctx) => assert!(matches!(handle(h, &ctx, RequestBody::Empty), Outcome::Sleep(1))),
        _ => panic!("expected a handler"),
    }
    let r = respond(handle(CarRoute::Sleep, &Context::new(), RequestBody::Empty));
    assert_eq!(text(&r), "expect second pamameter in url path");
    assert!(matches!(slept_response().body, Body::Ack));
}

#[test]
fn tool_results_become_responses() {
    let img = Image { name: "app".to_string(), tag: "1".to_string(), ctime: "now".to_string(), size: "1MB".to_string() };
    let r = images_response(Ok(vec![img]));
    assert_eq!(r.status, 200);
    assert!(matches!(&r.body, Body::Images(v) if v.len() == 1 && v[0].name == "app"));
    let r = images_response(Err("no docker".to_string()));
    assert_eq!((r.status, text(&r)), (500, "no docker"));
    assert!(matches!(pushed_response(Ok(())).body, Body::Null));
    assert_eq!(pushed_response(Err("denied".to_string())).status, 500);
}

#[test]
fn store_errors_become_responses() {
    let r = store_err_to_resp(StoreError::NotFound("gone".to_string()));
    assert_eq!((r.status, text(&r)), (404, "gone"));
    let r = store_err_to_resp(StoreError::Internal("disk on fire".to_string()));
    assert_eq!((r.status, text(&r)), (500, "Internal Server Error"));
}

#[test]
fn missing_id_parameter() {
    let mut s = MemCarStore::init();
    let r = respond(handle(CarRoute::GetCar, &Context::new(), RequestBody::Empty));
    assert_eq!((r.status, text(&r)), (400, "expect id in url path"));
    let r = respond(handle(CarRoute::DeleteCar, &ctx_with("car", "1"), RequestBody::Empty));
    assert_eq!(r.status, 400);
}

#[test]
fn parse_id_trims_and_checks() {
    assert_eq!(parse_id("42"), Some(42));
    assert_eq!(parse_id(" 7 "), Some(7));
    assert_eq!(parse_id("+5"), Some(5));
    assert_eq!(parse_id("4294967295"), Some(u32::MAX));
    assert_eq!(parse_id("4294967296"), None);
    assert_eq!(parse_id("x1"), None);
    assert_eq!(parse_id(""), None);
}

#[test]
fn any_store_runs_operations() {
    let mut s = MemCarStore::init();
    match apply_op(&mut s, StoreOp::Get(3)) {
        StoreAnswer::One(Ok(c)) => assert_eq!(c.model, "Challenger"),
        _ => panic!("expected a car"),
    }
    match apply_op(&mut s, StoreOp::Create { brand: "a".to_string(), model: "b".to_string(), year: 1 }) {
        StoreAnswer::Created(Ok(id)) => assert_eq!(id, 4),
        _ => panic!("expected an id"),
    }
    assert!(matches!(apply_op(&mut s, StoreOp::Delete(9)), StoreAnswer::Changed(Err(StoreError::NotFound(_)))));
    match apply_op(&mut s, StoreOp::GetAll) {
        StoreAnswer::All(Ok(cs)) => assert_eq!(cs.len(), 4),
        _ => panic!("expected cars"),
    }
    let r = store_response(StoreAnswer::Changed(Err(StoreError::Internal("io".to_string()))));
    assert_eq!(r.status, 500);
}

#[test]
fn router_table_has_service_routes() {
    let t = build_router();
    assert!(matches!(route(&t, "PUT", "/cars/3"), Routed::Handle(CarRoute::UpdateCar, _)));
    assert!(matches!(route(&t, "DELETE", "/cars/"), Routed::Handle(CarRoute::DeleteAllCars, _)));
    assert!(matches!(route(&t, "GET", "/test/sleep/5"), Routed::Handle(CarRoute::Sleep, _)));
    let _ = Method::Get;
}

#[test]
fn routes_on_built_table() {
    let t = build_router();
    match route(&t, "GET", "/cars") {
        Routed::Handle(CarRoute::ListCars, ctx) => assert!(ctx.vars.is_empty()),
        _ => panic!("expected the list handler"),
    }
    match route(&t, "GET", "/cars/42") {
        Routed::Handle(CarRoute::GetCar, ctx) => {
            assert_eq!(ctx.vars.len(), 1);
            assert_eq!(ctx.get("id").unwrap(), "42");
        }
        _ => panic!("expected the get-one handler"),
    }
    match route(&t, "GET", "/cars/notanumber") {
        Routed::Handle(CarRoute::GetCar, ctx) => assert_eq!(ctx.get("id").unwrap(), "notanumber"),
        _ => panic!("expected the get-one handler"),
    }
    assert!(matches!(route(&t, "PATCH", "/cars"), Routed::Respond(r) if r.status == 405));
    assert!(matches!(route(&t, "GET", "/nothing/here"), Routed::Respond(r) if r.status == 404));
    assert!(matches!(route(&t, "POST", "/cars/1"), Routed::Respond(r) if r.status == 404));
}

#[test]
fn store_ids_never_reused_until_cleared() {
    let mut s = MemCarStore::init();
    let _ = s.apply(StoreOp::Delete(3));
    match s.apply(StoreOp::Create { brand: "a".to_string(), model: "b".to_string(), year: 1 }) {
        StoreAnswer::Created(Ok(id)) => assert_eq!(id, 4),
        _ => panic!("expected an id"),
    }
}

#[test]
fn unsigned_parsing_follows_std() {
    for s in ["0", "+0", "007", "+", "", "-1", "12a", "255", "256", "99999999999999999999"] {
        assert_eq!(parse_u32(s), s.parse::<u32>().ok(), "{}", s);
        assert_eq!(parse_u64(s), s.parse::<u64>().ok(), "{}", s);
        assert_eq!(parse_unsigned(s, 255), s.parse::<u8>().ok().map(u64::from), "{}", s);
    }
    assert_eq!(parse_u64("18446744073709551615"), Some(u64::MAX));
    assert_eq!(parse_u64("18446744073709551616"), None);
    assert_eq!(parse_unsigned("5", 3), None);
}

#[test]
fn trim_and_decimal_follow_std() {
    for s in ["", "  ", " a ", "\t\n x\r", "\u{3000}id\u{85}", "\u{200b}x\u{200b}", "a b", "\u{2000}\u{200a}7\u{2029}"] {
        assert_eq!(trim_text(s), s.trim(), "{:?}", s);
    }
    for n in [0u64, 7, 10, 99, 100, 4096, u64::MAX] {
        assert_eq!(decimal_text(n), n.to_string());
    }
}
