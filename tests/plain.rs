use carmux::parse::parse_id;
use carmux::path::split_segments;
use carmux::plain::{cars_handler, response_build};
use carmux::response::{Body, Response};
use carmux::store::{Car, MemCarStore};

fn car(brand: &str, model: &str, year: u16) -> Car {
    Car { id: 0, brand: brand.to_string(), model: model.to_string(), year }
}

fn text(r: &Response) -> &str {
    match &r.body {
        Body::Text(t) => t.as_str(),
        _ => panic!("expected a text body"),
    }
}

fn no_body() -> Result<Car, String> {
    Err(String::new())
}

#[test]
fn plain_list_and_get() {
    let mut s = MemCarStore::init();
    let r = cars_handler(&mut s, "GET", "/cars", no_body());
    assert_eq!(r.status, 200);
    assert_eq!(r.headers.len(), 4);
    assert!(matches!(&r.body, Body::Cars(cs) if cs.len() == 3));
    let r = cars_handler(&mut s, "GET", "/cars/ ", no_body());
    assert!(matches!(&r.body, Body::Cars(cs) if cs.len() == 3));
    let r = cars_handler(&mut s, "GET", "/cars/2", no_body());
    assert!(matches!(&r.body, Body::Car(c) if c.brand == "Hyundai"));
    let r = cars_handler(&mut s, "GET", "/cars/9", no_body());
    assert_eq!((r.status, text(&r)), (404, "404"));
    let r = cars_handler(&mut s, "GET", "/cars/abc", no_body());
    assert_eq!((r.status, text(&r)), (400, "invalid id=abc, expect uint32 number"));
}

#[test]
fn plain_create_update_delete() {
    let mut s = MemCarStore::init();
    let r = cars_handler(&mut s, "POST", "/cars", Ok(car("BYD", "Han", 2020)));
    assert!(matches!(r.body, Body::Id(4)));
    let r = cars_handler(&mut s, "POST", "/cars", Err("expected value".to_string()));
    assert_eq!((r.status, text(&r)), (400, "invalid json input:expected value"));
    let r = cars_handler(&mut s, "PUT", "/cars/4", Ok(car("BYD", "Tang", 2021)));
    assert_eq!(r.status, 200);
    assert!(matches!(r.body, Body::Ack));
    let r = cars_handler(&mut s, "PUT", "/cars/999", Ok(car("BYD", "Tang", 2021)));
    assert_eq!(r.status, 404);
    let r = cars_handler(&mut s, "PUT", "/cars", Ok(car("BYD", "Tang", 2021)));
    assert_eq!((r.status, text(&r)), (404, "404"));
    let r = cars_handler(&mut s, "DELETE", "/cars/4", no_body());
    assert_eq!(r.status, 200);
    assert!(matches!(r.body, Body::Ack));
    let r = cars_handler(&mut s, "DELETE", "/cars", no_body());
    assert!(matches!(r.body, Body::Ack));
    let r = cars_handler(&mut s, "GET", "/cars", no_body());
    assert!(matches!(&r.body, Body::Cars(cs) if cs.is_empty()));
}

#[test]
fn plain_unknown_routes() {
    let mut s = MemCarStore::init();
    let r = cars_handler(&mut s, "GET", "/trucks", no_body());
    assert_eq!((r.status, text(&r)), (404, ""));
    assert!(r.headers.is_empty());
    let r = cars_handler(&mut s, "PATCH", "/cars/1", no_body());
    assert_eq!(r.status, 404);
    let r = cars_handler(&mut s, "GET", "/", no_body());
    assert_eq!(r.status, 404);
}

#[test]
fn segments_and_cors() {
    assert_eq!(split_segments("/cars/1"), vec!["", "cars", "1"]);
    assert_eq!(split_segments(""), vec![""]);
    assert_eq!(split_segments("a//b/"), vec!["a", "", "b", ""]);
    let r = response_build(Body::Ack);
    assert_eq!(r.headers[0], ("Access-Control-Allow-Origin".to_string(), "*".to_string()));
    assert_eq!(r.headers[3], ("Content-Type".to_string(), "application/json".to_string()));
    assert_eq!(parse_id("\t12\n"), Some(12));
}

#[test]
fn plain_immediate_reply_leaves_store() {
    let mut s = MemCarStore::init();
    let r = cars_handler(&mut s, "GET", "/trucks", no_body());
    assert_eq!(r.status, 404);
    let r = cars_handler(&mut s, "DELETE", "/cars/xyz", no_body());
    assert_eq!(r.status, 400);
    assert_eq!(s.get_all_cars().len(), 3);
    let a = cars_handler(&mut s, "GET", "/cars/", no_body());
    let b = cars_handler(&mut s, "GET", "/cars", no_body());
    assert_eq!(a.headers, b.headers);
    assert!(matches!((&a.body, &b.body), (Body::Cars(x), Body::Cars(y)) if x.len() == y.len()));
}
