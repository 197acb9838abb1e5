use carmux::context::Context;
use carmux::path::{check_path, check_pattern, normalize};
use carmux::router::{Method, RouteError, RouteMatch, RouteTable};

fn found(m: RouteMatch<u8>) -> (u8, Context) {
    match m {
        RouteMatch::Found(h, c) => (h, c),
        RouteMatch::NotFound => panic!("not found"),
        RouteMatch::MethodNotAllowed => panic!("method not allowed"),
    }
}

fn cars_table() -> RouteTable<u8> {
    let mut t = RouteTable::new();
    t.register(Method::Get, "/cars", 1).unwrap();
    t.register(Method::Get, "/cars/:id", 2).unwrap();
    t.register(Method::Post, "/cars", 3).unwrap();
    t
}

#[test]
fn literal_route_matches_itself_only() {
    let t = cars_table();
    let (h, ctx) = found(t.lookup(Method::Get, "/cars"));
    assert_eq!(h, 1);
    assert!(ctx.vars.is_empty());
    let (h, _) = found(t.lookup(Method::Post, "/cars"));
    assert_eq!(h, 3);
}

#[test]
fn literal_beats_parameter() {
    let mut t = cars_table();
    t.register(Method::Get, "/cars/new", 4).unwrap();
    let (h, ctx) = found(t.lookup(Method::Get, "/cars/new"));
    assert_eq!(h, 4);
    assert!(ctx.vars.is_empty());
    let (h, ctx) = found(t.lookup(Method::Get, "/cars/old"));
    assert_eq!(h, 2);
    assert_eq!(ctx.get("id").unwrap(), "old");
}

#[test]
fn parameter_binds_segment() {
    let t = cars_table();
    let (h, ctx) = found(t.lookup(Method::Get, "/cars/42"));
    assert_eq!(h, 2);
    assert_eq!(ctx.vars.len(), 1);
    assert_eq!(ctx.get("id").unwrap(), "42");
    assert!(ctx.get("name").is_none());
}

#[test]
fn trailing_slash_is_parent_route() {
    let t = cars_table();
    let (h, ctx) = found(t.lookup(Method::Get, "/cars/"));
    assert_eq!(h, 1);
    assert!(ctx.vars.is_empty());
    let (h, ctx) = found(t.lookup(Method::Get, "/cars/42/"));
    assert_eq!(h, 2);
    assert_eq!(ctx.get("id").unwrap(), "42");
}

#[test]
fn unmatched_path_is_not_found() {
    let t = cars_table();
    assert!(matches!(t.lookup(Method::Get, "/trucks"), RouteMatch::NotFound));
    assert!(matches!(t.lookup(Method::Get, "/cars/1/2"), RouteMatch::NotFound));
    assert!(matches!(t.lookup(Method::Get, "/cars//"), RouteMatch::NotFound));
    assert!(matches!(t.lookup(Method::Get, "cars"), RouteMatch::NotFound));
    assert!(matches!(t.lookup(Method::Post, "/cars/1"), RouteMatch::NotFound));
}

#[test]
fn unknown_method_is_not_allowed() {
    let t = cars_table();
    assert!(matches!(t.lookup(Method::Delete, "/cars"), RouteMatch::MethodNotAllowed));
    assert!(matches!(t.lookup(Method::Patch, "/cars/1"), RouteMatch::MethodNotAllowed));
}

#[test]
fn duplicate_route_is_refused() {
    let mut t = cars_table();
    assert_eq!(t.register(Method::Get, "/cars/:id", 9), Err(RouteError::Conflict));
    assert_eq!(t.register(Method::Get, "/cars/:car", 9), Err(RouteError::Conflict));
    assert_eq!(t.register(Method::Get, "/cars", 9), Err(RouteError::Conflict));
    let (h, _) = found(t.lookup(Method::Get, "/cars/7"));
    assert_eq!(h, 2);
    assert_eq!(t.register(Method::Put, "/cars/:id", 9), Ok(()));
}

#[test]
fn malformed_pattern_is_refused() {
    let mut t: RouteTable<u8> = RouteTable::new();
    assert_eq!(t.register(Method::Get, "cars", 1), Err(RouteError::InvalidPattern));
    assert_eq!(t.register(Method::Get, "/cars/", 1), Err(RouteError::InvalidPattern));
    assert_eq!(t.register(Method::Get, "/cars/:", 1), Err(RouteError::InvalidPattern));
    assert_eq!(t.register(Method::Get, "/files/*rest", 1), Err(RouteError::InvalidPattern));
    assert_eq!(t.register(Method::Get, "/a:b", 1), Err(RouteError::InvalidPattern));
    assert!(matches!(t.lookup(Method::Get, "/cars"), RouteMatch::MethodNotAllowed));
}

#[test]
fn pattern_and_path_checks() {
    assert!(check_pattern("/"));
    assert!(check_pattern("/cars/:id/regions/:region"));
    assert!(!check_pattern("//cars"));
    assert!(check_path("/cars/42"));
    assert!(!check_path("/cars//42"));
    assert!(!check_path("/cars/"));
    assert_eq!(normalize("/cars/"), "/cars");
    assert_eq!(normalize("/"), "/");
    assert_eq!(normalize("/cars"), "/cars");
}

#[test]
fn too_many_parameters_refused() {
    let mut many = String::new();
    for i in 0..26 {
        many.push_str(&format!("/:p{}", i));
    }
    let mut t: RouteTable<u8> = RouteTable::new();
    assert_eq!(t.register(Method::Get, &many, 1), Err(RouteError::InvalidPattern));
    let mut ok = String::new();
    for i in 0..25 {
        ok.push_str(&format!("/:p{}", i));
    }
    assert_eq!(t.register(Method::Get, &ok, 1), Ok(()));
}

#[test]
fn method_names() {
    assert_eq!(Method::from_name("GET"), Some(Method::Get));
    assert_eq!(Method::from_name("DELETE"), Some(Method::Delete));
    assert_eq!(Method::from_name("get"), None);
    assert_eq!(Method::from_name("BREW"), None);
}

#[test]
fn mock_tower_svc_test_box_svc() {
    let mut t: RouteTable<u8> = RouteTable::new();
    t.register(Method::Get, "/box/a/cars/:car_id/regions/:region", 1).unwrap();
    t.register(Method::Get, "/a/boxed/regions/:region", 2).unwrap();
    t.register(Method::Get, "/b/boxed/cars/:car_id", 3).unwrap();
    t.register(Method::Get, "/closore_boxed/cars/:car_id", 4).unwrap();
    let (h, ctx) = found(t.lookup(Method::Get, "/box/a/cars/15/regions/cn"));
    assert_eq!(h, 1);
    assert_eq!(ctx.get("car_id").unwrap(), "15");
    assert_eq!(ctx.get("region").unwrap(), "cn");
    assert_eq!(ctx.vars[0].0, "car_id");
    assert_eq!(ctx.vars[1].0, "region");
}

#[test]
fn babe_svc_ref_test_box_svc() {
    let mut t: RouteTable<u8> = RouteTable::new();
    assert_eq!(t.register(Method::Get, "/box/a/cars/:car_id/regions/:region", 1), Ok(()));
    assert_eq!(t.register(Method::Get, "/a/boxed/regions/:region", 2), Ok(()));
    assert_eq!(t.register(Method::Get, "/b/boxed/cars/:car_id", 3), Ok(()));
    assert_eq!(t.register(Method::Get, "/closore_boxed/cars/:car_id", 4), Ok(()));
}

#[test]
fn test_svc_fn() {
    let mut t: RouteTable<u8> = RouteTable::new();
    assert_eq!(t.register(Method::Get, "/box_a", 1), Ok(()));
    assert_eq!(t.register(Method::Get, "/box_aa", 2), Ok(()));
    assert_eq!(found(t.lookup(Method::Get, "/box_aa")).0, 2);
    assert_eq!(found(t.lookup(Method::Get, "/box_a")).0, 1);
}

#[test]
fn example() {
    let mut t: RouteTable<u8> = RouteTable::new();
    assert_eq!(t.register(Method::Get, "/v1/images", 1), Ok(()));
    assert_eq!(t.register(Method::Get, "/v1/images/push", 2), Ok(()));
    assert_eq!(found(t.lookup(Method::Get, "/v1/images/push")).0, 2);
}

#[test]
fn context_later_binding_wins() {
    let ctx = Context { vars: vec![("id".to_string(), "1".to_string()), ("id".to_string(), "2".to_string())] };
    assert_eq!(ctx.get("id").unwrap(), "2");
    assert!(Context::new().get("id").is_none());
}

#[test]
fn literal_segment_wins_at_first_difference() {
    let mut t: RouteTable<u8> = RouteTable::new();
    t.register(Method::Get, "/:a/b/:c", 1).unwrap();
    t.register(Method::Get, "/x/:b/c", 2).unwrap();
    assert_eq!(found(t.lookup(Method::Get, "/x/b/c")).0, 2);
    assert_eq!(found(t.lookup(Method::Get, "/y/b/c")).0, 1);
    assert_eq!(found(t.lookup(Method::Get, "/x/q/c")).0, 2);
}

#[test]
fn duplicate_non_ascii_route_is_refused() {
    let mut t: RouteTable<u8> = RouteTable::new();
    assert_eq!(t.register(Method::Get, "/\u{10001}", 1), Ok(()));
    assert_eq!(t.register(Method::Get, "/\u{10000}", 2), Ok(()));
    assert_eq!(t.register(Method::Get, "/\u{10000}", 3), Err(RouteError::Conflict));
    assert_eq!(t.register(Method::Get, "/:x", 4), Ok(()));
    assert_eq!(t.register(Method::Get, "/:y", 5), Err(RouteError::Conflict));
    assert_eq!(found(t.lookup(Method::Get, "/\u{10000}")).0, 2);
    assert_eq!(found(t.lookup(Method::Get, "/\u{10001}")).0, 1);
    assert_eq!(found(t.lookup(Method::Get, "/\u{10002}")).0, 4);
}
