use carmux::context::Context;
use carmux::handler::{handler_fn, MapFuture};

#[test]
fn lifted_function_sees_state_params_and_request() {
    let h = handler_fn(|state: u32, ctx: Context, req: &str| {
        format!("{}:{}:{}", state, ctx.get("id").cloned().unwrap_or_default(), req)
    });
    let ctx = Context { vars: vec![("id".to_string(), "42".to_string())] };
    assert_eq!(h.call(7, ctx, "GET"), "7:42:GET");
}

#[test]
fn mapped_handler_transforms_result() {
    let h = handler_fn(|state: u32, _ctx: Context, req: u32| state + req);
    let m = h.map_future(|x: u32| x * 10);
    assert_eq!(m.call(2, Context::new(), 3), 50);
    let m2 = MapFuture::new(handler_fn(|_s: (), _c: Context, r: &str| r.len()), |n: usize| n + 1);
    assert_eq!(m2.call((), Context::new(), "abcd"), 5);
}
