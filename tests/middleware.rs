use carmux::auth::{AsyncRequireAuthorization, AuthAction, AuthEvent, AuthPhase, BearerAuth};
use carmux::error::{BoxError, Error, TimeoutError};
use carmux::error_handling::{HandleError, Oneshot};
use carmux::log::LogRequest;
use carmux::map_response::{MapResponse, MapResult};
use carmux::poll::Poll;
use carmux::response::{handle_error, mk_empty_response, mk_json_response, with_header, Body, Response};
use carmux::timeout::Timeout;

fn text(r: &Response) -> &str {
    match &r.body {
        Body::Text(t) => t.as_str(),
        _ => panic!("expected a text body"),
    }
}

#[test]
fn timeout_fires_when_inner_pending() {
    let t = Timeout::new((), 50);
    assert_eq!(t.timeout_ms(), 50);
    let out: Poll<Result<Response, BoxError>> = t.poll(Poll::Pending, Poll::Ready(()));
    match out {
        Poll::Ready(Err(e)) => {
            assert!(e.is_timeout());
            let r = handle_error(e);
            assert_eq!(r.status, 408);
            assert_eq!(text(&r), "request timed out");
        }
        _ => panic!("expected the timeout error"),
    }
    // a second call starts afresh
    let again: Poll<Result<Response, BoxError>> = t.poll(Poll::Pending, Poll::Pending);
    assert!(matches!(again, Poll::Pending));
}

#[test]
fn timeout_forwards_inner_result() {
    let t = Timeout::new((), 50);
    let out = t.poll(Poll::Ready(Ok(mk_json_response(Body::Ack))), Poll::Ready(()));
    assert!(matches!(out, Poll::Ready(Ok(r)) if r.status == 200));
    let out: Poll<Result<Response, BoxError>> =
        t.poll(Poll::Ready(Err(BoxError::Other("boom".to_string()))), Poll::Pending);
    assert!(matches!(out, Poll::Ready(Err(BoxError::Other(m))) if m == "boom"));
}

#[test]
fn rejection_never_reaches_inner() {
    let auth = BearerAuth::new("zenx".to_string());
    let layer = AsyncRequireAuthorization::new((), auth);
    let mut inner_calls = 0;
    let decision = layer.auth().authorize(Some("intruder"));
    let rejection = decision.unwrap_err();
    assert_eq!(rejection.status, 401);
    assert_eq!(text(&rejection), "");
    let mut phase = AuthPhase::Authorizing;
    let mut answer = None;
    let events: Vec<AuthEvent<()>> = vec![
        AuthEvent::Decided(Err(rejection)),
        AuthEvent::Decided(Ok(())),
        AuthEvent::InnerDone(Ok(mk_empty_response(200))),
    ];
    for ev in events {
        let (next, action) = phase.step(ev);
        phase = next;
        match action {
            AuthAction::CallInner(()) => inner_calls += 1,
            AuthAction::Finish(r) => {
                if answer.is_none() {
                    answer = Some(r);
                }
            }
            AuthAction::Ignore => {}
        }
    }
    assert_eq!(inner_calls, 0);
    assert_eq!(phase, AuthPhase::Finished);
    let r = answer.unwrap().ok().unwrap();
    assert_eq!(r.status, 401);
}

#[test]
fn approval_calls_inner_once() {
    let auth = BearerAuth::new("zenx".to_string());
    assert!(auth.authorize(Some("zenx")).is_ok());
    assert!(auth.authorize(None).is_ok());
    let (p, a) = AuthPhase::Authorizing.step(AuthEvent::Decided(Ok(7u8)));
    assert_eq!(p, AuthPhase::Authorized);
    assert!(matches!(a, AuthAction::CallInner(7)));
    let (p, a) = p.step(AuthEvent::<u8>::InnerDone(Ok(mk_empty_response(204))));
    assert_eq!(p, AuthPhase::Finished);
    assert!(matches!(a, AuthAction::Finish(Ok(r)) if r.status == 204));
}

#[test]
fn errors_become_responses() {
    let layer = HandleError::new((), handle_error);
    let r = layer.recover(Err(BoxError::Other("db down".to_string())));
    assert_eq!(r.status, 500);
    assert_eq!(text(&r), "Unhandled internal error: db down");
    assert!(r.headers.iter().any(|(n, v)| n == "content-type" && v == "text/plain; charset=utf-8"));
    let r = layer.recover(Err(BoxError::Timeout(TimeoutError)));
    assert_eq!(r.status, 408);
    let r = layer.recover(Ok(mk_empty_response(201)));
    assert_eq!(r.status, 201);
}

#[test]
fn response_mapping_adds_header() {
    let layer = MapResponse::new((), |r: Response| with_header(r, "Server-Owner", "zenx"));
    let out = layer.map(Ok(mk_json_response(Body::Ack))).ok().unwrap();
    assert_eq!(out.headers.len(), 2);
    assert_eq!(out.headers[1], ("Server-Owner".to_string(), "zenx".to_string()));
    let err = layer.map(Err(BoxError::Other("x".to_string())));
    assert!(matches!(err, Err(BoxError::Other(_))));
    let all = MapResult::new((), |o: Result<Response, BoxError>| o.or_else(|_| Ok(mk_empty_response(500))));
    assert_eq!(all.map(Err(BoxError::Timeout(TimeoutError))).ok().unwrap().status, 500);
}

#[test]
fn log_lines() {
    let layer = LogRequest::new(());
    let line = layer.request_line("GET", "/cars/1", "HTTP/1.1");
    assert_eq!(line, "request method=GET, uri=/cars/1, version=HTTP/1.1");
    assert_eq!(layer.completion_line(&line, 12), "request method=GET, uri=/cars/1, version=HTTP/1.1, elapsed: 12 ms");
    assert_eq!(layer.completion_line("x", 0), "x, elapsed: 0 ms");
    assert_eq!(layer.completion_line("x", 1234567890123), "x, elapsed: 1234567890123 ms");
}

#[test]
fn error_wrapper_round_trip() {
    let e = Error::new(BoxError::Other("inner".to_string()));
    assert!(matches!(e.into_inner(), BoxError::Other(m) if m == "inner"));
    assert_eq!(TimeoutError.message(), "request timed out");
}

#[test]
fn oneshot_calls_once() {
    let mut o = Oneshot::new("svc", 5u8);
    assert_eq!(o.start(), ("svc", 5));
    assert_eq!(o.finish(9), 9);
}

/// A request without the header is let through: only a header that is
/// present and differs is refused. This looks inverted, and is kept as the
/// service has always behaved.
#[test]
fn missing_token_is_let_through() {
    let auth = BearerAuth::new("zenx".to_string());
    assert!(auth.authorize(None).is_ok());
    assert!(auth.authorize(Some("")).is_err());
}
