use actix_pipeline::compress::{negotiate, resolve_encoding, AcceptEncoding, Compress, ContentEncoding};
use actix_pipeline::condition::{Condition, ConditionMiddleware};
use actix_pipeline::form::Form;
use actix_pipeline::handler::Handler;
use actix_pipeline::message::{HttpRequest, Payload, Response};
use actix_pipeline::service::{CloneableService, Service, ServiceRequest, Transform};

fn request(headers: &[(&str, &str)]) -> HttpRequest {
    HttpRequest {
        headers: headers.iter().map(|(k, v)| (k.as_bytes().to_vec(), v.as_bytes().to_vec())).collect(),
        form_limit: None,
    }
}

fn service_request(headers: &[(&str, &str)], body: &[u8]) -> ServiceRequest {
    ServiceRequest { req: request(headers), payload: Payload { chunks: vec![body.to_vec()] } }
}

fn internal_error() -> Response {
    Response { status: 500, headers: Vec::new(), body: Vec::new(), encoding: None }
}

#[test]
fn auto_picks_highest_quality() {
    assert_eq!(AcceptEncoding::parse(b"gzip;q=0.5, br;q=0.8", ContentEncoding::Auto), ContentEncoding::Br);
}

#[test]
fn forced_encoding_without_match_is_identity() {
    assert_eq!(AcceptEncoding::parse(b"identity", ContentEncoding::Gzip), ContentEncoding::Identity);
    assert_eq!(AcceptEncoding::parse(b"br, gzip;q=0.1", ContentEncoding::Gzip), ContentEncoding::Gzip);
}

#[test]
fn ties_keep_header_order() {
    assert_eq!(AcceptEncoding::parse(b"deflate;q=0.5, gzip;q=0.5", ContentEncoding::Auto), ContentEncoding::Deflate);
    assert_eq!(AcceptEncoding::parse(b"gzip, deflate, br", ContentEncoding::Auto), ContentEncoding::Br);
}

#[test]
fn malformed_quality_weighs_nothing() {
    assert_eq!(AcceptEncoding::parse(b"br;q=abc, gzip;q=0.001", ContentEncoding::Auto), ContentEncoding::Gzip);
    assert_eq!(AcceptEncoding::new(b"GZIP;q=1.0"), AcceptEncoding { encoding: ContentEncoding::Gzip, quality: 1000 });
    assert_eq!(AcceptEncoding::new(b"br;q=1.5").quality, 0);
    assert_eq!(AcceptEncoding::new(b"deflate").quality, 900);
}

#[test]
fn missing_or_unreadable_header_is_identity() {
    assert_eq!(negotiate(&request(&[]), ContentEncoding::Auto), ContentEncoding::Identity);
    let mut req = request(&[]);
    req.headers.push((b"accept-encoding".to_vec(), vec![0xff, b'g']));
    assert_eq!(negotiate(&req, ContentEncoding::Auto), ContentEncoding::Identity);
    assert_eq!(negotiate(&request(&[("accept-encoding", "gzip")]), ContentEncoding::Auto), ContentEncoding::Gzip);
}

#[test]
fn response_override_wins() {
    assert_eq!(resolve_encoding(ContentEncoding::Br, Some(ContentEncoding::Identity)), ContentEncoding::Identity);
    assert_eq!(resolve_encoding(ContentEncoding::Br, None), ContentEncoding::Br);
}

#[test]
fn compress_middleware_sets_negotiated_encoding() {
    let handler = Handler::<_, (), Response>::new(|| internal_error());
    let mw = Compress::auto().new_transform(handler).ok().unwrap();
    let out = mw.call(service_request(&[("accept-encoding", "gzip;q=0.5, br;q=0.8")], b"")).ok().unwrap();
    assert_eq!(out.res.encoding, Some(ContentEncoding::Br));
    assert_eq!(out.res.status, 500);

    let handler = Handler::<_, (), Response>::new(|| Response {
        status: 200,
        headers: Vec::new(),
        body: Vec::new(),
        encoding: Some(ContentEncoding::Identity),
    });
    let mw = Compress::new(ContentEncoding::Auto).new_transform(handler).ok().unwrap();
    let out = mw.call(service_request(&[("accept-encoding", "br")], b"")).ok().unwrap();
    assert_eq!(out.res.encoding, Some(ContentEncoding::Identity));
}

#[test]
fn test_handler_enabled() {
    let handler = Handler::<_, (), Response>::new(|| internal_error());
    let mw = Condition::new(true, Compress::new(ContentEncoding::Gzip)).new_transform(handler).ok().unwrap();
    assert!(matches!(mw, ConditionMiddleware::Enable(_)));
    let resp = mw.call(service_request(&[("accept-encoding", "gzip")], b"")).ok().unwrap();
    assert_eq!(resp.res.encoding, Some(ContentEncoding::Gzip));
}

#[test]
fn test_handler_disabled() {
    let handler = Handler::<_, (), Response>::new(|| internal_error());
    let mw = Condition::new(false, Compress::new(ContentEncoding::Gzip)).new_transform(handler).ok().unwrap();
    assert!(matches!(mw, ConditionMiddleware::Disable(_)));
    let resp = mw.call(service_request(&[("accept-encoding", "gzip")], b"")).ok().unwrap();
    assert_eq!(resp.res.encoding, None);
    assert_eq!(resp.res.status, 500);
    assert_eq!(mw.poll_ready().ok(), Some(true));
}

#[test]
fn handler_runs_function_on_extracted_arguments() {
    let handler = Handler::<_, (Form<Vec<(String, String)>>,), String>::new(|f: Form<Vec<(String, String)>>| {
        let pairs = f.into_inner();
        format!("{}={}", pairs[0].0, pairs[0].1)
    });
    let out = handler
        .call(service_request(&[("content-type", "application/x-www-form-urlencoded")], b"hello=world"))
        .ok()
        .unwrap();
    assert_eq!(out.res.status, 200);
    assert_eq!(out.res.body, b"hello=world".to_vec());
}

#[test]
fn handler_turns_extraction_failure_into_error_response() {
    let handler = Handler::<_, (Form<Vec<(String, String)>>,), String>::new(|_: Form<Vec<(String, String)>>| {
        panic!("the function must not run when extraction fails")
    });
    let out = handler.call(service_request(&[("content-type", "text/plain")], b"hello=world")).ok().unwrap();
    assert_eq!(out.res.status, 400);
    assert_eq!(out.res.body, b"Content type error".to_vec());
}

#[test]
fn handler_turns_responder_failure_into_error_response() {
    let handler = Handler::<_, (), Result<String, actix_pipeline::message::PipelineError>>::new(|| {
        Err(actix_pipeline::message::PipelineError::new(503, "busy"))
    });
    let out = handler.call(service_request(&[], b"")).ok().unwrap();
    assert_eq!(out.res.status, 503);
    assert_eq!(out.res.body, b"busy".to_vec());
}

#[test]
fn handler_passes_several_arguments_in_order() {
    let handler = Handler::<_, (Form<Vec<(String, String)>>, Vec<u8>), String>::new(
        |f: Form<Vec<(String, String)>>, rest: Vec<u8>| format!("{} pairs, {} bytes left", f.into_inner().len(), rest.len()),
    );
    let out = handler
        .call(service_request(&[("content-type", "application/x-www-form-urlencoded")], b"a=1&b=2"))
        .ok()
        .unwrap();
    assert_eq!(out.res.body, b"2 pairs, 0 bytes left".to_vec());
}

#[test]
fn shared_handles_serve_alike() {
    let shared = CloneableService::new(Handler::<_, (), &'static str>::new(|| "same"));
    let other = shared.handle();
    let a = shared.call(service_request(&[], b"")).ok().unwrap();
    let b = other.call(service_request(&[], b"")).ok().unwrap();
    assert_eq!(a.res.body, b.res.body);
    assert_eq!(a.res.body, b"same".to_vec());
}

#[test]
fn compress_default_is_auto() {
    let c: Compress = Default::default();
    assert_eq!(c.encoding, ContentEncoding::Auto);
}
