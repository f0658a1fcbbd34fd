use actix_pipeline::form::{DefaultFormErrors, Form, FormConfig, FormErrorHandler, FormWith, UrlEncoded, UrlencodedError};
use actix_pipeline::extract::FromRequest;
use actix_pipeline::message::{HttpRequest, Payload, PipelineError};
use actix_pipeline::responder::Responder;

fn request(headers: &[(&str, &str)]) -> HttpRequest {
    HttpRequest {
        headers: headers.iter().map(|(k, v)| (k.as_bytes().to_vec(), v.as_bytes().to_vec())).collect(),
        form_limit: None,
    }
}

fn payload(chunks: &[&[u8]]) -> Payload {
    Payload { chunks: chunks.iter().map(|c| c.to_vec()).collect() }
}

fn pairs(items: &[(&str, &str)]) -> Vec<(String, String)> {
    items.iter().map(|(k, v)| (k.to_string(), v.to_string())).collect()
}

#[test]
fn test_form() {
    let req = request(&[("content-type", "application/x-www-form-urlencoded"), ("content-length", "11")]);
    let mut pl = payload(&[b"hello=world&counter=123"]);
    let Form(s) = Form::from_request(&req, &mut pl).ok().unwrap();
    assert_eq!(s, pairs(&[("hello", "world"), ("counter", "123")]));
}

#[test]
fn test_urlencoded_error() {
    let req = request(&[("content-type", "application/x-www-form-urlencoded"), ("content-length", "xxxx")]);
    let mut pl = payload(&[]);
    let info = UrlEncoded::new(&req, &mut pl).resolve();
    assert_eq!(info.err().unwrap(), UrlencodedError::UnknownLength);

    let req = request(&[("content-type", "application/x-www-form-urlencoded"), ("content-length", "1000000")]);
    let mut pl = payload(&[]);
    let info = UrlEncoded::new(&req, &mut pl).resolve();
    assert!(matches!(info.err().unwrap(), UrlencodedError::Overflow { .. }));

    let req = request(&[("content-type", "text/plain"), ("content-length", "10")]);
    let mut pl = payload(&[]);
    let info = UrlEncoded::new(&req, &mut pl).resolve();
    assert_eq!(info.err().unwrap(), UrlencodedError::ContentType);
}

#[test]
fn test_urlencoded() {
    let req = request(&[("content-type", "application/x-www-form-urlencoded"), ("content-length", "11")]);
    let mut pl = payload(&[b"hello=world&counter=123"]);
    let info = UrlEncoded::new(&req, &mut pl).resolve().unwrap();
    assert_eq!(info, pairs(&[("hello", "world"), ("counter", "123")]));

    let req = request(&[
        ("content-type", "application/x-www-form-urlencoded; charset=utf-8"),
        ("content-length", "11"),
    ]);
    let mut pl = payload(&[b"hello=world&counter=123"]);
    let info = UrlEncoded::new(&req, &mut pl).resolve().unwrap();
    assert_eq!(info, pairs(&[("hello", "world"), ("counter", "123")]));
}

#[test]
fn form_test_responder() {
    let req = request(&[]);
    let form = Form(pairs(&[("hello", "world"), ("counter", "123")]));
    let resp = form.respond_to(&req).ok().unwrap();
    assert_eq!(resp.status, 200);
    assert_eq!(
        resp.headers,
        vec![(b"content-type".to_vec(), b"application/x-www-form-urlencoded".to_vec())]
    );
    assert_eq!(resp.body, b"hello=world&counter=123".to_vec());
}

#[test]
fn test_with_config_in_data_wrapper() {
    let mut req = request(&[("content-type", "application/x-www-form-urlencoded"), ("content-length", "20")]);
    req.form_limit = Some(10);
    let mut pl = payload(&[b"hello=test&counter=4"]);
    let s = Form::from_request(&req, &mut pl);
    assert!(s.is_err());
    let err = s.err().unwrap();
    assert!(err.message.contains("Urlencoded payload size is bigger"));
    assert_eq!(err.status, 413);
}

#[test]
fn declared_length_over_limit_is_refused_before_reading() {
    let req = request(&[("content-type", "application/x-www-form-urlencoded"), ("content-length", "20")]);
    let mut pl = payload(&[b"a=1"]);
    let r = UrlEncoded::new(&req, &mut pl).limit(10).resolve();
    assert_eq!(r.err().unwrap(), UrlencodedError::Overflow { size: 20, limit: 10 });
}

#[test]
fn streamed_body_is_refused_where_total_first_passes_limit() {
    let req = request(&[("content-type", "application/x-www-form-urlencoded")]);
    let mut pl = payload(&[b"aaaa", b"bbbb", b"cccc", b"dddd"]);
    let r = UrlEncoded::new(&req, &mut pl).limit(10).resolve();
    assert_eq!(r.err().unwrap(), UrlencodedError::Overflow { size: 12, limit: 10 });
    assert!(pl.chunks.is_empty());
}

#[test]
fn limit_above_hard_ceiling_is_capped() {
    let req = request(&[("content-type", "application/x-www-form-urlencoded")]);
    let big = vec![b'a'; 40_000];
    let mut pl = Payload { chunks: vec![big] };
    let r = UrlEncoded::new(&req, &mut pl).limit(100_000).resolve();
    assert_eq!(r.err().unwrap(), UrlencodedError::Overflow { size: 40_000, limit: 32_768 });
}

#[test]
fn content_type_is_compared_without_case() {
    let req = request(&[("content-type", "Application/X-WWW-Form-URLEncoded")]);
    let mut pl = payload(&[b"a=1&b=two+words"]);
    let r = UrlEncoded::new(&req, &mut pl).resolve().unwrap();
    assert_eq!(r, pairs(&[("a", "1"), ("b", "two words")]));
}

#[test]
fn missing_content_type_is_refused_and_body_kept() {
    let req = request(&[]);
    let mut pl = payload(&[b"a=1"]);
    let r = UrlEncoded::new(&req, &mut pl).resolve();
    assert_eq!(r.err().unwrap(), UrlencodedError::ContentType);
    assert_eq!(pl.chunks, vec![b"a=1".to_vec()]);
}

#[test]
fn unknown_charset_is_a_content_type_error() {
    let req = request(&[("content-type", "application/x-www-form-urlencoded; charset=no-such-charset")]);
    let mut pl = payload(&[b"a=1"]);
    let r = UrlEncoded::new(&req, &mut pl).resolve();
    assert_eq!(r.err().unwrap(), UrlencodedError::ContentType);
}

#[test]
fn latin1_body_is_decoded_in_its_charset() {
    let req = request(&[("content-type", "application/x-www-form-urlencoded; charset=ISO-8859-1")]);
    let mut pl = payload(&[b"name=caf\xe9"]);
    let r = UrlEncoded::new(&req, &mut pl).resolve().unwrap();
    assert_eq!(r, pairs(&[("name", "caf\u{e9}")]));
}

#[test]
fn percent_encoded_utf8_is_decoded() {
    let req = request(&[("content-type", "application/x-www-form-urlencoded")]);
    let mut pl = payload(&[b"cheese=comt%C3%A9"]);
    let r = UrlEncoded::new(&req, &mut pl).resolve().unwrap();
    assert_eq!(r, pairs(&[("cheese", "comt\u{e9}")]));
}

#[test]
fn custom_error_handler_sees_the_refusal() {
    let req = request(&[("content-type", "text/plain")]);
    let mut pl = payload(&[b"a=1"]);
    let config = FormConfig::<fn(UrlencodedError, &HttpRequest) -> PipelineError>::default()
        .limit(100)
        .error_handler(|e: UrlencodedError, r: &HttpRequest| {
            let status = if e == UrlencodedError::ContentType { 415 } else { 499 };
            PipelineError { status, message: format!("{} headers", r.headers.len()) }
        });
    let r = Form::from_request_with(&req, &mut pl, &config);
    let err = r.err().unwrap();
    assert_eq!(err.status, 415);
    assert_eq!(err.message, "1 headers");
}

#[test]
fn form_errors_map_to_statuses() {
    assert_eq!(UrlencodedError::Overflow { size: 2, limit: 1 }.into_error().status, 413);
    assert_eq!(UrlencodedError::UnknownLength.into_error().status, 411);
    assert_eq!(UrlencodedError::ContentType.into_error().status, 400);
    assert_eq!(UrlencodedError::Parse.into_error().status, 400);
}

#[test]
fn form_response_round_trips_through_extraction() {
    let original = pairs(&[("name", "a b&c=d"), ("", "empty key"), ("\u{e9}t\u{e9}", "%+")]);
    let resp = Form(original.clone()).respond_to(&request(&[])).ok().unwrap();
    let req = request(&[("content-type", "application/x-www-form-urlencoded")]);
    let mut pl = Payload::from_bytes(resp.body);
    let Form(back) = Form::from_request(&req, &mut pl).ok().unwrap();
    assert_eq!(back, original);
}

#[test]
fn form_config_defaults() {
    let c = FormConfig::<fn(UrlencodedError, &HttpRequest) -> PipelineError>::default();
    assert_eq!(c.limit, 16_384);
    assert!(c.err_handler.is_none());
    assert_eq!(Form(5).into_inner(), 5);
}

struct TeapotErrors;

impl FormErrorHandler for TeapotErrors {
    fn handle(e: UrlencodedError, req: &HttpRequest) -> PipelineError {
        let status = if e == UrlencodedError::ContentType { 418 } else { 499 };
        PipelineError { status, message: format!("{} headers", req.headers.len()) }
    }
}

#[test]
fn route_error_handler_applies_in_extraction() {
    let req = request(&[("content-type", "text/plain")]);
    let mut pl = payload(&[b"a=1"]);
    let err = FormWith::<TeapotErrors>::from_request(&req, &mut pl).err().unwrap();
    assert_eq!(err.status, 418);
    assert_eq!(err.message, "1 headers");

    let req = request(&[("content-type", "application/x-www-form-urlencoded")]);
    let mut pl = payload(&[b"a=1"]);
    let ok = FormWith::<TeapotErrors>::from_request(&req, &mut pl).ok().unwrap();
    assert_eq!(ok.into_inner(), pairs(&[("a", "1")]));

    let mut pl = payload(&[b"a=1"]);
    let err = FormWith::<DefaultFormErrors>::from_request(&request(&[]), &mut pl).err().unwrap();
    assert_eq!(err.status, 400);
}
