use actix_pipeline::either::Either;
use actix_pipeline::message::{HttpRequest, PipelineError, Response};
use actix_pipeline::responder::{CustomResponder, Responder};

fn request() -> HttpRequest {
    HttpRequest { headers: Vec::new(), form_limit: None }
}

fn content_type(res: &Response) -> Option<Vec<u8>> {
    res.headers.iter().find(|(k, _)| k.as_slice() == b"content-type").map(|(_, v)| v.clone())
}

#[test]
fn test_option_responder() {
    let req = request();
    let resp = Option::<&'static str>::None.respond_to(&req).ok().unwrap();
    assert_eq!(resp.status, 404);
    assert!(resp.body.is_empty());

    let resp = Some("some").respond_to(&req).ok().unwrap();
    assert_eq!(resp.status, 200);
    assert_eq!(resp.body, b"some".to_vec());
}

#[test]
fn responder_test_responder() {
    let req = request();

    let resp = "test".respond_to(&req).ok().unwrap();
    assert_eq!(resp.status, 200);
    assert_eq!(resp.body, b"test".to_vec());
    assert_eq!(content_type(&resp).unwrap(), b"text/plain; charset=utf-8".to_vec());

    let resp = b"test".to_vec().respond_to(&req).ok().unwrap();
    assert_eq!(resp.status, 200);
    assert_eq!(resp.body, b"test".to_vec());
    assert_eq!(content_type(&resp).unwrap(), b"application/octet-stream".to_vec());

    let resp = "test".to_string().respond_to(&req).ok().unwrap();
    assert_eq!(resp.status, 200);
    assert_eq!(resp.body, b"test".to_vec());
    assert_eq!(content_type(&resp).unwrap(), b"text/plain; charset=utf-8".to_vec());

    let resp = Response { status: 400, headers: Vec::new(), body: b"err".to_vec(), encoding: None }
        .respond_to(&req)
        .ok()
        .unwrap();
    assert_eq!(resp.status, 400);
}

#[test]
fn test_result_responder() {
    let req = request();
    let resp = Ok::<_, PipelineError>("test".to_string()).respond_to(&req).ok().unwrap();
    assert_eq!(resp.status, 200);
    assert_eq!(resp.body, b"test".to_vec());
    assert_eq!(content_type(&resp).unwrap(), b"text/plain; charset=utf-8".to_vec());

    let res = Err::<String, _>(PipelineError::new(400, "err")).respond_to(&req);
    assert!(res.is_err());
    assert_eq!(res.err().unwrap().status, 400);
}

#[test]
fn test_custom_responder() {
    let req = request();
    let res = CustomResponder::new("test".to_string()).with_status(400).respond_to(&req).ok().unwrap();
    assert_eq!(res.status, 400);
    assert_eq!(res.body, b"test".to_vec());

    let res = CustomResponder::new("test".to_string())
        .with_header("content-type", "json")
        .respond_to(&req)
        .ok()
        .unwrap();
    assert_eq!(res.status, 200);
    assert_eq!(res.body, b"test".to_vec());
    assert_eq!(content_type(&res).unwrap(), b"json".to_vec());
    assert_eq!(res.headers.len(), 1);
}

#[test]
fn test_tuple_responder_with_status_code() {
    let req = request();
    let res = ("test".to_string(), 400u16).respond_to(&req).ok().unwrap();
    assert_eq!(res.status, 400);
    assert_eq!(res.body, b"test".to_vec());

    let res = CustomResponder::new(("test".to_string(), 200u16))
        .with_header("content-type", "json")
        .respond_to(&req)
        .ok()
        .unwrap();
    assert_eq!(res.status, 200);
    assert_eq!(res.body, b"test".to_vec());
    assert_eq!(content_type(&res).unwrap(), b"json".to_vec());
}

#[test]
fn custom_responder_normalizes_names_and_appends() {
    let req = request();
    let res = CustomResponder::new("x")
        .with_header("X-Version", "1.2.3")
        .with_header("x-version", "1.2.4")
        .respond_to(&req)
        .ok()
        .unwrap();
    let versions: Vec<Vec<u8>> =
        res.headers.iter().filter(|(k, _)| k.as_slice() == b"x-version").map(|(_, v)| v.clone()).collect();
    assert_eq!(versions, vec![b"1.2.4".to_vec()]);
}

#[test]
fn custom_responder_reports_invalid_header() {
    let req = request();
    let res = CustomResponder::new("x").with_header("bad name", "v").respond_to(&req);
    assert_eq!(res.err().unwrap().status, 400);
    let res = CustomResponder::new("x").with_header("ok", "line\nbreak").respond_to(&req);
    assert_eq!(res.err().unwrap().status, 400);
}

#[test]
fn either_responds_with_its_branch() {
    let req = request();
    let a = Either::<&'static str, Vec<u8>>::A("left").respond_to(&req).ok().unwrap();
    assert_eq!(a.body, b"left".to_vec());
    let b = Either::<&'static str, Vec<u8>>::B(vec![1, 2]).respond_to(&req).ok().unwrap();
    assert_eq!(content_type(&b).unwrap(), b"application/octet-stream".to_vec());
}
