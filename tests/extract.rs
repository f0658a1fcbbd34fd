use actix_pipeline::either::{Either, EitherExtractError};
use actix_pipeline::extract::FromRequest;
use actix_pipeline::form::Form;
use actix_pipeline::message::{HttpRequest, Payload, PipelineError};

fn request(headers: &[(&str, &str)]) -> HttpRequest {
    HttpRequest {
        headers: headers.iter().map(|(k, v)| (k.as_bytes().to_vec(), v.as_bytes().to_vec())).collect(),
        form_limit: None,
    }
}

fn payload(chunks: &[&[u8]]) -> Payload {
    Payload { chunks: chunks.iter().map(|c| c.to_vec()).collect() }
}

fn pairs(items: &[(&str, &str)]) -> Vec<(String, String)> {
    items.iter().map(|(k, v)| (k.to_string(), v.to_string())).collect()
}

type FormPairs = Form<Vec<(String, String)>>;

#[test]
fn test_option() {
    let mut req = request(&[("content-type", "text/plain")]);
    req.form_limit = Some(4096);
    let mut pl = payload(&[]);
    let r = Option::<FormPairs>::from_request(&req, &mut pl).ok().unwrap();
    assert!(r.is_none());

    let req = request(&[("content-type", "application/x-www-form-urlencoded"), ("content-length", "9")]);
    let mut pl = payload(&[b"hello=world"]);
    let r = Option::<FormPairs>::from_request(&req, &mut pl).ok().unwrap();
    assert_eq!(r.unwrap().into_inner(), pairs(&[("hello", "world")]));

    let req = request(&[("content-type", "application/x-www-form-urlencoded"), ("content-length", "xx")]);
    let mut pl = payload(&[b"bye=world"]);
    let r = Option::<FormPairs>::from_request(&req, &mut pl).ok().unwrap();
    assert!(r.is_none());
}

#[test]
fn test_result() {
    let req = request(&[("content-type", "application/x-www-form-urlencoded"), ("content-length", "11")]);
    let mut pl = payload(&[b"hello=world"]);
    let r = Result::<FormPairs, PipelineError>::from_request(&req, &mut pl).ok().unwrap();
    assert_eq!(r.ok().unwrap().into_inner(), pairs(&[("hello", "world")]));

    let req = request(&[("content-type", "text/plain"), ("content-length", "9")]);
    let mut pl = payload(&[b"bye=world"]);
    let r = Result::<FormPairs, PipelineError>::from_request(&req, &mut pl).ok().unwrap();
    assert!(r.is_err());
}

#[test]
fn unit_extraction_leaves_body() {
    let req = request(&[]);
    let mut pl = payload(&[b"abc"]);
    assert!(<()>::from_request(&req, &mut pl).is_ok());
    assert_eq!(pl.chunks, vec![b"abc".to_vec()]);
}

#[test]
fn tuple_extracts_left_to_right() {
    let req = request(&[("content-type", "application/x-www-form-urlencoded")]);
    let mut pl = payload(&[b"a=1"]);
    let (f, rest) = <(FormPairs, Vec<u8>)>::from_request(&req, &mut pl).ok().unwrap();
    assert_eq!(f.into_inner(), pairs(&[("a", "1")]));
    assert!(rest.is_empty());
}

#[test]
fn tuple_stops_at_first_failure() {
    let req = request(&[("content-type", "text/plain")]);
    let mut pl = payload(&[b"a=1"]);
    let r = <((), FormPairs, Vec<u8>)>::from_request(&req, &mut pl);
    let err = r.err().unwrap();
    assert_eq!(err.status, 400);
    // The failing form extraction refused the head, so the body was never taken and
    // the third member never ran.
    assert_eq!(pl.chunks, vec![b"a=1".to_vec()]);
}

#[test]
fn raw_body_over_limit_is_refused() {
    let req = request(&[]);
    let mut pl = Payload { chunks: vec![vec![0u8; 200_000], vec![0u8; 100_000]] };
    let r = Vec::<u8>::from_request(&req, &mut pl);
    assert_eq!(r.err().unwrap().status, 413);
}

#[test]
fn test_either_extract_first_try() {
    let req = request(&[("content-type", "application/x-www-form-urlencoded")]);
    let mut pl = payload(&[b"hello=world"]);
    let form = Either::<FormPairs, Vec<u8>>::from_request(&req, &mut pl).ok().unwrap().unwrap_left().into_inner();
    assert_eq!(form, pairs(&[("hello", "world")]));
}

#[test]
fn test_either_extract_fallback() {
    let req = request(&[("content-type", "application/json")]);
    let mut pl = payload(&[b"{\"hello\":\"world\"}"]);
    let raw = Either::<FormPairs, Vec<u8>>::from_request(&req, &mut pl).ok().unwrap().unwrap_right();
    assert_eq!(raw, b"{\"hello\":\"world\"}".to_vec());
}

#[test]
fn test_either_extract_recursive_fallback() {
    let req = request(&[]);
    let mut pl = payload(&[b"!@$%^&*()"]);
    let raw = Either::<Either<FormPairs, FormPairs>, Vec<u8>>::from_request(&req, &mut pl).ok().unwrap().unwrap_right();
    assert_eq!(raw, b"!@$%^&*()".to_vec());
}

#[test]
fn test_either_extract_recursive_fallback_inner() {
    let req = request(&[("content-type", "application/json")]);
    let mut pl = payload(&[b"{\"hello\":", b"\"world\"}"]);
    let inner = Either::<Either<FormPairs, Vec<u8>>, Vec<u8>>::from_request(&req, &mut pl)
        .ok()
        .unwrap()
        .unwrap_left()
        .unwrap_right();
    assert_eq!(inner, b"{\"hello\":\"world\"}".to_vec());
}

#[test]
fn either_keeps_both_errors() {
    let req = request(&[("content-type", "text/plain")]);
    let mut pl = payload(&[b"x"]);
    let r = Either::<FormPairs, Option<FormPairs>>::from_request(&req, &mut pl);
    assert!(matches!(r.ok().unwrap(), Either::B(None)));

    let mut pl = payload(&[b"x"]);
    let r = Either::<FormPairs, FormPairs>::from_request(&req, &mut pl);
    match r.err().unwrap() {
        EitherExtractError::Extract(a, b) => {
            assert_eq!(a.status, 400);
            assert_eq!(b.status, 400);
        },
        EitherExtractError::Bytes(_) => panic!("body was small enough to buffer"),
    }
}

#[test]
fn either_buffering_error() {
    let req = request(&[]);
    let mut pl = Payload { chunks: vec![vec![1u8; 300_000]] };
    let r = Either::<FormPairs, Vec<u8>>::from_request(&req, &mut pl);
    match r.err().unwrap() {
        EitherExtractError::Bytes(e) => assert_eq!(e.status, 413),
        EitherExtractError::Extract(..) => panic!("buffering should fail first"),
    }
}

#[test]
fn ten_member_tuple_extracts_in_order() {
    let req = request(&[("content-type", "application/x-www-form-urlencoded")]);
    let mut pl = payload(&[b"k=v"]);
    let r = <((), (), (), (), (), (), (), (), FormPairs, Vec<u8>)>::from_request(&req, &mut pl).ok().unwrap();
    assert_eq!(r.8.into_inner(), pairs(&[("k", "v")]));
    assert!(r.9.is_empty());
}
