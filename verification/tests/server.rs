use http::header::{HeaderMap, HeaderValue};
use http::Extensions;
use serde_json::Value;
use twirp::clock::{Clock, Duration, Moment};
use twirp::reply::Reply;
use twirp::server::{
    begin_request, begin_request_at, finish_response_at, handle_request, handler_returned,
    handler_returned_at, not_found_handler, parse_request, parse_request_at, receive_body,
    receive_body_at, write_response, BodyFormat, Request, Response, Timings,
};
use twirp::{internal, Context, TwirpErrorCode, TwirpErrorResponse};

fn headers_with(content_type: &'static str) -> HeaderMap {
    let mut headers = HeaderMap::new();
    headers.insert(http::header::CONTENT_TYPE, HeaderValue::from_static(content_type));
    headers
}

fn decode_json(_format: BodyFormat, body: Vec<u8>) -> Result<Value, String> {
    serde_json::from_slice(&body).map_err(|err| err.to_string())
}

fn encode_json(_format: BodyFormat, message: Value) -> Result<Vec<u8>, String> {
    serde_json::to_vec(&message).map_err(|err| err.to_string())
}

fn ping(request: Request<Value>) -> Result<Response<Value>, TwirpErrorResponse> {
    Ok(Response::new(request.into_inner()))
}

fn boom(_request: Request<Value>) -> Result<Response<Value>, TwirpErrorResponse> {
    Err(internal("boom!"))
}

fn call(
    body: &str,
    handler: fn(Request<Value>) -> Result<Response<Value>, TwirpErrorResponse>,
) -> Reply {
    let mut clock = Clock::start();
    let mut extensions = Extensions::new();
    extensions.insert(Timings::new(clock.now()));
    handle_request(
        &HeaderMap::new(),
        extensions,
        Ok(body.as_bytes().to_vec()),
        decode_json,
        handler,
        encode_json,
        &mut clock,
    )
}

fn json(reply: &Reply) -> Value {
    serde_json::from_slice(&reply.body).unwrap()
}

fn text(reply: &Reply) -> &str {
    std::str::from_utf8(&reply.body).unwrap()
}

fn moment(nanos: u128) -> Moment {
    Moment { nanos }
}

#[test]
fn test_bad_route() {
    let reply = not_found_handler();
    assert_eq!(reply.status, 404);
    assert_eq!(reply.content_type, "application/json");
    let data = json(&reply);
    assert_eq!(data["code"], "bad_route");
    assert_eq!(data["msg"], "not found");
    assert!(data.get("meta").is_none());
    assert_eq!(text(&reply), r#"{"code":"bad_route","msg":"not found"}"#);
}

#[test]
fn test_ping_success() {
    let reply = call(r#"{"name":"hi"}"#, ping);
    assert_eq!(reply.status, 200);
    assert_eq!(reply.content_type, "application/json");
    assert_eq!(json(&reply)["name"], "hi");
}

#[test]
fn test_ping_invalid_request() {
    let reply = call("", ping);
    assert_eq!(reply.status, 400);
    assert_eq!(reply.content_type, "application/json");
    let data = json(&reply);
    assert_eq!(data["code"], "malformed");
    assert_eq!(data["msg"], "bad request");
    assert_eq!(data["meta"]["error"], "EOF while parsing a value at line 1 column 0");
    assert_eq!(data["meta"].as_object().unwrap().len(), 1);
    assert!(reply.extensions.get::<Timings>().is_none());
}

#[test]
fn test_boom() {
    let reply = call(r#"{"name":"hi"}"#, boom);
    assert_eq!(reply.status, 500);
    let data = json(&reply);
    assert_eq!(data["code"], "internal");
    assert_eq!(data["msg"], "boom!");
    assert!(data.get("meta").is_none());
    assert!(reply.extensions.get::<Timings>().is_some());
}

#[test]
fn a_body_that_cannot_be_read_is_a_bad_request() {
    let reply = handle_request(
        &HeaderMap::new(),
        Extensions::new(),
        Err("connection \"lost\"".to_string()),
        decode_json,
        ping,
        encode_json,
        &mut Clock::start(),
    );
    assert_eq!(reply.status, 400);
    assert_eq!(
        text(&reply),
        r#"{"code":"malformed","msg":"bad request","meta":{"error":"connection \"lost\""}}"#
    );
}

#[test]
fn a_message_that_cannot_be_encoded_is_an_unknown_error() {
    let reply = handle_request(
        &HeaderMap::new(),
        Extensions::new(),
        Ok(b"1".to_vec()),
        decode_json,
        ping,
        |_format: BodyFormat, _message: Value| Err("key must be a string".to_string()),
        &mut Clock::start(),
    );
    assert_eq!(reply.status, 500);
    assert_eq!(
        text(&reply),
        r#"{"code":"unknown","msg":"error serializing response","meta":{"error":"key must be a string"}}"#
    );
    assert!(reply.extensions.get::<Timings>().is_none());
}

#[test]
fn format_follows_the_content_type() {
    assert_eq!(BodyFormat::from_content_type(&HeaderMap::new()), BodyFormat::JsonPb);
    assert_eq!(
        BodyFormat::from_content_type(&headers_with("application/protobuf")),
        BodyFormat::Pb
    );
    assert_eq!(
        BodyFormat::from_content_type(&headers_with("application/json")),
        BodyFormat::JsonPb
    );
    for other in ["application/protobuf; charset=utf-8", "Application/Protobuf", "application/protobu", ""] {
        assert_eq!(BodyFormat::from_content_type(&headers_with(other)), BodyFormat::JsonPb);
    }
    assert_eq!(BodyFormat::default(), BodyFormat::JsonPb);
}

#[test]
fn the_first_content_type_counts() {
    let mut headers = headers_with("application/protobuf");
    headers.append(http::header::CONTENT_TYPE, HeaderValue::from_static("application/json"));
    assert_eq!(BodyFormat::from_content_type(&headers), BodyFormat::Pb);
}

#[test]
fn decoding_and_encoding_use_the_format_of_the_request() {
    for (content_type, format) in [
        ("application/protobuf", BodyFormat::Pb),
        ("application/json", BodyFormat::JsonPb),
    ] {
        let reply = handle_request(
            &headers_with(content_type),
            Extensions::new(),
            Ok(vec![1, 2]),
            move |given: BodyFormat, body: Vec<u8>| {
                assert_eq!(given, format);
                Ok(body)
            },
            |request: Request<Vec<u8>>| Ok(Response::new(request.into_inner())),
            move |given: BodyFormat, message: Vec<u8>| {
                assert_eq!(given, format);
                Ok(message)
            },
            &mut Clock::start(),
        );
        assert_eq!(reply.status, 200);
        assert_eq!(reply.content_type, content_type);
        assert_eq!(reply.body, vec![1, 2]);
        let mut sent = HeaderMap::new();
        sent.insert(http::header::CONTENT_TYPE, HeaderValue::from_static(reply.content_type));
        assert_eq!(BodyFormat::from_content_type(&sent), format);
    }
}

#[test]
fn extensions_reach_the_handler_and_come_back() {
    let mut extensions = Extensions::new();
    extensions.insert("in");
    let reply = handle_request(
        &HeaderMap::new(),
        extensions,
        Ok(b"1".to_vec()),
        decode_json,
        |request: Request<Value>| {
            assert_eq!(request.extensions().get::<&'static str>(), Some(&"in"));
            let mut response = Response::new(request.into_inner());
            response.extensions_mut().insert(7u64);
            Ok(response)
        },
        encode_json,
        &mut Clock::start(),
    );
    assert_eq!(reply.extensions.get::<u64>(), Some(&7));
    assert_eq!(reply.extensions.get::<&'static str>(), None);
    assert!(reply.extensions.get::<Timings>().is_some());
}

#[test]
fn a_complete_exchange_is_timed_in_full() {
    let exchange = begin_request_at(&HeaderMap::new(), &Extensions::new(), moment(10));
    assert_eq!(exchange.timings, Timings::new(moment(10)));
    let (exchange, body) = receive_body_at(exchange, Ok(b"1".to_vec()), moment(12)).unwrap();
    assert_eq!(body, b"1".to_vec());
    let (request, exchange) =
        parse_request_at(exchange, Extensions::new(), Ok(1u8), moment(15)).unwrap();
    assert_eq!(request.into_inner(), 1);
    let exchange = handler_returned_at(exchange, moment(19));
    let written = write_response(Ok(Response::new(Ok(b"2".to_vec()))), exchange.format);
    let reply = finish_response_at(exchange, written, moment(24));
    let timings = reply.extensions.get::<Timings>().unwrap();
    assert_eq!(timings.received(), Some(Duration { nanos: 2 }));
    assert_eq!(timings.parsed(), Some(Duration { nanos: 3 }));
    assert_eq!(timings.response_handled(), Some(Duration { nanos: 4 }));
    assert_eq!(timings.response_written(), Some(Duration { nanos: 5 }));
    assert_eq!(reply.body, b"2".to_vec());
}

#[test]
fn the_moments_of_an_exchange_are_in_order() {
    let mut extensions = Extensions::new();
    let mut brought = Timings::new(moment(0));
    brought.set_response_written_at(moment(u128::MAX));
    extensions.insert(brought);
    for extensions in [Extensions::new(), extensions] {
        let reply = handle_request(
            &HeaderMap::new(),
            extensions,
            Ok(b"1".to_vec()),
            decode_json,
            ping,
            encode_json,
            &mut Clock::start(),
        );
        let timings = reply.extensions.get::<Timings>().unwrap();
        let received = timings.request_received.unwrap().nanos;
        let parsed = timings.request_parsed.unwrap().nanos;
        let handled = timings.response_handled.unwrap().nanos;
        let written = timings.response_written.unwrap().nanos;
        assert!(timings.start.nanos <= received && received <= parsed);
        assert!(parsed <= handled && handled <= written && written < u128::MAX);
    }
}

#[test]
fn timings_that_came_with_the_request_are_carried_on() {
    let mut extensions = Extensions::new();
    extensions.insert(Timings::new(moment(3)));
    let exchange = begin_request_at(&HeaderMap::new(), &extensions, moment(10));
    assert_eq!(exchange.timings.start, moment(3));
    let exchange = begin_request(&HeaderMap::new(), &extensions, &mut Clock::start());
    assert_eq!(exchange.timings, Timings::new(moment(3)));
}

#[test]
fn the_clock_times_every_step() {
    let mut clock = Clock::start();
    let exchange = begin_request(&HeaderMap::new(), &Extensions::new(), &mut clock);
    assert_eq!(exchange.timings.request_received, None);
    let (exchange, _) = receive_body(exchange, Ok(vec![]), &mut clock).unwrap();
    let (_, exchange) = parse_request(exchange, Extensions::new(), Ok(()), &mut clock).unwrap();
    let exchange = handler_returned(exchange, &mut clock);
    let start = exchange.timings.start.nanos;
    let received = exchange.timings.request_received.unwrap().nanos;
    let parsed = exchange.timings.request_parsed.unwrap().nanos;
    let handled = exchange.timings.response_handled.unwrap().nanos;
    assert!(start <= received && received <= parsed && parsed <= handled);
    assert_eq!(exchange.timings.response_written, None);
}

#[test]
fn an_error_of_the_handler_is_timed_but_otherwise_unchanged() {
    let exchange = begin_request_at(&HeaderMap::new(), &Extensions::new(), moment(0));
    let written = write_response(Err(internal("boom!")), BodyFormat::Pb);
    let reply = finish_response_at(exchange, written, moment(9));
    let plain = internal("boom!").into_response();
    assert_eq!(reply.status, plain.status);
    assert_eq!(reply.content_type, "application/json");
    assert_eq!(reply.body, plain.body);
    assert_eq!(
        reply.extensions.get::<Timings>().unwrap().response_written,
        Some(moment(9))
    );
}

#[test]
fn writing_hands_out_why_a_message_could_not_be_encoded() {
    let response: Response<Result<Vec<u8>, String>> = Response::new(Err("no".to_string()));
    assert_eq!(write_response(Ok(response), BodyFormat::JsonPb).unwrap_err(), "no");
}

#[test]
fn requests_and_responses_hold_a_message_and_extensions() {
    let mut request = Request::new(5);
    assert!(request.extensions().is_empty());
    request.extensions_mut().insert(1u8);
    let copy = request.clone();
    let (message, extensions) = request.into_parts();
    assert_eq!(message, 5);
    assert_eq!(extensions.get::<u8>(), Some(&1));
    assert_eq!(copy.extensions().get::<u8>(), Some(&1));
    assert_eq!(copy.into_inner(), 5);

    let mut response = Response::new("m");
    assert!(response.extensions().is_empty());
    response.extensions_mut().insert(2u8);
    let copy = response.clone();
    let (message, extensions) = response.into_parts();
    assert_eq!(message, "m");
    assert_eq!(extensions.get::<u8>(), Some(&2));
    assert_eq!(copy.extensions().get::<u8>(), Some(&2));
    assert_eq!(copy.into_inner(), "m");
}

#[test]
fn a_context_holds_extensions() {
    assert!(Context::default().extensions.is_empty());
    let mut extensions = Extensions::new();
    extensions.insert(Timings::new(moment(4)));
    let context = Context::new(extensions);
    assert_eq!(
        context.clone().extensions.get::<Timings>(),
        Some(&Timings::new(moment(4)))
    );
    assert_eq!(context.extensions.len(), 1);
}

#[test]
fn refusals_carry_the_code_of_their_kind() {
    assert_eq!(TwirpErrorCode::Malformed.http_status_code(), 400);
    let refused = parse_request_at::<()>(
        begin_request_at(&HeaderMap::new(), &Extensions::new(), moment(0)),
        Extensions::new(),
        Err("x".to_string()),
        moment(1),
    );
    assert_eq!(refused.unwrap_err().status, 400);
    let refused = receive_body_at(
        begin_request_at(&HeaderMap::new(), &Extensions::new(), moment(0)),
        Err("x".to_string()),
        moment(1),
    );
    assert_eq!(refused.unwrap_err().status, 400);
}
