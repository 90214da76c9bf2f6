use http::header::{HeaderMap, HeaderName, HeaderValue};
use http::Extensions;
use twirp::haberdasher::{
    ping, put_starting_value, show_value, HaberdasherApiServer, HeadersFull, MakeHatRequest,
    MyMiddlewareValue, Timestamp,
};
use twirp::headers::bytes_equal;
use twirp::server::Request;
use twirp::TwirpErrorCode;

fn order(inches: i32, value: Option<i32>) -> Request<MakeHatRequest> {
    let mut request = Request::new(MakeHatRequest { inches });
    if let Some(value) = value {
        request.extensions_mut().insert(MyMiddlewareValue { value });
    }
    request
}

fn started_from(header: &[u8]) -> i32 {
    let mut headers = HeaderMap::new();
    headers.insert("starting_value", HeaderValue::from_bytes(header).unwrap());
    let mut extensions = Extensions::new();
    put_starting_value(&headers, &mut extensions);
    extensions.get::<MyMiddlewareValue>().unwrap().value
}

fn shown(value: i32) -> HeaderValue {
    let mut extensions = Extensions::new();
    extensions.insert(MyMiddlewareValue { value });
    let mut headers = HeaderMap::new();
    headers.append("x-value", HeaderValue::from_static("a"));
    headers.append("x-value", HeaderValue::from_static("b"));
    assert_eq!(show_value(&extensions, &mut headers), Ok(()));
    assert_eq!(headers.len(), 1);
    headers["X-Value"].clone()
}

#[test]
fn success() {
    let api = HaberdasherApiServer {};
    let res = api.make_hat(Request::new(MakeHatRequest { inches: 1 }));
    assert!(res.is_ok());
    let res = res.unwrap().into_inner();
    assert_eq!(res.size, 1);
}

#[test]
fn invalid_request() {
    let api = HaberdasherApiServer {};
    let res = api.make_hat(Request::new(MakeHatRequest { inches: 0 }));
    assert!(res.is_err());
    let err = res.unwrap_err();
    assert_eq!(err.code, TwirpErrorCode::InvalidArgument);
    assert_eq!(err.msg, "inches");
    assert!(err.meta.is_empty());
}

#[test]
fn a_hat_is_black_and_made_now() {
    let hat = HaberdasherApiServer.make_hat_at(order(12, None), Some(1_700_000_000)).unwrap();
    let hat = hat.into_inner();
    assert_eq!(hat.size, 12);
    assert_eq!(hat.color, "black");
    assert_eq!(hat.name, "top hat");
    assert_eq!(hat.timestamp, Some(Timestamp { seconds: 1_700_000_000, nanos: 0 }));
    let early = HaberdasherApiServer.make_hat_at(order(-3, None), None).unwrap().into_inner();
    assert_eq!(early.size, -3);
    assert_eq!(early.timestamp, Some(Timestamp { seconds: 0, nanos: 0 }));
    let now = HaberdasherApiServer.make_hat(order(1, None)).unwrap().into_inner();
    assert!(now.timestamp.unwrap().seconds > 1_600_000_000);
}

#[test]
fn the_value_counts_up() {
    for (value, next) in [(None, 1), (Some(0), 1), (Some(41), 42), (Some(-1), 0), (Some(i32::MIN), -2147483647)] {
        let made = HaberdasherApiServer.make_hat_at(order(1, value), Some(0)).unwrap();
        assert_eq!(
            made.extensions().get::<MyMiddlewareValue>(),
            Some(&MyMiddlewareValue { value: next })
        );
        assert_eq!(made.extensions().len(), 1);
    }
}

#[test]
fn the_largest_value_cannot_count_up() {
    let api = HaberdasherApiServer;
    assert!(api.try_make_hat(order(1, Some(i32::MAX))).is_none());
    assert!(api.try_make_hat(order(0, Some(i32::MAX))).unwrap().is_err());
    let made = api.try_make_hat(order(2, Some(5))).unwrap().unwrap();
    assert_eq!(made.extensions().get::<MyMiddlewareValue>().unwrap().value, 6);
    assert_eq!(made.into_inner().size, 2);
}

#[test]
fn the_starting_value_comes_from_its_header() {
    assert_eq!(started_from(b"17"), 17);
    assert_eq!(started_from(b"-5"), -5);
    assert_eq!(started_from(b"+5"), 5);
    assert_eq!(started_from(b"ten"), 0);
    assert_eq!(started_from(b"2147483648"), 0);
    assert_eq!(started_from(b"\xe9"), 0);
    assert_eq!(started_from(b"1\xe9"), 0);
    assert_eq!(started_from(b""), 0);
    let mut extensions = Extensions::new();
    extensions.insert(MyMiddlewareValue { value: 9 });
    extensions.insert("kept");
    put_starting_value(&HeaderMap::new(), &mut extensions);
    assert_eq!(extensions.get::<MyMiddlewareValue>(), Some(&MyMiddlewareValue { value: 0 }));
    assert_eq!(extensions.get::<&'static str>(), Some(&"kept"));
}

#[test]
fn the_value_is_shown_in_its_header() {
    assert_eq!(shown(42), "42");
    assert_eq!(shown(-7), "-7");
    assert_eq!(shown(i32::MIN), "-2147483648");
    let mut headers = HeaderMap::new();
    assert_eq!(show_value(&Extensions::new(), &mut headers), Ok(()));
    assert!(headers.is_empty());
}

#[test]
fn the_shown_value_can_start_again() {
    for value in [0, 1, -1, 99, 100, i32::MAX, i32::MIN] {
        assert_eq!(started_from(shown(value).as_bytes()), value);
    }
}

#[test]
fn a_full_header_map_shows_nothing() {
    let mut headers = HeaderMap::new();
    let mut names: u32 = 0;
    loop {
        let name = HeaderName::from_bytes(format!("n{}", names).as_bytes()).unwrap();
        if headers.try_insert(name, HeaderValue::from_static("v")).is_err() {
            break;
        }
        names += 1;
    }
    assert!(headers.len() >= 6554);
    let full = headers.len();
    let mut extensions = Extensions::new();
    extensions.insert(MyMiddlewareValue { value: 1 });
    assert_eq!(show_value(&extensions, &mut headers), Err(HeadersFull));
    assert_eq!(headers.len(), full);
    assert!(headers.get("x-value").is_none());
}

#[test]
fn a_ping_is_answered() {
    assert_eq!(ping(), "Pong\n");
}

#[test]
fn bytes_are_compared() {
    assert!(bytes_equal(b"", b""));
    assert!(bytes_equal(b"ab", b"ab"));
    assert!(!bytes_equal(b"ab", b"ac"));
    assert!(!bytes_equal(b"ab", b"abc"));
}
