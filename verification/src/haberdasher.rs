//! A haberdasher service, and the middleware around it.
use crate::decimal::{decimal, lemma_decimal_round_trip, natural, parse_i32, read_i32};
use crate::error::{invalid_argument, plain_error, TwirpErrorCode, TwirpErrorResponse};
use crate::extensions::{
    contents, get_value, held_value, insert_value, with_value, Held, Slot, Stored,
};
use crate::headers::{
    decimal_value, fields_of, first_value, get_header, insert_header, is_visible_ascii, lower,
    value_text, Fields,
};
use crate::readings::read_from_system;
use crate::server::{MessageView, Request, Response};
use vstd::prelude::*;
use vstd::utf8::{encode_utf8, is_ascii_chars, is_ascii_chars_encode_utf8};

verus! {

/// A number that the middleware puts into a request and takes out of its response.
#[derive(Debug, Clone, Copy, PartialEq, Eq, Structural)]
pub struct MyMiddlewareValue {
    pub value: i32,
}

/// An order for a hat.
#[derive(Debug, Clone, Copy, PartialEq, Eq, Structural)]
pub struct MakeHatRequest {
    /// The size of the hat.
    pub inches: i32,
}

/// A point in civil time: seconds and nanoseconds since the Unix epoch.
#[derive(Debug, Clone, Copy, PartialEq, Eq, Structural)]
pub struct Timestamp {
    pub seconds: i64,
    pub nanos: i32,
}

/// A hat.
#[derive(Debug)]
pub struct MakeHatResponse {
    /// The size of the hat.
    pub size: i32,
    /// The color of the hat.
    pub color: String,
    /// What kind of hat it is.
    pub name: String,
    /// When the hat was made.
    pub timestamp: Option<Timestamp>,
}

/// The mathematical content of a [`MakeHatResponse`].
#[verifier::ext_equal]
pub struct HatView {
    pub size: i32,
    pub color: Seq<char>,
    pub name: Seq<char>,
    pub timestamp: Option<Timestamp>,
}

impl View for MakeHatResponse {
    type V = HatView;

    open spec fn view(&self) -> HatView {
        HatView {
            size: self.size,
            color: self.color@,
            name: self.name@,
            timestamp: self.timestamp,
        }
    }
}

/// The hat that is made of the given size, the given number of seconds after the Unix epoch.
pub open spec fn hat(inches: i32, seconds: u64) -> HatView {
    HatView {
        size: inches,
        color: "black"@,
        name: "top hat"@,
        timestamp: Some(Timestamp { seconds: seconds as i64, nanos: 0 }),
    }
}

/// The seconds since the Unix epoch, or zero where it is still to come.
pub open spec fn seconds_or_zero(since_epoch: Option<u64>) -> u64 {
    match since_epoch {
        Some(seconds) => seconds,
        None => 0,
    }
}

/// The number that came with a request, or zero where none did.
pub open spec fn value_or_zero(held: Held) -> i32 {
    match held_value(held) {
        Some(value) => value.value,
        None => 0,
    }
}

/// Whether there is a number one above the one that came with the request.
pub open spec fn can_count(held: Held) -> bool {
    value_or_zero(held) < i32::MAX
}

/// What comes of an order: a hat, with the number one above the one that came with the order; or
/// an error where the hat would have no size.
pub open spec fn hat_made(
    order: MessageView<MakeHatRequest>,
    since_epoch: Option<u64>,
    made: Result<Response<MakeHatResponse>, TwirpErrorResponse>,
) -> bool {
    if order.message.inches == 0 {
        made matches Err(error) && error@ == plain_error(
            TwirpErrorCode::InvalidArgument,
            "inches"@,
        )
    } else {
        made matches Ok(response) && response@.message@ == hat(
            order.message.inches,
            seconds_or_zero(since_epoch),
        ) && response@.extensions == with_value(
            Held::empty(),
            MyMiddlewareValue { value: (value_or_zero(order.extensions) + 1) as i32 },
        )
    }
}

/// Calls `std::time::SystemTime::elapsed` on the Unix epoch: whole seconds, or nothing where the
/// system's clock is set to a time before it. Nothing is claimed of the number but that it was
/// read: it is the time.
#[verifier::external_body]
fn system_time() -> (since_epoch: Option<u64>)
    ensures
        read_from_system(since_epoch),
{
    match std::time::UNIX_EPOCH.elapsed() {
        Ok(elapsed) => Some(elapsed.as_secs()),
        Err(_) => None,
    }
}

/// The server of the haberdasher service.
#[derive(Debug, Clone, Copy)]
pub struct HaberdasherApiServer;

impl HaberdasherApiServer {
    /// Makes a hat, at the given number of seconds after the Unix epoch.
    pub fn make_hat_at(&self, request: Request<MakeHatRequest>, since_epoch: Option<u64>) -> (made:
        Result<Response<MakeHatResponse>, TwirpErrorResponse>)
        requires
            request@.message.inches != 0 ==> can_count(request@.extensions),
        ensures
            hat_made(request@, since_epoch, made),
    {
        let (req, extensions) = request.into_parts();
        let value = get_value(&extensions);
        if req.inches == 0 {
            return Err(invalid_argument("inches"));
        }
        let seconds: u64 = match since_epoch {
            Some(seconds) => seconds,
            None => 0,
        };
        let mut response = Response::new(
            MakeHatResponse {
                color: "black".to_owned(),
                name: "top hat".to_owned(),
                size: req.inches,
                timestamp: Some(Timestamp { seconds: seconds as i64, nanos: 0 }),
            },
        );
        let count: i32 = match value {
            Some(value) => value.value,
            None => 0,
        };
        insert_value(response.extensions_mut(), MyMiddlewareValue { value: count + 1 });
        Ok(response)
    }

    /// Makes a hat.
    pub fn make_hat(&self, request: Request<MakeHatRequest>) -> (made: Result<
        Response<MakeHatResponse>,
        TwirpErrorResponse,
    >)
        requires
            request@.message.inches != 0 ==> can_count(request@.extensions),
        ensures
            exists|since_epoch: Option<u64>|
                read_from_system(since_epoch) && #[trigger] hat_made(request@, since_epoch, made),
    {
        self.make_hat_at(request, system_time())
    }

    /// Makes a hat, unless there is no number one above the one that came with the order: then
    /// nothing comes of the order.
    pub fn try_make_hat(&self, request: Request<MakeHatRequest>) -> (made: Option<
        Result<Response<MakeHatResponse>, TwirpErrorResponse>,
    >)
        ensures
            made is None <==> request@.message.inches != 0 && !can_count(request@.extensions),
            made matches Some(made) ==> exists|since_epoch: Option<u64>|
                read_from_system(since_epoch) && #[trigger] hat_made(request@, since_epoch, made),
    {
        let value = get_value(request.extensions());
        let (req, extensions) = request.into_parts();
        let full = match value {
            Some(value) => value.value == i32::MAX,
            None => false,
        };
        if req.inches != 0 && full {
            return None;
        }
        let mut request = Request::new(req);
        request.extensions_mut().extend(extensions);
        assert(Held::empty().union_prefer_right(contents(extensions)) == contents(extensions));
        Some(self.make_hat(request))
    }
}

/// Answers a ping.
pub fn ping() -> (answer: &'static str)
    ensures
        answer@ == "Pong\n"@,
{
    "Pong\n"
}

/// The number that the fields of a request ask to start from: that of the header
/// `Starting_value`, or zero where it is missing or not the notation of an `i32`.
pub open spec fn starting_value(fields: Fields) -> i32 {
    match first_value(fields, "Starting_value"@) {
        Some(bytes) => match value_text(bytes) {
            Some(text) => match read_i32(text) {
                Some(value) => value,
                None => 0,
            },
            None => 0,
        },
        None => 0,
    }
}

/// Puts the number that a request asks to start from among the extensions of the request.
pub fn put_starting_value(headers: &http::HeaderMap, extensions: &mut http::Extensions)
    ensures
        contents(*final(extensions)) == with_value(
            contents(*old(extensions)),
            MyMiddlewareValue { value: starting_value(fields_of(*headers)) },
        ),
{
    proof {
        reveal_strlit("Starting_value");
    }
    let value: i32 = match get_header(headers, "Starting_value") {
        Some(header) => match header.to_str() {
            Ok(text) => match parse_i32(text) {
                Some(value) => value,
                None => 0,
            },
            Err(_) => 0,
        },
        None => 0,
    };
    insert_value(extensions, MyMiddlewareValue { value });
}

/// A header map that has no room for a header.
#[derive(Debug, Clone, Copy, PartialEq, Eq, Structural)]
pub struct HeadersFull;

/// Tells the client, in the header `X-Value`, of the number among the extensions of a response,
/// if there is one.
pub fn show_value(extensions: &http::Extensions, headers: &mut http::HeaderMap) -> (shown: Result<
    (),
    HeadersFull,
>)
    ensures
        match (held_value(contents(*extensions)), shown) {
            (Some(value), Ok(_)) => fields_of(*final(headers)) == fields_of(*old(headers)).insert(
                lower("X-Value"@),
                seq![encode_utf8(decimal(value.value as int))],
            ),
            (Some(_), Err(_)) => fields_of(*final(headers)) == fields_of(*old(headers))
                && fields_of(*old(headers)).len() >= 6554,
            (None, _) => shown is Ok && fields_of(*final(headers)) == fields_of(*old(headers)),
        },
{
    proof {
        reveal_strlit("X-Value");
    }
    match get_value(extensions) {
        Some(value) => match insert_header(headers, "X-Value", decimal_value(value.value)) {
            Ok(_) => Ok(()),
            Err(_) => Err(HeadersFull),
        },
        None => Ok(()),
    }
}

/// The notation of a natural number is ASCII.
proof fn lemma_natural_is_ascii(value: nat)
    ensures
        is_ascii_chars(natural(value)),
        forall|i: int| 0 <= i < natural(value).len() ==> 32 <= #[trigger] natural(value)[i] < 127,
    decreases value,
{
    if value >= 10 {
        lemma_natural_is_ascii(value / 10);
        let text = natural(value);
        assert forall|i: int| 0 <= i < text.len() implies 32 <= #[trigger] text[i] < 127 by {
            if i < text.len() - 1 {
                assert(text[i] == natural(value / 10)[i]);
            }
        }
    }
}

/// The number that a response shows can be sent back to start from: whoever puts the value of
/// `X-Value` into `Starting_value` starts from the number that was shown.
pub proof fn lemma_shown_value_starts_again(value: i32, fields: Fields)
    requires
        first_value(fields, "Starting_value"@) == Some(encode_utf8(decimal(value as int))),
    ensures
        starting_value(fields) == value,
{
    let text = decimal(value as int);
    if value < 0 {
        lemma_natural_is_ascii((-value) as nat);
    } else {
        lemma_natural_is_ascii(value as nat);
    }
    assert(is_ascii_chars(text));
    is_ascii_chars_encode_utf8(text);
    let bytes = encode_utf8(text);
    assert forall|i: int| 0 <= i < bytes.len() implies is_visible_ascii(#[trigger] bytes[i]) by {
        assert(32 <= text[i] < 127);
    }
    assert(value_text(bytes)->0 =~= text);
    lemma_decimal_round_trip(value);
}

/// The number counts up: an order that asks to start from a number comes back with the number
/// one above it, whatever else came with it.
pub proof fn lemma_value_counts_up(
    fields: Fields,
    held: Held,
    order: MessageView<MakeHatRequest>,
    since_epoch: Option<u64>,
    made: Result<Response<MakeHatResponse>, TwirpErrorResponse>,
)
    requires
        order.extensions == with_value(held, MyMiddlewareValue { value: starting_value(fields) }),
        order.message.inches != 0,
        can_count(order.extensions),
        hat_made(order, since_epoch, made),
    ensures
        made is Ok,
        held_value(made->Ok_0@.extensions) == Some(
            MyMiddlewareValue { value: (starting_value(fields) + 1) as i32 },
        ),
{
}

/// A hat is made as it was ordered, black and in the shape of a top hat, at the second that the
/// clock told, or at the epoch where the clock was set to a time before it; it comes with the
/// number one above the one that came with the order, or one where none did, and with nothing
/// else. The one order that fails is that of a hat without a size.
pub proof fn lemma_hat_is_made_as_ordered(
    order: MessageView<MakeHatRequest>,
    since_epoch: Option<u64>,
    made: Result<Response<MakeHatResponse>, TwirpErrorResponse>,
    value: MyMiddlewareValue,
)
    requires
        hat_made(order, since_epoch, made),
    ensures
        made is Err <==> order.message.inches == 0,
        made matches Err(error) ==> {
            &&& error.code is InvalidArgument
            &&& error.msg@ == "inches"@
            &&& error.meta@.len() == 0
        },
        made matches Ok(response) ==> {
            &&& response@.message.size == order.message.inches
            &&& response@.message.color@ == "black"@
            &&& response@.message.name@ == "top hat"@
            &&& response@.message.timestamp is Some
            &&& response@.message.timestamp->0.nanos == 0
            &&& since_epoch is None ==> response@.message.timestamp->0.seconds == 0
            &&& since_epoch is Some ==> response@.message.timestamp->0.seconds
                == since_epoch->0 as i64
            &&& since_epoch is Some && since_epoch->0 <= i64::MAX
                ==> response@.message.timestamp->0.seconds == since_epoch->0
            &&& response@.extensions.contains_key(Slot::MyMiddlewareValue)
            &&& response@.extensions.remove(Slot::MyMiddlewareValue) == Held::empty()
            &&& order.extensions.contains_key(Slot::MyMiddlewareValue)
                && order.extensions[Slot::MyMiddlewareValue] == Stored::MyMiddlewareValue(value)
                && value.value < i32::MAX ==> response@.extensions[Slot::MyMiddlewareValue]
                == Stored::MyMiddlewareValue(
                MyMiddlewareValue { value: (value.value + 1) as i32 },
            )
            &&& !order.extensions.contains_key(Slot::MyMiddlewareValue)
                ==> response@.extensions[Slot::MyMiddlewareValue] == Stored::MyMiddlewareValue(
                MyMiddlewareValue { value: 1 },
            )
        },
{
    if let Err(error) = made {
        assert(error@.meta.len() == error.meta@.len());
    }
}

/// The one number that cannot be counted up is the largest: an order that comes with any other
/// number, or with none, can be met.
pub proof fn lemma_only_the_largest_number_is_the_last(held: Held, value: MyMiddlewareValue)
    ensures
        can_count(held.insert(Slot::MyMiddlewareValue, Stored::MyMiddlewareValue(value)))
            <==> value.value != 0x7fff_ffff,
        can_count(held.remove(Slot::MyMiddlewareValue)),
{
}

/// A request starts from the number that it asks for, where it sends one in the header
/// `Starting_value`, and from zero where what it sends is no number, holds a byte that is not
/// visible, or is missing. Only the first value that it sends counts.
pub proof fn lemma_request_starts_where_it_asks(
    fields: Fields,
    text: Seq<char>,
    more: Seq<Seq<u8>>,
    bytes: Seq<u8>,
    place: int,
)
    requires
        forall|i: int| 0 <= i < text.len() ==> ' ' <= #[trigger] text[i] <= '~',
    ensures
        starting_value(fields.remove("starting_value"@)) == 0,
        read_i32(text) matches Some(value) ==> starting_value(
            fields.insert("starting_value"@, seq![encode_utf8(text)] + more),
        ) == value,
        read_i32(text) is None ==> starting_value(
            fields.insert("starting_value"@, seq![encode_utf8(text)] + more),
        ) == 0,
        0 <= place < bytes.len() && (bytes[place] >= 127 || bytes[place] < 32 && bytes[place] != 9)
            ==> starting_value(fields.insert("starting_value"@, seq![bytes] + more)) == 0,
{
    reveal_strlit("Starting_value");
    reveal_strlit("starting_value");
    assert(lower("Starting_value"@) =~= "starting_value"@);
    assert(is_ascii_chars(text));
    is_ascii_chars_encode_utf8(text);
    let sent = encode_utf8(text);
    assert forall|i: int| 0 <= i < sent.len() implies is_visible_ascii(#[trigger] sent[i]) by {
        assert(' ' <= text[i] <= '~');
    }
    assert(value_text(sent)->0 =~= text);
    if 0 <= place < bytes.len() && (bytes[place] >= 127 || bytes[place] < 32 && bytes[place] != 9) {
        assert(!is_visible_ascii(bytes[place]));
        assert(value_text(bytes) is None);
    }
}

} // verus!
