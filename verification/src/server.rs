//! Support for serving Twirp APIs.
//!
//! A request is taken through its exchange step by step: [`begin_request`], [`receive_body`],
//! [`parse_request`], [`handler_returned`], [`write_response`] and [`finish_response`]. Between
//! the steps whoever runs the exchange reads the body, decodes it, calls the handler and encodes
//! the handler's message; each step is told how that went and says what comes next.
use crate::clock::{read_with, Clock, Moment, Stamped};
use crate::error::{
    bad_route, caused_error, lemma_cause_is_told, lemma_plain_error_is_told, malformed,
    plain_error, unknown, ErrorView, TwirpErrorCode, TwirpErrorResponse,
};
use crate::extensions::{
    contents, get_timings, held_clone, held_timings, insert_timings, with_timings, Held, Slot,
    Stored,
};
use crate::headers::{
    bytes_equal, fields_of, first_value, get_header, CONTENT_TYPE_JSON, CONTENT_TYPE_PROTOBUF,
};
use crate::json::quoted;
use crate::reply::{Reply, ReplyView};
pub use crate::timings::Timings;
use vstd::prelude::*;
use vstd::utf8::encode_utf8;

verus! {

/// The mathematical content of a [`Request`] or a [`Response`].
#[verifier::ext_equal]
pub struct MessageView<T> {
    pub message: T,
    pub extensions: Held,
}

/// A message on its way to a handler, with the extensions that came with it.
#[derive(Debug)]
pub struct Request<T> {
    message: T,
    extensions: http::Extensions,
}

/// A message on its way back from a handler, with the extensions that go with it.
#[derive(Debug)]
pub struct Response<T> {
    message: T,
    extensions: http::Extensions,
}

impl<T> View for Request<T> {
    type V = MessageView<T>;

    closed spec fn view(&self) -> MessageView<T> {
        MessageView { message: self.message, extensions: contents(self.extensions) }
    }
}

impl<T> View for Response<T> {
    type V = MessageView<T>;

    closed spec fn view(&self) -> MessageView<T> {
        MessageView { message: self.message, extensions: contents(self.extensions) }
    }
}

impl<T> Request<T> {
    /// A request without extensions.
    pub fn new(message: T) -> (request: Self)
        ensures
            request@ == (MessageView { message, extensions: Held::empty() }),
    {
        Request { message, extensions: http::Extensions::new() }
    }

    /// The message.
    pub fn into_inner(self) -> (message: T)
        ensures
            message == self@.message,
    {
        self.message
    }

    /// The message and the extensions.
    pub fn into_parts(self) -> (parts: (T, http::Extensions))
        ensures
            parts.0 == self@.message,
            contents(parts.1) == self@.extensions,
    {
        (self.message, self.extensions)
    }

    /// The extensions.
    pub fn extensions(&self) -> (extensions: &http::Extensions)
        ensures
            contents(*extensions) == self@.extensions,
    {
        &self.extensions
    }

    /// The extensions, to be changed. The message stays as it is.
    pub fn extensions_mut(&mut self) -> (extensions: &mut http::Extensions)
        ensures
            contents(*extensions) == old(self)@.extensions,
            final(self)@ == (MessageView {
                message: old(self)@.message,
                extensions: contents(*final(extensions)),
            }),
    {
        &mut self.extensions
    }
}

impl<T> Response<T> {
    /// A response without extensions.
    pub fn new(message: T) -> (response: Self)
        ensures
            response@ == (MessageView { message, extensions: Held::empty() }),
    {
        Response { message, extensions: http::Extensions::new() }
    }

    /// The message.
    pub fn into_inner(self) -> (message: T)
        ensures
            message == self@.message,
    {
        self.message
    }

    /// The message and the extensions.
    pub fn into_parts(self) -> (parts: (T, http::Extensions))
        ensures
            parts.0 == self@.message,
            contents(parts.1) == self@.extensions,
    {
        (self.message, self.extensions)
    }

    /// The extensions.
    pub fn extensions(&self) -> (extensions: &http::Extensions)
        ensures
            contents(*extensions) == self@.extensions,
    {
        &self.extensions
    }

    /// The extensions, to be changed. The message stays as it is.
    pub fn extensions_mut(&mut self) -> (extensions: &mut http::Extensions)
        ensures
            contents(*extensions) == old(self)@.extensions,
            final(self)@ == (MessageView {
                message: old(self)@.message,
                extensions: contents(*final(extensions)),
            }),
    {
        &mut self.extensions
    }
}

impl<T: Clone> Clone for Request<T> {
    /// A request with clones of the message and of every extension.
    fn clone(&self) -> (copy: Self)
        ensures
            cloned(self@.message, copy@.message),
            held_clone(self@.extensions, copy@.extensions),
    {
        Request { message: self.message.clone(), extensions: self.extensions.clone() }
    }
}

impl<T: Clone> Clone for Response<T> {
    /// A response with clones of the message and of every extension.
    fn clone(&self) -> (copy: Self)
        ensures
            cloned(self@.message, copy@.message),
            held_clone(self@.extensions, copy@.extensions),
    {
        Response { message: self.message.clone(), extensions: self.extensions.clone() }
    }
}

/// The formats in which messages are written.
#[derive(Debug, Clone, Copy, PartialEq, Eq, Structural)]
pub enum BodyFormat {
    /// JSON.
    JsonPb,
    /// Protocol Buffers.
    Pb,
}

impl Default for BodyFormat {
    /// The format of a body that nothing is said of.
    fn default() -> (format: BodyFormat)
        ensures
            format == BodyFormat::JsonPb,
    {
        BodyFormat::JsonPb
    }
}

/// The format of a body that came with the given content type: Protocol Buffers where the
/// content type says so to the letter, and JSON otherwise.
pub open spec fn format_of(content_type: Option<Seq<u8>>) -> BodyFormat {
    if content_type == Some(encode_utf8(CONTENT_TYPE_PROTOBUF@)) {
        BodyFormat::Pb
    } else {
        BodyFormat::JsonPb
    }
}

/// The content type of a body in the given format.
pub open spec fn content_type_of(format: BodyFormat) -> Seq<char> {
    match format {
        BodyFormat::Pb => CONTENT_TYPE_PROTOBUF@,
        BodyFormat::JsonPb => CONTENT_TYPE_JSON@,
    }
}

impl BodyFormat {
    /// The format of a body that came with the given headers.
    pub fn from_content_type(headers: &http::HeaderMap) -> (format: BodyFormat)
        ensures
            format == format_of(first_value(fields_of(*headers), "content-type"@)),
            format == BodyFormat::Pb <==> first_value(fields_of(*headers), "content-type"@) == Some(
                encode_utf8("application/protobuf"@),
            ),
    {
        proof {
            reveal_strlit("content-type");
        }
        match get_header(headers, "content-type") {
            Some(value) => {
                if bytes_equal(value.as_bytes(), CONTENT_TYPE_PROTOBUF.as_bytes()) {
                    BodyFormat::Pb
                } else {
                    BodyFormat::JsonPb
                }
            },
            None => BodyFormat::JsonPb,
        }
    }
}

/// Where the exchange of a request for its response stands.
#[derive(Debug, Clone, Copy, PartialEq, Eq, Structural)]
pub struct Exchange {
    /// The format of the request, in which the response is written too.
    pub format: BodyFormat,
    /// What was timed so far.
    pub timings: Timings,
}

impl Exchange {
    /// The exchange at its beginning. Timings that came with the request are carried on.
    pub open spec fn begun(content_type: Option<Seq<u8>>, held: Held, now: Moment) -> Exchange {
        Exchange {
            format: format_of(content_type),
            timings: match held_timings(held) {
                Some(timings) => timings,
                None => Timings::started(now),
            },
        }
    }

    /// The exchange once the whole request was received.
    pub open spec fn received(self, at: Moment) -> Exchange {
        Exchange { timings: self.timings.with_received(at), ..self }
    }

    /// The exchange once the request was parsed.
    pub open spec fn parsed(self, at: Moment) -> Exchange {
        Exchange { timings: self.timings.with_parsed(at), ..self }
    }

    /// The exchange once the handler returned.
    pub open spec fn handled(self, at: Moment) -> Exchange {
        Exchange { timings: self.timings.with_response_handled(at), ..self }
    }

    /// The exchange once the response was written.
    pub open spec fn written(self, at: Moment) -> Exchange {
        Exchange { timings: self.timings.with_response_written(at), ..self }
    }
}

/// The answer to a request that could not be read or decoded.
pub open spec fn bad_request(cause: Seq<char>) -> ReplyView {
    caused_error(TwirpErrorCode::Malformed, "bad request"@, cause).reply()
}

/// The answer to a request whose response could not be encoded.
pub open spec fn bad_response(cause: Seq<char>) -> ReplyView {
    caused_error(TwirpErrorCode::Unknown, "error serializing response"@, cause).reply()
}

/// Refuses a request that could not be read or decoded.
fn refuse_request(cause: String) -> (reply: Reply)
    ensures
        reply@ == bad_request(cause@),
{
    let mut error = malformed("bad request");
    error.insert_meta("error".to_owned(), cause);
    assert(error@ == caused_error(TwirpErrorCode::Malformed, "bad request"@, cause@));
    error.into_response()
}

/// Gives up on a response that could not be encoded.
fn refuse_response(cause: String) -> (reply: Reply)
    ensures
        reply@ == bad_response(cause@),
{
    let mut error = unknown("error serializing response");
    error.insert_meta("error".to_owned(), cause);
    assert(error@ == caused_error(
        TwirpErrorCode::Unknown,
        "error serializing response"@,
        cause@,
    ));
    error.into_response()
}

/// Answers a request that no route leads to: 404 Not Found with a Twirp JSON payload.
pub fn not_found_handler() -> (reply: Reply)
    ensures
        reply@ == plain_error(TwirpErrorCode::BadRoute, "not found"@).reply(),
        reply.status == 404,
        reply.content_type@ == "application/json"@,
        reply.body@ == encode_utf8(
            "{\"code\":"@ + quoted("bad_route"@) + ",\"msg\":"@ + quoted("not found"@) + "}"@,
        ),
        contents(reply.extensions) == Held::empty(),
{
    proof {
        lemma_plain_error_is_told(TwirpErrorCode::BadRoute, "not found"@);
    }
    bad_route("not found").into_response()
}

/// What follows when the body of a request was read, or could not be read: the body is decoded
/// in the format of the exchange, or the request is refused.
pub open spec fn body_follows(
    exchange: Exchange,
    body: Result<Vec<u8>, String>,
    at: Moment,
    next: Result<(Exchange, Vec<u8>), Reply>,
) -> bool {
    match body {
        Ok(body) => next matches Ok(next) && next == (exchange.received(at), body),
        Err(cause) => next matches Err(reply) && reply@ == bad_request(cause@),
    }
}

/// What follows when the body of a request was decoded, or could not be decoded: the handler is
/// called with the message and all the extensions of the request, or the request is refused.
pub open spec fn message_follows<T>(
    exchange: Exchange,
    held: Held,
    decoded: Result<T, String>,
    at: Moment,
    next: Result<(Request<T>, Exchange), Reply>,
) -> bool {
    match decoded {
        Ok(message) => next matches Ok(next) && next.0@ == (MessageView {
            message,
            extensions: held,
        }) && next.1 == exchange.parsed(at),
        Err(cause) => next matches Err(reply) && reply@ == bad_request(cause@),
    }
}

/// The answer that a handler's outcome leads to, its message being encoded already. The cause is
/// given where the message could not be encoded.
pub open spec fn written_response(
    outcome: Result<MessageView<Result<Seq<u8>, Seq<char>>>, ErrorView>,
    format: BodyFormat,
) -> Result<ReplyView, Seq<char>> {
    match outcome {
        Ok(response) => match response.message {
            Ok(body) => Ok(
                ReplyView {
                    status: 200,
                    content_type: content_type_of(format),
                    body,
                    extensions: response.extensions,
                },
            ),
            Err(cause) => Err(cause),
        },
        Err(error) => Ok(error.reply()),
    }
}

/// The answer that is sent: the one that was written, with the timings of the exchange among its
/// extensions, or an error where none could be written.
pub open spec fn final_reply(
    exchange: Exchange,
    written: Result<ReplyView, Seq<char>>,
    at: Moment,
) -> ReplyView {
    match written {
        Ok(reply) => ReplyView {
            extensions: with_timings(reply.extensions, exchange.written(at).timings),
            ..reply
        },
        Err(cause) => bad_response(cause),
    }
}

/// The mathematical content of an encoded message, or of the reason why there is none.
pub open spec fn encoded_view(encoded: Result<Vec<u8>, String>) -> Result<Seq<u8>, Seq<char>> {
    match encoded {
        Ok(body) => Ok(body@),
        Err(cause) => Err(cause@),
    }
}

/// The mathematical content of a handler's outcome whose message is encoded.
pub open spec fn outcome_view(
    outcome: Result<Response<Result<Vec<u8>, String>>, TwirpErrorResponse>,
) -> Result<MessageView<Result<Seq<u8>, Seq<char>>>, ErrorView> {
    match outcome {
        Ok(response) => Ok(
            MessageView {
                message: encoded_view(response@.message),
                extensions: response@.extensions,
            },
        ),
        Err(error) => Err(error@),
    }
}

/// The mathematical content of a written answer, or of the reason why there is none.
pub open spec fn written_view(written: Result<Reply, String>) -> Result<ReplyView, Seq<char>> {
    match written {
        Ok(reply) => Ok(reply@),
        Err(cause) => Err(cause@),
    }
}

/// Begins an exchange at the given moment, on a request with the given headers and extensions.
pub fn begin_request_at(
    headers: &http::HeaderMap,
    extensions: &http::Extensions,
    now: Moment,
) -> (exchange: Exchange)
    ensures
        exchange == Exchange::begun(
            first_value(fields_of(*headers), "content-type"@),
            contents(*extensions),
            now,
        ),
{
    let timings = match get_timings(extensions) {
        Some(timings) => timings,
        None => Timings::new(now),
    };
    Exchange { format: BodyFormat::from_content_type(headers), timings }
}

/// Begins an exchange on a request with the given headers and extensions.
pub fn begin_request(
    headers: &http::HeaderMap,
    extensions: &http::Extensions,
    clock: &mut Clock,
) -> (exchange: Exchange)
    ensures
        exchange == Exchange::begun(
            first_value(fields_of(*headers), "content-type"@),
            contents(*extensions),
            final(clock).last_reading(),
        ),
        old(clock).last_reading().nanos <= final(clock).last_reading().nanos,
{
    begin_request_at(headers, extensions, clock.now())
}

/// Goes on with an exchange once the body of the request was read, at the given moment, or
/// could not be read: hands out the body to be decoded in the format of the exchange, or the
/// answer to send.
pub fn receive_body_at(exchange: Exchange, body: Result<Vec<u8>, String>, at: Moment) -> (next:
    Result<(Exchange, Vec<u8>), Reply>)
    ensures
        body_follows(exchange, body, at, next),
{
    match body {
        Ok(body) => {
            let mut exchange = exchange;
            exchange.timings.set_received_at(at);
            Ok((exchange, body))
        },
        Err(cause) => Err(refuse_request(cause)),
    }
}

/// Goes on with an exchange once the body of the request was read or could not be read: hands
/// out the body to be decoded in the format of the exchange, or the answer to send. The
/// moment is a reading of the clock.
pub fn receive_body(exchange: Exchange, body: Result<Vec<u8>, String>, clock: &mut Clock) -> (next:
    Result<(Exchange, Vec<u8>), Reply>)
    ensures
        body_follows(exchange, body, final(clock).last_reading(), next),
        old(clock).last_reading().nanos <= final(clock).last_reading().nanos,
{
    receive_body_at(exchange, body, clock.now())
}

/// Goes on with an exchange once the body of the request was decoded, at the given moment, or
/// could not be decoded: hands out the request to call the handler with, or the answer to send.
pub fn parse_request_at<T>(
    exchange: Exchange,
    extensions: http::Extensions,
    decoded: Result<T, String>,
    at: Moment,
) -> (next: Result<(Request<T>, Exchange), Reply>)
    ensures
        message_follows(exchange, contents(extensions), decoded, at, next),
{
    match decoded {
        Ok(message) => {
            let mut exchange = exchange;
            exchange.timings.set_parsed_at(at);
            let mut request = Request::new(message);
            request.extensions_mut().extend(extensions);
            assert(Held::empty().union_prefer_right(contents(extensions)) == contents(extensions));
            Ok((request, exchange))
        },
        Err(cause) => Err(refuse_request(cause)),
    }
}

/// Goes on with an exchange once the body of the request was decoded or could not be decoded:
/// hands out the request to call the handler with, or the answer to send. The moment is a
/// reading of the clock.
pub fn parse_request<T>(
    exchange: Exchange,
    extensions: http::Extensions,
    decoded: Result<T, String>,
    clock: &mut Clock,
) -> (next: Result<(Request<T>, Exchange), Reply>)
    ensures
        message_follows(
            exchange,
            contents(extensions),
            decoded,
            final(clock).last_reading(),
            next,
        ),
        old(clock).last_reading().nanos <= final(clock).last_reading().nanos,
{
    parse_request_at(exchange, extensions, decoded, clock.now())
}

/// Goes on with an exchange once the handler returned, at the given moment. Its message, if
/// there is one, is to be encoded in the format of the exchange.
pub fn handler_returned_at(exchange: Exchange, at: Moment) -> (next: Exchange)
    ensures
        next == exchange.handled(at),
{
    let mut exchange = exchange;
    exchange.timings.set_response_handled_at(at);
    exchange
}

/// Goes on with an exchange once the handler returned. Its message, if there is one, is to be
/// encoded in the format of the exchange. The moment is a reading of the clock.
pub fn handler_returned(exchange: Exchange, clock: &mut Clock) -> (next: Exchange)
    ensures
        next == exchange.handled(final(clock).last_reading()),
        old(clock).last_reading().nanos <= final(clock).last_reading().nanos,
{
    handler_returned_at(exchange, clock.now())
}

/// Writes the answer that a handler's outcome leads to, in the given format. The message of a
/// response is encoded already; where that failed, there is no answer and the cause is handed
/// out.
pub fn write_response(
    response: Result<Response<Result<Vec<u8>, String>>, TwirpErrorResponse>,
    response_format: BodyFormat,
) -> (written: Result<Reply, String>)
    ensures
        written_view(written) == written_response(outcome_view(response), response_format),
        match response {
            Ok(response) => match response@.message {
                Ok(body) => {
                    &&& written is Ok
                    &&& written->Ok_0.status == 200
                    &&& written->Ok_0.content_type@ == match response_format {
                        BodyFormat::Pb => "application/protobuf"@,
                        BodyFormat::JsonPb => "application/json"@,
                    }
                    &&& written->Ok_0.body@ == body@
                    &&& contents(written->Ok_0.extensions) == response@.extensions
                },
                Err(cause) => written is Err && written->Err_0@ == cause@,
            },
            Err(error) => {
                &&& written is Ok
                &&& written->Ok_0.status == error.code.status()
                &&& written->Ok_0.content_type@ == "application/json"@
                &&& written->Ok_0.body@ == encode_utf8(error@.json())
                &&& contents(written->Ok_0.extensions) == Held::empty()
            },
        },
{
    match response {
        Ok(response) => {
            let (encoded, response_extensions) = response.into_parts();
            match encoded {
                Ok(body) => {
                    let mut extensions = http::Extensions::new();
                    extensions.extend(response_extensions);
                    assert(Held::empty().union_prefer_right(contents(response_extensions))
                        == contents(response_extensions));
                    let content_type = match response_format {
                        BodyFormat::Pb => CONTENT_TYPE_PROTOBUF,
                        BodyFormat::JsonPb => CONTENT_TYPE_JSON,
                    };
                    Ok(Reply { status: 200, content_type, body, extensions })
                },
                Err(cause) => Err(cause),
            }
        },
        Err(error) => Ok(error.into_response()),
    }
}

/// Ends an exchange whose answer was written at the given moment, or could not be written: hands
/// out the answer to send.
pub fn finish_response_at(exchange: Exchange, written: Result<Reply, String>, at: Moment) -> (reply:
    Reply)
    ensures
        reply@ == final_reply(exchange, written_view(written), at),
        written matches Ok(answer) ==> {
            &&& reply.status == answer.status
            &&& reply.content_type@ == answer.content_type@
            &&& reply.body@ == answer.body@
            &&& contents(reply.extensions) == contents(answer.extensions).insert(
                Slot::Timings,
                Stored::Timings(Timings { response_written: Some(at), ..exchange.timings }),
            )
        },
{
    match written {
        Ok(reply) => {
            let mut reply = reply;
            let mut exchange = exchange;
            exchange.timings.set_response_written_at(at);
            insert_timings(&mut reply.extensions, exchange.timings);
            reply
        },
        Err(cause) => refuse_response(cause),
    }
}

/// Ends an exchange whose answer was written or could not be written: hands out the answer to
/// send. The moment is a reading of the clock.
pub fn finish_response(exchange: Exchange, written: Result<Reply, String>, clock: &mut Clock) -> (reply:
    Reply)
    ensures
        reply@ == final_reply(exchange, written_view(written), final(clock).last_reading()),
        old(clock).last_reading().nanos <= final(clock).last_reading().nanos,
{
    finish_response_at(exchange, written, clock.now())
}

/// The moments of an exchange: its beginning, and the ends of its four phases.
pub struct Moments {
    pub begun: Moment,
    pub received: Moment,
    pub parsed: Moment,
    pub handled: Moment,
    pub written: Moment,
}

impl Moments {
    /// No moment is before the one that it follows.
    pub open spec fn in_order(self) -> bool {
        self.begun.nanos <= self.received.nanos <= self.parsed.nanos <= self.handled.nanos
            <= self.written.nanos
    }
}

/// Whether `reply` can be what is sent when `written` was written: the moment of writing was read
/// with the written answer at hand.
pub open spec fn sends_written(
    exchange: Exchange,
    written: Result<ReplyView, Seq<char>>,
    at: Moment,
    reply: ReplyView,
) -> bool {
    exists|answer: Result<Reply, String>|
        {
            &&& #[trigger] read_with(answer, at)
            &&& written_view(answer) == written
            &&& reply == final_reply(exchange, written, at)
        }
}

/// Whether `reply` can answer a request of which `message` was decoded: it comes from calling
/// the handler with the message and the extensions of the request, and from encoding the
/// handler's message, if there is one, in the format of the exchange. The moment of the handler's
/// return was read with its outcome at hand.
pub open spec fn answers_message<Req, Resp, F, E>(
    exchange: Exchange,
    held: Held,
    message: Req,
    handler: F,
    encode: E,
    at: Moments,
    reply: ReplyView,
) -> bool where
    F: FnOnce(Request<Req>) -> Result<Response<Resp>, TwirpErrorResponse>,
    E: FnOnce(BodyFormat, Resp) -> Result<Vec<u8>, String>,
 {
    exists|request: Request<Req>, outcome: Result<Response<Resp>, TwirpErrorResponse>|
        {
            &&& request@ == (MessageView { message, extensions: held })
            &&& #[trigger] handler.ensures((request,), outcome)
            &&& read_with(outcome, at.handled)
            &&& match outcome {
                Ok(response) => exists|encoded: Result<Vec<u8>, String>|
                    {
                        &&& #[trigger] encode.ensures(
                            (exchange.format, response@.message),
                            encoded,
                        )
                        &&& sends_written(
                            exchange.parsed(at.parsed).handled(at.handled),
                            written_response(
                                Ok(
                                    MessageView {
                                        message: encoded_view(encoded),
                                        extensions: response@.extensions,
                                    },
                                ),
                                exchange.format,
                            ),
                            at.written,
                            reply,
                        )
                    },
                Err(error) => sends_written(
                    exchange.parsed(at.parsed).handled(at.handled),
                    Ok(error@.reply()),
                    at.written,
                    reply,
                ),
            }
        }
}

/// Whether `reply` can answer a request whose body was read: it comes from decoding the body in
/// the format of the exchange. The moment of parsing was read with what was decoded at hand: before
/// any handler got it.
pub open spec fn answers_body<Req, Resp, D, F, E>(
    exchange: Exchange,
    held: Held,
    body: Vec<u8>,
    decode: D,
    handler: F,
    encode: E,
    at: Moments,
    reply: ReplyView,
) -> bool where
    D: FnOnce(BodyFormat, Vec<u8>) -> Result<Req, String>,
    F: FnOnce(Request<Req>) -> Result<Response<Resp>, TwirpErrorResponse>,
    E: FnOnce(BodyFormat, Resp) -> Result<Vec<u8>, String>,
 {
    exists|decoded: Result<Req, String>|
        {
            &&& #[trigger] decode.ensures((exchange.format, body), decoded)
            &&& decoded is Ok ==> read_with(decoded, at.parsed)
            &&& match decoded {
                Ok(message) => answers_message(
                    exchange.received(at.received),
                    held,
                    message,
                    handler,
                    encode,
                    at,
                    reply,
                ),
                Err(cause) => reply == bad_request(cause@),
            }
        }
}

/// Whether `reply` can answer a request that came with the given content type and extensions. The
/// moment of receipt was read with the body at hand: before it was decoded.
pub open spec fn answers_request<Req, Resp, D, F, E>(
    content_type: Option<Seq<u8>>,
    held: Held,
    body: Result<Vec<u8>, String>,
    decode: D,
    handler: F,
    encode: E,
    at: Moments,
    reply: ReplyView,
) -> bool where
    D: FnOnce(BodyFormat, Vec<u8>) -> Result<Req, String>,
    F: FnOnce(Request<Req>) -> Result<Response<Resp>, TwirpErrorResponse>,
    E: FnOnce(BodyFormat, Resp) -> Result<Vec<u8>, String>,
 {
    match body {
        Ok(bytes) => read_with(body, at.received) && answers_body(
            Exchange::begun(content_type, held, at.begun),
            held,
            bytes,
            decode,
            handler,
            encode,
            at,
            reply,
        ),
        Err(cause) => reply == bad_request(cause@),
    }
}

/// Takes a request through its whole exchange, with a handler that does not wait: decodes the
/// body, calls the handler, and encodes the handler's message in the format of the request. The
/// moments of the exchange are readings of the clock, in order.
pub fn handle_request<Req, Resp, D, F, E>(
    headers: &http::HeaderMap,
    extensions: http::Extensions,
    body: Result<Vec<u8>, String>,
    decode: D,
    handler: F,
    encode: E,
    clock: &mut Clock,
) -> (reply: Reply) where
    D: FnOnce(BodyFormat, Vec<u8>) -> Result<Req, String>,
    F: FnOnce(Request<Req>) -> Result<Response<Resp>, TwirpErrorResponse>,
    E: FnOnce(BodyFormat, Resp) -> Result<Vec<u8>, String>,

    requires
        forall|format: BodyFormat, body: Vec<u8>| #[trigger] decode.requires((format, body)),
        forall|request: Request<Req>| #[trigger] handler.requires((request,)),
        forall|format: BodyFormat, message: Resp| #[trigger] encode.requires((format, message)),
    ensures
        exists|at: Moments|
            at.in_order() && old(clock).last_reading().nanos <= at.begun.nanos
                <= at.received.nanos <= at.parsed.nanos <= at.handled.nanos <= at.written.nanos
                <= final(clock).last_reading().nanos && #[trigger] answers_request(
                first_value(fields_of(*headers), "content-type"@),
                contents(extensions),
                body,
                decode,
                handler,
                encode,
                at,
                reply@,
            ),
{
    let ghost content_type = first_value(fields_of(*headers), "content-type"@);
    let ghost held = contents(extensions);
    let begun = clock.now();
    let exchange = begin_request_at(headers, &extensions, begun);
    let (body, received) = clock.stamp(body).into_parts();
    let ghost mut at = Moments {
        begun,
        received,
        parsed: received,
        handled: received,
        written: received,
    };
    let (exchange, bytes) = match receive_body_at(exchange, body, received) {
        Ok(next) => next,
        Err(reply) => {
            assert(answers_request(
                content_type,
                held,
                body,
                decode,
                handler,
                encode,
                at,
                reply@,
            ));
            return reply;
        },
    };
    let decoded = decode(exchange.format, bytes);
    let (decoded, parsed) = clock.stamp(decoded).into_parts();
    let (request, exchange) = match parse_request_at(exchange, extensions, decoded, parsed) {
        Ok(next) => next,
        Err(reply) => {
            assert(answers_request(
                content_type,
                held,
                body,
                decode,
                handler,
                encode,
                at,
                reply@,
            ));
            return reply;
        },
    };
    let outcome = handler(request);
    let (outcome, handled) = clock.stamp(outcome).into_parts();
    let exchange = handler_returned_at(exchange, handled);
    let encoded_outcome = match outcome {
        Ok(response) => {
            let (message, response_extensions) = response.into_parts();
            let mut encoded_response = Response::new(encode(exchange.format, message));
            encoded_response.extensions_mut().extend(response_extensions);
            assert(Held::empty().union_prefer_right(contents(response_extensions)) == contents(
                response_extensions,
            ));
            Ok(encoded_response)
        },
        Err(error) => Err(error),
    };
    let answer = write_response(encoded_outcome, exchange.format);
    let (answer, written) = clock.stamp(answer).into_parts();
    let reply = finish_response_at(exchange, answer, written);
    proof {
        at = Moments { begun, received, parsed, handled, written };
        assert(read_with(body, received));
        assert(read_with(decoded, parsed));
        assert(read_with(outcome, handled));
        assert(read_with(answer, written));
        assert(answers_request(
            content_type,
            held,
            body,
            decode,
            handler,
            encode,
            at,
            reply@,
        ));
    }
    reply
}

/// A body is taken for Protocol Buffers just where its content type is, to the letter and without
/// anything behind it, `application/protobuf`; a body with any other content type, or with none,
/// is taken for JSON.
pub proof fn lemma_only_protobuf_is_protobuf(content_type: Option<Seq<u8>>)
    ensures
        content_type == Some(encode_utf8("application/protobuf"@)) ==> format_of(content_type)
            == BodyFormat::Pb,
        content_type != Some(encode_utf8("application/protobuf"@)) ==> format_of(content_type)
            == BodyFormat::JsonPb,
{
}

/// How an exchange went.
pub enum Course<Req, Resp> {
    /// The body could not be read.
    Unread { cause: String },
    /// The body could not be decoded.
    Undecoded { cause: String },
    /// The handler gave an error.
    Refused { message: Req, request: Request<Req>, error: TwirpErrorResponse, answer: Reply },
    /// The handler's message could not be encoded.
    Unencoded { message: Req, request: Request<Req>, response: Response<Resp>, cause: String },
    /// The handler's message was encoded.
    Answered {
        message: Req,
        request: Request<Req>,
        response: Response<Resp>,
        encoded: Vec<u8>,
        answer: Reply,
    },
}

/// The values that an exchange came by, each with the reading of the clock that was taken while it
/// was at hand.
pub struct Stamps<Req, Resp> {
    /// The body, or why it could not be read.
    pub received: Stamped<Result<Vec<u8>, String>>,
    /// What the decoder returned.
    pub decoded: Stamped<Result<Req, String>>,
    /// What the handler returned.
    pub outcome: Stamped<Result<Response<Resp>, TwirpErrorResponse>>,
    /// What was written.
    pub answer: Stamped<Result<Reply, String>>,
}

/// The course of an exchange whose message was decoded.
proof fn lemma_message_tells_the_course<Req, Resp, F, E>(
    exchange: Exchange,
    held: Held,
    message: Req,
    handler: F,
    encode: E,
    at: Moments,
    reply: ReplyView,
) -> (course: Course<Req, Resp>) where
    F: FnOnce(Request<Req>) -> Result<Response<Resp>, TwirpErrorResponse>,
    E: FnOnce(BodyFormat, Resp) -> Result<Vec<u8>, String>,

    requires
        answers_message(exchange, held, message, handler, encode, at, reply),
    ensures
        match course {
            Course::Refused { message: told, request, error, answer } => {
                &&& told == message
                &&& request@ == (MessageView { message, extensions: held })
                &&& handler.ensures((request,), Err(error))
                &&& read_with(Err::<Response<Resp>, TwirpErrorResponse>(error), at.handled)
                &&& read_with(Ok::<Reply, String>(answer), at.written)
                &&& answer@ == error@.reply()
                &&& reply == final_reply(
                    exchange.parsed(at.parsed).handled(at.handled),
                    Ok(answer@),
                    at.written,
                )
            },
            Course::Unencoded { message: told, request, response, cause } => {
                &&& told == message
                &&& request@ == (MessageView { message, extensions: held })
                &&& handler.ensures((request,), Ok(response))
                &&& read_with(Ok::<Response<Resp>, TwirpErrorResponse>(response), at.handled)
                &&& encode.ensures((exchange.format, response@.message), Err(cause))
                &&& reply == bad_response(cause@)
            },
            Course::Answered { message: told, request, response, encoded, answer } => {
                &&& told == message
                &&& request@ == (MessageView { message, extensions: held })
                &&& handler.ensures((request,), Ok(response))
                &&& read_with(Ok::<Response<Resp>, TwirpErrorResponse>(response), at.handled)
                &&& encode.ensures((exchange.format, response@.message), Ok(encoded))
                &&& read_with(Ok::<Reply, String>(answer), at.written)
                &&& answer@ == (ReplyView {
                    status: 200,
                    content_type: content_type_of(exchange.format),
                    body: encoded@,
                    extensions: response@.extensions,
                })
                &&& reply == final_reply(
                    exchange.parsed(at.parsed).handled(at.handled),
                    Ok(answer@),
                    at.written,
                )
            },
            _ => false,
        },
{
    let done = exchange.parsed(at.parsed).handled(at.handled);
    let (request, outcome) = choose|
        request: Request<Req>,
        outcome: Result<Response<Resp>, TwirpErrorResponse>,
    |
        {
            &&& request@ == (MessageView { message, extensions: held })
            &&& #[trigger] handler.ensures((request,), outcome)
            &&& read_with(outcome, at.handled)
            &&& match outcome {
                Ok(response) => exists|encoded: Result<Vec<u8>, String>|
                    {
                        &&& #[trigger] encode.ensures(
                            (exchange.format, response@.message),
                            encoded,
                        )
                        &&& sends_written(
                            done,
                            written_response(
                                Ok(
                                    MessageView {
                                        message: encoded_view(encoded),
                                        extensions: response@.extensions,
                                    },
                                ),
                                exchange.format,
                            ),
                            at.written,
                            reply,
                        )
                    },
                Err(error) => sends_written(done, Ok(error@.reply()), at.written, reply),
            }
        };
    match outcome {
        Err(error) => {
            let answer = choose|answer: Result<Reply, String>|
                #[trigger] read_with(answer, at.written) && written_view(answer)
                    == Ok::<ReplyView, Seq<char>>(error@.reply());
            Course::Refused { message, request, error, answer: answer->Ok_0 }
        },
        Ok(response) => {
            let encoded = choose|encoded: Result<Vec<u8>, String>|
                {
                    &&& #[trigger] encode.ensures((exchange.format, response@.message), encoded)
                    &&& sends_written(
                        done,
                        written_response(
                            Ok(
                                MessageView {
                                    message: encoded_view(encoded),
                                    extensions: response@.extensions,
                                },
                            ),
                            exchange.format,
                        ),
                        at.written,
                        reply,
                    )
                };
            match encoded {
                Err(cause) => Course::Unencoded { message, request, response, cause },
                Ok(encoded) => {
                    let written = ReplyView {
                        status: 200,
                        content_type: content_type_of(exchange.format),
                        body: encoded@,
                        extensions: response@.extensions,
                    };
                    let answer = choose|answer: Result<Reply, String>|
                        #[trigger] read_with(answer, at.written) && written_view(answer)
                            == Ok::<ReplyView, Seq<char>>(written);
                    Course::Answered {
                        message,
                        request,
                        response,
                        encoded,
                        answer: answer->Ok_0,
                    }
                },
            }
        },
    }
}

/// Every answer comes of one of five courses. Each of them calls the decoder with the body that was
/// read, the handler with the message that was decoded and all the extensions of the request, and
/// the encoder with the message that the handler gave, as far as it comes, and reads the clock as
/// soon as each of them has returned, while what it returned is still at hand. A message that was
/// encoded is sent as it is, whatever its length, with the handler's extensions and the timings;
/// an error of the handler is sent with the timings; and every other course ends with an error
/// that names its cause.
pub proof fn lemma_answer_tells_the_course<Req, Resp, D, F, E>(
    content_type: Option<Seq<u8>>,
    format: BodyFormat,
    held: Held,
    body: Result<Vec<u8>, String>,
    decode: D,
    handler: F,
    encode: E,
    at: Moments,
    reply: ReplyView,
) -> (told: (Course<Req, Resp>, Stamps<Req, Resp>)) where
    D: FnOnce(BodyFormat, Vec<u8>) -> Result<Req, String>,
    F: FnOnce(Request<Req>) -> Result<Response<Resp>, TwirpErrorResponse>,
    E: FnOnce(BodyFormat, Resp) -> Result<Vec<u8>, String>,

    requires
        answers_request(content_type, held, body, decode, handler, encode, at, reply),
        format == BodyFormat::Pb <==> content_type == Some(encode_utf8("application/protobuf"@)),
    ensures
        body is Err <==> told.0 is Unread,
        body is Ok ==> told.1.received.value() == body && told.1.received.at() == at.received,
        match told.0 {
            Course::Unread { cause } => {
                &&& body == Err::<Vec<u8>, String>(cause)
                &&& reply.status == 400
                &&& reply.content_type == "application/json"@
                &&& reply.body == encode_utf8(
                    "{\"code\":"@ + quoted("malformed"@) + ",\"msg\":"@ + quoted("bad request"@)
                        + ",\"meta\":{"@ + quoted("error"@) + ":"@ + quoted(cause@) + "}"@ + "}"@,
                )
                &&& reply.extensions == Held::empty()
            },
            Course::Undecoded { cause } => {
                &&& decode.ensures((format, body->Ok_0), Err(cause))
                &&& reply.status == 400
                &&& reply.content_type == "application/json"@
                &&& reply.body == encode_utf8(
                    "{\"code\":"@ + quoted("malformed"@) + ",\"msg\":"@ + quoted("bad request"@)
                        + ",\"meta\":{"@ + quoted("error"@) + ":"@ + quoted(cause@) + "}"@ + "}"@,
                )
                &&& reply.extensions == Held::empty()
            },
            Course::Refused { message, request, error, answer } => {
                &&& decode.ensures((format, body->Ok_0), Ok(message))
                &&& told.1.decoded.value() == Ok::<Req, String>(message)
                &&& told.1.decoded.at() == at.parsed
                &&& request@.message == message
                &&& request@.extensions == held
                &&& handler.ensures((request,), Err(error))
                &&& told.1.outcome.value() == Err::<Response<Resp>, TwirpErrorResponse>(error)
                &&& told.1.outcome.at() == at.handled
                &&& told.1.answer.value() == Ok::<Reply, String>(answer)
                &&& told.1.answer.at() == at.written
                &&& answer.body@ == reply.body
                &&& reply.status == error.code.status()
                &&& reply.content_type == "application/json"@
                &&& reply.body == encode_utf8(error@.json())
                &&& reply.extensions.remove(Slot::Timings) == Held::empty()
            },
            Course::Unencoded { message, request, response, cause } => {
                &&& decode.ensures((format, body->Ok_0), Ok(message))
                &&& told.1.decoded.value() == Ok::<Req, String>(message)
                &&& told.1.decoded.at() == at.parsed
                &&& request@.message == message
                &&& request@.extensions == held
                &&& handler.ensures((request,), Ok(response))
                &&& told.1.outcome.value() == Ok::<Response<Resp>, TwirpErrorResponse>(response)
                &&& told.1.outcome.at() == at.handled
                &&& encode.ensures((format, response@.message), Err(cause))
                &&& reply.status == 500
                &&& reply.content_type == "application/json"@
                &&& reply.body == encode_utf8(
                    "{\"code\":"@ + quoted("unknown"@) + ",\"msg\":"@ + quoted(
                        "error serializing response"@,
                    ) + ",\"meta\":{"@ + quoted("error"@) + ":"@ + quoted(cause@) + "}"@ + "}"@,
                )
                &&& reply.extensions == Held::empty()
            },
            Course::Answered { message, request, response, encoded, answer } => {
                &&& decode.ensures((format, body->Ok_0), Ok(message))
                &&& told.1.decoded.value() == Ok::<Req, String>(message)
                &&& told.1.decoded.at() == at.parsed
                &&& request@.message == message
                &&& request@.extensions == held
                &&& handler.ensures((request,), Ok(response))
                &&& told.1.outcome.value() == Ok::<Response<Resp>, TwirpErrorResponse>(response)
                &&& told.1.outcome.at() == at.handled
                &&& encode.ensures((format, response@.message), Ok(encoded))
                &&& told.1.answer.value() == Ok::<Reply, String>(answer)
                &&& told.1.answer.at() == at.written
                &&& answer.body@ == encoded@
                &&& reply.status == 200
                &&& reply.content_type == if format == BodyFormat::Pb {
                    "application/protobuf"@
                } else {
                    "application/json"@
                }
                &&& reply.body == encoded@
                &&& reply.extensions.remove(Slot::Timings) == response@.extensions.remove(
                    Slot::Timings,
                )
            },
        },
        told.0 is Refused || told.0 is Answered ==> reply.extensions.contains_key(Slot::Timings)
            && reply.extensions[Slot::Timings] == Stored::Timings(
            Timings {
                start: if held.contains_key(Slot::Timings) && held[Slot::Timings] is Timings {
                    held[Slot::Timings]->Timings_0.start
                } else {
                    at.begun
                },
                request_received: Some(at.received),
                request_parsed: Some(at.parsed),
                response_handled: Some(at.handled),
                response_written: Some(at.written),
            },
        ),
{
    let exchange = Exchange::begun(content_type, held, at.begun);
    assert(exchange.format == format);
    let received = choose|received: Stamped<Result<Vec<u8>, String>>|
        #![trigger received.value(), received.at()]
        received.value() == body && received.at() == at.received;
    let decoded = choose|decoded: Result<Req, String>|
        {
            &&& #[trigger] decode.ensures((exchange.format, body->Ok_0), decoded)
            &&& decoded is Ok ==> read_with(decoded, at.parsed)
            &&& match decoded {
                Ok(message) => answers_message(
                    exchange.received(at.received),
                    held,
                    message,
                    handler,
                    encode,
                    at,
                    reply,
                ),
                Err(cause) => reply == bad_request(cause@),
            }
        };
    let course = match (body, decoded) {
        (Err(cause), _) => Course::Unread { cause },
        (Ok(_), Err(cause)) => Course::Undecoded { cause },
        (Ok(_), Ok(message)) => lemma_message_tells_the_course::<Req, Resp, F, E>(
            exchange.received(at.received),
            held,
            message,
            handler,
            encode,
            at,
            reply,
        ),
    };
    match course {
        Course::Unread { cause } => {
            lemma_cause_is_told(TwirpErrorCode::Malformed, "bad request"@, cause@);
        },
        Course::Undecoded { cause } => {
            lemma_cause_is_told(TwirpErrorCode::Malformed, "bad request"@, cause@);
        },
        Course::Unencoded { cause, .. } => {
            lemma_cause_is_told(TwirpErrorCode::Unknown, "error serializing response"@, cause@);
        },
        _ => {},
    }
    let returned: Result<Response<Resp>, TwirpErrorResponse> = match course {
        Course::Refused { error, .. } => Err(error),
        Course::Unencoded { response, .. } => Ok(response),
        Course::Answered { response, .. } => Ok(response),
        _ => arbitrary(),
    };
    let written: Result<Reply, String> = match course {
        Course::Refused { answer, .. } => Ok(answer),
        Course::Answered { answer, .. } => Ok(answer),
        _ => arbitrary(),
    };
    let stamps = Stamps {
        received,
        decoded: choose|stamped: Stamped<Result<Req, String>>|
            #![trigger stamped.value(), stamped.at()]
            stamped.value() == decoded && stamped.at() == at.parsed,
        outcome: choose|stamped: Stamped<Result<Response<Resp>, TwirpErrorResponse>>|
            #![trigger stamped.value(), stamped.at()]
            stamped.value() == returned && stamped.at() == at.handled,
        answer: choose|stamped: Stamped<Result<Reply, String>>|
            #![trigger stamped.value(), stamped.at()]
            stamped.value() == written && stamped.at() == at.written,
    };
    (course, stamps)
}

/// A response is marked as being in the format of its request: its content type is one that a
/// request in that format comes with.
pub proof fn lemma_response_keeps_the_format(format: BodyFormat)
    ensures
        format_of(Some(encode_utf8(content_type_of(format)))) == format,
        content_type_of(BodyFormat::Pb) == "application/protobuf"@,
        content_type_of(BodyFormat::JsonPb) == "application/json"@,
{
    reveal_strlit("application/json");
    reveal_strlit("application/protobuf");
    if format == BodyFormat::JsonPb {
        vstd::utf8::encode_utf8_decode_utf8(CONTENT_TYPE_JSON@);
        vstd::utf8::encode_utf8_decode_utf8(CONTENT_TYPE_PROTOBUF@);
        assert(CONTENT_TYPE_JSON@.len() != CONTENT_TYPE_PROTOBUF@.len());
    }
}

/// A success is answered in the format of the request and everything else in JSON: whatever the
/// body, the decoder, the handler and the encoder are, an answer with the status code 200 has the
/// content type of the request's format, and any other answer tells of an error in JSON.
pub proof fn lemma_answer_is_readable<Req, Resp, D, F, E>(
    content_type: Option<Seq<u8>>,
    held: Held,
    body: Result<Vec<u8>, String>,
    decode: D,
    handler: F,
    encode: E,
    at: Moments,
    reply: ReplyView,
) where
    D: FnOnce(BodyFormat, Vec<u8>) -> Result<Req, String>,
    F: FnOnce(Request<Req>) -> Result<Response<Resp>, TwirpErrorResponse>,
    E: FnOnce(BodyFormat, Resp) -> Result<Vec<u8>, String>,

    requires
        answers_request(content_type, held, body, decode, handler, encode, at, reply),
    ensures
        reply.status == 200 ==> reply.content_type == content_type_of(format_of(content_type)),
        reply.status != 200 ==> exists|error: ErrorView|
            {
                &&& reply.status == error.code.status()
                &&& reply.content_type == CONTENT_TYPE_JSON@
                &&& reply.body == (#[trigger] error.reply()).body
            },
{
}

/// The timings of an exchange that began with what was held, and that was carried to the end at
/// the given moments.
pub open spec fn timings_of(held: Held, at: Moments) -> Timings {
    Timings {
        start: match held_timings(held) {
            Some(timings) => timings.start,
            None => at.begun,
        },
        request_received: Some(at.received),
        request_parsed: Some(at.parsed),
        response_handled: Some(at.handled),
        response_written: Some(at.written),
    }
}

/// An exchange that is carried to the end is timed in full: a success, and any other answer that
/// carries extensions, carries timings in which every phase is known and the moments are in
/// order. The start is the one that came with the request, or the beginning of the exchange,
/// which is then not after the rest.
pub proof fn lemma_answer_carries_timings<Req, Resp, D, F, E>(
    content_type: Option<Seq<u8>>,
    held: Held,
    body: Result<Vec<u8>, String>,
    decode: D,
    handler: F,
    encode: E,
    at: Moments,
    reply: ReplyView,
) where
    D: FnOnce(BodyFormat, Vec<u8>) -> Result<Req, String>,
    F: FnOnce(Request<Req>) -> Result<Response<Resp>, TwirpErrorResponse>,
    E: FnOnce(BodyFormat, Resp) -> Result<Vec<u8>, String>,

    requires
        at.in_order(),
        answers_request(content_type, held, body, decode, handler, encode, at, reply),
    ensures
        reply.status == 200 || reply.extensions != Held::empty() ==> held_timings(reply.extensions)
            == Some(timings_of(held, at)),
        timings_of(held, at).start.nanos <= at.received.nanos ==> timings_of(
            held,
            at,
        ).complete_in_order(),
        held_timings(held) is None ==> timings_of(held, at).complete_in_order(),
{
}

/// Timing a response changes nothing else of it: the status, the content type, the body and
/// every other extension stay as the handler's outcome made them.
pub proof fn lemma_timing_changes_nothing_else(
    exchange: Exchange,
    reply: ReplyView,
    at: Moment,
    slot: Slot,
)
    ensures
        ({
            let sent = final_reply(exchange, Ok(reply), at);
            &&& sent.status == reply.status
            &&& sent.content_type == reply.content_type
            &&& sent.body == reply.body
            &&& slot != Slot::Timings ==> {
                &&& sent.extensions.contains_key(slot) == reply.extensions.contains_key(slot)
                &&& sent.extensions.contains_key(slot) ==> sent.extensions[slot]
                    == reply.extensions[slot]
            }
        }),
{
}

/// A request that cannot be read and one that cannot be decoded are refused alike: with the
/// status code 400 and a JSON error that names the cause, before any handler is called, and
/// whatever the format of the request.
pub proof fn lemma_bad_requests_are_refused_alike<T>(
    exchange: Exchange,
    held: Held,
    cause: String,
    at: Moment,
    unread: Result<(Exchange, Vec<u8>), Reply>,
    undecoded: Result<(Request<T>, Exchange), Reply>,
)
    requires
        body_follows(exchange, Err(cause), at, unread),
        message_follows(exchange, held, Err(cause), at, undecoded),
    ensures
        unread is Err,
        undecoded is Err,
        unread->Err_0@ == undecoded->Err_0@,
        unread->Err_0@.status == 400,
        unread->Err_0@.content_type == CONTENT_TYPE_JSON@,
        unread->Err_0@ == caused_error(
            TwirpErrorCode::Malformed,
            "bad request"@,
            cause@,
        ).reply(),
{
}

/// Every answer is a success or tells of an error by its status code: a handler's message that
/// was encoded is answered with 200, its error with the status code of the error's kind, and a
/// message that could not be encoded with 500.
pub proof fn lemma_status_tells_the_outcome(
    exchange: Exchange,
    outcome: Result<MessageView<Result<Seq<u8>, Seq<char>>>, ErrorView>,
    at: Moment,
)
    ensures
        final_reply(exchange, written_response(outcome, exchange.format), at).status
            == match outcome {
            Ok(response) => if response.message is Ok {
                200
            } else {
                500
            },
            Err(error) => error.code.status(),
        },
{
}

/// An exchange begins in the format of its request, with the timings that came with the request or
/// else with new ones that start when it begins, and every step after that keeps the format and
/// records one moment, the one that it ends with.
pub proof fn lemma_steps_record_their_moments(
    exchange: Exchange,
    content_type: Option<Seq<u8>>,
    held: Held,
    at: Moment,
)
    ensures
        Exchange::begun(content_type, held, at).format == BodyFormat::Pb <==> content_type == Some(
            encode_utf8("application/protobuf"@),
        ),
        forall|timings: Timings|
            Exchange::begun(
                content_type,
                #[trigger] held.insert(Slot::Timings, Stored::Timings(timings)),
                at,
            ).timings == timings,
        Exchange::begun(content_type, held.remove(Slot::Timings), at).timings == (Timings {
            start: at,
            request_received: None,
            request_parsed: None,
            response_handled: None,
            response_written: None,
        }),
        exchange.received(at) == (Exchange {
            format: exchange.format,
            timings: Timings { request_received: Some(at), ..exchange.timings },
        }),
        exchange.parsed(at) == (Exchange {
            format: exchange.format,
            timings: Timings { request_parsed: Some(at), ..exchange.timings },
        }),
        exchange.handled(at) == (Exchange {
            format: exchange.format,
            timings: Timings { response_handled: Some(at), ..exchange.timings },
        }),
        exchange.written(at) == (Exchange {
            format: exchange.format,
            timings: Timings { response_written: Some(at), ..exchange.timings },
        }),
{
}

/// A body that was read is handed on as it is, with the moment of its receipt recorded, and one
/// that could not be read is never decoded: the client is told the cause.
pub proof fn lemma_body_is_handed_on(
    exchange: Exchange,
    body: Result<Vec<u8>, String>,
    at: Moment,
    next: Result<(Exchange, Vec<u8>), Reply>,
)
    requires
        body_follows(exchange, body, at, next),
    ensures
        match body {
            Ok(bytes) => {
                &&& next is Ok
                &&& next->Ok_0.1 == bytes
                &&& next->Ok_0.0.format == exchange.format
                &&& next->Ok_0.0.timings == (Timings {
                    request_received: Some(at),
                    ..exchange.timings
                })
            },
            Err(cause) => {
                &&& next is Err
                &&& next->Err_0.status == 400
                &&& next->Err_0.content_type@ == "application/json"@
                &&& next->Err_0.body@ == encode_utf8(
                    "{\"code\":"@ + quoted("malformed"@) + ",\"msg\":"@ + quoted("bad request"@)
                        + ",\"meta\":{"@ + quoted("error"@) + ":"@ + quoted(cause@) + "}"@ + "}"@,
                )
                &&& contents(next->Err_0.extensions) == Held::empty()
            },
        },
{
    if let Err(cause) = body {
        lemma_cause_is_told(TwirpErrorCode::Malformed, "bad request"@, cause@);
    }
}

/// A message that was decoded is handed to the handler as it is, with every extension of the
/// request and the moment of its parsing recorded, and a body that could not be decoded never gets
/// to a handler: the client is told the cause.
pub proof fn lemma_message_is_handed_on<T>(
    exchange: Exchange,
    held: Held,
    decoded: Result<T, String>,
    at: Moment,
    next: Result<(Request<T>, Exchange), Reply>,
)
    requires
        message_follows(exchange, held, decoded, at, next),
    ensures
        match decoded {
            Ok(message) => {
                &&& next is Ok
                &&& next->Ok_0.0@.message == message
                &&& next->Ok_0.0@.extensions == held
                &&& next->Ok_0.1.format == exchange.format
                &&& next->Ok_0.1.timings == (Timings {
                    request_parsed: Some(at),
                    ..exchange.timings
                })
            },
            Err(cause) => {
                &&& next is Err
                &&& next->Err_0.status == 400
                &&& next->Err_0.content_type@ == "application/json"@
                &&& next->Err_0.body@ == encode_utf8(
                    "{\"code\":"@ + quoted("malformed"@) + ",\"msg\":"@ + quoted("bad request"@)
                        + ",\"meta\":{"@ + quoted("error"@) + ":"@ + quoted(cause@) + "}"@ + "}"@,
                )
                &&& contents(next->Err_0.extensions) == Held::empty()
            },
        },
{
    if let Err(cause) = decoded {
        lemma_cause_is_told(TwirpErrorCode::Malformed, "bad request"@, cause@);
    }
}

/// A response whose message could not be encoded is answered with 500 and the cause, whatever the
/// format of the request.
pub proof fn lemma_unwritten_response_tells_the_cause(
    exchange: Exchange,
    cause: Seq<char>,
    at: Moment,
)
    ensures
        ({
            let sent = final_reply(exchange, Err(cause), at);
            &&& sent.status == 500
            &&& sent.content_type == "application/json"@
            &&& sent.body == encode_utf8(
                "{\"code\":"@ + quoted("unknown"@) + ",\"msg\":"@ + quoted(
                    "error serializing response"@,
                ) + ",\"meta\":{"@ + quoted("error"@) + ":"@ + quoted(cause) + "}"@ + "}"@,
            )
            &&& sent.extensions == Held::empty()
        }),
{
    lemma_cause_is_told(TwirpErrorCode::Unknown, "error serializing response"@, cause);
}

} // verus!
