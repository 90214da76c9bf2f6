//! Twirp errors.
use crate::extensions::Held;
use crate::headers::CONTENT_TYPE_JSON;
use crate::json::{lemma_quoted_is_unique, quote, quoted};
use crate::reply::{Reply, ReplyView};
use vstd::prelude::*;
use vstd::string::{StrSliceExecFns, StringExecFns};
use vstd::utf8::encode_utf8;

verus! {

/// The kinds of Twirp errors that the server and its services answer with.
#[derive(Debug, Clone, Copy, PartialEq, Eq, Structural)]
pub enum TwirpErrorCode {
    /// An error that has no more specific code.
    Unknown,
    /// The client sent an argument that no state of the system would make valid.
    InvalidArgument,
    /// The client sent a message that could not be decoded.
    Malformed,
    /// The requested URL path was not routable to a service and method.
    BadRoute,
    /// Something that the system relies on was broken.
    Internal,
}

impl TwirpErrorCode {
    /// The HTTP status code that an error of this kind is answered with.
    pub open spec fn status(self) -> u16 {
        match self {
            TwirpErrorCode::Unknown => 500,
            TwirpErrorCode::InvalidArgument => 400,
            TwirpErrorCode::Malformed => 400,
            TwirpErrorCode::BadRoute => 404,
            TwirpErrorCode::Internal => 500,
        }
    }

    /// The name of the kind in an error's JSON notation.
    pub open spec fn name(self) -> Seq<char> {
        match self {
            TwirpErrorCode::Unknown => "unknown"@,
            TwirpErrorCode::InvalidArgument => "invalid_argument"@,
            TwirpErrorCode::Malformed => "malformed"@,
            TwirpErrorCode::BadRoute => "bad_route"@,
            TwirpErrorCode::Internal => "internal"@,
        }
    }

    /// The HTTP status code that an error of this kind is answered with.
    pub fn http_status_code(&self) -> (status: u16)
        ensures
            status == self.status(),
    {
        match self {
            TwirpErrorCode::Unknown => 500,
            TwirpErrorCode::InvalidArgument => 400,
            TwirpErrorCode::Malformed => 400,
            TwirpErrorCode::BadRoute => 404,
            TwirpErrorCode::Internal => 500,
        }
    }

    /// The name of the kind in an error's JSON notation.
    pub fn as_str(&self) -> (name: &'static str)
        ensures
            name@ == self.name(),
    {
        match self {
            TwirpErrorCode::Unknown => "unknown",
            TwirpErrorCode::InvalidArgument => "invalid_argument",
            TwirpErrorCode::Malformed => "malformed",
            TwirpErrorCode::BadRoute => "bad_route",
            TwirpErrorCode::Internal => "internal",
        }
    }
}

/// Keyed texts, in the order in which their keys first came.
pub type Meta = Seq<(Seq<char>, Seq<char>)>;

/// Whether a key is in use.
pub open spec fn has_key(meta: Meta, key: Seq<char>) -> bool {
    exists|i: int| 0 <= i < meta.len() && (#[trigger] meta[i]).0 == key
}

/// No key is in use twice.
pub open spec fn keys_distinct(meta: Meta) -> bool {
    forall|i: int, j: int|
        0 <= i < j < meta.len() ==> (#[trigger] meta[i]).0 != (#[trigger] meta[j]).0
}

/// `meta` once `text` stands under `key`: in the place of the first text there, or at the end.
pub open spec fn with_meta(meta: Meta, key: Seq<char>, text: Seq<char>) -> Meta
    decreases meta.len(),
{
    if meta.len() == 0 {
        seq![(key, text)]
    } else if meta[0].0 == key {
        meta.update(0, (key, text))
    } else {
        seq![meta[0]] + with_meta(meta.skip(1), key, text)
    }
}

/// The first text under a key.
pub open spec fn meta_text(meta: Meta, key: Seq<char>) -> Option<Seq<char>>
    decreases meta.len(),
{
    if meta.len() == 0 {
        None
    } else if meta[0].0 == key {
        Some(meta[0].1)
    } else {
        meta_text(meta.skip(1), key)
    }
}

/// A Twirp error, as a client is told of it.
#[derive(Debug)]
pub struct TwirpErrorResponse {
    /// What kind of error it is.
    pub code: TwirpErrorCode,
    /// What went wrong, in words.
    pub msg: String,
    /// Further information under keys.
    pub meta: Vec<(String, String)>,
}

/// The mathematical content of a [`TwirpErrorResponse`].
#[verifier::ext_equal]
pub struct ErrorView {
    pub code: TwirpErrorCode,
    pub msg: Seq<char>,
    pub meta: Meta,
}

/// The mathematical content of keyed texts.
pub open spec fn meta_view(meta: Seq<(String, String)>) -> Meta {
    Seq::new(meta.len(), |i: int| (meta[i].0@, meta[i].1@))
}

impl View for TwirpErrorResponse {
    type V = ErrorView;

    open spec fn view(&self) -> ErrorView {
        ErrorView { code: self.code, msg: self.msg@, meta: meta_view(self.meta@) }
    }
}

/// An error without further information.
pub open spec fn plain_error(code: TwirpErrorCode, msg: Seq<char>) -> ErrorView {
    ErrorView { code, msg, meta: Seq::empty() }
}

/// An error with one piece of further information, under the key `error`.
pub open spec fn caused_error(code: TwirpErrorCode, msg: Seq<char>, cause: Seq<char>) -> ErrorView {
    ErrorView { code, msg, meta: seq![("error"@, cause)] }
}

/// The JSON notation of keyed texts, without the braces around them.
pub open spec fn meta_json(meta: Meta) -> Seq<char>
    decreases meta.len(),
{
    if meta.len() == 0 {
        Seq::empty()
    } else {
        let rest = meta_json(meta.drop_last());
        let comma = if meta.len() == 1 {
            Seq::empty()
        } else {
            ","@
        };
        rest + comma + quoted(meta.last().0) + ":"@ + quoted(meta.last().1)
    }
}

impl ErrorView {
    /// The JSON notation of an error. The member for further information is there only where
    /// there is any.
    pub open spec fn json(self) -> Seq<char> {
        let meta = if self.meta.len() == 0 {
            Seq::empty()
        } else {
            ",\"meta\":{"@ + meta_json(self.meta) + "}"@
        };
        "{\"code\":"@ + quoted(self.code.name()) + ",\"msg\":"@ + quoted(self.msg) + meta + "}"@
    }

    /// The answer that tells a client of an error: its JSON notation, with the status code of its
    /// kind.
    pub open spec fn reply(self) -> ReplyView {
        ReplyView {
            status: self.code.status(),
            content_type: CONTENT_TYPE_JSON@,
            body: encode_utf8(self.json()),
            extensions: Held::empty(),
        }
    }
}

/// An error of the given kind.
fn new_error(code: TwirpErrorCode, msg: &str) -> (error: TwirpErrorResponse)
    ensures
        error@ == plain_error(code, msg@),
{
    let error = TwirpErrorResponse { code, msg: msg.to_owned(), meta: Vec::new() };
    assert(error@.meta == Meta::empty());
    error
}

/// An error that has no more specific kind.
pub fn unknown(msg: &str) -> (error: TwirpErrorResponse)
    ensures
        error@ == plain_error(TwirpErrorCode::Unknown, msg@),
{
    new_error(TwirpErrorCode::Unknown, msg)
}

/// The error of an argument that is never valid.
pub fn invalid_argument(msg: &str) -> (error: TwirpErrorResponse)
    ensures
        error@ == plain_error(TwirpErrorCode::InvalidArgument, msg@),
{
    new_error(TwirpErrorCode::InvalidArgument, msg)
}

/// The error of a message that could not be decoded.
pub fn malformed(msg: &str) -> (error: TwirpErrorResponse)
    ensures
        error@ == plain_error(TwirpErrorCode::Malformed, msg@),
{
    new_error(TwirpErrorCode::Malformed, msg)
}

/// The error of a path that leads to no method.
pub fn bad_route(msg: &str) -> (error: TwirpErrorResponse)
    ensures
        error@ == plain_error(TwirpErrorCode::BadRoute, msg@),
{
    new_error(TwirpErrorCode::BadRoute, msg)
}

/// The error of a broken system.
pub fn internal(msg: &str) -> (error: TwirpErrorResponse)
    ensures
        error@ == plain_error(TwirpErrorCode::Internal, msg@),
{
    new_error(TwirpErrorCode::Internal, msg)
}

/// Texts before the first use of a key do not matter to what comes to stand under it.
proof fn lemma_with_meta_behind(meta: Meta, start: int, key: Seq<char>, text: Seq<char>)
    requires
        0 <= start <= meta.len(),
        !has_key(meta.take(start), key),
    ensures
        with_meta(meta, key, text) == meta.take(start) + with_meta(meta.skip(start), key, text),
    decreases start,
{
    if start == 0 {
        assert(meta.skip(0) == meta);
        assert(meta.take(0) + with_meta(meta, key, text) == with_meta(meta, key, text));
    } else {
        let rest = meta.skip(1);
        assert(meta.take(start)[0] == meta[0]);
        assert forall|i: int| 0 <= i < start - 1 implies (#[trigger] rest.take(start - 1)[i]).0
            != key by {
            assert(meta.take(start)[i + 1] == rest.take(start - 1)[i]);
        }
        lemma_with_meta_behind(rest, start - 1, key, text);
        assert(rest.skip(start - 1) == meta.skip(start));
        assert(seq![meta[0]] + rest.take(start - 1) == meta.take(start));
        assert(seq![meta[0]] + (rest.take(start - 1) + with_meta(meta.skip(start), key, text))
            == meta.take(start) + with_meta(meta.skip(start), key, text));
    }
}

/// A key that was in use, and the new one, are the keys in use once a text was put under it.
proof fn lemma_with_meta_keys(meta: Meta, key: Seq<char>, text: Seq<char>, other: Seq<char>)
    ensures
        has_key(with_meta(meta, key, text), other) == (has_key(meta, other) || other == key),
    decreases meta.len(),
{
    let after = with_meta(meta, key, text);
    if meta.len() == 0 {
        assert(after[0].0 == key);
    } else if meta[0].0 == key {
        assert(after[0].0 == key);
        if has_key(meta, other) {
            let i = choose|i: int| 0 <= i < meta.len() && (#[trigger] meta[i]).0 == other;
            assert(after[i].0 == other);
        }
        if has_key(after, other) {
            let i = choose|i: int| 0 <= i < after.len() && (#[trigger] after[i]).0 == other;
            assert(meta[i].0 == other);
        }
    } else {
        let rest = meta.skip(1);
        let rest_after = with_meta(rest, key, text);
        lemma_with_meta_keys(rest, key, text, other);
        assert(after[0] == meta[0]);
        if has_key(meta, other) && meta[0].0 != other {
            let i = choose|i: int| 0 <= i < meta.len() && (#[trigger] meta[i]).0 == other;
            assert(rest[i - 1].0 == other);
        }
        if has_key(rest, other) {
            let i = choose|i: int| 0 <= i < rest.len() && (#[trigger] rest[i]).0 == other;
            assert(meta[i + 1].0 == other);
        }
        if has_key(rest_after, other) {
            let i = choose|i: int|
                0 <= i < rest_after.len() && (#[trigger] rest_after[i]).0 == other;
            assert(after[i + 1].0 == other);
        }
        if has_key(after, other) && after[0].0 != other {
            let i = choose|i: int| 0 <= i < after.len() && (#[trigger] after[i]).0 == other;
            assert(rest_after[i - 1].0 == other);
        }
    }
}

/// Putting a text under a key never brings a key into use twice.
proof fn lemma_with_meta_distinct(meta: Meta, key: Seq<char>, text: Seq<char>)
    requires
        keys_distinct(meta),
    ensures
        keys_distinct(with_meta(meta, key, text)),
    decreases meta.len(),
{
    let after = with_meta(meta, key, text);
    if meta.len() > 0 && meta[0].0 == key {
        assert forall|i: int, j: int| 0 <= i < j < after.len() implies (#[trigger] after[i]).0
            != (#[trigger] after[j]).0 by {
            assert(after[i].0 == meta[i].0 && after[j].0 == meta[j].0);
        }
    } else if meta.len() > 0 {
        let rest = meta.skip(1);
        let rest_after = with_meta(rest, key, text);
        assert forall|i: int, j: int| 0 <= i < j < rest.len() implies (#[trigger] rest[i]).0 != (
        #[trigger] rest[j]).0 by {
            assert(rest[i] == meta[i + 1] && rest[j] == meta[j + 1]);
        }
        lemma_with_meta_distinct(rest, key, text);
        lemma_with_meta_keys(rest, key, text, meta[0].0);
        assert(!has_key(rest, meta[0].0)) by {
            if has_key(rest, meta[0].0) {
                let i = choose|i: int| 0 <= i < rest.len() && (#[trigger] rest[i]).0 == meta[0].0;
                assert(meta[i + 1].0 == meta[0].0);
            }
        }
        assert forall|i: int, j: int| 0 <= i < j < after.len() implies (#[trigger] after[i]).0
            != (#[trigger] after[j]).0 by {
            assert(after[j] == rest_after[j - 1]);
            if i > 0 {
                assert(after[i] == rest_after[i - 1]);
            }
        }
    }
}

/// The text that was put under a key is the one found there, and every other key keeps the text
/// it had.
pub proof fn lemma_meta_round_trip(meta: Meta, key: Seq<char>, text: Seq<char>, other: Seq<char>)
    ensures
        meta_text(with_meta(meta, key, text), key) == Some(text),
        other != key ==> meta_text(with_meta(meta, key, text), other) == meta_text(meta, other),
    decreases meta.len(),
{
    let after = with_meta(meta, key, text);
    if meta.len() == 0 {
        assert(after.skip(1) == Meta::empty());
        assert(meta_text(after.skip(1), other) is None);
    } else if meta[0].0 == key {
        assert(after.skip(1) == meta.skip(1));
    } else {
        assert(after.skip(1) == with_meta(meta.skip(1), key, text));
        lemma_meta_round_trip(meta.skip(1), key, text, other);
    }
}

impl TwirpErrorResponse {
    /// Puts a text under a key, in the place of one that stands there already.
    pub fn insert_meta(&mut self, key: String, value: String)
        ensures
            final(self)@ == (ErrorView {
                meta: with_meta(old(self)@.meta, key@, value@),
                ..old(self)@
            }),
            keys_distinct(old(self)@.meta) ==> keys_distinct(final(self)@.meta),
    {
        let ghost before = self@.meta;
        proof {
            if keys_distinct(before) {
                lemma_with_meta_distinct(before, key@, value@);
            }
        }
        let mut i: usize = 0;
        while i < self.meta.len()
            invariant
                i <= self.meta.len(),
                self@ == old(self)@,
                before == self@.meta,
                !has_key(before.take(i as int), key@),
                keys_distinct(before) ==> keys_distinct(with_meta(before, key@, value@)),
            decreases self.meta.len() - i,
        {
            if self.meta[i].0 == key {
                proof {
                    lemma_with_meta_behind(before, i as int, key@, value@);
                    assert(before.skip(i as int)[0].0 == key@);
                    assert(before.take(i as int) + before.skip(i as int).update(0, (key@, value@))
                        == before.update(i as int, (key@, value@)));
                }
                self.meta.set(i, (key, value));
                assert(self@.meta == before.update(i as int, (key@, value@)));
                return;
            }
            proof {
                let next = before.take(i + 1);
                assert forall|j: int| 0 <= j < next.len() implies (#[trigger] next[j]).0 != key@ by {
                    if j < i {
                        assert(next[j] == before.take(i as int)[j]);
                    }
                }
            }
            i = i + 1;
        }
        proof {
            lemma_with_meta_behind(before, i as int, key@, value@);
            assert(before.take(i as int) == before);
            assert(before + seq![(key@, value@)] == before.push((key@, value@)));
        }
        self.meta.push((key, value));
        assert(self@.meta == before.push((key@, value@)));
    }

    /// The JSON notation of this error.
    pub fn to_json(&self) -> (json: String)
        ensures
            json@ == self@.json(),
    {
        let mut json = "{\"code\":".to_owned();
        json.append(quote(self.code.as_str()).as_str());
        json.append(",\"msg\":");
        json.append(quote(self.msg.as_str()).as_str());
        if self.meta.len() > 0 {
            json.append(",\"meta\":{");
            let ghost head = json@;
            let mut i: usize = 0;
            assert(json@ == head + meta_json(self@.meta.take(0)));
            while i < self.meta.len()
                invariant
                    i <= self.meta.len(),
                    json@ == head + meta_json(self@.meta.take(i as int)),
                decreases self.meta.len() - i,
            {
                let ghost next = self@.meta.take(i + 1);
                assert(next.drop_last() == self@.meta.take(i as int));
                if i > 0 {
                    json.append(",");
                }
                json.append(quote(self.meta[i].0.as_str()).as_str());
                json.append(":");
                json.append(quote(self.meta[i].1.as_str()).as_str());
                assert(json@ == head + meta_json(next));
                i = i + 1;
            }
            assert(self@.meta.take(i as int) == self@.meta);
            json.append("}");
        }
        json.append("}");
        assert(json@ == self@.json());
        json
    }

    /// The answer that tells a client of this error.
    pub fn into_response(self) -> (reply: Reply)
        ensures
            reply@ == self@.reply(),
    {
        let json = self.to_json();
        Reply {
            status: self.code.http_status_code(),
            content_type: CONTENT_TYPE_JSON,
            body: json.as_str().as_bytes_vec(),
            extensions: http::Extensions::new(),
        }
    }
}

/// Texts with one beginning are equal just where they go on alike.
proof fn lemma_same_head(head: Seq<char>, left: Seq<char>, right: Seq<char>)
    requires
        head + left == head + right,
    ensures
        left == right,
{
    assert(left == (head + left).skip(head.len() as int));
    assert(right == (head + right).skip(head.len() as int));
}

/// The JSON notation of keyed texts behind the first.
spec fn more_meta_json(meta: Meta) -> Seq<char>
    decreases meta.len(),
{
    if meta.len() == 0 {
        Seq::empty()
    } else {
        ","@ + quoted(meta[0].0) + ":"@ + quoted(meta[0].1) + more_meta_json(meta.skip(1))
    }
}

/// The last of some keyed texts can be written by itself.
proof fn lemma_more_meta_json_last(meta: Meta)
    requires
        meta.len() > 0,
    ensures
        more_meta_json(meta) == more_meta_json(meta.drop_last()) + ","@ + quoted(meta.last().0)
            + ":"@ + quoted(meta.last().1),
    decreases meta.len(),
{
    if meta.len() == 1 {
        assert(meta.skip(1) == Meta::empty());
        assert(meta.drop_last() == Meta::empty());
        assert(more_meta_json(Meta::empty()) == Seq::<char>::empty());
    } else {
        lemma_more_meta_json_last(meta.skip(1));
        assert(meta.skip(1).drop_last() == meta.drop_last().skip(1));
    }
}

/// The first of some keyed texts can be written by itself.
proof fn lemma_meta_json_first(meta: Meta)
    requires
        meta.len() > 0,
    ensures
        meta_json(meta) == quoted(meta[0].0) + ":"@ + quoted(meta[0].1) + more_meta_json(
            meta.skip(1),
        ),
    decreases meta.len(),
{
    if meta.len() == 1 {
        assert(meta.skip(1) == Meta::empty());
        assert(meta.drop_last() == Meta::empty());
        assert(meta_json(Meta::empty()) == Seq::<char>::empty());
        assert(more_meta_json(Meta::empty()) == Seq::<char>::empty());
    } else {
        lemma_meta_json_first(meta.drop_last());
        lemma_more_meta_json_last(meta.skip(1));
        assert(meta.skip(1).drop_last() == meta.drop_last().skip(1));
    }
}

/// A keyed text and what follows it can be told from every other.
proof fn lemma_pair_is_unique(
    left: (Seq<char>, Seq<char>),
    right: (Seq<char>, Seq<char>),
    after_left: Seq<char>,
    after_right: Seq<char>,
)
    requires
        quoted(left.0) + ":"@ + quoted(left.1) + after_left == quoted(right.0) + ":"@ + quoted(
            right.1,
        ) + after_right,
    ensures
        left == right,
        after_left == after_right,
{
    let value_left = quoted(left.1) + after_left;
    let value_right = quoted(right.1) + after_right;
    assert(quoted(left.0) + ":"@ + quoted(left.1) + after_left == quoted(left.0) + (":"@
        + value_left));
    assert(quoted(right.0) + ":"@ + quoted(right.1) + after_right == quoted(right.0) + (":"@
        + value_right));
    lemma_quoted_is_unique(left.0, right.0, ":"@ + value_left, ":"@ + value_right);
    lemma_same_head(":"@, value_left, value_right);
    lemma_quoted_is_unique(left.1, right.1, after_left, after_right);
}

/// Keyed texts behind the first can be told from their JSON notation, up to the closing braces.
proof fn lemma_more_meta_json_is_unique(left: Meta, right: Meta)
    requires
        more_meta_json(left) + "}}"@ == more_meta_json(right) + "}}"@,
    ensures
        left == right,
    decreases left.len(),
{
    reveal_strlit("}}");
    reveal_strlit(",");
    if left.len() == 0 {
        if right.len() > 0 {
            assert((more_meta_json(left) + "}}"@)[0] == '}');
            assert((more_meta_json(right) + "}}"@)[0] == ',');
        }
        assert(left == right);
    } else if right.len() == 0 {
        assert((more_meta_json(left) + "}}"@)[0] == ',');
        assert((more_meta_json(right) + "}}"@)[0] == '}');
    } else {
        let after_left = more_meta_json(left.skip(1)) + "}}"@;
        let after_right = more_meta_json(right.skip(1)) + "}}"@;
        let pairs_left = quoted(left[0].0) + ":"@ + quoted(left[0].1) + after_left;
        let pairs_right = quoted(right[0].0) + ":"@ + quoted(right[0].1) + after_right;
        assert(more_meta_json(left) + "}}"@ == ","@ + pairs_left);
        assert(more_meta_json(right) + "}}"@ == ","@ + pairs_right);
        lemma_same_head(","@, pairs_left, pairs_right);
        lemma_pair_is_unique(left[0], right[0], after_left, after_right);
        lemma_more_meta_json_is_unique(left.skip(1), right.skip(1));
        assert(left == seq![left[0]] + left.skip(1));
        assert(right == seq![right[0]] + right.skip(1));
    }
}

/// Kinds of errors differ in their names.
proof fn lemma_names_differ(left: TwirpErrorCode, right: TwirpErrorCode)
    requires
        left.name() == right.name(),
    ensures
        left == right,
{
    reveal_strlit("unknown");
    reveal_strlit("invalid_argument");
    reveal_strlit("malformed");
    reveal_strlit("bad_route");
    reveal_strlit("internal");
    if left != right {
        assert("unknown"@[0] == 'u');
        assert("invalid_argument"@[2] == 'v');
        assert("malformed"@[0] == 'm');
        assert("bad_route"@[0] == 'b');
        assert("internal"@[2] == 't');
        assert(left.name()[0] == right.name()[0]);
        assert(left.name()[2] == right.name()[2]);
    }
}

/// What follows the message in the JSON notation of an error.
spec fn after_msg(meta: Meta) -> Seq<char> {
    if meta.len() == 0 {
        "}"@
    } else {
        ",\"meta\":{"@ + (meta_json(meta) + "}}"@)
    }
}

/// An error's JSON notation begins with the quoted name of its kind and its quoted message.
proof fn lemma_json_parts(error: ErrorView)
    ensures
        error.json() == "{\"code\":"@ + (quoted(error.code.name()) + (",\"msg\":"@ + (quoted(
            error.msg,
        ) + after_msg(error.meta)))),
{
    reveal_strlit("}");
    reveal_strlit("}}");
    assert("}}"@ == "}"@ + "}"@);
    if error.meta.len() == 0 {
        assert(error.json() == "{\"code\":"@ + (quoted(error.code.name()) + (",\"msg\":"@ + (quoted(
            error.msg,
        ) + "}"@))));
    } else {
        assert(error.json() == "{\"code\":"@ + (quoted(error.code.name()) + (",\"msg\":"@ + (quoted(
            error.msg,
        ) + (",\"meta\":{"@ + (meta_json(error.meta) + "}}"@))))));
    }
}

/// A client can tell exactly which error it was answered with: errors that are answered with the
/// same body are of one kind, with the same message and the same further information.
pub proof fn lemma_answer_tells_the_error(left: ErrorView, right: ErrorView)
    requires
        left.reply().body == right.reply().body,
    ensures
        left == right,
{
    vstd::utf8::encode_utf8_decode_utf8(left.json());
    vstd::utf8::encode_utf8_decode_utf8(right.json());
    assert(left.json() == right.json());
    lemma_json_parts(left);
    lemma_json_parts(right);
    let msg_left = quoted(left.msg) + after_msg(left.meta);
    let msg_right = quoted(right.msg) + after_msg(right.meta);
    let code_left = quoted(left.code.name()) + (",\"msg\":"@ + msg_left);
    let code_right = quoted(right.code.name()) + (",\"msg\":"@ + msg_right);
    lemma_same_head("{\"code\":"@, code_left, code_right);
    lemma_quoted_is_unique(
        left.code.name(),
        right.code.name(),
        ",\"msg\":"@ + msg_left,
        ",\"msg\":"@ + msg_right,
    );
    lemma_names_differ(left.code, right.code);
    lemma_same_head(",\"msg\":"@, msg_left, msg_right);
    lemma_quoted_is_unique(left.msg, right.msg, after_msg(left.meta), after_msg(right.meta));
    reveal_strlit("}");
    reveal_strlit(",\"meta\":{");
    if left.meta.len() == 0 || right.meta.len() == 0 {
        assert(after_msg(left.meta)[0] == after_msg(right.meta)[0]);
        assert(left.meta == right.meta);
    } else {
        let pairs_left = meta_json(left.meta) + "}}"@;
        let pairs_right = meta_json(right.meta) + "}}"@;
        lemma_same_head(",\"meta\":{"@, pairs_left, pairs_right);
        lemma_meta_json_first(left.meta);
        lemma_meta_json_first(right.meta);
        let after_left = more_meta_json(left.meta.skip(1)) + "}}"@;
        let after_right = more_meta_json(right.meta.skip(1)) + "}}"@;
        assert(pairs_left == quoted(left.meta[0].0) + ":"@ + quoted(left.meta[0].1) + after_left);
        assert(pairs_right == quoted(right.meta[0].0) + ":"@ + quoted(right.meta[0].1)
            + after_right);
        lemma_pair_is_unique(left.meta[0], right.meta[0], after_left, after_right);
        lemma_more_meta_json_is_unique(left.meta.skip(1), right.meta.skip(1));
        assert(left.meta == seq![left.meta[0]] + left.meta.skip(1));
        assert(right.meta == seq![right.meta[0]] + right.meta.skip(1));
    }
}

/// An error with a cause is told with the status code of its kind and in JSON, with the cause
/// under the key `error` and nothing else beside it.
pub proof fn lemma_cause_is_told(code: TwirpErrorCode, msg: Seq<char>, cause: Seq<char>)
    ensures
        caused_error(code, msg, cause).reply().status == code.status(),
        caused_error(code, msg, cause).reply().content_type == "application/json"@,
        caused_error(code, msg, cause).reply().body == encode_utf8(
            "{\"code\":"@ + quoted(code.name()) + ",\"msg\":"@ + quoted(msg) + ",\"meta\":{"@ + quoted(
                "error"@,
            ) + ":"@ + quoted(cause) + "}"@ + "}"@,
        ),
        caused_error(code, msg, cause).reply().extensions == Held::empty(),
{
    let meta = caused_error(code, msg, cause).meta;
    assert(meta.drop_last() == Meta::empty());
    assert(meta_json(meta.drop_last()) == Seq::<char>::empty());
    assert(meta_json(meta) == quoted("error"@) + ":"@ + quoted(cause));
    assert(caused_error(code, msg, cause).json() == "{\"code\":"@ + quoted(code.name())
        + ",\"msg\":"@ + quoted(msg) + ",\"meta\":{"@ + quoted("error"@) + ":"@ + quoted(cause) + "}"@
        + "}"@);
}

/// An error without further information is told with the status code of its kind and in JSON, with
/// its kind and its message and nothing else.
pub proof fn lemma_plain_error_is_told(code: TwirpErrorCode, msg: Seq<char>)
    ensures
        plain_error(code, msg).reply().status == code.status(),
        plain_error(code, msg).reply().content_type == "application/json"@,
        plain_error(code, msg).reply().body == encode_utf8(
            "{\"code\":"@ + quoted(code.name()) + ",\"msg\":"@ + quoted(msg) + "}"@,
        ),
        plain_error(code, msg).reply().extensions == Held::empty(),
{
    assert(plain_error(code, msg).json() == "{\"code\":"@ + quoted(code.name()) + ",\"msg\":"@
        + quoted(msg) + "}"@);
}

/// Each kind of error has the status code and the name that the Twirp protocol gives it: no kind
/// but these has the code, and no code but this has the kind.
pub proof fn lemma_kinds_keep_to_the_protocol(code: TwirpErrorCode)
    ensures
        code.status() == 400 <==> code is InvalidArgument || code is Malformed,
        code.status() == 404 <==> code is BadRoute,
        code.status() == 500 <==> code is Unknown || code is Internal,
        code.name() == "invalid_argument"@ <==> code is InvalidArgument,
        code.name() == "malformed"@ <==> code is Malformed,
        code.name() == "bad_route"@ <==> code is BadRoute,
        code.name() == "unknown"@ <==> code is Unknown,
        code.name() == "internal"@ <==> code is Internal,
{
    if code.name() == "invalid_argument"@ {
        lemma_names_differ(code, TwirpErrorCode::InvalidArgument);
    }
    if code.name() == "malformed"@ {
        lemma_names_differ(code, TwirpErrorCode::Malformed);
    }
    if code.name() == "bad_route"@ {
        lemma_names_differ(code, TwirpErrorCode::BadRoute);
    }
    if code.name() == "unknown"@ {
        lemma_names_differ(code, TwirpErrorCode::Unknown);
    }
    if code.name() == "internal"@ {
        lemma_names_differ(code, TwirpErrorCode::Internal);
    }
}

/// The first piece of further information is written behind the message, under its key.
pub proof fn lemma_json_of_one_text(error: ErrorView, key: Seq<char>, text: Seq<char>)
    requires
        error.meta.len() == 0,
    ensures
        ({
            let more = ErrorView { meta: error.meta.push((key, text)), ..error };
            let without_end = error.json().take(error.json().len() - 1);
            &&& error.json() == without_end + "}"@
            &&& more.json() == without_end + ",\"meta\":{"@ + quoted(key) + ":"@ + quoted(text)
                + "}"@ + "}"@
        }),
{
    let more = ErrorView { meta: error.meta.push((key, text)), ..error };
    let head = "{\"code\":"@ + quoted(error.code.name()) + ",\"msg\":"@ + quoted(error.msg);
    reveal_strlit("}");
    assert(error.json() == head + "}"@);
    assert(error.json().take(error.json().len() - 1) == head);
    assert(more.meta.drop_last() == error.meta);
    assert(meta_json(error.meta) == Seq::<char>::empty());
    assert(meta_json(more.meta) == quoted(key) + ":"@ + quoted(text));
    assert(more.json() == head + ",\"meta\":{"@ + quoted(key) + ":"@ + quoted(text) + "}"@ + "}"@);
}

/// One piece of further information more is written behind the others, with nothing else changed.
pub proof fn lemma_json_grows_by_one_text(error: ErrorView, key: Seq<char>, text: Seq<char>)
    requires
        error.meta.len() > 0,
    ensures
        ({
            let more = ErrorView { meta: error.meta.push((key, text)), ..error };
            let without_end = error.json().take(error.json().len() - 2);
            &&& error.json() == without_end + "}"@ + "}"@
            &&& more.json() == without_end + ","@ + quoted(key) + ":"@ + quoted(text) + "}"@ + "}"@
        }),
{
    let more = ErrorView { meta: error.meta.push((key, text)), ..error };
    let head = "{\"code\":"@ + quoted(error.code.name()) + ",\"msg\":"@ + quoted(error.msg)
        + ",\"meta\":{"@ + meta_json(error.meta);
    reveal_strlit("}");
    assert(error.json() == head + "}"@ + "}"@);
    assert(error.json().take(error.json().len() - 2) == head);
    assert(more.meta.drop_last() == error.meta);
    assert(meta_json(more.meta) == meta_json(error.meta) + ","@ + quoted(key) + ":"@ + quoted(text));
    assert(more.json() == head + ","@ + quoted(key) + ":"@ + quoted(text) + "}"@ + "}"@);
}

/// A text that is put under a key changes nothing but what stands there: every key keeps its place,
/// and a new one comes behind all others.
pub proof fn lemma_keys_keep_their_places(meta: Meta, key: Seq<char>, text: Seq<char>)
    ensures
        has_key(meta, key) ==> with_meta(meta, key, text).len() == meta.len(),
        !has_key(meta, key) ==> with_meta(meta, key, text) == meta.push((key, text)),
        forall|i: int|
            0 <= i < meta.len() ==> with_meta(meta, key, text)[i].0 == (#[trigger] meta[i]).0,
        forall|i: int|
            0 <= i < meta.len() && (#[trigger] meta[i]).0 != key ==> with_meta(meta, key, text)[i]
                == meta[i],
    decreases meta.len(),
{
    if meta.len() > 0 && meta[0].0 != key {
        let rest = meta.skip(1);
        lemma_keys_keep_their_places(rest, key, text);
        if has_key(meta, key) {
            let i = choose|i: int| 0 <= i < meta.len() && (#[trigger] meta[i]).0 == key;
            assert(rest[i - 1].0 == key);
        } else {
            if has_key(rest, key) {
                let i = choose|i: int| 0 <= i < rest.len() && (#[trigger] rest[i]).0 == key;
                assert(meta[i + 1].0 == key);
            }
            assert(seq![meta[0]] + rest.push((key, text)) == meta.push((key, text)));
        }
        assert forall|i: int| 0 <= i < meta.len() implies with_meta(meta, key, text)[i].0 == (
        #[trigger] meta[i]).0 by {
            if i > 0 {
                assert(rest[i - 1] == meta[i]);
            }
        }
        assert forall|i: int| 0 <= i < meta.len() && (#[trigger] meta[i]).0 != key implies with_meta(
            meta,
            key,
            text,
        )[i] == meta[i] by {
            if i > 0 {
                assert(rest[i - 1] == meta[i]);
            }
        }
    }
}

/// Nothing of an error is left out of what is told of it: its kind, its message, and every key and
/// text, in order.
pub proof fn lemma_error_is_told_in_full(error: TwirpErrorResponse)
    ensures
        error@.code == error.code,
        error@.msg == error.msg@,
        error@.meta.len() == error.meta@.len(),
        forall|i: int|
            0 <= i < error.meta@.len() ==> error@.meta[i].0 == (#[trigger] error.meta@[i]).0@
                && error@.meta[i].1 == error.meta@[i].1@,
{
}

} // verus!
