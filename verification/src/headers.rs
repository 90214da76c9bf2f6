//! HTTP header names, values and maps.
use crate::decimal::decimal;
use vstd::prelude::*;
use vstd::utf8::encode_utf8;

verus! {

/// The content type of JSON bodies.
pub const CONTENT_TYPE_JSON: &'static str = "application/json";

/// The content type of Protocol Buffers bodies.
pub const CONTENT_TYPE_PROTOBUF: &'static str = "application/protobuf";

/// The header fields of a message: under each name, in lower case, the values that were sent
/// with it, in order.
pub type Fields = Map<Seq<char>, Seq<Seq<u8>>>;

/// A letter of the ASCII alphabet in lower case, and any other character as it is.
pub open spec fn lower_char(c: char) -> char {
    if 'A' <= c <= 'Z' {
        (c as int + 32) as char
    } else {
        c
    }
}

/// A header name in the form in which fields are kept.
pub open spec fn lower(name: Seq<char>) -> Seq<char> {
    Seq::new(name.len(), |i: int| lower_char(name[i]))
}

/// A header name of at most 64 ASCII letters, hyphens and underscores.
pub open spec fn is_plain_name(name: Seq<char>) -> bool {
    &&& 0 < name.len() <= 64
    &&& forall|i: int|
        0 <= i < name.len() ==> {
            ||| 'a' <= #[trigger] name[i] <= 'z'
            ||| 'A' <= name[i] <= 'Z'
            ||| name[i] == '-'
            ||| name[i] == '_'
        }
}

/// The first value that was sent under a name.
pub open spec fn first_value(fields: Fields, name: Seq<char>) -> Option<Seq<u8>> {
    if fields.contains_key(lower(name)) && fields[lower(name)].len() > 0 {
        Some(fields[lower(name)][0])
    } else {
        None
    }
}

/// Whether a byte of a header value is a visible ASCII character, a space or a tab.
pub open spec fn is_visible_ascii(byte: u8) -> bool {
    32 <= byte < 127 || byte == 9
}

/// A header value as text, where every byte of it is visible.
pub open spec fn value_text(bytes: Seq<u8>) -> Option<Seq<char>> {
    if forall|i: int| 0 <= i < bytes.len() ==> is_visible_ascii(#[trigger] bytes[i]) {
        Some(Seq::new(bytes.len(), |i: int| bytes[i] as char))
    } else {
        None
    }
}

/// `http::HeaderMap`, a map from header names to one or more values each.
#[verifier::external_type_specification]
#[verifier::external_body]
#[verifier::reject_recursive_types(T)]
pub struct ExHeaderMap<T>(http::HeaderMap<T>);

/// `http::HeaderValue`, the bytes of one header value.
#[verifier::external_type_specification]
#[verifier::external_body]
pub struct ExHeaderValue(http::HeaderValue);

/// `http::header::ToStrError`, which says nothing but that a value is not visible ASCII.
#[verifier::external_type_specification]
#[verifier::external_body]
pub struct ExToStrError(http::header::ToStrError);

/// `http::header::MaxSizeReached`, which says nothing but that a map is full.
#[verifier::external_type_specification]
#[verifier::external_body]
pub struct ExMaxSizeReached(http::header::MaxSizeReached);

/// The header fields that an `http::HeaderMap` holds.
pub uninterp spec fn fields_of(headers: http::HeaderMap<http::HeaderValue>) -> Fields;

/// The bytes of an `http::HeaderValue`, as `HeaderValue::as_bytes` returns them.
pub uninterp spec fn bytes_of(value: http::HeaderValue) -> Seq<u8>;

/// `http::HeaderValue::as_bytes` returns the bytes of the value.
pub assume_specification[ http::HeaderValue::as_bytes ](value: &http::HeaderValue) -> (bytes: &[u8])
    ensures
        bytes@ == bytes_of(*value),
;

/// `http::HeaderValue::to_str` returns the value as text where all its bytes are visible ASCII,
/// spaces or tabs, and an error otherwise.
pub assume_specification[ http::HeaderValue::to_str ](value: &http::HeaderValue) -> (text: Result<
    &str,
    http::header::ToStrError,
>)
    ensures
        match text {
            Ok(text) => value_text(bytes_of(*value)) == Some(text@),
            Err(_) => value_text(bytes_of(*value)) is None,
        },
;

/// Calls `http::HeaderValue::from` for an `i32`, which gives its decimal notation.
#[verifier::external_body]
pub(crate) fn decimal_value(number: i32) -> (value: http::HeaderValue)
    ensures
        bytes_of(value) == encode_utf8(decimal(number as int)),
{
    http::HeaderValue::from(number)
}

/// Calls `http::HeaderMap::get`, which finds the first value under a name, whatever the case of
/// the name's letters.
#[verifier::external_body]
pub(crate) fn get_header<'a>(headers: &'a http::HeaderMap, name: &str) -> (value: Option<
    &'a http::HeaderValue,
>)
    requires
        is_plain_name(name@),
    ensures
        match value {
            Some(value) => first_value(fields_of(*headers), name@) == Some(bytes_of(*value)),
            None => first_value(fields_of(*headers), name@) is None,
        },
{
    headers.get(name)
}

/// Calls `http::HeaderMap::try_insert`, after which the value is the only one under the name,
/// and which hands out the first one that stood there before. It refuses
/// a map that has no room for one name more, which no map of less than 6554 names is; the fields
/// then stay as they are.
#[verifier::external_body]
pub(crate) fn insert_header(
    headers: &mut http::HeaderMap,
    name: &'static str,
    value: http::HeaderValue,
) -> (inserted: Result<Option<http::HeaderValue>, http::header::MaxSizeReached>)
    requires
        is_plain_name(name@),
    ensures
        match inserted {
            Ok(previous) => {
                &&& fields_of(*final(headers)) == fields_of(*old(headers)).insert(
                    lower(name@),
                    seq![bytes_of(value)],
                )
                &&& match previous {
                    Some(previous) => first_value(fields_of(*old(headers)), name@) == Some(
                        bytes_of(previous),
                    ),
                    None => first_value(fields_of(*old(headers)), name@) is None,
                }
            },
            Err(_) => fields_of(*final(headers)) == fields_of(*old(headers)) && fields_of(
                *old(headers),
            ).len() >= 6554,
        },
{
    headers.try_insert(name, value)
}

/// Whether two rows of bytes are equal.
pub fn bytes_equal(left: &[u8], right: &[u8]) -> (equal: bool)
    ensures
        equal == (left@ == right@),
{
    if left.len() != right.len() {
        return false;
    }
    let mut i: usize = 0;
    while i < left.len()
        invariant
            i <= left.len(),
            left@.len() == right@.len(),
            left@.take(i as int) == right@.take(i as int),
        decreases left.len() - i,
    {
        if left[i] != right[i] {
            assert(left@[i as int] != right@[i as int]);
            return false;
        }
        assert(left@.take(i + 1) == left@.take(i as int).push(left@[i as int]));
        assert(right@.take(i + 1) == right@.take(i as int).push(right@[i as int]));
        i = i + 1;
    }
    assert(left@.take(i as int) == left@);
    assert(right@.take(i as int) == right@);
    true
}

/// A name is kept letter by letter: capitals of the ASCII alphabet in lower case, and everything
/// else as it is.
pub proof fn lemma_names_are_kept_in_lower_case(name: Seq<char>)
    ensures
        lower(name).len() == name.len(),
        forall|i: int|
            0 <= i < name.len() ==> lower(name)[i] == if 'A' <= #[trigger] name[i] <= 'Z' {
                (name[i] as int - 'A' as int + 'a' as int) as char
            } else {
                name[i]
            },
        lower(lower(name)) == lower(name),
{
    assert forall|i: int| 0 <= i < name.len() implies lower(lower(name))[i] == lower(name)[i] by {
        assert(lower(name)[i] == lower_char(name[i]));
    }
    assert(lower(lower(name)) =~= lower(name));
}

/// The value under a name is the first one that was sent, however many follow it and whatever
/// stands under other names, and there is none just where none was sent.
pub proof fn lemma_first_value_counts(
    fields: Fields,
    name: Seq<char>,
    other: Seq<char>,
    value: Seq<u8>,
    more: Seq<Seq<u8>>,
)
    ensures
        first_value(fields.insert(lower(name), seq![value] + more), name) == Some(value),
        first_value(fields.remove(lower(name)), name) is None,
        first_value(fields.insert(lower(name), Seq::empty()), name) is None,
        lower(other) != lower(name) ==> first_value(fields.insert(lower(other), more), name)
            == first_value(fields, name),
        lower(other) == lower(name) ==> first_value(fields, other) == first_value(fields, name),
{
    assert((seq![value] + more)[0] == value);
}

} // verus!
