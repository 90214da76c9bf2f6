//! Strings in JSON notation.
use vstd::prelude::*;

verus! {

/// The character of a hexadecimal digit, in lower case.
pub open spec fn hex_digit(value: int) -> char {
    if value < 10 {
        (value + '0' as int) as char
    } else {
        (value - 10 + 'a' as int) as char
    }
}

/// A character as it stands inside a JSON string: quotes, backslashes and control characters are
/// escaped.
pub open spec fn escaped_char(c: char) -> Seq<char> {
    if c == '"' || c == '\\' {
        seq!['\\', c]
    } else if c == '\u{8}' {
        seq!['\\', 'b']
    } else if c == '\t' {
        seq!['\\', 't']
    } else if c == '\n' {
        seq!['\\', 'n']
    } else if c == '\u{c}' {
        seq!['\\', 'f']
    } else if c == '\r' {
        seq!['\\', 'r']
    } else if (c as int) < 0x20 {
        seq!['\\', 'u', '0', '0', hex_digit(c as int / 16), hex_digit(c as int % 16)]
    } else {
        seq![c]
    }
}

/// A text as it stands inside a JSON string.
pub open spec fn escaped(text: Seq<char>) -> Seq<char>
    decreases text.len(),
{
    if text.len() == 0 {
        Seq::empty()
    } else {
        escaped(text.drop_last()) + escaped_char(text.last())
    }
}

/// A text as a JSON string.
pub open spec fn quoted(text: Seq<char>) -> Seq<char> {
    seq!['"'] + escaped(text) + seq!['"']
}

/// Calls `serde_json::to_string` on a string, which never fails and gives the string in quotes,
/// with quotes, backslashes and control characters escaped.
#[verifier::external_body]
pub(crate) fn quote(text: &str) -> (json: String)
    ensures
        json@ == quoted(text@),
{
    serde_json::to_string(text).expect("a string always has a JSON notation")
}

/// The first character of a text can be escaped by itself.
proof fn lemma_escaped_first(text: Seq<char>)
    requires
        text.len() > 0,
    ensures
        escaped(text) == escaped_char(text[0]) + escaped(text.skip(1)),
    decreases text.len(),
{
    let rest = text.skip(1);
    if text.len() == 1 {
        assert(text.drop_last() == Seq::<char>::empty());
        assert(escaped(text.drop_last()) == Seq::<char>::empty());
        assert(rest == Seq::<char>::empty());
        assert(escaped(rest) == Seq::<char>::empty());
        assert(escaped(text) == escaped_char(text[0]));
        assert(escaped_char(text[0]) + escaped(rest) == escaped_char(text[0]));
    } else {
        lemma_escaped_first(text.drop_last());
        assert(text.drop_last().skip(1) == rest.drop_last());
        assert(escaped(rest) == escaped(rest.drop_last()) + escaped_char(rest.last()));
        assert(escaped(text) == escaped_char(text[0]) + escaped(rest.drop_last()) + escaped_char(
            text.last(),
        ));
        assert(escaped(text) == escaped_char(text[0]) + escaped(rest));
    }
}

/// An escaped character can be told from every other, whatever follows.
proof fn lemma_escaped_char_is_unique(
    c: char,
    d: char,
    after_c: Seq<char>,
    after_d: Seq<char>,
)
    requires
        escaped_char(c) + after_c == escaped_char(d) + after_d,
    ensures
        c == d,
        after_c == after_d,
{
    let left = escaped_char(c) + after_c;
    let right = escaped_char(d) + after_d;
    assert(left[0] == escaped_char(c)[0]);
    assert(right[0] == escaped_char(d)[0]);
    if escaped_char(c).len() > 1 && escaped_char(d).len() > 1 {
        assert(left[1] == escaped_char(c)[1]);
        assert(right[1] == escaped_char(d)[1]);
        if escaped_char(c).len() == 6 && escaped_char(d).len() == 6 {
            assert(left[4] == escaped_char(c)[4] && left[5] == escaped_char(c)[5]);
            assert(right[4] == escaped_char(d)[4] && right[5] == escaped_char(d)[5]);
        }
    }
    assert(c == d);
    assert(after_c == left.skip(escaped_char(c).len() as int));
    assert(after_d == right.skip(escaped_char(d).len() as int));
}

/// No escaped character begins with a quote.
proof fn lemma_escaped_char_is_no_quote(c: char)
    ensures
        escaped_char(c).len() > 0,
        escaped_char(c)[0] != '"',
{
}

/// The end of a text inside a JSON string can be told, whatever follows the closing quote.
proof fn lemma_escaped_is_unique(
    left: Seq<char>,
    right: Seq<char>,
    after_left: Seq<char>,
    after_right: Seq<char>,
)
    requires
        escaped(left) + seq!['"'] + after_left == escaped(right) + seq!['"'] + after_right,
    ensures
        left == right,
        after_left == after_right,
    decreases left.len(),
{
    let whole_left = escaped(left) + seq!['"'] + after_left;
    let whole_right = escaped(right) + seq!['"'] + after_right;
    if left.len() == 0 || right.len() == 0 {
        if left.len() > 0 {
            lemma_escaped_first(left);
            lemma_escaped_char_is_no_quote(left[0]);
            assert(whole_left[0] == escaped_char(left[0])[0]);
            assert(whole_right[0] == '"');
        }
        if right.len() > 0 {
            lemma_escaped_first(right);
            lemma_escaped_char_is_no_quote(right[0]);
            assert(whole_right[0] == escaped_char(right[0])[0]);
            assert(whole_left[0] == '"');
        }
        assert(left == right);
        assert(after_left == whole_left.skip(1));
        assert(after_right == whole_right.skip(1));
    } else {
        lemma_escaped_first(left);
        lemma_escaped_first(right);
        let rest_left = escaped(left.skip(1)) + seq!['"'] + after_left;
        let rest_right = escaped(right.skip(1)) + seq!['"'] + after_right;
        assert(whole_left == escaped_char(left[0]) + rest_left);
        assert(whole_right == escaped_char(right[0]) + rest_right);
        lemma_escaped_char_is_unique(left[0], right[0], rest_left, rest_right);
        lemma_escaped_is_unique(left.skip(1), right.skip(1), after_left, after_right);
        assert(left == seq![left[0]] + left.skip(1));
        assert(right == seq![right[0]] + right.skip(1));
    }
}

/// A JSON string tells exactly which text it stands for and where it ends, whatever follows it.
pub proof fn lemma_quoted_is_unique(
    left: Seq<char>,
    right: Seq<char>,
    after_left: Seq<char>,
    after_right: Seq<char>,
)
    requires
        quoted(left) + after_left == quoted(right) + after_right,
    ensures
        left == right,
        after_left == after_right,
{
    let whole_left = quoted(left) + after_left;
    let whole_right = quoted(right) + after_right;
    assert(whole_left.skip(1) == escaped(left) + seq!['"'] + after_left);
    assert(whole_right.skip(1) == escaped(right) + seq!['"'] + after_right);
    lemma_escaped_is_unique(left, right, after_left, after_right);
}

} // verus!
