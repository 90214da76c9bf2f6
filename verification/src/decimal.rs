//! Decimal notation of integers.
use vstd::prelude::*;
use vstd::string::StrSliceExecFns;

verus! {

/// The character of a digit below ten.
pub open spec fn digit(value: int) -> char {
    (value + '0' as int) as char
}

/// The decimal notation of a natural number, without leading zeros.
pub open spec fn natural(value: nat) -> Seq<char>
    decreases value,
{
    if value < 10 {
        seq![digit(value as int)]
    } else {
        natural(value / 10).push(digit((value % 10) as int))
    }
}

/// The decimal notation of an integer, with a sign only where it is negative.
pub open spec fn decimal(value: int) -> Seq<char> {
    if value < 0 {
        seq!['-'] + natural((-value) as nat)
    } else {
        natural(value as nat)
    }
}

/// Whether a character is a decimal digit.
pub open spec fn is_digit(c: char) -> bool {
    '0' <= c <= '9'
}

/// Whether all characters are decimal digits.
pub open spec fn all_digits(text: Seq<char>) -> bool {
    forall|i: int| 0 <= i < text.len() ==> is_digit(#[trigger] text[i])
}

/// The number that a row of digits stands for.
pub open spec fn digits_value(digits: Seq<char>) -> int
    decreases digits.len(),
{
    if digits.len() == 0 {
        0
    } else {
        digits_value(digits.drop_last()) * 10 + (digits.last() as int - '0' as int)
    }
}

/// Whether the text begins with a minus sign.
pub open spec fn is_negative(text: Seq<char>) -> bool {
    text.len() > 0 && text[0] == '-'
}

/// The text behind its sign, if it has one.
pub open spec fn unsigned_part(text: Seq<char>) -> Seq<char> {
    if text.len() > 0 && (text[0] == '-' || text[0] == '+') {
        text.skip(1)
    } else {
        text
    }
}

/// The integer that the text stands for: an optional sign, then digits and nothing else, with a
/// value that an `i32` can hold.
pub open spec fn read_i32(text: Seq<char>) -> Option<i32> {
    let digits = unsigned_part(text);
    let value = if is_negative(text) {
        -digits_value(digits)
    } else {
        digits_value(digits)
    };
    if digits.len() > 0 && all_digits(digits) && i32::MIN <= value <= i32::MAX {
        Some(value as i32)
    } else {
        None
    }
}

/// Further digits never make a number smaller.
proof fn lemma_prefix_is_not_larger(digits: Seq<char>, length: int)
    requires
        0 <= length <= digits.len(),
        all_digits(digits),
    ensures
        0 <= digits_value(digits.take(length)) <= digits_value(digits),
    decreases digits.len(),
{
    if length == digits.len() {
        assert(digits.take(length) == digits);
        if length > 0 {
            assert(is_digit(digits[length - 1]));
            lemma_prefix_is_not_larger(digits.drop_last(), length - 1);
            assert(digits.drop_last().take(length - 1) == digits.drop_last());
        }
    } else {
        assert(is_digit(digits[digits.len() - 1]));
        lemma_prefix_is_not_larger(digits.drop_last(), length);
        assert(digits.drop_last().take(length) == digits.take(length));
    }
}

/// Reads an integer in decimal notation.
pub fn parse_i32(text: &str) -> (parsed: Option<i32>)
    ensures
        parsed == read_i32(text@),
{
    let length: usize = text.unicode_len();
    if length == 0 {
        return None;
    }
    let first = text.get_char(0);
    let negative = first == '-';
    let start: usize = if negative || first == '+' {
        1
    } else {
        0
    };
    let digits = text.substring_char(start, length);
    assert(digits@ == unsigned_part(text@));
    if digits.unicode_len() == 0 {
        return None;
    }
    let mut value: i64 = 0;
    for c in it: digits.chars()
        invariant
            it.seq() == digits@,
            digits@ == unsigned_part(text@),
            all_digits(digits@.take(it.index() as int)),
            value == digits_value(digits@.take(it.index() as int)),
            0 <= value <= 0x8000_0000,
    {
        let ghost read = digits@.take(it.index() as int);
        let ghost next = digits@.take(it.index() as int + 1);
        assert(c == digits@[it.index() as int]);
        assert(next.drop_last() == read);
        assert(next.last() == c);
        if c < '0' || c > '9' {
            assert(!is_digit(digits@[it.index() as int]));
            return None;
        }
        assert(all_digits(next)) by {
            assert forall|i: int| 0 <= i < next.len() implies is_digit(#[trigger] next[i]) by {
                if i < read.len() {
                    assert(next[i] == read[i]);
                }
            }
        }
        value = value * 10 + (c as i64 - '0' as i64);
        if value > 0x8000_0000 {
            proof {
                if all_digits(digits@) {
                    lemma_prefix_is_not_larger(digits@, it.index() as int + 1);
                }
            }
            return None;
        }
    }
    assert(digits@.take(digits@.len() as int) == digits@);
    if negative {
        Some((-value) as i32)
    } else if value <= 0x7fff_ffff {
        Some(value as i32)
    } else {
        None
    }
}

/// The notation of a natural number is a row of digits that stands for it.
proof fn lemma_natural(value: nat)
    ensures
        natural(value).len() > 0,
        all_digits(natural(value)),
        digits_value(natural(value)) == value,
    decreases value,
{
    if value < 10 {
        let text = natural(value);
        assert(text.drop_last() == Seq::<char>::empty());
        assert(digits_value(text.drop_last()) == 0);
    } else {
        lemma_natural(value / 10);
        let text = natural(value);
        assert(text.drop_last() == natural(value / 10));
        assert forall|i: int| 0 <= i < text.len() implies is_digit(#[trigger] text[i]) by {
            if i < text.len() - 1 {
                assert(text[i] == natural(value / 10)[i]);
            }
        }
    }
}

/// Reading the notation of an `i32` gives that `i32` back.
pub proof fn lemma_decimal_round_trip(value: i32)
    ensures
        read_i32(decimal(value as int)) == Some(value),
{
    let text = decimal(value as int);
    if value < 0 {
        lemma_natural((-value) as nat);
        assert(unsigned_part(text) == natural((-value) as nat));
    } else {
        lemma_natural(value as nat);
        assert(is_digit(text[0]));
        assert(unsigned_part(text) == text);
    }
}

/// A number is read digit by digit: one more digit behind a number makes it ten times as large,
/// plus the digit, away from zero, as long as an `i32` can hold it; and a single digit stands for
/// itself. This goes for leading zeros too.
pub proof fn lemma_one_digit_more(text: Seq<char>, value: i32, next: int)
    requires
        0 <= next < 10,
        read_i32(text) == Some(value),
    ensures
        read_i32(seq![('0' as int + next) as char]) == Some(next as i32),
        ({
            let longer = text.push(('0' as int + next) as char);
            let result = if text[0] == '-' {
                value * 10 - next
            } else {
                value * 10 + next
            };
            if i32::MIN <= result <= i32::MAX {
                read_i32(longer) == Some(result as i32)
            } else {
                read_i32(longer) is None
            }
        }),
{
    let c = ('0' as int + next) as char;
    assert(is_digit(c));
    let single = seq![c];
    assert(unsigned_part(single) == single);
    assert(single.drop_last() == Seq::<char>::empty());
    assert(digits_value(single.drop_last()) == 0);
    let digits = unsigned_part(text);
    let longer = text.push(c);
    assert(unsigned_part(longer) =~= digits.push(c));
    assert(digits.push(c).drop_last() == digits);
    assert(digits_value(digits.push(c)) == digits_value(digits) * 10 + next);
    assert forall|i: int| 0 <= i < digits.push(c).len() implies is_digit(
        #[trigger] digits.push(c)[i],
    ) by {
        if i < digits.len() {
            assert(digits.push(c)[i] == digits[i]);
        }
    }
}

/// A sign before a number without one changes nothing where it is a plus, and turns the number
/// round where it is a minus.
pub proof fn lemma_sign_before_a_number(text: Seq<char>, value: i32)
    requires
        read_i32(text) == Some(value),
        text[0] != '-',
        text[0] != '+',
    ensures
        read_i32(seq!['+'] + text) == Some(value),
        read_i32(seq!['-'] + text) == Some((-value) as i32),
{
    assert(unsigned_part(text) == text);
    assert(unsigned_part(seq!['+'] + text) =~= text);
    assert(unsigned_part(seq!['-'] + text) =~= text);
    lemma_prefix_is_not_larger(text, 0);
}

/// A text with anything in it but digits behind at most one sign stands for no number, and neither
/// does one without any digit.
pub proof fn lemma_only_digits_are_read(text: Seq<char>, place: int)
    requires
        text.len() == 0 || text == seq!['-'] || text == seq!['+'] || 0 <= place < text.len() && !(
        '0' <= text[place] <= '9') && (place > 0 || text[0] != '-' && text[0] != '+'),
    ensures
        read_i32(text) is None,
{
    let digits = unsigned_part(text);
    if text.len() > 0 && text != seq!['-'] && text != seq!['+'] {
        let signed = text[0] == '-' || text[0] == '+';
        let at = if signed {
            place - 1
        } else {
            place
        };
        assert(digits[at] == text[place]);
        assert(!is_digit(digits[at]));
    }
}

} // verus!
