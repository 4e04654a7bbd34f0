//! Port numbers as text.
use std::num::ParseIntError;
use vstd::prelude::*;

verus! {

/// The error of the standard library for a text that is no number.
#[verifier::external_type_specification]
#[verifier::external_body]
pub struct ExParseIntError(ParseIntError);

/// What `str::parse` makes of `text` where a `u16` is asked for.
pub uninterp spec fn parsed_port(text: Seq<char>) -> Result<u16, ParseIntError>;

/// Whether `c` is one of the ten decimal digits.
pub open spec fn is_digit(c: char) -> bool {
    '0' <= c <= '9'
}

/// The number that `digits` stands for in decimal notation.
pub open spec fn decimal(digits: Seq<char>) -> int
    decreases digits.len(),
{
    if digits.len() == 0 {
        0
    } else {
        10 * decimal(digits.drop_last()) + (digits.last() as int - '0' as int)
    }
}

/// `text` without the plus sign that may stand before a number.
pub open spec fn unsigned(text: Seq<char>) -> Seq<char> {
    if text.len() > 0 && text[0] == '+' {
        text.drop_first()
    } else {
        text
    }
}

/// Whether `text` is a port number: one or more decimal digits, which a plus sign may precede,
/// that stand for a number of sixteen bits.
pub open spec fn is_port(text: Seq<char>) -> bool {
    let digits = unsigned(text);
    &&& digits.len() > 0
    &&& forall|i: int| 0 <= i < digits.len() ==> is_digit(#[trigger] digits[i])
    &&& decimal(digits) <= u16::MAX
}

/// Calls `str::parse` for a `u16`. Trusted: it succeeds exactly on an optional plus sign followed
/// by decimal digits whose number fits into a `u16`, gives that number, and its error depends on
/// the text alone.
#[verifier::external_body]
pub(crate) fn parse_port(text: &str) -> (res: Result<u16, ParseIntError>)
    ensures
        res == parsed_port(text@),
        res is Ok <==> is_port(text@),
        res matches Ok(port) ==> port == decimal(unsigned(text@)),
{
    text.parse::<u16>()
}

/// A port number is read digit by digit: the digits before the last count ten times. A plus sign
/// before them changes nothing.
pub proof fn ports_are_decimal(digits: Seq<char>, last: char)
    ensures
        decimal(Seq::<char>::empty()) == 0,
        decimal(digits.push(last)) == 10 * decimal(digits) + (last as int - '0' as int),
        unsigned(seq!['+'] + digits) == digits,
        digits.len() > 0 && digits[0] != '+' ==> unsigned(digits) == digits,
        is_digit(last) <==> '0' <= last <= '9',
{
    assert(digits.push(last).drop_last() =~= digits);
    assert((seq!['+'] + digits).drop_first() =~= digits);
}

/// A text is a port number exactly if it has a digit, nothing but digits, and a number below
/// 65536; and it is one exactly if it is one behind a plus sign, unless it begins with one itself.
pub proof fn port_texts_are_digits(text: Seq<char>)
    requires
        text.len() > 0 ==> text[0] != '+',
    ensures
        is_port(text) <==> {
            &&& text.len() > 0
            &&& forall|i: int| 0 <= i < text.len() ==> '0' <= #[trigger] text[i] <= '9'
            &&& decimal(text) < 65536
        },
        is_port(seq!['+'] + text) <==> is_port(text),
        !is_port(seq!['+', '+'] + text),
{
    assert((seq!['+'] + text).drop_first() =~= text);
    let doubled = seq!['+', '+'] + text;
    assert(doubled.drop_first()[0] == '+');
    assert(!is_digit(unsigned(doubled)[0]));
    if forall|i: int| 0 <= i < text.len() ==> '0' <= #[trigger] text[i] <= '9' {
        assert forall|i: int| 0 <= i < text.len() implies is_digit(#[trigger] text[i]) by {
        }
    }
    if forall|i: int| 0 <= i < text.len() ==> is_digit(#[trigger] text[i]) {
        assert forall|i: int| 0 <= i < text.len() implies '0' <= #[trigger] text[i] <= '9' by {
            assert(is_digit(text[i]));
        }
    }
}

} // verus!
