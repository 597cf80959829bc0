//! Decimal numbers in text, read exactly.
//!
//! A number token is an optional sign, a run of decimal digits and, optionally,
//! a point or a comma with a second run of digits. Its value is held as a
//! fixed-point integer with nine decimal places, so sums and comparisons of
//! tokens are exact. A token whose integer part reaches a thousand million, or
//! that has more than nine decimal places, is out of range.

use vstd::prelude::*;
use crate::text::chars_of;

verus! {

/// The number of decimal places that a value keeps.
pub const DECIMAL_PLACES: usize = 9;

/// One, as a fixed-point value: ten to the power of [`DECIMAL_PLACES`].
pub const UNIT: u64 = 1_000_000_000;

/// Ten to the power of `n`.
pub open spec fn pow10(n: nat) -> int
    decreases n,
{
    if n == 0 {
        1
    } else {
        10 * pow10((n - 1) as nat)
    }
}

/// `c` is one of the ten ASCII digits.
pub open spec fn is_digit(c: char) -> bool {
    '0' <= c <= '9'
}

/// `c` separates the integer part of a number from its decimal places.
pub open spec fn is_separator(c: char) -> bool {
    c == '.' || c == ','
}

/// The value of a digit.
pub open spec fn digit_value(c: char) -> int {
    c as int - '0' as int
}

/// The number that a run of digits writes, zero for the empty run.
pub open spec fn digits_value(s: Seq<char>) -> int
    decreases s.len(),
{
    if s.len() == 0 {
        0
    } else {
        digits_value(s.drop_last()) * 10 + digit_value(s.last())
    }
}

/// The end of the run of digits that starts at `from`: the position of the
/// first character at or after `from` that is no digit, or the length of `s`.
pub open spec fn digits_end(s: Seq<char>, from: int) -> int
    decreases s.len() - from,
{
    if 0 <= from < s.len() && is_digit(s[from]) {
        digits_end(s, from + 1)
    } else {
        from
    }
}

/// What a token is worth.
pub enum TokenValue {
    /// A number, as a fixed-point value with nine decimal places.
    Number(int),
    /// A number too large or too fine to be held.
    OutOfRange,
    /// No number at all.
    Malformed,
}

/// The value of a number with the given sign, integer digits and decimal
/// digits.
pub open spec fn scaled_value(negative: bool, whole: Seq<char>, places: Seq<char>) -> TokenValue {
    if digits_value(whole) >= UNIT || places.len() > DECIMAL_PLACES {
        TokenValue::OutOfRange
    } else {
        let magnitude = digits_value(whole) * UNIT + digits_value(places) * pow10(
            (DECIMAL_PLACES - places.len()) as nat,
        );
        TokenValue::Number(
            if negative {
                -magnitude
            } else {
                magnitude
            },
        )
    }
}

/// The value of a token: the whole of `s` has to be one number.
pub open spec fn token_value(s: Seq<char>) -> TokenValue {
    let start: int = if s.len() > 0 && (s[0] == '-' || s[0] == '+') {
        1
    } else {
        0
    };
    let negative = s.len() > 0 && s[0] == '-';
    let whole_end = digits_end(s, start);
    if whole_end == start {
        TokenValue::Malformed
    } else if whole_end == s.len() {
        scaled_value(negative, s.subrange(start, whole_end), Seq::empty())
    } else if is_separator(s[whole_end]) {
        let places_end = digits_end(s, whole_end + 1);
        if places_end == whole_end + 1 || places_end != s.len() {
            TokenValue::Malformed
        } else {
            scaled_value(
                negative,
                s.subrange(start, whole_end),
                s.subrange(whole_end + 1, places_end),
            )
        }
    } else {
        TokenValue::Malformed
    }
}

/// What a token is worth, as the parser hands it out.
#[derive(Clone, Copy, Debug, PartialEq, Eq, Structural)]
pub enum ParsedToken {
    /// A number, as a fixed-point value with nine decimal places.
    Number(i64),
    /// A number too large or too fine to be held.
    OutOfRange,
    /// No number at all.
    Malformed,
}

impl View for ParsedToken {
    type V = TokenValue;

    open spec fn view(&self) -> TokenValue {
        match *self {
            ParsedToken::Number(v) => TokenValue::Number(v as int),
            ParsedToken::OutOfRange => TokenValue::OutOfRange,
            ParsedToken::Malformed => TokenValue::Malformed,
        }
    }
}

/// A run of digits is worth less than ten to the power of its length.
pub proof fn lemma_digits_value_bound(s: Seq<char>)
    requires
        forall|i: int| 0 <= i < s.len() ==> is_digit(s[i]),
    ensures
        0 <= digits_value(s) < pow10(s.len()),
    decreases s.len(),
{
    if s.len() > 0 {
        lemma_digits_value_bound(s.drop_last());
    }
}

/// The end of a run of digits lies between its start and the end of the text,
/// everything before it is a digit, and the character at it is none.
pub proof fn lemma_digits_end(s: Seq<char>, from: int)
    requires
        0 <= from <= s.len(),
    ensures
        from <= digits_end(s, from) <= s.len(),
        forall|i: int| from <= i < digits_end(s, from) ==> is_digit(s[i]),
        digits_end(s, from) < s.len() ==> !is_digit(s[digits_end(s, from)]),
    decreases s.len() - from,
{
    if from < s.len() && is_digit(s[from]) {
        lemma_digits_end(s, from + 1);
    }
}

/// Reads the run of digits that starts at `from`. Returns its end and its
/// value; a value of [`UNIT`] or more is handed out as [`UNIT`].
fn read_digits(s: &Vec<char>, from: usize) -> (r: (usize, u64))
    requires
        from <= s.len(),
    ensures
        r.0 == digits_end(s@, from as int),
        from <= r.0 <= s.len(),
        digits_value(s@.subrange(from as int, r.0 as int)) < UNIT ==> r.1 == digits_value(
            s@.subrange(from as int, r.0 as int),
        ),
        digits_value(s@.subrange(from as int, r.0 as int)) >= UNIT ==> r.1 == UNIT,
        forall|i: int| from <= i < r.0 ==> is_digit(s[i]),
{
    let mut end: usize = from;
    let mut value: u64 = 0;
    proof {
        lemma_digits_end(s@, from as int);
    }
    while end < s.len() && '0' <= s[end] && s[end] <= '9'
        invariant
            from <= end <= s.len(),
            digits_end(s@, end as int) == digits_end(s@, from as int),
            forall|i: int| from <= i < end ==> is_digit(s[i]),
            value <= UNIT,
            digits_value(s@.subrange(from as int, end as int)) < UNIT ==> value == digits_value(
                s@.subrange(from as int, end as int),
            ),
            digits_value(s@.subrange(from as int, end as int)) >= UNIT ==> value == UNIT,
            0 <= digits_value(s@.subrange(from as int, end as int)),
        decreases s.len() - end,
    {
        let digit: u64 = (s[end] as u64) - ('0' as u64);
        proof {
            let longer = s@.subrange(from as int, end + 1);
            assert(longer.drop_last() =~= s@.subrange(from as int, end as int));
            assert(longer.last() == s[end as int]);
            assert(digit == digit_value(s[end as int]));
        }
        if value >= UNIT {
            value = UNIT;
        } else {
            let next: u64 = value * 10 + digit;
            if next >= UNIT {
                value = UNIT;
            } else {
                value = next;
            }
        }
        end = end + 1;
    }
    (end, value)
}

/// `value` times ten to the power of `places`.
fn shift_left(value: u64, places: usize) -> (r: u64)
    requires
        places <= DECIMAL_PLACES,
        value * pow10(places as nat) < UNIT,
    ensures
        r == value * pow10(places as nat),
{
    let mut out: u64 = value;
    let mut done: usize = 0;
    while done < places
        invariant
            done <= places <= DECIMAL_PLACES,
            out == value * pow10(done as nat),
            value * pow10(places as nat) < UNIT,
        decreases places - done,
    {
        proof {
            lemma_pow10_monotonic((done + 1) as nat, places as nat);
            assert(value * pow10((done + 1) as nat) <= value * pow10(places as nat))
                by (nonlinear_arith)
                requires
                    pow10((done + 1) as nat) <= pow10(places as nat),
                    value >= 0,
            ;
            assert(value * pow10((done + 1) as nat) == 10 * (value * pow10(done as nat)))
                by (nonlinear_arith)
                requires
                    pow10((done + 1) as nat) == 10 * pow10(done as nat),
            ;
        }
        out = out * 10;
        done = done + 1;
    }
    out
}

/// Powers of ten are positive and grow with the exponent.
pub proof fn lemma_pow10_monotonic(a: nat, b: nat)
    requires
        a <= b,
    ensures
        0 < pow10(a) <= pow10(b),
    decreases b,
{
    if a < b {
        lemma_pow10_monotonic(a, (b - 1) as nat);
    } else if a > 0 {
        lemma_pow10_monotonic((a - 1) as nat, (b - 1) as nat);
    }
}

/// Ten to the power of [`DECIMAL_PLACES`] is [`UNIT`].
pub proof fn lemma_pow10_unit()
    ensures
        pow10(DECIMAL_PLACES as nat) == UNIT,
{
    reveal_with_fuel(pow10, 10);
}

/// Ten to the power of a sum is the product of the powers.
pub proof fn lemma_pow10_add(a: nat, b: nat)
    ensures
        pow10(a + b) == pow10(a) * pow10(b),
    decreases a,
{
    if a > 0 {
        lemma_pow10_add((a - 1) as nat, b);
        assert(pow10(a + b) == 10 * pow10((a - 1 + b) as nat));
        assert(10 * (pow10((a - 1) as nat) * pow10(b)) == (10 * pow10((a - 1) as nat)) * pow10(b))
            by (nonlinear_arith);
    } else {
        assert(pow10(0) * pow10(b) == pow10(b)) by (nonlinear_arith)
            requires
                pow10(0) == 1,
        ;
    }
}

/// Puts a number together from its sign, its integer part and its decimal
/// places.
fn assemble(negative: bool, whole: u64, places: u64, places_len: usize) -> (r: ParsedToken)
    requires
        whole <= UNIT,
        places <= UNIT,
        places_len <= DECIMAL_PLACES ==> places < pow10(places_len as nat),
    ensures
        r@ == (if whole >= UNIT || places_len > DECIMAL_PLACES {
            TokenValue::OutOfRange
        } else {
            let magnitude = whole * UNIT + places * pow10((DECIMAL_PLACES - places_len) as nat);
            TokenValue::Number(
                if negative {
                    -magnitude
                } else {
                    magnitude
                },
            )
        }),
{
    if whole >= UNIT || places_len > DECIMAL_PLACES {
        return ParsedToken::OutOfRange;
    }
    proof {
        lemma_pow10_add(places_len as nat, (DECIMAL_PLACES - places_len) as nat);
        lemma_pow10_unit();
        lemma_pow10_monotonic(0, (DECIMAL_PLACES - places_len) as nat);
        assert(places * pow10((DECIMAL_PLACES - places_len) as nat) < pow10(places_len as nat)
            * pow10((DECIMAL_PLACES - places_len) as nat)) by (nonlinear_arith)
            requires
                places < pow10(places_len as nat),
                0 < pow10((DECIMAL_PLACES - places_len) as nat),
        ;
    }
    let fine: u64 = shift_left(places, DECIMAL_PLACES - places_len);
    assert(whole * UNIT <= (UNIT - 1) * UNIT) by (nonlinear_arith)
        requires
            whole <= UNIT - 1,
    ;
    let magnitude: u64 = whole * UNIT + fine;
    if negative {
        ParsedToken::Number(-(magnitude as i64))
    } else {
        ParsedToken::Number(magnitude as i64)
    }
}

/// Reads a token as one number.
pub fn parse_token(token: &str) -> (r: ParsedToken)
    ensures
        r@ == token_value(token@),
{
    let s = chars_of(token);
    let mut start: usize = 0;
    let mut negative = false;
    if s.len() > 0 {
        if s[0] == '-' {
            negative = true;
            start = 1;
        } else if s[0] == '+' {
            start = 1;
        }
    }
    let (whole_end, whole) = read_digits(&s, start);
    if whole_end == start {
        return ParsedToken::Malformed;
    }
    if whole_end == s.len() {
        proof {
            assert(pow10(0) == 1);
            assert(digits_value(Seq::<char>::empty()) == 0);
        }
        return assemble(negative, whole, 0, 0);
    }
    let c = s[whole_end];
    if c == '.' || c == ',' {
        let (places_end, places) = read_digits(&s, whole_end + 1);
        if places_end == whole_end + 1 || places_end != s.len() {
            return ParsedToken::Malformed;
        }
        let places_len: usize = places_end - (whole_end + 1);
        proof {
            let run = s@.subrange(whole_end + 1, places_end as int);
            lemma_digits_value_bound(run);
            if places_len <= DECIMAL_PLACES {
                lemma_pow10_monotonic(places_len as nat, DECIMAL_PLACES as nat);
                lemma_pow10_unit();
            }
        }
        assemble(negative, whole, places, places_len)
    } else {
        ParsedToken::Malformed
    }
}

/// What a token adds to a sum: its value where it is a number, else nothing.
pub open spec fn token_amount(token: Seq<char>) -> int {
    match token_value(token) {
        TokenValue::Number(v) => v,
        _ => 0,
    }
}

/// The sum of the tokens that are numbers.
pub open spec fn sum_of(tokens: Seq<Seq<char>>) -> int
    decreases tokens.len(),
{
    if tokens.len() == 0 {
        0
    } else {
        sum_of(tokens.drop_last()) + token_amount(tokens.last())
    }
}

/// One of the tokens is a number.
pub open spec fn has_number(tokens: Seq<Seq<char>>) -> bool {
    exists|i: int| 0 <= i < tokens.len() && #[trigger] token_value(tokens[i]) is Number
}

/// One of the tokens is a number that is out of range.
pub open spec fn has_out_of_range(tokens: Seq<Seq<char>>) -> bool {
    exists|i: int| 0 <= i < tokens.len() && #[trigger] token_value(tokens[i]) is OutOfRange
}

/// The total of a list of tokens: the exact sum of those that are numbers.
/// There is no total where none of them is a number, nor where one of them is
/// out of range. Tokens that are no numbers at all are passed over.
pub open spec fn total_of(tokens: Seq<Seq<char>>) -> Option<int> {
    if has_out_of_range(tokens) || !has_number(tokens) {
        None
    } else {
        Some(sum_of(tokens))
    }
}

/// The total of a list of tokens.
pub fn total(tokens: &Vec<String>) -> (r: Option<i128>)
    ensures
        r is Some <==> total_of(tokens.deep_view()) is Some,
        r matches Some(v) ==> total_of(tokens.deep_view()) == Some(v as int),
{
    let ghost all = tokens.deep_view();
    let mut sum: i128 = 0;
    let mut seen = false;
    let mut i: usize = 0;
    while i < tokens.len()
        invariant
            i <= tokens.len(),
            all == tokens.deep_view(),
            sum == sum_of(all.take(i as int)),
            -(i * (UNIT * UNIT)) <= sum <= i * (UNIT * UNIT),
            seen == has_number(all.take(i as int)),
            !has_out_of_range(all.take(i as int)),
        decreases tokens.len() - i,
    {
        let parsed = parse_token(tokens[i].as_str());
        proof {
            let before = all.take(i as int);
            let after = all.take(i + 1);
            assert(after.drop_last() =~= before);
            assert(after.last() == tokens[i as int]@);
            assert(forall|k: int| 0 <= k < i ==> after[k] == before[k]);
            if has_number(before) {
                let k = choose|k: int|
                    0 <= k < before.len() && #[trigger] token_value(before[k]) is Number;
                assert(token_value(after[k]) is Number);
            }
            if has_number(after) && !(parsed@ is Number) {
                let k = choose|k: int|
                    0 <= k < after.len() && #[trigger] token_value(after[k]) is Number;
                assert(token_value(before[k]) is Number);
            }
            assert((i + 1) * (UNIT * UNIT) == i * (UNIT * UNIT) + UNIT * UNIT)
                by (nonlinear_arith);
            if has_out_of_range(after) && !(parsed@ is OutOfRange) {
                let k = choose|k: int|
                    0 <= k < after.len() && #[trigger] token_value(after[k]) is OutOfRange;
                assert(token_value(before[k]) is OutOfRange);
            }
        }
        match parsed {
            ParsedToken::Number(v) => {
                proof {
                    assert(token_value(all.take(i + 1)[i as int]) is Number);
                    assert(-(UNIT * UNIT) < v < UNIT * UNIT) by {
                        lemma_token_bound(tokens[i as int]@);
                    }
                    assert(i * (UNIT * UNIT) <= 0xffff_ffff_ffff_ffff * (UNIT * UNIT))
                        by (nonlinear_arith)
                        requires
                            i <= 0xffff_ffff_ffff_ffff,
                    ;
                }
                sum = sum + (v as i128);
                seen = true;
            },
            ParsedToken::OutOfRange => {
                proof {
                    assert(token_value(all[i as int]) is OutOfRange);
                    assert(has_out_of_range(all));
                }
                return None;
            },
            ParsedToken::Malformed => {},
        }
        i = i + 1;
    }
    proof {
        assert(all.take(tokens.len() as int) =~= all);
    }
    if seen {
        Some(sum)
    } else {
        None
    }
}

/// A number in range lies strictly between minus and plus [`UNIT`] squared.
pub proof fn lemma_token_bound(token: Seq<char>)
    ensures
        token_value(token) matches TokenValue::Number(v) ==> -(UNIT * UNIT) < v < UNIT * UNIT,
{
    if let TokenValue::Number(v) = token_value(token) {
        let start: int = if token.len() > 0 && (token[0] == '-' || token[0] == '+') {
            1
        } else {
            0
        };
        let whole_end = digits_end(token, start);
        lemma_digits_end(token, start);
        let whole = token.subrange(start, whole_end);
        let places = if whole_end == token.len() {
            Seq::<char>::empty()
        } else {
            token.subrange(whole_end + 1, digits_end(token, whole_end + 1))
        };
        if whole_end < token.len() {
            lemma_digits_end(token, whole_end + 1);
        }
        lemma_digits_value_bound(whole);
        lemma_digits_value_bound(places);
        let rest = (DECIMAL_PLACES - places.len()) as nat;
        lemma_pow10_add(places.len(), rest);
        lemma_pow10_unit();
        lemma_pow10_monotonic(0, rest);
        assert(digits_value(places) * pow10(rest) < pow10(places.len()) * pow10(rest))
            by (nonlinear_arith)
            requires
                digits_value(places) < pow10(places.len()),
                0 < pow10(rest),
        ;
        assert(0 <= digits_value(places) * pow10(rest)) by (nonlinear_arith)
            requires
                0 <= digits_value(places),
                0 < pow10(rest),
        ;
        assert(digits_value(whole) * UNIT <= (UNIT - 1) * UNIT) by (nonlinear_arith)
            requires
                digits_value(whole) <= UNIT - 1,
        ;
        assert(0 <= digits_value(whole) * UNIT) by (nonlinear_arith)
            requires
                0 <= digits_value(whole),
        ;
    }
}

/// The whole number that a text writes: an optional sign and at least one
/// decimal digit, nothing else, and a value from `lowest` to `highest`. Any
/// other text writes no number.
pub open spec fn written_integer(s: Seq<char>, lowest: int, highest: int) -> Option<int> {
    let start: int = if s.len() > 0 && (s[0] == '-' || s[0] == '+') {
        1
    } else {
        0
    };
    let value = digits_value(s.subrange(start, s.len() as int));
    let signed = if s.len() > 0 && s[0] == '-' {
        -value
    } else {
        value
    };
    if start < s.len() && digits_end(s, start) == s.len() && lowest <= signed <= highest {
        Some(signed)
    } else {
        None
    }
}

/// The value of a run of digits does not shrink when the run grows.
proof fn lemma_digits_grow(s: Seq<char>, from: int, to: int, end: int)
    requires
        0 <= from <= to <= end <= s.len(),
        forall|i: int| from <= i < end ==> is_digit(s[i]),
    ensures
        0 <= digits_value(s.subrange(from, to)) <= digits_value(s.subrange(from, end)),
    decreases end - to,
{
    lemma_digits_value_bound(s.subrange(from, to));
    if to < end {
        lemma_digits_grow(s, from, to + 1, end);
        let longer = s.subrange(from, to + 1);
        assert(longer.drop_last() =~= s.subrange(from, to));
        assert(longer.last() == s[to]);
    }
}

/// Reads a text as a whole number from `lowest` to `highest`.
pub fn parse_integer(text: &str, lowest: i64, highest: i64) -> (r: Option<i64>)
    ensures
        r is Some <==> written_integer(text@, lowest as int, highest as int) is Some,
        r matches Some(v) ==> written_integer(text@, lowest as int, highest as int) == Some(
            v as int,
        ),
{
    let s = chars_of(text);
    let mut start: usize = 0;
    let mut negative = false;
    if s.len() > 0 {
        if s[0] == '-' {
            negative = true;
            start = 1;
        } else if s[0] == '+' {
            start = 1;
        }
    }
    if start >= s.len() {
        return None;
    }
    let mut value: i128 = 0;
    let mut i: usize = start;
    while i < s.len()
        invariant
            start <= i <= s.len(),
            start < s.len(),
            s@ == text@,
            start == (if s.len() > 0 && (s[0] == '-' || s[0] == '+') {
                1int
            } else {
                0int
            }),
            forall|k: int| start <= k < i ==> is_digit(s[k]),
            value == digits_value(s@.subrange(start as int, i as int)),
            0 <= value <= 0x8000_0000_0000_0000,
        decreases s.len() - i,
    {
        if !('0' <= s[i] && s[i] <= '9') {
            proof {
                lemma_digits_end(s@, start as int);
                if digits_end(s@, start as int) == s.len() {
                    assert(is_digit(s@[i as int]));
                }
            }
            return None;
        }
        let digit: i128 = (s[i] as i128) - ('0' as i128);
        proof {
            let longer = s@.subrange(start as int, i + 1);
            assert(longer.drop_last() =~= s@.subrange(start as int, i as int));
            assert(longer.last() == s[i as int]);
            assert(digit == digit_value(s[i as int]));
        }
        let next: i128 = value * 10 + digit;
        assert(next == digits_value(s@.subrange(start as int, i + 1)));
        if next > 0x8000_0000_0000_0000 {
            proof {
                lemma_digits_end(s@, start as int);
                if digits_end(s@, start as int) == s.len() {
                    assert forall|k: int| start <= k < s.len() implies is_digit(s@[k]) by {}
                    lemma_digits_grow(s@, start as int, i + 1, s.len() as int);
                }
            }
            return None;
        }
        value = next;
        i = i + 1;
    }
    proof {
        lemma_digits_end(s@, start as int);
        assert(digits_end(s@, start as int) == s.len());
    }
    let signed: i128 = if negative {
        -value
    } else {
        value
    };
    if (lowest as i128) <= signed && signed <= (highest as i128) {
        Some(signed as i64)
    } else {
        None
    }
}

} // verus!
